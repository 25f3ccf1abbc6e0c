use figgie_auto::cli::{
    choose_agent, find_agent, names_of, parse_args, parse_player_name, seat_players, Agent,
    ArgError, CliArgs, Command,
};
use figgie_auto::player::PlayerName;

fn raw(args: &[&str]) -> Vec<String> {
    args.iter().map(|arg| arg.to_string()).collect()
}

fn run(args: &[&str]) -> CliArgs {
    match parse_args(&raw(args), 77) {
        Command::Run(args) => args,
        _ => panic!("no run"),
    }
}

fn refusal(args: &[&str]) -> ArgError {
    match parse_args(&raw(args), 77) {
        Command::Refuse(error) => error,
        _ => panic!("no refusal"),
    }
}

#[test]
fn defaults_without_arguments() {
    let args = run(&[]);
    assert_eq!(args.log_dir, None);
    assert_eq!(args.seed, 77);
    assert_eq!(args.max_rounds, None);
    assert_eq!(args.round_duration_secs, 240);
    assert_eq!(args.inter_round_sleep_secs, 30);
    assert_eq!(args.deal_warmup_secs, 5);
    assert!(!args.quiet);
    assert_eq!(args.external_player_cmd, None);
    assert_eq!(args.opponent, "TiltInventory");
}

#[test]
fn every_argument_is_followed() {
    let args = run(&[
        "--log-dir", "logs", "--seed", "18446744073709551615", "--max-rounds", "4294967295",
        "--round-duration-secs", "1", "--inter-round-sleep-secs", "+2", "--deal-warmup-secs", "003",
        "--quiet", "--external-player-cmd", "bot --fast", "--opponent", "Noisy",
    ]);
    assert_eq!(args.log_dir, Some("logs".to_string()));
    assert_eq!(args.seed, u64::MAX);
    assert_eq!(args.max_rounds, Some(u32::MAX));
    assert_eq!(args.round_duration_secs, 1);
    assert_eq!(args.inter_round_sleep_secs, 2);
    assert_eq!(args.deal_warmup_secs, 3);
    assert!(args.quiet);
    assert_eq!(args.external_player_cmd, Some("bot --fast".to_string()));
    assert_eq!(args.opponent, "Noisy");
}

#[test]
fn last_value_counts() {
    let args = run(&["--games", "3", "--seed", "1", "--max-rounds", "5", "--seed", "0"]);
    assert_eq!(args.max_rounds, Some(5));
    assert_eq!(args.seed, 0);
}

#[test]
fn values_may_look_like_arguments() {
    let args = run(&["--log-dir", "--help", "--opponent", "--seed"]);
    assert_eq!(args.log_dir, Some("--help".to_string()));
    assert_eq!(args.opponent, "--seed");
    assert_eq!(args.seed, 77);
}

#[test]
fn only_the_seed_is_fresh() {
    for args in [vec!["--quiet"], vec!["--quiet", "--seed", "5"]] {
        let (a, b) = match (parse_args(&raw(&args), 1), parse_args(&raw(&args), 2)) {
            (Command::Run(a), Command::Run(b)) => (a, b),
            _ => panic!("no run"),
        };
        assert_eq!(a.quiet, b.quiet);
        assert_eq!((a.seed, b.seed), if args.len() == 1 { (1, 2) } else { (5, 5) });
    }
}

#[test]
fn help_is_given_on_request() {
    assert!(matches!(parse_args(&raw(&["-h"]), 0), Command::Help));
    assert!(matches!(parse_args(&raw(&["--quiet", "--help", "--what"]), 0), Command::Help));
}

#[test]
fn what_cannot_be_followed_is_refused() {
    assert!(matches!(refusal(&["--seed"]), ArgError::MissingValue));
    assert!(matches!(refusal(&["--quiet", "--opponent"]), ArgError::MissingValue));
    assert!(matches!(refusal(&["--seed", "18446744073709551616"]), ArgError::BadSeed));
    assert!(matches!(refusal(&["--seed", "-1"]), ArgError::BadSeed));
    assert!(matches!(refusal(&["--seed", ""]), ArgError::BadSeed));
    assert!(matches!(refusal(&["--seed", "+"]), ArgError::BadSeed));
    assert!(matches!(refusal(&["--seed", "1 "]), ArgError::BadSeed));
    assert!(matches!(refusal(&["--games", "4294967296"]), ArgError::BadMaxRounds));
    assert!(matches!(refusal(&["--max-rounds", "x"]), ArgError::BadMaxRounds));
    assert!(matches!(refusal(&["--round-duration-secs", "1.5"]), ArgError::BadSeconds));
    assert!(matches!(refusal(&["--inter-round-sleep-secs", "a"]), ArgError::BadSeconds));
    assert!(matches!(refusal(&["--deal-warmup-secs", "-3"]), ArgError::BadSeconds));
    assert!(matches!(refusal(&["--verbose"]), ArgError::Unknown(arg) if arg == "--verbose"));
    assert!(matches!(refusal(&["--Seed", "x", "--help"]), ArgError::Unknown(arg) if arg == "--Seed"));
}

#[test]
fn agents_are_found_by_name() {
    let known = [
        ("Spread", PlayerName::Spread),
        ("Seller", PlayerName::Seller),
        ("Noisy", PlayerName::Noisy),
        ("PickOff", PlayerName::PickOff),
        ("TiltInventory", PlayerName::TiltInventory),
        ("TheHoarder", PlayerName::TheHoarder),
        ("PrayingMantis", PlayerName::PrayingMantis),
    ];
    for (text, name) in known {
        assert_eq!(find_agent(text), Some(name));
        assert_eq!(parse_player_name(text), name);
    }
    for text in ["Taker", "WildestDreams", "External", "None", "spread", ""] {
        assert_eq!(find_agent(text), None);
    }
}

#[test]
fn agents_are_run_by_their_names() {
    assert_eq!(choose_agent(PlayerName::TiltInventory), Agent::Tilt(2000, 4000));
    assert_eq!(choose_agent(PlayerName::PickOff), Agent::EventDriven);
    assert_eq!(choose_agent(PlayerName::Seller), Agent::Generic(1000, 2000));
}

#[test]
fn house_table_without_a_bot() {
    let seats = seat_players(&run(&[]));
    assert_eq!(
        names_of(&seats),
        vec![
            PlayerName::TiltInventory,
            PlayerName::Spread,
            PlayerName::Seller,
            PlayerName::Noisy,
            PlayerName::PickOff,
        ]
    );
    assert!(seats[0].verbose);
    assert!(seats[1..].iter().all(|seat| !seat.verbose));
    assert_eq!(seats[2].agent, Agent::Generic(2000, 4000));
    assert_eq!(seats[3].agent, Agent::Generic(4000, 8000));
    assert!(!seat_players(&run(&["--quiet"]))[0].verbose);
}

#[test]
fn bot_plays_against_four_copies() {
    let seats = seat_players(&run(&["--external-player-cmd", "bot", "--opponent", "PickOff"]));
    assert_eq!(seats.len(), 5);
    assert_eq!((seats[0].name, seats[0].agent), (PlayerName::External, Agent::External));
    for seat in &seats[1..] {
        assert_eq!((seat.name, seat.agent), (PlayerName::PickOff, Agent::EventDriven));
    }
}

#[test]
fn options_can_change_places() {
    let a = run(&["--seed", "5", "--quiet", "--games", "1", "--log-dir", "x", "--max-rounds", "2"]);
    let b = run(&["--max-rounds", "1", "--log-dir", "x", "--games", "2", "--seed", "5", "--quiet"]);
    assert_eq!((a.seed, a.quiet, a.max_rounds), (5, true, Some(2)));
    assert_eq!((b.seed, b.quiet, b.max_rounds), (5, true, Some(2)));
    assert_eq!(a.log_dir, b.log_dir);
    assert_eq!(a.opponent, b.opponent);
    assert_eq!(a.external_player_cmd, b.external_player_cmd);
    assert_eq!(a.round_duration_secs, b.round_duration_secs);
    assert_eq!(a.inter_round_sleep_secs, b.inter_round_sleep_secs);
    assert_eq!(a.deal_warmup_secs, b.deal_warmup_secs);
}
