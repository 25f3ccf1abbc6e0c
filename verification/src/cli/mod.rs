//! The command line, and who sits at the table.

pub mod options;
pub mod reading;

use vstd::prelude::*;

use crate::player::PlayerName;
use crate::player::external::name_text;
use crate::text::parse_unsigned;
use crate::text::parsed_unsigned;
use crate::text::same_text;
use crate::text::texts;

verus! {

/// The points that every player starts with.
pub const STARTING_BALANCE: usize = 500;

/// What the command line asks for.
pub struct CliArgs {
    pub log_dir: Option<String>,
    pub seed: u64,
    pub max_rounds: Option<u32>,
    pub round_duration_secs: u64,
    pub inter_round_sleep_secs: u64,
    pub deal_warmup_secs: u64,
    pub quiet: bool,
    pub external_player_cmd: Option<String>,
    pub opponent: String,
}

/// Why a command line cannot be followed.
pub enum ArgError {
    /// The last argument wants a value.
    MissingValue,
    /// The seed is not a 64-bit number.
    BadSeed,
    /// The number of rounds is not a 32-bit number.
    BadMaxRounds,
    /// A number of seconds is not a 64-bit number.
    BadSeconds,
    /// The argument is not known.
    Unknown(String),
}

/// What to do about a command line.
pub enum Command {
    Run(CliArgs),
    Help,
    Refuse(ArgError),
}

/// What a text option holds.
pub open spec fn text_of(text: Option<String>) -> Option<Seq<char>> {
    match text {
        Some(text) => Some(text@),
        None => None,
    }
}

/// The values that the command line sets.
pub struct ArgsView {
    pub log_dir: Option<Seq<char>>,
    pub seed: u64,
    pub max_rounds: Option<u32>,
    pub round_duration_secs: u64,
    pub inter_round_sleep_secs: u64,
    pub deal_warmup_secs: u64,
    pub quiet: bool,
    pub external_player_cmd: Option<Seq<char>>,
    pub opponent: Seq<char>,
}

impl View for CliArgs {
    type V = ArgsView;

    open spec fn view(&self) -> ArgsView {
        ArgsView {
            log_dir: text_of(self.log_dir),
            seed: self.seed,
            max_rounds: self.max_rounds,
            round_duration_secs: self.round_duration_secs,
            inter_round_sleep_secs: self.inter_round_sleep_secs,
            deal_warmup_secs: self.deal_warmup_secs,
            quiet: self.quiet,
            external_player_cmd: text_of(self.external_player_cmd),
            opponent: self.opponent@,
        }
    }
}

/// Why a command line cannot be followed, in terms of its text.
pub enum ErrorView {
    MissingValue,
    BadSeed,
    BadMaxRounds,
    BadSeconds,
    Unknown(Seq<char>),
}

impl View for ArgError {
    type V = ErrorView;

    open spec fn view(&self) -> ErrorView {
        match *self {
            ArgError::MissingValue => ErrorView::MissingValue,
            ArgError::BadSeed => ErrorView::BadSeed,
            ArgError::BadMaxRounds => ErrorView::BadMaxRounds,
            ArgError::BadSeconds => ErrorView::BadSeconds,
            ArgError::Unknown(arg) => ErrorView::Unknown(arg@),
        }
    }
}

/// What to do about a command line, in terms of its text.
pub enum CommandView {
    Run(ArgsView),
    Help,
    Refuse(ErrorView),
}

impl View for Command {
    type V = CommandView;

    open spec fn view(&self) -> CommandView {
        match *self {
            Command::Run(args) => CommandView::Run(args@),
            Command::Help => CommandView::Help,
            Command::Refuse(error) => CommandView::Refuse(error@),
        }
    }
}

/// The values where the command line sets nothing. The round lasts as long as in the game.
pub open spec fn default_args(fresh_seed: u64) -> ArgsView {
    ArgsView {
        log_dir: None,
        seed: fresh_seed,
        max_rounds: None,
        round_duration_secs: 240,
        inter_round_sleep_secs: 30,
        deal_warmup_secs: 5,
        quiet: false,
        external_player_cmd: None,
        opponent: "TiltInventory"@,
    }
}

/// The argument is followed by a value.
pub open spec fn takes_value(arg: Seq<char>) -> bool {
    ||| arg == "--log-dir"@
    ||| arg == "--seed"@
    ||| arg == "--max-rounds"@
    ||| arg == "--games"@
    ||| arg == "--round-duration-secs"@
    ||| arg == "--inter-round-sleep-secs"@
    ||| arg == "--deal-warmup-secs"@
    ||| arg == "--external-player-cmd"@
    ||| arg == "--opponent"@
}

/// The values once an argument was followed by a value.
pub open spec fn with_value(args: ArgsView, arg: Seq<char>, value: Seq<char>) -> Result<
    ArgsView,
    ErrorView,
> {
    if arg == "--log-dir"@ {
        Ok(ArgsView { log_dir: Some(value), ..args })
    } else if arg == "--seed"@ {
        match parsed_unsigned(value, u64::MAX as nat) {
            Some(n) => Ok(ArgsView { seed: n as u64, ..args }),
            None => Err(ErrorView::BadSeed),
        }
    } else if arg == "--max-rounds"@ || arg == "--games"@ {
        match parsed_unsigned(value, u32::MAX as nat) {
            Some(n) => Ok(ArgsView { max_rounds: Some(n as u32), ..args }),
            None => Err(ErrorView::BadMaxRounds),
        }
    } else if arg == "--external-player-cmd"@ {
        Ok(ArgsView { external_player_cmd: Some(value), ..args })
    } else if arg == "--opponent"@ {
        Ok(ArgsView { opponent: value, ..args })
    } else {
        match parsed_unsigned(value, u64::MAX as nat) {
            Some(n) => Ok(
                if arg == "--round-duration-secs"@ {
                    ArgsView { round_duration_secs: n as u64, ..args }
                } else if arg == "--inter-round-sleep-secs"@ {
                    ArgsView { inter_round_sleep_secs: n as u64, ..args }
                } else {
                    ArgsView { deal_warmup_secs: n as u64, ..args }
                },
            ),
            None => Err(ErrorView::BadSeconds),
        }
    }
}

/// What the arguments from a place on make of the values so far. They are read in turn, the
/// first that asks for help or cannot be followed ends the reading, and of values for one
/// setting the last counts.
pub open spec fn command_from(raw: Seq<Seq<char>>, i: int, args: ArgsView) -> CommandView
    decreases raw.len() - i,
{
    if i >= raw.len() {
        CommandView::Run(args)
    } else if raw[i] == "-h"@ || raw[i] == "--help"@ {
        CommandView::Help
    } else if raw[i] == "--quiet"@ {
        command_from(raw, i + 1, ArgsView { quiet: true, ..args })
    } else if !takes_value(raw[i]) {
        CommandView::Refuse(ErrorView::Unknown(raw[i]))
    } else if i + 1 >= raw.len() {
        CommandView::Refuse(ErrorView::MissingValue)
    } else {
        match with_value(args, raw[i], raw[i + 1]) {
            Ok(next) => command_from(raw, i + 2, next),
            Err(error) => CommandView::Refuse(error),
        }
    }
}

/// What the command line asks for.
pub open spec fn command_of(raw: Seq<Seq<char>>, fresh_seed: u64) -> CommandView {
    command_from(raw, 0, default_args(fresh_seed))
}

/// Whether an argument is followed by a value.
fn wants_value(arg: &str) -> (yes: bool)
    ensures
        yes == takes_value(arg@),
{
    same_text(arg, "--log-dir") || same_text(arg, "--seed") || same_text(arg, "--max-rounds")
        || same_text(arg, "--games") || same_text(arg, "--round-duration-secs") || same_text(
        arg,
        "--inter-round-sleep-secs",
    ) || same_text(arg, "--deal-warmup-secs") || same_text(arg, "--external-player-cmd")
        || same_text(arg, "--opponent")
}

/// Follows an argument that has a value.
fn set_value(args: CliArgs, arg: &str, value: &String) -> (result: Result<CliArgs, ArgError>)
    requires
        takes_value(arg@),
    ensures
        match result {
            Ok(next) => with_value(args@, arg@, value@) == Ok::<ArgsView, ErrorView>(next@),
            Err(error) => with_value(args@, arg@, value@) == Err::<ArgsView, ErrorView>(error@),
        },
{
    let mut args: CliArgs = args;
    if same_text(arg, "--log-dir") {
        args.log_dir = Some(value.clone());
    } else if same_text(arg, "--seed") {
        match parse_unsigned(value.as_str(), u64::MAX) {
            Some(n) => {
                args.seed = n;
            },
            None => {
                return Err(ArgError::BadSeed);
            },
        }
    } else if same_text(arg, "--max-rounds") || same_text(arg, "--games") {
        match parse_unsigned(value.as_str(), u32::MAX as u64) {
            Some(n) => {
                args.max_rounds = Some(n as u32);
            },
            None => {
                return Err(ArgError::BadMaxRounds);
            },
        }
    } else if same_text(arg, "--external-player-cmd") {
        args.external_player_cmd = Some(value.clone());
    } else if same_text(arg, "--opponent") {
        args.opponent = value.clone();
    } else {
        match parse_unsigned(value.as_str(), u64::MAX) {
            Some(n) => {
                if same_text(arg, "--round-duration-secs") {
                    args.round_duration_secs = n;
                } else if same_text(arg, "--inter-round-sleep-secs") {
                    args.inter_round_sleep_secs = n;
                } else {
                    args.deal_warmup_secs = n;
                }
            },
            None => {
                return Err(ArgError::BadSeconds);
            },
        }
    }
    Ok(args)
}

/// Reads the command line. The seed is `fresh_seed` where the command line names none.
pub fn parse_args(raw: &Vec<String>, fresh_seed: u64) -> (command: Command)
    ensures
        command@ == command_of(texts(raw@), fresh_seed),
{
    let mut args = CliArgs {
        log_dir: None,
        seed: fresh_seed,
        max_rounds: None,
        round_duration_secs: 240,
        inter_round_sleep_secs: 30,
        deal_warmup_secs: 5,
        quiet: false,
        external_player_cmd: None,
        opponent: "TiltInventory".to_string(),
    };
    let mut i: usize = 0;
    while i < raw.len()
        invariant
            i <= raw@.len(),
            command_from(texts(raw@), i as int, args@) == command_of(texts(raw@), fresh_seed),
        decreases raw@.len() - i,
    {
        let arg: &str = raw[i].as_str();
        assert(texts(raw@)[i as int] == arg@);
        if same_text(arg, "-h") || same_text(arg, "--help") {
            return Command::Help;
        }
        if same_text(arg, "--quiet") {
            args.quiet = true;
            i = i + 1;
        } else if !wants_value(arg) {
            return Command::Refuse(ArgError::Unknown(raw[i].clone()));
        } else if i == raw.len() - 1 {
            return Command::Refuse(ArgError::MissingValue);
        } else {
            let value: &String = &raw[i + 1];
            assert(texts(raw@)[i + 1] == value@);
            match set_value(args, arg, value) {
                Ok(next) => {
                    args = next;
                },
                Err(error) => {
                    return Command::Refuse(error);
                },
            }
            i = i + 2;
        }
    }
    Command::Run(args)
}

/// The built-in player with a name, of those that can be chosen as opponents.
pub open spec fn agent_named(text: Seq<char>) -> Option<PlayerName> {
    if text == "Spread"@ {
        Some(PlayerName::Spread)
    } else if text == "Seller"@ {
        Some(PlayerName::Seller)
    } else if text == "Noisy"@ {
        Some(PlayerName::Noisy)
    } else if text == "PickOff"@ {
        Some(PlayerName::PickOff)
    } else if text == "TiltInventory"@ {
        Some(PlayerName::TiltInventory)
    } else if text == "TheHoarder"@ {
        Some(PlayerName::TheHoarder)
    } else if text == "PrayingMantis"@ {
        Some(PlayerName::PrayingMantis)
    } else {
        None
    }
}

/// Looks a built-in player up by name.
pub fn find_agent(s: &str) -> (agent: Option<PlayerName>)
    ensures
        agent == agent_named(s@),
{
    if same_text(s, "Spread") {
        Some(PlayerName::Spread)
    } else if same_text(s, "Seller") {
        Some(PlayerName::Seller)
    } else if same_text(s, "Noisy") {
        Some(PlayerName::Noisy)
    } else if same_text(s, "PickOff") {
        Some(PlayerName::PickOff)
    } else if same_text(s, "TiltInventory") {
        Some(PlayerName::TiltInventory)
    } else if same_text(s, "TheHoarder") {
        Some(PlayerName::TheHoarder)
    } else if same_text(s, "PrayingMantis") {
        Some(PlayerName::PrayingMantis)
    } else {
        None
    }
}

/// The built-in player with a name.
pub fn parse_player_name(s: &str) -> (name: PlayerName)
    requires
        agent_named(s@) is Some,
    ensures
        agent_named(s@) == Some(name),
{
    find_agent(s).unwrap()
}

/// How a player is run. The numbers are the shortest and the longest pause between orders, in
/// milliseconds.
#[derive(Debug, Clone, Copy, PartialEq, Eq, Structural)]
pub enum Agent {
    Tilt(u64, u64),
    EventDriven,
    Generic(u64, u64),
    External,
}

/// A place at the table.
#[derive(Debug, Clone, Copy, PartialEq, Eq, Structural)]
pub struct Seat {
    pub name: PlayerName,
    pub agent: Agent,
    pub verbose: bool,
}

/// How an opponent of the external bot is run.
pub open spec fn agent_of(name: PlayerName) -> Agent {
    match name {
        PlayerName::TiltInventory => Agent::Tilt(2000, 4000),
        PlayerName::PickOff => Agent::EventDriven,
        _ => Agent::Generic(1000, 2000),
    }
}

/// Chooses how an opponent of the external bot is run.
pub fn choose_agent(name: PlayerName) -> (agent: Agent)
    ensures
        agent == agent_of(name),
{
    match name {
        PlayerName::TiltInventory => Agent::Tilt(2000, 4000),
        PlayerName::PickOff => Agent::EventDriven,
        _ => Agent::Generic(1000, 2000),
    }
}

/// The table with an external bot: the bot, and four copies of one opponent.
pub open spec fn bot_table(opponent: PlayerName) -> Seq<Seat> {
    let copy = Seat { name: opponent, agent: agent_of(opponent), verbose: false };
    seq![
        Seat { name: PlayerName::External, agent: Agent::External, verbose: false },
        copy,
        copy,
        copy,
        copy,
    ]
}

/// The table without an external bot: five different players.
pub open spec fn house_table(quiet: bool) -> Seq<Seat> {
    seq![
        Seat { name: PlayerName::TiltInventory, agent: Agent::Tilt(2000, 4000), verbose: !quiet },
        Seat { name: PlayerName::Spread, agent: Agent::Generic(1000, 2000), verbose: false },
        Seat { name: PlayerName::Seller, agent: Agent::Generic(2000, 4000), verbose: false },
        Seat { name: PlayerName::Noisy, agent: Agent::Generic(4000, 8000), verbose: false },
        Seat { name: PlayerName::PickOff, agent: Agent::EventDriven, verbose: false },
    ]
}

/// Seats the players that the command line asks for.
pub fn seat_players(args: &CliArgs) -> (seats: Vec<Seat>)
    requires
        args.external_player_cmd is Some ==> agent_named(args.opponent@) is Some,
    ensures
        args.external_player_cmd is Some ==> seats@ == bot_table(
            agent_named(args.opponent@)->Some_0,
        ),
        args.external_player_cmd is None ==> seats@ == house_table(args.quiet),
{
    let mut seats: Vec<Seat> = Vec::new();
    if args.external_player_cmd.is_some() {
        let opponent: PlayerName = parse_player_name(args.opponent.as_str());
        seats.push(Seat { name: PlayerName::External, agent: Agent::External, verbose: false });
        let copy = Seat { name: opponent, agent: choose_agent(opponent), verbose: false };
        seats.push(copy);
        seats.push(copy);
        seats.push(copy);
        seats.push(copy);
        assert(seats@ =~= bot_table(opponent));
    } else {
        seats.push(
            Seat {
                name: PlayerName::TiltInventory,
                agent: Agent::Tilt(2000, 4000),
                verbose: !args.quiet,
            },
        );
        seats.push(
            Seat { name: PlayerName::Spread, agent: Agent::Generic(1000, 2000), verbose: false },
        );
        seats.push(
            Seat { name: PlayerName::Seller, agent: Agent::Generic(2000, 4000), verbose: false },
        );
        seats.push(
            Seat { name: PlayerName::Noisy, agent: Agent::Generic(4000, 8000), verbose: false },
        );
        seats.push(Seat { name: PlayerName::PickOff, agent: Agent::EventDriven, verbose: false });
        assert(seats@ =~= house_table(args.quiet));
    }
    seats
}

/// The names in seating order.
pub fn names_of(seats: &Vec<Seat>) -> (names: Vec<PlayerName>)
    ensures
        names@ == Seq::new(seats@.len(), |i: int| seats@[i].name),
{
    let mut names: Vec<PlayerName> = Vec::new();
    for i in 0..seats.len()
        invariant
            names@ == Seq::new(i as nat, |j: int| seats@[j].name),
    {
        names.push(seats[i].name);
        assert(names@ =~= Seq::new((i + 1) as nat, |j: int| seats@[j].name));
    }
    names
}

/// A player who can be chosen by name has that name.
pub proof fn law_agents_have_their_names(text: Seq<char>)
    ensures
        agent_named(text) matches Some(name) ==> name_text(name) == text,
{
}

/// At either table there are five places, and at the one without a bot no player sits twice.
pub proof fn law_tables_seat_five(opponent: PlayerName, quiet: bool)
    ensures
        bot_table(opponent).len() == 5,
        house_table(quiet).len() == 5,
        forall|i: int, j: int|
            0 <= i < j < 5 ==> (#[trigger] house_table(quiet)[i]).name != (
            #[trigger] house_table(quiet)[j]).name,
{
}

} // verus!
