//! How a command line is read, argument by argument, and who sits at the table.

use vstd::prelude::*;

use super::Agent;
use super::ArgError;
use super::ArgsView;
use super::Command;
use super::CommandView;
use super::ErrorView;
use super::agent_named;
use super::agent_of;
use super::bot_table;
use super::command_from;
use super::command_of;
use super::house_table;
use crate::player::PlayerName;
use crate::player::external::name_text;
use crate::text::parsed_unsigned;
use crate::text::texts;

verus! {

/// The settings of a run whose command line is empty.
pub proof fn law_settings_without_arguments(fresh_seed: u64)
    ensures
        command_of(Seq::empty(), fresh_seed) matches CommandView::Run(args) && args.log_dir is None
            && args.seed == fresh_seed && args.max_rounds is None && args.round_duration_secs == 240
            && args.inter_round_sleep_secs == 30 && args.deal_warmup_secs == 5 && !args.quiet
            && args.external_player_cmd is None && args.opponent == "TiltInventory"@,
{
}

/// Reading starts at the first argument.
pub proof fn law_reading_starts_at_the_front(raw: Seq<Seq<char>>, fresh_seed: u64)
    ensures
        command_of(Seq::empty(), fresh_seed) matches CommandView::Run(args) && command_of(
            raw,
            fresh_seed,
        ) == command_from(raw, 0, args),
{
}

/// The names of all arguments are told apart.
proof fn lemma_argument_names()
    ensures
        "--log-dir"@.len() == 9,
        "--seed"@.len() == 6,
        "--max-rounds"@.len() == 12,
        "--games"@.len() == 7,
        "--round-duration-secs"@.len() == 21,
        "--inter-round-sleep-secs"@.len() == 24,
        "--deal-warmup-secs"@.len() == 18,
        "--quiet"@.len() == 7,
        "--external-player-cmd"@.len() == 21,
        "--opponent"@.len() == 10,
        "-h"@.len() == 2,
        "--help"@.len() == 6,
        "--seed"@ != "--help"@,
        "--games"@ != "--quiet"@,
        "--round-duration-secs"@ != "--external-player-cmd"@,
{
    reveal_strlit("--log-dir");
    reveal_strlit("--seed");
    reveal_strlit("--max-rounds");
    reveal_strlit("--games");
    reveal_strlit("--round-duration-secs");
    reveal_strlit("--inter-round-sleep-secs");
    reveal_strlit("--deal-warmup-secs");
    reveal_strlit("--quiet");
    reveal_strlit("--external-player-cmd");
    reveal_strlit("--opponent");
    reveal_strlit("-h");
    reveal_strlit("--help");
    assert("--seed"@[2] != "--help"@[2]);
    assert("--games"@[2] != "--quiet"@[2]);
    assert("--round-duration-secs"@[2] != "--external-player-cmd"@[2]);
}

/// At the end of the arguments the settings so far count. A request for help ends the reading, and
/// so do an argument that is not known and one whose value is missing.
pub proof fn law_where_reading_ends(raw: Seq<Seq<char>>, i: int, args: ArgsView)
    requires
        0 <= i,
    ensures
        i >= raw.len() ==> command_from(raw, i, args) == CommandView::Run(args),
        i < raw.len() && (raw[i] == "-h"@ || raw[i] == "--help"@) ==> command_from(raw, i, args)
            == CommandView::Help,
        i < raw.len() && raw[i] != "-h"@ && raw[i] != "--help"@ && raw[i] != "--quiet"@ && raw[i]
            != "--log-dir"@ && raw[i] != "--seed"@ && raw[i] != "--max-rounds"@ && raw[i]
            != "--games"@ && raw[i] != "--round-duration-secs"@ && raw[i]
            != "--inter-round-sleep-secs"@ && raw[i] != "--deal-warmup-secs"@ && raw[i]
            != "--external-player-cmd"@ && raw[i] != "--opponent"@ ==> command_from(raw, i, args)
            == CommandView::Refuse(ErrorView::Unknown(raw[i])),
        i == raw.len() - 1 && (raw[i] == "--log-dir"@ || raw[i] == "--seed"@ || raw[i]
            == "--max-rounds"@ || raw[i] == "--games"@ || raw[i] == "--round-duration-secs"@
            || raw[i] == "--inter-round-sleep-secs"@ || raw[i] == "--deal-warmup-secs"@ || raw[i]
            == "--external-player-cmd"@ || raw[i] == "--opponent"@) ==> command_from(raw, i, args)
            == CommandView::Refuse(ErrorView::MissingValue),
{
    lemma_argument_names();
}

/// An argument sets its own setting to the value behind it, as a text or a number, and leaves the
/// others; a value that is no number for it is refused.
pub proof fn law_arguments_set_their_setting(raw: Seq<Seq<char>>, i: int, args: ArgsView)
    requires
        0 <= i < raw.len(),
    ensures
        raw[i] == "--quiet"@ ==> command_from(raw, i, args) == command_from(
            raw,
            i + 1,
            ArgsView { quiet: true, ..args },
        ),
        i + 1 < raw.len() ==> {
            let value = raw[i + 1];
            let long = parsed_unsigned(value, 0xffff_ffff_ffff_ffff);
            let short = parsed_unsigned(value, 0xffff_ffff);
            &&& raw[i] == "--log-dir"@ ==> command_from(raw, i, args) == command_from(
                raw,
                i + 2,
                ArgsView { log_dir: Some(value), ..args },
            )
            &&& raw[i] == "--external-player-cmd"@ ==> command_from(raw, i, args) == command_from(
                raw,
                i + 2,
                ArgsView { external_player_cmd: Some(value), ..args },
            )
            &&& raw[i] == "--opponent"@ ==> command_from(raw, i, args) == command_from(
                raw,
                i + 2,
                ArgsView { opponent: value, ..args },
            )
            &&& raw[i] == "--seed"@ ==> command_from(raw, i, args) == (match long {
                Some(n) => command_from(raw, i + 2, ArgsView { seed: n as u64, ..args }),
                None => CommandView::Refuse(ErrorView::BadSeed),
            })
            &&& raw[i] == "--max-rounds"@ || raw[i] == "--games"@ ==> command_from(raw, i, args)
                == (match short {
                Some(n) => command_from(
                    raw,
                    i + 2,
                    ArgsView { max_rounds: Some(n as u32), ..args },
                ),
                None => CommandView::Refuse(ErrorView::BadMaxRounds),
            })
            &&& raw[i] == "--round-duration-secs"@ ==> command_from(raw, i, args) == (match long {
                Some(n) => command_from(
                    raw,
                    i + 2,
                    ArgsView { round_duration_secs: n as u64, ..args },
                ),
                None => CommandView::Refuse(ErrorView::BadSeconds),
            })
            &&& raw[i] == "--inter-round-sleep-secs"@ ==> command_from(raw, i, args) == (match long {
                Some(n) => command_from(
                    raw,
                    i + 2,
                    ArgsView { inter_round_sleep_secs: n as u64, ..args },
                ),
                None => CommandView::Refuse(ErrorView::BadSeconds),
            })
            &&& raw[i] == "--deal-warmup-secs"@ ==> command_from(raw, i, args) == (match long {
                Some(n) => command_from(
                    raw,
                    i + 2,
                    ArgsView { deal_warmup_secs: n as u64, ..args },
                ),
                None => CommandView::Refuse(ErrorView::BadSeconds),
            })
        },
{
    lemma_argument_names();
}

/// Who can be chosen as an opponent: seven of the players, each by their own name, and nobody by
/// any other text.
pub proof fn law_who_can_be_an_opponent(text: Seq<char>, name: PlayerName)
    ensures
        agent_named(text) == Some(name) <==> {
            &&& text == name_text(name)
            &&& name is Spread || name is Seller || name is Noisy || name is PickOff
                || name is TiltInventory || name is TheHoarder || name is PrayingMantis
        },
{
    reveal_strlit("Spread");
    reveal_strlit("Seller");
    reveal_strlit("Noisy");
    reveal_strlit("PickOff");
    reveal_strlit("TiltInventory");
    reveal_strlit("TheHoarder");
    reveal_strlit("PrayingMantis");
    assert("Spread"@.len() == 6 && "Seller"@.len() == 6 && "Noisy"@.len() == 5);
    assert("PickOff"@.len() == 7 && "TiltInventory"@.len() == 13 && "TheHoarder"@.len() == 10);
    assert("PrayingMantis"@.len() == 13);
    assert("Spread"@[1] != "Seller"@[1]);
    assert("TiltInventory"@[0] != "PrayingMantis"@[0]);
}

/// At a table with a bot the bot has the first place and one opponent the other four. The opponent
/// is run by its name: with pauses of two to four seconds on its own, event by event, or with
/// pauses of one to two seconds like the rest.
pub proof fn law_bot_faces_four_copies(opponent: PlayerName, i: int)
    ensures
        bot_table(opponent).len() == 5,
        bot_table(opponent)[0].name == PlayerName::External,
        bot_table(opponent)[0].agent == Agent::External,
        !bot_table(opponent)[0].verbose,
        1 <= i < 5 ==> {
            let seat = bot_table(opponent)[i];
            &&& seat.name == opponent
            &&& !seat.verbose
            &&& opponent is TiltInventory ==> seat.agent == Agent::Tilt(2000, 4000)
            &&& opponent is PickOff ==> seat.agent == Agent::EventDriven
            &&& !(opponent is TiltInventory) && !(opponent is PickOff) ==> seat.agent
                == Agent::Generic(1000, 2000)
            &&& seat.agent == agent_of(opponent)
        },
{
}

/// At a table without a bot five different players sit in a fixed order, each run in its own way;
/// only the first speaks, and only where the run is not quiet.
pub proof fn law_house_players(quiet: bool, i: int)
    ensures
        ({
            let table = house_table(quiet);
            &&& table.len() == 5
            &&& table[0].name is TiltInventory && table[0].agent == Agent::Tilt(2000, 4000)
            &&& table[1].name is Spread && table[1].agent == Agent::Generic(1000, 2000)
            &&& table[2].name is Seller && table[2].agent == Agent::Generic(2000, 4000)
            &&& table[3].name is Noisy && table[3].agent == Agent::Generic(4000, 8000)
            &&& table[4].name is PickOff && table[4].agent == Agent::EventDriven
            &&& 0 <= i < 5 ==> table[i].verbose == (i == 0 && !quiet)
        }),
{
}

/// What a command says is what it holds, setting by setting.
pub proof fn law_commands_say_what_they_hold(command: Command)
    ensures
        command matches Command::Run(args) ==> (command@ matches CommandView::Run(said) && {
            &&& said.seed == args.seed
            &&& said.max_rounds == args.max_rounds
            &&& said.round_duration_secs == args.round_duration_secs
            &&& said.inter_round_sleep_secs == args.inter_round_sleep_secs
            &&& said.deal_warmup_secs == args.deal_warmup_secs
            &&& said.quiet == args.quiet
            &&& said.opponent == args.opponent@
            &&& said.log_dir is None <==> args.log_dir is None
            &&& args.log_dir matches Some(dir) ==> said.log_dir == Some(dir@)
            &&& said.external_player_cmd is None <==> args.external_player_cmd is None
            &&& args.external_player_cmd matches Some(cmd) ==> said.external_player_cmd == Some(cmd@)
        }),
        command is Help ==> command@ is Help,
        command matches Command::Refuse(error) ==> (command@ matches CommandView::Refuse(said) && {
            &&& error is MissingValue ==> said is MissingValue
            &&& error is BadSeed ==> said is BadSeed
            &&& error is BadMaxRounds ==> said is BadMaxRounds
            &&& error is BadSeconds ==> said is BadSeconds
            &&& error matches ArgError::Unknown(arg) ==> said == ErrorView::Unknown(arg@)
        }),
{
}

/// Some strings hold as many texts, each its own.
pub proof fn law_strings_hold_their_texts(strings: Seq<String>, i: int)
    ensures
        texts(strings).len() == strings.len(),
        0 <= i < strings.len() ==> texts(strings)[i] == strings[i]@,
{
}

} // verus!
