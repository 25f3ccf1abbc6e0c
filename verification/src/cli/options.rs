//! How the options of a command line work together.

use vstd::prelude::*;

use super::ArgsView;
use super::CommandView;
use super::command_from;
use super::command_of;
use super::default_args;
use super::takes_value;
use super::with_value;
use crate::text::parsed_unsigned;

verus! {

/// The arguments from a place on name a seed. What follows an argument other than a switch is its
/// value.
pub open spec fn names_seed(raw: Seq<Seq<char>>, i: int) -> bool
    decreases raw.len() - i,
{
    if i >= raw.len() {
        false
    } else if raw[i] == "--quiet"@ {
        names_seed(raw, i + 1)
    } else {
        raw[i] == "--seed"@ || (i + 1 < raw.len() && names_seed(raw, i + 2))
    }
}

/// The values differ in the seed at most.
pub open spec fn same_but_seed(a: CommandView, b: CommandView) -> bool {
    match (a, b) {
        (CommandView::Run(x), CommandView::Run(y)) => x == (ArgsView { seed: x.seed, ..y }),
        _ => a == b,
    }
}

proof fn lemma_seed(raw: Seq<Seq<char>>, i: int, a: ArgsView, b: ArgsView)
    requires
        0 <= i,
        a == (ArgsView { seed: a.seed, ..b }),
    ensures
        same_but_seed(command_from(raw, i, a), command_from(raw, i, b)),
        a == b || names_seed(raw, i) ==> command_from(raw, i, a) == command_from(raw, i, b),
        !names_seed(raw, i) ==> (command_from(raw, i, a) matches CommandView::Run(x) ==> x.seed
            == a.seed),
    decreases raw.len() - i,
{
    reveal_strlit("--seed");
    reveal_strlit("-h");
    reveal_strlit("--help");
    reveal_strlit("--quiet");
    reveal_strlit("--log-dir");
    assert("--log-dir"@.len() == 9);
    assert("--seed"@.len() == 6 && "-h"@.len() == 2 && "--quiet"@.len() == 7);
    assert("--seed"@[2] != "--help"@[2]);
    if i < raw.len() {
        if raw[i] == "--quiet"@ {
            lemma_seed(raw, i + 1, ArgsView { quiet: true, ..a }, ArgsView { quiet: true, ..b });
        } else if takes_value(raw[i]) && i + 1 < raw.len() {
            if let (Ok(x), Ok(y)) = (
                with_value(a, raw[i], raw[i + 1]),
                with_value(b, raw[i], raw[i + 1]),
            ) {
                lemma_seed(raw, i + 2, x, y);
            }
        }
    }
}

/// Only the seed depends on anything but the command line. A seed that the command line names
/// makes it all depend on the command line alone; where it names none, the fresh seed is used.
pub proof fn law_only_the_seed_is_fresh(raw: Seq<Seq<char>>, fresh: u64, other: u64)
    ensures
        same_but_seed(command_of(raw, fresh), command_of(raw, other)),
        names_seed(raw, 0) ==> command_of(raw, fresh) == command_of(raw, other),
        !names_seed(raw, 0) ==> (command_of(raw, fresh) matches CommandView::Run(args)
            ==> args.seed == fresh),
{
    lemma_seed(raw, 0, default_args(fresh), default_args(other));
}

/// What an option sets.
pub enum Setting {
    LogDir,
    Seed,
    MaxRounds,
    RoundDuration,
    InterRoundSleep,
    DealWarmup,
    Quiet,
    ExternalPlayer,
    Opponent,
}

/// What an argument that takes a value sets.
pub open spec fn setting_of(arg: Seq<char>) -> Setting {
    if arg == "--log-dir"@ {
        Setting::LogDir
    } else if arg == "--seed"@ {
        Setting::Seed
    } else if arg == "--max-rounds"@ || arg == "--games"@ {
        Setting::MaxRounds
    } else if arg == "--external-player-cmd"@ {
        Setting::ExternalPlayer
    } else if arg == "--opponent"@ {
        Setting::Opponent
    } else if arg == "--round-duration-secs"@ {
        Setting::RoundDuration
    } else if arg == "--inter-round-sleep-secs"@ {
        Setting::InterRoundSleep
    } else {
        Setting::DealWarmup
    }
}

/// The arguments from a place on are options: each is a switch, or known and followed by a value,
/// and none asks for help.
pub open spec fn are_options(raw: Seq<Seq<char>>, i: int) -> bool
    decreases raw.len() - i,
{
    if i >= raw.len() {
        true
    } else if raw[i] == "-h"@ || raw[i] == "--help"@ {
        false
    } else if raw[i] == "--quiet"@ {
        are_options(raw, i + 1)
    } else {
        takes_value(raw[i]) && i + 1 < raw.len() && are_options(raw, i + 2)
    }
}

/// The values that the options from a place on give for a setting, in their order. The value of a
/// switch is the empty text.
pub open spec fn values_from(raw: Seq<Seq<char>>, i: int, setting: Setting) -> Seq<Seq<char>>
    decreases raw.len() - i,
{
    if i >= raw.len() {
        Seq::empty()
    } else if raw[i] == "--quiet"@ {
        if setting is Quiet {
            seq![Seq::<char>::empty()] + values_from(raw, i + 1, setting)
        } else {
            values_from(raw, i + 1, setting)
        }
    } else if i + 1 >= raw.len() {
        Seq::empty()
    } else if setting == setting_of(raw[i]) {
        seq![raw[i + 1]] + values_from(raw, i + 2, setting)
    } else {
        values_from(raw, i + 2, setting)
    }
}

/// A setting can have a value: any text, or for a number one that writes it.
pub open spec fn is_valid(setting: Setting, value: Seq<char>) -> bool {
    match setting {
        Setting::Seed
        | Setting::RoundDuration
        | Setting::InterRoundSleep
        | Setting::DealWarmup => parsed_unsigned(value, u64::MAX as nat) is Some,
        Setting::MaxRounds => parsed_unsigned(value, u32::MAX as nat) is Some,
        _ => true,
    }
}

/// The number that the last of some values writes.
pub open spec fn last_number(values: Seq<Seq<char>>, max: nat) -> nat {
    parsed_unsigned(values.last(), max)->Some_0
}

/// The last of some numbers of seconds, or the one so far.
pub open spec fn last_secs(values: Seq<Seq<char>>, so_far: u64) -> u64 {
    if values.len() > 0 {
        last_number(values, u64::MAX as nat) as u64
    } else {
        so_far
    }
}

/// The values of all settings, where the last value given for each counts.
pub open spec fn settled(args: ArgsView, values: spec_fn(Setting) -> Seq<Seq<char>>) -> ArgsView {
    ArgsView {
        log_dir: if values(Setting::LogDir).len() > 0 {
            Some(values(Setting::LogDir).last())
        } else {
            args.log_dir
        },
        seed: last_secs(values(Setting::Seed), args.seed),
        max_rounds: if values(Setting::MaxRounds).len() > 0 {
            Some(last_number(values(Setting::MaxRounds), u32::MAX as nat) as u32)
        } else {
            args.max_rounds
        },
        round_duration_secs: last_secs(values(Setting::RoundDuration), args.round_duration_secs),
        inter_round_sleep_secs: last_secs(
            values(Setting::InterRoundSleep),
            args.inter_round_sleep_secs,
        ),
        deal_warmup_secs: last_secs(values(Setting::DealWarmup), args.deal_warmup_secs),
        quiet: args.quiet || values(Setting::Quiet).len() > 0,
        external_player_cmd: if values(Setting::ExternalPlayer).len() > 0 {
            Some(values(Setting::ExternalPlayer).last())
        } else {
            args.external_player_cmd
        },
        opponent: if values(Setting::Opponent).len() > 0 {
            values(Setting::Opponent).last()
        } else {
            args.opponent
        },
    }
}

/// What the options from a place on give for each setting.
pub open spec fn all_values(raw: Seq<Seq<char>>, i: int) -> spec_fn(Setting) -> Seq<Seq<char>> {
    |setting: Setting| values_from(raw, i, setting)
}

/// Every value is one that its setting can have.
pub open spec fn are_valid(values: spec_fn(Setting) -> Seq<Seq<char>>) -> bool {
    forall|setting: Setting, j: int|
        0 <= j < values(setting).len() ==> is_valid(setting, #[trigger] values(setting)[j])
}

/// One more value in front of the others of one setting.
proof fn lemma_value_in_front(
    args: ArgsView,
    next: ArgsView,
    setting: Setting,
    value: Seq<char>,
    rest: spec_fn(Setting) -> Seq<Seq<char>>,
    all: spec_fn(Setting) -> Seq<Seq<char>>,
)
    requires
        forall|s: Setting| #[trigger]
            all(s) == (if s == setting {
                seq![value] + rest(s)
            } else {
                rest(s)
            }),
    ensures
        are_valid(all) <==> is_valid(setting, value) && are_valid(rest),
        next == settled(args, |s: Setting| if s == setting { seq![value] } else { Seq::empty() })
            ==> settled(next, rest) == settled(args, all),
{
    if are_valid(all) {
        assert(all(setting)[0] == value);
        assert(is_valid(setting, all(setting)[0]));
        assert forall|s: Setting, j: int| 0 <= j < rest(s).len() implies is_valid(
            s,
            #[trigger] rest(s)[j],
        ) by {
            if s == setting {
                assert(all(s)[j + 1] == rest(s)[j]);
            } else {
                assert(all(s)[j] == rest(s)[j]);
            }
        }
    }
    if is_valid(setting, value) && are_valid(rest) {
        assert forall|s: Setting, j: int| 0 <= j < all(s).len() implies is_valid(
            s,
            #[trigger] all(s)[j],
        ) by {
            if s == setting {
                if j > 0 {
                    assert(all(s)[j] == rest(s)[j - 1]);
                }
            } else {
                assert(all(s)[j] == rest(s)[j]);
            }
        }
    }
    if rest(setting).len() > 0 {
        assert((seq![value] + rest(setting)).last() == rest(setting).last());
    } else {
        assert(seq![value] + rest(setting) =~= seq![value]);
    }
}

/// What a row of options asks for.
proof fn lemma_options(raw: Seq<Seq<char>>, i: int, args: ArgsView)
    requires
        0 <= i,
        are_options(raw, i),
    ensures
        are_valid(all_values(raw, i)) ==> command_from(raw, i, args) == CommandView::Run(
            settled(args, all_values(raw, i)),
        ),
        !are_valid(all_values(raw, i)) ==> command_from(raw, i, args) is Refuse,
    decreases raw.len() - i,
{
    if i >= raw.len() {
        assert(are_valid(all_values(raw, i)));
    } else if raw[i] == "--quiet"@ {
        let next = ArgsView { quiet: true, ..args };
        lemma_options(raw, i + 1, next);
        lemma_value_in_front(
            args,
            next,
            Setting::Quiet,
            Seq::empty(),
            all_values(raw, i + 1),
            all_values(raw, i),
        );
    } else {
        let setting = setting_of(raw[i]);
        let value = raw[i + 1];
        let next = match with_value(args, raw[i], value) {
            Ok(next) => next,
            Err(_) => args,
        };
        lemma_options(raw, i + 2, next);
        lemma_value_in_front(
            args,
            next,
            setting,
            value,
            all_values(raw, i + 2),
            all_values(raw, i),
        );
    }
}

/// Of several values for one setting the last counts: a command line of options runs exactly where
/// every value is valid, with the last value given for each setting and the default for the others.
pub proof fn law_last_value_counts(raw: Seq<Seq<char>>, fresh_seed: u64)
    requires
        are_options(raw, 0),
    ensures
        are_valid(all_values(raw, 0)) ==> command_of(raw, fresh_seed) == CommandView::Run(
            settled(default_args(fresh_seed), all_values(raw, 0)),
        ),
        !are_valid(all_values(raw, 0)) ==> command_of(raw, fresh_seed) is Refuse,
{
    lemma_options(raw, 0, default_args(fresh_seed));
}

/// A command line that gives a value for the seed names one.
proof fn lemma_seed_is_named(raw: Seq<Seq<char>>, i: int)
    requires
        0 <= i,
        are_options(raw, i),
    ensures
        names_seed(raw, i) <==> values_from(raw, i, Setting::Seed).len() > 0,
    decreases raw.len() - i,
{
    reveal_strlit("--seed");
    reveal_strlit("--log-dir");
    assert("--seed"@.len() == 6 && "--log-dir"@.len() == 9);
    if i < raw.len() {
        if raw[i] == "--quiet"@ {
            lemma_seed_is_named(raw, i + 1);
        } else {
            lemma_seed_is_named(raw, i + 2);
        }
    }
}

/// Options of different settings can change places: two command lines of options that give each
/// setting the same values in the same order ask for the same, where one of them can be followed.
/// It does not matter which of two names an option goes by, nor, where they name a seed, which
/// seed would have been fresh.
pub proof fn law_options_can_change_places(
    a: Seq<Seq<char>>,
    b: Seq<Seq<char>>,
    fresh_a: u64,
    fresh_b: u64,
)
    requires
        are_options(a, 0),
        are_options(b, 0),
        forall|setting: Setting| #[trigger]
            values_from(a, 0, setting) == values_from(b, 0, setting),
        command_of(a, fresh_a) is Run,
        fresh_a == fresh_b || names_seed(a, 0),
    ensures
        command_of(b, fresh_b) == command_of(a, fresh_a),
{
    law_last_value_counts(a, fresh_a);
    law_last_value_counts(b, fresh_b);
    lemma_seed_is_named(a, 0);
    assert(all_values(a, 0) =~= all_values(b, 0)) by {
        assert forall|setting: Setting| #[trigger] all_values(a, 0)(setting) == all_values(b, 0)(
            setting,
        ) by {
            assert(values_from(a, 0, setting) == values_from(b, 0, setting));
        }
    }
}

} // verus!
