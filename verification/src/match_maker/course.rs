//! The course of a run: which phase of a round follows which, and when the run ends.

use vstd::prelude::*;

use super::MatchMaker;
use super::round::EventView;
use super::round::Step;
use super::round::StepView;
use super::round::is_closed;
use super::round::steps_view;
use super::scoring::RoundResult;
use crate::models::Event;

verus! {

/// A phase of a round.
#[derive(Debug, Clone, Copy, PartialEq, Eq, Structural)]
pub enum Phase {
    /// The antes are collected and the cards are dealt.
    Open,
    /// One order is awaited, for at most so many nanoseconds.
    Trade(u128),
    /// The players are told that trading is over.
    End,
    /// The pot is paid out.
    Close,
}

impl MatchMaker {
    /// The time for trading, in nanoseconds.
    pub open spec fn trading_time(self) -> int {
        self.round_duration_secs * 1_000_000_000
    }

    /// The phase that follows another one, some nanoseconds after trading began: a dealt round is
    /// open for orders while its time lasts, then it ends, is closed, and the next one is opened.
    pub open spec fn phase_after(self, phase: Phase, elapsed: u128) -> Phase {
        match phase {
            Phase::Open | Phase::Trade(_) => if elapsed < self.trading_time() {
                Phase::Trade((self.trading_time() - elapsed) as u128)
            } else {
                Phase::End
            },
            Phase::End => Phase::Close,
            Phase::Close => Phase::Open,
        }
    }

    /// The time that is left for trading after some time has passed, both in nanoseconds, while
    /// there is any.
    pub fn trading_left(&self, elapsed: u128) -> (left: Option<u128>)
        ensures
            match left {
                Some(left) => left > 0 && elapsed + left == self.round_duration_secs
                    * 1_000_000_000,
                None => elapsed >= self.round_duration_secs * 1_000_000_000,
            },
    {
        let whole: u128 = self.round_duration_secs as u128 * 1_000_000_000;
        if elapsed < whole {
            Some(whole - elapsed)
        } else {
            None
        }
    }

    /// Decides which phase follows another one.
    pub fn next_phase(&self, phase: Phase, elapsed: u128) -> (next: Phase)
        ensures
            next == self.phase_after(phase, elapsed),
    {
        match phase {
            Phase::Open | Phase::Trade(_) => match self.trading_left(elapsed) {
                Some(left) => Phase::Trade(left),
                None => Phase::End,
            },
            Phase::End => Phase::Close,
            Phase::Close => Phase::Open,
        }
    }

    /// Decides what is to be done once trading is over: all players are told.
    pub fn end_steps(&self) -> (steps: Vec<Step>)
        ensures
            steps_view(steps@) == seq![StepView::Broadcast(EventView::EndRound)],
    {
        let mut steps: Vec<Step> = Vec::new();
        steps.push(Step::Broadcast(Event::EndRound));
        assert(steps_view(steps@) =~= seq![StepView::Broadcast(EventView::EndRound)]);
        steps
    }
}

/// Orders are awaited only while the seconds of the round last, and for no longer than what is
/// left of them; once they are over, the round ends, is closed, and another one is opened.
pub proof fn law_rounds_keep_their_time(table: MatchMaker, phase: Phase, elapsed: u128)
    ensures
        phase is Open || phase is Trade ==> match table.phase_after(phase, elapsed) {
            Phase::Trade(left) => left > 0 && elapsed + left == table.round_duration_secs
                * 1_000_000_000,
            Phase::End => elapsed >= table.round_duration_secs * 1_000_000_000,
            _ => false,
        },
        phase is End ==> table.phase_after(phase, elapsed) is Close,
        phase is Close ==> table.phase_after(phase, elapsed) is Open,
{
}

/// The closings of the rounds of a run, each with the table before and after it, the pot and the
/// result. Rounds are counted from zero, and nothing but a closing counts them.
pub open spec fn are_closings(
    run: Seq<(MatchMaker, MatchMaker, usize, RoundResult)>,
    max_rounds: Option<u32>,
) -> bool {
    forall|i: int|
        0 <= i < run.len() ==> {
            let (before, after, pot, result) = #[trigger] run[i];
            &&& before.round < u32::MAX
            &&& is_closed(before, after, pot, result)
            &&& before.max_rounds == max_rounds
            &&& before.round == (if i == 0 {
                0
            } else {
                run[i - 1].1.round
            })
        }
}

/// A closing counts one round.
proof fn lemma_closing_counts(
    before: MatchMaker,
    after: MatchMaker,
    pot: usize,
    result: RoundResult,
)
    requires
        before.round < u32::MAX,
        is_closed(before, after, pot, result),
    ensures
        after.round == before.round + 1,
        after.max_rounds == before.max_rounds,
{
}

/// The rounds that a run has counted.
proof fn lemma_rounds_counted(
    run: Seq<(MatchMaker, MatchMaker, usize, RoundResult)>,
    max_rounds: Option<u32>,
    i: int,
)
    requires
        are_closings(run, max_rounds),
        0 <= i < run.len(),
    ensures
        run[i].1.round == i + 1,
        run[i].1.max_rounds == max_rounds,
    decreases i,
{
    if i > 0 {
        lemma_rounds_counted(run, max_rounds, i - 1);
    }
    let (before, after, pot, result) = run[i];
    lemma_closing_counts(before, after, pot, result);
}

/// The program ends once the rounds are over.
proof fn lemma_over_exits(table: MatchMaker)
    ensures
        table.closing().last() is Exit <==> table.over(),
{
}

/// A run that is asked for a number of rounds ends with the closing of as many, and not before; it
/// plays one round where it is asked for none. A run that is not asked for a number never ends.
pub proof fn law_runs_end_after_their_rounds(
    run: Seq<(MatchMaker, MatchMaker, usize, RoundResult)>,
    max_rounds: Option<u32>,
    i: int,
)
    requires
        are_closings(run, max_rounds),
        0 <= i < run.len(),
    ensures
        run[i].1.round == i + 1,
        run[i].1.closing().last() is Exit <==> match max_rounds {
            Some(max) => i + 1 >= (if max > 1 {
                max as int
            } else {
                1
            }),
            None => false,
        },
{
    lemma_rounds_counted(run, max_rounds, i);
    lemma_over_exits(run[i].1);
}

} // verus!
