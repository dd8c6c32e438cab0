//! Whole runs of the rotation loop, and what holds of all of them.
//!
//! A run is a sequence of rounds. In each round the caller selects an image
//! and, if the loop asks for it, invokes the command. The functions here fold
//! [`step`] over such a sequence; the lemmas state what the loop guarantees
//! whatever the selections and invocations bring.

use vstd::prelude::*;
use crate::config::RunConfigView;
use crate::images::ImageError;
use crate::work_loop::{
    after_invocation, consistent, initial, next_errors, step, ActionView, EventView, Fatal,
    Invocation, LoopModel, Phase,
};

verus! {

/// What one pass through the loop meets: how the selection ends, and how the
/// command would end if it were invoked.
pub struct Round {
    pub selection: Result<Seq<char>, ImageError>,
    pub outcome: Invocation,
}

impl Round {
    /// The event that reports the selection of this round.
    pub open spec fn selection_event(self) -> EventView {
        match self.selection {
            Ok(path) => EventView::Selected(path),
            Err(error) => EventView::SelectionFailed(error),
        }
    }
}

/// Whether the loop asks for the command in a round that starts in `state`.
pub open spec fn invokes(config: RunConfigView, state: LoopModel, round: Round) -> bool {
    step(config, state, round.selection_event()).1 is Invoke
}

/// The state after one round: the selection is reported, and the outcome of
/// the command if and only if the loop asked for it.
pub open spec fn after_round(config: RunConfigView, state: LoopModel, round: Round) -> LoopModel {
    let selected = step(config, state, round.selection_event()).0;
    if invokes(config, state, round) {
        step(config, selected, EventView::Invoked(round.outcome)).0
    } else {
        selected
    }
}

/// The state after all of `rounds`, in order.
pub open spec fn run(config: RunConfigView, state: LoopModel, rounds: Seq<Round>) -> LoopModel
    decreases rounds.len(),
{
    if rounds.len() == 0 {
        state
    } else {
        after_round(config, run(config, state, rounds.drop_last()), rounds.last())
    }
}

/// How often the command is invoked in the course of `rounds`.
pub open spec fn invocations(config: RunConfigView, state: LoopModel, rounds: Seq<Round>) -> nat
    decreases rounds.len(),
{
    if rounds.len() == 0 {
        0
    } else {
        let before = run(config, state, rounds.drop_last());
        invocations(config, state, rounds.drop_last()) + if invokes(config, before, rounds.last()) {
            1nat
        } else {
            0nat
        }
    }
}

/// The number of failed invocations at the end of `rounds`, counted back to
/// the last one that went well.
pub open spec fn streak(rounds: Seq<Round>) -> nat
    decreases rounds.len(),
{
    if rounds.len() == 0 {
        0
    } else {
        next_errors(streak(rounds.drop_last()), rounds.last().outcome)
    }
}

/// Whether the streak of failures has been at `limit` or above after one of
/// the rounds.
pub open spec fn limit_reached(limit: nat, rounds: Seq<Round>) -> bool {
    exists|k: int| 1 <= k <= rounds.len() && #[trigger] streak(rounds.take(k)) >= limit
}

/// Every selection of `rounds` yields an image.
pub open spec fn all_selected(rounds: Seq<Round>) -> bool {
    forall|i: int| 0 <= i < rounds.len() ==> (#[trigger] rounds[i]).selection is Ok
}

/// A step leads from a consistent state to a consistent state.
pub proof fn lemma_step_keeps_consistent(config: RunConfigView, state: LoopModel, event: EventView)
    requires
        consistent(config, state),
    ensures
        consistent(config, step(config, state, event).0),
{
}

/// Every state of a run that starts in a consistent state is consistent. In
/// particular the counter never passes a limit of one or more.
pub proof fn lemma_run_keeps_consistent(config: RunConfigView, state: LoopModel, rounds: Seq<Round>)
    requires
        consistent(config, state),
    ensures
        consistent(config, run(config, state, rounds)),
        config.max_retries >= 1 ==> run(config, state, rounds).errors <= config.max_retries,
    decreases rounds.len(),
{
    if rounds.len() > 0 {
        lemma_run_keeps_consistent(config, state, rounds.drop_last());
        let before = run(config, state, rounds.drop_last());
        lemma_step_keeps_consistent(config, before, rounds.last().selection_event());
    }
}

/// From one step to the next the counter stays, goes back to zero, or grows by
/// one; it shrinks in no other way.
pub proof fn lemma_counter_resets_or_increments(
    config: RunConfigView,
    state: LoopModel,
    event: EventView,
)
    ensures
        ({
            let after = step(config, state, event).0.errors;
            after == state.errors || after == 0 || after == state.errors + 1
        }),
{
}

/// An invocation that went well sets the counter to zero, whatever it held.
pub proof fn lemma_success_resets_counter(config: RunConfigView, state: LoopModel)
    ensures
        after_invocation(config, state.errors, Invocation::Exited { code: Some(0) }).0.errors == 0,
        !state.phase.is_terminal() ==> step(
            config,
            state,
            EventView::Invoked(Invocation::Exited { code: Some(0) }),
        ).0.errors == 0,
{
}

/// An invocation that failed, by its exit code or because the command could
/// not be started, adds one to the counter.
pub proof fn lemma_failure_increments_counter(
    config: RunConfigView,
    state: LoopModel,
    outcome: Invocation,
)
    requires
        !outcome.succeeded(),
    ensures
        after_invocation(config, state.errors, outcome).0.errors == state.errors + 1,
        !state.phase.is_terminal() ==> step(config, state, EventView::Invoked(outcome)).0.errors
            == state.errors + 1,
{
}

/// A loop that runs gives up for too many errors in one case only: it goes on
/// after a rotation, and an invocation has brought the counter to the limit.
/// It does so in that very step. Where the limit is one or more, the counter
/// then holds exactly the limit.
pub proof fn lemma_abort_exactly_at_limit(config: RunConfigView, state: LoopModel, event: EventView)
    requires
        !state.phase.is_terminal(),
    ensures
        step(config, state, event).0.phase == Phase::FatalAbort(Fatal::TooManyErrors) <==> {
            &&& event matches EventView::Invoked(outcome)
            &&& !config.rotate_once
            &&& next_errors(state.errors, outcome) >= config.max_retries
        },
        consistent(config, state) && config.max_retries >= 1 && step(config, state, event).0.phase
            == Phase::FatalAbort(Fatal::TooManyErrors) ==> step(config, state, event).0.errors
            == config.max_retries,
{
}

/// A failed selection ends the loop at once, whatever the counter holds.
pub proof fn lemma_failed_selection_is_fatal(
    config: RunConfigView,
    state: LoopModel,
    error: ImageError,
)
    requires
        !state.phase.is_terminal(),
    ensures
        step(config, state, EventView::SelectionFailed(error)) == (
            LoopModel { phase: Phase::FatalAbort(Fatal::Selection(error)), errors: state.errors },
            ActionView::Exit,
        ),
{
}

/// Rounds up to a point are the same whether taken from a sequence or from
/// that sequence without its last round.
proof fn lemma_take_of_drop_last(rounds: Seq<Round>, k: int)
    requires
        0 <= k < rounds.len(),
    ensures
        rounds.drop_last().take(k) == rounds.take(k),
{
    assert(rounds.drop_last().take(k) =~= rounds.take(k));
}

/// In a loop that goes on after a rotation and invokes the command, started
/// afresh and always given an image: the loop has ended fatally after `rounds`
/// if and only if the streak of failures has reached the limit after one of
/// them. Until then the loop is alive and its counter is the streak.
pub proof fn lemma_fatal_iff_limit_reached(config: RunConfigView, rounds: Seq<Round>)
    requires
        !config.rotate_once,
        !config.print_only,
        all_selected(rounds),
    ensures
        ({
            let end = run(config, initial(), rounds);
            &&& limit_reached(config.max_retries, rounds) <==> end.phase == Phase::FatalAbort(
                Fatal::TooManyErrors,
            )
            &&& !limit_reached(config.max_retries, rounds) ==> {
                &&& end.errors == streak(rounds)
                &&& end.phase == if streak(rounds) > 0 {
                    Phase::Backoff
                } else {
                    Phase::Running
                }
            }
        }),
    decreases rounds.len(),
{
    let limit = config.max_retries;
    if rounds.len() > 0 {
        let earlier = rounds.drop_last();
        lemma_fatal_iff_limit_reached(config, earlier);
        if limit_reached(limit, earlier) {
            let k = choose|k: int|
                1 <= k <= earlier.len() && #[trigger] streak(earlier.take(k)) >= limit;
            lemma_take_of_drop_last(rounds, k);
            assert(streak(rounds.take(k)) >= limit);
        } else {
            assert(rounds.last().selection is Ok);
            assert(rounds.take(rounds.len() as int) =~= rounds);
            if streak(rounds) < limit {
                assert forall|k: int| 1 <= k <= rounds.len() implies !(#[trigger] streak(
                    rounds.take(k),
                ) >= limit) by {
                    if k < rounds.len() {
                        lemma_take_of_drop_last(rounds, k);
                        assert(streak(earlier.take(k)) < limit);
                    }
                }
            }
        }
    }
}

/// The loop ends fatally in the very round in which the streak first reaches
/// the limit: it is alive before that round, and fatal after it, with a
/// counter that equals a limit of one or more.
pub proof fn lemma_fatal_when_limit_first_reached(config: RunConfigView, rounds: Seq<Round>)
    requires
        !config.rotate_once,
        !config.print_only,
        all_selected(rounds),
        rounds.len() > 0,
        streak(rounds) >= config.max_retries,
        !limit_reached(config.max_retries, rounds.drop_last()),
    ensures
        !run(config, initial(), rounds.drop_last()).phase.is_terminal(),
        run(config, initial(), rounds).phase == Phase::FatalAbort(Fatal::TooManyErrors),
        run(config, initial(), rounds).errors == streak(rounds),
        config.max_retries >= 1 ==> streak(rounds) == config.max_retries,
{
    lemma_fatal_iff_limit_reached(config, rounds.drop_last());
    assert(rounds.last().selection is Ok);
}

/// Once the loop has ended, further rounds change nothing and invoke nothing.
pub proof fn lemma_ended_loop_stays(config: RunConfigView, state: LoopModel, rounds: Seq<Round>)
    requires
        state.phase.is_terminal(),
    ensures
        run(config, state, rounds) == state,
        invocations(config, state, rounds) == 0,
    decreases rounds.len(),
{
    if rounds.len() > 0 {
        lemma_ended_loop_stays(config, state, rounds.drop_last());
    }
}

/// A run is its first round followed by the run of the others.
pub proof fn lemma_run_unfolds_at_front(config: RunConfigView, state: LoopModel, rounds: Seq<Round>)
    requires
        rounds.len() > 0,
    ensures
        run(config, state, rounds) == run(
            config,
            after_round(config, state, rounds.first()),
            rounds.drop_first(),
        ),
        invocations(config, state, rounds) == invocations(
            config,
            after_round(config, state, rounds.first()),
            rounds.drop_first(),
        ) + if invokes(config, state, rounds.first()) {
            1nat
        } else {
            0nat
        },
    decreases rounds.len(),
{
    let earlier = rounds.drop_last();
    let later = rounds.drop_first();
    let next = after_round(config, state, rounds.first());
    if rounds.len() == 1 {
        assert(run(config, state, earlier) == state);
        assert(invocations(config, state, earlier) == 0);
        assert(run(config, next, later) == next);
        assert(invocations(config, next, later) == 0);
    } else {
        lemma_run_unfolds_at_front(config, state, earlier);
        assert(earlier.first() == rounds.first());
        assert(earlier.drop_first() =~= later.drop_last());
        assert(later.last() == rounds.last());
        assert(run(config, state, earlier) == run(config, next, later.drop_last()));
        assert(invocations(config, next, later) == invocations(config, next, later.drop_last())
            + if invokes(config, run(config, next, later.drop_last()), later.last()) {
            1nat
        } else {
            0nat
        });
    }
}

/// A loop that rotates once makes one attempt and ends with it: after the
/// first round the loop has ended, later rounds change nothing, and the
/// command is invoked once if the selection yields an image that is not just
/// printed, and not at all otherwise. How the command ends makes no
/// difference to this.
pub proof fn lemma_rotate_once_attempts_once(
    config: RunConfigView,
    state: LoopModel,
    rounds: Seq<Round>,
)
    requires
        config.rotate_once,
        !state.phase.is_terminal(),
        rounds.len() > 0,
    ensures
        run(config, state, rounds) == after_round(config, state, rounds.first()),
        run(config, state, rounds).phase.is_terminal(),
        rounds.first().selection is Ok && !config.print_only ==> {
            &&& run(config, state, rounds).phase == Phase::RotatedOnce
            &&& invocations(config, state, rounds) == 1
        },
        rounds.first().selection is Err || config.print_only ==> invocations(config, state, rounds)
            == 0,
{
    lemma_run_unfolds_at_front(config, state, rounds);
    lemma_ended_loop_stays(config, after_round(config, state, rounds.first()), rounds.drop_first());
}

/// A loop that only prints never asks for the command.
pub proof fn lemma_print_only_never_asks(config: RunConfigView, state: LoopModel, event: EventView)
    requires
        config.print_only,
    ensures
        !(step(config, state, event).1 is Invoke),
{
}

/// A loop that only prints invokes the command in no round of any run and
/// leaves its counter as it is. It ends with the first selection: well if
/// that yields an image, fatally if not.
pub proof fn lemma_print_only_invokes_nothing(
    config: RunConfigView,
    state: LoopModel,
    rounds: Seq<Round>,
)
    requires
        config.print_only,
    ensures
        invocations(config, state, rounds) == 0,
        run(config, state, rounds).errors == state.errors,
        !state.phase.is_terminal() && rounds.len() > 0 ==> run(config, state, rounds).phase == (
            match rounds.first().selection {
                Ok(_) => Phase::Success,
                Err(error) => Phase::FatalAbort(Fatal::Selection(error)),
            }),
    decreases rounds.len(),
{
    if rounds.len() > 0 {
        lemma_print_only_invokes_nothing(config, state, rounds.drop_last());
        if !state.phase.is_terminal() {
            lemma_run_unfolds_at_front(config, state, rounds);
            lemma_ended_loop_stays(
                config,
                after_round(config, state, rounds.first()),
                rounds.drop_first(),
            );
        }
    }
}

} // verus!
