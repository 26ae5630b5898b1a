//! What holds of the loop, proved from the definition of its steps.

use crate::error::FatalView;
use crate::machine::{
    halt_spec, next_settled, next_settled_is_the_first, paired, resume_spec, step_spec,
    ActionView, EventView, NoticeView, StateView, StepView,
};
use crate::outcome::{Disposition, TxOutcome, ALREADY_KNOWN};
use crate::tx::{raw_batch, SpendTransactionView, TxId};
use vstd::prelude::*;

verus! {

/// The steps that the loop takes from `state` on as `events` are reported
/// one after the other.
pub open spec fn run(state: StateView, events: Seq<EventView>) -> Seq<StepView>
    decreases events.len(),
{
    if events.len() == 0 {
        Seq::empty()
    } else {
        let first = step_spec(state, events[0]);
        seq![first] + run(first.state, events.drop_first())
    }
}

/// `count` reports that a broadcast was recorded.
pub open spec fn marks_recorded(count: nat) -> Seq<EventView> {
    Seq::new(count, |i: int| EventView::Marked(Ok(())))
}

/// The identifiers of the transactions from position `from` on whose outcome
/// settles them, in the order of their positions.
pub open spec fn settled_ids(
    pending: Seq<SpendTransactionView>,
    outcomes: Seq<TxOutcome>,
    from: int,
) -> Seq<TxId>
    decreases paired(pending, outcomes) - from,
{
    if from >= paired(pending, outcomes) {
        Seq::empty()
    } else if outcomes[from].settles() {
        seq![pending[from].txid] + settled_ids(pending, outcomes, from + 1)
    } else {
        settled_ids(pending, outcomes, from + 1)
    }
}

/// Outcome `i` is applied to transaction `i`. When the loop goes on from
/// position `from`, the transaction that it asks to mark stands at a position
/// whose own outcome settles it, every position that it passed over on the
/// way has an outcome that does not, and the notice for such a position names
/// the transaction and the outcome of that position. Where it asks for no
/// mark, no outcome from `from` on settles.
pub proof fn outcome_is_applied_to_its_own_transaction(
    pending: Seq<SpendTransactionView>,
    outcomes: Seq<TxOutcome>,
    from: int,
    said: Seq<NoticeView>,
)
    requires
        0 <= from <= paired(pending, outcomes),
    ensures
        ({
            let out = resume_spec(pending, outcomes, from, said);
            let limit = paired(pending, outcomes);
            &&& out.state matches StateView::Marking { txid, pending: p, outcomes: o, next } ==> {
                &&& from < next <= limit
                &&& p == pending
                &&& o == outcomes
                &&& txid == pending[next - 1].txid
                &&& outcomes[next - 1].settles()
                &&& out.action == ActionView::MarkBroadcasted(txid)
                &&& out.notices.len() == said.len() + (next - 1 - from)
                &&& forall|i: int|
                    from <= i < next - 1 ==> !outcomes[i].settles() && out.notices[said.len() + (i
                        - from)] == (NoticeView::LeftPending {
                        txid: pending[i].txid,
                        outcome: outcomes[i],
                    })
            }
            &&& !(out.state is Marking) ==> {
                &&& out.state == StateView::Idle
                &&& out.action == ActionView::AwaitTick
                &&& out.notices.len() == said.len() + (limit - from) + 1
                &&& forall|i: int|
                    from <= i < limit ==> !outcomes[i].settles() && out.notices[said.len() + (i
                        - from)] == (NoticeView::LeftPending {
                        txid: pending[i].txid,
                        outcome: outcomes[i],
                    })
            }
        }),
{
    next_settled_is_the_first(outcomes, from, paired(pending, outcomes));
}

/// A whole attempt marks exactly the settled transactions, in the order of
/// their positions, and nothing else. After the node has answered the batch
/// made of `pending` with `outcomes`, and as long as each mark is recorded,
/// the loop asks for one mark for each position whose outcome is a success
/// or "already known", and then waits for the next tick.
pub proof fn attempt_marks_the_settled_in_order(
    pending: Seq<SpendTransactionView>,
    outcomes: Seq<TxOutcome>,
)
    ensures
        ({
            let ids = settled_ids(pending, outcomes, 0);
            let steps = run(
                StateView::Submitting { pending },
                seq![EventView::Submitted(Ok(outcomes))] + marks_recorded(ids.len()),
            );
            &&& steps.len() == ids.len() + 1
            &&& forall|j: int|
                0 <= j < ids.len() ==> (#[trigger] steps[j]).action == ActionView::MarkBroadcasted(
                    ids[j],
                )
            &&& steps[ids.len() as int].action == ActionView::AwaitTick
            &&& steps[ids.len() as int].state == StateView::Idle
        }),
{
    let ids = settled_ids(pending, outcomes, 0);
    let events = seq![EventView::Submitted(Ok(outcomes))] + marks_recorded(ids.len());
    assert(events.drop_first() =~= marks_recorded(ids.len()));
    resumed_attempt_marks_the_settled(pending, outcomes, 0, Seq::empty());
}

/// Which transactions `settled_ids` holds: those of the positions from `from`
/// on that have an outcome, and whose outcome settles them.
pub proof fn settled_ids_are_the_settled(
    pending: Seq<SpendTransactionView>,
    outcomes: Seq<TxOutcome>,
    from: int,
)
    requires
        0 <= from,
    ensures
        forall|txid: TxId|
            settled_ids(pending, outcomes, from).contains(txid) <==> exists|i: int|
                from <= i < paired(pending, outcomes) && outcomes[i].settles()
                    && #[trigger] pending[i].txid == txid,
    decreases paired(pending, outcomes) - from,
{
    let limit = paired(pending, outcomes);
    let ids = settled_ids(pending, outcomes, from);
    if from < limit {
        settled_ids_are_the_settled(pending, outcomes, from + 1);
        let rest = settled_ids(pending, outcomes, from + 1);
        assert forall|txid: TxId| ids.contains(txid) <==> exists|i: int|
            from <= i < limit && outcomes[i].settles() && #[trigger] pending[i].txid
                == txid by {
            if ids.contains(txid) {
                let j = choose|j: int| 0 <= j < ids.len() && ids[j] == txid;
                if outcomes[from].settles() && j > 0 {
                    assert(rest.contains(txid));
                }
            }
            if exists|i: int|
                from <= i < limit && outcomes[i].settles() && #[trigger] pending[i].txid == txid {
                let i = choose|i: int|
                    from <= i < limit && outcomes[i].settles() && #[trigger] pending[i].txid
                        == txid;
                if i == from {
                    assert(ids[0] == txid);
                } else {
                    assert(rest.contains(txid));
                    let j = choose|j: int| 0 <= j < rest.len() && rest[j] == txid;
                    if outcomes[from].settles() {
                        assert(ids[j + 1] == txid);
                    }
                }
            }
        }
    }
}

/// An error with the code for "already known" counts as an outright success:
/// both are marked, and a loop that got the one in place of the other at some
/// position asks for the same marks.
pub proof fn already_known_counts_as_accepted(
    pending: Seq<SpendTransactionView>,
    outcomes: Seq<TxOutcome>,
    position: int,
    from: int,
    said: Seq<NoticeView>,
)
    requires
        0 <= position < outcomes.len(),
        0 <= from,
        outcomes[position] == TxOutcome::Accepted,
    ensures
        (TxOutcome::Rejected { code: ALREADY_KNOWN }).disposition() == TxOutcome::Accepted.disposition(),
        TxOutcome::Accepted.disposition() == Disposition::MarkBroadcasted,
        ({
            let known = outcomes.update(position, TxOutcome::Rejected { code: ALREADY_KNOWN });
            let with_success = resume_spec(pending, outcomes, from, said);
            let with_known = resume_spec(pending, known, from, said);
            &&& with_known.action == with_success.action
            &&& with_known.notices == with_success.notices
            &&& with_known.state is Marking == with_success.state is Marking
            &&& with_success.state matches StateView::Marking { txid, next, .. }
                ==> with_known.state == (StateView::Marking { txid, pending, outcomes: known, next })
            &&& settled_ids(pending, known, from) == settled_ids(pending, outcomes, from)
        }),
{
    let known = outcomes.update(position, TxOutcome::Rejected { code: ALREADY_KNOWN });
    let limit = paired(pending, outcomes);
    same_verdicts_same_marks(pending, outcomes, known, from);
    same_verdicts_same_scan(outcomes, known, from, limit);
    next_settled_is_the_first(outcomes, from, limit);
}

/// Any other error leaves the transaction pending: an outcome that is neither
/// a success nor "already known" asks for no mark, whatever its code.
pub proof fn other_errors_leave_pending(outcome: TxOutcome)
    requires
        outcome != TxOutcome::Accepted,
        outcome != (TxOutcome::Rejected { code: ALREADY_KNOWN }),
    ensures
        outcome.disposition() == Disposition::LeavePending,
        !outcome.settles(),
{
}

/// Retrying has no bound and no memory: on every tick, whatever happened on
/// the ticks before, the loop asks for the pending set, and if the store
/// lists any transaction it submits all of them, each at its own position.
pub proof fn every_listed_transaction_is_submitted(pending: Seq<SpendTransactionView>)
    requires
        pending.len() > 0,
    ensures
        ({
            let steps = run(
                StateView::Idle,
                seq![EventView::Tick, EventView::Fetched(Ok(pending))],
            );
            &&& steps.len() == 2
            &&& steps[0].action == ActionView::FetchPending
            &&& steps[1].action == ActionView::Submit(raw_batch(pending))
            &&& steps[1].state == (StateView::Submitting { pending })
            &&& raw_batch(pending).len() == pending.len()
            &&& forall|i: int| 0 <= i < pending.len() ==> raw_batch(pending)[i] == pending[i].raw
        }),
{
    let events = seq![EventView::Tick, EventView::Fetched(Ok(pending))];
    let first = step_spec(StateView::Idle, events[0]);
    let rest = events.drop_first();
    let second = step_spec(first.state, rest[0]);
    assert(run(second.state, rest.drop_first()) =~= Seq::empty());
    assert(run(first.state, rest) =~= seq![second]);
}

/// A failed fetch ends the attempt and nothing else: the loop submits
/// nothing, waits for the next tick, and then asks for the pending set again.
pub proof fn failed_fetch_is_tried_again(error: Seq<char>)
    ensures
        ({
            let steps = run(
                StateView::Idle,
                seq![EventView::Tick, EventView::Fetched(Err(error)), EventView::Tick],
            );
            &&& steps.len() == 3
            &&& steps[0].action == ActionView::FetchPending
            &&& steps[1] == (StepView {
                state: StateView::Idle,
                notices: seq![NoticeView::FetchFailed(error)],
                action: ActionView::AwaitTick,
            })
            &&& steps[2].action == ActionView::FetchPending
        }),
{
    let events = seq![EventView::Tick, EventView::Fetched(Err(error)), EventView::Tick];
    let first = step_spec(StateView::Idle, events[0]);
    let second = step_spec(first.state, events[1]);
    let third = step_spec(second.state, events[2]);
    let after_first = events.drop_first();
    let after_second = after_first.drop_first();
    assert(run(third.state, after_second.drop_first()) =~= Seq::empty());
    assert(run(second.state, after_second) =~= seq![third]);
    assert(run(first.state, after_first) =~= seq![second, third]);
}

/// With nothing pending the loop submits nothing: it goes back to waiting for
/// the next tick. It submits a batch exactly when something is pending.
pub proof fn empty_queue_submits_nothing(pending: Seq<SpendTransactionView>)
    ensures
        ({
            let out = step_spec(StateView::Fetching, EventView::Fetched(Ok(pending)));
            &&& out.action is Submit <==> pending.len() > 0
            &&& pending.len() == 0 ==> out == (StepView {
                state: StateView::Idle,
                notices: seq![NoticeView::QueueEmpty],
                action: ActionView::AwaitTick,
            })
        }),
{
}

/// One thing at a time: what the loop asks for tells what it waits for. It
/// waits for a tick only when no attempt is under way, and while an attempt is
/// under way it asks for exactly one thing, the one whose answer it then
/// waits for.
pub proof fn action_tells_the_state(state: StateView, event: EventView)
    ensures
        ({
            let out = step_spec(state, event);
            &&& out.action is AwaitTick <==> out.state is Idle
            &&& out.action is FetchPending <==> out.state is Fetching
            &&& out.action is Submit <==> out.state is Submitting
            &&& out.action is MarkBroadcasted <==> out.state is Marking
            &&& out.action is Halt <==> out.state is Stopped
            &&& out.state matches StateView::Submitting { pending } ==> out.action
                == ActionView::Submit(raw_batch(pending))
            &&& out.state matches StateView::Marking { txid, .. } ==> out.action
                == ActionView::MarkBroadcasted(txid)
        }),
{
}

/// A batch that could not be submitted stops the loop, and none of its
/// transactions is marked, then or later: no step asks for a mark, for a
/// fetch or for another tick.
pub proof fn failed_batch_marks_nothing_and_stops(
    pending: Seq<SpendTransactionView>,
    error: Seq<char>,
    later: Seq<EventView>,
)
    ensures
        ({
            let steps = run(
                StateView::Submitting { pending },
                seq![EventView::Submitted(Err(error))] + later,
            );
            &&& steps.len() == later.len() + 1
            &&& steps[0] == halt_spec(FatalView::Submission(error))
            &&& forall|i: int|
                0 <= i < steps.len() ==> (#[trigger] steps[i]).action is Halt && steps[i].state
                    == StateView::Stopped
        }),
{
    let events = seq![EventView::Submitted(Err(error))] + later;
    assert(events.drop_first() =~= later);
    stopped_loop_stays_stopped(later);
}

/// A broadcast that could not be recorded stops the loop: no step after it
/// asks for anything but to halt.
pub proof fn failed_mark_stops(
    txid: TxId,
    pending: Seq<SpendTransactionView>,
    outcomes: Seq<TxOutcome>,
    next: int,
    error: Seq<char>,
    later: Seq<EventView>,
)
    ensures
        ({
            let steps = run(
                StateView::Marking { txid, pending, outcomes, next },
                seq![EventView::Marked(Err(error))] + later,
            );
            &&& steps.len() == later.len() + 1
            &&& steps[0] == halt_spec(FatalView::Mark { txid, error })
            &&& forall|i: int|
                0 <= i < steps.len() ==> (#[trigger] steps[i]).action is Halt && steps[i].state
                    == StateView::Stopped
        }),
{
    let events = seq![EventView::Marked(Err(error))] + later;
    assert(events.drop_first() =~= later);
    stopped_loop_stays_stopped(later);
}

/// A loop that has stopped stays stopped: whatever is reported to it, it
/// asks for nothing but to halt.
pub proof fn stopped_loop_stays_stopped(events: Seq<EventView>)
    ensures
        run(StateView::Stopped, events).len() == events.len(),
        forall|i: int|
            0 <= i < events.len() ==> #[trigger] run(StateView::Stopped, events)[i] == halt_spec(
                FatalView::OutOfTurn,
            ),
    decreases events.len(),
{
    if events.len() > 0 {
        stopped_loop_stays_stopped(events.drop_first());
    }
}

/// Passing over positions that do not settle changes nothing about the
/// transactions that remain to be marked.
proof fn settled_ids_skip_unsettled(
    pending: Seq<SpendTransactionView>,
    outcomes: Seq<TxOutcome>,
    from: int,
)
    requires
        0 <= from,
    ensures
        ({
            let limit = paired(pending, outcomes);
            let stop = next_settled(outcomes, from, limit);
            &&& stop < limit ==> settled_ids(pending, outcomes, from) == seq![pending[stop].txid]
                + settled_ids(pending, outcomes, stop + 1)
            &&& stop >= limit ==> settled_ids(pending, outcomes, from) == Seq::<TxId>::empty()
        }),
    decreases paired(pending, outcomes) - from,
{
    let limit = paired(pending, outcomes);
    if from < limit && !outcomes[from].settles() {
        settled_ids_skip_unsettled(pending, outcomes, from + 1);
    }
}

/// The marks of an attempt that goes on from position `from`, if each of
/// them is recorded.
proof fn resumed_attempt_marks_the_settled(
    pending: Seq<SpendTransactionView>,
    outcomes: Seq<TxOutcome>,
    from: int,
    said: Seq<NoticeView>,
)
    requires
        0 <= from,
    ensures
        ({
            let ids = settled_ids(pending, outcomes, from);
            let first = resume_spec(pending, outcomes, from, said);
            let steps = seq![first] + run(first.state, marks_recorded(ids.len()));
            &&& steps.len() == ids.len() + 1
            &&& forall|j: int|
                0 <= j < ids.len() ==> (#[trigger] steps[j]).action == ActionView::MarkBroadcasted(
                    ids[j],
                )
            &&& steps[ids.len() as int].action == ActionView::AwaitTick
            &&& steps[ids.len() as int].state == StateView::Idle
        }),
    decreases paired(pending, outcomes) - from,
{
    let limit = paired(pending, outcomes);
    let stop = next_settled(outcomes, from, limit);
    let ids = settled_ids(pending, outcomes, from);
    settled_ids_skip_unsettled(pending, outcomes, from);
    if stop < limit {
        next_settled_is_the_first(outcomes, from, limit);
        let txid = pending[stop].txid;
        let rest_ids = settled_ids(pending, outcomes, stop + 1);
        let events = marks_recorded(ids.len());
        let noted = seq![NoticeView::Broadcasted(txid)];
        assert(events.drop_first() =~= marks_recorded(rest_ids.len()));
        resumed_attempt_marks_the_settled(pending, outcomes, stop + 1, noted);
    }
}

/// Two outcome sequences that settle the same positions are scanned alike.
proof fn same_verdicts_same_scan(a: Seq<TxOutcome>, b: Seq<TxOutcome>, from: int, limit: int)
    requires
        0 <= from,
        limit <= a.len(),
        a.len() == b.len(),
        forall|i: int| 0 <= i < a.len() ==> a[i].settles() == b[i].settles(),
    ensures
        next_settled(a, from, limit) == next_settled(b, from, limit),
    decreases limit - from,
{
    if from < limit && !a[from].settles() {
        same_verdicts_same_scan(a, b, from + 1, limit);
    }
}

/// Two outcome sequences that settle the same positions ask for the same
/// marks.
proof fn same_verdicts_same_marks(
    pending: Seq<SpendTransactionView>,
    a: Seq<TxOutcome>,
    b: Seq<TxOutcome>,
    from: int,
)
    requires
        0 <= from,
        a.len() == b.len(),
        forall|i: int| 0 <= i < a.len() ==> a[i].settles() == b[i].settles(),
    ensures
        settled_ids(pending, a, from) == settled_ids(pending, b, from),
    decreases paired(pending, a) - from,
{
    if from < paired(pending, a) {
        same_verdicts_same_marks(pending, a, b, from + 1);
    }
}

} // verus!
