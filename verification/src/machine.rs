//! The loop as a state machine: each event that the outside world reports
//! gives the next state, what to log, and what to do next.
//!
//! One attempt runs like this. A tick makes the loop ask for the pending
//! transactions. If the store cannot list them, or lists none, the attempt is
//! over. Else the loop asks to submit all of them to the node as one batch. If
//! that call fails, the loop ends. Else the node has answered with one outcome
//! for each transaction, and the loop goes through them in order: where the
//! outcome settles the transaction, the loop asks the store to record it as
//! broadcasted and waits for that to be done before it goes on; where it does
//! not, the transaction is passed over and stays pending. If the store cannot
//! record a broadcast, the loop ends. After the last outcome the attempt is
//! over, and the loop waits for the next tick.

use crate::error::{Fatal, FatalView, NodeError, StoreError};
use crate::outcome::{Disposition, TxOutcome};
use crate::tx::{collect_batch, raw_batch, views, SpendTransaction, SpendTransactionView, TxId};
use vstd::prelude::*;

verus! {

/// Where the loop stands between two events.
#[derive(Clone, Debug, PartialEq, Eq)]
pub enum State {
    /// Waiting for the next tick.
    Idle,
    /// Waiting for the store to list the pending transactions.
    Fetching,
    /// Waiting for the node to answer the batch made of `pending`.
    Submitting { pending: Vec<SpendTransaction> },
    /// Waiting for the store to record `txid` as broadcasted. The outcomes
    /// before position `next` have been dealt with.
    Marking { txid: TxId, pending: Vec<SpendTransaction>, outcomes: Vec<TxOutcome>, next: usize },
    /// The loop has ended and does nothing more.
    Stopped,
}

/// What the outside world reports to the loop.
#[derive(Debug, PartialEq, Eq)]
pub enum Event {
    /// The interval has elapsed.
    Tick,
    /// The store has listed the pending transactions, or failed to.
    Fetched(Result<Vec<SpendTransaction>, StoreError>),
    /// The node has answered the batch with one outcome per transaction, or
    /// the call has failed as a whole.
    Submitted(Result<Vec<TxOutcome>, NodeError>),
    /// The store has recorded the broadcast, or failed to.
    Marked(Result<(), StoreError>),
}

/// What the loop asks the outside world to do next.
#[derive(Clone, Debug, PartialEq, Eq)]
pub enum Action {
    /// Wait for the next tick and report it.
    AwaitTick,
    /// List the pending transactions.
    FetchPending,
    /// Submit these raw transactions to the node as one batch.
    Submit(Vec<Vec<u8>>),
    /// Record this transaction as broadcasted.
    MarkBroadcasted(TxId),
    /// End the loop with this failure.
    Halt(Fatal),
}

/// What is worth logging about a step.
#[derive(Clone, Debug, PartialEq, Eq)]
pub enum Notice {
    /// A reconciliation attempt begins.
    TickStarted,
    /// The pending transactions could not be listed; the attempt ends here.
    FetchFailed(StoreError),
    /// Nothing is pending.
    QueueEmpty,
    /// The transaction has been recorded as broadcasted.
    Broadcasted(TxId),
    /// The node did not take the transaction; it stays pending.
    LeftPending { txid: TxId, outcome: TxOutcome },
    /// The attempt is over.
    TickCompleted,
}

/// The result of one step.
#[derive(Clone, Debug, PartialEq, Eq)]
pub struct Step {
    pub state: State,
    pub notices: Vec<Notice>,
    pub action: Action,
}

/// What a [`State`] is, mathematically.
pub enum StateView {
    Idle,
    Fetching,
    Submitting { pending: Seq<SpendTransactionView> },
    Marking { txid: TxId, pending: Seq<SpendTransactionView>, outcomes: Seq<TxOutcome>, next: int },
    Stopped,
}

/// What an [`Event`] is, mathematically.
pub enum EventView {
    Tick,
    Fetched(Result<Seq<SpendTransactionView>, Seq<char>>),
    Submitted(Result<Seq<TxOutcome>, Seq<char>>),
    Marked(Result<(), Seq<char>>),
}

/// What an [`Action`] is, mathematically.
pub enum ActionView {
    AwaitTick,
    FetchPending,
    Submit(Seq<Seq<u8>>),
    MarkBroadcasted(TxId),
    Halt(FatalView),
}

/// What a [`Notice`] is, mathematically.
pub enum NoticeView {
    TickStarted,
    FetchFailed(Seq<char>),
    QueueEmpty,
    Broadcasted(TxId),
    LeftPending { txid: TxId, outcome: TxOutcome },
    TickCompleted,
}

/// What a [`Step`] is, mathematically.
pub struct StepView {
    pub state: StateView,
    pub notices: Seq<NoticeView>,
    pub action: ActionView,
}

impl View for State {
    type V = StateView;

    open spec fn view(&self) -> StateView {
        match *self {
            State::Idle => StateView::Idle,
            State::Fetching => StateView::Fetching,
            State::Submitting { pending } => StateView::Submitting { pending: views(pending@) },
            State::Marking { txid, pending, outcomes, next } => StateView::Marking {
                txid,
                pending: views(pending@),
                outcomes: outcomes@,
                next: next as int,
            },
            State::Stopped => StateView::Stopped,
        }
    }
}

impl View for Event {
    type V = EventView;

    open spec fn view(&self) -> EventView {
        match *self {
            Event::Tick => EventView::Tick,
            Event::Fetched(Ok(pending)) => EventView::Fetched(Ok(views(pending@))),
            Event::Fetched(Err(error)) => EventView::Fetched(Err(error@)),
            Event::Submitted(Ok(outcomes)) => EventView::Submitted(Ok(outcomes@)),
            Event::Submitted(Err(error)) => EventView::Submitted(Err(error@)),
            Event::Marked(Ok(())) => EventView::Marked(Ok(())),
            Event::Marked(Err(error)) => EventView::Marked(Err(error@)),
        }
    }
}

impl View for Action {
    type V = ActionView;

    open spec fn view(&self) -> ActionView {
        match *self {
            Action::AwaitTick => ActionView::AwaitTick,
            Action::FetchPending => ActionView::FetchPending,
            Action::Submit(batch) => ActionView::Submit(views(batch@)),
            Action::MarkBroadcasted(txid) => ActionView::MarkBroadcasted(txid),
            Action::Halt(fatal) => ActionView::Halt(fatal@),
        }
    }
}

impl View for Notice {
    type V = NoticeView;

    open spec fn view(&self) -> NoticeView {
        match *self {
            Notice::TickStarted => NoticeView::TickStarted,
            Notice::FetchFailed(error) => NoticeView::FetchFailed(error@),
            Notice::QueueEmpty => NoticeView::QueueEmpty,
            Notice::Broadcasted(txid) => NoticeView::Broadcasted(txid),
            Notice::LeftPending { txid, outcome } => NoticeView::LeftPending { txid, outcome },
            Notice::TickCompleted => NoticeView::TickCompleted,
        }
    }
}

impl View for Step {
    type V = StepView;

    open spec fn view(&self) -> StepView {
        StepView { state: self.state@, notices: views(self.notices@), action: self.action@ }
    }
}

/// How many positions have both a transaction and an outcome: outcome `i`
/// belongs to transaction `i` for every `i` below this. A node that keeps to
/// its contract answers with as many outcomes as there were transactions; if
/// it does not, the transactions without an outcome stay pending and the
/// outcomes without a transaction are ignored.
pub open spec fn paired(pending: Seq<SpendTransactionView>, outcomes: Seq<TxOutcome>) -> int {
    if pending.len() <= outcomes.len() {
        pending.len() as int
    } else {
        outcomes.len() as int
    }
}

/// The first position from `from` on and below `limit` whose outcome settles
/// its transaction; where there is none, a position that is not below `limit`.
pub open spec fn next_settled(outcomes: Seq<TxOutcome>, from: int, limit: int) -> int
    decreases limit - from,
{
    if from >= limit {
        from
    } else if outcomes[from].settles() {
        from
    } else {
        next_settled(outcomes, from + 1, limit)
    }
}

/// What `next_settled` finds, said without recursion: it stops at or after
/// `from`, no outcome that it passes over settles, and the outcome at which it
/// stops below `limit` settles.
pub open spec fn finds_first(outcomes: Seq<TxOutcome>, from: int, limit: int) -> bool {
    let stop = next_settled(outcomes, from, limit);
    &&& from <= stop
    &&& stop <= limit || stop == from
    &&& forall|i: int| from <= i < stop ==> !(#[trigger] outcomes[i]).settles()
    &&& stop < limit ==> outcomes[stop].settles()
}

/// `next_settled` finds the first outcome that settles.
pub proof fn next_settled_is_the_first(outcomes: Seq<TxOutcome>, from: int, limit: int)
    ensures
        finds_first(outcomes, from, limit),
    decreases limit - from,
{
    if from < limit && !outcomes[from].settles() {
        next_settled_is_the_first(outcomes, from + 1, limit);
    }
}

/// The outcomes that a step goes through, the position from which it does,
/// and the position below which it stays; `None` for a step that goes through
/// no outcomes.
pub open spec fn scanned(state: StateView, event: EventView) -> Option<(Seq<TxOutcome>, int, int)> {
    match (state, event) {
        (StateView::Submitting { pending }, EventView::Submitted(Ok(outcomes))) => Some(
            (outcomes, 0, paired(pending, outcomes)),
        ),
        (StateView::Marking { txid, pending, outcomes, next }, EventView::Marked(Ok(()))) => Some(
            (outcomes, next, paired(pending, outcomes)),
        ),
        _ => None,
    }
}

/// One notice for each position from `from` up to `until`: its transaction
/// stays pending.
pub open spec fn left_pending(
    pending: Seq<SpendTransactionView>,
    outcomes: Seq<TxOutcome>,
    from: int,
    until: int,
) -> Seq<NoticeView> {
    Seq::new(
        (until - from) as nat,
        |k: int| NoticeView::LeftPending { txid: pending[from + k].txid, outcome: outcomes[from + k] },
    )
}

/// The step that deals with the outcomes from position `from` on, after
/// `said` has been noted: the transactions whose outcome does not settle them
/// are passed over, up to the first that is to be marked; where none is left,
/// the attempt is over.
pub open spec fn resume_spec(
    pending: Seq<SpendTransactionView>,
    outcomes: Seq<TxOutcome>,
    from: int,
    said: Seq<NoticeView>,
) -> StepView {
    let limit = paired(pending, outcomes);
    let stop = next_settled(outcomes, from, limit);
    let notices = said + left_pending(pending, outcomes, from, stop);
    if stop < limit {
        StepView {
            state: StateView::Marking { txid: pending[stop].txid, pending, outcomes, next: stop + 1 },
            notices,
            action: ActionView::MarkBroadcasted(pending[stop].txid),
        }
    } else {
        StepView {
            state: StateView::Idle,
            notices: notices.push(NoticeView::TickCompleted),
            action: ActionView::AwaitTick,
        }
    }
}

/// The step that ends the loop because of `fatal`.
pub open spec fn halt_spec(fatal: FatalView) -> StepView {
    StepView { state: StateView::Stopped, notices: Seq::empty(), action: ActionView::Halt(fatal) }
}

/// The step that the loop takes in `state` when `event` is reported. An event
/// that `state` was not waiting for ends the loop, and a loop that has ended
/// stays so.
pub open spec fn step_spec(state: StateView, event: EventView) -> StepView {
    match (state, event) {
        (StateView::Idle, EventView::Tick) => StepView {
            state: StateView::Fetching,
            notices: seq![NoticeView::TickStarted],
            action: ActionView::FetchPending,
        },
        (StateView::Fetching, EventView::Fetched(Err(error))) => StepView {
            state: StateView::Idle,
            notices: seq![NoticeView::FetchFailed(error)],
            action: ActionView::AwaitTick,
        },
        (StateView::Fetching, EventView::Fetched(Ok(pending))) => if pending.len() == 0 {
            StepView {
                state: StateView::Idle,
                notices: seq![NoticeView::QueueEmpty],
                action: ActionView::AwaitTick,
            }
        } else {
            StepView {
                state: StateView::Submitting { pending },
                notices: Seq::empty(),
                action: ActionView::Submit(raw_batch(pending)),
            }
        },
        (StateView::Submitting { pending }, EventView::Submitted(Err(error))) => halt_spec(
            FatalView::Submission(error),
        ),
        (StateView::Submitting { pending }, EventView::Submitted(Ok(outcomes))) => resume_spec(
            pending,
            outcomes,
            0,
            Seq::empty(),
        ),
        (StateView::Marking { txid, pending, outcomes, next }, EventView::Marked(Err(error))) => halt_spec(
            FatalView::Mark { txid, error },
        ),
        (StateView::Marking { txid, pending, outcomes, next }, EventView::Marked(Ok(()))) => resume_spec(
            pending,
            outcomes,
            next,
            seq![NoticeView::Broadcasted(txid)],
        ),
        _ => halt_spec(FatalView::OutOfTurn),
    }
}

/// Ends the loop because of `fatal`.
fn halt(fatal: Fatal) -> (out: Step)
    ensures
        out@ == halt_spec(fatal@),
{
    let out = Step { state: State::Stopped, notices: Vec::new(), action: Action::Halt(fatal) };
    assert(views(out.notices@) =~= Seq::empty());
    out
}

/// Goes on through the outcomes from position `from`, after `said` was
/// noted.
fn resume(
    pending: Vec<SpendTransaction>,
    outcomes: Vec<TxOutcome>,
    from: usize,
    said: Vec<Notice>,
) -> (out: Step)
    ensures
        out@ == resume_spec(views(pending@), outcomes@, from as int, views(said@)),
        finds_first(outcomes@, from as int, paired(views(pending@), outcomes@)),
{
    proof {
        next_settled_is_the_first(outcomes@, from as int, paired(views(pending@), outcomes@));
    }
    let limit: usize = if pending.len() <= outcomes.len() {
        pending.len()
    } else {
        outcomes.len()
    };
    let ghost before = views(said@);
    let ghost txs = views(pending@);
    let mut notices = said;
    let mut at: usize = from;
    while at < limit
        invariant
            from <= at,
            limit == paired(txs, outcomes@),
            txs == views(pending@),
            before == views(said@),
            finds_first(outcomes@, from as int, limit as int),
            next_settled(outcomes@, at as int, limit as int) == next_settled(
                outcomes@,
                from as int,
                limit as int,
            ),
            views(notices@) == before + left_pending(txs, outcomes@, from as int, at as int),
        decreases limit - at,
    {
        match outcomes[at].classify() {
            Disposition::MarkBroadcasted => {
                let txid = pending[at].txid;
                return Step {
                    state: State::Marking { txid, pending, outcomes, next: at + 1 },
                    notices,
                    action: Action::MarkBroadcasted(txid),
                };
            },
            Disposition::LeavePending => {
                let ghost earlier = views(notices@);
                notices.push(Notice::LeftPending { txid: pending[at].txid, outcome: outcomes[at] });
                assert(views(notices@) =~= earlier.push(
                    NoticeView::LeftPending { txid: txs[at as int].txid, outcome: outcomes@[at as int] },
                ));
                assert(left_pending(txs, outcomes@, from as int, at + 1) =~= left_pending(
                    txs,
                    outcomes@,
                    from as int,
                    at as int,
                ).push(
                    NoticeView::LeftPending { txid: txs[at as int].txid, outcome: outcomes@[at as int] },
                ));
                at += 1;
            },
        }
    }
    let ghost earlier = views(notices@);
    notices.push(Notice::TickCompleted);
    assert(views(notices@) =~= earlier.push(NoticeView::TickCompleted));
    Step { state: State::Idle, notices, action: Action::AwaitTick }
}

/// Takes one step of the loop: `state` is where the loop stood, `event` is
/// what the outside world reports. The result holds where the loop stands
/// now, what to log, and what to do next: it is `step_spec` of the two.
///
/// An event that `state` was not waiting for ends the loop.
///
/// Where the step goes through outcomes, the second clause says which of
/// them it stops at, in words that need no unfolding of `next_settled`.
pub fn step(state: State, event: Event) -> (out: Step)
    ensures
        out@ == step_spec(state@, event@),
        scanned(state@, event@) matches Some((outcomes, from, limit)) ==> finds_first(
            outcomes,
            from,
            limit,
        ),
{
    match (state, event) {
        (State::Idle, Event::Tick) => {
            let mut notices: Vec<Notice> = Vec::new();
            notices.push(Notice::TickStarted);
            assert(views(notices@) =~= seq![NoticeView::TickStarted]);
            Step { state: State::Fetching, notices, action: Action::FetchPending }
        },
        (State::Fetching, Event::Fetched(Err(error))) => {
            let mut notices: Vec<Notice> = Vec::new();
            notices.push(Notice::FetchFailed(error));
            assert(views(notices@) =~= seq![NoticeView::FetchFailed(error@)]);
            Step { state: State::Idle, notices, action: Action::AwaitTick }
        },
        (State::Fetching, Event::Fetched(Ok(pending))) => {
            if pending.len() == 0 {
                let mut notices: Vec<Notice> = Vec::new();
                notices.push(Notice::QueueEmpty);
                assert(views(notices@) =~= seq![NoticeView::QueueEmpty]);
                Step { state: State::Idle, notices, action: Action::AwaitTick }
            } else {
                let batch = collect_batch(&pending);
                let notices: Vec<Notice> = Vec::new();
                assert(views(notices@) =~= Seq::empty());
                Step { state: State::Submitting { pending }, notices, action: Action::Submit(batch) }
            }
        },
        (State::Submitting { pending }, Event::Submitted(Err(error))) => halt(
            Fatal::Submission(error),
        ),
        (State::Submitting { pending }, Event::Submitted(Ok(outcomes))) => {
            let said: Vec<Notice> = Vec::new();
            resume(pending, outcomes, 0, said)
        },
        (State::Marking { txid, pending, outcomes, next }, Event::Marked(Err(error))) => halt(
            Fatal::Mark { txid, error },
        ),
        (State::Marking { txid, pending, outcomes, next }, Event::Marked(Ok(()))) => {
            let mut said: Vec<Notice> = Vec::new();
            said.push(Notice::Broadcasted(txid));
            assert(views(said@) =~= seq![NoticeView::Broadcasted(txid)]);
            resume(pending, outcomes, next, said)
        },
        _ => halt(Fatal::OutOfTurn),
    }
}

} // verus!
