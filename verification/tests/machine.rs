use spend_broadcaster::error::{Fatal, NodeError, StoreError};
use spend_broadcaster::machine::{step, Action, Event, Notice, State, Step};
use spend_broadcaster::outcome::TxOutcome;
use spend_broadcaster::tx::{collect_batch, SpendTransaction, TxId};

fn txid(byte: u8) -> TxId {
    TxId { bytes: [byte; 32] }
}

fn tx(byte: u8) -> SpendTransaction {
    SpendTransaction { txid: txid(byte), raw: vec![byte, 0xaa] }
}

fn store_error(detail: &str) -> StoreError {
    StoreError { detail: String::from(detail) }
}

fn node_error(detail: &str) -> NodeError {
    NodeError { detail: String::from(detail) }
}

fn halted() -> Step {
    Step { state: State::Stopped, notices: vec![], action: Action::Halt(Fatal::OutOfTurn) }
}

#[test]
fn tick_asks_for_the_pending_set() {
    let out = step(State::Idle, Event::Tick);
    assert_eq!(
        out,
        Step { state: State::Fetching, notices: vec![Notice::TickStarted], action: Action::FetchPending }
    );
}

#[test]
fn fetched_transactions_are_submitted_as_one_batch() {
    let out = step(State::Fetching, Event::Fetched(Ok(vec![tx(1), tx(2), tx(3)])));
    assert_eq!(
        out,
        Step {
            state: State::Submitting { pending: vec![tx(1), tx(2), tx(3)] },
            notices: vec![],
            action: Action::Submit(vec![vec![1, 0xaa], vec![2, 0xaa], vec![3, 0xaa]]),
        }
    );
}

#[test]
fn collect_batch_copies_raw_bytes_in_order() {
    let pending = vec![
        SpendTransaction { txid: txid(1), raw: vec![] },
        SpendTransaction { txid: txid(2), raw: vec![7, 8, 9] },
    ];
    assert_eq!(collect_batch(&pending), vec![vec![], vec![7, 8, 9]]);
    assert_eq!(collect_batch(&vec![]), Vec::<Vec<u8>>::new());
}

#[test]
fn all_accepted_are_marked_one_after_the_other() {
    let pending = vec![tx(1), tx(2)];
    let outcomes = vec![TxOutcome::Accepted, TxOutcome::Accepted];
    let out = step(
        State::Submitting { pending: pending.clone() },
        Event::Submitted(Ok(outcomes.clone())),
    );
    assert_eq!(
        out,
        Step {
            state: State::Marking {
                txid: txid(1),
                pending: pending.clone(),
                outcomes: outcomes.clone(),
                next: 1,
            },
            notices: vec![],
            action: Action::MarkBroadcasted(txid(1)),
        }
    );
    let out = step(out.state, Event::Marked(Ok(())));
    assert_eq!(
        out,
        Step {
            state: State::Marking {
                txid: txid(2),
                pending: pending.clone(),
                outcomes: outcomes.clone(),
                next: 2,
            },
            notices: vec![Notice::Broadcasted(txid(1))],
            action: Action::MarkBroadcasted(txid(2)),
        }
    );
    let out = step(out.state, Event::Marked(Ok(())));
    assert_eq!(
        out,
        Step {
            state: State::Idle,
            notices: vec![Notice::Broadcasted(txid(2)), Notice::TickCompleted],
            action: Action::AwaitTick,
        }
    );
}

#[test]
fn unsettled_positions_are_passed_over_with_a_notice() {
    let pending = vec![tx(1), tx(2), tx(3), tx(4)];
    let outcomes = vec![
        TxOutcome::Rejected { code: -25 },
        TxOutcome::Failed,
        TxOutcome::Rejected { code: -27 },
        TxOutcome::Rejected { code: -26 },
    ];
    let out = step(
        State::Submitting { pending: pending.clone() },
        Event::Submitted(Ok(outcomes.clone())),
    );
    assert_eq!(
        out,
        Step {
            state: State::Marking {
                txid: txid(3),
                pending: pending.clone(),
                outcomes: outcomes.clone(),
                next: 3,
            },
            notices: vec![
                Notice::LeftPending { txid: txid(1), outcome: TxOutcome::Rejected { code: -25 } },
                Notice::LeftPending { txid: txid(2), outcome: TxOutcome::Failed },
            ],
            action: Action::MarkBroadcasted(txid(3)),
        }
    );
    let out = step(out.state, Event::Marked(Ok(())));
    assert_eq!(
        out,
        Step {
            state: State::Idle,
            notices: vec![
                Notice::Broadcasted(txid(3)),
                Notice::LeftPending { txid: txid(4), outcome: TxOutcome::Rejected { code: -26 } },
                Notice::TickCompleted,
            ],
            action: Action::AwaitTick,
        }
    );
}

#[test]
fn nothing_settled_ends_the_attempt_at_once() {
    let out = step(
        State::Submitting { pending: vec![tx(1), tx(2)] },
        Event::Submitted(Ok(vec![TxOutcome::Rejected { code: -25 }, TxOutcome::Failed])),
    );
    assert_eq!(
        out,
        Step {
            state: State::Idle,
            notices: vec![
                Notice::LeftPending { txid: txid(1), outcome: TxOutcome::Rejected { code: -25 } },
                Notice::LeftPending { txid: txid(2), outcome: TxOutcome::Failed },
                Notice::TickCompleted,
            ],
            action: Action::AwaitTick,
        }
    );
}

#[test]
fn fewer_outcomes_than_transactions_leave_the_rest_untouched() {
    let out = step(
        State::Submitting { pending: vec![tx(1), tx(2), tx(3)] },
        Event::Submitted(Ok(vec![TxOutcome::Rejected { code: -1 }])),
    );
    assert_eq!(
        out,
        Step {
            state: State::Idle,
            notices: vec![
                Notice::LeftPending { txid: txid(1), outcome: TxOutcome::Rejected { code: -1 } },
                Notice::TickCompleted,
            ],
            action: Action::AwaitTick,
        }
    );
}

#[test]
fn more_outcomes_than_transactions_are_ignored() {
    let pending = vec![tx(1)];
    let outcomes = vec![TxOutcome::Accepted, TxOutcome::Accepted, TxOutcome::Accepted];
    let out = step(
        State::Submitting { pending: pending.clone() },
        Event::Submitted(Ok(outcomes.clone())),
    );
    assert_eq!(out.action, Action::MarkBroadcasted(txid(1)));
    let out = step(out.state, Event::Marked(Ok(())));
    assert_eq!(
        out,
        Step {
            state: State::Idle,
            notices: vec![Notice::Broadcasted(txid(1)), Notice::TickCompleted],
            action: Action::AwaitTick,
        }
    );
}

#[test]
fn failed_submission_is_fatal() {
    let out = step(
        State::Submitting { pending: vec![tx(1), tx(2)] },
        Event::Submitted(Err(node_error("connection refused"))),
    );
    assert_eq!(
        out,
        Step {
            state: State::Stopped,
            notices: vec![],
            action: Action::Halt(Fatal::Submission(node_error("connection refused"))),
        }
    );
}

#[test]
fn failed_mark_is_fatal() {
    let state = State::Marking {
        txid: txid(1),
        pending: vec![tx(1), tx(2)],
        outcomes: vec![TxOutcome::Accepted, TxOutcome::Accepted],
        next: 1,
    };
    let out = step(state, Event::Marked(Err(store_error("connection lost"))));
    assert_eq!(
        out,
        Step {
            state: State::Stopped,
            notices: vec![],
            action: Action::Halt(Fatal::Mark { txid: txid(1), error: store_error("connection lost") }),
        }
    );
}

#[test]
fn stopped_loop_answers_every_event_with_halt() {
    assert_eq!(step(State::Stopped, Event::Tick), halted());
    assert_eq!(step(State::Stopped, Event::Fetched(Ok(vec![tx(1)]))), halted());
    assert_eq!(step(State::Stopped, Event::Fetched(Err(store_error("x")))), halted());
    assert_eq!(step(State::Stopped, Event::Submitted(Ok(vec![TxOutcome::Accepted]))), halted());
    assert_eq!(step(State::Stopped, Event::Submitted(Err(node_error("x")))), halted());
    assert_eq!(step(State::Stopped, Event::Marked(Ok(()))), halted());
    assert_eq!(step(State::Stopped, Event::Marked(Err(store_error("x")))), halted());
}

#[test]
fn event_out_of_turn_stops_the_loop() {
    assert_eq!(step(State::Idle, Event::Marked(Ok(()))), halted());
    assert_eq!(step(State::Idle, Event::Fetched(Ok(vec![tx(1)]))), halted());
    assert_eq!(step(State::Idle, Event::Submitted(Ok(vec![TxOutcome::Accepted]))), halted());
    assert_eq!(step(State::Fetching, Event::Tick), halted());
    assert_eq!(step(State::Fetching, Event::Marked(Ok(()))), halted());
    assert_eq!(step(State::Submitting { pending: vec![tx(1)] }, Event::Tick), halted());
    assert_eq!(
        step(State::Submitting { pending: vec![tx(1)] }, Event::Fetched(Ok(vec![tx(1)]))),
        halted()
    );
    assert_eq!(step(State::Submitting { pending: vec![tx(1)] }, Event::Marked(Ok(()))), halted());
    let marking = State::Marking {
        txid: txid(1),
        pending: vec![tx(1)],
        outcomes: vec![TxOutcome::Accepted],
        next: 1,
    };
    assert_eq!(step(marking.clone(), Event::Tick), halted());
    assert_eq!(step(marking, Event::Submitted(Ok(vec![TxOutcome::Accepted]))), halted());
}

#[test]
fn marking_state_past_the_end_completes_the_attempt() {
    let state = State::Marking {
        txid: txid(9),
        pending: vec![tx(1)],
        outcomes: vec![TxOutcome::Accepted],
        next: 5,
    };
    let out = step(state, Event::Marked(Ok(())));
    assert_eq!(
        out,
        Step {
            state: State::Idle,
            notices: vec![Notice::Broadcasted(txid(9)), Notice::TickCompleted],
            action: Action::AwaitTick,
        }
    );
}
