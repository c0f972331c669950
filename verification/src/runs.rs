//! Whole runs of a handler: the calls that it makes from a state on, given what
//! the host delivers to each, and what holds of every such run.

use crate::decimal::{decimal, is_digit, lemma_decode_decimal, lemma_decode_without_digits};
use crate::handlers::{payment_request, reply_capacity, successor, transition, StateView};
use crate::host::{answer, CallView};
use crate::keys::{
    key_text, KEY_ID_COUNTER, KEY_PUBLIC_RESPONSE, PREFIX_LIST_WALLET, PREFIX_TASK_COST,
    PREFIX_TASK_LIST, PREFIX_TASK_PAID,
};
use crate::payload::{id_text, ERROR_INVALID_TASK, PAID_FALSE, PAID_TRUE};
use vstd::prelude::*;

verus! {

/// The calls that a handler makes from `state` on when the host delivers
/// `replies`, one to each call in turn: up to its return, or for as long as
/// there are replies.
pub open spec fn calls(state: StateView, replies: Seq<Seq<u8>>) -> Seq<CallView>
    decreases replies.len(),
{
    if replies.len() == 0 {
        Seq::empty()
    } else {
        let (next, call) = transition(state, replies[0]);
        if call is Return {
            seq![call]
        } else {
            seq![call] + calls(next, replies.skip(1))
        }
    }
}

/// An upper bound on the number of calls, the return included, that a handler
/// in `state` still makes.
pub open spec fn calls_left(state: StateView) -> nat {
    match state {
        StateView::InvoiceTask => 6,
        StateView::InvoiceCost { .. } => 5,
        StateView::InvoiceList { .. } => 4,
        StateView::InvoiceCredential { .. } => 3,
        StateView::InvoiceRelay => 2,
        StateView::StatusTask => 3,
        StateView::StatusMarker => 2,
        StateView::IdCounter => 3,
        StateView::IdStored { .. } => 2,
        StateView::Answered => 1,
        StateView::Finished => 1,
    }
}

/// Whether `call` writes to the response slot.
pub open spec fn is_answer(call: CallView) -> bool {
    call matches CallView::Write { key, .. } && key == KEY_PUBLIC_RESPONSE@
}

/// The number of writes to the response slot among `calls`.
pub open spec fn answers_in(calls: Seq<CallView>) -> nat
    decreases calls.len(),
{
    if calls.len() == 0 {
        0
    } else if is_answer(calls[0]) {
        1 + answers_in(calls.skip(1))
    } else {
        answers_in(calls.skip(1))
    }
}

/// A handler returns exactly when its answer is written, and every other step
/// brings it nearer to that: the bound on the calls left goes down.
pub proof fn lemma_step_progress(state: StateView, reply: Seq<u8>)
    ensures
        transition(state, reply).1 is Return <==> (state is Answered || state is Finished),
        transition(state, reply).1 is Return ==> transition(state, reply).1
            == (CallView::Return { status: 0 }),
        !(state is Answered || state is Finished) ==> calls_left(transition(state, reply).0)
            < calls_left(state),
        is_answer(transition(state, reply).1) <==> (transition(state, reply).0 is Answered),
{
    assert(KEY_ID_COUNTER@.len() != KEY_PUBLIC_RESPONSE@.len());
}

/// The capacity that `call` announces for the bytes of its reply; zero for a
/// call whose reply carries none.
pub open spec fn announced_capacity(call: CallView) -> int {
    match call {
        CallView::Read { capacity, .. } => capacity as int,
        CallView::ReadSecret { capacity, .. } => capacity as int,
        CallView::Request { capacity, .. } => capacity as int,
        CallView::Write { .. } => 0,
        CallView::Return { .. } => 0,
    }
}

/// A handler takes from a reply no more bytes than the call announced: the
/// capacity that a step names in its call is the one that the next step cuts
/// the reply to.
pub proof fn lemma_capacity_as_announced(state: StateView, reply: Seq<u8>)
    ensures
        reply_capacity(transition(state, reply).0) == announced_capacity(
            transition(state, reply).1,
        ),
        reply_capacity(StateView::InvoiceTask) == 64,
        reply_capacity(StateView::StatusTask) == 64,
        reply_capacity(StateView::IdCounter) == 32,
{
}

/// The handlers write to two slots only, the response slot and the counter,
/// and read the secret partition for wallet credentials only, under the
/// identifier of a list that is present.
pub proof fn lemma_store_access(state: StateView, reply: Seq<u8>)
    ensures
        match transition(state, reply).1 {
            CallView::Write { key, .. } => key == KEY_PUBLIC_RESPONSE@ || (key == KEY_ID_COUNTER@
                && state is IdCounter),
            CallView::ReadSecret { key, .. } => key == key_text(PREFIX_LIST_WALLET@, reply)
                && state is InvoiceList && reply.len() > 0,
            _ => true,
        },
{
}

/// The wallet credential goes into the authorisation of the payment request
/// and nowhere else: with another credential in its place the handler is in the
/// same state afterwards, and its call differs in the authorisation alone.
pub proof fn lemma_credential_only_authorises(
    cost: Seq<u8>,
    list: Seq<u8>,
    credential: Seq<u8>,
    other: Seq<u8>,
)
    requires
        credential.len() > 0,
        other.len() > 0,
    ensures
        transition(StateView::InvoiceCredential { cost, list }, credential).0 == transition(
            StateView::InvoiceCredential { cost, list },
            other,
        ).0,
        transition(StateView::InvoiceCredential { cost, list }, credential).1 is Request ==> {
            &&& transition(StateView::InvoiceCredential { cost, list }, credential).1
                == payment_request(cost, credential)
            &&& transition(StateView::InvoiceCredential { cost, list }, other).1
                == payment_request(cost, other)
        },
        !(transition(StateView::InvoiceCredential { cost, list }, credential).1 is Request)
            ==> transition(StateView::InvoiceCredential { cost, list }, credential).1
            == transition(StateView::InvoiceCredential { cost, list }, other).1,
{
}

/// Whatever the host delivers, a handler that is given a reply to each of its
/// calls returns, with the status of success, after no more calls than
/// [`calls_left`] says; and on the way it writes to the response slot exactly
/// once, unless that write was already under way.
pub proof fn lemma_every_run_answers_once(state: StateView, replies: Seq<Seq<u8>>)
    requires
        replies.len() >= calls_left(state),
    ensures
        1 <= calls(state, replies).len() <= calls_left(state),
        calls(state, replies).last() == (CallView::Return { status: 0 }),
        forall|i: int|
            0 <= i < calls(state, replies).len() - 1 ==> !(#[trigger] calls(state, replies)[i]
                is Return),
        answers_in(calls(state, replies)) == if state is Answered || state is Finished {
            0nat
        } else {
            1nat
        },
    decreases replies.len(),
{
    let (next, call) = transition(state, replies[0]);
    let made = calls(state, replies);
    lemma_step_progress(state, replies[0]);
    if call is Return {
        assert(answers_in(made.skip(1)) == 0);
    } else {
        let rest = calls(next, replies.skip(1));
        lemma_every_run_answers_once(next, replies.skip(1));
        assert(made.skip(1) =~= rest);
        assert forall|i: int| 0 <= i < made.len() - 1 implies !(#[trigger] made[i] is Return) by {
            if i > 0 {
                assert(made[i] == rest[i - 1]);
            }
        }
    }
}

/// With a task, its cost, its list and the list's credential all stored, the
/// invoice handler reads them in this order, sends one payment request, whose
/// body holds the cost as stored and whose authorisation is the credential,
/// writes the answer that came back to the response slot as it is, and returns.
pub proof fn lemma_invoice_run(
    task: Seq<u8>,
    cost: Seq<u8>,
    list: Seq<u8>,
    credential: Seq<u8>,
    response: Seq<u8>,
    ack: Seq<u8>,
)
    requires
        task.len() > 0,
        cost.len() > 0,
        list.len() > 0,
        credential.len() > 0,
    ensures
        calls(StateView::InvoiceTask, seq![task, cost, list, credential, response, ack]) == seq![
            CallView::Read { key: key_text(PREFIX_TASK_COST@, task), capacity: 64 },
            CallView::Read { key: key_text(PREFIX_TASK_LIST@, task), capacity: 64 },
            CallView::ReadSecret { key: key_text(PREFIX_LIST_WALLET@, list), capacity: 96 },
            payment_request(cost, credential),
            answer(response),
            CallView::Return { status: 0 },
        ],
{
    let r0 = seq![task, cost, list, credential, response, ack];
    let r1 = r0.skip(1);
    let r2 = r1.skip(1);
    let r3 = r2.skip(1);
    let r4 = r3.skip(1);
    let r5 = r4.skip(1);
    let s1 = StateView::InvoiceCost { task };
    let s2 = StateView::InvoiceList { cost };
    let s3 = StateView::InvoiceCredential { cost, list };
    assert(calls(StateView::Answered, r5) =~= seq![CallView::Return { status: 0 }]);
    assert(calls(StateView::InvoiceRelay, r4) =~= seq![answer(response)] + calls(
        StateView::Answered,
        r5,
    ));
    assert(calls(s3, r3) =~= seq![payment_request(cost, credential)] + calls(
        StateView::InvoiceRelay,
        r4,
    ));
    assert(calls(s2, r2) =~= seq![
        CallView::ReadSecret { key: key_text(PREFIX_LIST_WALLET@, list), capacity: 96 },
    ] + calls(s3, r3));
    assert(calls(s1, r1) =~= seq![
        CallView::Read { key: key_text(PREFIX_TASK_LIST@, task), capacity: 64 },
    ] + calls(s2, r2));
    assert(calls(StateView::InvoiceTask, r0) =~= seq![
        CallView::Read { key: key_text(PREFIX_TASK_COST@, task), capacity: 64 },
    ] + calls(s1, r1));
}

/// With no task in the request slot, the invoice handler writes the fixed
/// failure answer and returns: it reads nothing more and sends no request.
pub proof fn lemma_invoice_run_without_task(ack: Seq<u8>)
    ensures
        calls(StateView::InvoiceTask, seq![Seq::<u8>::empty(), ack]) == seq![
            answer(ERROR_INVALID_TASK@),
            CallView::Return { status: 0 },
        ],
{
    let r0 = seq![Seq::<u8>::empty(), ack];
    let r1 = r0.skip(1);
    assert(calls(StateView::Answered, r1) =~= seq![CallView::Return { status: 0 }]);
    assert(calls(StateView::InvoiceTask, r0) =~= seq![answer(ERROR_INVALID_TASK@)] + calls(
        StateView::Answered,
        r1,
    ));
}

/// Where the cost of the task is absent, the invoice handler stops at once: it
/// writes the fixed failure answer, reads neither list nor credential and sends
/// no request.
pub proof fn lemma_invoice_run_without_cost(task: Seq<u8>, ack: Seq<u8>)
    requires
        task.len() > 0,
    ensures
        calls(StateView::InvoiceTask, seq![task, Seq::<u8>::empty(), ack]) == seq![
            CallView::Read { key: key_text(PREFIX_TASK_COST@, task), capacity: 64 },
            answer(ERROR_INVALID_TASK@),
            CallView::Return { status: 0 },
        ],
{
    let r0 = seq![task, Seq::<u8>::empty(), ack];
    let r1 = r0.skip(1);
    let r2 = r1.skip(1);
    let s1 = StateView::InvoiceCost { task };
    assert(calls(StateView::Answered, r2) =~= seq![CallView::Return { status: 0 }]);
    assert(calls(s1, r1) =~= seq![answer(ERROR_INVALID_TASK@)] + calls(StateView::Answered, r2));
    assert(calls(StateView::InvoiceTask, r0) =~= seq![
        CallView::Read { key: key_text(PREFIX_TASK_COST@, task), capacity: 64 },
    ] + calls(s1, r1));
}

/// Where the list of the task is absent, the invoice handler stops there: it
/// writes the fixed failure answer, does not read the secret partition and
/// sends no request.
pub proof fn lemma_invoice_run_without_list(task: Seq<u8>, cost: Seq<u8>, ack: Seq<u8>)
    requires
        task.len() > 0,
        cost.len() > 0,
    ensures
        calls(StateView::InvoiceTask, seq![task, cost, Seq::<u8>::empty(), ack]) == seq![
            CallView::Read { key: key_text(PREFIX_TASK_COST@, task), capacity: 64 },
            CallView::Read { key: key_text(PREFIX_TASK_LIST@, task), capacity: 64 },
            answer(ERROR_INVALID_TASK@),
            CallView::Return { status: 0 },
        ],
{
    let r0 = seq![task, cost, Seq::<u8>::empty(), ack];
    let r1 = r0.skip(1);
    let r2 = r1.skip(1);
    let r3 = r2.skip(1);
    let s1 = StateView::InvoiceCost { task };
    let s2 = StateView::InvoiceList { cost };
    assert(calls(StateView::Answered, r3) =~= seq![CallView::Return { status: 0 }]);
    assert(calls(s2, r2) =~= seq![answer(ERROR_INVALID_TASK@)] + calls(StateView::Answered, r3));
    assert(calls(s1, r1) =~= seq![
        CallView::Read { key: key_text(PREFIX_TASK_LIST@, task), capacity: 64 },
    ] + calls(s2, r2));
    assert(calls(StateView::InvoiceTask, r0) =~= seq![
        CallView::Read { key: key_text(PREFIX_TASK_COST@, task), capacity: 64 },
    ] + calls(s1, r1));
}

/// Where the credential of the list is absent, the invoice handler writes the
/// fixed failure answer and sends no request.
pub proof fn lemma_invoice_run_without_credential(
    task: Seq<u8>,
    cost: Seq<u8>,
    list: Seq<u8>,
    ack: Seq<u8>,
)
    requires
        task.len() > 0,
        cost.len() > 0,
        list.len() > 0,
    ensures
        calls(StateView::InvoiceTask, seq![task, cost, list, Seq::<u8>::empty(), ack]) == seq![
            CallView::Read { key: key_text(PREFIX_TASK_COST@, task), capacity: 64 },
            CallView::Read { key: key_text(PREFIX_TASK_LIST@, task), capacity: 64 },
            CallView::ReadSecret { key: key_text(PREFIX_LIST_WALLET@, list), capacity: 96 },
            answer(ERROR_INVALID_TASK@),
            CallView::Return { status: 0 },
        ],
{
    let r0 = seq![task, cost, list, Seq::<u8>::empty(), ack];
    let r1 = r0.skip(1);
    let r2 = r1.skip(1);
    let r3 = r2.skip(1);
    let r4 = r3.skip(1);
    let s1 = StateView::InvoiceCost { task };
    let s2 = StateView::InvoiceList { cost };
    let s3 = StateView::InvoiceCredential { cost, list };
    assert(calls(StateView::Answered, r4) =~= seq![CallView::Return { status: 0 }]);
    assert(calls(s3, r3) =~= seq![answer(ERROR_INVALID_TASK@)] + calls(StateView::Answered, r4));
    assert(calls(s2, r2) =~= seq![
        CallView::ReadSecret { key: key_text(PREFIX_LIST_WALLET@, list), capacity: 96 },
    ] + calls(s3, r3));
    assert(calls(s1, r1) =~= seq![
        CallView::Read { key: key_text(PREFIX_TASK_LIST@, task), capacity: 64 },
    ] + calls(s2, r2));
    assert(calls(StateView::InvoiceTask, r0) =~= seq![
        CallView::Read { key: key_text(PREFIX_TASK_COST@, task), capacity: 64 },
    ] + calls(s1, r1));
}

/// A handler that finds a value absent that it reads stops there: its next call
/// is the write of its answer, for the invoice handler the fixed failure
/// answer. A payment request is sent only with cost, list and credential all
/// present.
pub proof fn lemma_absence_stops(state: StateView, reply: Seq<u8>)
    ensures
        reply.len() == 0 && !(state is IdCounter || state is IdStored || state is Answered
            || state is Finished) ==> transition(state, reply).0 is Answered,
        reply.len() == 0 && (state is InvoiceTask || state is InvoiceCost || state is InvoiceList
            || state is InvoiceCredential) ==> transition(state, reply).1 == answer(
            ERROR_INVALID_TASK@,
        ),
        transition(state, reply).1 is Request ==> (state matches StateView::InvoiceCredential {
            cost,
            list,
        } && cost.len() > 0 && list.len() > 0 && reply.len() > 0),
{
}

/// The status handler answers that the task is paid exactly when a marker is
/// stored for it, whatever the marker holds.
pub proof fn lemma_status_run(task: Seq<u8>, marker: Seq<u8>, ack: Seq<u8>)
    requires
        task.len() > 0,
    ensures
        calls(StateView::StatusTask, seq![task, marker, ack]) == seq![
            CallView::Read { key: key_text(PREFIX_TASK_PAID@, task), capacity: 64 },
            answer(
                if marker.len() == 0 {
                    PAID_FALSE@
                } else {
                    PAID_TRUE@
                },
            ),
            CallView::Return { status: 0 },
        ],
{
    let r0 = seq![task, marker, ack];
    let r1 = r0.skip(1);
    let r2 = r1.skip(1);
    assert(calls(StateView::Answered, r2) =~= seq![CallView::Return { status: 0 }]);
    assert(calls(StateView::StatusMarker, r1) =~= seq![transition(StateView::StatusMarker, marker).1]
        + calls(StateView::Answered, r2));
    assert(calls(StateView::StatusTask, r0) =~= seq![
        CallView::Read { key: key_text(PREFIX_TASK_PAID@, task), capacity: 64 },
    ] + calls(StateView::StatusMarker, r1));
}

/// With the counter stored as the decimal text of `n`, the identifier handler
/// stores the text of the number that follows `n` (one more, and zero after the
/// largest 64-bit number), answers with the identifier of that number, and
/// returns.
pub proof fn lemma_id_run(n: u64, ack1: Seq<u8>, ack2: Seq<u8>)
    ensures
        n < u64::MAX ==> successor(n as nat) == n + 1,
        n == u64::MAX ==> successor(n as nat) == 0,
        calls(StateView::IdCounter, seq![decimal(n as nat), ack1, ack2]) == seq![
            CallView::Write {
                key: KEY_ID_COUNTER@,
                value: decimal(successor(n as nat) as nat),
            },
            answer(id_text(successor(n as nat))),
            CallView::Return { status: 0 },
        ],
{
    lemma_decode_decimal(n);
    let next = successor(n as nat);
    let r0 = seq![decimal(n as nat), ack1, ack2];
    let r1 = r0.skip(1);
    let r2 = r1.skip(1);
    assert(calls(StateView::Answered, r2) =~= seq![CallView::Return { status: 0 }]);
    assert(calls(StateView::IdStored { counter: next }, r1) =~= seq![answer(id_text(next))]
        + calls(StateView::Answered, r2));
    assert(calls(StateView::IdCounter, r0) =~= seq![
        CallView::Write { key: KEY_ID_COUNTER@, value: decimal(next as nat) },
    ] + calls(StateView::IdStored { counter: next }, r1));
}

/// With no counter stored, or one that starts with no digit, the identifier
/// handler counts from zero: it stores `1` and answers with the identifier of 1.
pub proof fn lemma_id_run_from_nothing(stored: Seq<u8>)
    requires
        stored.len() == 0 || !is_digit(stored[0]),
    ensures
        transition(StateView::IdCounter, stored) == (
            StateView::IdStored { counter: 1 },
            CallView::Write { key: KEY_ID_COUNTER@, value: decimal(1) },
        ),
        transition(StateView::IdStored { counter: 1 }, stored).1 == answer(id_text(1)),
{
    lemma_decode_without_digits(stored);
}

} // verus!
