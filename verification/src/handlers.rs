//! The entry points that the host invokes, as a machine that it drives.
//!
//! An entry point starts a handler and names the first call that the host is to
//! make. [`resume`] takes what that call delivered and names the next one, until
//! the handler returns its status.

use crate::bytes::{span, zero_padded};
use crate::decimal::{decimal, decode, lemma_digits_len_u64, parse_u64};
use crate::host::{
    answer, delivered, delivered_part, read_key_bytes, read_public_request, read_secret_bytes,
    write_counter, write_held_response, write_response, Buffer, Call, CallView, ID_CAPACITY,
    NUMBER_CAPACITY, RESPONSE_CAPACITY, SECRET_CAPACITY, STATUS_OK,
};
use crate::keys::{
    key_text, KEY_ID_COUNTER, KEY_PUBLIC_REQUEST, PREFIX_LIST_WALLET, PREFIX_TASK_COST,
    PREFIX_TASK_LIST, PREFIX_TASK_PAID,
};
use crate::payload::{
    body_text, build_body, build_id_response, id_text, ERROR_INVALID_TASK, HTTP_METHOD, HTTP_PATH,
    PAID_FALSE, PAID_TRUE,
};
use vstd::prelude::*;

verus! {

/// Where a handler stands: which reply it waits for, and what it has read.
#[derive(Clone, Copy, Debug)]
pub enum State {
    /// An invoice was asked for; the task identifier is being read.
    InvoiceTask,
    /// The cost of `task` is being read.
    InvoiceCost { task: Buffer<64> },
    /// The list of the task is being read; its cost is `cost`.
    InvoiceList { cost: Buffer<64> },
    /// The wallet credential of `list` is being read.
    InvoiceCredential { cost: Buffer<64>, list: Buffer<64> },
    /// The payment request is under way.
    InvoiceRelay,
    /// A task's status was asked for; the task identifier is being read.
    StatusTask,
    /// The paid marker of the task is being read.
    StatusMarker,
    /// An identifier was asked for; the counter is being read.
    IdCounter,
    /// The counter, now `counter`, is being stored.
    IdStored { counter: u64 },
    /// The answer is being written to the response slot.
    Answered,
    /// The handler has returned.
    Finished,
}

/// A state as the byte strings and numbers that it holds.
pub enum StateView {
    InvoiceTask,
    InvoiceCost { task: Seq<u8> },
    InvoiceList { cost: Seq<u8> },
    InvoiceCredential { cost: Seq<u8>, list: Seq<u8> },
    InvoiceRelay,
    StatusTask,
    StatusMarker,
    IdCounter,
    IdStored { counter: u64 },
    Answered,
    Finished,
}

impl View for State {
    type V = StateView;

    open spec fn view(&self) -> StateView {
        match *self {
            State::InvoiceTask => StateView::InvoiceTask,
            State::InvoiceCost { task } => StateView::InvoiceCost { task: task@ },
            State::InvoiceList { cost } => StateView::InvoiceList { cost: cost@ },
            State::InvoiceCredential { cost, list } => StateView::InvoiceCredential {
                cost: cost@,
                list: list@,
            },
            State::InvoiceRelay => StateView::InvoiceRelay,
            State::StatusTask => StateView::StatusTask,
            State::StatusMarker => StateView::StatusMarker,
            State::IdCounter => StateView::IdCounter,
            State::IdStored { counter } => StateView::IdStored { counter },
            State::Answered => StateView::Answered,
            State::Finished => StateView::Finished,
        }
    }
}

/// The counter that follows `n`: one more, and zero after the largest.
pub open spec fn successor(n: nat) -> u64 {
    if n >= u64::MAX {
        0
    } else {
        (n + 1) as u64
    }
}

/// The capacity that was announced for the read whose reply `state` waits for;
/// zero where the reply carries no bytes.
pub open spec fn reply_capacity(state: StateView) -> int {
    match state {
        StateView::InvoiceTask => 64,
        StateView::InvoiceCost { .. } => 64,
        StateView::InvoiceList { .. } => 64,
        StateView::InvoiceCredential { .. } => 96,
        StateView::InvoiceRelay => 4096,
        StateView::StatusTask => 64,
        StateView::StatusMarker => 64,
        StateView::IdCounter => 32,
        StateView::IdStored { .. } => 0,
        StateView::Answered => 0,
        StateView::Finished => 0,
    }
}

/// The payment request for a stored `cost`, authorised by `credential`.
pub open spec fn payment_request(cost: Seq<u8>, credential: Seq<u8>) -> CallView {
    CallView::Request {
        method: HTTP_METHOD@,
        path: HTTP_PATH@,
        body: body_text(cost),
        authorization: credential,
        capacity: 4096,
    }
}

/// The step of a handler: the state that follows `state` once the pending call
/// delivered `reply` (no bytes: absent), and the call that the host is to make
/// next. A handler that finds a value absent that it needs reads nothing more:
/// it writes its fixed answer at once.
pub open spec fn transition(state: StateView, reply: Seq<u8>) -> (StateView, CallView) {
    match state {
        StateView::InvoiceTask => if reply.len() == 0 {
            (StateView::Answered, answer(ERROR_INVALID_TASK@))
        } else {
            (
                StateView::InvoiceCost { task: reply },
                CallView::Read { key: key_text(PREFIX_TASK_COST@, reply), capacity: 64 },
            )
        },
        StateView::InvoiceCost { task } => if reply.len() == 0 {
            (StateView::Answered, answer(ERROR_INVALID_TASK@))
        } else {
            (
                StateView::InvoiceList { cost: reply },
                CallView::Read { key: key_text(PREFIX_TASK_LIST@, task), capacity: 64 },
            )
        },
        StateView::InvoiceList { cost } => if reply.len() == 0 {
            (StateView::Answered, answer(ERROR_INVALID_TASK@))
        } else {
            (
                StateView::InvoiceCredential { cost, list: reply },
                CallView::ReadSecret { key: key_text(PREFIX_LIST_WALLET@, reply), capacity: 96 },
            )
        },
        StateView::InvoiceCredential { cost, list } => if cost.len() == 0 || list.len() == 0
            || reply.len() == 0 {
            (StateView::Answered, answer(ERROR_INVALID_TASK@))
        } else {
            (StateView::InvoiceRelay, payment_request(cost, reply))
        },
        StateView::InvoiceRelay => (StateView::Answered, answer(reply)),
        StateView::StatusTask => if reply.len() == 0 {
            (StateView::Answered, answer(PAID_FALSE@))
        } else {
            (
                StateView::StatusMarker,
                CallView::Read { key: key_text(PREFIX_TASK_PAID@, reply), capacity: 64 },
            )
        },
        StateView::StatusMarker => if reply.len() == 0 {
            (StateView::Answered, answer(PAID_FALSE@))
        } else {
            (StateView::Answered, answer(PAID_TRUE@))
        },
        StateView::IdCounter => {
            let counter = successor(decode(reply));
            (
                StateView::IdStored { counter },
                CallView::Write { key: KEY_ID_COUNTER@, value: decimal(counter as nat) },
            )
        },
        StateView::IdStored { counter } => (StateView::Answered, answer(id_text(counter))),
        StateView::Answered => (StateView::Finished, CallView::Return { status: 0 }),
        StateView::Finished => (StateView::Finished, CallView::Return { status: 0 }),
    }
}

/// Starts the handler that creates an invoice for the task named in the
/// request slot. The request identifier plays no part.
pub fn public_create_invoice(_request_id: i32) -> (start: (State, Call<'static>))
    ensures
        start.0@ == StateView::InvoiceTask,
        start.1@ == (CallView::Read { key: KEY_PUBLIC_REQUEST@, capacity: 64 }),
{
    (State::InvoiceTask, read_public_request())
}

/// Starts the handler that reports whether the task named in the request slot
/// is paid. The request identifier plays no part.
pub fn task_status(_request_id: i32) -> (start: (State, Call<'static>))
    ensures
        start.0@ == StateView::StatusTask,
        start.1@ == (CallView::Read { key: KEY_PUBLIC_REQUEST@, capacity: 64 }),
{
    (State::StatusTask, read_public_request())
}

/// Starts the handler that hands out a fresh identifier. The request
/// identifier plays no part.
pub fn generate_id(_request_id: i32) -> (start: (State, Call<'static>))
    ensures
        start.0@ == StateView::IdCounter,
        start.1@ == (CallView::Read { key: KEY_ID_COUNTER@, capacity: 32 }),
{
    let none = Buffer::<64>::empty();
    let call = read_key_bytes(&KEY_ID_COUNTER, &none, NUMBER_CAPACITY);
    (State::IdCounter, call)
}

/// Does nothing and reports success.
pub fn noop() -> (status: i32)
    ensures
        status == 0,
{
    STATUS_OK
}

/// The write of a fixed answer to the response slot.
fn fixed_answer<const K: usize>(text: &'static [u8; K]) -> (call: Call<'static>)
    ensures
        call@ == answer(text@),
{
    write_response(text)
}

/// Takes a handler one step on: `out` is the buffer that the pending call
/// filled and `returned` the length that the host returned for it. Gives the
/// state that follows and the call that the host is to make next.
///
/// A returned length of zero or less means that the value is absent. A length
/// beyond the announced capacity, or beyond `out`, is cut to it. For a call that
/// reads nothing (a write, a return) both arguments are ignored. The answer of
/// an outbound request is written on from `out` itself, which the call that is
/// returned borrows.
pub fn resume<'a>(state: State, out: &'a [u8], returned: i32) -> (next: (State, Call<'a>))
    ensures
        next.0@ == transition(
            state@,
            delivered(out@, returned as int, reply_capacity(state@)),
        ).0,
        next.1@ == transition(
            state@,
            delivered(out@, returned as int, reply_capacity(state@)),
        ).1,
{
    match state {
        State::InvoiceTask => {
            let task = Buffer::<64>::receive(out, returned, ID_CAPACITY);
            if task.is_empty() {
                (State::Answered, fixed_answer(&ERROR_INVALID_TASK))
            } else {
                let call = read_key_bytes(&PREFIX_TASK_COST, &task, ID_CAPACITY);
                (State::InvoiceCost { task }, call)
            }
        },
        State::InvoiceCost { task } => {
            let cost = Buffer::<64>::receive(out, returned, ID_CAPACITY);
            if cost.is_empty() {
                (State::Answered, fixed_answer(&ERROR_INVALID_TASK))
            } else {
                let call = read_key_bytes(&PREFIX_TASK_LIST, &task, ID_CAPACITY);
                (State::InvoiceList { cost }, call)
            }
        },
        State::InvoiceList { cost } => {
            let list = Buffer::<64>::receive(out, returned, ID_CAPACITY);
            if list.is_empty() {
                (State::Answered, fixed_answer(&ERROR_INVALID_TASK))
            } else {
                let call = read_secret_bytes(&PREFIX_LIST_WALLET, &list, SECRET_CAPACITY);
                (State::InvoiceCredential { cost, list }, call)
            }
        },
        State::InvoiceCredential { cost, list } => {
            let credential = Buffer::<96>::receive(out, returned, SECRET_CAPACITY);
            if cost.is_empty() || list.is_empty() || credential.is_empty() {
                (State::Answered, fixed_answer(&ERROR_INVALID_TASK))
            } else {
                let (amount, amount_len) = cost.parts();
                assert(span(amount@, amount_len as int) =~= cost@);
                let (body, body_len) = build_body(*amount, amount_len as i32);
                assert(zero_padded(body_text(cost@), 256).take(body_len as int) =~= body_text(
                    cost@,
                ));
                let call = Call::Request {
                    method: HTTP_METHOD,
                    path: HTTP_PATH,
                    body: Buffer::from_parts(body, body_len as usize),
                    authorization: credential,
                    capacity: RESPONSE_CAPACITY,
                };
                (State::InvoiceRelay, call)
            }
        },
        State::InvoiceRelay => {
            let response = delivered_part(out, returned, RESPONSE_CAPACITY);
            (State::Answered, write_response(response))
        },
        State::StatusTask => {
            let task = Buffer::<64>::receive(out, returned, ID_CAPACITY);
            if task.is_empty() {
                (State::Answered, fixed_answer(&PAID_FALSE))
            } else {
                let call = read_key_bytes(&PREFIX_TASK_PAID, &task, ID_CAPACITY);
                (State::StatusMarker, call)
            }
        },
        State::StatusMarker => {
            let marker = Buffer::<64>::receive(out, returned, ID_CAPACITY);
            if marker.is_empty() {
                (State::Answered, fixed_answer(&PAID_FALSE))
            } else {
                (State::Answered, fixed_answer(&PAID_TRUE))
            }
        },
        State::IdCounter => {
            let stored = Buffer::<64>::receive(out, returned, NUMBER_CAPACITY);
            let (text, text_len) = stored.parts();
            let counter = parse_u64(*text, text_len as i32).wrapping_add(1);
            (State::IdStored { counter }, write_counter(counter))
        },
        State::IdStored { counter } => {
            let (text, text_len) = build_id_response(counter);
            proof {
                lemma_digits_len_u64(counter);
            }
            let answer = Buffer::from_parts(text, text_len as usize);
            assert(answer@ =~= id_text(counter));
            (State::Answered, write_held_response(answer))
        },
        State::Answered => (State::Finished, Call::Return { status: STATUS_OK }),
        State::Finished => (State::Finished, Call::Return { status: STATUS_OK }),
    }
}

} // verus!
