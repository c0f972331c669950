//! Payloads: the body of the outbound payment request and the fixed answers
//! that the handlers leave in the response slot.

use crate::bytes::{append_bytes, lemma_overwrite_front_in_two_steps, span, zero_padded};
use crate::decimal::{decimal, lemma_digits_len_u64, write_u64};
use vstd::prelude::*;

verus! {

/// Method of the outbound payment request: `POST`.
pub const HTTP_METHOD: [u8; 4] = [
    'P' as u8, 'O' as u8, 'S' as u8, 'T' as u8,
];

/// Path of the outbound payment request: `/api/v1/payments`.
pub const HTTP_PATH: [u8; 16] = [
    '/' as u8, 'a' as u8, 'p' as u8, 'i' as u8, '/' as u8, 'v' as u8, '1' as u8, '/' as u8,
    'p' as u8, 'a' as u8, 'y' as u8, 'm' as u8, 'e' as u8, 'n' as u8, 't' as u8, 's' as u8,
];

/// What stands before the amount in a payment request's body.
pub const BODY_PREFIX: [u8; 22] = [
    '{' as u8, '"' as u8, 'o' as u8, 'u' as u8, 't' as u8, '"' as u8, ':' as u8, 'f' as u8,
    'a' as u8, 'l' as u8, 's' as u8, 'e' as u8, ',' as u8, '"' as u8, 'a' as u8, 'm' as u8,
    'o' as u8, 'u' as u8, 'n' as u8, 't' as u8, '"' as u8, ':' as u8,
];

/// What stands behind the amount in a payment request's body.
pub const BODY_MID: [u8; 61] = [
    ',' as u8, '"' as u8, 'u' as u8, 'n' as u8, 'i' as u8, 't' as u8, '"' as u8, ':' as u8,
    '"' as u8, 's' as u8, 'a' as u8, 't' as u8, '"' as u8, ',' as u8, '"' as u8, 'm' as u8,
    'e' as u8, 'm' as u8, 'o' as u8, '"' as u8, ':' as u8, '"' as u8, 'P' as u8, 'a' as u8,
    'i' as u8, 'd' as u8, ' ' as u8, 't' as u8, 'a' as u8, 's' as u8, 'k' as u8, '"' as u8,
    ',' as u8, '"' as u8, 'e' as u8, 'x' as u8, 't' as u8, 'r' as u8, 'a' as u8, '"' as u8,
    ':' as u8, '{' as u8, '"' as u8, 't' as u8, 'a' as u8, 'g' as u8, '"' as u8, ':' as u8,
    '"' as u8, 'p' as u8, 'a' as u8, 'i' as u8, 'd' as u8, 't' as u8, 'a' as u8, 's' as u8,
    'k' as u8, 's' as u8, '"' as u8, '}' as u8, '}' as u8,
];

/// The answer to a request that names no usable task: `{"error":"Invalid task"}`.
pub const ERROR_INVALID_TASK: [u8; 24] = [
    '{' as u8, '"' as u8, 'e' as u8, 'r' as u8, 'r' as u8, 'o' as u8, 'r' as u8, '"' as u8,
    ':' as u8, '"' as u8, 'I' as u8, 'n' as u8, 'v' as u8, 'a' as u8, 'l' as u8, 'i' as u8,
    'd' as u8, ' ' as u8, 't' as u8, 'a' as u8, 's' as u8, 'k' as u8, '"' as u8, '}' as u8,
];

/// The answer for a task that is paid: `{"paid":true}`.
pub const PAID_TRUE: [u8; 13] = [
    '{' as u8, '"' as u8, 'p' as u8, 'a' as u8, 'i' as u8, 'd' as u8, '"' as u8, ':' as u8,
    't' as u8, 'r' as u8, 'u' as u8, 'e' as u8, '}' as u8,
];

/// The answer for a task that is not paid: `{"paid":false}`.
pub const PAID_FALSE: [u8; 14] = [
    '{' as u8, '"' as u8, 'p' as u8, 'a' as u8, 'i' as u8, 'd' as u8, '"' as u8, ':' as u8,
    'f' as u8, 'a' as u8, 'l' as u8, 's' as u8, 'e' as u8, '}' as u8,
];

/// What stands before the number in an identifier answer.
pub const ID_PREFIX: [u8; 10] = [
    '{' as u8, '"' as u8, 'i' as u8, 'd' as u8, '"' as u8, ':' as u8, '"' as u8, 'p' as u8,
    't' as u8, '_' as u8,
];

/// What stands behind the number in an identifier answer.
pub const ID_SUFFIX: [u8; 2] = [
    '"' as u8, '}' as u8,
];

/// The body of the payment request for a stored cost: the cost's bytes as they
/// are, between the two fixed parts.
pub open spec fn body_text(cost: Seq<u8>) -> Seq<u8> {
    BODY_PREFIX@ + cost + BODY_MID@
}

/// The answer that carries a fresh identifier: `{"id":"pt_<counter>"}`, the
/// counter in decimal.
pub open spec fn id_text(counter: u64) -> Seq<u8> {
    ID_PREFIX@ + decimal(counter as nat) + ID_SUFFIX@
}

/// Builds the body of the payment request for the cost held in the first
/// `cost_len` bytes of `cost` (none where `cost_len` is zero or less). Returns
/// the body in a zero-filled buffer, and its length.
pub fn build_body(cost: [u8; 64], cost_len: i32) -> (body: ([u8; 256], i32))
    requires
        cost_len <= 64,
    ensures
        body.0@ == zero_padded(body_text(span(cost@, cost_len as int)), 256),
        body.1 == body_text(span(cost@, cost_len as int)).len(),
{
    let mut body = [0u8; 256];
    let ghost blank = body@;
    let amount_len: usize = if cost_len > 0 {
        cost_len as usize
    } else {
        0
    };
    let all: &[u8] = &cost;
    let amount = &all[0..amount_len];
    let mut len: usize = 0;
    len = append_bytes(&mut body, len, &BODY_PREFIX);
    len = append_bytes(&mut body, len, amount);
    len = append_bytes(&mut body, len, &BODY_MID);
    proof {
        lemma_overwrite_front_in_two_steps(blank, BODY_PREFIX@, amount@);
        lemma_overwrite_front_in_two_steps(blank, BODY_PREFIX@ + amount@, BODY_MID@);
    }
    (body, len as i32)
}

/// Builds the answer that carries the identifier numbered `counter`. Returns it
/// in a zero-filled buffer, and its length.
pub fn build_id_response(counter: u64) -> (answer: ([u8; 64], i32))
    ensures
        answer.0@ == zero_padded(id_text(counter), 64),
        answer.1 == id_text(counter).len(),
{
    let mut buf = [0u8; 64];
    let ghost blank = buf@;
    let mut len: usize = 0;
    len = append_bytes(&mut buf, len, &ID_PREFIX);
    let out: &mut [u8] = &mut buf;
    let (_, tail) = out.split_at_mut(len);
    let written = write_u64(tail, counter);
    len = len + written;
    len = append_bytes(&mut buf, len, &ID_SUFFIX);
    proof {
        lemma_digits_len_u64(counter);
        lemma_overwrite_front_in_two_steps(blank, ID_PREFIX@, decimal(counter as nat));
        lemma_overwrite_front_in_two_steps(
            blank,
            ID_PREFIX@ + decimal(counter as nat),
            ID_SUFFIX@,
        );
    }
    (buf, len as i32)
}

} // verus!
