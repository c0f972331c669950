//! Store keys: the well-known slots, and keys made of a fixed prefix and an
//! identifier.

use crate::bytes::{append_bytes, copied_len, lemma_overwrite_front_in_two_steps, overwrite_front};
use vstd::prelude::*;

verus! {

/// The slot that holds the request: `public_request`.
pub const KEY_PUBLIC_REQUEST: [u8; 14] = [
    'p' as u8, 'u' as u8, 'b' as u8, 'l' as u8, 'i' as u8, 'c' as u8, '_' as u8, 'r' as u8,
    'e' as u8, 'q' as u8, 'u' as u8, 'e' as u8, 's' as u8, 't' as u8,
];

/// The slot that every handler answers in: `public_response`.
pub const KEY_PUBLIC_RESPONSE: [u8; 15] = [
    'p' as u8, 'u' as u8, 'b' as u8, 'l' as u8, 'i' as u8, 'c' as u8, '_' as u8, 'r' as u8,
    'e' as u8, 's' as u8, 'p' as u8, 'o' as u8, 'n' as u8, 's' as u8, 'e' as u8,
];

/// The slot of the identifier counter: `id_counter`.
pub const KEY_ID_COUNTER: [u8; 10] = [
    'i' as u8, 'd' as u8, '_' as u8, 'c' as u8, 'o' as u8, 'u' as u8, 'n' as u8, 't' as u8,
    'e' as u8, 'r' as u8,
];

/// Prefix of the key under which a task's cost is stored: `task_cost:`.
pub const PREFIX_TASK_COST: [u8; 10] = [
    't' as u8, 'a' as u8, 's' as u8, 'k' as u8, '_' as u8, 'c' as u8, 'o' as u8, 's' as u8,
    't' as u8, ':' as u8,
];

/// Prefix of the key under which a task's list is stored: `task_list:`.
pub const PREFIX_TASK_LIST: [u8; 10] = [
    't' as u8, 'a' as u8, 's' as u8, 'k' as u8, '_' as u8, 'l' as u8, 'i' as u8, 's' as u8,
    't' as u8, ':' as u8,
];

/// Prefix of the key under which a task's paid marker is stored: `task_paid:`.
pub const PREFIX_TASK_PAID: [u8; 10] = [
    't' as u8, 'a' as u8, 's' as u8, 'k' as u8, '_' as u8, 'p' as u8, 'a' as u8, 'i' as u8,
    'd' as u8, ':' as u8,
];

/// Prefix of the secret key under which a list's wallet credential is stored:
/// `list_wallet_inkey:`.
pub const PREFIX_LIST_WALLET: [u8; 18] = [
    'l' as u8, 'i' as u8, 's' as u8, 't' as u8, '_' as u8, 'w' as u8, 'a' as u8, 'l' as u8,
    'l' as u8, 'e' as u8, 't' as u8, '_' as u8, 'i' as u8, 'n' as u8, 'k' as u8, 'e' as u8,
    'y' as u8, ':' as u8,
];

/// The key made of `prefix` and the identifier `suffix`: the one directly
/// followed by the other.
pub open spec fn key_text(prefix: Seq<u8>, suffix: Seq<u8>) -> Seq<u8> {
    prefix + suffix
}

/// A key that is cut to fit its buffer loses bytes of the identifier before it
/// loses any of the prefix: the buffer starts with as much of the prefix as it
/// has room for, and with the whole key where that fits.
pub proof fn lemma_key_keeps_prefix(dest: Seq<u8>, prefix: Seq<u8>, suffix: Seq<u8>)
    ensures
        ({
            let kept = copied_len(prefix.len() as int, dest.len() as int);
            overwrite_front(dest, key_text(prefix, suffix)).take(kept) == prefix.take(kept)
        }),
        prefix.len() <= dest.len() ==> overwrite_front(dest, key_text(prefix, suffix)).take(
            prefix.len() as int,
        ) == prefix,
        key_text(prefix, suffix).len() <= dest.len() ==> overwrite_front(
            dest,
            key_text(prefix, suffix),
        ).take(key_text(prefix, suffix).len() as int) == key_text(prefix, suffix),
        overwrite_front(dest, key_text(prefix, suffix)).len() == dest.len(),
{
}

/// Builds a key at the front of `out`: `prefix`, then the first `suffix_len`
/// bytes of `suffix`. Returns the number of bytes written. A key longer than
/// `out` is cut at the end of `out`, so bytes of the suffix are lost before any
/// of the prefix.
pub fn write_key_buf(out: &mut [u8], prefix: &[u8], suffix: &[u8; 64], suffix_len: usize) -> (written:
    usize)
    requires
        suffix_len <= 64,
    ensures
        written == copied_len(
            key_text(prefix@, suffix@.take(suffix_len as int)).len() as int,
            old(out)@.len() as int,
        ),
        final(out)@ == overwrite_front(
            old(out)@,
            key_text(prefix@, suffix@.take(suffix_len as int)),
        ),
{
    let mut len: usize = 0;
    len = append_bytes(out, len, prefix);
    if suffix_len > 0 {
        let all: &[u8] = suffix;
        len = append_bytes(out, len, &all[0..suffix_len]);
    }
    proof {
        lemma_overwrite_front_in_two_steps(old(out)@, prefix@, suffix@.take(suffix_len as int));
    }
    len
}

} // verus!
