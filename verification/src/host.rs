//! The boundary to the host: byte strings in fixed buffers, what a read across
//! the boundary delivered, and the calls that the module asks the host to make.

use crate::bytes::{span, write_bytes};
use crate::decimal::{decimal, lemma_digits_len_u64, write_u64};
use crate::keys::{
    key_text, write_key_buf, KEY_ID_COUNTER, KEY_PUBLIC_REQUEST, KEY_PUBLIC_RESPONSE,
};
use vstd::prelude::*;

verus! {

/// The capacity announced for a task identifier, a cost or a list identifier.
pub const ID_CAPACITY: usize = 64;

/// The capacity announced for the stored counter.
pub const NUMBER_CAPACITY: usize = 32;

/// The capacity announced for a wallet credential.
pub const SECRET_CAPACITY: usize = 96;

/// The capacity announced for the answer to an outbound request.
pub const RESPONSE_CAPACITY: usize = 4096;

/// The status that every entry point returns to the host.
pub const STATUS_OK: i32 = 0;

/// A byte string held in a buffer of `N` bytes. A string of no bytes stands for
/// a value that is absent.
#[derive(Clone, Copy, Debug)]
pub struct Buffer<const N: usize> {
    data: [u8; N],
    len: usize,
}

impl<const N: usize> View for Buffer<N> {
    type V = Seq<u8>;

    closed spec fn view(&self) -> Seq<u8> {
        self.data@.take(self.len as int)
    }
}

/// What a read across the boundary delivered into `out`, of which `capacity`
/// bytes were announced, when the host returned the length `returned`: nothing
/// for a length of zero or less, else the first `returned` bytes, cut at the
/// capacity and at the end of `out`.
pub open spec fn delivered(out: Seq<u8>, returned: int, capacity: int) -> Seq<u8> {
    span(span(out, capacity), returned)
}

/// The part of `out` that a read delivered, where `capacity` bytes were
/// announced and the host returned the length `returned`.
pub fn delivered_part<'a>(out: &'a [u8], returned: i32, capacity: usize) -> (part: &'a [u8])
    ensures
        part@ == delivered(out@, returned as int, capacity as int),
{
    let mut present: usize = if returned > 0 {
        returned as usize
    } else {
        0
    };
    if present > capacity {
        present = capacity;
    }
    if present > out.len() {
        present = out.len();
    }
    let part = &out[0..present];
    assert(part@ =~= delivered(out@, returned as int, capacity as int));
    part
}

impl<const N: usize> Buffer<N> {
    #[verifier::type_invariant]
    spec fn fits(self) -> bool {
        self.len <= N
    }

    /// The string of no bytes.
    pub fn empty() -> (held: Self)
        ensures
            held@ == Seq::<u8>::empty(),
    {
        Buffer { data: [0u8; N], len: 0 }
    }

    /// Holds `bytes`, cut at `N` bytes.
    pub fn from_slice(bytes: &[u8]) -> (held: Self)
        ensures
            held@ == span(bytes@, N as int),
    {
        let mut data = [0u8; N];
        let len = write_bytes(&mut data, bytes);
        Buffer { data, len }
    }

    /// Holds what a read delivered into `out`, of which `capacity` bytes were
    /// announced, when the host returned the length `returned`; cut at `N`
    /// bytes.
    pub fn receive(out: &[u8], returned: i32, capacity: usize) -> (held: Self)
        ensures
            held@ == span(delivered(out@, returned as int, capacity as int), N as int),
            capacity <= N ==> held@ == delivered(out@, returned as int, capacity as int),
            held@.len() <= N,
    {
        Self::from_slice(delivered_part(out, returned, capacity))
    }

    /// The number of bytes held.
    pub fn len(&self) -> (n: usize)
        ensures
            n == self@.len(),
            n <= N,
    {
        proof {
            use_type_invariant(self);
        }
        self.len
    }

    /// Whether no byte is held: the value is absent.
    pub fn is_empty(&self) -> (none: bool)
        ensures
            none == (self@.len() == 0),
    {
        proof {
            use_type_invariant(self);
        }
        self.len == 0
    }

    /// The bytes held.
    pub fn as_slice(&self) -> (bytes: &[u8])
        ensures
            bytes@ == self@,
    {
        proof {
            use_type_invariant(self);
        }
        let all: &[u8] = &self.data;
        let bytes = &all[0..self.len];
        bytes
    }

    /// The whole buffer and the number of its bytes that are held.
    pub(crate) fn parts(&self) -> (parts: (&[u8; N], usize))
        ensures
            parts.1 <= N,
            parts.0@.take(parts.1 as int) == self@,
    {
        proof {
            use_type_invariant(self);
        }
        (&self.data, self.len)
    }

    /// Holds the first `len` bytes of `data`.
    pub(crate) fn from_parts(data: [u8; N], len: usize) -> (held: Self)
        requires
            len <= N,
        ensures
            held@ == data@.take(len as int),
    {
        Buffer { data, len }
    }
}

/// The value of a write: a short text that the module composed and the call
/// holds, or bytes that lie elsewhere and are written whole.
#[derive(Clone, Copy, Debug)]
pub enum Value<'a> {
    Held(Buffer<64>),
    Lent(&'a [u8]),
}

impl<'a> View for Value<'a> {
    type V = Seq<u8>;

    open spec fn view(&self) -> Seq<u8> {
        match *self {
            Value::Held(text) => text@,
            Value::Lent(bytes) => bytes@,
        }
    }
}

impl<'a> Value<'a> {
    /// The bytes to write.
    pub fn as_slice(&self) -> (bytes: &[u8])
        ensures
            bytes@ == self@,
    {
        match self {
            Value::Held(text) => text.as_slice(),
            Value::Lent(bytes) => bytes,
        }
    }
}

/// A call that the module asks the host to make, or its return to the host.
#[derive(Clone, Copy, Debug)]
pub enum Call<'a> {
    /// Read the value stored under `key` in the public partition into a buffer
    /// of `capacity` bytes.
    Read { key: Buffer<128>, capacity: usize },
    /// Read the value stored under `key` in the secret partition into a buffer
    /// of `capacity` bytes.
    ReadSecret { key: Buffer<128>, capacity: usize },
    /// Store `value` under `key`, in place of what was stored there.
    Write { key: Buffer<128>, value: Value<'a> },
    /// Send one outbound request and read its answer into a buffer of
    /// `capacity` bytes.
    Request {
        method: [u8; 4],
        path: [u8; 16],
        body: Buffer<256>,
        authorization: Buffer<96>,
        capacity: usize,
    },
    /// Return `status` to the host: the entry point is done.
    Return { status: i32 },
}

/// A call as the byte strings and numbers that the host sees.
pub enum CallView {
    Read { key: Seq<u8>, capacity: nat },
    ReadSecret { key: Seq<u8>, capacity: nat },
    Write { key: Seq<u8>, value: Seq<u8> },
    Request {
        method: Seq<u8>,
        path: Seq<u8>,
        body: Seq<u8>,
        authorization: Seq<u8>,
        capacity: nat,
    },
    Return { status: int },
}

impl<'a> View for Call<'a> {
    type V = CallView;

    open spec fn view(&self) -> CallView {
        match *self {
            Call::Read { key, capacity } => CallView::Read { key: key@, capacity: capacity as nat },
            Call::ReadSecret { key, capacity } => CallView::ReadSecret {
                key: key@,
                capacity: capacity as nat,
            },
            Call::Write { key, value } => CallView::Write { key: key@, value: value@ },
            Call::Request { method, path, body, authorization, capacity } => CallView::Request {
                method: method@,
                path: path@,
                body: body@,
                authorization: authorization@,
                capacity: capacity as nat,
            },
            Call::Return { status } => CallView::Return { status: status as int },
        }
    }
}

/// The call that writes `value` to the response slot.
pub open spec fn answer(value: Seq<u8>) -> CallView {
    CallView::Write { key: KEY_PUBLIC_RESPONSE@, value }
}

/// The key made of `prefix` and the identifier `suffix`, cut at 128 bytes, the
/// capacity of a key buffer; a prefix of at most 64 bytes leaves the key whole.
pub fn prefixed_key(prefix: &[u8], suffix: &Buffer<64>) -> (key: Buffer<128>)
    ensures
        key@ == span(key_text(prefix@, suffix@), 128),
        prefix@.len() <= 64 ==> key@ == key_text(prefix@, suffix@),
{
    let (id, id_len) = suffix.parts();
    let mut key = [0u8; 128];
    let key_len = write_key_buf(&mut key, prefix, id, id_len);
    Buffer::from_parts(key, key_len)
}

/// The read of the request slot: the task identifier, of at most 64 bytes.
pub fn read_public_request() -> (call: Call<'static>)
    ensures
        call@ == (CallView::Read { key: KEY_PUBLIC_REQUEST@, capacity: 64 }),
{
    let key = Buffer::from_slice(&KEY_PUBLIC_REQUEST);
    Call::Read { key, capacity: ID_CAPACITY }
}

/// The read, from the public partition, of the value stored under `prefix`
/// followed by the identifier `suffix`, into `out_len` bytes. The key is cut at
/// 128 bytes, which a prefix of at most 64 bytes never reaches.
pub fn read_key_bytes(prefix: &[u8], suffix: &Buffer<64>, out_len: usize) -> (call: Call<
    'static,
>)
    ensures
        call@ == (CallView::Read {
            key: span(key_text(prefix@, suffix@), 128),
            capacity: out_len as nat,
        }),
        prefix@.len() <= 64 ==> call@ == (CallView::Read {
            key: key_text(prefix@, suffix@),
            capacity: out_len as nat,
        }),
{
    Call::Read { key: prefixed_key(prefix, suffix), capacity: out_len }
}

/// The read, from the secret partition, of the value stored under `prefix`
/// followed by the identifier `suffix`, into `out_len` bytes. The key is cut at
/// 128 bytes, which a prefix of at most 64 bytes never reaches.
pub fn read_secret_bytes(prefix: &[u8], suffix: &Buffer<64>, out_len: usize) -> (call: Call<
    'static,
>)
    ensures
        call@ == (CallView::ReadSecret {
            key: span(key_text(prefix@, suffix@), 128),
            capacity: out_len as nat,
        }),
        prefix@.len() <= 64 ==> call@ == (CallView::ReadSecret {
            key: key_text(prefix@, suffix@),
            capacity: out_len as nat,
        }),
{
    Call::ReadSecret { key: prefixed_key(prefix, suffix), capacity: out_len }
}

/// The write of `value`, all of it, to the response slot.
pub fn write_response<'a>(value: &'a [u8]) -> (call: Call<'a>)
    ensures
        call@ == answer(value@),
{
    Call::Write { key: Buffer::from_slice(&KEY_PUBLIC_RESPONSE), value: Value::Lent(value) }
}

/// The write to the response slot of a text that the call holds itself.
pub fn write_held_response(text: Buffer<64>) -> (call: Call<'static>)
    ensures
        call@ == answer(text@),
{
    Call::Write { key: Buffer::from_slice(&KEY_PUBLIC_RESPONSE), value: Value::Held(text) }
}

/// The write of `counter`, as decimal text, to the counter's slot.
pub fn write_counter(counter: u64) -> (call: Call<'static>)
    ensures
        call@ == (CallView::Write { key: KEY_ID_COUNTER@, value: decimal(counter as nat) }),
{
    let mut buf = [0u8; 32];
    let len = write_u64(&mut buf, counter);
    proof {
        lemma_digits_len_u64(counter);
    }
    let text: &[u8] = &buf;
    let value = Buffer::<64>::from_slice(&text[0..len]);
    assert(value@ =~= decimal(counter as nat));
    Call::Write { key: Buffer::from_slice(&KEY_ID_COUNTER), value: Value::Held(value) }
}

} // verus!
