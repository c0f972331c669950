//! The marshalling layer of a guest module that runs inside a host runtime and
//! reaches the outside only through calls that the host makes for it: reads and
//! writes of a key-value store, and one kind of outbound request.
//!
//! Values cross that boundary as byte strings in buffers of fixed size. The
//! modules, leaves first:
//!
//! - [`bytes`]: the bounded copy that every write goes through;
//! - [`decimal`]: decimal text for 64-bit counters, written and read back;
//! - [`keys`]: the well-known store keys, and keys built of a prefix and an
//!   identifier;
//! - [`payload`]: the body of the payment request and the fixed answers;
//! - [`host`]: held byte strings, what a read delivered, and the calls that the
//!   host is asked to make;
//! - [`handlers`]: the entry points, each a machine that the host drives one
//!   call at a time;
//! - [`runs`]: what holds of every run of a handler.

pub mod bytes;
pub mod decimal;
pub mod handlers;
pub mod host;
pub mod keys;
pub mod payload;
pub mod runs;
