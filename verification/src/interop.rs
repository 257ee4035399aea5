//! The boundary side-channels around the data channel: an error value, a
//! fixed-capacity message buffer for error and log text, and the status-code
//! convention for boundary-crossing calls.
//!
//! A message buffer holds UTF-8 text, truncated to its capacity less one
//! byte and terminated by a zero byte, as the other side of the boundary
//! expects. A boundary entry point returns `OK` on success; on failure it
//! places the error's message in the error buffer and returns `ERROR`.

use vstd::math::min;
use vstd::pervasive::VecAdditionalExecFns;
use vstd::prelude::*;
use vstd::utf8::encode_utf8;

verus! {

/// The status code of a boundary call that succeeded.
pub const OK: i32 = 0;

/// The status code of a boundary call that failed.
pub const ERROR: i32 = 1;

/// A failure crossing the boundary, carrying its message text.
#[derive(Debug)]
pub struct Error {
    message: String,
}

impl View for Error {
    type V = Seq<char>;

    closed spec fn view(&self) -> Seq<char> {
        self.message@
    }
}

impl Error {
    /// Wraps a message as an error value.
    pub fn new(message: String) -> (r: Self)
        ensures
            r@ == message@,
    {
        Error { message }
    }

    /// The message text.
    pub fn message(&self) -> (r: &String)
        ensures
            r@ == self@,
    {
        &self.message
    }
}

/// The contents of a message buffer of capacity `buf.len()` after writing
/// `msg`: the message truncated to capacity less one byte, a zero
/// terminator after it, and the remaining bytes untouched.
pub open spec fn stored_message(buf: Seq<u8>, msg: Seq<u8>) -> Seq<u8>
    recommends
        buf.len() >= 1,
{
    let n = min(msg.len() as int, buf.len() - 1);
    buf.update_subrange_with(0, msg.take(n)).update(n, 0u8)
}

/// A fixed-capacity byte buffer for one null-terminated UTF-8 message:
/// the shape of the error and log side-channels.
pub struct MessageBuffer {
    buf: Vec<u8>,
}

impl View for MessageBuffer {
    type V = Seq<u8>;

    closed spec fn view(&self) -> Seq<u8> {
        self.buf@
    }
}

impl MessageBuffer {
    /// A message of at least one byte can always be terminated.
    pub open spec fn wf(&self) -> bool {
        self@.len() >= 1
    }

    /// Allocates a zeroed buffer of `capacity` bytes, fixed for its
    /// lifetime.
    pub fn with_capacity(capacity: usize) -> (r: Self)
        requires
            capacity >= 1,
        ensures
            r@.len() == capacity,
            forall|i: int| 0 <= i < capacity ==> r@[i] == 0u8,
            r.wf(),
    {
        let mut buf: Vec<u8> = Vec::new();
        let mut i: usize = 0;
        while i < capacity
            invariant
                0 <= i <= capacity,
                buf@.len() == i,
                forall|j: int| 0 <= j < i ==> buf@[j] == 0u8,
            decreases capacity - i,
        {
            buf.push(0);
            i = i + 1;
        }
        MessageBuffer { buf }
    }

    /// The buffer contents, for the boundary layer to expose.
    pub fn contents(&self) -> (r: &Vec<u8>)
        ensures
            r@ == self@,
    {
        &self.buf
    }

    /// Writes `msg` into the buffer: its UTF-8 bytes, truncated to the
    /// capacity less one byte, followed by a zero terminator. Bytes past
    /// the terminator keep their previous contents.
    pub fn write_message(&mut self, msg: &str)
        requires
            old(self).wf(),
        ensures
            final(self).wf(),
            final(self)@.len() == old(self)@.len(),
            final(self)@ == stored_message(old(self)@, encode_utf8(msg@)),
    {
        let bytes = msg.as_bytes();
        let cap = self.buf.len();
        let n = if bytes.len() < cap - 1 {
            bytes.len()
        } else {
            cap - 1
        };
        let ghost orig = self.buf@;
        let mut i: usize = 0;
        while i < n
            invariant
                0 <= i <= n,
                n < self.buf@.len(),
                n <= bytes@.len(),
                orig == old(self)@,
                self.buf@.len() == orig.len(),
                forall|j: int| 0 <= j < i ==> self.buf@[j] == bytes@[j],
                forall|j: int| i <= j < orig.len() ==> self.buf@[j] == orig[j],
            decreases n - i,
        {
            self.buf.set(i, bytes[i]);
            i = i + 1;
        }
        self.buf.set(n, 0);
        proof {
            assert(self.buf@ =~= stored_message(orig, encode_utf8(msg@)));
        }
    }
}

/// Runs a boundary entry point's body and turns its outcome into the
/// status-code convention: `OK` when it returns success and the error
/// buffer is untouched; otherwise the error's message stands in the error
/// buffer, truncated and null-terminated, and the status is `ERROR`.
pub fn handle<F: FnOnce() -> Result<(), Error>>(errors: &mut MessageBuffer, func: F) -> (r: i32)
    requires
        call_requires(func, ()),
        old(errors).wf(),
    ensures
        final(errors).wf(),
        r == OK || r == ERROR,
        exists|ret: Result<(), Error>|
            {
                &&& #[trigger] call_ensures(func, (), ret)
                &&& (ret is Ok ==> r == OK && *final(errors) == *old(errors))
                &&& (ret is Err ==> r == ERROR && final(errors)@ == stored_message(
                    old(errors)@,
                    encode_utf8(ret->Err_0@),
                ))
            },
{
    let res = func();
    match res {
        Ok(()) => OK,
        Err(err) => {
            errors.write_message(err.message().as_str());
            ERROR
        },
    }
}

} // verus!
