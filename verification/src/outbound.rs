//! The buffer between the callers that enqueue frames and the worker that
//! writes them to the socket.

use crate::encoder::{encode, wire_form, ClientOp};
use crate::error::{Error, ErrorKind};
use vstd::prelude::*;

verus! {

/// The bytes that wait to be written, oldest first.
pub struct Outbound {
    pub buffer: Vec<u8>,
}

impl View for Outbound {
    type V = Seq<u8>;

    open spec fn view(&self) -> Seq<u8> {
        self.buffer@
    }
}

impl Outbound {
    /// An empty buffer.
    pub fn new() -> (o: Outbound)
        ensures
            o@ == Seq::<u8>::empty(),
    {
        Outbound { buffer: Vec::new() }
    }

    /// Appends the frame of `op` behind everything that waits already. The
    /// frame goes in whole or, where it cannot be encoded, not at all.
    pub fn enqueue(&mut self, op: ClientOp<'_>) -> (r: Result<(), Error>)
        ensures
            match wire_form(op@) {
                Some(frame) => r is Ok && final(self)@ == old(self)@ + frame,
                None => r is Err && r.unwrap_err().kind == ErrorKind::InvalidInput && final(self)@
                    == old(self)@,
            },
    {
        encode(&mut self.buffer, op)
    }

    /// Number of bytes that wait.
    pub fn len(&self) -> (n: usize)
        ensures
            n == self@.len(),
    {
        self.buffer.len()
    }

    /// Tells whether more bytes wait than the soft cap `cap` allows, in
    /// which case callers should hold back.
    pub fn over(&self, cap: usize) -> (b: bool)
        ensures
            b == (self@.len() > cap),
    {
        self.buffer.len() > cap
    }

    /// Swaps the buffer out: returns everything that waits and leaves the
    /// buffer empty.
    pub fn take(&mut self) -> (taken: Vec<u8>)
        ensures
            taken@ == old(self)@,
            final(self)@ == Seq::<u8>::empty(),
    {
        let mut taken: Vec<u8> = Vec::new();
        taken.append(&mut self.buffer);
        assert(taken@ =~= old(self)@);
        taken
    }

    /// Puts back what a write left over: of the bytes `taken` earlier only
    /// the first `written` went out, so the others return to the front of
    /// the buffer, before everything enqueued since.
    pub fn restore(&mut self, taken: Vec<u8>, written: usize)
        requires
            written <= taken.len(),
        ensures
            final(self)@ == taken@.skip(written as int) + old(self)@,
    {
        let mut sent = taken;
        let mut unwritten = sent.split_off(written);
        assert(unwritten@ =~= taken@.skip(written as int));
        unwritten.append(&mut self.buffer);
        self.buffer = unwritten;
    }
}

} // verus!
