//! A buffer of bytes on their way from a receive to a send.

use vstd::prelude::*;
use crate::bytes::tail;

verus! {

/// Bytes received from the network and not yet sent on.
pub struct NetworkBuffer {
    bytes: Vec<u8>,
}

impl NetworkBuffer {
    /// The bytes held.
    pub closed spec fn view(&self) -> Seq<u8> {
        self.bytes@
    }

    /// A buffer holding a copy of `bytes`.
    pub fn new(bytes: &[u8]) -> (b: NetworkBuffer)
        ensures
            b@ == bytes@,
    {
        let copy = tail(bytes, 0);
        assert(bytes@.skip(0) == bytes@);
        NetworkBuffer { bytes: copy }
    }

    /// The number of bytes held.
    pub fn len(&self) -> (n: usize)
        ensures
            n == self@.len(),
    {
        self.bytes.len()
    }

    /// The bytes held.
    pub fn as_slice(&self) -> (s: &[u8])
        ensures
            s@ == self@,
    {
        self.bytes.as_slice()
    }
}

impl Clone for NetworkBuffer {
    fn clone(&self) -> (b: NetworkBuffer)
        ensures
            b@ == self@,
    {
        NetworkBuffer::new(self.bytes.as_slice())
    }
}

} // verus!
