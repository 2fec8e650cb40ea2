//! The intercept configuration: the allow/deny rule set the embedding
//! process pushes to the helper.  The rule set itself is opaque to this
//! subsystem — only its serialized form travels through it, inside a
//! control message of the framing protocol.

use vstd::prelude::*;

verus! {

/// A process id, as the intercept rules and the window enumeration
/// name one.
pub type PID = u32;

/// An intercept rule set, carried in its serialized form.
#[derive(Debug, PartialEq, Eq, Clone)]
pub struct InterceptConf {
    bytes: Vec<u8>,
}

impl View for InterceptConf {
    type V = Seq<u8>;

    closed spec fn view(&self) -> Seq<u8> {
        self.bytes@
    }
}

impl InterceptConf {
    /// Wrap an already serialized rule set.
    pub fn new(bytes: Vec<u8>) -> (c: InterceptConf)
        ensures
            c@ == bytes@,
    {
        InterceptConf { bytes }
    }

    /// Borrow the serialized rule set.
    pub fn as_bytes(&self) -> (r: &Vec<u8>)
        ensures
            r@ == self@,
    {
        &self.bytes
    }

    /// Give up the serialized rule set.
    pub fn into_bytes(self) -> (r: Vec<u8>)
        ensures
            r@ == self@,
    {
        self.bytes
    }
}

} // verus!
