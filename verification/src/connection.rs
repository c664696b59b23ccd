use crate::util::{Payload, P64};
use vstd::prelude::*;
use vstd::slice::slice_to_vec;

verus! {

/// A value that can be sent: it says which bytes go over the connection.
pub trait ToVec {
    /// The bytes that stand for the value.
    spec fn encoding(&self) -> Seq<u8>;

    /// The bytes that stand for the value, in a fresh vector.
    fn to_vec(&self) -> (bytes: Vec<u8>)
        ensures
            bytes@ == self.encoding(),
    ;
}

impl ToVec for P64 {
    /// A word goes out as its eight bytes, least significant first.
    open spec fn encoding(&self) -> Seq<u8> {
        self.bytes()
    }

    fn to_vec(&self) -> (bytes: Vec<u8>) {
        vstd::bytes::u64_to_le_bytes(self.0)
    }
}

impl ToVec for Payload {
    /// A payload goes out as it stands.
    open spec fn encoding(&self) -> Seq<u8> {
        self@
    }

    fn to_vec(&self) -> (bytes: Vec<u8>) {
        slice_to_vec(self.as_bytes())
    }
}

impl ToVec for Vec<u8> {
    open spec fn encoding(&self) -> Seq<u8> {
        self@
    }

    fn to_vec(&self) -> (bytes: Vec<u8>) {
        slice_to_vec(self.as_slice())
    }
}

impl<const N: usize> ToVec for [u8; N] {
    open spec fn encoding(&self) -> Seq<u8> {
        self@
    }

    fn to_vec(&self) -> (bytes: Vec<u8>) {
        slice_to_vec(self.as_slice())
    }
}

impl ToVec for [u8] {
    open spec fn encoding(&self) -> Seq<u8> {
        self@
    }

    fn to_vec(&self) -> (bytes: Vec<u8>) {
        slice_to_vec(self)
    }
}

/// `bytes` ends with `pattern`.
pub open spec fn ends_with(bytes: Seq<u8>, pattern: Seq<u8>) -> bool {
    pattern.len() <= bytes.len() && bytes.subrange(bytes.len() - pattern.len(), bytes.len() as int)
        == pattern
}

/// Whether `bytes` ends with `pattern`.
pub fn has_suffix(bytes: &[u8], pattern: &[u8]) -> (found: bool)
    ensures
        found == ends_with(bytes@, pattern@),
{
    if pattern.len() > bytes.len() {
        return false;
    }
    let shift = bytes.len() - pattern.len();
    let ghost tail = bytes@.subrange(shift as int, bytes@.len() as int);
    let mut at: usize = 0;
    while at < pattern.len()
        invariant
            at <= pattern.len(),
            shift + pattern.len() == bytes.len(),
            tail == bytes@.subrange(shift as int, bytes@.len() as int),
            forall|before: int| 0 <= before < at ==> tail[before] == pattern@[before],
        decreases pattern.len() - at,
    {
        if bytes[shift + at] != pattern[at] {
            return false;
        }
        at = at + 1;
    }
    assert(tail =~= pattern@);
    true
}

/// What has been received while waiting for a pattern.
///
/// The bytes come from the connection one at a time. The byte that makes
/// the received bytes end with the pattern is the last one wanted.
pub struct Receiver {
    pattern: Vec<u8>,
    received: Vec<u8>,
}

/// A receiver as a mathematical value.
pub struct ReceiverView {
    /// The bytes that end the wait.
    pub pattern: Seq<u8>,
    /// The bytes received so far.
    pub received: Seq<u8>,
}

impl ReceiverView {
    /// The receiver after one more byte came in.
    pub open spec fn accept(self, byte: u8) -> ReceiverView {
        ReceiverView { received: self.received.push(byte), ..self }
    }

    /// Nothing more is wanted: the received bytes end with the pattern.
    pub open spec fn complete(self) -> bool {
        ends_with(self.received, self.pattern)
    }
}

impl View for Receiver {
    type V = ReceiverView;

    closed spec fn view(&self) -> ReceiverView {
        ReceiverView { pattern: self.pattern@, received: self.received@ }
    }
}

impl Receiver {
    /// A receiver that waits for `pattern` and has received nothing yet.
    pub fn new(pattern: &[u8]) -> (receiver: Receiver)
        ensures
            receiver@.pattern == pattern@,
            receiver@.received == Seq::<u8>::empty(),
    {
        Receiver { pattern: slice_to_vec(pattern), received: Vec::new() }
    }

    /// Takes the next byte from the connection. The answer says whether the
    /// wait is over; if it is not, another byte is to be read.
    pub fn accept(&mut self, byte: u8) -> (complete: bool)
        ensures
            final(self)@ == old(self)@.accept(byte),
            complete == final(self)@.complete(),
    {
        self.received.push(byte);
        has_suffix(self.received.as_slice(), self.pattern.as_slice())
    }

    /// The bytes received so far.
    pub fn received(&self) -> (bytes: &[u8])
        ensures
            bytes@ == self@.received,
    {
        self.received.as_slice()
    }

    /// Hands over the received bytes.
    pub fn into_bytes(self) -> (bytes: Vec<u8>)
        ensures
            bytes@ == self@.received,
    {
        self.received
    }
}

} // verus!
