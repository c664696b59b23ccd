use std::ops::{AddAssign, Mul};
use vstd::bytes::{lemma_auto_spec_u64_to_from_le_bytes, spec_u64_to_le_bytes, u64_to_le_bytes};
use vstd::prelude::*;

verus! {

/// A 64-bit word that goes into a payload as eight bytes, least significant
/// byte first.
#[derive(Debug)]
pub struct P64(pub u64);

impl P64 {
    /// The eight bytes this word is written as.
    pub open spec fn bytes(self) -> Seq<u8> {
        spec_u64_to_le_bytes(self.0)
    }
}

/// `count` copies of `block`, one after the other.
pub open spec fn repeated(block: Seq<u8>, count: nat) -> Seq<u8> {
    Seq::new(count * block.len(), |i: int| block[i % (block.len() as int)])
}

/// `bytes` cut to `size` if it is longer, filled up with `fill` if it is shorter.
pub open spec fn justified(bytes: Seq<u8>, size: nat, fill: u8) -> Seq<u8> {
    Seq::new(size, |i: int| if i < bytes.len() { bytes[i] } else { fill })
}

/// A word always encodes to exactly eight bytes.
pub proof fn lemma_p64_len(word: P64)
    ensures
        word.bytes().len() == 8,
{
    lemma_auto_spec_u64_to_from_le_bytes();
}

impl Mul<usize> for P64 {
    type Output = Vec<u8>;

    /// The word's bytes, `rhs` times over.
    fn mul(self, rhs: usize) -> (out: Vec<u8>)
        ensures
            out@ == repeated(self.bytes(), rhs as nat),
            out@.len() == 8 * rhs,
    {
        let block = u64_to_le_bytes(self.0);
        proof {
            lemma_p64_len(self);
        }
        let mut out: Vec<u8> = Vec::new();
        let mut done: usize = 0;
        while done < rhs
            invariant
                done <= rhs,
                8 * rhs <= usize::MAX,
                block@ == self.bytes(),
                block@.len() == 8,
                out@ == repeated(block@, done as nat),
            decreases rhs - done,
        {
            out.extend_from_slice(block.as_slice());
            done = done + 1;
        }
        out
    }
}

impl vstd::std_specs::ops::MulSpecImpl<usize> for P64 {
    /// The product is a fresh vector, which no specification value can name:
    /// what it holds is stated on `mul` itself.
    open spec fn obeys_mul_spec() -> bool {
        false
    }

    open spec fn mul_req(self, rhs: usize) -> bool {
        8 * rhs <= usize::MAX
    }

    open spec fn mul_spec(self, rhs: usize) -> Vec<u8> {
        arbitrary()
    }
}

/// A byte buffer that is built up piece by piece.
#[derive(Debug, Clone)]
pub struct Payload {
    data: Vec<u8>,
}

impl View for Payload {
    type V = Seq<u8>;

    closed spec fn view(&self) -> Seq<u8> {
        self.data@
    }
}

impl Default for Payload {
    /// The empty payload.
    fn default() -> (payload: Payload)
        ensures
            payload@ == Seq::<u8>::empty(),
    {
        Payload { data: Vec::new() }
    }
}

impl AddAssign<P64> for Payload {
    /// Appends the eight bytes of `rhs`.
    fn add_assign(&mut self, rhs: P64)
        ensures
            final(self)@ == old(self)@ + rhs.bytes(),
    {
        let bytes = u64_to_le_bytes(rhs.0);
        self.data.extend_from_slice(bytes.as_slice());
    }
}

impl AddAssign<&[u8]> for Payload {
    /// Appends `rhs`.
    fn add_assign(&mut self, rhs: &[u8])
        ensures
            final(self)@ == old(self)@ + rhs@,
    {
        self.data.extend_from_slice(rhs);
    }
}

impl AddAssign<Vec<u8>> for Payload {
    /// Appends `rhs`.
    fn add_assign(&mut self, rhs: Vec<u8>)
        ensures
            final(self)@ == old(self)@ + rhs@,
    {
        self.data.extend_from_slice(rhs.as_slice());
    }
}

impl Payload {
    /// Brings the payload to exactly `size` bytes: a longer one loses its
    /// tail, a shorter one is filled up with `value`.
    pub fn ljust(&mut self, size: usize, value: u8)
        ensures
            final(self)@ == justified(old(self)@, size as nat, value),
    {
        self.data.resize(size, value);
        assert(self.data@ =~= justified(old(self).data@, size as nat, value));
    }

    /// The bytes collected so far.
    pub fn as_bytes(&self) -> (bytes: &[u8])
        ensures
            bytes@ == self@,
    {
        self.data.as_slice()
    }
}

} // verus!
