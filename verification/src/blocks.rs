//! Concrete buffer types in the two shapes the generator accepts — a single
//! unnamed storage field and a single named storage field — each proving the
//! full buffer contract.

use vstd::prelude::*;
use crate::buffer::{AlignedBuffer, zero_bytes, splat_bytes};
use crate::layout::is_power_of_two;

verus! {

broadcast use vstd::array::group_array_axioms;

/// A 32-byte buffer in the unnamed-field shape.
pub struct Block32([u8; 32]);

impl AlignedBuffer<32, 1> for Block32 {
    closed spec fn contents(&self) -> Seq<u8> {
        self.0@
    }

    proof fn lemma_layout() {
        assert(is_power_of_two(1));
    }

    proof fn lemma_contents_len(&self) {
    }

    fn new() -> (r: Self) {
        let r = Self::from_bytes([0u8; 32]);
        proof {
            assert(r.contents() =~= zero_bytes(32));
        }
        r
    }

    fn splat(byte: u8) -> (r: Self) {
        let r = Self::from_bytes([byte; 32]);
        proof {
            assert(r.contents() =~= splat_bytes(32, byte));
        }
        r
    }

    fn from_bytes(bytes: [u8; 32]) -> (r: Self) {
        Block32(bytes)
    }

    fn as_slice(&self) -> (r: &[u8; 32]) {
        &self.0
    }

    fn as_mut_slice(&mut self) -> (r: &mut [u8; 32]) {
        &mut self.0
    }
}

/// An 8-byte buffer in the named-field shape.
pub struct Frame8 {
    data: [u8; 8],
}

impl AlignedBuffer<8, 1> for Frame8 {
    closed spec fn contents(&self) -> Seq<u8> {
        self.data@
    }

    proof fn lemma_layout() {
        assert(is_power_of_two(1));
    }

    proof fn lemma_contents_len(&self) {
    }

    fn new() -> (r: Self) {
        let r = Self::from_bytes([0u8; 8]);
        proof {
            assert(r.contents() =~= zero_bytes(8));
        }
        r
    }

    fn splat(byte: u8) -> (r: Self) {
        let r = Self::from_bytes([byte; 8]);
        proof {
            assert(r.contents() =~= splat_bytes(8, byte));
        }
        r
    }

    fn from_bytes(bytes: [u8; 8]) -> (r: Self) {
        Frame8 { data: bytes }
    }

    fn as_slice(&self) -> (r: &[u8; 8]) {
        &self.data
    }

    fn as_mut_slice(&mut self) -> (r: &mut [u8; 8]) {
        &mut self.data
    }
}

} // verus!
