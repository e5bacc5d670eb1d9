//! The buffer contract: the operation set that every fixed-size,
//! fixed-alignment byte buffer provides, with derived fill operations
//! built only on the required primitives.

use vstd::prelude::*;
use crate::layout::layout_ok;

verus! {

broadcast use vstd::array::group_array_axioms;

/// The bytes of a freshly zeroed buffer of `n` bytes.
pub open spec fn zero_bytes(n: nat) -> Seq<u8> {
    Seq::new(n, |i: int| 0u8)
}

/// The bytes of an `n`-byte buffer with every byte set to `byte`.
pub open spec fn splat_bytes(n: nat, byte: u8) -> Seq<u8> {
    Seq::new(n, |i: int| byte)
}

/// The contents after copying `s` over the first `s.len()` bytes of `c`.
pub open spec fn fill_from_start_bytes(c: Seq<u8>, s: Seq<u8>) -> Seq<u8>
    recommends
        s.len() <= c.len(),
{
    s + c.skip(s.len() as int)
}

/// The contents after copying `s` over the last `s.len()` bytes of `c`,
/// in order: the slice itself is not reversed, only the written region moves.
pub open spec fn fill_from_end_bytes(c: Seq<u8>, s: Seq<u8>) -> Seq<u8>
    recommends
        s.len() <= c.len(),
{
    c.take(c.len() - s.len()) + s
}

/// A buffer of `SIZE` bytes whose type is declared aligned to `ALIGN` bytes.
///
/// A conforming type stores exactly `SIZE` bytes inline and proves, through
/// `lemma_layout`, that the declared pair obeys the layout rules (`SIZE`
/// nonzero, `ALIGN` a power of two dividing `SIZE`). That the type's real
/// memory layout matches the declared pair is attested at runtime by
/// `crate::layout::assert_layout`.
pub trait AlignedBuffer<const SIZE: usize, const ALIGN: usize>: Sized {
    /// The buffer's bytes: the mathematical model of an instance.
    spec fn contents(&self) -> Seq<u8>;

    /// The declared layout obeys the layout rules; whether the type's real
    /// memory layout matches the declared pair is attested separately by
    /// `crate::layout::assert_layout`.
    proof fn lemma_layout()
        ensures
            layout_ok(SIZE as nat, ALIGN as nat),
    ;

    /// Every instance holds exactly `SIZE` bytes.
    proof fn lemma_contents_len(&self)
        ensures
            self.contents().len() == SIZE as nat,
    ;

    /// A buffer with every byte set to zero.
    fn new() -> (r: Self)
        ensures
            r.contents() == zero_bytes(SIZE as nat),
    ;

    /// A buffer with every byte set to `byte`.
    fn splat(byte: u8) -> (r: Self)
        ensures
            r.contents() == splat_bytes(SIZE as nat, byte),
    ;

    /// A buffer whose storage equals `bytes` exactly.
    fn from_bytes(bytes: [u8; SIZE]) -> (r: Self)
        ensures
            r.contents() == bytes@,
    ;

    /// A read-only window over the `SIZE` bytes, valid while the instance
    /// is borrowed; this replaces a raw read-only address.
    fn as_slice(&self) -> (r: &[u8; SIZE])
        ensures
            r@ == self.contents(),
    ;

    /// A read-write window over the `SIZE` bytes, valid while the caller
    /// holds exclusive access; this replaces a raw mutable address. Writes
    /// through the window become the buffer's new contents.
    fn as_mut_slice(&mut self) -> (r: &mut [u8; SIZE])
        ensures
            r@ == old(self).contents(),
            final(self).contents() == final(r)@,
    ;

    /// Copies `slice` into the first `slice.len()` bytes of storage,
    /// leaving the remaining bytes untouched.
    fn fill_from_start(&mut self, slice: &[u8])
        requires
            slice@.len() <= SIZE,
        ensures
            final(self).contents() == fill_from_start_bytes(old(self).contents(), slice@),
    {
        proof {
            self.lemma_contents_len();
        }
        let mut bytes: [u8; SIZE] = *self.as_slice();
        let n: usize = slice.len();
        let mut i: usize = 0;
        while i < n
            invariant
                i <= n,
                n == slice@.len(),
                n <= SIZE,
                bytes@.len() == SIZE as nat,
                old(self).contents().len() == SIZE as nat,
                forall|j: int| 0 <= j < i ==> bytes@[j] == slice@[j],
                forall|j: int| i <= j < SIZE ==> bytes@[j] == old(self).contents()[j],
            decreases n - i,
        {
            bytes[i] = slice[i];
            i += 1;
        }
        proof {
            assert(bytes@ =~= fill_from_start_bytes(old(self).contents(), slice@));
        }
        *self = Self::from_bytes(bytes);
    }

    /// Copies `slice` into the last `slice.len()` bytes of storage, leaving
    /// the prefix untouched. The slice is not reversed: its first byte lands
    /// at offset `SIZE - slice.len()`.
    fn fill_from_end(&mut self, slice: &[u8])
        requires
            slice@.len() <= SIZE,
        ensures
            final(self).contents() == fill_from_end_bytes(old(self).contents(), slice@),
    {
        proof {
            self.lemma_contents_len();
        }
        let mut bytes: [u8; SIZE] = *self.as_slice();
        let n: usize = slice.len();
        let offset: usize = SIZE - n;
        let mut i: usize = 0;
        while i < n
            invariant
                i <= n,
                n == slice@.len(),
                n <= SIZE,
                offset == SIZE - n,
                bytes@.len() == SIZE as nat,
                old(self).contents().len() == SIZE as nat,
                forall|j: int| 0 <= j < offset ==> bytes@[j] == old(self).contents()[j],
                forall|j: int| 0 <= j < i ==> bytes@[offset + j] == slice@[j],
            decreases n - i,
        {
            bytes[offset + i] = slice[i];
            i += 1;
        }
        proof {
            assert(bytes@ =~= fill_from_end_bytes(old(self).contents(), slice@));
        }
        *self = Self::from_bytes(bytes);
    }
}

/// Filling with an empty slice changes nothing, from either end.
pub proof fn lemma_fill_empty_is_noop(c: Seq<u8>)
    ensures
        fill_from_start_bytes(c, Seq::<u8>::empty()) == c,
        fill_from_end_bytes(c, Seq::<u8>::empty()) == c,
{
    assert(fill_from_start_bytes(c, Seq::<u8>::empty()) =~= c);
    assert(fill_from_end_bytes(c, Seq::<u8>::empty()) =~= c);
}

/// Filling with a slice as long as the buffer replaces the whole contents,
/// from either end.
pub proof fn lemma_fill_full_replaces_all(c: Seq<u8>, s: Seq<u8>)
    requires
        s.len() == c.len(),
    ensures
        fill_from_start_bytes(c, s) == s,
        fill_from_end_bytes(c, s) == s,
{
    assert(fill_from_start_bytes(c, s) =~= s);
    assert(fill_from_end_bytes(c, s) =~= s);
}

/// Filling from the start writes `s` over the first `s.len()` bytes and
/// leaves every later byte as it was.
pub proof fn lemma_fill_from_start_bytes(c: Seq<u8>, s: Seq<u8>)
    requires
        s.len() <= c.len(),
    ensures
        fill_from_start_bytes(c, s).len() == c.len(),
        forall|i: int| 0 <= i < s.len() ==> fill_from_start_bytes(c, s)[i] == s[i],
        forall|i: int| s.len() <= i < c.len() ==> fill_from_start_bytes(c, s)[i] == c[i],
{
}

/// Filling from the end writes `s` over the last `s.len()` bytes, in order,
/// and leaves every earlier byte as it was.
pub proof fn lemma_fill_from_end_bytes(c: Seq<u8>, s: Seq<u8>)
    requires
        s.len() <= c.len(),
    ensures
        fill_from_end_bytes(c, s).len() == c.len(),
        forall|i: int| 0 <= i < c.len() - s.len() ==> fill_from_end_bytes(c, s)[i] == c[i],
        forall|i: int| 0 <= i < s.len() ==> fill_from_end_bytes(c, s)[c.len() - s.len() + i] == s[i],
{
}

} // verus!
