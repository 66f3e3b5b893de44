//! The word abstraction: little-endian byte conversion and the modular
//! arithmetic the cipher is built from, together with the algebraic facts
//! (each operation has an inverse) that the block-level round-trip proof
//! rests on.  Implemented for `u16`, `u32` and `u64`.
use vstd::prelude::*;

verus! {

/// Little-endian serialization of a word.
pub trait IntoBytes: Sized {
    /// The little-endian byte sequence of a word, least significant byte first.
    spec fn spec_to_le(a: Self) -> Seq<u8>;

    fn to_le_bytes(a: Self) -> (r: Vec<u8>)
        ensures
            r@ == Self::spec_to_le(a),
    ;
}

/// Little-endian deserialization of a word from a byte slice of the exact width.
pub trait FromBytes: Sized {
    /// The byte length a word of this width occupies.
    spec fn spec_width() -> nat;

    /// The word whose little-endian bytes are `bytes` (of length `spec_width`).
    spec fn spec_from_le(bytes: Seq<u8>) -> Self;

    /// Decodes a little-endian byte slice; any other length than the exact
    /// word width is a decode failure.
    fn from_le_bytes(bytes: &[u8]) -> (r: Option<Self>)
        ensures
            bytes@.len() == Self::spec_width() ==> r == Some(Self::spec_from_le(bytes@)),
            bytes@.len() != Self::spec_width() ==> r is None,
    ;
}

/// An unsigned cipher word: the magic constants `P` and `Q`, and the modular
/// operations every pass of the cipher uses.  All arithmetic wraps silently;
/// rotation amounts are reduced modulo the bit width before use.
pub trait Unsigned: Sized + Copy + IntoBytes + FromBytes {
    /// The constant P, the binary expansion of e - 2 truncated to this width.
    spec fn spec_p() -> Self;

    /// The constant Q, the binary expansion of the golden ratio - 1 truncated
    /// to this width.
    spec fn spec_q() -> Self;

    /// The word holding the value of one byte.
    spec fn spec_from_byte(b: u8) -> Self;

    /// Addition modulo 2^bit_width.
    spec fn spec_wadd(self, o: Self) -> Self;

    /// Subtraction modulo 2^bit_width.
    spec fn spec_wsub(self, o: Self) -> Self;

    /// Bitwise exclusive or.
    spec fn spec_xor(self, o: Self) -> Self;

    /// Circular left shift; the amount is reduced modulo the bit width.
    spec fn spec_rotl(self, n: Self) -> Self;

    /// Circular right shift; the amount is reduced modulo the bit width.
    spec fn spec_rotr(self, n: Self) -> Self;

    /// Shift left by one byte, then add a byte, both modulo 2^bit_width:
    /// one step of packing key bytes into a word.
    spec fn spec_push_byte(self, b: u8) -> Self;

    /// The bit width of the word.
    fn bits() -> (r: u32)
        ensures
            r as nat == 8 * Self::spec_width(),
    ;

    /// The byte width of the word: 2, 4 or 8.
    fn bytes() -> (r: usize)
        ensures
            r as nat == Self::spec_width(),
            2 <= r <= 8,
    ;

    fn p() -> (r: Self)
        ensures
            r == Self::spec_p(),
    ;

    fn q() -> (r: Self)
        ensures
            r == Self::spec_q(),
    ;

    fn from_byte(b: u8) -> (r: Self)
        ensures
            r == Self::spec_from_byte(b),
    ;

    fn wadd(self, o: Self) -> (r: Self)
        ensures
            r == self.spec_wadd(o),
    ;

    fn wsub(self, o: Self) -> (r: Self)
        ensures
            r == self.spec_wsub(o),
    ;

    fn xor(self, o: Self) -> (r: Self)
        ensures
            r == self.spec_xor(o),
    ;

    fn rotl(self, n: Self) -> (r: Self)
        ensures
            r == self.spec_rotl(n),
    ;

    fn rotr(self, n: Self) -> (r: Self)
        ensures
            r == self.spec_rotr(n),
    ;

    fn push_byte(self, b: u8) -> (r: Self)
        ensures
            r == self.spec_push_byte(b),
    ;

    /// Every supported word is 2 to 8 bytes wide.
    proof fn lemma_width()
        ensures
            2 <= Self::spec_width() <= 8,
    ;

    /// Wrapping subtraction undoes wrapping addition of the same word.
    proof fn lemma_add_sub(self, o: Self)
        ensures
            self.spec_wadd(o).spec_wsub(o) == self,
    ;

    /// Exclusive or with the same word twice gives the word back.
    proof fn lemma_xor_cancel(self, o: Self)
        ensures
            self.spec_xor(o).spec_xor(o) == self,
    ;

    /// Rotating right undoes rotating left by the same amount.
    proof fn lemma_rotl_rotr(self, n: Self)
        ensures
            self.spec_rotl(n).spec_rotr(n) == self,
    ;

    /// Serializing a word gives exactly `spec_width` bytes, and decoding them
    /// gives the word back.
    proof fn lemma_to_from_le(self)
        ensures
            Self::spec_to_le(self).len() == Self::spec_width(),
            Self::spec_from_le(Self::spec_to_le(self)) == self,
    ;

    /// Serializing the word decoded from a width-sized byte sequence gives
    /// that byte sequence back.
    proof fn lemma_from_to_le(bytes: Seq<u8>)
        requires
            bytes.len() == Self::spec_width(),
        ensures
            Self::spec_to_le(Self::spec_from_le(bytes)) == bytes,
    ;
}

} // verus!
