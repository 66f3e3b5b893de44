//! The 16-bit cipher word.
use vstd::prelude::*;

use crate::word::FromBytes;
use crate::word::IntoBytes;
use crate::word::Unsigned;

verus! {

/// Circular left shift of a 16-bit word; the amount is reduced modulo 16.
pub open spec fn rotl16(a: u16, n: u16) -> u16 {
    let s = n % 16;
    if s == 0 {
        a
    } else {
        (a << s) | (a >> ((16 - s) as u16))
    }
}

/// Circular right shift of a 16-bit word; the amount is reduced modulo 16.
pub open spec fn rotr16(a: u16, n: u16) -> u16 {
    let s = n % 16;
    if s == 0 {
        a
    } else {
        (a >> s) | (a << ((16 - s) as u16))
    }
}

impl IntoBytes for u16 {
    open spec fn spec_to_le(a: u16) -> Seq<u8> {
        seq![(a % 256) as u8, ((a >> 8u16) % 256) as u8]
    }

    fn to_le_bytes(a: u16) -> (r: Vec<u8>) {
        let mut v: Vec<u8> = Vec::new();
        v.push((a % 256) as u8);
        v.push(((a >> 8u16) % 256) as u8);
        proof {
            assert(v@ =~= Self::spec_to_le(a));
        }
        v
    }
}

impl FromBytes for u16 {
    open spec fn spec_width() -> nat {
        2
    }

    open spec fn spec_from_le(bytes: Seq<u8>) -> u16 {
        (bytes[0] as u16) | ((bytes[1] as u16) << 8u16)
    }

    fn from_le_bytes(bytes: &[u8]) -> (r: Option<u16>) {
        if bytes.len() == 2 {
            Some((bytes[0] as u16) | ((bytes[1] as u16) << 8u16))
        } else {
            None
        }
    }
}

impl Unsigned for u16 {
    open spec fn spec_p() -> u16 {
        0xb7e1u16
    }

    open spec fn spec_q() -> u16 {
        0x9e37u16
    }

    open spec fn spec_from_byte(b: u8) -> u16 {
        b as u16
    }

    open spec fn spec_wadd(self, o: u16) -> u16 {
        self.wrapping_add(o)
    }

    open spec fn spec_wsub(self, o: u16) -> u16 {
        self.wrapping_sub(o)
    }

    open spec fn spec_xor(self, o: u16) -> u16 {
        self ^ o
    }

    open spec fn spec_rotl(self, n: u16) -> u16 {
        rotl16(self, n)
    }

    open spec fn spec_rotr(self, n: u16) -> u16 {
        rotr16(self, n)
    }

    open spec fn spec_push_byte(self, b: u8) -> u16 {
        (self << 8u16).wrapping_add(b as u16)
    }

    fn bits() -> u32 {
        16
    }

    fn bytes() -> usize {
        2
    }

    fn p() -> u16 {
        0xb7e1u16
    }

    fn q() -> u16 {
        0x9e37u16
    }

    fn from_byte(b: u8) -> u16 {
        b as u16
    }

    fn wadd(self, o: u16) -> u16 {
        self.wrapping_add(o)
    }

    fn wsub(self, o: u16) -> u16 {
        self.wrapping_sub(o)
    }

    fn xor(self, o: u16) -> u16 {
        self ^ o
    }

    fn rotl(self, n: u16) -> u16 {
        let s = n % 16;
        if s == 0 {
            self
        } else {
            (self << s) | (self >> (16 - s))
        }
    }

    fn rotr(self, n: u16) -> u16 {
        let s = n % 16;
        if s == 0 {
            self
        } else {
            (self >> s) | (self << (16 - s))
        }
    }

    fn push_byte(self, b: u8) -> u16 {
        (self << 8u16).wrapping_add(b as u16)
    }

    proof fn lemma_width() {
    }

    proof fn lemma_add_sub(self, o: u16) {
    }

    proof fn lemma_xor_cancel(self, o: u16) {
        assert((self ^ o) ^ o == self) by (bit_vector);
    }

    proof fn lemma_rotl_rotr(self, n: u16) {
        assert(rotr16(rotl16(self, n), n) == self) by (bit_vector);
    }

    proof fn lemma_to_from_le(self) {
        assert(((self % 256) as u8 as u16) | ((((self >> 8u16) % 256) as u8 as u16) << 8u16)
            == self) by (bit_vector);
    }

    proof fn lemma_from_to_le(bytes: Seq<u8>) {
        let b0 = bytes[0];
        let b1 = bytes[1];
        let w = Self::spec_from_le(bytes);
        assert((w % 256) as u8 == b0 && ((w >> 8u16) % 256) as u8 == b1) by (bit_vector)
            requires
                w == (b0 as u16) | ((b1 as u16) << 8u16),
        ;
        assert(Self::spec_to_le(w) =~= bytes);
    }
}

} // verus!
