//! The 32-bit cipher word.
use vstd::prelude::*;

use crate::word::FromBytes;
use crate::word::IntoBytes;
use crate::word::Unsigned;

verus! {

/// Circular left shift of a 32-bit word; the amount is reduced modulo 32.
pub open spec fn rotl32(a: u32, n: u32) -> u32 {
    let s = n % 32;
    if s == 0 {
        a
    } else {
        (a << s) | (a >> ((32 - s) as u32))
    }
}

/// Circular right shift of a 32-bit word; the amount is reduced modulo 32.
pub open spec fn rotr32(a: u32, n: u32) -> u32 {
    let s = n % 32;
    if s == 0 {
        a
    } else {
        (a >> s) | (a << ((32 - s) as u32))
    }
}

impl IntoBytes for u32 {
    open spec fn spec_to_le(a: u32) -> Seq<u8> {
        seq![
            (a % 256) as u8,
            ((a >> 8u32) % 256) as u8,
            ((a >> 16u32) % 256) as u8,
            ((a >> 24u32) % 256) as u8,
        ]
    }

    fn to_le_bytes(a: u32) -> (r: Vec<u8>) {
        let mut v: Vec<u8> = Vec::new();
        v.push((a % 256) as u8);
        v.push(((a >> 8u32) % 256) as u8);
        v.push(((a >> 16u32) % 256) as u8);
        v.push(((a >> 24u32) % 256) as u8);
        proof {
            assert(v@ =~= Self::spec_to_le(a));
        }
        v
    }
}

impl FromBytes for u32 {
    open spec fn spec_width() -> nat {
        4
    }

    open spec fn spec_from_le(bytes: Seq<u8>) -> u32 {
        (bytes[0] as u32) | ((bytes[1] as u32) << 8u32) | ((bytes[2] as u32) << 16u32)
            | ((bytes[3] as u32) << 24u32)
    }

    fn from_le_bytes(bytes: &[u8]) -> (r: Option<u32>) {
        if bytes.len() == 4 {
            Some(
                (bytes[0] as u32) | ((bytes[1] as u32) << 8u32) | ((bytes[2] as u32) << 16u32)
                    | ((bytes[3] as u32) << 24u32),
            )
        } else {
            None
        }
    }
}

impl Unsigned for u32 {
    open spec fn spec_p() -> u32 {
        0xb7e15163u32
    }

    open spec fn spec_q() -> u32 {
        0x9e3779b9u32
    }

    open spec fn spec_from_byte(b: u8) -> u32 {
        b as u32
    }

    open spec fn spec_wadd(self, o: u32) -> u32 {
        self.wrapping_add(o)
    }

    open spec fn spec_wsub(self, o: u32) -> u32 {
        self.wrapping_sub(o)
    }

    open spec fn spec_xor(self, o: u32) -> u32 {
        self ^ o
    }

    open spec fn spec_rotl(self, n: u32) -> u32 {
        rotl32(self, n)
    }

    open spec fn spec_rotr(self, n: u32) -> u32 {
        rotr32(self, n)
    }

    open spec fn spec_push_byte(self, b: u8) -> u32 {
        (self << 8u32).wrapping_add(b as u32)
    }

    fn bits() -> u32 {
        32
    }

    fn bytes() -> usize {
        4
    }

    fn p() -> u32 {
        0xb7e15163u32
    }

    fn q() -> u32 {
        0x9e3779b9u32
    }

    fn from_byte(b: u8) -> u32 {
        b as u32
    }

    fn wadd(self, o: u32) -> u32 {
        self.wrapping_add(o)
    }

    fn wsub(self, o: u32) -> u32 {
        self.wrapping_sub(o)
    }

    fn xor(self, o: u32) -> u32 {
        self ^ o
    }

    fn rotl(self, n: u32) -> u32 {
        let s = n % 32;
        if s == 0 {
            self
        } else {
            (self << s) | (self >> (32 - s))
        }
    }

    fn rotr(self, n: u32) -> u32 {
        let s = n % 32;
        if s == 0 {
            self
        } else {
            (self >> s) | (self << (32 - s))
        }
    }

    fn push_byte(self, b: u8) -> u32 {
        (self << 8u32).wrapping_add(b as u32)
    }

    proof fn lemma_width() {
    }

    proof fn lemma_add_sub(self, o: u32) {
    }

    proof fn lemma_xor_cancel(self, o: u32) {
        assert((self ^ o) ^ o == self) by (bit_vector);
    }

    proof fn lemma_rotl_rotr(self, n: u32) {
        assert(rotr32(rotl32(self, n), n) == self) by (bit_vector);
    }

    proof fn lemma_to_from_le(self) {
        assert(((self % 256) as u8 as u32) | ((((self >> 8u32) % 256) as u8 as u32) << 8u32) | ((((
        self >> 16u32) % 256) as u8 as u32) << 16u32) | ((((self >> 24u32) % 256) as u8 as u32)
            << 24u32) == self) by (bit_vector);
    }

    proof fn lemma_from_to_le(bytes: Seq<u8>) {
        let b0 = bytes[0];
        let b1 = bytes[1];
        let b2 = bytes[2];
        let b3 = bytes[3];
        let w = Self::spec_from_le(bytes);
        assert((w % 256) as u8 == b0 && ((w >> 8u32) % 256) as u8 == b1 && ((w >> 16u32)
            % 256) as u8 == b2 && ((w >> 24u32) % 256) as u8 == b3) by (bit_vector)
            requires
                w == (b0 as u32) | ((b1 as u32) << 8u32) | ((b2 as u32) << 16u32) | ((
                b3 as u32) << 24u32),
        ;
        assert(Self::spec_to_le(w) =~= bytes);
    }
}

} // verus!
