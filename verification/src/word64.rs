//! The 64-bit cipher word.
use vstd::prelude::*;

use crate::word::FromBytes;
use crate::word::IntoBytes;
use crate::word::Unsigned;

verus! {

/// Circular left shift of a 64-bit word; the amount is reduced modulo 64.
pub open spec fn rotl64(a: u64, n: u64) -> u64 {
    let s = n % 64;
    if s == 0 {
        a
    } else {
        (a << s) | (a >> ((64 - s) as u64))
    }
}

/// Circular right shift of a 64-bit word; the amount is reduced modulo 64.
pub open spec fn rotr64(a: u64, n: u64) -> u64 {
    let s = n % 64;
    if s == 0 {
        a
    } else {
        (a >> s) | (a << ((64 - s) as u64))
    }
}

impl IntoBytes for u64 {
    open spec fn spec_to_le(a: u64) -> Seq<u8> {
        seq![
            (a % 256) as u8,
            ((a >> 8u64) % 256) as u8,
            ((a >> 16u64) % 256) as u8,
            ((a >> 24u64) % 256) as u8,
            ((a >> 32u64) % 256) as u8,
            ((a >> 40u64) % 256) as u8,
            ((a >> 48u64) % 256) as u8,
            ((a >> 56u64) % 256) as u8,
        ]
    }

    fn to_le_bytes(a: u64) -> (r: Vec<u8>) {
        let mut v: Vec<u8> = Vec::new();
        v.push((a % 256) as u8);
        v.push(((a >> 8u64) % 256) as u8);
        v.push(((a >> 16u64) % 256) as u8);
        v.push(((a >> 24u64) % 256) as u8);
        v.push(((a >> 32u64) % 256) as u8);
        v.push(((a >> 40u64) % 256) as u8);
        v.push(((a >> 48u64) % 256) as u8);
        v.push(((a >> 56u64) % 256) as u8);
        proof {
            assert(v@ =~= Self::spec_to_le(a));
        }
        v
    }
}

impl FromBytes for u64 {
    open spec fn spec_width() -> nat {
        8
    }

    open spec fn spec_from_le(bytes: Seq<u8>) -> u64 {
        (bytes[0] as u64) | ((bytes[1] as u64) << 8u64) | ((bytes[2] as u64) << 16u64) | ((
        bytes[3] as u64) << 24u64) | ((bytes[4] as u64) << 32u64) | ((bytes[5] as u64) << 40u64)
            | ((bytes[6] as u64) << 48u64) | ((bytes[7] as u64) << 56u64)
    }

    fn from_le_bytes(bytes: &[u8]) -> (r: Option<u64>) {
        if bytes.len() == 8 {
            Some(
                (bytes[0] as u64) | ((bytes[1] as u64) << 8u64) | ((bytes[2] as u64) << 16u64) | ((
                bytes[3] as u64) << 24u64) | ((bytes[4] as u64) << 32u64) | ((bytes[5] as u64)
                    << 40u64) | ((bytes[6] as u64) << 48u64) | ((bytes[7] as u64) << 56u64),
            )
        } else {
            None
        }
    }
}

impl Unsigned for u64 {
    open spec fn spec_p() -> u64 {
        0xb7e151628aed2a6bu64
    }

    open spec fn spec_q() -> u64 {
        0x9e3779b97f4a7c15u64
    }

    open spec fn spec_from_byte(b: u8) -> u64 {
        b as u64
    }

    open spec fn spec_wadd(self, o: u64) -> u64 {
        self.wrapping_add(o)
    }

    open spec fn spec_wsub(self, o: u64) -> u64 {
        self.wrapping_sub(o)
    }

    open spec fn spec_xor(self, o: u64) -> u64 {
        self ^ o
    }

    open spec fn spec_rotl(self, n: u64) -> u64 {
        rotl64(self, n)
    }

    open spec fn spec_rotr(self, n: u64) -> u64 {
        rotr64(self, n)
    }

    open spec fn spec_push_byte(self, b: u8) -> u64 {
        (self << 8u64).wrapping_add(b as u64)
    }

    fn bits() -> u32 {
        64
    }

    fn bytes() -> usize {
        8
    }

    fn p() -> u64 {
        0xb7e151628aed2a6bu64
    }

    fn q() -> u64 {
        0x9e3779b97f4a7c15u64
    }

    fn from_byte(b: u8) -> u64 {
        b as u64
    }

    fn wadd(self, o: u64) -> u64 {
        self.wrapping_add(o)
    }

    fn wsub(self, o: u64) -> u64 {
        self.wrapping_sub(o)
    }

    fn xor(self, o: u64) -> u64 {
        self ^ o
    }

    fn rotl(self, n: u64) -> u64 {
        let s = n % 64;
        if s == 0 {
            self
        } else {
            (self << s) | (self >> (64 - s))
        }
    }

    fn rotr(self, n: u64) -> u64 {
        let s = n % 64;
        if s == 0 {
            self
        } else {
            (self >> s) | (self << (64 - s))
        }
    }

    fn push_byte(self, b: u8) -> u64 {
        (self << 8u64).wrapping_add(b as u64)
    }

    proof fn lemma_width() {
    }

    proof fn lemma_add_sub(self, o: u64) {
    }

    proof fn lemma_xor_cancel(self, o: u64) {
        assert((self ^ o) ^ o == self) by (bit_vector);
    }

    proof fn lemma_rotl_rotr(self, n: u64) {
        assert(rotr64(rotl64(self, n), n) == self) by (bit_vector);
    }

    proof fn lemma_to_from_le(self) {
        assert(((self % 256) as u8 as u64) | ((((self >> 8u64) % 256) as u8 as u64) << 8u64) | ((((
        self >> 16u64) % 256) as u8 as u64) << 16u64) | ((((self >> 24u64) % 256) as u8 as u64)
            << 24u64) | ((((self >> 32u64) % 256) as u8 as u64) << 32u64) | ((((self >> 40u64)
            % 256) as u8 as u64) << 40u64) | ((((self >> 48u64) % 256) as u8 as u64) << 48u64) | ((((
        self >> 56u64) % 256) as u8 as u64) << 56u64) == self) by (bit_vector);
    }

    proof fn lemma_from_to_le(bytes: Seq<u8>) {
        let b0 = bytes[0];
        let b1 = bytes[1];
        let b2 = bytes[2];
        let b3 = bytes[3];
        let b4 = bytes[4];
        let b5 = bytes[5];
        let b6 = bytes[6];
        let b7 = bytes[7];
        let w = Self::spec_from_le(bytes);
        assert((w % 256) as u8 == b0 && ((w >> 8u64) % 256) as u8 == b1 && ((w >> 16u64)
            % 256) as u8 == b2 && ((w >> 24u64) % 256) as u8 == b3 && ((w >> 32u64) % 256) as u8
            == b4 && ((w >> 40u64) % 256) as u8 == b5 && ((w >> 48u64) % 256) as u8 == b6 && ((w
            >> 56u64) % 256) as u8 == b7) by (bit_vector)
            requires
                w == (b0 as u64) | ((b1 as u64) << 8u64) | ((b2 as u64) << 16u64) | ((b3 as u64)
                    << 24u64) | ((b4 as u64) << 32u64) | ((b5 as u64) << 40u64) | ((b6 as u64)
                    << 48u64) | ((b7 as u64) << 56u64),
        ;
        assert(Self::spec_to_le(w) =~= bytes);
    }
}

} // verus!
