//! The block transform: forward (encrypt) and inverse (decrypt)
//! transformation of exactly one 2-word block under an expanded key
//! schedule, and the proof that the two are inverses.
use vstd::prelude::*;

use crate::word::FromBytes;
use crate::word::IntoBytes;
use crate::word::Unsigned;
use crate::schedule::lemma_expand_key_len;
use crate::schedule::spec_expand_key;
use crate::Error;

verus! {

/// Forward round `k` (`k >= 1`): each half is xored with the other, rotated
/// by a data-dependent amount, and shifted by a sub-key.
pub open spec fn spec_enc_round<W: Unsigned>(s: Seq<W>, a: W, b: W, k: nat) -> (W, W) {
    let a2 = a.spec_xor(b).spec_rotl(b).spec_wadd(s[2 * (k as int)]);
    let b2 = b.spec_xor(a2).spec_rotl(a2).spec_wadd(s[2 * (k as int) + 1]);
    (a2, b2)
}

/// The two working words after the initial sub-key addition and the forward
/// rounds `1..=k`.
pub open spec fn spec_enc_state<W: Unsigned>(s: Seq<W>, a0: W, b0: W, k: nat) -> (W, W)
    decreases k,
{
    if k == 0 {
        (a0.spec_wadd(s[0]), b0.spec_wadd(s[1]))
    } else {
        let prev = spec_enc_state(s, a0, b0, (k - 1) as nat);
        spec_enc_round(s, prev.0, prev.1, k)
    }
}

/// The algebraic inverse of forward round `k`: wrapping subtraction, rotation
/// the other way, and xor, applied in reverse order.
pub open spec fn spec_dec_round<W: Unsigned>(s: Seq<W>, a: W, b: W, k: nat) -> (W, W) {
    let b2 = b.spec_wsub(s[2 * (k as int) + 1]).spec_rotr(a).spec_xor(a);
    let a2 = a.spec_wsub(s[2 * (k as int)]).spec_rotr(b2).spec_xor(b2);
    (a2, b2)
}

/// The two working words after undoing rounds `k` down to `1`.
pub open spec fn spec_dec_state<W: Unsigned>(s: Seq<W>, a: W, b: W, k: nat) -> (W, W)
    decreases k,
{
    if k == 0 {
        (a, b)
    } else {
        let step = spec_dec_round(s, a, b, k);
        spec_dec_state(s, step.0, step.1, (k - 1) as nat)
    }
}

/// The ciphertext of one block: both halves decoded little-endian, all
/// `s.len() / 2 - 1` forward rounds applied, both halves re-encoded.
pub open spec fn spec_encode_block<W: Unsigned>(s: Seq<W>, pt: Seq<u8>) -> Seq<u8> {
    let u = W::spec_width() as int;
    let a0 = W::spec_from_le(pt.subrange(0, u));
    let b0 = W::spec_from_le(pt.subrange(u, 2 * u));
    let out = spec_enc_state(s, a0, b0, (s.len() / 2 - 1) as nat);
    W::spec_to_le(out.0) + W::spec_to_le(out.1)
}

/// The plaintext of one block: both halves decoded little-endian, all rounds
/// undone in reverse order, the initial sub-keys subtracted, both halves
/// re-encoded.
pub open spec fn spec_decode_block<W: Unsigned>(s: Seq<W>, ct: Seq<u8>) -> Seq<u8> {
    let u = W::spec_width() as int;
    let a = W::spec_from_le(ct.subrange(0, u));
    let b = W::spec_from_le(ct.subrange(u, 2 * u));
    let m = spec_dec_state(s, a, b, (s.len() / 2 - 1) as nat);
    W::spec_to_le(m.0.spec_wsub(s[0])) + W::spec_to_le(m.1.spec_wsub(s[1]))
}

proof fn lemma_dec_round_undoes<W: Unsigned>(s: Seq<W>, a: W, b: W, k: nat)
    ensures
        spec_dec_round(s, spec_enc_round(s, a, b, k).0, spec_enc_round(s, a, b, k).1, k) == (a, b),
{
    let a2 = a.spec_xor(b).spec_rotl(b).spec_wadd(s[2 * (k as int)]);
    let b2 = b.spec_xor(a2).spec_rotl(a2).spec_wadd(s[2 * (k as int) + 1]);
    b.spec_xor(a2).spec_rotl(a2).lemma_add_sub(s[2 * (k as int) + 1]);
    b.spec_xor(a2).lemma_rotl_rotr(a2);
    b.lemma_xor_cancel(a2);
    assert(b2.spec_wsub(s[2 * (k as int) + 1]).spec_rotr(a2).spec_xor(a2) == b);
    a.spec_xor(b).spec_rotl(b).lemma_add_sub(s[2 * (k as int)]);
    a.spec_xor(b).lemma_rotl_rotr(b);
    a.lemma_xor_cancel(b);
    assert(a2.spec_wsub(s[2 * (k as int)]).spec_rotr(b).spec_xor(b) == a);
}

proof fn lemma_dec_state_undoes<W: Unsigned>(s: Seq<W>, a0: W, b0: W, k: nat)
    ensures
        spec_dec_state(s, spec_enc_state(s, a0, b0, k).0, spec_enc_state(s, a0, b0, k).1, k)
            == spec_enc_state(s, a0, b0, 0),
    decreases k,
{
    if k != 0 {
        let prev = spec_enc_state(s, a0, b0, (k - 1) as nat);
        lemma_dec_round_undoes(s, prev.0, prev.1, k);
        lemma_dec_state_undoes(s, a0, b0, (k - 1) as nat);
    }
}

/// Law: decoding the encoding of any full-width block under the same
/// schedule gives the block back, for every word width, every schedule of
/// even length at least 2, and every block.
pub proof fn lemma_block_round_trip<W: Unsigned>(s: Seq<W>, pt: Seq<u8>)
    requires
        2 <= s.len(),
        s.len() % 2 == 0,
        pt.len() == 2 * W::spec_width(),
    ensures
        spec_decode_block(s, spec_encode_block::<W>(s, pt)) == pt,
{
    let u = W::spec_width() as int;
    let r = (s.len() / 2 - 1) as nat;
    let lo = pt.subrange(0, u);
    let hi = pt.subrange(u, 2 * u);
    let a0 = W::spec_from_le(lo);
    let b0 = W::spec_from_le(hi);
    let e = spec_enc_state(s, a0, b0, r);
    let ct = spec_encode_block::<W>(s, pt);
    e.0.lemma_to_from_le();
    e.1.lemma_to_from_le();
    assert(ct.subrange(0, u) =~= W::spec_to_le(e.0));
    assert(ct.subrange(u, 2 * u) =~= W::spec_to_le(e.1));
    lemma_dec_state_undoes(s, a0, b0, r);
    a0.lemma_add_sub(s[0]);
    b0.lemma_add_sub(s[1]);
    W::lemma_from_to_le(lo);
    W::lemma_from_to_le(hi);
    assert(spec_decode_block(s, ct) =~= pt);
}

/// Law: the round trip holds in particular for every schedule that key
/// expansion yields — decoding the encoding of a block under
/// `spec_expand_key(key, t)` gives the block back, for every word width,
/// every key, and every even sub-key count `t >= 2`.
pub proof fn lemma_expand_key_round_trip<W: Unsigned>(key: Seq<u8>, t: nat, pt: Seq<u8>)
    requires
        2 <= t,
        t % 2 == 0,
        pt.len() == 2 * W::spec_width(),
    ensures
        spec_decode_block(
            spec_expand_key::<W>(key, t),
            spec_encode_block(spec_expand_key::<W>(key, t), pt),
        ) == pt,
{
    lemma_expand_key_len::<W>(key, t);
    lemma_block_round_trip::<W>(spec_expand_key::<W>(key, t), pt);
}

/// Encrypts exactly one block of `2 * byte_width` little-endian bytes under
/// an expanded key schedule; any other input length is rejected untouched.
pub fn encode<W: Unsigned>(key_exp: &Vec<W>, pt: &Vec<u8>) -> (res: Result<Vec<u8>, Error>)
    requires
        2 <= key_exp@.len(),
        key_exp@.len() % 2 == 0,
    ensures
        match res {
            Ok(ct) => pt@.len() == 2 * W::spec_width() && ct@ == spec_encode_block(
                key_exp@,
                pt@,
            ) && ct@.len() == pt@.len(),
            Err(e) => pt@.len() != 2 * W::spec_width() && e == Error::LengthMismatch,
        },
{
    let u = W::bytes();
    if pt.len() != 2 * u {
        return Err(Error::LengthMismatch);
    }
    let t = key_exp.len();
    let r = t / 2 - 1;
    let a0 = W::from_le_bytes(vstd::slice::slice_subrange(pt.as_slice(), 0, u)).unwrap();
    let b0 = W::from_le_bytes(vstd::slice::slice_subrange(pt.as_slice(), u, 2 * u)).unwrap();
    let mut a = a0.wadd(key_exp[0]);
    let mut b = b0.wadd(key_exp[1]);
    let mut i: usize = 1;
    while i <= r
        invariant
            1 <= i <= r + 1,
            t == key_exp@.len(),
            2 <= t,
            t % 2 == 0,
            r == t / 2 - 1,
            (a, b) == spec_enc_state(key_exp@, a0, b0, (i - 1) as nat),
        decreases r + 1 - i,
    {
        a = a.xor(b).rotl(b).wadd(key_exp[2 * i]);
        b = b.xor(a).rotl(a).wadd(key_exp[2 * i + 1]);
        i += 1;
    }
    proof {
        a.lemma_to_from_le();
        b.lemma_to_from_le();
    }
    let mut out = W::to_le_bytes(a);
    let mut tail = W::to_le_bytes(b);
    out.append(&mut tail);
    proof {
        assert(out@ =~= spec_encode_block(key_exp@, pt@));
    }
    Ok(out)
}

/// Decrypts exactly one block of `2 * byte_width` little-endian bytes under
/// an expanded key schedule; any other input length is rejected untouched.
pub fn decode<W: Unsigned>(key_exp: &Vec<W>, ct: &Vec<u8>) -> (res: Result<Vec<u8>, Error>)
    requires
        2 <= key_exp@.len(),
        key_exp@.len() % 2 == 0,
    ensures
        match res {
            Ok(pt) => ct@.len() == 2 * W::spec_width() && pt@ == spec_decode_block(
                key_exp@,
                ct@,
            ) && pt@.len() == ct@.len(),
            Err(e) => ct@.len() != 2 * W::spec_width() && e == Error::LengthMismatch,
        },
{
    let u = W::bytes();
    if ct.len() != 2 * u {
        return Err(Error::LengthMismatch);
    }
    let t = key_exp.len();
    let r = t / 2 - 1;
    let a0 = W::from_le_bytes(vstd::slice::slice_subrange(ct.as_slice(), 0, u)).unwrap();
    let b0 = W::from_le_bytes(vstd::slice::slice_subrange(ct.as_slice(), u, 2 * u)).unwrap();
    let mut a = a0;
    let mut b = b0;
    let mut i: usize = r;
    while i >= 1
        invariant
            i <= r,
            t == key_exp@.len(),
            2 <= t,
            t % 2 == 0,
            r == t / 2 - 1,
            spec_dec_state(key_exp@, a, b, i as nat) == spec_dec_state(
                key_exp@,
                a0,
                b0,
                r as nat,
            ),
        decreases i,
    {
        b = b.wsub(key_exp[2 * i + 1]).rotr(a).xor(a);
        a = a.wsub(key_exp[2 * i]).rotr(b).xor(b);
        i -= 1;
    }
    let fa = a.wsub(key_exp[0]);
    let fb = b.wsub(key_exp[1]);
    proof {
        fa.lemma_to_from_le();
        fb.lemma_to_from_le();
    }
    let mut out = W::to_le_bytes(fa);
    let mut tail = W::to_le_bytes(fb);
    out.append(&mut tail);
    proof {
        assert(out@ =~= spec_decode_block(key_exp@, ct@));
    }
    Ok(out)
}

} // verus!


