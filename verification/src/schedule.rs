//! The key schedule: expansion of a variable-length secret key into an
//! ordered sequence of round sub-keys, seeded by the word constants P and Q
//! and mixed with the key bytes.
use vstd::prelude::*;

use crate::word::FromBytes;
use crate::word::Unsigned;
use crate::Error;

verus! {

/// The longest secret key, in bytes, that key expansion accepts; longer keys
/// fail schedule derivation with an explicit error instead of overflowing a
/// working buffer.
pub const MAX_KEY_BYTES: usize = 255;

/// The key words after packing the last `m` key bytes, highest index first,
/// into `c` words that start out all zero: processing byte `i` shifts word
/// `i / byte_width` left one byte and adds the byte.
pub open spec fn spec_key_words_step<W: Unsigned>(key: Seq<u8>, c: nat, m: nat) -> Seq<W>
    decreases m,
{
    if m == 0 {
        Seq::new(c, |x: int| W::spec_from_byte(0))
    } else {
        let prev = spec_key_words_step::<W>(key, c, (m - 1) as nat);
        let i = key.len() - m;
        let ix = i / (W::spec_width() as int);
        prev.update(ix, prev[ix].spec_push_byte(key[i]))
    }
}

/// The secret key packed into `c` little-endian words.
pub open spec fn spec_key_words<W: Unsigned>(key: Seq<u8>, c: nat) -> Seq<W> {
    spec_key_words_step::<W>(key, c, key.len())
}

/// The sub-key sequence before mixing: `S[0] = P`, and each later entry adds
/// `Q` to the one before it, wrapping.
pub open spec fn spec_init_s<W: Unsigned>(t: nat) -> Seq<W>
    decreases t,
{
    if t <= 1 {
        seq![W::spec_p()]
    } else {
        let prev = spec_init_s::<W>((t - 1) as nat);
        prev.push(prev.last().spec_wadd(W::spec_q()))
    }
}

/// One mixing round at positions `i` of S and `j` of L: both entries are
/// rotated sums of themselves and the running accumulators, which then take
/// the new values.
pub open spec fn spec_mix_round<W: Unsigned>(
    st: (Seq<W>, Seq<W>, W, W),
    i: int,
    j: int,
) -> (Seq<W>, Seq<W>, W, W) {
    let s2 = st.0.update(i, st.0[i].spec_wadd(st.2.spec_wadd(st.3)).spec_rotl(W::spec_from_byte(3)));
    let a2 = s2[i];
    let l2 = st.1.update(j, st.1[j].spec_wadd(a2.spec_wadd(st.3)).spec_rotl(a2.spec_wadd(st.3)));
    let b2 = l2[j];
    (s2, l2, a2, b2)
}

/// `n` mixing rounds starting from state `st` at positions `i`, `j`, each
/// position stepping cyclically through its sequence.
pub open spec fn spec_mix<W: Unsigned>(
    st: (Seq<W>, Seq<W>, W, W),
    i: int,
    j: int,
    t: nat,
    c: nat,
    n: nat,
) -> (Seq<W>, Seq<W>, W, W)
    decreases n,
{
    if n == 0 {
        st
    } else {
        let st2 = spec_mix_round::<W>(st, i, j);
        spec_mix::<W>(
            st2,
            if i + 1 == t { 0 } else { i + 1 },
            if j + 1 == c { 0 } else { j + 1 },
            t,
            c,
            (n - 1) as nat,
        )
    }
}

/// The number of words needed to hold the key bytes: `max(1, ceil(b / u))`
/// for a `b`-byte key and `u`-byte words.
pub open spec fn spec_key_word_count(b: nat, u: nat) -> nat {
    if b == 0 {
        1
    } else {
        (((b + u - 1) as int) / (u as int)) as nat
    }
}

/// The expanded schedule of `t` sub-keys for a secret key: the key packed
/// into words, S seeded from P and Q, and `max(c, 3 * t)` mixing rounds.
pub open spec fn spec_expand_key<W: Unsigned>(key: Seq<u8>, t: nat) -> Seq<W> {
    let c = spec_key_word_count(key.len(), W::spec_width());
    let l0 = spec_key_words::<W>(key, c);
    let s0 = spec_init_s::<W>(t);
    let zero = W::spec_from_byte(0);
    let n = if 3 * t >= c {
        3 * t
    } else {
        c
    };
    spec_mix::<W>((s0, l0, zero, zero), 0, 0, t, c, n).0
}

/// Law: key expansion is a pure function of the key bytes and the sub-key
/// count — identical inputs always yield an identical schedule.
pub proof fn lemma_expand_key_deterministic<W: Unsigned>(
    key1: Seq<u8>,
    key2: Seq<u8>,
    t1: nat,
    t2: nat,
)
    requires
        key1 == key2,
        t1 == t2,
    ensures
        spec_expand_key::<W>(key1, t1) == spec_expand_key::<W>(key2, t2),
{
}

proof fn lemma_init_s_len<W: Unsigned>(t: nat)
    requires
        1 <= t,
    ensures
        spec_init_s::<W>(t).len() == t,
    decreases t,
{
    if t > 1 {
        lemma_init_s_len::<W>((t - 1) as nat);
    }
}

proof fn lemma_key_words_step_len<W: Unsigned>(key: Seq<u8>, m: nat)
    requires
        m <= key.len(),
    ensures
        spec_key_words_step::<W>(key, spec_key_word_count(key.len(), W::spec_width()), m).len()
            == spec_key_word_count(key.len(), W::spec_width()),
    decreases m,
{
    let u = W::spec_width() as int;
    let c = spec_key_word_count(key.len(), W::spec_width());
    if m > 0 {
        lemma_key_words_step_len::<W>(key, (m - 1) as nat);
        W::lemma_width();
        let b = key.len() as int;
        let i = b - m;
        vstd::arithmetic::div_mod::lemma_div_pos_is_pos(i, u);
        vstd::arithmetic::div_mod::lemma_div_is_ordered(i, b - 1, u);
        vstd::arithmetic::div_mod::lemma_div_plus_one(b - 1, u);
        assert(i / u < c);
    }
}

proof fn lemma_mix_len<W: Unsigned>(
    st: (Seq<W>, Seq<W>, W, W),
    i: int,
    j: int,
    t: nat,
    c: nat,
    n: nat,
)
    requires
        st.0.len() == t,
        st.1.len() == c,
        0 <= i < t,
        0 <= j < c,
    ensures
        spec_mix::<W>(st, i, j, t, c, n).0.len() == t,
        spec_mix::<W>(st, i, j, t, c, n).1.len() == c,
    decreases n,
{
    if n > 0 {
        let st2 = spec_mix_round::<W>(st, i, j);
        lemma_mix_len::<W>(
            st2,
            if i + 1 == t { 0 } else { i + 1 },
            if j + 1 == c { 0 } else { j + 1 },
            t,
            c,
            (n - 1) as nat,
        );
    }
}

/// Law: the expanded schedule holds exactly `t` sub-keys, for every key and
/// every positive sub-key count.
pub proof fn lemma_expand_key_len<W: Unsigned>(key: Seq<u8>, t: nat)
    requires
        1 <= t,
    ensures
        spec_expand_key::<W>(key, t).len() == t,
{
    let u = W::spec_width() as int;
    let c = spec_key_word_count(key.len(), W::spec_width());
    W::lemma_width();
    if key.len() != 0 {
        vstd::arithmetic::div_mod::lemma_div_non_zero(key.len() + u - 1, u);
    }
    lemma_init_s_len::<W>(t);
    lemma_key_words_step_len::<W>(key, key.len());
    let s0 = spec_init_s::<W>(t);
    let l0 = spec_key_words::<W>(key, c);
    let zero = W::spec_from_byte(0);
    let n = if 3 * t >= c {
        3 * t
    } else {
        c
    };
    lemma_mix_len::<W>((s0, l0, zero, zero), 0, 0, t, c, n);
}

/// Expands a secret key of at most [`MAX_KEY_BYTES`] bytes into `t` round
/// sub-keys, where `t = 2 * (r + 1)` for the desired round count `r`; a
/// sub-key count no round count produces, or an over-long key, is rejected
/// before any work is done.  The empty key is legal.
pub fn expand_key<W: Unsigned>(key: &Vec<u8>, t: usize) -> (res: Result<Vec<W>, Error>)
    ensures
        res is Err <==> t < 2 || t % 2 != 0 || key@.len() > MAX_KEY_BYTES,
        match res {
            Ok(s) => s@ == spec_expand_key::<W>(key@, t as nat) && s@.len() == t,
            Err(e) => e == Error::UnsupportedParameters,
        },
{
    if t < 2 || t % 2 != 0 || key.len() > MAX_KEY_BYTES {
        return Err(Error::UnsupportedParameters);
    }
    let b = key.len();
    let u = W::bytes();
    let c = if b == 0 {
        1
    } else {
        (b + u - 1) / u
    };
    proof {
        if b != 0 {
            vstd::arithmetic::div_mod::lemma_div_non_zero((b + u - 1) as int, u as int);
        }
        assert(1 <= c);
        assert(c == spec_key_word_count(key@.len(), W::spec_width()));
    }

    // Pack the key bytes into c words, highest byte index first.
    let mut l: Vec<W> = Vec::new();
    let mut k: usize = 0;
    while k < c
        invariant
            k <= c,
            l@.len() == k,
            forall|x: int| 0 <= x < k ==> l@[x] == W::spec_from_byte(0),
        decreases c - k,
    {
        l.push(W::from_byte(0));
        k += 1;
    }
    proof {
        assert(l@ =~= spec_key_words_step::<W>(key@, c as nat, 0));
    }
    let mut m: usize = 0;
    while m < b
        invariant
            m <= b,
            b == key@.len(),
            b <= MAX_KEY_BYTES,
            u == W::spec_width(),
            2 <= u <= 8,
            c == spec_key_word_count(b as nat, u as nat),
            l@ == spec_key_words_step::<W>(key@, c as nat, m as nat),
            l@.len() == c,
        decreases b - m,
    {
        let i = b - 1 - m;
        let ix = i / u;
        assert(ix < c) by (bit_vector)
            requires
                ix == i / u,
                c == ((b + u - 1) as usize) / u,
                i < b,
                b <= 255usize,
                2 <= u <= 8usize,
        ;
        let w = l[ix];
        let updated = w.push_byte(key[i]);
        l.set(ix, updated);
        proof {
            assert(l@ =~= spec_key_words_step::<W>(key@, c as nat, (m + 1) as nat));
        }
        m += 1;
    }
    proof {
        assert(l@ == spec_key_words::<W>(key@, c as nat));
    }

    // Seed S from the magic constants.
    let mut s: Vec<W> = Vec::new();
    s.push(W::p());
    let mut k2: usize = 1;
    while k2 < t
        invariant
            1 <= k2 <= t,
            s@.len() == k2,
            s@ == spec_init_s::<W>(k2 as nat),
        decreases t - k2,
    {
        let prev = s[k2 - 1];
        s.push(prev.wadd(W::q()));
        k2 += 1;
    }

    // Mix the key words into S.
    let ghost st0 = (s@, l@, W::spec_from_byte(0), W::spec_from_byte(0));
    let total: u128 = {
        let three_t: u128 = 3u128 * (t as u128);
        let c128: u128 = c as u128;
        if three_t >= c128 {
            three_t
        } else {
            c128
        }
    };
    let mut a = W::from_byte(0);
    let mut acc = W::from_byte(0);
    let mut i: usize = 0;
    let mut j: usize = 0;
    let mut done: u128 = 0;
    while done < total
        invariant
            done <= total,
            2 <= t,
            1 <= c,
            i < t,
            j < c,
            s@.len() == t,
            l@.len() == c,
            c == spec_key_word_count(key@.len(), W::spec_width()),
            st0 == (
                spec_init_s::<W>(t as nat),
                spec_key_words::<W>(key@, c as nat),
                W::spec_from_byte(0),
                W::spec_from_byte(0),
            ),
            total as nat == if 3 * (t as nat) >= c as nat {
                3 * (t as nat)
            } else {
                c as nat
            },
            spec_mix::<W>((s@, l@, a, acc), i as int, j as int, t as nat, c as nat, (total
                - done) as nat) == spec_mix::<W>(st0, 0, 0, t as nat, c as nat, total as nat),
        decreases total - done,
    {
        let si = s[i];
        let ab = a.wadd(acc);
        let ns = si.wadd(ab).rotl(W::from_byte(3));
        s.set(i, ns);
        a = ns;
        let ab2 = a.wadd(acc);
        let nl = l[j].wadd(ab2).rotl(ab2);
        l.set(j, nl);
        acc = nl;
        i = if i + 1 == t {
            0
        } else {
            i + 1
        };
        j = if j + 1 == c {
            0
        } else {
            j + 1
        };
        done += 1;
    }
    proof {
        assert(s@ == spec_expand_key::<W>(key@, t as nat));
    }
    Ok(s)
}

} // verus!
