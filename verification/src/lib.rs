//! RC5 block cipher primitive: key-schedule derivation and single-block
//! encryption/decryption, generic over the machine word width (16, 32 or
//! 64 bits) through the [`Unsigned`] trait.
//!
//! Every operation is a pure function of its inputs; the contracts pin each
//! result to a mathematical model of the cipher, and the inverse relation
//! between [`encode`] and [`decode`] is proved once and for all in
//! [`lemma_block_round_trip`].
use vstd::prelude::*;

mod word;
mod word16;
mod word32;
mod word64;
mod schedule;
mod block;

pub use word::FromBytes;
pub use word::IntoBytes;
pub use word::Unsigned;
pub use schedule::expand_key;
pub use schedule::lemma_expand_key_deterministic;
pub use schedule::lemma_expand_key_len;
pub use schedule::spec_expand_key;
pub use schedule::MAX_KEY_BYTES;
pub use block::decode;
pub use block::encode;
pub use block::lemma_block_round_trip;
pub use block::lemma_expand_key_round_trip;
pub use block::spec_decode_block;
pub use block::spec_encode_block;

verus! {

/// Every failure of the cipher primitive: malformed input or misconfiguration.
/// All failures are deterministic functions of the inputs.
#[derive(Clone, Copy, Debug, PartialEq, Eq)]
pub enum Error {
    /// A block or byte-to-word input whose length is not the exact expected size.
    LengthMismatch,
    /// A sub-key count that no round count produces, or a key over [`MAX_KEY_BYTES`].
    UnsupportedParameters,
}

} // verus!
