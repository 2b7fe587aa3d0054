//! Session ID generation: 256 random bits, hex-encoded.

use vstd::prelude::*;

use crate::utils::signed_cookie::{hex_encode, lemma_hex_encode_chars};

verus! {

/// Whether `s` has the form of a session ID: 64 lowercase hex digits.
pub open spec fn is_session_id(s: Seq<char>) -> bool {
    &&& s.len() == 64
    &&& forall|i: int| 0 <= i < s.len() ==> ('0' <= #[trigger] s[i] <= '9') || ('a' <= s[i] <= 'f')
}

/// 32 bytes from `rand::random` (the thread-local generator, seeded from the
/// operating system). The bytes are random, so only their number is stated.
#[verifier::external_body]
fn random_bytes() -> (r: Vec<u8>)
    ensures
        r@.len() == 32,
{
    rand::random::<[u8; 32]>().to_vec()
}

/// A fresh session ID: 32 random bytes as 64 lowercase hex digits.
pub fn generate_session_id() -> (r: String)
    ensures
        is_session_id(r@),
{
    let bytes = random_bytes();
    let r = hex_encode(bytes.as_slice());
    proof {
        lemma_hex_encode_chars(bytes@);
    }
    r
}

} // verus!
