//! HMAC-signed session cookie helpers.
//!
//! The value stored in the cookie is `<session_id>.<hmac_hex>`. The HMAC is a
//! second layer of defense: a forged or tampered token is rejected before it
//! reaches the session store.

use hmac::{Hmac, Mac};
use sha2::Sha256;
use vstd::prelude::*;
use vstd::utf8::encode_utf8;

use crate::utils::chars::{chars_of, string_from_chars};
use crate::utils::profile::{find_char, first_index_of};

verus! {

/// The lowercase hex digit of `n` (for `n < 16`).
pub open spec fn hex_digit(n: int) -> char {
    if n < 10 {
        (48 + n) as char
    } else {
        (87 + n) as char
    }
}

/// Lowercase hex encoding: two digits per byte, high nibble first.
pub open spec fn spec_hex_encode(b: Seq<u8>) -> Seq<char> {
    Seq::new(
        2 * b.len(),
        |i: int|
            if i % 2 == 0 {
                hex_digit((b[i / 2] / 16) as int)
            } else {
                hex_digit((b[i / 2] % 16) as int)
            },
    )
}

/// The value of one hex digit (either case), if `c` is one.
pub open spec fn hex_value(c: char) -> Option<int> {
    if '0' <= c <= '9' {
        Some(c as int - 48)
    } else if 'a' <= c <= 'f' {
        Some(c as int - 87)
    } else if 'A' <= c <= 'F' {
        Some(c as int - 55)
    } else {
        None
    }
}

/// Hex decoding: `None` for an odd length or any non-hex character.
pub open spec fn spec_hex_decode(s: Seq<char>) -> Option<Seq<u8>> {
    if s.len() % 2 != 0 {
        None
    } else if exists|i: int| 0 <= i < s.len() && #[trigger] hex_value(s[i]) is None {
        None
    } else {
        Some(
            Seq::new(
                s.len() / 2,
                |i: int| (hex_value(s[2 * i]).unwrap() * 16 + hex_value(s[2 * i + 1]).unwrap()) as u8,
            ),
        )
    }
}

/// Decoding an encoding gives the bytes back.
pub proof fn lemma_hex_roundtrip(b: Seq<u8>)
    ensures
        spec_hex_decode(spec_hex_encode(b)) == Some(b),
{
    let e = spec_hex_encode(b);
    assert forall|i: int| 0 <= i < e.len() implies #[trigger] hex_value(e[i]) == Some(
        if i % 2 == 0 {
            b[i / 2] / 16
        } else {
            b[i / 2] % 16
        } as int,
    ) by {
        let x = b[i / 2];
        assert(x / 16 < 16) by (bit_vector);
        assert(x % 16 < 16) by (bit_vector);
    }
    assert(e.len() % 2 == 0);
    let d = Seq::new(
        e.len() / 2,
        |i: int| (hex_value(e[2 * i]).unwrap() * 16 + hex_value(e[2 * i + 1]).unwrap()) as u8,
    );
    assert forall|i: int| 0 <= i < b.len() implies d[i] == b[i] by {
        let x = b[i];
        assert(hex_value(e[2 * i]) == Some((x / 16) as int));
        assert(hex_value(e[2 * i + 1]) == Some((x % 16) as int));
        assert((2 * i) / 2 == i);
        assert((2 * i + 1) / 2 == i);
        assert(((x / 16) * 16 + x % 16) as u8 == x) by (bit_vector);
    }
    assert(d =~= b);
}

/// Every character of a hex encoding is a lowercase hex digit.
pub proof fn lemma_hex_encode_chars(b: Seq<u8>)
    ensures
        forall|i: int|
            0 <= i < spec_hex_encode(b).len() ==> {
                let c = #[trigger] spec_hex_encode(b)[i];
                ('0' <= c <= '9') || ('a' <= c <= 'f')
            },
{
    assert forall|i: int| 0 <= i < spec_hex_encode(b).len() implies {
        let c = #[trigger] spec_hex_encode(b)[i];
        ('0' <= c <= '9') || ('a' <= c <= 'f')
    } by {
        let x = b[i / 2];
        assert(x / 16 < 16) by (bit_vector);
        assert(x % 16 < 16) by (bit_vector);
    }
}

/// Calls `hex::encode`, which writes two lowercase hex digits per byte.
#[verifier::external_body]
pub(crate) fn hex_encode(bytes: &[u8]) -> (r: String)
    ensures
        r@ == spec_hex_encode(bytes@),
{
    hex::encode(bytes)
}

#[verifier::external_type_specification]
#[verifier::external_body]
pub struct ExFromHexError(hex::FromHexError);

/// Calls `hex::decode`. The crate works on the UTF-8 bytes: it refuses an odd
/// byte length and any byte that is not a hex digit of either case. A
/// non-ASCII character always leads to an error, so the character-level
/// statement below is the same condition.
#[verifier::external_body]
pub(crate) fn hex_decode(s: &str) -> (r: Result<Vec<u8>, hex::FromHexError>)
    ensures
        match r {
            Ok(v) => spec_hex_decode(s@) == Some(v@),
            Err(_) => spec_hex_decode(s@) is None,
        },
{
    hex::decode(s)
}

/// HMAC-SHA256 of `msg` under `key`, as the `hmac` and `sha2` crates compute it.
pub uninterp spec fn spec_hmac_sha256(key: Seq<u8>, msg: Seq<u8>) -> Seq<u8>;

/// Computes HMAC-SHA256 (`Hmac::<Sha256>::new_from_slice`, `update`,
/// `finalize`). HMAC accepts keys of any length, so the key setup never
/// fails. The tag is the 32-byte SHA-256 output.
#[verifier::external_body]
pub(crate) fn hmac_sha256(key: &[u8], msg: &[u8]) -> (r: Vec<u8>)
    ensures
        r@ == spec_hmac_sha256(key@, msg@),
        r@.len() == 32,
{
    let mut mac = Hmac::<Sha256>::new_from_slice(key).expect("HMAC accepts any key length");
    mac.update(msg);
    mac.finalize().into_bytes().to_vec()
}

/// Checks a tag with `Mac::verify_slice`, a constant-time comparison that
/// succeeds exactly when `tag` equals the full HMAC-SHA256 output.
#[verifier::external_body]
pub(crate) fn hmac_sha256_verify(key: &[u8], msg: &[u8], tag: &[u8]) -> (r: bool)
    ensures
        r == (tag@ == spec_hmac_sha256(key@, msg@)),
{
    let mut mac = Hmac::<Sha256>::new_from_slice(key).expect("HMAC accepts any key length");
    mac.update(msg);
    mac.verify_slice(tag).is_ok()
}

/// The tag of a session ID under a secret: HMAC-SHA256 over their UTF-8 bytes.
pub open spec fn cookie_tag(session_id: Seq<char>, secret: Seq<char>) -> Seq<u8> {
    spec_hmac_sha256(encode_utf8(secret), encode_utf8(session_id))
}

/// The signed cookie value `sid.hmac_hex`.
pub open spec fn signed_value(session_id: Seq<char>, secret: Seq<char>) -> Seq<char> {
    session_id + seq!['.'] + spec_hex_encode(cookie_tag(session_id, secret))
}

/// What verification extracts from a signed value: the part before the first
/// `.`, when the part after it is the hex encoding of that part's tag.
pub open spec fn verified_session_id(signed: Seq<char>, secret: Seq<char>) -> Option<Seq<char>> {
    let d = first_index_of(signed, '.');
    let sid = signed.subrange(0, d);
    let sig = signed.subrange(d + 1, signed.len() as int);
    if d >= signed.len() {
        None
    } else {
        match spec_hex_decode(sig) {
            None => None,
            Some(tag) => if tag == cookie_tag(sid, secret) {
                Some(sid)
            } else {
                None
            },
        }
    }
}

/// Sign a session ID with the given secret, producing `sid.hmac_hex`.
pub fn sign(session_id: &str, secret: &str) -> (r: String)
    ensures
        r@ == signed_value(session_id@, secret@),
        r@.len() == session_id@.len() + 65,
{
    let tag = hmac_sha256(secret.as_bytes(), session_id.as_bytes());
    let hex = hex_encode(tag.as_slice());
    let mut out = String::from_str(session_id);
    out.append(".");
    out.append(hex.as_str());
    proof {
        reveal_strlit(".");
        assert(out@ =~= signed_value(session_id@, secret@));
    }
    out
}

/// Verify and extract the session ID from a signed cookie value.
///
/// Returns `Some(session_id)` if the HMAC matches, `None` otherwise.
pub fn verify_and_extract(signed: &str, secret: &str) -> (r: Option<String>)
    ensures
        match r {
            Some(sid) => verified_session_id(signed@, secret@) == Some(sid@),
            None => verified_session_id(signed@, secret@) is None,
        },
{
    let v = chars_of(signed);
    let d = find_char(&v, '.');
    if d == v.len() {
        return None;
    }
    let sid = string_from_chars(&v, 0, d);
    let sig_hex = string_from_chars(&v, d + 1, v.len());
    let provided = match hex_decode(sig_hex.as_str()) {
        Ok(p) => p,
        Err(_) => return None,
    };
    if hmac_sha256_verify(secret.as_bytes(), sid.as_str().as_bytes(), provided.as_slice()) {
        Some(sid)
    } else {
        None
    }
}

/// Verification gives back the session ID that was signed, for any session ID
/// without a `.` (the first `.` separates the ID from the tag) and any secret.
pub proof fn lemma_sign_then_verify(session_id: Seq<char>, secret: Seq<char>)
    requires
        forall|i: int| 0 <= i < session_id.len() ==> session_id[i] != '.',
    ensures
        verified_session_id(signed_value(session_id, secret), secret) == Some(session_id),
{
    let s = signed_value(session_id, secret);
    let n = session_id.len() as int;
    crate::utils::profile::lemma_first_index_of(s, '.');
    let d = first_index_of(s, '.');
    assert(s[n] == '.');
    if d < n {
        assert(s[d] == session_id[d]);
    }
    assert(d == n);
    assert(s.subrange(0, d) =~= session_id);
    assert(s.subrange(d + 1, s.len() as int) =~= spec_hex_encode(cookie_tag(session_id, secret)));
    lemma_hex_roundtrip(cookie_tag(session_id, secret));
}

} // verus!
