//! Base64 and HMAC-SHA256 as `azure_core` computes them.

use vstd::prelude::*;

verus! {

/// The character of a 6-bit value in the standard base64 alphabet
/// (`A`-`Z`, `a`-`z`, `0`-`9`, `+`, `/`).
pub open spec fn base64_digit(v: int) -> char {
    if v < 26 {
        (65 + v) as char
    } else if v < 52 {
        (97 + (v - 26)) as char
    } else if v < 62 {
        (48 + (v - 52)) as char
    } else if v == 62 {
        '+'
    } else {
        '/'
    }
}

/// Standard base64 encoding with `=` padding (RFC 4648, section 4).
pub open spec fn base64_standard(b: Seq<u8>) -> Seq<char>
    decreases b.len(),
{
    if b.len() == 0 {
        Seq::empty()
    } else {
        let b0 = b[0] as int;
        let b1 = if b.len() > 1 {
            b[1] as int
        } else {
            0
        };
        let b2 = if b.len() > 2 {
            b[2] as int
        } else {
            0
        };
        let c0 = base64_digit(b0 / 4);
        let c1 = base64_digit((b0 % 4) * 16 + b1 / 16);
        let c2 = base64_digit((b1 % 16) * 4 + b2 / 64);
        let c3 = base64_digit(b2 % 64);
        if b.len() == 1 {
            seq![c0, c1, '=', '=']
        } else if b.len() == 2 {
            seq![c0, c1, c2, '=']
        } else {
            seq![c0, c1, c2, c3] + base64_standard(b.skip(3))
        }
    }
}

/// Encodes bytes with `azure_core::base64::encode`, the standard alphabet with
/// padding. The contract states that encoding in full.
#[verifier::external_body]
pub(crate) fn base64_encode(bytes: &[u8]) -> (r: String)
    ensures
        r@ == base64_standard(bytes@),
{
    azure_core::base64::encode(bytes)
}

#[verifier::external_type_specification]
#[verifier::external_body]
pub struct ExAzureCoreError(azure_core::Error);

/// The base64 text of the HMAC-SHA256 of the UTF-8 bytes of `data` under the key whose
/// base64 text is `key_base64`, as `azure_core::hmac::hmac_sha256` computes it, or
/// `None` where it fails.
pub uninterp spec fn hmac_sha256_signature(data: Seq<char>, key_base64: Seq<char>) -> Option<
    Seq<char>,
>;

/// Signs `data` with `azure_core::hmac::hmac_sha256`, the key given as base64 text
/// (wrapped into an `azure_core::credentials::Secret`).
///
/// The contract names the signature. It states the one fact about failure that the
/// source shows for a key that is a standard base64 text: the key decodes, an HMAC
/// accepts a key of any length, so signing succeeds. It does not state which other
/// texts are accepted as keys.
#[verifier::external_body]
pub(crate) fn hmac_sha256(data: &str, key_base64: &str) -> (r: Result<String, azure_core::Error>)
    ensures
        match r {
            Ok(s) => hmac_sha256_signature(data@, key_base64@) == Some(s@),
            Err(_) => hmac_sha256_signature(data@, key_base64@) is None,
        },
        (exists|b: Seq<u8>| key_base64@ == base64_standard(b)) ==> r is Ok,
{
    let secret = azure_core::credentials::Secret::new(key_base64.to_string());
    azure_core::hmac::hmac_sha256(data, &secret)
}

} // verus!
