use vstd::prelude::*;
use vstd::string::*;
use vstd::utf8::valid_utf8;

use base64::Engine;
use subtle::ConstantTimeEq;

verus! {

/// What the standard base64 alphabet, with padding, decodes `s` to; `None`
/// where `s` is not such an encoding.
pub uninterp spec fn base64_standard_decode(s: Seq<u8>) -> Option<Seq<u8>>;

/// Relies on `base64::engine::general_purpose::STANDARD.decode`: the decoded
/// bytes, or `None` where the input is not valid standard base64.
#[verifier::external_body]
fn decode_base64(input: &[u8]) -> (r: Option<Vec<u8>>)
    ensures
        match r {
            Some(v) => base64_standard_decode(input@) == Some(v@),
            None => base64_standard_decode(input@).is_none(),
        },
{
    base64::engine::general_purpose::STANDARD.decode(input).ok()
}

/// Relies on `std::str::from_utf8`: it succeeds exactly on well-formed UTF-8.
#[verifier::external_body]
fn is_utf8(bytes: &[u8]) -> (r: bool)
    ensures
        r == valid_utf8(bytes@),
{
    std::str::from_utf8(bytes).is_ok()
}

/// Relies on `subtle::ConstantTimeEq::ct_eq` for byte slices: true exactly
/// when the slices are equal; time independent of the contents for equal
/// lengths.
#[verifier::external_body]
fn constant_time_eq(a: &[u8], b: &[u8]) -> (r: bool)
    ensures
        r == (a@ == b@),
{
    a.ct_eq(b).into()
}

/// The authentication scheme prefix, `Basic ` (with the space).
pub open spec fn basic_prefix() -> Seq<u8> {
    seq![66u8, 97u8, 115u8, 105u8, 99u8, 32u8]
}

/// Whether a header's bytes begin with the Basic scheme prefix.
pub open spec fn has_basic_prefix(h: Seq<u8>) -> bool {
    h.len() >= 6 && h.take(6) == basic_prefix()
}

/// Whether decoded credential bytes are text equal to the expected credentials.
pub open spec fn credentials_accepted(decoded: Seq<u8>, expected: Seq<u8>) -> bool {
    valid_utf8(decoded) && decoded == expected
}

/// Whether an `Authorization` header value admits a request whose expected
/// credentials are `expected`.
pub open spec fn header_accepted(header: Option<Seq<u8>>, expected: Seq<u8>) -> bool {
    match header {
        None => false,
        Some(h) => has_basic_prefix(h) && match base64_standard_decode(h.skip(6)) {
            None => false,
            Some(d) => credentials_accepted(d, expected),
        },
    }
}

/// Authorization refuses a missing header and any scheme other than Basic; past
/// the scheme, it admits exactly the credentials that decode to the expected
/// text, so a single differing byte or a different length is refused.
pub proof fn lemma_auth_gate(h: Seq<u8>, expected: Seq<u8>, decoded: Seq<u8>)
    ensures
        !header_accepted(None, expected),
        !has_basic_prefix(h) ==> !header_accepted(Some(h), expected),
        has_basic_prefix(h) && base64_standard_decode(h.skip(6)).is_none() ==> !header_accepted(
            Some(h),
            expected,
        ),
        has_basic_prefix(h) && base64_standard_decode(h.skip(6)) == Some(decoded) ==> (
        header_accepted(Some(h), expected) <==> (decoded == expected && valid_utf8(expected))),
{
}

/// The credential string `username:password` that requests must present.
pub fn expected_credentials(username: &str, password: &str) -> (r: String)
    ensures
        r@ == username@ + seq![':'] + password@,
{
    let mut r = String::from_str(username);
    r.append(":");
    r.append(password);
    proof {
        reveal_strlit(":");
    }
    r
}

/// The part of a header after the Basic scheme prefix, or `None` where the
/// header does not begin with it.
pub fn strip_basic_prefix(header: &[u8]) -> (r: Option<&[u8]>)
    ensures
        match r {
            Some(rest) => has_basic_prefix(header@) && rest@ == header@.skip(6),
            None => !has_basic_prefix(header@),
        },
{
    if header.len() < 6 {
        return None;
    }
    let ok = header[0] == 66u8 && header[1] == 97u8 && header[2] == 115u8 && header[3] == 105u8
        && header[4] == 99u8 && header[5] == 32u8;
    if ok {
        assert(header@.take(6) =~= basic_prefix());
        let (_, rest) = header.split_at(6);
        assert(rest@ =~= header@.skip(6));
        Some(rest)
    } else {
        assert(header@.take(6)[0] == header@[0]);
        assert(header@.take(6)[1] == header@[1]);
        assert(header@.take(6)[2] == header@[2]);
        assert(header@.take(6)[3] == header@[3]);
        assert(header@.take(6)[4] == header@[4]);
        assert(header@.take(6)[5] == header@[5]);
        None
    }
}

/// Whether already-decoded credential bytes are accepted: they must be text,
/// and equal to `expected`, compared in constant time.
pub fn credentials_match(decoded: &[u8], expected: &[u8]) -> (r: bool)
    ensures
        r == credentials_accepted(decoded@, expected@),
{
    if !is_utf8(decoded) {
        return false;
    }
    constant_time_eq(decoded, expected)
}

/// The Basic-auth decision for an `Authorization` header value (absent where
/// the request has none, or where it is not visible ASCII).
pub fn authorize(header: Option<&str>, expected: &str) -> (r: bool)
    ensures
        r == header_accepted(
            match header {
                Some(h) => Some(h.spec_bytes()),
                None => None,
            },
            expected.spec_bytes(),
        ),
{
    let h = match header {
        Some(h) => h,
        None => return false,
    };
    let rest = match strip_basic_prefix(h.as_bytes()) {
        Some(rest) => rest,
        None => return false,
    };
    let decoded = match decode_base64(rest) {
        Some(d) => d,
        None => return false,
    };
    credentials_match(decoded.as_slice(), expected.as_bytes())
}

} // verus!
