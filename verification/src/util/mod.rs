use vstd::prelude::*;

pub mod input;
use vstd::string::StringSliceAdditionalSpecFns;
use vstd::utf8::{decode_utf8, valid_utf8};

verus! {

/// `std::str::from_utf8`, its error dropped: `Some` exactly when `buf` is
/// well-formed UTF-8, and then the string whose UTF-8 encoding is `buf`.
#[verifier::external_body]
fn str_from_utf8(buf: &[u8]) -> (res: Option<&str>)
    ensures
        res is Some <==> valid_utf8(buf@),
        res matches Some(s) ==> s.spec_bytes() == buf@,
{
    std::str::from_utf8(buf).ok()
}

/// Reads shader source text from its bytes; the bytes must be valid UTF-8.
pub fn read_shader(buf: &[u8]) -> (s: &str)
    requires
        valid_utf8(buf@),
    ensures
        s.spec_bytes() == buf@,
        s@ == decode_utf8(buf@),
{
    match str_from_utf8(buf) {
        Some(v) => {
            proof {
                vstd::utf8::encode_utf8_decode_utf8(v@);
            }
            v
        },
        None => {
            proof {
                assert(false);
            }
            ""
        },
    }
}

} // verus!
