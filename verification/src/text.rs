//! The one trusted step of the library: turning stored bytes back into text.
//! Everything else about text is handled through vstd's UTF-8 theory.

use vstd::prelude::*;
use vstd::utf8::encode_utf8;
use vstd::utf8::valid_utf8;

verus! {

/// Relies on core::str::from_utf8: it succeeds exactly on valid UTF-8 and
/// returns the text whose encoding is the given bytes.
#[verifier::external_body]
pub(crate) fn bytes_as_str(v: &[u8]) -> (r: Option<&str>)
    ensures
        r is Some <==> valid_utf8(v@),
        r matches Some(s) ==> encode_utf8(s@) == v@,
{
    core::str::from_utf8(v).ok()
}

} // verus!
