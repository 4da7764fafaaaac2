//! The served thumbnail payload: encoded image bytes wrapped as a
//! self-describing base64 data URL with a fixed `image/jpeg` MIME type.

use vstd::prelude::*;
use vstd::string::StringExecFns;
use base64::Engine;

verus! {

/// The standard base64 rendering (with padding) of a byte string. Left
/// uninterpreted: it is a function of the input bytes alone, and its value
/// is the business of the encoding library, not of this crate.
pub uninterp spec fn base64_of(bytes: Seq<u8>) -> Seq<char>;

/// Relies on base64's `STANDARD` engine: the RFC 4648 rendering of the
/// input, determined by the input bytes alone, four characters for every
/// three bytes begun. The engine panics when that output length overflows
/// `usize`, so such inputs are excluded.
#[verifier::external_body]
fn base64_encode(bytes: &[u8]) -> (r: String)
    requires
        bytes@.len() <= usize::MAX / 4 * 3,
    ensures
        r@ == base64_of(bytes@),
        r@.len() == 4 * ((bytes@.len() + 2) / 3),
{
    base64::engine::general_purpose::STANDARD.encode(bytes)
}

/// The payload served for encoded thumbnail bytes: a data URL carrying
/// their base64 rendering.
pub open spec fn data_url_of(bytes: Seq<u8>) -> Seq<char> {
    "data:image/jpeg;base64,"@ + base64_of(bytes)
}

/// Wraps encoded thumbnail bytes as a self-describing data URL.
pub fn to_data_url(bytes: &[u8]) -> (r: String)
    requires
        bytes@.len() <= usize::MAX / 4 * 3,
    ensures
        r@ == data_url_of(bytes@),
{
    let b64 = base64_encode(bytes);
    let mut s = "data:image/jpeg;base64,".to_owned();
    s.append(b64.as_str());
    proof {
        assert(s@ =~= data_url_of(bytes@));
    }
    s
}

} // verus!
