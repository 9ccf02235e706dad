//! Handing a finished image to a web page: PNG bytes as a `data:` URL.

use vstd::prelude::*;
use vstd::string::StringExecFns;

verus! {

/// The standard, padded base64 text (RFC 4648, section 4) of `bytes`.
pub uninterp spec fn base64_text(bytes: Seq<u8>) -> Seq<char>;

/// How many characters the padded base64 text of `len` bytes has: four for
/// every three bytes or part of three.
pub open spec fn encoded_len(len: nat) -> nat {
    if len % 3 == 0 {
        len / 3 * 4
    } else {
        len / 3 * 4 + 4
    }
}

/// What every URL that embeds a PNG image starts with.
pub open spec fn png_prefix() -> Seq<char> {
    "data:image/png;base64,"@
}

/// Calls `base64::encode`, which encodes with the standard alphabet and
/// padding.
///
/// Trusted: the text returned is `base64_text` of the bytes, a function of
/// the bytes alone. The call aborts when the size of the text does not fit
/// in `usize`, which the precondition rules out.
#[verifier::external_body]
fn base64_encode(bytes: &[u8]) -> (text: String)
    requires
        encoded_len(bytes@.len()) <= usize::MAX,
    ensures
        text@ == base64_text(bytes@),
{
    base64::encode(bytes)
}

/// The URL that embeds a PNG image whose base64 text is `encoded`.
pub fn data_url(encoded: &str) -> (url: String)
    ensures
        url@ == png_prefix() + encoded@,
{
    let mut url = String::from_str("data:image/png;base64,");
    url.append(encoded);
    url
}

/// The URL that embeds the PNG image `png`.
pub fn png_data_url(png: &[u8]) -> (url: String)
    requires
        encoded_len(png@.len()) <= usize::MAX,
    ensures
        url@ == png_prefix() + base64_text(png@),
{
    let encoded = base64_encode(png);
    data_url(encoded.as_str())
}

} // verus!
