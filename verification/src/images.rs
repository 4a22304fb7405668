//! The compute side of image handling: turning file bytes into a data URL.
//! Reading the file is the caller's concern; this module picks the media
//! type from the (already lower-cased) file extension and assembles the
//! `data:` URL around the base64 encoding of the bytes.

use vstd::prelude::*;
use vstd::string::StringExecFns;

verus! {

/// The standard base64 encoding of a byte string: a function of the bytes
/// alone, named rather than spelled out.
pub uninterp spec fn base64_of(bytes: Seq<u8>) -> Seq<char>;

/// Relies on base64's `Engine::encode` with the standard alphabet: the
/// result depends on the input bytes alone, and no bytes encode to nothing.
#[verifier::external_body]
fn encode_base64(bytes: &Vec<u8>) -> (r: String)
    ensures
        r@ == base64_of(bytes@),
        bytes@.len() == 0 ==> r@.len() == 0,
{
    base64::Engine::encode(&base64::engine::general_purpose::STANDARD, bytes)
}

/// The media type a lower-case file extension selects; anything unknown
/// falls back to PNG, as the import path only produces these kinds.
pub open spec fn mime_of(ext: Seq<char>) -> Seq<char> {
    if ext == "jpg"@ || ext == "jpeg"@ {
        "image/jpeg"@
    } else if ext == "png"@ {
        "image/png"@
    } else if ext == "gif"@ {
        "image/gif"@
    } else if ext == "webp"@ {
        "image/webp"@
    } else if ext == "svg"@ {
        "image/svg+xml"@
    } else {
        "image/png"@
    }
}

/// Character-wise string equality.
fn str_eq(a: &str, b: &str) -> (r: bool)
    ensures
        r == (a@ == b@),
{
    let n = a.unicode_len();
    if n != b.unicode_len() {
        proof {
            assert(a@ != b@) by {
                assert(a@.len() != b@.len());
            }
        }
        return false;
    }
    let mut i: usize = 0;
    while i < n
        invariant
            i <= n,
            n == a@.len() && n == b@.len(),
            forall|j: int| 0 <= j < i ==> a@[j] == b@[j],
        decreases n - i,
    {
        if a.get_char(i) != b.get_char(i) {
            return false;
        }
        i += 1;
    }
    proof {
        assert(a@ =~= b@);
    }
    true
}

/// The media type for a lower-case file extension.
pub fn mime_for_extension(ext: &str) -> (r: &'static str)
    ensures
        r@ == mime_of(ext@),
{
    if str_eq(ext, "jpg") || str_eq(ext, "jpeg") {
        "image/jpeg"
    } else if str_eq(ext, "png") {
        "image/png"
    } else if str_eq(ext, "gif") {
        "image/gif"
    } else if str_eq(ext, "webp") {
        "image/webp"
    } else if str_eq(ext, "svg") {
        "image/svg+xml"
    } else {
        "image/png"
    }
}

/// The data URL for an image's bytes and its lower-case file extension:
/// `data:<media type>;base64,<encoded bytes>`.
pub open spec fn data_url_of(bytes: Seq<u8>, ext: Seq<char>) -> Seq<char> {
    "data:"@ + mime_of(ext) + ";base64,"@ + base64_of(bytes)
}

/// Assembles the data URL around the base64 encoding of the bytes.
pub fn image_data_url(bytes: &Vec<u8>, ext: &str) -> (r: String)
    ensures
        r@ == data_url_of(bytes@, ext@),
{
    let encoded = encode_base64(bytes);
    let mime = mime_for_extension(ext);
    let mut out = String::new();
    out.append("data:");
    out.append(mime);
    out.append(";base64,");
    out.append(encoded.as_str());
    proof {
        assert(out@ =~= data_url_of(bytes@, ext@));
    }
    out
}

} // verus!
