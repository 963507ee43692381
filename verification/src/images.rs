//! Employee photo handling: decoding an uploaded data URL into bytes and
//! a storage path, and re-encoding stored bytes as a data URL. The caller
//! does the file writes and reads; the decisions happen here.

use vstd::prelude::*;
use crate::models::HrmError;
use crate::text::{copy_range, find_char_from, first_at, is_substring, str_contains, str_ends_with};

verus! {

/// What base64's standard-alphabet decoder returns for a text: the bytes,
/// or nothing when the text is not valid base64. The result depends on
/// the characters alone.
pub uninterp spec fn b64_decode_of(s: Seq<char>) -> Option<Seq<u8>>;

/// What base64's standard-alphabet encoder returns for some bytes. The
/// result depends on the bytes alone.
pub uninterp spec fn b64_encode_of(b: Seq<u8>) -> Seq<char>;

/// Relies on the base64 crate's standard engine: decoding either yields
/// the bytes the text encodes or fails, and depends on the text alone.
#[verifier::external_body]
fn b64_decode(s: &str) -> (r: Option<Vec<u8>>)
    ensures
        r is Some <==> b64_decode_of(s@) is Some,
        r matches Some(v) ==> b64_decode_of(s@) == Some(v@),
{
    base64::Engine::decode(&base64::engine::general_purpose::STANDARD, s).ok()
}

/// Relies on the base64 crate's standard engine: encoding yields the
/// base64 text of the bytes and depends on the bytes alone.
#[verifier::external_body]
fn b64_encode(b: &[u8]) -> (r: String)
    requires
        b@.len() <= usize::MAX / 4,
    ensures
        r@ == b64_encode_of(b@),
{
    base64::Engine::encode(&base64::engine::general_purpose::STANDARD, b)
}

/// The base64 payload of an upload: with a data-URL prefix (anything up
/// to the first comma) the segment between the first comma and the next
/// one or the end; without a comma, the whole text.
pub open spec fn payload_of(s: Seq<char>) -> Seq<char> {
    match first_at(s, ',', 0) {
        Some(a) => match first_at(s, ',', a + 1) {
            Some(b) => s.subrange(a + 1, b),
            None => s.subrange(a + 1, s.len() as int),
        },
        None => s,
    }
}

/// The file extension an upload selects: `png` when the text carries a
/// PNG MIME tag, else `jpg`.
pub open spec fn image_ext(s: Seq<char>) -> Seq<char> {
    if is_substring(s, "image/png"@) {
        "png"@
    } else {
        "jpg"@
    }
}

/// The MIME type a stored path selects: PNG by its extension, else JPEG.
pub open spec fn image_mime(path: Seq<char>) -> Seq<char> {
    if ".png"@.is_suffix_of(path) {
        "image/png"@
    } else {
        "image/jpeg"@
    }
}

/// The relative path an employee's photo is stored under.
pub open spec fn image_rel_path(epf: Seq<char>, ext: Seq<char>) -> Seq<char> {
    "employee_images/"@ + epf + "/photo."@ + ext
}

/// A decoded upload: the image bytes, and the relative path the caller
/// stores them under (and records on the employee).
#[derive(Debug)]
pub struct PreparedImage {
    pub bytes: Vec<u8>,
    pub relative_path: String,
}

/// Decodes an uploaded image: strips the data-URL prefix if present,
/// decodes the base64 payload, picks the extension from the MIME tag
/// (jpg when none), and hands back the bytes with the relative path to
/// store them under. Fails exactly when the payload is not valid base64.
pub fn save_employee_image(epf_number: String, image_data: String) -> (r: Result<
    PreparedImage,
    HrmError,
>)
    ensures
        match r {
            Ok(p) => {
                &&& b64_decode_of(payload_of(image_data@)) == Some(p.bytes@)
                &&& p.relative_path@ == image_rel_path(epf_number@, image_ext(image_data@))
            },
            Err(e) => e == HrmError::ValidationError && b64_decode_of(payload_of(image_data@))
                is None,
        },
{
    let s = image_data.as_str();
    let n = s.unicode_len();
    let payload = match find_char_from(s, 0, ',') {
        Some(a) => {
            let end = match find_char_from(s, a + 1, ',') {
                Some(b) => b,
                None => n,
            };
            copy_range(s, a + 1, end)
        },
        None => image_data.clone(),
    };
    assert(payload@ == payload_of(image_data@));
    let bytes = match b64_decode(payload.as_str()) {
        Some(v) => v,
        None => {
            return Err(HrmError::ValidationError);
        },
    };
    let ext = if str_contains(s, "image/png") {
        "png"
    } else {
        "jpg"
    };
    let mut path = String::from_str("employee_images/");
    path.append(epf_number.as_str());
    path.append("/photo.");
    path.append(ext);
    Ok(PreparedImage { bytes, relative_path: path })
}

/// Re-encodes a stored photo as a data URL, with the MIME type the
/// stored path's extension selects.
pub fn get_employee_image(image_path: String, bytes: &Vec<u8>) -> (r: String)
    requires
        bytes@.len() <= usize::MAX / 4,
    ensures
        r@ == "data:"@ + image_mime(image_path@) + ";base64,"@ + b64_encode_of(bytes@),
{
    let mime = if str_ends_with(image_path.as_str(), ".png") {
        "image/png"
    } else {
        "image/jpeg"
    };
    let encoded = b64_encode(bytes.as_slice());
    let mut url = String::from_str("data:");
    url.append(mime);
    url.append(";base64,");
    url.append(encoded.as_str());
    url
}

} // verus!
