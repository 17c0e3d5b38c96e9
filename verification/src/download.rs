//! Delivery of a finished archive: the payload is wrapped as a `data:` URL
//! carrying its base64 encoding, with a suggested file name and MIME type.
//! The host only has to put the link in front of the user and follow it.

use vstd::prelude::*;
use vstd::string::StringExecFns;

verus! {

/// A download handed to the host: a `data:` URL holding the whole payload,
/// the suggested file name, and the MIME type.
pub struct DownloadRequest {
    pub href: String,
    pub filename: String,
    pub mime: String,
}

/// The URL-safe base64 encoding, without padding, of a byte sequence.
pub uninterp spec fn base64url_of(bytes: Seq<u8>) -> Seq<char>;

/// Relies on `base64_url::encode`: URL-safe base64 without padding, which
/// spends four characters on every three input bytes, rounded up.
#[verifier::external_body]
fn base64url_encode(bytes: &Vec<u8>) -> (r: String)
    ensures
        r@ == base64url_of(bytes@),
        r@.len() == (bytes@.len() * 4 + 2) / 3,
{
    base64_url::encode(bytes.as_slice())
}

/// The characters of a `data:` URL carrying `payload` as base64 under the
/// given MIME type.
pub open spec fn data_url_chars(mime: Seq<char>, payload: Seq<u8>) -> Seq<char> {
    "data:"@ + mime + ";base64,"@ + base64url_of(payload)
}

/// Wraps a payload for delivery: the bytes become a
/// `data:<mime>;base64,<bytes>` URL beside the suggested file name. The
/// host's only job is to follow the link.
pub fn download_file(bytes: Vec<u8>, filename: String, datatype: String) -> (r: DownloadRequest)
    ensures
        r.href@ == data_url_chars(datatype@, bytes@),
        r.filename@ == filename@,
        r.mime@ == datatype@,
{
    let encoded = base64url_encode(&bytes);
    let mut href: String = "data:".to_owned();
    href.append(datatype.as_str());
    href.append(";base64,");
    href.append(encoded.as_str());
    DownloadRequest { href, filename, mime: datatype }
}

/// Wraps a finished archive for delivery as `application/zip`.
pub fn download_zip_file(bytes: Vec<u8>, filename: String) -> (r: DownloadRequest)
    ensures
        r.href@ == data_url_chars("application/zip"@, bytes@),
        r.filename@ == filename@,
        r.mime@ == "application/zip"@,
{
    download_file(bytes, filename, "application/zip".to_owned())
}

/// The suggested archive name for an export taken at the moment `label`.
pub fn zip_filename(label: &str) -> (r: String)
    ensures
        r@ == label@ + " Photos.zip"@,
{
    let mut s: String = label.to_owned();
    s.append(" Photos.zip");
    s
}

} // verus!
