//! Archive export: every record marked for export is re-encoded as a JPEG
//! and streamed, in collection order, into one in-memory ZIP archive with
//! DEFLATE entry compression.
//!
//! The pixel work — dropping the alpha channel with the record's own width
//! as the row stride — is verified here; the JPEG encoder and the archive
//! writer are outside crates reached through trusted wrappers whose results
//! are named functions of their inputs.

use vstd::arithmetic::div_mod::{lemma_div_by_multiple, lemma_fundamental_div_mod,
    lemma_fundamental_div_mod_converse};
use vstd::prelude::*;

use crate::record::MyImage;

verus! {

/// Why an export failed. No partial archive is ever returned: the first
/// failing entry aborts the whole export.
#[derive(Clone, Copy, Debug, PartialEq, Eq, Structural)]
pub enum ExportError {
    /// A marked record was corrupt (buffer length not matching its
    /// dimensions) or the image encoder refused it.
    EncodeFailed,
    /// The archive writer failed on the in-memory sink.
    WriteFailed,
}

#[verifier::external_type_specification]
#[verifier::external_body]
#[verifier::reject_recursive_types(W)]
pub struct ExZipFileWriter<W>(async_zip::base::write::ZipFileWriter<W>);

#[verifier::external_type_specification]
#[verifier::external_body]
pub struct ExZipError(async_zip::error::ZipError);

#[verifier::external_type_specification]
#[verifier::external_body]
pub struct ExImageError(image::ImageError);

/// The entries (name, payload) written so far to an in-memory archive
/// writer, in order.
pub uninterp spec fn zip_entries(w: async_zip::base::write::ZipFileWriter<Vec<u8>>) -> Seq<
    (Seq<char>, Seq<u8>),
>;

/// The bytes of the finished archive holding the given entries. The writer
/// stamps no clock and draws no randomness, so the archive is a function of
/// the entries alone.
pub uninterp spec fn zip_bytes(entries: Seq<(Seq<char>, Seq<u8>)>) -> Seq<u8>;

/// The JPEG stream (default quality) encoding a `width` x `height` grid of
/// RGB triples.
pub uninterp spec fn jpeg_bytes(width: u32, height: u32, rgb: Seq<u8>) -> Seq<u8>;

/// Relies on `async_zip::base::write::ZipFileWriter::new`: a fresh writer
/// over an empty in-memory sink holds no entries. The constructor leaves
/// zip64 unrestricted, so the writers of this module never take the
/// `force_no_zip64` error paths; the success clauses below rest on that.
#[verifier::external_body]
fn zip_writer_new() -> (w: async_zip::base::write::ZipFileWriter<Vec<u8>>)
    ensures
        zip_entries(w) == Seq::<(Seq<char>, Seq<u8>)>::empty(),
{
    async_zip::base::write::ZipFileWriter::new(Vec::new())
}

/// Relies on `ZipFileWriter::write_entry_whole` with
/// `Compression::Deflate`: on success exactly one entry with the given name
/// and payload has been appended. For an ASCII name whose length fits the
/// header's 16-bit field the call is sure to succeed: the entry carries an
/// empty comment and no extra fields, oversized payloads and offsets
/// upgrade to zip64 instead of failing (zip64 is unrestricted on writers of
/// this module), and writes into the in-memory `Vec<u8>` sink cannot fail.
#[verifier::external_body]
fn zip_write_entry(
    w: &mut async_zip::base::write::ZipFileWriter<Vec<u8>>,
    name: &str,
    data: &Vec<u8>,
) -> (r: Result<(), async_zip::error::ZipError>)
    ensures
        r is Ok ==> zip_entries(*final(w)) == zip_entries(*old(w)).push((name@, data@)),
        r is Err ==> !(vstd::utf8::is_ascii_chars(name@) && name@.len() <= 0xffff),
{
    let entry = async_zip::ZipEntryBuilder::new(
        name.to_owned().into(),
        async_zip::Compression::Deflate,
    );
    pollster::block_on(w.write_entry_whole(entry, data.as_slice()))
}

/// Relies on `ZipFileWriter::close`: the returned sink holds the complete
/// archive — central directory and trailer included — of the entries
/// written. Closing succeeds: with zip64 unrestricted (as `zip_writer_new`
/// leaves it) the only remaining failure path is sink I/O, and writes into
/// the in-memory `Vec<u8>` cannot fail.
#[verifier::external_body]
fn zip_writer_close(w: async_zip::base::write::ZipFileWriter<Vec<u8>>) -> (r: Result<
    Vec<u8>,
    async_zip::error::ZipError,
>)
    ensures
        r is Ok,
        r matches Ok(bytes) ==> bytes@ == zip_bytes(zip_entries(w)),
{
    pollster::block_on(w.close())
}

/// Relies on `image::codecs::jpeg::JpegEncoder` at default quality: the
/// encoded stream is a function of the dimensions and the RGB bytes alone,
/// and with a buffer of exactly `width * height` RGB triples the length
/// check at its entry cannot fire. The call succeeds exactly when both
/// dimensions fit JPEG's 16-bit range `1..=65535`: outside it the encoder
/// returns its invalid-size error, inside it the only other failure path is
/// writer I/O, and writes into the in-memory `Vec<u8>` cannot fail.
#[verifier::external_body]
fn encode_jpeg(width: u32, height: u32, rgb: &Vec<u8>) -> (r: Result<Vec<u8>, image::ImageError>)
    requires
        rgb@.len() == width * height * 3,
    ensures
        r is Ok ==> 1 <= width && width <= 0xffff && 1 <= height && height <= 0xffff,
        r is Err ==> !(1 <= width && width <= 0xffff && 1 <= height && height <= 0xffff),
        r matches Ok(bytes) ==> bytes@ == jpeg_bytes(width, height, rgb@),
{
    let mut out: Vec<u8> = Vec::new();
    let mut encoder = image::codecs::jpeg::JpegEncoder::new(&mut out);
    match encoder.encode(rgb.as_slice(), width, height, image::ExtendedColorType::Rgb8) {
        Ok(()) => Ok(out),
        Err(e) => Err(e),
    }
}

/// The RGB bytes of an RGBA buffer: every fourth byte (alpha) dropped.
pub open spec fn rgb_of(rgba: Seq<u8>) -> Seq<u8> {
    Seq::new((rgba.len() / 4 * 3) as nat, |j: int| rgba[j / 3 * 4 + j % 3])
}

/// Drops the alpha channel of a record's pixel buffer, walking the pixels
/// row-major with the record's own width as the row stride.
fn strip_alpha(image: &MyImage) -> (rgb: Vec<u8>)
    requires
        image.valid(),
    ensures
        rgb@ == rgb_of(image.bytes@),
        rgb@.len() == image.width * image.height * 3,
{
    let n_pix = image.bytes.len() / 4;
    let mut rgb: Vec<u8> = Vec::new();
    for i in 0..n_pix
        invariant
            image.bytes@.len() <= usize::MAX,
            n_pix == image.bytes@.len() as int / 4,
            rgb@.len() == 3 * i,
            forall|j: int|
                0 <= j < 3 * i ==> #[trigger] rgb@[j] == image.bytes@[j / 3 * 4 + j % 3],
    {
        proof {
            lemma_fundamental_div_mod(image.bytes@.len() as int, 4);
            assert(i as int * 4 + 2 < image.bytes@.len());
        }
        rgb.push(image.bytes[i * 4]);
        rgb.push(image.bytes[i * 4 + 1]);
        rgb.push(image.bytes[i * 4 + 2]);
        proof {
            let gi = i as int;
            assert forall|j: int| 0 <= j < 3 * (gi + 1) implies #[trigger] rgb@[j]
                == image.bytes@[j / 3 * 4 + j % 3] by {
                if j >= 3 * gi {
                    lemma_fundamental_div_mod_converse(j, 3, gi, j - 3 * gi);
                }
            }
        }
    }
    proof {
        lemma_fundamental_div_mod(image.bytes@.len() as int, 4);
        assert(rgb@ =~= rgb_of(image.bytes@));
        lemma_div_by_multiple(image.width as int * image.height as int, 4);
        assert(image.bytes@.len() as int / 4 == image.width as int * image.height as int);
    }
    rgb
}

/// The archive entry a record exports to: its label names an entry whose
/// payload is the JPEG encoding of its pixels.
pub open spec fn entry_of(p: MyImage) -> (Seq<char>, Seq<u8>) {
    (p.name@, jpeg_bytes(p.width, p.height, rgb_of(p.bytes@)))
}

/// The entries exported for the first `n` records: one JPEG entry per
/// marked record, in collection order; none when JPEG encoding is switched
/// off.
pub open spec fn export_entries(photos: Seq<MyImage>, n: int, jpg: bool) -> Seq<
    (Seq<char>, Seq<u8>),
>
    decreases n,
{
    if n <= 0 || !jpg {
        Seq::empty()
    } else {
        let rest = export_entries(photos, n - 1, jpg);
        if photos[n - 1].save {
            rest.push(entry_of(photos[n - 1]))
        } else {
            rest
        }
    }
}

/// How many of the first `n` records are marked for export.
pub open spec fn marked_count(photos: Seq<MyImage>, n: int) -> nat
    decreases n,
{
    if n <= 0 {
        0
    } else {
        marked_count(photos, n - 1) + (
        if photos[n - 1].save {
            1nat
        } else {
            0nat
        })
    }
}

/// Exporting with JPEG on yields exactly one archive entry per marked
/// record.
pub proof fn lemma_export_entries_len(photos: Seq<MyImage>, n: int)
    requires
        0 <= n <= photos.len(),
    ensures
        export_entries(photos, n, true).len() == marked_count(photos, n),
    decreases n,
{
    if n > 0 {
        lemma_export_entries_len(photos, n - 1);
    }
}

/// With no record marked for export, nothing is exported: the entry list is
/// empty whatever the encoding options say.
pub proof fn lemma_no_marked_no_entries(photos: Seq<MyImage>, n: int, jpg: bool)
    requires
        0 <= n <= photos.len(),
        marked_count(photos, n) == 0,
    ensures
        export_entries(photos, n, jpg).len() == 0,
    decreases n,
{
    if n > 0 {
        lemma_no_marked_no_entries(photos, n - 1, jpg);
    }
}

/// Whether some record marked for export has a corrupt pixel buffer.
pub open spec fn has_invalid_marked(photos: Seq<MyImage>) -> bool {
    exists|i: int| 0 <= i < photos.len() && photos[i].save && !(#[trigger] photos[i]).valid()
}

/// A record the encoder and the archive writer are sure to accept: both
/// dimensions within JPEG's 16-bit range, and an ASCII label short enough
/// for the archive header's 16-bit name-length field. Every capture-flow
/// record qualifies (labels are 19 ASCII characters, dimensions come from a
/// clamped downsample of a real surface).
pub open spec fn exportable(p: MyImage) -> bool {
    &&& 1 <= p.width <= 0xffff
    &&& 1 <= p.height <= 0xffff
    &&& vstd::utf8::is_ascii_chars(p.name@)
    &&& p.name@.len() <= 0xffff
}

/// Whether every record marked for export is sure to be accepted.
pub open spec fn marked_exportable(photos: Seq<MyImage>) -> bool {
    forall|i: int| 0 <= i < photos.len() && (#[trigger] photos[i]).save ==> exportable(photos[i])
}

/// Encodes every record marked for export into one in-memory ZIP archive,
/// one DEFLATE-compressed JPEG entry per record, named by the record's
/// label, in collection order. A corrupt marked record aborts the export
/// before anything is encoded; a failing encoder aborts it with
/// `EncodeFailed`, a failing archive writer with `WriteFailed`; no partial
/// archive is ever returned. On well-formed input — no corrupt marked
/// record, and (when JPEG is on) every marked record within the encoder's
/// and the archive header's limits — the export succeeds.
pub fn export_photos(photos: &Vec<MyImage>, jpg: bool) -> (r: Result<Vec<u8>, ExportError>)
    ensures
        has_invalid_marked(photos@) ==> r == Err::<Vec<u8>, ExportError>(ExportError::EncodeFailed),
        !has_invalid_marked(photos@) && (jpg ==> marked_exportable(photos@)) ==> r is Ok,
        r matches Ok(bytes) ==> !has_invalid_marked(photos@) && bytes@ == zip_bytes(
            export_entries(photos@, photos@.len() as int, jpg),
        ),
{
    for idx in 0..photos.len()
        invariant
            forall|i: int| 0 <= i < idx ==> !((#[trigger] photos@[i]).save && !photos@[i].valid()),
    {
        let p = &photos[idx];
        if p.save && !p.is_valid() {
            proof {
                assert(photos@[idx as int].save && !photos@[idx as int].valid());
                assert(has_invalid_marked(photos@));
            }
            return Err(ExportError::EncodeFailed);
        }
    }
    let mut writer = zip_writer_new();
    for idx in 0..photos.len()
        invariant
            !has_invalid_marked(photos@),
            zip_entries(writer) == export_entries(photos@, idx as int, jpg),
    {
        let p = &photos[idx];
        if jpg && p.save {
            proof {
                assert(photos@[idx as int].valid());
            }
            let rgb = strip_alpha(p);
            let encoded = match encode_jpeg(p.width, p.height, &rgb) {
                Ok(b) => b,
                Err(_) => {
                    proof {
                        if marked_exportable(photos@) {
                            assert(exportable(photos@[idx as int]));
                            assert(false);
                        }
                    }
                    return Err(ExportError::EncodeFailed);
                },
            };
            match zip_write_entry(&mut writer, p.name.as_str(), &encoded) {
                Ok(_) => (),
                Err(_) => {
                    proof {
                        if marked_exportable(photos@) {
                            assert(exportable(photos@[idx as int]));
                            assert(false);
                        }
                    }
                    return Err(ExportError::WriteFailed);
                },
            }
        }
    }
    match zip_writer_close(writer) {
        Ok(bytes) => Ok(bytes),
        Err(_) => Err(ExportError::WriteFailed),
    }
}

} // verus!
