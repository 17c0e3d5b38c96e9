//! The in-memory representation of one captured frame, plus the small
//! computations of the capture path: downsampling of the source dimensions
//! and validation of the raw pixel buffer.

use vstd::prelude::*;

verus! {

/// One captured frame: raw RGBA pixels plus the user-facing bookkeeping
/// flags that drive export and deletion.
#[derive(Clone, Debug)]
pub struct MyImage {
    pub width: u32,
    pub height: u32,
    /// Interleaved RGBA bytes, row-major, `width` pixels per row.
    pub bytes: Vec<u8>,
    /// Marked for export.
    pub save: bool,
    /// Human-readable label, derived from the capture timestamp.
    pub name: String,
    /// Soft-delete flag; the record is only removed on explicit confirmation.
    pub del: bool,
}

impl MyImage {
    /// A record is well-formed when its buffer holds exactly one RGBA
    /// quadruple per pixel. Anything else is corrupt and is rejected before
    /// histogram or export processing.
    pub open spec fn valid(self) -> bool {
        self.bytes@.len() == self.width * self.height * 4
    }

    /// Checks the buffer-length invariant at run time.
    pub fn is_valid(&self) -> (r: bool)
        ensures
            r == self.valid(),
    {
        proof {
            assert(self.width as u128 * self.height as u128 * 4 <= 0xffff_ffff * 0xffff_ffff * 4)
                by (nonlinear_arith)
                requires
                    self.width <= 0xffff_ffffu32,
                    self.height <= 0xffff_ffffu32,
            ;
        }
        self.bytes.len() as u128 == self.width as u128 * self.height as u128 * 4
    }
}

impl Default for MyImage {
    /// An empty placeholder record, as used for the live preview before the
    /// first capture arrives.
    fn default() -> (r: Self)
        ensures
            r.width == 0,
            r.height == 0,
            r.bytes@ == Seq::<u8>::empty(),
            r.name@ == Seq::<char>::empty(),
            r.save,
            !r.del,
            r.valid(),
    {
        MyImage {
            width: 0,
            height: 0,
            bytes: Vec::new(),
            save: true,
            name: String::new(),
            del: false,
        }
    }
}

/// Why a capture could not produce a record.
#[derive(Clone, Copy, Debug, PartialEq, Eq, Structural)]
pub enum CaptureError {
    /// The capture surface could not be located or sized.
    DeviceUnavailable,
    /// Pixel extraction failed after the surface was sized.
    ReadFailed,
}

/// One source dimension after preview downsampling: divided by 5 for a
/// preview, kept as-is at full quality, and clamped so that a degenerate
/// source never yields a zero-sized record.
pub open spec fn downsampled(n: u32, full_quality: bool) -> int {
    let d: int = if full_quality {
        1
    } else {
        5
    };
    if n as int / d == 0 {
        1
    } else {
        n as int / d
    }
}

/// Dimensions of the record a capture should produce for a source of the
/// given native size.
pub fn capture_dimensions(native_width: u32, native_height: u32, full_quality: bool) -> (dims: (
    u32,
    u32,
))
    ensures
        dims.0 == downsampled(native_width, full_quality),
        dims.1 == downsampled(native_height, full_quality),
{
    let divisor: u32 = if full_quality {
        1
    } else {
        5
    };
    let w: u32 = native_width / divisor;
    let h: u32 = native_height / divisor;
    (
        if w == 0 {
            1
        } else {
            w
        },
        if h == 0 {
            1
        } else {
            h
        },
    )
}

/// Assembles a captured buffer into a record, rejecting a buffer whose
/// length does not match the dimensions. The record starts marked for
/// export and not pending deletion.
pub fn build_record(width: u32, height: u32, bytes: Vec<u8>, name: String) -> (r: Result<
    MyImage,
    CaptureError,
>)
    ensures
        r is Ok <==> bytes@.len() == width * height * 4,
        r matches Ok(img) ==> img == (MyImage {
            width,
            height,
            bytes,
            save: true,
            name,
            del: false,
        }),
        r matches Err(e) ==> e == CaptureError::ReadFailed,
{
    proof {
        assert(width as u128 * height as u128 * 4 <= 0xffff_ffff * 0xffff_ffff * 4)
            by (nonlinear_arith)
            requires
                width <= 0xffff_ffffu32,
                height <= 0xffff_ffffu32,
        ;
    }
    if bytes.len() as u128 == width as u128 * height as u128 * 4 {
        Ok(MyImage { width, height, bytes, save: true, name, del: false })
    } else {
        Err(CaptureError::ReadFailed)
    }
}

/// The two decimal digits of `n`, zero-padded, as ASCII bytes.
pub open spec fn two_digits(n: int) -> Seq<u8> {
    seq![(48 + n / 10) as u8, (48 + n % 10) as u8]
}

/// The four decimal digits of `n`, zero-padded, as ASCII bytes.
pub open spec fn four_digits(n: int) -> Seq<u8> {
    seq![
        (48 + n / 1000) as u8,
        (48 + (n / 100) % 10) as u8,
        (48 + (n / 10) % 10) as u8,
        (48 + n % 10) as u8,
    ]
}

/// The ASCII bytes of a capture label: `YYYY-MM-DD HH-MM-SS`.
pub open spec fn label_bytes(
    year: int,
    month: int,
    day: int,
    hour: int,
    minute: int,
    second: int,
) -> Seq<u8> {
    four_digits(year) + seq![45u8] + two_digits(month) + seq![45u8] + two_digits(day) + seq![32u8]
        + two_digits(hour) + seq![45u8] + two_digits(minute) + seq![45u8] + two_digits(second)
}

/// The capture label as characters.
pub open spec fn label_chars(
    year: int,
    month: int,
    day: int,
    hour: int,
    minute: int,
    second: int,
) -> Seq<char> {
    label_bytes(year, month, day, hour, minute, second).map(|i: int, b: u8| b as char)
}

/// A capture label is exactly 19 ASCII characters — comfortably within an
/// archive entry name's 16-bit length field.
pub proof fn lemma_label_ascii(year: int, month: int, day: int, hour: int, minute: int, second: int)
    requires
        0 <= year < 10000,
        0 <= month < 100,
        0 <= day < 100,
        0 <= hour < 100,
        0 <= minute < 100,
        0 <= second < 100,
    ensures
        label_chars(year, month, day, hour, minute, second).len() == 19,
        vstd::utf8::is_ascii_chars(label_chars(year, month, day, hour, minute, second)),
{
    let lb = label_bytes(year, month, day, hour, minute, second);
    let lc = label_chars(year, month, day, hour, minute, second);
    assert forall|i: int| 0 <= i < lc.len() implies '\0' <= #[trigger] lc[i] <= '\u{7f}' by {
        assert(lb[i] < 128);
        assert(lc[i] == lb[i] as char);
    }
}

/// Relies on `String::from_utf8`: a buffer of ASCII bytes decodes to exactly
/// those characters; on ASCII input the error branch is unreachable.
#[verifier::external_body]
fn ascii_to_string(bytes: Vec<u8>) -> (r: String)
    requires
        forall|i: int| 0 <= i < bytes@.len() ==> bytes@[i] < 128,
    ensures
        r@ == bytes@.map(|i: int, b: u8| b as char),
{
    match String::from_utf8(bytes) {
        Ok(s) => s,
        Err(_) => String::new(),
    }
}

/// Pushes the two zero-padded decimal digits of `n`.
fn push_two_digits(out: &mut Vec<u8>, n: u32)
    requires
        n < 100,
    ensures
        final(out)@ == old(out)@ + two_digits(n as int),
{
    out.push(48 + (n / 10) as u8);
    out.push(48 + (n % 10) as u8);
    assert(out@ =~= old(out)@ + two_digits(n as int));
}

/// Pushes the four zero-padded decimal digits of `n`.
fn push_four_digits(out: &mut Vec<u8>, n: u32)
    requires
        n < 10000,
    ensures
        final(out)@ == old(out)@ + four_digits(n as int),
{
    out.push(48 + (n / 1000) as u8);
    out.push(48 + ((n / 100) % 10) as u8);
    out.push(48 + ((n / 10) % 10) as u8);
    out.push(48 + (n % 10) as u8);
    assert(out@ =~= old(out)@ + four_digits(n as int));
}

/// Formats a capture timestamp as the label `YYYY-MM-DD HH-MM-SS`.
pub fn timestamp_label(year: u32, month: u32, day: u32, hour: u32, minute: u32, second: u32) -> (r:
    String)
    requires
        year < 10000,
        month < 100,
        day < 100,
        hour < 100,
        minute < 100,
        second < 100,
    ensures
        r@ == label_chars(year as int, month as int, day as int, hour as int, minute as int,
            second as int),
{
    let mut out: Vec<u8> = Vec::new();
    push_four_digits(&mut out, year);
    out.push(45);
    push_two_digits(&mut out, month);
    out.push(45);
    push_two_digits(&mut out, day);
    out.push(32);
    push_two_digits(&mut out, hour);
    out.push(45);
    push_two_digits(&mut out, minute);
    out.push(45);
    push_two_digits(&mut out, second);
    proof {
        assert(out@ =~= label_bytes(year as int, month as int, day as int, hour as int,
            minute as int, second as int));
        assert forall|i: int| 0 <= i < out@.len() implies out@[i] < 128 by {
        }
    }
    ascii_to_string(out)
}

} // verus!
