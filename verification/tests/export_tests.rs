use photobooth::export::{export_photos, ExportError};
use photobooth::histogram::HistogramData;
use photobooth::record::MyImage;
use photobooth::session::Session;

fn uniform_record(name: &str, width: u32, height: u32, rgb: [u8; 3]) -> MyImage {
    let mut bytes = Vec::new();
    for _ in 0..(width * height) {
        bytes.push(rgb[0]);
        bytes.push(rgb[1]);
        bytes.push(rgb[2]);
        bytes.push(255);
    }
    MyImage { width, height, bytes, save: true, name: String::from(name), del: false }
}

fn read_archive(bytes: Vec<u8>) -> Vec<(String, Vec<u8>)> {
    pollster::block_on(async {
        let reader = async_zip::base::read::mem::ZipFileReader::new(bytes).await.unwrap();
        let names: Vec<String> = reader
            .file()
            .entries()
            .iter()
            .map(|e| e.filename().as_str().unwrap().to_string())
            .collect();
        let mut out = Vec::new();
        for (i, name) in names.into_iter().enumerate() {
            let mut entry = reader.reader_without_entry(i).await.unwrap();
            let mut data = Vec::new();
            futures_lite::io::AsyncReadExt::read_to_end(&mut entry, &mut data).await.unwrap();
            out.push((name, data));
        }
        out
    })
}

#[test]
fn exporting_zero_marked_records_yields_valid_empty_archive() {
    let mut a = uniform_record("a", 2, 2, [1, 2, 3]);
    a.save = false;
    let mut b = uniform_record("b", 2, 2, [4, 5, 6]);
    b.save = false;
    let archive = export_photos(&vec![a, b], true).unwrap();
    let entries = read_archive(archive);
    assert_eq!(entries.len(), 0);
}

#[test]
fn exporting_marked_records_yields_one_decodable_jpeg_each() {
    // A non-square size guards against transposed row strides.
    let a = uniform_record("first", 8, 4, [250, 10, 10]);
    let mut skipped = uniform_record("skipped", 8, 4, [0, 255, 0]);
    skipped.save = false;
    let b = uniform_record("second", 8, 4, [10, 10, 250]);
    let c = uniform_record("third", 6, 2, [0, 0, 0]);
    let archive = export_photos(&vec![a, skipped, b, c], true).unwrap();
    let entries = read_archive(archive);
    assert_eq!(entries.len(), 3);
    assert_eq!(entries[0].0, "first");
    assert_eq!(entries[1].0, "second");
    assert_eq!(entries[2].0, "third");
    let expected = [(8u32, 4u32), (8, 4), (6, 2)];
    for (i, (_, payload)) in entries.iter().enumerate() {
        let img = image::load_from_memory(payload).unwrap();
        assert_eq!(img.width(), expected[i].0);
        assert_eq!(img.height(), expected[i].1);
    }
}

#[test]
fn one_pixel_record_exports_fine() {
    // The smallest size the encoder accepts.
    let archive = export_photos(&vec![uniform_record("px", 1, 1, [5, 6, 7])], true).unwrap();
    let entries = read_archive(archive);
    assert_eq!(entries.len(), 1);
    let img = image::load_from_memory(&entries[0].1).unwrap();
    assert_eq!((img.width(), img.height()), (1, 1));
}

#[test]
fn zero_sized_record_cannot_be_encoded() {
    // A 0x0 record has a well-formed (empty) buffer, but JPEG has no
    // representation for it, so the encoder refuses and the export aborts.
    let empty = MyImage {
        width: 0,
        height: 0,
        bytes: Vec::new(),
        save: true,
        name: String::from("z"),
        del: false,
    };
    let r = export_photos(&vec![empty], true);
    assert_eq!(r.unwrap_err(), ExportError::EncodeFailed);
}

#[test]
fn corrupt_marked_record_aborts_with_encode_failed() {
    let mut bad = uniform_record("bad", 4, 4, [9, 9, 9]);
    bad.bytes.pop();
    let good = uniform_record("good", 4, 4, [1, 1, 1]);
    let r = export_photos(&vec![good, bad], true);
    assert_eq!(r.unwrap_err(), ExportError::EncodeFailed);
}

#[test]
fn corrupt_unmarked_record_does_not_block_export() {
    let mut bad = uniform_record("bad", 4, 4, [9, 9, 9]);
    bad.bytes.pop();
    bad.save = false;
    let good = uniform_record("good", 4, 4, [1, 1, 1]);
    let archive = export_photos(&vec![good, bad], true).unwrap();
    assert_eq!(read_archive(archive).len(), 1);
}

#[test]
fn jpeg_disabled_yields_empty_archive() {
    let mut s = Session::default();
    s.take_photo(uniform_record("a", 2, 2, [1, 2, 3]));
    s.save_options.jpg = false;
    let archive = s.save_photos().unwrap();
    assert_eq!(read_archive(archive).len(), 0);
}

#[test]
fn roundtrip_keeps_the_dominant_histogram_bin() {
    // Encode one uniform record, decode the first archive entry back to
    // pixels, and recompute the RGB histogram: the dominant bin per channel
    // must match the one of the original uncompressed pixels.
    let original = uniform_record("shot", 16, 16, [130, 66, 34]);
    let archive = export_photos(&vec![uniform_record("shot", 16, 16, [130, 66, 34])], true)
        .unwrap();
    let entries = read_archive(archive);
    assert_eq!(entries.len(), 1);
    let decoded = image::load_from_memory(&entries[0].1).unwrap().to_rgb8();
    assert_eq!(decoded.width(), 16);
    assert_eq!(decoded.height(), 16);
    let mut rgba = Vec::new();
    for px in decoded.pixels() {
        rgba.push(px.0[0]);
        rgba.push(px.0[1]);
        rgba.push(px.0[2]);
        rgba.push(255);
    }
    let roundtripped =
        MyImage { width: 16, height: 16, bytes: rgba, save: true, name: String::new(), del: false };

    let mut h_orig = HistogramData::default();
    h_orig.update_rgb(&original);
    let mut h_back = HistogramData::default();
    h_back.update_rgb(&roundtripped);

    for c in 0..3usize {
        let dominant = |h: &HistogramData| -> usize {
            let mut best = 0usize;
            for bin in 0..64usize {
                if h.data[bin * 3 + c] > h.data[best * 3 + c] {
                    best = bin;
                }
            }
            best
        };
        assert_eq!(dominant(&h_orig), dominant(&h_back));
    }
}
