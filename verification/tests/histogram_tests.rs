use photobooth::histogram::{HistogramData, HistogramType, HIST_MAX, SCALE};
use photobooth::record::MyImage;

fn uniform_image(width: u32, height: u32, r: u8, g: u8, b: u8) -> MyImage {
    let mut bytes = Vec::new();
    for _ in 0..(width * height) {
        bytes.push(r);
        bytes.push(g);
        bytes.push(b);
        bytes.push(255);
    }
    MyImage { width, height, bytes, save: true, name: String::from("t"), del: false }
}

#[test]
fn default_histogram_full_scale_rgb() {
    let h = HistogramData::default();
    assert_eq!(h.type_, HistogramType::Rgb);
    assert_eq!(h.data.len(), 192);
    for v in &h.data {
        assert_eq!(*v, SCALE);
    }
}

#[test]
fn scale_constants_match_the_headroom() {
    // HIST_MAX is the scaled 1/1.1: the ceiling every normalised bin stays
    // under, leaving visual headroom below 1.0.
    assert_eq!(SCALE, 65536);
    assert_eq!(HIST_MAX, 59578);
    let ratio = HIST_MAX as f64 / SCALE as f64;
    assert!(ratio <= 1.0 / 1.1);
    assert!(ratio > 1.0 / 1.1 - 0.001);
}

#[test]
fn histogram_type_names() {
    assert_eq!(HistogramType::Rgb.name(), "RGB");
    assert_eq!(HistogramType::OkLab.name(), "OkLab");
    assert_eq!(HistogramType::default(), HistogramType::Rgb);
}

#[test]
fn uniform_rgb_image_one_bin_per_channel() {
    let img = uniform_image(4, 4, 200, 40, 120);
    let mut h = HistogramData::default();
    h.update_rgb(&img);
    let targets = [200usize / 4, 40 / 4, 120 / 4];
    for bin in 0..64usize {
        for c in 0..3usize {
            let v = h.data[bin * 3 + c];
            if bin == targets[c] {
                assert_eq!(v, HIST_MAX);
            } else {
                assert_eq!(v, 0);
            }
        }
    }
}

#[test]
fn empty_image_leaves_all_bins_zero() {
    let img = MyImage::default();
    let mut h = HistogramData::default();
    h.update_rgb(&img);
    for v in &h.data {
        assert_eq!(*v, 0);
    }
}

#[test]
fn every_bin_stays_within_headroom() {
    // A mixed image: a gradient over all channels.
    let mut bytes = Vec::new();
    for i in 0..64u32 {
        bytes.push((i * 4) as u8);
        bytes.push((255 - i * 3) as u8);
        bytes.push((i * 7 % 256) as u8);
        bytes.push(255);
    }
    let img = MyImage { width: 8, height: 8, bytes, save: true, name: String::new(), del: false };
    let mut h = HistogramData::default();
    h.update_rgb(&img);
    for v in &h.data {
        assert!(*v <= HIST_MAX);
    }
    // Something was counted, so some bin reached the maximum.
    assert!(h.data.iter().any(|v| *v == HIST_MAX));
}

#[test]
fn oklab_uniform_image_bins_match_conversion() {
    // The host-side conversion: OkLab coordinates binned per the formulas
    // floor((a + 0.5) * 64), floor((b + 0.5) * 64), floor(l * 63).
    let c = oklab::srgb_to_oklab(oklab::Rgb { r: 255, g: 0, b: 0 });
    let a_bin = (((c.a + 0.5) * 64.0) as usize).min(63);
    let b_bin = (((c.b + 0.5) * 64.0) as usize).min(63);
    let l_bin = ((c.l * 63.0) as usize).min(63);
    let triples = vec![(a_bin, b_bin, l_bin); 12];

    let mut h = HistogramData::default();
    h.type_ = HistogramType::OkLab;
    h.update_oklab(&triples);

    let targets = [a_bin, b_bin, l_bin];
    for bin in 0..64usize {
        for ch in 0..3usize {
            let v = h.data[bin * 3 + ch];
            if bin == targets[ch] {
                // One bin per channel holds every pixel; the lightness
                // channel is normalised against its own maximum, which for
                // a uniform image equals the overall one.
                assert_eq!(v, HIST_MAX);
            } else {
                assert_eq!(v, 0);
            }
        }
    }
}

#[test]
fn oklab_out_of_range_indices_are_clamped() {
    let triples = vec![(200usize, 90usize, 64usize); 5];
    let mut h = HistogramData::default();
    h.type_ = HistogramType::OkLab;
    h.update_oklab(&triples);
    assert_eq!(h.data[63 * 3], HIST_MAX);
    assert_eq!(h.data[63 * 3 + 1], HIST_MAX);
    assert_eq!(h.data[63 * 3 + 2], HIST_MAX);
}
