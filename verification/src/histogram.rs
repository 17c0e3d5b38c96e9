//! Binned colour histograms over a captured frame, in plain RGB or in a
//! perceptually uniform lightness/opponent-colour space.
//!
//! The table holds 64 bins for each of 3 channels, flattened as
//! `bin * 3 + channel`. An update first counts, per channel, how many pixels
//! fall into each bin, then normalises every count in place to the fixed
//! scale `SCALE`: each bin becomes `count * 10 * SCALE / (11 * max)`, so the
//! largest bin lands at `SCALE / 1.1` (the constant `HIST_MAX`) and every
//! bin stays strictly below `SCALE`, leaving visual headroom when the table
//! is plotted. An image with no pixels leaves every bin at zero instead of
//! dividing by the zero maximum.
//!
//! RGB binning is computed here from the raw bytes. Perceptual binning
//! depends on a floating-point colour-space conversion that cannot cross
//! into verified code, so the host converts each pixel to its three bin
//! indices (a-axis, b-axis, lightness) and hands them in as plain values;
//! everything from there on — counting, maxima, normalisation — is the
//! same verified path as RGB.

use vstd::arithmetic::div_mod::{
    lemma_div_basics,
    lemma_div_is_ordered, lemma_div_multiples_vanish_quotient, lemma_fundamental_div_mod,
    lemma_fundamental_div_mod_converse,
};
use vstd::arithmetic::mul::lemma_mul_inequality;
use vstd::prelude::*;

use crate::record::MyImage;

verus! {

/// The fixed-point scale of a normalised bin: `SCALE` stands for 1.0.
pub const SCALE: u64 = 65536;

/// Numerator applied when normalising: `count * NORM_NUM / (11 * max)`
/// equals `count / (max * 1.1)` at scale `SCALE`.
pub const NORM_NUM: u64 = 10 * 65536;

/// The largest value a normalised bin can take: `SCALE / 1.1`.
pub const HIST_MAX: u64 = (10 * 65536) / 11;

/// Which colour space an update bins the pixels in.
#[derive(Clone, Copy, Debug, PartialEq, Eq, Structural)]
pub enum HistogramType {
    Rgb,
    OkLab,
}

impl HistogramType {
    /// Display name of the colour space.
    pub fn name(&self) -> (r: &'static str)
        ensures
            *self is Rgb ==> r@ == "RGB"@,
            *self is OkLab ==> r@ == "OkLab"@,
    {
        match self {
            HistogramType::Rgb => "RGB",
            HistogramType::OkLab => "OkLab",
        }
    }
}

impl Default for HistogramType {
    fn default() -> (r: Self)
        ensures
            r == HistogramType::Rgb,
    {
        HistogramType::Rgb
    }
}

/// One pixel's three bin indices, one per channel slot of the table.
pub open spec fn component(tr: (usize, usize, usize), c: int) -> int {
    if c == 0 {
        tr.0 as int
    } else if c == 1 {
        tr.1 as int
    } else {
        tr.2 as int
    }
}

/// A triple with every index clamped below 64, as the table requires.
pub open spec fn clamp_triple(tr: (usize, usize, usize)) -> (usize, usize, usize) {
    (
        if tr.0 > 63 {
            63usize
        } else {
            tr.0
        },
        if tr.1 > 63 {
            63usize
        } else {
            tr.1
        },
        if tr.2 > 63 {
            63usize
        } else {
            tr.2
        },
    )
}

/// The clamped form of a whole triple sequence.
pub open spec fn clamped_triples(trs: Seq<(usize, usize, usize)>) -> Seq<(usize, usize, usize)> {
    trs.map(|i: int, tr: (usize, usize, usize)| clamp_triple(tr))
}

/// The bin triples of RGB binning: each channel value divided by 4, giving
/// 64 bins of width 4 over the 256 intensity levels.
pub open spec fn rgb_triples(pixels: Seq<u8>) -> Seq<(usize, usize, usize)> {
    Seq::new(
        (pixels.len() / 4) as nat,
        |i: int|
            (
                (pixels[4 * i] / 4) as usize,
                (pixels[4 * i + 1] / 4) as usize,
                (pixels[4 * i + 2] / 4) as usize,
            ),
    )
}

/// How many of the first `n` triples fall into bin `bin` on channel `c`.
pub open spec fn bin_count(trs: Seq<(usize, usize, usize)>, n: int, c: int, bin: int) -> nat
    decreases n,
{
    if n <= 0 {
        0
    } else {
        bin_count(trs, n - 1, c, bin) + (
        if component(trs[n - 1], c) == bin {
            1nat
        } else {
            0nat
        })
    }
}

/// How many triples of the whole sequence fall into bin `bin` on channel
/// `c`.
pub open spec fn channel_count(trs: Seq<(usize, usize, usize)>, c: int, bin: int) -> nat {
    bin_count(trs, trs.len() as int, c, bin)
}

/// The largest count among the table entries with flat index below `k`
/// (entry `k` covers channel `k % 3` of bin `k / 3`).
pub open spec fn max_count_upto(trs: Seq<(usize, usize, usize)>, k: int) -> nat
    decreases k,
{
    if k <= 0 {
        0
    } else {
        vstd::math::max(
            max_count_upto(trs, k - 1) as int,
            channel_count(trs, (k - 1) % 3, (k - 1) / 3) as int,
        ) as nat
    }
}

/// The largest count across all 64 x 3 table entries.
pub open spec fn overall_max(trs: Seq<(usize, usize, usize)>) -> nat {
    max_count_upto(trs, 192)
}

/// The largest count among the first `k` bins of the lightness channel.
pub open spec fn light_max_upto(trs: Seq<(usize, usize, usize)>, k: int) -> nat
    decreases k,
{
    if k <= 0 {
        0
    } else {
        vstd::math::max(
            light_max_upto(trs, k - 1) as int,
            channel_count(trs, 2, k - 1) as int,
        ) as nat
    }
}

/// The largest count across the 64 bins of the lightness channel.
pub open spec fn light_max(trs: Seq<(usize, usize, usize)>) -> nat {
    light_max_upto(trs, 64)
}

/// The maximum a channel is normalised against. When the lightness channel
/// is normalised independently (`split_light`, the perceptual mode), slot 2
/// uses its own maximum; every other channel uses the overall maximum.
pub open spec fn norm_denominator(
    trs: Seq<(usize, usize, usize)>,
    c: int,
    split_light: bool,
) -> nat {
    if split_light && c == 2 {
        light_max(trs)
    } else {
        overall_max(trs)
    }
}

/// A count normalised against a maximum `m`: `count / (m * 1.1)` at scale
/// `SCALE`, or zero when the maximum is zero.
pub open spec fn norm_value(count: nat, m: nat) -> int {
    if m == 0 {
        0
    } else {
        (count as int * NORM_NUM as int) / (11 * m as int)
    }
}

/// The final value of the table entry for bin `bin` of channel `c` after an
/// update over the triples `trs`.
pub open spec fn normalized_bin(
    trs: Seq<(usize, usize, usize)>,
    c: int,
    bin: int,
    split_light: bool,
) -> int {
    norm_value(channel_count(trs, c, bin), norm_denominator(trs, c, split_light))
}

/// Every channel count is bounded by the maximum over a range of table
/// entries covering it.
proof fn lemma_count_le_max_upto(trs: Seq<(usize, usize, usize)>, c: int, bin: int, k: int)
    requires
        0 <= c < 3,
        0 <= bin,
        bin * 3 + c < k,
    ensures
        channel_count(trs, c, bin) <= max_count_upto(trs, k),
    decreases k,
{
    if k - 1 == bin * 3 + c {
        lemma_fundamental_div_mod_converse(k - 1, 3, bin, c);
    } else {
        lemma_count_le_max_upto(trs, c, bin, k - 1);
    }
}

/// Every lightness-channel count is bounded by the lightness maximum.
proof fn lemma_count_le_light_upto(trs: Seq<(usize, usize, usize)>, bin: int, k: int)
    requires
        0 <= bin < k,
    ensures
        channel_count(trs, 2, bin) <= light_max_upto(trs, k),
    decreases k,
{
    if bin < k - 1 {
        lemma_count_le_light_upto(trs, bin, k - 1);
    }
}

/// A normalised value never exceeds `HIST_MAX`, the scaled `1 / 1.1`.
proof fn lemma_norm_le(count: nat, m: nat)
    requires
        count <= m,
    ensures
        0 <= norm_value(count, m) <= HIST_MAX,
{
    if m != 0 {
        let n = NORM_NUM as int;
        lemma_mul_inequality(count as int, m as int, n);
        lemma_div_is_ordered(0, count as int * n, 11 * m as int);
        lemma_div_is_ordered(count as int * n, m as int * n, 11 * m as int);
        lemma_div_multiples_vanish_quotient(m as int, n, 11);
        assert((m as int * n) / (m as int * 11) == n / 11);
        assert(m as int * 11 == 11 * m as int);
    }
}

/// A count over `k` triples never exceeds `k`.
proof fn lemma_bin_count_le(trs: Seq<(usize, usize, usize)>, k: int, c: int, bin: int)
    requires
        0 <= k,
    ensures
        bin_count(trs, k, c, bin) <= k,
    decreases k,
{
    if k > 0 {
        lemma_bin_count_le(trs, k - 1, c, bin);
    }
}

/// No table entry can count more triples than there are.
proof fn lemma_max_upto_le_len(trs: Seq<(usize, usize, usize)>, k: int)
    requires
        0 <= k,
    ensures
        max_count_upto(trs, k) <= trs.len(),
    decreases k,
{
    if k > 0 {
        lemma_max_upto_le_len(trs, k - 1);
        lemma_bin_count_le(trs, trs.len() as int, (k - 1) % 3, (k - 1) / 3);
    }
}

/// Counting over a run of identical triples: the matching bin holds all of
/// them, every other bin none.
proof fn lemma_uniform_bin_count(
    trs: Seq<(usize, usize, usize)>,
    tr: (usize, usize, usize),
    k: int,
    c: int,
    bin: int,
)
    requires
        0 <= k <= trs.len(),
        forall|i: int| 0 <= i < trs.len() ==> trs[i] == tr,
    ensures
        bin_count(trs, k, c, bin) == if component(tr, c) == bin {
            k as nat
        } else {
            0nat
        },
    decreases k,
{
    if k > 0 {
        lemma_uniform_bin_count(trs, tr, k - 1, c, bin);
    }
}

/// A fully uniform triple sequence — every pixel the same colour — yields,
/// per channel, exactly one non-empty bin, and normalisation puts that bin
/// at `HIST_MAX`, the scaled `1/1.1`, leaving every other bin of the
/// channel at zero.
pub proof fn lemma_uniform_histogram(trs: Seq<(usize, usize, usize)>, tr: (usize, usize, usize))
    requires
        trs.len() > 0,
        forall|i: int| 0 <= i < trs.len() ==> trs[i] == tr,
        tr.0 < 64 && tr.1 < 64 && tr.2 < 64,
    ensures
        forall|c: int, bin: int|
            0 <= c < 3 && 0 <= bin < 64 ==> #[trigger] normalized_bin(trs, c, bin, false) == (
            if bin == component(tr, c) {
                HIST_MAX as int
            } else {
                0int
            }),
{
    let n = trs.len() as int;
    assert forall|c: int, bin: int| 0 <= c < 3 && 0 <= bin < 64 implies #[trigger] normalized_bin(
        trs,
        c,
        bin,
        false,
    ) == (
    if bin == component(tr, c) {
        HIST_MAX as int
    } else {
        0int
    }) by {
        lemma_uniform_bin_count(trs, tr, n, c, bin);
        lemma_uniform_bin_count(trs, tr, n, 0, component(tr, 0));
        lemma_max_upto_le_len(trs, 192);
        lemma_count_le_max_upto(trs, 0, component(tr, 0), 192);
        assert(overall_max(trs) == n);
        if bin == component(tr, c) {
            let nn = NORM_NUM as int;
            lemma_div_multiples_vanish_quotient(n, nn, 11);
            assert((n * nn) / (n * 11) == nn / 11);
            assert(n * 11 == 11 * n);
        } else {
            lemma_div_basics(11 * n);
            assert(0int * NORM_NUM as int == 0);
        }
    }
}

/// The RGB triples of a uniform image: every pixel maps to the same triple
/// of bins, each channel value divided by 4.
pub proof fn lemma_uniform_rgb_triples(pixels: Seq<u8>, r: u8, g: u8, b: u8)
    requires
        forall|j: int|
            0 <= j < pixels.len() && j % 4 != 3 ==> pixels[j] == (
            if j % 4 == 0 {
                r
            } else if j % 4 == 1 {
                g
            } else {
                b
            }),
    ensures
        forall|i: int|
            0 <= i < rgb_triples(pixels).len() ==> #[trigger] rgb_triples(pixels)[i] == (
                ((r / 4) as usize),
                ((g / 4) as usize),
                ((b / 4) as usize),
            ),
{
    assert forall|i: int| 0 <= i < rgb_triples(pixels).len() implies #[trigger] rgb_triples(
        pixels,
    )[i] == (((r / 4) as usize), ((g / 4) as usize), ((b / 4) as usize)) by {
        lemma_fundamental_div_mod(pixels.len() as int, 4);
        lemma_fundamental_div_mod_converse(4 * i, 4, i, 0);
        lemma_fundamental_div_mod_converse(4 * i + 1, 4, i, 1);
        lemma_fundamental_div_mod_converse(4 * i + 2, 4, i, 2);
    }
}

/// A fully uniform-colour image in RGB mode: after an update, each channel
/// has exactly one non-empty bin — the channel value divided by 4 — and
/// normalisation puts it at `HIST_MAX`, the scaled `1/1.1`.
pub proof fn lemma_uniform_rgb_image(pixels: Seq<u8>, r: u8, g: u8, b: u8)
    requires
        pixels.len() >= 4,
        forall|j: int|
            0 <= j < pixels.len() && j % 4 != 3 ==> pixels[j] == (
            if j % 4 == 0 {
                r
            } else if j % 4 == 1 {
                g
            } else {
                b
            }),
    ensures
        forall|c: int, bin: int|
            0 <= c < 3 && 0 <= bin < 64 ==> #[trigger] normalized_bin(
                rgb_triples(pixels),
                c,
                bin,
                false,
            ) == (
            if bin == component((((r / 4) as usize), ((g / 4) as usize), ((b / 4) as usize)), c) {
                HIST_MAX as int
            } else {
                0int
            }),
{
    lemma_uniform_rgb_triples(pixels, r, g, b);
    lemma_uniform_histogram(
        rgb_triples(pixels),
        (((r / 4) as usize), ((g / 4) as usize), ((b / 4) as usize)),
    );
}

/// The 64 x 3 table of one histogram, recomputed from scratch on every
/// update.
pub struct HistogramData {
    pub type_: HistogramType,
    /// Flattened table: entry `bin * 3 + channel`, at scale `SCALE` once
    /// normalised.
    pub data: Vec<u64>,
}

impl HistogramData {
    /// The table always holds exactly 64 bins of 3 channels.
    pub open spec fn wf(self) -> bool {
        self.data@.len() == 192
    }
}

impl Default for HistogramData {
    /// A fresh table in RGB mode with every entry at full scale, as shown
    /// before the first update.
    fn default() -> (r: Self)
        ensures
            r.type_ == HistogramType::Rgb,
            r.wf(),
            forall|k: int| 0 <= k < 192 ==> r.data@[k] == SCALE,
    {
        let mut data: Vec<u64> = Vec::new();
        for k in 0..192usize
            invariant
                data@.len() == k,
                forall|j: int| 0 <= j < k ==> data@[j] == SCALE,
        {
            data.push(SCALE);
        }
        HistogramData { type_: HistogramType::Rgb, data }
    }
}

/// A zeroed 64 x 3 table.
fn zero_table() -> (data: Vec<u64>)
    ensures
        data@.len() == 192,
        forall|j: int| 0 <= j < 192 ==> data@[j] == 0,
{
    let mut data: Vec<u64> = Vec::new();
    for k in 0..192usize
        invariant
            data@.len() == k,
            forall|j: int| 0 <= j < k ==> data@[j] == 0,
    {
        data.push(0);
    }
    data
}

/// Adds one triple's three bins to a table of counts.
fn tally_triple(data: &mut Vec<u64>, b0: usize, b1: usize, b2: usize, bound: u64, Ghost(trs): Ghost<
    Seq<(usize, usize, usize)>,
>, Ghost(i): Ghost<int>)
    requires
        old(data)@.len() == 192,
        b0 < 64 && b1 < 64 && b2 < 64,
        0 <= i < trs.len(),
        component(trs[i], 0) == b0 as int,
        component(trs[i], 1) == b1 as int,
        component(trs[i], 2) == b2 as int,
        bound < u64::MAX,
        forall|k: int| 0 <= k < 192 ==> #[trigger] old(data)@[k] == bin_count(trs, i, k % 3, k / 3),
        forall|k: int| 0 <= k < 192 ==> #[trigger] old(data)@[k] <= bound,
    ensures
        final(data)@.len() == 192,
        forall|k: int|
            0 <= k < 192 ==> #[trigger] final(data)@[k] == bin_count(trs, i + 1, k % 3, k / 3),
        forall|k: int| 0 <= k < 192 ==> #[trigger] final(data)@[k] <= bound + 1,
{
    let ghost before = data@;
    let v0 = data[b0 * 3];
    data.set(b0 * 3, v0 + 1);
    let v1 = data[b1 * 3 + 1];
    data.set(b1 * 3 + 1, v1 + 1);
    let v2 = data[b2 * 3 + 2];
    data.set(b2 * 3 + 2, v2 + 1);
    proof {
        assert forall|k: int| 0 <= k < 192 implies #[trigger] data@[k] == bin_count(
            trs,
            i + 1,
            k % 3,
            k / 3,
        ) && data@[k] <= bound + 1 by {
            lemma_fundamental_div_mod(k, 3);
            let c = k % 3;
            let bin = k / 3;
            assert(bin_count(trs, i + 1, c, bin) == bin_count(trs, i, c, bin) + (
            if component(trs[i], c) == bin {
                1nat
            } else {
                0nat
            }));
            if k == b0 * 3 {
                assert(c == 0 && bin == b0 as int) by {
                    lemma_fundamental_div_mod_converse(k, 3, b0 as int, 0);
                }
            } else if k == b1 * 3 + 1 {
                assert(c == 1 && bin == b1 as int) by {
                    lemma_fundamental_div_mod_converse(k, 3, b1 as int, 1);
                }
            } else if k == b2 * 3 + 2 {
                assert(c == 2 && bin == b2 as int) by {
                    lemma_fundamental_div_mod_converse(k, 3, b2 as int, 2);
                }
            } else {
                assert(data@[k] == before[k]);
                if c == 0 {
                    assert(bin != b0 as int);
                } else if c == 1 {
                    assert(bin != b1 as int);
                } else {
                    assert(bin != b2 as int);
                }
            }
        }
    }
}

/// Normalises a table of counts in place: each entry becomes `norm_value`
/// of its count and its channel's maximum.
fn normalize_table(data: &mut Vec<u64>, split_light: bool, Ghost(trs): Ghost<
    Seq<(usize, usize, usize)>,
>)
    requires
        old(data)@.len() == 192,
        forall|j: int| 0 <= j < 192 ==> #[trigger] old(data)@[j] == channel_count(trs, j % 3, j / 3),
    ensures
        final(data)@.len() == 192,
        forall|j: int|
            0 <= j < 192 ==> #[trigger] final(data)@[j] == normalized_bin(trs, j % 3, j / 3,
            split_light),
        forall|j: int| 0 <= j < 192 ==> #[trigger] final(data)@[j] <= HIST_MAX,
{
    let mut m: u64 = 0;
    for k in 0..192usize
        invariant
            data@.len() == 192,
            m == max_count_upto(trs, k as int),
            forall|j: int|
                0 <= j < 192 ==> #[trigger] data@[j] == channel_count(trs, j % 3, j / 3),
    {
        if data[k] > m {
            m = data[k];
        }
        proof {
            lemma_fundamental_div_mod(k as int, 3);
        }
    }
    let mut mb: u64 = 0;
    for bn in 0..64usize
        invariant
            data@.len() == 192,
            mb == light_max_upto(trs, bn as int),
            forall|j: int|
                0 <= j < 192 ==> #[trigger] data@[j] == channel_count(trs, j % 3, j / 3),
    {
        let v = data[bn * 3 + 2];
        proof {
            lemma_fundamental_div_mod_converse(bn as int * 3 + 2, 3, bn as int, 2);
        }
        if v > mb {
            mb = v;
        }
    }
    for k in 0..192usize
        invariant
            data@.len() == 192,
            m == overall_max(trs),
            mb == light_max(trs),
            forall|j: int|
                k <= j < 192 ==> #[trigger] data@[j] == channel_count(trs, j % 3, j / 3),
            forall|j: int|
                0 <= j < k ==> #[trigger] data@[j] == normalized_bin(trs, j % 3, j / 3, split_light),
            forall|j: int| 0 <= j < k ==> data@[j] <= HIST_MAX,
    {
        let cnt = data[k];
        let mk = if split_light && k % 3 == 2 {
            mb
        } else {
            m
        };
        proof {
            let gk = k as int;
            lemma_fundamental_div_mod(gk, 3);
            if split_light && gk % 3 == 2 {
                lemma_count_le_light_upto(trs, gk / 3, 64);
            } else {
                lemma_count_le_max_upto(trs, gk % 3, gk / 3, 192);
            }
            lemma_norm_le(cnt as nat, mk as nat);
        }
        let nv: u64 = if mk == 0 {
            0
        } else {
            proof {
                assert((cnt as u128) * (NORM_NUM as u128) <= 0xffff_ffff_ffff_ffff * 655360)
                    by (nonlinear_arith)
                    requires
                        cnt as u128 <= 0xffff_ffff_ffff_ffff,
                ;
            }
            (((cnt as u128) * (NORM_NUM as u128)) / (11 * (mk as u128))) as u64
        };
        proof {
            assert(nv == norm_value(cnt as nat, mk as nat));
        }
        data.set(k, nv);
    }
}

impl HistogramData {
    /// Recomputes the table from the raw RGBA bytes of `image` with RGB
    /// binning: each channel value is binned by `value / 4`, then every
    /// entry is normalised against the overall maximum. Every entry ends in
    /// `[0, HIST_MAX]`; an image with no pixels leaves every entry at zero.
    /// A corrupt record is rejected before histogram processing, so only a
    /// well-formed one may be handed in.
    pub fn update_rgb(&mut self, image: &MyImage)
        requires
            old(self).type_ is Rgb,
            image.valid(),
        ensures
            final(self).type_ == old(self).type_,
            final(self).wf(),
            forall|bin: int, c: int|
                0 <= bin < 64 && 0 <= c < 3 ==> final(self).data@[bin * 3 + c]
                    == #[trigger] normalized_bin(rgb_triples(image.bytes@), c, bin, false),
            forall|k: int| 0 <= k < 192 ==> #[trigger] final(self).data@[k] <= HIST_MAX,
    {
        let ghost trs = rgb_triples(image.bytes@);
        let mut data = zero_table();
        let n_pix = image.bytes.len() / 4;
        for i in 0..n_pix
            invariant
                data@.len() == 192,
                n_pix == trs.len(),
                n_pix <= u64::MAX,
                image.bytes@.len() <= usize::MAX,
                trs == rgb_triples(image.bytes@),
                forall|k: int|
                    0 <= k < 192 ==> #[trigger] data@[k] == bin_count(trs, i as int, k % 3, k / 3),
                forall|k: int| 0 <= k < 192 ==> #[trigger] data@[k] <= i,
        {
            proof {
                lemma_fundamental_div_mod(image.bytes@.len() as int, 4);
                assert(n_pix == image.bytes@.len() as int / 4);
                assert(i as int * 4 + 2 < image.bytes@.len());
            }
            let r = image.bytes[i * 4];
            let g = image.bytes[i * 4 + 1];
            let b = image.bytes[i * 4 + 2];
            tally_triple(
                &mut data,
                (r / 4) as usize,
                (g / 4) as usize,
                (b / 4) as usize,
                i as u64,
                Ghost(trs),
                Ghost(i as int),
            );
        }
        normalize_table(&mut data, false, Ghost(trs));
        proof {
            assert forall|bin: int, c: int| 0 <= bin < 64 && 0 <= c < 3 implies data@[bin * 3 + c]
                == #[trigger] normalized_bin(trs, c, bin, false) by {
                lemma_fundamental_div_mod_converse(bin * 3 + c, 3, bin, c);
            }
        }
        self.data = data;
    }

    /// Recomputes the table from one bin triple per pixel, as handed in by
    /// the host's perceptual colour-space conversion: slot 0 the a-axis
    /// bin, slot 1 the b-axis bin, slot 2 the lightness bin. Indices are
    /// clamped below 64, the lightness channel is normalised independently
    /// of the two colour axes, and every entry ends in `[0, HIST_MAX]`.
    pub fn update_oklab(&mut self, triples: &Vec<(usize, usize, usize)>)
        requires
            old(self).type_ is OkLab,
            triples@.len() <= u64::MAX,
        ensures
            final(self).type_ == old(self).type_,
            final(self).wf(),
            forall|bin: int, c: int|
                0 <= bin < 64 && 0 <= c < 3 ==> final(self).data@[bin * 3 + c]
                    == #[trigger] normalized_bin(clamped_triples(triples@), c, bin, true),
            forall|k: int| 0 <= k < 192 ==> #[trigger] final(self).data@[k] <= HIST_MAX,
    {
        let ghost trs = clamped_triples(triples@);
        let mut data = zero_table();
        let n = triples.len();
        for i in 0..n
            invariant
                data@.len() == 192,
                n == trs.len(),
                n <= u64::MAX,
                n == triples@.len(),
                trs == clamped_triples(triples@),
                forall|k: int|
                    0 <= k < 192 ==> #[trigger] data@[k] == bin_count(trs, i as int, k % 3, k / 3),
                forall|k: int| 0 <= k < 192 ==> #[trigger] data@[k] <= i,
        {
            let tr = triples[i];
            let b0 = if tr.0 > 63 {
                63
            } else {
                tr.0
            };
            let b1 = if tr.1 > 63 {
                63
            } else {
                tr.1
            };
            let b2 = if tr.2 > 63 {
                63
            } else {
                tr.2
            };
            proof {
                assert(trs[i as int] == clamp_triple(triples@[i as int]));
            }
            tally_triple(&mut data, b0, b1, b2, i as u64, Ghost(trs), Ghost(i as int));
        }
        normalize_table(&mut data, true, Ghost(trs));
        proof {
            assert forall|bin: int, c: int| 0 <= bin < 64 && 0 <= c < 3 implies data@[bin * 3 + c]
                == #[trigger] normalized_bin(trs, c, bin, true) by {
                lemma_fundamental_div_mod_converse(bin * 3 + c, 3, bin, c);
            }
        }
        self.data = data;
    }
}

} // verus!
