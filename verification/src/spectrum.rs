//! Frequency-spectrum display: windowing of the recent sample frame,
//! aggregation of transform magnitudes into display bins on a fixed-point
//! decibel scale, and the smoothed per-column state.
//!
//! The forward FFT itself is floating-point work done by unverified glue;
//! this module prepares its input (a windowed, zero-padded 2048-sample
//! frame in integer Q15) and consumes its output (one `(re, im)` pair per
//! transform bin, in the same integer scale). Analysis is restricted to
//! the 100-1500 Hz voice band, averaged per display column, converted to
//! milli-decibels with a fixed -20 dB correction, noise-gated 35 dB below
//! the reference level, and rescaled to 0-100.

use vstd::prelude::*;
use crate::capture::div_trunc;
use crate::dsp::{log2_q16, log2_q16_exec, sqrt_floor, isqrt_u64, lemma_sqrt_floor_correct};
use vstd::arithmetic::div_mod::{
    lemma_div_is_ordered, lemma_div_multiples_vanish, lemma_multiply_divide_lt,
    lemma_div_pos_is_pos, lemma_div_is_ordered_by_denominator,
};

verus! {

/// The fixed transform length.
pub const FFT_SIZE: usize = 2048;

/// Window weight for position `i` of an `n`-sample frame, in Q15: a
/// smooth raised window approximating the Hann shape `sin^2(pi*i/n)`,
/// built from the parabolic approximation `sin(pi*x) ~ 4*x*(1-x)`.
pub open spec fn window_q15(i: int, n: int) -> int {
    let x = i * 32768 / n;
    let s = 4 * x * (32768 - x) / 32768;
    s * s / 32768
}

/// One windowed sample: the sample scaled by the Q15 weight, truncated
/// toward zero.
pub open spec fn windowed_term(recent: Seq<i16>, i: int) -> int {
    div_trunc(recent[i] * window_q15(i, recent.len() as int), 32768)
}

/// The frame handed to the transform: the most recent 2048 samples (or
/// all of them, if fewer), windowed and zero-padded to exactly 2048.
pub open spec fn windowed_frame(samples: Seq<i16>) -> Seq<i64> {
    let cnt = if samples.len() <= 2048 {
        samples.len() as int
    } else {
        2048
    };
    let recent = samples.subrange(samples.len() - cnt, samples.len() as int);
    Seq::new(
        2048,
        |i: int|
            if i < cnt {
                windowed_term(recent, i) as i64
            } else {
                0i64
            },
    )
}

/// Computes the window weight in Q15.
fn window_weight_q15(i: usize, n: usize) -> (w: u64)
    requires
        i < n <= 2048,
    ensures
        w as int == window_q15(i as int, n as int),
        w <= 32768,
{
    let x: u64 = (i as u64) * 32768 / (n as u64);
    proof {
        lemma_multiply_divide_lt(i as int * 32768, n as int, 32768);
    }
    proof {
        assert(4 * (x as int) * (32768 - x as int) <= 32768 * 32768) by (nonlinear_arith)
            requires 0 <= x as int <= 32767;
        assert(4 * (x as int) * (32768 - x as int) >= 0) by (nonlinear_arith)
            requires 0 <= x as int <= 32767;
    }
    let s: u64 = 4 * x * (32768 - x) / 32768;
    proof {
        lemma_div_is_ordered(4 * (x as int) * (32768 - x as int), 32768int * 32768, 32768);
        lemma_div_multiples_vanish(32768, 32768);
        assert((s as int) * (s as int) <= 32768 * 32768) by (nonlinear_arith)
            requires 0 <= s as int <= 32768;
    }
    let w: u64 = s * s / 32768;
    proof {
        lemma_div_is_ordered((s as int) * (s as int), 32768int * 32768, 32768);
        lemma_div_multiples_vanish(32768, 32768);
    }
    w
}

/// Applies the window to the recent samples and zero-pads to the
/// transform length. Every entry stays within `[-32768, 32768]`, and a
/// silent input yields an all-zero frame.
pub fn prepare_frame(samples: &Vec<i16>) -> (out: Vec<i64>)
    ensures
        out@ == windowed_frame(samples@),
        out@.len() == 2048,
        forall|i: int| 0 <= i < 2048 ==> -32768 <= #[trigger] out@[i] <= 32768,
{
    let cnt: usize = if samples.len() <= 2048 {
        samples.len()
    } else {
        2048
    };
    let start: usize = samples.len() - cnt;
    let ghost recent = samples@.subrange(start as int, samples@.len() as int);
    let ghost target = windowed_frame(samples@);

    let mut out: Vec<i64> = Vec::new();
    let mut i: usize = 0;
    while i < 2048
        invariant
            cnt == if samples@.len() <= 2048 { samples@.len() as int } else { 2048int },
            cnt <= 2048,
            cnt <= samples@.len(),
            start == samples@.len() - cnt,
            recent == samples@.subrange(start as int, samples@.len() as int),
            target == windowed_frame(samples@),
            samples@.len() <= usize::MAX,
            i <= 2048,
            out@.len() == i,
            forall|k: int| 0 <= k < i ==> out@[k] == target[k],
            forall|k: int| 0 <= k < i ==> -32768 <= #[trigger] out@[k] <= 32768,
        decreases 2048 - i,
    {
        if i < cnt {
            let x = samples[start + i];
            let w = window_weight_q15(i, cnt);
            proof {
                assert((x as int) * (w as int) <= 32768 * 32768 && (x as int) * (w as int) >= -32768
                    * 32768) by (nonlinear_arith)
                    requires -32768 <= x as int <= 32767, 0 <= w as int <= 32768;
                assert(-((x as int) * (w as int)) == (-(x as int)) * (w as int))
                    by (nonlinear_arith);
            }
            let t: i64 = if x >= 0 {
                (((x as u64) * w) / 32768) as i64
            } else {
                -((((-(x as i64)) as u64 * w) / 32768) as i64)
            };
            proof {
                if x >= 0 {
                    lemma_div_is_ordered((x as int) * (w as int), 32768int * 32768, 32768);
                    lemma_div_multiples_vanish(32768, 32768);
                    lemma_div_pos_is_pos((x as int) * (w as int), 32768);
                } else {
                    lemma_div_is_ordered((-(x as int)) * (w as int), 32768int * 32768, 32768);
                    lemma_div_multiples_vanish(32768, 32768);
                    lemma_div_pos_is_pos((-(x as int)) * (w as int), 32768);
                }
                assert(t as int == windowed_term(recent, i as int));
                assert(target[i as int] == windowed_term(recent, i as int) as i64);
            }
            out.push(t);
        } else {
            proof {
                assert(target[i as int] == 0i64);
            }
            out.push(0);
        }
        i = i + 1;
    }
    proof {
        assert(out@ =~= target);
    }
    out
}

/// A silent frame windows to all zeros.
pub proof fn lemma_windowed_silence(samples: Seq<i16>)
    requires
        forall|i: int| 0 <= i < samples.len() ==> samples[i] == 0,
    ensures
        forall|i: int| 0 <= i < 2048 ==> windowed_frame(samples)[i] == 0,
{
    let cnt = if samples.len() <= 2048 {
        samples.len() as int
    } else {
        2048
    };
    let recent = samples.subrange(samples.len() - cnt, samples.len() as int);
    assert forall|i: int| 0 <= i < 2048 implies windowed_frame(samples)[i] == 0 by {
        if i < cnt {
            assert(recent[i] == 0);
            assert(windowed_term(recent, i) == 0);
        }
    }
}

/// Magnitude of one transform bin: the floor of `sqrt(re^2 + im^2)`.
pub open spec fn norm_of(c: (i64, i64)) -> int {
    sqrt_floor(c.0 * c.0 + c.1 * c.1)
}

/// Sum of the magnitudes of the transform bins in `[lo, hi)`.
pub open spec fn sum_norms(fft: Seq<(i64, i64)>, lo: int, hi: int) -> int
    decreases hi - lo,
{
    if hi <= lo {
        0
    } else {
        sum_norms(fft, lo, hi - 1) + norm_of(fft[hi - 1])
    }
}

/// Display value of one averaged magnitude, in the 0-100 range:
/// `20*log10` in milli-decibels (floor -100 dB), shifted by the -90.309 dB
/// full-scale offset of the Q15 sample convention and the fixed -20 dB
/// correction, gated 35 dB below the reference level, and rescaled so the
/// reference level reads 100.
pub open spec fn bin_display_value(avg: int, reference_level_db: int) -> int {
    let db = if avg <= 0 {
        -100000
    } else {
        log2_q16(avg) * 60206 / 655360 - 90309
    };
    let adjusted = db - 20000;
    let gate = (reference_level_db - 35) * 1000;
    if adjusted < gate {
        0
    } else if (adjusted - gate) / 350 >= 100 {
        100
    } else {
        (adjusted - gate) / 350
    }
}

/// First transform bin of the analyzed voice band (100 Hz).
pub open spec fn band_low_bin(sample_rate: int) -> int {
    204800int / sample_rate
}

/// One-past-last transform bin of the analyzed voice band (1500 Hz,
/// clamped to the transform's Nyquist half).
pub open spec fn band_high_bin(sample_rate: int) -> int {
    if 3072000int / sample_rate <= 1024 {
        3072000int / sample_rate
    } else {
        1024
    }
}

/// The value of display column `d` out of `num_bins`: the band is split
/// evenly, each column averaging the magnitudes of its transform bins.
/// Columns whose share starts past the band read 0.
pub open spec fn spectrum_bin(
    fft: Seq<(i64, i64)>,
    sample_rate: int,
    num_bins: int,
    reference_level_db: int,
    d: int,
) -> int {
    let lo = band_low_bin(sample_rate);
    let hi = band_high_bin(sample_rate);
    let useful = hi - lo;
    let start = lo + d * useful / num_bins;
    let cap = lo + (d + 1) * useful / num_bins;
    let end = if cap <= hi {
        if cap >= start + 1 {
            cap
        } else {
            start + 1
        }
    } else {
        if hi >= start + 1 {
            hi
        } else {
            start + 1
        }
    };
    if start >= hi {
        0
    } else {
        bin_display_value(sum_norms(fft, start, end) / (end - start), reference_level_db)
    }
}

/// All display columns for one transform frame.
pub open spec fn spectrum_of(
    fft: Seq<(i64, i64)>,
    sample_rate: int,
    num_bins: int,
    reference_level_db: int,
) -> Seq<u64> {
    Seq::new(
        num_bins as nat,
        |d: int| spectrum_bin(fft, sample_rate, num_bins, reference_level_db, d) as u64,
    )
}

/// Display values always land in 0..=100.
pub proof fn lemma_bin_display_bounds(avg: int, reference_level_db: int)
    ensures
        0 <= bin_display_value(avg, reference_level_db) <= 100,
{
    let db = if avg <= 0 {
        -100000
    } else {
        log2_q16(avg) * 60206 / 655360 - 90309
    };
    let adjusted = db - 20000;
    let gate = (reference_level_db - 35) * 1000;
    if adjusted >= gate && (adjusted - gate) / 350 < 100 {
        lemma_div_pos_is_pos(adjusted - gate, 350);
    }
}

pub proof fn lemma_spectrum_bin_bounds(
    fft: Seq<(i64, i64)>,
    sample_rate: int,
    num_bins: int,
    reference_level_db: int,
    d: int,
)
    ensures
        0 <= spectrum_bin(fft, sample_rate, num_bins, reference_level_db, d) <= 100,
{
    let lo = band_low_bin(sample_rate);
    let hi = band_high_bin(sample_rate);
    let useful = hi - lo;
    let start = lo + d * useful / num_bins;
    if start < hi {
        lemma_bin_display_bounds(
            sum_norms(fft, start, spectrum_end_bin(sample_rate, num_bins, d)) / (
            spectrum_end_bin(sample_rate, num_bins, d) - start),
            reference_level_db,
        );
    }
}

/// The end bin of display column `d` (helper shared by the proofs).
pub open spec fn spectrum_end_bin(sample_rate: int, num_bins: int, d: int) -> int {
    let lo = band_low_bin(sample_rate);
    let hi = band_high_bin(sample_rate);
    let useful = hi - lo;
    let start = lo + d * useful / num_bins;
    let cap = lo + (d + 1) * useful / num_bins;
    if cap <= hi {
        if cap >= start + 1 {
            cap
        } else {
            start + 1
        }
    } else {
        if hi >= start + 1 {
            hi
        } else {
            start + 1
        }
    }
}

proof fn lemma_sum_norms_zero(fft: Seq<(i64, i64)>, lo: int, hi: int)
    requires
        0 <= lo,
        hi <= fft.len(),
        forall|i: int| 0 <= i < fft.len() ==> #[trigger] fft[i] == (0i64, 0i64),
    ensures
        sum_norms(fft, lo, hi) == 0,
    decreases hi - lo,
{
    if hi > lo {
        lemma_sum_norms_zero(fft, lo, hi - 1);
        lemma_sqrt_floor_correct(0);
        assert(norm_of(fft[hi - 1]) == sqrt_floor(0));
        assert(sqrt_floor(0) == 0);
    }
}

/// On an all-zero transform frame every display column reads 0 (for any
/// reference level above -85 dBFS; below that the noise gate itself sits
/// under the -120 dB floor value and lets it through).
pub proof fn lemma_spectrum_silence(
    fft: Seq<(i64, i64)>,
    sample_rate: int,
    num_bins: int,
    reference_level_db: int,
)
    requires
        fft.len() == 2048,
        sample_rate >= 200,
        forall|i: int| 0 <= i < fft.len() ==> #[trigger] fft[i] == (0i64, 0i64),
        reference_level_db >= -84,
    ensures
        forall|d: int|
            0 <= d < num_bins ==> spectrum_of(fft, sample_rate, num_bins, reference_level_db)[d]
                == 0,
{
    assert forall|d: int| 0 <= d < num_bins implies spectrum_of(
        fft,
        sample_rate,
        num_bins,
        reference_level_db,
    )[d] == 0 by {
        let lo = band_low_bin(sample_rate);
        let hi = band_high_bin(sample_rate);
        let start = lo + d * (hi - lo) / num_bins;
        let end = spectrum_end_bin(sample_rate, num_bins, d);
        if start < hi {
            lemma_band_bins_in_range(sample_rate, num_bins, d);
            lemma_sum_norms_zero(fft, start, end);
            assert(sum_norms(fft, start, end) / (end - start) == 0) by {
                vstd::arithmetic::div_mod::lemma_div_of0(end - start);
            }
        }
    }
}

/// For a valid rate and column, the analyzed bin range is well-formed and
/// stays inside the transform's lower half.
pub proof fn lemma_band_bins_in_range(sample_rate: int, num_bins: int, d: int)
    requires
        sample_rate >= 200,
        num_bins >= 1,
        0 <= d < num_bins,
    ensures
        0 <= band_low_bin(sample_rate),
        band_low_bin(sample_rate) + d * (band_high_bin(sample_rate) - band_low_bin(sample_rate))
            / num_bins < band_high_bin(sample_rate) ==> band_low_bin(sample_rate) <= band_low_bin(
            sample_rate,
        ) + d * (band_high_bin(sample_rate) - band_low_bin(sample_rate)) / num_bins
            < spectrum_end_bin(sample_rate, num_bins, d) <= band_high_bin(sample_rate) <= 1024,
{
    let lo = band_low_bin(sample_rate);
    let hi = band_high_bin(sample_rate);
    let useful = hi - lo;
    lemma_div_pos_is_pos(204800, sample_rate);
    lemma_div_is_ordered(204800, 3072000, sample_rate);
    assert(lo <= hi) by {
        if 3072000int / sample_rate > 1024 {
            lemma_div_is_ordered_by_denominator(204800, 200, sample_rate);
        }
    }
    let start = lo + d * useful / num_bins;
    let cap = lo + (d + 1) * useful / num_bins;
    if start < hi {
        assert(d * useful >= 0) by (nonlinear_arith)
            requires d >= 0, useful >= 0;
        lemma_div_pos_is_pos(d * useful, num_bins);
        let end = spectrum_end_bin(sample_rate, num_bins, d);
        assert(end <= hi);
    }
}

/// Computes every display column from one transform frame.
pub fn spectrum_bins(
    fft: &Vec<(i64, i64)>,
    sample_rate: u32,
    num_bins: usize,
    reference_level_db: i8,
) -> (out: Vec<u64>)
    requires
        fft@.len() == 2048,
        sample_rate >= 200,
        num_bins <= 65535,
        forall|i: int|
            0 <= i < 2048 ==> -0x8000000 <= (#[trigger] fft@[i]).0 <= 0x8000000 && -0x8000000
                <= fft@[i].1 <= 0x8000000,
    ensures
        out@ == spectrum_of(fft@, sample_rate as int, num_bins as int, reference_level_db as int),
        out@.len() == num_bins,
        forall|d: int| 0 <= d < num_bins ==> #[trigger] out@[d] <= 100,
{
    let ghost target = spectrum_of(
        fft@,
        sample_rate as int,
        num_bins as int,
        reference_level_db as int,
    );
    let lo: u64 = 204800 / (sample_rate as u64);
    let hi_raw: u64 = 3072000 / (sample_rate as u64);
    let hi: u64 = if hi_raw <= 1024 {
        hi_raw
    } else {
        1024
    };
    proof {
        assert(lo as int == band_low_bin(sample_rate as int));
        assert(hi as int == band_high_bin(sample_rate as int));
        lemma_div_is_ordered(204800, 3072000, sample_rate as int);
        lemma_div_is_ordered_by_denominator(204800, 200, sample_rate as int);
    }
    let useful: u64 = hi - lo;

    let mut out: Vec<u64> = Vec::new();
    let mut d: usize = 0;
    while d < num_bins
        invariant
            fft@.len() == 2048,
            sample_rate >= 200,
            num_bins <= 65535,
            forall|i: int|
                0 <= i < 2048 ==> -0x8000000 <= (#[trigger] fft@[i]).0 <= 0x8000000 && -0x8000000
                    <= fft@[i].1 <= 0x8000000,
            target == spectrum_of(
                fft@,
                sample_rate as int,
                num_bins as int,
                reference_level_db as int,
            ),
            lo as int == band_low_bin(sample_rate as int),
            hi as int == band_high_bin(sample_rate as int),
            lo <= hi <= 1024,
            useful == hi - lo,
            d <= num_bins,
            out@.len() == d,
            forall|k: int| 0 <= k < d ==> out@[k] == target[k],
            forall|k: int| 0 <= k < d ==> #[trigger] out@[k] <= 100,
        decreases num_bins - d,
    {
        proof {
            assert((d as int) * (useful as int) <= 65535 * 1024 && (d as int) * (useful as int)
                >= 0 && (d as int + 1) * (useful as int) <= 65536 * 1024 && (d as int + 1) * (
            useful as int) >= 0) by (nonlinear_arith)
                requires 0 <= d as int && (d as int) < 65536, 0 <= useful as int <= 1024;
            lemma_div_pos_is_pos((d as int) * (useful as int), num_bins as int);
            lemma_div_pos_is_pos((d as int + 1) * (useful as int), num_bins as int);
            lemma_div_is_ordered((d as int) * (useful as int), 65535int * 1024, num_bins as int);
            lemma_div_is_ordered((d as int + 1) * (useful as int), 65536int * 1024, num_bins as int);
        }
        let start: u64 = lo + (d as u64) * useful / (num_bins as u64);
        let cap: u64 = lo + ((d as u64) + 1) * useful / (num_bins as u64);
        let end: u64 = if cap <= hi {
            if cap >= start + 1 {
                cap
            } else {
                start + 1
            }
        } else {
            if hi >= start + 1 {
                hi
            } else {
                start + 1
            }
        };
        proof {
            assert(start as int == band_low_bin(sample_rate as int) + (d as int) * (band_high_bin(
                sample_rate as int,
            ) - band_low_bin(sample_rate as int)) / (num_bins as int));
            assert(end as int == spectrum_end_bin(sample_rate as int, num_bins as int, d as int));
        }

        let v: u64 = if start >= hi {
            0
        } else {
            proof {
                lemma_band_bins_in_range(sample_rate as int, num_bins as int, d as int);
            }
            let mut sum: u64 = 0;
            let mut b: usize = start as usize;
            while b < end as usize
                invariant
                    fft@.len() == 2048,
                    forall|i: int|
                        0 <= i < 2048 ==> -0x8000000 <= (#[trigger] fft@[i]).0 <= 0x8000000
                            && -0x8000000 <= fft@[i].1 <= 0x8000000,
                    start <= b <= end,
                    end <= 1024,
                    sum == sum_norms(fft@, start as int, b as int),
                    sum <= (b - start) * 0x10000000,
                decreases end - b,
            {
                let pair = fft[b];
                let re = pair.0;
                let im = pair.1;
                proof {
                    assert(0 <= (re as int) * (re as int) <= 0x40000000000000 && 0 <= (im as int)
                        * (im as int) <= 0x40000000000000) by (nonlinear_arith)
                        requires
                            -0x8000000 <= re as int <= 0x8000000,
                            -0x8000000 <= im as int <= 0x8000000,
                    ;
                }
                let energy: i64 = re * re + im * im;
                let n = isqrt_u64(energy as u64);
                proof {
                    lemma_sqrt_floor_correct(energy as int);
                    assert(sqrt_floor(energy as int) <= 0x10000000) by (nonlinear_arith)
                        requires
                            sqrt_floor(energy as int) >= 0,
                            sqrt_floor(energy as int) * sqrt_floor(energy as int) <= energy as int,
                            energy as int <= 0x80000000000000,
                    ;
                    assert(norm_of(fft@[b as int]) == sqrt_floor(energy as int));
                    assert(sum_norms(fft@, start as int, b + 1int) == sum_norms(
                        fft@,
                        start as int,
                        b as int,
                    ) + norm_of(fft@[b as int]));
                }
                sum = sum + n;
                b = b + 1;
            }
            let count: u64 = end - start;
            let avg: u64 = sum / count;

            let db: i64 = if avg == 0 {
                -100000
            } else {
                let l = log2_q16_exec(avg);
                ((l * 60206) / 655360) as i64 - 90309
            };
            let adjusted: i64 = db - 20000;
            let gate: i64 = (reference_level_db as i64 - 35) * 1000;
            if adjusted < gate {
                0
            } else {
                let q: u64 = ((adjusted - gate) as u64) / 350;
                if q >= 100 {
                    100
                } else {
                    q
                }
            }
        };
        proof {
            assert(v as int == spectrum_bin(
                fft@,
                sample_rate as int,
                num_bins as int,
                reference_level_db as int,
                d as int,
            ));
            assert(target[d as int] == v);
            lemma_spectrum_bin_bounds(
                fft@,
                sample_rate as int,
                num_bins as int,
                reference_level_db as int,
                d as int,
            );
        }
        out.push(v);
        d = d + 1;
    }
    proof {
        assert(out@ =~= target);
    }
    out
}

/// The per-column display state: one smoothed 0-100 value per terminal
/// column. Each update averages the fresh spectrum with the previous one
/// to damp visual jitter; a resize recomputes from scratch at the new
/// width instead of stretching stale data.
pub struct SpectrumAnalyzer {
    display_data: Vec<u64>,
    num_bins: usize,
}

impl SpectrumAnalyzer {
    /// The displayed column values.
    pub closed spec fn data_view(&self) -> Seq<u64> {
        self.display_data@
    }

    /// The configured column count.
    pub closed spec fn bins_of(&self) -> int {
        self.num_bins as int
    }

    pub open spec fn wf(&self) -> bool {
        &&& self.data_view().len() == self.bins_of()
        &&& self.bins_of() <= 65535
        &&& forall|i: int| 0 <= i < self.data_view().len() ==> #[trigger] self.data_view()[i] <= 100
    }

    /// Creates an analyzer with every column at zero.
    pub fn new(num_bins: usize) -> (a: Self)
        requires
            num_bins <= 65535,
        ensures
            a.wf(),
            a.bins_of() == num_bins,
            forall|i: int| 0 <= i < num_bins ==> #[trigger] a.data_view()[i] == 0,
    {
        let mut data: Vec<u64> = Vec::new();
        let mut i: usize = 0;
        while i < num_bins
            invariant
                i <= num_bins,
                data@.len() == i,
                forall|k: int| 0 <= k < i ==> #[trigger] data@[k] == 0,
            decreases num_bins - i,
        {
            data.push(0);
            i = i + 1;
        }
        SpectrumAnalyzer { display_data: data, num_bins }
    }

    /// Current display data, one 0-100 value per column.
    pub fn data(&self) -> (d: &Vec<u64>)
        ensures
            d@ == self.data_view(),
    {
        &self.display_data
    }

    /// The configured column count.
    pub fn width(&self) -> (w: usize)
        ensures
            w as int == self.bins_of(),
    {
        self.num_bins
    }

    /// Folds one fresh transform frame into the display: every column
    /// becomes the average of its previous value and the freshly computed
    /// one.
    pub fn update(&mut self, fft: &Vec<(i64, i64)>, sample_rate: u32, reference_level_db: i8)
        requires
            old(self).wf(),
            fft@.len() == 2048,
            sample_rate >= 200,
            forall|i: int|
                0 <= i < 2048 ==> -0x8000000 <= (#[trigger] fft@[i]).0 <= 0x8000000 && -0x8000000
                    <= fft@[i].1 <= 0x8000000,
        ensures
            final(self).wf(),
            final(self).bins_of() == old(self).bins_of(),
            final(self).data_view().len() == old(self).data_view().len(),
            forall|i: int|
                0 <= i < final(self).data_view().len() ==> #[trigger] final(self).data_view()[i]
                    as int == (old(self).data_view()[i] + spectrum_of(
                    fft@,
                    sample_rate as int,
                    old(self).bins_of(),
                    reference_level_db as int,
                )[i]) / 2,
    {
        let fresh = spectrum_bins(fft, sample_rate, self.num_bins, reference_level_db);
        let mut smoothed: Vec<u64> = Vec::new();
        let mut i: usize = 0;
        while i < self.num_bins
            invariant
                self.display_data@.len() == self.num_bins,
                forall|k: int|
                    0 <= k < self.display_data@.len() ==> #[trigger] self.display_data@[k] <= 100,
                fresh@.len() == self.num_bins,
                forall|k: int| 0 <= k < self.num_bins ==> #[trigger] fresh@[k] <= 100,
                i <= self.num_bins,
                smoothed@.len() == i,
                forall|k: int|
                    0 <= k < i ==> #[trigger] smoothed@[k] as int == (self.display_data@[k]
                        + fresh@[k]) / 2,
                forall|k: int| 0 <= k < i ==> #[trigger] smoothed@[k] <= 100,
            decreases self.num_bins - i,
        {
            let merged: u64 = (self.display_data[i] + fresh[i]) / 2;
            smoothed.push(merged);
            i = i + 1;
        }
        self.display_data = smoothed;
    }

    /// Adapts the display to a new terminal width. When a transform frame
    /// is at hand the columns are recomputed from it at the new width;
    /// without one (no samples yet) every column starts at zero. Either
    /// way the column count equals the requested width afterwards.
    pub fn resize(
        &mut self,
        new_width: usize,
        fft: Option<&Vec<(i64, i64)>>,
        sample_rate: u32,
        reference_level_db: i8,
    )
        requires
            new_width <= 65535,
            fft matches Some(f) ==> f@.len() == 2048 && sample_rate >= 200 && forall|i: int|
                0 <= i < 2048 ==> -0x8000000 <= (#[trigger] f@[i]).0 <= 0x8000000 && -0x8000000
                    <= f@[i].1 <= 0x8000000,
        ensures
            final(self).wf(),
            final(self).bins_of() == new_width,
            final(self).data_view().len() == new_width,
            fft matches Some(f) ==> final(self).data_view() == spectrum_of(
                f@,
                sample_rate as int,
                new_width as int,
                reference_level_db as int,
            ),
            fft is None ==> forall|i: int|
                0 <= i < new_width ==> #[trigger] final(self).data_view()[i] == 0,
    {
        self.num_bins = new_width;
        match fft {
            Some(f) => {
                self.display_data = spectrum_bins(f, sample_rate, new_width, reference_level_db);
            },
            None => {
                let mut data: Vec<u64> = Vec::new();
                let mut i: usize = 0;
                while i < new_width
                    invariant
                        i <= new_width,
                        data@.len() == i,
                        forall|k: int| 0 <= k < i ==> #[trigger] data@[k] == 0,
                    decreases new_width - i,
                {
                    data.push(0);
                    i = i + 1;
                }
                self.display_data = data;
            },
        }
    }
}

} // verus!
