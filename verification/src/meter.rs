//! Volume metering: the mean-square amplitude of the most recent 50 ms
//! window, mapped onto a 0-100 percentage through a fixed-point dBFS
//! scale, with a decaying peak-hold value.
//!
//! The decibel conversion runs on the Q16 binary logarithm from [`crate::dsp`]
//! in milli-decibel integer units, so the meter is exact integer
//! arithmetic throughout: `dBFS = 10 * log10(mean_square) - 10 * log10(32767^2)`,
//! normalized against `reference_level_db - 40` over a 40 dB range and
//! clamped to the 4..=100 display band (the floor of 4 keeps the meter
//! from ever reading empty).

use vstd::prelude::*;
use crate::dsp::{log2_q16, log2_q16_exec, lemma_log2_q16_mono, lemma_log2_q16_bounds};
use vstd::arithmetic::div_mod::{lemma_div_is_ordered, lemma_div_pos_is_pos};

verus! {

/// dBFS of a mean-square amplitude, in milli-decibels, rounded down.
/// `10 * log10(ms) = 10 * log2(ms) * log10(2)`; `30103 / 655360` is
/// `log10(2) / 65536` scaled to milli-decibels, and `90309` milli-decibels
/// is the full-scale offset `10 * log10(32767^2)`. Exact silence reads the
/// conventional floor of -160 dBFS.
pub open spec fn dbfs_mdb(ms: int) -> int {
    if ms <= 0 {
        -160000
    } else {
        log2_q16(ms) * 30103 / 655360 - 90309
    }
}

/// Loudness percentage for a mean-square amplitude at a given reference
/// level: the dBFS value normalized over the 40 dB window ending at
/// `reference_level_db`, scaled to 0-100 and clamped to 4..=100.
pub open spec fn loudness_of(ms: int, reference_level_db: int) -> int {
    let num = dbfs_mdb(ms) - (reference_level_db - 40) * 1000;
    if num <= 1600 {
        4
    } else if num >= 40000 {
        100
    } else {
        num / 400
    }
}

/// The loudness value always stays in the 4..=100 display band.
pub proof fn lemma_loudness_bounds(ms: int, reference_level_db: int)
    ensures
        4 <= loudness_of(ms, reference_level_db) <= 100,
{
    let num = dbfs_mdb(ms) - (reference_level_db - 40) * 1000;
    if 1600 < num < 40000 {
        lemma_div_is_ordered(1600, num, 400);
        lemma_div_is_ordered(num, 39999, 400);
    }
}

/// An all-zero window reads exactly the floor of 4 (for any reference
/// level a meter can be configured with in practice; a reference below
/// -121 dBFS would push even the -160 dBFS silence value above the floor).
pub proof fn lemma_silence_reads_floor(reference_level_db: int)
    requires
        reference_level_db >= -121,
    ensures
        loudness_of(0, reference_level_db) == 4,
{
}

/// The meter is monotone in signal power: a window with a larger
/// mean-square amplitude (hence larger RMS) never reads a lower
/// percentage at the same reference level.
pub proof fn lemma_loudness_monotone(ms1: int, ms2: int, reference_level_db: int)
    requires
        0 <= ms1 <= ms2,
    ensures
        loudness_of(ms1, reference_level_db) <= loudness_of(ms2, reference_level_db),
{
    // dBFS is monotone in the mean square.
    if ms1 > 0 {
        lemma_log2_q16_mono(ms1, ms2);
        lemma_div_is_ordered(log2_q16(ms1) * 30103, log2_q16(ms2) * 30103, 655360);
    } else if ms2 > 0 {
        lemma_log2_q16_bounds(ms2);
        assert(log2_q16(ms2) * 30103 >= 0) by (nonlinear_arith)
            requires log2_q16(ms2) >= 0;
        lemma_div_pos_is_pos(log2_q16(ms2) * 30103, 655360);
    }
    let num1 = dbfs_mdb(ms1) - (reference_level_db - 40) * 1000;
    let num2 = dbfs_mdb(ms2) - (reference_level_db - 40) * 1000;
    lemma_loudness_bounds(ms1, reference_level_db);
    lemma_loudness_bounds(ms2, reference_level_db);
    if 1600 < num1 && num2 < 40000 {
        lemma_div_is_ordered(num1, num2, 400);
    }
}

/// Computes the loudness percentage for a mean-square amplitude.
pub fn loudness_from_mean_square(ms: u64, reference_level_db: i8) -> (v: u8)
    ensures
        v as int == loudness_of(ms as int, reference_level_db as int),
        4 <= v <= 100,
{
    let num: i64 = if ms == 0 {
        -160000i64 - (reference_level_db as i64 - 40) * 1000
    } else {
        let l = log2_q16_exec(ms);
        let t = (l * 30103) / 655360;
        t as i64 - 90309 - (reference_level_db as i64 - 40) * 1000
    };
    proof {
        assert(num == dbfs_mdb(ms as int) - (reference_level_db as int - 40) * 1000);
    }
    if num <= 1600 {
        4
    } else if num >= 40000 {
        100
    } else {
        proof {
            lemma_div_is_ordered(1600, num as int, 400);
            lemma_div_is_ordered(num as int, 39999, 400);
        }
        ((num as u64) / 400) as u8
    }
}

/// Sum of squared samples.
pub open spec fn sum_squares(s: Seq<i16>) -> int
    decreases s.len(),
{
    if s.len() == 0 {
        0
    } else {
        sum_squares(s.drop_last()) + s.last() * s.last()
    }
}

/// The analysis window: the most recent `sample_rate / 20` samples (50 ms),
/// clamped to what is available.
pub open spec fn window_len_of(total: int, sample_rate: int) -> int {
    if sample_rate / 20 <= total {
        sample_rate / 20
    } else {
        total
    }
}

/// Mean-square amplitude of the last `window` samples.
pub open spec fn mean_square_of(samples: Seq<i16>, window: int) -> int {
    sum_squares(samples.subrange(samples.len() - window, samples.len() as int)) / window
}

/// The percentage the meter shows for a snapshot of samples: 0 before any
/// samples exist, otherwise the loudness of the recent window.
pub open spec fn meter_reading(samples: Seq<i16>, sample_rate: int, reference_level_db: int) -> int {
    if samples.len() == 0 {
        0
    } else {
        loudness_of(
            mean_square_of(samples, window_len_of(samples.len() as int, sample_rate)),
            reference_level_db,
        )
    }
}

/// The meter's state: the last shown value and the held peak with the
/// time it was last raised. The peak resets to the current value when
/// exceeded or after three seconds without a new maximum.
pub struct VolumeMeter {
    last_value: u8,
    peak_hold: u8,
    peak_hold_since_ms: u64,
}

impl VolumeMeter {
    /// The most recently computed loudness value.
    pub closed spec fn value_of(&self) -> u8 {
        self.last_value
    }

    /// The held peak value.
    pub closed spec fn peak_of(&self) -> u8 {
        self.peak_hold
    }

    /// When the held peak was last raised, in session milliseconds.
    pub closed spec fn peak_since_of(&self) -> u64 {
        self.peak_hold_since_ms
    }

    pub fn new() -> (m: Self)
        ensures
            m.value_of() == 0,
            m.peak_of() == 0,
            m.peak_since_of() == 0,
    {
        VolumeMeter { last_value: 0, peak_hold: 0, peak_hold_since_ms: 0 }
    }

    /// Reads the peak-hold value.
    pub fn peak(&self) -> (p: u8)
        ensures
            p == self.peak_of(),
    {
        self.peak_hold
    }

    /// Reads the last shown loudness value.
    pub fn value(&self) -> (v: u8)
        ensures
            v == self.value_of(),
    {
        self.last_value
    }

    /// Computes the loudness of the recent window of `samples` and updates
    /// the peak hold. With no samples yet the meter reads 0 and keeps its
    /// state. `now_ms` is a monotone session clock in milliseconds.
    pub fn update(
        &mut self,
        samples: &Vec<i16>,
        sample_rate: u32,
        reference_level_db: i8,
        now_ms: u64,
    ) -> (v: u8)
        requires
            sample_rate >= 20,
            samples@.len() <= u32::MAX,
            now_ms >= old(self).peak_since_of(),
        ensures
            v as int == meter_reading(samples@, sample_rate as int, reference_level_db as int),
            samples@.len() == 0 ==> *final(self) == *old(self),
            samples@.len() > 0 ==> {
                &&& 4 <= v <= 100
                &&& final(self).value_of() == v
                &&& if v > old(self).peak_of() || now_ms - old(self).peak_since_of() >= 3000 {
                    final(self).peak_of() == v && final(self).peak_since_of() == now_ms
                } else {
                    final(self).peak_of() == old(self).peak_of() && final(self).peak_since_of()
                        == old(self).peak_since_of()
                }
            },
    {
        if samples.len() == 0 {
            return 0;
        }

        let rate_window = sample_rate / 20;
        let wlen: usize = if (rate_window as usize) <= samples.len() {
            rate_window as usize
        } else {
            samples.len()
        };
        let start: usize = samples.len() - wlen;
        let ghost win = samples@.subrange(start as int, samples@.len() as int);

        let mut sum: u64 = 0;
        let mut j: usize = 0;
        while j < wlen
            invariant
                wlen <= samples@.len() <= u32::MAX,
                start == samples@.len() - wlen,
                win == samples@.subrange(start as int, samples@.len() as int),
                j <= wlen,
                sum == sum_squares(win.subrange(0, j as int)),
                sum <= j * 0x40000000,
            decreases wlen - j,
        {
            let x = samples[start + j];
            proof {
                assert(0 <= (x as int) * (x as int) <= 0x40000000) by (nonlinear_arith)
                    requires -32768 <= x as int <= 32767;
            }
            let sq: u64 = ((x as i64) * (x as i64)) as u64;
            proof {
                let pre = win.subrange(0, j as int);
                let post = win.subrange(0, j + 1int);
                assert(post.drop_last() =~= pre);
                assert(post.last() == samples@[start + j]);
            }
            sum = sum + sq;
            j = j + 1;
        }
        proof {
            assert(win.subrange(0, wlen as int) =~= win);
        }

        let ms = sum / (wlen as u64);
        let v = loudness_from_mean_square(ms, reference_level_db);
        proof {
            assert(wlen as int == window_len_of(samples@.len() as int, sample_rate as int));
            assert(ms as int == mean_square_of(samples@, wlen as int));
        }

        self.last_value = v;
        if v > self.peak_hold || now_ms - self.peak_hold_since_ms >= 3000 {
            self.peak_hold = v;
            self.peak_hold_since_ms = now_ms;
        }
        v
    }
}

proof fn lemma_sum_squares_nonneg(s: Seq<i16>)
    ensures
        sum_squares(s) >= 0,
    decreases s.len(),
{
    if s.len() > 0 {
        lemma_sum_squares_nonneg(s.drop_last());
        let x = s.last();
        assert((x as int) * (x as int) >= 0) by (nonlinear_arith);
    }
}

/// The meter is monotone across whole windows: of two nonempty snapshots
/// analyzed at the same rate and reference level, the one whose window
/// carries at least as much power never reads a lower percentage.
pub proof fn lemma_meter_monotone(
    samples1: Seq<i16>,
    samples2: Seq<i16>,
    sample_rate: int,
    reference_level_db: int,
)
    requires
        samples1.len() > 0,
        samples2.len() > 0,
        sample_rate >= 20,
        mean_square_of(samples1, window_len_of(samples1.len() as int, sample_rate))
            <= mean_square_of(samples2, window_len_of(samples2.len() as int, sample_rate)),
    ensures
        meter_reading(samples1, sample_rate, reference_level_db) <= meter_reading(
            samples2,
            sample_rate,
            reference_level_db,
        ),
{
    let w1 = window_len_of(samples1.len() as int, sample_rate);
    let ms1 = mean_square_of(samples1, w1);
    lemma_sum_squares_nonneg(
        samples1.subrange(samples1.len() - w1, samples1.len() as int),
    );
    lemma_div_pos_is_pos(
        sum_squares(samples1.subrange(samples1.len() - w1, samples1.len() as int)),
        w1,
    );
    let w2 = window_len_of(samples2.len() as int, sample_rate);
    let ms2 = mean_square_of(samples2, w2);
    lemma_loudness_monotone(ms1, ms2, reference_level_db);
}

} // verus!
