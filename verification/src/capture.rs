//! Capture-side bookkeeping: downmixing multi-channel PCM frames to mono
//! and the session state shared between the audio callback and the render
//! loop (sample buffer, pause flag, negotiated format).
//!
//! The device callback itself runs in unverified glue; it hands each batch
//! of interleaved frames to [`CaptureSession::ingest`], which drops them
//! while paused and otherwise downmixes and appends them in one step, so a
//! reader never observes a partially appended frame.

use vstd::prelude::*;
use vstd::arithmetic::div_mod::{lemma_div_is_ordered, lemma_div_multiples_vanish};

verus! {

/// Integer division that truncates toward zero, as Rust's `/` does on
/// machine integers (spec-level `/` is Euclidean, which differs for
/// negative dividends).
pub open spec fn div_trunc(a: int, b: int) -> int {
    if a >= 0 {
        a / b
    } else {
        -((-a) / b)
    }
}

/// Sum of all samples of a frame.
pub open spec fn frame_sum(s: Seq<i16>) -> int
    decreases s.len(),
{
    if s.len() == 0 {
        0
    } else {
        frame_sum(s.drop_last()) + s.last()
    }
}

/// The mono value an N-channel frame downmixes to: the arithmetic mean of
/// its channels, truncated toward zero.
pub open spec fn downmix_of(frame: Seq<i16>) -> int {
    div_trunc(frame_sum(frame), frame.len() as int)
}

/// The mono sequence produced from interleaved data: one downmixed sample
/// per complete frame of `channels` values; a trailing partial frame is
/// dropped.
pub open spec fn downmixed(data: Seq<i16>, channels: int) -> Seq<i16> {
    Seq::new(
        (data.len() as int / channels) as nat,
        |f: int| downmix_of(data.subrange(f * channels, (f + 1) * channels)) as i16,
    )
}

proof fn lemma_frame_sum_bounds(s: Seq<i16>)
    ensures
        -32768 * s.len() <= frame_sum(s) <= 32767 * s.len(),
    decreases s.len(),
{
    if s.len() > 0 {
        lemma_frame_sum_bounds(s.drop_last());
    }
}

/// The downmix of any nonempty frame is itself a representable sample.
pub proof fn lemma_downmix_in_range(frame: Seq<i16>)
    requires
        frame.len() >= 1,
    ensures
        -32768 <= downmix_of(frame) <= 32767,
{
    let n = frame.len() as int;
    let s = frame_sum(frame);
    lemma_frame_sum_bounds(frame);
    if s >= 0 {
        lemma_div_is_ordered(s, 32767 * n, n);
        lemma_div_multiples_vanish(32767, n);
    } else {
        lemma_div_is_ordered(-s, 32768 * n, n);
        lemma_div_multiples_vanish(32768, n);
        assert((-s) / n <= 32768);
    }
}

proof fn lemma_uniform_frame_sum(s: Seq<i16>, v: i16)
    requires
        forall|i: int| 0 <= i < s.len() ==> s[i] == v,
    ensures
        frame_sum(s) == s.len() * v,
    decreases s.len(),
{
    if s.len() == 0 {
        assert(s.len() * v == 0) by (nonlinear_arith)
            requires s.len() == 0;
    } else {
        lemma_uniform_frame_sum(s.drop_last(), v);
        assert((s.len() - 1) * v + v == s.len() * v) by (nonlinear_arith);
    }
}

/// Downmixing a frame whose channels all hold the same value `v` yields
/// exactly `v`: averaging agreeing channels introduces no rounding.
pub proof fn lemma_downmix_uniform(frame: Seq<i16>, v: i16)
    requires
        frame.len() >= 1,
        forall|i: int| 0 <= i < frame.len() ==> frame[i] == v,
    ensures
        downmix_of(frame) == v,
{
    let n = frame.len() as int;
    lemma_uniform_frame_sum(frame, v);
    if v >= 0 {
        lemma_div_multiples_vanish(v as int, n);
    } else {
        assert(-(n * (v as int)) == n * (-v as int)) by (nonlinear_arith);
        assert(n * (v as int) < 0) by (nonlinear_arith)
            requires n > 0 && v < 0;
        lemma_div_multiples_vanish(-v as int, n);
    }
}

/// A two-channel frame `[a, b]` downmixes to `(a + b) / 2` with the
/// division truncated toward zero.
pub proof fn lemma_downmix_stereo(a: i16, b: i16)
    ensures
        downmix_of(seq![a, b]) == div_trunc(a + b, 2),
{
    let s = seq![a, b];
    let s1 = s.drop_last();
    let s0 = s1.drop_last();
    assert(s0 =~= Seq::<i16>::empty());
    assert(frame_sum(s0) == 0);
    assert(s1.len() == 1 && s1.last() == a);
    assert(frame_sum(s1) == frame_sum(s0) + a);
    assert(s.last() == b);
    assert(frame_sum(s) == frame_sum(s1) + b);
}

/// Downmixes interleaved multi-channel PCM data to mono, one sample per
/// complete frame, averaging the channels with truncation toward zero.
pub fn downmix_frames(data: &Vec<i16>, channels: usize) -> (out: Vec<i16>)
    requires
        1 <= channels <= 0x10000,
    ensures
        out@ == downmixed(data@, channels as int),
{
    let frames: usize = data.len() / channels;
    let ghost target = downmixed(data@, channels as int);
    let mut out: Vec<i16> = Vec::new();
    let mut f: usize = 0;

    proof {
        vstd::arithmetic::div_mod::lemma_fundamental_div_mod(data@.len() as int, channels as int);
        assert(frames * channels <= data@.len()) by (nonlinear_arith)
            requires
                channels >= 1,
                frames == data@.len() as int / channels as int,
                data@.len() as int == channels * frames + data@.len() as int % channels as int,
                data@.len() as int % channels as int >= 0;
    }

    while f < frames
        invariant
            1 <= channels <= 0x10000,
            frames == data@.len() as int / channels as int,
            frames * channels <= data@.len(),
            data@.len() <= usize::MAX,
            f <= frames,
            target == downmixed(data@, channels as int),
            out@.len() == f,
            forall|k: int| 0 <= k < f ==> out@[k] == target[k],
        decreases frames - f,
    {
        proof {
            assert((f + 1) * channels <= frames * channels && f * channels + channels == (f + 1)
                * channels && f * channels >= 0) by (nonlinear_arith)
                requires 0 <= f < frames && channels >= 1;
        }
        let base: usize = f * channels;
        let ghost chunk = data@.subrange(base as int, base as int + channels as int);

        let mut sum: i64 = 0;
        let mut j: usize = 0;
        while j < channels
            invariant
                1 <= channels <= 0x10000,
                base + channels <= data@.len(),
                data@.len() <= usize::MAX,
                j <= channels,
                chunk == data@.subrange(base as int, base as int + channels as int),
                sum == frame_sum(chunk.subrange(0, j as int)),
                -32768 * j <= sum <= 32767 * j,
            decreases channels - j,
        {
            let x = data[base + j];
            proof {
                let pre = chunk.subrange(0, j as int);
                let post = chunk.subrange(0, j + 1int);
                assert(post.drop_last() =~= pre);
                assert(post.last() == data@[base + j]);
            }
            sum = sum + x as i64;
            j = j + 1;
        }

        proof {
            assert(chunk.subrange(0, channels as int) =~= chunk);
        }

        let q: i64 = if sum >= 0 {
            ((sum as u64) / (channels as u64)) as i64
        } else {
            -((((-sum) as u64) / (channels as u64)) as i64)
        };

        proof {
            assert(q == div_trunc(sum as int, channels as int));
            lemma_downmix_in_range(chunk);
            assert(target[f as int] == downmix_of(chunk) as i16);
        }

        out.push(q as i16);
        f = f + 1;
    }
    proof {
        assert(out@ =~= target);
    }
    out
}

/// One recording attempt: the mono sample buffer, the pause flag, and the
/// format negotiated with the device. The buffer is append-only while the
/// session lives; pausing drops incoming frames instead of buffering them.
pub struct CaptureSession {
    samples: Vec<i16>,
    sample_rate: u32,
    channels: u16,
    paused: bool,
}

impl CaptureSession {
    /// The recorded mono samples, in capture order.
    pub closed spec fn samples_view(&self) -> Seq<i16> {
        self.samples@
    }

    /// Whether the session is currently paused.
    pub closed spec fn paused_state(&self) -> bool {
        self.paused
    }

    /// The sample rate the session records at.
    pub closed spec fn rate_of(&self) -> u32 {
        self.sample_rate
    }

    /// The channel count of the device's native frames.
    pub closed spec fn channels_of(&self) -> u16 {
        self.channels
    }

    pub open spec fn wf(&self) -> bool {
        self.channels_of() >= 1
    }

    /// Creates a session that will request the given sample rate; the
    /// actual rate and channel count are settled by `negotiate`.
    pub fn new(requested_sample_rate: u32) -> (s: Self)
        ensures
            s.wf(),
            s.rate_of() == requested_sample_rate,
            s.channels_of() == 1,
            !s.paused_state(),
            s.samples_view() == Seq::<i16>::empty(),
    {
        CaptureSession { samples: Vec::new(), sample_rate: requested_sample_rate, channels: 1, paused: false }
    }

    /// Records the format the driver actually granted. Returns whether the
    /// granted rate differs from the requested one, so the caller can warn.
    pub fn negotiate(&mut self, device_rate: u32, device_channels: u16) -> (mismatch: bool)
        requires
            device_channels >= 1,
        ensures
            final(self).wf(),
            final(self).rate_of() == device_rate,
            final(self).channels_of() == device_channels,
            final(self).paused_state() == old(self).paused_state(),
            final(self).samples_view() == old(self).samples_view(),
            mismatch == (device_rate != old(self).rate_of()),
    {
        let mismatch = device_rate != self.sample_rate;
        self.sample_rate = device_rate;
        self.channels = device_channels;
        mismatch
    }

    /// Accepts one batch of interleaved frames from the device callback.
    /// While paused this is a no-op (frames are dropped, not buffered);
    /// otherwise every complete frame is downmixed and appended.
    pub fn ingest(&mut self, data: &Vec<i16>)
        requires
            old(self).wf(),
        ensures
            final(self).wf(),
            final(self).rate_of() == old(self).rate_of(),
            final(self).channels_of() == old(self).channels_of(),
            final(self).paused_state() == old(self).paused_state(),
            old(self).paused_state() ==> final(self).samples_view() == old(self).samples_view(),
            !old(self).paused_state() ==> final(self).samples_view() == old(self).samples_view()
                + downmixed(data@, old(self).channels_of() as int),
    {
        if self.paused {
            return ;
        }
        let mut mono = downmix_frames(data, self.channels as usize);
        self.samples.append(&mut mono);
    }

    /// Number of mono samples recorded so far.
    pub fn sample_count(&self) -> (n: usize)
        ensures
            n == self.samples_view().len(),
    {
        self.samples.len()
    }

    /// A copy of everything recorded so far, for analysis and display.
    pub fn snapshot(&self) -> (out: Vec<i16>)
        ensures
            out@ == self.samples_view(),
    {
        let mut out: Vec<i16> = Vec::new();
        let mut i: usize = 0;
        while i < self.samples.len()
            invariant
                i <= self.samples@.len(),
                out@ =~= self.samples@.subrange(0, i as int),
            decreases self.samples@.len() - i,
        {
            out.push(self.samples[i]);
            i = i + 1;
        }
        proof {
            assert(out@ =~= self.samples_view());
        }
        out
    }

    /// Ends the session, handing back the recorded samples and leaving the
    /// buffer empty.
    pub fn take_samples(&mut self) -> (out: Vec<i16>)
        ensures
            out@ == old(self).samples_view(),
            final(self).samples_view() == Seq::<i16>::empty(),
            final(self).rate_of() == old(self).rate_of(),
            final(self).channels_of() == old(self).channels_of(),
            final(self).paused_state() == old(self).paused_state(),
            final(self).wf() == old(self).wf(),
    {
        let mut out: Vec<i16> = Vec::new();
        core::mem::swap(&mut self.samples, &mut out);
        out
    }

    /// Pauses the session: subsequent frames are dropped until `resume`.
    pub fn pause(&mut self)
        ensures
            final(self).paused_state(),
            final(self).samples_view() == old(self).samples_view(),
            final(self).rate_of() == old(self).rate_of(),
            final(self).channels_of() == old(self).channels_of(),
            final(self).wf() == old(self).wf(),
    {
        self.paused = true;
    }

    /// Resumes a paused session: accumulation restarts with the next batch.
    pub fn resume(&mut self)
        ensures
            !final(self).paused_state(),
            final(self).samples_view() == old(self).samples_view(),
            final(self).rate_of() == old(self).rate_of(),
            final(self).channels_of() == old(self).channels_of(),
            final(self).wf() == old(self).wf(),
    {
        self.paused = false;
    }

    /// Flips between paused and recording.
    pub fn toggle_pause(&mut self)
        ensures
            final(self).paused_state() == !old(self).paused_state(),
            final(self).samples_view() == old(self).samples_view(),
            final(self).rate_of() == old(self).rate_of(),
            final(self).channels_of() == old(self).channels_of(),
            final(self).wf() == old(self).wf(),
    {
        self.paused = !self.paused;
    }

    /// Whether the session is paused.
    pub fn is_paused(&self) -> (p: bool)
        ensures
            p == self.paused_state(),
    {
        self.paused
    }

    /// The sample rate the session records at.
    pub fn sample_rate(&self) -> (r: u32)
        ensures
            r == self.rate_of(),
    {
        self.sample_rate
    }

    /// The channel count of the device's native frames.
    pub fn channel_count(&self) -> (c: u16)
        ensures
            c == self.channels_of(),
    {
        self.channels
    }
}

/// Ingestion resumes immediately after a pause ends: any batch holding at
/// least one complete frame extends the buffer.
pub proof fn lemma_ingest_growth(data: Seq<i16>, channels: int)
    requires
        1 <= channels <= data.len(),
    ensures
        downmixed(data, channels).len() >= 1,
{
    lemma_div_is_ordered(channels, data.len() as int, channels);
    vstd::arithmetic::div_mod::lemma_div_by_self(channels);
}

} // verus!
