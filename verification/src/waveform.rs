//! Time-domain waveform display: a scrolling buffer of loudness values.
//!
//! New values enter at the back; when the buffer outgrows the terminal
//! width, excess is trimmed from the front, so the newest data is always
//! at the end.

use vstd::prelude::*;

verus! {

/// The history after one push: the value is appended, and if the buffer
/// then exceeds `max_width`, the oldest (front) entry is dropped.
pub open spec fn waveform_after_push(h: Seq<u64>, v: u64, max_width: int) -> Seq<u64> {
    let p = h.push(v);
    if p.len() > max_width {
        p.subrange(1, p.len() as int)
    } else {
        p
    }
}

/// The history after a resize to `w` entries: trimmed from the front when
/// shrinking, zero-padded at the front when growing.
pub open spec fn waveform_after_resize(h: Seq<u64>, w: int) -> Seq<u64> {
    if h.len() > w {
        h.subrange(h.len() - w, h.len() as int)
    } else {
        Seq::new((w - h.len()) as nat, |i: int| 0u64) + h
    }
}

/// Appends the current loudness value to the scrolling history, keeping at
/// most `max_width` entries by dropping the oldest.
pub fn update_waveform(history: &mut Vec<u64>, current_volume: u8, max_width: usize)
    ensures
        final(history)@ == waveform_after_push(old(history)@, current_volume as u64, max_width as int),
        max_width > 0 ==> final(history)@.len() > 0 && final(history)@.last() == current_volume as u64,
{
    history.push(current_volume as u64);

    if history.len() > max_width {
        history.remove(0);
        assert(history@ =~= old(history)@.push(current_volume as u64).subrange(
            1,
            old(history)@.push(current_volume as u64).len() as int,
        ));
    }
}

/// Resizes the history to exactly `target_width` entries: excess is trimmed
/// from the front, missing entries are zero-padded at the front.
pub fn resize_waveform(history: &mut Vec<u64>, target_width: usize)
    ensures
        final(history)@ == waveform_after_resize(old(history)@, target_width as int),
        final(history)@.len() == target_width,
{
    if history.len() > target_width {
        while history.len() > target_width
            invariant
                target_width <= history@.len() <= old(history)@.len(),
                history@ == old(history)@.subrange(
                    old(history)@.len() - history@.len(),
                    old(history)@.len() as int,
                ),
            decreases history@.len(),
        {
            history.remove(0);
            assert(history@ =~= old(history)@.subrange(
                old(history)@.len() - history@.len(),
                old(history)@.len() as int,
            ));
        }
    } else if history.len() < target_width {
        while history.len() < target_width
            invariant
                old(history)@.len() <= history@.len() <= target_width,
                history@ == Seq::new(
                    (history@.len() - old(history)@.len()) as nat,
                    |i: int| 0u64,
                ) + old(history)@,
            decreases target_width - history@.len(),
        {
            history.insert(0, 0);
            assert(history@ =~= Seq::new(
                (history@.len() - old(history)@.len()) as nat,
                |i: int| 0u64,
            ) + old(history)@);
        }
    }
    assert(history@ =~= waveform_after_resize(old(history)@, target_width as int));
}

/// The trace never exceeds the display width: a push against a history that
/// fits in `max_width` still fits, and a resize yields exactly `w` entries.
pub proof fn lemma_waveform_width_bound(h: Seq<u64>, v: u64, max_width: int, w: int)
    requires
        h.len() <= max_width,
        w >= 0,
    ensures
        waveform_after_push(h, v, max_width).len() <= max_width,
        waveform_after_resize(h, w).len() == w,
{
}

} // verus!
