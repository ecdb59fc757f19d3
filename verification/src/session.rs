//! The decision core of the recording loop: what one tick does, how user
//! input maps to commands, and the bookkeeping of paused time and the
//! sampling cadence. The loop around it (event polling, rendering,
//! signals) is unverified glue that feeds plain values in and carries the
//! decisions out.

use vstd::prelude::*;

verus! {

/// What the user asked for during one input poll.
#[derive(Debug, Clone, Copy, PartialEq, Eq, Structural)]
pub enum RecordingCommand {
    /// No key, or an unrecognized one: keep recording.
    Continue,
    /// Stop and transcribe the take.
    Transcribe,
    /// Stop and discard the take.
    Cancel,
    /// Flip between paused and recording.
    TogglePause,
}

/// The keys the recording loop reacts to, as plain values.
#[derive(Debug, Clone, Copy, PartialEq, Eq, Structural)]
pub enum KeyPress {
    Enter,
    Escape,
    Char(char),
    Other,
}

/// The command a key press maps to: Enter transcribes, Escape and `q`
/// cancel (as does Ctrl-C), space toggles pause, anything else continues.
pub open spec fn command_for(key: KeyPress, ctrl: bool) -> RecordingCommand {
    match key {
        KeyPress::Enter => RecordingCommand::Transcribe,
        KeyPress::Escape => RecordingCommand::Cancel,
        KeyPress::Char(c) => if c == 'q' {
            RecordingCommand::Cancel
        } else if c == 'c' && ctrl {
            RecordingCommand::Cancel
        } else if c == ' ' {
            RecordingCommand::TogglePause
        } else {
            RecordingCommand::Continue
        },
        KeyPress::Other => RecordingCommand::Continue,
    }
}

/// Maps one key press (with the control-modifier state) to its command.
pub fn interpret_key(key: KeyPress, ctrl: bool) -> (r: RecordingCommand)
    ensures
        r == command_for(key, ctrl),
{
    match key {
        KeyPress::Enter => RecordingCommand::Transcribe,
        KeyPress::Escape => RecordingCommand::Cancel,
        KeyPress::Char(c) => {
            if c == 'q' {
                RecordingCommand::Cancel
            } else if c == 'c' && ctrl {
                RecordingCommand::Cancel
            } else if c == ' ' {
                RecordingCommand::TogglePause
            } else {
                RecordingCommand::Continue
            }
        },
        KeyPress::Other => RecordingCommand::Continue,
    }
}

/// What one tick of the loop does next.
#[derive(Debug, Clone, Copy, PartialEq, Eq, Structural)]
pub enum TickAction {
    /// Pull fresh samples, update the meters, render.
    Refresh,
    /// Leave the loop and hand the take to transcription.
    FinishTranscribe,
    /// Leave the loop and discard the take.
    FinishCancel,
    /// Flip the pause state on the capture side, then render.
    FlipPause,
}

/// The tick decision: an external trigger (an OS signal, checked before
/// any input) forces transcription; otherwise the polled command decides.
pub open spec fn tick_action(external_trigger: bool, cmd: RecordingCommand) -> TickAction {
    if external_trigger {
        TickAction::FinishTranscribe
    } else {
        match cmd {
            RecordingCommand::Continue => TickAction::Refresh,
            RecordingCommand::Transcribe => TickAction::FinishTranscribe,
            RecordingCommand::Cancel => TickAction::FinishCancel,
            RecordingCommand::TogglePause => TickAction::FlipPause,
        }
    }
}

/// Decides what this tick does.
pub fn decide_tick(external_trigger: bool, cmd: RecordingCommand) -> (r: TickAction)
    ensures
        r == tick_action(external_trigger, cmd),
{
    if external_trigger {
        TickAction::FinishTranscribe
    } else {
        match cmd {
            RecordingCommand::Continue => TickAction::Refresh,
            RecordingCommand::Transcribe => TickAction::FinishTranscribe,
            RecordingCommand::Cancel => TickAction::FinishCancel,
            RecordingCommand::TogglePause => TickAction::FlipPause,
        }
    }
}

/// Wall-clock bookkeeping of one recording session, in milliseconds of a
/// monotone clock: when it started, how much time has been spent paused,
/// and when the display last pulled samples. Recording time excludes
/// paused intervals.
pub struct SessionClock {
    started_at_ms: u64,
    last_sample_ms: u64,
    paused: bool,
    pause_total_ms: u64,
    pause_started_ms: u64,
}

impl SessionClock {
    pub closed spec fn started_at(&self) -> u64 {
        self.started_at_ms
    }

    pub closed spec fn last_sample_at(&self) -> u64 {
        self.last_sample_ms
    }

    pub closed spec fn paused_state(&self) -> bool {
        self.paused
    }

    pub closed spec fn pause_total(&self) -> u64 {
        self.pause_total_ms
    }

    pub closed spec fn pause_started_at(&self) -> u64 {
        self.pause_started_ms
    }

    /// Well-formedness against the current instant `t`: no stored time
    /// lies in the future, and the accounted pause time fits inside the
    /// elapsed session time.
    pub open spec fn wf_at(&self, t: u64) -> bool {
        &&& self.started_at() <= t
        &&& self.last_sample_at() <= t
        &&& if self.paused_state() {
            &&& self.started_at() <= self.pause_started_at() <= t
            &&& self.started_at() + self.pause_total() <= self.pause_started_at()
        } else {
            self.started_at() + self.pause_total() <= t
        }
    }

    /// Recording time elapsed at instant `t`, excluding paused intervals
    /// (the running pause, if any, counts up to `t`).
    pub open spec fn active_ms_at(&self, t: u64) -> int {
        if self.paused_state() {
            self.pause_started_at() - self.started_at() - self.pause_total()
        } else {
            t - self.started_at() - self.pause_total()
        }
    }

    /// Starts the session clock at instant `now_ms`, unpaused.
    pub fn new(now_ms: u64) -> (c: Self)
        ensures
            c.wf_at(now_ms),
            c.started_at() == now_ms,
            c.last_sample_at() == now_ms,
            !c.paused_state(),
            c.pause_total() == 0,
    {
        SessionClock {
            started_at_ms: now_ms,
            last_sample_ms: now_ms,
            paused: false,
            pause_total_ms: 0,
            pause_started_ms: 0,
        }
    }

    /// Whether the session is currently paused.
    pub fn is_paused(&self) -> (p: bool)
        ensures
            p == self.paused_state(),
    {
        self.paused
    }

    /// Flips the pause state at instant `now_ms`. Pausing notes when the
    /// pause began; resuming adds the pause's length to the total.
    pub fn toggle_pause(&mut self, now_ms: u64)
        requires
            old(self).wf_at(now_ms),
        ensures
            final(self).wf_at(now_ms),
            final(self).paused_state() == !old(self).paused_state(),
            final(self).started_at() == old(self).started_at(),
            final(self).last_sample_at() == old(self).last_sample_at(),
            old(self).paused_state() ==> final(self).pause_total() == old(self).pause_total() + (
            now_ms - old(self).pause_started_at()),
            !old(self).paused_state() ==> final(self).pause_total() == old(self).pause_total()
                && final(self).pause_started_at() == now_ms,
    {
        if self.paused {
            self.pause_total_ms = self.pause_total_ms + (now_ms - self.pause_started_ms);
            self.paused = false;
        } else {
            self.pause_started_ms = now_ms;
            self.paused = true;
        }
    }

    /// Recording time elapsed at instant `now_ms`, excluding every paused
    /// interval.
    pub fn recording_duration_ms(&self, now_ms: u64) -> (d: u64)
        requires
            self.wf_at(now_ms),
        ensures
            d == self.active_ms_at(now_ms),
    {
        if self.paused {
            self.pause_started_ms - self.started_at_ms - self.pause_total_ms
        } else {
            now_ms - self.started_at_ms - self.pause_total_ms
        }
    }

    /// Whether the display is due to pull fresh samples: not while
    /// paused, and only once the sampling interval has elapsed.
    pub fn sample_due(&self, now_ms: u64, interval_ms: u64) -> (r: bool)
        requires
            self.wf_at(now_ms),
        ensures
            r == (!self.paused_state() && now_ms - self.last_sample_at() >= interval_ms),
    {
        !self.paused && now_ms - self.last_sample_ms >= interval_ms
    }

    /// Notes that the display pulled samples at instant `now_ms`.
    pub fn mark_sampled(&mut self, now_ms: u64)
        requires
            old(self).wf_at(now_ms),
        ensures
            final(self).wf_at(now_ms),
            final(self).last_sample_at() == now_ms,
            final(self).started_at() == old(self).started_at(),
            final(self).paused_state() == old(self).paused_state(),
            final(self).pause_total() == old(self).pause_total(),
            final(self).pause_started_at() == old(self).pause_started_at(),
    {
        self.last_sample_ms = now_ms;
    }
}

} // verus!
