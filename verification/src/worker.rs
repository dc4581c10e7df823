use vstd::prelude::*;

verus! {

/// Milliseconds between routine snapshot emissions when no command arrives.
/// The consumer interpolates between snapshots, so the worker deliberately
/// throttles its output to this interval.
pub const STATUS_INTERVAL_MS: u64 = 100;

/// Milliseconds the worker waits for a command before running another
/// bookkeeping pass; the upper bound on command-to-effect latency and the
/// granularity of end-of-track detection.
pub const POLL_INTERVAL_MS: u64 = 20;

/// Timing state owned exclusively by the playback worker.  All instants are
/// wall-clock milliseconds on a single nondecreasing clock supplied by the
/// caller.
pub struct TimingState {
    /// Path of the most recently loaded file, kept to support
    /// replay-from-stopped.
    pub last_loaded_path: Option<String>,
    /// Track length in milliseconds, probed once per load; 0 when unknown.
    pub total_duration: u64,
    /// Instant the current play segment began; `None` exactly when nothing
    /// is loaded or playback is fully stopped.
    pub playback_start: Option<u64>,
    /// Instant the most recent pause began; `None` while playing.
    pub pause_start: Option<u64>,
    /// Sum of all completed pause intervals since `playback_start` was last
    /// reset.
    pub accumulated_pause: u64,
    /// The position that `playback_start` corresponds to (non-zero after a
    /// seek).
    pub seek_offset: u64,
    pub is_playing: bool,
    /// Distinguishes "stream loaded, draining" from "nothing loaded"; the
    /// device-empty signal is ambiguous before any audio has been appended.
    pub has_started: bool,
}

/// What the worker observed while carrying one command out against the audio
/// device.  The device calls themselves (decode, pause, seek, ...) happen
/// outside this library; their outcomes come back in as plain values, and
/// every state change they imply is decided here.
pub enum CommandOutcome {
    /// The command wait timed out; this pass only refreshes bookkeeping.
    NoCommand,
    /// PlayFile: the file was read and decoded; `duration_ms` is the probed
    /// track length (0 when unknown).
    Loaded { path: String, duration_ms: u64 },
    /// PlayFile: the file was unreadable or undecodable.  Prior state is
    /// kept untouched; the absence of a started event is the only signal.
    LoadFailed,
    /// Pause: `device_paused` is what the device reported before the
    /// command was applied; pausing an already-paused device is a no-op.
    PauseCmd { device_paused: bool },
    /// Resume on a drained device with a remembered path: the file was
    /// reloaded and restarted from the beginning.
    ReplayLoaded { duration_ms: u64 },
    /// Resume chose replay but the reload failed; state is kept untouched.
    ReplayFailed,
    /// Resume: the device was paused and was told to play again.
    ResumeFromPause,
    /// Resume: the device was neither drained nor paused; nothing to do.
    ResumeIgnored,
    StopCmd,
    /// SetVolume: forwarded to the device; no timing impact.
    VolumeCmd,
    /// Seek: the device seeked (in place or by rebuilding the stream) to
    /// `target_ms`.
    SeekApplied { target_ms: u64 },
    /// Seek: neither the in-place seek nor the rebuild fallback worked;
    /// state is kept untouched.
    SeekIgnored,
}

impl TimingState {
    /// While playing, no pause is in progress.  Holds of the initial state
    /// and is preserved by every transition.
    pub open spec fn wf(self) -> bool {
        self.is_playing ==> self.pause_start is None
    }

    /// State with nothing loaded.
    pub open spec fn spec_init() -> TimingState {
        TimingState {
            last_loaded_path: None,
            total_duration: 0,
            playback_start: None,
            pause_start: None,
            accumulated_pause: 0,
            seek_offset: 0,
            is_playing: false,
            has_started: false,
        }
    }

    /// The timestamps recorded in the state are consistent with the current
    /// instant `now`: nothing was recorded in the future, and accumulated
    /// pause time cannot exceed elapsed wall-clock time.  Every transition
    /// preserves this for the instant it was given, and it is monotone in
    /// `now`, so a caller feeding a nondecreasing clock maintains it.
    pub open spec fn times_ok(self, now: u64) -> bool {
        &&& (self.playback_start matches Some(t) ==> t <= now)
        &&& (self.pause_start matches Some(t) ==> t <= now)
        &&& (self.pause_start matches Some(t) ==> self.accumulated_pause <= t)
        &&& self.accumulated_pause <= now
    }

    /// Reconstructed playback position at instant `now`:
    /// (elapsed since `playback_start`) + `seek_offset` - (accumulated pause
    /// time including any in-progress pause), floored at 0 and clamped to
    /// `total_duration` when the duration is known.
    pub open spec fn spec_position(self, now: int) -> int {
        match self.playback_start {
            None => 0,
            Some(start) => {
                let raw = now - start;
                let pause_total = match self.pause_start {
                    Some(p) => self.accumulated_pause + (now - p),
                    None => self.accumulated_pause as int,
                };
                let unclamped = if raw + self.seek_offset > pause_total {
                    raw + self.seek_offset - pause_total
                } else {
                    0
                };
                if self.total_duration > 0 && unclamped > self.total_duration {
                    self.total_duration as int
                } else {
                    unclamped
                }
            },
        }
    }

    /// Full reset performed by a successful load: play from the beginning
    /// of `path`, whose length is `duration_ms`.
    pub open spec fn spec_loaded(self, path: String, duration_ms: u64, now: u64) -> TimingState {
        TimingState {
            last_loaded_path: Some(path),
            total_duration: duration_ms,
            playback_start: Some(now),
            pause_start: None,
            accumulated_pause: 0,
            seek_offset: 0,
            is_playing: true,
            has_started: true,
        }
    }

    /// Reset performed by a replay-from-stopped: identical to a load except
    /// that the remembered path is kept as it is.
    pub open spec fn spec_replayed(self, duration_ms: u64, now: u64) -> TimingState {
        TimingState {
            total_duration: duration_ms,
            playback_start: Some(now),
            pause_start: None,
            accumulated_pause: 0,
            seek_offset: 0,
            is_playing: true,
            has_started: true,
            ..self
        }
    }

    /// A pause taking effect: the instant is recorded so the interval can be
    /// folded into `accumulated_pause` on resume.
    pub open spec fn spec_pause_begun(self, now: u64) -> TimingState {
        TimingState { pause_start: Some(now), is_playing: false, ..self }
    }

    /// Resume from a pause: the just-ended pause interval is folded into
    /// `accumulated_pause`.
    pub open spec fn spec_resumed(self, now: u64) -> TimingState {
        TimingState {
            accumulated_pause: match self.pause_start {
                Some(p) => (self.accumulated_pause + (now - p)) as u64,
                None => self.accumulated_pause,
            },
            pause_start: None,
            is_playing: true,
            ..self
        }
    }

    /// Stop: playback halts, but the remembered path and probed duration
    /// stay for an instant replay; a later load resets them anyway.
    pub open spec fn spec_stopped(self) -> TimingState {
        TimingState { is_playing: false, has_started: false, playback_start: None, ..self }
    }

    /// A seek that took effect: `playback_start` now corresponds to
    /// position `target_ms`.  When paused, the pause restarts at `now` so
    /// the displayed position does not silently advance.
    pub open spec fn spec_seek_applied(self, target_ms: u64, now: u64) -> TimingState {
        TimingState {
            playback_start: Some(now),
            accumulated_pause: 0,
            seek_offset: target_ms,
            pause_start: if !self.is_playing {
                Some(now)
            } else {
                self.pause_start
            },
            ..self
        }
    }

    /// The device drained after playback had started: exactly the fields
    /// that mark live playback are cleared.
    pub open spec fn spec_finished_clear(self) -> TimingState {
        TimingState { is_playing: false, has_started: false, playback_start: None, ..self }
    }

    /// State change implied by one command outcome, per the command handling
    /// contract: loads reset everything, pause/resume/seek adjust the
    /// accounting, failures change nothing.
    pub open spec fn spec_apply(self, o: CommandOutcome, now: u64) -> TimingState {
        match o {
            CommandOutcome::NoCommand => self,
            CommandOutcome::Loaded { path, duration_ms } => self.spec_loaded(
                path,
                duration_ms,
                now,
            ),
            CommandOutcome::LoadFailed => self,
            CommandOutcome::PauseCmd { device_paused } => if device_paused {
                self
            } else {
                self.spec_pause_begun(now)
            },
            CommandOutcome::ReplayLoaded { duration_ms } => self.spec_replayed(duration_ms, now),
            CommandOutcome::ReplayFailed => self,
            CommandOutcome::ResumeFromPause => self.spec_resumed(now),
            CommandOutcome::ResumeIgnored => self,
            CommandOutcome::StopCmd => self.spec_stopped(),
            CommandOutcome::VolumeCmd => self,
            CommandOutcome::SeekApplied { target_ms } => self.spec_seek_applied(target_ms, now),
            CommandOutcome::SeekIgnored => self,
        }
    }

    /// Fresh state with nothing loaded.
    pub fn new() -> (r: TimingState)
        ensures
            r == TimingState::spec_init(),
    {
        TimingState {
            last_loaded_path: None,
            total_duration: 0,
            playback_start: None,
            pause_start: None,
            accumulated_pause: 0,
            seek_offset: 0,
            is_playing: false,
            has_started: false,
        }
    }

    /// Executable form of the time reconstruction.
    pub fn position_ms(&self, now: u64) -> (r: u64)
        requires
            self.times_ok(now),
            self.seek_offset + now <= u64::MAX,
        ensures
            r == self.spec_position(now as int),
    {
        match self.playback_start {
            None => 0,
            Some(start) => {
                let raw: u64 = now - start;
                let pause_total: u64 = match self.pause_start {
                    Some(p) => self.accumulated_pause + (now - p),
                    None => self.accumulated_pause,
                };
                let with_seek: u64 = raw + self.seek_offset;
                let unclamped: u64 = if with_seek > pause_total {
                    with_seek - pause_total
                } else {
                    0
                };
                if self.total_duration > 0 && unclamped > self.total_duration {
                    self.total_duration
                } else {
                    unclamped
                }
            },
        }
    }

    /// Resume on a drained device with a remembered path means replay; the
    /// driving loop asks this before deciding whether to reload the file.
    pub fn resume_is_replay(&self, device_empty: bool) -> (r: bool)
        ensures
            r == (device_empty && self.last_loaded_path is Some),
    {
        device_empty && self.last_loaded_path.is_some()
    }

    /// The remembered path, for the driving loop to reload on replay or on
    /// the seek fallback.
    pub fn last_path(&self) -> (r: Option<&String>)
        ensures
            match r {
                Some(p) => self.last_loaded_path == Some(*p),
                None => self.last_loaded_path is None,
            },
    {
        self.last_loaded_path.as_ref()
    }
}

/// A point-in-time report sent from the worker to the consumer.
#[derive(PartialEq, Eq, Structural, Clone, Copy, Debug)]
pub struct Snapshot {
    pub position_ms: u64,
    pub duration_ms: u64,
    pub is_playing: bool,
}

/// Everything one worker pass emits, in emission order: an optional
/// started announcement, then either a finished event or an optional
/// snapshot (never both).
pub struct StepEmit {
    /// Path of a freshly loaded track, announced before anything else.
    pub started: Option<String>,
    /// The loaded track's audio has been fully consumed.
    pub finished: bool,
    /// Routine or command-forced report; absent on a finished pass.
    pub snapshot: Option<Snapshot>,
}

/// The worker's whole loop-carried state: timing plus snapshot throttling.
pub struct PlaybackWorker {
    pub timing: TimingState,
    /// Instant the last snapshot was emitted.
    pub last_emit: u64,
    /// A command was processed and the next pass owes the consumer a
    /// snapshot regardless of the throttle timer.
    pub force_emit: bool,
}

impl PlaybackWorker {
    /// One pass of the worker loop on `w` at instant `now`: apply the
    /// command outcome, detect end-of-track (which outranks a routine
    /// snapshot), then emit a snapshot if owed or if the throttle interval
    /// has elapsed.
    pub open spec fn spec_step(w: PlaybackWorker, o: CommandOutcome, device_empty: bool, now: u64) -> (
        PlaybackWorker,
        StepEmit,
    ) {
        let t1 = w.timing.spec_apply(o, now);
        let force = w.force_emit || !(o is NoCommand);
        let started = match o {
            CommandOutcome::Loaded { path, .. } => Some(path),
            _ => None,
        };
        if t1.has_started && device_empty {
            (
                PlaybackWorker { timing: t1.spec_finished_clear(), last_emit: w.last_emit, force_emit: force },
                StepEmit { started, finished: true, snapshot: None },
            )
        } else if force || now >= w.last_emit + STATUS_INTERVAL_MS {
            (
                PlaybackWorker { timing: t1, last_emit: now, force_emit: false },
                StepEmit {
                    started,
                    finished: false,
                    snapshot: Some(
                        Snapshot {
                            position_ms: t1.spec_position(now as int) as u64,
                            duration_ms: t1.total_duration,
                            is_playing: t1.is_playing,
                        },
                    ),
                },
            )
        } else {
            (
                PlaybackWorker { timing: t1, last_emit: w.last_emit, force_emit: force },
                StepEmit { started, finished: false, snapshot: None },
            )
        }
    }

    /// Worker state at startup, before any command.
    pub fn new(now: u64) -> (r: PlaybackWorker)
        ensures
            r.timing == TimingState::spec_init(),
            r.last_emit == now,
            !r.force_emit,
    {
        PlaybackWorker { timing: TimingState::new(), last_emit: now, force_emit: false }
    }

    /// One pass of the worker loop; the executable form of `spec_step`.
    /// The driving loop performs the device work for the received command,
    /// hands the outcome in, performs the device work the emissions call
    /// for, and sends the emitted events in order.
    pub fn step(&mut self, o: CommandOutcome, device_empty: bool, now: u64) -> (emit: StepEmit)
        requires
            old(self).timing.times_ok(now),
            old(self).last_emit <= now,
            old(self).timing.seek_offset + now <= u64::MAX,
            o matches CommandOutcome::SeekApplied { target_ms } ==> target_ms + now
                <= u64::MAX,
        ensures
            (*final(self), emit) == PlaybackWorker::spec_step(*old(self), o, device_empty, now),
            final(self).timing.times_ok(now),
            final(self).last_emit <= now,
    {
        let mut started: Option<String> = None;
        match o {
            CommandOutcome::NoCommand => {},
            CommandOutcome::Loaded { path, duration_ms } => {
                started = Some(path.clone());
                self.timing = TimingState {
                    last_loaded_path: Some(path),
                    total_duration: duration_ms,
                    playback_start: Some(now),
                    pause_start: None,
                    accumulated_pause: 0,
                    seek_offset: 0,
                    is_playing: true,
                    has_started: true,
                };
                self.force_emit = true;
            },
            CommandOutcome::LoadFailed => {
                self.force_emit = true;
            },
            CommandOutcome::PauseCmd { device_paused } => {
                if !device_paused {
                    self.timing.pause_start = Some(now);
                    self.timing.is_playing = false;
                }
                self.force_emit = true;
            },
            CommandOutcome::ReplayLoaded { duration_ms } => {
                self.timing.total_duration = duration_ms;
                self.timing.playback_start = Some(now);
                self.timing.pause_start = None;
                self.timing.accumulated_pause = 0;
                self.timing.seek_offset = 0;
                self.timing.is_playing = true;
                self.timing.has_started = true;
                self.force_emit = true;
            },
            CommandOutcome::ReplayFailed => {
                self.force_emit = true;
            },
            CommandOutcome::ResumeFromPause => {
                match self.timing.pause_start {
                    Some(p) => {
                        self.timing.accumulated_pause = self.timing.accumulated_pause + (now - p);
                    },
                    None => {},
                }
                self.timing.pause_start = None;
                self.timing.is_playing = true;
                self.force_emit = true;
            },
            CommandOutcome::ResumeIgnored => {
                self.force_emit = true;
            },
            CommandOutcome::StopCmd => {
                self.timing.is_playing = false;
                self.timing.has_started = false;
                self.timing.playback_start = None;
                self.force_emit = true;
            },
            CommandOutcome::VolumeCmd => {
                self.force_emit = true;
            },
            CommandOutcome::SeekApplied { target_ms } => {
                self.timing.playback_start = Some(now);
                self.timing.accumulated_pause = 0;
                self.timing.seek_offset = target_ms;
                if !self.timing.is_playing {
                    self.timing.pause_start = Some(now);
                }
                self.force_emit = true;
            },
            CommandOutcome::SeekIgnored => {
                self.force_emit = true;
            },
        }

        let position = self.timing.position_ms(now);

        if self.timing.has_started && device_empty {
            self.timing.has_started = false;
            self.timing.is_playing = false;
            self.timing.playback_start = None;
            StepEmit { started, finished: true, snapshot: None }
        } else if self.force_emit || now - self.last_emit >= STATUS_INTERVAL_MS {
            let snapshot = Snapshot {
                position_ms: position,
                duration_ms: self.timing.total_duration,
                is_playing: self.timing.is_playing,
            };
            self.last_emit = now;
            self.force_emit = false;
            StepEmit { started, finished: false, snapshot: Some(snapshot) }
        } else {
            StepEmit { started, finished: false, snapshot: None }
        }
    }
}

/// Every transition keeps the play/pause well-formedness: a state that is
/// playing has no pause in progress.
pub proof fn lemma_apply_preserves_wf(s: TimingState, o: CommandOutcome, now: u64)
    requires
        s.wf(),
    ensures
        s.spec_apply(o, now).wf(),
{
}

/// Every transition keeps the timestamps consistent with the instant it was
/// given.
pub proof fn lemma_apply_preserves_times_ok(s: TimingState, o: CommandOutcome, now: u64)
    requires
        s.times_ok(now),
    ensures
        s.spec_apply(o, now).times_ok(now),
{
}

/// Timestamp consistency carries forward to any later instant, so a caller
/// feeding a nondecreasing clock maintains it across passes.
pub proof fn lemma_times_ok_monotone(s: TimingState, now1: u64, now2: u64)
    requires
        s.times_ok(now1),
        now1 <= now2,
    ensures
        s.times_ok(now2),
{
}

/// The reconstructed position is never negative, and never exceeds a known
/// total duration.
pub proof fn lemma_position_bounds(s: TimingState, now: int)
    ensures
        0 <= s.spec_position(now),
        s.total_duration > 0 ==> s.spec_position(now) <= s.total_duration,
{
}

/// Idempotent pause: once a pause has taken effect the device reports
/// itself paused, so a second pause command changes nothing.
pub proof fn lemma_pause_idempotent(s: TimingState, now1: u64, now2: u64)
    ensures
        s.spec_apply(CommandOutcome::PauseCmd { device_paused: false }, now1).spec_apply(
            CommandOutcome::PauseCmd { device_paused: true },
            now2,
        ) == s.spec_apply(CommandOutcome::PauseCmd { device_paused: false }, now1),
{
}

/// Seek monotonic clamp: a seek to any target at or beyond a known total
/// duration settles at exactly the total duration, at the instant the seek
/// takes effect and at every later instant, playing or paused.
pub proof fn lemma_seek_clamped_to_duration(s: TimingState, target_ms: u64, now: u64, later: int)
    requires
        s.wf(),
        s.total_duration > 0,
        target_ms >= s.total_duration,
        now <= later,
    ensures
        s.spec_seek_applied(target_ms, now).spec_position(later) == s.total_duration,
{
}

/// Pause/resume time accounting: after playing for `t1`, pausing for `t2`,
/// then resuming and playing for `t3` more, the reconstructed position is
/// `t1 + t3` (clamped to a known duration); paused time never counts.
pub proof fn lemma_pause_resume_accounting(
    s: TimingState,
    path: String,
    duration_ms: u64,
    t0: u64,
    t1: u64,
    t2: u64,
    t3: u64,
)
    requires
        t0 + t1 + t2 + t3 <= u64::MAX,
    ensures
        ({
            let playing = s.spec_loaded(path, duration_ms, t0);
            let paused = playing.spec_apply(
                CommandOutcome::PauseCmd { device_paused: false },
                (t0 + t1) as u64,
            );
            let resumed = paused.spec_apply(CommandOutcome::ResumeFromPause, (t0 + t1 + t2) as u64);
            resumed.spec_position(t0 + t1 + t2 + t3) == if duration_ms > 0 && t1 + t3 > duration_ms {
                duration_ms as int
            } else {
                t1 + t3
            }
        }),
{
}

/// Replay-from-stopped: after Stop, a Resume that reloads the remembered
/// file restarts playback at position 0 without a fresh load command.
pub proof fn lemma_replay_from_stopped(s: TimingState, duration_ms: u64, t_stop: u64, t_resume: u64)
    ensures
        ({
            let stopped = s.spec_apply(CommandOutcome::StopCmd, t_stop);
            let replayed = stopped.spec_apply(
                CommandOutcome::ReplayLoaded { duration_ms },
                t_resume,
            );
            &&& replayed.spec_position(t_resume as int) == 0
            &&& replayed.is_playing
            &&& replayed.has_started
            &&& replayed.last_loaded_path == s.last_loaded_path
        }),
{
}

/// Finished transition: a pass emits the finished event exactly when the
/// device reports drained while a started stream is live, the event
/// displaces the snapshot of that pass, and it clears `has_started`, so it
/// cannot fire twice for one track.
pub proof fn lemma_finished_exactly_once(
    w: PlaybackWorker,
    o: CommandOutcome,
    device_empty: bool,
    now: u64,
)
    ensures
        ({
            let (w2, emit) = PlaybackWorker::spec_step(w, o, device_empty, now);
            &&& emit.finished == (w.timing.spec_apply(o, now).has_started && device_empty)
            &&& (emit.finished ==> !w2.timing.has_started && !w2.timing.is_playing
                && emit.snapshot is None)
        }),
{
}

/// After a finished event, passes that process no load keep the stream
/// down: no further finished event, and every snapshot reports
/// `is_playing == false`.  Only a fresh load or a replay restarts
/// playback, and a resume on the drained device is a replay.
pub proof fn lemma_quiet_after_finished(
    w: PlaybackWorker,
    o: CommandOutcome,
    device_empty: bool,
    now: u64,
)
    requires
        !w.timing.has_started,
        !w.timing.is_playing,
        !(o matches CommandOutcome::Loaded { .. }),
        !(o matches CommandOutcome::ReplayLoaded { .. }),
        !(o is ResumeFromPause),
    ensures
        ({
            let (w2, emit) = PlaybackWorker::spec_step(w, o, device_empty, now);
            &&& !emit.finished
            &&& !w2.timing.has_started
            &&& !w2.timing.is_playing
            &&& (emit.snapshot matches Some(sn) ==> !sn.is_playing)
        }),
{
}

/// Throttle correctness: on a pass with no command and no snapshot owed, a
/// snapshot is emitted exactly when the throttle interval has elapsed since
/// the last one, and emitting resets the timer to `now`; consecutive
/// routine snapshots are therefore at least `STATUS_INTERVAL_MS` apart.
pub proof fn lemma_throttle_interval(w: PlaybackWorker, device_empty: bool, now: u64)
    requires
        !w.force_emit,
    ensures
        ({
            let (w2, emit) = PlaybackWorker::spec_step(
                w,
                CommandOutcome::NoCommand,
                device_empty,
                now,
            );
            &&& (emit.snapshot is Some <==> !emit.finished && now >= w.last_emit
                + STATUS_INTERVAL_MS)
            &&& (emit.snapshot is Some ==> w2.last_emit == now)
            &&& (emit.snapshot is None ==> w2.last_emit == w.last_emit)
        }),
{
}

/// Command-forces-update: every processed command is immediately followed
/// by an emission -- the finished event or a snapshot -- regardless of the
/// throttle timer, and a fresh load announces itself with a started event
/// besides.
pub proof fn lemma_command_forces_emission(
    w: PlaybackWorker,
    o: CommandOutcome,
    device_empty: bool,
    now: u64,
)
    requires
        !(o is NoCommand),
    ensures
        ({
            let (w2, emit) = PlaybackWorker::spec_step(w, o, device_empty, now);
            &&& emit.finished || emit.snapshot is Some
            &&& (o matches CommandOutcome::Loaded { path, .. } ==> emit.started == Some(path))
        }),
{
}

} // verus!
