use vstd::prelude::*;

verus! {

/// Milliseconds within which a worker-reported position counts as having
/// converged to an optimistic seek target.  Deliberately coarser than the
/// worker's snapshot throttle, to absorb device seek imprecision.
pub const SEEK_TOLERANCE_MS: u64 = 1000;

/// Distance between two positions, in milliseconds.
pub open spec fn abs_diff(a: u64, b: u64) -> int {
    if a >= b {
        a - b
    } else {
        b - a
    }
}

/// `x` clamped to the interval [0, `duration_ms`].
pub open spec fn clamp_to(x: int, duration_ms: u64) -> int {
    if x < 0 {
        0
    } else if x > duration_ms {
        duration_ms as int
    } else {
        x
    }
}

/// Interpolation state owned by the status consumer.  It renders a smoothly
/// advancing position between the worker's throttled snapshots, stays
/// eventually consistent with the worker's authoritative value, and never
/// fights an in-progress seek gesture.  All instants are milliseconds on
/// the consumer's own nondecreasing clock.
pub struct Interpolator {
    /// Last position adopted from a snapshot (or from a drag in progress).
    pub current_position: u64,
    /// Track length from the last snapshot; 0 when unknown.
    pub total_duration: u64,
    /// Playing state from the last snapshot (or local feedback).
    pub is_playing: bool,
    /// Local instant at which `current_position` was last known accurate;
    /// `None` suppresses interpolation.
    pub last_sync_time: Option<u64>,
    /// True while the user is dragging a seek control; suppresses all
    /// incoming position overwrites.
    pub is_seeking: bool,
    /// Optimistic position set when a seek gesture is released, held until
    /// the worker's reported position converges to it.
    pub seek_target: Option<u64>,
}

impl Interpolator {
    /// State before any snapshot has arrived.
    pub open spec fn spec_init() -> Interpolator {
        Interpolator {
            current_position: 0,
            total_duration: 0,
            is_playing: false,
            last_sync_time: None,
            is_seeking: false,
            seek_target: None,
        }
    }

    /// Recorded sync instants are never in the future.
    pub open spec fn times_ok(self, now: u64) -> bool {
        self.last_sync_time matches Some(t) ==> t <= now
    }

    /// Effect of one incoming snapshot.  Duration and playing state are
    /// always adopted.  The position is adopted unless a drag is in
    /// progress, or an optimistic seek target is pending and the report
    /// has not yet converged to it (within `SEEK_TOLERANCE_MS`).
    pub open spec fn spec_apply_snapshot(
        self,
        position: u64,
        duration: u64,
        playing: bool,
        now: u64,
    ) -> Interpolator {
        let base = Interpolator { total_duration: duration, is_playing: playing, ..self };
        if self.is_seeking {
            base
        } else {
            match self.seek_target {
                Some(target) => if abs_diff(position, target) < SEEK_TOLERANCE_MS {
                    Interpolator {
                        seek_target: None,
                        current_position: position,
                        last_sync_time: Some(now),
                        ..base
                    }
                } else {
                    base
                },
                None => Interpolator {
                    current_position: position,
                    last_sync_time: Some(now),
                    ..base
                },
            }
        }
    }

    /// Displayed position at instant `now`: the last known position,
    /// advanced by local elapsed time while playing with no seek gesture or
    /// pending target, and always clamped to [0, total_duration].
    pub open spec fn spec_display(self, now: int) -> int {
        let raw = if self.is_playing && !self.is_seeking && self.seek_target is None {
            match self.last_sync_time {
                Some(ls) => self.current_position + (now - ls),
                None => self.current_position as int,
            }
        } else {
            self.current_position as int
        };
        clamp_to(raw, self.total_duration)
    }

    /// Fresh state, before any snapshot.
    pub fn new() -> (r: Interpolator)
        ensures
            r == Interpolator::spec_init(),
    {
        Interpolator {
            current_position: 0,
            total_duration: 0,
            is_playing: false,
            last_sync_time: None,
            is_seeking: false,
            seek_target: None,
        }
    }

    /// Consume one snapshot from the worker.
    pub fn apply_snapshot(&mut self, position: u64, duration: u64, playing: bool, now: u64)
        ensures
            *final(self) == old(self).spec_apply_snapshot(position, duration, playing, now),
    {
        if !self.is_seeking {
            match self.seek_target {
                Some(target) => {
                    let diff: u64 = if position > target {
                        position - target
                    } else {
                        target - position
                    };
                    if diff < SEEK_TOLERANCE_MS {
                        self.seek_target = None;
                        self.current_position = position;
                        self.last_sync_time = Some(now);
                    }
                },
                None => {
                    self.current_position = position;
                    self.last_sync_time = Some(now);
                },
            }
        }
        self.total_duration = duration;
        self.is_playing = playing;
    }

    /// Displayed position at instant `now`; the executable form of
    /// `spec_display`.
    pub fn display_position(&self, now: u64) -> (r: u64)
        requires
            self.times_ok(now),
        ensures
            r == self.spec_display(now as int),
    {
        let raw: u128 = if self.is_playing && !self.is_seeking && self.seek_target.is_none() {
            match self.last_sync_time {
                Some(ls) => self.current_position as u128 + (now - ls) as u128,
                None => self.current_position as u128,
            }
        } else {
            self.current_position as u128
        };
        if raw > self.total_duration as u128 {
            self.total_duration
        } else {
            raw as u64
        }
    }

    /// A seek gesture began: incoming snapshots must not move the
    /// displayed position while the user drags.
    pub fn begin_seek(&mut self)
        ensures
            *final(self) == (Interpolator { is_seeking: true, ..*old(self) }),
    {
        self.is_seeking = true;
    }

    /// The drag moved to `position_ms`: show it directly, and suppress
    /// interpolation drift for as long as the drag overrides syncing.
    pub fn drag_to(&mut self, position_ms: u64)
        ensures
            *final(self) == (Interpolator {
                current_position: position_ms,
                last_sync_time: None,
                ..*old(self)
            }),
    {
        self.current_position = position_ms;
        self.last_sync_time = None;
    }

    /// The gesture was released at `target_ms`: hold that optimistic
    /// position until the worker converges to it.  The caller sends the
    /// matching seek command to the worker.
    pub fn end_seek(&mut self, target_ms: u64)
        ensures
            *final(self) == (Interpolator {
                seek_target: Some(target_ms),
                is_seeking: false,
                ..*old(self)
            }),
    {
        self.seek_target = Some(target_ms);
        self.is_seeking = false;
    }

    /// A new track started (a local play action or the worker's started
    /// event): position restarts at zero and interpolation re-syncs now.
    pub fn mark_started(&mut self, now: u64)
        ensures
            *final(self) == (Interpolator {
                is_playing: true,
                last_sync_time: Some(now),
                current_position: 0,
                ..*old(self)
            }),
    {
        self.is_playing = true;
        self.last_sync_time = Some(now);
        self.current_position = 0;
    }

    /// Local resume feedback: playback continues from the held position,
    /// and interpolation re-syncs now.
    pub fn mark_resumed(&mut self, now: u64)
        ensures
            *final(self) == (Interpolator {
                is_playing: true,
                last_sync_time: Some(now),
                ..*old(self)
            }),
    {
        self.is_playing = true;
        self.last_sync_time = Some(now);
    }

    /// Local pause feedback: freeze the displayed position at once rather
    /// than waiting for the worker's next snapshot.
    pub fn mark_paused(&mut self)
        ensures
            *final(self) == (Interpolator {
                is_playing: false,
                last_sync_time: None,
                ..*old(self)
            }),
    {
        self.is_playing = false;
        self.last_sync_time = None;
    }

    /// Local stop feedback: the position returns to zero immediately.
    pub fn mark_stopped(&mut self)
        ensures
            *final(self) == (Interpolator {
                is_playing: false,
                last_sync_time: None,
                current_position: 0,
                ..*old(self)
            }),
    {
        self.is_playing = false;
        self.last_sync_time = None;
        self.current_position = 0;
    }
}

/// The displayed position always lies within [0, total_duration].
pub proof fn lemma_display_bounds(c: Interpolator, now: int)
    ensures
        0 <= c.spec_display(now) <= c.total_duration,
{
}

/// Seek reconciliation convergence: while an optimistic target is pending
/// and no drag is in progress, a snapshot within tolerance of the target
/// clears the target, adopts the reported position and re-arms
/// interpolation at `now`; one outside tolerance leaves target, position
/// and sync instant alone.  Duration and playing state are adopted either
/// way.
pub proof fn lemma_seek_convergence(
    c: Interpolator,
    target: u64,
    position: u64,
    duration: u64,
    playing: bool,
    now: u64,
)
    requires
        !c.is_seeking,
        c.seek_target == Some(target),
    ensures
        ({
            let c2 = c.spec_apply_snapshot(position, duration, playing, now);
            &&& (abs_diff(position, target) < SEEK_TOLERANCE_MS ==> c2.seek_target is None
                && c2.current_position == position && c2.last_sync_time == Some(now))
            &&& (abs_diff(position, target) >= SEEK_TOLERANCE_MS ==> c2.seek_target == Some(target)
                && c2.current_position == c.current_position && c2.last_sync_time
                == c.last_sync_time)
            &&& c2.total_duration == duration
            &&& c2.is_playing == playing
        }),
{
}

/// After convergence the display tracks worker-reported values again: it
/// advances from the adopted position with local elapsed time (clamped to
/// the duration) while playing.
pub proof fn lemma_display_tracks_after_convergence(
    c: Interpolator,
    target: u64,
    position: u64,
    duration: u64,
    now: u64,
    later: int,
)
    requires
        !c.is_seeking,
        c.seek_target == Some(target),
        abs_diff(position, target) < SEEK_TOLERANCE_MS,
        now <= later,
    ensures
        c.spec_apply_snapshot(position, duration, true, now).spec_display(later) == clamp_to(
            position + (later - now),
            duration,
        ),
{
}

} // verus!
