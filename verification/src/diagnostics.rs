//! Diagnostics bookkeeping: voice sessions, per-minute counters, and the small HTTP interface
//! that reports them.
//!
//! The measured signal statistics (energies, rates) are floating point and are kept by the
//! caller; what is counted and decided here is on integers and states only. A session
//! record carries the caller's statistics as an opaque payload.
use vstd::prelude::*;

use std::collections::VecDeque;

use crate::state::SatelliteState;
use crate::json::str_eq;
use crate::text::{is_white_space, skip_space, skip_space_at, trim, trim_text, white_space};
use crate::text::{decimal, push_decimal};

verus! {

// ============================================================================
// Sessions
// ============================================================================

/// How a voice session ended.
#[derive(Debug, Clone, Copy, PartialEq, Eq, Structural)]
pub enum SessionOutcome {
    /// Streaming went back to idle without reaching processing (most common false trigger).
    SilenceTimeout,
    /// Reached processing or responding.
    Completed,
    /// Connection lost during the session.
    Disconnected,
}

/// How far along the pipeline a state is.
pub open spec fn state_rank(s: SatelliteState) -> nat {
    match s {
        SatelliteState::Idle => 0,
        SatelliteState::Streaming => 1,
        SatelliteState::Triggered => 2,
        SatelliteState::Processing => 3,
        SatelliteState::Responding => 4,
    }
}

fn rank(s: SatelliteState) -> (r: u8)
    ensures
        r == state_rank(s),
{
    match s {
        SatelliteState::Idle => 0,
        SatelliteState::Streaming => 1,
        SatelliteState::Triggered => 2,
        SatelliteState::Processing => 3,
        SatelliteState::Responding => 4,
    }
}

/// The furthest along the pipeline of a session's peak and a state it goes through.
pub open spec fn peak_update(peak: SatelliteState, s: SatelliteState) -> SatelliteState {
    if state_rank(s) > state_rank(peak) {
        s
    } else {
        peak
    }
}

/// The session in progress: when it began and the furthest state it reached.
#[derive(Debug, Clone, Copy, PartialEq, Eq, Structural)]
pub struct ActiveSession {
    pub onset_uptime_ms: u64,
    pub peak_state: SatelliteState,
}

/// A finished session, with the caller's signal statistics for it.
#[derive(Debug, Clone)]
pub struct SessionRecord<S> {
    pub onset_uptime_ms: u64,
    pub duration_ms: u64,
    pub peak_state: SatelliteState,
    pub outcome: SessionOutcome,
    pub stats: S,
}

/// The most records a log made with room for `max` keeps: a log with no room still keeps
/// the latest one.
pub open spec fn session_bound(max: nat) -> nat {
    if max == 0 {
        1
    } else {
        max
    }
}

/// The records after appending `rec`: the oldest makes way once `max` are held.
pub open spec fn session_push<S>(records: Seq<SessionRecord<S>>, rec: SessionRecord<S>, max: nat) -> Seq<
    SessionRecord<S>,
> {
    if records.len() >= max && records.len() > 0 {
        records.drop_first().push(rec)
    } else {
        records.push(rec)
    }
}

/// The peak after a session goes through `states` one after another, from `start`.
pub open spec fn peak_after(start: SatelliteState, states: Seq<SatelliteState>) -> SatelliteState
    decreases states.len(),
{
    if states.len() == 0 {
        start
    } else {
        peak_update(peak_after(start, states.drop_last()), states.last())
    }
}

/// A session's peak is the furthest state it went through: it is the starting state or one
/// of the states gone through, and none of them is further along.
pub proof fn lemma_peak_is_furthest(start: SatelliteState, states: Seq<SatelliteState>)
    ensures
        peak_after(start, states) == start || states.contains(peak_after(start, states)),
        state_rank(start) <= state_rank(peak_after(start, states)),
        forall|i: int| 0 <= i < states.len() ==> state_rank(#[trigger] states[i]) <= state_rank(peak_after(start, states)),
    decreases states.len(),
{
    if states.len() > 0 {
        let prev = states.drop_last();
        lemma_peak_is_furthest(start, prev);
        let p = peak_after(start, prev);
        if p != start {
            let j = choose|j: int| 0 <= j < prev.len() && prev[j] == p;
            assert(states[j] == p);
        }
        assert(states[states.len() - 1] == states.last());
        assert forall|i: int| 0 <= i < states.len() implies state_rank(#[trigger] states[i]) <= state_rank(
            peak_after(start, states),
        ) by {
            if i < states.len() - 1 {
                assert(states[i] == prev[i]);
            }
        }
    }
}

/// The log after finished sessions are appended one after another.
pub open spec fn session_log_after<S>(records: Seq<SessionRecord<S>>, pushed: Seq<SessionRecord<S>>, max: nat) -> Seq<
    SessionRecord<S>,
>
    decreases pushed.len(),
{
    if pushed.len() == 0 {
        records
    } else {
        session_push(session_log_after(records, pushed.drop_last(), max), pushed.last(), max)
    }
}

/// The session log keeps exactly the latest sessions, oldest first: after any sequence of
/// sessions logged into an empty log, it holds the last `session_bound(max)` of them (all
/// of them when fewer).
pub proof fn lemma_session_log_keeps_latest<S>(pushed: Seq<SessionRecord<S>>, max: nat)
    ensures
        session_log_after(Seq::empty(), pushed, max) == pushed.subrange(
            if pushed.len() > session_bound(max) {
                pushed.len() - session_bound(max)
            } else {
                0
            },
            pushed.len() as int,
        ),
    decreases pushed.len(),
{
    if pushed.len() > 0 {
        let prev = pushed.drop_last();
        lemma_session_log_keeps_latest(prev, max);
        let b = session_bound(max);
        let start = if prev.len() > b {
            prev.len() - b
        } else {
            0
        };
        let kept = prev.subrange(start, prev.len() as int);
        if kept.len() >= max && kept.len() > 0 {
            assert(kept.drop_first().push(pushed.last()) =~= pushed.subrange(pushed.len() - b, pushed.len() as int));
        } else {
            assert(kept.push(pushed.last()) =~= pushed.subrange(0, pushed.len() as int));
        }
    }
}

/// `a - b`, or zero when `b` is larger.
pub open spec fn saturating_sub(a: u64, b: u64) -> u64 {
    if a >= b {
        (a - b) as u64
    } else {
        0
    }
}

/// The record that ending `active` at `uptime_ms` produces.
pub open spec fn finished_record<S>(active: ActiveSession, uptime_ms: u64, outcome: SessionOutcome, stats: S) -> SessionRecord<S> {
    SessionRecord {
        onset_uptime_ms: active.onset_uptime_ms,
        duration_ms: saturating_sub(uptime_ms, active.onset_uptime_ms),
        peak_state: active.peak_state,
        outcome,
        stats,
    }
}

/// Voice sessions: the one in progress, if any, and a bounded log of finished ones, oldest
/// first.
pub struct SessionTracker<S> {
    sessions: VecDeque<SessionRecord<S>>,
    max_sessions: usize,
    active: Option<ActiveSession>,
}

impl<S> SessionTracker<S> {
    #[verifier::type_invariant]
    spec fn inv(self) -> bool {
        self.sessions@.len() <= session_bound(self.max_sessions as nat)
    }

    /// The finished sessions, oldest first.
    pub closed spec fn records(&self) -> Seq<SessionRecord<S>> {
        self.sessions@
    }

    /// The session in progress.
    pub closed spec fn active(&self) -> Option<ActiveSession> {
        self.active
    }

    /// The number of finished sessions the log keeps.
    pub closed spec fn capacity(&self) -> nat {
        self.max_sessions as nat
    }

    /// An empty tracker keeping up to `max_sessions` finished sessions.
    pub fn new(max_sessions: usize) -> (r: SessionTracker<S>)
        ensures
            r.records() == Seq::<SessionRecord<S>>::empty(),
            r.active() == None::<ActiveSession>,
            r.capacity() == max_sessions,
    {
        SessionTracker { sessions: VecDeque::new(), max_sessions, active: None }
    }

    /// Begin a session at `uptime_ms`, in the streaming state; a session already in
    /// progress is dropped.
    pub fn start_session(&mut self, uptime_ms: u64)
        ensures
            final(self).active() == Some(ActiveSession { onset_uptime_ms: uptime_ms, peak_state: SatelliteState::Streaming }),
            final(self).records() == old(self).records(),
            final(self).capacity() == old(self).capacity(),
    {
        proof {
            use_type_invariant(&*self);
        }
        self.active = Some(ActiveSession { onset_uptime_ms: uptime_ms, peak_state: SatelliteState::Streaming });
    }

    /// End the session in progress at `uptime_ms` and log it with `outcome` and `stats`;
    /// with no session in progress nothing changes.
    pub fn end_session(&mut self, uptime_ms: u64, outcome: SessionOutcome, stats: S)
        ensures
            final(self).capacity() == old(self).capacity(),
            final(self).records().len() <= session_bound(final(self).capacity()),
            match old(self).active() {
                Some(a) => {
                    &&& final(self).records() == session_push(
                        old(self).records(),
                        finished_record(a, uptime_ms, outcome, stats),
                        old(self).capacity(),
                    )
                    &&& final(self).active() == None::<ActiveSession>
                },
                None => {
                    &&& final(self).records() == old(self).records()
                    &&& final(self).active() == None::<ActiveSession>
                },
            },
    {
        proof {
            use_type_invariant(&*self);
        }
        match self.active {
            Some(a) => {
                let duration_ms = if uptime_ms >= a.onset_uptime_ms {
                    uptime_ms - a.onset_uptime_ms
                } else {
                    0
                };
                let record = SessionRecord {
                    onset_uptime_ms: a.onset_uptime_ms,
                    duration_ms,
                    peak_state: a.peak_state,
                    outcome,
                    stats,
                };
                let ghost before = self.sessions@;
                let mut sessions = VecDeque::new();
                std::mem::swap(&mut sessions, &mut self.sessions);
                if sessions.len() >= self.max_sessions && sessions.len() > 0 {
                    sessions.pop_front();
                }
                sessions.push_back(record);
                proof {
                    if before.len() >= self.max_sessions && before.len() > 0 {
                        assert(sessions@ =~= before.drop_first().push(record));
                    }
                }
                self.sessions = sessions;
                self.active = None;
            },
            None => {},
        }
    }

    /// Note a state the session in progress went through: the furthest one along the
    /// pipeline is kept.
    pub fn update_peak_state(&mut self, state: SatelliteState)
        ensures
            final(self).records() == old(self).records(),
            final(self).capacity() == old(self).capacity(),
            match old(self).active() {
                Some(a) => final(self).active() == Some(
                    ActiveSession { onset_uptime_ms: a.onset_uptime_ms, peak_state: peak_update(a.peak_state, state) },
                ),
                None => final(self).active() == None::<ActiveSession>,
            },
    {
        proof {
            use_type_invariant(&*self);
        }
        match self.active {
            Some(a) => {
                if rank(state) > rank(a.peak_state) {
                    self.active = Some(ActiveSession { onset_uptime_ms: a.onset_uptime_ms, peak_state: state });
                }
            },
            None => {},
        }
    }

    /// Whether a session is in progress.
    pub fn has_active(&self) -> (r: bool)
        ensures
            r == self.active() is Some,
    {
        self.active.is_some()
    }

    /// The furthest state the session in progress reached, if one is in progress.
    pub fn active_peak_state(&self) -> (r: Option<SatelliteState>)
        ensures
            r == match self.active() {
                Some(a) => Some(a.peak_state),
                None => None::<SatelliteState>,
            },
    {
        match self.active {
            Some(a) => Some(a.peak_state),
            None => None,
        }
    }

    /// The finished sessions, oldest first.
    pub fn sessions(&self) -> (r: &VecDeque<SessionRecord<S>>)
        ensures
            r@ == self.records(),
    {
        &self.sessions
    }
}

/// What a state change does to session tracking.
#[derive(Debug, Clone, Copy, PartialEq, Eq, Structural)]
pub enum SessionChange {
    /// A new session begins.
    Start,
    /// The session in progress ends this way.
    End(SessionOutcome),
    /// The session in progress, if any, notes the new state.
    Update,
}

/// Idle to streaming starts a session; a return to idle with a session in progress ends it,
/// as completed when it reached processing or responding and as a silence timeout
/// otherwise; any other change updates the session's furthest state.
pub open spec fn session_change_spec(old: SatelliteState, new: SatelliteState, active_peak: Option<SatelliteState>) -> SessionChange {
    if old == SatelliteState::Idle && new == SatelliteState::Streaming {
        SessionChange::Start
    } else if new == SatelliteState::Idle && active_peak is Some {
        if active_peak == Some(SatelliteState::Processing) || active_peak == Some(SatelliteState::Responding) {
            SessionChange::End(SessionOutcome::Completed)
        } else {
            SessionChange::End(SessionOutcome::SilenceTimeout)
        }
    } else {
        SessionChange::Update
    }
}

/// What the change from `old` to `new` does to sessions, given the furthest state of the
/// session in progress (`None` when there is none).
pub fn session_change(old: SatelliteState, new: SatelliteState, active_peak: Option<SatelliteState>) -> (r: SessionChange)
    ensures
        r == session_change_spec(old, new, active_peak),
{
    if old == SatelliteState::Idle && new == SatelliteState::Streaming {
        SessionChange::Start
    } else if new == SatelliteState::Idle && active_peak.is_some() {
        match active_peak {
            Some(SatelliteState::Processing) | Some(SatelliteState::Responding) => SessionChange::End(
                SessionOutcome::Completed,
            ),
            _ => SessionChange::End(SessionOutcome::SilenceTimeout),
        }
    } else {
        SessionChange::Update
    }
}

/// A session that started streaming and went through `states` ends, on its return to idle,
/// as completed exactly when it went through processing or responding, and as a silence
/// timeout otherwise.
pub proof fn lemma_outcome_reflects_furthest(old: SatelliteState, states: Seq<SatelliteState>)
    ensures
        session_change_spec(old, SatelliteState::Idle, Some(peak_after(SatelliteState::Streaming, states)))
            == if states.contains(SatelliteState::Processing) || states.contains(SatelliteState::Responding) {
            SessionChange::End(SessionOutcome::Completed)
        } else {
            SessionChange::End(SessionOutcome::SilenceTimeout)
        },
{
    lemma_peak_is_furthest(SatelliteState::Streaming, states);
    let p = peak_after(SatelliteState::Streaming, states);
    if states.contains(SatelliteState::Processing) {
        let j = choose|j: int| 0 <= j < states.len() && states[j] == SatelliteState::Processing;
        assert(state_rank(states[j]) <= state_rank(p));
    }
    if states.contains(SatelliteState::Responding) {
        let j = choose|j: int| 0 <= j < states.len() && states[j] == SatelliteState::Responding;
        assert(state_rank(states[j]) <= state_rank(p));
    }
}

// ============================================================================
// Per-minute counters
// ============================================================================

/// The counting part of a one-minute rollup: detector frames and onsets, and the sessions
/// that ended during the minute.
#[derive(Debug, Clone, Copy, PartialEq, Eq, Structural)]
pub struct RollupCounters {
    /// Frames on which detection switched on.
    pub trigger_count: u32,
    /// Frames on which detection was on.
    pub triggered_frames: u32,
    /// Frames fed.
    pub total_frames: u32,
    /// Whether detection was on at the last frame fed (kept across minutes).
    pub was_triggered: bool,
    pub session_count: u32,
    /// Sessions that ended in a silence timeout.
    pub false_session_count: u32,
    pub session_dur_sum_ms: u64,
    /// The longest session, capped at `u32::MAX`.
    pub session_dur_max_ms: u32,
}

/// The counts reported for a finished minute.
#[derive(Debug, Clone, Copy, PartialEq, Eq, Structural)]
pub struct RollupCounts {
    pub trigger_count: u32,
    pub triggered_frames: u32,
    pub total_frames: u32,
    pub session_count: u32,
    pub false_session_count: u32,
    /// The mean session length, capped at `u32::MAX`.
    pub session_dur_mean_ms: u32,
    pub session_dur_max_ms: u32,
}

/// `n` capped at `u32::MAX`.
pub open spec fn cap_u32(n: int) -> u32 {
    if n > u32::MAX {
        u32::MAX
    } else {
        n as u32
    }
}

/// The counters after one frame, on which detection was `triggered`.
pub open spec fn feed_spec(c: RollupCounters, triggered: bool) -> RollupCounters {
    RollupCounters {
        trigger_count: if triggered && !c.was_triggered {
            (c.trigger_count + 1) as u32
        } else {
            c.trigger_count
        },
        triggered_frames: if triggered {
            (c.triggered_frames + 1) as u32
        } else {
            c.triggered_frames
        },
        total_frames: (c.total_frames + 1) as u32,
        was_triggered: triggered,
        ..c
    }
}

/// The counters after a session of `duration_ms` ended with `outcome`.
pub open spec fn record_session_spec(c: RollupCounters, duration_ms: u64, outcome: SessionOutcome) -> RollupCounters {
    RollupCounters {
        session_count: (c.session_count + 1) as u32,
        false_session_count: if outcome == SessionOutcome::SilenceTimeout {
            (c.false_session_count + 1) as u32
        } else {
            c.false_session_count
        },
        session_dur_sum_ms: (c.session_dur_sum_ms + duration_ms) as u64,
        session_dur_max_ms: if cap_u32(duration_ms as int) > c.session_dur_max_ms {
            cap_u32(duration_ms as int)
        } else {
            c.session_dur_max_ms
        },
        ..c
    }
}

/// The counts a minute with these counters reports.
pub open spec fn counts_of(c: RollupCounters) -> RollupCounts {
    RollupCounts {
        trigger_count: c.trigger_count,
        triggered_frames: c.triggered_frames,
        total_frames: c.total_frames,
        session_count: c.session_count,
        false_session_count: c.false_session_count,
        session_dur_mean_ms: if c.session_count > 0 {
            cap_u32(c.session_dur_sum_ms as int / c.session_count as int)
        } else {
            0
        },
        session_dur_max_ms: c.session_dur_max_ms,
    }
}

/// What closing a minute reports and leaves: nothing, with the counters unchanged, when no
/// frame was fed; else the minute's counts, with the counters started over and the
/// detection state kept.
pub open spec fn finish_spec(c: RollupCounters) -> (Option<RollupCounts>, RollupCounters) {
    if c.total_frames == 0 {
        (None, c)
    } else {
        (Some(counts_of(c)), fresh_counters(c.was_triggered))
    }
}

/// Counters at the start of a minute: all zero, with the detection state carried over.
pub open spec fn fresh_counters(was_triggered: bool) -> RollupCounters {
    RollupCounters {
        trigger_count: 0,
        triggered_frames: 0,
        total_frames: 0,
        was_triggered,
        session_count: 0,
        false_session_count: 0,
        session_dur_sum_ms: 0,
        session_dur_max_ms: 0,
    }
}

impl RollupCounters {
    /// All counters at zero, detection off.
    pub fn new() -> (r: RollupCounters)
        ensures
            r == fresh_counters(false),
    {
        RollupCounters {
            trigger_count: 0,
            triggered_frames: 0,
            total_frames: 0,
            was_triggered: false,
            session_count: 0,
            false_session_count: 0,
            session_dur_sum_ms: 0,
            session_dur_max_ms: 0,
        }
    }

    /// Count one frame; an onset is a frame with detection on after one with it off.
    pub fn feed(&mut self, triggered: bool)
        requires
            old(self).total_frames < u32::MAX,
            old(self).triggered_frames < u32::MAX,
            old(self).trigger_count < u32::MAX,
        ensures
            *final(self) == feed_spec(*old(self), triggered),
    {
        self.total_frames = self.total_frames + 1;
        if triggered {
            self.triggered_frames = self.triggered_frames + 1;
        }
        if triggered && !self.was_triggered {
            self.trigger_count = self.trigger_count + 1;
        }
        self.was_triggered = triggered;
    }

    /// Count a session that ended during this minute.
    pub fn record_session(&mut self, duration_ms: u64, outcome: SessionOutcome)
        requires
            old(self).session_count < u32::MAX,
            old(self).false_session_count < u32::MAX,
            old(self).session_dur_sum_ms + duration_ms <= u64::MAX,
        ensures
            *final(self) == record_session_spec(*old(self), duration_ms, outcome),
    {
        self.session_count = self.session_count + 1;
        if outcome == SessionOutcome::SilenceTimeout {
            self.false_session_count = self.false_session_count + 1;
        }
        self.session_dur_sum_ms = self.session_dur_sum_ms + duration_ms;
        let dur_ms: u32 = if duration_ms > u32::MAX as u64 {
            u32::MAX
        } else {
            duration_ms as u32
        };
        if dur_ms > self.session_dur_max_ms {
            self.session_dur_max_ms = dur_ms;
        }
    }

    /// Close the minute: with no frame fed nothing is reported and nothing changes;
    /// otherwise the minute's counts are reported and the counters start over, keeping the
    /// detection state.
    pub fn finish(&mut self) -> (r: Option<RollupCounts>)
        ensures
            old(self).total_frames == 0 ==> r == None::<RollupCounts> && *final(self) == *old(self),
            old(self).total_frames != 0 ==> r == Some(counts_of(*old(self))) && *final(self) == fresh_counters(
                old(self).was_triggered,
            ),
            (r, *final(self)) == finish_spec(*old(self)),
    {
        if self.total_frames == 0 {
            return None;
        }
        let mean: u32 = if self.session_count > 0 {
            let m = self.session_dur_sum_ms / self.session_count as u64;
            if m > u32::MAX as u64 {
                u32::MAX
            } else {
                m as u32
            }
        } else {
            0
        };
        let counts = RollupCounts {
            trigger_count: self.trigger_count,
            triggered_frames: self.triggered_frames,
            total_frames: self.total_frames,
            session_count: self.session_count,
            false_session_count: self.false_session_count,
            session_dur_mean_ms: mean,
            session_dur_max_ms: self.session_dur_max_ms,
        };
        let was_triggered = self.was_triggered;
        *self = RollupCounters {
            trigger_count: 0,
            triggered_frames: 0,
            total_frames: 0,
            was_triggered,
            session_count: 0,
            false_session_count: 0,
            session_dur_sum_ms: 0,
            session_dur_max_ms: 0,
        };
        Some(counts)
    }
}

/// The counters after feeding the frames of `flags` one after another.
pub open spec fn feed_all(c: RollupCounters, flags: Seq<bool>) -> RollupCounters
    decreases flags.len(),
{
    if flags.len() == 0 {
        c
    } else {
        feed_spec(feed_all(c, flags.drop_last()), flags.last())
    }
}

/// The number of frames in `flags` with detection on right after a frame with it off, the
/// frame before the first having detection `prev`.
pub open spec fn rising_edges(prev: bool, flags: Seq<bool>) -> nat
    decreases flags.len(),
{
    if flags.len() == 0 {
        0
    } else {
        let before = if flags.len() == 1 {
            prev
        } else {
            flags[flags.len() - 2]
        };
        rising_edges(prev, flags.drop_last()) + if flags.last() && !before {
            1nat
        } else {
            0nat
        }
    }
}

/// The number of frames in `flags` with detection on.
pub open spec fn count_on(flags: Seq<bool>) -> nat
    decreases flags.len(),
{
    if flags.len() == 0 {
        0
    } else {
        count_on(flags.drop_last()) + if flags.last() {
            1nat
        } else {
            0nat
        }
    }
}

/// Feeding frames one after another counts every frame, every frame with detection on, and
/// every onset (a frame with detection on after one with it off), and leaves the detection
/// state of the last frame; the session counts do not move.
pub proof fn lemma_feed_counts(c: RollupCounters, flags: Seq<bool>)
    requires
        c.total_frames + flags.len() <= u32::MAX,
        c.triggered_frames <= c.total_frames,
        c.trigger_count <= c.total_frames,
    ensures
        feed_all(c, flags).total_frames == c.total_frames + flags.len(),
        feed_all(c, flags).triggered_frames == c.triggered_frames + count_on(flags),
        feed_all(c, flags).trigger_count == c.trigger_count + rising_edges(c.was_triggered, flags),
        flags.len() > 0 ==> feed_all(c, flags).was_triggered == flags.last(),
        flags.len() == 0 ==> feed_all(c, flags).was_triggered == c.was_triggered,
        feed_all(c, flags).session_count == c.session_count,
        feed_all(c, flags).false_session_count == c.false_session_count,
        feed_all(c, flags).session_dur_sum_ms == c.session_dur_sum_ms,
        feed_all(c, flags).session_dur_max_ms == c.session_dur_max_ms,
    decreases flags.len(),
{
    if flags.len() > 0 {
        let prev = flags.drop_last();
        lemma_feed_counts(c, prev);
        lemma_count_on_bound(prev);
        lemma_rising_edges_bound(c.was_triggered, prev);
        if prev.len() > 0 {
            assert(prev.last() == flags[flags.len() - 2]);
        }
    }
}

/// A minute that starts afresh (new counters, or counters just finished, carrying the
/// detection state of the frame before) and is fed the frames of `flags` reports nothing
/// when no frame came; otherwise it reports every frame, the frames with detection on and
/// the onsets, the first frame counting as an onset when detection was off before it.
/// Finishing again right after reports nothing.
pub proof fn lemma_minute_report(carried: bool, flags: Seq<bool>)
    requires
        flags.len() <= u32::MAX,
    ensures
        flags.len() == 0 ==> finish_spec(feed_all(fresh_counters(carried), flags)).0 is None,
        flags.len() > 0 ==> (finish_spec(feed_all(fresh_counters(carried), flags)).0 matches Some(e)
            && e.total_frames == flags.len() && e.triggered_frames == count_on(flags) && e.trigger_count
            == rising_edges(carried, flags)),
        finish_spec(finish_spec(feed_all(fresh_counters(carried), flags)).1).0 is None,
{
    lemma_feed_counts(fresh_counters(carried), flags);
}

/// Recording a session counts it, and counts it as a false session exactly when it ended
/// in a silence timeout: a completed session or one lost to a disconnection is no false
/// trigger.
pub proof fn lemma_false_sessions(c: RollupCounters, duration_ms: u64, outcome: SessionOutcome)
    requires
        c.session_count < u32::MAX,
        c.false_session_count < u32::MAX,
    ensures
        record_session_spec(c, duration_ms, outcome).session_count == c.session_count + 1,
        record_session_spec(c, duration_ms, outcome).false_session_count == c.false_session_count + (if outcome
            == SessionOutcome::SilenceTimeout {
            1int
        } else {
            0int
        }),
        record_session_spec(c, duration_ms, outcome).total_frames == c.total_frames,
        record_session_spec(c, duration_ms, outcome).trigger_count == c.trigger_count,
{
}

proof fn lemma_count_on_bound(flags: Seq<bool>)
    ensures
        count_on(flags) <= flags.len(),
    decreases flags.len(),
{
    if flags.len() > 0 {
        lemma_count_on_bound(flags.drop_last());
    }
}

proof fn lemma_rising_edges_bound(prev: bool, flags: Seq<bool>)
    ensures
        rising_edges(prev, flags) <= flags.len(),
    decreases flags.len(),
{
    if flags.len() > 0 {
        lemma_rising_edges_bound(prev, flags.drop_last());
    }
}

// ============================================================================
// HTTP requests
// ============================================================================

/// The first position at or after `i` that holds white space (the length when there is
/// none).
pub open spec fn word_end(s: Seq<char>, i: nat) -> nat
    decreases s.len() - i,
{
    if i < s.len() && !is_white_space(s[i as int]) {
        word_end(s, i + 1)
    } else {
        i
    }
}

/// The first word at or after position `i` (a longest run of characters that are not white
/// space) and the position right after it, or `None` when only white space is left.
pub open spec fn word_from(s: Seq<char>, i: nat) -> Option<(Seq<char>, nat)> {
    let b = skip_space(s, i);
    if b < s.len() {
        Some((s.subrange(b as int, word_end(s, b) as int), word_end(s, b)))
    } else {
        None
    }
}

/// The method of a request line: its first word, "GET" when it has none.
pub open spec fn request_method(line: Seq<char>) -> Seq<char> {
    match word_from(line, 0) {
        Some((w, _)) => w,
        None => "GET"@,
    }
}

/// The path of a request line: its second word, "/" when it has none.
pub open spec fn request_path(line: Seq<char>) -> Seq<char> {
    match word_from(line, 0) {
        Some((_, e)) => match word_from(line, e) {
            Some((w, _)) => w,
            None => "/"@,
        },
        None => "/"@,
    }
}

/// Whether `c` is an ASCII decimal digit.
pub open spec fn is_digit(c: char) -> bool {
    '0' <= c <= '9'
}

/// The number that the decimal digits of `s` spell.
pub open spec fn digits_value(s: Seq<char>) -> nat
    decreases s.len(),
{
    if s.len() == 0 {
        0
    } else {
        digits_value(s.drop_last()) * 10 + (s.last() as u32 - '0' as u32) as nat
    }
}

/// The digits of an unsigned number: `s` without a leading `+`.
pub open spec fn unsigned_digits(s: Seq<char>) -> Seq<char> {
    if s.len() > 0 && s[0] == '+' {
        s.drop_first()
    } else {
        s
    }
}

/// Whether every character of `d` is a decimal digit.
pub open spec fn all_digits(d: Seq<char>) -> bool {
    forall|i: int| 0 <= i < d.len() ==> is_digit(#[trigger] d[i])
}

/// What `str::parse::<usize>` gives for `s`: the value of an optional `+` followed by one
/// or more decimal digits, when it fits in a `usize`; `None` otherwise.
pub open spec fn parse_usize_spec(s: Seq<char>) -> Option<nat> {
    let d = unsigned_digits(s);
    if d.len() > 0 && all_digits(d) && digits_value(d) <= usize::MAX {
        Some(digits_value(d))
    } else {
        None
    }
}

proof fn lemma_digits_prefix(d: Seq<char>, k: int)
    requires
        0 <= k <= d.len(),
        forall|i: int| 0 <= i < d.len() ==> is_digit(#[trigger] d[i]),
    ensures
        digits_value(d.subrange(0, k)) <= digits_value(d),
    decreases d.len(),
{
    if k < d.len() {
        let p = d.drop_last();
        lemma_digits_prefix(p, k);
        assert(p.subrange(0, k) =~= d.subrange(0, k));
    } else {
        assert(d.subrange(0, k) =~= d);
    }
}

/// The first position of `s` at or after `i` that holds white space.
fn word_end_at(s: &str, len: usize, i: usize) -> (r: usize)
    requires
        len == s@.len(),
        i <= len,
    ensures
        r == word_end(s@, i as nat),
        i <= r <= len,
{
    let mut j = i;
    while j < len && !white_space(s.get_char(j))
        invariant
            len == s@.len(),
            i <= j <= len,
            word_end(s@, j as nat) == word_end(s@, i as nat),
        decreases len - j,
    {
        j = j + 1;
    }
    j
}

/// The method and path of a request line (such as "POST /vad/attack_ratio HTTP/1.1"):
/// its first two words, "GET" and "/" standing in for missing ones.
pub fn parse_request_line(line: &str) -> (r: (String, String))
    ensures
        r.0@ == request_method(line@),
        r.1@ == request_path(line@),
{
    let len = line.unicode_len();
    let b = skip_space_at(line, len, 0);
    if b >= len {
        return ("GET".to_owned(), "/".to_owned());
    }
    let e = word_end_at(line, len, b);
    let method = line.substring_char(b, e).to_owned();
    let b2 = skip_space_at(line, len, e);
    if b2 >= len {
        return (method, "/".to_owned());
    }
    let e2 = word_end_at(line, len, b2);
    let path = line.substring_char(b2, e2).to_owned();
    (method, path)
}

/// `str::parse::<usize>`: an optional `+` followed by decimal digits, when the value fits.
pub fn parse_usize(s: &str) -> (r: Option<usize>)
    ensures
        (match r {
            Some(v) => Some(v as nat),
            None => None::<nat>,
        }) == parse_usize_spec(s@),
{
    let len = s.unicode_len();
    let start: usize = if len > 0 && s.get_char(0) == '+' {
        1
    } else {
        0
    };
    let ghost d = unsigned_digits(s@);
    assert(d =~= s@.subrange(start as int, len as int));
    if start >= len {
        return None;
    }
    let mut acc: usize = 0;
    let mut i = start;
    while i < len
        invariant
            start <= i <= len,
            len == s@.len(),
            d =~= s@.subrange(start as int, len as int),
            d == unsigned_digits(s@),
            forall|k: int| 0 <= k < i - start ==> is_digit(#[trigger] d[k]),
            acc == digits_value(d.subrange(0, i - start)),
        decreases len - i,
    {
        let c = s.get_char(i);
        if !('0' <= c && c <= '9') {
            assert(!is_digit(d[i - start]));
            return None;
        }
        let digit = (c as u32 - '0' as u32) as usize;
        assert(d.subrange(0, i - start + 1).drop_last() =~= d.subrange(0, i - start));
        let next = match acc.checked_mul(10) {
            Some(m) => m.checked_add(digit),
            None => None,
        };
        match next {
            Some(v) => {
                acc = v;
            },
            None => {
                proof {
                    if all_digits(d) {
                        lemma_digits_prefix(d, i - start + 1);
                    }
                }
                return None;
            },
        }
        i = i + 1;
    }
    assert(d.subrange(0, len - start) =~= d);
    Some(acc)
}

/// Whether `line` begins with `prefix`.
fn starts_with(line: &str, prefix: &str) -> (r: bool)
    ensures
        r == prefix@.is_prefix_of(line@),
{
    let n = prefix.unicode_len();
    let len = line.unicode_len();
    if n > len {
        return false;
    }
    let mut i: usize = 0;
    while i < n
        invariant
            n == prefix@.len(),
            len == line@.len(),
            n <= len,
            i <= n,
            forall|k: int| 0 <= k < i ==> prefix@[k] == line@[k],
        decreases n - i,
    {
        if prefix.get_char(i) != line.get_char(i) {
            return false;
        }
        i = i + 1;
    }
    true
}

/// The number a `Content-Length` value gives: the trimmed value parsed, zero when it does
/// not parse.
pub open spec fn length_value(v: Seq<char>) -> nat {
    match parse_usize_spec(trim(v)) {
        Some(n) => n,
        None => 0,
    }
}

/// The content length after reading header `line` with `current` so far: a line starting
/// with "Content-Length:" or "content-length:" sets it from the rest of the line.
pub open spec fn header_update(current: nat, line: Seq<char>) -> nat {
    let upper = "Content-Length:"@;
    let lower = "content-length:"@;
    let a = if upper.is_prefix_of(line) {
        length_value(line.subrange(upper.len() as int, line.len() as int))
    } else {
        current
    };
    if lower.is_prefix_of(line) {
        length_value(line.subrange(lower.len() as int, line.len() as int))
    } else {
        a
    }
}

/// The content length the header lines give, in order; zero with none.
pub open spec fn content_length_after(headers: Seq<Seq<char>>) -> nat
    decreases headers.len(),
{
    if headers.len() == 0 {
        0
    } else {
        header_update(content_length_after(headers.drop_last()), headers.last())
    }
}

fn header_value(line: &str, prefix: &str) -> (r: usize)
    requires
        prefix@.is_prefix_of(line@),
    ensures
        r == length_value(line@.subrange(prefix@.len() as int, line@.len() as int)),
{
    let rest = line.substring_char(prefix.unicode_len(), line.unicode_len());
    let t = trim_text(rest);
    match parse_usize(t.as_str()) {
        Some(n) => n,
        None => 0,
    }
}

/// What the request line and header lines of a request say.
#[derive(Debug, Clone)]
pub struct RequestHead {
    pub method: String,
    pub path: String,
    pub content_length: usize,
}

/// Read the method and path from the request line, and the content length from the header
/// lines (those before the blank line).
pub fn parse_request_head(request_line: &str, headers: &Vec<String>) -> (r: RequestHead)
    ensures
        r.method@ == request_method(request_line@),
        r.path@ == request_path(request_line@),
        r.content_length == content_length_after(headers@.map_values(|h: String| h@)),
{
    let (method, path) = parse_request_line(request_line);
    let mut content_length: usize = 0;
    let mut i: usize = 0;
    while i < headers.len()
        invariant
            i <= headers@.len(),
            content_length == content_length_after(headers@.subrange(0, i as int).map_values(|h: String| h@)),
        decreases headers@.len() - i,
    {
        let line = headers[i].as_str();
        let ghost before = content_length;
        if starts_with(line, "Content-Length:") {
            content_length = header_value(line, "Content-Length:");
        }
        if starts_with(line, "content-length:") {
            content_length = header_value(line, "content-length:");
        }
        proof {
            let seen = headers@.subrange(0, i + 1).map_values(|h: String| h@);
            assert(seen.drop_last() =~= headers@.subrange(0, i as int).map_values(|h: String| h@));
            assert(seen.last() == headers@[i as int]@);
        }
        i = i + 1;
    }
    assert(headers@.subrange(0, headers@.len() as int) =~= headers@);
    RequestHead { method, path, content_length }
}

// ============================================================================
// Routes and responses
// ============================================================================

/// Which detector ratio a request sets.
#[derive(Debug, Clone, Copy, PartialEq, Eq, Structural)]
pub enum RatioKind {
    Attack,
    Sustain,
}

/// What a request asks for.
#[derive(Debug, Clone, Copy, PartialEq, Eq, Structural)]
pub enum Route {
    /// `GET /health`: whether the server connection is up.
    Health,
    /// `GET /`: the diagnostics snapshot.
    Snapshot,
    /// `GET /rollups`: the minute rollups.
    Rollups,
    /// `GET /sessions`: the session log.
    Sessions,
    /// `GET /stream`: a server-sent event stream.
    Stream,
    /// `POST /vad/attack_ratio` or `POST /vad/sustain_ratio`.
    SetRatio(RatioKind),
    /// `POST /pipeline/reset`.
    ResetPipeline,
    /// Anything else.
    NotFound,
}

/// The route of a method and path.
pub open spec fn route_spec(method: Seq<char>, path: Seq<char>) -> Route {
    if method == "GET"@ && path == "/health"@ {
        Route::Health
    } else if method == "GET"@ && path == "/"@ {
        Route::Snapshot
    } else if method == "GET"@ && path == "/rollups"@ {
        Route::Rollups
    } else if method == "GET"@ && path == "/sessions"@ {
        Route::Sessions
    } else if method == "GET"@ && path == "/stream"@ {
        Route::Stream
    } else if method == "POST"@ && path == "/vad/attack_ratio"@ {
        Route::SetRatio(RatioKind::Attack)
    } else if method == "POST"@ && path == "/vad/sustain_ratio"@ {
        Route::SetRatio(RatioKind::Sustain)
    } else if method == "POST"@ && path == "/pipeline/reset"@ {
        Route::ResetPipeline
    } else {
        Route::NotFound
    }
}

/// The route a request's method and path select.
pub fn route(method: &str, path: &str) -> (r: Route)
    ensures
        r == route_spec(method@, path@),
{
    let get = str_eq(method, "GET");
    let post = str_eq(method, "POST");
    if get && str_eq(path, "/health") {
        Route::Health
    } else if get && str_eq(path, "/") {
        Route::Snapshot
    } else if get && str_eq(path, "/rollups") {
        Route::Rollups
    } else if get && str_eq(path, "/sessions") {
        Route::Sessions
    } else if get && str_eq(path, "/stream") {
        Route::Stream
    } else if post && str_eq(path, "/vad/attack_ratio") {
        Route::SetRatio(RatioKind::Attack)
    } else if post && str_eq(path, "/vad/sustain_ratio") {
        Route::SetRatio(RatioKind::Sustain)
    } else if post && str_eq(path, "/pipeline/reset") {
        Route::ResetPipeline
    } else {
        Route::NotFound
    }
}

/// The length of text in UTF-8 bytes, as `str::len` reports it.
pub open spec fn byte_len(s: Seq<char>) -> nat {
    (vstd::utf8::encode_utf8(s).len() as usize) as nat
}

/// A complete response that closes the connection: status line, content type, the
/// cross-origin header where `cors` is set, the body's length in UTF-8 bytes, and the body.
pub open spec fn response_text(status: Seq<char>, content_type: Seq<char>, cors: bool, body: Seq<char>) -> Seq<char> {
    "HTTP/1.1 "@ + status + "\r\nContent-Type: "@ + content_type + "\r\n"@ + (if cors {
        "Access-Control-Allow-Origin: *\r\n"@
    } else {
        Seq::<char>::empty()
    }) + "Content-Length: "@ + decimal(byte_len(body)) + "\r\nConnection: close\r\n\r\n"@
        + body
}

/// The response with this status, content type and body.
pub fn http_response(status: &str, content_type: &str, cors: bool, body: &str) -> (r: String)
    ensures
        r@ == response_text(status@, content_type@, cors, body@),
{
    let mut out = String::new();
    out.push_str("HTTP/1.1 ");
    out.push_str(status);
    out.push_str("\r\nContent-Type: ");
    out.push_str(content_type);
    out.push_str("\r\n");
    let ghost head = out@;
    if cors {
        out.push_str("Access-Control-Allow-Origin: *\r\n");
    }
    assert(out@ == head + (if cors {
        "Access-Control-Allow-Origin: *\r\n"@
    } else {
        Seq::<char>::empty()
    }));
    out.push_str("Content-Length: ");
    push_decimal(&mut out, body.len() as u64);
    out.push_str("\r\nConnection: close\r\n\r\n");
    out.push_str(body);
    out
}

/// The answer to a health check: "healthy" with 200 while connected, "disconnected" with
/// 503 otherwise.
pub fn health_response(connected: bool) -> (r: String)
    ensures
        r@ == (if connected {
            response_text("200 OK"@, "text/plain"@, false, "healthy"@)
        } else {
            response_text("503 Service Unavailable"@, "text/plain"@, false, "disconnected"@)
        }),
{
    if connected {
        http_response("200 OK", "text/plain", false, "healthy")
    } else {
        http_response("503 Service Unavailable", "text/plain", false, "disconnected")
    }
}

/// A JSON document answered with 200.
pub fn json_response(body: &str, cors: bool) -> (r: String)
    ensures
        r@ == response_text("200 OK"@, "application/json"@, cors, body@),
{
    http_response("200 OK", "application/json", cors, body)
}

/// The answer to an unknown request.
pub fn not_found_response() -> (r: String)
    ensures
        r@ == response_text("404 Not Found"@, "text/plain"@, false, "Not Found"@),
{
    http_response("404 Not Found", "text/plain", false, "Not Found")
}

/// The answer to a pipeline reset request.
pub fn reset_response() -> (r: String)
    ensures
        r@ == response_text("200 OK"@, "application/json"@, false, "{\"reset\":\"queued\"}"@),
{
    http_response("200 OK", "application/json", false, "{\"reset\":\"queued\"}")
}

/// The most event-stream clients served at once.
pub const MAX_SSE_CLIENTS: usize = 3;

/// Whether another event-stream client may join `client_count` others.
pub fn sse_admits(client_count: usize) -> (r: bool)
    ensures
        r == (client_count < MAX_SSE_CLIENTS),
{
    client_count < MAX_SSE_CLIENTS
}

/// What became of a frame offered to an event-stream client.
#[derive(Debug, Clone, Copy, PartialEq, Eq, Structural)]
pub enum SendOutcome {
    /// The frame was queued.
    Sent,
    /// The client's buffer was full; the frame was dropped for it.
    Full,
    /// The client has gone.
    Disconnected,
}

/// Whether a client stays after a frame was offered to it: a slow client whose buffer was
/// full keeps its place and only misses the frame; a client that has gone is removed.
pub fn sse_keeps_client(outcome: SendOutcome) -> (r: bool)
    ensures
        r == !(outcome is Disconnected),
{
    match outcome {
        SendOutcome::Sent => true,
        SendOutcome::Full => true,
        SendOutcome::Disconnected => false,
    }
}

/// The answer to an event-stream client over the limit.
pub fn sse_rejected_response() -> (r: String)
    ensures
        r@ == response_text("503 Service Unavailable"@, "text/plain"@, false, "Too many SSE clients"@),
{
    http_response("503 Service Unavailable", "text/plain", false, "Too many SSE clients")
}

/// The name of a ratio in requests and answers.
pub open spec fn ratio_label_spec(kind: RatioKind) -> Seq<char> {
    match kind {
        RatioKind::Attack => "attack_ratio"@,
        RatioKind::Sustain => "sustain_ratio"@,
    }
}

/// The name of a ratio in requests and answers.
pub fn ratio_label(kind: RatioKind) -> (r: &'static str)
    ensures
        r@ == ratio_label_spec(kind),
{
    match kind {
        RatioKind::Attack => "attack_ratio",
        RatioKind::Sustain => "sustain_ratio",
    }
}

/// The body refusing a ratio that is not a positive number.
pub open spec fn ratio_error_body(kind: RatioKind) -> Seq<char> {
    "{\"error\":\""@ + ratio_label_spec(kind) + " must be a positive number\"}"@
}

/// The answer refusing a ratio that is not a positive number: 400 with a JSON error.
pub fn ratio_error_response(kind: RatioKind) -> (r: String)
    ensures
        r@ == response_text("400 Bad Request"@, "application/json"@, false, ratio_error_body(kind)),
{
    let mut body = String::new();
    body.push_str("{\"error\":\"");
    body.push_str(ratio_label(kind));
    body.push_str(" must be a positive number\"}");
    http_response("400 Bad Request", "application/json", false, body.as_str())
}

// ============================================================================
// Snapshot text
// ============================================================================

/// The audio device a snapshot names: the capture device, else the WAV input, else
/// "unknown".
pub open spec fn audio_device_spec(device: Option<Seq<char>>, wav_input: Option<Seq<char>>) -> Seq<char> {
    match device {
        Some(d) => d,
        None => match wav_input {
            Some(w) => w,
            None => "unknown"@,
        },
    }
}

/// The view of an optional string.
pub open spec fn opt_view(s: Option<String>) -> Option<Seq<char>> {
    match s {
        Some(t) => Some(t@),
        None => None,
    }
}

/// The audio device a snapshot names.
pub fn audio_device_label(device: &Option<String>, wav_input: &Option<String>) -> (r: String)
    ensures
        r@ == audio_device_spec(opt_view(*device), opt_view(*wav_input)),
{
    match device {
        Some(d) => d.as_str().to_owned(),
        None => match wav_input {
            Some(w) => w.as_str().to_owned(),
            None => "unknown".to_owned(),
        },
    }
}

/// The capture format as a snapshot shows it, such as "16000Hz 16bit 1ch": the rate, the
/// sample width in bits and the channel count.
pub open spec fn audio_format_text(rate: u32, width: u16, channels: u16) -> Seq<char> {
    decimal(rate as nat) + "Hz "@ + decimal((width * 8) as nat) + "bit "@ + decimal(channels as nat) + "ch"@
}

/// The capture format as a snapshot shows it.
pub fn audio_format_label(rate: u32, width: u16, channels: u16) -> (r: String)
    requires
        width * 8 <= u16::MAX,
    ensures
        r@ == audio_format_text(rate, width, channels),
{
    let mut out = String::new();
    push_decimal(&mut out, rate as u64);
    out.push_str("Hz ");
    push_decimal(&mut out, (width * 8) as u64);
    out.push_str("bit ");
    push_decimal(&mut out, channels as u64);
    out.push_str("ch");
    out
}

/// The server address as a snapshot shows it: host, colon, port.
pub fn server_address_label(host: &str, port: u16) -> (r: String)
    ensures
        r@ == host@ + ":"@ + decimal(port as nat),
{
    let mut out = String::new();
    out.push_str(host);
    out.push_str(":");
    push_decimal(&mut out, port as u64);
    out
}

/// The names, each in double quotes, separated by commas.
pub open spec fn quoted_list(names: Seq<Seq<char>>) -> Seq<char>
    decreases names.len(),
{
    if names.len() == 0 {
        Seq::empty()
    } else if names.len() == 1 {
        "\""@ + names[0] + "\""@
    } else {
        quoted_list(names.drop_last()) + ","@ + "\""@ + names.last() + "\""@
    }
}

/// The static part of the diagnostics, as the first event of a stream sends it (the text
/// is written as it stands, without escaping).
pub open spec fn snapshot_json(
    name: Seq<char>,
    area: Option<Seq<char>>,
    audio_device: Seq<char>,
    audio_format: Seq<char>,
    server_address: Seq<char>,
    stages: Seq<Seq<char>>,
) -> Seq<char> {
    "{\"satellite_name\":\""@ + name + "\",\"area\":"@ + (match area {
        Some(a) => "\""@ + a + "\""@,
        None => "null"@,
    }) + ",\"audio_device\":\""@ + audio_device + "\",\"audio_format\":\""@ + audio_format
        + "\",\"server_address\":\""@ + server_address + "\",\"stages\":["@ + quoted_list(stages) + "]}"@
}

/// The static part of the diagnostics, as the first event of a stream sends it.
pub fn sse_snapshot_json(
    name: &str,
    area: &Option<String>,
    audio_device: &str,
    audio_format: &str,
    server_address: &str,
    stages: &Vec<String>,
) -> (r: String)
    ensures
        r@ == snapshot_json(
            name@,
            opt_view(*area),
            audio_device@,
            audio_format@,
            server_address@,
            stages@.map_values(|s: String| s@),
        ),
{
    let mut out = String::new();
    out.push_str("{\"satellite_name\":\"");
    out.push_str(name);
    out.push_str("\",\"area\":");
    let ghost before_area = out@;
    match area {
        Some(a) => {
            out.push_str("\"");
            out.push_str(a.as_str());
            out.push_str("\"");
        },
        None => {
            out.push_str("null");
        },
    }
    assert(out@ == before_area + (match opt_view(*area) {
        Some(a) => "\""@ + a + "\""@,
        None => "null"@,
    }));
    out.push_str(",\"audio_device\":\"");
    out.push_str(audio_device);
    out.push_str("\",\"audio_format\":\"");
    out.push_str(audio_format);
    out.push_str("\",\"server_address\":\"");
    out.push_str(server_address);
    out.push_str("\",\"stages\":[");
    let ghost head = out@;
    let mut i: usize = 0;
    while i < stages.len()
        invariant
            i <= stages@.len(),
            out@ == head + quoted_list(stages@.subrange(0, i as int).map_values(|s: String| s@)),
        decreases stages@.len() - i,
    {
        let ghost before = out@;
        if i > 0 {
            out.push_str(",");
        }
        out.push_str("\"");
        out.push_str(stages[i].as_str());
        out.push_str("\"");
        proof {
            let seen = stages@.subrange(0, i + 1).map_values(|s: String| s@);
            assert(seen.drop_last() =~= stages@.subrange(0, i as int).map_values(|s: String| s@));
            assert(seen.last() == stages@[i as int]@);
            if i == 0 {
                assert(seen.len() == 1);
                assert(seen[0] == stages@[0]@);
                assert(out@ =~= head + quoted_list(seen));
            } else {
                assert(out@ =~= head + quoted_list(seen));
            }
        }
        i = i + 1;
    }
    assert(stages@.subrange(0, stages@.len() as int) =~= stages@);
    out.push_str("]}");
    out
}

/// Whether the start of a reply to a health check reports success: at least 12 bytes, the
/// first seven "HTTP/1." and the status code (bytes 9 to 11) "200".
pub open spec fn healthy_reply_spec(reply: Seq<u8>) -> bool {
    &&& reply.len() >= 12
    &&& reply.take(7) == seq![72u8, 84u8, 84u8, 80u8, 47u8, 49u8, 46u8]
    &&& reply.subrange(9, 12) == seq![50u8, 48u8, 48u8]
}

/// Whether the start of a reply to a health check reports success.
pub fn is_healthy_reply(reply: &[u8]) -> (r: bool)
    ensures
        r == healthy_reply_spec(reply@),
{
    if reply.len() < 12 {
        return false;
    }
    let ok = reply[0] == 72 && reply[1] == 84 && reply[2] == 84 && reply[3] == 80 && reply[4] == 47 && reply[5] == 49
        && reply[6] == 46 && reply[9] == 50 && reply[10] == 48 && reply[11] == 48;
    assert(ok ==> reply@.take(7) =~= seq![72u8, 84u8, 84u8, 80u8, 47u8, 49u8, 46u8]);
    assert(ok ==> reply@.subrange(9, 12) =~= seq![50u8, 48u8, 48u8]);
    assert(reply@.take(7) == seq![72u8, 84u8, 84u8, 80u8, 47u8, 49u8, 46u8] ==> reply@.take(7)[0] == 72u8
        && reply@.take(7)[1] == 84u8 && reply@.take(7)[2] == 84u8 && reply@.take(7)[3] == 80u8 && reply@.take(7)[4]
        == 47u8 && reply@.take(7)[5] == 49u8 && reply@.take(7)[6] == 46u8);
    assert(reply@.subrange(9, 12) == seq![50u8, 48u8, 48u8] ==> reply@.subrange(9, 12)[0] == 50u8 && reply@.subrange(
        9,
        12,
    )[1] == 48u8 && reply@.subrange(9, 12)[2] == 48u8);
    ok
}

} // verus!
