//! The session being tracked: which app is in the foreground since when, what
//! is written when it ends, and how long it has run so far.
//!
//! A tick of the tracker flushes the session when the gap since the last tick
//! was too long (the machine slept) or the screen is off, and starts a new
//! session when the foreground app changed. Flushing writes
//! `pending_session` (after a gap, `pending_session_before_gap`) and then
//! `clear`s; writing is the caller's part. Times are milliseconds since the
//! epoch; the stored sessions and the elapsed times are in whole seconds.
use vstd::prelude::*;

use crate::manifest::opt_view;
use crate::resolver::{ResolvedApp, ResolvedAppView};
use crate::text::same_text;

verus! {

/// Milliseconds between two ticks of the tracker.
pub const POLL_INTERVAL_MILLIS: u64 = 1000;

/// Nanoseconds between two ticks beyond which the session is flushed.
pub const MAX_SESSION_GAP_NANOS: u128 = 4_000_000_000;

/// Whether the time since the last tick (in nanoseconds) means the machine
/// was asleep: it is longer than the largest gap.
pub fn gap_exceeded(elapsed_nanos: u128) -> (r: bool)
    ensures
        r == (elapsed_nanos > MAX_SESSION_GAP_NANOS),
{
    elapsed_nanos > MAX_SESSION_GAP_NANOS
}

/// Whole seconds since the epoch of a time in milliseconds (rounded down).
pub open spec fn seconds_spec(ms: int) -> int {
    ms / 1000
}

/// Whole seconds since the epoch of a time in milliseconds (rounded down).
pub fn seconds_of(ms: i64) -> (r: i64)
    ensures
        r == seconds_spec(ms as int),
{
    if ms >= 0 {
        let q: u64 = (ms as u64) / 1000;
        assert(q == ms / 1000);
        q as i64
    } else {
        let a: u64 = (-(ms as i128)) as u64;
        let c: u64 = (a + 999) / 1000;
        assert(-(c as int) == ms / 1000) by (nonlinear_arith)
            requires
                ms < 0,
                a == -ms,
                c == (a + 999) / 1000,
        {
        }
        -(c as i64)
    }
}

/// A finished session, ready to be written: the app's identity, exe name and
/// name, and its start and end in milliseconds since the epoch.
pub struct SessionRecord {
    pub app_identity: Option<String>,
    pub exe_name: Option<String>,
    pub app_name: String,
    pub start_ms: i64,
    pub end_ms: i64,
}

/// The content of a `SessionRecord`.
pub struct SessionRecordView {
    pub app_identity: Option<Seq<char>>,
    pub exe_name: Option<Seq<char>>,
    pub app_name: Seq<char>,
    pub start_ms: i64,
    pub end_ms: i64,
}

impl View for SessionRecord {
    type V = SessionRecordView;

    open spec fn view(&self) -> SessionRecordView {
        SessionRecordView {
            app_identity: opt_view(self.app_identity),
            exe_name: opt_view(self.exe_name),
            app_name: self.app_name@,
            start_ms: self.start_ms,
            end_ms: self.end_ms,
        }
    }
}

/// The session being tracked: the foreground app's identity, exe name and
/// name, when its session started, and when the tracker last ticked
/// (milliseconds since the epoch).
pub struct SessionTracker {
    pub current_identity: Option<String>,
    pub current_exe_name: Option<String>,
    pub current_app: Option<String>,
    pub session_start: Option<i64>,
    pub last_tick: Option<i64>,
}

/// The content of a `SessionTracker`.
pub struct SessionView {
    pub identity: Option<Seq<char>>,
    pub exe_name: Option<Seq<char>>,
    pub app_name: Option<Seq<char>>,
    pub start: Option<i64>,
    pub last_tick: Option<i64>,
}

impl View for SessionTracker {
    type V = SessionView;

    open spec fn view(&self) -> SessionView {
        SessionView {
            identity: opt_view(self.current_identity),
            exe_name: opt_view(self.current_exe_name),
            app_name: opt_view(self.current_app),
            start: self.session_start,
            last_tick: self.last_tick,
        }
    }
}

/// No session, the last tick at `last_tick`.
pub open spec fn no_session(last_tick: Option<i64>) -> SessionView {
    SessionView { identity: None, exe_name: None, app_name: None, start: None, last_tick }
}

/// The session of app `app` started at `start`, the last tick at `last_tick`.
pub open spec fn session_of(app: ResolvedAppView, start: i64, last_tick: Option<i64>) -> SessionView {
    SessionView {
        identity: Some(app.identity),
        exe_name: Some(app.exe_name),
        app_name: Some(app.app_name),
        start: Some(start),
        last_tick,
    }
}

/// What flushing the session so that it ends at `end` writes: nothing without
/// an app name or a start.
pub open spec fn pending_spec(s: SessionView, end: i64) -> Option<SessionRecordView> {
    match (s.app_name, s.start) {
        (Some(name), Some(start)) => Some(
            SessionRecordView {
                app_identity: s.identity,
                exe_name: s.exe_name,
                app_name: name,
                start_ms: start,
                end_ms: end,
            },
        ),
        _ => None,
    }
}

/// When a session flushed after a long gap ends: at the last tick before the
/// gap, but never before it started (then it lasts nothing).
pub open spec fn gap_end(s: SessionView) -> i64 {
    match (s.start, s.last_tick) {
        (Some(start), Some(t)) => if t >= start {
            t
        } else {
            start
        },
        (Some(start), None) => start,
        _ => 0,
    }
}

/// How long the session has run at `now`, in whole seconds (0 without a
/// session, and never below 0).
pub open spec fn elapsed_spec(s: SessionView, now: i64) -> int {
    match s.start {
        Some(start) => if seconds_spec(now as int) - seconds_spec(start as int) > 0 {
            seconds_spec(now as int) - seconds_spec(start as int)
        } else {
            0
        },
        None => 0,
    }
}

/// How long the session has run at `now`, as it counts toward total screen
/// time: nothing while idle, on an unknown app or without an app.
pub open spec fn elapsed_for_total_spec(s: SessionView, now: i64) -> int {
    match s.identity {
        Some(id) => if id == "idle"@ || id == "unknown"@ {
            0
        } else {
            elapsed_spec(s, now)
        },
        None => 0,
    }
}

/// Writing what a session was started with gives it back: flushing at `now`
/// the session of `app` started at `start` writes that app, from `start` to
/// `now`; after a clear, nothing is written.
pub proof fn lemma_session_round_trip(app: ResolvedAppView, start: i64, now: i64, last_tick: Option<i64>)
    ensures
        pending_spec(session_of(app, start, last_tick), now) == Some(
            SessionRecordView {
                app_identity: Some(app.identity),
                exe_name: Some(app.exe_name),
                app_name: app.app_name,
                start_ms: start,
                end_ms: now,
            },
        ),
        pending_spec(no_session(last_tick), now) is None,
{
}

/// Time the machine spent asleep is not logged: a session flushed after a
/// long gap ends at the tick before the gap at the latest, and never lasts
/// less than nothing.
pub proof fn lemma_sleep_not_logged(s: SessionView)
    requires
        s.start is Some,
    ensures
        s.last_tick matches Some(t) ==> gap_end(s) <= t || gap_end(s) == s.start->0,
        gap_end(s) >= s.start->0,
{
}

impl SessionTracker {
    /// No session yet, and no tick.
    pub fn new() -> (r: SessionTracker)
        ensures
            r@ == no_session(None),
    {
        SessionTracker {
            current_identity: None,
            current_exe_name: None,
            current_app: None,
            session_start: None,
            last_tick: None,
        }
    }

    fn record_until(&self, end: i64) -> (r: Option<SessionRecord>)
        ensures
            match r {
                Some(rec) => pending_spec(self@, end) == Some(rec@),
                None => pending_spec(self@, end) is None,
            },
    {
        match (&self.current_app, self.session_start) {
            (Some(name), Some(start)) => Some(
                SessionRecord {
                    app_identity: match &self.current_identity {
                        Some(id) => Some(id.clone()),
                        None => None,
                    },
                    exe_name: match &self.current_exe_name {
                        Some(e) => Some(e.clone()),
                        None => None,
                    },
                    app_name: name.clone(),
                    start_ms: start,
                    end_ms: end,
                },
            ),
            _ => None,
        }
    }

    /// What flushing the session at `now` writes: the session up to `now`.
    pub fn pending_session(&self, now: i64) -> (r: Option<SessionRecord>)
        ensures
            match r {
                Some(rec) => pending_spec(self@, now) == Some(rec@),
                None => pending_spec(self@, now) is None,
            },
    {
        self.record_until(now)
    }

    /// What flushing the session after a long gap writes: the session up to
    /// the last tick before the gap (see `gap_end`).
    pub fn pending_session_before_gap(&self) -> (r: Option<SessionRecord>)
        ensures
            match r {
                Some(rec) => pending_spec(self@, gap_end(self@)) == Some(rec@),
                None => pending_spec(self@, gap_end(self@)) is None,
            },
    {
        let end = match (self.session_start, self.last_tick) {
            (Some(start), Some(t)) => if t >= start {
                t
            } else {
                start
            },
            (Some(start), None) => start,
            _ => 0,
        };
        self.record_until(end)
    }

    /// Records that the tracker ticked at `now`.
    pub fn observe_tick(&mut self, now: i64)
        ensures
            final(self)@ == (SessionView { last_tick: Some(now), ..old(self)@ }),
    {
        self.last_tick = Some(now);
    }

    /// Ends the session: nothing is tracked until the next one starts.
    pub fn clear(&mut self)
        ensures
            final(self)@ == no_session(old(self)@.last_tick),
    {
        self.current_identity = None;
        self.current_exe_name = None;
        self.current_app = None;
        self.session_start = None;
    }

    /// Whether the session is that of the app with identity `identity`.
    pub fn is_current(&self, identity: &str) -> (r: bool)
        ensures
            r == (self@.identity == Some(identity@)),
    {
        match &self.current_identity {
            Some(id) => same_text(id.as_str(), identity),
            None => false,
        }
    }

    /// Starts the session of `app` at `now`.
    pub fn start_session(&mut self, app: &ResolvedApp, now: i64)
        ensures
            final(self)@ == session_of(app@, now, old(self)@.last_tick),
    {
        self.current_identity = Some(app.identity.clone());
        self.current_exe_name = Some(app.exe_name.clone());
        self.current_app = Some(app.app_name.clone());
        self.session_start = Some(now);
    }

    /// The first part of a tick at `now`. After a long gap (`gap`), the
    /// session ends at the tick before the gap; the tick is recorded; while
    /// the screen is off, the session (if still running) ends now and none
    /// runs. Returns the session that ended, to be written.
    pub fn begin_tick(&mut self, gap: bool, screen_on: bool, now: i64) -> (r: Option<SessionRecord>)
        ensures
            ({
                let s0 = old(self)@;
                let s1 = if gap {
                    no_session(s0.last_tick)
                } else {
                    s0
                };
                &&& final(self)@ == if screen_on {
                    SessionView { last_tick: Some(now), ..s1 }
                } else {
                    no_session(Some(now))
                }
                &&& match r {
                    Some(rec) => Some(rec@) == if gap {
                        pending_spec(s0, gap_end(s0))
                    } else if !screen_on {
                        pending_spec(s0, now)
                    } else {
                        None
                    },
                    None => (if gap {
                        pending_spec(s0, gap_end(s0))
                    } else if !screen_on {
                        pending_spec(s0, now)
                    } else {
                        None
                    }) is None,
                }
            }),
    {
        let mut ended: Option<SessionRecord> = None;
        if gap {
            ended = self.pending_session_before_gap();
            self.clear();
        }
        self.observe_tick(now);
        if !screen_on {
            if !gap {
                ended = self.pending_session(now);
            }
            self.clear();
        }
        ended
    }

    /// The second part of a tick at `now`, with `app` in the foreground:
    /// when the session is not that app's, it ends now and that app's
    /// session starts. Returns the session that ended, to be written.
    pub fn follow_app(&mut self, app: &ResolvedApp, now: i64) -> (r: Option<SessionRecord>)
        ensures
            old(self)@.identity == Some(app@.identity) ==> final(self)@ == old(self)@ && r is None,
            old(self)@.identity != Some(app@.identity) ==> {
                &&& final(self)@ == session_of(app@, now, old(self)@.last_tick)
                &&& match r {
                    Some(rec) => pending_spec(old(self)@, now) == Some(rec@),
                    None => pending_spec(old(self)@, now) is None,
                }
            },
    {
        if self.is_current(app.identity.as_str()) {
            None
        } else {
            let ended = self.pending_session(now);
            self.clear();
            self.start_session(app, now);
            ended
        }
    }

    /// How long the session has run at `now`, in whole seconds.
    pub fn live_elapsed_for_current(&self, now: i64) -> (r: i64)
        ensures
            r == elapsed_spec(self@, now),
    {
        match self.session_start {
            Some(start) => {
                let d = seconds_of(now) - seconds_of(start);
                if d > 0 {
                    d
                } else {
                    0
                }
            },
            None => 0,
        }
    }

    /// How long the session has run at `now`, as it counts toward total
    /// screen time.
    pub fn live_elapsed_for_total(&self, now: i64) -> (r: i64)
        ensures
            r == elapsed_for_total_spec(self@, now),
    {
        match &self.current_identity {
            Some(id) => if same_text(id.as_str(), "idle") || same_text(id.as_str(), "unknown") {
                0
            } else {
                self.live_elapsed_for_current(now)
            },
            None => 0,
        }
    }
}

/// The app in the foreground, from what was read of it: idle when no window
/// is in the foreground, unknown when its process id is 0 or its executable
/// could not be resolved, and otherwise the resolved app.
pub fn choose_active_app(has_window: bool, process_id: u32, resolved: Option<ResolvedApp>) -> (r: ResolvedApp)
    ensures
        !has_window ==> r@ == idle_app_view(),
        has_window && process_id == 0 ==> r@ == unknown_app_view(),
        has_window && process_id != 0 && resolved is None ==> r@ == unknown_app_view(),
        has_window && process_id != 0 ==> (resolved matches Some(app) ==> r@ == app@),
{
    if !has_window {
        return idle_app();
    }
    if process_id == 0 {
        return unknown_app();
    }
    match resolved {
        Some(app) => app,
        None => unknown_app(),
    }
}

/// The idle app.
pub open spec fn idle_app_view() -> ResolvedAppView {
    ResolvedAppView { identity: "idle"@, exe_name: "idle"@, app_name: "Idle"@ }
}

/// The unknown app.
pub open spec fn unknown_app_view() -> ResolvedAppView {
    ResolvedAppView { identity: "unknown"@, exe_name: "unknown"@, app_name: "Unknown"@ }
}

/// The app shown while no window is in the foreground.
pub fn idle_app() -> (r: ResolvedApp)
    ensures
        r@ == idle_app_view(),
{
    ResolvedApp {
        identity: String::from_str("idle"),
        exe_name: String::from_str("idle"),
        app_name: String::from_str("Idle"),
    }
}

/// The app shown when the foreground window's process cannot be read.
pub fn unknown_app() -> (r: ResolvedApp)
    ensures
        r@ == unknown_app_view(),
{
    ResolvedApp {
        identity: String::from_str("unknown"),
        exe_name: String::from_str("unknown"),
        app_name: String::from_str("Unknown"),
    }
}

} // verus!
