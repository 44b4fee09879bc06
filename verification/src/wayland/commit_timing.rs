//! `wp_commit_timing_manager_v1`: timestamps of surface commits.
use vstd::prelude::*;
use std::collections::HashMap;
use std::time::{Duration, SystemTime};

verus! {

#[verifier::external_type_specification]
#[verifier::external_body]
pub struct ExSystemTime(SystemTime);

/// The current wall-clock time.
///
/// Trusted: calls `SystemTime::now`; the result depends on the clock, so
/// nothing is stated of it.
#[verifier::external_body]
fn system_time_now() -> SystemTime {
    SystemTime::now()
}

/// The time elapsed since the Unix epoch, zero for times before it.
///
/// Trusted: calls `SystemTime::duration_since(UNIX_EPOCH)` and maps its
/// error (a time before the epoch) to the zero duration; nothing is stated
/// of the duration.
#[verifier::external_body]
fn since_unix_epoch(t: SystemTime) -> Duration {
    t.duration_since(std::time::UNIX_EPOCH).unwrap_or_default()
}

/// Whole seconds of a duration.
///
/// Trusted: calls `Duration::as_secs`; nothing is stated of the result.
#[verifier::external_body]
fn duration_secs(d: &Duration) -> u64 {
    d.as_secs()
}

/// The fractional part of a duration in nanoseconds.
///
/// Trusted: calls `Duration::subsec_nanos`, documented to be always less
/// than one billion.
#[verifier::external_body]
fn duration_subsec_nanos(d: &Duration) -> (n: u32)
    ensures
        n < 1_000_000_000,
{
    d.subsec_nanos()
}

/// A commit timing record: seconds split in two 32-bit halves, and
/// nanoseconds.
#[derive(Debug, Clone)]
pub struct CommitTimestamp {
    pub tv_sec_hi: u32,
    pub tv_sec_lo: u32,
    pub tv_nsec: u32,
}

impl CommitTimestamp {
    /// The record of a time `secs` seconds and `nanos` nanoseconds after
    /// the Unix epoch.
    pub fn from_unix(secs: u64, nanos: u32) -> (t: CommitTimestamp)
        ensures
            t.tv_sec_hi == secs / 0x1_0000_0000,
            t.tv_sec_lo == secs % 0x1_0000_0000,
            t.tv_nsec == nanos,
    {
        let hi = (secs >> 32u64) as u32;
        let lo = (secs & 0xffff_ffffu64) as u32;
        assert(hi == secs / 0x1_0000_0000 && lo == secs % 0x1_0000_0000) by (bit_vector)
            requires
                hi == (secs >> 32u64) as u32,
                lo == (secs & 0xffff_ffffu64) as u32,
        ;
        CommitTimestamp { tv_sec_hi: hi, tv_sec_lo: lo, tv_nsec: nanos }
    }

    /// A timestamp of the current wall-clock time (nothing is stated of the
    /// time itself but that the nanoseconds are below one second).
    pub fn now() -> (t: CommitTimestamp)
        ensures
            t.tv_nsec < 1_000_000_000,
    {
        let dur = since_unix_epoch(system_time_now());
        CommitTimestamp::from_unix(duration_secs(&dur), duration_subsec_nanos(&dur))
    }
}

/// Commit timing state of one surface.
#[derive(Debug)]
pub struct CommitTimerState {
    pub surface_id: u64,
    pub last_commit: Option<CommitTimestamp>,
    pub active: bool,
}

impl CommitTimerState {
    pub open spec fn initial(surface_id: u64) -> CommitTimerState {
        CommitTimerState { surface_id, last_commit: None, active: true }
    }

    /// An active timer without commits.
    pub fn new(surface_id: u64) -> (s: CommitTimerState)
        ensures
            s == CommitTimerState::initial(surface_id),
    {
        CommitTimerState { surface_id, last_commit: None, active: true }
    }

    /// Record a commit at the current time and return its timestamp.
    pub fn record_commit(&mut self) -> (t: CommitTimestamp)
        ensures
            final(self).last_commit == Some(t),
            final(self).surface_id == old(self).surface_id,
            final(self).active == old(self).active,
            t.tv_nsec < 1_000_000_000,
    {
        let ts = CommitTimestamp::now();
        self.last_commit = Some(
            CommitTimestamp { tv_sec_hi: ts.tv_sec_hi, tv_sec_lo: ts.tv_sec_lo, tv_nsec: ts.tv_nsec },
        );
        ts
    }
}

/// The commit timers of every surface, by surface id.
#[derive(Debug)]
pub struct CommitTimingManager {
    pub timers: HashMap<u64, CommitTimerState>,
}

impl CommitTimingManager {
    /// No timers.
    pub fn new() -> (m: CommitTimingManager)
        ensures
            m.timers@ == Map::<u64, CommitTimerState>::empty(),
    {
        CommitTimingManager { timers: HashMap::new() }
    }

    /// The timer of a surface, created on first use.
    pub fn get_or_create(&mut self, surface_id: u64) -> (t: &mut CommitTimerState)
        ensures
            *t == (if old(self).timers@.contains_key(surface_id) {
                old(self).timers@[surface_id]
            } else {
                CommitTimerState::initial(surface_id)
            }),
            final(self).timers@ == old(self).timers@.insert(surface_id, *final(t)),
    {
        broadcast use vstd::std_specs::hash::group_hash_axioms;
        self.timers.entry(surface_id).or_insert(CommitTimerState::new(surface_id))
    }
}

impl Default for CommitTimingManager {
    fn default() -> (m: CommitTimingManager)
        ensures
            m.timers@ == Map::<u64, CommitTimerState>::empty(),
    {
        CommitTimingManager::new()
    }
}

/// Register the `wp_commit_timing_manager_v1` global.
pub fn register() {
}

} // verus!
