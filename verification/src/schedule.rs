//! The snapshot scheduler: the latest data, and the decision whether it
//! is still fresh.
//!
//! The clock is the caller's: every function takes the current time in
//! milliseconds as a plain value. A read never changes the snapshot;
//! the caller re-acquires and installs a whole new snapshot exactly
//! when [`Monitor::is_stale`] says the old one's age has reached the
//! configured interval.

use vstd::prelude::*;
use crate::config::AppConfig;
use crate::info::GpuInfo;
use crate::acquire::SensorCollection;

verus! {

/// The externally visible state at one point in time: the adapter
/// identities, the sensor collection, and when they were acquired.
#[derive(Debug)]
pub struct Snapshot {
    pub gpu_info: Vec<GpuInfo>,
    pub sensors: SensorCollection,
    /// Time of the last successful refresh, in milliseconds.
    pub refreshed_at_ms: u64,
}

/// Whether a snapshot taken at `last_ms` has gone stale by `now_ms`:
/// its age has met or exceeded the interval. A clock that moved
/// backwards also counts as stale, so a refresh is never skipped for
/// want of a believable age.
pub open spec fn spec_stale(last_ms: u64, interval_ms: u64, now_ms: u64) -> bool {
    now_ms < last_ms || now_ms - last_ms >= interval_ms
}

/// The scheduler: owns the current snapshot and the settings that
/// decide its freshness. Readers only ever see the snapshot through
/// `&self`; replacing it wholesale is the one mutation.
#[derive(Debug)]
pub struct Monitor {
    pub config: AppConfig,
    pub snapshot: Snapshot,
}

impl Monitor {
    /// A monitor holding its first snapshot, acquired at `now_ms`.
    pub fn new(
        config: AppConfig,
        gpu_info: Vec<GpuInfo>,
        sensors: SensorCollection,
        now_ms: u64,
    ) -> (m: Monitor)
        ensures
            m.config == config,
            m.snapshot.gpu_info == gpu_info,
            m.snapshot.sensors == sensors,
            m.snapshot.refreshed_at_ms == now_ms,
    {
        Monitor {
            config,
            snapshot: Snapshot { gpu_info, sensors, refreshed_at_ms: now_ms },
        }
    }

    /// Whether the snapshot must be re-acquired before it is shown.
    pub fn is_stale(&self, now_ms: u64) -> (b: bool)
        ensures
            b == spec_stale(self.snapshot.refreshed_at_ms, self.config.update_interval, now_ms),
    {
        if now_ms < self.snapshot.refreshed_at_ms {
            true
        } else {
            now_ms - self.snapshot.refreshed_at_ms >= self.config.update_interval
        }
    }

    /// Replaces the snapshot wholesale with freshly acquired data,
    /// stamping it with the time of acquisition. The settings never
    /// change.
    pub fn install(&mut self, gpu_info: Vec<GpuInfo>, sensors: SensorCollection, now_ms: u64)
        ensures
            final(self).config == old(self).config,
            final(self).snapshot.gpu_info == gpu_info,
            final(self).snapshot.sensors == sensors,
            final(self).snapshot.refreshed_at_ms == now_ms,
    {
        self.snapshot = Snapshot { gpu_info, sensors, refreshed_at_ms: now_ms };
    }

    /// The current snapshot, read-only: what a reader at any time
    /// `now_ms` with a fresh snapshot observes, [`spec_observed`].
    pub fn snapshot(&self) -> (s: &Snapshot)
        ensures
            *s == self.snapshot,
            forall|now_ms: u64| *s == spec_observed(*self, now_ms),
    {
        &self.snapshot
    }

    /// The settings, read-only.
    pub fn config(&self) -> (c: AppConfig)
        ensures
            c == self.config,
    {
        self.config
    }
}

/// What a read of the monitor at time `now_ms` observes, provided the
/// snapshot is still fresh then: the snapshot as it stands. Only
/// installing a new snapshot changes it; the read time does not.
pub open spec fn spec_observed(m: Monitor, now_ms: u64) -> Snapshot {
    m.snapshot
}

/// Law: immediately after a refresh at `now_ms`, every read strictly
/// before the configured interval has elapsed finds the snapshot
/// fresh, so no further acquisition is triggered.
pub proof fn lemma_fresh_until_interval(m: Monitor, now_ms: u64, read_ms: u64)
    requires
        m.snapshot.refreshed_at_ms == now_ms,
        now_ms <= read_ms,
        (read_ms as int) - (now_ms as int) < m.config.update_interval as int,
    ensures
        !spec_stale(m.snapshot.refreshed_at_ms, m.config.update_interval, read_ms),
{
}

/// Law: once the configured interval has elapsed since the refresh,
/// the snapshot is stale, so the next read triggers a re-acquisition;
/// installing that acquisition's result carries the read's timestamp.
pub proof fn lemma_stale_after_interval(m: Monitor, now_ms: u64, read_ms: u64)
    requires
        m.snapshot.refreshed_at_ms == now_ms,
        (read_ms as int) >= (now_ms as int) + (m.config.update_interval as int),
    ensures
        spec_stale(m.snapshot.refreshed_at_ms, m.config.update_interval, read_ms),
{
}

/// Law: repeated reads within one fresh window observe the identical
/// snapshot: what a read returns does not depend on when, within the
/// window, it happens, and a fresh read installs nothing.
pub proof fn lemma_fresh_reads_idempotent(m: Monitor, read1_ms: u64, read2_ms: u64)
    requires
        !spec_stale(m.snapshot.refreshed_at_ms, m.config.update_interval, read1_ms),
        !spec_stale(m.snapshot.refreshed_at_ms, m.config.update_interval, read2_ms),
    ensures
        spec_observed(m, read1_ms) == spec_observed(m, read2_ms),
        spec_observed(m, read1_ms) == m.snapshot,
{
}

} // verus!
