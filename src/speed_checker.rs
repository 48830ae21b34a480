//! Throughput monitor: counts scanned candidates and emits a rate once per
//! interval. It only observes; nothing in a scan depends on it.
use std::sync::mpsc::Sender;
use std::time::Instant;
use vstd::prelude::*;

verus! {

#[verifier::external_type_specification]
#[verifier::external_body]
pub struct ExInstant(Instant);

#[verifier::external_type_specification]
#[verifier::external_body]
#[verifier::reject_recursive_types(T)]
pub struct ExSender<T>(Sender<T>);

/// The length of a reporting interval, in seconds.
pub const REPORT_INTERVAL_SECS: u64 = 5;

pub const NANOS_PER_SEC: u128 = 1_000_000_000;

pub struct SpeedChecker {
    counter: u64,
    interval_secs: u64,
    started_at: Instant,
    reports: Option<Sender<u64>>,
}

impl SpeedChecker {
    pub closed spec fn wf(&self) -> bool {
        self.interval_secs > 0
    }

    /// Candidates counted since the current interval began.
    pub closed spec fn count_spec(&self) -> nat {
        self.counter as nat
    }

    /// The length of the reporting interval, in seconds.
    pub closed spec fn interval_spec(&self) -> nat {
        self.interval_secs as nat
    }

    /// A monitor with an empty count whose interval starts now; it reports
    /// nowhere until `set_reports` is called.
    pub fn new() -> (r: SpeedChecker)
        ensures
            r.wf(),
            r.count_spec() == 0,
            r.interval_spec() == REPORT_INTERVAL_SECS,
    {
        SpeedChecker {
            counter: 0,
            interval_secs: REPORT_INTERVAL_SECS,
            started_at: now(),
            reports: None,
        }
    }

    /// Sends each rate emitted from now on to `reports`.
    pub fn set_reports(&mut self, reports: Sender<u64>)
        ensures
            final(self).wf() == old(self).wf(),
            final(self).count_spec() == old(self).count_spec(),
    {
        self.reports = Some(reports);
    }

    pub fn count(&self) -> (r: u64)
        ensures
            r == self.count_spec(),
    {
        self.counter
    }

    /// One step of the monitor, given whether the interval has run out: then
    /// it yields the rate in candidates per second and restarts the count;
    /// else it counts one more candidate (the count stops at `u64::MAX`).
    pub fn advance(&mut self, interval_elapsed: bool) -> (r: Option<u64>)
        requires
            old(self).wf(),
        ensures
            final(self).wf(),
            final(self).interval_spec() == old(self).interval_spec(),
            interval_elapsed ==> r == Some(
                (old(self).count_spec() / old(self).interval_spec()) as u64,
            ) && final(self).count_spec() == 0,
            !interval_elapsed ==> r is None && final(self).count_spec() == if old(
                self,
            ).count_spec() < u64::MAX {
                old(self).count_spec() + 1
            } else {
                old(self).count_spec()
            },
    {
        if interval_elapsed {
            let rate = self.counter / self.interval_secs;
            self.counter = 0;
            Some(rate)
        } else {
            if self.counter < u64::MAX {
                self.counter = self.counter + 1;
            }
            None
        }
    }

    /// Called once per scanned candidate: reads the clock and, when more than
    /// the interval has passed, emits the rate and starts a new interval.
    pub fn update(&mut self)
        requires
            old(self).wf(),
        ensures
            final(self).wf(),
            final(self).interval_spec() == old(self).interval_spec(),
            final(self).count_spec() == 0 || final(self).count_spec() == if old(self).count_spec()
                < u64::MAX {
                old(self).count_spec() + 1
            } else {
                old(self).count_spec()
            },
    {
        let elapsed = nanos_since(&self.started_at);
        let exceeded = elapsed > (self.interval_secs as u128) * NANOS_PER_SEC;
        match self.advance(exceeded) {
            Some(rate) => {
                self.started_at = now();
                match &self.reports {
                    Some(reports) => send_rate(reports, rate),
                    None => {},
                }
            },
            None => {},
        }
    }
}

/// Relies on `Instant::now`.
#[verifier::external_body]
fn now() -> Instant {
    Instant::now()
}

/// Relies on `Instant::elapsed`: the nanoseconds passed since `start`. It
/// depends on the clock, so nothing is promised.
#[verifier::external_body]
fn nanos_since(start: &Instant) -> u128 {
    start.elapsed().as_nanos()
}

/// Relies on `Sender::send`; a receiver that has gone away is ignored.
#[verifier::external_body]
fn send_rate(reports: &Sender<u64>, rate: u64) {
    let _ = reports.send(rate);
}

} // verus!
