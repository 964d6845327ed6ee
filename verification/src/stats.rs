//! The counters kept for one endpoint.

use vstd::prelude::*;
use crate::rate::Rate;

verus! {

/// What the checker has seen of one endpoint.
#[derive(Debug, Clone, Copy, PartialEq, Eq, Structural)]
pub struct _ProxyInfo {
    /// Probes that succeeded.
    pub success: u32,
    /// Probes that failed.
    pub failed: u32,
    /// Probes that failed since the last success. It stops counting at 255,
    /// and keeps a once reliable proxy that went away from staying listed.
    pub fail_times: u8,
}

/// The counters under the name that earlier versions of the pool file used.
pub type Info = _ProxyInfo;

impl _ProxyInfo {
    /// The number of probes made.
    pub open spec fn checks(&self) -> int {
        self.success + self.failed
    }

    /// The number of probes made fits the counter's type.
    pub open spec fn wf(&self) -> bool {
        self.checks() <= u32::MAX
    }

    /// One more probe can be counted.
    pub open spec fn has_room(&self) -> bool {
        self.checks() < u32::MAX
    }

    /// The share of probes that succeeded, or `unknown` before the first
    /// probe.
    pub open spec fn rate_or(&self, unknown: Rate) -> Rate {
        if self.checks() == 0 {
            unknown
        } else {
            Rate { num: self.success, den: self.checks() as u32 }
        }
    }

    /// The stability that the checker's rules go by: a proxy that was never
    /// probed counts as fully stable, so that nothing is held against it.
    pub open spec fn spec_stability(&self) -> Rate {
        self.rate_or(Rate { num: 1, den: 1 })
    }

    /// The stability that a query's filter goes by: a proxy that was never
    /// probed counts as not stable at all.
    pub open spec fn proven_stability(&self) -> Rate {
        self.rate_or(Rate { num: 0, den: 1 })
    }

    /// The counters after one more successful probe.
    pub open spec fn after_success(&self) -> _ProxyInfo {
        _ProxyInfo { success: (self.success + 1) as u32, failed: self.failed, fail_times: 0 }
    }

    /// The counters after one more failed probe.
    pub open spec fn after_failure(&self) -> _ProxyInfo {
        _ProxyInfo {
            success: self.success,
            failed: (self.failed + 1) as u32,
            fail_times: if self.fail_times < 255 {
                (self.fail_times + 1) as u8
            } else {
                255u8
            },
        }
    }

    /// The counters after a probe that ended as `alive` says.
    pub open spec fn after_probe(&self, alive: bool) -> _ProxyInfo {
        if alive {
            self.after_success()
        } else {
            self.after_failure()
        }
    }

    /// Fresh counters: nothing seen yet.
    pub fn new() -> (info: _ProxyInfo)
        ensures
            info == (_ProxyInfo { success: 0, failed: 0, fail_times: 0 }),
    {
        _ProxyInfo { success: 0, failed: 0, fail_times: 0 }
    }

    /// The number of probes made.
    pub fn check_cnt(&self) -> (n: u32)
        requires
            self.wf(),
        ensures
            n == self.checks(),
    {
        self.success + self.failed
    }

    /// The stability that the checker's rules go by.
    pub fn stability(&self) -> (rate: Rate)
        requires
            self.wf(),
        ensures
            rate == self.spec_stability(),
            rate.wf(),
    {
        let checks: u32 = self.check_cnt();
        if checks == 0 {
            Rate { num: 1, den: 1 }
        } else {
            Rate { num: self.success, den: checks }
        }
    }

    /// Whether the share of successful probes is at least `min`, a proxy that
    /// was never probed having none.
    pub fn proven_at_least(&self, min: &Rate) -> (yes: bool)
        requires
            self.wf(),
        ensures
            yes == self.proven_stability().at_least(min),
    {
        let checks: u32 = self.check_cnt();
        let rate = if checks == 0 {
            Rate { num: 0, den: 1 }
        } else {
            Rate { num: self.success, den: checks }
        };
        rate.reaches(min)
    }

    /// Counts a successful probe.
    pub fn record_success(&mut self)
        requires
            old(self).has_room(),
        ensures
            *final(self) == old(self).after_success(),
            final(self).wf(),
    {
        self.success = self.success + 1;
        self.fail_times = 0;
    }

    /// Counts a failed probe.
    pub fn record_failure(&mut self)
        requires
            old(self).has_room(),
        ensures
            *final(self) == old(self).after_failure(),
            final(self).wf(),
    {
        self.failed = self.failed + 1;
        self.fail_times = self.fail_times.saturating_add(1);
    }
}

impl Default for _ProxyInfo {
    fn default() -> (info: _ProxyInfo)
        ensures
            info == (_ProxyInfo { success: 0, failed: 0, fail_times: 0 }),
    {
        _ProxyInfo::new()
    }
}

} // verus!
