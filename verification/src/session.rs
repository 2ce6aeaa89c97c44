//! The decisions of the probing loop: what each probe outcome does to the
//! statistics, what is reported of it, and when the loop stops.
//!
//! The caller runs the loop: it probes, reads the clock, sleeps between
//! probes, watches for a shutdown request, and prints what is reported.

use vstd::prelude::*;

use crate::config::{Config, copy_opt_string, target_address};
use crate::statistics::{Statistics, StatisticsView};
use crate::tcp_probe::{ProbeError, ProbeResult, error_message};

verus! {

/// What the loop reports of one probe.
#[derive(Debug)]
pub enum ProbeReport {
    /// The target was reached: the source address (if shown), the target
    /// text, the length of the success streak, and the round-trip time in
    /// microseconds.
    Success { source_addr: Option<String>, target: String, streak: u32, rtt: u64 },
    /// The target was not reached: the target text, the length of the
    /// failure streak, and the error text to show in verbose mode.
    Failure { target: String, streak: u32, error: Option<String> },
}

/// A probing session: its configuration, its statistics, and how many probes
/// it has made.
#[derive(Debug)]
pub struct Session {
    pub config: Config,
    pub stats: Statistics,
    pub probe_count: u32,
}

/// Does the probe outcome count as a success?
pub open spec fn reached(result: Result<ProbeResult, ProbeError>) -> bool {
    result matches Ok(pr) && pr.success
}

impl Session {
    /// Is another probe due after `probe_count` probes with a limit of
    /// `count` (0 for no limit)?
    pub open spec fn continues(count: u32, probe_count: u32) -> bool {
        !(count > 0 && probe_count >= count)
    }

    /// A session with fresh statistics and no probe made.
    pub fn new(config: Config) -> (s: Self)
        ensures
            s.config == config,
            s.stats@ == StatisticsView::initial(0),
            s.probe_count == 0,
    {
        Session { config, stats: Statistics::new(), probe_count: 0 }
    }

    /// Records the outcome of one probe, made at `now`, and says what to
    /// report of it. Every probe is counted once, as a success or as a
    /// failure, so the probe count stays the sum of the two totals. A reached target counts as a success; a result that is
    /// not a success, or an error, counts as a failure, and in verbose mode an
    /// error is reported as `Probe failed: ` and its text.
    pub fn handle_probe(&mut self, result: Result<ProbeResult, ProbeError>, now: u64) -> (r: ProbeReport)
        requires
            reached(result) ==> old(self).stats@.can_record_success(now),
            !reached(result) ==> old(self).stats@.can_record_failure(now),
            old(self).probe_count < u32::MAX,
        ensures
            final(self).config == old(self).config,
            final(self).probe_count == old(self).probe_count + 1,
            old(self).probe_count == old(self).stats.total_successful_probes + old(self).stats.total_unsuccessful_probes
                ==> final(self).probe_count == final(self).stats.total_successful_probes
                    + final(self).stats.total_unsuccessful_probes,
            ({
                let target = target_address(old(self).config.host@, old(self).config.port);
                match result {
                    Ok(pr) => if pr.success {
                        &&& final(self).stats@ == old(self).stats@.after_success(pr.rtt, now)
                        &&& r matches ProbeReport::Success { source_addr, target: t, streak, rtt }
                            && source_addr == pr.source_addr && t@ == target
                            && streak == final(self).stats.ongoing_successful_probes && rtt == pr.rtt
                    } else {
                        &&& final(self).stats@ == old(self).stats@.after_failure(now)
                        &&& r matches ProbeReport::Failure { target: t, streak, error }
                            && t@ == target && streak == final(self).stats.ongoing_unsuccessful_probes
                            && error is None
                    },
                    Err(e) => {
                        &&& final(self).stats@ == old(self).stats@.after_failure(now)
                        &&& r matches ProbeReport::Failure { target: t, streak, error }
                            && t@ == target && streak == final(self).stats.ongoing_unsuccessful_probes
                            && (if old(self).config.verbose {
                                error matches Some(m) && m@ == "Probe failed: "@ + error_message(e)
                            } else {
                                error is None
                            })
                    },
                }
            }),
    {
        let target = self.config.get_target_address();
        let report = match result {
            Ok(probe_result) => {
                if probe_result.success {
                    self.stats.record_success(probe_result.rtt, now);
                    ProbeReport::Success {
                        source_addr: copy_opt_string(&probe_result.source_addr),
                        target,
                        streak: self.stats.ongoing_successful_probes,
                        rtt: probe_result.rtt,
                    }
                } else {
                    self.stats.record_failure(now);
                    ProbeReport::Failure { target, streak: self.stats.ongoing_unsuccessful_probes, error: None }
                }
            },
            Err(e) => {
                self.stats.record_failure(now);
                let error = if self.config.verbose {
                    let mut m = String::from_str("Probe failed: ");
                    let text = e.message();
                    m.append(text.as_str());
                    Some(m)
                } else {
                    None
                };
                ProbeReport::Failure { target, streak: self.stats.ongoing_unsuccessful_probes, error }
            },
        };
        self.probe_count = self.probe_count + 1;
        report
    }

    /// Can `handle_probe` take this outcome at `now` without a counter or a
    /// total running out of range?
    pub fn can_handle(&self, result: &Result<ProbeResult, ProbeError>, now: u64) -> (b: bool)
        ensures
            b == ((reached(*result) ==> self.stats@.can_record_success(now))
                && (!reached(*result) ==> self.stats@.can_record_failure(now))
                && self.probe_count < u32::MAX),
    {
        let counted = self.probe_count < u32::MAX;
        let reached_target = match result {
            Ok(probe_result) => probe_result.success,
            Err(_) => false,
        };
        if reached_target {
            counted && self.stats.can_record_success(now)
        } else {
            counted && self.stats.can_record_failure(now)
        }
    }

    /// Is another probe due? Not once the configured count (if any) of
    /// probes has been made.
    pub fn should_continue(&self) -> (b: bool)
        ensures
            b == Self::continues(self.config.count, self.probe_count),
    {
        !(self.config.count > 0 && self.probe_count >= self.config.count)
    }
}

/// With a probe limit, a session makes exactly that many probes: a fresh
/// session continues, and after `k` probes it continues exactly while
/// `k` is below the limit; with no limit it always continues.
pub proof fn lemma_probe_limit(count: u32, k: u32)
    ensures
        Session::continues(count, 0),
        count == 0 ==> Session::continues(count, k),
        count > 0 ==> (Session::continues(count, k) <==> k < count),
{
}

} // verus!
