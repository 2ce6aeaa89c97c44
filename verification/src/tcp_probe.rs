//! One TCP probe of the target: what is made of the address lookup, of the
//! connection attempt, and of a failed attempt when retries are allowed.
//!
//! The lookup and the connection themselves are network operations; the
//! caller performs them and hands their outcomes here as plain values.

use vstd::prelude::*;

use crate::config::{Config, IpVersion, preferred_ip_version, target_address};

verus! {

/// An address that a target resolved to: its text (as `SocketAddr` displays
/// it, e.g. `127.0.0.1:80` or `[::1]:80`) and its IP version.
#[derive(Debug, Clone)]
pub struct ResolvedAddress {
    pub text: String,
    pub is_ipv4: bool,
}

/// The outcome of a probe that reached the target. `rtt` is the round-trip
/// time in microseconds.
#[derive(Debug, Clone)]
pub struct ProbeResult {
    pub success: bool,
    pub rtt: u64,
    pub source_addr: Option<String>,
    pub target_addr: String,
    pub error: Option<String>,
}

/// Why a probe did not reach the target.
#[derive(Debug, Clone)]
pub enum ProbeError {
    ConnectionFailed(String),
    ResolutionFailed(String),
    IoError(String),
}

/// The text of a probe error, as the tool displays it.
pub open spec fn error_message(e: ProbeError) -> Seq<char> {
    match e {
        ProbeError::ConnectionFailed(m) => "Connection failed: "@ + m@,
        ProbeError::ResolutionFailed(m) => "Resolution failed: "@ + m@,
        ProbeError::IoError(m) => "IO error: "@ + m@,
    }
}

impl ProbeError {
    /// The text of the error, as the tool displays it.
    pub fn message(&self) -> (s: String)
        ensures
            s@ == error_message(*self),
    {
        match self {
            ProbeError::ConnectionFailed(m) => {
                let mut s = String::from_str("Connection failed: ");
                s.append(m.as_str());
                s
            },
            ProbeError::ResolutionFailed(m) => {
                let mut s = String::from_str("Resolution failed: ");
                s.append(m.as_str());
                s
            },
            ProbeError::IoError(m) => {
                let mut s = String::from_str("IO error: ");
                s.append(m.as_str());
                s
            },
        }
    }
}

/// Does an address of the given version suit the preference?
pub open spec fn version_accepted(pref: IpVersion, is_ipv4: bool) -> bool {
    match pref {
        IpVersion::V4 => is_ipv4,
        IpVersion::V6 => !is_ipv4,
        IpVersion::Any => true,
    }
}

/// The index of the first address, from index `from` on, whose IP version
/// suits the preference.
pub open spec fn first_suitable_from(addrs: Seq<ResolvedAddress>, pref: IpVersion, from: int) -> Option<int>
    decreases addrs.len() - from,
{
    if from < 0 || from >= addrs.len() {
        None
    } else if version_accepted(pref, addrs[from].is_ipv4) {
        Some(from)
    } else {
        first_suitable_from(addrs, pref, from + 1)
    }
}

/// The index of the first address whose IP version suits the preference.
pub open spec fn first_suitable(addrs: Seq<ResolvedAddress>, pref: IpVersion) -> Option<int> {
    first_suitable_from(addrs, pref, 0)
}

/// The address kept from a resolution is the first one whose IP version
/// suits the preference: it is in the list and suits, every address before it
/// does not; and when none is kept, no address suits.
pub proof fn lemma_first_suitable(addrs: Seq<ResolvedAddress>, pref: IpVersion)
    ensures
        match first_suitable(addrs, pref) {
            Some(i) => 0 <= i < addrs.len() && version_accepted(pref, addrs[i].is_ipv4)
                && forall|j: int| 0 <= j < i ==> !version_accepted(pref, #[trigger] addrs[j].is_ipv4),
            None => forall|j: int| 0 <= j < addrs.len() ==> !version_accepted(pref, #[trigger] addrs[j].is_ipv4),
        },
{
    lemma_first_suitable_from(addrs, pref, 0);
}

/// `lemma_first_suitable`, searching from index `from`.
proof fn lemma_first_suitable_from(addrs: Seq<ResolvedAddress>, pref: IpVersion, from: int)
    requires
        0 <= from,
    ensures
        match first_suitable_from(addrs, pref, from) {
            Some(i) => from <= i < addrs.len() && version_accepted(pref, addrs[i].is_ipv4)
                && forall|j: int| from <= j < i ==> !version_accepted(pref, #[trigger] addrs[j].is_ipv4),
            None => forall|j: int| from <= j < addrs.len() ==> !version_accepted(pref, #[trigger] addrs[j].is_ipv4),
        },
    decreases addrs.len() - from,
{
    if from < addrs.len() && !version_accepted(pref, addrs[from].is_ipv4) {
        lemma_first_suitable_from(addrs, pref, from + 1);
    }
}

/// `version_accepted` in executable form.
fn version_accepted_exec(pref: IpVersion, is_ipv4: bool) -> (b: bool)
    ensures
        b == version_accepted(pref, is_ipv4),
{
    match pref {
        IpVersion::V4 => is_ipv4,
        IpVersion::V6 => !is_ipv4,
        IpVersion::Any => true,
    }
}

/// What follows attempt number `attempt` (from 0) with this outcome, when
/// `max_retries` retries are allowed: a result ends the probe, and so does an
/// error at the last attempt; an earlier error is retried.
pub open spec fn retry_decision(attempt: int, max_retries: int, outcome: Result<ProbeResult, ProbeError>) -> RetryStep {
    match outcome {
        Ok(_) => RetryStep::Finish(outcome),
        Err(_) => if attempt >= max_retries {
            RetryStep::Finish(outcome)
        } else {
            RetryStep::RetryAfterPause
        },
    }
}

/// A probe with retries, run from attempt `k` on, where attempt `i` has the
/// outcome `outcomes[i]` and each step goes as `retry_decision` says: how many
/// attempts were made in all, and the outcome the probe ended with (none if
/// the outcomes ran out first).
pub open spec fn retry_run(outcomes: Seq<Result<ProbeResult, ProbeError>>, max_retries: int, k: int) -> (int, Option<Result<ProbeResult, ProbeError>>)
    decreases outcomes.len() - k,
{
    if k < 0 || k >= outcomes.len() {
        (k, None)
    } else {
        match retry_decision(k, max_retries, outcomes[k]) {
            RetryStep::Finish(r) => (k + 1, Some(r)),
            RetryStep::RetryAfterPause => retry_run(outcomes, max_retries, k + 1),
        }
    }
}

/// Retry law: a probe allowed `max_retries` retries makes at most
/// `max_retries + 1` attempts; it ends with the first attempt that reached
/// the target, if one of those did, and otherwise with the error of its last
/// attempt, every attempt before it having failed.
pub proof fn lemma_retry_bound(outcomes: Seq<Result<ProbeResult, ProbeError>>, max_retries: u32)
    requires
        outcomes.len() > max_retries,
    ensures
        ({
            let (n, r) = retry_run(outcomes, max_retries as int, 0);
            &&& 1 <= n <= max_retries + 1
            &&& r == Some(outcomes[n - 1])
            &&& forall|j: int| 0 <= j < n - 1 ==> #[trigger] outcomes[j] is Err
            &&& (outcomes[n - 1] is Ok || n == max_retries + 1)
        }),
{
    lemma_retry_run_from(outcomes, max_retries as int, 0);
}

/// `lemma_retry_bound`, from attempt `k` on, when the attempts before `k` failed.
proof fn lemma_retry_run_from(outcomes: Seq<Result<ProbeResult, ProbeError>>, max_retries: int, k: int)
    requires
        0 <= k <= max_retries,
        outcomes.len() > max_retries,
    ensures
        ({
            let (n, r) = retry_run(outcomes, max_retries, k);
            &&& k + 1 <= n <= max_retries + 1
            &&& r == Some(outcomes[n - 1])
            &&& forall|j: int| k <= j < n - 1 ==> #[trigger] outcomes[j] is Err
            &&& (outcomes[n - 1] is Ok || n == max_retries + 1)
        }),
    decreases max_retries - k,
{
    if outcomes[k] is Err && k < max_retries {
        lemma_retry_run_from(outcomes, max_retries, k + 1);
    }
}

/// What the caller does after one attempt of a probe that may be retried.
#[derive(Debug)]
pub enum RetryStep {
    /// The probe is over, with this outcome.
    Finish(Result<ProbeResult, ProbeError>),
    /// Wait a second, then try again.
    RetryAfterPause,
}

/// Probes one target with one configuration.
#[derive(Debug)]
pub struct TcpProbe {
    config: Config,
}

impl TcpProbe {
    /// The configuration that the probe works with.
    pub closed spec fn spec_config(&self) -> Config {
        self.config
    }

    /// A probe for the target and options of `config`.
    pub fn new(config: Config) -> (p: Self)
        ensures
            p.spec_config() == config,
    {
        Self { config }
    }

    /// The configuration that the probe works with.
    pub fn config(&self) -> (c: &Config)
        ensures
            *c == self.spec_config(),
    {
        &self.config
    }

    /// The `host:port` text that is looked up.
    pub fn target(&self) -> (t: String)
        ensures
            t@ == target_address(self.spec_config().host@, self.spec_config().port),
    {
        self.config.get_target_address()
    }

    /// Keeps `addr` if its IP version suits the configured preference.
    pub fn filter_by_ip_version(&self, addr: ResolvedAddress) -> (r: Option<ResolvedAddress>)
        ensures
            r == (if version_accepted(
                preferred_ip_version(self.spec_config().ipv4, self.spec_config().ipv6),
                addr.is_ipv4,
            ) {
                Some(addr)
            } else {
                None
            }),
    {
        match self.config.get_preferred_ip_version() {
            IpVersion::V4 => if addr.is_ipv4 {
                Some(addr)
            } else {
                None
            },
            IpVersion::V6 => if !addr.is_ipv4 {
                Some(addr)
            } else {
                None
            },
            IpVersion::Any => Some(addr),
        }
    }

    /// What resolving the target comes to. `addrs` is what the target
    /// resolved to, in order (the address itself for an IP address target),
    /// or the text of the lookup's error. The first address whose IP version
    /// suits the preference is kept; when none does, resolution fails.
    pub fn resolution_outcome(&self, addrs: Result<Vec<ResolvedAddress>, String>) -> (r: Result<ResolvedAddress, ProbeError>)
        ensures
            match addrs {
                Ok(list) => match first_suitable(
                    list@,
                    preferred_ip_version(self.spec_config().ipv4, self.spec_config().ipv6),
                ) {
                    Some(i) => r == Ok::<ResolvedAddress, ProbeError>(list@[i]),
                    None => r matches Err(ProbeError::ResolutionFailed(m))
                        && m@ == "Could not resolve hostname: "@ + self.spec_config().host@,
                },
                Err(e) => r matches Err(ProbeError::ResolutionFailed(m))
                    && m@ == "Failed to resolve target "@ + target_address(self.spec_config().host@, self.spec_config().port) + ": "@ + e@,
            },
    {
        match addrs {
            Ok(list) => {
                let ghost pref = preferred_ip_version(self.config.ipv4, self.config.ipv6);
                let mut list = list;
                let n = list.len();
                let mut i: usize = 0;
                while i < n
                    invariant
                        i <= n,
                        n == list@.len(),
                        pref == preferred_ip_version(self.config.ipv4, self.config.ipv6),
                        addrs matches Ok(l) && l@ == list@,
                        first_suitable(list@, pref) == first_suitable_from(list@, pref, i as int),
                    decreases n - i,
                {
                    if version_accepted_exec(self.config.get_preferred_ip_version(), list[i].is_ipv4) {
                        let ghost before = list@;
                        let addr = list.swap_remove(i);
                        assert(addr == before[i as int]);
                        return Ok(addr);
                    }
                    i = i + 1;
                }
                let mut m = String::from_str("Could not resolve hostname: ");
                m.append(self.config.host.as_str());
                Err(ProbeError::ResolutionFailed(m))
            },
            Err(e) => {
                let mut m = String::from_str("Failed to resolve target ");
                let target = self.config.get_target_address();
                m.append(target.as_str());
                m.append(": ");
                m.append(e.as_str());
                Err(ProbeError::ResolutionFailed(m))
            },
        }
    }

    /// What a connection attempt to `target` comes to. `connect` is the local
    /// address of the connection that was made (`Ok(None)` when it could not
    /// be read) or the text of the connection error; `elapsed` is the time in
    /// microseconds from the start of the probe to the end of the attempt.
    /// The source address is reported only when the configuration asks for it.
    pub fn connection_outcome(
        &self,
        target: ResolvedAddress,
        connect: Result<Option<String>, String>,
        elapsed: u64,
    ) -> (r: Result<ProbeResult, ProbeError>)
        ensures
            match connect {
                Ok(local) => r matches Ok(pr) && pr.success && pr.rtt == elapsed
                    && pr.source_addr == (if self.spec_config().show_source_address { local } else { None })
                    && pr.target_addr == target.text && pr.error is None,
                Err(e) => r matches Err(ProbeError::ConnectionFailed(m))
                    && m@ == "Failed to connect to "@ + target.text@ + ": "@ + e@,
            },
    {
        match connect {
            Ok(local) => {
                let source_addr = if self.config.show_source_address {
                    local
                } else {
                    None
                };
                Ok(ProbeResult { success: true, rtt: elapsed, source_addr, target_addr: target.text, error: None })
            },
            Err(e) => {
                let mut m = String::from_str("Failed to connect to ");
                m.append(target.text.as_str());
                m.append(": ");
                m.append(e.as_str());
                Err(ProbeError::ConnectionFailed(m))
            },
        }
    }

    /// What follows attempt number `attempt` (counted from 0) of a probe
    /// allowed `max_retries` retries: a result ends the probe, and so does an
    /// error at the last attempt; an earlier error is retried after a pause.
    /// So no more than `max_retries + 1` attempts are ever made.
    pub fn retry_step(attempt: u32, max_retries: u32, outcome: Result<ProbeResult, ProbeError>) -> (s: RetryStep)
        requires
            attempt <= max_retries,
        ensures
            s == retry_decision(attempt as int, max_retries as int, outcome),
            outcome is Ok ==> s == RetryStep::Finish(outcome),
            outcome is Err && attempt == max_retries ==> s == RetryStep::Finish(outcome),
            outcome is Err && attempt < max_retries ==> s is RetryAfterPause,
    {
        match outcome {
            Ok(result) => RetryStep::Finish(Ok(result)),
            Err(e) => if attempt == max_retries {
                RetryStep::Finish(Err(e))
            } else {
                RetryStep::RetryAfterPause
            },
        }
    }
}

} // verus!
