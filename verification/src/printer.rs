//! The console report: the text of each line the tool prints, and whether it
//! is colored. Printing and coloring are left to the caller.

use vstd::prelude::*;

use crate::config::{Config, target_address};
use crate::statistics::{Statistics, StatisticsView};
use crate::text::{
    decimal, decimal_string, digit_char, div_round_half_even, is_digit, lemma_decimal_digits, millis_2dp,
    millis_2dp_string, percent_1dp, percent_1dp_string, round_tenth, two_digits,
};

verus! {

/// A duration in microseconds as whole seconds, minutes and hours: `42s`,
/// `2m5s`, `1h1m1s`.
pub open spec fn duration_text(us: nat) -> Seq<char> {
    let secs = us / 1000000;
    if secs < 60 {
        decimal(secs) + "s"@
    } else if secs < 3600 {
        decimal(secs / 60) + "m"@ + decimal(secs % 60) + "s"@
    } else {
        decimal(secs / 3600) + "h"@ + decimal((secs % 3600) / 60) + "m"@ + decimal(secs % 60) + "s"@
    }
}

/// The line that reports a reached target.
pub open spec fn success_line(source_addr: Option<Seq<char>>, user_input: Seq<char>, streak: u32, rtt: u64) -> Seq<char> {
    let source = match source_addr {
        Some(a) => " from "@ + a,
        None => Seq::empty(),
    };
    let streak_info = if streak > 1 {
        " (streak: "@ + decimal(streak as nat) + ")"@
    } else {
        Seq::empty()
    };
    user_input + ": connected"@ + source + " in "@ + millis_2dp(rtt as nat) + "ms"@ + streak_info
}

/// The line that reports a target that was not reached.
pub open spec fn failure_line(user_input: Seq<char>, streak: u32) -> Seq<char> {
    let streak_info = if streak > 0 {
        " (consecutive failures: "@ + decimal(streak as nat) + ")"@
    } else {
        Seq::empty()
    };
    user_input + ": connection failed"@ + streak_info
}

/// The lines of the statistics report for `target`, the session's state `m`
/// and the time `now`: a header, the counts and the loss, the duration, then
/// the round-trip times if a probe succeeded, and the longest uptime and
/// downtime if they are not zero.
pub open spec fn statistics_text(target: Seq<char>, m: StatisticsView, now: u64) -> Seq<Seq<char>> {
    let (min, avg, max) = m.rtt_statistics();
    let base = seq![
        "\n--- "@ + target + " statistics ---"@,
        decimal(m.total_probes()) + " probes transmitted, "@ + decimal(m.total_successful_probes as nat)
            + " received, "@ + percent_1dp(m.total_unsuccessful_probes as nat, m.total_probes()) + "% packet loss"@,
        "time "@ + duration_text(m.total_duration(now) as nat),
    ];
    let with_rtt = if m.total_successful_probes > 0 {
        base.push(
            "rtt min/avg/max = "@ + millis_2dp(min as nat) + "/"@ + millis_2dp(avg as nat) + "/"@
                + millis_2dp(max as nat) + " ms"@,
        )
    } else {
        base
    };
    let with_up = if m.longest_uptime > 0 {
        with_rtt.push("Longest uptime: "@ + duration_text(m.longest_uptime as nat))
    } else {
        with_rtt
    };
    if m.longest_downtime > 0 {
        with_up.push("Longest downtime: "@ + duration_text(m.longest_downtime as nat))
    } else {
        with_up
    }
}

/// The kinds of line that the console printer may color.
#[derive(Debug, Clone, Copy, PartialEq, Eq, Structural)]
pub enum LineKind {
    Start,
    Success,
    Failure,
    Retrying,
    Downtime,
    Info,
}

/// The colors of console lines.
#[derive(Debug, Clone, Copy, PartialEq, Eq, Structural)]
pub enum LineColor {
    BoldBlue,
    Green,
    Red,
    Yellow,
    Cyan,
}

/// The color of each kind of line: the opening line bold blue, a reached
/// target green, a failure red, retries and downtime yellow, information cyan.
pub open spec fn color_of(kind: LineKind) -> LineColor {
    match kind {
        LineKind::Start => LineColor::BoldBlue,
        LineKind::Success => LineColor::Green,
        LineKind::Failure => LineColor::Red,
        LineKind::Retrying => LineColor::Yellow,
        LineKind::Downtime => LineColor::Yellow,
        LineKind::Info => LineColor::Cyan,
    }
}

/// Reports a session on the console.
#[derive(Debug)]
pub struct ConsolePrinter {
    config: Config,
    use_color: bool,
}

impl ConsolePrinter {
    /// A printer colors exactly when its configuration does not say `no_color`.
    #[verifier::type_invariant]
    spec fn color_follows_config(self) -> bool {
        self.use_color == !self.config.no_color
    }

    /// The configuration that the printer reports on.
    pub closed spec fn spec_config(&self) -> Config {
        self.config
    }

    /// Whether lines are colored.
    pub closed spec fn spec_use_color(&self) -> bool {
        !self.config.no_color
    }

    /// A printer that colors its lines unless the configuration says `no_color`.
    pub fn new(config: Config) -> (p: Self)
        ensures
            p.spec_config() == config,
            p.spec_use_color() == !config.no_color,
    {
        let use_color = !config.no_color;
        Self { config, use_color }
    }

    /// Whether lines are colored.
    pub fn use_color(&self) -> (b: bool)
        ensures
            b == self.spec_use_color(),
    {
        proof {
            use_type_invariant(self);
        }
        self.use_color
    }

    /// The color of a line of the given kind: none at all under `no_color`.
    pub fn line_color(&self, kind: LineKind) -> (c: Option<LineColor>)
        ensures
            c == (if self.spec_config().no_color {
                None
            } else {
                Some(color_of(kind))
            }),
    {
        proof {
            use_type_invariant(self);
        }
        if !self.use_color {
            return None;
        }
        Some(match kind {
            LineKind::Start => LineColor::BoldBlue,
            LineKind::Success => LineColor::Green,
            LineKind::Failure => LineColor::Red,
            LineKind::Retrying => LineColor::Yellow,
            LineKind::Downtime => LineColor::Yellow,
            LineKind::Info => LineColor::Cyan,
        })
    }

    /// A duration in microseconds as `42s`, `2m5s` or `1h1m1s`.
    pub fn format_duration(duration: u64) -> (s: String)
        ensures
            s@ == duration_text(duration as nat),
    {
        let secs = duration / 1000000;
        if secs < 60 {
            let mut s = decimal_string(secs);
            s.append("s");
            s
        } else if secs < 3600 {
            let mut s = decimal_string(secs / 60);
            s.append("m");
            let sec = decimal_string(secs % 60);
            s.append(sec.as_str());
            s.append("s");
            s
        } else {
            let mut s = decimal_string(secs / 3600);
            s.append("h");
            let min = decimal_string((secs % 3600) / 60);
            s.append(min.as_str());
            s.append("m");
            let sec = decimal_string(secs % 60);
            s.append(sec.as_str());
            s.append("s");
            s
        }
    }

    /// The opening line: `TCPING host:port`.
    pub fn start_message(&self, hostname: &str, port: u16) -> (s: String)
        ensures
            s@ == "TCPING "@ + target_address(hostname@, port),
    {
        let mut s = String::from_str("TCPING ");
        s.append(hostname);
        s.append(":");
        let p = decimal_string(port as u64);
        s.append(p.as_str());
        s
    }

    /// The line for a reached target, with the source address if known, the
    /// round-trip time `rtt` (microseconds) in milliseconds, and the streak
    /// when it is longer than one.
    pub fn probe_success_message(&self, source_addr: &Option<String>, user_input: &str, streak: u32, rtt: u64) -> (s: String)
        ensures
            s@ == success_line(
                match source_addr {
                    Some(a) => Some(a@),
                    None => None,
                },
                user_input@,
                streak,
                rtt,
            ),
    {
        let mut s = String::from_str(user_input);
        s.append(": connected");
        if let Some(addr) = source_addr {
            s.append(" from ");
            s.append(addr.as_str());
        }
        s.append(" in ");
        let ms = millis_2dp_string(rtt);
        s.append(ms.as_str());
        s.append("ms");
        if streak > 1 {
            s.append(" (streak: ");
            let n = decimal_string(streak as u64);
            s.append(n.as_str());
            s.append(")");
        }
        s
    }

    /// The line for a target that was not reached, with the failure streak
    /// when there is one.
    pub fn probe_fail_message(&self, user_input: &str, streak: u32) -> (s: String)
        ensures
            s@ == failure_line(user_input@, streak),
    {
        let mut s = String::from_str(user_input);
        s.append(": connection failed");
        if streak > 0 {
            s.append(" (consecutive failures: ");
            let n = decimal_string(streak as u64);
            s.append(n.as_str());
            s.append(")");
        }
        s
    }

    /// The line that announces a new lookup of `hostname`.
    pub fn retrying_to_resolve_message(&self, hostname: &str) -> (s: String)
        ensures
            s@ == "Retrying to resolve: "@ + hostname@,
    {
        let mut s = String::from_str("Retrying to resolve: ");
        s.append(hostname);
        s
    }

    /// The line that reports the total downtime (microseconds).
    pub fn total_downtime_message(&self, downtime: u64) -> (s: String)
        ensures
            s@ == "Total downtime: "@ + duration_text(downtime as nat),
    {
        let mut s = String::from_str("Total downtime: ");
        let d = Self::format_duration(downtime);
        s.append(d.as_str());
        s
    }

    /// The lines of the statistics report at time `now`.
    pub fn statistics_lines(&self, stats: &Statistics, now: u64) -> (lines: Vec<String>)
        ensures
            lines@.map_values(|l: String| l@) == statistics_text(
                target_address(self.spec_config().host@, self.spec_config().port),
                stats@,
                now,
            ),
    {
        let target = self.config.get_target_address();
        let total_probes: u64 = stats.total_successful_probes as u64 + stats.total_unsuccessful_probes as u64;
        let (min_rtt, avg_rtt, max_rtt) = stats.get_rtt_statistics();
        let total_duration = stats.get_total_duration(now);

        let mut lines: Vec<String> = Vec::new();

        let mut header = String::from_str("\n--- ");
        header.append(target.as_str());
        header.append(" statistics ---");
        lines.push(header);

        let mut counts = decimal_string(total_probes);
        counts.append(" probes transmitted, ");
        let received = decimal_string(stats.total_successful_probes as u64);
        counts.append(received.as_str());
        counts.append(" received, ");
        let loss = percent_1dp_string(stats.total_unsuccessful_probes as u64, total_probes);
        counts.append(loss.as_str());
        counts.append("% packet loss");
        lines.push(counts);

        let mut time = String::from_str("time ");
        let d = Self::format_duration(total_duration);
        time.append(d.as_str());
        lines.push(time);

        if stats.total_successful_probes > 0 {
            let mut rtt = String::from_str("rtt min/avg/max = ");
            let a = millis_2dp_string(min_rtt);
            let b = millis_2dp_string(avg_rtt);
            let c = millis_2dp_string(max_rtt);
            rtt.append(a.as_str());
            rtt.append("/");
            rtt.append(b.as_str());
            rtt.append("/");
            rtt.append(c.as_str());
            rtt.append(" ms");
            lines.push(rtt);
        }
        if stats.longest_uptime > 0 {
            let mut up = String::from_str("Longest uptime: ");
            let d = Self::format_duration(stats.longest_uptime);
            up.append(d.as_str());
            lines.push(up);
        }
        if stats.longest_downtime > 0 {
            let mut down = String::from_str("Longest downtime: ");
            let d = Self::format_duration(stats.longest_downtime);
            down.append(d.as_str());
            lines.push(down);
        }
        proof {
            let spec = statistics_text(target@, stats@, now);
            assert(lines@.map_values(|l: String| l@) =~= spec);
        }
        lines
    }
}

/// Does `s` hold no escape character (the start of every terminal color
/// sequence)?
pub open spec fn escape_free(s: Seq<char>) -> bool {
    forall|i: int| 0 <= i < s.len() ==> s[i] != '\x1b'
}

/// Joining two escape-free texts gives an escape-free text.
pub broadcast proof fn lemma_escape_free_concat(a: Seq<char>, b: Seq<char>)
    requires
        escape_free(a),
        escape_free(b),
    ensures
        #[trigger] escape_free(a + b),
{
    assert forall|i: int| 0 <= i < (a + b).len() implies (a + b)[i] != '\x1b' by {
        if i < a.len() {
            assert((a + b)[i] == a[i]);
        } else {
            assert((a + b)[i] == b[i - a.len()]);
        }
    }
}

/// Decimal numbers hold no escape character.
pub proof fn lemma_decimal_escape_free(n: nat)
    ensures
        escape_free(decimal(n)),
{
    lemma_decimal_digits(n);
    assert forall|i: int| 0 <= i < decimal(n).len() implies decimal(n)[i] != '\x1b' by {
        assert(is_digit(decimal(n)[i]));
    }
}

/// Times in milliseconds hold no escape character.
proof fn lemma_millis_escape_free(us: nat)
    ensures
        escape_free(millis_2dp(us)),
{
    broadcast use lemma_escape_free_concat;
    reveal_strlit(".");
    let c = round_tenth(us);
    lemma_decimal_escape_free(c / 100);
    assert(escape_free("."@));
    assert(escape_free(two_digits(c % 100)));
}

/// Percentages hold no escape character.
proof fn lemma_percent_escape_free(part: nat, total: nat)
    ensures
        escape_free(percent_1dp(part, total)),
{
    broadcast use lemma_escape_free_concat;
    reveal_strlit(".");
    let t = if total == 0 {
        0
    } else {
        div_round_half_even(part * 1000, total)
    };
    lemma_decimal_escape_free(t / 10);
    assert(escape_free("."@));
    assert(escape_free(seq![digit_char((t % 10) as int)]));
}

/// Durations hold no escape character.
proof fn lemma_duration_escape_free(us: nat)
    ensures
        escape_free(duration_text(us)),
{
    broadcast use lemma_escape_free_concat;
    reveal_strlit("s");
    reveal_strlit("m");
    reveal_strlit("h");
    assert(escape_free("s"@));
    assert(escape_free("m"@));
    assert(escape_free("h"@));
    let secs = us / 1000000;
    lemma_decimal_escape_free(secs);
    lemma_decimal_escape_free(secs / 60);
    lemma_decimal_escape_free(secs % 60);
    lemma_decimal_escape_free(secs / 3600);
    lemma_decimal_escape_free((secs % 3600) / 60);
}

/// Every line that the console printer makes holds no escape character when
/// the texts it is given hold none: with `no_color` (no line is colored, see
/// `line_color`) nothing the printer writes holds a terminal color sequence
/// unless the target, host or address itself does.
pub proof fn lemma_console_lines_escape_free(
    host: Seq<char>,
    port: u16,
    user_input: Seq<char>,
    source_addr: Option<Seq<char>>,
    streak: u32,
    rtt: u64,
    downtime: u64,
    target: Seq<char>,
    m: StatisticsView,
    now: u64,
)
    ensures
        escape_free(host) ==> escape_free("TCPING "@ + target_address(host, port)),
        escape_free(user_input) && (source_addr matches Some(a) ==> escape_free(a))
            ==> escape_free(success_line(source_addr, user_input, streak, rtt)),
        escape_free(user_input) ==> escape_free(failure_line(user_input, streak)),
        escape_free(host) ==> escape_free("Retrying to resolve: "@ + host),
        escape_free("Total downtime: "@ + duration_text(downtime as nat)),
        escape_free(target) ==> forall|i: int|
            0 <= i < statistics_text(target, m, now).len() ==> escape_free(#[trigger] statistics_text(target, m, now)[i]),
{
    broadcast use lemma_escape_free_concat;
    reveal_strlit("TCPING ");
    reveal_strlit(":");
    reveal_strlit(" from ");
    reveal_strlit(" (streak: ");
    reveal_strlit(")");
    reveal_strlit(": connected");
    reveal_strlit(" in ");
    reveal_strlit("ms");
    reveal_strlit(" (consecutive failures: ");
    reveal_strlit(": connection failed");
    reveal_strlit("Retrying to resolve: ");
    reveal_strlit("Total downtime: ");
    reveal_strlit("\n--- ");
    reveal_strlit(" statistics ---");
    reveal_strlit(" probes transmitted, ");
    reveal_strlit(" received, ");
    reveal_strlit("% packet loss");
    reveal_strlit("time ");
    reveal_strlit("rtt min/avg/max = ");
    reveal_strlit("/");
    reveal_strlit(" ms");
    reveal_strlit("Longest uptime: ");
    reveal_strlit("Longest downtime: ");
    assert(escape_free("TCPING "@));
    assert(escape_free(":"@));
    assert(escape_free(" from "@));
    assert(escape_free(" (streak: "@));
    assert(escape_free(")"@));
    assert(escape_free(": connected"@));
    assert(escape_free(" in "@));
    assert(escape_free("ms"@));
    assert(escape_free(" (consecutive failures: "@));
    assert(escape_free(": connection failed"@));
    assert(escape_free("Retrying to resolve: "@));
    assert(escape_free("Total downtime: "@));
    assert(escape_free("\n--- "@));
    assert(escape_free(" statistics ---"@));
    assert(escape_free(" probes transmitted, "@));
    assert(escape_free(" received, "@));
    assert(escape_free("% packet loss"@));
    assert(escape_free("time "@));
    assert(escape_free("rtt min/avg/max = "@));
    assert(escape_free("/"@));
    assert(escape_free(" ms"@));
    assert(escape_free("Longest uptime: "@));
    assert(escape_free("Longest downtime: "@));
    assert(escape_free(Seq::<char>::empty()));
    lemma_decimal_escape_free(port as nat);
    lemma_decimal_escape_free(streak as nat);
    lemma_millis_escape_free(rtt as nat);
    lemma_duration_escape_free(downtime as nat);
    let (min, avg, max) = m.rtt_statistics();
    lemma_decimal_escape_free(m.total_probes());
    lemma_decimal_escape_free(m.total_successful_probes as nat);
    lemma_percent_escape_free(m.total_unsuccessful_probes as nat, m.total_probes());
    lemma_duration_escape_free(m.total_duration(now) as nat);
    lemma_millis_escape_free(min as nat);
    lemma_millis_escape_free(avg as nat);
    lemma_millis_escape_free(max as nat);
    lemma_duration_escape_free(m.longest_uptime as nat);
    lemma_duration_escape_free(m.longest_downtime as nat);
}

/// Per-probe line law: a failure line names the target, says that the
/// connection failed and, from the first failure of a streak on, gives the
/// number of consecutive failures; a success line gives the round-trip time
/// and, from the second success of a streak on, the streak.
pub proof fn lemma_probe_lines(user_input: Seq<char>, source_addr: Option<Seq<char>>, streak: u32, rtt: u64)
    ensures
        streak >= 1 ==> failure_line(user_input, streak) == user_input + ": connection failed"@
            + " (consecutive failures: "@ + decimal(streak as nat) + ")"@,
        streak == 0 ==> failure_line(user_input, streak) == user_input + ": connection failed"@,
        streak >= 2 ==> success_line(source_addr, user_input, streak, rtt) == user_input + ": connected"@
            + (match source_addr {
                Some(a) => " from "@ + a,
                None => Seq::empty(),
            }) + " in "@ + millis_2dp(rtt as nat) + "ms"@ + " (streak: "@ + decimal(streak as nat) + ")"@,
        streak <= 1 ==> success_line(source_addr, user_input, streak, rtt) == user_input + ": connected"@
            + (match source_addr {
                Some(a) => " from "@ + a,
                None => Seq::empty(),
            }) + " in "@ + millis_2dp(rtt as nat) + "ms"@,
{
    assert(user_input + ": connection failed"@ + Seq::<char>::empty() =~= user_input + ": connection failed"@);
    let src = match source_addr {
        Some(a) => " from "@ + a,
        None => Seq::<char>::empty(),
    };
    let base = user_input + ": connected"@ + src + " in "@ + millis_2dp(rtt as nat) + "ms"@;
    assert(base + Seq::<char>::empty() =~= base);
    assert(base + (" (streak: "@ + decimal(streak as nat) + ")"@) =~= base + " (streak: "@ + decimal(streak as nat)
        + ")"@);
    assert(user_input + ": connection failed"@ + (" (consecutive failures: "@ + decimal(streak as nat) + ")"@)
        =~= user_input + ": connection failed"@ + " (consecutive failures: "@ + decimal(streak as nat) + ")"@);
}

/// Statistics report law: the report opens with its header, the counts and
/// loss, and the duration; it holds the round-trip line `rtt min/avg/max =
/// min/avg/max ms` whenever at least one probe succeeded, a longest-uptime
/// line whenever there was uptime, and a longest-downtime line whenever there
/// was downtime; and it holds no other line.
pub proof fn lemma_statistics_report(target: Seq<char>, m: StatisticsView, now: u64)
    ensures
        ({
            let lines = statistics_text(target, m, now);
            let (min, avg, max) = m.rtt_statistics();
            &&& lines.len() == 3 + (if m.total_successful_probes > 0 { 1int } else { 0int })
                + (if m.longest_uptime > 0 { 1int } else { 0int }) + (if m.longest_downtime > 0 { 1int } else { 0int })
            &&& lines[0] == "\n--- "@ + target + " statistics ---"@
            &&& lines[1] == decimal(m.total_probes()) + " probes transmitted, "@ + decimal(
                m.total_successful_probes as nat,
            ) + " received, "@ + percent_1dp(m.total_unsuccessful_probes as nat, m.total_probes())
                + "% packet loss"@
            &&& lines[2] == "time "@ + duration_text(m.total_duration(now) as nat)
            &&& m.total_successful_probes > 0 ==> lines[3] == "rtt min/avg/max = "@ + millis_2dp(min as nat) + "/"@
                + millis_2dp(avg as nat) + "/"@ + millis_2dp(max as nat) + " ms"@
            &&& m.total_successful_probes > 0 ==> lines.contains(
                "rtt min/avg/max = "@ + millis_2dp(min as nat) + "/"@ + millis_2dp(avg as nat) + "/"@
                    + millis_2dp(max as nat) + " ms"@,
            )
            &&& m.longest_uptime > 0 ==> lines.contains("Longest uptime: "@ + duration_text(m.longest_uptime as nat))
            &&& m.longest_downtime > 0 ==> lines[lines.len() - 1] == "Longest downtime: "@ + duration_text(
                m.longest_downtime as nat,
            )
        }),
{
    let lines = statistics_text(target, m, now);
    let (min, avg, max) = m.rtt_statistics();
    if m.total_successful_probes > 0 {
        assert(lines[3] == "rtt min/avg/max = "@ + millis_2dp(min as nat) + "/"@ + millis_2dp(avg as nat) + "/"@
            + millis_2dp(max as nat) + " ms"@);
    }
    if m.longest_uptime > 0 {
        let k = if m.total_successful_probes > 0 { 4int } else { 3int };
        assert(lines[k] == "Longest uptime: "@ + duration_text(m.longest_uptime as nat));
    }
}

/// Duration law: a duration is shown as whole seconds below a minute,
/// minutes and seconds below an hour, else hours, minutes and seconds, each
/// part in decimal, with the minutes and seconds below 60 and the parts adding
/// up to the whole seconds of the duration.
pub proof fn lemma_duration_text(us: nat)
    ensures
        ({
            let secs = us / 1000000;
            &&& secs < 60 ==> duration_text(us) == decimal(secs) + "s"@
            &&& 60 <= secs < 3600 ==> exists|mi: nat, se: nat|
                mi * 60 + se == secs && se < 60 && 1 <= mi < 60
                    && duration_text(us) == decimal(mi) + "m"@ + decimal(se) + "s"@
            &&& secs >= 3600 ==> exists|h: nat, mi: nat, se: nat|
                h * 3600 + mi * 60 + se == secs && mi < 60 && se < 60 && h >= 1
                    && duration_text(us) == decimal(h) + "h"@ + decimal(mi) + "m"@ + decimal(se) + "s"@
        }),
{
    let secs = us / 1000000;
    if 60 <= secs < 3600 {
        let mi = secs / 60;
        let se = secs % 60;
        assert(mi * 60 + se == secs);
        assert(duration_text(us) == decimal(mi) + "m"@ + decimal(se) + "s"@);
    }
    if secs >= 3600 {
        let h = secs / 3600;
        let mi = (secs % 3600) / 60;
        let se = secs % 60;
        assert(h * 3600 + mi * 60 + se == secs);
        assert(duration_text(us) == decimal(h) + "h"@ + decimal(mi) + "m"@ + decimal(se) + "s"@);
    }
}

} // verus!
