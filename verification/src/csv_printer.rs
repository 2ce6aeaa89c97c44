//! The CSV report: the fields of each probe record, the rows of the
//! statistics file, and that file's name. Writing the files is left to the
//! caller.

use vstd::prelude::*;

use crate::statistics::{Statistics, StatisticsView};
use crate::tcp_probe::ProbeResult;
use crate::timestamp::{rfc3339, rfc3339_text};
use crate::text::{
    decimal, decimal_string, millis_2dp, millis_2dp_string, percent_1dp, percent_1dp_string,
    seconds_string, seconds_text,
};

verus! {

/// The text of an optional string, empty when absent.
pub open spec fn text_or_empty(o: Option<String>) -> Seq<char> {
    match o {
        Some(s) => s@,
        None => Seq::empty(),
    }
}

/// The fields of the record of one probe: time stamp, target, `true` or
/// `false`, round-trip time in milliseconds with two decimals (empty for a
/// failure), source address, target address and error (empty when absent).
pub open spec fn probe_record_text(timestamp: Seq<char>, target: Seq<char>, result: ProbeResult) -> Seq<Seq<char>> {
    seq![
        timestamp,
        target,
        if result.success { "true"@ } else { "false"@ },
        if result.success { millis_2dp(result.rtt as nat) } else { Seq::empty() },
        text_or_empty(result.source_addr),
        result.target_addr@,
        text_or_empty(result.error),
    ]
}

/// The rows of the statistics file at time `now`, a header row first.
pub open spec fn statistics_rows_text(m: StatisticsView, now: u64) -> Seq<(Seq<char>, Seq<char>)> {
    let (min, avg, max) = m.rtt_statistics();
    seq![
        ("statistic"@, "value"@),
        ("total_probes"@, decimal(m.total_probes())),
        ("successful_probes"@, decimal(m.total_successful_probes as nat)),
        ("unsuccessful_probes"@, decimal(m.total_unsuccessful_probes as nat)),
        ("packet_loss_percentage"@, percent_1dp(m.total_unsuccessful_probes as nat, m.total_probes())),
        ("min_rtt_ms"@, millis_2dp(min as nat)),
        ("avg_rtt_ms"@, millis_2dp(avg as nat)),
        ("max_rtt_ms"@, millis_2dp(max as nat)),
        ("total_duration_seconds"@, seconds_text(m.total_duration(now) as nat)),
    ]
}

/// `s` without every `.csv` that ends it, as `str::trim_end_matches` gives it.
pub open spec fn trim_csv_suffix(s: Seq<char>) -> Seq<char>
    decreases s.len(),
{
    if s.len() >= 4 && s.subrange(s.len() - 4, s.len() as int) == ".csv"@ {
        trim_csv_suffix(s.subrange(0, s.len() - 4))
    } else {
        s
    }
}

/// The text of an optional string, empty when absent.
fn text_or_empty_string(o: &Option<String>) -> (s: String)
    ensures
        s@ == text_or_empty(*o),
{
    match o {
        Some(s) => s.clone(),
        None => String::new(),
    }
}

/// The fields of the CSV record of a probe made `now` nanoseconds after the
/// Unix epoch, stamped with the RFC 3339 text of that instant.
pub fn probe_record(now: i64, target: &str, result: &ProbeResult) -> (fields: Vec<String>)
    ensures
        fields@.map_values(|f: String| f@) == probe_record_text(rfc3339_text(now), target@, *result),
{
    let timestamp = rfc3339(now);
    probe_record_with_timestamp(timestamp.as_str(), target, result)
}

/// The fields of the CSV record of a probe stamped `timestamp`.
pub fn probe_record_with_timestamp(timestamp: &str, target: &str, result: &ProbeResult) -> (fields: Vec<String>)
    ensures
        fields@.map_values(|f: String| f@) == probe_record_text(timestamp@, target@, *result),
{
    let mut fields: Vec<String> = Vec::new();
    fields.push(String::from_str(timestamp));
    fields.push(String::from_str(target));
    fields.push(if result.success {
        String::from_str("true")
    } else {
        String::from_str("false")
    });
    fields.push(if result.success {
        millis_2dp_string(result.rtt)
    } else {
        String::new()
    });
    fields.push(text_or_empty_string(&result.source_addr));
    fields.push(result.target_addr.clone());
    fields.push(text_or_empty_string(&result.error));
    proof {
        assert(fields@.map_values(|f: String| f@) =~= probe_record_text(timestamp@, target@, *result));
    }
    fields
}

/// A row of two fields.
fn row(name: &str, value: String) -> (r: (String, String))
    ensures
        r.0@ == name@,
        r.1 == value,
{
    (String::from_str(name), value)
}

/// The rows of the CSV statistics file at time `now`.
pub fn statistics_rows(stats: &Statistics, now: u64) -> (rows: Vec<(String, String)>)
    ensures
        rows@.map_values(|r: (String, String)| (r.0@, r.1@)) == statistics_rows_text(stats@, now),
{
    let total_probes: u64 = stats.total_successful_probes as u64 + stats.total_unsuccessful_probes as u64;
    let (min_rtt, avg_rtt, max_rtt) = stats.get_rtt_statistics();
    let mut rows: Vec<(String, String)> = Vec::new();
    rows.push(row("statistic", String::from_str("value")));
    rows.push(row("total_probes", decimal_string(total_probes)));
    rows.push(row("successful_probes", decimal_string(stats.total_successful_probes as u64)));
    rows.push(row("unsuccessful_probes", decimal_string(stats.total_unsuccessful_probes as u64)));
    rows.push(row("packet_loss_percentage", percent_1dp_string(stats.total_unsuccessful_probes as u64, total_probes)));
    rows.push(row("min_rtt_ms", millis_2dp_string(min_rtt)));
    rows.push(row("avg_rtt_ms", millis_2dp_string(avg_rtt)));
    rows.push(row("max_rtt_ms", millis_2dp_string(max_rtt)));
    rows.push(row("total_duration_seconds", seconds_string(stats.get_total_duration(now))));
    proof {
        assert(rows@.map_values(|r: (String, String)| (r.0@, r.1@)) =~= statistics_rows_text(stats@, now));
    }
    rows
}

/// The name of the statistics file that goes with the CSV file `file_path`:
/// the name without its `.csv` endings, then `_stats.csv`.
pub fn stats_file_path(file_path: &str) -> (p: String)
    ensures
        p@ == trim_csv_suffix(file_path@) + "_stats.csv"@,
{
    proof {
        reveal_strlit(".csv");
    }
    let mut end = file_path.unicode_len();
    assert(file_path@.subrange(0, end as int) =~= file_path@);
    loop
        invariant
            end <= file_path@.len(),
            trim_csv_suffix(file_path@) == trim_csv_suffix(file_path@.subrange(0, end as int)),
        ensures
            end <= file_path@.len(),
            trim_csv_suffix(file_path@) == file_path@.subrange(0, end as int),
        decreases end,
    {
        let ghost s = file_path@.subrange(0, end as int);
        proof {
            reveal_strlit(".csv");
        }
        if end >= 4 && file_path.get_char(end - 4) == '.' && file_path.get_char(end - 3) == 'c'
            && file_path.get_char(end - 2) == 's' && file_path.get_char(end - 1) == 'v' {
            assert(s.subrange(s.len() - 4, s.len() as int) =~= ".csv"@);
            assert(s.subrange(0, s.len() - 4) =~= file_path@.subrange(0, end - 4));
            end = end - 4;
        } else {
            proof {
                if s.len() >= 4 && s.subrange(s.len() - 4, s.len() as int) == ".csv"@ {
                    assert(s.subrange(s.len() - 4, s.len() as int)[0] == '.');
                    assert(s.subrange(s.len() - 4, s.len() as int)[1] == 'c');
                    assert(s.subrange(s.len() - 4, s.len() as int)[2] == 's');
                    assert(s.subrange(s.len() - 4, s.len() as int)[3] == 'v');
                }
                assert(trim_csv_suffix(s) == s);
            }
            break;
        }
    }
    let mut p = String::from_str(file_path.substring_char(0, end));
    p.append("_stats.csv");
    p
}

/// CSV law: a probe record holds, in order, the time stamp, the target,
/// `true` with the round-trip time for a success or `false` with an empty
/// time for a failure, the source address, the target address and the error;
/// the statistics file names each figure and gives the counts, the successes
/// and failures adding up to the total.
pub proof fn lemma_csv_content(timestamp: Seq<char>, target: Seq<char>, result: ProbeResult, m: StatisticsView, now: u64)
    ensures
        ({
            let rec = probe_record_text(timestamp, target, result);
            &&& rec.len() == 7
            &&& rec[0] == timestamp && rec[1] == target
            &&& result.success ==> rec[2] == "true"@ && rec[3] == millis_2dp(result.rtt as nat)
            &&& !result.success ==> rec[2] == "false"@ && rec[3].len() == 0
            &&& rec[5] == result.target_addr@
        }),
        ({
            let rows = statistics_rows_text(m, now);
            &&& rows.len() == 9
            &&& rows[0] == ("statistic"@, "value"@)
            &&& rows[1] == ("total_probes"@, decimal((m.total_successful_probes + m.total_unsuccessful_probes) as nat))
            &&& rows[2] == ("successful_probes"@, decimal(m.total_successful_probes as nat))
            &&& rows[3] == ("unsuccessful_probes"@, decimal(m.total_unsuccessful_probes as nat))
            &&& rows[4].0 == "packet_loss_percentage"@
            &&& rows[8].0 == "total_duration_seconds"@
        }),
{
}

} // verus!
