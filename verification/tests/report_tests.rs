use tcping::config::{Cli, Config};
use tcping::csv_printer::{probe_record, probe_record_with_timestamp, statistics_rows, stats_file_path};
use tcping::json_printer::JsonPrinter;
use tcping::printer::{ConsolePrinter, LineColor, LineKind};
use tcping::signal_handler::SignalHandler;
use tcping::statistics::Statistics;
use tcping::tcp_probe::ProbeResult;
use tcping::text::{decimal_string, millis_2dp_string, parse_u16, percent_1dp_string, seconds_string};

fn config(no_color: bool) -> Config {
    Config::from_cli(&Cli {
        target: "example.com:80".to_string(),
        port: None,
        ipv4: false,
        ipv6: false,
        retries: 0,
        count: 0,
        json: false,
        pretty: false,
        no_color,
        debug: false,
        csv: false,
        verbose: false,
        update: false,
        interface: None,
        interval: 1_000_000,
        timeout: 1_000_000,
        database: None,
        show_source_address: false,
        show_failures_only: false,
        show_datetime: false,
    })
    .unwrap()
}

fn sample_stats() -> Statistics {
    let mut s = Statistics::new();
    s.record_success(10_500, 1_000_000);
    s.record_success(15_200, 2_000_000);
    s.record_success(12_800, 3_000_000);
    s.record_failure(4_000_000);
    s.finalize(65_500_000);
    s
}

#[test]
fn decimal_rendering() {
    assert_eq!(decimal_string(0), "0");
    assert_eq!(decimal_string(7), "7");
    assert_eq!(decimal_string(65535), "65535");
    assert_eq!(decimal_string(u64::MAX), "18446744073709551615");
}

#[test]
fn u16_reading() {
    assert_eq!(parse_u16("80"), Some(80));
    assert_eq!(parse_u16("+80"), Some(80));
    assert_eq!(parse_u16("0"), Some(0));
    assert_eq!(parse_u16("65536"), None);
    assert_eq!(parse_u16(""), None);
    assert_eq!(parse_u16("8a"), None);
    assert_eq!(parse_u16("99999999999999999999"), None);
}

#[test]
fn fixed_point_rendering() {
    assert_eq!(millis_2dp_string(15_500), "15.50");
    assert_eq!(millis_2dp_string(15_504), "15.50");
    assert_eq!(millis_2dp_string(15_505), "15.51");
    assert_eq!(millis_2dp_string(999), "1.00");
    assert_eq!(millis_2dp_string(0), "0.00");
    assert_eq!(percent_1dp_string(1, 4), "25.0");
    assert_eq!(percent_1dp_string(1, 3), "33.3");
    assert_eq!(percent_1dp_string(2, 3), "66.7");
    assert_eq!(percent_1dp_string(4, 4), "100.0");
    assert_eq!(percent_1dp_string(0, 0), "0.0");
    // exact halves go to the even tenth
    assert_eq!(percent_1dp_string(1, 16), "6.2");
    assert_eq!(percent_1dp_string(3, 16), "18.8");
    assert_eq!(percent_1dp_string(1, 80), "1.2");
    assert_eq!(seconds_string(1_500_000), "1.5");
    assert_eq!(seconds_string(2_000_000), "2");
    assert_eq!(seconds_string(12_345_678), "12.345678");
    assert_eq!(seconds_string(10), "0.00001");
}

#[test]
fn console_durations() {
    assert_eq!(ConsolePrinter::format_duration(42_000_000), "42s");
    assert_eq!(ConsolePrinter::format_duration(59_999_999), "59s");
    assert_eq!(ConsolePrinter::format_duration(125_000_000), "2m5s");
    assert_eq!(ConsolePrinter::format_duration(3_661_000_000), "1h1m1s");
}

#[test]
fn console_messages() {
    let p = ConsolePrinter::new(config(false));
    assert!(p.use_color());
    assert!(!ConsolePrinter::new(config(true)).use_color());
    assert_eq!(p.start_message("example.com", 80), "TCPING example.com:80");
    assert_eq!(
        p.probe_success_message(&None, "example.com:80", 1, 15_500),
        "example.com:80: connected in 15.50ms"
    );
    assert_eq!(
        p.probe_success_message(&Some("10.0.0.2:5000".to_string()), "example.com:80", 3, 1_234),
        "example.com:80: connected from 10.0.0.2:5000 in 1.23ms (streak: 3)"
    );
    assert_eq!(p.probe_fail_message("example.com:80", 0), "example.com:80: connection failed");
    assert_eq!(
        p.probe_fail_message("example.com:80", 2),
        "example.com:80: connection failed (consecutive failures: 2)"
    );
    assert_eq!(p.retrying_to_resolve_message("example.com"), "Retrying to resolve: example.com");
    assert_eq!(p.total_downtime_message(61_000_000), "Total downtime: 1m1s");
}

#[test]
fn console_statistics_lines() {
    let p = ConsolePrinter::new(config(false));
    let lines = p.statistics_lines(&sample_stats(), 0);
    assert_eq!(
        lines,
        vec![
            "\n--- example.com:80 statistics ---".to_string(),
            "4 probes transmitted, 3 received, 25.0% packet loss".to_string(),
            "time 1m5s".to_string(),
            "rtt min/avg/max = 10.50/12.83/15.20 ms".to_string(),
            "Longest uptime: 3s".to_string(),
            "Longest downtime: 1m1s".to_string(),
        ]
    );
    let empty = p.statistics_lines(&Statistics::new(), 3_000_000);
    assert_eq!(
        empty,
        vec![
            "\n--- example.com:80 statistics ---".to_string(),
            "0 probes transmitted, 0 received, 0.0% packet loss".to_string(),
            "time 3s".to_string(),
        ]
    );
}

#[test]
fn csv_records() {
    let ok = ProbeResult {
        success: true,
        rtt: 15_500,
        source_addr: Some("10.0.0.2:5000".to_string()),
        target_addr: "93.184.216.34:80".to_string(),
        error: None,
    };
    assert_eq!(
        probe_record_with_timestamp("2024-01-01T00:00:00+00:00", "example.com:80", &ok),
        vec!["2024-01-01T00:00:00+00:00", "example.com:80", "true", "15.50", "10.0.0.2:5000", "93.184.216.34:80", ""]
    );
    let failed = ProbeResult {
        success: false,
        rtt: 0,
        source_addr: None,
        target_addr: "93.184.216.34:80".to_string(),
        error: Some("Connection failed".to_string()),
    };
    assert_eq!(
        probe_record_with_timestamp("t", "example.com:80", &failed),
        vec!["t", "example.com:80", "false", "", "", "93.184.216.34:80", "Connection failed"]
    );
}

#[test]
fn csv_statistics() {
    let rows = statistics_rows(&sample_stats(), 0);
    let expected = vec![
        ("statistic", "value"),
        ("total_probes", "4"),
        ("successful_probes", "3"),
        ("unsuccessful_probes", "1"),
        ("packet_loss_percentage", "25.0"),
        ("min_rtt_ms", "10.50"),
        ("avg_rtt_ms", "12.83"),
        ("max_rtt_ms", "15.20"),
        ("total_duration_seconds", "65.5"),
    ];
    let got: Vec<(&str, &str)> = rows.iter().map(|(a, b)| (a.as_str(), b.as_str())).collect();
    assert_eq!(got, expected);
}

#[test]
fn csv_stats_path() {
    assert_eq!(stats_file_path("tcping_results.csv"), "tcping_results_stats.csv");
    assert_eq!(stats_file_path("a.csv.csv"), "a_stats.csv");
    assert_eq!(stats_file_path("out"), "out_stats.csv");
    assert_eq!(stats_file_path(".csv"), "_stats.csv");
}

#[test]
fn json_collects_probes_and_summary() {
    let mut j = JsonPrinter::new(config(false), true);
    assert!(j.pretty());
    let ok = ProbeResult {
        success: true,
        rtt: 15_500,
        source_addr: None,
        target_addr: "93.184.216.34:80".to_string(),
        error: None,
    };
    let failed = ProbeResult {
        success: false,
        rtt: 9,
        source_addr: None,
        target_addr: "93.184.216.34:80".to_string(),
        error: Some("Connection failed".to_string()),
    };
    j.add_probe_with_timestamp(&ok, "t1".to_string());
    j.add_probe_with_timestamp(&failed, "t2".to_string());
    let out = j.generate_output(&sample_stats(), 0);
    assert_eq!(out.target, "example.com:80");
    assert_eq!(out.probes.len(), 2);
    assert_eq!(out.probes[0].timestamp, "t1");
    assert_eq!(out.probes[0].rtt, Some(15_500));
    assert_eq!(out.probes[1].rtt, None);
    assert_eq!(out.probes[1].error, Some("Connection failed".to_string()));
    assert_eq!(out.statistics.total_probes, 4);
    assert_eq!(out.statistics.packet_loss_percentage, 2_500);
    assert_eq!((out.statistics.min_rtt, out.statistics.avg_rtt, out.statistics.max_rtt), (10_500, 12_833, 15_200));
    assert_eq!(out.statistics.total_duration, 65_500_000);
    assert_eq!(out.statistics.longest_uptime, 3_000_000);
    assert_eq!(out.statistics.longest_downtime, 61_500_000);
}

#[test]
fn signal_flag() {
    let h = SignalHandler::new();
    assert!(!h.should_shutdown());
    let shared = h.clone();
    shared.request_shutdown();
    assert!(h.should_shutdown());
    let d: SignalHandler = Default::default();
    assert!(!d.should_shutdown());
}

#[test]
fn records_are_stamped_in_rfc3339() {
    let ok = ProbeResult {
        success: true,
        rtt: 1_000,
        source_addr: None,
        target_addr: "93.184.216.34:80".to_string(),
        error: None,
    };
    let fields = probe_record(0, "example.com:80", &ok);
    assert_eq!(fields[0], "1970-01-01T00:00:00+00:00");
    let fields = probe_record(1_500_000_000, "example.com:80", &ok);
    assert_eq!(fields[0], "1970-01-01T00:00:01.500+00:00");

    let mut j = JsonPrinter::new(config(false), false);
    j.add_probe(&ok, 86_400_000_000_000);
    let out = j.generate_output(&Statistics::new(), 0);
    assert_eq!(out.probes[0].timestamp, "1970-01-02T00:00:00+00:00");
}

#[test]
fn no_color_means_no_line_color() {
    let plain = ConsolePrinter::new(config(true));
    for kind in [LineKind::Start, LineKind::Success, LineKind::Failure, LineKind::Retrying, LineKind::Downtime, LineKind::Info] {
        assert_eq!(plain.line_color(kind), None);
    }
    let colored = ConsolePrinter::new(config(false));
    assert_eq!(colored.line_color(LineKind::Start), Some(LineColor::BoldBlue));
    assert_eq!(colored.line_color(LineKind::Success), Some(LineColor::Green));
    assert_eq!(colored.line_color(LineKind::Failure), Some(LineColor::Red));
    assert_eq!(colored.line_color(LineKind::Downtime), Some(LineColor::Yellow));
    let lines = plain.statistics_lines(&sample_stats(), 0);
    assert!(lines.iter().all(|l| !l.contains('\u{1b}')));
}

#[test]
fn loss_line_rounds_ties_to_even() {
    let mut s = Statistics::new();
    for t in 0..15 {
        s.record_success(1_000, t);
    }
    s.record_failure(15);
    let p = ConsolePrinter::new(config(true));
    let lines = p.statistics_lines(&s, 20);
    assert_eq!(lines[1], "16 probes transmitted, 15 received, 6.2% packet loss");
    let rows = statistics_rows(&s, 20);
    assert_eq!(rows[4].1, "6.2");
}
