use tcping::config::{Cli, Config};
use tcping::session::{ProbeReport, Session};
use tcping::tcp_probe::{ProbeError, ProbeResult};

fn config(count: u32, verbose: bool) -> Config {
    Config::from_cli(&Cli {
        target: "example.com:80".to_string(),
        port: None,
        ipv4: false,
        ipv6: false,
        retries: 0,
        count,
        json: false,
        pretty: false,
        no_color: false,
        debug: false,
        csv: false,
        verbose,
        update: false,
        interface: None,
        interval: 1_000_000,
        timeout: 1_000_000,
        database: None,
        show_source_address: false,
        show_failures_only: false,
        show_datetime: false,
    })
    .unwrap()
}

fn reached(rtt: u64) -> Result<ProbeResult, ProbeError> {
    Ok(ProbeResult {
        success: true,
        rtt,
        source_addr: Some("10.0.0.2:5000".to_string()),
        target_addr: "93.184.216.34:80".to_string(),
        error: None,
    })
}

#[test]
fn session_reports_streaks() {
    let mut s = Session::new(config(0, false));
    match s.handle_probe(reached(1_500), 1_000_000) {
        ProbeReport::Success { source_addr, target, streak, rtt } => {
            assert_eq!(source_addr, Some("10.0.0.2:5000".to_string()));
            assert_eq!(target, "example.com:80");
            assert_eq!(streak, 1);
            assert_eq!(rtt, 1_500);
        }
        other => panic!("unexpected {:?}", other),
    }
    match s.handle_probe(reached(1_600), 2_000_000) {
        ProbeReport::Success { streak, .. } => assert_eq!(streak, 2),
        other => panic!("unexpected {:?}", other),
    }
    match s.handle_probe(Err(ProbeError::ConnectionFailed("refused".to_string())), 3_000_000) {
        ProbeReport::Failure { target, streak, error } => {
            assert_eq!(target, "example.com:80");
            assert_eq!(streak, 1);
            assert_eq!(error, None);
        }
        other => panic!("unexpected {:?}", other),
    }
    assert_eq!(s.probe_count, 3);
    assert_eq!(s.stats.total_successful_probes, 2);
    assert_eq!(s.stats.total_unsuccessful_probes, 1);
}

#[test]
fn verbose_session_reports_errors() {
    let mut s = Session::new(config(0, true));
    match s.handle_probe(Err(ProbeError::ConnectionFailed("refused".to_string())), 1) {
        ProbeReport::Failure { error, .. } => {
            assert_eq!(error, Some("Probe failed: Connection failed: refused".to_string()))
        }
        other => panic!("unexpected {:?}", other),
    }
    let unsuccessful = Ok(ProbeResult {
        success: false,
        rtt: 0,
        source_addr: None,
        target_addr: "93.184.216.34:80".to_string(),
        error: Some("x".to_string()),
    });
    match s.handle_probe(unsuccessful, 2) {
        ProbeReport::Failure { streak, error, .. } => {
            assert_eq!(streak, 2);
            assert_eq!(error, None);
        }
        other => panic!("unexpected {:?}", other),
    }
}

#[test]
fn session_stops_after_count() {
    let mut s = Session::new(config(2, false));
    assert!(s.should_continue());
    s.handle_probe(reached(1), 1);
    assert!(s.should_continue());
    s.handle_probe(reached(1), 2);
    assert!(!s.should_continue());
}

#[test]
fn unlimited_session_continues() {
    let mut s = Session::new(config(0, false));
    for t in 0..5 {
        s.handle_probe(reached(1), t);
    }
    assert!(s.should_continue());
}

#[test]
fn can_handle_checks_the_counter_of_the_outcome() {
    let mut s = Session::new(config(0, false));
    assert!(s.can_handle(&reached(1), 1));
    s.stats.total_successful_probes = u32::MAX;
    assert!(!s.can_handle(&reached(1), 1));
    assert!(s.can_handle(&Err(ProbeError::IoError("e".to_string())), 1));
    s.probe_count = u32::MAX;
    assert!(!s.can_handle(&Err(ProbeError::IoError("e".to_string())), 1));
}
