use tcping::config::{Cli, Config};
use tcping::tcp_probe::{ProbeError, ProbeResult, ResolvedAddress, RetryStep, TcpProbe};

fn config(target: &str, ipv4: bool, ipv6: bool, show_source_address: bool) -> Config {
    Config::from_cli(&Cli {
        target: target.to_string(),
        port: None,
        ipv4,
        ipv6,
        retries: 0,
        count: 0,
        json: false,
        pretty: false,
        no_color: false,
        debug: false,
        csv: false,
        verbose: false,
        update: false,
        interface: None,
        interval: 1_000_000,
        timeout: 1_000_000,
        database: None,
        show_source_address,
        show_failures_only: false,
        show_datetime: false,
    })
    .unwrap()
}

fn v4() -> ResolvedAddress {
    ResolvedAddress { text: "93.184.216.34:80".to_string(), is_ipv4: true }
}

fn v6() -> ResolvedAddress {
    ResolvedAddress { text: "[2606:2800:220:1::]:80".to_string(), is_ipv4: false }
}

#[test]
fn probe_keeps_its_config() {
    let p = TcpProbe::new(config("example.com:80", false, false, false));
    assert_eq!(p.config().host, "example.com");
    assert_eq!(p.target(), "example.com:80");
}

#[test]
fn filter_keeps_matching_version() {
    let any = TcpProbe::new(config("h:80", false, false, false));
    assert!(any.filter_by_ip_version(v4()).is_some());
    assert!(any.filter_by_ip_version(v6()).is_some());
    let only4 = TcpProbe::new(config("h:80", true, false, false));
    assert!(only4.filter_by_ip_version(v4()).is_some());
    assert!(only4.filter_by_ip_version(v6()).is_none());
    let only6 = TcpProbe::new(config("h:80", false, true, false));
    assert!(only6.filter_by_ip_version(v4()).is_none());
    assert_eq!(only6.filter_by_ip_version(v6()).unwrap().text, "[2606:2800:220:1::]:80");
}

#[test]
fn resolution_outcomes() {
    let p = TcpProbe::new(config("example.com:80", true, false, false));
    assert_eq!(p.resolution_outcome(Ok(vec![v4()])).unwrap().text, "93.184.216.34:80");
    match p.resolution_outcome(Ok(vec![v6()])) {
        Err(ProbeError::ResolutionFailed(m)) => assert_eq!(m, "Could not resolve hostname: example.com"),
        other => panic!("unexpected {:?}", other),
    }
    match p.resolution_outcome(Ok(vec![])) {
        Err(ProbeError::ResolutionFailed(m)) => assert_eq!(m, "Could not resolve hostname: example.com"),
        other => panic!("unexpected {:?}", other),
    }
    match p.resolution_outcome(Err("no such host".to_string())) {
        Err(ProbeError::ResolutionFailed(m)) => {
            assert_eq!(m, "Failed to resolve target example.com:80: no such host")
        }
        other => panic!("unexpected {:?}", other),
    }
}

#[test]
fn connection_outcomes() {
    let shown = TcpProbe::new(config("example.com:80", false, false, true));
    let r = shown.connection_outcome(v4(), Ok(Some("10.0.0.2:51000".to_string())), 12_345).unwrap();
    assert!(r.success);
    assert_eq!(r.rtt, 12_345);
    assert_eq!(r.source_addr, Some("10.0.0.2:51000".to_string()));
    assert_eq!(r.target_addr, "93.184.216.34:80");
    assert_eq!(r.error, None);

    let hidden = TcpProbe::new(config("example.com:80", false, false, false));
    let r = hidden.connection_outcome(v4(), Ok(Some("10.0.0.2:51000".to_string())), 7).unwrap();
    assert_eq!(r.source_addr, None);

    match hidden.connection_outcome(v4(), Err("connection refused".to_string()), 7) {
        Err(ProbeError::ConnectionFailed(m)) => {
            assert_eq!(m, "Failed to connect to 93.184.216.34:80: connection refused")
        }
        other => panic!("unexpected {:?}", other),
    }
}

#[test]
fn error_messages() {
    assert_eq!(ProbeError::ConnectionFailed("x".to_string()).message(), "Connection failed: x");
    assert_eq!(ProbeError::ResolutionFailed("y".to_string()).message(), "Resolution failed: y");
    assert_eq!(ProbeError::IoError("z".to_string()).message(), "IO error: z");
}

fn ok_result() -> ProbeResult {
    ProbeResult { success: true, rtt: 1, source_addr: None, target_addr: "a:1".to_string(), error: None }
}

#[test]
fn retry_steps() {
    assert!(matches!(TcpProbe::retry_step(0, 3, Ok(ok_result())), RetryStep::Finish(Ok(_))));
    assert!(matches!(
        TcpProbe::retry_step(0, 3, Err(ProbeError::IoError("e".to_string()))),
        RetryStep::RetryAfterPause
    ));
    assert!(matches!(
        TcpProbe::retry_step(3, 3, Err(ProbeError::IoError("e".to_string()))),
        RetryStep::Finish(Err(_))
    ));
    assert!(matches!(
        TcpProbe::retry_step(0, 0, Err(ProbeError::IoError("e".to_string()))),
        RetryStep::Finish(Err(_))
    ));
}

#[test]
fn resolution_keeps_first_suitable_address() {
    let p4 = TcpProbe::new(config("example.com:80", true, false, false));
    assert_eq!(p4.resolution_outcome(Ok(vec![v6(), v4()])).unwrap().text, "93.184.216.34:80");
    let p6 = TcpProbe::new(config("example.com:80", false, true, false));
    assert_eq!(p6.resolution_outcome(Ok(vec![v4(), v6()])).unwrap().text, "[2606:2800:220:1::]:80");
    let any = TcpProbe::new(config("example.com:80", false, false, false));
    assert_eq!(any.resolution_outcome(Ok(vec![v6(), v4()])).unwrap().text, "[2606:2800:220:1::]:80");
}

#[test]
fn ipv6_only_refuses_ipv4_literal() {
    let p = TcpProbe::new(config("127.0.0.1:80", false, true, false));
    let literal = ResolvedAddress { text: "127.0.0.1:80".to_string(), is_ipv4: true };
    match p.resolution_outcome(Ok(vec![literal])) {
        Err(ProbeError::ResolutionFailed(m)) => assert_eq!(m, "Could not resolve hostname: 127.0.0.1"),
        other => panic!("unexpected {:?}", other),
    }
}
