use tcping::config::{Cli, Config, IpVersion, OutputKind};

fn cli(target: &str) -> Cli {
    Cli {
        target: target.to_string(),
        port: None,
        ipv4: false,
        ipv6: false,
        retries: 2,
        count: 3,
        json: true,
        pretty: false,
        no_color: true,
        debug: false,
        csv: false,
        verbose: true,
        update: false,
        interface: Some("eth0".to_string()),
        interval: 2_500_000,
        timeout: 10_000_000,
        database: None,
        show_source_address: true,
        show_failures_only: false,
        show_datetime: true,
    }
}

#[test]
fn from_cli_reads_host_and_port() {
    let c = Config::from_cli(&cli("example.com:80")).unwrap();
    assert_eq!(c.host, "example.com");
    assert_eq!(c.port, 80);
    assert_eq!(c.retries, 2);
    assert_eq!(c.count, 3);
    assert!(c.json && c.no_color && c.verbose && c.show_source_address && c.show_datetime);
    assert_eq!(c.interface, Some("eth0".to_string()));
    assert_eq!(c.interval, 2_500_000);
    assert_eq!(c.timeout, 10_000_000);
}

#[test]
fn from_cli_splits_at_last_colon() {
    let c = Config::from_cli(&cli("::1:443")).unwrap();
    assert_eq!(c.host, "::1");
    assert_eq!(c.port, 443);
}

#[test]
fn from_cli_accepts_plus_and_leading_zeros() {
    assert_eq!(Config::from_cli(&cli("h:+8080")).unwrap().port, 8080);
    assert_eq!(Config::from_cli(&cli("h:0080")).unwrap().port, 80);
    assert_eq!(Config::from_cli(&cli("h:65535")).unwrap().port, 65535);
}

#[test]
fn from_cli_rejects_missing_colon() {
    assert_eq!(Config::from_cli(&cli("example.com")).unwrap_err(), "Target must be in host:port format");
}

#[test]
fn from_cli_rejects_empty_host() {
    assert_eq!(Config::from_cli(&cli(":80")).unwrap_err(), "Host cannot be empty");
}

#[test]
fn from_cli_rejects_zero_port() {
    assert_eq!(Config::from_cli(&cli("example.com:0")).unwrap_err(), "Port cannot be zero");
}

#[test]
fn from_cli_rejects_bad_port() {
    assert_eq!(Config::from_cli(&cli("example.com:http")).unwrap_err(), "Invalid port number: http");
    assert_eq!(Config::from_cli(&cli("example.com:65536")).unwrap_err(), "Invalid port number: 65536");
    assert_eq!(Config::from_cli(&cli("example.com:")).unwrap_err(), "Invalid port number: ");
    assert_eq!(Config::from_cli(&cli("example.com:+")).unwrap_err(), "Invalid port number: +");
    assert_eq!(Config::from_cli(&cli("example.com:-1")).unwrap_err(), "Invalid port number: -1");
    assert_eq!(Config::from_cli(&cli("example.com: 80")).unwrap_err(), "Invalid port number:  80");
}

#[test]
fn from_cli_rejects_both_ip_versions() {
    let mut c = cli("example.com:80");
    c.ipv4 = true;
    c.ipv6 = true;
    assert_eq!(Config::from_cli(&c).unwrap_err(), "Cannot use both -4 and -6 flags simultaneously");
}

#[test]
fn target_errors_come_before_ip_version_errors() {
    let mut c = cli(":80");
    c.ipv4 = true;
    c.ipv6 = true;
    assert_eq!(Config::from_cli(&c).unwrap_err(), "Host cannot be empty");
}

#[test]
fn target_address_round_trips() {
    let c = Config::from_cli(&cli("example.com:8080")).unwrap();
    assert_eq!(c.get_target_address(), "example.com:8080");
    let again = Config::from_cli(&cli(&c.get_target_address())).unwrap();
    assert_eq!(again.host, c.host);
    assert_eq!(again.port, c.port);
}

#[test]
fn preferred_ip_version_follows_flags() {
    let mut c = Config::from_cli(&cli("h:1")).unwrap();
    assert_eq!(c.get_preferred_ip_version(), IpVersion::Any);
    c.ipv6 = true;
    assert_eq!(c.get_preferred_ip_version(), IpVersion::V6);
    c.ipv4 = true;
    assert_eq!(c.get_preferred_ip_version(), IpVersion::V4);
}

#[test]
fn config_clone_keeps_fields() {
    let c = Config::from_cli(&cli("example.com:80")).unwrap();
    let d = c.clone();
    assert_eq!(d.host, c.host);
    assert_eq!(d.interface, c.interface);
    assert_eq!(d.timeout, c.timeout);
}

fn cli2(host: &str, port: &str) -> Cli {
    let mut c = cli(host);
    c.port = Some(port.to_string());
    c
}

#[test]
fn two_argument_form_is_read() {
    let c = Config::from_cli(&cli2("example.com", "80")).unwrap();
    assert_eq!(c.host, "example.com");
    assert_eq!(c.port, 80);
    let v6 = Config::from_cli(&cli2("::1", "443")).unwrap();
    assert_eq!(v6.host, "::1");
    assert_eq!(v6.port, 443);
}

#[test]
fn two_argument_form_empty_host() {
    assert_eq!(Config::from_cli(&cli2("", "80")).unwrap_err(), "Host cannot be empty");
}

#[test]
fn two_argument_form_zero_port() {
    assert_eq!(Config::from_cli(&cli2("example.com", "0")).unwrap_err(), "Port cannot be zero");
    assert_eq!(Config::from_cli(&cli2("example.com", "x")).unwrap_err(), "Invalid port number: x");
}

#[test]
fn two_argument_form_both_ip_versions() {
    let mut c = cli2("example.com", "80");
    c.ipv4 = true;
    c.ipv6 = true;
    assert_eq!(Config::from_cli(&c).unwrap_err(), "Cannot use both -4 and -6 flags simultaneously");
}

#[test]
fn two_argument_form_with_options() {
    let mut c = cli2("example.com", "80");
    c.retries = 3;
    c.count = 1;
    let cfg = Config::from_cli(&c).unwrap();
    assert_eq!((cfg.host.as_str(), cfg.port, cfg.retries, cfg.count), ("example.com", 80, 3, 1));
    assert!(!cfg.ipv4 && !cfg.ipv6);
}

#[test]
fn zero_timeout_is_refused() {
    let mut c = cli("example.com:80");
    c.timeout = 0;
    assert_eq!(Config::from_cli(&c).unwrap_err(), "Timeout must be greater than zero");
    c.timeout = 1;
    assert!(Config::from_cli(&c).is_ok());
}

#[test]
fn output_kind_follows_flags() {
    let mut c = Config::from_cli(&cli("h:1")).unwrap();
    assert_eq!(c.output_kind(), OutputKind::Json);
    c.json = false;
    assert_eq!(c.output_kind(), OutputKind::Console);
    c.database = Some("x.db".to_string());
    assert_eq!(c.output_kind(), OutputKind::Database("x.db".to_string()));
    c.csv = true;
    assert_eq!(c.output_kind(), OutputKind::Csv);
}
