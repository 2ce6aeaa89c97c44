use tcping::config::Config;
use tcping::statistics::Statistics;
use tcping::tcp_probe::ProbeResult;

#[test]
fn test_config_validation() {
    // Test valid configuration
    let config = Config {
        host: "example.com".to_string(),
        port: 80,
        ipv4: false,
        ipv6: false,
        retries: 0,
        count: 0,
        json: false,
        pretty: false,
        no_color: false,
        debug: false,
        csv: false,
        verbose: false,
        update: false,
        interface: None,
        interval: 1_000_000,
        timeout: 5_000_000,
        database: None,
        show_source_address: false,
        show_failures_only: false,
        show_datetime: false,
    };

    assert_eq!(config.host, "example.com");
    assert_eq!(config.port, 80);
}

#[test]
fn test_statistics_tracking() {
    let mut stats = Statistics::new();

    // Record some successes (round-trip times in microseconds: 10.5 ms, 15.2 ms, 12.8 ms)
    stats.record_success(10_500, 1_000_000);
    stats.record_success(15_200, 2_000_000);
    stats.record_success(12_800, 3_000_000);

    // Record a failure
    stats.record_failure(4_000_000);

    let (min, avg, max) = stats.get_rtt_statistics();
    assert_eq!(min, 10_500);
    assert_eq!(max, 15_200);
    assert!((avg as i64 - 12_830).abs() < 100); // 12.83 ms, within 0.1 ms

    assert_eq!(stats.total_successful_probes, 3);
    assert_eq!(stats.total_unsuccessful_probes, 1);
    assert_eq!(stats.get_packet_loss_percentage(), 2_500); // 25.00 %
}

#[test]
fn test_tcp_probe_structure() {
    let probe_result = ProbeResult {
        success: true,
        rtt: 15_500, // 15.5 ms
        source_addr: None,
        target_addr: "127.0.0.1:80".to_string(),
        error: None,
    };

    assert!(probe_result.success);
    assert_eq!(probe_result.rtt, 15_500);
}
