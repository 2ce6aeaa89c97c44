use tcping::statistics::Statistics;

#[test]
fn fresh_statistics_are_empty() {
    let stats = Statistics::new();
    assert_eq!(stats.get_packet_loss_percentage(), 0);
    assert_eq!(stats.get_rtt_statistics(), (0, 0, 0));
    assert_eq!(stats.get_total_duration(7_000_000), 7_000_000);
    assert_eq!(stats.total_successful_probes + stats.total_unsuccessful_probes, 0);
}

#[test]
fn streaks_reset_on_change() {
    let mut s = Statistics::new();
    s.record_success(1_000, 1);
    s.record_success(1_000, 2);
    assert_eq!((s.ongoing_successful_probes, s.ongoing_unsuccessful_probes), (2, 0));
    s.record_failure(3);
    assert_eq!((s.ongoing_successful_probes, s.ongoing_unsuccessful_probes), (0, 1));
    s.record_failure(4);
    s.record_failure(5);
    assert_eq!((s.ongoing_successful_probes, s.ongoing_unsuccessful_probes), (0, 3));
    s.record_success(1_000, 6);
    assert_eq!((s.ongoing_successful_probes, s.ongoing_unsuccessful_probes), (1, 0));
    assert_eq!(s.total_successful_probes, 3);
    assert_eq!(s.total_unsuccessful_probes, 3);
    assert_eq!(s.rtt_measurements.len(), 3);
}

#[test]
fn uptime_and_downtime_cover_the_session() {
    let mut s = Statistics::new();
    s.record_success(1_000, 10_000_000); // up from 10 s
    s.record_success(1_000, 11_000_000);
    s.record_failure(13_000_000); // 3 s of uptime, down from 13 s
    s.record_failure(14_000_000);
    s.record_success(1_000, 20_000_000); // 7 s of downtime, up from 20 s
    s.finalize(21_000_000); // 1 more second of uptime
    assert_eq!(s.total_uptime, 4_000_000);
    assert_eq!(s.total_downtime, 7_000_000);
    assert_eq!(s.total_uptime + s.total_downtime, 21_000_000 - 10_000_000);
    assert_eq!(s.longest_uptime, 3_000_000);
    assert_eq!(s.longest_downtime, 7_000_000);
    assert_eq!(s.end_time, Some(21_000_000));
    // once closed, the duration no longer depends on the time asked
    assert_eq!(s.get_total_duration(99_000_000), 21_000_000);
}

#[test]
fn earlier_clock_reading_counts_as_no_time() {
    let mut s = Statistics::new();
    s.record_failure(5_000_000);
    s.record_success(1_000, 4_000_000);
    assert_eq!(s.total_downtime, 0);
    assert_eq!(s.start_of_uptime, Some(4_000_000));
    assert_eq!(s.start_of_downtime, None);
}

#[test]
fn packet_loss_edge_cases() {
    let mut all_fail = Statistics::new();
    all_fail.record_failure(1);
    all_fail.record_failure(2);
    assert_eq!(all_fail.get_packet_loss_percentage(), 10_000);
    assert_eq!(all_fail.get_rtt_statistics(), (0, 0, 0));

    let mut all_ok = Statistics::new();
    all_ok.record_success(5, 1);
    assert_eq!(all_ok.get_packet_loss_percentage(), 0);

    let mut third = Statistics::new();
    third.record_success(5, 1);
    third.record_success(5, 2);
    third.record_failure(3);
    assert_eq!(third.get_packet_loss_percentage(), 3_333);
}

#[test]
fn rtt_mean_is_rounded_down_and_bounded() {
    let mut s = Statistics::new();
    s.record_success(3, 1);
    s.record_success(4, 2);
    let (min, avg, max) = s.get_rtt_statistics();
    assert_eq!((min, avg, max), (3, 3, 4));
    assert!(min <= avg && avg <= max);
}

#[test]
fn finalize_counts_open_downtime() {
    let mut s = Statistics::new();
    s.record_failure(2_000_000);
    s.finalize(5_000_000);
    assert_eq!(s.total_downtime, 3_000_000);
    assert_eq!(s.longest_downtime, 3_000_000);
    assert_eq!(s.total_uptime, 0);
}

#[test]
fn default_equals_new() {
    let a: Statistics = Default::default();
    assert_eq!(a.start_time, 0);
    assert_eq!(a.end_time, None);
    assert!(a.rtt_measurements.is_empty());
}

#[test]
fn clone_keeps_everything() {
    let mut s = Statistics::new();
    s.record_success(10, 1);
    s.record_failure(2);
    let c = s.clone();
    assert_eq!(c.rtt_measurements, s.rtt_measurements);
    assert_eq!(c.total_unsuccessful_probes, 1);
    assert_eq!(c.start_of_downtime, Some(2));
    assert_eq!(c.total_uptime, 1);
}

#[test]
fn loss_moves_with_records() {
    let mut s = Statistics::new();
    s.record_success(1, 1);
    let l0 = s.get_packet_loss_percentage();
    s.record_failure(2);
    let l1 = s.get_packet_loss_percentage();
    assert!(l1 >= l0);
    s.record_success(1, 3);
    let l2 = s.get_packet_loss_percentage();
    assert!(l2 <= l1);
    assert_eq!((l0, l1, l2), (0, 5_000, 3_333));
}

#[test]
fn record_checks() {
    let mut s = Statistics::new();
    assert!(s.can_record_success(5) && s.can_record_failure(5) && s.can_finalize(5));
    s.record_failure(10);
    s.total_downtime = u64::MAX - 3;
    assert!(s.can_record_success(13));
    assert!(!s.can_record_success(14));
    assert!(!s.can_finalize(14));
    assert!(s.can_record_failure(14));
    s.total_unsuccessful_probes = u32::MAX;
    assert!(!s.can_record_failure(14));
}

#[test]
fn summary_gives_the_figures() {
    let mut s = Statistics::new();
    s.record_success(3_000, 1_000_000);
    s.record_failure(2_000_000);
    s.record_failure(3_000_000);
    let open = s.summary(5_000_000);
    assert!(!open.ended);
    assert_eq!(open.total_duration, 5_000_000);
    s.finalize(6_000_000);
    let sum = s.summary(9_000_000);
    assert!(sum.ended);
    assert_eq!((sum.total_probes, sum.successful_probes, sum.unsuccessful_probes), (3, 1, 2));
    assert_eq!(sum.packet_loss_percentage, 6_666);
    assert_eq!((sum.min_rtt, sum.avg_rtt, sum.max_rtt), (3_000, 3_000, 3_000));
    assert_eq!(sum.total_duration, 6_000_000);
    assert_eq!((sum.longest_uptime, sum.longest_downtime), (1_000_000, 4_000_000));
}
