use network_ids_core::types::{
    IdsError, IpAddress, PacketData, ParsedPacket, Protocol, Severity, SystemConfig, TcpFlag,
};
use network_ids_core::NetworkIDS;

fn packet(seq: u8) -> PacketData {
    PacketData {
        id: seq as u128,
        timestamp_ms: 0,
        raw_data: Vec::new(),
        parsed: ParsedPacket {
            src_ip: IpAddress::V4(192, 168, 1, seq),
            dst_ip: IpAddress::V4(10, 0, 0, 1),
            src_port: Some(40000),
            dst_port: Some(80),
            protocol: Protocol::TCP,
            size: 100,
            flags: vec![TcpFlag::ACK],
        },
    }
}

#[test]
fn flow_eviction_after_timeout() {
    // One packet at t=0; at t=301s the reaper removes the idle flow.
    let mut ids = NetworkIDS::new(SystemConfig::default(), 0).unwrap();
    ids.start().unwrap();
    ids.submit_packet(packet(1), 0);
    ids.process_next(0);
    assert_eq!(ids.get_detection_engine().unwrap().get_active_flow_count(), 1);
    ids.tick_reaper(301_000);
    assert_eq!(ids.get_detection_engine().unwrap().get_active_flow_count(), 0);
}

#[test]
fn flow_survives_before_timeout() {
    let mut ids = NetworkIDS::new(SystemConfig::default(), 0).unwrap();
    ids.start().unwrap();
    ids.submit_packet(packet(1), 0);
    ids.process_next(0);
    ids.tick_reaper(300_000);
    assert_eq!(ids.get_detection_engine().unwrap().get_active_flow_count(), 1);
}

#[test]
fn backpressure_counts_at_ingest_and_bounds_queue() {
    // 20,000 packets faster than the detector drains: every one is
    // counted, the queue never exceeds its capacity of 10,000.
    let mut ids = NetworkIDS::new(SystemConfig::default(), 0).unwrap();
    ids.start().unwrap();
    let mut accepted = 0u64;
    for i in 0..20_000u32 {
        if ids.submit_packet(packet((i % 200) as u8), 0) {
            accepted += 1;
        }
        assert!(ids.queue.len() <= 10_000);
    }
    let stats = ids.get_stats();
    assert_eq!(stats.packets_processed, 20_000);
    assert_eq!(stats.bytes_processed, 2_000_000);
    assert_eq!(accepted, 10_000);
    assert_eq!(ids.queue.len(), 10_000);
}

#[test]
fn graceful_shutdown_stops_processing() {
    let mut ids = NetworkIDS::new(SystemConfig::default(), 0).unwrap();
    assert!(ids.process_next(0).is_none());
    ids.start().unwrap();
    for i in 0..50u32 {
        ids.submit_packet(packet((i % 200) as u8), 0);
    }
    assert!(ids.process_next(1).is_some());
    ids.shutdown();
    // After shutdown no packet is processed and no alert is published.
    assert!(ids.process_next(2).is_none());
    let before = ids.get_stats().threats_detected;
    assert!(ids.process_next(3).is_none());
    assert_eq!(ids.get_stats().threats_detected, before);
    // Shutdown is idempotent.
    ids.shutdown();
}

#[test]
fn double_start_fails_with_already_running() {
    let mut ids = NetworkIDS::new(SystemConfig::default(), 0).unwrap();
    assert!(ids.start().is_ok());
    assert_eq!(ids.start(), Err(IdsError::AlreadyRunning));
    ids.shutdown();
    assert!(ids.start().is_ok());
}

#[test]
fn severity_grades_are_totally_ordered() {
    assert!(Severity::Low < Severity::Medium);
    assert!(Severity::Medium < Severity::High);
    assert!(Severity::High < Severity::Critical);
    assert!(Severity::Critical > Severity::Low);
    assert!(Severity::Medium == Severity::Medium);
    let mut grades = [Severity::Critical, Severity::Low, Severity::High, Severity::Medium];
    grades.sort_by(|a, b| a.partial_cmp(b).unwrap());
    assert_eq!(grades, [Severity::Low, Severity::Medium, Severity::High, Severity::Critical]);
}

#[test]
fn stats_snapshot_is_by_value() {
    let mut ids = NetworkIDS::new(SystemConfig::default(), 0).unwrap();
    ids.start().unwrap();
    ids.submit_packet(packet(1), 0);
    let snap = ids.get_stats();
    ids.submit_packet(packet(2), 0);
    assert_eq!(snap.packets_processed, 1);
    assert_eq!(ids.get_stats().packets_processed, 2);
}

#[test]
fn default_config_values() {
    let config = SystemConfig::default();
    assert_eq!(config.interface, "Wi-Fi");
    assert_eq!(config.sensitivity_bp, 7000);
    assert_eq!(config.max_pps, 10_000);
    assert_eq!(config.ml_config.update_frequency, 300);
    assert_eq!(config.ml_config.batch_size, 128);
    assert_eq!(config.alert_thresholds.anomaly_threshold_bp, 8000);
    assert_eq!(config.alert_thresholds.min_confidence_bp, 7000);
    assert_eq!(config.alert_thresholds.max_alerts_per_minute, 10);
    assert!(!config.use_simulation);
}
