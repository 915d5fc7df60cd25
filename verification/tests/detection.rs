use network_ids_core::detection::{DetectionEngine, ThreatPatterns};
use network_ids_core::flow::FlowTable;
use network_ids_core::stats::SystemStats;
use network_ids_core::types::{
    IpAddress, PacketData, ParsedPacket, Protocol, Severity, TcpFlag, ThreatType,
};

fn packet(
    src_ip: IpAddress,
    src_port: u16,
    dst_ip: IpAddress,
    dst_port: u16,
    size: usize,
    flags: Vec<TcpFlag>,
) -> PacketData {
    PacketData {
        id: 0,
        timestamp_ms: 0,
        raw_data: Vec::new(),
        parsed: ParsedPacket {
            src_ip,
            dst_ip,
            src_port: Some(src_port),
            dst_port: Some(dst_port),
            protocol: Protocol::TCP,
            size,
            flags,
        },
    }
}

#[test]
fn port_scan_detected_low_severity() {
    // Nine SYN probes from one source against nine well-known ports.
    let scanner = IpAddress::V4(203, 0, 113, 7);
    let target = IpAddress::V4(10, 0, 0, 5);
    let ports: [u16; 9] = [21, 22, 23, 25, 80, 443, 3306, 3389, 8080];
    let mut table = FlowTable::new();
    for (i, p) in ports.iter().enumerate() {
        let pk = packet(scanner, 44000 + i as u16, target, *p, 64, vec![TcpFlag::SYN]);
        table.upsert(pk, 0);
    }
    let alert = ThreatPatterns::detect_port_scan(&table.flows, 1).expect("scan must be detected");
    assert_eq!(alert.threat_type, ThreatType::PortScan);
    assert_eq!(alert.source_ip, scanner);
    assert_eq!(alert.severity, Severity::Low);
    assert_eq!(alert.confidence_bp, 900);
    assert_eq!(alert.target_ip, Some(target));
    for p in ports.iter() {
        assert!(alert.affected_ports.contains(p));
    }
    assert!(!alert.raw_packets.is_empty());
}

#[test]
fn port_scan_needs_five_distinct_ports() {
    let scanner = IpAddress::V4(203, 0, 113, 7);
    let target = IpAddress::V4(10, 0, 0, 5);
    let mut table = FlowTable::new();
    for p in [80u16, 443, 22, 25].iter() {
        table.upsert(packet(scanner, 44000, target, *p, 64, vec![TcpFlag::SYN]), 0);
    }
    assert!(ThreatPatterns::detect_port_scan(&table.flows, 1).is_none());
}

#[test]
fn ddos_detected_medium_severity() {
    // 1200 TCP packets of 1400 bytes from 20 distinct sources to one host.
    let target = IpAddress::V4(10, 0, 0, 9);
    let mut table = FlowTable::new();
    for i in 0..1200u32 {
        let src = IpAddress::V4(198, 18, (i % 20) as u8, 1);
        let pk = packet(src, 1024 + (i % 20) as u16, target, 80, 1400, vec![TcpFlag::ACK]);
        table.upsert(pk, 0);
    }
    let alert = ThreatPatterns::detect_ddos(&table.flows, 1).expect("ddos must be detected");
    assert_eq!(alert.threat_type, ThreatType::DDoS);
    assert_eq!(alert.target_ip, Some(target));
    // 1200 packets and 1,680,000 bytes: below the High thresholds.
    assert_eq!(alert.severity, Severity::Medium);
    // (1200 * 10000 + 1_680_000) / 20000 = 684 basis points, about 0.068.
    assert_eq!(alert.confidence_bp, 684);
    assert!(!alert.raw_packets.is_empty());
}

#[test]
fn ddos_not_detected_below_thresholds() {
    let target = IpAddress::V4(10, 0, 0, 9);
    let mut table = FlowTable::new();
    for i in 0..100u32 {
        let src = IpAddress::V4(198, 18, (i % 20) as u8, 1);
        table.upsert(packet(src, 1024, target, 80, 100, vec![TcpFlag::ACK]), 0);
    }
    assert!(ThreatPatterns::detect_ddos(&table.flows, 1).is_none());
}

#[test]
fn illegal_flag_combination_raises_suspicious_alert() {
    // A single TCP packet carrying both SYN and FIN raises the alert as
    // soon as it is processed.
    let mut engine = DetectionEngine::new();
    let mut stats = SystemStats::new(0);
    let pk = packet(
        IpAddress::V4(198, 51, 100, 1),
        44444,
        IpAddress::V4(10, 0, 0, 2),
        80,
        64,
        vec![TcpFlag::SYN, TcpFlag::FIN],
    );
    let alerts = engine.process_packet(&mut stats, pk, 0);
    assert_eq!(alerts.len(), 1);
    let alert = &alerts[0];
    assert_eq!(alert.threat_type, ThreatType::Suspicious);
    assert_eq!(alert.severity, Severity::Medium);
    assert_eq!(alert.confidence_bp, 6000);
    assert!(!alert.raw_packets.is_empty());
    assert_eq!(stats.threats_detected, 1);
    assert_eq!(stats.alert_counts.get(Severity::Medium), 1);
}

#[test]
fn suspicious_rule_counts_syn_bearing_packets() {
    // Eleven SYN-bearing packets in one flow trip the SYN-count rule even
    // though the deduplicated flag union holds SYN only once.
    let src = IpAddress::V4(198, 51, 100, 2);
    let dst = IpAddress::V4(10, 0, 0, 3);
    let mut table = FlowTable::new();
    for _ in 0..11 {
        table.upsert(packet(src, 50000, dst, 80, 64, vec![TcpFlag::SYN]), 0);
    }
    let flow = &table.flows[0];
    let alert = ThreatPatterns::detect_suspicious_flags(flow, 0).expect("rule must fire");
    assert_eq!(alert.threat_type, ThreatType::Suspicious);
    let mut table2 = FlowTable::new();
    for _ in 0..10 {
        table2.upsert(packet(src, 50000, dst, 80, 64, vec![TcpFlag::SYN]), 0);
    }
    assert!(ThreatPatterns::detect_suspicious_flags(&table2.flows[0], 0).is_none());
}

#[test]
fn alert_ring_keeps_last_hundred() {
    let mut engine = DetectionEngine::new();
    let mut stats = SystemStats::new(0);
    let pk = packet(
        IpAddress::V4(198, 51, 100, 1),
        44444,
        IpAddress::V4(10, 0, 0, 2),
        80,
        64,
        vec![TcpFlag::SYN, TcpFlag::FIN],
    );
    for i in 0..130u64 {
        engine.process_packet(&mut stats, pk.clone(), i);
    }
    assert_eq!(engine.recent_alerts.len(), 100);
    let recent = engine.get_recent_alerts(5);
    assert_eq!(recent.len(), 5);
    // Newest first.
    assert!(recent[0].timestamp_ms >= recent[4].timestamp_ms);
    assert_eq!(stats.threats_detected, 130);
}

#[test]
fn ml_score_threshold_and_severity() {
    let mut engine = DetectionEngine::new();
    let mut stats = SystemStats::new(0);
    let pk = packet(
        IpAddress::V4(198, 51, 100, 9),
        40000,
        IpAddress::V4(10, 0, 0, 7),
        443,
        500,
        vec![TcpFlag::ACK],
    );
    engine.process_packet(&mut stats, pk.clone(), 0);
    // One packet of history is not enough for the model.
    assert_eq!(engine.flows_due_for_scoring(), Vec::<usize>::new());
    for i in 1..5u64 {
        engine.process_packet(&mut stats, pk.clone(), i);
    }
    // Five packets make the flow due for scoring.
    assert_eq!(engine.flows_due_for_scoring(), vec![0]);
    assert!(engine.record_ml_score(&mut stats, 0, 7000, 1).is_none());
    let alert = engine.record_ml_score(&mut stats, 0, 8500, 2).expect("above threshold");
    assert_eq!(alert.threat_type, ThreatType::Anomalous);
    assert_eq!(alert.severity, Severity::Medium);
    assert_eq!(alert.anomaly_score_bp, 8500);
    assert!(alert.description.contains("0.850"));
    let critical = engine.record_ml_score(&mut stats, 0, 9500, 3).expect("above threshold");
    assert_eq!(critical.severity, Severity::High);
}

#[test]
fn stats_conservation_across_alerts() {
    let mut engine = DetectionEngine::new();
    let mut stats = SystemStats::new(0);
    let pk = packet(
        IpAddress::V4(198, 51, 100, 1),
        44444,
        IpAddress::V4(10, 0, 0, 2),
        80,
        64,
        vec![TcpFlag::SYN, TcpFlag::FIN],
    );
    for i in 0..7u64 {
        engine.process_packet(&mut stats, pk.clone(), i);
    }
    let total = stats.alert_counts.get(Severity::Low)
        + stats.alert_counts.get(Severity::Medium)
        + stats.alert_counts.get(Severity::High)
        + stats.alert_counts.get(Severity::Critical);
    assert_eq!(stats.threats_detected, total);
}
