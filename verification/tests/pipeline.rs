use network_ids_core::capture::{
    enqueue_packet, extract_tcp_flags, parse_packet, select_interface, CaptureErrorCounter,
    PacketQueue, SimulatedCapture,
};
use network_ids_core::features::FeatureExtractor;
use network_ids_core::flow::FlowTable;
use network_ids_core::stats::SystemStats;
use network_ids_core::types::{
    IdsError, IpAddress, PacketData, ParsedPacket, Protocol, TcpFlag,
};

fn tcp_frame() -> Vec<u8> {
    // Ethernet II header: destination, source, ethertype IPv4.
    let mut frame = vec![0u8; 12];
    frame.extend_from_slice(&[0x08, 0x00]);
    // IPv4 header, IHL 5 (20 bytes), protocol TCP, 1.2.3.4 -> 5.6.7.8.
    let mut ip = vec![0u8; 20];
    ip[0] = 0x45;
    ip[9] = 6;
    ip[12] = 1;
    ip[13] = 2;
    ip[14] = 3;
    ip[15] = 4;
    ip[16] = 5;
    ip[17] = 6;
    ip[18] = 7;
    ip[19] = 8;
    frame.extend_from_slice(&ip);
    // TCP header: source port 443, destination port 8080, SYN+ACK flags.
    let mut tcp = vec![0u8; 20];
    tcp[0] = 0x01;
    tcp[1] = 0xBB;
    tcp[2] = 0x1F;
    tcp[3] = 0x90;
    tcp[13] = 0x12;
    frame.extend_from_slice(&tcp);
    frame
}

#[test]
fn parse_ipv4_tcp_frame() {
    let frame = tcp_frame();
    let p = parse_packet(&frame).expect("frame must decode");
    assert_eq!(p.src_ip, IpAddress::V4(1, 2, 3, 4));
    assert_eq!(p.dst_ip, IpAddress::V4(5, 6, 7, 8));
    assert_eq!(p.src_port, Some(443));
    assert_eq!(p.dst_port, Some(8080));
    assert_eq!(p.protocol, Protocol::TCP);
    assert_eq!(p.size, 40);
    assert_eq!(p.flags, vec![TcpFlag::SYN, TcpFlag::ACK]);
}

#[test]
fn parse_rejects_unknown_ethertype_and_short_frames() {
    let mut frame = tcp_frame();
    frame[12] = 0x08;
    frame[13] = 0x06; // ARP
    assert_eq!(parse_packet(&frame).unwrap_err(), IdsError::DecodeError);
    assert_eq!(parse_packet(&[0u8; 10]).unwrap_err(), IdsError::DecodeError);
    // A frame whose IPv4 payload is too short is rejected too.
    let mut short = vec![0u8; 12];
    short.extend_from_slice(&[0x08, 0x00]);
    short.extend_from_slice(&[0u8; 10]);
    assert_eq!(parse_packet(&short).unwrap_err(), IdsError::DecodeError);
}

#[test]
fn parse_ipv6_udp_frame() {
    let mut frame = vec![0u8; 12];
    frame.extend_from_slice(&[0x86, 0xDD]);
    let mut ip6 = vec![0u8; 40];
    ip6[6] = 17; // UDP
    ip6[23] = 1; // src ::1
    ip6[39] = 2; // dst ::2
    frame.extend_from_slice(&ip6);
    let mut udp = vec![0u8; 8];
    udp[1] = 53;
    udp[3] = 53;
    frame.extend_from_slice(&udp);
    let p = parse_packet(&frame).expect("frame must decode");
    assert_eq!(p.src_ip, IpAddress::V6(1));
    assert_eq!(p.dst_ip, IpAddress::V6(2));
    assert_eq!(p.protocol, Protocol::UDP);
    assert_eq!(p.src_port, Some(53));
    assert_eq!(p.dst_port, Some(53));
}

#[test]
fn tcp_flag_extraction_by_bit() {
    assert_eq!(extract_tcp_flags(0x00), Vec::<TcpFlag>::new());
    assert_eq!(extract_tcp_flags(0x02), vec![TcpFlag::SYN]);
    assert_eq!(extract_tcp_flags(0x03), vec![TcpFlag::FIN, TcpFlag::SYN]);
    assert_eq!(
        extract_tcp_flags(0xFF),
        vec![
            TcpFlag::FIN,
            TcpFlag::SYN,
            TcpFlag::RST,
            TcpFlag::PSH,
            TcpFlag::ACK,
            TcpFlag::URG,
            TcpFlag::ECE,
            TcpFlag::CWR
        ]
    );
}

fn sample_packet(ts: u64, dst_port: u16, size: usize, flags: Vec<TcpFlag>) -> PacketData {
    PacketData {
        id: ts as u128,
        timestamp_ms: ts,
        raw_data: Vec::new(),
        parsed: ParsedPacket {
            src_ip: IpAddress::V4(192, 168, 1, 10),
            dst_ip: IpAddress::V4(10, 0, 0, 1),
            src_port: Some(40000),
            dst_port: Some(dst_port),
            protocol: Protocol::TCP,
            size,
            flags,
        },
    }
}

#[test]
fn flow_accounting_and_key() {
    let mut table = FlowTable::new();
    table.upsert(sample_packet(0, 80, 100, vec![TcpFlag::SYN]), 0);
    table.upsert(sample_packet(500, 80, 250, vec![TcpFlag::ACK]), 500);
    let flow = &table.flows[0];
    assert_eq!(flow.packets.len(), 2);
    assert_eq!(flow.byte_count, 350);
    assert_eq!(flow.start_time_ms, 0);
    assert_eq!(flow.last_seen_ms, 500);
    assert_eq!(flow.flags_seen, vec![TcpFlag::SYN, TcpFlag::ACK]);
    assert_eq!(
        flow.flow_key(),
        "192.168.1.10:Some(40000)-10.0.0.1:Some(80)-TCP"
    );
}

#[test]
fn flow_key_renders_none_and_other_protocol() {
    let p = ParsedPacket {
        src_ip: IpAddress::V4(1, 2, 3, 4),
        dst_ip: IpAddress::V6(0x20010DB8000000000000000000000001),
        src_port: None,
        dst_port: None,
        protocol: Protocol::Other(99),
        size: 0,
        flags: Vec::new(),
    };
    assert_eq!(
        p.flow_key(),
        "1.2.3.4:None-2001:0db8:0000:0000:0000:0000:0000:0001:None-Protocol(99)"
    );
}

#[test]
fn feature_extraction_counts() {
    let packets = vec![
        sample_packet(0, 80, 100, vec![TcpFlag::SYN]),
        sample_packet(250, 80, 200, vec![TcpFlag::ACK]),
        sample_packet(1000, 443, 300, vec![TcpFlag::ACK]),
    ];
    let f = FeatureExtractor::extract_flow_features(&packets).expect("non-empty");
    assert_eq!(f.packet_count, 3);
    assert_eq!(f.byte_count, 600);
    assert_eq!(f.duration_ms, 1000);
    assert_eq!(f.inter_arrival_ms, vec![250, 750]);
    assert_eq!(f.sizes, vec![100, 200, 300]);
    assert_eq!(f.protocol_counts, vec![(Protocol::TCP, 3)]);
    assert_eq!(f.port_counts, vec![(80, 2), (443, 1)]);
    assert_eq!(
        f.flag_patterns,
        vec![TcpFlag::SYN, TcpFlag::ACK, TcpFlag::ACK]
    );
    let empty: Vec<PacketData> = Vec::new();
    assert!(FeatureExtractor::extract_flow_features(&empty).is_err());
}

#[test]
fn enqueue_policy_counts_then_drops() {
    let mut stats = SystemStats::new(0);
    let mut queue = PacketQueue::new(2);
    assert!(enqueue_packet(&mut stats, &mut queue, sample_packet(0, 80, 10, vec![]), 0));
    assert!(enqueue_packet(&mut stats, &mut queue, sample_packet(1, 80, 10, vec![]), 1));
    assert!(!enqueue_packet(&mut stats, &mut queue, sample_packet(2, 80, 10, vec![]), 2));
    assert_eq!(queue.len(), 2);
    // The counters moved even for the dropped packet.
    assert_eq!(stats.packets_processed, 3);
    assert_eq!(stats.bytes_processed, 30);
}

#[test]
fn simulated_batch_is_plausible() {
    for _ in 0..20 {
        let batch = SimulatedCapture::generate_traffic_batch(7);
        assert!(batch.len() >= 2 && batch.len() <= 25);
        for p in batch.iter() {
            assert_eq!(p.timestamp_ms, 7);
            assert!(p.parsed.size >= 64 && p.parsed.size <= 1500);
        }
    }
}

#[test]
fn simulated_suspicious_patterns() {
    for _ in 0..30 {
        let burst = SimulatedCapture::generate_suspicious_traffic(3);
        for p in burst.iter() {
            assert_eq!(p.parsed.protocol, Protocol::TCP);
            assert_eq!(p.timestamp_ms, 3);
        }
        match burst.len() {
            9 => {
                // The port-scan burst: one source probing the well-known
                // ports of 192.168.1.100 with bare SYNs.
                let ports: Vec<u16> =
                    burst.iter().map(|p| p.parsed.dst_port.unwrap()).collect();
                assert_eq!(ports, vec![21, 22, 23, 25, 80, 443, 3306, 3389, 8080]);
                for p in burst.iter() {
                    assert_eq!(p.parsed.size, 64);
                    assert_eq!(p.parsed.flags, vec![TcpFlag::SYN]);
                    assert_eq!(p.parsed.src_ip, burst[0].parsed.src_ip);
                    assert_eq!(p.parsed.dst_ip, IpAddress::V4(192, 168, 1, 100));
                }
            }
            20 => {
                // The volumetric burst: large packets to one host's port 80.
                for p in burst.iter() {
                    assert_eq!(p.parsed.size, 1400);
                    assert_eq!(p.parsed.flags, vec![TcpFlag::ACK, TcpFlag::PSH]);
                    assert_eq!(p.parsed.dst_ip, burst[0].parsed.dst_ip);
                    assert_eq!(p.parsed.dst_port, Some(80));
                }
            }
            1 => {
                // The illegal SYN+FIN single.
                assert_eq!(burst[0].parsed.size, 64);
                assert_eq!(burst[0].parsed.flags, vec![TcpFlag::SYN, TcpFlag::FIN]);
            }
            other => panic!("unexpected burst length {other}"),
        }
    }
}

#[test]
fn simulated_normal_packets_have_service_shape() {
    for _ in 0..20 {
        let batch = SimulatedCapture::generate_traffic_batch(5);
        // The batch opens with normal packets: each addressed to a port,
        // with plausible TCP flag sets and none on other protocols.
        for p in batch.iter().take(2) {
            assert!(p.parsed.dst_port.is_some());
            assert!(p.parsed.src_port.unwrap() >= 1024);
            match p.parsed.protocol {
                Protocol::TCP => {
                    let f = &p.parsed.flags;
                    assert!(
                        *f == vec![TcpFlag::SYN]
                            || *f == vec![TcpFlag::ACK]
                            || *f == vec![TcpFlag::SYN, TcpFlag::ACK]
                            || *f == vec![TcpFlag::ACK, TcpFlag::PSH]
                    );
                }
                Protocol::UDP | Protocol::ICMP => assert!(p.parsed.flags.is_empty()),
                Protocol::Other(_) => panic!("normal packets use known protocols"),
            }
        }
    }
}

#[test]
fn interface_selection_prefers_exact_then_wireless() {
    let devices = vec![
        ("lo".to_string(), Some("Loopback adapter".to_string())),
        ("wlan0".to_string(), Some("Intel WIRELESS-AC 9560".to_string())),
        ("eth0".to_string(), Some("Ethernet adapter".to_string())),
    ];
    // Exact name wins.
    assert_eq!(select_interface(&devices, &"eth0".to_string()), Some(2));
    // Otherwise the wireless description, found case-insensitively.
    assert_eq!(select_interface(&devices, &"Wi-Fi".to_string()), Some(1));
    // Without a wireless adapter, the first non-loopback device.
    let wired = vec![
        ("NPF_Loopback".to_string(), None),
        ("bt0".to_string(), Some("Bluetooth Device (PAN)".to_string())),
        ("eth1".to_string(), Some("Realtek PCIe GbE".to_string())),
    ];
    assert_eq!(select_interface(&wired, &"Wi-Fi".to_string()), Some(2));
    // Nothing suitable at all.
    let none = vec![("NPF_Loopback".to_string(), None)];
    assert_eq!(select_interface(&none, &"Wi-Fi".to_string()), None);
}

#[test]
fn capture_error_counter_aborts_at_limit() {
    let mut counter = CaptureErrorCounter::new();
    for _ in 0..99 {
        assert!(!counter.record_error());
    }
    assert!(counter.record_error());
    counter.record_success();
    assert_eq!(counter.consecutive, 0);
    assert!(!counter.record_error());
}

#[test]
fn top_talkers_bounded_and_sorted() {
    let mut stats = SystemStats::new(0);
    for i in 0..30u8 {
        let src = IpAddress::V4(10, 0, 0, i);
        let dst = IpAddress::V4(10, 0, 1, i);
        stats.update_top_talkers(src, dst, (i as u64 + 1) * 10);
    }
    assert!(stats.top_talkers.len() <= 20);
    for w in stats.top_talkers.windows(2) {
        if stats.top_talkers.len() == 10 {
            assert!(w[0].1 >= w[1].1);
        }
    }
}
