//! Core data types: protocols, severities, threat kinds, addresses, packets,
//! alerts and configuration.

use vstd::prelude::*;

use crate::text::{dec_text, hex4_text, push_dec, push_hex4};

verus! {

use vstd::std_specs::cmp::PartialOrdSpec;
use vstd::string::StringExecFns;

/// Network protocol of a captured packet.
#[derive(Clone, Copy, Debug, PartialEq, Eq, Structural, Hash)]
pub enum Protocol {
    TCP,
    UDP,
    ICMP,
    Other(u8),
}

/// Display text of a protocol, as it appears inside flow keys.
pub open spec fn protocol_text(p: Protocol) -> Seq<char> {
    match p {
        Protocol::TCP => "TCP"@,
        Protocol::UDP => "UDP"@,
        Protocol::ICMP => "ICMP"@,
        Protocol::Other(n) => "Protocol("@ + dec_text(n as nat) + ")"@,
    }
}

impl Protocol {
    /// Append this protocol's display text to a string.
    pub fn push_text(&self, s: &mut String)
        ensures
            final(s)@ == old(s)@ + protocol_text(*self),
    {
        match self {
            Protocol::TCP => s.append("TCP"),
            Protocol::UDP => s.append("UDP"),
            Protocol::ICMP => s.append("ICMP"),
            Protocol::Other(n) => {
                s.append("Protocol(");
                push_dec(s, *n as u64);
                s.append(")");
                proof {
                    assert(s@ =~= old(s)@ + protocol_text(*self));
                }
            },
        }
    }

    /// Display text of this protocol as an owned string.
    pub fn to_text(&self) -> (r: String)
        ensures
            r@ == protocol_text(*self),
    {
        let mut s = String::new();
        self.push_text(&mut s);
        proof {
            assert(s@ =~= protocol_text(*self));
        }
        s
    }
}

/// Threat severity grades, from least to most serious.
#[derive(Clone, Copy, Debug, PartialEq, Eq, Structural, Hash)]
pub enum Severity {
    Low,
    Medium,
    High,
    Critical,
}

/// Display text of a severity grade.
pub open spec fn severity_text(sv: Severity) -> Seq<char> {
    match sv {
        Severity::Low => "Low"@,
        Severity::Medium => "Medium"@,
        Severity::High => "High"@,
        Severity::Critical => "Critical"@,
    }
}

impl Severity {
    /// Numeric rank witnessing the order Low < Medium < High < Critical.
    pub open spec fn rank(self) -> int {
        match self {
            Severity::Low => 0,
            Severity::Medium => 1,
            Severity::High => 2,
            Severity::Critical => 3,
        }
    }

    pub fn rank_u8(&self) -> (r: u8)
        ensures
            r as int == self.rank(),
    {
        match self {
            Severity::Low => 0,
            Severity::Medium => 1,
            Severity::High => 2,
            Severity::Critical => 3,
        }
    }

    /// Display text of this severity grade.
    pub fn name(&self) -> (r: &'static str)
        ensures
            r@ == severity_text(*self),
    {
        match self {
            Severity::Low => "Low",
            Severity::Medium => "Medium",
            Severity::High => "High",
            Severity::Critical => "Critical",
        }
    }
}

impl PartialOrd for Severity {
    fn partial_cmp(&self, other: &Severity) -> (r: Option<core::cmp::Ordering>) {
        let a = self.rank_u8();
        let b = other.rank_u8();
        if a < b {
            Some(core::cmp::Ordering::Less)
        } else if a == b {
            Some(core::cmp::Ordering::Equal)
        } else {
            Some(core::cmp::Ordering::Greater)
        }
    }
}

impl vstd::std_specs::cmp::PartialOrdSpecImpl for Severity {
    open spec fn obeys_partial_cmp_spec() -> bool {
        true
    }

    open spec fn partial_cmp_spec(&self, other: &Severity) -> Option<core::cmp::Ordering> {
        if self.rank() < other.rank() {
            Some(core::cmp::Ordering::Less)
        } else if self.rank() == other.rank() {
            Some(core::cmp::Ordering::Equal)
        } else {
            Some(core::cmp::Ordering::Greater)
        }
    }
}

/// Law: the four severity grades are totally ordered, with
/// Low < Medium < High < Critical; the order agrees with `rank`,
/// is antisymmetric and transitive, and relates every pair.
pub proof fn lemma_severity_total_order()
    ensures
        forall|a: Severity, b: Severity| #[trigger] a.partial_cmp_spec(&b) is Some,
        forall|a: Severity, b: Severity|
            #[trigger] a.partial_cmp_spec(&b) == Some(core::cmp::Ordering::Equal) <==> a == b,
        forall|a: Severity, b: Severity|
            #[trigger] a.partial_cmp_spec(&b) == Some(core::cmp::Ordering::Less) <==> b.rank()
                > a.rank(),
        forall|a: Severity, b: Severity|
            a.partial_cmp_spec(&b) == Some(core::cmp::Ordering::Less)
                <==> #[trigger] b.partial_cmp_spec(&a) == Some(core::cmp::Ordering::Greater),
        Severity::Low.partial_cmp_spec(&Severity::Medium) == Some(core::cmp::Ordering::Less),
        Severity::Medium.partial_cmp_spec(&Severity::High) == Some(core::cmp::Ordering::Less),
        Severity::High.partial_cmp_spec(&Severity::Critical) == Some(core::cmp::Ordering::Less),
{
}

/// Kinds of threats the detectors can report.
#[derive(Clone, Copy, Debug, PartialEq, Eq, Structural, Hash)]
pub enum ThreatType {
    PortScan,
    DDoS,
    Anomalous,
    Suspicious,
    MalformedPacket,
    UnusualTraffic,
    PotentialIntrusion,
}

/// Display text of a threat kind.
pub open spec fn threat_type_text(t: ThreatType) -> Seq<char> {
    match t {
        ThreatType::PortScan => "Port Scan"@,
        ThreatType::DDoS => "DDoS Attack"@,
        ThreatType::Anomalous => "Anomalous Behavior"@,
        ThreatType::Suspicious => "Suspicious Activity"@,
        ThreatType::MalformedPacket => "Malformed Packet"@,
        ThreatType::UnusualTraffic => "Unusual Traffic Pattern"@,
        ThreatType::PotentialIntrusion => "Potential Intrusion"@,
    }
}

impl ThreatType {
    /// Display text of this threat kind.
    pub fn name(&self) -> (r: &'static str)
        ensures
            r@ == threat_type_text(*self),
    {
        match self {
            ThreatType::PortScan => "Port Scan",
            ThreatType::DDoS => "DDoS Attack",
            ThreatType::Anomalous => "Anomalous Behavior",
            ThreatType::Suspicious => "Suspicious Activity",
            ThreatType::MalformedPacket => "Malformed Packet",
            ThreatType::UnusualTraffic => "Unusual Traffic Pattern",
            ThreatType::PotentialIntrusion => "Potential Intrusion",
        }
    }
}

/// An IP address held as plain values: four octets for version 4, one
/// 128-bit value for version 6.
#[derive(Clone, Copy, Debug, PartialEq, Eq, Structural, Hash)]
pub enum IpAddress {
    V4(u8, u8, u8, u8),
    V6(u128),
}

/// Display text of an address: dotted decimal for version 4; eight
/// fixed-width hexadecimal groups separated by colons for version 6.
pub open spec fn ip_text(ip: IpAddress) -> Seq<char> {
    match ip {
        IpAddress::V4(a, b, c, d) => dec_text(a as nat) + "."@ + dec_text(b as nat) + "."@
            + dec_text(c as nat) + "."@ + dec_text(d as nat),
        IpAddress::V6(x) => hex4_text((x / 0x10000000000000000000000000000 % 0x10000) as nat) + ":"@
            + hex4_text((x / 0x1000000000000000000000000 % 0x10000) as nat) + ":"@ + hex4_text(
            (x / 0x100000000000000000000 % 0x10000) as nat,
        ) + ":"@ + hex4_text((x / 0x10000000000000000 % 0x10000) as nat) + ":"@ + hex4_text(
            (x / 0x1000000000000 % 0x10000) as nat,
        ) + ":"@ + hex4_text((x / 0x100000000 % 0x10000) as nat) + ":"@ + hex4_text(
            (x / 0x10000 % 0x10000) as nat,
        ) + ":"@ + hex4_text((x % 0x10000) as nat),
    }
}

impl IpAddress {
    /// Append this address's display text to a string.
    #[verifier::rlimit(60)]
    pub fn push_text(&self, s: &mut String)
        ensures
            final(s)@ == old(s)@ + ip_text(*self),
    {
        match self {
            IpAddress::V4(a, b, c, d) => {
                push_dec(s, *a as u64);
                s.append(".");
                push_dec(s, *b as u64);
                s.append(".");
                push_dec(s, *c as u64);
                s.append(".");
                push_dec(s, *d as u64);
                proof {
                    assert(s@ =~= old(s)@ + ip_text(*self));
                }
            },
            IpAddress::V6(x) => {
                let x = *x;
                push_hex4(s, (x / 0x10000000000000000000000000000 % 0x10000) as u16);
                s.append(":");
                push_hex4(s, (x / 0x1000000000000000000000000 % 0x10000) as u16);
                s.append(":");
                push_hex4(s, (x / 0x100000000000000000000 % 0x10000) as u16);
                s.append(":");
                push_hex4(s, (x / 0x10000000000000000 % 0x10000) as u16);
                s.append(":");
                push_hex4(s, (x / 0x1000000000000 % 0x10000) as u16);
                s.append(":");
                push_hex4(s, (x / 0x100000000 % 0x10000) as u16);
                s.append(":");
                push_hex4(s, (x / 0x10000 % 0x10000) as u16);
                s.append(":");
                push_hex4(s, (x % 0x10000) as u16);
                proof {
                    assert(s@ =~= old(s)@ + ip_text(*self));
                }
            },
        }
    }

    /// Display text of this address as an owned string.
    pub fn to_text(&self) -> (r: String)
        ensures
            r@ == ip_text(*self),
    {
        let mut s = String::new();
        self.push_text(&mut s);
        proof {
            assert(s@ =~= ip_text(*self));
        }
        s
    }
}

/// One observed TCP flag.
#[derive(Clone, Copy, Debug, PartialEq, Eq, Structural, Hash)]
pub enum TcpFlag {
    FIN,
    SYN,
    RST,
    PSH,
    ACK,
    URG,
    ECE,
    CWR,
}

/// Display text of one flag.
pub open spec fn flag_text(f: TcpFlag) -> Seq<char> {
    match f {
        TcpFlag::FIN => "FIN"@,
        TcpFlag::SYN => "SYN"@,
        TcpFlag::RST => "RST"@,
        TcpFlag::PSH => "PSH"@,
        TcpFlag::ACK => "ACK"@,
        TcpFlag::URG => "URG"@,
        TcpFlag::ECE => "ECE"@,
        TcpFlag::CWR => "CWR"@,
    }
}

/// Flags joined with commas, in sequence order.
pub open spec fn flags_join_text(fs: Seq<TcpFlag>) -> Seq<char>
    decreases fs.len(),
{
    if fs.len() == 0 {
        Seq::<char>::empty()
    } else if fs.len() == 1 {
        flag_text(fs[0])
    } else {
        flags_join_text(fs.drop_last()) + ","@ + flag_text(fs.last())
    }
}

impl TcpFlag {
    /// Display text of this flag.
    pub fn name(&self) -> (r: &'static str)
        ensures
            r@ == flag_text(*self),
    {
        match self {
            TcpFlag::FIN => "FIN",
            TcpFlag::SYN => "SYN",
            TcpFlag::RST => "RST",
            TcpFlag::PSH => "PSH",
            TcpFlag::ACK => "ACK",
            TcpFlag::URG => "URG",
            TcpFlag::ECE => "ECE",
            TcpFlag::CWR => "CWR",
        }
    }
}

/// Append the comma-joined text of a flag list to a string.
pub fn push_flags_text(s: &mut String, fs: &Vec<TcpFlag>)
    ensures
        final(s)@ == old(s)@ + flags_join_text(fs@),
{
    let mut i: usize = 0;
    while i < fs.len()
        invariant
            i <= fs.len(),
            s@ == old(s)@ + flags_join_text(fs@.take(i as int)),
        decreases fs.len() - i,
    {
        if i > 0 {
            s.append(",");
        }
        s.append(fs[i].name());
        proof {
            assert(fs@.take(i + 1 as int).drop_last() =~= fs@.take(i as int));
            assert(fs@.take(i + 1 as int).last() == fs@[i as int]);
            assert(s@ =~= old(s)@ + flags_join_text(fs@.take(i + 1 as int)));
        }
        i = i + 1;
    }
    proof {
        assert(fs@.take(fs@.len() as int) =~= fs@);
    }
}

/// True when a flag list holds no flag twice.
pub open spec fn flags_distinct(fs: Seq<TcpFlag>) -> bool {
    forall|i: int, j: int| 0 <= i < j < fs.len() ==> fs[i] != fs[j]
}

/// One decoded packet: endpoints, protocol, wire size and observed flags.
#[derive(Clone, Debug)]
#[verifier::ext_equal]
pub struct ParsedPacket {
    pub src_ip: IpAddress,
    pub dst_ip: IpAddress,
    pub src_port: Option<u16>,
    pub dst_port: Option<u16>,
    pub protocol: Protocol,
    pub size: usize,
    pub flags: Vec<TcpFlag>,
}

impl ParsedPacket {
    /// A packet is well formed when it never lists the same flag twice.
    pub open spec fn well_formed(self) -> bool {
        flags_distinct(self.flags@)
    }
}

/// A captured packet: identity, capture instant and decoded form.
#[derive(Clone, Debug)]
#[verifier::ext_equal]
pub struct PacketData {
    /// Opaque 128-bit packet identity.
    pub id: u128,
    /// Capture wall-clock instant, in milliseconds.
    pub timestamp_ms: u64,
    /// Raw frame bytes, kept for later correlation.
    pub raw_data: Vec<u8>,
    pub parsed: ParsedPacket,
}

impl PacketData {
    pub open spec fn well_formed(self) -> bool {
        self.parsed.well_formed()
    }
}

/// Display text of an optional port, as it appears inside flow keys.
pub open spec fn port_text(p: Option<u16>) -> Seq<char> {
    match p {
        Some(n) => "Some("@ + dec_text(n as nat) + ")"@,
        None => "None"@,
    }
}

/// Append the text of an optional port to a string.
pub fn push_port_text(s: &mut String, p: &Option<u16>)
    ensures
        final(s)@ == old(s)@ + port_text(*p),
{
    match p {
        Some(n) => {
            s.append("Some(");
            push_dec(s, *n as u64);
            s.append(")");
            proof {
                assert(s@ =~= old(s)@ + port_text(*p));
            }
        },
        None => {
            s.append("None");
        },
    }
}

/// The directional flow key:
/// `<src_ip>:<src_port>-<dst_ip>:<dst_port>-<protocol>`.
pub open spec fn flow_key_text(
    src_ip: IpAddress,
    src_port: Option<u16>,
    dst_ip: IpAddress,
    dst_port: Option<u16>,
    protocol: Protocol,
) -> Seq<char> {
    ip_text(src_ip) + ":"@ + port_text(src_port) + "-"@ + ip_text(dst_ip) + ":"@ + port_text(
        dst_port,
    ) + "-"@ + protocol_text(protocol)
}

impl ParsedPacket {
    /// The flow key of the conversation this packet belongs to.
    pub fn flow_key(&self) -> (r: String)
        ensures
            r@ == flow_key_text(self.src_ip, self.src_port, self.dst_ip, self.dst_port,
                self.protocol,
            ),
    {
        let mut s = String::new();
        self.src_ip.push_text(&mut s);
        s.append(":");
        push_port_text(&mut s, &self.src_port);
        s.append("-");
        self.dst_ip.push_text(&mut s);
        s.append(":");
        push_port_text(&mut s, &self.dst_port);
        s.append("-");
        self.protocol.push_text(&mut s);
        proof {
            assert(s@ =~= flow_key_text(self.src_ip, self.src_port, self.dst_ip, self.dst_port,
                self.protocol,
            ));
        }
        s
    }
}

/// Why a threat was reported: indicators, weighted features (in basis
/// points of importance), similar incidents and recommended actions.
#[derive(Clone, Debug)]
pub struct ThreatExplanation {
    pub primary_indicators: Vec<String>,
    pub feature_importance: Vec<(String, u32)>,
    pub similar_incidents: Vec<String>,
    pub recommended_actions: Vec<String>,
}

/// A reported threat. Confidence and anomaly score are held in basis
/// points: 10000 stands for certainty.
#[derive(Clone, Debug)]
pub struct ThreatAlert {
    /// Opaque 128-bit alert identity.
    pub id: u128,
    /// Emission wall-clock instant, in milliseconds.
    pub timestamp_ms: u64,
    pub severity: Severity,
    pub threat_type: ThreatType,
    pub confidence_bp: u32,
    pub anomaly_score_bp: u32,
    pub source_ip: IpAddress,
    pub target_ip: Option<IpAddress>,
    pub affected_ports: Vec<u16>,
    pub description: String,
    pub explanation: ThreatExplanation,
    pub raw_packets: Vec<u128>,
}

impl ThreatAlert {
    /// Every alert names at least one contributing packet and keeps its
    /// confidence and score inside [0, 10000] basis points.
    pub open spec fn well_formed(self) -> bool {
        &&& self.raw_packets@.len() > 0
        &&& self.confidence_bp <= 10000
        &&& self.anomaly_score_bp <= 10000
    }
}


/// Ghost image of an explanation: every list seen through its view.
#[verifier::ext_equal]
pub ghost struct ExplanationView {
    pub primary_indicators: Seq<Seq<char>>,
    pub feature_importance: Seq<(Seq<char>, u32)>,
    pub similar_incidents: Seq<Seq<char>>,
    pub recommended_actions: Seq<Seq<char>>,
}

impl View for ThreatExplanation {
    type V = ExplanationView;

    open spec fn view(&self) -> ExplanationView {
        ExplanationView {
            primary_indicators: self.primary_indicators.deep_view(),
            feature_importance: self.feature_importance@.map_values(
                |p: (String, u32)| (p.0@, p.1),
            ),
            similar_incidents: self.similar_incidents.deep_view(),
            recommended_actions: self.recommended_actions.deep_view(),
        }
    }
}

/// Ghost image of an alert: every list and string seen through its view.
#[verifier::ext_equal]
pub ghost struct AlertView {
    pub id: u128,
    pub timestamp_ms: u64,
    pub severity: Severity,
    pub threat_type: ThreatType,
    pub confidence_bp: u32,
    pub anomaly_score_bp: u32,
    pub source_ip: IpAddress,
    pub target_ip: Option<IpAddress>,
    pub affected_ports: Seq<u16>,
    pub description: Seq<char>,
    pub explanation: ExplanationView,
    pub raw_packets: Seq<u128>,
}

impl View for ThreatAlert {
    type V = AlertView;

    open spec fn view(&self) -> AlertView {
        AlertView {
            id: self.id,
            timestamp_ms: self.timestamp_ms,
            severity: self.severity,
            threat_type: self.threat_type,
            confidence_bp: self.confidence_bp,
            anomaly_score_bp: self.anomaly_score_bp,
            source_ip: self.source_ip,
            target_ip: self.target_ip,
            affected_ports: self.affected_ports@,
            description: self.description@,
            explanation: self.explanation@,
            raw_packets: self.raw_packets@,
        }
    }
}

/// Copy a list of strings element by element.
pub fn copy_strings(v: &Vec<String>) -> (r: Vec<String>)
    ensures
        r.deep_view() == v.deep_view(),
        r@.len() == v@.len(),
{
    let mut out: Vec<String> = Vec::new();
    let mut i: usize = 0;
    while i < v.len()
        invariant
            i <= v@.len(),
            out@.len() == i,
            forall|j: int| 0 <= j < i ==> out@[j]@ == v@[j]@,
        decreases v@.len() - i,
    {
        out.push(v[i].clone());
        i = i + 1;
    }
    proof {
        assert(out.deep_view() =~~= v.deep_view());
    }
    out
}

/// Copy a list of weighted names element by element.
pub fn copy_weighted(v: &Vec<(String, u32)>) -> (r: Vec<(String, u32)>)
    ensures
        r@.map_values(|p: (String, u32)| (p.0@, p.1)) == v@.map_values(
            |p: (String, u32)| (p.0@, p.1),
        ),
{
    let mut out: Vec<(String, u32)> = Vec::new();
    let mut i: usize = 0;
    while i < v.len()
        invariant
            i <= v@.len(),
            out@.len() == i,
            forall|j: int| 0 <= j < i ==> out@[j].0@ == v@[j].0@ && out@[j].1 == v@[j].1,
        decreases v@.len() - i,
    {
        let entry = &v[i];
        out.push((entry.0.clone(), entry.1));
        i = i + 1;
    }
    proof {
        assert(out@.map_values(|p: (String, u32)| (p.0@, p.1)) =~~= v@.map_values(
            |p: (String, u32)| (p.0@, p.1),
        ));
    }
    out
}

/// Copy a list of ports element by element.
pub fn copy_port_list(v: &Vec<u16>) -> (r: Vec<u16>)
    ensures
        r@ == v@,
{
    let mut out: Vec<u16> = Vec::new();
    let mut i: usize = 0;
    while i < v.len()
        invariant
            i <= v@.len(),
            out@ =~= v@.take(i as int),
        decreases v@.len() - i,
    {
        out.push(v[i]);
        proof {
            assert(out@ =~= v@.take(i + 1 as int));
        }
        i = i + 1;
    }
    proof {
        assert(out@ =~= v@);
    }
    out
}

/// Copy a list of packet identities element by element.
pub fn copy_id_list(v: &Vec<u128>) -> (r: Vec<u128>)
    ensures
        r@ == v@,
{
    let mut out: Vec<u128> = Vec::new();
    let mut i: usize = 0;
    while i < v.len()
        invariant
            i <= v@.len(),
            out@ =~= v@.take(i as int),
        decreases v@.len() - i,
    {
        out.push(v[i]);
        proof {
            assert(out@ =~= v@.take(i + 1 as int));
        }
        i = i + 1;
    }
    proof {
        assert(out@ =~= v@);
    }
    out
}

/// Copy an alert; the copy shows the same view.
pub fn clone_alert(a: &ThreatAlert) -> (r: ThreatAlert)
    ensures
        r@ == a@,
{
    let r = ThreatAlert {
        id: a.id,
        timestamp_ms: a.timestamp_ms,
        severity: a.severity,
        threat_type: a.threat_type,
        confidence_bp: a.confidence_bp,
        anomaly_score_bp: a.anomaly_score_bp,
        source_ip: a.source_ip,
        target_ip: a.target_ip,
        affected_ports: copy_port_list(&a.affected_ports),
        description: a.description.clone(),
        explanation: ThreatExplanation {
            primary_indicators: copy_strings(&a.explanation.primary_indicators),
            feature_importance: copy_weighted(&a.explanation.feature_importance),
            similar_incidents: copy_strings(&a.explanation.similar_incidents),
            recommended_actions: copy_strings(&a.explanation.recommended_actions),
        },
        raw_packets: copy_id_list(&a.raw_packets),
    };
    proof {
        assert(r@ =~~= a@);
    }
    r
}


/// The library's error kinds, mirroring the pipeline's error policy.
#[derive(Clone, Copy, Debug, PartialEq, Eq, Structural)]
pub enum IdsError {
    /// Opening the live capture failed; the caller falls back to simulation.
    CaptureInitFailed,
    /// A frame could not be decoded; it is dropped and counted.
    DecodeError,
    /// The bounded packet queue is full; the packet is dropped.
    QueueFull,
    /// The model could not score a flow; it is treated as benign.
    InferenceError,
    /// No subscriber received a published alert.
    AlertPublishError,
    /// The system was asked to start twice.
    AlreadyRunning,
    /// The system was asked for work while stopped.
    NotRunning,
    /// A port number above the 16-bit range.
    InvalidPort(u32),
}

/// Display text of an error.
pub open spec fn error_text(e: IdsError) -> Seq<char> {
    match e {
        IdsError::CaptureInitFailed => "capture initialization failed"@,
        IdsError::DecodeError => "packet decode error"@,
        IdsError::QueueFull => "packet queue full"@,
        IdsError::InferenceError => "model inference error"@,
        IdsError::AlertPublishError => "alert publish error"@,
        IdsError::AlreadyRunning => "system already running"@,
        IdsError::NotRunning => "system not running"@,
        IdsError::InvalidPort(n) => "Port number "@ + dec_text(n as nat)
            + " exceeds maximum (65535)"@,
    }
}

impl IdsError {
    /// Display text of this error as an owned string.
    pub fn message(&self) -> (r: String)
        ensures
            r@ == error_text(*self),
    {
        match self {
            IdsError::CaptureInitFailed => String::from_str("capture initialization failed"),
            IdsError::DecodeError => String::from_str("packet decode error"),
            IdsError::QueueFull => String::from_str("packet queue full"),
            IdsError::InferenceError => String::from_str("model inference error"),
            IdsError::AlertPublishError => String::from_str("alert publish error"),
            IdsError::AlreadyRunning => String::from_str("system already running"),
            IdsError::NotRunning => String::from_str("system not running"),
            IdsError::InvalidPort(n) => {
                let mut s = String::new();
                s.append("Port number ");
                push_dec(&mut s, *n as u64);
                s.append(" exceeds maximum (65535)");
                proof {
                    assert(s@ =~= error_text(*self));
                }
                s
            },
        }
    }
}

/// Machine-learning sub-configuration.
#[derive(Clone, Debug)]
pub struct MLConfig {
    /// Model update frequency, in seconds.
    pub update_frequency: u64,
    /// Batch size for training.
    pub batch_size: usize,
    /// Learning rate, in millionths.
    pub learning_rate_micro: u32,
    /// Feature window size.
    pub window_size: usize,
}

impl Default for MLConfig {
    fn default() -> (r: MLConfig)
        ensures
            r.update_frequency == 300,
            r.batch_size == 128,
            r.learning_rate_micro == 1000,
            r.window_size == 100,
    {
        MLConfig { update_frequency: 300, batch_size: 128, learning_rate_micro: 1000, window_size: 100 }
    }
}

/// Alert threshold configuration, in basis points where a share is meant.
#[derive(Clone, Debug)]
pub struct AlertThresholds {
    pub anomaly_threshold_bp: u32,
    pub min_confidence_bp: u32,
    pub max_alerts_per_minute: u32,
}

impl Default for AlertThresholds {
    fn default() -> (r: AlertThresholds)
        ensures
            r.anomaly_threshold_bp == 8000,
            r.min_confidence_bp == 7000,
            r.max_alerts_per_minute == 10,
    {
        AlertThresholds { anomaly_threshold_bp: 8000, min_confidence_bp: 7000, max_alerts_per_minute: 10 }
    }
}

/// System configuration, immutable after construction.
#[derive(Clone, Debug)]
pub struct SystemConfig {
    /// Network interface to monitor.
    pub interface: String,
    /// Detection sensitivity, in basis points.
    pub sensitivity_bp: u32,
    /// Maximum packets per second to process.
    pub max_pps: u64,
    pub ml_config: MLConfig,
    pub alert_thresholds: AlertThresholds,
    /// Use the simulated packet source.
    pub use_simulation: bool,
}

impl Default for SystemConfig {
    fn default() -> (r: SystemConfig)
        ensures
            r.interface@ == "Wi-Fi"@,
            r.sensitivity_bp == 7000,
            r.max_pps == 10000,
            r.ml_config.update_frequency == 300,
            r.alert_thresholds.anomaly_threshold_bp == 8000,
            !r.use_simulation,
    {
        SystemConfig {
            interface: String::from_str("Wi-Fi"),
            sensitivity_bp: 7000,
            max_pps: 10000,
            ml_config: MLConfig::default(),
            alert_thresholds: AlertThresholds::default(),
            use_simulation: false,
        }
    }
}


/// A uniform wrapper for programmatic responses handed to external
/// collaborators.
#[derive(Clone, Debug)]
pub struct ApiResponse<T> {
    pub success: bool,
    pub data: Option<T>,
    pub error: Option<String>,
    /// Emission wall-clock instant, in milliseconds.
    pub timestamp_ms: u64,
}

impl<T> ApiResponse<T> {
    /// A successful response carrying its data and no error.
    pub fn success(data: T) -> (r: ApiResponse<T>)
        ensures
            r.success,
            r.data matches Some(d) && d == data,
            r.error is None,
    {
        ApiResponse {
            success: true,
            data: Some(data),
            error: None,
            timestamp_ms: crate::utils::current_timestamp_ms(),
        }
    }

    /// A failed response carrying its message and no data.
    pub fn error(message: &str) -> (r: ApiResponse<T>)
        ensures
            !r.success,
            r.data is None,
            r.error matches Some(m) && m@ == message@,
    {
        ApiResponse {
            success: false,
            data: None,
            error: Some(String::from_str(message)),
            timestamp_ms: crate::utils::current_timestamp_ms(),
        }
    }
}

/// One exchange in an assistant conversation.
#[derive(Clone, Debug)]
pub struct ChatMessage {
    pub role: String,
    pub content: String,
}

/// An assistant query handed in from a front end.
#[derive(Clone, Debug)]
pub struct AIQueryRequest {
    pub query: String,
    pub provider: String,
    pub conversation_history: Vec<ChatMessage>,
}

/// An assistant reply handed back to a front end.
#[derive(Clone, Debug)]
pub struct AIQueryResponse {
    pub response: String,
    pub model_used: String,
    pub tokens_used: Option<u32>,
}

} // verus!
