//! Rule-based threat detection: suspicious TCP flag combinations per flow,
//! and global port-scan and volumetric analysis over all active flows.

use vstd::prelude::*;

use crate::flow::{packet_key, FlowTable, NetworkFlow};
use crate::rng::new_uuid;
use crate::stats::{proto_lookup, sat_add, SystemStats};
use crate::text::{dec_text, pad3_text, push_dec, push_pad3};
use crate::types::{
    clone_alert, flags_join_text, flow_key_text, ip_text, push_flags_text, AlertView, IpAddress,
    PacketData, ParsedPacket, Protocol, Severity, ThreatAlert, ThreatExplanation, ThreatType,
    TcpFlag,
};

verus! {

use vstd::string::StringExecFns;

/// The identities of a packet sequence, in order.
pub open spec fn ids_of(ps: Seq<PacketData>) -> Seq<u128> {
    ps.map_values(|p: PacketData| p.id)
}

/// How many packets of a sequence carry the SYN flag.
pub open spec fn syn_packets(ps: Seq<PacketData>) -> int {
    ps.filter(|p: PacketData| p.parsed.flags@.contains(TcpFlag::SYN)).len() as int
}

/// The per-flow rule: a flow is suspicious when its flag union holds both
/// SYN and FIN, or when more than ten of its packets carry SYN.
pub open spec fn suspicious_condition(f: NetworkFlow) -> bool {
    ||| (f.flags_seen@.contains(TcpFlag::SYN) && f.flags_seen@.contains(TcpFlag::FIN))
    ||| syn_packets(f.packets@) > 10
}

/// Exact shape of the alert the suspicious-flags rule emits for a flow.
pub open spec fn is_suspicious_alert(f: NetworkFlow, a: ThreatAlert) -> bool {
    &&& a.severity == Severity::Medium
    &&& a.threat_type == ThreatType::Suspicious
    &&& a.confidence_bp == 6000
    &&& a.anomaly_score_bp == 6000
    &&& a.source_ip == f.src_ip
    &&& a.target_ip == Some(f.dst_ip)
    &&& a.affected_ports@ == match f.dst_port {
        Some(p) => seq![p],
        None => Seq::<u16>::empty(),
    }
    &&& a.description@ == "Suspicious TCP flag combination detected: "@ + flags_join_text(
        f.flags_seen@,
    )
    &&& a.raw_packets@ == ids_of(f.packets@)
    &&& suspicious_explanation(a.explanation, f)
}

/// Exact shape of the suspicious-flags explanation.
pub open spec fn suspicious_explanation(e: ThreatExplanation, f: NetworkFlow) -> bool {
    &&& e.primary_indicators@.len() == 2
    &&& e.primary_indicators@[0]@ == "Unusual flag combination: "@ + flags_join_text(f.flags_seen@)
    &&& e.primary_indicators@[1]@ == "Potential TCP stack fingerprinting"@
    &&& e.feature_importance@.len() == 2
    &&& e.feature_importance@[0].0@ == "flag_pattern"@
    &&& e.feature_importance@[0].1 == 8000
    &&& e.feature_importance@[1].0@ == "connection_behavior"@
    &&& e.feature_importance@[1].1 == 6000
    &&& e.similar_incidents@.len() == 1
    &&& e.similar_incidents@[0]@ == "TCP flag manipulation attempt"@
    &&& e.recommended_actions@.len() == 2
    &&& e.recommended_actions@[0]@ == "Monitor source IP for additional suspicious activity"@
    &&& e.recommended_actions@[1]@ == "Check firewall rules for flag filtering"@
}


/// Destination ports of the flows from one source, in flow order, with
/// repetitions.
pub open spec fn src_ports(s: Seq<NetworkFlow>, ip: IpAddress) -> Seq<u16>
    decreases s.len(),
{
    if s.len() == 0 {
        Seq::<u16>::empty()
    } else {
        let rest = src_ports(s.drop_last(), ip);
        if s.last().src_ip == ip {
            match s.last().dst_port {
                Some(p) => rest.push(p),
                None => rest,
            }
        } else {
            rest
        }
    }
}

/// Number of distinct destination ports contacted from one source.
pub open spec fn distinct_src_ports(s: Seq<NetworkFlow>, ip: IpAddress) -> int {
    src_ports(s, ip).to_set().len() as int
}

/// Packet identities of all flows from one source, in flow order.
pub open spec fn src_packet_ids(s: Seq<NetworkFlow>, ip: IpAddress) -> Seq<u128>
    decreases s.len(),
{
    if s.len() == 0 {
        Seq::<u128>::empty()
    } else {
        let rest = src_packet_ids(s.drop_last(), ip);
        if s.last().src_ip == ip {
            rest + ids_of(s.last().packets@)
        } else {
            rest
        }
    }
}

/// The port-scan severity ladder over the distinct-port count.
pub open spec fn scan_severity(n: int) -> Severity {
    if n > 20 {
        Severity::High
    } else if n > 10 {
        Severity::Medium
    } else {
        Severity::Low
    }
}

/// The port-scan confidence: one percent per distinct port, capped at
/// certainty.
pub open spec fn scan_confidence_bp(n: int) -> int {
    if n * 100 <= 10000 {
        n * 100
    } else {
        10000
    }
}

/// Flow `i` makes its source a port-scan candidate: it carries a
/// destination port and its source contacted at least five distinct ports.
pub open spec fn port_qualifies(s: Seq<NetworkFlow>, i: int) -> bool {
    s[i].dst_port is Some && distinct_src_ports(s, s[i].src_ip) >= 5
}

/// Exact shape of the port-scan explanation.
pub open spec fn port_scan_explanation(e: ThreatExplanation, n: int, conf_bp: int) -> bool {
    &&& e.primary_indicators@.len() == 2
    &&& e.primary_indicators@[0]@ == "Multiple port connections: "@ + dec_text(n as nat)
    &&& e.primary_indicators@[1]@ == "Sequential port access pattern"@
    &&& e.feature_importance@.len() == 2
    &&& e.feature_importance@[0].0@ == "unique_ports"@
    &&& e.feature_importance@[0].1 == conf_bp
    &&& e.feature_importance@[1].0@ == "connection_pattern"@
    &&& e.feature_importance@[1].1 == 8000
    &&& e.similar_incidents@.len() == 1
    &&& e.similar_incidents@[0]@ == "Known port scanning signature"@
    &&& e.recommended_actions@.len() == 3
    &&& e.recommended_actions@[0]@ == "Block source IP address"@
    &&& e.recommended_actions@[1]@ == "Monitor for further scanning activity"@
    &&& e.recommended_actions@[2]@ == "Check target systems for vulnerabilities"@
}

/// Exact shape of the alert the port-scan rule emits: it names the
/// qualifying source whose first port-bearing flow comes earliest, and
/// reports that source's ports and packets.
pub open spec fn is_port_scan_alert(s: Seq<NetworkFlow>, a: ThreatAlert) -> bool {
    exists|i: int|
        {
            &&& 0 <= i < s.len()
            &&& #[trigger] port_qualifies(s, i)
            &&& forall|j: int| 0 <= j < i ==> !port_qualifies(s, j)
            &&& ({
                let ip = s[i].src_ip;
                let n = distinct_src_ports(s, ip);
                &&& a.severity == scan_severity(n)
                &&& a.threat_type == ThreatType::PortScan
                &&& a.confidence_bp == scan_confidence_bp(n)
                &&& a.anomaly_score_bp == scan_confidence_bp(n)
                &&& a.source_ip == ip
                &&& a.target_ip == Some(s[0].dst_ip)
                &&& a.affected_ports@ == src_ports(s, ip)
                &&& a.description@ == "Port scan detected from "@ + ip_text(ip) + " targeting "@
                    + dec_text(n as nat) + " unique ports"@
                &&& port_scan_explanation(a.explanation, n, scan_confidence_bp(n))
                &&& a.raw_packets@ == src_packet_ids(s, ip)
            })
        }
}

/// Number of distinct values in a port list.
fn count_distinct_ports(v: &Vec<u16>) -> (r: usize)
    ensures
        r as int == v@.to_set().len(),
{
    proof {
        broadcast use vstd::seq_lib::seq_to_set_is_finite;

        assert(v@.take(0).to_set() =~= Set::<u16>::empty());
    }
    let mut count: usize = 0;
    let mut j: usize = 0;
    while j < v.len()
        invariant
            j <= v@.len(),
            count as int == v@.take(j as int).to_set().len(),
            count <= j,
            v@.take(j as int).to_set().finite(),
        decreases v@.len() - j,
    {
        proof {
            broadcast use vstd::seq_lib::seq_to_set_is_finite;

        }
        let mut seen_before = false;
        let mut k: usize = 0;
        while k < j
            invariant
                k <= j < v@.len(),
                seen_before <==> exists|t: int| 0 <= t < k && v@[t] == v@[j as int],
            decreases j - k,
        {
            let ghost k0 = k as int;
            if v[k] == v[j] {
                seen_before = true;
            }
            proof {
                if v@[k0] == v@[j as int] {
                    assert(0 <= k0 < k0 + 1 && v@[k0] == v@[j as int]);
                }
            }
            k = k + 1;
        }
        proof {
            let prefix = v@.take(j as int);
            let next = v@.take(j + 1 as int);
            assert(next =~= prefix.push(v@[j as int]));
            assert(next.to_set() =~= prefix.to_set().insert(v@[j as int])) by {
                assert forall|x: u16| next.to_set().contains(x) implies prefix.to_set().insert(
                    v@[j as int],
                ).contains(x) by {
                    let t = choose|t: int| 0 <= t < next.len() && next[t] == x;
                    if t < j {
                        assert(prefix[t] == x);
                        assert(prefix.contains(x));
                    }
                }
                assert forall|x: u16|
                    prefix.to_set().insert(v@[j as int]).contains(x) implies next.to_set().contains(
                    x,
                ) by {
                    if prefix.to_set().contains(x) {
                        let t = choose|t: int| 0 <= t < prefix.len() && prefix[t] == x;
                        assert(next[t] == x);
                    } else {
                        assert(next[j as int] == x);
                    }
                }
            }
            vstd::set::axiom_set_insert_len(prefix.to_set(), v@[j as int]);
            assert(seen_before <==> prefix.to_set().contains(v@[j as int])) by {
                if prefix.to_set().contains(v@[j as int]) {
                    let t = choose|t: int| 0 <= t < prefix.len() && prefix[t] == v@[j as int];
                    assert(0 <= t < j && v@[t] == v@[j as int]);
                }
                if seen_before {
                    let t = choose|t: int| 0 <= t < j && v@[t] == v@[j as int];
                    assert(prefix[t] == v@[j as int]);
                    assert(prefix.contains(v@[j as int]));
                }
            }
        }
        if !seen_before {
            count = count + 1;
        }
        j = j + 1;
    }
    proof {
        assert(v@.take(v@.len() as int) =~= v@);
    }
    count
}

/// Collect the identities of a flow's packets.
fn collect_ids(ps: &Vec<PacketData>) -> (r: Vec<u128>)
    ensures
        r@ == ids_of(ps@),
{
    let mut out: Vec<u128> = Vec::new();
    let mut i: usize = 0;
    while i < ps.len()
        invariant
            i <= ps@.len(),
            out@ =~= ids_of(ps@.take(i as int)),
        decreases ps@.len() - i,
    {
        out.push(ps[i].id);
        proof {
            assert(out@ =~= ids_of(ps@.take(i + 1 as int)));
        }
        i = i + 1;
    }
    proof {
        assert(ps@.take(ps@.len() as int) =~= ps@);
        assert(out@ =~= ids_of(ps@));
    }
    out
}

/// Count the packets of a flow that carry the SYN flag.
fn count_syn_packets(ps: &Vec<PacketData>) -> (r: usize)
    ensures
        r as int == syn_packets(ps@),
{
    let ghost pred = |p: PacketData| p.parsed.flags@.contains(TcpFlag::SYN);
    let mut count: usize = 0;
    let mut i: usize = 0;
    while i < ps.len()
        invariant
            i <= ps@.len(),
            pred == (|p: PacketData| p.parsed.flags@.contains(TcpFlag::SYN)),
            count as int == ps@.take(i as int).filter(pred).len(),
            count <= i,
        decreases ps@.len() - i,
    {
        proof {
            assert(ps@.take(i + 1 as int).drop_last() =~= ps@.take(i as int));
            assert(ps@.take(i + 1 as int).last() == ps@[i as int]);
            reveal_with_fuel(Seq::filter, 2);
        }
        if crate::flow::flags_contain(&ps[i].parsed.flags, TcpFlag::SYN) {
            count = count + 1;
        }
        i = i + 1;
    }
    proof {
        assert(ps@.take(ps@.len() as int) =~= ps@);
    }
    count
}


/// Phase-one grouping state for the global detectors: for a prefix of the
/// flow list, one entry per source address that sent a port-bearing flow,
/// holding the index of its first such flow and its ports so far.
pub open spec fn scan_groups_ok(
    s: Seq<NetworkFlow>,
    upto: int,
    gs: Seq<(IpAddress, usize, Vec<u16>)>,
) -> bool {
    &&& forall|k1: int, k2: int|
        0 <= k1 < k2 < gs.len() ==> (#[trigger] gs[k1]).0 != (#[trigger] gs[k2]).0
    &&& forall|k1: int, k2: int|
        0 <= k1 < k2 < gs.len() ==> (#[trigger] gs[k1]).1 < (#[trigger] gs[k2]).1
    &&& forall|k: int|
        0 <= k < gs.len() ==> {
            &&& (#[trigger] gs[k]).2@ == src_ports(s.take(upto), gs[k].0)
            &&& gs[k].1 < upto
            &&& s[gs[k].1 as int].src_ip == gs[k].0
            &&& s[gs[k].1 as int].dst_port is Some
            &&& forall|j: int|
                0 <= j < gs[k].1 ==> !(s[j].src_ip == gs[k].0 && s[j].dst_port is Some)
        }
    &&& forall|j: int|
        0 <= j < upto && s[j].dst_port is Some ==> exists|k: int|
            0 <= k < gs.len() && (#[trigger] gs[k]).0 == s[j].src_ip
}

/// A source none of whose prefix flows carries a port contributes no ports.
proof fn lemma_src_ports_empty(s: Seq<NetworkFlow>, ip: IpAddress)
    requires
        forall|j: int| 0 <= j < s.len() ==> !(s[j].src_ip == ip && s[j].dst_port is Some),
    ensures
        src_ports(s, ip) == Seq::<u16>::empty(),
    decreases s.len(),
{
    if s.len() > 0 {
        assert(s.drop_last() =~= s.take(s.len() - 1));
        assert(forall|j: int|
            0 <= j < s.drop_last().len() ==> s.drop_last()[j] == s[j]);
        lemma_src_ports_empty(s.drop_last(), ip);
    }
}

/// A flow from the source contributes at least its packets.
proof fn lemma_src_ids_len_at(s: Seq<NetworkFlow>, ip: IpAddress, w: int)
    requires
        0 <= w < s.len(),
        s[w].src_ip == ip,
    ensures
        src_packet_ids(s, ip).len() >= s[w].packets@.len(),
    decreases s.len(),
{
    if w == s.len() - 1 {
        assert(ids_of(s.last().packets@).len() == s.last().packets@.len());
    } else {
        assert(s.drop_last()[w] == s[w]);
        lemma_src_ids_len_at(s.drop_last(), ip, w);
    }
}

/// Copy a port list element by element.
fn copy_ports(v: &Vec<u16>) -> (r: Vec<u16>)
    ensures
        r@ == v@,
{
    let mut out: Vec<u16> = Vec::new();
    let mut i: usize = 0;
    while i < v.len()
        invariant
            i <= v@.len(),
            out@ =~= v@.take(i as int),
        decreases v@.len() - i,
    {
        out.push(v[i]);
        proof {
            assert(out@ =~= v@.take(i + 1 as int));
        }
        i = i + 1;
    }
    proof {
        assert(out@ =~= v@);
    }
    out
}


/// Total packets of the flows towards one destination.
pub open spec fn dst_packets(s: Seq<NetworkFlow>, ip: IpAddress) -> int
    decreases s.len(),
{
    if s.len() == 0 {
        0
    } else {
        dst_packets(s.drop_last(), ip) + if s.last().dst_ip == ip {
            s.last().packets@.len() as int
        } else {
            0
        }
    }
}

/// Total bytes of the flows towards one destination.
pub open spec fn dst_bytes(s: Seq<NetworkFlow>, ip: IpAddress) -> int
    decreases s.len(),
{
    if s.len() == 0 {
        0
    } else {
        dst_bytes(s.drop_last(), ip) + if s.last().dst_ip == ip {
            s.last().byte_count as int
        } else {
            0
        }
    }
}

/// The volumetric rule: a destination is under attack when it drew more
/// than a thousand packets or ten megabytes.
pub open spec fn ddos_exceeds(s: Seq<NetworkFlow>, ip: IpAddress) -> bool {
    dst_packets(s, ip) > 1000 || dst_bytes(s, ip) > 10_000_000
}

/// Flow `i` makes its destination a volumetric candidate.
pub open spec fn ddos_qualifies(s: Seq<NetworkFlow>, i: int) -> bool {
    ddos_exceeds(s, s[i].dst_ip)
}

/// The volumetric severity ladder over packet and byte totals.
pub open spec fn ddos_severity(p: int, b: int) -> Severity {
    if p > 5000 || b > 50_000_000 {
        Severity::Critical
    } else if p > 2000 || b > 20_000_000 {
        Severity::High
    } else {
        Severity::Medium
    }
}

/// The volumetric confidence: the mean of the packet share of ten
/// thousand packets and the byte share of a hundred megabytes, in basis
/// points.
pub open spec fn ddos_confidence_bp(p: int, b: int) -> int {
    (vstd::math::min(p, 10000) * 10000 + vstd::math::min(b, 100_000_000)) / 20000
}

/// Distinct destination ports of the flows towards one destination, in
/// first-appearance order.
pub open spec fn dst_ports_dedup(s: Seq<NetworkFlow>, ip: IpAddress) -> Seq<u16>
    decreases s.len(),
{
    if s.len() == 0 {
        Seq::<u16>::empty()
    } else {
        let rest = dst_ports_dedup(s.drop_last(), ip);
        if s.last().dst_ip == ip {
            match s.last().dst_port {
                Some(p) => if rest.contains(p) {
                    rest
                } else {
                    rest.push(p)
                },
                None => rest,
            }
        } else {
            rest
        }
    }
}

/// Packet identities of all flows towards one destination, in flow order.
pub open spec fn dst_packet_ids(s: Seq<NetworkFlow>, ip: IpAddress) -> Seq<u128>
    decreases s.len(),
{
    if s.len() == 0 {
        Seq::<u128>::empty()
    } else {
        let rest = dst_packet_ids(s.drop_last(), ip);
        if s.last().dst_ip == ip {
            rest + ids_of(s.last().packets@)
        } else {
            rest
        }
    }
}

/// Exact shape of the volumetric explanation.
pub open spec fn ddos_explanation(e: ThreatExplanation, p_shown: nat, b_shown: nat) -> bool {
    &&& e.primary_indicators@.len() == 3
    &&& e.primary_indicators@[0]@ == "High packet volume: "@ + dec_text(p_shown) + " packets"@
    &&& e.primary_indicators@[1]@ == "High bandwidth usage: "@ + dec_text(b_shown) + " bytes"@
    &&& e.primary_indicators@[2]@ == "Multiple source IPs targeting single destination"@
    &&& e.feature_importance@.len() == 3
    &&& e.feature_importance@[0].0@ == "packet_volume"@
    &&& e.feature_importance@[0].1 == 9000
    &&& e.feature_importance@[1].0@ == "bandwidth_usage"@
    &&& e.feature_importance@[1].1 == 8000
    &&& e.feature_importance@[2].0@ == "source_diversity"@
    &&& e.feature_importance@[2].1 == 7000
    &&& e.similar_incidents@.len() == 1
    &&& e.similar_incidents@[0]@ == "Volume-based DDoS pattern"@
    &&& e.recommended_actions@.len() == 4
    &&& e.recommended_actions@[0]@ == "Activate DDoS protection measures"@
    &&& e.recommended_actions@[1]@ == "Rate limit incoming connections"@
    &&& e.recommended_actions@[2]@ == "Contact ISP for upstream filtering"@
    &&& e.recommended_actions@[3]@ == "Monitor target system performance"@
}

/// Exact shape of the alert the volumetric rule emits: it names the
/// overloaded destination whose first flow comes earliest.
pub open spec fn is_ddos_alert(s: Seq<NetworkFlow>, a: ThreatAlert) -> bool {
    exists|i: int|
        {
            &&& 0 <= i < s.len()
            &&& #[trigger] ddos_qualifies(s, i)
            &&& forall|j: int| 0 <= j < i ==> !ddos_qualifies(s, j)
            &&& ({
                let ip = s[i].dst_ip;
                let p = dst_packets(s, ip);
                let b = dst_bytes(s, ip);
                let p_shown = vstd::math::min(p, u64::MAX as int) as nat;
                let b_shown = vstd::math::min(b, u64::MAX as int) as nat;
                &&& a.severity == ddos_severity(p, b)
                &&& a.threat_type == ThreatType::DDoS
                &&& a.confidence_bp == ddos_confidence_bp(p, b)
                &&& a.anomaly_score_bp == ddos_confidence_bp(p, b)
                &&& a.source_ip == s[0].src_ip
                &&& a.target_ip == Some(ip)
                &&& a.affected_ports@ == dst_ports_dedup(s, ip)
                &&& a.description@ == "Potential DDoS attack detected against "@ + ip_text(ip)
                    + " - "@ + dec_text(p_shown) + " packets, "@ + dec_text(b_shown) + " bytes"@
                &&& ddos_explanation(a.explanation, p_shown, b_shown)
                &&& a.raw_packets@ == dst_packet_ids(s, ip)
            })
        }
}

/// Grouping state for the volumetric detector: one entry per destination
/// seen in a prefix, with first flow index and saturating totals.
pub open spec fn ddos_groups_ok(
    s: Seq<NetworkFlow>,
    upto: int,
    gs: Seq<(IpAddress, usize, u64, u64)>,
) -> bool {
    &&& forall|k1: int, k2: int|
        0 <= k1 < k2 < gs.len() ==> (#[trigger] gs[k1]).0 != (#[trigger] gs[k2]).0
    &&& forall|k1: int, k2: int|
        0 <= k1 < k2 < gs.len() ==> (#[trigger] gs[k1]).1 < (#[trigger] gs[k2]).1
    &&& forall|k: int|
        0 <= k < gs.len() ==> {
            &&& (#[trigger] gs[k]).2 as int == vstd::math::min(
                dst_packets(s.take(upto), gs[k].0),
                u64::MAX as int,
            )
            &&& gs[k].3 as int == vstd::math::min(
                dst_bytes(s.take(upto), gs[k].0),
                u64::MAX as int,
            )
            &&& gs[k].1 < upto
            &&& s[gs[k].1 as int].dst_ip == gs[k].0
            &&& forall|j: int| 0 <= j < gs[k].1 ==> s[j].dst_ip != gs[k].0
        }
    &&& forall|j: int|
        0 <= j < upto ==> exists|k: int|
            0 <= k < gs.len() && (#[trigger] gs[k]).0 == (#[trigger] s[j]).dst_ip
}

/// A destination absent from a prefix has zero totals there.
proof fn lemma_dst_totals_zero(s: Seq<NetworkFlow>, ip: IpAddress)
    requires
        forall|j: int| 0 <= j < s.len() ==> s[j].dst_ip != ip,
    ensures
        dst_packets(s, ip) == 0,
        dst_bytes(s, ip) == 0,
    decreases s.len(),
{
    if s.len() > 0 {
        assert(forall|j: int| 0 <= j < s.drop_last().len() ==> s.drop_last()[j] == s[j]);
        lemma_dst_totals_zero(s.drop_last(), ip);
    }
}

/// A flow towards the destination contributes at least its packets.
proof fn lemma_dst_ids_len_at(s: Seq<NetworkFlow>, ip: IpAddress, w: int)
    requires
        0 <= w < s.len(),
        s[w].dst_ip == ip,
    ensures
        dst_packet_ids(s, ip).len() >= s[w].packets@.len(),
    decreases s.len(),
{
    if w == s.len() - 1 {
        assert(ids_of(s.last().packets@).len() == s.last().packets@.len());
    } else {
        assert(s.drop_last()[w] == s[w]);
        lemma_dst_ids_len_at(s.drop_last(), ip, w);
    }
}

/// Whether a port list holds a port.
fn ports_contain(v: &Vec<u16>, p: u16) -> (r: bool)
    ensures
        r == v@.contains(p),
{
    let mut i: usize = 0;
    while i < v.len()
        invariant
            i <= v@.len(),
            forall|j: int| 0 <= j < i ==> v@[j] != p,
        decreases v@.len() - i,
    {
        if v[i] == p {
            return true;
        }
        i = i + 1;
    }
    false
}


/// The severity ladder for model-scored anomalies, over a score in basis
/// points.
pub open spec fn ml_severity(bp: int) -> Severity {
    if bp > 9000 {
        Severity::High
    } else if bp > 8000 {
        Severity::Medium
    } else {
        Severity::Low
    }
}

/// A score in basis points rendered with three decimals, as `0.850`.
pub open spec fn score_text(bp: int) -> Seq<char> {
    dec_text((bp / 10000) as nat) + "."@ + pad3_text(((bp / 10) % 1000) as nat)
}

/// Exact shape of the model-score explanation.
pub open spec fn ml_explanation(e: ThreatExplanation, bp: int) -> bool {
    &&& e.primary_indicators@.len() == 2
    &&& e.primary_indicators@[0]@ == "High anomaly score: "@ + score_text(bp)
    &&& e.primary_indicators@[1]@ == "Unusual traffic pattern detected by neural network"@
    &&& e.feature_importance@.len() == 2
    &&& e.feature_importance@[0].0@ == "ml_anomaly_score"@
    &&& e.feature_importance@[0].1 as int == bp
    &&& e.feature_importance@[1].0@ == "traffic_pattern"@
    &&& e.feature_importance@[1].1 == 8000
    &&& e.similar_incidents@.len() == 1
    &&& e.similar_incidents@[0]@ == "Previously unseen traffic pattern"@
    &&& e.recommended_actions@.len() == 3
    &&& e.recommended_actions@[0]@ == "Investigate source IP activity"@
    &&& e.recommended_actions@[1]@ == "Monitor for pattern evolution"@
    &&& e.recommended_actions@[2]@ == "Consider adding to watchlist"@
}

/// Exact shape of an alert raised for a model-scored anomalous flow.
pub open spec fn is_ml_alert(f: NetworkFlow, bp: int, a: ThreatAlert) -> bool {
    &&& a.severity == ml_severity(bp)
    &&& a.threat_type == ThreatType::Anomalous
    &&& a.confidence_bp as int == bp
    &&& a.anomaly_score_bp as int == bp
    &&& a.source_ip == f.src_ip
    &&& a.target_ip == Some(f.dst_ip)
    &&& a.affected_ports@ == match f.dst_port {
        Some(p) => seq![p],
        None => Seq::<u16>::empty(),
    }
    &&& a.description@ == "ML-detected anomalous network behavior (score: "@ + score_text(bp)
        + ")"@
    &&& ml_explanation(a.explanation, bp)
    &&& a.raw_packets@ == ids_of(f.packets@)
}

/// Views of a ring of alerts, oldest first.
pub open spec fn ring_views(ring: Seq<ThreatAlert>) -> Seq<AlertView> {
    ring.map_values(|a: ThreatAlert| a@)
}

/// One alert entering the bounded ring: the oldest leaves once a hundred
/// are held.
pub open spec fn ring_push_view(rv: Seq<AlertView>, a: AlertView) -> Seq<AlertView> {
    let r = rv.push(a);
    if r.len() > 100 {
        r.drop_first()
    } else {
        r
    }
}

/// Several alerts entering the ring in order.
pub open spec fn ring_push_all_views(rv: Seq<AlertView>, more: Seq<AlertView>) -> Seq<AlertView>
    decreases more.len(),
{
    if more.len() == 0 {
        rv
    } else {
        ring_push_all_views(ring_push_view(rv, more[0]), more.drop_first())
    }
}

proof fn lemma_ring_push_all_snoc(rv: Seq<AlertView>, more: Seq<AlertView>, a: AlertView)
    ensures
        ring_push_all_views(rv, more.push(a)) == ring_push_view(
            ring_push_all_views(rv, more),
            a,
        ),
    decreases more.len(),
{
    if more.len() == 0 {
        assert(more.push(a)[0] == a);
        assert(more.push(a).drop_first() =~= Seq::<AlertView>::empty());
        assert(ring_push_all_views(rv, more.push(a)) == ring_push_all_views(
            ring_push_view(rv, a),
            more.push(a).drop_first(),
        ));
    } else {
        assert(more.push(a)[0] == more[0]);
        assert(more.push(a).drop_first() =~= more.drop_first().push(a));
        lemma_ring_push_all_snoc(ring_push_view(rv, more[0]), more.drop_first(), a);
    }
}

/// A compact description of one active flow, for external inspection.
#[derive(Clone, Debug)]
pub struct FlowSummary {
    pub flow_key: String,
    pub src_ip: IpAddress,
    pub dst_ip: IpAddress,
    pub src_port: Option<u16>,
    pub dst_port: Option<u16>,
    pub protocol: Protocol,
    pub packets: usize,
    pub bytes: u64,
    /// Observed duration, in whole seconds.
    pub duration_s: u64,
    pub flags: Vec<TcpFlag>,
}

/// A summary faithfully describes its flow.
pub open spec fn summary_matches(f: NetworkFlow, s: FlowSummary) -> bool {
    &&& s.flow_key@ == flow_key_text(f.src_ip, f.src_port, f.dst_ip, f.dst_port, f.protocol)
    &&& s.src_ip == f.src_ip
    &&& s.dst_ip == f.dst_ip
    &&& s.src_port == f.src_port
    &&& s.dst_port == f.dst_port
    &&& s.protocol == f.protocol
    &&& s.packets == f.packets@.len()
    &&& s.bytes == f.byte_count
    &&& s.duration_s as int == (f.last_seen_ms - f.start_time_ms) / 1000
    &&& s.flags@ == f.flags_seen@
}

/// The threat detection engine: the flow table, the ring of recent
/// alerts, and the eviction timeout.
pub struct DetectionEngine {
    pub flows: FlowTable,
    pub recent_alerts: Vec<ThreatAlert>,
    /// Idle time after which a flow is evicted, in milliseconds.
    pub flow_timeout_ms: u64,
}

impl DetectionEngine {
    /// The flow table is well formed, the ring holds at most a hundred
    /// well-formed alerts.
    pub open spec fn well_formed(self) -> bool {
        &&& self.flows.well_formed()
        &&& self.recent_alerts@.len() <= 100
        &&& forall|i: int|
            0 <= i < self.recent_alerts@.len() ==> (#[trigger] self.recent_alerts@[i]).well_formed()
    }

    /// Create an engine with an empty table, an empty ring, and the
    /// five-minute eviction timeout.
    pub fn new() -> (r: DetectionEngine)
        ensures
            r.well_formed(),
            r.flows.flows@.len() == 0,
            r.recent_alerts@.len() == 0,
            r.flow_timeout_ms == 300_000,
    {
        DetectionEngine {
            flows: FlowTable::new(),
            recent_alerts: Vec::new(),
            flow_timeout_ms: 300_000,
        }
    }

    /// Record an alert: count it in the statistics first, then keep it in
    /// the bounded ring of recent alerts.
    pub fn send_alert(&mut self, stats: &mut SystemStats, alert: ThreatAlert)
        requires
            old(self).well_formed(),
            old(stats).well_formed(),
            alert.well_formed(),
        ensures
            final(self).well_formed(),
            final(stats).well_formed(),
            ring_views(final(self).recent_alerts@) == ring_push_view(
                ring_views(old(self).recent_alerts@),
                alert@,
            ),
            final(self).flows == old(self).flows,
            final(self).flow_timeout_ms == old(self).flow_timeout_ms,
            final(stats).threats_detected as int == vstd::math::min(
                old(stats).threats_detected + 1,
                u64::MAX as int,
            ),
            final(stats).threats_detected >= old(stats).threats_detected,
            old(stats).threats_detected < u64::MAX ==> final(stats).alert_counts.spec_get(
                alert.severity,
            ) == old(stats).alert_counts.spec_get(alert.severity) + 1,
            final(stats).packets_processed == old(stats).packets_processed,
            final(stats).bytes_processed == old(stats).bytes_processed,
            final(stats).protocol_distribution == old(stats).protocol_distribution,
            final(stats).top_talkers == old(stats).top_talkers,
            final(stats).active_flows == old(stats).active_flows,
    {
        stats.increment_threat_count(alert.severity);
        let ghost rv0 = ring_views(self.recent_alerts@);
        self.recent_alerts.push(alert);
        proof {
            assert(ring_views(self.recent_alerts@) =~= rv0.push(alert@));
        }
        if self.recent_alerts.len() > 100 {
            self.recent_alerts.remove(0);
            proof {
                assert(ring_views(self.recent_alerts@) =~= rv0.push(alert@).drop_first());
            }
        }
    }


    /// The flows the anomaly model is due to score: exactly those holding
    /// at least five packets, by ascending table index.
    pub fn flows_due_for_scoring(&self) -> (r: Vec<usize>)
        ensures
            forall|t: int|
                0 <= t < r@.len() ==> (#[trigger] r@[t]) < self.flows.flows@.len()
                    && self.flows.flows@[r@[t] as int].packets@.len() >= 5,
            forall|j: int|
                0 <= j < self.flows.flows@.len() && (#[trigger] self.flows.flows@[j]).packets@.len()
                    >= 5 ==> r@.contains(j as usize),
            forall|t1: int, t2: int| 0 <= t1 < t2 < r@.len() ==> r@[t1] < r@[t2],
    {
        let mut out: Vec<usize> = Vec::new();
        let mut i: usize = 0;
        while i < self.flows.flows.len()
            invariant
                i <= self.flows.flows@.len(),
                forall|t: int|
                    0 <= t < out@.len() ==> (#[trigger] out@[t]) < i
                        && self.flows.flows@[out@[t] as int].packets@.len() >= 5,
                forall|j: int|
                    0 <= j < i && (#[trigger] self.flows.flows@[j]).packets@.len() >= 5
                        ==> out@.contains(j as usize),
                forall|t1: int, t2: int| 0 <= t1 < t2 < out@.len() ==> out@[t1] < out@[t2],
            decreases self.flows.flows@.len() - i,
        {
            if self.flows.flows[i].packets.len() >= 5 {
                let ghost out0 = out@;
                out.push(i);
                proof {
                    assert(out@.last() == i);
                    assert forall|j: int|
                        0 <= j < i + 1 && (#[trigger] self.flows.flows@[j]).packets@.len() >= 5
                        implies out@.contains(j as usize) by {
                        if j < i {
                            let t = choose|t: int| 0 <= t < out0.len() && out0[t] == j as usize;
                            assert(out@[t] == j as usize);
                        } else {
                            assert(out@[out@.len() - 1] == j as usize);
                        }
                    }
                }
            }
            i = i + 1;
        }
        out
    }

    /// Record a model score for a flow: past the detection threshold of
    /// 0.7 it raises an anomaly alert, records it, and hands it back.
    pub fn record_ml_score(&mut self, stats: &mut SystemStats, flow_index: usize, score_bp: u32,
        now_ms: u64) -> (r: Option<ThreatAlert>)
        requires
            old(self).well_formed(),
            old(stats).well_formed(),
            score_bp <= 10000,
            flow_index < old(self).flows.flows@.len(),
        ensures
            final(self).well_formed(),
            final(stats).well_formed(),
            final(self).flows == old(self).flows,
            r is Some <==> score_bp > 7000,
            r matches Some(a) ==> {
                &&& is_ml_alert(old(self).flows.flows@[flow_index as int], score_bp as int, a)
                &&& a.timestamp_ms == now_ms
                &&& a.well_formed()
                &&& ring_views(final(self).recent_alerts@) == ring_push_view(
                    ring_views(old(self).recent_alerts@),
                    a@,
                )
                &&& final(stats).threats_detected as int == vstd::math::min(
                    old(stats).threats_detected + 1,
                    u64::MAX as int,
                )
            },
            r is None ==> *final(self) == *old(self) && *final(stats) == *old(stats),
    {
        if score_bp <= 7000 {
            return None;
        }
        let flow = &self.flows.flows[flow_index];
        let severity = if score_bp > 9000 {
            Severity::High
        } else if score_bp > 8000 {
            Severity::Medium
        } else {
            Severity::Low
        };

        let mut score_str = String::new();
        push_dec(&mut score_str, (score_bp / 10000) as u64);
        score_str.append(".");
        push_pad3(&mut score_str, ((score_bp / 10) % 1000) as u64);
        proof {
            assert(score_str@ =~= score_text(score_bp as int));
        }

        let mut description = String::new();
        description.append("ML-detected anomalous network behavior (score: ");
        description.append(score_str.as_str());
        description.append(")");
        proof {
            assert(description@ =~= "ML-detected anomalous network behavior (score: "@
                + score_text(score_bp as int) + ")"@);
        }

        let mut indicator = String::new();
        indicator.append("High anomaly score: ");
        indicator.append(score_str.as_str());
        proof {
            assert(indicator@ =~= "High anomaly score: "@ + score_text(score_bp as int));
        }
        let mut primary_indicators: Vec<String> = Vec::new();
        primary_indicators.push(indicator);
        primary_indicators.push(String::from_str(
            "Unusual traffic pattern detected by neural network",
        ));

        let mut feature_importance: Vec<(String, u32)> = Vec::new();
        feature_importance.push((String::from_str("ml_anomaly_score"), score_bp));
        feature_importance.push((String::from_str("traffic_pattern"), 8000));

        let mut similar_incidents: Vec<String> = Vec::new();
        similar_incidents.push(String::from_str("Previously unseen traffic pattern"));

        let mut recommended_actions: Vec<String> = Vec::new();
        recommended_actions.push(String::from_str("Investigate source IP activity"));
        recommended_actions.push(String::from_str("Monitor for pattern evolution"));
        recommended_actions.push(String::from_str("Consider adding to watchlist"));

        let mut affected_ports: Vec<u16> = Vec::new();
        match flow.dst_port {
            Some(p) => {
                affected_ports.push(p);
                proof {
                    assert(affected_ports@ =~= seq![p]);
                }
            },
            None => {},
        }

        let raw_packets = collect_ids(&flow.packets);

        let alert = ThreatAlert {
            id: new_uuid(),
            timestamp_ms: now_ms,
            severity,
            threat_type: ThreatType::Anomalous,
            confidence_bp: score_bp,
            anomaly_score_bp: score_bp,
            source_ip: flow.src_ip,
            target_ip: Some(flow.dst_ip),
            affected_ports,
            description,
            explanation: ThreatExplanation {
                primary_indicators,
                feature_importance,
                similar_incidents,
                recommended_actions,
            },
            raw_packets,
        };
        let copy = clone_alert(&alert);
        self.send_alert(stats, copy);
        Some(alert)
    }

    /// Evict every flow idle for longer than the engine's timeout.
    pub fn cleanup_expired_flows(&mut self, now_ms: u64)
        requires
            old(self).well_formed(),
        ensures
            final(self).well_formed(),
            final(self).flows.flows@ == old(self).flows.flows@.filter(
                |f: NetworkFlow| !crate::flow::flow_expired(f, now_ms, old(self).flow_timeout_ms),
            ),
            forall|j: int|
                0 <= j < final(self).flows.flows@.len() ==> !crate::flow::flow_expired(
                    #[trigger] final(self).flows.flows@[j],
                    now_ms,
                    old(self).flow_timeout_ms,
                ),
            final(self).recent_alerts@ == old(self).recent_alerts@,
            final(self).flow_timeout_ms == old(self).flow_timeout_ms,
    {
        let timeout = self.flow_timeout_ms;
        self.flows.evict_expired(now_ms, timeout);
    }

    /// Current number of active flows.
    pub fn get_active_flow_count(&self) -> (r: usize)
        ensures
            r == self.flows.flows@.len(),
    {
        self.flows.active_count()
    }

    /// The most recent alerts, newest first, up to `limit`.
    pub fn get_recent_alerts(&self, limit: usize) -> (r: Vec<ThreatAlert>)
        ensures
            r@.len() == vstd::math::min(limit as int, self.recent_alerts@.len() as int),
            forall|i: int|
                0 <= i < r@.len() ==> (#[trigger] r@[i])@ == self.recent_alerts@[
                    self.recent_alerts@.len() - 1 - i
                ]@,
    {
        let n = self.recent_alerts.len();
        let count = if limit < n {
            limit
        } else {
            n
        };
        let mut out: Vec<ThreatAlert> = Vec::new();
        let mut i: usize = 0;
        while i < count
            invariant
                count <= n,
                n == self.recent_alerts@.len(),
                i <= count,
                out@.len() == i,
                forall|j: int|
                    0 <= j < i ==> (#[trigger] out@[j])@ == self.recent_alerts@[n - 1 - j]@,
            decreases count - i,
        {
            out.push(clone_alert(&self.recent_alerts[n - 1 - i]));
            i = i + 1;
        }
        out
    }

    /// Summaries of up to fifty active flows, in table order.
    pub fn get_active_flows(&self) -> (r: Vec<FlowSummary>)
        requires
            self.well_formed(),
        ensures
            r@.len() == vstd::math::min(50int, self.flows.flows@.len() as int),
            forall|i: int|
                0 <= i < r@.len() ==> summary_matches(self.flows.flows@[i], #[trigger] r@[i]),
    {
        let n = self.flows.active_count();
        let count = if n < 50 {
            n
        } else {
            50
        };
        let mut out: Vec<FlowSummary> = Vec::new();
        let mut i: usize = 0;
        while i < count
            invariant
                self.well_formed(),
                count <= self.flows.flows@.len(),
                count <= 50,
                i <= count,
                out@.len() == i,
                forall|j: int|
                    0 <= j < i ==> summary_matches(self.flows.flows@[j], #[trigger] out@[j]),
            decreases count - i,
        {
            let f = &self.flows.flows[i];
            let summary = FlowSummary {
                flow_key: f.flow_key(),
                src_ip: f.src_ip,
                dst_ip: f.dst_ip,
                src_port: f.src_port,
                dst_port: f.dst_port,
                protocol: f.protocol,
                packets: f.packets.len(),
                bytes: f.byte_count,
                duration_s: (f.last_seen_ms - f.start_time_ms) / 1000,
                flags: crate::flow::copy_flags(&f.flags_seen),
            };
            out.push(summary);
            i = i + 1;
        }
        out
    }

    /// Process one packet: account for it, fold it into its flow, run the
    /// per-flow rule on that flow, and run the global rules whenever the
    /// table size is a multiple of one hundred. Returns the alerts raised,
    /// in rule order; each is also counted and kept in the ring.
    #[verifier::rlimit(100)]
    pub fn process_packet(&mut self, stats: &mut SystemStats, packet: PacketData, now_ms: u64)
        -> (alerts: Vec<ThreatAlert>)
        requires
            old(self).well_formed(),
            old(stats).well_formed(),
            packet.well_formed(),
        ensures
            final(self).well_formed(),
            final(stats).well_formed(),
            final(stats).packets_processed == old(stats).packets_processed,
            final(stats).bytes_processed == old(stats).bytes_processed,
            final(stats).protocol_distribution == old(stats).protocol_distribution,
            final(stats).active_flows as int == vstd::math::min(
                final(self).flows.flows@.len() as int,
                u32::MAX as int,
            ),
            final(stats).threats_detected as int == vstd::math::min(
                old(stats).threats_detected + alerts@.len(),
                u64::MAX as int,
            ),
            ({
                let existed = exists|j: int|
                    0 <= j < old(self).flows.flows@.len() && (
                    #[trigger] old(self).flows.flows@[j]).key() == packet_key(packet.parsed);
                &&& (existed ==> final(self).flows.flows@.len() == old(self).flows.flows@.len())
                &&& (!existed ==> final(self).flows.flows@.len() == old(self).flows.flows@.len()
                    + 1)
            }),
            forall|i: int| 0 <= i < alerts@.len() ==> (#[trigger] alerts@[i]).well_formed(),
            ring_views(final(self).recent_alerts@) == ring_push_all_views(
                ring_views(old(self).recent_alerts@),
                alerts@.map_values(|a: ThreatAlert| a@),
            ),
            ({
                let s1 = final(self).flows.flows@;
                let existed = exists|j: int|
                    0 <= j < old(self).flows.flows@.len() && (
                    #[trigger] old(self).flows.flows@[j]).key() == packet_key(packet.parsed);
                let run_global = s1.len() % 100 == 0;
                let susp = exists|j: int|
                    0 <= j < s1.len() && (#[trigger] s1[j]).key() == packet_key(packet.parsed)
                        && suspicious_condition(s1[j]);
                let scan = run_global && (exists|i: int|
                    0 <= i < s1.len() && #[trigger] port_qualifies(s1, i));
                let ddos = run_global && (exists|i: int|
                    0 <= i < s1.len() && #[trigger] ddos_qualifies(s1, i));
                let n_susp: int = if susp {
                    1int
                } else {
                    0int
                };
                let n_scan: int = if scan {
                    1int
                } else {
                    0int
                };
                &&& alerts@.len() == n_susp + n_scan + (if ddos {
                    1int
                } else {
                    0int
                })
                &&& (susp ==> exists|j: int|
                    0 <= j < s1.len() && (#[trigger] s1[j]).key() == packet_key(packet.parsed)
                        && is_suspicious_alert(s1[j], alerts@[0]))
                &&& (scan ==> is_port_scan_alert(s1, alerts@[n_susp]))
                &&& (ddos ==> is_ddos_alert(s1, alerts@[n_susp + n_scan]))
            }),
    {
        let size = packet.parsed.size as u64;
        let src = packet.parsed.src_ip;
        let dst = packet.parsed.dst_ip;
        let proto = packet.parsed.protocol;
        let probe = ParsedPacket {
            src_ip: src,
            dst_ip: dst,
            src_port: packet.parsed.src_port,
            dst_port: packet.parsed.dst_port,
            protocol: proto,
            size: 0,
            flags: Vec::new(),
        };
        proof {
            assert(packet_key(probe) == packet_key(packet.parsed));
        }

        stats.update_top_talkers(src, dst, size);

        self.flows.upsert(packet, now_ms);
        let count = self.flows.active_count();
        stats.set_active_flows(
            if count > (u32::MAX as usize) {
                u32::MAX
            } else {
                count as u32
            },
        );

        let ghost rv0 = ring_views(self.recent_alerts@);
        let mut alerts: Vec<ThreatAlert> = Vec::new();

        match self.flows.find_flow(&probe) {
            Some(ix) => {
                match ThreatPatterns::detect_suspicious_flags(&self.flows.flows[ix], now_ms) {
                    Some(a) => {
                        let copy = clone_alert(&a);
                        self.send_alert(stats, copy);
                        alerts.push(a);
                        proof {
                            assert(alerts@.map_values(|x: ThreatAlert| x@)
                                =~= Seq::<AlertView>::empty().push(a@));
                            lemma_ring_push_all_snoc(rv0, Seq::<AlertView>::empty(), a@);
                        }
                    },
                    None => {},
                }
            },
            None => {
                proof {
                    assert(false);
                }
            },
        }

        if count % 100 == 0 {
            let ghost pre_len = alerts@.len();
            match ThreatPatterns::detect_port_scan(&self.flows.flows, now_ms) {
                Some(a) => {
                    let copy = clone_alert(&a);
                    self.send_alert(stats, copy);
                    let ghost vs0 = alerts@.map_values(|x: ThreatAlert| x@);
                    alerts.push(a);
                    proof {
                        assert(alerts@.map_values(|x: ThreatAlert| x@) =~= vs0.push(a@));
                        lemma_ring_push_all_snoc(rv0, vs0, a@);
                    }
                },
                None => {},
            }
            match ThreatPatterns::detect_ddos(&self.flows.flows, now_ms) {
                Some(a) => {
                    let copy = clone_alert(&a);
                    self.send_alert(stats, copy);
                    let ghost vs0 = alerts@.map_values(|x: ThreatAlert| x@);
                    alerts.push(a);
                    proof {
                        assert(alerts@.map_values(|x: ThreatAlert| x@) =~= vs0.push(a@));
                        lemma_ring_push_all_snoc(rv0, vs0, a@);
                    }
                },
                None => {},
            }
        }

        alerts
    }
}

/// Folding one more flow into its existing destination group preserves
/// the grouping state.
#[verifier::rlimit(100)]
proof fn lemma_ddos_group_bump(
    s: Seq<NetworkFlow>,
    i: int,
    gs0: Seq<(IpAddress, usize, u64, u64)>,
    gs1: Seq<(IpAddress, usize, u64, u64)>,
    kf: int,
)
    requires
        0 <= i < s.len(),
        ddos_groups_ok(s, i, gs0),
        0 <= kf < gs0.len(),
        gs0[kf].0 == s[i].dst_ip,
        gs1.len() == gs0.len(),
        forall|t: int| 0 <= t < gs1.len() && t != kf ==> gs1[t] == gs0[t],
        gs1[kf].0 == gs0[kf].0,
        gs1[kf].1 == gs0[kf].1,
        gs1[kf].2 as int == vstd::math::min(gs0[kf].2 + s[i].packets@.len(), u64::MAX as int),
        gs1[kf].3 as int == vstd::math::min(gs0[kf].3 + s[i].byte_count, u64::MAX as int),
    ensures
        ddos_groups_ok(s, i + 1, gs1),
{
    let ip = s[i].dst_ip;
    assert(s.take(i + 1).drop_last() =~= s.take(i));
    assert(s.take(i + 1).last() == s[i]);
    assert forall|t: int| 0 <= t < gs1.len() implies {
        &&& (#[trigger] gs1[t]).2 as int == vstd::math::min(
            dst_packets(s.take(i + 1), gs1[t].0),
            u64::MAX as int,
        )
        &&& gs1[t].3 as int == vstd::math::min(dst_bytes(s.take(i + 1), gs1[t].0), u64::MAX as int)
    } by {
        if t != kf {
            assert(gs1[t] == gs0[t]);
            assert(gs0[t].0 != ip);
        } else {
            assert(gs0[kf].0 == ip);
        }
    }
    assert forall|j: int| 0 <= j < i + 1 implies exists|t: int|
        0 <= t < gs1.len() && (#[trigger] gs1[t]).0 == (#[trigger] s[j]).dst_ip by {
        if j < i {
            let t = choose|t: int| 0 <= t < gs0.len() && (#[trigger] gs0[t]).0 == s[j].dst_ip;
            assert(gs1[t].0 == s[j].dst_ip);
        } else {
            assert(gs1[kf].0 == s[j].dst_ip);
        }
    }
}

proof fn lemma_ddos_group_fresh(
    s: Seq<NetworkFlow>,
    i: int,
    gs0: Seq<(IpAddress, usize, u64, u64)>,
    gs1: Seq<(IpAddress, usize, u64, u64)>,
)
    requires
        0 <= i < s.len(),
        ddos_groups_ok(s, i, gs0),
        forall|t: int| 0 <= t < gs0.len() ==> (#[trigger] gs0[t]).0 != s[i].dst_ip,
        gs1 == gs0.push((s[i].dst_ip, i as usize, s[i].packets@.len() as u64, s[i].byte_count)),
        s[i].packets@.len() <= u64::MAX,
        i <= usize::MAX,
    ensures
        ddos_groups_ok(s, i + 1, gs1),
{
    let ip = s[i].dst_ip;
    assert(s.take(i + 1).drop_last() =~= s.take(i));
    assert(s.take(i + 1).last() == s[i]);
    assert(forall|j: int| 0 <= j < i ==> s[j].dst_ip != ip) by {
        assert forall|j: int| 0 <= j < i implies s[j].dst_ip != ip by {
            let t = choose|t: int|
                0 <= t < gs0.len() && (#[trigger] gs0[t]).0 == (#[trigger] s[j]).dst_ip;
        }
    }
    lemma_dst_totals_zero(s.take(i), ip);
    assert forall|t: int| 0 <= t < gs1.len() implies {
        &&& (#[trigger] gs1[t]).2 as int == vstd::math::min(
            dst_packets(s.take(i + 1), gs1[t].0),
            u64::MAX as int,
        )
        &&& gs1[t].3 as int == vstd::math::min(dst_bytes(s.take(i + 1), gs1[t].0), u64::MAX as int)
    } by {
        if t < gs1.len() - 1 {
            assert(gs1[t] == gs0[t]);
        }
    }
    assert forall|j: int| 0 <= j < i + 1 implies exists|t: int|
        0 <= t < gs1.len() && (#[trigger] gs1[t]).0 == (#[trigger] s[j]).dst_ip by {
        if j < i {
            let t = choose|t: int| 0 <= t < gs0.len() && (#[trigger] gs0[t]).0 == s[j].dst_ip;
            assert(gs1[t].0 == s[j].dst_ip);
        } else {
            assert(gs1[gs1.len() - 1].0 == s[j].dst_ip);
        }
    }
}

/// Group flows by destination with saturating totals (volumetric rule,
/// phase one).
#[verifier::rlimit(100)]
fn ddos_group_flows(flows: &Vec<NetworkFlow>) -> (groups: Vec<(IpAddress, usize, u64, u64)>)
    ensures
        ddos_groups_ok(flows@, flows@.len() as int, groups@),
{
    let ghost s = flows@;
    let mut groups: Vec<(IpAddress, usize, u64, u64)> = Vec::new();
        let n = flows.len();
        let mut i: usize = 0;
        while i < n
            invariant
                s == flows@,
                n == s.len(),
                i <= n,
                ddos_groups_ok(s, i as int, groups@),
            decreases n - i,
        {
            let ghost gs0 = groups@;
            let ip = flows[i].dst_ip;
            let pk = flows[i].packets.len() as u64;
            let by = flows[i].byte_count;
            let mut found: Option<usize> = None;
            let mut k: usize = 0;
            while k < groups.len()
                invariant
                    k <= groups@.len(),
                    groups@ == gs0,
                    match found {
                        Some(kf) => kf < k && gs0[kf as int].0 == ip,
                        None => forall|t: int| 0 <= t < k ==> (#[trigger] gs0[t]).0 != ip,
                    },
                decreases groups@.len() - k,
            {
                if groups[k].0 == ip {
                    found = Some(k);
                }
                k = k + 1;
            }
            match found {
                Some(kf) => {
                    let entry = groups.remove(kf);
                    let entry2 = (entry.0, entry.1, entry.2.saturating_add(pk),
                        entry.3.saturating_add(by));
                    groups.insert(kf, entry2);
                    proof {
                        assert(groups@ =~= gs0.update(kf as int, groups@[kf as int]));
                        assert(forall|t: int|
                            0 <= t < groups@.len() && t != kf ==> groups@[t] == gs0[t]);
                        lemma_ddos_group_bump(s, i as int, gs0, groups@, kf as int);
                    }
                },
                None => {
                    groups.push((ip, i, pk, by));
                    proof {
                        assert(groups@ =~= gs0.push((ip, i, pk, by)));
                        lemma_ddos_group_fresh(s, i as int, gs0, groups@);
                    }
                },
            }
            i = i + 1;
        }
    groups
}

/// Threat detection patterns: pure rules over flows.
pub struct ThreatPatterns;

impl ThreatPatterns {

    /// Detect port scanning over all flows: group flows by source address
    /// and report the earliest source that contacted at least five distinct
    /// destination ports.
    #[verifier::rlimit(100)]
    pub fn detect_port_scan(flows: &Vec<NetworkFlow>, now_ms: u64) -> (r: Option<ThreatAlert>)
        requires
            forall|i: int| 0 <= i < flows@.len() ==> (#[trigger] flows@[i]).well_formed(),
        ensures
            r is Some <==> exists|i: int|
                0 <= i < flows@.len() && #[trigger] port_qualifies(flows@, i),
            r matches Some(a) ==> {
                &&& is_port_scan_alert(flows@, a)
                &&& a.timestamp_ms == now_ms
                &&& a.well_formed()
            },
    {
        let ghost s = flows@;
        let mut groups: Vec<(IpAddress, usize, Vec<u16>)> = Vec::new();
        let n = flows.len();
        let mut i: usize = 0;
        while i < n
            invariant
                s == flows@,
                n == s.len(),
                i <= n,
                scan_groups_ok(s, i as int, groups@),
            decreases n - i,
        {
            proof {
                assert(s.take(i + 1 as int).drop_last() =~= s.take(i as int));
                assert(s.take(i + 1 as int).last() == s[i as int]);
            }
            let ghost gs0 = groups@;
            let fl = &flows[i];
            match fl.dst_port {
                Some(p) => {
                    let ip = fl.src_ip;
                    let mut found: Option<usize> = None;
                    let mut k: usize = 0;
                    while k < groups.len()
                        invariant
                            k <= groups@.len(),
                            groups@ == gs0,
                            match found {
                                Some(kf) => kf < k && gs0[kf as int].0 == ip,
                                None => forall|t: int| 0 <= t < k ==> (#[trigger] gs0[t]).0 != ip,
                            },
                        decreases groups@.len() - k,
                    {
                        if groups[k].0 == ip {
                            found = Some(k);
                        }
                        k = k + 1;
                    }
                    match found {
                        Some(kf) => {
                            let mut entry = groups.remove(kf);
                            entry.2.push(p);
                            groups.insert(kf, entry);
                            proof {
                                assert(groups@ =~= gs0.update(kf as int, groups@[kf as int]));
                                assert(groups@[kf as int].0 == gs0[kf as int].0);
                                assert(groups@[kf as int].1 == gs0[kf as int].1);
                                assert(groups@[kf as int].2@ =~= gs0[kf as int].2@.push(p));
                                assert(forall|t: int|
                                    0 <= t < groups@.len() && t != kf ==> groups@[t] == gs0[t]);
                                assert(forall|t: int|
                                    0 <= t < groups@.len() ==> (#[trigger] groups@[t]).0
                                        == gs0[t].0 && groups@[t].1 == gs0[t].1);
                                assert forall|t: int|
                                    0 <= t < groups@.len() implies (#[trigger] groups@[t]).2@
                                    == src_ports(s.take(i + 1 as int), groups@[t].0) by {
                                    if t != kf {
                                        assert(groups@[t] == gs0[t]);
                                        assert(gs0[t].0 != ip);
                                        assert(gs0[t].2@ == src_ports(s.take(i as int), gs0[t].0));
                                    } else {
                                        assert(gs0[kf as int].0 == ip);
                                        assert(gs0[kf as int].2@ == src_ports(s.take(i as int),
                                            ip,
                                        ));
                                    }
                                }
                                assert forall|j: int|
                                    0 <= j < i + 1 && s[j].dst_port is Some implies exists|t: int|
                                    0 <= t < groups@.len() && (#[trigger] groups@[t]).0
                                        == s[j].src_ip by {
                                    if j < i {
                                        let t = choose|t: int|
                                            0 <= t < gs0.len() && (#[trigger] gs0[t]).0
                                                == s[j].src_ip;
                                        assert(groups@[t].0 == s[j].src_ip);
                                    } else {
                                        assert(groups@[kf as int].0 == s[j].src_ip);
                                    }
                                }
                                assert(scan_groups_ok(s, i + 1 as int, groups@));
                            }
                        },
                        None => {
                            let mut ports: Vec<u16> = Vec::new();
                            ports.push(p);
                            groups.push((ip, i, ports));
                            proof {
                                assert(forall|j: int|
                                    0 <= j < i ==> !(s[j].src_ip == ip && s[j].dst_port is Some))
                                    by {
                                    assert forall|j: int|
                                        0 <= j < i && s[j].dst_port is Some implies s[j].src_ip
                                        != ip by {
                                        let t = choose|t: int|
                                            0 <= t < gs0.len() && (#[trigger] gs0[t]).0
                                                == s[j].src_ip;
                                    }
                                }
                                lemma_src_ports_empty(s.take(i as int), ip);
                                assert(groups@.last().2@ =~= src_ports(s.take(i as int), ip).push(
                                    p,
                                ));
                                assert forall|t: int|
                                    0 <= t < groups@.len() implies (#[trigger] groups@[t]).2@
                                    == src_ports(s.take(i + 1 as int), groups@[t].0) by {
                                    if t < groups@.len() - 1 {
                                        assert(groups@[t] == gs0[t]);
                                    }
                                }
                                assert forall|j: int|
                                    0 <= j < i + 1 && s[j].dst_port is Some implies exists|t: int|
                                    0 <= t < groups@.len() && (#[trigger] groups@[t]).0
                                        == s[j].src_ip by {
                                    if j < i {
                                        let t = choose|t: int|
                                            0 <= t < gs0.len() && (#[trigger] gs0[t]).0
                                                == s[j].src_ip;
                                        assert(groups@[t].0 == s[j].src_ip);
                                    } else {
                                        assert(groups@[groups@.len() - 1].0 == s[j].src_ip);
                                    }
                                }
                                assert(scan_groups_ok(s, i + 1 as int, groups@));
                            }
                        },
                    }
                },
                None => {
                    proof {
                        assert forall|t: int|
                            0 <= t < groups@.len() implies (#[trigger] groups@[t]).2@ == src_ports(
                            s.take(i + 1 as int),
                            groups@[t].0,
                        ) by {
                            assert(groups@[t].2@ == src_ports(s.take(i as int), groups@[t].0));
                        }
                        assert(scan_groups_ok(s, i + 1 as int, groups@));
                    }
                },
            }
            i = i + 1;
        }
        proof {
            assert(s.take(n as int) =~= s);
        }
        let mut k: usize = 0;
        while k < groups.len()
            invariant
                s == flows@,
                n == s.len(),
                forall|i: int| 0 <= i < s.len() ==> (#[trigger] s[i]).well_formed(),
                scan_groups_ok(s, n as int, groups@),
                forall|t: int| 0 <= t < k ==> (#[trigger] groups@[t]).2@.to_set().len() < 5,
            decreases groups@.len() - k,
        {
            let nd = count_distinct_ports(&groups[k].2);
            if nd >= 5 {
                let ip = groups[k].0;
                let ghost first = groups@[k as int].1 as int;
                proof {
                    assert(s.take(n as int) =~= s);
                    assert(groups@[k as int].2@ == src_ports(s, ip));
                    assert(distinct_src_ports(s, ip) == nd as int);
                    assert(port_qualifies(s, first));
                    assert forall|j: int| 0 <= j < first implies !port_qualifies(s, j) by {
                        if s[j].dst_port is Some {
                            let t = choose|t: int|
                                0 <= t < groups@.len() && (#[trigger] groups@[t]).0 == s[j].src_ip;
                            assert(groups@[t].1 <= j);
                            if t == k {
                                assert(false);
                            }
                            if t > k {
                                assert(groups@[k as int].1 < groups@[t].1);
                                assert(false);
                            }
                            assert(t < k);
                            assert(groups@[t].2@.to_set().len() < 5);
                            assert(groups@[t].2@ == src_ports(s, s[j].src_ip));
                        }
                    }
                }
                let conf_bp: u32 = if nd >= 100 {
                    10000
                } else {
                    (nd as u32) * 100
                };
                let severity = if nd > 20 {
                    Severity::High
                } else if nd > 10 {
                    Severity::Medium
                } else {
                    Severity::Low
                };

                let mut description = String::new();
                description.append("Port scan detected from ");
                ip.push_text(&mut description);
                description.append(" targeting ");
                push_dec(&mut description, nd as u64);
                description.append(" unique ports");
                proof {
                    assert(description@ =~= "Port scan detected from "@ + ip_text(ip)
                        + " targeting "@ + dec_text(nd as nat) + " unique ports"@);
                }

                let mut indicator = String::new();
                indicator.append("Multiple port connections: ");
                push_dec(&mut indicator, nd as u64);
                proof {
                    assert(indicator@ =~= "Multiple port connections: "@ + dec_text(nd as nat));
                }
                let mut primary_indicators: Vec<String> = Vec::new();
                primary_indicators.push(indicator);
                primary_indicators.push(String::from_str("Sequential port access pattern"));

                let mut feature_importance: Vec<(String, u32)> = Vec::new();
                feature_importance.push((String::from_str("unique_ports"), conf_bp));
                feature_importance.push((String::from_str("connection_pattern"), 8000));

                let mut similar_incidents: Vec<String> = Vec::new();
                similar_incidents.push(String::from_str("Known port scanning signature"));

                let mut recommended_actions: Vec<String> = Vec::new();
                recommended_actions.push(String::from_str("Block source IP address"));
                recommended_actions.push(String::from_str(
                    "Monitor for further scanning activity",
                ));
                recommended_actions.push(String::from_str(
                    "Check target systems for vulnerabilities",
                ));

                let affected_ports = copy_ports(&groups[k].2);

                let mut raw_packets: Vec<u128> = Vec::new();
                let mut fi: usize = 0;
                while fi < flows.len()
                    invariant
                        s == flows@,
                        fi <= s.len(),
                        raw_packets@ == src_packet_ids(s.take(fi as int), ip),
                    decreases s.len() - fi,
                {
                    proof {
                        assert(s.take(fi + 1 as int).drop_last() =~= s.take(fi as int));
                        assert(s.take(fi + 1 as int).last() == s[fi as int]);
                    }
                    if flows[fi].src_ip == ip {
                        let mut ids = collect_ids(&flows[fi].packets);
                        raw_packets.append(&mut ids);
                        proof {
                            assert(raw_packets@ =~= src_packet_ids(s.take(fi + 1 as int), ip));
                        }
                    }
                    fi = fi + 1;
                }
                proof {
                    assert(s.take(s.len() as int) =~= s);
                    lemma_src_ids_len_at(s, ip, first);
                    assert(s[first].well_formed());
                    assert(raw_packets@.len() > 0);
                }

                let alert = ThreatAlert {
                    id: new_uuid(),
                    timestamp_ms: now_ms,
                    severity,
                    threat_type: ThreatType::PortScan,
                    confidence_bp: conf_bp,
                    anomaly_score_bp: conf_bp,
                    source_ip: ip,
                    target_ip: Some(flows[0].dst_ip),
                    affected_ports,
                    description,
                    explanation: ThreatExplanation {
                        primary_indicators,
                        feature_importance,
                        similar_incidents,
                        recommended_actions,
                    },
                    raw_packets,
                };
                proof {
                    assert(is_port_scan_alert(s, alert)) by {
                        assert(port_qualifies(s, first));
                    }
                }
                return Some(alert);
            }
            k = k + 1;
        }
        proof {
            assert forall|i: int| 0 <= i < s.len() implies !port_qualifies(s, i) by {
                if s[i].dst_port is Some {
                    let t = choose|t: int|
                        0 <= t < groups@.len() && (#[trigger] groups@[t]).0 == s[i].src_ip;
                    assert(groups@[t].2@ == src_ports(s, s[i].src_ip));
                    assert(groups@[t].2@.to_set().len() < 5);
                }
            }
        }
        None
    }


    /// Detect volumetric attacks over all flows: group flows by
    /// destination address and report the earliest destination whose
    /// totals exceed a thousand packets or ten megabytes.
    #[verifier::rlimit(100)]
    pub fn detect_ddos(flows: &Vec<NetworkFlow>, now_ms: u64) -> (r: Option<ThreatAlert>)
        requires
            forall|i: int| 0 <= i < flows@.len() ==> (#[trigger] flows@[i]).well_formed(),
        ensures
            r is Some <==> exists|i: int|
                0 <= i < flows@.len() && #[trigger] ddos_qualifies(flows@, i),
            r matches Some(a) ==> {
                &&& is_ddos_alert(flows@, a)
                &&& a.timestamp_ms == now_ms
                &&& a.well_formed()
            },
    {
        let ghost s = flows@;
        let n = flows.len();
        let groups = ddos_group_flows(flows);
        proof {
            assert(s.take(n as int) =~= s);
        }
        let mut k: usize = 0;
        while k < groups.len()
            invariant
                s == flows@,
                n == s.len(),
                forall|i: int| 0 <= i < s.len() ==> (#[trigger] s[i]).well_formed(),
                ddos_groups_ok(s, n as int, groups@),
                forall|t: int|
                    0 <= t < k ==> !((#[trigger] groups@[t]).2 > 1000 || groups@[t].3
                        > 10_000_000),
            decreases groups@.len() - k,
        {
            let pkts = groups[k].2;
            let bytes = groups[k].3;
            proof {
                assert(s.take(n as int) =~= s);
                assert(groups@[k as int].2 as int == vstd::math::min(
                    dst_packets(s, groups@[k as int].0),
                    u64::MAX as int,
                ));
            }
            if pkts > 1000 || bytes > 10_000_000 {
                let ip = groups[k].0;
                let ghost first = groups@[k as int].1 as int;
                let ghost p_true = dst_packets(s, ip);
                let ghost b_true = dst_bytes(s, ip);
                proof {
                    assert(ddos_exceeds(s, ip));
                    assert(ddos_qualifies(s, first));
                    assert forall|j: int| 0 <= j < first implies !ddos_qualifies(s, j) by {
                        let t = choose|t: int|
                            0 <= t < groups@.len() && (#[trigger] groups@[t]).0 == (
                        #[trigger] s[j]).dst_ip;
                        assert(groups@[t].1 <= j);
                        if t == k {
                            assert(false);
                        }
                        if t > k {
                            assert(groups@[k as int].1 < groups@[t].1);
                            assert(false);
                        }
                        assert(t < k);
                        assert(!(groups@[t].2 > 1000 || groups@[t].3 > 10_000_000));
                    }
                }
                let severity = if pkts > 5000 || bytes > 50_000_000 {
                    Severity::Critical
                } else if pkts > 2000 || bytes > 20_000_000 {
                    Severity::High
                } else {
                    Severity::Medium
                };
                proof {
                    assert(severity == ddos_severity(p_true, b_true));
                }
                let pc: u64 = if pkts > 10000 {
                    10000
                } else {
                    pkts
                };
                let bc: u64 = if bytes > 100_000_000 {
                    100_000_000
                } else {
                    bytes
                };
                let conf_bp: u32 = ((pc * 10000 + bc) / 20000) as u32;
                proof {
                    assert(pc as int == vstd::math::min(p_true, 10000));
                    assert(bc as int == vstd::math::min(b_true, 100_000_000));
                    assert(conf_bp as int == ddos_confidence_bp(p_true, b_true));
                }

                let mut description = String::new();
                description.append("Potential DDoS attack detected against ");
                ip.push_text(&mut description);
                description.append(" - ");
                push_dec(&mut description, pkts);
                description.append(" packets, ");
                push_dec(&mut description, bytes);
                description.append(" bytes");
                proof {
                    assert(description@ =~= "Potential DDoS attack detected against "@ + ip_text(
                        ip,
                    ) + " - "@ + dec_text(pkts as nat) + " packets, "@ + dec_text(bytes as nat)
                        + " bytes"@);
                }

                let mut ind0 = String::new();
                ind0.append("High packet volume: ");
                push_dec(&mut ind0, pkts);
                ind0.append(" packets");
                proof {
                    assert(ind0@ =~= "High packet volume: "@ + dec_text(pkts as nat)
                        + " packets"@);
                }
                let mut ind1 = String::new();
                ind1.append("High bandwidth usage: ");
                push_dec(&mut ind1, bytes);
                ind1.append(" bytes");
                proof {
                    assert(ind1@ =~= "High bandwidth usage: "@ + dec_text(bytes as nat)
                        + " bytes"@);
                }
                let mut primary_indicators: Vec<String> = Vec::new();
                primary_indicators.push(ind0);
                primary_indicators.push(ind1);
                primary_indicators.push(String::from_str(
                    "Multiple source IPs targeting single destination",
                ));

                let mut feature_importance: Vec<(String, u32)> = Vec::new();
                feature_importance.push((String::from_str("packet_volume"), 9000));
                feature_importance.push((String::from_str("bandwidth_usage"), 8000));
                feature_importance.push((String::from_str("source_diversity"), 7000));

                let mut similar_incidents: Vec<String> = Vec::new();
                similar_incidents.push(String::from_str("Volume-based DDoS pattern"));

                let mut recommended_actions: Vec<String> = Vec::new();
                recommended_actions.push(String::from_str("Activate DDoS protection measures"));
                recommended_actions.push(String::from_str("Rate limit incoming connections"));
                recommended_actions.push(String::from_str("Contact ISP for upstream filtering"));
                recommended_actions.push(String::from_str("Monitor target system performance"));

                let mut affected_ports: Vec<u16> = Vec::new();
                let mut fi: usize = 0;
                while fi < flows.len()
                    invariant
                        s == flows@,
                        fi <= s.len(),
                        affected_ports@ == dst_ports_dedup(s.take(fi as int), ip),
                    decreases s.len() - fi,
                {
                    proof {
                        assert(s.take(fi + 1 as int).drop_last() =~= s.take(fi as int));
                        assert(s.take(fi + 1 as int).last() == s[fi as int]);
                    }
                    if flows[fi].dst_ip == ip {
                        match flows[fi].dst_port {
                            Some(p) => {
                                if !ports_contain(&affected_ports, p) {
                                    affected_ports.push(p);
                                }
                            },
                            None => {},
                        }
                    }
                    fi = fi + 1;
                }
                proof {
                    assert(s.take(s.len() as int) =~= s);
                }

                let mut raw_packets: Vec<u128> = Vec::new();
                let mut fj: usize = 0;
                while fj < flows.len()
                    invariant
                        s == flows@,
                        fj <= s.len(),
                        raw_packets@ == dst_packet_ids(s.take(fj as int), ip),
                    decreases s.len() - fj,
                {
                    proof {
                        assert(s.take(fj + 1 as int).drop_last() =~= s.take(fj as int));
                        assert(s.take(fj + 1 as int).last() == s[fj as int]);
                    }
                    if flows[fj].dst_ip == ip {
                        let mut ids = collect_ids(&flows[fj].packets);
                        raw_packets.append(&mut ids);
                        proof {
                            assert(raw_packets@ =~= dst_packet_ids(s.take(fj + 1 as int), ip));
                        }
                    }
                    fj = fj + 1;
                }
                proof {
                    assert(s.take(s.len() as int) =~= s);
                    lemma_dst_ids_len_at(s, ip, first);
                    assert(s[first].well_formed());
                    assert(raw_packets@.len() > 0);
                }

                let alert = ThreatAlert {
                    id: new_uuid(),
                    timestamp_ms: now_ms,
                    severity,
                    threat_type: ThreatType::DDoS,
                    confidence_bp: conf_bp,
                    anomaly_score_bp: conf_bp,
                    source_ip: flows[0].src_ip,
                    target_ip: Some(ip),
                    affected_ports,
                    description,
                    explanation: ThreatExplanation {
                        primary_indicators,
                        feature_importance,
                        similar_incidents,
                        recommended_actions,
                    },
                    raw_packets,
                };
                proof {
                    assert(is_ddos_alert(s, alert)) by {
                        assert(ddos_qualifies(s, first));
                    }
                }
                return Some(alert);
            }
            k = k + 1;
        }
        proof {
            assert(s.take(n as int) =~= s);
            assert forall|i: int| 0 <= i < s.len() implies !ddos_qualifies(s, i) by {
                let t = choose|t: int|
                    0 <= t < groups@.len() && (#[trigger] groups@[t]).0 == (#[trigger] s[i]).dst_ip;
                assert(!(groups@[t].2 > 1000 || groups@[t].3 > 10_000_000));
                assert(groups@[t].2 as int == vstd::math::min(dst_packets(s, s[i].dst_ip),
                    u64::MAX as int,
                ));
            }
        }
        None
    }

    /// Detect suspicious flag combinations in one flow. Emits a
    /// Medium-severity alert exactly when the flow's flag union holds both
    /// SYN and FIN, or more than ten of its packets carry SYN.
    pub fn detect_suspicious_flags(flow: &NetworkFlow, now_ms: u64) -> (r: Option<ThreatAlert>)
        requires
            flow.well_formed(),
        ensures
            r is Some <==> suspicious_condition(*flow),
            r matches Some(a) ==> {
                &&& is_suspicious_alert(*flow, a)
                &&& a.timestamp_ms == now_ms
                &&& a.well_formed()
            },
    {
        let syn_fin = crate::flow::flags_contain(&flow.flags_seen, TcpFlag::SYN)
            && crate::flow::flags_contain(&flow.flags_seen, TcpFlag::FIN);
        let syn_count = count_syn_packets(&flow.packets);
        if !(syn_fin || syn_count > 10) {
            return None;
        }
        let mut flags_str = String::new();
        push_flags_text(&mut flags_str, &flow.flags_seen);

        let mut description = String::new();
        description.append("Suspicious TCP flag combination detected: ");
        description.append(flags_str.as_str());
        proof {
            assert(description@ =~= "Suspicious TCP flag combination detected: "@
                + flags_join_text(flow.flags_seen@));
        }

        let mut indicator = String::new();
        indicator.append("Unusual flag combination: ");
        indicator.append(flags_str.as_str());
        proof {
            assert(indicator@ =~= "Unusual flag combination: "@ + flags_join_text(
                flow.flags_seen@,
            ));
        }
        let mut primary_indicators: Vec<String> = Vec::new();
        primary_indicators.push(indicator);
        primary_indicators.push(String::from_str("Potential TCP stack fingerprinting"));

        let mut feature_importance: Vec<(String, u32)> = Vec::new();
        feature_importance.push((String::from_str("flag_pattern"), 8000));
        feature_importance.push((String::from_str("connection_behavior"), 6000));

        let mut similar_incidents: Vec<String> = Vec::new();
        similar_incidents.push(String::from_str("TCP flag manipulation attempt"));

        let mut recommended_actions: Vec<String> = Vec::new();
        recommended_actions.push(String::from_str(
            "Monitor source IP for additional suspicious activity",
        ));
        recommended_actions.push(String::from_str("Check firewall rules for flag filtering"));

        let mut affected_ports: Vec<u16> = Vec::new();
        match flow.dst_port {
            Some(p) => {
                affected_ports.push(p);
                proof {
                    assert(affected_ports@ =~= seq![p]);
                }
            },
            None => {},
        }

        let raw_packets = collect_ids(&flow.packets);

        let alert = ThreatAlert {
            id: new_uuid(),
            timestamp_ms: now_ms,
            severity: Severity::Medium,
            threat_type: ThreatType::Suspicious,
            confidence_bp: 6000,
            anomaly_score_bp: 6000,
            source_ip: flow.src_ip,
            target_ip: Some(flow.dst_ip),
            affected_ports,
            description,
            explanation: ThreatExplanation {
                primary_indicators,
                feature_importance,
                similar_incidents,
                recommended_actions,
            },
            raw_packets,
        };
        Some(alert)
    }
}

} // verus!
