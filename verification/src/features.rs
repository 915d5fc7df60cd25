//! Feature extraction: the integer-valued core of a flow's feature
//! vector — counts, histograms, inter-arrival times and sizes — from
//! which callers derive rates and distributional statistics.

use vstd::prelude::*;

use crate::flow::{packets_size_sum, NetworkFlow};
use crate::stats::{proto_keys_distinct, proto_lookup};
use crate::types::{flow_key_text, IdsError, PacketData, Protocol, TcpFlag};

verus! {

use vstd::pervasive::VecAdditionalExecFns;

/// How many packets of a sequence carry a protocol.
pub open spec fn proto_count_in(ps: Seq<PacketData>, q: Protocol) -> int {
    ps.filter(|p: PacketData| p.parsed.protocol == q).len() as int
}

/// How many packets of a sequence address a destination port.
pub open spec fn port_count_in(ps: Seq<PacketData>, port: u16) -> int {
    ps.filter(|p: PacketData| p.parsed.dst_port == Some(port)).len() as int
}

/// True when no port appears twice in the histogram.
pub open spec fn port_keys_distinct(s: Seq<(u16, u64)>) -> bool {
    forall|i: int, j: int| 0 <= i < j < s.len() ==> s[i].0 != s[j].0
}

/// The histogram count recorded for a port, when one is recorded.
pub open spec fn port_lookup(s: Seq<(u16, u64)>, p: u16) -> Option<u64> {
    if exists|i: int| 0 <= i < s.len() && s[i].0 == p {
        Some(s[choose|i: int| 0 <= i < s.len() && s[i].0 == p].1)
    } else {
        None
    }
}

/// All flags of a packet sequence, concatenated in order.
pub open spec fn all_flags(ps: Seq<PacketData>) -> Seq<TcpFlag>
    decreases ps.len(),
{
    if ps.len() == 0 {
        Seq::<TcpFlag>::empty()
    } else {
        all_flags(ps.drop_last()) + ps.last().parsed.flags@
    }
}

/// The integer-valued core of a flow's feature vector. Rates, entropy and
/// variance are real-valued and are derived by the caller from these
/// exact counts.
#[derive(Clone, Debug)]
pub struct FlowFeatures {
    pub flow_id: String,
    /// Observed duration, in milliseconds.
    pub duration_ms: u64,
    pub packet_count: u64,
    pub byte_count: u64,
    /// Packets per protocol, keys unique.
    pub protocol_counts: Vec<(Protocol, u64)>,
    /// Packets per destination port, keys unique.
    pub port_counts: Vec<(u16, u64)>,
    /// Inter-arrival times, in milliseconds, floored at zero.
    pub inter_arrival_ms: Vec<u64>,
    /// Individual packet sizes, in bytes.
    pub sizes: Vec<u64>,
    /// The flag patterns the feature vector counts over.
    pub flag_patterns: Vec<TcpFlag>,
}

/// Add one protocol observation to a histogram.
fn bump_proto_hist(h: &mut Vec<(Protocol, u64)>, p: Protocol, Ghost(bound): Ghost<u64>)
    requires
        proto_keys_distinct(old(h)@),
        bound < u64::MAX,
        forall|k: int| 0 <= k < old(h)@.len() ==> (#[trigger] old(h)@[k]).1 <= bound,
    ensures
        proto_keys_distinct(final(h)@),
        proto_lookup(old(h)@, p) matches Some(c) ==> proto_lookup(final(h)@, p) == Some(
            (c + 1) as u64,
        ),
        proto_lookup(old(h)@, p) is None ==> proto_lookup(final(h)@, p) == Some(1u64),
        forall|q: Protocol|
            q != p ==> #[trigger] proto_lookup(final(h)@, q) == proto_lookup(old(h)@, q),
        final(h)@.len() <= old(h)@.len() + 1,
        forall|k: int| 0 <= k < final(h)@.len() ==> (#[trigger] final(h)@[k]).1 <= bound + 1,
{
    let ghost s0 = h@;
    let n = h.len();
    let mut i: usize = 0;
    while i < n
        invariant
            n == h@.len(),
            i <= n,
            forall|j: int| 0 <= j < i ==> h@[j].0 != p,
            h@ == s0,
            s0 == old(h)@,
            proto_keys_distinct(s0),
            bound < u64::MAX,
            forall|k: int| 0 <= k < s0.len() ==> (#[trigger] s0[k]).1 <= bound,
        decreases n - i,
    {
        let entry = h[i];
        if entry.0 == p {
            h.set(i, (p, entry.1 + 1));
            proof {
                let s1 = h@;
                assert(s1 =~= s0.update(i as int, (p, (s0[i as int].1 + 1) as u64)));
                assert(s0[i as int].0 == p);
                assert forall|k: int| 0 <= k < s1.len() && k != i implies s1[k].0 != p by {
                    assert(s1[k] == s0[k]);
                    if k < i {
                    } else {
                        assert(s0[i as int].0 != s0[k].0);
                    }
                }
                assert(proto_keys_distinct(s1));
                assert(s1[i as int].0 == p);
                let w = choose|k: int| 0 <= k < s0.len() && s0[k].0 == p;
                assert(w == i);
                let w1 = choose|k: int| 0 <= k < s1.len() && s1[k].0 == p;
                assert(w1 == i);
                assert forall|q: Protocol| q != p implies #[trigger] proto_lookup(s1, q)
                    == proto_lookup(s0, q) by {
                    if exists|k: int| 0 <= k < s0.len() && s0[k].0 == q {
                        let k0 = choose|k: int| 0 <= k < s0.len() && s0[k].0 == q;
                        assert(s1[k0].0 == q);
                        let k1 = choose|k: int| 0 <= k < s1.len() && s1[k].0 == q;
                        assert(s0[k1].0 == q);
                        assert(k0 == k1);
                    } else {
                        assert(forall|k: int| 0 <= k < s1.len() ==> s1[k].0 != q);
                    }
                }
            }
            return ;
        }
        i = i + 1;
    }
    h.push((p, 1));
    proof {
        let s1 = h@;
        assert(s1 =~= s0.push((p, 1u64)));
        assert(forall|k: int| 0 <= k < s0.len() ==> s0[k].0 != p);
        assert(proto_keys_distinct(s1));
        assert(s1[s0.len() as int].0 == p);
        let w1 = choose|k: int| 0 <= k < s1.len() && s1[k].0 == p;
        assert(w1 == s0.len());
        assert forall|q: Protocol| q != p implies #[trigger] proto_lookup(s1, q) == proto_lookup(
            s0,
            q,
        ) by {
            if exists|k: int| 0 <= k < s0.len() && s0[k].0 == q {
                let k0 = choose|k: int| 0 <= k < s0.len() && s0[k].0 == q;
                assert(s1[k0].0 == q);
                let k1 = choose|k: int| 0 <= k < s1.len() && s1[k].0 == q;
                assert(k0 == k1);
            } else {
                assert(forall|k: int| 0 <= k < s1.len() ==> s1[k].0 != q);
            }
        }
    }
}

/// The protocol histogram of a packet sequence.
#[verifier::rlimit(100)]
fn histogram_protocols(ps: &Vec<PacketData>) -> (h: Vec<(Protocol, u64)>)
    ensures
        proto_keys_distinct(h@),
        forall|q: Protocol|
            #[trigger] proto_lookup(h@, q) == if proto_count_in(ps@, q) == 0 {
                None::<u64>
            } else {
                Some(proto_count_in(ps@, q) as u64)
            },
{
    let ghost s = ps@;
    let mut h: Vec<(Protocol, u64)> = Vec::new();
    let mut i: usize = 0;
    while i < ps.len()
        invariant
            s == ps@,
            i <= s.len(),
            proto_keys_distinct(h@),
            forall|k: int| 0 <= k < h@.len() ==> (#[trigger] h@[k]).1 <= i,
            forall|q: Protocol|
                #[trigger] proto_lookup(h@, q) == if proto_count_in(s.take(i as int), q) == 0 {
                    None::<u64>
                } else {
                    Some(proto_count_in(s.take(i as int), q) as u64)
                },
        decreases s.len() - i,
    {
        let ghost h0 = h@;
        let p = ps[i].parsed.protocol;
        proof {
            assert(s.take(i + 1 as int).drop_last() =~= s.take(i as int));
            assert(s.take(i + 1 as int).last() == s[i as int]);
            reveal_with_fuel(Seq::filter, 2);
        }
        bump_proto_hist(&mut h, p, Ghost(i as u64));
        proof {
            assert forall|q: Protocol|
                #[trigger] proto_lookup(h@, q) == (if proto_count_in(s.take(i + 1 as int), q)
                    == 0 {
                    None::<u64>
                } else {
                    Some(proto_count_in(s.take(i + 1 as int), q) as u64)
                }) by {
                reveal_with_fuel(Seq::filter, 2);
                if q == p {
                    assert(proto_count_in(s.take(i + 1 as int), q) == proto_count_in(
                        s.take(i as int),
                        q,
                    ) + 1);
                } else {
                    assert(proto_count_in(s.take(i + 1 as int), q) == proto_count_in(
                        s.take(i as int),
                        q,
                    ));
                }
            }
        }
        i = i + 1;
    }
    proof {
        assert(s.take(s.len() as int) =~= s);
    }
    h
}


/// Add one destination-port observation to a histogram.
fn bump_port_hist(h: &mut Vec<(u16, u64)>, p: u16, Ghost(bound): Ghost<u64>)
    requires
        port_keys_distinct(old(h)@),
        bound < u64::MAX,
        forall|k: int| 0 <= k < old(h)@.len() ==> (#[trigger] old(h)@[k]).1 <= bound,
    ensures
        port_keys_distinct(final(h)@),
        port_lookup(old(h)@, p) matches Some(c) ==> port_lookup(final(h)@, p) == Some(
            (c + 1) as u64,
        ),
        port_lookup(old(h)@, p) is None ==> port_lookup(final(h)@, p) == Some(1u64),
        forall|q: u16| q != p ==> #[trigger] port_lookup(final(h)@, q) == port_lookup(old(h)@, q),
        final(h)@.len() <= old(h)@.len() + 1,
        forall|k: int| 0 <= k < final(h)@.len() ==> (#[trigger] final(h)@[k]).1 <= bound + 1,
{
    let ghost s0 = h@;
    let n = h.len();
    let mut i: usize = 0;
    while i < n
        invariant
            n == h@.len(),
            i <= n,
            forall|j: int| 0 <= j < i ==> h@[j].0 != p,
            h@ == s0,
            s0 == old(h)@,
            port_keys_distinct(s0),
            bound < u64::MAX,
            forall|k: int| 0 <= k < s0.len() ==> (#[trigger] s0[k]).1 <= bound,
        decreases n - i,
    {
        let entry = h[i];
        if entry.0 == p {
            h.set(i, (p, entry.1 + 1));
            proof {
                let s1 = h@;
                assert(s1 =~= s0.update(i as int, (p, (s0[i as int].1 + 1) as u64)));
                assert(s0[i as int].0 == p);
                assert forall|k: int| 0 <= k < s1.len() && k != i implies s1[k].0 != p by {
                    assert(s1[k] == s0[k]);
                    if k < i {
                    } else {
                        assert(s0[i as int].0 != s0[k].0);
                    }
                }
                assert(port_keys_distinct(s1));
                assert(s1[i as int].0 == p);
                let w = choose|k: int| 0 <= k < s0.len() && s0[k].0 == p;
                assert(w == i);
                let w1 = choose|k: int| 0 <= k < s1.len() && s1[k].0 == p;
                assert(w1 == i);
                assert forall|q: u16| q != p implies #[trigger] port_lookup(s1, q) == port_lookup(
                    s0,
                    q,
                ) by {
                    if exists|k: int| 0 <= k < s0.len() && s0[k].0 == q {
                        let k0 = choose|k: int| 0 <= k < s0.len() && s0[k].0 == q;
                        assert(s1[k0].0 == q);
                        let k1 = choose|k: int| 0 <= k < s1.len() && s1[k].0 == q;
                        assert(s0[k1].0 == q);
                        assert(k0 == k1);
                    } else {
                        assert(forall|k: int| 0 <= k < s1.len() ==> s1[k].0 != q);
                    }
                }
            }
            return ;
        }
        i = i + 1;
    }
    h.push((p, 1));
    proof {
        let s1 = h@;
        assert(s1 =~= s0.push((p, 1u64)));
        assert(forall|k: int| 0 <= k < s0.len() ==> s0[k].0 != p);
        assert(port_keys_distinct(s1));
        assert(s1[s0.len() as int].0 == p);
        let w1 = choose|k: int| 0 <= k < s1.len() && s1[k].0 == p;
        assert(w1 == s0.len());
        assert forall|q: u16| q != p implies #[trigger] port_lookup(s1, q) == port_lookup(
            s0,
            q,
        ) by {
            if exists|k: int| 0 <= k < s0.len() && s0[k].0 == q {
                let k0 = choose|k: int| 0 <= k < s0.len() && s0[k].0 == q;
                assert(s1[k0].0 == q);
                let k1 = choose|k: int| 0 <= k < s1.len() && s1[k].0 == q;
                assert(k0 == k1);
            } else {
                assert(forall|k: int| 0 <= k < s1.len() ==> s1[k].0 != q);
            }
        }
    }
}

/// The destination-port histogram of a packet sequence.
#[verifier::rlimit(100)]
fn histogram_ports(ps: &Vec<PacketData>) -> (h: Vec<(u16, u64)>)
    ensures
        port_keys_distinct(h@),
        forall|q: u16|
            #[trigger] port_lookup(h@, q) == if port_count_in(ps@, q) == 0 {
                None::<u64>
            } else {
                Some(port_count_in(ps@, q) as u64)
            },
{
    let ghost s = ps@;
    let mut h: Vec<(u16, u64)> = Vec::new();
    let mut i: usize = 0;
    while i < ps.len()
        invariant
            s == ps@,
            i <= s.len(),
            port_keys_distinct(h@),
            forall|k: int| 0 <= k < h@.len() ==> (#[trigger] h@[k]).1 <= i,
            forall|q: u16|
                #[trigger] port_lookup(h@, q) == if port_count_in(s.take(i as int), q) == 0 {
                    None::<u64>
                } else {
                    Some(port_count_in(s.take(i as int), q) as u64)
                },
        decreases s.len() - i,
    {
        proof {
            assert(s.take(i + 1 as int).drop_last() =~= s.take(i as int));
            assert(s.take(i + 1 as int).last() == s[i as int]);
            reveal_with_fuel(Seq::filter, 2);
        }
        match ps[i].parsed.dst_port {
            Some(p) => {
                bump_port_hist(&mut h, p, Ghost(i as u64));
                proof {
                    assert forall|q: u16|
                        #[trigger] port_lookup(h@, q) == (if port_count_in(
                            s.take(i + 1 as int),
                            q,
                        ) == 0 {
                            None::<u64>
                        } else {
                            Some(port_count_in(s.take(i + 1 as int), q) as u64)
                        }) by {
                        reveal_with_fuel(Seq::filter, 2);
                        if q == p {
                            assert(port_count_in(s.take(i + 1 as int), q) == port_count_in(
                                s.take(i as int),
                                q,
                            ) + 1);
                        } else {
                            assert(port_count_in(s.take(i + 1 as int), q) == port_count_in(
                                s.take(i as int),
                                q,
                            ));
                        }
                    }
                }
            },
            None => {
                proof {
                    assert forall|q: u16|
                        #[trigger] port_lookup(h@, q) == (if port_count_in(
                            s.take(i + 1 as int),
                            q,
                        ) == 0 {
                            None::<u64>
                        } else {
                            Some(port_count_in(s.take(i + 1 as int), q) as u64)
                        }) by {
                        reveal_with_fuel(Seq::filter, 2);
                        assert(port_count_in(s.take(i + 1 as int), q) == port_count_in(
                            s.take(i as int),
                            q,
                        ));
                    }
                }
            },
        }
        i = i + 1;
    }
    proof {
        assert(s.take(s.len() as int) =~= s);
    }
    h
}

/// The inter-arrival times of a packet sequence, in milliseconds, with
/// negative wall-clock differences floored at zero.
fn inter_arrivals(ps: &Vec<PacketData>) -> (r: Vec<u64>)
    requires
        ps@.len() >= 1,
    ensures
        r@.len() == ps@.len() - 1,
        forall|i: int|
            0 <= i < r@.len() ==> #[trigger] r@[i] == (if ps@[i + 1].timestamp_ms
                >= ps@[i].timestamp_ms {
                (ps@[i + 1].timestamp_ms - ps@[i].timestamp_ms) as u64
            } else {
                0u64
            }),
{
    let mut out: Vec<u64> = Vec::new();
    let mut i: usize = 1;
    while i < ps.len()
        invariant
            1 <= i <= ps@.len() || (ps@.len() == 1 && i == 1),
            out@.len() == i - 1,
            forall|j: int|
                0 <= j < out@.len() ==> #[trigger] out@[j] == (if ps@[j + 1].timestamp_ms
                    >= ps@[j].timestamp_ms {
                    (ps@[j + 1].timestamp_ms - ps@[j].timestamp_ms) as u64
                } else {
                    0u64
                }),
        decreases ps@.len() - i,
    {
        let prev = ps[i - 1].timestamp_ms;
        let cur = ps[i].timestamp_ms;
        let diff = if cur >= prev {
            cur - prev
        } else {
            0
        };
        out.push(diff);
        i = i + 1;
    }
    out
}

/// The sizes of a packet sequence, in bytes.
fn packet_sizes(ps: &Vec<PacketData>) -> (r: Vec<u64>)
    ensures
        r@.len() == ps@.len(),
        forall|i: int| 0 <= i < r@.len() ==> #[trigger] r@[i] == ps@[i].parsed.size as u64,
{
    let mut out: Vec<u64> = Vec::new();
    let mut i: usize = 0;
    while i < ps.len()
        invariant
            i <= ps@.len(),
            out@.len() == i,
            forall|j: int| 0 <= j < i ==> #[trigger] out@[j] == ps@[j].parsed.size as u64,
        decreases ps@.len() - i,
    {
        out.push(ps[i].parsed.size as u64);
        i = i + 1;
    }
    out
}

/// The concatenated flags of a packet sequence.
fn collect_all_flags(ps: &Vec<PacketData>) -> (r: Vec<TcpFlag>)
    ensures
        r@ == all_flags(ps@),
{
    let mut out: Vec<TcpFlag> = Vec::new();
    let mut i: usize = 0;
    while i < ps.len()
        invariant
            i <= ps@.len(),
            out@ == all_flags(ps@.take(i as int)),
        decreases ps@.len() - i,
    {
        proof {
            assert(ps@.take(i + 1 as int).drop_last() =~= ps@.take(i as int));
            assert(ps@.take(i + 1 as int).last() == ps@[i as int]);
        }
        let mut fs = crate::flow::copy_flags(&ps[i].parsed.flags);
        out.append(&mut fs);
        proof {
            assert(out@ =~= all_flags(ps@.take(i + 1 as int)));
        }
        i = i + 1;
    }
    proof {
        assert(ps@.take(ps@.len() as int) =~= ps@);
    }
    out
}

/// The saturating byte total of a packet sequence.
fn sum_sizes(ps: &Vec<PacketData>) -> (r: u64)
    ensures
        r as int == vstd::math::min(packets_size_sum(ps@), u64::MAX as int),
{
    let mut total: u64 = 0;
    let mut i: usize = 0;
    while i < ps.len()
        invariant
            i <= ps@.len(),
            total as int == vstd::math::min(packets_size_sum(ps@.take(i as int)), u64::MAX as int),
        decreases ps@.len() - i,
    {
        proof {
            assert(ps@.take(i + 1 as int).drop_last() =~= ps@.take(i as int));
            assert(ps@.take(i + 1 as int).last() == ps@[i as int]);
        }
        total = total.saturating_add(ps[i].parsed.size as u64);
        i = i + 1;
    }
    proof {
        assert(ps@.take(ps@.len() as int) =~= ps@);
    }
    total
}

/// Exact shape of the feature core extracted from a packet sequence.
pub open spec fn features_match(ps: Seq<PacketData>, f: FlowFeatures) -> bool {
    &&& f.flow_id@ == flow_key_text(ps[0].parsed.src_ip, ps[0].parsed.src_port,
        ps[0].parsed.dst_ip, ps[0].parsed.dst_port, ps[0].parsed.protocol)
    &&& f.duration_ms as int == if ps.last().timestamp_ms >= ps[0].timestamp_ms {
        ps.last().timestamp_ms - ps[0].timestamp_ms
    } else {
        0int
    }
    &&& f.packet_count == ps.len()
    &&& f.byte_count as int == vstd::math::min(packets_size_sum(ps), u64::MAX as int)
    &&& proto_keys_distinct(f.protocol_counts@)
    &&& forall|q: Protocol|
        #[trigger] proto_lookup(f.protocol_counts@, q) == if proto_count_in(ps, q) == 0 {
            None::<u64>
        } else {
            Some(proto_count_in(ps, q) as u64)
        }
    &&& port_keys_distinct(f.port_counts@)
    &&& forall|q: u16|
        #[trigger] port_lookup(f.port_counts@, q) == if port_count_in(ps, q) == 0 {
            None::<u64>
        } else {
            Some(port_count_in(ps, q) as u64)
        }
    &&& f.inter_arrival_ms@.len() == ps.len() - 1
    &&& forall|i: int|
        0 <= i < f.inter_arrival_ms@.len() ==> #[trigger] f.inter_arrival_ms@[i] == (if ps[i
            + 1].timestamp_ms >= ps[i].timestamp_ms {
            (ps[i + 1].timestamp_ms - ps[i].timestamp_ms) as u64
        } else {
            0u64
        })
    &&& f.sizes@.len() == ps.len()
    &&& forall|i: int| 0 <= i < f.sizes@.len() ==> #[trigger] f.sizes@[i] == ps[i].parsed.size as u64
}

/// Extract features from packet sequences for analysis.
pub struct FeatureExtractor;

impl FeatureExtractor {
    /// Create the feature core of a packet sequence. Fails exactly on an
    /// empty sequence; the flag patterns are the packets' flags
    /// concatenated in order.
    pub fn extract_flow_features(packets: &Vec<PacketData>) -> (r: Result<FlowFeatures, IdsError>)
        requires
            packets@.len() <= u64::MAX,
        ensures
            r is Ok <==> packets@.len() > 0,
            r matches Err(e) ==> e == IdsError::DecodeError,
            r matches Ok(f) ==> features_match(packets@, f) && f.flag_patterns@ == all_flags(
                packets@,
            ),
    {
        if packets.len() == 0 {
            return Err(IdsError::DecodeError);
        }
        let first = &packets[0];
        let flow_id = first.parsed.flow_key();
        let last_ts = packets[packets.len() - 1].timestamp_ms;
        let first_ts = first.timestamp_ms;
        let duration_ms = if last_ts >= first_ts {
            last_ts - first_ts
        } else {
            0
        };
        let byte_count = sum_sizes(packets);
        let f = FlowFeatures {
            flow_id,
            duration_ms,
            packet_count: packets.len() as u64,
            byte_count,
            protocol_counts: histogram_protocols(packets),
            port_counts: histogram_ports(packets),
            inter_arrival_ms: inter_arrivals(packets),
            sizes: packet_sizes(packets),
            flag_patterns: collect_all_flags(packets),
        };
        Ok(f)
    }
}

impl NetworkFlow {
    /// The feature core of this flow: the duration is the observed span,
    /// the byte count the flow's counter, and the flag patterns are the
    /// flow's deduplicated flag union.
    pub fn to_features(&self) -> (f: FlowFeatures)
        requires
            self.well_formed(),
            self.packets@.len() <= u64::MAX,
        ensures
            f.flow_id@ == flow_key_text(self.src_ip, self.src_port, self.dst_ip, self.dst_port,
                self.protocol,
            ),
            f.duration_ms == self.last_seen_ms - self.start_time_ms,
            f.packet_count == self.packets@.len(),
            f.byte_count == self.byte_count,
            proto_keys_distinct(f.protocol_counts@),
            forall|q: Protocol|
                #[trigger] proto_lookup(f.protocol_counts@, q) == (if proto_count_in(
                    self.packets@,
                    q,
                ) == 0 {
                    None::<u64>
                } else {
                    Some(proto_count_in(self.packets@, q) as u64)
                }),
            port_keys_distinct(f.port_counts@),
            forall|q: u16|
                #[trigger] port_lookup(f.port_counts@, q) == (if port_count_in(self.packets@, q)
                    == 0 {
                    None::<u64>
                } else {
                    Some(port_count_in(self.packets@, q) as u64)
                }),
            f.inter_arrival_ms@.len() == self.packets@.len() - 1,
            forall|i: int|
                0 <= i < f.inter_arrival_ms@.len() ==> #[trigger] f.inter_arrival_ms@[i] == (if
                self.packets@[i + 1].timestamp_ms >= self.packets@[i].timestamp_ms {
                    (self.packets@[i + 1].timestamp_ms - self.packets@[i].timestamp_ms) as u64
                } else {
                    0u64
                }),
            f.sizes@.len() == self.packets@.len(),
            forall|i: int|
                0 <= i < f.sizes@.len() ==> #[trigger] f.sizes@[i] == self.packets@[i].parsed.size
                    as u64,
            f.flag_patterns@ == self.flags_seen@,
    {
        FlowFeatures {
            flow_id: self.flow_key(),
            duration_ms: self.last_seen_ms - self.start_time_ms,
            packet_count: self.packets.len() as u64,
            byte_count: self.byte_count,
            protocol_counts: histogram_protocols(&self.packets),
            port_counts: histogram_ports(&self.packets),
            inter_arrival_ms: inter_arrivals(&self.packets),
            sizes: packet_sizes(&self.packets),
            flag_patterns: crate::flow::copy_flags(&self.flags_seen),
        }
    }
}


} // verus!
