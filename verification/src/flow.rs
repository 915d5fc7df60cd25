//! Flow tracking: one directional conversation per 5-tuple, and the table
//! of active flows with upsert and timeout-driven eviction.

use vstd::prelude::*;

use crate::types::{
    flags_distinct, flow_key_text, IpAddress, PacketData, ParsedPacket, Protocol, TcpFlag,
};

verus! {

/// Total size in bytes of a packet sequence.
pub open spec fn packets_size_sum(s: Seq<PacketData>) -> int
    decreases s.len(),
{
    if s.len() == 0 {
        0
    } else {
        packets_size_sum(s.drop_last()) + s.last().parsed.size
    }
}

/// The flag list after merging in `add`, keeping first-seen order and
/// skipping flags already present.
pub open spec fn merge_flags(seen: Seq<TcpFlag>, add: Seq<TcpFlag>) -> Seq<TcpFlag>
    decreases add.len(),
{
    if add.len() == 0 {
        seen
    } else {
        let s1 = if seen.contains(add[0]) {
            seen
        } else {
            seen.push(add[0])
        };
        merge_flags(s1, add.drop_first())
    }
}

proof fn lemma_merge_flags_snoc(seen: Seq<TcpFlag>, a: Seq<TcpFlag>, x: TcpFlag)
    ensures
        merge_flags(seen, a.push(x)) == ({
            let m = merge_flags(seen, a);
            if m.contains(x) {
                m
            } else {
                m.push(x)
            }
        }),
    decreases a.len(),
{
    if a.len() == 0 {
        assert(a.push(x)[0] == x);
        assert(a.push(x).drop_first() =~= Seq::<TcpFlag>::empty());
        assert(merge_flags(seen, a) == seen);
        let s1 = if seen.contains(x) {
            seen
        } else {
            seen.push(x)
        };
        assert(merge_flags(seen, a.push(x)) == merge_flags(s1, a.push(x).drop_first()));
        assert(merge_flags(s1, a.push(x).drop_first()) == s1);
    } else {
        assert(a.push(x)[0] == a[0]);
        assert(a.push(x).drop_first() =~= a.drop_first().push(x));
        let s1 = if seen.contains(a[0]) {
            seen
        } else {
            seen.push(a[0])
        };
        lemma_merge_flags_snoc(s1, a.drop_first(), x);
        assert(merge_flags(seen, a) == merge_flags(s1, a.drop_first()));
        assert(merge_flags(seen, a.push(x)) == merge_flags(s1, a.push(x).drop_first()));
        assert(merge_flags(s1, a.push(x).drop_first()) == merge_flags(s1, a.drop_first().push(x)));
    }
}

/// One directional network conversation.
#[derive(Clone, Debug)]
#[verifier::ext_equal]
pub struct NetworkFlow {
    pub src_ip: IpAddress,
    pub dst_ip: IpAddress,
    pub src_port: Option<u16>,
    pub dst_port: Option<u16>,
    pub protocol: Protocol,
    /// Constituent packets, in arrival order.
    pub packets: Vec<PacketData>,
    /// First-seen instant, in milliseconds.
    pub start_time_ms: u64,
    /// Last-seen instant, in milliseconds.
    pub last_seen_ms: u64,
    /// Total bytes over all packets.
    pub byte_count: u64,
    /// Union of flags observed, in first-seen order, no duplicates.
    pub flags_seen: Vec<TcpFlag>,
}

impl NetworkFlow {
    /// The flow's identifying 5-tuple.
    pub open spec fn key(self) -> (IpAddress, Option<u16>, IpAddress, Option<u16>, Protocol) {
        (self.src_ip, self.src_port, self.dst_ip, self.dst_port, self.protocol)
    }

    /// A flow holds at least one packet; its byte counter equals the sum
    /// of its packets' sizes (stopping at the largest representable value);
    /// its observed instants are ordered; its flag union has no duplicates;
    /// and each packet is itself well formed.
    pub open spec fn well_formed(self) -> bool {
        &&& self.packets@.len() >= 1
        &&& self.start_time_ms <= self.last_seen_ms
        &&& self.byte_count as int == vstd::math::min(
            packets_size_sum(self.packets@),
            u64::MAX as int,
        )
        &&& flags_distinct(self.flags_seen@)
        &&& forall|i: int| 0 <= i < self.packets@.len() ==> (#[trigger] self.packets@[i]).well_formed()
    }

    /// Create a flow from its first packet.
    pub fn new(packet: PacketData, now_ms: u64) -> (r: NetworkFlow)
        requires
            packet.well_formed(),
        ensures
            r.well_formed(),
            r.src_ip == packet.parsed.src_ip,
            r.dst_ip == packet.parsed.dst_ip,
            r.src_port == packet.parsed.src_port,
            r.dst_port == packet.parsed.dst_port,
            r.protocol == packet.parsed.protocol,
            r.packets@ == seq![packet],
            r.start_time_ms == now_ms,
            r.last_seen_ms == now_ms,
            r.byte_count == packet.parsed.size,
            r.flags_seen@ == packet.parsed.flags@,
    {
        let flags_seen = copy_flags(&packet.parsed.flags);
        let byte_count = packet.parsed.size as u64;
        let src_ip = packet.parsed.src_ip;
        let dst_ip = packet.parsed.dst_ip;
        let src_port = packet.parsed.src_port;
        let dst_port = packet.parsed.dst_port;
        let protocol = packet.parsed.protocol;
        let mut packets: Vec<PacketData> = Vec::new();
        packets.push(packet);
        let r = NetworkFlow {
            src_ip,
            dst_ip,
            src_port,
            dst_port,
            protocol,
            packets,
            start_time_ms: now_ms,
            last_seen_ms: now_ms,
            byte_count,
            flags_seen,
        };
        proof {
            assert(r.packets@.drop_last() =~= Seq::<PacketData>::empty());
            assert(r.packets@ =~= seq![packet]);
            assert(packets_size_sum(r.packets@.drop_last()) == 0);
            assert(packets_size_sum(r.packets@) == packet.parsed.size as int);
        }
        r
    }

    /// Append a packet: the packet list grows by one, the byte counter
    /// absorbs its size, the last-seen instant never moves backwards, and
    /// new flags join the union.
    pub fn add_packet(&mut self, packet: PacketData, now_ms: u64)
        requires
            old(self).well_formed(),
            packet.well_formed(),
        ensures
            final(self).well_formed(),
            final(self).packets@ == old(self).packets@.push(packet),
            final(self).byte_count as int == vstd::math::min(
                packets_size_sum(old(self).packets@) + packet.parsed.size,
                u64::MAX as int,
            ),
            final(self).last_seen_ms == if now_ms > old(self).last_seen_ms {
                now_ms
            } else {
                old(self).last_seen_ms
            },
            final(self).flags_seen@ == merge_flags(old(self).flags_seen@, packet.parsed.flags@),
            final(self).start_time_ms == old(self).start_time_ms,
            final(self).src_ip == old(self).src_ip,
            final(self).dst_ip == old(self).dst_ip,
            final(self).src_port == old(self).src_port,
            final(self).dst_port == old(self).dst_port,
            final(self).protocol == old(self).protocol,
            final(self).byte_count >= old(self).byte_count,
    {
        self.byte_count = self.byte_count.saturating_add(packet.parsed.size as u64);
        if now_ms > self.last_seen_ms {
            self.last_seen_ms = now_ms;
        }
        let ghost seen0 = self.flags_seen@;
        let ghost add = packet.parsed.flags@;
        proof {
            assert(self.byte_count as int == vstd::math::min(
                packets_size_sum(old(self).packets@) + packet.parsed.size,
                u64::MAX as int,
            ));
        }
        let n = packet.parsed.flags.len();
        let mut i: usize = 0;
        while i < n
            invariant
                n == add.len(),
                i <= n,
                add == packet.parsed.flags@,
                seen0 == old(self).flags_seen@,
                old(self).well_formed(),
                packet.well_formed(),
                flags_distinct(self.flags_seen@),
                self.flags_seen@ == merge_flags(seen0, add.take(i as int)),
                self.packets@ == old(self).packets@,
                self.src_ip == old(self).src_ip,
                self.dst_ip == old(self).dst_ip,
                self.src_port == old(self).src_port,
                self.dst_port == old(self).dst_port,
                self.protocol == old(self).protocol,
                self.start_time_ms == old(self).start_time_ms,
                self.byte_count as int == vstd::math::min(
                    packets_size_sum(old(self).packets@) + packet.parsed.size,
                    u64::MAX as int,
                ),
                self.byte_count >= old(self).byte_count,
                self.last_seen_ms == if now_ms > old(self).last_seen_ms {
                    now_ms
                } else {
                    old(self).last_seen_ms
                },
            decreases n - i,
        {
            let f = packet.parsed.flags[i];
            let present = flags_contain(&self.flags_seen, f);
            if !present {
                self.flags_seen.push(f);
                proof {
                    let s = merge_flags(seen0, add.take(i as int));
                    assert forall|a: int, b: int|
                        0 <= a < b < self.flags_seen@.len() implies self.flags_seen@[a]
                        != self.flags_seen@[b] by {
                        if b == self.flags_seen@.len() - 1 {
                            assert(self.flags_seen@[a] == s[a]);
                            assert(!s.contains(self.flags_seen@[b]));
                        }
                    }
                }
            }
            proof {
                assert(add.take(i + 1 as int) =~= add.take(i as int).push(add[i as int]));
                lemma_merge_flags_snoc(seen0, add.take(i as int), add[i as int]);
            }
            i = i + 1;
        }
        proof {
            assert(add.take(add.len() as int) =~= add);
        }
        self.packets.push(packet);
        proof {
            assert(self.packets@.drop_last() =~= old(self).packets@);
            assert(self.packets@.last() == packet);
            assert(packets_size_sum(self.packets@) == packets_size_sum(old(self).packets@)
                + packet.parsed.size);
            assert forall|k: int| 0 <= k < self.packets@.len() implies (
            #[trigger] self.packets@[k]).well_formed() by {
                if k < self.packets@.len() - 1 {
                    assert(self.packets@[k] == old(self).packets@[k]);
                }
            }
        }
    }

    /// The flow key rendered in its wire form.
    pub fn flow_key(&self) -> (r: String)
        ensures
            r@ == flow_key_text(self.src_ip, self.src_port, self.dst_ip, self.dst_port,
                self.protocol,
            ),
    {
        let p = ParsedPacket {
            src_ip: self.src_ip,
            dst_ip: self.dst_ip,
            src_port: self.src_port,
            dst_port: self.dst_port,
            protocol: self.protocol,
            size: 0,
            flags: Vec::new(),
        };
        p.flow_key()
    }

    /// Number of packets in this flow.
    pub fn packet_count(&self) -> (r: usize)
        ensures
            r == self.packets@.len(),
    {
        self.packets.len()
    }

    pub fn get_src_port(&self) -> (r: Option<u16>)
        ensures
            r == self.src_port,
    {
        self.src_port
    }

    pub fn get_protocol(&self) -> (r: &Protocol)
        ensures
            *r == self.protocol,
    {
        &self.protocol
    }
}

/// Copy a flag list element by element.
pub fn copy_flags(v: &Vec<TcpFlag>) -> (r: Vec<TcpFlag>)
    ensures
        r@ == v@,
{
    let mut out: Vec<TcpFlag> = Vec::new();
    let mut i: usize = 0;
    while i < v.len()
        invariant
            i <= v@.len(),
            out@ =~= v@.take(i as int),
        decreases v@.len() - i,
    {
        out.push(v[i]);
        proof {
            assert(out@ =~= v@.take(i + 1 as int));
        }
        i = i + 1;
    }
    proof {
        assert(out@ =~= v@);
    }
    out
}

/// Whether a flag list holds a flag.
pub fn flags_contain(v: &Vec<TcpFlag>, f: TcpFlag) -> (r: bool)
    ensures
        r == v@.contains(f),
{
    let mut i: usize = 0;
    while i < v.len()
        invariant
            i <= v@.len(),
            forall|j: int| 0 <= j < i ==> v@[j] != f,
        decreases v@.len() - i,
    {
        if v[i] == f {
            return true;
        }
        i = i + 1;
    }
    false
}

/// The identifying 5-tuple of a packet.
pub open spec fn packet_key(p: ParsedPacket) -> (
    IpAddress,
    Option<u16>,
    IpAddress,
    Option<u16>,
    Protocol,
) {
    (p.src_ip, p.src_port, p.dst_ip, p.dst_port, p.protocol)
}

/// True when no two flows share a key.
pub open spec fn flow_keys_distinct(s: Seq<NetworkFlow>) -> bool {
    forall|i: int, j: int| 0 <= i < j < s.len() ==> s[i].key() != s[j].key()
}

/// A flow is expired when it was last seen more than `timeout_ms` before
/// `now_ms`.
pub open spec fn flow_expired(f: NetworkFlow, now_ms: u64, timeout_ms: u64) -> bool {
    f.last_seen_ms + timeout_ms < now_ms
}

/// The table of active flows, keyed by the directional 5-tuple.
#[derive(Clone, Debug)]
pub struct FlowTable {
    pub flows: Vec<NetworkFlow>,
}

impl FlowTable {
    /// Every flow is well formed and no key appears twice.
    pub open spec fn well_formed(self) -> bool {
        &&& flow_keys_distinct(self.flows@)
        &&& forall|i: int| 0 <= i < self.flows@.len() ==> (#[trigger] self.flows@[i]).well_formed()
    }

    pub fn new() -> (r: FlowTable)
        ensures
            r.well_formed(),
            r.flows@.len() == 0,
    {
        FlowTable { flows: Vec::new() }
    }

    /// Current number of active flows.
    pub fn active_count(&self) -> (r: usize)
        ensures
            r == self.flows@.len(),
    {
        self.flows.len()
    }

    /// Find the index of the flow a packet belongs to.
    fn find(&self, p: &ParsedPacket) -> (r: Option<usize>)
        ensures
            match r {
                Some(i) => i < self.flows@.len() && self.flows@[i as int].key() == packet_key(*p),
                None => forall|j: int|
                    0 <= j < self.flows@.len() ==> (#[trigger] self.flows@[j]).key() != packet_key(
                        *p,
                    ),
            },
    {
        let mut i: usize = 0;
        while i < self.flows.len()
            invariant
                i <= self.flows@.len(),
                forall|j: int|
                    0 <= j < i ==> (#[trigger] self.flows@[j]).key() != packet_key(*p),
            decreases self.flows@.len() - i,
        {
            let f = &self.flows[i];
            if f.src_ip == p.src_ip && f.src_port == p.src_port && f.dst_ip == p.dst_ip
                && f.dst_port == p.dst_port && f.protocol == p.protocol {
                return Some(i);
            }
            i = i + 1;
        }
        None
    }

    /// Find the index of the flow a packet belongs to, if one is active.
    pub fn find_flow(&self, p: &ParsedPacket) -> (r: Option<usize>)
        ensures
            match r {
                Some(i) => i < self.flows@.len() && self.flows@[i as int].key() == packet_key(*p),
                None => forall|j: int|
                    0 <= j < self.flows@.len() ==> (#[trigger] self.flows@[j]).key() != packet_key(
                        *p,
                    ),
            },
    {
        self.find(p)
    }

    /// Insert a packet: append it to its flow when the key is already
    /// present, else open a new flow for it. Returns true when an existing
    /// flow was updated.
    pub fn upsert(&mut self, packet: PacketData, now_ms: u64) -> (updated: bool)
        requires
            old(self).well_formed(),
            packet.well_formed(),
        ensures
            final(self).well_formed(),
            updated <==> exists|j: int|
                0 <= j < old(self).flows@.len() && (#[trigger] old(self).flows@[j]).key()
                    == packet_key(packet.parsed),
            updated ==> {
                &&& final(self).flows@.len() == old(self).flows@.len()
                &&& exists|j: int|
                    {
                        &&& 0 <= j < old(self).flows@.len()
                        &&& (#[trigger] old(self).flows@[j]).key() == packet_key(packet.parsed)
                        &&& final(self).flows@[j].packets@ == old(self).flows@[j].packets@.push(
                            packet,
                        )
                        &&& final(self).flows@[j].byte_count as int == vstd::math::min(
                            packets_size_sum(old(self).flows@[j].packets@) + packet.parsed.size,
                            u64::MAX as int,
                        )
                        &&& final(self).flows@[j].flags_seen@ == merge_flags(
                            old(self).flows@[j].flags_seen@,
                            packet.parsed.flags@,
                        )
                        &&& final(self).flows@[j].last_seen_ms == if now_ms > old(
                            self,
                        ).flows@[j].last_seen_ms {
                            now_ms
                        } else {
                            old(self).flows@[j].last_seen_ms
                        }
                        &&& final(self).flows@[j].key() == old(self).flows@[j].key()
                        &&& final(self).flows@[j].start_time_ms == old(
                            self,
                        ).flows@[j].start_time_ms
                        &&& forall|k: int|
                            0 <= k < old(self).flows@.len() && k != j ==> final(self).flows@[k]
                                == #[trigger] old(self).flows@[k]
                    }
            },
            !updated ==> {
                &&& final(self).flows@.len() == old(self).flows@.len() + 1
                &&& forall|k: int|
                    0 <= k < old(self).flows@.len() ==> final(self).flows@[k] == #[trigger] old(
                        self,
                    ).flows@[k]
                &&& final(self).flows@.last().key() == packet_key(packet.parsed)
                &&& final(self).flows@.last().packets@ == seq![packet]
                &&& final(self).flows@.last().byte_count == packet.parsed.size
                &&& final(self).flows@.last().start_time_ms == now_ms
                &&& final(self).flows@.last().last_seen_ms == now_ms
                &&& final(self).flows@.last().flags_seen@ == packet.parsed.flags@
            },
    {
        let found = self.find(&packet.parsed);
        match found {
            Some(i) => {
                let ghost flows0 = self.flows@;
                let mut f = self.flows.remove(i);
                f.add_packet(packet, now_ms);
                self.flows.insert(i, f);
                proof {
                    assert(self.flows@ =~= flows0.update(i as int, self.flows@[i as int]));
                    assert forall|a: int, b: int|
                        0 <= a < b < self.flows@.len() implies self.flows@[a].key()
                        != self.flows@[b].key() by {
                        assert(self.flows@[a].key() == flows0[a].key());
                        assert(self.flows@[b].key() == flows0[b].key());
                    }
                }
                true
            },
            None => {
                let f = NetworkFlow::new(packet, now_ms);
                self.flows.push(f);
                proof {
                    assert forall|a: int, b: int|
                        0 <= a < b < self.flows@.len() implies self.flows@[a].key()
                        != self.flows@[b].key() by {
                        if b == self.flows@.len() - 1 {
                            assert(self.flows@[a] == old(self).flows@[a]);
                            assert(self.flows@[b].key() == packet_key(packet.parsed));
                        }
                    }
                }
                false
            },
        }
    }

    /// Remove every expired flow and no other: afterwards the table holds
    /// exactly the flows that were seen within the timeout, in order.
    pub fn evict_expired(&mut self, now_ms: u64, timeout_ms: u64)
        requires
            old(self).well_formed(),
        ensures
            final(self).well_formed(),
            final(self).flows@ == old(self).flows@.filter(
                |f: NetworkFlow| !flow_expired(f, now_ms, timeout_ms),
            ),
            forall|j: int|
                0 <= j < final(self).flows@.len() ==> !flow_expired(
                    #[trigger] final(self).flows@[j],
                    now_ms,
                    timeout_ms,
                ),
    {
        let ghost s0 = self.flows@;
        let ghost pred = |f: NetworkFlow| !flow_expired(f, now_ms, timeout_ms);
        let ghost scanned: int = 0;
        let mut i: usize = 0;
        while i < self.flows.len()
            invariant
                old(self).well_formed(),
                s0 == old(self).flows@,
                pred == (|f: NetworkFlow| !flow_expired(f, now_ms, timeout_ms)),
                0 <= scanned <= s0.len(),
                i as int == s0.take(scanned).filter(pred).len(),
                self.flows@ == s0.take(scanned).filter(pred) + s0.skip(scanned),
                self.flows@.len() == i + s0.len() - scanned,
            decreases s0.len() - scanned,
        {
            let f = &self.flows[i];
            let expired = now_ms > timeout_ms && f.last_seen_ms < now_ms - timeout_ms;
            proof {
                assert(self.flows@[i as int] == s0[scanned]);
                assert(expired == flow_expired(s0[scanned], now_ms, timeout_ms));
                assert(s0.take(scanned + 1).drop_last() =~= s0.take(scanned));
                assert(s0.take(scanned + 1).last() == s0[scanned]);
                reveal_with_fuel(Seq::filter, 2);
            }
            if expired {
                let ghost before = self.flows@;
                self.flows.remove(i);
                proof {
                    assert(self.flows@ =~= s0.take(scanned + 1).filter(pred) + s0.skip(
                        scanned + 1,
                    ));
                }
            } else {
                proof {
                    assert(s0.take(scanned + 1).filter(pred) =~= s0.take(scanned).filter(
                        pred,
                    ).push(s0[scanned]));
                    assert(self.flows@ =~= s0.take(scanned + 1).filter(pred) + s0.skip(
                        scanned + 1,
                    ));
                }
                i = i + 1;
            }
            proof {
                scanned = scanned + 1;
            }
        }
        proof {
            assert(scanned == s0.len());
            assert(s0.take(scanned) =~= s0);
            assert(s0.skip(scanned) =~= Seq::<NetworkFlow>::empty());
            assert(self.flows@ =~= s0.filter(pred));
            s0.filter_lemma(pred);
            let kept_seq = s0.filter(pred);
            assert forall|j: int|
                0 <= j < kept_seq.len() implies (#[trigger] kept_seq[j]).well_formed()
                && !flow_expired(kept_seq[j], now_ms, timeout_ms) by {
                lemma_filter_member_position(s0, pred, j);
                let x = choose|x: int| 0 <= x < s0.len() && s0[x] == kept_seq[j];
                assert(s0[x].well_formed());
                assert(pred(kept_seq[j]));
            }
            assert forall|a: int, b: int|
                0 <= a < b < kept_seq.len() implies kept_seq[a].key() != kept_seq[b].key() by {
                lemma_filter_is_subsequence(s0, pred, a, b);
                let (x, y) = choose|x: int, y: int|
                    0 <= x < y < s0.len() && s0[x] == #[trigger] kept_seq[a] && s0[y]
                        == kept_seq[b];
                assert(s0[x].key() != s0[y].key());
            }
        }
    }
}

/// A kept element pair of a filtered sequence comes from two distinct
/// positions of the source, in order.
proof fn lemma_filter_is_subsequence<A>(s: Seq<A>, pred: spec_fn(A) -> bool, a: int, b: int)
    requires
        0 <= a < b < s.filter(pred).len(),
    ensures
        exists|x: int, y: int|
            0 <= x < y < s.len() && s[x] == #[trigger] s.filter(pred)[a] && s[y] == s.filter(
                pred,
            )[b],
    decreases s.len(),
{
    reveal(Seq::filter);
    if s.len() > 0 {
        let fs = s.filter(pred);
        let prev = s.drop_last().filter(pred);
        if pred(s.last()) {
            if b == fs.len() - 1 {
                if a == fs.len() - 1 {
                    // impossible since a < b
                } else {
                    lemma_filter_member_position(s.drop_last(), pred, a);
                    let x = choose|x: int|
                        0 <= x < s.drop_last().len() && s.drop_last()[x] == prev[a];
                    assert(s[x] == fs[a]);
                    assert(s[s.len() - 1] == fs[b]);
                    assert(0 <= x < s.len() - 1 < s.len());
                }
            } else {
                lemma_filter_is_subsequence(s.drop_last(), pred, a, b);
                let (x, y) = choose|x: int, y: int|
                    0 <= x < y < s.drop_last().len() && s.drop_last()[x] == #[trigger] prev[a]
                        && s.drop_last()[y] == prev[b];
                assert(s[x] == fs[a] && s[y] == fs[b]);
            }
        } else {
            lemma_filter_is_subsequence(s.drop_last(), pred, a, b);
            let (x, y) = choose|x: int, y: int|
                0 <= x < y < s.drop_last().len() && s.drop_last()[x] == #[trigger] prev[a]
                    && s.drop_last()[y] == prev[b];
            assert(s[x] == fs[a] && s[y] == fs[b]);
        }
    }
}

/// A member of a filtered sequence occurs at some position of the source.
proof fn lemma_filter_member_position<A>(s: Seq<A>, pred: spec_fn(A) -> bool, a: int)
    requires
        0 <= a < s.filter(pred).len(),
    ensures
        exists|x: int| 0 <= x < s.len() && s[x] == s.filter(pred)[a],
    decreases s.len(),
{
    reveal(Seq::filter);
    if s.len() > 0 {
        let fs = s.filter(pred);
        let prev = s.drop_last().filter(pred);
        if pred(s.last()) && a == fs.len() - 1 {
            assert(s[s.len() - 1] == fs[a]);
        } else {
            lemma_filter_member_position(s.drop_last(), pred, a);
            let x = choose|x: int| 0 <= x < s.drop_last().len() && s.drop_last()[x] == prev[a];
            assert(s[x] == fs[a]);
        }
    }
}

/// Law: a well-formed flow accounts for every byte, so long as the true
/// sum fits the counter's width.
pub proof fn lemma_byte_accounting(f: NetworkFlow)
    requires
        f.well_formed(),
        packets_size_sum(f.packets@) <= u64::MAX,
    ensures
        f.byte_count == packets_size_sum(f.packets@),
{
}

} // verus!
