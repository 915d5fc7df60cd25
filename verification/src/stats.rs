//! Shared system statistics: ingest counters, threat counters, protocol
//! histogram and the bounded top-talkers list.

use vstd::prelude::*;

use crate::types::{IpAddress, Protocol, Severity};

verus! {

use vstd::pervasive::VecAdditionalExecFns;

/// Addition that stops at the largest representable value instead of
/// wrapping; the counters below only ever grow.
pub open spec fn sat_add(a: u64, b: u64) -> u64 {
    if a + b <= u64::MAX {
        (a + b) as u64
    } else {
        u64::MAX
    }
}

/// Per-severity alert counters.
#[derive(Clone, Copy, Debug, PartialEq, Eq, Structural)]
pub struct AlertCounts {
    pub low: u64,
    pub medium: u64,
    pub high: u64,
    pub critical: u64,
}

impl AlertCounts {
    pub open spec fn total(self) -> int {
        self.low + self.medium + self.high + self.critical
    }

    pub open spec fn spec_get(self, sv: Severity) -> u64 {
        match sv {
            Severity::Low => self.low,
            Severity::Medium => self.medium,
            Severity::High => self.high,
            Severity::Critical => self.critical,
        }
    }

    pub fn get(&self, sv: Severity) -> (r: u64)
        ensures
            r == self.spec_get(sv),
    {
        match sv {
            Severity::Low => self.low,
            Severity::Medium => self.medium,
            Severity::High => self.high,
            Severity::Critical => self.critical,
        }
    }

    pub fn new() -> (r: AlertCounts)
        ensures
            r.total() == 0,
            forall|sv: Severity| #[trigger] r.spec_get(sv) == 0,
    {
        AlertCounts { low: 0, medium: 0, high: 0, critical: 0 }
    }
}

/// True when no protocol appears twice in the histogram.
pub open spec fn proto_keys_distinct(s: Seq<(Protocol, u64)>) -> bool {
    forall|i: int, j: int| 0 <= i < j < s.len() ==> s[i].0 != s[j].0
}

/// The histogram count recorded for a protocol, when one is recorded.
pub open spec fn proto_lookup(s: Seq<(Protocol, u64)>, p: Protocol) -> Option<u64> {
    if exists|i: int| 0 <= i < s.len() && s[i].0 == p {
        Some(s[choose|i: int| 0 <= i < s.len() && s[i].0 == p].1)
    } else {
        None
    }
}

/// True when no address appears twice in the talker list.
pub open spec fn talker_ips_distinct(s: Seq<(IpAddress, u64)>) -> bool {
    forall|i: int, j: int| 0 <= i < j < s.len() ==> s[i].0 != s[j].0
}

/// True when an address appears in the talker list.
pub open spec fn talkers_contain(s: Seq<(IpAddress, u64)>, ip: IpAddress) -> bool {
    exists|i: int| 0 <= i < s.len() && s[i].0 == ip
}

/// The byte count recorded for an address, when one is recorded.
pub open spec fn talker_lookup(s: Seq<(IpAddress, u64)>, ip: IpAddress) -> Option<u64> {
    if talkers_contain(s, ip) {
        Some(s[choose|i: int| 0 <= i < s.len() && s[i].0 == ip].1)
    } else {
        None
    }
}

/// The talker list after crediting one packet's size to its source and
/// destination addresses: existing entries are bumped, missing ones appended.
pub open spec fn talkers_updated(
    s: Seq<(IpAddress, u64)>,
    src: IpAddress,
    dst: IpAddress,
    size: u64,
) -> Seq<(IpAddress, u64)> {
    let bumped = Seq::new(s.len(), |i: int|
        if s[i].0 == src {
            (src, sat_add(s[i].1, size))
        } else if s[i].0 == dst {
            (dst, sat_add(s[i].1, size))
        } else {
            s[i]
        });
    let with_src = if !talkers_contain(s, src) {
        bumped.push((src, size))
    } else {
        bumped
    };
    if !talkers_contain(s, dst) && dst != src {
        with_src.push((dst, size))
    } else {
        with_src
    }
}

/// True when the list is ordered by byte count, largest first.
pub open spec fn talkers_sorted_desc(s: Seq<(IpAddress, u64)>) -> bool {
    forall|i: int, j: int| 0 <= i < j < s.len() ==> s[i].1 >= s[j].1
}

/// Shared statistics accumulator. Rates and resource gauges are plain
/// integers: packets per second, hundredths of a CPU percent, bytes.
#[derive(Clone, Debug)]
pub struct SystemStats {
    /// Wall-clock start instant, in milliseconds.
    pub start_time_ms: u64,
    pub packets_processed: u64,
    pub bytes_processed: u64,
    pub threats_detected: u64,
    /// Recent processing rate, in packets per second.
    pub processing_rate_pps: u64,
    /// Sampled memory usage, in bytes.
    pub memory_usage: u64,
    /// Sampled CPU usage, in hundredths of a percent of one core.
    pub cpu_usage_centi: u64,
    pub active_flows: u32,
    pub alert_counts: AlertCounts,
    pub protocol_distribution: Vec<(Protocol, u64)>,
    pub top_talkers: Vec<(IpAddress, u64)>,
    /// Instant of the last rate recomputation, in milliseconds.
    pub last_rate_calculation_ms: u64,
    /// Packet counter value at the last rate recomputation.
    pub last_packet_count: u64,
}

impl SystemStats {
    /// Conservation: the threat counter equals the sum of the per-severity
    /// buckets; histogram and talker keys stay unique; the talker list
    /// stays bounded.
    pub open spec fn well_formed(self) -> bool {
        &&& self.threats_detected == self.alert_counts.total()
        &&& proto_keys_distinct(self.protocol_distribution@)
        &&& talker_ips_distinct(self.top_talkers@)
        &&& self.top_talkers@.len() <= 20
    }

    pub fn new(now_ms: u64) -> (r: SystemStats)
        ensures
            r.well_formed(),
            r.start_time_ms == now_ms,
            r.packets_processed == 0,
            r.bytes_processed == 0,
            r.threats_detected == 0,
            r.processing_rate_pps == 0,
            r.memory_usage == 0,
            r.cpu_usage_centi == 0,
            r.active_flows == 0,
            r.alert_counts.total() == 0,
            r.protocol_distribution@.len() == 0,
            r.top_talkers@.len() == 0,
            r.last_rate_calculation_ms == now_ms,
            r.last_packet_count == 0,
    {
        SystemStats {
            start_time_ms: now_ms,
            packets_processed: 0,
            bytes_processed: 0,
            threats_detected: 0,
            processing_rate_pps: 0,
            memory_usage: 0,
            cpu_usage_centi: 0,
            active_flows: 0,
            alert_counts: AlertCounts::new(),
            protocol_distribution: Vec::new(),
            top_talkers: Vec::new(),
            last_rate_calculation_ms: now_ms,
            last_packet_count: 0,
        }
    }

    /// Count one ingested packet and its bytes; recompute the processing
    /// rate exactly when a full second has passed since the last
    /// recomputation. The ingest counters never decrease.
    pub fn update_packet_stats(&mut self, packet_size: u64, now_ms: u64)
        requires
            old(self).well_formed(),
        ensures
            final(self).well_formed(),
            final(self).packets_processed == sat_add(old(self).packets_processed, 1),
            final(self).bytes_processed == sat_add(old(self).bytes_processed, packet_size),
            final(self).packets_processed >= old(self).packets_processed,
            final(self).bytes_processed >= old(self).bytes_processed,
            final(self).threats_detected == old(self).threats_detected,
            final(self).alert_counts == old(self).alert_counts,
            final(self).protocol_distribution == old(self).protocol_distribution,
            final(self).top_talkers == old(self).top_talkers,
            final(self).active_flows == old(self).active_flows,
            final(self).start_time_ms == old(self).start_time_ms,
            ({
                let packets1 = sat_add(old(self).packets_processed, 1);
                let recompute = now_ms >= old(self).last_rate_calculation_ms && now_ms - old(
                    self,
                ).last_rate_calculation_ms >= 1000;
                if recompute {
                    let elapsed = now_ms - old(self).last_rate_calculation_ms;
                    let delta: int = if packets1 >= old(self).last_packet_count {
                        packets1 - old(self).last_packet_count
                    } else {
                        0
                    };
                    let scaled: int = if delta * 1000 <= u64::MAX {
                        delta * 1000
                    } else {
                        u64::MAX as int
                    };
                    &&& final(self).processing_rate_pps as int == scaled / elapsed
                    &&& final(self).last_rate_calculation_ms == now_ms
                    &&& final(self).last_packet_count == packets1
                } else {
                    &&& final(self).processing_rate_pps == old(self).processing_rate_pps
                    &&& final(self).last_rate_calculation_ms == old(self).last_rate_calculation_ms
                    &&& final(self).last_packet_count == old(self).last_packet_count
                }
            }),
    {
        self.packets_processed = self.packets_processed.saturating_add(1);
        self.bytes_processed = self.bytes_processed.saturating_add(packet_size);

        if now_ms >= self.last_rate_calculation_ms {
            let elapsed_ms = now_ms - self.last_rate_calculation_ms;
            if elapsed_ms >= 1000 {
                let delta = if self.packets_processed >= self.last_packet_count {
                    self.packets_processed - self.last_packet_count
                } else {
                    0
                };
                let scaled = if delta <= u64::MAX / 1000 {
                    delta * 1000
                } else {
                    u64::MAX
                };
                self.processing_rate_pps = scaled / elapsed_ms;
                self.last_rate_calculation_ms = now_ms;
                self.last_packet_count = self.packets_processed;
            }
        }
    }

    /// Count one emitted alert in the total and in its severity bucket,
    /// keeping the conservation invariant; the counters never decrease.
    pub fn increment_threat_count(&mut self, severity: Severity)
        requires
            old(self).well_formed(),
        ensures
            final(self).well_formed(),
            old(self).threats_detected < u64::MAX ==> {
                &&& final(self).threats_detected == old(self).threats_detected + 1
                &&& final(self).alert_counts.spec_get(severity) == old(self).alert_counts.spec_get(
                    severity,
                ) + 1
                &&& forall|sv: Severity|
                    sv != severity ==> #[trigger] final(self).alert_counts.spec_get(sv) == old(
                        self,
                    ).alert_counts.spec_get(sv)
            },
            old(self).threats_detected == u64::MAX ==> final(self).alert_counts == old(
                self,
            ).alert_counts,
            final(self).threats_detected >= old(self).threats_detected,
            final(self).packets_processed == old(self).packets_processed,
            final(self).bytes_processed == old(self).bytes_processed,
            final(self).protocol_distribution == old(self).protocol_distribution,
            final(self).top_talkers == old(self).top_talkers,
            final(self).active_flows == old(self).active_flows,
    {
        if self.threats_detected < u64::MAX {
            self.threats_detected = self.threats_detected + 1;
            match severity {
                Severity::Low => {
                    self.alert_counts.low = self.alert_counts.low + 1;
                },
                Severity::Medium => {
                    self.alert_counts.medium = self.alert_counts.medium + 1;
                },
                Severity::High => {
                    self.alert_counts.high = self.alert_counts.high + 1;
                },
                Severity::Critical => {
                    self.alert_counts.critical = self.alert_counts.critical + 1;
                },
            }
        }
    }

    /// Bump the histogram entry of a protocol, appending a fresh entry on
    /// first sight.
    pub fn record_protocol(&mut self, p: Protocol)
        requires
            old(self).well_formed(),
        ensures
            final(self).well_formed(),
            proto_lookup(old(self).protocol_distribution@, p) matches Some(c) ==> proto_lookup(
                final(self).protocol_distribution@,
                p,
            ) == Some(sat_add(c, 1)),
            proto_lookup(old(self).protocol_distribution@, p) is None ==> proto_lookup(
                final(self).protocol_distribution@,
                p,
            ) == Some(1u64),
            forall|q: Protocol|
                q != p ==> #[trigger] proto_lookup(final(self).protocol_distribution@, q)
                    == proto_lookup(old(self).protocol_distribution@, q),
            final(self).packets_processed == old(self).packets_processed,
            final(self).bytes_processed == old(self).bytes_processed,
            final(self).threats_detected == old(self).threats_detected,
            final(self).alert_counts == old(self).alert_counts,
            final(self).top_talkers == old(self).top_talkers,
            final(self).active_flows == old(self).active_flows,
    {
        let ghost s0 = self.protocol_distribution@;
        let n = self.protocol_distribution.len();
        let mut i: usize = 0;
        while i < n
            invariant
                n == self.protocol_distribution@.len(),
                i <= n,
                forall|j: int| 0 <= j < i ==> self.protocol_distribution@[j].0 != p,
                *self == *old(self),
                old(self).well_formed(),
                s0 == self.protocol_distribution@,
                proto_keys_distinct(s0),
            decreases n - i,
        {
            let entry = self.protocol_distribution[i];
            if entry.0 == p {
                let bumped = entry.1.saturating_add(1);
                self.protocol_distribution.set(i, (p, bumped));
                proof {
                    let ghost s1 = self.protocol_distribution@;
                    assert(s1 =~= s0.update(i as int, (p, sat_add(s0[i as int].1, 1))));
                    assert(s0[i as int].0 == p);
                    assert forall|k: int| 0 <= k < s1.len() && k != i implies s1[k].0 != p by {
                        assert(s1[k] == s0[k]);
                        if k < i {
                        } else {
                            assert(s0[i as int].0 != s0[k].0);
                        }
                    }
                    assert(proto_keys_distinct(s1));
                    assert(s1[i as int].0 == p);
                    let w = choose|k: int| 0 <= k < s0.len() && s0[k].0 == p;
                    assert(w == i);
                    assert(proto_lookup(s0, p) == Some(s0[i as int].1));
                    let w1 = choose|k: int| 0 <= k < s1.len() && s1[k].0 == p;
                    assert(w1 == i);
                    assert forall|q: Protocol| q != p implies #[trigger] proto_lookup(s1, q)
                        == proto_lookup(s0, q) by {
                        if exists|k: int| 0 <= k < s0.len() && s0[k].0 == q {
                            let k0 = choose|k: int| 0 <= k < s0.len() && s0[k].0 == q;
                            assert(s1[k0].0 == q);
                            let k1 = choose|k: int| 0 <= k < s1.len() && s1[k].0 == q;
                            assert(s0[k1].0 == q);
                            assert(k0 == k1);
                        } else {
                            assert(forall|k: int| 0 <= k < s1.len() ==> s1[k].0 != q);
                        }
                    }
                }
                return ;
            }
            i = i + 1;
        }
        self.protocol_distribution.push((p, 1));
        proof {
            let ghost s1 = self.protocol_distribution@;
            assert(s1 =~= s0.push((p, 1u64)));
            assert(forall|k: int| 0 <= k < s0.len() ==> s0[k].0 != p);
            assert(proto_keys_distinct(s1));
            assert(s1[s0.len() as int].0 == p);
            let w1 = choose|k: int| 0 <= k < s1.len() && s1[k].0 == p;
            assert(w1 == s0.len());
            assert forall|q: Protocol| q != p implies #[trigger] proto_lookup(s1, q) == proto_lookup(
                s0,
                q,
            ) by {
                if exists|k: int| 0 <= k < s0.len() && s0[k].0 == q {
                    let k0 = choose|k: int| 0 <= k < s0.len() && s0[k].0 == q;
                    assert(s1[k0].0 == q);
                    let k1 = choose|k: int| 0 <= k < s1.len() && s1[k].0 == q;
                    assert(k0 == k1);
                } else {
                    assert(forall|k: int| 0 <= k < s1.len() ==> s1[k].0 != q);
                }
            }
        }
    }

    /// A by-value snapshot that shows the same counters, histogram and
    /// talker list.
    pub fn snapshot(&self) -> (r: SystemStats)
        requires
            self.well_formed(),
        ensures
            r.well_formed(),
            r.start_time_ms == self.start_time_ms,
            r.packets_processed == self.packets_processed,
            r.bytes_processed == self.bytes_processed,
            r.threats_detected == self.threats_detected,
            r.processing_rate_pps == self.processing_rate_pps,
            r.memory_usage == self.memory_usage,
            r.cpu_usage_centi == self.cpu_usage_centi,
            r.active_flows == self.active_flows,
            r.alert_counts == self.alert_counts,
            r.protocol_distribution@ == self.protocol_distribution@,
            r.top_talkers@ == self.top_talkers@,
            r.last_rate_calculation_ms == self.last_rate_calculation_ms,
            r.last_packet_count == self.last_packet_count,
    {
        let mut protocol_distribution: Vec<(Protocol, u64)> = Vec::new();
        let mut i: usize = 0;
        while i < self.protocol_distribution.len()
            invariant
                i <= self.protocol_distribution@.len(),
                protocol_distribution@ =~= self.protocol_distribution@.take(i as int),
            decreases self.protocol_distribution@.len() - i,
        {
            protocol_distribution.push(self.protocol_distribution[i]);
            proof {
                assert(protocol_distribution@ =~= self.protocol_distribution@.take(i + 1 as int));
            }
            i = i + 1;
        }
        proof {
            assert(protocol_distribution@ =~= self.protocol_distribution@);
        }
        let mut top_talkers: Vec<(IpAddress, u64)> = Vec::new();
        let mut j: usize = 0;
        while j < self.top_talkers.len()
            invariant
                j <= self.top_talkers@.len(),
                top_talkers@ =~= self.top_talkers@.take(j as int),
            decreases self.top_talkers@.len() - j,
        {
            top_talkers.push(self.top_talkers[j]);
            proof {
                assert(top_talkers@ =~= self.top_talkers@.take(j + 1 as int));
            }
            j = j + 1;
        }
        proof {
            assert(top_talkers@ =~= self.top_talkers@);
        }
        SystemStats {
            start_time_ms: self.start_time_ms,
            packets_processed: self.packets_processed,
            bytes_processed: self.bytes_processed,
            threats_detected: self.threats_detected,
            processing_rate_pps: self.processing_rate_pps,
            memory_usage: self.memory_usage,
            cpu_usage_centi: self.cpu_usage_centi,
            active_flows: self.active_flows,
            alert_counts: self.alert_counts,
            protocol_distribution,
            top_talkers,
            last_rate_calculation_ms: self.last_rate_calculation_ms,
            last_packet_count: self.last_packet_count,
        }
    }

    /// Record a sampled CPU and memory reading.
    pub fn set_resource_usage(&mut self, cpu_centi: u64, memory_bytes: u64)
        requires
            old(self).well_formed(),
        ensures
            final(self).well_formed(),
            final(self).cpu_usage_centi == cpu_centi,
            final(self).memory_usage == memory_bytes,
            *final(self) == (SystemStats {
                cpu_usage_centi: cpu_centi,
                memory_usage: memory_bytes,
                ..*old(self)
            }),
    {
        self.cpu_usage_centi = cpu_centi;
        self.memory_usage = memory_bytes;
    }

    /// Mirror the current flow-table size.
    pub fn set_active_flows(&mut self, n: u32)
        requires
            old(self).well_formed(),
        ensures
            final(self).well_formed(),
            *final(self) == (SystemStats { active_flows: n, ..*old(self) }),
    {
        self.active_flows = n;
    }

    /// Credit one packet's size to its source and destination talkers,
    /// then cut the list back to the ten largest once it grows past twenty.
    pub fn update_top_talkers(&mut self, src: IpAddress, dst: IpAddress, size: u64)
        requires
            old(self).well_formed(),
        ensures
            final(self).well_formed(),
            ({
                let mid = talkers_updated(old(self).top_talkers@, src, dst, size);
                if mid.len() <= 20 {
                    final(self).top_talkers@ == mid
                } else {
                    &&& final(self).top_talkers@.len() == 10
                    &&& talkers_sorted_desc(final(self).top_talkers@)
                    &&& forall|i: int|
                        0 <= i < 10 ==> mid.contains(#[trigger] final(self).top_talkers@[i])
                    &&& forall|e: (IpAddress, u64)|
                        mid.contains(e) && !final(self).top_talkers@.contains(e) ==> forall|i: int|
                            0 <= i < 10 ==> #[trigger] final(self).top_talkers@[i].1 >= e.1
                }
            }),
            *final(self) == (SystemStats { top_talkers: final(self).top_talkers, ..*old(self) }),
    {
        let ghost s0 = self.top_talkers@;
        let ghost bumped = Seq::new(s0.len(), |i: int|
            if s0[i].0 == src {
                (src, sat_add(s0[i].1, size))
            } else if s0[i].0 == dst {
                (dst, sat_add(s0[i].1, size))
            } else {
                s0[i]
            });
        let n = self.top_talkers.len();
        let mut src_found = false;
        let mut dst_found = false;
        let mut i: usize = 0;
        while i < n
            invariant
                old(self).well_formed(),
                n == self.top_talkers@.len(),
                s0.len() == n,
                i <= n,
                bumped == Seq::new(s0.len(), |k: int|
                    if s0[k].0 == src {
                        (src, sat_add(s0[k].1, size))
                    } else if s0[k].0 == dst {
                        (dst, sat_add(s0[k].1, size))
                    } else {
                        s0[k]
                    }),
                s0 == old(self).top_talkers@,
                forall|j: int| 0 <= j < i ==> self.top_talkers@[j] == bumped[j],
                forall|j: int| i <= j < n ==> self.top_talkers@[j] == s0[j],
                src_found <==> exists|j: int| 0 <= j < i && s0[j].0 == src,
                dst_found ==> exists|j: int| 0 <= j < i && s0[j].0 == dst,
                (exists|j: int| 0 <= j < i && s0[j].0 == dst && s0[j].0 != src) ==> dst_found,
                *self == (SystemStats { top_talkers: self.top_talkers, ..*old(self) }),
            decreases n - i,
        {
            let ghost i0 = i as int;
            let entry = self.top_talkers[i];
            proof {
                assert(entry == s0[i0]);
            }
            if entry.0 == src {
                self.top_talkers.set(i, (src, entry.1.saturating_add(size)));
                src_found = true;
            } else if entry.0 == dst {
                self.top_talkers.set(i, (dst, entry.1.saturating_add(size)));
                dst_found = true;
            }
            i = i + 1;
            proof {
                if entry.0 == src {
                    assert(0 <= i0 < i && s0[i0].0 == src);
                } else if entry.0 == dst {
                    assert(0 <= i0 < i && s0[i0].0 == dst && s0[i0].0 != src);
                }
            }
        }
        proof {
            assert(self.top_talkers@ =~= bumped);
            assert(src_found == talkers_contain(s0, src));
            if dst_found {
                assert(talkers_contain(s0, dst));
            }
        }
        if !src_found {
            self.top_talkers.push((src, size));
        }
        if !dst_found && dst != src {
            self.top_talkers.push((dst, size));
        }
        proof {
            if !dst_found && dst != src && talkers_contain(s0, dst) {
                // dst occurs in the old list only where it equals src; since
                // dst != src that occurrence does not exist, so dst_found
                // would have been set.
                let j = choose|j: int| 0 <= j < s0.len() && s0[j].0 == dst;
                assert(s0[j].0 == dst && s0[j].0 != src);
                assert(false);
            }
            assert(self.top_talkers@ =~= talkers_updated(s0, src, dst, size));
        }
        let ghost mid = talkers_updated(s0, src, dst, size);
        proof {
            assert(talker_ips_distinct(bumped));
            assert(talker_ips_distinct(self.top_talkers@));
        }
        if self.top_talkers.len() > 20 {
            let top = select_top(&self.top_talkers, 10);
            self.top_talkers = top;
        }
    }
}

/// The `k` entries with the largest byte counts, ordered largest first.
fn select_top(v: &Vec<(IpAddress, u64)>, k: usize) -> (r: Vec<(IpAddress, u64)>)
    requires
        k <= v@.len(),
        talker_ips_distinct(v@),
    ensures
        r@.len() == k,
        talkers_sorted_desc(r@),
        talker_ips_distinct(r@),
        forall|i: int| 0 <= i < r@.len() ==> v@.contains(#[trigger] r@[i]),
        forall|e: (IpAddress, u64)|
            v@.contains(e) && !r@.contains(e) ==> forall|i: int|
                0 <= i < r@.len() ==> #[trigger] r@[i].1 >= e.1,
{
    let mut remaining: Vec<(IpAddress, u64)> = Vec::new();
    let mut i: usize = 0;
    while i < v.len()
        invariant
            i <= v@.len(),
            remaining@ =~= v@.take(i as int),
        decreases v@.len() - i,
    {
        remaining.push(v[i]);
        proof {
            assert(remaining@ =~= v@.take(i + 1 as int));
        }
        i = i + 1;
    }
    proof {
        assert(remaining@ =~= v@);
    }
    let mut out: Vec<(IpAddress, u64)> = Vec::new();
    while out.len() < k
        invariant
            k <= v@.len(),
            talker_ips_distinct(v@),
            out@.len() <= k,
            out@.len() + remaining@.len() == v@.len(),
            talkers_sorted_desc(out@),
            talker_ips_distinct(out@),
            talker_ips_distinct(remaining@),
            forall|a: int, b: int|
                #![trigger out@[a], remaining@[b]]
                0 <= a < out@.len() && 0 <= b < remaining@.len() ==> out@[a].0 != remaining@[b].0,
            forall|a: int| 0 <= a < out@.len() ==> v@.contains(#[trigger] out@[a]),
            forall|b: int| 0 <= b < remaining@.len() ==> v@.contains(#[trigger] remaining@[b]),
            forall|a: int, b: int|
                #![trigger out@[a], remaining@[b]]
                0 <= a < out@.len() && 0 <= b < remaining@.len() ==> out@[a].1 >= remaining@[b].1,
            forall|e: (IpAddress, u64)|
                #[trigger] v@.contains(e) ==> out@.contains(e) || remaining@.contains(e),
        decreases k - out@.len(),
    {
        let mut best: usize = 0;
        let mut j: usize = 1;
        while j < remaining.len()
            invariant
                remaining@.len() > 0,
                best < j,
                j <= remaining@.len(),
                forall|t: int| 0 <= t < j ==> remaining@[best as int].1 >= #[trigger] remaining@[t].1,
            decreases remaining@.len() - j,
        {
            if remaining[j].1 > remaining[best].1 {
                best = j;
            }
            j = j + 1;
        }
        let chosen = remaining[best];
        let ghost rem0 = remaining@;
        let ghost out0 = out@;
        out.push(chosen);
        remaining.remove(best);
        proof {
            assert(remaining@ =~= rem0.remove(best as int));
            assert(rem0.contains(chosen));
            assert forall|e: (IpAddress, u64)|
                #[trigger] v@.contains(e) implies out@.contains(e) || remaining@.contains(e) by {
                if out0.contains(e) {
                    let t = choose|t: int| 0 <= t < out0.len() && out0[t] == e;
                    assert(out@[t] == e);
                    assert(out@.contains(e));
                } else {
                    assert(rem0.contains(e));
                    let t = choose|t: int| 0 <= t < rem0.len() && rem0[t] == e;
                    if t == best {
                        assert(out@.last() == e);
                        assert(out@.contains(e));
                    } else if t < best {
                        assert(remaining@[t] == e);
                        assert(remaining@.contains(e));
                    } else {
                        assert(remaining@[t - 1] == e);
                        assert(remaining@.contains(e));
                    }
                }
            }
            assert forall|b: int| 0 <= b < remaining@.len() implies v@.contains(
                #[trigger] remaining@[b],
            ) by {
                if b < best {
                    assert(remaining@[b] == rem0[b]);
                } else {
                    assert(remaining@[b] == rem0[b + 1]);
                }
            }
            assert forall|a: int, b: int|
                #![trigger out@[a], remaining@[b]]
                0 <= a < out@.len() && 0 <= b < remaining@.len() implies out@[a].1
                >= remaining@[b].1 by {
                let e = remaining@[b];
                if b < best {
                    assert(e == rem0[b]);
                } else {
                    assert(e == rem0[b + 1]);
                }
                if a < out@.len() - 1 {
                } else {
                    assert(out@[a] == chosen);
                }
            }
            assert forall|a: int, b: int|
                #![trigger out@[a], remaining@[b]]
                0 <= a < out@.len() && 0 <= b < remaining@.len() implies out@[a].0
                != remaining@[b].0 by {
                if b < best {
                    assert(remaining@[b] == rem0[b]);
                } else {
                    assert(remaining@[b] == rem0[b + 1]);
                }
                if a < out@.len() - 1 {
                } else {
                    assert(out@[a] == chosen);
                    assert(chosen == rem0[best as int]);
                }
            }
            assert(talker_ips_distinct(out@));
            assert(talker_ips_distinct(remaining@));
        }
    }
    proof {
        assert forall|e: (IpAddress, u64)| v@.contains(e) && !out@.contains(e) implies forall|
            i: int,
        | 0 <= i < out@.len() ==> #[trigger] out@[i].1 >= e.1 by {
            assert(remaining@.contains(e));
            let b = choose|b: int| 0 <= b < remaining@.len() && remaining@[b] == e;
            assert forall|i: int| 0 <= i < out@.len() implies #[trigger] out@[i].1 >= e.1 by {
                assert(out@[i].1 >= remaining@[b].1);
            }
        }
    }
    out
}

/// Law: at every observable moment the threat total equals the sum of the
/// per-severity alert counts.
pub proof fn lemma_stats_conservation(s: SystemStats)
    requires
        s.well_formed(),
    ensures
        s.threats_detected == s.alert_counts.spec_get(Severity::Low) + s.alert_counts.spec_get(
            Severity::Medium,
        ) + s.alert_counts.spec_get(Severity::High) + s.alert_counts.spec_get(Severity::Critical),
{
}

} // verus!
