//! The packet front end: decoding Ethernet II frames into packets, the
//! bounded ingest queue with its drop-on-full policy, the capture error
//! counter, and the simulated traffic generator.

use vstd::prelude::*;

use crate::rng::{new_uuid, rand_below};
use crate::stats::{sat_add, SystemStats};
use crate::text::{str_contains, text_contains};
use crate::types::{IdsError, IpAddress, PacketData, ParsedPacket, Protocol, TcpFlag};

verus! {

/// Ghost image of one decoded frame.
#[verifier::ext_equal]
pub ghost struct DecodedFrame {
    pub src_ip: IpAddress,
    pub dst_ip: IpAddress,
    pub src_port: Option<u16>,
    pub dst_port: Option<u16>,
    pub protocol: Protocol,
    pub size: int,
    pub flags: Seq<TcpFlag>,
}

/// Ghost image of a parsed packet.
pub open spec fn frame_of(p: ParsedPacket) -> DecodedFrame {
    DecodedFrame {
        src_ip: p.src_ip,
        dst_ip: p.dst_ip,
        src_port: p.src_port,
        dst_port: p.dst_port,
        protocol: p.protocol,
        size: p.size as int,
        flags: p.flags@,
    }
}

/// A 16-bit big-endian value read from two bytes.
pub open spec fn be16(b: Seq<u8>, i: int) -> int {
    b[i] * 256 + b[i + 1]
}

/// The TCP flags named by one flag byte, in wire-bit order.
pub open spec fn spec_tcp_flags(f: int) -> Seq<TcpFlag> {
    let s0 = if f % 2 == 1 {
        seq![TcpFlag::FIN]
    } else {
        Seq::<TcpFlag>::empty()
    };
    let s1 = if f / 2 % 2 == 1 {
        s0.push(TcpFlag::SYN)
    } else {
        s0
    };
    let s2 = if f / 4 % 2 == 1 {
        s1.push(TcpFlag::RST)
    } else {
        s1
    };
    let s3 = if f / 8 % 2 == 1 {
        s2.push(TcpFlag::PSH)
    } else {
        s2
    };
    let s4 = if f / 16 % 2 == 1 {
        s3.push(TcpFlag::ACK)
    } else {
        s3
    };
    let s5 = if f / 32 % 2 == 1 {
        s4.push(TcpFlag::URG)
    } else {
        s4
    };
    let s6 = if f / 64 % 2 == 1 {
        s5.push(TcpFlag::ECE)
    } else {
        s5
    };
    if f / 128 % 2 == 1 {
        s6.push(TcpFlag::CWR)
    } else {
        s6
    }
}

/// Ports and flags taken from a transport payload: a TCP header yields
/// its ports and flag byte, a UDP header its ports; too-short payloads
/// yield nothing, as does ICMP or an unknown protocol.
pub open spec fn spec_transport(proto: Protocol, l4: Seq<u8>) -> (
    Option<u16>,
    Option<u16>,
    Seq<TcpFlag>,
) {
    match proto {
        Protocol::TCP => if l4.len() >= 20 {
            (Some(be16(l4, 0) as u16), Some(be16(l4, 2) as u16), spec_tcp_flags(l4[13] as int))
        } else {
            (None, None, Seq::<TcpFlag>::empty())
        },
        Protocol::UDP => if l4.len() >= 8 {
            (Some(be16(l4, 0) as u16), Some(be16(l4, 2) as u16), Seq::<TcpFlag>::empty())
        } else {
            (None, None, Seq::<TcpFlag>::empty())
        },
        _ => (None, None, Seq::<TcpFlag>::empty()),
    }
}

/// The protocol named by an IPv4 protocol byte.
pub open spec fn ipv4_protocol(n: int) -> Protocol {
    if n == 6 {
        Protocol::TCP
    } else if n == 17 {
        Protocol::UDP
    } else if n == 1 {
        Protocol::ICMP
    } else {
        Protocol::Other(n as u8)
    }
}

/// The protocol named by an IPv6 next-header byte (58 is ICMPv6).
pub open spec fn ipv6_protocol(n: int) -> Protocol {
    if n == 6 {
        Protocol::TCP
    } else if n == 17 {
        Protocol::UDP
    } else if n == 58 {
        Protocol::ICMP
    } else {
        Protocol::Other(n as u8)
    }
}

/// Decoding an IPv4 packet: addresses from the fixed header, the
/// transport read past the header length the IHL nibble gives.
pub open spec fn spec_decode_ipv4(b: Seq<u8>) -> Option<DecodedFrame> {
    if b.len() < 20 {
        None
    } else {
        let src_ip = IpAddress::V4(b[12], b[13], b[14], b[15]);
        let dst_ip = IpAddress::V4(b[16], b[17], b[18], b[19]);
        let proto = ipv4_protocol(b[9] as int);
        let offset = (b[0] % 16) * 4;
        let l4 = if offset <= b.len() {
            b.skip(offset as int)
        } else {
            Seq::<u8>::empty()
        };
        let t = spec_transport(proto, l4);
        Some(
            DecodedFrame {
                src_ip,
                dst_ip,
                src_port: t.0,
                dst_port: t.1,
                protocol: proto,
                size: b.len() as int,
                flags: t.2,
            },
        )
    }
}

/// A 128-bit address read from sixteen big-endian bytes.
pub open spec fn be128(b: Seq<u8>, i: int) -> int {
    be128_rec(b, i, 16)
}

pub open spec fn be128_rec(b: Seq<u8>, i: int, k: int) -> int
    decreases k,
{
    if k <= 0 {
        0
    } else {
        be128_rec(b, i, k - 1) * 256 + b[i + k - 1]
    }
}

/// Decoding an IPv6 packet: addresses from the fixed 40-byte header, the
/// transport read past it.
pub open spec fn spec_decode_ipv6(b: Seq<u8>) -> Option<DecodedFrame> {
    if b.len() < 40 {
        None
    } else {
        let src_ip = IpAddress::V6(be128(b, 8) as u128);
        let dst_ip = IpAddress::V6(be128(b, 24) as u128);
        let proto = ipv6_protocol(b[6] as int);
        let t = spec_transport(proto, b.skip(40));
        Some(
            DecodedFrame {
                src_ip,
                dst_ip,
                src_port: t.0,
                dst_port: t.1,
                protocol: proto,
                size: b.len() as int,
                flags: t.2,
            },
        )
    }
}

/// Decoding an Ethernet II frame: the ethertype selects IPv4 or IPv6;
/// anything else is dropped.
pub open spec fn spec_decode_frame(b: Seq<u8>) -> Option<DecodedFrame> {
    if b.len() < 14 {
        None
    } else {
        let ethertype = be16(b, 12);
        if ethertype == 0x0800 {
            spec_decode_ipv4(b.skip(14))
        } else if ethertype == 0x86DD {
            spec_decode_ipv6(b.skip(14))
        } else {
            None
        }
    }
}

/// Extract the flags named by a TCP flag byte, in wire-bit order. The
/// result never names a flag twice.
#[verifier::rlimit(60)]
pub fn extract_tcp_flags(flags_value: u8) -> (r: Vec<TcpFlag>)
    ensures
        r@ == spec_tcp_flags(flags_value as int),
        crate::types::flags_distinct(r@),
{
    let f = flags_value as u64;
    let mut flags: Vec<TcpFlag> = Vec::new();
    if f % 2 == 1 {
        flags.push(TcpFlag::FIN);
    }
    if f / 2 % 2 == 1 {
        flags.push(TcpFlag::SYN);
    }
    if f / 4 % 2 == 1 {
        flags.push(TcpFlag::RST);
    }
    if f / 8 % 2 == 1 {
        flags.push(TcpFlag::PSH);
    }
    if f / 16 % 2 == 1 {
        flags.push(TcpFlag::ACK);
    }
    if f / 32 % 2 == 1 {
        flags.push(TcpFlag::URG);
    }
    if f / 64 % 2 == 1 {
        flags.push(TcpFlag::ECE);
    }
    if f / 128 % 2 == 1 {
        flags.push(TcpFlag::CWR);
    }
    proof {
        assert(flags@ =~= spec_tcp_flags(flags_value as int));
    }
    flags
}

/// Read a 16-bit big-endian value at an index.
fn read_be16(data: &[u8], i: usize) -> (r: u16)
    requires
        i + 1 < data@.len(),
    ensures
        r as int == be16(data@, i as int),
{
    (data[i] as u16) * 256 + (data[i + 1] as u16)
}

/// Parse the transport header of a payload slice.
fn parse_transport(proto: Protocol, data: &[u8], offset: usize) -> (r: (
    Option<u16>,
    Option<u16>,
    Vec<TcpFlag>,
))
    requires
        offset <= data@.len(),
    ensures
        ({
            let t = spec_transport(proto, data@.skip(offset as int));
            &&& r.0 == t.0
            &&& r.1 == t.1
            &&& r.2@ == t.2
            &&& crate::types::flags_distinct(r.2@)
        }),
{
    let n = data.len();
    match proto {
        Protocol::TCP => {
            if n - offset >= 20 {
                let sp = read_be16(data, offset);
                let dp = read_be16(data, offset + 2);
                let flags = extract_tcp_flags(data[offset + 13]);
                proof {
                    let l4 = data@.skip(offset as int);
                    assert(l4[0] == data@[offset as int]);
                    assert(l4[1] == data@[offset + 1]);
                    assert(l4[2] == data@[offset + 2]);
                    assert(l4[3] == data@[offset + 3]);
                    assert(l4[13] == data@[offset + 13]);
                }
                (Some(sp), Some(dp), flags)
            } else {
                (None, None, Vec::new())
            }
        },
        Protocol::UDP => {
            if n - offset >= 8 {
                let sp = read_be16(data, offset);
                let dp = read_be16(data, offset + 2);
                proof {
                    let l4 = data@.skip(offset as int);
                    assert(l4[0] == data@[offset as int]);
                    assert(l4[1] == data@[offset + 1]);
                    assert(l4[2] == data@[offset + 2]);
                    assert(l4[3] == data@[offset + 3]);
                }
                (Some(sp), Some(dp), Vec::new())
            } else {
                (None, None, Vec::new())
            }
        },
        _ => (None, None, Vec::new()),
    }
}

/// Parse an IPv4 packet from an Ethernet payload.
fn parse_ipv4_packet(data: &[u8]) -> (r: Result<ParsedPacket, IdsError>)
    ensures
        match r {
            Ok(p) => spec_decode_ipv4(data@) == Some(frame_of(p)) && p.well_formed(),
            Err(e) => spec_decode_ipv4(data@) is None && e == IdsError::DecodeError,
        },
{
    if data.len() < 20 {
        return Err(IdsError::DecodeError);
    }
    let src_ip = IpAddress::V4(data[12], data[13], data[14], data[15]);
    let dst_ip = IpAddress::V4(data[16], data[17], data[18], data[19]);
    let proto_byte = data[9];
    let protocol = if proto_byte == 6 {
        Protocol::TCP
    } else if proto_byte == 17 {
        Protocol::UDP
    } else if proto_byte == 1 {
        Protocol::ICMP
    } else {
        Protocol::Other(proto_byte)
    };
    let offset = ((data[0] % 16) as usize) * 4;
    let (src_port, dst_port, flags) = if offset <= data.len() {
        parse_transport(protocol, data, offset)
    } else {
        (None, None, Vec::new())
    };
    let p = ParsedPacket { src_ip, dst_ip, src_port, dst_port, protocol, size: data.len(), flags };
    proof {
        assert(spec_decode_ipv4(data@) == Some(frame_of(p)));
    }
    Ok(p)
}

/// Parse an IPv6 packet from an Ethernet payload.
fn parse_ipv6_packet(data: &[u8]) -> (r: Result<ParsedPacket, IdsError>)
    ensures
        match r {
            Ok(p) => spec_decode_ipv6(data@) == Some(frame_of(p)) && p.well_formed(),
            Err(e) => spec_decode_ipv6(data@) is None && e == IdsError::DecodeError,
        },
{
    if data.len() < 40 {
        return Err(IdsError::DecodeError);
    }
    let src_ip = IpAddress::V6(read_be128(data, 8));
    let dst_ip = IpAddress::V6(read_be128(data, 24));
    let next_header = data[6];
    let protocol = if next_header == 6 {
        Protocol::TCP
    } else if next_header == 17 {
        Protocol::UDP
    } else if next_header == 58 {
        Protocol::ICMP
    } else {
        Protocol::Other(next_header)
    };
    let (src_port, dst_port, flags) = parse_transport(protocol, data, 40);
    let p = ParsedPacket { src_ip, dst_ip, src_port, dst_port, protocol, size: data.len(), flags };
    proof {
        assert(spec_decode_ipv6(data@) == Some(frame_of(p)));
    }
    Ok(p)
}

/// Read a 128-bit big-endian value at an index.
fn read_be128(data: &[u8], i: usize) -> (r: u128)
    requires
        i + 16 <= data@.len(),
    ensures
        r as int == be128(data@, i as int),
{
    let total = data.len();
    let mut r: u128 = 0;
    let mut k: usize = 0;
    while k < 16
        invariant
            k <= 16,
            i + 16 <= total,
            total == data@.len(),
            r as int == be128_rec(data@, i as int, k as int),
        decreases 16 - k,
    {
        proof {
            lemma_be128_rec_bound(data@, i as int, k as int);
            lemma_pow256_mono(k as int, 15);
            reveal_with_fuel(pow256, 16);
            assert(pow256(15) == 0x1000000000000000000000000000000);
            assert(r as int <= 0x1000000000000000000000000000000 - 1);
            assert(r as int * 256 + 255 < 0x100000000000000000000000000000000)
                by (nonlinear_arith)
                requires
                    r as int <= 0x1000000000000000000000000000000 - 1,
            ;
        }
        r = r * 256 + (data[i + k] as u128);
        k = k + 1;
    }
    r
}

/// Powers of 256 for the big-endian bound below.
pub open spec fn pow256(k: int) -> int
    decreases k,
{
    if k <= 0 {
        1
    } else {
        pow256(k - 1) * 256
    }
}

proof fn lemma_be128_rec_bound(b: Seq<u8>, i: int, k: int)
    requires
        0 <= k,
    ensures
        0 <= be128_rec(b, i, k) < pow256(k),
        k <= 16 ==> pow256(k) <= 0x100000000000000000000000000000000,
    decreases k,
{
    if k > 0 {
        lemma_be128_rec_bound(b, i, k - 1);
        assert(be128_rec(b, i, k) == be128_rec(b, i, k - 1) * 256 + b[i + k - 1]);
        assert(be128_rec(b, i, k - 1) * 256 <= (pow256(k - 1) - 1) * 256) by (nonlinear_arith)
            requires
                be128_rec(b, i, k - 1) <= pow256(k - 1) - 1,
        ;
    }
    assert(k <= 16 ==> pow256(k) <= 0x100000000000000000000000000000000) by {
        if k <= 16 {
            lemma_pow256_mono(k, 16);
            reveal_with_fuel(pow256, 17);
            assert(pow256(16) == 0x100000000000000000000000000000000);
        }
    }
}

proof fn lemma_pow256_mono(a: int, b: int)
    requires
        0 <= a <= b,
    ensures
        pow256(a) <= pow256(b),
        pow256(a) >= 1,
    decreases b,
{
    if a < b {
        lemma_pow256_mono(a, b - 1);
        assert(pow256(b) == pow256(b - 1) * 256);
    } else if a > 0 {
        lemma_pow256_mono(a - 1, b - 1);
    }
}

/// Parse a raw Ethernet II frame into a packet: IPv4 and IPv6 payloads
/// are decoded, every other ethertype is rejected.
pub fn parse_packet(data: &[u8]) -> (r: Result<ParsedPacket, IdsError>)
    ensures
        match r {
            Ok(p) => spec_decode_frame(data@) == Some(frame_of(p)) && p.well_formed(),
            Err(e) => spec_decode_frame(data@) is None && e == IdsError::DecodeError,
        },
{
    if data.len() < 14 {
        return Err(IdsError::DecodeError);
    }
    let ethertype = read_be16(data, 12);
    let (_, payload) = data.split_at(14);
    proof {
        assert(payload@ =~= data@.skip(14));
    }
    if ethertype == 0x0800 {
        parse_ipv4_packet(payload)
    } else if ethertype == 0x86DD {
        parse_ipv6_packet(payload)
    } else {
        Err(IdsError::DecodeError)
    }
}

/// The bounded ingest queue between the packet source and the detector.
pub struct PacketQueue {
    pub buf: Vec<PacketData>,
    pub capacity: usize,
}

impl PacketQueue {
    /// The queue never holds more than its capacity.
    pub open spec fn well_formed(self) -> bool {
        self.buf@.len() <= self.capacity
    }

    pub fn new(capacity: usize) -> (r: PacketQueue)
        ensures
            r.well_formed(),
            r.buf@.len() == 0,
            r.capacity == capacity,
    {
        PacketQueue { buf: Vec::new(), capacity }
    }

    pub fn len(&self) -> (r: usize)
        ensures
            r == self.buf@.len(),
    {
        self.buf.len()
    }

    /// Non-blocking send: the packet enters at the back unless the queue
    /// is full, in which case it is dropped.
    pub fn try_send(&mut self, packet: PacketData) -> (accepted: bool)
        requires
            old(self).well_formed(),
        ensures
            final(self).well_formed(),
            final(self).capacity == old(self).capacity,
            accepted <==> old(self).buf@.len() < old(self).capacity,
            accepted ==> final(self).buf@ == old(self).buf@.push(packet),
            !accepted ==> final(self).buf@ == old(self).buf@,
    {
        if self.buf.len() < self.capacity {
            self.buf.push(packet);
            true
        } else {
            false
        }
    }

    /// Receive the oldest queued packet, if any.
    pub fn recv(&mut self) -> (r: Option<PacketData>)
        requires
            old(self).well_formed(),
        ensures
            final(self).well_formed(),
            final(self).capacity == old(self).capacity,
            old(self).buf@.len() == 0 ==> r is None && *final(self) == *old(self),
            old(self).buf@.len() > 0 ==> r == Some(old(self).buf@[0]) && final(self).buf@ == old(
                self,
            ).buf@.drop_first(),
    {
        if self.buf.len() == 0 {
            None
        } else {
            let p = self.buf.remove(0);
            proof {
                assert(self.buf@ =~= old(self).buf@.drop_first());
            }
            Some(p)
        }
    }
}

/// The source-side enqueue policy: the ingest counters and the protocol
/// histogram are updated for every packet, then a non-blocking send is
/// attempted; a full queue drops the packet without rolling the counters
/// back.
pub fn enqueue_packet(stats: &mut SystemStats, queue: &mut PacketQueue, packet: PacketData,
    now_ms: u64) -> (accepted: bool)
    requires
        old(stats).well_formed(),
        old(queue).well_formed(),
    ensures
        final(stats).well_formed(),
        final(queue).well_formed(),
        final(stats).packets_processed == sat_add(old(stats).packets_processed, 1),
        final(stats).bytes_processed == sat_add(
            old(stats).bytes_processed,
            packet.parsed.size as u64,
        ),
        final(stats).threats_detected == old(stats).threats_detected,
        accepted <==> old(queue).buf@.len() < old(queue).capacity,
        accepted ==> final(queue).buf@ == old(queue).buf@.push(packet),
        !accepted ==> final(queue).buf@ == old(queue).buf@,
        final(queue).capacity == old(queue).capacity,
{
    stats.update_packet_stats(packet.parsed.size as u64, now_ms);
    stats.record_protocol(packet.parsed.protocol);
    queue.try_send(packet)
}

/// Counts consecutive capture read errors; the capture loop aborts once
/// the limit is reached.
pub struct CaptureErrorCounter {
    pub consecutive: u32,
    pub limit: u32,
}

impl CaptureErrorCounter {
    /// A counter with the capture loop's default limit of a hundred
    /// consecutive errors.
    pub fn new() -> (r: CaptureErrorCounter)
        ensures
            r.consecutive == 0,
            r.limit == 100,
    {
        CaptureErrorCounter { consecutive: 0, limit: 100 }
    }

    /// A successful read clears the run of errors.
    pub fn record_success(&mut self)
        ensures
            final(self).consecutive == 0,
            final(self).limit == old(self).limit,
    {
        self.consecutive = 0;
    }

    /// A failed read lengthens the run; the capture must abort exactly
    /// when the run reaches the limit.
    pub fn record_error(&mut self) -> (abort: bool)
        ensures
            final(self).consecutive as int == if old(self).consecutive < u32::MAX {
                old(self).consecutive + 1
            } else {
                old(self).consecutive as int
            },
            final(self).limit == old(self).limit,
            abort <==> final(self).consecutive >= final(self).limit,
    {
        if self.consecutive < u32::MAX {
            self.consecutive = self.consecutive + 1;
        }
        self.consecutive >= self.limit
    }
}




/// The lowercase image of a character sequence.
pub uninterp spec fn lower_of(s: Seq<char>) -> Seq<char>;

/// Relies on str::to_lowercase: the lowercase mapping depends on the
/// characters alone, so its result carries the fixed name `lower_of`.
#[verifier::external_body]
fn lowercase(s: &str) -> (r: String)
    ensures
        r@ == lower_of(s@),
{
    s.to_lowercase()
}

/// A device description that names a wireless adapter.
pub open spec fn wifi_description(desc: Seq<char>) -> bool {
    ||| text_contains(lower_of(desc), "wi-fi"@)
    ||| text_contains(lower_of(desc), "wifi"@)
    ||| text_contains(lower_of(desc), "wireless"@)
    ||| (text_contains(lower_of(desc), "intel"@) && text_contains(lower_of(desc), "wireless"@))
}

/// A capture device, as its name and optional description.
pub open spec fn wifi_device(d: (String, Option<String>)) -> bool {
    match d.1 {
        Some(desc) => wifi_description(desc@),
        None => false,
    }
}

/// A device acceptable as a last resort: not a loopback, WAN miniport or
/// bluetooth adapter.
pub open spec fn fallback_device(d: (String, Option<String>)) -> bool {
    match d.1 {
        Some(desc) => {
            &&& !text_contains(lower_of(desc@), "loopback"@)
            &&& !text_contains(lower_of(desc@), "wan miniport"@)
            &&& !text_contains(lower_of(desc@), "bluetooth"@)
            &&& !text_contains(d.0@, "NPF_Loopback"@)
        },
        None => !text_contains(d.0@, "NPF_Loopback"@),
    }
}

/// Exec evaluation of the wireless-description test.
fn is_wifi_device(d: &(String, Option<String>)) -> (r: bool)
    ensures
        r == wifi_device(*d),
{
    match &d.1 {
        Some(desc) => {
            let low = lowercase(desc.as_str());
            str_contains(low.as_str(), "wi-fi") || str_contains(low.as_str(), "wifi")
                || str_contains(low.as_str(), "wireless") || (str_contains(low.as_str(), "intel")
                && str_contains(low.as_str(), "wireless"))
        },
        None => false,
    }
}

/// Exec evaluation of the last-resort test.
fn is_fallback_device(d: &(String, Option<String>)) -> (r: bool)
    ensures
        r == fallback_device(*d),
{
    match &d.1 {
        Some(desc) => {
            let low = lowercase(desc.as_str());
            !str_contains(low.as_str(), "loopback") && !str_contains(low.as_str(), "wan miniport")
                && !str_contains(low.as_str(), "bluetooth") && !str_contains(
                d.0.as_str(),
                "NPF_Loopback",
            )
        },
        None => !str_contains(d.0.as_str(), "NPF_Loopback"),
    }
}

/// Choose the capture interface from a device list, each device given as
/// its name and optional description: the first exact name match; failing
/// that, the first wireless adapter by description; failing that, the
/// first device that is not a loopback, WAN miniport or bluetooth
/// adapter.
pub fn select_interface(devices: &Vec<(String, Option<String>)>, wanted: &String) -> (r: Option<
    usize,
>)
    ensures
        ({
            let ds = devices@;
            let has_exact = exists|j: int| 0 <= j < ds.len() && (#[trigger] ds[j]).0@ == wanted@;
            let has_wifi = exists|j: int| 0 <= j < ds.len() && wifi_device(#[trigger] ds[j]);
            let has_fallback = exists|j: int|
                0 <= j < ds.len() && fallback_device(#[trigger] ds[j]);
            &&& (has_exact ==> (r matches Some(i) && i < ds.len() && ds[i as int].0@ == wanted@
                && forall|j: int| 0 <= j < i ==> (#[trigger] ds[j]).0@ != wanted@))
            &&& (!has_exact && has_wifi ==> (r matches Some(i) && i < ds.len() && wifi_device(
                ds[i as int],
            ) && forall|j: int| 0 <= j < i ==> !wifi_device(#[trigger] ds[j])))
            &&& (!has_exact && !has_wifi && has_fallback ==> (r matches Some(i) && i < ds.len()
                && fallback_device(ds[i as int]) && forall|j: int|
                0 <= j < i ==> !fallback_device(#[trigger] ds[j])))
            &&& (!has_exact && !has_wifi && !has_fallback ==> r is None)
        }),
{
    let n = devices.len();
    let mut i: usize = 0;
    while i < n
        invariant
            n == devices@.len(),
            i <= n,
            forall|j: int| 0 <= j < i ==> (#[trigger] devices@[j]).0@ != wanted@,
        decreases n - i,
    {
        if devices[i].0 == *wanted {
            return Some(i);
        }
        i = i + 1;
    }
    let mut i: usize = 0;
    while i < n
        invariant
            n == devices@.len(),
            i <= n,
            forall|j: int| 0 <= j < n ==> (#[trigger] devices@[j]).0@ != wanted@,
            forall|j: int| 0 <= j < i ==> !wifi_device(#[trigger] devices@[j]),
        decreases n - i,
    {
        if is_wifi_device(&devices[i]) {
            return Some(i);
        }
        i = i + 1;
    }
    let mut i: usize = 0;
    while i < n
        invariant
            n == devices@.len(),
            i <= n,
            forall|j: int| 0 <= j < n ==> (#[trigger] devices@[j]).0@ != wanted@,
            forall|j: int| 0 <= j < n ==> !wifi_device(#[trigger] devices@[j]),
            forall|j: int| 0 <= j < i ==> !fallback_device(#[trigger] devices@[j]),
        decreases n - i,
    {
        if is_fallback_device(&devices[i]) {
            return Some(i);
        }
        i = i + 1;
    }
    None
}

/// What holds of every simulated packet, whatever the random draws gave:
/// well formed, stamped with the generation instant, and of a plausible
/// wire size.
pub open spec fn sim_packet_ok(p: PacketData, now_ms: u64) -> bool {
    &&& p.well_formed()
    &&& p.timestamp_ms == now_ms
    &&& 64 <= p.parsed.size <= 1500
}

/// The nine well-known ports a simulated port scan probes, in order.
pub open spec fn well_known_ports() -> Seq<u16> {
    seq![21u16, 22, 23, 25, 80, 443, 3306, 3389, 8080]
}

/// An address on the simulated local 192.168.1.0/24 subnet.
pub open spec fn on_local_subnet(ip: IpAddress) -> bool {
    match ip {
        IpAddress::V4(a, b, c, _) => a == 192 && b == 168 && c == 1,
        _ => false,
    }
}

/// The shape of one normal simulated packet: a service-bound TCP, UDP or
/// ICMP packet; a TCP packet carries one of the four plausible flag sets,
/// any other packet carries none.
pub open spec fn normal_packet_shape(p: PacketData, now_ms: u64) -> bool {
    &&& sim_packet_ok(p, now_ms)
    &&& p.parsed.dst_port is Some
    &&& (p.parsed.src_port matches Some(sp) && sp >= 1024)
    &&& (p.parsed.protocol == Protocol::TCP || p.parsed.protocol == Protocol::UDP
        || p.parsed.protocol == Protocol::ICMP)
    &&& (p.parsed.protocol == Protocol::TCP ==> {
        ||| p.parsed.flags@ == seq![TcpFlag::SYN]
        ||| p.parsed.flags@ == seq![TcpFlag::ACK]
        ||| p.parsed.flags@ == seq![TcpFlag::SYN, TcpFlag::ACK]
        ||| p.parsed.flags@ == seq![TcpFlag::ACK, TcpFlag::PSH]
    })
    &&& (p.parsed.protocol != Protocol::TCP ==> p.parsed.flags@.len() == 0)
}

/// The port-scan burst: nine 64-byte SYN probes from one source against
/// 192.168.1.100, one per well-known port, in order.
pub open spec fn scan_burst_shape(ps: Seq<PacketData>, now_ms: u64) -> bool {
    &&& ps.len() == 9
    &&& forall|i: int|
        0 <= i < ps.len() ==> {
            let p = #[trigger] ps[i];
            &&& sim_packet_ok(p, now_ms)
            &&& p.parsed.protocol == Protocol::TCP
            &&& p.parsed.size == 64
            &&& p.parsed.flags@ == seq![TcpFlag::SYN]
            &&& p.parsed.src_ip == ps[0].parsed.src_ip
            &&& p.parsed.dst_ip == IpAddress::V4(192, 168, 1, 100)
            &&& (p.parsed.src_port matches Some(sp) && 40000 <= sp <= 50000)
            &&& p.parsed.dst_port == Some(well_known_ports()[i])
        }
}

/// The volumetric burst: twenty 1400-byte TCP packets towards one local
/// destination's port 80, each flagged ACK and PSH.
pub open spec fn ddos_burst_shape(ps: Seq<PacketData>, now_ms: u64) -> bool {
    &&& ps.len() == 20
    &&& on_local_subnet(ps[0].parsed.dst_ip)
    &&& forall|i: int|
        0 <= i < ps.len() ==> {
            let p = #[trigger] ps[i];
            &&& sim_packet_ok(p, now_ms)
            &&& p.parsed.protocol == Protocol::TCP
            &&& p.parsed.size == 1400
            &&& p.parsed.flags@ == seq![TcpFlag::ACK, TcpFlag::PSH]
            &&& p.parsed.dst_ip == ps[0].parsed.dst_ip
            &&& p.parsed.dst_port == Some(80u16)
            &&& (p.parsed.src_port matches Some(sp) && sp >= 1024)
        }
}

/// The illegal combination: a single 64-byte TCP packet carrying both SYN
/// and FIN towards a local destination's low port.
pub open spec fn synfin_shape(ps: Seq<PacketData>, now_ms: u64) -> bool {
    &&& ps.len() == 1
    &&& ({
        let p = ps[0];
        &&& sim_packet_ok(p, now_ms)
        &&& p.parsed.protocol == Protocol::TCP
        &&& p.parsed.size == 64
        &&& p.parsed.flags@ == seq![TcpFlag::SYN, TcpFlag::FIN]
        &&& on_local_subnet(p.parsed.dst_ip)
        &&& (p.parsed.dst_port matches Some(dp) && 1 <= dp <= 1024)
        &&& (p.parsed.src_port matches Some(sp) && sp >= 1024)
    })
}

/// One of the three injected attack patterns.
pub open spec fn suspicious_pattern(ps: Seq<PacketData>, now_ms: u64) -> bool {
    ||| scan_burst_shape(ps, now_ms)
    ||| ddos_burst_shape(ps, now_ms)
    ||| synfin_shape(ps, now_ms)
}

/// The simulated packet source: batches of plausible traffic with
/// occasional injected attack patterns.
pub struct SimulatedCapture;

impl SimulatedCapture {
    /// A random plausible address: seven times out of ten on the local
    /// 192.168.0.0/16 network, else a public one.
    fn random_src_ip() -> (r: IpAddress)
    {
        if rand_below(100) < 70 {
            IpAddress::V4(192, 168, (1 + rand_below(10)) as u8, (1 + rand_below(254)) as u8)
        } else {
            IpAddress::V4(
                (1 + rand_below(223)) as u8,
                rand_below(256) as u8,
                rand_below(256) as u8,
                (1 + rand_below(254)) as u8,
            )
        }
    }

    /// One normal simulated packet.
    fn normal_packet(now_ms: u64) -> (p: PacketData)
        ensures
            normal_packet_shape(p, now_ms),
    {
        let src_ip = Self::random_src_ip();
        let dst_ip = if rand_below(100) < 70 {
            IpAddress::V4(
                (1 + rand_below(223)) as u8,
                rand_below(256) as u8,
                rand_below(256) as u8,
                (1 + rand_below(254)) as u8,
            )
        } else {
            IpAddress::V4(192, 168, (1 + rand_below(10)) as u8, (1 + rand_below(254)) as u8)
        };
        let protocol = if rand_below(100) < 70 {
            Protocol::TCP
        } else if rand_below(100) < 50 {
            Protocol::UDP
        } else {
            Protocol::ICMP
        };
        let dst_port = match rand_below(10) {
            0 | 1 | 2 => Some(80u16),
            3 | 4 | 5 => Some(443u16),
            6 => Some(22u16),
            7 => Some(3306u16),
            8 => Some(5432u16),
            _ => Some((1024 + rand_below(64512)) as u16),
        };
        let mut flags: Vec<TcpFlag> = Vec::new();
        if matches!(protocol, Protocol::TCP) {
            match rand_below(4) {
                0 => {
                    flags.push(TcpFlag::SYN);
                    proof {
                        assert(flags@ =~= seq![TcpFlag::SYN]);
                    }
                },
                1 => {
                    flags.push(TcpFlag::ACK);
                    proof {
                        assert(flags@ =~= seq![TcpFlag::ACK]);
                    }
                },
                2 => {
                    flags.push(TcpFlag::SYN);
                    flags.push(TcpFlag::ACK);
                    proof {
                        assert(flags@ =~= seq![TcpFlag::SYN, TcpFlag::ACK]);
                    }
                },
                _ => {
                    flags.push(TcpFlag::ACK);
                    flags.push(TcpFlag::PSH);
                    proof {
                        assert(flags@ =~= seq![TcpFlag::ACK, TcpFlag::PSH]);
                    }
                },
            }
        }
        let raw_len = (64 + rand_below(1437)) as usize;
        let size = (64 + rand_below(1437)) as usize;
        PacketData {
            id: new_uuid(),
            timestamp_ms: now_ms,
            raw_data: vec![0u8; raw_len],
            parsed: ParsedPacket {
                src_ip,
                dst_ip,
                src_port: Some((1024 + rand_below(64512)) as u16),
                dst_port,
                protocol,
                size,
                flags,
            },
        }
    }

    /// One suspicious pattern: the port-scan burst of nine SYN probes
    /// against the well-known ports, the volumetric burst of twenty large
    /// packets towards one destination's port 80, or the single packet
    /// with the illegal SYN and FIN combination.
    pub fn generate_suspicious_traffic(now_ms: u64) -> (r: Vec<PacketData>)
        ensures
            suspicious_pattern(r@, now_ms),
            r@.len() == 9 || r@.len() == 20 || r@.len() == 1,
            forall|i: int| 0 <= i < r@.len() ==> sim_packet_ok(#[trigger] r@[i], now_ms),
    {
        let mut packets: Vec<PacketData> = Vec::new();
        let attack_type = rand_below(3);
        if attack_type == 0 {
            let attacker_ip = IpAddress::V4(
                (1 + rand_below(223)) as u8,
                rand_below(256) as u8,
                rand_below(256) as u8,
                (1 + rand_below(254)) as u8,
            );
            let target_ip = IpAddress::V4(192, 168, 1, 100);
            let mut well_known: Vec<u16> = Vec::new();
            well_known.push(21);
            well_known.push(22);
            well_known.push(23);
            well_known.push(25);
            well_known.push(80);
            well_known.push(443);
            well_known.push(3306);
            well_known.push(3389);
            well_known.push(8080);
            proof {
                assert(well_known@ =~= well_known_ports());
            }
            let mut i: usize = 0;
            while i < well_known.len()
                invariant
                    i <= well_known@.len(),
                    target_ip == IpAddress::V4(192, 168, 1, 100),
                    well_known@ == well_known_ports(),
                    well_known@.len() == 9,
                    packets@.len() == i,
                    forall|j: int|
                        0 <= j < i ==> {
                            let p = #[trigger] packets@[j];
                            &&& sim_packet_ok(p, now_ms)
                            &&& p.parsed.protocol == Protocol::TCP
                            &&& p.parsed.size == 64
                            &&& p.parsed.flags@ == seq![TcpFlag::SYN]
                            &&& p.parsed.src_ip == attacker_ip
                            &&& p.parsed.dst_ip == IpAddress::V4(192, 168, 1, 100)
                            &&& (p.parsed.src_port matches Some(sp) && 40000 <= sp <= 50000)
                            &&& p.parsed.dst_port == Some(well_known_ports()[j])
                        },
                decreases well_known@.len() - i,
            {
                let mut flags: Vec<TcpFlag> = Vec::new();
                flags.push(TcpFlag::SYN);
                proof {
                    assert(flags@ =~= seq![TcpFlag::SYN]);
                }
                let ghost before = packets@;
                packets.push(
                    PacketData {
                        id: new_uuid(),
                        timestamp_ms: now_ms,
                        raw_data: vec![0u8; 64],
                        parsed: ParsedPacket {
                            src_ip: attacker_ip,
                            dst_ip: target_ip,
                            src_port: Some((40000 + rand_below(10001)) as u16),
                            dst_port: Some(well_known[i]),
                            protocol: Protocol::TCP,
                            size: 64,
                            flags,
                        },
                    },
                );
                proof {
                    assert forall|j: int| 0 <= j < i + 1 implies {
                        let p = #[trigger] packets@[j];
                        &&& sim_packet_ok(p, now_ms)
                        &&& p.parsed.protocol == Protocol::TCP
                        &&& p.parsed.size == 64
                        &&& p.parsed.flags@ == seq![TcpFlag::SYN]
                        &&& p.parsed.src_ip == attacker_ip
                        &&& p.parsed.dst_ip == IpAddress::V4(192, 168, 1, 100)
                        &&& (p.parsed.src_port matches Some(sp) && 40000 <= sp <= 50000)
                        &&& p.parsed.dst_port == Some(well_known_ports()[j])
                    } by {
                        if j < i {
                            assert(packets@[j] == before[j]);
                        } else {
                            let p = packets@[j];
                            assert(p == packets@.last());
                            assert(crate::types::flags_distinct(p.parsed.flags@));
                            assert(p.well_formed());
                            assert(p.timestamp_ms == now_ms);
                            assert(p.parsed.size == 64);
                            assert(sim_packet_ok(p, now_ms));
                            assert(p.parsed.protocol == Protocol::TCP);
                            assert(p.parsed.flags@ == seq![TcpFlag::SYN]);
                            assert(p.parsed.src_ip == attacker_ip);
                            assert(p.parsed.dst_ip == IpAddress::V4(192, 168, 1, 100));
                            assert(p.parsed.src_port matches Some(sp) && 40000 <= sp <= 50000);
                            assert(p.parsed.dst_port == Some(well_known_ports()[j]));
                        }
                    }
                }
                i = i + 1;
            }
            proof {
                assert(scan_burst_shape(packets@, now_ms));
            }
        } else if attack_type == 1 {
            let target_ip = IpAddress::V4(192, 168, 1, (1 + rand_below(254)) as u8);
            let mut i: usize = 0;
            while i < 20
                invariant
                    i <= 20,
                    packets@.len() == i,
                    on_local_subnet(target_ip),
                    forall|j: int|
                        0 <= j < i ==> {
                            let p = #[trigger] packets@[j];
                            &&& sim_packet_ok(p, now_ms)
                            &&& p.parsed.protocol == Protocol::TCP
                            &&& p.parsed.size == 1400
                            &&& p.parsed.flags@ == seq![TcpFlag::ACK, TcpFlag::PSH]
                            &&& p.parsed.dst_ip == target_ip
                            &&& p.parsed.dst_port == Some(80u16)
                            &&& (p.parsed.src_port matches Some(sp) && sp >= 1024)
                        },
                decreases 20 - i,
            {
                let src_ip = IpAddress::V4(
                    (1 + rand_below(223)) as u8,
                    rand_below(256) as u8,
                    rand_below(256) as u8,
                    (1 + rand_below(254)) as u8,
                );
                let mut flags: Vec<TcpFlag> = Vec::new();
                flags.push(TcpFlag::ACK);
                flags.push(TcpFlag::PSH);
                proof {
                    assert(flags@ =~= seq![TcpFlag::ACK, TcpFlag::PSH]);
                }
                packets.push(
                    PacketData {
                        id: new_uuid(),
                        timestamp_ms: now_ms,
                        raw_data: vec![0u8; 1400],
                        parsed: ParsedPacket {
                            src_ip,
                            dst_ip: target_ip,
                            src_port: Some((1024 + rand_below(64512)) as u16),
                            dst_port: Some(80),
                            protocol: Protocol::TCP,
                            size: 1400,
                            flags,
                        },
                    },
                );
                i = i + 1;
            }
            proof {
                assert(ddos_burst_shape(packets@, now_ms));
            }
        } else {
            let src_ip = IpAddress::V4(
                (1 + rand_below(223)) as u8,
                rand_below(256) as u8,
                rand_below(256) as u8,
                (1 + rand_below(254)) as u8,
            );
            let dst_ip = IpAddress::V4(192, 168, 1, (1 + rand_below(254)) as u8);
            let mut flags: Vec<TcpFlag> = Vec::new();
            flags.push(TcpFlag::SYN);
            flags.push(TcpFlag::FIN);
            proof {
                assert(flags@ =~= seq![TcpFlag::SYN, TcpFlag::FIN]);
            }
            packets.push(
                PacketData {
                    id: new_uuid(),
                    timestamp_ms: now_ms,
                    raw_data: vec![0u8; 64],
                    parsed: ParsedPacket {
                        src_ip,
                        dst_ip,
                        src_port: Some((1024 + rand_below(64512)) as u16),
                        dst_port: Some((1 + rand_below(1024)) as u16),
                        protocol: Protocol::TCP,
                        size: 64,
                        flags,
                    },
                },
            );
            proof {
                assert(synfin_shape(packets@, now_ms));
            }
        }
        packets
    }

    /// One simulated batch: two to five normal packets and, one time in
    /// ten, one injected suspicious pattern appended after them.
    pub fn generate_traffic_batch(now_ms: u64) -> (r: Vec<PacketData>)
        ensures
            2 <= r@.len() <= 25,
            forall|i: int| 0 <= i < r@.len() ==> sim_packet_ok(#[trigger] r@[i], now_ms),
            exists|k: int|
                {
                    &&& 2 <= k <= 5
                    &&& k <= r@.len()
                    &&& (forall|i: int|
                        0 <= i < k ==> normal_packet_shape(#[trigger] r@[i], now_ms))
                    &&& (r@.len() == k || suspicious_pattern(r@.skip(k), now_ms))
                },
    {
        let mut packets: Vec<PacketData> = Vec::new();
        let batch_size = 2 + rand_below(4);
        let mut i: u64 = 0;
        while i < batch_size
            invariant
                2 <= batch_size <= 5,
                i <= batch_size,
                packets@.len() == i,
                forall|j: int| 0 <= j < i ==> normal_packet_shape(#[trigger] packets@[j], now_ms),
            decreases batch_size - i,
        {
            packets.push(Self::normal_packet(now_ms));
            i = i + 1;
        }
        let ghost k = packets@.len() as int;
        let ghost normal_part = packets@;
        if rand_below(10) == 0 {
            let mut extra = Self::generate_suspicious_traffic(now_ms);
            let ghost extra0 = extra@;
            packets.append(&mut extra);
            proof {
                assert(packets@.skip(k) =~= extra0);
                assert(forall|i: int| 0 <= i < k ==> packets@[i] == normal_part[i]);
            }
        }
        proof {
            assert(2 <= k <= 5 && k <= packets@.len());
            assert(forall|i: int|
                0 <= i < k ==> normal_packet_shape(#[trigger] packets@[i], now_ms));
            assert(packets@.len() == k || suspicious_pattern(packets@.skip(k), now_ms));
        }
        packets
    }
}


} // verus!
