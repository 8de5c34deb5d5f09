//! Reading IP packets, and the replies that refuse them.
use vstd::prelude::*;
use vstd::slice::slice_subrange;
use crate::policy::{protocol_of, Protocol};
use self::checksum::{
    be16, be32, lemma_folded, put16, read16, read32, tcp_checksum, tcp_segment_checksum, tcp_sum,
    write16,
};

pub mod checksum;
pub mod fragments;
pub mod reject;
pub mod wire;

verus! {

pub const TCP_FIN: u8 = 1;
pub const TCP_SYN: u8 = 2;
pub const TCP_RST: u8 = 4;
pub const TCP_ACK: u8 = 16;

/// The control bits of a TCP header.
#[derive(Debug, Clone, Copy, PartialEq, Eq, Structural)]
pub struct TcpFlags(pub u8);

impl TcpFlags {
    pub open spec fn has(self, bit: u8) -> bool {
        self.0 & bit != 0
    }

    pub fn fin(&self) -> (r: bool)
        ensures
            r == self.has(TCP_FIN),
    {
        self.0 & TCP_FIN != 0
    }

    pub fn syn(&self) -> (r: bool)
        ensures
            r == self.has(TCP_SYN),
    {
        self.0 & TCP_SYN != 0
    }

    pub fn rst(&self) -> (r: bool)
        ensures
            r == self.has(TCP_RST),
    {
        self.0 & TCP_RST != 0
    }

    pub fn ack(&self) -> (r: bool)
        ensures
            r == self.has(TCP_ACK),
    {
        self.0 & TCP_ACK != 0
    }
}

/// The network header of a packet. Addresses are in network order.
#[derive(Debug, Clone, Copy, PartialEq, Eq, Structural)]
pub enum IpHeader {
    V4 { src: u32, dst: u32, header_len: usize, total_len: usize },
    V6,
}

impl IpHeader {
    pub open spec fn source(self) -> Option<u32> {
        match self {
            IpHeader::V4 { src, .. } => Some(src),
            IpHeader::V6 => None,
        }
    }

    pub open spec fn destination(self) -> Option<u32> {
        match self {
            IpHeader::V4 { dst, .. } => Some(dst),
            IpHeader::V6 => None,
        }
    }

    pub open spec fn size(self) -> usize {
        match self {
            IpHeader::V4 { header_len, .. } => header_len,
            IpHeader::V6 => 40,
        }
    }

    /// The IPv4 source address, if this is IPv4.
    pub fn v4_src(&self) -> (r: Option<u32>)
        ensures
            r == self.source(),
    {
        match *self {
            IpHeader::V4 { src, .. } => Some(src),
            IpHeader::V6 => None,
        }
    }

    /// The IPv4 destination address, if this is IPv4.
    pub fn v4_dst(&self) -> (r: Option<u32>)
        ensures
            r == self.destination(),
    {
        match *self {
            IpHeader::V4 { dst, .. } => Some(dst),
            IpHeader::V6 => None,
        }
    }

    /// The length of the network header in bytes.
    pub fn header_len(&self) -> (r: usize)
        ensures
            r == self.size(),
    {
        match *self {
            IpHeader::V4 { header_len, .. } => header_len,
            IpHeader::V6 => 40,
        }
    }
}

/// Where a packet stands in a fragmented datagram.
#[derive(Debug, Clone, Copy, PartialEq, Eq, Structural)]
pub enum Fragmentation {
    Whole,
    First,
    Later,
}

impl Fragmentation {
    /// Whether this is a fragment without the transport header.
    pub fn is_later(&self) -> (r: bool)
        ensures
            r == (self is Later),
    {
        matches!(*self, Fragmentation::Later)
    }
}

/// The transport header of a packet, as far as policy reads it.
#[derive(Debug, Clone, Copy, PartialEq, Eq, Structural)]
pub enum Transport {
    Tcp { src_port: u16, dst_port: u16, header_len: usize, flags: TcpFlags },
    Udp { src_port: u16, dst_port: u16 },
    Icmp { icmp_type: u8, icmp_id: Option<u16> },
    Other,
}

impl Transport {
    pub open spec fn source_port(self) -> Option<u16> {
        match self {
            Transport::Tcp { src_port, .. } => Some(src_port),
            Transport::Udp { src_port, .. } => Some(src_port),
            _ => None,
        }
    }

    pub open spec fn destination_port(self) -> Option<u16> {
        match self {
            Transport::Tcp { dst_port, .. } => Some(dst_port),
            Transport::Udp { dst_port, .. } => Some(dst_port),
            _ => None,
        }
    }

    pub open spec fn control_bits(self) -> Option<TcpFlags> {
        match self {
            Transport::Tcp { flags, .. } => Some(flags),
            _ => None,
        }
    }

    pub fn src_port(&self) -> (r: Option<u16>)
        ensures
            r == self.source_port(),
    {
        match *self {
            Transport::Tcp { src_port, .. } => Some(src_port),
            Transport::Udp { src_port, .. } => Some(src_port),
            _ => None,
        }
    }

    pub fn dst_port(&self) -> (r: Option<u16>)
        ensures
            r == self.destination_port(),
    {
        match *self {
            Transport::Tcp { dst_port, .. } => Some(dst_port),
            Transport::Udp { dst_port, .. } => Some(dst_port),
            _ => None,
        }
    }

    pub fn tcp_flags(&self) -> (r: Option<TcpFlags>)
        ensures
            r == self.control_bits(),
    {
        match *self {
            Transport::Tcp { flags, .. } => Some(flags),
            _ => None,
        }
    }
}

/// A packet that has been read, beside the bytes it was read from.
#[derive(Debug, Clone, Copy)]
pub struct Packet<'a> {
    pub bytes: &'a [u8],
    pub ip: IpHeader,
    pub protocol: Protocol,
    pub identification: u16,
    pub fragmentation: Fragmentation,
    pub transport: Transport,
}

/// Why bytes are not a packet that policy can judge.
#[derive(Debug, Clone, Copy, PartialEq, Eq, Structural)]
pub enum ParseError {
    /// Empty, or neither IPv4 nor IPv6.
    NotIp,
    /// Shorter than its headers or its own length field say.
    Truncated,
    /// A length field contradicts the header it stands in.
    BadLength,
}

pub open spec fn ip_version(s: Seq<u8>) -> nat {
    if s.len() == 0 {
        0
    } else {
        (s[0] / 16) as nat
    }
}

pub open spec fn ihl(s: Seq<u8>) -> nat {
    ((s[0] % 16) * 4) as nat
}

pub open spec fn total_len(s: Seq<u8>) -> nat {
    be16(s, 2)
}

/// What is wrong with an IPv4 header, if anything.
pub open spec fn v4_fault(s: Seq<u8>) -> Option<ParseError> {
    if s.len() < 20 {
        Some(ParseError::Truncated)
    } else if ihl(s) < 20 || total_len(s) < ihl(s) {
        Some(ParseError::BadLength)
    } else if s.len() < total_len(s) {
        Some(ParseError::Truncated)
    } else {
        None
    }
}

pub open spec fn v4_fragmentation(s: Seq<u8>) -> Fragmentation {
    let field = be16(s, 6);
    if field % 8192 != 0 {
        Fragmentation::Later
    } else if (field / 8192) % 2 == 1 {
        Fragmentation::First
    } else {
        Fragmentation::Whole
    }
}

/// The bytes that an IPv4 header announces after itself.
pub open spec fn v4_payload(s: Seq<u8>) -> Seq<u8> {
    s.subrange(ihl(s) as int, total_len(s) as int)
}

/// The length that a TCP header announces for itself.
pub open spec fn tcp_header_len(seg: Seq<u8>) -> usize {
    ((seg[12] / 16) * 4) as usize
}

/// The 16-bit field at `i`.
pub open spec fn field16(s: Seq<u8>, i: int) -> u16 {
    be16(s, i) as u16
}

/// The transport header at the start of `seg`, for the IP protocol number `proto`.
pub open spec fn transport_of(proto: u8, seg: Seq<u8>) -> Result<Transport, ParseError> {
    if proto == 6 {
        if seg.len() < 20 {
            Err(ParseError::Truncated)
        } else if tcp_header_len(seg) < 20 {
            Err(ParseError::BadLength)
        } else if seg.len() < tcp_header_len(seg) {
            Err(ParseError::Truncated)
        } else {
            Ok(
                Transport::Tcp {
                    src_port: field16(seg, 0),
                    dst_port: field16(seg, 2),
                    header_len: tcp_header_len(seg),
                    flags: TcpFlags(seg[13]),
                },
            )
        }
    } else if proto == 17 {
        if seg.len() < 8 {
            Err(ParseError::Truncated)
        } else {
            Ok(Transport::Udp { src_port: field16(seg, 0), dst_port: field16(seg, 2) })
        }
    } else if proto == 1 {
        if seg.len() < 8 {
            Err(ParseError::Truncated)
        } else {
            Ok(
                Transport::Icmp {
                    icmp_type: seg[0],
                    icmp_id: if seg[0] == 0 || seg[0] == 8 {
                        Some(field16(seg, 4))
                    } else {
                        None
                    },
                },
            )
        }
    } else {
        Ok(Transport::Other)
    }
}

/// What the bytes of a packet say: network header, protocol, identification,
/// fragmentation and transport header. Only the first fragment of an IPv4
/// datagram has a transport header; behind an IPv6 header none is looked for.
pub open spec fn read(s: Seq<u8>) -> Result<
    (IpHeader, Protocol, u16, Fragmentation, Transport),
    ParseError,
> {
    if ip_version(s) == 4 {
        match v4_fault(s) {
            Some(e) => Err(e),
            None => {
                let ip = IpHeader::V4 {
                    src: be32(s, 12) as u32,
                    dst: be32(s, 16) as u32,
                    header_len: ihl(s) as usize,
                    total_len: total_len(s) as usize,
                };
                let transport = if v4_fragmentation(s) is Later {
                    Ok(Transport::Other)
                } else {
                    transport_of(s[9], v4_payload(s))
                };
                match transport {
                    Ok(t) => Ok(
                        (ip, protocol_of(s[9]), field16(s, 4), v4_fragmentation(s), t),
                    ),
                    Err(e) => Err(e),
                }
            },
        }
    } else if ip_version(s) == 6 {
        if s.len() < 40 {
            Err(ParseError::Truncated)
        } else {
            Ok((IpHeader::V6, protocol_of(s[6]), 0, Fragmentation::Whole, Transport::Other))
        }
    } else {
        Err(ParseError::NotIp)
    }
}

impl<'a> Packet<'a> {
    /// The packet is what its bytes say.
    pub open spec fn wf(self) -> bool {
        read(self.bytes@) == Ok::<_, ParseError>(
            (self.ip, self.protocol, self.identification, self.fragmentation, self.transport),
        )
    }

    /// The protocol that policy rules are matched against.
    pub fn policy_protocol(&self) -> (r: Protocol)
        ensures
            r == self.protocol,
    {
        self.protocol
    }
}

pub(crate) fn data_offset(seg: &[u8]) -> (r: usize)
    requires
        seg.len() >= 20,
    ensures
        r == tcp_header_len(seg@),
{
    (seg[12] / 16) as usize * 4
}

fn parse_transport(seg: &[u8], proto: u8) -> (r: Result<Transport, ParseError>)
    ensures
        r == transport_of(proto, seg@),
{
    if proto == 6 {
        if seg.len() < 20 {
            return Err(ParseError::Truncated);
        }
        let header_len = data_offset(seg);
        if header_len < 20 {
            return Err(ParseError::BadLength);
        }
        if seg.len() < header_len {
            return Err(ParseError::Truncated);
        }
        Ok(
            Transport::Tcp {
                src_port: read16(seg, 0),
                dst_port: read16(seg, 2),
                header_len,
                flags: TcpFlags(seg[13]),
            },
        )
    } else if proto == 17 {
        if seg.len() < 8 {
            return Err(ParseError::Truncated);
        }
        Ok(Transport::Udp { src_port: read16(seg, 0), dst_port: read16(seg, 2) })
    } else if proto == 1 {
        if seg.len() < 8 {
            return Err(ParseError::Truncated);
        }
        let icmp_type = seg[0];
        let icmp_id = if icmp_type == 0 || icmp_type == 8 {
            Some(read16(seg, 4))
        } else {
            None
        };
        Ok(Transport::Icmp { icmp_type, icmp_id })
    } else {
        Ok(Transport::Other)
    }
}

/// Reads a packet that starts with an IP header.
pub fn parse<'a>(bytes: &'a [u8]) -> (r: Result<Packet<'a>, ParseError>)
    ensures
        match r {
            Ok(p) => p.bytes@ == bytes@ && p.wf(),
            Err(e) => read(bytes@) == Err::<
                (IpHeader, Protocol, u16, Fragmentation, Transport),
                ParseError,
            >(e),
        },
{
    if bytes.len() == 0 {
        return Err(ParseError::NotIp);
    }
    let version = bytes[0] / 16;
    if version == 6 {
        if bytes.len() < 40 {
            return Err(ParseError::Truncated);
        }
        return Ok(
            Packet {
                bytes,
                ip: IpHeader::V6,
                protocol: Protocol::from_ip_number(bytes[6]),
                identification: 0,
                fragmentation: Fragmentation::Whole,
                transport: Transport::Other,
            },
        );
    }
    if version != 4 {
        return Err(ParseError::NotIp);
    }
    if bytes.len() < 20 {
        return Err(ParseError::Truncated);
    }
    let header_len = (bytes[0] % 16) as usize * 4;
    let total_len = read16(bytes, 2) as usize;
    if header_len < 20 || total_len < header_len {
        return Err(ParseError::BadLength);
    }
    if bytes.len() < total_len {
        return Err(ParseError::Truncated);
    }
    let field = read16(bytes, 6);
    let fragmentation = if field % 8192 != 0 {
        Fragmentation::Later
    } else if (field / 8192) % 2 == 1 {
        Fragmentation::First
    } else {
        Fragmentation::Whole
    };
    let proto = bytes[9];
    let transport = if fragmentation.is_later() {
        Transport::Other
    } else {
        match parse_transport(slice_subrange(bytes, header_len, total_len), proto) {
            Ok(t) => t,
            Err(e) => {
                return Err(e);
            },
        }
    };
    Ok(
        Packet {
            bytes,
            ip: IpHeader::V4 {
                src: read32(bytes, 12),
                dst: read32(bytes, 16),
                header_len,
                total_len,
            },
            protocol: Protocol::from_ip_number(proto),
            identification: read16(bytes, 4),
            fragmentation,
            transport,
        },
    )
}

/// The bytes are an IPv4 packet with a TCP header.
pub open spec fn is_tcp4(s: Seq<u8>) -> bool {
    &&& ip_version(s) == 4
    &&& v4_fault(s) is None
    &&& s[9] == 6
    &&& !(v4_fragmentation(s) is Later)
    &&& transport_of(6, v4_payload(s)) is Ok
}

pub open spec fn source4(s: Seq<u8>) -> u32 {
    be32(s, 12) as u32
}

pub open spec fn destination4(s: Seq<u8>) -> u32 {
    be32(s, 16) as u32
}

/// The checksum that the TCP header of `s` ought to hold.
#[verifier::opaque]
pub open spec fn right_checksum(s: Seq<u8>) -> nat {
    tcp_checksum(source4(s), destination4(s), v4_payload(s))
}

pub proof fn lemma_checksum_is_short(s: Seq<u8>)
    ensures
        right_checksum(s) <= 65535,
{
    reveal(right_checksum);
    lemma_folded(tcp_sum(source4(s), destination4(s), put16(v4_payload(s), 16, 0)));
}

/// `s` with the right TCP checksum in place.
pub open spec fn with_right_checksum(s: Seq<u8>) -> Seq<u8> {
    put16(s, ihl(s) as int + 16, right_checksum(s))
}

/// The checksum that the TCP header of an IPv4 packet ought to hold.
pub fn tcp_ipv4_checksum_of(bytes: &[u8]) -> (r: Option<u16>)
    ensures
        r == (if is_tcp4(bytes@) {
            Some(right_checksum(bytes@) as u16)
        } else {
            None
        }),
{
    let pkt = match parse(bytes) {
        Ok(p) => p,
        Err(_) => {
            return None;
        },
    };
    reveal(right_checksum);
    match (pkt.ip, pkt.transport) {
        (IpHeader::V4 { src, dst, header_len, total_len }, Transport::Tcp { .. }) => Some(
            tcp_segment_checksum(bytes, header_len, total_len, src, dst),
        ),
        _ => None,
    }
}

/// Writes the right checksum into the TCP header behind the `ip_len` bytes of
/// an IPv4 header. Anything but such a packet is left alone, and the answer is no.
pub fn set_tcp_ipv4_checksum(bytes: &mut [u8], ip_len: usize) -> (r: bool)
    ensures
        r == (is_tcp4(old(bytes)@) && ip_len == ihl(old(bytes)@)),
        r ==> final(bytes)@ == with_right_checksum(old(bytes)@),
        !r ==> final(bytes)@ == old(bytes)@,
{
    let checksum = match tcp_ipv4_checksum_of(bytes) {
        Some(c) => c,
        None => {
            return false;
        },
    };
    let header_len = (bytes[0] % 16) as usize * 4;
    if header_len != ip_len {
        return false;
    }
    proof {
        lemma_checksum_is_short(bytes@);
    }
    write16(bytes, ip_len + 16, checksum);
    true
}

/// The two bytes at `k` in the TCP header of `s` replaced.
pub open spec fn put_in_tcp(s: Seq<u8>, k: int, n: nat) -> Seq<u8> {
    put16(s, ihl(s) as int + k, n)
}

/// Ports and checksum can be replaced without touching what else a packet says.
pub proof fn lemma_put_in_tcp(s: Seq<u8>, k: int, n: nat)
    requires
        is_tcp4(s),
        k == 0 || k == 2 || k == 16,
        n <= 65535,
    ensures
        is_tcp4(put_in_tcp(s, k, n)),
        put_in_tcp(s, k, n).len() == s.len(),
        ihl(put_in_tcp(s, k, n)) == ihl(s),
        total_len(put_in_tcp(s, k, n)) == total_len(s),
        source4(put_in_tcp(s, k, n)) == source4(s),
        destination4(put_in_tcp(s, k, n)) == destination4(s),
        v4_fragmentation(put_in_tcp(s, k, n)) == v4_fragmentation(s),
        field16(put_in_tcp(s, k, n), 4) == field16(s, 4),
        v4_payload(put_in_tcp(s, k, n)) == put16(v4_payload(s), k, n),
        be16(v4_payload(put_in_tcp(s, k, n)), k) == n,
{
    let t = put_in_tcp(s, k, n);
    let seg = v4_payload(s);
    assert(v4_payload(t) =~= put16(seg, k, n));
    assert(t[12] == s[12] && t[13] == s[13] && t[14] == s[14] && t[15] == s[15]);
    assert(t[16] == s[16] && t[17] == s[17] && t[18] == s[18] && t[19] == s[19]);
    assert(v4_payload(t)[12] == seg[12]);
}

} // verus!
