//! IPv4 header parsing.

use vstd::prelude::*;

use crate::frame::{DecodeError, Ipv4Address};
use crate::wire::{be16, read_be16};

verus! {

/// Parsed IPv4 header information.
#[derive(Clone, Debug, PartialEq)]
pub struct Ipv4Info {
    /// IP version (always 4 here).
    pub version: u8,
    /// Header length in bytes.
    pub header_length: usize,
    /// Differentiated Services Code Point.
    pub dscp: u8,
    /// Explicit Congestion Notification.
    pub ecn: u8,
    /// Total length of the IP packet.
    pub total_length: u16,
    /// Identification field.
    pub identification: u16,
    /// Don't Fragment flag.
    pub dont_fragment: bool,
    /// More Fragments flag.
    pub more_fragments: bool,
    /// Fragment offset.
    pub fragment_offset: u16,
    /// Time To Live.
    pub ttl: u8,
    /// Protocol number (6 = TCP, 17 = UDP, 1 = ICMP, ...).
    pub protocol: u8,
    /// Header checksum.
    pub checksum: u16,
    /// Source IP address.
    pub src_ip: Ipv4Address,
    /// Destination IP address.
    pub dst_ip: Ipv4Address,
}

/// Whether a byte sequence starts with a complete, well-formed IPv4 header:
/// at least 20 bytes, version 4, IHL at least 5, and the declared header
/// length present in the buffer.
pub open spec fn ipv4_ok(d: Seq<u8>) -> bool {
    &&& d.len() >= 20
    &&& (d[0] >> 4) & 0x0F == 4
    &&& d[0] & 0x0F >= 5
    &&& d.len() >= (d[0] & 0x0F) * 4
}

/// Which failure an ill-formed IPv4 header prefix exhibits.
pub open spec fn ipv4_err(d: Seq<u8>) -> DecodeError {
    if d.len() < 20 {
        DecodeError::Truncated
    } else if (d[0] >> 4) & 0x0F != 4 {
        DecodeError::Malformed
    } else if d[0] & 0x0F < 5 {
        DecodeError::Malformed
    } else {
        DecodeError::Truncated
    }
}

/// The fields of the IPv4 header at the start of a byte sequence.
pub open spec fn spec_ipv4(d: Seq<u8>) -> Ipv4Info
    recommends
        ipv4_ok(d),
{
    Ipv4Info {
        version: (d[0] >> 4) & 0x0F,
        header_length: (((d[0] & 0x0F) as usize) * 4) as usize,
        dscp: (d[1] >> 2) & 0x3F,
        ecn: d[1] & 0x03,
        total_length: be16(d, 2),
        identification: be16(d, 4),
        dont_fragment: (be16(d, 6) >> 14) & 0x01 == 1,
        more_fragments: (be16(d, 6) >> 13) & 0x01 == 1,
        fragment_offset: be16(d, 6) & 0x1FFF,
        ttl: d[8],
        protocol: d[9],
        checksum: be16(d, 10),
        src_ip: Ipv4Address { o0: d[12], o1: d[13], o2: d[14], o3: d[15] },
        dst_ip: Ipv4Address { o0: d[16], o1: d[17], o2: d[18], o3: d[19] },
    }
}

/// Parse an IPv4 header at the start of the buffer.
pub fn parse_ipv4(data: &[u8]) -> (r: Result<Ipv4Info, DecodeError>)
    ensures
        r is Ok <==> ipv4_ok(data@),
        r matches Ok(info) ==> info == spec_ipv4(data@)
            && 20 <= info.header_length <= 60 && info.header_length <= data@.len(),
        r matches Err(e) ==> e == ipv4_err(data@),
{
    if data.len() < 20 {
        return Err(DecodeError::Truncated);
    }

    let b0 = data[0];
    let version = (b0 >> 4) & 0x0F;
    if version != 4 {
        return Err(DecodeError::Malformed);
    }

    let ihl = b0 & 0x0F;
    assert(b0 & 0x0F < 16) by (bit_vector);
    let header_length: usize = (ihl as usize) * 4;

    if header_length < 20 {
        assert(data@[0] & 0x0F < 5);
        return Err(DecodeError::Malformed);
    }

    if data.len() < header_length {
        return Err(DecodeError::Truncated);
    }

    let b1 = data[1];
    let flags_fragment = read_be16(data, 6);

    Ok(Ipv4Info {
        version,
        header_length,
        dscp: (b1 >> 2) & 0x3F,
        ecn: b1 & 0x03,
        total_length: read_be16(data, 2),
        identification: read_be16(data, 4),
        dont_fragment: (flags_fragment >> 14) & 0x01 == 1,
        more_fragments: (flags_fragment >> 13) & 0x01 == 1,
        fragment_offset: flags_fragment & 0x1FFF,
        ttl: data[8],
        protocol: data[9],
        checksum: read_be16(data, 10),
        src_ip: Ipv4Address { o0: data[12], o1: data[13], o2: data[14], o3: data[15] },
        dst_ip: Ipv4Address { o0: data[16], o1: data[17], o2: data[18], o3: data[19] },
    })
}

/// Check if an IP address is private (RFC 1918).
pub fn is_private(ip: &Ipv4Address) -> (r: bool)
    ensures
        r == (ip.o0 == 10 || (ip.o0 == 172 && 16 <= ip.o1 <= 31) || (ip.o0 == 192 && ip.o1
            == 168)),
{
    if ip.o0 == 10 {
        return true;
    }
    if ip.o0 == 172 && ip.o1 >= 16 && ip.o1 <= 31 {
        return true;
    }
    if ip.o0 == 192 && ip.o1 == 168 {
        return true;
    }
    false
}

/// Check if an IP address is link-local (169.254.0.0/16).
pub fn is_link_local(ip: &Ipv4Address) -> (r: bool)
    ensures
        r == (ip.o0 == 169 && ip.o1 == 254),
{
    ip.o0 == 169 && ip.o1 == 254
}

/// Check if an IP address is multicast (224.0.0.0/4).
pub fn is_multicast(ip: &Ipv4Address) -> (r: bool)
    ensures
        r == (224 <= ip.o0 <= 239),
{
    ip.o0 >= 224 && ip.o0 <= 239
}

/// The display name of an IP protocol number.
pub open spec fn spec_protocol_name(protocol: u8) -> Seq<char> {
    match protocol {
        1u8 => "ICMP"@,
        2u8 => "IGMP"@,
        6u8 => "TCP"@,
        17u8 => "UDP"@,
        47u8 => "GRE"@,
        50u8 => "ESP"@,
        51u8 => "AH"@,
        58u8 => "ICMPv6"@,
        89u8 => "OSPF"@,
        132u8 => "SCTP"@,
        _ => "Unknown"@,
    }
}

/// Get the display name of an IP protocol number.
pub fn protocol_name(protocol: u8) -> (r: &'static str)
    ensures
        r@ == spec_protocol_name(protocol),
{
    match protocol {
        1 => "ICMP",
        2 => "IGMP",
        6 => "TCP",
        17 => "UDP",
        47 => "GRE",
        50 => "ESP",
        51 => "AH",
        58 => "ICMPv6",
        89 => "OSPF",
        132 => "SCTP",
        _ => "Unknown",
    }
}

} // verus!
