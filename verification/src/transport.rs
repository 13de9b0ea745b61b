//! Transport layer (TCP/UDP) parsing.

use vstd::prelude::*;

use crate::frame::{DecodeError, TcpFlags, flags_of_byte};
use crate::wire::{be16, be32, read_be16, read_be32};

verus! {

/// Parsed transport layer information.
#[derive(Clone, Debug, PartialEq)]
pub struct TransportInfo {
    /// Source port (TCP/UDP).
    pub src_port: Option<u16>,
    /// Destination port (TCP/UDP).
    pub dst_port: Option<u16>,
    /// TCP flags (if TCP).
    pub tcp_flags: Option<TcpFlags>,
    /// TCP sequence number (if TCP).
    pub tcp_seq: Option<u32>,
    /// TCP acknowledgment number (if TCP).
    pub tcp_ack: Option<u32>,
    /// TCP window size (if TCP).
    pub tcp_window: Option<u16>,
    /// Payload size after the transport header.
    pub payload_size: u32,
}

/// Whether a byte sequence starts with a complete, well-formed TCP header.
pub open spec fn tcp_ok(d: Seq<u8>) -> bool {
    d.len() >= 20 && ((d[12] >> 4) & 0x0F) * 4 >= 20
}

/// Which failure an ill-formed TCP header prefix exhibits.
pub open spec fn tcp_err(d: Seq<u8>) -> DecodeError {
    if d.len() < 20 {
        DecodeError::Truncated
    } else {
        DecodeError::Malformed
    }
}

/// The transport fields of the TCP header at the start of a byte sequence.
pub open spec fn spec_tcp(d: Seq<u8>) -> TransportInfo
    recommends
        tcp_ok(d),
{
    TransportInfo {
        src_port: Some(be16(d, 0)),
        dst_port: Some(be16(d, 2)),
        tcp_flags: Some(flags_of_byte(d[13])),
        tcp_seq: Some(be32(d, 4)),
        tcp_ack: Some(be32(d, 8)),
        tcp_window: Some(be16(d, 14)),
        payload_size: (if d.len() > ((d[12] >> 4) & 0x0F) * 4 {
            d.len() - ((d[12] >> 4) & 0x0F) * 4
        } else {
            0
        }) as u32,
    }
}

/// Whether a byte sequence starts with a complete UDP header.
pub open spec fn udp_ok(d: Seq<u8>) -> bool {
    d.len() >= 8
}

/// The transport fields of the UDP header at the start of a byte sequence.
/// The payload size comes from the header's length field, less the 8 header
/// bytes.
pub open spec fn spec_udp(d: Seq<u8>) -> TransportInfo
    recommends
        udp_ok(d),
{
    TransportInfo {
        src_port: Some(be16(d, 0)),
        dst_port: Some(be16(d, 2)),
        tcp_flags: None,
        tcp_seq: None,
        tcp_ack: None,
        tcp_window: None,
        payload_size: (if be16(d, 4) > 8 { be16(d, 4) - 8 } else { 0 }) as u32,
    }
}

/// A transport info carrying no L4 fields, only the remaining byte count.
pub open spec fn spec_transport_other(d: Seq<u8>) -> TransportInfo {
    TransportInfo {
        src_port: None,
        dst_port: None,
        tcp_flags: None,
        tcp_seq: None,
        tcp_ack: None,
        tcp_window: None,
        payload_size: d.len() as u32,
    }
}

/// Whether the transport parse at the start of a byte sequence succeeds for
/// the given IP protocol. Protocols other than TCP and UDP always succeed.
pub open spec fn transport_ok(ip_protocol: u8, d: Seq<u8>) -> bool {
    if ip_protocol == 6 {
        tcp_ok(d)
    } else if ip_protocol == 17 {
        udp_ok(d)
    } else {
        true
    }
}

/// The transport fields the parse yields for the given IP protocol.
pub open spec fn spec_transport(ip_protocol: u8, d: Seq<u8>) -> TransportInfo
    recommends
        transport_ok(ip_protocol, d),
{
    if ip_protocol == 6 {
        spec_tcp(d)
    } else if ip_protocol == 17 {
        spec_udp(d)
    } else {
        spec_transport_other(d)
    }
}

/// Which failure the transport parse exhibits for the given IP protocol.
pub open spec fn transport_err(ip_protocol: u8, d: Seq<u8>) -> DecodeError
    recommends
        !transport_ok(ip_protocol, d),
{
    if ip_protocol == 6 {
        tcp_err(d)
    } else {
        DecodeError::Truncated
    }
}

/// Parse a TCP header at the start of the buffer.
pub fn parse_tcp(data: &[u8]) -> (r: Result<TransportInfo, DecodeError>)
    requires
        data@.len() <= 0xFFFF_FFFF,
    ensures
        r is Ok <==> tcp_ok(data@),
        r matches Ok(info) ==> info == spec_tcp(data@),
        r matches Err(e) ==> e == tcp_err(data@),
{
    if data.len() < 20 {
        return Err(DecodeError::Truncated);
    }

    let b12 = data[12];
    assert((b12 >> 4) & 0x0F < 16) by (bit_vector);
    let data_offset: usize = (((b12 >> 4) & 0x0F) as usize) * 4;
    if data_offset < 20 {
        return Err(DecodeError::Malformed);
    }

    let payload_size: u32 = if data.len() > data_offset {
        (data.len() - data_offset) as u32
    } else {
        0
    };

    Ok(TransportInfo {
        src_port: Some(read_be16(data, 0)),
        dst_port: Some(read_be16(data, 2)),
        tcp_flags: Some(TcpFlags::from_byte(data[13])),
        tcp_seq: Some(read_be32(data, 4)),
        tcp_ack: Some(read_be32(data, 8)),
        tcp_window: Some(read_be16(data, 14)),
        payload_size,
    })
}

/// Parse a UDP header at the start of the buffer.
pub fn parse_udp(data: &[u8]) -> (r: Result<TransportInfo, DecodeError>)
    ensures
        r is Ok <==> udp_ok(data@),
        r matches Ok(info) ==> info == spec_udp(data@),
        r matches Err(e) ==> e == DecodeError::Truncated,
{
    if data.len() < 8 {
        return Err(DecodeError::Truncated);
    }

    let length = read_be16(data, 4);
    let payload_size: u16 = if length > 8 {
        length - 8
    } else {
        0
    };

    Ok(TransportInfo {
        src_port: Some(read_be16(data, 0)),
        dst_port: Some(read_be16(data, 2)),
        tcp_flags: None,
        tcp_seq: None,
        tcp_ack: None,
        tcp_window: None,
        payload_size: payload_size as u32,
    })
}

/// Parse the transport header for the given IP protocol. For protocols other
/// than TCP and UDP no fields are extracted and the whole rest is payload.
pub fn parse_transport(ip_protocol: u8, data: &[u8]) -> (r: Result<TransportInfo, DecodeError>)
    requires
        data@.len() <= 0xFFFF_FFFF,
    ensures
        r is Ok <==> transport_ok(ip_protocol, data@),
        r matches Ok(info) ==> info == spec_transport(ip_protocol, data@),
        r matches Err(e) ==> e == transport_err(ip_protocol, data@),
{
    if ip_protocol == 6 {
        parse_tcp(data)
    } else if ip_protocol == 17 {
        parse_udp(data)
    } else {
        Ok(TransportInfo {
            src_port: None,
            dst_port: None,
            tcp_flags: None,
            tcp_seq: None,
            tcp_ack: None,
            tcp_window: None,
            payload_size: data.len() as u32,
        })
    }
}

/// The well-known service name of a port number, if one is assigned.
pub open spec fn spec_service_name(port: u16) -> Option<Seq<char>> {
    match port {
        20u16 => Some("ftp-data"@),
        21u16 => Some("ftp"@),
        22u16 => Some("ssh"@),
        23u16 => Some("telnet"@),
        25u16 => Some("smtp"@),
        53u16 => Some("dns"@),
        67u16 => Some("dhcp"@),
        68u16 => Some("dhcp"@),
        80u16 => Some("http"@),
        88u16 => Some("kerberos"@),
        110u16 => Some("pop3"@),
        123u16 => Some("ntp"@),
        137u16 => Some("netbios"@),
        138u16 => Some("netbios"@),
        139u16 => Some("netbios"@),
        143u16 => Some("imap"@),
        161u16 => Some("snmp"@),
        162u16 => Some("snmp"@),
        389u16 => Some("ldap"@),
        443u16 => Some("https"@),
        445u16 => Some("smb"@),
        636u16 => Some("ldaps"@),
        993u16 => Some("imaps"@),
        3306u16 => Some("mysql"@),
        3389u16 => Some("rdp"@),
        5432u16 => Some("postgresql"@),
        6379u16 => Some("redis"@),
        8080u16 => Some("http"@),
        8443u16 => Some("https"@),
        _ => None,
    }
}

/// Get the well-known service name of a port number.
pub fn service_name(port: u16) -> (r: Option<&'static str>)
    ensures
        r is Some <==> spec_service_name(port) is Some,
        r matches Some(s) ==> s@ == spec_service_name(port)->0,
{
    match port {
        20 => Some("ftp-data"),
        21 => Some("ftp"),
        22 => Some("ssh"),
        23 => Some("telnet"),
        25 => Some("smtp"),
        53 => Some("dns"),
        67 | 68 => Some("dhcp"),
        80 | 8080 => Some("http"),
        88 => Some("kerberos"),
        110 => Some("pop3"),
        123 => Some("ntp"),
        137 | 138 | 139 => Some("netbios"),
        143 => Some("imap"),
        161 | 162 => Some("snmp"),
        389 => Some("ldap"),
        443 | 8443 => Some("https"),
        445 => Some("smb"),
        636 => Some("ldaps"),
        993 => Some("imaps"),
        3306 => Some("mysql"),
        3389 => Some("rdp"),
        5432 => Some("postgresql"),
        6379 => Some("redis"),
        _ => None,
    }
}

} // verus!
