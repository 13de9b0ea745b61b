//! Ethernet frame parsing: the full decoder from a raw frame buffer to a
//! structured record.

use vstd::prelude::*;
use vstd::slice::slice_subrange;

use crate::frame::{CapturedFrame, DecodeError, MacAddr, QinQInfo, VlanInfo, vlan_of_tci};
use crate::ipv4::{Ipv4Info, ipv4_ok, parse_ipv4, spec_ipv4};
use crate::transport::{TransportInfo, parse_transport, spec_transport, transport_ok};
use crate::wire::{be16, read_be16};

verus! {

pub const ETHERTYPE_IPV4: u16 = 0x0800;
pub const ETHERTYPE_ARP: u16 = 0x0806;
pub const ETHERTYPE_VLAN: u16 = 0x8100;
pub const ETHERTYPE_QINQ: u16 = 0x88A8;
pub const ETHERTYPE_QINQ_ALT: u16 = 0x9100;
pub const ETHERTYPE_IPV6: u16 = 0x86DD;
pub const ETHERTYPE_MPLS: u16 = 0x8847;
pub const ETHERTYPE_LLDP: u16 = 0x88CC;

/// Minimum Ethernet frame size (without preamble/FCS).
pub const MIN_FRAME_SIZE: usize = 14;

/// Where Layer 3 starts: after the Ethernet header and any VLAN tags.
pub open spec fn l3_off(d: Seq<u8>) -> int
    recommends
        d.len() >= 14,
{
    let et0 = be16(d, 12);
    if et0 == 0x8100 {
        18
    } else if et0 == 0x88A8 || et0 == 0x9100 {
        if d.len() >= 18 && be16(d, 16) == 0x8100 {
            22
        } else {
            18
        }
    } else {
        14
    }
}

/// Whether the buffer holds a decodable frame: the Ethernet header and
/// every announced VLAN tag are complete.
pub open spec fn frame_ok(d: Seq<u8>) -> bool {
    d.len() >= 14 && d.len() >= l3_off(d)
}

/// The effective (innermost, post-VLAN) EtherType.
pub open spec fn eff_ethertype(d: Seq<u8>) -> u16
    recommends
        frame_ok(d),
{
    if l3_off(d) == 14 {
        be16(d, 12)
    } else if l3_off(d) == 18 {
        be16(d, 16)
    } else {
        be16(d, 20)
    }
}

/// The single VLAN tag of the frame, if any. A 802.1ad outer tag whose
/// inner TPID is not 802.1Q is exposed as a single tag.
pub open spec fn frame_vlan(d: Seq<u8>) -> Option<VlanInfo>
    recommends
        frame_ok(d),
{
    if l3_off(d) == 18 {
        Some(vlan_of_tci(be16(d, 14)))
    } else {
        None
    }
}

/// The QinQ double tag of the frame, if any.
pub open spec fn frame_qinq(d: Seq<u8>) -> Option<QinQInfo>
    recommends
        frame_ok(d),
{
    if l3_off(d) == 22 {
        Some(QinQInfo {
            outer_vlan: vlan_of_tci(be16(d, 14)),
            inner_vlan: vlan_of_tci(be16(d, 18)),
        })
    } else {
        None
    }
}

/// Whether the frame carries a decodable IPv4 header.
pub open spec fn has_l3(d: Seq<u8>) -> bool {
    &&& frame_ok(d)
    &&& eff_ethertype(d) == 0x0800
    &&& d.len() > l3_off(d)
    &&& ipv4_ok(d.skip(l3_off(d)))
}

/// The IPv4 header fields of the frame.
pub open spec fn frame_ipv4(d: Seq<u8>) -> Ipv4Info
    recommends
        has_l3(d),
{
    spec_ipv4(d.skip(l3_off(d)))
}

/// Where Layer 4 starts: after the IPv4 header.
pub open spec fn l4_off(d: Seq<u8>) -> int
    recommends
        has_l3(d),
{
    l3_off(d) + frame_ipv4(d).header_length
}

/// Whether the frame carries a decodable transport header.
pub open spec fn has_l4(d: Seq<u8>) -> bool {
    &&& has_l3(d)
    &&& d.len() > l4_off(d)
    &&& transport_ok(frame_ipv4(d).protocol, d.skip(l4_off(d)))
}

/// The transport fields of the frame.
pub open spec fn frame_transport(d: Seq<u8>) -> TransportInfo
    recommends
        has_l4(d),
{
    spec_transport(frame_ipv4(d).protocol, d.skip(l4_off(d)))
}

/// What the decoder promises of a record built from buffer `d` captured on
/// interface `interface`: every field except the timestamp is a function of
/// the buffer.
pub open spec fn frame_decoded(interface: Seq<char>, d: Seq<u8>, f: CapturedFrame) -> bool {
    &&& f.interface@ == interface
    &&& f.frame_size == d.len()
    &&& f.dst_mac@ == d.subrange(0, 6)
    &&& f.src_mac@ == d.subrange(6, 12)
    &&& f.ethertype == eff_ethertype(d)
    &&& f.vlan == frame_vlan(d)
    &&& f.qinq == frame_qinq(d)
    &&& f.src_ip == (if has_l3(d) { Some(frame_ipv4(d).src_ip) } else { None })
    &&& f.dst_ip == (if has_l3(d) { Some(frame_ipv4(d).dst_ip) } else { None })
    &&& f.ip_protocol == (if has_l3(d) { Some(frame_ipv4(d).protocol) } else { None })
    &&& f.ttl == (if has_l3(d) { Some(frame_ipv4(d).ttl) } else { None })
    &&& f.src_port == (if has_l4(d) { frame_transport(d).src_port } else { None })
    &&& f.dst_port == (if has_l4(d) { frame_transport(d).dst_port } else { None })
    &&& f.tcp_flags == (if has_l4(d) { frame_transport(d).tcp_flags } else { None })
    &&& f.payload_size == (if has_l4(d) { frame_transport(d).payload_size } else { 0u32 })
}

/// Parse an Ethernet frame header: destination MAC, source MAC, EtherType,
/// and the number of bytes consumed.
pub fn parse_ethernet(data: &[u8]) -> (r: Result<(MacAddr, MacAddr, u16, usize), DecodeError>)
    ensures
        data@.len() < 14 ==> r == Err::<(MacAddr, MacAddr, u16, usize), DecodeError>(
            DecodeError::Truncated),
        data@.len() >= 14 ==> (r matches Ok(t) && t.0@ == data@.subrange(0, 6)
            && t.1@ == data@.subrange(6, 12) && t.2 == be16(data@, 12) && t.3 == 14),
{
    if data.len() < MIN_FRAME_SIZE {
        return Err(DecodeError::Truncated);
    }

    let dst_mac = MacAddr::new([data[0], data[1], data[2], data[3], data[4], data[5]]);
    let src_mac = MacAddr::new([data[6], data[7], data[8], data[9], data[10], data[11]]);
    assert(dst_mac@ =~= data@.subrange(0, 6));
    assert(src_mac@ =~= data@.subrange(6, 12));

    let ethertype = read_be16(data, 12);
    Ok((dst_mac, src_mac, ethertype, 14))
}

/// Parse a complete frame from raw bytes into a record. The only failure is
/// a buffer that ends inside the Ethernet header or an announced VLAN tag;
/// truncated or malformed L3/L4 layers leave those fields absent instead.
pub fn parse_frame(interface: &str, data: &[u8]) -> (r: Result<CapturedFrame, DecodeError>)
    requires
        data@.len() <= 0xFFFF_FFFF,
    ensures
        r is Ok <==> frame_ok(data@),
        r matches Err(e) ==> e == DecodeError::Truncated,
        r matches Ok(f) ==> frame_decoded(interface@, data@, f) && f.wf(),
{
    let ghost d = data@;
    let frame_size = data.len() as u32;

    let (dst_mac, src_mac, et0, first_offset) = match parse_ethernet(data) {
        Ok(t) => t,
        Err(e) => {
            return Err(e);
        },
    };

    let mut frame = CapturedFrame::new(interface, src_mac, dst_mac, et0, frame_size);
    let mut ethertype = et0;
    let mut offset: usize = first_offset;

    if et0 == ETHERTYPE_QINQ || et0 == ETHERTYPE_QINQ_ALT {
        let tag = slice_subrange(data, 14, data.len());
        proof {
            assert(tag@ =~= d.skip(14));
        }
        let (outer_vlan, inner_et, _) = match crate::vlan::parse_vlan(tag) {
            Ok(t) => t,
            Err(_) => {
                assert(!frame_ok(d));
                return Err(DecodeError::Truncated);
            },
        };
        assert(inner_et == be16(d, 16));
        assert(outer_vlan == vlan_of_tci(be16(d, 14)));

        if inner_et == ETHERTYPE_VLAN {
            let tag2 = slice_subrange(data, 18, data.len());
            proof {
                assert(tag2@ =~= d.skip(18));
            }
            let (inner_vlan, final_et, _) = match crate::vlan::parse_vlan(tag2) {
                Ok(t) => t,
                Err(_) => {
                    assert(l3_off(d) == 22);
                    assert(!frame_ok(d));
                    return Err(DecodeError::Truncated);
                },
            };
            assert(final_et == be16(d, 20));
            frame.qinq = Some(QinQInfo { outer_vlan, inner_vlan });
            ethertype = final_et;
            offset = 22;
            assert(l3_off(d) == 22);
        } else {
            frame.vlan = Some(outer_vlan);
            ethertype = inner_et;
            offset = 18;
            assert(l3_off(d) == 18);
        }
    } else if et0 == ETHERTYPE_VLAN {
        let tag = slice_subrange(data, 14, data.len());
        proof {
            assert(tag@ =~= d.skip(14));
        }
        let (v, inner_et, _) = match crate::vlan::parse_vlan(tag) {
            Ok(t) => t,
            Err(_) => {
                assert(!frame_ok(d));
                return Err(DecodeError::Truncated);
            },
        };
        frame.vlan = Some(v);
        ethertype = inner_et;
        offset = 18;
        assert(l3_off(d) == 18);
    } else {
        assert(l3_off(d) == 14);
    }

    assert(offset == l3_off(d));
    assert(frame_ok(d));
    frame.ethertype = ethertype;
    assert(ethertype == eff_ethertype(d));

    if ethertype == ETHERTYPE_IPV4 && data.len() > offset {
        let l3 = slice_subrange(data, offset, data.len());
        proof {
            assert(l3@ =~= d.skip(l3_off(d)));
        }
        match parse_ipv4(l3) {
            Ok(ip_info) => {
                assert(has_l3(d));
                frame.src_ip = Some(ip_info.src_ip);
                frame.dst_ip = Some(ip_info.dst_ip);
                frame.ip_protocol = Some(ip_info.protocol);
                frame.ttl = Some(ip_info.ttl);

                let transport_offset = offset + ip_info.header_length;
                assert(transport_offset == l4_off(d));
                if data.len() > transport_offset {
                    let l4 = slice_subrange(data, transport_offset, data.len());
                    proof {
                        assert(l4@ =~= d.skip(l4_off(d)));
                    }
                    match parse_transport(ip_info.protocol, l4) {
                        Ok(ti) => {
                            assert(has_l4(d));
                            frame.src_port = ti.src_port;
                            frame.dst_port = ti.dst_port;
                            frame.tcp_flags = ti.tcp_flags;
                            frame.payload_size = ti.payload_size;
                        },
                        Err(_) => {
                            assert(!has_l4(d));
                        },
                    }
                } else {
                    assert(!has_l4(d));
                }
            },
            Err(_) => {
                assert(!has_l3(d));
            },
        }
    } else {
        assert(!has_l3(d));
    }

    Ok(frame)
}

/// The decoder's consumption bounds: every header it reads lies inside the
/// buffer, and each declared header length is respected.
pub proof fn lemma_decode_consumption(d: Seq<u8>)
    ensures
        frame_ok(d) ==> 14 <= l3_off(d) <= d.len(),
        has_l3(d) ==> l3_off(d) + 20 <= l4_off(d) && l4_off(d) <= d.len(),
        has_l4(d) && frame_ipv4(d).protocol == 6 ==> l4_off(d) + 20 <= d.len()
            && frame_transport(d).payload_size <= d.len() - l4_off(d),
        has_l4(d) && frame_ipv4(d).protocol == 17 ==> l4_off(d) + 8 <= d.len(),
{
    if has_l3(d) {
        let sub = d.skip(l3_off(d));
        assert(sub.len() == d.len() - l3_off(d));
        let b: u8 = sub[0];
        assert(b & 0x0F < 16) by (bit_vector);
        assert((sub[0] & 0x0F) * 4 <= sub.len());
    }
    if has_l4(d) {
        let sub = d.skip(l4_off(d));
        assert(sub.len() == d.len() - l4_off(d));
        if frame_ipv4(d).protocol == 6 {
            assert(frame_transport(d).payload_size <= sub.len());
        }
    }
}

} // verus!
