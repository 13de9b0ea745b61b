//! Binary record codec for the broker transport. Both pipeline stages
//! agree on this compact encoding of the captured-frame record; decoding
//! an encoded record gives back the original, field for field.

use vstd::prelude::*;
use vstd::slice::{slice_subrange, slice_to_vec};
use vstd::string::StringSliceAdditionalSpecFns;
use vstd::utf8::{decode_utf8, encode_utf8, valid_utf8};

use crate::frame::{CapturedFrame, Ipv4Address, MacAddr, QinQInfo, TcpFlags, VlanInfo,
    byte_of_flags, flags_of_byte};
use crate::wire::{be16, read_be16};

verus! {

/// The two bytes of a 16-bit big-endian field.
pub open spec fn be_bytes16(x: u16) -> Seq<u8> {
    seq![(x / 256) as u8, (x % 256) as u8]
}

/// The four bytes of a 32-bit big-endian field: two 16-bit halves.
pub open spec fn be_bytes32(x: u32) -> Seq<u8> {
    be_bytes16((x / 0x10000) as u16) + be_bytes16((x % 0x10000) as u16)
}

/// The eight bytes of a 64-bit big-endian field: two 32-bit halves.
pub open spec fn be_bytes64(x: u64) -> Seq<u8> {
    be_bytes32((x / 0x100000000) as u32) + be_bytes32((x % 0x100000000) as u32)
}

/// An optional byte as presence flag plus value.
pub open spec fn opt_u8_bytes(x: Option<u8>) -> Seq<u8> {
    match x {
        Some(v) => seq![1u8, v],
        None => seq![0u8, 0u8],
    }
}

/// An optional 16-bit value as presence flag plus big-endian value.
pub open spec fn opt_u16_bytes(x: Option<u16>) -> Seq<u8> {
    match x {
        Some(v) => seq![1u8, (v / 256) as u8, (v % 256) as u8],
        None => seq![0u8, 0u8, 0u8],
    }
}

/// An optional IPv4 address as presence flag plus octets.
pub open spec fn opt_ip_bytes(x: Option<Ipv4Address>) -> Seq<u8> {
    match x {
        Some(a) => seq![1u8, a.o0, a.o1, a.o2, a.o3],
        None => seq![0u8, 0u8, 0u8, 0u8, 0u8],
    }
}

/// The four bytes of a VLAN tag: id, priority, DEI.
pub open spec fn vlan_bytes(v: VlanInfo) -> Seq<u8> {
    seq![(v.id / 256) as u8, (v.id % 256) as u8, v.priority, (if v.dei { 1u8 } else { 0u8 })]
}

/// An optional VLAN tag as presence flag plus tag bytes.
pub open spec fn opt_vlan_bytes(x: Option<VlanInfo>) -> Seq<u8> {
    match x {
        Some(v) => seq![1u8] + vlan_bytes(v),
        None => seq![0u8, 0u8, 0u8, 0u8, 0u8],
    }
}

/// An optional QinQ double tag as presence flag plus outer and inner tag
/// bytes.
pub open spec fn opt_qinq_bytes(x: Option<QinQInfo>) -> Seq<u8> {
    match x {
        Some(q) => seq![1u8] + vlan_bytes(q.outer_vlan) + vlan_bytes(q.inner_vlan),
        None => seq![0u8, 0u8, 0u8, 0u8, 0u8, 0u8, 0u8, 0u8, 0u8],
    }
}

/// An optional TCP flag set as presence flag plus flag byte.
pub open spec fn opt_flags_bytes(x: Option<TcpFlags>) -> Seq<u8> {
    match x {
        Some(f) => seq![1u8, byte_of_flags(f)],
        None => seq![0u8, 0u8],
    }
}

/// The encoding of a record: timestamp, length-prefixed interface name,
/// then each remaining field at a fixed offset.
pub open spec fn spec_encode_record(f: CapturedFrame) -> Seq<u8> {
    be_bytes64(f.timestamp_micros as u64)
        + be_bytes16(encode_utf8(f.interface@).len() as u16)
        + encode_utf8(f.interface@)
        + f.src_mac@
        + f.dst_mac@
        + be_bytes16(f.ethertype)
        + opt_vlan_bytes(f.vlan)
        + opt_qinq_bytes(f.qinq)
        + opt_ip_bytes(f.src_ip)
        + opt_ip_bytes(f.dst_ip)
        + opt_u8_bytes(f.ip_protocol)
        + opt_u8_bytes(f.ttl)
        + opt_u16_bytes(f.src_port)
        + opt_u16_bytes(f.dst_port)
        + opt_flags_bytes(f.tcp_flags)
        + be_bytes32(f.frame_size)
        + be_bytes32(f.payload_size)
}

/// Field-wise equality of two records; the interface name is compared by
/// its characters.
pub open spec fn records_match(a: CapturedFrame, b: CapturedFrame) -> bool {
    &&& a.timestamp_micros == b.timestamp_micros
    &&& a.interface@ == b.interface@
    &&& a.src_mac@ == b.src_mac@
    &&& a.dst_mac@ == b.dst_mac@
    &&& a.ethertype == b.ethertype
    &&& a.vlan == b.vlan
    &&& a.qinq == b.qinq
    &&& a.src_ip == b.src_ip
    &&& a.dst_ip == b.dst_ip
    &&& a.ip_protocol == b.ip_protocol
    &&& a.ttl == b.ttl
    &&& a.src_port == b.src_port
    &&& a.dst_port == b.dst_port
    &&& a.tcp_flags == b.tcp_flags
    &&& a.frame_size == b.frame_size
    &&& a.payload_size == b.payload_size
}

#[verifier::external_type_specification]
#[verifier::external_body]
pub struct ExFromUtf8Error(std::string::FromUtf8Error);

/// Relies on std's `String::from_utf8`: succeeds exactly on valid UTF-8
/// input and returns the string those bytes encode.
pub assume_specification[ String::from_utf8 ](vec: Vec<u8>) -> (r: Result<String,
    std::string::FromUtf8Error>)
    ensures
        r is Ok <==> valid_utf8(vec@),
        r matches Ok(s) ==> s@ == decode_utf8(vec@),
;

proof fn lemma_opt_u8_len(x: Option<u8>)
    ensures
        opt_u8_bytes(x).len() == 2,
{
}

proof fn lemma_opt_u16_len(x: Option<u16>)
    ensures
        opt_u16_bytes(x).len() == 3,
{
}

proof fn lemma_opt_ip_len(x: Option<Ipv4Address>)
    ensures
        opt_ip_bytes(x).len() == 5,
{
}

proof fn lemma_opt_vlan_len(x: Option<VlanInfo>)
    ensures
        opt_vlan_bytes(x).len() == 5,
{
}

proof fn lemma_opt_qinq_len(x: Option<QinQInfo>)
    ensures
        opt_qinq_bytes(x).len() == 9,
{
}

proof fn lemma_opt_flags_len(x: Option<TcpFlags>)
    ensures
        opt_flags_bytes(x).len() == 2,
{
}

/// The length of an encoded record: a fixed frame around the variable
/// interface name.
pub proof fn lemma_encode_len(g: CapturedFrame)
    ensures
        spec_encode_record(g).len() == 68 + encode_utf8(g.interface@).len(),
{
    lemma_opt_vlan_len(g.vlan);
    lemma_opt_qinq_len(g.qinq);
    lemma_opt_ip_len(g.src_ip);
    lemma_opt_ip_len(g.dst_ip);
    lemma_opt_u8_len(g.ip_protocol);
    lemma_opt_u8_len(g.ttl);
    lemma_opt_u16_len(g.src_port);
    lemma_opt_u16_len(g.dst_port);
    lemma_opt_flags_len(g.tcp_flags);
    crate::frame::lemma_mac_view_len(g.src_mac);
    crate::frame::lemma_mac_view_len(g.dst_mac);
}

/// Where each piece of an encoded record lies.
#[verifier::rlimit(100)]
pub proof fn lemma_encode_layout(g: CapturedFrame)
    ensures
        ({
            let d = spec_encode_record(g);
            let l = encode_utf8(g.interface@).len() as int;
            let o = 10 + l;
            &&& d.len() == 68 + l
            &&& d.subrange(0, 8) == be_bytes64(g.timestamp_micros as u64)
            &&& d.subrange(8, 10) == be_bytes16(encode_utf8(g.interface@).len() as u16)
            &&& d.subrange(10, o) == encode_utf8(g.interface@)
            &&& d.subrange(o, o + 6) == g.src_mac@
            &&& d.subrange(o + 6, o + 12) == g.dst_mac@
            &&& d.subrange(o + 12, o + 14) == be_bytes16(g.ethertype)
            &&& d.subrange(o + 14, o + 19) == opt_vlan_bytes(g.vlan)
            &&& d.subrange(o + 19, o + 28) == opt_qinq_bytes(g.qinq)
            &&& d.subrange(o + 28, o + 33) == opt_ip_bytes(g.src_ip)
            &&& d.subrange(o + 33, o + 38) == opt_ip_bytes(g.dst_ip)
            &&& d.subrange(o + 38, o + 40) == opt_u8_bytes(g.ip_protocol)
            &&& d.subrange(o + 40, o + 42) == opt_u8_bytes(g.ttl)
            &&& d.subrange(o + 42, o + 45) == opt_u16_bytes(g.src_port)
            &&& d.subrange(o + 45, o + 48) == opt_u16_bytes(g.dst_port)
            &&& d.subrange(o + 48, o + 50) == opt_flags_bytes(g.tcp_flags)
            &&& d.subrange(o + 50, o + 54) == be_bytes32(g.frame_size)
            &&& d.subrange(o + 54, o + 58) == be_bytes32(g.payload_size)
        }),
{
    lemma_opt_vlan_len(g.vlan);
    lemma_opt_qinq_len(g.qinq);
    lemma_opt_ip_len(g.src_ip);
    lemma_opt_ip_len(g.dst_ip);
    lemma_opt_u8_len(g.ip_protocol);
    lemma_opt_u8_len(g.ttl);
    lemma_opt_u16_len(g.src_port);
    lemma_opt_u16_len(g.dst_port);
    lemma_opt_flags_len(g.tcp_flags);
    crate::frame::lemma_mac_view_len(g.src_mac);
    crate::frame::lemma_mac_view_len(g.dst_mac);
    lemma_encode_len(g);
    let d = spec_encode_record(g);
    let l = encode_utf8(g.interface@).len() as int;
    let o = 10 + l;
    assert(d.subrange(0, 8) =~= be_bytes64(g.timestamp_micros as u64));
    assert(d.subrange(8, 10) =~= be_bytes16(encode_utf8(g.interface@).len() as u16));
    assert(d.subrange(10, o) =~= encode_utf8(g.interface@));
    assert(d.subrange(o, o + 6) =~= g.src_mac@);
    assert(d.subrange(o + 6, o + 12) =~= g.dst_mac@);
    assert(d.subrange(o + 12, o + 14) =~= be_bytes16(g.ethertype));
    assert(d.subrange(o + 14, o + 19) =~= opt_vlan_bytes(g.vlan));
    assert(d.subrange(o + 19, o + 28) =~= opt_qinq_bytes(g.qinq));
    assert(d.subrange(o + 28, o + 33) =~= opt_ip_bytes(g.src_ip));
    assert(d.subrange(o + 33, o + 38) =~= opt_ip_bytes(g.dst_ip));
    assert(d.subrange(o + 38, o + 40) =~= opt_u8_bytes(g.ip_protocol));
    assert(d.subrange(o + 40, o + 42) =~= opt_u8_bytes(g.ttl));
    assert(d.subrange(o + 42, o + 45) =~= opt_u16_bytes(g.src_port));
    assert(d.subrange(o + 45, o + 48) =~= opt_u16_bytes(g.dst_port));
    assert(d.subrange(o + 48, o + 50) =~= opt_flags_bytes(g.tcp_flags));
    assert(d.subrange(o + 50, o + 54) =~= be_bytes32(g.frame_size));
    assert(d.subrange(o + 54, o + 58) =~= be_bytes32(g.payload_size));
}

fn push_be16(out: &mut Vec<u8>, x: u16)
    ensures
        final(out)@ == old(out)@ + be_bytes16(x),
{
    out.push((x / 256) as u8);
    out.push((x % 256) as u8);
    assert(out@ =~= old(out)@ + be_bytes16(x));
}

fn push_be32(out: &mut Vec<u8>, x: u32)
    ensures
        final(out)@ == old(out)@ + be_bytes32(x),
{
    push_be16(out, (x / 0x10000) as u16);
    push_be16(out, (x % 0x10000) as u16);
    assert(out@ =~= old(out)@ + be_bytes32(x));
}

fn push_be64(out: &mut Vec<u8>, x: u64)
    ensures
        final(out)@ == old(out)@ + be_bytes64(x),
{
    push_be32(out, (x / 0x100000000) as u32);
    push_be32(out, (x % 0x100000000) as u32);
    assert(out@ =~= old(out)@ + be_bytes64(x));
}

fn push_mac(out: &mut Vec<u8>, m: &MacAddr)
    ensures
        final(out)@ == old(out)@ + m@,
{
    let b = m.as_bytes();
    out.push(b[0]);
    out.push(b[1]);
    out.push(b[2]);
    out.push(b[3]);
    out.push(b[4]);
    out.push(b[5]);
    proof {
        crate::frame::lemma_mac_view_len(*m);
    }
    assert(out@ =~= old(out)@ + m@);
}

fn push_opt_u8(out: &mut Vec<u8>, x: &Option<u8>)
    ensures
        final(out)@ == old(out)@ + opt_u8_bytes(*x),
{
    match x {
        Some(v) => {
            out.push(1);
            out.push(*v);
        },
        None => {
            out.push(0);
            out.push(0);
        },
    }
    assert(out@ =~= old(out)@ + opt_u8_bytes(*x));
}

fn push_opt_u16(out: &mut Vec<u8>, x: &Option<u16>)
    ensures
        final(out)@ == old(out)@ + opt_u16_bytes(*x),
{
    match x {
        Some(v) => {
            out.push(1);
            out.push((*v / 256) as u8);
            out.push((*v % 256) as u8);
        },
        None => {
            out.push(0);
            out.push(0);
            out.push(0);
        },
    }
    assert(out@ =~= old(out)@ + opt_u16_bytes(*x));
}

fn push_opt_ip(out: &mut Vec<u8>, x: &Option<Ipv4Address>)
    ensures
        final(out)@ == old(out)@ + opt_ip_bytes(*x),
{
    match x {
        Some(a) => {
            out.push(1);
            out.push(a.o0);
            out.push(a.o1);
            out.push(a.o2);
            out.push(a.o3);
        },
        None => {
            out.push(0);
            out.push(0);
            out.push(0);
            out.push(0);
            out.push(0);
        },
    }
    assert(out@ =~= old(out)@ + opt_ip_bytes(*x));
}

fn push_vlan(out: &mut Vec<u8>, v: &VlanInfo)
    ensures
        final(out)@ == old(out)@ + vlan_bytes(*v),
{
    out.push((v.id / 256) as u8);
    out.push((v.id % 256) as u8);
    out.push(v.priority);
    out.push(if v.dei { 1 } else { 0 });
    assert(out@ =~= old(out)@ + vlan_bytes(*v));
}

fn push_opt_vlan(out: &mut Vec<u8>, x: &Option<VlanInfo>)
    ensures
        final(out)@ == old(out)@ + opt_vlan_bytes(*x),
{
    match x {
        Some(v) => {
            out.push(1);
            push_vlan(out, v);
            assert(out@ =~= old(out)@ + opt_vlan_bytes(*x));
        },
        None => {
            out.push(0);
            out.push(0);
            out.push(0);
            out.push(0);
            out.push(0);
            assert(out@ =~= old(out)@ + opt_vlan_bytes(*x));
        },
    }
}

fn push_opt_qinq(out: &mut Vec<u8>, x: &Option<QinQInfo>)
    ensures
        final(out)@ == old(out)@ + opt_qinq_bytes(*x),
{
    match x {
        Some(q) => {
            out.push(1);
            push_vlan(out, &q.outer_vlan);
            push_vlan(out, &q.inner_vlan);
            assert(out@ =~= old(out)@ + opt_qinq_bytes(*x));
        },
        None => {
            out.push(0);
            out.push(0);
            out.push(0);
            out.push(0);
            out.push(0);
            out.push(0);
            out.push(0);
            out.push(0);
            out.push(0);
            assert(out@ =~= old(out)@ + opt_qinq_bytes(*x));
        },
    }
}

fn push_opt_flags(out: &mut Vec<u8>, x: &Option<TcpFlags>)
    ensures
        final(out)@ == old(out)@ + opt_flags_bytes(*x),
{
    match x {
        Some(fl) => {
            out.push(1);
            out.push(fl.to_byte());
        },
        None => {
            out.push(0);
            out.push(0);
        },
    }
    assert(out@ =~= old(out)@ + opt_flags_bytes(*x));
}

/// Encode a record. Fails only when the interface name does not fit the
/// 16-bit length field.
pub fn encode_record(f: &CapturedFrame) -> (r: Option<Vec<u8>>)
    ensures
        r is Some <==> encode_utf8(f.interface@).len() <= 0xFFFF,
        r matches Some(v) ==> v@ == spec_encode_record(*f),
{
    let ibytes = f.interface.as_str().as_bytes();
    if ibytes.len() > 0xFFFF {
        return None;
    }
    let mut out: Vec<u8> = Vec::new();
    push_be64(&mut out, f.timestamp_micros as u64);
    push_be16(&mut out, ibytes.len() as u16);
    out.extend_from_slice(ibytes);
    push_mac(&mut out, &f.src_mac);
    push_mac(&mut out, &f.dst_mac);
    push_be16(&mut out, f.ethertype);
    push_opt_vlan(&mut out, &f.vlan);
    push_opt_qinq(&mut out, &f.qinq);
    push_opt_ip(&mut out, &f.src_ip);
    push_opt_ip(&mut out, &f.dst_ip);
    push_opt_u8(&mut out, &f.ip_protocol);
    push_opt_u8(&mut out, &f.ttl);
    push_opt_u16(&mut out, &f.src_port);
    push_opt_u16(&mut out, &f.dst_port);
    push_opt_flags(&mut out, &f.tcp_flags);
    push_be32(&mut out, f.frame_size);
    push_be32(&mut out, f.payload_size);
    proof {
        assert(Seq::<u8>::empty() + be_bytes64(f.timestamp_micros as u64)
            =~= be_bytes64(f.timestamp_micros as u64));
    }
    assert(out@ == spec_encode_record(*f));
    Some(out)
}

#[verifier::rlimit(100)]
proof fn lemma_decode_matches(data: Seq<u8>, v: CapturedFrame, l: int)
    requires
        0 <= l <= 0xFFFF,
        data.len() == 68 + l,
        data[8] as int * 256 + data[9] as int == l,
        v.interface@ == decode_utf8(data.subrange(10, 10 + l)),
        v.timestamp_micros == (((be16(data, 0) as int) * 0x1000000000000
            + (be16(data, 2) as int) * 0x100000000 + (be16(data, 4) as int) * 0x10000
            + (be16(data, 6) as int)) as u64) as i64,
        ({
            let o = 10 + l;
            &&& v.src_mac@ == data.subrange(o, o + 6)
            &&& v.dst_mac@ == data.subrange(o + 6, o + 12)
            &&& v.ethertype == be16(data, o + 12)
            &&& v.vlan == (if data[o + 14] != 0 {
                Some(VlanInfo { id: be16(data, o + 15), priority: data[o + 17],
                    dei: data[o + 18] != 0 })
            } else {
                None::<VlanInfo>
            })
            &&& v.qinq == (if data[o + 19] != 0 {
                Some(QinQInfo {
                    outer_vlan: VlanInfo { id: be16(data, o + 20), priority: data[o + 22],
                        dei: data[o + 23] != 0 },
                    inner_vlan: VlanInfo { id: be16(data, o + 24), priority: data[o + 26],
                        dei: data[o + 27] != 0 },
                })
            } else {
                None::<QinQInfo>
            })
            &&& v.src_ip == (if data[o + 28] != 0 {
                Some(Ipv4Address { o0: data[o + 29], o1: data[o + 30], o2: data[o + 31],
                    o3: data[o + 32] })
            } else {
                None::<Ipv4Address>
            })
            &&& v.dst_ip == (if data[o + 33] != 0 {
                Some(Ipv4Address { o0: data[o + 34], o1: data[o + 35], o2: data[o + 36],
                    o3: data[o + 37] })
            } else {
                None::<Ipv4Address>
            })
            &&& v.ip_protocol == (if data[o + 38] != 0 { Some(data[o + 39]) } else {
                None::<u8>
            })
            &&& v.ttl == (if data[o + 40] != 0 { Some(data[o + 41]) } else { None::<u8> })
            &&& v.src_port == (if data[o + 42] != 0 { Some(be16(data, o + 43)) } else {
                None::<u16>
            })
            &&& v.dst_port == (if data[o + 45] != 0 { Some(be16(data, o + 46)) } else {
                None::<u16>
            })
            &&& v.tcp_flags == (if data[o + 48] != 0 { Some(flags_of_byte(data[o + 49])) }
                else {
                None::<TcpFlags>
            })
            &&& v.frame_size == (be16(data, o + 50) as int * 0x10000
                + be16(data, o + 52) as int) as u32
            &&& v.payload_size == (be16(data, o + 54) as int * 0x10000
                + be16(data, o + 56) as int) as u32
        }),
    ensures
        forall|g: CapturedFrame| #[trigger] spec_encode_record(g) == data
            && encode_utf8(g.interface@).len() <= 0xFFFF ==> records_match(v, g),
{
    assert forall|g: CapturedFrame| (#[trigger] spec_encode_record(g) == data
        && encode_utf8(g.interface@).len() <= 0xFFFF) implies records_match(v, g) by {
        lemma_match_head(data, v, l, g);
        lemma_match_tags(data, v, l, g);
        lemma_match_l3l4(data, v, l, g);
        lemma_match_sizes(data, v, l, g);
    }
}

proof fn lemma_match_head(data: Seq<u8>, v: CapturedFrame, l: int, g: CapturedFrame)
    requires
        0 <= l <= 0xFFFF,
        data.len() == 68 + l,
        data[8] as int * 256 + data[9] as int == l,
        v.interface@ == decode_utf8(data.subrange(10, 10 + l)),
        v.timestamp_micros == (((be16(data, 0) as int) * 0x1000000000000
            + (be16(data, 2) as int) * 0x100000000 + (be16(data, 4) as int) * 0x10000
            + (be16(data, 6) as int)) as u64) as i64,
        ({
            let o = 10 + l;
            &&& v.src_mac@ == data.subrange(o, o + 6)
            &&& v.dst_mac@ == data.subrange(o + 6, o + 12)
            &&& v.ethertype == be16(data, o + 12)
            &&& v.vlan == (if data[o + 14] != 0 {
                Some(VlanInfo { id: be16(data, o + 15), priority: data[o + 17],
                    dei: data[o + 18] != 0 })
            } else {
                None::<VlanInfo>
            })
            &&& v.qinq == (if data[o + 19] != 0 {
                Some(QinQInfo {
                    outer_vlan: VlanInfo { id: be16(data, o + 20), priority: data[o + 22],
                        dei: data[o + 23] != 0 },
                    inner_vlan: VlanInfo { id: be16(data, o + 24), priority: data[o + 26],
                        dei: data[o + 27] != 0 },
                })
            } else {
                None::<QinQInfo>
            })
            &&& v.src_ip == (if data[o + 28] != 0 {
                Some(Ipv4Address { o0: data[o + 29], o1: data[o + 30], o2: data[o + 31],
                    o3: data[o + 32] })
            } else {
                None::<Ipv4Address>
            })
            &&& v.dst_ip == (if data[o + 33] != 0 {
                Some(Ipv4Address { o0: data[o + 34], o1: data[o + 35], o2: data[o + 36],
                    o3: data[o + 37] })
            } else {
                None::<Ipv4Address>
            })
            &&& v.ip_protocol == (if data[o + 38] != 0 { Some(data[o + 39]) } else {
                None::<u8>
            })
            &&& v.ttl == (if data[o + 40] != 0 { Some(data[o + 41]) } else { None::<u8> })
            &&& v.src_port == (if data[o + 42] != 0 { Some(be16(data, o + 43)) } else {
                None::<u16>
            })
            &&& v.dst_port == (if data[o + 45] != 0 { Some(be16(data, o + 46)) } else {
                None::<u16>
            })
            &&& v.tcp_flags == (if data[o + 48] != 0 { Some(flags_of_byte(data[o + 49])) }
                else {
                None::<TcpFlags>
            })
            &&& v.frame_size == (be16(data, o + 50) as int * 0x10000
                + be16(data, o + 52) as int) as u32
            &&& v.payload_size == (be16(data, o + 54) as int * 0x10000
                + be16(data, o + 56) as int) as u32
        }),
        spec_encode_record(g) == data,
        encode_utf8(g.interface@).len() <= 0xFFFF,
    ensures
        v.timestamp_micros == g.timestamp_micros,
        v.interface@ == g.interface@,
        v.src_mac@ == g.src_mac@,
        v.dst_mac@ == g.dst_mac@,
        v.ethertype == g.ethertype,
{
    lemma_encode_layout(g);
    let lg16 = encode_utf8(g.interface@).len() as u16;
    assert(data[8] == (lg16 / 256) as u8 && data[9] == (lg16 % 256) as u8);
    assert(l == lg16);
    let oo = 10 + l;

    let x = g.timestamp_micros as u64;
    let xh = (x / 0x100000000) as u32;
    let xl = (x % 0x100000000) as u32;
    assert(data.subrange(0, 8) == be_bytes32(xh) + be_bytes32(xl));
    let h1 = (xh / 0x10000) as u16;
    let h2 = (xh % 0x10000) as u16;
    let h3 = (xl / 0x10000) as u16;
    let h4 = (xl % 0x10000) as u16;
    assert(data[0] == (h1 / 256) as u8 && data[1] == (h1 % 256) as u8
        && data[2] == (h2 / 256) as u8 && data[3] == (h2 % 256) as u8
        && data[4] == (h3 / 256) as u8 && data[5] == (h3 % 256) as u8
        && data[6] == (h4 / 256) as u8 && data[7] == (h4 % 256) as u8);
    assert(be16(data, 0) == h1 && be16(data, 2) == h2 && be16(data, 4) == h3
        && be16(data, 6) == h4);
    assert(((be16(data, 0) as int) * 0x1000000000000 + (be16(data, 2) as int) * 0x100000000
        + (be16(data, 4) as int) * 0x10000 + (be16(data, 6) as int)) as u64 == x);
    let ty = g.timestamp_micros;
    assert((ty as u64) as i64 == ty) by (bit_vector);

    assert(v.interface@ == decode_utf8(data.subrange(10, oo)));
    vstd::utf8::encode_utf8_decode_utf8(g.interface@);

    assert(data[oo + 12] == (g.ethertype / 256) as u8
        && data[oo + 13] == (g.ethertype % 256) as u8);
}

proof fn lemma_match_tags(data: Seq<u8>, v: CapturedFrame, l: int, g: CapturedFrame)
    requires
        0 <= l <= 0xFFFF,
        data.len() == 68 + l,
        data[8] as int * 256 + data[9] as int == l,
        v.interface@ == decode_utf8(data.subrange(10, 10 + l)),
        v.timestamp_micros == (((be16(data, 0) as int) * 0x1000000000000
            + (be16(data, 2) as int) * 0x100000000 + (be16(data, 4) as int) * 0x10000
            + (be16(data, 6) as int)) as u64) as i64,
        ({
            let o = 10 + l;
            &&& v.src_mac@ == data.subrange(o, o + 6)
            &&& v.dst_mac@ == data.subrange(o + 6, o + 12)
            &&& v.ethertype == be16(data, o + 12)
            &&& v.vlan == (if data[o + 14] != 0 {
                Some(VlanInfo { id: be16(data, o + 15), priority: data[o + 17],
                    dei: data[o + 18] != 0 })
            } else {
                None::<VlanInfo>
            })
            &&& v.qinq == (if data[o + 19] != 0 {
                Some(QinQInfo {
                    outer_vlan: VlanInfo { id: be16(data, o + 20), priority: data[o + 22],
                        dei: data[o + 23] != 0 },
                    inner_vlan: VlanInfo { id: be16(data, o + 24), priority: data[o + 26],
                        dei: data[o + 27] != 0 },
                })
            } else {
                None::<QinQInfo>
            })
            &&& v.src_ip == (if data[o + 28] != 0 {
                Some(Ipv4Address { o0: data[o + 29], o1: data[o + 30], o2: data[o + 31],
                    o3: data[o + 32] })
            } else {
                None::<Ipv4Address>
            })
            &&& v.dst_ip == (if data[o + 33] != 0 {
                Some(Ipv4Address { o0: data[o + 34], o1: data[o + 35], o2: data[o + 36],
                    o3: data[o + 37] })
            } else {
                None::<Ipv4Address>
            })
            &&& v.ip_protocol == (if data[o + 38] != 0 { Some(data[o + 39]) } else {
                None::<u8>
            })
            &&& v.ttl == (if data[o + 40] != 0 { Some(data[o + 41]) } else { None::<u8> })
            &&& v.src_port == (if data[o + 42] != 0 { Some(be16(data, o + 43)) } else {
                None::<u16>
            })
            &&& v.dst_port == (if data[o + 45] != 0 { Some(be16(data, o + 46)) } else {
                None::<u16>
            })
            &&& v.tcp_flags == (if data[o + 48] != 0 { Some(flags_of_byte(data[o + 49])) }
                else {
                None::<TcpFlags>
            })
            &&& v.frame_size == (be16(data, o + 50) as int * 0x10000
                + be16(data, o + 52) as int) as u32
            &&& v.payload_size == (be16(data, o + 54) as int * 0x10000
                + be16(data, o + 56) as int) as u32
        }),
        spec_encode_record(g) == data,
        encode_utf8(g.interface@).len() <= 0xFFFF,
    ensures
        v.vlan == g.vlan,
        v.qinq == g.qinq,
{
    lemma_encode_layout(g);
    let lg16 = encode_utf8(g.interface@).len() as u16;
    assert(data[8] == (lg16 / 256) as u8 && data[9] == (lg16 % 256) as u8);
    assert(l == lg16);
    let oo = 10 + l;
    match g.vlan {
        Some(gv) => {
            assert(data[oo + 14] == 1);
            assert(v.vlan matches Some(dv) && dv == gv);
        },
        None => {
            assert(data[oo + 14] == 0);
        },
    }
    match g.qinq {
        Some(gq) => {
            assert(data[oo + 19] == 1);
            assert(opt_qinq_bytes(g.qinq) == seq![1u8] + vlan_bytes(gq.outer_vlan)
                + vlan_bytes(gq.inner_vlan));
            assert(data[oo + 20] == (gq.outer_vlan.id / 256) as u8);
            assert(v.qinq matches Some(dq) && dq == gq);
        },
        None => {
            assert(data[oo + 19] == 0);
        },
    }
}

proof fn lemma_match_l3l4(data: Seq<u8>, v: CapturedFrame, l: int, g: CapturedFrame)
    requires
        0 <= l <= 0xFFFF,
        data.len() == 68 + l,
        data[8] as int * 256 + data[9] as int == l,
        v.interface@ == decode_utf8(data.subrange(10, 10 + l)),
        v.timestamp_micros == (((be16(data, 0) as int) * 0x1000000000000
            + (be16(data, 2) as int) * 0x100000000 + (be16(data, 4) as int) * 0x10000
            + (be16(data, 6) as int)) as u64) as i64,
        ({
            let o = 10 + l;
            &&& v.src_mac@ == data.subrange(o, o + 6)
            &&& v.dst_mac@ == data.subrange(o + 6, o + 12)
            &&& v.ethertype == be16(data, o + 12)
            &&& v.vlan == (if data[o + 14] != 0 {
                Some(VlanInfo { id: be16(data, o + 15), priority: data[o + 17],
                    dei: data[o + 18] != 0 })
            } else {
                None::<VlanInfo>
            })
            &&& v.qinq == (if data[o + 19] != 0 {
                Some(QinQInfo {
                    outer_vlan: VlanInfo { id: be16(data, o + 20), priority: data[o + 22],
                        dei: data[o + 23] != 0 },
                    inner_vlan: VlanInfo { id: be16(data, o + 24), priority: data[o + 26],
                        dei: data[o + 27] != 0 },
                })
            } else {
                None::<QinQInfo>
            })
            &&& v.src_ip == (if data[o + 28] != 0 {
                Some(Ipv4Address { o0: data[o + 29], o1: data[o + 30], o2: data[o + 31],
                    o3: data[o + 32] })
            } else {
                None::<Ipv4Address>
            })
            &&& v.dst_ip == (if data[o + 33] != 0 {
                Some(Ipv4Address { o0: data[o + 34], o1: data[o + 35], o2: data[o + 36],
                    o3: data[o + 37] })
            } else {
                None::<Ipv4Address>
            })
            &&& v.ip_protocol == (if data[o + 38] != 0 { Some(data[o + 39]) } else {
                None::<u8>
            })
            &&& v.ttl == (if data[o + 40] != 0 { Some(data[o + 41]) } else { None::<u8> })
            &&& v.src_port == (if data[o + 42] != 0 { Some(be16(data, o + 43)) } else {
                None::<u16>
            })
            &&& v.dst_port == (if data[o + 45] != 0 { Some(be16(data, o + 46)) } else {
                None::<u16>
            })
            &&& v.tcp_flags == (if data[o + 48] != 0 { Some(flags_of_byte(data[o + 49])) }
                else {
                None::<TcpFlags>
            })
            &&& v.frame_size == (be16(data, o + 50) as int * 0x10000
                + be16(data, o + 52) as int) as u32
            &&& v.payload_size == (be16(data, o + 54) as int * 0x10000
                + be16(data, o + 56) as int) as u32
        }),
        spec_encode_record(g) == data,
        encode_utf8(g.interface@).len() <= 0xFFFF,
    ensures
        v.src_ip == g.src_ip,
        v.dst_ip == g.dst_ip,
        v.ip_protocol == g.ip_protocol,
        v.ttl == g.ttl,
        v.src_port == g.src_port,
        v.dst_port == g.dst_port,
        v.tcp_flags == g.tcp_flags,
{
    lemma_encode_layout(g);
    let lg16 = encode_utf8(g.interface@).len() as u16;
    assert(data[8] == (lg16 / 256) as u8 && data[9] == (lg16 % 256) as u8);
    assert(l == lg16);
    let oo = 10 + l;
    assert(v.src_ip == g.src_ip);
    assert(v.dst_ip == g.dst_ip);
    assert(v.ip_protocol == g.ip_protocol);
    assert(v.ttl == g.ttl);
    assert(v.src_port == g.src_port);
    assert(v.dst_port == g.dst_port);
    match g.tcp_flags {
        Some(gf) => {
            assert(data[oo + 48] == 1);
            assert(data[oo + 49] == byte_of_flags(gf));
            crate::frame::lemma_flags_byte_inverse(gf);
            assert(v.tcp_flags == g.tcp_flags);
        },
        None => {
            assert(data[oo + 48] == 0);
        },
    }
}

proof fn lemma_match_sizes(data: Seq<u8>, v: CapturedFrame, l: int, g: CapturedFrame)
    requires
        0 <= l <= 0xFFFF,
        data.len() == 68 + l,
        data[8] as int * 256 + data[9] as int == l,
        v.interface@ == decode_utf8(data.subrange(10, 10 + l)),
        v.timestamp_micros == (((be16(data, 0) as int) * 0x1000000000000
            + (be16(data, 2) as int) * 0x100000000 + (be16(data, 4) as int) * 0x10000
            + (be16(data, 6) as int)) as u64) as i64,
        ({
            let o = 10 + l;
            &&& v.src_mac@ == data.subrange(o, o + 6)
            &&& v.dst_mac@ == data.subrange(o + 6, o + 12)
            &&& v.ethertype == be16(data, o + 12)
            &&& v.vlan == (if data[o + 14] != 0 {
                Some(VlanInfo { id: be16(data, o + 15), priority: data[o + 17],
                    dei: data[o + 18] != 0 })
            } else {
                None::<VlanInfo>
            })
            &&& v.qinq == (if data[o + 19] != 0 {
                Some(QinQInfo {
                    outer_vlan: VlanInfo { id: be16(data, o + 20), priority: data[o + 22],
                        dei: data[o + 23] != 0 },
                    inner_vlan: VlanInfo { id: be16(data, o + 24), priority: data[o + 26],
                        dei: data[o + 27] != 0 },
                })
            } else {
                None::<QinQInfo>
            })
            &&& v.src_ip == (if data[o + 28] != 0 {
                Some(Ipv4Address { o0: data[o + 29], o1: data[o + 30], o2: data[o + 31],
                    o3: data[o + 32] })
            } else {
                None::<Ipv4Address>
            })
            &&& v.dst_ip == (if data[o + 33] != 0 {
                Some(Ipv4Address { o0: data[o + 34], o1: data[o + 35], o2: data[o + 36],
                    o3: data[o + 37] })
            } else {
                None::<Ipv4Address>
            })
            &&& v.ip_protocol == (if data[o + 38] != 0 { Some(data[o + 39]) } else {
                None::<u8>
            })
            &&& v.ttl == (if data[o + 40] != 0 { Some(data[o + 41]) } else { None::<u8> })
            &&& v.src_port == (if data[o + 42] != 0 { Some(be16(data, o + 43)) } else {
                None::<u16>
            })
            &&& v.dst_port == (if data[o + 45] != 0 { Some(be16(data, o + 46)) } else {
                None::<u16>
            })
            &&& v.tcp_flags == (if data[o + 48] != 0 { Some(flags_of_byte(data[o + 49])) }
                else {
                None::<TcpFlags>
            })
            &&& v.frame_size == (be16(data, o + 50) as int * 0x10000
                + be16(data, o + 52) as int) as u32
            &&& v.payload_size == (be16(data, o + 54) as int * 0x10000
                + be16(data, o + 56) as int) as u32
        }),
        spec_encode_record(g) == data,
        encode_utf8(g.interface@).len() <= 0xFFFF,
    ensures
        v.frame_size == g.frame_size,
        v.payload_size == g.payload_size,
{
    lemma_encode_layout(g);
    let lg16 = encode_utf8(g.interface@).len() as u16;
    assert(data[8] == (lg16 / 256) as u8 && data[9] == (lg16 % 256) as u8);
    assert(l == lg16);
    let oo = 10 + l;
    let fs = g.frame_size;
    let fh = (fs / 0x10000) as u16;
    let fl = (fs % 0x10000) as u16;
    assert(data.subrange(oo + 50, oo + 54) == be_bytes16(fh) + be_bytes16(fl));
    assert(data[oo + 50] == (fh / 256) as u8 && data[oo + 51] == (fh % 256) as u8
        && data[oo + 52] == (fl / 256) as u8 && data[oo + 53] == (fl % 256) as u8);
    assert(v.frame_size == fs);
    let ps = g.payload_size;
    let ph = (ps / 0x10000) as u16;
    let pl = (ps % 0x10000) as u16;
    assert(data.subrange(oo + 54, oo + 58) == be_bytes16(ph) + be_bytes16(pl));
    assert(data[oo + 54] == (ph / 256) as u8 && data[oo + 55] == (ph % 256) as u8
        && data[oo + 56] == (pl / 256) as u8 && data[oo + 57] == (pl % 256) as u8);
    assert(v.payload_size == ps);
}

/// Decode a record. Decoding what `encode_record` produced gives back the
/// original record, field for field.
#[verifier::rlimit(100)]
pub fn decode_record(data: &[u8]) -> (r: Option<CapturedFrame>)
    ensures
        forall|g: CapturedFrame| #[trigger] spec_encode_record(g) == data@
            && encode_utf8(g.interface@).len() <= 0xFFFF
            ==> (r matches Some(v) && records_match(v, g)),
{
    let n = data.len();
    if n < 10 {
        proof {
            assert forall|g: CapturedFrame| #[trigger] spec_encode_record(g) != data@ by {
                lemma_encode_len(g);
            }
        }
        return None;
    }

    let l16 = read_be16(data, 8);
    let l = l16 as usize;
    if n != 68 + l {
        proof {
            assert forall|g: CapturedFrame| !(#[trigger] spec_encode_record(g) == data@
                && encode_utf8(g.interface@).len() <= 0xFFFF) by {
                if spec_encode_record(g) == data@ && encode_utf8(g.interface@).len() <= 0xFFFF {
                    lemma_encode_layout(g);
                    let lg = encode_utf8(g.interface@).len() as u16;
                    assert(data@[8] == (lg / 256) as u8 && data@[9] == (lg % 256) as u8);
                    assert(l16 == lg);
                }
            }
        }
        return None;
    }

    let ts_hi: u32 = (read_be16(data, 0) as u32) * 0x10000 + (read_be16(data, 2) as u32);
    let ts_lo: u32 = (read_be16(data, 4) as u32) * 0x10000 + (read_be16(data, 6) as u32);
    let ts_u: u64 = (ts_hi as u64) * 0x100000000 + (ts_lo as u64);
    let timestamp_micros = ts_u as i64;

    let iv = slice_to_vec(slice_subrange(data, 10, 10 + l));
    let interface = match String::from_utf8(iv) {
        Ok(s) => s,
        Err(_) => {
            proof {
                assert forall|g: CapturedFrame| !(#[trigger] spec_encode_record(g) == data@
                    && encode_utf8(g.interface@).len() <= 0xFFFF) by {
                    if spec_encode_record(g) == data@
                        && encode_utf8(g.interface@).len() <= 0xFFFF {
                        lemma_encode_layout(g);
                        let lg = encode_utf8(g.interface@).len() as u16;
                        assert(l16 == lg);
                        assert(data@.subrange(10, 10 + l as int)
                            == encode_utf8(g.interface@));
                        vstd::utf8::encode_utf8_valid_utf8(g.interface@);
                    }
                }
            }
            return None;
        },
    };

    let o = 10 + l;
    let src_mac = MacAddr::new([data[o], data[o + 1], data[o + 2], data[o + 3], data[o + 4],
        data[o + 5]]);
    let dst_mac = MacAddr::new([data[o + 6], data[o + 7], data[o + 8], data[o + 9],
        data[o + 10], data[o + 11]]);
    let ethertype = read_be16(data, o + 12);
    let vlan = if data[o + 14] != 0 {
        Some(VlanInfo { id: read_be16(data, o + 15), priority: data[o + 17],
            dei: data[o + 18] != 0 })
    } else {
        None
    };
    let qinq = if data[o + 19] != 0 {
        Some(QinQInfo {
            outer_vlan: VlanInfo { id: read_be16(data, o + 20), priority: data[o + 22],
                dei: data[o + 23] != 0 },
            inner_vlan: VlanInfo { id: read_be16(data, o + 24), priority: data[o + 26],
                dei: data[o + 27] != 0 },
        })
    } else {
        None
    };
    let src_ip = if data[o + 28] != 0 {
        Some(Ipv4Address::new(data[o + 29], data[o + 30], data[o + 31], data[o + 32]))
    } else {
        None
    };
    let dst_ip = if data[o + 33] != 0 {
        Some(Ipv4Address::new(data[o + 34], data[o + 35], data[o + 36], data[o + 37]))
    } else {
        None
    };
    let ip_protocol = if data[o + 38] != 0 {
        Some(data[o + 39])
    } else {
        None
    };
    let ttl = if data[o + 40] != 0 {
        Some(data[o + 41])
    } else {
        None
    };
    let src_port = if data[o + 42] != 0 {
        Some(read_be16(data, o + 43))
    } else {
        None
    };
    let dst_port = if data[o + 45] != 0 {
        Some(read_be16(data, o + 46))
    } else {
        None
    };
    let tcp_flags = if data[o + 48] != 0 {
        Some(TcpFlags::from_byte(data[o + 49]))
    } else {
        None
    };
    let frame_size: u32 = (read_be16(data, o + 50) as u32) * 0x10000
        + (read_be16(data, o + 52) as u32);
    let payload_size: u32 = (read_be16(data, o + 54) as u32) * 0x10000
        + (read_be16(data, o + 56) as u32);

    let v = CapturedFrame {
        timestamp_micros,
        interface,
        src_mac,
        dst_mac,
        ethertype,
        vlan,
        qinq,
        src_ip,
        dst_ip,
        ip_protocol,
        ttl,
        src_port,
        dst_port,
        tcp_flags,
        frame_size,
        payload_size,
    };

    proof {
        let ghost dd = data@;
        let ghost li = l as int;
        let ghost oo = o as int;
        assert(dd[8] as int * 256 + dd[9] as int == li);
        assert(v.timestamp_micros == (((be16(dd, 0) as int) * 0x1000000000000
            + (be16(dd, 2) as int) * 0x100000000 + (be16(dd, 4) as int) * 0x10000
            + (be16(dd, 6) as int)) as u64) as i64);
        assert(v.src_mac@ =~= dd.subrange(oo, oo + 6));
        assert(v.dst_mac@ =~= dd.subrange(oo + 6, oo + 12));
        assert(v.frame_size == (be16(dd, oo + 50) as int * 0x10000
            + be16(dd, oo + 52) as int) as u32);
        assert(v.payload_size == (be16(dd, oo + 54) as int * 0x10000
            + be16(dd, oo + 56) as int) as u32);
        lemma_decode_matches(dd, v, li);
    }
    Some(v)
}


} // verus!
