//! Flow state management.

use vstd::prelude::*;

use crate::counters::{sat_add, sat_add64};
use crate::frame::{Ipv4Address, MacAddr, hex_char_lower, mac_string_of};
use crate::ids;

verus! {

/// The decimal digits of a number, most significant first.
pub open spec fn dec_digits(n: int) -> Seq<char>
    recommends
        n >= 0,
    decreases n,
{
    if n < 10 {
        seq![hex_char_lower(n)]
    } else {
        dec_digits(n / 10).push(hex_char_lower(n % 10))
    }
}

fn dec_digit_str(n: u16) -> (r: &'static str)
    requires
        n < 10,
    ensures
        r@ =~= seq![hex_char_lower(n as int)],
{
    proof {
        reveal_strlit("0"); reveal_strlit("1"); reveal_strlit("2"); reveal_strlit("3");
        reveal_strlit("4"); reveal_strlit("5"); reveal_strlit("6"); reveal_strlit("7");
        reveal_strlit("8"); reveal_strlit("9");
    }
    match n {
        0 => "0", 1 => "1", 2 => "2", 3 => "3", 4 => "4",
        5 => "5", 6 => "6", 7 => "7", 8 => "8", _ => "9",
    }
}

/// Render a number in decimal.
pub fn dec_string(n: u16) -> (r: String)
    ensures
        r@ == dec_digits(n as int),
    decreases n,
{
    if n < 10 {
        dec_digit_str(n).to_owned()
    } else {
        let mut s = dec_string(n / 10);
        s.append(dec_digit_str(n % 10));
        assert(s@ =~= dec_digits((n / 10) as int).push(hex_char_lower((n % 10) as int)));
        s
    }
}

/// The dotted-quad text of an IPv4 address.
pub open spec fn ip_string_of(ip: Ipv4Address) -> Seq<char> {
    dec_digits(ip.o0 as int) + seq!['.'] + dec_digits(ip.o1 as int) + seq!['.']
        + dec_digits(ip.o2 as int) + seq!['.'] + dec_digits(ip.o3 as int)
}

/// Render an IPv4 address as dotted-quad text.
pub fn ip_string(ip: &Ipv4Address) -> (r: String)
    ensures
        r@ == ip_string_of(*ip),
{
    proof {
        reveal_strlit(".");
    }
    let mut s = dec_string(ip.o0 as u16);
    s.append(".");
    s.append(dec_string(ip.o1 as u16).as_str());
    s.append(".");
    s.append(dec_string(ip.o2 as u16).as_str());
    s.append(".");
    s.append(dec_string(ip.o3 as u16).as_str());
    assert(s@ =~= ip_string_of(*ip));
    s
}

/// Unique key for a flow: the full 8-element tuple.
#[derive(Clone, Copy, Debug)]
pub struct FlowKey {
    pub src_mac: MacAddr,
    pub dst_mac: MacAddr,
    pub src_ip: Option<Ipv4Address>,
    pub dst_ip: Option<Ipv4Address>,
    pub src_port: Option<u16>,
    pub dst_port: Option<u16>,
    pub vlan_id: Option<u16>,
    pub protocol: Option<u8>,
}

/// The mathematical value of a flow key: MAC addresses as byte sequences,
/// the rest as plain optional values.
pub type FlowKeyV = (Seq<u8>, Seq<u8>, Option<Ipv4Address>, Option<Ipv4Address>, Option<u16>,
    Option<u16>, Option<u16>, Option<u8>);

impl View for FlowKey {
    type V = FlowKeyV;

    open spec fn view(&self) -> FlowKeyV {
        (self.src_mac@, self.dst_mac@, self.src_ip, self.dst_ip, self.src_port, self.dst_port,
            self.vlan_id, self.protocol)
    }
}

/// Compare two optional u16 values.
pub fn opt_u16_eq(a: &Option<u16>, b: &Option<u16>) -> (r: bool)
    ensures
        r == (a == b),
{
    match (a, b) {
        (Some(x), Some(y)) => x == y,
        (None, None) => true,
        _ => false,
    }
}

/// Compare two optional u8 values.
pub fn opt_u8_eq(a: &Option<u8>, b: &Option<u8>) -> (r: bool)
    ensures
        r == (a == b),
{
    match (a, b) {
        (Some(x), Some(y)) => x == y,
        (None, None) => true,
        _ => false,
    }
}

/// Compare two optional IPv4 addresses.
pub fn opt_ip_eq(a: &Option<Ipv4Address>, b: &Option<Ipv4Address>) -> (r: bool)
    ensures
        r == (a == b),
{
    match (a, b) {
        (Some(x), Some(y)) => x == y,
        (None, None) => true,
        _ => false,
    }
}

/// One endpoint's display text: the address with its port if L3 is
/// present, else the MAC address.
pub open spec fn endpoint_string_of(mac: MacAddr, ip: Option<Ipv4Address>, port: Option<u16>)
    -> Seq<char> {
    match ip {
        Some(a) => match port {
            Some(p) => ip_string_of(a) + seq![':'] + dec_digits(p as int),
            None => ip_string_of(a),
        },
        None => mac_string_of(mac@),
    }
}

/// A flow key's display text: source, arrow, destination, protocol tag.
pub open spec fn flow_display_of(k: FlowKey) -> Seq<char> {
    endpoint_string_of(k.src_mac, k.src_ip, k.src_port) + seq![' ', '-', '>', ' ']
        + endpoint_string_of(k.dst_mac, k.dst_ip, k.dst_port) + seq![' ', '[']
        + (match k.protocol {
        Some(1u8) => seq!['I', 'C', 'M', 'P'],
        Some(6u8) => seq!['T', 'C', 'P'],
        Some(17u8) => seq!['U', 'D', 'P'],
        Some(_) => seq!['O', 'T', 'H', 'E', 'R'],
        None => seq!['L', '2'],
    }) + seq![']']
}

fn endpoint_string(mac: &MacAddr, ip: &Option<Ipv4Address>, port: &Option<u16>) -> (r: String)
    ensures
        r@ == endpoint_string_of(*mac, *ip, *port),
{
    proof {
        reveal_strlit(":");
    }
    match ip {
        Some(a) => {
            let mut s = ip_string(a);
            match port {
                Some(p) => {
                    s.append(":");
                    s.append(dec_string(*p).as_str());
                    assert(s@ =~= endpoint_string_of(*mac, *ip, *port));
                    s
                },
                None => s,
            }
        },
        None => mac.to_string(),
    }
}

impl FlowKey {
    /// A display text for logging: source endpoint, destination endpoint,
    /// protocol tag.
    pub fn to_display_string(&self) -> (r: String)
        ensures
            r@ == flow_display_of(*self),
    {
        proof {
            reveal_strlit(" -> ");
            reveal_strlit(" [");
            reveal_strlit("]");
            reveal_strlit("ICMP");
            reveal_strlit("TCP");
            reveal_strlit("UDP");
            reveal_strlit("OTHER");
            reveal_strlit("L2");
        }
        let mut s = endpoint_string(&self.src_mac, &self.src_ip, &self.src_port);
        s.append(" -> ");
        s.append(endpoint_string(&self.dst_mac, &self.dst_ip, &self.dst_port).as_str());
        s.append(" [");
        match self.protocol {
            Some(1) => s.append("ICMP"),
            Some(6) => s.append("TCP"),
            Some(17) => s.append("UDP"),
            Some(_) => s.append("OTHER"),
            None => s.append("L2"),
        }
        s.append("]");
        assert(s@ =~= flow_display_of(*self));
        s
    }

    /// Compare two flow keys for equality of all eight elements.
    pub fn same_as(&self, other: &FlowKey) -> (r: bool)
        ensures
            r == (self@ == other@),
    {
        let r = self.src_mac.same_as(&other.src_mac) && self.dst_mac.same_as(&other.dst_mac)
            && opt_ip_eq(&self.src_ip, &other.src_ip) && opt_ip_eq(&self.dst_ip, &other.dst_ip)
            && opt_u16_eq(&self.src_port, &other.src_port)
            && opt_u16_eq(&self.dst_port, &other.dst_port)
            && opt_u16_eq(&self.vlan_id, &other.vlan_id)
            && opt_u8_eq(&self.protocol, &other.protocol);
        r
    }
}

/// Flow state in memory. Timestamps are Unix seconds.
#[derive(Clone, Copy, Debug)]
pub struct FlowState {
    /// Unique identifier, assigned at first sight.
    pub id: u128,
    /// Flow key (tuple).
    pub key: FlowKey,
    /// First seen timestamp.
    pub first_seen: u64,
    /// Last seen timestamp.
    pub last_seen: u64,
    /// Total packet count.
    pub packet_count: u64,
    /// Total byte count.
    pub byte_count: u64,
    /// TCP flags seen (bitwise OR of all observed flag bytes).
    pub tcp_flags_seen: u8,
    /// Dirty flag (changed since last persistence).
    pub dirty: bool,
}

/// How a known flow changes under one more packet: counters grow, the
/// flag accumulator keeps every bit it had.
pub open spec fn flow_updated(pre: FlowState, post: FlowState, bytes: u64, tcp_flags: Option<u8>,
    now: u64) -> bool {
    &&& post.id == pre.id
    &&& post.key@ == pre.key@
    &&& post.first_seen == pre.first_seen
    &&& post.last_seen == now
    &&& post.packet_count == sat_add64(pre.packet_count, 1)
    &&& post.byte_count == sat_add64(pre.byte_count, bytes)
    &&& post.tcp_flags_seen == (match tcp_flags {
        Some(f) => pre.tcp_flags_seen | f,
        None => pre.tcp_flags_seen,
    })
    &&& post.dirty
}

/// What a flow entry created by one first packet looks like; the id is left
/// open (it is freshly generated).
pub open spec fn flow_new_from(post: FlowState, key: FlowKeyV, bytes: u64, tcp_flags: Option<u8>,
    now: u64) -> bool {
    &&& post.key@ == key
    &&& post.first_seen == now
    &&& post.last_seen == now
    &&& post.packet_count == 1
    &&& post.byte_count == bytes
    &&& post.tcp_flags_seen == (match tcp_flags {
        Some(f) => 0u8 | f,
        None => 0u8,
    })
    &&& post.dirty
}

impl FlowState {
    /// Create a new flow state, first seen now, with a fresh identifier and
    /// no traffic counted yet.
    pub fn new(key: FlowKey, now: u64) -> (r: Self)
        ensures
            r.key@ == key@,
            r.first_seen == now && r.last_seen == now,
            r.packet_count == 0 && r.byte_count == 0,
            r.tcp_flags_seen == 0,
            r.dirty,
    {
        Self {
            id: ids::new_uuid_u128(),
            key,
            first_seen: now,
            last_seen: now,
            packet_count: 0,
            byte_count: 0,
            tcp_flags_seen: 0,
            dirty: true,
        }
    }

    /// Update flow state with a new packet.
    pub fn update(&mut self, bytes: u64, tcp_flags: Option<u8>, now: u64)
        ensures
            flow_updated(*old(self), *final(self), bytes, tcp_flags, now),
    {
        self.last_seen = now;
        self.packet_count = sat_add(self.packet_count, 1);
        self.byte_count = sat_add(self.byte_count, bytes);

        if let Some(flags) = tcp_flags {
            self.tcp_flags_seen = self.tcp_flags_seen | flags;
        }

        self.dirty = true;
    }

    /// Check if the flow has not been seen for longer than the timeout.
    pub fn is_timed_out(&self, timeout_secs: u64, now: u64) -> (r: bool)
        ensures
            r == (now > self.last_seen && now - self.last_seen > timeout_secs),
    {
        if now > self.last_seen {
            now - self.last_seen > timeout_secs
        } else {
            false
        }
    }

    /// Check if this is a TCP connection that has completed: a FIN or RST
    /// flag has been seen.
    pub fn is_tcp_completed(&self) -> (r: bool)
        ensures
            r == (self.tcp_flags_seen & 0x05 != 0),
    {
        self.tcp_flags_seen & 0x05 != 0
    }

    /// Get the duration of the flow in seconds, zero if the clock regressed.
    pub fn duration_secs(&self) -> (r: u64)
        ensures
            r == (if self.last_seen > self.first_seen { self.last_seen - self.first_seen } else {
                0int
            }),
    {
        if self.last_seen > self.first_seen {
            self.last_seen - self.first_seen
        } else {
            0
        }
    }

    /// Clear the dirty flag.
    pub fn clear_dirty(&mut self)
        ensures
            !final(self).dirty,
            final(self).id == old(self).id && final(self).key == old(self).key
                && final(self).first_seen == old(self).first_seen
                && final(self).last_seen == old(self).last_seen
                && final(self).packet_count == old(self).packet_count
                && final(self).byte_count == old(self).byte_count
                && final(self).tcp_flags_seen == old(self).tcp_flags_seen,
    {
        self.dirty = false;
    }

    /// Check if dirty.
    pub fn is_dirty(&self) -> (r: bool)
        ensures
            r == self.dirty,
    {
        self.dirty
    }
}

/// A flow's flag accumulator is bitwise monotone: after an update it keeps
/// every bit it had before.
pub proof fn lemma_tcp_flags_monotone(pre: u8, add: u8)
    ensures
        (pre | add) & pre == pre,
        forall|bit: u8| pre & bit == bit ==> (pre | add) & bit == bit,
{
    assert((pre | add) & pre == pre) by (bit_vector);
    assert forall|bit: u8| pre & bit == bit implies (pre | add) & bit == bit by {
        let b: u8 = bit;
        assert(pre & b == b ==> (pre | add) & b == b) by (bit_vector);
    }
}

/// Flow snapshot for persistence: a plain copy of the current values.
#[derive(Clone, Debug)]
pub struct FlowSnapshot {
    pub id: u128,
    pub src_mac: String,
    pub dst_mac: String,
    pub src_ip: Option<Ipv4Address>,
    pub dst_ip: Option<Ipv4Address>,
    pub src_port: Option<u16>,
    pub dst_port: Option<u16>,
    pub vlan_id: Option<u16>,
    pub ethertype: u16,
    pub ip_protocol: Option<u8>,
    pub first_seen: u64,
    pub last_seen: u64,
    pub packet_count: u64,
    pub byte_count: u64,
    pub tcp_flags_seen: u8,
}

/// What a faithful flow snapshot holds.
pub open spec fn flow_snapshot_of(s: FlowSnapshot, f: FlowState, ethertype: u16) -> bool {
    &&& s.id == f.id
    &&& s.src_mac@ == crate::frame::mac_string_of(f.key.src_mac@)
    &&& s.dst_mac@ == crate::frame::mac_string_of(f.key.dst_mac@)
    &&& s.src_ip == f.key.src_ip
    &&& s.dst_ip == f.key.dst_ip
    &&& s.src_port == f.key.src_port
    &&& s.dst_port == f.key.dst_port
    &&& s.vlan_id == f.key.vlan_id
    &&& s.ethertype == ethertype
    &&& s.ip_protocol == f.key.protocol
    &&& s.first_seen == f.first_seen
    &&& s.last_seen == f.last_seen
    &&& s.packet_count == f.packet_count
    &&& s.byte_count == f.byte_count
    &&& s.tcp_flags_seen == f.tcp_flags_seen
}

impl FlowState {
    /// Create a snapshot of the current counter values for persistence.
    pub fn snapshot(&self, ethertype: u16) -> (r: FlowSnapshot)
        ensures
            flow_snapshot_of(r, *self, ethertype),
    {
        FlowSnapshot {
            id: self.id,
            src_mac: self.key.src_mac.to_string(),
            dst_mac: self.key.dst_mac.to_string(),
            src_ip: self.key.src_ip,
            dst_ip: self.key.dst_ip,
            src_port: self.key.src_port,
            dst_port: self.key.dst_port,
            vlan_id: self.key.vlan_id,
            ethertype,
            ip_protocol: self.key.protocol,
            first_seen: self.first_seen,
            last_seen: self.last_seen,
            packet_count: self.packet_count,
            byte_count: self.byte_count,
            tcp_flags_seen: self.tcp_flags_seen,
        }
    }
}

} // verus!
