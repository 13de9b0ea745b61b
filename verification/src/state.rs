//! The aggregation core: in-memory key-to-counter tables, updated once per
//! consumed frame record.

use vstd::prelude::*;

use crate::clock;
use crate::counters::{sat_add, sat_add64};
use crate::device::{DeviceState, device_new_from, device_updated, device_wf};
use crate::flow::{FlowKey, FlowKeyV, FlowState, flow_new_from, flow_updated};
use crate::frame::{CapturedFrame, MacAddr, byte_of_flags, spec_vlan_id};
use crate::protocol::{ProtocolStats, spec_protocol_updated};

verus! {

/// VLAN statistics. Timestamps are Unix seconds.
#[derive(Clone, Copy, Debug)]
pub struct VlanStats {
    /// The (effective) VLAN id.
    pub vlan_id: u16,
    /// The outer VLAN id seen at first observation, for QinQ traffic.
    pub outer_vlan_id: Option<u16>,
    /// First seen timestamp.
    pub first_seen: u64,
    /// Last seen timestamp.
    pub last_seen: u64,
    /// Total packet count.
    pub packet_count: u64,
    /// Total byte count.
    pub byte_count: u64,
    /// Devices seen on this VLAN (reserved, not yet counted).
    pub device_count: u64,
}

/// The VLAN statistics entry after one more observation.
pub open spec fn spec_vlan_updated(s: VlanStats, bytes: u64, now: u64) -> VlanStats {
    VlanStats {
        vlan_id: s.vlan_id,
        outer_vlan_id: s.outer_vlan_id,
        first_seen: s.first_seen,
        last_seen: now,
        packet_count: sat_add64(s.packet_count, 1),
        byte_count: sat_add64(s.byte_count, bytes),
        device_count: s.device_count,
    }
}

/// Result of processing one frame record: the keys that were seen for the
/// first time.
#[derive(Debug)]
pub struct ProcessResult {
    pub new_devices: Vec<MacAddr>,
    pub new_flows: Vec<FlowKey>,
}

/// State statistics snapshot.
#[derive(Clone, Debug)]
pub struct StateStats {
    pub total_packets: u64,
    pub total_bytes: u64,
    pub total_devices: usize,
    pub total_flows: usize,
    pub total_protocols: usize,
    pub total_vlans: usize,
    pub uptime_seconds: u64,
}

/// Whether the device table has an entry for a MAC address.
pub open spec fn has_dev(devs: Seq<DeviceState>, mac: Seq<u8>) -> bool {
    exists|i: int| 0 <= i < devs.len() && devs[i].mac@ == mac
}

/// How the device table changes under one observation of a MAC address:
/// its entry is updated, or a fresh entry is appended.
pub open spec fn devices_stepped(pre: Seq<DeviceState>, post: Seq<DeviceState>, mac: Seq<u8>,
    ip: Option<crate::frame::Ipv4Address>, vlan_id: Option<u16>, bytes: u64, is_source: bool,
    now: u64) -> bool {
    if has_dev(pre, mac) {
        &&& post.len() == pre.len()
        &&& exists|i: int| 0 <= i < pre.len() && pre[i].mac@ == mac
            && device_updated(#[trigger] pre[i], post[i], ip, vlan_id, bytes, is_source, now)
            && (forall|j: int| 0 <= j < pre.len() && j != i ==> post[j] == pre[j])
    } else {
        &&& post.len() == pre.len() + 1
        &&& forall|j: int| 0 <= j < pre.len() ==> post[j] == pre[j]
        &&& device_new_from(post[pre.len() as int], mac, ip, vlan_id, bytes, is_source, now)
    }
}

/// Whether the flow table has an entry for a key.
pub open spec fn has_flow(flows: Seq<FlowState>, k: FlowKeyV) -> bool {
    exists|i: int| 0 <= i < flows.len() && flows[i].key@ == k
}

/// How the flow table changes under one packet of a flow key.
pub open spec fn flows_stepped(pre: Seq<FlowState>, post: Seq<FlowState>, k: FlowKeyV, bytes: u64,
    tcp_flags: Option<u8>, now: u64) -> bool {
    if has_flow(pre, k) {
        &&& post.len() == pre.len()
        &&& exists|i: int| 0 <= i < pre.len() && pre[i].key@ == k
            && flow_updated(#[trigger] pre[i], post[i], bytes, tcp_flags, now)
            && (forall|j: int| 0 <= j < pre.len() && j != i ==> post[j] == pre[j])
    } else {
        &&& post.len() == pre.len() + 1
        &&& forall|j: int| 0 <= j < pre.len() ==> post[j] == pre[j]
        &&& flow_new_from(post[pre.len() as int], k, bytes, tcp_flags, now)
    }
}

/// Whether the protocol table has an entry for an (EtherType, IP protocol)
/// pair.
pub open spec fn has_proto(ps: Seq<ProtocolStats>, ethertype: u16, ip_protocol: Option<u8>)
    -> bool {
    exists|i: int| 0 <= i < ps.len() && ps[i].ethertype == ethertype
        && ps[i].ip_protocol == ip_protocol
}

/// How the protocol table changes under one observation.
pub open spec fn protos_stepped(pre: Seq<ProtocolStats>, post: Seq<ProtocolStats>, ethertype: u16,
    ip_protocol: Option<u8>, bytes: u64, now: u64) -> bool {
    if has_proto(pre, ethertype, ip_protocol) {
        &&& post.len() == pre.len()
        &&& exists|i: int| 0 <= i < pre.len() && pre[i].ethertype == ethertype
            && pre[i].ip_protocol == ip_protocol
            && post[i] == spec_protocol_updated(#[trigger] pre[i], bytes, now)
            && (forall|j: int| 0 <= j < pre.len() && j != i ==> post[j] == pre[j])
    } else {
        &&& post.len() == pre.len() + 1
        &&& forall|j: int| 0 <= j < pre.len() ==> post[j] == pre[j]
        &&& post[pre.len() as int] == (ProtocolStats {
            ethertype,
            ip_protocol,
            first_seen: now,
            last_seen: now,
            packet_count: 1u64,
            byte_count: bytes,
        })
    }
}

/// Whether the VLAN table has an entry for a VLAN id.
pub open spec fn has_vlan(vs: Seq<VlanStats>, vlan_id: u16) -> bool {
    exists|i: int| 0 <= i < vs.len() && vs[i].vlan_id == vlan_id
}

/// How the VLAN table changes under one observation of a VLAN id. The outer
/// id is recorded at creation and kept afterwards.
pub open spec fn vlan_table_stepped(pre: Seq<VlanStats>, post: Seq<VlanStats>, vlan_id: u16,
    outer_vlan_id: Option<u16>, bytes: u64, now: u64) -> bool {
    if has_vlan(pre, vlan_id) {
        &&& post.len() == pre.len()
        &&& exists|i: int| 0 <= i < pre.len() && pre[i].vlan_id == vlan_id
            && post[i] == spec_vlan_updated(#[trigger] pre[i], bytes, now)
            && (forall|j: int| 0 <= j < pre.len() && j != i ==> post[j] == pre[j])
    } else {
        &&& post.len() == pre.len() + 1
        &&& forall|j: int| 0 <= j < pre.len() ==> post[j] == pre[j]
        &&& post[pre.len() as int] == (VlanStats {
            vlan_id,
            outer_vlan_id,
            first_seen: now,
            last_seen: now,
            packet_count: 1u64,
            byte_count: bytes,
            device_count: 0u64,
        })
    }
}

/// A device table step changes membership by at most the stepped MAC: a MAC
/// has an entry afterwards exactly when it had one before or is the one
/// observed.
pub proof fn lemma_devices_stepped_has(pre: Seq<DeviceState>, post: Seq<DeviceState>,
    mac: Seq<u8>, ip: Option<crate::frame::Ipv4Address>, vlan_id: Option<u16>, bytes: u64,
    is_source: bool, now: u64)
    requires
        devices_stepped(pre, post, mac, ip, vlan_id, bytes, is_source, now),
    ensures
        forall|x: Seq<u8>| #[trigger] has_dev(post, x) <==> (has_dev(pre, x) || x == mac),
{
    if has_dev(pre, mac) {
        let i = choose|i: int| 0 <= i < pre.len() && pre[i].mac@ == mac
            && device_updated(#[trigger] pre[i], post[i], ip, vlan_id, bytes, is_source, now)
            && (forall|j: int| 0 <= j < pre.len() && j != i ==> post[j] == pre[j]);
        assert forall|x: Seq<u8>| #[trigger] has_dev(post, x) implies (has_dev(pre, x)
            || x == mac) by {
            let k = choose|k: int| 0 <= k < post.len() && post[k].mac@ == x;
            if k == i {
                assert(pre[k].mac@ == mac);
                assert(post[k].mac@ == pre[k].mac@);
            } else {
                assert(post[k] == pre[k]);
            }
            assert(0 <= k < pre.len() && pre[k].mac@ == x);
        }
        assert forall|x: Seq<u8>| has_dev(pre, x) || x == mac implies #[trigger] has_dev(post,
            x) by {
            if has_dev(pre, x) {
                let k = choose|k: int| 0 <= k < pre.len() && pre[k].mac@ == x;
                if k == i {
                    assert(post[k].mac@ == pre[k].mac@);
                } else {
                    assert(post[k] == pre[k]);
                }
                assert(0 <= k < post.len() && post[k].mac@ == x);
            } else {
                assert(post[i].mac@ == pre[i].mac@);
                assert(0 <= i < post.len() && post[i].mac@ == x);
            }
        }
    } else {
        assert forall|x: Seq<u8>| #[trigger] has_dev(post, x) implies (has_dev(pre, x)
            || x == mac) by {
            let k = choose|k: int| 0 <= k < post.len() && post[k].mac@ == x;
            if k == pre.len() as int {
                assert(post[k].mac@ == mac);
            } else {
                assert(post[k] == pre[k]);
                assert(0 <= k < pre.len() && pre[k].mac@ == x);
            }
        }
        assert forall|x: Seq<u8>| has_dev(pre, x) || x == mac implies #[trigger] has_dev(post,
            x) by {
            if has_dev(pre, x) {
                let k = choose|k: int| 0 <= k < pre.len() && pre[k].mac@ == x;
                assert(post[k] == pre[k]);
                assert(0 <= k < post.len() && post[k].mac@ == x);
            } else {
                assert(post[pre.len() as int].mac@ == mac);
            }
        }
    }
}

/// The flow key of a record: the full 8-element tuple, with the effective
/// VLAN id.
pub open spec fn frame_key_view(f: &CapturedFrame) -> FlowKeyV {
    (f.src_mac@, f.dst_mac@, f.src_ip, f.dst_ip, f.src_port, f.dst_port, spec_vlan_id(f),
        f.ip_protocol)
}

/// The TCP flag byte of a record, if present.
pub open spec fn frame_flag_byte(f: &CapturedFrame) -> Option<u8> {
    if f.tcp_flags is Some {
        Some(byte_of_flags(f.tcp_flags->0))
    } else {
        None
    }
}

/// Global aggregator state: four key-to-counter tables and global counters.
pub struct AggregatorState {
    /// Device states, distinct by MAC address.
    pub devices: Vec<DeviceState>,
    /// Flow states, distinct by flow tuple.
    pub flows: Vec<FlowState>,
    /// Protocol statistics, distinct by (EtherType, IP protocol).
    pub protocols: Vec<ProtocolStats>,
    /// VLAN statistics, distinct by VLAN id.
    pub vlans: Vec<VlanStats>,
    /// Total frames processed.
    pub total_packets: u64,
    /// Total bytes processed.
    pub total_bytes: u64,
    /// Devices ever inserted.
    pub total_devices: u64,
    /// Flows ever inserted.
    pub total_flows: u64,
    /// Start time, microseconds since the Unix epoch.
    pub start_time: i64,
}

/// What one processed record does to the whole state: global counters grow
/// by one frame, the source device (and a unicast destination device), the
/// flow, the protocol entry and the VLAN entry are each updated or created,
/// and the result lists exactly the newly created device and flow keys.
pub open spec fn process_stepped(pre: AggregatorState, post: AggregatorState, f: &CapturedFrame,
    r: ProcessResult, now: u64) -> bool {
    let src = f.src_mac@;
    let dst = f.dst_mac@;
    let bytes = f.frame_size as u64;
    let vid = spec_vlan_id(f);
    let kv = frame_key_view(f);
    let dst_unicast = dst[0] & 0x01 == 0;
    let src_new = !has_dev(pre.devices@, src);
    let dst_new = dst_unicast && !has_dev(pre.devices@, dst) && dst != src;
    let flow_new = !has_flow(pre.flows@, kv);
    &&& post.total_packets == sat_add64(pre.total_packets, 1)
    &&& post.total_bytes == sat_add64(pre.total_bytes, bytes)
    &&& exists|mid: Seq<DeviceState>| {
        &&& devices_stepped(pre.devices@, mid, src, f.src_ip, vid, bytes, true, now)
        &&& if dst_unicast {
            devices_stepped(mid, post.devices@, dst, f.dst_ip, vid, bytes, false, now)
        } else {
            post.devices@ == mid
        }
    }
    &&& flows_stepped(pre.flows@, post.flows@, kv, bytes, frame_flag_byte(f), now)
    &&& protos_stepped(pre.protocols@, post.protocols@, f.ethertype, f.ip_protocol, bytes, now)
    &&& match vid {
        Some(v) => vlan_table_stepped(pre.vlans@, post.vlans@, v, (if f.qinq is Some {
            Some(f.qinq->0.outer_vlan.id)
        } else {
            None
        }), bytes, now),
        None => post.vlans@ == pre.vlans@,
    }
    &&& post.total_devices == sat_add64(sat_add64(pre.total_devices, if src_new { 1u64 } else {
        0u64
    }), if dst_new { 1u64 } else { 0u64 })
    &&& post.total_flows == sat_add64(pre.total_flows, if flow_new { 1u64 } else { 0u64 })
    &&& post.start_time == pre.start_time
    &&& if src_new && dst_new {
        r.new_devices@.len() == 2 && r.new_devices@[0]@ == src && r.new_devices@[1]@ == dst
    } else if src_new {
        r.new_devices@.len() == 1 && r.new_devices@[0]@ == src
    } else if dst_new {
        r.new_devices@.len() == 1 && r.new_devices@[0]@ == dst
    } else {
        r.new_devices@.len() == 0
    }
    &&& if flow_new {
        r.new_flows@.len() == 1 && r.new_flows@[0]@ == kv
    } else {
        r.new_flows@.len() == 0
    }
}

impl AggregatorState {
    /// Every key appears at most once in its table, each device entry is
    /// internally consistent, and every entry has counted at least one
    /// packet.
    pub open spec fn wf(&self) -> bool {
        &&& forall|i: int, j: int| 0 <= i < j < self.devices@.len()
            ==> self.devices@[i].mac@ != self.devices@[j].mac@
        &&& forall|i: int| 0 <= i < self.devices@.len() ==> device_wf(#[trigger] self.devices@[i])
        &&& forall|i: int| 0 <= i < self.devices@.len()
            ==> (#[trigger] self.devices@[i]).packets_sent + self.devices@[i].packets_received
                >= 1
        &&& forall|i: int, j: int| 0 <= i < j < self.flows@.len()
            ==> self.flows@[i].key@ != self.flows@[j].key@
        &&& forall|i: int| 0 <= i < self.flows@.len()
            ==> (#[trigger] self.flows@[i]).packet_count >= 1
        &&& forall|i: int, j: int| 0 <= i < j < self.protocols@.len()
            ==> !(self.protocols@[i].ethertype == self.protocols@[j].ethertype
                && self.protocols@[i].ip_protocol == self.protocols@[j].ip_protocol)
        &&& forall|i: int| 0 <= i < self.protocols@.len()
            ==> (#[trigger] self.protocols@[i]).packet_count >= 1
        &&& forall|i: int, j: int| 0 <= i < j < self.vlans@.len()
            ==> self.vlans@[i].vlan_id != self.vlans@[j].vlan_id
        &&& forall|i: int| 0 <= i < self.vlans@.len()
            ==> (#[trigger] self.vlans@[i]).packet_count >= 1
    }

    /// Create a new, empty aggregator state.
    pub fn new() -> (r: Self)
        ensures
            r.devices@.len() == 0 && r.flows@.len() == 0 && r.protocols@.len() == 0
                && r.vlans@.len() == 0,
            r.total_packets == 0 && r.total_bytes == 0,
            r.total_devices == 0 && r.total_flows == 0,
            r.wf(),
    {
        Self {
            devices: Vec::new(),
            flows: Vec::new(),
            protocols: Vec::new(),
            vlans: Vec::new(),
            total_packets: 0,
            total_bytes: 0,
            total_devices: 0,
            total_flows: 0,
            start_time: clock::now_micros(),
        }
    }

    /// Update or create the device entry for a MAC address. Returns whether
    /// the entry is new.
    fn update_device(&mut self, mac: MacAddr, ip: Option<crate::frame::Ipv4Address>,
        vlan_id: Option<u16>, bytes: u64, is_source: bool, now: u64) -> (is_new: bool)
        requires
            old(self).wf(),
        ensures
            final(self).wf(),
            is_new == !has_dev(old(self).devices@, mac@),
            devices_stepped(old(self).devices@, final(self).devices@, mac@, ip, vlan_id, bytes,
                is_source, now),
            final(self).total_devices == sat_add64(old(self).total_devices, if is_new { 1u64 }
                else { 0u64 }),
            final(self).flows == old(self).flows,
            final(self).protocols == old(self).protocols,
            final(self).vlans == old(self).vlans,
            final(self).total_packets == old(self).total_packets,
            final(self).total_bytes == old(self).total_bytes,
            final(self).total_flows == old(self).total_flows,
            final(self).start_time == old(self).start_time,
    {
        let mut idx: usize = 0;
        let mut found = false;
        while idx < self.devices.len() && !found
            invariant
                idx <= self.devices@.len(),
                found ==> idx < self.devices@.len() && self.devices@[idx as int].mac@ == mac@,
                !found ==> forall|j: int| 0 <= j < idx ==> self.devices@[j].mac@ != mac@,
                self == old(self),
            decreases self.devices@.len() - idx + (if found { 0int } else { 1int }),
        {
            if self.devices[idx].mac.same_as(&mac) {
                found = true;
            } else {
                idx = idx + 1;
            }
        }

        if found {
            assert(has_dev(self.devices@, mac@));
            let mut d = self.devices.remove(idx);
            d.update(ip, vlan_id, bytes, is_source, now);
            self.devices.insert(idx, d);
            proof {
                assert(self.devices@ =~= old(self).devices@.update(idx as int, d));
            }
            self.total_devices = sat_add(self.total_devices, 0);
            false
        } else {
            assert(!has_dev(self.devices@, mac@));
            let mut d = DeviceState::new(mac, now);
            proof {
                assert(d.ips@ =~= Seq::<crate::device::IpState>::empty());
                assert(d.vlans@ =~= Seq::<u16>::empty());
            }
            d.update(ip, vlan_id, bytes, is_source, now);
            self.devices.push(d);
            self.total_devices = sat_add(self.total_devices, 1);
            assert(device_new_from(self.devices@[old(self).devices@.len() as int], mac@, ip,
                vlan_id, bytes, is_source, now));
            true
        }
    }

    /// Update or create the flow entry for a key. Returns whether the entry
    /// is new.
    fn update_flow(&mut self, key: FlowKey, bytes: u64, tcp_flags: Option<u8>, now: u64)
        -> (is_new: bool)
        requires
            old(self).wf(),
        ensures
            final(self).wf(),
            is_new == !has_flow(old(self).flows@, key@),
            flows_stepped(old(self).flows@, final(self).flows@, key@, bytes, tcp_flags, now),
            final(self).total_flows == sat_add64(old(self).total_flows, if is_new { 1u64 } else {
                0u64
            }),
            final(self).devices == old(self).devices,
            final(self).protocols == old(self).protocols,
            final(self).vlans == old(self).vlans,
            final(self).total_packets == old(self).total_packets,
            final(self).total_bytes == old(self).total_bytes,
            final(self).total_devices == old(self).total_devices,
            final(self).start_time == old(self).start_time,
    {
        let mut idx: usize = 0;
        let mut found = false;
        while idx < self.flows.len() && !found
            invariant
                idx <= self.flows@.len(),
                found ==> idx < self.flows@.len() && self.flows@[idx as int].key@ == key@,
                !found ==> forall|j: int| 0 <= j < idx ==> self.flows@[j].key@ != key@,
                self == old(self),
            decreases self.flows@.len() - idx + (if found { 0int } else { 1int }),
        {
            if self.flows[idx].key.same_as(&key) {
                found = true;
            } else {
                idx = idx + 1;
            }
        }

        if found {
            assert(has_flow(self.flows@, key@));
            let mut f = self.flows[idx];
            f.update(bytes, tcp_flags, now);
            self.flows.set(idx, f);
            proof {
                assert(self.flows@ =~= old(self).flows@.update(idx as int, f));
            }
            self.total_flows = sat_add(self.total_flows, 0);
            false
        } else {
            assert(!has_flow(self.flows@, key@));
            let mut f = FlowState::new(key, now);
            f.update(bytes, tcp_flags, now);
            self.flows.push(f);
            self.total_flows = sat_add(self.total_flows, 1);
            assert(flow_new_from(self.flows@[old(self).flows@.len() as int], key@, bytes,
                tcp_flags, now));
            true
        }
    }

    /// Update or create the protocol statistics entry.
    fn update_protocol(&mut self, ethertype: u16, ip_protocol: Option<u8>, bytes: u64, now: u64)
        requires
            old(self).wf(),
        ensures
            final(self).wf(),
            protos_stepped(old(self).protocols@, final(self).protocols@, ethertype, ip_protocol,
                bytes, now),
            final(self).devices == old(self).devices,
            final(self).flows == old(self).flows,
            final(self).vlans == old(self).vlans,
            final(self).total_packets == old(self).total_packets,
            final(self).total_bytes == old(self).total_bytes,
            final(self).total_devices == old(self).total_devices,
            final(self).total_flows == old(self).total_flows,
            final(self).start_time == old(self).start_time,
    {
        let mut idx: usize = 0;
        let mut found = false;
        while idx < self.protocols.len() && !found
            invariant
                idx <= self.protocols@.len(),
                found ==> idx < self.protocols@.len()
                    && self.protocols@[idx as int].ethertype == ethertype
                    && self.protocols@[idx as int].ip_protocol == ip_protocol,
                !found ==> forall|j: int| 0 <= j < idx
                    ==> !(self.protocols@[j].ethertype == ethertype
                        && self.protocols@[j].ip_protocol == ip_protocol),
                self == old(self),
            decreases self.protocols@.len() - idx + (if found { 0int } else { 1int }),
        {
            if self.protocols[idx].ethertype == ethertype
                && crate::flow::opt_u8_eq(&self.protocols[idx].ip_protocol, &ip_protocol) {
                found = true;
            } else {
                idx = idx + 1;
            }
        }

        if found {
            assert(has_proto(self.protocols@, ethertype, ip_protocol));
            let mut p = self.protocols[idx];
            p.update(bytes, now);
            self.protocols.set(idx, p);
            proof {
                assert(self.protocols@ =~= old(self).protocols@.update(idx as int, p));
            }
        } else {
            assert(!has_proto(self.protocols@, ethertype, ip_protocol));
            let mut p = ProtocolStats::new(ethertype, ip_protocol, now);
            p.update(bytes, now);
            self.protocols.push(p);
        }
    }

    /// Update or create the VLAN statistics entry.
    fn update_vlan(&mut self, vlan_id: u16, outer_vlan_id: Option<u16>, bytes: u64, now: u64)
        requires
            old(self).wf(),
        ensures
            final(self).wf(),
            vlan_table_stepped(old(self).vlans@, final(self).vlans@, vlan_id, outer_vlan_id,
                bytes, now),
            final(self).devices == old(self).devices,
            final(self).flows == old(self).flows,
            final(self).protocols == old(self).protocols,
            final(self).total_packets == old(self).total_packets,
            final(self).total_bytes == old(self).total_bytes,
            final(self).total_devices == old(self).total_devices,
            final(self).total_flows == old(self).total_flows,
            final(self).start_time == old(self).start_time,
    {
        let mut idx: usize = 0;
        let mut found = false;
        while idx < self.vlans.len() && !found
            invariant
                idx <= self.vlans@.len(),
                found ==> idx < self.vlans@.len() && self.vlans@[idx as int].vlan_id == vlan_id,
                !found ==> forall|j: int| 0 <= j < idx ==> self.vlans@[j].vlan_id != vlan_id,
                self == old(self),
            decreases self.vlans@.len() - idx + (if found { 0int } else { 1int }),
        {
            if self.vlans[idx].vlan_id == vlan_id {
                found = true;
            } else {
                idx = idx + 1;
            }
        }

        if found {
            assert(has_vlan(self.vlans@, vlan_id));
            let v = self.vlans[idx];
            let updated = VlanStats {
                vlan_id: v.vlan_id,
                outer_vlan_id: v.outer_vlan_id,
                first_seen: v.first_seen,
                last_seen: now,
                packet_count: sat_add(v.packet_count, 1),
                byte_count: sat_add(v.byte_count, bytes),
                device_count: v.device_count,
            };
            self.vlans.set(idx, updated);
            proof {
                assert(self.vlans@ =~= old(self).vlans@.update(idx as int, updated));
            }
        } else {
            assert(!has_vlan(self.vlans@, vlan_id));
            self.vlans.push(VlanStats {
                vlan_id,
                outer_vlan_id,
                first_seen: now,
                last_seen: now,
                packet_count: 1,
                byte_count: bytes,
                device_count: 0,
            });
        }
    }

    /// Process a captured frame record at the given time (Unix seconds):
    /// the hot path of the aggregation engine.
    pub fn process_frame_at(&mut self, frame: &CapturedFrame, now: u64) -> (r: ProcessResult)
        requires
            old(self).wf(),
        ensures
            final(self).wf(),
            process_stepped(*old(self), *final(self), frame, r, now),
    {
        let mut result = ProcessResult { new_devices: Vec::new(), new_flows: Vec::new() };

        self.total_packets = sat_add(self.total_packets, 1);
        self.total_bytes = sat_add(self.total_bytes, frame.frame_size as u64);

        let src_mac = frame.src_mac;
        let dst_mac = frame.dst_mac;
        let bytes = frame.frame_size as u64;
        let vid = frame.vlan_id();

        let src_is_new = self.update_device(src_mac, frame.src_ip, vid, bytes, true, now);
        if src_is_new {
            result.new_devices.push(src_mac);
        }

        let ghost mid = self.devices@;

        let dst_unicast = !dst_mac.is_multicast();
        let mut dst_is_new = false;
        if dst_unicast {
            dst_is_new = self.update_device(dst_mac, frame.dst_ip, vid, bytes, false, now);
            if dst_is_new {
                result.new_devices.push(dst_mac);
            }
        }
        proof {
            let b: u8 = frame.dst_mac@[0];
            assert(b & 0x01 == 0 || b & 0x01 == 0x01) by (bit_vector);
            if dst_unicast {
                lemma_devices_stepped_has(old(self).devices@, mid, src_mac@, frame.src_ip,
                    spec_vlan_id(frame), bytes, true, now);
                assert(has_dev(mid, dst_mac@) <==> (has_dev(old(self).devices@, dst_mac@)
                    || dst_mac@ == src_mac@));
            }
        }

        let flow_key = FlowKey {
            src_mac,
            dst_mac,
            src_ip: frame.src_ip,
            dst_ip: frame.dst_ip,
            src_port: frame.src_port,
            dst_port: frame.dst_port,
            vlan_id: vid,
            protocol: frame.ip_protocol,
        };
        assert(flow_key@ == frame_key_view(frame));

        let flow_is_new = self.update_flow(flow_key, bytes, frame.tcp_flags_byte(), now);
        if flow_is_new {
            result.new_flows.push(flow_key);
        }

        self.update_protocol(frame.ethertype, frame.ip_protocol, bytes, now);

        if let Some(vlan_id) = frame.vlan_id() {
            self.update_vlan(vlan_id, frame.outer_vlan_id(), bytes, now);
        }

        proof {
            assert(devices_stepped(old(self).devices@, mid, src_mac@, frame.src_ip,
                spec_vlan_id(frame), bytes, true, now));
            if dst_unicast {
                assert(devices_stepped(mid, self.devices@, dst_mac@, frame.dst_ip,
                    spec_vlan_id(frame), bytes, false, now));
            } else {
                assert(self.devices@ == mid);
            }
        }

        result
    }

    /// Process a captured frame record, stamping entries with the current
    /// wall-clock time.
    pub fn process_frame(&mut self, frame: &CapturedFrame) -> (r: ProcessResult)
        requires
            old(self).wf(),
        ensures
            final(self).wf(),
            exists|now: u64| process_stepped(*old(self), *final(self), frame, r, now),
    {
        let now_us = clock::now_micros();
        let now: u64 = if now_us > 0 {
            (now_us / 1_000_000) as u64
        } else {
            0
        };
        self.process_frame_at(frame, now)
    }

    /// Get a statistics snapshot: the counter values at some moment. The
    /// uptime is measured against the wall clock, zero if the clock
    /// regressed.
    pub fn stats_snapshot(&self) -> (r: StateStats)
        ensures
            r.total_packets == self.total_packets,
            r.total_bytes == self.total_bytes,
            r.total_devices == self.devices@.len(),
            r.total_flows == self.flows@.len(),
            r.total_protocols == self.protocols@.len(),
            r.total_vlans == self.vlans@.len(),
    {
        let now_us = clock::now_micros();
        let uptime_seconds: u64 = if now_us > self.start_time {
            let diff: i128 = now_us as i128 - self.start_time as i128;
            let q: i128 = diff / 1_000_000;
            if q > u64::MAX as i128 {
                u64::MAX
            } else {
                q as u64
            }
        } else {
            0
        };
        StateStats {
            total_packets: self.total_packets,
            total_bytes: self.total_bytes,
            total_devices: self.devices.len(),
            total_flows: self.flows.len(),
            total_protocols: self.protocols.len(),
            total_vlans: self.vlans.len(),
            uptime_seconds,
        }
    }
}

/// A flow table step never shrinks any entry: packet and byte counters do
/// not decrease, and the flag accumulator keeps every bit it had. Together
/// with the creation case of `flows_stepped` (a fresh entry starts with
/// `packet_count == 1` and `byte_count` equal to the first frame's size),
/// this pins each entry's counters at or above their first-observation
/// values for the rest of the run.
pub proof fn lemma_flow_step_monotone(pre: Seq<FlowState>, post: Seq<FlowState>, k: FlowKeyV,
    bytes: u64, tcp_flags: Option<u8>, now: u64)
    requires
        flows_stepped(pre, post, k, bytes, tcp_flags, now),
    ensures
        post.len() >= pre.len(),
        forall|i: int| 0 <= i < pre.len() ==> (#[trigger] post[i]).key@ == pre[i].key@,
        forall|i: int| 0 <= i < pre.len() ==> (#[trigger] post[i]).packet_count
            >= pre[i].packet_count,
        forall|i: int| 0 <= i < pre.len() ==> (#[trigger] post[i]).byte_count
            >= pre[i].byte_count,
        forall|i: int| 0 <= i < pre.len() ==> (#[trigger] post[i]).tcp_flags_seen
            & pre[i].tcp_flags_seen == pre[i].tcp_flags_seen,
{
    if has_flow(pre, k) {
        let i = choose|i: int| 0 <= i < pre.len() && pre[i].key@ == k
            && flow_updated(#[trigger] pre[i], post[i], bytes, tcp_flags, now)
            && (forall|j: int| 0 <= j < pre.len() && j != i ==> post[j] == pre[j]);
        assert forall|j: int| 0 <= j < pre.len() implies (#[trigger] post[j]).tcp_flags_seen
            & pre[j].tcp_flags_seen == pre[j].tcp_flags_seen by {
            if j == i {
                crate::flow::lemma_tcp_flags_monotone(pre[i].tcp_flags_seen, match tcp_flags {
                    Some(f) => f,
                    None => 0u8,
                });
                let a = pre[i].tcp_flags_seen;
                assert(a | 0u8 == a) by (bit_vector);
            } else {
                let a = pre[j].tcp_flags_seen;
                assert(a & a == a) by (bit_vector);
            }
        }
        assert forall|j: int| 0 <= j < pre.len() implies (#[trigger] post[j]).packet_count
            >= pre[j].packet_count && post[j].byte_count >= pre[j].byte_count by {
            if j != i {
                assert(post[j] == pre[j]);
            }
        }
    } else {
        assert forall|j: int| 0 <= j < pre.len() implies (#[trigger] post[j]).tcp_flags_seen
            & pre[j].tcp_flags_seen == pre[j].tcp_flags_seen by {
            let a = pre[j].tcp_flags_seen;
            assert(a & a == a) by (bit_vector);
        }
    }
}

/// A device table step never shrinks any entry: the keys stay in place and
/// every counter stays or grows. Together with the creation case of
/// `devices_stepped`, this pins each device's counters at or above their
/// first-observation values for the rest of the run.
pub proof fn lemma_device_step_monotone(pre: Seq<DeviceState>, post: Seq<DeviceState>,
    mac: Seq<u8>, ip: Option<crate::frame::Ipv4Address>, vlan_id: Option<u16>, bytes: u64,
    is_source: bool, now: u64)
    requires
        devices_stepped(pre, post, mac, ip, vlan_id, bytes, is_source, now),
    ensures
        post.len() >= pre.len(),
        forall|i: int| 0 <= i < pre.len() ==> (#[trigger] post[i]).mac@ == pre[i].mac@,
        forall|i: int| 0 <= i < pre.len() ==> (#[trigger] post[i]).packets_sent
            >= pre[i].packets_sent,
        forall|i: int| 0 <= i < pre.len() ==> (#[trigger] post[i]).packets_received
            >= pre[i].packets_received,
        forall|i: int| 0 <= i < pre.len() ==> (#[trigger] post[i]).bytes_sent
            >= pre[i].bytes_sent,
        forall|i: int| 0 <= i < pre.len() ==> (#[trigger] post[i]).bytes_received
            >= pre[i].bytes_received,
{
    if has_dev(pre, mac) {
        let i = choose|i: int| 0 <= i < pre.len() && pre[i].mac@ == mac
            && device_updated(#[trigger] pre[i], post[i], ip, vlan_id, bytes, is_source, now)
            && (forall|j: int| 0 <= j < pre.len() && j != i ==> post[j] == pre[j]);
        assert forall|j: int| 0 <= j < pre.len() implies (#[trigger] post[j]).mac@
            == pre[j].mac@ && post[j].packets_sent >= pre[j].packets_sent
            && post[j].packets_received >= pre[j].packets_received
            && post[j].bytes_sent >= pre[j].bytes_sent
            && post[j].bytes_received >= pre[j].bytes_received by {
            if j != i {
                assert(post[j] == pre[j]);
            }
        }
    }
}

/// One processed record never shrinks any existing flow entry: every key
/// stays in place, the packet and byte counters stay or grow, and the flag
/// accumulator keeps every bit it had.
pub proof fn lemma_process_flows_monotone(pre: AggregatorState, post: AggregatorState,
    f: &CapturedFrame, r: ProcessResult, now: u64)
    requires
        process_stepped(pre, post, f, r, now),
    ensures
        post.flows@.len() >= pre.flows@.len(),
        forall|i: int| 0 <= i < pre.flows@.len() ==> (#[trigger] post.flows@[i]).key@
            == pre.flows@[i].key@,
        forall|i: int| 0 <= i < pre.flows@.len() ==> (#[trigger] post.flows@[i]).packet_count
            >= pre.flows@[i].packet_count,
        forall|i: int| 0 <= i < pre.flows@.len() ==> (#[trigger] post.flows@[i]).byte_count
            >= pre.flows@[i].byte_count,
        forall|i: int| 0 <= i < pre.flows@.len() ==> (#[trigger] post.flows@[i]).tcp_flags_seen
            & pre.flows@[i].tcp_flags_seen == pre.flows@[i].tcp_flags_seen,
{
    lemma_flow_step_monotone(pre.flows@, post.flows@, frame_key_view(f), f.frame_size as u64,
        frame_flag_byte(f), now);
}

/// The sum of a sequence of byte counts, as a mathematical integer.
pub open spec fn sum_of(sizes: Seq<u64>) -> int
    decreases sizes.len(),
{
    if sizes.len() == 0 {
        0
    } else {
        sum_of(sizes.drop_last()) + sizes.last()
    }
}

/// A counter that starts at `start` and saturating-adds each element.
pub open spec fn totals_after(start: u64, sizes: Seq<u64>) -> u64
    decreases sizes.len(),
{
    if sizes.len() == 0 {
        start
    } else {
        sat_add64(totals_after(start, sizes.drop_last()), sizes.last())
    }
}

proof fn lemma_sum_of_nonneg(sizes: Seq<u64>)
    ensures
        sum_of(sizes) >= 0,
    decreases sizes.len(),
{
    if sizes.len() > 0 {
        lemma_sum_of_nonneg(sizes.drop_last());
    }
}

/// As long as the true sum fits in the counter, the saturating counter is
/// exactly the sum.
pub proof fn lemma_totals_exact(start: u64, sizes: Seq<u64>)
    requires
        start + sum_of(sizes) <= u64::MAX,
    ensures
        totals_after(start, sizes) == start + sum_of(sizes),
    decreases sizes.len(),
{
    if sizes.len() > 0 {
        lemma_sum_of_nonneg(sizes.drop_last());
        lemma_totals_exact(start, sizes.drop_last());
    }
}

/// After a run of processed records, the global counters are exactly the
/// accumulation of the run: `total_packets` has grown by one per record and
/// `total_bytes` by each record's frame size (saturating, hence exactly the
/// sums while they fit, by `lemma_totals_exact`).
pub proof fn lemma_totals_accumulate(states: Seq<AggregatorState>, frames: Seq<CapturedFrame>,
    results: Seq<ProcessResult>, nows: Seq<u64>)
    requires
        states.len() == frames.len() + 1,
        results.len() == frames.len(),
        nows.len() == frames.len(),
        forall|i: int| 0 <= i < frames.len() ==> process_stepped(#[trigger] states[i],
            states[i + 1], &frames[i], results[i], nows[i]),
    ensures
        states.last().total_packets == totals_after(states[0].total_packets,
            Seq::new(frames.len(), |i: int| 1u64)),
        states.last().total_bytes == totals_after(states[0].total_bytes,
            Seq::new(frames.len(), |i: int| frames[i].frame_size as u64)),
    decreases frames.len(),
{
    let n = frames.len() as int;
    let ones = Seq::new(frames.len(), |i: int| 1u64);
    let sizes = Seq::new(frames.len(), |i: int| frames[i].frame_size as u64);
    if n == 0 {
        assert(states.last() == states[0]);
    } else {
        lemma_totals_accumulate(states.take(n), frames.take(n - 1), results.take(n - 1),
            nows.take(n - 1));
        assert(Seq::new(frames.take(n - 1).len(), |i: int| 1u64) =~= ones.drop_last());
        assert(Seq::new(frames.take(n - 1).len(), |i: int| frames.take(n - 1)[i].frame_size
            as u64) =~= sizes.drop_last());
        assert(process_stepped(states[n - 1], states[n], &frames[n - 1], results[n - 1],
            nows[n - 1]));
        assert(states.take(n).last() == states[n - 1]);
        assert(states.take(n)[0] == states[0]);
        assert(states.last() == states[n]);
    }
}

} // verus!
