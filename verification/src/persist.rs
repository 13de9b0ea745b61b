//! Persistence: snapshots of the aggregation tables are merged into a
//! relational store by upserts in a fixed foreign-key order. The store's
//! merge semantics (`ON CONFLICT ... DO UPDATE`) are captured here as
//! verified operations on a table model, so that the pass's effect — what
//! each row holds afterwards — is proved rather than assumed.

use vstd::prelude::*;

use crate::device::{DeviceSnapshot, device_snapshot_of};
use crate::flow::{FlowSnapshot, flow_snapshot_of};
use crate::frame::{Ipv4Address, MacAddr, mac_string_of};
use crate::ids;
use crate::state::AggregatorState;

verus! {

/// A row of the devices table.
#[derive(Clone, Debug, PartialEq)]
pub struct DbDeviceRow {
    pub id: u128,
    pub mac_address: String,
    pub oui_prefix: String,
    pub first_seen: u64,
    pub last_seen: u64,
    pub packets_sent: u64,
    pub packets_received: u64,
    pub bytes_sent: u64,
    pub bytes_received: u64,
    pub is_gateway: bool,
    pub is_flagged: bool,
}

/// A row of the device-IPs table, unique per (device, address, VLAN).
#[derive(Clone, Copy, Debug, PartialEq)]
pub struct DbDeviceIpRow {
    pub device_id: u128,
    pub ip_address: Ipv4Address,
    pub vlan_id: Option<u16>,
    pub first_seen: u64,
    pub last_seen: u64,
}

/// A row of the traffic-flows table, unique per full flow tuple.
#[derive(Clone, Debug, PartialEq)]
pub struct DbFlowRow {
    pub id: u128,
    pub src_device_id: Option<u128>,
    pub src_mac: String,
    pub src_ip: Option<Ipv4Address>,
    pub src_port: Option<u16>,
    pub dst_device_id: Option<u128>,
    pub dst_mac: String,
    pub dst_ip: Option<Ipv4Address>,
    pub dst_port: Option<u16>,
    pub vlan_id: Option<u16>,
    pub ip_protocol: Option<u8>,
    pub first_seen: u64,
    pub last_seen: u64,
    pub packet_count: u64,
    pub byte_count: u64,
    pub tcp_flags_seen: u8,
}

/// A row of the protocol-stats table, unique per (EtherType, IP protocol).
#[derive(Clone, Copy, Debug, PartialEq)]
pub struct DbProtocolRow {
    pub ethertype: u16,
    pub ip_protocol: Option<u8>,
    pub packet_count: u64,
    pub byte_count: u64,
    pub first_seen: u64,
    pub last_seen: u64,
}

/// A row of the time-series metrics table.
#[derive(Clone, Debug, PartialEq)]
pub struct DbMetricRow {
    pub time: u64,
    pub device_id: Option<u128>,
    pub flow_id: Option<u128>,
    pub metric_type: String,
    pub packet_count: u64,
    pub byte_count: u64,
}

/// A row of the VLANs table, unique per VLAN id.
#[derive(Clone, Copy, Debug, PartialEq)]
pub struct DbVlanRow {
    pub vlan_id: u16,
    pub outer_vlan_id: Option<u16>,
    pub first_seen: u64,
    pub last_seen: u64,
    pub total_packets: u64,
    pub total_bytes: u64,
}

/// The unique key of a flow row.
pub open spec fn db_flow_key(r: DbFlowRow) -> (Seq<char>, Seq<char>, Option<Ipv4Address>,
    Option<Ipv4Address>, Option<u16>, Option<u16>, Option<u16>, Option<u8>) {
    (r.src_mac@, r.dst_mac@, r.src_ip, r.dst_ip, r.src_port, r.dst_port, r.vlan_id,
        r.ip_protocol)
}

/// The flow-row key a snapshot maps to.
pub open spec fn snap_flow_key(s: FlowSnapshot) -> (Seq<char>, Seq<char>, Option<Ipv4Address>,
    Option<Ipv4Address>, Option<u16>, Option<u16>, Option<u16>, Option<u8>) {
    (s.src_mac@, s.dst_mac@, s.src_ip, s.dst_ip, s.src_port, s.dst_port, s.vlan_id,
        s.ip_protocol)
}

/// How an existing device row merges with a snapshot: identity, first-seen
/// and the classification flags are kept, the rest is overwritten.
pub open spec fn device_row_merged(pre: DbDeviceRow, post: DbDeviceRow, s: DeviceSnapshot)
    -> bool {
    &&& post.id == pre.id
    &&& post.mac_address == pre.mac_address
    &&& post.oui_prefix == pre.oui_prefix
    &&& post.first_seen == pre.first_seen
    &&& post.last_seen == s.last_seen
    &&& post.packets_sent == s.packets_sent
    &&& post.packets_received == s.packets_received
    &&& post.bytes_sent == s.bytes_sent
    &&& post.bytes_received == s.bytes_received
    &&& post.is_gateway == pre.is_gateway
    &&& post.is_flagged == pre.is_flagged
}

/// What a freshly inserted device row holds.
pub open spec fn device_row_new(post: DbDeviceRow, s: DeviceSnapshot, fresh_id: u128) -> bool {
    &&& post.id == fresh_id
    &&& post.mac_address@ == s.mac_address@
    &&& post.oui_prefix@ == s.oui_prefix@
    &&& post.first_seen == s.first_seen
    &&& post.last_seen == s.last_seen
    &&& post.packets_sent == s.packets_sent
    &&& post.packets_received == s.packets_received
    &&& post.bytes_sent == s.bytes_sent
    &&& post.bytes_received == s.bytes_received
    &&& !post.is_gateway
    &&& !post.is_flagged
}

/// How the devices table changes under one upsert, and which id comes back.
pub open spec fn device_upsert_stepped(pre: Seq<DbDeviceRow>, post: Seq<DbDeviceRow>,
    s: DeviceSnapshot, fresh_id: u128, returned: u128) -> bool {
    if exists|i: int| 0 <= i < pre.len() && pre[i].mac_address@ == s.mac_address@ {
        &&& post.len() == pre.len()
        &&& exists|i: int| 0 <= i < pre.len()
            && (#[trigger] pre[i]).mac_address@ == s.mac_address@
            && device_row_merged(pre[i], post[i], s) && returned == pre[i].id
            && (forall|j: int| 0 <= j < pre.len() && j != i ==> post[j] == pre[j])
    } else {
        &&& post.len() == pre.len() + 1
        &&& forall|j: int| 0 <= j < pre.len() ==> post[j] == pre[j]
        &&& device_row_new(post[pre.len() as int], s, fresh_id)
        &&& returned == fresh_id
    }
}

/// How an existing flow row merges with a snapshot: identity, first-seen
/// and the device links are kept; counters are overwritten and the flag
/// accumulator takes the bitwise OR.
pub open spec fn flow_row_merged(pre: DbFlowRow, post: DbFlowRow, s: FlowSnapshot) -> bool {
    &&& post.id == pre.id
    &&& post.src_mac == pre.src_mac
    &&& post.dst_mac == pre.dst_mac
    &&& post.src_ip == pre.src_ip
    &&& post.dst_ip == pre.dst_ip
    &&& post.src_port == pre.src_port
    &&& post.dst_port == pre.dst_port
    &&& post.vlan_id == pre.vlan_id
    &&& post.ip_protocol == pre.ip_protocol
    &&& post.src_device_id == pre.src_device_id
    &&& post.dst_device_id == pre.dst_device_id
    &&& post.first_seen == pre.first_seen
    &&& post.last_seen == s.last_seen
    &&& post.packet_count == s.packet_count
    &&& post.byte_count == s.byte_count
    &&& post.tcp_flags_seen == pre.tcp_flags_seen | s.tcp_flags_seen
}

/// What a freshly inserted flow row holds.
pub open spec fn flow_row_new(post: DbFlowRow, s: FlowSnapshot, src_device_id: Option<u128>,
    dst_device_id: Option<u128>, fresh_id: u128) -> bool {
    &&& post.id == fresh_id
    &&& db_flow_key(post) == snap_flow_key(s)
    &&& post.src_device_id == src_device_id
    &&& post.dst_device_id == dst_device_id
    &&& post.first_seen == s.first_seen
    &&& post.last_seen == s.last_seen
    &&& post.packet_count == s.packet_count
    &&& post.byte_count == s.byte_count
    &&& post.tcp_flags_seen == s.tcp_flags_seen
}

/// How the flows table changes under one upsert.
pub open spec fn flow_upsert_stepped(pre: Seq<DbFlowRow>, post: Seq<DbFlowRow>, s: FlowSnapshot,
    src_device_id: Option<u128>, dst_device_id: Option<u128>, fresh_id: u128) -> bool {
    if exists|i: int| 0 <= i < pre.len() && db_flow_key(#[trigger] pre[i]) == snap_flow_key(s) {
        &&& post.len() == pre.len()
        &&& exists|i: int| 0 <= i < pre.len()
            && db_flow_key(#[trigger] pre[i]) == snap_flow_key(s)
            && flow_row_merged(pre[i], post[i], s)
            && (forall|j: int| 0 <= j < pre.len() && j != i ==> post[j] == pre[j])
    } else {
        &&& post.len() == pre.len() + 1
        &&& forall|j: int| 0 <= j < pre.len() ==> post[j] == pre[j]
        &&& flow_row_new(post[pre.len() as int], s, src_device_id, dst_device_id, fresh_id)
    }
}

/// The relational store model: the five tables of the schema.
pub struct Database {
    pub devices: Vec<DbDeviceRow>,
    pub device_ips: Vec<DbDeviceIpRow>,
    pub flows: Vec<DbFlowRow>,
    pub protocol_stats: Vec<DbProtocolRow>,
    pub vlans: Vec<DbVlanRow>,
    pub traffic_metrics: Vec<DbMetricRow>,
}

impl Database {
    /// Each table's unique constraint holds.
    pub open spec fn wf(&self) -> bool {
        &&& forall|i: int, j: int| 0 <= i < j < self.devices@.len()
            ==> self.devices@[i].mac_address@ != self.devices@[j].mac_address@
        &&& forall|i: int, j: int| 0 <= i < j < self.device_ips@.len()
            ==> !(self.device_ips@[i].device_id == self.device_ips@[j].device_id
                && self.device_ips@[i].ip_address == self.device_ips@[j].ip_address
                && self.device_ips@[i].vlan_id == self.device_ips@[j].vlan_id)
        &&& forall|i: int, j: int| 0 <= i < j < self.flows@.len()
            ==> db_flow_key(self.flows@[i]) != db_flow_key(self.flows@[j])
        &&& forall|i: int, j: int| 0 <= i < j < self.protocol_stats@.len()
            ==> !(self.protocol_stats@[i].ethertype == self.protocol_stats@[j].ethertype
                && self.protocol_stats@[i].ip_protocol == self.protocol_stats@[j].ip_protocol)
        &&& forall|i: int, j: int| 0 <= i < j < self.vlans@.len()
            ==> self.vlans@[i].vlan_id != self.vlans@[j].vlan_id
    }

    /// Create an empty store.
    pub fn new() -> (r: Self)
        ensures
            r.devices@.len() == 0 && r.device_ips@.len() == 0 && r.flows@.len() == 0
                && r.protocol_stats@.len() == 0 && r.vlans@.len() == 0,
            r.wf(),
    {
        Self {
            devices: Vec::new(),
            device_ips: Vec::new(),
            flows: Vec::new(),
            protocol_stats: Vec::new(),
            vlans: Vec::new(),
            traffic_metrics: Vec::new(),
        }
    }

    /// Append a time-series metrics row; the table has no unique key.
    pub fn insert_metrics(&mut self, time: u64, device_id: Option<u128>,
        flow_id: Option<u128>, metric_type: &str, packet_count: u64, byte_count: u64)
        requires
            old(self).wf(),
        ensures
            final(self).wf(),
            final(self).devices == old(self).devices,
            final(self).device_ips == old(self).device_ips,
            final(self).flows == old(self).flows,
            final(self).protocol_stats == old(self).protocol_stats,
            final(self).vlans == old(self).vlans,
            final(self).traffic_metrics@.len() == old(self).traffic_metrics@.len() + 1,
            forall|i: int| 0 <= i < old(self).traffic_metrics@.len()
                ==> final(self).traffic_metrics@[i] == old(self).traffic_metrics@[i],
            ({
                let row = final(self).traffic_metrics@.last();
                &&& row.time == time
                &&& row.device_id == device_id
                &&& row.flow_id == flow_id
                &&& row.metric_type@ == metric_type@
                &&& row.packet_count == packet_count
                &&& row.byte_count == byte_count
            }),
    {
        self.traffic_metrics.push(DbMetricRow {
            time,
            device_id,
            flow_id,
            metric_type: metric_type.to_owned(),
            packet_count,
            byte_count,
        });
    }

    /// Look up a device row id by the MAC address text.
    pub fn get_device_by_mac(&self, mac: &str) -> (r: Option<u128>)
        ensures
            r is Some <==> exists|i: int| 0 <= i < self.devices@.len()
                && (#[trigger] self.devices@[i]).mac_address@ == mac@,
            r matches Some(id) ==> exists|i: int| 0 <= i < self.devices@.len()
                && (#[trigger] self.devices@[i]).mac_address@ == mac@
                && self.devices@[i].id == id,
    {
        let mut i: usize = 0;
        while i < self.devices.len()
            invariant
                i <= self.devices@.len(),
                forall|j: int| 0 <= j < i ==> (#[trigger] self.devices@[j]).mac_address@
                    != mac@,
            decreases self.devices@.len() - i,
        {
            if crate::text::string_eq_str(&self.devices[i].mac_address, mac) {
                return Some(self.devices[i].id);
            }
            i = i + 1;
        }
        None
    }

    /// Upsert a device by MAC address: on conflict the row keeps its
    /// identity and first-seen and takes the snapshot's counters. Returns
    /// the row's id.
    pub fn upsert_device(&mut self, s: &DeviceSnapshot, fresh_id: u128) -> (returned: u128)
        requires
            old(self).wf(),
        ensures
            final(self).wf(),
            device_upsert_stepped(old(self).devices@, final(self).devices@, *s, fresh_id,
                returned),
            final(self).device_ips == old(self).device_ips,
            final(self).flows == old(self).flows,
            final(self).protocol_stats == old(self).protocol_stats,
            final(self).vlans == old(self).vlans,
    {
        let mut idx: usize = 0;
        let mut found = false;
        while idx < self.devices.len() && !found
            invariant
                idx <= self.devices@.len(),
                found ==> idx < self.devices@.len()
                    && self.devices@[idx as int].mac_address@ == s.mac_address@,
                !found ==> forall|j: int| 0 <= j < idx
                    ==> self.devices@[j].mac_address@ != s.mac_address@,
                self == old(self),
            decreases self.devices@.len() - idx + (if found { 0int } else { 1int }),
        {
            if self.devices[idx].mac_address == s.mac_address {
                found = true;
            } else {
                idx = idx + 1;
            }
        }

        if found {
            let pre = self.devices.remove(idx);
            let returned = pre.id;
            let merged = DbDeviceRow {
                id: pre.id,
                mac_address: pre.mac_address,
                oui_prefix: pre.oui_prefix,
                first_seen: pre.first_seen,
                last_seen: s.last_seen,
                packets_sent: s.packets_sent,
                packets_received: s.packets_received,
                bytes_sent: s.bytes_sent,
                bytes_received: s.bytes_received,
                is_gateway: pre.is_gateway,
                is_flagged: pre.is_flagged,
            };
            self.devices.insert(idx, merged);
            proof {
                assert(self.devices@ =~= old(self).devices@.update(idx as int,
                    self.devices@[idx as int]));
            }
            returned
        } else {
            self.devices.push(DbDeviceRow {
                id: fresh_id,
                mac_address: s.mac_address.clone(),
                oui_prefix: s.oui_prefix.clone(),
                first_seen: s.first_seen,
                last_seen: s.last_seen,
                packets_sent: s.packets_sent,
                packets_received: s.packets_received,
                bytes_sent: s.bytes_sent,
                bytes_received: s.bytes_received,
                is_gateway: false,
                is_flagged: false,
            });
            fresh_id
        }
    }

    /// Upsert a device IP by (device, address, VLAN): on conflict only the
    /// last-seen stamp is refreshed.
    pub fn upsert_device_ip(&mut self, device_id: u128, ip: Ipv4Address, vlan_id: Option<u16>,
        first_seen: u64, last_seen: u64)
        requires
            old(self).wf(),
        ensures
            final(self).wf(),
            final(self).devices == old(self).devices,
            final(self).flows == old(self).flows,
            final(self).protocol_stats == old(self).protocol_stats,
            final(self).vlans == old(self).vlans,
            exists|i: int| 0 <= i < final(self).device_ips@.len()
                && (#[trigger] final(self).device_ips@[i]).device_id == device_id
                && final(self).device_ips@[i].ip_address == ip
                && final(self).device_ips@[i].vlan_id == vlan_id
                && final(self).device_ips@[i].last_seen == last_seen,
    {
        let mut idx: usize = 0;
        let mut found = false;
        while idx < self.device_ips.len() && !found
            invariant
                idx <= self.device_ips@.len(),
                found ==> idx < self.device_ips@.len()
                    && self.device_ips@[idx as int].device_id == device_id
                    && self.device_ips@[idx as int].ip_address == ip
                    && self.device_ips@[idx as int].vlan_id == vlan_id,
                !found ==> forall|j: int| 0 <= j < idx
                    ==> !(self.device_ips@[j].device_id == device_id
                        && self.device_ips@[j].ip_address == ip
                        && self.device_ips@[j].vlan_id == vlan_id),
                self == old(self),
            decreases self.device_ips@.len() - idx + (if found { 0int } else { 1int }),
        {
            let row = self.device_ips[idx];
            if row.device_id == device_id && row.ip_address == ip
                && crate::flow::opt_u16_eq(&row.vlan_id, &vlan_id) {
                found = true;
            } else {
                idx = idx + 1;
            }
        }

        if found {
            let pre = self.device_ips[idx];
            self.device_ips.set(idx, DbDeviceIpRow { last_seen, ..pre });
            proof {
                assert(self.device_ips@ =~= old(self).device_ips@.update(idx as int,
                    self.device_ips@[idx as int]));
                let r = self.device_ips@[idx as int];
                assert(r.device_id == device_id && r.ip_address == ip && r.vlan_id == vlan_id
                    && r.last_seen == last_seen);
            }
        } else {
            self.device_ips.push(DbDeviceIpRow {
                device_id,
                ip_address: ip,
                vlan_id,
                first_seen,
                last_seen,
            });
            proof {
                let n = self.device_ips@.len() - 1;
                let r = self.device_ips@[n];
                assert(r.device_id == device_id && r.ip_address == ip && r.vlan_id == vlan_id
                    && r.last_seen == last_seen);
            }
        }
    }

    /// Upsert a flow by its full tuple: on conflict the row keeps its
    /// identity, first-seen and device links, takes the snapshot's
    /// counters, and ORs the flag accumulator.
    pub fn upsert_flow(&mut self, s: &FlowSnapshot, src_device_id: Option<u128>,
        dst_device_id: Option<u128>, fresh_id: u128) -> (returned: u128)
        requires
            old(self).wf(),
        ensures
            final(self).wf(),
            flow_upsert_stepped(old(self).flows@, final(self).flows@, *s, src_device_id,
                dst_device_id, fresh_id),
            final(self).devices == old(self).devices,
            final(self).device_ips == old(self).device_ips,
            final(self).protocol_stats == old(self).protocol_stats,
            final(self).vlans == old(self).vlans,
    {
        let mut idx: usize = 0;
        let mut found = false;
        while idx < self.flows.len() && !found
            invariant
                idx <= self.flows@.len(),
                found ==> idx < self.flows@.len()
                    && db_flow_key(self.flows@[idx as int]) == snap_flow_key(*s),
                !found ==> forall|j: int| 0 <= j < idx
                    ==> db_flow_key(self.flows@[j]) != snap_flow_key(*s),
                self == old(self),
            decreases self.flows@.len() - idx + (if found { 0int } else { 1int }),
        {
            let row = &self.flows[idx];
            if row.src_mac == s.src_mac && row.dst_mac == s.dst_mac
                && crate::flow::opt_ip_eq(&row.src_ip, &s.src_ip)
                && crate::flow::opt_ip_eq(&row.dst_ip, &s.dst_ip)
                && crate::flow::opt_u16_eq(&row.src_port, &s.src_port)
                && crate::flow::opt_u16_eq(&row.dst_port, &s.dst_port)
                && crate::flow::opt_u16_eq(&row.vlan_id, &s.vlan_id)
                && crate::flow::opt_u8_eq(&row.ip_protocol, &s.ip_protocol) {
                found = true;
            } else {
                idx = idx + 1;
            }
        }

        if found {
            let pre = self.flows.remove(idx);
            let returned = pre.id;
            let merged = DbFlowRow {
                id: pre.id,
                src_device_id: pre.src_device_id,
                src_mac: pre.src_mac,
                src_ip: pre.src_ip,
                src_port: pre.src_port,
                dst_device_id: pre.dst_device_id,
                dst_mac: pre.dst_mac,
                dst_ip: pre.dst_ip,
                dst_port: pre.dst_port,
                vlan_id: pre.vlan_id,
                ip_protocol: pre.ip_protocol,
                first_seen: pre.first_seen,
                last_seen: s.last_seen,
                packet_count: s.packet_count,
                byte_count: s.byte_count,
                tcp_flags_seen: pre.tcp_flags_seen | s.tcp_flags_seen,
            };
            self.flows.insert(idx, merged);
            proof {
                assert(self.flows@ =~= old(self).flows@.update(idx as int,
                    self.flows@[idx as int]));
            }
            returned
        } else {
            self.flows.push(DbFlowRow {
                id: fresh_id,
                src_device_id,
                src_mac: s.src_mac.clone(),
                src_ip: s.src_ip,
                src_port: s.src_port,
                dst_device_id,
                dst_mac: s.dst_mac.clone(),
                dst_ip: s.dst_ip,
                dst_port: s.dst_port,
                vlan_id: s.vlan_id,
                ip_protocol: s.ip_protocol,
                first_seen: s.first_seen,
                last_seen: s.last_seen,
                packet_count: s.packet_count,
                byte_count: s.byte_count,
                tcp_flags_seen: s.tcp_flags_seen,
            });
            fresh_id
        }
    }

    /// Upsert protocol statistics by (EtherType, IP protocol): on conflict
    /// the counters and last-seen stamp are overwritten.
    pub fn upsert_protocol(&mut self, ethertype: u16, ip_protocol: Option<u8>, packet_count: u64,
        byte_count: u64, first_seen: u64, last_seen: u64)
        requires
            old(self).wf(),
        ensures
            final(self).wf(),
            final(self).devices == old(self).devices,
            final(self).device_ips == old(self).device_ips,
            final(self).flows == old(self).flows,
            final(self).vlans == old(self).vlans,
            exists|i: int| 0 <= i < final(self).protocol_stats@.len()
                && (#[trigger] final(self).protocol_stats@[i]).ethertype == ethertype
                && final(self).protocol_stats@[i].ip_protocol == ip_protocol
                && final(self).protocol_stats@[i].packet_count == packet_count
                && final(self).protocol_stats@[i].byte_count == byte_count
                && final(self).protocol_stats@[i].last_seen == last_seen,
            forall|j: int| 0 <= j < old(self).protocol_stats@.len()
                && !((#[trigger] old(self).protocol_stats@[j]).ethertype == ethertype
                    && old(self).protocol_stats@[j].ip_protocol == ip_protocol)
                ==> exists|k: int| 0 <= k < final(self).protocol_stats@.len()
                    && final(self).protocol_stats@[k] == old(self).protocol_stats@[j],
    {
        let mut idx: usize = 0;
        let mut found = false;
        while idx < self.protocol_stats.len() && !found
            invariant
                idx <= self.protocol_stats@.len(),
                found ==> idx < self.protocol_stats@.len()
                    && self.protocol_stats@[idx as int].ethertype == ethertype
                    && self.protocol_stats@[idx as int].ip_protocol == ip_protocol,
                !found ==> forall|j: int| 0 <= j < idx
                    ==> !(self.protocol_stats@[j].ethertype == ethertype
                        && self.protocol_stats@[j].ip_protocol == ip_protocol),
                self == old(self),
            decreases self.protocol_stats@.len() - idx + (if found { 0int } else { 1int }),
        {
            let row = self.protocol_stats[idx];
            if row.ethertype == ethertype && crate::flow::opt_u8_eq(&row.ip_protocol,
                &ip_protocol) {
                found = true;
            } else {
                idx = idx + 1;
            }
        }

        if found {
            let pre = self.protocol_stats[idx];
            self.protocol_stats.set(idx, DbProtocolRow {
                packet_count,
                byte_count,
                last_seen,
                ..pre
            });
            proof {
                assert(self.protocol_stats@ =~= old(self).protocol_stats@.update(idx as int,
                    self.protocol_stats@[idx as int]));
                let r = self.protocol_stats@[idx as int];
                assert(r.ethertype == ethertype && r.ip_protocol == ip_protocol
                    && r.packet_count == packet_count && r.byte_count == byte_count
                    && r.last_seen == last_seen);
                assert forall|j: int| 0 <= j < old(self).protocol_stats@.len()
                    && !((#[trigger] old(self).protocol_stats@[j]).ethertype == ethertype
                        && old(self).protocol_stats@[j].ip_protocol == ip_protocol)
                    implies exists|k: int| 0 <= k < self.protocol_stats@.len()
                        && self.protocol_stats@[k] == old(self).protocol_stats@[j] by {
                    assert(self.protocol_stats@[j] == old(self).protocol_stats@[j]);
                }
            }
        } else {
            self.protocol_stats.push(DbProtocolRow {
                ethertype,
                ip_protocol,
                packet_count,
                byte_count,
                first_seen,
                last_seen,
            });
            proof {
                let n = self.protocol_stats@.len() - 1;
                let r = self.protocol_stats@[n];
                assert(r.ethertype == ethertype && r.ip_protocol == ip_protocol
                    && r.packet_count == packet_count && r.byte_count == byte_count
                    && r.last_seen == last_seen);
                assert forall|j: int| 0 <= j < old(self).protocol_stats@.len()
                    && !((#[trigger] old(self).protocol_stats@[j]).ethertype == ethertype
                        && old(self).protocol_stats@[j].ip_protocol == ip_protocol)
                    implies exists|k: int| 0 <= k < self.protocol_stats@.len()
                        && self.protocol_stats@[k] == old(self).protocol_stats@[j] by {
                    assert(self.protocol_stats@[j] == old(self).protocol_stats@[j]);
                }
            }
        }
    }

    /// Upsert VLAN statistics by VLAN id: on conflict the counters and
    /// last-seen stamp are overwritten.
    pub fn upsert_vlan(&mut self, vlan_id: u16, outer_vlan_id: Option<u16>, total_packets: u64,
        total_bytes: u64, first_seen: u64, last_seen: u64)
        requires
            old(self).wf(),
        ensures
            final(self).wf(),
            final(self).devices == old(self).devices,
            final(self).device_ips == old(self).device_ips,
            final(self).flows == old(self).flows,
            final(self).protocol_stats == old(self).protocol_stats,
            exists|i: int| 0 <= i < final(self).vlans@.len()
                && (#[trigger] final(self).vlans@[i]).vlan_id == vlan_id
                && final(self).vlans@[i].total_packets == total_packets
                && final(self).vlans@[i].total_bytes == total_bytes
                && final(self).vlans@[i].last_seen == last_seen,
            forall|j: int| 0 <= j < old(self).vlans@.len()
                && (#[trigger] old(self).vlans@[j]).vlan_id != vlan_id
                ==> exists|k: int| 0 <= k < final(self).vlans@.len()
                    && final(self).vlans@[k] == old(self).vlans@[j],
    {
        let mut idx: usize = 0;
        let mut found = false;
        while idx < self.vlans.len() && !found
            invariant
                idx <= self.vlans@.len(),
                found ==> idx < self.vlans@.len()
                    && self.vlans@[idx as int].vlan_id == vlan_id,
                !found ==> forall|j: int| 0 <= j < idx ==> self.vlans@[j].vlan_id != vlan_id,
                self == old(self),
            decreases self.vlans@.len() - idx + (if found { 0int } else { 1int }),
        {
            if self.vlans[idx].vlan_id == vlan_id {
                found = true;
            } else {
                idx = idx + 1;
            }
        }

        if found {
            let pre = self.vlans[idx];
            self.vlans.set(idx, DbVlanRow { total_packets, total_bytes, last_seen, ..pre });
            proof {
                assert(self.vlans@ =~= old(self).vlans@.update(idx as int,
                    self.vlans@[idx as int]));
                let r = self.vlans@[idx as int];
                assert(r.vlan_id == vlan_id && r.total_packets == total_packets
                    && r.total_bytes == total_bytes && r.last_seen == last_seen);
                assert forall|j: int| 0 <= j < old(self).vlans@.len()
                    && (#[trigger] old(self).vlans@[j]).vlan_id != vlan_id
                    implies exists|k: int| 0 <= k < self.vlans@.len()
                        && self.vlans@[k] == old(self).vlans@[j] by {
                    assert(self.vlans@[j] == old(self).vlans@[j]);
                }
            }
        } else {
            self.vlans.push(DbVlanRow {
                vlan_id,
                outer_vlan_id,
                first_seen,
                last_seen,
                total_packets,
                total_bytes,
            });
            proof {
                let n = self.vlans@.len() - 1;
                let r = self.vlans@[n];
                assert(r.vlan_id == vlan_id && r.total_packets == total_packets
                    && r.total_bytes == total_bytes && r.last_seen == last_seen);
                assert forall|j: int| 0 <= j < old(self).vlans@.len()
                    && (#[trigger] old(self).vlans@[j]).vlan_id != vlan_id
                    implies exists|k: int| 0 <= k < self.vlans@.len()
                        && self.vlans@[k] == old(self).vlans@[j] by {
                    assert(self.vlans@[j] == old(self).vlans@[j]);
                }
            }
        }
    }
}

/// After a pass, the devices table has a row carrying this device's
/// current counters.
pub open spec fn db_has_device_current(rows: Seq<DbDeviceRow>, d: crate::device::DeviceState)
    -> bool {
    exists|i: int| 0 <= i < rows.len()
        && (#[trigger] rows[i]).mac_address@ == mac_string_of(d.mac@)
        && rows[i].last_seen == d.last_seen && rows[i].packets_sent == d.packets_sent
        && rows[i].packets_received == d.packets_received && rows[i].bytes_sent == d.bytes_sent
        && rows[i].bytes_received == d.bytes_received
}

/// After a pass, the flows table has a row carrying this flow's current
/// counters, with a flag accumulator that holds at least every observed
/// bit.
pub open spec fn db_has_flow_current(rows: Seq<DbFlowRow>, f: crate::flow::FlowState) -> bool {
    exists|i: int| 0 <= i < rows.len()
        && (#[trigger] rows[i]).src_mac@ == mac_string_of(f.key.src_mac@)
        && rows[i].dst_mac@ == mac_string_of(f.key.dst_mac@) && rows[i].src_ip == f.key.src_ip
        && rows[i].dst_ip == f.key.dst_ip && rows[i].src_port == f.key.src_port
        && rows[i].dst_port == f.key.dst_port && rows[i].vlan_id == f.key.vlan_id
        && rows[i].ip_protocol == f.key.protocol && rows[i].last_seen == f.last_seen
        && rows[i].packet_count == f.packet_count && rows[i].byte_count == f.byte_count
        && rows[i].tcp_flags_seen & f.tcp_flags_seen == f.tcp_flags_seen
}

/// Printing two MAC addresses gives the same text only for the same bytes.
pub proof fn lemma_mac_string_injective(m1: Seq<u8>, m2: Seq<u8>)
    requires
        m1.len() == 6,
        m2.len() == 6,
        mac_string_of(m1) == mac_string_of(m2),
    ensures
        m1 == m2,
{
    crate::frame::lemma_mac_string_round_trip(m1);
    crate::frame::lemma_mac_string_round_trip(m2);
    assert(m1 =~= m2);
}

/// After a pass, the protocol table has a row carrying this entry's
/// current counters.
pub open spec fn db_has_protocol_current(rows: Seq<DbProtocolRow>,
    p: crate::protocol::ProtocolStats) -> bool {
    exists|i: int| 0 <= i < rows.len() && (#[trigger] rows[i]).ethertype == p.ethertype
        && rows[i].ip_protocol == p.ip_protocol && rows[i].packet_count == p.packet_count
        && rows[i].byte_count == p.byte_count && rows[i].last_seen == p.last_seen
}

/// After a pass, the VLAN table has a row carrying this entry's current
/// counters.
pub open spec fn db_has_vlan_current(rows: Seq<DbVlanRow>, v: crate::state::VlanStats) -> bool {
    exists|i: int| 0 <= i < rows.len() && (#[trigger] rows[i]).vlan_id == v.vlan_id
        && rows[i].total_packets == v.packet_count && rows[i].total_bytes == v.byte_count
        && rows[i].last_seen == v.last_seen
}

/// Per-category row counts of one persistence pass.
#[derive(Clone, Copy, Debug)]
pub struct PersistReport {
    pub device_count: usize,
    pub flow_count: usize,
    pub protocol_count: usize,
    pub vlan_count: usize,
}

/// Persists aggregated state into the store, in the fixed foreign-key
/// order: devices (with their IPs), then flows, then protocol statistics,
/// then VLAN statistics. Carries the MAC-to-row-id cache across passes.
pub struct Persister {
    device_ids: Vec<(MacAddr, u128)>,
}

impl Persister {
    /// Create a new persister with an empty device-id cache.
    pub fn new() -> (r: Self)
        ensures
            r@.len() == 0,
    {
        Self { device_ids: Vec::new() }
    }

    /// Look up the cached row id of a MAC address.
    pub fn cached_device_id(&self, mac: &MacAddr) -> (r: Option<u128>)
        ensures
            r is Some <==> exists|i: int| 0 <= i < self@.len() && (#[trigger] self@[i]).0@
                == mac@,
    {
        let mut i: usize = 0;
        while i < self.device_ids.len()
            invariant
                i <= self@.len(),
                forall|j: int| 0 <= j < i ==> (#[trigger] self@[j]).0@ != mac@,
            decreases self@.len() - i,
        {
            if self.device_ids[i].0.same_as(mac) {
                return Some(self.device_ids[i].1);
            }
            i = i + 1;
        }
        None
    }

    /// Persist every device and its IP addresses. Afterwards the devices
    /// table carries each device's current counters, and the id under
    /// which each device is stored is cached.
    pub fn persist_devices(&mut self, state: &AggregatorState, db: &mut Database)
        -> (count: usize)
        requires
            state.wf(),
            old(db).wf(),
        ensures
            final(db).wf(),
            count == state.devices@.len(),
            forall|i: int| 0 <= i < state.devices@.len()
                ==> db_has_device_current(final(db).devices@, #[trigger] state.devices@[i]),
            final(db).flows == old(db).flows,
            final(db).protocol_stats == old(db).protocol_stats,
            final(db).vlans == old(db).vlans,
    {
        let mut count: usize = 0;
        let mut i: usize = 0;
        while i < state.devices.len()
            invariant
                i <= state.devices@.len(),
                count == i,
                state.wf(),
                db.wf(),
                forall|j: int| 0 <= j < i ==> db_has_device_current(db.devices@,
                    #[trigger] state.devices@[j]),
                db.flows == old(db).flows,
                db.protocol_stats == old(db).protocol_stats,
                db.vlans == old(db).vlans,
            decreases state.devices@.len() - i,
        {
            let ghost db_pre = db.devices@;
            let device = &state.devices[i];
            let snap = device.snapshot();
            let device_id = db.upsert_device(&snap, crate::ids::new_uuid_u128());
            self.remember(device.mac, device_id);

            proof {
                assert(db_has_device_current(db.devices@, state.devices@[i as int])) by {
                    if exists|k: int| 0 <= k < db_pre.len()
                        && (#[trigger] db_pre[k]).mac_address@ == snap.mac_address@ {
                        let k = choose|k: int| 0 <= k < db_pre.len()
                            && (#[trigger] db_pre[k]).mac_address@ == snap.mac_address@
                            && device_row_merged(db_pre[k], db.devices@[k], snap)
                            && device_id == db_pre[k].id
                            && (forall|j: int| 0 <= j < db_pre.len() && j != k
                                ==> db.devices@[j] == db_pre[j]);
                        assert(db.devices@[k].mac_address@
                            == mac_string_of(state.devices@[i as int].mac@));
                    } else {
                        let n = db_pre.len() as int;
                        assert(db.devices@[n].mac_address@
                            == mac_string_of(state.devices@[i as int].mac@));
                    }
                }
                assert forall|j: int| 0 <= j < i implies db_has_device_current(db.devices@,
                    #[trigger] state.devices@[j]) by {
                    let dj = state.devices@[j];
                    let r = choose|r: int| 0 <= r < db_pre.len()
                        && (#[trigger] db_pre[r]).mac_address@ == mac_string_of(dj.mac@)
                        && db_pre[r].last_seen == dj.last_seen
                        && db_pre[r].packets_sent == dj.packets_sent
                        && db_pre[r].packets_received == dj.packets_received
                        && db_pre[r].bytes_sent == dj.bytes_sent
                        && db_pre[r].bytes_received == dj.bytes_received;
                    if db_pre[r].mac_address@ == snap.mac_address@ {
                        crate::frame::lemma_mac_view_len(dj.mac);
                        crate::frame::lemma_mac_view_len(state.devices@[i as int].mac);
                        lemma_mac_string_injective(dj.mac@, state.devices@[i as int].mac@);
                        assert(false);
                    }
                    if exists|k: int| 0 <= k < db_pre.len()
                        && (#[trigger] db_pre[k]).mac_address@ == snap.mac_address@ {
                        let k = choose|k: int| 0 <= k < db_pre.len()
                            && (#[trigger] db_pre[k]).mac_address@ == snap.mac_address@
                            && device_row_merged(db_pre[k], db.devices@[k], snap)
                            && device_id == db_pre[k].id
                            && (forall|j2: int| 0 <= j2 < db_pre.len() && j2 != k
                                ==> db.devices@[j2] == db_pre[j2]);
                        assert(r != k);
                        assert(db.devices@[r] == db_pre[r]);
                    } else {
                        assert(db.devices@[r] == db_pre[r]);
                    }
                }
            }

            let ghost devs_after = db.devices@;
            let mut p: usize = 0;
            while p < snap.ip_addresses.len()
                invariant
                    p <= snap.ip_addresses@.len(),
                    db.wf(),
                    db.devices@ == devs_after,
                    db.flows == old(db).flows,
                    db.protocol_stats == old(db).protocol_stats,
                    db.vlans == old(db).vlans,
                decreases snap.ip_addresses@.len() - p,
            {
                let ip_snap = &snap.ip_addresses[p];
                db.upsert_device_ip(device_id, ip_snap.ip_address, ip_snap.vlan_id,
                    ip_snap.first_seen, ip_snap.last_seen);
                p = p + 1;
            }

            count = count + 1;
            i = i + 1;
        }
        count
    }

    /// Record a device's stored row id in the cache, keeping one entry per
    /// MAC address.
    fn remember(&mut self, mac: MacAddr, id: u128)
    {
        let mut i: usize = 0;
        while i < self.device_ids.len()
            invariant
                i <= self.device_ids@.len(),
            decreases self.device_ids@.len() - i,
        {
            if self.device_ids[i].0.same_as(&mac) {
                self.device_ids.set(i, (mac, id));
                return;
            }
            i = i + 1;
        }
        self.device_ids.push((mac, id));
    }

    /// Persist every flow, linking it to the cached device row ids.
    /// Afterwards the flows table carries each flow's current counters and
    /// a flag accumulator holding at least every observed bit.
    pub fn persist_flows(&self, state: &AggregatorState, db: &mut Database) -> (count: usize)
        requires
            state.wf(),
            old(db).wf(),
        ensures
            final(db).wf(),
            count == state.flows@.len(),
            forall|i: int| 0 <= i < state.flows@.len()
                ==> db_has_flow_current(final(db).flows@, #[trigger] state.flows@[i]),
            final(db).devices == old(db).devices,
            final(db).device_ips == old(db).device_ips,
            final(db).protocol_stats == old(db).protocol_stats,
            final(db).vlans == old(db).vlans,
    {
        let mut count: usize = 0;
        let mut i: usize = 0;
        while i < state.flows.len()
            invariant
                i <= state.flows@.len(),
                count == i,
                state.wf(),
                db.wf(),
                forall|j: int| 0 <= j < i ==> db_has_flow_current(db.flows@,
                    #[trigger] state.flows@[j]),
                db.devices == old(db).devices,
                db.device_ips == old(db).device_ips,
                db.protocol_stats == old(db).protocol_stats,
                db.vlans == old(db).vlans,
            decreases state.flows@.len() - i,
        {
            let ghost db_pre = db.flows@;
            let flow = &state.flows[i];
            let snap = flow.snapshot(0);
            let src_id = self.cached_device_id(&flow.key.src_mac);
            let dst_id = self.cached_device_id(&flow.key.dst_mac);
            db.upsert_flow(&snap, src_id, dst_id, crate::ids::new_uuid_u128());

            proof {
                let fi = state.flows@[i as int];
                lemma_snap_key_flags(db_pre, db.flows@, snap, fi, src_id, dst_id);
                assert forall|j: int| 0 <= j < i implies db_has_flow_current(db.flows@,
                    #[trigger] state.flows@[j]) by {
                    lemma_flow_current_preserved(db_pre, db.flows@, snap, state.flows@[j], fi,
                        src_id, dst_id);
                }
            }

            count = count + 1;
            i = i + 1;
        }
        count
    }

    /// Persist every protocol statistics entry.
    pub fn persist_protocols(&self, state: &AggregatorState, db: &mut Database)
        -> (count: usize)
        requires
            state.wf(),
            old(db).wf(),
        ensures
            final(db).wf(),
            count == state.protocols@.len(),
            forall|i: int| 0 <= i < state.protocols@.len()
                ==> db_has_protocol_current(final(db).protocol_stats@,
                    #[trigger] state.protocols@[i]),
            final(db).devices == old(db).devices,
            final(db).device_ips == old(db).device_ips,
            final(db).flows == old(db).flows,
            final(db).vlans == old(db).vlans,
    {
        let mut count: usize = 0;
        let mut i: usize = 0;
        while i < state.protocols.len()
            invariant
                i <= state.protocols@.len(),
                count == i,
                state.wf(),
                db.wf(),
                forall|j: int| 0 <= j < i ==> db_has_protocol_current(db.protocol_stats@,
                    #[trigger] state.protocols@[j]),
                db.devices == old(db).devices,
                db.device_ips == old(db).device_ips,
                db.flows == old(db).flows,
                db.vlans == old(db).vlans,
            decreases state.protocols@.len() - i,
        {
            let p = state.protocols[i];
            db.upsert_protocol(p.ethertype, p.ip_protocol, p.packet_count, p.byte_count,
                p.first_seen, p.last_seen);
            count = count + 1;
            i = i + 1;
        }
        count
    }

    /// Persist every VLAN statistics entry.
    pub fn persist_vlans(&self, state: &AggregatorState, db: &mut Database) -> (count: usize)
        requires
            state.wf(),
            old(db).wf(),
        ensures
            final(db).wf(),
            count == state.vlans@.len(),
            forall|i: int| 0 <= i < state.vlans@.len()
                ==> db_has_vlan_current(final(db).vlans@, #[trigger] state.vlans@[i]),
            final(db).devices == old(db).devices,
            final(db).device_ips == old(db).device_ips,
            final(db).flows == old(db).flows,
            final(db).protocol_stats == old(db).protocol_stats,
    {
        let mut count: usize = 0;
        let mut i: usize = 0;
        while i < state.vlans.len()
            invariant
                i <= state.vlans@.len(),
                count == i,
                state.wf(),
                db.wf(),
                forall|j: int| 0 <= j < i ==> db_has_vlan_current(db.vlans@,
                    #[trigger] state.vlans@[j]),
                db.devices == old(db).devices,
                db.device_ips == old(db).device_ips,
                db.flows == old(db).flows,
                db.protocol_stats == old(db).protocol_stats,
            decreases state.vlans@.len() - i,
        {
            let v = state.vlans[i];
            db.upsert_vlan(v.vlan_id, v.outer_vlan_id, v.packet_count, v.byte_count,
                v.first_seen, v.last_seen);
            count = count + 1;
            i = i + 1;
        }
        count
    }

    /// One full persistence pass in the fixed foreign-key order. After the
    /// pass every table row carries the current in-memory counters of its
    /// entry.
    pub fn persist_all(&mut self, state: &AggregatorState, db: &mut Database)
        -> (report: PersistReport)
        requires
            state.wf(),
            old(db).wf(),
        ensures
            final(db).wf(),
            report.device_count == state.devices@.len(),
            report.flow_count == state.flows@.len(),
            report.protocol_count == state.protocols@.len(),
            report.vlan_count == state.vlans@.len(),
            forall|i: int| 0 <= i < state.devices@.len()
                ==> db_has_device_current(final(db).devices@, #[trigger] state.devices@[i]),
            forall|i: int| 0 <= i < state.flows@.len()
                ==> db_has_flow_current(final(db).flows@, #[trigger] state.flows@[i]),
            forall|i: int| 0 <= i < state.protocols@.len()
                ==> db_has_protocol_current(final(db).protocol_stats@,
                    #[trigger] state.protocols@[i]),
            forall|i: int| 0 <= i < state.vlans@.len()
                ==> db_has_vlan_current(final(db).vlans@, #[trigger] state.vlans@[i]),
    {
        let device_count = self.persist_devices(state, db);
        let flow_count = self.persist_flows(state, db);
        let protocol_count = self.persist_protocols(state, db);
        let vlan_count = self.persist_vlans(state, db);
        PersistReport { device_count, flow_count, protocol_count, vlan_count }
    }
}

impl View for Persister {
    type V = Seq<(MacAddr, u128)>;

    closed spec fn view(&self) -> Seq<(MacAddr, u128)> {
        self.device_ids@
    }
}

proof fn lemma_snap_key_flags(pre: Seq<DbFlowRow>, post: Seq<DbFlowRow>, snap: FlowSnapshot,
    f: crate::flow::FlowState, src_id: Option<u128>, dst_id: Option<u128>)
    requires
        flow_snapshot_of(snap, f, 0),
        exists|fresh: u128| flow_upsert_stepped(pre, post, snap, src_id, dst_id, fresh),
    ensures
        db_has_flow_current(post, f),
{
    let fresh = choose|fresh: u128| flow_upsert_stepped(pre, post, snap, src_id, dst_id, fresh);
    if exists|k: int| 0 <= k < pre.len() && db_flow_key(#[trigger] pre[k]) == snap_flow_key(
        snap) {
        let k = choose|k: int| 0 <= k < pre.len()
            && db_flow_key(#[trigger] pre[k]) == snap_flow_key(snap)
            && flow_row_merged(pre[k], post[k], snap)
            && (forall|j: int| 0 <= j < pre.len() && j != k ==> post[j] == pre[j]);
        let a = pre[k].tcp_flags_seen;
        let b = snap.tcp_flags_seen;
        assert((a | b) & b == b) by (bit_vector);
        assert(db_flow_key(post[k]) == snap_flow_key(snap));
    } else {
        let n = pre.len() as int;
        let b = snap.tcp_flags_seen;
        assert(b & b == b) by (bit_vector);
        assert(db_flow_key(post[n]) == snap_flow_key(snap));
    }
}

proof fn lemma_flow_current_preserved(pre: Seq<DbFlowRow>, post: Seq<DbFlowRow>,
    snap: FlowSnapshot, g: crate::flow::FlowState, f: crate::flow::FlowState,
    src_id: Option<u128>, dst_id: Option<u128>)
    requires
        flow_snapshot_of(snap, f, 0),
        g.key@ != f.key@,
        db_has_flow_current(pre, g),
        exists|fresh: u128| flow_upsert_stepped(pre, post, snap, src_id, dst_id, fresh),
    ensures
        db_has_flow_current(post, g),
{
    let fresh = choose|fresh: u128| flow_upsert_stepped(pre, post, snap, src_id, dst_id, fresh);
    let r = choose|r: int| 0 <= r < pre.len()
        && (#[trigger] pre[r]).src_mac@ == mac_string_of(g.key.src_mac@)
        && pre[r].dst_mac@ == mac_string_of(g.key.dst_mac@) && pre[r].src_ip == g.key.src_ip
        && pre[r].dst_ip == g.key.dst_ip && pre[r].src_port == g.key.src_port
        && pre[r].dst_port == g.key.dst_port && pre[r].vlan_id == g.key.vlan_id
        && pre[r].ip_protocol == g.key.protocol && pre[r].last_seen == g.last_seen
        && pre[r].packet_count == g.packet_count && pre[r].byte_count == g.byte_count
        && pre[r].tcp_flags_seen & g.tcp_flags_seen == g.tcp_flags_seen;
    if db_flow_key(pre[r]) == snap_flow_key(snap) {
        crate::frame::lemma_mac_view_len(g.key.src_mac);
        crate::frame::lemma_mac_view_len(f.key.src_mac);
        crate::frame::lemma_mac_view_len(g.key.dst_mac);
        crate::frame::lemma_mac_view_len(f.key.dst_mac);
        lemma_mac_string_injective(g.key.src_mac@, f.key.src_mac@);
        lemma_mac_string_injective(g.key.dst_mac@, f.key.dst_mac@);
        assert(g.key@ == f.key@);
        assert(false);
    }
    if exists|k: int| 0 <= k < pre.len() && db_flow_key(#[trigger] pre[k]) == snap_flow_key(
        snap) {
        let k = choose|k: int| 0 <= k < pre.len()
            && db_flow_key(#[trigger] pre[k]) == snap_flow_key(snap)
            && flow_row_merged(pre[k], post[k], snap)
            && (forall|j: int| 0 <= j < pre.len() && j != k ==> post[j] == pre[j]);
        assert(r != k);
        assert(post[r] == pre[r]);
    } else {
        assert(post[r] == pre[r]);
    }
}

/// Merging the same snapshot twice is the same as merging it once: with no
/// intervening frames, a second pass leaves the flows table identical.
pub proof fn lemma_flow_upsert_idempotent(pre: Seq<DbFlowRow>, mid: Seq<DbFlowRow>,
    post: Seq<DbFlowRow>, s: FlowSnapshot, src_id: Option<u128>, dst_id: Option<u128>,
    fresh1: u128, fresh2: u128)
    requires
        forall|i: int, j: int| 0 <= i < j < pre.len() ==> db_flow_key(pre[i])
            != db_flow_key(pre[j]),
        flow_upsert_stepped(pre, mid, s, src_id, dst_id, fresh1),
        flow_upsert_stepped(mid, post, s, src_id, dst_id, fresh2),
    ensures
        post =~= mid,
{
    if exists|i: int| 0 <= i < pre.len() && db_flow_key(#[trigger] pre[i]) == snap_flow_key(s) {
        let i = choose|i: int| 0 <= i < pre.len()
            && db_flow_key(#[trigger] pre[i]) == snap_flow_key(s)
            && flow_row_merged(pre[i], mid[i], s)
            && (forall|j: int| 0 <= j < pre.len() && j != i ==> mid[j] == pre[j]);
        assert(db_flow_key(mid[i]) == snap_flow_key(s));
        let k = choose|k: int| 0 <= k < mid.len()
            && db_flow_key(#[trigger] mid[k]) == snap_flow_key(s)
            && flow_row_merged(mid[k], post[k], s)
            && (forall|j: int| 0 <= j < mid.len() && j != k ==> post[j] == mid[j]);
        assert(k == i) by {
            if k != i {
                assert(mid[k] == pre[k]);
                assert(db_flow_key(pre[k]) == db_flow_key(pre[i]));
            }
        }
        let a = pre[i].tcp_flags_seen;
        let b = s.tcp_flags_seen;
        assert((a | b) | b == a | b) by (bit_vector);
        assert(post[i] == mid[i]);
    } else {
        let n = pre.len() as int;
        assert(flow_row_new(mid[n], s, src_id, dst_id, fresh1));
        assert(db_flow_key(mid[n]) == snap_flow_key(s));
        let k = choose|k: int| 0 <= k < mid.len()
            && db_flow_key(#[trigger] mid[k]) == snap_flow_key(s)
            && flow_row_merged(mid[k], post[k], s)
            && (forall|j: int| 0 <= j < mid.len() && j != k ==> post[j] == mid[j]);
        assert(k == n) by {
            if k != n {
                assert(mid[k] == pre[k]);
                assert(db_flow_key(pre[k]) == snap_flow_key(s));
            }
        }
        let b = s.tcp_flags_seen;
        assert(b | b == b) by (bit_vector);
        assert(post[n] == mid[n]);
    }
}

/// Merging the same device snapshot twice is the same as merging it once:
/// with no intervening frames, a second pass leaves the devices table
/// identical.
pub proof fn lemma_device_upsert_idempotent(pre: Seq<DbDeviceRow>, mid: Seq<DbDeviceRow>,
    post: Seq<DbDeviceRow>, s: DeviceSnapshot, fresh1: u128, fresh2: u128, r1: u128, r2: u128)
    requires
        forall|i: int, j: int| 0 <= i < j < pre.len() ==> pre[i].mac_address@
            != pre[j].mac_address@,
        device_upsert_stepped(pre, mid, s, fresh1, r1),
        device_upsert_stepped(mid, post, s, fresh2, r2),
    ensures
        post =~= mid,
        r2 == r1,
{
    if exists|i: int| 0 <= i < pre.len() && (#[trigger] pre[i]).mac_address@
        == s.mac_address@ {
        let i = choose|i: int| 0 <= i < pre.len()
            && (#[trigger] pre[i]).mac_address@ == s.mac_address@
            && device_row_merged(pre[i], mid[i], s) && r1 == pre[i].id
            && (forall|j: int| 0 <= j < pre.len() && j != i ==> mid[j] == pre[j]);
        assert(mid[i].mac_address@ == s.mac_address@);
        let k = choose|k: int| 0 <= k < mid.len()
            && (#[trigger] mid[k]).mac_address@ == s.mac_address@
            && device_row_merged(mid[k], post[k], s) && r2 == mid[k].id
            && (forall|j: int| 0 <= j < mid.len() && j != k ==> post[j] == mid[j]);
        assert(k == i) by {
            if k != i {
                assert(mid[k] == pre[k]);
                assert(pre[k].mac_address@ == pre[i].mac_address@);
            }
        }
        assert(post[i] == mid[i]);
    } else {
        let n = pre.len() as int;
        assert(device_row_new(mid[n], s, fresh1));
        assert(mid[n].mac_address@ == s.mac_address@);
        let k = choose|k: int| 0 <= k < mid.len()
            && (#[trigger] mid[k]).mac_address@ == s.mac_address@
            && device_row_merged(mid[k], post[k], s) && r2 == mid[k].id
            && (forall|j: int| 0 <= j < mid.len() && j != k ==> post[j] == mid[j]);
        assert(k == n) by {
            if k != n {
                assert(mid[k] == pre[k]);
                assert(pre[k].mac_address@ == s.mac_address@);
            }
        }
        assert(post[n] == mid[n]);
    }
}

/// A flow upsert never lowers a row's packet count below its previous
/// value, as long as the snapshot's count is at least the row's: after a
/// pass without errors, the stored count is the (monotone) in-memory
/// count.
pub proof fn lemma_flow_upsert_monotone(pre: Seq<DbFlowRow>, post: Seq<DbFlowRow>,
    s: FlowSnapshot, src_id: Option<u128>, dst_id: Option<u128>, fresh_id: u128, i: int)
    requires
        flow_upsert_stepped(pre, post, s, src_id, dst_id, fresh_id),
        0 <= i < pre.len(),
        db_flow_key(pre[i]) == snap_flow_key(s),
        s.packet_count >= pre[i].packet_count,
    ensures
        exists|k: int| 0 <= k < post.len() && db_flow_key(#[trigger] post[k]) == snap_flow_key(s)
            && post[k].packet_count >= pre[i].packet_count
            && post[k].tcp_flags_seen & s.tcp_flags_seen == s.tcp_flags_seen,
{
    let k = choose|k: int| 0 <= k < pre.len()
        && db_flow_key(#[trigger] pre[k]) == snap_flow_key(s) && flow_row_merged(pre[k], post[k],
        s) && (forall|j: int| 0 <= j < pre.len() && j != k ==> post[j] == pre[j]);
    assert(post[k].packet_count == s.packet_count);
    let a = pre[k].tcp_flags_seen;
    let b = s.tcp_flags_seen;
    assert((a | b) & b == b) by (bit_vector);
    assert(db_flow_key(post[k]) == snap_flow_key(s));
}

} // verus!
