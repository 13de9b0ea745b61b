//! Device state management.

use vstd::prelude::*;

use crate::counters::{sat_add, sat_add64};
use crate::frame::{Ipv4Address, MacAddr, mac_string_of, oui_string_of};
use crate::ids;

verus! {

/// IP address state for a device. Timestamps are Unix seconds.
#[derive(Clone, Copy, Debug)]
pub struct IpState {
    /// IP address.
    pub ip: Ipv4Address,
    /// VLAN ID seen at first observation (if any).
    pub vlan_id: Option<u16>,
    /// First seen timestamp.
    pub first_seen: u64,
    /// Last seen timestamp.
    pub last_seen: u64,
    /// Packets sent from this IP.
    pub packets_sent: u64,
    /// Packets received to this IP.
    pub packets_received: u64,
    /// Bytes sent from this IP.
    pub bytes_sent: u64,
    /// Bytes received to this IP.
    pub bytes_received: u64,
}

/// The IP entry after one more observation.
pub open spec fn spec_ip_updated(s: IpState, bytes: u64, is_source: bool, now: u64) -> IpState {
    IpState {
        ip: s.ip,
        vlan_id: s.vlan_id,
        first_seen: s.first_seen,
        last_seen: now,
        packets_sent: if is_source { sat_add64(s.packets_sent, 1) } else { s.packets_sent },
        packets_received: if is_source { s.packets_received } else {
            sat_add64(s.packets_received, 1)
        },
        bytes_sent: if is_source { sat_add64(s.bytes_sent, bytes) } else { s.bytes_sent },
        bytes_received: if is_source { s.bytes_received } else {
            sat_add64(s.bytes_received, bytes)
        },
    }
}

/// A fresh IP entry for a first observation.
pub open spec fn spec_ip_new(ip: Ipv4Address, vlan_id: Option<u16>, bytes: u64, is_source: bool,
    now: u64) -> IpState {
    IpState {
        ip,
        vlan_id,
        first_seen: now,
        last_seen: now,
        packets_sent: if is_source { 1u64 } else { 0u64 },
        packets_received: if is_source { 0u64 } else { 1u64 },
        bytes_sent: if is_source { bytes } else { 0u64 },
        bytes_received: if is_source { 0u64 } else { bytes },
    }
}

/// Whether an IP appears in a device's IP list.
pub open spec fn has_ip(ips: Seq<IpState>, ip: Ipv4Address) -> bool {
    exists|i: int| 0 <= i < ips.len() && ips[i].ip == ip
}

/// How a device's IP list changes under one observation: untouched when no
/// IP was seen, one entry updated when the IP is known, one entry appended
/// when it is new.
pub open spec fn ips_stepped(pre: Seq<IpState>, post: Seq<IpState>, ip: Option<Ipv4Address>,
    vlan_id: Option<u16>, bytes: u64, is_source: bool, now: u64) -> bool {
    match ip {
        None => post == pre,
        Some(a) => {
            if has_ip(pre, a) {
                &&& post.len() == pre.len()
                &&& exists|i: int| 0 <= i < pre.len() && pre[i].ip == a
                    && post =~= pre.update(i, spec_ip_updated(pre[i], bytes, is_source, now))
            } else {
                post =~= pre.push(spec_ip_new(a, vlan_id, bytes, is_source, now))
            }
        },
    }
}

/// How a device's VLAN membership set changes: the id is added if new.
pub open spec fn vlans_stepped(pre: Seq<u16>, post: Seq<u16>, vlan_id: Option<u16>) -> bool {
    match vlan_id {
        None => post == pre,
        Some(v) => {
            if pre.contains(v) {
                post == pre
            } else {
                post =~= pre.push(v)
            }
        },
    }
}

/// Device state in memory. Timestamps are Unix seconds.
#[derive(Clone, Debug)]
pub struct DeviceState {
    /// Unique identifier, assigned at first sight.
    pub id: u128,
    /// MAC address.
    pub mac: MacAddr,
    /// First seen timestamp.
    pub first_seen: u64,
    /// Last seen timestamp.
    pub last_seen: u64,
    /// Total packets sent.
    pub packets_sent: u64,
    /// Total packets received.
    pub packets_received: u64,
    /// Total bytes sent.
    pub bytes_sent: u64,
    /// Total bytes received.
    pub bytes_received: u64,
    /// IP addresses associated with this device, distinct by address.
    pub ips: Vec<IpState>,
    /// VLANs this device has been seen on, distinct.
    pub vlans: Vec<u16>,
    /// Whether this device is a gateway.
    pub is_gateway: bool,
    /// Whether this device is flagged for attention.
    pub is_flagged: bool,
    /// Dirty flag (changed since last persistence).
    pub dirty: bool,
}

/// Internal consistency of a device entry: IP addresses and VLAN ids are
/// distinct.
pub open spec fn device_wf(d: DeviceState) -> bool {
    &&& forall|i: int, j: int| 0 <= i < j < d.ips@.len() ==> d.ips@[i].ip != d.ips@[j].ip
    &&& forall|i: int, j: int| 0 <= i < j < d.vlans@.len() ==> d.vlans@[i] != d.vlans@[j]
}

/// How a known device changes under one observation.
pub open spec fn device_updated(pre: DeviceState, post: DeviceState, ip: Option<Ipv4Address>,
    vlan_id: Option<u16>, bytes: u64, is_source: bool, now: u64) -> bool {
    &&& post.id == pre.id
    &&& post.mac@ == pre.mac@
    &&& post.first_seen == pre.first_seen
    &&& post.last_seen == now
    &&& post.packets_sent == (if is_source { sat_add64(pre.packets_sent, 1) } else {
        pre.packets_sent
    })
    &&& post.packets_received == (if is_source { pre.packets_received } else {
        sat_add64(pre.packets_received, 1)
    })
    &&& post.bytes_sent == (if is_source { sat_add64(pre.bytes_sent, bytes) } else {
        pre.bytes_sent
    })
    &&& post.bytes_received == (if is_source { pre.bytes_received } else {
        sat_add64(pre.bytes_received, bytes)
    })
    &&& ips_stepped(pre.ips@, post.ips@, ip, vlan_id, bytes, is_source, now)
    &&& vlans_stepped(pre.vlans@, post.vlans@, vlan_id)
    &&& post.is_gateway == pre.is_gateway
    &&& post.is_flagged == pre.is_flagged
    &&& post.dirty
}

/// What a device entry created by one first observation looks like; the id
/// is left open (it is freshly generated).
pub open spec fn device_new_from(post: DeviceState, mac: Seq<u8>, ip: Option<Ipv4Address>,
    vlan_id: Option<u16>, bytes: u64, is_source: bool, now: u64) -> bool {
    &&& post.mac@ == mac
    &&& post.first_seen == now
    &&& post.last_seen == now
    &&& post.packets_sent == (if is_source { 1u64 } else { 0u64 })
    &&& post.packets_received == (if is_source { 0u64 } else { 1u64 })
    &&& post.bytes_sent == (if is_source { bytes } else { 0u64 })
    &&& post.bytes_received == (if is_source { 0u64 } else { bytes })
    &&& ips_stepped(Seq::<IpState>::empty(), post.ips@, ip, vlan_id, bytes, is_source, now)
    &&& vlans_stepped(Seq::<u16>::empty(), post.vlans@, vlan_id)
    &&& !post.is_gateway
    &&& !post.is_flagged
    &&& post.dirty
}

impl DeviceState {
    /// Create a new device state, first seen now, with a fresh identifier
    /// and no traffic counted yet.
    pub fn new(mac: MacAddr, now: u64) -> (r: Self)
        ensures
            r.mac@ == mac@,
            r.first_seen == now && r.last_seen == now,
            r.packets_sent == 0 && r.packets_received == 0,
            r.bytes_sent == 0 && r.bytes_received == 0,
            r.ips@.len() == 0 && r.vlans@.len() == 0,
            !r.is_gateway && !r.is_flagged,
            r.dirty,
    {
        Self {
            id: ids::new_uuid_u128(),
            mac,
            first_seen: now,
            last_seen: now,
            packets_sent: 0,
            packets_received: 0,
            bytes_sent: 0,
            bytes_received: 0,
            ips: Vec::new(),
            vlans: Vec::new(),
            is_gateway: false,
            is_flagged: false,
            dirty: true,
        }
    }

    /// Update device state with new packet information.
    pub fn update(&mut self, ip: Option<Ipv4Address>, vlan_id: Option<u16>, bytes: u64,
        is_source: bool, now: u64)
        requires
            device_wf(*old(self)),
        ensures
            device_updated(*old(self), *final(self), ip, vlan_id, bytes, is_source, now),
            device_wf(*final(self)),
    {
        self.last_seen = now;

        if is_source {
            self.packets_sent = sat_add(self.packets_sent, 1);
            self.bytes_sent = sat_add(self.bytes_sent, bytes);
        } else {
            self.packets_received = sat_add(self.packets_received, 1);
            self.bytes_received = sat_add(self.bytes_received, bytes);
        }

        if let Some(ip_addr) = ip {
            self.update_ip(ip_addr, vlan_id, bytes, is_source, now);
        }

        if let Some(vid) = vlan_id {
            let mut found = false;
            let mut i: usize = 0;
            while i < self.vlans.len()
                invariant
                    i <= self.vlans@.len(),
                    found <==> exists|j: int| 0 <= j < i && self.vlans@[j] == vid,
                decreases self.vlans@.len() - i,
            {
                if self.vlans[i] == vid {
                    found = true;
                }
                i = i + 1;
            }
            if !found {
                assert(!self.vlans@.contains(vid));
                self.vlans.push(vid);
            } else {
                assert(self.vlans@.contains(vid));
            }
        }

        self.dirty = true;
    }

    /// Update the per-IP state within this device.
    fn update_ip(&mut self, ip: Ipv4Address, vlan_id: Option<u16>, bytes: u64, is_source: bool,
        now: u64)
        requires
            forall|i: int, j: int| 0 <= i < j < old(self).ips@.len()
                ==> old(self).ips@[i].ip != old(self).ips@[j].ip,
        ensures
            ips_stepped(old(self).ips@, final(self).ips@, Some(ip), vlan_id, bytes, is_source,
                now),
            forall|i: int, j: int| 0 <= i < j < final(self).ips@.len()
                ==> final(self).ips@[i].ip != final(self).ips@[j].ip,
            final(self).id == old(self).id && final(self).mac == old(self).mac
                && final(self).first_seen == old(self).first_seen
                && final(self).last_seen == old(self).last_seen
                && final(self).packets_sent == old(self).packets_sent
                && final(self).packets_received == old(self).packets_received
                && final(self).bytes_sent == old(self).bytes_sent
                && final(self).bytes_received == old(self).bytes_received
                && final(self).vlans == old(self).vlans
                && final(self).is_gateway == old(self).is_gateway
                && final(self).is_flagged == old(self).is_flagged
                && final(self).dirty == old(self).dirty,
    {
        let mut idx: usize = 0;
        let mut found = false;
        while idx < self.ips.len() && !found
            invariant
                idx <= self.ips@.len(),
                found ==> idx < self.ips@.len() && self.ips@[idx as int].ip == ip,
                !found ==> forall|j: int| 0 <= j < idx ==> self.ips@[j].ip != ip,
                self == old(self),
            decreases self.ips@.len() - idx + (if found { 0int } else { 1int }),
        {
            if self.ips[idx].ip.o0 == ip.o0 && self.ips[idx].ip.o1 == ip.o1
                && self.ips[idx].ip.o2 == ip.o2 && self.ips[idx].ip.o3 == ip.o3 {
                found = true;
            } else {
                idx = idx + 1;
            }
        }

        if found {
            let entry = self.ips[idx];
            let updated = IpState {
                ip: entry.ip,
                vlan_id: entry.vlan_id,
                first_seen: entry.first_seen,
                last_seen: now,
                packets_sent: if is_source { sat_add(entry.packets_sent, 1) } else {
                    entry.packets_sent
                },
                packets_received: if is_source { entry.packets_received } else {
                    sat_add(entry.packets_received, 1)
                },
                bytes_sent: if is_source { sat_add(entry.bytes_sent, bytes) } else {
                    entry.bytes_sent
                },
                bytes_received: if is_source { entry.bytes_received } else {
                    sat_add(entry.bytes_received, bytes)
                },
            };
            self.ips.set(idx, updated);
            assert(self.ips@ =~= old(self).ips@.update(idx as int,
                spec_ip_updated(old(self).ips@[idx as int], bytes, is_source, now)));
            assert(has_ip(old(self).ips@, ip));
        } else {
            assert(!has_ip(old(self).ips@, ip));
            self.ips.push(IpState {
                ip,
                vlan_id,
                first_seen: now,
                last_seen: now,
                packets_sent: if is_source { 1 } else { 0 },
                packets_received: if is_source { 0 } else { 1 },
                bytes_sent: if is_source { bytes } else { 0 },
                bytes_received: if is_source { 0 } else { bytes },
            });
            assert(self.ips@ =~= old(self).ips@.push(spec_ip_new(ip, vlan_id, bytes, is_source,
                now)));
        }
    }

    /// Check if the device has not been seen for longer than the timeout.
    pub fn is_inactive(&self, timeout_secs: u64, now: u64) -> (r: bool)
        ensures
            r == (now > self.last_seen && now - self.last_seen > timeout_secs),
    {
        if now > self.last_seen {
            now - self.last_seen > timeout_secs
        } else {
            false
        }
    }

    /// Get the total packet count, both directions, saturating.
    pub fn total_packets(&self) -> (r: u64)
        ensures
            r == sat_add64(self.packets_sent, self.packets_received),
    {
        sat_add(self.packets_sent, self.packets_received)
    }

    /// Get the total byte count, both directions, saturating.
    pub fn total_bytes(&self) -> (r: u64)
        ensures
            r == sat_add64(self.bytes_sent, self.bytes_received),
    {
        sat_add(self.bytes_sent, self.bytes_received)
    }

    /// Get the list of IP addresses.
    pub fn ip_list(&self) -> (r: Vec<Ipv4Address>)
        ensures
            r@.len() == self.ips@.len(),
            forall|i: int| 0 <= i < r@.len() ==> r@[i] == self.ips@[i].ip,
    {
        let mut out: Vec<Ipv4Address> = Vec::new();
        let mut i: usize = 0;
        while i < self.ips.len()
            invariant
                i <= self.ips@.len(),
                out@.len() == i,
                forall|j: int| 0 <= j < i ==> out@[j] == self.ips@[j].ip,
            decreases self.ips@.len() - i,
        {
            out.push(self.ips[i].ip);
            i = i + 1;
        }
        out
    }

    /// Get the list of VLANs.
    pub fn vlan_list(&self) -> (r: Vec<u16>)
        ensures
            r@ == self.vlans@,
    {
        let mut out: Vec<u16> = Vec::new();
        let mut i: usize = 0;
        while i < self.vlans.len()
            invariant
                i <= self.vlans@.len(),
                out@ =~= self.vlans@.take(i as int),
            decreases self.vlans@.len() - i,
        {
            out.push(self.vlans[i]);
            i = i + 1;
        }
        assert(out@ =~= self.vlans@);
        out
    }

    /// Clear the dirty flag.
    pub fn clear_dirty(&mut self)
        ensures
            !final(self).dirty,
            final(self).id == old(self).id && final(self).mac == old(self).mac
                && final(self).first_seen == old(self).first_seen
                && final(self).last_seen == old(self).last_seen
                && final(self).packets_sent == old(self).packets_sent
                && final(self).packets_received == old(self).packets_received
                && final(self).bytes_sent == old(self).bytes_sent
                && final(self).bytes_received == old(self).bytes_received
                && final(self).ips == old(self).ips && final(self).vlans == old(self).vlans
                && final(self).is_gateway == old(self).is_gateway
                && final(self).is_flagged == old(self).is_flagged,
    {
        self.dirty = false;
    }

    /// Check if dirty.
    pub fn is_dirty(&self) -> (r: bool)
        ensures
            r == self.dirty,
    {
        self.dirty
    }
}

/// Device snapshot for persistence: a plain copy of the current values.
#[derive(Clone, Debug)]
pub struct DeviceSnapshot {
    pub id: u128,
    pub mac_address: String,
    pub oui_prefix: String,
    pub first_seen: u64,
    pub last_seen: u64,
    pub packets_sent: u64,
    pub packets_received: u64,
    pub bytes_sent: u64,
    pub bytes_received: u64,
    pub is_gateway: bool,
    pub is_flagged: bool,
    pub ip_addresses: Vec<IpSnapshot>,
    pub vlans: Vec<u16>,
}

/// IP address snapshot for persistence.
#[derive(Clone, Debug)]
pub struct IpSnapshot {
    pub ip_address: Ipv4Address,
    pub vlan_id: Option<u16>,
    pub first_seen: u64,
    pub last_seen: u64,
    pub packets_sent: u64,
    pub packets_received: u64,
    pub bytes_sent: u64,
    pub bytes_received: u64,
}

/// What a faithful IP snapshot holds.
pub open spec fn ip_snapshot_of(s: IpSnapshot, e: IpState) -> bool {
    &&& s.ip_address == e.ip
    &&& s.vlan_id == e.vlan_id
    &&& s.first_seen == e.first_seen
    &&& s.last_seen == e.last_seen
    &&& s.packets_sent == e.packets_sent
    &&& s.packets_received == e.packets_received
    &&& s.bytes_sent == e.bytes_sent
    &&& s.bytes_received == e.bytes_received
}

/// What a faithful device snapshot holds.
pub open spec fn device_snapshot_of(s: DeviceSnapshot, d: DeviceState) -> bool {
    &&& s.id == d.id
    &&& s.mac_address@ == mac_string_of(d.mac@)
    &&& s.oui_prefix@ == oui_string_of(d.mac@)
    &&& s.first_seen == d.first_seen
    &&& s.last_seen == d.last_seen
    &&& s.packets_sent == d.packets_sent
    &&& s.packets_received == d.packets_received
    &&& s.bytes_sent == d.bytes_sent
    &&& s.bytes_received == d.bytes_received
    &&& s.is_gateway == d.is_gateway
    &&& s.is_flagged == d.is_flagged
    &&& s.ip_addresses@.len() == d.ips@.len()
    &&& forall|i: int| 0 <= i < d.ips@.len() ==> ip_snapshot_of(#[trigger] s.ip_addresses@[i],
        d.ips@[i])
    &&& s.vlans@ == d.vlans@
}

impl DeviceState {
    /// Create a snapshot of the current counter values for persistence.
    pub fn snapshot(&self) -> (r: DeviceSnapshot)
        ensures
            device_snapshot_of(r, *self),
    {
        let mut ip_addresses: Vec<IpSnapshot> = Vec::new();
        let mut i: usize = 0;
        while i < self.ips.len()
            invariant
                i <= self.ips@.len(),
                ip_addresses@.len() == i,
                forall|j: int| 0 <= j < i ==> ip_snapshot_of(#[trigger] ip_addresses@[j],
                    self.ips@[j]),
            decreases self.ips@.len() - i,
        {
            let e = &self.ips[i];
            ip_addresses.push(IpSnapshot {
                ip_address: e.ip,
                vlan_id: e.vlan_id,
                first_seen: e.first_seen,
                last_seen: e.last_seen,
                packets_sent: e.packets_sent,
                packets_received: e.packets_received,
                bytes_sent: e.bytes_sent,
                bytes_received: e.bytes_received,
            });
            i = i + 1;
        }

        DeviceSnapshot {
            id: self.id,
            mac_address: self.mac.to_string(),
            oui_prefix: self.mac.oui_prefix(),
            first_seen: self.first_seen,
            last_seen: self.last_seen,
            packets_sent: self.packets_sent,
            packets_received: self.packets_received,
            bytes_sent: self.bytes_sent,
            bytes_received: self.bytes_received,
            is_gateway: self.is_gateway,
            is_flagged: self.is_flagged,
            ip_addresses,
            vlans: self.vlan_list(),
        }
    }
}

} // verus!
