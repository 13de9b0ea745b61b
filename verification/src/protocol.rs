//! Protocol statistics.

use vstd::prelude::*;

use crate::counters::{sat_add, sat_add64};

verus! {

/// Protocol statistics. Timestamps are Unix seconds.
#[derive(Clone, Copy, Debug)]
pub struct ProtocolStats {
    /// EtherType (e.g. 0x0800 for IPv4).
    pub ethertype: u16,
    /// IP protocol number (if applicable).
    pub ip_protocol: Option<u8>,
    /// First seen timestamp.
    pub first_seen: u64,
    /// Last seen timestamp.
    pub last_seen: u64,
    /// Total packet count.
    pub packet_count: u64,
    /// Total byte count.
    pub byte_count: u64,
}

/// The statistics entry after one more observation.
pub open spec fn spec_protocol_updated(s: ProtocolStats, bytes: u64, now: u64) -> ProtocolStats {
    ProtocolStats {
        ethertype: s.ethertype,
        ip_protocol: s.ip_protocol,
        first_seen: s.first_seen,
        last_seen: now,
        packet_count: sat_add64(s.packet_count, 1),
        byte_count: sat_add64(s.byte_count, bytes),
    }
}

impl ProtocolStats {
    /// Create new protocol statistics, first seen now, nothing counted yet.
    pub fn new(ethertype: u16, ip_protocol: Option<u8>, now: u64) -> (r: Self)
        ensures
            r == (ProtocolStats {
                ethertype,
                ip_protocol,
                first_seen: now,
                last_seen: now,
                packet_count: 0u64,
                byte_count: 0u64,
            }),
    {
        Self {
            ethertype,
            ip_protocol,
            first_seen: now,
            last_seen: now,
            packet_count: 0,
            byte_count: 0,
        }
    }

    /// Update statistics with one more packet.
    pub fn update(&mut self, bytes: u64, now: u64)
        ensures
            *final(self) == spec_protocol_updated(*old(self), bytes, now),
    {
        self.packet_count = sat_add(self.packet_count, 1);
        self.byte_count = sat_add(self.byte_count, bytes);
        self.last_seen = now;
    }

    /// The display name of the protocol combination.
    pub open spec fn spec_name(&self) -> Seq<char> {
        if self.ethertype == 0x0800 {
            match self.ip_protocol {
                Some(1u8) => "ICMP"@,
                Some(2u8) => "IGMP"@,
                Some(6u8) => "TCP"@,
                Some(17u8) => "UDP"@,
                Some(47u8) => "GRE"@,
                Some(50u8) => "ESP"@,
                Some(51u8) => "AH"@,
                Some(89u8) => "OSPF"@,
                Some(132u8) => "SCTP"@,
                Some(_) => "IPv4/Other"@,
                None => "IPv4"@,
            }
        } else if self.ethertype == 0x0806 {
            "ARP"@
        } else if self.ethertype == 0x8100 {
            "VLAN"@
        } else if self.ethertype == 0x86DD {
            "IPv6"@
        } else if self.ethertype == 0x8847 {
            "MPLS"@
        } else if self.ethertype == 0x88A8 {
            "QinQ"@
        } else if self.ethertype == 0x88CC {
            "LLDP"@
        } else if self.ethertype == 0x8906 {
            "FCoE"@
        } else {
            "Unknown"@
        }
    }

    /// Get the display name of the protocol combination.
    pub fn name(&self) -> (r: &'static str)
        ensures
            r@ == self.spec_name(),
    {
        if self.ethertype == 0x0800 {
            match self.ip_protocol {
                Some(1) => "ICMP",
                Some(2) => "IGMP",
                Some(6) => "TCP",
                Some(17) => "UDP",
                Some(47) => "GRE",
                Some(50) => "ESP",
                Some(51) => "AH",
                Some(89) => "OSPF",
                Some(132) => "SCTP",
                Some(_) => "IPv4/Other",
                None => "IPv4",
            }
        } else if self.ethertype == 0x0806 {
            "ARP"
        } else if self.ethertype == 0x8100 {
            "VLAN"
        } else if self.ethertype == 0x86DD {
            "IPv6"
        } else if self.ethertype == 0x8847 {
            "MPLS"
        } else if self.ethertype == 0x88A8 {
            "QinQ"
        } else if self.ethertype == 0x88CC {
            "LLDP"
        } else if self.ethertype == 0x8906 {
            "FCoE"
        } else {
            "Unknown"
        }
    }
}

/// Protocol statistics snapshot for reporting.
#[derive(Clone, Debug)]
pub struct ProtocolSnapshot {
    pub ethertype: u16,
    pub ip_protocol: Option<u8>,
    pub protocol_name: String,
    pub first_seen: u64,
    pub last_seen: u64,
    pub packet_count: u64,
    pub byte_count: u64,
}

impl ProtocolStats {
    /// Create a snapshot of the current values for reporting.
    pub fn snapshot(&self) -> (r: ProtocolSnapshot)
        ensures
            r.ethertype == self.ethertype,
            r.ip_protocol == self.ip_protocol,
            r.protocol_name@ == self.spec_name(),
            r.first_seen == self.first_seen,
            r.last_seen == self.last_seen,
            r.packet_count == self.packet_count,
            r.byte_count == self.byte_count,
    {
        ProtocolSnapshot {
            ethertype: self.ethertype,
            ip_protocol: self.ip_protocol,
            protocol_name: self.name().to_owned(),
            first_seen: self.first_seen,
            last_seen: self.last_seen,
            packet_count: self.packet_count,
            byte_count: self.byte_count,
        }
    }
}

} // verus!
