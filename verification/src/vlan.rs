//! VLAN tag parsing (802.1Q and 802.1ad).

use vstd::prelude::*;

use crate::frame::{DecodeError, QinQInfo, VlanInfo, vlan_of_tci};
use crate::wire::{be16, read_be16};

verus! {

/// Parse a single VLAN tag (802.1Q): two TCI bytes followed by the next
/// EtherType. Returns the tag fields, the following EtherType, and the
/// number of bytes consumed.
pub fn parse_vlan(data: &[u8]) -> (r: Result<(VlanInfo, u16, usize), DecodeError>)
    ensures
        data@.len() < 4 ==> r == Err::<(VlanInfo, u16, usize), DecodeError>(
            DecodeError::Truncated),
        data@.len() >= 4 ==> (r matches Ok(t) && t.0 == vlan_of_tci(be16(data@, 0))
            && t.1 == be16(data@, 2) && t.2 == 4),
{
    if data.len() < 4 {
        return Err(DecodeError::Truncated);
    }
    let tci = read_be16(data, 0);
    let ethertype = read_be16(data, 2);
    Ok((VlanInfo::from_tci(tci), ethertype, 4))
}

/// Parse QinQ double VLAN tags (802.1ad): an outer tag whose inner TPID
/// must be 0x8100, then the inner tag and the final EtherType.
pub fn parse_qinq(data: &[u8]) -> (r: Result<(QinQInfo, u16, usize), DecodeError>)
    ensures
        data@.len() < 8 ==> r == Err::<(QinQInfo, u16, usize), DecodeError>(
            DecodeError::Truncated),
        data@.len() >= 8 && be16(data@, 2) != 0x8100 ==> r == Err::<(QinQInfo, u16, usize),
            DecodeError>(DecodeError::Malformed),
        data@.len() >= 8 && be16(data@, 2) == 0x8100 ==> (r matches Ok(t)
            && t.0 == (QinQInfo {
                outer_vlan: vlan_of_tci(be16(data@, 0)),
                inner_vlan: vlan_of_tci(be16(data@, 4)),
            }) && t.1 == be16(data@, 6) && t.2 == 8),
{
    if data.len() < 8 {
        return Err(DecodeError::Truncated);
    }
    let outer_tci = read_be16(data, 0);
    let inner_tpid = read_be16(data, 2);
    if inner_tpid != 0x8100 {
        return Err(DecodeError::Malformed);
    }
    let inner_tci = read_be16(data, 4);
    let ethertype = read_be16(data, 6);
    let qinq = QinQInfo {
        outer_vlan: VlanInfo::from_tci(outer_tci),
        inner_vlan: VlanInfo::from_tci(inner_tci),
    };
    Ok((qinq, ethertype, 8))
}

/// The descriptive name of a VLAN priority code point.
pub open spec fn spec_priority_name(priority: u8) -> Seq<char> {
    match priority {
        0u8 => "Best Effort (BE)"@,
        1u8 => "Background (BK)"@,
        2u8 => "Excellent Effort (EE)"@,
        3u8 => "Critical Applications (CA)"@,
        4u8 => "Video (VI)"@,
        5u8 => "Voice (VO)"@,
        6u8 => "Internetwork Control (IC)"@,
        7u8 => "Network Control (NC)"@,
        _ => "Unknown"@,
    }
}

/// Get the descriptive name of a VLAN priority code point.
pub fn priority_name(priority: u8) -> (r: &'static str)
    ensures
        r@ == spec_priority_name(priority),
{
    match priority {
        0 => "Best Effort (BE)",
        1 => "Background (BK)",
        2 => "Excellent Effort (EE)",
        3 => "Critical Applications (CA)",
        4 => "Video (VI)",
        5 => "Voice (VO)",
        6 => "Internetwork Control (IC)",
        7 => "Network Control (NC)",
        _ => "Unknown",
    }
}

} // verus!
