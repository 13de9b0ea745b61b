//! Frame data structures for captured network packets.

use vstd::prelude::*;

use crate::clock;

verus! {

/// The character for a hex digit value, lower case.
pub open spec fn hex_char_lower(n: int) -> char {
    if n == 0 { '0' } else if n == 1 { '1' } else if n == 2 { '2' } else if n == 3 { '3' }
    else if n == 4 { '4' } else if n == 5 { '5' } else if n == 6 { '6' } else if n == 7 { '7' }
    else if n == 8 { '8' } else if n == 9 { '9' } else if n == 10 { 'a' } else if n == 11 { 'b' }
    else if n == 12 { 'c' } else if n == 13 { 'd' } else if n == 14 { 'e' } else { 'f' }
}

/// The character for a hex digit value, upper case.
pub open spec fn hex_char_upper(n: int) -> char {
    if n == 0 { '0' } else if n == 1 { '1' } else if n == 2 { '2' } else if n == 3 { '3' }
    else if n == 4 { '4' } else if n == 5 { '5' } else if n == 6 { '6' } else if n == 7 { '7' }
    else if n == 8 { '8' } else if n == 9 { '9' } else if n == 10 { 'A' } else if n == 11 { 'B' }
    else if n == 12 { 'C' } else if n == 13 { 'D' } else if n == 14 { 'E' } else { 'F' }
}

/// The value of a hex digit character, either case; `None` for any other character.
pub open spec fn spec_hex_val(c: char) -> Option<u8> {
    match c {
        '0' => Some(0u8), '1' => Some(1u8), '2' => Some(2u8), '3' => Some(3u8),
        '4' => Some(4u8), '5' => Some(5u8), '6' => Some(6u8), '7' => Some(7u8),
        '8' => Some(8u8), '9' => Some(9u8),
        'a' => Some(10u8), 'b' => Some(11u8), 'c' => Some(12u8),
        'd' => Some(13u8), 'e' => Some(14u8), 'f' => Some(15u8),
        'A' => Some(10u8), 'B' => Some(11u8), 'C' => Some(12u8),
        'D' => Some(13u8), 'E' => Some(14u8), 'F' => Some(15u8),
        _ => None,
    }
}

/// The canonical textual form of a MAC address: six lower-case hex byte
/// groups separated by colons.
pub open spec fn mac_string_of(m: Seq<u8>) -> Seq<char> {
    seq![
        hex_char_lower((m[0] >> 4) as int), hex_char_lower((m[0] & 0xf) as int), ':',
        hex_char_lower((m[1] >> 4) as int), hex_char_lower((m[1] & 0xf) as int), ':',
        hex_char_lower((m[2] >> 4) as int), hex_char_lower((m[2] & 0xf) as int), ':',
        hex_char_lower((m[3] >> 4) as int), hex_char_lower((m[3] & 0xf) as int), ':',
        hex_char_lower((m[4] >> 4) as int), hex_char_lower((m[4] & 0xf) as int), ':',
        hex_char_lower((m[5] >> 4) as int), hex_char_lower((m[5] & 0xf) as int),
    ]
}

/// The OUI prefix string: the first three bytes, upper-case hex, colon separated.
pub open spec fn oui_string_of(m: Seq<u8>) -> Seq<char> {
    seq![
        hex_char_upper((m[0] >> 4) as int), hex_char_upper((m[0] & 0xf) as int), ':',
        hex_char_upper((m[1] >> 4) as int), hex_char_upper((m[1] & 0xf) as int), ':',
        hex_char_upper((m[2] >> 4) as int), hex_char_upper((m[2] & 0xf) as int),
    ]
}

/// Whether a character sequence is a well-formed canonical MAC string:
/// length 17, colons at the separator positions, hex digits elsewhere.
pub open spec fn mac_parse_ok(s: Seq<char>) -> bool {
    &&& s.len() == 17
    &&& s[2] == ':' && s[5] == ':' && s[8] == ':' && s[11] == ':' && s[14] == ':'
    &&& forall|i: int| 0 <= i < 6 ==> spec_hex_val(#[trigger] s[3 * i]) is Some
        && spec_hex_val(s[3 * i + 1]) is Some
}

/// The bytes denoted by a well-formed canonical MAC string.
pub open spec fn mac_parse_bytes(s: Seq<char>) -> Seq<u8> {
    Seq::new(6, |i: int| (spec_hex_val(s[3 * i]).unwrap() * 16
        + spec_hex_val(s[3 * i + 1]).unwrap()) as u8)
}

fn hex_str_lower(n: u8) -> (r: &'static str)
    requires
        n < 16,
    ensures
        r@ =~= seq![hex_char_lower(n as int)],
{
    proof {
        reveal_strlit("0"); reveal_strlit("1"); reveal_strlit("2"); reveal_strlit("3");
        reveal_strlit("4"); reveal_strlit("5"); reveal_strlit("6"); reveal_strlit("7");
        reveal_strlit("8"); reveal_strlit("9"); reveal_strlit("a"); reveal_strlit("b");
        reveal_strlit("c"); reveal_strlit("d"); reveal_strlit("e"); reveal_strlit("f");
    }
    match n {
        0 => "0", 1 => "1", 2 => "2", 3 => "3",
        4 => "4", 5 => "5", 6 => "6", 7 => "7",
        8 => "8", 9 => "9", 10 => "a", 11 => "b",
        12 => "c", 13 => "d", 14 => "e", _ => "f",
    }
}

fn hex_str_upper(n: u8) -> (r: &'static str)
    requires
        n < 16,
    ensures
        r@ =~= seq![hex_char_upper(n as int)],
{
    proof {
        reveal_strlit("0"); reveal_strlit("1"); reveal_strlit("2"); reveal_strlit("3");
        reveal_strlit("4"); reveal_strlit("5"); reveal_strlit("6"); reveal_strlit("7");
        reveal_strlit("8"); reveal_strlit("9"); reveal_strlit("A"); reveal_strlit("B");
        reveal_strlit("C"); reveal_strlit("D"); reveal_strlit("E"); reveal_strlit("F");
    }
    match n {
        0 => "0", 1 => "1", 2 => "2", 3 => "3",
        4 => "4", 5 => "5", 6 => "6", 7 => "7",
        8 => "8", 9 => "9", 10 => "A", 11 => "B",
        12 => "C", 13 => "D", 14 => "E", _ => "F",
    }
}

/// Parse one hex digit character, either case.
fn hex_val(c: char) -> (r: Option<u8>)
    ensures
        r == spec_hex_val(c),
        r matches Some(v) ==> v < 16,
{
    match c {
        '0' => Some(0), '1' => Some(1), '2' => Some(2), '3' => Some(3),
        '4' => Some(4), '5' => Some(5), '6' => Some(6), '7' => Some(7),
        '8' => Some(8), '9' => Some(9),
        'a' => Some(10), 'b' => Some(11), 'c' => Some(12),
        'd' => Some(13), 'e' => Some(14), 'f' => Some(15),
        'A' => Some(10), 'B' => Some(11), 'C' => Some(12),
        'D' => Some(13), 'E' => Some(14), 'F' => Some(15),
        _ => None,
    }
}

/// MAC address (6 bytes).
#[derive(Clone, Copy, Debug, PartialEq, Eq)]
pub struct MacAddr {
    bytes: [u8; 6],
}

impl View for MacAddr {
    type V = Seq<u8>;

    closed spec fn view(&self) -> Seq<u8> {
        self.bytes@
    }
}

impl MacAddr {
    /// Create a new MAC address from bytes.
    pub fn new(bytes: [u8; 6]) -> (r: Self)
        ensures
            r@ == bytes@,
    {
        Self { bytes }
    }

    /// Create from a slice (must be exactly 6 bytes).
    pub fn from_slice(slice: &[u8]) -> (r: Option<Self>)
        ensures
            slice@.len() == 6 ==> (r matches Some(m) && m@ == slice@),
            slice@.len() != 6 ==> r is None,
    {
        if slice.len() == 6 {
            let bytes: [u8; 6] = [slice[0], slice[1], slice[2], slice[3], slice[4], slice[5]];
            assert(bytes@ =~= slice@);
            Some(Self { bytes })
        } else {
            None
        }
    }

    /// Parse a MAC address from its canonical textual form,
    /// `xx:xx:xx:xx:xx:xx` with two hex digits (either case) per group.
    pub fn from_string(s: &str) -> (r: Option<Self>)
        ensures
            r is Some <==> mac_parse_ok(s@),
            r matches Some(m) ==> m@ == mac_parse_bytes(s@),
    {
        if s.unicode_len() != 17 {
            assert(!mac_parse_ok(s@));
            return None;
        }
        if s.get_char(2) != ':' || s.get_char(5) != ':' || s.get_char(8) != ':'
            || s.get_char(11) != ':' || s.get_char(14) != ':' {
            return None;
        }
        let mut bytes: [u8; 6] = [0, 0, 0, 0, 0, 0];
        let mut i: usize = 0;
        while i < 6
            invariant
                i <= 6,
                s@.len() == 17,
                forall|j: int| 0 <= j < i ==> spec_hex_val(#[trigger] s@[3 * j]) is Some
                    && spec_hex_val(s@[3 * j + 1]) is Some,
                forall|j: int| 0 <= j < i ==> #[trigger] bytes@[j]
                    == (spec_hex_val(s@[3 * j]).unwrap() * 16
                        + spec_hex_val(s@[3 * j + 1]).unwrap()) as u8,
            decreases 6 - i,
        {
            let hi = match hex_val(s.get_char(3 * i)) {
                Some(v) => v,
                None => {
                    assert(!mac_parse_ok(s@));
                    return None;
                },
            };
            let lo = match hex_val(s.get_char(3 * i + 1)) {
                Some(v) => v,
                None => {
                    assert(!mac_parse_ok(s@));
                    return None;
                },
            };
            bytes[i] = hi * 16 + lo;
            i = i + 1;
        }
        assert(mac_parse_ok(s@));
        assert(bytes@ =~= mac_parse_bytes(s@));
        Some(Self { bytes })
    }

    /// Get the raw bytes.
    pub fn as_bytes(&self) -> (r: &[u8; 6])
        ensures
            r@ == self@,
    {
        &self.bytes
    }

    /// The canonical textual form: lower-case hex, colon separated.
    pub fn to_string(&self) -> (r: String)
        ensures
            r@ == mac_string_of(self@),
    {
        let mut s = String::new();
        let mut i: usize = 0;
        while i < 6
            invariant
                i <= 6,
                s@ =~= mac_string_of(self@).take(if i == 0 { 0int } else { 3 * i - 1 }),
            decreases 6 - i,
        {
            if i > 0 {
                s.append(":");
                proof {
                    reveal_strlit(":");
                }
            }
            let b = self.bytes[i];
            assert(b >> 4 < 16 && b & 0xf < 16) by (bit_vector);
            s.append(hex_str_lower(b >> 4));
            s.append(hex_str_lower(b & 0xf));
            i = i + 1;
            assert(s@ =~= mac_string_of(self@).take(3 * i - 1));
        }
        assert(s@ =~= mac_string_of(self@));
        s
    }

    /// Check if this is a broadcast address.
    pub fn is_broadcast(&self) -> (r: bool)
        ensures
            r == (self@ =~= seq![0xffu8, 0xff, 0xff, 0xff, 0xff, 0xff]),
    {
        let r = self.bytes[0] == 0xff && self.bytes[1] == 0xff && self.bytes[2] == 0xff
            && self.bytes[3] == 0xff && self.bytes[4] == 0xff && self.bytes[5] == 0xff;
        assert(r == (self@ =~= seq![0xffu8, 0xff, 0xff, 0xff, 0xff, 0xff]));
        r
    }

    /// Check if this is a multicast address (bit 0 of first byte is 1).
    pub fn is_multicast(&self) -> (r: bool)
        ensures
            r == (self@[0] & 0x01 == 0x01),
    {
        self.bytes[0] & 0x01 == 0x01
    }

    /// Check if this is a locally administered address.
    pub fn is_local(&self) -> (r: bool)
        ensures
            r == (self@[0] & 0x02 == 0x02),
    {
        self.bytes[0] & 0x02 == 0x02
    }

    /// Get the OUI prefix as a string (`XX:XX:XX`).
    pub fn oui_prefix(&self) -> (r: String)
        ensures
            r@ == oui_string_of(self@),
    {
        let mut s = String::new();
        proof {
            reveal_strlit(":");
        }
        let b0 = self.bytes[0];
        let b1 = self.bytes[1];
        let b2 = self.bytes[2];
        assert(b0 >> 4 < 16 && b0 & 0xf < 16) by (bit_vector);
        assert(b1 >> 4 < 16 && b1 & 0xf < 16) by (bit_vector);
        assert(b2 >> 4 < 16 && b2 & 0xf < 16) by (bit_vector);
        s.append(hex_str_upper(b0 >> 4));
        s.append(hex_str_upper(b0 & 0xf));
        s.append(":");
        s.append(hex_str_upper(b1 >> 4));
        s.append(hex_str_upper(b1 & 0xf));
        s.append(":");
        s.append(hex_str_upper(b2 >> 4));
        s.append(hex_str_upper(b2 & 0xf));
        assert(s@ =~= oui_string_of(self@));
        s
    }

    /// Get the OUI prefix as bytes.
    pub fn oui_bytes(&self) -> (r: [u8; 3])
        ensures
            r@ =~= self@.take(3),
    {
        [self.bytes[0], self.bytes[1], self.bytes[2]]
    }

    /// Compare two MAC addresses for byte equality.
    pub fn same_as(&self, other: &MacAddr) -> (r: bool)
        ensures
            r == (self@ =~= other@),
    {
        let r = self.bytes[0] == other.bytes[0] && self.bytes[1] == other.bytes[1]
            && self.bytes[2] == other.bytes[2] && self.bytes[3] == other.bytes[3]
            && self.bytes[4] == other.bytes[4] && self.bytes[5] == other.bytes[5];
        assert(r == (self@ =~= other@));
        r
    }
}

/// A MAC address value always views as exactly six bytes.
pub proof fn lemma_mac_view_len(m: MacAddr)
    ensures
        m@.len() == 6,
{
}

proof fn lemma_hex_char_val(n: int)
    requires
        0 <= n < 16,
    ensures
        spec_hex_val(hex_char_lower(n)) == Some(n as u8),
{
}

/// Round trip between a MAC address and its canonical textual form: printing
/// then parsing gives back the same bytes.
#[verifier::rlimit(100)]
pub proof fn lemma_mac_string_round_trip(m: Seq<u8>)
    requires
        m.len() == 6,
    ensures
        mac_parse_ok(mac_string_of(m)),
        mac_parse_bytes(mac_string_of(m)) =~= m,
{
    let s = mac_string_of(m);
    assert forall|i: int| 0 <= i < 6 implies spec_hex_val(#[trigger] s[3 * i]) is Some
        && spec_hex_val(s[3 * i + 1]) is Some by {
        let b = m[i];
        assert(b >> 4 < 16 && b & 0xf < 16) by (bit_vector);
    }
    assert forall|i: int| 0 <= i < 6 implies #[trigger] mac_parse_bytes(s)[i] == m[i] by {
        let b = m[i];
        assert(b >> 4 < 16 && b & 0xf < 16) by (bit_vector);
        lemma_hex_char_val((b >> 4) as int);
        lemma_hex_char_val((b & 0xf) as int);
        assert(((b >> 4) * 16 + (b & 0xf)) as u8 == b) by (bit_vector);
    }
}

/// VLAN information (802.1Q).
#[derive(Clone, Copy, Debug, PartialEq, Eq, Structural)]
pub struct VlanInfo {
    /// VLAN ID (12 bits, 0-4095).
    pub id: u16,
    /// Priority Code Point (3 bits, 0-7).
    pub priority: u8,
    /// Drop Eligible Indicator.
    pub dei: bool,
}

/// The VLAN tag fields denoted by a TCI value.
pub open spec fn vlan_of_tci(tci: u16) -> VlanInfo {
    VlanInfo {
        id: tci & 0x0FFF,
        priority: ((tci >> 13) & 0x07) as u8,
        dei: (tci >> 12) & 0x01 == 1,
    }
}

/// The TCI value denoted by VLAN tag fields.
pub open spec fn tci_of_vlan(v: VlanInfo) -> u16 {
    (((v.priority & 0x07) as u16) << 13) | (if v.dei { 0x1000u16 } else { 0u16 })
        | (v.id & 0x0FFF)
}

impl VlanInfo {
    /// Parse VLAN tag fields from the 16-bit TCI field.
    pub fn from_tci(tci: u16) -> (r: Self)
        ensures
            r == vlan_of_tci(tci),
    {
        Self {
            id: tci & 0x0FFF,
            priority: ((tci >> 13) & 0x07) as u8,
            dei: (tci >> 12) & 0x01 == 1,
        }
    }

    /// Reconstruct the TCI field from the tag fields.
    pub fn to_tci(&self) -> (r: u16)
        ensures
            r == tci_of_vlan(*self),
    {
        (((self.priority & 0x07) as u16) << 13u16) | (if self.dei { 0x1000u16 } else { 0u16 })
            | (self.id & 0x0FFF)
    }
}

/// Round trip between a TCI and its VLAN tag fields: splitting a TCI into
/// id, priority and DEI and reassembling them yields the original TCI.
pub proof fn lemma_vlan_tci_round_trip(tci: u16)
    ensures
        tci_of_vlan(vlan_of_tci(tci)) == tci,
{
    let p = ((tci >> 13) & 0x07) as u8;
    let d = (tci >> 12) & 0x01 == 1;
    let i = tci & 0x0FFF;
    assert((((p & 0x07) as u16) << 13) | (if d { 0x1000u16 } else { 0u16 }) | (i & 0x0FFF)
        == tci) by (bit_vector)
        requires
            p == ((tci >> 13) & 0x07) as u8,
            d == ((tci >> 12) & 0x01 == 1),
            i == tci & 0x0FFF,
    ;
}

/// QinQ (802.1ad) double VLAN tagging information.
#[derive(Clone, Copy, Debug, PartialEq, Eq, Structural)]
pub struct QinQInfo {
    /// Outer VLAN (S-VLAN / service VLAN).
    pub outer_vlan: VlanInfo,
    /// Inner VLAN (C-VLAN / customer VLAN).
    pub inner_vlan: VlanInfo,
}

/// TCP flags.
#[derive(Clone, Copy, Debug, PartialEq, Eq, Structural)]
pub struct TcpFlags {
    pub fin: bool,
    pub syn: bool,
    pub rst: bool,
    pub psh: bool,
    pub ack: bool,
    pub urg: bool,
    pub ece: bool,
    pub cwr: bool,
}

/// The TCP flags denoted by a flag byte.
pub open spec fn flags_of_byte(b: u8) -> TcpFlags {
    TcpFlags {
        fin: b & 0x01 != 0,
        syn: b & 0x02 != 0,
        rst: b & 0x04 != 0,
        psh: b & 0x08 != 0,
        ack: b & 0x10 != 0,
        urg: b & 0x20 != 0,
        ece: b & 0x40 != 0,
        cwr: b & 0x80 != 0,
    }
}

/// The flag byte denoted by TCP flags.
pub open spec fn byte_of_flags(f: TcpFlags) -> u8 {
    ((if f.fin { 0x01u8 } else { 0u8 }) + (if f.syn { 0x02u8 } else { 0u8 })
        + (if f.rst { 0x04u8 } else { 0u8 }) + (if f.psh { 0x08u8 } else { 0u8 })
        + (if f.ack { 0x10u8 } else { 0u8 }) + (if f.urg { 0x20u8 } else { 0u8 })
        + (if f.ece { 0x40u8 } else { 0u8 }) + (if f.cwr { 0x80u8 } else { 0u8 })) as u8
}

impl TcpFlags {
    /// Parse TCP flags from the flags byte.
    pub fn from_byte(flags: u8) -> (r: Self)
        ensures
            r == flags_of_byte(flags),
    {
        Self {
            fin: flags & 0x01 != 0,
            syn: flags & 0x02 != 0,
            rst: flags & 0x04 != 0,
            psh: flags & 0x08 != 0,
            ack: flags & 0x10 != 0,
            urg: flags & 0x20 != 0,
            ece: flags & 0x40 != 0,
            cwr: flags & 0x80 != 0,
        }
    }

    /// Convert flags back to a byte.
    pub fn to_byte(&self) -> (r: u8)
        ensures
            r == byte_of_flags(*self),
    {
        let mut flags: u8 = 0;
        if self.fin { flags = flags + 0x01; }
        if self.syn { flags = flags + 0x02; }
        if self.rst { flags = flags + 0x04; }
        if self.psh { flags = flags + 0x08; }
        if self.ack { flags = flags + 0x10; }
        if self.urg { flags = flags + 0x20; }
        if self.ece { flags = flags + 0x40; }
        if self.cwr { flags = flags + 0x80; }
        flags
    }

    /// Check if this is a SYN-only packet (connection initiation).
    pub fn is_syn_only(&self) -> (r: bool)
        ensures
            r == (self.syn && !self.ack),
    {
        self.syn && !self.ack
    }

    /// Check if this is a SYN-ACK packet.
    pub fn is_syn_ack(&self) -> (r: bool)
        ensures
            r == (self.syn && self.ack),
    {
        self.syn && self.ack
    }
}

/// Round trip in the other direction: turning TCP flags into a byte and
/// splitting it again yields the same flags.
pub proof fn lemma_flags_byte_inverse(f: TcpFlags)
    ensures
        flags_of_byte(byte_of_flags(f)) == f,
{
    let x1: u8 = if f.fin { 1 } else { 0 };
    let x2: u8 = if f.syn { 1 } else { 0 };
    let x3: u8 = if f.rst { 1 } else { 0 };
    let x4: u8 = if f.psh { 1 } else { 0 };
    let x5: u8 = if f.ack { 1 } else { 0 };
    let x6: u8 = if f.urg { 1 } else { 0 };
    let x7: u8 = if f.ece { 1 } else { 0 };
    let x8: u8 = if f.cwr { 1 } else { 0 };
    let b = byte_of_flags(f);
    assert(b == (x1 + 2 * x2 + 4 * x3 + 8 * x4 + 16 * x5 + 32 * x6 + 64 * x7 + 128 * x8) as u8);
    assert((((x1 + 2 * x2 + 4 * x3 + 8 * x4 + 16 * x5 + 32 * x6 + 64 * x7 + 128 * x8) as u8)
        & 0x01 != 0) == (x1 == 1)
        && (((x1 + 2 * x2 + 4 * x3 + 8 * x4 + 16 * x5 + 32 * x6 + 64 * x7 + 128 * x8) as u8)
            & 0x02 != 0) == (x2 == 1)
        && (((x1 + 2 * x2 + 4 * x3 + 8 * x4 + 16 * x5 + 32 * x6 + 64 * x7 + 128 * x8) as u8)
            & 0x04 != 0) == (x3 == 1)
        && (((x1 + 2 * x2 + 4 * x3 + 8 * x4 + 16 * x5 + 32 * x6 + 64 * x7 + 128 * x8) as u8)
            & 0x08 != 0) == (x4 == 1)
        && (((x1 + 2 * x2 + 4 * x3 + 8 * x4 + 16 * x5 + 32 * x6 + 64 * x7 + 128 * x8) as u8)
            & 0x10 != 0) == (x5 == 1)
        && (((x1 + 2 * x2 + 4 * x3 + 8 * x4 + 16 * x5 + 32 * x6 + 64 * x7 + 128 * x8) as u8)
            & 0x20 != 0) == (x6 == 1)
        && (((x1 + 2 * x2 + 4 * x3 + 8 * x4 + 16 * x5 + 32 * x6 + 64 * x7 + 128 * x8) as u8)
            & 0x40 != 0) == (x7 == 1)
        && (((x1 + 2 * x2 + 4 * x3 + 8 * x4 + 16 * x5 + 32 * x6 + 64 * x7 + 128 * x8) as u8)
            & 0x80 != 0) == (x8 == 1)) by (bit_vector)
        requires
            x1 <= 1 && x2 <= 1 && x3 <= 1 && x4 <= 1 && x5 <= 1 && x6 <= 1 && x7 <= 1
                && x8 <= 1,
    ;
}

/// Round trip between a flag byte and its TCP flags: splitting a byte into
/// flags and reassembling them yields the original byte.
pub proof fn lemma_tcp_flags_round_trip(b: u8)
    ensures
        byte_of_flags(flags_of_byte(b)) == b,
{
    assert(((if b & 0x01 != 0 { 0x01u8 } else { 0u8 }) + (if b & 0x02 != 0 { 0x02u8 } else { 0u8 })
        + (if b & 0x04 != 0 { 0x04u8 } else { 0u8 }) + (if b & 0x08 != 0 { 0x08u8 } else { 0u8 })
        + (if b & 0x10 != 0 { 0x10u8 } else { 0u8 }) + (if b & 0x20 != 0 { 0x20u8 } else { 0u8 })
        + (if b & 0x40 != 0 { 0x40u8 } else { 0u8 }) + (if b & 0x80 != 0 { 0x80u8 } else { 0u8 }))
        as u8 == b) by (bit_vector);
}

/// An IPv4 address held as its four octets, most significant first.
#[derive(Clone, Copy, Debug, PartialEq, Eq, Structural)]
pub struct Ipv4Address {
    pub o0: u8,
    pub o1: u8,
    pub o2: u8,
    pub o3: u8,
}

impl Ipv4Address {
    /// Create an address from its four dotted-quad components.
    pub fn new(o0: u8, o1: u8, o2: u8, o3: u8) -> (r: Self)
        ensures
            r == (Ipv4Address { o0, o1, o2, o3 }),
    {
        Self { o0, o1, o2, o3 }
    }

    /// The four octets.
    pub fn octets(&self) -> (r: [u8; 4])
        ensures
            r@ =~= seq![self.o0, self.o1, self.o2, self.o3],
    {
        [self.o0, self.o1, self.o2, self.o3]
    }
}

/// Frame decoding failures.
#[derive(Clone, Copy, Debug, PartialEq, Eq, Structural)]
pub enum DecodeError {
    /// The buffer ends before a required header does.
    Truncated,
    /// A header carries a value its layout forbids.
    Malformed,
}

/// Captured frame with all parsed information.
#[derive(Clone, Debug, PartialEq)]
pub struct CapturedFrame {
    /// Capture timestamp, microseconds since the Unix epoch.
    pub timestamp_micros: i64,
    /// Interface name where the frame was captured.
    pub interface: String,
    /// Source MAC address.
    pub src_mac: MacAddr,
    /// Destination MAC address.
    pub dst_mac: MacAddr,
    /// Final (innermost, post-VLAN) EtherType.
    pub ethertype: u16,
    /// VLAN information (if 802.1Q tagged).
    pub vlan: Option<VlanInfo>,
    /// QinQ information (if 802.1ad double-tagged).
    pub qinq: Option<QinQInfo>,
    /// Source IP address (IPv4).
    pub src_ip: Option<Ipv4Address>,
    /// Destination IP address (IPv4).
    pub dst_ip: Option<Ipv4Address>,
    /// IP protocol number (6 = TCP, 17 = UDP, 1 = ICMP, ...).
    pub ip_protocol: Option<u8>,
    /// Time To Live.
    pub ttl: Option<u8>,
    /// Source port (TCP/UDP).
    pub src_port: Option<u16>,
    /// Destination port (TCP/UDP).
    pub dst_port: Option<u16>,
    /// TCP flags (if TCP).
    pub tcp_flags: Option<TcpFlags>,
    /// Total frame size in bytes.
    pub frame_size: u32,
    /// Payload size (after headers).
    pub payload_size: u32,
}

/// The effective VLAN id of a frame: the inner id under QinQ, else the
/// single tag's id, else absent.
pub open spec fn spec_vlan_id(f: &CapturedFrame) -> Option<u16> {
    if f.qinq is Some {
        Some(f.qinq->0.inner_vlan.id)
    } else if f.vlan is Some {
        Some(f.vlan->0.id)
    } else {
        None
    }
}

impl CapturedFrame {
    /// Layer consistency of a record: a QinQ frame carries no single tag,
    /// the L3 fields are all-or-nothing, and L4 fields only come with an
    /// L3 protocol that has them.
    pub open spec fn wf(&self) -> bool {
        &&& self.qinq is Some ==> self.vlan is None
        &&& self.src_ip is Some <==> self.ip_protocol is Some
        &&& self.dst_ip is Some <==> self.ip_protocol is Some
        &&& self.ttl is Some <==> self.ip_protocol is Some
        &&& self.src_port is Some <==> self.dst_port is Some
        &&& self.src_port is Some ==> (self.ip_protocol matches Some(p) && (p == 6 || p == 17))
        &&& self.tcp_flags is Some ==> self.ip_protocol == Some(6u8) && self.src_port is Some
    }

    /// Create a new frame with basic info; the capture timestamp is taken
    /// from the wall clock, and all optional layers start absent.
    pub fn new(interface: &str, src_mac: MacAddr, dst_mac: MacAddr, ethertype: u16,
        frame_size: u32) -> (r: Self)
        ensures
            r.interface@ == interface@,
            r.src_mac == src_mac,
            r.dst_mac == dst_mac,
            r.ethertype == ethertype,
            r.frame_size == frame_size,
            r.vlan is None && r.qinq is None,
            r.src_ip is None && r.dst_ip is None && r.ip_protocol is None && r.ttl is None,
            r.src_port is None && r.dst_port is None && r.tcp_flags is None,
            r.payload_size == 0,
            r.wf(),
    {
        Self {
            timestamp_micros: clock::now_micros(),
            interface: interface.to_owned(),
            src_mac,
            dst_mac,
            ethertype,
            vlan: None,
            qinq: None,
            src_ip: None,
            dst_ip: None,
            ip_protocol: None,
            ttl: None,
            src_port: None,
            dst_port: None,
            tcp_flags: None,
            frame_size,
            payload_size: 0,
        }
    }

    /// Check if this frame is IPv4.
    pub fn is_ipv4(&self) -> (r: bool)
        ensures
            r == (self.ethertype == 0x0800),
    {
        self.ethertype == 0x0800
    }

    /// Check if this frame is ARP.
    pub fn is_arp(&self) -> (r: bool)
        ensures
            r == (self.ethertype == 0x0806),
    {
        self.ethertype == 0x0806
    }

    /// Check if this frame is IPv6.
    pub fn is_ipv6(&self) -> (r: bool)
        ensures
            r == (self.ethertype == 0x86DD),
    {
        self.ethertype == 0x86DD
    }

    /// Check if this frame is TCP.
    pub fn is_tcp(&self) -> (r: bool)
        ensures
            r == (self.ip_protocol == Some(6u8)),
    {
        match self.ip_protocol {
            Some(p) => p == 6,
            None => false,
        }
    }

    /// Check if this frame is UDP.
    pub fn is_udp(&self) -> (r: bool)
        ensures
            r == (self.ip_protocol == Some(17u8)),
    {
        match self.ip_protocol {
            Some(p) => p == 17,
            None => false,
        }
    }

    /// Check if this frame is ICMP.
    pub fn is_icmp(&self) -> (r: bool)
        ensures
            r == (self.ip_protocol == Some(1u8)),
    {
        match self.ip_protocol {
            Some(p) => p == 1,
            None => false,
        }
    }

    /// Get the effective VLAN ID (inner VLAN if QinQ).
    pub fn vlan_id(&self) -> (r: Option<u16>)
        ensures
            r == spec_vlan_id(self),
    {
        match &self.qinq {
            Some(q) => Some(q.inner_vlan.id),
            None => match &self.vlan {
                Some(v) => Some(v.id),
                None => None,
            },
        }
    }

    /// Get the outer VLAN ID (for QinQ).
    pub fn outer_vlan_id(&self) -> (r: Option<u16>)
        ensures
            r == (if self.qinq is Some { Some(self.qinq->0.outer_vlan.id) } else {
                None::<u16>
            }),
    {
        match &self.qinq {
            Some(q) => Some(q.outer_vlan.id),
            None => None,
        }
    }

    /// The TCP flag byte of the record, if TCP flags are present.
    pub fn tcp_flags_byte(&self) -> (r: Option<u8>)
        ensures
            r == (if self.tcp_flags is Some { Some(byte_of_flags(self.tcp_flags->0)) } else {
                None::<u8>
            }),
    {
        match &self.tcp_flags {
            Some(f) => Some(f.to_byte()),
            None => None,
        }
    }
}

/// Every well-formed record with QinQ set carries no single VLAN tag, and
/// its effective VLAN id is the inner tag's id.
pub proof fn lemma_qinq_effective_vlan(f: &CapturedFrame)
    requires
        f.wf(),
        f.qinq is Some,
    ensures
        f.vlan is None,
        spec_vlan_id(f) == Some(f.qinq->0.inner_vlan.id),
{
}

} // verus!
