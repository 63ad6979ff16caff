//! Ethernet addresses and the header of an Ethernet frame.
use vstd::prelude::*;

use crate::text::{hex_byte, hex_value, hexadecimal_digits_spell_their_byte, push_hex_byte};

verus! {

/// A 48-bit Ethernet address.
#[derive(Clone, Copy, Debug, Hash)]
pub struct MacAddress(pub [u8; 6]);

impl PartialEq for MacAddress {
    fn eq(&self, other: &Self) -> (r: bool) {
        let r = self.0[0] == other.0[0] && self.0[1] == other.0[1] && self.0[2] == other.0[2]
            && self.0[3] == other.0[3] && self.0[4] == other.0[4] && self.0[5] == other.0[5];
        assert(r ==> self.0 =~= other.0);
        r
    }
}

impl vstd::std_specs::cmp::PartialEqSpecImpl for MacAddress {
    open spec fn obeys_eq_spec() -> bool {
        true
    }

    open spec fn eq_spec(&self, other: &Self) -> bool {
        *self == *other
    }
}

impl Eq for MacAddress {

}

/// The address that the six bytes from `from` on spell.
pub open spec fn mac_at(bytes: Seq<u8>, from: int) -> MacAddress {
    MacAddress(
        [
            bytes[from],
            bytes[from + 1],
            bytes[from + 2],
            bytes[from + 3],
            bytes[from + 4],
            bytes[from + 5],
        ],
    )
}

/// The destination address of a frame.
pub open spec fn destination_of(frame: Seq<u8>) -> MacAddress {
    mac_at(frame, 0)
}

/// The source address of a frame.
pub open spec fn source_of(frame: Seq<u8>) -> MacAddress {
    mac_at(frame, 6)
}

/// Whether a frame is long enough to hold both addresses.
pub open spec fn has_addresses(frame: Seq<u8>) -> bool {
    frame.len() >= 12
}

impl View for MacAddress {
    type V = Seq<u8>;

    /// The bytes of the address, in the order in which they are sent.
    open spec fn view(&self) -> Seq<u8> {
        self.0@
    }
}

impl MacAddress {
    /// Whether this is the address that every station listens to: all its bits are set.
    pub open spec fn is_broadcast(self) -> bool {
        forall|i: int| 0 <= i < 6 ==> self@[i] == 0xff
    }

    /// The address that every station listens to.
    pub fn broadcast() -> (r: MacAddress)
        ensures
            r.is_broadcast(),
    {
        MacAddress([0xff, 0xff, 0xff, 0xff, 0xff, 0xff])
    }

    /// Whether the address stands for a group of stations: the lowest bit of its first byte is
    /// set.
    pub open spec fn is_group(self) -> bool {
        self@[0] % 2 == 1
    }

    /// The address as six pairs of hexadecimal digits, with colons between them.
    pub open spec fn text(self) -> Seq<char> {
        hex_byte(self@[0]) + seq![':'] + hex_byte(self@[1]) + seq![':'] + hex_byte(self@[2])
            + seq![':'] + hex_byte(self@[3]) + seq![':'] + hex_byte(self@[4]) + seq![':']
            + hex_byte(self@[5])
    }

    /// The address as a number, its first byte the most significant.
    pub open spec fn number(self) -> int {
        self@[0] * 0x100_0000_0000 + self@[1] * 0x1_0000_0000 + self@[2] * 0x100_0000 + self@[3]
            * 0x1_0000 + self@[4] * 0x100 + self@[5]
    }

    /// The address that the bytes spell, if there are six of them.
    pub fn from_slice(bytes: &[u8]) -> (r: Option<MacAddress>)
        ensures
            bytes@.len() == 6 ==> r == Some(mac_at(bytes@, 0)),
            bytes@.len() != 6 ==> r is None,
    {
        if bytes.len() != 6 {
            return None;
        }
        let mac = MacAddress([bytes[0], bytes[1], bytes[2], bytes[3], bytes[4], bytes[5]]);
        assert(mac.0 =~= mac_at(bytes@, 0).0);
        Some(mac)
    }

    /// The destination address of a frame: its first six bytes.
    pub fn destination(frame: &[u8]) -> (r: Option<MacAddress>)
        ensures
            frame@.len() >= 6 ==> r == Some(destination_of(frame@)),
            frame@.len() < 6 ==> r is None,
    {
        if frame.len() < 6 {
            return None;
        }
        MacAddress::from_slice(vstd::slice::slice_subrange(frame, 0, 6))
    }

    /// The source address of a frame: the six bytes after the destination.
    pub fn source(frame: &[u8]) -> (r: Option<MacAddress>)
        ensures
            frame@.len() >= 12 ==> r == Some(source_of(frame@)),
            frame@.len() < 12 ==> r is None,
    {
        if frame.len() < 12 {
            return None;
        }
        MacAddress::from_slice(vstd::slice::slice_subrange(frame, 6, 12))
    }

    /// Whether a frame for this address is meant for more than one station.
    pub fn is_broadcast_or_multicast(self) -> (r: bool)
        ensures
            r == self.is_group(),
            r == (self.0@[0] as int % 2 == 1),
    {
        let first: u8 = self.0[0];
        assert((first & 0x01) == 1 <==> first % 2 == 1) by (bit_vector);
        self == MacAddress::broadcast() || (first & 0x01) == 1
    }

    /// The address as text, such as `00:11:22:33:44:55`.
    pub fn to_string(&self) -> (r: String)
        ensures
            r@ == self.text(),
    {
        let mut output = String::new();
        push_hex_byte(&mut output, self.0[0]);
        output.push(':');
        push_hex_byte(&mut output, self.0[1]);
        output.push(':');
        push_hex_byte(&mut output, self.0[2]);
        output.push(':');
        push_hex_byte(&mut output, self.0[3]);
        output.push(':');
        push_hex_byte(&mut output, self.0[4]);
        output.push(':');
        push_hex_byte(&mut output, self.0[5]);
        assert(output@ =~= self.text());
        output
    }

    /// The address as a number.
    pub fn to_number(&self) -> (r: u64)
        ensures
            r == self.number(),
    {
        self.0[0] as u64 * 0x100_0000_0000 + self.0[1] as u64 * 0x1_0000_0000 + self.0[2] as u64
            * 0x100_0000 + self.0[3] as u64 * 0x1_0000 + self.0[4] as u64 * 0x100 + self.0[5] as u64
    }
}

/// The destination and the source address of a frame, if the frame is long enough to hold both.
pub fn ethernet_addrs(frame: &[u8]) -> (r: Option<(MacAddress, MacAddress)>)
    ensures
        has_addresses(frame@) ==> r == Some((destination_of(frame@), source_of(frame@))),
        !has_addresses(frame@) ==> r is None,
{
    match (MacAddress::destination(frame), MacAddress::source(frame)) {
        (Some(destination), Some(source)) => Some((destination, source)),
        _ => None,
    }
}

/// A frame that starts with two addresses has the first as its destination and the second as its
/// source, whatever follows.
pub proof fn addresses_are_read_back(
    destination: MacAddress,
    source: MacAddress,
    payload: Seq<u8>,
)
    ensures
        has_addresses(destination@ + source@ + payload),
        destination_of(destination@ + source@ + payload) == destination,
        source_of(destination@ + source@ + payload) == source,
{
    let frame = destination@ + source@ + payload;
    assert(destination_of(frame).0 =~= destination.0);
    assert(source_of(frame).0 =~= source.0);
}

/// Two addresses with the same bytes are the same address.
pub proof fn same_bytes_same_address(a: MacAddress, b: MacAddress)
    requires
        a@ == b@,
    ensures
        a == b,
{
    assert(a.0 =~= b.0);
}

proof fn same_last_byte(p: int, q: int, b: u8, c: u8)
    requires
        p * 256 + b == q * 256 + c,
    ensures
        p == q,
        b == c,
{
}

/// Two addresses with the same number are the same address.
pub proof fn same_number_same_address(a: MacAddress, b: MacAddress)
    requires
        a.number() == b.number(),
    ensures
        a == b,
{
    let (a0, a1, a2, a3, a4, a5) = (a@[0], a@[1], a@[2], a@[3], a@[4], a@[5]);
    let (b0, b1, b2, b3, b4, b5) = (b@[0], b@[1], b@[2], b@[3], b@[4], b@[5]);
    let pa: int = a0 * 256 + a1;
    let pb: int = b0 * 256 + b1;
    let qa: int = pa * 256 + a2;
    let qb: int = pb * 256 + b2;
    let ra: int = qa * 256 + a3;
    let rb: int = qb * 256 + b3;
    let sa: int = ra * 256 + a4;
    let sb: int = rb * 256 + b4;
    same_last_byte(sa, sb, a5, b5);
    same_last_byte(ra, rb, a4, b4);
    same_last_byte(qa, qb, a3, b3);
    same_last_byte(pa, pb, a2, b2);
    same_last_byte(a0 as int, b0 as int, a1, b1);
    assert(a@ =~= b@);
    same_bytes_same_address(a, b);
}

proof fn same_hex_same_byte(b: u8, c: u8)
    requires
        hex_byte(b)[0] == hex_byte(c)[0],
        hex_byte(b)[1] == hex_byte(c)[1],
    ensures
        b == c,
{
    assert(b == (b / 16) * 16 + b % 16);
    assert(c == (c / 16) * 16 + c % 16);
}

#[verifier::spinoff_prover]
proof fn text_characters(mac: MacAddress)
    ensures
        mac.text().len() == 17,
        mac.text()[0] == hex_byte(mac@[0])[0],
        mac.text()[1] == hex_byte(mac@[0])[1],
        mac.text()[3] == hex_byte(mac@[1])[0],
        mac.text()[4] == hex_byte(mac@[1])[1],
        mac.text()[6] == hex_byte(mac@[2])[0],
        mac.text()[7] == hex_byte(mac@[2])[1],
        mac.text()[9] == hex_byte(mac@[3])[0],
        mac.text()[10] == hex_byte(mac@[3])[1],
        mac.text()[12] == hex_byte(mac@[4])[0],
        mac.text()[13] == hex_byte(mac@[4])[1],
        mac.text()[15] == hex_byte(mac@[5])[0],
        mac.text()[16] == hex_byte(mac@[5])[1],
{
}

/// Two addresses with the same text are the same address.
pub proof fn same_text_same_address(a: MacAddress, b: MacAddress)
    requires
        a.text() == b.text(),
    ensures
        a == b,
{
    assert(a@[0] == b@[0] && a@[1] == b@[1] && a@[2] == b@[2] && a@[3] == b@[3] && a@[4] == b@[4]
        && a@[5] == b@[5]) by {
        text_characters(a);
        text_characters(b);
        same_hex_same_byte(a@[0], b@[0]);
        same_hex_same_byte(a@[1], b@[1]);
        same_hex_same_byte(a@[2], b@[2]);
        same_hex_same_byte(a@[3], b@[3]);
        same_hex_same_byte(a@[4], b@[4]);
        same_hex_same_byte(a@[5], b@[5]);
    }
    assert(a@ =~= b@);
    same_bytes_same_address(a, b);
}

/// The broadcast address is a group address.
pub proof fn broadcast_is_a_group(mac: MacAddress)
    requires
        mac.is_broadcast(),
    ensures
        mac.is_group(),
{
}

/// An address stands for a group exactly where its first byte is odd, whatever the other bytes
/// are; the one with all bits set is such an address. Every other one belongs to a single station.
pub proof fn a_group_has_an_odd_first_byte(mac: MacAddress)
    ensures
        mac.0@[0] as int % 2 == 1 ==> mac.is_group(),
        mac.0@[0] as int % 2 == 0 ==> !mac.is_group(),
        mac.is_broadcast() <==> mac.0@ == seq![255u8, 255u8, 255u8, 255u8, 255u8, 255u8],
{
    if mac.is_broadcast() {
        assert(mac@[0] == 255 && mac@[1] == 255 && mac@[2] == 255 && mac@[3] == 255 && mac@[4]
            == 255 && mac@[5] == 255);
        assert(mac.0@ =~= seq![255u8, 255u8, 255u8, 255u8, 255u8, 255u8]);
    }
}

/// A frame holds two addresses exactly where it has at least twelve bytes: the first six are the
/// destination and the next six the source.
pub proof fn the_addresses_are_the_first_twelve_bytes(frame: Seq<u8>)
    ensures
        has_addresses(frame) <==> frame.len() >= 12,
        frame.len() >= 12 ==> destination_of(frame).0@ == frame.subrange(0, 6),
        frame.len() >= 12 ==> source_of(frame).0@ == frame.subrange(6, 12),
        frame.len() >= 6 ==> mac_at(frame, 0).0@ == frame.subrange(0, 6),
{
    if frame.len() >= 6 {
        assert(mac_at(frame, 0).0@ =~= frame.subrange(0, 6));
    }
    if frame.len() >= 12 {
        assert(source_of(frame).0@ =~= frame.subrange(6, 12));
    }
}

/// The text of an address has two hexadecimal digits in lower case for each byte, in order, and a
/// colon between two bytes.
pub proof fn the_text_spells_the_bytes(mac: MacAddress, i: int)
    requires
        0 <= i < 6,
    ensures
        mac.text().len() == 17,
        16 * hex_value(mac.text()[3 * i]) + hex_value(mac.text()[3 * i + 1]) == mac.0@[i],
        0 <= hex_value(mac.text()[3 * i]) < 16,
        0 <= hex_value(mac.text()[3 * i + 1]) < 16,
        i < 5 ==> mac.text()[3 * i + 2] == ':',
{
    text_characters(mac);
    hexadecimal_digits_spell_their_byte(mac@[i]);
    assert(mac.text()[2] == ':' && mac.text()[5] == ':' && mac.text()[8] == ':' && mac.text()[11]
        == ':' && mac.text()[14] == ':');
}

} // verus!
