//! Addresses of the fourth version of the Internet Protocol.

use vstd::prelude::*;

use crate::decimal::{
    append_number, digits_value, is_number, number_text, number_text_is_shortest,
    number_text_reads_back,
};

verus! {

/// An address, as its four octets in the order in which they are sent.
#[derive(Clone, Copy, Debug, PartialEq, Eq, Structural)]
pub struct Ipv4Address {
    pub a: u8,
    pub b: u8,
    pub c: u8,
    pub d: u8,
}

/// The port that multicast DNS packets are sent to.
pub const MDNS_PORT: u16 = 5353;

/// The address that stands for no address.
#[verifier::allow_in_spec]
pub fn unspecified() -> Ipv4Address
    returns
        (Ipv4Address { a: 0, b: 0, c: 0, d: 0 }),
{
    Ipv4Address { a: 0, b: 0, c: 0, d: 0 }
}

/// The group that multicast DNS packets are sent to.
#[verifier::allow_in_spec]
pub fn mdns_addr() -> Ipv4Address
    returns
        (Ipv4Address { a: 224, b: 0, c: 0, d: 251 }),
{
    Ipv4Address { a: 224, b: 0, c: 0, d: 251 }
}

/// How an address is written: its octets in decimal, with dots between them.
pub open spec fn address_text(address: Ipv4Address) -> Seq<char> {
    number_text(address.a as nat) + "."@ + number_text(address.b as nat) + "."@ + number_text(
        address.c as nat,
    ) + "."@ + number_text(address.d as nat)
}

impl Ipv4Address {
    /// The part of the address that a mask keeps.
    pub open spec fn masked_by(self, mask: Ipv4Address) -> Ipv4Address {
        Ipv4Address {
            a: self.a & mask.a,
            b: self.b & mask.b,
            c: self.c & mask.c,
            d: self.d & mask.d,
        }
    }

    /// The address whose octets are given, the first one to be sent first.
    pub fn from_octets(octets: [u8; 4]) -> (address: Ipv4Address)
        ensures
            address.a == octets@[0],
            address.b == octets@[1],
            address.c == octets@[2],
            address.d == octets@[3],
    {
        Ipv4Address { a: octets[0], b: octets[1], c: octets[2], d: octets[3] }
    }

    /// The octets of the address, the first one to be sent first.
    pub fn octets(&self) -> (octets: [u8; 4])
        ensures
            octets@ == seq![self.a, self.b, self.c, self.d],
    {
        [self.a, self.b, self.c, self.d]
    }

    /// The part of the address that `mask` keeps.
    pub fn bitand(&self, mask: &Ipv4Address) -> (network: Ipv4Address)
        ensures
            network == self.masked_by(*mask),
    {
        Ipv4Address {
            a: self.a & mask.a,
            b: self.b & mask.b,
            c: self.c & mask.c,
            d: self.d & mask.d,
        }
    }

    /// Appends the address to `out`, in decimal with dots.
    pub fn append_to(&self, out: &mut String)
        ensures
            final(out)@ == old(out)@ + address_text(*self),
    {
        append_number(out, self.a as u32);
        out.append(".");
        append_number(out, self.b as u32);
        out.append(".");
        append_number(out, self.c as u32);
        out.append(".");
        append_number(out, self.d as u32);
    }
}

/// The mask of an interface that has none keeps nothing of any address.
pub proof fn unspecified_mask_keeps_nothing(address: Ipv4Address)
    ensures
        address.masked_by(unspecified()) == unspecified(),
{
    let (a, b, c, d) = (address.a, address.b, address.c, address.d);
    assert(a & 0u8 == 0 && b & 0u8 == 0 && c & 0u8 == 0 && d & 0u8 == 0) by (bit_vector);
}

proof fn masked_octet_bit(octet: u8, mask: u8, k: u8)
    requires
        k < 8,
    ensures
        ((octet & mask) >> k) & 1 == 1 <==> (octet >> k) & 1 == 1 && (mask >> k) & 1 == 1,
{
    assert(((octet & mask) >> k) & 1 == 1 <==> (octet >> k) & 1 == 1 && (mask >> k) & 1 == 1)
        by (bit_vector)
        requires
            k < 8,
    ;
}

/// A bit of the masked address is set exactly where it is set both in the address and
/// in the mask, for each of the 32 bits.
pub proof fn mask_keeps_the_bits_that_it_sets(address: Ipv4Address, mask: Ipv4Address, k: u8)
    requires
        k < 8,
    ensures
        ({
            let kept = address.masked_by(mask);
            &&& (kept.a >> k) & 1 == 1 <==> (address.a >> k) & 1 == 1 && (mask.a >> k) & 1 == 1
            &&& (kept.b >> k) & 1 == 1 <==> (address.b >> k) & 1 == 1 && (mask.b >> k) & 1 == 1
            &&& (kept.c >> k) & 1 == 1 <==> (address.c >> k) & 1 == 1 && (mask.c >> k) & 1 == 1
            &&& (kept.d >> k) & 1 == 1 <==> (address.d >> k) & 1 == 1 && (mask.d >> k) & 1 == 1
        }),
{
    masked_octet_bit(address.a, mask.a, k);
    masked_octet_bit(address.b, mask.b, k);
    masked_octet_bit(address.c, mask.c, k);
    masked_octet_bit(address.d, mask.d, k);
}

/// A mask with every bit set keeps every address whole.
pub proof fn full_mask_keeps_everything(address: Ipv4Address)
    ensures
        address.masked_by(Ipv4Address { a: 255, b: 255, c: 255, d: 255 }) == address,
{
    let (a, b, c, d) = (address.a, address.b, address.c, address.d);
    assert(a & 255u8 == a && b & 255u8 == b && c & 255u8 == c && d & 255u8 == d) by (bit_vector);
}

/// Whether two octets agree in every bit that a mask sets.
pub open spec fn octets_agree(left: u8, right: u8, mask: u8) -> bool {
    forall|k: u8|
        k < 8 && (#[trigger] (mask >> k)) & 1 == 1 ==> (left >> k) & 1 == (right >> k) & 1
}

proof fn masked_octets_are_equal(left: u8, right: u8, mask: u8)
    ensures
        left & mask == right & mask <==> octets_agree(left, right, mask),
{
    assert forall|k: u8|
        left & mask == right & mask && k < 8 && (#[trigger] (mask >> k)) & 1 == 1 implies (left
        >> k) & 1 == (right >> k) & 1 by {
        assert((left >> k) & 1 == (right >> k) & 1) by (bit_vector)
            requires
                left & mask == right & mask,
                k < 8,
                (mask >> k) & 1 == 1,
        ;
    }
    if octets_agree(left, right, mask) {
        assert((mask >> 0u8) & 1 == 1 ==> (left >> 0u8) & 1 == (right >> 0u8) & 1);
        assert((mask >> 1u8) & 1 == 1 ==> (left >> 1u8) & 1 == (right >> 1u8) & 1);
        assert((mask >> 2u8) & 1 == 1 ==> (left >> 2u8) & 1 == (right >> 2u8) & 1);
        assert((mask >> 3u8) & 1 == 1 ==> (left >> 3u8) & 1 == (right >> 3u8) & 1);
        assert((mask >> 4u8) & 1 == 1 ==> (left >> 4u8) & 1 == (right >> 4u8) & 1);
        assert((mask >> 5u8) & 1 == 1 ==> (left >> 5u8) & 1 == (right >> 5u8) & 1);
        assert((mask >> 6u8) & 1 == 1 ==> (left >> 6u8) & 1 == (right >> 6u8) & 1);
        assert((mask >> 7u8) & 1 == 1 ==> (left >> 7u8) & 1 == (right >> 7u8) & 1);
        assert(left & mask == right & mask) by (bit_vector)
            requires
                (mask >> 0u8) & 1 == 1 ==> (left >> 0u8) & 1 == (right >> 0u8) & 1,
                (mask >> 1u8) & 1 == 1 ==> (left >> 1u8) & 1 == (right >> 1u8) & 1,
                (mask >> 2u8) & 1 == 1 ==> (left >> 2u8) & 1 == (right >> 2u8) & 1,
                (mask >> 3u8) & 1 == 1 ==> (left >> 3u8) & 1 == (right >> 3u8) & 1,
                (mask >> 4u8) & 1 == 1 ==> (left >> 4u8) & 1 == (right >> 4u8) & 1,
                (mask >> 5u8) & 1 == 1 ==> (left >> 5u8) & 1 == (right >> 5u8) & 1,
                (mask >> 6u8) & 1 == 1 ==> (left >> 6u8) & 1 == (right >> 6u8) & 1,
                (mask >> 7u8) & 1 == 1 ==> (left >> 7u8) & 1 == (right >> 7u8) & 1,
        ;
    }
}

/// A mask keeps the same of two addresses exactly where they agree in every bit that it
/// sets.
pub proof fn masked_alike_where_the_bits_agree(
    left: Ipv4Address,
    right: Ipv4Address,
    mask: Ipv4Address,
)
    ensures
        left.masked_by(mask) == right.masked_by(mask) <==> {
            &&& octets_agree(left.a, right.a, mask.a)
            &&& octets_agree(left.b, right.b, mask.b)
            &&& octets_agree(left.c, right.c, mask.c)
            &&& octets_agree(left.d, right.d, mask.d)
        },
{
    masked_octets_are_equal(left.a, right.a, mask.a);
    masked_octets_are_equal(left.b, right.b, mask.b);
    masked_octets_are_equal(left.c, right.c, mask.c);
    masked_octets_are_equal(left.d, right.d, mask.d);
}

/// Whether a text is an octet in decimal: digits that stand for it, and no zero before
/// others.
pub open spec fn is_octet_text(text: Seq<char>, octet: u8) -> bool {
    &&& is_number(text)
    &&& digits_value(text) == octet
    &&& text.len() > 1 ==> text[0] != '0'
}

/// Four texts with dots between them.
pub open spec fn dotted(a: Seq<char>, b: Seq<char>, c: Seq<char>, d: Seq<char>) -> Seq<char> {
    a + seq!['.'] + b + seq!['.'] + c + seq!['.'] + d
}

/// Whether a text can be read as an address: four octets with dots between them.
pub open spec fn reads_as_address(text: Seq<char>, address: Ipv4Address) -> bool {
    exists|a: Seq<char>, b: Seq<char>, c: Seq<char>, d: Seq<char>|
        {
            &&& text == #[trigger] dotted(a, b, c, d)
            &&& is_octet_text(a, address.a)
            &&& is_octet_text(b, address.b)
            &&& is_octet_text(c, address.c)
            &&& is_octet_text(d, address.d)
        }
}

/// An address that is written reads as that address.
pub proof fn address_text_reads_back(address: Ipv4Address)
    ensures
        reads_as_address(address_text(address), address),
{
    reveal_strlit(".");
    assert("."@ == seq!['.']);
    let (a, b, c, d) = (
        number_text(address.a as nat),
        number_text(address.b as nat),
        number_text(address.c as nat),
        number_text(address.d as nat),
    );
    number_text_reads_back(address.a as nat);
    number_text_reads_back(address.b as nat);
    number_text_reads_back(address.c as nat);
    number_text_reads_back(address.d as nat);
    number_text_is_shortest(address.a as nat);
    number_text_is_shortest(address.b as nat);
    number_text_is_shortest(address.c as nat);
    number_text_is_shortest(address.d as nat);
    assert(address_text(address) == dotted(a, b, c, d));
}

} // verus!
