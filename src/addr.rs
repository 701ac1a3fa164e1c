use vstd::prelude::*;

verus! {

/// A 6-byte link-layer hardware address.
#[derive(Clone, Copy, Debug, PartialEq, Eq, Structural)]
pub struct HwAddr(pub u8, pub u8, pub u8, pub u8, pub u8, pub u8);

/// The all-ones hardware address, received by every station on the link.
pub open spec fn broadcast_spec() -> HwAddr {
    HwAddr(255, 255, 255, 255, 255, 255)
}

impl HwAddr {
    /// The broadcast hardware address.
    pub fn broadcast() -> (r: HwAddr)
        ensures
            r == broadcast_spec(),
    {
        HwAddr(255, 255, 255, 255, 255, 255)
    }
}

/// The six octets of a hardware address, in wire order.
pub open spec fn hw_bytes(h: HwAddr) -> Seq<u8> {
    seq![h.0, h.1, h.2, h.3, h.4, h.5]
}

/// The four octets of an IPv4 address, most significant first.
pub open spec fn ipv4_bytes(ip: u32) -> Seq<u8> {
    seq![
        (ip / 0x100_0000) as u8,
        ((ip / 0x1_0000) % 256) as u8,
        ((ip / 256) % 256) as u8,
        (ip % 256) as u8,
    ]
}

/// Splits an IPv4 address into its four octets, most significant first.
pub fn ipv4_octets(ip: u32) -> (r: (u8, u8, u8, u8))
    ensures
        seq![r.0, r.1, r.2, r.3] == ipv4_bytes(ip),
{
    ((ip / 0x100_0000) as u8, ((ip / 0x1_0000) % 256) as u8, ((ip / 256) % 256) as u8, (ip % 256) as u8)
}

/// The character of a digit below sixteen, lower case past nine.
pub open spec fn digit_char(d: int) -> char {
    if d < 10 {
        (48 + d) as char
    } else {
        (87 + d) as char
    }
}

/// A byte as decimal digits without leading zeros.
pub open spec fn dec_text(b: u8) -> Seq<char> {
    if b < 10 {
        seq![digit_char(b as int)]
    } else if b < 100 {
        seq![digit_char((b / 10) as int), digit_char((b % 10) as int)]
    } else {
        seq![digit_char((b / 100) as int), digit_char(((b / 10) % 10) as int), digit_char((b % 10) as int)]
    }
}

/// A byte as two lower-case hexadecimal digits.
pub open spec fn hex_text(b: u8) -> Seq<char> {
    seq![digit_char((b / 16) as int), digit_char((b % 16) as int)]
}

/// Dotted-decimal text of four octets.
pub open spec fn dotted_text(a: u8, b: u8, c: u8, d: u8) -> Seq<char> {
    dec_text(a) + seq!['.'] + dec_text(b) + seq!['.'] + dec_text(c) + seq!['.'] + dec_text(d)
}

/// Dotted-decimal text of an IPv4 address.
pub open spec fn ipv4_text_spec(ip: u32) -> Seq<char> {
    let o = ipv4_bytes(ip);
    dotted_text(o[0], o[1], o[2], o[3])
}

/// Colon-separated lower-case hexadecimal text of a hardware address.
pub open spec fn hw_text_spec(h: HwAddr) -> Seq<char> {
    hex_text(h.0) + seq![':'] + hex_text(h.1) + seq![':'] + hex_text(h.2) + seq![':'] + hex_text(
        h.3,
    ) + seq![':'] + hex_text(h.4) + seq![':'] + hex_text(h.5)
}

/// Relies on the `Display` of pnet's `MacAddr`: each octet as two lower-case
/// hexadecimal digits, separated by colons.
#[verifier::external_body]
fn mac_display(h: HwAddr) -> (r: String)
    ensures
        r@ == hw_text_spec(h),
{
    format!("{}", pnet::util::MacAddr::new(h.0, h.1, h.2, h.3, h.4, h.5))
}

/// Relies on std's `Display` of `u8`: decimal digits without leading zeros.
#[verifier::external_body]
fn dotted_display(a: u8, b: u8, c: u8, d: u8) -> (r: String)
    ensures
        r@ == dotted_text(a, b, c, d),
{
    format!("{}.{}.{}.{}", a, b, c, d)
}

impl HwAddr {
    /// The address as text, such as `aa:bb:cc:dd:ee:ff`.
    pub fn to_text(&self) -> (r: String)
        ensures
            r@ == hw_text_spec(*self),
    {
        mac_display(*self)
    }
}

/// An IPv4 address as dotted-decimal text, such as `10.0.0.5`.
pub fn ipv4_text(ip: u32) -> (r: String)
    ensures
        r@ == ipv4_text_spec(ip),
{
    let (a, b, c, d) = ipv4_octets(ip);
    dotted_display(a, b, c, d)
}

} // verus!
