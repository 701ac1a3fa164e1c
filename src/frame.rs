use vstd::prelude::*;
use crate::addr::{HwAddr, hw_bytes, ipv4_bytes, ipv4_octets};

verus! {

/// Length of an address-resolution frame for Ethernet and IPv4 addressing.
pub const FRAME_LEN: usize = 42;

/// Link-layer protocol tag of an address-resolution payload.
pub const ETHERTYPE_ARP: u16 = 0x0806;

/// Hardware-type tag of Ethernet.
pub const HTYPE_ETHERNET: u16 = 1;

/// Protocol-type tag of IPv4.
pub const PTYPE_IPV4: u16 = 0x0800;

/// Operation code of a request.
pub const OP_REQUEST: u16 = 1;

/// Operation code of a reply.
pub const OP_REPLY: u16 = 2;

/// The variable fields of an address-resolution frame; the type tags and
/// address lengths are fixed by the layout.
#[derive(Clone, Copy, Debug, PartialEq, Eq, Structural)]
pub struct ArpFrame {
    pub eth_dst: HwAddr,
    pub eth_src: HwAddr,
    pub operation: u16,
    pub sender_hw: HwAddr,
    pub sender_ip: u32,
    pub target_hw: HwAddr,
    pub target_ip: u32,
}

/// Two octets of a 16-bit value, most significant first.
pub open spec fn u16_bytes(v: u16) -> Seq<u8> {
    seq![(v / 256) as u8, (v % 256) as u8]
}

/// The wire image of a frame: Ethernet header, then the payload.
pub open spec fn frame_bytes(f: ArpFrame) -> Seq<u8> {
    hw_bytes(f.eth_dst) + hw_bytes(f.eth_src) + u16_bytes(ETHERTYPE_ARP) + u16_bytes(HTYPE_ETHERNET)
        + u16_bytes(PTYPE_IPV4) + seq![6u8, 4u8] + u16_bytes(f.operation) + hw_bytes(f.sender_hw)
        + ipv4_bytes(f.sender_ip) + hw_bytes(f.target_hw) + ipv4_bytes(f.target_ip)
}

/// The 16-bit big-endian value at offset `i`.
pub open spec fn read_u16(b: Seq<u8>, i: int) -> u16 {
    (b[i] as int * 256 + b[i + 1] as int) as u16
}

/// The 32-bit big-endian value at offset `i`.
pub open spec fn read_u32(b: Seq<u8>, i: int) -> u32 {
    (b[i] as int * 0x100_0000 + b[i + 1] as int * 0x1_0000 + b[i + 2] as int * 256
        + b[i + 3] as int) as u32
}

/// The hardware address at offset `i`.
pub open spec fn read_hw(b: Seq<u8>, i: int) -> HwAddr {
    HwAddr(b[i], b[i + 1], b[i + 2], b[i + 3], b[i + 4], b[i + 5])
}

/// What a captured frame decodes to: nothing when it is shorter than an
/// address-resolution frame or carries another protocol; bytes past the
/// frame (link padding) are ignored.
pub open spec fn decode_spec(b: Seq<u8>) -> Option<ArpFrame> {
    if b.len() < FRAME_LEN || read_u16(b, 12) != ETHERTYPE_ARP {
        None
    } else {
        Some(
            ArpFrame {
                eth_dst: read_hw(b, 0),
                eth_src: read_hw(b, 6),
                operation: read_u16(b, 20),
                sender_hw: read_hw(b, 22),
                sender_ip: read_u32(b, 28),
                target_hw: read_hw(b, 32),
                target_ip: read_u32(b, 38),
            },
        )
    }
}

fn push_u16(out: &mut Vec<u8>, v: u16)
    ensures
        final(out)@ == old(out)@ + u16_bytes(v),
{
    out.push((v / 256) as u8);
    out.push((v % 256) as u8);
    assert(final(out)@ =~= old(out)@ + u16_bytes(v));
}

fn push_hw(out: &mut Vec<u8>, h: HwAddr)
    ensures
        final(out)@ == old(out)@ + hw_bytes(h),
{
    out.push(h.0);
    out.push(h.1);
    out.push(h.2);
    out.push(h.3);
    out.push(h.4);
    out.push(h.5);
    assert(final(out)@ =~= old(out)@ + hw_bytes(h));
}

fn push_ipv4(out: &mut Vec<u8>, ip: u32)
    ensures
        final(out)@ == old(out)@ + ipv4_bytes(ip),
{
    let (a, b, c, d) = ipv4_octets(ip);
    out.push(a);
    out.push(b);
    out.push(c);
    out.push(d);
    assert(final(out)@ =~= old(out)@ + ipv4_bytes(ip));
}

/// Encodes a frame in the fixed Ethernet/IPv4 layout.
pub fn encode_frame(f: &ArpFrame) -> (r: Vec<u8>)
    ensures
        r@ == frame_bytes(*f),
        r@.len() == FRAME_LEN,
{
    let mut out: Vec<u8> = Vec::new();
    push_hw(&mut out, f.eth_dst);
    push_hw(&mut out, f.eth_src);
    push_u16(&mut out, ETHERTYPE_ARP);
    push_u16(&mut out, HTYPE_ETHERNET);
    push_u16(&mut out, PTYPE_IPV4);
    out.push(6);
    out.push(4);
    push_u16(&mut out, f.operation);
    push_hw(&mut out, f.sender_hw);
    push_ipv4(&mut out, f.sender_ip);
    push_hw(&mut out, f.target_hw);
    push_ipv4(&mut out, f.target_ip);
    proof {
        let pre = hw_bytes(f.eth_dst) + hw_bytes(f.eth_src) + u16_bytes(ETHERTYPE_ARP)
            + u16_bytes(HTYPE_ETHERNET) + u16_bytes(PTYPE_IPV4);
        assert(pre + seq![6u8] + seq![4u8] =~= pre + seq![6u8, 4u8]);
    }
    out
}

fn read_u16_at(b: &[u8], i: usize) -> (r: u16)
    requires
        i + 1 < b@.len(),
    ensures
        r == read_u16(b@, i as int),
{
    (b[i] as u16) * 256 + (b[i + 1] as u16)
}

fn read_u32_at(b: &[u8], i: usize) -> (r: u32)
    requires
        i + 3 < b@.len(),
    ensures
        r == read_u32(b@, i as int),
{
    (b[i] as u32) * 0x100_0000 + (b[i + 1] as u32) * 0x1_0000 + (b[i + 2] as u32) * 256 + (b[i
        + 3] as u32)
}

fn read_hw_at(b: &[u8], i: usize) -> (r: HwAddr)
    requires
        i + 5 < b@.len(),
    ensures
        r == read_hw(b@, i as int),
{
    HwAddr(b[i], b[i + 1], b[i + 2], b[i + 3], b[i + 4], b[i + 5])
}

/// Decodes a captured frame; a short frame or one of another protocol gives `None`.
pub fn decode_frame(b: &[u8]) -> (r: Option<ArpFrame>)
    ensures
        r == decode_spec(b@),
{
    if b.len() < FRAME_LEN || read_u16_at(b, 12) != ETHERTYPE_ARP {
        return None;
    }
    Some(
        ArpFrame {
            eth_dst: read_hw_at(b, 0),
            eth_src: read_hw_at(b, 6),
            operation: read_u16_at(b, 20),
            sender_hw: read_hw_at(b, 22),
            sender_ip: read_u32_at(b, 28),
            target_hw: read_hw_at(b, 32),
            target_ip: read_u32_at(b, 38),
        },
    )
}

/// Decoding the wire image of any frame gives that frame back.
pub proof fn lemma_frame_round_trip(f: ArpFrame)
    ensures
        decode_spec(frame_bytes(f)) == Some(f),
{
    let b = frame_bytes(f);
    assert(b =~= seq![
        f.eth_dst.0, f.eth_dst.1, f.eth_dst.2, f.eth_dst.3, f.eth_dst.4, f.eth_dst.5,
        f.eth_src.0, f.eth_src.1, f.eth_src.2, f.eth_src.3, f.eth_src.4, f.eth_src.5,
        8u8, 6u8, 0u8, 1u8, 8u8, 0u8, 6u8, 4u8,
        (f.operation / 256) as u8, (f.operation % 256) as u8,
        f.sender_hw.0, f.sender_hw.1, f.sender_hw.2, f.sender_hw.3, f.sender_hw.4, f.sender_hw.5,
        (f.sender_ip / 0x100_0000) as u8, ((f.sender_ip / 0x1_0000) % 256) as u8,
        ((f.sender_ip / 256) % 256) as u8, (f.sender_ip % 256) as u8,
        f.target_hw.0, f.target_hw.1, f.target_hw.2, f.target_hw.3, f.target_hw.4, f.target_hw.5,
        (f.target_ip / 0x100_0000) as u8, ((f.target_ip / 0x1_0000) % 256) as u8,
        ((f.target_ip / 256) % 256) as u8, (f.target_ip % 256) as u8,
    ]);
    lemma_u16_round_trip(f.operation);
    lemma_u32_round_trip(f.sender_ip);
    lemma_u32_round_trip(f.target_ip);
    assert(read_hw(b, 0) == f.eth_dst);
    assert(read_hw(b, 6) == f.eth_src);
    assert(read_hw(b, 22) == f.sender_hw);
    assert(read_hw(b, 32) == f.target_hw);
}

proof fn lemma_u16_round_trip(v: u16)
    ensures
        ((v / 256) as u8) as int * 256 + ((v % 256) as u8) as int == v,
{
}

proof fn lemma_u32_round_trip(v: u32)
    ensures
        ((v / 0x100_0000) as u8) as int * 0x100_0000 + (((v / 0x1_0000) % 256) as u8) as int
            * 0x1_0000 + (((v / 256) % 256) as u8) as int * 256 + ((v % 256) as u8) as int == v,
{
}

} // verus!
