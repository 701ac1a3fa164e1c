use arp_scan::addr::{ipv4_octets, ipv4_text, HwAddr};
use arp_scan::frame::{decode_frame, encode_frame, ArpFrame, FRAME_LEN, OP_REPLY, OP_REQUEST};
use arp_scan::scan::{
    collect_replies, listener_step, replies_text, reply_of_frame, request_frame, resolve_local,
    CaptureEvent, IpAssignment, ListenerAction, LocalHost, Reply, ScanError,
};
use arp_scan::subnet::Ipv4Subnet;

const IP_10_0_0_1: u32 = 0x0A00_0001;
const IP_10_0_0_5: u32 = 0x0A00_0005;

fn host_10_0_0_1() -> LocalHost {
    LocalHost {
        hw: HwAddr(0xaa, 0xbb, 0xcc, 0xdd, 0xee, 0xff),
        net: Ipv4Subnet::new(IP_10_0_0_1, 24).unwrap(),
    }
}

fn reply_bytes(sender_ip: u32, sender_hw: HwAddr) -> Vec<u8> {
    encode_frame(&ArpFrame {
        eth_dst: HwAddr(0xaa, 0xbb, 0xcc, 0xdd, 0xee, 0xff),
        eth_src: sender_hw,
        operation: OP_REPLY,
        sender_hw,
        sender_ip,
        target_hw: HwAddr(0xaa, 0xbb, 0xcc, 0xdd, 0xee, 0xff),
        target_ip: IP_10_0_0_1,
    })
}

#[test]
fn it_works() {
    assert_eq!(2 + 2, 4);
}

#[test]
fn request_frame_layout_and_round_trip() {
    let bytes = request_frame(&host_10_0_0_1(), IP_10_0_0_5);
    let expected: Vec<u8> = vec![
        0xff, 0xff, 0xff, 0xff, 0xff, 0xff, // destination: broadcast
        0xaa, 0xbb, 0xcc, 0xdd, 0xee, 0xff, // source
        0x08, 0x06, // address resolution
        0x00, 0x01, // Ethernet
        0x08, 0x00, // IPv4
        6, 4, // address lengths
        0x00, 0x01, // request
        0xaa, 0xbb, 0xcc, 0xdd, 0xee, 0xff, // sender hardware address
        10, 0, 0, 1, // sender IP
        0xff, 0xff, 0xff, 0xff, 0xff, 0xff, // target hardware address
        10, 0, 0, 5, // target IP
    ];
    assert_eq!(bytes, expected);
    assert_eq!(bytes.len(), FRAME_LEN);
    let f = decode_frame(&bytes).unwrap();
    assert_eq!(f.operation, OP_REQUEST);
    assert_eq!(f.sender_ip, IP_10_0_0_1);
    assert_eq!(f.sender_hw, HwAddr(0xaa, 0xbb, 0xcc, 0xdd, 0xee, 0xff));
    assert_eq!(f.target_ip, IP_10_0_0_5);
    assert_eq!(f.target_hw, HwAddr::broadcast());
    assert_eq!(f.eth_dst, HwAddr::broadcast());
    assert_eq!(encode_frame(&f), bytes);
}

#[test]
fn reply_frame_is_collected_as_text() {
    let frames = vec![reply_bytes(IP_10_0_0_5, HwAddr(0x11, 0x22, 0x33, 0x44, 0x55, 0x66))];
    let replies = collect_replies(&frames);
    assert_eq!(replies, vec![Reply { ip: IP_10_0_0_5, hw: HwAddr(0x11, 0x22, 0x33, 0x44, 0x55, 0x66) }]);
    let text = replies_text(&replies);
    assert_eq!(text, vec![("10.0.0.5".to_string(), "11:22:33:44:55:66".to_string())]);
}

#[test]
fn request_frame_is_never_collected() {
    let req = request_frame(&host_10_0_0_1(), IP_10_0_0_5);
    assert_eq!(reply_of_frame(&req), None);
    assert_eq!(listener_step(&CaptureEvent::Frame(req.clone())), ListenerAction::Skip);
    let reply = reply_bytes(IP_10_0_0_5, HwAddr(1, 2, 3, 4, 5, 6));
    let replies = collect_replies(&vec![req.clone(), reply, req]);
    assert_eq!(replies, vec![Reply { ip: IP_10_0_0_5, hw: HwAddr(1, 2, 3, 4, 5, 6) }]);
}

#[test]
fn short_frame_is_skipped_and_later_frames_processed() {
    let full = reply_bytes(IP_10_0_0_5, HwAddr(0x11, 0x22, 0x33, 0x44, 0x55, 0x66));
    let short: Vec<u8> = full[..FRAME_LEN - 1].to_vec();
    assert_eq!(decode_frame(&short), None);
    assert_eq!(decode_frame(&[]), None);
    assert_eq!(listener_step(&CaptureEvent::Frame(short.clone())), ListenerAction::Skip);
    let replies = collect_replies(&vec![short, Vec::new(), full]);
    assert_eq!(replies, vec![Reply { ip: IP_10_0_0_5, hw: HwAddr(0x11, 0x22, 0x33, 0x44, 0x55, 0x66) }]);
}

#[test]
fn other_protocol_frame_is_skipped() {
    let mut frame = reply_bytes(IP_10_0_0_5, HwAddr(1, 2, 3, 4, 5, 6));
    frame[12] = 0x08;
    frame[13] = 0x00;
    assert_eq!(decode_frame(&frame), None);
    assert_eq!(reply_of_frame(&frame), None);
}

#[test]
fn padded_frame_decodes() {
    let mut frame = reply_bytes(IP_10_0_0_5, HwAddr(1, 2, 3, 4, 5, 6));
    frame.extend_from_slice(&[0u8; 18]);
    assert_eq!(reply_of_frame(&frame), Some(Reply { ip: IP_10_0_0_5, hw: HwAddr(1, 2, 3, 4, 5, 6) }));
}

#[test]
fn read_failure_stops_listener() {
    assert_eq!(listener_step(&CaptureEvent::ReadFailed), ListenerAction::Stop(ScanError::CaptureRead));
    let reply = reply_bytes(IP_10_0_0_5, HwAddr(1, 2, 3, 4, 5, 6));
    assert_eq!(
        listener_step(&CaptureEvent::Frame(reply)),
        ListenerAction::Forward(Reply { ip: IP_10_0_0_5, hw: HwAddr(1, 2, 3, 4, 5, 6) })
    );
}

#[test]
fn zero_limit_sweeps_nothing() {
    let net = host_10_0_0_1().net;
    assert!(net.sweep_targets(0).is_empty());
    assert!(collect_replies(&Vec::new()).is_empty());
}

#[test]
fn sweep_takes_first_addresses_in_order() {
    let net = Ipv4Subnet::new(0xC0A8_014D, 24).unwrap(); // 192.168.1.77/24
    let targets = net.sweep_targets(3);
    assert_eq!(targets, vec![0xC0A8_0100, 0xC0A8_0101, 0xC0A8_0102]);
    let host = LocalHost { hw: HwAddr(2, 0, 0, 0, 0, 1), net };
    for (i, t) in targets.iter().enumerate() {
        let f = decode_frame(&request_frame(&host, *t)).unwrap();
        assert_eq!(f.target_ip, 0xC0A8_0100 + i as u32);
        assert_eq!(f.target_hw, HwAddr::broadcast());
        assert_eq!(f.eth_dst, HwAddr::broadcast());
        assert_eq!(f.sender_ip, 0xC0A8_014D);
        assert_eq!(f.operation, OP_REQUEST);
    }
}

#[test]
fn limit_past_subnet_sweeps_whole_subnet() {
    let net = Ipv4Subnet::new(0x0A00_0006, 30).unwrap();
    assert_eq!(net.size(), 4);
    assert_eq!(net.sweep_targets(10), vec![0x0A00_0004, 0x0A00_0005, 0x0A00_0006, 0x0A00_0007]);
    let single = Ipv4Subnet::new(0x0A00_0006, 32).unwrap();
    assert_eq!(single.sweep_targets(5), vec![0x0A00_0006]);
}

#[test]
fn subnet_sizes_and_positions() {
    let whole = Ipv4Subnet::new(0x0102_0304, 0).unwrap();
    assert_eq!(whole.size(), u32::MAX);
    assert_eq!(whole.nth(7), Some(7));
    assert_eq!(whole.nth(u32::MAX), None);
    let net = Ipv4Subnet::new(0x0A01_0920, 16).unwrap();
    assert_eq!(net.size(), 65536);
    assert_eq!(net.nth(256), Some(0x0A01_0100));
    assert_eq!(net.nth(65536), None);
    assert_eq!(Ipv4Subnet::new(0, 33), None);
}

#[test]
fn resolve_picks_first_ipv4_network() {
    let hw = HwAddr(1, 2, 3, 4, 5, 6);
    assert_eq!(resolve_local(hw, &vec![]), Err(ScanError::NoIpv4Address));
    assert_eq!(resolve_local(hw, &vec![IpAssignment::V6]), Err(ScanError::NoIpv4Address));
    let a = Ipv4Subnet::new(IP_10_0_0_1, 8).unwrap();
    let b = Ipv4Subnet::new(IP_10_0_0_5, 24).unwrap();
    let ips = vec![IpAssignment::V6, IpAssignment::V4(a), IpAssignment::V4(b)];
    assert_eq!(resolve_local(hw, &ips), Ok(LocalHost { hw, net: a }));
}

#[test]
fn address_texts() {
    assert_eq!(ipv4_text(0), "0.0.0.0");
    assert_eq!(ipv4_text(u32::MAX), "255.255.255.255");
    assert_eq!(ipv4_text(0xC0A8_0A63), "192.168.10.99");
    assert_eq!(ipv4_octets(0xC0A8_0A63), (192, 168, 10, 99));
    assert_eq!(HwAddr(0, 0x0a, 0xff, 0x10, 1, 0xab).to_text(), "00:0a:ff:10:01:ab");
    assert_eq!(HwAddr::broadcast().to_text(), "ff:ff:ff:ff:ff:ff");
}
