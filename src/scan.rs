use vstd::prelude::*;
use crate::addr::{HwAddr, broadcast_spec, hw_text_spec, ipv4_text, ipv4_text_spec};
use crate::frame::{
    lemma_frame_round_trip, ArpFrame, FRAME_LEN, OP_REPLY, OP_REQUEST, decode_frame, decode_spec, encode_frame, frame_bytes,
};
use crate::subnet::{
    lemma_sweep_prefix_ascending, lemma_zero_limit_sweeps_nothing, Ipv4Subnet, subnet_base,
    subnet_size, sweep_spec,
};

verus! {

/// Why a scan cannot go on.
#[derive(Clone, Copy, Debug, PartialEq, Eq, Structural)]
pub enum ScanError {
    /// No interface stands at the requested position.
    InterfaceNotFound,
    /// The interface has no IPv4 network assigned.
    NoIpv4Address,
    /// A send or receive capture could not be opened on the interface.
    CaptureOpen,
    /// The receive capture failed as a whole (not a single bad frame).
    CaptureRead,
}

/// One network assigned to an interface; the scan reads only IPv4 ones.
#[derive(Clone, Copy, Debug, PartialEq, Eq, Structural)]
pub enum IpAssignment {
    V4(Ipv4Subnet),
    V6,
}

/// The scanning host: its hardware address and its IPv4 network, whose
/// address is the host's own.
#[derive(Clone, Copy, Debug, PartialEq, Eq, Structural)]
pub struct LocalHost {
    pub hw: HwAddr,
    pub net: Ipv4Subnet,
}

/// A host that answered: its IPv4 address and hardware address.
#[derive(Clone, Copy, Debug, PartialEq, Eq, Structural)]
pub struct Reply {
    pub ip: u32,
    pub hw: HwAddr,
}

/// What the listener does with one event of its capture.
#[derive(Debug)]
pub enum CaptureEvent {
    /// A frame was read.
    Frame(Vec<u8>),
    /// The capture itself failed.
    ReadFailed,
}

/// The listener's decision on one capture event.
#[derive(Clone, Copy, Debug, PartialEq, Eq, Structural)]
pub enum ListenerAction {
    /// Hand this reply to the collector.
    Forward(Reply),
    /// Ignore the frame and read the next one.
    Skip,
    /// Stop listening and report the error.
    Stop(ScanError),
}

impl Reply {
    /// The reply as text: dotted-decimal address and colon-separated
    /// hardware address.
    pub fn to_text(&self) -> (r: (String, String))
        ensures
            r.0@ == ipv4_text_spec(self.ip),
            r.1@ == hw_text_spec(self.hw),
    {
        (ipv4_text(self.ip), self.hw.to_text())
    }
}

/// The replies as text pairs, in order.
pub fn replies_text(replies: &Vec<Reply>) -> (r: Vec<(String, String)>)
    ensures
        r@.len() == replies@.len(),
        forall|k: int|
            0 <= k < r@.len() ==> (#[trigger] r@[k]).0@ == ipv4_text_spec(replies@[k].ip)
                && r@[k].1@ == hw_text_spec(replies@[k].hw),
{
    let mut out: Vec<(String, String)> = Vec::new();
    let mut i: usize = 0;
    while i < replies.len()
        invariant
            i <= replies@.len(),
            out@.len() == i,
            forall|k: int|
                0 <= k < i ==> (#[trigger] out@[k]).0@ == ipv4_text_spec(replies@[k].ip)
                    && out@[k].1@ == hw_text_spec(replies@[k].hw),
        decreases replies@.len() - i,
    {
        out.push(replies[i].to_text());
        i = i + 1;
    }
    out
}

/// The first IPv4 network at or after position `i`.
pub open spec fn first_v4_from(ips: Seq<IpAssignment>, i: int) -> Option<Ipv4Subnet>
    decreases ips.len() - i,
{
    if i < 0 || i >= ips.len() {
        None
    } else {
        match ips[i] {
            IpAssignment::V4(n) => Some(n),
            IpAssignment::V6 => first_v4_from(ips, i + 1),
        }
    }
}

/// The fields of the request that probes `target_ip` from `host`: sent to the
/// broadcast address and asking for the target's hardware address.
pub open spec fn request_fields(host: LocalHost, target_ip: u32) -> ArpFrame {
    ArpFrame {
        eth_dst: broadcast_spec(),
        eth_src: host.hw,
        operation: OP_REQUEST,
        sender_hw: host.hw,
        sender_ip: host.net.addr,
        target_hw: broadcast_spec(),
        target_ip,
    }
}

/// The reply a captured frame carries: present only for a well-formed reply.
pub open spec fn reply_spec(b: Seq<u8>) -> Option<Reply> {
    match decode_spec(b) {
        Some(f) => if f.operation == OP_REPLY {
            Some(Reply { ip: f.sender_ip, hw: f.sender_hw })
        } else {
            None
        },
        None => None,
    }
}

/// The replies found in a sequence of captured frames, in capture order.
pub open spec fn collect_spec(frames: Seq<Seq<u8>>) -> Seq<Reply>
    decreases frames.len(),
{
    if frames.len() == 0 {
        Seq::empty()
    } else {
        let rest = collect_spec(frames.drop_last());
        match reply_spec(frames.last()) {
            Some(r) => rest.push(r),
            None => rest,
        }
    }
}

/// The scanning host from an interface's hardware address and assigned
/// networks: the first IPv4 network, or `NoIpv4Address` when there is none.
pub fn resolve_local(hw: HwAddr, ips: &Vec<IpAssignment>) -> (r: Result<LocalHost, ScanError>)
    requires
        forall|k: int| 0 <= k < ips@.len() ==> (#[trigger] ips@[k] matches IpAssignment::V4(n) ==> n.wf()),
    ensures
        first_v4_from(ips@, 0) is None ==> r == Err::<LocalHost, ScanError>(
            ScanError::NoIpv4Address,
        ),
        first_v4_from(ips@, 0) matches Some(n) ==> r == Ok::<LocalHost, ScanError>(
            (LocalHost { hw, net: n }),
        ),
        r matches Ok(h) ==> h.net.wf(),
{
    let mut i: usize = 0;
    while i < ips.len()
        invariant
            i <= ips@.len(),
            first_v4_from(ips@, 0) == first_v4_from(ips@, i as int),
            forall|k: int|
                0 <= k < ips@.len() ==> (#[trigger] ips@[k] matches IpAssignment::V4(n) ==> n.wf()),
        decreases ips@.len() - i,
    {
        match ips[i] {
            IpAssignment::V4(n) => {
                return Ok(LocalHost { hw, net: n });
            },
            IpAssignment::V6 => {},
        }
        i = i + 1;
    }
    Err(ScanError::NoIpv4Address)
}

/// The request frame that probes `target_ip` from `host`.
pub fn request_frame(host: &LocalHost, target_ip: u32) -> (r: Vec<u8>)
    ensures
        r@ == frame_bytes(request_fields(*host, target_ip)),
        r@.len() == FRAME_LEN,
{
    let f = ArpFrame {
        eth_dst: HwAddr::broadcast(),
        eth_src: host.hw,
        operation: OP_REQUEST,
        sender_hw: host.hw,
        sender_ip: host.net.addr,
        target_hw: HwAddr::broadcast(),
        target_ip,
    };
    encode_frame(&f)
}

/// The reply a captured frame carries, if it is a well-formed reply.
pub fn reply_of_frame(b: &[u8]) -> (r: Option<Reply>)
    ensures
        r == reply_spec(b@),
{
    match decode_frame(b) {
        Some(f) => if f.operation == OP_REPLY {
            Some(Reply { ip: f.sender_ip, hw: f.sender_hw })
        } else {
            None
        },
        None => None,
    }
}

/// The listener's decision on one capture event: replies are forwarded,
/// every other frame is skipped, a failed capture stops the listener.
pub fn listener_step(ev: &CaptureEvent) -> (r: ListenerAction)
    ensures
        ev matches CaptureEvent::Frame(b) ==> r == (match reply_spec(b@) {
            Some(rep) => ListenerAction::Forward(rep),
            None => ListenerAction::Skip,
        }),
        ev is ReadFailed ==> r == ListenerAction::Stop(ScanError::CaptureRead),
{
    match ev {
        CaptureEvent::Frame(b) => match reply_of_frame(b.as_slice()) {
            Some(rep) => ListenerAction::Forward(rep),
            None => ListenerAction::Skip,
        },
        CaptureEvent::ReadFailed => ListenerAction::Stop(ScanError::CaptureRead),
    }
}

/// The replies found in captured frames, in capture order; other frames are
/// skipped.
pub fn collect_replies(frames: &Vec<Vec<u8>>) -> (r: Vec<Reply>)
    ensures
        r@ == collect_spec(frames.deep_view()),
{
    let mut out: Vec<Reply> = Vec::new();
    let mut i: usize = 0;
    while i < frames.len()
        invariant
            i <= frames@.len(),
            out@ == collect_spec(frames.deep_view().subrange(0, i as int)),
        decreases frames@.len() - i,
    {
        let ghost pre = frames.deep_view().subrange(0, i as int);
        let ghost next = frames.deep_view().subrange(0, i as int + 1);
        assert(next.drop_last() =~= pre);
        assert(next.last() == frames@[i as int]@);
        match reply_of_frame(frames[i].as_slice()) {
            Some(rep) => out.push(rep),
            None => {},
        }
        i = i + 1;
    }
    assert(frames.deep_view().subrange(0, frames@.len() as int) =~= frames.deep_view());
    out
}

/// Collecting over two runs of frames gives the replies of the first run,
/// then those of the second.
pub proof fn lemma_collect_concat(a: Seq<Seq<u8>>, b: Seq<Seq<u8>>)
    ensures
        collect_spec(a + b) == collect_spec(a) + collect_spec(b),
    decreases b.len(),
{
    if b.len() == 0 {
        assert(a + b =~= a);
        assert(collect_spec(a) + collect_spec(b) =~= collect_spec(a));
    } else {
        lemma_collect_concat(a, b.drop_last());
        assert((a + b).drop_last() =~= a + b.drop_last());
        assert((a + b).last() == b.last());
        match reply_spec(b.last()) {
            Some(r) => {
                assert(collect_spec(a) + collect_spec(b) =~= (collect_spec(a) + collect_spec(
                    b.drop_last(),
                )).push(r));
            },
            None => {},
        }
    }
}

proof fn lemma_collect_around(a: Seq<Seq<u8>>, b: Seq<u8>, c: Seq<Seq<u8>>)
    ensures
        collect_spec(a + seq![b] + c) == collect_spec(a) + (match reply_spec(b) {
            Some(r) => seq![r],
            None => Seq::empty(),
        }) + collect_spec(c),
{
    lemma_collect_concat(a + seq![b], c);
    lemma_collect_concat(a, seq![b]);
    assert(seq![b].drop_last() =~= Seq::<Seq<u8>>::empty());
    assert(collect_spec(Seq::<Seq<u8>>::empty()) == Seq::<Reply>::empty());
    match reply_spec(b) {
        Some(r) => assert(collect_spec(seq![b]) =~= seq![r]),
        None => assert(collect_spec(seq![b]) =~= Seq::<Reply>::empty()),
    }
}

/// A captured frame that is too short to be an address-resolution frame adds
/// nothing to the result, and the frames around it are collected as usual.
pub proof fn lemma_short_frame_skipped(a: Seq<Seq<u8>>, b: Seq<u8>, c: Seq<Seq<u8>>)
    requires
        b.len() < FRAME_LEN,
    ensures
        collect_spec(a + seq![b] + c) == collect_spec(a) + collect_spec(c),
{
    lemma_collect_around(a, b, c);
    assert(collect_spec(a) + Seq::<Reply>::empty() =~= collect_spec(a));
}

/// A captured frame whose operation is not a reply (a request, say) never
/// appears in the result, and the frames around it are collected as usual.
pub proof fn lemma_non_reply_skipped(a: Seq<Seq<u8>>, b: Seq<u8>, c: Seq<Seq<u8>>, f: ArpFrame)
    requires
        decode_spec(b) == Some(f),
        f.operation != OP_REPLY,
    ensures
        collect_spec(a + seq![b] + c) == collect_spec(a) + collect_spec(c),
{
    lemma_collect_around(a, b, c);
    assert(collect_spec(a) + Seq::<Reply>::empty() =~= collect_spec(a));
}

/// A reply frame is collected as its sender's address pair, in its place
/// among the replies of the frames around it.
pub proof fn lemma_reply_collected(a: Seq<Seq<u8>>, f: ArpFrame, c: Seq<Seq<u8>>)
    requires
        f.operation == OP_REPLY,
    ensures
        collect_spec(a + seq![frame_bytes(f)] + c) == collect_spec(a) + seq![
            Reply { ip: f.sender_ip, hw: f.sender_hw },
        ] + collect_spec(c),
{
    lemma_frame_round_trip(f);
    lemma_collect_around(a, frame_bytes(f), c);
}

/// A request built by the host, broadcast target included, decodes as that
/// request and is never taken for a reply.
pub proof fn lemma_request_not_reply(host: LocalHost, target_ip: u32)
    ensures
        decode_spec(frame_bytes(request_fields(host, target_ip))) == Some(
            request_fields(host, target_ip),
        ),
        reply_spec(frame_bytes(request_fields(host, target_ip))) is None,
{
    lemma_frame_round_trip(request_fields(host, target_ip));
}

/// With a zero limit no request is built, and with no traffic nothing is
/// collected.
pub proof fn lemma_zero_limit_scan(host: LocalHost)
    ensures
        sweep_spec(host.net, 0).len() == 0,
        collect_spec(Seq::empty()) == Seq::<Reply>::empty(),
{
    lemma_zero_limit_sweeps_nothing(host.net);
}

/// The requests of a sweep whose limit the network can meet: one per
/// address of its first `k`, each decoding to a request from the host to
/// the broadcast address for a distinct, ascending target.
pub proof fn lemma_sweep_requests(host: LocalHost, k: nat)
    requires
        host.net.wf(),
        k <= subnet_size(host.net.prefix),
    ensures
        sweep_spec(host.net, k).len() == k,
        forall|i: int|
            0 <= i < k ==> decode_spec(
                #[trigger] frame_bytes(request_fields(host, sweep_spec(host.net, k)[i])),
            ) == Some(request_fields(host, sweep_spec(host.net, k)[i])),
        forall|i: int|
            0 <= i < k ==> (#[trigger] request_fields(host, sweep_spec(host.net, k)[i])).target_ip
                as nat == subnet_base(host.net.addr, host.net.prefix) + i,
        forall|t: u32|
            (#[trigger] request_fields(host, t)).target_hw == broadcast_spec()
                && request_fields(host, t).operation == OP_REQUEST,
        forall|i: int, j: int|
            0 <= i < j < k ==> #[trigger] sweep_spec(host.net, k)[i] < #[trigger] sweep_spec(
                host.net,
                k,
            )[j],
{
    lemma_sweep_prefix_ascending(host.net, k);
    assert forall|i: int| 0 <= i < k implies decode_spec(
        #[trigger] frame_bytes(request_fields(host, sweep_spec(host.net, k)[i])),
    ) == Some(request_fields(host, sweep_spec(host.net, k)[i])) by {
        lemma_frame_round_trip(request_fields(host, sweep_spec(host.net, k)[i]));
    }
}

} // verus!
