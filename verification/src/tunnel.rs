//! The tunnel frame protocol between nodes and the server.
//!
//! A frame travels over a TCP stream as
//!
//! ```text
//! [4 bytes: payload_len (big-endian u32)][1 byte: frame_type][payload bytes]
//! ```
//!
//! where `payload_len` counts the type byte and the payload.

use vstd::prelude::*;
use vstd::slice::{slice_subrange, slice_to_vec};
use vstd::string::*;
use crate::text::{decimal, hex2, push_decimal, push_hex2, push_str, string_from_chars};

verus! {

/// Largest `payload_len` (type byte included) that a reader accepts: an
/// IPv4 packet of at most 65535 bytes and its type byte.
pub const MAX_PAYLOAD_LEN: usize = 65536;

/// The kinds of frame.
#[derive(Debug, Clone, Copy, PartialEq, Eq, Structural)]
pub enum FrameType {
    /// Client to server: the node id, to authenticate.
    Auth,
    /// Server to client: the outcome of authentication and the route table.
    AuthAck,
    /// Both ways: one IPv4 packet.
    IpPacket,
    /// Both ways: keep-alive.
    Heartbeat,
    /// Server to client: a new route table.
    RouteUpdate,
    /// Both ways: the connection ends.
    Disconnect,
}

impl FrameType {
    /// The byte that stands for the frame type on the wire.
    pub open spec fn code(self) -> u8 {
        match self {
            FrameType::Auth => 1,
            FrameType::AuthAck => 2,
            FrameType::IpPacket => 3,
            FrameType::Heartbeat => 4,
            FrameType::RouteUpdate => 5,
            FrameType::Disconnect => 6,
        }
    }

    /// The name used in logs.
    pub open spec fn name(self) -> Seq<char> {
        match self {
            FrameType::Auth => "Auth"@,
            FrameType::AuthAck => "AuthAck"@,
            FrameType::IpPacket => "IpPacket"@,
            FrameType::Heartbeat => "Heartbeat"@,
            FrameType::RouteUpdate => "RouteUpdate"@,
            FrameType::Disconnect => "Disconnect"@,
        }
    }

    /// The wire byte of the frame type.
    pub fn value(&self) -> (v: u8)
        ensures
            v == self.code(),
    {
        match self {
            FrameType::Auth => 1,
            FrameType::AuthAck => 2,
            FrameType::IpPacket => 3,
            FrameType::Heartbeat => 4,
            FrameType::RouteUpdate => 5,
            FrameType::Disconnect => 6,
        }
    }

    /// The name of the frame type, for logs.
    pub fn as_str(&self) -> (s: &'static str)
        ensures
            s@ == self.name(),
    {
        match self {
            FrameType::Auth => "Auth",
            FrameType::AuthAck => "AuthAck",
            FrameType::IpPacket => "IpPacket",
            FrameType::Heartbeat => "Heartbeat",
            FrameType::RouteUpdate => "RouteUpdate",
            FrameType::Disconnect => "Disconnect",
        }
    }

    /// The frame type that a wire byte stands for, or the message that
    /// names the unknown byte (`未知的帧类型: 0x..`, two upper-case hex digits).
    pub fn try_from(value: u8) -> (r: Result<FrameType, String>)
        ensures
            match frame_type_of(value) {
                Some(t) => r == Ok::<FrameType, String>(t),
                None => r matches Err(m) && m@ == unknown_type_message(value),
            },
    {
        match value {
            1 => Ok(FrameType::Auth),
            2 => Ok(FrameType::AuthAck),
            3 => Ok(FrameType::IpPacket),
            4 => Ok(FrameType::Heartbeat),
            5 => Ok(FrameType::RouteUpdate),
            6 => Ok(FrameType::Disconnect),
            _ => {
                let mut v: Vec<char> = Vec::new();
                push_str(&mut v, "未知的帧类型: 0x");
                push_hex2(&mut v, value);
                Err(string_from_chars(v.as_slice()))
            },
        }
    }
}

/// The frame type whose wire byte is `b`.
pub open spec fn frame_type_of(b: u8) -> Option<FrameType> {
    if b == 1 {
        Some(FrameType::Auth)
    } else if b == 2 {
        Some(FrameType::AuthAck)
    } else if b == 3 {
        Some(FrameType::IpPacket)
    } else if b == 4 {
        Some(FrameType::Heartbeat)
    } else if b == 5 {
        Some(FrameType::RouteUpdate)
    } else if b == 6 {
        Some(FrameType::Disconnect)
    } else {
        None
    }
}

/// The message for an unknown frame-type byte.
pub open spec fn unknown_type_message(b: u8) -> Seq<char> {
    "未知的帧类型: 0x"@ + hex2(b)
}

/// Each frame type's byte names it again, and only the six bytes `1..=6`
/// name a frame type.
pub proof fn lemma_frame_type_code(t: FrameType, b: u8)
    ensures
        frame_type_of(t.code()) == Some(t),
        frame_type_of(b) is Some <==> 1 <= b <= 6,
        frame_type_of(b) matches Some(u) ==> u.code() == b,
{
}

/// A tunnel frame: its type and its payload.
#[derive(Debug, Clone, PartialEq, Eq)]
pub struct Frame {
    pub frame_type: FrameType,
    pub payload: Vec<u8>,
}

impl View for Frame {
    type V = (FrameType, Seq<u8>);

    open spec fn view(&self) -> (FrameType, Seq<u8>) {
        (self.frame_type, self.payload@)
    }
}

/// The four big-endian bytes of `x < 2^32`.
pub open spec fn be_bytes(x: nat) -> Seq<u8> {
    seq![(x / 16777216) as u8, ((x / 65536) % 256) as u8, ((x / 256) % 256) as u8, (x % 256) as u8]
}

/// The big-endian number in the first four bytes of `b`.
pub open spec fn be_u32(b: Seq<u8>) -> nat {
    (b[0] as nat) * 16777216 + (b[1] as nat) * 65536 + (b[2] as nat) * 256 + (b[3] as nat)
}

/// The length field written for a payload of `n` bytes: `n + 1`, taken
/// modulo 2^32, or 0 where that sum does not fit a `u32`.
pub open spec fn length_field(n: nat) -> nat {
    let m = n % 0x1_0000_0000;
    if m == 0xffff_ffff {
        0
    } else {
        m + 1
    }
}

/// The bytes of an encoded frame.
pub open spec fn frame_bytes(t: FrameType, payload: Seq<u8>) -> Seq<u8> {
    be_bytes(length_field(payload.len())) + seq![t.code()] + payload
}

/// The frame at the start of `buf`, if `buf` holds a whole valid one.
pub open spec fn spec_decode(buf: Seq<u8>) -> Option<(FrameType, Seq<u8>)> {
    if buf.len() < 5 {
        None
    } else {
        let l = be_u32(buf);
        if l == 0 || buf.len() < 4 + l {
            None
        } else {
            match frame_type_of(buf[4]) {
                None => None,
                Some(t) => Some((t, buf.subrange(5, 4 + l as int))),
            }
        }
    }
}

proof fn lemma_be_roundtrip(x: nat)
    requires
        x < 0x1_0000_0000,
    ensures
        be_u32(be_bytes(x)) == x,
        be_bytes(x).len() == 4,
{
    let b = be_bytes(x);
    assert(b[0] as nat == x / 16777216);
    assert(b[1] as nat == (x / 65536) % 256);
    assert(b[2] as nat == (x / 256) % 256);
    assert(b[3] as nat == x % 256);
}

/// Decoding the bytes of an encoded frame, followed by anything at all,
/// gives that frame back, for every payload shorter than `2^32 - 1` bytes.
pub proof fn lemma_decode_encode(t: FrameType, payload: Seq<u8>, rest: Seq<u8>)
    requires
        payload.len() + 1 < 0x1_0000_0000,
    ensures
        spec_decode(frame_bytes(t, payload) + rest) == Some((t, payload)),
        spec_decode(frame_bytes(t, payload)) == Some((t, payload)),
{
    let l = payload.len() + 1;
    assert(length_field(payload.len()) == l);
    lemma_be_roundtrip(l);
    let b = frame_bytes(t, payload);
    let br = b + rest;
    assert(b.len() == 4 + l);
    assert(be_u32(br) == be_u32(be_bytes(l)));
    assert(be_u32(b) == be_u32(be_bytes(l)));
    assert(br[4] == t.code());
    assert(b[4] == t.code());
    assert(br.subrange(5, 4 + l as int) =~= payload);
    assert(b.subrange(5, 4 + l as int) =~= payload);
}

impl Frame {
    /// A frame of the given type and payload.
    pub fn new(frame_type: FrameType, payload: Vec<u8>) -> (f: Frame)
        ensures
            f.frame_type == frame_type,
            f.payload@ == payload@,
    {
        Frame { frame_type, payload }
    }

    /// The bytes of the frame on the wire.
    pub fn encode(&self) -> (buf: Vec<u8>)
        ensures
            buf@ == frame_bytes(self.frame_type, self.payload@),
    {
        let n = self.payload.len();
        let m: u64 = (n as u64) % 0x1_0000_0000;
        let payload_len: u32 = 1u32.checked_add(m as u32).unwrap_or(0);
        assert(payload_len == length_field(n as nat));
        let mut buf: Vec<u8> = Vec::new();
        buf.push((payload_len / 16777216) as u8);
        buf.push(((payload_len / 65536) % 256) as u8);
        buf.push(((payload_len / 256) % 256) as u8);
        buf.push((payload_len % 256) as u8);
        buf.push(self.frame_type.value());
        let ghost head = buf@;
        assert(head =~= be_bytes(payload_len as nat) + seq![self.frame_type.code()]);
        let mut i: usize = 0;
        while i < n
            invariant
                n == self.payload@.len(),
                i <= n,
                buf@ == head + self.payload@.subrange(0, i as int),
            decreases n - i,
        {
            buf.push(self.payload[i]);
            i += 1;
            assert(buf@ =~= head + self.payload@.subrange(0, i as int));
        }
        assert(self.payload@.subrange(0, n as int) =~= self.payload@);
        buf
    }

    /// The frame at the start of `buf`; `None` where `buf` holds less than a
    /// whole frame, its length field is 0, or its type byte is unknown.
    pub fn decode(buf: &[u8]) -> (r: Option<Frame>)
        ensures
            match spec_decode(buf@) {
                Some(v) => r matches Some(f) && f@ == v,
                None => r is None,
            },
    {
        if buf.len() < 5 {
            return None;
        }
        let l: u64 = (buf[0] as u64) * 16777216 + (buf[1] as u64) * 65536 + (buf[2] as u64) * 256
            + (buf[3] as u64);
        assert(l == be_u32(buf@));
        if l == 0 {
            return None;
        }
        if ((buf.len() - 4) as u64) < l {
            return None;
        }
        let frame_type = match FrameType::try_from(buf[4]) {
            Ok(t) => t,
            Err(_) => {
                return None;
            },
        };
        let end: usize = 4 + (l as usize);
        let payload = slice_to_vec(slice_subrange(buf, 5, end));
        Some(Frame { frame_type, payload })
    }

    /// An authentication frame: the node id's UTF-8 bytes.
    pub fn auth(node_id: &str) -> (f: Frame)
        ensures
            f.frame_type == FrameType::Auth,
            f.payload@ == node_id.spec_bytes(),
    {
        Frame::new(FrameType::Auth, slice_to_vec(node_id.as_bytes()))
    }

    /// An authentication reply: one byte for success (1) or failure (0),
    /// then the route table's JSON as UTF-8.
    pub fn auth_ack(success: bool, routes_json: &str) -> (f: Frame)
        ensures
            f.frame_type == FrameType::AuthAck,
            f.payload@ == seq![if success { 1u8 } else { 0u8 }] + routes_json.spec_bytes(),
    {
        let bytes = routes_json.as_bytes();
        let mut payload: Vec<u8> = Vec::new();
        payload.push(if success { 1 } else { 0 });
        let n = bytes.len();
        let mut i: usize = 0;
        while i < n
            invariant
                n == bytes@.len(),
                i <= n,
                payload@ == seq![if success { 1u8 } else { 0u8 }] + bytes@.subrange(0, i as int),
            decreases n - i,
        {
            payload.push(bytes[i]);
            i += 1;
            assert(payload@ =~= seq![if success { 1u8 } else { 0u8 }] + bytes@.subrange(0, i as int));
        }
        assert(bytes@.subrange(0, n as int) =~= bytes@);
        Frame::new(FrameType::AuthAck, payload)
    }

    /// A frame that carries one IP packet.
    pub fn ip_packet(packet: &[u8]) -> (f: Frame)
        ensures
            f.frame_type == FrameType::IpPacket,
            f.payload@ == packet@,
    {
        Frame::new(FrameType::IpPacket, slice_to_vec(packet))
    }

    /// A keep-alive frame, with no payload.
    pub fn heartbeat() -> (f: Frame)
        ensures
            f.frame_type == FrameType::Heartbeat,
            f.payload@ == Seq::<u8>::empty(),
    {
        Frame::new(FrameType::Heartbeat, Vec::new())
    }

    /// A route-update frame: the route table's JSON as UTF-8.
    pub fn route_update(routes_json: &str) -> (f: Frame)
        ensures
            f.frame_type == FrameType::RouteUpdate,
            f.payload@ == routes_json.spec_bytes(),
    {
        Frame::new(FrameType::RouteUpdate, slice_to_vec(routes_json.as_bytes()))
    }

    /// A disconnect frame: the reason as UTF-8.
    pub fn disconnect(reason: &str) -> (f: Frame)
        ensures
            f.frame_type == FrameType::Disconnect,
            f.payload@ == reason.spec_bytes(),
    {
        Frame::new(FrameType::Disconnect, slice_to_vec(reason.as_bytes()))
    }
}

/// A route in an authentication reply or a route update: a mapped segment
/// and where it leads.
#[derive(Debug, Clone)]
pub struct TunnelRoute {
    /// The mapped segment, such as `100.64.1.0/24`.
    pub mapped_cidr: String,
    /// The node behind it.
    pub target_node_id: String,
    /// That node's name.
    pub target_node_name: String,
    /// The real segment, such as `192.168.1.0/24`.
    pub real_cidr: String,
    /// The segment's name.
    pub segment_name: String,
}

/// What the server answers to an authentication: the outcome, the node's
/// virtual address, its routes, and the reason of a refusal.
#[derive(Debug, Clone)]
pub struct AuthAckData {
    pub success: bool,
    pub virtual_ip: Option<String>,
    pub routes: Vec<TunnelRoute>,
    pub error_message: Option<String>,
}

impl AuthAckData {
    /// A refusal with its reason.
    pub fn refusal(reason: String) -> (d: AuthAckData)
        ensures
            !d.success,
            d.virtual_ip is None,
            d.routes@.len() == 0,
            d.error_message == Some(reason),
    {
        AuthAckData { success: false, virtual_ip: None, routes: Vec::new(), error_message: Some(reason) }
    }

    /// An acceptance with the node's virtual address and routes.
    pub fn accepted(virtual_ip: Option<String>, routes: Vec<TunnelRoute>) -> (d: AuthAckData)
        ensures
            d.success,
            d.virtual_ip == virtual_ip,
            d.routes == routes,
            d.error_message is None,
    {
        AuthAckData { success: true, virtual_ip, routes, error_message: None }
    }
}

// ------------------------------------------------------------------
// Reading frames from a stream
// ------------------------------------------------------------------

/// Why a frame read from a stream is refused.
#[derive(Debug, Clone, PartialEq, Eq)]
pub enum FrameError {
    /// The length prefix is 0.
    ZeroLength,
    /// The length prefix is above [`MAX_PAYLOAD_LEN`].
    TooLong(u32),
    /// The type byte is unknown; the message names it.
    UnknownType(String),
}

impl FrameError {
    /// The message of the error.
    pub fn message(&self) -> (s: String)
        ensures
            s@ == match self {
                FrameError::ZeroLength => "帧长度为 0（无效）"@,
                FrameError::TooLong(n) => "帧长度过大: "@ + decimal(*n as nat) + "（最大 65536）"@,
                FrameError::UnknownType(m) => "无效的帧类型: "@ + m@,
            },
    {
        match self {
            FrameError::ZeroLength => "帧长度为 0（无效）".to_owned(),
            FrameError::TooLong(n) => {
                let mut v: Vec<char> = Vec::new();
                push_str(&mut v, "帧长度过大: ");
                push_decimal(&mut v, *n as u64);
                push_str(&mut v, "（最大 65536）");
                string_from_chars(v.as_slice())
            },
            FrameError::UnknownType(m) => {
                let mut v: Vec<char> = Vec::new();
                push_str(&mut v, "无效的帧类型: ");
                push_str(&mut v, m.as_str());
                string_from_chars(v.as_slice())
            },
        }
    }
}

/// What a reader does with a length prefix: the number of bytes to read
/// next, or why the frame is refused.
pub open spec fn spec_body_len(prefix: Seq<u8>) -> Result<nat, FrameError> {
    let l = be_u32(prefix);
    if l == 0 {
        Err(FrameError::ZeroLength)
    } else if l > MAX_PAYLOAD_LEN {
        Err(FrameError::TooLong(l as u32))
    } else {
        Ok(l)
    }
}

/// Checks a frame's four-byte length prefix; gives the number of bytes (type
/// byte and payload) that follow it.
pub fn frame_body_len(prefix: [u8; 4]) -> (r: Result<usize, FrameError>)
    ensures
        match spec_body_len(prefix@) {
            Ok(n) => r == Ok::<usize, FrameError>(n as usize),
            Err(e) => r == Err::<usize, FrameError>(e),
        },
{
    let l: u32 = (prefix[0] as u32) * 16777216 + (prefix[1] as u32) * 65536 + (prefix[2] as u32)
        * 256 + (prefix[3] as u32);
    if l == 0 {
        return Err(FrameError::ZeroLength);
    }
    if l as usize > MAX_PAYLOAD_LEN {
        return Err(FrameError::TooLong(l));
    }
    Ok(l as usize)
}

// ------------------------------------------------------------------
// Frames read back from a stream
// ------------------------------------------------------------------

/// What a stream reader takes from the front of `b`: the four-byte length
/// prefix checked as [`frame_body_len`] checks it, then that many bytes read
/// as [`frame_from_body`] reads them. `None` where `b` ends before the frame
/// does; `Some(None)` where the frame is refused; else the frame and the
/// number of bytes it took.
pub open spec fn spec_read_frame(b: Seq<u8>) -> Option<Option<((FrameType, Seq<u8>), nat)>> {
    if b.len() < 4 {
        None
    } else {
        match spec_body_len(b.subrange(0, 4)) {
            Err(_) => Some(None),
            Ok(n) => if b.len() < 4 + n {
                None
            } else {
                match frame_type_of(b[4]) {
                    None => Some(None),
                    Some(t) => Some(Some(((t, b.subrange(5, 4 + n as int)), (4 + n) as nat))),
                }
            },
        }
    }
}

/// The frames that `k` successive reads take from the front of `b`, where
/// each of them gives a frame.
pub open spec fn spec_read_frames(b: Seq<u8>, k: nat) -> Option<Seq<(FrameType, Seq<u8>)>>
    decreases k,
{
    if k == 0 {
        Some(Seq::empty())
    } else {
        match spec_read_frame(b) {
            Some(Some((f, used))) => match spec_read_frames(b.subrange(used as int, b.len() as int), (k - 1) as nat) {
                Some(fs) => Some(seq![f] + fs),
                None => None,
            },
            _ => None,
        }
    }
}

/// The bytes that writing the frames `fs` one after another puts on a
/// stream.
pub open spec fn frames_bytes(fs: Seq<(FrameType, Seq<u8>)>) -> Seq<u8>
    decreases fs.len(),
{
    if fs.len() == 0 {
        Seq::empty()
    } else {
        frame_bytes(fs[0].0, fs[0].1) + frames_bytes(fs.drop_first())
    }
}

/// A read of an encoded frame, whatever follows it, gives that frame and
/// takes exactly its bytes, for every payload of at most 65535 bytes.
pub proof fn lemma_read_encoded_frame(t: FrameType, payload: Seq<u8>, rest: Seq<u8>)
    requires
        payload.len() + 1 <= MAX_PAYLOAD_LEN,
    ensures
        spec_read_frame(frame_bytes(t, payload) + rest) == Some(
            Some(((t, payload), frame_bytes(t, payload).len())),
        ),
{
    let l = payload.len() + 1;
    assert(length_field(payload.len()) == l);
    lemma_be_roundtrip(l);
    let b = frame_bytes(t, payload);
    let br = b + rest;
    assert(b.len() == 4 + l);
    assert(br.subrange(0, 4) =~= be_bytes(l));
    assert(spec_body_len(br.subrange(0, 4)) == Ok::<nat, FrameError>(l));
    assert(br[4] == t.code());
    assert(br.subrange(5, 4 + l as int) =~= payload);
}

/// A length prefix of 0, or above the largest frame, makes a read refuse the
/// frame.
pub proof fn lemma_read_refuses_bad_prefix(b: Seq<u8>)
    requires
        b.len() >= 4,
        be_u32(b) == 0 || be_u32(b) > MAX_PAYLOAD_LEN,
    ensures
        spec_read_frame(b) == Some(None::<((FrameType, Seq<u8>), nat)>),
{
    assert(be_u32(b.subrange(0, 4)) == be_u32(b));
}

/// Frames written one after another onto a stream, each with at most 65535
/// bytes of payload, are read back by as many reads, in order.
pub proof fn lemma_read_frames(fs: Seq<(FrameType, Seq<u8>)>)
    requires
        forall|i: int| 0 <= i < fs.len() ==> (#[trigger] fs[i]).1.len() + 1 <= MAX_PAYLOAD_LEN,
    ensures
        spec_read_frames(frames_bytes(fs), fs.len()) == Some(fs),
    decreases fs.len(),
{
    if fs.len() > 0 {
        let first = frame_bytes(fs[0].0, fs[0].1);
        let rest = frames_bytes(fs.drop_first());
        assert(frames_bytes(fs) == first + rest);
        lemma_read_encoded_frame(fs[0].0, fs[0].1, rest);
        assert((first + rest).subrange(first.len() as int, (first + rest).len() as int) =~= rest);
        assert forall|i: int| 0 <= i < fs.drop_first().len() implies (#[trigger] fs.drop_first()[i]).1.len() + 1
            <= MAX_PAYLOAD_LEN by {
            assert(fs.drop_first()[i] == fs[i + 1]);
        }
        lemma_read_frames(fs.drop_first());
        assert(seq![fs[0]] + fs.drop_first() =~= fs);
    }
}

/// The frame whose body (type byte and payload) a reader has read.
pub fn frame_from_body(body: &[u8]) -> (r: Result<Frame, FrameError>)
    requires
        body@.len() >= 1,
    ensures
        match frame_type_of(body@[0]) {
            Some(t) => r matches Ok(f) && f@ == (t, body@.subrange(1, body@.len() as int)),
            None => r matches Err(FrameError::UnknownType(m)) && m@ == unknown_type_message(body@[0]),
        },
{
    match FrameType::try_from(body[0]) {
        Ok(t) => {
            let payload = slice_to_vec(slice_subrange(body, 1, body.len()));
            Ok(Frame { frame_type: t, payload })
        },
        Err(m) => Err(FrameError::UnknownType(m)),
    }
}

} // verus!
