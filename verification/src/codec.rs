//! The SOCKS4 wire codec: the eight-byte request and reply headers
//! (big-endian port and address fields) and the zero-terminated
//! client-identification field.

use vstd::prelude::*;

verus! {

/// One connection request header as read off the wire: protocol
/// version, command code, destination port and destination IPv4
/// address held as a 32-bit value.
#[derive(Clone, Copy, Debug, PartialEq, Eq, Structural)]
pub struct ConnectRequest {
    pub version: u8,
    pub command: u8,
    pub dst_port: u16,
    pub dst_addr: u32,
}

/// The fixed-size reply sent back once a request has been read:
/// reply version (zero on the wire), status code, bound port and
/// bound address.
#[derive(Clone, Copy, Debug, PartialEq, Eq, Structural)]
pub struct ConnectReply {
    pub version: u8,
    pub status: u8,
    pub bound_port: u16,
    pub bound_addr: u32,
}

/// Status code of a granted connection.
pub const STATUS_GRANTED: u8 = 0x5a;

/// The 16-bit value that two big-endian bytes denote.
pub open spec fn be16(hi: u8, lo: u8) -> u16 {
    ((hi as u16) << 8) | (lo as u16)
}

/// The 32-bit value that four big-endian bytes denote.
pub open spec fn be32(b0: u8, b1: u8, b2: u8, b3: u8) -> u32 {
    ((b0 as u32) << 24) | ((b1 as u32) << 16) | ((b2 as u32) << 8) | (b3 as u32)
}

/// High byte of a 16-bit value.
pub open spec fn hi8(v: u16) -> u8 {
    ((v >> 8) & 0xff) as u8
}

/// Low byte of a 16-bit value.
pub open spec fn lo8(v: u16) -> u8 {
    (v & 0xff) as u8
}

/// Most significant byte of a 32-bit value.
pub open spec fn byte0(v: u32) -> u8 {
    ((v >> 24) & 0xff) as u8
}

/// Second byte of a 32-bit value.
pub open spec fn byte1(v: u32) -> u8 {
    ((v >> 16) & 0xff) as u8
}

/// Third byte of a 32-bit value.
pub open spec fn byte2(v: u32) -> u8 {
    ((v >> 8) & 0xff) as u8
}

/// Least significant byte of a 32-bit value.
pub open spec fn byte3(v: u32) -> u8 {
    (v & 0xff) as u8
}

/// The request that eight header bytes denote: byte 0 is the version,
/// byte 1 the command, bytes 2-3 the big-endian port, bytes 4-7 the
/// big-endian address.
pub open spec fn request_of_bytes(s: Seq<u8>) -> ConnectRequest
    recommends
        s.len() == 8,
{
    ConnectRequest {
        version: s[0],
        command: s[1],
        dst_port: be16(s[2], s[3]),
        dst_addr: be32(s[4], s[5], s[6], s[7]),
    }
}

/// The eight wire bytes of a request header.
pub open spec fn request_bytes(r: ConnectRequest) -> Seq<u8> {
    seq![
        r.version,
        r.command,
        hi8(r.dst_port),
        lo8(r.dst_port),
        byte0(r.dst_addr),
        byte1(r.dst_addr),
        byte2(r.dst_addr),
        byte3(r.dst_addr),
    ]
}

/// The eight wire bytes of a reply header.
pub open spec fn reply_bytes(r: ConnectReply) -> Seq<u8> {
    seq![
        r.version,
        r.status,
        hi8(r.bound_port),
        lo8(r.bound_port),
        byte0(r.bound_addr),
        byte1(r.bound_addr),
        byte2(r.bound_addr),
        byte3(r.bound_addr),
    ]
}

impl ConnectRequest {
    /// Build a request from its four header fields.
    pub fn new(version: u8, command: u8, dst_port: u16, dst_addr: u32) -> (r: ConnectRequest)
        ensures
            r == (ConnectRequest { version, command, dst_port, dst_addr }),
    {
        ConnectRequest { version, command, dst_port, dst_addr }
    }
}

impl ConnectReply {
    /// Build a reply from its four header fields.
    pub fn new(version: u8, status: u8, bound_port: u16, bound_addr: u32) -> (r: ConnectReply)
        ensures
            r == (ConnectReply { version, status, bound_port, bound_addr }),
    {
        ConnectReply { version, status, bound_port, bound_addr }
    }

    /// Serialise the reply as its eight wire bytes.
    pub fn to_bytes(&self) -> (out: Vec<u8>)
        ensures
            out@ == reply_bytes(*self),
    {
        let mut out: Vec<u8> = Vec::new();
        out.push(self.version);
        out.push(self.status);
        out.push(((self.bound_port >> 8) & 0xff) as u8);
        out.push((self.bound_port & 0xff) as u8);
        out.push(((self.bound_addr >> 24) & 0xff) as u8);
        out.push(((self.bound_addr >> 16) & 0xff) as u8);
        out.push(((self.bound_addr >> 8) & 0xff) as u8);
        out.push((self.bound_addr & 0xff) as u8);
        proof {
            assert(out@ =~= reply_bytes(*self));
        }
        out
    }
}

/// Decode an eight-byte request header.
pub fn decode_request(bytes: &Vec<u8>) -> (r: ConnectRequest)
    requires
        bytes@.len() == 8,
    ensures
        r == request_of_bytes(bytes@),
{
    let port: u16 = ((bytes[2] as u16) << 8) | (bytes[3] as u16);
    let addr: u32 = ((bytes[4] as u32) << 24) | ((bytes[5] as u32) << 16) | ((bytes[6] as u32) << 8)
        | (bytes[7] as u32);
    ConnectRequest::new(bytes[0], bytes[1], port, addr)
}

/// Encode a request header as its eight wire bytes.
pub fn encode_request(r: &ConnectRequest) -> (out: Vec<u8>)
    ensures
        out@ == request_bytes(*r),
{
    let mut out: Vec<u8> = Vec::new();
    out.push(r.version);
    out.push(r.command);
    out.push(((r.dst_port >> 8) & 0xff) as u8);
    out.push((r.dst_port & 0xff) as u8);
    out.push(((r.dst_addr >> 24) & 0xff) as u8);
    out.push(((r.dst_addr >> 16) & 0xff) as u8);
    out.push(((r.dst_addr >> 8) & 0xff) as u8);
    out.push((r.dst_addr & 0xff) as u8);
    proof {
        assert(out@ =~= request_bytes(*r));
    }
    out
}

/// Encode a reply header as its eight wire bytes.
pub fn encode_reply(r: &ConnectReply) -> (out: Vec<u8>)
    ensures
        out@ == reply_bytes(*r),
{
    r.to_bytes()
}

/// Law: decoding the eight encoded bytes of a request header gives
/// back the same four fields, whatever they were.
pub proof fn lemma_request_round_trip(r: ConnectRequest)
    ensures
        request_of_bytes(request_bytes(r)) == r,
{
    let p = r.dst_port;
    let a = r.dst_addr;
    assert(be16(hi8(p), lo8(p)) == p) by (bit_vector);
    assert(be32(byte0(a), byte1(a), byte2(a), byte3(a)) == a) by (bit_vector);
}

/// What a decoded client id must be: `Some(id)` exactly when the data
/// starts with `id`, none of whose bytes is zero, followed by a zero
/// terminator; `None` exactly when the data holds no zero byte at all.
pub open spec fn client_id_decoding(data: Seq<u8>, r: Option<Seq<u8>>) -> bool {
    match r {
        Some(id) => {
            &&& id.len() < data.len()
            &&& id == data.subrange(0, id.len() as int)
            &&& data[id.len() as int] == 0
            &&& forall|k: int| 0 <= k < id.len() ==> data[k] != 0
        },
        None => forall|k: int| 0 <= k < data.len() ==> data[k] != 0,
    }
}

/// Scan for the zero terminator; the bytes before it are the client
/// id. `None` when the data ends before any terminator arrives, which
/// callers treat as a framing error.
pub fn decode_client_id(data: &Vec<u8>) -> (r: Option<Vec<u8>>)
    ensures
        client_id_decoding(data@, r.deep_view()),
{
    let mut out: Vec<u8> = Vec::new();
    let mut i: usize = 0;
    while i < data.len()
        invariant
            i <= data@.len(),
            out@ =~= data@.subrange(0, i as int),
            forall|k: int| 0 <= k < i ==> data@[k] != 0,
        decreases data@.len() - i,
    {
        let b = data[i];
        if b == 0 {
            proof {
                assert(out.deep_view() =~= out@);
            }
            return Some(out);
        }
        out.push(b);
        i = i + 1;
    }
    None
}

/// Law: a client id that holds no zero byte, followed by its zero
/// terminator, decodes to exactly that id — no byte lost, none added.
pub proof fn lemma_client_id_round_trip(id: Seq<u8>, r: Option<Seq<u8>>)
    requires
        forall|k: int| 0 <= k < id.len() ==> id[k] != 0,
        client_id_decoding(id + seq![0u8], r),
    ensures
        r == Some(id),
{
    let data = id + seq![0u8];
    assert(data[id.len() as int] == 0);
    match r {
        None => {
            assert(false);
        },
        Some(s) => {
            if s.len() < id.len() {
                assert(data[s.len() as int] == id[s.len() as int]);
                assert(false);
            }
            assert(s.len() == id.len());
            assert(s =~= id);
        },
    }
}

} // verus!
