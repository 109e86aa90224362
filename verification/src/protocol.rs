//! The frame format spoken with the AppLoad frontend.
//!
//! A message is a type number and a text. On a packet socket it travels as
//! an 8-byte header (type, then content length, both little-endian `u32`)
//! followed by a second packet with the content; a single packet of any
//! other length is a whole message on its own. On a stream socket a message
//! arrives as a little-endian `u32` length followed by that many bytes of
//! JSON.

use vstd::prelude::*;
use vstd::utf8::{valid_utf8, decode_utf8, encode_utf8};
use crate::text::{chars_of, contains, contains_chars, same_chars, string_from, trim, trim_chars};

verus! {

/// Frontend to backend: a fetch request (JSON text).
pub const MSG_FETCH_REQUEST: u32 = 0;

/// Backend to frontend: the document was saved (`SAVED:<path>`).
pub const MSG_SUCCESS: u32 = 1;

/// Backend to frontend: an error, as text.
pub const MSG_ERROR: u32 = 2;

/// Backend to frontend: a progress note, as text.
pub const MSG_PROGRESS: u32 = 3;

/// The type given to a raw text packet that does not look like a request.
pub const MSG_UNKNOWN: u32 = 99;

/// The largest content packet that is read.
pub const MAX_PACKET: u32 = 65536;

/// A message from or to the frontend.
#[derive(Debug)]
pub struct Message {
    pub msg_type: u32,
    pub contents: String,
}

/// What `String::from_utf8_lossy` makes of `bytes`.
pub uninterp spec fn lossy_utf8(bytes: Seq<u8>) -> Seq<char>;

/// Calls `String::from_utf8_lossy`. Trusted to give `lossy_utf8(bytes)`,
/// which is the decoded text when `bytes` is valid UTF-8 (the documented
/// borrowed case); how invalid sequences are replaced is left unsaid.
#[verifier::external_body]
fn utf8_lossy(bytes: &[u8]) -> (r: String)
    ensures
        r@ == lossy_utf8(bytes@),
        valid_utf8(bytes@) ==> r@ == decode_utf8(bytes@),
{
    String::from_utf8_lossy(bytes).to_string()
}

/// The four little-endian bytes of `v`.
pub open spec fn le_bytes(v: nat) -> Seq<u8> {
    seq![(v % 256) as u8, ((v / 256) % 256) as u8, ((v / 65536) % 256) as u8, ((v / 16777216) % 256) as u8]
}

/// The value of four little-endian bytes.
pub open spec fn le_value(b: Seq<u8>) -> nat {
    (b[0] + 256 * b[1] + 65536 * b[2] + 16777216 * b[3]) as nat
}

/// The header of a packet-socket message of type `t` whose content is `n`
/// bytes long; the length is cut to 32 bits as `as u32` does.
pub open spec fn header_bytes(t: u32, n: nat) -> Seq<u8> {
    le_bytes(t as nat) + le_bytes(n % 0x1_0000_0000)
}

/// Trimmed text of a content packet.
pub open spec fn packet_text(bytes: Seq<u8>) -> Seq<char> {
    trim(decoded_text(bytes))
}

/// The text of bytes decoded leniently: the UTF-8 decoding when they are
/// valid UTF-8, else what `String::from_utf8_lossy` makes of them.
pub open spec fn decoded_text(bytes: Seq<u8>) -> Seq<char> {
    if valid_utf8(bytes) {
        decode_utf8(bytes)
    } else {
        lossy_utf8(bytes)
    }
}

/// The type a raw text packet is given.
pub open spec fn raw_text_type(text: Seq<char>) -> u32 {
    if contains(text, "type_bw"@) {
        MSG_FETCH_REQUEST
    } else {
        MSG_UNKNOWN
    }
}

/// Little-endian `u32` from `b[at..at + 4]`.
pub fn read_le_u32(b: &[u8], at: usize) -> (v: u32)
    requires
        at + 4 <= b@.len(),
    ensures
        v as nat == le_value(b@.subrange(at as int, at + 4)),
{
    let v = (b[at] as u32) + 256 * (b[at + 1] as u32) + 65536 * (b[at + 2] as u32) + 16777216 * (
    b[at + 3] as u32);
    v
}

/// Appends the little-endian bytes of `v` to `out`.
pub fn push_le_u32(out: &mut Vec<u8>, v: u32)
    ensures
        final(out)@ == old(out)@ + le_bytes(v as nat),
{
    out.push((v % 256) as u8);
    out.push(((v / 256) % 256) as u8);
    out.push(((v / 65536) % 256) as u8);
    out.push(((v / 16777216) % 256) as u8);
    assert(final(out)@ =~= old(out)@ + le_bytes(v as nat));
}

/// Four little-endian bytes read back give the value they were made from.
pub proof fn lemma_le_roundtrip(v: nat)
    requires
        v < 0x1_0000_0000,
    ensures
        le_value(le_bytes(v)) == v,
        le_bytes(v).len() == 4,
{
    let b = le_bytes(v);
    assert(b[0] == v % 256);
    assert(b[1] == (v / 256) % 256);
    assert(b[2] == (v / 65536) % 256);
    assert(b[3] == (v / 16777216) % 256);
    assert(v / 16777216 < 256);
    assert(v == v % 256 + 256 * ((v / 256) % 256) + 65536 * ((v / 65536) % 256) + 16777216 * (v
        / 16777216)) by (nonlinear_arith)
        requires
            v < 0x1_0000_0000,
    ;
}

/// The header that goes before `contents` on a packet socket: the type, then
/// the byte length of the UTF-8 text, both little-endian.
pub fn message_header(msg_type: u32, contents: &str) -> (h: Vec<u8>)
    ensures
        h@ == header_bytes(msg_type, encode_utf8(contents@).len()),
{
    let bytes = contents.as_bytes();
    let n = bytes.len();
    let ghost len = encode_utf8(contents@).len();
    assert(n == len);
    let m: u32 = ((n as u64) % 0x1_0000_0000) as u32;
    assert(m == len % 0x1_0000_0000);
    let mut h: Vec<u8> = Vec::new();
    push_le_u32(&mut h, msg_type);
    push_le_u32(&mut h, m);
    assert(h@ =~= le_bytes(msg_type as nat) + le_bytes(m as nat));
    h
}

/// What the first packet of a message asks for next.
pub enum PacketStep {
    /// The message is complete.
    Complete(Message),
    /// A content packet of at most `max_len` bytes follows, for a message of
    /// type `msg_type`.
    ReadContent { msg_type: u32, max_len: usize },
    /// The packet is a whole message in itself: try it as JSON first, then
    /// hand it to `message_from_packet`.
    Whole,
}

/// Reads the first packet of a message: an 8-byte packet is a header, whose
/// empty content completes the message at once.
pub fn first_packet(bytes: &[u8]) -> (r: PacketStep)
    ensures
        bytes@.len() != 8 ==> r is Whole,
        bytes@.len() == 8 ==> {
            let t = le_value(bytes@.subrange(0, 4));
            let n = le_value(bytes@.subrange(4, 8));
            &&& n == 0 ==> (r matches PacketStep::Complete(m) && m.msg_type == t && m.contents@
                == Seq::<char>::empty())
            &&& n != 0 ==> (r matches PacketStep::ReadContent { msg_type, max_len } && msg_type
                == t && max_len == (if n < MAX_PACKET {
                n
            } else {
                MAX_PACKET as nat
            }))
        },
{
    if bytes.len() != 8 {
        return PacketStep::Whole;
    }
    let msg_type = read_le_u32(bytes, 0);
    let content_len = read_le_u32(bytes, 4);
    if content_len == 0 {
        PacketStep::Complete(Message { msg_type, contents: String::new() })
    } else {
        let max_len: usize = if content_len < MAX_PACKET {
            content_len as usize
        } else {
            MAX_PACKET as usize
        };
        PacketStep::ReadContent { msg_type, max_len }
    }
}

/// The message made of a header's type and its content packet: the content
/// decoded leniently and trimmed.
pub fn message_from_content(msg_type: u32, content: &[u8]) -> (m: Message)
    ensures
        m.msg_type == msg_type,
        m.contents@ == packet_text(content@),
        valid_utf8(content@) ==> m.contents@ == trim(decode_utf8(content@)),
{
    let text = utf8_lossy(content);
    let v = chars_of(text.as_str());
    let t = trim_chars(v.as_slice());
    Message { msg_type, contents: string_from(t.as_slice()) }
}

/// The message carried by a whole packet: the JSON reading of it when there
/// is one, else its trimmed text, typed as a request when it mentions
/// `type_bw`.
pub fn message_from_packet(bytes: &[u8], json: Option<Message>) -> (m: Message)
    ensures
        json is Some ==> m == json->Some_0,
        json is None ==> m.contents@ == packet_text(bytes@) && m.msg_type == raw_text_type(
            packet_text(bytes@),
        ),
        json is None && valid_utf8(bytes@) ==> m.contents@ == trim(decode_utf8(bytes@)),
        json is None ==> (m.msg_type == MSG_FETCH_REQUEST <==> contains(
            packet_text(bytes@),
            "type_bw"@,
        )),
        json is None ==> (m.msg_type == MSG_UNKNOWN <==> !contains(packet_text(bytes@), "type_bw"@)),
{
    proof {
        lemma_raw_text_type(packet_text(bytes@));
    }
    match json {
        Some(m) => m,
        None => {
            let text = utf8_lossy(bytes);
            let v = chars_of(text.as_str());
            let t = trim_chars(v.as_slice());
            let key = chars_of("type_bw");
            proof {
                reveal_strlit("type_bw");
            }
            let msg_type = if contains_chars(t.as_slice(), key.as_slice()) {
                MSG_FETCH_REQUEST
            } else {
                MSG_UNKNOWN
            };
            Message { msg_type, contents: string_from(t.as_slice()) }
        },
    }
}

/// The payload length announced by the 4-byte prefix of a stream message.
pub fn stream_frame_len(prefix: &[u8]) -> (n: usize)
    requires
        prefix@.len() == 4,
    ensures
        n as nat == le_value(prefix@),
{
    assert(prefix@.subrange(0, 4) =~= prefix@);
    read_le_u32(prefix, 0) as usize
}

/// The 4-byte length prefix of a stream message whose payload is `n` bytes
/// long; the length is cut to 32 bits as `as u32` does.
pub fn stream_prefix(n: usize) -> (p: Vec<u8>)
    ensures
        p@ == le_bytes(n as nat % 0x1_0000_0000),
{
    let m: u32 = ((n as u64) % 0x1_0000_0000) as u32;
    let mut p: Vec<u8> = Vec::new();
    push_le_u32(&mut p, m);
    assert(p@ =~= le_bytes(n as nat % 0x1_0000_0000));
    p
}

/// A stream length prefix read back gives the length it was made from.
pub proof fn lemma_stream_prefix_roundtrip(n: nat)
    requires
        n < 0x1_0000_0000,
    ensures
        le_bytes(n % 0x1_0000_0000).len() == 4,
        le_value(le_bytes(n % 0x1_0000_0000)) == n,
{
    lemma_le_roundtrip(n);
}

/// A message sent on a packet socket is read back as its type and its
/// trimmed text: the header gives the type and the byte length, a content
/// packet of at most 65536 bytes is read whole, and the UTF-8 of the text
/// decodes to the text.
pub proof fn lemma_message_roundtrip(t: u32, text: Seq<char>)
    requires
        0 < encode_utf8(text).len() <= MAX_PACKET,
    ensures
        ({
            let h = header_bytes(t, encode_utf8(text).len());
            &&& h.len() == 8
            &&& le_value(h.subrange(0, 4)) == t
            &&& le_value(h.subrange(4, 8)) == encode_utf8(text).len()
        }),
        valid_utf8(encode_utf8(text)),
        decode_utf8(encode_utf8(text)) == text,
        packet_text(encode_utf8(text)) == trim(text),
{
    lemma_header_roundtrip(t, encode_utf8(text).len());
    vstd::utf8::encode_utf8_valid_utf8(text);
    vstd::utf8::encode_utf8_decode_utf8(text);
}

/// Why a socket path cannot be used.
#[derive(Debug, Clone, Copy, PartialEq, Eq, Structural)]
pub enum SocketPathError {
    /// The path holds a NUL character, which a C string cannot carry.
    NulByte,
    /// The path and its closing NUL do not fit the 108 bytes of `sun_path`.
    TooLong,
}

/// The room for a socket path in `sockaddr_un`, closing NUL included.
pub const SUN_PATH_LEN: usize = 108;

/// Checks that `path` can be given to `connect` on a Unix socket: no NUL
/// inside, and its UTF-8 bytes with a closing NUL fit in `SUN_PATH_LEN`.
pub fn check_socket_path(path: &str) -> (r: Result<(), SocketPathError>)
    ensures
        r == Err::<(), SocketPathError>(SocketPathError::NulByte) <==> path@.contains('\0'),
        r == Err::<(), SocketPathError>(SocketPathError::TooLong) <==> !path@.contains('\0')
            && encode_utf8(path@).len() + 1 > SUN_PATH_LEN,
        r is Ok <==> !path@.contains('\0') && encode_utf8(path@).len() + 1 <= SUN_PATH_LEN,
{
    let v = chars_of(path);
    let mut i: usize = 0;
    while i < v.len()
        invariant
            i <= v@.len(),
            v@ == path@,
            forall|k: int| 0 <= k < i ==> v@[k] != '\0',
        decreases v@.len() - i,
    {
        if v[i] == '\0' {
            assert(path@[i as int] == '\0');
            return Err(SocketPathError::NulByte);
        }
        i = i + 1;
    }
    assert(!path@.contains('\0'));
    let n = path.as_bytes().len();
    if n >= SUN_PATH_LEN {
        Err(SocketPathError::TooLong)
    } else {
        Ok(())
    }
}

/// A header read back gives the type and the length it was made from.
pub proof fn lemma_header_roundtrip(t: u32, n: nat)
    requires
        n < 0x1_0000_0000,
    ensures
        header_bytes(t, n).len() == 8,
        le_value(header_bytes(t, n).subrange(0, 4)) == t,
        le_value(header_bytes(t, n).subrange(4, 8)) == n,
{
    lemma_le_roundtrip(t as nat);
    lemma_le_roundtrip(n);
    let h = header_bytes(t, n);
    assert(h.subrange(0, 4) =~= le_bytes(t as nat));
    assert(h.subrange(4, 8) =~= le_bytes(n % 0x1_0000_0000));
}

/// The read errors after which the backend goes on listening: a receive
/// timeout, and the JSON complaints of a frontend that sent something else.
pub open spec fn is_transient_read_error(text: Seq<char>) -> bool {
    ||| text == "timeout"@
    ||| contains(text, "expected value"@)
    ||| contains(text, "invalid type"@)
    ||| contains(text, "trailing"@)
}

/// Whether the backend keeps listening after a read failed with `error`.
pub fn keeps_listening(error: &str) -> (r: bool)
    ensures
        r == is_transient_read_error(error@),
        r <==> (error@ == "timeout"@ || contains(error@, "expected value"@) || contains(
            error@,
            "invalid type"@,
        ) || contains(error@, "trailing"@)),
{
    let e = chars_of(error);
    let timeout = chars_of("timeout");
    let expected = chars_of("expected value");
    let invalid = chars_of("invalid type");
    let trailing = chars_of("trailing");
    same_chars(e.as_slice(), timeout.as_slice()) || contains_chars(e.as_slice(), expected.as_slice())
        || contains_chars(e.as_slice(), invalid.as_slice()) || contains_chars(
        e.as_slice(),
        trailing.as_slice(),
    )
}

/// A raw text packet is a fetch request exactly when its text mentions
/// `type_bw`, and of unknown type otherwise.
pub proof fn lemma_raw_text_type(text: Seq<char>)
    ensures
        raw_text_type(text) == MSG_FETCH_REQUEST <==> contains(text, "type_bw"@),
        raw_text_type(text) == MSG_UNKNOWN <==> !contains(text, "type_bw"@),
{
}

/// The backend goes on listening after a read error exactly when the error
/// is the receive timeout or a JSON complaint about what the frontend sent
/// (`expected value`, `invalid type`, `trailing`); after any other error,
/// such as a closed socket, it stops.
pub proof fn lemma_transient_read_errors(text: Seq<char>)
    ensures
        is_transient_read_error(text) <==> (text == "timeout"@ || contains(text, "expected value"@)
            || contains(text, "invalid type"@) || contains(text, "trailing"@)),
{
}

} // verus!
