//! Framing of messages on a client connection, and the choice of who handles them.

use vstd::prelude::*;
use vstd::string::StringExecFns;

use crate::text::{decimal, decimal_text};

verus! {

/// First bytes of a message in XML.
pub const XML_MAGIC: u32 = 0x58445358;

/// First bytes of a message in protocol buffers.
pub const PROTO_MAGIC: u32 = 0x58445350;

/// Port of the loopback listener for clients that cannot reach the Unix socket.
pub const TCP_BRIDGE_PORT: u16 = 47810;

/// The kind of an error, by the names that `std::io` gives them.
#[derive(Clone, Copy, Debug, PartialEq, Eq, Structural)]
pub enum ErrorKind {
    InvalidInput,
}

/// A message that cannot be framed.
#[derive(Clone, Copy, Debug, PartialEq, Eq, Structural)]
pub struct FrameError {
    /// How many bytes the payload has.
    pub payload_len: usize,
}

/// What is said of a payload of `len` bytes that is too long.
pub open spec fn too_long_text(len: nat) -> Seq<char> {
    "message payload is "@ + decimal(len) + " bytes, exceeds the 65535-byte u16 length header"@
}

impl FrameError {
    /// The kind of the error: a payload that is too long is an invalid input.
    pub fn kind(&self) -> (kind: ErrorKind)
        ensures
            kind == ErrorKind::InvalidInput,
    {
        ErrorKind::InvalidInput
    }

    /// The error in words.
    pub fn message(&self) -> (out: String)
        ensures
            out@ == too_long_text(self.payload_len as nat),
    {
        let mut out = String::from_str("message payload is ");
        out.append(&decimal_text(self.payload_len as u64));
        out.append(" bytes, exceeds the 65535-byte u16 length header");
        out
    }
}

/// The four bytes of `v`, the least significant first.
pub open spec fn le_bytes4(v: u32) -> Seq<u8> {
    seq![
        (v % 0x100) as u8,
        (v / 0x100 % 0x100) as u8,
        (v / 0x10000 % 0x100) as u8,
        (v / 0x1000000 % 0x100) as u8,
    ]
}

/// The two bytes of `v`, the least significant first.
pub open spec fn le_bytes2(v: u16) -> Seq<u8> {
    seq![(v % 0x100) as u8, (v / 0x100 % 0x100) as u8]
}

/// The number whose four bytes, the least significant first, are `b`.
pub open spec fn from_le_bytes4(b: Seq<u8>) -> u32 {
    (b[0] + 0x100 * b[1] + 0x10000 * b[2] + 0x1000000 * b[3]) as u32
}

/// The frame of a message: magic, type and length of the payload, then the payload.
pub open spec fn frame(magic: u32, msg_type: u16, payload: Seq<u8>) -> Seq<u8> {
    le_bytes4(magic) + le_bytes2(msg_type) + le_bytes2(payload.len() as u16) + payload
}

/// Frames a message. The length of the payload has to fit the 16 bits that the frame has for it.
pub fn encode_message(magic: u32, msg_type: u16, message_buffer: Vec<u8>) -> (r: Result<
    Vec<u8>,
    FrameError,
>)
    ensures
        message_buffer@.len() <= 0xffff ==> (r matches Ok(buffer) && buffer@ == frame(
            magic,
            msg_type,
            message_buffer@,
        )),
        message_buffer@.len() > 0xffff ==> (r matches Err(e) && e.payload_len
            == message_buffer@.len()),
{
    if message_buffer.len() > 0xffff {
        return Err(FrameError { payload_len: message_buffer.len() });
    }
    let size: u16 = message_buffer.len() as u16;
    let mut payload = message_buffer;
    let mut buffer: Vec<u8> = Vec::with_capacity(8 + payload.len());
    buffer.push((magic % 0x100) as u8);
    buffer.push((magic / 0x100 % 0x100) as u8);
    buffer.push((magic / 0x10000 % 0x100) as u8);
    buffer.push((magic / 0x1000000 % 0x100) as u8);
    buffer.push((msg_type % 0x100) as u8);
    buffer.push((msg_type / 0x100 % 0x100) as u8);
    buffer.push((size % 0x100) as u8);
    buffer.push((size / 0x100 % 0x100) as u8);
    buffer.append(&mut payload);
    assert(buffer@ =~= frame(magic, msg_type, message_buffer@));
    Ok(buffer)
}

/// A frame declares the length of its payload in bytes 6 and 7, and holds the payload behind its
/// eight bytes of header.
pub proof fn frame_declares_its_payload(magic: u32, msg_type: u16, payload: Seq<u8>)
    requires
        payload.len() <= 0xffff,
    ensures
        frame(magic, msg_type, payload).len() == 8 + payload.len(),
        frame(magic, msg_type, payload)[6] + 0x100 * frame(magic, msg_type, payload)[7]
            == payload.len(),
        frame(magic, msg_type, payload).skip(8) == payload,
{
    assert(frame(magic, msg_type, payload).skip(8) =~= payload);
}

proof fn lemma_le_bytes4(v: u32)
    ensures
        from_le_bytes4(le_bytes4(v)) == v,
{
}

/// Two messages whose frames are the same are the same message.
pub proof fn frames_determine_messages(
    magic1: u32,
    msg_type1: u16,
    payload1: Seq<u8>,
    magic2: u32,
    msg_type2: u16,
    payload2: Seq<u8>,
)
    requires
        payload1.len() <= 0xffff,
        payload2.len() <= 0xffff,
        frame(magic1, msg_type1, payload1) == frame(magic2, msg_type2, payload2),
    ensures
        magic1 == magic2,
        msg_type1 == msg_type2,
        payload1 == payload2,
{
    let f1 = frame(magic1, msg_type1, payload1);
    let f2 = frame(magic2, msg_type2, payload2);
    frame_declares_its_payload(magic1, msg_type1, payload1);
    frame_declares_its_payload(magic2, msg_type2, payload2);
    assert(f1.take(4) =~= le_bytes4(magic1));
    assert(f2.take(4) =~= le_bytes4(magic2));
    lemma_le_bytes4(magic1);
    lemma_le_bytes4(magic2);
    assert(f1[4] == (msg_type1 % 0x100) as u8 && f1[5] == (msg_type1 / 0x100 % 0x100) as u8);
    assert(f2[4] == (msg_type2 % 0x100) as u8 && f2[5] == (msg_type2 / 0x100 % 0x100) as u8);
}

/// Who handles the messages of a connection.
#[derive(Clone, Copy, Debug, PartialEq, Eq, Structural)]
pub enum Protocol {
    Xml,
    Proto,
}

/// The handler that a magic stands for.
pub open spec fn protocol_of(magic: u32) -> Option<Protocol> {
    if magic == XML_MAGIC {
        Some(Protocol::Xml)
    } else if magic == PROTO_MAGIC {
        Some(Protocol::Proto)
    } else {
        None
    }
}

/// What has happened on a connection.
#[derive(Clone, Copy, Debug)]
pub enum ConnectionEvent {
    /// The connection waits for its next message; `cancelled` says whether the service is
    /// shutting down.
    Idle { cancelled: bool },
    /// Four bytes were read where a message begins.
    MagicRead([u8; 4]),
    /// Reading them failed.
    ReadFailed,
    /// A handler is done with a message.
    Handled { failed: bool },
}

/// What to do on a connection.
#[derive(Clone, Copy, Debug, PartialEq, Eq, Structural)]
pub enum ConnectionAction {
    /// Look whether the service is shutting down.
    Poll,
    /// Read the four bytes that a message begins with.
    ReadMagic,
    /// Hand the connection to the handler, which reads the rest of the message.
    Handle(Protocol),
    /// Give the connection up.
    Close,
}

/// What follows on an event.
pub open spec fn next_action_spec(event: ConnectionEvent) -> ConnectionAction {
    match event {
        ConnectionEvent::Idle { cancelled } => if cancelled {
            ConnectionAction::Close
        } else {
            ConnectionAction::ReadMagic
        },
        ConnectionEvent::MagicRead(bytes) => match protocol_of(from_le_bytes4(bytes@)) {
            Some(protocol) => ConnectionAction::Handle(protocol),
            None => ConnectionAction::Close,
        },
        ConnectionEvent::ReadFailed => ConnectionAction::Close,
        ConnectionEvent::Handled { .. } => ConnectionAction::Poll,
    }
}

/// Decides what follows on an event.
pub fn next_action(event: ConnectionEvent) -> (action: ConnectionAction)
    ensures
        action == next_action_spec(event),
{
    match event {
        ConnectionEvent::Idle { cancelled } => if cancelled {
            ConnectionAction::Close
        } else {
            ConnectionAction::ReadMagic
        },
        ConnectionEvent::MagicRead(bytes) => {
            let magic: u32 = bytes[0] as u32 + 0x100 * bytes[1] as u32 + 0x10000 * bytes[2] as u32
                + 0x1000000 * bytes[3] as u32;
            if magic == XML_MAGIC {
                ConnectionAction::Handle(Protocol::Xml)
            } else if magic == PROTO_MAGIC {
                ConnectionAction::Handle(Protocol::Proto)
            } else {
                ConnectionAction::Close
            }
        },
        ConnectionEvent::ReadFailed => ConnectionAction::Close,
        ConnectionEvent::Handled { .. } => ConnectionAction::Poll,
    }
}

/// A framed message goes to the handler of its magic, or ends the connection if no handler has
/// it.
pub proof fn frames_reach_the_handler_of_their_magic(
    magic: u32,
    msg_type: u16,
    payload: Seq<u8>,
    head: [u8; 4],
)
    requires
        head@ == frame(magic, msg_type, payload).take(4),
    ensures
        next_action_spec(ConnectionEvent::MagicRead(head)) == match protocol_of(magic) {
            Some(protocol) => ConnectionAction::Handle(protocol),
            None => ConnectionAction::Close,
        },
{
    assert(frame(magic, msg_type, payload).take(4) =~= le_bytes4(magic));
    lemma_le_bytes4(magic);
}

/// A connection outlives a message that could not be handled.
pub proof fn a_failed_message_keeps_the_connection(failed: bool)
    ensures
        next_action_spec(ConnectionEvent::Handled { failed }) == ConnectionAction::Poll,
{
}

/// The path of the service's socket in a runtime directory.
pub fn socket_path(runtime_dir: &str) -> (out: String)
    ensures
        out@ == runtime_dir@ + "/xodus.sock"@,
{
    let mut out = String::from_str(runtime_dir);
    out.append("/xodus.sock");
    out
}

/// A frame that is sent has eight bytes before its payload: four of the magic, two of the type and
/// two of the payload's length, each with the least significant byte first. A payload is refused
/// exactly if its length does not fit two bytes, and the refusal tells that length.
pub proof fn a_sent_frame_reads_as_its_message(
    magic: u32,
    msg_type: u16,
    payload: Vec<u8>,
    r: Result<Vec<u8>, FrameError>,
)
    requires
        call_ensures(encode_message, (magic, msg_type, payload), r),
    ensures
        r is Ok <==> payload@.len() < 65536,
        r matches Ok(f) ==> {
            &&& f@.len() == payload@.len() + 8
            &&& f@[0] + 256 * f@[1] + 65536 * f@[2] + 16777216 * f@[3] == magic
            &&& f@[4] + 256 * f@[5] == msg_type
            &&& f@[6] + 256 * f@[7] == payload@.len()
            &&& f@.skip(8) == payload@
        },
        r matches Err(e) ==> e.payload_len == payload@.len(),
{
    if r is Ok {
        assert(r->Ok_0@.skip(8) =~= payload@);
        lemma_le_bytes4(magic);
        let f = r->Ok_0@;
        assert(f.take(4) =~= le_bytes4(magic));
        assert(f[0] == le_bytes4(magic)[0] && f[1] == le_bytes4(magic)[1] && f[2] == le_bytes4(
            magic,
        )[2] && f[3] == le_bytes4(magic)[3]);
    }
}

/// Messages that begin with the bytes of `XSDX` go to the XML handler, those that begin with `PSDX`
/// to the one for protocol buffers, and any other beginning ends the connection.
pub proof fn a_message_is_told_by_its_first_four_bytes(bytes: [u8; 4], action: ConnectionAction)
    requires
        call_ensures(next_action, (ConnectionEvent::MagicRead(bytes),), action),
    ensures
        action == ConnectionAction::Handle(Protocol::Xml) <==> bytes@ == seq![
            0x58u8,
            0x53u8,
            0x44u8,
            0x58u8,
        ],
        action == ConnectionAction::Handle(Protocol::Proto) <==> bytes@ == seq![
            0x50u8,
            0x53u8,
            0x44u8,
            0x58u8,
        ],
        action is Handle || action is Close,
{
    let m = from_le_bytes4(bytes@);
    assert(m == bytes@[0] + 0x100 * bytes@[1] + 0x10000 * bytes@[2] + 0x1000000 * bytes@[3]);
    if m == 0x58445358 {
        assert(bytes@ =~= seq![0x58u8, 0x53u8, 0x44u8, 0x58u8]);
    }
    if m == 0x58445350 {
        assert(bytes@ =~= seq![0x50u8, 0x53u8, 0x44u8, 0x58u8]);
    }
}

/// A connection looks for a shutdown before each message, reads a message only if there is none, and
/// is given up for a shutdown, a failed read or a beginning that nobody handles, but never for a
/// message that could not be handled.
pub proof fn a_connection_is_kept_between_messages(event: ConnectionEvent, action: ConnectionAction)
    requires
        call_ensures(next_action, (event,), action),
    ensures
        action is Poll <==> event is Handled,
        action is ReadMagic <==> event == (ConnectionEvent::Idle { cancelled: false }),
        action is Handle ==> event is MagicRead,
        event == (ConnectionEvent::Idle { cancelled: true }) ==> action is Close,
        event is ReadFailed ==> action is Close,
{
}

/// The socket stands in the runtime directory, under a name that does not depend on it.
pub proof fn the_socket_stands_in_the_runtime_directory(runtime_dir: &str, path: String)
    requires
        call_ensures(socket_path, (runtime_dir,), path),
    ensures
        path@.take(runtime_dir@.len() as int) == runtime_dir@,
        path@.skip(runtime_dir@.len() as int) == "/xodus.sock"@,
{
    assert(path@.take(runtime_dir@.len() as int) =~= runtime_dir@);
    assert(path@.skip(runtime_dir@.len() as int) =~= "/xodus.sock"@);
}

/// What is said of a payload that is too long gives its length and the greatest that would do.
pub proof fn a_refused_payload_is_told_with_its_length(error: FrameError, words: String)
    requires
        call_ensures(FrameError::message, (&error,), words),
    ensures
        words@ == "message payload is "@ + decimal(error.payload_len as nat)
            + " bytes, exceeds the 65535-byte u16 length header"@,
{
}

} // verus!
