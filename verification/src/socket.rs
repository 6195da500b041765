//! The socket: a role, the buffered bytes of the connection, the assembly in
//! progress and the state of the closing handshake. It never touches the
//! transport: what arrived is handed in, what is to be sent is handed out.

use crate::assembly::{step, Assembly, Event, EventView, Progress};
use crate::buffer::ByteSource;
use crate::close::{decode_close, parse_close, CloseReason};
use crate::frame::{decode, encode, frame_bytes, outgoing_header, parse_frame, sendable};
use crate::header::{parse_header, FrameHeader};
use crate::message::{close_frame, CloseFrame, Message};
use crate::proto::{Error, Opcode, Role};
use vstd::prelude::*;

verus! {

/// Reads the next frame header from `stream` as a receiver in `role` and
/// consumes its bytes. On an error nothing is consumed.
pub fn recv_header(stream: &mut ByteSource, role: Role) -> (r: Result<FrameHeader, Error>)
    ensures
        match parse_header(old(stream)@, role) {
            Ok((h, n)) => r is Ok && r.unwrap()@ == h && final(stream)@ == old(stream)@.subrange(
                n as int,
                old(stream)@.len() as int,
            ),
            Err(e) => r == Err::<FrameHeader, Error>(e) && final(stream)@ == old(stream)@,
        },
{
    let found = FrameHeader::decode(stream.buffer(), role);
    match found {
        Ok((header, n)) => {
            stream.consume(n);
            Ok(header)
        },
        Err(e) => Err(e),
    }
}

/// What `recv` hands to the application.
#[derive(Debug, PartialEq, Eq)]
pub enum Incoming {
    /// A fragment was taken; its message is not complete yet.
    Pending,
    /// A complete text or binary message.
    Message { ty: crate::proto::DataType, payload: Vec<u8> },
    /// A ping; the application answers with a pong of the same payload.
    Ping(Vec<u8>),
    /// A pong.
    Pong(Vec<u8>),
    /// The peer closes the connection, with or without a code and a reason.
    Close(Option<CloseReason>),
}

/// What `recv` hands out, as a mathematical value.
pub enum IncomingView {
    Pending,
    Message { ty: crate::proto::DataType, payload: Seq<u8> },
    Ping(Seq<u8>),
    Pong(Seq<u8>),
    Close(Option<(u16, Seq<u8>)>),
}

impl View for Incoming {
    type V = IncomingView;

    open spec fn view(&self) -> IncomingView {
        match *self {
            Incoming::Pending => IncomingView::Pending,
            Incoming::Message { ty, payload } => IncomingView::Message { ty, payload: payload@ },
            Incoming::Ping(payload) => IncomingView::Ping(payload@),
            Incoming::Pong(payload) => IncomingView::Pong(payload@),
            Incoming::Close(Some(c)) => IncomingView::Close(Some((c.code, c.reason@))),
            Incoming::Close(None) => IncomingView::Close(None),
        }
    }
}

/// The result of `recv` as a mathematical value.
pub open spec fn incoming_view(r: Result<Incoming, Error>) -> Result<IncomingView, Error> {
    match r {
        Ok(incoming) => Ok(incoming@),
        Err(e) => Err(e),
    }
}

/// A socket as a mathematical value.
pub struct SocketView {
    pub role: Role,
    /// The bytes that arrived and were not consumed.
    pub buffered: Seq<u8>,
    /// The message that is being assembled.
    pub progress: Progress,
    /// A Close frame was sent.
    pub close_sent: bool,
    /// A Close frame was received.
    pub close_received: bool,
}

/// What an event of the assembly means to the application. The payload of a
/// Close frame is read here, and may be refused.
pub open spec fn surfaced(event: EventView) -> Result<IncomingView, Error> {
    match event {
        EventView::Pending => Ok(IncomingView::Pending),
        EventView::Message { ty, payload } => Ok(IncomingView::Message { ty, payload }),
        EventView::Control { opcode, payload } => match opcode {
            Opcode::Ping => Ok(IncomingView::Ping(payload)),
            Opcode::Pong => Ok(IncomingView::Pong(payload)),
            _ => match parse_close(payload) {
                Ok(close) => Ok(IncomingView::Close(close)),
                Err(e) => Err(e),
            },
        },
    }
}

/// One call of `recv`: the socket afterwards and what the call gives.
///
/// Where the buffered bytes do not begin with a whole acceptable frame, the
/// error of the frame decoder comes back and the socket is unchanged. Else
/// the frame is consumed and goes through the assembly; a Close frame marks
/// the socket as closing, whatever its payload.
pub open spec fn received(s: SocketView) -> (SocketView, Result<IncomingView, Error>) {
    match parse_frame(s.buffered, s.role) {
        Err(e) => (s, Err(e)),
        Ok((h, payload, n)) => {
            let rest = s.buffered.subrange(n as int, s.buffered.len() as int);
            let closing = s.close_received || h.opcode == Opcode::Close;
            match step(s.progress, h.fin, h.opcode, payload) {
                Err(e) => (
                    SocketView {
                        buffered: rest,
                        progress: crate::assembly::progress_after(
                            s.progress,
                            h.fin,
                            h.opcode,
                            payload,
                        ),
                        close_received: closing,
                        ..s
                    },
                    Err(e),
                ),
                Ok((next, event)) => (
                    SocketView { buffered: rest, progress: next, close_received: closing, ..s },
                    surfaced(event),
                ),
            }
        },
    }
}

/// The bytes that `send` writes for a frame, or the refusal: nothing goes out
/// once the closing handshake has begun, and a control frame must be final
/// and short.
pub open spec fn sent(s: SocketView, fin: bool, opcode: Opcode, data: Seq<u8>, key: Seq<u8>)
    -> Result<Seq<u8>, Error> {
    if s.close_sent || s.close_received {
        Err(Error::Closed)
    } else if !sendable(fin, opcode, data.len()) {
        Err(Error::ProtocolError)
    } else {
        Ok(frame_bytes(outgoing_header(s.role, fin, opcode, data.len(), key), data))
    }
}

/// The bytes that `close` writes, or the refusal: a Close frame goes out
/// once, also in answer to the peer's.
pub open spec fn closed_with(s: SocketView, payload: Seq<u8>, key: Seq<u8>) -> Result<
    Seq<u8>,
    Error,
> {
    if s.close_sent {
        Err(Error::Closed)
    } else {
        close_frame(s.role, key, payload)
    }
}

/// A message-oriented WebSocket over bytes that are handed in and out.
#[derive(Debug)]
pub struct Websocket {
    role: Role,
    stream: ByteSource,
    assembly: Assembly,
    close_sent: bool,
    close_received: bool,
}

impl View for Websocket {
    type V = SocketView;

    closed spec fn view(&self) -> SocketView {
        SocketView {
            role: self.role,
            buffered: self.stream@,
            progress: self.assembly@,
            close_sent: self.close_sent,
            close_received: self.close_received,
        }
    }
}

impl Websocket {
    /// A socket in `role` on a fresh connection.
    pub fn new(role: Role) -> (r: Websocket)
        ensures
            r@ == (SocketView {
                role,
                buffered: Seq::<u8>::empty(),
                progress: None,
                close_sent: false,
                close_received: false,
            }),
    {
        Websocket::with_capacity(8 * 1024, role)
    }

    /// A socket in `role` with room for `capacity` buffered bytes.
    pub fn with_capacity(capacity: usize, role: Role) -> (r: Websocket)
        ensures
            r@ == (SocketView {
                role,
                buffered: Seq::<u8>::empty(),
                progress: None,
                close_sent: false,
                close_received: false,
            }),
    {
        Websocket {
            role,
            stream: ByteSource::with_capacity(capacity),
            assembly: Assembly::new(),
            close_sent: false,
            close_received: false,
        }
    }

    /// The role of this end.
    pub fn role(&self) -> (r: Role)
        ensures
            r == self@.role,
    {
        self.role
    }

    /// The number of bytes that arrived and were not consumed.
    pub fn buffered(&self) -> (n: usize)
        ensures
            n == self@.buffered.len(),
    {
        self.stream.available()
    }

    /// Whether the closing handshake has begun in either direction.
    pub fn is_closing(&self) -> (r: bool)
        ensures
            r == (self@.close_sent || self@.close_received),
    {
        self.close_sent || self.close_received
    }

    /// Whether a Close frame went out and one came in.
    pub fn is_closed(&self) -> (r: bool)
        ensures
            r == (self@.close_sent && self@.close_received),
    {
        self.close_sent && self.close_received
    }

    /// Hands in bytes that arrived from the transport.
    pub fn fill(&mut self, bytes: &[u8])
        ensures
            final(self)@ == (SocketView { buffered: old(self)@.buffered + bytes@, ..old(self)@ }),
    {
        self.stream.fill(bytes);
    }

    /// Takes the next frame from the buffered bytes. `Incomplete` asks for
    /// more bytes and changes nothing. A ping is handed to the application,
    /// which answers it; nothing is sent from here.
    pub fn recv(&mut self) -> (r: Result<Incoming, Error>)
        ensures
            (final(self)@, incoming_view(r)) == received(old(self)@),
    {
        let (frame, n) = match decode(self.stream.buffer(), self.role) {
            Ok(found) => found,
            Err(e) => {
                return Err(e);
            },
        };
        self.stream.consume(n);
        let fin: bool = frame.header.fin;
        let opcode: Opcode = frame.header.opcode;
        match opcode {
            Opcode::Close => {
                self.close_received = true;
            },
            _ => {},
        }
        match self.assembly.feed(fin, opcode, frame.payload) {
            Err(e) => Err(e),
            Ok(Event::Pending) => Ok(Incoming::Pending),
            Ok(Event::Message { ty, payload }) => Ok(Incoming::Message { ty, payload }),
            Ok(Event::Control { opcode, payload }) => match opcode {
                Opcode::Ping => Ok(Incoming::Ping(payload)),
                Opcode::Pong => Ok(Incoming::Pong(payload)),
                _ => match decode_close(payload.as_slice()) {
                    Ok(close) => Ok(Incoming::Close(close)),
                    Err(e) => Err(e),
                },
            },
        }
    }

    /// Appends to `writer` the one frame that carries `msg`, masked with
    /// `key` where this end is the client. Refused with nothing written once
    /// a Close frame was sent or received.
    pub fn send<M: Message + ?Sized>(&self, msg: &M, key: [u8; 4], writer: &mut Vec<u8>) -> (r:
        Result<(), Error>)
        ensures
            match sent(
                self@,
                msg.frame_parts().0,
                msg.frame_parts().1,
                msg.frame_parts().2,
                key@,
            ) {
                Ok(bytes) => r is Ok && final(writer)@ == old(writer)@ + bytes,
                Err(e) => r == Err::<(), Error>(e) && final(writer)@ == old(writer)@,
            },
    {
        if self.close_sent || self.close_received {
            return Err(Error::Closed);
        }
        let (fin, opcode, data) = msg.frame_type();
        encode(writer, self.role, fin, opcode, data, key)
    }

    /// Appends a Close frame to `writer` and marks the socket as closing.
    /// Refused with nothing written where a Close frame went out before or
    /// the payload is longer than a control frame allows.
    pub fn close<C: CloseFrame>(&mut self, frame: C, key: [u8; 4], writer: &mut Vec<u8>) -> (r:
        Result<(), Error>)
        ensures
            match closed_with(old(self)@, frame.payload(), key@) {
                Ok(bytes) => r is Ok && final(writer)@ == old(writer)@ + bytes && final(self)@ == (
                SocketView { close_sent: true, ..old(self)@ }),
                Err(e) => r == Err::<(), Error>(e) && final(writer)@ == old(writer)@
                    && final(self)@ == old(self)@,
            },
    {
        if self.close_sent {
            return Err(Error::Closed);
        }
        match frame.encode(self.role, key) {
            Ok(bytes) => {
                let mut bytes = bytes;
                writer.append(&mut bytes);
                self.close_sent = true;
                Ok(())
            },
            Err(e) => Err(e),
        }
    }
}

} // verus!
