//! What can be sent: text, bytes, pings, pongs, and the forms of a closing
//! frame.

use crate::close::{close_payload, encode_close, CloseCode};
use crate::frame::{encode, frame_bytes, outgoing_header};
use crate::proto::{Error, Opcode, Role};
use vstd::prelude::*;
use vstd::string::StringSliceAdditionalSpecFns;

verus! {

/// A ping with its payload.
#[derive(Clone, Debug, PartialEq, Eq)]
pub struct Ping(pub Vec<u8>);

/// A pong with its payload.
#[derive(Clone, Debug, PartialEq, Eq)]
pub struct Pong(pub Vec<u8>);

/// A value that goes out as one frame.
pub trait Message {
    /// The FIN bit, the opcode and the payload of the frame.
    spec fn frame_parts(&self) -> (bool, Opcode, Seq<u8>);

    fn frame_type(&self) -> (r: (bool, Opcode, &[u8]))
        ensures
            (r.0, r.1, r.2@) == self.frame_parts(),
    ;
}

impl<T: Message + ?Sized> Message for &T {
    open spec fn frame_parts(&self) -> (bool, Opcode, Seq<u8>) {
        (**self).frame_parts()
    }

    fn frame_type(&self) -> (r: (bool, Opcode, &[u8])) {
        (**self).frame_type()
    }
}

impl Message for str {
    open spec fn frame_parts(&self) -> (bool, Opcode, Seq<u8>) {
        (true, Opcode::Text, self.spec_bytes())
    }

    fn frame_type(&self) -> (r: (bool, Opcode, &[u8])) {
        (true, Opcode::Text, self.as_bytes())
    }
}

impl Message for [u8] {
    open spec fn frame_parts(&self) -> (bool, Opcode, Seq<u8>) {
        (true, Opcode::Binary, self@)
    }

    fn frame_type(&self) -> (r: (bool, Opcode, &[u8])) {
        (true, Opcode::Binary, self)
    }
}

impl<const N: usize> Message for [u8; N] {
    open spec fn frame_parts(&self) -> (bool, Opcode, Seq<u8>) {
        (true, Opcode::Binary, self@)
    }

    fn frame_type(&self) -> (r: (bool, Opcode, &[u8])) {
        (true, Opcode::Binary, self.as_slice())
    }
}

impl Message for Ping {
    open spec fn frame_parts(&self) -> (bool, Opcode, Seq<u8>) {
        (true, Opcode::Ping, self.0@)
    }

    fn frame_type(&self) -> (r: (bool, Opcode, &[u8])) {
        (true, Opcode::Ping, self.0.as_slice())
    }
}

impl Message for Pong {
    open spec fn frame_parts(&self) -> (bool, Opcode, Seq<u8>) {
        (true, Opcode::Pong, self.0@)
    }

    fn frame_type(&self) -> (r: (bool, Opcode, &[u8])) {
        (true, Opcode::Pong, self.0.as_slice())
    }
}

/// The bytes of a Close frame with the given payload, or the refusal of a
/// payload of more than 125 bytes.
pub open spec fn close_frame(role: Role, key: Seq<u8>, payload: Seq<u8>) -> Result<Seq<u8>, Error> {
    if payload.len() > 125 {
        Err(Error::ProtocolError)
    } else {
        Ok(frame_bytes(outgoing_header(role, true, Opcode::Close, payload.len(), key), payload))
    }
}

/// The result of encoding a Close frame as a mathematical value.
pub open spec fn bytes_view(r: Result<Vec<u8>, Error>) -> Result<Seq<u8>, Error> {
    match r {
        Ok(bytes) => Ok(bytes@),
        Err(e) => Err(e),
    }
}

/// Encodes a Close frame around a payload that is already built.
pub fn encode_close_frame(role: Role, key: [u8; 4], payload: &[u8]) -> (r: Result<Vec<u8>, Error>)
    ensures
        bytes_view(r) == close_frame(role, key@, payload@),
{
    let mut out: Vec<u8> = Vec::new();
    match encode(&mut out, role, true, Opcode::Close, payload, key) {
        Ok(()) => {
            assert(out@ =~= frame_bytes(
                outgoing_header(role, true, Opcode::Close, payload@.len(), key@),
                payload@,
            ));
            Ok(out)
        },
        Err(e) => Err(e),
    }
}

/// A value that goes out as a Close frame.
pub trait CloseFrame: Sized {
    /// The payload of the Close frame.
    spec fn payload(&self) -> Seq<u8>;

    /// The whole frame as a sender in `role` writes it, masked with `key`
    /// where the role is the client.
    fn encode(self, role: Role, key: [u8; 4]) -> (r: Result<Vec<u8>, Error>)
        ensures
            bytes_view(r) == close_frame(role, key@, self.payload()),
    ;
}

impl CloseFrame for () {
    open spec fn payload(&self) -> Seq<u8> {
        Seq::<u8>::empty()
    }

    fn encode(self, role: Role, key: [u8; 4]) -> (r: Result<Vec<u8>, Error>) {
        let payload: Vec<u8> = Vec::new();
        encode_close_frame(role, key, payload.as_slice())
    }
}

impl CloseFrame for u16 {
    open spec fn payload(&self) -> Seq<u8> {
        close_payload(*self, Seq::<u8>::empty())
    }

    fn encode(self, role: Role, key: [u8; 4]) -> (r: Result<Vec<u8>, Error>) {
        let reason: Vec<u8> = Vec::new();
        let payload = encode_close(self, reason.as_slice());
        encode_close_frame(role, key, payload.as_slice())
    }
}

impl CloseFrame for CloseCode {
    open spec fn payload(&self) -> Seq<u8> {
        close_payload(self.code(), Seq::<u8>::empty())
    }

    fn encode(self, role: Role, key: [u8; 4]) -> (r: Result<Vec<u8>, Error>) {
        let reason: Vec<u8> = Vec::new();
        let payload = encode_close(self.to_u16(), reason.as_slice());
        encode_close_frame(role, key, payload.as_slice())
    }
}

impl<'a> CloseFrame for (u16, &'a str) {
    open spec fn payload(&self) -> Seq<u8> {
        close_payload(self.0, self.1.spec_bytes())
    }

    fn encode(self, role: Role, key: [u8; 4]) -> (r: Result<Vec<u8>, Error>) {
        let payload = encode_close(self.0, self.1.as_bytes());
        encode_close_frame(role, key, payload.as_slice())
    }
}

impl<'a> CloseFrame for &'a str {
    open spec fn payload(&self) -> Seq<u8> {
        close_payload(1000, self.spec_bytes())
    }

    fn encode(self, role: Role, key: [u8; 4]) -> (r: Result<Vec<u8>, Error>) {
        let payload = encode_close(CloseCode::Normal.to_u16(), self.as_bytes());
        encode_close_frame(role, key, payload.as_slice())
    }
}

} // verus!
