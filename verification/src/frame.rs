//! Whole frames: a header followed by its payload, masked where the sender's
//! role asks for it.

use crate::header::{header_bytes, parse_header, FrameHeader, HeaderView};
use crate::mask::{apply, lemma_mask_involution, masked};
use crate::proto::{Error, Opcode, Role};
use vstd::prelude::*;

verus! {

/// The header that a sender in `role` puts before a payload of `len` bytes:
/// a client's carries `key`, a server's carries none.
pub open spec fn outgoing_header(role: Role, fin: bool, opcode: Opcode, len: nat, key: Seq<u8>)
    -> HeaderView {
    HeaderView { fin, opcode, len, mask: if role.masks_outgoing() { Some(key) } else { None } }
}

/// The payload as it stands on the wire under a header, and back: masking
/// from position 0 where the header has a key, the bytes themselves where not.
pub open spec fn wire_payload(h: HeaderView, payload: Seq<u8>) -> Seq<u8> {
    match h.mask {
        Some(key) => masked(payload, key, 0),
        None => payload,
    }
}

/// The bytes of one frame on the wire.
pub open spec fn frame_bytes(h: HeaderView, payload: Seq<u8>) -> Seq<u8> {
    header_bytes(h) + wire_payload(h, payload)
}

/// A control frame must be final and carry at most 125 bytes.
pub open spec fn sendable(fin: bool, opcode: Opcode, len: nat) -> bool {
    opcode.is_control() ==> fin && len <= 125
}

/// What a receiver in `role` reads from the start of `w`: header, unmasked
/// payload and the number of bytes the frame takes, or why there is none.
pub open spec fn parse_frame(w: Seq<u8>, role: Role) -> Result<(HeaderView, Seq<u8>, nat), Error> {
    match parse_header(w, role) {
        Err(e) => Err(e),
        Ok((h, n)) => if w.len() < n + h.len {
            Err(Error::Incomplete)
        } else {
            Ok((h, wire_payload(h, w.subrange(n as int, (n + h.len) as int)), n + h.len))
        },
    }
}

/// One frame as received: its header and its payload, unmasked.
#[derive(Clone, Debug, PartialEq, Eq)]
pub struct Frame {
    pub header: FrameHeader,
    pub payload: Vec<u8>,
}

/// The result of `decode` as a mathematical value.
pub open spec fn decoded_frame_view(r: Result<(Frame, usize), Error>) -> Result<
    (HeaderView, Seq<u8>, nat),
    Error,
> {
    match r {
        Ok((frame, n)) => Ok((frame.header@, frame.payload@, n as nat)),
        Err(e) => Err(e),
    }
}

/// A frame written by one side is read by the other side as the same FIN
/// bit, opcode and payload, whatever bytes follow it on the wire, and reading
/// takes exactly the bytes of the frame.
pub proof fn lemma_frame_round_trip(
    role: Role,
    fin: bool,
    opcode: Opcode,
    payload: Seq<u8>,
    key: Seq<u8>,
    rest: Seq<u8>,
)
    requires
        key.len() == 4,
        payload.len() <= u64::MAX,
        sendable(fin, opcode, payload.len()),
    ensures
        ({
            let h = outgoing_header(role, fin, opcode, payload.len(), key);
            &&& h.fin == fin && h.opcode == opcode
            &&& parse_frame(frame_bytes(h, payload) + rest, role.peer()) == Ok::<
                (HeaderView, Seq<u8>, nat),
                Error,
            >((h, payload, frame_bytes(h, payload).len()))
        }),
{
    let h = outgoing_header(role, fin, opcode, payload.len(), key);
    let body = wire_payload(h, payload);
    let w = frame_bytes(h, payload) + rest;
    let n = header_bytes(h).len();
    assert(w =~= header_bytes(h) + (body + rest));
    crate::header::lemma_header_round_trip(h, body + rest, role.peer());
    assert(w.subrange(n as int, (n + h.len) as int) =~= body);
    if h.mask is Some {
        lemma_mask_involution(payload, key, 0);
    }
}

/// Appends one frame to `writer`: the header in its shortest form, then the
/// payload, masked with `key` where `role` is the client. A control frame
/// that is not final or carries more than 125 bytes is refused and nothing is
/// written.
pub fn encode(
    writer: &mut Vec<u8>,
    role: Role,
    fin: bool,
    opcode: Opcode,
    data: &[u8],
    key: [u8; 4],
) -> (r: Result<(), Error>)
    ensures
        !sendable(fin, opcode, data@.len()) ==> r == Err::<(), Error>(Error::ProtocolError)
            && final(writer)@ == old(writer)@,
        sendable(fin, opcode, data@.len()) ==> r is Ok && final(writer)@ == old(writer)@
            + frame_bytes(outgoing_header(role, fin, opcode, data@.len(), key@), data@),
{
    let n: usize = data.len();
    if opcode.is_control() && (!fin || n > 125) {
        return Err(Error::ProtocolError);
    }
    let masking: bool = role.masks_outgoing();
    let header = FrameHeader {
        fin,
        opcode,
        len: n as u64,
        mask: if masking { Some(key) } else { None },
    };
    header.encode(writer);
    let ghost h = outgoing_header(role, fin, opcode, data@.len(), key@);
    let ghost body = wire_payload(h, data@);
    assert(header@ == h);
    let ghost start = writer@;
    let mut i: usize = 0;
    while i < n
        invariant
            n == data@.len(),
            i <= n,
            body.len() == n,
            body == wire_payload(h, data@),
            h.mask == (if masking { Some(key@) } else { None }),
            writer@ == start + body.subrange(0, i as int),
        decreases n - i,
    {
        let b: u8 = if masking { data[i] ^ key[i % 4] } else { data[i] };
        writer.push(b);
        proof {
            assert(body[i as int] == b);
            assert(body.subrange(0, i + 1) =~= body.subrange(0, i as int).push(b));
        }
        i += 1;
    }
    assert(body.subrange(0, n as int) =~= body);
    assert(writer@ =~= old(writer)@ + frame_bytes(h, data@));
    Ok(())
}

/// Reads one whole frame from the start of `window`, as a receiver in `role`:
/// the header, the payload with the mask taken off, and the number of bytes
/// the frame took. `Incomplete` says that the window ends before the frame.
pub fn decode(window: &[u8], role: Role) -> (r: Result<(Frame, usize), Error>)
    ensures
        decoded_frame_view(r) == parse_frame(window@, role),
{
    let (header, n) = match FrameHeader::decode(window, role) {
        Ok(found) => found,
        Err(e) => {
            return Err(e);
        },
    };
    let total: usize = window.len();
    if header.len > (total - n) as u64 {
        return Err(Error::Incomplete);
    }
    let len: usize = header.len as usize;
    let mut payload: Vec<u8> = Vec::new();
    let mut i: usize = 0;
    while i < len
        invariant
            total == window@.len(),
            n + len <= total,
            i <= len,
            payload@ == window@.subrange(n as int, n + i),
        decreases len - i,
    {
        payload.push(window[n + i]);
        proof {
            assert(window@.subrange(n as int, n + i + 1) =~= window@.subrange(n as int, n + i).push(
                window@[n + i],
            ));
        }
        i += 1;
    }
    match header.mask {
        Some(key) => {
            apply(&mut payload, key, 0);
        },
        None => {},
    }
    Ok((Frame { header, payload }, n + len))
}

} // verus!
