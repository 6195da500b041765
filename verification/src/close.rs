//! Close codes and the payload of a Close frame: a big-endian code followed
//! by a UTF-8 reason, or nothing at all.

use crate::header::{be16, be16_value};
use crate::proto::Error;
use crate::text::is_utf8;
use vstd::prelude::*;
use vstd::utf8::valid_utf8;

verus! {

/// The close codes that have a name.
#[derive(Clone, Copy, Debug, PartialEq, Eq, Structural)]
pub enum CloseCode {
    Normal,
    Away,
    ProtocolError,
    UnsupportedData,
    InvalidPayloadData,
    PolicyViolation,
    MessageTooBig,
    MandatoryExtension,
    InternalError,
}

impl CloseCode {
    /// The number that stands for the code on the wire.
    pub open spec fn code(self) -> u16 {
        match self {
            CloseCode::Normal => 1000,
            CloseCode::Away => 1001,
            CloseCode::ProtocolError => 1002,
            CloseCode::UnsupportedData => 1003,
            CloseCode::InvalidPayloadData => 1007,
            CloseCode::PolicyViolation => 1008,
            CloseCode::MessageTooBig => 1009,
            CloseCode::MandatoryExtension => 1010,
            CloseCode::InternalError => 1011,
        }
    }

    /// The named code that a number stands for, if it has a name.
    pub open spec fn from_code(code: u16) -> Option<CloseCode> {
        if code == 1000 {
            Some(CloseCode::Normal)
        } else if code == 1001 {
            Some(CloseCode::Away)
        } else if code == 1002 {
            Some(CloseCode::ProtocolError)
        } else if code == 1003 {
            Some(CloseCode::UnsupportedData)
        } else if code == 1007 {
            Some(CloseCode::InvalidPayloadData)
        } else if code == 1008 {
            Some(CloseCode::PolicyViolation)
        } else if code == 1009 {
            Some(CloseCode::MessageTooBig)
        } else if code == 1010 {
            Some(CloseCode::MandatoryExtension)
        } else if code == 1011 {
            Some(CloseCode::InternalError)
        } else {
            None
        }
    }

    pub fn to_u16(self) -> (r: u16)
        ensures
            r == self.code(),
    {
        match self {
            CloseCode::Normal => 1000,
            CloseCode::Away => 1001,
            CloseCode::ProtocolError => 1002,
            CloseCode::UnsupportedData => 1003,
            CloseCode::InvalidPayloadData => 1007,
            CloseCode::PolicyViolation => 1008,
            CloseCode::MessageTooBig => 1009,
            CloseCode::MandatoryExtension => 1010,
            CloseCode::InternalError => 1011,
        }
    }

    pub fn from_u16(code: u16) -> (r: Option<CloseCode>)
        ensures
            r == CloseCode::from_code(code),
    {
        if code == 1000 {
            Some(CloseCode::Normal)
        } else if code == 1001 {
            Some(CloseCode::Away)
        } else if code == 1002 {
            Some(CloseCode::ProtocolError)
        } else if code == 1003 {
            Some(CloseCode::UnsupportedData)
        } else if code == 1007 {
            Some(CloseCode::InvalidPayloadData)
        } else if code == 1008 {
            Some(CloseCode::PolicyViolation)
        } else if code == 1009 {
            Some(CloseCode::MessageTooBig)
        } else if code == 1010 {
            Some(CloseCode::MandatoryExtension)
        } else if code == 1011 {
            Some(CloseCode::InternalError)
        } else {
            None
        }
    }
}

/// Every named code is found again from its number and may stand in a Close
/// frame.
pub proof fn lemma_close_code_round_trip(code: CloseCode)
    ensures
        CloseCode::from_code(code.code()) == Some(code),
        legal_code(code.code()),
{
}

/// The codes that a peer may put into a Close frame: the named ones, and
/// the ranges left to libraries and applications.
pub open spec fn legal_code(code: u16) -> bool {
    (1000 <= code <= 1003) || (1007 <= code <= 1011) || (3000 <= code <= 4999)
}

/// The payload of a Close frame that carries a code and a reason.
pub open spec fn close_payload(code: u16, reason: Seq<u8>) -> Seq<u8> {
    be16(code as nat) + reason
}

/// What the payload of a Close frame says: nothing, or a code and a reason.
/// One byte alone or a code outside the legal ranges is a protocol error, a
/// reason that is not UTF-8 is invalid payload data.
pub open spec fn parse_close(payload: Seq<u8>) -> Result<Option<(u16, Seq<u8>)>, Error> {
    if payload.len() == 0 {
        Ok(None)
    } else if payload.len() == 1 {
        Err(Error::ProtocolError)
    } else {
        let code = be16_value(payload.subrange(0, 2)) as u16;
        let reason = payload.subrange(2, payload.len() as int);
        if !legal_code(code) {
            Err(Error::ProtocolError)
        } else if !valid_utf8(reason) {
            Err(Error::InvalidPayloadData)
        } else {
            Ok(Some((code, reason)))
        }
    }
}

/// A legal code and a UTF-8 reason are read back from the payload that
/// carries them.
pub proof fn lemma_close_round_trip(code: u16, reason: Seq<u8>)
    requires
        legal_code(code),
        valid_utf8(reason),
    ensures
        parse_close(close_payload(code, reason)) == Ok::<Option<(u16, Seq<u8>)>, Error>(
            Some((code, reason)),
        ),
{
    let p = close_payload(code, reason);
    crate::header::lemma_be_round_trip(code as nat);
    assert(p.subrange(0, 2) =~= be16(code as nat));
    assert(p.subrange(2, p.len() as int) =~= reason);
}

/// The code and the reason of a Close frame.
#[derive(Clone, Debug, PartialEq, Eq)]
pub struct CloseReason {
    pub code: u16,
    pub reason: Vec<u8>,
}

/// The result of `decode_close` as a mathematical value.
pub open spec fn close_view(r: Result<Option<CloseReason>, Error>) -> Result<
    Option<(u16, Seq<u8>)>,
    Error,
> {
    match r {
        Ok(Some(c)) => Ok(Some((c.code, c.reason@))),
        Ok(None) => Ok(None),
        Err(e) => Err(e),
    }
}

/// Builds the payload of a Close frame from a code and a reason.
pub fn encode_close(code: u16, reason: &[u8]) -> (r: Vec<u8>)
    ensures
        r@ == close_payload(code, reason@),
{
    let mut out: Vec<u8> = Vec::new();
    out.push((code / 0x100) as u8);
    out.push((code % 0x100) as u8);
    let n: usize = reason.len();
    let mut i: usize = 0;
    while i < n
        invariant
            n == reason@.len(),
            i <= n,
            out@ == be16(code as nat) + reason@.subrange(0, i as int),
        decreases n - i,
    {
        out.push(reason[i]);
        proof {
            assert(reason@.subrange(0, i + 1) =~= reason@.subrange(0, i as int).push(reason@[i as int]));
            assert(out@ =~= be16(code as nat) + reason@.subrange(0, i + 1));
        }
        i += 1;
    }
    assert(reason@.subrange(0, n as int) =~= reason@);
    out
}

/// Reads the payload of a Close frame.
pub fn decode_close(payload: &[u8]) -> (r: Result<Option<CloseReason>, Error>)
    ensures
        close_view(r) == parse_close(payload@),
{
    let n: usize = payload.len();
    if n == 0 {
        return Ok(None);
    }
    if n == 1 {
        return Err(Error::ProtocolError);
    }
    let code: u16 = (payload[0] as u16) * 0x100 + (payload[1] as u16);
    proof {
        assert(payload@.subrange(0, 2)[0] == payload@[0]);
        assert(payload@.subrange(0, 2)[1] == payload@[1]);
    }
    let legal: bool = (1000 <= code && code <= 1003) || (1007 <= code && code <= 1011) || (3000
        <= code && code <= 4999);
    if !legal {
        return Err(Error::ProtocolError);
    }
    let tail: &[u8] = vstd::slice::slice_subrange(payload, 2, n);
    if !is_utf8(tail) {
        return Err(Error::InvalidPayloadData);
    }
    let reason: Vec<u8> = vstd::slice::slice_to_vec(tail);
    Ok(Some(CloseReason { code, reason }))
}

} // verus!
