//! The small vocabulary of the protocol: roles, opcodes, data types, errors.

use vstd::prelude::*;

verus! {

/// The side of the connection that the engine plays.
#[derive(Clone, Copy, Debug, PartialEq, Eq, Structural)]
pub enum Role {
    Server,
    Client,
}

impl Role {
    /// A server accepts masked frames only, a client unmasked frames only.
    pub open spec fn spec_expects_masked(self) -> bool {
        self == Role::Server
    }

    #[verifier::when_used_as_spec(spec_expects_masked)]
    pub fn expects_masked(self) -> (r: bool)
        ensures
            r == self.spec_expects_masked(),
    {
        match self {
            Role::Server => true,
            Role::Client => false,
        }
    }

    /// A client masks every frame it sends, a server none.
    pub open spec fn spec_masks_outgoing(self) -> bool {
        self == Role::Client
    }

    #[verifier::when_used_as_spec(spec_masks_outgoing)]
    pub fn masks_outgoing(self) -> (r: bool)
        ensures
            r == self.spec_masks_outgoing(),
    {
        match self {
            Role::Server => false,
            Role::Client => true,
        }
    }

    /// The role at the other end of the connection.
    pub open spec fn spec_peer(self) -> Role {
        match self {
            Role::Server => Role::Client,
            Role::Client => Role::Server,
        }
    }

    #[verifier::when_used_as_spec(spec_peer)]
    pub fn peer(self) -> (r: Role)
        ensures
            r == self.spec_peer(),
            r.spec_expects_masked() == self.spec_masks_outgoing(),
    {
        match self {
            Role::Server => Role::Client,
            Role::Client => Role::Server,
        }
    }
}

/// The purpose of a frame, the low four bits of its first byte.
#[derive(Clone, Copy, Debug, PartialEq, Eq, Structural)]
pub enum Opcode {
    Continue,
    Text,
    Binary,
    Close,
    Ping,
    Pong,
}

impl Opcode {
    /// The number that stands for the opcode on the wire.
    pub open spec fn code(self) -> u8 {
        match self {
            Opcode::Continue => 0,
            Opcode::Text => 1,
            Opcode::Binary => 2,
            Opcode::Close => 8,
            Opcode::Ping => 9,
            Opcode::Pong => 10,
        }
    }

    /// The opcode that a number stands for; the reserved numbers stand for none.
    pub open spec fn from_code(code: u8) -> Option<Opcode> {
        if code == 0 {
            Some(Opcode::Continue)
        } else if code == 1 {
            Some(Opcode::Text)
        } else if code == 2 {
            Some(Opcode::Binary)
        } else if code == 8 {
            Some(Opcode::Close)
        } else if code == 9 {
            Some(Opcode::Ping)
        } else if code == 10 {
            Some(Opcode::Pong)
        } else {
            None
        }
    }

    /// Close, Ping and Pong are the control opcodes.
    pub open spec fn spec_is_control(self) -> bool {
        self == Opcode::Close || self == Opcode::Ping || self == Opcode::Pong
    }

    #[verifier::when_used_as_spec(spec_is_control)]
    pub fn is_control(self) -> (r: bool)
        ensures
            r == self.spec_is_control(),
    {
        match self {
            Opcode::Close | Opcode::Ping | Opcode::Pong => true,
            _ => false,
        }
    }

    pub fn to_u8(self) -> (r: u8)
        ensures
            r == self.code(),
    {
        match self {
            Opcode::Continue => 0,
            Opcode::Text => 1,
            Opcode::Binary => 2,
            Opcode::Close => 8,
            Opcode::Ping => 9,
            Opcode::Pong => 10,
        }
    }

    pub fn from_u8(code: u8) -> (r: Option<Opcode>)
        ensures
            r == Opcode::from_code(code),
    {
        if code == 0 {
            Some(Opcode::Continue)
        } else if code == 1 {
            Some(Opcode::Text)
        } else if code == 2 {
            Some(Opcode::Binary)
        } else if code == 8 {
            Some(Opcode::Close)
        } else if code == 9 {
            Some(Opcode::Ping)
        } else if code == 10 {
            Some(Opcode::Pong)
        } else {
            None
        }
    }
}

/// Every opcode is found again from its number.
pub proof fn lemma_opcode_code_round_trip(opcode: Opcode)
    ensures
        Opcode::from_code(opcode.code()) == Some(opcode),
        opcode.code() < 16,
{
}

/// What a message carries.
#[derive(Clone, Copy, Debug, PartialEq, Eq, Structural)]
pub enum DataType {
    Text,
    Binary,
}

impl DataType {
    /// The opcode of the frame that opens a message of this type.
    pub open spec fn spec_opcode(self) -> Opcode {
        match self {
            DataType::Text => Opcode::Text,
            DataType::Binary => Opcode::Binary,
        }
    }

    #[verifier::when_used_as_spec(spec_opcode)]
    pub fn opcode(self) -> (r: Opcode)
        ensures
            r == self.spec_opcode(),
    {
        match self {
            DataType::Text => Opcode::Text,
            DataType::Binary => Opcode::Binary,
        }
    }

    /// The data type that an opcode opens, for the two data opcodes.
    pub open spec fn spec_from_opcode(opcode: Opcode) -> Option<DataType> {
        match opcode {
            Opcode::Text => Some(DataType::Text),
            Opcode::Binary => Some(DataType::Binary),
            _ => None,
        }
    }

    #[verifier::when_used_as_spec(spec_from_opcode)]
    pub fn from_opcode(opcode: Opcode) -> (r: Option<DataType>)
        ensures
            r == DataType::spec_from_opcode(opcode),
    {
        match opcode {
            Opcode::Text => Some(DataType::Text),
            Opcode::Binary => Some(DataType::Binary),
            _ => None,
        }
    }
}

/// Why the engine gave up on a frame or a message.
#[derive(Clone, Copy, Debug, PartialEq, Eq, Structural)]
pub enum Error {
    /// The bytes at hand end before the header or the payload does.
    Incomplete,
    /// Wrong masking for the role, a reserved bit or opcode, a control frame
    /// that is fragmented or too long.
    ProtocolError,
    /// A payload length written in a longer form than it needs.
    MalformedHeader,
    /// A payload that is not what its frame type asks for.
    InvalidPayloadData,
    /// The frame's payload ended before the destination was full.
    UnexpectedEof,
    /// A new data frame arrived while a fragmented message was open.
    UnexpectedDataFrame,
    /// A continuation frame arrived while no message was open.
    UnexpectedContinuation,
    /// A frame was to be sent after the closing handshake had begun.
    Closed,
}

impl Error {
    /// The close code to send before the connection is given up, where one
    /// can still be sent.
    pub open spec fn spec_close_code(self) -> Option<u16> {
        match self {
            Error::ProtocolError | Error::UnexpectedDataFrame | Error::UnexpectedContinuation => Some(
                1002u16,
            ),
            Error::MalformedHeader | Error::InvalidPayloadData => Some(1007u16),
            Error::Incomplete | Error::UnexpectedEof | Error::Closed => None,
        }
    }

    #[verifier::when_used_as_spec(spec_close_code)]
    pub fn close_code(self) -> (r: Option<u16>)
        ensures
            r == self.spec_close_code(),
    {
        match self {
            Error::ProtocolError | Error::UnexpectedDataFrame | Error::UnexpectedContinuation => Some(
                1002,
            ),
            Error::MalformedHeader | Error::InvalidPayloadData => Some(1007),
            Error::Incomplete | Error::UnexpectedEof | Error::Closed => None,
        }
    }
}

} // verus!
