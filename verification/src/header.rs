//! The frame header codec: FIN bit, opcode, mask flag, payload length in its
//! shortest form, and the mask key.

use crate::proto::{Error, Opcode, Role};
use vstd::prelude::*;

verus! {

/// The header of one frame.
#[derive(Clone, Copy, Debug, PartialEq, Eq)]
pub struct FrameHeader {
    pub fin: bool,
    pub opcode: Opcode,
    pub len: u64,
    pub mask: Option<[u8; 4]>,
}

/// A frame header as a mathematical value.
pub struct HeaderView {
    pub fin: bool,
    pub opcode: Opcode,
    pub len: nat,
    pub mask: Option<Seq<u8>>,
}

impl View for FrameHeader {
    type V = HeaderView;

    open spec fn view(&self) -> HeaderView {
        HeaderView {
            fin: self.fin,
            opcode: self.opcode,
            len: self.len as nat,
            mask: match self.mask {
                Some(key) => Some(key@),
                None => None,
            },
        }
    }
}

impl HeaderView {
    /// A header that can stand on the wire: the length fits in 64 bits, a key
    /// has four bytes, and a control frame is final and short.
    pub open spec fn wf(self) -> bool {
        &&& self.len <= u64::MAX
        &&& (self.mask matches Some(key) ==> key.len() == 4)
        &&& (self.opcode.is_control() ==> self.fin && self.len <= 125)
    }

    /// The header is one that a receiver in `role` accepts.
    pub open spec fn fits(self, role: Role) -> bool {
        self.wf() && (self.mask is Some <==> role.expects_masked())
    }
}

/// The two bytes of a 16-bit length, most significant first.
pub open spec fn be16(n: nat) -> Seq<u8> {
    seq![((n / 0x100) % 0x100) as u8, (n % 0x100) as u8]
}

/// The eight bytes of a 64-bit length, most significant first.
#[verifier::opaque]
pub open spec fn be64(n: nat) -> Seq<u8> {
    seq![
        ((n / 0x100_0000_0000_0000) % 0x100) as u8,
        ((n / 0x1_0000_0000_0000) % 0x100) as u8,
        ((n / 0x100_0000_0000) % 0x100) as u8,
        ((n / 0x1_0000_0000) % 0x100) as u8,
        ((n / 0x100_0000) % 0x100) as u8,
        ((n / 0x1_0000) % 0x100) as u8,
        ((n / 0x100) % 0x100) as u8,
        (n % 0x100) as u8,
    ]
}

/// The number that two bytes spell, most significant first.
pub open spec fn be16_value(s: Seq<u8>) -> nat
    recommends
        s.len() == 2,
{
    (s[0] as nat) * 0x100 + (s[1] as nat)
}

/// The number that eight bytes spell, most significant first.
#[verifier::opaque]
pub open spec fn be64_value(s: Seq<u8>) -> nat
    recommends
        s.len() == 8,
{
    (s[0] as nat) * 0x100_0000_0000_0000
        + (s[1] as nat) * 0x1_0000_0000_0000
        + (s[2] as nat) * 0x100_0000_0000
        + (s[3] as nat) * 0x1_0000_0000
        + (s[4] as nat) * 0x100_0000
        + (s[5] as nat) * 0x1_0000
        + (s[6] as nat) * 0x100
        + (s[7] as nat)
}

/// The seven low bits of the second header byte for a payload length.
pub open spec fn len_prefix(len: nat) -> nat {
    if len < 126 {
        len
    } else if len < 65536 {
        126
    } else {
        127
    }
}

/// The extended length field for a payload length: none, two or eight bytes.
pub open spec fn len_field(len: nat) -> Seq<u8> {
    if len < 126 {
        Seq::<u8>::empty()
    } else if len < 65536 {
        be16(len)
    } else {
        be64(len)
    }
}

/// The bytes of a header on the wire.
pub open spec fn header_bytes(h: HeaderView) -> Seq<u8> {
    let first = (if h.fin { 128int } else { 0int }) + h.opcode.code();
    let second = (if h.mask is Some { 128int } else { 0int }) + len_prefix(h.len);
    seq![first as u8, second as u8] + len_field(h.len) + (match h.mask {
        Some(key) => key,
        None => Seq::<u8>::empty(),
    })
}

/// What a receiver in `role` reads from the start of `w`: the header and the
/// number of bytes it takes, or the reason why there is none.
pub open spec fn parse_header(w: Seq<u8>, role: Role) -> Result<(HeaderView, nat), Error> {
    if w.len() < 2 {
        Err(Error::Incomplete)
    } else {
        let fin = w[0] >= 128;
        let reserved = (w[0] % 128) / 16;
        let masked = w[1] >= 128;
        let len7 = (w[1] % 128) as nat;
        let ext: int = if len7 == 126 { 2 } else if len7 == 127 { 8 } else { 0 };
        let key_len: int = if masked { 4 } else { 0 };
        let len: nat = if len7 == 126 {
            be16_value(w.subrange(2, 4))
        } else if len7 == 127 {
            be64_value(w.subrange(2, 10))
        } else {
            len7
        };
        match Opcode::from_code(w[0] % 16) {
            None => Err(Error::ProtocolError),
            Some(opcode) => if reserved != 0 {
                Err(Error::ProtocolError)
            } else if masked != role.expects_masked() {
                Err(Error::ProtocolError)
            } else if opcode.is_control() && (!fin || len7 > 125) {
                Err(Error::ProtocolError)
            } else if w.len() < 2 + ext {
                Err(Error::Incomplete)
            } else if len_prefix(len) != len7 {
                Err(Error::MalformedHeader)
            } else if w.len() < 2 + ext + key_len {
                Err(Error::Incomplete)
            } else {
                Ok(
                    (
                        HeaderView {
                            fin,
                            opcode,
                            len,
                            mask: if masked {
                                Some(w.subrange(2 + ext, 2 + ext + 4))
                            } else {
                                None
                            },
                        },
                        (2 + ext + key_len) as nat,
                    ),
                )
            },
        }
    }
}

/// The result of `FrameHeader::decode` as a mathematical value.
pub open spec fn decoded_view(r: Result<(FrameHeader, usize), Error>) -> Result<
    (HeaderView, nat),
    Error,
> {
    match r {
        Ok((h, n)) => Ok((h@, n as nat)),
        Err(e) => Err(e),
    }
}

/// A length and the bytes that spell it give each other back.
pub proof fn lemma_be_round_trip(n: nat)
    ensures
        n < 0x1_0000 ==> be16_value(be16(n)) == n,
        n <= u64::MAX ==> be64_value(be64(n)) == n,
        be16(n).len() == 2,
        be64(n).len() == 8,
{
    reveal(be64);
    reveal(be64_value);
    if n <= u64::MAX {
        let m: u64 = n as u64;
        assert(((m / 0x100_0000_0000_0000) % 0x100) * 0x100_0000_0000_0000 + ((m
            / 0x1_0000_0000_0000) % 0x100) * 0x1_0000_0000_0000 + ((m / 0x100_0000_0000) % 0x100)
            * 0x100_0000_0000 + ((m / 0x1_0000_0000) % 0x100) * 0x1_0000_0000 + ((m / 0x100_0000)
            % 0x100) * 0x100_0000 + ((m / 0x1_0000) % 0x100) * 0x1_0000 + ((m / 0x100) % 0x100)
            * 0x100 + (m % 0x100) == m) by (bit_vector);
        let s = be64(n);
        assert(s[0] == ((m / 0x100_0000_0000_0000) % 0x100));
        assert(s[1] == ((m / 0x1_0000_0000_0000) % 0x100));
        assert(s[2] == ((m / 0x100_0000_0000) % 0x100));
        assert(s[3] == ((m / 0x1_0000_0000) % 0x100));
        assert(s[4] == ((m / 0x100_0000) % 0x100));
        assert(s[5] == ((m / 0x1_0000) % 0x100));
        assert(s[6] == ((m / 0x100) % 0x100));
        assert(s[7] == (m % 0x100));
    }
}

/// A header takes the shortest of the three length forms: one byte for a
/// length up to 125, two more bytes up to 65535, eight more bytes beyond.
pub proof fn lemma_minimal_length_form(h: HeaderView)
    requires
        h.wf(),
    ensures
        header_bytes(h)[1] % 128 == len_prefix(h.len),
        h.len < 126 ==> header_bytes(h)[1] % 128 == h.len && len_field(h.len).len() == 0,
        126 <= h.len < 65536 ==> header_bytes(h)[1] % 128 == 126 && len_field(h.len).len() == 2,
        65536 <= h.len ==> header_bytes(h)[1] % 128 == 127 && len_field(h.len).len() == 8,
        header_bytes(h).len() == 2 + len_field(h.len).len() + (if h.mask is Some {
            4nat
        } else {
            0nat
        }),
{
    lemma_be_round_trip(h.len);
}

/// Decoding what was encoded gives the header back, whatever bytes follow it,
/// and takes exactly the bytes of the header.
pub proof fn lemma_header_round_trip(h: HeaderView, rest: Seq<u8>, role: Role)
    requires
        h.fits(role),
    ensures
        parse_header(header_bytes(h) + rest, role) == Ok::<(HeaderView, nat), Error>(
            (h, header_bytes(h).len()),
        ),
{
    let hb = header_bytes(h);
    let w = hb + rest;
    let key: Seq<u8> = match h.mask {
        Some(key) => key,
        None => Seq::<u8>::empty(),
    };
    let field = len_field(h.len);
    lemma_be_round_trip(h.len);
    crate::proto::lemma_opcode_code_round_trip(h.opcode);
    assert(w[0] == hb[0]);
    assert(w[1] == hb[1]);
    let ext = field.len() as int;
    assert(w.subrange(2, 2 + ext) =~= field);
    assert(w.subrange(2 + ext, 2 + ext + key.len()) =~= key);
    match parse_header(w, role) {
        Ok((g, n)) => {
            assert(g.mask == h.mask);
            assert(g.len == h.len);
        },
        Err(_) => {},
    }
}

/// A receiver refuses a frame whose mask bit is not the one its role asks
/// for: a server a frame without a key, a client a frame with one.
pub proof fn lemma_wrong_mask_refused(w: Seq<u8>, role: Role)
    requires
        w.len() >= 2,
        (w[1] >= 128) != role.expects_masked(),
    ensures
        parse_header(w, role) == Err::<(HeaderView, nat), Error>(Error::ProtocolError),
{
}

/// The same rule from the sender's side: a frame that claims to come from
/// a server but carries the mask bit, or from a client but lacks it, is
/// refused by the end that receives it.
pub proof fn lemma_sender_mask_rule(w: Seq<u8>, sender: Role)
    requires
        w.len() >= 2,
        (w[1] >= 128) != sender.masks_outgoing(),
    ensures
        parse_header(w, sender.peer()) == Err::<(HeaderView, nat), Error>(Error::ProtocolError),
{
}

impl FrameHeader {
    /// Reads a header from the start of `window`, as a receiver in `role`.
    /// Nothing is consumed: on success the second component says how many
    /// bytes the header took.
    pub fn decode(window: &[u8], role: Role) -> (r: Result<(FrameHeader, usize), Error>)
        ensures
            decoded_view(r) == parse_header(window@, role),
    {
        if window.len() < 2 {
            return Err(Error::Incomplete);
        }
        let b0: u8 = window[0];
        let b1: u8 = window[1];
        let fin: bool = b0 >= 128;
        let reserved: u8 = (b0 % 128) / 16;
        let masked: bool = b1 >= 128;
        let len7: u8 = b1 % 128;
        let opcode: Opcode = match Opcode::from_u8(b0 % 16) {
            Some(opcode) => opcode,
            None => {
                return Err(Error::ProtocolError);
            },
        };
        if reserved != 0 {
            return Err(Error::ProtocolError);
        }
        if masked != role.expects_masked() {
            return Err(Error::ProtocolError);
        }
        if opcode.is_control() && (!fin || len7 > 125) {
            return Err(Error::ProtocolError);
        }
        let ext: usize = if len7 == 126 { 2 } else if len7 == 127 { 8 } else { 0 };
        if window.len() < 2 + ext {
            return Err(Error::Incomplete);
        }
        let len: u64 = if len7 == 126 {
            proof {
                assert(window@.subrange(2, 4)[0] == window@[2]);
                assert(window@.subrange(2, 4)[1] == window@[3]);
            }
            (window[2] as u64) * 0x100 + (window[3] as u64)
        } else if len7 == 127 {
            proof {
                reveal(be64_value);
                let s = window@.subrange(2, 10);
                assert(s[0] == window@[2] && s[1] == window@[3] && s[2] == window@[4] && s[3]
                    == window@[5]);
                assert(s[4] == window@[6] && s[5] == window@[7] && s[6] == window@[8] && s[7]
                    == window@[9]);
            }
            (window[2] as u64) * 0x100_0000_0000_0000
                + (window[3] as u64) * 0x1_0000_0000_0000
                + (window[4] as u64) * 0x100_0000_0000
                + (window[5] as u64) * 0x1_0000_0000
                + (window[6] as u64) * 0x100_0000
                + (window[7] as u64) * 0x1_0000
                + (window[8] as u64) * 0x100
                + (window[9] as u64)
        } else {
            len7 as u64
        };
        let minimal: bool = if len < 126 {
            len7 as u64 == len
        } else if len < 65536 {
            len7 == 126
        } else {
            len7 == 127
        };
        if !minimal {
            return Err(Error::MalformedHeader);
        }
        if masked {
            if window.len() < 2 + ext + 4 {
                return Err(Error::Incomplete);
            }
            let key: [u8; 4] = [
                window[2 + ext],
                window[2 + ext + 1],
                window[2 + ext + 2],
                window[2 + ext + 3],
            ];
            proof {
                assert(key@ =~= window@.subrange(2 + ext as int, 2 + ext + 4));
            }
            Ok((FrameHeader { fin, opcode, len, mask: Some(key) }, 2 + ext + 4))
        } else {
            Ok((FrameHeader { fin, opcode, len, mask: None }, 2 + ext))
        }
    }

    /// Appends the header's bytes to `writer`, the length in its shortest form.
    pub fn encode(&self, writer: &mut Vec<u8>)
        ensures
            final(writer)@ == old(writer)@ + header_bytes(self@),
    {
        proof {
            reveal(be64);
        }
        let first: u8 = (if self.fin { 128u8 } else { 0u8 }) + self.opcode.to_u8();
        let flag: u8 = if self.mask.is_some() { 128u8 } else { 0u8 };
        let len: u64 = self.len;
        writer.push(first);
        if len < 126 {
            writer.push(flag + (len as u8));
        } else if len < 65536 {
            writer.push(flag + 126);
            writer.push(((len / 0x100) % 0x100) as u8);
            writer.push((len % 0x100) as u8);
        } else {
            writer.push(flag + 127);
            writer.push(((len / 0x100_0000_0000_0000) % 0x100) as u8);
            writer.push(((len / 0x1_0000_0000_0000) % 0x100) as u8);
            writer.push(((len / 0x100_0000_0000) % 0x100) as u8);
            writer.push(((len / 0x1_0000_0000) % 0x100) as u8);
            writer.push(((len / 0x100_0000) % 0x100) as u8);
            writer.push(((len / 0x1_0000) % 0x100) as u8);
            writer.push(((len / 0x100) % 0x100) as u8);
            writer.push((len % 0x100) as u8);
        }
        match self.mask {
            Some(key) => {
                writer.push(key[0]);
                writer.push(key[1]);
                writer.push(key[2]);
                writer.push(key[3]);
            },
            None => {},
        }
        assert(writer@ =~= old(writer)@ + header_bytes(self@));
    }
}

} // verus!
