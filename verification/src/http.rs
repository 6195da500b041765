//! Utilities for the HTTP exchange that comes before the upgrade.

use crate::text::{format_field, string_from_utf8};
use vstd::prelude::*;
use vstd::utf8::{decode_utf8, valid_utf8};

verus! {

/// The text of one header field: key, colon, space, value, line end.
pub open spec fn header_line(key: Seq<char>, value: Seq<char>) -> Seq<char> {
    key + seq![':', ' '] + value + seq!['\r', '\n']
}

/// Formatting of one HTTP header field.
pub trait Header {
    /// The text of the field.
    spec fn line(this: &Self) -> Seq<char>;

    /// Formats a single HTTP header field.
    fn fmt(this: &Self) -> (r: String)
        ensures
            r@ == Self::line(this),
    ;
}

impl<T: Header> Header for &T {
    open spec fn line(this: &Self) -> Seq<char> {
        T::line(*this)
    }

    fn fmt(this: &Self) -> (r: String) {
        T::fmt(*this)
    }
}

impl<'a> Header for [&'a str; 2] {
    open spec fn line(this: &Self) -> Seq<char> {
        header_line(this@[0]@, this@[1]@)
    }

    fn fmt(this: &Self) -> (r: String) {
        format_field(this[0], this[1])
    }
}

impl<'a, 'b> Header for (&'a str, &'b str) {
    open spec fn line(this: &Self) -> Seq<char> {
        header_line(this.0@, this.1@)
    }

    fn fmt(this: &Self) -> (r: String) {
        format_field(this.0, this.1)
    }
}

/// Why the start of an HTTP message could not be read.
#[derive(Clone, Copy, Debug, PartialEq, Eq, Structural)]
pub enum HttpError {
    /// The bytes end before the line does.
    UnexpectedEof,
    /// The line is not UTF-8.
    InvalidData,
}

/// An HTTP message: its first line and its header fields.
#[derive(Debug, Clone)]
pub struct Http {
    /// The first line of the message (e.g. `HTTP/1.1 101 Switching Protocols`).
    pub prefix: String,
    /// The header fields as pairs of key and value, in the order of arrival.
    pub headers: Vec<(String, String)>,
}

/// `i` is the place of the first `byte` in `s`.
pub open spec fn is_first(s: Seq<u8>, byte: u8, i: int) -> bool {
    &&& 0 <= i < s.len()
    &&& s[i] == byte
    &&& forall|j: int| 0 <= j < i ==> s[j] != byte
}

/// The place of the first `ascii` in `bytes`, if there is one.
pub fn split_once(bytes: &[u8], ascii: u8) -> (r: Option<usize>)
    ensures
        r matches Some(i) ==> is_first(bytes@, ascii, i as int),
        r is None ==> forall|j: int| 0 <= j < bytes@.len() ==> bytes@[j] != ascii,
{
    let n: usize = bytes.len();
    let mut i: usize = 0;
    while i < n
        invariant
            n == bytes@.len(),
            i <= n,
            forall|j: int| 0 <= j < i ==> bytes@[j] != ascii,
        decreases n - i,
    {
        if bytes[i] == ascii {
            return Some(i);
        }
        i += 1;
    }
    None
}

impl Http {
    /// Reads the first line of an HTTP message from the start of `reader`:
    /// the text before the first line feed, with no header fields yet, and
    /// the number of bytes the line took, the line feed included.
    pub fn parse(reader: &[u8]) -> (r: Result<(Http, usize), HttpError>)
        ensures
            (forall|j: int| 0 <= j < reader@.len() ==> reader@[j] != 10u8) ==> r matches Err(
                HttpError::UnexpectedEof,
            ),
            forall|i: int|
                is_first(reader@, 10u8, i) ==> if valid_utf8(reader@.subrange(0, i)) {
                    r matches Ok((http, n)) && n == i + 1 && http.prefix@ == decode_utf8(
                        reader@.subrange(0, i),
                    ) && http.headers@.len() == 0
                } else {
                    r matches Err(HttpError::InvalidData)
                },
    {
        let at: usize = match split_once(reader, 10u8) {
            Some(at) => at,
            None => {
                return Err(HttpError::UnexpectedEof);
            },
        };
        assert forall|i: int| is_first(reader@, 10u8, i) implies i == at by {
            if i < at {
                assert(reader@[i] != 10u8);
            } else if at < i {
                assert(reader@[at as int] != 10u8);
            }
        }
        let total: usize = reader.len();
        assert(at < total);
        let line: Vec<u8> = vstd::slice::slice_to_vec(vstd::slice::slice_subrange(reader, 0, at));
        match string_from_utf8(line) {
            Some(prefix) => Ok((Http { prefix, headers: Vec::new() }, at + 1)),
            None => Err(HttpError::InvalidData),
        }
    }
}

} // verus!
