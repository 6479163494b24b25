//! The structured response frame `{success, error, error_description}` that
//! error responses carry, and its JSON encoding, framed byte by byte with an
//! exact specification.

use vstd::prelude::*;
use vstd::string::*;
use vstd::utf8::encode_utf8;
use vstd::slice::slice_to_vec;

verus! {

/// The mathematical shape of a frame: flags and the character sequences of
/// its two optional texts.
pub ghost struct RView {
    pub success: bool,
    pub error: Option<Seq<char>>,
    pub error_description: Option<Seq<char>>,
}

/// A response frame: whether the request succeeded, a short error token and
/// a human-readable description.
pub struct R {
    pub success: bool,
    pub error: Option<String>,
    pub error_description: Option<String>,
}

/// The character sequence of an optional text.
pub open spec fn opt_view(o: Option<String>) -> Option<Seq<char>> {
    match o {
        Some(s) => Some(s@),
        None => None,
    }
}

impl View for R {
    type V = RView;

    open spec fn view(&self) -> RView {
        RView {
            success: self.success,
            error: opt_view(self.error),
            error_description: opt_view(self.error_description),
        }
    }
}

/// The hexadecimal digit for a value below 16, lower case.
pub open spec fn spec_hex_digit(n: u8) -> u8 {
    if n < 10 {
        (48 + n) as u8
    } else {
        (87 + n) as u8
    }
}

/// The JSON string-escape of one byte: 92 is the backslash. The two-byte
/// short escapes cover the quote, the backslash, backspace, tab, line feed,
/// form feed and carriage return; the remaining control bytes take the
/// six-byte `u00` form; everything else stands for itself.
pub open spec fn escape_byte(b: u8) -> Seq<u8> {
    if b == 34 {
        seq![92u8, 34u8]
    } else if b == 92 {
        seq![92u8, 92u8]
    } else if b == 8 {
        seq![92u8, 98u8]
    } else if b == 9 {
        seq![92u8, 116u8]
    } else if b == 10 {
        seq![92u8, 110u8]
    } else if b == 12 {
        seq![92u8, 102u8]
    } else if b == 13 {
        seq![92u8, 114u8]
    } else if b < 32 {
        seq![92u8, 117u8, 48u8, 48u8, spec_hex_digit(b / 16), spec_hex_digit(b % 16)]
    } else {
        seq![b]
    }
}

/// The escape of a whole byte sequence, in order.
pub open spec fn json_escaped(s: Seq<u8>) -> Seq<u8>
    decreases s.len(),
{
    if s.len() == 0 {
        Seq::empty()
    } else {
        json_escaped(s.drop_last()) + escape_byte(s.last())
    }
}

/// A JSON string literal: the escaped text between quotes.
pub open spec fn json_string(s: Seq<char>) -> Seq<u8> {
    "\"".spec_bytes() + json_escaped(encode_utf8(s)) + "\"".spec_bytes()
}

/// An optional text as JSON: `null` or a string literal.
pub open spec fn json_opt_string(o: Option<Seq<char>>) -> Seq<u8> {
    match o {
        None => "null".spec_bytes(),
        Some(s) => json_string(s),
    }
}

/// The JSON encoding of a frame, fields in declaration order.
pub open spec fn json_of(r: RView) -> Seq<u8> {
    "{\"success\":".spec_bytes() + (if r.success {
        "true".spec_bytes()
    } else {
        "false".spec_bytes()
    }) + ",\"error\":".spec_bytes() + json_opt_string(r.error)
        + ",\"error_description\":".spec_bytes() + json_opt_string(r.error_description)
        + "}".spec_bytes()
}

/// Append a byte slice.
fn push_slice(out: &mut Vec<u8>, s: &[u8])
    ensures
        final(out)@ == old(out)@ + s@,
{
    let mut v = slice_to_vec(s);
    out.append(&mut v);
}

/// Append the escape of one text.
fn push_escaped(out: &mut Vec<u8>, s: &str)
    ensures
        final(out)@ == old(out)@ + json_escaped(s.spec_bytes()),
{
    let ghost start = out@;
    let bytes = s.as_bytes();
    let n = bytes.len();
    let mut i: usize = 0;
    while i < n
        invariant
            n == bytes@.len(),
            i <= n,
            out@ == start + json_escaped(bytes@.take(i as int)),
        decreases n - i,
    {
        let b = bytes[i];
        proof {
            assert(bytes@.take(i + 1).drop_last() =~= bytes@.take(i as int));
            assert(bytes@.take(i + 1).last() == bytes@[i as int]);
        }
        let ghost before = out@;
        if b == 34 {
            out.push(92);
            out.push(34);
        } else if b == 92 {
            out.push(92);
            out.push(92);
        } else if b == 8 {
            out.push(92);
            out.push(98);
        } else if b == 9 {
            out.push(92);
            out.push(116);
        } else if b == 10 {
            out.push(92);
            out.push(110);
        } else if b == 12 {
            out.push(92);
            out.push(102);
        } else if b == 13 {
            out.push(92);
            out.push(114);
        } else if b < 32 {
            out.push(92);
            out.push(117);
            out.push(48);
            out.push(48);
            let hi = b / 16;
            let lo = b % 16;
            out.push(if hi < 10 { 48 + hi } else { 87 + hi });
            out.push(if lo < 10 { 48 + lo } else { 87 + lo });
        } else {
            out.push(b);
        }
        proof {
            assert(out@ =~= before + escape_byte(b));
            assert(out@ =~= start + json_escaped(bytes@.take(i + 1)));
        }
        i = i + 1;
    }
    proof {
        assert(bytes@.take(n as int) =~= bytes@);
    }
}

/// Append an optional text as JSON.
fn push_opt_string(out: &mut Vec<u8>, o: &Option<String>)
    ensures
        final(out)@ == old(out)@ + json_opt_string(opt_view(*o)),
{
    match o {
        None => {
            push_slice(out, "null".as_bytes());
        },
        Some(s) => {
            push_slice(out, "\"".as_bytes());
            push_escaped(out, s.as_str());
            push_slice(out, "\"".as_bytes());
        },
    }
}

impl R {
    /// A frame with the given fields.
    pub fn new(success: bool, error: Option<String>, error_description: Option<String>) -> (r: R)
        ensures
            r.success == success,
            r.error == error,
            r.error_description == error_description,
    {
        R { success, error, error_description }
    }

    /// The success frame: no error, no description.
    pub fn ok() -> (r: R)
        ensures
            r.success == true,
            r.error is None,
            r.error_description is None,
    {
        R { success: true, error: None, error_description: None }
    }

    /// A failure frame whose error and description both carry `err`.
    pub fn err(err: &str) -> (r: R)
        ensures
            r.success == false,
            r.error matches Some(e) && e@ == err@,
            r.error_description matches Some(d) && d@ == err@,
    {
        R {
            success: false,
            error: Some(err.to_owned()),
            error_description: Some(err.to_owned()),
        }
    }

    /// A failure frame with distinct error token and description.
    pub fn error(err: &str, desc: &str) -> (r: R)
        ensures
            r.success == false,
            r.error matches Some(e) && e@ == err@,
            r.error_description matches Some(d) && d@ == desc@,
    {
        R {
            success: false,
            error: Some(err.to_owned()),
            error_description: Some(desc.to_owned()),
        }
    }

    /// The JSON bytes of the frame.
    pub fn serialize(self) -> (out: Vec<u8>)
        ensures
            out@ == json_of(self@),
    {
        let mut out: Vec<u8> = Vec::new();
        push_slice(&mut out, "{\"success\":".as_bytes());
        if self.success {
            push_slice(&mut out, "true".as_bytes());
        } else {
            push_slice(&mut out, "false".as_bytes());
        }
        push_slice(&mut out, ",\"error\":".as_bytes());
        push_opt_string(&mut out, &self.error);
        push_slice(&mut out, ",\"error_description\":".as_bytes());
        push_opt_string(&mut out, &self.error_description);
        push_slice(&mut out, "}".as_bytes());
        proof {
            assert(out@ =~= json_of(self@));
        }
        out
    }
}

} // verus!
