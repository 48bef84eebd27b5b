//! Parameters as they travel: percent-encoded `name=value` pairs.
//!
//! The same text serves as the query string of a `Get` request and as the
//! form body of a `Post` request. Letters, digits and `-`, `.`, `_`, `~`
//! stand for themselves; every other byte of the UTF-8 form is written as
//! `%` and two upper-case hexadecimal digits.

use crate::method::Method;
use crate::params::{pairs_view, Entry};
use crate::request::OutgoingRequest;
use crate::tonce::digit_char;
use vstd::prelude::*;
use vstd::utf8::encode_utf8;

verus! {

/// `String::push` appends one character to the end of the string.
pub assume_specification[ String::push ](text: &mut String, c: char)
    ensures
        final(text)@ == old(text)@.push(c),
;

/// Bytes that are written as they are: ASCII letters, digits, `-`, `.`,
/// `_` and `~`.
pub open spec fn is_unreserved(b: u8) -> bool {
    (0x30 <= b <= 0x39) || (0x41 <= b <= 0x5a) || (0x61 <= b <= 0x7a) || b == 0x2d || b == 0x2e
        || b == 0x5f || b == 0x7e
}

/// The character for the hexadecimal digit `n`, in upper case.
pub open spec fn upper_hex_digit(n: int) -> char {
    if n < 10 {
        digit_char(n)
    } else if n == 10 {
        'A'
    } else if n == 11 {
        'B'
    } else if n == 12 {
        'C'
    } else if n == 13 {
        'D'
    } else if n == 14 {
        'E'
    } else {
        'F'
    }
}

/// One byte as it travels.
pub open spec fn encoded_byte(b: u8) -> Seq<char> {
    if is_unreserved(b) {
        seq![b as char]
    } else {
        seq!['%', upper_hex_digit(b as int / 16), upper_hex_digit(b as int % 16)]
    }
}

/// A run of bytes as it travels.
pub open spec fn percent_encoded(bytes: Seq<u8>) -> Seq<char>
    decreases bytes.len(),
{
    if bytes.len() == 0 {
        Seq::empty()
    } else {
        percent_encoded(bytes.drop_last()) + encoded_byte(bytes.last())
    }
}

/// One entry as it travels: encoded name, `=`, encoded value.
pub open spec fn form_pair(e: Entry) -> Seq<char> {
    percent_encoded(encode_utf8(e.0)) + seq!['='] + percent_encoded(encode_utf8(e.1))
}

/// The entries `s` as they travel, in order, with `&` between neighbours.
pub open spec fn form_text(s: Seq<Entry>) -> Seq<char>
    decreases s.len(),
{
    if s.len() == 0 {
        Seq::empty()
    } else if s.len() == 1 {
        form_pair(s[0])
    } else {
        form_text(s.drop_last()) + seq!['&'] + form_pair(s.last())
    }
}

/// The upper-case character for the hexadecimal digit `n`.
fn upper_hex_char(n: u8) -> (c: char)
    requires
        n < 16,
    ensures
        c == upper_hex_digit(n as int),
{
    if n == 0 {
        '0'
    } else if n == 1 {
        '1'
    } else if n == 2 {
        '2'
    } else if n == 3 {
        '3'
    } else if n == 4 {
        '4'
    } else if n == 5 {
        '5'
    } else if n == 6 {
        '6'
    } else if n == 7 {
        '7'
    } else if n == 8 {
        '8'
    } else if n == 9 {
        '9'
    } else if n == 10 {
        'A'
    } else if n == 11 {
        'B'
    } else if n == 12 {
        'C'
    } else if n == 13 {
        'D'
    } else if n == 14 {
        'E'
    } else {
        'F'
    }
}

/// Whether `b` is written as it is.
fn unreserved(b: u8) -> (plain: bool)
    ensures
        plain == is_unreserved(b),
{
    (0x30 <= b && b <= 0x39) || (0x41 <= b && b <= 0x5a) || (0x61 <= b && b <= 0x7a) || b == 0x2d
        || b == 0x2e || b == 0x5f || b == 0x7e
}

/// Appends `text` to `out` as it travels.
pub fn push_encoded(out: &mut String, text: &str)
    ensures
        final(out)@ == old(out)@ + percent_encoded(encode_utf8(text@)),
{
    let bytes = text.as_bytes();
    let mut i: usize = 0;
    assert(out@ =~= old(out)@ + percent_encoded(bytes@.take(0)));
    while i < bytes.len()
        invariant
            i <= bytes.len(),
            out@ == old(out)@ + percent_encoded(bytes@.take(i as int)),
        decreases bytes.len() - i,
    {
        let b = bytes[i];
        proof {
            assert(bytes@.take(i + 1).drop_last() =~= bytes@.take(i as int));
            assert(bytes@.take(i + 1).last() == b);
        }
        if unreserved(b) {
            out.push(b as char);
        } else {
            out.push('%');
            out.push(upper_hex_char(b / 16));
            out.push(upper_hex_char(b % 16));
        }
        i += 1;
        assert(out@ =~= old(out)@ + percent_encoded(bytes@.take(i as int)));
    }
    assert(bytes@.take(bytes.len() as int) =~= bytes@);
}

/// The pairs `pairs` as they travel.
pub fn encode_pairs(pairs: &Vec<(String, String)>) -> (text: String)
    ensures
        text@ == form_text(pairs_view(pairs@)),
{
    let ghost s = pairs_view(pairs@);
    let mut text = String::new();
    let mut i: usize = 0;
    while i < pairs.len()
        invariant
            i <= pairs.len(),
            s == pairs_view(pairs@),
            text@ == form_text(s.take(i as int)),
        decreases pairs.len() - i,
    {
        proof {
            assert(s.take(i + 1).drop_last() =~= s.take(i as int));
            assert(s.take(i + 1).last() == s[i as int]);
        }
        if i > 0 {
            text.push('&');
        }
        push_encoded(&mut text, pairs[i].0.as_str());
        text.push('=');
        push_encoded(&mut text, pairs[i].1.as_str());
        i += 1;
        assert(text@ =~= form_text(s.take(i as int)));
    }
    assert(s.take(pairs.len() as int) =~= s);
    text
}

impl OutgoingRequest {
    /// The parameters as they travel.
    pub fn encoded_params(&self) -> (text: String)
        ensures
            text@ == form_text(self.params.entries()),
    {
        let pairs = self.params.to_vec();
        encode_pairs(&pairs)
    }

    /// The address to open: for `Get` with parameters the address, `?` and
    /// the parameters; in every other case the address alone.
    pub fn target(&self) -> (address: String)
        ensures
            address@ == if self.method == Method::Get && self.params.entries().len() > 0 {
                self.url@ + seq!['?'] + form_text(self.params.entries())
            } else {
                self.url@
            },
    {
        let mut address = self.url.clone();
        match self.method {
            Method::Get => {
                if self.params.len() > 0 {
                    let query = self.encoded_params();
                    address.push('?');
                    address.append(query.as_str());
                }
            },
            Method::Post => {},
        }
        address
    }

    /// The form body to send: the parameters for `Post`, none for `Get`.
    pub fn body(&self) -> (form: Option<String>)
        ensures
            self.method == Method::Get ==> form is None,
            self.method == Method::Post ==> (form matches Some(text) && text@ == form_text(
                self.params.entries(),
            )),
    {
        match self.method {
            Method::Get => None,
            Method::Post => Some(self.encoded_params()),
        }
    }
}

} // verus!
