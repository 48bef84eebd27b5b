//! Text as a JSON string.
//!
//! A string is written between double quotes. Inside them `"` and `\` are
//! written with a `\` in front, the control characters backspace, tab,
//! line feed, form feed and carriage return as `\b`, `\t`, `\n`, `\f` and
//! `\r`, every other character below U+0020 as `\u00` and two lower-case
//! hexadecimal digits, and every other character as it is.

use crate::signature::hex_digit;
use vstd::prelude::*;

verus! {

/// One character as it stands inside a JSON string.
pub open spec fn escaped_char(c: char) -> Seq<char> {
    if c == '"' {
        seq!['\\', '"']
    } else if c == '\\' {
        seq!['\\', '\\']
    } else if c == '\u{8}' {
        seq!['\\', 'b']
    } else if c == '\t' {
        seq!['\\', 't']
    } else if c == '\n' {
        seq!['\\', 'n']
    } else if c == '\u{c}' {
        seq!['\\', 'f']
    } else if c == '\r' {
        seq!['\\', 'r']
    } else if (c as u32) < 0x20 {
        seq!['\\', 'u', '0', '0', hex_digit(c as u32 as int / 16), hex_digit(c as u32 as int % 16)]
    } else {
        seq![c]
    }
}

/// A text as it stands inside a JSON string.
pub open spec fn escaped(text: Seq<char>) -> Seq<char>
    decreases text.len(),
{
    if text.len() == 0 {
        Seq::empty()
    } else {
        escaped(text.drop_last()) + escaped_char(text.last())
    }
}

/// A text as a JSON string: its escaped form between double quotes.
pub open spec fn quoted(text: Seq<char>) -> Seq<char> {
    seq!['"'] + escaped(text) + seq!['"']
}

/// `c` is written as it is: it is neither `"` nor `\` nor a control
/// character below U+0020.
pub open spec fn stands_for_itself(c: char) -> bool {
    c != '"' && c != '\\' && (c as u32) >= 0x20
}

/// The lower-case character for the hexadecimal digit `n`.
fn lower_hex_char(n: u32) -> (c: char)
    requires
        n < 16,
    ensures
        c == hex_digit(n as int),
{
    if n == 0 {
        '0'
    } else if n == 1 {
        '1'
    } else if n == 2 {
        '2'
    } else if n == 3 {
        '3'
    } else if n == 4 {
        '4'
    } else if n == 5 {
        '5'
    } else if n == 6 {
        '6'
    } else if n == 7 {
        '7'
    } else if n == 8 {
        '8'
    } else if n == 9 {
        '9'
    } else if n == 10 {
        'a'
    } else if n == 11 {
        'b'
    } else if n == 12 {
        'c'
    } else if n == 13 {
        'd'
    } else if n == 14 {
        'e'
    } else {
        'f'
    }
}

/// Appends `c` to `out` as it stands inside a JSON string.
pub fn push_escaped_char(out: &mut String, c: char)
    ensures
        final(out)@ == old(out)@ + escaped_char(c),
{
    let code = c as u32;
    if c == '"' || c == '\\' {
        out.push('\\');
        out.push(c);
    } else if c == '\u{8}' {
        out.push('\\');
        out.push('b');
    } else if c == '\t' {
        out.push('\\');
        out.push('t');
    } else if c == '\n' {
        out.push('\\');
        out.push('n');
    } else if c == '\u{c}' {
        out.push('\\');
        out.push('f');
    } else if c == '\r' {
        out.push('\\');
        out.push('r');
    } else if code < 0x20 {
        out.push('\\');
        out.push('u');
        out.push('0');
        out.push('0');
        out.push(lower_hex_char(code / 16));
        out.push(lower_hex_char(code % 16));
    } else {
        out.push(c);
    }
    assert(out@ =~= old(out)@ + escaped_char(c));
}

/// Appends `text` to `out` as a JSON string.
pub fn push_quoted(out: &mut String, text: &str)
    ensures
        final(out)@ == old(out)@ + quoted(text@),
{
    out.push('"');
    assert(out@ =~= old(out)@ + seq!['"'] + escaped(text@.take(0)));
    for c in it: text.chars()
        invariant
            it.seq() == text@,
            out@ == old(out)@ + seq!['"'] + escaped(text@.take(it.index() as int)),
    {
        proof {
            assert(text@.take(it.index() + 1).drop_last() =~= text@.take(it.index() as int));
            assert(text@.take(it.index() + 1).last() == c);
        }
        push_escaped_char(out, c);
        assert(out@ =~= old(out)@ + seq!['"'] + escaped(text@.take(it.index() + 1)));
    }
    assert(text@.take(text@.len() as int) =~= text@);
    out.push('"');
    assert(out@ =~= old(out)@ + quoted(text@));
}

/// `text` as a JSON string.
pub fn quoted_string(text: &str) -> (json: String)
    ensures
        json@ == quoted(text@),
{
    let mut json = String::new();
    push_quoted(&mut json, text);
    assert(json@ =~= quoted(text@));
    json
}

/// A text of characters that all stand for themselves is its own escaped
/// form, so quoting it only puts it between double quotes.
pub proof fn lemma_escaped_plain(text: Seq<char>)
    requires
        forall|i: int| 0 <= i < text.len() ==> stands_for_itself(#[trigger] text[i]),
    ensures
        escaped(text) == text,
        quoted(text) == seq!['"'] + text + seq!['"'],
    decreases text.len(),
{
    if text.len() > 0 {
        lemma_escaped_plain(text.drop_last());
        assert(stands_for_itself(text.last()));
        assert(escaped(text) =~= text);
    }
}

} // verus!
