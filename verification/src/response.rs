//! What is made of an answer once it has arrived.
//!
//! An answer counts only where its status is a success. One endpoint, the
//! exchange's clock, answers with a bare number, which is read here.

use crate::tonce::is_digit;
use vstd::prelude::*;

verus! {

/// Why a call brought no usable answer.
#[derive(Debug, PartialEq, Eq)]
pub enum RequestError {
    /// The request was not sent or no answer came back: no connection,
    /// time limit passed. The text says what the transport reported.
    Transport(String),
    /// The exchange answered with a status other than success.
    Status {
        code: i32,
        /// The body that came with the status, empty where none came.
        body: String,
    },
    /// The answer arrived but its body does not read as what was asked
    /// for. The text is the body, or what the decoder said of it.
    Malformed(String),
}

/// A status code of the 2xx class.
pub open spec fn is_success(status_code: int) -> bool {
    200 <= status_code < 300
}

/// The body of an answer with a success status; any other status is an
/// error that carries the body.
pub fn accept_response(status_code: i32, body: String) -> (outcome: Result<String, RequestError>)
    ensures
        is_success(status_code as int) ==> outcome == Ok::<String, RequestError>(body),
        !is_success(status_code as int) ==> outcome == Err::<String, RequestError>(
            RequestError::Status { code: status_code, body },
        ),
{
    if 200 <= status_code && status_code < 300 {
        Ok(body)
    } else {
        Err(RequestError::Status { code: status_code, body })
    }
}

/// The number that the digit `c` stands for, 0 for any other character.
pub open spec fn digit_value(c: char) -> nat {
    if c == '1' {
        1
    } else if c == '2' {
        2
    } else if c == '3' {
        3
    } else if c == '4' {
        4
    } else if c == '5' {
        5
    } else if c == '6' {
        6
    } else if c == '7' {
        7
    } else if c == '8' {
        8
    } else if c == '9' {
        9
    } else {
        0
    }
}

/// The number that the decimal numeral `s` stands for.
pub open spec fn numeral_value(s: Seq<char>) -> nat
    decreases s.len(),
{
    if s.len() == 0 {
        0
    } else {
        numeral_value(s.drop_last()) * 10 + digit_value(s.last())
    }
}

/// `s` is a decimal numeral: one digit or more and nothing else.
pub open spec fn is_numeral(s: Seq<char>) -> bool {
    s.len() > 0 && forall|i: int| 0 <= i < s.len() ==> is_digit(#[trigger] s[i])
}

/// `text` without the `+` that may stand in front of a number.
pub open spec fn without_plus(text: Seq<char>) -> Seq<char> {
    if text.len() > 0 && text[0] == '+' {
        text.drop_first()
    } else {
        text
    }
}

/// The time that `text` states, where it states one: a decimal numeral,
/// with or without `+` in front, that fits the machine's word.
pub open spec fn timestamp_of(text: Seq<char>) -> Option<nat> {
    let numeral = without_plus(text);
    if is_numeral(numeral) && numeral_value(numeral) <= usize::MAX {
        Some(numeral_value(numeral))
    } else {
        None
    }
}

/// A numeral is worth at least as much as any of its beginnings.
proof fn lemma_numeral_grows(s: Seq<char>, k: int)
    requires
        0 <= k <= s.len(),
    ensures
        numeral_value(s.take(k)) <= numeral_value(s),
    decreases s.len() - k,
{
    if k == s.len() {
        assert(s.take(k) =~= s);
    } else {
        lemma_numeral_grows(s, k + 1);
        assert(s.take(k + 1).drop_last() =~= s.take(k));
    }
}

/// The value of the digit `c`, if it is one.
fn digit_of(c: char) -> (value: Option<usize>)
    ensures
        match value {
            Some(d) => is_digit(c) && d == digit_value(c) && d < 10,
            None => !is_digit(c),
        },
{
    if c == '0' {
        Some(0)
    } else if c == '1' {
        Some(1)
    } else if c == '2' {
        Some(2)
    } else if c == '3' {
        Some(3)
    } else if c == '4' {
        Some(4)
    } else if c == '5' {
        Some(5)
    } else if c == '6' {
        Some(6)
    } else if c == '7' {
        Some(7)
    } else if c == '8' {
        Some(8)
    } else if c == '9' {
        Some(9)
    } else {
        None
    }
}

/// Reads the exchange's clock from the body of its answer. A body that is
/// no number of seconds is returned in the error.
pub fn parse_timestamp(body: &str) -> (outcome: Result<usize, RequestError>)
    ensures
        match timestamp_of(body@) {
            Some(seconds) => outcome == Ok::<usize, RequestError>(seconds as usize),
            None => outcome matches Err(RequestError::Malformed(text)) && text@ == body@,
        },
{
    let len = body.unicode_len();
    let start: usize = if len > 0 && body.get_char(0) == '+' {
        1
    } else {
        0
    };
    let ghost numeral = without_plus(body@);
    assert(numeral =~= body@.subrange(start as int, len as int));
    if start == len {
        return Err(RequestError::Malformed(String::from_str(body)));
    }
    let mut seconds: usize = 0;
    let mut i: usize = start;
    while i < len
        invariant
            start <= i <= len,
            len == body@.len(),
            numeral == without_plus(body@),
            numeral == body@.subrange(start as int, len as int),
            seconds == numeral_value(numeral.take(i - start)),
            forall|j: int| 0 <= j < i - start ==> is_digit(#[trigger] numeral[j]),
        decreases len - i,
    {
        let c = body.get_char(i);
        let ghost k = i - start;
        proof {
            assert(numeral[k] == c);
            assert(numeral.take(k + 1).drop_last() =~= numeral.take(k));
            assert(numeral.take(k + 1).last() == c);
            lemma_numeral_grows(numeral, k + 1);
        }
        let digit = match digit_of(c) {
            Some(digit) => digit,
            None => {
                return Err(RequestError::Malformed(String::from_str(body)));
            },
        };
        assert(numeral_value(numeral.take(k + 1)) == seconds * 10 + digit);
        let tenfold = match seconds.checked_mul(10) {
            Some(tenfold) => tenfold,
            None => {
                return Err(RequestError::Malformed(String::from_str(body)));
            },
        };
        seconds = match tenfold.checked_add(digit) {
            Some(sum) => sum,
            None => {
                return Err(RequestError::Malformed(String::from_str(body)));
            },
        };
        i += 1;
    }
    assert(numeral.take(len - start) =~= numeral);
    Ok(seconds)
}

} // verus!
