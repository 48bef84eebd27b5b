//! Freshness tokens.
//!
//! Every signed call carries a token that the exchange has not seen before:
//! the Unix time in seconds, followed by a counter that is written with
//! three digits and steps through 1, 2, .. 998, 0, 1, ..

use vstd::prelude::*;

verus! {

/// Number of values the counter takes before it repeats.
pub const COUNTER_PERIOD: u16 = 999;

/// The character for the decimal digit `d`.
pub open spec fn digit_char(d: int) -> char {
    if d == 0 {
        '0'
    } else if d == 1 {
        '1'
    } else if d == 2 {
        '2'
    } else if d == 3 {
        '3'
    } else if d == 4 {
        '4'
    } else if d == 5 {
        '5'
    } else if d == 6 {
        '6'
    } else if d == 7 {
        '7'
    } else if d == 8 {
        '8'
    } else {
        '9'
    }
}

/// `c` is one of the ten decimal digits.
pub open spec fn is_digit(c: char) -> bool {
    c == '0' || c == '1' || c == '2' || c == '3' || c == '4' || c == '5' || c == '6' || c == '7'
        || c == '8' || c == '9'
}

/// `n` written in decimal, without leading zeros.
pub open spec fn decimal(n: nat) -> Seq<char>
    decreases n,
{
    if n < 10 {
        seq![digit_char(n as int)]
    } else {
        decimal(n / 10).push(digit_char((n % 10) as int))
    }
}

/// `text` with zeros put in front until it has `width` characters.
pub open spec fn zero_padded(text: Seq<char>, width: nat) -> Seq<char> {
    if text.len() >= width {
        text
    } else {
        Seq::new((width - text.len()) as nat, |i: int| '0') + text
    }
}

/// The three-digit form of a counter value.
pub open spec fn three_digits(counter: nat) -> Seq<char> {
    seq![
        digit_char((counter / 100) as int),
        digit_char(((counter / 10) % 10) as int),
        digit_char((counter % 10) as int),
    ]
}

/// The counter value that follows `counter`.
pub open spec fn next_counter(counter: nat) -> nat {
    if counter < 998 {
        counter + 1
    } else {
        0
    }
}

/// The counter value reached from `start` after `steps` steps.
pub open spec fn counter_after(start: nat, steps: nat) -> nat
    decreases steps,
{
    if steps == 0 {
        start
    } else {
        next_counter(counter_after(start, (steps - 1) as nat))
    }
}

/// The token for the second `unix_secs` and the counter value `counter`.
pub open spec fn tonce_text(unix_secs: nat, counter: nat) -> Seq<char> {
    decimal(unix_secs) + zero_padded(decimal(counter), 3)
}

/// The one-character text of the decimal digit `d`.
fn digit_str(d: u8) -> (text: &'static str)
    requires
        d < 10,
    ensures
        text@ == seq![digit_char(d as int)],
{
    proof {
        reveal_strlit("0");
        reveal_strlit("1");
        reveal_strlit("2");
        reveal_strlit("3");
        reveal_strlit("4");
        reveal_strlit("5");
        reveal_strlit("6");
        reveal_strlit("7");
        reveal_strlit("8");
        reveal_strlit("9");
    }
    let text = if d == 0 {
        "0"
    } else if d == 1 {
        "1"
    } else if d == 2 {
        "2"
    } else if d == 3 {
        "3"
    } else if d == 4 {
        "4"
    } else if d == 5 {
        "5"
    } else if d == 6 {
        "6"
    } else if d == 7 {
        "7"
    } else if d == 8 {
        "8"
    } else {
        "9"
    };
    assert(text@ =~= seq![digit_char(d as int)]);
    text
}

/// `n` in decimal, without leading zeros.
pub fn decimal_string(n: u64) -> (text: String)
    ensures
        text@ == decimal(n as nat),
{
    let mut text = String::from_str(digit_str((n % 10) as u8));
    let mut rest: u64 = n / 10;
    assert(rest == 0 ==> text@ =~= decimal(n as nat));
    assert(rest > 0 ==> decimal(n as nat) =~= decimal(rest as nat) + text@);
    while rest > 0
        invariant
            rest == 0 ==> text@ == decimal(n as nat),
            rest > 0 ==> decimal(n as nat) == decimal(rest as nat) + text@,
        decreases rest,
    {
        let ghost before = text@;
        let ghost whole = rest;
        text = String::from_str(digit_str((rest % 10) as u8)).concat(text.as_str());
        rest = rest / 10;
        proof {
            let d = seq![digit_char((whole % 10) as int)];
            assert(text@ == d + before);
            if rest == 0 {
                assert(decimal(whole as nat) =~= d);
            } else {
                assert(decimal(whole as nat) =~= decimal(rest as nat) + d);
                assert(decimal(rest as nat) + d + before =~= decimal(rest as nat) + (d + before));
            }
        }
    }
    text
}

/// The token for the second `unix_secs` and the counter value `counter`:
/// the seconds in decimal, then the counter with at least three digits.
pub fn format_tonce(unix_secs: u64, counter: u16) -> (tonce: String)
    ensures
        tonce@ == tonce_text(unix_secs as nat, counter as nat),
{
    let mut tonce = decimal_string(unix_secs);
    let digits = decimal_string(counter as u64);
    proof {
        reveal_strlit("0");
        reveal_strlit("00");
        reveal_with_fuel(decimal, 3);
    }
    if counter < 10 {
        tonce.append("00");
        assert("00"@ + digits@ =~= zero_padded(digits@, 3));
    } else if counter < 100 {
        tonce.append("0");
        assert("0"@ + digits@ =~= zero_padded(digits@, 3));
    } else {
        assert(digits@.len() >= 3) by {
            lemma_decimal_len(counter as nat);
        }
    }
    tonce.append(digits.as_str());
    assert(tonce@ =~= tonce_text(unix_secs as nat, counter as nat));
    tonce
}

/// The counter behind the freshness tokens. It starts at 0 and is stepped
/// once for every signed call, so the first token ends in `001`.
pub struct TonceCounter {
    value: u16,
}

impl TonceCounter {
    /// The current value.
    pub closed spec fn value(&self) -> nat {
        self.value as nat
    }

    /// The value lies in the cycle: it is below 999.
    #[verifier::type_invariant]
    pub closed spec fn in_cycle(&self) -> bool {
        self.value < COUNTER_PERIOD
    }

    /// A counter at 0.
    pub fn new() -> (counter: TonceCounter)
        ensures
            counter.value() == 0,
    {
        TonceCounter { value: 0 }
    }

    /// The current value.
    pub fn current(&self) -> (value: u16)
        ensures
            value == self.value(),
            value < COUNTER_PERIOD,
    {
        proof {
            use_type_invariant(self);
        }
        self.value
    }

    /// Steps the counter, from 998 back to 0, and returns the new value.
    pub fn advance(&mut self) -> (value: u16)
        ensures
            final(self).value() == next_counter(old(self).value()),
            value == final(self).value(),
            value < COUNTER_PERIOD,
    {
        proof {
            use_type_invariant(&*self);
        }
        if self.value < 998 {
            self.value = self.value + 1;
        } else {
            self.value = 0;
        }
        self.value
    }
}

/// A number of three digits or more is written with three characters or more.
proof fn lemma_decimal_len(n: nat)
    requires
        n >= 100,
    ensures
        decimal(n).len() >= 3,
    decreases n,
{
    reveal_with_fuel(decimal, 3);
    if n >= 1000 {
        lemma_decimal_len(n / 10);
    }
}

/// A counter value below 1000 is padded to exactly its three digits.
pub proof fn lemma_padded_counter(counter: nat)
    requires
        counter < 1000,
    ensures
        zero_padded(decimal(counter), 3) == three_digits(counter),
{
    reveal_with_fuel(decimal, 3);
    if counter < 10 {
        assert(zero_padded(decimal(counter), 3) =~= three_digits(counter));
    } else if counter < 100 {
        assert(decimal(counter) =~= seq![
            digit_char((counter / 10) as int),
            digit_char((counter % 10) as int),
        ]);
        assert(zero_padded(decimal(counter), 3) =~= three_digits(counter));
    } else {
        assert(decimal(counter) =~= three_digits(counter));
    }
}

/// Every token ends in the three digits of its counter value, also where
/// that value is 0, 1 or 998.
pub proof fn lemma_tonce_suffix(unix_secs: nat, counter: nat)
    requires
        counter < 1000,
    ensures
        tonce_text(unix_secs, counter) == decimal(unix_secs) + three_digits(counter),
        tonce_text(unix_secs, counter).len() == decimal(unix_secs).len() + 3,
{
    lemma_padded_counter(counter);
}

/// A decimal numeral is made of digits.
pub proof fn lemma_decimal_digits(n: nat)
    ensures
        forall|i: int| 0 <= i < decimal(n).len() ==> is_digit(#[trigger] decimal(n)[i]),
    decreases n,
{
    if n >= 10 {
        lemma_decimal_digits(n / 10);
        let head = decimal(n / 10);
        assert forall|i: int| 0 <= i < decimal(n).len() implies is_digit(
            #[trigger] decimal(n)[i],
        ) by {
            if i < head.len() {
                assert(decimal(n)[i] == head[i]);
            } else {
                assert(decimal(n)[i] == digit_char((n % 10) as int));
            }
        }
    } else {
        assert(decimal(n)[0] == digit_char(n as int));
    }
}

/// A token is made of digits.
pub proof fn lemma_tonce_digits(unix_secs: nat, counter: nat)
    ensures
        forall|i: int|
            0 <= i < tonce_text(unix_secs, counter).len() ==> is_digit(
                #[trigger] tonce_text(unix_secs, counter)[i],
            ),
{
    lemma_decimal_digits(unix_secs);
    lemma_decimal_digits(counter);
}

/// Within one second, different counter values give different tokens.
pub proof fn lemma_tonce_injective(unix_secs: nat, c1: nat, c2: nat)
    requires
        c1 < 1000,
        c2 < 1000,
        tonce_text(unix_secs, c1) == tonce_text(unix_secs, c2),
    ensures
        c1 == c2,
{
    lemma_tonce_suffix(unix_secs, c1);
    lemma_tonce_suffix(unix_secs, c2);
    let p = decimal(unix_secs);
    let n = p.len() as int;
    let t1 = tonce_text(unix_secs, c1);
    let t2 = tonce_text(unix_secs, c2);
    assert(t1[n] == three_digits(c1)[0]);
    assert(t1[n + 1] == three_digits(c1)[1]);
    assert(t1[n + 2] == three_digits(c1)[2]);
    assert(t2[n] == three_digits(c2)[0]);
    assert(t2[n + 1] == three_digits(c2)[1]);
    assert(t2[n + 2] == three_digits(c2)[2]);
    assert(c1 / 100 == c2 / 100);
    assert((c1 / 10) % 10 == (c2 / 10) % 10);
    assert(c1 % 10 == c2 % 10);
}

/// The counter walks round a cycle of 999 values.
pub proof fn lemma_counter_after(start: nat, steps: nat)
    requires
        start < 999,
    ensures
        counter_after(start, steps) == (start + steps) % 999,
    decreases steps,
{
    if steps > 0 {
        lemma_counter_after(start, (steps - 1) as nat);
    }
}

/// In one turn of the cycle no counter value comes twice, and the step
/// after the turn leads back to where the turn began.
pub proof fn lemma_counter_cycle(start: nat, i: nat, j: nat)
    requires
        start < 999,
        1 <= i < j <= 999,
    ensures
        counter_after(start, i) < 999,
        counter_after(start, j) < 999,
        counter_after(start, i) != counter_after(start, j),
        counter_after(start, 1000) == counter_after(start, 1),
{
    lemma_counter_after(start, i);
    lemma_counter_after(start, j);
    lemma_counter_after(start, 1);
    lemma_counter_after(start, 1000);
    let a = (start + i) as int;
    let b = (start + j) as int;
    assert(a % 999 != b % 999) by {
        assert(a == 999 * (a / 999) + a % 999);
        assert(b == 999 * (b / 999) + b % 999);
        assert(0 < b - a < 999);
    }
    assert((start + 1000) % 999 == (start + 1) % 999);
}

/// Of 1000 signed calls in one second, the first 999 carry pairwise
/// different tokens and the 1000th repeats the token of the first.
pub proof fn lemma_tonce_wraparound(unix_secs: nat, start: nat, i: nat, j: nat)
    requires
        start < 999,
        1 <= i < j <= 999,
    ensures
        tonce_text(unix_secs, counter_after(start, i)) != tonce_text(
            unix_secs,
            counter_after(start, j),
        ),
        tonce_text(unix_secs, counter_after(start, 1000)) == tonce_text(
            unix_secs,
            counter_after(start, 1),
        ),
{
    lemma_counter_cycle(start, i, j);
    let ci = counter_after(start, i);
    let cj = counter_after(start, j);
    if tonce_text(unix_secs, ci) == tonce_text(unix_secs, cj) {
        lemma_tonce_injective(unix_secs, ci, cj);
    }
}

} // verus!
