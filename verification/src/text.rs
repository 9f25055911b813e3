//! Decimal text for integers: rendering them into a `String`, and reading an
//! unsigned integer back from text.
use vstd::prelude::*;

verus! {

/// The one-character text of the decimal digit `d` (0..9).
pub open spec fn digit_text(d: nat) -> Seq<char> {
    if d == 0 {
        "0"@
    } else if d == 1 {
        "1"@
    } else if d == 2 {
        "2"@
    } else if d == 3 {
        "3"@
    } else if d == 4 {
        "4"@
    } else if d == 5 {
        "5"@
    } else if d == 6 {
        "6"@
    } else if d == 7 {
        "7"@
    } else if d == 8 {
        "8"@
    } else {
        "9"@
    }
}

/// The decimal text of `n`: no sign, no leading zeros ("0" for zero).
pub open spec fn dec_nat(n: nat) -> Seq<char>
    decreases n,
{
    if n < 10 {
        digit_text(n)
    } else {
        dec_nat(n / 10) + digit_text(n % 10)
    }
}

/// The decimal text of `i`, with a leading '-' when it is negative.
pub open spec fn dec_int(i: int) -> Seq<char> {
    if i < 0 {
        "-"@ + dec_nat((-i) as nat)
    } else {
        dec_nat(i as nat)
    }
}

/// Appends the decimal digit `d`.
fn push_digit(s: &mut String, d: u64)
    requires
        d < 10,
    ensures
        final(s)@ == old(s)@ + digit_text(d as nat),
{
    if d == 0 {
        s.append("0");
    } else if d == 1 {
        s.append("1");
    } else if d == 2 {
        s.append("2");
    } else if d == 3 {
        s.append("3");
    } else if d == 4 {
        s.append("4");
    } else if d == 5 {
        s.append("5");
    } else if d == 6 {
        s.append("6");
    } else if d == 7 {
        s.append("7");
    } else if d == 8 {
        s.append("8");
    } else {
        s.append("9");
    }
}

/// Appends the decimal text of `n`.
pub fn push_decimal_u64(s: &mut String, n: u64)
    ensures
        final(s)@ == old(s)@ + dec_nat(n as nat),
    decreases n,
{
    if n < 10 {
        push_digit(s, n);
    } else {
        push_decimal_u64(s, n / 10);
        push_digit(s, n % 10);
        assert(final(s)@ =~= old(s)@ + dec_nat(n as nat));
    }
}

/// Appends the decimal text of `v`, with a leading '-' when it is negative.
pub fn push_decimal_i64(s: &mut String, v: i64)
    ensures
        final(s)@ == old(s)@ + dec_int(v as int),
{
    if v < 0 {
        s.append("-");
        let magnitude: u64 = ((-(v + 1)) as u64) + 1;
        push_decimal_u64(s, magnitude);
        assert(final(s)@ =~= old(s)@ + dec_int(v as int));
    } else {
        push_decimal_u64(s, v as u64);
    }
}

/// Whether `c` is one of the ASCII digits '0'..'9'.
pub open spec fn is_ascii_digit(c: char) -> bool {
    '0' <= c && c <= '9'
}

/// The value of the ASCII digit `c`.
pub open spec fn digit_value(c: char) -> nat {
    (c as int - '0' as int) as nat
}

/// The value of a run of ASCII digits, most significant first.
pub open spec fn digits_value(s: Seq<char>) -> nat
    decreases s.len(),
{
    if s.len() == 0 {
        0
    } else {
        digits_value(s.drop_last()) * 10 + digit_value(s.last())
    }
}

/// The digits that follow an optional leading '+'.
pub open spec fn unsigned_body(s: Seq<char>) -> Seq<char> {
    if s.len() > 0 && s[0] == '+' {
        s.drop_first()
    } else {
        s
    }
}

/// The unsigned integer that `s` spells in decimal: an optional '+' and then
/// one or more ASCII digits, nothing else (no sign '-', no whitespace).
pub open spec fn parse_unsigned(s: Seq<char>) -> Option<nat> {
    let body = unsigned_body(s);
    if body.len() > 0 && forall|i: int| 0 <= i < body.len() ==> is_ascii_digit(#[trigger] body[i]) {
        Some(digits_value(body))
    } else {
        None
    }
}

proof fn lemma_digits_value_monotone(s: Seq<char>, k: int)
    requires
        0 <= k <= s.len(),
        forall|i: int| 0 <= i < s.len() ==> is_ascii_digit(#[trigger] s[i]),
    ensures
        digits_value(s.take(k)) <= digits_value(s),
    decreases s.len() - k,
{
    if k < s.len() {
        lemma_digits_value_monotone(s, k + 1);
        assert(s.take(k + 1).drop_last() =~= s.take(k));
    } else {
        assert(s.take(k) =~= s);
    }
}

/// Reads the unsigned decimal integer that `raw` spells, if it is at most
/// `max`.
pub fn parse_unsigned_at_most(raw: &str, max: u64) -> (r: Option<u64>)
    ensures
        r == (match parse_unsigned(raw@) {
            Some(v) => if v <= max { Some(v as u64) } else { None },
            None => None,
        }),
{
    let len = raw.unicode_len();
    let mut start: usize = 0;
    if len > 0 && raw.get_char(0) == '+' {
        start = 1;
    }
    let ghost body = unsigned_body(raw@);
    assert(body =~= raw@.subrange(start as int, len as int));
    if start == len {
        return None;
    }
    let mut acc: u64 = 0;
    let mut i: usize = start;
    while i < len
        invariant
            start <= i <= len,
            len == raw@.len(),
            body == raw@.subrange(start as int, len as int),
            body == unsigned_body(raw@),
            forall|j: int| 0 <= j < i - start ==> is_ascii_digit(#[trigger] body[j]),
            acc == digits_value(body.take(i - start)),
            acc <= max,
        decreases len - i,
    {
        let c = raw.get_char(i);
        assert(c == body[i - start]);
        if !('0' <= c && c <= '9') {
            assert(!is_ascii_digit(body[i - start]));
            return None;
        }
        let d: u64 = (c as u32 - '0' as u32) as u64;
        let ghost k: int = i - start;
        assert(body.take(k + 1).drop_last() =~= body.take(k));
        assert(body.take(k + 1).last() == body[k]);
        assert(digit_value(body[k]) == d);
        assert(digits_value(body.take(k + 1)) == acc * 10 + d);
        let next: u128 = (acc as u128) * 10 + (d as u128);
        if next > max as u128 {
            proof {
                // Further digits only make the value larger, and a non-digit
                // makes the text invalid.
                if forall|j: int| 0 <= j < body.len() ==> is_ascii_digit(#[trigger] body[j]) {
                    lemma_digits_value_monotone(body, k + 1);
                }
            }
            return None;
        }
        acc = next as u64;
        i += 1;
    }
    assert(body.take(len - start) =~= body);
    Some(acc)
}

proof fn lemma_digit_text(d: nat)
    requires
        d < 10,
    ensures
        digit_text(d).len() == 1,
        is_ascii_digit(digit_text(d)[0]),
        digit_value(digit_text(d)[0]) == d,
{
    reveal_strlit("0");
    reveal_strlit("1");
    reveal_strlit("2");
    reveal_strlit("3");
    reveal_strlit("4");
    reveal_strlit("5");
    reveal_strlit("6");
    reveal_strlit("7");
    reveal_strlit("8");
    reveal_strlit("9");
}

proof fn lemma_dec_nat_digits(n: nat)
    ensures
        dec_nat(n).len() > 0,
        forall|i: int| 0 <= i < dec_nat(n).len() ==> is_ascii_digit(#[trigger] dec_nat(n)[i]),
        digits_value(dec_nat(n)) == n,
    decreases n,
{
    if n < 10 {
        lemma_digit_text(n);
        let t = dec_nat(n);
        assert(t.drop_last() =~= Seq::<char>::empty());
        assert(digits_value(t.drop_last()) == 0);
        assert(t.last() == t[0]);
        assert(digits_value(t) == n);
    } else {
        lemma_dec_nat_digits(n / 10);
        lemma_digit_text(n % 10);
        let t = dec_nat(n);
        let head = dec_nat(n / 10);
        assert(t == head + digit_text(n % 10));
        assert(t.drop_last() =~= head);
        assert(t.last() == digit_text(n % 10)[0]);
        assert(digits_value(t) == digits_value(head) * 10 + (n % 10));
        assert(n == (n / 10) * 10 + n % 10);
        assert forall|i: int| 0 <= i < t.len() implies is_ascii_digit(#[trigger] t[i]) by {
            if i < head.len() {
                assert(t[i] == head[i]);
            }
        }
    }
}

/// The decimal text of a number reads back as that number.
pub proof fn lemma_parse_unsigned_of_dec_nat(n: nat)
    ensures
        parse_unsigned(dec_nat(n)) == Some(n),
{
    lemma_dec_nat_digits(n);
    let t = dec_nat(n);
    assert(t[0] != '+');
    assert(unsigned_body(t) == t);
}

} // verus!
