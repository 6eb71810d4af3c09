//! Decimal codec for the heartbeat file: a timestamp is persisted as its plain
//! decimal text, and read back by parsing that text as a signed 64-bit value.

use vstd::prelude::*;
use vstd::string::StrSliceExecFns;

verus! {

/// Relies on `String::push`: appends the given character to the end of the string.
pub assume_specification[ String::push ](s: &mut String, c: char)
    ensures
        final(s)@ == old(s)@.push(c),
;

/// The decimal digit characters `'0'` through `'9'`.
pub open spec fn char_is_digit(c: char) -> bool {
    48 <= c as int && c as int <= 57
}

/// The character for a single decimal digit value.
pub open spec fn digit_char(d: int) -> char
    recommends
        0 <= d <= 9,
{
    ((48 + d) as u8) as char
}

/// The numeric value of a decimal digit character.
pub open spec fn digit_value(c: char) -> int
    recommends
        char_is_digit(c),
{
    c as int - 48
}

/// The canonical decimal digit string of a nonnegative value: no sign and no
/// leading zeros (a single `'0'` for zero).
pub open spec fn dec_digits(n: nat) -> Seq<char>
    decreases n,
{
    if n < 10 {
        seq![digit_char(n as int)]
    } else {
        dec_digits(n / 10).push(digit_char((n % 10) as int))
    }
}

/// The canonical decimal string of an integer: a `'-'` prefix for negative
/// values, then the digits of the magnitude.
pub open spec fn dec_int(v: int) -> Seq<char> {
    if v < 0 {
        seq!['-'] + dec_digits((-v) as nat)
    } else {
        dec_digits(v as nat)
    }
}

/// Every character of `s` is a decimal digit.
pub open spec fn all_digits(s: Seq<char>) -> bool {
    forall|i: int| 0 <= i < s.len() ==> char_is_digit(s[i])
}

/// The value of a digit string, most significant digit first.
pub open spec fn digits_value(s: Seq<char>) -> int
    recommends
        all_digits(s),
    decreases s.len(),
{
    if s.len() == 0 {
        0
    } else {
        digits_value(s.drop_last()) * 10 + digit_value(s.last())
    }
}

/// The mathematical value of a signed decimal literal: an optional `'+'` or
/// `'-'` sign followed by at least one digit, as `i64::from_str` accepts it
/// (leading zeros allowed, no surrounding whitespace).
pub open spec fn int_literal_value(s: Seq<char>) -> Option<int> {
    if s.len() >= 1 && (s[0] == '-' || s[0] == '+') {
        if s.len() >= 2 && all_digits(s.skip(1)) {
            if s[0] == '-' {
                Some(-digits_value(s.skip(1)))
            } else {
                Some(digits_value(s.skip(1)))
            }
        } else {
            None
        }
    } else if s.len() >= 1 && all_digits(s) {
        Some(digits_value(s))
    } else {
        None
    }
}

/// What a heartbeat file's text denotes: a signed 64-bit timestamp, or nothing
/// when the text is not a decimal literal or its value does not fit.
pub open spec fn timestamp_of(s: Seq<char>) -> Option<i64> {
    match int_literal_value(s) {
        Some(v) => if i64::MIN <= v && v <= i64::MAX {
            Some(v as i64)
        } else {
            None
        },
        None => None,
    }
}

/// The mathematical value of an unsigned decimal literal: an optional `'+'`
/// sign (no `'-'`) followed by at least one digit, as `u16::from_str` accepts
/// it.
pub open spec fn uint_literal_value(s: Seq<char>) -> Option<int> {
    if s.len() >= 1 && s[0] == '+' {
        if s.len() >= 2 && all_digits(s.skip(1)) {
            Some(digits_value(s.skip(1)))
        } else {
            None
        }
    } else if s.len() >= 1 && all_digits(s) {
        Some(digits_value(s))
    } else {
        None
    }
}

/// What a heartbeat-frequency argument denotes: an unsigned 16-bit minute
/// count, or nothing when the text is not a decimal literal in range.
pub open spec fn frequency_of(s: Seq<char>) -> Option<u16> {
    match uint_literal_value(s) {
        Some(v) => if 0 <= v && v <= u16::MAX {
            Some(v as u16)
        } else {
            None
        },
        None => None,
    }
}

/// A digit string never denotes a negative value.
pub proof fn lemma_digits_value_nonneg(s: Seq<char>)
    requires
        all_digits(s),
    ensures
        digits_value(s) >= 0,
    decreases s.len(),
{
    if s.len() > 0 {
        assert(all_digits(s.drop_last()));
        lemma_digits_value_nonneg(s.drop_last());
    }
}

/// The canonical digit string of `n` is nonempty, all digits, and denotes `n`.
pub proof fn lemma_dec_digits_wf(n: nat)
    ensures
        dec_digits(n).len() >= 1,
        all_digits(dec_digits(n)),
        digits_value(dec_digits(n)) == n,
    decreases n,
{
    let s = dec_digits(n);
    if n < 10 {
        assert(digit_char(n as int) as int == 48 + n);
        assert(s =~= seq![digit_char(n as int)]);
        assert(s.last() == digit_char(n as int));
        assert(s.drop_last() =~= Seq::<char>::empty());
        assert(digits_value(s.drop_last()) == 0);
        assert(digits_value(s) == digit_value(digit_char(n as int)));
    } else {
        lemma_dec_digits_wf(n / 10);
        assert(digit_char((n % 10) as int) as int == 48 + n % 10);
        assert(s == dec_digits(n / 10).push(digit_char((n % 10) as int)));
        assert(s.last() == digit_char((n % 10) as int));
        assert(s.drop_last() =~= dec_digits(n / 10));
        assert(digits_value(s) == digits_value(s.drop_last()) * 10 + digit_value(s.last()));
        assert(digits_value(s) == (n / 10) * 10 + (n % 10));
    }
}

/// Extending a digit string with further digits never lowers its value.
pub proof fn lemma_digits_value_prefix(s: Seq<char>, j: int)
    requires
        all_digits(s),
        0 <= j <= s.len(),
    ensures
        digits_value(s.take(j)) <= digits_value(s),
    decreases s.len() - j,
{
    if j < s.len() {
        lemma_digits_value_prefix(s, j + 1);
        assert(s.take(j + 1).drop_last() =~= s.take(j));
        assert(all_digits(s.take(j)));
        lemma_digits_value_nonneg(s.take(j));
        assert(digits_value(s.take(j + 1)) == digits_value(s.take(j)) * 10 + digit_value(s[j]));
    } else {
        assert(s.take(j) =~= s);
    }
}

/// Round trip: the canonical decimal text of any 64-bit timestamp parses back
/// to that same timestamp.
pub proof fn lemma_timestamp_round_trip(t: i64)
    ensures
        timestamp_of(dec_int(t as int)) == Some(t),
{
    let s = dec_int(t as int);
    if t >= 0 {
        lemma_dec_digits_wf(t as nat);
        assert(char_is_digit(s[0]));
        assert(s[0] != '-' && s[0] != '+');
        assert(int_literal_value(s) == Some(t as int));
    } else {
        let m = (-(t as int)) as nat;
        lemma_dec_digits_wf(m);
        assert(s[0] == '-');
        assert(s.skip(1) =~= dec_digits(m));
        assert(int_literal_value(s) == Some(-(m as int)));
    }
}

/// Appends the canonical digits of `n` to `out`.
fn push_dec_digits(out: &mut String, n: u64)
    ensures
        final(out)@ == old(out)@ + dec_digits(n as nat),
    decreases n,
{
    if n >= 10 {
        push_dec_digits(out, n / 10);
    }
    let d: u8 = (n % 10) as u8;
    out.push((48 + d) as char);
    proof {
        assert(out@ =~= old(out)@ + dec_digits(n as nat));
    }
}

/// The text that the heartbeat store writes for a timestamp: its canonical
/// decimal form.
pub fn encode_timestamp(t: i64) -> (s: String)
    ensures
        s@ == dec_int(t as int),
{
    let mut s = String::new();
    if t < 0 {
        s.push('-');
    }
    let mag: u64 = if t == -9223372036854775808i64 {
        9223372036854775808u64
    } else if t < 0 {
        (-t) as u64
    } else {
        t as u64
    };
    push_dec_digits(&mut s, mag);
    proof {
        assert(s@ =~= dec_int(t as int));
    }
    s
}

/// Parses a heartbeat file's text as a signed 64-bit timestamp, exactly as
/// `i64::from_str` would: an optional sign, then at least one decimal digit,
/// with the value in range.
pub fn parse_timestamp(s: &str) -> (r: Option<i64>)
    ensures
        r == timestamp_of(s@),
{
    let n: usize = s.unicode_len();
    if n == 0 {
        return None;
    }
    let first: char = s.get_char(0);
    let negative: bool = first == '-';
    let signed: bool = negative || first == '+';
    let start: usize = if signed {
        1
    } else {
        0
    };
    if start == n {
        return None;
    }
    let limit: u64 = if negative {
        9223372036854775808u64
    } else {
        9223372036854775807u64
    };
    let mut mag: u64 = 0;
    let mut i: usize = start;
    while i < n
        invariant
            start <= i <= n,
            n == s@.len(),
            start == if signed { 1int } else { 0int },
            negative == (s@[0] == '-'),
            signed == (s@[0] == '-' || s@[0] == '+'),
            limit == if negative { 9223372036854775808u64 } else { 9223372036854775807u64 },
            all_digits(s@.subrange(start as int, i as int)),
            mag == digits_value(s@.subrange(start as int, i as int)),
            mag <= limit,
        decreases n - i,
    {
        let c: char = s.get_char(i);
        let v: u32 = c as u32;
        if v < 48 || v > 57 {
            proof {
                let digits = s@.skip(start as int);
                assert(digits[i - start] == s@[i as int]);
                assert(!char_is_digit(s@[i as int]));
                assert(!all_digits(digits));
                if !signed {
                    assert(digits =~= s@);
                }
            }
            return None;
        }
        let d: u64 = (v - 48) as u64;
        proof {
            lemma_digits_value_nonneg(s@.subrange(start as int, i as int));
        }
        if mag > (limit - d) / 10 {
            proof {
                let l = (limit - d) as int;
                assert(l == 10 * (l / 10) + l % 10) by (nonlinear_arith);
                assert(l % 10 <= 9);
                assert(mag * 10 > l) by (nonlinear_arith)
                    requires
                        mag > l / 10,
                        l == 10 * (l / 10) + l % 10,
                        l % 10 <= 9,
                ;
                let digits = s@.skip(start as int);
                let head = s@.subrange(start as int, i as int + 1);
                assert(head.drop_last() =~= s@.subrange(start as int, i as int));
                assert(head.last() == s@[i as int]);
                assert(char_is_digit(s@[i as int]));
                assert(all_digits(head));
                assert(digits_value(head) == mag * 10 + d);
                if all_digits(digits) {
                    assert(head =~= digits.take(i - start + 1));
                    lemma_digits_value_prefix(digits, i - start + 1);
                    assert(digits_value(digits) > limit);
                }
                if !signed {
                    assert(digits =~= s@);
                }
            }
            return None;
        }
        proof {
            let l = (limit - d) as int;
            assert(mag * 10 <= 10 * (l / 10)) by (nonlinear_arith)
                requires
                    0 <= mag <= l / 10,
            ;
            assert(l == 10 * (l / 10) + l % 10) by (nonlinear_arith);
            let head = s@.subrange(start as int, i as int + 1);
            assert(head.drop_last() =~= s@.subrange(start as int, i as int));
            assert(head.last() == s@[i as int]);
            assert(char_is_digit(s@[i as int]));
            assert(all_digits(head));
            assert(digits_value(head) == mag * 10 + d);
        }
        mag = mag * 10 + d;
        i += 1;
    }
    proof {
        let digits = s@.skip(start as int);
        assert(digits =~= s@.subrange(start as int, n as int));
        if !signed {
            assert(digits =~= s@);
        }
    }
    if negative {
        if mag == 9223372036854775808u64 {
            Some(-9223372036854775807i64 - 1)
        } else {
            Some(-(mag as i64))
        }
    } else {
        Some(mag as i64)
    }
}

/// Parses a heartbeat-frequency argument as an unsigned 16-bit minute count,
/// exactly as `u16::from_str` would: an optional `'+'`, then at least one
/// decimal digit, with the value in range.
pub fn parse_frequency(s: &str) -> (r: Option<u16>)
    ensures
        r == frequency_of(s@),
{
    let n: usize = s.unicode_len();
    if n == 0 {
        return None;
    }
    let first: char = s.get_char(0);
    let signed: bool = first == '+';
    let start: usize = if signed {
        1
    } else {
        0
    };
    if start == n {
        return None;
    }
    let mut mag: u32 = 0;
    let mut i: usize = start;
    while i < n
        invariant
            start <= i <= n,
            n == s@.len(),
            start == if signed { 1int } else { 0int },
            signed == (s@[0] == '+'),
            all_digits(s@.subrange(start as int, i as int)),
            mag == digits_value(s@.subrange(start as int, i as int)),
            mag <= 65535,
        decreases n - i,
    {
        let c: char = s.get_char(i);
        let v: u32 = c as u32;
        if v < 48 || v > 57 {
            proof {
                let digits = s@.skip(start as int);
                assert(digits[i - start] == s@[i as int]);
                assert(!all_digits(digits));
                if !signed {
                    assert(digits =~= s@);
                }
            }
            return None;
        }
        let d: u32 = v - 48;
        proof {
            lemma_digits_value_nonneg(s@.subrange(start as int, i as int));
            let head = s@.subrange(start as int, i as int + 1);
            assert(head.drop_last() =~= s@.subrange(start as int, i as int));
            assert(head.last() == s@[i as int]);
            assert(char_is_digit(s@[i as int]));
            assert(all_digits(head));
            assert(digits_value(head) == mag * 10 + d);
        }
        let next: u32 = mag * 10 + d;
        if next > 65535 {
            proof {
                let digits = s@.skip(start as int);
                let head = s@.subrange(start as int, i as int + 1);
                if all_digits(digits) {
                    assert(head =~= digits.take(i - start + 1));
                    lemma_digits_value_prefix(digits, i - start + 1);
                    assert(digits_value(digits) > 65535);
                }
                if !signed {
                    assert(digits =~= s@);
                }
            }
            return None;
        }
        mag = next;
        i += 1;
    }
    proof {
        let digits = s@.skip(start as int);
        assert(digits =~= s@.subrange(start as int, n as int));
        lemma_digits_value_nonneg(digits);
        if !signed {
            assert(digits =~= s@);
        }
    }
    Some(mag as u16)
}

/// What the heartbeat store yields for a file's content: nothing when the file
/// was absent or unreadable, else the parsed timestamp.
pub fn read_heartbeat(content: Option<&str>) -> (r: Option<i64>)
    ensures
        content matches Some(s) ==> r == timestamp_of(s@),
        content is None ==> r is None,
{
    match content {
        Some(s) => parse_timestamp(s),
        None => None,
    }
}

} // verus!
