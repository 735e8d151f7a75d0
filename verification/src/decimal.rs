//! Base-10 integer literals: what they denote, how they are read and written.

use vstd::prelude::*;
use vstd::string::StringExecFns;
use crate::error::ParseError;

verus! {

/// Whether `c` is one of the ten decimal digits.
pub open spec fn is_digit(c: char) -> bool {
    '0' <= c && c <= '9'
}

/// The number that the digit `c` stands for.
pub open spec fn digit_value(c: char) -> int {
    c as int - 48
}

/// The digit that stands for `d`, where `0 <= d <= 9`.
pub open spec fn digit_char(d: int) -> char {
    (d + 48) as char
}

/// Whether every character of `s` is a decimal digit.
pub open spec fn all_digits(s: Seq<char>) -> bool {
    forall|i: int| 0 <= i < s.len() ==> is_digit(#[trigger] s[i])
}

/// The number written by the digit sequence `s`, most significant digit first.
pub open spec fn digits_value(s: Seq<char>) -> int
    decreases s.len(),
{
    if s.len() == 0 {
        0
    } else {
        10 * digits_value(s.drop_last()) + digit_value(s.last())
    }
}

/// How many characters of `s` its sign takes: one for a leading `+` or `-`.
pub open spec fn sign_len(s: Seq<char>) -> int {
    if s.len() > 0 && (s[0] == '+' || s[0] == '-') {
        1
    } else {
        0
    }
}

/// Whether `s` starts with a minus sign.
pub open spec fn is_negative(s: Seq<char>) -> bool {
    s.len() > 0 && s[0] == '-'
}

/// What follows the sign of `s`.
pub open spec fn magnitude(s: Seq<char>) -> Seq<char> {
    s.subrange(sign_len(s), s.len() as int)
}

/// Whether `s` is an integer literal: an optional sign, then one digit or more.
pub open spec fn is_integer_literal(s: Seq<char>) -> bool {
    magnitude(s).len() > 0 && all_digits(magnitude(s))
}

/// The integer that the literal `s` denotes.
pub open spec fn literal_value(s: Seq<char>) -> int {
    if is_negative(s) {
        -digits_value(magnitude(s))
    } else {
        digits_value(magnitude(s))
    }
}

/// What reading `s` as a 32-bit signed integer gives.
pub open spec fn parsed_i32(s: Seq<char>) -> Result<i32, ParseError> {
    if s.len() == 0 {
        Err(ParseError::Empty)
    } else if !is_integer_literal(s) {
        Err(ParseError::Invalid)
    } else if literal_value(s) < i32::MIN || literal_value(s) > i32::MAX {
        Err(ParseError::OutOfRange)
    } else {
        Ok(literal_value(s) as i32)
    }
}

/// The digits of `n`, most significant first, with no leading zero.
pub open spec fn decimal_digits(n: nat) -> Seq<char>
    decreases n,
{
    if n < 10 {
        seq![digit_char(n as int)]
    } else {
        decimal_digits(n / 10).push(digit_char((n % 10) as int))
    }
}

/// The canonical literal of `n`: a minus sign if `n` is negative, then its digits.
pub open spec fn formatted(n: int) -> Seq<char> {
    if n < 0 {
        seq!['-'] + decimal_digits((-n) as nat)
    } else {
        decimal_digits(n as nat)
    }
}

/// Whether `s` is the literal that writing its own value gives back: no plus
/// sign, no leading zero, and no sign before zero.
pub open spec fn is_canonical(s: Seq<char>) -> bool {
    &&& is_integer_literal(s)
    &&& s[0] != '+'
    &&& magnitude(s).len() == 1 || magnitude(s)[0] != '0'
    &&& is_negative(s) ==> magnitude(s)[0] != '0'
}

/// Appending one digit multiplies the value by ten and adds the digit.
pub proof fn lemma_value_push(s: Seq<char>, c: char)
    ensures
        digits_value(s.push(c)) == 10 * digits_value(s) + digit_value(c),
{
    assert(s.push(c).drop_last() =~= s);
}

/// The digits written for `n` are digits, at least one of them, they denote
/// `n`, and the first is a zero only if `n` is zero.
pub proof fn lemma_digits_denote(n: nat)
    ensures
        decimal_digits(n).len() > 0,
        all_digits(decimal_digits(n)),
        digits_value(decimal_digits(n)) == n,
        decimal_digits(n)[0] == '0' ==> n == 0,
        decimal_digits(n).len() == 1 <==> n < 10,
    decreases n,
{
    if n < 10 {
        let s = seq![digit_char(n as int)];
        assert(s.drop_last() =~= Seq::<char>::empty());
        assert(digits_value(s.drop_last()) == 0);
        assert(digit_value(s.last()) == n);
    } else {
        let head = decimal_digits(n / 10);
        let c = digit_char((n % 10) as int);
        lemma_digits_denote(n / 10);
        lemma_value_push(head, c);
        assert(is_digit(c));
        assert(head.push(c)[0] == head[0]);
        assert forall|i: int| 0 <= i < head.push(c).len() implies is_digit(
            #[trigger] head.push(c)[i],
        ) by {
            if i < head.len() {
                assert(head.push(c)[i] == head[i]);
            }
        }
    }
}

/// Writing the value of a digit sequence that has no leading zero gives the
/// sequence back.
pub proof fn lemma_digits_of_value(s: Seq<char>)
    requires
        s.len() > 0,
        all_digits(s),
        s.len() == 1 || s[0] != '0',
    ensures
        decimal_digits(digits_value(s) as nat) == s,
        s.len() > 1 ==> digits_value(s) >= 10,
        0 <= digits_value(s),
    decreases s.len(),
{
    let head = s.drop_last();
    let c = s.last();
    assert(is_digit(c));
    if s.len() == 1 {
        assert(head =~= Seq::<char>::empty());
        assert(digits_value(head) == 0);
        assert(digits_value(s) == digit_value(c));
        assert(seq![digit_char(digit_value(c))] =~= s);
    } else {
        assert(head[0] == s[0]);
        assert(all_digits(head)) by {
            assert forall|i: int| 0 <= i < head.len() implies is_digit(#[trigger] head[i]) by {
                assert(head[i] == s[i]);
            }
        }
        lemma_digits_of_value(head);
        assert(is_digit(head[0]));
        if head.len() == 1 {
            assert(head.drop_last() =~= Seq::<char>::empty());
            assert(digits_value(head.drop_last()) == 0);
            assert(digits_value(head) == digit_value(head[0]));
            assert(digits_value(head) >= 1);
        }
        let v = digits_value(s);
        assert(v == 10 * digits_value(head) + digit_value(c));
        assert(v >= 10);
        assert((v as nat) / 10 == digits_value(head) as nat);
        assert((v as nat) % 10 == digit_value(c) as nat);
        assert(digit_char(digit_value(c)) == c);
        assert(head.push(c) =~= s);
    }
}

/// Reading what was written gives the number back: for every 32-bit signed
/// integer, the canonical literal of it parses to it.
pub proof fn lemma_parse_after_format(n: i32)
    ensures
        parsed_i32(formatted(n as int)) == Ok::<i32, ParseError>(n),
        is_canonical(formatted(n as int)),
{
    let s = formatted(n as int);
    if n < 0 {
        let m = (-(n as int)) as nat;
        lemma_digits_denote(m);
        assert(s[0] == '-');
        assert(magnitude(s) =~= decimal_digits(m));
    } else {
        let m = n as nat;
        lemma_digits_denote(m);
        assert(is_digit(s[0]));
        assert(magnitude(s) =~= decimal_digits(m));
    }
}

/// Writing what was read gives the text back: a canonical literal is the
/// canonical literal of its own value.
pub proof fn lemma_format_after_parse(s: Seq<char>)
    requires
        is_canonical(s),
    ensures
        formatted(literal_value(s)) == s,
{
    let m = magnitude(s);
    lemma_digits_of_value(m);
    if is_negative(s) {
        assert(is_digit(m[0]));
        if m.len() == 1 {
            assert(m.drop_last() =~= Seq::<char>::empty());
            assert(digits_value(m.drop_last()) == 0);
            assert(digits_value(m) == digit_value(m[0]));
        }
        assert(digits_value(m) >= 1);
        assert(seq!['-'] + m =~= s);
    } else {
        assert(m =~= s);
    }
}

/// The one-character text of the digit `d`.
fn digit_str(d: u32) -> (text: &'static str)
    requires
        d <= 9,
    ensures
        text@ == seq![digit_char(d as int)],
{
    proof {
        reveal_strlit("0");
        reveal_strlit("1");
        reveal_strlit("2");
        reveal_strlit("3");
        reveal_strlit("4");
        reveal_strlit("5");
        reveal_strlit("6");
        reveal_strlit("7");
        reveal_strlit("8");
        reveal_strlit("9");
    }
    let text: &'static str = if d == 0 {
        "0"
    } else if d == 1 {
        "1"
    } else if d == 2 {
        "2"
    } else if d == 3 {
        "3"
    } else if d == 4 {
        "4"
    } else if d == 5 {
        "5"
    } else if d == 6 {
        "6"
    } else if d == 7 {
        "7"
    } else if d == 8 {
        "8"
    } else {
        "9"
    };
    assert(text@ =~= seq![digit_char(d as int)]);
    text
}

/// Appends the digits of `n` to `out`.
fn push_digits(n: u32, out: &mut String)
    ensures
        final(out)@ == old(out)@ + decimal_digits(n as nat),
    decreases n,
{
    if n >= 10 {
        push_digits(n / 10, out);
    }
    out.append(digit_str(n % 10));
    proof {
        if n >= 10 {
            assert(final(out)@ =~= old(out)@ + decimal_digits(n as nat));
        }
    }
}

/// Writes `n` in base 10: a minus sign if it is negative, then its digits
/// with no leading zero.
pub fn format_i32(n: i32) -> (text: String)
    ensures
        text@ == formatted(n as int),
{
    let mut text = String::new();
    if n < 0 {
        proof {
            reveal_strlit("-");
        }
        text.append("-");
        assert(text@ =~= seq!['-']);
        let m: u32 = if n == i32::MIN {
            2147483648u32
        } else {
            (-n) as u32
        };
        push_digits(m, &mut text);
    } else {
        push_digits(n as u32, &mut text);
        assert(text@ =~= decimal_digits(n as nat));
    }
    text
}

/// Reads `s` as a 32-bit signed integer written in base 10: an optional `+`
/// or `-`, then digits and nothing else. Leading zeros are accepted.
pub fn parse_i32(s: &str) -> (r: Result<i32, ParseError>)
    ensures
        r == parsed_i32(s@),
{
    if !s.is_ascii() {
        proof {
            lemma_not_ascii_not_literal(s@);
        }
        return Err(ParseError::Invalid);
    }
    let bytes = s.as_bytes();
    let n: usize = bytes.len();
    proof {
        vstd::string::is_ascii_spec_bytes(s);
        assert(bytes@.len() == s@.len());
        assert(forall|j: int| 0 <= j < n ==> bytes@[j] == s@[j] as u8);
    }
    if n == 0 {
        return Err(ParseError::Empty);
    }
    let negative: bool = bytes[0] == 45u8;
    let start: usize = if bytes[0] == 43u8 || bytes[0] == 45u8 {
        1
    } else {
        0
    };
    assert(start == sign_len(s@));
    assert(negative == is_negative(s@));
    if start == n {
        return Err(ParseError::Invalid);
    }
    let ghost digits = magnitude(s@);
    let mut acc: i64 = 0;
    let mut large: bool = false;
    let mut i: usize = start;
    while i < n
        invariant
            start <= i <= n,
            n == s@.len(),
            n == bytes@.len(),
            start == sign_len(s@),
            digits == magnitude(s@),
            forall|j: int| 0 <= j < n ==> bytes@[j] == s@[j] as u8,
            vstd::utf8::is_ascii_chars(s@),
            all_digits(digits.subrange(0, i - start)),
            !large ==> acc == digits_value(digits.subrange(0, i - start)),
            !large ==> 0 <= acc <= 2147483648,
            large ==> digits_value(digits.subrange(0, i - start)) > 2147483648,
        decreases n - i,
    {
        let b: u8 = bytes[i];
        let ghost c = s@[i as int];
        assert(c == digits[i - start]);
        assert(b == c as u8);
        assert('\0' <= c <= '\u{7f}');
        if b < 48u8 || b > 57u8 {
            assert(!is_digit(c));
            return Err(ParseError::Invalid);
        }
        assert(is_digit(c));
        let d: i64 = (b - 48u8) as i64;
        assert(d == digit_value(c));
        proof {
            let shorter = digits.subrange(0, i - start);
            let longer = digits.subrange(0, i + 1 - start);
            assert(longer =~= shorter.push(c));
            lemma_value_push(shorter, c);
            assert forall|j: int| 0 <= j < longer.len() implies is_digit(#[trigger] longer[j]) by {
                if j < shorter.len() {
                    assert(longer[j] == shorter[j]);
                }
            }
        }
        if !large {
            acc = acc * 10 + d;
            if acc > 2147483648 {
                large = true;
            }
        }
        i += 1;
    }
    assert(digits.subrange(0, n - start) =~= digits);
    if large {
        Err(ParseError::OutOfRange)
    } else if negative {
        Ok((-acc) as i32)
    } else if acc > 2147483647 {
        Err(ParseError::OutOfRange)
    } else {
        Ok(acc as i32)
    }
}

/// A text with a character outside ASCII is not empty and is no integer literal.
proof fn lemma_not_ascii_not_literal(s: Seq<char>)
    requires
        !vstd::utf8::is_ascii_chars(s),
    ensures
        s.len() > 0,
        !is_integer_literal(s),
{
    let i = choose|i: int| 0 <= i < s.len() && !('\0' <= #[trigger] s[i] <= '\u{7f}');
    assert(!is_digit(s[i]));
    assert(s[i] != '+' && s[i] != '-');
    if is_integer_literal(s) {
        assert(i >= sign_len(s));
        assert(magnitude(s)[i - sign_len(s)] == s[i]);
    }
}


} // verus!
