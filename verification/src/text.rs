//! Decimal text of identifiers, and the few string operations that the rest
//! of the library needs.

use vstd::prelude::*;
use vstd::string::*;
use vstd::utf8::{decode_utf8, encode_utf8_decode_utf8, is_ascii_chars};

verus! {

/// The ASCII code of the plus sign.
const PLUS: u8 = 43;

/// The ASCII code of the digit zero.
const ZERO: u8 = 48;

/// The ASCII code of the digit nine.
const NINE: u8 = 57;

/// Whether `c` is one of the ten ASCII digits.
pub open spec fn is_digit(c: char) -> bool {
    '0' <= c && c <= '9'
}

/// The ASCII digit that stands for `d`, for `d` below ten.
pub open spec fn digit_char(d: nat) -> char
    recommends
        d < 10,
{
    ((48 + d) as u8) as char
}

/// The number that the ASCII digit `c` stands for.
pub open spec fn digit_value(c: char) -> nat
    recommends
        is_digit(c),
{
    (c as u32 - 48) as nat
}

/// Whether every character of `s` is an ASCII digit.
pub open spec fn all_digits(s: Seq<char>) -> bool {
    forall|i: int| 0 <= i < s.len() ==> is_digit(#[trigger] s[i])
}

/// The decimal text of `n`: no sign, no leading zero, `"0"` for zero.
pub open spec fn decimal(n: nat) -> Seq<char>
    decreases n,
{
    if n < 10 {
        seq![digit_char(n)]
    } else {
        decimal(n / 10).push(digit_char(n % 10))
    }
}

/// The number that a run of digits reads as, most significant digit first.
/// Leading zeros count for nothing, and the empty run reads as zero.
pub open spec fn digits_value(s: Seq<char>) -> nat
    decreases s.len(),
{
    if s.len() == 0 {
        0
    } else {
        10 * digits_value(s.drop_last()) + digit_value(s.last())
    }
}

/// `s` without the one plus sign that may lead it.
pub open spec fn unsigned_part(s: Seq<char>) -> Seq<char> {
    if s.len() > 0 && s[0] == '+' {
        s.drop_first()
    } else {
        s
    }
}

/// The identifier that `s` reads as: an optional plus sign, then one or more
/// digits whose value fits in 64 bits. Anything else reads as no identifier.
pub open spec fn parse_id_spec(s: Seq<char>) -> Option<u64> {
    let body = unsigned_part(s);
    if body.len() > 0 && all_digits(body) && digits_value(body) <= u64::MAX {
        Some(digits_value(body) as u64)
    } else {
        None
    }
}

/// The digit that stands for `d` is a digit, and stands for `d`.
pub proof fn lemma_digit_char(d: nat)
    requires
        d < 10,
    ensures
        is_digit(digit_char(d)),
        digit_value(digit_char(d)) == d,
{
}

/// The decimal text of a number is made of digits, is not empty, and reads
/// back as that number.
pub proof fn lemma_decimal_reads_back(n: nat)
    ensures
        decimal(n).len() > 0,
        all_digits(decimal(n)),
        digits_value(decimal(n)) == n,
    decreases n,
{
    lemma_digit_char(n % 10);
    if n < 10 {
        assert(decimal(n).drop_last() =~= Seq::<char>::empty());
        assert(digits_value(decimal(n).drop_last()) == 0);
    } else {
        lemma_decimal_reads_back(n / 10);
        assert(decimal(n).drop_last() =~= decimal(n / 10));
    }
    assert(decimal(n).last() == digit_char(n % 10));
}

/// Two numbers with the same decimal text are the same number.
pub proof fn lemma_decimal_injective(a: nat, b: nat)
    requires
        decimal(a) == decimal(b),
    ensures
        a == b,
{
    lemma_decimal_reads_back(a);
    lemma_decimal_reads_back(b);
}

/// Reading the decimal text of an identifier gives that identifier back.
pub proof fn lemma_parse_decimal(id: u64)
    ensures
        parse_id_spec(decimal(id as nat)) == Some(id),
{
    lemma_decimal_reads_back(id as nat);
}

/// A run of digits reads as no less than any of its prefixes does.
pub proof fn lemma_digits_value_prefix(s: Seq<char>, k: int)
    requires
        0 <= k <= s.len(),
    ensures
        digits_value(s.subrange(0, k)) <= digits_value(s),
    decreases s.len() - k,
{
    if k == s.len() {
        assert(s.subrange(0, k) =~= s);
    } else {
        lemma_digits_value_prefix(s, k + 1);
        assert(s.subrange(0, k + 1).drop_last() =~= s.subrange(0, k));
    }
}

/// The one-character text of the digit `d`.
fn digit_text(d: u8) -> (text: &'static str)
    requires
        d < 10,
    ensures
        text@ == seq![digit_char(d as nat)],
{
    proof {
        reveal_strlit("0");
        reveal_strlit("1");
        reveal_strlit("2");
        reveal_strlit("3");
        reveal_strlit("4");
        reveal_strlit("5");
        reveal_strlit("6");
        reveal_strlit("7");
        reveal_strlit("8");
        reveal_strlit("9");
    }
    let text = match d {
        0 => "0",
        1 => "1",
        2 => "2",
        3 => "3",
        4 => "4",
        5 => "5",
        6 => "6",
        7 => "7",
        8 => "8",
        _ => "9",
    };
    assert(text@ =~= seq![digit_char(d as nat)]);
    text
}

/// Appends the decimal text of `n` to `out`.
pub fn push_decimal(out: &mut String, n: u64)
    ensures
        final(out)@ == old(out)@ + decimal(n as nat),
    decreases n,
{
    if n >= 10 {
        push_decimal(out, n / 10);
    }
    out.append(digit_text((n % 10) as u8));
    assert(out@ =~= old(out)@ + decimal(n as nat));
}

/// The decimal text of `n`, as `n.to_string()` gives it.
pub fn decimal_string(n: u64) -> (text: String)
    ensures
        text@ == decimal(n as nat),
{
    let mut text = String::new();
    push_decimal(&mut text, n);
    assert(text@ =~= decimal(n as nat));
    text
}

/// Reads an identifier as `str::parse::<u64>` does: an optional plus sign,
/// then digits only, at least one, and a value that fits.
pub fn parse_id(text: &str) -> (id: Option<u64>)
    ensures
        id == parse_id_spec(text@),
{
    if !text.is_ascii() {
        proof {
            let i = choose|i: int| 0 <= i < text@.len() && !('\0' <= #[trigger] text@[i] <= '\u{7f}');
            let body = unsigned_part(text@);
            if body.len() == text@.len() {
                assert(!is_digit(body[i]));
            } else {
                assert(i > 0);
                assert(!is_digit(body[i - 1]));
            }
        }
        return None;
    }
    proof {
        is_ascii_spec_bytes(text);
    }
    let bytes = text.as_bytes();
    let n = bytes.len();
    let start: usize = if n > 0 && bytes[0] == PLUS {
        1
    } else {
        0
    };
    let ghost body = unsigned_part(text@);
    assert(body =~= text@.subrange(start as int, n as int));
    if start == n {
        return None;
    }
    let mut value: u64 = 0;
    let mut i: usize = start;
    while i < n
        invariant
            start <= i <= n,
            n == text@.len(),
            bytes@.len() == n,
            forall|j: int| 0 <= j < n ==> bytes@[j] == text@[j] as u8,
            is_ascii_chars(text@),
            body == unsigned_part(text@),
            body == text@.subrange(start as int, n as int),
            all_digits(body.subrange(0, i - start)),
            value == digits_value(body.subrange(0, i - start)),
        decreases n - i,
    {
        let b = bytes[i];
        let ghost seen = body.subrange(0, i - start);
        let ghost next = body.subrange(0, i + 1 - start);
        proof {
            assert(next.drop_last() =~= seen);
            assert(next.last() == text@[i as int]);
            assert('\0' <= text@[i as int] <= '\u{7f}');
        }
        if b < ZERO || b > NINE {
            assert(!is_digit(body[i - start]));
            return None;
        }
        assert(is_digit(text@[i as int]));
        let digit: u64 = (b - ZERO) as u64;
        assert(digit == digit_value(text@[i as int]));
        let grown = match value.checked_mul(10) {
            Some(tens) => tens.checked_add(digit),
            None => None,
        };
        match grown {
            Some(v) => {
                value = v;
            },
            None => {
                proof {
                    assert(digits_value(next) > u64::MAX);
                    lemma_digits_value_prefix(body, i + 1 - start);
                }
                return None;
            },
        }
        i = i + 1;
    }
    assert(body.subrange(0, n - start) =~= body);
    Some(value)
}

/// Whether two texts hold the same characters.
pub fn same_text(a: &str, b: &str) -> (same: bool)
    ensures
        same == (a@ == b@),
{
    let left = a.as_bytes();
    let right = b.as_bytes();
    proof {
        encode_utf8_decode_utf8(a@);
        encode_utf8_decode_utf8(b@);
    }
    if left.len() != right.len() {
        return false;
    }
    let mut i: usize = 0;
    while i < left.len()
        invariant
            i <= left@.len(),
            left@.len() == right@.len(),
            left@ == a.spec_bytes(),
            right@ == b.spec_bytes(),
            a@ == decode_utf8(a.spec_bytes()),
            b@ == decode_utf8(b.spec_bytes()),
            forall|j: int| 0 <= j < i ==> left@[j] == right@[j],
        decreases left@.len() - i,
    {
        if left[i] != right[i] {
            return false;
        }
        i = i + 1;
    }
    assert(left@ =~= right@);
    true
}

/// `text`, with spaces after it until it is `width` characters long. A text
/// that is that long already, or longer, stays as it is.
pub open spec fn padded(text: Seq<char>, width: nat) -> Seq<char> {
    if text.len() >= width {
        text
    } else {
        text + Seq::new((width - text.len()) as nat, |i: int| ' ')
    }
}

/// Pads `text` on the right as the format `{:<width}` does.
pub fn pad_right(text: &str, width: usize) -> (out: String)
    ensures
        out@ == padded(text@, width as nat),
{
    let mut out = String::from_str(text);
    let mut len: usize = text.unicode_len();
    let ghost start = len;
    while len < width
        invariant
            start == text@.len(),
            start <= len,
            len <= width || len == start,
            out@ == text@ + Seq::new((len - start) as nat, |i: int| ' '),
        decreases width - len,
    {
        proof {
            reveal_strlit(" ");
        }
        out.append(" ");
        len = len + 1;
        assert(out@ =~= text@ + Seq::new((len - start) as nat, |i: int| ' '));
    }
    assert(out@ =~= padded(text@, width as nat));
    out
}

} // verus!
