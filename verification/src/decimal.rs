//! Decimal text of chunk indices: how an index is written and how it is read back.

use vstd::prelude::*;
use vstd::string::StrSliceExecFns;
use vstd::string::StringExecFns;

verus! {

/// Whether `c` is one of the ten decimal digits.
pub open spec fn is_digit(c: char) -> bool {
    '0' <= c && c <= '9'
}

/// The number a decimal digit stands for.
pub open spec fn digit_value(c: char) -> nat
    recommends
        is_digit(c),
{
    (c as nat - '0' as nat) as nat
}

/// The digit that stands for `d`, for `d < 10`.
pub open spec fn digit_char(d: nat) -> char
    recommends
        d < 10,
{
    (d + '0' as nat) as char
}

/// Whether `s` holds digits only.
pub open spec fn all_digits(s: Seq<char>) -> bool {
    forall|i: int| 0 <= i < s.len() ==> is_digit(#[trigger] s[i])
}

/// The number that a run of digits stands for, most significant digit first.
/// Leading zeros add nothing; the empty run stands for zero.
pub open spec fn digits_value(s: Seq<char>) -> nat
    decreases s.len(),
{
    if s.len() == 0 {
        0
    } else {
        digits_value(s.drop_last()) * 10 + digit_value(s.last())
    }
}

/// The decimal text of `n`: no sign, no leading zero, `"0"` for zero.
pub open spec fn decimal(n: nat) -> Seq<char>
    decreases n,
{
    if n < 10 {
        seq![digit_char(n)]
    } else {
        decimal(n / 10).push(digit_char(n % 10))
    }
}

/// The digits of an index field: the text itself, without the `+` that may lead it.
pub open spec fn index_digits(s: Seq<char>) -> Seq<char> {
    if s.len() > 0 && s[0] == '+' {
        s.skip(1)
    } else {
        s
    }
}

/// The index that a text field stands for: an optional `+`, then one or more
/// digits and nothing else, naming a number that a `usize` can hold.
pub open spec fn parsed_index(s: Seq<char>) -> Option<usize> {
    let digits = index_digits(s);
    if digits.len() > 0 && all_digits(digits) && digits_value(digits) <= usize::MAX {
        Some(digits_value(digits) as usize)
    } else {
        None
    }
}

/// A run of digits stands for at least as much as any of its prefixes.
pub proof fn lemma_digits_value_prefix(s: Seq<char>, k: int)
    requires
        0 <= k <= s.len(),
    ensures
        digits_value(s.take(k)) <= digits_value(s),
    decreases s.len() - k,
{
    if k == s.len() {
        assert(s.take(k) =~= s);
    } else {
        lemma_digits_value_prefix(s.drop_last(), k);
        assert(s.drop_last().take(k) =~= s.take(k));
    }
}

/// The decimal text of a number is a non-empty run of digits that stands for
/// that number.
pub proof fn lemma_decimal_digits(n: nat)
    ensures
        decimal(n).len() > 0,
        all_digits(decimal(n)),
        digits_value(decimal(n)) == n,
    decreases n,
{
    if n < 10 {
        let s = decimal(n);
        assert(s.len() == 1);
        assert(s.drop_last().len() == 0);
        assert(digits_value(s) == digits_value(s.drop_last()) * 10 + digit_value(s.last()));
    } else {
        lemma_decimal_digits(n / 10);
        let head = decimal(n / 10);
        let s = decimal(n);
        assert(s.drop_last() =~= head);
        assert(s.last() == digit_char(n % 10));
        assert forall|i: int| 0 <= i < s.len() implies is_digit(#[trigger] s[i]) by {
            if i < head.len() {
                assert(s[i] == head[i]);
            }
        }
    }
}

/// Reading back the decimal text of an index gives that index.
pub proof fn lemma_decimal_round_trip(n: usize)
    ensures
        parsed_index(decimal(n as nat)) == Some(n),
{
    lemma_decimal_digits(n as nat);
    let s = decimal(n as nat);
    assert(is_digit(s[0]));
}

/// Two numbers with the same decimal text are one number.
pub proof fn lemma_decimal_injective(a: nat, b: nat)
    requires
        decimal(a) == decimal(b),
    ensures
        a == b,
{
    lemma_decimal_digits(a);
    lemma_decimal_digits(b);
}

/// The text of a single digit.
fn digit_text(d: usize) -> (r: &'static str)
    requires
        d < 10,
    ensures
        r@ == seq![digit_char(d as nat)],
{
    proof {
        reveal_strlit("0");
        reveal_strlit("1");
        reveal_strlit("2");
        reveal_strlit("3");
        reveal_strlit("4");
        reveal_strlit("5");
        reveal_strlit("6");
        reveal_strlit("7");
        reveal_strlit("8");
        reveal_strlit("9");
    }
    let r = match d {
        0 => "0",
        1 => "1",
        2 => "2",
        3 => "3",
        4 => "4",
        5 => "5",
        6 => "6",
        7 => "7",
        8 => "8",
        _ => "9",
    };
    assert(r@ =~= seq![digit_char(d as nat)]);
    r
}

/// Writes an index in decimal.
pub fn index_text(index: usize) -> (r: String)
    ensures
        r@ == decimal(index as nat),
    decreases index,
{
    if index < 10 {
        String::from_str(digit_text(index))
    } else {
        let mut out = index_text(index / 10);
        out.append(digit_text(index % 10));
        assert(out@ =~= decimal(index as nat));
        out
    }
}

/// Reads an index from the text of a form field. Gives `None` for text that is
/// no number, or one too large for a `usize`.
pub fn parse_index(text: &str) -> (r: Option<usize>)
    ensures
        r == parsed_index(text@),
{
    let ghost s = text@;
    let ghost digits = index_digits(s);
    if !text.is_ascii() {
        proof {
            let k = choose|k: int| 0 <= k < s.len() && !('\0' <= #[trigger] s[k] <= '\u{7f}');
            if s.len() > 0 && s[0] == '+' {
                assert(k >= 1);
                assert(digits[k - 1] == s[k]);
                assert(!is_digit(digits[k - 1]));
            } else {
                assert(!is_digit(digits[k]));
            }
        }
        return None;
    }
    let bytes = text.as_bytes();
    let n = bytes.len();
    proof {
        vstd::utf8::is_ascii_chars_encode_utf8(s);
    }
    let mut i: usize = 0;
    if n > 0 && bytes[0] == 43u8 {
        i = 1;
    }
    let start = i;
    assert(digits =~= s.skip(start as int));
    if i == n {
        return None;
    }
    let mut value: usize = 0;
    while i < n
        invariant
            start <= i <= n,
            s == text@,
            n == s.len(),
            n == bytes@.len(),
            vstd::utf8::is_ascii_chars(s),
            forall|j: int| 0 <= j < n ==> #[trigger] bytes@[j] == s[j] as u8,
            digits == s.skip(start as int),
            digits == index_digits(s),
            all_digits(digits.take(i - start)),
            value == digits_value(digits.take(i - start)),
        decreases n - i,
    {
        let b = bytes[i];
        let ghost k = i - start;
        assert(digits[k] == s[i as int]);
        assert(b == bytes@[i as int]);
        assert('\0' <= s[i as int] <= '\u{7f}');
        assert(b as int == s[i as int] as int);
        if b < 48 || b > 57 {
            assert(!is_digit(digits[k]));
            return None;
        }
        let d = (b - 48) as usize;
        proof {
            let next = digits.take(k + 1);
            assert(next.drop_last() =~= digits.take(k));
            assert(next.last() == digits[k]);
            assert(d == digit_value(digits[k]));
            assert forall|j: int| 0 <= j < next.len() implies is_digit(#[trigger] next[j]) by {
                if j < k {
                    assert(next[j] == digits.take(k)[j]);
                }
            }
            assert(digits_value(next) == value * 10 + d);
            lemma_digits_value_prefix(digits, k + 1);
        }
        let scaled = match value.checked_mul(10) {
            Some(v) => v,
            None => {
                return None;
            },
        };
        value = match scaled.checked_add(d) {
            Some(v) => v,
            None => {
                return None;
            },
        };
        i += 1;
    }
    assert(digits.take(i - start) =~= digits);
    Some(value)
}

} // verus!

