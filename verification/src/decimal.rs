//! Decimal text of unsigned integers, as `usize`'s `Display` writes it and
//! as `usize`'s `FromStr` reads it.

use vstd::prelude::*;

verus! {

/// The ASCII digit for `d < 10`.
pub open spec fn digit_char(d: nat) -> char {
    (d + 48) as char
}

/// `c` is one of the ASCII digits `0` to `9`.
pub open spec fn is_digit(c: char) -> bool {
    48 <= c as int <= 57
}

/// Every character of `s` is an ASCII digit.
pub open spec fn all_digits(s: Seq<char>) -> bool {
    forall|i: int| 0 <= i < s.len() ==> #[trigger] is_digit(s[i])
}

/// The number that the digits `s` denote (most significant first).
pub open spec fn digits_value(s: Seq<char>) -> nat
    decreases s.len(),
{
    if s.len() == 0 {
        0
    } else {
        digits_value(s.drop_last()) * 10 + ((s.last() as int - 48) as nat)
    }
}

/// The shortest decimal text of `n`: no sign, no leading zero (`"0"` for zero).
pub open spec fn spec_decimal(n: nat) -> Seq<char>
    decreases n,
{
    if n < 10 {
        seq![digit_char(n)]
    } else {
        spec_decimal(n / 10).push(digit_char(n % 10))
    }
}

/// The digits of an unsigned number text: an optional leading `+` is dropped.
pub open spec fn unsigned_digits(s: Seq<char>) -> Seq<char> {
    if s.len() > 0 && s[0] == '+' {
        s.drop_first()
    } else {
        s
    }
}

/// What `s.parse::<usize>()` gives: an optional `+`, then at least one ASCII
/// digit, and a value that fits in `usize`; anything else is an error (`None`).
pub open spec fn spec_parse_usize(s: Seq<char>) -> Option<usize> {
    let d = unsigned_digits(s);
    if d.len() > 0 && all_digits(d) && digits_value(d) <= usize::MAX {
        Some(digits_value(d) as usize)
    } else {
        None
    }
}

/// The text of `n` left-padded with zeros to at least two characters, as
/// the format `{:0>2}` writes it.
pub open spec fn spec_padded2(n: nat) -> Seq<char> {
    if n < 10 {
        seq!['0'] + spec_decimal(n)
    } else {
        spec_decimal(n)
    }
}

pub(crate) proof fn lemma_digits_value_push(s: Seq<char>, c: char)
    ensures
        digits_value(s.push(c)) == digits_value(s) * 10 + ((c as int - 48) as nat),
{
    assert(s.push(c).drop_last() =~= s);
}

/// The decimal text of `n` is made of digits, does not start with `+`, and
/// denotes `n`.
proof fn lemma_decimal_digits(n: nat)
    ensures
        spec_decimal(n).len() > 0,
        all_digits(spec_decimal(n)),
        digits_value(spec_decimal(n)) == n,
        is_digit(spec_decimal(n)[0]),
    decreases n,
{
    if n < 10 {
        let s = seq![digit_char(n)];
        assert(s.drop_last() =~= Seq::<char>::empty());
        assert(digits_value(Seq::<char>::empty()) == 0);
        assert(s.last() == digit_char(n));
    } else {
        lemma_decimal_digits(n / 10);
        let s = spec_decimal(n / 10);
        lemma_digits_value_push(s, digit_char(n % 10));
        assert forall|i: int| 0 <= i < s.push(digit_char(n % 10)).len() implies #[trigger] is_digit(
            s.push(digit_char(n % 10))[i],
        ) by {
            if i < s.len() {
                assert(is_digit(s[i]));
            }
        }
    }
}

/// A leading zero does not change the value of a digit text.
proof fn lemma_leading_zero(s: Seq<char>)
    ensures
        digits_value(seq!['0'] + s) == digits_value(s),
    decreases s.len(),
{
    let z = seq!['0'] + s;
    if s.len() == 0 {
        assert(z.drop_last() =~= Seq::<char>::empty());
        assert(digits_value(Seq::<char>::empty()) == 0);
        assert(z.last() == '0');
    } else {
        assert(z.drop_last() =~= seq!['0'] + s.drop_last());
        assert(z.last() == s.last());
        lemma_leading_zero(s.drop_last());
    }
}

/// A prefix of a digit text denotes no more than the whole text.
proof fn lemma_prefix_value_le(s: Seq<char>, j: int)
    requires
        0 <= j <= s.len(),
        all_digits(s),
    ensures
        digits_value(s.take(j)) <= digits_value(s),
    decreases s.len() - j,
{
    if j < s.len() {
        lemma_prefix_value_le(s, j + 1);
        assert(s.take(j + 1).drop_last() =~= s.take(j));
        assert(is_digit(s[j]));
    } else {
        assert(s.take(j) =~= s);
    }
}

/// Law: reading back the decimal text of a number gives the number.
pub proof fn lemma_parse_decimal_roundtrip(n: usize)
    ensures
        spec_parse_usize(spec_decimal(n as nat)) == Some(n),
{
    lemma_decimal_digits(n as nat);
}

/// Law: reading back the zero-padded text of a number gives the number.
pub proof fn lemma_parse_padded_roundtrip(n: usize)
    ensures
        spec_parse_usize(spec_padded2(n as nat)) == Some(n),
{
    lemma_decimal_digits(n as nat);
    if n < 10 {
        let s = spec_decimal(n as nat);
        lemma_leading_zero(s);
        assert forall|i: int| 0 <= i < (seq!['0'] + s).len() implies #[trigger] is_digit(
            (seq!['0'] + s)[i],
        ) by {
            if i > 0 {
                assert((seq!['0'] + s)[i] == s[i - 1]);
            }
        }
    }
}

/// The zero-padded text of a number is never empty.
pub proof fn lemma_padded_nonempty(n: usize)
    ensures
        spec_padded2(n as nat).len() > 0,
{
    lemma_decimal_digits(n as nat);
}

/// The decimal text of a number is never empty.
pub proof fn lemma_decimal_nonempty(n: nat)
    ensures
        spec_decimal(n).len() > 0,
{
    lemma_decimal_digits(n);
}

/// The one-character text of the digit `d`.
fn digit_text(d: usize) -> (r: &'static str)
    requires
        d < 10,
    ensures
        r@ == seq![digit_char(d as nat)],
{
    match d {
        0 => {
            proof { reveal_strlit("0"); }
            "0"
        },
        1 => {
            proof { reveal_strlit("1"); }
            "1"
        },
        2 => {
            proof { reveal_strlit("2"); }
            "2"
        },
        3 => {
            proof { reveal_strlit("3"); }
            "3"
        },
        4 => {
            proof { reveal_strlit("4"); }
            "4"
        },
        5 => {
            proof { reveal_strlit("5"); }
            "5"
        },
        6 => {
            proof { reveal_strlit("6"); }
            "6"
        },
        7 => {
            proof { reveal_strlit("7"); }
            "7"
        },
        8 => {
            proof { reveal_strlit("8"); }
            "8"
        },
        _ => {
            proof { reveal_strlit("9"); }
            "9"
        },
    }
}

/// Appends the decimal text of `n` to `out`.
pub fn push_decimal(out: &mut String, n: usize)
    ensures
        final(out)@ == old(out)@ + spec_decimal(n as nat),
    decreases n,
{
    if n < 10 {
        out.append(digit_text(n));
    } else {
        push_decimal(out, n / 10);
        out.append(digit_text(n % 10));
        proof {
            assert(old(out)@ + spec_decimal(n as nat) =~= old(out)@ + spec_decimal((n / 10) as nat)
                + seq![digit_char((n % 10) as nat)]);
        }
    }
}

/// The decimal text of `n`, as `n.to_string()` gives it.
pub fn decimal(n: usize) -> (r: String)
    ensures
        r@ == spec_decimal(n as nat),
{
    let mut out = String::new();
    push_decimal(&mut out, n);
    proof {
        assert(out@ =~= spec_decimal(n as nat));
    }
    out
}

/// The text of `n` padded with zeros to two characters, as
/// `format!("{n:0>2}")` gives it.
pub fn padded2(n: usize) -> (r: String)
    ensures
        r@ == spec_padded2(n as nat),
{
    let mut out = String::new();
    if n < 10 {
        out.append(digit_text(0));
    }
    push_decimal(&mut out, n);
    proof {
        assert(out@ =~= spec_padded2(n as nat));
    }
    out
}

/// Reads an unsigned number as `s.parse::<usize>()` does: `Some` exactly when
/// `s` is an optional `+` followed by at least one ASCII digit and the value
/// fits in `usize`.
pub fn parse_usize(s: &str) -> (r: Option<usize>)
    ensures
        r == spec_parse_usize(s@),
{
    let len = s.unicode_len();
    let mut start: usize = 0;
    if len > 0 && s.get_char(0) == '+' {
        start = 1;
    }
    let ghost d = unsigned_digits(s@);
    assert(d =~= s@.subrange(start as int, len as int));
    if start >= len {
        return None;
    }
    let mut value: usize = 0;
    let mut i: usize = start;
    while i < len
        invariant
            start <= i <= len,
            len == s@.len(),
            d == s@.subrange(start as int, len as int),
            d == unsigned_digits(s@),
            forall|k: int| 0 <= k < i - start ==> #[trigger] is_digit(d[k]),
            value as nat == digits_value(d.take(i - start)),
        decreases len - i,
    {
        let c = s.get_char(i);
        let code = c as u32;
        assert(d[i - start] == c);
        if code < 48 || code > 57 {
            assert(!is_digit(d[i - start]));
            return None;
        }
        let digit: usize = (code - 48) as usize;
        assert(d.take(i - start + 1).drop_last() =~= d.take(i - start));
        match value.checked_mul(10) {
            None => {
                proof {
                    self::lemma_overflow_rest(d, (i - start) as int);
                }
                return None;
            },
            Some(v10) => match v10.checked_add(digit) {
                None => {
                    proof {
                        self::lemma_overflow_rest(d, (i - start + 1) as int);
                    }
                    return None;
                },
                Some(v) => {
                    value = v;
                },
            },
        }
        i = i + 1;
    }
    assert(d.take(len - start) =~= d);
    Some(value)
}

/// Once a prefix of a text denotes more than `usize::MAX / 10` before one more
/// digit (or more than `usize::MAX`), the whole text cannot be read as a `usize`.
proof fn lemma_overflow_rest(d: Seq<char>, j: int)
    requires
        0 <= j <= d.len(),
        j < d.len() ==> digits_value(d.take(j)) * 10 > usize::MAX,
        j == d.len() ==> digits_value(d.take(j)) > usize::MAX,
        forall|k: int| 0 <= k < j ==> #[trigger] is_digit(d[k]),
    ensures
        !(all_digits(d) && digits_value(d) <= usize::MAX),
{
    if all_digits(d) {
        if j < d.len() {
            lemma_prefix_value_le(d, j + 1);
            assert(d.take(j + 1).drop_last() =~= d.take(j));
            assert(is_digit(d[j]));
        } else {
            lemma_prefix_value_le(d, j);
        }
    }
}

} // verus!

verus! {

/// The decimal text of a positive number does not start with `0`.
proof fn lemma_decimal_no_leading_zero(n: nat)
    requires
        n > 0,
    ensures
        spec_decimal(n)[0] != '0',
    decreases n,
{
    if n >= 10 {
        lemma_decimal_no_leading_zero(n / 10);
        lemma_decimal_digits(n / 10);
    }
}

/// Law: the decimal text of `n` is a nonempty run of ASCII digits that
/// denotes `n`, with no leading zero unless `n` is zero itself (`"0"`).
pub proof fn lemma_decimal_shape(n: nat)
    ensures
        spec_decimal(n).len() > 0,
        all_digits(spec_decimal(n)),
        digits_value(spec_decimal(n)) == n,
        spec_decimal(n).len() > 1 ==> spec_decimal(n)[0] != '0',
        n > 0 ==> spec_decimal(n)[0] != '0',
        n == 0 ==> spec_decimal(n) == seq!['0'],
{
    lemma_decimal_digits(n);
    if n > 0 {
        lemma_decimal_no_leading_zero(n);
    } else {
        assert(spec_decimal(n) =~= seq!['0']);
    }
}

/// Law: the decimal text of `10 * n + d`, for a positive `n` and a digit
/// `d`, is the text of `n` followed by the digit `d`.
pub proof fn lemma_decimal_appends_digit(n: nat, d: nat)
    requires
        n > 0,
        d < 10,
    ensures
        spec_decimal(10 * n + d) == spec_decimal(n).push(digit_char(d)),
        digit_char(d) as int == 48 + d,
{
    assert((10 * n + d) / 10 == n);
    assert((10 * n + d) % 10 == d);
}

/// Law: reading a number and then one more digit reads ten times the number
/// plus the digit, as long as that fits; a text with a character that is no
/// digit (after an optional leading `+`) reads as nothing.
pub proof fn lemma_parse_appends_digit(s: Seq<char>, v: usize, d: char)
    requires
        spec_parse_usize(s) == Some(v),
        is_digit(d),
        10 * v + (d as int - 48) <= usize::MAX,
    ensures
        spec_parse_usize(s.push(d)) == Some((10 * v + (d as int - 48)) as usize),
{
    let u = unsigned_digits(s);
    let w = unsigned_digits(s.push(d));
    assert(s.len() > 0);
    if s[0] == '+' {
        assert(w =~= u.push(d));
    } else {
        assert(w =~= u.push(d));
    }
    lemma_digits_value_push(u, d);
    assert forall|i: int| 0 <= i < w.len() implies #[trigger] is_digit(w[i]) by {
        if i < u.len() {
            assert(w[i] == u[i]);
            assert(is_digit(u[i]));
        }
    }
}

/// Law: a text holding a character that is no digit, other than a single
/// leading `+`, reads as nothing; so does the empty text.
pub proof fn lemma_parse_refuses_non_digit(s: Seq<char>, i: int)
    requires
        0 <= i < s.len(),
        !is_digit(s[i]),
        !(i == 0 && s[0] == '+'),
    ensures
        spec_parse_usize(s) is None,
        spec_parse_usize(Seq::empty()) is None,
{
    let u = unsigned_digits(s);
    if s[0] == '+' {
        assert(u[i - 1] == s[i]);
    } else {
        assert(u[i] == s[i]);
    }
}

} // verus!
