//! Reading the placeholders of a `format!` string: `{` with an optional
//! argument position, an optional format spec and optional white space, then
//! `}`; and writing a text argument the way such a placeholder asks.

use vstd::prelude::*;

use crate::address::is_white_space;
use crate::decimal::{digits_value, is_digit, lemma_digits_value_push};
use crate::text::push_char;

verus! {

/// Where a padded text goes within its width.
#[derive(Debug, Clone, Copy, PartialEq, Eq, Structural)]
pub enum Align {
    Left,
    Center,
    Right,
}

/// A placeholder as read: whether it names the argument by position, the
/// fill character, the alignment, the width and the precision.
#[derive(Debug, Clone, Copy, PartialEq, Eq, Structural)]
pub struct Placeholder {
    pub explicit: bool,
    pub fill: char,
    pub align: Align,
    pub width: Option<usize>,
    pub precision: Option<usize>,
}

/// The largest width or precision read.
pub const MAX_COUNT: usize = 65535;

/// Position `i` of `t` holds the character `ch`.
pub open spec fn char_at(t: Seq<char>, i: int, ch: char) -> bool {
    0 <= i < t.len() && t[i] == ch
}

/// Position `i` of `t` holds an ASCII digit.
pub open spec fn digit_at(t: Seq<char>, i: int) -> bool {
    0 <= i < t.len() && is_digit(t[i])
}

/// The end of the run of ASCII digits that starts at `j`.
pub open spec fn digit_run_end(t: Seq<char>, j: int) -> int
    decreases t.len() - j,
{
    if digit_at(t, j) {
        digit_run_end(t, j + 1)
    } else {
        j
    }
}

/// The number that the run of ASCII digits at `j` denotes.
pub open spec fn run_value(t: Seq<char>, j: int) -> nat {
    digits_value(t.subrange(j, digit_run_end(t, j)))
}

/// The end of the run of white space that starts at `j`.
pub open spec fn white_run_end(t: Seq<char>, j: int) -> int
    decreases t.len() - j,
{
    if 0 <= j < t.len() && is_white_space(t[j]) {
        white_run_end(t, j + 1)
    } else {
        j
    }
}

/// `c` is one of the alignment marks `<`, `^`, `>`.
pub open spec fn is_align(c: char) -> bool {
    c == '<' || c == '^' || c == '>'
}

/// The alignment that the mark `c` stands for.
pub open spec fn align_of(c: char) -> Align {
    if c == '<' {
        Align::Left
    } else if c == '^' {
        Align::Center
    } else {
        Align::Right
    }
}

/// A width or precision written as digits at `j` (a digit is there): its
/// value and the position after it; `None` when it is larger than
/// `MAX_COUNT` or is an argument position followed by `$`.
pub open spec fn spec_count(t: Seq<char>, j: int) -> Option<(usize, int)> {
    let e = digit_run_end(t, j);
    if run_value(t, j) <= MAX_COUNT && !char_at(t, e, '$') {
        Some((run_value(t, j) as usize, e))
    } else {
        None
    }
}

/// The end of a placeholder whose parts end at `j`: white space, then `}`.
pub open spec fn spec_close(t: Seq<char>, j: int, ph: Placeholder) -> Option<(Placeholder, int)> {
    let k = white_run_end(t, j);
    if char_at(t, k, '}') {
        Some((ph, k + 1))
    } else {
        None
    }
}

/// The precision part at `j`, and the close.
pub open spec fn spec_after_width(
    t: Seq<char>,
    j: int,
    explicit: bool,
    fill: char,
    align: Align,
    width: Option<usize>,
) -> Option<(Placeholder, int)> {
    if char_at(t, j, '.') {
        if digit_at(t, j + 1) {
            match spec_count(t, j + 1) {
                Some((p, e)) => spec_close(
                    t,
                    e,
                    Placeholder { explicit, fill, align, width, precision: Some(p) },
                ),
                None => None,
            }
        } else {
            None
        }
    } else {
        spec_close(t, j, Placeholder { explicit, fill, align, width, precision: None })
    }
}

/// The fill and alignment at `j`: a character followed by a mark, a mark
/// alone, or neither (space, left).
pub open spec fn spec_fill_align(t: Seq<char>, j: int) -> (char, Align, int) {
    if 0 <= j && j + 1 < t.len() && is_align(t[j + 1]) {
        (t[j], align_of(t[j + 1]), j + 2)
    } else if 0 <= j < t.len() && is_align(t[j]) {
        (' ', align_of(t[j]), j + 1)
    } else {
        (' ', Align::Left, j)
    }
}

/// The format spec that starts at `j` (after `:`), and the close. Only fill,
/// alignment, width and precision are read; a flag (`+`, `-`, `#`, `0`), a
/// type (such as `?`) or a count given by argument is refused.
pub open spec fn spec_format_spec(t: Seq<char>, j: int, explicit: bool) -> Option<(Placeholder, int)> {
    let (fill, align, j2) = spec_fill_align(t, j);
    if char_at(t, j2, '0') {
        None
    } else if digit_at(t, j2) {
        match spec_count(t, j2) {
            Some((w, e)) => spec_after_width(t, e, explicit, fill, align, Some(w)),
            None => None,
        }
    } else {
        spec_after_width(t, j2, explicit, fill, align, None)
    }
}

/// The placeholder that starts with the `{` at `i` (not followed by another
/// `{`), and the position after its `}`. The argument may be given by
/// position, which must be `0`; a name or another position is refused.
pub open spec fn spec_placeholder(t: Seq<char>, i: int) -> Option<(Placeholder, int)> {
    let j0 = i + 1;
    if digit_at(t, j0) && run_value(t, j0) != 0 {
        None
    } else {
        let explicit = digit_at(t, j0);
        let j1 = if explicit {
            digit_run_end(t, j0)
        } else {
            j0
        };
        if char_at(t, j1, ':') {
            spec_format_spec(t, j1 + 1, explicit)
        } else {
            spec_close(
                t,
                j1,
                Placeholder { explicit, fill: ' ', align: Align::Left, width: None, precision: None },
            )
        }
    }
}

/// `n` copies of `c`.
pub open spec fn repeat_char(c: char, n: nat) -> Seq<char> {
    Seq::new(n, |_i: int| c)
}

/// The text `c` as the placeholder `ph` writes it, as `Formatter::pad` does:
/// cut to the precision (in characters), then filled out to the width with
/// the fill character, placed by the alignment (centred text takes the
/// smaller half of the fill before it).
pub open spec fn spec_render(c: Seq<char>, ph: Placeholder) -> Seq<char> {
    let s = match ph.precision {
        Some(p) => if (p as nat) < c.len() {
            c.take(p as int)
        } else {
            c
        },
        None => c,
    };
    match ph.width {
        Some(w) => if s.len() < w {
            let pad = (w - s.len()) as nat;
            let pre: nat = match ph.align {
                Align::Left => 0,
                Align::Right => pad,
                Align::Center => pad / 2,
            };
            repeat_char(ph.fill, pre) + s + repeat_char(ph.fill, (pad - pre) as nat)
        } else {
            s
        },
        None => s,
    }
}

/// The end of the run of ASCII digits at `j` and, when it is at most
/// `MAX_COUNT`, the number it denotes.
fn digit_run(text: &str, n: usize, j: usize) -> (r: (usize, usize, bool))
    requires
        n == text@.len(),
        j <= n,
    ensures
        r.0 == digit_run_end(text@, j as int),
        j <= r.0 <= n,
        r.2 == (run_value(text@, j as int) <= MAX_COUNT),
        r.2 ==> r.1 == run_value(text@, j as int),
{
    let ghost t = text@;
    let mut k: usize = j;
    let mut value: usize = 0;
    let mut fits = true;
    assert(t.subrange(j as int, j as int) =~= Seq::<char>::empty());
    while has_digit(text, n, k)
        invariant
            t == text@,
            n == t.len(),
            j <= k <= n,
            digit_run_end(t, j as int) == digit_run_end(t, k as int),
            fits == (digits_value(t.subrange(j as int, k as int)) <= MAX_COUNT),
            fits ==> value == digits_value(t.subrange(j as int, k as int)),
        decreases n - k,
    {
        let d = text.get_char(k) as u32 - 48;
        assert(digit_at(t, k as int));
        assert(t.subrange(j as int, k + 1) =~= t.subrange(j as int, k as int).push(t[k as int]));
        proof {
            lemma_digits_value_push(t.subrange(j as int, k as int), t[k as int]);
        }
        if fits {
            if value <= 6553 {
                let v = value * 10 + d as usize;
                if v <= MAX_COUNT {
                    value = v;
                } else {
                    fits = false;
                }
            } else {
                fits = false;
            }
        }
        k = k + 1;
    }
    (k, value, fits)
}

/// Whether `c` has Unicode's `White_Space` property.
fn white_space(c: char) -> (r: bool)
    ensures
        r == is_white_space(c),
{
    let x = c as u32;
    (0x09 <= x && x <= 0x0d) || x == 0x20 || x == 0x85 || x == 0xa0 || x == 0x1680 || (0x2000 <= x
        && x <= 0x200a) || x == 0x2028 || x == 0x2029 || x == 0x202f || x == 0x205f || x == 0x3000
}

/// The end of the run of white space at `j`.
fn white_run(text: &str, n: usize, j: usize) -> (r: usize)
    requires
        n == text@.len(),
        j <= n,
    ensures
        r == white_run_end(text@, j as int),
        j <= r <= n,
{
    let mut k = j;
    while k < n && white_space(text.get_char(k))
        invariant
            n == text@.len(),
            j <= k <= n,
            white_run_end(text@, j as int) == white_run_end(text@, k as int),
        decreases n - k,
    {
        k = k + 1;
    }
    k
}

/// Whether position `j` holds `ch`.
fn has_char(text: &str, n: usize, j: usize, ch: char) -> (r: bool)
    requires
        n == text@.len(),
    ensures
        r == char_at(text@, j as int, ch),
{
    j < n && text.get_char(j) == ch
}

/// Whether position `j` holds an ASCII digit.
fn has_digit(text: &str, n: usize, j: usize) -> (r: bool)
    requires
        n == text@.len(),
    ensures
        r == digit_at(text@, j as int),
{
    if j < n {
        let ch = text.get_char(j);
        '0' <= ch && ch <= '9'
    } else {
        false
    }
}

/// The alignment mark at `j`, if there is one.
fn align_at(text: &str, n: usize, j: usize) -> (r: Option<Align>)
    requires
        n == text@.len(),
    ensures
        match r {
            Some(a) => 0 <= j < n && is_align(text@[j as int]) && a == align_of(text@[j as int]),
            None => !(0 <= j < n && is_align(text@[j as int])),
        },
{
    if j < n {
        let ch = text.get_char(j);
        if ch == '<' {
            Some(Align::Left)
        } else if ch == '^' {
            Some(Align::Center)
        } else if ch == '>' {
            Some(Align::Right)
        } else {
            None
        }
    } else {
        None
    }
}

/// A count (width or precision) at `j`, where a digit stands.
fn read_count(text: &str, n: usize, j: usize) -> (r: Option<(usize, usize)>)
    requires
        n == text@.len(),
        j <= n,
    ensures
        match r {
            Some((v, e)) => spec_count(text@, j as int) == Some((v, e as int)) && j <= e <= n,
            None => spec_count(text@, j as int) is None,
        },
{
    let (e, v, fits) = digit_run(text, n, j);
    if fits && !has_char(text, n, e, '$') {
        Some((v, e))
    } else {
        None
    }
}

/// The close of a placeholder whose parts end at `j`.
fn read_close(text: &str, n: usize, j: usize, ph: Placeholder) -> (r: Option<(Placeholder, usize)>)
    requires
        n == text@.len(),
        j <= n,
    ensures
        match r {
            Some((p, e)) => spec_close(text@, j as int, ph) == Some((p, e as int)) && j < e <= n,
            None => spec_close(text@, j as int, ph) is None,
        },
{
    let k = white_run(text, n, j);
    if has_char(text, n, k, '}') {
        Some((ph, k + 1))
    } else {
        None
    }
}

/// The precision part at `j`, and the close.
fn read_after_width(
    text: &str,
    n: usize,
    j: usize,
    explicit: bool,
    fill: char,
    align: Align,
    width: Option<usize>,
) -> (r: Option<(Placeholder, usize)>)
    requires
        n == text@.len(),
        j <= n,
    ensures
        match r {
            Some((p, e)) => spec_after_width(text@, j as int, explicit, fill, align, width) == Some(
                (p, e as int),
            ) && j < e <= n,
            None => spec_after_width(text@, j as int, explicit, fill, align, width) is None,
        },
{
    if has_char(text, n, j, '.') {
        if has_digit(text, n, j + 1) {
            match read_count(text, n, j + 1) {
                Some((p, e)) => read_close(
                    text,
                    n,
                    e,
                    Placeholder { explicit, fill, align, width, precision: Some(p) },
                ),
                None => None,
            }
        } else {
            None
        }
    } else {
        read_close(text, n, j, Placeholder { explicit, fill, align, width, precision: None })
    }
}

/// The format spec that starts at `j`, and the close.
fn read_format_spec(text: &str, n: usize, j: usize, explicit: bool) -> (r: Option<(Placeholder, usize)>)
    requires
        n == text@.len(),
        j <= n,
    ensures
        match r {
            Some((p, e)) => spec_format_spec(text@, j as int, explicit) == Some((p, e as int)) && j
                < e <= n,
            None => spec_format_spec(text@, j as int, explicit) is None,
        },
{
    let second = if j < n {
        align_at(text, n, j + 1)
    } else {
        None
    };
    let (fill, align, j2): (char, Align, usize) = match second {
        Some(a) => (text.get_char(j), a, j + 2),
        None => match align_at(text, n, j) {
            Some(a) => (' ', a, j + 1),
            None => (' ', Align::Left, j),
        },
    };
    assert(spec_fill_align(text@, j as int) == (fill, align, j2 as int));
    if has_char(text, n, j2, '0') {
        None
    } else if has_digit(text, n, j2) {
        match read_count(text, n, j2) {
            Some((w, e)) => read_after_width(text, n, e, explicit, fill, align, Some(w)),
            None => None,
        }
    } else {
        read_after_width(text, n, j2, explicit, fill, align, None)
    }
}

/// Reads the placeholder whose `{` stands at `i`: what it asks for and the
/// position after its `}`; `None` where it is not one that is read.
pub fn read_placeholder(text: &str, i: usize) -> (r: Option<(Placeholder, usize)>)
    requires
        i < text@.len(),
    ensures
        match r {
            Some((p, e)) => spec_placeholder(text@, i as int) == Some((p, e as int)) && i < e
                <= text@.len(),
            None => spec_placeholder(text@, i as int) is None,
        },
{
    let n = text.unicode_len();
    let j0 = i + 1;
    let explicit = has_digit(text, n, j0);
    let mut j1 = j0;
    if explicit {
        let (e, v, fits) = digit_run(text, n, j0);
        if !(fits && v == 0) {
            return None;
        }
        j1 = e;
    }
    if has_char(text, n, j1, ':') {
        read_format_spec(text, n, j1 + 1, explicit)
    } else {
        read_close(
            text,
            n,
            j1,
            Placeholder { explicit, fill: ' ', align: Align::Left, width: None, precision: None },
        )
    }
}

/// Appends `count` copies of `fill` to `out`.
fn push_fill(out: &mut String, fill: char, count: usize)
    ensures
        final(out)@ == old(out)@ + repeat_char(fill, count as nat),
{
    let ghost start = out@;
    let mut k: usize = 0;
    while k < count
        invariant
            k <= count,
            out@ == start + repeat_char(fill, k as nat),
        decreases count - k,
    {
        push_char(out, fill);
        proof {
            assert(start + repeat_char(fill, (k + 1) as nat) =~= (start + repeat_char(
                fill,
                k as nat,
            )).push(fill));
        }
        k = k + 1;
    }
}

/// Appends `content` as the placeholder `ph` writes it.
pub fn push_rendered(out: &mut String, content: &str, ph: Placeholder)
    ensures
        final(out)@ == old(out)@ + spec_render(content@, ph),
{
    let len = content.unicode_len();
    let shown: &str = match ph.precision {
        Some(p) => if p < len {
            content.substring_char(0, p)
        } else {
            content
        },
        None => content,
    };
    let shown_len = shown.unicode_len();
    match ph.width {
        Some(w) => {
            if shown_len < w {
                let pad = w - shown_len;
                let pre = match ph.align {
                    Align::Left => 0,
                    Align::Right => pad,
                    Align::Center => pad / 2,
                };
                push_fill(out, ph.fill, pre);
                out.append(shown);
                push_fill(out, ph.fill, pad - pre);
            } else {
                out.append(shown);
            }
        },
        None => {
            out.append(shown);
        },
    }
    proof {
        assert(final(out)@ =~= old(out)@ + spec_render(content@, ph));
    }
}

} // verus!

verus! {

/// How many characters of `c` the placeholder `ph` shows: all, or as many as
/// its precision allows.
pub open spec fn shown_len(c: Seq<char>, ph: Placeholder) -> nat {
    match ph.precision {
        Some(p) => if (p as nat) < c.len() {
            p as nat
        } else {
            c.len()
        },
        None => c.len(),
    }
}

/// The length a placeholder asks for: its width when the shown text is
/// shorter, else the length of the shown text.
pub open spec fn total_len(c: Seq<char>, ph: Placeholder) -> nat {
    match ph.width {
        Some(w) => if shown_len(c, ph) < w {
            w as nat
        } else {
            shown_len(c, ph)
        },
        None => shown_len(c, ph),
    }
}

/// `r` holds the first `shown_len` characters of `c` from position `pre` on,
/// the fill everywhere else, has the length `total_len`, and `pre` is where
/// the alignment puts the text.
pub open spec fn laid_out(c: Seq<char>, ph: Placeholder, r: Seq<char>, pre: int) -> bool {
    let shown = shown_len(c, ph);
    let total = total_len(c, ph);
    &&& 0 <= pre && pre + shown <= total && r.len() == total
    &&& r.subrange(pre, pre + shown) == c.take(shown as int)
    &&& forall|k: int| 0 <= k < total && !(pre <= k < pre + shown) ==> r[k] == ph.fill
    &&& ph.align == Align::Left ==> pre == 0
    &&& ph.align == Align::Right ==> pre + shown == total
    &&& ph.align == Align::Center ==> pre == (total - shown) / 2
}

/// Law: how a placeholder lays out its argument. The argument, cut to the
/// precision when it is longer, stands once and unchanged in the result; the
/// result is as long as the width asks when the text is shorter, else the
/// text alone; every other character is the fill; the text starts the result
/// when aligned left, ends it when aligned right, and has the smaller half of
/// the fill before it when centred.
pub proof fn lemma_render_layout(c: Seq<char>, ph: Placeholder)
    ensures
        exists|pre: int| #[trigger] laid_out(c, ph, spec_render(c, ph), pre),
{
    let shown = shown_len(c, ph);
    let s = c.take(shown as int);
    assert(s =~= match ph.precision {
        Some(p) => if (p as nat) < c.len() {
            c.take(p as int)
        } else {
            c
        },
        None => c,
    });
    let r = spec_render(c, ph);
    match ph.width {
        Some(w) => {
            if shown < w {
                let pad = (w - shown) as nat;
                let pre: nat = match ph.align {
                    Align::Left => 0,
                    Align::Right => pad,
                    Align::Center => pad / 2,
                };
                assert(r == repeat_char(ph.fill, pre) + s + repeat_char(ph.fill, (pad - pre) as nat));
                assert(r.subrange(pre as int, pre + shown as int) =~= s);
                assert forall|k: int| 0 <= k < w && !(pre <= k < pre + shown) implies r[k]
                    == ph.fill by {
                    if k < pre {
                        assert(r[k] == repeat_char(ph.fill, pre)[k]);
                    } else {
                        assert(r[k] == repeat_char(ph.fill, (pad - pre) as nat)[k - pre - shown]);
                    }
                }
                assert(laid_out(c, ph, r, pre as int));
            } else {
                assert(r == s);
                assert(r.subrange(0, shown as int) =~= s);
                assert(laid_out(c, ph, r, 0));
            }
        },
        None => {
            assert(r == s);
            assert(r.subrange(0, shown as int) =~= s);
            assert(laid_out(c, ph, r, 0));
        },
    }
}

} // verus!

verus! {

/// A run of digits from `j` up to a non-digit at `k` ends at `k` and
/// denotes the number its characters denote.
proof fn lemma_digit_run(u: Seq<char>, j: int, k: int)
    requires
        0 <= j <= k <= u.len(),
        forall|m: int| j <= m < k ==> is_digit(#[trigger] u[m]),
        k < u.len() ==> !is_digit(u[k]),
    ensures
        digit_run_end(u, j) == k,
    decreases k - j,
{
    if j < k {
        lemma_digit_run(u, j + 1, k);
    }
}

/// Law: a placeholder written with a fill character, an alignment mark, a
/// width and a precision in decimal text is read as exactly that fill,
/// alignment, width and precision, up to its closing brace.
pub proof fn lemma_placeholder_reads_spec(f: char, a: char, w: usize, p: usize)
    requires
        is_align(a),
        1 <= w <= MAX_COUNT,
        p <= MAX_COUNT,
    ensures
        ({
            let u = seq!['{', ':', f, a] + crate::decimal::spec_decimal(w as nat) + seq!['.']
                + crate::decimal::spec_decimal(p as nat) + seq!['}'];
            spec_placeholder(u, 0) == Some(
                (
                    Placeholder {
                        explicit: false,
                        fill: f,
                        align: align_of(a),
                        width: Some(w),
                        precision: Some(p),
                    },
                    u.len() as int,
                ),
            )
        }),
{
    let dw = crate::decimal::spec_decimal(w as nat);
    let dp = crate::decimal::spec_decimal(p as nat);
    crate::decimal::lemma_decimal_shape(w as nat);
    crate::decimal::lemma_decimal_shape(p as nat);
    let u = seq!['{', ':', f, a] + dw + seq!['.'] + dp + seq!['}'];
    let lw = dw.len() as int;
    let lp = dp.len() as int;
    assert(u.len() == 6 + lw + lp);
    assert forall|m: int| 4 <= m < 4 + lw implies is_digit(#[trigger] u[m]) by {
        assert(u[m] == dw[m - 4]);
        assert(is_digit(dw[m - 4]));
    }
    assert(u[4 + lw] == '.');
    lemma_digit_run(u, 4, 4 + lw);
    assert(u.subrange(4, 4 + lw) =~= dw);
    assert forall|m: int| 5 + lw <= m < 5 + lw + lp implies is_digit(#[trigger] u[m]) by {
        assert(u[m] == dp[m - 5 - lw]);
        assert(is_digit(dp[m - 5 - lw]));
    }
    assert(u[5 + lw + lp] == '}');
    lemma_digit_run(u, 5 + lw, 5 + lw + lp);
    assert(u.subrange(5 + lw, 5 + lw + lp) =~= dp);
    assert(u[4] == dw[0]);
    assert(u[4] != '0');
    assert(is_digit(u[4]));
    assert(is_digit(u[5 + lw]));
    assert(white_run_end(u, 5 + lw + lp) == 5 + lw + lp);
}

} // verus!
