//! The HTML rows that list the entries of a directory.

use vstd::prelude::*;

use crate::template::{
    char_at, push_rendered, read_placeholder, spec_placeholder, spec_render, white_run_end, Align,
    Placeholder,
};

verus! {

/// The table cells that list the names `names`, in order: one
/// `<td>name</td>` line per name.
pub open spec fn spec_file_cells(names: Seq<Seq<char>>) -> Seq<char>
    decreases names.len(),
{
    if names.len() == 0 {
        Seq::empty()
    } else {
        spec_file_cells(names.drop_last()) + "<td>"@ + names.last() + "</td>\n"@
    }
}

/// The cells that list the entry names `names`, in order.
pub fn file_cells(names: &Vec<String>) -> (r: String)
    ensures
        r@ == spec_file_cells(names@.map_values(|n: String| n@)),
{
    let ghost views = names@.map_values(|n: String| n@);
    let mut out = String::new();
    let mut i: usize = 0;
    while i < names.len()
        invariant
            i <= names.len(),
            views == names@.map_values(|n: String| n@),
            out@ == spec_file_cells(views.take(i as int)),
        decreases names.len() - i,
    {
        out.append("<td>");
        out.append(names[i].as_str());
        out.append("</td>\n");
        proof {
            assert(views.take(i + 1).drop_last() =~= views.take(i as int));
            assert(views.take(i + 1).last() == names@[i as int]@);
        }
        i = i + 1;
    }
    proof {
        assert(views.take(names.len() as int) =~= views);
    }
    out
}

/// Law: listing one more entry appends exactly its cell, after the cells of
/// the entries before it; no entries give no cells. So a listing holds one
/// cell per entry, in order, whatever the number of entries.
pub proof fn lemma_cells_append(names: Seq<Seq<char>>, x: Seq<char>)
    ensures
        spec_file_cells(names.push(x)) == spec_file_cells(names) + "<td>"@ + x + "</td>\n"@,
        spec_file_cells(Seq::empty()) == Seq::<char>::empty(),
{
    assert(names.push(x).drop_last() =~= names);
}

/// Law: the listing of a single entry is its one cell.
pub proof fn lemma_cells_single(x: Seq<char>)
    ensures
        spec_file_cells(seq![x]) == "<td>"@ + x + "</td>\n"@,
{
    lemma_cells_append(Seq::empty(), x);
    assert(Seq::<Seq<char>>::empty().push(x) =~= seq![x]);
    assert(Seq::<char>::empty() + "<td>"@ =~= "<td>"@);
}

/// `piece`, with `implicit` more placeholders without a position and
/// `explicit` more with one, put before what reading the rest gave.
pub open spec fn prepend_piece(
    piece: Seq<char>,
    implicit: nat,
    explicit: nat,
    rest: Option<(Seq<char>, nat, nat)>,
) -> Option<(Seq<char>, nat, nat)> {
    match rest {
        Some((out, a, b)) => Some((piece + out, a + implicit, b + explicit)),
        None => None,
    }
}

/// Reads the format string `t` from position `i` on, as `format!` does with
/// one text argument `c`: `{{` stands for `{`, `}}` for `}`, and a
/// placeholder for `c` written as it asks; a lone `}` or a placeholder that
/// is not read is refused (`None`). Gives the text, the number of
/// placeholders without a position and the number with one.
pub open spec fn format_from(t: Seq<char>, c: Seq<char>, i: int) -> Option<(Seq<char>, nat, nat)>
    decreases t.len() - i,
{
    if i < 0 || i >= t.len() {
        Some((Seq::empty(), 0, 0))
    } else if char_at(t, i, '{') && char_at(t, i + 1, '{') {
        prepend_piece(seq!['{'], 0, 0, format_from(t, c, i + 2))
    } else if char_at(t, i, '}') && char_at(t, i + 1, '}') {
        prepend_piece(seq!['}'], 0, 0, format_from(t, c, i + 2))
    } else if char_at(t, i, '{') {
        match spec_placeholder(t, i) {
            Some((ph, e)) => if i < e <= t.len() {
                prepend_piece(
                    spec_render(c, ph),
                    if ph.explicit {
                        0
                    } else {
                        1
                    },
                    if ph.explicit {
                        1
                    } else {
                        0
                    },
                    format_from(t, c, e),
                )
            } else {
                None
            },
            None => None,
        }
    } else if char_at(t, i, '}') {
        None
    } else {
        prepend_piece(seq![t[i]], 0, 0, format_from(t, c, i + 1))
    }
}

/// What `format!(t, c)` gives for the format string `t` and one text
/// argument `c`: `None` where `format!` would refuse the string for one
/// argument (a lone brace, a name or a position other than `0`, more than
/// one placeholder without a position, or no placeholder at all), and where
/// a placeholder carries what is not read: a flag, a type such as `?`, a
/// width or precision given by argument or above `MAX_COUNT`.
pub open spec fn spec_format_one(t: Seq<char>, c: Seq<char>) -> Option<Seq<char>> {
    match format_from(t, c, 0) {
        Some((out, implicit, explicit)) => if implicit <= 1 && implicit + explicit >= 1 {
            Some(out)
        } else {
            None
        },
        None => None,
    }
}

/// `t` holds no brace.
pub open spec fn no_braces(t: Seq<char>) -> bool {
    forall|i: int| 0 <= i < t.len() ==> t[i] != '{' && t[i] != '}'
}

/// Reading a brace-free run `t` that stands after `pre` copies it: from
/// position `j` of the run on, the result is the rest of the run followed by
/// what reading after the run gives.
proof fn lemma_literal_run(pre: Seq<char>, t: Seq<char>, tail: Seq<char>, c: Seq<char>, j: int)
    requires
        no_braces(t),
        0 <= j <= t.len(),
        format_from(pre + t + tail, c, (pre.len() + t.len()) as int) is Some,
    ensures
        format_from(pre + t + tail, c, pre.len() + j) == prepend_piece(
            t.skip(j),
            0,
            0,
            format_from(pre + t + tail, c, (pre.len() + t.len()) as int),
        ),
    decreases t.len() - j,
{
    let u = pre + t + tail;
    let rest = format_from(u, c, (pre.len() + t.len()) as int);
    if j == t.len() {
        match rest {
            Some((o, a, b)) => {
                assert(t.skip(j) + o =~= o);
            },
            None => {},
        }
    } else {
        lemma_literal_run(pre, t, tail, c, j + 1);
        assert(u[pre.len() + j] == t[j]);
        match rest {
            Some((o, a, b)) => {
                assert(seq![t[j]] + (t.skip(j + 1) + o) =~= t.skip(j) + o);
            },
            None => {},
        }
    }
}

/// Reading `{}` at position `i` writes the argument as it is, and what
/// follows is read from after the `}`.
proof fn lemma_plain_placeholder(u: Seq<char>, c: Seq<char>, i: int)
    requires
        0 <= i,
        i + 1 < u.len(),
        u[i] == '{',
        u[i + 1] == '}',
        format_from(u, c, i + 2) is Some,
    ensures
        format_from(u, c, i) == prepend_piece(c, 1, 0, format_from(u, c, i + 2)),
{
    assert(white_run_end(u, i + 1) == i + 1);
    let ph = Placeholder { explicit: false, fill: ' ', align: Align::Left, width: None, precision: None };
    assert(spec_placeholder(u, i) == Some((ph, i + 2)));
    assert(spec_render(c, ph) == c);
}

/// Law: the text of a template around its placeholder is copied as it is:
/// for a text `t` without braces, `t` followed by `{}` gives `t` followed by
/// the argument.
pub proof fn lemma_literal_text_copied(t: Seq<char>, c: Seq<char>)
    requires
        no_braces(t),
    ensures
        spec_format_one(t + "{}"@, c) == Some(t + c),
{
    reveal_strlit("{}");
    let tail = seq!['{', '}'];
    assert("{}"@ =~= tail);
    let e = Seq::<char>::empty();
    let u = e + t + tail;
    assert(u =~= t + "{}"@);
    assert(format_from(u, c, t.len() + 2int) == Some((e, 0nat, 0nat)));
    lemma_plain_placeholder(u, c, t.len() as int);
    assert(c + e =~= c);
    lemma_literal_run(e, t, tail, c, 0);
    assert(t.skip(0) + c =~= t + c);
}

/// Law: the text on both sides of the placeholder is copied as it is: for
/// texts `a` and `b` without braces, `a`, `{}`, `b` gives `a`, the argument,
/// `b`.
pub proof fn lemma_text_around_placeholder(a: Seq<char>, b: Seq<char>, c: Seq<char>)
    requires
        no_braces(a),
        no_braces(b),
    ensures
        spec_format_one(a + "{}"@ + b, c) == Some(a + c + b),
{
    reveal_strlit("{}");
    let brace = seq!['{', '}'];
    assert("{}"@ =~= brace);
    let e = Seq::<char>::empty();
    let u = a + brace + b;
    let n = u.len() as int;
    assert(u =~= (a + brace) + b + e);
    assert(format_from(u, c, n) == Some((e, 0nat, 0nat)));
    lemma_literal_run(a + brace, b, e, c, 0);
    assert(b.skip(0) + e =~= b);
    assert(format_from(u, c, a.len() + 2int) == Some((b, 0nat, 0nat)));
    lemma_plain_placeholder(u, c, a.len() as int);
    assert(u =~= e + a + (brace + b));
    lemma_literal_run(e, a, brace + b, c, 0);
    assert(a.skip(0) + (c + b) =~= a + c + b);
}

/// Law: doubled braces stand for single ones: for a text `t` without braces,
/// `{{`, `t`, `}}` and then `{}` give `{`, `t`, `}` and then the argument.
pub proof fn lemma_doubled_braces(t: Seq<char>, c: Seq<char>)
    requires
        no_braces(t),
    ensures
        spec_format_one("{{"@ + t + "}}"@ + "{}"@, c) == Some(seq!['{'] + t + seq!['}'] + c),
{
    reveal_strlit("{{");
    reveal_strlit("}}");
    reveal_strlit("{}");
    let pre = seq!['{', '{'];
    let tail = seq!['}', '}', '{', '}'];
    let u = pre + t + tail;
    assert(u =~= "{{"@ + t + "}}"@ + "{}"@);
    let m = (pre.len() + t.len()) as int;
    let e = Seq::<char>::empty();
    assert(format_from(u, c, m + 4) == Some((e, 0nat, 0nat)));
    assert(u[m + 2] == '{' && u[m + 3] == '}');
    lemma_plain_placeholder(u, c, m + 2);
    assert(u[m] == '}' && u[m + 1] == '}');
    assert(format_from(u, c, m) == prepend_piece(seq!['}'], 0, 0, format_from(u, c, m + 2)));
    lemma_literal_run(pre, t, tail, c, 0);
    assert(u[0] == '{' && u[1] == '{');
    assert(format_from(u, c, 0) == prepend_piece(seq!['{'], 0, 0, format_from(u, c, 2)));
    assert(seq!['{'] + (t.skip(0) + (seq!['}'] + (c + e))) =~= seq!['{'] + t + seq!['}'] + c);
}

proof fn lemma_prepend_twice(
    p1: Seq<char>,
    a1: nat,
    b1: nat,
    p2: Seq<char>,
    a2: nat,
    b2: nat,
    rest: Option<(Seq<char>, nat, nat)>,
)
    ensures
        prepend_piece(p1, a1, b1, prepend_piece(p2, a2, b2, rest)) == prepend_piece(
            p1 + p2,
            a1 + a2,
            b1 + b2,
            rest,
        ),
{
    match rest {
        Some((out, a, b)) => {
            assert(p1 + (p2 + out) =~= (p1 + p2) + out);
        },
        None => {},
    }
}

/// Formats `template` with the one text argument `content`, as
/// `format!(template, content)` does: `{{` and `}}` give single braces, and
/// each placeholder gives `content` cut and padded as its fill, alignment,
/// width and precision ask. `None` where `spec_format_one` is `None`.
pub fn fill_template(template: &str, content: &str) -> (r: Option<String>)
    ensures
        match r {
            Some(out) => spec_format_one(template@, content@) == Some(out@),
            None => spec_format_one(template@, content@) is None,
        },
{
    let ghost t = template@;
    let ghost c = content@;
    let n = template.unicode_len();
    let mut out = String::new();
    let mut implicit: usize = 0;
    let mut explicit: usize = 0;
    let mut i: usize = 0;
    assert(format_from(t, c, 0) == prepend_piece(out@, 0, 0, format_from(t, c, 0))) by {
        match format_from(t, c, 0) {
            Some((o, a, b)) => {
                assert(out@ + o =~= o);
            },
            None => {},
        }
    }
    while i < n
        invariant
            t == template@,
            c == content@,
            n == t.len(),
            i <= n,
            implicit <= i,
            explicit <= i,
            format_from(t, c, 0) == prepend_piece(
                out@,
                implicit as nat,
                explicit as nat,
                format_from(t, c, i as int),
            ),
        decreases n - i,
    {
        let ghost before = out@;
        let ch = template.get_char(i);
        let next = if i + 1 < n {
            Some(template.get_char(i + 1))
        } else {
            None
        };
        if ch == '{' && next == Some('{') {
            out.append("{");
            proof {
                reveal_strlit("{");
                lemma_prepend_twice(before, implicit as nat, explicit as nat, seq!['{'], 0, 0, format_from(t, c, i + 2));
            }
            i = i + 2;
        } else if ch == '}' && next == Some('}') {
            out.append("}");
            proof {
                reveal_strlit("}");
                lemma_prepend_twice(before, implicit as nat, explicit as nat, seq!['}'], 0, 0, format_from(t, c, i + 2));
            }
            i = i + 2;
        } else if ch == '{' {
            match read_placeholder(template, i) {
                None => {
                    return None;
                },
                Some((ph, e)) => {
                    push_rendered(&mut out, content, ph);
                    proof {
                        lemma_prepend_twice(
                            before,
                            implicit as nat,
                            explicit as nat,
                            spec_render(c, ph),
                            if ph.explicit { 0 } else { 1 },
                            if ph.explicit { 1 } else { 0 },
                            format_from(t, c, e as int),
                        );
                    }
                    if ph.explicit {
                        explicit = explicit + 1;
                    } else {
                        implicit = implicit + 1;
                    }
                    i = e;
                },
            }
        } else if ch == '}' {
            return None;
        } else {
            let piece = template.substring_char(i, i + 1);
            out.append(piece);
            proof {
                assert(piece@ =~= seq![t[i as int]]);
                lemma_prepend_twice(before, implicit as nat, explicit as nat, seq![t[i as int]], 0, 0, format_from(t, c, i + 1));
            }
            i = i + 1;
        }
    }
    assert(out@ + Seq::<char>::empty() =~= out@);
    if implicit <= 1 && (implicit == 1 || explicit >= 1) {
        Some(out)
    } else {
        None
    }
}

/// The listing of the entry names `names` formatted into `template` as
/// `format!(template, listing)` does; `None` where `fill_template` gives
/// `None`.
pub fn file_to_html(template: &str, names: &Vec<String>) -> (r: Option<String>)
    ensures
        match r {
            Some(out) => spec_format_one(template@, spec_file_cells(names@.map_values(|n: String| n@)))
                == Some(out@),
            None => spec_format_one(template@, spec_file_cells(names@.map_values(|n: String| n@))) is None,
        },
{
    let cells = file_cells(names);
    fill_template(template, cells.as_str())
}

} // verus!
