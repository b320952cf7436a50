//! Choosing, among the machine's interface addresses, the one to announce,
//! and the text under which the server is announced.

use vstd::prelude::*;

use crate::decimal::{padded2, parse_usize, push_decimal, spec_decimal, spec_padded2, spec_parse_usize};

verus! {

/// The position in the interface list that an empty answer chooses.
pub const DEFAULT_IP_IDX: usize = 1;

/// `c` has Unicode's `White_Space` property, by which `str::trim` goes: tab,
/// line feed, vertical tab, form feed, carriage return, space, next line,
/// no-break space, Ogham space mark, the spaces U+2000 to U+200A, line and
/// paragraph separators, narrow no-break space, medium mathematical space and
/// ideographic space.
pub open spec fn is_white_space(c: char) -> bool {
    let x = c as int;
    ||| 0x09 <= x <= 0x0d
    ||| x == 0x20
    ||| x == 0x85
    ||| x == 0xa0
    ||| x == 0x1680
    ||| 0x2000 <= x <= 0x200a
    ||| x == 0x2028
    ||| x == 0x2029
    ||| x == 0x202f
    ||| x == 0x205f
    ||| x == 0x3000
}

/// `s` without its leading white space.
pub open spec fn spec_trim_start(s: Seq<char>) -> Seq<char>
    decreases s.len(),
{
    if s.len() > 0 && is_white_space(s[0]) {
        spec_trim_start(s.drop_first())
    } else {
        s
    }
}

/// `s` without its trailing white space.
pub open spec fn spec_trim_end(s: Seq<char>) -> Seq<char>
    decreases s.len(),
{
    if s.len() > 0 && is_white_space(s.last()) {
        spec_trim_end(s.drop_last())
    } else {
        s
    }
}

/// What `str::trim` gives for `s`: `s` without its leading and trailing
/// white space.
pub open spec fn spec_trim(s: Seq<char>) -> Seq<char> {
    spec_trim_end(spec_trim_start(s))
}

/// Calls `str::trim`. Claimed: the result is `s` with its leading and
/// trailing characters of Unicode's `White_Space` property removed, as the
/// method's documentation defines it.
#[verifier::external_body]
fn trim_text(s: &str) -> (r: &str)
    ensures
        r@ == spec_trim(s@),
{
    s.trim()
}

/// The outcome of one answer to the address prompt.
#[derive(Debug, Clone, PartialEq, Eq)]
pub enum IpChoice {
    /// The position, in the interface list, of the chosen address.
    Chosen(usize),
    /// The answer chose nothing; the message says what is allowed.
    Retry(String),
}

/// The position that the trimmed answer `answer` chooses among `count`
/// addresses: the default for an empty answer, else the number the answer
/// reads as, when it is below `count`.
pub open spec fn spec_chosen_index(answer: Seq<char>, count: nat) -> Option<usize> {
    if answer.len() == 0 {
        Some(DEFAULT_IP_IDX)
    } else {
        match spec_parse_usize(answer) {
            Some(n) => if n < count {
                Some(n)
            } else {
                None
            },
            None => None,
        }
    }
}

/// The message that refuses the trimmed answer `answer` among `count` addresses.
pub open spec fn spec_retry_message(answer: Seq<char>, count: nat) -> Seq<char> {
    "only allows 0~"@ + spec_decimal((count - 1) as nat) + ", but got input "@ + answer
}

/// `choice` is what the trimmed answer `answer` gives among `count` addresses.
pub open spec fn choice_matches(choice: IpChoice, answer: Seq<char>, count: nat) -> bool {
    match choice {
        IpChoice::Chosen(i) => spec_chosen_index(answer, count) == Some(i),
        IpChoice::Retry(msg) => spec_chosen_index(answer, count) is None && msg@
            == spec_retry_message(answer, count),
    }
}

/// Decides on an already trimmed answer to the address prompt, with `count`
/// addresses on offer. An empty answer takes the default position; a number
/// below `count` takes that position; anything else asks again.
pub fn choose_ip(answer: &str, count: usize) -> (r: IpChoice)
    requires
        count > 0,
        answer@.len() == 0 ==> DEFAULT_IP_IDX < count,
    ensures
        choice_matches(r, answer@, count as nat),
{
    if answer.unicode_len() == 0 {
        return IpChoice::Chosen(DEFAULT_IP_IDX);
    }
    match parse_usize(answer) {
        Some(n) => {
            if n < count {
                return IpChoice::Chosen(n);
            }
        },
        None => {},
    }
    IpChoice::Retry(retry_message(answer, count))
}

/// The message that refuses `answer` when `count` addresses are on offer:
/// it names the allowed positions, `0` to `count - 1`, and quotes the answer.
pub fn retry_message(answer: &str, count: usize) -> (r: String)
    requires
        count > 0,
    ensures
        r@ == spec_retry_message(answer@, count as nat),
{
    let mut msg = String::new();
    msg.append("only allows 0~");
    push_decimal(&mut msg, count - 1);
    msg.append(", but got input ");
    msg.append(answer);
    proof {
        assert(msg@ =~= spec_retry_message(answer@, count as nat));
    }
    msg
}

/// Decides on a line typed at the address prompt, with `count` addresses on
/// offer: the line is trimmed and then decided on as `choose_ip` does.
/// `None` when the trimmed line is empty and there is no address at the
/// default position.
pub fn select_ip(line: &str, count: usize) -> (r: Option<IpChoice>)
    requires
        count > 0,
    ensures
        spec_trim(line@).len() == 0 && count <= DEFAULT_IP_IDX ==> r is None,
        !(spec_trim(line@).len() == 0 && count <= DEFAULT_IP_IDX) ==> (r matches Some(c)
            && choice_matches(c, spec_trim(line@), count as nat)),
{
    let answer = trim_text(line);
    if answer.unicode_len() == 0 && count <= DEFAULT_IP_IDX {
        None
    } else {
        Some(choose_ip(answer, count))
    }
}

/// The line that lists the address `ip` at position `n`: `[nn] ip`, with the
/// position padded with zeros to two digits.
pub fn ip_list_line(n: usize, ip: &str) -> (r: String)
    ensures
        r@ == "["@ + spec_padded2(n as nat) + "] "@ + ip@,
{
    let label = padded2(n);
    let mut out = String::new();
    out.append("[");
    out.append(label.as_str());
    out.append("] ");
    out.append(ip);
    proof {
        assert(out@ =~= "["@ + spec_padded2(n as nat) + "] "@ + ip@);
    }
    out
}

/// Law: typing back the position shown in the address list chooses that
/// address.
pub proof fn lemma_listed_position_is_chosen(n: usize, count: usize)
    requires
        n < count,
    ensures
        spec_chosen_index(spec_padded2(n as nat), count as nat) == Some(n),
{
    crate::decimal::lemma_parse_padded_roundtrip(n);
    crate::decimal::lemma_padded_nonempty(n);
}

/// The `host:port` part of the address under which the server is reached:
/// an IPv6 address goes in square brackets.
pub open spec fn spec_access_base_uri(ip: Seq<char>, port: u16, is_ipv6: bool) -> Seq<char> {
    if is_ipv6 {
        "["@ + ip + "]:"@ + spec_decimal(port as nat)
    } else {
        ip + ":"@ + spec_decimal(port as nat)
    }
}

/// The `host:port` part of the address under which the server is reached,
/// for the chosen address `ip` (of which `is_ipv6` tells the kind) and `port`.
pub fn access_base_uri(ip: &str, port: u16, is_ipv6: bool) -> (r: String)
    ensures
        r@ == spec_access_base_uri(ip@, port, is_ipv6),
{
    let mut out = String::new();
    if is_ipv6 {
        out.append("[");
        out.append(ip);
        out.append("]:");
    } else {
        out.append(ip);
        out.append(":");
    }
    push_decimal(&mut out, port as usize);
    proof {
        assert(out@ =~= spec_access_base_uri(ip@, port, is_ipv6));
    }
    out
}

/// The address the server listens on when the chosen one is not to be bound.
pub const ANY_ADDRESS: &'static str = "0.0.0.0";

/// The host the server binds: the chosen address when `bind_choose_ip` is
/// set, and `0.0.0.0` (every IPv4 interface) otherwise.
pub fn bind_host(chosen: &str, bind_choose_ip: bool) -> (r: String)
    ensures
        r@ == (if bind_choose_ip {
            chosen@
        } else {
            ANY_ADDRESS@
        }),
{
    let mut out = String::new();
    if bind_choose_ip {
        out.append(chosen);
    } else {
        out.append(ANY_ADDRESS);
    }
    proof {
        assert(out@ =~= (if bind_choose_ip {
            chosen@
        } else {
            ANY_ADDRESS@
        }));
    }
    out
}

/// The port the server binds for the port asked for: a port below 1024 is
/// replaced by `0`, which asks the system for a free port of its choosing.
pub fn listen_port(port: u16) -> (r: u16)
    ensures
        r == (if port < 1024 {
            0
        } else {
            port
        }),
{
    if port < 1024 {
        0
    } else {
        port
    }
}

/// The web address for the `host:port` text `base`.
pub fn access_url(base: &str) -> (r: String)
    ensures
        r@ == "http://"@ + base@,
{
    crate::text::concat2("http://", base)
}

} // verus!

verus! {

/// Law: an answer that reads as a number below the count of addresses
/// chooses that position, whatever its length or leading zeros.
pub proof fn lemma_typed_position_is_chosen(answer: Seq<char>, count: nat, n: usize)
    requires
        answer.len() > 0,
        spec_parse_usize(answer) == Some(n),
        n < count,
    ensures
        spec_chosen_index(answer, count) == Some(n),
{
}

/// Law: typing the plain decimal text of a position below the count of
/// addresses chooses that position.
pub proof fn lemma_decimal_position_is_chosen(n: usize, count: nat)
    requires
        n < count,
    ensures
        spec_chosen_index(spec_decimal(n as nat), count) == Some(n),
{
    crate::decimal::lemma_parse_decimal_roundtrip(n);
    crate::decimal::lemma_decimal_nonempty(n as nat);
}

/// Law: an answer that chooses something chooses a listed position (below
/// the count) or the default; an answer that reads as no number below the
/// count, and is not empty, chooses nothing.
pub proof fn lemma_choice_is_listed(answer: Seq<char>, count: nat)
    ensures
        answer.len() > 0 ==> (spec_chosen_index(answer, count) matches Some(i) ==> i < count
            && spec_parse_usize(answer) == Some(i)),
        answer.len() == 0 ==> spec_chosen_index(answer, count) == Some(DEFAULT_IP_IDX),
        answer.len() > 0 && !(spec_parse_usize(answer) matches Some(n) && n < count)
            ==> spec_chosen_index(answer, count) is None,
{
}

/// Law: the message that asks again names the last listed position, in
/// decimal text that reads back as `count - 1`, and ends with the answer.
pub proof fn lemma_retry_message_names_last_position(answer: Seq<char>, count: usize)
    requires
        count > 0,
    ensures
        exists|d: Seq<char>|
            spec_parse_usize(d) == Some((count - 1) as usize) && spec_retry_message(
                answer,
                count as nat,
            ) == "only allows 0~"@ + d + ", but got input "@ + answer,
        spec_retry_message(answer, count as nat).skip(
            spec_retry_message(answer, count as nat).len() - answer.len(),
        ) == answer,
{
    let d = spec_decimal((count - 1) as nat);
    crate::decimal::lemma_parse_decimal_roundtrip((count - 1) as usize);
    assert(spec_parse_usize(d) == Some((count - 1) as usize));
    let m = spec_retry_message(answer, count as nat);
    assert(m.skip(m.len() - answer.len()) =~= answer);
}

/// Law: the announced `host:port` is the host, a `:` and the port in decimal
/// text that reads back as the port; the host is the address in square
/// brackets when it is an IPv6 address and the bare address otherwise, on
/// every port.
pub proof fn lemma_base_uri_shape(ip: Seq<char>, port: u16, is_ipv6: bool)
    ensures
        exists|d: Seq<char>|
            spec_parse_usize(d) == Some(port as usize) && spec_access_base_uri(ip, port, is_ipv6)
                == (if is_ipv6 {
                "["@ + ip + "]"@
            } else {
                ip
            }) + ":"@ + d,
{
    let d = spec_decimal(port as nat);
    crate::decimal::lemma_parse_decimal_roundtrip(port as usize);
    assert(spec_parse_usize(d) == Some(port as usize));
    reveal_strlit("[");
    reveal_strlit("]");
    reveal_strlit("]:");
    reveal_strlit(":");
    if is_ipv6 {
        assert(spec_access_base_uri(ip, port, is_ipv6) =~= ("["@ + ip + "]"@) + ":"@ + d);
    } else {
        assert(spec_access_base_uri(ip, port, is_ipv6) =~= ip + ":"@ + d);
    }
}

/// Law: two ports give base addresses that agree up to the port text: the
/// brackets depend on the kind of address alone.
pub proof fn lemma_base_uri_brackets_independent_of_port(ip: Seq<char>, p1: u16, p2: u16)
    ensures
        spec_access_base_uri(ip, p1, true)[0] == '[',
        spec_access_base_uri(ip, p1, true).take(ip.len() + 3int) == spec_access_base_uri(
            ip,
            p2,
            true,
        ).take(ip.len() + 3int),
        spec_access_base_uri(ip, p1, false).take(ip.len() + 1int) == spec_access_base_uri(
            ip,
            p2,
            false,
        ).take(ip.len() + 1int),
{
    reveal_strlit("[");
    reveal_strlit("]:");
    reveal_strlit(":");
    crate::decimal::lemma_decimal_nonempty(p1 as nat);
    crate::decimal::lemma_decimal_nonempty(p2 as nat);
    assert(spec_access_base_uri(ip, p1, true).take(ip.len() + 3int) =~= "["@ + ip + "]:"@);
    assert(spec_access_base_uri(ip, p2, true).take(ip.len() + 3int) =~= "["@ + ip + "]:"@);
    assert(spec_access_base_uri(ip, p1, false).take(ip.len() + 1int) =~= ip + ":"@);
    assert(spec_access_base_uri(ip, p2, false).take(ip.len() + 1int) =~= ip + ":"@);
}

} // verus!

verus! {

/// Trimming the start drops a run of white space and keeps the rest.
proof fn lemma_trim_start_shape(s: Seq<char>)
    ensures
        exists|k: int|
            0 <= k <= s.len() && #[trigger] s.skip(k) == spec_trim_start(s) && (forall|m: int|
                0 <= m < k ==> is_white_space(s[m])) && (k < s.len() ==> !is_white_space(s[k])),
    decreases s.len(),
{
    if s.len() > 0 && is_white_space(s[0]) {
        lemma_trim_start_shape(s.drop_first());
        let k = choose|k: int|
            0 <= k <= s.drop_first().len() && #[trigger] s.drop_first().skip(k) == spec_trim_start(
                s.drop_first(),
            ) && (forall|m: int| 0 <= m < k ==> is_white_space(s.drop_first()[m])) && (k
                < s.drop_first().len() ==> !is_white_space(s.drop_first()[k]));
        assert(s.skip(k + 1) =~= s.drop_first().skip(k));
        assert forall|m: int| 0 <= m < k + 1 implies is_white_space(s[m]) by {
            if m > 0 {
                assert(s[m] == s.drop_first()[m - 1]);
            }
        }
        assert(k + 1 < s.len() ==> s[k + 1] == s.drop_first()[k]);
    } else {
        assert(s.skip(0) =~= s);
    }
}

/// Trimming the end drops a run of white space and keeps the rest.
proof fn lemma_trim_end_shape(s: Seq<char>)
    ensures
        exists|k: int|
            0 <= k <= s.len() && #[trigger] s.take(k) == spec_trim_end(s) && (forall|m: int|
                k <= m < s.len() ==> is_white_space(s[m])) && (k > 0 ==> !is_white_space(s[k - 1])),
    decreases s.len(),
{
    if s.len() > 0 && is_white_space(s.last()) {
        lemma_trim_end_shape(s.drop_last());
        let k = choose|k: int|
            0 <= k <= s.drop_last().len() && #[trigger] s.drop_last().take(k) == spec_trim_end(
                s.drop_last(),
            ) && (forall|m: int| k <= m < s.drop_last().len() ==> is_white_space(s.drop_last()[m]))
                && (k > 0 ==> !is_white_space(s.drop_last()[k - 1]));
        assert(s.take(k) =~= s.drop_last().take(k));
        assert forall|m: int| k <= m < s.len() implies is_white_space(s[m]) by {
            if m < s.len() - 1 {
                assert(s[m] == s.drop_last()[m]);
            }
        }
        assert(k > 0 ==> s[k - 1] == s.drop_last()[k - 1]);
    } else {
        assert(s.take(s.len() as int) =~= s);
    }
}

/// Law: trimming keeps one contiguous part of the text and drops only white
/// space around it; the part kept neither starts nor ends with white space.
pub proof fn lemma_trim_shape(s: Seq<char>)
    ensures
        exists|i: int, j: int|
            0 <= i <= j <= s.len() && #[trigger] s.subrange(i, j) == spec_trim(s) && (forall|m: int|
                0 <= m < i ==> is_white_space(s[m])) && (forall|m: int|
                j <= m < s.len() ==> is_white_space(s[m])),
        spec_trim(s).len() > 0 ==> !is_white_space(spec_trim(s)[0]) && !is_white_space(
            spec_trim(s).last(),
        ),
{
    lemma_trim_start_shape(s);
    let i = choose|k: int|
        0 <= k <= s.len() && #[trigger] s.skip(k) == spec_trim_start(s) && (forall|m: int|
            0 <= m < k ==> is_white_space(s[m])) && (k < s.len() ==> !is_white_space(s[k]));
    let u = spec_trim_start(s);
    lemma_trim_end_shape(u);
    let k = choose|k: int|
        0 <= k <= u.len() && #[trigger] u.take(k) == spec_trim_end(u) && (forall|m: int|
            k <= m < u.len() ==> is_white_space(u[m])) && (k > 0 ==> !is_white_space(u[k - 1]));
    assert(s.subrange(i, i + k) =~= u.take(k));
    assert forall|m: int| i + k <= m < s.len() implies is_white_space(s[m]) by {
        assert(s[m] == u[m - i]);
    }
    if spec_trim(s).len() > 0 {
        assert(spec_trim(s)[0] == s[i]);
        assert(spec_trim(s).last() == u[k - 1]);
    }
}

} // verus!

verus! {

/// Law: each line of the address list is `[`, the position in zero-padded
/// decimal text that reads back as the position (at least two digits), `] `
/// and the address.
pub proof fn lemma_list_line_shape(n: usize, ip: Seq<char>)
    ensures
        exists|label: Seq<char>|
            #[trigger] spec_parse_usize(label) == Some(n) && label.len() >= 2 && "["@
                + spec_padded2(n as nat) + "] "@ + ip == "["@ + label + "] "@ + ip,
{
    crate::decimal::lemma_parse_padded_roundtrip(n);
    crate::decimal::lemma_decimal_nonempty(n as nat);
    if n >= 10 {
        crate::decimal::lemma_decimal_shape(n as nat);
        crate::decimal::lemma_decimal_shape((n / 10) as nat);
        assert(spec_decimal(n as nat) == spec_decimal((n / 10) as nat).push(
            crate::decimal::digit_char((n % 10) as nat),
        ));
    }
    let label = spec_padded2(n as nat);
    assert(spec_parse_usize(label) == Some(n));
}

} // verus!
