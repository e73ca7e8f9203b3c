use vstd::prelude::*;
use vstd::string::*;
use crate::error::{Element, Error};
use crate::text::{all_digits, decimal_value, is_digit, newline_to_space, newlines_to_spaces, parse_decimal, trim_spec, trim_str};

verus! {

/// The index of the first `c` in `s` at or after `i`; `s.len()` if none.
pub open spec fn index_of_from(s: Seq<char>, c: char, i: int) -> int
    decreases s.len() - i,
{
    if i < 0 || i >= s.len() {
        s.len() as int
    } else if s[i] == c {
        i
    } else {
        index_of_from(s, c, i + 1)
    }
}

/// The index of the first non-digit in `s` at or after `i`; `s.len()` if none.
pub open spec fn digits_end(s: Seq<char>, i: int) -> int
    decreases s.len() - i,
{
    if i < 0 || i >= s.len() {
        s.len() as int
    } else if !is_digit(s[i]) {
        i
    } else {
        digits_end(s, i + 1)
    }
}

fn find_digits_end(s: &str, from: usize) -> (r: usize)
    requires
        from <= s@.len(),
    ensures
        r == digits_end(s@, from as int),
        from <= r <= s@.len(),
        all_digits(s@.subrange(from as int, r as int)),
        r < s@.len() ==> !is_digit(s@[r as int]),
{
    let n = s.unicode_len();
    let mut i: usize = from;
    while i < n
        invariant
            from <= i <= n,
            n == s@.len(),
            digits_end(s@, from as int) == digits_end(s@, i as int),
            all_digits(s@.subrange(from as int, i as int)),
        decreases n - i,
    {
        let c = s.get_char(i);
        if !('0' <= c && c <= '9') {
            return i;
        }
        assert(s@.subrange(from as int, i + 1) =~= s@.subrange(from as int, i as int).push(c));
        i = i + 1;
    }
    i
}

/// Whether a pagination summary "X-Y/Z" starts at index `p` of `t`: three
/// runs of digits joined by '-' and '/', each run as long as it goes.
pub open spec fn summary_at(t: Seq<char>, p: int) -> bool {
    let e1 = digits_end(t, p);
    let e2 = digits_end(t, e1 + 1);
    let e3 = digits_end(t, e2 + 1);
    &&& 0 <= p < t.len()
    &&& p < e1 < t.len()
    &&& t[e1] == '-'
    &&& e1 + 1 < e2 < t.len()
    &&& t[e2] == '/'
    &&& e2 + 1 < e3
}

/// Z, the value of the third run of the summary that starts at `p`.
pub open spec fn summary_total_at(t: Seq<char>, p: int) -> nat {
    let e2 = digits_end(t, digits_end(t, p) + 1);
    decimal_value(t.subrange(e2 + 1, digits_end(t, e2 + 1)))
}

/// The total of the first summary that starts at or after `p`.
pub open spec fn first_summary_from(t: Seq<char>, p: int) -> Option<nat>
    decreases t.len() - p,
{
    if p < 0 || p >= t.len() {
        None
    } else if summary_at(t, p) {
        Some(summary_total_at(t, p))
    } else {
        first_summary_from(t, p + 1)
    }
}

/// The total that the text of a pagination summary gives: Z of the first
/// "X-Y/Z" in it, wherever it stands. `None` if the text holds none.
pub open spec fn count_summary_spec(raw: Seq<char>) -> Option<nat> {
    first_summary_from(trim_spec(raw), 0)
}

/// Where the digits of Z lie, if a summary starts at `p`.
fn summary_at_exec(t: &str, p: usize) -> (r: Option<(usize, usize)>)
    requires
        p < t@.len(),
    ensures
        r is Some <==> summary_at(t@, p as int),
        match r {
            Some((a, b)) => a == digits_end(t@, digits_end(t@, p as int) + 1) + 1
                && b == digits_end(t@, a as int) && a < b <= t@.len()
                && all_digits(t@.subrange(a as int, b as int)),
            None => true,
        },
{
    let n = t.unicode_len();
    let e1 = find_digits_end(t, p);
    if e1 == p || e1 >= n || t.get_char(e1) != '-' {
        return None;
    }
    let e2 = find_digits_end(t, e1 + 1);
    if e2 == e1 + 1 || e2 >= n || t.get_char(e2) != '/' {
        return None;
    }
    let e3 = find_digits_end(t, e2 + 1);
    if e3 == e2 + 1 {
        return None;
    }
    Some((e2 + 1, e3))
}

/// Reads a letter's total entry count from the text of its pagination
/// summary.
pub fn parse_count_summary(raw: &str) -> (r: Result<u64, Error>)
    ensures
        r is Ok <==> (count_summary_spec(raw@) is Some && count_summary_spec(raw@)->0 <= u64::MAX),
        r is Ok ==> r->Ok_0 == count_summary_spec(raw@)->0,
        r is Err ==> r->Err_0 == Error::Malformed(Element::CountSummary),
{
    let t = trim_str(raw);
    let n = t.unicode_len();
    let mut p: usize = 0;
    while p < n
        invariant
            p <= n,
            n == t@.len(),
            t@ == trim_spec(raw@),
            count_summary_spec(raw@) == first_summary_from(t@, p as int),
        decreases n - p,
    {
        match summary_at_exec(t, p) {
            Some((a, b)) => {
                return match parse_decimal(t, a, b, u64::MAX) {
                    Some(z) => Ok(z),
                    None => Err(Error::Malformed(Element::CountSummary)),
                };
            },
            None => {},
        }
        p = p + 1;
    }
    Err(Error::Malformed(Element::CountSummary))
}

/// The call in an entry anchor's link target that the entry's id follows.
pub open spec fn entry_link_prefix() -> Seq<char> {
    seq!['j', 'a', 'v', 'a', 's', 'c', 'r', 'i', 'p', 't', ':', ' ', 'h', 'a', 's', 'l', 'o', '(']
}

/// Whether the prefix occurs at index `p` of `h`, followed by a digit.
pub open spec fn id_at(h: Seq<char>, p: int) -> bool {
    let q = entry_link_prefix().len() as int;
    &&& 0 <= p
    &&& p + q < h.len()
    &&& h.subrange(p, p + q) == entry_link_prefix()
    &&& is_digit(h[p + q])
}

/// The id after the first occurrence, at or after `p`, of the prefix that a
/// digit follows: all the digits that follow it.
pub open spec fn first_id_from(h: Seq<char>, p: int) -> Option<nat>
    decreases h.len() - p,
{
    let q = entry_link_prefix().len() as int;
    if p < 0 || p >= h.len() {
        None
    } else if id_at(h, p) {
        Some(decimal_value(h.subrange(p + q, digits_end(h, p + q))))
    } else {
        first_id_from(h, p + 1)
    }
}

/// The id embedded in an entry anchor's link target. `None` if no digit
/// follows the prefix anywhere in it.
pub open spec fn entry_id_spec(href: Seq<char>) -> Option<nat> {
    first_id_from(href, 0)
}

fn prefix_at(h: &str, p: usize, prefix: &Vec<char>) -> (r: bool)
    requires
        prefix@ == entry_link_prefix(),
        p < h@.len(),
    ensures
        r == (p + prefix@.len() < h@.len() && h@.subrange(p as int, p + prefix@.len()) == entry_link_prefix()),
{
    let n = h.unicode_len();
    let q = prefix.len();
    if q >= n - p {
        return false;
    }
    let mut i: usize = 0;
    while i < q
        invariant
            i <= q,
            q == prefix@.len(),
            p + q < n,
            n == h@.len(),
            prefix@ == entry_link_prefix(),
            h@.subrange(p as int, p + i) == entry_link_prefix().subrange(0, i as int),
        decreases q - i,
    {
        if h.get_char(p + i) != prefix[i] {
            assert(h@.subrange(p as int, p + q)[i as int] != entry_link_prefix()[i as int]);
            return false;
        }
        assert(h@.subrange(p as int, p + i + 1) =~= entry_link_prefix().subrange(0, i + 1));
        i = i + 1;
    }
    assert(entry_link_prefix().subrange(0, q as int) =~= entry_link_prefix());
    true
}

/// Reads an entry's id from its anchor's link target.
pub fn parse_entry_id(href: &str) -> (r: Result<u32, Error>)
    ensures
        r is Ok <==> (entry_id_spec(href@) is Some && entry_id_spec(href@)->0 <= u32::MAX),
        r is Ok ==> r->Ok_0 == entry_id_spec(href@)->0,
        r is Err ==> r->Err_0 == Error::Malformed(Element::EntryAnchor),
{
    let prefix: Vec<char> = vec!['j', 'a', 'v', 'a', 's', 'c', 'r', 'i', 'p', 't', ':', ' ', 'h', 'a', 's', 'l', 'o', '('];
    assert(prefix@ =~= entry_link_prefix());
    let q = prefix.len();
    let n = href.unicode_len();
    let mut p: usize = 0;
    while p < n
        invariant
            p <= n,
            n == href@.len(),
            q == entry_link_prefix().len(),
            prefix@ == entry_link_prefix(),
            entry_id_spec(href@) == first_id_from(href@, p as int),
        decreases n - p,
    {
        if prefix_at(href, p, &prefix) && is_digit_char(href.get_char(p + q)) {
            let k = find_digits_end(href, p + q);
            return match parse_decimal(href, p + q, k, u32::MAX as u64) {
                Some(v) => Ok(v as u32),
                None => Err(Error::Malformed(Element::EntryAnchor)),
            };
        }
        p = p + 1;
    }
    Err(Error::Malformed(Element::EntryAnchor))
}

fn is_digit_char(c: char) -> (r: bool)
    ensures
        r == is_digit(c),
{
    '0' <= c && c <= '9'
}

/// A definition body as stored: trimmed, each newline turned into a space.
pub open spec fn normalized_definition(inner: Seq<char>) -> Seq<char> {
    trim_spec(inner).map_values(|c: char| newline_to_space(c))
}

/// Normalizes the inner markup of a definition container.
pub fn normalize_definition(inner: &str) -> (r: String)
    ensures
        r@ == normalized_definition(inner@),
{
    newlines_to_spaces(trim_str(inner))
}

/// The definition body from the inner markup of the definition container,
/// if the page holds one.
pub fn extract_definition(container: Option<&str>) -> (r: Result<String, Error>)
    ensures
        container is None <==> r is Err,
        r is Err ==> r->Err_0 == Error::MissingElement(Element::Definition),
        r is Ok ==> r->Ok_0@ == normalized_definition(container->0@),
{
    match container {
        Some(inner) => Ok(normalize_definition(inner)),
        None => Err(Error::MissingElement(Element::Definition)),
    }
}

} // verus!
