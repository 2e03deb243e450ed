//! Header lookups on the raw request text: cookies and bearer tokens.
use vstd::prelude::*;
use crate::text::{split_spec, views, starts_with_spec, split, starts_with, str_eq};
use crate::request::{lines_spec, lines};
use crate::router::opt_view;

verus! {

/// The first of `ls` that begins with `prefix`.
pub open spec fn first_with_prefix(ls: Seq<Seq<char>>, prefix: Seq<char>) -> Option<Seq<char>>
    decreases ls.len(),
{
    if ls.len() == 0 {
        None
    } else if starts_with_spec(ls[0], prefix) {
        Some(ls[0])
    } else {
        first_with_prefix(ls.subrange(1, ls.len() as int), prefix)
    }
}

/// The characters that `char::is_whitespace` accepts (Unicode White_Space).
pub open spec fn is_space(c: char) -> bool {
    c == '\t' || c == '\n' || c == '\u{B}' || c == '\u{C}' || c == '\r' || c == ' ' || c
        == '\u{85}' || c == '\u{A0}' || c == '\u{1680}' || ('\u{2000}' <= c && c <= '\u{200A}')
        || c == '\u{2028}' || c == '\u{2029}' || c == '\u{202F}' || c == '\u{205F}' || c
        == '\u{3000}'
}

/// `s` without leading white space.
pub open spec fn trim_start_spec(s: Seq<char>) -> Seq<char>
    decreases s.len(),
{
    if s.len() > 0 && is_space(s[0]) {
        trim_start_spec(s.subrange(1, s.len() as int))
    } else {
        s
    }
}

/// `s` without trailing white space.
pub open spec fn trim_end_spec(s: Seq<char>) -> Seq<char>
    decreases s.len(),
{
    if s.len() > 0 && is_space(s.last()) {
        trim_end_spec(s.drop_last())
    } else {
        s
    }
}

/// `s` without white space at either end, as `str::trim` gives it.
pub open spec fn trim_spec(s: Seq<char>) -> Seq<char> {
    trim_end_spec(trim_start_spec(s))
}

/// `s` with `prefix` removed from its start as many times as it occurs
/// there, as `str::trim_start_matches` does.
pub open spec fn strip_prefixes(s: Seq<char>, prefix: Seq<char>) -> Seq<char>
    decreases s.len(),
{
    if prefix.len() > 0 && starts_with_spec(s, prefix) {
        strip_prefixes(s.subrange(prefix.len() as int, s.len() as int), prefix)
    } else {
        s
    }
}

/// The value of the first `name=value` cookie among `pieces`.
pub open spec fn cookie_in(pieces: Seq<Seq<char>>, name: Seq<char>) -> Option<Seq<char>>
    decreases pieces.len(),
{
    if pieces.len() == 0 {
        None
    } else {
        let parts = split_spec(trim_spec(pieces[0]), '=');
        if parts.len() == 2 && parts[0] == name {
            Some(parts[1])
        } else {
            cookie_in(pieces.subrange(1, pieces.len() as int), name)
        }
    }
}

/// The value of cookie `name` in the first `Cookie: ` line of `request`.
pub open spec fn cookie_spec(request: Seq<char>, name: Seq<char>) -> Option<Seq<char>> {
    match first_with_prefix(lines_spec(request), "Cookie: "@) {
        None => None,
        Some(l) => cookie_in(split_spec(trim_spec(strip_prefixes(l, "Cookie: "@)), ';'), name),
    }
}

/// The first of `ls` that begins with `prefix`.
pub fn find_line(ls: &Vec<String>, prefix: &str) -> (r: Option<String>)
    ensures
        match r {
            Some(l) => first_with_prefix(views(ls@), prefix@) == Some(l@),
            None => first_with_prefix(views(ls@), prefix@) is None,
        },
{
    let ghost lv = views(ls@);
    let mut i: usize = 0;
    assert(lv.subrange(0, lv.len() as int) =~= lv);
    while i < ls.len()
        invariant
            i <= ls@.len(),
            lv == views(ls@),
            first_with_prefix(lv, prefix@) == first_with_prefix(
                lv.subrange(i as int, lv.len() as int),
                prefix@,
            ),
        decreases ls@.len() - i,
    {
        let ghost t = lv.subrange(i as int, lv.len() as int);
        assert(t[0] == ls@[i as int]@);
        if starts_with(ls[i].as_str(), prefix) {
            return Some(ls[i].clone());
        }
        assert(t.subrange(1, t.len() as int) =~= lv.subrange(i + 1, lv.len() as int));
        i = i + 1;
    }
    None
}

/// `s` without white space at either end.
pub fn trim(s: &str) -> (r: String)
    ensures
        r@ == trim_spec(s@),
{
    let n = s.unicode_len();
    let mut a: usize = 0;
    assert(s@.subrange(0, n as int) =~= s@);
    while a < n && is_space_char(s.get_char(a))
        invariant
            n == s@.len(),
            a <= n,
            trim_start_spec(s@) == trim_start_spec(s@.subrange(a as int, n as int)),
        decreases n - a,
    {
        let ghost t = s@.subrange(a as int, n as int);
        assert(t.subrange(1, t.len() as int) =~= s@.subrange(a + 1, n as int));
        a = a + 1;
    }
    assert(trim_start_spec(s@) == s@.subrange(a as int, n as int)) by {
        if a < n {
            assert(s@.subrange(a as int, n as int)[0] == s@[a as int]);
        }
    }
    let mut b: usize = n;
    assert(s@.subrange(a as int, n as int) =~= s@.subrange(a as int, b as int));
    while b > a && is_space_char(s.get_char(b - 1))
        invariant
            n == s@.len(),
            a <= b <= n,
            trim_spec(s@) == trim_end_spec(s@.subrange(a as int, b as int)),
        decreases b,
    {
        let ghost t = s@.subrange(a as int, b as int);
        assert(t.drop_last() =~= s@.subrange(a as int, b - 1));
        assert(t.last() == s@[b - 1]);
        b = b - 1;
    }
    assert(trim_end_spec(s@.subrange(a as int, b as int)) == s@.subrange(a as int, b as int)) by {
        if b > a {
            assert(s@.subrange(a as int, b as int).last() == s@[b - 1]);
        }
    }
    s.substring_char(a, b).to_owned()
}

/// Whether `c` is white space.
pub fn is_space_char(c: char) -> (r: bool)
    ensures
        r == is_space(c),
{
    c == '\t' || c == '\n' || c == '\u{B}' || c == '\u{C}' || c == '\r' || c == ' ' || c
        == '\u{85}' || c == '\u{A0}' || c == '\u{1680}' || ('\u{2000}' <= c && c <= '\u{200A}')
        || c == '\u{2028}' || c == '\u{2029}' || c == '\u{202F}' || c == '\u{205F}' || c
        == '\u{3000}'
}

/// `s` with every leading copy of the non-empty `prefix` removed.
pub fn strip_all_prefixes(s: &str, prefix: &str) -> (r: String)
    requires
        prefix@.len() > 0,
    ensures
        r@ == strip_prefixes(s@, prefix@),
{
    let n = s.unicode_len();
    let m = prefix.unicode_len();
    let mut a: usize = 0;
    assert(s@.subrange(0, n as int) =~= s@);
    while crate::text::matches_at(s, n, a, prefix, m)
        invariant
            n == s@.len(),
            m == prefix@.len(),
            m > 0,
            a <= n,
            strip_prefixes(s@, prefix@) == strip_prefixes(s@.subrange(a as int, n as int), prefix@),
        decreases n - a,
    {
        let ghost t = s@.subrange(a as int, n as int);
        assert(t.subrange(0, m as int) =~= s@.subrange(a as int, a + m));
        assert(t.subrange(m as int, t.len() as int) =~= s@.subrange(a + m, n as int));
        a = a + m;
    }
    assert(!starts_with_spec(s@.subrange(a as int, n as int), prefix@)) by {
        let t = s@.subrange(a as int, n as int);
        if starts_with_spec(t, prefix@) {
            assert(t.subrange(0, m as int) =~= s@.subrange(a as int, a + m));
        }
    }
    s.substring_char(a, n).to_owned()
}

/// Extracts the value of cookie `name` from the first `Cookie: ` header line
/// of `request`: the line's `;`-separated, trimmed `name=value` pairs are
/// searched in order.
pub fn get_cookie(request: &str, name: &str) -> (r: Option<String>)
    ensures
        opt_view(r) == cookie_spec(request@, name@),
{
    let ls = lines(request);
    let line = match find_line(&ls, "Cookie: ") {
        Some(l) => l,
        None => return None,
    };
    proof {
        reveal_strlit("Cookie: ");
    }
    let stripped = strip_all_prefixes(line.as_str(), "Cookie: ");
    let cookie_str = trim(stripped.as_str());
    let pieces = split(cookie_str.as_str(), ';');
    let ghost pv = views(pieces@);
    let mut i: usize = 0;
    assert(pv.subrange(0, pv.len() as int) =~= pv);
    while i < pieces.len()
        invariant
            i <= pieces@.len(),
            pv == views(pieces@),
            cookie_spec(request@, name@) == cookie_in(pv.subrange(i as int, pv.len() as int), name@),
        decreases pieces@.len() - i,
    {
        let ghost t = pv.subrange(i as int, pv.len() as int);
        assert(t[0] == pieces@[i as int]@);
        let piece = trim(pieces[i].as_str());
        let parts = split(piece.as_str(), '=');
        if parts.len() == 2 && str_eq(parts[0].as_str(), name) {
            assert(views(parts@)[1] == parts@[1]@);
            return Some(parts[1].clone());
        }
        assert(parts@.len() == 2 ==> views(parts@)[0] == parts@[0]@);
        assert(t.subrange(1, t.len() as int) =~= pv.subrange(i + 1, pv.len() as int));
        i = i + 1;
    }
    None
}

} // verus!
