//! Parsing of the raw request text: lines, request line, target and body.
use vstd::prelude::*;
use crate::text::{split_spec, views, split, str_eq};

verus! {

/// A line with one trailing carriage return removed, if it has one.
pub open spec fn strip_cr(l: Seq<char>) -> Seq<char> {
    if l.len() > 0 && l.last() == '\r' {
        l.drop_last()
    } else {
        l
    }
}

/// The lines of `s` as `str::lines` yields them: split at `\n`, a `\r` before
/// each `\n` dropped, and no empty last line after a final `\n`.
pub open spec fn lines_spec(s: Seq<char>) -> Seq<Seq<char>> {
    let pieces = split_spec(s, '\n');
    let head = pieces.drop_last().map_values(|l: Seq<char>| strip_cr(l));
    if pieces.last().len() == 0 {
        head
    } else {
        head.push(pieces.last())
    }
}

/// Position of the first `c` in `s`, or `s.len()` when there is none.
pub open spec fn first_index(s: Seq<char>, c: char) -> int
    decreases s.len(),
{
    if s.len() == 0 {
        0
    } else if s[0] == c {
        0
    } else {
        1 + first_index(s.subrange(1, s.len() as int), c)
    }
}

/// The path of a request target: everything before the first `?`.
pub open spec fn path_of(target: Seq<char>) -> Seq<char> {
    target.subrange(0, first_index(target, '?'))
}

/// The query of a request target: everything after the first `?`, if any.
pub open spec fn query_of(target: Seq<char>) -> Option<Seq<char>> {
    let i = first_index(target, '?');
    if i < target.len() {
        Some(target.subrange(i + 1, target.len() as int))
    } else {
        None
    }
}

/// The last line before the first line that is a lone `\r`, or before the end;
/// `cur` when there is none.
pub open spec fn body_from(ls: Seq<Seq<char>>, cur: Seq<char>) -> Seq<char>
    decreases ls.len(),
{
    if ls.len() == 0 {
        cur
    } else if ls[0] == seq!['\r'] {
        cur
    } else {
        body_from(ls.subrange(1, ls.len() as int), ls[0])
    }
}

/// The body that a request carries after its request line `ls[0]`.
pub open spec fn body_spec(ls: Seq<Seq<char>>) -> Seq<char> {
    body_from(ls.subrange(1, ls.len() as int), Seq::empty())
}

/// One line with a trailing `\r` removed.
fn strip_cr_line(l: &str) -> (r: String)
    ensures
        r@ == strip_cr(l@),
{
    let n = l.unicode_len();
    if n > 0 && l.get_char(n - 1) == '\r' {
        l.substring_char(0, n - 1).to_owned()
    } else {
        l.to_owned()
    }
}

/// The lines of a request, as `str::lines` gives them.
pub fn lines(s: &str) -> (r: Vec<String>)
    ensures
        views(r@) == lines_spec(s@),
{
    let pieces = split(s, '\n');
    let ghost pv = split_spec(s@, '\n');
    let ghost head = pv.drop_last().map_values(|l: Seq<char>| strip_cr(l));
    let mut out: Vec<String> = Vec::new();
    let mut i: usize = 0;
    let count = pieces.len();
    assert(pieces@.len() == pv.len());
    proof {
        crate::text::lemma_split_nonempty(s@, '\n');
    }
    while i + 1 < count
        invariant
            count == pieces@.len(),
            count >= 1,
            views(pieces@) == pv,
            pv.len() == count,
            head == pv.drop_last().map_values(|l: Seq<char>| strip_cr(l)),
            i < count,
            views(out@) == head.subrange(0, i as int),
        decreases count - i,
    {
        let l = strip_cr_line(pieces[i].as_str());
        let ghost done = out@;
        out.push(l);
        assert(pv[i as int] == pieces@[i as int]@);
        assert(head[i as int] == strip_cr(pv[i as int]));
        assert(views(out@) =~= views(done).push(l@));
        assert(views(out@) =~= head.subrange(0, i + 1));
        i = i + 1;
    }
    assert(views(out@) =~= head);
    let last = pieces[count - 1].as_str();
    assert(pv.last() == last@);
    if last.unicode_len() > 0 {
        let ghost done = out@;
        out.push(last.to_owned());
        assert(views(out@) =~= head.push(pv.last()));
    }
    out
}

/// The path and the query of a request target.
pub fn split_target(target: &str) -> (r: (String, Option<String>))
    ensures
        r.0@ == path_of(target@),
        match r.1 {
            Some(q) => query_of(target@) == Some(q@),
            None => query_of(target@) is None,
        },
{
    let n = target.unicode_len();
    let mut i: usize = 0;
    assert(target@.subrange(0, n as int) =~= target@);
    while i < n && target.get_char(i) != '?'
        invariant
            n == target@.len(),
            i <= n,
            first_index(target@, '?') == i + first_index(target@.subrange(i as int, n as int), '?'),
        decreases n - i,
    {
        let ghost t = target@.subrange(i as int, n as int);
        assert(t.subrange(1, t.len() as int) =~= target@.subrange(i + 1, n as int));
        i = i + 1;
    }
    proof {
        assert(target@.subrange(0, n as int) =~= target@);
        if i < n {
            assert(target@.subrange(i as int, n as int)[0] == '?');
        } else {
            assert(target@.subrange(i as int, n as int).len() == 0);
        }
    }
    let path = target.substring_char(0, i).to_owned();
    if i < n {
        (path, Some(target.substring_char(i + 1, n).to_owned()))
    } else {
        (path, None)
    }
}

/// The body of a request whose lines are `ls`.
pub fn body_of(ls: &Vec<String>) -> (r: String)
    requires
        ls@.len() >= 1,
    ensures
        r@ == body_spec(views(ls@)),
{
    let ghost lv = views(ls@);
    let n = ls.len();
    let mut cur = String::new();
    let mut i: usize = 1;
    proof {
        reveal_strlit("\r");
    }
    while i < n
        invariant
            n == ls@.len(),
            lv == views(ls@),
            1 <= i <= n,
            body_from(lv.subrange(i as int, n as int), cur@) == body_spec(lv),
            "\r"@ == seq!['\r'],
        decreases n - i,
    {
        let ghost t = lv.subrange(i as int, n as int);
        assert(t[0] == ls@[i as int]@);
        if str_eq(ls[i].as_str(), "\r") {
            return cur;
        }
        assert(t.subrange(1, t.len() as int) =~= lv.subrange(i + 1, n as int));
        cur = ls[i].clone();
        i = i + 1;
    }
    cur
}

} // verus!
