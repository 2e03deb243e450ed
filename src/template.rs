//! `{{ key }}` substitution from `k1=v1&k2=v2` parameter strings.
use vstd::prelude::*;
use crate::text::{
    split_spec, views, replace_spec, contains_seq, occurs_at, split, replace, str_eq, lemma_split_concat,
    lemma_split_without_sep, lemma_replace_absent,
};

verus! {

/// The placeholder that stands for `key` in a template: `{{ key }}`.
pub open spec fn placeholder(key: Seq<char>) -> Seq<char> {
    seq!['{', '{', ' '] + key + seq![' ', '}', '}']
}

/// The key and value of one `k=v` piece; `None` unless it splits on `=`
/// into exactly two parts.
pub open spec fn pair_of(piece: Seq<char>) -> Option<(Seq<char>, Seq<char>)> {
    let parts = split_spec(piece, '=');
    if parts.len() == 2 {
        Some((parts[0], parts[1]))
    } else {
        None
    }
}

/// The well-formed pairs among `pieces`, in order.
pub open spec fn pairs_of(pieces: Seq<Seq<char>>) -> Seq<(Seq<char>, Seq<char>)>
    decreases pieces.len(),
{
    if pieces.len() == 0 {
        Seq::empty()
    } else {
        let rest = pairs_of(pieces.drop_last());
        match pair_of(pieces.last()) {
            Some(p) => rest.push(p),
            None => rest,
        }
    }
}

/// The pairs of a parameter string `k1=v1&k2=v2...`; malformed pieces dropped.
pub open spec fn params_of(s: Seq<char>) -> Seq<(Seq<char>, Seq<char>)> {
    pairs_of(split_spec(s, '&'))
}

/// `content` with the placeholder of each pair replaced by its value, the
/// pairs applied in order.
pub open spec fn substitute(content: Seq<char>, pairs: Seq<(Seq<char>, Seq<char>)>) -> Seq<char>
    decreases pairs.len(),
{
    if pairs.len() == 0 {
        content
    } else {
        let before = substitute(content, pairs.drop_last());
        replace_spec(before, placeholder(pairs.last().0), pairs.last().1)
    }
}

/// `content` with the parameters of `params` substituted.
pub open spec fn apply_params_spec(content: Seq<char>, params: Seq<char>) -> Seq<char> {
    substitute(content, params_of(params))
}

/// The views of a list of owned pairs.
pub open spec fn pair_views(v: Seq<(String, String)>) -> Seq<(Seq<char>, Seq<char>)> {
    v.map_values(|p: (String, String)| (p.0@, p.1@))
}

/// Whether some pair of `ps` has key `k`.
pub open spec fn has_key(ps: Seq<(Seq<char>, Seq<char>)>, k: Seq<char>) -> bool {
    exists|i: int| 0 <= i < ps.len() && (#[trigger] ps[i]).0 == k
}

/// The pairs of `q` whose key no pair of `b` has, in order.
pub open spec fn keep_unshadowed(
    q: Seq<(Seq<char>, Seq<char>)>,
    b: Seq<(Seq<char>, Seq<char>)>,
) -> Seq<(Seq<char>, Seq<char>)>
    decreases q.len(),
{
    if q.len() == 0 {
        Seq::empty()
    } else {
        let kept = keep_unshadowed(q.drop_last(), b);
        if has_key(b, q.last().0) {
            kept
        } else {
            kept.push(q.last())
        }
    }
}

/// One mapping from the pairs of `q` and of `b`, where a key of `b` takes
/// the place of the same key of `q`: the pairs of `q` that `b` does not
/// shadow, then those of `b`.
pub open spec fn merged(
    q: Seq<(Seq<char>, Seq<char>)>,
    b: Seq<(Seq<char>, Seq<char>)>,
) -> Seq<(Seq<char>, Seq<char>)> {
    keep_unshadowed(q, b) + b
}

/// The pairs of an optional parameter string.
pub open spec fn opt_params(params: Option<Seq<char>>) -> Seq<(Seq<char>, Seq<char>)> {
    match params {
        Some(p) => params_of(p),
        None => Seq::empty(),
    }
}

/// Whether `s` holds `{{` anywhere.
pub open spec fn has_open_braces(s: Seq<char>) -> bool {
    exists|i: int| 0 <= i && i + 1 < s.len() && #[trigger] s[i] == '{' && s[i + 1] == '{'
}

/// The well-formed pairs of a parameter string, in order.
pub fn parse_params(s: &str) -> (r: Vec<(String, String)>)
    ensures
        r@.len() == params_of(s@).len(),
        forall|j: int|
            0 <= j < r@.len() ==> (#[trigger] r@[j]).0@ == params_of(s@)[j].0 && r@[j].1@
                == params_of(s@)[j].1,
        pair_views(r@) == params_of(s@),
{
    let pieces = split(s, '&');
    let mut out: Vec<(String, String)> = Vec::new();
    let mut i: usize = 0;
    while i < pieces.len()
        invariant
            i <= pieces@.len(),
            views(pieces@) == split_spec(s@, '&'),
            out@.len() == pairs_of(views(pieces@).subrange(0, i as int)).len(),
            forall|j: int|
                0 <= j < out@.len() ==> (#[trigger] out@[j]).0@ == pairs_of(
                    views(pieces@).subrange(0, i as int),
                )[j].0 && out@[j].1@ == pairs_of(views(pieces@).subrange(0, i as int))[j].1,
        decreases pieces@.len() - i,
    {
        let parts = split(pieces[i].as_str(), '=');
        let ghost sub = views(pieces@).subrange(0, i + 1);
        assert(sub.drop_last() =~= views(pieces@).subrange(0, i as int));
        assert(sub.last() == pieces@[i as int]@);
        if parts.len() == 2 {
            let k = parts[0].clone();
            let v = parts[1].clone();
            out.push((k, v));
        }
        i = i + 1;
    }
    assert(views(pieces@).subrange(0, pieces@.len() as int) =~= views(pieces@));
    assert(pair_views(out@) =~= params_of(s@));
    out
}

/// The placeholder text for `key`.
pub fn make_placeholder(key: &str) -> (r: String)
    ensures
        r@ == placeholder(key@),
{
    let mut p = String::from_str("{{ ");
    p.append(key);
    p.append(" }}");
    proof {
        reveal_strlit("{{ ");
        reveal_strlit(" }}");
    }
    assert(p@ =~= placeholder(key@));
    p
}

/// Substitutes each pair of `pairs`, in order, into `content`.
pub fn substitute_pairs(content: String, pairs: &Vec<(String, String)>) -> (r: String)
    ensures
        r@ == substitute(content@, pair_views(pairs@)),
{
    let ghost pv = pair_views(pairs@);
    let mut out = content;
    let mut j: usize = 0;
    assert(pv.subrange(0, 0) =~= Seq::<(Seq<char>, Seq<char>)>::empty());
    while j < pairs.len()
        invariant
            j <= pairs@.len(),
            pv == pair_views(pairs@),
            out@ == substitute(content@, pv.subrange(0, j as int)),
        decreases pairs@.len() - j,
    {
        let pat = make_placeholder(pairs[j].0.as_str());
        assert(pv.subrange(0, j + 1).drop_last() =~= pv.subrange(0, j as int));
        out = replace(out.as_str(), pat.as_str(), pairs[j].1.as_str());
        j = j + 1;
    }
    assert(pv.subrange(0, pairs@.len() as int) =~= pv);
    out
}

/// `content` with the parameters of `params` substituted: every `{{ k }}`
/// becomes `v` for each well-formed `k=v` piece, in order.
pub fn apply_params(content: String, params: &str) -> (r: String)
    ensures
        r@ == apply_params_spec(content@, params@),
{
    let pairs = parse_params(params);
    let r = substitute_pairs(content, &pairs);
    assert(pair_views(pairs@) =~= params_of(params@));
    r
}

/// Whether some pair of `ps` has key `k`.
pub fn has_key_in(ps: &Vec<(String, String)>, k: &str) -> (r: bool)
    ensures
        r == has_key(pair_views(ps@), k@),
{
    let ghost pv = pair_views(ps@);
    let mut j: usize = 0;
    while j < ps.len()
        invariant
            j <= ps@.len(),
            pv == pair_views(ps@),
            forall|i: int| 0 <= i < j ==> pv[i].0 != k@,
        decreases ps@.len() - j,
    {
        if str_eq(ps[j].0.as_str(), k) {
            assert(pv[j as int].0 == k@);
            return true;
        }
        j = j + 1;
    }
    false
}

/// The pairs of `query` that `body` does not shadow, then those of `body`.
pub fn merge_params(query: Option<&str>, body: &str) -> (r: Vec<(String, String)>)
    ensures
        pair_views(r@) == merged(opt_params(match query {
            Some(q) => Some(q@),
            None => None,
        }), params_of(body@)),
{
    let qs: Vec<(String, String)> = match query {
        Some(q) => parse_params(q),
        None => Vec::new(),
    };
    let ghost qv = pair_views(qs@);
    assert(qv =~= opt_params(match query {
        Some(q) => Some(q@),
        None => None,
    }));
    let bs = parse_params(body);
    let ghost bv = pair_views(bs@);
    let mut out: Vec<(String, String)> = Vec::new();
    let mut i: usize = 0;
    assert(pair_views(out@) =~= keep_unshadowed(qv.subrange(0, 0), bv));
    while i < qs.len()
        invariant
            i <= qs@.len(),
            qv == pair_views(qs@),
            bv == pair_views(bs@),
            pair_views(out@) == keep_unshadowed(qv.subrange(0, i as int), bv),
        decreases qs@.len() - i,
    {
        let ghost sub = qv.subrange(0, i + 1);
        assert(sub.drop_last() =~= qv.subrange(0, i as int));
        assert(sub.last() == qv[i as int]);
        if !has_key_in(&bs, qs[i].0.as_str()) {
            let ghost before = out@;
            out.push((qs[i].0.clone(), qs[i].1.clone()));
            assert(pair_views(out@) =~= pair_views(before).push(qv[i as int]));
        }
        i = i + 1;
    }
    assert(qv.subrange(0, qs@.len() as int) =~= qv);
    let ghost kept = pair_views(out@);
    let mut j: usize = 0;
    assert(pair_views(out@) =~= kept + bv.subrange(0, 0));
    while j < bs.len()
        invariant
            j <= bs@.len(),
            bv == pair_views(bs@),
            pair_views(out@) == kept + bv.subrange(0, j as int),
        decreases bs@.len() - j,
    {
        let ghost before = out@;
        out.push((bs[j].0.clone(), bs[j].1.clone()));
        assert(pair_views(out@) =~= pair_views(before).push(bv[j as int]));
        assert(kept + bv.subrange(0, j + 1) =~= (kept + bv.subrange(0, j as int)).push(bv[j as int]));
        j = j + 1;
    }
    assert(bv.subrange(0, bs@.len() as int) =~= bv);
    out
}

/// `content` filled once from the merged parameters of `query` and `body`,
/// a body value taking the place of a query value with the same key.
pub fn fill_form(content: String, query: Option<&str>, body: &str) -> (r: String)
    ensures
        r@ == substitute(content@, merged(opt_params(match query {
            Some(q) => Some(q@),
            None => None,
        }), params_of(body@))),
{
    let pairs = merge_params(query, body);
    substitute_pairs(content, &pairs)
}

/// Content without `{{` is left as it is by any substitution.
pub proof fn lemma_substitute_plain(content: Seq<char>, pairs: Seq<(Seq<char>, Seq<char>)>)
    requires
        !has_open_braces(content),
    ensures
        substitute(content, pairs) == content,
    decreases pairs.len(),
{
    if pairs.len() > 0 {
        lemma_substitute_plain(content, pairs.drop_last());
        let pat = placeholder(pairs.last().0);
        assert(!contains_seq(content, pat)) by {
            if contains_seq(content, pat) {
                let i = choose|i: int| occurs_at(content, i, pat);
                assert(content.subrange(i, i + pat.len())[0] == pat[0]);
                assert(content.subrange(i, i + pat.len())[1] == pat[1]);
                assert(content[i] == '{' && content[i + 1] == '{');
            }
        }
        lemma_replace_absent(content, pat, pairs.last().1);
    }
}

/// Parameters leave template content without placeholders unchanged.
pub proof fn law_plain_content_unchanged(content: Seq<char>, params: Seq<char>)
    requires
        !has_open_braces(content),
    ensures
        apply_params_spec(content, params) == content,
{
    lemma_substitute_plain(content, params_of(params));
}

pub proof fn lemma_pairs_concat(a: Seq<Seq<char>>, b: Seq<Seq<char>>)
    ensures
        pairs_of(a + b) == pairs_of(a) + pairs_of(b),
    decreases b.len(),
{
    if b.len() == 0 {
        assert(a + b =~= a);
        assert(pairs_of(a) + pairs_of(b) =~= pairs_of(a));
    } else {
        assert((a + b).drop_last() =~= a + b.drop_last());
        lemma_pairs_concat(a, b.drop_last());
        match pair_of(b.last()) {
            Some(p) => {
                assert(pairs_of(a + b) =~= pairs_of(a) + pairs_of(b));
            },
            None => {},
        }
    }
}

pub proof fn lemma_substitute_concat(
    content: Seq<char>,
    p: Seq<(Seq<char>, Seq<char>)>,
    q: Seq<(Seq<char>, Seq<char>)>,
)
    ensures
        substitute(content, p + q) == substitute(substitute(content, p), q),
    decreases q.len(),
{
    if q.len() == 0 {
        assert(p + q =~= p);
    } else {
        assert((p + q).drop_last() =~= p + q.drop_last());
        lemma_substitute_concat(content, p, q.drop_last());
    }
}

/// Parameters joined by `&` apply one after the other: first those of `a`,
/// then those of `b`.
pub proof fn law_params_compose(content: Seq<char>, a: Seq<char>, b: Seq<char>)
    ensures
        apply_params_spec(content, a + seq!['&'] + b) == apply_params_spec(
            apply_params_spec(content, a),
            b,
        ),
{
    lemma_split_concat(a, b, '&');
    lemma_pairs_concat(split_spec(a, '&'), split_spec(b, '&'));
    lemma_substitute_concat(content, params_of(a), params_of(b));
}

/// A parameter string `k=v` without `&` or `=` in `k` and `v` holds the
/// one pair `(k, v)`.
pub proof fn lemma_params_single(k: Seq<char>, v: Seq<char>)
    requires
        !k.contains('&'),
        !k.contains('='),
        !v.contains('&'),
        !v.contains('='),
    ensures
        params_of(k + seq!['='] + v) == seq![(k, v)],
{
    let s = k + seq!['='] + v;
    assert(!s.contains('&')) by {
        if s.contains('&') {
            let i = choose|i: int| 0 <= i < s.len() && s[i] == '&';
            if i < k.len() {
                assert(k[i] == '&');
            } else if i > k.len() {
                assert(v[i - k.len() - 1] == '&');
            }
        }
    }
    lemma_split_without_sep(s, '&');
    lemma_split_concat(k, v, '=');
    lemma_split_without_sep(k, '=');
    lemma_split_without_sep(v, '=');
    let ps = split_spec(s, '&');
    assert(ps.drop_last() =~= Seq::<Seq<char>>::empty());
    assert(ps.last() == s);
    assert(split_spec(s, '=') =~= seq![k, v]);
    assert(pair_of(s) == Some((k, v)));
    assert(pairs_of(ps.drop_last()) =~= Seq::<(Seq<char>, Seq<char>)>::empty());
    assert(params_of(s) =~= seq![(k, v)]);
}

/// One well-formed pair `k=v` replaces every `{{ k }}` in the content by `v`.
pub proof fn law_single_pair(content: Seq<char>, k: Seq<char>, v: Seq<char>)
    requires
        !k.contains('&'),
        !k.contains('='),
        !v.contains('&'),
        !v.contains('='),
    ensures
        apply_params_spec(content, k + seq!['='] + v) == replace_spec(content, placeholder(k), v),
{
    lemma_params_single(k, v);
    let one = seq![(k, v)];
    assert(one.drop_last() =~= Seq::<(Seq<char>, Seq<char>)>::empty());
    assert(one.last() == (k, v));
    assert(substitute(content, one.drop_last()) == content);
}

/// When the query and the body both give key `k`, the merged parameters
/// fill `{{ k }}` once, with the body's value.
pub proof fn law_body_wins_on_shared_key(
    content: Seq<char>,
    k: Seq<char>,
    vq: Seq<char>,
    vb: Seq<char>,
)
    requires
        !k.contains('&'),
        !k.contains('='),
        !vq.contains('&'),
        !vq.contains('='),
        !vb.contains('&'),
        !vb.contains('='),
    ensures
        substitute(content, merged(params_of(k + seq!['='] + vq), params_of(k + seq!['='] + vb)))
            == replace_spec(content, placeholder(k), vb),
{
    lemma_params_single(k, vq);
    lemma_params_single(k, vb);
    let q = seq![(k, vq)];
    let b = seq![(k, vb)];
    assert(b[0].0 == k);
    assert(has_key(b, k));
    assert(q.drop_last() =~= Seq::<(Seq<char>, Seq<char>)>::empty());
    assert(keep_unshadowed(q.drop_last(), b) =~= Seq::<(Seq<char>, Seq<char>)>::empty());
    assert(keep_unshadowed(q, b) =~= Seq::<(Seq<char>, Seq<char>)>::empty());
    assert(merged(q, b) =~= b);
    assert(b.drop_last() =~= Seq::<(Seq<char>, Seq<char>)>::empty());
    assert(b.last() == (k, vb));
    assert(substitute(content, b.drop_last()) == content);
}

/// A piece that does not split on `=` into exactly two parts (`k`,
/// `a=b=c`) substitutes nothing.
pub proof fn law_malformed_piece_ignored(content: Seq<char>, piece: Seq<char>)
    requires
        !piece.contains('&'),
        pair_of(piece) is None,
    ensures
        apply_params_spec(content, piece) == content,
{
    lemma_split_without_sep(piece, '&');
    let ps = split_spec(piece, '&');
    assert(ps.drop_last() =~= Seq::<Seq<char>>::empty());
    assert(ps.last() == piece);
    assert(pairs_of(ps.drop_last()) =~= Seq::<(Seq<char>, Seq<char>)>::empty());
    assert(params_of(piece) =~= Seq::<(Seq<char>, Seq<char>)>::empty());
}

/// Whether every `&`-separated piece of `m` is malformed.
pub open spec fn all_malformed(m: Seq<char>) -> bool {
    forall|i: int| 0 <= i < split_spec(m, '&').len() ==> pair_of(#[trigger] split_spec(m, '&')[i]) is None
}

pub proof fn lemma_malformed_pairs_empty(ps: Seq<Seq<char>>)
    requires
        forall|i: int| 0 <= i < ps.len() ==> pair_of(#[trigger] ps[i]) is None,
    ensures
        pairs_of(ps) == Seq::<(Seq<char>, Seq<char>)>::empty(),
    decreases ps.len(),
{
    if ps.len() > 0 {
        assert(pair_of(ps[ps.len() - 1]) is None);
        lemma_malformed_pairs_empty(ps.drop_last());
    }
}

/// Malformed pieces, any number of them, added before, between or after the
/// parameters change nothing: with `m` made of malformed pieces only, `a&m&b`,
/// `m&b`, `a&m` and `m` substitute as `a&b`, `b`, `a` and nothing do.
pub proof fn law_malformed_pieces_ignored(
    content: Seq<char>,
    a: Seq<char>,
    m: Seq<char>,
    b: Seq<char>,
)
    requires
        all_malformed(m),
    ensures
        apply_params_spec(content, a + seq!['&'] + m + seq!['&'] + b) == apply_params_spec(
            content,
            a + seq!['&'] + b,
        ),
        apply_params_spec(content, m + seq!['&'] + b) == apply_params_spec(content, b),
        apply_params_spec(content, a + seq!['&'] + m) == apply_params_spec(content, a),
        apply_params_spec(content, m) == content,
{
    let e = Seq::<(Seq<char>, Seq<char>)>::empty();
    lemma_malformed_pairs_empty(split_spec(m, '&'));
    assert(params_of(m) == e);
    let rest = m + seq!['&'] + b;
    assert(a + seq!['&'] + m + seq!['&'] + b =~= a + seq!['&'] + rest);
    lemma_split_concat(a, rest, '&');
    lemma_split_concat(m, b, '&');
    lemma_split_concat(a, b, '&');
    lemma_split_concat(a, m, '&');
    lemma_pairs_concat(split_spec(m, '&'), split_spec(b, '&'));
    lemma_pairs_concat(split_spec(a, '&'), split_spec(rest, '&'));
    lemma_pairs_concat(split_spec(a, '&'), split_spec(b, '&'));
    lemma_pairs_concat(split_spec(a, '&'), split_spec(m, '&'));
    assert(params_of(rest) =~= params_of(b));
    assert(params_of(a + seq!['&'] + m) =~= params_of(a));
    assert(params_of(a + seq!['&'] + m + seq!['&'] + b) =~= params_of(a + seq!['&'] + b));
}

} // verus!
