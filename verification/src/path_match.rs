//! Matching request paths against OpenAPI path templates such as `/users/{id}`.
use vstd::prelude::*;
use crate::text::{first_index, lemma_first_index_at, views, chars_eq, chars_of, string_of};

verus! {

/// The segments of a path: its maximal non-empty runs of characters other than `/`.
pub open spec fn segments_spec(s: Seq<char>) -> Seq<Seq<char>>
    decreases s.len(),
{
    if s.len() == 0 {
        seq![]
    } else {
        let i = first_index(s, '/');
        if i == 0 {
            segments_spec(s.drop_first())
        } else if i >= s.len() {
            seq![s]
        } else {
            seq![s.subrange(0, i as int)] + segments_spec(s.subrange(i + 1 as int, s.len() as int))
        }
    }
}

/// Whether a template segment is a placeholder such as `{id}`.
pub open spec fn is_placeholder(t: Seq<char>) -> bool {
    t.len() >= 2 && t[0] == '{' && t.last() == '}'
}

/// The name inside a placeholder segment.
pub open spec fn placeholder_name(t: Seq<char>) -> Seq<char> {
    t.subrange(1, t.len() - 1)
}

/// Template segments and path segments agree: same count, and every segment
/// that is not a placeholder equal to its counterpart.
pub open spec fn segments_agree(ts: Seq<Seq<char>>, xs: Seq<Seq<char>>) -> bool {
    &&& ts.len() == xs.len()
    &&& forall|i: int| 0 <= i < ts.len() && !is_placeholder(#[trigger] ts[i]) ==> ts[i] == xs[i]
}

/// The (name, value) pairs that the placeholders of `ts` take from `xs`, in order.
pub open spec fn captured(ts: Seq<Seq<char>>, xs: Seq<Seq<char>>) -> Seq<(Seq<char>, Seq<char>)>
    decreases ts.len(),
{
    if ts.len() == 0 || xs.len() == 0 {
        seq![]
    } else {
        let rest = captured(ts.drop_last(), xs.drop_last());
        if is_placeholder(ts.last()) {
            rest.push((placeholder_name(ts.last()), xs.last()))
        } else {
            rest
        }
    }
}

/// What matching a path against a template gives: the captured parameters when the
/// segments agree, nothing otherwise.
pub open spec fn match_template_spec(template: Seq<char>, actual: Seq<char>) -> Option<Seq<(Seq<char>, Seq<char>)>> {
    let ts = segments_spec(template);
    let xs = segments_spec(actual);
    if segments_agree(ts, xs) {
        Some(captured(ts, xs))
    } else {
        None
    }
}

/// The view of a list of string pairs.
pub open spec fn pairs_view(v: Seq<(String, String)>) -> Seq<(Seq<char>, Seq<char>)> {
    v.map_values(|p: (String, String)| (p.0@, p.1@))
}

pub proof fn lemma_segments_step(s: Seq<char>, start: int, i: int)
    requires
        0 <= start <= i < s.len(),
        forall|k: int| start <= k < i ==> s[k] != '/',
        s[i] == '/',
    ensures
        segments_spec(s.subrange(start, s.len() as int)) == (if i == start {
            seq![]
        } else {
            seq![s.subrange(start, i)]
        }) + segments_spec(s.subrange(i + 1, s.len() as int)),
{
    let rest = s.subrange(start, s.len() as int);
    lemma_first_index_at(rest, '/', i - start);
    if i == start {
        assert(rest.drop_first() == s.subrange(i + 1, s.len() as int));
        assert(Seq::<Seq<char>>::empty() + segments_spec(s.subrange(i + 1, s.len() as int))
            == segments_spec(s.subrange(i + 1, s.len() as int)));
    } else {
        assert(rest.subrange(0, i - start) == s.subrange(start, i));
        assert(rest.subrange(i - start + 1, rest.len() as int) == s.subrange(i + 1, s.len() as int));
    }
}

/// The segments of a path (see `segments_spec`).
pub fn segments(path: &str) -> (r: Vec<Vec<char>>)
    ensures
        views(r@) == segments_spec(path@),
{
    let s = chars_of(path);
    let mut out: Vec<Vec<char>> = Vec::new();
    let mut cur: Vec<char> = Vec::new();
    let mut start: usize = 0;
    let mut i: usize = 0;
    assert(s@.subrange(0, s.len() as int) == s@);
    assert(views(out@) == Seq::<Seq<char>>::empty());
    while i < s.len()
        invariant
            s@ == path@,
            start <= i <= s.len(),
            cur@ == s@.subrange(start as int, i as int),
            forall|k: int| start <= k < i ==> s@[k] != '/',
            views(out@) + segments_spec(s@.subrange(start as int, s.len() as int)) == segments_spec(s@),
        decreases s.len() - i,
    {
        if s[i] == '/' {
            proof {
                lemma_segments_step(s@, start as int, i as int);
            }
            if cur.len() > 0 {
                let ghost before = views(out@);
                out.push(cur);
                assert(views(out@) =~= before.push(s@.subrange(start as int, i as int)));
            } else {
                assert(seq![] + segments_spec(s@.subrange(i + 1, s.len() as int)) == segments_spec(s@.subrange(i + 1, s.len() as int)));
            }
            cur = Vec::new();
            start = i + 1;
        } else {
            cur.push(s[i]);
        }
        i += 1;
    }
    let ghost rest = s@.subrange(start as int, s.len() as int);
    if start < s.len() {
        proof {
            lemma_first_index_at(rest, '/', rest.len() as int);
            assert(cur@ == rest);
            assert(segments_spec(rest) == seq![rest]);
        }
        let ghost before = views(out@);
        out.push(cur);
        assert(views(out@) =~= before.push(rest));
    } else {
        assert(segments_spec(rest) == Seq::<Seq<char>>::empty());
        assert(views(out@) + segments_spec(rest) == views(out@));
    }
    out
}

fn is_placeholder_exec(t: &Vec<char>) -> (r: bool)
    ensures
        r == is_placeholder(t@),
{
    t.len() >= 2 && t[0] == '{' && t[t.len() - 1] == '}'
}

/// Matches an actual request path against an OpenAPI path template; the result
/// holds the values that the template's placeholders take, in order.
pub fn match_path_template(template: &str, actual: &str) -> (r: Option<Vec<(String, String)>>)
    ensures
        match r {
            Some(p) => match_template_spec(template@, actual@) == Some(pairs_view(p@)),
            None => match_template_spec(template@, actual@) is None,
        },
{
    let ts = segments(template);
    let xs = segments(actual);
    let ghost tv = views(ts@);
    let ghost xv = views(xs@);
    if ts.len() != xs.len() {
        return None;
    }
    let mut params: Vec<(String, String)> = Vec::new();
    let mut i: usize = 0;
    while i < ts.len()
        invariant
            tv == views(ts@),
            xv == views(xs@),
            tv == segments_spec(template@),
            xv == segments_spec(actual@),
            ts.len() == xs.len(),
            i <= ts.len(),
            forall|k: int| 0 <= k < i && !is_placeholder(#[trigger] tv[k]) ==> tv[k] == xv[k],
            pairs_view(params@) == captured(tv.take(i as int), xv.take(i as int)),
        decreases ts.len() - i,
    {
        let t = &ts[i];
        let x = &xs[i];
        assert(tv[i as int] == t@ && xv[i as int] == x@);
        assert(tv.take(i + 1).drop_last() == tv.take(i as int));
        assert(xv.take(i + 1).drop_last() == xv.take(i as int));
        if is_placeholder_exec(t) {
            let name = string_of(&t.as_slice()[1..t.len() - 1]);
            let value = string_of(x.as_slice());
            let ghost before = pairs_view(params@);
            params.push((name, value));
            assert(pairs_view(params@) =~= before.push((placeholder_name(t@), x@)));
        } else if !chars_eq(t.as_slice(), x.as_slice()) {
            assert(!segments_agree(tv, xv)) by {
                assert(!is_placeholder(tv[i as int]) && tv[i as int] != xv[i as int]);
            }
            return None;
        }
        i += 1;
    }
    assert(tv.take(ts.len() as int) == tv);
    assert(xv.take(ts.len() as int) == xv);
    Some(params)
}


/// The number of placeholder segments in a template.
pub open spec fn placeholder_count(ts: Seq<Seq<char>>) -> nat
    decreases ts.len(),
{
    if ts.len() == 0 {
        0
    } else {
        placeholder_count(ts.drop_last()) + if is_placeholder(ts.last()) { 1nat } else { 0nat }
    }
}

/// The segments obtained by putting `vals`, in order, in place of the template's placeholders.
pub open spec fn instantiate(ts: Seq<Seq<char>>, vals: Seq<Seq<char>>) -> Seq<Seq<char>>
    decreases ts.len(),
{
    if ts.len() == 0 {
        seq![]
    } else if is_placeholder(ts.last()) {
        instantiate(ts.drop_last(), vals.drop_last()).push(vals.last())
    } else {
        instantiate(ts.drop_last(), vals).push(ts.last())
    }
}

/// The values of a list of (name, value) pairs.
pub open spec fn pair_values(p: Seq<(Seq<char>, Seq<char>)>) -> Seq<Seq<char>> {
    p.map_values(|q: (Seq<char>, Seq<char>)| q.1)
}

proof fn lemma_agree_prefix(ts: Seq<Seq<char>>, xs: Seq<Seq<char>>)
    requires
        segments_agree(ts, xs),
        ts.len() > 0,
    ensures
        segments_agree(ts.drop_last(), xs.drop_last()),
{
    assert forall|i: int| 0 <= i < ts.drop_last().len() && !is_placeholder(#[trigger] ts.drop_last()[i])
        implies ts.drop_last()[i] == xs.drop_last()[i] by {
        assert(ts.drop_last()[i] == ts[i]);
    }
}

proof fn lemma_captured_sound(ts: Seq<Seq<char>>, xs: Seq<Seq<char>>)
    requires
        segments_agree(ts, xs),
    ensures
        pair_values(captured(ts, xs)).len() == placeholder_count(ts),
        instantiate(ts, pair_values(captured(ts, xs))) == xs,
    decreases ts.len(),
{
    if ts.len() > 0 {
        lemma_agree_prefix(ts, xs);
        lemma_captured_sound(ts.drop_last(), xs.drop_last());
        let c = captured(ts, xs);
        let c0 = captured(ts.drop_last(), xs.drop_last());
        if is_placeholder(ts.last()) {
            assert(pair_values(c) =~= pair_values(c0).push(xs.last()));
            assert(pair_values(c).drop_last() =~= pair_values(c0));
        } else {
            assert(pair_values(c) =~= pair_values(c0));
            assert(ts.last() == xs.last()) by {
                assert(!is_placeholder(ts[ts.len() - 1]));
            }
        }
        assert(instantiate(ts, pair_values(c)) =~= xs);
    } else {
        assert(instantiate(ts, pair_values(captured(ts, xs))) =~= xs);
    }
}

proof fn lemma_captured_complete(ts: Seq<Seq<char>>, vals: Seq<Seq<char>>)
    requires
        vals.len() == placeholder_count(ts),
    ensures
        instantiate(ts, vals).len() == ts.len(),
        segments_agree(ts, instantiate(ts, vals)),
        pair_values(captured(ts, instantiate(ts, vals))) == vals,
    decreases ts.len(),
{
    if ts.len() > 0 {
        let xs = instantiate(ts, vals);
        if is_placeholder(ts.last()) {
            lemma_captured_complete(ts.drop_last(), vals.drop_last());
            assert(xs.drop_last() == instantiate(ts.drop_last(), vals.drop_last()));
            assert(pair_values(captured(ts, xs)) =~= pair_values(captured(ts.drop_last(), xs.drop_last())).push(vals.last()));
            assert(pair_values(captured(ts, xs)) =~= vals);
        } else {
            lemma_captured_complete(ts.drop_last(), vals);
            assert(xs.drop_last() == instantiate(ts.drop_last(), vals));
            assert(pair_values(captured(ts, xs)) =~= pair_values(captured(ts.drop_last(), xs.drop_last())));
        }
        assert forall|i: int| 0 <= i < ts.len() && !is_placeholder(#[trigger] ts[i]) implies ts[i] == xs[i] by {
            if i < ts.len() - 1 {
                assert(ts.drop_last()[i] == ts[i]);
                assert(xs.drop_last()[i] == xs[i]);
            }
        }
    } else {
        assert(pair_values(captured(ts, instantiate(ts, vals))) =~= vals);
    }
}

/// Matching is sound: when a path matches a template, putting the captured values
/// in place of the template's placeholders gives back the path's segments.
pub proof fn law_match_sound(template: Seq<char>, actual: Seq<char>)
    requires
        match_template_spec(template, actual) is Some,
    ensures
        instantiate(segments_spec(template), pair_values(match_template_spec(template, actual)->0))
            == segments_spec(actual),
{
    lemma_captured_sound(segments_spec(template), segments_spec(actual));
}

/// Matching is complete: when the path's segments are the template's with some values
/// in place of its placeholders, the path matches and exactly those values are captured.
pub proof fn law_match_complete(template: Seq<char>, actual: Seq<char>, vals: Seq<Seq<char>>)
    requires
        vals.len() == placeholder_count(segments_spec(template)),
        instantiate(segments_spec(template), vals) == segments_spec(actual),
    ensures
        match_template_spec(template, actual) is Some,
        pair_values(match_template_spec(template, actual)->0) == vals,
{
    lemma_captured_complete(segments_spec(template), vals);
}

} // verus!
