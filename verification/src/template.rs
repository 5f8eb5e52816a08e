//! Templates in URLs, header values and bodies: `{{name}}` is replaced by a variable's
//! value and `{{env:NAME}}` by the value of an environment variable.
use vstd::prelude::*;
use crate::text::{chars_of, string_of};

verus! {

/// Whether `pat` occurs in `s` at position `i`.
pub open spec fn occurs_at(s: Seq<char>, i: int, pat: Seq<char>) -> bool {
    0 <= i && i + pat.len() <= s.len() && s.subrange(i, i + pat.len()) == pat
}

/// The position of the first occurrence of `pat` in `s`, if any.
pub open spec fn find_spec(s: Seq<char>, pat: Seq<char>) -> Option<int>
    decreases s.len(),
{
    if s.len() < pat.len() {
        None
    } else if s.subrange(0, pat.len() as int) == pat {
        Some(0)
    } else if s.len() == 0 {
        None
    } else {
        match find_spec(s.drop_first(), pat) {
            Some(i) => Some(i + 1),
            None => None,
        }
    }
}

pub proof fn lemma_find(s: Seq<char>, pat: Seq<char>)
    ensures
        match find_spec(s, pat) {
            Some(i) => occurs_at(s, i, pat) && forall|k: int| 0 <= k < i ==> !occurs_at(s, k, pat),
            None => forall|k: int| !occurs_at(s, k, pat),
        },
    decreases s.len(),
{
    if s.len() < pat.len() {
    } else if s.subrange(0, pat.len() as int) == pat {
    } else if s.len() == 0 {
    } else {
        lemma_find(s.drop_first(), pat);
        assert forall|k: int| 1 <= k && occurs_at(s, k, pat) implies occurs_at(s.drop_first(), k - 1, pat) by {
            assert(s.drop_first().subrange(k - 1, k - 1 + pat.len()) == s.subrange(k, k + pat.len()));
        }
        assert forall|k: int| 1 <= k && occurs_at(s.drop_first(), k - 1, pat) implies occurs_at(s, k, pat) by {
            assert(s.drop_first().subrange(k - 1, k - 1 + pat.len()) == s.subrange(k, k + pat.len()));
        }
    }
}

/// `s` with every occurrence of the non-empty `pat` replaced by `rep`, scanning left to
/// right without overlaps, as `str::replace` does.
pub open spec fn replace_spec(s: Seq<char>, pat: Seq<char>, rep: Seq<char>) -> Seq<char>
    decreases s.len(),
{
    if pat.len() == 0 || s.len() < pat.len() {
        s
    } else if s.subrange(0, pat.len() as int) == pat {
        rep + replace_spec(s.subrange(pat.len() as int, s.len() as int), pat, rep)
    } else {
        seq![s[0]] + replace_spec(s.drop_first(), pat, rep)
    }
}

/// The placeholder of a variable: `{{name}}`.
pub open spec fn placeholder(name: Seq<char>) -> Seq<char> {
    seq!['{', '{'] + name + seq!['}', '}']
}

/// `s` with the placeholder of each variable replaced by its value, variable after variable.
pub open spec fn substitute_vars(s: Seq<char>, vars: Seq<(Seq<char>, Seq<char>)>) -> Seq<char>
    decreases vars.len(),
{
    if vars.len() == 0 {
        s
    } else {
        substitute_vars(replace_spec(s, placeholder(vars[0].0), vars[0].1), vars.drop_first())
    }
}

/// The value of an environment variable in a table of (name, value) pairs: the first
/// match, or the empty text when the variable is not set.
pub open spec fn env_lookup(env: Seq<(Seq<char>, Seq<char>)>, name: Seq<char>) -> Seq<char>
    decreases env.len(),
{
    if env.len() == 0 {
        seq![]
    } else if env[0].0 == name {
        env[0].1
    } else {
        env_lookup(env.drop_first(), name)
    }
}

pub open spec fn env_open() -> Seq<char> {
    seq!['{', '{', 'e', 'n', 'v', ':']
}

pub open spec fn close_braces() -> Seq<char> {
    seq!['}', '}']
}

/// `s` with each `{{env:NAME}}` replaced by the variable's value, left to right; the
/// text put in is not scanned again, and an opening without a closing `}}` ends the scan.
pub open spec fn substitute_env(s: Seq<char>, env: Seq<(Seq<char>, Seq<char>)>) -> Seq<char>
    decreases s.len(),
{
    match find_spec(s, env_open()) {
        None => s,
        Some(i) => match find_spec(s.subrange(i, s.len() as int), close_braces()) {
            None => s,
            Some(j) => if i < 0 || j < 6 || i + j + 2 > s.len() {
                s
            } else {
                s.subrange(0, i) + env_lookup(env, s.subrange(i + 6, i + j))
                    + substitute_env(s.subrange(i + j + 2, s.len() as int), env)
            },
        },
    }
}

/// A rendered template: variables first, then environment variables.
pub open spec fn render_spec(text: Seq<char>, vars: Seq<(Seq<char>, Seq<char>)>, env: Seq<(Seq<char>, Seq<char>)>) -> Seq<char> {
    substitute_env(substitute_vars(text, vars), env)
}


proof fn lemma_occurs_shift(s: Seq<char>, from: int, pat: Seq<char>)
    requires
        0 <= from <= s.len(),
    ensures
        forall|k: int| #![trigger occurs_at(s, k, pat)] k >= from ==> (occurs_at(s, k, pat) <==> occurs_at(s.subrange(from, s.len() as int), k - from, pat)),
{
    assert forall|k: int| #![trigger occurs_at(s, k, pat)] k >= from implies (occurs_at(s, k, pat) <==> occurs_at(s.subrange(from, s.len() as int), k - from, pat)) by {
        if k + pat.len() <= s.len() {
            assert(s.subrange(from, s.len() as int).subrange(k - from, k - from + pat.len()) == s.subrange(k, k + pat.len()));
        }
    }
}

fn occurs_exec(s: &[char], i: usize, pat: &[char]) -> (r: bool)
    ensures
        r == occurs_at(s@, i as int, pat@),
{
    if pat.len() > s.len() || i > s.len() - pat.len() {
        return false;
    }
    let mut k: usize = 0;
    while k < pat.len()
        invariant
            i + pat.len() <= s.len(),
            k <= pat.len(),
            forall|t: int| 0 <= t < k ==> s@[i + t] == pat@[t],
        decreases pat.len() - k,
    {
        if s[i + k] != pat[k] {
            assert(s@.subrange(i as int, i + pat.len())[k as int] != pat@[k as int]);
            return false;
        }
        k += 1;
    }
    assert(s@.subrange(i as int, i + pat.len()) =~= pat@);
    true
}

/// The first occurrence of `pat` at or after `from`.
pub(crate) fn find_from(s: &[char], from: usize, pat: &[char]) -> (r: Option<usize>)
    requires
        from <= s.len(),
    ensures
        match r {
            Some(k) => k >= from && find_spec(s@.subrange(from as int, s@.len() as int), pat@) == Some(k - from),
            None => find_spec(s@.subrange(from as int, s@.len() as int), pat@) is None,
        },
{
    let ghost sub = s@.subrange(from as int, s@.len() as int);
    proof {
        lemma_occurs_shift(s@, from as int, pat@);
        lemma_find(sub, pat@);
    }
    let mut k = from;
    loop
        invariant
            from <= k <= s.len(),
            sub == s@.subrange(from as int, s@.len() as int),
            forall|t: int| #![trigger occurs_at(s@, t, pat@)] t >= from ==> (occurs_at(s@, t, pat@) <==> occurs_at(sub, t - from, pat@)),
            match find_spec(sub, pat@) {
                Some(i) => occurs_at(sub, i, pat@) && forall|t: int| 0 <= t < i ==> !occurs_at(sub, t, pat@),
                None => forall|t: int| !occurs_at(sub, t, pat@),
            },
            forall|t: int| from <= t < k ==> !occurs_at(s@, t, pat@),
        ensures
            forall|t: int| from <= t <= s.len() ==> !occurs_at(s@, t, pat@),
        decreases s.len() - k,
    {
        if occurs_exec(s, k, pat) {
            proof {
                assert(occurs_at(sub, k - from, pat@));
                match find_spec(sub, pat@) {
                    Some(i) => {
                        if i < k - from {
                            assert(occurs_at(s@, i + from, pat@));
                        }
                        if i > k - from {
                            assert(!occurs_at(sub, k - from, pat@));
                        }
                    },
                    None => {},
                }
            }
            return Some(k);
        }
        if k == s.len() {
            break;
        }
        k += 1;
    }
    proof {
        match find_spec(sub, pat@) {
            Some(i) => {
                assert(occurs_at(sub, i, pat@));
                assert(occurs_at(s@, i + from, pat@));
                assert(false);
            },
            None => {},
        }
    }
    None
}

/// Replaces every occurrence of a non-empty `pat` (see `replace_spec`).
pub(crate) fn replace_all(s: &[char], pat: &[char], rep: &[char]) -> (r: Vec<char>)
    requires
        pat@.len() > 0,
    ensures
        r@ == replace_spec(s@, pat@, rep@),
{
    let mut out: Vec<char> = Vec::new();
    let mut i: usize = 0;
    assert(s@.subrange(0, s@.len() as int) == s@);
    while i < s.len()
        invariant
            pat@.len() > 0,
            i <= s.len(),
            out@ + replace_spec(s@.subrange(i as int, s@.len() as int), pat@, rep@) == replace_spec(s@, pat@, rep@),
        decreases s.len() - i,
    {
        let ghost rest = s@.subrange(i as int, s@.len() as int);
        if occurs_exec(s, i, pat) {
            assert(rest.subrange(0, pat@.len() as int) == s@.subrange(i as int, i + pat@.len()));
            assert(rest.subrange(pat@.len() as int, rest.len() as int) == s@.subrange(i + pat@.len(), s@.len() as int));
            let mut k: usize = 0;
            let ghost out0 = out@;
            while k < rep.len()
                invariant
                    k <= rep.len(),
                    out@ == out0 + rep@.take(k as int),
                decreases rep.len() - k,
            {
                out.push(rep[k]);
                assert(rep@.take(k + 1) == rep@.take(k as int).push(rep@[k as int]));
                k += 1;
            }
            assert(rep@.take(rep.len() as int) == rep@);
            assert(out0 + (rep@ + replace_spec(s@.subrange(i + pat@.len(), s@.len() as int), pat@, rep@))
                == out@ + replace_spec(s@.subrange(i + pat@.len(), s@.len() as int), pat@, rep@));
            i = i + pat.len();
        } else {
            proof {
                assert(rest.drop_first() == s@.subrange(i + 1, s@.len() as int));
                if rest.len() < pat@.len() {
                    assert(rest.drop_first().len() < pat@.len());
                    assert(replace_spec(rest, pat@, rep@) == rest);
                    assert(replace_spec(rest.drop_first(), pat@, rep@) == rest.drop_first());
                    assert(rest == seq![rest[0]] + rest.drop_first());
                } else {
                    assert(rest.subrange(0, pat@.len() as int) == s@.subrange(i as int, i + pat@.len()));
                }
            }
            let ghost out0 = out@;
            out.push(s[i]);
            assert(out0 + (seq![s@[i as int]] + replace_spec(rest.drop_first(), pat@, rep@))
                == out@ + replace_spec(rest.drop_first(), pat@, rep@));
            i += 1;
        }
    }
    assert(replace_spec(s@.subrange(s@.len() as int, s@.len() as int), pat@, rep@) =~= Seq::<char>::empty());
    assert(out@ + Seq::<char>::empty() == out@);
    out
}


/// The view of a list of (name, value) string pairs.
pub open spec fn table_view(v: Seq<(String, String)>) -> Seq<(Seq<char>, Seq<char>)> {
    v.map_values(|p: (String, String)| (p.0@, p.1@))
}

fn append_chars(out: &mut Vec<char>, s: &[char], from: usize, to: usize)
    requires
        from <= to <= s.len(),
    ensures
        final(out)@ == old(out)@ + s@.subrange(from as int, to as int),
{
    let mut k = from;
    while k < to
        invariant
            from <= k <= to,
            to <= s.len(),
            out@ == old(out)@ + s@.subrange(from as int, k as int),
        decreases to - k,
    {
        out.push(s[k]);
        assert(s@.subrange(from as int, k + 1) == s@.subrange(from as int, k as int).push(s@[k as int]));
        k += 1;
    }
}

fn lookup_env(env: &[(String, String)], name: &[char]) -> (r: Vec<char>)
    ensures
        r@ == env_lookup(table_view(env@), name@),
{
    let mut i: usize = 0;
    assert(table_view(env@).subrange(0, env@.len() as int) == table_view(env@));
    while i < env.len()
        invariant
            i <= env.len(),
            env_lookup(table_view(env@), name@) == env_lookup(table_view(env@).subrange(i as int, env@.len() as int), name@),
        decreases env.len() - i,
    {
        let ghost rest = table_view(env@).subrange(i as int, env@.len() as int);
        assert(rest[0] == (env@[i as int].0@, env@[i as int].1@));
        assert(rest.drop_first() == table_view(env@).subrange(i + 1, env@.len() as int));
        let k = chars_of(env[i].0.as_str());
        if crate::text::chars_eq(k.as_slice(), name) {
            return chars_of(env[i].1.as_str());
        }
        i += 1;
    }
    assert(table_view(env@).subrange(i as int, env@.len() as int) =~= Seq::<(Seq<char>, Seq<char>)>::empty());
    Vec::new()
}

proof fn lemma_close_after_open(s: Seq<char>, a: int, b: int)
    requires
        occurs_at(s, a, env_open()),
        occurs_at(s, b, close_braces()),
        b >= a,
    ensures
        b >= a + 6,
{
    if b < a + 6 {
        assert(s[b] == close_braces()[0]);
        assert(s[b] == s.subrange(a, a + 6)[b - a]);
        assert(env_open()[b - a] != '}');
    }
}

fn substitute_env_exec(s: &[char], env: &[(String, String)]) -> (r: Vec<char>)
    ensures
        r@ == substitute_env(s@, table_view(env@)),
{
    let open: Vec<char> = vec!['{', '{', 'e', 'n', 'v', ':'];
    let close: Vec<char> = vec!['}', '}'];
    assert(open@ =~= env_open());
    assert(close@ =~= close_braces());
    let ghost ev = table_view(env@);
    let mut out: Vec<char> = Vec::new();
    let mut i: usize = 0;
    assert(s@.subrange(0, s@.len() as int) == s@);
    loop
        invariant_except_break
            out@ + substitute_env(s@.subrange(i as int, s@.len() as int), ev) == substitute_env(s@, ev),
        invariant
            i <= s.len(),
            open@ == env_open(),
            close@ == close_braces(),
            ev == table_view(env@),
        ensures
            out@ == substitute_env(s@, ev),
        decreases s.len() - i,
    {
        let ghost rest = s@.subrange(i as int, s@.len() as int);
        match find_from(s, i, open.as_slice()) {
            None => {
                assert(substitute_env(rest, ev) == rest);
                append_chars(&mut out, s, i, s.len());
                break;
            },
            Some(a) => {
                proof {
                    lemma_find(rest, env_open());
                    lemma_occurs_shift(s@, i as int, env_open());
                    assert(occurs_at(s@, a as int, env_open()));
                    assert(rest.subrange(a - i, rest.len() as int) == s@.subrange(a as int, s@.len() as int));
                }
                match find_from(s, a, close.as_slice()) {
                    None => {
                        assert(substitute_env(rest, ev) == rest);
                        append_chars(&mut out, s, i, s.len());
                        break;
                    },
                    Some(b) => {
                        proof {
                            lemma_find(s@.subrange(a as int, s@.len() as int), close_braces());
                            lemma_occurs_shift(s@, a as int, close_braces());
                            assert(occurs_at(s@, b as int, close_braces()));
                            lemma_close_after_open(s@, a as int, b as int);
                            let j = b - a;
                            let a2 = a - i;
                            assert(rest.subrange(0, a2) == s@.subrange(i as int, a as int));
                            assert(rest.subrange(a2 + 6, a2 + j) == s@.subrange(a + 6, b as int));
                            assert(rest.subrange(a2 + j + 2, rest.len() as int) == s@.subrange(b + 2, s@.len() as int));
                        }
                        let name = &s[a + 6..b];
                        let value = lookup_env(env, name);
                        let ghost out0 = out@;
                        append_chars(&mut out, s, i, a);
                        append_chars(&mut out, value.as_slice(), 0, value.len());
                        assert(value@.subrange(0, value@.len() as int) == value@);
                        assert(out@ + substitute_env(s@.subrange(b + 2, s@.len() as int), ev)
                            == out0 + substitute_env(rest, ev));
                        i = b + 2;
                    },
                }
            },
        }
    }
    out
}

pub(crate) fn placeholder_exec(name: &str) -> (r: Vec<char>)
    ensures
        r@ == placeholder(name@),
{
    let n = chars_of(name);
    let mut v: Vec<char> = vec!['{', '{'];
    append_chars(&mut v, n.as_slice(), 0, n.len());
    v.push('}');
    v.push('}');
    assert(n@.subrange(0, n@.len() as int) == n@);
    assert(v@ =~= placeholder(name@));
    v
}

/// Renders a template: the placeholder `{{name}}` of each variable is replaced by the
/// variable's value, variable after variable; then each `{{env:NAME}}` is replaced by
/// the value that `env` gives the name, or by nothing when it gives none.
pub fn render(text: &str, variables: &[(String, String)], env: &[(String, String)]) -> (r: String)
    ensures
        r@ == render_spec(text@, table_view(variables@), table_view(env@)),
{
    let mut cur = chars_of(text);
    let mut i: usize = 0;
    let ghost vv = table_view(variables@);
    assert(vv.subrange(0, vv.len() as int) == vv);
    while i < variables.len()
        invariant
            i <= variables.len(),
            vv == table_view(variables@),
            substitute_vars(text@, vv) == substitute_vars(cur@, vv.subrange(i as int, vv.len() as int)),
        decreases variables.len() - i,
    {
        let ghost rest = vv.subrange(i as int, vv.len() as int);
        assert(rest[0] == (variables@[i as int].0@, variables@[i as int].1@));
        assert(rest.drop_first() == vv.subrange(i + 1, vv.len() as int));
        let pat = placeholder_exec(variables[i].0.as_str());
        let rep = chars_of(variables[i].1.as_str());
        cur = replace_all(cur.as_slice(), pat.as_slice(), rep.as_slice());
        i += 1;
    }
    assert(vv.subrange(vv.len() as int, vv.len() as int) =~= Seq::<(Seq<char>, Seq<char>)>::empty());
    let out = substitute_env_exec(cur.as_slice(), env);
    string_of(out.as_slice())
}

proof fn lemma_no_braces_no_occurrence(s: Seq<char>, pat: Seq<char>, k: int)
    requires
        forall|t: int| !occurs_at(s, t, seq!['{', '{']),
        pat.len() >= 2,
        pat[0] == '{',
        pat[1] == '{',
    ensures
        !occurs_at(s, k, pat),
{
    if occurs_at(s, k, pat) {
        assert(s.subrange(k, k + 2) =~= seq!['{', '{']) by {
            assert(s[k] == s.subrange(k, k + pat.len())[0]);
            assert(s[k + 1] == s.subrange(k, k + pat.len())[1]);
        }
        assert(occurs_at(s, k, seq!['{', '{']));
    }
}

proof fn lemma_replace_absent(s: Seq<char>, pat: Seq<char>, rep: Seq<char>)
    requires
        pat.len() > 0,
        forall|t: int| !occurs_at(s, t, pat),
    ensures
        replace_spec(s, pat, rep) == s,
    decreases s.len(),
{
    if s.len() >= pat.len() {
        assert(!occurs_at(s, 0, pat));
        assert forall|t: int| !occurs_at(s.drop_first(), t, pat) by {
            if occurs_at(s.drop_first(), t, pat) {
                assert(s.drop_first().subrange(t, t + pat.len()) == s.subrange(t + 1, t + 1 + pat.len()));
                assert(occurs_at(s, t + 1, pat));
            }
        }
        lemma_replace_absent(s.drop_first(), pat, rep);
        assert(s == seq![s[0]] + s.drop_first());
    }
}

proof fn lemma_vars_absent(s: Seq<char>, vars: Seq<(Seq<char>, Seq<char>)>)
    requires
        forall|t: int| !occurs_at(s, t, seq!['{', '{']),
    ensures
        substitute_vars(s, vars) == s,
    decreases vars.len(),
{
    if vars.len() > 0 {
        let pat = placeholder(vars[0].0);
        assert forall|t: int| !occurs_at(s, t, pat) by {
            lemma_no_braces_no_occurrence(s, pat, t);
        }
        lemma_replace_absent(s, pat, vars[0].1);
        lemma_vars_absent(s, vars.drop_first());
    }
}

/// A text without `{{` renders to itself, whatever the variables and the environment.
pub proof fn law_render_leaves_plain_text(text: Seq<char>, vars: Seq<(Seq<char>, Seq<char>)>, env: Seq<(Seq<char>, Seq<char>)>)
    requires
        forall|t: int| !occurs_at(text, t, seq!['{', '{']),
    ensures
        render_spec(text, vars, env) == text,
{
    lemma_vars_absent(text, vars);
    lemma_find(text, env_open());
    match find_spec(text, env_open()) {
        Some(i) => {
            lemma_no_braces_no_occurrence(text, env_open(), i);
        },
        None => {},
    }
}

} // verus!
