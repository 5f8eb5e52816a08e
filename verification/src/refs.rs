//! References between the files of an OpenAPI document: `$ref` entries naming another
//! file, JSON pointers into it, and the resolution of a document against the files it
//! names.
use vstd::prelude::*;
use crate::text::{first_index, lemma_first_index_at, chars_of, string_of};
use crate::template::{replace_all, replace_spec};
use crate::paths::{join_spec, join_path};
use crate::discovery::{spec_path_parent, path_parent};

verus! {

/// A JSON value as the library holds it. Numbers keep their text; an object keeps its
/// members in the order they were read.
#[derive(Debug, PartialEq)]
pub enum JsonValue {
    Null,
    Bool(bool),
    Number(String),
    Str(String),
    Array(Vec<JsonValue>),
    Object(Vec<(String, JsonValue)>),
}

/// The mathematical form of a JSON value.
pub enum Json {
    Null,
    Bool(bool),
    Number(Seq<char>),
    Str(Seq<char>),
    Array(Seq<Json>),
    Object(Seq<(Seq<char>, Json)>),
}

/// The value `serde_yaml` reads a YAML text into (`serde_json::Value`), carried through
/// unopened.
#[verifier::external_type_specification]
#[verifier::external_body]
pub struct ExSerdeJsonValue(serde_json::Value);

impl From<&serde_json::Value> for JsonValue {
    /// A `serde_json` value as the library holds it, one for one: numbers by their text,
    /// object members in the map's order.
    #[verifier::external_body]
    fn from(v: &serde_json::Value) -> JsonValue {
        match v {
            serde_json::Value::Null => JsonValue::Null,
            serde_json::Value::Bool(b) => JsonValue::Bool(*b),
            serde_json::Value::Number(n) => JsonValue::Number(n.to_string()),
            serde_json::Value::String(t) => JsonValue::Str(t.clone()),
            serde_json::Value::Array(items) => JsonValue::Array(items.iter().map(JsonValue::from).collect()),
            serde_json::Value::Object(map) => JsonValue::Object(map.iter().map(|(k, x)| (k.clone(), JsonValue::from(x))).collect()),
        }
    }
}

impl From<&JsonValue> for serde_json::Value {
    /// A value of the library as a `serde_json` value, one for one: a number from its text
    /// (a text that is no number stays a string).
    #[verifier::external_body]
    fn from(v: &JsonValue) -> serde_json::Value {
        match v {
            JsonValue::Null => serde_json::Value::Null,
            JsonValue::Bool(b) => serde_json::Value::Bool(*b),
            JsonValue::Number(n) => n.parse().map(serde_json::Value::Number).unwrap_or_else(|_| serde_json::Value::String(n.clone())),
            JsonValue::Str(t) => serde_json::Value::String(t.clone()),
            JsonValue::Array(items) => serde_json::Value::Array(items.iter().map(serde_json::Value::from).collect()),
            JsonValue::Object(ms) => serde_json::Value::Object(ms.iter().map(|(k, x)| (k.clone(), serde_json::Value::from(x))).collect()),
        }
    }
}

/// What `serde_yaml` reads from a YAML text, as a JSON value, or nothing when the text is
/// not YAML that a JSON value can hold.
pub uninterp spec fn spec_yaml_value(text: Seq<char>) -> Option<Json>;

/// Reads a YAML text with `serde_yaml::from_str` into a `serde_json::Value` and carries
/// it over to the library's value; the error's message when the text cannot be read.
#[verifier::external_body]
fn yaml_value(text: &str) -> (r: Result<JsonValue, String>)
    ensures
        match r {
            Ok(v) => spec_yaml_value(text@) == Some(json_of(v)),
            Err(_) => spec_yaml_value(text@) is None,
        },
{
    serde_yaml::from_str::<serde_json::Value>(text).map(|v| JsonValue::from(&v)).map_err(|e| e.to_string())
}

/// The value of a YAML file's text (see `spec_yaml_value`), or the message of the error
/// that stopped the reading.
pub fn parse_yaml_value(text: &str) -> (r: Result<JsonValue, String>)
    ensures
        match r {
            Ok(v) => spec_yaml_value(text@) == Some(json_of(v)),
            Err(_) => spec_yaml_value(text@) is None,
        },
{
    yaml_value(text)
}

/// The mathematical form of a `JsonValue`.
pub open spec fn json_of(v: JsonValue) -> Json
    decreases v,
{
    match v {
        JsonValue::Null => Json::Null,
        JsonValue::Bool(b) => Json::Bool(b),
        JsonValue::Number(n) => Json::Number(n@),
        JsonValue::Str(s) => Json::Str(s@),
        JsonValue::Array(items) => Json::Array(Seq::new(items.len() as nat, |i: int|
            if 0 <= i < items.len() { json_of(items[i]) } else { Json::Null })),
        JsonValue::Object(members) => Json::Object(Seq::new(members.len() as nat, |i: int|
            if 0 <= i < members.len() { (members[i].0@, json_of(members[i].1)) } else { (seq![], Json::Null) })),
    }
}

/// The literal `$ref`.
pub open spec fn ref_key() -> Seq<char> {
    seq!['$', 'r', 'e', 'f']
}

/// The value of the first member named `key`, as `Map::get` finds it.
pub open spec fn member(ms: Seq<(Seq<char>, Json)>, key: Seq<char>) -> Option<Json>
    decreases ms.len(),
{
    if ms.len() == 0 {
        None
    } else if ms[0].0 == key {
        Some(ms[0].1)
    } else {
        member(ms.drop_first(), key)
    }
}

/// The text of an object's `$ref` member, when it has one and it is a string.
pub open spec fn ref_of(ms: Seq<(Seq<char>, Json)>) -> Option<Seq<char>> {
    match member(ms, ref_key()) {
        Some(Json::Str(s)) => Some(s),
        _ => None,
    }
}

/// The file a reference names and the pointer after its first `#`, if it has one. A
/// reference within the document (starting with `#`) or to the web (starting with
/// `http`) names no file.
pub open spec fn ref_target(r: Seq<char>) -> Option<(Seq<char>, Option<Seq<char>>)> {
    if (r.len() > 0 && r[0] == '#') || (r.len() >= 4 && r.take(4) == seq!['h', 't', 't', 'p']) {
        None
    } else {
        let i = first_index(r, '#') as int;
        if i < r.len() {
            Some((r.take(i), Some(r.skip(i + 1))))
        } else {
            Some((r, None))
        }
    }
}

/// `s` without the slashes it starts with.
pub open spec fn trim_slashes(s: Seq<char>) -> Seq<char>
    decreases s.len(),
{
    if s.len() > 0 && s[0] == '/' {
        trim_slashes(s.drop_first())
    } else {
        s
    }
}

/// The pieces of `s` between slashes, as `str::split('/')` gives them: one more piece
/// than there are slashes, empty pieces included.
pub open spec fn split_slash(s: Seq<char>) -> Seq<Seq<char>>
    decreases s.len(),
{
    if s.len() == 0 {
        seq![seq![]]
    } else {
        let init = split_slash(s.drop_last());
        if s.last() == '/' {
            init.push(seq![])
        } else {
            init.update(init.len() - 1, init.last().push(s.last()))
        }
    }
}

/// A pointer token with its escapes undone: `~1` is a slash, then `~0` is a tilde.
pub open spec fn unescape(t: Seq<char>) -> Seq<char> {
    replace_spec(replace_spec(t, seq!['~', '1'], seq!['/']), seq!['~', '0'], seq!['~'])
}

/// The tokens of a JSON pointer: the pieces between slashes after the leading slashes,
/// each unescaped.
pub open spec fn pointer_tokens(p: Seq<char>) -> Seq<Seq<char>> {
    split_slash(trim_slashes(p)).map_values(|t: Seq<char>| unescape(t))
}

/// Whether every character is an ASCII digit.
pub open spec fn all_digits(s: Seq<char>) -> bool {
    forall|i: int| 0 <= i < s.len() ==> '0' <= #[trigger] s[i] <= '9'
}

/// The number that a run of decimal digits writes.
pub open spec fn digits_value(s: Seq<char>) -> int
    decreases s.len(),
{
    if s.len() == 0 {
        0
    } else {
        digits_value(s.drop_last()) * 10 + (s.last() as int - '0' as int)
    }
}

/// An array index as `str::parse::<usize>` reads it: an optional `+`, then at least one
/// decimal digit and nothing else, with a value that fits in `usize`.
pub open spec fn parse_index(t: Seq<char>) -> Option<int> {
    let d = if t.len() > 0 && t[0] == '+' { t.drop_first() } else { t };
    if d.len() > 0 && all_digits(d) && digits_value(d) <= usize::MAX {
        Some(digits_value(d))
    } else {
        None
    }
}

/// What went wrong while following a reference.
pub enum RefFault {
    /// An object has no member named by the token.
    NotFound(Seq<char>),
    /// A token used on an array is not an index.
    BadIndex(Seq<char>),
    /// An index is past the end of the array.
    OutOfRange(int),
    /// A token was used on a value that is neither an object nor an array.
    NotContainer(Seq<char>),
    /// A file refers, through the references it holds, back to itself; the file is the
    /// one met again.
    Cycle(Seq<char>),
}

/// The value that the tokens lead to from `v`, or where the way ends.
pub open spec fn follow(v: Json, tokens: Seq<Seq<char>>) -> Result<Json, RefFault>
    decreases tokens.len(),
{
    if tokens.len() == 0 {
        Ok(v)
    } else {
        let t = tokens[0];
        match v {
            Json::Object(ms) => match member(ms, t) {
                Some(x) => follow(x, tokens.drop_first()),
                None => Err(RefFault::NotFound(t)),
            },
            Json::Array(items) => match parse_index(t) {
                Some(i) => if i < items.len() {
                    follow(items[i], tokens.drop_first())
                } else {
                    Err(RefFault::OutOfRange(i))
                },
                None => Err(RefFault::BadIndex(t)),
            },
            _ => Err(RefFault::NotContainer(t)),
        }
    }
}

/// The part of a resolved file that a reference takes: the whole file without a
/// pointer, with an empty pointer or with `/`; else what the pointer leads to.
pub open spec fn pointed(v: Json, ptr: Option<Seq<char>>) -> Result<Json, RefFault> {
    match ptr {
        None => Ok(v),
        Some(p) => if p.len() == 0 || p == seq!['/'] {
            Ok(v)
        } else {
            follow(v, pointer_tokens(p))
        },
    }
}

/// The directory against which the references of a file are read: its parent, or `.`
/// for a path without one.
pub open spec fn base_of(p: Seq<char>) -> Seq<char> {
    match spec_path_parent(p) {
        Some(q) => q,
        None => seq!['.'],
    }
}

/// The index of the first member (or file) with the given name, or their number when
/// none has it.
pub open spec fn key_index(ms: Seq<(Seq<char>, Json)>, key: Seq<char>) -> nat
    decreases ms.len(),
{
    if ms.len() == 0 {
        0
    } else if ms[0].0 == key {
        0
    } else {
        1 + key_index(ms.drop_first(), key)
    }
}

proof fn lemma_key_index(ms: Seq<(Seq<char>, Json)>, key: Seq<char>)
    ensures
        key_index(ms, key) <= ms.len(),
        key_index(ms, key) < ms.len() ==> ms[key_index(ms, key) as int].0 == key
            && member(ms, key) == Some(ms[key_index(ms, key) as int].1),
        key_index(ms, key) == ms.len() ==> member(ms, key) is None,
    decreases ms.len(),
{
    if ms.len() > 0 && ms[0].0 != key {
        lemma_key_index(ms.drop_first(), key);
    }
}

/// A chain of distinct files of a table of `n` files, none of them `fi`, is shorter than
/// the table: the files being resolved one inside the other can only run out by
/// coming back to one of them.
pub proof fn law_chain_shorter(chain: Seq<int>, n: int, fi: int)
    requires
        chain.no_duplicates(),
        forall|i: int| 0 <= i < chain.len() ==> 0 <= #[trigger] chain[i] < n,
        0 <= fi < n,
        !chain.contains(fi),
    ensures
        chain.len() < n,
{
    broadcast use vstd::seq_lib::seq_to_set_is_finite;
    chain.unique_seq_to_set();
    let s = chain.to_set().insert(fi);
    vstd::set_lib::lemma_int_range(0, n);
    assert(s.subset_of(vstd::set_lib::set_int_range(0, n))) by {
        assert forall|x: int| s.contains(x) implies vstd::set_lib::set_int_range(0, n).contains(x) by {
            if x != fi {
                assert(chain.to_set().contains(x));
                let i = choose|i: int| 0 <= i < chain.len() && chain[i] == x;
            }
        }
    }
    vstd::set_lib::lemma_len_subset(s, vstd::set_lib::set_int_range(0, n));
    assert(!chain.to_set().contains(fi));
}

/// Why a resolution stopped: a file that is not in the table yet and is the next one
/// to read, or a fault.
pub enum Stop {
    Need(Seq<char>),
    Failed(RefFault),
}

/// A value with every reference to another file replaced by what it names, and the
/// paths of the files read, in the order they were read (a file once per reference).
/// The references in a value are taken in document order; a reference inside a file is
/// read against that file's directory. `chain` holds the indices in the table of the
/// files being resolved around the value; a reference to one of them is a cycle. (The
/// chain of distinct files is always shorter than the table, see `law_chain_shorter`,
/// so the length test only ever holds on a cycle.)
pub open spec fn resolve_value(v: Json, base: Seq<char>, files: Seq<(Seq<char>, Json)>, chain: Seq<int>) -> Result<(Json, Seq<Seq<char>>), Stop>
    decreases files.len() - chain.len(), v,
{
    match v {
        Json::Object(ms) => {
            let target = match ref_of(ms) {
                Some(r) => ref_target(r),
                None => None,
            };
            match target {
                Some((file, ptr)) => {
                    let path = join_spec(base, file);
                    let fi = key_index(files, path) as int;
                    if fi >= files.len() {
                        Err(Stop::Need(path))
                    } else if chain.contains(fi) || chain.len() >= files.len() {
                        Err(Stop::Failed(RefFault::Cycle(path)))
                    } else {
                        match resolve_value(files[fi].1, base_of(path), files, chain.push(fi)) {
                            Ok((rv, tr)) => match pointed(rv, ptr) {
                                Ok(x) => Ok((x, seq![path] + tr)),
                                Err(e) => Err(Stop::Failed(e)),
                            },
                            Err(s) => Err(s),
                        }
                    }
                },
                None => match resolve_members(ms, base, files, chain) {
                    Ok((ms2, tr)) => Ok((Json::Object(ms2), tr)),
                    Err(s) => Err(s),
                },
            }
        },
        Json::Array(items) => match resolve_items(items, base, files, chain) {
            Ok((xs, tr)) => Ok((Json::Array(xs), tr)),
            Err(s) => Err(s),
        },
        _ => Ok((v, seq![])),
    }
}

/// The items of an array resolved one after the other (see `resolve_value`).
pub open spec fn resolve_items(items: Seq<Json>, base: Seq<char>, files: Seq<(Seq<char>, Json)>, chain: Seq<int>) -> Result<(Seq<Json>, Seq<Seq<char>>), Stop>
    decreases files.len() - chain.len(), items,
{
    if items.len() == 0 {
        Ok((seq![], seq![]))
    } else {
        match resolve_value(items[0], base, files, chain) {
            Ok((x, t)) => match resolve_items(items.drop_first(), base, files, chain) {
                Ok((xs, t2)) => Ok((seq![x] + xs, t + t2)),
                Err(s) => Err(s),
            },
            Err(s) => Err(s),
        }
    }
}

/// The members of an object resolved one after the other (see `resolve_value`).
pub open spec fn resolve_members(ms: Seq<(Seq<char>, Json)>, base: Seq<char>, files: Seq<(Seq<char>, Json)>, chain: Seq<int>) -> Result<(Seq<(Seq<char>, Json)>, Seq<Seq<char>>), Stop>
    decreases files.len() - chain.len(), ms,
{
    if ms.len() == 0 {
        Ok((seq![], seq![]))
    } else {
        match resolve_value(ms[0].1, base, files, chain) {
            Ok((x, t)) => match resolve_members(ms.drop_first(), base, files, chain) {
                Ok((rest, t2)) => Ok((seq![(ms[0].0, x)] + rest, t + t2)),
                Err(s) => Err(s),
            },
            Err(s) => Err(s),
        }
    }
}

/// The file and pointer a reference names (see `ref_target`).
pub fn ref_target_of(r: &str) -> (out: Option<(String, Option<String>)>)
    ensures
        match out {
            Some((f, p)) => ref_target(r@) == Some((f@, match p { Some(q) => Some(q@), None => None::<Seq<char>> })),
            None => ref_target(r@) is None,
        },
{
    let c = chars_of(r);
    if c.len() > 0 && c[0] == '#' {
        return None;
    }
    if c.len() >= 4 && c[0] == 'h' && c[1] == 't' && c[2] == 't' && c[3] == 'p' {
        assert(c@.take(4) =~= seq!['h', 't', 't', 'p']);
        return None;
    }
    proof {
        if c@.len() >= 4 && c@.take(4) == seq!['h', 't', 't', 'p'] {
            assert(c@[0] == c@.take(4)[0]);
            assert(c@[1] == c@.take(4)[1]);
            assert(c@[2] == c@.take(4)[2]);
            assert(c@[3] == c@.take(4)[3]);
        }
    }
    let mut i: usize = 0;
    while i < c.len() && c[i] != '#'
        invariant
            i <= c.len(),
            forall|k: int| 0 <= k < i ==> c@[k] != '#',
        decreases c.len() - i,
    {
        i += 1;
    }
    proof {
        lemma_first_index_at(c@, '#', i as int);
    }
    if i < c.len() {
        let f = string_of(&c.as_slice()[0..i]);
        let q = string_of(&c.as_slice()[i + 1..c.len()]);
        assert(c@.subrange(0, i as int) == c@.take(i as int));
        Some((f, Some(q)))
    } else {
        Some((string_of(&c), None))
    }
}

proof fn lemma_digits_prefix(s: Seq<char>, k: int)
    requires
        all_digits(s),
        0 <= k <= s.len(),
    ensures
        0 <= digits_value(s.take(k)) <= digits_value(s),
    decreases s.len(),
{
    if s.len() > 0 {
        let d = s.drop_last();
        assert(all_digits(d)) by {
            assert forall|i: int| 0 <= i < d.len() implies '0' <= #[trigger] d[i] <= '9' by {
                assert(d[i] == s[i]);
            }
        }
        if k < s.len() {
            lemma_digits_prefix(d, k);
            assert(d.take(k) =~= s.take(k));
        } else {
            lemma_digits_prefix(d, d.len() as int);
            assert(d.take(d.len() as int) =~= d);
            assert(s.take(k) =~= s);
        }
        assert('0' <= s[s.len() - 1] <= '9');
    }
}

/// An array index read as `str::parse::<usize>` reads it (see `parse_index`).
pub fn parse_index_of(t: &[char]) -> (r: Option<usize>)
    ensures
        match r {
            Some(v) => parse_index(t@) == Some(v as int),
            None => parse_index(t@) is None,
        },
{
    let start: usize = if t.len() > 0 && t[0] == '+' { 1 } else { 0 };
    let ghost d = if t@.len() > 0 && t@[0] == '+' { t@.drop_first() } else { t@ };
    assert(d =~= t@.subrange(start as int, t@.len() as int));
    if start >= t.len() {
        return None;
    }
    let mut v: u128 = 0;
    let mut i: usize = start;
    while i < t.len()
        invariant
            start <= i <= t.len(),
            start < t.len(),
            d == t@.subrange(start as int, t@.len() as int),
            d == (if t@.len() > 0 && t@[0] == '+' { t@.drop_first() } else { t@ }),
            all_digits(d.take(i - start)),
            v == digits_value(d.take(i - start)),
            v <= usize::MAX,
        decreases t.len() - i,
    {
        let ch = t[i];
        assert(d[i - start] == ch);
        if !('0' <= ch && ch <= '9') {
            assert(!all_digits(d)) by {
                assert(!('0' <= d[i - start] <= '9'));
            }
            return None;
        }
        let dgt: u128 = ((ch as u32) - ('0' as u32)) as u128;
        let nv: u128 = v * 10 + dgt;
        assert(d.take(i + 1 - start).drop_last() =~= d.take(i - start));
        assert(all_digits(d.take(i + 1 - start))) by {
            assert forall|k: int| 0 <= k < i + 1 - start implies '0' <= #[trigger] d.take(i + 1 - start)[k] <= '9' by {
                if k < i - start {
                    assert(d.take(i + 1 - start)[k] == d.take(i - start)[k]);
                }
            }
        }
        assert(nv == digits_value(d.take(i + 1 - start)));
        if nv > usize::MAX as u128 {
            proof {
                if all_digits(d) {
                    lemma_digits_prefix(d, i + 1 - start);
                }
            }
            return None;
        }
        v = nv;
        i += 1;
    }
    assert(d.take(i - start) =~= d);
    Some(v as usize)
}

/// A pointer token with its escapes undone (see `unescape`).
pub fn unescape_token(t: &[char]) -> (r: String)
    ensures
        r@ == unescape(t@),
{
    let one = vec!['~', '1'];
    let slash = vec!['/'];
    let zero = vec!['~', '0'];
    let tilde = vec!['~'];
    assert(one@ =~= seq!['~', '1']);
    assert(slash@ =~= seq!['/']);
    assert(zero@ =~= seq!['~', '0']);
    assert(tilde@ =~= seq!['~']);
    let a = replace_all(t, one.as_slice(), slash.as_slice());
    let b = replace_all(a.as_slice(), zero.as_slice(), tilde.as_slice());
    string_of(&b)
}

proof fn lemma_trim_slashes(p: Seq<char>, j: int)
    requires
        0 <= j <= p.len(),
        forall|k: int| 0 <= k < j ==> p[k] == '/',
        j == p.len() || p[j] != '/',
    ensures
        trim_slashes(p) == p.skip(j),
    decreases j,
{
    if j == 0 {
        assert(p.skip(0) =~= p);
    } else {
        lemma_trim_slashes(p.drop_first(), j - 1);
        assert(p.drop_first().skip(j - 1) =~= p.skip(j));
    }
}

proof fn lemma_split_slash_len(s: Seq<char>)
    ensures
        split_slash(s).len() >= 1,
    decreases s.len(),
{
    if s.len() > 0 {
        lemma_split_slash_len(s.drop_last());
    }
}

/// The tokens of a JSON pointer (see `pointer_tokens`).
pub fn pointer_tokens_of(p: &[char]) -> (r: Vec<String>)
    ensures
        texts(r@) == pointer_tokens(p@),
{
    let mut j: usize = 0;
    while j < p.len() && p[j] == '/'
        invariant
            j <= p.len(),
            forall|k: int| 0 <= k < j ==> p@[k] == '/',
        decreases p.len() - j,
    {
        j += 1;
    }
    proof {
        lemma_trim_slashes(p@, j as int);
    }
    let ghost q = p@.skip(j as int);
    let mut out: Vec<String> = Vec::new();
    let mut cur: Vec<char> = Vec::new();
    let mut i: usize = j;
    proof {
        assert(q.take(0) =~= Seq::<char>::empty());
        assert(out@.map_values(|s: String| s@) =~= split_slash(q.take(0)).drop_last().map_values(|t: Seq<char>| unescape(t)));
    }
    while i < p.len()
        invariant
            j <= i <= p.len(),
            q == p@.skip(j as int),
            out@.map_values(|s: String| s@) == split_slash(q.take(i - j)).drop_last().map_values(|t: Seq<char>| unescape(t)),
            cur@ == split_slash(q.take(i - j)).last(),
        decreases p.len() - i,
    {
        let ghost pre = q.take(i - j);
        let ghost nxt = q.take(i + 1 - j);
        proof {
            lemma_split_slash_len(pre);
            assert(nxt.drop_last() =~= pre);
            assert(nxt.last() == p@[i as int]);
        }
        if p[i] == '/' {
            let tok = unescape_token(cur.as_slice());
            let ghost old_out = out@;
            let ghost tv = tok@;
            out.push(tok);
            cur = Vec::new();
            proof {
                let sp = split_slash(pre);
                assert(out@.map_values(|s: String| s@) =~= old_out.map_values(|s: String| s@).push(tv));
                assert(sp.map_values(|t: Seq<char>| unescape(t)) =~= sp.drop_last().map_values(|t: Seq<char>| unescape(t)).push(unescape(sp.last())));
                assert(split_slash(nxt) == split_slash(pre).push(seq![]));
                assert(split_slash(nxt).drop_last() =~= split_slash(pre));
                assert(split_slash(pre) =~= split_slash(pre).drop_last().push(split_slash(pre).last()));
                assert(out@.map_values(|s: String| s@) =~= split_slash(nxt).drop_last().map_values(|t: Seq<char>| unescape(t)));
                assert(cur@ =~= split_slash(nxt).last());
            }
        } else {
            cur.push(p[i]);
            proof {
                let sp = split_slash(pre);
                assert(split_slash(nxt) == sp.update(sp.len() - 1, sp.last().push(p@[i as int])));
                assert(split_slash(nxt).drop_last() =~= sp.drop_last());
                assert(cur@ =~= split_slash(nxt).last());
            }
        }
        i += 1;
    }
    let tok = unescape_token(cur.as_slice());
    let ghost old_out = out@;
    let ghost tv = tok@;
    out.push(tok);
    proof {
        assert(q.take(i - j) =~= q);
        lemma_split_slash_len(q);
        let sp = split_slash(q);
        assert(out@.map_values(|s: String| s@) =~= old_out.map_values(|s: String| s@).push(tv));
        assert(sp.map_values(|t: Seq<char>| unescape(t)) =~= sp.drop_last().map_values(|t: Seq<char>| unescape(t)).push(unescape(sp.last())));
        assert(sp =~= sp.drop_last().push(sp.last()));
        assert(out@.map_values(|s: String| s@) =~= sp.map_values(|t: Seq<char>| unescape(t)));
    }
    out
}

/// The mathematical form of a run of values.
pub open spec fn jsons(v: Seq<JsonValue>) -> Seq<Json> {
    v.map_values(|x: JsonValue| json_of(x))
}

/// The mathematical form of the members of an object, or of a table of files.
pub open spec fn members_of(v: Seq<(String, JsonValue)>) -> Seq<(Seq<char>, Json)> {
    v.map_values(|m: (String, JsonValue)| (m.0@, json_of(m.1)))
}

/// The texts of a run of strings.
pub open spec fn texts(v: Seq<String>) -> Seq<Seq<char>> {
    v.map_values(|s: String| s@)
}

proof fn lemma_json_of_shape(v: JsonValue)
    ensures
        v matches JsonValue::Array(items) ==> json_of(v) == Json::Array(jsons(items@)),
        v matches JsonValue::Object(ms) ==> json_of(v) == Json::Object(members_of(ms@)),
{
    match v {
        JsonValue::Array(items) => {
            assert(json_of(v)->Array_0 =~= jsons(items@));
        },
        JsonValue::Object(ms) => {
            assert(json_of(v)->Object_0 =~= members_of(ms@));
        },
        _ => {},
    }
}

/// What went wrong while following a reference, as the library reports it.
#[derive(Debug, Clone, PartialEq)]
pub enum RefError {
    NotFound(String),
    BadIndex(String),
    OutOfRange(usize),
    NotContainer(String),
    Cycle(String),
}

/// The mathematical form of a `RefError`.
pub open spec fn fault_of(e: RefError) -> RefFault {
    match e {
        RefError::NotFound(t) => RefFault::NotFound(t@),
        RefError::BadIndex(t) => RefFault::BadIndex(t@),
        RefError::OutOfRange(i) => RefFault::OutOfRange(i as int),
        RefError::NotContainer(t) => RefFault::NotContainer(t@),
        RefError::Cycle(p) => RefFault::Cycle(p@),
    }
}

/// Why a resolution stopped, as the library reports it: the next file to read, or a
/// fault.
#[derive(Debug, Clone, PartialEq)]
pub enum Halt {
    Need(String),
    Failed(RefError),
}

/// The mathematical form of a `Halt`.
pub open spec fn stop_of(h: Halt) -> Stop {
    match h {
        Halt::Need(p) => Stop::Need(p@),
        Halt::Failed(e) => Stop::Failed(fault_of(e)),
    }
}

/// The mathematical form of the outcome of a resolution.
pub open spec fn outcome_of(r: Result<(JsonValue, Vec<String>), Halt>) -> Result<(Json, Seq<Seq<char>>), Stop> {
    match r {
        Ok((x, t)) => Ok((json_of(x), texts(t@))),
        Err(h) => Err(stop_of(h)),
    }
}

proof fn lemma_member_at(ms: Seq<(Seq<char>, Json)>, key: Seq<char>, k: int)
    requires
        0 <= k <= ms.len(),
        forall|j: int| 0 <= j < k ==> ms[j].0 != key,
        k == ms.len() || ms[k].0 == key,
    ensures
        member(ms, key) == (if k < ms.len() { Some(ms[k].1) } else { None::<Json> }),
        key_index(ms, key) == k,
    decreases k,
{
    if k > 0 {
        lemma_member_at(ms.drop_first(), key, k - 1);
    }
}

/// The index of the first member (or file) with the given name.
fn member_index(ms: &Vec<(String, JsonValue)>, key: &String) -> (r: Option<usize>)
    ensures
        match r {
            Some(k) => k < ms.len() && k == key_index(members_of(ms@), key@)
                && member(members_of(ms@), key@) == Some(json_of(ms@[k as int].1)),
            None => member(members_of(ms@), key@) is None && key_index(members_of(ms@), key@) == ms.len(),
        },
{
    let mut k: usize = 0;
    while k < ms.len()
        invariant
            k <= ms.len(),
            forall|j: int| 0 <= j < k ==> members_of(ms@)[j].0 != key@,
        decreases ms.len() - k,
    {
        if ms[k].0 == *key {
            proof {
                lemma_member_at(members_of(ms@), key@, k as int);
            }
            return Some(k);
        }
        k += 1;
    }
    proof {
        lemma_member_at(members_of(ms@), key@, k as int);
    }
    None
}

/// What the tokens lead to from `v` (see `follow`).
pub fn follow_pointer(v: JsonValue, tokens: &Vec<String>) -> (r: Result<JsonValue, RefError>)
    ensures
        match r {
            Ok(x) => follow(json_of(v), texts(tokens@)) == Ok::<Json, RefFault>(json_of(x)),
            Err(e) => follow(json_of(v), texts(tokens@)) == Err::<Json, RefFault>(fault_of(e)),
        },
{
    let ghost whole = follow(json_of(v), texts(tokens@));
    let mut cur = v;
    let mut i: usize = 0;
    assert(texts(tokens@).skip(0) =~= texts(tokens@));
    while i < tokens.len()
        invariant
            i <= tokens.len(),
            whole == follow(json_of(v), texts(tokens@)),
            whole == follow(json_of(cur), texts(tokens@).skip(i as int)),
        decreases tokens.len() - i,
    {
        let t = &tokens[i];
        let ghost toks = texts(tokens@).skip(i as int);
        assert(toks[0] == t@);
        assert(toks.drop_first() =~= texts(tokens@).skip(i + 1));
        proof {
            lemma_json_of_shape(cur);
        }
        match cur {
            JsonValue::Object(mut ms) => {
                match member_index(&ms, t) {
                    Some(k) => {
                        let m = ms.remove(k);
                        cur = m.1;
                    },
                    None => {
                        return Err(RefError::NotFound(t.clone()));
                    },
                }
            },
            JsonValue::Array(mut items) => {
                let tc = chars_of(t.as_str());
                match parse_index_of(tc.as_slice()) {
                    Some(n) => {
                        if n < items.len() {
                            assert(jsons(items@)[n as int] == json_of(items@[n as int]));
                            cur = items.remove(n);
                        } else {
                            return Err(RefError::OutOfRange(n));
                        }
                    },
                    None => {
                        return Err(RefError::BadIndex(t.clone()));
                    },
                }
            },
            _ => {
                return Err(RefError::NotContainer(t.clone()));
            },
        }
        i += 1;
    }
    assert(texts(tokens@).skip(i as int) =~= Seq::<Seq<char>>::empty());
    Ok(cur)
}

/// The indices of a chain as integers.
pub open spec fn indices(c: Seq<usize>) -> Seq<int> {
    c.map_values(|x: usize| x as int)
}

/// Whether the chain holds an index.
fn holds_index(chain: &Vec<usize>, fi: usize) -> (r: bool)
    ensures
        r == indices(chain@).contains(fi as int),
{
    let mut i: usize = 0;
    while i < chain.len()
        invariant
            i <= chain@.len(),
            forall|j: int| 0 <= j < i ==> chain@[j] != fi,
        decreases chain.len() - i,
    {
        if chain[i] == fi {
            assert(indices(chain@)[i as int] == fi as int);
            return true;
        }
        i += 1;
    }
    proof {
        if indices(chain@).contains(fi as int) {
            let j = choose|j: int| 0 <= j < indices(chain@).len() && indices(chain@)[j] == fi as int;
            assert(chain@[j] == fi);
        }
    }
    false
}

/// The chain with one more index at its end.
fn pushed(chain: &Vec<usize>, fi: usize) -> (r: Vec<usize>)
    ensures
        indices(r@) == indices(chain@).push(fi as int),
        r@.len() == chain@.len() + 1,
{
    let mut r: Vec<usize> = Vec::new();
    let mut i: usize = 0;
    while i < chain.len()
        invariant
            i <= chain@.len(),
            r@ == chain@.take(i as int),
        decreases chain.len() - i,
    {
        r.push(chain[i]);
        assert(chain@.take(i + 1) =~= chain@.take(i as int).push(chain@[i as int]));
        i += 1;
    }
    assert(chain@.take(chain@.len() as int) =~= chain@);
    r.push(fi);
    assert(indices(r@) =~= indices(chain@).push(fi as int));
    r
}

/// The outcome of the rest of a run, after the parts `out` already resolved with the
/// files `tr` read for them.
pub open spec fn after<T>(out: Seq<T>, tr: Seq<Seq<char>>, r: Result<(Seq<T>, Seq<Seq<char>>), Stop>) -> Result<(Seq<T>, Seq<Seq<char>>), Stop> {
    match r {
        Ok((xs, t)) => Ok((out + xs, tr + t)),
        Err(s) => Err(s),
    }
}

proof fn lemma_after_step<T>(out: Seq<T>, tr: Seq<Seq<char>>, x: T, t: Seq<Seq<char>>, rest: Result<(Seq<T>, Seq<Seq<char>>), Stop>)
    ensures
        after(out, tr, match rest {
            Ok((xs, t2)) => Ok((seq![x] + xs, t + t2)),
            Err(s) => Err(s),
        }) == after(out.push(x), tr + t, rest),
{
    match rest {
        Ok((xs, t2)) => {
            assert(out + (seq![x] + xs) =~= out.push(x) + xs);
            assert(tr + (t + t2) =~= (tr + t) + t2);
        },
        Err(s) => {},
    }
}

/// The mathematical form of a reference's file and pointer.
pub open spec fn target_of(t: Option<(String, Option<String>)>) -> Option<(Seq<char>, Option<Seq<char>>)> {
    match t {
        Some((f, p)) => Some((f@, match p {
            Some(q) => Some(q@),
            None => None,
        })),
        None => None,
    }
}

/// The directory against which the references of a file are read (see `base_of`).
fn base_of_path(p: &String) -> (r: String)
    ensures
        r@ == base_of(p@),
{
    match path_parent(p.as_str()) {
        Some(q) => q,
        None => {
            let dot = vec!['.'];
            assert(dot@ =~= seq!['.']);
            string_of(dot.as_slice())
        },
    }
}

/// Resolves the references to other files in a value (see `resolve_value`): `base` is
/// the directory the value's file lies in, `files` the files read so far with their
/// content, and `chain` the indices in the table of the files being resolved around the
/// value (see `resolve_value`). When a
/// reference names a file that is not in the table, the resolution stops and names it;
/// with that file added, a new resolution goes on past it.
pub fn resolve_refs(v: &JsonValue, base: &String, files: &Vec<(String, JsonValue)>, chain: &Vec<usize>) -> (r: Result<(JsonValue, Vec<String>), Halt>)
    ensures
        outcome_of(r) == resolve_value(json_of(*v), base@, members_of(files@), indices(chain@)),
    decreases files@.len() - chain@.len(), *v,
{
    let ghost fs = members_of(files@);
    proof {
        lemma_json_of_shape(*v);
    }
    let none: Vec<String> = Vec::new();
    assert(texts(none@) =~= Seq::<Seq<char>>::empty());
    match v {
        JsonValue::Null => Ok((JsonValue::Null, none)),
        JsonValue::Bool(b) => Ok((JsonValue::Bool(*b), none)),
        JsonValue::Number(n) => Ok((JsonValue::Number(n.clone()), none)),
        JsonValue::Str(t) => Ok((JsonValue::Str(t.clone()), none)),
        JsonValue::Array(items) => {
            let ghost whole = resolve_items(jsons(items@), base@, fs, indices(chain@));
            let mut out: Vec<JsonValue> = Vec::new();
            let mut tr: Vec<String> = Vec::new();
            let mut i: usize = 0;
            assert(jsons(items@).skip(0) =~= jsons(items@));
            assert(jsons(out@) =~= Seq::<Json>::empty());
            assert(texts(tr@) =~= Seq::<Seq<char>>::empty());
            while i < items.len()
                invariant
                    i <= items.len(),
                    fs == members_of(files@),
                    json_of(*v) == Json::Array(jsons(items@)),
                    *v is Array && (*v)->Array_0 == *items,
                    whole == resolve_items(jsons(items@), base@, fs, indices(chain@)),
                    whole == after(jsons(out@), texts(tr@), resolve_items(jsons(items@).skip(i as int), base@, fs, indices(chain@))),
                decreases items.len() - i,
            {
                let ghost rest = jsons(items@).skip(i as int);
                assert(rest[0] == json_of(items@[i as int]));
                assert(rest.drop_first() =~= jsons(items@).skip(i + 1));
                proof {
                    vstd::std_specs::vec::axiom_vec_index_decreases(*items, i as int);
                    assert(*items == (*v)->Array_0);
                    assert(decreases_to!(*v => (*v)->Array_0));
                }
                match resolve_refs(&items[i], base, files, chain) {
                    Ok((x, mut t)) => {
                        proof {
                            lemma_after_step(jsons(out@), texts(tr@), json_of(x), texts(t@), resolve_items(jsons(items@).skip(i + 1), base@, fs, indices(chain@)));
                        }
                        let ghost old_out = out@;
                        let ghost old_tr = tr@;
                        let ghost tv = t@;
                        out.push(x);
                        tr.append(&mut t);
                        assert(jsons(out@) =~= jsons(old_out).push(json_of(x)));
                        assert(texts(tr@) =~= texts(old_tr) + texts(tv));
                    },
                    Err(h) => {
                        return Err(h);
                    },
                }
                i += 1;
            }
            assert(jsons(items@).skip(i as int) =~= Seq::<Json>::empty());
            assert(jsons(out@) + Seq::<Json>::empty() =~= jsons(out@));
            assert(texts(tr@) + Seq::<Seq<char>>::empty() =~= texts(tr@));
            let res = JsonValue::Array(out);
            proof {
                lemma_json_of_shape(res);
            }
            Ok((res, tr))
        },
        JsonValue::Object(ms) => {
            let key = string_of(vec!['$', 'r', 'e', 'f'].as_slice());
            assert(key@ =~= ref_key());
            let target: Option<(String, Option<String>)> = match member_index(ms, &key) {
                Some(k) => match &ms[k].1 {
                    JsonValue::Str(s) => ref_target_of(s.as_str()),
                    _ => None,
                },
                None => None,
            };
            assert(target_of(target) == (match ref_of(members_of(ms@)) {
                Some(r) => ref_target(r),
                None => None,
            }));
            match target {
                Some((file, ptr)) => {
                    let path = join_path(base.as_str(), file.as_str());
                    match member_index(files, &path) {
                        None => {
                            return Err(Halt::Need(path));
                        },
                        Some(fi) => {
                            if holds_index(chain, fi) || chain.len() >= files.len() {
                                return Err(Halt::Failed(RefError::Cycle(path)));
                            }
                            let nb = base_of_path(&path);
                            let longer = pushed(chain, fi);
                            match resolve_refs(&files[fi].1, &nb, files, &longer) {
                                Ok((rv, mut tr)) => {
                                    let ghost rvj = json_of(rv);
                                    let ghost pv = match &ptr { Some(q) => Some(q@), None => None::<Seq<char>> };
                                    let picked: Result<JsonValue, RefError> = match ptr {
                                        None => Ok(rv),
                                        Some(p) => {
                                            let pc = chars_of(p.as_str());
                                            if pc.len() == 0 || (pc.len() == 1 && pc[0] == '/') {
                                                assert(pc@.len() == 0 || pc@ =~= seq!['/']);
                                                Ok(rv)
                                            } else {
                                                proof {
                                                    if pc@ == seq!['/'] {
                                                        assert(pc@[0] == '/');
                                                    }
                                                }
                                                let toks = pointer_tokens_of(pc.as_slice());
                                                follow_pointer(rv, &toks)
                                            }
                                        },
                                    };
                                    assert(match picked {
                                        Ok(x) => pointed(rvj, pv) == Ok::<Json, RefFault>(json_of(x)),
                                        Err(e) => pointed(rvj, pv) == Err::<Json, RefFault>(fault_of(e)),
                                    });
                                    match picked {
                                        Ok(x) => {
                                            let mut all: Vec<String> = Vec::new();
                                            all.push(path);
                                            let ghost first = all@;
                                            let ghost tv = tr@;
                                            all.append(&mut tr);
                                            assert(texts(all@) =~= seq![path@] + texts(tv));
                                            Ok((x, all))
                                        },
                                        Err(e) => Err(Halt::Failed(e)),
                                    }
                                },
                                Err(h) => Err(h),
                            }
                        },
                    }
                },
                None => {
                    let ghost whole = resolve_members(members_of(ms@), base@, fs, indices(chain@));
                    let mut out: Vec<(String, JsonValue)> = Vec::new();
                    let mut tr: Vec<String> = Vec::new();
                    let mut i: usize = 0;
                    assert(members_of(ms@).skip(0) =~= members_of(ms@));
                    assert(members_of(out@) =~= Seq::<(Seq<char>, Json)>::empty());
                    assert(texts(tr@) =~= Seq::<Seq<char>>::empty());
                    while i < ms.len()
                        invariant
                            i <= ms.len(),
                            fs == members_of(files@),
                            json_of(*v) == Json::Object(members_of(ms@)),
                            *v is Object && (*v)->Object_0 == *ms,
                            (match ref_of(members_of(ms@)) {
                                Some(r) => ref_target(r),
                                None => None,
                            }) is None,
                            whole == resolve_members(members_of(ms@), base@, fs, indices(chain@)),
                            whole == after(members_of(out@), texts(tr@), resolve_members(members_of(ms@).skip(i as int), base@, fs, indices(chain@))),
                        decreases ms.len() - i,
                    {
                        let ghost rest = members_of(ms@).skip(i as int);
                        assert(rest[0] == (ms@[i as int].0@, json_of(ms@[i as int].1)));
                        assert(rest.drop_first() =~= members_of(ms@).skip(i + 1));
                        proof {
                            vstd::std_specs::vec::axiom_vec_index_decreases(*ms, i as int);
                            assert(*ms == (*v)->Object_0);
                            assert(decreases_to!(*v => (*v)->Object_0));
                            assert(decreases_to!(ms[i as int] => ms[i as int].1));
                        }
                        match resolve_refs(&ms[i].1, base, files, chain) {
                            Ok((x, mut t)) => {
                                proof {
                                    lemma_after_step(members_of(out@), texts(tr@), (ms@[i as int].0@, json_of(x)), texts(t@), resolve_members(members_of(ms@).skip(i + 1), base@, fs, indices(chain@)));
                                }
                                let ghost old_out = out@;
                                let ghost old_tr = tr@;
                                let ghost tv = t@;
                                out.push((ms[i].0.clone(), x));
                                tr.append(&mut t);
                                assert(members_of(out@) =~= members_of(old_out).push((ms@[i as int].0@, json_of(x))));
                                assert(texts(tr@) =~= texts(old_tr) + texts(tv));
                            },
                            Err(h) => {
                                return Err(h);
                            },
                        }
                        i += 1;
                    }
                    assert(members_of(ms@).skip(i as int) =~= Seq::<(Seq<char>, Json)>::empty());
                    assert(members_of(out@) + Seq::<(Seq<char>, Json)>::empty() =~= members_of(out@));
                    assert(texts(tr@) + Seq::<Seq<char>>::empty() =~= texts(tr@));
                    let res = JsonValue::Object(out);
                    proof {
                        lemma_json_of_shape(res);
                    }
                    Ok((res, tr))
                },
            }
        },
    }
}

/// Whether a value holds a reference to another file anywhere in it.
pub open spec fn file_refs(v: Json) -> bool
    decreases v,
{
    match v {
        Json::Object(ms) => (match ref_of(ms) {
            Some(r) => ref_target(r) is Some,
            None => false,
        }) || members_file_refs(ms),
        Json::Array(items) => items_file_refs(items),
        _ => false,
    }
}

/// Whether an item of the run holds a reference to another file.
pub open spec fn items_file_refs(items: Seq<Json>) -> bool
    decreases items,
{
    items.len() > 0 && (file_refs(items[0]) || items_file_refs(items.drop_first()))
}

/// Whether the value of a member of the run holds a reference to another file.
pub open spec fn members_file_refs(ms: Seq<(Seq<char>, Json)>) -> bool
    decreases ms,
{
    ms.len() > 0 && (file_refs(ms[0].1) || members_file_refs(ms.drop_first()))
}

proof fn lemma_unchanged_value(v: Json, base: Seq<char>, files: Seq<(Seq<char>, Json)>, chain: Seq<int>)
    requires
        !file_refs(v),
    ensures
        resolve_value(v, base, files, chain) == Ok::<(Json, Seq<Seq<char>>), Stop>((v, seq![])),
    decreases v,
{
    match v {
        Json::Object(ms) => {
            lemma_unchanged_members(ms, base, files, chain);
        },
        Json::Array(items) => {
            lemma_unchanged_items(items, base, files, chain);
        },
        _ => {},
    }
}

proof fn lemma_unchanged_items(items: Seq<Json>, base: Seq<char>, files: Seq<(Seq<char>, Json)>, chain: Seq<int>)
    requires
        !items_file_refs(items),
    ensures
        resolve_items(items, base, files, chain) == Ok::<(Seq<Json>, Seq<Seq<char>>), Stop>((items, seq![])),
    decreases items,
{
    if items.len() > 0 {
        lemma_unchanged_value(items[0], base, files, chain);
        lemma_unchanged_items(items.drop_first(), base, files, chain);
        assert(seq![items[0]] + items.drop_first() =~= items);
        assert(Seq::<Seq<char>>::empty() + Seq::<Seq<char>>::empty() =~= Seq::<Seq<char>>::empty());
    } else {
        assert(items =~= Seq::<Json>::empty());
    }
}

proof fn lemma_unchanged_members(ms: Seq<(Seq<char>, Json)>, base: Seq<char>, files: Seq<(Seq<char>, Json)>, chain: Seq<int>)
    requires
        !members_file_refs(ms),
    ensures
        resolve_members(ms, base, files, chain) == Ok::<(Seq<(Seq<char>, Json)>, Seq<Seq<char>>), Stop>((ms, seq![])),
    decreases ms,
{
    if ms.len() > 0 {
        lemma_unchanged_value(ms[0].1, base, files, chain);
        lemma_unchanged_members(ms.drop_first(), base, files, chain);
        assert(seq![(ms[0].0, ms[0].1)] + ms.drop_first() =~= ms);
        assert(Seq::<Seq<char>>::empty() + Seq::<Seq<char>>::empty() =~= Seq::<Seq<char>>::empty());
    } else {
        assert(ms =~= Seq::<(Seq<char>, Json)>::empty());
    }
}

/// A value with no reference to another file resolves to itself, whatever files are at
/// hand, and reads none: references within the document and to the web stay as they
/// are.
pub proof fn law_self_contained_unchanged(v: Json, base: Seq<char>, files: Seq<(Seq<char>, Json)>, chain: Seq<int>)
    requires
        !file_refs(v),
    ensures
        resolve_value(v, base, files, chain) == Ok::<(Json, Seq<Seq<char>>), Stop>((v, seq![])),
{
    lemma_unchanged_value(v, base, files, chain);
}

proof fn lemma_need_value(v: Json, base: Seq<char>, files: Seq<(Seq<char>, Json)>, chain: Seq<int>)
    ensures
        resolve_value(v, base, files, chain) matches Err(Stop::Need(p)) ==> member(files, p) is None,
    decreases files.len() - chain.len(), v,
{
    match v {
        Json::Object(ms) => {
            let target = match ref_of(ms) {
                Some(r) => ref_target(r),
                None => None,
            };
            match target {
                Some((file, ptr)) => {
                    let path = join_spec(base, file);
                    let fi = key_index(files, path) as int;
                    lemma_key_index(files, path);
                    if fi < files.len() && !(chain.contains(fi) || chain.len() >= files.len()) {
                        lemma_need_value(files[fi].1, base_of(path), files, chain.push(fi));
                    }
                },
                None => {
                    lemma_need_members(ms, base, files, chain);
                },
            }
        },
        Json::Array(items) => {
            lemma_need_items(items, base, files, chain);
        },
        _ => {},
    }
}

proof fn lemma_need_items(items: Seq<Json>, base: Seq<char>, files: Seq<(Seq<char>, Json)>, chain: Seq<int>)
    ensures
        resolve_items(items, base, files, chain) matches Err(Stop::Need(p)) ==> member(files, p) is None,
    decreases files.len() - chain.len(), items,
{
    if items.len() > 0 {
        lemma_need_value(items[0], base, files, chain);
        lemma_need_items(items.drop_first(), base, files, chain);
    }
}

proof fn lemma_need_members(ms: Seq<(Seq<char>, Json)>, base: Seq<char>, files: Seq<(Seq<char>, Json)>, chain: Seq<int>)
    ensures
        resolve_members(ms, base, files, chain) matches Err(Stop::Need(p)) ==> member(files, p) is None,
    decreases files.len() - chain.len(), ms,
{
    if ms.len() > 0 {
        lemma_need_value(ms[0].1, base, files, chain);
        lemma_need_members(ms.drop_first(), base, files, chain);
    }
}

/// A resolution that stops for a file asks only for a file that the table does not
/// hold, so each file read before the next resolution adds a new path to the table.
pub proof fn law_need_is_new(v: Json, base: Seq<char>, files: Seq<(Seq<char>, Json)>, chain: Seq<int>)
    ensures
        resolve_value(v, base, files, chain) matches Err(Stop::Need(p)) ==> member(files, p) is None,
{
    lemma_need_value(v, base, files, chain);
}

/// The resolution of a whole document read from `path`: its references are read against
/// the document's directory, and the document itself is the first file read.
pub open spec fn document_outcome(root: Json, path: Seq<char>, files: Seq<(Seq<char>, Json)>) -> Result<(Json, Seq<Seq<char>>), Stop> {
    match resolve_value(root, base_of(path), files, seq![]) {
        Ok((x, t)) => Ok((x, seq![path] + t)),
        Err(s) => Err(s),
    }
}

/// Resolves the references of a document read from `path` against the files read so
/// far (see `document_outcome`).
pub fn resolve_document(root: &JsonValue, path: &str, files: &Vec<(String, JsonValue)>) -> (r: Result<(JsonValue, Vec<String>), Halt>)
    ensures
        outcome_of(r) == document_outcome(json_of(*root), path@, members_of(files@)),
{
    let p = string_of(chars_of(path).as_slice());
    let base = base_of_path(&p);
    let chain: Vec<usize> = Vec::new();
    assert(indices(chain@) =~= Seq::<int>::empty());
    match resolve_refs(root, &base, files, &chain) {
        Ok((x, mut t)) => {
            let mut all: Vec<String> = Vec::new();
            all.push(p);
            let ghost tv = t@;
            all.append(&mut t);
            assert(texts(all@) =~= seq![path@] + texts(tv));
            Ok((x, all))
        },
        Err(h) => Err(h),
    }
}

/// A copy of a value.
pub fn copy_json(v: &JsonValue) -> (r: JsonValue)
    ensures
        json_of(r) == json_of(*v),
    decreases *v,
{
    proof {
        lemma_json_of_shape(*v);
    }
    match v {
        JsonValue::Null => JsonValue::Null,
        JsonValue::Bool(b) => JsonValue::Bool(*b),
        JsonValue::Number(n) => JsonValue::Number(n.clone()),
        JsonValue::Str(t) => JsonValue::Str(t.clone()),
        JsonValue::Array(items) => {
            let mut out: Vec<JsonValue> = Vec::new();
            let mut i: usize = 0;
            while i < items.len()
                invariant
                    i <= items.len(),
                    *v is Array && (*v)->Array_0 == *items,
                    jsons(out@) == jsons(items@).take(i as int),
                decreases items.len() - i,
            {
                proof {
                    vstd::std_specs::vec::axiom_vec_index_decreases(*items, i as int);
                    assert(decreases_to!(*v => (*v)->Array_0));
                }
                let x = copy_json(&items[i]);
                let ghost before = out@;
                out.push(x);
                assert(jsons(out@) =~= jsons(items@).take(i + 1)) by {
                    assert(jsons(before.push(x)) =~= jsons(before).push(json_of(x)));
                }
                i += 1;
            }
            assert(jsons(items@).take(items.len() as int) =~= jsons(items@));
            let r = JsonValue::Array(out);
            proof {
                lemma_json_of_shape(r);
            }
            r
        },
        JsonValue::Object(ms) => {
            let mut out: Vec<(String, JsonValue)> = Vec::new();
            let mut i: usize = 0;
            while i < ms.len()
                invariant
                    i <= ms.len(),
                    *v is Object && (*v)->Object_0 == *ms,
                    members_of(out@) == members_of(ms@).take(i as int),
                decreases ms.len() - i,
            {
                proof {
                    vstd::std_specs::vec::axiom_vec_index_decreases(*ms, i as int);
                    assert(decreases_to!(*v => (*v)->Object_0));
                    assert(decreases_to!(ms[i as int] => ms[i as int].1));
                }
                let x = copy_json(&ms[i].1);
                let k = ms[i].0.clone();
                let ghost before = out@;
                out.push((k, x));
                assert(members_of(out@) =~= members_of(ms@).take(i + 1)) by {
                    assert(members_of(before.push((k, x))) =~= members_of(before).push((k@, json_of(x))));
                }
                i += 1;
            }
            assert(members_of(ms@).take(ms.len() as int) =~= members_of(ms@));
            let r = JsonValue::Object(out);
            proof {
                lemma_json_of_shape(r);
            }
            r
        },
    }
}

} // verus!
