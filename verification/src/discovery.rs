//! Finding the `.rata` directory above a starting point and the OpenAPI document in it.
use vstd::prelude::*;
use crate::paths::{join_spec, join_path, extension_spec, extension_of};

verus! {

/// The parent of a path as `Path::parent` gives it: the path without its final
/// component, or nothing for a root or an empty path.
pub uninterp spec fn spec_path_parent(p: Seq<char>) -> Option<Seq<char>>;

/// `Path::parent` on a path given as text. The parent is a prefix of the path without
/// its final component, so it is shorter than the path. The text is valid UTF-8, and so
/// is every prefix of it that ends at a component boundary.
#[verifier::external_body]
pub(crate) fn path_parent(p: &str) -> (r: Option<String>)
    ensures
        match r {
            Some(q) => spec_path_parent(p@) == Some(q@) && q@.len() < p@.len(),
            None => spec_path_parent(p@) is None,
        },
{
    std::path::Path::new(p).parent().and_then(|q| q.to_str()).map(|q| q.to_string())
}

/// `Path::is_dir`: whether the path names a directory now. The answer depends on the
/// disk, so nothing is stated of it.
#[verifier::external_body]
fn path_is_dir(p: &str) -> bool {
    std::path::Path::new(p).is_dir()
}

/// `Path::is_file`: whether the path names a regular file now. The answer depends on the
/// disk, so nothing is stated of it.
#[verifier::external_body]
fn path_is_file(p: &str) -> bool {
    std::path::Path::new(p).is_file()
}

/// The `k`-th ancestor of a path (the path itself for `k == 0`), if there is one.
pub open spec fn ancestor(p: Seq<char>, k: int) -> Option<Seq<char>>
    decreases k,
{
    if k <= 0 {
        Some(p)
    } else {
        match ancestor(p, k - 1) {
            Some(a) => spec_path_parent(a),
            None => None,
        }
    }
}

/// The literal `.rata`.
pub open spec fn rata_name() -> Seq<char> {
    seq!['.', 'r', 'a', 't', 'a']
}

/// Whether a result of the search is a `.rata` entry of an ancestor of the path or of
/// its parent (the search starts from the parent when the path is a file).
pub open spec fn rata_candidate(start: Seq<char>, c: Seq<char>) -> bool {
    exists|k: int| #[trigger] ancestor(start, k) is Some && c == join_spec(ancestor(start, k)->0, rata_name())
}

/// The index of the first yes among answers given in order, if there is one.
pub fn first_found(found: &[bool]) -> (r: Option<usize>)
    ensures
        match r {
            Some(i) => i < found@.len() && found@[i as int] && forall|j: int| 0 <= j < i ==> !found@[j],
            None => forall|j: int| 0 <= j < found@.len() ==> !found@[j],
        },
{
    let mut i: usize = 0;
    while i < found.len()
        invariant
            i <= found@.len(),
            forall|j: int| 0 <= j < i ==> !found@[j],
        decreases found.len() - i,
    {
        if found[i] {
            return Some(i);
        }
        i += 1;
    }
    None
}

/// The nearest hit among the ancestors of `b` from the `k`-th on: the first `j >= k`
/// whose answer in `found` is yes gives the `.rata` entry of the `j`-th ancestor; the
/// search ends without a hit past the answers or past the root.
pub open spec fn nearest_hit(b: Seq<char>, found: Seq<bool>, k: int) -> Option<Seq<char>>
    decreases found.len() - k,
{
    if k < 0 || k >= found.len() {
        None
    } else {
        match ancestor(b, k) {
            None => None,
            Some(a) => if found[k] { Some(join_spec(a, rata_name())) } else { nearest_hit(b, found, k + 1) },
        }
    }
}

/// The `.rata` directory chosen for a start, given whether the start is a file and the
/// answers, nearest directory first, to whether each `.rata` entry is a directory: the
/// search starts from the start (or its parent, for a file) and the nearest hit wins.
pub open spec fn rata_choice(start: Seq<char>, start_is_file: bool, found: Seq<bool>) -> Option<Seq<char>> {
    if start_is_file {
        match spec_path_parent(start) {
            Some(b) => nearest_hit(b, found, 0),
            None => None,
        }
    } else {
        nearest_hit(start, found, 0)
    }
}

proof fn lemma_ancestor_shift(p: Seq<char>, q: Seq<char>, k: int)
    requires
        spec_path_parent(p) == Some(q),
        k >= 0,
    ensures
        ancestor(q, k) == ancestor(p, k + 1),
    decreases k,
{
    assert(ancestor(p, 0) == Some(p));
    if k > 0 {
        lemma_ancestor_shift(p, q, k - 1);
        assert(ancestor(q, k) == (match ancestor(q, k - 1) { Some(a) => spec_path_parent(a), None => None }));
    }
}

proof fn lemma_nearest_hit_candidate(start: Seq<char>, b: Seq<char>, shift: int, found: Seq<bool>, k: int)
    requires
        shift >= 0,
        k >= 0,
        forall|j: int| j >= 0 ==> #[trigger] ancestor(b, j) == ancestor(start, j + shift),
    ensures
        nearest_hit(b, found, k) matches Some(c) ==> rata_candidate(start, c),
    decreases found.len() - k,
{
    if k < found.len() {
        match ancestor(b, k) {
            None => {},
            Some(a) => {
                if found[k] {
                    assert(ancestor(start, k + shift) is Some);
                } else {
                    lemma_nearest_hit_candidate(start, b, shift, found, k + 1);
                }
            },
        }
    }
}

proof fn lemma_choice_candidate(start: Seq<char>, start_is_file: bool, found: Seq<bool>)
    ensures
        rata_choice(start, start_is_file, found) matches Some(c) ==> rata_candidate(start, c),
{
    if start_is_file {
        match spec_path_parent(start) {
            Some(b) => {
                assert forall|j: int| j >= 0 implies #[trigger] ancestor(b, j) == ancestor(start, j + 1) by {
                    lemma_ancestor_shift(start, b, j);
                }
                lemma_nearest_hit_candidate(start, b, 1, found, 0);
            },
            None => {},
        }
    } else {
        lemma_nearest_hit_candidate(start, start, 0, found, 0);
    }
}

/// The `.rata` directory chosen for a start (see `rata_choice`).
pub fn pick_rata_dir(start: &str, start_is_file: bool, found: &[bool]) -> (r: Option<String>)
    ensures
        match r {
            Some(c) => rata_choice(start@, start_is_file, found@) == Some(c@),
            None => rata_choice(start@, start_is_file, found@) is None,
        },
{
    proof {
        reveal_strlit(".rata");
        assert(".rata"@ =~= rata_name());
    }
    let b: String = if start_is_file {
        match path_parent(start) {
            Some(p) => p,
            None => return None,
        }
    } else {
        String::from_str(start)
    };
    let ghost bv = b@;
    assert(rata_choice(start@, start_is_file, found@) == nearest_hit(bv, found@, 0));
    let mut current = b;
    let mut k: usize = 0;
    while k < found.len()
        invariant
            k <= found@.len(),
            ancestor(bv, k as int) == Some(current@),
            nearest_hit(bv, found@, 0) == nearest_hit(bv, found@, k as int),
            rata_choice(start@, start_is_file, found@) == nearest_hit(bv, found@, 0),
            ".rata"@ == rata_name(),
        decreases found.len() - k,
    {
        if found[k] {
            return Some(join_path(current.as_str(), ".rata"));
        }
        match path_parent(current.as_str()) {
            Some(p) => {
                proof {
                    assert(ancestor(bv, k + 1) == spec_path_parent(current@));
                }
                current = p;
            },
            None => {
                proof {
                    assert(ancestor(bv, k + 1) is None);
                    assert(nearest_hit(bv, found@, k + 1) is None);
                }
                return None;
            },
        }
        k += 1;
    }
    None
}

/// Looks for a `.rata` directory in the starting directory (or, for a file, in its
/// directory) and then in each directory above it, nearest first, asking the disk about
/// each in turn until one is a directory; the answers go to `pick_rata_dir`. What is
/// found depends on the disk; whatever it is, it is the `.rata` entry of an ancestor of
/// the start.
pub fn find_rata_dir(start: &str) -> (r: Option<String>)
    ensures
        match r {
            Some(c) => rata_candidate(start@, c@),
            None => true,
        },
{
    proof {
        reveal_strlit(".rata");
        assert(".rata"@ =~= rata_name());
    }
    let is_file = path_is_file(start);
    let mut found: Vec<bool> = Vec::new();
    let first: Option<String> = if is_file { path_parent(start) } else { Some(String::from_str(start)) };
    match first {
        Some(mut current) => {
            loop
                decreases current@.len(),
            {
                let candidate = join_path(current.as_str(), ".rata");
                let hit = path_is_dir(candidate.as_str());
                found.push(hit);
                if hit {
                    break;
                }
                match path_parent(current.as_str()) {
                    Some(p) => {
                        current = p;
                    },
                    None => {
                        break;
                    },
                }
            }
        },
        None => {},
    }
    proof {
        lemma_choice_candidate(start@, is_file, found@);
    }
    pick_rata_dir(start, is_file, found.as_slice())
}

/// The names an OpenAPI document may have, in the order they are tried.
pub open spec fn document_names() -> Seq<Seq<char>> {
    seq![
        seq!['o', 'p', 'e', 'n', 'a', 'p', 'i', '.', 'y', 'a', 'm', 'l'],
        seq!['o', 'p', 'e', 'n', 'a', 'p', 'i', '.', 'y', 'm', 'l'],
        seq!['o', 'p', 'e', 'n', 'a', 'p', 'i', '.', 'j', 's', 'o', 'n'],
    ]
}

/// The document chosen in a `.rata` directory, given the answers, in the order the names
/// are tried, to whether each name is a file: the first name answered yes.
pub open spec fn document_choice(rata_dir: Seq<char>, found: Seq<bool>) -> Option<Seq<char>> {
    if exists|i: int| 0 <= i < found.len() && i < 3 && found[i] {
        let i = choose|i: int| 0 <= i < found.len() && i < 3 && found[i] && forall|j: int| 0 <= j < i ==> !found[j];
        Some(join_spec(rata_dir, document_names()[i]))
    } else {
        None
    }
}

/// The document chosen in a `.rata` directory (see `document_choice`).
pub fn pick_document(rata_dir: &str, found: &[bool]) -> (r: Option<String>)
    ensures
        match r {
            Some(p) => document_choice(rata_dir@, found@) == Some(p@),
            None => document_choice(rata_dir@, found@) is None,
        },
{
    proof {
        reveal_strlit("openapi.yaml");
        reveal_strlit("openapi.yml");
        reveal_strlit("openapi.json");
        assert("openapi.yaml"@ =~= document_names()[0]);
        assert("openapi.yml"@ =~= document_names()[1]);
        assert("openapi.json"@ =~= document_names()[2]);
    }
    let n = if found.len() < 3 { found.len() } else { 3 };
    match first_found(&found[0..n]) {
        Some(i) => {
            assert(found@.subrange(0, n as int)[i as int] == found@[i as int]);
            assert(forall|j: int| 0 <= j < i ==> found@.subrange(0, n as int)[j] == found@[j]);
            let ghost w = choose|w: int| 0 <= w < found@.len() && w < 3 && found@[w] && forall|j: int| 0 <= j < w ==> !found@[j];
            assert(0 <= i < found@.len() && i < 3 && found@[i as int] && forall|j: int| 0 <= j < i ==> !found@[j]);
            assert(w == i) by {
                if w < i { assert(!found@[w]); }
                if i < w { assert(!found@[i as int]); }
            }
            let name = if i == 0 { "openapi.yaml" } else if i == 1 { "openapi.yml" } else { "openapi.json" };
            Some(join_path(rata_dir, name))
        },
        None => {
            assert forall|i: int| 0 <= i < found@.len() && i < 3 implies !found@[i] by {
                assert(found@.subrange(0, n as int)[i] == found@[i]);
            }
            None
        },
    }
}

/// Looks for the OpenAPI document of a `.rata` directory: `openapi.yaml`, then
/// `openapi.yml`, then `openapi.json`, asking the disk about each in turn until one is a
/// file; the answers go to `pick_document`. What is found depends on the disk; whatever
/// it is, it is the directory joined with one of these names.
pub fn find_openapi_file(rata_dir: &str) -> (r: Option<String>)
    ensures
        match r {
            Some(p) => exists|i: int| 0 <= i < 3 && p@ == join_spec(rata_dir@, #[trigger] document_names()[i]),
            None => true,
        },
{
    let names = ["openapi.yaml", "openapi.yml", "openapi.json"];
    let mut found: Vec<bool> = Vec::new();
    let mut i: usize = 0;
    while i < 3
        invariant
            i <= 3,
        decreases 3 - i,
    {
        let hit = path_is_file(join_path(rata_dir, names[i]).as_str());
        found.push(hit);
        if hit {
            break;
        }
        i += 1;
    }
    let r = pick_document(rata_dir, found.as_slice());
    proof {
        if exists|i: int| 0 <= i < found@.len() && i < 3 && found@[i] {
            let w = choose|w: int| 0 <= w < found@.len() && w < 3 && found@[w] && forall|j: int| 0 <= j < w ==> !found@[j];
            assert(document_names()[w] == document_names()[w]);
        }
    }
    r
}

/// The last component of a path: the text after its last `/`.
pub open spec fn file_name_spec(p: Seq<char>) -> Seq<char>
    decreases p.len(),
{
    if p.len() == 0 {
        p
    } else if p.last() == '/' {
        seq![]
    } else {
        file_name_spec(p.drop_last()).push(p.last())
    }
}

/// Whether a document is read as JSON: its file name has the extension `json` (YAML
/// otherwise).
pub open spec fn is_json_spec(p: Seq<char>) -> bool {
    extension_spec(file_name_spec(p)) == Some(seq!['j', 's', 'o', 'n'])
}

/// Whether a document is read as JSON (see `is_json_spec`).
pub fn is_json_document(path: &str) -> (r: bool)
    ensures
        r == is_json_spec(path@),
{
    let v = crate::text::chars_of(path);
    let mut i: usize = v.len();
    assert(v@.take(v@.len() as int) =~= v@);
    assert(v@.subrange(v@.len() as int, v@.len() as int) =~= Seq::<char>::empty());
    assert(file_name_spec(v@) + Seq::<char>::empty() =~= file_name_spec(v@));
    while i > 0 && v[i - 1] != '/'
        invariant
            i <= v.len(),
            v@ == path@,
            file_name_spec(path@) == file_name_spec(v@.take(i as int)) + v@.subrange(i as int, v@.len() as int),
        decreases i,
    {
        assert(v@.take(i as int).drop_last() =~= v@.take(i - 1));
        assert(v@.subrange(i - 1, v@.len() as int) =~= seq![v@[i - 1]] + v@.subrange(i as int, v@.len() as int));
        assert(file_name_spec(v@.take(i as int)) == file_name_spec(v@.take(i - 1)).push(v@[i - 1]));
        assert(file_name_spec(v@.take(i - 1)).push(v@[i - 1]) + v@.subrange(i as int, v@.len() as int)
            =~= file_name_spec(v@.take(i - 1)) + v@.subrange(i - 1, v@.len() as int));
        i -= 1;
    }
    proof {
        if i > 0 {
            assert(v@.take(i as int).last() == '/');
        }
        assert(file_name_spec(v@.take(i as int)) =~= Seq::<char>::empty());
        assert(v@.take(v@.len() as int) =~= v@);
    }
    let name = crate::text::string_of(&v.as_slice()[i..v.len()]);
    assert(name@ == file_name_spec(path@));
    proof {
        reveal_strlit("json");
        assert("json"@ =~= seq!['j', 's', 'o', 'n']);
    }
    match extension_of(name.as_str()) {
        Some(e) => {
            let j = String::from_str("json");
            e == j
        },
        None => false,
    }
}

} // verus!
