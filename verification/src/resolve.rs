//! Path resolution: from a request path to a candidate document path.
//!
//! A request path `/<p>` maps to the first of two candidates that exists on
//! disk: `<p>` with the document extension (`.md`), then `<p>` joined with
//! the fixed index filename (`index.md`). Before the candidates are built,
//! the stripped base `<p>` must canonicalize against the filesystem; the
//! caller performs that step and the existence checks and hands the answers
//! in, so every decision here is a pure function of those answers.
//!
//! Only the base is canonicalized. The candidates built from it are checked
//! for existence directly, without a second canonicalization, so a symlink
//! or rename that lands between the two steps can let a non-canonical
//! candidate through: a known, deliberate gap, kept as the server behaves.

use vstd::prelude::*;

verus! {

/// The base path to canonicalize, stripped of the request path's leading
/// separator; `None` when the request path is too short to name anything.
pub open spec fn base_of(path: Seq<char>) -> Option<Seq<char>> {
    if path.len() < 2 {
        None
    } else {
        Some(path.skip(1))
    }
}

/// First resolution step: reject request paths of length below two, and
/// strip the leading separator from the rest. The caller canonicalizes the
/// result against the filesystem.
pub fn resolve_base(path: &str) -> (r: Option<String>)
    ensures
        r matches Some(base) ==> base_of(path@) == Some(base@),
        r is None <==> base_of(path@) is None,
{
    let n: usize = path.unicode_len();
    if n < 2 {
        return None;
    }
    let stripped = path.substring_char(1, n);
    Some(stripped.to_owned())
}

/// Index of the last occurrence of `c` at position `lo` or later in `s`,
/// or -1 when there is none.
pub open spec fn last_index_at_least(s: Seq<char>, c: char, lo: int) -> int
    decreases s.len(),
{
    if s.len() == 0 || s.len() <= lo {
        -1
    } else if s[s.len() - 1] == c {
        s.len() - 1
    } else {
        last_index_at_least(s.drop_last(), c, lo)
    }
}

proof fn lemma_last_index_found(s: Seq<char>, c: char, lo: int, i: int)
    requires
        0 <= lo <= i < s.len(),
        s[i] == c,
        forall|j: int| i < j < s.len() ==> s[j] != c,
    ensures
        last_index_at_least(s, c, lo) == i,
    decreases s.len(),
{
    if i < s.len() - 1 {
        lemma_last_index_found(s.drop_last(), c, lo, i);
    }
}

proof fn lemma_last_index_missing(s: Seq<char>, c: char, lo: int)
    requires
        0 <= lo,
        forall|j: int| lo <= j < s.len() ==> s[j] != c,
    ensures
        last_index_at_least(s, c, lo) == -1,
    decreases s.len(),
{
    if s.len() > lo && s.len() > 0 {
        lemma_last_index_missing(s.drop_last(), c, lo);
    }
}

proof fn lemma_last_index_bounds(s: Seq<char>, c: char, lo: int)
    requires
        0 <= lo,
    ensures
        -1 <= last_index_at_least(s, c, lo) < s.len(),
        last_index_at_least(s, c, lo) == -1 || lo <= last_index_at_least(s, c, lo),
    decreases s.len(),
{
    if !(s.len() == 0 || s.len() <= lo) && s[s.len() - 1] != c {
        lemma_last_index_bounds(s.drop_last(), c, lo);
    }
}

/// Last index `i` with `lo <= i < s@.len()` and `s@[i] == c`, scanning from
/// the end.
fn rfind_from(s: &str, c: char, lo: usize) -> (r: Option<usize>)
    ensures
        r matches Some(i) ==> lo <= i < s@.len() && i == last_index_at_least(s@, c, lo as int),
        r is None ==> last_index_at_least(s@, c, lo as int) == -1,
{
    let n: usize = s.unicode_len();
    let mut i: usize = n;
    while i > lo
        invariant
            i <= n,
            n == s@.len(),
            forall|j: int| i <= j < n ==> s@[j] != c,
        decreases i,
    {
        i = i - 1;
        if s.get_char(i) == c {
            proof {
                lemma_last_index_found(s@, c, lo as int, i as int);
            }
            return Some(i);
        }
    }
    proof {
        lemma_last_index_missing(s@, c, lo as int);
    }
    None
}

/// The fixed extension that identifies a source document.
pub open spec fn doc_extension() -> Seq<char> {
    seq!['.', 'm', 'd']
}

/// The fixed filename served for a directory.
pub open spec fn index_file() -> Seq<char> {
    seq!['i', 'n', 'd', 'e', 'x', '.', 'm', 'd']
}

/// The first candidate: the canonical base with its extension replaced by
/// (or set to) the document extension, as the platform path type does it.
/// Within the final component, everything from the last dot on is the
/// extension, except a dot at the component's start; a base whose final
/// component is empty is left unchanged.
pub open spec fn doc_candidate_of(canon: Seq<char>) -> Seq<char> {
    let start = last_index_at_least(canon, '/', 0) + 1;
    if start == canon.len() {
        canon
    } else {
        let dot = last_index_at_least(canon, '.', start + 1);
        if dot >= 0 {
            canon.take(dot) + doc_extension()
        } else {
            canon + doc_extension()
        }
    }
}

/// The second candidate: the canonical base joined with the fixed index
/// filename.
pub open spec fn index_candidate_of(canon: Seq<char>) -> Seq<char> {
    if canon.len() == 0 {
        index_file()
    } else if canon[canon.len() - 1] == '/' {
        canon + index_file()
    } else {
        canon + seq!['/'] + index_file()
    }
}

/// Build the document candidate for a canonical base path.
pub fn doc_candidate(canon: &str) -> (r: String)
    ensures
        r@ == doc_candidate_of(canon@),
{
    let n: usize = canon.unicode_len();
    let slash = rfind_from(canon, '/', 0);
    let start: usize = match slash {
        Some(i) => i + 1,
        None => 0,
    };
    if start == n {
        return canon.to_owned();
    }
    let dot = rfind_from(canon, '.', start + 1);
    let cut: usize = match dot {
        Some(d) => d,
        None => n,
    };
    let stem = canon.substring_char(0, cut);
    let mut out = stem.to_owned();
    out.append(".md");
    proof {
        reveal_strlit(".md");
        assert(".md"@ =~= doc_extension());
        assert(out@ =~= doc_candidate_of(canon@));
    }
    out
}

/// Build the index candidate for a canonical base path.
pub fn index_candidate(canon: &str) -> (r: String)
    ensures
        r@ == index_candidate_of(canon@),
{
    let n: usize = canon.unicode_len();
    let mut out = canon.to_owned();
    if n == 0 || canon.get_char(n - 1) == '/' {
        out.append("index.md");
    } else {
        out.append("/index.md");
    }
    proof {
        reveal_strlit("index.md");
        reveal_strlit("/index.md");
        assert("index.md"@ =~= index_file());
        assert("/index.md"@ =~= seq!['/'] + index_file());
        assert(out@ =~= index_candidate_of(canon@));
    }
    out
}

/// The candidate picked from the existence answers: the document candidate
/// when it exists, else the index candidate when that exists, else none.
pub open spec fn chosen_candidate(
    canon: Seq<char>,
    doc_exists: bool,
    index_exists: bool,
) -> Option<Seq<char>> {
    if doc_exists {
        Some(doc_candidate_of(canon))
    } else if index_exists {
        Some(index_candidate_of(canon))
    } else {
        None
    }
}

/// The view of the canonicalization outcome as the resolution specs take it.
pub open spec fn canon_view(canon: Option<String>) -> Option<Seq<char>> {
    match canon {
        Some(c) => Some(c@),
        None => None,
    }
}

/// The full resolution outcome for a request path, given the filesystem's
/// answers: `canon` is the canonicalized stripped base (`None` when
/// canonicalization failed), and the booleans say whether each candidate
/// exists on disk.
pub open spec fn resolution(
    path: Seq<char>,
    canon: Option<Seq<char>>,
    doc_exists: bool,
    index_exists: bool,
) -> Option<Seq<char>> {
    match base_of(path) {
        None => None,
        Some(_) => match canon {
            None => None,
            Some(c) => chosen_candidate(c, doc_exists, index_exists),
        },
    }
}

/// Final resolution step: combine the request path with the filesystem's
/// answers into the resolved document path, if any.
pub fn resolve_with(
    path: &str,
    canon: &Option<String>,
    doc_exists: bool,
    index_exists: bool,
) -> (r: Option<String>)
    ensures
        r is Some <==> resolution(path@, canon_view(*canon), doc_exists, index_exists) is Some,
        r matches Some(p) ==> resolution(path@, canon_view(*canon), doc_exists, index_exists)
            == Some(p@),
{
    let n: usize = path.unicode_len();
    if n < 2 {
        return None;
    }
    match canon {
        None => None,
        Some(c) => {
            if doc_exists {
                Some(doc_candidate(c.as_str()))
            } else if index_exists {
                Some(index_candidate(c.as_str()))
            } else {
                None
            }
        },
    }
}

/// A request path of length below two never resolves, whatever the
/// filesystem would answer.
pub proof fn lemma_short_path_unresolved(
    path: Seq<char>,
    canon: Option<Seq<char>>,
    doc_exists: bool,
    index_exists: bool,
)
    requires
        path.len() < 2,
    ensures
        resolution(path, canon, doc_exists, index_exists) is None,
{
}

/// When the stripped base does not canonicalize, nothing resolves, whatever
/// candidates would exist.
pub proof fn lemma_uncanonicalizable_unresolved(
    path: Seq<char>,
    doc_exists: bool,
    index_exists: bool,
)
    ensures
        resolution(path, None, doc_exists, index_exists) is None,
{
}

/// When the document candidate exists it takes precedence: the resolution is
/// the base with the document extension, whether or not the index candidate
/// also exists.
pub proof fn lemma_doc_precedence(path: Seq<char>, canon: Seq<char>, index_exists: bool)
    requires
        path.len() >= 2,
    ensures
        resolution(path, Some(canon), true, index_exists) == Some(doc_candidate_of(canon)),
{
}

/// A directory that holds the index file but no sibling document resolves to
/// the index file inside it.
pub proof fn lemma_index_fallback(path: Seq<char>, canon: Seq<char>)
    requires
        path.len() >= 2,
    ensures
        resolution(path, Some(canon), false, true) == Some(index_candidate_of(canon)),
{
}

/// A canonical base whose final component is nonempty and holds no dot
/// gains the document extension whole: nothing is replaced.
pub proof fn lemma_doc_candidate_appends(canon: Seq<char>)
    requires
        last_index_at_least(canon, '/', 0) + 1 < canon.len(),
        forall|j: int|
            last_index_at_least(canon, '/', 0) + 1 < j < canon.len() ==> canon[j] != '.',
    ensures
        doc_candidate_of(canon) == canon + doc_extension(),
{
    let start = last_index_at_least(canon, '/', 0) + 1;
    lemma_last_index_bounds(canon, '/', 0);
    lemma_last_index_missing(canon, '.', start + 1);
}

} // verus!
