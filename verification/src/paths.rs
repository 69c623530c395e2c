//! Paths as text: joining, file names and stems, and comparing two paths.
use vstd::prelude::*;

use crate::text::{chars_of, string_of};

verus! {

/// `Path::file_stem` of the path spelled `path`, as text: the final component
/// without its extension, or `None` when the path has no file name.
pub uninterp spec fn file_stem_of(path: Seq<char>) -> Option<Seq<char>>;

/// Calls `std::path::Path::file_stem` on `path`. The contract only ties the
/// result to the named value `file_stem_of(path)`; how std splits the path into
/// components and extension is not restated here.
#[verifier::external_body]
pub(crate) fn path_file_stem(path: &str) -> (r: Option<String>)
    ensures
        match r {
            Some(s) => file_stem_of(path@) == Some(s@),
            None => file_stem_of(path@) is None,
        },
{
    match std::path::Path::new(path).file_stem().and_then(|s| s.to_str()) {
        Some(s) => Some(s.to_string()),
        None => None,
    }
}

/// The text of `Path::new(base).join(rest)`.
pub uninterp spec fn joined_path(base: Seq<char>, rest: Seq<char>) -> Seq<char>;

/// Calls `std::path::Path::join`: `rest` adjoined to `base` with the platform's
/// separator (an absolute `rest` replaces `base`). The contract names the result
/// `joined_path(base, rest)` and does not restate those rules: the separator
/// and what counts as absolute differ between Unix and Windows, so no one
/// spelling of the result holds on every target.
#[verifier::external_body]
pub(crate) fn join_path(base: &str, rest: &str) -> (r: String)
    ensures
        r@ == joined_path(base@, rest@),
{
    std::path::Path::new(base).join(rest).to_string_lossy().into_owned()
}

/// `Path::file_name` of the path spelled `path`, as text.
pub uninterp spec fn file_name_of(path: Seq<char>) -> Option<Seq<char>>;

/// Calls `std::path::Path::file_name`: the final component of `path`, or
/// `None` when the path ends in `..` or is a root. The contract only ties the
/// result to the named value `file_name_of(path)`.
#[verifier::external_body]
pub(crate) fn path_file_name(path: &str) -> (r: Option<String>)
    ensures
        match r {
            Some(s) => file_name_of(path@) == Some(s@),
            None => file_name_of(path@) is None,
        },
{
    match std::path::Path::new(path).file_name().and_then(|s| s.to_str()) {
        Some(s) => Some(s.to_string()),
        None => None,
    }
}

/// Whether `Path::new(a) == Path::new(b)`: std compares paths component by
/// component, so `a/b` and `a//b` are the same path.
pub uninterp spec fn same_path(a: Seq<char>, b: Seq<char>) -> bool;

/// Calls `==` on two `std::path::Path`s. Beyond naming the result, the contract
/// states only what `Eq` promises: a path equals itself.
#[verifier::external_body]
pub(crate) fn paths_equal(a: &str, b: &str) -> (r: bool)
    ensures
        r == same_path(a@, b@),
        a@ == b@ ==> r,
{
    std::path::Path::new(a) == std::path::Path::new(b)
}

/// Calls `std::path::Path::is_file`, which asks the file system whether `path`
/// names a regular file. Nothing is stated of the answer: it depends on the disk.
#[verifier::external_body]
pub(crate) fn path_is_file(path: &str) -> (r: bool) {
    std::path::Path::new(path).is_file()
}

/// `s` split at every `sep`, as `str::split` does (always at least one piece).
pub open spec fn split_on(s: Seq<char>, sep: char) -> Seq<Seq<char>>
    decreases s.len(),
{
    if s.len() == 0 {
        seq![Seq::empty()]
    } else {
        let rest = split_on(s.drop_last(), sep);
        if s.last() == sep {
            rest.push(Seq::empty())
        } else {
            rest.update(rest.len() - 1, rest.last().push(s.last()))
        }
    }
}

pub proof fn lemma_split_on_nonempty(s: Seq<char>, sep: char)
    ensures
        split_on(s, sep).len() >= 1,
    decreases s.len(),
{
    if s.len() > 0 {
        lemma_split_on_nonempty(s.drop_last(), sep);
    }
}

/// What follows the last `/` of `s` (all of `s` when there is none):
/// `s.rsplit('/').next()`.
pub open spec fn after_last_slash(s: Seq<char>) -> Seq<char> {
    split_on(s, '/').last()
}

/// The stem a preset is classified by: the file stem of `id` (or `id` itself
/// when it has none), cut after its last `/`.
pub open spec fn stem_after(id: Seq<char>, file_stem: Option<Seq<char>>) -> Seq<char> {
    match file_stem {
        Some(s) => after_last_slash(s),
        None => after_last_slash(id),
    }
}

pub open spec fn preset_stem_of(id: Seq<char>) -> Seq<char> {
    stem_after(id, file_stem_of(id))
}

/// The characters of `v` after its last `/`.
pub fn after_last_slash_chars(v: &Vec<char>) -> (r: Vec<char>)
    ensures
        r@ == after_last_slash(v@),
{
    let mut cur: Vec<char> = Vec::new();
    let mut i: usize = 0;
    while i < v.len()
        invariant
            i <= v.len(),
            cur@ == after_last_slash(v@.subrange(0, i as int)),
        decreases v.len() - i,
    {
        let ghost pre = v@.subrange(0, i as int);
        let ghost next = v@.subrange(0, i + 1);
        assert(next.drop_last() == pre);
        proof {
            lemma_split_on_nonempty(pre, '/');
        }
        if v[i] == '/' {
            cur = Vec::new();
            assert(cur@ =~= after_last_slash(next));
        } else {
            cur.push(v[i]);
            assert(cur@ =~= after_last_slash(next));
        }
        i = i + 1;
    }
    assert(v@.subrange(0, v.len() as int) == v@);
    cur
}

/// The classification stem of `id` given what `Path::file_stem` returned for it.
pub fn stem_from(id: &str, file_stem: Option<String>) -> (r: String)
    ensures
        r@ == stem_after(id@, match file_stem {
            Some(s) => Some(s@),
            None => None,
        }),
{
    let v = match file_stem {
        Some(s) => chars_of(s.as_str()),
        None => chars_of(id),
    };
    string_of(&after_last_slash_chars(&v))
}

/// The stem a factory id or preset path is classified by.
pub fn preset_stem(id: &str) -> (r: String)
    ensures
        r@ == preset_stem_of(id@),
{
    stem_from(id, path_file_stem(id))
}

} // verus!
