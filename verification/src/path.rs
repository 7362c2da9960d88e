//! Paths held as strings, with `/` as separator.
use vstd::prelude::*;
use crate::text::{has_prefix, has_suffix, push_str, owned, starts_with, ends_with, str_eq, views};

verus! {

broadcast use vstd::string::group_string_axioms;

/// `Path::join` on Unix: an absolute `part` replaces `base`; otherwise
/// `part` is appended, with a `/` between the two unless `base` is empty or
/// already ends with one.
pub open spec fn join_path(base: Seq<char>, part: Seq<char>) -> Seq<char> {
    if starts_with(part, seq!['/']) {
        part
    } else if base.len() == 0 || ends_with(base, seq!['/']) {
        base + part
    } else {
        base + seq!['/'] + part
    }
}

/// Executable `Path::join`.
pub fn path_join(base: &str, part: &str) -> (r: String)
    ensures
        r@ == join_path(base@, part@),
{
    proof {
        reveal_strlit("/");
        assert("/"@ =~= seq!['/']);
    }
    if has_prefix(part, "/") {
        owned(part)
    } else if base.is_empty() || has_suffix(base, "/") {
        let mut r = owned(base);
        push_str(&mut r, part);
        r
    } else {
        let mut r = owned(base);
        push_str(&mut r, "/");
        push_str(&mut r, part);
        r
    }
}

/// `Path::is_absolute` on Unix.
pub open spec fn is_absolute(p: Seq<char>) -> bool {
    starts_with(p, seq!['/'])
}

/// Executable `Path::is_absolute`.
pub fn absolute(p: &str) -> (r: bool)
    ensures
        r == is_absolute(p@),
{
    proof {
        reveal_strlit("/");
        assert("/"@ =~= seq!['/']);
    }
    has_prefix(p, "/")
}

/// The directory above a path, as `Path::parent` gives it.
pub uninterp spec fn path_parent(p: Seq<char>) -> Option<Seq<char>>;

/// `Path::parent`: the path without its final component, `None` for a
/// root or an empty path. The contract claims that the result is the named
/// `path_parent` of the argument and, as the path loses its final
/// component, that it is shorter than the argument.
#[verifier::external_body]
pub fn parent_of(p: &str) -> (r: Option<String>)
    ensures
        r.deep_view() == path_parent(p@),
        r matches Some(q) ==> q@.len() < p@.len(),
{
    std::path::Path::new(p).parent().map(|q| q.to_string_lossy().into_owned())
}

/// The final component of a path, as `Path::file_name` gives it.
pub uninterp spec fn path_file_name(p: Seq<char>) -> Option<Seq<char>>;

/// `Path::file_name`: the final component of a path, `None` when it ends
/// in `..` or is a root. The contract claims only that the result is the
/// named `path_file_name` of the argument.
#[verifier::external_body]
pub fn file_name_of(p: &str) -> (r: Option<String>)
    ensures
        r.deep_view() == path_file_name(p@),
{
    std::path::Path::new(p).file_name().map(|n| n.to_string_lossy().into_owned())
}

/// `dir` and the directories above it, nearest first.
pub open spec fn ancestor_chain(dir: Seq<char>) -> Seq<Seq<char>>
    decreases dir.len(),
{
    match path_parent(dir) {
        Some(up) => if up.len() < dir.len() {
            seq![dir] + ancestor_chain(up)
        } else {
            seq![dir]
        },
        None => seq![dir],
    }
}

/// The paths of `name` in `dir` and in each directory above it, nearest
/// first.
pub open spec fn upward_candidates(dir: Seq<char>, name: Seq<char>) -> Seq<Seq<char>> {
    ancestor_chain(dir).map_values(|a: Seq<char>| join_path(a, name))
}

/// The paths where an upward search from `dir` looks for `name`, nearest
/// first.
pub fn upward_paths(dir: &str, name: &str) -> (r: Vec<String>)
    ensures
        views(r@) == upward_candidates(dir@, name@),
{
    let mut r: Vec<String> = Vec::new();
    let mut cur: Option<String> = Some(owned(dir));
    assert(views(r@) + upward_candidates(dir@, name@) =~= upward_candidates(dir@, name@));
    while cur.is_some()
        invariant
            match cur {
                Some(c) => views(r@) + upward_candidates(c@, name@) == upward_candidates(dir@, name@),
                None => views(r@) == upward_candidates(dir@, name@),
            },
        decreases match cur {
            Some(c) => c@.len() + 1,
            None => 0,
        },
    {
        let c = match cur {
            Some(c) => c,
            None => String::new(),
        };
        let ghost before = views(r@);
        r.push(path_join(c.as_str(), name));
        let up = parent_of(c.as_str());
        proof {
            assert(views(r@) =~= before.push(join_path(c@, name@)));
            match &up {
                Some(u) => {
                    assert(ancestor_chain(c@) == seq![c@] + ancestor_chain(u@));
                    assert(upward_candidates(c@, name@) =~= seq![join_path(c@, name@)]
                        + upward_candidates(u@, name@));
                    assert(views(r@) + upward_candidates(u@, name@) =~= before + upward_candidates(
                        c@,
                        name@,
                    ));
                },
                None => {
                    assert(ancestor_chain(c@) == seq![c@]);
                    assert(upward_candidates(c@, name@) =~= seq![join_path(c@, name@)]);
                    assert(views(r@) =~= before + upward_candidates(c@, name@));
                },
            }
        }
        cur = up;
    }
    r
}

/// The first of `candidates` whose flag in `exists` is set (a missing flag
/// counts as unset).
pub open spec fn first_existing(candidates: Seq<Seq<char>>, exists: Seq<bool>) -> Option<Seq<char>>
    decreases candidates.len(),
{
    if candidates.len() == 0 {
        None
    } else if exists.len() > 0 && exists[0] {
        Some(candidates[0])
    } else {
        first_existing(candidates.drop_first(), if exists.len() > 0 { exists.drop_first() } else { exists })
    }
}

/// Executable `first_existing`.
pub fn pick_existing(candidates: &Vec<String>, exists: &Vec<bool>) -> (r: Option<String>)
    ensures
        r.deep_view() == first_existing(views(candidates@), exists@),
{
    let mut i: usize = 0;
    let ghost cv = views(candidates@);
    assert(cv.skip(0) =~= cv && exists@.skip(0) =~= exists@);
    while i < candidates.len()
        invariant
            cv == views(candidates@),
            i <= candidates.len(),
            first_existing(cv, exists@) == first_existing(
                cv.skip(i as int),
                if i <= exists.len() { exists@.skip(i as int) } else { Seq::empty() },
            ),
        decreases candidates.len() - i,
    {
        let ghost es = if i <= exists.len() { exists@.skip(i as int) } else { Seq::<bool>::empty() };
        if i < exists.len() && exists[i] {
            assert(es[0] == exists@[i as int]);
            return Some(candidates[i].clone());
        }
        assert(cv.skip(i as int).drop_first() =~= cv.skip(i + 1));
        if i < exists.len() {
            assert(es.drop_first() =~= exists@.skip(i + 1));
        } else {
            assert(es =~= Seq::<bool>::empty());
        }
        i += 1;
    }
    None
}

} // verus!
