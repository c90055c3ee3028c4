//! Filesystem paths as strings, with the `std::path` operations the library
//! relies on.
use vstd::prelude::*;
use crate::text::{str_eq, trimmed};

verus! {

/// `Path::join`: `rest` appended to `base` (or `rest` alone when it is
/// absolute). The `path_*` names are the target platform's `std::path`
/// reading of the text.
pub uninterp spec fn path_join(base: Seq<char>, rest: Seq<char>) -> Seq<char>;

/// `Path::file_name`: the final component, unless the path ends in `..`.
pub uninterp spec fn path_file_name(p: Seq<char>) -> Option<Seq<char>>;

/// `Path::parent`: the path without its final component.
pub uninterp spec fn path_parent(p: Seq<char>) -> Option<Seq<char>>;

/// `Path::starts_with`: whether `base` is a whole-component prefix of `p`.
pub uninterp spec fn path_has_prefix(p: Seq<char>, base: Seq<char>) -> bool;

/// `Path::join`, as a string. `rest` is adjoined to `base` (or replaces it
/// when absolute), so when `rest` is not blank neither is the result.
#[verifier::external_body]
pub(crate) fn join(base: &str, rest: &str) -> (r: String)
    ensures
        r@ == path_join(base@, rest@),
        trimmed(r@).len() > 0 || trimmed(rest@).len() == 0,
{
    std::path::Path::new(base).join(rest).to_string_lossy().into_owned()
}

/// `Path::file_name`, as a string.
#[verifier::external_body]
pub(crate) fn file_name(p: &str) -> (r: Option<String>)
    ensures
        match r {
            Some(s) => path_file_name(p@) == Some(s@),
            None => path_file_name(p@) is None,
        },
{
    std::path::Path::new(p).file_name().map(|name| name.to_string_lossy().into_owned())
}

/// `Path::parent`, as a string. The parent is the path without its final
/// component, so it is strictly shorter than the path.
#[verifier::external_body]
pub(crate) fn parent(p: &str) -> (r: Option<String>)
    ensures
        match r {
            Some(s) => path_parent(p@) == Some(s@),
            None => path_parent(p@) is None,
        },
        r matches Some(s) ==> s@.len() < p@.len(),
{
    std::path::Path::new(p).parent().map(|dir| dir.to_string_lossy().into_owned())
}

/// `Path::starts_with`. Every path starts with itself.
#[verifier::external_body]
pub(crate) fn starts_with(p: &str, base: &str) -> (r: bool)
    ensures
        r == path_has_prefix(p@, base@),
        p@ == base@ ==> r,
{
    std::path::Path::new(p).starts_with(base)
}


/// A component of a path, as `Path::components` yields it.
#[derive(Debug)]
pub enum PathPart {
    Prefix,
    RootDir,
    CurDir,
    ParentDir,
    Normal(String),
}

/// A path component with its name as characters.
pub enum PathPartView {
    Prefix,
    RootDir,
    CurDir,
    ParentDir,
    Normal(Seq<char>),
}

pub open spec fn part_view(p: PathPart) -> PathPartView {
    match p {
        PathPart::Prefix => PathPartView::Prefix,
        PathPart::RootDir => PathPartView::RootDir,
        PathPart::CurDir => PathPartView::CurDir,
        PathPart::ParentDir => PathPartView::ParentDir,
        PathPart::Normal(s) => PathPartView::Normal(s@),
    }
}

/// Component views of a list of parts.
pub open spec fn part_views(s: Seq<PathPart>) -> Seq<PathPartView> {
    s.map_values(|x: PathPart| part_view(x))
}

/// `Path::components`.
pub uninterp spec fn path_components(p: Seq<char>) -> Seq<PathPartView>;

/// `Path::is_absolute`.
pub uninterp spec fn path_is_absolute(p: Seq<char>) -> bool;

/// `Path::components`, one part per component.
#[verifier::external_body]
pub(crate) fn components(p: &str) -> (r: Vec<PathPart>)
    ensures
        part_views(r@) == path_components(p@),
{
    std::path::Path::new(p)
        .components()
        .map(|c| match c {
            std::path::Component::Prefix(_) => PathPart::Prefix,
            std::path::Component::RootDir => PathPart::RootDir,
            std::path::Component::CurDir => PathPart::CurDir,
            std::path::Component::ParentDir => PathPart::ParentDir,
            std::path::Component::Normal(name) => PathPart::Normal(name.to_string_lossy().into_owned()),
        })
        .collect()
}

/// `Path::is_absolute`.
#[verifier::external_body]
pub(crate) fn is_absolute(p: &str) -> (r: bool)
    ensures
        r == path_is_absolute(p@),
{
    std::path::Path::new(p).is_absolute()
}


/// `chain` lists `dir` and its ancestors, nearest first, while they lie
/// under `root` (`Path::ancestors` taken while `Path::starts_with(root)`).
pub open spec fn ancestors_within(chain: Seq<Seq<char>>, dir: Seq<char>, root: Seq<char>) -> bool {
    &&& (chain.len() == 0 <==> !path_has_prefix(dir, root))
    &&& chain.len() > 0 ==> chain[0] == dir
    &&& forall|k: int| 0 <= k < chain.len() - 1 ==> path_parent(#[trigger] chain[k]) == Some(chain[k + 1])
    &&& forall|k: int| 0 <= k < chain.len() ==> path_has_prefix(#[trigger] chain[k], root)
    &&& chain.len() > 0 ==> match path_parent(chain.last()) {
        Some(q) => !path_has_prefix(q, root),
        None => true,
    }
}

/// The directories from `dir` up to the scan root, nearest first: a walk
/// up the tree never leaves the configured root.
pub fn bounded_ancestors(dir: &str, root: &str) -> (r: Vec<String>)
    ensures
        ancestors_within(crate::text::views(r@), dir@, root@),
{
    let mut out: Vec<String> = Vec::new();
    let mut current = String::new();
    crate::text::push_str(&mut current, dir);
    if !starts_with(current.as_str(), root) {
        assert(crate::text::views(out@) =~= Seq::<Seq<char>>::empty());
        return out;
    }
    loop
        invariant
            current@.len() <= dir@.len(),
            path_has_prefix(current@, root@),
            out@.len() == 0 ==> current@ == dir@,
            out@.len() > 0 ==> crate::text::views(out@)[0] == dir@,
            out@.len() > 0 ==> path_parent(out@.last()@) == Some(current@),
            forall|k: int| 0 <= k < out@.len() - 1 ==> path_parent(#[trigger] out@[k]@) == Some(out@[k + 1]@),
            forall|k: int| 0 <= k < out@.len() ==> path_has_prefix(#[trigger] out@[k]@, root@),
            path_has_prefix(dir@, root@),
        decreases current@.len(),
    {
        let next = parent(current.as_str());
        let ghost before = out@;
        let ghost cur = current@;
        out.push(current);
        proof {
            assert(out@[out@.len() - 1]@ == cur);
            assert forall|k: int| 0 <= k < out@.len() - 1 implies path_parent(#[trigger] out@[k]@) == Some(out@[k + 1]@) by {
                if k < before.len() - 1 {
                    assert(out@[k] == before[k] && out@[k + 1] == before[k + 1]);
                } else {
                    assert(out@[k] == before[k]);
                }
            }
            assert forall|k: int| 0 <= k < out@.len() implies path_has_prefix(#[trigger] out@[k]@, root@) by {
                if k < before.len() {
                    assert(out@[k] == before[k]);
                }
            }
        }
        match next {
            Some(p) => {
                if starts_with(p.as_str(), root) {
                    current = p;
                } else {
                    let ghost v = crate::text::views(out@);
                    assert(v.len() == out@.len());
                    assert forall|k: int| 0 <= k < v.len() - 1 implies path_parent(#[trigger] v[k]) == Some(v[k + 1]) by {
                        assert(v[k] == out@[k]@ && v[k + 1] == out@[k + 1]@);
                        assert(path_parent(out@[k]@) == Some(out@[k + 1]@));
                    }
                    assert forall|k: int| 0 <= k < v.len() implies path_has_prefix(#[trigger] v[k], root@) by {
                        assert(v[k] == out@[k]@);
                        assert(path_has_prefix(out@[k]@, root@));
                    }
                    assert(v.last() == cur);
                    return out;
                }
            },
            None => {
                let ghost v = crate::text::views(out@);
                assert(v.len() == out@.len());
                assert forall|k: int| 0 <= k < v.len() - 1 implies path_parent(#[trigger] v[k]) == Some(v[k + 1]) by {
                    assert(v[k] == out@[k]@ && v[k + 1] == out@[k + 1]@);
                    assert(path_parent(out@[k]@) == Some(out@[k + 1]@));
                }
                assert forall|k: int| 0 <= k < v.len() implies path_has_prefix(#[trigger] v[k], root@) by {
                    assert(v[k] == out@[k]@);
                    assert(path_has_prefix(out@[k]@, root@));
                }
                assert(v.last() == cur);
                return out;
            },
        }
    }
}

/// Whether two component lists are equal, part by part.
pub(crate) fn same_parts(a: &Vec<PathPart>, b: &Vec<PathPart>, start: usize, len: usize) -> (r: bool)
    requires
        start + len <= a@.len(),
        len <= b@.len(),
    ensures
        r == (part_views(a@).subrange(start as int, start + len) == part_views(b@).take(len as int)),
{
    let ghost av = part_views(a@);
    let ghost bv = part_views(b@);
    let mut k: usize = 0;
    while k < len
        invariant
            start + len <= a@.len(),
            len <= b@.len(),
            k <= len,
            av == part_views(a@),
            bv == part_views(b@),
            forall|j: int| 0 <= j < k ==> av[start + j] == bv[j],
        decreases len - k,
    {
        assert(start + k < a.len());
        let same = match (&a[start + k], &b[k]) {
            (PathPart::Prefix, PathPart::Prefix) => true,
            (PathPart::RootDir, PathPart::RootDir) => true,
            (PathPart::CurDir, PathPart::CurDir) => true,
            (PathPart::ParentDir, PathPart::ParentDir) => true,
            (PathPart::Normal(x), PathPart::Normal(y)) => str_eq(x.as_str(), y.as_str()),
            _ => false,
        };
        if !same {
            assert(av.subrange(start as int, start + len)[k as int] != bv.take(len as int)[k as int]);
            return false;
        }
        k = k + 1;
    }
    assert(av.subrange(start as int, start + len) =~= bv.take(len as int));
    true
}

/// `Path` equality: the same components.
pub fn same_path(a: &str, b: &str) -> (r: bool)
    ensures
        r == (path_components(a@) == path_components(b@)),
{
    let ap = components(a);
    let bp = components(b);
    if ap.len() != bp.len() {
        assert(part_views(ap@).len() != part_views(bp@).len());
        return false;
    }
    let r = same_parts(&ap, &bp, 0, ap.len());
    proof {
        let av = part_views(ap@);
        let bv = part_views(bp@);
        assert(av.subrange(0, av.len() as int) =~= av);
        assert(bv.take(bv.len() as int) =~= bv);
    }
    r
}

} // verus!
