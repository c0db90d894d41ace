use camino::Utf8Path;
use vstd::prelude::*;

use crate::order::{lemma_text_less_irreflexive, lemma_text_less_transitive, text_less};
use crate::text::piece_of;

verus! {

/// Whether `child` is a relative path that names no root and no drive.
pub open spec fn plain_relative(child: Seq<char>) -> bool {
    &&& child.len() > 0
    &&& child[0] != '/'
    &&& child[0] != '\\'
    &&& !(child.len() > 1 && child[1] == ':')
}

/// Whether `base` is a Windows verbatim path, which joining rebuilds.
pub open spec fn verbatim(base: Seq<char>) -> bool {
    base.len() >= 3 && base[0] == '\\' && base[1] == '\\' && base[2] == '?'
}

/// Whether `joined` starts with `base` and ends with `child`.
pub open spec fn joined_onto(joined: Seq<char>, base: Seq<char>, child: Seq<char>) -> bool {
    &&& joined.len() >= base.len() + child.len()
    &&& joined.subrange(0, base.len() as int) == base
    &&& joined.subrange(joined.len() - child.len(), joined.len() as int) == child
}

/// `child` appended to `base` as a path.
///
/// Calls `camino::Utf8Path::join`, which pushes `child` onto `base`. The
/// separator it may insert depends on the platform, and an absolute or
/// rooted `child` replaces part of `base`; that a plain relative `child`
/// follows `base` (unless `base` is a verbatim path, which is rebuilt from
/// its components) is all that is stated.
#[verifier::external_body]
pub(crate) fn join_path(base: &str, child: &str) -> (joined: String)
    ensures
        plain_relative(child@) && !verbatim(base@) ==> joined_onto(joined@, base@, child@),
{
    Utf8Path::new(base).join(child).into_string()
}

/// `path` relative to `base`, when `base` is one of its leading components.
///
/// Calls `camino::Utf8Path::strip_prefix`, which checks that the components
/// of `base` lead those of `path` and hands back the rest of `path` as a
/// slice. Components follow platform rules, so what is stated is: the
/// result is a contiguous part of `path`; and when both paths are plain
/// relative paths or both are plain paths from the root (see
/// `same_rooting`), whose components are the same on every platform, the
/// result is there exactly when the names of `base` lead those of `path`,
/// and it is what follows `base` and its separator.
#[verifier::external_body]
pub(crate) fn strip_path_prefix(path: &str, base: &str) -> (stripped: Option<String>)
    ensures
        stripped matches Some(rest) ==> piece_of(rest@, path@),
        same_rooting(path@, base@) ==> (stripped is Some <==> path_names(base@).is_prefix_of(
            path_names(path@),
        )),
        same_rooting(path@, base@) ==> (stripped matches Some(rest) ==> rest@ == path_remainder(
            path@,
            base@,
        )),
{
    match Utf8Path::new(path).strip_prefix(base) {
        Ok(relative) => Some(relative.as_str().to_owned()),
        Err(_) => None,
    }
}

/// Whether `path` is absolute.
///
/// Calls `camino::Utf8Path::is_absolute`, whose answer follows platform
/// rules. As its documentation describes, an absolute path starts at the
/// root on Unix and with a prefix on Windows; only that it then begins with
/// a separator or a drive letter and colon is stated.
#[verifier::external_body]
pub(crate) fn is_absolute_path(path: &str) -> (absolute: bool)
    ensures
        absolute ==> (path@.len() > 0 && (path@[0] == '/' || path@[0] == '\\')) || (
        path@.len() > 1 && path@[1] == ':'),
{
    Utf8Path::new(path).is_absolute()
}

/// The pieces of `p` between its `/` separators, in order.
pub open spec fn path_components(p: Seq<char>) -> Seq<Seq<char>>
    decreases p.len(),
{
    if p.len() == 0 {
        seq![Seq::<char>::empty()]
    } else {
        let earlier = path_components(p.drop_last());
        if p.last() == '/' {
            earlier.push(Seq::<char>::empty())
        } else {
            earlier.update(earlier.len() - 1, earlier.last().push(p.last()))
        }
    }
}

/// Whether `p` is a relative path whose components are the same on every
/// platform: no backslash and no colon (so no root, prefix or drive), and
/// every piece between `/` separators is a plain name, neither empty nor
/// `.` nor `..`.
pub open spec fn plain_path(p: Seq<char>) -> bool {
    &&& forall|i: int| 0 <= i < p.len() ==> p[i] != '\\' && p[i] != ':'
    &&& forall|k: int|
        0 <= k < path_components(p).len() ==> {
            let piece = #[trigger] path_components(p)[k];
            piece.len() > 0 && piece != "."@ && piece != ".."@
        }
}

/// Whether `p` is `/` followed by a plain relative path: a path from the
/// root whose components are the same on every platform.
pub open spec fn rooted_plain(p: Seq<char>) -> bool {
    p.len() > 1 && p[0] == '/' && plain_path(p.drop_first())
}

/// Whether both paths are plain relative paths, or both plain paths from
/// the root.
pub open spec fn same_rooting(a: Seq<char>, b: Seq<char>) -> bool {
    (plain_path(a) && plain_path(b)) || (rooted_plain(a) && rooted_plain(b))
}

/// The names of a path: its pieces between separators, after the root.
pub open spec fn path_names(p: Seq<char>) -> Seq<Seq<char>> {
    if p.len() > 0 && p[0] == '/' {
        path_components(p.drop_first())
    } else {
        path_components(p)
    }
}

/// The number of components of a plain path: its names, and its root if it
/// has one.
pub open spec fn path_depth(p: Seq<char>) -> nat {
    if rooted_plain(p) {
        path_names(p).len() + 1
    } else {
        path_names(p).len()
    }
}

/// What follows `base` and its separator in `path`; empty when they are
/// the same length.
pub open spec fn path_remainder(path: Seq<char>, base: Seq<char>) -> Seq<char> {
    if path.len() <= base.len() {
        Seq::<char>::empty()
    } else {
        path.subrange(base.len() + 1int, path.len() as int)
    }
}

/// Lexicographic order of component lists: a proper prefix comes first,
/// otherwise the first differing component decides, as strings order.
pub open spec fn components_less(a: Seq<Seq<char>>, b: Seq<Seq<char>>) -> bool
    decreases a.len(),
{
    if a.len() == 0 {
        b.len() > 0
    } else if b.len() == 0 {
        false
    } else if a[0] != b[0] {
        text_less(a[0], b[0])
    } else {
        components_less(a.drop_first(), b.drop_first())
    }
}

pub proof fn lemma_components_less_irreflexive(a: Seq<Seq<char>>)
    ensures
        !components_less(a, a),
    decreases a.len(),
{
    if a.len() > 0 {
        lemma_components_less_irreflexive(a.drop_first());
    }
}

pub proof fn lemma_components_less_transitive(
    a: Seq<Seq<char>>,
    b: Seq<Seq<char>>,
    c: Seq<Seq<char>>,
)
    requires
        components_less(a, b),
        components_less(b, c),
    ensures
        components_less(a, c),
    decreases a.len(),
{
    if a.len() > 0 && b.len() > 0 && c.len() > 0 {
        if a[0] != b[0] && b[0] != c[0] {
            lemma_text_less_transitive(a[0], b[0], c[0]);
            if a[0] == c[0] {
                lemma_text_less_irreflexive(a[0]);
            }
        } else if a[0] == b[0] && b[0] == c[0] {
            lemma_components_less_transitive(a.drop_first(), b.drop_first(), c.drop_first());
        }
    }
}

/// Whether two paths have the same components.
///
/// Calls `PartialEq` of `camino::Utf8Path`, which compares the paths'
/// components. Components follow platform rules, so only two facts are
/// stated: a path equals itself, and two plain relative paths (see
/// `plain_path`), whose components are their `/`-separated names on every
/// platform, are equal exactly when those names are.
#[verifier::external_body]
pub(crate) fn same_path(a: &str, b: &str) -> (equal: bool)
    ensures
        a@ == b@ ==> equal,
        plain_path(a@) && plain_path(b@) ==> equal == (path_components(a@) == path_components(
            b@,
        )),
{
    Utf8Path::new(a) == Utf8Path::new(b)
}

/// Whether path `a` orders before path `b`.
///
/// Calls `PartialOrd` of `camino::Utf8Path`, which compares the paths'
/// component lists lexicographically, a name component as strings compare.
/// Components follow platform rules, so only two facts are stated: a path
/// never orders before itself, and two plain relative paths (see
/// `plain_path`) order by `components_less` of their `/`-separated names.
#[verifier::external_body]
pub(crate) fn path_before(a: &str, b: &str) -> (before: bool)
    ensures
        a@ == b@ ==> !before,
        plain_path(a@) && plain_path(b@) ==> before == components_less(
            path_components(a@),
            path_components(b@),
        ),
{
    Utf8Path::new(a) < Utf8Path::new(b)
}

/// Whether `base` is one of the leading components of `path`.
///
/// Calls `camino::Utf8Path::starts_with`, which checks that the components
/// of `base` lead those of `path`. Components follow platform rules, so
/// what is stated is: a path starts with itself; and when both paths are
/// plain relative paths or both are plain paths from the root (see
/// `same_rooting`), it starts with `base` exactly when the names of `base`
/// lead its names.
#[verifier::external_body]
pub(crate) fn path_starts_with(path: &str, base: &str) -> (starts: bool)
    ensures
        path@ == base@ ==> starts,
        same_rooting(path@, base@) ==> starts == path_names(base@).is_prefix_of(path_names(path@)),
{
    Utf8Path::new(path).starts_with(base)
}

/// Number of components of `path`.
///
/// Calls `camino::Utf8Path::components` and counts them. Components follow
/// platform rules; for a plain relative path, or a plain path from the
/// root, the count is `path_depth`: its names, and the root.
#[verifier::external_body]
pub(crate) fn component_count(path: &str) -> (count: usize)
    ensures
        plain_path(path@) || rooted_plain(path@) ==> count == path_depth(path@),
{
    Utf8Path::new(path).components().count()
}

} // verus!
