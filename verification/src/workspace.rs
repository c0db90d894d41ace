use globset::{Glob, GlobSet, GlobSetBuilder};
use vstd::prelude::*;
use vstd::string::*;

use crate::facts::{AnalysisError, RustEdition, SourceUnit};
use crate::messages::{forward_slashes, with_forward_slashes};
use crate::paths::{
    component_count, components_less, join_path, lemma_components_less_irreflexive,
    lemma_components_less_transitive, path_before, path_components, path_depth, path_names,
    path_remainder, path_starts_with, plain_path, rooted_plain, same_path, same_rooting,
};
use crate::text::{concat, same_text};

verus! {

/// The edition named in a package manifest: 2015, 2018 or 2021, and 2024
/// for anything else.
pub open spec fn spec_parse_edition(edition: Seq<char>) -> RustEdition {
    if edition == "2015"@ {
        RustEdition::Edition2015
    } else if edition == "2018"@ {
        RustEdition::Edition2018
    } else if edition == "2021"@ {
        RustEdition::Edition2021
    } else {
        RustEdition::Edition2024
    }
}

/// The edition named in a package manifest.
pub fn parse_edition(edition: &str) -> (found: RustEdition)
    ensures
        found == spec_parse_edition(edition@),
{
    if same_text(edition, "2015") {
        RustEdition::Edition2015
    } else if same_text(edition, "2018") {
        RustEdition::Edition2018
    } else if same_text(edition, "2021") {
        RustEdition::Edition2021
    } else {
        RustEdition::Edition2024
    }
}

/// The directory of a workspace package and its edition.
pub struct PackageRoot {
    pub path: String,
    pub edition: RustEdition,
}

/// Whether package `k` is the last of the deepest among the first `n`
/// packages that contain the file.
pub open spec fn deepest_last(containing: Seq<bool>, depths: Seq<usize>, k: int, n: int) -> bool {
    &&& 0 <= k < n
    &&& containing[k]
    &&& forall|j: int| 0 <= j < n && #[trigger] containing[j] ==> depths[j] <= depths[k]
    &&& forall|j: int| k < j < n && #[trigger] containing[j] ==> depths[j] < depths[k]
}

/// Whether `edition` is that of the last of the deepest packages that
/// contain the file, or 2024 when none does.
pub open spec fn deepest_edition_is(
    packages: Seq<PackageRoot>,
    containing: Seq<bool>,
    depths: Seq<usize>,
    edition: RustEdition,
) -> bool {
    &&& (forall|j: int| 0 <= j < packages.len() ==> !#[trigger] containing[j]) ==> edition
        == RustEdition::Edition2024
    &&& (exists|j: int| 0 <= j < packages.len() && #[trigger] containing[j]) ==> exists|k: int|
        deepest_last(containing, depths, k, packages.len() as int) && edition
            == #[trigger] packages[k].edition
}

impl PackageRoot {
    /// The edition of the last of the deepest packages that contain a file,
    /// given for each package whether it contains the file and how many path
    /// components it has; 2024 when no package contains it.
    pub fn deepest_edition(packages: &[PackageRoot], containing: &[bool], depths: &[usize]) -> (
        edition: RustEdition)
        requires
            containing@.len() == packages@.len(),
            depths@.len() == packages@.len(),
        ensures
            deepest_edition_is(packages@, containing@, depths@, edition),
    {
        let mut best: Option<usize> = None;
        let mut index: usize = 0;
        while index < packages.len()
            invariant
                index <= packages@.len(),
                containing@.len() == packages@.len(),
                depths@.len() == packages@.len(),
                best matches Some(k) ==> deepest_last(containing@, depths@, k as int, index as int),
                best is None ==> forall|j: int| 0 <= j < index ==> !#[trigger] containing@[j],
            decreases packages@.len() - index,
        {
            if containing[index] {
                let better = match best {
                    Some(k) => depths[index] >= depths[k],
                    None => true,
                };
                if better {
                    best = Some(index);
                }
            }
            index = index + 1;
        }
        match best {
            Some(k) => {
                assert(deepest_last(containing@, depths@, k as int, packages@.len() as int));
                assert(packages@[k as int].edition == packages[k as int].edition);
                packages[k].edition
            },
            None => RustEdition::Edition2024,
        }
    }

    /// The edition of a source file: that of the package with the most
    /// path components that contains it (the last of them on a tie), or
    /// 2024 when no package contains it. Which packages contain the file,
    /// and how many components their paths have, follows `camino`: a
    /// package whose path is the file's own path contains it, and for plain
    /// paths (relative, or from the root) a package contains the file when
    /// its names lead the file's names, and its depth is its count of
    /// components.
    pub fn edition_for(path: &str, packages: &[PackageRoot]) -> (edition: RustEdition)
        ensures
            exists|containing: Seq<bool>, depths: Seq<usize>|
                {
                    &&& containing.len() == packages@.len()
                    &&& depths.len() == packages@.len()
                    &&& forall|j: int|
                        0 <= j < packages@.len() && (#[trigger] packages@[j]).path@ == path@
                            ==> containing[j]
                    &&& forall|j: int|
                        0 <= j < packages@.len() && same_rooting(
                            path@,
                            (#[trigger] packages@[j]).path@,
                        ) ==> containing[j] == path_names(packages@[j].path@).is_prefix_of(
                            path_names(path@),
                        )
                    &&& forall|j: int|
                        0 <= j < packages@.len() && (plain_path((#[trigger] packages@[j]).path@)
                            || rooted_plain(packages@[j].path@)) ==> depths[j] == path_depth(
                            packages@[j].path@,
                        )
                    &&& deepest_edition_is(packages@, containing, depths, edition)
                },
    {
        let mut containing: Vec<bool> = Vec::new();
        let mut depths: Vec<usize> = Vec::new();
        let mut index: usize = 0;
        while index < packages.len()
            invariant
                index <= packages@.len(),
                containing@.len() == index,
                depths@.len() == index,
                forall|j: int|
                    0 <= j < index && (#[trigger] packages@[j]).path@ == path@ ==> containing@[j],
                forall|j: int|
                    0 <= j < index && same_rooting(path@, (#[trigger] packages@[j]).path@)
                        ==> containing@[j] == path_names(packages@[j].path@).is_prefix_of(
                        path_names(path@),
                    ),
                forall|j: int|
                    0 <= j < index && (plain_path((#[trigger] packages@[j]).path@) || rooted_plain(
                        packages@[j].path@,
                    )) ==> depths@[j] == path_depth(packages@[j].path@),
            decreases packages@.len() - index,
        {
            let package = &packages[index];
            containing.push(path_starts_with(path, package.path.as_str()));
            depths.push(component_count(package.path.as_str()));
            index = index + 1;
        }
        let edition = PackageRoot::deepest_edition(packages, containing.as_slice(), depths.as_slice());
        assert(deepest_edition_is(packages@, containing@, depths@, edition));
        edition
    }
}

/// A package that `cargo metadata` describes, as far as the workspace needs
/// it.
pub struct PackageMetadata {
    pub id: String,
    pub manifest_path: String,
    pub edition: String,
    pub binary_targets: Vec<bool>,
}

/// The Cargo workspace: its root, its target directory, its packages, and
/// whether it builds a binary.
pub struct Workspace {
    root: String,
    target_directory: String,
    packages: Vec<PackageRoot>,
    has_binary_targets: bool,
}

/// `p` up to its last `/`, without it; empty when it has none.
pub open spec fn before_last_separator(p: Seq<char>) -> Seq<char>
    decreases p.len(),
{
    if p.len() == 0 {
        p
    } else if p.last() == '/' {
        p.drop_last()
    } else {
        before_last_separator(p.drop_last())
    }
}

/// The directory of a plain path: for a relative one, what comes before
/// its last `/` (empty for a single name); for one from the root, the same,
/// or the root itself for a name directly below it.
pub open spec fn plain_parent(p: Seq<char>) -> Seq<char> {
    if rooted_plain(p) && before_last_separator(p).len() == 0 {
        "/"@
    } else {
        before_last_separator(p)
    }
}

/// The directory of `path`.
///
/// Calls `camino::Utf8Path::parent`, which drops the last component and
/// hands back the rest of `path`. Components follow platform rules, so
/// what is stated is: the directory is a contiguous part of `path`; and for
/// a plain relative path or a plain path from the root (see `plain_path`,
/// `rooted_plain`), whose last component is its last name, the directory is
/// `plain_parent`.
#[verifier::external_body]
fn parent_path(path: &str) -> (parent: Option<String>)
    ensures
        parent matches Some(found) ==> crate::text::piece_of(found@, path@),
        plain_path(path@) || rooted_plain(path@) ==> parent is Some,
        parent matches Some(found) ==> (plain_path(path@) || rooted_plain(path@) ==> found@
            == plain_parent(path@)),
{
    camino::Utf8Path::new(path).parent().map(|parent| parent.as_str().to_owned())
}

/// Whether `id` names a workspace member.
pub open spec fn is_member(members: Seq<String>, id: Seq<char>) -> bool {
    exists|k: int| 0 <= k < members.len() && (#[trigger] members[k])@ == id
}

fn member(members: &[String], id: &str) -> (found: bool)
    ensures
        found == is_member(members@, id@),
{
    let mut k: usize = 0;
    while k < members.len()
        invariant
            k <= members@.len(),
            forall|m: int| 0 <= m < k ==> (#[trigger] members@[m])@ != id@,
        decreases members@.len() - k,
    {
        if same_text(members[k].as_str(), id) {
            return true;
        }
        k = k + 1;
    }
    false
}

/// Whether some workspace member builds a binary.
pub open spec fn builds_binary(packages: Seq<PackageMetadata>, members: Seq<String>) -> bool {
    exists|p: int, t: int|
        0 <= p < packages.len() && is_member(members, packages[p].id@) && 0 <= t
            < packages[p].binary_targets@.len() && #[trigger] packages[p].binary_targets@[t]
}

/// The package roots of the member packages, in order: each member's
/// directory, as `parents` gives it, with its edition; a member without a
/// directory is left out.
pub open spec fn member_roots(
    packages: Seq<PackageMetadata>,
    members: Seq<String>,
    parents: Seq<Option<Seq<char>>>,
) -> Seq<(Seq<char>, RustEdition)>
    decreases packages.len(),
{
    if packages.len() == 0 || parents.len() == 0 {
        seq![]
    } else {
        let rest = member_roots(packages.drop_last(), members, parents.drop_last());
        if is_member(members, packages.last().id@) && parents.last() is Some {
            rest.push((parents.last()->Some_0, spec_parse_edition(packages.last().edition@)))
        } else {
            rest
        }
    }
}

/// Whether `parents` holds, for each member package, the directory of its
/// manifest as `camino` gives it: a contiguous part of the manifest path,
/// and for a plain manifest path its `plain_parent`.
pub open spec fn manifest_parents(
    packages: Seq<PackageMetadata>,
    members: Seq<String>,
    parents: Seq<Option<Seq<char>>>,
) -> bool {
    &&& parents.len() == packages.len()
    &&& forall|p: int|
        0 <= p < packages.len() && is_member(members, packages[p].id@) ==> {
            &&& (#[trigger] parents[p]) matches Some(found) ==> crate::text::piece_of(
                found,
                packages[p].manifest_path@,
            )
            &&& plain_path(packages[p].manifest_path@) || rooted_plain(packages[p].manifest_path@)
                ==> parents[p] == Some(plain_parent(packages[p].manifest_path@))
        }
}

impl Workspace {
    /// The workspace that `cargo metadata` describes: the packages that are
    /// members and whose manifests lie in a directory, each with its
    /// edition, in order, and whether a member builds a binary.
    pub fn from_metadata(
        root: String,
        target_directory: String,
        packages: &[PackageMetadata],
        members: &[String],
    ) -> (workspace: Self)
        ensures
            workspace.root_text() == root@,
            workspace.target_directory() == target_directory@,
            workspace.binary_built() == builds_binary(packages@, members@),
            exists|parents: Seq<Option<Seq<char>>>|
                manifest_parents(packages@, members@, parents) && workspace.package_roots()
                    == member_roots(packages@, members@, parents),
    {
        let mut roots: Vec<PackageRoot> = Vec::new();
        let ghost mut parents: Seq<Option<Seq<char>>> = seq![];
        let mut binary = false;
        let mut index: usize = 0;
        while index < packages.len()
            invariant
                index <= packages@.len(),
                parents.len() == index,
                manifest_parents(packages@.subrange(0, index as int), members@, parents),
                roots@.map_values(|package: PackageRoot| (package.path@, package.edition))
                    == member_roots(packages@.subrange(0, index as int), members@, parents),
                binary == exists|p: int, t: int|
                    0 <= p < index && is_member(members@, packages@[p].id@) && 0 <= t
                        < packages@[p].binary_targets@.len()
                        && #[trigger] packages@[p].binary_targets@[t],
            decreases packages@.len() - index,
        {
            let package = &packages[index];
            let ghost before_roots = roots@;
            let ghost before_parents = parents;
            let ghost mut found: Option<Seq<char>> = None;
            if member(members, package.id.as_str()) {
                let mut t: usize = 0;
                while t < package.binary_targets.len()
                    invariant
                        t <= package.binary_targets@.len(),
                        package == packages@[index as int],
                        is_member(members@, package.id@),
                        binary ==> exists|p: int, u: int|
                            0 <= p <= index && is_member(members@, packages@[p].id@) && 0 <= u
                                < packages@[p].binary_targets@.len()
                                && #[trigger] packages@[p].binary_targets@[u],
                        !binary ==> forall|p: int, u: int|
                            0 <= p < index && is_member(members@, packages@[p].id@) && 0 <= u
                                < packages@[p].binary_targets@.len() ==> !#[trigger] packages@[p].binary_targets@[u],
                        !binary ==> forall|u: int|
                            0 <= u < t ==> !#[trigger] package.binary_targets@[u],
                    decreases package.binary_targets@.len() - t,
                {
                    if package.binary_targets[t] {
                        binary = true;
                    }
                    t = t + 1;
                }
                match parent_path(package.manifest_path.as_str()) {
                    Some(path) => {
                        proof {
                            found = Some(path@);
                        }
                        let edition = parse_edition(package.edition.as_str());
                        roots.push(PackageRoot { path, edition });
                    },
                    None => {},
                }
            }
            proof {
                parents = parents.push(found);
                let next = packages@.subrange(0, index + 1);
                assert(next.drop_last() =~= packages@.subrange(0, index as int));
                assert(parents.drop_last() =~= before_parents);
                assert(next.last() == packages@[index as int]);
                assert forall|p: int|
                    0 <= p < next.len() && is_member(members@, next[p].id@) implies {
                        &&& (#[trigger] parents[p]) matches Some(f) ==> crate::text::piece_of(
                            f,
                            next[p].manifest_path@,
                        )
                        &&& plain_path(next[p].manifest_path@) || rooted_plain(next[p].manifest_path@)
                            ==> parents[p] == Some(plain_parent(next[p].manifest_path@))
                    } by {
                    if p < index {
                        assert(next[p] == packages@.subrange(0, index as int)[p]);
                        assert(parents[p] == before_parents[p]);
                    }
                }
                assert(roots@.map_values(|package: PackageRoot| (package.path@, package.edition))
                    =~= member_roots(next, members@, parents)) by {
                    assert(before_roots.map_values(
                        |package: PackageRoot| (package.path@, package.edition),
                    ) == member_roots(packages@.subrange(0, index as int), members@, before_parents));
                }
            }
            index = index + 1;
        }
        assert(packages@.subrange(0, packages@.len() as int) =~= packages@);
        Workspace { root, target_directory, packages: roots, has_binary_targets: binary }
    }

    /// The workspace root.
    pub closed spec fn root_text(&self) -> Seq<char> {
        self.root@
    }

    /// The target directory of the workspace.
    pub closed spec fn target_directory(&self) -> Seq<char> {
        self.target_directory@
    }

    /// The package directories and their editions.
    pub closed spec fn package_roots(&self) -> Seq<(Seq<char>, RustEdition)> {
        self.packages@.map_values(|package: PackageRoot| (package.path@, package.edition))
    }

    /// Whether some member builds a binary.
    pub closed spec fn binary_built(&self) -> bool {
        self.has_binary_targets
    }

    /// The workspace root.
    pub fn root(&self) -> (root: &str)
        ensures
            root@ == self.root_text(),
    {
        self.root.as_str()
    }

    /// The target directory of the workspace.
    pub fn target_path(&self) -> (target: &str)
        ensures
            target@ == self.target_directory(),
    {
        self.target_directory.as_str()
    }

    /// The package directories and their editions.
    pub fn packages(&self) -> (packages: &[PackageRoot])
        ensures
            packages@.map_values(|package: PackageRoot| (package.path@, package.edition))
                == self.package_roots(),
    {
        self.packages.as_slice()
    }

    /// The default policy file: `policy.toml` in the workspace root, joined
    /// as `camino` joins paths.
    pub fn policy_path(&self) -> (path: String)
        ensures
            !crate::paths::verbatim(self.root_text()) ==> crate::paths::joined_onto(
                path@,
                self.root_text(),
                "policy.toml"@,
            ),
    {
        proof {
            reveal_strlit("policy.toml");
        }
        join_path(self.root.as_str(), "policy.toml")
    }

    /// Whether some member builds a binary.
    pub fn has_binary_targets(&self) -> (result: bool)
        ensures
            result == self.binary_built(),
    {
        self.has_binary_targets
    }
}

/// A compiled glob pattern of `globset`.
#[verifier::external_type_specification]
#[verifier::external_body]
pub struct ExGlob(Glob);

/// A set of glob patterns of `globset`, matched together.
#[verifier::external_type_specification]
#[verifier::external_body]
pub struct ExGlobSet(GlobSet);

/// A builder of a glob set of `globset`.
#[verifier::external_type_specification]
#[verifier::external_body]
pub struct ExGlobSetBuilder(GlobSetBuilder);

/// The reason `globset` rejects a glob pattern, or `None` when it accepts
/// it.
pub uninterp spec fn glob_parse_error(pattern: Seq<char>) -> Option<Seq<char>>;

/// Whether `pattern` holds no backslash, the one character whose meaning in
/// a glob depends on the platform (an escape on Unix, a separator on
/// Windows).
pub open spec fn no_backslash(pattern: Seq<char>) -> bool {
    forall|i: int| 0 <= i < pattern.len() ==> pattern[i] != '\\'
}

/// Compiles a glob pattern, or gives the reason it is invalid.
///
/// Calls `globset::Glob::new` and renders its error with `Display`; the
/// glob it gives keeps the pattern it was made from. Which
/// patterns are valid is `globset`'s syntax; it is named `glob_parse_error`
/// for patterns without a backslash, which parse alike on every platform.
/// Of a pattern with a backslash nothing is stated.
#[verifier::external_body]
fn compile_glob(pattern: &str) -> (glob: Result<Glob, String>)
    ensures
        no_backslash(pattern@) ==> match glob {
            Ok(_) => glob_parse_error(pattern@) is None,
            Err(reason) => glob_parse_error(pattern@) == Some(reason@),
        },
        glob matches Ok(compiled) ==> glob_pattern(compiled) == pattern@,
{
    Glob::new(pattern).map_err(|error| error.to_string())
}

/// The pattern that a compiled glob was made from.
pub uninterp spec fn glob_pattern(glob: Glob) -> Seq<char>;

/// The patterns of the globs a builder holds, in the order they were added.
pub uninterp spec fn builder_patterns(builder: GlobSetBuilder) -> Seq<Seq<char>>;

/// The patterns of the globs a glob set holds, in the order they were added.
pub uninterp spec fn set_patterns(set: GlobSet) -> Seq<Seq<char>>;

/// Whether some glob among `patterns` matches `path`, as `globset` matches.
pub uninterp spec fn glob_set_matches(patterns: Seq<Seq<char>>, path: Seq<char>) -> bool;

/// Whether none of the patterns holds a backslash.
pub open spec fn patterns_without_backslash(patterns: Seq<Seq<char>>) -> bool {
    forall|k: int| 0 <= k < patterns.len() ==> no_backslash(#[trigger] patterns[k])
}

/// An empty glob set builder.
///
/// Calls `globset::GlobSetBuilder::new`, which holds no glob.
#[verifier::external_body]
fn glob_builder() -> (builder: GlobSetBuilder)
    ensures
        builder_patterns(builder) == Seq::<Seq<char>>::empty(),
{
    GlobSetBuilder::new()
}

/// Adds a glob to a builder.
///
/// Calls `globset::GlobSetBuilder::add`, which pushes the glob after those
/// the builder holds.
#[verifier::external_body]
fn add_glob(builder: &mut GlobSetBuilder, glob: Glob)
    ensures
        builder_patterns(*final(builder)) == builder_patterns(*old(builder)).push(
            glob_pattern(glob),
        ),
{
    builder.add(glob);
}

/// Builds the glob set of a builder, or gives the reason it could not.
///
/// Calls `globset::GlobSetBuilder::build`, which compiles the builder's
/// globs, in order, into one set. When it fails is not stated: the regular
/// expressions it compiles have a size limit counted in bytes of memory,
/// which differs between machines.
#[verifier::external_body]
fn build_glob_set(builder: &GlobSetBuilder) -> (set: Result<GlobSet, String>)
    ensures
        set matches Ok(built) ==> set_patterns(built) == builder_patterns(*builder),
{
    builder.build().map_err(|error| error.to_string())
}

/// Whether some glob of the set matches `path`.
///
/// Calls `globset::GlobSet::is_match`. Matching follows `globset`'s glob
/// syntax, named `glob_set_matches` of the set's patterns; it is stated
/// for a path and patterns without a backslash, which `globset` treats as
/// a separator on Windows only.
#[verifier::external_body]
fn glob_matches(set: &GlobSet, path: &str) -> (matched: bool)
    ensures
        no_backslash(path@) && patterns_without_backslash(set_patterns(*set)) ==> matched
            == glob_set_matches(set_patterns(*set), path@),
{
    set.is_match(path)
}

/// The message of an invalid source glob.
pub open spec fn invalid_glob_text(pattern: Seq<char>, reason: Seq<char>) -> Seq<char> {
    "invalid source glob `"@ + pattern + "`: "@ + reason
}

/// The message of source globs that could not be built together.
pub open spec fn glob_set_error_text(reason: Seq<char>) -> Seq<char> {
    "could not build source globs: "@ + reason
}

/// Whether pattern `k` is the first that `globset` rejects.
pub open spec fn first_rejected(patterns: Seq<String>, k: int) -> bool {
    &&& 0 <= k < patterns.len()
    &&& glob_parse_error(patterns[k]@) is Some
    &&& forall|j: int| 0 <= j < k ==> glob_parse_error(#[trigger] patterns[j]@) is None
}

/// Whether none of the patterns holds a backslash.
pub open spec fn plain_patterns(patterns: Seq<String>) -> bool {
    forall|k: int| 0 <= k < patterns.len() ==> no_backslash(#[trigger] patterns[k]@)
}

/// Compiles the source globs of the configuration into one set. The first
/// invalid pattern is an error that names it and `globset`'s reason; when
/// every pattern is valid, the set is built, or `globset`'s reason why it
/// could not be is the error.
pub fn build_globs(patterns: &[String]) -> (set: Result<GlobSet, AnalysisError>)
    ensures
        set matches Err(error) ==> {
            ||| exists|k: int, reason: Seq<char>|
                0 <= k < patterns@.len() && error.message@ == #[trigger] invalid_glob_text(
                    patterns@[k]@,
                    reason,
                )
            ||| exists|reason: Seq<char>| error.message@ == glob_set_error_text(reason)
        },
        forall|k: int|
            plain_patterns(patterns@) && #[trigger] first_rejected(patterns@, k) ==> (set matches Err(
                error,
            ) && error.message@ == invalid_glob_text(
                patterns@[k]@,
                glob_parse_error(patterns@[k]@)->Some_0,
            )),
        plain_patterns(patterns@) && (forall|k: int|
            0 <= k < patterns@.len() ==> glob_parse_error(#[trigger] patterns@[k]@) is None) ==> (
        set is Ok || (set matches Err(error) && exists|reason: Seq<char>|
            error.message@ == glob_set_error_text(reason))),
        set matches Ok(built) ==> set_patterns(built) == patterns@.map_values(|pattern: String| pattern@),
{
    let mut builder = glob_builder();
    let mut index: usize = 0;
    while index < patterns.len()
        invariant
            index <= patterns@.len(),
            plain_patterns(patterns@) ==> forall|j: int|
                0 <= j < index ==> glob_parse_error(#[trigger] patterns@[j]@) is None,
            builder_patterns(builder) == patterns@.subrange(0, index as int).map_values(
                |pattern: String| pattern@,
            ),
        decreases patterns@.len() - index,
    {
        proof {
            if plain_patterns(patterns@) {
                assert(no_backslash(patterns@[index as int]@));
            }
        }
        match compile_glob(patterns[index].as_str()) {
            Ok(glob) => {
                add_glob(&mut builder, glob);
                assert(patterns@.subrange(0, index + 1).map_values(|pattern: String| pattern@)
                    =~= patterns@.subrange(0, index as int).map_values(|pattern: String| pattern@).push(
                    patterns@[index as int]@,
                ));
            },
            Err(reason) => {
                let mut message = concat("invalid source glob `", patterns[index].as_str());
                message.append("`: ");
                message.append(reason.as_str());
                assert(message@ == invalid_glob_text(patterns@[index as int]@, reason@));
                return Err(AnalysisError::new(message));
            },
        }
        index = index + 1;
    }
    assert(patterns@.subrange(0, patterns@.len() as int) =~= patterns@);
    match build_glob_set(&builder) {
        Ok(set) => Ok(set),
        Err(reason) => {
            let message = concat("could not build source globs: ", reason.as_str());
            assert(message@ == glob_set_error_text(reason@));
            Err(AnalysisError::new(message))
        },
    }
}

/// The workspace-relative path of a file that the configuration selects,
/// as `camino` strips the root, or `None` when the file lies outside the
/// workspace or the globs leave it out: with forward slashes, it has to
/// match an included glob and no excluded one. Which paths lie inside the root, and which globs match,
/// follow `camino` and `globset`; for plain paths from the root (see
/// `rooted_plain`) and globs without a backslash the selection is stated
/// exactly.
pub fn selected_source(
    absolute: &str,
    root: &str,
    included: &GlobSet,
    exclude: &GlobSet,
) -> (relative: Option<String>)
    ensures
        relative matches Some(found) ==> crate::text::piece_of(found@, absolute@),
        rooted_plain(absolute@) && rooted_plain(root@) && patterns_without_backslash(
            set_patterns(*included),
        ) && patterns_without_backslash(set_patterns(*exclude)) ==> {
            let inside = path_names(root@).is_prefix_of(path_names(absolute@));
            let rest = path_remainder(absolute@, root@);
            &&& relative is Some <==> inside && glob_set_matches(set_patterns(*included), rest)
                && !glob_set_matches(set_patterns(*exclude), rest)
            &&& relative matches Some(found) ==> found@ == rest
        },
{
    let relative = match crate::paths::strip_path_prefix(absolute, root) {
        Some(relative) => relative,
        None => {
            return None;
        },
    };
    let normalized = with_forward_slashes(relative.as_str());
    proof {
        if rooted_plain(absolute@) && rooted_plain(root@) {
            let rest = path_remainder(absolute@, root@);
            assert(relative@ == rest);
            assert forall|i: int| 0 <= i < rest.len() implies rest[i] != '\\' by {
                assert(rest[i] == absolute@.drop_first()[root@.len() + i]);
            }
            assert(normalized@ =~= rest);
        }
    }
    if !glob_matches(included, normalized.as_str()) || glob_matches(exclude, normalized.as_str()) {
        return None;
    }
    Some(relative)
}

/// Whether source `a` orders before source `b` by the components of their
/// relative paths.
pub open spec fn source_less(a: SourceUnit, b: SourceUnit) -> bool {
    components_less(path_components(a.relative_path@), path_components(b.relative_path@))
}

/// Whether every source's relative path is a plain relative path.
pub open spec fn plain_sources(sources: Seq<SourceUnit>) -> bool {
    forall|k: int| 0 <= k < sources.len() ==> plain_path(#[trigger] sources[k].relative_path@)
}

/// Whether no source orders before one that comes earlier.
pub open spec fn in_path_order(sources: Seq<SourceUnit>) -> bool {
    forall|i: int, j: int|
        0 <= i < j < sources.len() ==> !source_less(#[trigger] sources[j], #[trigger] sources[i])
}

/// The sources in the order of their relative paths, as `camino` orders
/// paths. The same sources come out, each as often as it went in, and when
/// every relative path is a plain relative path (whose components are the
/// same on every platform) they come out in `source_less` order.
pub fn sort_sources(sources: Vec<SourceUnit>) -> (sorted: Vec<SourceUnit>)
    ensures
        sorted@.to_multiset() == sources@.to_multiset(),
        sorted@.len() == sources@.len(),
        plain_sources(sources@) ==> in_path_order(sorted@),
{
    broadcast use {
        vstd::multiset::group_multiset_axioms,
        vstd::multiset::group_multiset_properties,
        vstd::seq_lib::group_to_multiset_ensures,
    };

    let ghost all = sources@;
    let ghost plain = plain_sources(sources@);
    let mut remaining = sources;
    let mut sorted: Vec<SourceUnit> = Vec::new();
    assert(sorted@.to_multiset() =~= vstd::multiset::Multiset::empty());
    assert(sorted@.to_multiset().add(remaining@.to_multiset()) =~= all.to_multiset());
    while remaining.len() > 0
        invariant
            sorted@.to_multiset().add(remaining@.to_multiset()) == all.to_multiset(),
            sorted@.len() + remaining@.len() == all.len(),
            plain == plain_sources(all),
            plain ==> plain_sources(remaining@),
            plain ==> plain_sources(sorted@),
            plain ==> in_path_order(sorted@),
        decreases remaining@.len(),
    {
        let ghost before = remaining@;
        let item = remaining.remove(0);
        proof {
            before.to_multiset_ensures();
            assert(before.contains(item)) by {
                assert(before[0] == item);
            }
            assert(before.remove(0).to_multiset() =~= before.to_multiset().remove(item));
            assert(before.to_multiset() =~= remaining@.to_multiset().insert(item));
            if plain {
                assert(plain_path(before[0].relative_path@));
                assert forall|k: int| 0 <= k < remaining@.len() implies plain_path(
                    #[trigger] remaining@[k].relative_path@,
                ) by {
                    assert(remaining@[k] == before[k + 1]);
                }
            }
        }
        let mut position: usize = 0;
        while position < sorted.len()
            invariant
                position <= sorted@.len(),
                plain ==> plain_path(item.relative_path@),
                plain ==> plain_sources(sorted@),
                plain ==> forall|q: int| 0 <= q < position ==> !source_less(
                    item,
                    #[trigger] sorted@[q],
                ),
            ensures
                position <= sorted@.len(),
                plain ==> forall|q: int| 0 <= q < position ==> !source_less(
                    item,
                    #[trigger] sorted@[q],
                ),
                plain && position < sorted@.len() ==> source_less(item, sorted@[position as int]),
            decreases sorted@.len() - position,
        {
            let before_here = path_before(
                item.relative_path.as_str(),
                sorted[position].relative_path.as_str(),
            );
            proof {
                if plain {
                    assert(plain_path(sorted@[position as int].relative_path@));
                }
            }
            if before_here {
                break;
            }
            position = position + 1;
        }
        let ghost earlier = sorted@;
        sorted.insert(position, item);
        proof {
            vstd::seq_lib::to_multiset_insert(earlier, position as int, item);
            assert(sorted@.to_multiset().add(remaining@.to_multiset()) =~= all.to_multiset());
            if plain {
                let p = position as int;
                assert(sorted@ == earlier.insert(p, item));
                assert forall|k: int| 0 <= k < sorted@.len() implies plain_path(
                    #[trigger] sorted@[k].relative_path@,
                ) by {
                    if k < p {
                        assert(sorted@[k] == earlier[k]);
                    } else if k > p {
                        assert(sorted@[k] == earlier[k - 1]);
                    }
                }
                assert forall|i: int, j: int| 0 <= i < j < sorted@.len() implies !source_less(
                    #[trigger] sorted@[j],
                    #[trigger] sorted@[i],
                ) by {
                    if j < p {
                        assert(sorted@[i] == earlier[i]);
                        assert(sorted@[j] == earlier[j]);
                    } else if j == p {
                        assert(sorted@[i] == earlier[i]);
                        assert(sorted@[j] == item);
                    } else if i > p {
                        assert(sorted@[i] == earlier[i - 1]);
                        assert(sorted@[j] == earlier[j - 1]);
                    } else if i < p {
                        assert(sorted@[i] == earlier[i]);
                        assert(sorted@[j] == earlier[j - 1]);
                    } else {
                        let first = path_components(item.relative_path@);
                        let pivot = path_components(earlier[p].relative_path@);
                        let later = path_components(earlier[j - 1].relative_path@);
                        assert(sorted@[i] == item);
                        assert(sorted@[j] == earlier[j - 1]);
                        assert(source_less(item, earlier[p]));
                        if source_less(earlier[j - 1], item) {
                            lemma_components_less_transitive(later, first, pivot);
                            if j - 1 == p {
                                lemma_components_less_irreflexive(pivot);
                            } else {
                                assert(!source_less(earlier[j - 1], earlier[p]));
                            }
                        }
                    }
                }
            }
        }
    }
    proof {
        assert(remaining@ =~= Seq::<SourceUnit>::empty());
        assert(remaining@.to_multiset() =~= vstd::multiset::Multiset::empty());
        assert(sorted@.to_multiset().add(vstd::multiset::Multiset::empty()) =~= sorted@.to_multiset());
    }
    sorted
}

} // verus!
