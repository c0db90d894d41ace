use vstd::prelude::*;
use vstd::string::*;

use crate::config::{ClippyConfig, ClippyLintProfile, ClippyWarningPolicy};
use crate::diagnostic::Level;
use crate::lint_catalog::{CLIPPY_ALLOW, CLIPPY_GROUPS, CLIPPY_WARN, RUST_ALLOW, RUST_WARN};
use crate::text::starts_with;

verus! {

/// The texts of a list of lint names.
pub open spec fn views(lints: Seq<&str>) -> Seq<Seq<char>> {
    lints.map_values(|lint: &str| lint@)
}

/// `lint` inside `namespace`, if it has one.
pub open spec fn qualified(namespace: Option<Seq<char>>, lint: Seq<char>) -> Seq<char> {
    match namespace {
        None => lint,
        Some(prefix) => prefix + "::"@ + lint,
    }
}

/// `flag` followed by the lint, for every lint in order.
pub open spec fn flag_pairs(flag: Seq<char>, namespace: Option<Seq<char>>, lints: Seq<Seq<char>>) -> Seq<
    Seq<char>,
>
    decreases lints.len(),
{
    if lints.len() == 0 {
        seq![]
    } else {
        flag_pairs(flag, namespace, lints.drop_last()) + seq![flag, qualified(namespace, lints.last())]
    }
}

/// The compiler flag that sets a lint to `level`.
pub open spec fn level_flag_text(level: Level) -> Seq<char> {
    match level {
        Level::Allow => "-A"@,
        Level::Warn => "--force-warn"@,
        Level::Deny => "-D"@,
    }
}

/// Whether `text` begins with `prefix`.
pub open spec fn has_prefix(text: Seq<char>, prefix: Seq<char>) -> bool {
    prefix.len() <= text.len() && text.subrange(0, prefix.len() as int) == prefix
}

/// The flags of the per-lint levels in name order, leaving out the lints of
/// the other backend.
pub open spec fn override_pairs(entries: Seq<(Seq<char>, Level)>, other_backend: Seq<char>) -> Seq<
    Seq<char>,
>
    decreases entries.len(),
{
    if entries.len() == 0 {
        seq![]
    } else {
        let rest = override_pairs(entries.drop_last(), other_backend);
        let lint = entries.last().0;
        if has_prefix(lint, other_backend) {
            rest
        } else {
            rest + seq![level_flag_text(entries.last().1), lint]
        }
    }
}

/// The compiler arguments of the built-in profile and the warning policy,
/// which come before the per-lint levels.
pub open spec fn compiler_profile_arguments(config: &ClippyConfig) -> Seq<Seq<char>> {
    let builtin = config.profile == ClippyLintProfile::Axiom;
    (if builtin {
        flag_pairs("-W"@, None, views(RUST_WARN@)) + flag_pairs(
            "-W"@,
            Some("clippy"@),
            views(CLIPPY_GROUPS@),
        ) + flag_pairs("-W"@, Some("clippy"@), views(CLIPPY_WARN@))
    } else {
        seq![]
    }) + (if config.warnings == ClippyWarningPolicy::Deny {
        seq!["-D"@, "warnings"@]
    } else {
        seq![]
    }) + (if builtin {
        seq!["-D"@, "unsafe-code"@] + flag_pairs("-A"@, None, views(RUST_ALLOW@)) + flag_pairs(
            "-A"@,
            Some("clippy"@),
            views(CLIPPY_ALLOW@),
        )
    } else {
        seq![]
    })
}

/// The compiler arguments of the built-in profile, the warning policy, and
/// the per-lint levels, which come last.
pub open spec fn spec_compiler_arguments(config: &ClippyConfig) -> Seq<Seq<char>> {
    compiler_profile_arguments(config) + override_pairs(config.lints@, "rustdoc::"@)
}

/// The rustdoc arguments of the built-in profile and the warning policy,
/// which come before the per-lint levels.
pub open spec fn rustdoc_profile_arguments(config: &ClippyConfig) -> Seq<Seq<char>> {
    (if config.profile == ClippyLintProfile::Axiom {
        seq!["-W"@, "rustdoc::all"@]
    } else {
        seq![]
    }) + (if config.warnings == ClippyWarningPolicy::Deny {
        seq!["-D"@, "warnings"@]
    } else {
        seq![]
    })
}

/// The rustdoc arguments of the built-in profile, the warning policy, and
/// the per-lint levels, which come last.
pub open spec fn spec_rustdoc_arguments(config: &ClippyConfig) -> Seq<Seq<char>> {
    rustdoc_profile_arguments(config) + override_pairs(config.lints@, "clippy::"@)
}

/// A per-lint level reaches rustdoc unless its lint is Clippy's, and the
/// compiler unless its lint is rustdoc's: with one override, each argument
/// list ends with its level flag and lint exactly then, and is otherwise
/// what it would be without the override, which does not end with the lint.
pub proof fn lemma_override_backends(config: &ClippyConfig, lint: Seq<char>, level: Level)
    requires
        config.lints@ == seq![(lint, level)],
    ensures
        spec_rustdoc_arguments(config) == rustdoc_profile_arguments(config) + if has_prefix(
            lint,
            "clippy::"@,
        ) {
            Seq::<Seq<char>>::empty()
        } else {
            seq![level_flag_text(level), lint]
        },
        spec_compiler_arguments(config) == compiler_profile_arguments(config) + if has_prefix(
            lint,
            "rustdoc::"@,
        ) {
            Seq::<Seq<char>>::empty()
        } else {
            seq![level_flag_text(level), lint]
        },
        has_prefix(lint, "clippy::"@) ==> !(spec_rustdoc_arguments(config).len() > 0
            && spec_rustdoc_arguments(config).last() == lint),
        has_prefix(lint, "rustdoc::"@) ==> !(spec_compiler_arguments(config).len() > 0
            && spec_compiler_arguments(config).last() == lint),
{
    reveal_strlit("clippy::");
    reveal_strlit("rustdoc::");
    reveal_strlit("clippy");
    reveal_strlit("rustdoc::all");
    reveal_strlit("warnings");
    let entries = config.lints@;
    assert(entries.drop_last() =~= Seq::<(Seq<char>, Level)>::empty());
    assert(entries.last() == (lint, level));
    assert(override_pairs(entries.drop_last(), "clippy::"@) =~= Seq::<Seq<char>>::empty());
    assert(override_pairs(entries.drop_last(), "rustdoc::"@) =~= Seq::<Seq<char>>::empty());
    assert(seq![level_flag_text(level), lint] =~= Seq::<Seq<char>>::empty() + seq![
        level_flag_text(level),
        lint,
    ]);
    if has_prefix(lint, "clippy::"@) {
        assert(lint.subrange(0, 8)[0] == "clippy::"@[0]);
        assert(lint[0] == 'c');
        let args = rustdoc_profile_arguments(config);
        assert(spec_rustdoc_arguments(config) =~= args);
        if args.len() > 0 {
            assert(args.last() == "rustdoc::all"@ || args.last() == "warnings"@);
            assert("rustdoc::all"@[0] == 'r');
            assert("warnings"@[0] == 'w');
        }
    }
    if has_prefix(lint, "rustdoc::"@) {
        assert(lint.subrange(0, 9)[0] == "rustdoc::"@[0]);
        assert(lint[0] == 'r');
        let args = compiler_profile_arguments(config);
        assert(spec_compiler_arguments(config) =~= args);
        if config.profile == ClippyLintProfile::Axiom {
            let allowed = views(CLIPPY_ALLOW@);
            assert(allowed.len() == 32);
            let tail = flag_pairs("-A"@, Some("clippy"@), allowed);
            assert(tail.last() == qualified(Some("clippy"@), allowed.last()));
            assert(qualified(Some("clippy"@), allowed.last())[0] == 'c');
            assert(args.last() == tail.last());
        } else if config.warnings == ClippyWarningPolicy::Deny {
            assert(args.last() == "warnings"@);
            assert("warnings"@[0] == 'w');
        }
    }
}

/// The compiler flag that sets a lint to `level`.
pub fn level_flag(level: Level) -> (flag: &'static str)
    ensures
        flag@ == level_flag_text(level),
{
    match level {
        Level::Allow => "-A",
        Level::Warn => "--force-warn",
        Level::Deny => "-D",
    }
}

/// Appends `level` and `lint`.
pub fn push(arguments: &mut Vec<String>, level: &str, lint: &str)
    ensures
        final(arguments).deep_view() == old(arguments).deep_view() + seq![level@, lint@],
{
    arguments.push(String::from_str(level));
    arguments.push(String::from_str(lint));
    assert(arguments.deep_view() =~= old(arguments).deep_view() + seq![level@, lint@]);
}

/// Appends `level` and each lint, inside `namespace` when one is given.
pub fn extend(arguments: &mut Vec<String>, level: &str, namespace: Option<&str>, lints: &[&str])
    ensures
        final(arguments).deep_view() == old(arguments).deep_view() + flag_pairs(
            level@,
            match namespace {
                None => None,
                Some(prefix) => Some(prefix@),
            },
            views(lints@),
        ),
{
    let ghost space = match namespace {
        None => None,
        Some(prefix) => Some(prefix@),
    };
    let mut index: usize = 0;
    while index < lints.len()
        invariant
            index <= lints@.len(),
            space == match namespace {
                None => None,
                Some(prefix) => Some(prefix@),
            },
            arguments.deep_view() == old(arguments).deep_view() + flag_pairs(
                level@,
                space,
                views(lints@.subrange(0, index as int)),
            ),
        decreases lints@.len() - index,
    {
        let name = match namespace {
            None => String::from_str(lints[index]),
            Some(prefix) => {
                let mut name = String::from_str(prefix);
                name.append("::");
                name.append(lints[index]);
                name
            },
        };
        push(arguments, level, name.as_str());
        proof {
            let before = views(lints@.subrange(0, index as int));
            let after = views(lints@.subrange(0, index + 1));
            assert(after.drop_last() =~= before);
            assert(after.last() == lints@[index as int]@);
            assert(arguments.deep_view() =~= old(arguments).deep_view() + flag_pairs(
                level@,
                space,
                after,
            ));
        }
        index = index + 1;
    }
    assert(lints@.subrange(0, lints@.len() as int) =~= lints@);
}

/// Appends the per-lint levels in name order, except the lints whose name
/// starts with `other_backend`.
fn push_overrides(arguments: &mut Vec<String>, config: &ClippyConfig, other_backend: &str)
    ensures
        final(arguments).deep_view() == old(arguments).deep_view() + override_pairs(
            config.lints@,
            other_backend@,
        ),
{
    let count = config.lints.len();
    let mut index: usize = 0;
    while index < count
        invariant
            index <= count,
            count == config.lints@.len(),
            arguments.deep_view() == old(arguments).deep_view() + override_pairs(
                config.lints@.subrange(0, index as int),
                other_backend@,
            ),
        decreases count - index,
    {
        let (lint, level) = config.lints.entry(index);
        let ghost before = config.lints@.subrange(0, index as int);
        let ghost after = config.lints@.subrange(0, index + 1);
        proof {
            assert(after.drop_last() =~= before);
        }
        if !starts_with(lint, other_backend) {
            push(arguments, level_flag(level), lint);
        }
        proof {
            assert(arguments.deep_view() =~= old(arguments).deep_view() + override_pairs(
                after,
                other_backend@,
            ));
        }
        index = index + 1;
    }
    assert(config.lints@.subrange(0, count as int) =~= config.lints@);
}

/// The lint arguments passed to the compiler under Clippy.
pub fn compiler_arguments(config: &ClippyConfig) -> (arguments: Vec<String>)
    ensures
        arguments.deep_view() == spec_compiler_arguments(config),
{
    let mut arguments: Vec<String> = Vec::new();
    let builtin = config.uses_axiom_profile();
    if builtin {
        extend(&mut arguments, "-W", None, RUST_WARN.as_slice());
        extend(&mut arguments, "-W", Some("clippy"), CLIPPY_GROUPS.as_slice());
        extend(&mut arguments, "-W", Some("clippy"), CLIPPY_WARN.as_slice());
    }
    let ghost first = arguments.deep_view();
    if config.denies_warnings() {
        push(&mut arguments, "-D", "warnings");
    }
    let ghost second = arguments.deep_view();
    if builtin {
        push(&mut arguments, "-D", "unsafe-code");
        extend(&mut arguments, "-A", None, RUST_ALLOW.as_slice());
        extend(&mut arguments, "-A", Some("clippy"), CLIPPY_ALLOW.as_slice());
    }
    let ghost third = arguments.deep_view();
    push_overrides(&mut arguments, config, "rustdoc::");
    assert(arguments.deep_view() =~= spec_compiler_arguments(config));
    arguments
}

/// The lint arguments passed to rustdoc.
pub fn rustdoc_arguments(config: &ClippyConfig) -> (arguments: Vec<String>)
    ensures
        arguments.deep_view() == spec_rustdoc_arguments(config),
{
    let mut arguments: Vec<String> = Vec::new();
    if config.uses_axiom_profile() {
        push(&mut arguments, "-W", "rustdoc::all");
    }
    if config.denies_warnings() {
        push(&mut arguments, "-D", "warnings");
    }
    push_overrides(&mut arguments, config, "clippy::");
    assert(arguments.deep_view() =~= spec_rustdoc_arguments(config));
    arguments
}

} // verus!
