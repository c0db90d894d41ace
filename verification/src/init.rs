use vstd::prelude::*;
use vstd::string::*;

verus! {

/// The start of the default policy: the schema version, the sources, and
/// the Clippy settings.
pub const BASE_CONFIG: &'static str = r#"version = 1

[sources]
include = ["**/*.rs"]
exclude = []
test = ["**/tests.rs", "**/*_test.rs", "**/*_tests.rs", "**/tests/**/*.rs"]

[tools.clippy]
enabled = true
profile = "axiom"
check-docs = true
targets = "all"
features = "default"
warnings = "deny"
"#;

/// The size and testing rules of the default policy.
pub const BASE_RULES: &'static str = r#"

[rules."size/function-max-lines"]
level = "deny"
limit = 50
scope = "production"

[rules."size/file-max-lines"]
level = "deny"
limit = 200
scope = "production"

[rules."size/directory-max-files"]
level = "deny"
limit = 5
scope = "production"

[rules."size/directory-max-lines"]
level = "deny"
limit = 1000
scope = "production"

[rules."testing/separate-test-files"]
level = "deny"
"#;

/// The semantic rules of the default policy of a workspace that builds a
/// binary.
pub const ACTIVE_SEMANTIC_RULES: &'static str = r#"
[rules."dead-code/private"]
level = "warn"

[rules."dead-code/public"]
level = "warn"

[rules."dead-code/test-only"]
level = "warn"

[rules."visibility/unnecessary-public"]
level = "deny"

[rules."visibility/unnecessary-restricted"]
level = "warn"

[rules."visibility/unnecessary-crate"]
level = "warn"
"#;

/// The commented-out semantic rules of the default policy of a library-only
/// workspace, which has to declare its product boundary first.
pub const LIBRARY_SEMANTIC_EXAMPLE: &'static str = r#"
# Semantic analysis needs an explicit product boundary in a library-only workspace.
# Uncomment and update this declaration and the semantic rules below.
#
# [[semantic.production]]
# package = "my-package"
# lib = "my_library"
# reason = "internal library audited as a closed-world product"
#
# [rules."dead-code/private"]
# level = "warn"
# [rules."dead-code/public"]
# level = "warn"
# [rules."dead-code/test-only"]
# level = "warn"
# [rules."visibility/unnecessary-public"]
# level = "deny"
# [rules."visibility/unnecessary-restricted"]
# level = "warn"
# [rules."visibility/unnecessary-crate"]
# level = "warn"
"#;

/// The default policy of a workspace: the base settings and rules, then
/// active semantic rules when it builds a binary, or else an example.
pub open spec fn spec_default_policy(binary: bool) -> Seq<char> {
    BASE_CONFIG@ + BASE_RULES@ + if binary {
        ACTIVE_SEMANTIC_RULES@
    } else {
        LIBRARY_SEMANTIC_EXAMPLE@
    }
}

/// The default policy of a workspace.
pub fn default_policy(binary: bool) -> (text: String)
    ensures
        text@ == spec_default_policy(binary),
{
    let mut text = String::from_str(BASE_CONFIG);
    text.append(BASE_RULES);
    if binary {
        text.append(ACTIVE_SEMANTIC_RULES);
    } else {
        text.append(LIBRARY_SEMANTIC_EXAMPLE);
    }
    text
}

} // verus!
