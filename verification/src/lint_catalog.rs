use vstd::prelude::*;
use vstd::string::*;

verus! {

/// Rust lint groups the built-in profile warns about.
pub const RUST_WARN: [&'static str; 6] = [
    "future-incompatible",
    "nonstandard-style",
    "rust-2018-idioms",
    "trivial-numeric-casts",
    "unused-import-braces",
    "unused-lifetimes",
];

/// Rust lints the built-in profile allows.
pub const RUST_ALLOW: [&'static str; 2] = [
    "trivial-casts",
    "unused-qualifications",
];

/// Clippy groups the built-in profile warns about.
pub const CLIPPY_GROUPS: [&'static str; 3] = [
    "all",
    "cargo",
    "pedantic",
];

/// Individual Clippy lints the built-in profile warns about.
pub const CLIPPY_WARN: [&'static str; 76] = [
    "allow-attributes",
    "as-ptr-cast-mut",
    "branches-sharing-code",
    "clear-with-drain",
    "clone-on-ref-ptr",
    "coerce-container-to-any",
    "cognitive-complexity",
    "dbg-macro",
    "debug-assert-with-mut-call",
    "default-union-representation",
    "derive-partial-eq-without-eq",
    "disallowed-script-idents",
    "doc-include-without-cfg",
    "empty-enum-variants-with-brackets",
    "equatable-if-let",
    "exit",
    "fallible-impl-from",
    "float-cmp-const",
    "fn-to-numeric-cast-any",
    "get-unwrap",
    "imprecise-flops",
    "infinite-loop",
    "iter-on-empty-collections",
    "iter-on-single-items",
    "iter-over-hash-type",
    "large-include-file",
    "large-stack-frames",
    "literal-string-with-formatting-args",
    "lossy-float-literal",
    "map-err-ignore",
    "mem-forget",
    "missing-assert-message",
    "mutex-integer",
    "needless-pass-by-ref-mut",
    "needless-type-cast",
    "non-zero-suggestions",
    "nonstandard-macro-braces",
    "or-fun-call",
    "path-buf-push-overwrite",
    "pathbuf-init-then-push",
    "precedence-bits",
    "print-stderr",
    "print-stdout",
    "pub-without-shorthand",
    "rc-mutex",
    "redundant-type-annotations",
    "ref-patterns",
    "rest-pat-in-fully-bound-structs",
    "return-and-then",
    "set-contains-or-insert",
    "single-option-map",
    "std-instead-of-core",
    "str-to-string",
    "string-add",
    "string-lit-as-bytes",
    "string-lit-chars-any",
    "suspicious-xor-used-as-pow",
    "todo",
    "too-long-first-doc-paragraph",
    "trailing-empty-array",
    "trait-duplication-in-bounds",
    "tuple-array-conversions",
    "undocumented-unsafe-blocks",
    "unimplemented",
    "uninhabited-references",
    "unnecessary-safety-comment",
    "unnecessary-safety-doc",
    "unnecessary-self-imports",
    "unnecessary-struct-initialization",
    "unused-peekable",
    "unused-rounding",
    "unused-trait-names",
    "unwrap-used",
    "use-self",
    "useless-let-if-seq",
    "verbose-file-reads",
];

/// Clippy lints the built-in profile allows as low-signal.
pub const CLIPPY_ALLOW: [&'static str; 32] = [
    "assigning-clones",
    "cast-lossless",
    "cast-possible-truncation",
    "cast-possible-wrap",
    "cast-precision-loss",
    "cast-sign-loss",
    "comparison-chain",
    "default-trait-access",
    "float-cmp",
    "inline-always",
    "items-after-statements",
    "let-underscore-must-use",
    "let-underscore-untyped",
    "manual-range-contains",
    "many-single-char-names",
    "map-unwrap-or",
    "missing-panics-doc",
    "multiple-crate-versions",
    "must-use-candidate",
    "redundant-closure-for-method-calls",
    "return-self-not-must-use",
    "self-named-module-files",
    "should-panic-without-expect",
    "significant-drop-tightening",
    "similar-names",
    "struct-excessive-bools",
    "struct-field-names",
    "too-many-lines",
    "trivially-copy-pass-by-ref",
    "unreadable-literal",
    "used-underscore-binding",
    "wildcard-imports",
];

} // verus!
