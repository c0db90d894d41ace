use vstd::prelude::*;

use crate::text::same_text;

verus! {

/// The format of a check's report.
#[derive(Debug, Clone, Copy, PartialEq, Eq, Structural)]
pub enum OutputFormat {
    Human,
    Json,
}

/// When the human report is coloured.
#[derive(Debug, Clone, Copy, PartialEq, Eq, Structural)]
pub enum ColorChoice {
    Auto,
    Always,
    Never,
}

/// Whether the human report is coloured: always, never, or, automatically,
/// when the error stream is a terminal.
pub open spec fn spec_color_enabled(choice: ColorChoice, terminal: bool) -> bool {
    match choice {
        ColorChoice::Always => true,
        ColorChoice::Never => false,
        ColorChoice::Auto => terminal,
    }
}

/// Whether the human report is coloured.
pub fn color_enabled(choice: ColorChoice, terminal: bool) -> (enabled: bool)
    ensures
        enabled == spec_color_enabled(choice, terminal),
{
    match choice {
        ColorChoice::Always => true,
        ColorChoice::Never => false,
        ColorChoice::Auto => terminal,
    }
}

/// The command-line arguments without the `policy` that Cargo passes when
/// the tool runs as `cargo policy`.
pub open spec fn spec_normalized_args(arguments: Seq<Seq<char>>) -> Seq<Seq<char>> {
    if arguments.len() > 1 && arguments[1] == "policy"@ {
        arguments.remove(1)
    } else {
        arguments
    }
}

/// The command-line arguments without Cargo's subcommand name.
pub fn normalized_args(arguments: Vec<String>) -> (normalized: Vec<String>)
    ensures
        normalized.deep_view() == spec_normalized_args(arguments.deep_view()),
{
    let mut arguments = arguments;
    if arguments.len() > 1 && same_text(arguments[1].as_str(), "policy") {
        let ghost before = arguments.deep_view();
        arguments.remove(1);
        assert(arguments.deep_view() =~= before.remove(1));
    }
    arguments
}

} // verus!
