use cargo_policy::args::{color_enabled, normalized_args, ColorChoice};

#[test]
fn strips_cargo_subcommand_argument() {
    let args = ["cargo-policy", "policy", "check"].map(String::from).to_vec();
    assert_eq!(normalized_args(args), ["cargo-policy", "check"]);
}

#[test]
fn preserves_direct_arguments() {
    let args = ["axiom", "check"].map(String::from).to_vec();
    assert_eq!(normalized_args(args.clone()), args);
}

#[test]
fn color_follows_the_choice_or_the_terminal() {
    assert!(color_enabled(ColorChoice::Always, false));
    assert!(!color_enabled(ColorChoice::Never, true));
    assert!(color_enabled(ColorChoice::Auto, true));
    assert!(!color_enabled(ColorChoice::Auto, false));
}
