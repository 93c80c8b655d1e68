use provision::context::Context;

fn ctx() -> Context {
    Context { user_name: String::from("alice"), home_dir: String::from("/home/alice") }
}

#[test]
fn substitutes_user_and_home() {
    let c = ctx();
    assert_eq!(c.apply("$HOME/$USER/.config"), "/home/alice/alice/.config");
}

#[test]
fn expands_leading_tilde() {
    let c = ctx();
    assert_eq!(c.apply_path("~/bin"), "/home/alice/bin");
}

#[test]
fn tilde_only_counts_at_the_front() {
    let c = ctx();
    assert_eq!(c.apply_path("a/~/b"), "a/~/b");
    assert_eq!(c.apply_path("~"), "/home/alice");
}

#[test]
fn substitution_is_single_pass_user_first() {
    // $USER is replaced before $HOME, so a user name that contains
    // the home token is expanded by the second pass, and a home
    // directory that contains the user token is not re-expanded.
    let c = Context { user_name: String::from("a$HOMEb"), home_dir: String::from("/h") };
    assert_eq!(c.apply("$USER"), "a/hb");
    let c2 = Context { user_name: String::from("u"), home_dir: String::from("/x$USERy") };
    assert_eq!(c2.apply("$HOME"), "/x$USERy");
}

#[test]
fn plain_text_passes_through() {
    let c = ctx();
    assert_eq!(c.apply("nothing to see"), "nothing to see");
    assert_eq!(c.apply_path("etc/conf"), "etc/conf");
    assert_eq!(c.apply_path("/abs/path"), "/abs/path");
}

#[test]
fn components_are_substituted_individually() {
    let c = ctx();
    assert_eq!(c.apply_path("~/$USER/x"), "/home/alice/alice/x");
}
