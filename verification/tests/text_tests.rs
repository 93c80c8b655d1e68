use provision::paths::parent_of;
use provision::prompt::{classify_answer, Answer};
use provision::text::{join_with_slash, matches_at, replace_all, split_on_slash, str_eq};

#[test]
fn replaces_every_occurrence() {
    assert_eq!(replace_all("abcabc", "b", "XY"), "aXYcaXYc");
    assert_eq!(replace_all("aaa", "aa", "b"), "ba");
    assert_eq!(replace_all("none here", "zz", "q"), "none here");
    assert_eq!(replace_all("", "x", "y"), "");
}

#[test]
fn matches_at_checks_position() {
    assert!(matches_at("hello", 1, "ell"));
    assert!(!matches_at("hello", 0, "ell"));
    assert!(!matches_at("hello", 4, "os"));
    assert!(matches_at("hello", 5, ""));
}

#[test]
fn string_equality_is_exact() {
    assert!(str_eq("abc", "abc"));
    assert!(!str_eq("abc", "abd"));
    assert!(!str_eq("abc", "ab"));
    assert!(str_eq("", ""));
}

#[test]
fn split_and_join_round_trip() {
    let parts = split_on_slash("a//b/");
    assert_eq!(parts, vec!["a", "", "b", ""]);
    assert_eq!(join_with_slash(&parts), "a//b/");
    assert_eq!(split_on_slash(""), vec![""]);
    assert_eq!(split_on_slash("/x"), vec!["", "x"]);
}

#[test]
fn parents_follow_the_last_separator() {
    assert_eq!(parent_of("a/b"), Some(String::from("a")));
    assert_eq!(parent_of("/a"), Some(String::from("/")));
    assert_eq!(parent_of("a"), Some(String::from("")));
    assert_eq!(parent_of("/"), None);
    assert_eq!(parent_of(""), None);
}

#[test]
fn answers_are_trimmed_and_case_insensitive() {
    assert_eq!(classify_answer("yes"), Answer::Yes);
    assert_eq!(classify_answer(" Y\n"), Answer::Yes);
    assert_eq!(classify_answer("YeS"), Answer::Yes);
    assert_eq!(classify_answer("no"), Answer::No);
    assert_eq!(classify_answer("\tN "), Answer::No);
    assert_eq!(classify_answer("No"), Answer::No);
    assert_eq!(classify_answer("maybe"), Answer::Unrecognized);
    assert_eq!(classify_answer(""), Answer::Unrecognized);
    assert_eq!(classify_answer("y e s"), Answer::Unrecognized);
}
