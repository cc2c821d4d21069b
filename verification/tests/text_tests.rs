use lumina::paths::{join, name_file, strip_here};
use lumina::text::{
    copy_opt_text, copy_opt_texts, copy_texts, ends_with, matches_at, same_text,
    starts_with, strip_suffix,
};

#[test]
fn strip_suffix_removes_one_trailing_occurrence() {
    assert_eq!(strip_suffix("@/ui/*", "/*"), "@/ui");
    assert_eq!(strip_suffix("@/ui", "/*"), "@/ui");
    assert_eq!(strip_suffix("a/*/*", "/*"), "a/*");
}

#[test]
fn prefix_and_suffix_tests() {
    assert!(starts_with("@/components/ui", "@/components"));
    assert!(!starts_with("@/c", "@/components"));
    assert!(ends_with("src/*", "/*"));
    assert!(!ends_with("*", "/*"));
}

#[test]
fn paths_are_joined_with_one_separator() {
    assert_eq!(join("/root", "src"), "/root/src");
    assert_eq!(join("/root/", "src"), "/root/src");
    assert_eq!(join("", "src"), "src");
    assert_eq!(join("/root", "/abs"), "/abs");
    assert_eq!(join("/root", ""), "/root/");
    assert_eq!(join("rel", "a/b"), "rel/a/b");
    assert_eq!(strip_here("./src"), "src");
    assert_eq!(strip_here("src"), "src");
    assert_eq!(strip_here("././src"), "./src");
    assert_eq!(strip_here("."), ".");
    assert_eq!(strip_here("./"), "");
    assert_eq!(name_file("index", "tsx"), "index.tsx");
    assert_eq!(name_file("", ""), ".");
}

#[test]
fn texts_are_compared_and_copied() {
    assert!(same_text("abc", "abc"));
    assert!(!same_text("abc", "abd"));
    assert!(!same_text("abc", "ab"));
    assert!(same_text("", ""));
    assert!(same_text("héllo", "héllo"));
    assert!(matches_at("héllo", 1, "éll"));
    assert!(!matches_at("héllo", 3, "llo"));
    assert!(matches_at("abc", 3, ""));
    let list = vec!["a".to_string(), "b".to_string()];
    assert_eq!(copy_texts(&list), list);
    assert_eq!(copy_opt_texts(&Some(list.clone())), Some(list.clone()));
    assert_eq!(copy_opt_texts(&None), None);
    assert_eq!(copy_opt_text(&Some("x".to_string())), Some("x".to_string()));
}
