use lumina::util::get_project_info::{
    aliases_from_tree, get_aliases_paths, is_allowed, trim_suffix, write_paths, AliasMap,
    TsAliasError,
};

fn list(items: &[&str]) -> Vec<String> {
    items.iter().map(|s| s.to_string()).collect()
}

const DECLARATION: &str = r#"{
  // the compiler's options
  "compilerOptions": {
    "strict": true, /* as strict as it gets */
    "paths": {
      "@/ui/*": ["./src/ui/*"],
      "@/components/*": ["./src/components/*", "./vendor/components/*"],
      "@/other/*": ["./src/other/*"],
      "~/*": ["./src/*"]
    }
  }
}"#;

#[test]
fn trim_suffix_drops_one_wildcard() {
    assert_eq!(trim_suffix("@/ui/*"), "@/ui");
    assert_eq!(trim_suffix("@/ui"), "@/ui");
    assert_eq!(trim_suffix("./src/ui/*"), "./src/ui");
    assert_eq!(trim_suffix("/*"), "");
    assert_eq!(trim_suffix("*"), "*");
    assert_eq!(trim_suffix(""), "");
    assert_eq!(trim_suffix("a/*/*"), "a/*");
}

#[test]
fn allowed_prefixes() {
    assert!(is_allowed("@/components"));
    assert!(is_allowed("@/components/ui/*"));
    assert!(is_allowed("@/ui/*"));
    assert!(is_allowed("@/utils/*"));
    assert!(is_allowed("@/hooks"));
    assert!(is_allowed("@/lib/x"));
    assert!(!is_allowed("@/component"));
    assert!(!is_allowed("@/other/*"));
    assert!(!is_allowed("~/*"));
    assert!(!is_allowed(""));
}

#[test]
fn aliases_are_read_past_comments() {
    let table = get_aliases_paths(DECLARATION).unwrap();
    assert_eq!(table.get("@/ui"), Some(&list(&["./src/ui"])));
    assert_eq!(
        table.get("@/components"),
        Some(&list(&["./src/components", "./vendor/components"]))
    );
    assert_eq!(table.get("@/other"), None);
    assert_eq!(table.get("~"), None);
    assert_eq!(table.get("@/ui/*"), None);
}

#[test]
fn declaration_without_paths_declares_nothing() {
    for text in [
        "{}",
        r#"{"compilerOptions": {}}"#,
        r#"{"compilerOptions": null}"#,
        r#"{"compilerOptions": {"paths": null}}"#,
        r#"{"compilerOptions": {"paths": {}}}"#,
    ] {
        let table = get_aliases_paths(text).unwrap();
        assert_eq!(table.get("@/ui"), None, "{}", text);
        assert_eq!(table.get("@/components"), None, "{}", text);
    }
}

#[test]
fn later_declaration_replaces_earlier() {
    let mut table = AliasMap::new();
    table.insert("@/ui".to_string(), list(&["a"]));
    table.insert("@/lib".to_string(), list(&["b"]));
    table.insert("@/ui".to_string(), list(&["c", "d"]));
    assert_eq!(table.get("@/ui"), Some(&list(&["c", "d"])));
    assert_eq!(table.get("@/lib"), Some(&list(&["b"])));
    assert_eq!(table.get("@/hooks"), None);
}

#[test]
fn broken_comment_is_a_strip_error() {
    let r = get_aliases_paths("{ \"compilerOptions\": {} } /x");
    assert!(matches!(r, Err(TsAliasError::StripComments(_))), "{:?}", r);
}

#[test]
fn broken_json_is_a_json_error() {
    let r = get_aliases_paths("{ \"compilerOptions\": ");
    assert!(matches!(r, Err(TsAliasError::Json(_))), "{:?}", r);
    let r = get_aliases_paths("");
    assert!(matches!(r, Err(TsAliasError::Json(_))), "{:?}", r);
}

#[test]
fn wrong_shape_is_a_shape_error() {
    for text in [
        "[]",
        "3",
        r#"{"compilerOptions": 1}"#,
        r#"{"compilerOptions": {"paths": []}}"#,
        r#"{"compilerOptions": {"paths": {"@/ui/*": "./src/ui/*"}}}"#,
        r#"{"compilerOptions": {"paths": {"@/ui/*": ["./src/ui/*", 1]}}}"#,
        r#"{"compilerOptions": {"paths": {"~/*": [null]}}}"#,
    ] {
        let r = get_aliases_paths(text);
        assert!(matches!(r, Err(TsAliasError::Shape)), "{}: {:?}", text, r);
    }
}

#[test]
fn written_aliases_read_back() {
    let text = r#"{
  // keep me out
  "compilerOptions": { "strict": true, "paths": { "@/ui/*": ["./elsewhere/*"], "~/*": ["./src/*"] } },
  "include": ["src"]
}"#;
    let written = write_paths(text).unwrap();
    let table = get_aliases_paths(&written).unwrap();
    assert_eq!(table.get("@/ui"), Some(&list(&["src/shared/components/ui"])));
    assert_eq!(table.get("@/components"), Some(&list(&["src/shared/components"])));
    assert_eq!(table.get("~"), None);
    let again = write_paths(&written).unwrap();
    assert_eq!(again, written);
}

#[test]
fn write_paths_keeps_the_other_members() {
    let text = r#"{"compilerOptions": {"strict": true}, "include": ["src"]}"#;
    let written = write_paths(text).unwrap();
    let tree: serde_json::Value = serde_json::from_str(&written).unwrap();
    assert_eq!(tree["include"], serde_json::Value::Array(vec![serde_json::Value::String("src".to_string())]));
    assert_eq!(tree["compilerOptions"]["strict"], serde_json::Value::Bool(true));
    assert_eq!(tree["compilerOptions"]["baseUrl"], serde_json::Value::String(".".to_string()));
    assert_eq!(
        tree["compilerOptions"]["paths"]["@/ui/*"][0],
        serde_json::Value::String("src/shared/components/ui/*".to_string())
    );
    assert_eq!(
        tree["compilerOptions"]["paths"]["@/components/*"][0],
        serde_json::Value::String("src/shared/components/*".to_string())
    );
}

#[test]
fn write_paths_leaves_a_declaration_without_options() {
    let written = write_paths("{\"include\": [\"src\"]} // nothing to do").unwrap();
    let tree: serde_json::Value = serde_json::from_str(&written).unwrap();
    assert_eq!(tree.as_object().unwrap().len(), 1);
    assert!(tree.get("compilerOptions").is_none());
    let table = get_aliases_paths(&written).unwrap();
    assert_eq!(table.get("@/ui"), None);
}

#[test]
fn write_paths_reports_what_it_cannot_read() {
    assert!(matches!(write_paths("{} /x"), Err(TsAliasError::StripComments(_))));
    assert!(matches!(write_paths("{"), Err(TsAliasError::Json(_))));
}

#[test]
fn tree_that_is_no_object_has_no_table() {
    let tree = lumina::json::Json::Array(Vec::new());
    assert!(matches!(aliases_from_tree(&tree), Err(TsAliasError::Shape)));
}
