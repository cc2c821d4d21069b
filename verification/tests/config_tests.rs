use lumina::config::{
    config_from_tree, get_config, resolve_alias, write_config, Aliases, Config, ConfigError,
    ResolvedPaths, Themes,
};
use lumina::json::Json;
use lumina::util::get_project_info::{get_aliases_paths, AliasMap};

fn table() -> AliasMap {
    get_aliases_paths(
        r#"{"compilerOptions": {"paths": {"@/components/*": ["./src/components/*"], "@/lib/*": ["lib/*"]}}}"#,
    )
    .unwrap()
}

#[test]
fn theme_has_one_name() {
    assert_eq!(Themes::Default.as_str(), "default");
    assert_eq!(Themes::default(), Themes::Default);
}

#[test]
fn default_preferences() {
    assert_eq!(
        Aliases::default(),
        Aliases {
            components: Some("@/components".to_string()),
            ui: Some("@/components/ui".to_string()),
            utils: None,
            hooks: None,
            lib: None,
        }
    );
}

#[test]
fn configuration_is_loaded_with_its_directories() {
    let config = get_config(r#"{"theme": "Default", "aliases": {"ui": "@/ui", "lib": "@/lib"}}"#, "/p", &table())
        .unwrap();
    assert_eq!(
        config,
        Config {
            theme: Themes::Default,
            aliases: Aliases {
                components: Some("@/components".to_string()),
                ui: Some("@/ui".to_string()),
                utils: None,
                hooks: None,
                lib: Some("@/lib".to_string()),
            },
            resolved_paths: ResolvedPaths {
                cwd: Some("/p".to_string()),
                components: Some("/p/src/components".to_string()),
                ui: None,
                utils: None,
                hooks: None,
                lib: Some("/p/lib".to_string()),
            },
        }
    );
}

#[test]
fn missing_preferences_fall_back() {
    for text in [r#"{"theme": "Default"}"#, r#"{"theme": "Default", "aliases": null}"#, r#"{"theme": "Default", "aliases": {}}"#] {
        let config = get_config(text, "/p", &AliasMap::new()).unwrap();
        assert_eq!(config.aliases, Aliases::default(), "{}", text);
        assert_eq!(config.resolved_paths, ResolvedPaths::rooted("/p"));
    }
}

#[test]
fn malformed_configuration_names_the_member() {
    let cases = [
        ("[]", ""),
        ("{}", "theme"),
        (r#"{"theme": "default"}"#, "theme"),
        (r#"{"theme": 1}"#, "theme"),
        (r#"{"theme": "Default", "aliases": []}"#, "aliases"),
        (r#"{"theme": "Default", "aliases": {"components": 1, "ui": 2}}"#, "aliases.components"),
        (r#"{"theme": "Default", "aliases": {"ui": []}}"#, "aliases.ui"),
        (r#"{"theme": "Default", "aliases": {"utils": {}}}"#, "aliases.utils"),
        (r#"{"theme": "Default", "aliases": {"hooks": true}}"#, "aliases.hooks"),
        (r#"{"theme": "Default", "aliases": {"lib": 0}}"#, "aliases.lib"),
    ];
    for (text, member) in cases {
        match get_config(text, "/p", &AliasMap::new()) {
            Err(ConfigError::Malformed(name)) => assert_eq!(name, member, "{}", text),
            other => panic!("{}: {:?}", text, other),
        }
    }
}

#[test]
fn text_that_is_no_json_is_a_json_error() {
    assert!(matches!(get_config("", "/p", &AliasMap::new()), Err(ConfigError::SerdeJson(_))));
    assert!(matches!(get_config("{theme}", "/p", &AliasMap::new()), Err(ConfigError::SerdeJson(_))));
}

#[test]
fn written_configuration_is_loaded_again() {
    let config = Config::initial("/p");
    let text = write_config(&config).unwrap();
    assert!(!text.contains("resolved"), "{}", text);
    assert!(!text.contains("utils"), "{}", text);
    let value: serde_json::Value = serde_json::from_str(&text).unwrap();
    assert_eq!(value["theme"], serde_json::Value::String("Default".to_string()));
    assert_eq!(value["aliases"]["components"], serde_json::Value::String("@/components".to_string()));
    assert_eq!(value["aliases"]["ui"], serde_json::Value::String("@/components/ui".to_string()));
    assert!(text.contains('\n'));
    assert_eq!(get_config(&text, "/p", &AliasMap::new()).unwrap(), config);
}

#[test]
fn tree_is_read_without_text() {
    assert!(matches!(config_from_tree(&Json::Null), Err(ConfigError::Malformed(_))));
}

#[test]
fn alias_resolves_to_its_first_pattern() {
    let t = table();
    assert_eq!(resolve_alias("/p", &t, "@/components"), Some("/p/src/components".to_string()));
    assert_eq!(resolve_alias("", &t, "@/components"), Some("src/components".to_string()));
    assert_eq!(resolve_alias("/p/", &t, "@/lib"), Some("/p/lib".to_string()));
    assert_eq!(resolve_alias("/p", &t, "@/ui"), None);
}
