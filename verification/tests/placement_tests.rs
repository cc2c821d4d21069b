use lumina::commands::add_command::{
    add_command, add_components, directory_for, plan_file, resolve_file_target_path, target_for, AddError,
    AddSchema, Target, WritePlan,
};
use lumina::config::{resolve_config_paths, Config, ResolvedPaths};
use lumina::preflights::add::{PreflightAdd, Probe};
use lumina::schemas::registry_item::RegistryItem;
use lumina::schemas::registry_item_file::RegistryItemFile;
use lumina::schemas::registry_type::RegistryType;
use lumina::util::get_project_info::AliasMap;

fn file(path: &str, kind: RegistryType, content: Option<&str>) -> RegistryItemFile {
    RegistryItemFile {
        path: path.to_string(),
        content: content.map(|c| c.to_string()),
        item_type: kind,
        target: None,
        extends: None,
    }
}

fn item(name: &str, files: Vec<RegistryItemFile>) -> RegistryItem {
    RegistryItem {
        schema: None,
        name: name.to_string(),
        item_type: RegistryType::Component,
        description: String::new(),
        title: name.to_string(),
        author: None,
        dependencies: None,
        dev_dependencies: None,
        registry_dependencies: None,
        files,
    }
}

fn project(declared: &[(&str, &str)]) -> Config {
    let mut table = AliasMap::new();
    for (alias, path) in declared {
        table.insert(alias.to_string(), vec![path.to_string()]);
    }
    let mut config = Config::initial("/root");
    config.resolved_paths = resolve_config_paths("/root", &table);
    config
}

#[test]
fn component_goes_to_index_under_its_item() {
    let config = project(&[("@/components", "./src/components")]);
    let f = file("registry/button.tsx", RegistryType::Component, Some("x"));
    let target = target_for(&f, "button", &config.resolved_paths).unwrap();
    assert_eq!(
        target,
        Target {
            directory: "/root/src/components/button".to_string(),
            filename: "index.tsx".to_string()
        }
    );
    let plan = plan_file(&f, "button", &config.resolved_paths).unwrap();
    assert_eq!(plan.path, "/root/src/components/button/index.tsx");
    assert_eq!(plan.directory, "/root/src/components/button");
    assert_eq!(plan.content, "x");
}

#[test]
fn kinds_choose_directory_and_name() {
    let config = project(&[("@/components", "./src/components"), ("@/ui", "src/ui")]);
    let paths = &config.resolved_paths;
    let ui = target_for(&file("a", RegistryType::UI, None), "card", paths).unwrap();
    assert_eq!(ui.directory, "/root/src/ui/card");
    assert_eq!(ui.filename, "index.tsx");
    let block = target_for(&file("a", RegistryType::Block, None), "card", paths).unwrap();
    assert_eq!(block.directory, "/root/src/components/card");
    assert_eq!(block.filename, "index.tsx");
    let style = target_for(&file("a", RegistryType::Style, None), "card", paths).unwrap();
    assert_eq!(style.directory, "/root/src/components/card");
    assert_eq!(style.filename, "card.rsml");
}

#[test]
fn kind_directory_is_handed_out() {
    let config = project(&[("@/components", "./src/components")]);
    assert_eq!(
        resolve_file_target_path(&file("a", RegistryType::Component, None), &config),
        Some("/root/src/components".to_string())
    );
    assert_eq!(
        resolve_file_target_path(&file("a", RegistryType::Style, None), &config),
        Some("/root/src/components".to_string())
    );
    assert_eq!(resolve_file_target_path(&file("a", RegistryType::UI, None), &config), None);
}

#[test]
fn ui_file_without_ui_alias_has_no_target() {
    let config = project(&[("@/components", "./src/components")]);
    let r = target_for(&file("registry/card.tsx", RegistryType::UI, Some("x")), "card", &config.resolved_paths);
    match r {
        Err(AddError::TargetPathUnresolvable { component, path }) => {
            assert_eq!(component, "card");
            assert_eq!(path, "registry/card.tsx");
        }
        other => panic!("{:?}", other),
    }
}

#[test]
fn component_without_components_alias_has_no_target() {
    let config = project(&[("@/ui", "./src/ui")]);
    for kind in [RegistryType::Component, RegistryType::Block, RegistryType::Style] {
        let r = target_for(&file("p", kind, Some("x")), "card", &config.resolved_paths);
        assert!(matches!(r, Err(AddError::TargetPathUnresolvable { .. })));
    }
    assert!(target_for(&file("p", RegistryType::UI, Some("x")), "card", &config.resolved_paths).is_ok());
}

#[test]
fn file_without_content_is_not_planned() {
    let config = project(&[("@/components", "./src/components")]);
    let r = plan_file(&file("registry/button.tsx", RegistryType::Component, None), "button", &config.resolved_paths);
    match r {
        Err(AddError::ContentEmpty { component, path }) => {
            assert_eq!(component, "button");
            assert_eq!(path, "registry/button.tsx");
        }
        other => panic!("{:?}", other),
    }
}

#[test]
fn missing_target_is_reported_before_missing_content() {
    let config = project(&[]);
    let r = plan_file(&file("p", RegistryType::Component, None), "button", &config.resolved_paths);
    assert!(matches!(r, Err(AddError::TargetPathUnresolvable { .. })));
}

#[test]
fn batch_stops_at_the_first_failure_and_keeps_what_came_before() {
    let config = project(&[("@/components", "./src/components")]);
    let items = vec![
        item(
            "button",
            vec![
                file("b1", RegistryType::Component, Some("one")),
                file("b2", RegistryType::Style, Some("two")),
            ],
        ),
        item(
            "card",
            vec![
                file("c1", RegistryType::Component, Some("three")),
                file("c2", RegistryType::UI, Some("four")),
                file("c3", RegistryType::Component, Some("five")),
            ],
        ),
        item("last", vec![file("l1", RegistryType::Component, Some("six"))]),
    ];
    let batch = add_components(&items, &config);
    assert_eq!(
        batch.writes,
        vec![
            WritePlan {
                directory: "/root/src/components/button".to_string(),
                path: "/root/src/components/button/index.tsx".to_string(),
                content: "one".to_string()
            },
            WritePlan {
                directory: "/root/src/components/button".to_string(),
                path: "/root/src/components/button/button.rsml".to_string(),
                content: "two".to_string()
            },
            WritePlan {
                directory: "/root/src/components/card".to_string(),
                path: "/root/src/components/card/index.tsx".to_string(),
                content: "three".to_string()
            },
        ]
    );
    match batch.failure {
        Some(AddError::TargetPathUnresolvable { component, path }) => {
            assert_eq!(component, "card");
            assert_eq!(path, "c2");
        }
        other => panic!("{:?}", other),
    }
}

#[test]
fn batch_without_failure_plans_every_file() {
    let config = project(&[("@/components", "./src/components"), ("@/ui", "./src/ui")]);
    let items = vec![
        item("empty", vec![]),
        item("card", vec![file("c2", RegistryType::UI, Some("four"))]),
    ];
    let batch = add_components(&items, &config);
    assert!(batch.failure.is_none());
    assert_eq!(batch.writes.len(), 1);
    assert_eq!(batch.writes[0].path, "/root/src/ui/card/index.tsx");
    let nothing = add_components(&Vec::new(), &config);
    assert!(nothing.failure.is_none());
    assert!(nothing.writes.is_empty());
}

#[test]
fn batch_stops_on_a_file_without_content() {
    let config = project(&[("@/components", "./src/components")]);
    let items = vec![item(
        "button",
        vec![
            file("b1", RegistryType::Component, Some("one")),
            file("b2", RegistryType::Component, None),
            file("b3", RegistryType::Component, Some("three")),
        ],
    )];
    let batch = add_components(&items, &config);
    assert_eq!(batch.writes.len(), 1);
    assert!(matches!(batch.failure, Some(AddError::ContentEmpty { .. })));
}

#[test]
fn add_needs_a_component_and_a_project() {
    let none = AddSchema { cwd: ".".to_string(), components: Vec::new() };
    assert!(matches!(
        add_command(&none, Probe::Present, Probe::Present, Probe::Present),
        Err(AddError::ComponentsEmpty)
    ));
    assert!(matches!(
        add_command(&none, Probe::Absent, Probe::Absent, Probe::Absent),
        Err(AddError::ComponentsEmpty)
    ));
    let one = AddSchema { cwd: ".".to_string(), components: vec!["button".to_string()] };
    assert!(add_command(&one, Probe::Present, Probe::Present, Probe::Present).is_ok());
    assert!(matches!(
        add_command(&one, Probe::Absent, Probe::Present, Probe::Present),
        Err(AddError::PreflightAdd(PreflightAdd::MissingCWD))
    ));
    assert!(matches!(
        add_command(&one, Probe::Present, Probe::Absent, Probe::Present),
        Err(AddError::PreflightAdd(PreflightAdd::PackageJsonNotFound))
    ));
    assert!(matches!(
        add_command(&one, Probe::Present, Probe::Present, Probe::Absent),
        Err(AddError::PreflightAdd(PreflightAdd::ComponentsJsonMissing))
    ));
    assert!(matches!(
        add_command(
            &one,
            Probe::Present,
            Probe::Failed(std::io::Error::new(std::io::ErrorKind::Other, "no")),
            Probe::Absent
        ),
        Err(AddError::PreflightAdd(PreflightAdd::IoError(_)))
    ));
}

#[test]
fn kinds_have_their_directories() {
    let config = project(&[("@/components", "./c"), ("@/ui", "./u")]);
    let paths = &config.resolved_paths;
    assert_eq!(directory_for(RegistryType::UI, paths), &Some("/root/u".to_string()));
    for kind in [RegistryType::Component, RegistryType::Block, RegistryType::Style] {
        assert_eq!(directory_for(kind, paths), &Some("/root/c".to_string()));
    }
}

#[test]
fn directories_come_from_the_first_pattern() {
    let mut table = AliasMap::new();
    table.insert("@/components".to_string(), vec!["./src/components".to_string(), "./vendor".to_string()]);
    table.insert("@/ui".to_string(), vec!["/abs/ui".to_string()]);
    table.insert("@/utils".to_string(), Vec::new());
    table.insert("@/hooks".to_string(), vec!["hooks".to_string()]);
    let paths = resolve_config_paths("/root/", &table);
    assert_eq!(
        paths,
        ResolvedPaths {
            cwd: Some("/root/".to_string()),
            components: Some("/root/src/components".to_string()),
            ui: Some("/abs/ui".to_string()),
            utils: None,
            hooks: Some("/root/hooks".to_string()),
            lib: None,
        }
    );
    assert_eq!(ResolvedPaths::rooted("/x").cwd, Some("/x".to_string()));
}
