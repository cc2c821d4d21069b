use lumina::json::{find_member, get_member, put_member, Json, Member};
use lumina::schemas::registry::Registry;
use lumina::schemas::registry_item::{DescriptorError, RegistryItem};
use lumina::schemas::registry_item_file::RegistryItemFile;
use lumina::schemas::registry_type::RegistryType;

fn bare_item() -> RegistryItem {
    RegistryItem {
        schema: None,
        name: "button".to_string(),
        item_type: RegistryType::Component,
        description: "A button".to_string(),
        title: "Button".to_string(),
        author: None,
        dependencies: None,
        dev_dependencies: None,
        registry_dependencies: None,
        files: vec![RegistryItemFile {
            path: "registry/button.tsx".to_string(),
            content: None,
            item_type: RegistryType::UI,
            target: None,
            extends: None,
        }],
    }
}

fn full_item() -> RegistryItem {
    RegistryItem {
        schema: Some("https://lumina-ui.com/schema/registry-item.json".to_string()),
        name: "dialog".to_string(),
        item_type: RegistryType::Block,
        description: "A dialog \"with\" quotes".to_string(),
        title: "Dialog".to_string(),
        author: Some("someone".to_string()),
        dependencies: Some(vec!["@rbxts/react".to_string()]),
        dev_dependencies: Some(Vec::new()),
        registry_dependencies: Some(vec!["button".to_string(), "overlay".to_string()]),
        files: vec![
            RegistryItemFile {
                path: "registry/dialog.tsx".to_string(),
                content: Some("export {}\n".to_string()),
                item_type: RegistryType::Component,
                target: Some("dialog/index.tsx".to_string()),
                extends: Some("base".to_string()),
            },
            RegistryItemFile {
                path: "registry/dialog.rsml".to_string(),
                content: Some(String::new()),
                item_type: RegistryType::Style,
                target: None,
                extends: None,
            },
        ],
    }
}

#[test]
fn tags_are_a_table() {
    let table = [
        (RegistryType::Block, "registry:block"),
        (RegistryType::Component, "registry:component"),
        (RegistryType::UI, "registry:ui"),
        (RegistryType::Style, "registry:style"),
    ];
    for (kind, tag) in table {
        assert_eq!(kind.as_str(), tag);
        assert_eq!(kind.to_string(), tag);
        assert_eq!(RegistryType::from_tag(tag), Some(kind));
    }
    assert_eq!(RegistryType::from_tag("registry:hook"), None);
    assert_eq!(RegistryType::from_tag("component"), None);
    assert_eq!(RegistryType::from_tag(""), None);
    assert_eq!(RegistryType::from_tag("registry:UI"), None);
}

#[test]
fn bare_item_is_written_without_what_it_lacks() {
    let item = bare_item();
    let text = item.to_text().unwrap();
    for absent in
        ["$schema", "author", "dependencies", "devDependencies", "registryDependencies", "content", "target", "extends", "null"]
    {
        assert!(!text.contains(absent), "{} in {}", absent, text);
    }
    let value: serde_json::Value = serde_json::from_str(&text).unwrap();
    assert_eq!(value.as_object().unwrap().len(), 5);
    assert_eq!(value["type"], serde_json::Value::String("registry:component".to_string()));
    assert_eq!(value["files"][0]["type"], serde_json::Value::String("registry:ui".to_string()));
    assert_eq!(value["files"][0].as_object().unwrap().len(), 2);
    let back = RegistryItem::from_text(&text).unwrap();
    assert_eq!(back, item);
    assert_eq!(back.author, None);
    assert_eq!(back.dependencies, None);
    assert_eq!(back.dev_dependencies, None);
    assert_eq!(back.registry_dependencies, None);
    assert_eq!(back.schema, None);
}

#[test]
fn full_item_reads_back() {
    let item = full_item();
    let text = item.to_text().unwrap();
    assert_eq!(RegistryItem::from_text(&text).unwrap(), item);
    let tree = item.to_tree();
    assert_eq!(RegistryItem::from_tree(&tree), Some(item.duplicate()));
    let value: serde_json::Value = serde_json::from_str(&text).unwrap();
    assert_eq!(value["devDependencies"], serde_json::Value::Array(Vec::new()));
    assert_eq!(value["registryDependencies"][1], serde_json::Value::String("overlay".to_string()));
}

#[test]
fn file_reads_back() {
    for file in full_item().files.iter().chain(bare_item().files.iter()) {
        assert_eq!(RegistryItemFile::from_tree(&file.to_tree()), Some(file.clone()));
        assert_eq!(&file.duplicate(), file);
    }
}

#[test]
fn descriptor_from_the_registry_is_read() {
    let text = r#"{
        "$schema": "https://lumina-ui.com/schema/registry-item.json",
        "name": "card",
        "type": "registry:ui",
        "description": "A card",
        "title": "Card",
        "registryDependencies": ["button"],
        "author": null,
        "unknown": {"kept": false},
        "files": [
            {"path": "ui/card.tsx", "type": "registry:ui", "content": "x", "more": 1},
            {"path": "ui/card.rsml", "type": "registry:style", "target": null}
        ]
    }"#;
    let item = RegistryItem::from_text(text).unwrap();
    assert_eq!(item.name, "card");
    assert_eq!(item.item_type, RegistryType::UI);
    assert_eq!(item.author, None);
    assert_eq!(item.dependencies, None);
    assert_eq!(item.registry_dependencies, Some(vec!["button".to_string()]));
    assert_eq!(item.files.len(), 2);
    assert_eq!(item.files[0].content, Some("x".to_string()));
    assert_eq!(item.files[1].item_type, RegistryType::Style);
    assert_eq!(item.files[1].content, None);
    assert_eq!(item.files[1].target, None);
}

#[test]
fn text_that_is_no_descriptor_is_told_apart() {
    assert!(matches!(RegistryItem::from_text("{"), Err(DescriptorError::Json(_))));
    for text in [
        "[]",
        "{}",
        r#"{"name": "a", "type": "registry:ui", "description": "", "title": ""}"#,
        r#"{"name": "a", "type": "registry:none", "description": "", "title": "", "files": []}"#,
        r#"{"name": 1, "type": "registry:ui", "description": "", "title": "", "files": []}"#,
        r#"{"name": "a", "type": "registry:ui", "description": "", "title": "", "files": {}}"#,
        r#"{"name": "a", "type": "registry:ui", "description": "", "title": "", "files": [{}]}"#,
        r#"{"name": "a", "type": "registry:ui", "description": "", "title": "", "files": [], "author": 4}"#,
        r#"{"name": "a", "type": "registry:ui", "description": "", "title": "", "files": [], "dependencies": "x"}"#,
        r#"{"name": "a", "type": "registry:ui", "description": "", "title": "", "files": [], "registryDependencies": [1]}"#,
        r#"{"name": "a", "type": "registry:ui", "description": "", "title": "", "files": [{"path": "p", "type": "registry:ui", "content": 1}]}"#,
    ] {
        assert!(matches!(RegistryItem::from_text(text), Err(DescriptorError::Shape)), "{}", text);
    }
    let fine = r#"{"name": "a", "type": "registry:ui", "description": "", "title": "", "files": []}"#;
    assert!(RegistryItem::from_text(fine).is_ok());
}

#[test]
fn later_member_stands_for_a_key() {
    let mut members = vec![
        Member { key: "a".to_string(), value: Json::Bool(false) },
        Member { key: "b".to_string(), value: Json::Null },
        Member { key: "a".to_string(), value: Json::Bool(true) },
    ];
    assert_eq!(get_member(&members, "a"), Some(&Json::Bool(true)));
    assert_eq!(get_member(&members, "b"), Some(&Json::Null));
    assert_eq!(get_member(&members, "c"), None);
    assert_eq!(find_member(&members, "a"), Some(2));
    assert_eq!(Json::text("x"), Json::Text("x".to_string()));
    put_member(&mut members, "a", Json::text("new"));
    put_member(&mut members, "z", Json::Null);
    assert_eq!(members.len(), 4);
    assert_eq!(members[0].value, Json::Bool(false));
    assert_eq!(members[2].value, Json::text("new"));
    assert_eq!(members[3].key, "z");
}

#[test]
fn registry_is_read_from_a_tree() {
    let tree = Json::Object(vec![
        Member { key: "name".to_string(), value: Json::text("lumina") },
        Member { key: "homepage".to_string(), value: Json::text("https://lumina-ui.com") },
        Member {
            key: "items".to_string(),
            value: Json::Array(vec![bare_item().to_tree(), full_item().to_tree()]),
        },
    ]);
    let registry = Registry::from_tree(&tree).unwrap();
    assert_eq!(
        registry,
        Registry {
            name: "lumina".to_string(),
            homepage: "https://lumina-ui.com".to_string(),
            items: vec![bare_item(), full_item()],
        }
    );
    assert_eq!(Registry::from_tree(&Json::Null), None);
    let no_items = Json::Object(vec![
        Member { key: "name".to_string(), value: Json::text("lumina") },
        Member { key: "homepage".to_string(), value: Json::text("h") },
    ]);
    assert_eq!(Registry::from_tree(&no_items), None);
}
