use lumina::resolver::{find_item, resolve, RegistryError};
use lumina::schemas::registry_item::RegistryItem;
use lumina::schemas::registry_type::RegistryType;

fn item(name: &str, needs: &[&str]) -> RegistryItem {
    RegistryItem {
        schema: None,
        name: name.to_string(),
        item_type: RegistryType::Component,
        description: format!("the {} component", name),
        title: name.to_string(),
        author: None,
        dependencies: None,
        dev_dependencies: None,
        registry_dependencies: if needs.is_empty() {
            None
        } else {
            Some(needs.iter().map(|n| n.to_string()).collect())
        },
        files: Vec::new(),
    }
}

fn names(items: &[RegistryItem]) -> Vec<String> {
    items.iter().map(|i| i.name.clone()).collect()
}

fn roots(list: &[&str]) -> Vec<String> {
    list.iter().map(|n| n.to_string()).collect()
}

/// Runs the fetch loop against a registry held in memory and counts the
/// fetches.
fn install(registry: &[RegistryItem], wanted: &[&str]) -> (Result<Vec<String>, RegistryError>, usize) {
    let mut known: Vec<RegistryItem> = Vec::new();
    let mut fetches = 0;
    loop {
        match resolve(&known, &roots(wanted)) {
            Ok(items) => return (Ok(names(&items)), fetches),
            Err(RegistryError::RegistryItemNotFound(name)) => {
                fetches += 1;
                match registry.iter().find(|i| i.name == name) {
                    Some(found) => known.push(found.clone()),
                    None => return (Err(RegistryError::RegistryItemNotFound(name)), fetches),
                }
            }
            Err(other) => return (Err(other), fetches),
        }
    }
}

#[test]
fn resolve_places_needs_before_the_item() {
    let registry = vec![
        item("dialog", &["button", "overlay"]),
        item("button", &["theme"]),
        item("overlay", &["theme"]),
        item("theme", &[]),
    ];
    let out = resolve(&registry, &roots(&["dialog"])).unwrap();
    assert_eq!(names(&out), vec!["theme", "button", "overlay", "dialog"]);
    assert_eq!(out[3], registry[0]);
}

#[test]
fn resolve_places_each_item_once() {
    let registry = vec![
        item("a", &["c"]),
        item("b", &["c"]),
        item("c", &[]),
    ];
    let out = resolve(&registry, &roots(&["a", "b", "a", "c"])).unwrap();
    assert_eq!(names(&out), vec!["c", "a", "b"]);
}

#[test]
fn resolve_of_no_roots_is_empty() {
    let registry = vec![item("a", &[])];
    assert_eq!(resolve(&registry, &Vec::new()).unwrap(), Vec::new());
    assert_eq!(resolve(&Vec::new(), &Vec::new()).unwrap(), Vec::new());
}

#[test]
fn resolve_ends_on_a_cycle() {
    let registry = vec![item("A", &["B"]), item("B", &["A"])];
    let out = resolve(&registry, &roots(&["A"])).unwrap();
    assert_eq!(names(&out), vec!["B", "A"]);
}

#[test]
fn resolve_ends_on_an_item_that_needs_itself() {
    let registry = vec![item("A", &["A"])];
    let out = resolve(&registry, &roots(&["A"])).unwrap();
    assert_eq!(names(&out), vec!["A"]);
}

#[test]
fn cycle_is_fetched_once_per_name() {
    let registry = vec![item("A", &["B"]), item("B", &["A"])];
    let (out, fetches) = install(&registry, &["A"]);
    assert_eq!(out.unwrap(), vec!["B", "A"]);
    assert_eq!(fetches, 2);
}

#[test]
fn diamond_is_fetched_once_per_name() {
    let registry = vec![
        item("dialog", &["button", "overlay"]),
        item("button", &["theme"]),
        item("overlay", &["theme"]),
        item("theme", &[]),
        item("unrelated", &[]),
    ];
    let (out, fetches) = install(&registry, &["dialog", "button"]);
    assert_eq!(out.unwrap(), vec!["theme", "button", "overlay", "dialog"]);
    assert_eq!(fetches, 4);
}

#[test]
fn unknown_name_is_reported_by_name() {
    let registry = vec![item("a", &["ghost"])];
    assert_eq!(
        resolve(&registry, &roots(&["a"])),
        Err(RegistryError::RegistryItemNotFound("ghost".to_string()))
    );
    assert_eq!(
        resolve(&registry, &roots(&["nothing"])),
        Err(RegistryError::RegistryItemNotFound("nothing".to_string()))
    );
    let (out, fetches) = install(&registry, &["a"]);
    assert_eq!(out, Err(RegistryError::RegistryItemNotFound("ghost".to_string())));
    assert_eq!(fetches, 2);
}

#[test]
fn first_missing_name_wins() {
    let registry = vec![item("a", &["x", "y"])];
    assert_eq!(
        resolve(&registry, &roots(&["a", "z"])),
        Err(RegistryError::RegistryItemNotFound("x".to_string()))
    );
}

#[test]
fn first_item_of_a_name_stands_for_it() {
    let mut second = item("a", &["b"]);
    second.title = "second".to_string();
    let registry = vec![item("a", &[]), second, item("b", &[])];
    assert_eq!(find_item(&registry, "a"), Some(0));
    assert_eq!(find_item(&registry, "b"), Some(2));
    assert_eq!(find_item(&registry, "c"), None);
    let out = resolve(&registry, &roots(&["a"])).unwrap();
    assert_eq!(out, vec![registry[0].clone()]);
}

#[test]
fn deep_chain_resolves_leaf_first() {
    let mut registry = Vec::new();
    for i in 0..50 {
        let name = format!("n{}", i);
        let next = format!("n{}", i + 1);
        if i < 49 {
            registry.push(item(&name, &[next.as_str()]));
        } else {
            registry.push(item(&name, &[]));
        }
    }
    let out = resolve(&registry, &roots(&["n0"])).unwrap();
    assert_eq!(out.len(), 50);
    assert_eq!(out[0].name, "n49");
    assert_eq!(out[49].name, "n0");
}
