use lumina::commands::add_command::{registry_item_url, resolve_registry_item};
use lumina::commands::build_command::{
    build_item, read_registry, registry_copy_path, source_paths, BuildError,
};
use lumina::commands::init_command::{
    check_for_required_deps, create_default_directories, init_command, install_dependencies,
    required_packages, InitError, InitSchema, InitStep,
};
use lumina::preflights::add::{preflight_add, PreflightAdd, Probe};
use lumina::preflights::building::{preflight_build, PreflightError};
use lumina::preflights::init::{preflight_init, PreflightInitErrors, ProjectProbe};
use lumina::resolver::RegistryError;
use lumina::schemas::registry_item::RegistryItem;
use lumina::schemas::registry_type::RegistryType;

const BUTTON: &str = r#"{"name": "button", "type": "registry:component", "description": "d", "title": "Button",
  "files": [{"path": "registry/button.tsx", "type": "registry:component"}, {"path": "registry/button.rsml", "type": "registry:style"}]}"#;

fn broken() -> std::io::Error {
    std::io::Error::new(std::io::ErrorKind::PermissionDenied, "no")
}

#[test]
fn descriptor_address() {
    assert_eq!(registry_item_url("button"), "https://lumina-ui.com/r/button.json");
    assert_eq!(registry_item_url(""), "https://lumina-ui.com/r/.json");
}

#[test]
fn unknown_component_is_not_found_by_name() {
    assert_eq!(
        resolve_registry_item("ghost", 404, "<html>not found</html>"),
        Err(RegistryError::RegistryItemNotFound("ghost".to_string()))
    );
    assert_eq!(
        resolve_registry_item("button", 404, BUTTON),
        Err(RegistryError::RegistryItemNotFound("button".to_string()))
    );
}

#[test]
fn other_failures_of_the_registry_are_network_failures() {
    for status in [500, 503, 301, 199, 300, 0] {
        assert_eq!(
            resolve_registry_item("button", status, "down"),
            Err(RegistryError::NetworkFailure("down".to_string())),
            "{}",
            status
        );
    }
}

#[test]
fn answer_is_read_as_a_descriptor() {
    for status in [200, 204, 299] {
        let item = resolve_registry_item("button", status, BUTTON).unwrap();
        assert_eq!(item.name, "button");
        assert_eq!(item.item_type, RegistryType::Component);
        assert_eq!(item.files.len(), 2);
    }
}

#[test]
fn answer_that_is_no_descriptor_is_malformed() {
    let malformed = Err(RegistryError::RegistryItemMalformed("button".to_string()));
    assert_eq!(resolve_registry_item("button", 200, "<html>"), malformed);
    assert_eq!(resolve_registry_item("button", 200, "{}"), malformed);
    assert_eq!(resolve_registry_item("button", 200, &BUTTON.replace("\"button\"", "\"card\"")), malformed);
}

#[test]
fn add_is_checked_in_order() {
    assert!(preflight_add(Probe::Present, Probe::Present, Probe::Present).is_ok());
    assert!(matches!(
        preflight_add(Probe::Absent, Probe::Absent, Probe::Absent),
        Err(PreflightAdd::MissingCWD)
    ));
    assert!(matches!(
        preflight_add(Probe::Present, Probe::Absent, Probe::Absent),
        Err(PreflightAdd::PackageJsonNotFound)
    ));
    assert!(matches!(
        preflight_add(Probe::Present, Probe::Present, Probe::Absent),
        Err(PreflightAdd::ComponentsJsonMissing)
    ));
    assert!(matches!(
        preflight_add(Probe::Failed(broken()), Probe::Absent, Probe::Absent),
        Err(PreflightAdd::IoError(_))
    ));
    assert!(matches!(
        preflight_add(Probe::Present, Probe::Failed(broken()), Probe::Absent),
        Err(PreflightAdd::IoError(_))
    ));
    assert!(matches!(
        preflight_add(Probe::Present, Probe::Present, Probe::Failed(broken())),
        Err(PreflightAdd::IoError(_))
    ));
    assert!(matches!(
        preflight_add(Probe::Absent, Probe::Failed(broken()), Probe::Present),
        Err(PreflightAdd::MissingCWD)
    ));
}

#[test]
fn init_is_checked_in_order() {
    let found = || ProjectProbe::Found { alias_prefix: Some("@".to_string()) };
    assert!(preflight_init("/p", Probe::Present, Probe::Present, Probe::Absent, found()).is_ok());
    assert!(matches!(
        preflight_init("/p", Probe::Absent, Probe::Present, Probe::Absent, found()),
        Err(PreflightInitErrors::MissingCWD)
    ));
    assert!(matches!(
        preflight_init("/p", Probe::Present, Probe::Absent, Probe::Present, found()),
        Err(PreflightInitErrors::PackageJsonNotFound)
    ));
    match preflight_init("/p", Probe::Present, Probe::Present, Probe::Present, found()) {
        Err(PreflightInitErrors::ComponentsJsonExists(at)) => assert_eq!(at, "/p"),
        other => panic!("{:?}", other),
    }
    assert!(matches!(
        preflight_init("/p", Probe::Present, Probe::Present, Probe::Absent, ProjectProbe::Unknown),
        Err(PreflightInitErrors::ProjectNotSetUp)
    ));
    match preflight_init(
        "/p",
        Probe::Present,
        Probe::Present,
        Probe::Absent,
        ProjectProbe::Found { alias_prefix: None },
    ) {
        Err(PreflightInitErrors::NoImportAliasFound(advice)) => {
            assert_eq!(advice, "\"@/*\": [\"./src/shared/*\"]")
        }
        other => panic!("{:?}", other),
    }
    assert!(matches!(
        preflight_init("/p", Probe::Present, Probe::Present, Probe::Failed(broken()), found()),
        Err(PreflightInitErrors::IoError(_))
    ));
    assert!(matches!(
        preflight_init("/p", Probe::Failed(broken()), Probe::Present, Probe::Absent, found()),
        Err(PreflightInitErrors::IoError(_))
    ));
    assert!(matches!(
        preflight_init("/p", Probe::Present, Probe::Failed(broken()), Probe::Absent, found()),
        Err(PreflightInitErrors::IoError(_))
    ));
}

#[test]
fn build_needs_its_registry() {
    assert!(preflight_build("r.json", Probe::Present).is_ok());
    match preflight_build("r.json", Probe::Absent) {
        Err(PreflightError::RegistryMissing(at)) => assert_eq!(at, "r.json"),
        other => panic!("{:?}", other),
    }
    assert!(matches!(preflight_build("r.json", Probe::Failed(broken())), Err(PreflightError::Io(_))));
}

#[test]
fn init_steps() {
    let options = |skip_preflight, yes| InitSchema { cwd: "/p".to_string(), yes, force: false, skip_preflight };
    let tail = [InitStep::CreateDirectories, InitStep::CheckDependencies, InitStep::Finish];
    assert_eq!(init_command(&options(true, false)), tail.to_vec());
    assert_eq!(init_command(&options(true, true)), tail.to_vec());
    assert_eq!(init_command(&options(false, true)), [&[InitStep::Preflight][..], &tail[..]].concat());
    assert_eq!(
        init_command(&options(false, false)),
        [
            &[InitStep::Preflight, InitStep::Confirm, InitStep::WriteComponentsJson, InitStep::WritePaths][..],
            &tail[..]
        ]
        .concat()
    );
    assert_eq!(
        create_default_directories(&options(false, false)),
        vec!["/p/src/shared/components".to_string(), "/p/src/shared/components/ui".to_string()]
    );
}

#[test]
fn dependencies_that_are_missing_are_installed() {
    assert_eq!(required_packages(), vec!["@rbxts/react".to_string()]);
    let packages = vec!["a".to_string(), "b".to_string(), "c".to_string()];
    let plan = check_for_required_deps(&packages, &vec![true, false, false]);
    assert_eq!(plan.install, vec!["b".to_string(), "c".to_string()]);
    assert!(!plan.installed);
    let plan = check_for_required_deps(&packages, &vec![true, true, true]);
    assert!(plan.install.is_empty());
    assert!(plan.installed);
    let plan = check_for_required_deps(&packages, &vec![true]);
    assert_eq!(plan.install, vec!["b".to_string(), "c".to_string()]);
    let plan = check_for_required_deps(&Vec::new(), &Vec::new());
    assert!(plan.installed);
    assert!(install_dependencies("a", true).is_ok());
    match install_dependencies("a", false) {
        Err(InitError::InstallError(name)) => assert_eq!(name, "a"),
        other => panic!("{:?}", other),
    }
}

#[test]
fn registry_is_built_item_by_item() {
    let text = format!(r#"{{"name": "lumina", "homepage": "https://lumina-ui.com", "items": [{}]}}"#, BUTTON);
    let registry = read_registry(&text).unwrap();
    assert_eq!(registry.items.len(), 1);
    let item = registry.items[0].duplicate();
    assert_eq!(
        source_paths(&item, "/repo"),
        vec!["/repo/registry/button.tsx".to_string(), "/repo/registry/button.rsml".to_string()]
    );
    let built = build_item(item, vec!["tsx".to_string(), "rsml".to_string()], "/out").unwrap();
    assert_eq!(built.path, "/out/button.json");
    let back = RegistryItem::from_text(&built.text).unwrap();
    assert_eq!(back.schema, Some("https://lumina-ui.com/schema/registry-item.json".to_string()));
    assert_eq!(back.files[0].content, Some("tsx".to_string()));
    assert_eq!(back.files[1].content, Some("rsml".to_string()));
    assert_eq!(back.name, "button");
    assert_eq!(registry_copy_path("/out"), "/out/registry.json");
}

#[test]
fn build_reports_what_it_cannot_use() {
    assert!(matches!(read_registry("{"), Err(BuildError::JsonError(_))));
    assert!(matches!(read_registry("{}"), Err(BuildError::Malformed)));
    assert!(matches!(
        read_registry(r#"{"name": "l", "homepage": "h", "items": [{}]}"#),
        Err(BuildError::Malformed)
    ));
    let item = RegistryItem::from_text(BUTTON).unwrap();
    assert!(matches!(build_item(item, vec!["only one".to_string()], "/out"), Err(BuildError::SourcesMismatch)));
}
