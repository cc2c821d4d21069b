use lumina::util::get_package_info::{get_package_info, PackageJsonError};
use lumina::util::get_package_manager::{
    detect_from_package_json, detect_from_user_agent, find_char, get_package_manager,
    get_package_runner, kind_from_name, space, PackageManager, PackageManagerKind, PackageRunners,
};

fn manager(kind: PackageManagerKind, version: Option<&str>) -> Option<PackageManager> {
    Some(PackageManager { kind, version: version.map(|v| v.to_string()) })
}

#[test]
fn runners_have_their_commands() {
    assert_eq!(PackageRunners::PnpmDlx.as_str(), "pnpm dlx");
    assert_eq!(PackageRunners::Bunx.as_str(), "bunx");
    assert_eq!(PackageRunners::Npx.as_str(), "npx");
    assert_eq!(PackageRunners::YarnDlx.as_str(), "yarn dlx");
}

#[test]
fn user_agent_names_the_manager() {
    assert_eq!(
        detect_from_user_agent("pnpm/9.1.0 npm/? node/v20.11.0 linux x64"),
        manager(PackageManagerKind::Pnpm, Some("9.1.0"))
    );
    assert_eq!(
        detect_from_user_agent("npm/10.2.4 node/v20.11.0 darwin arm64 workspaces/false"),
        manager(PackageManagerKind::Npm, Some("10.2.4"))
    );
    assert_eq!(detect_from_user_agent("  \t yarn/1.22.19\nnpm/?"), manager(PackageManagerKind::Yarn, Some("1.22.19")));
    assert_eq!(detect_from_user_agent("bun"), manager(PackageManagerKind::Bun, None));
    assert_eq!(detect_from_user_agent("bun/"), manager(PackageManagerKind::Bun, Some("")));
    assert_eq!(detect_from_user_agent("bun/1.0/extra"), manager(PackageManagerKind::Bun, Some("1.0")));
    assert_eq!(detect_from_user_agent("\u{3000}npm/1\u{a0}x"), manager(PackageManagerKind::Npm, Some("1")));
    assert_eq!(detect_from_user_agent(""), None);
    assert_eq!(detect_from_user_agent("   "), None);
    assert_eq!(detect_from_user_agent("deno/1.0"), None);
    assert_eq!(detect_from_user_agent("/npm"), None);
    assert_eq!(detect_from_user_agent("node/v20 pnpm/9"), None);
}

#[test]
fn package_json_names_the_manager() {
    assert_eq!(detect_from_package_json("pnpm@9.1.0"), manager(PackageManagerKind::Pnpm, Some("9.1.0")));
    assert_eq!(detect_from_package_json("yarn@4.0.0+sha224.abc@x"), manager(PackageManagerKind::Yarn, Some("4.0.0+sha224.abc@x")));
    assert_eq!(detect_from_package_json("npm"), manager(PackageManagerKind::Npm, None));
    assert_eq!(detect_from_package_json("bun@"), manager(PackageManagerKind::Bun, Some("")));
    assert_eq!(detect_from_package_json("@pnpm"), None);
    assert_eq!(detect_from_package_json("pnpm 9"), None);
    assert_eq!(detect_from_package_json(""), None);
}

#[test]
fn user_agent_comes_before_package_json() {
    assert_eq!(get_package_manager(Some("npm/10"), Some("pnpm@9")), manager(PackageManagerKind::Npm, Some("10")));
    assert_eq!(get_package_manager(Some("deno/1"), Some("pnpm@9")), manager(PackageManagerKind::Pnpm, Some("9")));
    assert_eq!(get_package_manager(None, Some("pnpm@9")), manager(PackageManagerKind::Pnpm, Some("9")));
    assert_eq!(get_package_manager(Some("npm/10"), None), manager(PackageManagerKind::Npm, Some("10")));
    assert_eq!(get_package_manager(None, None), None);
    assert_eq!(get_package_manager(Some("x"), Some("y")), None);
}

#[test]
fn runner_follows_the_manager() {
    assert_eq!(get_package_runner(Some("npm/10"), None), Some(PackageRunners::Npx));
    assert_eq!(get_package_runner(Some("yarn/1"), None), Some(PackageRunners::YarnDlx));
    assert_eq!(get_package_runner(None, Some("pnpm@9")), Some(PackageRunners::PnpmDlx));
    assert_eq!(get_package_runner(None, Some("bun")), Some(PackageRunners::Bunx));
    assert_eq!(get_package_runner(None, None), None);
}

#[test]
fn names_and_spaces() {
    assert_eq!(kind_from_name("npm"), Some(PackageManagerKind::Npm));
    assert_eq!(kind_from_name("NPM"), None);
    assert_eq!(find_char("a/b/c", '/'), 1);
    assert_eq!(find_char("abc", '/'), 3);
    assert_eq!(find_char("", '/'), 0);
    for c in ['\t', '\n', '\u{b}', '\u{c}', '\r', ' ', '\u{85}', '\u{a0}', '\u{1680}', '\u{2000}', '\u{200a}', '\u{2028}', '\u{2029}', '\u{202f}', '\u{205f}', '\u{3000}'] {
        assert!(space(c), "{:?}", c);
        assert!(c.is_whitespace());
    }
    for c in ['a', '/', '\u{200b}', '\u{8}', '\u{e}', '\u{1f}', '!', '\u{84}', '\u{86}', '\u{2007}', '\u{feff}'] {
        assert_eq!(space(c), c.is_whitespace(), "{:?}", c);
    }
}

#[test]
fn package_json_is_read_for_its_manager() {
    let info = get_package_info(r#"{"name": "game", "packageManager": "pnpm@9.1.0", "scripts": {}}"#).unwrap();
    assert_eq!(info.package_manager, Some("pnpm@9.1.0".to_string()));
    assert_eq!(get_package_info("{}").unwrap().package_manager, None);
    assert_eq!(get_package_info(r#"{"packageManager": null}"#).unwrap().package_manager, None);
    assert!(matches!(get_package_info("not json"), Err(PackageJsonError::Json(_))));
    assert!(matches!(get_package_info("[]"), Err(PackageJsonError::Shape)));
    assert!(matches!(get_package_info(r#"{"packageManager": 1}"#), Err(PackageJsonError::Shape)));
}
