use nixos_json_controller::dictionary::Dictionary;

#[test]
fn resolve_package_alias() {
    let dictionary = Dictionary::load().unwrap();

    assert_eq!(dictionary.resolve_package("firefox"), Some("firefox"));
    assert_eq!(dictionary.resolve_package("ファイアフォックス"), Some("firefox"));
    assert_eq!(dictionary.resolve_package("火狐"), Some("firefox"));
}

#[test]
fn resolve_service_alias() {
    let dictionary = Dictionary::load().unwrap();

    assert_eq!(dictionary.resolve_service("ssh"), Some("openssh"));
    assert_eq!(dictionary.resolve_service("sshd"), Some("openssh"));
}

#[test]
fn unknown_package_returns_none() {
    let dictionary = Dictionary::load().unwrap();

    assert_eq!(dictionary.resolve_package("unknown-package"), None);
}

#[test]
fn resolve_more_package_aliases() {
    let dictionary = Dictionary::load().unwrap();

    assert_eq!(dictionary.resolve_package("chrome"), Some("google-chrome"));
    assert_eq!(dictionary.resolve_package("vs code"), Some("vscode"));
    assert_eq!(dictionary.resolve_package("python"), Some("python3"));
    assert_eq!(dictionary.resolve_package("git"), Some("git"));
}

#[test]
fn every_listed_alias_resolves_to_its_entry() {
    let dictionary = Dictionary::load().unwrap();

    assert_eq!(dictionary.resolve_package("ファイヤーフォックス"), Some("firefox"));
    assert_eq!(dictionary.resolve_package("クローム"), Some("google-chrome"));
    assert_eq!(dictionary.resolve_package("code"), Some("vscode"));
    assert_eq!(dictionary.resolve_package("パイソン"), Some("python3"));
    assert_eq!(dictionary.resolve_package("ギット"), Some("git"));
    assert_eq!(dictionary.resolve_package("curl"), Some("curl"));
    assert_eq!(dictionary.resolve_service("openssh"), Some("openssh"));
    assert_eq!(dictionary.resolve_service("sshサーバー"), Some("openssh"));
}

#[test]
fn packages_and_services_are_kept_apart() {
    let dictionary = Dictionary::load().unwrap();

    assert_eq!(dictionary.resolve_package("ssh"), None);
    assert_eq!(dictionary.resolve_service("firefox"), None);
}

#[test]
fn resolution_is_exact() {
    let dictionary = Dictionary::load().unwrap();

    assert_eq!(dictionary.resolve_package("Firefox"), None);
    assert_eq!(dictionary.resolve_package(" firefox"), None);
    assert_eq!(dictionary.resolve_package(""), None);
}
