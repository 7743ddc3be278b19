use zed_bsl::paths::{join, JarRegistry};

fn env(home: &str, data_home: &str) -> Vec<(String, String)> {
    vec![
        ("BSL_LANGUAGE_SERVER".to_string(), "/explicit.jar".to_string()),
        ("HOME".to_string(), home.to_string()),
        ("XDG_DATA_HOME".to_string(), data_home.to_string()),
    ]
}

#[test]
fn priority_order() {
    let registry = JarRegistry::new(&env("/home/test", "/home/test/.data"), "/ext");

    let candidates = registry.candidates();
    assert_eq!(candidates[0], "/explicit.jar");
    assert_eq!(
        candidates[1],
        "/home/test/.local/lib/bsl-language-server/bsl-language-server.jar"
    );
    assert_eq!(
        candidates[2],
        "/home/test/.data/lib/bsl-language-server/bsl-language-server.jar"
    );
    assert_eq!(candidates[3], "/ext/binaries/bsl-language-server.jar");
    assert_eq!(
        registry.managed_path(),
        "/ext/binaries/bsl-language-server.jar"
    );
}

#[test]
fn missing_variables_are_skipped() {
    let registry = JarRegistry::new(&[], "/ext/");
    assert_eq!(
        registry.candidates(),
        vec!["/ext/binaries/bsl-language-server.jar".to_string()]
    );
}

#[test]
fn existing_picks_first_present_candidate() {
    let registry = JarRegistry::new(&env("/home/test", "/home/test/.data"), "/ext");
    assert_eq!(
        registry.existing(&[false, false, true, true]),
        Some("/home/test/.data/lib/bsl-language-server/bsl-language-server.jar".to_string())
    );
    assert_eq!(
        registry.existing(&[false, false, false, true]),
        Some("/ext/binaries/bsl-language-server.jar".to_string())
    );
    assert_eq!(registry.existing(&[false, false, false, false]), None);
    assert_eq!(registry.existing(&[]), None);
}

#[test]
fn join_follows_path_rules() {
    assert_eq!(join("/a", "b"), "/a/b");
    assert_eq!(join("/a/", "b"), "/a/b");
    assert_eq!(join("/a", "/b"), "/b");
    assert_eq!(join("", "b"), "b");
    assert_eq!(join("a", ".local/lib"), "a/.local/lib");
}

#[test]
fn skips_missing() {
    let base = "/tmp/zed-bsl-paths-test";
    let extension_dir = format!("{}/ext", base);
    let registry = JarRegistry::new(
        &env(
            &format!("{}/missing-home", base),
            &format!("{}/missing-data", base),
        ),
        &extension_dir,
    );
    let present: Vec<bool> = registry
        .candidates()
        .iter()
        .map(|path| path == &format!("{}/binaries/bsl-language-server.jar", extension_dir))
        .collect();
    assert_eq!(
        registry.existing(&present),
        Some(format!("{}/binaries/bsl-language-server.jar", extension_dir))
    );
}
