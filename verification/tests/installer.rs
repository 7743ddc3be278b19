use zed_bsl::installer::release_assets;
use zed_bsl::settings::SettingsJson;
use zed_bsl::installer::{jdk_action, jdk_missing_message, JdkAction};
use zed_bsl::installer::{jar_url_from_assets, ReleaseAsset};
use zed_bsl::installer::{
    detect_platform, fresh_settings, human_size, jar_url_from_release, jdk_archive_name,
    jdk_directory_name, settings_note, strip_comments, temurin_url,
};

#[test]
fn strip_comments_removes_full_line_comments() {
    let input = "{\n  // comment\n  \"key\": 1\n}";
    assert_eq!(strip_comments(input), "{\n  \"key\": 1\n}");
}

#[test]
fn strip_comments_preserves_inline_strings() {
    let input = r#"{"key": "value with // inside"}"#;
    assert_eq!(strip_comments(input), input);
}

#[test]
fn strip_comments_normalises_line_endings() {
    assert_eq!(strip_comments("a\r\n\t// x\r\nb\n"), "a\nb");
    assert_eq!(strip_comments(""), "");
    assert_eq!(strip_comments("// only"), "");
    assert_eq!(strip_comments("a\n\nb"), "a\n\nb");
}

#[test]
fn fresh_settings_is_valid_json() {
    let settings = fresh_settings("/usr/bin/java", "/tmp/test.jar");
    let parsed: serde_json::Value = serde_json::from_str(&settings).unwrap();
    assert_eq!(
        parsed["lsp"]["bsl"]["binary"]["path"].as_str().unwrap(),
        "/usr/bin/java"
    );
    assert_eq!(
        parsed["languages"]["BSL"]["language_servers"][0]
            .as_str()
            .unwrap(),
        "bsl"
    );
    assert_eq!(
        parsed["lsp"]["bsl"]["binary"]["arguments"][2].as_str().unwrap(),
        "/tmp/test.jar"
    );
}

#[test]
fn sizes_are_human_readable() {
    assert_eq!(human_size(0), "0 B");
    assert_eq!(human_size(1023), "1023 B");
    assert_eq!(human_size(1024), "1 KB");
    assert_eq!(human_size(5 * 1024 * 1024 + 7), "5 MB");
    assert_eq!(human_size(1024 * 1024 - 1), "1023 KB");
}

#[test]
fn platforms_map_to_temurin_names() {
    assert_eq!(detect_platform("linux", "x86_64"), Ok(("linux", "x64")));
    assert_eq!(detect_platform("macos", "aarch64"), Ok(("mac", "aarch64")));
    assert_eq!(
        detect_platform("windows", "x86_64"),
        Err("unsupported OS: windows".to_string())
    );
    assert_eq!(
        detect_platform("linux", "riscv64"),
        Err("unsupported architecture: riscv64".to_string())
    );
}

#[test]
fn temurin_names() {
    assert_eq!(
        temurin_url(21, "linux", "x64"),
        "https://api.adoptium.net/v3/binary/latest/21/ga/linux/x64/jdk/hotspot/normal/eclipse"
    );
    assert_eq!(jdk_directory_name(17), "jdk-17");
    assert_eq!(jdk_archive_name(21), "temurin-21.tar.gz");
}

#[test]
fn release_json_selects_the_jar() {
    let body = r#"{"assets": [
        {"name": "bsl-language-server-0.24.0-exec.jar", "browser_download_url": "https://x/exec"},
        {"name": "bsl-language-server.jar", "browser_download_url": "https://x/plain"}
    ]}"#;
    assert_eq!(jar_url_from_release(body), Ok("https://x/plain".to_string()));
    let body = r#"{"assets": [
        {"name": 3},
        {"name": "other.zip", "browser_download_url": "https://x/zip"},
        {"name": "bsl-language-server-0.24.0-exec.jar", "browser_download_url": "https://x/exec"}
    ]}"#;
    assert_eq!(jar_url_from_release(body), Ok("https://x/exec".to_string()));
}

#[test]
fn release_json_errors() {
    assert_eq!(
        jar_url_from_release(r#"{"tag": "v1"}"#),
        Err("no assets in release".to_string())
    );
    assert_eq!(
        jar_url_from_release(r#"{"assets": [{"name": "x.zip"}]}"#),
        Err("no jar asset found in release".to_string())
    );
    assert_eq!(
        jar_url_from_release(r#"{"assets": [{"name": "bsl-language-server.jar"}]}"#),
        Err("missing download URL".to_string())
    );
    assert!(jar_url_from_release("not json")
        .unwrap_err()
        .starts_with("failed to parse release JSON: "));
}

#[test]
fn asset_list_selection_and_errors() {
    let asset = |name: Option<&str>, url: Option<&str>| ReleaseAsset {
        name: name.map(String::from),
        download_url: url.map(String::from),
    };
    assert_eq!(
        jar_url_from_assets(Ok(Some(vec![
            asset(Some("x-exec.jar"), Some("u1")),
            asset(Some("bsl-language-server.jar"), Some("u2")),
        ]))),
        Ok("u2".to_string())
    );
    assert_eq!(
        jar_url_from_assets(Ok(Some(vec![asset(None, Some("u0")), asset(Some("x-exec.jar"), None)]))),
        Err("missing download URL".to_string())
    );
    assert_eq!(
        jar_url_from_assets(Ok(None)),
        Err("no assets in release".to_string())
    );
    assert_eq!(
        jar_url_from_assets(Err("EOF while parsing".to_string())),
        Err("failed to parse release JSON: EOF while parsing".to_string())
    );
    assert_eq!(
        jar_url_from_assets(Ok(Some(vec![]))),
        Err("no jar asset found in release".to_string())
    );
}

#[test]
fn settings_note_gives_the_block_to_add() {
    let note = settings_note("/home/u/settings.json", "EOF while parsing", "/usr/bin/java", "/tmp/a.jar");
    assert_eq!(
        note,
        "NOTE: /home/u/settings.json could not be parsed (EOF while parsing).\n\
         Add this block to it manually:\n\n\
         \"lsp\": { \"bsl\": { \"binary\": { \"path\": \"/usr/bin/java\", \
         \"arguments\": [\"-Xmx4g\", \"-jar\", \"/tmp/a.jar\"] } } },\n\
         \"languages\": { \"BSL\": { \"language_servers\": [\"bsl\"], \
         \"format_on_save\": \"off\" } }"
    );
    let block = &note[note.find("\"lsp\"").unwrap()..];
    let parsed: serde_json::Value = serde_json::from_str(&format!("{{{}}}", block)).unwrap();
    assert_eq!(parsed["lsp"]["bsl"]["binary"]["arguments"][2].as_str().unwrap(), "/tmp/a.jar");
}

#[test]
fn jdk_is_reused_only_at_the_wanted_version() {
    assert!(matches!(jdk_action(21, Some(21)), JdkAction::Reuse));
    assert!(matches!(jdk_action(21, Some(17)), JdkAction::Install));
    assert!(matches!(jdk_action(21, None), JdkAction::Install));
    assert_eq!(
        jdk_missing_message("/t/jdk-21/bin/java"),
        "JDK extraction failed: /t/jdk-21/bin/java not found"
    );
}

#[test]
fn release_assets_read_names_and_urls() {
    let text = |s: &str| SettingsJson::Text(s.to_string());
    let asset = SettingsJson::Object(vec![
        ("browser_download_url".to_string(), text("https://x/a")),
        ("name".to_string(), text("a.jar")),
    ]);
    let odd = SettingsJson::Object(vec![("name".to_string(), SettingsJson::Bool(true))]);
    let release = SettingsJson::Object(vec![(
        "assets".to_string(),
        SettingsJson::List(vec![asset, odd, SettingsJson::Null]),
    )]);
    let assets = release_assets(&release).expect("an assets array");
    assert_eq!(assets.len(), 3);
    assert_eq!(assets[0].name.as_deref(), Some("a.jar"));
    assert_eq!(assets[0].download_url.as_deref(), Some("https://x/a"));
    assert_eq!(assets[1].name, None);
    assert_eq!(assets[2].download_url, None);
    let not_a_list = SettingsJson::Object(vec![("assets".to_string(), text("none"))]);
    assert!(release_assets(&not_a_list).is_none());
    assert!(release_assets(&SettingsJson::List(vec![])).is_none());
}
