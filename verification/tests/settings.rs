use zed_bsl::settings::{merge_settings, settings_update, SettingsAction, SettingsJson};

fn text(s: &str) -> SettingsJson {
    SettingsJson::Text(s.to_string())
}

fn member<'a>(v: &'a SettingsJson, key: &str) -> &'a SettingsJson {
    match v {
        SettingsJson::Object(members) => {
            &members.iter().find(|(k, _)| k == key).expect("member present").1
        }
        _ => panic!("expected an object"),
    }
}

fn as_text(v: &SettingsJson) -> &str {
    match v {
        SettingsJson::Text(t) => t,
        _ => panic!("expected text"),
    }
}

fn written(action: Result<SettingsAction, String>) -> String {
    match action {
        Ok(SettingsAction::Write(t)) => t,
        _ => panic!("expected settings to write"),
    }
}

#[test]
fn merge_sets_the_server_and_keeps_the_rest() {
    let existing = SettingsJson::Object(vec![
        ("theme".to_string(), text("One Dark")),
        (
            "lsp".to_string(),
            SettingsJson::Object(vec![("rust-analyzer".to_string(), SettingsJson::Bool(true))]),
        ),
        ("languages".to_string(), SettingsJson::Null),
    ]);
    let merged = merge_settings(existing, "/usr/bin/java", "/opt/bsl.jar").expect("mergeable");
    assert_eq!(as_text(member(&merged, "theme")), "One Dark");
    let lsp = member(&merged, "lsp");
    assert!(matches!(member(lsp, "rust-analyzer"), SettingsJson::Bool(true)));
    let binary = member(member(lsp, "bsl"), "binary");
    assert_eq!(as_text(member(binary, "path")), "/usr/bin/java");
    match member(binary, "arguments") {
        SettingsJson::List(items) => {
            let args: Vec<&str> = items.iter().map(as_text).collect();
            assert_eq!(args, vec!["-Xmx4g", "-jar", "/opt/bsl.jar"]);
        }
        _ => panic!("expected a list"),
    }
    let bsl = member(member(&merged, "languages"), "BSL");
    assert_eq!(as_text(member(bsl, "format_on_save")), "off");
}

#[test]
fn merge_refuses_a_non_object_on_the_way() {
    let existing = SettingsJson::Object(vec![("lsp".to_string(), SettingsJson::List(vec![]))]);
    assert!(merge_settings(existing, "java", "bsl.jar").is_none());
    let existing = SettingsJson::Object(vec![(
        "languages".to_string(),
        SettingsJson::Object(vec![("BSL".to_string(), text("x"))]),
    )]);
    assert!(merge_settings(existing, "java", "bsl.jar").is_none());
    assert!(merge_settings(SettingsJson::Bool(false), "java", "bsl.jar").is_none());
    assert!(merge_settings(SettingsJson::Null, "java", "bsl.jar").is_some());
}

#[test]
fn update_writes_fresh_settings_for_a_missing_file() {
    let out = written(settings_update(None, "/s.json", "/usr/bin/java", "/tmp/test.jar"));
    let parsed: serde_json::Value = serde_json::from_str(&out).unwrap();
    assert_eq!(parsed["lsp"]["bsl"]["binary"]["path"], "/usr/bin/java");
}

#[test]
fn update_merges_existing_settings() {
    let existing = "{\n  // my settings\n  \"theme\": \"Ayu\",\n  \"buffer_font_size\": 15,\n  \"lsp\": { \"bsl\": { \"binary\": { \"path\": \"old\" } } }\n}";
    let out = written(settings_update(Some(existing), "/s.json", "/usr/bin/java", "/tmp/a.jar"));
    let parsed: serde_json::Value = serde_json::from_str(&out).unwrap();
    assert_eq!(parsed["theme"], "Ayu");
    assert_eq!(parsed["buffer_font_size"], 15);
    assert_eq!(parsed["lsp"]["bsl"]["binary"]["path"], "/usr/bin/java");
    assert_eq!(
        parsed["lsp"]["bsl"]["binary"]["arguments"],
        serde_json::Value::Array(vec!["-Xmx4g".into(), "-jar".into(), "/tmp/a.jar".into()])
    );
    assert_eq!(parsed["languages"]["BSL"]["language_servers"][0], "bsl");
    assert_eq!(parsed["languages"]["BSL"]["format_on_save"], "off");
    assert!(out.starts_with("{\n  \""));
}

#[test]
fn update_keeps_numbers_as_written_by_serde() {
    let out = written(settings_update(Some("{\"ui_font_size\": 16.5, \"n\": -3}"), "/s", "j", "b"));
    let parsed: serde_json::Value = serde_json::from_str(&out).unwrap();
    assert_eq!(parsed["ui_font_size"], 16.5);
    assert_eq!(parsed["n"], -3);
}

#[test]
fn update_gives_a_note_for_unparsable_settings() {
    match settings_update(Some("{ \"theme\": "), "/s.json", "/usr/bin/java", "/tmp/a.jar") {
        Ok(SettingsAction::Note(note)) => {
            assert!(note.starts_with("NOTE: /s.json could not be parsed ("));
            assert!(note.contains("\"path\": \"/usr/bin/java\""));
        }
        _ => panic!("expected a note"),
    }
}

#[test]
fn update_reports_blocked_settings() {
    assert!(matches!(
        settings_update(Some("{\"lsp\": 3}"), "/s.json", "j", "b"),
        Ok(SettingsAction::Blocked)
    ));
    assert!(matches!(
        settings_update(Some("[1, 2]"), "/s.json", "j", "b"),
        Ok(SettingsAction::Blocked)
    ));
}
