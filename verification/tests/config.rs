use zed_bsl::config::JvmOptions;
use zed_bsl::constants::JAVA_OPTIONS_ENV;

#[test]
fn uses_default() {
    let options = JvmOptions::from_env(&[]);
    assert_eq!(options.to_args(), vec!["-Xmx4g".to_string()]);
}

#[test]
fn parses_override() {
    let env_vars = vec![(
        JAVA_OPTIONS_ENV.to_string(),
        "-Xmx2g -Xss4m".to_string(),
    )];
    let options = JvmOptions::from_env(&env_vars);
    assert_eq!(
        options.to_args(),
        vec!["-Xmx2g".to_string(), "-Xss4m".to_string()]
    );
}

#[test]
fn override_splits_on_any_whitespace() {
    let env_vars = vec![(
        JAVA_OPTIONS_ENV.to_string(),
        "  -Xmx1g\t-Dfile.encoding=UTF-8 \n -Xss2m\u{3000}".to_string(),
    )];
    let options = JvmOptions::from_env(&env_vars);
    assert_eq!(
        options.to_args(),
        vec![
            "-Xmx1g".to_string(),
            "-Dfile.encoding=UTF-8".to_string(),
            "-Xss2m".to_string()
        ]
    );
}

#[test]
fn empty_override_gives_no_flags() {
    let env_vars = vec![(JAVA_OPTIONS_ENV.to_string(), "   ".to_string())];
    let options = JvmOptions::from_env(&env_vars);
    assert!(options.to_args().is_empty());
}

#[test]
fn first_matching_variable_wins() {
    let env_vars = vec![
        ("OTHER".to_string(), "-Xmx8g".to_string()),
        (JAVA_OPTIONS_ENV.to_string(), "-Xmx1g".to_string()),
        (JAVA_OPTIONS_ENV.to_string(), "-Xmx2g".to_string()),
    ];
    assert_eq!(
        JvmOptions::from_env(&env_vars).to_args(),
        vec!["-Xmx1g".to_string()]
    );
    assert_eq!(
        zed_bsl::shell_env::value(&env_vars, "OTHER"),
        Some("-Xmx8g".to_string())
    );
    assert_eq!(zed_bsl::shell_env::value(&env_vars, "MISSING"), None);
}
