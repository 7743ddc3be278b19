use zed_bsl::download::BslJarDownloader;
use zed_bsl::extension::{required_version, BslExtension};
use zed_bsl::java::JavaRuntime;

#[test]
fn runtime_is_reused_for_the_same_path() {
    let mut extension = BslExtension::new();
    {
        let runtime = extension.runtime_for("/usr/bin/java");
        assert_eq!(runtime.path(), "/usr/bin/java");
        assert_eq!(runtime.cached_version(), None);
        assert_eq!(
            runtime.version_from_probe("java.specification.version = 21\n"),
            Ok(21)
        );
    }
    assert_eq!(extension.runtime_for("/usr/bin/java").cached_version(), Some(21));
    let other = extension.runtime_for("/opt/java/bin/java");
    assert_eq!(other.path(), "/opt/java/bin/java");
    assert_eq!(other.cached_version(), None);
}

#[test]
fn unknown_probe_is_an_error() {
    let mut runtime = JavaRuntime::new("/usr/bin/java");
    assert_eq!(
        runtime.version_from_probe("nothing useful"),
        Err("failed to determine the installed Java version from `java` at /usr/bin/java".to_string())
    );
    assert_eq!(runtime.cached_version(), None);
}

#[test]
fn missing_java_message() {
    let message = JavaRuntime::missing_message();
    assert!(message.starts_with(
        "A Java runtime is required to run the official bsl-language-server (a Java application), but `java` was not found on your PATH."
    ));
    assert!(message.ends_with("https://adoptium.net) and try again."));
}

#[test]
fn launch_command_checks_the_java_version() {
    let env = vec![(
        "BSL_LANGUAGE_SERVER_JAVA_OPTS".to_string(),
        "-Xmx1g".to_string(),
    )];
    let command = BslExtension::launch_command("/usr/bin/java", &env, "/x.jar", 21, 21).unwrap();
    assert_eq!(command.command, "/usr/bin/java");
    assert_eq!(
        command.args,
        vec!["-Xmx1g".to_string(), "-jar".to_string(), "/x.jar".to_string()]
    );
    assert!(command.env.is_empty());
    let error = BslExtension::launch_command("/usr/bin/java", &[], "/x.jar", 21, 17)
        .err()
        .unwrap();
    assert_eq!(
        error,
        "bsl-language-server requires Java 21 or newer, but the Java runtime at `/usr/bin/java` is version 17. Please install Java 21 (e.g. Temurin OpenJDK) and make sure it is on your `PATH`."
    );
    assert_eq!(required_version(None), 17);
    assert_eq!(required_version(Some(21)), 21);
}

#[test]
fn binary_settings_need_a_path() {
    assert!(BslExtension::binary_command(None, Some(vec!["a".to_string()]), None).is_none());
    let command = BslExtension::binary_command(Some("java".to_string()), None, None).unwrap();
    assert_eq!(command.command, "java");
    assert!(command.args.is_empty());
    assert!(command.env.is_empty());
}

#[test]
fn asset_selection_prefers_the_plain_jar() {
    let names = vec![
        Some("bsl-language-server-1.0-exec.jar".to_string()),
        None,
        Some("bsl-language-server.jar".to_string()),
    ];
    assert_eq!(BslJarDownloader::select_asset(&names), Some(2));
    let names = vec![Some("notes.txt".to_string()), Some("a-exec.jar".to_string())];
    assert_eq!(BslJarDownloader::select_asset(&names), Some(1));
    assert_eq!(BslJarDownloader::select_asset(&[]), None);
    assert_eq!(
        BslJarDownloader::missing_asset_message("v1.2"),
        "no `bsl-language-server.jar` or `*-exec.jar` asset found in release v1.2 of 1c-syntax/bsl-language-server"
    );
}
