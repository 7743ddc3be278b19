use zed_bsl::java::{probe_output_text, JavaRuntime};

#[test]
fn probe_text_joins_stderr_then_stdout() {
    let text = probe_output_text(b"    java.specification.version = 17\n", b"openjdk 17.0.2");
    assert_eq!(text, "    java.specification.version = 17\n\nopenjdk 17.0.2");
    let mut runtime = JavaRuntime::new("/usr/bin/java");
    assert_eq!(runtime.version_from_probe(&text), Ok(17));
}

#[test]
fn probe_text_replaces_invalid_utf8() {
    let text = probe_output_text(&[0x66, 0xFF, 0x6F], b"");
    assert_eq!(text, "f\u{FFFD}o\n");
}

#[test]
fn probe_without_version_is_an_error() {
    let mut runtime = JavaRuntime::new("/opt/jdk/bin/java");
    let text = probe_output_text(b"Error: could not create the Java Virtual Machine.", b"");
    assert_eq!(
        runtime.version_from_probe(&text),
        Err("failed to determine the installed Java version from `java` at /opt/jdk/bin/java".to_string())
    );
    assert_eq!(runtime.cached_version(), None);
}

#[test]
fn probes_keep_the_path_and_the_last_version() {
    let mut runtime = JavaRuntime::new("/usr/bin/java");
    assert_eq!(runtime.version_from_probe("java.specification.version = 17"), Ok(17));
    assert!(runtime.version_from_probe("nothing here").is_err());
    assert_eq!(runtime.path(), "/usr/bin/java");
    assert_eq!(runtime.cached_version(), Some(17));
    assert_eq!(runtime.version_from_probe("java.specification.version = 21"), Ok(21));
    assert_eq!(runtime.cached_version(), Some(21));
    assert_eq!(runtime.path(), "/usr/bin/java");
}
