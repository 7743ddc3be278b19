use zed_bsl::version::{parse_output, parse_version};

#[test]
fn version_parses_versions() {
    assert_eq!(parse_version("21"), Some(21));
    assert_eq!(parse_version("21.0.2"), Some(21));
    assert_eq!(parse_version("17.0.1"), Some(17));
    assert_eq!(parse_version("1.8"), Some(8));
    assert_eq!(parse_version("25"), Some(25));
    assert_eq!(parse_version("unknown"), None);
}

#[test]
fn java_parses_versions() {
    assert_eq!(parse_version("21"), Some(21));
    assert_eq!(parse_version("21.0.2"), Some(21));
    assert_eq!(parse_version("17.0.1"), Some(17));
    assert_eq!(parse_version("1.8"), Some(8));
    assert_eq!(parse_version("25"), Some(25));
    assert_eq!(parse_version("unknown"), None);
}

#[test]
fn version_edge_cases() {
    assert_eq!(parse_version("  17  "), Some(17));
    assert_eq!(parse_version("+21"), Some(21));
    assert_eq!(parse_version("1."), None);
    assert_eq!(parse_version(""), None);
    assert_eq!(parse_version("4294967295"), Some(4294967295));
    assert_eq!(parse_version("4294967296"), None);
    assert_eq!(parse_version("-1"), None);
    assert_eq!(parse_version("1.x"), None);
}

#[test]
fn parses_probe_output() {
    let probe = "Property settings:\n    java.home = /usr/lib/jvm\n    java.specification.version = 21\n    java.version = 21.0.2\n\nopenjdk version \"21.0.2\"";
    assert_eq!(parse_output(probe), Some(21));
}

#[test]
fn parses_probe_output_with_crlf_and_legacy_version() {
    let probe = "java.specification.version=1.8\r\njava.vendor=x\r\n";
    assert_eq!(parse_output(probe), Some(8));
}

#[test]
fn probe_skips_unparseable_lines() {
    let probe = "java.specification.version\njava.specification.version = oops\njava.specification.version = 17 = extra\n";
    assert_eq!(parse_output(probe), Some(17));
    assert_eq!(parse_output("no version here"), None);
    assert_eq!(parse_output(""), None);
}
