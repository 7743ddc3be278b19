use zed_bsl::jar::manifest_text_version;
use zed_bsl::jar::BslJar;
use zed_bsl::zip::end_record_fits_in;

struct Entry<'a> {
    name: &'a str,
    data: Vec<u8>,
    method: u16,
}

fn push16(out: &mut Vec<u8>, v: u16) {
    out.extend_from_slice(&v.to_le_bytes());
}

fn push32(out: &mut Vec<u8>, v: u32) {
    out.extend_from_slice(&v.to_le_bytes());
}

fn stored<'a>(name: &'a str, data: &[u8]) -> Entry<'a> {
    Entry { name, data: data.to_vec(), method: 0 }
}

fn deflated<'a>(name: &'a str, data: &[u8]) -> Entry<'a> {
    Entry {
        name,
        data: miniz_oxide::deflate::compress_to_vec(data, 6),
        method: 8,
    }
}

fn archive(entries: &[Entry]) -> Vec<u8> {
    let mut out = Vec::new();
    let mut offsets = Vec::new();
    for entry in entries {
        offsets.push(out.len() as u32);
        push32(&mut out, 0x0403_4b50);
        push16(&mut out, 20);
        push16(&mut out, 0);
        push16(&mut out, entry.method);
        push16(&mut out, 0);
        push16(&mut out, 0);
        push32(&mut out, 0);
        push32(&mut out, entry.data.len() as u32);
        push32(&mut out, 0);
        push16(&mut out, entry.name.len() as u16);
        push16(&mut out, 0);
        out.extend_from_slice(entry.name.as_bytes());
        out.extend_from_slice(&entry.data);
    }
    let directory_offset = out.len() as u32;
    for (entry, offset) in entries.iter().zip(offsets) {
        push32(&mut out, 0x0201_4b50);
        push16(&mut out, 20);
        push16(&mut out, 20);
        push16(&mut out, 0);
        push16(&mut out, entry.method);
        push16(&mut out, 0);
        push16(&mut out, 0);
        push32(&mut out, 0);
        push32(&mut out, entry.data.len() as u32);
        push32(&mut out, 0);
        push16(&mut out, entry.name.len() as u16);
        push16(&mut out, 0);
        push16(&mut out, 0);
        push16(&mut out, 0);
        push16(&mut out, 0);
        push32(&mut out, 0);
        push32(&mut out, offset);
        out.extend_from_slice(entry.name.as_bytes());
    }
    let directory_size = out.len() as u32 - directory_offset;
    push32(&mut out, 0x0605_4b50);
    push16(&mut out, 0);
    push16(&mut out, 0);
    push16(&mut out, entries.len() as u16);
    push16(&mut out, entries.len() as u16);
    push32(&mut out, directory_size);
    push32(&mut out, directory_offset);
    push16(&mut out, 0);
    out
}

const MAIN_CLASS: &str =
    "BOOT-INF/classes/com/github/_1c_syntax/bsl/languageserver/MainApplication.class";

fn class_file(major: u16) -> Vec<u8> {
    let mut data = vec![0xCA, 0xFE, 0xBA, 0xBE, 0x00, 0x00];
    data.extend_from_slice(&major.to_be_bytes());
    data.extend_from_slice(&[0, 0, 0, 0]);
    data
}

fn required(bytes: Vec<u8>) -> Result<Option<u32>, String> {
    assert!(end_record_fits_in(&bytes));
    BslJar::new("/test.jar").java_version(bytes)
}

#[test]
fn jar_detects_version() {
    let bytes = archive(&[
        deflated(
            "META-INF/MANIFEST.MF",
            b"Manifest-Version: 1.0\nBuild-Jdk-Spec: 21\nMain-Class: org.springframework.boot.loader.launch.JarLauncher\n",
        ),
        deflated(MAIN_CLASS, &class_file(65)),
    ]);
    let required = BslJar::new("bsl-language-server.jar")
        .java_version(bytes)
        .unwrap();
    assert_eq!(required, Some(21), "the local jar is built for Java 21");
}

#[test]
fn main_class_version_wins() {
    let bytes = archive(&[
        stored("META-INF/MANIFEST.MF", b"Build-Jdk-Spec: 17\n"),
        stored(MAIN_CLASS, &class_file(65)),
    ]);
    assert_eq!(required(bytes), Ok(Some(21)));
}

#[test]
fn deflated_main_class_is_read() {
    let bytes = archive(&[deflated(MAIN_CLASS, &class_file(61))]);
    assert_eq!(required(bytes), Ok(Some(17)));
}

#[test]
fn old_class_falls_back_to_manifest() {
    let bytes = archive(&[
        stored(MAIN_CLASS, &class_file(48)),
        deflated(
            "META-INF/MANIFEST.MF",
            b"Manifest-Version: 1.0\r\nCreated-By: Maven\r\n Build-Jdk-Spec : 21 \r\n",
        ),
    ]);
    assert_eq!(required(bytes), Ok(Some(21)));
}

#[test]
fn manifest_below_minimum_is_ignored() {
    let bytes = archive(&[stored("META-INF/MANIFEST.MF", b"Build-Jdk-Spec: 11\n")]);
    assert_eq!(required(bytes), Ok(None));
}

#[test]
fn manifest_skips_unparseable_values() {
    let bytes = archive(&[stored(
        "META-INF/MANIFEST.MF",
        b"Build-Jdk-Spec: eleven\nBuild-Jdk-Spec: 22\n",
    )]);
    assert_eq!(required(bytes), Ok(Some(22)));
}

#[test]
fn bad_magic_is_not_a_version() {
    let mut class = class_file(65);
    class[0] = 0;
    let bytes = archive(&[stored(MAIN_CLASS, &class)]);
    assert_eq!(required(bytes), Ok(None));
}

#[test]
fn empty_archive_has_no_version() {
    assert_eq!(required(archive(&[])), Ok(None));
}

#[test]
fn missing_end_record_is_an_error() {
    assert_eq!(
        required(vec![1, 2, 3, 4, 5]),
        Err("invalid jar at /test.jar: end of central directory record not found".to_string())
    );
}

#[test]
fn unsupported_method_is_an_error() {
    let mut entry = stored(MAIN_CLASS, &class_file(65));
    entry.method = 12;
    let bytes = archive(&[entry]);
    assert_eq!(
        required(bytes),
        Err("unsupported zip compression method: 12".to_string())
    );
}

#[test]
fn broken_deflate_stream_is_an_error() {
    let entry = Entry {
        name: MAIN_CLASS,
        data: vec![0xFF, 0xFF, 0xFF],
        method: 8,
    };
    let result = required(archive(&[entry]));
    assert!(matches!(result, Err(ref m) if m.starts_with("failed to decompress zip entry: ")));
}

#[test]
fn manifest_text_is_read_line_by_line() {
    assert_eq!(manifest_text_version("Build-Jdk-Spec: 21"), Some(21));
    assert_eq!(manifest_text_version("A: b\r\n\tBuild-Jdk-Spec\u{a0}:\u{2003}17\r\n"), Some(17));
    assert_eq!(manifest_text_version("Build-Jdk-Spec 21\nBuild-Jdk-Spec: +19"), Some(19));
    assert_eq!(manifest_text_version("Build-Jdk: 21"), None);
    assert_eq!(manifest_text_version(""), None);
}
