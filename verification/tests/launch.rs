use zed_bsl::extension::BslExtension;
use zed_bsl::launch::{LaunchEvent, LaunchPlan, LaunchStep, Stage};

const MAIN_CLASS: &str =
    "BOOT-INF/classes/com/github/_1c_syntax/bsl/languageserver/MainApplication.class";

fn stored_archive(name: &str, data: &[u8]) -> Vec<u8> {
    let mut out = Vec::new();
    out.extend_from_slice(&0x0403_4b50u32.to_le_bytes());
    out.extend_from_slice(&[0u8; 22]);
    out.extend_from_slice(&(name.len() as u16).to_le_bytes());
    out.extend_from_slice(&0u16.to_le_bytes());
    out.extend_from_slice(name.as_bytes());
    out.extend_from_slice(data);
    let directory_offset = out.len() as u32;
    out.extend_from_slice(&0x0201_4b50u32.to_le_bytes());
    let mut header = [0u8; 42];
    header[16..20].copy_from_slice(&(data.len() as u32).to_le_bytes());
    header[24..26].copy_from_slice(&(name.len() as u16).to_le_bytes());
    out.extend_from_slice(&header);
    out.extend_from_slice(name.as_bytes());
    let directory_size = out.len() as u32 - directory_offset;
    out.extend_from_slice(&0x0605_4b50u32.to_le_bytes());
    out.extend_from_slice(&[0, 0, 0, 0, 1, 0, 1, 0]);
    out.extend_from_slice(&directory_size.to_le_bytes());
    out.extend_from_slice(&directory_offset.to_le_bytes());
    out.extend_from_slice(&[0, 0]);
    out
}

fn jar_for_java(major_java: u16) -> Vec<u8> {
    let mut class = vec![0xCA, 0xFE, 0xBA, 0xBE, 0, 0];
    class.extend_from_slice(&(major_java + 44).to_be_bytes());
    stored_archive(MAIN_CLASS, &class)
}

fn env() -> Vec<(String, String)> {
    vec![
        ("HOME".to_string(), "/home/u".to_string()),
        ("BSL_LANGUAGE_SERVER_JAVA_OPTS".to_string(), "-Xmx2g".to_string()),
    ]
}

fn reach_jar(extension: &mut BslExtension, plan: &mut LaunchPlan, present: Vec<bool>) -> LaunchStep {
    let step = plan.advance(extension, LaunchEvent::Settings(None));
    assert!(matches!(step, LaunchStep::LocateJava));
    let step = plan.advance(extension, LaunchEvent::JavaLocated(Some("/usr/bin/java".to_string())));
    assert!(matches!(step, LaunchStep::FindExtensionDir));
    let step = plan.advance(extension, LaunchEvent::ExtensionDir(Ok("/ext".to_string())));
    match &step {
        LaunchStep::CheckCandidates(paths) => assert_eq!(
            paths,
            &vec![
                "/home/u/.local/lib/bsl-language-server/bsl-language-server.jar".to_string(),
                "/ext/binaries/bsl-language-server.jar".to_string()
            ]
        ),
        _ => panic!("expected a candidate check"),
    }
    plan.advance(extension, LaunchEvent::CandidatesChecked(present))
}

#[test]
fn missing_jar_is_not_downloaded() {
    let mut extension = BslExtension::new();
    let (mut plan, step) = LaunchPlan::start(&env());
    assert!(matches!(step, LaunchStep::ReadSettings));
    let step = reach_jar(&mut extension, &mut plan, vec![false, false]);
    match step {
        LaunchStep::Finish(Err(message)) => assert_eq!(
            message,
            "`bsl-language-server.jar` was not found; expected it at one of: \
             /home/u/.local/lib/bsl-language-server/bsl-language-server.jar, \
             /ext/binaries/bsl-language-server.jar"
        ),
        _ => panic!("expected a missing jar error"),
    }
    assert!(plan.stage() == Stage::Done);
}

#[test]
fn probes_and_launches() {
    let mut extension = BslExtension::new();
    let (mut plan, _) = LaunchPlan::start(&env());
    let step = reach_jar(&mut extension, &mut plan, vec![false, true]);
    match &step {
        LaunchStep::ReadJar(path) => assert_eq!(path, "/ext/binaries/bsl-language-server.jar"),
        _ => panic!("expected a jar read"),
    }
    let step = plan.advance(&mut extension, LaunchEvent::JarRead(Ok(jar_for_java(21))));
    match &step {
        LaunchStep::ProbeJava(path) => assert_eq!(path, "/usr/bin/java"),
        _ => panic!("expected a probe"),
    }
    let step = plan.advance(
        &mut extension,
        LaunchEvent::JavaProbed(Ok("    java.specification.version = 21\n".to_string())),
    );
    match step {
        LaunchStep::Finish(Ok(command)) => {
            assert_eq!(command.command, "/usr/bin/java");
            assert_eq!(
                command.args,
                vec![
                    "-Xmx2g".to_string(),
                    "-jar".to_string(),
                    "/ext/binaries/bsl-language-server.jar".to_string()
                ]
            );
        }
        _ => panic!("expected a command"),
    }
    assert!(plan.stage() == Stage::Done);

    let (mut plan, _) = LaunchPlan::start(&env());
    let step = reach_jar(&mut extension, &mut plan, vec![true, false]);
    match &step {
        LaunchStep::ReadJar(path) => assert_eq!(
            path,
            "/home/u/.local/lib/bsl-language-server/bsl-language-server.jar"
        ),
        _ => panic!("expected a jar read"),
    }
    let step = plan.advance(&mut extension, LaunchEvent::JarRead(Ok(jar_for_java(25))));
    match step {
        LaunchStep::Finish(Err(message)) => assert_eq!(
            message,
            "bsl-language-server requires Java 25 or newer, but the Java runtime at `/usr/bin/java` is version 21. Please install Java 25 (e.g. Temurin OpenJDK) and make sure it is on your `PATH`."
        ),
        _ => panic!("expected the cached version to be compared"),
    }
}

#[test]
fn configured_binary_wins() {
    let mut extension = BslExtension::new();
    let (mut plan, _) = LaunchPlan::start(&[]);
    let command = BslExtension::binary_command(Some("my-bsl".to_string()), None, None);
    match plan.advance(&mut extension, LaunchEvent::Settings(command)) {
        LaunchStep::Finish(Ok(command)) => assert_eq!(command.command, "my-bsl"),
        _ => panic!("expected the configured command"),
    }
    assert!(!plan.accepts(&LaunchEvent::Reported));
}

#[test]
fn missing_java_and_failed_probe() {
    let mut extension = BslExtension::new();
    let (mut plan, _) = LaunchPlan::start(&[]);
    plan.advance(&mut extension, LaunchEvent::Settings(None));
    match plan.advance(&mut extension, LaunchEvent::JavaLocated(None)) {
        LaunchStep::Finish(Err(message)) => assert!(message.contains("`java` was not found")),
        _ => panic!("expected an error"),
    }

    let (mut plan, _) = LaunchPlan::start(&[]);
    plan.advance(&mut extension, LaunchEvent::Settings(None));
    plan.advance(&mut extension, LaunchEvent::JavaLocated(Some("/j".to_string())));
    plan.advance(&mut extension, LaunchEvent::ExtensionDir(Ok("/ext".to_string())));
    plan.advance(&mut extension, LaunchEvent::CandidatesChecked(vec![true]));
    let manifest_only = stored_archive("META-INF/MANIFEST.MF", b"Main-Class: x\n");
    match plan.advance(&mut extension, LaunchEvent::JarRead(Ok(manifest_only))) {
        LaunchStep::Report(message) => assert_eq!(
            message,
            "Failed to determine the required Java version from the downloaded jar"
        ),
        _ => panic!("expected a report"),
    }
    assert!(plan.accepts(&LaunchEvent::Reported));
    assert!(matches!(
        plan.advance(&mut extension, LaunchEvent::Reported),
        LaunchStep::ProbeJava(_)
    ));
    match plan.advance(&mut extension, LaunchEvent::JavaProbed(Ok("garbage".to_string()))) {
        LaunchStep::Report(message) => assert_eq!(
            message,
            "Failed to determine the installed Java version from `/j`"
        ),
        _ => panic!("expected a report"),
    }
    match plan.advance(&mut extension, LaunchEvent::Reported) {
        LaunchStep::Finish(Err(message)) => assert_eq!(
            message,
            "failed to determine the installed Java version from `java` at /j"
        ),
        _ => panic!("expected an error"),
    }
}

#[test]
fn extension_dir_and_jar_errors() {
    let mut extension = BslExtension::new();
    let (mut plan, _) = LaunchPlan::start(&[]);
    plan.advance(&mut extension, LaunchEvent::Settings(None));
    plan.advance(&mut extension, LaunchEvent::JavaLocated(Some("/j".to_string())));
    match plan.advance(&mut extension, LaunchEvent::ExtensionDir(Err("gone".to_string()))) {
        LaunchStep::Finish(Err(message)) => {
            assert_eq!(message, "failed to determine the extension directory: gone")
        }
        _ => panic!("expected an error"),
    }

    let (mut plan, _) = LaunchPlan::start(&[]);
    plan.advance(&mut extension, LaunchEvent::Settings(None));
    plan.advance(&mut extension, LaunchEvent::JavaLocated(Some("/j".to_string())));
    plan.advance(&mut extension, LaunchEvent::ExtensionDir(Ok("/ext".to_string())));
    plan.advance(&mut extension, LaunchEvent::CandidatesChecked(vec![true]));
    let mut cut = vec![0u8; 4];
    cut.extend_from_slice(&0x0605_4b50u32.to_le_bytes());
    cut.extend_from_slice(&[0, 0, 0, 0, 0, 0]);
    match plan.advance(&mut extension, LaunchEvent::JarRead(Ok(cut))) {
        LaunchStep::Crash(message) => assert_eq!(
            message,
            "invalid jar at /ext/binaries/bsl-language-server.jar: the end of central directory record is cut off"
        ),
        _ => panic!("expected a crash"),
    }
}

#[test]
fn failed_probe_caches_nothing() {
    let mut extension = BslExtension::new();
    let (mut plan, _) = LaunchPlan::start(&[]);
    plan.advance(&mut extension, LaunchEvent::Settings(None));
    plan.advance(&mut extension, LaunchEvent::JavaLocated(Some("/j".to_string())));
    plan.advance(&mut extension, LaunchEvent::ExtensionDir(Ok("/ext".to_string())));
    plan.advance(&mut extension, LaunchEvent::CandidatesChecked(vec![true]));
    plan.advance(&mut extension, LaunchEvent::JarRead(Ok(jar_for_java(17))));
    plan.advance(&mut extension, LaunchEvent::JavaProbed(Err("failed to run `/j -version`: no such file".to_string())));
    assert_eq!(extension.remembered_version("/j"), None);
    match plan.advance(&mut extension, LaunchEvent::Reported) {
        LaunchStep::Finish(Err(message)) => {
            assert_eq!(message, "failed to run `/j -version`: no such file")
        }
        _ => panic!("expected the probe error"),
    }
    assert_eq!(extension.runtime_for("/j").path(), "/j");
}
