use zed_bsl::download::{DownloadEvent, DownloadPlan, DownloadStage, DownloadStep, InstallStatus};

const DESTINATION: &str = "/ext/binaries/bsl-language-server.jar";

fn assets(names: &[&str]) -> Vec<(String, String)> {
    names
        .iter()
        .map(|name| (name.to_string(), format!("https://example.test/{}", name)))
        .collect()
}

fn fetched(names: &[&str]) -> DownloadEvent {
    DownloadEvent::ReleaseFetched(Ok(("v0.24.0".to_string(), assets(names))))
}

fn reach_release(plan: &mut DownloadPlan) {
    assert_eq!(plan.stage(), DownloadStage::CheckingReported);
    let step = plan.advance(DownloadEvent::Reported);
    assert!(matches!(step, DownloadStep::FetchRelease));
    assert_eq!(plan.stage(), DownloadStage::Release);
}

#[test]
fn download_creates_directory_then_downloads() {
    let (mut plan, step) = DownloadPlan::start(DESTINATION, Some("/ext/binaries".to_string()));
    assert!(matches!(step, DownloadStep::Report(InstallStatus::CheckingForUpdate)));
    reach_release(&mut plan);
    let step = plan.advance(fetched(&["sources.zip", "bsl-language-server.jar"]));
    match step {
        DownloadStep::CreateDirectory(path) => assert_eq!(path, "/ext/binaries"),
        _ => panic!("expected the directory to be created"),
    }
    let step = plan.advance(DownloadEvent::DirectoryCreated(Ok(())));
    assert!(matches!(step, DownloadStep::Report(InstallStatus::Downloading)));
    let step = plan.advance(DownloadEvent::Reported);
    match step {
        DownloadStep::DownloadFile(url, path) => {
            assert_eq!(url, "https://example.test/bsl-language-server.jar");
            assert_eq!(path, DESTINATION);
        }
        _ => panic!("expected the file download"),
    }
    let step = plan.advance(DownloadEvent::FileDownloaded(Ok(())));
    assert!(matches!(step, DownloadStep::Finish(Ok(()))));
    assert_eq!(plan.stage(), DownloadStage::Done);
}

#[test]
fn download_falls_back_to_exec_jar_without_directory() {
    let (mut plan, _) = DownloadPlan::start("bsl-language-server.jar", None);
    reach_release(&mut plan);
    let step = plan.advance(fetched(&["bsl-language-server-0.24.0-exec.jar", "notes.txt"]));
    assert!(matches!(step, DownloadStep::Report(InstallStatus::Downloading)));
    let step = plan.advance(DownloadEvent::Reported);
    match step {
        DownloadStep::DownloadFile(url, _) => {
            assert_eq!(url, "https://example.test/bsl-language-server-0.24.0-exec.jar")
        }
        _ => panic!("expected the file download"),
    }
}

#[test]
fn download_reports_missing_asset() {
    let (mut plan, _) = DownloadPlan::start(DESTINATION, Some("/ext/binaries".to_string()));
    reach_release(&mut plan);
    let step = plan.advance(fetched(&["sources.zip"]));
    match step {
        DownloadStep::Finish(Err(message)) => assert_eq!(
            message,
            "no `bsl-language-server.jar` or `*-exec.jar` asset found in release v0.24.0 of 1c-syntax/bsl-language-server"
        ),
        _ => panic!("expected a missing asset error"),
    }
    assert_eq!(plan.stage(), DownloadStage::Done);
}

#[test]
fn download_passes_release_error_through() {
    let (mut plan, _) = DownloadPlan::start(DESTINATION, None);
    reach_release(&mut plan);
    let step = plan.advance(DownloadEvent::ReleaseFetched(Err("rate limited".to_string())));
    match step {
        DownloadStep::Finish(Err(message)) => assert_eq!(message, "rate limited"),
        _ => panic!("expected the release error"),
    }
}

#[test]
fn download_reports_directory_error() {
    let (mut plan, _) = DownloadPlan::start(DESTINATION, Some("/ext/binaries".to_string()));
    reach_release(&mut plan);
    plan.advance(fetched(&["bsl-language-server.jar"]));
    let step = plan.advance(DownloadEvent::DirectoryCreated(Err("permission denied".to_string())));
    match step {
        DownloadStep::Finish(Err(message)) => {
            assert_eq!(message, "failed to create /ext/binaries directory: permission denied")
        }
        _ => panic!("expected a directory error"),
    }
}

#[test]
fn download_failure_is_reported_then_returned() {
    let (mut plan, _) = DownloadPlan::start(DESTINATION, None);
    reach_release(&mut plan);
    plan.advance(fetched(&["bsl-language-server.jar"]));
    plan.advance(DownloadEvent::Reported);
    let step = plan.advance(DownloadEvent::FileDownloaded(Err("timeout".to_string())));
    match step {
        DownloadStep::Report(InstallStatus::Failed(status)) => {
            assert_eq!(status, "Failed to download bsl-language-server.jar: timeout")
        }
        _ => panic!("expected a failure report"),
    }
    assert!(plan.accepts(&DownloadEvent::Reported));
    assert!(!plan.accepts(&DownloadEvent::FileDownloaded(Ok(()))));
    let step = plan.advance(DownloadEvent::Reported);
    match step {
        DownloadStep::Finish(Err(message)) => {
            assert_eq!(message, "failed to download bsl-language-server.jar: timeout")
        }
        _ => panic!("expected the download error"),
    }
    assert!(!plan.accepts(&DownloadEvent::Reported));
}
