use kinetic_atlas::error::AtlasError;
use kinetic_atlas::updater::{download_url, output_dir_failed, record_download, Backoff, DownloadOutcome, GitHubContent};

fn item(name: &str, url: Option<&str>, t: &str) -> GitHubContent {
    GitHubContent { name: name.to_string(), download_url: url.map(|u| u.to_string()), item_type: t.to_string() }
}

#[test]
fn only_json_files_are_fetched() {
    assert_eq!(download_url(&item("kin.json", Some("https://x/kin.json"), "file")), Some("https://x/kin.json".to_string()));
    assert_eq!(download_url(&item("kin.json", None, "file")), None);
    assert_eq!(download_url(&item("kin.json", Some("u"), "dir")), None);
    assert_eq!(download_url(&item("README.md", Some("u"), "file")), None);
    assert_eq!(download_url(&item(".json", Some("u"), "file")), Some("u".to_string()));
}

#[test]
fn downloads_are_counted() {
    assert_eq!(record_download(3, "kin.json", DownloadOutcome::Written).unwrap(), 4);
    assert_eq!(record_download(3, "kin.json", DownloadOutcome::BodyUnreadable).unwrap(), 3);
    assert_eq!(
        record_download(3, "kin.json", DownloadOutcome::RequestFailed("timeout".to_string())).unwrap_err(),
        AtlasError::UpdaterFailed("timeout".to_string())
    );
    assert_eq!(
        record_download(3, "kin.json", DownloadOutcome::StatusFailed("404".to_string())).unwrap_err(),
        AtlasError::UpdaterFailed("404".to_string())
    );
    assert_eq!(
        record_download(3, "kin.json", DownloadOutcome::WriteFailed("disk full".to_string())).unwrap_err(),
        AtlasError::UpdaterFailed("Failed to write file kin.json: disk full".to_string())
    );
    assert_eq!(
        output_dir_failed("/n", "denied"),
        AtlasError::UpdaterFailed("Failed to create output directory /n: denied".to_string())
    );
}

#[test]
fn backoff_doubles_up_to_a_day() {
    let mut b = Backoff::new();
    let waits: Vec<u64> = (0..7).map(|_| b.on_failure()).collect();
    assert_eq!(waits, vec![3600, 7200, 14400, 28800, 57600, 86400, 86400]);
    assert_eq!(b.on_success(), 86400);
    assert_eq!(b.on_failure(), 3600);
}

#[test]
fn backoff_run_resets_after_a_success() {
    let mut b = Backoff::new();
    let run = [false, false, true, false, false, false, false, false, false, false, true, false];
    let waits: Vec<u64> = run.iter().map(|ok| if *ok { b.on_success() } else { b.on_failure() }).collect();
    assert_eq!(
        waits,
        vec![3600, 7200, 86400, 3600, 7200, 14400, 28800, 57600, 86400, 86400, 86400, 3600]
    );
}
