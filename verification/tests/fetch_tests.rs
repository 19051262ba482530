use russimp_build::error::BuildError;
use russimp_build::fetch::{
    archive_file_name, cache_lookup, download_outcome, download_url, fetch_step, plan_fetch,
    FetchAction,
};

#[test]
fn download_outcome_classifies_status() {
    assert_eq!(download_outcome(Some(200)), Ok(()));
    assert_eq!(download_outcome(Some(204)), Ok(()));
    assert_eq!(download_outcome(Some(404)), Err(BuildError::Download(Some(404))));
    assert_eq!(download_outcome(Some(500)), Err(BuildError::Download(Some(500))));
    assert_eq!(download_outcome(None), Err(BuildError::Download(None)));
}

#[test]
fn archive_file_name_exact() {
    assert_eq!(
        archive_file_name("russimp", "1.2.3", "x86_64-unknown-linux-gnu", "static"),
        "russimp-1.2.3-x86_64-unknown-linux-gnu-static.tar.gz"
    );
}

#[test]
fn download_url_exact() {
    assert_eq!(
        download_url(
            "https://example.com/releases/download",
            "1.2.3",
            "russimp-1.2.3-x86_64-unknown-linux-gnu-static.tar.gz"
        ),
        "https://example.com/releases/download/v1.2.3/\
         russimp-1.2.3-x86_64-unknown-linux-gnu-static.tar.gz"
    );
}

#[test]
fn plan_fetch_uses_cache_when_present() {
    assert_eq!(plan_fetch(true), FetchAction::UseCached);
    assert_eq!(plan_fetch(false), FetchAction::Download);
}

#[test]
fn cache_lookup_by_name() {
    let cache = vec!["a.tar.gz".to_string(), "b.tar.gz".to_string()];
    assert!(cache_lookup(&cache, "a.tar.gz"));
    assert!(cache_lookup(&cache, "b.tar.gz"));
    assert!(!cache_lookup(&cache, "c.tar.gz"));
}

#[test]
fn second_fetch_downloads_nothing() {
    // cache-hit idempotence: a first fetch of a missing file downloads
    // and fills the cache; the second fetch of the same file does not
    let mut cache: Vec<String> = Vec::new();
    let first = fetch_step(&mut cache, "russimp-1.2.3-x86_64-unknown-linux-gnu-static.tar.gz");
    assert!(first);
    let second = fetch_step(&mut cache, "russimp-1.2.3-x86_64-unknown-linux-gnu-static.tar.gz");
    assert!(!second);
}

#[test]
fn fetch_into_populated_cache_downloads_nothing() {
    let mut cache = vec!["present.tar.gz".to_string()];
    assert!(!fetch_step(&mut cache, "present.tar.gz"));
    assert_eq!(cache.len(), 1);
}
