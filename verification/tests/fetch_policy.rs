use yts::fetch::plan_after_probe;
use yts::fetch::settle_cache_read;
use yts::fetch::settle_download;
use yts::fetch::CacheProbe;
use yts::fetch::FetchAction;
use yts::fetch::FetchError;
use yts::fetch::FETCH_TIMEOUT_SECS;

/// A front end around the policy that counts how often it was told to
/// download, serving canned bytes for both actions.
fn run_fetch(probe: CacheProbe, downloads: &mut u32) -> Result<Vec<u8>, FetchError> {
    match plan_after_probe(probe) {
        FetchAction::ReadCache => settle_cache_read(Ok(b"cached".to_vec())),
        FetchAction::Download => {
            *downloads += 1;
            settle_download(Ok(b"fresh".to_vec()))
        }
    }
}

#[test]
fn cache_hit_performs_no_network_call() {
    let mut downloads: u32 = 0;
    let body = run_fetch(CacheProbe::Fresh, &mut downloads).unwrap();
    assert_eq!(downloads, 0);
    assert_eq!(body, b"cached".to_vec());
}

#[test]
fn absent_and_stale_entries_download() {
    let mut downloads: u32 = 0;
    assert_eq!(run_fetch(CacheProbe::Absent, &mut downloads).unwrap(), b"fresh".to_vec());
    assert_eq!(downloads, 1);
    assert_eq!(run_fetch(CacheProbe::Stale, &mut downloads).unwrap(), b"fresh".to_vec());
    assert_eq!(downloads, 2);
}

#[test]
fn cache_read_error_surfaces_without_refetch() {
    assert_eq!(plan_after_probe(CacheProbe::Fresh), FetchAction::ReadCache);
    let out = settle_cache_read(Err("permission denied".to_string()));
    assert_eq!(out, Err(FetchError::Cache("permission denied".to_string())));
}

#[test]
fn network_error_is_tagged_with_its_cause() {
    let out = settle_download(Err("connection timed out".to_string()));
    assert_eq!(out, Err(FetchError::Network("connection timed out".to_string())));
}

#[test]
fn cache_file_name_is_hex_of_the_url() {
    assert_eq!(yts::fetch::cache_file_name("ab"), "6162");
    assert_eq!(yts::fetch::cache_file_name(""), "");
    assert_eq!(yts::fetch::cache_file_name("https://x?q=1"), "68747470733a2f2f783f713d31");
}

#[test]
fn fetch_constants() {
    assert_eq!(FETCH_TIMEOUT_SECS, 5);
    assert_eq!(yts::fetch::cache_subdir(), "list");
    assert_eq!(yts::fetch::user_agent(), "florinutz/yts");
}
