use std::path::PathBuf;

use resolvo_rpm::fetch::{
    begin_fetch, file_url, identity_pem, Fetch, FetchAction, FetchConfig, FetchError,
    MetadataRecord, RepoIndex,
};
use resolvo_rpm::metadata::{Checksum, ChecksumType};
use resolvo_rpm::urls::{directory_path, directory_url, download_url, try_directory_url, try_download_url};

fn file(path: &str, digits: &str) -> MetadataRecord {
    MetadataRecord { path: path.to_string(), checksum: Checksum::Sha256(digits.to_string()) }
}

fn index() -> RepoIndex {
    RepoIndex {
        records: vec![file("z", "0"), file("p", "1")],
        primary: Some(file("p", "1")),
        filelists: Some(file("f", "2")),
        other: None,
        updateinfo: Some(file("u", "4")),
        comps: Some(file("c", "5")),
    }
}

fn path_of(action: &FetchAction) -> Option<String> {
    match action {
        FetchAction::Download(path) => Some(path.clone()),
        _ => None,
    }
}

#[test]
fn nothing_is_fetched_where_the_index_exists() {
    assert!(matches!(begin_fetch(true), FetchAction::Done));
    assert_eq!(path_of(&begin_fetch(false)).as_deref(), Some("repodata/repomd.xml"));
}

#[test]
fn usual_files_come_in_order() {
    let paths: Vec<String> = index().downloads(false).into_iter().map(|r| r.path).collect();
    assert_eq!(paths, ["p", "f", "u", "c"]);
    let paths: Vec<String> = index().downloads(true).into_iter().map(|r| r.path).collect();
    assert_eq!(paths, ["z", "p"]);
}

#[test]
fn every_file_is_verified_before_the_next() {
    let (mut fetch, mut action) = Fetch::index_read(index(), false);
    let mut seen = Vec::new();
    let digits = ["1", "2", "4", "5"];
    for d in digits {
        seen.push(path_of(&action).unwrap());
        match fetch.downloaded().unwrap() {
            FetchAction::ComputeChecksum(path, kind) => {
                assert_eq!(path, *seen.last().unwrap());
                assert_eq!(kind, ChecksumType::Sha256);
            }
            other => panic!("unexpected {:?}", other),
        }
        action = fetch.checksum_computed(&Checksum::Sha256(d.to_string())).unwrap();
    }
    assert!(matches!(action, FetchAction::Done));
    assert_eq!(seen, ["p", "f", "u", "c"]);
}

#[test]
fn mismatch_ends_the_download() {
    let (mut fetch, _) = Fetch::index_read(index(), false);
    fetch.downloaded().unwrap();
    match fetch.checksum_computed(&Checksum::Sha256("x".to_string())) {
        Err(FetchError::ChecksumMismatch { path, expected, actual }) => {
            assert_eq!(path, "p");
            assert_eq!(expected, Checksum::Sha256("1".to_string()));
            assert_eq!(actual, Checksum::Sha256("x".to_string()));
        }
        other => panic!("unexpected {:?}", other),
    }
    assert!(fetch.checksum_computed(&Checksum::Sha1("1".to_string())).is_err());
    assert!(fetch.checksum_computed(&Checksum::Sha256("1".to_string())).is_ok());
}

#[test]
fn unknown_checksum_ends_the_download() {
    for checksum in [Checksum::Unknown("1".to_string()), Checksum::Empty] {
        let records = vec![MetadataRecord { path: "p".to_string(), checksum }];
        let (fetch, _) = Fetch::index_read(RepoIndex { records, ..index() }, true);
        match fetch.downloaded() {
            Err(FetchError::UnknownChecksum(path)) => assert_eq!(path, "p"),
            other => panic!("unexpected {:?}", other),
        }
    }
}

#[test]
fn empty_index_is_done_at_once() {
    let records = Vec::new();
    let (_, action) = Fetch::index_read(RepoIndex { records, ..index() }, true);
    assert!(matches!(action, FetchAction::Done));
}

#[test]
fn directory_urls_end_with_a_slash() {
    assert_eq!(directory_url("https://h/repo").unwrap(), "https://h/repo/");
    assert_eq!(directory_url("https://h/repo/").unwrap(), "https://h/repo/");
    assert_eq!(directory_url("https://h").unwrap(), "https://h");
    assert_eq!(directory_url("https://h/a b?q=1").unwrap(), "https://h/a%20b/?q=1");
    assert!(directory_url("no url").is_err());
    assert_eq!(try_directory_url("https://h/repo").unwrap().unwrap(), "https://h/repo/");
    assert!(try_directory_url("no url").unwrap().is_err());
    assert_eq!(directory_path("/a").as_deref(), Some("/a/"));
    assert_eq!(directory_path("").as_deref(), Some("/"));
    assert_eq!(directory_path("/a/"), None);
}

#[test]
fn file_urls_carry_the_token() {
    let base = "https://h/repo/";
    assert_eq!(download_url(base, "repodata/x.xml", None).unwrap(), "https://h/repo/repodata/x.xml");
    assert_eq!(
        download_url(base, "repodata/x.xml", Some("a b")).unwrap(),
        "https://h/repo/repodata/x.xml?a%20b"
    );
    assert_eq!(try_download_url(base, "../y", None).unwrap().unwrap(), "https://h/y");
    assert_eq!(file_url(base, "y", Some("t")).unwrap().unwrap(), "https://h/repo/y?t");
    match file_url(base, "https://[", None) {
        Some(Err(FetchError::UrlJoin { path, source: _ })) => assert_eq!(path, "https://["),
        other => panic!("unexpected {:?}", other),
    }
}

#[test]
fn token_is_the_query_of_every_request() {
    let base = directory_url("https://h/repo?old=1").unwrap();
    for path in ["repodata/repomd.xml", "repodata/a.xml?x=1", "b#part"] {
        let url = file_url(&base, path, Some("Tok-en_1.2~3")).unwrap().unwrap();
        let front = url.split('#').next().unwrap();
        assert_eq!(front.split_once('?').unwrap().1, "Tok-en_1.2~3");
    }
}

#[test]
fn slash_of_the_base_makes_no_difference() {
    for path in ["repodata/repomd.xml", "../x", "/y"] {
        let with = directory_url("https://h/repo/").unwrap();
        let without = directory_url("https://h/repo").unwrap();
        assert_eq!(
            download_url(&with, path, Some("t")).unwrap(),
            download_url(&without, path, Some("t")).unwrap()
        );
    }
}

#[test]
fn long_urls_and_tokens_are_taken() {
    let long = "a".repeat(1_000_000);
    let base = format!("https://h/{}#part", long);
    let directory = try_directory_url(&base).unwrap().unwrap();
    assert_eq!(directory, format!("https://h/{}/#part", long));
    let url = try_download_url(&directory, "x#y", Some(&long)).unwrap().unwrap();
    assert_eq!(url, format!("https://h/{}/x?{}#y", long, long));
    let url = try_download_url("https://h/", "x#y", Some("'\t\u{e9}\"")).unwrap().unwrap();
    assert_eq!(url, "https://h/x?%27%C3%A9%22#y");
    let url = try_download_url("a://h/", "x#y", Some("'\u{20ac}\u{1f600}")).unwrap().unwrap();
    assert_eq!(url, "a://h/x?'%E2%82%AC%F0%9F%98%80#y");
    // An empty path behind the colon of the scheme takes the slash encoded.
    assert_eq!(try_directory_url("a:").unwrap().unwrap(), "a:%2F");
    assert_eq!(try_directory_url("a://h").unwrap().unwrap(), "a://h/");
    assert_eq!(try_directory_url("a:b?q#f").unwrap().unwrap(), "a:b/?q#f");
}

#[test]
fn identity_joins_certificate_and_key() {
    assert_eq!(identity_pem(vec![1, 2], None), vec![1, 2]);
    assert_eq!(identity_pem(vec![1, 2], Some(&vec![3])), vec![1, 2, 10, 3]);
}

#[test]
fn client_settings_follow_the_configuration() {
    let mut config = FetchConfig::new();
    let s = config.client_settings();
    assert!(s.no_proxy && !s.accept_invalid_certs && s.user_agent.is_none());
    assert!(s.ca_cert.is_none() && s.client_cert.is_none() && s.client_key.is_none());
    config.allow_env_var = true;
    config.verify_tls = false;
    config.user_agent = Some("agent".to_string());
    config.tls_client_key = Some(PathBuf::from("k"));
    let s = config.client_settings();
    assert!(!s.no_proxy && s.accept_invalid_certs);
    assert_eq!(s.user_agent, Some("agent"));
    assert!(s.client_key.is_none());
    config.tls_client_cert = Some(PathBuf::from("c"));
    config.tls_ca_cert = Some(PathBuf::from("a"));
    let s = config.client_settings();
    assert_eq!(s.client_cert, Some(&PathBuf::from("c")));
    assert_eq!(s.client_key, Some(&PathBuf::from("k")));
    assert_eq!(s.ca_cert, Some(&PathBuf::from("a")));
}

#[test]
fn checksums_compare_by_kind_and_digits() {
    let a = Checksum::Md5("1".to_string());
    assert!(a.same(&a.copy()));
    assert!(!a.same(&Checksum::Md5("2".to_string())));
    assert!(!a.same(&Checksum::Sha1("1".to_string())));
    assert!(Checksum::Empty.same(&Checksum::Empty));
    assert_eq!(a.computable(), Some(ChecksumType::Md5));
    assert_eq!(Checksum::Unknown("1".to_string()).computable(), None);
}
