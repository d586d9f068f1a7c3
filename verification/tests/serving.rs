use cohost_dl::import_cdl1::{
    copies_old_file, import_mode, is_post_data_file, is_project_directory,
    where_would_cdl1_put_a_resource, CohostDl1ImportConfig, ImportMode, TrpcQueryKeyId,
};
use cohost_dl::address::ResourceUrl;
use cohost_dl::merge::{file_copy_action, keeps_own_share, CopyAction};
use cohost_dl::server::{
    bundled_file_extension, etag_for_bundled_file, etag_for_file, is_not_modified, requested_resource_url, ModifiedAt,
    CACHE_CONTROL,
};
use cohost_dl::url_file::{
    migrate_old_url_file, posts_migration_is_due, read_url_file_path, url_file_record,
    url_files_migration_is_due, MigrationError, UrlFileError,
};
use sha2::Digest;

fn url(text: &str) -> ResourceUrl {
    ResourceUrl::parse(text).expect("an address")
}

#[test]
fn the_tag_of_a_file_is_a_digest_of_path_and_time() {
    let path = b"/files/rc/a.png";
    let nanos: u128 = 1_700_000_000_123_456_789;
    let mut hasher = sha2::Sha256::new();
    hasher.update(path);
    hasher.update(nanos.to_le_bytes());
    assert_eq!(etag_for_file(path, ModifiedAt::Since(nanos)), hex::encode(hasher.finalize()));
    let mut hasher = sha2::Sha256::new();
    hasher.update(path);
    hasher.update([0]);
    hasher.update(5u128.to_le_bytes());
    assert_eq!(etag_for_file(path, ModifiedAt::Before(5)), hex::encode(hasher.finalize()));
    assert_ne!(etag_for_file(path, ModifiedAt::Since(0)), etag_for_file(path, ModifiedAt::Since(1)));
    assert_eq!(etag_for_file(b"", ModifiedAt::Since(u128::MAX)).len(), 64);
    assert_eq!(CACHE_CONTROL, "max-age=3600, must-revalidate");
}

#[test]
fn a_file_that_the_asker_has_is_not_sent_again() {
    assert!(is_not_modified("abc", &vec!["x".into(), "abc".into()]));
    assert!(!is_not_modified("abc", &vec!["\"abc\"".into()]));
    assert!(!is_not_modified("abc", &vec![]));
}

#[test]
fn bundled_files_have_the_extension_after_their_first_dot() {
    assert_eq!(bundled_file_extension("base.css").as_deref(), Some("css"));
    assert_eq!(bundled_file_extension("client.js.map").as_deref(), Some("js"));
    assert_eq!(bundled_file_extension("README"), None);
    assert_eq!(bundled_file_extension("x.").as_deref(), Some(""));
}

#[test]
fn bundled_files_are_tagged_by_name_and_build() {
    assert_eq!(etag_for_bundled_file("base.css", "0a1b2c3"), "base.css-0a1b2c3");
    assert_eq!(etag_for_bundled_file("", ""), "-");
    assert!(is_not_modified(&etag_for_bundled_file("base.css", "0a1b2c3"), &vec!["base.css-0a1b2c3".to_string()]));
    assert!(!is_not_modified(&etag_for_bundled_file("base.css", "0a1b2c3"), &vec!["base.css-ffffff0".to_string()]));
}

#[test]
fn a_request_names_the_address_of_its_resource() {
    let u = requested_resource_url("https", "x.test", "/r/https/x.test/a/b%20c.png", Some("w=1&h=2"), Some("top")).unwrap();
    assert_eq!(u.href, "https://x.test/a/b%20c.png?w=1&h=2#top");
    let u = requested_resource_url("https", "x.test", "/r/https/x.test/", None, None).unwrap();
    assert_eq!(u.href, "https://x.test/");
    let u = requested_resource_url("https", "x.test", "/r/https/x.test", None, None).unwrap();
    assert_eq!(u.href, "https://x.test/");
    assert_eq!(requested_resource_url("", "x.test", "/r//x.test/a", None, None), None);
}

#[test]
fn a_route_leads_back_to_its_address() {
    for address in ["https://x.test/a/b.png", "https://x.test/a%20b?c=d&e#f", "https://x.test/"] {
        let route = cohost_dl::render::rewrite::make_resource_url(address);
        let (path, query) = route.split_once('?').unwrap_or((route.as_str(), ""));
        let mut q = None;
        let mut h = None;
        for pair in query.split('&').filter(|p| !p.is_empty()) {
            let (name, value) = pair.split_once('=').unwrap();
            let value = urlencoding::decode(value).unwrap().into_owned();
            match name {
                "q" => q = Some(value),
                _ => h = Some(value),
            }
        }
        let u = requested_resource_url("https", "x.test", path, q.as_deref(), h.as_deref()).unwrap();
        assert_eq!(u.href, address);
    }
}

#[test]
fn paths_are_recorded_after_a_sentinel() {
    assert_eq!(url_file_record("rc/a.png"), b"@/rc/a.png".to_vec());
    assert_eq!(url_file_record(""), b"@/".to_vec());
    assert_eq!(url_file_record("é"), vec![b'@', b'/', 0xC3, 0xA9]);
    assert_eq!(read_url_file_path(&b"@/rc/a.png".to_vec()), Ok("rc/a.png".to_string()));
    assert_eq!(read_url_file_path(&b"@/".to_vec()), Ok(String::new()));
    assert_eq!(read_url_file_path(&b"rc/a.png".to_vec()), Err(UrlFileError::InvalidUrlFilePath));
    assert_eq!(read_url_file_path(&b"@".to_vec()), Err(UrlFileError::InvalidUrlFilePath));
    assert_eq!(read_url_file_path(&vec![]), Err(UrlFileError::InvalidUrlFilePath));
    assert_eq!(read_url_file_path(&vec![b'@', b'/', 0xFF]), Err(UrlFileError::InvalidUtf8));
    for path in ["a", "rc/external/x.test/é/😀.png"] {
        assert_eq!(read_url_file_path(&url_file_record(path)), Ok(path.to_string()));
    }
}

#[test]
fn old_records_are_brought_to_the_current_form_once() {
    assert_eq!(migrate_old_url_file(b"rc/a.png".to_vec()), Ok(b"@/rc/a.png".to_vec()));
    assert_eq!(migrate_old_url_file(b"@/rc/a.png".to_vec()), Ok(b"@/rc/a.png".to_vec()));
    assert_eq!(migrate_old_url_file(vec![]), Ok(b"@/".to_vec()));
    assert_eq!(migrate_old_url_file(vec![b'a', 0xFF]), Err(UrlFileError::InvalidUtf8));
    let once = migrate_old_url_file(b"x/y".to_vec()).unwrap();
    assert_eq!(migrate_old_url_file(once.clone()), Ok(once));
    // A record that only begins like one of the current form is prefixed.
    assert_eq!(migrate_old_url_file(b"@x".to_vec()), Ok(b"@/@x".to_vec()));
    assert_eq!(migrate_old_url_file(b"@".to_vec()), Ok(b"@/@".to_vec()));
    assert_eq!(read_url_file_path(&b"@/@x".to_vec()), Ok("@x".to_string()));
    // What follows the sentinel has to be UTF-8 too.
    assert_eq!(migrate_old_url_file(vec![b'@', b'/', 0xFF]), Err(UrlFileError::InvalidUtf8));
    assert_eq!(migrate_old_url_file(vec![b'@', 0xFF]), Err(UrlFileError::InvalidUtf8));
    for record in [&b"rc/a.png"[..], b"@/rc/a.png", b"@x", b"", "é/ü".as_bytes()] {
        let new = migrate_old_url_file(record.to_vec()).unwrap();
        assert!(new.starts_with(b"@/"));
        assert!(read_url_file_path(&new).is_ok());
        assert_eq!(migrate_old_url_file(new.clone()), Ok(new));
    }
    assert!(url_files_migration_is_due(None));
    assert!(url_files_migration_is_due(Some("0")));
    assert!(!url_files_migration_is_due(Some("1")));
    assert_eq!(posts_migration_is_due(None), Ok(true));
    assert_eq!(posts_migration_is_due(Some("2")), Ok(false));
    assert_eq!(posts_migration_is_due(Some("1")), Err(MigrationError::InvalidPostsVersion("1".into())));
}

#[test]
fn the_earlier_downloader_kept_files_its_own_way() {
    let at = |text: &str, content_type: Option<&str>| where_would_cdl1_put_a_resource(&url(text), content_type, false);
    assert_eq!(at("https://staging.cohostcdn.org/attachment/1/my%20file.png", None).as_deref(), Some("rc/attachment/1/my file.png"));
    assert_eq!(at("https://staging.cohostcdn.org/attachment/1/file", Some("image/png")).as_deref(), Some("rc/attachment/1/file.png"));
    assert_eq!(at("https://cohost.org/static/a.css", None).as_deref(), Some("static/a.css"));
    assert_eq!(at("https://x.test/a/b?c=d#e", Some("image/gif")).as_deref(), Some("rc/external/x.test/a/b?c=d.gif"));
    assert_eq!(at("https://x.test/a/b.JPG", Some("image/gif")).as_deref(), Some("rc/external/x.test/a/b.JPG"));
    assert_eq!(at("https://x.test/png", Some("image/gif")).as_deref(), Some("rc/external/x.test/png"));
    assert_eq!(at("https://x.test/a/", Some("text/css")).as_deref(), Some("rc/external/x.test/a.css"));
    assert_eq!(at("https://x.test/a", Some("x/y")).as_deref(), Some("rc/external/x.test/a"));
    assert_eq!(at("http://x.test/a", None), None);
    assert_eq!(at("https://staging.cohostcdn.org/1/a", None).as_deref(), Some("rc/external/staging.cohostcdn.org/1/a"));
}

#[test]
fn the_earlier_downloader_cut_long_names_past_the_limit() {
    let a = "A".repeat(250);
    let b = "B".repeat(250);
    let got = where_would_cdl1_put_a_resource(&url(&format!("https://x.test/d/{a}{b}z.png")), None, false);
    assert_eq!(got, Some(format!("rc/external/x.test/d/{a}/{b}/z.png")));
    let got = where_would_cdl1_put_a_resource(&url(&format!("https://x.test/{a}")), None, false);
    assert_eq!(got, Some(format!("rc/external/x.test/{a}")));
}

#[test]
fn the_earlier_downloader_wrote_paths_as_windows_does() {
    let got = where_would_cdl1_put_a_resource(&url("https://x.test/a/b?c=d*e"), Some("image/png"), true);
    assert_eq!(got.as_deref(), Some("rc\\external\\x.test\\a\\b-c=d-e.png"));
}

#[test]
fn files_of_the_earlier_downloader_are_told_apart() {
    assert!(is_project_directory("someone"));
    assert!(!is_project_directory("~headers.json"));
    assert!(!is_project_directory("rc"));
    assert!(!is_project_directory("static"));
    assert!(!is_project_directory("api"));
    assert!(is_project_directory("rcx"));
    assert!(is_post_data_file("123-title", true));
    assert!(!is_post_data_file("123-title.html", true));
    assert!(!is_post_data_file("123-title", false));
    assert!(!is_post_data_file("title", true));
    assert!(!is_post_data_file("", true));
    assert_eq!(TrpcQueryKeyId::One("login.loggedIn".into()).as_str(), "login.loggedIn");
    assert_eq!(TrpcQueryKeyId::Multi(vec!["posts".into(), "singlePost".into()]).as_str(), "posts.singlePost");
    assert_eq!(TrpcQueryKeyId::Multi(vec![]).as_str(), "");
}

#[test]
fn posts_are_taken_over_as_configured() {
    let cfg = |add_only, reload| CohostDl1ImportConfig { path: "out".into(), add_only, reload };
    assert_eq!(import_mode(&cfg(true, true), true), ImportMode::AddMissing);
    assert_eq!(import_mode(&cfg(true, true), false), ImportMode::Insert { reload: true });
    assert_eq!(import_mode(&cfg(false, false), true), ImportMode::Insert { reload: false });
    assert!(copies_old_file(Some("out/rc/a"), "files/rc/a", true));
    assert!(!copies_old_file(Some("files/rc/a"), "files/rc/a", true));
    assert!(!copies_old_file(Some("out/rc/a"), "files/rc/a", false));
    assert!(!copies_old_file(None, "files/rc/a", true));
}

#[test]
fn archives_are_brought_together() {
    assert!(keeps_own_share(Some("2024-02-01"), Some("2024-01-01")));
    assert!(keeps_own_share(Some("2024-01-01"), Some("2024-01-01")));
    assert!(!keeps_own_share(Some("2023-01-01"), Some("2024-01-01")));
    assert!(!keeps_own_share(None, Some("2024-01-01")));
    assert!(!keeps_own_share(Some("2024-01-01"), None));
    assert_eq!(file_copy_action(true, false, false), CopyAction::Skip);
    assert_eq!(file_copy_action(false, false, true), CopyAction::Fail);
    assert_eq!(file_copy_action(false, true, true), CopyAction::Skip);
    assert_eq!(file_copy_action(false, true, false), CopyAction::Copy);
}
