use cohost_dl::address::ResourceUrl;
use cohost_dl::context::{after_response, retry_delay_millis, GetError, ResourceLoad, ResponseAction};
use cohost_dl::filepath::{
    add_content_type_ext, does_resource_probably_need_a_file_extension, to_portable_path,
};
use cohost_dl::resource::{props_for_resource_url, ResourcePathError};
use sha2::Digest;

fn url(text: &str) -> ResourceUrl {
    ResourceUrl::parse(text).expect("an address")
}

fn names(list: &[&str]) -> Vec<String> {
    list.iter().map(|s| s.to_string()).collect()
}

#[test]
fn extension_is_appended_for_external_picture() {
    let u = url("https://external.test/picture");
    let props = props_for_resource_url(&u, &vec![]).unwrap().unwrap();
    assert_eq!(props.file_path, names(&["rc", "external", "external.test", "picture"]));
    assert!(props.can_fail);
    assert!(!props.skip_file_ext_check);
    let load = ResourceLoad::begin(props, None);
    assert!(load.needs_file_extension);
    assert!(load.needs_content_type);
    let fetched = load.fetched(Some("image/jpeg".to_string()));
    assert_eq!(fetched.content_type, "image/jpeg");
    assert_eq!(to_portable_path(&fetched.file_path), "rc/external/external.test/picture.jpeg");
}

#[test]
fn long_segment_is_split() {
    let a = "A".repeat(250);
    let b = "B".repeat(250);
    let u = url(&format!("https://x.test/{a}{b}z"));
    let props = props_for_resource_url(&u, &vec![]).unwrap().unwrap();
    assert_eq!(
        props.file_path,
        vec!["rc".to_string(), "external".into(), "x.test".into(), a, b, "z".into()]
    );
    for name in &props.file_path {
        assert!(name.len() <= 250);
    }
}

#[test]
fn multibyte_segment_pieces_fit() {
    let seg = "\u{e9}".repeat(300);
    let u = ResourceUrl {
        href: format!("https://x.test/{seg}"),
        scheme: "https".into(),
        host: Some("x.test".into()),
        domain: Some("x.test".into()),
        path: format!("/{seg}"),
        query: None,
        fragment: None,
    };
    let props = props_for_resource_url(&u, &vec![]).unwrap().unwrap();
    assert_eq!(props.file_path.len(), 3 + 3);
    assert_eq!(props.file_path[3].len(), 250);
    assert_eq!(props.file_path[4].len(), 250);
    assert_eq!(props.file_path[5].len(), 100);
    assert_eq!(props.file_path[3..].concat(), seg);
}

#[test]
fn odd_widths_never_overshoot() {
    let seg = format!("a{}", "\u{e9}".repeat(200));
    let u = ResourceUrl {
        href: String::new(),
        scheme: "https".into(),
        host: Some("x.test".into()),
        domain: Some("x.test".into()),
        path: format!("/{seg}"),
        query: None,
        fragment: None,
    };
    let props = props_for_resource_url(&u, &vec![]).unwrap().unwrap();
    assert_eq!(props.file_path[3].len(), 249);
    assert_eq!(props.file_path[4].len(), 152);
}

#[test]
fn cdn_path_is_decoded_below_rc() {
    let u = url("https://staging.cohostcdn.org/attachment/abc/my%20file.png");
    let props = props_for_resource_url(&u, &vec![]).unwrap().unwrap();
    assert_eq!(props.file_path, names(&["rc", "attachment", "abc", "my file.png"]));
    assert!(!props.can_fail);
    assert!(props.skip_file_ext_check);
    assert_eq!(props.fetch, "https://staging.cohostcdn.org//attachment/abc/my%20file.png");
}

#[test]
fn site_path_skips_empty_segments() {
    let u = url("https://cohost.org/static//a.css");
    let props = props_for_resource_url(&u, &vec![]).unwrap().unwrap();
    assert_eq!(props.file_path, names(&["static", "a.css"]));
    assert_eq!(props.fetch, "https://cohost.org/static//a.css");
}

#[test]
fn undecodable_segment_is_an_error() {
    let u = url("https://cohost.org/%FF");
    assert_eq!(props_for_resource_url(&u, &vec![]), Err(ResourcePathError::Undecodable));
}

#[test]
fn denied_domain_and_other_schemes_are_ignored() {
    let u = url("https://tracker.test/pixel.gif");
    assert_eq!(props_for_resource_url(&u, &names(&["tracker.test"])), Ok(None));
    let u = url("http://plain.test/pixel.gif");
    assert_eq!(props_for_resource_url(&u, &vec![]), Ok(None));
}

#[test]
fn external_path_is_sanitized_and_named() {
    let u = url("https://x.test/a/b?c=d#e");
    let props = props_for_resource_url(&u, &vec![]).unwrap().unwrap();
    assert_eq!(props.file_path, names(&["rc", "external", "x.test", "a", "b-c=d#e"]));
    let u = url("https://x.test/");
    let props = props_for_resource_url(&u, &vec![]).unwrap().unwrap();
    assert_eq!(props.file_path, names(&["rc", "external", "x.test", "_"]));
}

#[test]
fn overlong_path_is_kept_under_its_digest() {
    let long = "a/".repeat(800);
    let u = url(&format!("https://x.test/{long}"));
    let props = props_for_resource_url(&u, &vec![]).unwrap().unwrap();
    assert_eq!(props.file_path.len(), 4);
    let name = &props.file_path[3];
    assert!(name.starts_with("(hash)_"));
    assert_eq!(name.len(), 7 + 64);
    assert!(name[7..].chars().all(|c| c.is_ascii_hexdigit() && !c.is_ascii_uppercase()));
}

#[test]
fn digest_name_is_sha256_of_the_path() {
    let long = "b".repeat(1537);
    let u = url(&format!("https://x.test/{long}"));
    let props = props_for_resource_url(&u, &vec![]).unwrap().unwrap();
    let expected = format!("(hash)_{}", hex::encode(sha2::Sha256::digest(long.as_bytes())));
    assert_eq!(props.file_path[3], expected);
}

#[test]
fn extension_need_follows_the_table() {
    assert!(does_resource_probably_need_a_file_extension("rc/external/x.test/picture"));
    assert!(!does_resource_probably_need_a_file_extension("rc/external/x.test/picture.PNG"));
    assert!(does_resource_probably_need_a_file_extension("rc/external/x.test/picture.bin"));
    assert!(does_resource_probably_need_a_file_extension("rc/external/x.test/.png"));
    assert!(!does_resource_probably_need_a_file_extension("a/b.map"));
    assert!(!does_resource_probably_need_a_file_extension("a/b.woff2/"));
}

#[test]
fn extension_is_appended_not_replaced() {
    assert_eq!(add_content_type_ext(names(&["a", "foo"]), "image/png"), names(&["a", "foo.png"]));
    assert_eq!(
        add_content_type_ext(names(&["a", "foo.bin"]), "image/png; charset=binary"),
        names(&["a", "foo.bin.png"])
    );
    assert_eq!(add_content_type_ext(names(&["a", "foo"]), "x/unknown"), names(&["a", "foo"]));
    assert_eq!(add_content_type_ext(names(&["a", ".."]), "image/png"), names(&["a", ".."]));
}

#[test]
fn responses_are_retried_or_not() {
    assert_eq!(after_response(200, 1), ResponseAction::Accept);
    assert_eq!(after_response(404, 1), ResponseAction::NotFound);
    assert_eq!(after_response(500, 1), ResponseAction::Retry);
    assert_eq!(after_response(500, 10), ResponseAction::Fail);
    assert_eq!(after_response(403, 1), ResponseAction::Fail);
    assert!(GetError::OtherStatus("u".into(), 500, "".into()).is_recoverable());
    assert!(!GetError::OtherStatus("u".into(), 410, "".into()).is_recoverable());
    assert!(!GetError::NotFound("u".into(), "".into()).is_recoverable());
    assert!(GetError::Req("u".into(), "timeout".into()).is_recoverable());
}

#[test]
fn retry_delays_follow_the_ladder() {
    assert_eq!(retry_delay_millis(0), 0);
    assert_eq!(retry_delay_millis(1), 800);
    assert_eq!(retry_delay_millis(2), 2240);
    assert_eq!(retry_delay_millis(3), 4832);
    assert_eq!(retry_delay_millis(9), 197359);
}

#[test]
fn the_path_of_an_address_is_the_same_each_time() {
    let deny = vec!["denied.test".to_string()];
    for text in [
        "https://external.test/a/b.png?x=1#top",
        "https://staging.cohostcdn.org/avatar/1%202.png",
        "https://cohost.org/static/a.js",
        "HTTPS://External.Test/../a//b",
        "https://external.test",
        "https://denied.test/a.png",
    ] {
        let first = url(text);
        let again = url(&first.href);
        assert_eq!(again, first);
        let props = props_for_resource_url(&first, &deny).unwrap();
        assert_eq!(props_for_resource_url(&first, &deny).unwrap(), props);
        assert_eq!(props_for_resource_url(&again, &deny).unwrap(), props);
    }
}
