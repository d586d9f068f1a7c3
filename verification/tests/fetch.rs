use cohost_dl::address::ResourceUrl;
use cohost_dl::context::{
    is_given_up, retry_delay_millis, sends_cookie, should_retry, GetError, LoadDecision, LoadResError,
    ResourceLoad, MAX_RETRIES,
};
use cohost_dl::dl::CurrentStateV1;
use cohost_dl::filepath::{
    get_intended_resource_file_path, needs_file_extension, needs_migration, to_portable_path,
};
use cohost_dl::resource::props_for_resource_url;

fn url(text: &str) -> ResourceUrl {
    ResourceUrl::parse(text).expect("an address")
}

/// What a server answers, try by try.
enum Answer {
    Status(u16),
    Served(&'static str),
}

/// Loads one resource as the downloader does, and says how many requests
/// it made and where the file went.
fn load(state: &mut CurrentStateV1, records: &mut Vec<(String, String, String)>, address: &str, answers: &[Answer]) -> (usize, Option<String>) {
    let u = url(address);
    let mut requests = 0;
    let mut tries = 0;
    loop {
        tries += 1;
        if is_given_up(state, &u) {
            return (requests, None);
        }
        let Some(props) = props_for_resource_url(&u, &vec![]).unwrap() else {
            return (requests, None);
        };
        let record = records.iter().find(|r| r.0 == address).cloned();
        let known_type = if needs_file_extension(&props) { record.as_ref().map(|r| r.1.as_str()) } else { None };
        let load = ResourceLoad::begin(props, known_type);
        match load.decide(record.as_ref().map(|r| r.2.clone()), false) {
            LoadDecision::Recorded(path) | LoadDecision::OnDisk(path) => return (requests, Some(path)),
            LoadDecision::Fetch => {}
        }
        requests += 1;
        match answers[requests - 1] {
            Answer::Served(content_type) => {
                let fetched = load.fetched(Some(content_type.to_string()));
                let path = to_portable_path(&fetched.file_path);
                records.push((address.to_string(), fetched.content_type, path.clone()));
                return (requests, Some(path));
            }
            Answer::Status(status) => {
                let error = GetError::OtherStatus(address.to_string(), status, String::new());
                if load.gives_up_after(&error, tries) {
                    state.add_failed_url(address);
                }
                if !should_retry(LoadResError::Get(error).is_recoverable(), tries) {
                    return (requests, None);
                }
            }
        }
    }
}

#[test]
fn a_batch_is_loaded_with_retries() {
    let mut state = CurrentStateV1::new();
    let mut records = Vec::new();
    let batch: Vec<(&str, Vec<Answer>)> = vec![
        ("https://staging.cohostcdn.org/attachment/1/a.png", vec![Answer::Served("image/png")]),
        ("https://staging.cohostcdn.org/attachment/2/b.png", vec![Answer::Served("image/png")]),
        ("https://staging.cohostcdn.org/attachment/3/c.png", vec![Answer::Served("image/png")]),
        ("https://external.test/d.png", vec![Answer::Status(500), Answer::Served("image/png")]),
        ("https://external.test/e.png", vec![Answer::Status(403)]),
    ];
    let mut files = 0;
    for (address, answers) in &batch {
        let (requests, path) = load(&mut state, &mut records, address, answers);
        assert_eq!(requests, answers.len());
        if path.is_some() {
            files += 1;
        }
    }
    assert_eq!(files, 4);
    assert_eq!(records.len(), 4);
    assert_eq!(state.failed_urls, vec!["https://external.test/e.png".to_string()]);
    let (requests, path) = load(&mut state, &mut records, "https://external.test/e.png", &[]);
    assert_eq!((requests, path), (0, None));
}

#[test]
fn a_second_load_asks_nothing_of_the_network() {
    let mut state = CurrentStateV1::new();
    let mut records = Vec::new();
    let address = "https://external.test/picture";
    let first = load(&mut state, &mut records, address, &[Answer::Served("image/jpeg")]);
    assert_eq!(first, (1, Some("rc/external/external.test/picture.jpeg".to_string())));
    let second = load(&mut state, &mut records, address, &[]);
    assert_eq!(second, (0, first.1));
}

#[test]
fn an_external_failure_that_may_mend_is_tried_again() {
    let mut state = CurrentStateV1::new();
    let mut records = Vec::new();
    let address = "https://external.test/slow.png";
    let (requests, path) = load(&mut state, &mut records, address, &[Answer::Status(500), Answer::Served("image/png")]);
    assert_eq!((requests, path), (2, Some("rc/external/external.test/slow.png".to_string())));
    assert!(!state.has_failed(address));
}

#[test]
fn an_external_address_is_given_up_once_no_try_is_left() {
    let mut state = CurrentStateV1::new();
    let mut records = Vec::new();
    let address = "https://external.test/gone.png";
    let answers: Vec<Answer> = (0..MAX_RETRIES).map(|_| Answer::Status(500)).collect();
    let (requests, path) = load(&mut state, &mut records, address, &answers);
    assert_eq!((requests, path), (MAX_RETRIES, None));
    assert!(state.has_failed(address));
    assert_eq!(load(&mut state, &mut records, address, &[]), (0, None));
}

#[test]
fn a_file_of_the_site_is_not_given_up_for_a_failure_that_may_mend() {
    let mut state = CurrentStateV1::new();
    let mut records = Vec::new();
    let address = "https://staging.cohostcdn.org/attachment/9/z.png";
    let answers: Vec<Answer> = (0..MAX_RETRIES).map(|_| Answer::Status(502)).collect();
    let (requests, path) = load(&mut state, &mut records, address, &answers);
    assert_eq!((requests, path), (MAX_RETRIES, None));
    assert!(!state.has_failed(address));
}

#[test]
fn an_external_address_that_is_refused_is_given_up_at_once() {
    let mut state = CurrentStateV1::new();
    let mut records = Vec::new();
    let address = "https://external.test/secret.png";
    let (requests, path) = load(&mut state, &mut records, address, &[Answer::Status(410)]);
    assert_eq!((requests, path), (1, None));
    assert!(state.has_failed(address));
}

#[test]
fn the_address_is_given_up_by_rule() {
    let may_fail = ResourceLoad::begin(props_for_resource_url(&url("https://external.test/a.png"), &vec![]).unwrap().unwrap(), None);
    let must_not = ResourceLoad::begin(props_for_resource_url(&url("https://cohost.org/static/a.png"), &vec![]).unwrap().unwrap(), None);
    let mends = GetError::OtherStatus("u".into(), 500, String::new());
    let ends = GetError::OtherStatus("u".into(), 403, String::new());
    let lost = GetError::NotFound("u".into(), String::new());
    for tries in [1, 5, 9] {
        assert!(!may_fail.gives_up_after(&mends, tries));
        assert!(!must_not.gives_up_after(&mends, tries));
        assert!(may_fail.gives_up_after(&ends, tries));
        assert!(must_not.gives_up_after(&ends, tries));
        assert!(may_fail.gives_up_after(&lost, tries));
    }
    assert!(may_fail.gives_up_after(&mends, 10));
    assert!(!must_not.gives_up_after(&mends, 10));
    assert!(!may_fail.gives_up_after(&GetError::Url("bad".into()), 3));
    assert!(!may_fail.gives_up_after(&GetError::Req("u".into(), "timed out".into()), 3));
}

#[test]
fn tries_end_at_the_limit() {
    assert_eq!(MAX_RETRIES, 10);
    assert!(should_retry(true, 9));
    assert!(!should_retry(true, 10));
    assert!(!should_retry(false, 1));
    assert_eq!(retry_delay_millis(MAX_RETRIES), 356046);
    assert!(LoadResError::Unknown("disk".into()).is_recoverable());
    assert!(LoadResError::Get(GetError::Url("bad".into())).is_recoverable());
    assert!(LoadResError::Get(GetError::Req("u".into(), "reset".into())).is_recoverable());
    assert!(LoadResError::Get(GetError::OtherStatus("u".into(), 500, String::new())).is_recoverable());
    for status in [401, 403, 405, 410] {
        assert!(!LoadResError::Get(GetError::OtherStatus("u".into(), status, String::new())).is_recoverable());
    }
    assert!(!LoadResError::Get(GetError::NotFound("u".into(), String::new())).is_recoverable());
    assert!(LoadResError::Get(GetError::Other("x".into())).is_recoverable());
}

#[test]
fn what_is_on_disk_is_used_unless_the_content_type_is_wanted() {
    let props = props_for_resource_url(&url("https://external.test/a.png"), &vec![]).unwrap().unwrap();
    let load = ResourceLoad::begin(props, None);
    assert!(!load.needs_file_extension);
    assert_eq!(load.decide(None, true), LoadDecision::OnDisk("rc/external/external.test/a.png".into()));
    assert_eq!(load.decide(None, false), LoadDecision::Fetch);
    assert_eq!(load.decide(Some("elsewhere".into()), true), LoadDecision::Recorded("elsewhere".into()));
    let props = props_for_resource_url(&url("https://external.test/a"), &vec![]).unwrap().unwrap();
    let load = ResourceLoad::begin(props.clone(), None);
    assert_eq!(load.decide(Some("rc/external/external.test/a".into()), true), LoadDecision::Fetch);
    let load = ResourceLoad::begin(props, Some(""));
    assert!(!load.needs_content_type);
    assert_eq!(load.decide(None, true), LoadDecision::OnDisk("rc/external/external.test/a".into()));
    let fetched = load.fetched(None);
    assert_eq!(fetched.content_type, "");
    assert_eq!(to_portable_path(&fetched.file_path), "rc/external/external.test/a");
}

#[test]
fn files_are_moved_to_where_they_are_meant_to_be() {
    let u = url("https://external.test/picture");
    let intended = get_intended_resource_file_path(&u, &vec![], Some("image/gif")).unwrap().unwrap();
    assert_eq!(to_portable_path(&intended), "rc/external/external.test/picture.gif");
    assert!(needs_migration("rc/external/external.test/picture", &intended));
    assert!(!needs_migration("rc/external/external.test/picture.gif", &intended));
    let plain = get_intended_resource_file_path(&u, &vec![], None).unwrap().unwrap();
    assert_eq!(to_portable_path(&plain), "rc/external/external.test/picture");
    assert_eq!(get_intended_resource_file_path(&url("ftp://x.test/a"), &vec![], None), Ok(None));
}

#[test]
fn the_session_is_sent_to_the_site_alone() {
    assert!(sends_cookie(&url("https://cohost.org/rc/liked-posts")));
    assert!(sends_cookie(&url("http://COHOST.org/a")));
    assert!(!sends_cookie(&url("https://staging.cohostcdn.org/avatar/1.png")));
    assert!(!sends_cookie(&url("https://cohost.org.evil.test/a")));
    assert!(!sends_cookie(&url("https://sub.cohost.org/a")));
    assert!(!sends_cookie(&url("https://127.0.0.1/a")));
    assert!(!sends_cookie(&url("data:text/plain,cohost.org")));
}

#[test]
fn one_address_given_up_leaves_the_others_to_be_tried() {
    let mut state = CurrentStateV1::new();
    let mut records = Vec::new();
    let refused = "https://external.test/refused.png";
    let slow = "https://external.test/slow.png";
    assert_eq!(load(&mut state, &mut records, refused, &[Answer::Status(403)]), (1, None));
    assert!(is_given_up(&state, &url(refused)));
    assert!(!is_given_up(&state, &url(slow)));
    let (requests, path) = load(&mut state, &mut records, slow, &[Answer::Status(500), Answer::Served("image/png")]);
    assert_eq!((requests, path), (2, Some("rc/external/external.test/slow.png".to_string())));
    assert_eq!(state.failed_urls, vec![refused.to_string()]);
}
