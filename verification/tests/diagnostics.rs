use cohost_dl::config::Config;
use cohost_dl::context::{error_excerpt, truncate_error_text};
use cohost_dl::data::{copy_text, to_opt_row_id, to_row_id, to_site_id};
use cohost_dl::dl::batch_offset;
use cohost_dl::ext::file_name_needs_extension;
use cohost_dl::render::feed::query_of_parts;
use cohost_dl::render::rewrite::reversed;
use cohost_dl::address::ResourceUrl;
use cohost_dl::resource::{contains_text, family_of, UrlFamily};
use cohost_dl::text::{char_width, find_from, find_last, same_text, slice};

fn chars(text: &str) -> Vec<char> {
    text.chars().collect()
}

fn config_skipping(handles: &[&str]) -> Config {
    Config {
        database: String::new(),
        cookie: String::new(),
        request_timeout_secs: None,
        root_dir: String::new(),
        do_not_fetch_domains: vec![],
        load_dashboard: true,
        load_likes: false,
        load_profile_posts: vec![],
        load_tagged_posts: vec![],
        load_specific_posts: vec![],
        skip_follows: handles.iter().map(|h| h.to_string()).collect(),
        load_new_posts: false,
        load_comments: false,
        try_fix_transparent_shares: false,
        load_post_resources: false,
        load_project_resources: false,
        load_comment_resources: false,
        server_port: 0,
    }
}

#[test]
fn a_short_answer_is_kept_whole() {
    assert_eq!(truncate_error_text(""), "");
    assert_eq!(truncate_error_text("not found"), "not found");
    assert_eq!(truncate_error_text(&"a".repeat(500)), "a".repeat(500));
}

#[test]
fn a_long_answer_is_cut_at_five_hundred_bytes() {
    assert_eq!(truncate_error_text(&"a".repeat(600)), "a".repeat(500));
    assert_eq!(truncate_error_text(&"é".repeat(300)), "é".repeat(250));
}

#[test]
fn the_character_that_reaches_past_the_limit_is_kept_whole() {
    let text = format!("{}€bc", "a".repeat(499));
    assert_eq!(truncate_error_text(&text), format!("{}€", "a".repeat(499)));
    let text = format!("{}𝄞bc", "a".repeat(498));
    assert_eq!(truncate_error_text(&text), format!("{}𝄞", "a".repeat(498)));
}

#[test]
fn an_excerpt_of_a_short_text_is_the_text() {
    assert_eq!(error_excerpt("ab\ncdef", 1, 2), "ab\ncdef");
    assert_eq!(error_excerpt("", 0, 0), "");
}

#[test]
fn an_excerpt_reaches_three_hundred_characters_to_either_side() {
    let text = format!("x\n{}", "y".repeat(700));
    assert_eq!(error_excerpt(&text, 1, 350), "y".repeat(600));
    let text: String = (0..1000).map(|i| char::from(b'a' + (i % 26) as u8)).collect();
    assert_eq!(error_excerpt(&text, 0, 500), text[200..800]);
    assert_eq!(error_excerpt(&text, 0, 100), text[..400]);
    assert_eq!(error_excerpt(&text, 0, 900), text[600..]);
}

#[test]
fn an_excerpt_for_a_place_outside_the_text_is_its_end() {
    let text = "z".repeat(400);
    assert_eq!(error_excerpt(&text, 3, 0), "z".repeat(300));
    assert_eq!(error_excerpt(&text, 0, 100_000), "z".repeat(300));
    assert_eq!(error_excerpt("a\nb", usize::MAX, usize::MAX), "a\nb");
}

#[test]
fn an_excerpt_counts_characters_not_bytes() {
    let text = "é".repeat(1000);
    assert_eq!(error_excerpt(&text, 0, 500), "é".repeat(600));
}

#[test]
fn followed_projects_are_left_out_by_handle() {
    let config = config_skipping(&["staff", "bot"]);
    assert!(config.skips_follow("staff"));
    assert!(config.skips_follow("bot"));
    assert!(!config.skips_follow("Staff"));
    assert!(!config.skips_follow("sta"));
    assert!(!config_skipping(&[]).skips_follow("staff"));
}

#[test]
fn a_batch_begins_after_those_before_it() {
    assert_eq!(batch_offset(0, 0), 0);
    assert_eq!(batch_offset(0, 12), 0);
    assert_eq!(batch_offset(2, 12), 10);
}

#[test]
fn row_ids_keep_the_low_bits() {
    assert_eq!(to_row_id(7), 7);
    assert_eq!(to_row_id(u64::from(u32::MAX)), -1);
    assert_eq!(to_row_id(1 << 32), 0);
    assert_eq!(to_site_id(7), 7);
    assert_eq!(to_site_id(-1), u64::MAX);
    assert_eq!(to_opt_row_id(Some(9)), Some(9));
    assert_eq!(to_opt_row_id(None), None);
    assert_eq!(copy_text(&Some("a".to_string())), Some("a".to_string()));
    assert_eq!(copy_text(&None), None);
}

#[test]
fn a_name_needs_an_extension_unless_it_has_a_known_one() {
    assert!(file_name_needs_extension(&chars("picture")));
    assert!(file_name_needs_extension(&chars("picture.bin")));
    assert!(file_name_needs_extension(&chars(".png")));
    assert!(!file_name_needs_extension(&chars("picture.png")));
    assert!(!file_name_needs_extension(&chars("picture.PNG")));
    assert!(!file_name_needs_extension(&chars("a.b.webp")));
}

#[test]
fn a_query_is_its_parts_behind_a_question_mark() {
    assert_eq!(query_of_parts(&vec![]), chars(""));
    assert_eq!(query_of_parts(&vec![chars("page=2")]), chars("?page=2"));
    assert_eq!(query_of_parts(&vec![chars("page=2"), chars("a=b")]), chars("?page=2&a=b"));
}

#[test]
fn a_list_is_turned_round() {
    assert_eq!(reversed(vec![1, 2, 3]), vec![3, 2, 1]);
    assert_eq!(reversed(Vec::<u8>::new()), Vec::<u8>::new());
}

#[test]
fn addresses_fall_into_families() {
    let none: Vec<String> = vec![];
    let family = |text: &str, deny: &Vec<String>| family_of(&ResourceUrl::parse(text).unwrap(), deny);
    assert_eq!(family("https://staging.cohostcdn.org/avatar/1.png", &none), UrlFamily::StaticCdn);
    assert_eq!(family("https://cohost.org/static/a.js", &none), UrlFamily::SiteOrigin);
    assert_eq!(family("https://example.com/a.png", &none), UrlFamily::External);
    assert_eq!(family("http://example.com/a.png", &none), UrlFamily::Ignored);
    assert_eq!(family("https://example.com/a.png", &vec!["example.com".to_string()]), UrlFamily::Ignored);
    assert_eq!(family("https://staging.cohostcdn.org/", &none), UrlFamily::External);
}

#[test]
fn a_text_is_found_in_a_list() {
    let list = vec!["a".to_string(), "bc".to_string()];
    assert!(contains_text(&list, &chars("bc")));
    assert!(!contains_text(&list, &chars("b")));
    assert!(!contains_text(&vec![], &chars("")));
}

#[test]
fn characters_are_found_and_cut_out() {
    let text = chars("a/b/c");
    assert_eq!(find_from(&text, 0, '/'), 1);
    assert_eq!(find_from(&text, 2, '/'), 3);
    assert_eq!(find_from(&text, 4, '/'), 5);
    assert_eq!(find_last(&text, '/'), Some(3));
    assert_eq!(find_last(&text, 'x'), None);
    assert_eq!(slice(&text, 2, 5), chars("b/c"));
    assert_eq!(slice(&text, 2, 2), chars(""));
    assert!(same_text("ab", "ab"));
    assert!(!same_text("ab", "aB"));
}

#[test]
fn characters_take_one_to_four_bytes() {
    assert_eq!(char_width('a'), 1);
    assert_eq!(char_width('é'), 2);
    assert_eq!(char_width('€'), 3);
    assert_eq!(char_width('𝄞'), 4);
}
