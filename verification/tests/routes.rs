use cohost_dl::feed::{liked_posts_url, project_page_url, tagged_posts_url};
use cohost_dl::project::{
    AvatarShape, LoggedOutPostVisibility, ProjectAskSettings, ProjectFromCohost, ProjectPrivacy,
};
use cohost_dl::render::rewrite::{make_resource_url, rewrite_project};
use cohost_dl::trpc::trpc_query_url;

fn project() -> ProjectFromCohost {
    ProjectFromCohost {
        ask_settings: ProjectAskSettings { enabled: true, allow_anon: false, require_logged_in_anon: false },
        avatar_preview_url: "https://staging.cohostcdn.org/avatar/1.png?width=80".into(),
        avatar_shape: AvatarShape::Squircle,
        avatar_url: "https://staging.cohostcdn.org/avatar/1.png".into(),
        contact_card: vec![],
        dek: "dek".into(),
        delete_after: None,
        description: "hello".into(),
        display_name: "Someone".into(),
        flags: vec![],
        frequently_used_tags: vec![],
        handle: "someone".into(),
        header_preview_url: None,
        header_url: Some("https://staging.cohostcdn.org/header/1.png".into()),
        is_self_project: None,
        logged_out_post_visibility: LoggedOutPostVisibility::Public,
        privacy: ProjectPrivacy::Public,
        project_id: 1,
        pronouns: None,
        url: None,
    }
}

#[test]
fn addresses_become_routes() {
    assert_eq!(make_resource_url("https://example.com/a/b.png"), "/r/https/example.com/a/b.png");
    assert_eq!(
        make_resource_url("https://example.com/a/b.png?x=1&y=2#frag"),
        "/r/https/example.com/a/b.png?q=x%3D1%26y%3D2&h=frag"
    );
    assert_eq!(make_resource_url("https://example.com"), "/r/https/example.com/");
    assert_eq!(make_resource_url("https://example.com/?"), "/r/https/example.com/?q=");
    assert_eq!(make_resource_url("http://EXAMPLE.com:8080/a%20b"), "/r/http/example.com/a%20b");
}

#[test]
fn what_is_no_address_becomes_a_route_too() {
    assert_eq!(make_resource_url("not a url"), "/r/u?url=not%20a%20url");
    assert_eq!(make_resource_url("data:text/plain,hi"), "/r/u?url=data%3Atext%2Fplain%2Chi");
    assert_eq!(make_resource_url(""), "/r/u?url=");
    assert_eq!(make_resource_url("é~_-."), "/r/u?url=%C3%A9~_-.");
}

#[test]
fn every_route_is_local() {
    for text in ["https://a.test/x", "mailto:a@b.c", "", "//x", "https://a.test/?q#h"] {
        assert!(make_resource_url(text).starts_with("/r/"), "{text:?}");
    }
}

#[test]
fn saved_addresses_of_a_project_are_rewritten() {
    let mut p = project();
    let saved = vec![
        "https://staging.cohostcdn.org/avatar/1.png".to_string(),
        "https://staging.cohostcdn.org/header/1.png".into(),
    ];
    rewrite_project(&mut p, &saved);
    assert_eq!(p.avatar_url, "/r/https/staging.cohostcdn.org/avatar/1.png");
    assert_eq!(p.avatar_preview_url, "https://staging.cohostcdn.org/avatar/1.png?width=80");
    assert_eq!(p.header_url.as_deref(), Some("/r/https/staging.cohostcdn.org/header/1.png"));
    assert_eq!(p.header_preview_url, None);
    let mut expected = project();
    expected.avatar_url = p.avatar_url.clone();
    expected.header_url = p.header_url.clone();
    assert_eq!(p, expected);
}

#[test]
fn a_field_is_looked_up_by_the_address_that_it_stands_for() {
    // The list holds addresses as they resolve; a field may write its own differently.
    let mut p = project();
    p.avatar_url = "https://example.com".into();
    p.avatar_preview_url = "/static/a.png".into();
    p.header_url = Some("HTTPS://Example.com/a/../b.png".into());
    p.header_preview_url = Some("https://example.com/other.png".into());
    let saved = vec![
        "https://example.com/".to_string(),
        "https://cohost.org/static/a.png".into(),
        "https://example.com/b.png".into(),
    ];
    rewrite_project(&mut p, &saved);
    assert_eq!(p.avatar_url, "/r/https/example.com/");
    assert_eq!(p.avatar_preview_url, "/r/https/cohost.org/static/a.png");
    assert_eq!(p.header_url.as_deref(), Some("/r/https/example.com/b.png"));
    assert_eq!(p.header_preview_url.as_deref(), Some("https://example.com/other.png"));
    for field in [&p.avatar_url, &p.avatar_preview_url, p.header_url.as_ref().unwrap()] {
        assert!(field.starts_with("/r/"));
    }
    let mut expected = project();
    expected.avatar_url = p.avatar_url.clone();
    expected.avatar_preview_url = p.avatar_preview_url.clone();
    expected.header_url = p.header_url.clone();
    expected.header_preview_url = p.header_preview_url.clone();
    assert_eq!(p, expected);
}

#[test]
fn nothing_is_rewritten_without_files() {
    let mut p = project();
    rewrite_project(&mut p, &vec![]);
    assert_eq!(p, project());
}

#[test]
fn feeds_are_asked_for_page_by_page() {
    assert_eq!(liked_posts_url(None, 0).as_deref(), Some("https://cohost.org/rc/liked-posts"));
    assert_eq!(liked_posts_url(None, 20).as_deref(), Some("https://cohost.org/rc/liked-posts?skipPosts=20"));
    assert_eq!(
        liked_posts_url(Some(1700000000000), 0).as_deref(),
        Some("https://cohost.org/rc/liked-posts?refTimestamp=1700000000000")
    );
    assert_eq!(
        liked_posts_url(Some(5), 40).as_deref(),
        Some("https://cohost.org/rc/liked-posts?refTimestamp=5&skipPosts=40")
    );
    assert_eq!(
        tagged_posts_url("rust lang", None, 0).as_deref(),
        Some("https://cohost.org/rc/tagged/rust%20lang?show18PlusPosts=true")
    );
    assert_eq!(
        tagged_posts_url("a/b?c", Some(7), 40).as_deref(),
        Some("https://cohost.org/rc/tagged/a%2Fb%3Fc?show18PlusPosts=true&refTimestamp=7&skipPosts=40")
    );
    assert_eq!(project_page_url("someone").as_deref(), Some("https://cohost.org/someone"));
}

#[test]
fn queries_are_asked_with_their_input() {
    assert_eq!(
        trpc_query_url("login.loggedIn", None).as_deref(),
        Some("https://cohost.org/api/v1/trpc/login.loggedIn")
    );
    assert_eq!(
        trpc_query_url("posts.singlePost", Some("{\"handle\":\"a b\",\"postId\":1}")).as_deref(),
        Some("https://cohost.org/api/v1/trpc/posts.singlePost?input=%7B%22handle%22%3A%22a+b%22%2C%22postId%22%3A1%7D")
    );
}

#[test]
fn the_input_is_appended_by_the_address_itself() {
    // A name that holds a query or a fragment keeps both where they belong.
    assert_eq!(
        trpc_query_url("a.b?batch=1", Some("{}")).as_deref(),
        Some("https://cohost.org/api/v1/trpc/a.b?batch=1&input=%7B%7D")
    );
    assert_eq!(
        trpc_query_url("a.b#top", Some("{}")).as_deref(),
        Some("https://cohost.org/api/v1/trpc/a.b?input=%7B%7D#top")
    );
    assert_eq!(trpc_query_url("a b/../c", None).as_deref(), Some("https://cohost.org/api/v1/trpc/c"));
}

#[test]
fn pairs_are_written_as_form_fields() {
    assert_eq!(
        make_resource_url("https://example.com/a?b c*d-e.f_g~h=é"),
        "/r/https/example.com/a?q=b%2520c*d-e.f_g%7Eh%3D%25C3%25A9"
    );
    assert_eq!(make_resource_url("https://example.com/a#x y"), "/r/https/example.com/a?h=x%2520y");
    assert_eq!(
        trpc_query_url("q", Some("a b+c&d=e/~*")).as_deref(),
        Some("https://cohost.org/api/v1/trpc/q?input=a+b%2Bc%26d%3De%2F%7E*")
    );
}
