use cohost_dl::data::{CommentDataV1, PostDataV2};
use cohost_dl::post::{
    PostBlock, PostBlockAsk, PostBlockAskProject, PostBlockAttachment,
    PostBlockAttachmentWrapper, PostBlockMarkdown,
};
use cohost_dl::project::{AvatarShape, ProjectPrivacy};
use cohost_dl::res_ref::{
    add_address, add_markdown_refs, add_ref, keep_address, references_of, style_token_urls,
    ResourceRefs, StyleToken,
};

const BASE: &str = "https://cohost.org/someone/post/12-hello";

fn markdown_refs(markdown: &str) -> Vec<String> {
    let mut refs = Vec::new();
    add_markdown_refs(&mut refs, BASE, markdown);
    refs
}

fn image(file_url: &str, preview_url: &str) -> PostBlockAttachment {
    PostBlockAttachment::Image {
        alt_text: None,
        attachment_id: None,
        file_url: file_url.into(),
        preview_url: preview_url.into(),
        width: None,
        height: None,
    }
}

#[test]
fn markdown_images_are_found() {
    assert_eq!(
        markdown_refs("hello ![alt](https://img.test/a.png) and ![b](/rc/b.png)"),
        vec!["https://img.test/a.png".to_string(), "https://cohost.org/rc/b.png".into()]
    );
}

#[test]
fn html_images_sources_and_sets_are_found() {
    let refs = markdown_refs(
        "<img src=\"a.png\" srcset=\"b.png 2x, https://x.test/c.png 3x\">\n\n<audio><source src=\"/s.mp3\"></audio>",
    );
    assert_eq!(
        refs,
        vec![
            "https://cohost.org/someone/post/a.png".to_string(),
            "https://cohost.org/s.mp3".into(),
            "https://cohost.org/someone/post/b.png".into(),
            "https://x.test/c.png".into(),
        ]
    );
}

#[test]
fn style_addresses_are_found() {
    let refs = markdown_refs(
        "<div style=\"background: url(https://x.test/bg.png); mask: url('m.svg'); border-image: URL(&quot;q.png&quot;)\">x</div>",
    );
    assert_eq!(
        refs,
        vec!["https://x.test/bg.png".to_string(), "https://cohost.org/someone/post/m.svg".into()]
    );
}

#[test]
fn data_and_empty_addresses_are_passed_over() {
    let refs = markdown_refs(
        "<img src=\"data:image/png;base64,AAAA\"><img src=\"\"><img src=\" DATA:text/plain,x\"><img src=\"ok.png\">",
    );
    assert_eq!(refs, vec!["https://cohost.org/someone/post/ok.png".to_string()]);
}

#[test]
fn every_address_is_kept_once() {
    let refs = markdown_refs("![a](x.png) ![b](x.png) ![c](./x.png)");
    assert_eq!(refs, vec!["https://cohost.org/someone/post/x.png".to_string()]);
}

#[test]
fn plain_text_refers_to_nothing() {
    assert_eq!(markdown_refs("just *text* with a [link](https://x.test/page)"), Vec::<String>::new());
}

#[test]
fn resolved_addresses_are_kept_unless_data() {
    assert_eq!(keep_address(None), None);
    assert_eq!(keep_address(Some("data:text/plain,x".into())), None);
    assert_eq!(keep_address(Some("https://x.test/".into())), Some("https://x.test/".into()));
    assert_eq!(keep_address(Some("database:x".into())), Some("database:x".into()));
}

#[test]
fn addresses_are_added_in_order() {
    let mut refs = vec!["a".to_string()];
    add_address(&mut refs, Some("b".into()));
    add_address(&mut refs, None);
    add_address(&mut refs, Some("a".into()));
    assert_eq!(refs, vec!["a".to_string(), "b".into()]);
    add_ref(&mut refs, BASE, "", true);
    assert_eq!(refs.len(), 2);
    add_ref(&mut refs, BASE, "", false);
    assert_eq!(refs, vec!["a".to_string(), "b".into(), BASE.into()]);
    add_ref(&mut refs, "no base", "x.png", false);
    assert_eq!(refs.len(), 3);
}

#[test]
fn style_tokens_name_addresses() {
    let tokens = vec![
        StyleToken::Other,
        StyleToken::UnquotedUrl("a.png".into()),
        StyleToken::Function("url".into(), Some("b.png".into())),
        StyleToken::Function("url".into(), None),
        StyleToken::Function("URL".into(), Some("c.png".into())),
        StyleToken::Function("image-set".into(), Some("d.png".into())),
        StyleToken::UnquotedUrl("".into()),
    ];
    assert_eq!(style_token_urls(&tokens), vec!["a.png".to_string(), "b.png".into(), "".into()]);
}

#[test]
fn references_come_style_first() {
    let refs = references_of(
        &vec![Some("color: red".into()), None, Some("background: url(s.png)".into())],
        &vec![None, Some("a.png".into()), Some("".into())],
        &vec![Some("b.png 1x, c.png".into()), None],
    );
    assert_eq!(refs, vec!["s.png".to_string(), "a.png".into(), "".into(), "b.png".into(), "c.png".into()]);
}

#[test]
fn attachments_refer_to_file_and_preview() {
    let block = PostBlock::Attachment { attachment: image("https://c.test/f.png", "") };
    assert_eq!(block.collect_refs(BASE), vec!["https://c.test/f.png".to_string()]);
    let audio = PostBlockAttachment::Audio {
        artist: None,
        title: None,
        preview_url: "/p.mp3".into(),
        file_url: "/f.mp3".into(),
    };
    assert_eq!(
        audio.collect_refs(BASE),
        vec!["https://cohost.org/f.mp3".to_string(), "https://cohost.org/p.mp3".into()]
    );
}

#[test]
fn blocks_of_a_post_are_gone_through_in_order() {
    let data = PostDataV2 {
        blocks: vec![
            PostBlock::Markdown { markdown: PostBlockMarkdown { content: "![a](one.png)".into() } },
            PostBlock::AttachmentRow {
                attachments: vec![
                    PostBlockAttachmentWrapper { attachment: image("two.png", "one.png") },
                    PostBlockAttachmentWrapper { attachment: image("three.png", "") },
                ],
            },
            PostBlock::Ask {
                ask: PostBlockAsk {
                    anon: false,
                    logged_in: true,
                    asking_project: Some(PostBlockAskProject {
                        project_id: 4,
                        handle: "asker".into(),
                        avatar_url: "https://c.test/av.png".into(),
                        avatar_preview_url: "https://c.test/av.png".into(),
                        privacy: ProjectPrivacy::Public,
                        flags: vec![],
                        avatar_shape: AvatarShape::Circle,
                        display_name: "Asker".into(),
                    }),
                    ask_id: "1".into(),
                    content: "![q](ask.png)".into(),
                    sent_at: "2024-01-01T00:00:00Z".into(),
                },
            },
        ],
        comments_locked: false,
        shares_locked: false,
        cws: vec![],
        has_cohost_plus: false,
        headline: String::new(),
        num_comments: 0,
        num_shared_comments: 0,
        plain_text_body: String::new(),
        post_edit_url: String::new(),
        single_post_page_url: BASE.into(),
    };
    let at = |name: &str| format!("https://cohost.org/someone/post/{name}");
    assert_eq!(
        data.collect_refs(BASE),
        vec![at("one.png"), at("two.png"), at("three.png"), "https://c.test/av.png".into(), at("ask.png")]
    );
}

#[test]
fn comments_refer_to_what_their_text_shows() {
    let data = CommentDataV1 { body: "![x](/c.png)".into(), deleted: false, has_cohost_plus: false, hidden: false };
    assert_eq!(data.collect_refs(BASE), vec!["https://cohost.org/c.png".to_string()]);
}
