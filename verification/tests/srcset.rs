use cohost_dl::srcset::urls_in_srcset;

#[test]
fn test_urls_in_srcset() {
    assert_eq!(
        urls_in_srcset(" https://example.com 3x, "),
        vec!["https://example.com".to_string()]
    );
    assert_eq!(
        urls_in_srcset(" https://example.com 3x, https://a.com/?a=1 , https://b.com"),
        vec![
            "https://example.com".to_string(),
            "https://a.com/?a=1".into(),
            "https://b.com".into()
        ]
    );
}
