use cohost_dl::ext::{content_type_for_ext, resource_file_extension_for_content_type};

#[test]
fn content_types_give_the_first_extension_that_lists_them() {
    assert_eq!(resource_file_extension_for_content_type("image/apng"), Some("apng"));
    assert_eq!(resource_file_extension_for_content_type("image/jpeg"), Some("jpeg"));
    assert_eq!(resource_file_extension_for_content_type("image/svg"), Some("svg"));
    assert_eq!(resource_file_extension_for_content_type("image/svg+xml"), Some("svg"));
    assert_eq!(resource_file_extension_for_content_type("image/tiff"), Some("tif"));
    assert_eq!(resource_file_extension_for_content_type("application/ogg"), Some("ogg"));
    assert_eq!(resource_file_extension_for_content_type("video/mp4"), Some("mp4"));
    assert_eq!(resource_file_extension_for_content_type("audio/x-wav"), Some("wav"));
    assert_eq!(resource_file_extension_for_content_type("audio/vnd.wave"), Some("wav"));
    assert_eq!(resource_file_extension_for_content_type("text/javascript"), Some("js"));
    assert_eq!(resource_file_extension_for_content_type("text/json"), Some("json"));
    assert_eq!(resource_file_extension_for_content_type("font/woff2"), Some("woff2"));
    assert_eq!(resource_file_extension_for_content_type("image/x-icon"), Some("ico"));
}

#[test]
fn parameters_of_a_content_type_do_not_count() {
    assert_eq!(resource_file_extension_for_content_type("text/css; charset=utf-8"), Some("css"));
    assert_eq!(resource_file_extension_for_content_type("image/png;q=1;x"), Some("png"));
    assert_eq!(resource_file_extension_for_content_type("image/png ; q=1"), None);
}

#[test]
fn unknown_content_types_give_no_extension() {
    assert_eq!(resource_file_extension_for_content_type(""), None);
    assert_eq!(resource_file_extension_for_content_type("application/octet-stream"), None);
    assert_eq!(resource_file_extension_for_content_type("IMAGE/PNG"), None);
    assert_eq!(resource_file_extension_for_content_type("application/json+map"), None);
}

#[test]
fn served_content_types_go_by_extension() {
    assert_eq!(content_type_for_ext(Some("avif")), "image/avif");
    assert_eq!(content_type_for_ext(Some("css")), "text/css; charset=utf-8");
    assert_eq!(content_type_for_ext(Some("gif")), "image/gif");
    assert_eq!(content_type_for_ext(Some("html")), "text/html; charset=utf-8");
    assert_eq!(content_type_for_ext(Some("jpg")), "image/jpeg");
    assert_eq!(content_type_for_ext(Some("jpeg")), "image/jpeg");
    assert_eq!(content_type_for_ext(Some("js")), "application/javascript; charset=utf-8");
    assert_eq!(content_type_for_ext(Some("jxl")), "image/jxl");
    assert_eq!(content_type_for_ext(Some("m4a")), "audio/mp4");
    assert_eq!(content_type_for_ext(Some("mp3")), "audio/mp3");
    assert_eq!(content_type_for_ext(Some("png")), "image/png");
    assert_eq!(content_type_for_ext(Some("svg")), "image/svg+xml");
    assert_eq!(content_type_for_ext(Some("wav")), "audio/wav");
    assert_eq!(content_type_for_ext(Some("webp")), "image/webp");
    assert_eq!(content_type_for_ext(Some("woff")), "font/woff");
    assert_eq!(content_type_for_ext(Some("woff2")), "font/woff2");
    assert_eq!(content_type_for_ext(Some("PNG")), "application/octet-stream");
    assert_eq!(content_type_for_ext(Some("")), "application/octet-stream");
    assert_eq!(content_type_for_ext(None), "application/octet-stream");
}
