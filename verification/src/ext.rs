//! The table of file extensions that the archive recognises, with the
//! content types that each stands for, and the content types that the
//! server answers with.

use crate::text::{
    ascii_lowercase, first_index, is_text, last_index, lemma_last_index_bounds, find_from,
    find_last, slice, to_ascii_lowercase, to_chars,
};
use vstd::prelude::*;

verus! {

/// How many extensions the table holds.
pub const KNOWN_FILE_EXTENSION_COUNT: usize = 30;

/// The extension of entry `i` of the table of known file extensions.
pub open spec fn known_extension(i: int) -> Seq<char> {
    if i == 0 {
        "apng"@
    } else if i == 1 {
        "avif"@
    } else if i == 2 {
        "bmp"@
    } else if i == 3 {
        "gif"@
    } else if i == 4 {
        "heic"@
    } else if i == 5 {
        "heif"@
    } else if i == 6 {
        "ico"@
    } else if i == 7 {
        "jpeg"@
    } else if i == 8 {
        "jpg"@
    } else if i == 9 {
        "jfif"@
    } else if i == 10 {
        "jxl"@
    } else if i == 11 {
        "png"@
    } else if i == 12 {
        "svg"@
    } else if i == 13 {
        "tif"@
    } else if i == 14 {
        "tiff"@
    } else if i == 15 {
        "webp"@
    } else if i == 16 {
        "flac"@
    } else if i == 17 {
        "ogg"@
    } else if i == 18 {
        "opus"@
    } else if i == 19 {
        "mp3"@
    } else if i == 20 {
        "mp4"@
    } else if i == 21 {
        "m4a"@
    } else if i == 22 {
        "wav"@
    } else if i == 23 {
        "css"@
    } else if i == 24 {
        "js"@
    } else if i == 25 {
        "mjs"@
    } else if i == 26 {
        "json"@
    } else if i == 27 {
        "map"@
    } else if i == 28 {
        "woff"@
    } else {
        "woff2"@
    }
}

/// Whether entry `i` of the table lists the content type `t`.
pub open spec fn entry_has_type(i: int, t: Seq<char>) -> bool {
    if i == 0 {
        t == "image/apng"@
    } else if i == 1 {
        t == "image/avif"@
    } else if i == 2 {
        t == "image/bmp"@
    } else if i == 3 {
        t == "image/gif"@
    } else if i == 4 {
        t == "image/heic"@
    } else if i == 5 {
        t == "image/heif"@
    } else if i == 6 {
        t == "image/x-icon"@
    } else if i == 7 {
        t == "image/jpeg"@
    } else if i == 8 {
        t == "image/jpeg"@
    } else if i == 9 {
        t == "image/jpeg"@
    } else if i == 10 {
        t == "image/jxl"@
    } else if i == 11 {
        t == "image/png"@
    } else if i == 12 {
        t == "image/svg+xml"@ || t == "image/svg"@
    } else if i == 13 {
        t == "image/tiff"@
    } else if i == 14 {
        t == "image/tiff"@
    } else if i == 15 {
        t == "image/webp"@
    } else if i == 16 {
        t == "audio/flac"@
    } else if i == 17 {
        t == "audio/ogg"@ || t == "video/ogg"@ || t == "application/ogg"@
    } else if i == 18 {
        t == "audio/opus"@
    } else if i == 19 {
        t == "audio/mpeg"@
    } else if i == 20 {
        t == "audio/mp4"@ || t == "video/mp4"@
    } else if i == 21 {
        t == "audio/mp4"@ || t == "video/mp4"@
    } else if i == 22 {
        t == "audio/wav"@ || t == "audio/vnd.wave"@ || t == "audio/wave"@ || t == "audio/x-wav"@
    } else if i == 23 {
        t == "text/css"@
    } else if i == 24 {
        t == "application/javascript"@ || t == "text/javascript"@
    } else if i == 25 {
        t == "application/javascript"@ || t == "text/javascript"@
    } else if i == 26 {
        t == "application/json"@ || t == "text/json"@
    } else if i == 27 {
        false
    } else if i == 28 {
        t == "font/woff"@
    } else if i == 29 {
        t == "font/woff2"@
    } else {
        false
    }
}

/// The extension of entry `i`.
pub fn extension_at(i: usize) -> (r: &'static str)
    requires
        i < KNOWN_FILE_EXTENSION_COUNT,
    ensures
        r@ == known_extension(i as int),
{
    if i == 0 {
        "apng"
    } else if i == 1 {
        "avif"
    } else if i == 2 {
        "bmp"
    } else if i == 3 {
        "gif"
    } else if i == 4 {
        "heic"
    } else if i == 5 {
        "heif"
    } else if i == 6 {
        "ico"
    } else if i == 7 {
        "jpeg"
    } else if i == 8 {
        "jpg"
    } else if i == 9 {
        "jfif"
    } else if i == 10 {
        "jxl"
    } else if i == 11 {
        "png"
    } else if i == 12 {
        "svg"
    } else if i == 13 {
        "tif"
    } else if i == 14 {
        "tiff"
    } else if i == 15 {
        "webp"
    } else if i == 16 {
        "flac"
    } else if i == 17 {
        "ogg"
    } else if i == 18 {
        "opus"
    } else if i == 19 {
        "mp3"
    } else if i == 20 {
        "mp4"
    } else if i == 21 {
        "m4a"
    } else if i == 22 {
        "wav"
    } else if i == 23 {
        "css"
    } else if i == 24 {
        "js"
    } else if i == 25 {
        "mjs"
    } else if i == 26 {
        "json"
    } else if i == 27 {
        "map"
    } else if i == 28 {
        "woff"
    } else {
        "woff2"
    }
}

/// Whether entry `i` lists the content type.
pub fn entry_lists_type(i: usize, t: &Vec<char>) -> (r: bool)
    requires
        i < KNOWN_FILE_EXTENSION_COUNT,
    ensures
        r == entry_has_type(i as int, t@),
{
    if i == 0 {
        is_text(t, "image/apng")
    } else if i == 1 {
        is_text(t, "image/avif")
    } else if i == 2 {
        is_text(t, "image/bmp")
    } else if i == 3 {
        is_text(t, "image/gif")
    } else if i == 4 {
        is_text(t, "image/heic")
    } else if i == 5 {
        is_text(t, "image/heif")
    } else if i == 6 {
        is_text(t, "image/x-icon")
    } else if i == 7 {
        is_text(t, "image/jpeg")
    } else if i == 8 {
        is_text(t, "image/jpeg")
    } else if i == 9 {
        is_text(t, "image/jpeg")
    } else if i == 10 {
        is_text(t, "image/jxl")
    } else if i == 11 {
        is_text(t, "image/png")
    } else if i == 12 {
        is_text(t, "image/svg+xml") || is_text(t, "image/svg")
    } else if i == 13 {
        is_text(t, "image/tiff")
    } else if i == 14 {
        is_text(t, "image/tiff")
    } else if i == 15 {
        is_text(t, "image/webp")
    } else if i == 16 {
        is_text(t, "audio/flac")
    } else if i == 17 {
        is_text(t, "audio/ogg") || is_text(t, "video/ogg") || is_text(t, "application/ogg")
    } else if i == 18 {
        is_text(t, "audio/opus")
    } else if i == 19 {
        is_text(t, "audio/mpeg")
    } else if i == 20 {
        is_text(t, "audio/mp4") || is_text(t, "video/mp4")
    } else if i == 21 {
        is_text(t, "audio/mp4") || is_text(t, "video/mp4")
    } else if i == 22 {
        is_text(t, "audio/wav") || is_text(t, "audio/vnd.wave") || is_text(t, "audio/wave") || is_text(t, "audio/x-wav")
    } else if i == 23 {
        is_text(t, "text/css")
    } else if i == 24 {
        is_text(t, "application/javascript") || is_text(t, "text/javascript")
    } else if i == 25 {
        is_text(t, "application/javascript") || is_text(t, "text/javascript")
    } else if i == 26 {
        is_text(t, "application/json") || is_text(t, "text/json")
    } else if i == 27 {
        false
    } else if i == 28 {
        is_text(t, "font/woff")
    } else {
        is_text(t, "font/woff2")
    }
}
/// Whether the table of known file extensions holds `e`.
pub open spec fn is_known_extension(e: Seq<char>) -> bool {
    exists|i: int| 0 <= i < KNOWN_FILE_EXTENSION_COUNT && #[trigger] known_extension(i) == e
}

/// Whether the table of known file extensions holds the given text.
pub fn known_extension_text(e: &Vec<char>) -> (r: bool)
    ensures
        r == is_known_extension(e@),
{
    let mut i: usize = 0;
    while i < KNOWN_FILE_EXTENSION_COUNT
        invariant
            i <= KNOWN_FILE_EXTENSION_COUNT,
            forall|k: int| 0 <= k < i ==> #[trigger] known_extension(k) != e@,
        decreases KNOWN_FILE_EXTENSION_COUNT - i,
    {
        if is_text(e, extension_at(i)) {
            assert(known_extension(i as int) == e@);
            return true;
        }
        i = i + 1;
    }
    false
}

/// The first entry at or after `from` that lists the content type, or the
/// number of entries where none does.
pub open spec fn first_entry_with_type(t: Seq<char>, from: int) -> int
    decreases KNOWN_FILE_EXTENSION_COUNT - from,
{
    if from < 0 || from >= KNOWN_FILE_EXTENSION_COUNT {
        KNOWN_FILE_EXTENSION_COUNT as int
    } else if entry_has_type(from, t) {
        from
    } else {
        first_entry_with_type(t, from + 1)
    }
}

/// A content type without its parameters: the text before the first `;`.
pub open spec fn content_type_base(content_type: Seq<char>) -> Seq<char> {
    content_type.take(first_index(content_type, ';'))
}

/// The extension that stands for a content type: that of the first entry of
/// the table that lists the type without its parameters.
pub open spec fn extension_for_content_type(content_type: Seq<char>) -> Option<Seq<char>> {
    let i = first_entry_with_type(content_type_base(content_type), 0);
    if i < KNOWN_FILE_EXTENSION_COUNT {
        Some(known_extension(i))
    } else {
        None
    }
}

/// The file extension to use for a resource that was served with the given
/// content type, if the type is a known one.
pub fn resource_file_extension_for_content_type(content_type: &str) -> (r: Option<&'static str>)
    ensures
        match r {
            Some(e) => extension_for_content_type(content_type@) == Some(e@),
            None => extension_for_content_type(content_type@) is None,
        },
{
    let all = to_chars(content_type);
    let end = find_from(&all, 0, ';');
    let base = slice(&all, 0, end);
    assert(all@.skip(0) == all@);
    assert(base@ == content_type_base(content_type@));
    let mut i: usize = 0;
    while i < KNOWN_FILE_EXTENSION_COUNT
        invariant
            i <= KNOWN_FILE_EXTENSION_COUNT,
            base@ == content_type_base(content_type@),
            first_entry_with_type(base@, 0) == first_entry_with_type(base@, i as int),
        decreases KNOWN_FILE_EXTENSION_COUNT - i,
    {
        if entry_lists_type(i, &base) {
            return Some(extension_at(i));
        }
        i = i + 1;
    }
    None
}

/// The extension of a file name as `Path::extension` reads it: the text
/// after the last dot, unless the name has no dot or only a leading one.
pub open spec fn extension_of(name: Seq<char>) -> Option<Seq<char>> {
    let i = last_index(name, '.');
    if i <= 0 {
        None
    } else {
        Some(name.skip(i + 1))
    }
}

/// Whether a file name lacks a known extension, compared without regard to
/// ASCII case.
pub open spec fn name_needs_extension(name: Seq<char>) -> bool {
    match extension_of(name) {
        None => true,
        Some(e) => !is_known_extension(ascii_lowercase(e)),
    }
}

/// Whether a file name lacks a known extension.
pub fn file_name_needs_extension(name: &Vec<char>) -> (r: bool)
    ensures
        r == name_needs_extension(name@),
{
    match find_last(name, '.') {
        None => true,
        Some(i) => {
            proof {
                lemma_last_index_bounds(name@, '.');
            }
            if i == 0 {
                true
            } else {
                let ext = slice(name, i + 1, name.len());
                let lower = to_ascii_lowercase(&ext);
                !known_extension_text(&lower)
            }
        },
    }
}

/// The content type that the server gives a file with the given extension.
pub open spec fn served_content_type(ext: Option<Seq<char>>) -> Seq<char> {
    match ext {
        None => "application/octet-stream"@,
        Some(e) => if e == "avif"@ {
            "image/avif"@
        } else if e == "css"@ {
            "text/css; charset=utf-8"@
        } else if e == "gif"@ {
            "image/gif"@
        } else if e == "html"@ {
            "text/html; charset=utf-8"@
        } else if e == "jpg"@ || e == "jpeg"@ {
            "image/jpeg"@
        } else if e == "js"@ {
            "application/javascript; charset=utf-8"@
        } else if e == "jxl"@ {
            "image/jxl"@
        } else if e == "m4a"@ {
            "audio/mp4"@
        } else if e == "mp3"@ {
            "audio/mp3"@
        } else if e == "png"@ {
            "image/png"@
        } else if e == "svg"@ {
            "image/svg+xml"@
        } else if e == "wav"@ {
            "audio/wav"@
        } else if e == "webp"@ {
            "image/webp"@
        } else if e == "woff"@ {
            "font/woff"@
        } else if e == "woff2"@ {
            "font/woff2"@
        } else {
            "application/octet-stream"@
        },
    }
}

/// The content type to serve a file under, chosen by its extension; a file
/// without an extension, or with one that is not listed, is served as
/// `application/octet-stream`.
pub fn content_type_for_ext(ext: Option<&str>) -> (r: &'static str)
    ensures
        r@ == served_content_type(
            match ext {
                Some(e) => Some(e@),
                None => None,
            },
        ),
{
    match ext {
        None => "application/octet-stream",
        Some(text) => {
            let e = to_chars(text);
            if is_text(&e, "avif") {
                "image/avif"
            } else if is_text(&e, "css") {
                "text/css; charset=utf-8"
            } else if is_text(&e, "gif") {
                "image/gif"
            } else if is_text(&e, "html") {
                "text/html; charset=utf-8"
            } else if is_text(&e, "jpg") || is_text(&e, "jpeg") {
                "image/jpeg"
            } else if is_text(&e, "js") {
                "application/javascript; charset=utf-8"
            } else if is_text(&e, "jxl") {
                "image/jxl"
            } else if is_text(&e, "m4a") {
                "audio/mp4"
            } else if is_text(&e, "mp3") {
                "audio/mp3"
            } else if is_text(&e, "png") {
                "image/png"
            } else if is_text(&e, "svg") {
                "image/svg+xml"
            } else if is_text(&e, "wav") {
                "audio/wav"
            } else if is_text(&e, "webp") {
                "image/webp"
            } else if is_text(&e, "woff") {
                "font/woff"
            } else if is_text(&e, "woff2") {
                "font/woff2"
            } else {
                "application/octet-stream"
            }
        },
    }
}

} // verus!
