//! Taking over what an earlier downloader left on disk: which of its files
//! hold posts, and where it would have put a resource.

use crate::address::ResourceUrl;
use crate::encoding::{percent_decode, percent_decoded};
use crate::ext::{
    extension_for_content_type, is_known_extension, known_extension_text,
    resource_file_extension_for_content_type,
};
use crate::resource::{is_reserved, MAX_FILE_NAME_LENGTH_UTF8};
use crate::text::{
    ascii_digit, ascii_letter, char_width, find_last, from_chars, has_prefix, has_suffix,
    is_ascii_digit, is_ascii_letter, is_text, join, join_with, last_index,
    lemma_utf8_len_bounds, longer_than, push_all, push_str, slice, split, split_on, starts_with,
    string_views, to_chars, to_unicode_lowercase, unicode_lowercase, utf8_len, utf8_width,
    views,
};
use vstd::prelude::*;

verus! {

/// What to take over from an earlier downloader.
#[derive(Debug, Clone, PartialEq, Eq)]
pub struct CohostDl1ImportConfig {
    /// Where the earlier downloader put its files.
    pub path: String,
    /// Whether posts that are there already are left as they are.
    pub add_only: bool,
    /// Whether each post is asked for again once it is taken over.
    pub reload: bool,
}

/// The name of a query as the earlier downloader wrote it down: in one
/// piece, or in the pieces between its dots.
#[derive(Debug, Clone, PartialEq, Eq)]
pub enum TrpcQueryKeyId {
    One(String),
    Multi(Vec<String>),
}

impl TrpcQueryKeyId {
    /// The name of the query in one piece.
    pub open spec fn spec_as_str(&self) -> Seq<char> {
        match self {
            TrpcQueryKeyId::One(s) => s@,
            TrpcQueryKeyId::Multi(parts) => join_with(string_views(parts@), seq!['.']),
        }
    }

    /// The name of the query in one piece: its pieces with dots between
    /// them.
    pub fn as_str(&self) -> (r: String)
        ensures
            r@ == self.spec_as_str(),
    {
        match self {
            TrpcQueryKeyId::One(s) => s.clone(),
            TrpcQueryKeyId::Multi(parts) => {
                let mut chars: Vec<Vec<char>> = Vec::new();
                let mut i: usize = 0;
                while i < parts.len()
                    invariant
                        i <= parts.len(),
                        views(chars@) == string_views(parts@).take(i as int),
                    decreases parts.len() - i,
                {
                    let ghost before = views(chars@);
                    chars.push(to_chars(parts[i].as_str()));
                    assert(views(chars@) == before.push(parts@[i as int]@));
                    i = i + 1;
                }
                assert(string_views(parts@).take(parts.len() as int) == string_views(parts@));
                proof {
                    reveal_strlit(".");
                    assert("."@ == seq!['.']);
                }
                from_chars(&join(&chars, "."))
            },
        }
    }
}

/// Whether a directory of the earlier downloader may hold the posts of a
/// project: its name is a handle, which does not begin with `~`, and is
/// none of the names that the earlier downloader used for other things.
pub fn is_project_directory(name: &str) -> (r: bool)
    ensures
        r == !(has_prefix(name@, "~"@) || name@ == "rc"@ || name@ == "static"@ || name@ == "api"@),
{
    let chars = to_chars(name);
    !(starts_with(&chars, "~") || is_text(&chars, "rc") || is_text(&chars, "static") || is_text(
        &chars,
        "api",
    ))
}

fn ends_with(s: &Vec<char>, suffix: &str) -> (r: bool)
    ensures
        r == has_suffix(s@, suffix@),
{
    let t = to_chars(suffix);
    if t.len() > s.len() {
        return false;
    }
    let tail = slice(s, s.len() - t.len(), s.len());
    assert(tail@ == s@.skip(s.len() - t.len()));
    crate::text::same_chars(&tail, &t)
}

/// Whether an entry of a directory of posts holds the data of a post: it
/// is a file whose name begins with a digit and does not end in `.html`.
pub fn is_post_data_file(name: &str, is_file: bool) -> (r: bool)
    ensures
        r == (!has_suffix(name@, ".html"@) && is_file && name@.len() > 0 && is_ascii_digit(
            name@[0],
        )),
{
    let chars = to_chars(name);
    if ends_with(&chars, ".html") {
        return false;
    }
    is_file && chars.len() > 0 && ascii_digit(chars[0])
}

/// Whether a path begins with a slash, one or more ASCII letters, and
/// another slash.
pub open spec fn begins_with_letters(path: Seq<char>, at: int) -> bool
    decreases path.len() - at,
{
    if at < 1 || at >= path.len() {
        false
    } else if is_ascii_letter(path[at]) {
        begins_with_letters(path, at + 1)
    } else {
        path[at] == '/' && at > 1
    }
}

/// Whether a path is one of the content delivery network as the earlier
/// downloader saw it.
pub open spec fn is_cdn_path(path: Seq<char>) -> bool {
    path.len() > 0 && path[0] == '/' && begins_with_letters(path, 1)
}

fn cdn_path(path: &Vec<char>) -> (r: bool)
    ensures
        r == is_cdn_path(path@),
{
    if path.len() == 0 || path[0] != '/' {
        return false;
    }
    let mut at: usize = 1;
    while at < path.len() && ascii_letter(path[at])
        invariant
            1 <= at <= path.len(),
            begins_with_letters(path@, 1) == begins_with_letters(path@, at as int),
        decreases path.len() - at,
    {
        at = at + 1;
    }
    at < path.len() && path[at] == '/' && at > 1
}

/// A text percent-decoded, and as it is where it does not decode.
pub open spec fn decoded_or_same(s: Seq<char>) -> Seq<char> {
    match percent_decoded(s) {
        Some(t) => t,
        None => s,
    }
}

fn decode_or_same(s: &Vec<char>) -> (r: Vec<char>)
    ensures
        r@ == decoded_or_same(s@),
{
    let text = from_chars(s);
    match percent_decode(text.as_str()) {
        Some(t) => to_chars(t.as_str()),
        None => to_chars(text.as_str()),
    }
}

/// How many characters from the front of `s` it takes to fill `need`
/// bytes, or all of them where they do not.
pub open spec fn filling_prefix(s: Seq<char>, need: int) -> nat
    decreases s.len(),
{
    if s.len() == 0 || need <= 0 {
        0
    } else {
        1 + filling_prefix(s.skip(1), need - utf8_width(s[0]))
    }
}

/// A filling prefix lies within the text, and holds a character where the
/// text has one and something is needed.
pub proof fn lemma_filling_prefix(s: Seq<char>, need: int)
    ensures
        filling_prefix(s, need) <= s.len(),
        s.len() > 0 && need > 0 ==> filling_prefix(s, need) >= 1,
    decreases s.len(),
{
    if s.len() == 0 || need <= 0 {
    } else {
        lemma_filling_prefix(s.skip(1), need - utf8_width(s[0]));
    }
}

/// A directory and a file name, with the file name cut down to what a
/// name may hold: as long as it is longer, a piece is taken off its front
/// that fills what a name may hold, and becomes a directory of its own.
pub open spec fn cut_long_name(dirname: Seq<char>, filename: Seq<char>) -> (Seq<char>, Seq<char>)
    decreases filename.len(),
{
    let n = filling_prefix(filename, MAX_FILE_NAME_LENGTH_UTF8 as int);
    if utf8_len(filename) > MAX_FILE_NAME_LENGTH_UTF8 && 0 < n <= filename.len() {
        cut_long_name(dirname + seq!['/'] + filename.take(n as int), filename.skip(n as int))
    } else {
        (dirname, filename)
    }
}

/// The pieces without the empty ones at their end.
pub open spec fn without_trailing_empty(parts: Seq<Seq<char>>) -> Seq<Seq<char>>
    decreases parts.len(),
{
    if parts.len() > 0 && parts.last().len() == 0 {
        without_trailing_empty(parts.drop_last())
    } else {
        parts
    }
}

/// The name of the file that a path leads to, and the directory that it
/// is in: the last of the pieces between the slashes, slashes at the end
/// not counting, and the pieces before it.
pub open spec fn dir_and_name(path: Seq<char>) -> (Seq<char>, Seq<char>) {
    let parts = without_trailing_empty(split_on(path, '/'));
    if parts.len() == 0 {
        (Seq::empty(), Seq::empty())
    } else {
        (join_with(parts.drop_last(), seq!['/']), parts.last())
    }
}

/// A path with its file name cut down to what a name may hold.
pub open spec fn with_long_name_cut(path: Seq<char>) -> Seq<char> {
    let cut = cut_long_name(dir_and_name(path).0, dir_and_name(path).1);
    cut.0 + seq!['/'] + cut.1
}

/// The characters of a path as the earlier downloader wrote them on a
/// host: as they are, but for Windows, where reserved characters became
/// `-` and slashes became backslashes.
pub open spec fn host_char(c: char, windows: bool) -> char {
    if !windows {
        c
    } else if is_reserved(c) {
        '-'
    } else if c == '/' {
        '\\'
    } else {
        c
    }
}

/// A portable path with the separator of the host.
pub open spec fn host_path(path: Seq<char>, windows: bool) -> Seq<char> {
    path.map_values(|c: char| host_char(c, windows))
}

/// What the earlier downloader took for the extension of a file: the text
/// after the last dot of its name, and the whole name where it has no
/// dot.
pub open spec fn old_extension(name: Seq<char>) -> Seq<char> {
    name.skip(last_index(name, '.') + 1)
}

/// Whether the earlier downloader gave the file at a path an extension
/// from its content type: it did unless the path has a file name whose
/// extension, in lowercase, is a known one.
pub open spec fn old_path_needs_extension(path: Seq<char>) -> bool {
    let parts = without_trailing_empty(split_on(path, '/'));
    parts.len() == 0 || !is_known_extension(unicode_lowercase(old_extension(parts.last())))
}

/// A text without its first character.
pub open spec fn without_first(s: Seq<char>) -> Seq<char> {
    if s.len() > 0 {
        s.skip(1)
    } else {
        s
    }
}

/// The path of a resource before an extension is added, as the earlier
/// downloader derived it, with slashes between its names:
///
/// - for a file of the content delivery network, `rc` and the decoded
///   path;
/// - for a file of the site, the decoded path without its first
///   character;
/// - for any other address of the scheme `https` that has a host, the
///   host, the path and the query below `rc/external`, with the file name
///   cut down to what a name may hold.
pub open spec fn old_plain_path(url: crate::address::UrlParts) -> Option<Seq<char>> {
    if url.domain == Some("staging.cohostcdn.org"@) && is_cdn_path(url.path) {
        Some("rc"@ + decoded_or_same(url.path))
    } else if url.domain == Some("cohost.org"@) {
        Some(decoded_or_same(without_first(url.path)))
    } else if url.scheme == "https"@ && url.host is Some {
        Some(
            with_long_name_cut(
                "rc/external/"@ + url.host.unwrap() + url.path + crate::resource::marked(
                    '?',
                    url.query,
                ),
            ),
        )
    } else {
        None
    }
}

/// Where the earlier downloader would have put the resource at an
/// address, given the content type that is on record for it: the path as
/// derived, written as the host writes paths, with the extension of the
/// content type where the file wants one and the content type is a known
/// one. Nothing for an address that the earlier downloader did not keep.
pub open spec fn old_resource_path(
    url: crate::address::UrlParts,
    content_type: Option<Seq<char>>,
    windows: bool,
) -> Option<Seq<char>> {
    match old_plain_path(url) {
        None => None,
        Some(plain) => {
            let path = host_path(plain, windows);
            let ext = match content_type {
                Some(t) => extension_for_content_type(t),
                None => None,
            };
            if old_path_needs_extension(path) && ext is Some {
                Some(path + seq!['.'] + ext.unwrap())
            } else {
                Some(path)
            }
        },
    }
}

fn trim_trailing_empty(parts: Vec<Vec<char>>) -> (r: Vec<Vec<char>>)
    ensures
        views(r@) == without_trailing_empty(views(parts@)),
{
    let mut parts = parts;
    let ghost all = views(parts@);
    while parts.len() > 0 && parts[parts.len() - 1].len() == 0
        invariant
            without_trailing_empty(all) == without_trailing_empty(views(parts@)),
        decreases parts.len(),
    {
        let ghost before = views(parts@);
        assert(before.last() == parts@[parts.len() - 1]@);
        parts.pop();
        assert(views(parts@) == before.drop_last());
    }
    proof {
        if parts.len() > 0 {
            assert(views(parts@).last() == parts@[parts.len() - 1]@);
        }
    }
    parts
}

fn fill(s: &Vec<char>, from: usize, need: usize) -> (r: usize)
    requires
        from <= s.len(),
        need <= 1000,
    ensures
        from <= r <= s.len(),
        r - from == filling_prefix(s@.skip(from as int), need as int),
{
    let mut i: usize = from;
    let mut have: usize = 0;
    assert(s@.skip(from as int).skip(0) == s@.skip(from as int));
    while i < s.len() && have < need
        invariant
            from <= i <= s.len(),
            need <= 1000,
            have <= need + 4,
            filling_prefix(s@.skip(from as int), need as int) == (i - from) + filling_prefix(
                s@.skip(i as int),
                need - have,
            ),
        decreases s.len() - i,
    {
        assert(s@.skip(i as int)[0] == s@[i as int]);
        assert(s@.skip(i as int).skip(1) == s@.skip(i + 1));
        let w = char_width(s[i]);
        have = have + w;
        i = i + 1;
    }
    i
}

fn cut_name(dirname: Vec<char>, filename: Vec<char>) -> (r: (Vec<char>, Vec<char>))
    ensures
        (r.0@, r.1@) == cut_long_name(dirname@, filename@),
{
    let ghost first = dirname@;
    let mut dirname = dirname;
    let mut start: usize = 0;
    assert(filename@.skip(0) == filename@);
    loop
        invariant_except_break
            start <= filename.len(),
            cut_long_name(first, filename@) == cut_long_name(
                dirname@,
                filename@.skip(start as int),
            ),
        ensures
            start <= filename.len(),
            (dirname@, filename@.skip(start as int)) == cut_long_name(first, filename@),
        decreases filename.len() - start,
    {
        let rest = slice(&filename, start, filename.len());
        assert(rest@ == filename@.skip(start as int));
        if !longer_than(&rest, MAX_FILE_NAME_LENGTH_UTF8) {
            break ;
        }
        proof {
            lemma_filling_prefix(rest@, MAX_FILE_NAME_LENGTH_UTF8 as int);
            lemma_utf8_len_bounds(rest@);
        }
        let end = fill(&filename, start, MAX_FILE_NAME_LENGTH_UTF8);
        let piece = slice(&filename, start, end);
        assert(piece@ == rest@.take(end - start));
        assert(rest@.skip(end - start) == filename@.skip(end as int));
        let ghost before = dirname@;
        dirname.push('/');
        push_all(&mut dirname, &piece);
        assert(dirname@ == before + seq!['/'] + piece@);
        start = end;
    }
    let rest = slice(&filename, start, filename.len());
    assert(rest@ == filename@.skip(start as int));
    (dirname, rest)
}

fn cut_long_path(path: &Vec<char>) -> (r: Vec<char>)
    ensures
        r@ == with_long_name_cut(path@),
{
    let mut parts = trim_trailing_empty(split(path, '/'));
    let filename = match parts.pop() {
        Some(name) => name,
        None => Vec::new(),
    };
    proof {
        reveal_strlit("/");
        assert("/"@ == seq!['/']);
        let all = without_trailing_empty(split_on(path@, '/'));
        if all.len() > 0 {
            assert(views(parts@) == all.drop_last());
            assert(filename@ == all.last());
        } else {
            assert(views(parts@) == Seq::<Seq<char>>::empty());
            assert(filename@ == Seq::<char>::empty());
        }
    }
    let dirname = join(&parts, "/");
    let (mut out, name) = cut_name(dirname, filename);
    out.push('/');
    push_all(&mut out, &name);
    out
}

fn to_host_path(path: &Vec<char>, windows: bool) -> (r: Vec<char>)
    ensures
        r@ == host_path(path@, windows),
{
    let mut out: Vec<char> = Vec::new();
    let mut i: usize = 0;
    while i < path.len()
        invariant
            i <= path.len(),
            out@ == host_path(path@.take(i as int), windows),
        decreases path.len() - i,
    {
        let c = path[i];
        let d = if !windows {
            c
        } else if c == '?' || c == '%' || c == '*' || c == ':' || c == '|' || c == '"' || c
            == '<' || c == '>' {
            '-'
        } else if c == '/' {
            '\\'
        } else {
            c
        };
        out.push(d);
        assert(path@.take(i + 1) == path@.take(i as int).push(c));
        i = i + 1;
    }
    assert(path@.take(path.len() as int) == path@);
    out
}

fn old_needs_extension(path: &Vec<char>) -> (r: bool)
    ensures
        r == old_path_needs_extension(path@),
{
    let parts = trim_trailing_empty(split(path, '/'));
    if parts.len() == 0 {
        return true;
    }
    let name = &parts[parts.len() - 1];
    assert(views(parts@).last() == name@);
    let start: usize = match find_last(name, '.') {
        Some(i) => i + 1,
        None => 0,
    };
    let ext = slice(name, start, name.len());
    assert(ext@ == old_extension(name@));
    let lower = to_unicode_lowercase(from_chars(&ext).as_str());
    !known_extension_text(&to_chars(lower.as_str()))
}

fn plain_path(url: &ResourceUrl) -> (r: Option<Vec<char>>)
    ensures
        match r {
            Some(p) => old_plain_path(url@) == Some(p@),
            None => old_plain_path(url@) is None,
        },
{
    let path = to_chars(url.path.as_str());
    let domain = match &url.domain {
        Some(d) => to_chars(d.as_str()),
        None => Vec::new(),
    };
    if url.domain.is_some() && is_text(&domain, "staging.cohostcdn.org") && cdn_path(&path) {
        let mut out: Vec<char> = Vec::new();
        push_str(&mut out, "rc");
        push_all(&mut out, &decode_or_same(&path));
        assert(out@ == "rc"@ + decoded_or_same(url@.path));
        Some(out)
    } else if url.domain.is_some() && is_text(&domain, "cohost.org") {
        let rest = if path.len() > 0 {
            slice(&path, 1, path.len())
        } else {
            Vec::new()
        };
        assert(rest@ == without_first(url@.path));
        Some(decode_or_same(&rest))
    } else {
        let scheme = to_chars(url.scheme.as_str());
        if !is_text(&scheme, "https") {
            return None;
        }
        match &url.host {
            None => None,
            Some(host) => {
                let mut out: Vec<char> = Vec::new();
                push_str(&mut out, "rc/external/");
                push_str(&mut out, host.as_str());
                push_all(&mut out, &path);
                match &url.query {
                    Some(q) => {
                        let ghost before = out@;
                        out.push('?');
                        push_str(&mut out, q.as_str());
                        assert(out@ == before + (seq!['?'] + q@));
                    },
                    None => {
                        assert(out@ + Seq::<char>::empty() == out@);
                    },
                }
                assert(out@ == "rc/external/"@ + host@ + url@.path + crate::resource::marked(
                    '?',
                    url@.query,
                ));
                Some(cut_long_path(&out))
            },
        }
    }
}

/// Where the earlier downloader would have put the resource at an
/// address, given the content type that is on record for it and whether
/// it ran on Windows.
pub fn where_would_cdl1_put_a_resource(
    url: &ResourceUrl,
    content_type: Option<&str>,
    windows: bool,
) -> (r: Option<String>)
    ensures
        crate::address::opt_view(r) == old_resource_path(
            url@,
            match content_type {
                Some(t) => Some(t@),
                None => None,
            },
            windows,
        ),
{
    let plain = match plain_path(url) {
        Some(p) => p,
        None => {
            return None;
        },
    };
    let mut path = to_host_path(&plain, windows);
    if old_needs_extension(&path) {
        let ext = match content_type {
            Some(t) => resource_file_extension_for_content_type(t),
            None => None,
        };
        match ext {
            Some(e) => {
                path.push('.');
                push_str(&mut path, e);
            },
            None => {},
        }
    }
    Some(from_chars(&path))
}

/// How a post of the earlier downloader is taken over.
#[derive(Debug, Clone, Copy, PartialEq, Eq, Structural)]
pub enum ImportMode {
    /// The post is there and is left as it is: only the posts of its
    /// share tree and the comments that are not there yet are added.
    AddMissing,
    /// The post is written, and asked for again afterwards where `reload`
    /// says so.
    Insert { reload: bool },
}

/// How a post of the earlier downloader is taken over, given whether it
/// is there already.
pub fn import_mode(config: &CohostDl1ImportConfig, already_has_post: bool) -> (r: ImportMode)
    ensures
        r == (if config.add_only && already_has_post {
            ImportMode::AddMissing
        } else {
            ImportMode::Insert { reload: config.reload }
        }),
{
    if config.add_only && already_has_post {
        ImportMode::AddMissing
    } else {
        ImportMode::Insert { reload: config.reload }
    }
}

/// Whether a file of the earlier downloader is copied to where the
/// resource is meant to be kept: it is where the earlier downloader kept
/// the resource at all, elsewhere than there, and the file is on disk.
pub fn copies_old_file(old_path: Option<&str>, target_path: &str, old_file_exists: bool) -> (r:
    bool)
    ensures
        r == (match old_path {
            Some(p) => p@ != target_path@ && old_file_exists,
            None => false,
        }),
{
    match old_path {
        Some(p) => !crate::text::same_text(p, target_path) && old_file_exists,
        None => false,
    }
}

} // verus!
