//! Where a resource is kept: the path below the archive's root that an
//! address maps to, by the family of the address.
//!
//! A path is a list of names, root first. Joined with `/` it is the
//! portable form in which the archive records it; turning it into a path of
//! the host is left to whoever touches the disk.

use crate::address::{parse_url, parsed_url, ResourceUrl, UrlParts};
use crate::encoding::{
    hex_encode, hex_lower, lemma_hex_lower_shape, percent_decode, percent_decoded, sha256,
    sha256_digest,
};
use crate::text::{
    ascii_letter, char_width, from_chars, is_ascii_letter, is_text, join_with,
    lemma_utf8_len_concat, longer_than, push_all, push_str, slice, split, split_on,
    string_views, to_chars, utf8_len, utf8_width, views,
};
use vstd::prelude::*;
use vstd::utf8::encode_utf8;

verus! {

/// No name of an external resource is longer than this, in bytes of UTF-8.
pub const MAX_FILE_NAME_LENGTH_UTF8: usize = 250;

/// An external resource whose path, query and fragment together are longer
/// than this, in bytes of UTF-8, is kept under a digest of them.
pub const MAX_ADDITIONAL_PATH_LENGTH_UTF8: usize = 1536;

/// The families of addresses that the archive tells apart.
#[derive(Debug, Clone, Copy, PartialEq, Eq)]
pub enum UrlFamily {
    /// A file of the site's content delivery network.
    StaticCdn,
    /// A file of the site itself.
    SiteOrigin,
    /// A file of another host, reached over `https`, whose domain is not
    /// on the list of domains to leave alone.
    External,
    /// Nothing to keep.
    Ignored,
}

/// Why no path could be derived.
#[derive(Debug, Clone, Copy, PartialEq, Eq)]
pub enum ResourcePathError {
    /// A segment of the path does not decode to UTF-8.
    Undecodable,
    /// The address to fetch a file of the content delivery network from
    /// does not parse.
    BadFetchAddress,
}

/// What the archive knows of a resource before fetching it.
#[derive(Debug, Clone, PartialEq, Eq)]
pub struct ResourceUrlProps {
    /// The address to fetch, written out.
    pub fetch: String,
    /// The names of the path below the root.
    pub file_path: Vec<String>,
    /// Whether a failed fetch is put up with.
    pub can_fail: bool,
    /// Whether the file name is kept as it is, whatever its extension.
    pub skip_file_ext_check: bool,
}

/// [`ResourceUrlProps`] as texts.
pub struct PropsView {
    pub fetch: Seq<char>,
    pub file_path: Seq<Seq<char>>,
    pub can_fail: bool,
    pub skip_file_ext_check: bool,
}

impl View for ResourceUrlProps {
    type V = PropsView;

    open spec fn view(&self) -> PropsView {
        PropsView {
            fetch: self.fetch@,
            file_path: string_views(self.file_path@),
            can_fail: self.can_fail,
            skip_file_ext_check: self.skip_file_ext_check,
        }
    }
}

/// Every character is an ASCII letter.
pub open spec fn all_ascii_letters(s: Seq<char>) -> bool {
    forall|i: int| 0 <= i < s.len() ==> is_ascii_letter(#[trigger] s[i])
}

/// The segments of a path that begins with `/`: the pieces between the
/// slashes after the first.
pub open spec fn path_segments(path: Seq<char>) -> Option<Seq<Seq<char>>> {
    if path.len() > 0 && path[0] == '/' {
        Some(split_on(path.skip(1), '/'))
    } else {
        None
    }
}

/// Whether a path begins with a segment of one or more ASCII letters.
pub open spec fn has_letter_segment(path: Seq<char>) -> bool {
    match path_segments(path) {
        Some(segments) => segments[0].len() > 0 && all_ascii_letters(segments[0]),
        None => false,
    }
}

/// The family of an address, given the domains to leave alone.
pub open spec fn url_family(url: UrlParts, denied: Seq<Seq<char>>) -> UrlFamily {
    if url.domain == Some("staging.cohostcdn.org"@) && has_letter_segment(url.path) {
        UrlFamily::StaticCdn
    } else if url.domain == Some("cohost.org"@) {
        UrlFamily::SiteOrigin
    } else if url.scheme == "https"@ && url.domain is Some && !denied.contains(
        url.domain.unwrap(),
    ) {
        UrlFamily::External
    } else {
        UrlFamily::Ignored
    }
}

/// The segments percent-decoded one by one, empty ones left out where
/// `skip_empty` says so; nothing where one of them does not decode.
pub open spec fn decoded_segments(segments: Seq<Seq<char>>, skip_empty: bool) -> Option<
    Seq<Seq<char>>,
>
    decreases segments.len(),
{
    if segments.len() == 0 {
        Some(Seq::empty())
    } else {
        match decoded_segments(segments.drop_last(), skip_empty) {
            None => None,
            Some(front) => if skip_empty && segments.last().len() == 0 {
                Some(front)
            } else {
                match percent_decoded(segments.last()) {
                    None => None,
                    Some(name) => Some(front.push(name)),
                }
            },
        }
    }
}

/// The text that follows `mark` where there is one, and nothing otherwise.
pub open spec fn marked(mark: char, part: Option<Seq<char>>) -> Seq<char> {
    match part {
        Some(p) => seq![mark] + p,
        None => Seq::empty(),
    }
}

/// `s` without one leading and one trailing slash.
pub open spec fn trimmed_slashes(s: Seq<char>) -> Seq<char> {
    let a = if s.len() > 0 && s[0] == '/' {
        s.skip(1)
    } else {
        s
    };
    if a.len() > 0 && a.last() == '/' {
        a.drop_last()
    } else {
        a
    }
}

/// The name under which an over-long path is kept: `(hash)_` and the
/// SHA-256 digest of the path in hexadecimal.
pub open spec fn hashed_name(s: Seq<char>) -> Seq<char> {
    "(hash)_"@ + hex_lower(sha256_digest(encode_utf8(s)))
}

/// The number of characters of the name under which an over-long path is
/// kept: the seven of `(hash)_` and two for each of the 32 bytes of the
/// digest.
pub const HASHED_NAME_LENGTH: usize = 71;

/// The characters that the name of an over-long path is made of: digits,
/// small letters, brackets and `_`.
pub open spec fn is_hashed_name_char(c: char) -> bool {
    ('0' <= c && c <= '9') || ('a' <= c && c <= 'z') || c == '(' || c == ')' || c == '_'
}

/// What of an external address goes into the path below its host, before
/// its length is looked at: path, query and fragment without the outer
/// slashes, and `_` where that leaves nothing.
pub open spec fn plain_additional_path(url: UrlParts) -> Seq<char> {
    let trimmed = trimmed_slashes(url.path + marked('?', url.query) + marked('#', url.fragment));
    if trimmed.len() == 0 {
        seq!['_']
    } else {
        trimmed
    }
}

/// What of an external address goes into the path below its host: path,
/// query and fragment without the outer slashes, `_` where that leaves
/// nothing, and a digest where it is too long.
pub open spec fn additional_path(url: UrlParts) -> Seq<char> {
    let named = plain_additional_path(url);
    if utf8_len(named) > MAX_ADDITIONAL_PATH_LENGTH_UTF8 {
        hashed_name(named)
    } else {
        named
    }
}

/// The characters that no file name may hold on every host.
pub open spec fn is_reserved(c: char) -> bool {
    c == '?' || c == '%' || c == '*' || c == ':' || c == '|' || c == '"' || c == '<' || c == '>'
}

/// A reserved character becomes `-`; every other is itself.
pub open spec fn sanitized(c: char) -> char {
    if is_reserved(c) {
        '-'
    } else {
        c
    }
}

/// The text with every reserved character replaced.
pub open spec fn sanitized_text(s: Seq<char>) -> Seq<char> {
    s.map_values(|c: char| sanitized(c))
}

/// How many characters from the front of `s` fit into `limit` bytes.
pub open spec fn fitting_prefix(s: Seq<char>, limit: nat) -> nat
    decreases s.len(),
{
    if s.len() == 0 || utf8_width(s[0]) > limit {
        0
    } else {
        1 + fitting_prefix(s.skip(1), (limit - utf8_width(s[0])) as nat)
    }
}

/// `s` cut into pieces of which each is the longest that fits into `limit`
/// bytes.
pub open spec fn chunks(s: Seq<char>, limit: nat) -> Seq<Seq<char>>
    decreases s.len(),
{
    let n = fitting_prefix(s, limit);
    if s.len() == 0 {
        Seq::empty()
    } else if n == 0 || n > s.len() {
        seq![s]
    } else {
        seq![s.take(n as int)] + chunks(s.skip(n as int), limit)
    }
}

/// The names that one segment of an external address gives: the sanitized
/// segment, cut up where it is longer than a name may be.
pub open spec fn segment_names(segment: Seq<char>) -> Seq<Seq<char>> {
    let clean = sanitized_text(segment);
    if utf8_len(clean) > MAX_FILE_NAME_LENGTH_UTF8 {
        chunks(clean, MAX_FILE_NAME_LENGTH_UTF8 as nat)
    } else {
        seq![clean]
    }
}

/// The names that the segments of an external address give, in order.
pub open spec fn external_names(segments: Seq<Seq<char>>) -> Seq<Seq<char>>
    decreases segments.len(),
{
    if segments.len() == 0 {
        Seq::empty()
    } else {
        external_names(segments.drop_last()) + segment_names(segments.last())
    }
}

/// The host of an address as a name, empty where it has none.
pub open spec fn host_name(url: UrlParts) -> Seq<char> {
    match url.host {
        Some(h) => h,
        None => Seq::empty(),
    }
}

/// The segments of a path of the site itself.
pub open spec fn site_segments(path: Seq<char>) -> Seq<Seq<char>> {
    match path_segments(path) {
        Some(segments) => segments,
        None => Seq::empty(),
    }
}

/// The address that a file of the content delivery network is fetched
/// from, before it is parsed.
pub open spec fn cdn_fetch_text(url: UrlParts) -> Seq<char> {
    "https://staging.cohostcdn.org/"@ + url.path
}

/// What the archive knows of the resource at an address:
///
/// - a file of the content delivery network goes below `rc`, under its
///   decoded path segments, and must not fail;
/// - a file of the site goes under its decoded, non-empty path segments,
///   and must not fail;
/// - a file of another host goes below `rc/external` and the host, under
///   the names that its path, query and fragment give, and may fail; only
///   such a file may get an extension from its content type;
/// - any other address is not kept.
pub open spec fn resource_props(url: UrlParts, denied: Seq<Seq<char>>) -> Result<
    Option<PropsView>,
    ResourcePathError,
> {
    match url_family(url, denied) {
        UrlFamily::StaticCdn => match decoded_segments(path_segments(url.path).unwrap(), false) {
            None => Err(ResourcePathError::Undecodable),
            Some(names) => match parsed_url(cdn_fetch_text(url)) {
                None => Err(ResourcePathError::BadFetchAddress),
                Some(fetch) => Ok(
                    Some(
                        PropsView {
                            fetch: fetch.href,
                            file_path: seq!["rc"@] + names,
                            can_fail: false,
                            skip_file_ext_check: true,
                        },
                    ),
                ),
            },
        },
        UrlFamily::SiteOrigin => match decoded_segments(site_segments(url.path), true) {
            None => Err(ResourcePathError::Undecodable),
            Some(names) => Ok(
                Some(
                    PropsView {
                        fetch: url.href,
                        file_path: names,
                        can_fail: false,
                        skip_file_ext_check: true,
                    },
                ),
            ),
        },
        UrlFamily::External => Ok(
            Some(
                PropsView {
                    fetch: url.href,
                    file_path: seq!["rc"@, "external"@, host_name(url)] + external_names(
                        split_on(additional_path(url), '/'),
                    ),
                    can_fail: true,
                    skip_file_ext_check: false,
                },
            ),
        ),
        UrlFamily::Ignored => Ok(None),
    }
}

/// The longest prefix that fits is within the text and within the limit,
/// and the character after it, if there is one, no longer fits.
pub proof fn lemma_fitting_prefix(s: Seq<char>, limit: nat)
    ensures
        fitting_prefix(s, limit) <= s.len(),
        utf8_len(s.take(fitting_prefix(s, limit) as int)) <= limit,
        fitting_prefix(s, limit) < s.len() ==> utf8_len(
            s.take(fitting_prefix(s, limit) as int + 1),
        ) > limit,
        s.len() > 0 && limit >= 4 ==> fitting_prefix(s, limit) >= 1,
    decreases s.len(),
{
    if s.len() == 0 || utf8_width(s[0]) > limit {
        assert(s.take(0) == Seq::<char>::empty());
        if s.len() > 0 {
            assert(s.take(1).drop_last() == Seq::<char>::empty());
        }
    } else {
        let w = utf8_width(s[0]);
        let rest = s.skip(1);
        let m = fitting_prefix(rest, (limit - w) as nat);
        lemma_fitting_prefix(rest, (limit - w) as nat);
        assert(s.take(m as int + 1) == seq![s[0]] + rest.take(m as int));
        lemma_utf8_len_concat(seq![s[0]], rest.take(m as int));
        assert(seq![s[0]].drop_last() == Seq::<char>::empty());
        assert(utf8_len(Seq::<char>::empty()) == 0);
        assert(utf8_len(seq![s[0]]) == w);
        if m < rest.len() {
            assert(s.take(m as int + 2) == seq![s[0]] + rest.take(m as int + 1));
            lemma_utf8_len_concat(seq![s[0]], rest.take(m as int + 1));
        }
    }
}

/// Every piece of a text cut to a limit of four bytes or more fits the
/// limit, and none is empty.
pub proof fn lemma_chunks_fit(s: Seq<char>, limit: nat)
    requires
        limit >= 4,
    ensures
        forall|i: int|
            0 <= i < chunks(s, limit).len() ==> utf8_len(#[trigger] chunks(s, limit)[i]) <= limit
                && chunks(s, limit)[i].len() > 0,
    decreases s.len(),
{
    if s.len() > 0 {
        lemma_fitting_prefix(s, limit);
        let n = fitting_prefix(s, limit);
        lemma_chunks_fit(s.skip(n as int), limit);
        assert forall|i: int| 0 <= i < chunks(s, limit).len() implies utf8_len(
            #[trigger] chunks(s, limit)[i],
        ) <= limit && chunks(s, limit)[i].len() > 0 by {
            if i > 0 {
                assert(chunks(s, limit)[i] == chunks(s.skip(n as int), limit)[i - 1]);
            }
        }
    }
}

/// The pieces of a text, put together again, are the text.
pub proof fn lemma_chunks_join(s: Seq<char>, limit: nat)
    ensures
        join_with(chunks(s, limit), Seq::empty()) == s,
    decreases s.len(),
{
    let n = fitting_prefix(s, limit);
    if s.len() == 0 {
    } else if n == 0 || n > s.len() {
    } else {
        let rest = s.skip(n as int);
        lemma_chunks_join(rest, limit);
        lemma_join_front(s.take(n as int), chunks(rest, limit));
        assert(s.take(n as int) + rest == s);
    }
}

/// Joining without a separator is concatenation.
pub proof fn lemma_join_front(first: Seq<char>, rest: Seq<Seq<char>>)
    ensures
        join_with(seq![first] + rest, Seq::empty()) == first + join_with(rest, Seq::empty()),
    decreases rest.len(),
{
    let all = seq![first] + rest;
    if rest.len() == 0 {
        assert(all == seq![first]);
        assert(first + Seq::<char>::empty() == first);
    } else {
        assert(all.drop_last() == seq![first] + rest.drop_last());
        assert(all.last() == rest.last());
        lemma_join_front(first, rest.drop_last());
        if rest.len() == 1 {
            assert(rest.drop_last() == Seq::<Seq<char>>::empty());
            assert(join_with(rest, Seq::empty()) == rest[0]);
            assert(join_with(all.drop_last(), Seq::empty()) == first);
            assert(first + Seq::<char>::empty() + rest.last() == first + rest[0]);
        } else {
            assert(join_with(all, Seq::empty()) == join_with(all.drop_last(), Seq::empty())
                + Seq::<char>::empty() + all.last());
            assert(join_with(rest, Seq::empty()) == join_with(rest.drop_last(), Seq::empty())
                + Seq::<char>::empty() + rest.last());
            assert((first + join_with(rest.drop_last(), Seq::empty())) + Seq::<char>::empty()
                + rest.last() == first + (join_with(rest.drop_last(), Seq::empty())
                + Seq::<char>::empty() + rest.last()));
        }
    }
}

/// Every name that a segment of an external address gives fits into a file
/// name.
pub proof fn lemma_segment_names_fit(segment: Seq<char>)
    ensures
        forall|i: int|
            0 <= i < segment_names(segment).len() ==> utf8_len(
                #[trigger] segment_names(segment)[i],
            ) <= MAX_FILE_NAME_LENGTH_UTF8,
{
    lemma_chunks_fit(sanitized_text(segment), MAX_FILE_NAME_LENGTH_UTF8 as nat);
}

/// Every name below the host of an external resource fits into a file
/// name.
pub proof fn lemma_external_names_fit(segments: Seq<Seq<char>>)
    ensures
        forall|i: int|
            0 <= i < external_names(segments).len() ==> utf8_len(
                #[trigger] external_names(segments)[i],
            ) <= MAX_FILE_NAME_LENGTH_UTF8,
    decreases segments.len(),
{
    if segments.len() > 0 {
        lemma_external_names_fit(segments.drop_last());
        lemma_segment_names_fit(segments.last());
        let front = external_names(segments.drop_last());
        assert forall|i: int| 0 <= i < external_names(segments).len() implies utf8_len(
            #[trigger] external_names(segments)[i],
        ) <= MAX_FILE_NAME_LENGTH_UTF8 by {
            if i < front.len() {
                assert(external_names(segments)[i] == front[i]);
            } else {
                assert(external_names(segments)[i] == segment_names(segments.last())[i
                    - front.len()]);
            }
        }
    }
}

/// Whether the list holds the text.
pub fn contains_text(list: &Vec<String>, item: &Vec<char>) -> (r: bool)
    ensures
        r == string_views(list@).contains(item@),
{
    let mut i: usize = 0;
    while i < list.len()
        invariant
            i <= list.len(),
            forall|k: int| 0 <= k < i ==> string_views(list@)[k] != item@,
        decreases list.len() - i,
    {
        if is_text(item, list[i].as_str()) {
            assert(string_views(list@)[i as int] == item@);
            return true;
        }
        i = i + 1;
    }
    false
}

fn all_letters(s: &Vec<char>) -> (r: bool)
    ensures
        r == all_ascii_letters(s@),
{
    let mut i: usize = 0;
    while i < s.len()
        invariant
            i <= s.len(),
            forall|k: int| 0 <= k < i ==> is_ascii_letter(#[trigger] s@[k]),
        decreases s.len() - i,
    {
        if !ascii_letter(s[i]) {
            return false;
        }
        i = i + 1;
    }
    true
}

fn segments_of(path: &Vec<char>) -> (r: Option<Vec<Vec<char>>>)
    ensures
        match r {
            Some(v) => path_segments(path@) == Some(views(v@)) && v.len() >= 1,
            None => path_segments(path@) is None,
        },
{
    if path.len() > 0 && path[0] == '/' {
        let rest = slice(path, 1, path.len());
        assert(rest@ == path@.skip(1));
        Some(split(&rest, '/'))
    } else {
        None
    }
}

fn decode_segments(segments: &Vec<Vec<char>>, skip_empty: bool) -> (r: Option<Vec<String>>)
    ensures
        match r {
            Some(v) => decoded_segments(views(segments@), skip_empty) == Some(string_views(v@)),
            None => decoded_segments(views(segments@), skip_empty) is None,
        },
{
    let mut out: Vec<String> = Vec::new();
    let mut i: usize = 0;
    assert(views(segments@).take(0) == Seq::<Seq<char>>::empty());
    assert(string_views(out@) == Seq::<Seq<char>>::empty());
    while i < segments.len()
        invariant
            i <= segments.len(),
            decoded_segments(views(segments@).take(i as int), skip_empty) == Some(
                string_views(out@),
            ),
        decreases segments.len() - i,
    {
        let ghost front = views(segments@).take(i as int);
        let ghost next = views(segments@).take(i + 1);
        assert(next.drop_last() == front);
        assert(next.last() == segments@[i as int]@);
        let ghost before = string_views(out@);
        if skip_empty && segments[i].len() == 0 {
        } else {
            let text = from_chars(&segments[i]);
            match percent_decode(text.as_str()) {
                Some(name) => {
                    out.push(name);
                    assert(string_views(out@) == before.push(name@));
                },
                None => {
                    proof {
                        lemma_decoded_segments_fail(views(segments@), skip_empty, i + 1);
                    }
                    return None;
                },
            }
        }
        i = i + 1;
    }
    assert(views(segments@).take(segments.len() as int) == views(segments@));
    Some(out)
}

/// Once a front of the segments fails to decode, the whole does.
pub proof fn lemma_decoded_segments_fail(segments: Seq<Seq<char>>, skip_empty: bool, n: int)
    requires
        0 <= n <= segments.len(),
        decoded_segments(segments.take(n), skip_empty) is None,
    ensures
        decoded_segments(segments, skip_empty) is None,
    decreases segments.len() - n,
{
    if n == segments.len() {
        assert(segments.take(n) == segments);
    } else {
        assert(segments.take(n + 1).drop_last() == segments.take(n));
        lemma_decoded_segments_fail(segments, skip_empty, n + 1);
    }
}

fn push_marked(out: &mut Vec<char>, mark: char, part: &Option<String>)
    ensures
        final(out)@ == old(out)@ + marked(mark, crate::address::opt_view(*part)),
{
    match part {
        Some(p) => {
            out.push(mark);
            push_str(out, p.as_str());
            assert(old(out)@.push(mark) + p@ == old(out)@ + (seq![mark] + p@));
        },
        None => {
            assert(old(out)@ + Seq::<char>::empty() == old(out)@);
        },
    }
}

fn hashed_name_of(s: &Vec<char>) -> (r: Vec<char>)
    ensures
        r@ == hashed_name(s@),
        r@.len() == HASHED_NAME_LENGTH,
        forall|i: int| 0 <= i < r@.len() ==> is_hashed_name_char(#[trigger] r@[i]),
{
    let text = from_chars(s);
    let digest = sha256(text.as_str().as_bytes());
    let hex = hex_encode(digest.as_slice());
    let mut out: Vec<char> = Vec::new();
    push_str(&mut out, "(hash)_");
    push_str(&mut out, hex.as_str());
    assert(Seq::<char>::empty() + "(hash)_"@ == "(hash)_"@);
    proof {
        reveal_strlit("(hash)_");
        lemma_hex_lower_shape(digest@);
        assert forall|i: int| 0 <= i < out@.len() implies is_hashed_name_char(
            #[trigger] out@[i],
        ) by {
            if i >= 7 {
                assert(out@[i] == hex_lower(digest@)[i - 7]);
            }
        }
    }
    out
}

/// A text of the characters of a hashed name that is no longer than a
/// name may be is one name: it holds no slash and nothing to replace,
/// and each of its characters takes one byte.
proof fn lemma_hashed_name_is_one_name(s: Seq<char>)
    requires
        s.len() <= MAX_FILE_NAME_LENGTH_UTF8,
        forall|i: int| 0 <= i < s.len() ==> is_hashed_name_char(#[trigger] s[i]),
    ensures
        external_names(split_on(s, '/')) == seq![s],
{
    crate::text::lemma_first_index_is(s, '/', s.len() as int);
    assert(split_on(s, '/') == seq![s]);
    assert(seq![s].drop_last() == Seq::<Seq<char>>::empty());
    assert(external_names(Seq::<Seq<char>>::empty()) == Seq::<Seq<char>>::empty());
    assert(sanitized_text(s) == s);
    lemma_one_byte_each(s);
    assert(segment_names(s) == seq![s]);
    assert(Seq::<Seq<char>>::empty() + seq![s] == seq![s]);
}

/// A text of the characters of a hashed name takes one byte for each.
proof fn lemma_one_byte_each(s: Seq<char>)
    requires
        forall|i: int| 0 <= i < s.len() ==> is_hashed_name_char(#[trigger] s[i]),
    ensures
        utf8_len(s) == s.len(),
    decreases s.len(),
{
    if s.len() > 0 {
        assert forall|i: int| 0 <= i < s.drop_last().len() implies is_hashed_name_char(
            #[trigger] s.drop_last()[i],
        ) by {
            assert(s.drop_last()[i] == s[i]);
        }
        lemma_one_byte_each(s.drop_last());
        assert(is_hashed_name_char(s[s.len() - 1]));
    }
}

fn additional_path_of(url: &ResourceUrl) -> (r: Vec<char>)
    ensures
        r@ == additional_path(url@),
        utf8_len(plain_additional_path(url@)) > MAX_ADDITIONAL_PATH_LENGTH_UTF8 ==> r@.len()
            == HASHED_NAME_LENGTH && forall|i: int|
            0 <= i < r@.len() ==> is_hashed_name_char(#[trigger] r@[i]),
{
    let mut full: Vec<char> = to_chars(url.path.as_str());
    push_marked(&mut full, '?', &url.query);
    push_marked(&mut full, '#', &url.fragment);
    let start: usize = if full.len() > 0 && full[0] == '/' {
        1
    } else {
        0
    };
    assert(full@.skip(0) == full@);
    let end: usize = if full.len() > start && full[full.len() - 1] == '/' {
        full.len() - 1
    } else {
        full.len()
    };
    let trimmed = slice(&full, start, end);
    assert(trimmed@ == trimmed_slashes(full@)) by {
        let a = full@.skip(start as int);
        assert(full@.subrange(start as int, full.len() as int) == a);
        if a.len() > 0 && a.last() == '/' {
            assert(full@.subrange(start as int, end as int) == a.drop_last());
        }
    }
    let named = if trimmed.len() == 0 {
        let mut one: Vec<char> = Vec::new();
        one.push('_');
        assert(one@ == seq!['_']);
        one
    } else {
        trimmed
    };
    if longer_than(&named, MAX_ADDITIONAL_PATH_LENGTH_UTF8) {
        hashed_name_of(&named)
    } else {
        named
    }
}

fn sanitize_char(c: char) -> (r: char)
    ensures
        r == sanitized(c),
{
    if c == '?' || c == '%' || c == '*' || c == ':' || c == '|' || c == '"' || c == '<' || c
        == '>' {
        '-'
    } else {
        c
    }
}

fn sanitize(s: &Vec<char>) -> (r: Vec<char>)
    ensures
        r@ == sanitized_text(s@),
{
    let mut out: Vec<char> = Vec::new();
    let mut i: usize = 0;
    while i < s.len()
        invariant
            i <= s.len(),
            out@ == sanitized_text(s@.take(i as int)),
        decreases s.len() - i,
    {
        out.push(sanitize_char(s[i]));
        assert(s@.take(i + 1) == s@.take(i as int).push(s@[i as int]));
        i = i + 1;
    }
    assert(s@.take(s.len() as int) == s@);
    out
}

/// The end of the longest run of characters from `from` that fits into
/// `limit` bytes.
fn fit(s: &Vec<char>, from: usize, limit: usize) -> (r: usize)
    requires
        from <= s.len(),
    ensures
        from <= r <= s.len(),
        r - from == fitting_prefix(s@.skip(from as int), limit as nat),
{
    let mut i: usize = from;
    let mut left: usize = limit;
    assert(s@.skip(from as int).skip(0) == s@.skip(from as int));
    loop
        invariant_except_break
            from <= i <= s.len(),
            left <= limit,
            fitting_prefix(s@.skip(from as int), limit as nat) == (i - from) + fitting_prefix(
                s@.skip(i as int),
                left as nat,
            ),
        ensures
            from <= i <= s.len(),
            i - from == fitting_prefix(s@.skip(from as int), limit as nat),
        decreases s.len() - i,
    {
        if i >= s.len() {
            break ;
        }
        let w = char_width(s[i]);
        assert(s@.skip(i as int)[0] == s@[i as int]);
        if w > left {
            break ;
        }
        assert(s@.skip(i as int).skip(1) == s@.skip(i + 1));
        left = left - w;
        i = i + 1;
    }
    i
}

fn chunk(s: &Vec<char>, limit: usize) -> (r: Vec<Vec<char>>)
    requires
        limit >= 4,
    ensures
        views(r@) == chunks(s@, limit as nat),
{
    let mut out: Vec<Vec<char>> = Vec::new();
    let mut start: usize = 0;
    assert(s@.skip(0) == s@);
    assert(views(out@) + chunks(s@, limit as nat) == chunks(s@, limit as nat));
    while start < s.len()
        invariant
            start <= s.len(),
            limit >= 4,
            chunks(s@, limit as nat) == views(out@) + chunks(s@.skip(start as int), limit as nat),
        decreases s.len() - start,
    {
        let ghost rest = s@.skip(start as int);
        let ghost before = views(out@);
        proof {
            lemma_fitting_prefix(rest, limit as nat);
        }
        let end = fit(s, start, limit);
        let piece = slice(s, start, end);
        assert(piece@ == rest.take(end - start));
        assert(rest.skip(end - start) == s@.skip(end as int));
        out.push(piece);
        assert(views(out@) == before.push(piece@));
        assert(before + (seq![piece@] + chunks(s@.skip(end as int), limit as nat)) == before.push(
            piece@,
        ) + chunks(s@.skip(end as int), limit as nat));
        start = end;
    }
    assert(chunks(s@.skip(s.len() as int), limit as nat) == Seq::<Seq<char>>::empty());
    assert(views(out@) + Seq::<Seq<char>>::empty() == views(out@));
    out
}

fn push_names(out: &mut Vec<String>, names: &Vec<Vec<char>>)
    ensures
        string_views(final(out)@) == string_views(old(out)@) + views(names@),
{
    let ghost before = string_views(out@);
    let mut i: usize = 0;
    assert(before + views(names@).take(0) == before);
    while i < names.len()
        invariant
            i <= names.len(),
            string_views(out@) == before + views(names@).take(i as int),
        decreases names.len() - i,
    {
        let ghost so_far = string_views(out@);
        let name = from_chars(&names[i]);
        out.push(name);
        assert(string_views(out@) == so_far.push(name@));
        assert(views(names@).take(i + 1) == views(names@).take(i as int).push(names@[i as int]@));
        assert(before + views(names@).take(i as int).push(name@) == (before + views(names@).take(
            i as int,
        )).push(name@));
        i = i + 1;
    }
    assert(views(names@).take(names.len() as int) == views(names@));
}

fn external_names_of(out: &mut Vec<String>, segments: &Vec<Vec<char>>)
    ensures
        string_views(final(out)@) == string_views(old(out)@) + external_names(views(segments@)),
{
    let ghost before = string_views(out@);
    let mut i: usize = 0;
    assert(views(segments@).take(0) == Seq::<Seq<char>>::empty());
    assert(before + external_names(Seq::<Seq<char>>::empty()) == before);
    while i < segments.len()
        invariant
            i <= segments.len(),
            string_views(out@) == before + external_names(views(segments@).take(i as int)),
        decreases segments.len() - i,
    {
        let ghost front = views(segments@).take(i as int);
        let ghost next = views(segments@).take(i + 1);
        assert(next.drop_last() == front);
        assert(next.last() == segments@[i as int]@);
        let ghost so_far = string_views(out@);
        let clean = sanitize(&segments[i]);
        if longer_than(&clean, MAX_FILE_NAME_LENGTH_UTF8) {
            let pieces = chunk(&clean, MAX_FILE_NAME_LENGTH_UTF8);
            push_names(out, &pieces);
        } else {
            let name = from_chars(&clean);
            out.push(name);
            assert(string_views(out@) == so_far + seq![clean@]);
        }
        assert(string_views(out@) == so_far + segment_names(segments@[i as int]@));
        assert((before + external_names(front)) + segment_names(segments@[i as int]@) == before + (
        external_names(front) + segment_names(segments@[i as int]@)));
        i = i + 1;
    }
    assert(views(segments@).take(segments.len() as int) == views(segments@));
}

fn option_is_text(part: &Option<String>, text: &str) -> (r: bool)
    ensures
        r == (crate::address::opt_view(*part) == Some(text@)),
{
    match part {
        Some(p) => {
            let chars = to_chars(p.as_str());
            is_text(&chars, text)
        },
        None => false,
    }
}

fn begins_with_letters(path: &Vec<char>) -> (r: bool)
    ensures
        r == has_letter_segment(path@),
{
    match segments_of(path) {
        Some(segments) => {
            assert(views(segments@)[0] == segments@[0]@);
            segments[0].len() > 0 && all_letters(&segments[0])
        },
        None => false,
    }
}

/// The family of an address, given the domains to leave alone.
pub fn family_of(url: &ResourceUrl, do_not_fetch_domains: &Vec<String>) -> (r: UrlFamily)
    ensures
        r == url_family(url@, string_views(do_not_fetch_domains@)),
{
    let path = to_chars(url.path.as_str());
    if option_is_text(&url.domain, "staging.cohostcdn.org") && begins_with_letters(&path) {
        UrlFamily::StaticCdn
    } else if option_is_text(&url.domain, "cohost.org") {
        UrlFamily::SiteOrigin
    } else {
        let scheme = to_chars(url.scheme.as_str());
        if !is_text(&scheme, "https") {
            return UrlFamily::Ignored;
        }
        match &url.domain {
            Some(d) => {
                let domain = to_chars(d.as_str());
                if contains_text(do_not_fetch_domains, &domain) {
                    UrlFamily::Ignored
                } else {
                    UrlFamily::External
                }
            },
            None => UrlFamily::Ignored,
        }
    }
}

/// What the archive knows of the resource at an address, or `None` for an
/// address that it does not keep.
///
/// Every name below the host of an external resource fits into
/// [`MAX_FILE_NAME_LENGTH_UTF8`] bytes. Where what follows the host is
/// longer than [`MAX_ADDITIONAL_PATH_LENGTH_UTF8`] bytes, the one name
/// below the host is `(hash)_` and the digest of it, in all
/// [`HASHED_NAME_LENGTH`] characters.
pub fn props_for_resource_url(url: &ResourceUrl, do_not_fetch_domains: &Vec<String>) -> (r: Result<
    Option<ResourceUrlProps>,
    ResourcePathError,
>)
    ensures
        match r {
            Ok(Some(props)) => resource_props(url@, string_views(do_not_fetch_domains@)) == Ok::<
                Option<PropsView>,
                ResourcePathError,
            >(Some(props@)),
            Ok(None) => resource_props(url@, string_views(do_not_fetch_domains@)) == Ok::<
                Option<PropsView>,
                ResourcePathError,
            >(None),
            Err(e) => resource_props(url@, string_views(do_not_fetch_domains@)) == Err::<
                Option<PropsView>,
                ResourcePathError,
            >(e),
        },
        match r {
            Ok(Some(props)) => !props.skip_file_ext_check ==> forall|i: int|
                3 <= i < props.file_path.len() ==> utf8_len(#[trigger] props.file_path@[i]@)
                    <= MAX_FILE_NAME_LENGTH_UTF8,
            _ => true,
        },
        match r {
            Ok(Some(props)) => url_family(url@, string_views(do_not_fetch_domains@))
                == UrlFamily::External && utf8_len(plain_additional_path(url@))
                > MAX_ADDITIONAL_PATH_LENGTH_UTF8 ==> {
                &&& props.file_path@.len() == 4
                &&& props.file_path@[3]@ == hashed_name(plain_additional_path(url@))
                &&& props.file_path@[3]@.len() == HASHED_NAME_LENGTH
            },
            _ => true,
        },
{
    let path = to_chars(url.path.as_str());
    match family_of(url, do_not_fetch_domains) {
        UrlFamily::StaticCdn => {
            let segments = segments_of(&path).unwrap();
            match decode_segments(&segments, false) {
                None => Err(ResourcePathError::Undecodable),
                Some(names) => {
                    let mut text: Vec<char> = Vec::new();
                    push_str(&mut text, "https://staging.cohostcdn.org/");
                    push_all(&mut text, &path);
                    assert(text@ == cdn_fetch_text(url@));
                    let fetch_text = from_chars(&text);
                    match parse_url(fetch_text.as_str()) {
                        None => Err(ResourcePathError::BadFetchAddress),
                        Some(fetch) => {
                            let mut file_path: Vec<String> = Vec::new();
                            file_path.push("rc".to_owned());
                            let ghost head = string_views(file_path@);
                            assert(head == seq!["rc"@]);
                            let mut names = names;
                            let ghost tail = string_views(names@);
                            file_path.append(&mut names);
                            assert(string_views(file_path@) == head + tail);
                            Ok(
                                Some(
                                    ResourceUrlProps {
                                        fetch: fetch.href,
                                        file_path,
                                        can_fail: false,
                                        skip_file_ext_check: true,
                                    },
                                ),
                            )
                        },
                    }
                },
            }
        },
        UrlFamily::SiteOrigin => {
            let segments = match segments_of(&path) {
                Some(v) => v,
                None => Vec::new(),
            };
            assert(views(segments@) == site_segments(url@.path));
            match decode_segments(&segments, true) {
                None => Err(ResourcePathError::Undecodable),
                Some(names) => Ok(
                    Some(
                        ResourceUrlProps {
                            fetch: url.href.clone(),
                            file_path: names,
                            can_fail: false,
                            skip_file_ext_check: true,
                        },
                    ),
                ),
            }
        },
        UrlFamily::External => {
            let mut file_path: Vec<String> = Vec::new();
            file_path.push("rc".to_owned());
            file_path.push("external".to_owned());
            let host = match &url.host {
                Some(h) => h.clone(),
                None => String::new(),
            };
            assert(host@ == host_name(url@));
            file_path.push(host);
            let ghost head = string_views(file_path@);
            assert(head == seq!["rc"@, "external"@, host_name(url@)]);
            let additional = additional_path_of(url);
            let segments = split(&additional, '/');
            external_names_of(&mut file_path, &segments);
            proof {
                let names = external_names(views(segments@));
                lemma_external_names_fit(views(segments@));
                assert forall|i: int| 3 <= i < file_path.len() implies utf8_len(
                    #[trigger] file_path@[i]@,
                ) <= MAX_FILE_NAME_LENGTH_UTF8 by {
                    assert(string_views(file_path@) == head + names);
                    assert(head.len() == 3);
                    assert(string_views(file_path@).len() == file_path@.len());
                    assert(string_views(file_path@)[i] == file_path@[i]@);
                    assert((head + names)[i] == names[i - 3]);
                }
                if utf8_len(plain_additional_path(url@)) > MAX_ADDITIONAL_PATH_LENGTH_UTF8 {
                    lemma_hashed_name_is_one_name(additional@);
                    assert(string_views(file_path@) == head + seq![additional@]);
                    assert(string_views(file_path@).len() == file_path@.len());
                    assert(string_views(file_path@)[3] == file_path@[3]@);
                    assert((head + seq![additional@])[3] == additional@);
                }
            }
            Ok(
                Some(
                    ResourceUrlProps {
                        fetch: url.href.clone(),
                        file_path,
                        can_fail: true,
                        skip_file_ext_check: false,
                    },
                ),
            )
        },
        UrlFamily::Ignored => Ok(None),
    }
}

/// Where a resource is kept and under which rules, without the address
/// that it is fetched from.
pub open spec fn kept_at(props: Result<Option<PropsView>, ResourcePathError>) -> Result<
    Option<(Seq<Seq<char>>, bool, bool)>,
    ResourcePathError,
> {
    match props {
        Ok(Some(p)) => Ok(Some((p.file_path, p.can_fail, p.skip_file_ext_check))),
        Ok(None) => Ok(None),
        Err(e) => Err(e),
    }
}

/// Where a resource is kept is a matter of the parts of its address, not
/// of how the address is written out: two addresses of the same scheme,
/// host, domain, path, query and fragment are kept at the same path and
/// under the same rules, or are both not kept, or both give the same
/// error. So an address that is written out and read again, with its
/// parts as they were, is kept where it was.
pub proof fn lemma_path_is_stable(a: UrlParts, b: UrlParts, denied: Seq<Seq<char>>)
    requires
        a.scheme == b.scheme,
        a.host == b.host,
        a.domain == b.domain,
        a.path == b.path,
        a.query == b.query,
        a.fragment == b.fragment,
    ensures
        kept_at(resource_props(a, denied)) == kept_at(resource_props(b, denied)),
{
}

} // verus!
