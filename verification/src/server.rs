//! Serving the archive: which file a request asks for, and what the
//! answer says of it.

use crate::address::{parse_url, parsed_url, ResourceUrl};
use crate::encoding::{hex_encode, hex_lower, sha256, sha256_digest};
use crate::resource::marked;
use crate::text::{from_chars, push_all, push_str, split, split_on, string_views, to_chars, views};
use vstd::prelude::*;

verus! {

/// How long an answer may be kept before it is asked for again.
pub const CACHE_CONTROL: &'static str = "max-age=3600, must-revalidate";

/// When a file was last changed, in nanoseconds from the beginning of
/// 1970.
#[derive(Debug, Clone, Copy, PartialEq, Eq, Structural)]
pub enum ModifiedAt {
    /// So long after.
    Since(u128),
    /// So long before.
    Before(u128),
}

/// The `count` low bytes of a number, the lowest first.
pub open spec fn low_bytes(n: nat, count: nat) -> Seq<u8>
    decreases count,
{
    if count == 0 {
        Seq::empty()
    } else {
        seq![(n % 256) as u8] + low_bytes(n / 256, (count - 1) as nat)
    }
}

/// What the tag of a file is the digest of: the path of the file, and
/// when it was last changed as sixteen bytes, the lowest first, after a
/// zero byte where that was before 1970.
pub open spec fn etag_input(path: Seq<u8>, modified: ModifiedAt) -> Seq<u8> {
    match modified {
        ModifiedAt::Since(nanos) => path + low_bytes(nanos as nat, 16),
        ModifiedAt::Before(nanos) => path + seq![0u8] + low_bytes(nanos as nat, 16),
    }
}

/// The tag of a file: the SHA-256 digest of its path and of when it was
/// last changed, in hexadecimal.
pub open spec fn file_etag(path: Seq<u8>, modified: ModifiedAt) -> Seq<char> {
    hex_lower(sha256_digest(etag_input(path, modified)))
}

fn push_low_bytes(out: &mut Vec<u8>, n: u128)
    ensures
        final(out)@ == old(out)@ + low_bytes(n as nat, 16),
{
    let ghost before = out@;
    let mut rest: u128 = n;
    let mut i: usize = 0;
    assert(before + low_bytes(n as nat, 16) == before + low_bytes(rest as nat, 16));
    while i < 16
        invariant
            i <= 16,
            before + low_bytes(n as nat, 16) == out@ + low_bytes(rest as nat, (16 - i) as nat),
        decreases 16 - i,
    {
        let ghost so_far = out@;
        let b: u8 = (rest % 256) as u8;
        out.push(b);
        assert(so_far + (seq![b] + low_bytes((rest / 256) as nat, (16 - i - 1) as nat))
            == so_far.push(b) + low_bytes((rest / 256) as nat, (16 - i - 1) as nat));
        rest = rest / 256;
        i = i + 1;
    }
    assert(out@ + low_bytes(rest as nat, 0) == out@);
}

/// The tag of the file at a path that was last changed at the given time.
pub fn etag_for_file(path: &[u8], modified: ModifiedAt) -> (r: String)
    ensures
        r@ == file_etag(path@, modified),
{
    let mut input: Vec<u8> = Vec::new();
    let mut i: usize = 0;
    while i < path.len()
        invariant
            i <= path.len(),
            input@ == path@.take(i as int),
        decreases path.len() - i,
    {
        input.push(path[i]);
        i = i + 1;
    }
    assert(path@.take(path.len() as int) == path@);
    match modified {
        ModifiedAt::Since(nanos) => {
            push_low_bytes(&mut input, nanos);
        },
        ModifiedAt::Before(nanos) => {
            input.push(0);
            assert(input@ == path@ + seq![0u8]);
            push_low_bytes(&mut input, nanos);
        },
    }
    assert(input@ == etag_input(path@, modified));
    hex_encode(sha256(input.as_slice()).as_slice())
}

/// Whether the asker has the file already: one of the tags that it names
/// is the tag of the file.
pub fn is_not_modified(etag: &str, if_none_match: &Vec<String>) -> (r: bool)
    ensures
        r == string_views(if_none_match@).contains(etag@),
{
    crate::resource::contains_text(if_none_match, &to_chars(etag))
}

/// The tag of a file that comes with the archive: its name, a hyphen, and
/// the commit that the archive was built from.
pub open spec fn bundled_etag(name: Seq<char>, build_commit: Seq<char>) -> Seq<char> {
    name + seq!['-'] + build_commit
}

/// The tag of a file that comes with the archive.
pub fn etag_for_bundled_file(name: &str, build_commit: &str) -> (r: String)
    ensures
        r@ == bundled_etag(name@, build_commit@),
{
    let mut out: Vec<char> = Vec::new();
    push_str(&mut out, name);
    out.push('-');
    push_str(&mut out, build_commit);
    from_chars(&out)
}

/// The extension of a file that comes with the archive: what stands
/// between the first and the second dot of its name.
pub open spec fn bundled_extension(name: Seq<char>) -> Option<Seq<char>> {
    if split_on(name, '.').len() > 1 {
        Some(split_on(name, '.')[1])
    } else {
        None
    }
}

/// The extension of a file that comes with the archive.
pub fn bundled_file_extension(name: &str) -> (r: Option<String>)
    ensures
        crate::address::opt_view(r) == bundled_extension(name@),
{
    let parts = split(&to_chars(name), '.');
    if parts.len() > 1 {
        assert(views(parts@)[1] == parts@[1]@);
        Some(from_chars(&parts[1]))
    } else {
        None
    }
}

/// The pieces of a path from the given one on, each after a slash.
pub open spec fn path_from(pieces: Seq<Seq<char>>, from: int) -> Seq<char>
    decreases pieces.len() - from,
{
    if from < 0 || from >= pieces.len() {
        Seq::empty()
    } else {
        seq!['/'] + pieces[from] + path_from(pieces, from + 1)
    }
}

/// The address that a request for a resource names, before it is parsed:
/// the scheme and the host that the route names, what follows them in the
/// path of the request, and the query and the fragment that the request
/// carries.
pub open spec fn requested_text(
    proto: Seq<char>,
    domain: Seq<char>,
    request_path: Seq<char>,
    q: Option<Seq<char>>,
    h: Option<Seq<char>>,
) -> Seq<char> {
    proto + "://"@ + domain + path_from(split_on(request_path, '/'), 4) + marked('?', q) + marked(
        '#',
        h,
    )
}

/// The address that a request for a resource names, or `None` where it
/// names none. The path of the request is taken as it came, so that what
/// was encoded in the address stays encoded.
pub fn requested_resource_url(
    proto: &str,
    domain: &str,
    request_path: &str,
    q: Option<&str>,
    h: Option<&str>,
) -> (r: Option<ResourceUrl>)
    ensures
        match r {
            Some(url) => parsed_url(
                requested_text(
                    proto@,
                    domain@,
                    request_path@,
                    match q {
                        Some(t) => Some(t@),
                        None => None,
                    },
                    match h {
                        Some(t) => Some(t@),
                        None => None,
                    },
                ),
            ) == Some(url@),
            None => parsed_url(
                requested_text(
                    proto@,
                    domain@,
                    request_path@,
                    match q {
                        Some(t) => Some(t@),
                        None => None,
                    },
                    match h {
                        Some(t) => Some(t@),
                        None => None,
                    },
                ),
            ) is None,
        },
{
    let pieces = split(&to_chars(request_path), '/');
    let mut text: Vec<char> = Vec::new();
    push_str(&mut text, proto);
    push_str(&mut text, "://");
    push_str(&mut text, domain);
    let ghost head = text@;
    assert(head == proto@ + "://"@ + domain@);
    let mut i: usize = if pieces.len() < 4 {
        pieces.len()
    } else {
        4
    };
    let ghost all = path_from(views(pieces@), 4);
    assert(path_from(views(pieces@), i as int) == all);
    while i < pieces.len()
        invariant
            4 <= i <= pieces.len() || i == pieces.len(),
            text@ + path_from(views(pieces@), i as int) == head + all,
        decreases pieces.len() - i,
    {
        let ghost before = text@;
        text.push('/');
        push_all(&mut text, &pieces[i]);
        assert(views(pieces@)[i as int] == pieces@[i as int]@);
        assert(before + (seq!['/'] + pieces@[i as int]@ + path_from(views(pieces@), i + 1))
            == before + seq!['/'] + pieces@[i as int]@ + path_from(views(pieces@), i + 1));
        i = i + 1;
    }
    assert(text@ + Seq::<char>::empty() == text@);
    match q {
        Some(t) => {
            let ghost before = text@;
            text.push('?');
            push_str(&mut text, t);
            assert(text@ == before + (seq!['?'] + t@));
        },
        None => {
            assert(text@ + Seq::<char>::empty() == text@);
        },
    }
    match h {
        Some(t) => {
            let ghost before = text@;
            text.push('#');
            push_str(&mut text, t);
            assert(text@ == before + (seq!['#'] + t@));
        },
        None => {
            assert(text@ + Seq::<char>::empty() == text@);
        },
    }
    parse_url(from_chars(&text).as_str())
}

} // verus!
