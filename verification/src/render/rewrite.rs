//! The addresses of resources as the pages of the archive name them: an
//! address whose file is on disk is replaced by the route under which the
//! archive serves the file.

use crate::address::{
    encode_query_pair, join_url, joined_url, parse_url, parsed_url, query_pair, UrlParts,
};
use crate::ingest::{project_base, project_page_address};
use crate::encoding::{percent_encode, percent_encoded};
use crate::comment::{CommentFromCohost, InnerComment};
use crate::post::PostFromCohost;
use crate::project::ProjectFromCohost;
use crate::resource::contains_text;
use crate::text::{
    from_chars, has_prefix, join, join_with, push_all, push_str, string_views, to_chars, views,
};
use vstd::prelude::*;

verus! {

/// The pairs that carry the query and the fragment of an address.
pub open spec fn route_pairs(url: UrlParts) -> Seq<Seq<char>> {
    (match url.query {
        Some(q) => seq![query_pair("q"@, q)],
        None => Seq::empty(),
    }) + (match url.fragment {
        Some(h) => seq![query_pair("h"@, h)],
        None => Seq::empty(),
    })
}

/// A query string of the pairs, and nothing where they come to nothing.
pub open spec fn route_search(pairs: Seq<Seq<char>>) -> Seq<char> {
    let joined = join_with(pairs, "&"@);
    if joined.len() > 0 {
        seq!['?'] + joined
    } else {
        Seq::empty()
    }
}

/// The route under which the archive serves the file of an address: for
/// an address with a host, `/r/`, the scheme, the host and the path, with
/// the query and the fragment as the pairs `q` and `h`; and for any other
/// text, `/r/u?url=` and the text percent-encoded.
pub open spec fn resource_route(text: Seq<char>) -> Seq<char> {
    match parsed_url(text) {
        Some(url) => match url.host {
            Some(host) => "/r/"@ + url.scheme + seq!['/'] + host + url.path + route_search(
                route_pairs(url),
            ),
            None => "/r/u?url="@ + percent_encoded(text),
        },
        None => "/r/u?url="@ + percent_encoded(text),
    }
}

/// Every route begins with `/r/`.
pub proof fn lemma_route_is_local(text: Seq<char>)
    ensures
        has_prefix(resource_route(text), "/r/"@),
{
    reveal_strlit("/r/");
    reveal_strlit("/r/u?url=");
    let route = resource_route(text);
    assert(route.len() >= 3);
    assert(route.take(3) =~= "/r/"@);
}

fn fallback_route(text: &str) -> (r: String)
    ensures
        r@ == "/r/u?url="@ + percent_encoded(text@),
{
    let mut out: Vec<char> = Vec::new();
    push_str(&mut out, "/r/u?url=");
    push_str(&mut out, percent_encode(text).as_str());
    from_chars(&out)
}

/// The route under which the archive serves the file of an address.
pub fn make_resource_url(text: &str) -> (r: String)
    ensures
        r@ == resource_route(text@),
        has_prefix(r@, "/r/"@),
{
    proof {
        lemma_route_is_local(text@);
    }
    let url = match parse_url(text) {
        Some(url) => url,
        None => {
            return fallback_route(text);
        },
    };
    let host = match &url.host {
        Some(host) => host,
        None => {
            return fallback_route(text);
        },
    };
    let mut pairs: Vec<Vec<char>> = Vec::new();
    match &url.query {
        Some(q) => {
            pairs.push(to_chars(encode_query_pair("q", q.as_str()).as_str()));
            assert(views(pairs@) == seq![query_pair("q"@, q@)]);
        },
        None => {
            assert(views(pairs@) == Seq::<Seq<char>>::empty());
        },
    }
    let ghost first = views(pairs@);
    match &url.fragment {
        Some(h) => {
            pairs.push(to_chars(encode_query_pair("h", h.as_str()).as_str()));
            assert(views(pairs@) == first + seq![query_pair("h"@, h@)]);
        },
        None => {
            assert(views(pairs@) == first + Seq::<Seq<char>>::empty());
        },
    }
    assert(views(pairs@) == route_pairs(url@));
    let joined = join(&pairs, "&");
    let mut out: Vec<char> = Vec::new();
    push_str(&mut out, "/r/");
    push_str(&mut out, url.scheme.as_str());
    out.push('/');
    push_str(&mut out, host.as_str());
    push_str(&mut out, url.path.as_str());
    let ghost head = out@;
    assert(head == "/r/"@ + url@.scheme + seq!['/'] + host@ + url@.path);
    if joined.len() > 0 {
        out.push('?');
        push_all(&mut out, &joined);
        assert(out@ == head + (seq!['?'] + joined@));
    } else {
        assert(out@ == head + Seq::<char>::empty());
    }
    from_chars(&out)
}

/// An address as a page names it, given the address of the page that it
/// belongs to and the addresses of the files that are on disk: where the
/// address that it stands for against the page is among those, the route
/// of that address; and the address itself otherwise.
pub open spec fn rewritten(base: Seq<char>, address: Seq<char>, saved: Seq<Seq<char>>) -> Seq<
    char,
> {
    match joined_url(base, address) {
        Some(resolved) => if saved.contains(resolved) {
            resource_route(resolved)
        } else {
            address
        },
        None => address,
    }
}

/// An optional address as a page names it.
pub open spec fn rewritten_opt(
    base: Seq<char>,
    address: Option<String>,
    saved: Seq<Seq<char>>,
) -> Option<Seq<char>> {
    match address {
        Some(a) => Some(rewritten(base, a@, saved)),
        None => None,
    }
}

fn rewrite(address: &mut String, base: &str, saved: &Vec<String>)
    ensures
        final(address)@ == rewritten(base@, old(address)@, string_views(saved@)),
{
    match join_url(base, address.as_str()) {
        Some(resolved) => {
            let chars = to_chars(resolved.as_str());
            if contains_text(saved, &chars) {
                *address = make_resource_url(resolved.as_str());
            }
        },
        None => {},
    }
}

fn rewrite_opt(address: &mut Option<String>, base: &str, saved: &Vec<String>)
    ensures
        crate::address::opt_view(*final(address)) == rewritten_opt(
            base@,
            *old(address),
            string_views(saved@),
        ),
{
    let taken = address.take();
    match taken {
        Some(a) => {
            let mut a = a;
            rewrite(&mut a, base, saved);
            *address = Some(a);
        },
        None => {},
    }
}

/// Replaces the addresses of the avatar and of the header of a project,
/// and of the previews of both, by the routes of their files, where the
/// files are among those on disk. The addresses on disk are those that
/// the project's references resolved to against the address of its page,
/// so each field is resolved the same way before it is looked up. Nothing
/// else of the project changes.
pub fn rewrite_project(project: &mut ProjectFromCohost, saved: &Vec<String>)
    ensures
        is_rewritten_project(*old(project), *final(project), string_views(saved@)),
{
    let base = project_page_address(project.handle.as_str());
    rewrite(&mut project.avatar_url, base.as_str(), saved);
    rewrite(&mut project.avatar_preview_url, base.as_str(), saved);
    rewrite_opt(&mut project.header_url, base.as_str(), saved);
    rewrite_opt(&mut project.header_preview_url, base.as_str(), saved);
}

/// No address whose file is on disk is left as it was: where the address
/// that a field stands for is among those on disk, what a page names in
/// its place is the route of that address, which begins with `/r/`. A
/// field whose address is not among them, or stands for none, is left as
/// it is.
pub proof fn lemma_saved_address_is_rewritten(
    base: Seq<char>,
    address: Seq<char>,
    saved: Seq<Seq<char>>,
)
    ensures
        joined_url(base, address) matches Some(resolved) && saved.contains(resolved) ==> rewritten(
            base,
            address,
            saved,
        ) == resource_route(joined_url(base, address).unwrap()) && has_prefix(
            rewritten(base, address, saved),
            "/r/"@,
        ),
        !(joined_url(base, address) matches Some(resolved) && saved.contains(resolved))
            ==> rewritten(base, address, saved) == address,
{
    match joined_url(base, address) {
        Some(resolved) => {
            lemma_route_is_local(resolved);
        },
        None => {},
    }
}

/// The addresses of the files of a project that are on disk, given those
/// of each project under its id: those of the first entry of the project,
/// and none where it has no entry.
pub open spec fn saved_for(saved: Seq<(u64, Vec<String>)>, project_id: u64) -> Seq<Seq<char>>
    decreases saved.len(),
{
    if saved.len() == 0 {
        Seq::empty()
    } else if saved[0].0 == project_id {
        string_views(saved[0].1@)
    } else {
        saved_for(saved.skip(1), project_id)
    }
}

/// Whether a project is another with the addresses of its avatar, of its
/// header and of the previews of both as a page names them, and with
/// nothing else changed.
pub open spec fn is_rewritten_project(
    before: ProjectFromCohost,
    after: ProjectFromCohost,
    saved: Seq<Seq<char>>,
) -> bool {
    &&& after.avatar_url@ == rewritten(project_base(before.handle@), before.avatar_url@, saved)
    &&& after.avatar_preview_url@ == rewritten(
        project_base(before.handle@),
        before.avatar_preview_url@,
        saved,
    )
    &&& crate::address::opt_view(after.header_url) == rewritten_opt(
        project_base(before.handle@),
        before.header_url,
        saved,
    )
    &&& crate::address::opt_view(after.header_preview_url) == rewritten_opt(
        project_base(before.handle@),
        before.header_preview_url,
        saved,
    )
    &&& after == (ProjectFromCohost {
        avatar_url: after.avatar_url,
        avatar_preview_url: after.avatar_preview_url,
        header_url: after.header_url,
        header_preview_url: after.header_preview_url,
        ..before
    })
}

/// Whether a post is another with its project, and the projects of the
/// posts of its share tree, as a page names them.
pub open spec fn is_rewritten_post(
    before: PostFromCohost,
    after: PostFromCohost,
    saved: Seq<(u64, Vec<String>)>,
) -> bool
    decreases before,
{
    &&& after == (PostFromCohost {
        posting_project: after.posting_project,
        share_tree: after.share_tree,
        ..before
    })
    &&& is_rewritten_project(
        before.posting_project,
        after.posting_project,
        saved_for(saved, before.posting_project.project_id),
    )
    &&& are_rewritten_posts(before.share_tree@, after.share_tree@, saved)
}

/// Each post is the rewritten form of the post at its place.
pub open spec fn are_rewritten_posts(
    before: Seq<PostFromCohost>,
    after: Seq<PostFromCohost>,
    saved: Seq<(u64, Vec<String>)>,
) -> bool
    decreases before,
{
    &&& before.len() == after.len()
    &&& before.len() > 0 ==> is_rewritten_post(before.last(), after.last(), saved)
        && are_rewritten_posts(before.drop_last(), after.drop_last(), saved)
}

/// Whether a comment is another with the project that wrote it, and those
/// that wrote the replies to it, as a page names them.
pub open spec fn is_rewritten_comment(
    before: CommentFromCohost,
    after: CommentFromCohost,
    saved: Seq<(u64, Vec<String>)>,
) -> bool
    decreases before,
{
    &&& after == (CommentFromCohost {
        poster: after.poster,
        comment: InnerComment { children: after.comment.children, ..before.comment },
        ..before
    })
    &&& match before.poster {
        Some(p) => after.poster matches Some(q) && is_rewritten_project(
            p,
            q,
            saved_for(saved, p.project_id),
        ),
        None => after.poster is None,
    }
    &&& are_rewritten_comments(before.comment.children@, after.comment.children@, saved)
}

/// Each comment is the rewritten form of the comment at its place.
pub open spec fn are_rewritten_comments(
    before: Seq<CommentFromCohost>,
    after: Seq<CommentFromCohost>,
    saved: Seq<(u64, Vec<String>)>,
) -> bool
    decreases before,
{
    &&& before.len() == after.len()
    &&& before.len() > 0 ==> is_rewritten_comment(before.last(), after.last(), saved)
        && are_rewritten_comments(before.drop_last(), after.drop_last(), saved)
}

fn rewrite_known_project(project: &mut ProjectFromCohost, saved: &Vec<(u64, Vec<String>)>)
    ensures
        is_rewritten_project(
            *old(project),
            *final(project),
            saved_for(saved@, old(project).project_id),
        ),
{
    let mut i: usize = 0;
    assert(saved@.skip(0) == saved@);
    while i < saved.len()
        invariant
            i <= saved.len(),
            *project == *old(project),
            saved_for(saved@, project.project_id) == saved_for(
                saved@.skip(i as int),
                project.project_id,
            ),
        decreases saved.len() - i,
    {
        assert(saved@.skip(i as int)[0] == saved@[i as int]);
        assert(saved@.skip(i as int).skip(1) == saved@.skip(i + 1));
        if saved[i].0 == project.project_id {
            rewrite_project(project, &saved[i].1);
            return ;
        }
        i = i + 1;
    }
    let none: Vec<String> = Vec::new();
    assert(string_views(none@) == Seq::<Seq<char>>::empty());
    rewrite_project(project, &none);
}

/// The items in the opposite order.
pub fn reversed<T>(items: Vec<T>) -> (r: Vec<T>)
    ensures
        r@ == items@.reverse(),
{
    let mut src = items;
    let mut out: Vec<T> = Vec::new();
    let ghost all = src@;
    while src.len() > 0
        invariant
            src@ == all.take(src@.len() as int),
            src@.len() <= all.len(),
            out@.len() == all.len() - src@.len(),
            forall|k: int| 0 <= k < out@.len() ==> out@[k] == all[all.len() - 1 - k],
        decreases src.len(),
    {
        let item = src.pop().unwrap();
        out.push(item);
    }
    assert(out@ =~= all.reverse());
    out
}

/// The post with the addresses of its project, and of the projects of
/// the posts of its share tree, as a page names them, given the addresses
/// of the files of each project that are on disk.
pub fn rewrite_projects_in_post(post: PostFromCohost, saved: &Vec<(u64, Vec<String>)>) -> (r:
    PostFromCohost)
    ensures
        is_rewritten_post(post, r, saved@),
    decreases post,
{
    let mut out = post;
    rewrite_known_project(&mut out.posting_project, saved);
    let mut tree: Vec<PostFromCohost> = Vec::new();
    std::mem::swap(&mut tree, &mut out.share_tree);
    let ghost all = tree@;
    assert(all == post.share_tree@);
    let mut rev = reversed(tree);
    let ghost mut i: int = 0;
    assert(all.take(0) == Seq::<PostFromCohost>::empty());
    while rev.len() > 0
        invariant
            0 <= i <= all.len(),
            i + rev@.len() == all.len(),
            rev@ == all.reverse().take(rev@.len() as int),
            all == post.share_tree@,
            are_rewritten_posts(all.take(i), out.share_tree@, saved@),
            out == (PostFromCohost {
                posting_project: out.posting_project,
                share_tree: out.share_tree,
                ..post
            }),
            is_rewritten_project(
                post.posting_project,
                out.posting_project,
                saved_for(saved@, post.posting_project.project_id),
            ),
        decreases rev.len(),
    {
        let item = rev.pop().unwrap();
        assert(item == all[i]);
        let ghost before_tree = out.share_tree@;
        let done = rewrite_projects_in_post(item, saved);
        out.share_tree.push(done);
        proof {
            assert(all.take(i + 1).drop_last() == all.take(i));
            assert(all.take(i + 1).last() == item);
            assert(out.share_tree@.drop_last() == before_tree);
            i = i + 1;
        }
    }
    assert(all.take(all.len() as int) == all);
    out
}

/// The comment with the addresses of the project that wrote it, and of
/// those that wrote the replies to it, as a page names them.
pub fn rewrite_projects_in_comment(comment: CommentFromCohost, saved: &Vec<(u64, Vec<String>)>) -> (r:
    CommentFromCohost)
    ensures
        is_rewritten_comment(comment, r, saved@),
    decreases comment,
{
    let mut out = comment;
    let poster = out.poster.take();
    match poster {
        Some(p) => {
            let mut p = p;
            rewrite_known_project(&mut p, saved);
            out.poster = Some(p);
        },
        None => {},
    }
    let mut replies: Vec<CommentFromCohost> = Vec::new();
    std::mem::swap(&mut replies, &mut out.comment.children);
    let ghost all = replies@;
    assert(all == comment.comment.children@);
    let mut rev = reversed(replies);
    let ghost mut i: int = 0;
    assert(all.take(0) == Seq::<CommentFromCohost>::empty());
    while rev.len() > 0
        invariant
            0 <= i <= all.len(),
            i + rev@.len() == all.len(),
            rev@ == all.reverse().take(rev@.len() as int),
            all == comment.comment.children@,
            are_rewritten_comments(all.take(i), out.comment.children@, saved@),
            out == (CommentFromCohost {
                poster: out.poster,
                comment: InnerComment { children: out.comment.children, ..comment.comment },
                ..comment
            }),
            match comment.poster {
                Some(p) => out.poster matches Some(q) && is_rewritten_project(
                    p,
                    q,
                    saved_for(saved@, p.project_id),
                ),
                None => out.poster is None,
            },
        decreases rev.len(),
    {
        let item = rev.pop().unwrap();
        assert(item == all[i]);
        let ghost before_replies = out.comment.children@;
        let done = rewrite_projects_in_comment(item, saved);
        out.comment.children.push(done);
        proof {
            assert(all.take(i + 1).drop_last() == all.take(i));
            assert(all.take(i + 1).last() == item);
            assert(out.comment.children@.drop_last() == before_replies);
            i = i + 1;
        }
    }
    assert(all.take(all.len() as int) == all);
    out
}

} // verus!
