//! File names within a path: which name of a path is the file's, whether
//! it wants an extension, the extension that a content type gives it, and
//! the form in which a path is recorded.

use crate::address::ResourceUrl;
use crate::ext::{
    extension_for_content_type, file_name_needs_extension, name_needs_extension,
    resource_file_extension_for_content_type,
};
use crate::resource::{
    props_for_resource_url, resource_props, PropsView, ResourcePathError, ResourceUrlProps,
};
use crate::text::{
    from_chars, join, join_with, push_str, split, split_on, string_views, to_chars, views,
};
use vstd::prelude::*;

verus! {

/// A name that stands for no file: the empty name and `.`.
pub open spec fn is_dir_mark(name: Seq<char>) -> bool {
    name.len() == 0 || name == seq!['.']
}

/// The position of the last name that is no directory mark, or `-1`.
pub open spec fn file_name_index(names: Seq<Seq<char>>) -> int
    decreases names.len(),
{
    if names.len() == 0 {
        -1
    } else if !is_dir_mark(names.last()) {
        names.len() - 1
    } else {
        file_name_index(names.drop_last())
    }
}

/// Whether a path has a file name: a last name that is no directory mark
/// and is not `..`.
pub open spec fn has_file_name(names: Seq<Seq<char>>) -> bool {
    file_name_index(names) >= 0 && names[file_name_index(names)] != seq!['.', '.']
}

/// Whether the file that a path leads to lacks a known extension; a path
/// without a file name does.
pub open spec fn path_needs_extension(names: Seq<Seq<char>>) -> bool {
    has_file_name(names) ==> name_needs_extension(names[file_name_index(names)])
}

/// The path with `.` and the extension appended to its file name, and
/// whatever followed the file name dropped; a path without a file name is
/// left as it is.
pub open spec fn with_extension(names: Seq<Seq<char>>, ext: Seq<char>) -> Seq<Seq<char>> {
    if has_file_name(names) {
        let i = file_name_index(names);
        names.take(i).push(names[i] + seq!['.'] + ext)
    } else {
        names
    }
}

/// The path with the extension that stands for the content type appended
/// to its file name; left as it is where the content type is not a known
/// one.
pub open spec fn with_content_type_ext(names: Seq<Seq<char>>, content_type: Seq<char>) -> Seq<
    Seq<char>,
> {
    match extension_for_content_type(content_type) {
        Some(ext) => with_extension(names, ext),
        None => names,
    }
}

/// The names that are not empty, in order.
pub open spec fn non_empty_names(names: Seq<Seq<char>>) -> Seq<Seq<char>>
    decreases names.len(),
{
    if names.len() == 0 {
        Seq::empty()
    } else if names.last().len() == 0 {
        non_empty_names(names.drop_last())
    } else {
        non_empty_names(names.drop_last()).push(names.last())
    }
}

/// The portable form of a path: its non-empty names with `/` between them.
pub open spec fn portable_path(names: Seq<Seq<char>>) -> Seq<char> {
    join_with(non_empty_names(names), seq!['/'])
}

fn dir_mark(name: &Vec<char>) -> (r: bool)
    ensures
        r == is_dir_mark(name@),
{
    if name.len() == 0 {
        true
    } else if name.len() == 1 && name[0] == '.' {
        assert(name@ == seq!['.']);
        true
    } else {
        if name.len() == 1 {
            assert(name@[0] != seq!['.'][0]);
        }
        false
    }
}

fn is_parent_mark(name: &Vec<char>) -> (r: bool)
    ensures
        r == (name@ == seq!['.', '.']),
{
    if name.len() == 2 && name[0] == '.' && name[1] == '.' {
        assert(name@ == seq!['.', '.']);
        true
    } else {
        if name.len() == 2 {
            assert(name@[0] != seq!['.', '.'][0] || name@[1] != seq!['.', '.'][1]);
        }
        false
    }
}

/// The position of the file name in a path, if it has one.
fn find_file_name(names: &Vec<Vec<char>>) -> (r: Option<usize>)
    ensures
        match r {
            Some(i) => has_file_name(views(names@)) && i == file_name_index(views(names@)) && i
                < names.len(),
            None => !has_file_name(views(names@)),
        },
{
    let mut i: usize = names.len();
    assert(views(names@).take(names.len() as int) == views(names@));
    while i > 0
        invariant
            i <= names.len(),
            file_name_index(views(names@)) == file_name_index(views(names@).take(i as int)),
        decreases i,
    {
        let ghost front = views(names@).take(i as int);
        assert(front.last() == names@[i - 1]@);
        assert(front.drop_last() == views(names@).take(i - 1));
        if !dir_mark(&names[i - 1]) {
            assert(views(names@)[i - 1] == names@[i - 1]@);
            if is_parent_mark(&names[i - 1]) {
                return None;
            }
            return Some(i - 1);
        }
        i = i - 1;
    }
    None
}

fn chars_of_names(names: &Vec<String>) -> (r: Vec<Vec<char>>)
    ensures
        views(r@) == string_views(names@),
{
    let mut out: Vec<Vec<char>> = Vec::new();
    let mut i: usize = 0;
    while i < names.len()
        invariant
            i <= names.len(),
            views(out@) == string_views(names@).take(i as int),
        decreases names.len() - i,
    {
        let ghost before = views(out@);
        let chars = to_chars(names[i].as_str());
        out.push(chars);
        assert(views(out@) == before.push(names@[i as int]@));
        i = i + 1;
    }
    assert(string_views(names@).take(names.len() as int) == string_views(names@));
    out
}

fn chars_need_extension(names: &Vec<Vec<char>>) -> (r: bool)
    ensures
        r == path_needs_extension(views(names@)),
{
    match find_file_name(names) {
        Some(i) => {
            assert(views(names@)[i as int] == names@[i as int]@);
            file_name_needs_extension(&names[i])
        },
        None => true,
    }
}

/// Whether the file that a path leads to has no extension that the archive
/// knows, so that its content type should give it one. The path is read in
/// its portable form, with `/` between its names.
pub fn does_resource_probably_need_a_file_extension(path: &str) -> (r: bool)
    ensures
        r == path_needs_extension(split_on(path@, '/')),
{
    let chars = to_chars(path);
    let names = split(&chars, '/');
    chars_need_extension(&names)
}

/// Whether the file that the names lead to has no extension that the
/// archive knows.
pub fn names_need_extension(names: &Vec<String>) -> (r: bool)
    ensures
        r == path_needs_extension(string_views(names@)),
{
    let chars = chars_of_names(names);
    chars_need_extension(&chars)
}

/// Appends the extension that stands for the content type to the file name
/// of the path: `foo` becomes `foo.png`, and `foo.bin` becomes
/// `foo.bin.png`. A content type that is not a known one leaves the path
/// as it is, and so does a path that has no file name.
pub fn add_content_type_ext(file_path: Vec<String>, content_type: &str) -> (r: Vec<String>)
    ensures
        string_views(r@) == with_content_type_ext(string_views(file_path@), content_type@),
{
    match resource_file_extension_for_content_type(content_type) {
        None => file_path,
        Some(ext) => {
            let chars = chars_of_names(&file_path);
            match find_file_name(&chars) {
                None => file_path,
                Some(i) => {
                    let mut name: Vec<char> = to_chars(file_path[i].as_str());
                    name.push('.');
                    push_str(&mut name, ext);
                    assert(string_views(file_path@)[i as int] == file_path@[i as int]@);
                    assert(name@ == file_path@[i as int]@ + seq!['.'] + ext@);
                    let mut out = file_path;
                    let ghost before = string_views(out@);
                    out.truncate(i);
                    assert(string_views(out@) == before.take(i as int));
                    let ghost front = string_views(out@);
                    let text = from_chars(&name);
                    out.push(text);
                    assert(string_views(out@) == front.push(name@));
                    out
                },
            }
        },
    }
}

/// The path in its portable form: its non-empty names with `/` between
/// them.
pub fn to_portable_path(names: &Vec<String>) -> (r: String)
    ensures
        r@ == portable_path(string_views(names@)),
{
    let mut kept: Vec<Vec<char>> = Vec::new();
    let mut i: usize = 0;
    assert(string_views(names@).take(0) == Seq::<Seq<char>>::empty());
    assert(views(kept@) == Seq::<Seq<char>>::empty());
    while i < names.len()
        invariant
            i <= names.len(),
            views(kept@) == non_empty_names(string_views(names@).take(i as int)),
        decreases names.len() - i,
    {
        let ghost front = string_views(names@).take(i as int);
        let ghost next = string_views(names@).take(i + 1);
        assert(next.drop_last() == front);
        assert(next.last() == names@[i as int]@);
        let ghost before = views(kept@);
        let chars = to_chars(names[i].as_str());
        if chars.len() > 0 {
            kept.push(chars);
            assert(views(kept@) == before.push(names@[i as int]@));
        }
        i = i + 1;
    }
    assert(string_views(names@).take(names.len() as int) == string_views(names@));
    let joined = join(&kept, "/");
    proof {
        reveal_strlit("/");
        assert("/"@ == seq!['/']);
    }
    from_chars(&joined)
}

/// Whether the content type of a resource has to be known before its path
/// is: the family of its address lets the file name change, and the name
/// lacks a known extension.
pub open spec fn wants_content_type(props: PropsView) -> bool {
    !props.skip_file_ext_check && path_needs_extension(props.file_path)
}

/// The path where a resource is meant to be kept, given the content type
/// that is on record for it: for a resource that wants one, the path with
/// the extension of the content type, an unknown content type counting as
/// the empty one.
pub open spec fn intended_path(props: PropsView, content_type: Option<Seq<char>>) -> Seq<
    Seq<char>,
> {
    if wants_content_type(props) {
        with_content_type_ext(
            props.file_path,
            match content_type {
                Some(t) => t,
                None => Seq::empty(),
            },
        )
    } else {
        props.file_path
    }
}

/// Whether the content type of the resource has to be looked up before its
/// path can be told.
pub fn needs_file_extension(props: &ResourceUrlProps) -> (r: bool)
    ensures
        r == wants_content_type(props@),
{
    !props.skip_file_ext_check && names_need_extension(&props.file_path)
}

/// The path where the resource is meant to be kept, given the content type
/// on record.
pub fn intended_file_path(props: ResourceUrlProps, content_type: Option<&str>) -> (r: Vec<String>)
    ensures
        string_views(r@) == intended_path(
            props@,
            match content_type {
                Some(t) => Some(t@),
                None => None,
            },
        ),
{
    if needs_file_extension(&props) {
        let content_type = match content_type {
            Some(t) => t,
            None => "",
        };
        proof {
            reveal_strlit("");
            assert(""@ == Seq::<char>::empty());
        }
        add_content_type_ext(props.file_path, content_type)
    } else {
        props.file_path
    }
}

/// The path where the resource at an address is meant to be kept, given
/// the content type on record for it; `None` for an address that the
/// archive does not keep.
pub fn get_intended_resource_file_path(
    url: &ResourceUrl,
    do_not_fetch_domains: &Vec<String>,
    content_type: Option<&str>,
) -> (r: Result<Option<Vec<String>>, ResourcePathError>)
    ensures
        match resource_props(url@, string_views(do_not_fetch_domains@)) {
            Ok(Some(props)) => r matches Ok(Some(path)) && string_views(path@) == intended_path(
                props,
                match content_type {
                    Some(t) => Some(t@),
                    None => None,
                },
            ),
            Ok(None) => r == Ok::<Option<Vec<String>>, ResourcePathError>(None),
            Err(e) => r == Err::<Option<Vec<String>>, ResourcePathError>(e),
        },
{
    match props_for_resource_url(url, do_not_fetch_domains) {
        Ok(Some(props)) => Ok(Some(intended_file_path(props, content_type))),
        Ok(None) => Ok(None),
        Err(e) => Err(e),
    }
}

/// Whether a file is to be moved: it is kept elsewhere than where it is
/// meant to be kept.
pub fn needs_migration(recorded: &str, intended: &Vec<String>) -> (r: bool)
    ensures
        r == (recorded@ != portable_path(string_views(intended@))),
{
    !crate::text::same_text(recorded, to_portable_path(intended).as_str())
}

} // verus!
