//! The addresses in a `srcset` attribute.
//!
//! The attribute holds candidates separated by commas; each is an address,
//! optionally followed by white space and a descriptor such as `2x` or
//! `480w`.

use crate::text::{ascii_space, from_chars, is_ascii_space, slice, to_chars};
use vstd::prelude::*;

verus! {

/// The kinds of runs of characters that the reader passes over.
#[derive(Debug, Clone, Copy, PartialEq, Eq)]
pub enum Run {
    /// White space.
    Space,
    /// Anything but white space: an address, with the comma that may
    /// follow it directly.
    Word,
    /// Anything but white space and commas: a descriptor.
    Descriptor,
}

/// Whether a character belongs to a run of the given kind.
pub open spec fn in_run(kind: Run, c: char) -> bool {
    match kind {
        Run::Space => is_ascii_space(c),
        Run::Word => !is_ascii_space(c),
        Run::Descriptor => !is_ascii_space(c) && c != ',',
    }
}

/// The length of the run of the given kind at the front of `s`.
pub open spec fn run_len(s: Seq<char>, kind: Run) -> nat
    decreases s.len(),
{
    if s.len() > 0 && in_run(kind, s[0]) {
        1 + run_len(s.skip(1), kind)
    } else {
        0
    }
}

/// `s` without the run of the given kind at its front.
pub open spec fn after_run(s: Seq<char>, kind: Run) -> Seq<char> {
    s.skip(run_len(s, kind) as int)
}

/// A run is within the text, and the character after it is not of its
/// kind.
pub proof fn lemma_run_len(s: Seq<char>, kind: Run)
    ensures
        run_len(s, kind) <= s.len(),
        run_len(s, kind) < s.len() ==> !in_run(kind, s[run_len(s, kind) as int]),
        forall|k: int| 0 <= k < run_len(s, kind) ==> in_run(kind, #[trigger] s[k]),
    decreases s.len(),
{
    if s.len() > 0 && in_run(kind, s[0]) {
        lemma_run_len(s.skip(1), kind);
        assert forall|k: int| 0 <= k < run_len(s, kind) implies in_run(kind, #[trigger] s[k]) by {
            if k > 0 {
                assert(s.skip(1)[k - 1] == s[k]);
            }
        }
    }
}

/// What follows a candidate whose address did not end in a comma: the
/// text after white space, a descriptor, white space again, and one more
/// character, which is the comma where the attribute is well formed.
pub open spec fn after_descriptor(s: Seq<char>) -> Seq<char> {
    let e = after_run(after_run(after_run(s, Run::Space), Run::Descriptor), Run::Space);
    if e.len() > 0 {
        e.skip(1)
    } else {
        e
    }
}

/// The addresses of the candidates in a `srcset` attribute, in order.
///
/// White space before a candidate is passed over, and so is a comma where
/// a candidate should begin. The address is the run of characters up to
/// the next white space. Where it ends in a comma, the comma is taken off
/// and the next candidate follows at once; otherwise it is kept, unless it
/// is empty, and the next candidate follows the descriptor.
pub open spec fn srcset_urls(s: Seq<char>) -> Seq<Seq<char>>
    decreases s.len(),
{
    if s.len() == 0 {
        Seq::empty()
    } else {
        let a = after_run(s, Run::Space);
        if a.len() > 0 && a[0] == ',' {
            proof {
                lemma_run_len(s, Run::Space);
            }
            srcset_urls(a.skip(1))
        } else {
            let n = run_len(a, Run::Word);
            let url = a.take(n as int);
            let b = a.skip(n as int);
            proof {
                lemma_run_len(s, Run::Space);
                lemma_run_len(a, Run::Word);
                lemma_run_len(b, Run::Space);
                lemma_run_len(after_run(b, Run::Space), Run::Descriptor);
                lemma_run_len(after_run(after_run(b, Run::Space), Run::Descriptor), Run::Space);
            }
            if n > 0 && url.last() == ',' {
                seq![url.drop_last()] + srcset_urls(b)
            } else {
                (if n > 0 {
                    seq![url]
                } else {
                    Seq::empty()
                }) + srcset_urls(after_descriptor(b))
            }
        }
    }
}

fn belongs(kind: Run, c: char) -> (r: bool)
    ensures
        r == in_run(kind, c),
{
    match kind {
        Run::Space => ascii_space(c),
        Run::Word => !ascii_space(c),
        Run::Descriptor => !ascii_space(c) && c != ',',
    }
}

/// The end of the run of the given kind that begins at `from`.
fn pass(s: &Vec<char>, from: usize, kind: Run) -> (r: usize)
    requires
        from <= s.len(),
    ensures
        from <= r <= s.len(),
        r - from == run_len(s@.skip(from as int), kind),
        s@.skip(r as int) == after_run(s@.skip(from as int), kind),
{
    let mut i: usize = from;
    while i < s.len() && belongs(kind, s[i])
        invariant
            from <= i <= s.len(),
            run_len(s@.skip(from as int), kind) == (i - from) + run_len(s@.skip(i as int), kind),
        decreases s.len() - i,
    {
        assert(s@.skip(i as int)[0] == s@[i as int]);
        assert(s@.skip(i as int).skip(1) == s@.skip(i + 1));
        i = i + 1;
    }
    proof {
        if i < s.len() {
            assert(s@.skip(i as int)[0] == s@[i as int]);
        }
        assert(s@.skip(from as int).skip(i - from) == s@.skip(i as int));
    }
    i
}

/// The addresses of the candidates in a `srcset` attribute, in order.
pub fn urls_in_srcset(s: &str) -> (r: Vec<String>)
    ensures
        crate::text::string_views(r@) == srcset_urls(s@),
{
    let chars = to_chars(s);
    let mut urls: Vec<String> = Vec::new();
    let mut i: usize = 0;
    assert(chars@.skip(0) == chars@);
    assert(crate::text::string_views(urls@) + srcset_urls(chars@) == srcset_urls(chars@));
    while i < chars.len()
        invariant
            i <= chars.len(),
            chars@ == s@,
            srcset_urls(chars@) == crate::text::string_views(urls@) + srcset_urls(
                chars@.skip(i as int),
            ),
        decreases chars.len() - i,
    {
        let ghost rest = chars@.skip(i as int);
        let ghost before = crate::text::string_views(urls@);
        proof {
            lemma_run_len(rest, Run::Space);
        }
        let start = pass(&chars, i, Run::Space);
        let ghost a = chars@.skip(start as int);
        if start < chars.len() && chars[start] == ',' {
            assert(a[0] == chars@[start as int]);
            assert(a.skip(1) == chars@.skip(start + 1));
            i = start + 1;
        } else {
            if start < chars.len() {
                assert(a[0] == chars@[start as int]);
            }
            proof {
                lemma_run_len(a, Run::Word);
            }
            let end = pass(&chars, start, Run::Word);
            let ghost b = chars@.skip(end as int);
            let mut url = slice(&chars, start, end);
            assert(url@ == a.take(end - start));
            if end > start && chars[end - 1] == ',' {
                assert(url@.last() == chars@[end - 1]);
                url.pop();
                let text = from_chars(&url);
                urls.push(text);
                assert(crate::text::string_views(urls@) == before.push(url@));
                assert(before + (seq![url@] + srcset_urls(b)) == before.push(url@) + srcset_urls(
                    b,
                ));
                i = end;
            } else {
                if end > start {
                    assert(url@.last() == chars@[end - 1]);
                    let text = from_chars(&url);
                    urls.push(text);
                    assert(crate::text::string_views(urls@) == before.push(url@));
                    assert(before + (seq![url@] + srcset_urls(after_descriptor(b))) == before.push(
                        url@,
                    ) + srcset_urls(after_descriptor(b)));
                } else {
                    assert(before + (Seq::<Seq<char>>::empty() + srcset_urls(after_descriptor(b)))
                        == before + srcset_urls(after_descriptor(b)));
                }
                let c = pass(&chars, end, Run::Space);
                let d = pass(&chars, c, Run::Descriptor);
                let e = pass(&chars, d, Run::Space);
                if e < chars.len() {
                    assert(chars@.skip(e as int).skip(1) == chars@.skip(e + 1));
                    i = e + 1;
                } else {
                    i = e;
                }
                assert(chars@.skip(i as int) == after_descriptor(b));
            }
        }
    }
    assert(srcset_urls(chars@.skip(chars.len() as int)) == Seq::<Seq<char>>::empty());
    assert(crate::text::string_views(urls@) + Seq::<Seq<char>>::empty()
        == crate::text::string_views(urls@));
    urls
}

} // verus!
