//! Tags: the spelling of a tag that the site uses, and the pairs of tags
//! that have to do with each other.
//!
//! A pair is kept once, whichever of its tags it was found under: the tag
//! that comes first without regard to ASCII case stands first, and the
//! row that was written first for a pair stays.

use crate::feed::{RelatedTag, TagRelationship};
use crate::text::{
    ascii_lowercase, less_than, same_chars, same_text, text_less, to_ascii_lowercase, to_chars,
    to_unicode_lowercase, unicode_lowercase,
};
use vstd::prelude::*;

verus! {

/// A pair of tags that have to do with each other, as it is kept.
#[derive(Debug, Clone, PartialEq, Eq)]
pub struct RelatedTagRow {
    pub tag1: String,
    pub tag2: String,
    pub is_synonym: bool,
}

/// Whether two tags are the same without regard to case.
pub open spec fn same_tag(a: Seq<char>, b: Seq<char>) -> bool {
    unicode_lowercase(a) == unicode_lowercase(b)
}

/// The position of the first of the tags that is the given tag without
/// regard to case, or the number of tags where there is none.
pub open spec fn canonical_index(tag: Seq<char>, related: Seq<RelatedTag>) -> int
    decreases related.len(),
{
    if related.len() == 0 || same_tag(related[0].content@, tag) {
        0
    } else {
        1 + canonical_index(tag, related.skip(1))
    }
}

/// The spelling of a tag that the site uses: that of the first of the
/// tags that come with the feed of the tag which is the tag without
/// regard to case, and the tag as it was asked for where there is none.
pub open spec fn canonical_tag(tag: Seq<char>, related: Seq<RelatedTag>) -> Seq<char> {
    let i = canonical_index(tag, related);
    if 0 <= i < related.len() {
        related[i].content@
    } else {
        tag
    }
}

/// The place of a tag among the related tags is that of the first which is
/// the same tag, or their number where none is.
pub proof fn lemma_canonical_index(tag: Seq<char>, related: Seq<RelatedTag>)
    ensures
        0 <= canonical_index(tag, related) <= related.len(),
        canonical_index(tag, related) < related.len() ==> same_tag(
            related[canonical_index(tag, related)].content@,
            tag,
        ),
        forall|k: int|
            0 <= k < canonical_index(tag, related) ==> !same_tag(
                (#[trigger] related[k]).content@,
                tag,
            ),
    decreases related.len(),
{
    if related.len() == 0 || same_tag(related[0].content@, tag) {
    } else {
        lemma_canonical_index(tag, related.skip(1));
        assert forall|k: int| 0 <= k < canonical_index(tag, related) implies !same_tag(
            (#[trigger] related[k]).content@,
            tag,
        ) by {
            if k > 0 {
                assert(related.skip(1)[k - 1] == related[k]);
            }
        }
    }
}

/// Two tags that are the same without regard to case are found at the
/// same place.
pub proof fn lemma_canonical_index_same(a: Seq<char>, b: Seq<char>, related: Seq<RelatedTag>)
    requires
        same_tag(a, b),
    ensures
        canonical_index(a, related) == canonical_index(b, related),
    decreases related.len(),
{
    if related.len() == 0 || same_tag(related[0].content@, a) {
    } else {
        lemma_canonical_index_same(a, b, related.skip(1));
    }
}

/// The spelling that the site uses is its own: asking for the tag in that
/// spelling gives the same spelling again.
pub proof fn lemma_canonical_tag_idempotent(tag: Seq<char>, related: Seq<RelatedTag>)
    ensures
        canonical_tag(canonical_tag(tag, related), related) == canonical_tag(tag, related),
{
    lemma_canonical_index(tag, related);
    let i = canonical_index(tag, related);
    if i < related.len() {
        lemma_canonical_index_same(related[i].content@, tag, related);
    }
}

/// The spelling of a tag that the site uses, if the tags that come with
/// the feed of the tag show it.
pub fn find_canonical_tag(tag: &str, related: &Vec<RelatedTag>) -> (r: Option<String>)
    ensures
        match r {
            Some(c) => canonical_index(tag@, related@) < related@.len() && c@ == canonical_tag(
                tag@,
                related@,
            ),
            None => canonical_index(tag@, related@) == related@.len(),
        },
{
    let wanted = to_unicode_lowercase(tag);
    let mut i: usize = 0;
    proof {
        lemma_canonical_index(tag@, related@);
    }
    while i < related.len()
        invariant
            i <= related.len(),
            wanted@ == unicode_lowercase(tag@),
            forall|k: int| 0 <= k < i ==> !same_tag((#[trigger] related@[k]).content@, tag@),
            0 <= canonical_index(tag@, related@) <= related@.len(),
            canonical_index(tag@, related@) < related@.len() ==> same_tag(
                related@[canonical_index(tag@, related@)].content@,
                tag@,
            ),
            forall|k: int|
                0 <= k < canonical_index(tag@, related@) ==> !same_tag(
                    (#[trigger] related@[k]).content@,
                    tag@,
                ),
        decreases related.len() - i,
    {
        let lower = to_unicode_lowercase(related[i].content.as_str());
        if same_text(lower.as_str(), wanted.as_str()) {
            assert(same_tag(related@[i as int].content@, tag@));
            return Some(related[i].content.clone());
        }
        i = i + 1;
    }
    None
}

/// The spelling of a tag that the site uses, and the tag as it was asked
/// for where the site does not show it.
pub fn canonical_tag_or_given(tag: &str, related: &Vec<RelatedTag>) -> (r: String)
    ensures
        r@ == canonical_tag(tag@, related@),
{
    match find_canonical_tag(tag, related) {
        Some(c) => c,
        None => tag.to_owned(),
    }
}

/// Two tags in the order in which a pair of them is kept: the one that is
/// less without regard to ASCII case first, and the second first where
/// neither is.
pub open spec fn tag_pair(tag1: Seq<char>, tag2: Seq<char>) -> (Seq<char>, Seq<char>) {
    if text_less(ascii_lowercase(tag1), ascii_lowercase(tag2)) {
        (tag1, tag2)
    } else {
        (tag2, tag1)
    }
}

/// Of two texts, not each is less than the other.
pub proof fn lemma_text_less_asymmetric(a: Seq<char>, b: Seq<char>)
    ensures
        !(text_less(a, b) && text_less(b, a)),
    decreases a.len(),
{
    if a.len() > 0 && b.len() > 0 && a[0] == b[0] {
        lemma_text_less_asymmetric(a.skip(1), b.skip(1));
    }
}

/// Of two texts that differ, one is less than the other.
pub proof fn lemma_text_less_total(a: Seq<char>, b: Seq<char>)
    requires
        a != b,
    ensures
        text_less(a, b) || text_less(b, a),
    decreases a.len(),
{
    if a.len() > 0 && b.len() > 0 && a[0] == b[0] {
        if a.skip(1) == b.skip(1) {
            assert(a =~= seq![a[0]] + a.skip(1));
            assert(b =~= seq![b[0]] + b.skip(1));
        }
        lemma_text_less_total(a.skip(1), b.skip(1));
    } else if a.len() == 0 && b.len() == 0 {
        assert(a =~= b);
    } else if a.len() > 0 && b.len() > 0 {
        vstd::utf8::char_u32_cast(a[0], a[0] as u32);
        vstd::utf8::char_u32_cast(b[0], b[0] as u32);
    }
}

/// A pair as it is kept never has the greater tag first; and where its
/// tags differ by more than ASCII case, the lesser stands first.
pub proof fn lemma_tag_pair_ordered(tag1: Seq<char>, tag2: Seq<char>)
    ensures
        !text_less(ascii_lowercase(tag_pair(tag1, tag2).1), ascii_lowercase(tag_pair(tag1, tag2).0)),
        ascii_lowercase(tag1) != ascii_lowercase(tag2) ==> text_less(
            ascii_lowercase(tag_pair(tag1, tag2).0),
            ascii_lowercase(tag_pair(tag1, tag2).1),
        ),
{
    let a = ascii_lowercase(tag1);
    let b = ascii_lowercase(tag2);
    lemma_text_less_asymmetric(a, b);
    if a != b {
        lemma_text_less_total(a, b);
    }
}

/// A pair of tags that differ by more than ASCII case is kept the same
/// way whichever of them it was found under, so that it is kept once.
pub proof fn lemma_tag_pair_symmetric(tag1: Seq<char>, tag2: Seq<char>)
    requires
        ascii_lowercase(tag1) != ascii_lowercase(tag2),
    ensures
        tag_pair(tag1, tag2) == tag_pair(tag2, tag1),
{
    let a = ascii_lowercase(tag1);
    let b = ascii_lowercase(tag2);
    lemma_text_less_asymmetric(a, b);
    lemma_text_less_total(a, b);
}

/// Two tags in the order in which a pair of them is kept.
pub fn ordered_tag_pair(tag1: &str, tag2: &str) -> (r: (String, String))
    ensures
        (r.0@, r.1@) == tag_pair(tag1@, tag2@),
{
    let a = to_ascii_lowercase(&to_chars(tag1));
    let b = to_ascii_lowercase(&to_chars(tag2));
    if less_than(&a, &b) {
        (tag1.to_owned(), tag2.to_owned())
    } else {
        (tag2.to_owned(), tag1.to_owned())
    }
}

/// The pair of two tags as it is kept, with whether they mean the same.
pub fn insert_related_tags(tag1: &str, tag2: &str, rel: TagRelationship) -> (r: RelatedTagRow)
    ensures
        (r.tag1@, r.tag2@) == tag_pair(tag1@, tag2@),
        r.is_synonym == (rel == TagRelationship::Synonym),
{
    let (first, second) = ordered_tag_pair(tag1, tag2);
    RelatedTagRow { tag1: first, tag2: second, is_synonym: rel == TagRelationship::Synonym }
}

/// What a kept pair says: its tags and whether they mean the same.
pub open spec fn row_view(row: RelatedTagRow) -> (Seq<char>, Seq<char>, bool) {
    (row.tag1@, row.tag2@, row.is_synonym)
}

/// Rows of related tags as plain values.
pub open spec fn row_views(rows: Seq<RelatedTagRow>) -> Seq<(Seq<char>, Seq<char>, bool)> {
    rows.map_values(|r: RelatedTagRow| row_view(r))
}

/// Whether two kept pairs are of the same tags. The store tells pairs
/// apart without regard to ASCII case.
pub open spec fn same_pair(
    a: (Seq<char>, Seq<char>, bool),
    b: (Seq<char>, Seq<char>, bool),
) -> bool {
    ascii_lowercase(a.0) == ascii_lowercase(b.0) && ascii_lowercase(a.1) == ascii_lowercase(b.1)
}

/// Whether the rows hold one of the pair of the given row.
pub open spec fn holds_pair(
    rows: Seq<(Seq<char>, Seq<char>, bool)>,
    row: (Seq<char>, Seq<char>, bool),
) -> bool {
    exists|i: int| 0 <= i < rows.len() && same_pair(#[trigger] rows[i], row)
}

/// The rows once a row is written: as they were where they hold a row of
/// the same pair, so that the row that was there first stays; and with
/// the row behind them otherwise.
pub open spec fn rows_with(
    rows: Seq<(Seq<char>, Seq<char>, bool)>,
    row: (Seq<char>, Seq<char>, bool),
) -> Seq<(Seq<char>, Seq<char>, bool)> {
    if holds_pair(rows, row) {
        rows
    } else {
        rows.push(row)
    }
}

fn same_without_case(a: &str, b: &str) -> (r: bool)
    ensures
        r == (ascii_lowercase(a@) == ascii_lowercase(b@)),
{
    let x = to_ascii_lowercase(&to_chars(a));
    let y = to_ascii_lowercase(&to_chars(b));
    same_chars(&x, &y)
}

/// Writes a row to the rows unless they hold a row of the same pair, and
/// says whether it was written.
pub fn keep_first_row(rows: &mut Vec<RelatedTagRow>, row: RelatedTagRow) -> (written: bool)
    ensures
        row_views(final(rows)@) == rows_with(row_views(old(rows)@), row_view(row)),
        written == !holds_pair(row_views(old(rows)@), row_view(row)),
{
    let ghost before = row_views(rows@);
    let mut i: usize = 0;
    while i < rows.len()
        invariant
            i <= rows.len(),
            row_views(rows@) == before,
            forall|k: int| 0 <= k < i ==> !same_pair(#[trigger] before[k], row_view(row)),
        decreases rows.len() - i,
    {
        assert(before[i as int] == row_view(rows@[i as int]));
        if same_without_case(rows[i].tag1.as_str(), row.tag1.as_str()) && same_without_case(
            rows[i].tag2.as_str(),
            row.tag2.as_str(),
        ) {
            assert(same_pair(before[i as int], row_view(row)));
            return false;
        }
        i = i + 1;
    }
    rows.push(row);
    assert(row_views(rows@) == before.push(row_view(row)));
    true
}

/// The pair of two tags that was written first stays as it is: writing
/// the pair again, found under either of its tags and with whatever it
/// then says of them, changes nothing, and adds no second row.
pub proof fn lemma_first_edge_is_kept(
    rows: Seq<(Seq<char>, Seq<char>, bool)>,
    tag1: Seq<char>,
    tag2: Seq<char>,
    first: bool,
    again: bool,
)
    ensures
        ({
            let written = rows_with(rows, (tag_pair(tag1, tag2).0, tag_pair(tag1, tag2).1, first));
            &&& rows_with(written, (tag_pair(tag1, tag2).0, tag_pair(tag1, tag2).1, again))
                == written
            &&& rows_with(written, (tag_pair(tag2, tag1).0, tag_pair(tag2, tag1).1, again))
                == written
        }),
{
    let row = (tag_pair(tag1, tag2).0, tag_pair(tag1, tag2).1, first);
    let same = (tag_pair(tag1, tag2).0, tag_pair(tag1, tag2).1, again);
    let turned = (tag_pair(tag2, tag1).0, tag_pair(tag2, tag1).1, again);
    let written = rows_with(rows, row);
    let a = ascii_lowercase(tag1);
    let b = ascii_lowercase(tag2);
    lemma_text_less_asymmetric(a, b);
    if a != b {
        lemma_text_less_total(a, b);
    }
    assert(same_pair(row, same));
    assert(same_pair(row, turned));
    if holds_pair(rows, row) {
        let i = choose|i: int| 0 <= i < rows.len() && same_pair(#[trigger] rows[i], row);
        assert(same_pair(written[i], same));
        assert(same_pair(written[i], turned));
    } else {
        assert(written[rows.len() as int] == row);
        assert(same_pair(written[rows.len() as int], same));
        assert(same_pair(written[rows.len() as int], turned));
    }
}

/// The pairs to keep for a tag in the spelling that the site uses: one
/// with each of the tags that come with the feed of the tag, but for the
/// tag itself, and one only for each pair.
pub open spec fn related_rows(canonical: Seq<char>, related: Seq<RelatedTag>) -> Seq<
    (Seq<char>, Seq<char>, bool),
>
    decreases related.len(),
{
    if related.len() == 0 {
        Seq::empty()
    } else {
        let front = related_rows(canonical, related.drop_last());
        let item = related.last();
        if item.content@ == canonical {
            front
        } else {
            rows_with(
                front,
                (
                    tag_pair(canonical, item.content@).0,
                    tag_pair(canonical, item.content@).1,
                    item.relationship == TagRelationship::Synonym,
                ),
            )
        }
    }
}

/// The pairs to keep for a tag in the spelling that the site uses.
pub fn related_tag_rows(canonical: &str, related: &Vec<RelatedTag>) -> (r: Vec<RelatedTagRow>)
    ensures
        row_views(r@) == related_rows(canonical@, related@),
{
    let mut rows: Vec<RelatedTagRow> = Vec::new();
    let mut i: usize = 0;
    assert(related@.take(0) == Seq::<RelatedTag>::empty());
    assert(row_views(rows@) == Seq::<(Seq<char>, Seq<char>, bool)>::empty());
    while i < related.len()
        invariant
            i <= related.len(),
            row_views(rows@) == related_rows(canonical@, related@.take(i as int)),
        decreases related.len() - i,
    {
        assert(related@.take(i + 1).drop_last() == related@.take(i as int));
        if !same_text(related[i].content.as_str(), canonical) {
            let row = insert_related_tags(
                canonical,
                related[i].content.as_str(),
                related[i].relationship,
            );
            keep_first_row(&mut rows, row);
        }
        i = i + 1;
    }
    assert(related@.take(related.len() as int) == related@);
    rows
}

} // verus!
