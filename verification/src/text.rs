//! Character-level helpers that the rest of the library is built on:
//! conversion between strings and character vectors, splitting and joining,
//! ASCII case folding, ordering, and decimal numbers.

use vstd::prelude::*;

verus! {

/// `String::push`: the text grows by the one character.
#[verifier::external_body]
fn push_char(s: &mut String, c: char)
    ensures
        final(s)@ == old(s)@.push(c),
{
    s.push(c)
}

/// Name of what `str::to_lowercase` returns for a text.
pub uninterp spec fn unicode_lowercase(s: Seq<char>) -> Seq<char>;

/// `str::to_lowercase`: the Unicode lowercase form of the text.
#[verifier::external_body]
pub(crate) fn to_unicode_lowercase(s: &str) -> (r: String)
    ensures
        r@ == unicode_lowercase(s@),
{
    s.to_lowercase()
}

/// The characters of a string, in order.
pub fn to_chars(s: &str) -> (r: Vec<char>)
    ensures
        r@ == s@,
{
    let mut out: Vec<char> = Vec::new();
    for c in it: s.chars()
        invariant
            out@ == it.seq().take(it.index()),
            it.seq() == s@,
    {
        out.push(c);
    }
    out
}

/// The string made of the given characters.
pub fn from_chars(v: &Vec<char>) -> (r: String)
    ensures
        r@ == v@,
{
    let mut out = String::new();
    let mut i: usize = 0;
    while i < v.len()
        invariant
            i <= v.len(),
            out@ == v@.take(i as int),
        decreases v.len() - i,
    {
        push_char(&mut out, v[i]);
        i = i + 1;
    }
    assert(v@.take(v.len() as int) == v@);
    out
}

/// Appends the characters of `s` to `out`.
pub fn push_str(out: &mut Vec<char>, s: &str)
    ensures
        final(out)@ == old(out)@ + s@,
{
    let ghost before = out@;
    for c in it: s.chars()
        invariant
            out@ == before + it.seq().take(it.index()),
            it.seq() == s@,
    {
        out.push(c);
    }
}

/// Appends the characters of `v` to `out`.
pub fn push_all(out: &mut Vec<char>, v: &Vec<char>)
    ensures
        final(out)@ == old(out)@ + v@,
{
    let ghost before = out@;
    let mut i: usize = 0;
    while i < v.len()
        invariant
            i <= v.len(),
            out@ == before + v@.take(i as int),
        decreases v.len() - i,
    {
        out.push(v[i]);
        i = i + 1;
    }
    assert(v@.take(v.len() as int) == v@);
}

/// Whether two character vectors hold the same text.
pub fn same_chars(a: &Vec<char>, b: &Vec<char>) -> (r: bool)
    ensures
        r == (a@ == b@),
{
    if a.len() != b.len() {
        return false;
    }
    let mut i: usize = 0;
    while i < a.len()
        invariant
            i <= a.len(),
            a.len() == b.len(),
            a@.take(i as int) == b@.take(i as int),
        decreases a.len() - i,
    {
        if a[i] != b[i] {
            return false;
        }
        assert(a@.take(i + 1) == a@.take(i as int).push(a[i as int]));
        assert(b@.take(i + 1) == b@.take(i as int).push(b[i as int]));
        i = i + 1;
    }
    assert(a@.take(a.len() as int) == a@);
    assert(b@.take(b.len() as int) == b@);
    true
}

/// Whether the characters spell exactly the given string.
pub fn is_text(a: &Vec<char>, s: &str) -> (r: bool)
    ensures
        r == (a@ == s@),
{
    let b = to_chars(s);
    same_chars(a, &b)
}

/// Whether two strings hold the same text.
pub fn same_text(a: &str, b: &str) -> (r: bool)
    ensures
        r == (a@ == b@),
{
    let x = to_chars(a);
    let y = to_chars(b);
    same_chars(&x, &y)
}

/// `s` begins with `prefix`.
pub open spec fn has_prefix(s: Seq<char>, prefix: Seq<char>) -> bool {
    prefix.len() <= s.len() && s.take(prefix.len() as int) == prefix
}

/// `s` ends with `suffix`.
pub open spec fn has_suffix(s: Seq<char>, suffix: Seq<char>) -> bool {
    suffix.len() <= s.len() && s.skip(s.len() - suffix.len()) == suffix
}

/// Whether the characters begin with the given string.
pub fn starts_with(a: &Vec<char>, prefix: &str) -> (r: bool)
    ensures
        r == has_prefix(a@, prefix@),
{
    let p = to_chars(prefix);
    if p.len() > a.len() {
        return false;
    }
    let mut i: usize = 0;
    while i < p.len()
        invariant
            i <= p.len(),
            p.len() <= a.len(),
            p@ == prefix@,
            a@.take(i as int) == p@.take(i as int),
        decreases p.len() - i,
    {
        if a[i] != p[i] {
            assert(a@.take(p@.len() as int)[i as int] != p@[i as int]);
            return false;
        }
        assert(a@.take(i + 1) == a@.take(i as int).push(a[i as int]));
        assert(p@.take(i + 1) == p@.take(i as int).push(p[i as int]));
        i = i + 1;
    }
    assert(p@.take(p.len() as int) == p@);
    true
}

/// Position of the first `c` in `s`, or the length of `s` where there is
/// none.
pub open spec fn first_index(s: Seq<char>, c: char) -> int
    decreases s.len(),
{
    if s.len() == 0 || s[0] == c {
        0
    } else {
        1 + first_index(s.skip(1), c)
    }
}

/// Position of the last `c` in `s`, or `-1` where there is none.
pub open spec fn last_index(s: Seq<char>, c: char) -> int
    decreases s.len(),
{
    if s.len() == 0 {
        -1
    } else if s.last() == c {
        s.len() - 1
    } else {
        last_index(s.drop_last(), c)
    }
}

/// The pieces of `s` between occurrences of `sep`; always at least one
/// piece, and an empty piece on either side of a separator that has nothing
/// next to it.
pub open spec fn split_on(s: Seq<char>, sep: char) -> Seq<Seq<char>>
    decreases s.len(),
{
    let i = first_index(s, sep);
    if i < 0 || i >= s.len() {
        seq![s]
    } else {
        seq![s.take(i)] + split_on(s.skip(i + 1), sep)
    }
}

/// The pieces put together again with `sep` between neighbours.
pub open spec fn join_with(parts: Seq<Seq<char>>, sep: Seq<char>) -> Seq<char>
    decreases parts.len(),
{
    if parts.len() == 0 {
        Seq::empty()
    } else if parts.len() == 1 {
        parts[0]
    } else {
        join_with(parts.drop_last(), sep) + sep + parts.last()
    }
}

/// The view of a vector of character vectors.
pub open spec fn views(parts: Seq<Vec<char>>) -> Seq<Seq<char>> {
    parts.map_values(|p: Vec<char>| p@)
}

/// The view of a vector of strings.
pub open spec fn string_views(parts: Seq<String>) -> Seq<Seq<char>> {
    parts.map_values(|p: String| p@)
}

/// The first place of a character holds it and nothing before that place
/// does; it is the length of the text where the character is not in it.
pub proof fn lemma_first_index_bounds(s: Seq<char>, c: char)
    ensures
        0 <= first_index(s, c) <= s.len(),
        first_index(s, c) < s.len() ==> s[first_index(s, c)] == c,
        forall|k: int| 0 <= k < first_index(s, c) ==> s[k] != c,
    decreases s.len(),
{
    if s.len() == 0 || s[0] == c {
    } else {
        lemma_first_index_bounds(s.skip(1), c);
        assert forall|k: int| 0 <= k < first_index(s, c) implies s[k] != c by {
            if k > 0 {
                assert(s.skip(1)[k - 1] == s[k]);
            }
        }
    }
}

/// A place that holds the character, with none before it, is its first place.
pub proof fn lemma_first_index_is(s: Seq<char>, c: char, n: int)
    requires
        0 <= n <= s.len(),
        forall|k: int| 0 <= k < n ==> s[k] != c,
        n < s.len() ==> s[n] == c,
    ensures
        first_index(s, c) == n,
{
    lemma_first_index_bounds(s, c);
}

/// The last place of a character holds it and nothing after that place
/// does; it is -1 where the character is not in the text.
pub proof fn lemma_last_index_bounds(s: Seq<char>, c: char)
    ensures
        -1 <= last_index(s, c) < s.len(),
        last_index(s, c) >= 0 ==> s[last_index(s, c)] == c,
        forall|k: int| last_index(s, c) < k < s.len() ==> s[k] != c,
    decreases s.len(),
{
    if s.len() == 0 || s.last() == c {
    } else {
        lemma_last_index_bounds(s.drop_last(), c);
        assert forall|k: int| last_index(s, c) < k < s.len() implies s[k] != c by {
            if k < s.len() - 1 {
                assert(s.drop_last()[k] == s[k]);
            }
        }
    }
}

/// Position of the first `c` at or after `from`, or the length.
pub fn find_from(s: &Vec<char>, from: usize, c: char) -> (r: usize)
    requires
        from <= s.len(),
    ensures
        r == from + first_index(s@.skip(from as int), c),
        from <= r <= s.len(),
{
    let mut i: usize = from;
    while i < s.len() && s[i] != c
        invariant
            from <= i <= s.len(),
            forall|k: int| from <= k < i ==> s@[k] != c,
        decreases s.len() - i,
    {
        i = i + 1;
    }
    proof {
        lemma_first_index_is(s@.skip(from as int), c, i - from);
    }
    i
}

/// Position of the last `c`, if there is one.
pub fn find_last(s: &Vec<char>, c: char) -> (r: Option<usize>)
    ensures
        match r {
            Some(i) => i == last_index(s@, c) && i < s.len() && s@[i as int] == c,
            None => last_index(s@, c) == -1,
        },
{
    proof {
        lemma_last_index_bounds(s@, c);
    }
    let mut i: usize = s.len();
    assert(s@.take(s.len() as int) == s@);
    while i > 0
        invariant
            i <= s.len(),
            last_index(s@, c) == last_index(s@.take(i as int), c),
        decreases i,
    {
        if s[i - 1] == c {
            return Some(i - 1);
        }
        assert(s@.take(i as int).drop_last() == s@.take(i - 1));
        i = i - 1;
    }
    None
}

/// A copy of the characters from `from` up to `to`.
pub fn slice(s: &Vec<char>, from: usize, to: usize) -> (r: Vec<char>)
    requires
        from <= to <= s.len(),
    ensures
        r@ == s@.subrange(from as int, to as int),
{
    let mut out: Vec<char> = Vec::new();
    let mut i: usize = from;
    while i < to
        invariant
            from <= i <= to <= s.len(),
            out@ == s@.subrange(from as int, i as int),
        decreases to - i,
    {
        out.push(s[i]);
        i = i + 1;
    }
    out
}

/// Splits the characters at every `sep`.
pub fn split(s: &Vec<char>, sep: char) -> (r: Vec<Vec<char>>)
    ensures
        views(r@) == split_on(s@, sep),
        r.len() >= 1,
{
    let mut out: Vec<Vec<char>> = Vec::new();
    let mut start: usize = 0;
    assert(s@.skip(0) == s@);
    assert(views(out@) + split_on(s@, sep) == split_on(s@, sep));
    loop
        invariant_except_break
            start <= s.len(),
            split_on(s@, sep) == views(out@) + split_on(s@.skip(start as int), sep),
        ensures
            views(out@) == split_on(s@, sep),
            out.len() >= 1,
        decreases s.len() - start,
    {
        let end = find_from(s, start, sep);
        let piece = slice(s, start, end);
        let ghost rest = s@.skip(start as int);
        let ghost before = views(out@);
        assert(piece@ == rest.take(end - start));
        out.push(piece);
        assert(views(out@) == before.push(piece@));
        if end >= s.len() {
            assert(rest.take(end - start) == rest);
            assert(split_on(rest, sep) == seq![rest]);
            break ;
        }
        assert(rest.skip(end - start + 1) == s@.skip(end + 1));
        assert(split_on(rest, sep) == seq![rest.take(end - start)] + split_on(
            rest.skip(end - start + 1),
            sep,
        ));
        start = end + 1;
    }
    out
}

/// Joins the pieces with `sep` between neighbours.
pub fn join(parts: &Vec<Vec<char>>, sep: &str) -> (r: Vec<char>)
    ensures
        r@ == join_with(views(parts@), sep@),
{
    let mut out: Vec<char> = Vec::new();
    let mut i: usize = 0;
    while i < parts.len()
        invariant
            i <= parts.len(),
            out@ == join_with(views(parts@).take(i as int), sep@),
        decreases parts.len() - i,
    {
        let ghost prefix = views(parts@).take(i + 1);
        assert(prefix.drop_last() == views(parts@).take(i as int));
        assert(prefix.last() == parts@[i as int]@);
        if i > 0 {
            push_str(&mut out, sep);
        }
        push_all(&mut out, &parts[i]);
        i = i + 1;
    }
    assert(views(parts@).take(parts.len() as int) == views(parts@));
    out
}

/// The lowercase form of an ASCII capital; every other character is itself.
pub open spec fn ascii_lower(c: char) -> char {
    if 'A' <= c && c <= 'Z' {
        ((c as u8) + 32) as char
    } else {
        c
    }
}

/// The text with every ASCII capital folded to lowercase.
pub open spec fn ascii_lowercase(s: Seq<char>) -> Seq<char> {
    s.map_values(|c: char| ascii_lower(c))
}

/// An ASCII capital as its small letter, any other character as it is.
pub fn lower_char(c: char) -> (r: char)
    ensures
        r == ascii_lower(c),
{
    if c >= 'A' && c <= 'Z' {
        ((c as u8) + 32) as char
    } else {
        c
    }
}

/// A text with its ASCII capitals as small letters.
pub fn to_ascii_lowercase(s: &Vec<char>) -> (r: Vec<char>)
    ensures
        r@ == ascii_lowercase(s@),
{
    let mut out: Vec<char> = Vec::new();
    let mut i: usize = 0;
    while i < s.len()
        invariant
            i <= s.len(),
            out@ == ascii_lowercase(s@.take(i as int)),
        decreases s.len() - i,
    {
        out.push(lower_char(s[i]));
        assert(s@.take(i + 1) == s@.take(i as int).push(s@[i as int]));
        i = i + 1;
    }
    assert(s@.take(s.len() as int) == s@);
    out
}

/// Whether a character is an ASCII letter.
pub open spec fn is_ascii_letter(c: char) -> bool {
    ('a' <= c && c <= 'z') || ('A' <= c && c <= 'Z')
}

/// Whether a character is an ASCII digit.
pub open spec fn is_ascii_digit(c: char) -> bool {
    '0' <= c && c <= '9'
}

/// The characters that `char::is_ascii_whitespace` accepts: space, tab,
/// line feed, form feed and carriage return.
pub open spec fn is_ascii_space(c: char) -> bool {
    c == ' ' || c == '\t' || c == '\n' || c == '\x0C' || c == '\r'
}

/// Whether a character is an ASCII letter.
pub fn ascii_letter(c: char) -> (r: bool)
    ensures
        r == is_ascii_letter(c),
{
    (c >= 'a' && c <= 'z') || (c >= 'A' && c <= 'Z')
}

/// Whether a character is an ASCII digit.
pub fn ascii_digit(c: char) -> (r: bool)
    ensures
        r == is_ascii_digit(c),
{
    c >= '0' && c <= '9'
}

/// Whether a character is ASCII white space.
pub fn ascii_space(c: char) -> (r: bool)
    ensures
        r == is_ascii_space(c),
{
    c == ' ' || c == '\t' || c == '\n' || c == '\x0C' || c == '\r'
}

/// Strict lexicographic order by code point, which is how `str` orders.
pub open spec fn text_less(a: Seq<char>, b: Seq<char>) -> bool
    decreases a.len(),
{
    if b.len() == 0 {
        false
    } else if a.len() == 0 {
        true
    } else if a[0] != b[0] {
        (a[0] as u32) < (b[0] as u32)
    } else {
        text_less(a.skip(1), b.skip(1))
    }
}

/// Whether one text comes before another, character by character.
pub fn less_than(a: &Vec<char>, b: &Vec<char>) -> (r: bool)
    ensures
        r == text_less(a@, b@),
{
    let mut i: usize = 0;
    assert(a@.skip(0) == a@ && b@.skip(0) == b@);
    while i < a.len() && i < b.len()
        invariant
            i <= a.len(),
            i <= b.len(),
            text_less(a@, b@) == text_less(a@.skip(i as int), b@.skip(i as int)),
        decreases a.len() - i,
    {
        if a[i] != b[i] {
            return (a[i] as u32) < (b[i] as u32);
        }
        assert(a@.skip(i as int).skip(1) == a@.skip(i + 1));
        assert(b@.skip(i as int).skip(1) == b@.skip(i + 1));
        i = i + 1;
    }
    i < b.len()
}

/// Number of bytes of a character in UTF-8.
pub open spec fn utf8_width(c: char) -> nat {
    if (c as u32) < 0x80 {
        1
    } else if (c as u32) < 0x800 {
        2
    } else if (c as u32) < 0x10000 {
        3
    } else {
        4
    }
}

/// Number of bytes of a text in UTF-8.
pub open spec fn utf8_len(s: Seq<char>) -> nat
    decreases s.len(),
{
    if s.len() == 0 {
        0
    } else {
        utf8_len(s.drop_last()) + utf8_width(s.last())
    }
}

/// A text takes at least one byte and at most four for each character.
pub proof fn lemma_utf8_len_bounds(s: Seq<char>)
    ensures
        s.len() <= utf8_len(s) <= 4 * s.len(),
    decreases s.len(),
{
    if s.len() > 0 {
        lemma_utf8_len_bounds(s.drop_last());
    }
}

/// The bytes of two texts together are the sum of their bytes.
pub proof fn lemma_utf8_len_concat(a: Seq<char>, b: Seq<char>)
    ensures
        utf8_len(a + b) == utf8_len(a) + utf8_len(b),
    decreases b.len(),
{
    if b.len() == 0 {
        assert(a + b == a);
    } else {
        assert((a + b).drop_last() == a + b.drop_last());
        lemma_utf8_len_concat(a, b.drop_last());
    }
}

/// How many bytes a character takes in UTF-8.
pub fn char_width(c: char) -> (r: usize)
    ensures
        r == utf8_width(c),
        1 <= r <= 4,
{
    let v: u32 = c as u32;
    if v < 0x80 {
        1
    } else if v < 0x800 {
        2
    } else if v < 0x10000 {
        3
    } else {
        4
    }
}

/// Whether the text takes more than `limit` bytes in UTF-8.
pub fn longer_than(s: &Vec<char>, limit: usize) -> (r: bool)
    requires
        limit <= usize::MAX - 4,
    ensures
        r == (utf8_len(s@) > limit),
{
    let mut total: usize = 0;
    let mut i: usize = 0;
    while i < s.len()
        invariant
            i <= s.len(),
            total == utf8_len(s@.take(i as int)),
            total <= limit,
            limit <= usize::MAX - 4,
        decreases s.len() - i,
    {
        let w = char_width(s[i]);
        proof {
            assert(s@.take(i + 1).drop_last() == s@.take(i as int));
            assert(s@ == s@.take(i + 1) + s@.skip(i + 1));
            lemma_utf8_len_concat(s@.take(i + 1), s@.skip(i + 1));
        }
        if total + w > limit {
            return true;
        }
        total = total + w;
        i = i + 1;
    }
    assert(s@.take(s.len() as int) == s@);
    false
}

/// The character of a decimal digit.
pub open spec fn digit_char(d: nat) -> char {
    ((48 + d) as u8) as char
}

/// The decimal notation of a number, without leading zeros.
pub open spec fn decimal(n: nat) -> Seq<char>
    decreases n,
{
    if n < 10 {
        seq![digit_char(n)]
    } else {
        decimal(n / 10).push(digit_char(n % 10))
    }
}

/// Appends the decimal notation of `n`.
pub fn push_decimal(out: &mut Vec<char>, n: u64)
    ensures
        final(out)@ == old(out)@ + decimal(n as nat),
    decreases n,
{
    if n >= 10 {
        push_decimal(out, n / 10);
    }
    let d: u8 = (n % 10) as u8;
    out.push((48 + d) as char);
    proof {
        if n >= 10 {
            assert(old(out)@ + decimal((n / 10) as nat).push(digit_char((n % 10) as nat)) == (
            old(out)@ + decimal((n / 10) as nat)).push(digit_char((n % 10) as nat)));
        } else {
            assert(old(out)@ + seq![digit_char(n as nat)] == old(out)@.push(digit_char(n as nat)));
        }
    }
}

/// Every character is a decimal digit.
pub open spec fn all_digits(s: Seq<char>) -> bool {
    forall|i: int| 0 <= i < s.len() ==> is_ascii_digit(#[trigger] s[i])
}

/// The number that a run of decimal digits stands for.
pub open spec fn digits_value(s: Seq<char>) -> nat
    decreases s.len(),
{
    if s.len() == 0 {
        0
    } else {
        (digits_value(s.drop_last()) * 10 + ((s.last() as u32) - 48)) as nat
    }
}

/// What `str::parse::<u64>` accepts: an optional `+`, then at least one
/// decimal digit, the whole standing for a number that fits.
pub open spec fn parsed_u64(s: Seq<char>) -> Option<u64> {
    let body = if s.len() > 0 && s[0] == '+' {
        s.skip(1)
    } else {
        s
    };
    if body.len() > 0 && all_digits(body) && digits_value(body) <= u64::MAX {
        Some(digits_value(body) as u64)
    } else {
        None
    }
}

/// The value of the first digits of a number is at most the number.
pub proof fn lemma_digits_value_grows(s: Seq<char>, n: int)
    requires
        0 <= n <= s.len(),
        all_digits(s),
    ensures
        digits_value(s.take(n)) <= digits_value(s),
    decreases s.len() - n,
{
    if n == s.len() {
        assert(s.take(n) == s);
    } else {
        lemma_digits_value_grows(s, n + 1);
        assert(s.take(n + 1).drop_last() == s.take(n));
        assert(is_ascii_digit(s[n]));
    }
}

/// Reads a `u64` as `str::parse` does.
pub fn parse_u64(s: &Vec<char>) -> (r: Option<u64>)
    ensures
        r == parsed_u64(s@),
{
    let start: usize = if s.len() > 0 && s[0] == '+' {
        1
    } else {
        0
    };
    if start >= s.len() {
        return None;
    }
    let ghost body = s@.skip(start as int);
    assert(s@.skip(0) == s@);
    assert(body.take(0) == Seq::<char>::empty());
    let mut value: u64 = 0;
    let mut i: usize = start;
    while i < s.len()
        invariant
            start <= i <= s.len(),
            body == s@.skip(start as int),
            body == (if s@.len() > 0 && s@[0] == '+' {
                s@.skip(1)
            } else {
                s@
            }),
            all_digits(body.take(i - start)),
            value == digits_value(body.take(i - start)),
        decreases s.len() - i,
    {
        let c = s[i];
        assert(body[i - start] == c);
        if !ascii_digit(c) {
            assert(!is_ascii_digit(body[i - start]));
            return None;
        }
        let d: u64 = ((c as u32) - 48) as u64;
        let ghost next = body.take(i - start + 1);
        assert(next.drop_last() == body.take(i - start));
        assert(next.last() == c);
        assert(all_digits(next)) by {
            assert forall|k: int| 0 <= k < next.len() implies is_ascii_digit(#[trigger] next[k]) by {
                if k < next.len() - 1 {
                    assert(next[k] == body.take(i - start)[k]);
                }
            }
        }
        let grown = match value.checked_mul(10) {
            Some(m) => m.checked_add(d),
            None => None,
        };
        match grown {
            Some(g) => {
                value = g;
            },
            None => {
                proof {
                    assert(digits_value(next) > u64::MAX);
                    if all_digits(body) {
                        lemma_digits_value_grows(body, i - start + 1);
                    }
                }
                return None;
            },
        }
        i = i + 1;
    }
    assert(body.take(s.len() - start) == body);
    Some(value)
}

} // verus!
