//! Content matching for project search: counting the occurrences of a
//! needle in a file's text and picking a one-line preview.
use vstd::prelude::*;
use vstd::utf8::{decode_utf8, valid_utf8};

use crate::text::{
    chars_of, lowercase, occurs_at, occurs_at_exec, seq_contains, contains_chars, string_from_range,
    to_lowercase, trim_bounds, trim_seq,
};

verus! {

/// Most characters of a content preview.
pub const CONTENT_PREVIEW_CHARS: usize = 240;

/// How many leading bytes are checked for a NUL to detect binary files.
pub const BINARY_SNIFF_BYTES: usize = 8192;

/// The number of non-overlapping occurrences of `needle` in `hay`, found
/// left to right (`str::matches(..).count()` for a non-empty needle).
pub open spec fn count_matches(hay: Seq<char>, needle: Seq<char>) -> nat
    decreases hay.len(),
{
    if needle.len() == 0 || hay.len() < needle.len() {
        0
    } else if hay.take(needle.len() as int) == needle {
        1 + count_matches(hay.skip(needle.len() as int), needle)
    } else {
        count_matches(hay.drop_first(), needle)
    }
}

/// Counts the non-overlapping occurrences of a non-empty `needle` in `hay`.
pub fn count_occurrences(hay: &Vec<char>, needle: &Vec<char>) -> (r: usize)
    requires
        needle.len() > 0,
    ensures
        r == count_matches(hay@, needle@),
{
    let mut i: usize = 0;
    let mut count: usize = 0;
    assert(hay@.skip(0) == hay@);
    while i < hay.len() && needle.len() <= hay.len() - i
        invariant
            i <= hay.len(),
            needle.len() > 0,
            count <= i,
            count + count_matches(hay@.skip(i as int), needle@) == count_matches(hay@, needle@),
        decreases hay.len() - i,
    {
        let ghost rest = hay@.skip(i as int);
        let at = occurs_at_exec(hay, needle, i);
        assert(rest.take(needle.len() as int) == hay@.subrange(i as int, i + needle.len()));
        if at {
            assert(rest.skip(needle.len() as int) == hay@.skip(i + needle.len()));
            count = count + 1;
            i = i + needle.len();
        } else {
            assert(rest.drop_first() == hay@.skip(i + 1));
            i = i + 1;
        }
    }
    assert(hay@.skip(i as int).len() < needle.len());
    count
}

/// The position of the first `c` in `s`, or -1.
pub open spec fn first_index_of(s: Seq<char>, c: char) -> int
    decreases s.len(),
{
    if s.len() == 0 {
        -1
    } else if s[0] == c {
        0
    } else if first_index_of(s.drop_first(), c) < 0 {
        -1
    } else {
        1 + first_index_of(s.drop_first(), c)
    }
}

/// A line without its `\r` when the line ended in `\r\n`.
pub open spec fn strip_cr(line: Seq<char>) -> Seq<char> {
    if line.len() > 0 && line.last() == '\r' {
        line.drop_last()
    } else {
        line
    }
}

/// The lines of `s` as `str::lines` yields them: split at `\n`, a `\r`
/// before the `\n` removed, no empty line after a final line break.
pub open spec fn lines_of(s: Seq<char>) -> Seq<Seq<char>>
    decreases s.len(),
{
    if s.len() == 0 {
        seq![]
    } else {
        let k = first_index_of(s, '\n');
        if k < 0 {
            seq![s]
        } else {
            proof {
                lemma_first_index_of(s, '\n');
            }
            seq![strip_cr(s.take(k))] + lines_of(s.skip(k + 1))
        }
    }
}

/// A preview line: trimmed and cut to [`CONTENT_PREVIEW_CHARS`] characters,
/// absent when that leaves nothing.
pub open spec fn preview_of_line(line: Seq<char>) -> Option<Seq<char>> {
    let t = trim_seq(line);
    let p = if t.len() <= CONTENT_PREVIEW_CHARS {
        t
    } else {
        t.take(CONTENT_PREVIEW_CHARS as int)
    };
    if p.len() == 0 {
        None
    } else {
        Some(p)
    }
}

/// The preview for `needle` among `lines`: built from the first line whose
/// lower-cased text contains the needle.
pub open spec fn preview_in(lines: Seq<Seq<char>>, needle: Seq<char>) -> Option<Seq<char>>
    decreases lines.len(),
{
    if lines.len() == 0 {
        None
    } else if seq_contains(lowercase(lines[0]), needle) {
        preview_of_line(lines[0])
    } else {
        preview_in(lines.drop_first(), needle)
    }
}

/// What content search finds in a text: `None` when the lower-cased text
/// holds no occurrence of the needle, else the occurrence count and the
/// preview.
pub open spec fn content_match_spec(text: Seq<char>, needle: Seq<char>) -> Option<(nat, Option<Seq<char>>)> {
    let count = count_matches(lowercase(text), needle);
    if count == 0 {
        None
    } else {
        Some((count, preview_in(lines_of(text), needle)))
    }
}

pub proof fn lemma_first_index_of(s: Seq<char>, c: char)
    ensures
        -1 <= first_index_of(s, c) < s.len(),
        first_index_of(s, c) >= 0 ==> s[first_index_of(s, c)] == c,
        forall|j: int| 0 <= j < s.len() && (first_index_of(s, c) < 0 || j < first_index_of(s, c)) ==> s[j] != c,
    decreases s.len(),
{
    if s.len() > 0 && s[0] != c {
        lemma_first_index_of(s.drop_first(), c);
        assert forall|j: int| 0 <= j < s.len() && (first_index_of(s, c) < 0 || j < first_index_of(s, c)) implies s[j] != c by {
            if j > 0 {
                assert(s[j] == s.drop_first()[j - 1]);
            }
        }
    }
}

proof fn lemma_first_index_is(s: Seq<char>, c: char, k: int)
    requires
        0 <= k <= s.len(),
        k < s.len() ==> s[k] == c,
        forall|j: int| 0 <= j < k ==> s[j] != c,
    ensures
        first_index_of(s, c) == (if k < s.len() { k } else { -1 }),
    decreases s.len(),
{
    if s.len() > 0 && k > 0 {
        assert forall|j: int| 0 <= j < k - 1 implies s.drop_first()[j] != c by {
            assert(s.drop_first()[j] == s[j + 1]);
        }
        lemma_first_index_is(s.drop_first(), c, k - 1);
    }
}

/// The position of the first `\n` at or after `from`, or `v.len()`.
fn line_end(v: &Vec<char>, from: usize) -> (k: usize)
    requires
        from <= v.len(),
    ensures
        from <= k <= v.len(),
        k < v.len() ==> v@[k as int] == '\n',
        forall|j: int| from <= j < k ==> v@[j] != '\n',
{
    let mut k = from;
    while k < v.len()
        invariant
            from <= k <= v.len(),
            forall|j: int| from <= j < k ==> v@[j] != '\n',
        decreases v.len() - k,
    {
        if v[k] == '\n' {
            return k;
        }
        k += 1;
    }
    k
}

/// The preview for `needle` in `text` (see [`preview_in`]).
pub fn content_preview(text: &Vec<char>, needle: &Vec<char>) -> (r: Option<String>)
    ensures
        match r {
            Some(p) => preview_in(lines_of(text@), needle@) == Some(p@),
            None => preview_in(lines_of(text@), needle@) is None,
        },
{
    let mut start: usize = 0;
    assert(text@.skip(0) == text@);
    while start < text.len()
        invariant
            start <= text.len(),
            preview_in(lines_of(text@), needle@) == preview_in(lines_of(text@.skip(start as int)), needle@),
        decreases text.len() - start,
    {
        let k = line_end(text, start);
        let ghost rest = text@.skip(start as int);
        proof {
            lemma_first_index_is(rest, '\n', k - start);
        }
        let mut end = k;
        if end > start && text[end - 1] == '\r' && k < text.len() {
            end = end - 1;
        }
        let line = string_from_range(text, start, end);
        proof {
            if k < text.len() {
                assert(rest.take(k - start) == text@.subrange(start as int, k as int));
                assert(rest.skip(k - start + 1) == text@.skip(k + 1));
                assert(line@ == strip_cr(rest.take(k - start)));
                assert(lines_of(rest) == seq![line@] + lines_of(text@.skip(k + 1)));
                assert((seq![line@] + lines_of(text@.skip(k + 1)))[0] == line@);
                assert((seq![line@] + lines_of(text@.skip(k + 1))).drop_first() == lines_of(text@.skip(k + 1)));
            } else {
                assert(rest == text@.subrange(start as int, k as int));
                assert(lines_of(rest) == seq![line@]);
                assert(lines_of(text@.skip(k as int)).len() == 0);
                assert(seq![line@].drop_first() == lines_of(text@.skip(k as int)));
            }
        }
        let lowered = to_lowercase(line.as_str());
        let hit = contains_chars(&chars_of(lowered.as_str()), needle);
        if hit {
            let lv = chars_of(line.as_str());
            let (a, b) = trim_bounds(&lv);
            let b2 = if b - a > CONTENT_PREVIEW_CHARS {
                a + CONTENT_PREVIEW_CHARS
            } else {
                b
            };
            proof {
                assert(lv@.subrange(a as int, b2 as int) == if trim_seq(line@).len() <= CONTENT_PREVIEW_CHARS {
                    trim_seq(line@)
                } else {
                    trim_seq(line@).take(CONTENT_PREVIEW_CHARS as int)
                });
            }
            if b2 == a {
                return None;
            }
            return Some(string_from_range(&lv, a, b2));
        }
        if k >= text.len() {
            start = text.len();
        } else {
            start = k + 1;
        }
    }
    assert(text@.skip(start as int).len() == 0);
    None
}

/// Turns bytes into a `String` when they are valid UTF-8 (`String::from_utf8`).
#[verifier::external_body]
pub fn utf8_string(bytes: Vec<u8>) -> (r: Option<String>)
    ensures
        r is Some <==> valid_utf8(bytes@),
        r matches Some(s) ==> s@ == decode_utf8(bytes@),
{
    String::from_utf8(bytes).ok()
}

/// Whether one of the first [`BINARY_SNIFF_BYTES`] bytes is NUL.
pub open spec fn looks_binary(bytes: Seq<u8>) -> bool {
    exists|i: int| 0 <= i < bytes.len() && i < BINARY_SNIFF_BYTES && bytes[i] == 0
}

/// Executable form of [`looks_binary`].
pub fn is_binary(bytes: &Vec<u8>) -> (r: bool)
    ensures
        r == looks_binary(bytes@),
{
    let mut i: usize = 0;
    while i < bytes.len() && i < BINARY_SNIFF_BYTES
        invariant
            i <= bytes.len(),
            i <= BINARY_SNIFF_BYTES,
            forall|j: int| 0 <= j < i ==> bytes@[j] != 0,
        decreases bytes.len() - i,
    {
        if bytes[i] == 0 {
            return true;
        }
        i += 1;
    }
    false
}

/// Searches a text for a non-empty, lower-cased `needle`.
pub fn content_match(text: &str, needle: &str) -> (r: Option<(usize, Option<String>)>)
    requires
        needle@.len() > 0,
    ensures
        match content_match_spec(text@, needle@) {
            None => r is None,
            Some((count, preview)) => r matches Some((c, p)) && c == count && match p {
                Some(s) => preview == Some(s@),
                None => preview is None,
            },
        },
{
    let n = chars_of(needle);
    let lowered = to_lowercase(text);
    let count = count_occurrences(&chars_of(lowered.as_str()), &n);
    if count == 0 {
        return None;
    }
    let preview = content_preview(&chars_of(text), &n);
    Some((count, preview))
}

} // verus!
