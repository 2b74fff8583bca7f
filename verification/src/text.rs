//! Text and byte strings.

use vstd::prelude::*;
use vstd::utf8::*;
use vstd::string::*;

verus! {

/// The characters that Unicode gives the property `White_Space`.
pub open spec fn is_white_space(c: char) -> bool {
    let n = c as u32;
    ||| 0x09 <= n <= 0x0d
    ||| n == 0x20
    ||| n == 0x85
    ||| n == 0xa0
    ||| n == 0x1680
    ||| 0x2000 <= n <= 0x200a
    ||| n == 0x2028
    ||| n == 0x2029
    ||| n == 0x202f
    ||| n == 0x205f
    ||| n == 0x3000
}

/// `s` without the white space at its two ends.
pub open spec fn trimmed(s: Seq<char>) -> Seq<char>
    decreases s.len(),
{
    if s.len() == 0 {
        s
    } else if is_white_space(s.first()) {
        trimmed(s.drop_first())
    } else if is_white_space(s.last()) {
        trimmed(s.drop_last())
    } else {
        s
    }
}

fn white_space(c: char) -> (r: bool)
    ensures
        r == is_white_space(c),
{
    let n: u32 = c as u32;
    (0x09 <= n && n <= 0x0d) || n == 0x20 || n == 0x85 || n == 0xa0 || n == 0x1680 || (0x2000 <= n
        && n <= 0x200a) || n == 0x2028 || n == 0x2029 || n == 0x202f || n == 0x205f || n == 0x3000
}

/// The text without the white space at its two ends.
pub fn trim(text: &str) -> (r: &str)
    ensures
        r@ == trimmed(text@),
{
    let len: usize = text.unicode_len();
    let mut start: usize = 0;
    let mut end: usize = len;
    assert(text@.subrange(0, len as int) =~= text@);
    while start < end && white_space(text.get_char(start))
        invariant
            len == text@.len(),
            start <= end,
            end == len,
            trimmed(text@) == trimmed(text@.subrange(start as int, end as int)),
        decreases end - start,
    {
        assert(text@.subrange(start as int, end as int).drop_first() =~= text@.subrange(
            start + 1,
            end as int,
        ));
        start += 1;
    }
    while start < end && white_space(text.get_char(end - 1))
        invariant
            len == text@.len(),
            start <= end <= len,
            start < end ==> !is_white_space(text@[start as int]),
            trimmed(text@) == trimmed(text@.subrange(start as int, end as int)),
        decreases end - start,
    {
        assert(text@.subrange(start as int, end as int).drop_last() =~= text@.subrange(
            start as int,
            end - 1,
        ));
        end -= 1;
    }
    text.substring_char(start, end)
}

/// Calls `String::from_utf8`: the text that the bytes encode, or nothing where they are not
/// UTF-8.
#[verifier::external_body]
pub(crate) fn text_of_bytes(bytes: Vec<u8>) -> (r: Option<String>)
    ensures
        r is Some <==> valid_utf8(bytes@),
        r matches Some(text) ==> text@ == decode_utf8(bytes@),
{
    String::from_utf8(bytes).ok()
}

/// Whether the text reads `word`.
pub fn reads(text: &str, word: &str) -> (r: bool)
    ensures
        r == (text@ == word@),
{
    text.to_owned() == word.to_owned()
}

/// Whether two byte strings are equal.
pub fn same_bytes(a: &[u8], b: &[u8]) -> (r: bool)
    ensures
        r == (a@ == b@),
{
    if a.len() != b.len() {
        return false;
    }
    let mut i: usize = 0;
    while i < a.len()
        invariant
            i <= a.len(),
            a.len() == b.len(),
            forall|j: int| 0 <= j < i ==> a@[j] == b@[j],
        decreases a.len() - i,
    {
        if a[i] != b[i] {
            return false;
        }
        i += 1;
    }
    assert(a@ =~= b@);
    true
}

/// A copy of the bytes.
pub fn copy_bytes(bytes: &[u8]) -> (r: Vec<u8>)
    ensures
        r@ == bytes@,
{
    let mut copy: Vec<u8> = Vec::new();
    let mut i: usize = 0;
    while i < bytes.len()
        invariant
            i <= bytes.len(),
            copy@ == bytes@.take(i as int),
        decreases bytes.len() - i,
    {
        copy.push(bytes[i]);
        assert(bytes@.take(i + 1) =~= bytes@.take(i as int).push(bytes@[i as int]));
        i += 1;
    }
    assert(bytes@.take(i as int) =~= bytes@);
    copy
}

/// Where the first line of `s` ends: at its first line feed, or else at the end of the text.
pub open spec fn line_feed_at(s: Seq<char>) -> int
    decreases s.len(),
{
    if s.len() == 0 || s.first() == '\n' {
        0
    } else {
        1 + line_feed_at(s.drop_first())
    }
}

/// The first line of a text: what stands before the first line feed, without the carriage return
/// that may belong to the line ending. An empty text has no line.
pub open spec fn first_line_of(s: Seq<char>) -> Option<Seq<char>> {
    let end = line_feed_at(s);
    if s.len() == 0 {
        None
    } else if 0 < end < s.len() && s[end - 1] == '\r' {
        Some(s.take(end - 1))
    } else {
        Some(s.take(end))
    }
}

proof fn lemma_line_feed_at(s: Seq<char>, n: int)
    requires
        0 <= n <= s.len(),
        forall|i: int| 0 <= i < n ==> s[i] != '\n',
        n < s.len() ==> s[n] == '\n',
    ensures
        line_feed_at(s) == n,
    decreases s.len(),
{
    if n > 0 {
        lemma_line_feed_at(s.drop_first(), n - 1);
    }
}

/// The first line of a text, without its line ending.
pub fn first_line(text: &str) -> (r: Option<String>)
    ensures
        match r {
            Some(line) => first_line_of(text@) == Some(line@),
            None => first_line_of(text@) is None,
        },
{
    let len: usize = text.unicode_len();
    if len == 0 {
        return None;
    }
    let mut end: usize = 0;
    while end < len && text.get_char(end) != '\n'
        invariant
            len == text@.len(),
            end <= len,
            forall|i: int| 0 <= i < end ==> text@[i] != '\n',
        decreases len - end,
    {
        end += 1;
    }
    proof {
        lemma_line_feed_at(text@, end as int);
    }
    if 0 < end && end < len && text.get_char(end - 1) == '\r' {
        assert(text@.subrange(0, end - 1) =~= text@.take(end - 1));
        Some(text.substring_char(0, end - 1).to_owned())
    } else {
        assert(text@.subrange(0, end as int) =~= text@.take(end as int));
        Some(text.substring_char(0, end).to_owned())
    }
}

} // verus!
