//! What holds of texts and paths that are taken apart or put together.

use vstd::prelude::*;
use vstd::string::*;
use crate::paths;
use crate::text;

verus! {

/// Whether the character is one that leaves a blank.
pub open spec fn is_blank(c: char) -> bool {
    ||| c == '\t'
    ||| c == '\n'
    ||| c == '\u{b}'
    ||| c == '\u{c}'
    ||| c == '\r'
    ||| c == ' '
    ||| c == '\u{85}'
    ||| c == '\u{a0}'
    ||| c == '\u{1680}'
    ||| '\u{2000}' <= c <= '\u{200a}'
    ||| c == '\u{2028}'
    ||| c == '\u{2029}'
    ||| c == '\u{202f}'
    ||| c == '\u{205f}'
    ||| c == '\u{3000}'
}

/// White space is just what leaves a blank.
pub proof fn law_white_space_is_blank(c: char)
    ensures
        text::is_white_space(c) <==> is_blank(c),
{
}

/// Whether all but the part between the two places is blank, and that part neither begins nor ends
/// with a blank.
pub open spec fn is_core(s: Seq<char>, start: int, end: int) -> bool {
    &&& 0 <= start <= end <= s.len()
    &&& forall|i: int| 0 <= i < start ==> is_blank(#[trigger] s[i])
    &&& forall|i: int| end <= i < s.len() ==> is_blank(#[trigger] s[i])
    &&& start < end ==> !is_blank(s[start]) && !is_blank(s[end - 1])
}

/// A text without the white space at its two ends is the part of it around which everything is blank
/// and which neither begins nor ends with a blank. Blanks inside that part stay.
pub proof fn law_trimmed_text_is_the_core(s: Seq<char>, start: int, end: int)
    requires
        is_core(s, start, end),
    ensures
        text::trimmed(s) == s.subrange(start, end),
    decreases s.len(),
{
    assert forall|c: char| #[trigger] text::is_white_space(c) <==> is_blank(c) by {
        law_white_space_is_blank(c);
    }
    if s.len() == 0 {
        assert(s.subrange(start, end) =~= s);
    } else if is_blank(s[0]) {
        let rest = s.drop_first();
        assert forall|i: int| 0 <= i < rest.len() implies #[trigger] rest[i] == s[i + 1] by {}
        if start > 0 {
            law_trimmed_text_is_the_core(rest, start - 1, end - 1);
            assert(rest.subrange(start - 1, end - 1) =~= s.subrange(start, end));
        } else {
            law_trimmed_text_is_the_core(rest, 0, 0);
            assert(rest.subrange(0, 0) =~= s.subrange(start, end));
        }
    } else {
        assert(start == 0 && end > 0);
        if is_blank(s[s.len() - 1]) {
            let rest = s.drop_last();
            assert(end < s.len());
            law_trimmed_text_is_the_core(rest, start, end);
            assert(rest.subrange(start, end) =~= s.subrange(start, end));
        } else {
            assert(end == s.len());
            assert(s.subrange(start, end) =~= s);
        }
    }
}

proof fn lemma_line_feed(s: Seq<char>)
    ensures
        0 <= text::line_feed_at(s) <= s.len(),
        forall|i: int| 0 <= i < text::line_feed_at(s) ==> #[trigger] s[i] != '\n',
        text::line_feed_at(s) < s.len() ==> s[text::line_feed_at(s)] == '\n',
    decreases s.len(),
{
    if s.len() > 0 && s.first() != '\n' {
        let rest = s.drop_first();
        lemma_line_feed(rest);
        assert forall|i: int| 0 <= i < text::line_feed_at(s) implies #[trigger] s[i] != '\n' by {
            if i > 0 {
                assert(rest[i - 1] == s[i]);
            }
        }
    }
}

/// The first line of a text is what stands before its first line ending, which is a line feed or a
/// carriage return with a line feed; without a line ending it is the whole text. Only an empty text
/// has no line.
pub proof fn law_first_line_ends_at_the_first_ending(s: Seq<char>)
    ensures
        match text::first_line_of(s) {
            None => s.len() == 0,
            Some(line) => {
                let n = line.len() as int;
                &&& s.len() > 0
                &&& n <= s.len()
                &&& line == s.take(n)
                &&& !line.contains('\n')
                &&& {
                    ||| n == s.len()
                    ||| s[n] == '\n' && (n == 0 || s[n - 1] != '\r')
                    ||| s[n] == '\r' && n + 1 < s.len() && s[n + 1] == '\n'
                }
            },
        },
{
    lemma_line_feed(s);
    match text::first_line_of(s) {
        Some(line) => {
            assert(line =~= s.take(line.len() as int));
            if line.contains('\n') {
                let i = choose|i: int| 0 <= i < line.len() && line[i] == '\n';
                assert(s[i] == '\n');
            }
        },
        None => {},
    }
}

/// A path that is read against a directory stands for itself where it is absolute. Else it begins
/// with the directory and ends with the path, and between them stands a separator, unless the
/// directory is empty or ends with one.
pub proof fn law_path_is_read_against_its_directory(directory: Seq<u8>, path: Seq<u8>)
    ensures
        path.len() > 0 && path[0] == 47 ==> paths::joined(directory, path) == path,
        path.len() == 0 || path[0] != 47 ==> {
            let whole = paths::joined(directory, path);
            let parted = directory.len() > 0 && directory[directory.len() - 1] != 47;
            &&& whole.len() == directory.len() + path.len() + if parted {
                1int
            } else {
                0
            }
            &&& whole.take(directory.len() as int) == directory
            &&& whole.skip(whole.len() - path.len()) == path
            &&& parted ==> whole[directory.len() as int] == 47
        },
{
    if path.len() == 0 || path[0] != 47 {
        let whole = paths::joined(directory, path);
        assert(whole.take(directory.len() as int) =~= directory);
        assert(whole.skip(whole.len() - path.len()) =~= path);
    }
}

} // verus!
