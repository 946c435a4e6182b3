//! Operations on text that the gateway's rules are stated with: trimming
//! white space and finding a character.

use vstd::prelude::*;
use vstd::string::*;

verus! {

/// The characters with the Unicode property `White_Space`.
pub open spec fn is_white_space(c: char) -> bool {
    ||| '\u{9}' <= c <= '\u{d}'
    ||| c == ' '
    ||| c == '\u{85}'
    ||| c == '\u{a0}'
    ||| c == '\u{1680}'
    ||| '\u{2000}' <= c <= '\u{200a}'
    ||| c == '\u{2028}'
    ||| c == '\u{2029}'
    ||| c == '\u{202f}'
    ||| c == '\u{205f}'
    ||| c == '\u{3000}'
}

/// The text without the white space it begins with.
pub open spec fn trim_start(text: Seq<char>) -> Seq<char>
    decreases text.len(),
{
    if text.len() > 0 && is_white_space(text[0]) {
        trim_start(text.drop_first())
    } else {
        text
    }
}

/// The text without the white space it ends with.
pub open spec fn trim_end(text: Seq<char>) -> Seq<char>
    decreases text.len(),
{
    if text.len() > 0 && is_white_space(text.last()) {
        trim_end(text.drop_last())
    } else {
        text
    }
}

/// The text without the white space around it.
pub open spec fn trim(text: Seq<char>) -> Seq<char> {
    trim_end(trim_start(text))
}

/// Where a character first stands in a text, if it stands there at all.
pub open spec fn position_of(text: Seq<char>, c: char) -> Option<int>
    decreases text.len(),
{
    if text.len() == 0 {
        None
    } else if text[0] == c {
        Some(0)
    } else {
        match position_of(text.drop_first(), c) {
            None => None,
            Some(i) => Some(i + 1),
        }
    }
}

/// Tells whether a character is white space.
pub fn is_white_space_char(c: char) -> (b: bool)
    ensures
        b == is_white_space(c),
{
    ('\u{9}' <= c && c <= '\u{d}') || c == ' ' || c == '\u{85}' || c == '\u{a0}' || c
        == '\u{1680}' || ('\u{2000}' <= c && c <= '\u{200a}') || c == '\u{2028}' || c
        == '\u{2029}' || c == '\u{202f}' || c == '\u{205f}' || c == '\u{3000}'
}

/// Returns the text without the white space around it.
pub fn trim_text(text: &str) -> (r: &str)
    ensures
        r@ == trim(text@),
{
    let n = text.unicode_len();
    let mut start: usize = 0;
    let mut found = false;
    assert(text@.skip(0) =~= text@);
    while start < n && !found
        invariant
            start <= n == text@.len(),
            trim_start(text@) == trim_start(text@.skip(start as int)),
            found ==> start < n && !is_white_space(text@[start as int]),
        decreases n - start + if found { 0int } else { 1int },
    {
        if is_white_space_char(text.get_char(start)) {
            assert(text@.skip(start as int).drop_first() =~= text@.skip(start + 1));
            start += 1;
        } else {
            found = true;
        }
    }
    let ghost rest = text@.skip(start as int);
    assert(trim_start(text@) == rest);
    let mut end: usize = n;
    found = false;
    assert(rest =~= text@.subrange(start as int, end as int));
    while end > start && !found
        invariant
            start <= end <= n == text@.len(),
            trim_end(rest) == trim_end(text@.subrange(start as int, end as int)),
            found ==> end > start && !is_white_space(text@[end - 1]),
        decreases end - start + if found { 0int } else { 1int },
    {
        if is_white_space_char(text.get_char(end - 1)) {
            assert(text@.subrange(start as int, end as int).drop_last() =~= text@.subrange(
                start as int,
                end - 1,
            ));
            end -= 1;
        } else {
            found = true;
        }
    }
    assert(trim_end(text@.subrange(start as int, end as int)) == text@.subrange(
        start as int,
        end as int,
    ));
    text.substring_char(start, end)
}

/// Finds where a character first stands in a text at or behind `from`.
pub fn find_char(text: &str, c: char, from: usize) -> (r: Option<usize>)
    requires
        from <= text@.len(),
    ensures
        r matches Some(i) ==> from <= i < text@.len() && position_of(
            text@.skip(from as int),
            c,
        ) == Some(i - from),
        r is None ==> position_of(text@.skip(from as int), c) is None,
{
    let n = text.unicode_len();
    let mut i: usize = from;
    while i < n
        invariant
            from <= i <= n == text@.len(),
            forall|j: int| from <= j < i ==> text@[j] != c,
        decreases n - i,
    {
        if text.get_char(i) == c {
            proof {
                lemma_position_found(text@.skip(from as int), c, i - from);
            }
            return Some(i);
        }
        i += 1;
    }
    proof {
        lemma_position_none(text@.skip(from as int), c);
    }
    None
}

/// A character that stands at `k` and nowhere before stands first at `k`.
pub proof fn lemma_position_found(text: Seq<char>, c: char, k: int)
    requires
        0 <= k < text.len(),
        text[k] == c,
        forall|j: int| 0 <= j < k ==> text[j] != c,
    ensures
        position_of(text, c) == Some(k),
    decreases k,
{
    if k > 0 {
        let rest = text.drop_first();
        assert forall|j: int| 0 <= j < k - 1 implies rest[j] != c by {
            assert(rest[j] == text[j + 1]);
        }
        lemma_position_found(rest, c, k - 1);
    }
}

/// A character that stands nowhere in a text has no first place in it.
pub proof fn lemma_position_none(text: Seq<char>, c: char)
    requires
        forall|j: int| 0 <= j < text.len() ==> text[j] != c,
    ensures
        position_of(text, c) is None,
    decreases text.len(),
{
    if text.len() > 0 {
        let rest = text.drop_first();
        assert forall|j: int| 0 <= j < rest.len() implies rest[j] != c by {
            assert(rest[j] == text[j + 1]);
        }
        lemma_position_none(rest, c);
    }
}

/// True when both texts hold the same characters.
pub fn same_text(a: &str, b: &str) -> (r: bool)
    ensures
        r == (a@ == b@),
{
    a.to_owned() == b.to_owned()
}

} // verus!
