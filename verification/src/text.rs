//! Operations on text and on lists of texts.

use vstd::prelude::*;
use vstd::string::*;
use vstd::utf8::is_ascii_chars;

verus! {

/// The texts that a list of strings holds.
pub open spec fn texts(list: Seq<String>) -> Seq<Seq<char>> {
    list.map_values(|s: String| s@)
}

/// An ASCII character in lower case.
pub open spec fn ascii_lower(c: char) -> char {
    if 'A' <= c && c <= 'Z' {
        (c as u32 + 32) as char
    } else {
        c
    }
}

/// What `str::to_lowercase` makes of a text that is not all ASCII.
pub uninterp spec fn unicode_lowercase(text: Seq<char>) -> Seq<char>;

/// A text in lower case.
pub open spec fn lowercase(text: Seq<char>) -> Seq<char> {
    if is_ascii_chars(text) {
        text.map_values(|c: char| ascii_lower(c))
    } else {
        unicode_lowercase(text)
    }
}

/// `str::to_lowercase` depends on the text alone. Of an ASCII text it lowers the
/// letters from `A` to `Z` and keeps the rest. The Unicode case mapping behind the
/// other texts is not written out.
pub assume_specification[ str::to_lowercase ](text: &str) -> (lowered: String)
    ensures
        is_ascii_chars(text@) ==> lowered@ == text@.map_values(|c: char| ascii_lower(c)),
        !is_ascii_chars(text@) ==> lowered@ == unicode_lowercase(text@),
;

/// Whether a character has Unicode's `White_Space` property.
pub open spec fn is_white(c: char) -> bool {
    ||| '\t' <= c && c <= '\r'
    ||| c == ' ' || c == '\u{85}' || c == '\u{a0}' || c == '\u{1680}'
    ||| '\u{2000}' <= c && c <= '\u{200a}'
    ||| c == '\u{2028}' || c == '\u{2029}' || c == '\u{202f}' || c == '\u{205f}' || c == '\u{3000}'
}

/// `char::is_whitespace` tells whether a character has Unicode's `White_Space` property.
pub assume_specification[ char::is_whitespace ](c: char) -> (white: bool)
    ensures
        white == is_white(c),
;

/// Whether `piece` stands in `text`, beginning at `at`.
pub open spec fn occurs_at(text: Seq<char>, piece: Seq<char>, at: int) -> bool {
    &&& 0 <= at
    &&& at + piece.len() <= text.len()
    &&& text.subrange(at, at + piece.len()) == piece
}

/// Whether `piece` stands anywhere in `text`.
pub open spec fn occurs_in(text: Seq<char>, piece: Seq<char>) -> bool {
    exists|at: int| occurs_at(text, piece, at)
}

/// Gives the characters of a text.
fn chars_of(text: &str) -> (chars: Vec<char>)
    ensures
        chars@ == text@,
{
    let mut chars: Vec<char> = Vec::new();
    for c in it: text.chars()
        invariant
            it.seq() == text@,
            chars@ == text@.take(it.index() as int),
    {
        chars.push(c);
    }
    assert(text@.take(text@.len() as int) == text@);
    chars
}

/// Tells whether `piece` stands in `text`, beginning at `at`.
fn stands_at(text: &Vec<char>, piece: &Vec<char>, at: usize) -> (found: bool)
    requires
        at + piece.len() <= text.len(),
    ensures
        found == occurs_at(text@, piece@, at as int),
{
    let mut i: usize = 0;
    while i < piece.len()
        invariant
            at + piece.len() <= text.len(),
            i <= piece.len(),
            forall|j: int| 0 <= j < i ==> text@[at + j] == #[trigger] piece@[j],
        decreases piece.len() - i,
    {
        if text[at + i] != piece[i] {
            assert(text@.subrange(at as int, at + piece@.len())[i as int] != piece@[i as int]);
            return false;
        }
        i = i + 1;
    }
    assert(text@.subrange(at as int, at + piece@.len()) == piece@);
    true
}

/// Tells whether a piece stands anywhere in a text.
pub fn contains_piece(text: &str, piece: &str) -> (found: bool)
    ensures
        found == occurs_in(text@, piece@),
{
    let whole = chars_of(text);
    let part = chars_of(piece);
    let mut at: usize = 0;
    while part.len() <= whole.len() - at
        invariant
            whole@ == text@,
            part@ == piece@,
            at <= whole.len(),
            forall|j: int| 0 <= j < at ==> !#[trigger] occurs_at(text@, piece@, j),
        decreases whole.len() - at,
    {
        if stands_at(&whole, &part, at) {
            return true;
        }
        proof {
            if piece@.len() == 0 {
                assert(text@.subrange(at as int, at + piece@.len()) == piece@);
            }
        }
        at = at + 1;
    }
    false
}

/// Whether two texts are the same.
pub fn same_text(a: &str, b: &str) -> (same: bool)
    ensures
        same == (a@ == b@),
{
    a.to_owned() == b.to_owned()
}

/// Whether some character of a text is white space.
pub open spec fn has_white(text: Seq<char>) -> bool {
    exists|i: int| 0 <= i < text.len() && is_white(#[trigger] text[i])
}

/// Tells whether a text holds white space. A space is white space.
pub fn has_whitespace(text: &str) -> (found: bool)
    ensures
        found == has_white(text@),
        text@.contains(' ') ==> found,
{
    for c in it: text.chars()
        invariant
            it.seq() == text@,
            forall|j: int|
                0 <= j < it.index() ==> !is_white(#[trigger] text@[j]) && text@[j] != ' ',
    {
        if c.is_whitespace() {
            assert(is_white(text@[it.index() as int]));
            return true;
        }
    }
    false
}

/// Finds the first place of a character in a text, counted in characters.
pub fn find_char(text: &str, wanted: char) -> (place: Option<usize>)
    ensures
        match place {
            Some(i) => text@.index_of_first(wanted) == Some(i as int),
            None => text@.index_of_first(wanted) is None && !text@.contains(wanted),
        },
{
    let total: usize = text.unicode_len();
    let mut at: usize = 0;
    for c in it: text.chars()
        invariant
            it.seq() == text@,
            total == text@.len(),
            at == it.index(),
            forall|j: int| 0 <= j < at ==> text@[j] != wanted,
    {
        if c == wanted {
            proof {
                text@.index_of_first_ensures(wanted);
            }
            return Some(at);
        }
        at = at + 1;
    }
    proof {
        text@.index_of_first_ensures(wanted);
    }
    None
}

/// A text parted at its first space, if it has one: what stands before the space
/// and what stands behind it.
pub open spec fn parted(text: Seq<char>) -> Option<(Seq<char>, Seq<char>)> {
    match text.index_of_first(' ') {
        Some(i) => Some((text.take(i), text.skip(i + 1))),
        None => None,
    }
}

/// Parts a text at its first space. A text without a space cannot be parted.
pub fn split_once(in_string: &str) -> (parts: (&str, &str))
    requires
        in_string@.contains(' '),
    ensures
        parted(in_string@) == Some((parts.0@, parts.1@)),
        in_string@ == parts.0@ + seq![' '] + parts.1@,
        !parts.0@.contains(' '),
{
    let total: usize = in_string.unicode_len();
    proof {
        in_string@.index_of_first_ensures(' ');
    }
    match find_char(in_string, ' ') {
        Some(at) => {
            let first = in_string.substring_char(0, at);
            let second = in_string.substring_char(at + 1, total);
            assert(first@ == in_string@.take(at as int));
            assert(second@ == in_string@.skip(at + 1));
            (first, second)
        },
        None => (in_string, in_string),
    }
}

/// A text without its first and its last character. One character counts as both.
pub open spec fn inner(text: Seq<char>) -> Seq<char> {
    if text.len() <= 2 {
        Seq::empty()
    } else {
        text.subrange(1, text.len() - 1)
    }
}

/// Takes the first and the last character off a text.
pub fn rem_first_and_last(value: &str) -> (rest: &str)
    ensures
        rest@ == inner(value@),
{
    let total: usize = value.unicode_len();
    if total <= 2 {
        value.substring_char(0, 0)
    } else {
        value.substring_char(1, total - 1)
    }
}

/// Whether the character at `at` is a backslash that stands directly before a slash.
pub open spec fn escapes(text: Seq<char>, at: int) -> bool {
    &&& 0 <= at
    &&& at + 1 < text.len()
    &&& text[at] == '\\'
    &&& text[at + 1] == '/'
}

/// What is left of the first `n` characters of a text once the backslashes that
/// stand directly before a slash are gone.
pub open spec fn unescaped_to(text: Seq<char>, n: nat) -> Seq<char>
    decreases n,
{
    if n == 0 {
        Seq::empty()
    } else if escapes(text, n - 1) {
        unescaped_to(text, (n - 1) as nat)
    } else {
        unescaped_to(text, (n - 1) as nat).push(text[n - 1])
    }
}

/// A text with a slash in place of each backslash and slash.
pub open spec fn unescaped(text: Seq<char>) -> Seq<char> {
    unescaped_to(text, text.len())
}

/// Writes a slash for each backslash and slash in a text.
pub fn unescape_slashes(text: &str) -> (plain: String)
    ensures
        plain@ == unescaped(text@),
{
    let total: usize = text.unicode_len();
    let mut plain = String::new();
    // The characters from `start` to `at` are kept but not yet copied.
    let mut start: usize = 0;
    let mut at: usize = 0;
    let mut after_backslash: bool = false;
    for c in it: text.chars()
        invariant
            it.seq() == text@,
            total == text@.len(),
            at == it.index(),
            start <= at <= total,
            after_backslash == (at > 0 && text@[at - 1] == '\\'),
            after_backslash ==> start < at,
            if after_backslash {
                plain@ + text@.subrange(start as int, at - 1) == unescaped_to(
                    text@,
                    (at - 1) as nat,
                )
            } else {
                plain@ + text@.subrange(start as int, at as int) == unescaped_to(text@, at as nat)
            },
    {
        let ghost kept = plain@;
        let ghost from = start as int;
        if after_backslash && c == '/' {
            plain.append(text.substring_char(start, at - 1));
            start = at;
            assert(escapes(text@, at - 1));
        } else if after_backslash {
            assert(!escapes(text@, at - 1));
            assert(kept + text@.subrange(from, at as int) == (kept + text@.subrange(
                from,
                at - 1,
            )).push(text@[at - 1]));
        }
        assert(plain@ + text@.subrange(start as int, at as int) == unescaped_to(text@, at as nat));
        if c != '\\' {
            assert(plain@ + text@.subrange(start as int, at + 1) == (plain@ + text@.subrange(
                start as int,
                at as int,
            )).push(text@[at as int]));
        }
        after_backslash = c == '\\';
        at = at + 1;
    }
    proof {
        if after_backslash {
            assert(!escapes(text@, total - 1));
            assert(plain@ + text@.subrange(start as int, total as int) == (plain@ + text@.subrange(
                start as int,
                total - 1,
            )).push(text@[total - 1]));
        }
    }
    plain.append(text.substring_char(start, total));
    plain
}

/// Finds the first place of a text in a list.
pub fn find_text(list: &Vec<String>, wanted: &str) -> (place: Option<usize>)
    ensures
        match place {
            Some(i) => texts(list@).index_of_first(wanted@) == Some(i as int),
            None => texts(list@).index_of_first(wanted@) is None,
        },
{
    let sought = wanted.to_owned();
    let mut i: usize = 0;
    proof {
        texts(list@).index_of_first_ensures(wanted@);
    }
    while i < list.len()
        invariant
            i <= list.len(),
            sought@ == wanted@,
            forall|j: int| 0 <= j < i ==> #[trigger] texts(list@)[j] != wanted@,
        decreases list.len() - i,
    {
        if list[i] == sought {
            assert(texts(list@)[i as int] == wanted@);
            proof {
                texts(list@).index_of_first_ensures(wanted@);
            }
            return Some(i);
        }
        i = i + 1;
    }
    None
}

/// Tells whether a list holds a text.
pub fn list_has(list: &Vec<String>, wanted: &str) -> (found: bool)
    ensures
        found == texts(list@).contains(wanted@),
{
    proof {
        texts(list@).index_of_first_ensures(wanted@);
    }
    find_text(list, wanted).is_some()
}

} // verus!
