//! What the operations on text do.

use crate::text::{
    has_white, inner, is_white, lowercase, occurs_at, occurs_in, parted, unescaped, unescaped_to,
    unicode_lowercase,
};
use vstd::prelude::*;
use vstd::utf8::is_ascii_chars;

verus! {

/// Lowering an ASCII text moves each letter from `A` to `Z` down by thirty-two places and
/// touches nothing else; any other text is lowered as `str::to_lowercase` lowers it.
pub proof fn law_lowering(text: Seq<char>)
    ensures
        is_ascii_chars(text) ==> lowercase(text).len() == text.len(),
        is_ascii_chars(text) ==> forall|i: int|
            0 <= i < text.len() ==> (#[trigger] lowercase(text)[i]) as u32 == if 65 <= text[i] as u32
                <= 90 {
                text[i] as u32 + 32
            } else {
                text[i] as int
            },
        !is_ascii_chars(text) ==> lowercase(text) == unicode_lowercase(text),
{
    if is_ascii_chars(text) {
        assert forall|i: int| 0 <= i < text.len() implies (#[trigger] lowercase(text)[i]) as u32
            == if 65 <= text[i] as u32 <= 90 {
            text[i] as u32 + 32
        } else {
            text[i] as int
        } by {
            assert('\0' <= text[i] <= '\u{7f}');
        }
    }
}

/// The characters that are white space, by their code points.
pub proof fn law_white_space(c: char)
    ensures
        is_white(c) <==> {
            let n = c as u32;
            ||| 0x9 <= n <= 0xd
            ||| n == 0x20
            ||| n == 0x85
            ||| n == 0xa0
            ||| n == 0x1680
            ||| 0x2000 <= n <= 0x200a
            ||| n == 0x2028
            ||| n == 0x2029
            ||| n == 0x202f
            ||| n == 0x205f
            ||| n == 0x3000
        },
{
}

/// A text has white space exactly if it can be cut around a character of white space.
pub proof fn law_text_with_white_space(text: Seq<char>)
    ensures
        has_white(text) <==> exists|before: Seq<char>, c: char, after: Seq<char>|
            is_white(c) && text == #[trigger] (before + seq![c] + after),
{
    if has_white(text) {
        let i = choose|i: int| 0 <= i < text.len() && is_white(#[trigger] text[i]);
        assert(text == text.take(i) + seq![text[i]] + text.skip(i + 1));
    }
    if exists|before: Seq<char>, c: char, after: Seq<char>|
        is_white(c) && text == #[trigger] (before + seq![c] + after) {
        let (before, c, after) = choose|before: Seq<char>, c: char, after: Seq<char>|
            is_white(c) && text == #[trigger] (before + seq![c] + after);
        assert(text[before.len() as int] == c);
    }
}

/// A piece stands in a text exactly if the text is something, the piece, and something.
pub proof fn law_piece_of_text(text: Seq<char>, piece: Seq<char>)
    ensures
        occurs_in(text, piece) <==> exists|before: Seq<char>, after: Seq<char>|
            text == #[trigger] (before + piece + after),
{
    if occurs_in(text, piece) {
        let at = choose|at: int| occurs_at(text, piece, at);
        assert(text == text.take(at) + text.subrange(at, at + piece.len()) + text.skip(
            at + piece.len(),
        ));
    }
    if exists|before: Seq<char>, after: Seq<char>| text == #[trigger] (before + piece + after) {
        let (before, after) = choose|before: Seq<char>, after: Seq<char>|
            text == #[trigger] (before + piece + after);
        let at = before.len() as int;
        assert(text.subrange(at, at + piece.len()) == piece);
        assert(occurs_at(text, piece, at));
    }
}

/// A text is parted exactly if it has a space; the two parts, joined by a space again, are
/// the text, and the first has no space. No other two texts are such parts.
pub proof fn law_parting(text: Seq<char>, first: Seq<char>, second: Seq<char>)
    ensures
        parted(text) is None <==> !text.contains(' '),
        parted(text) == Some((first, second)) <==> text == first + seq![' '] + second
            && !first.contains(' '),
{
    text.index_of_first_ensures(' ');
    if let Some(i) = text.index_of_first(' ') {
        assert(text == text.take(i) + seq![' '] + text.skip(i + 1));
        assert(!text.take(i).contains(' '));
    }
    if text == first + seq![' '] + second && !first.contains(' ') {
        crate::laws::law_joined_texts_part(first, second);
    }
}

/// Taking the ends off a text leaves what is between its first and its last character;
/// nothing is left of a text of one character or none.
pub proof fn law_ends_come_off(first: char, middle: Seq<char>, last: char)
    ensures
        inner(seq![first] + middle + seq![last]) == middle,
        inner(seq![first]) == Seq::<char>::empty(),
        inner(Seq::empty()) == Seq::<char>::empty(),
{
    assert(inner(seq![first] + middle + seq![last]) == middle);
}

/// Unescaping writes a slash for a backslash and a slash wherever the two stand, each part
/// around them for itself.
pub proof fn law_escaped_slash_becomes_slash(before: Seq<char>, after: Seq<char>)
    ensures
        unescaped(before + seq!['\\', '/'] + after) == unescaped(before) + seq!['/'] + unescaped(
            after,
        ),
{
    let text = before + seq!['\\', '/'] + after;
    let n = before.len();
    assert(text.take(n as int) == before);
    assert(text.skip((n + 2) as int) == after);
    lemma_unescape_front(text, before, n);
    assert(text[n as int] == '\\' && text[n as int + 1] == '/');
    assert(unescaped_to(text, n + 1) == unescaped(before));
    assert(unescaped_to(text, n + 2) == unescaped(before).push('/'));
    lemma_unescape_back(text, after, n + 2, after.len());
    assert(unescaped(before).push('/') == unescaped(before) + seq!['/']);
}

/// Unescaping leaves a text alone in which no backslash stands directly before a slash.
pub proof fn law_unescaped_text_stays(text: Seq<char>)
    requires
        forall|i: int, j: int|
            0 <= i && j == i + 1 && j < text.len() ==> !(#[trigger] text[i] == '\\'
                && #[trigger] text[j] == '/'),
    ensures
        unescaped(text) == text,
{
    lemma_nothing_escaped(text, text.len());
    assert(text.take(text.len() as int) == text);
}

proof fn lemma_nothing_escaped(text: Seq<char>, n: nat)
    requires
        n <= text.len(),
        forall|i: int, j: int|
            0 <= i && j == i + 1 && j < text.len() ==> !(#[trigger] text[i] == '\\'
                && #[trigger] text[j] == '/'),
    ensures
        unescaped_to(text, n) == text.take(n as int),
    decreases n,
{
    if n > 0 {
        lemma_nothing_escaped(text, (n - 1) as nat);
        if n < text.len() {
            assert(!(text[n - 1] == '\\' && text[n as int] == '/'));
        }
        assert(text.take(n as int) == text.take(n - 1).push(text[n - 1]));
    }
}

proof fn lemma_unescape_front(text: Seq<char>, before: Seq<char>, n: nat)
    requires
        n <= before.len() < text.len(),
        text.take(before.len() as int) == before,
        text[before.len() as int] == '\\',
    ensures
        unescaped_to(text, n) == unescaped_to(before, n),
    decreases n,
{
    if n > 0 {
        lemma_unescape_front(text, before, (n - 1) as nat);
        assert(text.take(before.len() as int)[n - 1] == text[n - 1]);
        if n < before.len() {
            assert(text.take(before.len() as int)[n as int] == text[n as int]);
        }
    }
}

proof fn lemma_unescape_back(text: Seq<char>, after: Seq<char>, start: nat, k: nat)
    requires
        start + after.len() == text.len(),
        text.skip(start as int) == after,
        k <= after.len(),
    ensures
        unescaped_to(text, start + k) == unescaped_to(text, start) + unescaped_to(after, k),
    decreases k,
{
    if k > 0 {
        lemma_unescape_back(text, after, start, (k - 1) as nat);
        assert(text.skip(start as int)[k - 1] == text[start + k - 1]);
        if k < after.len() {
            assert(text.skip(start as int)[k as int] == text[start as int + k]);
        }
        assert((unescaped_to(text, start) + unescaped_to(after, (k - 1) as nat)).push(after[k - 1])
            == unescaped_to(text, start) + unescaped_to(after, (k - 1) as nat).push(after[k - 1]));
    }
}

} // verus!
