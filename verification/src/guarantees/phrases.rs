//! What looking for phrases in a message does.

use crate::hits::{
    chosen, hit_by, hits, is_exempt, is_pattern, may_command, picked, search_verdict,
    some_unreadable, verdict_of, Verdict,
};
use crate::model::{Fault, MessageView};
use crate::pattern::regex_matches;
use crate::text::{inner, unescaped};
use vstd::prelude::*;

use super::words::{law_ends_come_off, law_piece_of_text, law_unescaped_text_stays};

verus! {

/// The verdict on a phrase. It is a hit wherever the phrase stands in what was said as it
/// is written. Failing that, a phrase that begins and ends with a slash is a regular
/// expression, with a slash for each backslash and slash and without its two ends, and it
/// is searched for in all that was said: the verdict is a hit exactly if it matches, a
/// miss exactly if it does not, and unreadable exactly if it does not compile. Any other
/// phrase is a miss.
pub proof fn law_verdict(phrase: Seq<char>, said: Seq<char>)
    ensures
        ({
            let stands = exists|before: Seq<char>, after: Seq<char>|
                said == #[trigger] (before + phrase + after);
            let slashed = phrase.len() > 0 && phrase[0] == '/' && phrase[phrase.len() - 1] == '/';
            let search = regex_matches(inner(unescaped(phrase)), said);
            &&& verdict_of(phrase, said) == Verdict::Hit <==> stands || (slashed && search == Some(
                true,
            ))
            &&& verdict_of(phrase, said) == Verdict::Miss <==> !stands && (slashed ==> search
                == Some(false))
            &&& verdict_of(phrase, said) == Verdict::Unreadable <==> !stands && slashed
                && search is None
        }),
{
    law_piece_of_text(said, phrase);
}

/// The verdict on a regular expression between slashes, with no slash in it escaped, that
/// does not stand in what was said itself: it is searched for, as it stands between the
/// slashes, in all that was said.
pub proof fn law_verdict_on_pattern(body: Seq<char>, said: Seq<char>)
    requires
        ({
            let phrase = seq!['/'] + body + seq!['/'];
            &&& forall|i: int, j: int|
                0 <= i && j == i + 1 && j < phrase.len() ==> !(#[trigger] phrase[i] == '\\'
                    && #[trigger] phrase[j] == '/')
            &&& forall|before: Seq<char>, after: Seq<char>|
                said != #[trigger] (before + phrase + after)
        }),
    ensures
        verdict_of(seq!['/'] + body + seq!['/'], said) == match regex_matches(body, said) {
            Some(true) => Verdict::Hit,
            Some(false) => Verdict::Miss,
            None => Verdict::Unreadable,
        },
{
    let phrase = seq!['/'] + body + seq!['/'];
    law_verdict(phrase, said);
    law_unescaped_text_stays(phrase);
    law_ends_come_off('/', body, '/');
    assert(phrase[phrase.len() - 1] == '/');
}

/// What a search says: a match is a hit, no match a miss, and no compiling unreadable.
pub proof fn law_search(search: Option<bool>)
    ensures
        search_verdict(search) == Verdict::Hit <==> search == Some(true),
        search_verdict(search) == Verdict::Miss <==> search == Some(false),
        search_verdict(search) == Verdict::Unreadable <==> search is None,
{
}

/// Which phrases are patterns.
pub proof fn law_patterns_have_slashes_at_both_ends(phrase: Seq<char>)
    ensures
        is_pattern(phrase) <==> phrase == seq!['/'] || exists|body: Seq<char>|
            phrase == #[trigger] (seq!['/'] + body + seq!['/']),
{
    if is_pattern(phrase) {
        if phrase.len() == 1 {
            assert(phrase == seq!['/']);
        } else {
            assert(phrase == seq!['/'] + phrase.subrange(1, phrase.len() - 1) + seq!['/']);
        }
    }
}

/// Commands are obeyed exactly of those who have `admin` or `moderator` among their
/// features.
pub proof fn law_who_may_command(message: MessageView)
    ensures
        may_command(message) <==> exists|i: int|
            0 <= i < message.features.len() && ((#[trigger] message.features[i]) == "admin"@
                || message.features[i] == "moderator"@),
{
}

/// Exempt are exactly those who have `admin`, `moderator`, `vip` or `protected` among
/// their features.
pub proof fn law_who_is_exempt(message: MessageView)
    ensures
        is_exempt(message) <==> exists|i: int|
            0 <= i < message.features.len() && {
                ||| (#[trigger] message.features[i]) == "admin"@
                ||| message.features[i] == "moderator"@
                ||| message.features[i] == "vip"@
                ||| message.features[i] == "protected"@
            },
{
}

/// No phrases, no hits; and of one phrase the hits are what its verdict says: itself, or
/// nothing if it is not found or the sender is exempt, and a fault if it is unreadable,
/// exempt or not.
pub proof fn law_hits_of_one_phrase(phrase: Seq<char>, message: MessageView)
    ensures
        hits(Seq::empty(), message) == Ok::<Seq<Seq<char>>, Fault>(Seq::empty()),
        hits(seq![phrase], message) == match verdict_of(phrase, message.data) {
            Verdict::Unreadable => Err::<Seq<Seq<char>>, Fault>(Fault::BadPattern),
            Verdict::Hit => Ok(
                if is_exempt(message) {
                    Seq::empty()
                } else {
                    seq![phrase]
                },
            ),
            Verdict::Miss => Ok(Seq::empty()),
        },
{
    reveal_with_fuel(Seq::filter, 2);
    let one = seq![phrase];
    assert(one.drop_last() == Seq::<Seq<char>>::empty());
    assert(one.last() == phrase);
    assert(one[0] == phrase);
    assert(Seq::<Seq<char>>::empty().push(phrase) == one);
    let found = one.filter(hit_by(message.data));
    if verdict_of(phrase, message.data) == Verdict::Hit {
        assert(found == one);
    } else {
        assert(found == Seq::<Seq<char>>::empty());
    }
}

/// The hits of a list are those of its front and those of its back, in this order; an
/// unreadable phrase in either is the fault of the whole.
pub proof fn law_hits_of_joined_lists(
    front: Seq<Seq<char>>,
    back: Seq<Seq<char>>,
    message: MessageView,
)
    ensures
        hits(front + back, message) == match (hits(front, message), hits(back, message)) {
            (Ok(first), Ok(second)) => Ok::<Seq<Seq<char>>, Fault>(first + second),
            _ => Err(Fault::BadPattern),
        },
{
    let said = message.data;
    let all = front + back;
    Seq::filter_distributes_over_add(front, back, hit_by(said));
    if some_unreadable(front, said) {
        let i = choose|i: int|
            0 <= i < front.len() && verdict_of(#[trigger] front[i], said) == Verdict::Unreadable;
        assert(all[i] == front[i]);
    }
    if some_unreadable(back, said) {
        let i = choose|i: int|
            0 <= i < back.len() && verdict_of(#[trigger] back[i], said) == Verdict::Unreadable;
        assert(all[front.len() + i] == back[i]);
    }
    if some_unreadable(all, said) {
        let i = choose|i: int|
            0 <= i < all.len() && verdict_of(#[trigger] all[i], said) == Verdict::Unreadable;
        if i < front.len() {
            assert(front[i] == all[i]);
        } else {
            assert(back[i - front.len()] == all[i]);
        }
    }
}

/// Choosing phrases by their verdicts: nothing comes of nothing, and one phrase more adds
/// itself if it is a hit and the sender is not exempt, adds nothing if it is a miss, and
/// is a fault if it is unreadable.
pub proof fn law_choosing(
    phrases: Seq<Seq<char>>,
    verdicts: Seq<Verdict>,
    exempt: bool,
    phrase: Seq<char>,
    verdict: Verdict,
)
    requires
        phrases.len() == verdicts.len(),
    ensures
        chosen(Seq::empty(), Seq::empty(), exempt) == Ok::<Seq<Seq<char>>, Fault>(Seq::empty()),
        chosen(phrases.push(phrase), verdicts.push(verdict), exempt) == match (
            chosen(phrases, verdicts, exempt),
            verdict,
        ) {
            (Err(_), _) => Err::<Seq<Seq<char>>, Fault>(Fault::BadPattern),
            (_, Verdict::Unreadable) => Err(Fault::BadPattern),
            (Ok(list), Verdict::Miss) => Ok(list),
            (Ok(list), Verdict::Hit) => Ok(
                if exempt {
                    Seq::empty()
                } else {
                    list.push(phrase)
                },
            ),
        },
{
    let more = verdicts.push(verdict);
    assert(more[verdicts.len() as int] == verdict);
    if verdicts.contains(Verdict::Unreadable) {
        let i = choose|i: int| 0 <= i < verdicts.len() && verdicts[i] == Verdict::Unreadable;
        assert(more[i] == Verdict::Unreadable);
    }
    if more.contains(Verdict::Unreadable) && verdict != Verdict::Unreadable {
        let i = choose|i: int| 0 <= i < more.len() && more[i] == Verdict::Unreadable;
        assert(verdicts[i] == Verdict::Unreadable);
    }
    lemma_picked_front(phrases, verdicts, phrase, verdict, phrases.len());
}

proof fn lemma_picked_front(
    phrases: Seq<Seq<char>>,
    verdicts: Seq<Verdict>,
    phrase: Seq<char>,
    verdict: Verdict,
    n: nat,
)
    requires
        n <= phrases.len(),
        phrases.len() == verdicts.len(),
    ensures
        picked(phrases.push(phrase), verdicts.push(verdict), n) == picked(phrases, verdicts, n),
    decreases n,
{
    if n > 0 {
        lemma_picked_front(phrases, verdicts, phrase, verdict, (n - 1) as nat);
        assert(phrases.push(phrase)[n - 1] == phrases[n - 1]);
        assert(verdicts.push(verdict)[n - 1] == verdicts[n - 1]);
    }
}

} // verus!
