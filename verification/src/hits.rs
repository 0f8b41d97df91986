//! Which banned phrases a message holds.

use crate::model::{Fault, Message, MessageView};
use crate::pattern::{pattern_matches, regex_matches};
use crate::sequence::lemma_filter_step;
use crate::text::{
    contains_piece, inner, list_has, occurs_in, rem_first_and_last, texts, unescape_slashes,
    unescaped,
};
use vstd::prelude::*;
use vstd::string::*;

verus! {

/// What comes of holding a phrase against a message.
#[derive(Debug, Clone, Copy, PartialEq, Eq, Structural)]
pub enum Verdict {
    /// The message holds the phrase.
    Hit,
    /// The message does not hold the phrase.
    Miss,
    /// The phrase is a pattern that does not compile.
    Unreadable,
}

/// Whether a phrase is a pattern: it begins and ends with a slash.
pub open spec fn is_pattern(phrase: Seq<char>) -> bool {
    phrase.len() > 0 && phrase[0] == '/' && phrase.last() == '/'
}

/// The regular expression that a pattern between slashes stands for.
pub open spec fn pattern_body(phrase: Seq<char>) -> Seq<char> {
    inner(unescaped(phrase))
}

/// The verdict that the search for a pattern leads to; `None` is a pattern that
/// does not compile.
pub open spec fn search_verdict(search: Option<bool>) -> Verdict {
    match search {
        Some(true) => Verdict::Hit,
        Some(false) => Verdict::Miss,
        None => Verdict::Unreadable,
    }
}

/// Holds a phrase against what was said. A phrase that stands there as it is
/// written is a hit, the empty phrase always; failing that, a pattern is searched for.
pub open spec fn verdict_of(phrase: Seq<char>, said: Seq<char>) -> Verdict {
    if occurs_in(said, phrase) {
        Verdict::Hit
    } else if is_pattern(phrase) {
        search_verdict(regex_matches(pattern_body(phrase), said))
    } else {
        Verdict::Miss
    }
}

/// Whether the message comes from someone whose commands are obeyed.
pub open spec fn may_command(message: MessageView) -> bool {
    message.features.contains("admin"@) || message.features.contains("moderator"@)
}

/// Whether the message comes from someone whose phrases are not watched.
pub open spec fn is_exempt(message: MessageView) -> bool {
    ||| message.features.contains("admin"@)
    ||| message.features.contains("moderator"@)
    ||| message.features.contains("vip"@)
    ||| message.features.contains("protected"@)
}

/// Whether a phrase is found in what was said.
pub open spec fn hit_by(said: Seq<char>) -> spec_fn(Seq<char>) -> bool {
    |phrase: Seq<char>| verdict_of(phrase, said) == Verdict::Hit
}

/// Whether some phrase of a list cannot be held against what was said.
pub open spec fn some_unreadable(phrases: Seq<Seq<char>>, said: Seq<char>) -> bool {
    exists|i: int|
        0 <= i < phrases.len() && verdict_of(#[trigger] phrases[i], said) == Verdict::Unreadable
}

/// The phrases of a list to watch for after a message: those that it holds, in the
/// order of the list, and none if it comes from someone exempt. A phrase that
/// cannot be read is a fault, whoever sent the message.
pub open spec fn hits(phrases: Seq<Seq<char>>, message: MessageView) -> Result<
    Seq<Seq<char>>,
    Fault,
> {
    if some_unreadable(phrases, message.data) {
        Err(Fault::BadPattern)
    } else if is_exempt(message) {
        Ok(Seq::empty())
    } else {
        Ok(phrases.filter(hit_by(message.data)))
    }
}

/// The first `n` phrases less those without a hit.
pub open spec fn picked(phrases: Seq<Seq<char>>, verdicts: Seq<Verdict>, n: nat) -> Seq<Seq<char>>
    decreases n,
{
    if n == 0 {
        Seq::empty()
    } else if verdicts[n - 1] == Verdict::Hit {
        picked(phrases, verdicts, (n - 1) as nat).push(phrases[n - 1])
    } else {
        picked(phrases, verdicts, (n - 1) as nat)
    }
}

/// The phrases to watch for, given the verdict on each.
pub open spec fn chosen(
    phrases: Seq<Seq<char>>,
    verdicts: Seq<Verdict>,
    exempt: bool,
) -> Result<Seq<Seq<char>>, Fault> {
    if verdicts.contains(Verdict::Unreadable) {
        Err(Fault::BadPattern)
    } else if exempt {
        Ok(Seq::empty())
    } else {
        Ok(picked(phrases, verdicts, phrases.len()))
    }
}

/// The texts of a list that may be missing.
pub open spec fn texts_or_fault(found: Result<Vec<String>, Fault>) -> Result<
    Seq<Seq<char>>,
    Fault,
> {
    match found {
        Ok(list) => Ok(texts(list@)),
        Err(fault) => Err(fault),
    }
}

/// Tells whether a message comes from someone whose commands are obeyed.
pub fn can_command(msg: &Message) -> (yes: bool)
    ensures
        yes == may_command(msg@),
{
    list_has(&msg.features, "admin") || list_has(&msg.features, "moderator")
}

/// Tells whether a message comes from someone whose phrases are not watched.
pub fn exempted(msg: &Message) -> (yes: bool)
    ensures
        yes == is_exempt(msg@),
{
    list_has(&msg.features, "admin") || list_has(&msg.features, "moderator") || list_has(
        &msg.features,
        "vip",
    ) || list_has(&msg.features, "protected")
}

/// Tells whether a phrase is a pattern between slashes.
pub fn slashed(phrase: &str) -> (yes: bool)
    ensures
        yes == is_pattern(phrase@),
{
    let total: usize = phrase.unicode_len();
    total > 0 && phrase.get_char(0) == '/' && phrase.get_char(total - 1) == '/'
}

/// Gives the verdict that the search for a pattern leads to.
pub fn read_search(search: Option<bool>) -> (verdict: Verdict)
    ensures
        verdict == search_verdict(search),
{
    match search {
        Some(found) => if found {
            Verdict::Hit
        } else {
            Verdict::Miss
        },
        None => Verdict::Unreadable,
    }
}

/// Holds a phrase against what was said.
pub fn judge(phrase: &str, said: &str) -> (verdict: Verdict)
    ensures
        verdict == verdict_of(phrase@, said@),
{
    if contains_piece(said, phrase) {
        Verdict::Hit
    } else if slashed(phrase) {
        let plain = unescape_slashes(phrase);
        match pattern_matches(rem_first_and_last(plain.as_str()), said) {
            Ok(found) => read_search(Some(found)),
            Err(_) => read_search(None),
        }
    } else {
        Verdict::Miss
    }
}

/// Chooses the phrases to watch for, given the verdict on each.
pub fn choose_hits(phrases: &Vec<String>, verdicts: &Vec<Verdict>, exempt: bool) -> (found: Result<
    Vec<String>,
    Fault,
>)
    requires
        phrases@.len() == verdicts@.len(),
    ensures
        texts_or_fault(found) == chosen(texts(phrases@), verdicts@, exempt),
{
    let mut list: Vec<String> = Vec::new();
    let mut i: usize = 0;
    assert(texts(list@) == Seq::<Seq<char>>::empty());
    while i < phrases.len()
        invariant
            phrases@.len() == verdicts@.len(),
            i <= phrases.len(),
            forall|j: int| 0 <= j < i ==> #[trigger] verdicts@[j] != Verdict::Unreadable,
            texts(list@) == if exempt {
                Seq::empty()
            } else {
                picked(texts(phrases@), verdicts@, i as nat)
            },
        decreases phrases.len() - i,
    {
        let ghost before = texts(list@);
        match verdicts[i] {
            Verdict::Unreadable => {
                assert(verdicts@[i as int] == Verdict::Unreadable);
                return Err(Fault::BadPattern);
            },
            Verdict::Hit => {
                if !exempt {
                    list.push(phrases[i].clone());
                    assert(texts(list@) == before.push(texts(phrases@)[i as int]));
                }
            },
            Verdict::Miss => {},
        }
        i = i + 1;
    }
    Ok(list)
}

/// Where the verdicts are those on what was said, the chosen phrases are those it holds.
proof fn lemma_picked_are_hits(
    phrases: Seq<Seq<char>>,
    verdicts: Seq<Verdict>,
    said: Seq<char>,
    n: nat,
)
    requires
        n <= phrases.len(),
        phrases.len() == verdicts.len(),
        forall|j: int| 0 <= j < phrases.len() ==> #[trigger] verdicts[j] == verdict_of(phrases[j], said),
    ensures
        picked(phrases, verdicts, n) == phrases.take(n as int).filter(hit_by(said)),
    decreases n,
{
    if n == 0 {
        reveal(Seq::filter);
        assert(phrases.take(0).filter(hit_by(said)) == Seq::<Seq<char>>::empty());
    } else {
        lemma_picked_are_hits(phrases, verdicts, said, (n - 1) as nat);
        lemma_filter_step(phrases, hit_by(said), n - 1);
    }
}

/// Finds the phrases of a list to watch for after a message.
pub fn find_hits(phrases: &Vec<String>, msg: &Message) -> (found: Result<Vec<String>, Fault>)
    ensures
        texts_or_fault(found) == hits(texts(phrases@), msg@),
{
    let mut verdicts: Vec<Verdict> = Vec::new();
    let mut i: usize = 0;
    while i < phrases.len()
        invariant
            i <= phrases.len(),
            verdicts@.len() == i,
            forall|j: int|
                0 <= j < i ==> #[trigger] verdicts@[j] == verdict_of(
                    texts(phrases@)[j],
                    msg.data@,
                ),
        decreases phrases.len() - i,
    {
        verdicts.push(judge(phrases[i].as_str(), msg.data.as_str()));
        i = i + 1;
    }
    proof {
        let list = texts(phrases@);
        lemma_picked_are_hits(list, verdicts@, msg.data@, list.len());
        assert(list.take(list.len() as int) == list);
        if some_unreadable(list, msg.data@) {
            let j = choose|j: int|
                0 <= j < list.len() && verdict_of(#[trigger] list[j], msg.data@)
                    == Verdict::Unreadable;
            assert(verdicts@[j] == Verdict::Unreadable);
        }
        if verdicts@.contains(Verdict::Unreadable) {
            let j = choose|j: int| 0 <= j < verdicts@.len() && verdicts@[j] == Verdict::Unreadable;
            assert(verdict_of(list[j], msg.data@) == Verdict::Unreadable);
        }
    }
    choose_hits(phrases, &verdicts, exempted(msg))
}

} // verus!
