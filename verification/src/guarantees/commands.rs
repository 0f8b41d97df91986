//! What the commands of moderators do.

use crate::command::{
    added_row, command_of, command_step, duration_of, obey_step, retract_step,
    Command,
};
use crate::hits::may_command;
use crate::model::{ActionView, Fault, InsertionView, MessageView, PhraseKind};
use crate::pattern::{
    add_groups, delete_groups, digit, duration_end, first_line, group_or_empty, is_digit,
    phrase_start, time_unit,
};
use crate::sequence::{leading, lemma_leading, lemma_leading_unique};
use crate::text::{has_white, is_white, lowercase};
use crate::watch::{record_step, StepView, WatchView};
use vstd::prelude::*;

use super::words::law_parting;

verus! {

/// The words that are commands, and no others are.
pub proof fn law_command_words(word: Seq<char>)
    ensures
        command_of(word) == Some(Command::Add(PhraseKind::Ban)) <==> word == "!addban"@,
        command_of(word) == Some(Command::Add(PhraseKind::Mute)) <==> word == "!addmute"@,
        command_of(word) == Some(Command::Delete) <==> {
            ||| word == "!deleteban"@
            ||| word == "!dban"@
            ||| word == "!deletemute"@
            ||| word == "!dmute"@
        },
        command_of(word) is None <==> {
            &&& word != "!addban"@
            &&& word != "!addmute"@
            &&& word != "!deleteban"@
            &&& word != "!dban"@
            &&& word != "!deletemute"@
            &&& word != "!dmute"@
        },
{
    lemma_words_differ();
}

/// The two words for punishments in the phrase table.
pub proof fn law_kind_words(kind: PhraseKind)
    ensures
        kind.word() == "ban"@ <==> kind == PhraseKind::Ban,
        kind.word() == "mute"@ <==> kind == PhraseKind::Mute,
{
    reveal_strlit("ban");
    reveal_strlit("mute");
    assert("ban"@.len() == 3 && "mute"@.len() == 4);
}

/// The digits among the ASCII characters.
pub proof fn law_ascii_digits(c: char)
    requires
        c as u32 <= 0x7f,
    ensures
        is_digit(c) <==> 0x30 <= c as u32 <= 0x39,
{
}

/// The row that is added at somebody's wish carries, field for field, when and by whom it
/// was wished, and the duration, the phrase and the word for the punishment as they are
/// given.
pub proof fn law_added_row(
    message: MessageView,
    kind: PhraseKind,
    duration: Seq<char>,
    phrase: Seq<char>,
)
    ensures
        ({
            let row = added_row(message, kind, duration, phrase);
            &&& row.time_ms == message.timestamp
            &&& row.username == message.nick
            &&& row.duration == duration
            &&& row.phrase == phrase
            &&& kind == PhraseKind::Ban ==> row.kind == "ban"@
            &&& kind == PhraseKind::Mute ==> row.kind == "mute"@
        }),
{
}

/// Recording a row hands out its insertion and nothing else, puts its phrase at the end of
/// the list, and keeps all else.
pub proof fn law_recording(state: WatchView, row: InsertionView)
    ensures
        record_step(state, row) == (StepView {
            state: WatchView {
                phrases: state.phrases + seq![row.phrase],
                user_checks: state.user_checks,
                ignored: state.ignored,
            },
            actions: seq![ActionView::Insert(row)],
            fault: None,
        }),
{
    assert(state.phrases.push(row.phrase) == state.phrases + seq![row.phrase]);
}

/// Retracting a phrase that is on the list hands out its deletion and nothing else, and
/// takes the first occurrence off the list; `before` and `after` are what stands around it.
pub proof fn law_retracting(
    state: WatchView,
    phrase: Seq<char>,
    before: Seq<Seq<char>>,
    after: Seq<Seq<char>>,
)
    requires
        state.phrases == before + seq![phrase] + after,
        !before.contains(phrase),
    ensures
        retract_step(state, phrase) == (StepView {
            state: WatchView {
                phrases: before + after,
                user_checks: state.user_checks,
                ignored: state.ignored,
            },
            actions: seq![ActionView::Delete(phrase)],
            fault: None,
        }),
{
    let list = state.phrases;
    let at = before.len() as int;
    assert(list[at] == phrase);
    list.index_of_first_ensures(phrase);
    let found = list.index_of_first(phrase)->0;
    if found < at {
        assert(before[found] == phrase);
    }
    assert(list.remove(at) == before + after);
}

/// Retracting a phrase that is not on the list changes nothing.
pub proof fn law_retracting_unlisted(state: WatchView, phrase: Seq<char>)
    requires
        !state.phrases.contains(phrase),
    ensures
        retract_step(state, phrase) == (StepView {
            state,
            actions: Seq::empty(),
            fault: None,
        }),
{
}

/// An addition, for a ban and a mute alike. Its arguments are a duration, if they begin
/// with digits and a unit of time; then at most one character of white space; then the
/// phrase, up to the end of the line. The row has that duration, or ten minutes, and the
/// phrase in lower case, which also goes to the end of the list.
pub proof fn law_addition(
    state: WatchView,
    message: MessageView,
    word: Seq<char>,
    duration: Seq<char>,
    gap: Seq<char>,
    phrase: Seq<char>,
    rest: Seq<char>,
)
    requires
        word == "!addban"@ || word == "!addmute"@,
        // The duration is digits and a unit of time, or there is none to be had.
        duration.len() > 0 ==> {
            &&& duration.len() > 1
            &&& forall|i: int| 0 <= i < duration.len() - 1 ==> is_digit(#[trigger] duration[i])
            &&& "HMDSWhmdsw"@.contains(duration[duration.len() - 1])
        },
        duration.len() == 0 ==> forall|n: int|
            #![trigger (gap + phrase + rest)[n]]
            0 < n < (gap + phrase + rest).len() && "HMDSWhmdsw"@.contains(
                (gap + phrase + rest)[n],
            ) ==> exists|i: int| 0 <= i < n && !is_digit(#[trigger] (gap + phrase + rest)[i]),
        // The gap is one character of white space, or there is none to be had.
        gap.len() <= 1,
        gap.len() == 1 ==> is_white(gap[0]),
        gap.len() == 0 && (phrase + rest).len() > 0 ==> !is_white((phrase + rest)[0]),
        // The phrase is the rest of the line.
        !phrase.contains('\n'),
        rest.len() > 0 ==> rest[0] == '\n',
    ensures
        obey_step(state, message, word, duration + gap + phrase + rest) == (StepView {
            state: WatchView {
                phrases: state.phrases + seq![lowercase(phrase)],
                user_checks: state.user_checks,
                ignored: state.ignored,
            },
            actions: seq![
                ActionView::Insert(
                    InsertionView {
                        time_ms: message.timestamp,
                        username: message.nick,
                        phrase: lowercase(phrase),
                        duration: if duration.len() > 0 {
                            duration
                        } else {
                            "10m"@
                        },
                        kind: if word == "!addban"@ {
                            "ban"@
                        } else {
                            "mute"@
                        },
                    },
                ),
            ],
            fault: None,
        }),
{
    lemma_words_differ();
    lemma_arguments(duration, gap, phrase, rest);
    law_recording(
        state,
        added_row(
            message,
            if word == "!addban"@ {
                PhraseKind::Ban
            } else {
                PhraseKind::Mute
            },
            if duration.len() > 0 {
                duration
            } else {
                "10m"@
            },
            lowercase(phrase),
        ),
    );
}

/// What is found in the argument of a deletion: its first line, as the whole and as the
/// phrase.
pub proof fn law_argument_of_a_deletion(line: Seq<char>, rest: Seq<char>)
    requires
        !line.contains('\n'),
        rest.len() > 0 ==> rest[0] == '\n',
    ensures
        delete_groups(line + rest).len() == 2,
        delete_groups(line + rest)[0] == Some(line),
        delete_groups(line + rest)[1] == Some(line),
{
    lemma_first_line(line, rest);
}

/// What is found in the arguments of an addition is what [`law_addition`] reads from them:
/// all but what follows the line, the duration if there is one, and the phrase.
pub proof fn law_arguments_of_an_addition(
    duration: Seq<char>,
    gap: Seq<char>,
    phrase: Seq<char>,
    rest: Seq<char>,
)
    requires
        duration.len() > 0 ==> {
            &&& duration.len() > 1
            &&& forall|i: int| 0 <= i < duration.len() - 1 ==> is_digit(#[trigger] duration[i])
            &&& "HMDSWhmdsw"@.contains(duration[duration.len() - 1])
        },
        duration.len() == 0 ==> forall|n: int|
            #![trigger (gap + phrase + rest)[n]]
            0 < n < (gap + phrase + rest).len() && "HMDSWhmdsw"@.contains(
                (gap + phrase + rest)[n],
            ) ==> exists|i: int| 0 <= i < n && !is_digit(#[trigger] (gap + phrase + rest)[i]),
        gap.len() <= 1,
        gap.len() == 1 ==> is_white(gap[0]),
        gap.len() == 0 && (phrase + rest).len() > 0 ==> !is_white((phrase + rest)[0]),
        !phrase.contains('\n'),
        rest.len() > 0 ==> rest[0] == '\n',
    ensures
        ({
            let groups = add_groups(duration + gap + phrase + rest);
            &&& groups.len() == 3
            &&& groups[0] == Some(duration + gap + phrase)
            &&& duration.len() > 0 ==> groups[1] == Some(duration)
            &&& duration.len() == 0 ==> groups[1] is None
            &&& groups[2] == Some(phrase)
        }),
{
    let arguments = duration + gap + phrase + rest;
    lemma_arguments(duration, gap, phrase, rest);
    assert(arguments.take((duration + gap + phrase).len() as int) == duration + gap + phrase);
}

/// Where the duration ends and the phrase begins in the arguments of an addition, and what
/// the two are.
proof fn lemma_arguments(
    duration: Seq<char>,
    gap: Seq<char>,
    phrase: Seq<char>,
    rest: Seq<char>,
)
    requires
        duration.len() > 0 ==> {
            &&& duration.len() > 1
            &&& forall|i: int| 0 <= i < duration.len() - 1 ==> is_digit(#[trigger] duration[i])
            &&& "HMDSWhmdsw"@.contains(duration[duration.len() - 1])
        },
        duration.len() == 0 ==> forall|n: int|
            #![trigger (gap + phrase + rest)[n]]
            0 < n < (gap + phrase + rest).len() && "HMDSWhmdsw"@.contains(
                (gap + phrase + rest)[n],
            ) ==> exists|i: int| 0 <= i < n && !is_digit(#[trigger] (gap + phrase + rest)[i]),
        gap.len() <= 1,
        gap.len() == 1 ==> is_white(gap[0]),
        gap.len() == 0 && (phrase + rest).len() > 0 ==> !is_white((phrase + rest)[0]),
        !phrase.contains('\n'),
        rest.len() > 0 ==> rest[0] == '\n',
    ensures
        ({
            let arguments = duration + gap + phrase + rest;
            &&& duration_end(arguments) == duration.len()
            &&& arguments.take(duration.len() as int) == duration
            &&& phrase_start(arguments) == duration.len() + gap.len()
            &&& first_line(arguments.skip(phrase_start(arguments))) == phrase
        }),
{
    let arguments = duration + gap + phrase + rest;
    lemma_units();
    lemma_leading(arguments, digit());
    if duration.len() > 0 {
        let k = (duration.len() - 1) as nat;
        assert forall|j: int| 0 <= j < k implies digit()(#[trigger] arguments[j]) by {
            assert(is_digit(duration[j]));
        }
        assert(arguments[k as int] == duration[k as int]);
        assert(time_unit(duration[k as int]));
        lemma_leading_unique(arguments, digit(), k);
        assert(duration_end(arguments) == duration.len());
        assert(arguments.take(duration.len() as int) == duration);
    } else {
        assert(arguments == gap + phrase + rest);
        let n = leading(arguments, digit()) as int;
        if 0 < n < arguments.len() && time_unit(arguments[n]) {
            assert("HMDSWhmdsw"@.contains((gap + phrase + rest)[n]));
            let i = choose|i: int| 0 <= i < n && !is_digit(#[trigger] (gap + phrase + rest)[i]);
            assert(digit()(arguments[i]));
        }
        assert(duration_end(arguments) == 0);
    }
    let end = duration.len() as int;
    let start = end + gap.len();
    if gap.len() == 1 {
        assert(arguments[end] == gap[0]);
    } else if end < arguments.len() {
        assert(arguments[end] == (phrase + rest)[0]);
    }
    assert(phrase_start(arguments) == start);
    assert(arguments.skip(start) == phrase + rest);
    lemma_first_line(phrase, rest);
}

/// Whatever the arguments of an addition are, they can be read in the way of
/// [`law_addition`].
pub proof fn law_arguments_of_an_addition_part(arguments: Seq<char>) -> (parts: (
    Seq<char>,
    Seq<char>,
    Seq<char>,
    Seq<char>,
))
    ensures
        ({
            let (duration, gap, phrase, rest) = parts;
            &&& arguments == duration + gap + phrase + rest
            &&& duration.len() > 0 ==> {
                &&& duration.len() > 1
                &&& forall|i: int| 0 <= i < duration.len() - 1 ==> is_digit(#[trigger] duration[i])
                &&& "HMDSWhmdsw"@.contains(duration[duration.len() - 1])
            }
            &&& duration.len() == 0 ==> forall|n: int|
                #![trigger (gap + phrase + rest)[n]]
                0 < n < (gap + phrase + rest).len() && "HMDSWhmdsw"@.contains(
                    (gap + phrase + rest)[n],
                ) ==> exists|i: int| 0 <= i < n && !is_digit(#[trigger] (gap + phrase + rest)[i])
            &&& gap.len() <= 1
            &&& gap.len() == 1 ==> is_white(gap[0])
            &&& gap.len() == 0 && (phrase + rest).len() > 0 ==> !is_white((phrase + rest)[0])
            &&& !phrase.contains('\n')
            &&& rest.len() > 0 ==> rest[0] == '\n'
        }),
{
    lemma_units();
    lemma_leading(arguments, digit());
    let end = duration_end(arguments);
    let start = phrase_start(arguments);
    let tail = arguments.skip(start);
    tail.index_of_first_ensures('\n');
    let phrase = first_line(tail);
    let rest = tail.skip(phrase.len() as int);
    let duration = arguments.take(end);
    let gap = arguments.subrange(end, start);
    assert(phrase + rest == tail);
    assert(arguments == duration + gap + phrase + rest);
    if end > 0 {
        assert(arguments[end - 1] == duration[end - 1]);
        assert forall|i: int| 0 <= i < duration.len() - 1 implies is_digit(
            #[trigger] duration[i],
        ) by {
            assert(digit()(arguments[i]));
        }
    } else {
        let all = gap + phrase + rest;
        assert(all == arguments);
        let k = leading(arguments, digit()) as int;
        assert forall|n: int|
            0 < n < all.len() && "HMDSWhmdsw"@.contains(#[trigger] all[n]) implies exists|i: int|
            0 <= i < n && !is_digit(#[trigger] all[i]) by {
            assert(time_unit(all[n]));
            assert(all[n] == arguments[n]);
            if n < k {
                assert(digit()(arguments[n]));
            } else if n > k {
                assert(!digit()(arguments[k]));
                assert(!is_digit(all[k]));
            }
        }
    }
    (duration, gap, phrase, rest)
}

/// A deletion, by any of its words, reads the first line of its argument as the phrase.
/// If the list holds that phrase in lower case, its deletion is handed out and its first
/// occurrence leaves the list; `before` and `after` are what stands around it.
pub proof fn law_deletion(
    state: WatchView,
    message: MessageView,
    word: Seq<char>,
    phrase: Seq<char>,
    rest: Seq<char>,
    before: Seq<Seq<char>>,
    after: Seq<Seq<char>>,
)
    requires
        word == "!deleteban"@ || word == "!dban"@ || word == "!deletemute"@ || word == "!dmute"@,
        !phrase.contains('\n'),
        rest.len() > 0 ==> rest[0] == '\n',
        state.phrases == before + seq![lowercase(phrase)] + after,
        !before.contains(lowercase(phrase)),
    ensures
        obey_step(state, message, word, phrase + rest) == (StepView {
            state: WatchView {
                phrases: before + after,
                user_checks: state.user_checks,
                ignored: state.ignored,
            },
            actions: seq![ActionView::Delete(lowercase(phrase))],
            fault: None,
        }),
{
    lemma_words_differ();
    lemma_first_line(phrase, rest);
    law_retracting(state, lowercase(phrase), before, after);
}

/// A deletion of a phrase that the list does not hold in lower case changes nothing.
pub proof fn law_deletion_of_unlisted_phrase(
    state: WatchView,
    message: MessageView,
    word: Seq<char>,
    phrase: Seq<char>,
    rest: Seq<char>,
)
    requires
        word == "!deleteban"@ || word == "!dban"@ || word == "!deletemute"@ || word == "!dmute"@,
        !phrase.contains('\n'),
        rest.len() > 0 ==> rest[0] == '\n',
        !state.phrases.contains(lowercase(phrase)),
    ensures
        obey_step(state, message, word, phrase + rest) == (StepView {
            state,
            actions: Seq::empty(),
            fault: None,
        }),
{
    lemma_words_differ();
    lemma_first_line(phrase, rest);
}

/// A word that is no command changes nothing.
pub proof fn law_other_words_do_nothing(
    state: WatchView,
    message: MessageView,
    word: Seq<char>,
    arguments: Seq<char>,
)
    requires
        word != "!addban"@,
        word != "!addmute"@,
        word != "!deleteban"@,
        word != "!dban"@,
        word != "!deletemute"@,
        word != "!dmute"@,
    ensures
        obey_step(state, message, word, arguments) == (StepView {
            state,
            actions: Seq::empty(),
            fault: None,
        }),
{
}

/// A message by an admin or a moderator is a command as far as its first space, and what
/// stands behind that space are the arguments.
pub proof fn law_command_in_a_message(
    state: WatchView,
    message: MessageView,
    word: Seq<char>,
    arguments: Seq<char>,
)
    requires
        may_command(message),
        message.data == word + seq![' '] + arguments,
        !word.contains(' '),
    ensures
        command_step(state, message) == obey_step(state, message, word, arguments),
{
    law_parting(message.data, word, arguments);
    assert(is_white(message.data[word.len() as int]));
}

/// A message by an admin or a moderator with white space in it but no space is a fault, and
/// changes nothing.
pub proof fn law_command_without_a_space(state: WatchView, message: MessageView)
    requires
        may_command(message),
        has_white(message.data),
        !message.data.contains(' '),
    ensures
        command_step(state, message) == (StepView {
            state,
            actions: Seq::empty(),
            fault: Some(Fault::NoSpace),
        }),
{
    law_parting(message.data, Seq::empty(), Seq::empty());
}

/// A message by anybody else, or without white space, is no command and changes nothing.
pub proof fn law_no_command(state: WatchView, message: MessageView)
    requires
        !may_command(message) || !has_white(message.data),
    ensures
        command_step(state, message) == (StepView {
            state,
            actions: Seq::empty(),
            fault: None,
        }),
{
}

/// The text of a group is what the group took, and empty for one that took no part or is
/// not there; the duration of a match is its first group, and ten minutes if that is empty.
pub proof fn law_groups(groups: Seq<Option<Seq<char>>>, i: int)
    ensures
        0 <= i < groups.len() && groups[i] is Some ==> group_or_empty(groups, i) == groups[i]->0,
        !(0 <= i < groups.len() && groups[i] is Some) ==> group_or_empty(groups, i) == Seq::<
            char,
        >::empty(),
        groups.len() > 1 && groups[1] is Some && groups[1]->0.len() > 0 ==> duration_of(groups)
            == groups[1]->0,
        groups.len() <= 1 || groups[1] is None || groups[1]->0.len() == 0 ==> duration_of(groups)
            == "10m"@,
{
}

proof fn lemma_first_line(line: Seq<char>, rest: Seq<char>)
    requires
        !line.contains('\n'),
        rest.len() > 0 ==> rest[0] == '\n',
    ensures
        first_line(line + rest) == line,
{
    let text = line + rest;
    text.index_of_first_ensures('\n');
    match text.index_of_first('\n') {
        Some(i) => {
            if i < line.len() {
                assert(line[i] == '\n');
            }
            if i > line.len() {
                assert(text[line.len() as int] == '\n');
            }
            assert(text.take(i) == line);
        },
        None => {
            if rest.len() > 0 {
                assert(text[line.len() as int] == '\n');
            }
            assert(text == line);
        },
    }
}

proof fn lemma_units()
    ensures
        forall|c: char| #[trigger] time_unit(c) <==> "HMDSWhmdsw"@.contains(c),
        forall|c: char| #[trigger] time_unit(c) ==> !is_digit(c),
{
    reveal_strlit("HMDSWhmdsw");
    let units = "HMDSWhmdsw"@;
    assert(units[0] == 'H' && units[1] == 'M' && units[2] == 'D' && units[3] == 'S' && units[4]
        == 'W' && units[5] == 'h' && units[6] == 'm' && units[7] == 'd' && units[8] == 's'
        && units[9] == 'w');
}

proof fn lemma_words_differ()
    ensures
        "!addban"@ != "!addmute"@,
        "!addban"@ != "!deleteban"@,
        "!addban"@ != "!dban"@,
        "!addban"@ != "!deletemute"@,
        "!addban"@ != "!dmute"@,
        "!addmute"@ != "!deleteban"@,
        "!addmute"@ != "!dban"@,
        "!addmute"@ != "!deletemute"@,
        "!addmute"@ != "!dmute"@,
{
    reveal_strlit("!addban");
    reveal_strlit("!addmute");
    reveal_strlit("!deleteban");
    reveal_strlit("!dban");
    reveal_strlit("!deletemute");
    reveal_strlit("!dmute");
    assert("!addban"@[1] == 'a' && "!addmute"@[1] == 'a' && "!deleteban"@[1] == 'd' && "!dban"@[1]
        == 'd' && "!deletemute"@[1] == 'd' && "!dmute"@[1] == 'd');
    assert("!addban"@.len() == 7 && "!addmute"@.len() == 8);
}

} // verus!
