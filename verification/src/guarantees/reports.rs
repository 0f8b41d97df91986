//! What the reports of the chat's own bot do.

use crate::laws::law_report_is_taken_apart;
use crate::model::{ActionView, InsertionView, MessageView, PhraseKind, StatusView};
use crate::pattern::{
    first_line, heading, report_groups, report_in, ReportView, REPORT_MARK,
};
use crate::report::{
    about_others, adopt_step, clear_step, punished_step, punishment, report_step, reported_row,
};
use crate::text::{lowercase, occurs_at, occurs_in};
use crate::watch::{StepView, WatchView};
use vstd::prelude::*;

verus! {

/// `muted` is a mute, and every other word a ban.
pub proof fn law_punishment(word: Seq<char>)
    ensures
        punishment(word) == PhraseKind::Mute <==> word == "muted"@,
        punishment(word) == PhraseKind::Ban <==> word != "muted"@,
{
}

/// The row that a report adds carries, field for field, the reporter, the phrase and the
/// word for the punishment; its time is zero and its duration empty.
pub proof fn law_reported_row(reporter: Seq<char>, kind: PhraseKind, phrase: Seq<char>)
    ensures
        ({
            let row = reported_row(reporter, kind, phrase);
            &&& row.time_ms == 0
            &&& row.username == reporter
            &&& row.phrase == phrase
            &&& row.duration.len() == 0
            &&& kind == PhraseKind::Ban ==> row.kind == "ban"@
            &&& kind == PhraseKind::Mute ==> row.kind == "mute"@
        }),
{
}

/// A reported phrase that stands anywhere on the list, or anywhere among those to ignore,
/// is not taken over: no action is handed out, and the list stays as it is.
pub proof fn law_known_phrase_is_not_adopted(
    state: WatchView,
    reporter: Seq<char>,
    kind: PhraseKind,
    phrase: Seq<char>,
)
    requires
        (exists|i: int| 0 <= i < state.phrases.len() && #[trigger] state.phrases[i] == phrase) || (
        exists|i: int| 0 <= i < state.ignored.len() && #[trigger] state.ignored[i] == phrase),
    ensures
        adopt_step(state, reporter, kind, phrase) == (StepView {
            state,
            actions: Seq::empty(),
            fault: None,
        }),
{
}

/// A reported phrase that stands nowhere on the list and nowhere among those to ignore is
/// taken over: its row is inserted and it goes to the end of the list.
pub proof fn law_new_phrase_is_adopted(
    state: WatchView,
    reporter: Seq<char>,
    kind: PhraseKind,
    phrase: Seq<char>,
)
    requires
        forall|i: int| 0 <= i < state.phrases.len() ==> #[trigger] state.phrases[i] != phrase,
        forall|i: int| 0 <= i < state.ignored.len() ==> #[trigger] state.ignored[i] != phrase,
    ensures
        adopt_step(state, reporter, kind, phrase) == (StepView {
            state: WatchView {
                phrases: state.phrases + seq![phrase],
                user_checks: state.user_checks,
                ignored: state.ignored,
            },
            actions: seq![
                ActionView::Insert(
                    InsertionView {
                        time_ms: 0,
                        username: reporter,
                        phrase,
                        duration: Seq::empty(),
                        kind: if kind == PhraseKind::Mute {
                            "mute"@
                        } else {
                            "ban"@
                        },
                    },
                ),
            ],
            fault: None,
        }),
{
    assert(state.phrases.push(phrase) == state.phrases + seq![phrase]);
}

/// Clearing somebody keeps exactly the statuses about others, in their order.
pub proof fn law_clearing(state: WatchView, nick: Seq<char>, status: StatusView)
    ensures
        about_others(nick)(status) <==> status.nick != nick,
        clear_step(state, nick) == (StepView {
            state: WatchView {
                phrases: state.phrases,
                user_checks: state.user_checks.filter(|s: StatusView| s.nick != nick),
                ignored: state.ignored,
            },
            actions: Seq::empty(),
            fault: None,
        }),
{
    assert(about_others(nick) =~= (|s: StatusView| s.nick != nick));
}

/// A report that somebody was punished takes its phrase over if that is called for, and
/// either way clears what is remembered of them and of nobody else.
pub proof fn law_punished(
    state: WatchView,
    reporter: Seq<char>,
    nick: Seq<char>,
    kind: PhraseKind,
    phrase: Seq<char>,
)
    ensures
        ({
            let step = punished_step(state, reporter, nick, kind, phrase);
            let known = state.phrases.contains(phrase) || state.ignored.contains(phrase);
            &&& step.fault is None
            &&& step.state.ignored == state.ignored
            &&& step.state.user_checks == state.user_checks.filter(
                |s: StatusView| s.nick != nick,
            )
            &&& known ==> step.actions.len() == 0 && step.state.phrases == state.phrases
            &&& !known ==> step.state.phrases == state.phrases + seq![phrase]
            &&& !known ==> step.actions == seq![
                ActionView::Insert(
                    InsertionView {
                        time_ms: 0,
                        username: reporter,
                        phrase,
                        duration: Seq::empty(),
                        kind: if kind == PhraseKind::Mute {
                            "mute"@
                        } else {
                            "ban"@
                        },
                    },
                ),
            ]
        }),
{
    assert(about_others(nick) =~= (|s: StatusView| s.nick != nick));
    if state.phrases.contains(phrase) || state.ignored.contains(phrase) {
        law_known_phrase_is_not_adopted(state, reporter, kind, phrase);
    } else {
        law_new_phrase_is_adopted(state, reporter, kind, phrase);
    }
}

/// A report in a message by `Bot`: the phrase, in lower case, is taken over unless it
/// stands anywhere on the list or among those to ignore; what is remembered of the punished
/// is cleared, whether or not; and there is never a fault.
pub proof fn law_report_in_a_message(state: WatchView, message: MessageView, report: ReportView)
    requires
        message.nick == "Bot"@,
        report_in(message.data) == Some(report),
    ensures
        ({
            let step = report_step(state, message);
            let phrase = lowercase(report.phrase);
            let known = state.phrases.contains(phrase) || state.ignored.contains(phrase);
            &&& step.fault is None
            &&& step.state.ignored == state.ignored
            &&& step.state.user_checks == state.user_checks.filter(
                |s: StatusView| s.nick != report.nick,
            )
            &&& known ==> step.actions.len() == 0 && step.state.phrases == state.phrases
            &&& !known ==> step.state.phrases == state.phrases + seq![phrase]
            &&& !known ==> step.actions == seq![
                ActionView::Insert(
                    InsertionView {
                        time_ms: 0,
                        username: "Bot"@,
                        phrase,
                        duration: Seq::empty(),
                        kind: if report.verb == "muted"@ {
                            "mute"@
                        } else {
                            "ban"@
                        },
                    },
                ),
            ]
        }),
{
    law_punished(
        state,
        message.nick,
        report.nick,
        punishment(report.verb),
        lowercase(report.phrase),
    );
}

/// A message by anybody else, or without a report, is none and changes nothing.
pub proof fn law_no_report(state: WatchView, message: MessageView)
    requires
        message.nick != "Bot"@ || report_in(message.data) is None,
    ensures
        report_step(state, message) == (StepView {
            state,
            actions: Seq::empty(),
            fault: None,
        }),
{
}

/// What the bot says, word by word: a name, a space, `muted` or `banned`, the words
/// ` for using banned phrase(`, a phrase and a closing bracket are a report on that name
/// with that verb and that phrase, if neither the name nor the phrase has a line feed and
/// the phrase does not hold those words itself.
pub proof fn law_words_of_a_report(
    nick: Seq<char>,
    verb: Seq<char>,
    phrase: Seq<char>,
)
    requires
        verb == "muted"@ || verb == "banned"@,
        !nick.contains('\n'),
        !phrase.contains('\n'),
        forall|before: Seq<char>, after: Seq<char>|
            phrase != #[trigger] (before + " for using banned phrase("@ + after),
    ensures
        ({
            let said = nick + seq![' '] + verb + " for using banned phrase("@ + phrase + seq![')'];
            &&& report_in(said) is Some
            &&& report_in(said)->0.nick == nick
            &&& report_in(said)->0.verb == verb
            &&& report_in(said)->0.phrase == phrase
        }),
{
    reveal_strlit("muted");
    reveal_strlit("banned");
    reveal_strlit(" for using banned phrase(");
    let mark = " for using banned phrase("@;
    assert(REPORT_MARK@ == mark);
    let said = nick + seq![' '] + verb + mark + phrase + seq![')'];
    assert(said == nick + heading(verb) + phrase + seq![')'] + Seq::<char>::empty());
    said.index_of_first_ensures('\n');
    if let Some(i) = said.index_of_first('\n') {
        let head = nick.len() as int;
        let start = head + heading(verb).len();
        if i < head {
            assert(nick[i] == '\n');
        } else if i < start {
            assert(heading(verb)[i - head] == '\n');
        } else if i < start + phrase.len() {
            assert(phrase[i - start] == '\n');
        }
    }
    assert(first_line(said) == said);
    lemma_no_heading(phrase, "muted"@);
    lemma_no_heading(phrase, "banned"@);
    law_report_is_taken_apart(said, nick, verb, phrase, Seq::empty());
}

/// The report in a text of several lines is that of the first line, or else that of the
/// rest.
pub proof fn law_first_line_with_a_report(line: Seq<char>, rest: Seq<char>)
    requires
        !line.contains('\n'),
    ensures
        report_in(line + seq!['\n'] + rest) == if report_in(line) is Some {
            report_in(line)
        } else {
            report_in(rest)
        },
{
    let text = line + seq!['\n'] + rest;
    let at = line.len() as int;
    assert(text[at] == '\n');
    text.index_of_first_ensures('\n');
    line.index_of_first_ensures('\n');
    let found = text.index_of_first('\n')->0;
    if found < at {
        assert(line[found] == '\n');
    }
    assert(text.take(at) == line);
    assert(text.skip(at + 1) == rest);
}

/// What is found in a text with a report: the whole of it, the name, the verb and the
/// phrase; and nothing in a text without one.
pub proof fn law_groups_of_a_report(text: Seq<char>)
    ensures
        report_groups(text) is Some <==> report_in(text) is Some,
        report_in(text) matches Some(report) ==> {
            let groups = report_groups(text)->0;
            &&& groups.len() == 4
            &&& groups[0] == Some(report.whole)
            &&& groups[1] == Some(report.nick)
            &&& groups[2] == Some(report.verb)
            &&& groups[3] == Some(report.phrase)
        },
{
}

proof fn lemma_no_heading(phrase: Seq<char>, verb: Seq<char>)
    requires
        forall|before: Seq<char>, after: Seq<char>|
            phrase != #[trigger] (before + " for using banned phrase("@ + after),
    ensures
        !occurs_in(phrase, heading(verb)),
{
    let mark = " for using banned phrase("@;
    if occurs_in(phrase, heading(verb)) {
        let at = choose|at: int| occurs_at(phrase, heading(verb), at);
        let from = at + 1 + verb.len();
        let piece = phrase.subrange(at, at + heading(verb).len());
        assert(piece == heading(verb));
        assert(heading(verb).skip(1 + verb.len() as int) == mark);
        assert(phrase.subrange(from, from + mark.len()) == piece.skip(1 + verb.len() as int));
        assert(phrase == phrase.take(from) + mark + phrase.skip(from + mark.len()));
    }
}

} // verus!
