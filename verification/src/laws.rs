//! What holds of the companion as a whole.

use crate::command::{
    added_row, command_of, command_step, duration_in, obey_step, phrase_in, retract_step, Command,
};
use crate::hits::{
    hit_by, hits, is_exempt, is_pattern, may_command, pattern_body, verdict_of, Verdict,
};
use crate::intake::{reaction_to, receipt_for, FrameView, ReactionView};
use crate::model::{ActionView, Fault, InsertionView, MessageView, PhraseKind, StatusView};
use crate::moderate::{message_step, remember_step, statuses_of, watch_step};
use crate::pattern::{
    duration_end, first_line, heading, heading_at, last_heading, report_in, report_in_line,
    ReportView, REPORT_MARK,
};
use crate::report::{about_others, punished_step, punishment, report_step, reported_row};
use crate::sequence::{leading, lemma_leading, without_each};
use crate::supervisor::{longer_delay, LONGEST_DELAY_SECS};
use crate::text::{
    ascii_lower, escapes, has_white, inner, is_white, lowercase, occurs_at, occurs_in, parted,
    unescaped_to,
};
use crate::watch::{
    and_next, datable, deletions, expire_step, idle, overdue, overdue_phrases, pending, record_step,
    status_of, StepView, WatchView, PATIENCE_MS,
};
use vstd::arithmetic::power2::{lemma2_to64, lemma_pow2_unfold, pow2};
use vstd::prelude::*;
use vstd::utf8::is_ascii_chars;

verus! {

/// A list of phrases after changes that are handed out: an insertion puts its phrase at
/// the end, a deletion takes the first occurrence away.
pub open spec fn replay(phrases: Seq<Seq<char>>, actions: Seq<ActionView>) -> Seq<Seq<char>>
    decreases actions.len(),
{
    if actions.len() == 0 {
        phrases
    } else {
        let before = replay(phrases, actions.drop_last());
        match actions.last() {
            ActionView::Insert(row) => before.push(row.phrase),
            ActionView::Delete(phrase) => before.remove_value(phrase),
        }
    }
}

proof fn lemma_replay_join(phrases: Seq<Seq<char>>, first: Seq<ActionView>, second: Seq<ActionView>)
    ensures
        replay(phrases, first + second) == replay(replay(phrases, first), second),
    decreases second.len(),
{
    if second.len() == 0 {
        assert(first + second == first);
    } else {
        lemma_replay_join(phrases, first, second.drop_last());
        assert((first + second).drop_last() == first + second.drop_last());
    }
}

proof fn lemma_replay_one(phrases: Seq<Seq<char>>, action: ActionView)
    ensures
        replay(phrases, seq![action]) == match action {
            ActionView::Insert(row) => phrases.push(row.phrase),
            ActionView::Delete(phrase) => phrases.remove_value(phrase),
        },
{
    assert(seq![action].drop_last() == Seq::<ActionView>::empty());
    assert(replay(phrases, Seq::<ActionView>::empty()) == phrases);
    reveal_with_fuel(replay, 2);
}

proof fn lemma_replay_deletions(phrases: Seq<Seq<char>>, gone: Seq<Seq<char>>)
    ensures
        replay(phrases, deletions(gone)) == without_each(phrases, gone),
    decreases gone.len(),
{
    if gone.len() > 0 {
        lemma_replay_deletions(phrases, gone.drop_last());
        assert(deletions(gone).drop_last() == deletions(gone.drop_last()));
    }
}

/// Whether the list after some work is the list before it with the changes replayed.
spec fn follows(state: WatchView, step: StepView) -> bool {
    step.state.phrases == replay(state.phrases, step.actions)
}

proof fn lemma_follows_join(state: WatchView, first: StepView, second: StepView)
    requires
        follows(state, first),
        follows(first.state, second),
    ensures
        follows(state, and_next(first, second)),
{
    lemma_replay_join(state.phrases, first.actions, second.actions);
}

proof fn lemma_command_follows(state: WatchView, message: MessageView)
    ensures
        follows(state, command_step(state, message)),
{
    let actions = command_step(state, message).actions;
    if actions.len() > 0 {
        lemma_replay_one(state.phrases, actions[0]);
        assert(actions == seq![actions[0]]);
    }
}

proof fn lemma_report_follows(state: WatchView, message: MessageView)
    ensures
        follows(state, report_step(state, message)),
{
    let actions = report_step(state, message).actions;
    if actions.len() > 0 {
        lemma_replay_one(state.phrases, actions[0]);
        assert(actions == seq![actions[0]]);
    }
}

/// The list of phrases follows the changes that are handed out for the phrase table:
/// after a message it is the list before it with those changes replayed, in their order,
/// whether or not a fault cut the work short.
pub proof fn law_list_follows_changes(state: WatchView, message: MessageView)
    ensures
        message_step(state, message).state.phrases == replay(
            state.phrases,
            message_step(state, message).actions,
        ),
{
    let commanded = command_step(state, message);
    lemma_command_follows(state, message);
    let watched = watch_step(commanded.state, message);
    assert(follows(commanded.state, watched)) by {
        if let Ok(phrases) = hits(commanded.state.phrases, message) {
            let reported = report_step(commanded.state, message);
            lemma_report_follows(commanded.state, message);
            let expired = expire_step(reported.state, message.timestamp);
            let checks = reported.state.user_checks;
            let seen = leading(checks, datable());
            lemma_replay_deletions(
                reported.state.phrases,
                overdue_phrases(checks.take(seen as int), message.timestamp),
            );
            let remembered = remember_step(expired.state, message, phrases);
            lemma_follows_join(reported.state, expired, remembered);
            lemma_follows_join(commanded.state, reported, and_next(expired, remembered));
        }
    }
    lemma_follows_join(state, commanded, watched);
}

/// Where no fault cuts it short, dropping what is overdue at `now` keeps exactly the
/// statuses that are not, in their order; it deletes the phrase of each that it drops,
/// as many as it drops, and no other.
pub proof fn law_overdue_are_dropped(state: WatchView, now: i64)
    requires
        expire_step(state, now).fault is None,
    ensures
        expire_step(state, now).state.user_checks == state.user_checks.filter(pending(now)),
        expire_step(state, now).actions == deletions(overdue_phrases(state.user_checks, now)),
        forall|status: StatusView|
            #![trigger expire_step(state, now).state.user_checks.contains(status)]
            expire_step(state, now).state.user_checks.contains(status) <==> {
                &&& state.user_checks.contains(status)
                &&& status.timestamp + PATIENCE_MS >= now
            },
        forall|status: StatusView| #[trigger]
            state.user_checks.contains(status) && status.timestamp + PATIENCE_MS < now
                ==> expire_step(state, now).actions.contains(ActionView::Delete(status.data)),
        expire_step(state, now).actions.len() + expire_step(state, now).state.user_checks.len()
            == state.user_checks.len(),
{
    let checks = state.user_checks;
    lemma_leading(checks, datable());
    assert(checks.take(checks.len() as int) == checks);
    assert(checks.skip(checks.len() as int) == Seq::<StatusView>::empty());
    let step = expire_step(state, now);
    assert(step.state.user_checks == checks.filter(pending(now)));
    lemma_filter_members(checks, pending(now));
    lemma_filter_members(checks, overdue(now));
    assert forall|status: StatusView| #[trigger]
        checks.contains(status) && status.timestamp + PATIENCE_MS
            < now implies step.actions.contains(ActionView::Delete(status.data)) by {
        let late = checks.filter(overdue(now));
        assert(late.contains(status));
        let i = choose|i: int| 0 <= i < late.len() && late[i] == status;
        assert(step.actions[i] == ActionView::Delete(status.data));
    }
    lemma_split_length(checks, now);
}

/// What a filter holds: what the sequence holds and the filter keeps.
proof fn lemma_filter_members<T>(s: Seq<T>, keep: spec_fn(T) -> bool)
    ensures
        forall|x: T| #[trigger] s.filter(keep).contains(x) <==> s.contains(x) && keep(x),
{
    assert forall|x: T| #[trigger] s.filter(keep).contains(x) <==> s.contains(x) && keep(x) by {
        if s.filter(keep).contains(x) {
            s.lemma_filter_contains_rev(keep, x);
            let i = choose|i: int| 0 <= i < s.filter(keep).len() && s.filter(keep)[i] == x;
            s.lemma_filter_pred(keep, i);
        }
        if s.contains(x) && keep(x) {
            let i = choose|i: int| 0 <= i < s.len() && s[i] == x;
            s.lemma_filter_contains(keep, i);
        }
    }
}

proof fn lemma_split_length(checks: Seq<StatusView>, now: i64)
    ensures
        checks.filter(pending(now)).len() + checks.filter(overdue(now)).len() == checks.len(),
    decreases checks.len(),
{
    reveal(Seq::filter);
    if checks.len() > 0 {
        lemma_split_length(checks.drop_last(), now);
    }
}

/// Dropping what is overdue brings in no status, fault or not.
proof fn lemma_expire_brings_nothing(state: WatchView, now: i64)
    ensures
        forall|status: StatusView| #[trigger]
            expire_step(state, now).state.user_checks.contains(status)
                ==> state.user_checks.contains(status),
{
    let checks = state.user_checks;
    let seen = leading(checks, datable());
    lemma_leading(checks, datable());
    let kept = checks.take(seen as int).filter(pending(now));
    let rest = checks.skip(seen as int);
    lemma_filter_members(checks.take(seen as int), pending(now));
    assert forall|status: StatusView| #[trigger]
        expire_step(state, now).state.user_checks.contains(
            status,
        ) implies checks.contains(status) by {
        let i = choose|i: int| 0 <= i < (kept + rest).len() && (kept + rest)[i] == status;
        if i < kept.len() {
            assert(kept[i] == status);
            assert(kept.contains(status));
            let j = choose|j: int| 0 <= j < seen && checks.take(seen as int)[j] == status;
            assert(checks[j] == status);
        } else {
            assert(checks[seen + (i - kept.len())] == status);
        }
    }
}

/// A report brings in no status.
proof fn lemma_report_brings_nothing(state: WatchView, message: MessageView)
    ensures
        forall|status: StatusView| #[trigger]
            report_step(state, message).state.user_checks.contains(status)
                ==> state.user_checks.contains(status),
{
    if let Some(report) = report_in(message.data) {
        lemma_filter_members(state.user_checks, about_others(report.nick));
    }
}

/// What is remembered after a message was remembered before it, or is a phrase that
/// this message was found to hold, with the name and the time of the message.
pub proof fn law_statuses_are_stamped(state: WatchView, message: MessageView, status: StatusView)
    requires
        message_step(state, message).state.user_checks.contains(status),
    ensures
        state.user_checks.contains(status) || exists|phrase: Seq<char>|
            {
                &&& verdict_of(phrase, message.data) == Verdict::Hit
                &&& command_step(state, message).state.phrases.contains(phrase)
                &&& status == #[trigger] status_of(message, phrase)
                &&& !is_exempt(message)
            },
{
    let commanded = command_step(state, message);
    assert(commanded.state.user_checks == state.user_checks);
    if commanded.fault is None {
        if let Ok(phrases) = hits(commanded.state.phrases, message) {
            let reported = report_step(commanded.state, message);
            lemma_report_brings_nothing(commanded.state, message);
            let expired = expire_step(reported.state, message.timestamp);
            lemma_expire_brings_nothing(reported.state, message.timestamp);
            if !state.user_checks.contains(status) {
                assert(!expired.state.user_checks.contains(status));
                let added = statuses_of(message, phrases);
                let all = expired.state.user_checks + added;
                let i = choose|i: int| 0 <= i < all.len() && all[i] == status;
                if i < expired.state.user_checks.len() {
                    assert(expired.state.user_checks[i] == status);
                    assert(false);
                }
                let k = i - expired.state.user_checks.len();
                assert(added[k] == status_of(message, phrases[k]));
                assert(phrases.contains(phrases[k]));
                lemma_filter_members(commanded.state.phrases, hit_by(message.data));
                assert(status == status_of(message, phrases[k]));
            }
        }
    }
}

/// Nothing that admins, moderators, VIPs and protected people say is watched: their
/// messages bring in no status.
pub proof fn law_exempt_are_not_watched(state: WatchView, message: MessageView, status: StatusView)
    requires
        is_exempt(message),
        message_step(state, message).state.user_checks.contains(status),
    ensures
        state.user_checks.contains(status),
{
    law_statuses_are_stamped(state, message, status);
}

/// A phrase that somebody said more than the patience ago, without being punished, is
/// taken for allowed: unless a fault cuts the work short, or the message itself is the
/// report of the punishment, its phrase is deleted and its status forgotten.
pub proof fn law_unpunished_phrase_goes(state: WatchView, message: MessageView, status: StatusView)
    requires
        state.user_checks.contains(status),
        status.timestamp + PATIENCE_MS < message.timestamp,
        report_step(command_step(state, message).state, message).state.user_checks.contains(status),
        message_step(state, message).fault is None,
    ensures
        message_step(state, message).actions.contains(ActionView::Delete(status.data)),
        !message_step(state, message).state.user_checks.contains(status),
{
    let commanded = command_step(state, message);
    assert(commanded.state.user_checks == state.user_checks);
    let phrases = hits(commanded.state.phrases, message)->Ok_0;
    let reported = report_step(commanded.state, message);
    let expired = expire_step(reported.state, message.timestamp);
    law_overdue_are_dropped(reported.state, message.timestamp);
    let i = choose|i: int|
        0 <= i < expired.actions.len() && expired.actions[i] == ActionView::Delete(status.data);
    assert(expired.actions.contains(ActionView::Delete(status.data)));
    let all = message_step(state, message).actions;
    assert(all == commanded.actions + (reported.actions + (expired.actions + Seq::empty())));
    assert(all[commanded.actions.len() + reported.actions.len() + i] == ActionView::Delete(
        status.data,
    ));
    if message_step(state, message).state.user_checks.contains(status) {
        let held = expired.state.user_checks + statuses_of(message, phrases);
        let j = choose|j: int| 0 <= j < held.len() && held[j] == status;
        if j < expired.state.user_checks.len() {
            assert(expired.state.user_checks.contains(status));
        } else {
            let k = j - expired.state.user_checks.len();
            assert(statuses_of(message, phrases)[k] == status_of(message, phrases[k]));
        }
    }
}

/// What was said less than the patience ago stays remembered, unless the message is a
/// report about who said it.
pub proof fn law_pending_status_stays(state: WatchView, message: MessageView, status: StatusView)
    requires
        state.user_checks.contains(status),
        status.timestamp + PATIENCE_MS >= message.timestamp,
        report_step(command_step(state, message).state, message).state.user_checks.contains(status),
    ensures
        message_step(state, message).state.user_checks.contains(status),
{
    let commanded = command_step(state, message);
    assert(commanded.state.user_checks == state.user_checks);
    if commanded.fault is None {
        if let Ok(phrases) = hits(commanded.state.phrases, message) {
            let reported = report_step(commanded.state, message);
            let checks = reported.state.user_checks;
            let expired = expire_step(reported.state, message.timestamp);
            let seen = leading(checks, datable());
            lemma_leading(checks, datable());
            let kept = checks.take(seen as int).filter(pending(message.timestamp));
            lemma_filter_members(checks.take(seen as int), pending(message.timestamp));
            let i = choose|i: int| 0 <= i < checks.len() && checks[i] == status;
            let held = expired.state.user_checks;
            if i < seen {
                assert(checks.take(seen as int)[i] == status);
                assert(kept.contains(status));
                let j = choose|j: int| 0 <= j < kept.len() && kept[j] == status;
                assert(held[j] == status);
            } else {
                assert(held[kept.len() + (i - seen)] == status);
            }
            assert(held.contains(status));
            let j = choose|j: int| 0 <= j < held.len() && held[j] == status;
            assert((held + statuses_of(message, phrases))[j] == status);
        }
    }
}

/// A report that somebody was punished clears all that is remembered of them and
/// nothing else, and leaves the phrase on the list unless it is to be ignored.
pub proof fn law_punished_are_cleared(
    state: WatchView,
    reporter: Seq<char>,
    nick: Seq<char>,
    kind: PhraseKind,
    phrase: Seq<char>,
)
    ensures
        forall|status: StatusView| #[trigger]
            punished_step(state, reporter, nick, kind, phrase).state.user_checks.contains(status)
                <==> state.user_checks.contains(status) && status.nick != nick,
        punished_step(state, reporter, nick, kind, phrase).state.phrases.contains(phrase)
            || state.ignored.contains(phrase),
{
    lemma_filter_members(state.user_checks, about_others(nick));
    let after = punished_step(state, reporter, nick, kind, phrase).state.phrases;
    if !state.phrases.contains(phrase) && !state.ignored.contains(phrase) {
        assert(after == state.phrases.push(phrase));
        assert(after[state.phrases.len() as int] == phrase);
    }
}

/// A phrase that is to be ignored is never taken over from a report.
pub proof fn law_ignored_are_not_adopted(
    state: WatchView,
    reporter: Seq<char>,
    nick: Seq<char>,
    kind: PhraseKind,
    phrase: Seq<char>,
)
    requires
        state.ignored.contains(phrase),
    ensures
        punished_step(state, reporter, nick, kind, phrase).state.phrases == state.phrases,
        punished_step(state, reporter, nick, kind, phrase).actions == Seq::<ActionView>::empty(),
{
}

/// A report in a message leaves nothing remembered of who was punished, but for what
/// the message itself holds.
pub proof fn law_report_clears(
    state: WatchView,
    message: MessageView,
    report: ReportView,
    status: StatusView,
)
    requires
        message.nick == "Bot"@,
        report_in(message.data) == Some(report),
        message_step(state, message).fault is None,
        message_step(state, message).state.user_checks.contains(status),
        status.nick == report.nick,
    ensures
        status.nick == message.nick,
        status.timestamp == message.timestamp,
{
    let commanded = command_step(state, message);
    let phrases = hits(commanded.state.phrases, message)->Ok_0;
    let reported = report_step(commanded.state, message);
    lemma_filter_members(commanded.state.user_checks, about_others(report.nick));
    lemma_expire_brings_nothing(reported.state, message.timestamp);
    let expired = expire_step(reported.state, message.timestamp);
    let held = expired.state.user_checks + statuses_of(message, phrases);
    let j = choose|j: int| 0 <= j < held.len() && held[j] == status;
    if j < expired.state.user_checks.len() {
        assert(expired.state.user_checks.contains(status));
        assert(reported.state.user_checks.contains(status));
    } else {
        let k = j - expired.state.user_checks.len();
        assert(statuses_of(message, phrases)[k] == status_of(message, phrases[k]));
    }
}

/// Adding a phrase and deleting it again leaves the list with what it held before,
/// each phrase as often as before; if the phrase was not on the list, the list is
/// the same. Nothing else that is remembered changes.
pub proof fn law_delete_undoes_add(state: WatchView, row: InsertionView)
    ensures
        ({
            let added = record_step(state, row);
            let back = retract_step(added.state, row.phrase);
            &&& back.actions == seq![ActionView::Delete(row.phrase)]
            &&& back.fault is None
            &&& back.state.phrases.to_multiset() == state.phrases.to_multiset()
            &&& !state.phrases.contains(row.phrase) ==> back.state == state
            &&& back.state.user_checks == state.user_checks
            &&& back.state.ignored == state.ignored
        }),
{
    let longer = state.phrases.push(row.phrase);
    assert(longer[state.phrases.len() as int] == row.phrase);
    longer.index_of_first_ensures(row.phrase);
    let at = longer.index_of_first(row.phrase)->0;
    longer.to_multiset_ensures();
    state.phrases.to_multiset_ensures();
    assert(longer.remove(at).to_multiset() == longer.to_multiset().remove(longer[at]));
    assert(longer.to_multiset() == state.phrases.to_multiset().insert(row.phrase));
    assert(state.phrases.to_multiset().insert(row.phrase).remove(row.phrase)
        =~= state.phrases.to_multiset());
    if !state.phrases.contains(row.phrase) {
        if at < state.phrases.len() {
            assert(state.phrases[at] == row.phrase);
        }
        assert(longer.remove(at) == state.phrases);
    }
}

/// Only the commands of admins and moderators and the reports of the chat's own bot can
/// have a row inserted: any other message can only lead to the deletion of a phrase that
/// is overdue.
pub proof fn law_others_only_outwait(state: WatchView, message: MessageView, action: ActionView)
    requires
        !may_command(message) || !has_white(message.data),
        message.nick != "Bot"@ || report_in(message.data) is None,
        message_step(state, message).actions.contains(action),
    ensures
        exists|status: StatusView|
            {
                &&& #[trigger] state.user_checks.contains(status)
                &&& status.timestamp + PATIENCE_MS < message.timestamp
                &&& action == ActionView::Delete(status.data)
            },
{
    let now = message.timestamp;
    let checks = state.user_checks;
    let seen = leading(checks, datable());
    lemma_leading(checks, datable());
    assert(command_step(state, message) == idle(state));
    assert(report_step(state, message) == idle(state));
    let gone = overdue_phrases(checks.take(seen as int), now);
    let all = message_step(state, message).actions;
    assert(all == deletions(gone) || all == Seq::<ActionView>::empty());
    let i = choose|i: int| 0 <= i < all.len() && all[i] == action;
    let late = checks.take(seen as int).filter(overdue(now));
    lemma_filter_members(checks.take(seen as int), overdue(now));
    assert(late.contains(late[i]));
    assert(checks.take(seen as int).contains(late[i]));
    let j = choose|j: int| 0 <= j < seen && checks.take(seen as int)[j] == late[i];
    assert(checks[j] == late[i]);
    assert(checks.contains(late[i]));
}

/// A message that can be neither a command nor a report, and that holds no phrase,
/// changes nothing while nothing is remembered.
pub proof fn law_quiet_message_changes_nothing(state: WatchView, message: MessageView)
    requires
        !may_command(message) || !has_white(message.data),
        message.nick != "Bot"@ || report_in(message.data) is None,
        state.user_checks == Seq::<StatusView>::empty(),
        hits(state.phrases, message) == Ok::<Seq<Seq<char>>, Fault>(Seq::empty()),
    ensures
        message_step(state, message) == idle(state),
{
    assert(command_step(state, message) == idle(state));
    assert(report_step(state, message) == idle(state));
    lemma_leading(state.user_checks, datable());
    reveal(Seq::filter);
    assert(overdue_phrases(state.user_checks.take(0), message.timestamp) == Seq::<
        Seq<char>,
    >::empty());
    assert(expire_step(state, message.timestamp) == idle(state));
    assert(statuses_of(message, Seq::empty()) == Seq::<StatusView>::empty());
    assert(message_step(state, message).actions == Seq::<ActionView>::empty());
    assert(message_step(state, message).state.user_checks == state.user_checks);
}

/// No message changes the phrases to ignore.
pub proof fn law_ignored_stay(state: WatchView, message: MessageView)
    ensures
        message_step(state, message).state.ignored == state.ignored,
{
}

proof fn lemma_without_each_members(s: Seq<Seq<char>>, gone: Seq<Seq<char>>)
    ensures
        forall|x: Seq<char>| #[trigger] without_each(s, gone).contains(x) ==> s.contains(x),
    decreases gone.len(),
{
    if gone.len() > 0 {
        let before = without_each(s, gone.drop_last());
        lemma_without_each_members(s, gone.drop_last());
        before.index_of_first_ensures(gone.last());
        assert forall|x: Seq<char>| #[trigger] without_each(s, gone).contains(x) implies s.contains(
            x,
        ) by {
            let after = without_each(s, gone);
            let i = choose|i: int| 0 <= i < after.len() && after[i] == x;
            if let Some(at) = before.index_of_first(gone.last()) {
                assert(before[if i < at { i } else { i + 1 }] == x);
            } else {
                assert(before[i] == x);
            }
            assert(before.contains(x));
        }
    }
}

/// Whatever joins the list of phrases is in lower case.
pub proof fn law_only_lowercase_joins(state: WatchView, message: MessageView, phrase: Seq<char>)
    requires
        message_step(state, message).state.phrases.contains(phrase),
    ensures
        state.phrases.contains(phrase) || exists|said: Seq<char>| phrase == #[trigger] lowercase(
            said,
        ),
{
    let commanded = command_step(state, message);
    let reported = report_step(commanded.state, message);
    let now = message.timestamp;
    let checks = reported.state.user_checks;
    let seen = leading(checks, datable());
    lemma_without_each_members(
        reported.state.phrases,
        overdue_phrases(checks.take(seen as int), now),
    );
    if commanded.state.phrases.contains(phrase) && !state.phrases.contains(phrase) {
        lemma_command_joins(state, message, phrase);
    }
    if reported.state.phrases.contains(phrase) && !commanded.state.phrases.contains(phrase) {
        let report = report_in(message.data)->0;
        let longer = reported.state.phrases;
        let i = choose|i: int| 0 <= i < longer.len() && longer[i] == phrase;
        if i < commanded.state.phrases.len() {
            assert(commanded.state.phrases[i] == phrase);
        }
        assert(phrase == lowercase(report.phrase));
    }
}

proof fn lemma_command_joins(state: WatchView, message: MessageView, phrase: Seq<char>)
    requires
        command_step(state, message).state.phrases.contains(phrase),
        !state.phrases.contains(phrase),
    ensures
        exists|said: Seq<char>| phrase == #[trigger] lowercase(said),
{
    let after = command_step(state, message).state.phrases;
    let i = choose|i: int| 0 <= i < after.len() && after[i] == phrase;
    let (word, arguments) = parted(message.data)->0;
    match command_of(word) {
        Some(Command::Add(kind)) => {
            if i < state.phrases.len() {
                assert(state.phrases[i] == phrase);
            }
            assert(phrase == lowercase(phrase_in(arguments)));
        },
        _ => {
            let gone = lowercase(first_line(arguments));
            state.phrases.index_of_first_ensures(gone);
            let at = state.phrases.index_of_first(gone)->0;
            if after == state.phrases {
                assert(state.phrases[i] == phrase);
            } else {
                assert(state.phrases[if i < at { i } else { i + 1 }] == phrase);
            }
        },
    }
}

/// The changes that a command calls for come first, and no later fault takes them back.
pub proof fn law_command_stands(state: WatchView, message: MessageView)
    ensures
        command_step(state, message).actions.is_prefix_of(message_step(state, message).actions),
{
}

/// The empty phrase is found in every message.
pub proof fn law_empty_phrase_is_everywhere(said: Seq<char>)
    ensures
        verdict_of(Seq::empty(), said) == Verdict::Hit,
{
    assert(said.subrange(0, 0) == Seq::<char>::empty());
    assert(occurs_at(said, Seq::empty(), 0));
}

/// A phrase that is said as it is written is found, be it a pattern that does not
/// compile or one that does not match itself.
pub proof fn law_literal_phrase_is_found(before: Seq<char>, phrase: Seq<char>, after: Seq<char>)
    ensures
        verdict_of(phrase, before + phrase + after) == Verdict::Hit,
{
    let said = before + phrase + after;
    let at = before.len() as int;
    assert(said.subrange(at, at + phrase.len()) == phrase);
    assert(occurs_at(said, phrase, at));
}

proof fn lemma_unescaped_plain(text: Seq<char>, n: nat)
    requires
        n <= text.len(),
        forall|i: int| !#[trigger] escapes(text, i),
    ensures
        unescaped_to(text, n) == text.take(n as int),
    decreases n,
{
    if n > 0 {
        lemma_unescaped_plain(text, (n - 1) as nat);
        assert(!escapes(text, n - 1));
        assert(text.take(n as int) == text.take(n - 1).push(text[n - 1]));
    }
}

/// A pattern between slashes stands for what is between them, if no slash in it is
/// escaped.
pub proof fn law_pattern_is_between_slashes(body: Seq<char>)
    requires
        forall|i: int| !#[trigger] escapes(seq!['/'] + body + seq!['/'], i),
    ensures
        is_pattern(seq!['/'] + body + seq!['/']),
        pattern_body(seq!['/'] + body + seq!['/']) == body,
{
    let phrase = seq!['/'] + body + seq!['/'];
    lemma_unescaped_plain(phrase, phrase.len());
    assert(phrase.take(phrase.len() as int) == phrase);
    assert(inner(phrase) == body);
}

/// Two texts joined by a space part again, if the first has no space.
pub proof fn law_joined_texts_part(first: Seq<char>, second: Seq<char>)
    requires
        !first.contains(' '),
    ensures
        parted(first + seq![' '] + second) == Some((first, second)),
{
    let whole = first + seq![' '] + second;
    let at = first.len() as int;
    assert(whole[at] == ' ');
    whole.index_of_first_ensures(' ');
    let found = whole.index_of_first(' ')->0;
    if found < at {
        assert(first[found] == ' ');
    }
    assert(whole.take(at) == first);
    assert(whole.skip(at + 1) == second);
}

/// The delay after a number of lost connections in a row.
pub open spec fn delay_after(losses: nat) -> u64
    decreases losses,
{
    if losses == 0 {
        0
    } else {
        longer_delay(delay_after((losses - 1) as nat))
    }
}

/// The delay before a new connection is nothing at first, one second after the first
/// loss, and doubles with each loss until the eighth; it is never longer than the longest.
pub proof fn law_delay_doubles(losses: nat)
    ensures
        delay_after(0) == 0,
        1 <= losses <= 8 ==> delay_after(losses) == pow2((losses - 1) as nat),
        losses >= 8 ==> delay_after(losses) == LONGEST_DELAY_SECS,
        delay_after(losses) <= LONGEST_DELAY_SECS,
        delay_after(losses) <= delay_after(losses + 1),
    decreases losses,
{
    lemma2_to64();
    if losses > 0 {
        law_delay_doubles((losses - 1) as nat);
    }
    if 2 <= losses <= 8 {
        lemma_pow2_unfold((losses - 1) as nat);
    }
}

/// A phrase that is on the list once the commands are carried out, and that is found
/// in a message by somebody who is not exempt, is remembered with their name and the
/// time, unless a fault cuts the work short.
pub proof fn law_found_phrase_is_remembered(
    state: WatchView,
    message: MessageView,
    phrase: Seq<char>,
)
    requires
        !is_exempt(message),
        command_step(state, message).state.phrases.contains(phrase),
        verdict_of(phrase, message.data) == Verdict::Hit,
        message_step(state, message).fault is None,
    ensures
        message_step(state, message).state.user_checks.contains(status_of(message, phrase)),
{
    let commanded = command_step(state, message);
    let found = hits(commanded.state.phrases, message)->Ok_0;
    lemma_filter_members(commanded.state.phrases, hit_by(message.data));
    assert(found.contains(phrase));
    let k = choose|k: int| 0 <= k < found.len() && found[k] == phrase;
    let reported = report_step(commanded.state, message);
    let expired = expire_step(reported.state, message.timestamp);
    let held = expired.state.user_checks + statuses_of(message, found);
    assert(held[expired.state.user_checks.len() + k] == status_of(message, phrase));
    assert(message_step(state, message).state.user_checks == held);
}

/// A command that adds a phrase and one that deletes it again, read as the same phrase,
/// leave the list with what it held before, each phrase as often as before.
pub proof fn law_delete_command_undoes_add_command(
    state: WatchView,
    adder: MessageView,
    deleter: MessageView,
    add_word: Seq<char>,
    add_arguments: Seq<char>,
    delete_word: Seq<char>,
    delete_argument: Seq<char>,
    kind: PhraseKind,
)
    requires
        command_of(add_word) == Some(Command::Add(kind)),
        command_of(delete_word) == Some(Command::Delete),
        lowercase(phrase_in(add_arguments)) == lowercase(first_line(delete_argument)),
    ensures
        ({
            let first = obey_step(state, adder, add_word, add_arguments);
            let second = obey_step(first.state, deleter, delete_word, delete_argument);
            &&& first.fault is None
            &&& second.fault is None
            &&& second.state.phrases.to_multiset() == state.phrases.to_multiset()
            &&& second.state.user_checks == state.user_checks
        }),
{
    law_delete_undoes_add(
        state,
        added_row(
            adder,
            kind,
            duration_in(add_arguments),
            lowercase(phrase_in(add_arguments)),
        ),
    );
}

/// Every row that a command adds has a duration.
pub proof fn law_added_rows_have_a_duration(arguments: Seq<char>)
    ensures
        duration_in(arguments).len() > 0,
{
    reveal_strlit("10m");
}

/// The JSON of a chat message is passed on as it came.
pub proof fn law_chat_message_is_passed_on(json: Seq<char>)
    ensures
        reaction_to(FrameView::Text("MSG"@ + seq![' '] + json)) == Ok::<ReactionView, Fault>(
            ReactionView::Message(json),
        ),
{
    reveal_strlit("MSG");
    law_joined_texts_part("MSG"@, json);
}

/// The words of commands have no space in them.
proof fn lemma_command_words_have_no_space(word: Seq<char>)
    requires
        command_of(word) is Some,
    ensures
        !word.contains(' '),
{
    reveal_strlit("!addban");
    reveal_strlit("!addmute");
    reveal_strlit("!deleteban");
    reveal_strlit("!dban");
    reveal_strlit("!deletemute");
    reveal_strlit("!dmute");
}

/// What moderators type works as they expect it: a command and arguments that begin with
/// neither a duration nor white space have the first line of the arguments added for
/// ten minutes, and a deletion with the same arguments undoes it.
pub proof fn law_typed_deletion_undoes_typed_addition(
    state: WatchView,
    adder: MessageView,
    deleter: MessageView,
    add_word: Seq<char>,
    delete_word: Seq<char>,
    kind: PhraseKind,
    arguments: Seq<char>,
)
    requires
        may_command(adder),
        may_command(deleter),
        command_of(add_word) == Some(Command::Add(kind)),
        command_of(delete_word) == Some(Command::Delete),
        adder.data == add_word + seq![' '] + arguments,
        deleter.data == delete_word + seq![' '] + arguments,
        duration_end(arguments) == 0,
        arguments.len() > 0 ==> !is_white(arguments[0]),
    ensures
        ({
            let phrase = lowercase(first_line(arguments));
            let first = record_step(state, added_row(adder, kind, "10m"@, phrase));
            let second = retract_step(first.state, phrase);
            &&& command_step(state, adder) == first
            &&& command_step(first.state, deleter) == second
            &&& second.actions == seq![ActionView::Delete(phrase)]
            &&& second.state.phrases.to_multiset() == state.phrases.to_multiset()
            &&& !state.phrases.contains(phrase) ==> second.state == state
        }),
{
    lemma_command_words_have_no_space(add_word);
    lemma_command_words_have_no_space(delete_word);
    law_joined_texts_part(add_word, arguments);
    law_joined_texts_part(delete_word, arguments);
    assert(is_white(adder.data[add_word.len() as int]));
    assert(is_white(deleter.data[delete_word.len() as int]));
    assert(arguments.skip(0) == arguments);
    law_delete_undoes_add(
        state,
        added_row(adder, kind, "10m"@, lowercase(first_line(arguments))),
    );
}

/// A heading that begins at `at`, with none behind it before `n`, is the last one.
proof fn lemma_last_heading_is(text: Seq<char>, at: int, n: nat)
    requires
        0 <= at < n,
        heading_at(text, at),
        forall|j: int| at < j < n ==> !#[trigger] heading_at(text, j),
    ensures
        last_heading(text, n) == Some(at),
    decreases n,
{
    if n - 1 > at {
        assert(!heading_at(text, n - 1));
        lemma_last_heading_is(text, at, (n - 1) as nat);
    }
}

/// The last heading is a heading.
proof fn lemma_last_heading(text: Seq<char>, n: nat)
    ensures
        last_heading(text, n) matches Some(at) ==> 0 <= at < n && heading_at(text, at),
    decreases n,
{
    if n > 0 && !heading_at(text, n - 1) {
        lemma_last_heading(text, (n - 1) as nat);
    }
}

/// What the headings look like: a bracket stands at their end and nowhere else.
proof fn lemma_heading_shape(verb: Seq<char>)
    requires
        verb == "muted"@ || verb == "banned"@,
    ensures
        heading(verb).len() == 26 + verb.len(),
        heading(verb)[0] == ' ',
        heading(verb)[heading(verb).len() - 1] == '(',
        forall|i: int| 0 <= i < heading(verb).len() - 1 ==> #[trigger] heading(verb)[i] != '(',
        verb == "muted"@ ==> verb.len() == 5 && heading(verb)[1] == 'm',
        verb == "banned"@ ==> verb.len() == 6 && heading(verb)[1] == 'b',
{
    reveal_strlit("muted");
    reveal_strlit("banned");
    reveal_strlit(" for using banned phrase(");
    assert(REPORT_MARK@ == " for using banned phrase("@);
}

/// Behind the heading of a report no heading begins, if none stands in the phrase.
proof fn lemma_no_later_heading(
    nick: Seq<char>,
    verb: Seq<char>,
    phrase: Seq<char>,
    other: Seq<char>,
    at: int,
)
    requires
        verb == "muted"@ || verb == "banned"@,
        other == "muted"@ || other == "banned"@,
        !occurs_in(phrase, heading(other)),
        at > nick.len(),
    ensures
        !occurs_at(nick + heading(verb) + phrase, heading(other), at),
{
    lemma_heading_shape(verb);
    lemma_heading_shape(other);
    let body = nick + heading(verb) + phrase;
    let start = nick.len() + heading(verb).len();
    if occurs_at(body, heading(other), at) {
        let piece = body.subrange(at, at + heading(other).len());
        assert(forall|i: int| 0 <= i < piece.len() ==> #[trigger] piece[i] == body[at + i]);
        if at >= start {
            assert(phrase.subrange(at - start, at - start + heading(other).len()) == piece);
            assert(occurs_at(phrase, heading(other), at - start));
        } else if start - 1 < at + heading(other).len() - 1 {
            assert(body[start - 1] == '(');
            assert(piece[start - 1 - at] == '(');
        } else {
            assert(at == nick.len() + 1);
            assert(piece[0] == body[at]);
            assert(body[at] == heading(verb)[1]);
        }
    }
}

/// A report is read as it is meant: a line that names somebody, tells that they were
/// muted or banned, and gives a phrase in brackets is taken apart into just these, if no
/// heading stands in the phrase itself and no closing bracket behind it.
pub proof fn law_report_is_taken_apart(
    text: Seq<char>,
    nick: Seq<char>,
    verb: Seq<char>,
    phrase: Seq<char>,
    after: Seq<char>,
)
    requires
        first_line(text) == nick + heading(verb) + phrase + seq![')'] + after,
        verb == "muted"@ || verb == "banned"@,
        !occurs_in(phrase, heading("muted"@)),
        !occurs_in(phrase, heading("banned"@)),
        !after.contains(')'),
    ensures
        report_in(text) == Some(
            (ReportView {
                whole: nick + heading(verb) + phrase + seq![')'],
                nick,
                verb,
                phrase,
            }),
        ),
{
    let line = first_line(text);
    let body = nick + heading(verb) + phrase;
    let end = body.len() as int;
    let at = nick.len() as int;
    line.index_of_last_ensures(')');
    assert(line[end] == ')');
    let found = line.index_of_last(')')->0;
    if found > end {
        assert(after[found - end - 1] == ')');
        assert(after.contains(')'));
    }
    assert(line.take(end) == body);
    assert(line.take(end + 1) == body + seq![')']);
    lemma_heading_shape(verb);
    lemma_heading_shape("muted"@);
    assert(body.subrange(at, at + heading(verb).len()) == heading(verb));
    assert(occurs_at(body, heading(verb), at));
    assert forall|j: int| at < j < body.len() implies !#[trigger] heading_at(body, j) by {
        lemma_no_later_heading(nick, verb, phrase, "muted"@, j);
        lemma_no_later_heading(nick, verb, phrase, "banned"@, j);
    }
    lemma_last_heading_is(body, at, body.len());
    if verb == "banned"@ && occurs_at(body, heading("muted"@), at) {
        assert(body.subrange(at, at + heading("muted"@).len())[1] == body[at + 1]);
        assert(body[at + 1] == heading(verb)[1]);
    }
    if verb == "muted"@ {
        assert(occurs_at(body, heading("muted"@), at));
    }
    assert(body.take(at) == nick);
    assert(body.skip(at + heading(verb).len()) == phrase);
}

/// There is no report in a text without the words that mark one.
pub proof fn law_no_report_without_its_mark(text: Seq<char>)
    requires
        !occurs_in(text, REPORT_MARK@),
    ensures
        report_in(text) is None,
    decreases text.len(),
{
    text.index_of_first_ensures('\n');
    let line = first_line(text);
    if report_in_line(line) is Some {
        line.index_of_last_ensures(')');
        let body = line.take(line.index_of_last(')')->0);
        lemma_last_heading(body, body.len());
        let at = last_heading(body, body.len())->0;
        let verb = if occurs_at(body, heading("muted"@), at) {
            "muted"@
        } else {
            "banned"@
        };
        let from = at + 1 + verb.len();
        let piece = body.subrange(at, at + heading(verb).len());
        assert(piece == heading(verb));
        assert(heading(verb).skip(1 + verb.len() as int) == REPORT_MARK@);
        assert(text.subrange(from, from + REPORT_MARK@.len()) == piece.skip(1 + verb.len() as int));
        assert(occurs_at(text, REPORT_MARK@, from));
    }
    if let Some(i) = text.index_of_first('\n') {
        let rest = text.skip(i + 1);
        if occurs_in(rest, REPORT_MARK@) {
            let at = choose|at: int| occurs_at(rest, REPORT_MARK@, at);
            assert(text.subrange(i + 1 + at, i + 1 + at + REPORT_MARK@.len()) == rest.subrange(
                at,
                at + REPORT_MARK@.len(),
            ));
            assert(occurs_at(text, REPORT_MARK@, i + 1 + at));
        }
        law_no_report_without_its_mark(rest);
    }
}

/// A report by the chat's own bot has a row inserted for its phrase, if the phrase is
/// neither on the list nor to be ignored; only a fault that comes before the report is
/// read stands in the way.
pub proof fn law_report_adds_its_phrase(state: WatchView, message: MessageView, report: ReportView)
    requires
        message.nick == "Bot"@,
        report_in(message.data) == Some(report),
        command_step(state, message).fault is None,
        hits(command_step(state, message).state.phrases, message) is Ok,
        !command_step(state, message).state.phrases.contains(lowercase(report.phrase)),
        !state.ignored.contains(lowercase(report.phrase)),
    ensures
        message_step(state, message).actions.contains(
            ActionView::Insert(
                reported_row(message.nick, punishment(report.verb), lowercase(report.phrase)),
            ),
        ),
{
    let commanded = command_step(state, message);
    let reported = report_step(commanded.state, message);
    let all = message_step(state, message).actions;
    assert(reported.actions.len() == 1);
    assert(all[commanded.actions.len() as int] == reported.actions[0]);
}

/// What has come of a connection so far.
#[verifier::ext_equal]
pub struct ConnectionView {
    pub state: WatchView,
    /// The changes handed out for the phrase table.
    pub actions: Seq<ActionView>,
    /// How often the watchdog was told that the connection is alive.
    pub signals: nat,
    /// The payloads of the pongs that were sent.
    pub pongs: Seq<Seq<u8>>,
    /// The fault that ended the connection, if one did.
    pub fault: Option<Fault>,
}

/// What comes of one more frame, or of one that could not be read, on a connection that
/// has no fault so far. How the JSON of a chat message is read is given by `decode`.
pub open spec fn served_one(
    so_far: ConnectionView,
    arrival: Option<FrameView>,
    decode: spec_fn(Seq<char>) -> MessageView,
) -> ConnectionView {
    let receipt = receipt_for(arrival);
    let told = ConnectionView {
        signals: so_far.signals + if receipt.signal {
            1nat
        } else {
            0nat
        },
        ..so_far
    };
    match receipt.reaction {
        Ok(ReactionView::Ignore) => told,
        Ok(ReactionView::Pong(payload)) => ConnectionView {
            pongs: so_far.pongs.push(payload),
            ..told
        },
        Ok(ReactionView::Message(json)) => {
            let step = message_step(so_far.state, decode(json));
            ConnectionView {
                state: step.state,
                actions: so_far.actions + step.actions,
                fault: step.fault,
                ..told
            }
        },
        Err(fault) => ConnectionView { fault: Some(fault), ..told },
    }
}

/// What comes of a run of frames, up to the first fault.
pub open spec fn served(
    state: WatchView,
    arrivals: Seq<Option<FrameView>>,
    decode: spec_fn(Seq<char>) -> MessageView,
) -> ConnectionView
    decreases arrivals.len(),
{
    if arrivals.len() == 0 {
        ConnectionView {
            state,
            actions: Seq::empty(),
            signals: 0,
            pongs: Seq::empty(),
            fault: None,
        }
    } else {
        let so_far = served(state, arrivals.drop_last(), decode);
        if so_far.fault is Some {
            so_far
        } else {
            served_one(so_far, arrivals.last(), decode)
        }
    }
}

/// The payload of a ping.
pub open spec fn ping_payload(arrival: Option<FrameView>) -> Option<Seq<u8>> {
    match arrival {
        Some(FrameView::Ping(payload)) => Some(payload),
        _ => None,
    }
}

/// The payloads of the pings in a run of frames, in their order.
pub open spec fn pings(arrivals: Seq<Option<FrameView>>) -> Seq<Seq<u8>> {
    arrivals.filter_map(|arrival: Option<FrameView>| ping_payload(arrival))
}

/// Whether a frame was read that is neither a chat message nor the end of the connection,
/// nor a text that cannot be parted.
pub open spec fn is_quiet(arrival: Option<FrameView>) -> bool {
    match arrival {
        Some(FrameView::Text(text)) => match parted(text) {
            Some((name, _)) => name != "MSG"@,
            None => false,
        },
        Some(FrameView::Ping(_)) => true,
        Some(FrameView::Close) => false,
        Some(FrameView::Other) => true,
        None => false,
    }
}

/// A connection without a fault has read every frame.
proof fn lemma_faultless_run_was_read(
    state: WatchView,
    arrivals: Seq<Option<FrameView>>,
    decode: spec_fn(Seq<char>) -> MessageView,
)
    requires
        served(state, arrivals, decode).fault is None,
    ensures
        served(state, arrivals, decode).signals == arrivals.len(),
        served(state, arrivals, decode).pongs == pings(arrivals),
    decreases arrivals.len(),
{
    if arrivals.len() > 0 {
        lemma_faultless_run_was_read(state, arrivals.drop_last(), decode);
    }
}

/// The watchdog is told exactly once of every frame that was read, the one that ends the
/// connection included, and never of one that could not be read; and every ping is
/// answered with one pong, in their order and with the payload of the ping. This holds
/// of every run of frames in which nothing before the last one is a fault, however the
/// JSON of chat messages is read.
pub proof fn law_frames_signal_and_pings_are_answered(
    state: WatchView,
    arrivals: Seq<Option<FrameView>>,
    decode: spec_fn(Seq<char>) -> MessageView,
)
    requires
        arrivals.len() > 0,
        served(state, arrivals.drop_last(), decode).fault is None,
    ensures
        served(state, arrivals, decode).signals == arrivals.len() - if arrivals.last() is None {
            1int
        } else {
            0int
        },
        served(state, arrivals, decode).pongs == pings(arrivals),
{
    lemma_faultless_run_was_read(state, arrivals.drop_last(), decode);
}

/// A run of frames that are neither chat messages nor the end of the connection tells the
/// watchdog once of each, has one pong sent for each ping, in their order and with the
/// same payload, and does nothing else: nothing that is remembered changes, the phrase
/// table sees no change, and there is no fault.
pub proof fn law_quiet_frames_only_answer_pings(
    state: WatchView,
    arrivals: Seq<Option<FrameView>>,
    decode: spec_fn(Seq<char>) -> MessageView,
)
    requires
        forall|i: int| 0 <= i < arrivals.len() ==> is_quiet(#[trigger] arrivals[i]),
    ensures
        served(state, arrivals, decode) == (ConnectionView {
            state,
            actions: Seq::empty(),
            signals: arrivals.len(),
            pongs: pings(arrivals),
            fault: None,
        }),
    decreases arrivals.len(),
{
    if arrivals.len() > 0 {
        assert forall|i: int| 0 <= i < arrivals.drop_last().len() implies is_quiet(
            #[trigger] arrivals.drop_last()[i],
        ) by {
            assert(is_quiet(arrivals[i]));
        }
        law_quiet_frames_only_answer_pings(state, arrivals.drop_last(), decode);
        assert(is_quiet(arrivals[arrivals.len() - 1]));
    }
    assert(served(state, arrivals, decode).fault is None);
    lemma_faultless_run_was_read(state, arrivals, decode);
}

/// The work on a run of messages, up to the first fault.
pub open spec fn run(state: WatchView, messages: Seq<MessageView>) -> StepView
    decreases messages.len(),
{
    if messages.len() == 0 {
        idle(state)
    } else {
        let so_far = run(state, messages.drop_last());
        and_next(so_far, message_step(so_far.state, messages.last()))
    }
}

/// Over any run of messages the list of phrases follows the changes that are handed out.
pub proof fn law_list_follows_changes_of_a_run(state: WatchView, messages: Seq<MessageView>)
    ensures
        run(state, messages).state.phrases == replay(state.phrases, run(state, messages).actions),
    decreases messages.len(),
{
    if messages.len() > 0 {
        let so_far = run(state, messages.drop_last());
        law_list_follows_changes_of_a_run(state, messages.drop_last());
        law_list_follows_changes(so_far.state, messages.last());
        lemma_follows_join(state, so_far, message_step(so_far.state, messages.last()));
    }
}

/// Whether a message is a report by the chat's own bot that `nick` was punished.
pub open spec fn reports_on(message: MessageView, nick: Seq<char>) -> bool {
    message.nick == "Bot"@ && match report_in(message.data) {
        Some(report) => report.nick == nick,
        None => false,
    }
}

/// A message that is no report on who said it leaves a status through the reading of
/// reports.
proof fn lemma_status_outlives_report(
    state: WatchView,
    message: MessageView,
    status: StatusView,
)
    requires
        state.user_checks.contains(status),
        !reports_on(message, status.nick),
    ensures
        report_step(state, message).state.user_checks.contains(status),
{
    if let Some(report) = report_in(message.data) {
        lemma_filter_members(state.user_checks, about_others(report.nick));
    }
}

/// What was said less than the patience ago stays remembered over a run of messages that
/// are no reports about who said it.
pub proof fn law_pending_status_outlives_a_run(
    state: WatchView,
    messages: Seq<MessageView>,
    status: StatusView,
)
    requires
        state.user_checks.contains(status),
        forall|i: int|
            0 <= i < messages.len() ==> (#[trigger] messages[i]).timestamp <= status.timestamp
                + PATIENCE_MS && !reports_on(messages[i], status.nick),
    ensures
        run(state, messages).state.user_checks.contains(status),
    decreases messages.len(),
{
    if messages.len() > 0 {
        let earlier = messages.drop_last();
        assert forall|i: int| 0 <= i < earlier.len() implies (#[trigger] earlier[i]).timestamp
            <= status.timestamp + PATIENCE_MS && !reports_on(earlier[i], status.nick) by {
            assert(messages[i] == earlier[i]);
        }
        law_pending_status_outlives_a_run(state, earlier, status);
        let so_far = run(state, earlier);
        let last = messages[messages.len() - 1];
        lemma_status_outlives_report(command_step(so_far.state, last).state, last, status);
        law_pending_status_stays(so_far.state, last, status);
    }
}

/// A phrase that somebody says and gets away with is given up: if a message by somebody
/// who is not exempt holds a phrase on the list, no report says that they were punished,
/// and more than the patience later another message comes in, then that message has the
/// phrase deleted, and it is forgotten that it was said. Whatever came in between the
/// two, within the patience, makes no difference, unless a fault cuts the work short.
pub proof fn law_unpunished_phrase_is_given_up(
    state: WatchView,
    said: MessageView,
    between: Seq<MessageView>,
    late: MessageView,
    phrase: Seq<char>,
)
    requires
        run(state, seq![said] + between + seq![late]).fault is None,
        !is_exempt(said),
        state.phrases.contains(phrase),
        verdict_of(phrase, said.data) == Verdict::Hit,
        forall|i: int|
            0 <= i < between.len() ==> (#[trigger] between[i]).timestamp <= said.timestamp
                + PATIENCE_MS && !reports_on(between[i], said.nick),
        !reports_on(late, said.nick),
        late.timestamp > said.timestamp + PATIENCE_MS,
    ensures
        ({
            let before = run(state, seq![said] + between);
            let step = message_step(before.state, late);
            let whole = run(state, seq![said] + between + seq![late]);
            &&& step.actions.contains(ActionView::Delete(lowercase(phrase)))
            &&& whole == and_next(before, step)
            &&& whole.actions.contains(ActionView::Delete(lowercase(phrase)))
            &&& !whole.state.user_checks.contains(status_of(said, phrase))
        }),
{
    let status = status_of(said, phrase);
    let head = seq![said] + between;
    let all = head + seq![late];
    assert(all.drop_last() == head);
    let before = run(state, head);
    let step = message_step(before.state, late);
    assert(run(state, all) == and_next(before, step));
    lemma_run_splits(state, said, between);
    let first = message_step(state, said);
    assert(command_step(state, said) == idle(state));
    law_found_phrase_is_remembered(state, said, phrase);
    law_pending_status_outlives_a_run(first.state, between, status);
    lemma_status_outlives_report(command_step(before.state, late).state, late, status);
    law_unpunished_phrase_goes(before.state, late, status);
    let i = choose|i: int|
        0 <= i < step.actions.len() && step.actions[i] == ActionView::Delete(lowercase(phrase));
    assert((before.actions + step.actions)[before.actions.len() + i] == ActionView::Delete(
        lowercase(phrase),
    ));
}

/// A run without a fault is its first message and then the rest.
proof fn lemma_run_splits(state: WatchView, first: MessageView, rest: Seq<MessageView>)
    requires
        run(state, seq![first] + rest).fault is None,
    ensures
        message_step(state, first).fault is None,
        run(message_step(state, first).state, rest).fault is None,
        run(state, seq![first] + rest).state == run(message_step(state, first).state, rest).state,
    decreases rest.len(),
{
    let all = seq![first] + rest;
    if rest.len() == 0 {
        assert(all == seq![first]);
        assert(all.drop_last() == Seq::<MessageView>::empty());
        assert(run(state, Seq::<MessageView>::empty()) == idle(state));
    } else {
        assert(all.drop_last() == seq![first] + rest.drop_last());
        lemma_run_splits(state, first, rest.drop_last());
    }
}

/// An ASCII text in lower case stays as it is when it is lowered again, so the phrase
/// that is remembered of such a text on the list is the one on the list.
pub proof fn law_lowering_again_changes_nothing(text: Seq<char>)
    requires
        is_ascii_chars(text),
    ensures
        lowercase(lowercase(text)) == lowercase(text),
{
    let low = lowercase(text);
    assert forall|i: int| 0 <= i < low.len() implies '\0' <= #[trigger] low[i] <= '\u{7f}' by {
        assert('\0' <= text[i] <= '\u{7f}');
        assert(low[i] == ascii_lower(text[i]));
    }
    assert(lowercase(low) == low);
}

} // verus!
