//! What is done before the first connection, and between connections.

use crate::intake::SWITCHING_PROTOCOLS;
use crate::model::{ActionView, Fault};
use crate::pattern::{ADD_ARGUMENTS, DELETE_ARGUMENT, REPORT};
use crate::seed::{
    dated_row, filling, known, moments_of, phrases_of, rfc3339_millis, seeding, MitchEntryView,
};
use crate::sequence::lemma_leading;
use crate::supervisor::{
    level_of, longer_delay, proper_delay, CONNECT_TIMEOUT_SECS, LONGEST_DELAY_SECS,
    SILENCE_LIMIT_SECS,
};
use crate::text::lowercase;
use crate::watch::{deletions, PATIENCE_MS};
use vstd::arithmetic::power2::{lemma2_to64, pow2};
use vstd::prelude::*;

verus! {

/// The row for an entry carries, field for field, what the entry says; only the time and
/// the phrase are given beside it.
pub proof fn law_row_of_an_entry(entry: MitchEntryView, time_ms: i64, phrase: Seq<char>)
    ensures
        ({
            let row = dated_row(entry, time_ms, phrase);
            &&& row.time_ms == time_ms
            &&& row.phrase == phrase
            &&& row.username == entry.username
            &&& row.duration == entry.duration
            &&& row.kind == entry.phrase_type
        }),
{
}

/// Filling the table with known moments and phrases: one insertion for each entry, in
/// their order, with the moment and the phrase at its place and the rest from the entry,
/// up to the first entry without a moment. There is a fault exactly if there is such an
/// entry.
pub proof fn law_filling(
    entries: Seq<MitchEntryView>,
    moments: Seq<Option<i64>>,
    phrases: Seq<Seq<char>>,
)
    requires
        moments.len() == entries.len(),
        phrases.len() == entries.len(),
    ensures
        ({
            let out = filling(entries, moments, phrases);
            let count = out.actions.len();
            &&& count <= entries.len()
            &&& forall|i: int|
                0 <= i < count ==> {
                    &&& moments[i] is Some
                    &&& (#[trigger] out.actions[i]) is Insert
                    &&& out.actions[i]->Insert_0.time_ms == moments[i]->0
                    &&& out.actions[i]->Insert_0.phrase == phrases[i]
                    &&& out.actions[i]->Insert_0.username == entries[i].username
                    &&& out.actions[i]->Insert_0.duration == entries[i].duration
                    &&& out.actions[i]->Insert_0.kind == entries[i].phrase_type
                }
            &&& count < entries.len() ==> moments[count as int] is None && out.fault == Some(
                Fault::BadDate,
            )
            &&& count == entries.len() ==> out.fault is None
        }),
{
    lemma_leading(moments, known());
    let out = filling(entries, moments, phrases);
    assert forall|i: int| 0 <= i < out.actions.len() implies moments[i] is Some && (
    #[trigger] out.actions[i]) is Insert by {
        assert(known()(moments[i]));
    }
}

/// Filling the table from the public list: one insertion for each entry, in their order.
/// Each row carries, field for field, what its entry says: the moment that its date
/// writes, its user, its duration, the word for its punishment, and its phrase in lower
/// case. The first entry whose date cannot be read ends it with a fault, and there is no
/// fault without one.
pub proof fn law_seeding(entries: Seq<MitchEntryView>)
    ensures
        ({
            let out = seeding(entries);
            let count = out.actions.len();
            &&& count <= entries.len()
            &&& forall|i: int|
                0 <= i < count ==> {
                    &&& rfc3339_millis(entries[i].time_date) is Some
                    &&& (#[trigger] out.actions[i]) is Insert
                    &&& out.actions[i]->Insert_0.time_ms == rfc3339_millis(
                        entries[i].time_date,
                    )->0
                    &&& out.actions[i]->Insert_0.phrase == lowercase(entries[i].phrase)
                    &&& out.actions[i]->Insert_0.username == entries[i].username
                    &&& out.actions[i]->Insert_0.duration == entries[i].duration
                    &&& out.actions[i]->Insert_0.kind == entries[i].phrase_type
                }
            &&& count < entries.len() ==> rfc3339_millis(entries[count as int].time_date) is None
                && out.fault == Some(Fault::BadDate)
            &&& count == entries.len() ==> out.fault is None
        }),
{
    law_filling(entries, moments_of(entries), phrases_of(entries));
    let out = seeding(entries);
    assert forall|i: int| 0 <= i < out.actions.len() implies {
        &&& rfc3339_millis(entries[i].time_date) is Some
        &&& (#[trigger] out.actions[i])->Insert_0.time_ms == rfc3339_millis(
            entries[i].time_date,
        )->0
    } by {
        assert(moments_of(entries)[i] == rfc3339_millis(entries[i].time_date));
        assert(out.actions[i] is Insert);
    }
    if out.actions.len() < entries.len() {
        let k = out.actions.len() as int;
        assert(moments_of(entries)[k] == rfc3339_millis(entries[k].time_date));
    }
}

/// The phrases to ignore are the lines, one for one and in their order, in lower case.
pub proof fn law_ignored_lines(lines: Seq<Seq<char>>)
    ensures
        crate::seed::lowered(lines).len() == lines.len(),
        forall|i: int|
            0 <= i < lines.len() ==> #[trigger] crate::seed::lowered(lines)[i] == lowercase(
                lines[i],
            ),
{
}

/// The deletions of some phrases are one for each, in their order.
pub proof fn law_deletions(phrases: Seq<Seq<char>>)
    ensures
        deletions(phrases).len() == phrases.len(),
        forall|i: int|
            0 <= i < phrases.len() ==> #[trigger] deletions(phrases)[i] == ActionView::Delete(
                phrases[i],
            ),
{
}

/// The delay grows from none to a second, doubles while it is at most sixty-four seconds,
/// and then stays.
pub proof fn law_delay_growth(delay: u64)
    ensures
        delay == 0 ==> longer_delay(delay) == 1,
        1 <= delay <= 64 ==> longer_delay(delay) == delay + delay,
        delay > 64 ==> longer_delay(delay) == delay,
        longer_delay(delay) >= delay,
{
}

/// The delays that come about.
pub proof fn law_proper_delays(delay: u64)
    ensures
        proper_delay(delay) <==> {
            ||| delay == 0
            ||| delay == 1
            ||| delay == 2
            ||| delay == 4
            ||| delay == 8
            ||| delay == 16
            ||| delay == 32
            ||| delay == 64
            ||| delay == 128
        },
{
    lemma2_to64();
    if proper_delay(delay) && delay != 0 {
        let k = choose|k: nat| k <= 7 && delay == #[trigger] pow2(k);
        assert(k == 0 || k == 1 || k == 2 || k == 3 || k == 4 || k == 5 || k == 6 || k == 7);
    }
    assert(pow2(0) == 1 && pow2(1) == 2 && pow2(2) == 4 && pow2(3) == 8 && pow2(4) == 16 && pow2(5)
        == 32 && pow2(6) == 64 && pow2(7) == 128);
}

/// The settings that ask for the level `info` are `0`, `false` and the empty one; those
/// that ask for `debug` are `1` and `true`; no others ask for any.
pub proof fn law_levels(setting: Seq<char>)
    ensures
        level_of(setting) == Some("info"@) <==> setting == "0"@ || setting == "false"@
            || setting.len() == 0,
        level_of(setting) == Some("debug"@) <==> setting == "1"@ || setting == "true"@,
        level_of(setting) is None <==> setting != "0"@ && setting != "false"@ && setting.len() > 0
            && setting != "1"@ && setting != "true"@,
{
    reveal_strlit("");
    reveal_strlit("0");
    reveal_strlit("1");
    reveal_strlit("true");
    reveal_strlit("false");
    reveal_strlit("info");
    reveal_strlit("debug");
    assert(setting.len() == 0 ==> setting == ""@);
    assert("0"@[0] == '0' && "1"@[0] == '1');
    assert("true"@.len() == 4 && "false"@.len() == 5 && "info"@.len() == 4 && "debug"@.len() == 5);
}

/// The limits: ten seconds of patience in milliseconds, ten seconds to connect, a minute of
/// silence, a longest delay of a hundred and twenty-eight seconds, and the one status that
/// a handshake is answered with.
pub proof fn law_limits()
    ensures
        PATIENCE_MS == 10 * 1000,
        CONNECT_TIMEOUT_SECS == 10,
        SILENCE_LIMIT_SECS == 60,
        LONGEST_DELAY_SECS == 128,
        SWITCHING_PROTOCOLS == 101,
{
}

/// The regular expressions by which commands and reports are read.
pub proof fn law_expressions()
    ensures
        ADD_ARGUMENTS@ == "(\\d+[HMDSWwhmds])?\\s?(.*)"@,
        DELETE_ARGUMENT@ == "(.*)"@,
        REPORT@ == "(.*) (muted|banned) for using banned phrase\\((.*)\\)"@,
{
}

} // verus!
