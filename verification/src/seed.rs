//! What is done before the first connection: filling an empty phrase table, reading the
//! phrases to ignore, and taking them off the table.

use crate::model::{
    action_views, Action, ActionView, Fault, Insertion, InsertionView, Outcome, OutcomeView,
};
use crate::sequence::{leading, lemma_leading_unique};
use crate::text::{lowercase, texts};
use crate::watch::deletions;
use vstd::prelude::*;

verus! {

/// An entry of the public list of phrases.
#[derive(Debug)]
pub struct MitchEntry {
    pub duration: String,
    pub phrase: String,
    /// When the phrase was added, as RFC 3339 writes it.
    pub time_date: String,
    /// The word for the punishment.
    pub phrase_type: String,
    pub username: String,
}

/// What a [`MitchEntry`] stands for.
#[verifier::ext_equal]
pub struct MitchEntryView {
    pub duration: Seq<char>,
    pub phrase: Seq<char>,
    pub time_date: Seq<char>,
    pub phrase_type: Seq<char>,
    pub username: Seq<char>,
}

impl View for MitchEntry {
    type V = MitchEntryView;

    open spec fn view(&self) -> MitchEntryView {
        MitchEntryView {
            duration: self.duration@,
            phrase: self.phrase@,
            time_date: self.time_date@,
            phrase_type: self.phrase_type@,
            username: self.username@,
        }
    }
}

/// The public list of phrases.
#[derive(Debug)]
pub struct MitchRequest {
    pub list: Vec<MitchEntry>,
}

impl View for MitchRequest {
    type V = Seq<MitchEntryView>;

    open spec fn view(&self) -> Seq<MitchEntryView> {
        self.list@.map_values(|entry: MitchEntry| entry@)
    }
}

/// The error that `chrono` gives for a date it cannot read.
#[verifier::external_type_specification]
#[verifier::external_body]
pub struct ExDateError(chrono::ParseError);

/// The milliseconds since 1970 at the moment that a text writes as RFC 3339 does,
/// as `chrono` reads it; `None` where it cannot.
pub uninterp spec fn rfc3339_millis(text: Seq<char>) -> Option<i64>;

/// `chrono::DateTime::parse_from_rfc3339`, with the result taken by its
/// `timestamp_millis`: the moment that a text writes, in milliseconds since 1970. It
/// depends on the text alone. The grammar of the text is not written out.
#[verifier::external_body]
fn read_rfc3339(text: &str) -> (millis: Result<i64, chrono::ParseError>)
    ensures
        match millis {
            Ok(ms) => rfc3339_millis(text@) == Some(ms),
            Err(_) => rfc3339_millis(text@) is None,
        },
{
    chrono::DateTime::parse_from_rfc3339(text).map(|moment| moment.timestamp_millis())
}

/// The row for an entry that was added at `time_ms`, with `phrase` for its phrase.
pub open spec fn dated_row(
    entry: MitchEntryView,
    time_ms: i64,
    phrase: Seq<char>,
) -> InsertionView {
    InsertionView {
        time_ms,
        username: entry.username,
        phrase,
        duration: entry.duration,
        kind: entry.phrase_type,
    }
}

/// Whether a moment is known.
pub open spec fn known() -> spec_fn(Option<i64>) -> bool {
    |moment: Option<i64>| moment is Some
}

/// Filling the phrase table from some entries, given the moment at which each was
/// added and the phrase of each as the table is to hold it: each entry is inserted, up
/// to the first whose moment is not known, which is a fault.
pub open spec fn filling(
    entries: Seq<MitchEntryView>,
    moments: Seq<Option<i64>>,
    phrases: Seq<Seq<char>>,
) -> OutcomeView {
    let readable = leading(moments, known());
    OutcomeView {
        actions: Seq::new(
            readable,
            |i: int| ActionView::Insert(dated_row(entries[i], moments[i]->0, phrases[i])),
        ),
        fault: if readable < entries.len() {
            Some(Fault::BadDate)
        } else {
            None
        },
    }
}

/// The moments at which some entries were added, as far as their dates can be read.
pub open spec fn moments_of(entries: Seq<MitchEntryView>) -> Seq<Option<i64>> {
    entries.map_values(|entry: MitchEntryView| rfc3339_millis(entry.time_date))
}

/// The phrases of some entries, in lower case.
pub open spec fn phrases_of(entries: Seq<MitchEntryView>) -> Seq<Seq<char>> {
    entries.map_values(|entry: MitchEntryView| lowercase(entry.phrase))
}

/// Filling the phrase table from the public list.
pub open spec fn seeding(entries: Seq<MitchEntryView>) -> OutcomeView {
    filling(entries, moments_of(entries), phrases_of(entries))
}

/// Gives the row for an entry that was added at `time_ms`.
pub fn date_row(entry: &MitchEntry, time_ms: i64, phrase: String) -> (row: Insertion)
    ensures
        row@ == dated_row(entry@, time_ms, phrase@),
{
    Insertion {
        time_ms,
        username: entry.username.clone(),
        phrase,
        duration: entry.duration.clone(),
        kind: entry.phrase_type.clone(),
    }
}

/// Tells how the phrase table is to be filled, given the moment and the phrase of each
/// entry.
pub fn fill(request: &MitchRequest, moments: &Vec<Option<i64>>, phrases: &Vec<String>) -> (outcome:
    Outcome)
    requires
        moments@.len() == request@.len(),
        phrases@.len() == request@.len(),
    ensures
        outcome@ == filling(request@, moments@, texts(phrases@)),
{
    let mut actions: Vec<Action> = Vec::new();
    let mut i: usize = 0;
    let ghost entries = request@;
    let ghost row = |i: int|
        ActionView::Insert(dated_row(entries[i], moments@[i]->0, texts(phrases@)[i]));
    while i < request.list.len()
        invariant
            entries == request@,
            row == (|i: int|
                ActionView::Insert(dated_row(entries[i], moments@[i]->0, texts(phrases@)[i]))),
            moments@.len() == request@.len(),
            phrases@.len() == request@.len(),
            i <= request.list.len(),
            forall|j: int| 0 <= j < i ==> known()(#[trigger] moments@[j]),
            action_views(actions@) == Seq::new(i as nat, row),
        decreases request.list.len() - i,
    {
        match moments[i] {
            Some(time_ms) => {
                let ghost before = action_views(actions@);
                let entry = &request.list[i];
                assert(entry@ == entries[i as int]);
                actions.push(Action::Insert(date_row(entry, time_ms, phrases[i].clone())));
                assert(action_views(actions@) == before.push(row(i as int)));
                assert(Seq::new((i + 1) as nat, row) == before.push(row(i as int)));
            },
            None => {
                proof {
                    lemma_leading_unique(moments@, known(), i as nat);
                }
                return Outcome { actions, fault: Some(Fault::BadDate) };
            },
        }
        i = i + 1;
    }
    proof {
        lemma_leading_unique(moments@, known(), i as nat);
    }
    Outcome { actions, fault: None }
}

/// Tells how an empty phrase table is to be filled from the public list.
pub fn seed(request: &MitchRequest) -> (outcome: Outcome)
    ensures
        outcome@ == seeding(request@),
{
    let mut moments: Vec<Option<i64>> = Vec::new();
    let mut phrases: Vec<String> = Vec::new();
    let mut i: usize = 0;
    while i < request.list.len()
        invariant
            i <= request.list.len(),
            moments@ == moments_of(request@).take(i as int),
            texts(phrases@) == phrases_of(request@).take(i as int),
        decreases request.list.len() - i,
    {
        let ghost before = texts(phrases@);
        let entry = &request.list[i];
        assert(entry@ == request@[i as int]);
        let moment: Option<i64> = match read_rfc3339(entry.time_date.as_str()) {
            Ok(time_ms) => Some(time_ms),
            Err(_) => None,
        };
        moments.push(moment);
        phrases.push(entry.phrase.to_lowercase());
        assert(texts(phrases@) == before.push(lowercase(entry.phrase@)));
        i = i + 1;
    }
    assert(moments@ == moments_of(request@));
    assert(texts(phrases@) == phrases_of(request@));
    assert(texts(phrases@).len() == phrases@.len());
    fill(request, &moments, &phrases)
}

/// The phrases to ignore: the lines of a file, in lower case.
pub open spec fn lowered(lines: Seq<Seq<char>>) -> Seq<Seq<char>> {
    lines.map_values(|line: Seq<char>| lowercase(line))
}

/// Gives the phrases to ignore.
pub fn ignore_list(lines: &Vec<String>) -> (ignored: Vec<String>)
    ensures
        texts(ignored@) == lowered(texts(lines@)),
{
    let mut ignored: Vec<String> = Vec::new();
    let mut i: usize = 0;
    while i < lines.len()
        invariant
            i <= lines.len(),
            texts(ignored@) == lowered(texts(lines@).take(i as int)),
        decreases lines.len() - i,
    {
        let ghost before = texts(ignored@);
        ignored.push(lines[i].to_lowercase());
        assert(texts(ignored@) == before.push(lowercase(texts(lines@)[i as int])));
        assert(lowered(texts(lines@).take(i + 1)) == before.push(
            lowercase(texts(lines@)[i as int]),
        ));
        i = i + 1;
    }
    assert(texts(lines@).take(i as int) == texts(lines@));
    ignored
}

/// Tells how the phrases to ignore are to be taken off the phrase table: each is deleted.
pub fn purge(ignored: &Vec<String>) -> (outcome: Outcome)
    ensures
        outcome@.actions == deletions(texts(ignored@)),
        outcome@.fault is None,
{
    let mut actions: Vec<Action> = Vec::new();
    let mut i: usize = 0;
    while i < ignored.len()
        invariant
            i <= ignored.len(),
            action_views(actions@) == deletions(texts(ignored@).take(i as int)),
        decreases ignored.len() - i,
    {
        let ghost before = action_views(actions@);
        actions.push(Action::Delete(ignored[i].clone()));
        assert(action_views(actions@) == before.push(
            ActionView::Delete(texts(ignored@)[i as int]),
        ));
        assert(deletions(texts(ignored@).take(i + 1)) == before.push(
            ActionView::Delete(texts(ignored@)[i as int]),
        ));
        i = i + 1;
    }
    assert(texts(ignored@).take(i as int) == texts(ignored@));
    Outcome { actions, fault: None }
}

} // verus!
