//! Regular expressions, as the `regex` crate reads them.

use crate::sequence::leading;
use crate::text::{is_white, occurs_at};
use vstd::prelude::*;

verus! {

/// The arguments of a command that adds a phrase: perhaps a duration, then the phrase.
pub const ADD_ARGUMENTS: &'static str = "(\\d+[HMDSWwhmds])?\\s?(.*)";

/// The argument of a command that deletes a phrase: the phrase.
pub const DELETE_ARGUMENT: &'static str = "(.*)";

/// What the chat's own bot says when it has punished somebody for a phrase.
pub const REPORT: &'static str = "(.*) (muted|banned) for using banned phrase\\((.*)\\)";

/// What stands between the punishment and the phrase in a report.
pub const REPORT_MARK: &'static str = " for using banned phrase(";

/// The error that `regex::Regex::new` gives for a pattern it cannot compile.
#[verifier::external_type_specification]
#[verifier::external_body]
pub struct ExRegexError(regex::Error);

/// What `regex::Regex::is_match` says of a pattern and a text; `None` where the
/// pattern does not compile.
pub uninterp spec fn regex_matches(pattern: Seq<char>, text: Seq<char>) -> Option<bool>;

/// The texts of the groups of a match.
pub open spec fn group_texts(groups: Seq<Option<String>>) -> Seq<Option<Seq<char>>> {
    groups.map_values(
        |group: Option<String>|
            match group {
                Some(s) => Some(s@),
                None => None,
            },
    )
}

/// The texts of the groups of a match, if there is one.
pub open spec fn found_texts(found: Option<Vec<Option<String>>>) -> Option<
    Seq<Option<Seq<char>>>,
> {
    match found {
        Some(groups) => Some(group_texts(groups@)),
        None => None,
    }
}

/// A text up to its first line feed.
pub open spec fn first_line(text: Seq<char>) -> Seq<char> {
    match text.index_of_first('\n') {
        Some(i) => text.take(i),
        None => text,
    }
}

/// What [`DELETE_ARGUMENT`] finds in a text.
pub open spec fn delete_groups(text: Seq<char>) -> Seq<Option<Seq<char>>> {
    seq![Some(first_line(text)), Some(first_line(text))]
}

/// Whether a character is one of the ten digits of a script, given its zero.
pub open spec fn counts_from(c: char, zero: u32) -> bool {
    zero <= c as u32 <= zero + 9
}

/// Whether a character is a decimal digit of any script: the category `Nd` of Unicode 16,
/// which the tables of `regex` list.
pub open spec fn is_digit(c: char) -> bool {
    ||| counts_from(c, 0x30) || counts_from(c, 0x660) || counts_from(c, 0x6f0) || counts_from(c, 0x7c0)
    ||| counts_from(c, 0x966) || counts_from(c, 0x9e6) || counts_from(c, 0xa66) || counts_from(c, 0xae6)
    ||| counts_from(c, 0xb66) || counts_from(c, 0xbe6) || counts_from(c, 0xc66) || counts_from(c, 0xce6)
    ||| counts_from(c, 0xd66) || counts_from(c, 0xde6) || counts_from(c, 0xe50) || counts_from(c, 0xed0)
    ||| counts_from(c, 0xf20) || counts_from(c, 0x1040) || counts_from(c, 0x1090) || counts_from(c, 0x17e0)
    ||| counts_from(c, 0x1810) || counts_from(c, 0x1946) || counts_from(c, 0x19d0) || counts_from(c, 0x1a80)
    ||| counts_from(c, 0x1a90) || counts_from(c, 0x1b50) || counts_from(c, 0x1bb0) || counts_from(c, 0x1c40)
    ||| counts_from(c, 0x1c50) || counts_from(c, 0xa620) || counts_from(c, 0xa8d0) || counts_from(c, 0xa900)
    ||| counts_from(c, 0xa9d0) || counts_from(c, 0xa9f0) || counts_from(c, 0xaa50) || counts_from(c, 0xabf0)
    ||| counts_from(c, 0xff10) || counts_from(c, 0x104a0) || counts_from(c, 0x10d30) || counts_from(c, 0x10d40)
    ||| counts_from(c, 0x11066) || counts_from(c, 0x110f0) || counts_from(c, 0x11136) || counts_from(c, 0x111d0)
    ||| counts_from(c, 0x112f0) || counts_from(c, 0x11450) || counts_from(c, 0x114d0) || counts_from(c, 0x11650)
    ||| counts_from(c, 0x116c0) || counts_from(c, 0x116d0) || counts_from(c, 0x116da) || counts_from(c, 0x11730)
    ||| counts_from(c, 0x118e0) || counts_from(c, 0x11950) || counts_from(c, 0x11bf0) || counts_from(c, 0x11c50)
    ||| counts_from(c, 0x11d50) || counts_from(c, 0x11da0) || counts_from(c, 0x11f50) || counts_from(c, 0x16130)
    ||| counts_from(c, 0x16a60) || counts_from(c, 0x16ac0) || counts_from(c, 0x16b50) || counts_from(c, 0x16d70)
    ||| counts_from(c, 0x1ccf0) || counts_from(c, 0x1d7ce) || counts_from(c, 0x1d7d8) || counts_from(c, 0x1d7e2)
    ||| counts_from(c, 0x1d7ec) || counts_from(c, 0x1d7f6) || counts_from(c, 0x1e140) || counts_from(c, 0x1e2f0)
    ||| counts_from(c, 0x1e4f0) || counts_from(c, 0x1e5f1) || counts_from(c, 0x1e950) || counts_from(c, 0x1fbf0)
}

/// [`is_digit`] as a function value.
pub open spec fn digit() -> spec_fn(char) -> bool {
    |c: char| is_digit(c)
}

/// Whether a character is a unit of time.
pub open spec fn time_unit(c: char) -> bool {
    ||| c == 'H' || c == 'M' || c == 'D' || c == 'S' || c == 'W'
    ||| c == 'h' || c == 'm' || c == 'd' || c == 's' || c == 'w'
}

/// How far a duration reaches at the beginning of a text: digits and one unit of time.
pub open spec fn duration_end(text: Seq<char>) -> int {
    let digits = leading(text, digit()) as int;
    if 0 < digits < text.len() && time_unit(text[digits]) {
        digits + 1
    } else {
        0
    }
}

/// Where the phrase begins in a text: behind the duration and at most one character
/// of white space.
pub open spec fn phrase_start(text: Seq<char>) -> int {
    let end = duration_end(text);
    if end < text.len() && is_white(text[end]) {
        end + 1
    } else {
        end
    }
}

/// What [`ADD_ARGUMENTS`] finds in a text.
pub open spec fn add_groups(text: Seq<char>) -> Seq<Option<Seq<char>>> {
    let phrase = first_line(text.skip(phrase_start(text)));
    seq![
        Some(text.take(phrase_start(text) + phrase.len())),
        if duration_end(text) > 0 {
            Some(text.take(duration_end(text)))
        } else {
            None
        },
        Some(phrase),
    ]
}

/// A report, taken apart.
#[verifier::ext_equal]
pub struct ReportView {
    /// All that belongs to the report.
    pub whole: Seq<char>,
    /// Who was punished.
    pub nick: Seq<char>,
    /// `muted` or `banned`.
    pub verb: Seq<char>,
    /// For which phrase.
    pub phrase: Seq<char>,
}

/// What stands between the name and the phrase in a report with a given verb.
pub open spec fn heading(verb: Seq<char>) -> Seq<char> {
    seq![' '] + verb + REPORT_MARK@
}

/// Whether a heading begins at a place in a text.
pub open spec fn heading_at(text: Seq<char>, at: int) -> bool {
    occurs_at(text, heading("muted"@), at) || occurs_at(text, heading("banned"@), at)
}

/// The last place before `n` at which a heading begins in a text.
pub open spec fn last_heading(text: Seq<char>, n: nat) -> Option<int>
    decreases n,
{
    if n == 0 {
        None
    } else if heading_at(text, n - 1) {
        Some(n - 1)
    } else {
        last_heading(text, (n - 1) as nat)
    }
}

/// The report in a line. It ends with the last closing bracket of the line; what stands
/// before that bracket is parted at its last heading into the name and the phrase.
pub open spec fn report_in_line(line: Seq<char>) -> Option<ReportView> {
    match line.index_of_last(')') {
        None => None,
        Some(end) => {
            let body = line.take(end);
            match last_heading(body, body.len()) {
                None => None,
                Some(at) => {
                    let verb = if occurs_at(body, heading("muted"@), at) {
                        "muted"@
                    } else {
                        "banned"@
                    };
                    Some(
                        ReportView {
                            whole: line.take(end + 1),
                            nick: body.take(at),
                            verb,
                            phrase: body.skip(at + heading(verb).len()),
                        },
                    )
                },
            }
        },
    }
}

/// The report in a text: that of the first line that has one.
pub open spec fn report_in(text: Seq<char>) -> Option<ReportView>
    decreases text.len(),
    via report_in_decreases
{
    match (report_in_line(first_line(text)), text.index_of_first('\n')) {
        (Some(report), _) => Some(report),
        (None, Some(i)) => report_in(text.skip(i + 1)),
        (None, None) => None,
    }
}

#[via_fn]
proof fn report_in_decreases(text: Seq<char>) {
    text.index_of_first_ensures('\n');
}

/// What [`REPORT`] finds in a text.
pub open spec fn report_groups(text: Seq<char>) -> Option<Seq<Option<Seq<char>>>> {
    match report_in(text) {
        Some(report) => Some(
            seq![Some(report.whole), Some(report.nick), Some(report.verb), Some(report.phrase)],
        ),
        None => None,
    }
}

/// `regex::Regex::new` and then `regex::Regex::is_match`: whether a pattern matches
/// anywhere in a text. Both depend on the pattern and the text alone. What the
/// pattern language means is not written out.
#[verifier::external_body]
pub(crate) fn pattern_matches(pattern: &str, text: &str) -> (matched: Result<bool, regex::Error>)
    ensures
        match matched {
            Ok(found) => regex_matches(pattern@, text@) == Some(found),
            Err(_) => regex_matches(pattern@, text@) is None,
        },
{
    regex::Regex::new(pattern).map(|re| re.is_match(text))
}

/// `regex::Regex::new` and then `regex::Regex::captures`: the groups of the first match
/// of one of the patterns of this module, the whole match first; a group that took no
/// part is `None`. All three patterns compile. [`DELETE_ARGUMENT`] takes the first line.
/// [`ADD_ARGUMENTS`] takes a duration if there is one, skips at most one character of
/// white space and takes the rest of the line. [`REPORT`] matches in the first line that
/// it can match in, from the beginning of that line, with as long a name as can be and
/// then as long a phrase as can be.
#[verifier::external_body]
fn pattern_groups(pattern: &str, text: &str) -> (found: Result<
    Option<Vec<Option<String>>>,
    regex::Error,
>)
    requires
        pattern@ == ADD_ARGUMENTS@ || pattern@ == DELETE_ARGUMENT@ || pattern@ == REPORT@,
    ensures
        found is Ok,
        pattern@ == DELETE_ARGUMENT@ ==> found_texts(found->Ok_0) == Some(delete_groups(text@)),
        pattern@ == ADD_ARGUMENTS@ ==> found_texts(found->Ok_0) == Some(add_groups(text@)),
        pattern@ == REPORT@ ==> found_texts(found->Ok_0) == report_groups(text@),
{
    regex::Regex::new(pattern).map(
        |re|
            re.captures(text).map(
                |groups| groups.iter().map(|group| group.map(|m| m.as_str().to_string())).collect(),
            ),
    )
}

/// Takes apart the arguments of a command that adds a phrase.
pub fn read_add_arguments(text: &str) -> (groups: Vec<Option<String>>)
    ensures
        group_texts(groups@) == add_groups(text@),
{
    match pattern_groups(ADD_ARGUMENTS, text) {
        Ok(Some(groups)) => groups,
        _ => Vec::new(),
    }
}

/// Takes apart the argument of a command that deletes a phrase.
pub fn read_delete_argument(text: &str) -> (groups: Vec<Option<String>>)
    ensures
        group_texts(groups@) == delete_groups(text@),
{
    match pattern_groups(DELETE_ARGUMENT, text) {
        Ok(Some(groups)) => groups,
        _ => Vec::new(),
    }
}

/// Takes a report apart, if a text holds one.
pub fn find_report(text: &str) -> (groups: Option<Vec<Option<String>>>)
    ensures
        found_texts(groups) == report_groups(text@),
{
    match pattern_groups(REPORT, text) {
        Ok(groups) => groups,
        Err(_) => None,
    }
}

/// The text of a group; the empty text where the group took no part or there is
/// no such group.
pub open spec fn group_or_empty(groups: Seq<Option<Seq<char>>>, i: int) -> Seq<char> {
    if 0 <= i < groups.len() && groups[i] is Some {
        groups[i]->0
    } else {
        Seq::empty()
    }
}

/// Gives the text of a group of a match, or the empty text.
pub fn group_text(groups: &Vec<Option<String>>, i: usize) -> (text: String)
    ensures
        text@ == group_or_empty(group_texts(groups@), i as int),
{
    if i < groups.len() {
        match &groups[i] {
            Some(s) => s.clone(),
            None => String::new(),
        }
    } else {
        String::new()
    }
}

} // verus!
