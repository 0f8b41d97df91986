use phrase_warden::command::{read_command, read_duration, Command};
use phrase_warden::hits::{
    can_command, choose_hits, exempted, find_hits, judge, read_search, slashed, Verdict,
};
use phrase_warden::model::{Action, Fault, Insertion, Message, Outcome, PhraseKind, Status};
use phrase_warden::pattern::{find_report, group_text, read_add_arguments, read_delete_argument};
use phrase_warden::report::{clear_nick, read_punishment};
use phrase_warden::watch::{push_status, Watch};

fn strings(list: &[&str]) -> Vec<String> {
    list.iter().map(|s| s.to_string()).collect()
}

fn message(nick: &str, features: &[&str], timestamp: i64, data: &str) -> Message {
    Message {
        data: data.to_string(),
        nick: nick.to_string(),
        features: strings(features),
        timestamp,
    }
}

fn status(nick: &str, data: &str, timestamp: i64) -> Status {
    Status {
        nick: nick.to_string(),
        data: data.to_string(),
        timestamp,
    }
}

fn insert(time_ms: i64, username: &str, phrase: &str, duration: &str, kind: &str) -> Action {
    Action::Insert(Insertion {
        time_ms,
        username: username.to_string(),
        phrase: phrase.to_string(),
        duration: duration.to_string(),
        kind: kind.to_string(),
    })
}

fn delete(phrase: &str) -> Action {
    Action::Delete(phrase.to_string())
}

fn done(actions: Vec<Action>) -> Outcome {
    Outcome {
        actions,
        fault: None,
    }
}

fn watch(phrases: &[&str]) -> Watch {
    Watch::new(strings(phrases), strings(&["meme"]))
}

#[test]
fn a_moderator_adds_a_ban() {
    let mut w = watch(&["old"]);
    let out = w.handle_message(&message("mod", &["moderator"], 77, "!addban 30m Some Phrase"));
    assert_eq!(out, done(vec![insert(77, "mod", "some phrase", "30m", "ban")]));
    assert_eq!(w.phrases, strings(&["old", "some phrase"]));
    assert!(w.user_checks.is_empty());
}

#[test]
fn an_admin_adds_a_mute_for_ten_minutes() {
    let mut w = watch(&[]);
    let out = w.handle_message(&message("boss", &["x", "admin"], 5, "!addmute Word"));
    assert_eq!(out, done(vec![insert(5, "boss", "word", "10m", "mute")]));
    assert_eq!(w.phrases, strings(&["word"]));
}

#[test]
fn arguments_of_an_addition() {
    let cases = [
        ("!addban 5 foo", "10m", "5 foo"),
        ("!addban 10mfoo", "10m", "foo"),
        ("!addban  foo", "10m", "foo"),
        ("!addban 2W foo", "2W", "foo"),
        ("!addban a\nb", "10m", "a"),
        ("!addban ", "10m", ""),
        ("!addban 5m", "5m", ""),
        ("!addban 5m\nfoo\nbar", "5m", "foo"),
        ("!addban 5m \nfoo", "5m", ""),
        ("!addban \nfoo", "10m", "foo"),
        ("!addban 5é foo", "10m", "5é foo"),
        ("!addban 007d bond", "007d", "bond"),
        ("!addban 5mm foo", "5m", "m foo"),
        ("!addban \u{b}x", "10m", "x"),
        ("!addban \u{1f}x", "10m", "\u{1f}x"),
        ("!addban é 5m", "10m", "é 5m"),
        ("!addban 12\u{663}m foo", "12\u{663}m", "foo"),
        ("!addban \u{663}h\u{3000}foo", "\u{663}h", "foo"),
        ("!addban \u{1d7ff}s foo", "\u{1d7ff}s", "foo"),
        ("!addban \u{116e3}s foo", "\u{116e3}s", "foo"),
        ("!addban \u{1d7cd}s foo", "10m", "\u{1d7cd}s foo"),
        ("!addban \u{bd}s foo", "10m", "\u{bd}s foo"),
        ("!addban \u{85}foo", "10m", "foo"),
        ("!addban \u{200b}foo", "10m", "\u{200b}foo"),
    ];
    for (said, duration, phrase) in cases {
        let mut w = watch(&[]);
        let out = w.run_command(&message("m", &["admin"], 1, said));
        assert_eq!(out, done(vec![insert(1, "m", phrase, duration, "ban")]));
        assert_eq!(w.phrases, strings(&[phrase]));
    }
}

#[test]
fn a_deletion_takes_the_first_occurrence() {
    for word in ["!deleteban", "!dban", "!deletemute", "!dmute"] {
        let mut w = watch(&["a", "foo", "b", "foo"]);
        let said = format!("{} FOO", word);
        let out = w.handle_message(&message("mod", &["moderator"], 9, &said));
        assert_eq!(out, done(vec![delete("foo")]));
        assert_eq!(w.phrases, strings(&["a", "b", "foo"]));
    }
}

#[test]
fn a_deletion_of_an_unknown_phrase_does_nothing() {
    let mut w = watch(&["foo"]);
    assert_eq!(
        w.handle_message(&message("mod", &["moderator"], 9, "!dban bar")),
        done(vec![])
    );
    assert_eq!(
        w.handle_message(&message("mod", &["moderator"], 9, "!dban  foo")),
        done(vec![])
    );
    assert_eq!(w.phrases, strings(&["foo"]));
}

#[test]
fn deleting_undoes_adding() {
    let mut w = watch(&["a", "b"]);
    w.run_command(&message("m", &["admin"], 1, "!addban c"));
    w.run_command(&message("m", &["admin"], 1, "!dban c"));
    assert_eq!(w.phrases, strings(&["a", "b"]));
}

#[test]
fn commands_of_others_are_not_obeyed() {
    let mut w = watch(&["foo"]);
    for features in [&[][..], &["vip"][..], &["protected"][..], &["Admin"][..]] {
        let out = w.run_command(&message("u", features, 1, "!addban bar"));
        assert_eq!(out, done(vec![]));
    }
    assert_eq!(w.phrases, strings(&["foo"]));
}

#[test]
fn a_command_without_arguments_or_an_unknown_one_does_nothing() {
    let mut w = watch(&["foo"]);
    for said in ["!addban", "hello there", "!ADDBAN x", " !addban x"] {
        assert_eq!(
            w.run_command(&message("m", &["admin"], 1, said)),
            done(vec![])
        );
    }
    assert_eq!(w.phrases, strings(&["foo"]));
}

#[test]
fn white_space_without_a_space_is_a_fault() {
    let mut w = watch(&["foo"]);
    let out = w.handle_message(&message("m", &["admin"], 1, "tab\there"));
    assert_eq!(
        out,
        Outcome {
            actions: vec![],
            fault: Some(Fault::NoSpace)
        }
    );
    assert_eq!(
        w.handle_message(&message("u", &[], 1, "tab\there")),
        done(vec![])
    );
}

#[test]
fn words_of_commands() {
    assert_eq!(read_command("!addban"), Some(Command::Add(PhraseKind::Ban)));
    assert_eq!(read_command("!addmute"), Some(Command::Add(PhraseKind::Mute)));
    assert_eq!(read_command("!dmute"), Some(Command::Delete));
    assert_eq!(read_command("!"), None);
}

#[test]
fn groups_of_a_match() {
    let groups = vec![Some("5m x".to_string()), None, Some("x".to_string())];
    assert_eq!(group_text(&groups, 2), "x");
    assert_eq!(group_text(&groups, 1), "");
    assert_eq!(group_text(&groups, 3), "");
    assert_eq!(read_duration(&groups), "10m");
    assert_eq!(read_duration(&vec![None, Some("5h".to_string())]), "5h");
    assert_eq!(read_duration(&vec![None, Some(String::new())]), "10m");
}

#[test]
fn a_said_phrase_is_remembered() {
    let mut w = watch(&["foo", "bar", "/b[ao]z/"]);
    let out = w.handle_message(&message("user", &[], 1000, "xfoox boz"));
    assert_eq!(out, done(vec![]));
    assert_eq!(
        w.user_checks,
        vec![status("user", "foo", 1000), status("user", "/b[ao]z/", 1000)]
    );
}

#[test]
fn exempt_people_are_not_watched() {
    for feature in ["admin", "moderator", "vip", "protected"] {
        let mut w = watch(&["foo"]);
        w.handle_message(&message("user", &[feature], 1000, "foo"));
        assert!(w.user_checks.is_empty());
    }
}

#[test]
fn an_unpunished_phrase_is_dropped_after_ten_seconds() {
    let mut w = watch(&["foo", "bar"]);
    w.handle_message(&message("user", &[], 1000, "foo"));
    assert_eq!(
        w.handle_message(&message("other", &[], 11000, "hello")),
        done(vec![])
    );
    assert_eq!(w.user_checks, vec![status("user", "foo", 1000)]);
    assert_eq!(
        w.handle_message(&message("other", &[], 11001, "hello")),
        done(vec![delete("foo")])
    );
    assert!(w.user_checks.is_empty());
    assert_eq!(w.phrases, strings(&["bar"]));
}

#[test]
fn each_overdue_status_deletes_once() {
    let mut w = watch(&["foo", "x", "foo"]);
    w.user_checks = vec![
        status("a", "foo", 1),
        status("b", "x", 500_000),
        status("a", "foo", 1),
        status("c", "gone", 2),
    ];
    let out = w.expire(400_000);
    assert_eq!(out, done(vec![delete("foo"), delete("foo"), delete("gone")]));
    assert_eq!(w.user_checks, vec![status("b", "x", 500_000)]);
    assert_eq!(w.phrases, strings(&["x"]));
}

#[test]
fn a_moment_at_the_end_of_time_is_a_fault() {
    let mut w = watch(&["a", "b"]);
    w.user_checks = vec![
        status("u", "a", 0),
        status("u", "b", i64::MAX - 9_999),
        status("u", "b", 0),
    ];
    let out = w.handle_message(&message("u", &[], 20_000, "hi"));
    assert_eq!(
        out,
        Outcome {
            actions: vec![delete("a")],
            fault: Some(Fault::ClockOverflow)
        }
    );
    assert_eq!(w.phrases, strings(&["b"]));
    assert_eq!(w.user_checks.len(), 2);
    w.user_checks = vec![status("u", "b", i64::MAX - 10_000)];
    assert_eq!(w.expire(i64::MAX), done(vec![]));
}

#[test]
fn a_report_clears_and_adopts() {
    let mut w = watch(&["foo"]);
    w.handle_message(&message("villain", &[], 1000, "foo"));
    w.handle_message(&message("other", &[], 1001, "foo"));
    let out = w.handle_message(&message(
        "Bot",
        &["bot"],
        1002,
        "villain muted for using banned phrase(New Thing)",
    ));
    assert_eq!(out, done(vec![insert(0, "Bot", "new thing", "", "mute")]));
    assert_eq!(w.phrases, strings(&["foo", "new thing"]));
    assert_eq!(w.user_checks, vec![status("other", "foo", 1001)]);
}

#[test]
fn a_report_of_a_known_or_ignored_phrase_adopts_nothing() {
    let mut w = watch(&["foo"]);
    w.user_checks = vec![status("v", "foo", 1)];
    for phrase in ["FOO", "Meme"] {
        let said = format!("v banned for using banned phrase({})", phrase);
        assert_eq!(w.read_report(&message("Bot", &[], 2, &said)), done(vec![]));
    }
    assert_eq!(w.phrases, strings(&["foo"]));
    assert!(w.user_checks.is_empty());
}

#[test]
fn only_the_bot_reports() {
    let mut w = watch(&[]);
    w.user_checks = vec![status("v", "foo", 1)];
    let said = "v banned for using banned phrase(x)";
    assert_eq!(w.read_report(&message("bot", &[], 2, said)), done(vec![]));
    assert_eq!(w.read_report(&message("Bot", &[], 2, "v kicked")), done(vec![]));
    assert_eq!(w.user_checks.len(), 1);
    assert_eq!(
        w.read_report(&message("Bot", &[], 2, said)),
        done(vec![insert(0, "Bot", "x", "", "ban")])
    );
    assert!(w.user_checks.is_empty());
}

#[test]
fn words_of_punishments() {
    assert_eq!(read_punishment("muted"), PhraseKind::Mute);
    assert_eq!(read_punishment("banned"), PhraseKind::Ban);
    assert_eq!(PhraseKind::Mute.to_word(), "mute");
    assert_eq!(PhraseKind::Ban.to_word(), "ban");
}

#[test]
fn verdicts_on_phrases() {
    assert_eq!(judge("foo", "a foo b"), Verdict::Hit);
    assert_eq!(judge("foo", "a Foo b"), Verdict::Miss);
    assert_eq!(judge("", "anything"), Verdict::Hit);
    assert_eq!(judge("", ""), Verdict::Hit);
    assert_eq!(judge("/ab+c/", "xabbbc"), Verdict::Hit);
    assert_eq!(judge("/ab+c/", "ac"), Verdict::Miss);
    assert_eq!(judge("/a\\/b/", "a/b"), Verdict::Hit);
    assert_eq!(judge("/", "anything"), Verdict::Hit);
    assert_eq!(judge("//", "anything"), Verdict::Hit);
    assert_eq!(judge("/[/", "anything"), Verdict::Unreadable);
    assert_eq!(judge("/[/", "that is /[/ itself"), Verdict::Hit);
    assert_eq!(judge("/ab", "ab"), Verdict::Miss);
}

#[test]
fn verdicts_of_searches() {
    assert_eq!(read_search(Some(true)), Verdict::Hit);
    assert_eq!(read_search(Some(false)), Verdict::Miss);
    assert_eq!(read_search(None), Verdict::Unreadable);
}

#[test]
fn patterns_have_slashes() {
    assert!(slashed("/x/"));
    assert!(slashed("/"));
    assert!(!slashed(""));
    assert!(!slashed("/x"));
    assert!(!slashed("x/"));
}

#[test]
fn an_unreadable_phrase_is_a_fault_whoever_speaks() {
    let phrases = strings(&["foo", "/(/", "bar"]);
    for features in [&[][..], &["admin"][..]] {
        assert_eq!(
            find_hits(&phrases, &message("u", features, 1, "foo")),
            Err(Fault::BadPattern)
        );
    }
}

#[test]
fn an_added_pattern_that_does_not_compile_is_inserted_before_the_fault() {
    let mut w = watch(&[]);
    let out = w.handle_message(&message("m", &["admin"], 3, "!addban /[A/"));
    // The phrase itself is in the message only before it is lowered.
    assert_eq!(
        out,
        Outcome {
            actions: vec![insert(3, "m", "/[a/", "10m", "ban")],
            fault: Some(Fault::BadPattern)
        }
    );
    assert_eq!(w.phrases, strings(&["/[a/"]));
}

#[test]
fn chosen_phrases() {
    let phrases = strings(&["a", "b", "c"]);
    let verdicts = vec![Verdict::Hit, Verdict::Miss, Verdict::Hit];
    assert_eq!(choose_hits(&phrases, &verdicts, false), Ok(strings(&["a", "c"])));
    assert_eq!(choose_hits(&phrases, &verdicts, true), Ok(vec![]));
    let verdicts = vec![Verdict::Hit, Verdict::Hit, Verdict::Unreadable];
    assert_eq!(choose_hits(&phrases, &verdicts, true), Err(Fault::BadPattern));
}

#[test]
fn roles() {
    assert!(can_command(&message("u", &["moderator"], 1, "")));
    assert!(can_command(&message("u", &["admin"], 1, "")));
    assert!(!can_command(&message("u", &["vip", "protected"], 1, "")));
    assert!(exempted(&message("u", &["vip"], 1, "")));
    assert!(!exempted(&message("u", &["subscriber"], 1, "")));
}

#[test]
fn a_status_is_in_lower_case() {
    let mut list = vec![status("a", "b", 1)];
    push_status(&mut list, &message("u", &[], 42, "x"), "ÄBC".to_string());
    assert_eq!(list, vec![status("a", "b", 1), status("u", "äbc", 42)]);
}

#[test]
fn clearing_keeps_the_others() {
    let mut list = vec![status("a", "1", 1), status("b", "2", 2), status("a", "3", 3)];
    clear_nick(&mut list, "a");
    assert_eq!(list, vec![status("b", "2", 2)]);
}

#[test]
fn the_list_follows_the_actions() {
    let mut w = watch(&["foo", "bar"]);
    let mut copy = w.phrases.clone();
    let messages = [
        message("u", &[], 1_000, "foo bar"),
        message("m", &["moderator"], 2_000, "!addban 1h Baz"),
        message("Bot", &[], 3_000, "x muted for using banned phrase(QUX)"),
        message("m", &["moderator"], 4_000, "!dmute baz"),
        message("u", &[], 20_000, "later"),
    ];
    for m in &messages {
        for action in w.handle_message(m).actions {
            match action {
                Action::Insert(row) => copy.push(row.phrase),
                Action::Delete(phrase) => {
                    if let Some(i) = copy.iter().position(|p| *p == phrase) {
                        copy.remove(i);
                    }
                }
            }
        }
        assert_eq!(w.phrases, copy);
    }
    assert_eq!(w.phrases, strings(&["qux"]));
}

#[test]
fn recording_and_forgetting() {
    let mut w = watch(&[]);
    let row = Insertion {
        time_ms: 1,
        username: "u".to_string(),
        phrase: "p".to_string(),
        duration: "1m".to_string(),
        kind: "ban".to_string(),
    };
    assert_eq!(w.record(row), done(vec![insert(1, "u", "p", "1m", "ban")]));
    assert!(w.forget("p"));
    assert!(!w.forget("p"));
    assert_eq!(w.retract("p".to_string()), done(vec![]));
}

#[test]
fn a_quiet_message_changes_nothing() {
    let mut w = watch(&["foo"]);
    assert_eq!(w.handle_message(&message("u", &[], 9, "hello")), done(vec![]));
    assert_eq!(w.phrases, strings(&["foo"]));
    assert_eq!(w.ignored, strings(&["meme"]));
    assert!(w.user_checks.is_empty());
}

#[test]
fn settling_with_known_phrases() {
    let mut w = watch(&["foo"]);
    w.user_checks = vec![status("v", "foo", 1)];
    let out = w.settle(&message("u", &[], 50_000, "hi"), &strings(&["Foo"]));
    assert_eq!(out, done(vec![delete("foo")]));
    assert_eq!(w.user_checks, vec![status("u", "foo", 50_000)]);
}

#[test]
fn parts_of_a_report() {
    let cases = [
        ("v muted for using banned phrase(x)", "v", "x", "mute"),
        ("v w banned for using banned phrase(a (b) c)", "v w", "a (b) c", "ban"),
        (" muted for using banned phrase()", "", "", "mute"),
        ("v muted for using banned phrase() for)", "v", ") for", "mute"),
        (
            "a muted for using banned phrase(x) b banned for using banned phrase(y)",
            "a muted for using banned phrase(x) b",
            "y",
            "ban",
        ),
        ("v muted for using banned phrase(x) and more", "v", "x", "mute"),
        ("v muted for using banned phrase(x) (and more)", "v", "x) (and more", "mute"),
        ("first\nv banned for using banned phrase(x)\nlast)", "v", "x", "ban"),
        (
            "a muted for using banned phrase(x\nb banned for using banned phrase(y)",
            "b",
            "y",
            "ban",
        ),
        (
            "a muted for using banned phrase(x)\nb banned for using banned phrase(y)",
            "a",
            "x",
            "mute",
        ),
        (
            "a muted for using banned phrase(x) b banned for using banned phrase(y",
            "a",
            "x",
            "mute",
        ),
        (
            "a muted for using banned phrase(b kicked for using banned phrase(y)",
            "a",
            "b kicked for using banned phrase(y",
            "mute",
        ),
    ];
    for (said, nick, phrase, kind) in cases {
        let mut w = watch(&[]);
        w.user_checks = vec![status(nick, "p", 1), status("someone else", "p", 1)];
        let out = w.read_report(&message("Bot", &[], 2, said));
        assert_eq!(out, done(vec![insert(0, "Bot", phrase, "", kind)]));
        assert_eq!(w.user_checks, vec![status("someone else", "p", 1)]);
    }
}

#[test]
fn no_report_without_its_mark() {
    let mut w = watch(&[]);
    for said in [
        "v muted",
        "v muted for using banned phrase x",
        "v muted for using banned\nphrase(x)",
        "v muted for using banned phrase(x\n)",
        "v\nmuted for using banned phrase(x)",
        "v kicked for using banned phrase(x)",
        "",
    ] {
        assert_eq!(w.read_report(&message("Bot", &[], 2, said)), done(vec![]));
    }
}

#[test]
fn only_the_first_line_of_a_deletion_counts() {
    let mut w = watch(&["foo", "bar"]);
    let out = w.run_command(&message("m", &["admin"], 1, "!dban Foo\nbar"));
    assert_eq!(out, done(vec![delete("foo")]));
    assert_eq!(w.phrases, strings(&["bar"]));
}

#[test]
fn a_typed_deletion_undoes_a_typed_addition() {
    for phrase in ["word", "/a+b/", "~x Y 5m"] {
        let mut w = watch(&["a", "b"]);
        let said = format!("!addmute {}", phrase);
        let out = w.run_command(&message("m", &["admin"], 1, &said));
        let low = phrase.to_lowercase();
        assert_eq!(out, done(vec![insert(1, "m", &low, "10m", "mute")]));
        let said = format!("!deletemute {}", phrase);
        let out = w.run_command(&message("m", &["admin"], 1, &said));
        assert_eq!(out, done(vec![delete(&low)]));
        assert_eq!(w.phrases, strings(&["a", "b"]));
    }
}

fn some(list: &[&str]) -> Vec<Option<String>> {
    list.iter().map(|s| Some(s.to_string())).collect()
}

#[test]
fn groups_of_the_patterns() {
    assert_eq!(read_add_arguments("5m a b\nc"), some(&["5m a b", "5m", "a b"]));
    assert_eq!(
        read_add_arguments(" a"),
        vec![Some(" a".to_string()), None, Some("a".to_string())]
    );
    assert_eq!(read_delete_argument("5m a\nb"), some(&["5m a", "5m a"]));
    assert_eq!(
        find_report("x\nv muted for using banned phrase(p) q\n"),
        Some(some(&["v muted for using banned phrase(p)", "v", "muted", "p"]))
    );
    assert_eq!(find_report("x"), None);
}

#[test]
fn a_moderator_without_white_space_changes_nothing() {
    let mut w = watch(&["foo"]);
    let out = w.handle_message(&message("m", &["moderator"], 9, "!addban"));
    assert_eq!(out, done(vec![]));
    assert_eq!(w.phrases, strings(&["foo"]));
}

#[test]
fn durations_count_in_the_digits_of_every_script() {
    let zeros: [u32; 76] = [
        0x30, 0x660, 0x6f0, 0x7c0, 0x966, 0x9e6, 0xa66, 0xae6,
        0xb66, 0xbe6, 0xc66, 0xce6, 0xd66, 0xde6, 0xe50, 0xed0,
        0xf20, 0x1040, 0x1090, 0x17e0, 0x1810, 0x1946, 0x19d0, 0x1a80,
        0x1a90, 0x1b50, 0x1bb0, 0x1c40, 0x1c50, 0xa620, 0xa8d0, 0xa900,
        0xa9d0, 0xa9f0, 0xaa50, 0xabf0, 0xff10, 0x104a0, 0x10d30, 0x10d40,
        0x11066, 0x110f0, 0x11136, 0x111d0, 0x112f0, 0x11450, 0x114d0, 0x11650,
        0x116c0, 0x116d0, 0x116da, 0x11730, 0x118e0, 0x11950, 0x11bf0, 0x11c50,
        0x11d50, 0x11da0, 0x11f50, 0x16130, 0x16a60, 0x16ac0, 0x16b50, 0x16d70,
        0x1ccf0, 0x1d7ce, 0x1d7d8, 0x1d7e2, 0x1d7ec, 0x1d7f6, 0x1e140, 0x1e2f0,
        0x1e4f0, 0x1e5f1, 0x1e950, 0x1fbf0,
    ];
    let is_digit = |n: u32| zeros.iter().any(|zero| (*zero..*zero + 10).contains(&n));
    for zero in zeros {
        for n in [zero - 1, zero, zero + 9, zero + 10] {
            let text = format!("{}m", char::from_u32(n).unwrap());
            let duration = if is_digit(n) { Some(text.clone()) } else { None };
            assert_eq!(read_add_arguments(&text)[1], duration);
        }
    }
}

#[test]
fn a_phrase_that_somebody_gets_away_with_is_given_up() {
    let mut w = watch(&["foo", "bar"]);
    w.handle_message(&message("villain", &[], 1_000, "foo"));
    let between = [
        message("other", &[], 2_000, "bar"),
        message("Bot", &[], 3_000, "other banned for using banned phrase(bar)"),
        message("m", &["moderator"], 4_000, "!addban baz"),
        message("other", &[], 11_000, "hm"),
    ];
    for m in &between {
        assert!(!w.handle_message(m).actions.contains(&delete("foo")));
    }
    let out = w.handle_message(&message("other", &[], 11_001, "hm"));
    assert_eq!(out, done(vec![delete("foo")]));
    assert_eq!(w.phrases, strings(&["bar", "baz"]));
    // The report holds the phrase that it names.
    assert_eq!(w.user_checks, vec![status("Bot", "bar", 3_000)]);
}
