use phrase_warden::intake::{check_handshake, react, receive, Frame, Reaction};
use phrase_warden::model::{Action, Fault, Insertion, Outcome};
use phrase_warden::seed::{date_row, fill, ignore_list, purge, seed, MitchEntry, MitchRequest};
use phrase_warden::supervisor::{
    connection_params, log_level, next_delay, NextMove, Supervisor, LONGEST_DELAY_SECS,
};

fn entry(phrase: &str, time_date: &str) -> MitchEntry {
    MitchEntry {
        duration: "1h".to_string(),
        phrase: phrase.to_string(),
        time_date: time_date.to_string(),
        phrase_type: "mute".to_string(),
        username: "someone".to_string(),
    }
}

fn row(phrase: &str, time_ms: i64) -> Insertion {
    Insertion {
        time_ms,
        username: "someone".to_string(),
        phrase: phrase.to_string(),
        duration: "1h".to_string(),
        kind: "mute".to_string(),
    }
}

#[test]
fn seeding_an_empty_table() {
    let request = MitchRequest {
        list: vec![
            entry("One", "1970-01-01T00:00:01.500Z"),
            entry("TWO", "2001-09-09T03:46:40+02:00"),
        ],
    };
    assert_eq!(
        seed(&request),
        Outcome {
            actions: vec![
                Action::Insert(row("one", 1_500)),
                Action::Insert(row("two", 1_000_000_000_000))
            ],
            fault: None
        }
    );
}

#[test]
fn seeding_stops_at_a_bad_date() {
    let request = MitchRequest {
        list: vec![
            entry("one", "1970-01-01T00:00:00Z"),
            entry("two", "yesterday"),
            entry("three", "1970-01-01T00:00:00Z"),
        ],
    };
    assert_eq!(
        seed(&request),
        Outcome {
            actions: vec![Action::Insert(row("one", 0))],
            fault: Some(Fault::BadDate)
        }
    );
}

#[test]
fn filling_with_known_moments() {
    let request = MitchRequest {
        list: vec![entry("A", ""), entry("B", "")],
    };
    let phrases = vec!["a".to_string(), "b".to_string()];
    assert_eq!(
        fill(&request, &vec![Some(1), Some(2)], &phrases),
        Outcome {
            actions: vec![Action::Insert(row("a", 1)), Action::Insert(row("b", 2))],
            fault: None
        }
    );
    assert_eq!(
        fill(&request, &vec![None, Some(2)], &phrases),
        Outcome {
            actions: vec![],
            fault: Some(Fault::BadDate)
        }
    );
}

#[test]
fn a_dated_row() {
    assert_eq!(date_row(&entry("X", ""), 7, "x".to_string()), row("x", 7));
}

#[test]
fn ignored_phrases_are_in_lower_case() {
    let lines = vec!["ABC".to_string(), "".to_string(), "Éa".to_string()];
    assert_eq!(ignore_list(&lines), vec!["abc", "", "éa"]);
}

#[test]
fn chat_messages_are_passed_on() {
    match react(Frame::Text("MSG {\"data\":\"a b\"}".to_string())) {
        Ok(Reaction::Message(json)) => assert_eq!(json, "{\"data\":\"a b\"}"),
        other => panic!("{:?}", other),
    }
}

#[test]
fn other_events_are_ignored() {
    assert!(matches!(react(Frame::Text("JOIN {}".to_string())), Ok(Reaction::Ignore)));
    assert!(matches!(react(Frame::Text("msg {}".to_string())), Ok(Reaction::Ignore)));
    assert!(matches!(react(Frame::Other), Ok(Reaction::Ignore)));
}

#[test]
fn an_event_without_a_space_is_a_fault() {
    assert!(matches!(react(Frame::Text("MSG".to_string())), Err(Fault::NoSpace)));
}

#[test]
fn a_ping_is_answered_with_its_payload() {
    match react(Frame::Ping(vec![1, 2, 3])) {
        Ok(Reaction::Pong(payload)) => assert_eq!(payload, vec![1, 2, 3]),
        other => panic!("{:?}", other),
    }
}

#[test]
fn the_end_of_the_connection_is_a_fault() {
    assert!(matches!(react(Frame::Close), Err(Fault::ServerClosed)));
}

#[test]
fn handshakes() {
    assert_eq!(check_handshake(101), Ok(()));
    assert_eq!(check_handshake(200), Err(Fault::HandshakeRefused));
}

#[test]
fn delays_double_up_to_the_longest() {
    let mut supervisor = Supervisor::new();
    let mut delays = vec![supervisor.delay()];
    for _ in 0..10 {
        assert_eq!(supervisor.watchdog_ended(true), NextMove::Reconnect);
        delays.push(supervisor.delay());
    }
    assert_eq!(delays, vec![0, 1, 2, 4, 8, 16, 32, 64, 128, 128, 128]);
    assert_eq!(LONGEST_DELAY_SECS, 128);
    assert_eq!(next_delay(65), 65);
}

#[test]
fn the_reader_counts_when_the_watchdog_ends_well() {
    let mut supervisor = Supervisor::new();
    assert_eq!(supervisor.watchdog_ended(false), NextMove::AwaitReader);
    assert_eq!(supervisor.delay(), 0);
    supervisor.reader_ended(true);
    assert_eq!(supervisor.delay(), 1);
    supervisor.reader_ended(false);
    assert_eq!(supervisor.delay(), 1);
}

#[test]
fn levels_of_logging() {
    for setting in ["0", "false", ""] {
        assert_eq!(log_level(setting), Some("info"));
    }
    for setting in ["1", "true"] {
        assert_eq!(log_level(setting), Some("debug"));
    }
    assert_eq!(log_level("yes"), None);
}

#[test]
fn parameters_of_the_database() {
    assert_eq!(connection_params("h", "u", "p"), "host=h user=u password=p");
}

#[test]
fn a_quiet_run_of_frames_only_answers_pings() {
    let frames = vec![
        Frame::Ping(vec![1]),
        Frame::Text("NAMES {}".to_string()),
        Frame::Other,
        Frame::Ping(vec![]),
        Frame::Ping(vec![2, 3]),
    ];
    let read = frames.len();
    let mut signals = 0;
    let mut replies = Vec::new();
    for frame in frames {
        let receipt = receive(Some(frame));
        if receipt.signal {
            signals += 1;
        }
        match receipt.reaction {
            Ok(Reaction::Pong(payload)) => replies.push(payload),
            Ok(Reaction::Ignore) => {}
            other => panic!("{:?}", other),
        }
    }
    assert_eq!(replies, vec![vec![1], vec![], vec![2, 3]]);
    assert_eq!(signals, read);
}

#[test]
fn the_watchdog_is_told_of_every_frame_that_was_read() {
    for frame in [
        Frame::Close,
        Frame::Other,
        Frame::Text("MSG {}".to_string()),
        Frame::Text("nospace".to_string()),
        Frame::Ping(vec![7]),
    ] {
        assert!(receive(Some(frame)).signal);
    }
    let lost = receive(None);
    assert!(!lost.signal);
    assert!(matches!(lost.reaction, Err(Fault::ReadFailed)));
    assert!(matches!(receive(Some(Frame::Close)).reaction, Err(Fault::ServerClosed)));
}

#[test]
fn ignored_phrases_are_taken_off_the_table() {
    let ignored = vec!["a".to_string(), "b".to_string(), "a".to_string()];
    assert_eq!(
        purge(&ignored),
        Outcome {
            actions: ignored.iter().map(|p| Action::Delete(p.clone())).collect(),
            fault: None
        }
    );
    assert!(purge(&vec![]).actions.is_empty());
}
