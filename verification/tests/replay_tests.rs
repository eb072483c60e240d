use fusion::file_reader::{blank_line, FileReaderSettings, LineStep, ReplayState};
use fusion::json::{JsonNumber, JsonValue};

fn obj(entries: Vec<(&str, JsonValue)>) -> JsonValue {
    JsonValue::Object(entries.into_iter().map(|(k, v)| (k.to_owned(), v)).collect())
}

#[test]
fn replay_skips_and_stops() {
    let mut state = ReplayState::new();
    let lines = ["a", "  ", "b", "c", "d", "e"];
    let mut steps = Vec::new();
    for line in lines {
        let step = state.next_line(line, 1, 2);
        if step == LineStep::Decode {
            state.line_processed();
        }
        steps.push(step);
    }
    assert_eq!(
        steps,
        vec![LineStep::Skip, LineStep::Skip, LineStep::Decode, LineStep::Decode, LineStep::Stop, LineStep::Stop]
    );
    assert_eq!(state.count_total, 5);
    assert_eq!(state.count_processed, 2);
    assert!(!state.progress_due());
}

#[test]
fn blank_lines() {
    assert!(blank_line(""));
    assert!(blank_line(" \t\r\n\u{3000}"));
    assert!(!blank_line(" x "));
}

#[test]
fn file_reader_settings() {
    let s = FileReaderSettings::from_json(&obj(vec![]));
    assert!(s.filename.is_empty());
    assert_eq!(s.n_skip_initial, 0);
    assert_eq!(s.n_stop_after, usize::MAX);
    assert!(s.show_progress);
    assert!(!s.do_loop);
    let s = FileReaderSettings::from_json(&obj(vec![
        ("filename", JsonValue::String("rec.json".to_owned())),
        ("nSkipInitial", JsonValue::Number(JsonNumber::PosInt(3))),
        ("nStopAfter", JsonValue::Number(JsonNumber::PosInt(0))),
        ("doLoopInFile", JsonValue::Bool(true)),
    ]));
    assert_eq!(s.filename, "rec.json");
    assert_eq!(s.n_skip_initial, 3);
    assert_eq!(s.n_stop_after, usize::MAX);
    assert!(s.do_loop);
    // A present but mistyped `loop` does not fall back to `doLoopInFile`.
    let s = FileReaderSettings::from_json(&obj(vec![
        ("loop", JsonValue::String("yes".to_owned())),
        ("doLoopInFile", JsonValue::Bool(true)),
        ("nStopAfter", JsonValue::Number(JsonNumber::PosInt(5))),
    ]));
    assert!(!s.do_loop);
    assert_eq!(s.n_stop_after, 5);
}
