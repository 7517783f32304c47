use mdsight::history::History;
use mdsight::nvim::{cursor_from, document_from, document_generation, field, follows, newest, on_new_content, open_result, MsgInt, MsgValue};

fn text(s: &str) -> MsgValue {
    MsgValue::Text(Some(s.to_string()))
}

fn num(n: u64) -> MsgValue {
    MsgValue::Integer(MsgInt::Pos(n))
}

fn entry(key: &str, value: MsgValue) -> (MsgValue, MsgValue) {
    (text(key), value)
}

#[test]
fn reads_the_register_result() {
    let value = MsgValue::Dict(vec![
        entry("gen", num(2)),
        entry("version", num(7)),
        entry("path", text("/tmp/note.md")),
        entry("lines", MsgValue::Array(vec![text("# title"), text("")])),
        entry("line", num(1)),
    ]);
    let document = document_from(&value).expect("a document");
    assert_eq!(document.generation, 2);
    assert_eq!(document.version, 7);
    assert_eq!(document.path, "/tmp/note.md");
    assert!(document.html.contains("title"), "{}", document.html);
}

#[test]
fn reads_a_cursor_notification() {
    let value = MsgValue::Dict(vec![entry("gen", num(3)), entry("line", num(42))]);
    let cursor = cursor_from(&value).expect("a cursor");
    assert_eq!(cursor.generation, 3);
    assert_eq!(cursor.line, 42);
}

#[test]
fn rejects_a_cursor_without_a_line() {
    let value = MsgValue::Dict(vec![entry("gen", num(3))]);
    assert!(cursor_from(&value).is_none());
}

#[test]
fn rejects_a_nil_result() {
    assert!(document_from(&MsgValue::Nil).is_none());
}

#[test]
fn reads_the_open_result() {
    let value = MsgValue::Dict(vec![entry("gen", num(4)), entry("version", num(9))]);
    assert_eq!(open_result(&value), Some((4, 9)));
}

#[test]
fn treats_a_declined_open_as_none() {
    assert_eq!(open_result(&MsgValue::Boolean(false)), None);
}

fn content(gen: u64, version: u64, follow: bool) -> MsgValue {
    MsgValue::Dict(vec![
        entry("gen", num(gen)),
        entry("version", num(version)),
        entry("follow", MsgValue::Boolean(follow)),
    ])
}

/// Hands the queued contents to `newest`; gives (the last version, whether to come to the front)
fn drain(payloads: Vec<MsgValue>, shown: u64) -> (u64, bool) {
    let mut payloads = payloads;
    let first = payloads.remove(0);
    let (latest, raise) = newest(first, payloads, Some(shown));
    let version = match field(&latest, "version") {
        Some(MsgValue::Integer(MsgInt::Pos(v))) => *v,
        _ => panic!("a version"),
    };
    (version, raise)
}

#[test]
fn keeps_only_the_last_queued_content() {
    let payloads = (1u64..=3).map(|version| content(1, version, false)).collect();
    assert_eq!(drain(payloads, 1), (3, false));
}

#[test]
fn raises_when_the_target_is_switched_by_the_command() {
    assert_eq!(drain(vec![content(2, 5, false)], 1), (5, true));
}

#[test]
fn does_not_raise_when_following_the_window() {
    assert_eq!(drain(vec![content(2, 5, true)], 1), (5, false));
}

#[test]
fn does_not_raise_when_an_edit_follows_a_window_move_in_the_same_batch() {
    let payloads = vec![content(2, 5, true), content(2, 6, false)];
    assert_eq!(drain(payloads, 1), (6, false));
}

#[test]
fn raises_when_a_command_switch_is_hidden_behind_a_window_move() {
    let payloads = vec![content(2, 5, false), content(3, 6, true)];
    assert_eq!(drain(payloads, 1), (6, true));
}

#[test]
fn finds_the_first_entry_with_the_key() {
    let value = MsgValue::Dict(vec![entry("gen", num(1)), entry("gen", num(2))]);
    assert_eq!(document_generation(&value), 1);
    assert_eq!(document_generation(&MsgValue::Nil), 0);
    let negative = MsgValue::Dict(vec![entry("gen", MsgValue::Integer(MsgInt::Neg(-1)))]);
    assert_eq!(document_generation(&negative), 0);
}

#[test]
fn does_not_follow_by_default() {
    assert!(!follows(&MsgValue::Dict(vec![entry("gen", num(1))])));
    assert!(follows(&content(1, 1, true)));
}

#[test]
fn non_string_lines_count_as_empty() {
    let value = MsgValue::Dict(vec![
        entry("lines", MsgValue::Array(vec![text("a"), num(5), text("b")])),
        entry("gen", num(1)),
        entry("version", num(1)),
        entry("path", text("/tmp/x.md")),
    ]);
    let with_number = document_from(&value).expect("a document");
    let plain = MsgValue::Dict(vec![
        entry("lines", MsgValue::Array(vec![text("a"), text(""), text("b")])),
        entry("gen", num(1)),
        entry("version", num(1)),
        entry("path", text("/tmp/x.md")),
    ]);
    assert_eq!(with_number.html, document_from(&plain).expect("a document").html);
}

#[test]
fn an_external_switch_clears_the_history_and_may_raise() {
    let mut history = History::new();
    history.follow_link(mdsight::history::HistoryEntry { path: "/tmp/a.md".to_string(), anchor: None });
    assert!(on_new_content(&mut history, Some(1), 2, true));
    assert!(history.back.is_empty());
}

#[test]
fn an_own_switch_keeps_the_history_and_does_not_raise() {
    let mut history = History::new();
    history.follow_link(mdsight::history::HistoryEntry { path: "/tmp/a.md".to_string(), anchor: None });
    history.expect(2);
    assert!(!on_new_content(&mut history, Some(1), 2, true));
    assert_eq!(history.back.len(), 1);
    // an edit in the same generation changes nothing
    assert!(!on_new_content(&mut history, Some(2), 2, true));
    assert_eq!(history.back.len(), 1);
}

#[test]
fn reads_the_channel_id() {
    assert_eq!(mdsight::nvim::channel_id(&vec![num(5), MsgValue::Nil]), Some(5));
    assert_eq!(mdsight::nvim::channel_id(&vec![MsgValue::Nil]), None);
    assert_eq!(mdsight::nvim::channel_id(&Vec::new()), None);
}

#[test]
fn registers_with_the_document_and_its_cursor() {
    let value = MsgValue::Dict(vec![
        entry("gen", num(2)),
        entry("version", num(7)),
        entry("path", text("/tmp/note.md")),
        entry("lines", MsgValue::Array(vec![text("# title")])),
        entry("line", num(4)),
    ]);
    let (document, cursor) = mdsight::nvim::registration(&value).expect("registered");
    assert_eq!((document.generation, document.version), (2, 7));
    let cursor = cursor.expect("a cursor");
    assert_eq!((cursor.generation, cursor.line), (2, 4));
    match mdsight::nvim::registration(&MsgValue::Boolean(false)) {
        Err(message) => assert_eq!(message, "register was rejected"),
        Ok(_) => panic!("expected a refusal"),
    }
}
