use mdsight::history::{Anchor, History, HistoryEntry};

fn entry(path: &str, anchor: Option<Anchor>) -> HistoryEntry {
    HistoryEntry {
        path: path.to_string(),
        anchor,
    }
}

fn at(line: u64, offset: f64) -> Option<Anchor> {
    Some(Anchor {
        line,
        offset_bits: offset.to_bits(),
    })
}

fn check_remembers_where_each_document_was_read() {
    let mut state = History::new();
    // read a.md up to line 10, then follow a link to b.md
    state.follow_link(entry("/tmp/a.md", at(10, 40.0)));
    // read b.md up to line 30, then go back
    let back = state.take(true).expect("a.md");
    assert_eq!(back, entry("/tmp/a.md", at(10, 40.0)));
    state.arrive(true, entry("/tmp/b.md", at(30, 12.5)));
    // read a.md on to line 12, then go forward
    let forward = state.take(false).expect("b.md");
    assert_eq!(forward, entry("/tmp/b.md", at(30, 12.5)));
    state.arrive(false, entry("/tmp/a.md", at(12, 0.0)));
    assert_eq!(state.back, vec![entry("/tmp/a.md", at(12, 0.0))]);
    assert!(state.forward.is_empty());
}

fn check_keeps_the_entry_when_it_cannot_be_opened() {
    let mut state = History::new();
    state.follow_link(entry("/tmp/a.md", at(10, 40.0)));
    let back = state.take(true).expect("a.md");
    state.put_back(true, back);
    assert_eq!(state.back, vec![entry("/tmp/a.md", at(10, 40.0))]);
    assert!(state.forward.is_empty());
}

fn check_a_new_link_drops_the_forward_history() {
    let mut state = History::new();
    state.follow_link(entry("/tmp/a.md", None));
    let back = state.take(true).expect("a.md");
    state.arrive(true, entry("/tmp/b.md", at(3, 0.0)));
    assert_eq!(back.path, "/tmp/a.md");
    state.follow_link(entry("/tmp/a.md", at(5, 0.0)));
    assert!(state.forward.is_empty());
    assert_eq!(state.back.len(), 1);
}

fn check_keeps_history_for_its_own_expected_switch() {
    let mut history = History::new();
    history.back.push(entry("/tmp/a.md", None));
    history.expected_generation = Some(2);

    history.reset_if_unexpected(2);

    assert_eq!(history.back.len(), 1, "own navigation should not clear history");
    assert_eq!(history.expected_generation, None, "the marker should be consumed");
}

fn check_keeps_history_when_the_content_arrives_before_the_reply() {
    let mut history = History::new();
    history.back.push(entry("/tmp/a.md", None));

    // remembered before asking, the own switch is recognised even when the content comes first
    history.expect(2);
    assert!(!history.reset_if_unexpected(2));

    assert_eq!(history.back.len(), 1);
}

fn check_forgets_the_expectation_when_the_request_fails() {
    let mut history = History::new();
    history.expect(2);
    history.cancel(2);
    // a later switch to the generation of the failed request counts as external
    assert!(history.reset_if_unexpected(2));
}

fn check_keeps_a_used_expectation_gone_when_cancelling() {
    let mut history = History::new();
    history.expect(2);
    assert!(!history.reset_if_unexpected(2));
    // content already used the marker: cancelling leaves none behind
    history.cancel(2);
    assert_eq!(history.expected_generation, None);
}

fn check_clears_history_on_an_unexpected_switch() {
    let mut history = History::new();
    history.back.push(entry("/tmp/a.md", None));
    history.forward.push(entry("/tmp/b.md", None));

    // the generation changed through something else than this side (:MdSight, say)
    history.reset_if_unexpected(5);

    assert!(history.back.is_empty());
    assert!(history.forward.is_empty());
}

#[test]
fn history_remembers_where_each_document_was_read() {
    check_remembers_where_each_document_was_read();
}

#[test]
fn main_remembers_where_each_document_was_read() {
    check_remembers_where_each_document_was_read();
}

#[test]
fn history_keeps_the_entry_when_it_cannot_be_opened() {
    check_keeps_the_entry_when_it_cannot_be_opened();
}

#[test]
fn main_keeps_the_entry_when_it_cannot_be_opened() {
    check_keeps_the_entry_when_it_cannot_be_opened();
}

#[test]
fn history_a_new_link_drops_the_forward_history() {
    check_a_new_link_drops_the_forward_history();
}

#[test]
fn main_a_new_link_drops_the_forward_history() {
    check_a_new_link_drops_the_forward_history();
}

#[test]
fn history_keeps_history_for_its_own_expected_switch() {
    check_keeps_history_for_its_own_expected_switch();
}

#[test]
fn main_keeps_history_for_its_own_expected_switch() {
    check_keeps_history_for_its_own_expected_switch();
}

#[test]
fn history_keeps_history_when_the_content_arrives_before_the_reply() {
    check_keeps_history_when_the_content_arrives_before_the_reply();
}

#[test]
fn main_keeps_history_when_the_content_arrives_before_the_reply() {
    check_keeps_history_when_the_content_arrives_before_the_reply();
}

#[test]
fn history_forgets_the_expectation_when_the_request_fails() {
    check_forgets_the_expectation_when_the_request_fails();
}

#[test]
fn main_forgets_the_expectation_when_the_request_fails() {
    check_forgets_the_expectation_when_the_request_fails();
}

#[test]
fn history_keeps_a_used_expectation_gone_when_cancelling() {
    check_keeps_a_used_expectation_gone_when_cancelling();
}

#[test]
fn main_keeps_a_used_expectation_gone_when_cancelling() {
    check_keeps_a_used_expectation_gone_when_cancelling();
}

#[test]
fn history_clears_history_on_an_unexpected_switch() {
    check_clears_history_on_an_unexpected_switch();
}

#[test]
fn main_clears_history_on_an_unexpected_switch() {
    check_clears_history_on_an_unexpected_switch();
}

fn shown(generation: u64, version: u64) -> mdsight::state::Document {
    mdsight::state::Document {
        generation,
        version,
        path: "/tmp/b.md".to_string(),
        html: String::new(),
    }
}

fn target(generation: u64, version: u64) -> mdsight::history::NavigationTarget {
    mdsight::history::NavigationTarget {
        generation,
        version,
        anchor: None,
    }
}

#[test]
fn going_back_without_a_document_fails_first() {
    let mut history = History::new();
    history.follow_link(entry("/tmp/a.md", None));
    let documents = mdsight::state::Documents::new();
    assert_eq!(history.begin_navigation(&documents, true).unwrap_err(), "no document");
    assert_eq!(history.back.len(), 1);
}

#[test]
fn going_forward_with_nothing_ahead_fails() {
    let mut history = History::new();
    let mut documents = mdsight::state::Documents::new();
    documents.accept(shown(1, 1));
    assert_eq!(history.begin_navigation(&documents, false).unwrap_err(), "no more history");
}

#[test]
fn going_back_returns_where_the_target_was_read() {
    let mut history = History::new();
    history.follow_link(entry("/tmp/a.md", at(10, 40.0)));
    let mut documents = mdsight::state::Documents::new();
    documents.accept(shown(2, 2));
    let taken = history.begin_navigation(&documents, true).expect("a.md");
    let result = history
        .finish_navigation(true, taken, entry("/tmp/b.md", at(7, 1.5)), Ok(target(3, 3)))
        .expect("opened");
    assert_eq!(result.generation, 3);
    assert_eq!(result.version, 3);
    assert_eq!(result.anchor, at(10, 40.0));
    assert!(history.back.is_empty());
    assert_eq!(history.forward, vec![entry("/tmp/b.md", at(7, 1.5))]);
}

#[test]
fn a_failed_move_puts_the_entry_back() {
    let mut history = History::new();
    history.follow_link(entry("/tmp/a.md", at(10, 40.0)));
    let mut documents = mdsight::state::Documents::new();
    documents.accept(shown(2, 2));
    let taken = history.begin_navigation(&documents, true).expect("a.md");
    let result = history.finish_navigation(true, taken, entry("/tmp/b.md", None), Err("gone".to_string()));
    assert_eq!(result.unwrap_err(), "gone");
    assert_eq!(history.back, vec![entry("/tmp/a.md", at(10, 40.0))]);
    assert!(history.forward.is_empty());
}

#[test]
fn a_link_that_cannot_be_opened_keeps_the_history() {
    let mut history = History::new();
    history.forward.push(entry("/tmp/c.md", None));
    assert!(history.finish_link(entry("/tmp/a.md", None), Err("no".to_string())).is_err());
    assert_eq!(history.forward.len(), 1);
    assert!(history.back.is_empty());
    assert!(history.finish_link(entry("/tmp/a.md", None), Ok(target(2, 2))).is_ok());
    assert!(history.forward.is_empty());
    assert_eq!(history.back, vec![entry("/tmp/a.md", None)]);
}

#[test]
fn asks_neovim_for_the_next_generation() {
    let mut history = History::new();
    let expected = history.begin_nvim_open(&shown(4, 9));
    assert_eq!(expected, 5);
    assert_eq!(history.expected_generation, Some(5));
    let reply = history.finish_nvim_open(expected, Ok((5, 1))).expect("opened");
    assert_eq!((reply.generation, reply.version), (5, 1));
    assert_eq!(reply.anchor, None);
    assert_eq!(history.expected_generation, Some(5));
}

#[test]
fn a_declined_open_forgets_the_expected_generation() {
    let mut history = History::new();
    let expected = history.begin_nvim_open(&shown(4, 9));
    let reply = history.finish_nvim_open(expected, Err("nvim declined to open the file".to_string()));
    assert_eq!(reply.unwrap_err(), "nvim declined to open the file");
    assert_eq!(history.expected_generation, None);
}

#[test]
fn tells_which_buttons_can_be_used() {
    let mut history = History::new();
    let none = history.availability();
    assert!(!none.can_back && !none.can_forward);
    history.follow_link(entry("/tmp/a.md", None));
    let back_only = history.availability();
    assert!(back_only.can_back && !back_only.can_forward);
}

#[test]
fn a_navigation_target_for_a_document_starts_at_the_top() {
    let t = mdsight::history::NavigationTarget::from_document(&shown(6, 2));
    assert_eq!((t.generation, t.version, t.anchor), (6, 2, None));
}
