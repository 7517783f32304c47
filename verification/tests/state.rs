use mdsight::state::{Cursor, Cursors, Document, Documents, Problem, RuntimeMode, Search, SearchMatch, Searches, Session};

fn document(generation: u64, version: u64) -> Document {
    Document {
        generation,
        version,
        path: "/tmp/note.md".to_string(),
        html: String::new(),
    }
}

fn check_keeps_only_the_newest_document() {
    let mut documents = Documents::new();
    assert!(documents.accept(document(1, 1)));
    assert!(!documents.accept(document(1, 1)));
    assert!(!documents.accept(document(1, 0)));
    assert!(documents.accept(document(1, 2)));
    assert_eq!(documents.current().expect("a document").version, 2);
}

fn check_keeps_the_latest_cursor() {
    let mut cursors = Cursors::new();
    assert!(cursors.current().is_none());
    cursors.accept(Cursor { generation: 1, line: 10 });
    cursors.accept(Cursor { generation: 1, line: 42 });
    let cursor = cursors.current().expect("a cursor");
    assert_eq!(cursor.generation, 1);
    assert_eq!(cursor.line, 42);
}

#[test]
fn state_keeps_only_the_newest_document() {
    check_keeps_only_the_newest_document();
}

#[test]
fn main_keeps_only_the_newest_document() {
    check_keeps_only_the_newest_document();
}

#[test]
fn state_keeps_the_latest_cursor() {
    check_keeps_the_latest_cursor();
}

#[test]
fn main_keeps_the_latest_cursor() {
    check_keeps_the_latest_cursor();
}

#[test]
fn finds_the_directory_of_the_current_document() {
    let mut documents = Documents::new();
    assert_eq!(documents.current_with_base(1).unwrap_err(), "no document");
    assert!(documents.accept(document(1, 3)));
    let (current, base) = documents.current_with_base(3).expect("a document");
    assert_eq!(current.version, 3);
    assert_eq!(base, "/tmp");
    assert_eq!(documents.current_with_base(2).unwrap_err(), "the document has moved on");
}

#[test]
fn a_newer_generation_wins_over_a_higher_version() {
    let mut documents = Documents::new();
    assert!(documents.accept(document(1, 9)));
    assert!(documents.accept(document(2, 1)));
    assert!(!documents.accept(document(1, 10)));
    let current = documents.current().expect("a document");
    assert_eq!((current.generation, current.version), (2, 1));
}

#[test]
fn a_document_at_the_root_has_no_directory() {
    let mut documents = Documents::new();
    documents.accept(Document {
        generation: 1,
        version: 1,
        path: "/".to_string(),
        html: String::new(),
    });
    assert_eq!(documents.current_with_base(1).unwrap_err(), "the document has no directory");
}

#[test]
fn keeps_the_latest_search() {
    let mut searches = Searches::new();
    assert!(searches.current().is_none());
    searches.accept(Search {
        generation: 1,
        version: 2,
        matches: vec![SearchMatch { line: 3, text: "foo".to_string(), current: true }],
    });
    let search = searches.current().expect("a search");
    assert_eq!((search.generation, search.version), (1, 2));
    assert_eq!(search.matches.len(), 1);
    assert_eq!(search.matches[0].text, "foo");
    assert!(search.matches[0].current);
}

#[test]
fn tells_only_a_changed_problem() {
    let mut problem = Problem::new();
    assert!(!problem.set(None));
    assert!(problem.set(Some("cannot reload".to_string())));
    assert!(!problem.set(Some("cannot reload".to_string())));
    assert_eq!(problem.current(), Some("cannot reload".to_string()));
    assert!(problem.set(None));
    assert_eq!(problem.current(), None);
}

#[test]
fn holds_the_connection() {
    let mut session: Session<u32> = Session::new();
    assert!(session.get().is_none());
    session.open(7);
    assert_eq!(session.get(), Some(7));
}

#[test]
fn names_the_modes_and_titles() {
    assert_eq!(RuntimeMode::Nvim.as_str(), "nvim");
    assert_eq!(RuntimeMode::File.as_str(), "file");
    assert_eq!(RuntimeMode::Nvim.title(), "MdSight — Linked to Neovim");
    assert_eq!(RuntimeMode::File.title(), "MdSight — Read Only");
}
