use mdsight::standalone::{check_path, file_name, is_markdown, load, next_numbers, open, reload, touches, watch_directory, watch_problem, Reload};
use mdsight::state::Document;

#[test]
fn loads_a_markdown_file() {
    let document = load("/tmp/mdsight-standalone-load/note.md", Ok("# title\n".to_string())).expect("a document");
    assert_eq!(document.generation, 1);
    assert_eq!(document.version, 1);
    assert!(document.html.contains("title"), "{}", document.html);
}

#[test]
fn standalone_rejects_a_missing_file() {
    assert!(check_path("/tmp/mdsight-standalone-missing/gone.md", Err("No such file or directory (os error 2)".to_string())).is_err());
}

#[test]
fn rejects_a_non_markdown_extension() {
    let lookup = Ok(("/tmp/mdsight-standalone-extension/note.txt".to_string(), true));
    assert!(check_path("/tmp/mdsight-standalone-extension/note.txt", lookup).is_err());
}

#[test]
fn standalone_accepts_the_markdown_extension_too() {
    let lookup = Ok(("/tmp/mdsight-standalone-markdown-extension/note.markdown".to_string(), true));
    let canonical = check_path("/tmp/mdsight-standalone-markdown-extension/note.markdown", lookup).expect("a path");
    assert!(load(&canonical, Ok("# title\n".to_string())).is_ok());
}

#[test]
fn standalone_accepts_an_uppercase_extension() {
    assert!(is_markdown("/tmp/note.MD"));
}

#[test]
fn standalone_rejects_a_directory() {
    let lookup = Ok(("/tmp/mdsight-standalone-directory".to_string(), false));
    assert!(check_path("/tmp/mdsight-standalone-directory", lookup).is_err());
}

#[test]
fn opens_a_document_with_the_given_generation_and_version() {
    let document = open("/tmp/mdsight-standalone-open/other.md", Ok("# other\n".to_string()), 3, 8).expect("a document");
    assert_eq!(document.generation, 3);
    assert_eq!(document.version, 8);
    assert!(document.html.contains("other"), "{}", document.html);
}

#[test]
fn reports_why_a_path_cannot_be_opened() {
    assert_eq!(
        check_path("note.md", Err("gone".to_string())).unwrap_err(),
        "cannot open note.md: gone"
    );
    assert_eq!(
        check_path("dir", Ok(("/tmp/dir".to_string(), false))).unwrap_err(),
        "/tmp/dir is not a file"
    );
    assert_eq!(
        check_path("a.txt", Ok(("/tmp/a.txt".to_string(), true))).unwrap_err(),
        "/tmp/a.txt is not a markdown file"
    );
    assert_eq!(
        open("/tmp/a.md", Err("denied".to_string()), 1, 1).unwrap_err(),
        "cannot read /tmp/a.md: denied"
    );
}

fn shown(path: &str) -> Document {
    Document { generation: 2, version: 5, path: path.to_string(), html: String::new() }
}

#[test]
fn a_reload_moves_the_version_on() {
    match reload(Some(shown("/tmp/a.md")), "/tmp/a.md", Ok("# again\n".to_string())) {
        Reload::Publish(document) => {
            assert_eq!((document.generation, document.version), (2, 6));
            assert!(document.html.contains("again"));
        }
        _ => panic!("expected a new document"),
    }
}

#[test]
fn a_failed_reload_keeps_what_is_shown() {
    match reload(Some(shown("/tmp/a.md")), "/tmp/a.md", Err("denied".to_string())) {
        Reload::Problem { report, notice } => {
            assert_eq!(report, "cannot reload /tmp/a.md: denied");
            assert_eq!(notice, "Cannot reload a.md. Showing the last content that could be read (denied)");
        }
        _ => panic!("expected a problem"),
    }
}

#[test]
fn a_reload_for_another_document_is_ignored() {
    assert!(matches!(reload(Some(shown("/tmp/b.md")), "/tmp/a.md", Ok(String::new())), Reload::Ignore));
    assert!(matches!(reload(None, "/tmp/a.md", Ok(String::new())), Reload::Ignore));
}

#[test]
fn notices_events_on_the_watched_path() {
    let paths = vec!["/tmp/other.md".to_string(), "/tmp/a.md".to_string()];
    assert!(touches(&paths, "/tmp/a.md"));
    assert!(!touches(&paths, "/tmp/c.md"));
    assert!(!touches(&Vec::new(), "/tmp/a.md"));
}

#[test]
fn watches_the_directory_of_the_file() {
    assert_eq!(watch_directory("/tmp/a.md").unwrap(), "/tmp");
    assert_eq!(watch_directory("/").unwrap_err(), "the file has no directory");
    assert_eq!(
        watch_problem("/tmp/a.md", "too many watches"),
        "Cannot watch a.md. Saving it will not update the view (too many watches)"
    );
    assert_eq!(file_name("/tmp/a.md"), "a.md");
    assert_eq!(file_name("/"), "/");
}

#[test]
fn the_next_document_is_one_generation_and_version_on() {
    assert_eq!(next_numbers(&shown("/tmp/a.md")), (3, 6));
}

#[test]
fn reads_again_only_the_shown_file() {
    assert!(mdsight::standalone::is_shown(&Some(shown("/tmp/a.md")), "/tmp/a.md"));
    assert!(!mdsight::standalone::is_shown(&Some(shown("/tmp/b.md")), "/tmp/a.md"));
    assert!(!mdsight::standalone::is_shown(&None, "/tmp/a.md"));
}

#[test]
fn files_without_an_extension_are_not_markdown() {
    assert!(!is_markdown("/tmp/README"));
    assert!(!is_markdown("/tmp/note."));
    assert!(!is_markdown("/tmp/.md"));
}
