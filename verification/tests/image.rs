use mdsight::image::{resolve, resolve_markdown_link, extension_of_name, PendingPath};

fn pending(result: Result<PendingPath, String>) -> PendingPath {
    match result {
        Ok(p) => p,
        Err(message) => panic!("expected a candidate: {message}"),
    }
}

#[test]
fn rejects_an_absolute_path() {
    assert!(resolve("/tmp/base", "/tmp/absolute-target/img/a.png").is_err());
    assert!(resolve_markdown_link("/tmp/base", "/tmp/absolute-target/other.md").is_err());
}

#[test]
fn rejects_an_absolute_path_hidden_by_percent_encoding() {
    assert!(resolve("/tmp/base", "%2Ftmp%2Fa.png").is_err());
}

#[test]
fn rejects_a_network_path() {
    assert!(resolve("/tmp/base", "//host/a.png").is_err());
    assert!(resolve_markdown_link("/tmp/base", "//host/a.md").is_err());
}

#[test]
fn joins_a_decoded_relative_path_onto_the_directory() {
    let p = pending(resolve("/tmp/base", "img/a%20b.png"));
    assert_eq!(p.candidate, "/tmp/base/img/a b.png");
    let up = pending(resolve_markdown_link("/tmp/base/img", "../other.md"));
    assert_eq!(up.candidate, "/tmp/base/img/../other.md");
}

#[test]
fn says_which_text_was_not_relative() {
    match resolve("/tmp/base", "%2Fetc%2Fpasswd") {
        Err(message) => assert_eq!(message, "%2Fetc%2Fpasswd is not a relative path"),
        Ok(_) => panic!("expected an error"),
    }
}

#[test]
fn accepts_only_an_existing_file_with_an_allowed_extension() {
    let image = pending(resolve("/tmp/base", "img/a.PNG"));
    assert_eq!(image.accept(Ok(("/tmp/base/img/a.PNG".to_string(), true))).unwrap(), "/tmp/base/img/a.PNG");
    assert_eq!(
        image.accept(Ok(("/tmp/base/img/a.PNG".to_string(), false))).unwrap_err(),
        "/tmp/base/img/a.PNG is not a file"
    );
    assert_eq!(
        image.accept(Ok(("/tmp/base/img/notes.txt".to_string(), true))).unwrap_err(),
        "txt is not an allowed extension"
    );
    assert_eq!(
        image.accept(Err("No such file or directory (os error 2)".to_string())).unwrap_err(),
        "cannot resolve /tmp/base/img/a.PNG: No such file or directory (os error 2)"
    );
}

#[test]
fn markdown_links_take_md_and_markdown_only() {
    let link = pending(resolve_markdown_link("/tmp/base", "other.md"));
    assert!(link.accept(Ok(("/tmp/base/other.md".to_string(), true))).is_ok());
    assert!(link.accept(Ok(("/tmp/base/other.markdown".to_string(), true))).is_ok());
    assert!(link.accept(Ok(("/tmp/base/a.png".to_string(), true))).is_err());
    assert_eq!(
        link.accept(Ok(("/tmp/base/README".to_string(), true))).unwrap_err(),
        " is not an allowed extension"
    );
}

#[test]
fn finds_extensions_like_the_standard_library() {
    assert_eq!(extension_of_name("a.tar.gz"), Some("gz".to_string()));
    assert_eq!(extension_of_name(".bashrc"), None);
    assert_eq!(extension_of_name("noext"), None);
    assert_eq!(extension_of_name("a."), Some(String::new()));
    assert_eq!(extension_of_name(".a.md"), Some("md".to_string()));
}

#[test]
fn joins_onto_a_directory_ending_in_a_slash_without_doubling_it() {
    let p = pending(resolve("/tmp/base/", "a.png"));
    assert_eq!(p.candidate, "/tmp/base/a.png");
}

#[test]
fn refuses_images_without_an_extension() {
    let image = pending(resolve("/tmp/base", "img/picture"));
    assert_eq!(
        image.accept(Ok(("/tmp/base/img/picture".to_string(), true))).unwrap_err(),
        " is not an allowed extension"
    );
    assert_eq!(
        image.accept(Ok(("/tmp/base/img/picture.".to_string(), true))).unwrap_err(),
        " is not an allowed extension"
    );
}
