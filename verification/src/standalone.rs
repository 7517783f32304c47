//! The standalone (read-only) mode: a Markdown file read from disk and reloaded when it changes.
use vstd::prelude::*;
use crate::image::{file_name_of, spec_file_name, lower_extension, lower_extension_of};
use crate::render::{to_html, html_of};
use crate::state::Document;
use crate::text::same_text;

verus! {

/// Whether a path names a Markdown file: its extension, in lower case, is `md` or `markdown`.
pub open spec fn markdown_path(path: Seq<char>) -> bool {
    lower_extension(path) == "md"@ || lower_extension(path) == "markdown"@
}

pub fn is_markdown(path: &str) -> (r: bool)
    ensures
        r == markdown_path(path@),
{
    let extension = lower_extension_of(path);
    same_text(extension.as_str(), "md") || same_text(extension.as_str(), "markdown")
}

/// What the file system said of a path given to open: its real (canonical) path and whether
/// it is a file, or why it could not be resolved. Only existing Markdown files are opened.
pub open spec fn opened(path: Seq<char>, lookup: Result<(Seq<char>, bool), Seq<char>>) -> Result<
    Seq<char>,
    Seq<char>,
> {
    match lookup {
        Err(err) => Err("cannot open "@ + path + ": "@ + err),
        Ok((canonical, is_file)) => if !is_file {
            Err(canonical + " is not a file"@)
        } else if !markdown_path(canonical) {
            Err(canonical + " is not a markdown file"@)
        } else {
            Ok(canonical)
        },
    }
}

/// Checks a path given to open (see `opened`); gives its canonical path.
pub fn check_path(path: &str, lookup: Result<(String, bool), String>) -> (r: Result<String, String>)
    ensures
        crate::image::text_result(r) == opened(path@, crate::image::lookup_view(lookup)),
{
    match lookup {
        Err(err) => {
            let mut message = String::from_str("cannot open ");
            message.append(path);
            message.append(": ");
            message.append(err.as_str());
            Err(message)
        },
        Ok((canonical, is_file)) => {
            if !is_file {
                let mut message = canonical;
                message.append(" is not a file");
                return Err(message);
            }
            if !is_markdown(canonical.as_str()) {
                let mut message = canonical;
                message.append(" is not a markdown file");
                return Err(message);
            }
            Ok(canonical)
        },
    }
}

/// The document for a file's text, or why the text could not be read.
pub open spec fn document_of(
    canonical: Seq<char>,
    contents: Result<Seq<char>, Seq<char>>,
    generation: u64,
    version: u64,
) -> Result<(u64, u64, Seq<char>, Seq<char>), Seq<char>> {
    match contents {
        Err(err) => Err("cannot read "@ + canonical + ": "@ + err),
        Ok(markdown) => Ok((generation, version, canonical, html_of(markdown))),
    }
}

pub open spec fn document_view(r: Result<Document, String>) -> Result<(u64, u64, Seq<char>, Seq<char>), Seq<char>> {
    match r {
        Ok(d) => Ok((d.generation, d.version, d.path@, d.html@)),
        Err(m) => Err(m@),
    }
}

/// Opens another document (through a link or the history) with the given generation and version.
pub fn open(canonical: &str, contents: Result<String, String>, generation: u64, version: u64) -> (r:
    Result<Document, String>)
    ensures
        document_view(r) == document_of(canonical@, crate::image::text_result(contents), generation, version),
{
    match contents {
        Err(err) => {
            let mut message = String::from_str("cannot read ");
            message.append(canonical);
            message.append(": ");
            message.append(err.as_str());
            Err(message)
        },
        Ok(markdown) => Ok(
            Document {
                generation,
                version,
                path: String::from_str(canonical),
                html: to_html(markdown.as_str()),
            },
        ),
    }
}

/// The first document shown: generation 1, version 1.
pub fn load(canonical: &str, contents: Result<String, String>) -> (r: Result<Document, String>)
    ensures
        document_view(r) == document_of(canonical@, crate::image::text_result(contents), 1, 1),
{
    open(canonical, contents, 1, 1)
}

/// The last part of a path, for messages (the whole path when it has none).
pub open spec fn display_name(path: Seq<char>) -> Seq<char> {
    match spec_file_name(path) {
        Some(name) => name,
        None => path,
    }
}

pub fn file_name(path: &str) -> (r: String)
    ensures
        r@ == display_name(path@),
{
    match file_name_of(path) {
        Some(name) => name,
        None => String::from_str(path),
    }
}

/// The name for `Path` equality (component by component) on paths given as text.
pub uninterp spec fn spec_same_path(a: Seq<char>, b: Seq<char>) -> bool;

/// Whether two paths are equal as `std::path::Path`s. The result is only named.
#[verifier::external_body]
pub fn same_path(a: &str, b: &str) -> (r: bool)
    ensures
        r == spec_same_path(a@, b@),
{
    std::path::Path::new(a) == std::path::Path::new(b)
}

/// Whether a file system event concerns the watched path.
pub fn touches(event_paths: &Vec<String>, path: &str) -> (r: bool)
    ensures
        r == exists|i: int| 0 <= i < event_paths@.len() && spec_same_path(#[trigger] event_paths@[i]@, path@),
{
    let mut i: usize = 0;
    while i < event_paths.len()
        invariant
            i <= event_paths@.len(),
            forall|j: int| 0 <= j < i ==> !spec_same_path(#[trigger] event_paths@[j]@, path@),
        decreases event_paths.len() - i,
    {
        if same_path(event_paths[i].as_str(), path) {
            return true;
        }
        i = i + 1;
    }
    false
}

/// What a reload after a change of the watched file leads to.
pub enum Reload {
    /// The watched file is no longer the one shown (or nothing is shown): nothing to do.
    Ignore,
    /// Show the document read again, and clear any earlier problem.
    Publish(Document),
    /// Keep showing what was read last; tell the window (and the log) why.
    Problem { report: String, notice: String },
}

/// Reloads keep the generation and move the version one on. A failed reload leaves what is
/// shown as it is.
pub open spec fn reload_matches(
    current: Option<Document>,
    path: Seq<char>,
    contents: Result<Seq<char>, Seq<char>>,
    r: Reload,
) -> bool {
    match current {
        None => r is Ignore,
        Some(c) => if !spec_same_path(c.path@, path) {
            r is Ignore
        } else {
            match contents {
                Ok(markdown) => r matches Reload::Publish(d) && d.generation == c.generation && d.version
                    == c.version + 1 && d.path@ == c.path@ && d.html@ == html_of(markdown),
                Err(err) => r matches Reload::Problem { report, notice } && report@ == "cannot reload "@
                    + path + ": "@ + err && notice@ == "Cannot reload "@ + display_name(path)
                    + ". Showing the last content that could be read ("@ + err + ")"@,
            }
        },
    }
}

/// Whether the watched file `path` is the document shown (only then is it read again).
pub fn is_shown(current: &Option<Document>, path: &str) -> (r: bool)
    ensures
        r == (current matches Some(c) && spec_same_path(c.path@, path@)),
{
    match current {
        Some(c) => same_path(c.path.as_str(), path),
        None => false,
    }
}

/// Decides what to do once the watched file `path` has changed and was read again.
pub fn reload(current: Option<Document>, path: &str, contents: Result<String, String>) -> (r: Reload)
    requires
        current matches Some(c) ==> (contents is Ok ==> c.version < u64::MAX),
    ensures
        reload_matches(current, path@, crate::image::text_result(contents), r),
{
    let current = match current {
        Some(c) => c,
        None => return Reload::Ignore,
    };
    // after a link or the history moved on, this watch no longer concerns what is shown
    if !same_path(current.path.as_str(), path) {
        return Reload::Ignore;
    }
    match contents {
        Ok(markdown) => Reload::Publish(
            Document {
                generation: current.generation,
                version: current.version + 1,
                path: current.path,
                html: to_html(markdown.as_str()),
            },
        ),
        Err(err) => {
            let mut report = String::from_str("cannot reload ");
            report.append(path);
            report.append(": ");
            report.append(err.as_str());
            let mut notice = String::from_str("Cannot reload ");
            let name = file_name(path);
            notice.append(name.as_str());
            notice.append(". Showing the last content that could be read (");
            notice.append(err.as_str());
            notice.append(")");
            Reload::Problem { report, notice }
        },
    }
}

/// The notice when the file cannot be watched.
pub fn watch_problem(path: &str, message: &str) -> (r: String)
    ensures
        r@ == "Cannot watch "@ + display_name(path@) + ". Saving it will not update the view ("@
            + message@ + ")"@,
{
    let mut notice = String::from_str("Cannot watch ");
    let name = file_name(path);
    notice.append(name.as_str());
    notice.append(". Saving it will not update the view (");
    notice.append(message);
    notice.append(")");
    notice
}

/// The directory to watch for a file: its parent. Editors may save under another name and
/// then rename, so the directory is watched rather than the file.
pub fn watch_directory(path: &str) -> (r: Result<String, String>)
    ensures
        match crate::state::spec_parent(path@) {
            Some(dir) => r matches Ok(d) && d@ == dir,
            None => crate::text::is_err_with(r, "the file has no directory"@),
        },
{
    match crate::state::parent_of(path) {
        Some(dir) => Ok(dir),
        None => Err(String::from_str("the file has no directory")),
    }
}

/// The generation and version for the next document opened through a link or the history.
pub fn next_numbers(current: &Document) -> (r: (u64, u64))
    requires
        current.generation < u64::MAX,
        current.version < u64::MAX,
    ensures
        r.0 == current.generation + 1,
        r.1 == current.version + 1,
{
    (current.generation + 1, current.version + 1)
}

/// A reload of the shown file is always newer than what is shown, so the preview takes it.
pub proof fn law_reload_is_shown(
    current: Document,
    path: Seq<char>,
    contents: Result<Seq<char>, Seq<char>>,
    r: Reload,
)
    requires
        reload_matches(Some(current), path, contents, r),
    ensures
        r matches Reload::Publish(d) ==> crate::state::accept_model(Some(current), d).0,
{
}

/// A document opened with the next generation is newer than the one shown, so the preview
/// takes it.
pub proof fn law_next_document_is_shown(current: Document, next: Document)
    requires
        current.generation < u64::MAX,
        next.generation == current.generation + 1,
    ensures
        crate::state::accept_model(Some(current), next) == (true, Some(next)),
{
}

/// Only Markdown files that exist are opened.
pub proof fn law_only_markdown_files_open(path: Seq<char>, lookup: Result<(Seq<char>, bool), Seq<char>>)
    ensures
        opened(path, lookup) matches Ok(canonical) ==> lookup == Ok::<(Seq<char>, bool), Seq<char>>(
            (canonical, true),
        ) && markdown_path(canonical),
{
}

/// A file without an extension (or with an empty one) is not a Markdown file.
pub proof fn law_files_without_extension_are_not_markdown(path: Seq<char>)
    requires
        crate::image::path_extension(path) matches Some(e) ==> e.len() == 0,
    ensures
        !markdown_path(path),
{
    reveal_strlit("md");
    reveal_strlit("markdown");
    assert(lower_extension(path) =~= Seq::<char>::empty());
}

/// Loading a file given at launch, with `lookup` for what the file system says of the path and
/// `read` for reading a canonical path.
pub open spec fn loading(
    path: Seq<char>,
    lookup: Result<(Seq<char>, bool), Seq<char>>,
    read: spec_fn(Seq<char>) -> Result<Seq<char>, Seq<char>>,
) -> Result<(u64, u64, Seq<char>, Seq<char>), Seq<char>> {
    match opened(path, lookup) {
        Err(e) => Err(e),
        Ok(canonical) => document_of(canonical, read(canonical), 1, 1),
    }
}

/// A launch loads exactly an existing Markdown file that can be read, as generation 1,
/// version 1, under its canonical path, rendered.
pub proof fn law_loading(
    path: Seq<char>,
    lookup: Result<(Seq<char>, bool), Seq<char>>,
    read: spec_fn(Seq<char>) -> Result<Seq<char>, Seq<char>>,
)
    ensures
        loading(path, lookup, read) is Ok <==> (lookup matches Ok((c, f)) && f && markdown_path(c)
            && read(c) is Ok),
        loading(path, lookup, read) matches Ok((g, v, c, html)) ==> g == 1 && v == 1 && lookup
            == Ok::<(Seq<char>, bool), Seq<char>>((c, true)) && (read(c) matches Ok(markdown) && html
            == html_of(markdown)),
{
}

} // verus!
