//! What the preview shows: the newest document, cursor line and search matches.
use vstd::prelude::*;
use crate::text::is_err_with;

verus! {

/// One rendered document, as sent to the frontend.
#[derive(Debug)]
pub struct Document {
    pub generation: u64,
    pub version: u64,
    pub path: String,
    pub html: String,
}

impl Document {
    /// A field-for-field copy.
    pub fn copy(&self) -> (r: Document)
        ensures
            r == *self,
    {
        Document {
            generation: self.generation,
            version: self.version,
            path: self.path.clone(),
            html: self.html.clone(),
        }
    }
}

/// Whether `(generation, version)` comes strictly after `(g, v)` in lexicographic order.
pub open spec fn newer(generation: u64, version: u64, g: u64, v: u64) -> bool {
    generation > g || (generation == g && version > v)
}

/// Offering `document` to what is held: whether it is taken, and what is held afterwards.
pub open spec fn accept_model(held: Option<Document>, document: Document) -> (bool, Option<Document>) {
    match held {
        None => (true, Some(document)),
        Some(c) => if newer(document.generation, document.version, c.generation, c.version) {
            (true, Some(document))
        } else {
            (false, held)
        },
    }
}

/// Holds only the document with the newest generation and version.
pub struct Documents {
    pub slot: Option<Document>,
}

impl Documents {
    pub fn new() -> (r: Documents)
        ensures
            r.slot is None,
    {
        Documents { slot: None }
    }

    /// Keeps `document` when it is newer than the one held (or none is held).
    pub fn accept(&mut self, document: Document) -> (accepted: bool)
        ensures
            (accepted, final(self).slot) == accept_model(old(self).slot, document),
    {
        let take = match &self.slot {
            None => true,
            Some(current) => document.generation > current.generation || (document.generation
                == current.generation && document.version > current.version),
        };
        if take {
            self.slot = Some(document);
        }
        take
    }

    pub fn current(&self) -> (r: Option<Document>)
        ensures
            r == self.slot,
    {
        match &self.slot {
            Some(d) => Some(d.copy()),
            None => None,
        }
    }
}

/// The name for `Path::parent` on a path given as text (`None` for a root or an empty path).
pub uninterp spec fn spec_parent(path: Seq<char>) -> Option<Seq<char>>;

/// The directory that contains a path (`std::path::Path::parent`). The result is only named.
#[verifier::external_body]
pub fn parent_of(path: &str) -> (r: Option<String>)
    ensures
        spec_parent(path@) == match r { Some(p) => Some(p@), None => None::<Seq<char>> },
{
    std::path::Path::new(path).parent().map(|p| p.to_string_lossy().into_owned())
}

impl Documents {
    /// The shown document and its directory, against which relative images and links resolve.
    /// Fails when nothing is shown, when `version` is not the shown version, or when the
    /// document's path has no directory.
    pub fn current_with_base(&self, version: u64) -> (r: Result<(Document, String), String>)
        ensures
            self.slot is None ==> is_err_with(r, "no document"@),
            self.slot matches Some(d) ==> {
                if d.version != version {
                    is_err_with(r, "the document has moved on"@)
                } else {
                    match spec_parent(d.path@) {
                        None => is_err_with(r, "the document has no directory"@),
                        Some(base) => r matches Ok((doc, b)) && doc == d && b@ == base,
                    }
                }
            },
    {
        let document = match self.current() {
            Some(d) => d,
            None => return Err(String::from_str("no document")),
        };
        if document.version != version {
            return Err(String::from_str("the document has moved on"));
        }
        match parent_of(document.path.as_str()) {
            Some(base) => Ok((document, base)),
            None => Err(String::from_str("the document has no directory")),
        }
    }
}

/// The cursor line in Neovim, for the generation it belongs to.
#[derive(Clone, Copy, Debug)]
pub struct Cursor {
    pub generation: u64,
    pub line: u64,
}

/// Keeps the latest cursor line, for a frontend that missed it while starting.
pub struct Cursors {
    pub slot: Option<Cursor>,
}

impl Cursors {
    pub fn new() -> (r: Cursors)
        ensures
            r.slot is None,
    {
        Cursors { slot: None }
    }

    pub fn accept(&mut self, cursor: Cursor)
        ensures
            final(self).slot == Some(cursor),
    {
        self.slot = Some(cursor);
    }

    pub fn current(&self) -> (r: Option<Cursor>)
        ensures
            r == self.slot,
    {
        self.slot
    }
}

/// One match of the Neovim search: its line, the text matched, and whether it is the current one.
#[derive(Debug)]
pub struct SearchMatch {
    pub line: u64,
    pub text: String,
    pub current: bool,
}

impl SearchMatch {
    pub fn copy(&self) -> (r: SearchMatch)
        ensures
            r == *self,
    {
        SearchMatch { line: self.line, text: self.text.clone(), current: self.current }
    }
}

/// The matches of the Neovim search; none clears the highlighting.
#[derive(Debug)]
pub struct Search {
    pub generation: u64,
    pub version: u64,
    pub matches: Vec<SearchMatch>,
}

impl Search {
    pub fn copy(&self) -> (r: Search)
        ensures
            r.generation == self.generation,
            r.version == self.version,
            r.matches@ == self.matches@,
    {
        let mut matches: Vec<SearchMatch> = Vec::new();
        let mut i: usize = 0;
        while i < self.matches.len()
            invariant
                i <= self.matches@.len(),
                matches@ == self.matches@.subrange(0, i as int),
            decreases self.matches.len() - i,
        {
            matches.push(self.matches[i].copy());
            i = i + 1;
            assert(matches@ =~= self.matches@.subrange(0, i as int));
        }
        assert(self.matches@.subrange(0, i as int) =~= self.matches@);
        Search { generation: self.generation, version: self.version, matches }
    }
}

/// Keeps the latest search matches, for a frontend that missed them while starting.
pub struct Searches {
    pub slot: Option<Search>,
}

impl Searches {
    pub fn new() -> (r: Searches)
        ensures
            r.slot is None,
    {
        Searches { slot: None }
    }

    pub fn accept(&mut self, search: Search)
        ensures
            final(self).slot == Some(search),
    {
        self.slot = Some(search);
    }

    pub fn current(&self) -> (r: Option<Search>)
        ensures
            match (r, self.slot) {
                (Some(a), Some(b)) => a.generation == b.generation && a.version == b.version && a.matches@
                    == b.matches@,
                (None, None) => true,
                _ => false,
            },
    {
        match &self.slot {
            Some(search) => Some(search.copy()),
            None => None,
        }
    }
}

/// Holds the connection to Neovim, for the requests that the preview sends it.
pub struct Session<C> {
    pub connection: Option<C>,
}

impl<C: Clone> Session<C> {
    pub fn new() -> (r: Session<C>)
        ensures
            r.connection is None,
    {
        Session { connection: None }
    }

    pub fn open(&mut self, connection: C)
        ensures
            final(self).connection == Some(connection),
    {
        self.connection = Some(connection);
    }

    /// A handle on the connection, if one is open.
    pub fn get(&self) -> (r: Option<C>)
        ensures
            r is Some == self.connection is Some,
            r matches Some(c) ==> cloned(self.connection->0, c),
    {
        match &self.connection {
            Some(c) => Some(c.clone()),
            None => None,
        }
    }
}

pub open spec fn text_option(o: Option<String>) -> Option<Seq<char>> {
    match o {
        Some(s) => Some(s@),
        None => None,
    }
}

/// The problem the window tells the user about (a failed reload, say). Detached from the
/// terminal, standard error is not seen, so the window shows it.
pub struct Problem {
    pub slot: Option<String>,
}

impl Problem {
    pub fn new() -> (r: Problem)
        ensures
            r.slot is None,
    {
        Problem { slot: None }
    }

    /// Sets the problem (`None` clears it). Returns whether it changed, that is whether the
    /// frontend is to be told.
    pub fn set(&mut self, problem: Option<String>) -> (changed: bool)
        ensures
            changed == (text_option(old(self).slot) != text_option(problem)),
            changed ==> final(self).slot == problem,
            !changed ==> final(self).slot == old(self).slot,
    {
        let same = match (&self.slot, &problem) {
            (None, None) => true,
            (Some(a), Some(b)) => crate::text::same_text(a.as_str(), b.as_str()),
            _ => false,
        };
        if same {
            return false;
        }
        self.slot = problem;
        true
    }

    pub fn current(&self) -> (r: Option<String>)
        ensures
            r == self.slot,
    {
        self.slot.clone()
    }
}

/// The mode the preview runs in, which decides how links are followed.
#[derive(Clone, Copy, Debug, PartialEq, Eq)]
pub enum RuntimeMode {
    Nvim,
    File,
}

impl RuntimeMode {
    pub fn as_str(self) -> (r: &'static str)
        ensures
            r@ == match self {
                RuntimeMode::Nvim => "nvim"@,
                RuntimeMode::File => "file"@,
            },
    {
        match self {
            RuntimeMode::Nvim => "nvim",
            RuntimeMode::File => "file",
        }
    }

    /// The window title, which tells the kinds of window apart.
    pub fn title(self) -> (r: &'static str)
        ensures
            r@ == match self {
                RuntimeMode::Nvim => "MdSight — Linked to Neovim"@,
                RuntimeMode::File => "MdSight — Read Only"@,
            },
    {
        match self {
            RuntimeMode::Nvim => "MdSight — Linked to Neovim",
            RuntimeMode::File => "MdSight — Read Only",
        }
    }
}

/// The colors in use, which pick the light or the dark app icon.
#[derive(Clone, Copy, Debug, PartialEq, Eq)]
pub enum Appearance {
    Light,
    Dark,
}

/// Only a strictly newer document replaces the one held: what is held never goes back to an
/// older generation and version, and a document is taken exactly when it is newer.
pub proof fn law_documents_never_go_back(held: Option<Document>, offered: Document)
    ensures
        held matches Some(c) ==> (accept_model(held, offered).1 matches Some(a) && (a == c || newer(
            a.generation,
            a.version,
            c.generation,
            c.version,
        ))),
        accept_model(held, offered).0 <==> (held is None || newer(
            offered.generation,
            offered.version,
            held->0.generation,
            held->0.version,
        )),
{
}

/// A document offered while another is held is taken exactly when its generation is higher,
/// or its generation is the same and its version higher; then it is what is held.
pub proof fn law_newer_is_lexicographic(c: Document, d: Document)
    ensures
        accept_model(Some(c), d).0 <==> (d.generation > c.generation || (d.generation
            == c.generation && d.version > c.version)),
        accept_model(Some(c), d).1 == if accept_model(Some(c), d).0 {
            Some(d)
        } else {
            Some(c)
        },
        accept_model(None, d) == (true, Some(d)),
{
}

/// Offering the same document twice takes it only once.
pub proof fn law_same_document_taken_once(held: Option<Document>, offered: Document)
    ensures
        !accept_model(accept_model(held, offered).1, offered).0,
{
}

} // verus!
