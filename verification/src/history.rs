//! Back / forward history of documents opened through links.
use vstd::prelude::*;
use crate::state::{Document, Documents};
use crate::text::is_err_with;

verus! {

/// Where a document was being read: the source line of the block near the top of the
/// view, and the offset inside the view (the bits of the frontend's floating-point value).
#[derive(Clone, Copy, Debug, PartialEq, Eq)]
pub struct Anchor {
    pub line: u64,
    pub offset_bits: u64,
}

/// One history entry: a document's path and where it was being read.
#[derive(Clone, Debug, PartialEq, Eq)]
pub struct HistoryEntry {
    pub path: String,
    pub anchor: Option<Anchor>,
}

impl HistoryEntry {
    pub fn copy(&self) -> (r: HistoryEntry)
        ensures
            r == *self,
    {
        HistoryEntry { path: self.path.clone(), anchor: self.anchor }
    }
}

/// The least the frontend needs to show a document opened through a link or the history.
/// Going back or forward also gives back where that document was being read.
#[derive(Clone, Copy, Debug)]
pub struct NavigationTarget {
    pub generation: u64,
    pub version: u64,
    pub anchor: Option<Anchor>,
}

impl NavigationTarget {
    /// The target that shows `document` from its top.
    pub fn from_document(document: &Document) -> (r: NavigationTarget)
        ensures
            r.generation == document.generation,
            r.version == document.version,
            r.anchor is None,
    {
        NavigationTarget { generation: document.generation, version: document.version, anchor: None }
    }
}

/// Whether going back and going forward are possible.
#[derive(Clone, Copy, Debug)]
pub struct HistoryAvailability {
    pub can_back: bool,
    pub can_forward: bool,
}

/// The history of documents opened through links. Only this side decides which paths may be
/// opened again.
pub struct History {
    pub back: Vec<HistoryEntry>,
    pub forward: Vec<HistoryEntry>,
    /// In the Neovim mode, the generation that this side's own last switch leads to. It tells
    /// a content update caused by this side from one caused by `:MdSight` and the like.
    pub expected_generation: Option<u64>,
}

/// The history taken as plain sequences.
pub struct HistoryModel {
    pub back: Seq<HistoryEntry>,
    pub forward: Seq<HistoryEntry>,
    pub expected: Option<u64>,
}

impl View for History {
    type V = HistoryModel;

    open spec fn view(&self) -> HistoryModel {
        HistoryModel { back: self.back@, forward: self.forward@, expected: self.expected_generation }
    }
}

/// Following a link: the document left goes on the back stack, the forward stack empties.
pub open spec fn followed(h: HistoryModel, left: HistoryEntry) -> HistoryModel {
    HistoryModel { back: h.back.push(left), forward: Seq::empty(), ..h }
}

/// Taking the entry to open when going back (`back`) or forward.
pub open spec fn taken(h: HistoryModel, back: bool) -> (HistoryModel, Option<HistoryEntry>) {
    if back {
        if h.back.len() == 0 {
            (h, None)
        } else {
            (HistoryModel { back: h.back.drop_last(), ..h }, Some(h.back.last()))
        }
    } else {
        if h.forward.len() == 0 {
            (h, None)
        } else {
            (HistoryModel { forward: h.forward.drop_last(), ..h }, Some(h.forward.last()))
        }
    }
}

/// Having arrived, the document left goes on the opposite stack.
pub open spec fn arrived(h: HistoryModel, back: bool, left: HistoryEntry) -> HistoryModel {
    if back {
        HistoryModel { forward: h.forward.push(left), ..h }
    } else {
        HistoryModel { back: h.back.push(left), ..h }
    }
}

/// Having failed to open it, the entry taken goes back where it came from.
pub open spec fn put_back_model(h: HistoryModel, back: bool, entry: HistoryEntry) -> HistoryModel {
    if back {
        HistoryModel { back: h.back.push(entry), ..h }
    } else {
        HistoryModel { forward: h.forward.push(entry), ..h }
    }
}

/// A switch to `generation` that this side did not ask for empties both stacks; the one it
/// asked for only uses up the marker.
pub open spec fn reset_model(h: HistoryModel, generation: u64) -> (HistoryModel, bool) {
    if h.expected == Some(generation) {
        (HistoryModel { expected: None, ..h }, false)
    } else {
        (HistoryModel { back: Seq::empty(), forward: Seq::empty(), ..h }, true)
    }
}

/// Forgetting the marker for `generation` after a failed request (a used marker stays gone).
pub open spec fn cancelled(h: HistoryModel, generation: u64) -> HistoryModel {
    if h.expected == Some(generation) {
        HistoryModel { expected: None, ..h }
    } else {
        h
    }
}

pub open spec fn expected_model(h: HistoryModel, generation: u64) -> HistoryModel {
    HistoryModel { expected: Some(generation), ..h }
}

impl History {
    pub fn new() -> (r: History)
        ensures
            r@.back.len() == 0,
            r@.forward.len() == 0,
            r@.expected is None,
    {
        History { back: Vec::new(), forward: Vec::new(), expected_generation: None }
    }

    /// Moved to another document through a link.
    pub fn follow_link(&mut self, left: HistoryEntry)
        ensures
            final(self)@ == followed(old(self)@, left),
    {
        self.back.push(left);
        self.forward.clear();
    }

    /// Takes the entry to open when going back (`back`) or forward.
    pub fn take(&mut self, back: bool) -> (r: Option<HistoryEntry>)
        ensures
            (final(self)@, r) == taken(old(self)@, back),
    {
        if back {
            self.back.pop()
        } else {
            self.forward.pop()
        }
    }

    /// Opened: the document left goes on the opposite stack.
    pub fn arrive(&mut self, back: bool, left: HistoryEntry)
        ensures
            final(self)@ == arrived(old(self)@, back, left),
    {
        if back {
            self.forward.push(left);
        } else {
            self.back.push(left);
        }
    }

    /// Not opened: the entry taken goes back where it was.
    pub fn put_back(&mut self, back: bool, entry: HistoryEntry)
        ensures
            final(self)@ == put_back_model(old(self)@, back, entry),
    {
        if back {
            self.back.push(entry);
        } else {
            self.forward.push(entry);
        }
    }

    /// Remembers, before Neovim is asked, that this side's own switch leads to `generation`.
    /// The content may arrive before Neovim's reply.
    pub fn expect(&mut self, generation: u64)
        ensures
            final(self)@ == expected_model(old(self)@, generation),
    {
        self.expected_generation = Some(generation);
    }

    /// The request failed: forgets what `expect` remembered, unless content already used it.
    pub fn cancel(&mut self, generation: u64)
        ensures
            final(self)@ == cancelled(old(self)@, generation),
    {
        if self.expected_generation == Some(generation) {
            self.expected_generation = None;
        }
    }

    /// The target generation changed. Unless this side asked for the switch, empties the
    /// history; returns whether the switch came from elsewhere.
    pub fn reset_if_unexpected(&mut self, generation: u64) -> (r: bool)
        ensures
            (final(self)@, r) == reset_model(old(self)@, generation),
    {
        if self.expected_generation == Some(generation) {
            self.expected_generation = None;
            false
        } else {
            self.back.clear();
            self.forward.clear();
            true
        }
    }

    /// Whether the back and forward buttons can be used.
    pub fn availability(&self) -> (r: HistoryAvailability)
        ensures
            r.can_back == (self@.back.len() > 0),
            r.can_forward == (self@.forward.len() > 0),
    {
        HistoryAvailability { can_back: self.back.len() > 0, can_forward: self.forward.len() > 0 }
    }
}

impl History {
    /// Going back (`back`) or forward: takes the entry to open. Without a shown document, or
    /// with nothing to go to, fails and leaves the history as it was.
    pub fn begin_navigation(&mut self, documents: &Documents, back: bool) -> (r: Result<
        HistoryEntry,
        String,
    >)
        ensures
            documents.slot is None ==> final(self)@ == old(self)@ && is_err_with(r, "no document"@),
            documents.slot is Some ==> match taken(old(self)@, back) {
                (h, Some(e)) => final(self)@ == h && r == Ok::<HistoryEntry, String>(e),
                (h, None) => final(self)@ == old(self)@ && is_err_with(r, "no more history"@),
            },
    {
        if documents.slot.is_none() {
            return Err(String::from_str("no document"));
        }
        match self.take(back) {
            Some(entry) => Ok(entry),
            None => Err(String::from_str("no more history")),
        }
    }

    /// Going back or forward, once the outcome of opening `target` is known. Opened: the
    /// document left goes on the opposite stack and the target keeps where `target` was being
    /// read. Not opened: `target` goes back where it was taken from.
    pub fn finish_navigation(
        &mut self,
        back: bool,
        target: HistoryEntry,
        left: HistoryEntry,
        opened: Result<NavigationTarget, String>,
    ) -> (r: Result<NavigationTarget, String>)
        ensures
            match opened {
                Ok(nav) => final(self)@ == arrived(old(self)@, back, left) && (r matches Ok(t)
                    && t.generation == nav.generation && t.version == nav.version && t.anchor
                    == target.anchor),
                Err(m) => final(self)@ == put_back_model(old(self)@, back, target) && r
                    == Err::<NavigationTarget, String>(m),
            },
    {
        match opened {
            Ok(navigation) => {
                self.arrive(back, left);
                Ok(
                    NavigationTarget {
                        generation: navigation.generation,
                        version: navigation.version,
                        anchor: target.anchor,
                    },
                )
            },
            Err(message) => {
                self.put_back(back, target);
                Err(message)
            },
        }
    }

    /// Following a relative link, once the outcome of opening it is known. Opened: the
    /// document left goes on the back stack and the forward stack empties. Not opened: the
    /// history stays as it was.
    pub fn finish_link(&mut self, left: HistoryEntry, opened: Result<NavigationTarget, String>) -> (r:
        Result<NavigationTarget, String>)
        ensures
            r == opened,
            opened is Ok ==> final(self)@ == followed(old(self)@, left),
            opened is Err ==> final(self)@ == old(self)@,
    {
        if opened.is_ok() {
            self.follow_link(left);
        }
        opened
    }

    /// Before Neovim is asked to open another file while `current` is shown: opening it
    /// always moves the target one generation on, so that generation is expected now.
    pub fn begin_nvim_open(&mut self, current: &Document) -> (expected: u64)
        requires
            current.generation < u64::MAX,
        ensures
            expected == current.generation + 1,
            final(self)@ == expected_model(old(self)@, expected),
    {
        let expected = current.generation + 1;
        self.expect(expected);
        expected
    }

    /// Neovim's reply to the request to open a file: the new generation and version, or why
    /// it declined. A failed request forgets the expected generation.
    pub fn finish_nvim_open(&mut self, expected: u64, reply: Result<(u64, u64), String>) -> (r:
        Result<NavigationTarget, String>)
        ensures
            match reply {
                Ok((g, v)) => final(self)@ == old(self)@ && (r matches Ok(t) && t.generation == g
                    && t.version == v && t.anchor is None),
                Err(m) => final(self)@ == cancelled(old(self)@, expected) && r
                    == Err::<NavigationTarget, String>(m),
            },
    {
        match reply {
            Ok((generation, version)) => Ok(NavigationTarget { generation, version, anchor: None }),
            Err(message) => {
                self.cancel(expected);
                Err(message)
            },
        }
    }
}

/// Putting back the entry just taken restores the history.
pub proof fn law_put_back_undoes_take(h: HistoryModel, back: bool)
    ensures
        taken(h, back).1 matches Some(e) ==> put_back_model(taken(h, back).0, back, e) == h,
{
    if back && h.back.len() > 0 {
        assert(h.back.drop_last().push(h.back.last()) =~= h.back);
    }
    if !back && h.forward.len() > 0 {
        assert(h.forward.drop_last().push(h.forward.last()) =~= h.forward);
    }
}

/// Going back right after following a link leads to the document the link was followed from.
pub proof fn law_back_after_link(h: HistoryModel, left: HistoryEntry)
    ensures
        taken(followed(h, left), true).1 == Some(left),
        taken(followed(h, left), true).0.back == h.back,
        followed(h, left).forward.len() == 0,
{
    assert(h.back.push(left).drop_last() =~= h.back);
}

/// Going the other way right after arriving leads back to the document just left, and
/// restores the history.
pub proof fn law_return_after_arrival(h: HistoryModel, back: bool, left: HistoryEntry)
    ensures
        taken(arrived(h, back, left), !back) == (h, Some(left)),
{
    assert(h.back.push(left).drop_last() =~= h.back);
    assert(h.forward.push(left).drop_last() =~= h.forward);
}

/// A completed move back or forward keeps the number of entries in the history.
pub proof fn law_navigation_keeps_entries(h: HistoryModel, back: bool, left: HistoryEntry)
    ensures
        taken(h, back).1 is Some ==> {
            let after = arrived(taken(h, back).0, back, left);
            after.back.len() + after.forward.len() == h.back.len() + h.forward.len()
        },
{
}

/// A switch that this side expected keeps the history and uses up the marker.
pub proof fn law_expected_switch_keeps_history(h: HistoryModel, generation: u64)
    ensures
        reset_model(expected_model(h, generation), generation) == (
            HistoryModel { expected: None, ..h },
            false,
        ),
{
}

/// A switch that this side did not expect empties both stacks.
pub proof fn law_unexpected_switch_clears(h: HistoryModel, generation: u64)
    requires
        h.expected != Some(generation),
    ensures
        reset_model(h, generation).1,
        reset_model(h, generation).0.back.len() == 0,
        reset_model(h, generation).0.forward.len() == 0,
{
}

/// After a failed request, a later switch to the generation it expected counts as unexpected.
pub proof fn law_failed_request_is_unexpected(h: HistoryModel, generation: u64)
    ensures
        reset_model(cancelled(expected_model(h, generation), generation), generation).1,
{
}

/// Cancelling a marker that content already used leaves no marker behind.
pub proof fn law_used_marker_stays_gone(h: HistoryModel, generation: u64)
    ensures
        cancelled(reset_model(expected_model(h, generation), generation).0, generation).expected
            is None,
{
}

} // verus!
