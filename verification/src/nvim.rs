//! Messages from Neovim: reading the values it sends, and which content update to show.
use vstd::prelude::*;
use crate::history::{History, reset_model};
use crate::render::{to_html, html_of};
use crate::state::{Cursor, Document};
use crate::text::{same_text, push_char};

verus! {

/// A MessagePack integer: non-negative ones as `u64`, negative ones as `i64`.
#[derive(Clone, Copy, Debug)]
pub enum MsgInt {
    Pos(u64),
    Neg(i64),
}

/// A value Neovim sends over MessagePack-RPC (floats, binaries and extensions are `Other`;
/// a string that is not valid UTF-8 is `Text(None)`).
#[derive(Debug)]
pub enum MsgValue {
    Nil,
    Boolean(bool),
    Integer(MsgInt),
    Text(Option<String>),
    Array(Vec<MsgValue>),
    Dict(Vec<(MsgValue, MsgValue)>),
    Other,
}

pub open spec fn as_u64(v: MsgValue) -> Option<u64> {
    match v {
        MsgValue::Integer(MsgInt::Pos(n)) => Some(n),
        _ => None,
    }
}

pub open spec fn as_text(v: MsgValue) -> Option<Seq<char>> {
    match v {
        MsgValue::Text(Some(s)) => Some(s@),
        _ => None,
    }
}

pub open spec fn as_bool(v: MsgValue) -> Option<bool> {
    match v {
        MsgValue::Boolean(b) => Some(b),
        _ => None,
    }
}

/// The value of the first entry whose key is the string `key`.
pub open spec fn find_entry(pairs: Seq<(MsgValue, MsgValue)>, key: Seq<char>) -> Option<MsgValue>
    decreases pairs.len(),
{
    if pairs.len() == 0 {
        None
    } else if as_text(pairs[0].0) == Some(key) {
        Some(pairs[0].1)
    } else {
        find_entry(pairs.drop_first(), key)
    }
}

/// A map's value under `key` is that of the first entry whose key is the string `key`; with no
/// such entry there is none.
pub proof fn law_first_entry_found(pairs: Seq<(MsgValue, MsgValue)>, key: Seq<char>, k: int)
    ensures
        0 <= k < pairs.len() && as_text(pairs[k].0) == Some(key) && (forall|m: int|
            0 <= m < k ==> as_text(#[trigger] pairs[m].0) != Some(key)) ==> find_entry(pairs, key)
            == Some(pairs[k].1),
        (forall|m: int| 0 <= m < pairs.len() ==> as_text(#[trigger] pairs[m].0) != Some(key))
            ==> find_entry(pairs, key) is None,
    decreases pairs.len(),
{
    if pairs.len() > 0 {
        let rest = pairs.drop_first();
        law_first_entry_found(rest, key, k - 1);
        if (forall|m: int| 0 <= m < pairs.len() ==> as_text(#[trigger] pairs[m].0) != Some(key)) {
            assert(as_text(pairs[0].0) != Some(key));
            assert forall|m: int| 0 <= m < rest.len() implies as_text(#[trigger] rest[m].0) != Some(
                key,
            ) by {
                assert(rest[m] == pairs[m + 1]);
            }
        }
        if 0 < k < pairs.len() && as_text(pairs[k].0) == Some(key) && (forall|m: int|
            0 <= m < k ==> as_text(#[trigger] pairs[m].0) != Some(key)) {
            assert(as_text(pairs[0].0) != Some(key));
            assert(rest[k - 1] == pairs[k]);
            assert forall|m: int| 0 <= m < k - 1 implies as_text(#[trigger] rest[m].0) != Some(key) by {
                assert(rest[m] == pairs[m + 1]);
            }
        }
    }
}

/// The value under `key` of a map (none for anything but a map).
pub open spec fn field_of(v: MsgValue, key: Seq<char>) -> Option<MsgValue> {
    match v {
        MsgValue::Dict(pairs) => find_entry(pairs@, key),
        _ => None,
    }
}

pub open spec fn u64_field(v: MsgValue, key: Seq<char>) -> Option<u64> {
    match field_of(v, key) {
        Some(x) => as_u64(x),
        None => None,
    }
}

fn u64_of(v: &MsgValue) -> (r: Option<u64>)
    ensures
        r == as_u64(*v),
{
    match v {
        MsgValue::Integer(MsgInt::Pos(n)) => Some(*n),
        _ => None,
    }
}

fn text_of(v: &MsgValue) -> (r: Option<&String>)
    ensures
        match r { Some(s) => as_text(*v) == Some(s@), None => as_text(*v) is None },
{
    match v {
        MsgValue::Text(Some(s)) => Some(s),
        _ => None,
    }
}

/// The value under `key` of a map.
pub fn field<'a>(value: &'a MsgValue, key: &str) -> (r: Option<&'a MsgValue>)
    ensures
        match r { Some(x) => field_of(*value, key@) == Some(*x), None => field_of(*value, key@) is None },
{
    match value {
        MsgValue::Dict(pairs) => {
            let mut i: usize = 0;
            assert(pairs@.skip(0) =~= pairs@);
            while i < pairs.len()
                invariant
                    i <= pairs@.len(),
                    field_of(*value, key@) == find_entry(pairs@, key@),
                    find_entry(pairs@, key@) == find_entry(pairs@.skip(i as int), key@),
                decreases pairs.len() - i,
            {
                assert(pairs@.skip(i as int)[0] == pairs@[i as int]);
                assert(pairs@.skip(i as int).drop_first() =~= pairs@.skip(i + 1));
                let matched = match text_of(&pairs[i].0) {
                    Some(name) => same_text(name.as_str(), key),
                    None => false,
                };
                if matched {
                    assert(as_text(pairs@[i as int].0) == Some(key@));
                    assert(pairs@.skip(i as int).len() > 0);
                    assert(find_entry(pairs@.skip(i as int), key@) == Some(pairs@[i as int].1));
                    return Some(&pairs[i].1);
                }
                i = i + 1;
            }
            None
        },
        _ => None,
    }
}

fn u64_field_of(value: &MsgValue, key: &str) -> (r: Option<u64>)
    ensures
        r == u64_field(*value, key@),
{
    match field(value, key) {
        Some(x) => u64_of(x),
        None => None,
    }
}

/// The target generation a value carries under `gen`.
pub open spec fn generation_of(v: MsgValue) -> Option<u64> {
    u64_field(v, "gen"@)
}

/// Whether a content update follows a move inside the previewed window (`follow`; no by default).
pub open spec fn follows_window(v: MsgValue) -> bool {
    match field_of(v, "follow"@) {
        Some(x) => as_bool(x) == Some(true),
        None => false,
    }
}

/// Whether a content update follows a move inside the previewed window.
pub fn follows(value: &MsgValue) -> (r: bool)
    ensures
        r == follows_window(*value),
{
    match field(value, "follow") {
        Some(MsgValue::Boolean(b)) => *b,
        _ => false,
    }
}

/// The generation of a register result (0 when missing).
pub fn document_generation(value: &MsgValue) -> (r: u64)
    ensures
        r == match generation_of(*value) { Some(g) => g, None => 0 },
{
    match u64_field_of(value, "gen") {
        Some(g) => g,
        None => 0,
    }
}

/// The `{gen, line}` of a cursor notification.
pub fn cursor_from(value: &MsgValue) -> (r: Option<Cursor>)
    ensures
        match r {
            Some(c) => generation_of(*value) == Some(c.generation) && u64_field(*value, "line"@) == Some(c.line),
            None => generation_of(*value) is None || u64_field(*value, "line"@) is None,
        },
{
    let generation = u64_field_of(value, "gen")?;
    let line = u64_field_of(value, "line")?;
    Some(Cursor { generation, line })
}

/// The `{gen, version}` that a request to open a file returns; none when Neovim declined
/// (`false`).
pub fn open_result(value: &MsgValue) -> (r: Option<(u64, u64)>)
    ensures
        match r {
            Some((g, v)) => generation_of(*value) == Some(g) && u64_field(*value, "version"@) == Some(v),
            None => generation_of(*value) is None || u64_field(*value, "version"@) is None,
        },
{
    let generation = u64_field_of(value, "gen")?;
    let version = u64_field_of(value, "version")?;
    Some((generation, version))
}

/// The text of one line of the buffer (empty for anything but a string).
pub open spec fn line_text(v: MsgValue) -> Seq<char> {
    match as_text(v) {
        Some(t) => t,
        None => Seq::empty(),
    }
}

/// The lines joined with `\n`.
pub open spec fn joined(items: Seq<MsgValue>) -> Seq<char>
    decreases items.len(),
{
    if items.len() == 0 {
        Seq::empty()
    } else if items.len() == 1 {
        line_text(items[0])
    } else {
        joined(items.drop_last()) + seq!['\n'] + line_text(items.last())
    }
}

/// A single line is its own text.
pub proof fn law_joined_single_line(x: MsgValue)
    ensures
        joined(seq![x]) == line_text(x),
{
}

/// The buffer's text is its lines with a newline between each two: two runs of lines joined
/// one after the other are the first run's text, `\n`, and the second run's text.
pub proof fn law_joined_lines_are_newline_separated(xs: Seq<MsgValue>, ys: Seq<MsgValue>)
    requires
        xs.len() > 0,
        ys.len() > 0,
    ensures
        joined(xs + ys) == joined(xs) + seq!['\n'] + joined(ys),
    decreases ys.len(),
{
    if ys.len() == 1 {
        assert((xs + ys).drop_last() =~= xs);
        assert((xs + ys).last() == ys[0]);
    } else {
        law_joined_lines_are_newline_separated(xs, ys.drop_last());
        assert((xs + ys).drop_last() =~= xs + ys.drop_last());
        assert((xs + ys).last() == ys.last());
        assert(joined(xs + ys) =~= joined(xs) + seq!['\n'] + joined(ys.drop_last()) + seq!['\n']
            + line_text(ys.last()));
    }
}

fn join_lines(items: &Vec<MsgValue>) -> (r: String)
    ensures
        r@ == joined(items@),
{
    let mut out = String::new();
    let mut i: usize = 0;
    while i < items.len()
        invariant
            i <= items@.len(),
            out@ == joined(items@.subrange(0, i as int)),
        decreases items.len() - i,
    {
        if i > 0 {
            push_char(&mut out, '\n');
        }
        match text_of(&items[i]) {
            Some(t) => out.append(t.as_str()),
            None => {},
        }
        assert(items@.subrange(0, i + 1).drop_last() =~= items@.subrange(0, i as int));
        i = i + 1;
        assert(out@ =~= joined(items@.subrange(0, i as int)));
    }
    assert(items@.subrange(0, i as int) =~= items@);
    out
}

/// The document in a register result: its target generation, version, absolute path and the
/// buffer's lines (rendered). Any of them missing gives none.
pub open spec fn document_matches(v: MsgValue, r: Option<Document>) -> bool {
    match field_of(v, "lines"@) {
        Some(MsgValue::Array(items)) => match (
            generation_of(v),
            u64_field(v, "version"@),
            match field_of(v, "path"@) { Some(p) => as_text(p), None => None },
        ) {
            (Some(g), Some(ver), Some(path)) => r matches Some(d) && d.generation == g && d.version
                == ver && d.path@ == path && d.html@ == html_of(joined(items@)),
            _ => r is None,
        },
        _ => r is None,
    }
}

/// Reads the document out of a register result or content notification.
pub fn document_from(value: &MsgValue) -> (r: Option<Document>)
    ensures
        document_matches(*value, r),
{
    let items = match field(value, "lines") {
        Some(MsgValue::Array(items)) => items,
        _ => return None,
    };
    let generation = u64_field_of(value, "gen")?;
    let version = u64_field_of(value, "version")?;
    let path = match field(value, "path") {
        Some(p) => match text_of(p) {
            Some(t) => t.clone(),
            None => return None,
        },
        None => return None,
    };
    let text = join_lines(items);
    Some(Document { generation, version, path, html: to_html(text.as_str()) })
}

/// Whether, going through the updates in order from the shown generation `previous`, some
/// update that changes the generation does not merely follow a move in the window (a switch by
/// `:MdSight` and the like).
pub open spec fn switched_by_command(values: Seq<MsgValue>, previous: Option<u64>) -> bool
    decreases values.len(),
{
    if values.len() == 0 {
        false
    } else {
        let generation = generation_of(values[0]);
        if generation != previous {
            !follows_window(values[0]) || switched_by_command(values.drop_first(), generation)
        } else {
            switched_by_command(values.drop_first(), previous)
        }
    }
}

/// The generation after going through the updates in order.
pub open spec fn generation_after(values: Seq<MsgValue>, previous: Option<u64>) -> Option<u64>
    decreases values.len(),
{
    if values.len() == 0 {
        previous
    } else {
        let generation = generation_of(values[0]);
        generation_after(values.drop_first(), if generation != previous { generation } else { previous })
    }
}

/// Of the queued content updates (`first`, then `rest`), only the last is shown. Also tells
/// whether, from the shown generation on, a change of generation came from something else than
/// following the window, so that dropping the updates in between does not change whether the
/// window comes to the front.
pub fn newest(first: MsgValue, rest: Vec<MsgValue>, shown: Option<u64>) -> (r: (MsgValue, bool))
    ensures
        r.0 == seq![first].add(rest@).last(),
        r.1 == switched_by_command(seq![first].add(rest@), shown),
{
    let ghost all = seq![first].add(rest@);
    let mut previous = shown;
    let mut raise = false;
    let generation = u64_field_of(&first, "gen");
    if generation != previous {
        raise = raise || !follows(&first);
        previous = generation;
    }
    assert(all.drop_first() =~= rest@);
    assert(all[0] == first);
    assert(rest@.skip(0) =~= rest@);
    let mut i: usize = 0;
    while i < rest.len()
        invariant
            i <= rest@.len(),
            all == seq![first].add(rest@),
            switched_by_command(all, shown) == (raise || switched_by_command(rest@.skip(i as int), previous)),
        decreases rest.len() - i,
    {
        assert(rest@.skip(i as int)[0] == rest@[i as int]);
        assert(rest@.skip(i as int).drop_first() =~= rest@.skip(i + 1));
        let generation = u64_field_of(&rest[i], "gen");
        if generation != previous {
            raise = raise || !follows(&rest[i]);
            previous = generation;
        }
        i = i + 1;
    }
    assert(rest@.skip(i as int).len() == 0);
    let mut rest = rest;
    match rest.pop() {
        Some(last) => (last, raise),
        None => (first, raise),
    }
}

/// Once the newest content update has been read: if the target generation moved away from the
/// shown one, finds out whether this side asked for it (and otherwise empties the history);
/// gives whether the window is to come to the front (only for a switch from elsewhere that did
/// not merely follow the window).
pub fn on_new_content(history: &mut History, shown: Option<u64>, generation: u64, raise: bool) -> (r:
    bool)
    ensures
        (shown matches Some(s) && s != generation) ==> final(history)@ == reset_model(
            old(history)@,
            generation,
        ).0 && r == (reset_model(old(history)@, generation).1 && raise),
        !(shown matches Some(s) && s != generation) ==> final(history)@ == old(history)@ && !r,
{
    let retargeted = match shown {
        Some(s) => s != generation,
        None => false,
    };
    if retargeted {
        let unexpected = history.reset_if_unexpected(generation);
        unexpected && raise
    } else {
        false
    }
}

/// Updates that all follow moves inside the previewed window never bring the window to the
/// front, however many of them are dropped.
pub proof fn law_following_never_raises(values: Seq<MsgValue>, previous: Option<u64>)
    requires
        forall|i: int| 0 <= i < values.len() ==> follows_window(#[trigger] values[i]),
    ensures
        !switched_by_command(values, previous),
    decreases values.len(),
{
    if values.len() > 0 {
        assert(follows_window(values[0]));
        assert forall|i: int| 0 <= i < values.drop_first().len() implies follows_window(
            #[trigger] values.drop_first()[i],
        ) by {
            assert(values.drop_first()[i] == values[i + 1]);
        }
        law_following_never_raises(values.drop_first(), generation_of(values[0]));
        law_following_never_raises(values.drop_first(), previous);
    }
}

/// Updates that keep the shown generation (edits) never bring the window to the front.
pub proof fn law_edits_never_raise(values: Seq<MsgValue>, previous: Option<u64>)
    requires
        forall|i: int| 0 <= i < values.len() ==> generation_of(#[trigger] values[i]) == previous,
    ensures
        !switched_by_command(values, previous),
    decreases values.len(),
{
    if values.len() > 0 {
        assert(generation_of(values[0]) == previous);
        assert forall|i: int| 0 <= i < values.drop_first().len() implies generation_of(
            #[trigger] values.drop_first()[i],
        ) == previous by {
            assert(values.drop_first()[i] == values[i + 1]);
        }
        law_edits_never_raise(values.drop_first(), previous);
    }
}

/// A switch of generation that does not follow the window, anywhere in the batch, brings the
/// window to the front, whatever comes after it.
pub proof fn law_command_switch_raises(values: Seq<MsgValue>, previous: Option<u64>)
    requires
        values.len() > 0,
        generation_of(values[0]) != previous,
        !follows_window(values[0]),
    ensures
        switched_by_command(values, previous),
{
}

/// The cursor line that a register result carries (`line`), for its generation (0 when missing).
pub open spec fn register_cursor_of(registered: MsgValue) -> Option<Cursor> {
    match u64_field(registered, "line"@) {
        Some(line) => Some(
            Cursor {
                generation: match generation_of(registered) {
                    Some(g) => g,
                    None => 0,
                },
                line,
            },
        ),
        None => None,
    }
}

/// The cursor line that a register result carries (see `register_cursor_of`).
pub fn register_cursor(registered: &MsgValue) -> (r: Option<Cursor>)
    ensures
        r == register_cursor_of(*registered),
{
    let line = u64_field_of(registered, "line")?;
    Some(Cursor { generation: document_generation(registered), line })
}

/// What a notification from Neovim asks for.
pub enum Notification {
    /// New buffer content (queued; only the newest is rendered).
    Content(MsgValue),
    /// The cursor moved.
    Cursor(Cursor),
    /// The preview is to close.
    Close,
    /// Anything else, or a notification without what it needs.
    Ignore,
}

/// Sorts a notification by its name: `mdsight_content` with its first argument,
/// `mdsight_cursor` with the cursor it carries, `mdsight_close`.
pub fn classify_notification(name: &str, args: Vec<MsgValue>) -> (r: Notification)
    ensures
        name@ == "mdsight_content"@ ==> (if args@.len() > 0 {
            r matches Notification::Content(v) && v == args@[0]
        } else {
            r is Ignore
        }),
        name@ == "mdsight_cursor"@ ==> (if args@.len() > 0 && generation_of(args@[0]) is Some && u64_field(
            args@[0],
            "line"@,
        ) is Some {
            r matches Notification::Cursor(c) && Some(c.generation) == generation_of(args@[0]) && Some(
                c.line,
            ) == u64_field(args@[0], "line"@)
        } else {
            r is Ignore
        }),
        name@ == "mdsight_close"@ ==> r is Close,
        name@ != "mdsight_content"@ && name@ != "mdsight_cursor"@ && name@ != "mdsight_close"@
            ==> r is Ignore,
{
    proof {
        reveal_strlit("mdsight_content");
        reveal_strlit("mdsight_cursor");
        reveal_strlit("mdsight_close");
        assert("mdsight_content"@.len() == 15);
        assert("mdsight_cursor"@.len() == 14);
        assert("mdsight_close"@.len() == 13);
    }
    if same_text(name, "mdsight_content") {
        let mut args = args;
        if args.len() > 0 {
            Notification::Content(args.remove(0))
        } else {
            Notification::Ignore
        }
    } else if same_text(name, "mdsight_cursor") {
        if args.len() > 0 {
            match cursor_from(&args[0]) {
                Some(c) => Notification::Cursor(c),
                None => Notification::Ignore,
            }
        } else {
            Notification::Ignore
        }
    } else if same_text(name, "mdsight_close") {
        Notification::Close
    } else {
        Notification::Ignore
    }
}

/// The generation before update `i` of a batch: the shown one before the first.
pub open spec fn generation_before(values: Seq<MsgValue>, shown: Option<u64>, i: int) -> Option<u64> {
    if i == 0 {
        shown
    } else {
        generation_of(values[i - 1])
    }
}

/// The window comes to the front exactly when some update of the batch changes the generation
/// from the one before it without merely following the window.
pub proof fn law_switch_is_some_unfollowed_change(values: Seq<MsgValue>, shown: Option<u64>)
    ensures
        switched_by_command(values, shown) <==> exists|i: int|
            0 <= i < values.len() && #[trigger] generation_of(values[i]) != generation_before(
                values,
                shown,
                i,
            ) && !follows_window(values[i]),
    decreases values.len(),
{
    if values.len() > 0 {
        let rest = values.drop_first();
        let g0 = generation_of(values[0]);
        law_switch_is_some_unfollowed_change(rest, g0);
        assert(switched_by_command(values, shown) == ((g0 != shown && !follows_window(values[0]))
            || switched_by_command(rest, g0)));
        if switched_by_command(rest, g0) {
            let j = choose|j: int|
                0 <= j < rest.len() && #[trigger] generation_of(rest[j]) != generation_before(rest, g0, j)
                    && !follows_window(rest[j]);
            assert(rest[j] == values[j + 1]);
            if j > 0 {
                assert(rest[j - 1] == values[j]);
            }
            assert(generation_of(values[j + 1]) != generation_before(values, shown, j + 1));
        }
        if exists|i: int|
            0 <= i < values.len() && #[trigger] generation_of(values[i]) != generation_before(
                values,
                shown,
                i,
            ) && !follows_window(values[i]) {
            let i = choose|i: int|
                0 <= i < values.len() && #[trigger] generation_of(values[i]) != generation_before(
                    values,
                    shown,
                    i,
                ) && !follows_window(values[i]);
            if i > 0 {
                assert(rest[i - 1] == values[i]);
                if i > 1 {
                    assert(rest[i - 2] == values[i - 1]);
                }
                assert(generation_of(rest[i - 1]) != generation_before(rest, g0, i - 1));
            }
        }
    }
}

/// The channel id in `nvim_get_api_info`'s reply: its first element.
pub fn channel_id(info: &Vec<MsgValue>) -> (r: Option<u64>)
    ensures
        r == if info@.len() > 0 { as_u64(info@[0]) } else { None },
{
    if info.len() > 0 {
        u64_of(&info[0])
    } else {
        None
    }
}

/// What registering with Neovim leads to: the document to show and the cursor line to
/// publish, or the refusal.
pub fn registration(registered: &MsgValue) -> (r: Result<(Document, Option<Cursor>), String>)
    ensures
        match r {
            Ok((d, c)) => document_matches(*registered, Some(d)) && c == register_cursor_of(*registered),
            Err(m) => document_matches(*registered, None) && m@ == "register was rejected"@,
        },
{
    match document_from(registered) {
        Some(document) => Ok((document, register_cursor(registered))),
        None => Err(String::from_str("register was rejected")),
    }
}

} // verus!
