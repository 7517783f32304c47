//! Resolving relative image paths and Markdown links against the shown document's directory.
use vstd::prelude::*;
use crate::text::{chars_of, same_text, push_char};

verus! {

/// The name for what `percent_encoding::percent_decode_str(raw).decode_utf8_lossy()` gives:
/// `raw` with `%XX` sequences decoded, invalid UTF-8 replaced by U+FFFD.
pub uninterp spec fn spec_percent_decode(raw: Seq<char>) -> Seq<char>;

/// Percent-decodes a text, decoding the bytes as UTF-8 lossily
/// (`percent_encoding::percent_decode_str`, `decode_utf8_lossy`). The result is only named.
#[verifier::external_body]
fn percent_decode(raw: &str) -> (r: String)
    ensures
        r@ == spec_percent_decode(raw@),
{
    percent_encoding::percent_decode_str(raw).decode_utf8_lossy().to_string()
}

/// A path joined onto another, as `Path::join` does on Unix: an absolute second path (one that
/// starts with `/`) replaces the first; otherwise the two are put together, with a `/` between
/// them unless the first is empty or already ends with one.
pub open spec fn joined_path(base: Seq<char>, relative: Seq<char>) -> Seq<char> {
    if relative.len() > 0 && relative[0] == '/' {
        relative
    } else if base.len() > 0 && base.last() != '/' {
        base + seq!['/'] + relative
    } else {
        base + relative
    }
}

/// `base` joined with another path (`std::path::Path::join`, on Unix; see `joined_path`).
#[verifier::external_body]
pub(crate) fn path_join(base: &str, relative: &str) -> (r: String)
    ensures
        r@ == joined_path(base@, relative@),
{
    std::path::Path::new(base).join(relative).to_string_lossy().into_owned()
}

/// The name for `Path::file_name` (the last component, `None` when the path ends in `..` or is a
/// root or empty).
pub uninterp spec fn spec_file_name(path: Seq<char>) -> Option<Seq<char>>;

/// The last component of a path (`std::path::Path::file_name`). The result is only named.
#[verifier::external_body]
pub fn file_name_of(path: &str) -> (r: Option<String>)
    ensures
        spec_file_name(path@) == match r { Some(n) => Some(n@), None => None::<Seq<char>> },
{
    std::path::Path::new(path).file_name().map(|name| name.to_string_lossy().into_owned())
}

/// The name for `str::to_lowercase` (Unicode lower case).
pub uninterp spec fn spec_to_lowercase(s: Seq<char>) -> Seq<char>;

/// A text in lower case (`str::to_lowercase`). The result is only named.
#[verifier::external_body]
pub fn to_lowercase(s: &str) -> (r: String)
    ensures
        r@ == spec_to_lowercase(s@),
{
    s.to_lowercase()
}

/// The position of the last `.` in a name, or -1.
pub open spec fn last_dot(name: Seq<char>) -> int
    decreases name.len(),
{
    if name.len() == 0 {
        -1
    } else if name.last() == '.' {
        name.len() - 1
    } else {
        last_dot(name.drop_last())
    }
}

/// The extension of a file name, as `Path::extension` documents it: none without a `.`, none
/// when the only `.` starts the name, else what follows the last `.`.
pub open spec fn name_extension(name: Seq<char>) -> Option<Seq<char>> {
    let dot = last_dot(name);
    if dot <= 0 {
        None
    } else {
        Some(name.subrange(dot + 1, name.len() as int))
    }
}

/// The extension of a path: that of its file name.
pub open spec fn path_extension(path: Seq<char>) -> Option<Seq<char>> {
    match spec_file_name(path) {
        Some(name) => name_extension(name),
        None => None,
    }
}

/// The extension of a file name (see `name_extension`).
pub fn extension_of_name(name: &str) -> (r: Option<String>)
    ensures
        match r { Some(e) => Some(e@), None => None::<Seq<char>> } == name_extension(name@),
{
    let chars = chars_of(name);
    let mut i = chars.len();
    assert(chars@.subrange(0, i as int) =~= chars@);
    while i > 0 && chars[i - 1] != '.'
        invariant
            i <= chars.len(),
            chars@ == name@,
            last_dot(name@) == last_dot(chars@.subrange(0, i as int)),
        decreases i,
    {
        assert(chars@.subrange(0, i as int).drop_last() =~= chars@.subrange(0, i - 1));
        i = i - 1;
    }
    if i > 0 {
        assert(chars@.subrange(0, i as int).last() == '.');
    } else {
        assert(chars@.subrange(0, 0).len() == 0);
    }
    if i <= 1 {
        return None;
    }
    let mut out = String::new();
    let mut k = i;
    while k < chars.len()
        invariant
            i <= k <= chars.len(),
            out@ == chars@.subrange(i as int, k as int),
        decreases chars.len() - k,
    {
        push_char(&mut out, chars[k]);
        k = k + 1;
        assert(out@ =~= chars@.subrange(i as int, k as int));
    }
    Some(out)
}

/// The extension of a path, if it has one (see `path_extension`).
pub fn extension_of(path: &str) -> (r: Option<String>)
    ensures
        match r { Some(e) => Some(e@), None => None::<Seq<char>> } == path_extension(path@),
{
    match file_name_of(path) {
        Some(name) => extension_of_name(name.as_str()),
        None => None,
    }
}

/// The lower-case extension of a path: empty when it has none (or an empty one), with nothing
/// lowered then.
pub open spec fn lower_extension(path: Seq<char>) -> Seq<char> {
    match path_extension(path) {
        Some(e) => if e.len() == 0 {
            Seq::empty()
        } else {
            spec_to_lowercase(e)
        },
        None => Seq::empty(),
    }
}

pub fn lower_extension_of(path: &str) -> (r: String)
    ensures
        r@ == lower_extension(path@),
{
    match extension_of(path) {
        Some(e) => if e.as_str().unicode_len() == 0 {
            String::new()
        } else {
            to_lowercase(e.as_str())
        },
        None => String::new(),
    }
}

/// Which extensions a path may have.
#[derive(Clone, Copy, Debug, PartialEq, Eq)]
pub enum Allowed {
    /// png, jpg, jpeg, gif, webp, svg
    Images,
    /// md, markdown
    Markdown,
}

pub open spec fn allowed_extensions(allowed: Allowed) -> Seq<Seq<char>> {
    match allowed {
        Allowed::Images => seq!["png"@, "jpg"@, "jpeg"@, "gif"@, "webp"@, "svg"@],
        Allowed::Markdown => seq!["md"@, "markdown"@],
    }
}

/// Whether `extension` is one of the allowed ones.
pub fn is_allowed(allowed: Allowed, extension: &str) -> (r: bool)
    ensures
        r == allowed_extensions(allowed).contains(extension@),
        r == match allowed {
            Allowed::Images => extension@ == "png"@ || extension@ == "jpg"@ || extension@ == "jpeg"@
                || extension@ == "gif"@ || extension@ == "webp"@ || extension@ == "svg"@,
            Allowed::Markdown => extension@ == "md"@ || extension@ == "markdown"@,
        },
{
    let r = match allowed {
        Allowed::Images => same_text(extension, "png") || same_text(extension, "jpg") || same_text(
            extension,
            "jpeg",
        ) || same_text(extension, "gif") || same_text(extension, "webp") || same_text(
            extension,
            "svg",
        ),
        Allowed::Markdown => same_text(extension, "md") || same_text(extension, "markdown"),
    };
    proof {
        let list = allowed_extensions(allowed);
        if r {
            assert(exists|j: int| 0 <= j < list.len() && list[j] == extension@) by {
                if allowed == Allowed::Images {
                    if extension@ == "png"@ { assert(list[0] == extension@); }
                    else if extension@ == "jpg"@ { assert(list[1] == extension@); }
                    else if extension@ == "jpeg"@ { assert(list[2] == extension@); }
                    else if extension@ == "gif"@ { assert(list[3] == extension@); }
                    else if extension@ == "webp"@ { assert(list[4] == extension@); }
                    else { assert(list[5] == extension@); }
                } else {
                    if extension@ == "md"@ { assert(list[0] == extension@); }
                    else { assert(list[1] == extension@); }
                }
            }
        }
    }
    r
}

/// A relative path joined onto the document's directory, waiting for the file system to say
/// what it resolves to.
pub struct PendingPath {
    pub candidate: String,
    pub allowed: Allowed,
}

/// The first step of resolving: the percent-decoded text must be a relative path; it is then
/// joined onto `base`.
pub open spec fn pending_of(base: Seq<char>, raw: Seq<char>, allowed: Allowed) -> Result<
    (Seq<char>, Allowed),
    Seq<char>,
> {
    let decoded = spec_percent_decode(raw);
    if decoded.len() > 0 && decoded[0] == '/' {
        Err(raw + " is not a relative path"@)
    } else {
        Ok((joined_path(base, decoded), allowed))
    }
}

pub open spec fn pending_view(r: Result<PendingPath, String>) -> Result<(Seq<char>, Allowed), Seq<char>> {
    match r {
        Ok(p) => Ok((p.candidate@, p.allowed)),
        Err(m) => Err(m@),
    }
}

fn resolve_with_extensions(base: &str, raw: &str, allowed: Allowed) -> (r: Result<PendingPath, String>)
    ensures
        pending_view(r) == pending_of(base@, raw@, allowed),
{
    let decoded = percent_decode(raw);
    let chars = chars_of(decoded.as_str());
    // `join` replaces the base when given an absolute path, so only relative paths are taken
    if chars.len() > 0 && chars[0] == '/' {
        let mut message = String::from_str(raw);
        message.append(" is not a relative path");
        return Err(message);
    }
    let candidate = path_join(base, decoded.as_str());
    Ok(PendingPath { candidate, allowed })
}

/// Resolves an image path of the document against its directory `base`. Percent-encoding is
/// decoded; absolute paths are refused. What the file system makes of the joined path is
/// checked by `PendingPath::accept`.
pub fn resolve(base: &str, raw: &str) -> (r: Result<PendingPath, String>)
    ensures
        pending_view(r) == pending_of(base@, raw@, Allowed::Images),
{
    resolve_with_extensions(base, raw, Allowed::Images)
}

/// Resolves a relative `.md` / `.markdown` link of the document against its directory `base`,
/// like `resolve`.
pub fn resolve_markdown_link(base: &str, raw: &str) -> (r: Result<PendingPath, String>)
    ensures
        pending_view(r) == pending_of(base@, raw@, Allowed::Markdown),
{
    resolve_with_extensions(base, raw, Allowed::Markdown)
}

/// The outcome, once the file system has resolved the joined path (following symbolic links):
/// the real path and whether it is a file, or why it could not be resolved. Only an existing
/// file with an allowed extension is accepted.
pub open spec fn accepted(
    candidate: Seq<char>,
    allowed: Allowed,
    lookup: Result<(Seq<char>, bool), Seq<char>>,
) -> Result<Seq<char>, Seq<char>> {
    match lookup {
        Err(err) => Err("cannot resolve "@ + candidate + ": "@ + err),
        Ok((resolved, is_file)) => if !is_file {
            Err(resolved + " is not a file"@)
        } else if !allowed_extensions(allowed).contains(lower_extension(resolved)) {
            Err(lower_extension(resolved) + " is not an allowed extension"@)
        } else {
            Ok(resolved)
        },
    }
}

pub open spec fn lookup_view(lookup: Result<(String, bool), String>) -> Result<(Seq<char>, bool), Seq<char>> {
    match lookup {
        Ok((p, f)) => Ok((p@, f)),
        Err(e) => Err(e@),
    }
}

pub open spec fn text_result(r: Result<String, String>) -> Result<Seq<char>, Seq<char>> {
    match r {
        Ok(s) => Ok(s@),
        Err(e) => Err(e@),
    }
}

impl PendingPath {
    /// Accepts the real path when it is a file with an allowed extension (see `accepted`).
    pub fn accept(&self, lookup: Result<(String, bool), String>) -> (r: Result<String, String>)
        ensures
            text_result(r) == accepted(self.candidate@, self.allowed, lookup_view(lookup)),
    {
        match lookup {
            Err(err) => {
                let mut message = String::from_str("cannot resolve ");
                message.append(self.candidate.as_str());
                message.append(": ");
                message.append(err.as_str());
                Err(message)
            },
            Ok((resolved, is_file)) => {
                if !is_file {
                    let mut message = resolved;
                    message.append(" is not a file");
                    return Err(message);
                }
                let extension = lower_extension_of(resolved.as_str());
                if !is_allowed(self.allowed, extension.as_str()) {
                    let mut message = extension;
                    message.append(" is not an allowed extension");
                    return Err(message);
                }
                Ok(resolved)
            },
        }
    }
}

/// A relative path lands inside the document's directory: the candidate is that directory, a
/// `/`, and the decoded path.
pub proof fn law_relative_paths_join_the_directory(base: Seq<char>, raw: Seq<char>, allowed: Allowed)
    requires
        base.len() > 0,
        base.last() != '/',
        !(spec_percent_decode(raw).len() > 0 && spec_percent_decode(raw)[0] == '/'),
    ensures
        pending_of(base, raw, allowed) == Ok::<(Seq<char>, Allowed), Seq<char>>(
            (base + seq!['/'] + spec_percent_decode(raw), allowed),
        ),
{
}

/// A path that decodes to an absolute one is refused before the file system is asked, however
/// it was encoded.
pub proof fn law_absolute_paths_refused(base: Seq<char>, raw: Seq<char>, allowed: Allowed)
    requires
        spec_percent_decode(raw).len() > 0,
        spec_percent_decode(raw)[0] == '/',
    ensures
        pending_of(base, raw, allowed) is Err,
{
}

/// Only existing files whose lower-case extension is allowed are accepted, under their real path.
pub proof fn law_only_allowed_files_accepted(
    candidate: Seq<char>,
    allowed: Allowed,
    lookup: Result<(Seq<char>, bool), Seq<char>>,
)
    ensures
        accepted(candidate, allowed, lookup) matches Ok(resolved) ==> lookup == Ok::<
            (Seq<char>, bool),
            Seq<char>,
        >((resolved, true)) && allowed_extensions(allowed).contains(lower_extension(resolved)),
{
}

/// A file without an extension (or with an empty one) is never accepted, whatever is allowed.
pub proof fn law_files_without_extension_refused(
    candidate: Seq<char>,
    allowed: Allowed,
    resolved: Seq<char>,
)
    requires
        path_extension(resolved) matches Some(e) ==> e.len() == 0,
    ensures
        lower_extension(resolved) == Seq::<char>::empty(),
        accepted(candidate, allowed, Ok((resolved, true))) == Err::<Seq<char>, Seq<char>>(
            " is not an allowed extension"@,
        ),
{
    let ext = lower_extension(resolved);
    assert(ext =~= Seq::<char>::empty());
    assert(Seq::<char>::empty() + " is not an allowed extension"@ =~= " is not an allowed extension"@);
    assert(!allowed_extensions(allowed).contains(ext)) by {
        let list = allowed_extensions(allowed);
        if list.contains(ext) {
            let k = choose|k: int| 0 <= k < list.len() && list[k] == ext;
            assert(list[k].len() == 0);
            assert(list[k].len() > 0) by {
                reveal_strlit("png");
                reveal_strlit("jpg");
                reveal_strlit("jpeg");
                reveal_strlit("gif");
                reveal_strlit("webp");
                reveal_strlit("svg");
                reveal_strlit("md");
                reveal_strlit("markdown");
            }
        }
    }
}

proof fn lemma_allowed_extensions_listed(allowed: Allowed, e: Seq<char>)
    ensures
        allowed_extensions(allowed).contains(e) == match allowed {
            Allowed::Images => e == "png"@ || e == "jpg"@ || e == "jpeg"@ || e == "gif"@ || e
                == "webp"@ || e == "svg"@,
            Allowed::Markdown => e == "md"@ || e == "markdown"@,
        },
{
    let list = allowed_extensions(allowed);
    if list.contains(e) {
        let k = choose|k: int| 0 <= k < list.len() && list[k] == e;
        assert(list[k] == e);
    }
    match allowed {
        Allowed::Images => {
            if e == "png"@ { assert(list[0] == e); }
            else if e == "jpg"@ { assert(list[1] == e); }
            else if e == "jpeg"@ { assert(list[2] == e); }
            else if e == "gif"@ { assert(list[3] == e); }
            else if e == "webp"@ { assert(list[4] == e); }
            else if e == "svg"@ { assert(list[5] == e); }
        },
        Allowed::Markdown => {
            if e == "md"@ { assert(list[0] == e); }
            else if e == "markdown"@ { assert(list[1] == e); }
        },
    }
}

/// An existing file is accepted as an image exactly when its lower-case extension is png, jpg,
/// jpeg, gif, webp or svg, and as a Markdown link target exactly when it is md or markdown;
/// what is accepted is the file's real path.
pub proof fn law_listed_extensions_accepted(candidate: Seq<char>, allowed: Allowed, resolved: Seq<char>)
    ensures
        ({
            let e = lower_extension(resolved);
            &&& accepted(candidate, Allowed::Images, Ok((resolved, true))) is Ok <==> (e == "png"@
                || e == "jpg"@ || e == "jpeg"@ || e == "gif"@ || e == "webp"@ || e == "svg"@)
            &&& accepted(candidate, Allowed::Markdown, Ok((resolved, true))) is Ok <==> (e == "md"@
                || e == "markdown"@)
            &&& accepted(candidate, allowed, Ok((resolved, true))) is Ok ==> accepted(
                candidate,
                allowed,
                Ok((resolved, true)),
            ) == Ok::<Seq<char>, Seq<char>>(resolved)
        }),
{
    lemma_allowed_extensions_listed(Allowed::Images, lower_extension(resolved));
    lemma_allowed_extensions_listed(Allowed::Markdown, lower_extension(resolved));
}

/// The whole resolution of `raw` against `base`, with `lookup` standing for what the file
/// system says of a joined path (its real path and whether it is a file, or why not).
pub open spec fn resolution(
    base: Seq<char>,
    raw: Seq<char>,
    allowed: Allowed,
    lookup: spec_fn(Seq<char>) -> Result<(Seq<char>, bool), Seq<char>>,
) -> Result<Seq<char>, Seq<char>> {
    match pending_of(base, raw, allowed) {
        Err(e) => Err(e),
        Ok((candidate, a)) => accepted(candidate, a, lookup(candidate)),
    }
}

/// Resolving succeeds exactly when the decoded path is relative, the file system resolves the
/// joined path to a file, and that real file's lower-case extension is allowed; the result is
/// that real path.
pub proof fn law_resolution(
    base: Seq<char>,
    raw: Seq<char>,
    allowed: Allowed,
    lookup: spec_fn(Seq<char>) -> Result<(Seq<char>, bool), Seq<char>>,
)
    ensures
        ({
            let decoded = spec_percent_decode(raw);
            let candidate = joined_path(base, decoded);
            &&& resolution(base, raw, allowed, lookup) is Ok <==> (!(decoded.len() > 0 && decoded[0]
                == '/') && (lookup(candidate) matches Ok((p, f)) && f && allowed_extensions(
                allowed,
            ).contains(lower_extension(p))))
            &&& resolution(base, raw, allowed, lookup) matches Ok(p) ==> lookup(candidate) == Ok::<
                (Seq<char>, bool),
                Seq<char>,
            >((p, true))
        }),
{
}

} // verus!
