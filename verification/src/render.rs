//! Markdown to GitHub-style HTML, with YAML front matter shown as a table.
use vstd::prelude::*;
use crate::text::{push_char, chars_of, is_blank, all_whitespace, white_space, is_whitespace};

verus! {

/// The text between `\n` characters (always at least one piece).
pub open spec fn split_newlines(s: Seq<char>) -> Seq<Seq<char>>
    decreases s.len(),
{
    if s.len() == 0 {
        seq![Seq::empty()]
    } else if s.last() == '\n' {
        split_newlines(s.drop_last()).push(Seq::empty())
    } else {
        let p = split_newlines(s.drop_last());
        p.update(p.len() - 1, p.last().push(s.last()))
    }
}

/// A line without the `\r` of a `\r\n` ending.
pub open spec fn strip_cr(line: Seq<char>) -> Seq<char> {
    if line.len() > 0 && line.last() == '\r' {
        line.drop_last()
    } else {
        line
    }
}

/// The lines of a text, as `str::lines` documents them: split at `\n` or `\r\n`, without the
/// line endings; the final line ending is optional.
pub open spec fn lines(s: Seq<char>) -> Seq<Seq<char>> {
    let pieces = split_newlines(s);
    if s.len() == 0 {
        Seq::empty()
    } else if s.last() == '\n' {
        Seq::new((pieces.len() - 1) as nat, |i: int| strip_cr(pieces[i]))
    } else {
        Seq::new(pieces.len(), |i: int| if i < pieces.len() - 1 { strip_cr(pieces[i]) } else { pieces[i] })
    }
}

proof fn lemma_split_nonempty(s: Seq<char>)
    ensures
        split_newlines(s).len() >= 1,
    decreases s.len(),
{
    if s.len() > 0 {
        lemma_split_nonempty(s.drop_last());
    }
}

fn strip_cr_vec(line: Vec<char>) -> (r: Vec<char>)
    ensures
        r@ == strip_cr(line@),
{
    let mut line = line;
    if line.len() > 0 && line[line.len() - 1] == '\r' {
        line.pop();
    }
    line
}

pub open spec fn views(v: Seq<Vec<char>>) -> Seq<Seq<char>> {
    v.map_values(|x: Vec<char>| x@)
}

/// Splits a text into its lines (see `lines`).
pub fn split_lines(text: &Vec<char>) -> (r: Vec<Vec<char>>)
    ensures
        views(r@) == lines(text@),
{
    let mut done: Vec<Vec<char>> = Vec::new();
    let mut cur: Vec<char> = Vec::new();
    let mut i: usize = 0;
    proof {
        assert(text@.subrange(0, 0) =~= Seq::<char>::empty());
        assert(views(done@) =~= Seq::new(0, |j: int| strip_cr(split_newlines(Seq::empty())[j])));
    }
    while i < text.len()
        invariant
            i <= text.len(),
            split_newlines(text@.subrange(0, i as int)).len() == done@.len() + 1,
            views(done@) =~= Seq::new(
                done@.len(),
                |j: int| strip_cr(split_newlines(text@.subrange(0, i as int))[j]),
            ),
            cur@ == split_newlines(text@.subrange(0, i as int)).last(),
        decreases text.len() - i,
    {
        let c = text[i];
        let ghost pre = text@.subrange(0, i as int);
        let ghost p = split_newlines(pre);
        proof {
            lemma_split_nonempty(pre);
        }
        assert(text@.subrange(0, i + 1).drop_last() =~= pre);
        assert(text@.subrange(0, i + 1).last() == c);
        if c == '\n' {
            let ghost old_views = views(done@);
            let ghost old_cur = cur@;
            let finished = strip_cr_vec(cur);
            cur = Vec::new();
            done.push(finished);
            assert(views(done@) =~= old_views.push(strip_cr(old_cur)));
            assert(split_newlines(text@.subrange(0, i + 1)) == p.push(Seq::empty()));
            assert(views(done@) =~= Seq::new(
                done@.len(),
                |j: int| strip_cr(split_newlines(text@.subrange(0, i + 1))[j]),
            ));
        } else {
            cur.push(c);
            assert(split_newlines(text@.subrange(0, i + 1)) == p.update(p.len() - 1, p.last().push(c)));
            assert(views(done@) =~= Seq::new(
                done@.len(),
                |j: int| strip_cr(split_newlines(text@.subrange(0, i + 1))[j]),
            ));
        }
        i = i + 1;
    }
    assert(text@.subrange(0, i as int) =~= text@);
    if text.len() == 0 {
        assert(lines(text@) =~= Seq::<Seq<char>>::empty());
        return Vec::new();
    }
    if text[text.len() - 1] == '\n' {
        assert(lines(text@) =~= views(done@));
        done
    } else {
        let ghost before = views(done@);
        done.push(cur);
        assert(views(done@) =~= before.push(split_newlines(text@).last()));
        assert(views(done@) =~= lines(text@));
        done
    }
}

/// The front matter delimiter.
pub const FRONT_MATTER_DELIMITER: &'static str = "---";

/// Drops the blank lines (nothing but white space) at the end.
pub open spec fn drop_blank_tail(ls: Seq<Seq<char>>) -> Seq<Seq<char>>
    decreases ls.len(),
{
    if ls.len() > 0 && all_whitespace(ls.last()) {
        drop_blank_tail(ls.drop_last())
    } else {
        ls
    }
}

/// Whether a line is the delimiter, possibly followed by white space.
pub open spec fn is_delimiter_line(line: Seq<char>) -> bool {
    line.len() >= 3 && line[0] == '-' && line[1] == '-' && line[2] == '-' && all_whitespace(
        line.subrange(3, line.len() as int),
    )
}

/// The YAML lines of a front matter node's text: without the opening delimiter line, the
/// blank lines at the end and the closing delimiter line.
pub open spec fn yaml_lines(text: Seq<char>) -> Seq<Seq<char>> {
    let ls = lines(text);
    let body = drop_blank_tail(if ls.len() == 0 { ls } else { ls.drop_first() });
    if body.len() > 0 && is_delimiter_line(body.last()) {
        body.drop_last()
    } else {
        body
    }
}

/// Each line followed by `\n`.
pub open spec fn joined_lines(ls: Seq<Seq<char>>) -> Seq<char>
    decreases ls.len(),
{
    if ls.len() == 0 {
        Seq::empty()
    } else {
        joined_lines(ls.drop_last()) + ls.last() + seq!['\n']
    }
}

/// The YAML of a front matter node's text (see `yaml_lines`), one line per `\n`.
pub open spec fn front_matter_yaml_of(text: Seq<char>) -> Seq<char> {
    joined_lines(yaml_lines(text))
}

fn is_delimiter(line: &Vec<char>) -> (r: bool)
    ensures
        r == is_delimiter_line(line@),
{
    if line.len() < 3 || line[0] != '-' || line[1] != '-' || line[2] != '-' {
        return false;
    }
    let mut i: usize = 3;
    while i < line.len()
        invariant
            3 <= i <= line.len(),
            forall|j: int| 3 <= j < i ==> white_space(#[trigger] line@[j]),
        decreases line.len() - i,
    {
        if !is_whitespace(line[i]) {
            assert(!white_space(line@.subrange(3, line@.len() as int)[i - 3]));
            return false;
        }
        i = i + 1;
    }
    assert forall|j: int| 0 <= j < line@.len() - 3 implies white_space(
        #[trigger] line@.subrange(3, line@.len() as int)[j],
    ) by {
        assert(line@.subrange(3, line@.len() as int)[j] == line@[j + 3]);
    }
    true
}

/// Appends the characters of `chars`.
pub fn push_all(out: &mut String, chars: &Vec<char>)
    ensures
        final(out)@ == old(out)@ + chars@,
{
    let mut i: usize = 0;
    while i < chars.len()
        invariant
            i <= chars.len(),
            out@ == old(out)@ + chars@.subrange(0, i as int),
        decreases chars.len() - i,
    {
        push_char(out, chars[i]);
        i = i + 1;
        assert(out@ =~= old(out)@ + chars@.subrange(0, i as int));
    }
    assert(chars@.subrange(0, i as int) =~= chars@);
}

/// The YAML inside a front matter node's text: the delimiter lines and the blank lines at the
/// end left out.
pub fn front_matter_yaml(text: &str) -> (r: String)
    ensures
        r@ == front_matter_yaml_of(text@),
{
    let chars = chars_of(text);
    let ls = split_lines(&chars);
    let ghost all = views(ls@);
    let start: usize = if ls.len() == 0 { 0 } else { 1 };
    let ghost rest = if all.len() == 0 { all } else { all.drop_first() };
    assert(rest =~= all.subrange(start as int, all.len() as int));
    let mut end = ls.len();
    while end > start && is_blank(&ls[end - 1])
        invariant
            start <= end <= ls@.len(),
            all == views(ls@),
            drop_blank_tail(rest) == drop_blank_tail(all.subrange(start as int, end as int)),
        decreases end,
    {
        assert(all.subrange(start as int, end as int).drop_last() =~= all.subrange(
            start as int,
            end - 1,
        ));
        end = end - 1;
    }
    let ghost body = all.subrange(start as int, end as int);
    assert(drop_blank_tail(rest) == body);
    if end > start && is_delimiter(&ls[end - 1]) {
        assert(body.drop_last() =~= all.subrange(start as int, end - 1));
        end = end - 1;
    }
    assert(yaml_lines(text@) =~= all.subrange(start as int, end as int));
    let mut out = String::new();
    let mut k = start;
    while k < end
        invariant
            start <= k <= end <= ls@.len(),
            all == views(ls@),
            out@ == joined_lines(all.subrange(start as int, k as int)),
        decreases end - k,
    {
        push_all(&mut out, &ls[k]);
        push_char(&mut out, '\n');
        assert(all.subrange(start as int, k + 1).drop_last() =~= all.subrange(start as int, k as int));
        k = k + 1;
    }
    out
}

/// What one character becomes in HTML text: `&`, `<`, `>`, `"` and `'` as entities.
pub open spec fn escape_char(c: char) -> Seq<char> {
    if c == '&' {
        "&amp;"@
    } else if c == '<' {
        "&lt;"@
    } else if c == '>' {
        "&gt;"@
    } else if c == '"' {
        "&quot;"@
    } else if c == '\'' {
        "&#39;"@
    } else {
        seq![c]
    }
}

/// A text escaped for HTML, character by character.
pub open spec fn escaped(s: Seq<char>) -> Seq<char>
    decreases s.len(),
{
    if s.len() == 0 {
        Seq::empty()
    } else {
        escaped(s.drop_last()) + escape_char(s.last())
    }
}

/// Appends `text` escaped for HTML.
pub fn push_escaped(out: &mut String, text: &Vec<char>)
    ensures
        final(out)@ == old(out)@ + escaped(text@),
{
    let mut i: usize = 0;
    while i < text.len()
        invariant
            i <= text.len(),
            out@ == old(out)@ + escaped(text@.subrange(0, i as int)),
        decreases text.len() - i,
    {
        let c = text[i];
        if c == '&' {
            out.append("&amp;");
        } else if c == '<' {
            out.append("&lt;");
        } else if c == '>' {
            out.append("&gt;");
        } else if c == '"' {
            out.append("&quot;");
        } else if c == '\'' {
            out.append("&#39;");
        } else {
            push_char(out, c);
        }
        assert(text@.subrange(0, i + 1).drop_last() =~= text@.subrange(0, i as int));
        i = i + 1;
        assert(out@ =~= old(out)@ + escaped(text@.subrange(0, i as int)));
    }
    assert(text@.subrange(0, i as int) =~= text@);
}

/// Escapes a text for HTML: `&`, `<`, `>`, `"` and `'` become entities.
pub fn escape(text: &str) -> (r: String)
    ensures
        r@ == escaped(text@),
{
    let chars = chars_of(text);
    let mut out = String::new();
    push_escaped(&mut out, &chars);
    out
}

/// A YAML value, as the YAML loader gives it: mappings keep their order.
pub enum YamlNode {
    Real(String),
    Integer(i64),
    Str(String),
    Boolean(bool),
    Array(Vec<YamlNode>),
    Hash(Vec<(YamlNode, YamlNode)>),
    Alias(usize),
    Null,
    BadValue,
}

/// The text of a scalar (empty for anything else).
pub open spec fn scalar_text(v: YamlNode) -> Seq<char> {
    match v {
        YamlNode::Str(t) => t@,
        YamlNode::Real(t) => t@,
        YamlNode::Integer(n) => crate::text::signed_decimal(n as int),
        YamlNode::Boolean(b) => if b { "true"@ } else { "false"@ },
        _ => Seq::empty(),
    }
}

/// A YAML value in a table cell: a mapping as a nested table with its keys as the heading row,
/// a sequence as a one-row table, anything else as its escaped text.
pub open spec fn value_html(v: YamlNode) -> Seq<char>
    decreases v,
{
    match v {
        YamlNode::Hash(pairs) => "<table>"@ + "<thead><tr>"@ + key_heads(pairs@) + "</tr></thead><tbody><tr>"@
            + value_cells(pairs@) + "</tr></tbody>"@ + "</table>"@,
        YamlNode::Array(items) => "<table><tbody><tr>"@ + item_cells(items@) + "</tr></tbody></table>"@,
        _ => "<div>"@ + escaped(scalar_text(v)) + "</div>"@,
    }
}

/// One heading cell per key of a mapping.
pub open spec fn key_heads(pairs: Seq<(YamlNode, YamlNode)>) -> Seq<char>
    decreases pairs.len(),
{
    if pairs.len() == 0 {
        Seq::empty()
    } else {
        key_heads(pairs.drop_last()) + "<th>"@ + escaped(scalar_text(pairs.last().0)) + "</th>"@
    }
}

/// One cell per value of a mapping.
pub open spec fn value_cells(pairs: Seq<(YamlNode, YamlNode)>) -> Seq<char>
    decreases pairs,
{
    if pairs.len() == 0 {
        Seq::empty()
    } else {
        value_cells(pairs.subrange(0, pairs.len() - 1)) + "<td>"@ + value_html(pairs[pairs.len() - 1].1)
            + "</td>"@
    }
}

/// One cell per item of a sequence.
pub open spec fn item_cells(items: Seq<YamlNode>) -> Seq<char>
    decreases items,
{
    if items.len() == 0 {
        Seq::empty()
    } else {
        item_cells(items.subrange(0, items.len() - 1)) + "<td>"@ + value_html(items[items.len() - 1])
            + "</td>"@
    }
}

/// The text of a scalar: strings and reals as written, integers in decimal, booleans as
/// `true` / `false`; empty for anything else.
pub fn scalar(v: &YamlNode) -> (r: String)
    ensures
        r@ == scalar_text(*v),
{
    match v {
        YamlNode::Str(t) => t.clone(),
        YamlNode::Real(t) => t.clone(),
        YamlNode::Integer(n) => {
            let mut out = String::new();
            crate::text::push_signed_decimal(&mut out, *n);
            assert(out@ =~= scalar_text(*v));
            out
        },
        YamlNode::Boolean(b) => if *b {
            String::from_str("true")
        } else {
            String::from_str("false")
        },
        _ => String::new(),
    }
}

fn push_scalar_escaped(out: &mut String, v: &YamlNode)
    ensures
        final(out)@ == old(out)@ + escaped(scalar_text(*v)),
{
    let text = scalar(v);
    let chars = chars_of(text.as_str());
    push_escaped(out, &chars);
}

fn push_key_heads(out: &mut String, pairs: &Vec<(YamlNode, YamlNode)>)
    ensures
        final(out)@ == old(out)@ + key_heads(pairs@),
{
    let mut i: usize = 0;
    while i < pairs.len()
        invariant
            i <= pairs.len(),
            out@ == old(out)@ + key_heads(pairs@.subrange(0, i as int)),
        decreases pairs.len() - i,
    {
        out.append("<th>");
        push_scalar_escaped(out, &pairs[i].0);
        out.append("</th>");
        assert(pairs@.subrange(0, i + 1).drop_last() =~= pairs@.subrange(0, i as int));
        i = i + 1;
        assert(out@ =~= old(out)@ + key_heads(pairs@.subrange(0, i as int)));
    }
    assert(pairs@.subrange(0, i as int) =~= pairs@);
}

fn push_value_cells(out: &mut String, pairs: &Vec<(YamlNode, YamlNode)>)
    ensures
        final(out)@ == old(out)@ + value_cells(pairs@),
    decreases pairs, 0nat,
{
    let mut i: usize = 0;
    while i < pairs.len()
        invariant
            i <= pairs.len(),
            out@ == old(out)@ + value_cells(pairs@.subrange(0, i as int)),
        decreases pairs.len() - i,
    {
        out.append("<td>");
        push_value_html(out, &pairs[i].1);
        out.append("</td>");
        assert(pairs@.subrange(0, i + 1).subrange(0, i as int) =~= pairs@.subrange(0, i as int));
        i = i + 1;
        assert(out@ =~= old(out)@ + value_cells(pairs@.subrange(0, i as int)));
    }
    assert(pairs@.subrange(0, i as int) =~= pairs@);
}

fn push_item_cells(out: &mut String, items: &Vec<YamlNode>)
    ensures
        final(out)@ == old(out)@ + item_cells(items@),
    decreases items, 0nat,
{
    let mut i: usize = 0;
    while i < items.len()
        invariant
            i <= items.len(),
            out@ == old(out)@ + item_cells(items@.subrange(0, i as int)),
        decreases items.len() - i,
    {
        out.append("<td>");
        push_value_html(out, &items[i]);
        out.append("</td>");
        assert(items@.subrange(0, i + 1).subrange(0, i as int) =~= items@.subrange(0, i as int));
        i = i + 1;
        assert(out@ =~= old(out)@ + item_cells(items@.subrange(0, i as int)));
    }
    assert(items@.subrange(0, i as int) =~= items@);
}

fn push_value_html(out: &mut String, v: &YamlNode)
    ensures
        final(out)@ == old(out)@ + value_html(*v),
    decreases v, 2nat,
{
    match v {
        YamlNode::Hash(pairs) => {
            out.append("<table>");
            push_hash_rows(out, pairs);
            out.append("</table>");
            assert(out@ =~= old(out)@ + value_html(*v));
        },
        YamlNode::Array(items) => {
            out.append("<table><tbody><tr>");
            push_item_cells(out, items);
            out.append("</tr></tbody></table>");
            assert(out@ =~= old(out)@ + value_html(*v));
        },
        _ => {
            out.append("<div>");
            push_scalar_escaped(out, v);
            out.append("</div>");
            assert(out@ =~= old(out)@ + value_html(*v));
        },
    }
}

/// The rows of a mapping shown as a table: its keys in the heading row, its values below.
pub open spec fn hash_rows_html(pairs: Seq<(YamlNode, YamlNode)>) -> Seq<char> {
    "<thead><tr>"@ + key_heads(pairs) + "</tr></thead><tbody><tr>"@ + value_cells(pairs)
        + "</tr></tbody>"@
}

fn push_hash_rows(out: &mut String, pairs: &Vec<(YamlNode, YamlNode)>)
    ensures
        final(out)@ == old(out)@ + hash_rows_html(pairs@),
    decreases pairs, 1nat,
{
    out.append("<thead><tr>");
    push_key_heads(out, pairs);
    out.append("</tr></thead><tbody><tr>");
    push_value_cells(out, pairs);
    out.append("</tr></tbody>");
    assert(out@ =~= old(out)@ + hash_rows_html(pairs@));
}

/// Like GitHub: the top-level keys in the heading row and their values in the row below.
pub fn hash_rows(pairs: &Vec<(YamlNode, YamlNode)>) -> (r: String)
    ensures
        r@ == hash_rows_html(pairs@),
{
    let mut out = String::new();
    push_hash_rows(&mut out, pairs);
    out
}

/// A YAML value as the content of a table cell (see `value_html`).
pub fn value_to_html(v: &YamlNode) -> (r: String)
    ensures
        r@ == value_html(*v),
{
    let mut out = String::new();
    push_value_html(&mut out, v);
    out
}

/// The front matter text as a YAML code block.
pub open spec fn code_block_html(yaml: Seq<char>, sourcepos: Seq<char>) -> Seq<char> {
    "<pre data-sourcepos=\""@ + sourcepos + "\"><code class=\"language-yaml\">"@ + escaped(yaml)
        + "</code></pre>\n"@
}

/// The front matter HTML for what the YAML loader gave (`None`: it could not read the text):
/// a table when the first document is a mapping, else the text as a YAML code block.
pub open spec fn front_matter_html_of(
    loaded: Option<Seq<YamlNode>>,
    yaml: Seq<char>,
    sourcepos: Seq<char>,
) -> Seq<char> {
    match loaded {
        Some(documents) => if documents.len() > 0 && documents[0] is Hash {
            "<table data-sourcepos=\""@ + sourcepos + "\">"@ + hash_rows_html(documents[0]->Hash_0@)
                + "</table>\n"@
        } else {
            code_block_html(yaml, sourcepos)
        },
        None => code_block_html(yaml, sourcepos),
    }
}

/// The front matter text as a YAML code block.
pub fn code_block(yaml: &str, sourcepos: &str) -> (r: String)
    ensures
        r@ == code_block_html(yaml@, sourcepos@),
{
    let mut out = String::from_str("<pre data-sourcepos=\"");
    out.append(sourcepos);
    out.append("\"><code class=\"language-yaml\">");
    let chars = chars_of(yaml);
    push_escaped(&mut out, &chars);
    out.append("</code></pre>\n");
    out
}

/// The front matter HTML, once the YAML loader has read `yaml` (see `front_matter_html_of`).
pub fn front_matter_html(loaded: &Option<Vec<YamlNode>>, yaml: &str, sourcepos: &str) -> (r: String)
    ensures
        r@ == front_matter_html_of(
            match loaded { Some(d) => Some(d@), None => None },
            yaml@,
            sourcepos@,
        ),
{
    match loaded {
        Some(documents) => {
            if documents.len() > 0 {
                match &documents[0] {
                    YamlNode::Hash(pairs) => {
                        let mut out = String::from_str("<table data-sourcepos=\"");
                        out.append(sourcepos);
                        out.append("\">");
                        push_hash_rows(&mut out, pairs);
                        out.append("</table>\n");
                        return out;
                    },
                    _ => {},
                }
            }
            code_block(yaml, sourcepos)
        },
        None => code_block(yaml, sourcepos),
    }
}

#[verifier::external_type_specification]
#[verifier::external_body]
pub struct ExYaml(yaml_rust2::Yaml);

/// Converts a YAML value of the loader variant by variant into a `YamlNode` (a mapping's
/// entries in their order). Used only inside `load_yaml`, whose contract names the result.
#[verifier::external_body]
fn yaml_node(y: &yaml_rust2::Yaml) -> YamlNode {
    match y {
        yaml_rust2::Yaml::Real(t) => YamlNode::Real(t.clone()),
        yaml_rust2::Yaml::Integer(n) => YamlNode::Integer(*n),
        yaml_rust2::Yaml::String(t) => YamlNode::Str(t.clone()),
        yaml_rust2::Yaml::Boolean(b) => YamlNode::Boolean(*b),
        yaml_rust2::Yaml::Array(items) => YamlNode::Array(items.iter().map(yaml_node).collect()),
        yaml_rust2::Yaml::Hash(h) => YamlNode::Hash(h.iter().map(|(k, v)| (yaml_node(k), yaml_node(v))).collect()),
        yaml_rust2::Yaml::Alias(n) => YamlNode::Alias(*n),
        yaml_rust2::Yaml::Null => YamlNode::Null,
        yaml_rust2::Yaml::BadValue => YamlNode::BadValue,
    }
}

/// The name for what `yaml_rust2::YamlLoader::load_from_str` gives for a text: all its
/// documents, or `None` when the text cannot be read as YAML.
pub uninterp spec fn spec_yaml_documents(text: Seq<char>) -> Option<Seq<YamlNode>>;

/// Reads a text as YAML documents (`yaml_rust2::YamlLoader::load_from_str`). The result is
/// only named: which texts load, and to what, is not stated.
#[verifier::external_body]
fn load_yaml(text: &str) -> (r: Option<Vec<YamlNode>>)
    ensures
        spec_yaml_documents(text@) == match r { Some(d) => Some(d@), None => None::<Seq<YamlNode>> },
{
    match yaml_rust2::YamlLoader::load_from_str(text) {
        Ok(documents) => Some(documents.iter().map(yaml_node).collect()),
        Err(_) => None,
    }
}

/// The front matter of a Markdown document as a table (or code block), given the front
/// matter node's text and its source position.
pub open spec fn front_matter_of(text: Seq<char>, sourcepos: Seq<char>) -> Seq<char> {
    let yaml = front_matter_yaml_of(text);
    front_matter_html_of(spec_yaml_documents(yaml), yaml, sourcepos)
}

/// GitHub shows front matter as a table: the top-level keys in the heading row, the values
/// below. YAML that cannot be read, or whose top level is not a mapping, is shown as code.
pub fn front_matter(text: &str, sourcepos: &str) -> (r: String)
    ensures
        r@ == front_matter_of(text@, sourcepos@),
{
    let yaml = front_matter_yaml(text);
    let loaded = load_yaml(yaml.as_str());
    front_matter_html(&loaded, yaml.as_str(), sourcepos)
}

/// The Markdown options the preview renders with.
pub struct RenderOptions {
    pub table: bool,
    pub strikethrough: bool,
    pub tasklist: bool,
    pub autolink: bool,
    pub math_dollars: bool,
    pub footnotes: bool,
    pub alerts: bool,
    pub header_id_prefix: Option<String>,
    pub front_matter_delimiter: Option<String>,
    pub sourcepos: bool,
}

/// `RenderOptions` with its strings taken by their characters.
pub struct RenderOptionsView {
    pub table: bool,
    pub strikethrough: bool,
    pub tasklist: bool,
    pub autolink: bool,
    pub math_dollars: bool,
    pub footnotes: bool,
    pub alerts: bool,
    pub header_id_prefix: Option<Seq<char>>,
    pub front_matter_delimiter: Option<Seq<char>>,
    pub sourcepos: bool,
}

impl View for RenderOptions {
    type V = RenderOptionsView;

    open spec fn view(&self) -> RenderOptionsView {
        RenderOptionsView {
            table: self.table,
            strikethrough: self.strikethrough,
            tasklist: self.tasklist,
            autolink: self.autolink,
            math_dollars: self.math_dollars,
            footnotes: self.footnotes,
            alerts: self.alerts,
            header_id_prefix: match self.header_id_prefix { Some(p) => Some(p@), None => None },
            front_matter_delimiter: match self.front_matter_delimiter {
                Some(d) => Some(d@),
                None => None,
            },
            sourcepos: self.sourcepos,
        }
    }
}

/// GFM with tables, strikethrough, task lists, autolinks, `$` math, heading ids without a
/// prefix, footnotes, alerts and `---` front matter; source positions on. Raw HTML stays off
/// (comrak's default), so it is not rendered.
pub open spec fn gfm_options_view() -> RenderOptionsView {
    RenderOptionsView {
        table: true,
        strikethrough: true,
        tasklist: true,
        autolink: true,
        math_dollars: true,
        footnotes: true,
        alerts: true,
        header_id_prefix: Some(Seq::empty()),
        front_matter_delimiter: Some("---"@),
        sourcepos: true,
    }
}

pub fn gfm_options() -> (r: RenderOptions)
    ensures
        r@ == gfm_options_view(),
        r.table,
        r.strikethrough,
        r.tasklist,
        r.autolink,
        r.math_dollars,
        r.footnotes,
        r.alerts,
        r.header_id_prefix matches Some(p) && p@ == Seq::<char>::empty(),
        r.front_matter_delimiter matches Some(d) && d@ == "---"@,
        r.sourcepos,
{
    RenderOptions {
        table: true,
        strikethrough: true,
        tasklist: true,
        autolink: true,
        math_dollars: true,
        footnotes: true,
        alerts: true,
        header_id_prefix: Some(String::new()),
        front_matter_delimiter: Some(String::from_str(FRONT_MATTER_DELIMITER)),
        sourcepos: true,
    }
}

/// The front matter node at the top of a parsed document: its text and where it stands
/// (start line and column, end line and column).
pub struct FrontMatterNode {
    pub text: String,
    pub start_line: usize,
    pub start_column: usize,
    pub end_line: usize,
    pub end_column: usize,
}

/// The name for what comrak's `parse_document` gives as the first node of a document when it
/// is front matter (found with the given delimiter and otherwise default options): its text
/// and its source position.
pub uninterp spec fn spec_comrak_front_matter(markdown: Seq<char>, delimiter: Seq<char>) -> Option<
    (Seq<char>, usize, usize, usize, usize),
>;

/// The name for the HTML that `comrak::markdown_to_html` gives for a text with the given
/// options (it leaves front matter out).
pub uninterp spec fn spec_comrak_html(markdown: Seq<char>, options: RenderOptionsView) -> Seq<char>;

/// Renders Markdown as HTML (`comrak::markdown_to_html`). The result is only named: what HTML
/// comes out is not stated.
#[verifier::external_body]
fn comrak_html(markdown: &str, options: &RenderOptions) -> (r: String)
    ensures
        r@ == spec_comrak_html(markdown@, options@),
{
    let mut o = comrak::Options::default();
    let e = &mut o.extension;
    (e.table, e.strikethrough, e.tasklist, e.autolink) = (options.table, options.strikethrough, options.tasklist, options.autolink);
    (e.math_dollars, e.footnotes, e.alerts) = (options.math_dollars, options.footnotes, options.alerts);
    (e.header_id_prefix, e.front_matter_delimiter) = (options.header_id_prefix.clone(), options.front_matter_delimiter.clone());
    o.render.sourcepos = options.sourcepos;
    comrak::markdown_to_html(markdown, &o)
}

/// The front matter node that a document starts with, if any (`comrak::parse_document` with
/// the delimiter set, then the root's first child when it is `NodeValue::FrontMatter`). The
/// result is only named.
#[verifier::external_body]
fn comrak_front_matter(markdown: &str, delimiter: &str) -> (r: Option<FrontMatterNode>)
    ensures
        spec_comrak_front_matter(markdown@, delimiter@) == match r {
            Some(f) => Some((f.text@, f.start_line, f.start_column, f.end_line, f.end_column)),
            None => None,
        },
{
    let mut o = comrak::Options::default();
    o.extension.front_matter_delimiter = Some(delimiter.to_string());
    let arena = comrak::Arena::new();
    let node = comrak::parse_document(&arena, markdown, &o).first_child()?;
    let data = node.data.borrow();
    match &data.value {
        comrak::nodes::NodeValue::FrontMatter(text) => Some(FrontMatterNode { text: text.clone(), start_line: data.sourcepos.start.line,
            start_column: data.sourcepos.start.column, end_line: data.sourcepos.end.line, end_column: data.sourcepos.end.column }),
        _ => None,
    }
}

/// A source position as `line:column-line:column`.
pub open spec fn sourcepos_text(sl: usize, sc: usize, el: usize, ec: usize) -> Seq<char> {
    crate::text::decimal(sl as nat) + seq![':'] + crate::text::decimal(sc as nat) + seq!['-']
        + crate::text::decimal(el as nat) + seq![':'] + crate::text::decimal(ec as nat)
}

pub fn sourcepos_string(sl: usize, sc: usize, el: usize, ec: usize) -> (r: String)
    ensures
        r@ == sourcepos_text(sl, sc, el, ec),
{
    let mut out = String::new();
    crate::text::push_decimal(&mut out, sl as u64);
    push_char(&mut out, ':');
    crate::text::push_decimal(&mut out, sc as u64);
    push_char(&mut out, '-');
    crate::text::push_decimal(&mut out, el as u64);
    push_char(&mut out, ':');
    crate::text::push_decimal(&mut out, ec as u64);
    assert(out@ =~= sourcepos_text(sl, sc, el, ec));
    out
}

/// The HTML of a parsed document: its front matter (if any) as a table before the body.
pub open spec fn assembled_html(
    front_matter: Option<(Seq<char>, usize, usize, usize, usize)>,
    body: Seq<char>,
) -> Seq<char> {
    match front_matter {
        Some((text, sl, sc, el, ec)) => front_matter_of(text, sourcepos_text(sl, sc, el, ec)) + body,
        None => body,
    }
}

/// What the preview shows for a Markdown text.
pub open spec fn html_of(markdown: Seq<char>) -> Seq<char> {
    assembled_html(
        spec_comrak_front_matter(markdown, "---"@),
        spec_comrak_html(markdown, gfm_options_view()),
    )
}

/// Puts the front matter table (if the document has front matter) before the body's HTML.
pub fn assemble(front_matter_node: Option<FrontMatterNode>, body: String) -> (r: String)
    ensures
        r@ == assembled_html(
            match front_matter_node {
                Some(f) => Some((f.text@, f.start_line, f.start_column, f.end_line, f.end_column)),
                None => None,
            },
            body@,
        ),
{
    match front_matter_node {
        Some(f) => {
            let pos = sourcepos_string(f.start_line, f.start_column, f.end_line, f.end_column);
            let mut html = front_matter(f.text.as_str(), pos.as_str());
            html.append(body.as_str());
            html
        },
        None => body,
    }
}

/// Converts the text to HTML like GitHub does (GFM); raw HTML is not rendered. Front matter
/// comes first, as a table.
pub fn to_html(markdown: &str) -> (r: String)
    ensures
        r@ == html_of(markdown@),
{
    let options = gfm_options();
    let node = comrak_front_matter(markdown, FRONT_MATTER_DELIMITER);
    let body = comrak_html(markdown, &options);
    assemble(node, body)
}

/// Escaped text holds no `<`, `>`, `"` or `'`: it cannot open or close a tag or an attribute.
pub proof fn law_escaped_text_has_no_markup(s: Seq<char>)
    ensures
        forall|i: int| 0 <= i < escaped(s).len() ==> {
            let c = #[trigger] escaped(s)[i];
            c != '<' && c != '>' && c != '"' && c != '\''
        },
    decreases s.len(),
{
    reveal_strlit("&amp;");
    reveal_strlit("&lt;");
    reveal_strlit("&gt;");
    reveal_strlit("&quot;");
    reveal_strlit("&#39;");
    if s.len() > 0 {
        law_escaped_text_has_no_markup(s.drop_last());
        let head = escaped(s.drop_last());
        let tail = escape_char(s.last());
        assert forall|i: int| 0 <= i < escaped(s).len() implies {
            let c = #[trigger] escaped(s)[i];
            c != '<' && c != '>' && c != '"' && c != '\''
        } by {
            if i >= head.len() {
                assert(escaped(s)[i] == tail[i - head.len()]);
            } else {
                assert(escaped(s)[i] == head[i]);
            }
        }
    }
}

/// The preview renders GitHub-flavoured Markdown: tables, strikethrough, task lists, autolinks,
/// `$` math, footnotes and alerts are on, headings get ids with no prefix, `---` delimits front
/// matter, and every block carries its source position.
pub proof fn law_preview_options()
    ensures
        gfm_options_view().table,
        gfm_options_view().strikethrough,
        gfm_options_view().tasklist,
        gfm_options_view().autolink,
        gfm_options_view().math_dollars,
        gfm_options_view().footnotes,
        gfm_options_view().alerts,
        gfm_options_view().header_id_prefix == Some(Seq::<char>::empty()),
        gfm_options_view().front_matter_delimiter == Some("---"@),
        gfm_options_view().sourcepos,
{
}

/// Escaping works character by character: the escape of two texts put together is their
/// escapes put together.
pub proof fn law_escape_distributes(s: Seq<char>, t: Seq<char>)
    ensures
        escaped(s + t) == escaped(s) + escaped(t),
    decreases t.len(),
{
    if t.len() == 0 {
        assert(s + t =~= s);
        assert(escaped(s) + escaped(t) =~= escaped(s));
    } else {
        law_escape_distributes(s, t.drop_last());
        assert((s + t).drop_last() =~= s + t.drop_last());
        assert((s + t).last() == t.last());
        assert(escaped(s + t) =~= escaped(s) + escaped(t.drop_last()) + escape_char(t.last()));
    }
}

proof fn lemma_escape_one(c: char)
    ensures
        escaped(seq![c]) == escape_char(c),
{
    let one = seq![c];
    assert(one.drop_last() =~= Seq::<char>::empty());
    assert(one.last() == c);
    assert(escaped(one) == escaped(one.drop_last()) + escape_char(one.last()));
    assert(Seq::<char>::empty() + escape_char(c) =~= escape_char(c));
}

/// Each of `&`, `<`, `>`, `"` and `'` becomes its entity.
pub proof fn law_escape_entities()
    ensures
        escaped(seq!['&']) == "&amp;"@,
        escaped(seq!['<']) == "&lt;"@,
        escaped(seq!['>']) == "&gt;"@,
        escaped(seq!['"']) == "&quot;"@,
        escaped(seq!['\'']) == "&#39;"@,
{
    lemma_escape_one('&');
    lemma_escape_one('<');
    lemma_escape_one('>');
    lemma_escape_one('"');
    lemma_escape_one('\'');
}

/// A text with none of `&`, `<`, `>`, `"` and `'` is left exactly as it is, whatever other
/// characters (of any script) it holds.
pub proof fn law_escape_keeps_other_text(s: Seq<char>)
    requires
        forall|i: int|
            0 <= i < s.len() ==> {
                let c = #[trigger] s[i];
                c != '&' && c != '<' && c != '>' && c != '"' && c != '\''
            },
    ensures
        escaped(s) == s,
    decreases s.len(),
{
    if s.len() > 0 {
        let rest = s.drop_last();
        assert forall|i: int| 0 <= i < rest.len() implies {
            let c = #[trigger] rest[i];
            c != '&' && c != '<' && c != '>' && c != '"' && c != '\''
        } by {
            assert(rest[i] == s[i]);
        }
        law_escape_keeps_other_text(rest);
        let c = s[s.len() - 1];
        assert(c != '&' && c != '<' && c != '>' && c != '"' && c != '\'');
        assert(escaped(s) =~= rest + seq![s.last()]);
        assert(rest + seq![s.last()] =~= s);
    }
}

/// The cells of a front matter table come one per key, value or item, in order: the cells of
/// two runs put together are the cells of the first run followed by those of the second.
pub proof fn law_table_cells_in_order(
    a: Seq<(YamlNode, YamlNode)>,
    b: Seq<(YamlNode, YamlNode)>,
    x: Seq<YamlNode>,
    y: Seq<YamlNode>,
)
    ensures
        key_heads(a + b) == key_heads(a) + key_heads(b),
        value_cells(a + b) == value_cells(a) + value_cells(b),
        item_cells(x + y) == item_cells(x) + item_cells(y),
    decreases b.len() + y.len(),
{
    if b.len() == 0 && y.len() == 0 {
        assert(a + b =~= a);
        assert(x + y =~= x);
        assert(key_heads(a) + key_heads(b) =~= key_heads(a));
        assert(value_cells(a) + value_cells(b) =~= value_cells(a));
        assert(item_cells(x) + item_cells(y) =~= item_cells(x));
    } else if b.len() > 0 {
        law_table_cells_in_order(a, b.drop_last(), x, y);
        assert((a + b).drop_last() =~= a + b.drop_last());
        assert((a + b).subrange(0, (a + b).len() - 1) =~= a + b.drop_last());
        assert(b.subrange(0, b.len() - 1) =~= b.drop_last());
        assert((a + b).last() == b.last());
        assert(key_heads(a + b) =~= key_heads(a) + key_heads(b));
        assert(value_cells(a + b) =~= value_cells(a) + value_cells(b));
    } else {
        law_table_cells_in_order(a, b, x, y.drop_last());
        assert((x + y).subrange(0, (x + y).len() - 1) =~= x + y.drop_last());
        assert(y.subrange(0, y.len() - 1) =~= y.drop_last());
        assert((x + y)[(x + y).len() - 1] == y[y.len() - 1]);
        assert(item_cells(x + y) =~= item_cells(x) + item_cells(y));
    }
}

/// A key is a heading cell holding its escaped text, a value or an item a data cell holding its
/// HTML, and a scalar value its escaped text in a `div`.
pub proof fn law_table_cell_contents(p: (YamlNode, YamlNode), v: YamlNode)
    ensures
        key_heads(seq![p]) == "<th>"@ + escaped(scalar_text(p.0)) + "</th>"@,
        value_cells(seq![p]) == "<td>"@ + value_html(p.1) + "</td>"@,
        item_cells(seq![v]) == "<td>"@ + value_html(v) + "</td>"@,
        !(v is Hash) && !(v is Array) ==> value_html(v) == "<div>"@ + escaped(scalar_text(v))
            + "</div>"@,
{
    assert(seq![p].drop_last() =~= Seq::<(YamlNode, YamlNode)>::empty());
    assert(seq![p].subrange(0, 0) =~= Seq::<(YamlNode, YamlNode)>::empty());
    assert(seq![v].subrange(0, 0) =~= Seq::<YamlNode>::empty());
    let one = seq![p];
    assert(one.last() == p && one[0] == p && one.len() == 1);
    assert(key_heads(one) == key_heads(one.drop_last()) + "<th>"@ + escaped(scalar_text(p.0))
        + "</th>"@);
    assert(value_cells(one) == value_cells(one.subrange(0, 0)) + "<td>"@ + value_html(p.1)
        + "</td>"@);
    assert(item_cells(seq![v]) == item_cells(seq![v].subrange(0, 0)) + "<td>"@ + value_html(v)
        + "</td>"@);
    assert(key_heads(one) =~= "<th>"@ + escaped(scalar_text(p.0)) + "</th>"@);
    assert(value_cells(one) =~= "<td>"@ + value_html(p.1) + "</td>"@);
    assert(item_cells(seq![v]) =~= "<td>"@ + value_html(v) + "</td>"@);
}

proof fn lemma_split_rejoins(s: Seq<char>)
    ensures
        split_newlines(s).len() >= 1,
        joined_lines(split_newlines(s).drop_last()) + split_newlines(s).last() == s,
        forall|i: int, j: int|
            0 <= i < split_newlines(s).len() && 0 <= j < split_newlines(s)[i].len() ==> {
                let c = #[trigger] split_newlines(s)[i][j];
                c != '\n' && s.contains(c)
            },
    decreases s.len(),
{
    if s.len() > 0 {
        let rest = s.drop_last();
        lemma_split_rejoins(rest);
        let p = split_newlines(rest);
        let q = split_newlines(s);
        assert forall|c: char| rest.contains(c) implies s.contains(c) by {
            let k = choose|k: int| 0 <= k < rest.len() && rest[k] == c;
            assert(s[k] == c);
        }
        if s.last() == '\n' {
            assert(q.drop_last() =~= p);
            assert(joined_lines(p) == joined_lines(p.drop_last()) + p.last() + seq!['\n']);
            assert(joined_lines(p) + q.last() =~= rest + seq!['\n']);
            assert(rest + seq!['\n'] =~= s);
            assert forall|i: int, j: int| 0 <= i < q.len() && 0 <= j < q[i].len() implies {
                let c = #[trigger] q[i][j];
                c != '\n' && s.contains(c)
            } by {
                if i < p.len() {
                    assert(q[i] == p[i]);
                    assert(rest.contains(p[i][j]));
                }
            }
        } else {
            assert(q.drop_last() =~= p.drop_last());
            assert(q.last() == p.last().push(s.last()));
            assert(joined_lines(p.drop_last()) + p.last().push(s.last()) =~= (joined_lines(
                p.drop_last(),
            ) + p.last()).push(s.last()));
            assert(rest.push(s.last()) =~= s);
            assert forall|i: int, j: int| 0 <= i < q.len() && 0 <= j < q[i].len() implies {
                let c = #[trigger] q[i][j];
                c != '\n' && s.contains(c)
            } by {
                if i < p.len() - 1 {
                    assert(q[i] == p[i]);
                    assert(rest.contains(p[i][j]));
                } else if j < p.last().len() {
                    assert(q[i][j] == p[p.len() - 1][j]);
                    assert(rest.contains(p[p.len() - 1][j]));
                } else {
                    assert(q[i][j] == s[s.len() - 1]);
                }
            }
        }
    }
}

/// The lines of a text without `\r` hold no `\n`, and put back together, each followed by
/// `\n`, they give the text again (with a final `\n` where it had none).
pub proof fn law_lines_rejoin(s: Seq<char>)
    requires
        forall|i: int| 0 <= i < s.len() ==> s[i] != '\r',
    ensures
        forall|i: int, j: int|
            0 <= i < lines(s).len() && 0 <= j < lines(s)[i].len() ==> #[trigger] lines(s)[i][j]
                != '\n',
        s.len() > 0 && s.last() == '\n' ==> joined_lines(lines(s)) == s,
        s.len() > 0 && s.last() != '\n' ==> joined_lines(lines(s)) == s + seq!['\n'],
{
    lemma_split_rejoins(s);
    let p = split_newlines(s);
    if s.len() > 0 {
        assert forall|i: int| 0 <= i < p.len() implies strip_cr(#[trigger] p[i]) == p[i] by {
            if p[i].len() > 0 && p[i].last() == '\r' {
                assert(p[i][p[i].len() - 1] == '\r');
                assert(s.contains(p[i][p[i].len() - 1]));
            }
        }
        if s.last() == '\n' {
            assert(lines(s) =~= p.drop_last());
            assert(p == split_newlines(s.drop_last()).push(Seq::empty()));
            assert(joined_lines(p.drop_last()) + p.last() =~= joined_lines(p.drop_last()));
        } else {
            assert(lines(s) =~= p);
            assert(p.drop_last() + seq![p.last()] =~= p);
            assert(joined_lines(p) == joined_lines(p.drop_last()) + p.last() + seq!['\n']);
        }
    }
}

/// Front matter that is not valid YAML, or whose first document is not a mapping, is shown
/// as a YAML code block.
pub proof fn law_unreadable_front_matter_is_code(loaded: Option<Seq<YamlNode>>, yaml: Seq<char>, sourcepos: Seq<char>)
    requires
        loaded matches Some(d) ==> (d.len() == 0 || !(d[0] is Hash)),
    ensures
        front_matter_html_of(loaded, yaml, sourcepos) == code_block_html(yaml, sourcepos),
{
}

/// A document without front matter is shown as comrak renders it, and one with front matter
/// shows it before that.
pub proof fn law_front_matter_comes_first(markdown: Seq<char>)
    ensures
        spec_comrak_front_matter(markdown, "---"@) is None ==> html_of(markdown) == spec_comrak_html(
            markdown,
            gfm_options_view(),
        ),
        spec_comrak_front_matter(markdown, "---"@) matches Some((text, sl, sc, el, ec)) ==> html_of(
            markdown,
        ) == front_matter_of(text, sourcepos_text(sl, sc, el, ec)) + spec_comrak_html(
            markdown,
            gfm_options_view(),
        ),
{
}

/// A delimiter line is never taken for a blank one.
pub proof fn law_delimiter_line_is_not_blank(line: Seq<char>)
    requires
        is_delimiter_line(line),
    ensures
        !all_whitespace(line),
{
    assert(!white_space(line[0]));
}

} // verus!
