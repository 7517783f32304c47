use mdsight::render::{code_block, escape, front_matter_yaml, hash_rows, scalar, to_html, value_to_html, YamlNode};

#[test]
fn keeps_source_positions() {
    let html = to_html("# title\n\ntext\n");
    assert!(html.contains("data-sourcepos=\"1:1-1:7\""), "{html}");
}

#[test]
fn escapes_raw_html() {
    let html = to_html("<script>alert(1)</script>\n");
    assert!(!html.contains("<script>"), "{html}");
}

#[test]
fn renders_gfm_extensions() {
    let html = to_html("- [ ] todo\n");
    assert!(html.contains("type=\"checkbox\""), "{html}");
}

#[test]
fn renders_front_matter_as_a_table_before_the_body() {
    let html = to_html("---\ntitle: Notes\ntags: [a, b]\n---\n\n# Heading\n");
    assert!(
        html.starts_with("<table data-sourcepos=\"1:1-4:3\"><thead><tr><th>title</th><th>tags</th></tr></thead>"),
        "{html}"
    );
    assert!(html.contains("<td><div>Notes</div></td>"), "{html}");
    assert!(
        html.contains("<td><table><tbody><tr><td><div>a</div></td><td><div>b</div></td></tr></tbody></table></td>"),
        "{html}"
    );
    // the body's line numbers stay shifted by the front matter
    assert!(html.contains("<h1 id=\"heading\" data-sourcepos=\"6:1-6:9\""), "{html}");
    assert!(!html.contains("<hr"), "{html}");
}

#[test]
fn nests_mappings_in_front_matter() {
    let html = to_html("---\nauthor:\n  name: A\n---\n");
    assert!(
        html.contains("<td><table><thead><tr><th>name</th></tr></thead><tbody><tr><td><div>A</div></td></tr></tbody></table></td>"),
        "{html}"
    );
}

#[test]
fn escapes_front_matter_values() {
    let html = to_html("---\n\"<b>\": \"<script>x</script>\"\n---\n");
    assert!(html.contains("<th>&lt;b&gt;</th>"), "{html}");
    assert!(!html.contains("<script>"), "{html}");
}

#[test]
fn shows_unreadable_front_matter_as_code() {
    let html = to_html("---\ntitle: [unclosed\n---\n");
    assert!(
        html.starts_with("<pre data-sourcepos=\"1:1-3:3\"><code class=\"language-yaml\">title: [unclosed\n</code></pre>"),
        "{html}"
    );
}

#[test]
fn shows_non_mapping_front_matter_as_code() {
    let html = to_html("---\n- a\n- b\n---\n");
    assert!(html.contains("<code class=\"language-yaml\">- a\n- b\n</code>"), "{html}");
}

#[test]
fn detects_front_matter_without_a_trailing_newline() {
    // Neovim sends the lines joined with newlines, without one at the end
    let html = to_html("---\ntitle: Notes\n---");
    assert!(html.contains("<th>title</th>"), "{html}");
}

#[test]
fn renders_footnotes_and_alerts() {
    let html = to_html("text[^1]\n\n[^1]: note\n\n> [!NOTE]\n> body\n");
    assert!(html.contains("href=\"#fn-1\""), "{html}");
    assert!(html.contains("class=\"footnotes\""), "{html}");
    assert!(html.contains("markdown-alert markdown-alert-note"), "{html}");
}

#[test]
fn escapes_the_five_special_characters() {
    assert_eq!(escape("a&b<c>d\"e'f"), "a&amp;b&lt;c&gt;d&quot;e&#39;f");
    assert_eq!(escape(""), "");
    assert_eq!(escape("plain"), "plain");
}

#[test]
fn takes_the_yaml_out_of_the_front_matter() {
    assert_eq!(front_matter_yaml("---\ntitle: Notes\n---\n"), "title: Notes\n");
    assert_eq!(front_matter_yaml("---\r\na: 1\r\n---  \r\n\r\n  \n"), "a: 1\n");
    assert_eq!(front_matter_yaml("---\na: 1\n"), "a: 1\n");
    assert_eq!(front_matter_yaml(""), "");
    assert_eq!(front_matter_yaml("---"), "");
}

#[test]
fn writes_scalars_as_text() {
    assert_eq!(scalar(&YamlNode::Integer(-42)), "-42");
    assert_eq!(scalar(&YamlNode::Integer(i64::MIN)), "-9223372036854775808");
    assert_eq!(scalar(&YamlNode::Integer(0)), "0");
    assert_eq!(scalar(&YamlNode::Boolean(true)), "true");
    assert_eq!(scalar(&YamlNode::Real("1.5".to_string())), "1.5");
    assert_eq!(scalar(&YamlNode::Null), "");
}

#[test]
fn lays_out_nested_values() {
    let value = YamlNode::Array(vec![YamlNode::Str("x".to_string()), YamlNode::Integer(2)]);
    assert_eq!(
        value_to_html(&value),
        "<table><tbody><tr><td><div>x</div></td><td><div>2</div></td></tr></tbody></table>"
    );
    let rows = hash_rows(&vec![(YamlNode::Str("k".to_string()), YamlNode::Boolean(false))]);
    assert_eq!(rows, "<thead><tr><th>k</th></tr></thead><tbody><tr><td><div>false</div></td></tr></tbody>");
}

#[test]
fn writes_a_yaml_code_block() {
    assert_eq!(
        code_block("a: <b>\n", "1:1-3:3"),
        "<pre data-sourcepos=\"1:1-3:3\"><code class=\"language-yaml\">a: &lt;b&gt;\n</code></pre>\n"
    );
}

#[test]
fn writes_source_positions() {
    assert_eq!(mdsight::render::sourcepos_string(1, 1, 12, 3), "1:1-12:3");
}

#[test]
fn keeps_a_delimiter_line_with_other_white_space_apart() {
    // U+3000 (ideographic space) is white space; U+200B (zero width space) is not
    assert_eq!(front_matter_yaml("---\na: 1\n---\u{3000}\n"), "a: 1\n");
    assert_eq!(front_matter_yaml("---\na: 1\n\u{200b}\n"), "a: 1\n\u{200b}\n");
}
