use slipstream::events::{Align, MdEvent, MdTag, MdTagEnd};
use slipstream::render::{markdown_to_html, parse_markdown, render_events, write_open_tag};

fn s(x: &str) -> String {
    x.to_string()
}

fn start(tag: MdTag, offset: usize) -> MdEvent {
    MdEvent::Start { tag, offset }
}

#[test]
fn open_tag_with_and_without_line() {
    let mut out = String::new();
    write_open_tag(&mut out, "p", Some(3));
    write_open_tag(&mut out, "ul", None);
    assert_eq!(out, "<p data-source-line=\"3\"><ul>");
}

#[test]
fn blocks_carry_their_source_line() {
    let src = "# T\n\npara\n\n---\n";
    let events = vec![
        start(MdTag::Heading { level: 1, id: None, classes: vec![], attrs: vec![] }, 0),
        MdEvent::Text(s("T")),
        MdEvent::End(MdTagEnd::Heading(1)),
        start(MdTag::Paragraph, 5),
        MdEvent::Text(s("para")),
        MdEvent::End(MdTagEnd::Paragraph),
        MdEvent::Rule { offset: 11 },
    ];
    assert_eq!(
        render_events(src, &events, None),
        "<h1 data-source-line=\"0\">T</h1>\n<p data-source-line=\"2\">para</p>\n<hr data-source-line=\"4\" />\n"
    );
}

#[test]
fn heading_identifier_classes_and_attributes() {
    let events = vec![
        start(
            MdTag::Heading {
                level: 2,
                id: Some(s("top")),
                classes: vec![s("a"), s("b")],
                attrs: vec![(s("k"), Some(s("v"))), (s("flag"), None)],
            },
            0,
        ),
        MdEvent::Text(s("H")),
        MdEvent::End(MdTagEnd::Heading(2)),
    ];
    assert_eq!(
        render_events("## H", &events, None),
        "<h2 data-source-line=\"0\" id=\"top\" class=\"a b\" k=\"v\" flag>H</h2>\n"
    );
}

#[test]
fn text_is_escaped_and_html_is_not() {
    let events = vec![
        MdEvent::Text(s("a < b & c > d")),
        MdEvent::Html(s("<div>")),
        MdEvent::InlineHtml(s("<b>")),
        MdEvent::Code(s("x<y")),
        MdEvent::InlineMath(s("a&b")),
        MdEvent::DisplayMath(s("c>d")),
        MdEvent::SoftBreak,
        MdEvent::HardBreak,
    ];
    assert_eq!(
        render_events("", &events, None),
        "a &lt; b &amp; c &gt; d<div><b><code>x&lt;y</code><code class=\"math math-inline\">a&amp;b</code><pre class=\"math math-display\"><code>c&gt;d</code></pre>\n\n<br />\n"
    );
}

#[test]
fn code_blocks_with_and_without_language() {
    let src = "```\n\n";
    let events = vec![
        start(MdTag::CodeBlock(Some(s("  rust extra  "))), 0),
        MdEvent::Text(s("fn main() {}\n")),
        MdEvent::End(MdTagEnd::CodeBlock),
        start(MdTag::CodeBlock(Some(s("   "))), 4),
        MdEvent::End(MdTagEnd::CodeBlock),
        start(MdTag::CodeBlock(None), 5),
        MdEvent::End(MdTagEnd::CodeBlock),
    ];
    assert_eq!(
        render_events(src, &events, None),
        "<pre data-source-line=\"0\"><code class=\"language-rust\">fn main() {}\n</code></pre>\n<pre data-source-line=\"1\"><code></code></pre>\n<pre data-source-line=\"2\"><code></code></pre>\n"
    );
}

#[test]
fn lists_and_task_markers() {
    let events = vec![
        start(MdTag::List(Some(3)), 0),
        start(MdTag::Item, 0),
        MdEvent::TaskListMarker(true),
        MdEvent::Text(s("done")),
        MdEvent::End(MdTagEnd::Item),
        MdEvent::End(MdTagEnd::List(true)),
        start(MdTag::List(Some(1)), 0),
        MdEvent::End(MdTagEnd::List(true)),
        start(MdTag::List(None), 0),
        start(MdTag::Item, 0),
        MdEvent::TaskListMarker(false),
        MdEvent::End(MdTagEnd::Item),
        MdEvent::End(MdTagEnd::List(false)),
    ];
    assert_eq!(
        render_events("x", &events, None),
        "<ol start=\"3\" data-source-line=\"0\">\n<li><input disabled=\"\" type=\"checkbox\" checked=\"\"/>\ndone</li>\n</ol>\n<ol data-source-line=\"0\">\n</ol>\n<ul data-source-line=\"0\">\n<li><input disabled=\"\" type=\"checkbox\"/>\n</li>\n</ul>\n"
    );
}

#[test]
fn table_cells_follow_column_alignment() {
    let cell = |t: &str| vec![start(MdTag::TableCell, 0), MdEvent::Text(s(t)), MdEvent::End(MdTagEnd::TableCell)];
    let mut events = vec![
        start(MdTag::Table(vec![Align::Left, Align::Center]), 0),
        start(MdTag::TableHead, 0),
    ];
    events.extend(cell("a"));
    events.extend(cell("b"));
    events.extend(cell("c"));
    events.push(MdEvent::End(MdTagEnd::TableHead));
    events.push(start(MdTag::TableRow, 0));
    events.extend(cell("1"));
    events.extend(cell("2"));
    events.push(MdEvent::End(MdTagEnd::TableRow));
    events.push(MdEvent::End(MdTagEnd::Table));
    assert_eq!(
        render_events("|", &events, None),
        "<table data-source-line=\"0\"><thead><tr><th style=\"text-align: left\">a</th><th style=\"text-align: center\">b</th><th>c</th></tr></thead><tbody>\n<tr><td style=\"text-align: left\">1</td><td style=\"text-align: center\">2</td></tr>\n</tbody></table>\n"
    );
}

#[test]
fn right_and_unaligned_columns() {
    let events = vec![
        start(MdTag::Table(vec![Align::Right, Align::Unaligned]), 0),
        start(MdTag::TableRow, 0),
        start(MdTag::TableCell, 0),
        MdEvent::End(MdTagEnd::TableCell),
        start(MdTag::TableCell, 0),
        MdEvent::End(MdTagEnd::TableCell),
        MdEvent::End(MdTagEnd::TableRow),
        MdEvent::End(MdTagEnd::Table),
    ];
    assert_eq!(
        render_events("", &events, None),
        "<table data-source-line=\"0\"><tr><td style=\"text-align: right\"></td><td></td></tr>\n</tbody></table>\n"
    );
}

#[test]
fn footnotes_are_numbered_in_order_of_first_use() {
    let events = vec![
        MdEvent::FootnoteReference(s("b")),
        MdEvent::FootnoteReference(s("a")),
        MdEvent::FootnoteReference(s("b")),
        start(MdTag::FootnoteDefinition(s("a")), 0),
        MdEvent::End(MdTagEnd::FootnoteDefinition),
        start(MdTag::FootnoteDefinition(s("c")), 0),
        MdEvent::End(MdTagEnd::FootnoteDefinition),
    ];
    assert_eq!(
        render_events("", &events, None),
        "<sup class=\"footnote-reference\"><a href=\"#b\">1</a></sup><sup class=\"footnote-reference\"><a href=\"#a\">2</a></sup><sup class=\"footnote-reference\"><a href=\"#b\">1</a></sup><div class=\"footnote-definition\" id=\"a\"><sup class=\"footnote-definition-label\">2</sup></div>\n<div class=\"footnote-definition\" id=\"c\"><sup class=\"footnote-definition-label\">3</sup></div>\n"
    );
}

#[test]
fn links_images_and_inline_tags() {
    let events = vec![
        start(MdTag::Link { dest_url: s("https://x.org"), title: s("X") }, 0),
        start(MdTag::Emphasis, 0),
        MdEvent::Text(s("e")),
        MdEvent::End(MdTagEnd::Emphasis),
        start(MdTag::Strong, 0),
        MdEvent::End(MdTagEnd::Strong),
        start(MdTag::Strikethrough, 0),
        MdEvent::End(MdTagEnd::Strikethrough),
        MdEvent::End(MdTagEnd::Link),
        start(MdTag::Link { dest_url: s("b.md"), title: s("") }, 0),
        MdEvent::End(MdTagEnd::Link),
        start(MdTag::Image { dest_url: s("pic one.png") }, 0),
        MdEvent::Text(s("alt")),
        MdEvent::End(MdTagEnd::Image),
    ];
    assert_eq!(
        render_events("", &events, Some("/home/u")),
        "<a href=\"https://x.org\" title=\"X\"><em>e</em><strong></strong><del></del></a><a href=\"b.md\"></a><img src=\"localimage://localhost/home/u/pic%20one.png\" alt=\"alt\" />"
    );
}

#[test]
fn quotes_definitions_and_silent_blocks() {
    let events = vec![
        start(MdTag::BlockQuote, 0),
        MdEvent::End(MdTagEnd::BlockQuote),
        start(MdTag::DefinitionList, 0),
        start(MdTag::DefinitionListTitle, 0),
        MdEvent::End(MdTagEnd::DefinitionListTitle),
        start(MdTag::DefinitionListDefinition, 0),
        MdEvent::End(MdTagEnd::DefinitionListDefinition),
        MdEvent::End(MdTagEnd::DefinitionList),
        start(MdTag::HtmlBlock, 0),
        MdEvent::Html(s("<p>raw</p>\n")),
        MdEvent::End(MdTagEnd::HtmlBlock),
        start(MdTag::MetadataBlock, 0),
        MdEvent::End(MdTagEnd::MetadataBlock),
    ];
    assert_eq!(
        render_events("", &events, None),
        "<blockquote data-source-line=\"0\">\n</blockquote>\n<dl><dt></dt><dd></dd></dl><p>raw</p>\n"
    );
}

#[test]
fn no_events_render_nothing() {
    assert_eq!(render_events("abc", &vec![], None), "");
    assert_eq!(markdown_to_html("", None), "");
}

#[test]
fn markdown_heading_and_paragraph() {
    assert_eq!(
        markdown_to_html("# Title\n\nHello *world*\n", None),
        "<h1 data-source-line=\"0\">Title</h1>\n<p data-source-line=\"2\">Hello <em>world</em></p>\n"
    );
}

#[test]
fn markdown_task_list() {
    assert_eq!(
        markdown_to_html("- [x] done\n- [ ] todo\n", None),
        "<ul data-source-line=\"0\">\n<li><input disabled=\"\" type=\"checkbox\" checked=\"\"/>\ndone</li>\n<li><input disabled=\"\" type=\"checkbox\"/>\ntodo</li>\n</ul>\n"
    );
}

#[test]
fn markdown_strikethrough_escape_and_inline_html() {
    assert_eq!(
        markdown_to_html("~~old~~ & <b>\n", None),
        "<p data-source-line=\"0\"><del>old</del> &amp; <b></p>\n"
    );
}

#[test]
fn markdown_rule_and_fenced_code() {
    assert_eq!(
        markdown_to_html("---\n\n```rust\nfn main() {}\n```\n", None),
        "<hr data-source-line=\"0\" />\n<pre data-source-line=\"2\"><code class=\"language-rust\">fn main() {}\n</code></pre>\n"
    );
}

#[test]
fn markdown_table() {
    assert_eq!(
        markdown_to_html("| a | b |\n|:--|--:|\n| 1 | 2 |\n", None),
        "<table data-source-line=\"0\"><thead><tr><th style=\"text-align: left\">a</th><th style=\"text-align: right\">b</th></tr></thead><tbody>\n<tr><td style=\"text-align: left\">1</td><td style=\"text-align: right\">2</td></tr>\n</tbody></table>\n"
    );
}

#[test]
fn markdown_images_resolve_against_base_dir() {
    assert_eq!(
        markdown_to_html("![alt](img/a.png)\n", Some("/docs")),
        "<p data-source-line=\"0\"><img src=\"localimage://localhost/docs/img/a.png\" alt=\"alt\" /></p>\n"
    );
    assert_eq!(
        markdown_to_html("![alt](img/a.png)\n", None),
        "<p data-source-line=\"0\"><img src=\"img/a.png\" alt=\"alt\" /></p>\n"
    );
}

#[test]
fn markdown_footnotes() {
    assert_eq!(
        markdown_to_html("A[^n].\n\n[^n]: Note.\n", None),
        "<p data-source-line=\"0\">A<sup class=\"footnote-reference\"><a href=\"#n\">1</a></sup>.</p>\n<div class=\"footnote-definition\" id=\"n\"><sup class=\"footnote-definition-label\">1</sup><p data-source-line=\"2\">Note.</p>\n</div>\n"
    );
}

#[test]
fn parse_markdown_uses_no_base_dir() {
    let md = "![x](y.png) and *z*\n";
    assert_eq!(parse_markdown(md.to_string()), markdown_to_html(md, None));
}

#[test]
fn rendering_a_prefix_of_the_events_gives_a_prefix_of_the_html() {
    let src = "# T\n\npara\n";
    let events = vec![
        start(MdTag::Heading { level: 1, id: None, classes: vec![], attrs: vec![] }, 0),
        MdEvent::Text(s("T")),
        MdEvent::End(MdTagEnd::Heading(1)),
        start(MdTag::Paragraph, 5),
        MdEvent::FootnoteReference(s("x")),
        MdEvent::End(MdTagEnd::Paragraph),
    ];
    let full = render_events(src, &events, None);
    for k in 0..=events.len() {
        let part = render_events(src, &events[..k].to_vec(), None);
        assert!(full.starts_with(&part));
    }
}

#[test]
fn source_lines_follow_source_order() {
    let html = markdown_to_html("# A\n\ntext\n\n- x\n\n---\n\n> q\n", None);
    let mut last = 0usize;
    for part in html.split("data-source-line=\"").skip(1) {
        let n: usize = part[..part.find('"').unwrap()].parse().unwrap();
        assert!(n >= last);
        last = n;
    }
    assert_eq!(last, 8);
}
