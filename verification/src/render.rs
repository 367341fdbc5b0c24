//! Rendering Markdown events to HTML. Block-level elements carry a
//! `data-source-line` attribute with the 0-based source line they start on,
//! for scroll synchronisation between the editor and the preview.

use vstd::prelude::*;
use vstd::string::*;
use vstd::utf8::encode_utf8;
use crate::events::{markdown_events, parse_events, Align, MdEvent, MdTag, MdTagEnd};
use crate::lines::{lemma_line_of_offset_monotone, line_of_offset, newlines_before};
use crate::paths::{opt_str_view, resolve_image_url, resolved_image_url};
use crate::text::{decimal, has_prefix, push_char, push_decimal};

verus! {

/// What the renderer remembers between events.
pub struct RenderModel {
    /// Inside the head of a table (cells are `th`, not `td`).
    pub in_table_header: bool,
    /// Column alignments of the current table.
    pub alignments: Seq<Align>,
    /// Index of the next cell in the current table row.
    pub cell_index: nat,
    /// Footnote labels in the order in which they were first seen.
    pub footnotes: Seq<Seq<char>>,
}

/// The renderer's state before the first event.
pub open spec fn initial_model() -> RenderModel {
    RenderModel { in_table_header: false, alignments: seq![], cell_index: 0, footnotes: seq![] }
}

/// HTML body-text escaping of one character: `&`, `<` and `>` become entities.
pub open spec fn escape_body_char(c: char) -> Seq<char> {
    if c == '&' {
        "&amp;"@
    } else if c == '<' {
        "&lt;"@
    } else if c == '>' {
        "&gt;"@
    } else {
        seq![c]
    }
}

/// HTML body-text escaping of a text.
pub open spec fn escaped_body_text(s: Seq<char>) -> Seq<char>
    decreases s.len(),
{
    if s.len() == 0 {
        seq![]
    } else {
        escaped_body_text(s.drop_last()) + escape_body_char(s.last())
    }
}

/// An opening tag, with a `data-source-line` attribute when a line is given.
pub open spec fn open_tag_text(name: Seq<char>, line: Option<nat>) -> Seq<char> {
    match line {
        Some(l) => "<"@ + name + " data-source-line=\""@ + decimal(l) + "\">"@,
        None => "<"@ + name + ">"@,
    }
}

/// Position of a footnote label among those seen, or their number if it is new.
pub open spec fn label_position(labels: Seq<Seq<char>>, label: Seq<char>) -> nat
    decreases labels.len(),
{
    if labels.len() == 0 {
        0
    } else if labels[0] == label {
        0
    } else {
        1 + label_position(labels.drop_first(), label)
    }
}

/// The footnote labels after one more use of `label`: a new label is appended.
pub open spec fn note_label(labels: Seq<Seq<char>>, label: Seq<char>) -> Seq<Seq<char>> {
    if label_position(labels, label) < labels.len() {
        labels
    } else {
        labels.push(label)
    }
}

/// The number shown for a footnote label: its place in order of first use, from 1.
pub open spec fn footnote_number(labels: Seq<Seq<char>>, label: Seq<char>) -> nat {
    label_position(labels, label) + 1
}

/// Characters that std's `char::is_whitespace` accepts (Unicode `White_Space`).
pub open spec fn is_unicode_whitespace(c: char) -> bool {
    ||| '\u{9}' <= c <= '\u{d}'
    ||| c == ' '
    ||| c == '\u{85}'
    ||| c == '\u{a0}'
    ||| c == '\u{1680}'
    ||| '\u{2000}' <= c <= '\u{200a}'
    ||| c == '\u{2028}'
    ||| c == '\u{2029}'
    ||| c == '\u{202f}'
    ||| c == '\u{205f}'
    ||| c == '\u{3000}'
}

/// The leading run of non-whitespace characters.
pub open spec fn word_prefix(s: Seq<char>) -> Seq<char>
    decreases s.len(),
{
    if s.len() == 0 || is_unicode_whitespace(s[0]) {
        seq![]
    } else {
        seq![s[0]] + word_prefix(s.drop_first())
    }
}

/// The first whitespace-separated word of a text, or empty when there is none
/// (std's `split_whitespace().next().unwrap_or("")`).
pub open spec fn first_word(s: Seq<char>) -> Seq<char>
    decreases s.len(),
{
    if s.len() == 0 {
        seq![]
    } else if is_unicode_whitespace(s[0]) {
        first_word(s.drop_first())
    } else {
        word_prefix(s)
    }
}

/// The tag name of a heading level: `h` and the level.
pub open spec fn heading_name(level: u8) -> Seq<char> {
    "h"@ + decimal(level as nat)
}

/// Classes joined by single spaces.
pub open spec fn joined_by_spaces(classes: Seq<String>) -> Seq<char>
    decreases classes.len(),
{
    if classes.len() == 0 {
        seq![]
    } else if classes.len() == 1 {
        classes[0]@
    } else {
        joined_by_spaces(classes.drop_last()) + " "@ + classes.last()@
    }
}

/// One custom heading attribute: ` key="value"`, or ` key` without a value.
pub open spec fn attr_text(attr: (String, Option<String>)) -> Seq<char> {
    match attr.1 {
        Some(v) => " "@ + attr.0@ + "=\""@ + v@ + "\""@,
        None => " "@ + attr.0@,
    }
}

/// All custom heading attributes in order.
pub open spec fn attrs_text(attrs: Seq<(String, Option<String>)>) -> Seq<char>
    decreases attrs.len(),
{
    if attrs.len() == 0 {
        seq![]
    } else {
        attrs_text(attrs.drop_last()) + attr_text(attrs.last())
    }
}

/// The identifier, classes and custom attributes written into a heading's tag.
pub open spec fn heading_extra(id: Option<String>, classes: Seq<String>, attrs: Seq<(String, Option<String>)>) -> Seq<char> {
    (match id {
        Some(i) => " id=\""@ + i@ + "\""@,
        None => seq![],
    }) + (if classes.len() > 0 {
        " class=\""@ + joined_by_spaces(classes) + "\""@
    } else {
        seq![]
    }) + attrs_text(attrs)
}

/// The opening of a code block starting on `line`.
pub open spec fn code_block_open(info: Option<String>, line: nat) -> Seq<char> {
    let lang = match info {
        Some(i) => first_word(i@),
        None => seq![],
    };
    if lang.len() == 0 {
        "<pre data-source-line=\""@ + decimal(line) + "\"><code>"@
    } else {
        "<pre data-source-line=\""@ + decimal(line) + "\"><code class=\"language-"@ + lang + "\">"@
    }
}

/// The opening of an ordered list starting at `start`, on `line`.
pub open spec fn ordered_list_open(start: u64, line: nat) -> Seq<char> {
    if start != 1 {
        "<ol start=\""@ + decimal(start as nat) + "\" data-source-line=\""@ + decimal(line) + "\">"@
    } else {
        "<ol data-source-line=\""@ + decimal(line) + "\">"@
    }
}

/// The name of a table cell's tag.
pub open spec fn cell_name(m: RenderModel) -> Seq<char> {
    if m.in_table_header {
        "th"@
    } else {
        "td"@
    }
}

/// The opening of a table cell, styled by its column's alignment.
pub open spec fn cell_open(m: RenderModel) -> Seq<char> {
    let name = cell_name(m);
    if m.cell_index < m.alignments.len() {
        match m.alignments[m.cell_index as int] {
            Align::Left => "<"@ + name + " style=\"text-align: left\">"@,
            Align::Center => "<"@ + name + " style=\"text-align: center\">"@,
            Align::Right => "<"@ + name + " style=\"text-align: right\">"@,
            Align::Unaligned => "<"@ + name + ">"@,
        }
    } else {
        "<"@ + name + ">"@
    }
}

/// The opening of a link.
pub open spec fn link_open(dest_url: Seq<char>, title: Seq<char>) -> Seq<char> {
    "<a href=\""@ + dest_url + "\""@ + (if title.len() > 0 {
        " title=\""@ + title + "\""@
    } else {
        seq![]
    }) + ">"@
}

/// What a start tag writes, `line` being the source line on which it starts.
pub open spec fn start_text(m: RenderModel, tag: MdTag, line: nat, base_dir: Option<Seq<char>>) -> Seq<char> {
    match tag {
        MdTag::Paragraph => open_tag_text("p"@, Some(line)),
        MdTag::Heading { level, id, classes, attrs } => "<"@ + heading_name(level)
            + " data-source-line=\""@ + decimal(line) + "\""@ + heading_extra(id, classes@, attrs@)
            + ">"@,
        MdTag::BlockQuote => open_tag_text("blockquote"@, Some(line)) + "\n"@,
        MdTag::CodeBlock(info) => code_block_open(info, line),
        MdTag::HtmlBlock => seq![],
        MdTag::List(Some(start)) => ordered_list_open(start, line) + "\n"@,
        MdTag::List(None) => open_tag_text("ul"@, Some(line)) + "\n"@,
        MdTag::Item => "<li>"@,
        MdTag::FootnoteDefinition(label) => "<div class=\"footnote-definition\" id=\""@ + label@
            + "\"><sup class=\"footnote-definition-label\">"@ + decimal(
            footnote_number(m.footnotes, label@),
        ) + "</sup>"@,
        MdTag::DefinitionList => "<dl>"@,
        MdTag::DefinitionListTitle => "<dt>"@,
        MdTag::DefinitionListDefinition => "<dd>"@,
        MdTag::Table(_) => open_tag_text("table"@, Some(line)),
        MdTag::TableHead => "<thead><tr>"@,
        MdTag::TableRow => "<tr>"@,
        MdTag::TableCell => cell_open(m),
        MdTag::Emphasis => "<em>"@,
        MdTag::Strong => "<strong>"@,
        MdTag::Strikethrough => "<del>"@,
        MdTag::Link { dest_url, title } => link_open(dest_url@, title@),
        MdTag::Image { dest_url } => "<img src=\""@ + resolved_image_url(dest_url@, base_dir)
            + "\" alt=\""@,
        MdTag::MetadataBlock => seq![],
    }
}

/// The renderer's state after a start tag.
pub open spec fn start_model(m: RenderModel, tag: MdTag) -> RenderModel {
    match tag {
        MdTag::Table(a) => RenderModel { alignments: a@, ..m },
        MdTag::TableHead => RenderModel { in_table_header: true, cell_index: 0, ..m },
        MdTag::TableRow => RenderModel { cell_index: 0, ..m },
        MdTag::FootnoteDefinition(label) => RenderModel { footnotes: note_label(m.footnotes, label@), ..m },
        _ => m,
    }
}

/// What an end tag writes.
pub open spec fn end_text(m: RenderModel, end: MdTagEnd) -> Seq<char> {
    match end {
        MdTagEnd::Paragraph => "</p>\n"@,
        MdTagEnd::Heading(level) => "</"@ + heading_name(level) + ">\n"@,
        MdTagEnd::BlockQuote => "</blockquote>\n"@,
        MdTagEnd::CodeBlock => "</code></pre>\n"@,
        MdTagEnd::HtmlBlock => seq![],
        MdTagEnd::List(ordered) => if ordered {
            "</ol>\n"@
        } else {
            "</ul>\n"@
        },
        MdTagEnd::Item => "</li>\n"@,
        MdTagEnd::FootnoteDefinition => "</div>\n"@,
        MdTagEnd::DefinitionList => "</dl>"@,
        MdTagEnd::DefinitionListTitle => "</dt>"@,
        MdTagEnd::DefinitionListDefinition => "</dd>"@,
        MdTagEnd::Table => "</tbody></table>\n"@,
        MdTagEnd::TableHead => "</tr></thead><tbody>\n"@,
        MdTagEnd::TableRow => "</tr>\n"@,
        MdTagEnd::TableCell => "</"@ + cell_name(m) + ">"@,
        MdTagEnd::Emphasis => "</em>"@,
        MdTagEnd::Strong => "</strong>"@,
        MdTagEnd::Strikethrough => "</del>"@,
        MdTagEnd::Link => "</a>"@,
        MdTagEnd::Image => "\" />"@,
        MdTagEnd::MetadataBlock => seq![],
    }
}

/// The renderer's state after an end tag.
pub open spec fn end_model(m: RenderModel, end: MdTagEnd) -> RenderModel {
    match end {
        MdTagEnd::TableHead => RenderModel { in_table_header: false, ..m },
        MdTagEnd::TableCell => RenderModel { cell_index: m.cell_index + 1, ..m },
        _ => m,
    }
}

/// What one event writes, and the state after it. `source` is the UTF-8 text of
/// the Markdown source; `base_dir` the directory that relative images resolve against.
pub open spec fn render_step(m: RenderModel, ev: MdEvent, source: Seq<u8>, base_dir: Option<Seq<char>>) -> (RenderModel, Seq<char>) {
    match ev {
        MdEvent::Start { tag, offset } => (
            start_model(m, tag),
            start_text(m, tag, line_of_offset(source, offset as int), base_dir),
        ),
        MdEvent::End(end) => (end_model(m, end), end_text(m, end)),
        MdEvent::Text(t) => (m, escaped_body_text(t@)),
        MdEvent::Code(t) => (m, "<code>"@ + escaped_body_text(t@) + "</code>"@),
        MdEvent::InlineMath(t) => (
            m,
            "<code class=\"math math-inline\">"@ + escaped_body_text(t@) + "</code>"@,
        ),
        MdEvent::DisplayMath(t) => (
            m,
            "<pre class=\"math math-display\"><code>"@ + escaped_body_text(t@) + "</code></pre>\n"@,
        ),
        MdEvent::Html(h) => (m, h@),
        MdEvent::InlineHtml(h) => (m, h@),
        MdEvent::SoftBreak => (m, "\n"@),
        MdEvent::HardBreak => (m, "<br />\n"@),
        MdEvent::Rule { offset } => (
            m,
            "<hr data-source-line=\""@ + decimal(line_of_offset(source, offset as int))
                + "\" />\n"@,
        ),
        MdEvent::FootnoteReference(label) => (
            RenderModel { footnotes: note_label(m.footnotes, label@), ..m },
            "<sup class=\"footnote-reference\"><a href=\"#"@ + label@ + "\">"@ + decimal(
                footnote_number(m.footnotes, label@),
            ) + "</a></sup>"@,
        ),
        MdEvent::TaskListMarker(checked) => (
            m,
            if checked {
                "<input disabled=\"\" type=\"checkbox\" checked=\"\"/>\n"@
            } else {
                "<input disabled=\"\" type=\"checkbox\"/>\n"@
            },
        ),
    }
}

/// The state and the HTML after the first `n` events.
pub open spec fn render_prefix(events: Seq<MdEvent>, source: Seq<u8>, base_dir: Option<Seq<char>>, n: nat) -> (RenderModel, Seq<char>)
    decreases n,
{
    if n == 0 || n > events.len() {
        (initial_model(), seq![])
    } else {
        let prev = render_prefix(events, source, base_dir, (n - 1) as nat);
        let step = render_step(prev.0, events[n - 1], source, base_dir);
        (step.0, prev.1 + step.1)
    }
}

/// The HTML for a whole event sequence.
pub open spec fn rendered_html(events: Seq<MdEvent>, source: Seq<u8>, base_dir: Option<Seq<char>>) -> Seq<char> {
    render_prefix(events, source, base_dir, events.len()).1
}


/// The views of a sequence of owned strings.
pub open spec fn string_views(v: Seq<String>) -> Seq<Seq<char>> {
    v.map_values(|s: String| s@)
}

/// A line number given as a machine integer, as a natural number.
pub open spec fn opt_line(line: Option<usize>) -> Option<nat> {
    match line {
        Some(l) => Some(l as nat),
        None => None,
    }
}

/// Calls pulldown-cmark-escape's `escape_html_body_text`, which writes the text
/// with `&`, `<` and `>` replaced by `&amp;`, `&lt;` and `&gt;`. Writing into a
/// `String` does not fail.
#[verifier::external_body]
fn push_escaped_body_text(out: &mut String, text: &str)
    ensures
        final(out)@ == old(out)@ + escaped_body_text(text@),
{
    pulldown_cmark_escape::escape_html_body_text(&mut pulldown_cmark_escape::FmtWriter(out), text).unwrap();
}

/// Writes an opening HTML tag, with a `data-source-line` attribute when a line is given.
pub fn write_open_tag(out: &mut String, tag: &str, line: Option<usize>)
    ensures
        final(out)@ == old(out)@ + open_tag_text(tag@, opt_line(line)),
{
    let ghost start = out@;
    match line {
        Some(l) => {
            out.append("<");
            out.append(tag);
            out.append(" data-source-line=\"");
            push_decimal(out, l as u128);
            out.append("\">");
        },
        None => {
            out.append("<");
            out.append(tag);
            out.append(">");
        },
    }
    assert(out@ =~= start + open_tag_text(tag@, opt_line(line)));
}

fn is_unicode_whitespace_exec(c: char) -> (res: bool)
    ensures
        res == is_unicode_whitespace(c),
{
    ('\u{9}' <= c && c <= '\u{d}') || c == ' ' || c == '\u{85}' || c == '\u{a0}' || c == '\u{1680}'
        || ('\u{2000}' <= c && c <= '\u{200a}') || c == '\u{2028}' || c == '\u{2029}' || c
        == '\u{202f}' || c == '\u{205f}' || c == '\u{3000}'
}

/// The first whitespace-separated word of `s`, or empty when there is none.
fn first_word_of(s: &str) -> (w: String)
    ensures
        w@ == first_word(s@),
{
    let n = s.unicode_len();
    let mut i: usize = 0;
    assert(s@.skip(0) =~= s@);
    while i < n && is_unicode_whitespace_exec(s.get_char(i))
        invariant
            n == s@.len(),
            i <= n,
            first_word(s@) == first_word(s@.skip(i as int)),
        decreases n - i,
    {
        assert(s@.skip(i as int).drop_first() =~= s@.skip(i + 1));
        i = i + 1;
    }
    let mut w = String::new();
    if i == n {
        assert(s@.skip(i as int) =~= Seq::<char>::empty());
        return w;
    }
    let start = i;
    assert(first_word(s@.skip(i as int)) == word_prefix(s@.skip(i as int)));
    assert(w@ + word_prefix(s@.skip(i as int)) =~= word_prefix(s@.skip(i as int)));
    while i < n && !is_unicode_whitespace_exec(s.get_char(i))
        invariant
            n == s@.len(),
            start <= i <= n,
            first_word(s@) == word_prefix(s@.skip(start as int)),
            w@ + word_prefix(s@.skip(i as int)) == word_prefix(s@.skip(start as int)),
        decreases n - i,
    {
        let c = s.get_char(i);
        let ghost before = w@;
        assert(s@.skip(i as int).drop_first() =~= s@.skip(i + 1));
        assert(word_prefix(s@.skip(i as int)) == seq![c] + word_prefix(s@.skip(i + 1)));
        push_char(&mut w, c);
        assert(before + (seq![c] + word_prefix(s@.skip(i + 1))) =~= w@ + word_prefix(s@.skip(i + 1)));
        i = i + 1;
    }
    if i == n {
        assert(s@.skip(i as int) =~= Seq::<char>::empty());
    }
    assert(w@ + word_prefix(s@.skip(i as int)) =~= w@);
    w
}

proof fn lemma_label_position(labels: Seq<Seq<char>>, label: Seq<char>, i: int)
    requires
        0 <= i <= labels.len(),
        forall|j: int| 0 <= j < i ==> labels[j] != label,
    ensures
        i < labels.len() && labels[i] == label ==> label_position(labels, label) == i,
        i == labels.len() ==> label_position(labels, label) == labels.len(),
    decreases i,
{
    if i > 0 {
        let rest = labels.drop_first();
        assert forall|j: int| 0 <= j < i - 1 implies rest[j] != label by {
            assert(rest[j] == labels[j + 1]);
        }
        lemma_label_position(rest, label, i - 1);
    }
}

/// Looks a footnote label up among those seen, adding it when it is new, and
/// gives its number (its place in order of first use, from 1).
fn note_footnote(labels: &mut Vec<String>, label: &String) -> (n: usize)
    requires
        old(labels)@.len() < usize::MAX,
    ensures
        n == footnote_number(string_views(old(labels)@), label@),
        string_views(final(labels)@) == note_label(string_views(old(labels)@), label@),
        final(labels)@.len() <= old(labels)@.len() + 1,
{
    let ghost views = string_views(labels@);
    let mut i: usize = 0;
    while i < labels.len()
        invariant
            labels@ == old(labels)@,
            views == string_views(labels@),
            i <= labels@.len(),
            forall|j: int| 0 <= j < i ==> views[j] != label@,
        decreases labels@.len() - i,
    {
        if labels[i] == *label {
            proof {
                lemma_label_position(views, label@, i as int);
            }
            return i + 1;
        }
        i = i + 1;
    }
    proof {
        lemma_label_position(views, label@, i as int);
    }
    labels.push(label.clone());
    assert(string_views(labels@) =~= views.push(label@));
    i + 1
}

/// The renderer's running state.
struct Renderer {
    in_table_header: bool,
    alignments: Vec<Align>,
    cell_index: usize,
    footnotes: Vec<String>,
}

impl Renderer {
    spec fn model(&self) -> RenderModel {
        RenderModel {
            in_table_header: self.in_table_header,
            alignments: self.alignments@,
            cell_index: self.cell_index as nat,
            footnotes: string_views(self.footnotes@),
        }
    }
}


/// Writes the identifier, classes and custom attributes of a heading.
fn write_heading_extra(
    out: &mut String,
    id: &Option<String>,
    classes: &Vec<String>,
    attrs: &Vec<(String, Option<String>)>,
)
    ensures
        final(out)@ == old(out)@ + heading_extra(*id, classes@, attrs@),
{
    let ghost start = out@;
    if let Some(i) = id {
        out.append(" id=\"");
        out.append(i.as_str());
        out.append("\"");
    }
    let ghost id_part = match id {
        Some(i) => " id=\""@ + i@ + "\""@,
        None => Seq::<char>::empty(),
    };
    assert(out@ =~= start + id_part);
    let ghost after_id = out@;
    if classes.len() > 0 {
        out.append(" class=\"");
        out.append(classes[0].as_str());
        let ghost base = after_id + " class=\""@;
        assert(classes@.take(1).drop_last() =~= Seq::<String>::empty());
        assert(joined_by_spaces(classes@.take(1)) == classes@[0]@);
        let mut k: usize = 1;
        while k < classes.len()
            invariant
                1 <= k <= classes@.len(),
                out@ == base + joined_by_spaces(classes@.take(k as int)),
            decreases classes@.len() - k,
        {
            out.append(" ");
            out.append(classes[k].as_str());
            assert(classes@.take(k + 1).drop_last() =~= classes@.take(k as int));
            assert(out@ =~= base + joined_by_spaces(classes@.take(k + 1)));
            k = k + 1;
        }
        assert(classes@.take(classes@.len() as int) =~= classes@);
        out.append("\"");
    }
    let ghost class_part = if classes@.len() > 0 {
        " class=\""@ + joined_by_spaces(classes@) + "\""@
    } else {
        Seq::<char>::empty()
    };
    assert(out@ =~= after_id + class_part);
    let ghost after_classes = out@;
    let mut k: usize = 0;
    assert(attrs@.take(0) =~= Seq::<(String, Option<String>)>::empty());
    assert(out@ =~= after_classes + attrs_text(attrs@.take(0)));
    while k < attrs.len()
        invariant
            k <= attrs@.len(),
            out@ == after_classes + attrs_text(attrs@.take(k as int)),
        decreases attrs@.len() - k,
    {
        let ghost before = out@;
        let attr = &attrs[k];
        match &attr.1 {
            Some(v) => {
                out.append(" ");
                out.append(attr.0.as_str());
                out.append("=\"");
                out.append(v.as_str());
                out.append("\"");
            },
            None => {
                out.append(" ");
                out.append(attr.0.as_str());
            },
        }
        assert(out@ =~= before + attr_text(attrs@[k as int]));
        assert(attrs@.take(k + 1).drop_last() =~= attrs@.take(k as int));
        assert(out@ =~= after_classes + attrs_text(attrs@.take(k + 1)));
        k = k + 1;
    }
    assert(attrs@.take(attrs@.len() as int) =~= attrs@);
    assert(out@ =~= start + heading_extra(*id, classes@, attrs@));
}

/// Writes the opening of a code block.
fn write_code_block_open(out: &mut String, info: &Option<String>, line: usize)
    ensures
        final(out)@ == old(out)@ + code_block_open(*info, line as nat),
{
    let ghost start = out@;
    let lang = match info {
        Some(i) => first_word_of(i.as_str()),
        None => String::new(),
    };
    out.append("<pre data-source-line=\"");
    push_decimal(out, line as u128);
    if lang.unicode_len() == 0 {
        out.append("\"><code>");
    } else {
        out.append("\"><code class=\"language-");
        out.append(lang.as_str());
        out.append("\">");
    }
    assert(out@ =~= start + code_block_open(*info, line as nat));
}

/// Writes the opening of a table cell.
fn write_cell_open(out: &mut String, st: &Renderer)
    ensures
        final(out)@ == old(out)@ + cell_open(st.model()),
{
    let ghost start = out@;
    let name = if st.in_table_header {
        "th"
    } else {
        "td"
    };
    out.append("<");
    out.append(name);
    if st.cell_index < st.alignments.len() {
        match st.alignments[st.cell_index] {
            Align::Left => out.append(" style=\"text-align: left\">"),
            Align::Center => out.append(" style=\"text-align: center\">"),
            Align::Right => out.append(" style=\"text-align: right\">"),
            Align::Unaligned => out.append(">"),
        }
    } else {
        out.append(">");
    }
    assert(out@ =~= start + cell_open(st.model()));
}

fn copy_alignments(a: &Vec<Align>) -> (v: Vec<Align>)
    ensures
        v@ == a@,
{
    let mut v: Vec<Align> = Vec::new();
    let mut j: usize = 0;
    while j < a.len()
        invariant
            j <= a@.len(),
            v@ == a@.take(j as int),
        decreases a@.len() - j,
    {
        v.push(a[j]);
        assert(v@ =~= a@.take(j + 1));
        j = j + 1;
    }
    assert(a@.take(a@.len() as int) =~= a@);
    v
}

/// Writes a start tag and updates the state.
fn render_start(out: &mut String, st: &mut Renderer, tag: &MdTag, line: usize, base_dir: Option<&str>)
    requires
        old(st).footnotes@.len() < usize::MAX,
    ensures
        final(out)@ == old(out)@ + start_text(old(st).model(), *tag, line as nat, opt_str_view(base_dir)),
        final(st).model() == start_model(old(st).model(), *tag),
        final(st).cell_index <= old(st).cell_index,
        final(st).footnotes@.len() <= old(st).footnotes@.len() + 1,
{
    let ghost start = out@;
    let ghost m = st.model();
    match tag {
        MdTag::Paragraph => write_open_tag(out, "p", Some(line)),
        MdTag::Heading { level, id, classes, attrs } => {
            out.append("<");
            out.append("h");
            push_decimal(out, *level as u128);
            out.append(" data-source-line=\"");
            push_decimal(out, line as u128);
            out.append("\"");
            write_heading_extra(out, id, classes, attrs);
            out.append(">");
        },
        MdTag::BlockQuote => {
            write_open_tag(out, "blockquote", Some(line));
            out.append("\n");
        },
        MdTag::CodeBlock(info) => write_code_block_open(out, info, line),
        MdTag::HtmlBlock => {},
        MdTag::List(Some(first)) => {
            if *first != 1 {
                out.append("<ol start=\"");
                push_decimal(out, *first as u128);
                out.append("\" data-source-line=\"");
                push_decimal(out, line as u128);
                out.append("\">");
            } else {
                out.append("<ol data-source-line=\"");
                push_decimal(out, line as u128);
                out.append("\">");
            }
            out.append("\n");
        },
        MdTag::List(None) => {
            write_open_tag(out, "ul", Some(line));
            out.append("\n");
        },
        MdTag::Item => out.append("<li>"),
        MdTag::FootnoteDefinition(label) => {
            let n = note_footnote(&mut st.footnotes, label);
            out.append("<div class=\"footnote-definition\" id=\"");
            out.append(label.as_str());
            out.append("\"><sup class=\"footnote-definition-label\">");
            push_decimal(out, n as u128);
            out.append("</sup>");
        },
        MdTag::DefinitionList => out.append("<dl>"),
        MdTag::DefinitionListTitle => out.append("<dt>"),
        MdTag::DefinitionListDefinition => out.append("<dd>"),
        MdTag::Table(a) => {
            st.alignments = copy_alignments(a);
            write_open_tag(out, "table", Some(line));
        },
        MdTag::TableHead => {
            out.append("<thead><tr>");
            st.in_table_header = true;
            st.cell_index = 0;
        },
        MdTag::TableRow => {
            out.append("<tr>");
            st.cell_index = 0;
        },
        MdTag::TableCell => write_cell_open(out, st),
        MdTag::Emphasis => out.append("<em>"),
        MdTag::Strong => out.append("<strong>"),
        MdTag::Strikethrough => out.append("<del>"),
        MdTag::Link { dest_url, title } => {
            out.append("<a href=\"");
            out.append(dest_url.as_str());
            out.append("\"");
            if title.unicode_len() > 0 {
                out.append(" title=\"");
                out.append(title.as_str());
                out.append("\"");
            }
            out.append(">");
        },
        MdTag::Image { dest_url } => {
            let resolved = resolve_image_url(dest_url.as_str(), base_dir);
            out.append("<img src=\"");
            out.append(resolved.as_str());
            out.append("\" alt=\"");
        },
        MdTag::MetadataBlock => {},
    }
    assert(out@ =~= start + start_text(m, *tag, line as nat, opt_str_view(base_dir)));
    assert(st.model() =~~= start_model(m, *tag));
}


/// Writes an end tag and updates the state.
fn render_end(out: &mut String, st: &mut Renderer, end: MdTagEnd)
    requires
        old(st).cell_index < usize::MAX,
    ensures
        final(out)@ == old(out)@ + end_text(old(st).model(), end),
        final(st).model() == end_model(old(st).model(), end),
        final(st).cell_index <= old(st).cell_index + 1,
        final(st).footnotes@ == old(st).footnotes@,
{
    let ghost start = out@;
    let ghost m = st.model();
    match end {
        MdTagEnd::Paragraph => out.append("</p>\n"),
        MdTagEnd::Heading(level) => {
            out.append("</");
            out.append("h");
            push_decimal(out, level as u128);
            out.append(">\n");
        },
        MdTagEnd::BlockQuote => out.append("</blockquote>\n"),
        MdTagEnd::CodeBlock => out.append("</code></pre>\n"),
        MdTagEnd::HtmlBlock => {},
        MdTagEnd::List(ordered) => {
            if ordered {
                out.append("</ol>\n");
            } else {
                out.append("</ul>\n");
            }
        },
        MdTagEnd::Item => out.append("</li>\n"),
        MdTagEnd::FootnoteDefinition => out.append("</div>\n"),
        MdTagEnd::DefinitionList => out.append("</dl>"),
        MdTagEnd::DefinitionListTitle => out.append("</dt>"),
        MdTagEnd::DefinitionListDefinition => out.append("</dd>"),
        MdTagEnd::Table => out.append("</tbody></table>\n"),
        MdTagEnd::TableHead => {
            out.append("</tr></thead><tbody>\n");
            st.in_table_header = false;
        },
        MdTagEnd::TableRow => out.append("</tr>\n"),
        MdTagEnd::TableCell => {
            let name = if st.in_table_header {
                "th"
            } else {
                "td"
            };
            out.append("</");
            out.append(name);
            out.append(">");
            st.cell_index = st.cell_index + 1;
        },
        MdTagEnd::Emphasis => out.append("</em>"),
        MdTagEnd::Strong => out.append("</strong>"),
        MdTagEnd::Strikethrough => out.append("</del>"),
        MdTagEnd::Link => out.append("</a>"),
        MdTagEnd::Image => out.append("\" />"),
        MdTagEnd::MetadataBlock => {},
    }
    assert(out@ =~= start + end_text(m, end));
    assert(st.model() =~~= end_model(m, end));
}

/// Writes text wrapped between two fixed strings, escaped as HTML body text.
fn write_wrapped_text(out: &mut String, before: &str, text: &str, after: &str)
    ensures
        final(out)@ == old(out)@ + (before@ + escaped_body_text(text@) + after@),
{
    let ghost start = out@;
    out.append(before);
    push_escaped_body_text(out, text);
    out.append(after);
    assert(out@ =~= start + (before@ + escaped_body_text(text@) + after@));
}

/// Writes one event and updates the state.
fn render_event(out: &mut String, st: &mut Renderer, ev: &MdEvent, source: &[u8], base_dir: Option<&str>)
    requires
        old(st).footnotes@.len() < usize::MAX,
        old(st).cell_index < usize::MAX,
    ensures
        final(out)@ == old(out)@ + render_step(old(st).model(), *ev, source@, opt_str_view(base_dir)).1,
        final(st).model() == render_step(old(st).model(), *ev, source@, opt_str_view(base_dir)).0,
        final(st).cell_index <= old(st).cell_index + 1,
        final(st).footnotes@.len() <= old(st).footnotes@.len() + 1,
{
    let ghost start = out@;
    let ghost m = st.model();
    match ev {
        MdEvent::Start { tag, offset } => {
            let line = newlines_before(source, *offset);
            render_start(out, st, tag, line, base_dir);
        },
        MdEvent::End(end) => render_end(out, st, *end),
        MdEvent::Text(t) => push_escaped_body_text(out, t.as_str()),
        MdEvent::Code(t) => write_wrapped_text(out, "<code>", t.as_str(), "</code>"),
        MdEvent::InlineMath(t) => write_wrapped_text(
            out,
            "<code class=\"math math-inline\">",
            t.as_str(),
            "</code>",
        ),
        MdEvent::DisplayMath(t) => write_wrapped_text(
            out,
            "<pre class=\"math math-display\"><code>",
            t.as_str(),
            "</code></pre>\n",
        ),
        MdEvent::Html(h) => out.append(h.as_str()),
        MdEvent::InlineHtml(h) => out.append(h.as_str()),
        MdEvent::SoftBreak => out.append("\n"),
        MdEvent::HardBreak => out.append("<br />\n"),
        MdEvent::Rule { offset } => {
            let line = newlines_before(source, *offset);
            out.append("<hr data-source-line=\"");
            push_decimal(out, line as u128);
            out.append("\" />\n");
        },
        MdEvent::FootnoteReference(label) => {
            let n = note_footnote(&mut st.footnotes, label);
            out.append("<sup class=\"footnote-reference\"><a href=\"#");
            out.append(label.as_str());
            out.append("\">");
            push_decimal(out, n as u128);
            out.append("</a></sup>");
        },
        MdEvent::TaskListMarker(checked) => {
            if *checked {
                out.append("<input disabled=\"\" type=\"checkbox\" checked=\"\"/>\n");
            } else {
                out.append("<input disabled=\"\" type=\"checkbox\"/>\n");
            }
        },
    }
    assert(out@ =~= start + render_step(m, *ev, source@, opt_str_view(base_dir)).1);
    assert(st.model() =~~= render_step(m, *ev, source@, opt_str_view(base_dir)).0);
}

/// Renders a sequence of Markdown events to HTML. `markdown` is the source the
/// events' offsets point into; `base_dir` is the directory against which
/// relative image paths are resolved.
pub fn render_events(markdown: &str, events: &Vec<MdEvent>, base_dir: Option<&str>) -> (html: String)
    ensures
        html@ == rendered_html(events@, markdown.spec_bytes(), opt_str_view(base_dir)),
{
    let source = markdown.as_bytes();
    let mut st = Renderer {
        in_table_header: false,
        alignments: Vec::new(),
        cell_index: 0,
        footnotes: Vec::new(),
    };
    let mut html = String::new();
    let mut i: usize = 0;
    assert(string_views(st.footnotes@) =~= Seq::<Seq<char>>::empty());
    assert(st.alignments@ =~= Seq::<Align>::empty());
    assert(st.model() =~~= initial_model());
    while i < events.len()
        invariant
            i <= events@.len(),
            source@ == markdown.spec_bytes(),
            st.cell_index <= i,
            st.footnotes@.len() <= i,
            st.model() == render_prefix(events@, source@, opt_str_view(base_dir), i as nat).0,
            html@ == render_prefix(events@, source@, opt_str_view(base_dir), i as nat).1,
        decreases events@.len() - i,
    {
        render_event(&mut html, &mut st, &events[i], source, base_dir);
        i = i + 1;
    }
    html
}


/// The parser options that the editor enables: tables (bit 1), footnotes (bit 2),
/// strikethrough (bit 3) and task lists (bit 4).
pub const MARKDOWN_OPTIONS: u32 = (1 << 1) | (1 << 2) | (1 << 3) | (1 << 4);

/// The preview HTML of a Markdown text: the events that pulldown-cmark yields for
/// it under `MARKDOWN_OPTIONS`, rendered against `base_dir`.
pub open spec fn markdown_html(markdown: Seq<char>, base_dir: Option<Seq<char>>) -> Seq<char> {
    rendered_html(markdown_events(markdown, MARKDOWN_OPTIONS), encode_utf8(markdown), base_dir)
}

/// Parses Markdown with pulldown-cmark (tables, footnotes, strikethrough and task
/// lists enabled) and renders it to HTML with `data-source-line` attributes on
/// block-level elements. With `base_dir`, relative image paths become
/// `localimage://` URLs.
pub fn markdown_to_html(markdown: &str, base_dir: Option<&str>) -> (html: String)
    ensures
        html@ == markdown_html(markdown@, opt_str_view(base_dir)),
{
    let events = parse_events(markdown, MARKDOWN_OPTIONS);
    render_events(markdown, &events, base_dir)
}

/// Parses Markdown to HTML without a base directory.
pub fn parse_markdown(content: String) -> (html: String)
    ensures
        html@ == markdown_html(content@, None),
{
    markdown_to_html(content.as_str(), None)
}


/// Rendering is incremental: the HTML of the first `a` events is a prefix of the
/// HTML of the first `b` events whenever `a <= b`.
pub proof fn lemma_render_prefix_grows(
    events: Seq<MdEvent>,
    source: Seq<u8>,
    base_dir: Option<Seq<char>>,
    a: nat,
    b: nat,
)
    requires
        a <= b <= events.len(),
    ensures
        render_prefix(events, source, base_dir, a).1.len() <= render_prefix(events, source, base_dir, b).1.len(),
        render_prefix(events, source, base_dir, b).1.subrange(
            0,
            render_prefix(events, source, base_dir, a).1.len() as int,
        ) == render_prefix(events, source, base_dir, a).1,
    decreases b - a,
{
    let pa = render_prefix(events, source, base_dir, a).1;
    if a < b {
        lemma_render_prefix_grows(events, source, base_dir, a, (b - 1) as nat);
        let pb1 = render_prefix(events, source, base_dir, (b - 1) as nat).1;
        let pb = render_prefix(events, source, base_dir, b).1;
        assert(pb.subrange(0, pb1.len() as int) =~= pb1);
        assert(pb.subrange(0, pa.len() as int) =~= pb1.subrange(0, pa.len() as int));
    } else {
        assert(pa.subrange(0, pa.len() as int) =~= pa);
    }
}

/// A footnote keeps its number: once a label has been seen, using any label
/// (the same or another) leaves its position, and so its number, unchanged.
pub proof fn lemma_footnote_number_stable(labels: Seq<Seq<char>>, seen: Seq<char>, used: Seq<char>)
    requires
        label_position(labels, seen) < labels.len(),
    ensures
        footnote_number(note_label(labels, used), seen) == footnote_number(labels, seen),
        label_position(labels, used) < labels.len() || note_label(labels, used).len() == labels.len() + 1,
{
    lemma_label_position_push(labels, seen, used);
}

proof fn lemma_label_position_push(labels: Seq<Seq<char>>, seen: Seq<char>, extra: Seq<char>)
    requires
        label_position(labels, seen) < labels.len(),
    ensures
        label_position(labels.push(extra), seen) == label_position(labels, seen),
    decreases labels.len(),
{
    if labels[0] != seen {
        assert(labels.push(extra).drop_first() =~= labels.drop_first().push(extra));
        lemma_label_position_push(labels.drop_first(), seen, extra);
    }
}

/// Escaped body text never contains `<` or `>`, so text events cannot open or
/// close markup.
pub proof fn lemma_escaped_text_has_no_angle_brackets(s: Seq<char>)
    ensures
        forall|i: int| 0 <= i < escaped_body_text(s).len() ==> escaped_body_text(s)[i] != '<'
            && escaped_body_text(s)[i] != '>',
    decreases s.len(),
{
    reveal_strlit("&amp;");
    reveal_strlit("&lt;");
    reveal_strlit("&gt;");
    if s.len() > 0 {
        lemma_escaped_text_has_no_angle_brackets(s.drop_last());
        let prev = escaped_body_text(s.drop_last());
        let last = escape_body_char(s.last());
        assert forall|i: int| 0 <= i < escaped_body_text(s).len() implies escaped_body_text(s)[i] != '<'
            && escaped_body_text(s)[i] != '>' by {
            if i >= prev.len() {
                assert(escaped_body_text(s)[i] == last[i - prev.len()]);
            } else {
                assert(escaped_body_text(s)[i] == prev[i]);
            }
        }
    }
}

/// The byte offset of an event that writes a `data-source-line` attribute: the
/// start of a paragraph, heading, block quote, code block, list or table, or a rule.
pub open spec fn annotated_offset(ev: MdEvent) -> Option<usize> {
    match ev {
        MdEvent::Start { tag, offset } => match tag {
            MdTag::Paragraph => Some(offset),
            MdTag::Heading { .. } => Some(offset),
            MdTag::BlockQuote => Some(offset),
            MdTag::CodeBlock(_) => Some(offset),
            MdTag::List(_) => Some(offset),
            MdTag::Table(_) => Some(offset),
            _ => None,
        },
        MdEvent::Rule { offset } => Some(offset),
        _ => None,
    }
}

/// When the annotated events come in source order, the `data-source-line`
/// values written for them never decrease.
pub proof fn lemma_source_lines_in_order(events: Seq<MdEvent>, source: Seq<u8>)
    requires
        forall|i: int, j: int|
            0 <= i < j < events.len() && annotated_offset(events[i]) is Some && annotated_offset(
                events[j],
            ) is Some ==> annotated_offset(events[i])->0 <= annotated_offset(events[j])->0,
    ensures
        forall|i: int, j: int|
            0 <= i < j < events.len() && annotated_offset(events[i]) is Some && annotated_offset(
                events[j],
            ) is Some ==> line_of_offset(source, annotated_offset(events[i])->0 as int)
                <= line_of_offset(source, annotated_offset(events[j])->0 as int),
{
    assert forall|i: int, j: int|
        0 <= i < j < events.len() && annotated_offset(events[i]) is Some && annotated_offset(
            events[j],
        ) is Some implies line_of_offset(source, annotated_offset(events[i])->0 as int)
        <= line_of_offset(source, annotated_offset(events[j])->0 as int) by {
        lemma_line_of_offset_monotone(
            source,
            annotated_offset(events[i])->0 as int,
            annotated_offset(events[j])->0 as int,
        );
    }
}

/// A heading is written with the tag of its own level: a heading start of level
/// `L` opens with `<h` followed by `L` in decimal, and its end is `</h`, `L`, `>`
/// and a newline.
pub proof fn lemma_heading_tags_name_their_level(
    m: RenderModel,
    level: u8,
    id: Option<String>,
    classes: Vec<String>,
    attrs: Vec<(String, Option<String>)>,
    offset: usize,
    source: Seq<u8>,
    base_dir: Option<Seq<char>>,
)
    ensures
        has_prefix(
            render_step(
                m,
                MdEvent::Start { tag: MdTag::Heading { level, id, classes, attrs }, offset },
                source,
                base_dir,
            ).1,
            "<"@ + "h"@ + decimal(level as nat),
        ),
        render_step(m, MdEvent::End(MdTagEnd::Heading(level)), source, base_dir).1 == "</"@
            + "h"@ + decimal(level as nat) + ">\n"@,
{
    let text = render_step(
        m,
        MdEvent::Start { tag: MdTag::Heading { level, id, classes, attrs }, offset },
        source,
        base_dir,
    ).1;
    let p = "<"@ + "h"@ + decimal(level as nat);
    assert(text.subrange(0, p.len() as int) =~= p);
}

} // verus!
