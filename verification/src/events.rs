//! The Markdown events the renderer reads, held as plain values, and the call
//! into pulldown-cmark that produces them.

use vstd::prelude::*;
use std::ops::Range;
use pulldown_cmark::{Alignment, CodeBlockKind, CowStr, Event, HeadingLevel, Tag, TagEnd};
use pulldown_cmark::Event::{
    Code, DisplayMath, End, FootnoteReference, HardBreak, Html, InlineHtml, InlineMath, Rule,
    SoftBreak, Start, TaskListMarker, Text,
};
use pulldown_cmark::Tag::{
    BlockQuote, CodeBlock, DefinitionList, DefinitionListDefinition, DefinitionListTitle,
    Emphasis, FootnoteDefinition, Heading, HtmlBlock, Image, Item, Link, List, MetadataBlock,
    Paragraph, Strikethrough, Strong, Table, TableCell, TableHead, TableRow,
};
// The library's tags under `Md`-prefixed names, beside pulldown-cmark's.
use crate::events::MdTag::{
    BlockQuote as MdBlockQuote,
    CodeBlock as MdCodeBlock,
    DefinitionList as MdDefinitionList,
    DefinitionListDefinition as MdDefinitionListDefinition,
    DefinitionListTitle as MdDefinitionListTitle,
    Emphasis as MdEmphasis,
    FootnoteDefinition as MdFootnoteDefinition,
    HtmlBlock as MdHtmlBlock,
    Image as MdImage,
    Item as MdItem,
    Link as MdLink,
    List as MdList,
    MetadataBlock as MdMetadataBlock,
    Paragraph as MdParagraph,
    Strikethrough as MdStrikethrough,
    Strong as MdStrong,
    Table as MdTable,
    TableCell as MdTableCell,
    TableHead as MdTableHead,
    TableRow as MdTableRow,
};

verus! {

/// Column alignment of a table.
#[derive(Clone, Copy, Debug, PartialEq, Eq, Structural)]
pub enum Align {
    Unaligned,
    Left,
    Center,
    Right,
}

/// An element that opens (and is closed by a matching `MdTagEnd`).
#[derive(Clone, Debug)]
pub enum MdTag {
    Paragraph,
    /// A heading of level 1 to 6, with the identifier, classes and attributes written after it.
    Heading {
        level: u8,
        id: Option<String>,
        classes: Vec<String>,
        attrs: Vec<(String, Option<String>)>,
    },
    BlockQuote,
    /// A code block: `Some(info)` for a fenced block with its info string, `None` for an indented one.
    CodeBlock(Option<String>),
    HtmlBlock,
    /// A list: `Some(start)` for an ordered list starting at `start`, `None` for a bullet list.
    List(Option<u64>),
    Item,
    FootnoteDefinition(String),
    DefinitionList,
    DefinitionListTitle,
    DefinitionListDefinition,
    Table(Vec<Align>),
    TableHead,
    TableRow,
    TableCell,
    Emphasis,
    Strong,
    Strikethrough,
    Link { dest_url: String, title: String },
    Image { dest_url: String },
    MetadataBlock,
}

/// The end of an element.
#[derive(Clone, Copy, Debug, PartialEq, Eq, Structural)]
pub enum MdTagEnd {
    Paragraph,
    Heading(u8),
    BlockQuote,
    CodeBlock,
    HtmlBlock,
    /// The end of a list; `true` for an ordered one.
    List(bool),
    Item,
    FootnoteDefinition,
    DefinitionList,
    DefinitionListTitle,
    DefinitionListDefinition,
    Table,
    TableHead,
    TableRow,
    TableCell,
    Emphasis,
    Strong,
    Strikethrough,
    Link,
    Image,
    MetadataBlock,
}

/// One parse event. Element starts and rules carry the byte offset in the
/// source at which they begin.
#[derive(Clone, Debug)]
pub enum MdEvent {
    Start { tag: MdTag, offset: usize },
    End(MdTagEnd),
    Text(String),
    Code(String),
    InlineMath(String),
    DisplayMath(String),
    Html(String),
    InlineHtml(String),
    FootnoteReference(String),
    SoftBreak,
    HardBreak,
    Rule { offset: usize },
    TaskListMarker(bool),
}

#[verifier::external_type_specification]
#[verifier::external_body]
pub struct ExEvent<'a>(Event<'a>);

#[verifier::external_type_specification]
#[verifier::external_body]
pub struct ExTag<'a>(Tag<'a>);

#[verifier::external_type_specification]
#[verifier::external_body]
pub struct ExTagEnd(TagEnd);

#[verifier::external_type_specification]
#[verifier::external_body]
pub struct ExAlignment(Alignment);

#[verifier::external_type_specification]
#[verifier::external_body]
pub struct ExCodeBlockKind<'a>(CodeBlockKind<'a>);

#[verifier::external_type_specification]
#[verifier::external_body]
pub struct ExHeadingLevel(HeadingLevel);

#[verifier::external_type_specification]
#[verifier::external_body]
pub struct ExCowStr<'a>(CowStr<'a>);

/// The events, with their start offsets, that pulldown-cmark's parser yields for
/// a text under the given option bits.
pub uninterp spec fn markdown_events(markdown: Seq<char>, options: u32) -> Seq<MdEvent>;

/// Calls pulldown-cmark: `Parser::new_ext` with the options given as bits, walked
/// with `into_offset_iter`. Each event, with the start of its source range, is
/// carried over into `MdEvent`; the sequence is named by `markdown_events`.
#[verifier::external_body]
pub(crate) fn parse_events(markdown: &str, options: u32) -> (res: Vec<MdEvent>)
    ensures
        res@ == markdown_events(markdown@, options),
{
    let opts = pulldown_cmark::Options::from_bits_truncate(options);
    let parser = pulldown_cmark::Parser::new_ext(markdown, opts);
    parser.into_offset_iter().map(event_from).collect()
}

/// Carries a pulldown-cmark event, with its source range, over into an `MdEvent`.
#[verifier::external_body]
fn event_from(item: (Event<'_>, Range<usize>)) -> MdEvent {
    match item.0 {
        Start(t) => MdEvent::Start { tag: tag_from(t), offset: item.1.start },
        End(t) => MdEvent::End(tag_end_from(t)),
        Text(s) => MdEvent::Text(text_of(s)),
        Code(s) => MdEvent::Code(text_of(s)),
        InlineMath(s) => MdEvent::InlineMath(text_of(s)),
        DisplayMath(s) => MdEvent::DisplayMath(text_of(s)),
        Html(s) => MdEvent::Html(text_of(s)),
        InlineHtml(s) => MdEvent::InlineHtml(text_of(s)),
        FootnoteReference(s) => MdEvent::FootnoteReference(text_of(s)),
        SoftBreak => MdEvent::SoftBreak,
        HardBreak => MdEvent::HardBreak,
        Rule => MdEvent::Rule { offset: item.1.start },
        TaskListMarker(b) => MdEvent::TaskListMarker(b),
    }
}

/// Carries a pulldown-cmark string over into a `String`.
#[verifier::external_body]
fn text_of(s: CowStr<'_>) -> String {
    s.into_string()
}

/// Carries a pulldown-cmark tag over into an `MdTag`, variant for variant.
#[verifier::external_body]
fn tag_from(t: Tag<'_>) -> MdTag {
    match t {
        Paragraph => MdParagraph, HtmlBlock => MdHtmlBlock, Item => MdItem,
        BlockQuote(_) => MdBlockQuote, MetadataBlock(_) => MdMetadataBlock,
        DefinitionList => MdDefinitionList, DefinitionListTitle => MdDefinitionListTitle,
        DefinitionListDefinition => MdDefinitionListDefinition,
        TableHead => MdTableHead, TableRow => MdTableRow, TableCell => MdTableCell,
        Emphasis => MdEmphasis, Strong => MdStrong, Strikethrough => MdStrikethrough,
        Heading { level, id, classes, attrs } => heading_from(level, id, classes, attrs),
        CodeBlock(k) => MdCodeBlock(info_of(k)), List(n) => MdList(n),
        FootnoteDefinition(s) => MdFootnoteDefinition(text_of(s)),
        Table(a) => MdTable(a.into_iter().map(align_from).collect()),
        Link { dest_url: d, title: l, .. } => MdLink { dest_url: text_of(d), title: text_of(l) },
        Image { dest_url: d, .. } => MdImage { dest_url: text_of(d) },
    }
}

/// Carries the kind of a pulldown-cmark code block over: `Some(info)` for a fenced one.
#[verifier::external_body]
fn info_of(k: CodeBlockKind<'_>) -> Option<String> {
    match k {
        CodeBlockKind::Fenced(info) => Some(text_of(info)),
        CodeBlockKind::Indented => None,
    }
}

/// Carries the data of a pulldown-cmark heading over into an `MdTag`.
#[verifier::external_body]
fn heading_from(
    level: HeadingLevel,
    id: Option<CowStr<'_>>,
    classes: Vec<CowStr<'_>>,
    attrs: Vec<(CowStr<'_>, Option<CowStr<'_>>)>,
) -> MdTag {
    MdTag::Heading {
        level: level as u8,
        id: id.map(|s| text_of(s)),
        classes: classes.into_iter().map(|s| text_of(s)).collect(),
        attrs: attrs.into_iter().map(|(k, v)| (text_of(k), v.map(|v| text_of(v)))).collect(),
    }
}

/// Carries a pulldown-cmark tag end over into an `MdTagEnd`, variant for variant.
#[verifier::external_body]
fn tag_end_from(t: TagEnd) -> MdTagEnd {
    match t {
        TagEnd::Paragraph => MdTagEnd::Paragraph, TagEnd::Heading(l) => MdTagEnd::Heading(l as u8),
        TagEnd::BlockQuote(_) => MdTagEnd::BlockQuote, TagEnd::CodeBlock => MdTagEnd::CodeBlock,
        TagEnd::HtmlBlock => MdTagEnd::HtmlBlock, TagEnd::List(o) => MdTagEnd::List(o),
        TagEnd::Item => MdTagEnd::Item, TagEnd::FootnoteDefinition => MdTagEnd::FootnoteDefinition,
        TagEnd::DefinitionList => MdTagEnd::DefinitionList,
        TagEnd::DefinitionListTitle => MdTagEnd::DefinitionListTitle,
        TagEnd::DefinitionListDefinition => MdTagEnd::DefinitionListDefinition,
        TagEnd::Table => MdTagEnd::Table, TagEnd::TableHead => MdTagEnd::TableHead,
        TagEnd::TableRow => MdTagEnd::TableRow, TagEnd::TableCell => MdTagEnd::TableCell,
        TagEnd::Emphasis => MdTagEnd::Emphasis, TagEnd::Strong => MdTagEnd::Strong,
        TagEnd::Strikethrough => MdTagEnd::Strikethrough, TagEnd::Link => MdTagEnd::Link,
        TagEnd::Image => MdTagEnd::Image, TagEnd::MetadataBlock(_) => MdTagEnd::MetadataBlock,
    }
}

/// Carries a pulldown-cmark column alignment over into an `Align`.
#[verifier::external_body]
fn align_from(a: Alignment) -> Align {
    match a {
        Alignment::None => Align::Unaligned,
        Alignment::Left => Align::Left,
        Alignment::Center => Align::Center,
        Alignment::Right => Align::Right,
    }
}

} // verus!
