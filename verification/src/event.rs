//! The input vocabulary: the flat, ordered sequence of lexical events
//! that an external CommonMark-compatible lexer produces. Start and end
//! markers are expected to nest in stack order; the renderer recovers
//! from sequences where they do not.
use vstd::prelude::*;

verus! {

/// Heading level; the lexer only produces levels one through six.
#[derive(Debug, Clone, Copy, PartialEq, Eq)]
pub enum HeadingLevel {
    H1,
    H2,
    H3,
    H4,
    H5,
    H6,
}

/// The alert kind a block quote may carry.
#[derive(Debug, Clone, Copy, PartialEq, Eq)]
pub enum BlockQuoteKind {
    Note,
    Tip,
    Important,
    Warning,
    Caution,
}

/// Indented code blocks carry nothing; fenced ones carry their info
/// string, whose first whitespace-delimited token names the language.
#[derive(Debug, Clone, PartialEq, Eq)]
pub enum CodeBlockKind {
    Indented,
    Fenced { info: String },
}

/// Per-column table alignment.
#[derive(Debug, Clone, Copy, PartialEq, Eq)]
pub enum Alignment {
    Unset,
    Left,
    Center,
    Right,
}

/// How a link was written; only the email form changes rendering.
#[derive(Debug, Clone, Copy, PartialEq, Eq)]
pub enum LinkType {
    Plain,
    Email,
    Other,
}

/// A start marker, carrying the attributes of the scope it opens.
#[derive(Debug, Clone, PartialEq, Eq)]
pub enum Tag {
    Paragraph,
    Heading { level: HeadingLevel, id: Option<String>, classes: Vec<String> },
    BlockQuote { kind: Option<BlockQuoteKind> },
    CodeBlock { kind: CodeBlockKind },
    HtmlBlock,
    List { start: Option<u64> },
    Item,
    FootnoteDefinition { name: String },
    DefinitionList,
    DefinitionListTitle,
    DefinitionListDefinition,
    Table { alignments: Vec<Alignment> },
    TableHead,
    TableRow,
    TableCell,
    Emphasis,
    Strong,
    Strikethrough,
    Link { link_type: LinkType, dest_url: String, title: String },
    Subscript,
    Superscript,
    Image { dest_url: String, title: String },
    MetadataBlock,
}

/// An end marker: one per start kind, no payload beyond which scope
/// closes.
#[derive(Debug, Clone, Copy, PartialEq, Eq)]
pub enum TagEnd {
    Paragraph,
    Heading,
    BlockQuote,
    CodeBlock,
    HtmlBlock,
    List,
    Item,
    FootnoteDefinition,
    DefinitionList,
    DefinitionListTitle,
    DefinitionListDefinition,
    Table,
    TableHead,
    TableRow,
    TableCell,
    Emphasis,
    Strong,
    Strikethrough,
    Link,
    Subscript,
    Superscript,
    Image,
    MetadataBlock,
}

/// One lexical event: a scope marker or an inline leaf.
#[derive(Debug, Clone, PartialEq, Eq)]
pub enum Event {
    Start { tag: Tag },
    End { tag: TagEnd },
    Text { text: String },
    Code { text: String },
    InlineMath { text: String },
    DisplayMath { text: String },
    Html { html: String },
    InlineHtml { html: String },
    FootnoteReference { name: String },
    SoftBreak,
    HardBreak,
    Rule,
    TaskListMarker { checked: bool },
}

/// Mathematical mirror of `Tag`: strings as character sequences.
pub enum TagView {
    Paragraph,
    Heading { level: HeadingLevel, id: Option<Seq<char>>, classes: Seq<Seq<char>> },
    BlockQuote { kind: Option<BlockQuoteKind> },
    CodeBlockIndented,
    CodeBlockFenced { info: Seq<char> },
    HtmlBlock,
    List { start: Option<u64> },
    Item,
    FootnoteDefinition { name: Seq<char> },
    DefinitionList,
    DefinitionListTitle,
    DefinitionListDefinition,
    Table { alignments: Seq<Alignment> },
    TableHead,
    TableRow,
    TableCell,
    Emphasis,
    Strong,
    Strikethrough,
    Link { link_type: LinkType, dest_url: Seq<char>, title: Seq<char> },
    Subscript,
    Superscript,
    Image { dest_url: Seq<char>, title: Seq<char> },
    MetadataBlock,
}

/// Mathematical mirror of `Event`.
pub enum EventView {
    Start { tag: TagView },
    End { tag: TagEnd },
    Text { text: Seq<char> },
    Code { text: Seq<char> },
    InlineMath { text: Seq<char> },
    DisplayMath { text: Seq<char> },
    Html { html: Seq<char> },
    InlineHtml { html: Seq<char> },
    FootnoteReference { name: Seq<char> },
    SoftBreak,
    HardBreak,
    Rule,
    TaskListMarker { checked: bool },
}

pub open spec fn opt_string_view(o: Option<String>) -> Option<Seq<char>> {
    match o {
        Option::Some(s) => Option::Some(s@),
        Option::None => Option::None,
    }
}

pub open spec fn strings_view(v: Seq<String>) -> Seq<Seq<char>> {
    Seq::new(v.len(), |i: int| v[i]@)
}

impl View for Tag {
    type V = TagView;

    open spec fn view(&self) -> TagView {
        match self {
            Tag::Paragraph => TagView::Paragraph,
            Tag::Heading { level, id, classes } => TagView::Heading {
                level: *level,
                id: opt_string_view(*id),
                classes: strings_view(classes@),
            },
            Tag::BlockQuote { kind } => TagView::BlockQuote { kind: *kind },
            Tag::CodeBlock { kind } => match kind {
                CodeBlockKind::Indented => TagView::CodeBlockIndented,
                CodeBlockKind::Fenced { info } => TagView::CodeBlockFenced { info: info@ },
            },
            Tag::HtmlBlock => TagView::HtmlBlock,
            Tag::List { start } => TagView::List { start: *start },
            Tag::Item => TagView::Item,
            Tag::FootnoteDefinition { name } => TagView::FootnoteDefinition { name: name@ },
            Tag::DefinitionList => TagView::DefinitionList,
            Tag::DefinitionListTitle => TagView::DefinitionListTitle,
            Tag::DefinitionListDefinition => TagView::DefinitionListDefinition,
            Tag::Table { alignments } => TagView::Table { alignments: alignments@ },
            Tag::TableHead => TagView::TableHead,
            Tag::TableRow => TagView::TableRow,
            Tag::TableCell => TagView::TableCell,
            Tag::Emphasis => TagView::Emphasis,
            Tag::Strong => TagView::Strong,
            Tag::Strikethrough => TagView::Strikethrough,
            Tag::Link { link_type, dest_url, title } => TagView::Link {
                link_type: *link_type,
                dest_url: dest_url@,
                title: title@,
            },
            Tag::Subscript => TagView::Subscript,
            Tag::Superscript => TagView::Superscript,
            Tag::Image { dest_url, title } => TagView::Image {
                dest_url: dest_url@,
                title: title@,
            },
            Tag::MetadataBlock => TagView::MetadataBlock,
        }
    }
}

impl View for Event {
    type V = EventView;

    open spec fn view(&self) -> EventView {
        match self {
            Event::Start { tag } => EventView::Start { tag: tag@ },
            Event::End { tag } => EventView::End { tag: *tag },
            Event::Text { text } => EventView::Text { text: text@ },
            Event::Code { text } => EventView::Code { text: text@ },
            Event::InlineMath { text } => EventView::InlineMath { text: text@ },
            Event::DisplayMath { text } => EventView::DisplayMath { text: text@ },
            Event::Html { html } => EventView::Html { html: html@ },
            Event::InlineHtml { html } => EventView::InlineHtml { html: html@ },
            Event::FootnoteReference { name } => EventView::FootnoteReference { name: name@ },
            Event::SoftBreak => EventView::SoftBreak,
            Event::HardBreak => EventView::HardBreak,
            Event::Rule => EventView::Rule,
            Event::TaskListMarker { checked } => EventView::TaskListMarker { checked: *checked },
        }
    }
}

pub open spec fn events_view(evs: Seq<Event>) -> Seq<EventView> {
    Seq::new(evs.len(), |i: int| evs[i]@)
}

} // verus!
