//! The stream of structural events that a Markdown document parses into.

use vstd::prelude::*;

verus! {

/// How the text of a table column is aligned.
#[derive(Clone, Copy, Debug, PartialEq, Eq, Structural)]
pub enum Align {
    /// No alignment was declared.
    Unset,
    Left,
    Center,
    Right,
}

/// The depth of a heading, from the document title downwards.
#[derive(Clone, Copy, Debug, PartialEq, Eq, Structural)]
pub enum Level {
    H1,
    H2,
    H3,
    H4,
    H5,
    H6,
}

/// How a link was written in the source.
#[derive(Clone, Copy, Debug, PartialEq, Eq, Structural)]
pub enum LinkKind {
    /// `[foo](bar)`
    Inline,
    /// `[foo][bar]`
    Reference,
    /// `[foo][bar]` with no definition of `bar` in the document.
    ReferenceUnknown,
    /// `[foo][]`
    Collapsed,
    /// `[foo][]` with no definition of `foo` in the document.
    CollapsedUnknown,
    /// `[foo]`
    Shortcut,
    /// `[foo]` with no definition of `foo` in the document.
    ShortcutUnknown,
    /// `<http://foo.bar/baz>`
    Autolink,
    /// `<john@example.org>`
    Email,
}

/// Whether a code block was fenced or indented.
#[derive(Clone, Debug)]
pub enum CodeKind {
    Indented,
    /// The info string that follows the opening fence; it may be empty.
    Fenced(String),
}

/// The mathematical value of a [`CodeKind`].
pub enum CodeKindView {
    Indented,
    Fenced(Seq<char>),
}

impl DeepView for CodeKind {
    type V = CodeKindView;

    open spec fn deep_view(&self) -> CodeKindView {
        match self {
            CodeKind::Indented => CodeKindView::Indented,
            CodeKind::Fenced(info) => CodeKindView::Fenced(info@),
        }
    }
}

/// A structural region of the document, opened by [`DocEvent::Start`] and
/// closed by [`DocEvent::End`].
#[derive(Clone, Debug)]
pub enum Region {
    Paragraph,
    Heading(Level),
    /// A table, with the alignment of each of its columns.
    Table(Vec<Align>),
    TableHead,
    TableRow,
    TableCell,
    BlockQuote,
    CodeBlock(CodeKind),
    /// A list; an ordered one carries the number of its first item.
    List(Option<u64>),
    Item,
    Emphasis,
    Strong,
    Strikethrough,
    /// A link, with its kind and destination.
    Link(LinkKind, String),
    /// An image, with its destination.
    Image(String),
    /// The definition of the footnote with the given name.
    FootnoteDefinition(String),
    HtmlBlock,
    MetadataBlock,
}

/// The mathematical value of a [`Region`].
pub enum RegionView {
    Paragraph,
    Heading(Level),
    Table(Seq<Align>),
    TableHead,
    TableRow,
    TableCell,
    BlockQuote,
    CodeBlock(CodeKindView),
    List(Option<u64>),
    Item,
    Emphasis,
    Strong,
    Strikethrough,
    Link(LinkKind, Seq<char>),
    Image(Seq<char>),
    FootnoteDefinition(Seq<char>),
    HtmlBlock,
    MetadataBlock,
}

impl DeepView for Region {
    type V = RegionView;

    open spec fn deep_view(&self) -> RegionView {
        match self {
            Region::Paragraph => RegionView::Paragraph,
            Region::Heading(level) => RegionView::Heading(*level),
            Region::Table(alignments) => RegionView::Table(alignments@),
            Region::TableHead => RegionView::TableHead,
            Region::TableRow => RegionView::TableRow,
            Region::TableCell => RegionView::TableCell,
            Region::BlockQuote => RegionView::BlockQuote,
            Region::CodeBlock(kind) => RegionView::CodeBlock(kind.deep_view()),
            Region::List(start) => RegionView::List(*start),
            Region::Item => RegionView::Item,
            Region::Emphasis => RegionView::Emphasis,
            Region::Strong => RegionView::Strong,
            Region::Strikethrough => RegionView::Strikethrough,
            Region::Link(link_type, dest) => RegionView::Link(*link_type, dest@),
            Region::Image(dest) => RegionView::Image(dest@),
            Region::FootnoteDefinition(name) => RegionView::FootnoteDefinition(name@),
            Region::HtmlBlock => RegionView::HtmlBlock,
            Region::MetadataBlock => RegionView::MetadataBlock,
        }
    }
}

/// One unit of a parsed Markdown document.
#[derive(Clone, Debug)]
pub enum DocEvent {
    /// The start of a region; what follows, up to the matching `End`, lies
    /// inside it.
    Start(Region),
    /// The end of a region.
    End(Region),
    Text(String),
    /// An inline code span.
    Code(String),
    InlineMath(String),
    DisplayMath(String),
    /// A block of raw HTML.
    Html(String),
    /// Raw HTML inside a line of text.
    InlineHtml(String),
    SoftBreak,
    HardBreak,
    /// A horizontal ruler.
    Rule,
    /// A reference to the footnote with the given name.
    FootnoteReference(String),
    /// The marker of a task list item; `true` when it is checked.
    TaskListMarker(bool),
}

/// The mathematical value of an [`DocEvent`].
pub enum DocEventView {
    Start(RegionView),
    End(RegionView),
    Text(Seq<char>),
    Code(Seq<char>),
    InlineMath(Seq<char>),
    DisplayMath(Seq<char>),
    Html(Seq<char>),
    InlineHtml(Seq<char>),
    SoftBreak,
    HardBreak,
    Rule,
    FootnoteReference(Seq<char>),
    TaskListMarker(bool),
}

impl DeepView for DocEvent {
    type V = DocEventView;

    open spec fn deep_view(&self) -> DocEventView {
        match self {
            DocEvent::Start(tag) => DocEventView::Start(tag.deep_view()),
            DocEvent::End(tag) => DocEventView::End(tag.deep_view()),
            DocEvent::Text(text) => DocEventView::Text(text@),
            DocEvent::Code(text) => DocEventView::Code(text@),
            DocEvent::InlineMath(text) => DocEventView::InlineMath(text@),
            DocEvent::DisplayMath(text) => DocEventView::DisplayMath(text@),
            DocEvent::Html(text) => DocEventView::Html(text@),
            DocEvent::InlineHtml(text) => DocEventView::InlineHtml(text@),
            DocEvent::SoftBreak => DocEventView::SoftBreak,
            DocEvent::HardBreak => DocEventView::HardBreak,
            DocEvent::Rule => DocEventView::Rule,
            DocEvent::FootnoteReference(name) => DocEventView::FootnoteReference(name@),
            DocEvent::TaskListMarker(checked) => DocEventView::TaskListMarker(*checked),
        }
    }
}

} // verus!
