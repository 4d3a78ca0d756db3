//! Reading Markdown text into events, with the `pulldown_cmark` parser.

use vstd::prelude::*;
use crate::event::{Align, CodeKind, DocEvent, DocEventView, LinkKind, Level, Region};
use crate::reference::resolve_reference;

verus! {

/// An event as the parser yields it: nothing is known of what it holds.
#[verifier::external_type_specification]
#[verifier::external_body]
pub struct ExParsedEvent<'a>(pulldown_cmark::Event<'a>);

/// A tag as the parser yields it: nothing is known of what it holds.
#[verifier::external_type_specification]
#[verifier::external_body]
pub struct ExParsedTag<'a>(pulldown_cmark::Tag<'a>);

/// The kind of a code block as the parser yields it: nothing is known of
/// what it holds.
#[verifier::external_type_specification]
#[verifier::external_body]
pub struct ExParsedCodeBlockKind<'a>(pulldown_cmark::CodeBlockKind<'a>);

/// The alignment of a table column as the parser yields it: nothing is
/// known of what it holds.
#[verifier::external_type_specification]
#[verifier::external_body]
pub struct ExParsedAlignment(pulldown_cmark::Alignment);

/// The level of a heading as the parser yields it: nothing is known of what
/// it holds.
#[verifier::external_type_specification]
#[verifier::external_body]
pub struct ExParsedHeadingLevel(pulldown_cmark::HeadingLevel);

/// The kind of a link as the parser yields it: nothing is known of what it
/// holds.
#[verifier::external_type_specification]
#[verifier::external_body]
pub struct ExParsedLinkType(pulldown_cmark::LinkType);

/// The events that `pulldown_cmark::Parser` reads from `text`, with all its
/// extensions switched on, and with each reference that the text does not
/// define resolved by `resolve_reference`.
pub uninterp spec fn markdown_events(text: Seq<char>) -> Seq<DocEventView>;

/// Parses `text` with `pulldown_cmark::Parser::new_with_broken_link_callback`
/// and all of `pulldown_cmark::Options`, and hands each event over as a
/// [`DocEvent`]. The events depend on `text` alone.
#[verifier::external_body]
pub(crate) fn parse_markdown(text: &str) -> (events: Vec<DocEvent>)
    ensures
        events.deep_view() == markdown_events(text@),
{
    let mut resolve = |link: pulldown_cmark::BrokenLink| {
        resolve_reference(link.reference.as_ref()).map(|(url, label)| (url.into(), label.into()))
    };
    let options = pulldown_cmark::Options::all();
    let parser = pulldown_cmark::Parser::new_with_broken_link_callback(
        text,
        options,
        Some(&mut resolve),
    );
    parser.map(event_from).collect()
}

/// A `pulldown_cmark::Event` as a [`DocEvent`], variant for variant.
#[verifier::external_body]
fn event_from(event: pulldown_cmark::Event) -> DocEvent {
    match event {
        pulldown_cmark::Event::Start(tag) => DocEvent::Start(tag_from(tag)),
        pulldown_cmark::Event::End(tag) => DocEvent::End(tag_from(tag)),
        pulldown_cmark::Event::Text(text) => DocEvent::Text(text.into_string()),
        pulldown_cmark::Event::Code(text) => DocEvent::Code(text.into_string()),
        pulldown_cmark::Event::Html(html) => DocEvent::Html(html.into_string()),
        pulldown_cmark::Event::FootnoteReference(name) => DocEvent::FootnoteReference(name.into_string()),
        pulldown_cmark::Event::SoftBreak => DocEvent::SoftBreak,
        pulldown_cmark::Event::HardBreak => DocEvent::HardBreak,
        pulldown_cmark::Event::Rule => DocEvent::Rule,
        pulldown_cmark::Event::TaskListMarker(checked) => DocEvent::TaskListMarker(checked),
    }
}

/// A `pulldown_cmark::Tag` that carries something as a [`Region`], variant
/// for variant; a tag that carries nothing is left to `plain_tag_from`. A
/// heading keeps its level, a link or an image its destination.
#[verifier::external_body]
fn tag_from(tag: pulldown_cmark::Tag) -> Region {
    match tag {
        pulldown_cmark::Tag::Heading(level, _, _) => Region::Heading(heading_level_from(level)),
        pulldown_cmark::Tag::CodeBlock(kind) => Region::CodeBlock(code_block_kind_from(kind)),
        pulldown_cmark::Tag::List(start) => Region::List(start),
        pulldown_cmark::Tag::FootnoteDefinition(name) => Region::FootnoteDefinition(name.into_string()),
        pulldown_cmark::Tag::Table(columns) => Region::Table(columns.into_iter().map(alignment_from).collect()),
        pulldown_cmark::Tag::Link(kind, dest, _) => Region::Link(link_type_from(kind), dest.into_string()),
        pulldown_cmark::Tag::Image(_, dest, _) => Region::Image(dest.into_string()),
        plain => plain_tag_from(plain),
    }
}

/// A `pulldown_cmark::Tag` that carries nothing as a [`Region`], variant for
/// variant. The seven variants that carry something are named in the last
/// arm, which hands them to `tag_from`, where each has an arm of its own.
#[verifier::external_body]
fn plain_tag_from(tag: pulldown_cmark::Tag) -> Region {
    match tag {
        pulldown_cmark::Tag::Paragraph => Region::Paragraph,
        pulldown_cmark::Tag::BlockQuote => Region::BlockQuote,
        pulldown_cmark::Tag::Item => Region::Item,
        pulldown_cmark::Tag::TableHead => Region::TableHead,
        pulldown_cmark::Tag::TableRow => Region::TableRow,
        pulldown_cmark::Tag::TableCell => Region::TableCell,
        pulldown_cmark::Tag::Emphasis => Region::Emphasis,
        pulldown_cmark::Tag::Strong => Region::Strong,
        pulldown_cmark::Tag::Strikethrough => Region::Strikethrough,
        pulldown_cmark::Tag::Heading(..) | pulldown_cmark::Tag::CodeBlock(_) | pulldown_cmark::Tag::List(_) | pulldown_cmark::Tag::FootnoteDefinition(_) | pulldown_cmark::Tag::Table(_) | pulldown_cmark::Tag::Link(..) | pulldown_cmark::Tag::Image(..) => tag_from(tag),
    }
}

/// A `pulldown_cmark::CodeBlockKind` as a [`CodeKind`].
#[verifier::external_body]
fn code_block_kind_from(kind: pulldown_cmark::CodeBlockKind) -> CodeKind {
    match kind {
        pulldown_cmark::CodeBlockKind::Indented => CodeKind::Indented,
        pulldown_cmark::CodeBlockKind::Fenced(info) => CodeKind::Fenced(info.into_string()),
    }
}

/// A `pulldown_cmark::HeadingLevel` as a [`Level`].
#[verifier::external_body]
fn heading_level_from(level: pulldown_cmark::HeadingLevel) -> Level {
    match level {
        pulldown_cmark::HeadingLevel::H1 => Level::H1,
        pulldown_cmark::HeadingLevel::H2 => Level::H2,
        pulldown_cmark::HeadingLevel::H3 => Level::H3,
        pulldown_cmark::HeadingLevel::H4 => Level::H4,
        pulldown_cmark::HeadingLevel::H5 => Level::H5,
        pulldown_cmark::HeadingLevel::H6 => Level::H6,
    }
}

/// A `pulldown_cmark::Alignment` as an [`Align`].
#[verifier::external_body]
fn alignment_from(alignment: pulldown_cmark::Alignment) -> Align {
    match alignment {
        pulldown_cmark::Alignment::None => Align::Unset,
        pulldown_cmark::Alignment::Left => Align::Left,
        pulldown_cmark::Alignment::Center => Align::Center,
        pulldown_cmark::Alignment::Right => Align::Right,
    }
}

/// A `pulldown_cmark::LinkType` as a [`LinkKind`].
#[verifier::external_body]
fn link_type_from(kind: pulldown_cmark::LinkType) -> LinkKind {
    match kind {
        pulldown_cmark::LinkType::Inline => LinkKind::Inline,
        pulldown_cmark::LinkType::Reference => LinkKind::Reference,
        pulldown_cmark::LinkType::ReferenceUnknown => LinkKind::ReferenceUnknown,
        pulldown_cmark::LinkType::Collapsed => LinkKind::Collapsed,
        pulldown_cmark::LinkType::CollapsedUnknown => LinkKind::CollapsedUnknown,
        pulldown_cmark::LinkType::Shortcut => LinkKind::Shortcut,
        pulldown_cmark::LinkType::ShortcutUnknown => LinkKind::ShortcutUnknown,
        pulldown_cmark::LinkType::Autolink => LinkKind::Autolink,
        pulldown_cmark::LinkType::Email => LinkKind::Email,
    }
}

} // verus!
