//! The input alphabet: one flat, closed sum type with a variant for every
//! structural or inline marker and every leaf that the upstream producer can
//! yield.  The producer linearizes document nesting into this stream; the
//! render machine consumes it one event at a time.

use vstd::prelude::*;

verus! {

/// One input event.  Paired `...Start` / `...End` variants open and close a
/// construct; the remaining variants are leaves.
#[derive(Clone, Debug, PartialEq)]
pub enum Event {
    ParagraphStart,
    ParagraphEnd,
    /// A heading of the given level, 1 through 6.
    HeadingStart(u8),
    HeadingEnd(u8),
    BlockQuoteStart,
    BlockQuoteEnd,
    /// A code block with an optional language token.
    CodeBlockStart(Option<String>),
    CodeBlockEnd,
    /// A list; `Some(n)` is an ordered list starting at ordinal `n`.
    ListStart(Option<u64>),
    ListEnd,
    ItemStart,
    ItemEnd,
    TableStart,
    TableEnd,
    TableHeadStart,
    TableHeadEnd,
    TableRowStart,
    TableRowEnd,
    TableCellStart,
    TableCellEnd,
    /// A footnote definition with its label.
    FootnoteDefinitionStart(String),
    FootnoteDefinitionEnd,
    EmphasisStart,
    EmphasisEnd,
    StrongStart,
    StrongEnd,
    StrikethroughStart,
    StrikethroughEnd,
    /// A link to the given destination URL.
    LinkStart(String),
    LinkEnd,
    /// An image: destination URL and title text.
    ImageStart(String, String),
    ImageEnd,
    /// Plain text.
    Text(String),
    /// Inline code.
    Code(String),
    /// Raw markup passed through by the producer, not interpreted here.
    RawMarkup(String),
    /// A reference to a footnote with the given label.
    FootnoteReference(String),
    SoftBreak,
    HardBreak,
    /// A horizontal rule.
    Rule,
    /// A task-list marker; the payload says whether the box is checked.
    TaskListMarker(bool),
}

} // verus!
