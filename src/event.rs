//! The Markdown events that the renderer consumes, in the order a Markdown
//! parser produces them.

use vstd::prelude::*;

verus! {

/// A container that opens with `Event::Start` and closes with `Event::End`.
#[derive(Clone, Debug, PartialEq, Eq)]
pub enum Tag {
    Paragraph,
    /// A heading, by its level (1 to 6).
    Heading(u8),
    BlockQuote,
    /// A code block; a fenced one carries its language token.
    CodeBlock(Option<String>),
    /// A list; `true` when it is ordered.
    List(bool),
    Item,
    TableHead,
    TableRow,
    TableCell,
    Emphasis,
    Strong,
    Strikethrough,
    /// A link, by its destination.
    Link(String),
    /// An image, by its destination.
    Image(String),
    /// A container that the renderer passes through (a table, a footnote
    /// definition, an HTML block, ...).
    Other,
}

/// The end of a container.
#[derive(Clone, Copy, Debug, PartialEq, Eq)]
pub enum TagEnd {
    Paragraph,
    Heading,
    BlockQuote,
    CodeBlock,
    List,
    Item,
    TableHead,
    TableRow,
    TableCell,
    Emphasis,
    Strong,
    Strikethrough,
    Link,
    Image,
    Other,
}

/// One event of a parsed Markdown document.
#[derive(Clone, Debug, PartialEq, Eq)]
pub enum Event {
    Start(Tag),
    End(TagEnd),
    /// Text, written as it is.
    Text(String),
    /// Inline code.
    Code(String),
    SoftBreak,
    HardBreak,
    /// A thematic break.
    Rule,
    /// A task list marker, with whether it is checked.
    TaskListMarker(bool),
    /// A chunk of block-level raw HTML.
    Html(String),
    /// Anything else (inline HTML, math, footnote references): dropped.
    Other,
}

} // verus!
