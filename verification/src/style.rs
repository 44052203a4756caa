//! Visual styles: colours, font roles, and the immutable style snapshots that
//! the inline style stack holds, together with the pure transformations that
//! each inline construct applies to the current top of the stack.

use vstd::prelude::*;

verus! {

/// Body text size in points.
pub const BODY_FONT_SIZE: u32 = 14;

/// Monospace (code) text size in points.
pub const CODE_FONT_SIZE: u32 = 13;

/// Indent width per list nesting level.
pub const INDENT_STEP: u32 = 20;

/// Deepest list nesting that still widens the indent.
pub const MAX_INDENT_LEVELS: u32 = 100;

/// A colour in 8-bit RGBA form.
#[derive(Clone, Copy, Debug, PartialEq, Eq, Structural)]
pub struct Color {
    pub r: u8,
    pub g: u8,
    pub b: u8,
    pub a: u8,
}

impl Color {
    /// Fully opaque colour from its three channels.
    pub fn rgb(r: u8, g: u8, b: u8) -> (c: Color)
        ensures
            c == (Color { r, g, b, a: 255u8 }),
    {
        Color { r, g, b, a: 255 }
    }

    /// The fully transparent colour.
    pub fn transparent() -> (c: Color)
        ensures
            c == (Color { r: 0u8, g: 0u8, b: 0u8, a: 0u8 }),
    {
        Color { r: 0, g: 0, b: 0, a: 0 }
    }
}

/// Which font family a piece of text is drawn with.
#[derive(Clone, Copy, Debug, PartialEq, Eq, Structural)]
pub enum FontRole {
    /// Proportional body text.
    Body,
    /// A heading; the payload is the heading level, 1 through 6.
    Heading(u8),
    /// Fixed-width text for code.
    Monospace,
}

/// An immutable snapshot of the effective visual style of a piece of text.
#[derive(Clone, Copy, Debug, PartialEq, Eq, Structural)]
pub struct StyleFormat {
    pub role: FontRole,
    pub size: u32,
    pub color: Color,
    pub background: Color,
    pub italics: bool,
    pub strong: bool,
    pub strikethrough: bool,
    pub underline: bool,
}

/// Colour parameters of one render pass, resolved from the surrounding
/// theme before the pass starts.
#[derive(Clone, Copy, Debug, PartialEq, Eq, Structural)]
pub struct RenderParams {
    /// Default foreground colour of body text.
    pub text_color: Color,
    /// De-emphasised foreground colour, used for raw-markup annotations.
    pub weak_color: Color,
    /// Foreground colour of link text.
    pub hyperlink_color: Color,
    /// Background colour of inline code and code blocks.
    pub code_background: Color,
}

/// The style at the bottom of the inline style stack: plain body text.
pub fn base_format(params: &RenderParams) -> (f: StyleFormat)
    ensures
        f == spec_base_format(*params),
{
    StyleFormat {
        role: FontRole::Body,
        size: BODY_FONT_SIZE,
        color: params.text_color,
        background: Color { r: 0, g: 0, b: 0, a: 0 },
        italics: false,
        strong: false,
        strikethrough: false,
        underline: false,
    }
}

pub open spec fn spec_base_format(params: RenderParams) -> StyleFormat {
    StyleFormat {
        role: FontRole::Body,
        size: BODY_FONT_SIZE as u32,
        color: params.text_color,
        background: Color { r: 0, g: 0, b: 0, a: 0 },
        italics: false,
        strong: false,
        strikethrough: false,
        underline: false,
    }
}

/// Point size of a heading of the given level; levels outside 1..=6 are
/// drawn like the deepest heading.
pub fn heading_size(level: u8) -> (s: u32)
    ensures
        s == spec_heading_size(level),
{
    match level {
        1 => 30,
        2 => 24,
        3 => 20,
        4 => 18,
        5 => 16,
        _ => 14,
    }
}

pub open spec fn spec_heading_size(level: u8) -> u32 {
    if level == 1 {
        30u32
    } else if level == 2 {
        24u32
    } else if level == 3 {
        20u32
    } else if level == 4 {
        18u32
    } else if level == 5 {
        16u32
    } else {
        14u32
    }
}

/// Vertical spacing around a heading: one amount before it opens and a
/// smaller one after it closes.
pub fn heading_spacing(level: u8, before: bool) -> (s: u32)
    ensures
        s == spec_heading_spacing(level, before),
{
    match level {
        1 => if before { 16 } else { 8 },
        2 => if before { 12 } else { 6 },
        3 => if before { 10 } else { 5 },
        _ => if before { 8 } else { 4 },
    }
}

pub open spec fn spec_heading_spacing(level: u8, before: bool) -> u32 {
    if level == 1 {
        if before { 16u32 } else { 8u32 }
    } else if level == 2 {
        if before { 12u32 } else { 6u32 }
    } else if level == 3 {
        if before { 10u32 } else { 5u32 }
    } else {
        if before { 8u32 } else { 4u32 }
    }
}

/// Style for emphasised text: the current style with the italic flag set.
pub fn emphasized(f: &StyleFormat) -> (r: StyleFormat)
    ensures
        r == (StyleFormat { italics: true, ..*f }),
{
    StyleFormat { italics: true, ..*f }
}

/// Style for strong text: the current style with the weight flag set.
pub fn strengthened(f: &StyleFormat) -> (r: StyleFormat)
    ensures
        r == (StyleFormat { strong: true, ..*f }),
{
    StyleFormat { strong: true, ..*f }
}

/// Style for struck-through text.
pub fn struck(f: &StyleFormat) -> (r: StyleFormat)
    ensures
        r == (StyleFormat { strikethrough: true, ..*f }),
{
    StyleFormat { strikethrough: true, ..*f }
}

/// Style for link text: the link colour, underlined.
pub fn linked(f: &StyleFormat, link_color: Color) -> (r: StyleFormat)
    ensures
        r == (StyleFormat { color: link_color, underline: true, ..*f }),
{
    StyleFormat { color: link_color, underline: true, ..*f }
}

/// Style for text inside a heading of the given level.
pub fn heading_style(f: &StyleFormat, level: u8) -> (r: StyleFormat)
    ensures
        r == spec_heading_style(*f, level),
{
    StyleFormat { role: FontRole::Heading(level), size: heading_size(level), ..*f }
}

pub open spec fn spec_heading_style(f: StyleFormat, level: u8) -> StyleFormat {
    StyleFormat { role: FontRole::Heading(level), size: spec_heading_size(level), ..f }
}

/// Style for a table-header cell: visually distinct through its weight.
pub fn header_cell_style(f: &StyleFormat) -> (r: StyleFormat)
    ensures
        r == (StyleFormat { strong: true, ..*f }),
{
    StyleFormat { strong: true, ..*f }
}

/// Style for inline code: fixed width on the code background.
pub fn code_inline_style(f: &StyleFormat, code_background: Color) -> (r: StyleFormat)
    ensures
        r == spec_code_inline_style(*f, code_background),
{
    StyleFormat {
        role: FontRole::Monospace,
        size: CODE_FONT_SIZE,
        background: code_background,
        ..*f
    }
}

pub open spec fn spec_code_inline_style(f: StyleFormat, code_background: Color) -> StyleFormat {
    StyleFormat {
        role: FontRole::Monospace,
        size: CODE_FONT_SIZE as u32,
        background: code_background,
        ..f
    }
}

/// Weak italic style for raw-markup annotations.
pub fn weak_annotation_style(f: &StyleFormat, weak_color: Color) -> (r: StyleFormat)
    ensures
        r == (StyleFormat { italics: true, color: weak_color, ..*f }),
{
    StyleFormat { italics: true, color: weak_color, ..*f }
}

/// Style for a footnote reference: the current style at four fifths of its
/// size, rounded down.
pub fn footnote_ref_style(f: &StyleFormat) -> (r: StyleFormat)
    ensures
        r == spec_footnote_ref_style(*f),
{
    let scaled: u64 = (f.size as u64) * 4 / 5;
    StyleFormat { size: scaled as u32, ..*f }
}

pub open spec fn spec_footnote_ref_style(f: StyleFormat) -> StyleFormat {
    StyleFormat { size: (f.size * 4 / 5) as u32, ..f }
}

/// Style for a line of a code block coloured by the highlighter.
pub fn code_span_style(color: Color, italic: bool, code_background: Color) -> (r: StyleFormat)
    ensures
        r == spec_code_span_style(color, italic, code_background),
{
    StyleFormat {
        role: FontRole::Monospace,
        size: CODE_FONT_SIZE,
        color,
        background: code_background,
        italics: italic,
        strong: false,
        strikethrough: false,
        underline: false,
    }
}

pub open spec fn spec_code_span_style(color: Color, italic: bool, code_background: Color) -> StyleFormat {
    StyleFormat {
        role: FontRole::Monospace,
        size: CODE_FONT_SIZE as u32,
        color,
        background: code_background,
        italics: italic,
        strong: false,
        strikethrough: false,
        underline: false,
    }
}

} // verus!
