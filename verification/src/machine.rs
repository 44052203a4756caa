//! The render state machine: a push-down automaton that consumes one event
//! at a time, maintains the inline style stack, the block-context stack, the
//! current unflushed text run, the table accumulator, the code accumulator
//! and the pending link, and appends visual commands to its output.
//!
//! `spec_step` is the machine's mathematical model: every exec transition is
//! proved equal to it, so the whole pass is pinned down exactly, up to the
//! colour spans inside code blocks, which come from the external colorizer
//! and are modelled by the text they spell out.

use vstd::prelude::*;
use vstd::string::StringExecFns;
use crate::style::{
    Color, FontRole, StyleFormat, RenderParams, base_format, spec_base_format, heading_spacing,
    spec_heading_spacing, heading_style, spec_heading_style, emphasized, strengthened, struck,
    linked, header_cell_style, code_inline_style, spec_code_inline_style, weak_annotation_style,
    footnote_ref_style, spec_footnote_ref_style, INDENT_STEP, MAX_INDENT_LEVELS,
};
use crate::event::Event;
use crate::command::{
    Fragment, Command, FragModel, CmdModel, frags_model, row_model, rows_model, cmd_model,
    cmds_model,
};
use crate::textutil::{
    dec_digits, push_decimal, trim_ws, trim_chars, chars_eq, str_to_chars, chars_to_string,
};
use crate::highlight::highlight_code_block;
use crate::images::{image_tooltip, spec_tooltip};
use syntect::parsing::SyntaxSet;
use syntect::highlighting::Theme;

verus! {

/// Trailing spacing after a paragraph-like flush.
pub const PARAGRAPH_SPACING: u32 = 4;

/// Spacing before a block quote, code block or list opens.
pub const BLOCK_OPEN_SPACING: u32 = 4;

/// Spacing after a block construct closes, and before a table opens.
pub const BLOCK_CLOSE_SPACING: u32 = 6;

/// Spacing on each side of a horizontal rule.
pub const RULE_SPACING: u32 = 8;

/// Spacing after a list-item marker row.
pub const ITEM_GAP: u32 = 2;

/// Spacing on each side of an image.
pub const IMAGE_SPACING: u32 = 4;

/// Largest fraction of the available width an image may take, in percent.
pub const IMAGE_MAX_WIDTH_PERCENT: u32 = 80;

/// One entry of the block-context stack.  A `List` entry carries its
/// counter: the ordinal of the next item for an ordered list, or `None` for
/// an unordered one.
#[derive(Clone, Copy, Debug, PartialEq, Eq, Structural)]
pub enum BlockContext {
    List(Option<u64>),
    BlockQuote,
    Table,
}

/// The model of the machine's state.
#[verifier::ext_equal]
pub ghost struct StateModel {
    pub styles: Seq<StyleFormat>,
    pub blocks: Seq<BlockContext>,
    pub run: Seq<FragModel>,
    pub in_header: bool,
    pub rows: Seq<Seq<Seq<FragModel>>>,
    pub cell: Seq<FragModel>,
    pub code_active: bool,
    pub code_lang: Option<Seq<char>>,
    pub code_text: Seq<char>,
    pub link_url: Option<Seq<char>>,
    pub link_text: Seq<char>,
    pub params: RenderParams,
    pub out: Seq<CmdModel>,
}

/// The render state machine.
pub struct RenderState {
    /// Inline style stack; its bottom element is the base body format and is
    /// never popped.
    pub styles: Vec<StyleFormat>,
    /// Block-context stack.
    pub blocks: Vec<BlockContext>,
    /// The current unflushed text run.
    pub run: Vec<Fragment>,
    /// Whether the current table row is the header row.
    pub in_header: bool,
    /// Accumulated table rows.
    pub rows: Vec<Vec<Vec<Fragment>>>,
    /// The buffer of the table cell being filled.
    pub cell: Vec<Fragment>,
    /// Whether a code block is open.
    pub code_active: bool,
    /// Language token of the open code block, if any.
    pub code_lang: Option<String>,
    /// Raw text accumulated for the open code block.
    pub code_text: String,
    /// Destination of the pending link, if one is open.
    pub link_url: Option<String>,
    /// Display text accumulated for the pending link.
    pub link_text: String,
    /// Colour parameters of this pass.
    pub params: RenderParams,
    /// The visual commands emitted so far.
    pub out: Vec<Command>,
}

pub open spec fn lang_model(l: Option<String>) -> Option<Seq<char>> {
    match l {
        Some(s) => Some(s@),
        None => None,
    }
}

impl View for RenderState {
    type V = StateModel;

    open spec fn view(&self) -> StateModel {
        StateModel {
            styles: self.styles@,
            blocks: self.blocks@,
            run: frags_model(self.run@),
            in_header: self.in_header,
            rows: rows_model(self.rows@),
            cell: frags_model(self.cell@),
            code_active: self.code_active,
            code_lang: lang_model(self.code_lang),
            code_text: self.code_text@,
            link_url: lang_model(self.link_url),
            link_text: self.link_text@,
            params: self.params,
            out: cmds_model(self.out@),
        }
    }
}

/// The machine's starting state: the style stack holds the base format, all
/// other accumulators are empty.
pub open spec fn init_model(params: RenderParams) -> StateModel {
    StateModel {
        styles: seq![spec_base_format(params)],
        blocks: Seq::empty(),
        run: Seq::empty(),
        in_header: false,
        rows: Seq::empty(),
        cell: Seq::empty(),
        code_active: false,
        code_lang: None,
        code_text: Seq::empty(),
        link_url: None,
        link_text: Seq::empty(),
        params,
        out: Seq::empty(),
    }
}

/// The style at the top of the inline style stack.
pub open spec fn m_top(m: StateModel) -> StyleFormat {
    if m.styles.len() > 0 {
        m.styles.last()
    } else {
        spec_base_format(m.params)
    }
}

/// Whether the top of the block stack is a table context.
pub open spec fn m_top_is_table(m: StateModel) -> bool {
    m.blocks.len() > 0 && m.blocks.last() is Table
}

/// Whether a flush at this point carries paragraph semantics: it does when
/// the block stack is empty or its top is a list or a block quote.
pub open spec fn m_paragraph_like(m: StateModel) -> bool {
    m.blocks.len() == 0 || m.blocks.last() is List || m.blocks.last() is BlockQuote
}

/// Flush of the current text run: when it is non-empty, it is committed as a
/// text-run command, followed by paragraph spacing when asked for, and reset.
pub open spec fn m_flush_inline(m: StateModel, paragraph: bool) -> StateModel {
    if m.run.len() > 0 {
        if paragraph {
            StateModel {
                run: Seq::empty(),
                out: m.out.push(CmdModel::Run(m.run)).push(
                    CmdModel::Space(PARAGRAPH_SPACING as int),
                ),
                ..m
            }
        } else {
            StateModel { run: Seq::empty(), out: m.out.push(CmdModel::Run(m.run)), ..m }
        }
    } else {
        m
    }
}

/// Flush at a block boundary: paragraph semantics follow the block stack.
pub open spec fn m_flush_block(m: StateModel) -> StateModel {
    m_flush_inline(m, m_paragraph_like(m))
}

/// Pop of the inline style stack; the base element is never popped.
pub open spec fn m_pop_style(m: StateModel) -> StateModel {
    if m.styles.len() > 1 {
        StateModel { styles: m.styles.drop_last(), ..m }
    } else {
        m
    }
}

/// Pop of the block stack; a pop on an empty stack is a no-op.
pub open spec fn m_pop_block(m: StateModel) -> StateModel {
    if m.blocks.len() > 0 {
        StateModel { blocks: m.blocks.drop_last(), ..m }
    } else {
        m
    }
}

/// The counter of the innermost list context: the counter in effect for
/// items of the innermost open list.
pub open spec fn spec_parent_list_num(s: Seq<BlockContext>) -> Option<u64>
    decreases s.len(),
{
    if s.len() == 0 {
        None
    } else {
        match s.last() {
            BlockContext::List(n) => n,
            _ => spec_parent_list_num(s.drop_last()),
        }
    }
}

/// The block stack after the innermost ordered-list counter advanced by
/// one; counters saturate instead of wrapping.
pub open spec fn spec_bump_list(s: Seq<BlockContext>) -> Seq<BlockContext>
    decreases s.len(),
{
    if s.len() == 0 {
        s
    } else {
        match s.last() {
            BlockContext::List(Some(n)) => s.update(
                s.len() - 1,
                BlockContext::List(Some(if n < u64::MAX { (n + 1) as u64 } else { n })),
            ),
            BlockContext::List(None) => s,
            _ => spec_bump_list(s.drop_last()).push(s.last()),
        }
    }
}

/// Advancing the innermost counter keeps the stack's depth.
pub proof fn lemma_bump_len(s: Seq<BlockContext>)
    ensures
        spec_bump_list(s).len() == s.len(),
    decreases s.len(),
{
    if s.len() > 0 {
        match s.last() {
            BlockContext::List(_) => {},
            _ => {
                lemma_bump_len(s.drop_last());
            },
        }
    }
}

/// How many list contexts are open.
pub open spec fn spec_count_lists(s: Seq<BlockContext>) -> nat
    decreases s.len(),
{
    if s.len() == 0 {
        0
    } else {
        spec_count_lists(s.drop_last()) + (if s.last() is List {
            1nat
        } else {
            0nat
        })
    }
}

/// Indent of a list-item marker at the given list nesting depth; depth is
/// capped so the indent cannot overflow.
pub open spec fn spec_indent(depth: nat) -> u32 {
    if depth <= 1 {
        0u32
    } else if depth - 1 >= MAX_INDENT_LEVELS {
        (MAX_INDENT_LEVELS * INDENT_STEP) as u32
    } else {
        (((depth - 1) as u32) * INDENT_STEP) as u32
    }
}

/// The marker text of a list item: `"{n}. "` under an ordered counter, a
/// bullet and a space otherwise.
pub open spec fn spec_marker_text(counter: Option<u64>) -> Seq<char> {
    match counter {
        Some(n) => dec_digits(n as nat) + seq!['.', ' '],
        None => seq!['\u{2022}', ' '],
    }
}

/// The marker a task-list item shows before its text.
pub open spec fn spec_task_marker(checked: bool) -> Seq<char> {
    if checked {
        "[x] "@
    } else {
        "[ ] "@
    }
}

/// Whether trimmed raw markup is one spelling of a line break.
pub open spec fn spec_is_br(t: Seq<char>) -> bool {
    t == "<br>"@ || t == "<br/>"@ || t == "<br />"@
}

/// The column count of a finished table: the largest cell count among its
/// rows.
pub open spec fn spec_max_row_len(rows: Seq<Seq<Seq<FragModel>>>) -> nat
    decreases rows.len(),
{
    if rows.len() == 0 {
        0
    } else {
        let rest = spec_max_row_len(rows.drop_last());
        if rows.last().len() > rest {
            rows.last().len()
        } else {
            rest
        }
    }
}

/// The normalized language token of a code block: an empty token counts as
/// absent.
pub open spec fn spec_norm_lang(l: Option<String>) -> Option<Seq<char>> {
    match l {
        Some(t) => if t@.len() > 0 {
            Some(t@)
        } else {
            None
        },
        None => None,
    }
}

/// One transition of the machine.
pub open spec fn spec_step(m: StateModel, ev: Event) -> StateModel {
    match ev {
        Event::ParagraphStart => m_flush_block(m),
        Event::ParagraphEnd => m_flush_inline(m, true),
        Event::HeadingStart(level) => {
            let m1 = m_flush_block(m);
            let m2 = StateModel {
                out: m1.out.push(CmdModel::Space(spec_heading_spacing(level, true) as int)),
                ..m1
            };
            StateModel { styles: m2.styles.push(spec_heading_style(m_top(m2), level)), ..m2 }
        },
        Event::HeadingEnd(level) => {
            let m1 = m_pop_style(m);
            let m2 = m_flush_inline(m1, false);
            StateModel {
                out: m2.out.push(CmdModel::Space(spec_heading_spacing(level, false) as int)),
                ..m2
            }
        },
        Event::BlockQuoteStart => {
            let m1 = m_flush_block(m);
            StateModel {
                blocks: m1.blocks.push(BlockContext::BlockQuote),
                out: m1.out.push(CmdModel::Space(BLOCK_OPEN_SPACING as int)).push(
                    CmdModel::QuoteBarCmd,
                ),
                ..m1
            }
        },
        Event::BlockQuoteEnd => {
            let m1 = m_pop_block(m_flush_block(m));
            StateModel { out: m1.out.push(CmdModel::Space(BLOCK_CLOSE_SPACING as int)), ..m1 }
        },
        Event::CodeBlockStart(lang) => {
            let m1 = m_flush_block(m);
            StateModel {
                out: m1.out.push(CmdModel::Space(BLOCK_OPEN_SPACING as int)),
                code_active: true,
                code_lang: spec_norm_lang(lang),
                code_text: Seq::empty(),
                ..m1
            }
        },
        Event::CodeBlockEnd => StateModel {
            out: m.out.push(CmdModel::CodeText(m.code_text)).push(
                CmdModel::Space(BLOCK_CLOSE_SPACING as int),
            ),
            code_active: false,
            code_lang: None,
            code_text: Seq::empty(),
            ..m
        },
        Event::ListStart(start) => {
            let m1 = m_flush_block(m);
            StateModel {
                blocks: m1.blocks.push(BlockContext::List(start)),
                out: m1.out.push(CmdModel::Space(BLOCK_OPEN_SPACING as int)),
                ..m1
            }
        },
        Event::ListEnd => {
            let m1 = m_pop_block(m_flush_block(m));
            StateModel { out: m1.out.push(CmdModel::Space(BLOCK_CLOSE_SPACING as int)), ..m1 }
        },
        Event::ItemStart => {
            let m1 = m_flush_block(m);
            StateModel {
                blocks: spec_bump_list(m1.blocks),
                out: m1.out.push(
                    CmdModel::MarkerCmd {
                        marker: spec_marker_text(spec_parent_list_num(m1.blocks)),
                        indent: spec_indent(spec_count_lists(m1.blocks)) as int,
                    },
                ).push(CmdModel::Space(ITEM_GAP as int)),
                ..m1
            }
        },
        Event::ItemEnd => m_flush_inline(m, true),
        Event::TableStart => {
            let m1 = m_flush_block(m);
            StateModel {
                blocks: m1.blocks.push(BlockContext::Table),
                rows: Seq::empty(),
                out: m1.out.push(CmdModel::Space(BLOCK_CLOSE_SPACING as int)),
                ..m1
            }
        },
        Event::TableEnd => {
            let m1 = m_flush_block(m);
            let m2 = if m1.rows.len() > 0 && spec_max_row_len(m1.rows) > 0 {
                StateModel {
                    out: m1.out.push(
                        CmdModel::GridCmd {
                            rows: m1.rows,
                            columns: spec_max_row_len(m1.rows) as int,
                        },
                    ),
                    rows: Seq::empty(),
                    ..m1
                }
            } else {
                StateModel { rows: Seq::empty(), ..m1 }
            };
            let m3 = m_pop_block(m2);
            StateModel { out: m3.out.push(CmdModel::Space(BLOCK_CLOSE_SPACING as int)), ..m3 }
        },
        Event::TableHeadStart => StateModel {
            in_header: true,
            rows: m.rows.push(Seq::empty()),
            cell: Seq::empty(),
            ..m
        },
        Event::TableHeadEnd => m,
        Event::TableRowStart => StateModel {
            in_header: false,
            rows: m.rows.push(Seq::empty()),
            cell: Seq::empty(),
            ..m
        },
        Event::TableRowEnd => m,
        Event::TableCellStart => {
            let m1 = StateModel { cell: Seq::empty(), ..m };
            if m1.in_header {
                StateModel {
                    styles: m1.styles.push(
                        StyleFormat { strong: true, ..m_top(m1) },
                    ),
                    ..m1
                }
            } else {
                m1
            }
        },
        Event::TableCellEnd => {
            let m1 = if m.rows.len() > 0 {
                StateModel {
                    rows: m.rows.update(m.rows.len() - 1, m.rows.last().push(m.cell)),
                    cell: Seq::empty(),
                    ..m
                }
            } else {
                StateModel { cell: Seq::empty(), ..m }
            };
            if m1.in_header {
                m_pop_style(m1)
            } else {
                m1
            }
        },
        Event::FootnoteDefinitionStart(label) => {
            let m1 = m_flush_block(m);
            StateModel {
                out: m1.out.push(CmdModel::Space(BLOCK_OPEN_SPACING as int)).push(
                    CmdModel::Run(
                        seq![
                            FragModel {
                                text: "[^"@ + label@ + "]:"@,
                                format: spec_base_format(m1.params),
                            },
                        ],
                    ),
                ),
                ..m1
            }
        },
        Event::FootnoteDefinitionEnd => m_flush_block(m),
        Event::EmphasisStart => StateModel {
            styles: m.styles.push(StyleFormat { italics: true, ..m_top(m) }),
            ..m
        },
        Event::EmphasisEnd => m_pop_style(m),
        Event::StrongStart => StateModel {
            styles: m.styles.push(StyleFormat { strong: true, ..m_top(m) }),
            ..m
        },
        Event::StrongEnd => m_pop_style(m),
        Event::StrikethroughStart => StateModel {
            styles: m.styles.push(StyleFormat { strikethrough: true, ..m_top(m) }),
            ..m
        },
        Event::StrikethroughEnd => m_pop_style(m),
        Event::LinkStart(url) => {
            let m1 = m_flush_inline(m, false);
            StateModel {
                styles: m1.styles.push(
                    StyleFormat {
                        color: m1.params.hyperlink_color,
                        underline: true,
                        ..m_top(m1)
                    },
                ),
                link_url: Some(url@),
                link_text: Seq::empty(),
                ..m1
            }
        },
        Event::LinkEnd => {
            match m.link_url {
                Some(url) => {
                    let m1 = m_pop_style(m);
                    StateModel {
                        out: m1.out.push(
                            CmdModel::ClickableCmd { text: m1.link_text, url },
                        ),
                        link_url: None,
                        link_text: Seq::empty(),
                        ..m1
                    }
                },
                None => m_pop_style(m),
            }
        },
        Event::ImageStart(url, title) => {
            let m1 = m_flush_inline(m, false);
            StateModel {
                out: m1.out.push(CmdModel::Space(IMAGE_SPACING as int)).push(
                    CmdModel::ImageCmd {
                        url: url@,
                        tooltip: spec_tooltip(title@, url@),
                        max_width_percent: IMAGE_MAX_WIDTH_PERCENT as int,
                    },
                ).push(CmdModel::Space(IMAGE_SPACING as int)),
                ..m1
            }
        },
        Event::ImageEnd => m,
        Event::Text(t) => {
            if m.code_active {
                StateModel { code_text: m.code_text + t@, ..m }
            } else if m.link_url is Some {
                StateModel { link_text: m.link_text + t@, ..m }
            } else {
                let f = FragModel { text: t@, format: m_top(m) };
                StateModel {
                    run: m.run.push(f),
                    cell: if m_top_is_table(m) {
                        m.cell.push(f)
                    } else {
                        m.cell
                    },
                    ..m
                }
            }
        },
        Event::Code(t) => {
            if m.link_url is Some {
                StateModel { link_text: m.link_text + "`"@ + t@ + "`"@, ..m }
            } else {
                let f = spec_code_inline_style(m_top(m), m.params.code_background);
                let tick = FragModel { text: "`"@, format: f };
                let body = FragModel { text: t@, format: f };
                StateModel {
                    run: m.run.push(tick).push(body).push(tick),
                    cell: if m_top_is_table(m) {
                        m.cell.push(FragModel { text: "`"@ + t@ + "`"@, format: f })
                    } else {
                        m.cell
                    },
                    ..m
                }
            }
        },
        Event::RawMarkup(h) => {
            if spec_is_br(trim_ws(h@)) {
                StateModel {
                    run: m.run.push(FragModel { text: "\n"@, format: m_top(m) }),
                    ..m
                }
            } else {
                StateModel {
                    run: m.run.push(
                        FragModel {
                            text: "[HTML: "@ + trim_ws(h@) + "]"@,
                            format: StyleFormat {
                                italics: true,
                                color: m.params.weak_color,
                                ..m_top(m)
                            },
                        },
                    ),
                    ..m
                }
            }
        },
        Event::FootnoteReference(label) => StateModel {
            run: m.run.push(
                FragModel {
                    text: "[^"@ + label@ + "]"@,
                    format: spec_footnote_ref_style(m_top(m)),
                },
            ),
            ..m
        },
        Event::SoftBreak => {
            if m.code_active {
                StateModel { code_text: m.code_text + "\n"@, ..m }
            } else if m.link_url is Some {
                StateModel { link_text: m.link_text + " "@, ..m }
            } else {
                StateModel {
                    run: m.run.push(FragModel { text: " "@, format: m_top(m) }),
                    ..m
                }
            }
        },
        Event::HardBreak => {
            if m.code_active {
                StateModel { code_text: m.code_text + "\n"@, ..m }
            } else if m.link_url is Some {
                StateModel { link_text: m.link_text + "\n"@, ..m }
            } else {
                StateModel {
                    run: m.run.push(FragModel { text: "\n"@, format: m_top(m) }),
                    ..m
                }
            }
        },
        Event::Rule => {
            let m1 = m_flush_block(m);
            StateModel {
                out: m1.out.push(CmdModel::Space(RULE_SPACING as int)).push(
                    CmdModel::RuleLine,
                ).push(CmdModel::Space(RULE_SPACING as int)),
                ..m1
            }
        },
        Event::TaskListMarker(checked) => {
            let f = FragModel { text: spec_task_marker(checked), format: m_top(m) };
            StateModel {
                run: m.run.insert(0, f),
                cell: if m_top_is_table(m) {
                    m.cell.insert(0, f)
                } else {
                    m.cell
                },
                ..m
            }
        },
    }
}

/// The state after a whole event sequence.
pub open spec fn run_model(m: StateModel, evs: Seq<Event>) -> StateModel
    decreases evs.len(),
{
    if evs.len() == 0 {
        m
    } else {
        run_model(spec_step(m, evs[0]), evs.drop_first())
    }
}

/// The full output of one render pass: every event applied in order, then a
/// final flush of whatever text is still pending.
pub open spec fn render_model(evs: Seq<Event>, params: RenderParams) -> Seq<CmdModel> {
    m_flush_block(run_model(init_model(params), evs)).out
}

pub proof fn lemma_run_model_snoc(m: StateModel, s: Seq<Event>, e: Event)
    ensures
        run_model(m, s.push(e)) == spec_step(run_model(m, s), e),
    decreases s.len(),
{
    if s.len() == 0 {
        assert(s.push(e).drop_first() =~= Seq::<Event>::empty());
        assert(s.push(e)[0] == e);
        assert(run_model(m, s.push(e)) == run_model(spec_step(m, e), Seq::<Event>::empty()));
        assert(run_model(spec_step(m, e), Seq::<Event>::empty()) == spec_step(m, e));
        assert(run_model(m, s) == m);
    } else {
        assert(s.push(e).drop_first() =~= s.drop_first().push(e));
        assert(s.push(e)[0] == s[0]);
        lemma_run_model_snoc(spec_step(m, s[0]), s.drop_first(), e);
        assert(run_model(m, s.push(e)) == run_model(spec_step(m, s[0]), s.drop_first().push(e)));
        assert(run_model(m, s) == run_model(spec_step(m, s[0]), s.drop_first()));
    }
}

/// The counter of the innermost list context, `None` outside every ordered
/// list scope.
pub fn get_parent_list_num(stack: &Vec<BlockContext>) -> (r: Option<u64>)
    ensures
        r == spec_parent_list_num(stack@),
{
    proof {
        assert(stack@.subrange(0, stack@.len() as int) =~= stack@);
    }
    let mut i: usize = stack.len();
    while i > 0
        invariant
            0 <= i <= stack@.len(),
            spec_parent_list_num(stack@) == spec_parent_list_num(stack@.subrange(0, i as int)),
        decreases i,
    {
        proof {
            assert(stack@.subrange(0, i as int).drop_last() =~= stack@.subrange(0, i - 1));
            assert(stack@.subrange(0, i as int).last() == stack@[i - 1]);
        }
        match stack[i - 1] {
            BlockContext::List(n) => {
                return n;
            },
            _ => {
                i -= 1;
            },
        }
    }
    proof {
        assert(stack@.subrange(0, 0) =~= Seq::<BlockContext>::empty());
    }
    None
}

/// Advances the innermost ordered-list counter by one; saturates at the
/// largest ordinal.
fn bump_list_counter(stack: &mut Vec<BlockContext>)
    ensures
        final(stack)@ == spec_bump_list(old(stack)@),
{
    let ghost orig = stack@;
    proof {
        assert(orig.subrange(0, orig.len() as int) =~= orig);
        assert(orig.subrange(orig.len() as int, orig.len() as int) =~= Seq::<
            BlockContext,
        >::empty());
        assert(spec_bump_list(orig) =~= spec_bump_list(orig.subrange(0, orig.len() as int))
            + orig.subrange(orig.len() as int, orig.len() as int));
    }
    let mut i: usize = stack.len();
    while i > 0
        invariant
            0 <= i <= orig.len(),
            orig == old(stack)@,
            stack@ == orig,
            spec_bump_list(orig) == spec_bump_list(orig.subrange(0, i as int)) + orig.subrange(
                i as int,
                orig.len() as int,
            ),
        decreases i,
    {
        proof {
            assert(orig.subrange(0, i as int).drop_last() =~= orig.subrange(0, i - 1));
            assert(orig.subrange(0, i as int).last() == orig[i - 1]);
        }
        match stack[i - 1] {
            BlockContext::List(n_opt) => {
                match n_opt {
                    Some(n) => {
                        let next: u64 = if n < u64::MAX {
                            n + 1
                        } else {
                            n
                        };
                        stack.set(i - 1, BlockContext::List(Some(next)));
                        proof {
                            assert(spec_bump_list(orig.subrange(0, i as int)) =~= orig.subrange(
                                0,
                                i as int,
                            ).update(i - 1, BlockContext::List(Some(next))));
                            assert(stack@ =~= spec_bump_list(orig));
                        }
                    },
                    None => {
                        proof {
                            assert(spec_bump_list(orig.subrange(0, i as int)) =~= orig.subrange(
                                0,
                                i as int,
                            ));
                            assert(stack@ =~= spec_bump_list(orig));
                        }
                    },
                }
                return ;
            },
            _ => {
                proof {
                    assert(spec_bump_list(orig.subrange(0, i as int)) == spec_bump_list(
                        orig.subrange(0, i - 1),
                    ).push(orig[i - 1]));
                    assert(spec_bump_list(orig.subrange(0, i - 1)).push(orig[i - 1])
                        + orig.subrange(i as int, orig.len() as int) =~= spec_bump_list(
                        orig.subrange(0, i - 1),
                    ) + orig.subrange(i - 1, orig.len() as int));
                }
                i -= 1;
            },
        }
    }
    proof {
        assert(orig.subrange(0, 0) =~= Seq::<BlockContext>::empty());
        assert(spec_bump_list(orig.subrange(0, 0)) =~= Seq::<BlockContext>::empty());
        assert(orig.subrange(0, orig.len() as int) =~= orig);
        assert(stack@ =~= spec_bump_list(orig));
    }
}

/// How many list contexts are open.
fn count_lists(stack: &Vec<BlockContext>) -> (n: usize)
    ensures
        n == spec_count_lists(stack@),
{
    let mut n: usize = 0;
    let mut i: usize = 0;
    proof {
        assert(stack@.subrange(0, 0) =~= Seq::<BlockContext>::empty());
    }
    while i < stack.len()
        invariant
            0 <= i <= stack@.len(),
            n == spec_count_lists(stack@.subrange(0, i as int)),
            n <= i,
        decreases stack@.len() - i,
    {
        proof {
            assert(stack@.subrange(0, i + 1).drop_last() =~= stack@.subrange(0, i as int));
            assert(stack@.subrange(0, i + 1).last() == stack@[i as int]);
        }
        match stack[i] {
            BlockContext::List(_) => {
                n += 1;
            },
            _ => {},
        }
        i += 1;
    }
    proof {
        assert(stack@.subrange(0, stack@.len() as int) =~= stack@);
    }
    n
}

/// The indent of a list-item marker at the given nesting depth.
fn indent_for(depth: usize) -> (r: u32)
    ensures
        r == spec_indent(depth as nat),
{
    if depth <= 1 {
        0
    } else if depth - 1 >= (MAX_INDENT_LEVELS as usize) {
        MAX_INDENT_LEVELS * INDENT_STEP
    } else {
        ((depth - 1) as u32) * INDENT_STEP
    }
}

/// The largest cell count among the accumulated rows.
fn max_row_len(rows: &Vec<Vec<Vec<Fragment>>>) -> (n: usize)
    ensures
        n as nat == spec_max_row_len(rows_model(rows@)),
{
    let mut n: usize = 0;
    let mut i: usize = 0;
    proof {
        assert(rows_model(rows@).subrange(0, 0) =~= Seq::<Seq<Seq<FragModel>>>::empty());
    }
    while i < rows.len()
        invariant
            0 <= i <= rows@.len(),
            n as nat == spec_max_row_len(rows_model(rows@).subrange(0, i as int)),
            n <= usize::MAX,
        decreases rows@.len() - i,
    {
        proof {
            assert(rows_model(rows@).subrange(0, i + 1).drop_last() =~= rows_model(
                rows@,
            ).subrange(0, i as int));
            assert(rows_model(rows@).subrange(0, i + 1).last() == rows_model(rows@)[i as int]);
            assert(rows_model(rows@)[i as int] == row_model(rows@[i as int]));
            assert(row_model(rows@[i as int]).len() == rows@[i as int]@.len());
        }
        let l = rows[i].len();
        if l > n {
            n = l;
        }
        i += 1;
    }
    proof {
        assert(rows_model(rows@).subrange(0, rows@.len() as int) =~= rows_model(rows@));
    }
    n
}

/// The marker text of a list item.
fn marker_text(counter: Option<u64>) -> (s: String)
    ensures
        s@ == spec_marker_text(counter),
{
    let mut v: Vec<char> = Vec::new();
    match counter {
        Some(n) => {
            push_decimal(n, &mut v);
            v.push('.');
            v.push(' ');
            proof {
                assert(v@ =~= spec_marker_text(counter));
            }
        },
        None => {
            v.push('\u{2022}');
            v.push(' ');
            proof {
                assert(v@ =~= spec_marker_text(counter));
            }
        },
    }
    chars_to_string(&v)
}

impl RenderState {
    /// A fresh machine: the style stack holds the base format, everything
    /// else is empty.
    pub fn new(params: RenderParams) -> (s: RenderState)
        ensures
            s@ == init_model(params),
    {
        let mut styles: Vec<StyleFormat> = Vec::new();
        styles.push(base_format(&params));
        let s = RenderState {
            styles,
            blocks: Vec::new(),
            run: Vec::new(),
            in_header: false,
            rows: Vec::new(),
            cell: Vec::new(),
            code_active: false,
            code_lang: None,
            code_text: String::new(),
            link_url: None,
            link_text: String::new(),
            params,
            out: Vec::new(),
        };
        proof {
            assert(s@ =~~= init_model(params));
        }
        s
    }

    /// The style in effect for the next piece of text.
    fn current_format(&self) -> (f: StyleFormat)
        ensures
            f == m_top(self@),
    {
        if self.styles.len() > 0 {
            self.styles[self.styles.len() - 1]
        } else {
            base_format(&self.params)
        }
    }

    /// Whether text must be mirrored into the table cell buffer.
    fn top_is_table(&self) -> (b: bool)
        ensures
            b == m_top_is_table(self@),
    {
        if self.blocks.len() == 0 {
            false
        } else {
            match self.blocks[self.blocks.len() - 1] {
                BlockContext::Table => true,
                _ => false,
            }
        }
    }

    /// Pops the inline style stack, keeping its base element.
    fn pop_style(&mut self)
        ensures
            final(self)@ == m_pop_style(old(self)@),
    {
        if self.styles.len() > 1 {
            let _ = self.styles.pop();
        }
        proof {
            assert(self@ =~~= m_pop_style(old(self)@));
        }
    }

    /// Pops the block stack; a pop on an empty stack is a no-op.
    fn pop_block(&mut self)
        ensures
            final(self)@ == m_pop_block(old(self)@),
    {
        if self.blocks.len() > 0 {
            let _ = self.blocks.pop();
        }
        proof {
            assert(self@ =~~= m_pop_block(old(self)@));
        }
    }

    /// Commits the current text run, if any, adding trailing paragraph
    /// spacing when asked for, and resets it.
    pub fn flush_inline(&mut self, paragraph: bool)
        ensures
            final(self)@ == m_flush_inline(old(self)@, paragraph),
    {
        broadcast use crate::command::group_model_lemmas;

        if self.run.len() > 0 {
            let mut taken: Vec<Fragment> = Vec::new();
            core::mem::swap(&mut self.run, &mut taken);
            self.out.push(Command::TextRun(taken));
            if paragraph {
                self.out.push(Command::VerticalSpace(PARAGRAPH_SPACING));
            }
        }
        proof {
            assert(self@ =~~= m_flush_inline(old(self)@, paragraph));
        }
    }

    /// Flush at a block boundary: paragraph spacing follows from the block
    /// stack.
    pub fn flush_block(&mut self)
        ensures
            final(self)@ == m_flush_block(old(self)@),
    {
        let paragraph = if self.blocks.len() == 0 {
            true
        } else {
            match self.blocks[self.blocks.len() - 1] {
                BlockContext::List(_) => true,
                BlockContext::BlockQuote => true,
                BlockContext::Table => false,
            }
        };
        self.flush_inline(paragraph);
    }

    /// Appends one command to the output.
    fn emit(&mut self, c: Command)
        ensures
            final(self)@ == (StateModel {
                out: old(self)@.out.push(cmd_model(c)),
                ..old(self)@
            }),
    {
        broadcast use crate::command::group_model_lemmas;

        self.out.push(c);
        proof {
            assert(self@ =~~= (StateModel {
                out: old(self)@.out.push(cmd_model(c)),
                ..old(self)@
            }));
        }
    }

    /// Consumes one event: dispatches it to the stacks and accumulators and
    /// emits whatever visual commands it completes.
    #[verifier::rlimit(100)]
    #[verifier::spinoff_prover]
    pub fn step(&mut self, e: &Event, syntaxes: &SyntaxSet, theme: &Theme)
        ensures
            final(self)@ == spec_step(old(self)@, *e),
    {
        broadcast use crate::command::group_model_lemmas;

        match e {
            Event::ParagraphStart => {
                self.flush_block();
            },
            Event::ParagraphEnd => {
                self.flush_inline(true);
            },
            Event::HeadingStart(level) => {
                self.flush_block();
                self.emit(Command::VerticalSpace(heading_spacing(*level, true)));
                let top = self.current_format();
                let h = heading_style(&top, *level);
                self.styles.push(h);
            },
            Event::HeadingEnd(level) => {
                self.pop_style();
                self.flush_inline(false);
                self.emit(Command::VerticalSpace(heading_spacing(*level, false)));
            },
            Event::BlockQuoteStart => {
                self.flush_block();
                self.emit(Command::VerticalSpace(BLOCK_OPEN_SPACING));
                self.blocks.push(BlockContext::BlockQuote);
                self.emit(Command::QuoteBar);
            },
            Event::BlockQuoteEnd => {
                self.flush_block();
                self.pop_block();
                self.emit(Command::VerticalSpace(BLOCK_CLOSE_SPACING));
            },
            Event::CodeBlockStart(lang) => {
                self.flush_block();
                self.emit(Command::VerticalSpace(BLOCK_OPEN_SPACING));
                self.code_lang = match lang {
                    Some(tok) => if tok.as_str().is_empty() {
                        None
                    } else {
                        Some(tok.clone())
                    },
                    None => None,
                };
                self.code_text = String::new();
                self.code_active = true;
            },
            Event::CodeBlockEnd => {
                let frags = highlight_code_block(
                    &self.code_text,
                    &self.code_lang,
                    syntaxes,
                    theme,
                    self.params.text_color,
                    self.params.code_background,
                );
                self.emit(Command::CodeBlock { fragments: frags });
                self.emit(Command::VerticalSpace(BLOCK_CLOSE_SPACING));
                self.code_active = false;
                self.code_lang = None;
                self.code_text = String::new();
            },
            Event::ListStart(start) => {
                self.flush_block();
                self.emit(Command::VerticalSpace(BLOCK_OPEN_SPACING));
                self.blocks.push(BlockContext::List(*start));
            },
            Event::ListEnd => {
                self.flush_block();
                self.pop_block();
                self.emit(Command::VerticalSpace(BLOCK_CLOSE_SPACING));
            },
            Event::ItemStart => {
                self.flush_block();
                let counter = get_parent_list_num(&self.blocks);
                let marker = marker_text(counter);
                let depth = count_lists(&self.blocks);
                let indent = indent_for(depth);
                self.emit(Command::ListMarker { marker, indent });
                self.emit(Command::VerticalSpace(ITEM_GAP));
                bump_list_counter(&mut self.blocks);
            },
            Event::ItemEnd => {
                self.flush_inline(true);
            },
            Event::TableStart => {
                self.flush_block();
                self.emit(Command::VerticalSpace(BLOCK_CLOSE_SPACING));
                self.blocks.push(BlockContext::Table);
                self.rows = Vec::new();
            },
            Event::TableEnd => {
                self.flush_block();
                let mut taken_rows: Vec<Vec<Vec<Fragment>>> = Vec::new();
                core::mem::swap(&mut self.rows, &mut taken_rows);
                if taken_rows.len() > 0 {
                    let cols = max_row_len(&taken_rows);
                    if cols > 0 {
                        self.emit(Command::Grid { rows: taken_rows, columns: cols });
                    }
                }
                self.pop_block();
                self.emit(Command::VerticalSpace(BLOCK_CLOSE_SPACING));
            },
            Event::TableHeadStart => {
                self.in_header = true;
                self.rows.push(Vec::new());
                self.cell = Vec::new();
            },
            Event::TableHeadEnd => {},
            Event::TableRowStart => {
                self.in_header = false;
                self.rows.push(Vec::new());
                self.cell = Vec::new();
            },
            Event::TableRowEnd => {},
            Event::TableCellStart => {
                self.cell = Vec::new();
                if self.in_header {
                    let top = self.current_format();
                    self.styles.push(header_cell_style(&top));
                }
            },
            Event::TableCellEnd => {
                if self.rows.len() > 0 {
                    let mut last_row = self.rows.pop().unwrap();
                    let mut taken_cell: Vec<Fragment> = Vec::new();
                    core::mem::swap(&mut self.cell, &mut taken_cell);
                    last_row.push(taken_cell);
                    self.rows.push(last_row);
                } else {
                    self.cell = Vec::new();
                }
                if self.in_header {
                    self.pop_style();
                }
            },
            Event::FootnoteDefinitionStart(label) => {
                self.flush_block();
                self.emit(Command::VerticalSpace(BLOCK_OPEN_SPACING));
                let mut text = String::new();
                text.append("[^");
                text.append(label.as_str());
                text.append("]:");
                let f = base_format(&self.params);
                let mut frags: Vec<Fragment> = Vec::new();
                frags.push(Fragment { text, format: f });
                self.emit(Command::TextRun(frags));
            },
            Event::FootnoteDefinitionEnd => {
                self.flush_block();
            },
            Event::EmphasisStart => {
                let top = self.current_format();
                self.styles.push(emphasized(&top));
            },
            Event::EmphasisEnd => {
                self.pop_style();
            },
            Event::StrongStart => {
                let top = self.current_format();
                self.styles.push(strengthened(&top));
            },
            Event::StrongEnd => {
                self.pop_style();
            },
            Event::StrikethroughStart => {
                let top = self.current_format();
                self.styles.push(struck(&top));
            },
            Event::StrikethroughEnd => {
                self.pop_style();
            },
            Event::LinkStart(url) => {
                self.flush_inline(false);
                let top = self.current_format();
                self.styles.push(linked(&top, self.params.hyperlink_color));
                self.link_url = Some(url.clone());
                self.link_text = String::new();
            },
            Event::LinkEnd => {
                let mut url_opt: Option<String> = None;
                core::mem::swap(&mut self.link_url, &mut url_opt);
                match url_opt {
                    Some(url) => {
                        let mut text = String::new();
                        core::mem::swap(&mut self.link_text, &mut text);
                        self.pop_style();
                        self.emit(Command::Clickable { text, url });
                    },
                    None => {
                        self.pop_style();
                    },
                }
            },
            Event::ImageStart(url, title) => {
                self.flush_inline(false);
                self.emit(Command::VerticalSpace(IMAGE_SPACING));
                let tooltip = image_tooltip(title, url);
                self.emit(
                    Command::Image {
                        url: url.clone(),
                        tooltip,
                        max_width_percent: IMAGE_MAX_WIDTH_PERCENT,
                    },
                );
                self.emit(Command::VerticalSpace(IMAGE_SPACING));
            },
            Event::ImageEnd => {},
            Event::Text(t) => {
                if self.code_active {
                    self.code_text.append(t.as_str());
                } else if self.link_url.is_some() {
                    self.link_text.append(t.as_str());
                } else {
                    let fmt = self.current_format();
                    let in_table = self.top_is_table();
                    self.run.push(Fragment { text: t.clone(), format: fmt });
                    if in_table {
                        self.cell.push(Fragment { text: t.clone(), format: fmt });
                    }
                }
            },
            Event::Code(t) => {
                let top = self.current_format();
                let fmt = code_inline_style(&top, self.params.code_background);
                if self.link_url.is_some() {
                    self.link_text.append("`");
                    self.link_text.append(t.as_str());
                    self.link_text.append("`");
                } else {
                    let in_table = self.top_is_table();
                    self.run.push(Fragment { text: "`".to_owned(), format: fmt });
                    self.run.push(Fragment { text: t.clone(), format: fmt });
                    self.run.push(Fragment { text: "`".to_owned(), format: fmt });
                    if in_table {
                        let mut ct = String::new();
                        ct.append("`");
                        ct.append(t.as_str());
                        ct.append("`");
                        self.cell.push(Fragment { text: ct, format: fmt });
                    }
                }
            },
            Event::RawMarkup(h) => {
                let hc = str_to_chars(h.as_str());
                let trimmed = trim_chars(&hc);
                let br1 = str_to_chars("<br>");
                let br2 = str_to_chars("<br/>");
                let br3 = str_to_chars("<br />");
                let fmt = self.current_format();
                if chars_eq(&trimmed, &br1) || chars_eq(&trimmed, &br2) || chars_eq(
                    &trimmed,
                    &br3,
                ) {
                    self.run.push(Fragment { text: "\n".to_owned(), format: fmt });
                } else {
                    let mut text = String::new();
                    text.append("[HTML: ");
                    let tstr = chars_to_string(&trimmed);
                    text.append(tstr.as_str());
                    text.append("]");
                    let wfmt = weak_annotation_style(&fmt, self.params.weak_color);
                    self.run.push(Fragment { text, format: wfmt });
                }
            },
            Event::FootnoteReference(label) => {
                let top = self.current_format();
                let fmt = footnote_ref_style(&top);
                let mut text = String::new();
                text.append("[^");
                text.append(label.as_str());
                text.append("]");
                self.run.push(Fragment { text, format: fmt });
            },
            Event::SoftBreak => {
                if self.code_active {
                    self.code_text.append("\n");
                } else if self.link_url.is_some() {
                    self.link_text.append(" ");
                } else {
                    let fmt = self.current_format();
                    self.run.push(Fragment { text: " ".to_owned(), format: fmt });
                }
            },
            Event::HardBreak => {
                if self.code_active {
                    self.code_text.append("\n");
                } else if self.link_url.is_some() {
                    self.link_text.append("\n");
                } else {
                    let fmt = self.current_format();
                    self.run.push(Fragment { text: "\n".to_owned(), format: fmt });
                }
            },
            Event::Rule => {
                self.flush_block();
                self.emit(Command::VerticalSpace(RULE_SPACING));
                self.emit(Command::HorizontalRule);
                self.emit(Command::VerticalSpace(RULE_SPACING));
            },
            Event::TaskListMarker(checked) => {
                let fmt = self.current_format();
                let in_table = self.top_is_table();
                let text: &str = if *checked {
                    "[x] "
                } else {
                    "[ ] "
                };
                self.run.insert(0, Fragment { text: text.to_owned(), format: fmt });
                if in_table {
                    self.cell.insert(0, Fragment { text: text.to_owned(), format: fmt });
                }
            },
        }
        proof {
            assert(self@ =~~= spec_step(old(self)@, *e));
        }
    }
}

/// One full render pass: every event applied in order, then a final flush of
/// any pending text.  The returned command list is exactly the model of the
/// pass; a second pass over the same events and parameters yields the same
/// commands.
pub fn render_events(
    events: &Vec<Event>,
    params: RenderParams,
    syntaxes: &SyntaxSet,
    theme: &Theme,
) -> (out: Vec<Command>)
    ensures
        cmds_model(out@) == render_model(events@, params),
{
    let mut st = RenderState::new(params);
    let mut i: usize = 0;
    proof {
        assert(events@.subrange(0, 0) =~= Seq::<Event>::empty());
    }
    while i < events.len()
        invariant
            0 <= i <= events@.len(),
            st@ == run_model(init_model(params), events@.subrange(0, i as int)),
        decreases events@.len() - i,
    {
        st.step(&events[i], syntaxes, theme);
        i += 1;
        proof {
            assert(events@.subrange(0, i as int) =~= events@.subrange(0, i - 1).push(
                events@[i - 1],
            ));
            lemma_run_model_snoc(init_model(params), events@.subrange(0, i - 1), events@[i - 1]);
        }
    }
    proof {
        assert(events@.subrange(0, events@.len() as int) =~= events@);
    }
    st.flush_block();
    st.out
}

} // verus!
