//! Global laws of the render machine.
//!
//! A well-formed stream — one whose open and close markers balance and nest
//! as the upstream producer guarantees — brings the machine back to its
//! resting shape: the inline style stack at depth exactly one and the block
//! stack empty.  The proofs run an abstract shape automaton alongside the
//! machine and relate the two stacks to it.

use vstd::prelude::*;
use crate::event::Event;
use crate::style::RenderParams;
use crate::command::CmdModel;
use crate::machine::{
    StateModel, spec_step, run_model, init_model, m_flush_block, spec_max_row_len,
    spec_task_marker, lemma_bump_len, BLOCK_CLOSE_SPACING,
};

verus! {

/// The kind of construct an open marker starts.
pub ghost enum OpenKind {
    Para,
    Heading,
    Quote,
    Code,
    List,
    Item,
    Table,
    TableHead,
    TableRow,
    TableCell,
    Footnote,
    Emph,
    Strong,
    Strike,
    Link,
    Image,
}

pub open spec fn open_kind(e: Event) -> Option<OpenKind> {
    match e {
        Event::ParagraphStart => Some(OpenKind::Para),
        Event::HeadingStart(_) => Some(OpenKind::Heading),
        Event::BlockQuoteStart => Some(OpenKind::Quote),
        Event::CodeBlockStart(_) => Some(OpenKind::Code),
        Event::ListStart(_) => Some(OpenKind::List),
        Event::ItemStart => Some(OpenKind::Item),
        Event::TableStart => Some(OpenKind::Table),
        Event::TableHeadStart => Some(OpenKind::TableHead),
        Event::TableRowStart => Some(OpenKind::TableRow),
        Event::TableCellStart => Some(OpenKind::TableCell),
        Event::FootnoteDefinitionStart(_) => Some(OpenKind::Footnote),
        Event::EmphasisStart => Some(OpenKind::Emph),
        Event::StrongStart => Some(OpenKind::Strong),
        Event::StrikethroughStart => Some(OpenKind::Strike),
        Event::LinkStart(_) => Some(OpenKind::Link),
        Event::ImageStart(_, _) => Some(OpenKind::Image),
        _ => None,
    }
}

pub open spec fn close_kind(e: Event) -> Option<OpenKind> {
    match e {
        Event::ParagraphEnd => Some(OpenKind::Para),
        Event::HeadingEnd(_) => Some(OpenKind::Heading),
        Event::BlockQuoteEnd => Some(OpenKind::Quote),
        Event::CodeBlockEnd => Some(OpenKind::Code),
        Event::ListEnd => Some(OpenKind::List),
        Event::ItemEnd => Some(OpenKind::Item),
        Event::TableEnd => Some(OpenKind::Table),
        Event::TableHeadEnd => Some(OpenKind::TableHead),
        Event::TableRowEnd => Some(OpenKind::TableRow),
        Event::TableCellEnd => Some(OpenKind::TableCell),
        Event::FootnoteDefinitionEnd => Some(OpenKind::Footnote),
        Event::EmphasisEnd => Some(OpenKind::Emph),
        Event::StrongEnd => Some(OpenKind::Strong),
        Event::StrikethroughEnd => Some(OpenKind::Strike),
        Event::LinkEnd => Some(OpenKind::Link),
        Event::ImageEnd => Some(OpenKind::Image),
        _ => None,
    }
}

/// No table part is open anywhere on the shape stack.
pub open spec fn no_table_parts(o: Seq<OpenKind>) -> bool {
    forall|i: int|
        0 <= i < o.len() ==> (#[trigger] o[i]) != OpenKind::TableHead && o[i] != OpenKind::TableRow
            && o[i] != OpenKind::TableCell
}

/// Whether the next event respects the document grammar at this shape: a
/// close matches the innermost open; table heads and rows open directly
/// inside a table, cells directly inside a head or row, and a table never
/// opens inside another table's parts.
pub open spec fn shape_ok(o: Seq<OpenKind>, e: Event) -> bool {
    match open_kind(e) {
        Some(k) => {
            if k == OpenKind::TableHead || k == OpenKind::TableRow {
                o.len() > 0 && o.last() == OpenKind::Table
            } else if k == OpenKind::TableCell {
                o.len() > 0 && (o.last() == OpenKind::TableHead || o.last() == OpenKind::TableRow)
            } else if k == OpenKind::Table {
                no_table_parts(o)
            } else {
                true
            }
        },
        None => match close_kind(e) {
            Some(k) => o.len() > 0 && o.last() == k,
            None => true,
        },
    }
}

pub open spec fn shape_step(o: Seq<OpenKind>, e: Event) -> Seq<OpenKind> {
    match open_kind(e) {
        Some(k) => o.push(k),
        None => match close_kind(e) {
            Some(_) => if o.len() > 0 {
                o.drop_last()
            } else {
                o
            },
            None => o,
        },
    }
}

pub open spec fn shape_wf_from(o: Seq<OpenKind>, evs: Seq<Event>) -> bool
    decreases evs.len(),
{
    if evs.len() == 0 {
        true
    } else {
        shape_ok(o, evs[0]) && shape_wf_from(shape_step(o, evs[0]), evs.drop_first())
    }
}

pub open spec fn shape_run(o: Seq<OpenKind>, evs: Seq<Event>) -> Seq<OpenKind>
    decreases evs.len(),
{
    if evs.len() == 0 {
        o
    } else {
        shape_run(shape_step(o, evs[0]), evs.drop_first())
    }
}

/// A well-formed event stream: every event respects the grammar and every
/// construct opened is closed by the end.
pub open spec fn well_formed_stream(evs: Seq<Event>) -> bool {
    shape_wf_from(Seq::empty(), evs) && shape_run(Seq::empty(), evs).len() == 0
}

/// The open kinds that push the inline style stack by themselves.
pub open spec fn is_style_kind(k: OpenKind) -> bool {
    k == OpenKind::Heading || k == OpenKind::Emph || k == OpenKind::Strong || k == OpenKind::Strike
        || k == OpenKind::Link
}

/// The open kinds that push the block-context stack.
pub open spec fn is_block_kind(k: OpenKind) -> bool {
    k == OpenKind::Quote || k == OpenKind::List || k == OpenKind::Table
}

/// How much the innermost open construct contributes to the style depth: a
/// header-row cell pushes a style too.
pub open spec fn entry_style_weight(o: Seq<OpenKind>) -> nat
    recommends
        o.len() > 0,
{
    if is_style_kind(o.last()) {
        1nat
    } else if o.last() == OpenKind::TableCell && o.len() >= 2 && o[o.len() - 2]
        == OpenKind::TableHead {
        1nat
    } else {
        0nat
    }
}

/// How many styles the open constructs have pushed.
pub open spec fn style_count(o: Seq<OpenKind>) -> nat
    decreases o.len(),
{
    if o.len() == 0 {
        0
    } else {
        style_count(o.drop_last()) + entry_style_weight(o)
    }
}

/// How many block contexts the open constructs have pushed.
pub open spec fn block_count(o: Seq<OpenKind>) -> nat
    decreases o.len(),
{
    if o.len() == 0 {
        0
    } else {
        block_count(o.drop_last()) + (if is_block_kind(o.last()) {
            1nat
        } else {
            0nat
        })
    }
}

/// Table parts sit directly inside their parents.
pub open spec fn parent_ok_at(o: Seq<OpenKind>, i: int) -> bool
    recommends
        0 <= i < o.len(),
{
    (o[i] == OpenKind::TableCell ==> i > 0 && (o[i - 1] == OpenKind::TableHead || o[i - 1]
        == OpenKind::TableRow)) && ((o[i] == OpenKind::TableHead || o[i] == OpenKind::TableRow)
        ==> i > 0 && o[i - 1] == OpenKind::Table)
}

pub open spec fn parents_ok(o: Seq<OpenKind>) -> bool {
    forall|i: int| 0 <= i < o.len() ==> #[trigger] parent_ok_at(o, i)
}

/// Below an open table there is no table part.
pub open spec fn tables_clean(o: Seq<OpenKind>) -> bool {
    forall|i: int, j: int|
        0 <= j < i < o.len() && (#[trigger] o[i]) == OpenKind::Table ==> (#[trigger] o[j])
            != OpenKind::TableHead && o[j] != OpenKind::TableRow && o[j] != OpenKind::TableCell
}

/// Internal well-formedness of a reachable shape.
pub open spec fn shape_inv(o: Seq<OpenKind>) -> bool {
    parents_ok(o) && tables_clean(o)
}

/// The simulation invariant between the machine and the shape automaton.
pub open spec fn sim_inv(m: StateModel, o: Seq<OpenKind>) -> bool {
    &&& m.styles.len() == 1 + style_count(o)
    &&& m.blocks.len() == block_count(o)
    &&& (o.contains(OpenKind::TableHead) ==> m.in_header)
    &&& (o.contains(OpenKind::TableRow) ==> !m.in_header)
}

proof fn lemma_contains_drop_last(o: Seq<OpenKind>, k: OpenKind)
    requires
        o.len() > 0,
        o.drop_last().contains(k),
    ensures
        o.contains(k),
{
    let i = choose|i: int| 0 <= i < o.drop_last().len() && o.drop_last()[i] == k;
    assert(o[i] == k);
}

/// With a table on top of the shape stack, no table part is open anywhere.
proof fn lemma_top_table_no_parts(o: Seq<OpenKind>)
    requires
        shape_inv(o),
        o.len() > 0,
        o.last() == OpenKind::Table,
    ensures
        !o.contains(OpenKind::TableHead),
        !o.contains(OpenKind::TableRow),
        !o.contains(OpenKind::TableCell),
{
    assert(o[o.len() - 1] == OpenKind::Table);
    if o.contains(OpenKind::TableHead) {
        let j = choose|j: int| 0 <= j < o.len() && o[j] == OpenKind::TableHead;
        assert(o[j] != OpenKind::TableHead);
    }
    if o.contains(OpenKind::TableRow) {
        let j = choose|j: int| 0 <= j < o.len() && o[j] == OpenKind::TableRow;
        assert(o[j] != OpenKind::TableRow);
    }
    if o.contains(OpenKind::TableCell) {
        let j = choose|j: int| 0 <= j < o.len() && o[j] == OpenKind::TableCell;
        assert(o[j] != OpenKind::TableCell);
    }
}

/// A grammatical event takes a well-formed shape to a well-formed shape.
proof fn lemma_shape_inv_step(o: Seq<OpenKind>, e: Event)
    requires
        shape_inv(o),
        shape_ok(o, e),
    ensures
        shape_inv(shape_step(o, e)),
{
    let o2 = shape_step(o, e);
    match open_kind(e) {
        Some(k) => {
            assert(o2 == o.push(k));
            assert forall|i: int| 0 <= i < o2.len() implies #[trigger] parent_ok_at(o2, i) by {
                if i < o.len() {
                    assert(parent_ok_at(o, i));
                    assert(o2[i] == o[i]);
                    if i > 0 {
                        assert(o2[i - 1] == o[i - 1]);
                    }
                } else {
                    assert(o2[i] == k);
                    if i > 0 {
                        assert(o2[i - 1] == o.last());
                    }
                }
            }
            assert forall|i: int, j: int|
                0 <= j < i < o2.len() && (#[trigger] o2[i]) == OpenKind::Table implies (
            #[trigger] o2[j]) != OpenKind::TableHead && o2[j] != OpenKind::TableRow && o2[j]
                != OpenKind::TableCell by {
                assert(o2[j] == o[j]);
                if i < o.len() {
                    assert(o2[i] == o[i]);
                } else {
                    assert(o2[i] == k);
                }
            }
        },
        None => {
            match close_kind(e) {
                Some(_) => {
                    assert(o2 == o.drop_last());
                    assert forall|i: int| 0 <= i < o2.len() implies #[trigger] parent_ok_at(
                        o2,
                        i,
                    ) by {
                        assert(parent_ok_at(o, i));
                        assert(o2[i] == o[i]);
                        if i > 0 {
                            assert(o2[i - 1] == o[i - 1]);
                        }
                    }
                    assert forall|i: int, j: int|
                        0 <= j < i < o2.len() && (#[trigger] o2[i]) == OpenKind::Table implies (
                    #[trigger] o2[j]) != OpenKind::TableHead && o2[j] != OpenKind::TableRow
                        && o2[j] != OpenKind::TableCell by {
                        assert(o2[i] == o[i]);
                        assert(o2[j] == o[j]);
                    }
                },
                None => {},
            }
        },
    }
}

/// Facts about pushing one open kind onto the shape stack.
proof fn open_case(o: Seq<OpenKind>, k: OpenKind)
    ensures
        style_count(o.push(k)) == style_count(o) + entry_style_weight(o.push(k)),
        block_count(o.push(k)) == block_count(o) + (if is_block_kind(k) {
            1nat
        } else {
            0nat
        }),
        o.push(k).contains(OpenKind::TableHead) == (o.contains(OpenKind::TableHead) || k
            == OpenKind::TableHead),
        o.push(k).contains(OpenKind::TableRow) == (o.contains(OpenKind::TableRow) || k
            == OpenKind::TableRow),
        o.push(k).last() == k,
        o.len() > 0 ==> o.push(k)[o.len() - 1] == o.last(),
{
    assert(o.push(k).drop_last() =~= o);
    lemma_contains_push(o, k, OpenKind::TableHead);
    lemma_contains_push(o, k, OpenKind::TableRow);
}

proof fn lemma_contains_push(o: Seq<OpenKind>, k: OpenKind, x: OpenKind)
    ensures
        o.push(k).contains(x) == (o.contains(x) || k == x),
{
    if o.contains(x) {
        let i = choose|i: int| 0 <= i < o.len() && o[i] == x;
        assert(o.push(k)[i] == x);
    }
    if k == x {
        assert(o.push(k)[o.len() as int] == x);
    }
    if o.push(k).contains(x) && k != x && !o.contains(x) {
        let i = choose|i: int| 0 <= i < o.push(k).len() && o.push(k)[i] == x;
        assert(o[i] == x);
    }
}

/// Facts about popping the innermost open kind off the shape stack.
proof fn close_case(o: Seq<OpenKind>)
    requires
        o.len() > 0,
    ensures
        style_count(o) == style_count(o.drop_last()) + entry_style_weight(o),
        block_count(o) == block_count(o.drop_last()) + (if is_block_kind(o.last()) {
            1nat
        } else {
            0nat
        }),
        o.drop_last().contains(OpenKind::TableHead) ==> o.contains(OpenKind::TableHead),
        o.drop_last().contains(OpenKind::TableRow) ==> o.contains(OpenKind::TableRow),
{
    if o.drop_last().contains(OpenKind::TableHead) {
        lemma_contains_drop_last(o, OpenKind::TableHead);
    }
    if o.drop_last().contains(OpenKind::TableRow) {
        lemma_contains_drop_last(o, OpenKind::TableRow);
    }
}

/// One grammatical event preserves the simulation invariant.
#[verifier::rlimit(100)]
#[verifier::spinoff_prover]
proof fn lemma_step_sim(m: StateModel, o: Seq<OpenKind>, e: Event)
    requires
        sim_inv(m, o),
        shape_inv(o),
        shape_ok(o, e),
    ensures
        sim_inv(spec_step(m, e), shape_step(o, e)),
{
    match e {
        Event::ParagraphStart => {
            open_case(o, OpenKind::Para);
        },
        Event::ParagraphEnd => {
            close_case(o);
        },
        Event::HeadingStart(_) => {
            open_case(o, OpenKind::Heading);
        },
        Event::HeadingEnd(_) => {
            close_case(o);
        },
        Event::BlockQuoteStart => {
            open_case(o, OpenKind::Quote);
        },
        Event::BlockQuoteEnd => {
            close_case(o);
        },
        Event::CodeBlockStart(_) => {
            open_case(o, OpenKind::Code);
        },
        Event::CodeBlockEnd => {
            close_case(o);
        },
        Event::ListStart(_) => {
            open_case(o, OpenKind::List);
        },
        Event::ListEnd => {
            close_case(o);
        },
        Event::ItemStart => {
            open_case(o, OpenKind::Item);
            lemma_bump_len(m_flush_block(m).blocks);
        },
        Event::ItemEnd => {
            close_case(o);
        },
        Event::TableStart => {
            open_case(o, OpenKind::Table);
        },
        Event::TableEnd => {
            close_case(o);
        },
        Event::TableHeadStart => {
            open_case(o, OpenKind::TableHead);
            lemma_top_table_no_parts(o);
        },
        Event::TableHeadEnd => {
            close_case(o);
        },
        Event::TableRowStart => {
            open_case(o, OpenKind::TableRow);
            lemma_top_table_no_parts(o);
        },
        Event::TableRowEnd => {
            close_case(o);
        },
        Event::TableCellStart => {
            open_case(o, OpenKind::TableCell);
            if o.last() == OpenKind::TableHead {
                assert(o[o.len() - 1] == OpenKind::TableHead);
                assert(o.contains(OpenKind::TableHead));
                assert(entry_style_weight(o.push(OpenKind::TableCell)) == 1);
            } else {
                assert(o[o.len() - 1] == OpenKind::TableRow);
                assert(o.contains(OpenKind::TableRow));
                assert(entry_style_weight(o.push(OpenKind::TableCell)) == 0);
            }
        },
        Event::TableCellEnd => {
            close_case(o);
            assert(o[o.len() - 1] == OpenKind::TableCell);
            assert(parent_ok_at(o, o.len() - 1));
            if o[o.len() - 2] == OpenKind::TableHead {
                assert(o.contains(OpenKind::TableHead));
                assert(entry_style_weight(o) == 1);
            } else {
                assert(o[o.len() - 2] == OpenKind::TableRow);
                assert(o.contains(OpenKind::TableRow));
                assert(entry_style_weight(o) == 0);
            }
        },
        Event::FootnoteDefinitionStart(_) => {
            open_case(o, OpenKind::Footnote);
        },
        Event::FootnoteDefinitionEnd => {
            close_case(o);
        },
        Event::EmphasisStart => {
            open_case(o, OpenKind::Emph);
        },
        Event::EmphasisEnd => {
            close_case(o);
        },
        Event::StrongStart => {
            open_case(o, OpenKind::Strong);
        },
        Event::StrongEnd => {
            close_case(o);
        },
        Event::StrikethroughStart => {
            open_case(o, OpenKind::Strike);
        },
        Event::StrikethroughEnd => {
            close_case(o);
        },
        Event::LinkStart(_) => {
            open_case(o, OpenKind::Link);
        },
        Event::LinkEnd => {
            close_case(o);
        },
        Event::ImageStart(_, _) => {
            open_case(o, OpenKind::Image);
        },
        Event::ImageEnd => {
            close_case(o);
        },
        Event::Text(_) => {},
        Event::Code(_) => {},
        Event::RawMarkup(_) => {},
        Event::FootnoteReference(_) => {},
        Event::SoftBreak => {},
        Event::HardBreak => {},
        Event::Rule => {},
        Event::TaskListMarker(_) => {},
    }
}

/// The simulation invariant carries over a whole well-formed stream.
proof fn lemma_run_sim(m: StateModel, o: Seq<OpenKind>, evs: Seq<Event>)
    requires
        sim_inv(m, o),
        shape_inv(o),
        shape_wf_from(o, evs),
    ensures
        sim_inv(run_model(m, evs), shape_run(o, evs)),
        shape_inv(shape_run(o, evs)),
    decreases evs.len(),
{
    if evs.len() > 0 {
        lemma_step_sim(m, o, evs[0]);
        lemma_shape_inv_step(o, evs[0]);
        lemma_run_sim(spec_step(m, evs[0]), shape_step(o, evs[0]), evs.drop_first());
    }
}

/// For any well-formed input event stream, the inline style stack is back
/// at depth exactly one when the stream ends, and the block-context stack
/// is empty; the final flush changes neither.
pub proof fn lemma_stream_restores_stacks(evs: Seq<Event>, params: RenderParams)
    requires
        well_formed_stream(evs),
    ensures
        run_model(init_model(params), evs).styles.len() == 1,
        run_model(init_model(params), evs).blocks.len() == 0,
        m_flush_block(run_model(init_model(params), evs)).styles.len() == 1,
        m_flush_block(run_model(init_model(params), evs)).blocks.len() == 0,
{
    let empty = Seq::<OpenKind>::empty();
    assert(style_count(empty) == 0);
    assert(block_count(empty) == 0);
    assert(sim_inv(init_model(params), empty));
    lemma_run_sim(init_model(params), empty, evs);
    let fin = shape_run(empty, evs);
    assert(fin.len() == 0);
    assert(fin =~= empty);
}

/// Closing a link that accumulated no display text still emits a clickable
/// region: empty text, bound to the link's URL.
pub proof fn lemma_empty_link_clickable(m: StateModel, url: Seq<char>)
    requires
        m.link_url == Some(url),
        m.link_text == Seq::<char>::empty(),
    ensures
        spec_step(m, Event::LinkEnd).out == m.out.push(
            CmdModel::ClickableCmd { text: Seq::<char>::empty(), url },
        ),
        spec_step(m, Event::LinkEnd).link_url is None,
{
}

/// A task-list marker and the item's text end in the same text run with the
/// marker in front, whichever of the two events arrives first.
pub proof fn lemma_task_marker_order(m: StateModel, t: String, checked: bool)
    requires
        !m.code_active,
        m.link_url is None,
    ensures
        spec_step(spec_step(m, Event::TaskListMarker(checked)), Event::Text(t)) == spec_step(
            spec_step(m, Event::Text(t)),
            Event::TaskListMarker(checked),
        ),
        spec_step(spec_step(m, Event::TaskListMarker(checked)), Event::Text(t)).run[0].text
            == spec_task_marker(checked),
        spec_step(spec_step(m, Event::TaskListMarker(checked)), Event::Text(t)).run.last().text
            == t@,
{
    let a = spec_step(spec_step(m, Event::TaskListMarker(checked)), Event::Text(t));
    let b = spec_step(spec_step(m, Event::Text(t)), Event::TaskListMarker(checked));
    assert(a.run =~= b.run);
    assert(a.cell =~= b.cell);
    assert(a =~~= b);
}

/// Closing a code block emits the same command for any language token: the
/// emitted command is determined by the accumulated text alone.  Which
/// colours its spans carry is the external colorizer's affair — and the
/// colorizer resolves an unrecognized token to the plain-text syntax, so an
/// unrecognized token and an explicit plain-text token also colour alike.
pub proof fn lemma_code_block_output_ignores_token(m: StateModel, lang: Option<Seq<char>>)
    ensures
        spec_step(StateModel { code_lang: lang, ..m }, Event::CodeBlockEnd).out == spec_step(
            m,
            Event::CodeBlockEnd,
        ).out,
{
}

/// A finished table is emitted as a grid whose column count is the largest
/// cell count among its rows.
pub proof fn lemma_table_grid_columns(m: StateModel)
    requires
        m.run.len() == 0,
        m.rows.len() > 0,
        spec_max_row_len(m.rows) > 0,
    ensures
        spec_step(m, Event::TableEnd).out == m.out.push(
            CmdModel::GridCmd { rows: m.rows, columns: spec_max_row_len(m.rows) as int },
        ).push(CmdModel::Space(BLOCK_CLOSE_SPACING as int)),
{
}

} // verus!
