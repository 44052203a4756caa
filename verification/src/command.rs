//! The output alphabet: visual commands handed to a rendering surface, and
//! the mathematical models that the contracts speak of.
//!
//! A code block's fragments come from the external line colorizer, so their
//! span boundaries and colours are not pinned down mathematically; the model
//! of a code-block command is the raw text it carries, which the contracts do
//! pin down exactly.  Every other command is modelled in full.

use vstd::prelude::*;
use crate::style::StyleFormat;

verus! {

/// One styled piece of text inside a text run.
#[derive(Clone, Debug, PartialEq)]
pub struct Fragment {
    pub text: String,
    pub format: StyleFormat,
}

/// One visual command for the rendering surface.
#[derive(Clone, Debug, PartialEq)]
pub enum Command {
    /// A committed text run: fragments drawn side by side.
    TextRun(Vec<Fragment>),
    /// Vertical spacing of the given amount.
    VerticalSpace(u32),
    /// A horizontal rule across the available width.
    HorizontalRule,
    /// A finished table: rows of cells of fragments, drawn as a grid with
    /// the given column count.
    Grid { rows: Vec<Vec<Vec<Fragment>>>, columns: usize },
    /// A finished code block, drawn on the code background.
    CodeBlock { fragments: Vec<Fragment> },
    /// An image placement: the resource at the URL, a hover tooltip, and the
    /// largest fraction of the available width it may take, in percent.
    Image { url: String, tooltip: String, max_width_percent: u32 },
    /// A clickable region showing `text` and activating `url`.
    Clickable { text: String, url: String },
    /// A list-item marker at the given indent from the left edge.
    ListMarker { marker: String, indent: u32 },
    /// The leading coloured bar of a block quote.
    QuoteBar,
}

/// Model of a fragment: its text as a sequence of characters, with its style.
#[verifier::ext_equal]
pub ghost struct FragModel {
    pub text: Seq<char>,
    pub format: StyleFormat,
}

/// Model of a command.  `CodeText` abstracts a code block to the raw text
/// that its fragments spell out.
#[verifier::ext_equal]
pub ghost enum CmdModel {
    Run(Seq<FragModel>),
    Space(int),
    RuleLine,
    GridCmd { rows: Seq<Seq<Seq<FragModel>>>, columns: int },
    CodeText(Seq<char>),
    ImageCmd { url: Seq<char>, tooltip: Seq<char>, max_width_percent: int },
    ClickableCmd { text: Seq<char>, url: Seq<char> },
    MarkerCmd { marker: Seq<char>, indent: int },
    QuoteBarCmd,
}

pub open spec fn frag_model(f: Fragment) -> FragModel {
    FragModel { text: f.text@, format: f.format }
}

pub open spec fn frags_model(s: Seq<Fragment>) -> Seq<FragModel> {
    s.map_values(|f: Fragment| frag_model(f))
}

pub open spec fn cell_model(c: Vec<Fragment>) -> Seq<FragModel> {
    frags_model(c@)
}

pub open spec fn row_model(r: Vec<Vec<Fragment>>) -> Seq<Seq<FragModel>> {
    r@.map_values(|c: Vec<Fragment>| cell_model(c))
}

pub open spec fn rows_model(rs: Seq<Vec<Vec<Fragment>>>) -> Seq<Seq<Seq<FragModel>>> {
    rs.map_values(|r: Vec<Vec<Fragment>>| row_model(r))
}

/// The text that a sequence of fragments spells out, in order.
pub open spec fn concat_frag_text(s: Seq<FragModel>) -> Seq<char>
    decreases s.len(),
{
    if s.len() == 0 {
        Seq::<char>::empty()
    } else {
        concat_frag_text(s.drop_last()) + s.last().text
    }
}

pub open spec fn cmd_model(c: Command) -> CmdModel {
    match c {
        Command::TextRun(frags) => CmdModel::Run(frags_model(frags@)),
        Command::VerticalSpace(amount) => CmdModel::Space(amount as int),
        Command::HorizontalRule => CmdModel::RuleLine,
        Command::Grid { rows, columns } => CmdModel::GridCmd {
            rows: rows_model(rows@),
            columns: columns as int,
        },
        Command::CodeBlock { fragments } => CmdModel::CodeText(
            concat_frag_text(frags_model(fragments@)),
        ),
        Command::Image { url, tooltip, max_width_percent } => CmdModel::ImageCmd {
            url: url@,
            tooltip: tooltip@,
            max_width_percent: max_width_percent as int,
        },
        Command::Clickable { text, url } => CmdModel::ClickableCmd { text: text@, url: url@ },
        Command::ListMarker { marker, indent } => CmdModel::MarkerCmd {
            marker: marker@,
            indent: indent as int,
        },
        Command::QuoteBar => CmdModel::QuoteBarCmd,
    }
}

pub open spec fn cmds_model(s: Seq<Command>) -> Seq<CmdModel> {
    s.map_values(|c: Command| cmd_model(c))
}

pub broadcast proof fn lemma_frags_model_push(s: Seq<Fragment>, f: Fragment)
    ensures
        #[trigger] frags_model(s.push(f)) == frags_model(s).push(frag_model(f)),
{
    assert(frags_model(s.push(f)) =~= frags_model(s).push(frag_model(f)));
}

pub broadcast proof fn lemma_frags_model_insert0(s: Seq<Fragment>, f: Fragment)
    ensures
        #[trigger] frags_model(s.insert(0, f)) == frags_model(s).insert(0, frag_model(f)),
{
    assert(frags_model(s.insert(0, f)) =~= frags_model(s).insert(0, frag_model(f)));
}

pub broadcast proof fn lemma_cmds_model_push(s: Seq<Command>, c: Command)
    ensures
        #[trigger] cmds_model(s.push(c)) == cmds_model(s).push(cmd_model(c)),
{
    assert(cmds_model(s.push(c)) =~= cmds_model(s).push(cmd_model(c)));
}

pub broadcast proof fn lemma_rows_model_push(s: Seq<Vec<Vec<Fragment>>>, r: Vec<Vec<Fragment>>)
    ensures
        #[trigger] rows_model(s.push(r)) == rows_model(s).push(row_model(r)),
{
    assert(rows_model(s.push(r)) =~= rows_model(s).push(row_model(r)));
}

/// The handy group of model-view distribution facts.
pub broadcast group group_model_lemmas {
    lemma_frags_model_push,
    lemma_frags_model_insert0,
    lemma_cmds_model_push,
    lemma_rows_model_push,
}

} // verus!
