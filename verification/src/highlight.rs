//! The code-block adapter.  A code block's raw text is split into lines and
//! fed to the external line colorizer; the coloured spans that come back
//! become styled fragments.  If the colorizer fails partway through, the
//! remaining raw text is emitted as a single unstyled fragment and
//! highlighting stays off for the rest of the block, so the block's text is
//! carried through verbatim on every path.

use vstd::prelude::*;
use crate::style::{Color, StyleFormat, code_span_style, spec_code_span_style, CODE_FONT_SIZE};
use crate::command::{Fragment, FragModel, frag_model, frags_model, concat_frag_text};
use crate::textutil::{concat_chars, str_to_chars, chars_to_string};
use syntect::parsing::{SyntaxSet, SyntaxReference};
use syntect::highlighting::{Theme, FontStyle};
use syntect::easy::HighlightLines;

verus! {

#[verifier::external_type_specification]
#[verifier::external_body]
pub struct ExSyntaxSet(SyntaxSet);

#[verifier::external_type_specification]
#[verifier::external_body]
pub struct ExSyntaxReference(SyntaxReference);

#[verifier::external_type_specification]
#[verifier::external_body]
pub struct ExTheme(Theme);

#[verifier::external_type_specification]
#[verifier::external_body]
pub struct ExHighlightLines<'a>(HighlightLines<'a>);

/// One coloured span of a highlighted line.
pub struct ColorSpan {
    pub text: String,
    pub color: Color,
    pub italic: bool,
}

/// The text that a sequence of coloured spans spells out, in order.
pub open spec fn concat_span_text(s: Seq<ColorSpan>) -> Seq<char>
    decreases s.len(),
{
    if s.len() == 0 {
        Seq::<char>::empty()
    } else {
        concat_span_text(s.drop_last()) + s.last().text@
    }
}

/// Relies on syntect's SyntaxSet::find_syntax_by_token: looks a syntax
/// definition up by file extension or name; None when unrecognized.
#[verifier::external_body]
fn find_syntax_token<'a>(set: &'a SyntaxSet, token: &str) -> (r: Option<&'a SyntaxReference>) {
    set.find_syntax_by_token(token)
}

/// Relies on syntect's SyntaxSet::find_syntax_by_name: the bundled default
/// sets carry a "Plain Text" syntax that colours nothing.
#[verifier::external_body]
fn find_plain_syntax(set: &SyntaxSet) -> (r: Option<&SyntaxReference>) {
    set.find_syntax_by_name("Plain Text")
}

/// Relies on syntect's HighlightLines::new: starts a highlight session for
/// one code block.
#[verifier::external_body]
fn new_highlighter<'a>(syntax: &SyntaxReference, theme: &'a Theme) -> (r: HighlightLines<'a>) {
    HighlightLines::new(syntax, theme)
}

/// Relies on syntect's HighlightLines::highlight_line, whose documentation
/// states that the concatenation of the returned span texts is the input
/// line; `None` reports its error.
#[verifier::external_body]
fn highlight_line_spans(hl: &mut HighlightLines, line: &str, set: &SyntaxSet) -> (r: Option<
    Vec<ColorSpan>,
>)
    ensures
        r matches Some(spans) ==> concat_span_text(spans@) == line@,
{
    let ranges = hl.highlight_line(line, set).ok()?;
    Some(ranges.into_iter().map(|(st, tx)| ColorSpan {
        text: tx.to_string(),
        color: Color { r: st.foreground.r, g: st.foreground.g, b: st.foreground.b, a: st.foreground.a },
        italic: st.font_style.contains(FontStyle::ITALIC),
    }).collect())
}

/// The view of each line, in order.
pub open spec fn lines_model(s: Seq<Vec<char>>) -> Seq<Seq<char>> {
    s.map_values(|l: Vec<char>| l@)
}

proof fn lemma_concat_chars_push(s: Seq<Seq<char>>, x: Seq<char>)
    ensures
        concat_chars(s.push(x)) == concat_chars(s) + x,
{
    assert(s.push(x).drop_last() =~= s);
    assert(concat_chars(s.push(x)) =~= concat_chars(s) + x);
}

proof fn lemma_concat_frag_push(s: Seq<FragModel>, f: FragModel)
    ensures
        concat_frag_text(s.push(f)) == concat_frag_text(s) + f.text,
{
    assert(s.push(f).drop_last() =~= s);
    assert(concat_frag_text(s.push(f)) =~= concat_frag_text(s) + f.text);
}

proof fn lemma_concat_span_push(s: Seq<ColorSpan>, x: ColorSpan)
    ensures
        concat_span_text(s.push(x)) == concat_span_text(s) + x.text@,
{
    assert(s.push(x).drop_last() =~= s);
    assert(concat_span_text(s.push(x)) =~= concat_span_text(s) + x.text@);
}

proof fn lemma_lines_model_push(s: Seq<Vec<char>>, x: Vec<char>)
    ensures
        lines_model(s.push(x)) == lines_model(s).push(x@),
{
    assert(lines_model(s.push(x)) =~= lines_model(s).push(x@));
}

/// Splits text into lines, each keeping its terminating newline; a last
/// line without one is kept too.  The lines spell out the input exactly.
fn split_lines(text: &Vec<char>) -> (lines: Vec<Vec<char>>)
    ensures
        concat_chars(lines_model(lines@)) == text@,
{
    let mut lines: Vec<Vec<char>> = Vec::new();
    let mut cur: Vec<char> = Vec::new();
    let mut i: usize = 0;
    proof {
        assert(text@.subrange(0, 0) =~= Seq::<char>::empty());
    }
    while i < text.len()
        invariant
            0 <= i <= text@.len(),
            concat_chars(lines_model(lines@)) + cur@ == text@.subrange(0, i as int),
        decreases text@.len() - i,
    {
        let c = text[i];
        cur.push(c);
        if c == '\n' {
            proof {
                lemma_lines_model_push(lines@, cur);
                lemma_concat_chars_push(lines_model(lines@), cur@);
            }
            lines.push(cur);
            cur = Vec::new();
        }
        i += 1;
        proof {
            assert(text@.subrange(0, i as int) =~= text@.subrange(0, i - 1).push(text@[i - 1]));
        }
    }
    proof {
        assert(text@.subrange(0, text@.len() as int) =~= text@);
    }
    if cur.len() > 0 {
        proof {
            lemma_lines_model_push(lines@, cur);
            lemma_concat_chars_push(lines_model(lines@), cur@);
        }
        lines.push(cur);
    }
    lines
}

/// The characters of `lines` from `start` on, joined.
fn join_from(lines: &Vec<Vec<char>>, start: usize) -> (r: Vec<char>)
    requires
        start <= lines@.len(),
    ensures
        r@ == concat_chars(lines_model(lines@).subrange(start as int, lines@.len() as int)),
{
    let mut r: Vec<char> = Vec::new();
    let mut j: usize = start;
    proof {
        assert(lines_model(lines@).subrange(start as int, start as int) =~= Seq::<
            Seq<char>,
        >::empty());
    }
    while j < lines.len()
        invariant
            start <= j <= lines@.len(),
            r@ == concat_chars(lines_model(lines@).subrange(start as int, j as int)),
        decreases lines@.len() - j,
    {
        let line = &lines[j];
        let mut k: usize = 0;
        while k < line.len()
            invariant
                0 <= k <= line@.len(),
                line@ == lines@[j as int]@,
                j < lines@.len(),
                r@ == concat_chars(lines_model(lines@).subrange(start as int, j as int))
                    + line@.subrange(0, k as int),
            decreases line@.len() - k,
        {
            r.push(line[k]);
            k += 1;
            proof {
                assert(line@.subrange(0, k as int) =~= line@.subrange(0, k - 1).push(
                    line@[k - 1],
                ));
            }
        }
        j += 1;
        proof {
            assert(line@.subrange(0, line@.len() as int) =~= line@);
            assert(lines_model(lines@).subrange(start as int, j as int) =~= lines_model(
                lines@,
            ).subrange(start as int, j - 1).push(lines@[j - 1]@));
            lemma_concat_chars_push(
                lines_model(lines@).subrange(start as int, j - 1),
                lines@[j - 1]@,
            );
        }
    }
    r
}

/// Whether every fragment is monospace at the code size.
pub open spec fn all_code_fragments(s: Seq<FragModel>) -> bool {
    forall|i: int|
        0 <= i < s.len() ==> (#[trigger] s[i]).format.role == crate::style::FontRole::Monospace
            && s[i].format.size == CODE_FONT_SIZE as u32
}

proof fn lemma_all_code_push(s: Seq<Fragment>, f: Fragment)
    requires
        all_code_fragments(frags_model(s)),
        f.format.role == crate::style::FontRole::Monospace,
        f.format.size == CODE_FONT_SIZE as u32,
    ensures
        all_code_fragments(frags_model(s.push(f))),
{
    assert(frags_model(s.push(f)) =~= frags_model(s).push(frag_model(f)));
    assert forall|i: int| 0 <= i < frags_model(s.push(f)).len() implies (#[trigger] frags_model(
        s.push(f),
    )[i]).format.role == crate::style::FontRole::Monospace && frags_model(s.push(f))[i].format.size
        == CODE_FONT_SIZE as u32 by {
        if i < s.len() {
            assert(frags_model(s.push(f))[i] == frags_model(s)[i]);
        } else {
            assert(frags_model(s.push(f))[i] == frag_model(f));
        }
    }
}

/// Turns a finished code block into styled fragments.  The language token is
/// resolved through the external syntax catalog, silently falling back to
/// plain text when it is unrecognized or absent; colours come from the
/// external colorizer; on a colorizer failure the remaining text is emitted
/// unstyled.  On every path the fragments spell out `code` exactly.
pub fn highlight_code_block(
    code: &String,
    lang: &Option<String>,
    syntaxes: &SyntaxSet,
    theme: &Theme,
    text_color: Color,
    code_background: Color,
) -> (frags: Vec<Fragment>)
    ensures
        concat_frag_text(frags_model(frags@)) == code@,
        all_code_fragments(frags_model(frags@)),
{
    let plain_format = code_span_style(text_color, false, code_background);
    let syntax: Option<&SyntaxReference> = match lang {
        Some(token) => match find_syntax_token(syntaxes, token.as_str()) {
            Some(s) => Some(s),
            None => find_plain_syntax(syntaxes),
        },
        None => find_plain_syntax(syntaxes),
    };
    let mut frags: Vec<Fragment> = Vec::new();
    match syntax {
        None => {
            // No syntax definition at all: the whole block is one plain fragment.
            let f = Fragment { text: code.clone(), format: plain_format };
            proof {
                assert(frags_model(frags@.push(f)) =~= frags_model(frags@).push(frag_model(f)));
                lemma_concat_frag_push(frags_model(frags@), frag_model(f));
            }
            frags.push(f);
            proof {
                assert(concat_frag_text(frags_model(frags@)) =~= code@);
            }
        },
        Some(sy) => {
            let mut hl = new_highlighter(sy, theme);
            let chars = str_to_chars(code.as_str());
            let lines = split_lines(&chars);
            let ghost all_lines = lines_model(lines@);
            let mut i: usize = 0;
            proof {
                assert(all_lines.subrange(0, 0) =~= Seq::<Seq<char>>::empty());
            }
            while i < lines.len()
                invariant
                    0 <= i <= lines@.len(),
                    all_lines == lines_model(lines@),
                    plain_format == spec_code_span_style(text_color, false, code_background),
                    concat_chars(all_lines) == code@,
                    concat_frag_text(frags_model(frags@)) == concat_chars(
                        all_lines.subrange(0, i as int),
                    ),
                    all_code_fragments(frags_model(frags@)),
                decreases lines@.len() - i,
            {
                let line_string = chars_to_string(&lines[i]);
                match highlight_line_spans(&mut hl, line_string.as_str(), syntaxes) {
                    Some(spans) => {
                        let ghost span_seq = spans@;
                        let mut k: usize = 0;
                        let mut it = spans;
                        let n = it.len();
                        while k < n
                            invariant
                                0 <= k <= span_seq.len(),
                                n == span_seq.len(),
                                it@ == span_seq,
                                concat_frag_text(frags_model(frags@)) == concat_chars(
                                    all_lines.subrange(0, i as int),
                                ) + concat_span_text(span_seq.subrange(0, k as int)),
                                all_code_fragments(frags_model(frags@)),
                            decreases span_seq.len() - k,
                        {
                            let sp = &it[k];
                            let f = Fragment {
                                text: sp.text.clone(),
                                format: code_span_style(sp.color, sp.italic, code_background),
                            };
                            proof {
                                assert(frags_model(frags@.push(f)) =~= frags_model(
                                    frags@,
                                ).push(frag_model(f)));
                                lemma_concat_frag_push(frags_model(frags@), frag_model(f));
                            }
                            frags.push(f);
                            k += 1;
                            proof {
                                assert(span_seq.subrange(0, k as int) =~= span_seq.subrange(
                                    0,
                                    k - 1,
                                ).push(span_seq[k - 1]));
                                lemma_concat_span_push(
                                    span_seq.subrange(0, k - 1),
                                    span_seq[k - 1],
                                );
                            }
                        }
                        i += 1;
                        proof {
                            assert(span_seq.subrange(0, span_seq.len() as int) =~= span_seq);
                            assert(all_lines.subrange(0, i as int) =~= all_lines.subrange(
                                0,
                                i - 1,
                            ).push(all_lines[i - 1]));
                            lemma_concat_chars_push(
                                all_lines.subrange(0, i - 1),
                                all_lines[i - 1],
                            );
                        }
                    },
                    None => {
                        // Colorizer failure: emit what remains of the block
                        // unstyled and stop highlighting it.
                        let rest = join_from(&lines, i);
                        let f = Fragment { text: chars_to_string(&rest), format: plain_format };
                        proof {
                            assert(frags_model(frags@.push(f)) =~= frags_model(frags@).push(
                                frag_model(f),
                            ));
                            lemma_concat_frag_push(frags_model(frags@), frag_model(f));
                            lemma_all_code_push(frags@, f);
                            lemma_concat_split(all_lines, i as int);
                        }
                        frags.push(f);
                        return frags;
                    },
                }
            }
            proof {
                assert(all_lines.subrange(0, all_lines.len() as int) =~= all_lines);
            }
        },
    }
    frags
}

/// Joining a prefix of lines with the matching suffix spells out the whole.
proof fn lemma_concat_split(s: Seq<Seq<char>>, i: int)
    requires
        0 <= i <= s.len(),
    ensures
        concat_chars(s.subrange(0, i)) + concat_chars(s.subrange(i, s.len() as int))
            == concat_chars(s),
    decreases s.len() - i,
{
    if i == s.len() {
        assert(s.subrange(0, s.len() as int) =~= s);
        assert(s.subrange(i, s.len() as int) =~= Seq::<Seq<char>>::empty());
        assert(concat_chars(s.subrange(0, i)) + concat_chars(s.subrange(i, s.len() as int))
            =~= concat_chars(s));
    } else {
        lemma_concat_split(s, i + 1);
        assert(s.subrange(0, i + 1) =~= s.subrange(0, i).push(s[i]));
        lemma_concat_chars_push(s.subrange(0, i), s[i]);
        lemma_concat_first(s.subrange(i, s.len() as int));
        assert(s.subrange(i, s.len() as int).drop_first() =~= s.subrange(i + 1, s.len() as int));
        assert(s.subrange(i, s.len() as int)[0] == s[i]);
        assert(concat_chars(s.subrange(0, i)) + concat_chars(s.subrange(i, s.len() as int))
            =~= concat_chars(s));
    }
}

/// Concatenation taken off the front instead of the back.
proof fn lemma_concat_first(s: Seq<Seq<char>>)
    requires
        s.len() > 0,
    ensures
        concat_chars(s) == s[0] + concat_chars(s.drop_first()),
    decreases s.len(),
{
    if s.len() == 1 {
        assert(s.drop_last() =~= Seq::<Seq<char>>::empty());
        assert(s.drop_first() =~= Seq::<Seq<char>>::empty());
        assert(concat_chars(s) =~= s[0] + concat_chars(s.drop_first()));
    } else {
        lemma_concat_first(s.drop_last());
        assert(s.drop_last().drop_first() =~= s.drop_first().drop_last());
        assert(s.drop_first().last() =~= s.last());
        assert(s.drop_last()[0] == s[0]);
        assert(concat_chars(s) =~= s[0] + concat_chars(s.drop_first()));
    }
}

} // verus!
