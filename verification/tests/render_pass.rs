use mdrender::command::{Command, Fragment};
use mdrender::event::Event;
use mdrender::machine::{render_events, RenderState};
use mdrender::style::{Color, FontRole, RenderParams};
use syntect::highlighting::{Theme, ThemeSet};
use syntect::parsing::SyntaxSet;

fn params() -> RenderParams {
    RenderParams {
        text_color: Color::rgb(240, 240, 245),
        weak_color: Color::rgb(128, 128, 128),
        hyperlink_color: Color::rgb(64, 128, 255),
        code_background: Color::rgb(50, 50, 65),
    }
}

fn syntaxes() -> SyntaxSet {
    SyntaxSet::load_defaults_newlines()
}

fn theme() -> Theme {
    ThemeSet::load_defaults().themes["base16-ocean.dark"].clone()
}

fn render(events: Vec<Event>) -> Vec<Command> {
    render_events(&events, params(), &syntaxes(), &theme())
}

fn text_runs(cmds: &[Command]) -> Vec<&Vec<Fragment>> {
    cmds.iter()
        .filter_map(|c| match c {
            Command::TextRun(frags) => Some(frags),
            _ => None,
        })
        .collect()
}

#[test]
fn bold_and_italic_single_run() {
    // "**bold** and *italic*" as one paragraph.
    let events = vec![
        Event::ParagraphStart,
        Event::StrongStart,
        Event::Text("bold".to_string()),
        Event::StrongEnd,
        Event::Text(" and ".to_string()),
        Event::EmphasisStart,
        Event::Text("italic".to_string()),
        Event::EmphasisEnd,
        Event::ParagraphEnd,
    ];
    let cmds = render(events);
    let runs = text_runs(&cmds);
    assert_eq!(runs.len(), 1);
    let frags = runs[0];
    assert_eq!(frags.len(), 3);
    assert_eq!(frags[0].text, "bold");
    assert!(frags[0].format.strong);
    assert!(!frags[0].format.italics);
    assert_eq!(frags[1].text, " and ");
    assert!(!frags[1].format.strong);
    assert!(!frags[1].format.italics);
    assert_eq!(frags[2].text, "italic");
    assert!(frags[2].format.italics);
    assert!(!frags[2].format.strong);
    // The run is committed with paragraph spacing right after it.
    let idx = cmds.iter().position(|c| matches!(c, Command::TextRun(_))).unwrap();
    assert_eq!(cmds[idx + 1], Command::VerticalSpace(4));
}

#[test]
fn ordered_list_marker_sequence() {
    // Ordered item "foo" holding an unordered sub-item "bar", then a second
    // ordered item "baz".
    let events = vec![
        Event::ListStart(Some(1)),
        Event::ItemStart,
        Event::Text("foo".to_string()),
        Event::ListStart(None),
        Event::ItemStart,
        Event::Text("bar".to_string()),
        Event::ItemEnd,
        Event::ListEnd,
        Event::ItemEnd,
        Event::ItemStart,
        Event::Text("baz".to_string()),
        Event::ItemEnd,
        Event::ListEnd,
    ];
    let cmds = render(events);
    let markers: Vec<&str> = cmds
        .iter()
        .filter_map(|c| match c {
            Command::ListMarker { marker, .. } => Some(marker.as_str()),
            _ => None,
        })
        .collect();
    assert_eq!(markers, vec!["1. ", "\u{2022} ", "2. "]);
}

#[test]
fn ordered_list_with_two_digit_start() {
    let events = vec![
        Event::ListStart(Some(9)),
        Event::ItemStart,
        Event::Text("nine".to_string()),
        Event::ItemEnd,
        Event::ItemStart,
        Event::Text("ten".to_string()),
        Event::ItemEnd,
        Event::ListEnd,
    ];
    let cmds = render(events);
    let markers: Vec<&str> = cmds
        .iter()
        .filter_map(|c| match c {
            Command::ListMarker { marker, .. } => Some(marker.as_str()),
            _ => None,
        })
        .collect();
    assert_eq!(markers, vec!["9. ", "10. "]);
}

#[test]
fn plain_paragraph_exact_commands() {
    let events = vec![
        Event::ParagraphStart,
        Event::Text("hi".to_string()),
        Event::ParagraphEnd,
    ];
    let cmds = render(events);
    assert_eq!(cmds.len(), 2);
    match &cmds[0] {
        Command::TextRun(frags) => {
            assert_eq!(frags.len(), 1);
            assert_eq!(frags[0].text, "hi");
            assert_eq!(frags[0].format.role, FontRole::Body);
            assert_eq!(frags[0].format.size, 14);
            assert_eq!(frags[0].format.color, params().text_color);
            assert!(!frags[0].format.strong && !frags[0].format.italics);
            assert!(!frags[0].format.underline && !frags[0].format.strikethrough);
        },
        other => panic!("expected a text run, got {:?}", other),
    }
    assert_eq!(cmds[1], Command::VerticalSpace(4));
}

#[test]
fn nested_list_marker_indent() {
    let events = vec![
        Event::ListStart(None),
        Event::ItemStart,
        Event::ListStart(None),
        Event::ItemStart,
        Event::Text("deep".to_string()),
        Event::ItemEnd,
        Event::ListEnd,
        Event::ItemEnd,
        Event::ListEnd,
    ];
    let cmds = render(events);
    let indents: Vec<u32> = cmds
        .iter()
        .filter_map(|c| match c {
            Command::ListMarker { indent, .. } => Some(*indent),
            _ => None,
        })
        .collect();
    assert_eq!(indents, vec![0, 20]);
}

#[test]
fn table_column_count_is_widest_row() {
    // Rows with 3, 2, and 4 cells give a grid of 4 columns.
    let mut events = vec![Event::TableStart];
    events.push(Event::TableHeadStart);
    for i in 0..3 {
        events.push(Event::TableCellStart);
        events.push(Event::Text(format!("h{}", i)));
        events.push(Event::TableCellEnd);
    }
    events.push(Event::TableHeadEnd);
    for (r, n) in [(0, 2), (1, 4)] {
        events.push(Event::TableRowStart);
        for i in 0..n {
            events.push(Event::TableCellStart);
            events.push(Event::Text(format!("c{}{}", r, i)));
            events.push(Event::TableCellEnd);
        }
        events.push(Event::TableRowEnd);
    }
    events.push(Event::TableEnd);
    let cmds = render(events);
    let grid = cmds
        .iter()
        .find_map(|c| match c {
            Command::Grid { rows, columns } => Some((rows, *columns)),
            _ => None,
        })
        .expect("a grid command");
    assert_eq!(grid.1, 4);
    assert_eq!(grid.0.len(), 3);
    assert_eq!(grid.0[0].len(), 3);
    assert_eq!(grid.0[1].len(), 2);
    assert_eq!(grid.0[2].len(), 4);
    // Header cells are marked by weight.
    assert!(grid.0[0][0][0].format.strong);
    assert!(!grid.0[1][0][0].format.strong);
}

#[test]
fn empty_table_emits_no_grid() {
    let events = vec![Event::TableStart, Event::TableEnd];
    let cmds = render(events);
    assert!(cmds.iter().all(|c| !matches!(c, Command::Grid { .. })));
}

#[test]
fn empty_link_emits_empty_clickable() {
    let events = vec![
        Event::ParagraphStart,
        Event::LinkStart("https://example.com/a".to_string()),
        Event::LinkEnd,
        Event::ParagraphEnd,
    ];
    let cmds = render(events);
    let click = cmds
        .iter()
        .find_map(|c| match c {
            Command::Clickable { text, url } => Some((text.as_str(), url.as_str())),
            _ => None,
        })
        .expect("a clickable command");
    assert_eq!(click.0, "");
    assert_eq!(click.1, "https://example.com/a");
}

#[test]
fn link_text_accumulates_leaves() {
    let events = vec![
        Event::ParagraphStart,
        Event::LinkStart("https://example.com/b".to_string()),
        Event::Text("see".to_string()),
        Event::SoftBreak,
        Event::Code("here".to_string()),
        Event::LinkEnd,
        Event::ParagraphEnd,
    ];
    let cmds = render(events);
    let click = cmds
        .iter()
        .find_map(|c| match c {
            Command::Clickable { text, .. } => Some(text.as_str()),
            _ => None,
        })
        .expect("a clickable command");
    assert_eq!(click, "see `here`");
}

#[test]
fn unknown_language_renders_like_plain_text() {
    // An unrecognized token falls back to the plain-text syntax, so the
    // output equals a block explicitly marked with the plain-text token.
    let code = "let answer = 42;\nprint(answer)\n";
    let mk = |lang: &str| {
        vec![
            Event::CodeBlockStart(Some(lang.to_string())),
            Event::Text(code.to_string()),
            Event::CodeBlockEnd,
        ]
    };
    let unknown = render(mk("zzqq-not-a-language"));
    let plain = render(mk("txt"));
    assert_eq!(unknown, plain);
}

#[test]
fn code_block_text_survives_highlighting() {
    let code = "fn main() {\n    let x = 1;\n}\n";
    let events = vec![
        Event::CodeBlockStart(Some("rust".to_string())),
        Event::Text(code.to_string()),
        Event::CodeBlockEnd,
    ];
    let cmds = render(events);
    let frags = cmds
        .iter()
        .find_map(|c| match c {
            Command::CodeBlock { fragments } => Some(fragments),
            _ => None,
        })
        .expect("a code block command");
    let joined: String = frags.iter().map(|f| f.text.as_str()).collect();
    assert_eq!(joined, code);
    assert!(frags.iter().all(|f| f.format.role == FontRole::Monospace));
    // The colorizer really split the block: keywords colour differently.
    assert!(frags.len() > 1);
}

#[test]
fn inline_code_wrapped_in_backticks() {
    let events = vec![
        Event::ParagraphStart,
        Event::Code("x + y".to_string()),
        Event::ParagraphEnd,
    ];
    let cmds = render(events);
    let runs = text_runs(&cmds);
    assert_eq!(runs.len(), 1);
    let frags = runs[0];
    assert_eq!(frags.len(), 3);
    assert_eq!(frags[0].text, "`");
    assert_eq!(frags[1].text, "x + y");
    assert_eq!(frags[2].text, "`");
    assert_eq!(frags[1].format.role, FontRole::Monospace);
    assert_eq!(frags[1].format.background, params().code_background);
}

#[test]
fn raw_markup_break_and_annotation() {
    let events = vec![
        Event::ParagraphStart,
        Event::Text("a".to_string()),
        Event::RawMarkup(" <br/> ".to_string()),
        Event::Text("b".to_string()),
        Event::RawMarkup("<div>".to_string()),
        Event::ParagraphEnd,
    ];
    let cmds = render(events);
    let runs = text_runs(&cmds);
    assert_eq!(runs.len(), 1);
    let frags = runs[0];
    assert_eq!(frags[1].text, "\n");
    assert_eq!(frags[3].text, "[HTML: <div>]");
    assert!(frags[3].format.italics);
    assert_eq!(frags[3].format.color, params().weak_color);
}

#[test]
fn task_marker_precedes_text_either_order() {
    let marker_first = vec![
        Event::ListStart(None),
        Event::ItemStart,
        Event::TaskListMarker(true),
        Event::Text("done".to_string()),
        Event::ItemEnd,
        Event::ListEnd,
    ];
    let text_first = vec![
        Event::ListStart(None),
        Event::ItemStart,
        Event::Text("done".to_string()),
        Event::TaskListMarker(true),
        Event::ItemEnd,
        Event::ListEnd,
    ];
    let a = render(marker_first);
    let b = render(text_first);
    assert_eq!(a, b);
    let runs = text_runs(&a);
    assert_eq!(runs.len(), 1);
    assert_eq!(runs[0][0].text, "[x] ");
    assert_eq!(runs[0][1].text, "done");
}

#[test]
fn unchecked_task_marker() {
    let events = vec![
        Event::ListStart(None),
        Event::ItemStart,
        Event::TaskListMarker(false),
        Event::Text("todo".to_string()),
        Event::ItemEnd,
        Event::ListEnd,
    ];
    let cmds = render(events);
    let runs = text_runs(&cmds);
    assert_eq!(runs[0][0].text, "[ ] ");
}

#[test]
fn heading_spacing_and_style() {
    let events = vec![
        Event::HeadingStart(1),
        Event::Text("Title".to_string()),
        Event::HeadingEnd(1),
    ];
    let cmds = render(events);
    assert_eq!(cmds[0], Command::VerticalSpace(16));
    match &cmds[1] {
        Command::TextRun(frags) => {
            assert_eq!(frags[0].text, "Title");
            assert_eq!(frags[0].format.role, FontRole::Heading(1));
            assert_eq!(frags[0].format.size, 30);
        },
        other => panic!("expected a text run, got {:?}", other),
    }
    assert_eq!(cmds[2], Command::VerticalSpace(8));
}

#[test]
fn rule_with_spacing() {
    let cmds = render(vec![Event::Rule]);
    assert_eq!(
        cmds,
        vec![
            Command::VerticalSpace(8),
            Command::HorizontalRule,
            Command::VerticalSpace(8),
        ]
    );
}

#[test]
fn blockquote_emits_bar() {
    let events = vec![
        Event::BlockQuoteStart,
        Event::ParagraphStart,
        Event::Text("quoted".to_string()),
        Event::ParagraphEnd,
        Event::BlockQuoteEnd,
    ];
    let cmds = render(events);
    assert!(cmds.iter().any(|c| matches!(c, Command::QuoteBar)));
}

#[test]
fn image_command_with_tooltip() {
    let events = vec![
        Event::ParagraphStart,
        Event::ImageStart("https://example.com/i.png".to_string(), "logo".to_string()),
        Event::ImageEnd,
        Event::ParagraphEnd,
    ];
    let cmds = render(events);
    let img = cmds
        .iter()
        .find_map(|c| match c {
            Command::Image { url, tooltip, max_width_percent } => {
                Some((url.as_str(), tooltip.as_str(), *max_width_percent))
            },
            _ => None,
        })
        .expect("an image command");
    assert_eq!(img.0, "https://example.com/i.png");
    assert_eq!(img.1, "logo (https://example.com/i.png)");
    assert_eq!(img.2, 80);
}

#[test]
fn stacks_restore_after_balanced_stream() {
    let events = vec![
        Event::ParagraphStart,
        Event::EmphasisStart,
        Event::StrongStart,
        Event::Text("x".to_string()),
        Event::StrongEnd,
        Event::EmphasisEnd,
        Event::ParagraphEnd,
        Event::BlockQuoteStart,
        Event::ParagraphStart,
        Event::Text("y".to_string()),
        Event::ParagraphEnd,
        Event::BlockQuoteEnd,
    ];
    let syn = syntaxes();
    let th = theme();
    let mut st = RenderState::new(params());
    for e in &events {
        st.step(e, &syn, &th);
    }
    assert_eq!(st.styles.len(), 1);
    assert!(st.blocks.is_empty());
}

#[test]
fn text_mirrored_into_table_cells() {
    let events = vec![
        Event::TableStart,
        Event::TableRowStart,
        Event::TableCellStart,
        Event::Text("cell".to_string()),
        Event::TableCellEnd,
        Event::TableRowEnd,
        Event::TableEnd,
    ];
    let cmds = render(events);
    let grid = cmds
        .iter()
        .find_map(|c| match c {
            Command::Grid { rows, columns } => Some((rows, *columns)),
            _ => None,
        })
        .expect("a grid command");
    assert_eq!(grid.1, 1);
    assert_eq!(grid.0[0][0][0].text, "cell");
}

#[test]
fn footnote_reference_and_definition() {
    let events = vec![
        Event::ParagraphStart,
        Event::Text("see".to_string()),
        Event::FootnoteReference("1".to_string()),
        Event::ParagraphEnd,
        Event::FootnoteDefinitionStart("1".to_string()),
        Event::ParagraphStart,
        Event::Text("the note".to_string()),
        Event::ParagraphEnd,
        Event::FootnoteDefinitionEnd,
    ];
    let cmds = render(events);
    let runs = text_runs(&cmds);
    assert_eq!(runs[0][1].text, "[^1]");
    assert_eq!(runs[0][1].format.size, 14 * 4 / 5);
    assert!(runs.iter().any(|r| r.len() == 1 && r[0].text == "[^1]:"));
}
