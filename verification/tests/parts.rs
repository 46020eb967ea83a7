use tui_markdown::ansi::read_ansi;
use tui_markdown::event::{Alignment, CodeBlockKind, Event, HeadingLevel, HeadingMeta, Tag, TagEnd};
use tui_markdown::highlight::CodeHighlighting;
use tui_markdown::parse::{parse, Extensions};
use tui_markdown::strings::{
    decimal_string, ends_with_pair, join_strings, pad_start_string, repeat_char, split_lines,
    split_lines_with_endings,
};
use tui_markdown::style::{Color, Style, BOLD, CROSSED_OUT, DIM, ITALIC};
use tui_markdown::text::{Line, Span};
use tui_markdown::width::{
    checked_display_width, checked_display_width_spans, display_width, display_width_spans,
};
use tui_markdown::{
    can_render, extensions, from_str, from_str_with_options, try_from_str,
    try_from_str_with_options, DefaultStyleSheet, Options,
};

fn text(content: &str) -> Event {
    Event::Text(content.to_string())
}

fn in_paragraph(events: Vec<Event>) -> Vec<Event> {
    let mut all = vec![Event::Start(Tag::Paragraph)];
    all.extend(events);
    all.push(Event::End(TagEnd::Paragraph));
    all
}

#[test]
fn documents_that_can_be_rendered() {
    let input = "# A\n\n1. [x] b\n\n|c|\n|-|\n";
    let options = Options { styles: DefaultStyleSheet, highlight_code: false };
    assert!(can_render(input, &options));
    assert_eq!(try_from_str(input), Some(from_str(input)));
    assert_eq!(
        try_from_str_with_options(input, &options),
        Some(from_str_with_options(input, &options))
    );
    assert_eq!(from_str_with_options(input, &Options::default()), from_str(input));
    assert_eq!(from_str_with_options(input, &Options::new(DefaultStyleSheet)), from_str(input));
}

#[test]
fn parsed_blocks() {
    assert_eq!(
        parse("> a\n\n- b\n\n7. c\n", extensions()),
        vec![
            Event::Start(Tag::BlockQuote),
            Event::Start(Tag::Paragraph),
            text("a"),
            Event::End(TagEnd::Paragraph),
            Event::End(TagEnd::BlockQuote),
            Event::Start(Tag::List(None)),
            Event::Start(Tag::Item),
            text("b"),
            Event::End(TagEnd::Item),
            Event::End(TagEnd::List),
            Event::Start(Tag::List(Some(7))),
            Event::Start(Tag::Item),
            text("c"),
            Event::End(TagEnd::Item),
            Event::End(TagEnd::List),
        ]
    );
    assert_eq!(parse("", extensions()), vec![]);
}

#[test]
fn parsed_code_blocks() {
    assert_eq!(
        parse("```rs\na\n```\n\n    b\n", extensions()),
        vec![
            Event::Start(Tag::CodeBlock(CodeBlockKind::Fenced("rs".to_string()))),
            text("a\n"),
            Event::End(TagEnd::CodeBlock),
            Event::Start(Tag::CodeBlock(CodeBlockKind::Indented)),
            text("b\n"),
            Event::End(TagEnd::CodeBlock),
        ]
    );
}

#[test]
fn parsed_headings() {
    assert_eq!(
        parse("### a {#i .c .d k=v long}", extensions()),
        vec![
            Event::Start(Tag::Heading(
                HeadingLevel::H3,
                HeadingMeta {
                    id: Some("i".to_string()),
                    classes: vec!["c".to_string(), "d".to_string()],
                    attrs: vec![
                        ("k".to_string(), Some("v".to_string())),
                        ("long".to_string(), None),
                    ],
                },
            )),
            text("a"),
            Event::End(TagEnd::Heading),
        ]
    );
}

#[test]
fn parsed_inline_elements() {
    assert_eq!(
        parse("*a* **b** ~~c~~ ^d^ ~e~ [f](g) ![h](i) `j`", extensions()),
        in_paragraph(vec![
            Event::Start(Tag::Emphasis),
            text("a"),
            Event::End(TagEnd::Emphasis),
            text(" "),
            Event::Start(Tag::Strong),
            text("b"),
            Event::End(TagEnd::Strong),
            text(" "),
            Event::Start(Tag::Strikethrough),
            text("c"),
            Event::End(TagEnd::Strikethrough),
            text(" "),
            Event::Start(Tag::Superscript),
            text("d"),
            Event::End(TagEnd::Superscript),
            text(" "),
            Event::Start(Tag::Subscript),
            text("e"),
            Event::End(TagEnd::Subscript),
            text(" "),
            Event::Start(Tag::Link("g".to_string())),
            text("f"),
            Event::End(TagEnd::Link),
            text(" "),
            Event::Start(Tag::Image),
            text("h"),
            Event::End(TagEnd::Image),
            text(" "),
            Event::Code("j".to_string()),
        ])
    );
}

#[test]
fn parsed_tables() {
    let cell = |content: &str| {
        vec![Event::Start(Tag::TableCell), text(content), Event::End(TagEnd::TableCell)]
    };
    let mut expected = vec![Event::Start(Tag::Table(vec![
        Alignment::Unset,
        Alignment::Left,
        Alignment::Center,
        Alignment::Right,
    ]))];
    expected.push(Event::Start(Tag::TableHead));
    for content in ["a", "b", "c", "d"] {
        expected.extend(cell(content));
    }
    expected.push(Event::End(TagEnd::TableHead));
    expected.push(Event::Start(Tag::TableRow));
    for content in ["e", "f", "g", "h"] {
        expected.extend(cell(content));
    }
    expected.push(Event::End(TagEnd::TableRow));
    expected.push(Event::End(TagEnd::Table));
    assert_eq!(parse("|a|b|c|d|\n|-|:-|:-:|-:|\n|e|f|g|h|\n", extensions()), expected);
}

#[test]
fn parsed_leaves() {
    assert_eq!(
        parse("a\nb\\\nc<d>\n\n---\n\n- [x] e\n- [ ] f\n", extensions()),
        vec![
            Event::Start(Tag::Paragraph),
            text("a"),
            Event::SoftBreak,
            text("b"),
            Event::HardBreak,
            text("c"),
            Event::InlineHtml,
            Event::End(TagEnd::Paragraph),
            Event::Rule,
            Event::Start(Tag::List(None)),
            Event::Start(Tag::Item),
            Event::TaskListMarker(true),
            text("e"),
            Event::End(TagEnd::Item),
            Event::Start(Tag::Item),
            Event::TaskListMarker(false),
            text("f"),
            Event::End(TagEnd::Item),
            Event::End(TagEnd::List),
        ]
    );
}

#[test]
fn parsed_metadata_and_html() {
    assert_eq!(
        parse("---\na: b\n---\n\n<div>\n", extensions()),
        vec![
            Event::Start(Tag::MetadataBlock),
            text("a: b\n"),
            Event::End(TagEnd::MetadataBlock),
            Event::Start(Tag::HtmlBlock),
            Event::Html,
            Event::End(TagEnd::HtmlBlock),
        ]
    );
}

#[test]
fn extensions_that_are_switched_off() {
    let none = Extensions {
        strikethrough: false,
        tables: false,
        tasklists: false,
        heading_attributes: false,
        yaml_style_metadata_blocks: false,
        superscript: false,
        subscript: false,
    };
    assert_eq!(parse("^a^", none), in_paragraph(vec![text("^a^")]));
    assert_ne!(parse("~~a~~", none), parse("~~a~~", extensions()));
    assert_ne!(parse("~a~", none), parse("~a~", Extensions { subscript: true, ..none }));
    assert_ne!(parse("- [x] a", none), parse("- [x] a", Extensions { tasklists: true, ..none }));
    assert_ne!(parse("|a|\n|-|", none), parse("|a|\n|-|", Extensions { tables: true, ..none }));
    assert_ne!(
        parse("# a {#b}", none),
        parse("# a {#b}", Extensions { heading_attributes: true, ..none })
    );
    assert_ne!(
        parse("---\na\n---\n", none),
        parse("---\na\n---\n", Extensions { yaml_style_metadata_blocks: true, ..none })
    );
}

#[test]
fn widths() {
    assert_eq!(display_width(""), 0);
    assert_eq!(display_width("abc ~"), 5);
    assert_eq!(display_width("\t\r\n\u{0}\u{7f}\u{9f}"), 0);
    assert_eq!(display_width("\u{4e2d}"), 2);
    assert_eq!(display_width("e\u{301}"), 1);
    assert_eq!(display_width("\u{2500}\u{2502}\u{250c}\u{2518}\u{253c}\u{254b}"), 6);
    assert_eq!(checked_display_width("a\u{3042}"), Some(3));
    let spans = vec![Span::raw("ab"), Span::raw(""), Span::raw("\u{3042}")];
    assert_eq!(display_width_spans(&spans), 4);
    assert_eq!(checked_display_width_spans(&spans), Some(4));
}

#[test]
fn widths_add_up() {
    assert_eq!(display_width("\u{65e5}"), 2);
    let texts = ["", "ab", "\t", "\u{65e5}c", "e\u{301}\u{7f}"];
    for a in texts {
        for b in texts {
            assert_eq!(display_width(&format!("{a}{b}")), display_width(a) + display_width(b));
        }
    }
}

#[test]
fn documents_with_code_and_tasks() {
    let input = "```rust\nfn\n```\n\n- [x] a\n\n- [ ] b\n";
    assert!(can_render(input, &Options::default()));
    assert_eq!(try_from_str(input), Some(from_str(input)));
}

#[test]
fn lines_of_text() {
    let pieces = |s: &str| split_lines_with_endings(s);
    assert_eq!(pieces(""), Vec::<String>::new());
    assert_eq!(pieces("a\n\r\nb\rc"), vec!["a\n", "\r\n", "b\rc"]);
    assert_eq!(pieces("\n\n"), vec!["\n", "\n"]);
    for s in ["", "a", "a\n", "\n\na\r\nb", "\u{4e2d}\n\u{301}"] {
        assert_eq!(pieces(s).concat(), s);
        assert_eq!(split_lines(s), s.lines().map(String::from).collect::<Vec<String>>());
        assert!(split_lines(s).iter().all(|line| !line.contains('\n')));
    }
    assert_eq!(split_lines("a\r\nb\r"), vec!["a", "b\r"]);
}

#[test]
fn small_strings() {
    assert_eq!(repeat_char('#', 0), "");
    assert_eq!(repeat_char('\u{2500}', 3), "\u{2500}\u{2500}\u{2500}");
    assert_eq!(decimal_string(0), "0");
    assert_eq!(decimal_string(1090), "1090");
    assert_eq!(decimal_string(u64::MAX), "18446744073709551615");
    assert_eq!(pad_start_string("12", 5), "   12");
    assert_eq!(pad_start_string("12345", 5), "12345");
    assert_eq!(pad_start_string("123456", 5), "123456");
    assert!(ends_with_pair("a- ", '-', ' '));
    assert!(!ends_with_pair(" ", '-', ' '));
    assert!(!ends_with_pair("- a", '-', ' '));
    assert_eq!(join_strings(&vec![], ", "), "");
    assert_eq!(join_strings(&vec!["a".to_string()], ", "), "a");
    assert_eq!(
        join_strings(&vec!["a".to_string(), String::new(), "b".to_string()], ", "),
        "a, , b"
    );
}

#[test]
fn styles_on_top_of_one_another() {
    let green = Style::new().fg(Color::Green);
    let bold = Style::new().add_modifier(BOLD);
    let not_bold = Style { sub_modifier: BOLD, ..Style::new() };
    assert_eq!(green.patch(bold), Style { fg: Some(Color::Green), ..bold });
    assert_eq!(green.patch(Style::new().fg(Color::Red)), Style::new().fg(Color::Red));
    assert_eq!(bold.patch(not_bold), not_bold);
    assert_eq!(not_bold.patch(bold), bold);
    assert_eq!(not_bold.add_modifier(BOLD), bold);
    assert_eq!(
        bold.patch(Style::new().add_modifier(ITALIC)).add_modifier,
        BOLD | ITALIC
    );
    let all = [green, bold, not_bold, Style::new().bg(Color::Indexed(3)).add_modifier(CROSSED_OUT)];
    for a in all {
        assert_eq!(a.patch(Style::new()), a);
        assert_eq!(Style::new().patch(a), a);
        for b in all {
            for c in all {
                assert_eq!(a.patch(b).patch(c), a.patch(b.patch(c)));
            }
        }
    }
}

#[test]
fn text_with_escape_codes() {
    assert_eq!(
        read_ansi("a\u{1b}[1;38;2;1;2;3;48;5;9mb\u{1b}[22mc\nd"),
        vec![
            Line {
                spans: vec![
                    Span::raw("a"),
                    Span::styled(
                        "b".to_string(),
                        Style::new()
                            .fg(Color::Rgb(1, 2, 3))
                            .bg(Color::Indexed(9))
                            .add_modifier(BOLD),
                    ),
                    Span::styled(
                        "c".to_string(),
                        Style {
                            fg: Some(Color::Rgb(1, 2, 3)),
                            bg: Some(Color::Indexed(9)),
                            add_modifier: 0,
                            sub_modifier: BOLD | DIM,
                        },
                    ),
                ],
                style: Style::new(),
            },
            Line {
                spans: vec![Span::styled(
                    "d".to_string(),
                    Style {
                        fg: Some(Color::Rgb(1, 2, 3)),
                        bg: Some(Color::Indexed(9)),
                        add_modifier: 0,
                        sub_modifier: BOLD | DIM,
                    },
                )],
                style: Style::new(),
            },
        ]
    );
    assert_eq!(read_ansi("").len(), 1);
    assert_eq!(
        read_ansi("\u{1b}[31ma\u{1b}[92mb")[0]
            .spans
            .iter()
            .map(|span| span.style.fg)
            .collect::<Vec<Option<Color>>>(),
        vec![Some(Color::Red), Some(Color::LightGreen)]
    );
}

#[test]
fn languages_of_code() {
    let highlighting = CodeHighlighting::load();
    assert!(highlighting.highlighter("rs").is_some());
    assert!(highlighting.highlighter("RUST").is_some());
    assert!(highlighting.highlighter("").is_none());
    assert!(highlighting.highlighter("no such language").is_none());
}

#[test]
fn highlighted_lines() {
    let highlighting = CodeHighlighting::load();
    let highlight = |code: &str| {
        let (_, lines) = highlighting.highlighter("rs").unwrap().highlight(code);
        lines
    };
    let lines = highlight("let a = 1;\n\n// b\n");
    let contents: Vec<String> = lines
        .iter()
        .map(|line| line.spans.iter().map(|span| span.content.as_str()).collect())
        .collect();
    assert_eq!(contents, vec!["let a = 1;", "", "// b"]);
    assert_eq!(lines[2].spans[0].style, Style::new().fg(Color::Rgb(101, 115, 126)));
    assert_eq!(highlight(""), vec![]);
}

#[test]
fn highlighting_goes_on_from_line_to_line() {
    let highlighting = CodeHighlighting::load();
    let (rest, first) = highlighting.highlighter("rs").unwrap().highlight("/* a\n");
    let (_, second) = rest.highlight("b */\n");
    let comment = Style::new().fg(Color::Rgb(101, 115, 126));
    assert!(first[0].spans.iter().all(|span| span.style == comment));
    assert!(second[0].spans.iter().all(|span| span.style == comment));
    let (_, alone) = highlighting.highlighter("rs").unwrap().highlight("b */\n");
    assert_ne!(alone, second);
}
