use tui_markdown::highlight::CodeHighlighting;
use tui_markdown::style::{Color, Style, BOLD, CROSSED_OUT, DIM, ITALIC, UNDERLINED};
use tui_markdown::text::{Line, Span, Text};
use tui_markdown::{
    from_str, from_str_with_options, try_from_str_with_highlighting, DefaultStyleSheet, Options,
    StyleSheet,
};

fn span(content: &str) -> Span {
    Span::raw(content)
}

fn styled(content: &str, style: Style) -> Span {
    Span::styled(content.to_string(), style)
}

fn line(contents: &[&str]) -> Line {
    line_of(contents.iter().map(|content| span(content)).collect())
}

fn line_of(spans: Vec<Span>) -> Line {
    Line { spans, style: Style::new() }
}

fn in_style(line: Line, style: Style) -> Line {
    Line { spans: line.spans, style }
}

fn text(lines: Vec<Line>) -> Text {
    Text { lines }
}

/// One line for each string; an empty string is a blank line.
fn plain(lines: &[&str]) -> Text {
    text(
        lines
            .iter()
            .map(|content| if content.is_empty() { line(&[]) } else { line(&[content]) })
            .collect(),
    )
}

fn string_of(line: &Line) -> String {
    line.spans.iter().map(|span| span.content.as_str()).collect()
}

fn strings_of(text: &Text) -> Vec<String> {
    text.lines.iter().map(string_of).collect()
}

#[test]
fn empty() {
    assert_eq!(from_str(""), text(vec![]));
}

#[test]
fn paragraph_single() {
    assert_eq!(from_str("Hello, world!"), plain(&["Hello, world!"]));
}

#[test]
fn paragraph_soft_break() {
    assert_eq!(from_str("Hello\nWorld\n"), text(vec![line(&["Hello", " ", "World"])]));
}

#[test]
fn paragraph_multiple() {
    assert_eq!(
        from_str("Paragraph 1\n\nParagraph 2\n"),
        plain(&["Paragraph 1", "", "Paragraph 2"])
    );
}

#[test]
fn rule() {
    assert_eq!(
        from_str("Paragraph 1\n\n---\n\nParagraph 2\n"),
        plain(&["Paragraph 1", "", "---", "", "Paragraph 2"])
    );
}

#[test]
fn headings() {
    let h1 = Style::new().bg(Color::Cyan).add_modifier(BOLD).add_modifier(UNDERLINED);
    let h2 = Style::new().fg(Color::Cyan).add_modifier(BOLD);
    let h3 = Style::new().fg(Color::Cyan).add_modifier(BOLD).add_modifier(ITALIC);
    let h4 = Style::new().fg(Color::LightCyan).add_modifier(ITALIC);
    let h5 = Style::new().fg(Color::LightCyan).add_modifier(ITALIC);
    let h6 = Style::new().fg(Color::LightCyan).add_modifier(ITALIC);
    assert_eq!(
        from_str(
            "# Heading 1\n## Heading 2\n### Heading 3\n#### Heading 4\n##### Heading 5\n\
             ###### Heading 6\n"
        ),
        text(vec![
            in_style(line(&["# ", "Heading 1"]), h1),
            line(&[]),
            in_style(line(&["## ", "Heading 2"]), h2),
            line(&[]),
            in_style(line(&["### ", "Heading 3"]), h3),
            line(&[]),
            in_style(line(&["#### ", "Heading 4"]), h4),
            line(&[]),
            in_style(line(&["##### ", "Heading 5"]), h5),
            line(&[]),
            in_style(line(&["###### ", "Heading 6"]), h6),
        ])
    );
}

#[test]
fn heading_attributes() {
    let h1 = Style::new().bg(Color::Cyan).add_modifier(BOLD).add_modifier(UNDERLINED);
    let meta = Style::new().add_modifier(DIM);
    assert_eq!(
        from_str("# Heading {#title .primary data-kind=doc}"),
        text(vec![in_style(
            line_of(vec![
                span("# "),
                span("Heading"),
                styled(" {#title .primary data-kind=doc}", meta),
            ]),
            h1,
        )])
    );
}

const QUOTE: fn() -> Style = || Style::new().fg(Color::Green);

#[test]
fn after_paragraph() {
    assert_eq!(
        from_str("Hello, world!\n\n> Blockquote\n"),
        text(vec![
            line(&["Hello, world!"]),
            line(&[]),
            in_style(line(&[">", " ", "Blockquote"]), QUOTE()),
        ])
    );
}

#[test]
fn single() {
    assert_eq!(
        from_str("> Blockquote"),
        text(vec![in_style(line(&[">", " ", "Blockquote"]), QUOTE())])
    );
}

#[test]
fn soft_break() {
    assert_eq!(
        from_str("> Blockquote 1\n> Blockquote 2\n"),
        text(vec![in_style(line(&[">", " ", "Blockquote 1", " ", "Blockquote 2"]), QUOTE())])
    );
}

#[test]
fn multiple() {
    assert_eq!(
        from_str("> Blockquote 1\n>\n> Blockquote 2\n"),
        text(vec![
            in_style(line(&[">", " ", "Blockquote 1"]), QUOTE()),
            in_style(line(&[">", " "]), QUOTE()),
            in_style(line(&[">", " ", "Blockquote 2"]), QUOTE()),
        ])
    );
}

#[test]
fn multiple_with_break() {
    assert_eq!(
        from_str("> Blockquote 1\n\n> Blockquote 2\n"),
        text(vec![
            in_style(line(&[">", " ", "Blockquote 1"]), QUOTE()),
            line(&[]),
            in_style(line(&[">", " ", "Blockquote 2"]), QUOTE()),
        ])
    );
}

#[test]
fn nested() {
    assert_eq!(
        from_str("> Blockquote 1\n>> Nested Blockquote\n"),
        text(vec![
            in_style(line(&[">", " ", "Blockquote 1"]), QUOTE()),
            in_style(line(&[">", " "]), QUOTE()),
            in_style(line(&[">", ">", " ", "Nested Blockquote"]), QUOTE()),
        ])
    );
}

#[test]
fn list_single() {
    assert_eq!(from_str("- List item 1\n"), text(vec![line(&["- ", "List item 1"])]));
}

#[test]
fn list_multiple() {
    assert_eq!(
        from_str("- List item 1\n- List item 2\n"),
        text(vec![line(&["- ", "List item 1"]), line(&["- ", "List item 2"])])
    );
}

#[test]
fn list_ordered() {
    let number = Style::new().fg(Color::LightBlue);
    assert_eq!(
        from_str("1. List item 1\n2. List item 2\n"),
        text(vec![
            line_of(vec![styled("1. ", number), span("List item 1")]),
            line_of(vec![styled("2. ", number), span("List item 2")]),
        ])
    );
}

#[test]
fn list_nested() {
    assert_eq!(
        from_str("- List item 1\n  - Nested list item 1\n"),
        text(vec![line(&["- ", "List item 1"]), line(&["    - ", "Nested list item 1"])])
    );
}

#[test]
fn list_task_items() {
    assert_eq!(
        from_str("- [ ] Incomplete\n- [x] Complete\n"),
        text(vec![line(&["- [ ] ", "Incomplete"]), line(&["- [x] ", "Complete"])])
    );
}

#[test]
fn list_task_items_ordered() {
    let number = Style::new().fg(Color::LightBlue);
    assert_eq!(
        from_str("1. [ ] Incomplete\n2. [x] Complete\n"),
        text(vec![
            line_of(vec![styled("1. ", number), span("[ ] "), span("Incomplete")]),
            line_of(vec![styled("2. ", number), span("[x] "), span("Complete")]),
        ])
    );
}

#[test]
fn highlighted_code() {
    let rendered = from_str(
        "```rust\nfn main() {\n    println!(\"Hello, highlighted code!\");\n}\n```",
    );
    assert_eq!(
        strings_of(&rendered),
        vec![
            "```rust",
            "fn main() {",
            "    println!(\"Hello, highlighted code!\");",
            "}",
            "```",
        ]
    );
    let keyword = &rendered.lines[1].spans[0];
    assert_eq!(keyword.content, "fn");
    assert_eq!(keyword.style, Style::new().fg(Color::Rgb(180, 142, 173)));
    assert!(rendered.lines.iter().all(|line| line.style == Style::new()));
}

#[test]
fn highlighted_code_with_indentation() {
    let code = [
        "fn main() {",
        "    // This is a comment",
        "    HelloWorldBuilder::new()",
        "        .with_text(\"Hello, highlighted code!\")",
        "        .build()",
        "        .show();",
        "",
        "}",
    ];
    let rendered = from_str(&format!("```rust\n{}\n```", code.join("\n")));
    let mut expected = vec!["```rust"];
    expected.extend(code);
    expected.push("```");
    assert_eq!(strings_of(&rendered), expected);
    assert!(rendered.lines[2].spans.iter().any(|span| {
        span.content.contains("This is a comment")
            && span.style == Style::new().fg(Color::Rgb(101, 115, 126))
    }));
}

#[test]
fn highlighted_code_in_block_quotes() {
    let rendered = from_str("> ```rust\n> let a = 1;\n>\n> ```\n");
    assert_eq!(strings_of(&rendered), vec!["> ```rust", "> let a = 1;", "> ", "> ```"]);
    for line in &rendered.lines {
        assert_eq!(line.spans[..2], vec![span(">"), span(" ")]);
    }
    let styles: Vec<Style> = rendered.lines.iter().map(|line| line.style).collect();
    assert_eq!(styles, vec![QUOTE(), Style::new(), Style::new(), QUOTE()]);
    let keyword = Style::new().fg(Color::Rgb(180, 142, 173));
    assert_eq!(rendered.lines[1].spans[2], styled("let", keyword));

    let nested = from_str(">> ```rust\n>> fn\n>> ```\n");
    assert_eq!(strings_of(&nested), vec![">> ```rust", ">> fn", ">> ```"]);
}

#[test]
fn style_sheets_change_styles_alone() {
    let input = "# A {#b}\n\n> c `d` [e](f)\n\n```rust\nlet g = 1;\n```\n\n|h|\n|-|\n|i|\n";
    let one = from_str(input);
    let other = from_str_with_options(input, &Options::new(Quiet));
    let contents = |text: &Text| -> Vec<Vec<String>> {
        text.lines
            .iter()
            .map(|line| line.spans.iter().map(|span| span.content.clone()).collect())
            .collect()
    };
    assert_eq!(contents(&one), contents(&other));
    assert_ne!(one, other);
    assert_eq!(from_str_with_options(input, &Options::new(DefaultStyleSheet)), one);
}

#[test]
fn unhighlighted_code() {
    let options = Options { styles: DefaultStyleSheet, highlight_code: false };
    let rendered = from_str_with_options(
        "```rust\nfn main() {\n    println!(\"Hello, unhighlighted code!\");\n}\n```",
        &options,
    );
    let code = Style::new().fg(Color::White).bg(Color::Black);
    assert_eq!(
        rendered,
        text(vec![
            in_style(line(&["```rust"]), code),
            in_style(line(&["fn main() {"]), code),
            in_style(line(&["    println!(\"Hello, unhighlighted code!\");"]), code),
            in_style(line(&["}"]), code),
            in_style(line(&["```"]), code),
        ])
    );
}

#[test]
fn code_in_a_language_that_is_not_known() {
    assert_eq!(
        from_str("```no-such-language\nabc\n```"),
        plain(&["```no-such-language", "abc", "```"])
    );
}

#[test]
fn highlighting_that_is_loaded_once() {
    let highlighting = CodeHighlighting::load();
    let input = "Text\n\n```rust\nlet x = 1;\n```\n";
    assert_eq!(
        try_from_str_with_highlighting(input, &DefaultStyleSheet, Some(&highlighting)),
        Some(from_str(input))
    );
    let plain_code = Options { styles: DefaultStyleSheet, highlight_code: false };
    assert_eq!(
        try_from_str_with_highlighting(input, &DefaultStyleSheet, None),
        Some(from_str_with_options(input, &plain_code))
    );
    assert_ne!(from_str(input), from_str_with_options(input, &plain_code));
}

#[test]
fn highlighting_does_not_matter_without_code_blocks() {
    let input = "# Title\n\nSome `code` and **more**.\n\n- a\n- b\n\n|x|\n|-|\n|y|\n";
    let plain_code = Options { styles: DefaultStyleSheet, highlight_code: false };
    assert_eq!(from_str(input), from_str_with_options(input, &plain_code));
}

#[test]
fn inline_code() {
    assert_eq!(
        from_str("Example of `Inline code`"),
        text(vec![line_of(vec![
            span("Example of "),
            styled("Inline code", Style::new().fg(Color::White).bg(Color::Black)),
        ])])
    );
}

#[test]
fn superscript() {
    let style = Style::new().add_modifier(DIM).add_modifier(ITALIC);
    assert_eq!(
        from_str("H ^2^ O"),
        text(vec![line_of(vec![span("H "), styled("2", style), span(" O")])])
    );
}

#[test]
fn subscript() {
    let style = Style::new().add_modifier(DIM).add_modifier(ITALIC);
    assert_eq!(
        from_str("H ~2~ O"),
        text(vec![line_of(vec![span("H "), styled("2", style), span(" O")])])
    );
}

#[test]
fn metadata_block() {
    let style = Style::new().fg(Color::LightYellow);
    assert_eq!(
        from_str("---\ntitle: Demo\n---\n\nBody\n"),
        text(vec![
            in_style(line(&["---"]), style),
            in_style(line(&["title: Demo"]), style),
            in_style(line(&["---"]), style),
            line(&[]),
            line(&["Body"]),
        ])
    );
}

#[test]
fn strong() {
    assert_eq!(
        from_str("**Strong**"),
        text(vec![line_of(vec![styled("Strong", Style::new().add_modifier(BOLD))])])
    );
}

#[test]
fn emphasis() {
    assert_eq!(
        from_str("*Emphasis*"),
        text(vec![line_of(vec![styled("Emphasis", Style::new().add_modifier(ITALIC))])])
    );
}

#[test]
fn strikethrough() {
    assert_eq!(
        from_str("~~Strikethrough~~"),
        text(vec![line_of(vec![styled("Strikethrough", Style::new().add_modifier(CROSSED_OUT))])])
    );
}

#[test]
fn strong_emphasis() {
    assert_eq!(
        from_str("**Strong *emphasis***"),
        text(vec![line_of(vec![
            styled("Strong ", Style::new().add_modifier(BOLD)),
            styled("emphasis", Style::new().add_modifier(BOLD).add_modifier(ITALIC)),
        ])])
    );
}

#[test]
fn link() {
    assert_eq!(
        from_str("[Link](https://example.com)"),
        text(vec![line_of(vec![
            span("Link"),
            span(" ("),
            styled("https://example.com", Style::new().fg(Color::Blue).add_modifier(UNDERLINED)),
            span(")"),
        ])])
    );
}

#[test]
fn elements_that_are_not_rendered_leave_their_text() {
    assert_eq!(from_str("a <b>c</b> ![d](e)"), text(vec![line(&["a ", "c", " ", "d"])]));
}

struct Quiet;

impl StyleSheet for Quiet {
    fn heading(&self, _level: u8) -> Style {
        Style::new()
    }
    fn code(&self) -> Style {
        Style::new().fg(Color::Indexed(7))
    }
    fn link(&self) -> Style {
        Style::new()
    }
    fn blockquote(&self) -> Style {
        Style::new()
    }
    fn heading_meta(&self) -> Style {
        Style::new()
    }
    fn metadata_block(&self) -> Style {
        Style::new()
    }
    fn table_header(&self) -> Style {
        Style::new()
    }
}

#[test]
fn styles_of_the_user() {
    let rendered = from_str_with_options("# A `b`", &Options::new(Quiet));
    assert_eq!(
        rendered,
        text(vec![line_of(vec![
            span("# "),
            span("A "),
            styled("b", Style::new().fg(Color::Indexed(7))),
        ])])
    );
}

#[test]
fn table() {
    let rendered = from_str("| Name | Qty |\n|:-----|----:|\n| Apple | 5 |\n| \u{4e2d} | 12 |\n");
    assert_eq!(
        strings_of(&rendered),
        vec![
            "┌───────┬─────┐",
            "│ Name  │ Qty │",
            "├───────┼─────┤",
            "│ Apple │   5 │",
            "├───────┼─────┤",
            "│ \u{4e2d}    │  12 │",
            "└───────┴─────┘",
        ]
    );
    let bold = Style::new().add_modifier(BOLD);
    assert_eq!(
        rendered.lines[1],
        line_of(vec![
            span("│"),
            span(" "),
            styled("Name", bold),
            span(" "),
            span(" "),
            span("│"),
            span(" "),
            styled("Qty", bold),
            span(" "),
            span("│"),
        ])
    );
}

#[test]
fn table_centered_and_short_row() {
    let rendered = from_str("|a|bbbb|\n|-|:-:|\n|c|d|\n|e|\n");
    assert_eq!(
        strings_of(&rendered),
        vec![
            "┌───┬──────┐",
            "│ a │ bbbb │",
            "├───┼──────┤",
            "│ c │  d   │",
            "├───┼──────┤",
            "│ e │      │",
            "└───┴──────┘",
        ]
    );
}
