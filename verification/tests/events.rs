use tui_markdown::event::{Alignment, CodeBlockKind, Event, HeadingLevel, HeadingMeta, Tag, TagEnd};
use tui_markdown::style::{Color, Style, BOLD, ITALIC};
use tui_markdown::text::{Line, Span, Text};
use tui_markdown::width::display_width_spans;
use tui_markdown::writer::TextWriter;
use tui_markdown::{render_events, DefaultStyleSheet};

fn render(events: Vec<Event>) -> Option<Text> {
    render_events(events, &DefaultStyleSheet, None)
}

fn shown(events: Vec<Event>) -> Vec<String> {
    strings_of(&render(events).unwrap())
}

fn strings_of(text: &Text) -> Vec<String> {
    text.lines
        .iter()
        .map(|line| line.spans.iter().map(|span| span.content.as_str()).collect())
        .collect()
}

fn text(content: &str) -> Event {
    Event::Text(content.to_string())
}

fn no_meta() -> HeadingMeta {
    HeadingMeta { id: None, classes: vec![], attrs: vec![] }
}

/// A table with one row of the given cells.
fn table_events(alignments: Vec<Alignment>, cells: Vec<Vec<Event>>) -> Vec<Event> {
    let mut events = vec![Event::Start(Tag::Table(alignments)), Event::Start(Tag::TableRow)];
    for cell in cells {
        events.push(Event::Start(Tag::TableCell));
        events.extend(cell);
        events.push(Event::End(TagEnd::TableCell));
    }
    events.push(Event::End(TagEnd::TableRow));
    events.push(Event::End(TagEnd::Table));
    events
}

#[test]
fn no_events() {
    assert_eq!(render(vec![]), Some(Text { lines: vec![] }));
}

#[test]
fn item_outside_of_a_list() {
    assert_eq!(render(vec![Event::Start(Tag::Item)]), None);
    assert_eq!(
        render(vec![
            Event::Start(Tag::List(None)),
            Event::End(TagEnd::List),
            Event::Start(Tag::Item),
        ]),
        None
    );
}

#[test]
fn largest_numbers_of_items() {
    let list = |first: u64| {
        vec![
            Event::Start(Tag::List(Some(first))),
            Event::Start(Tag::Item),
            text("a"),
            Event::End(TagEnd::Item),
        ]
    };
    assert_eq!(shown(list(u64::MAX - 1)), vec!["18446744073709551614. a"]);
    assert_eq!(render(list(u64::MAX)), None);
    let mut two = list(u64::MAX - 1);
    two.push(Event::Start(Tag::Item));
    assert_eq!(render(two), None);
}

#[test]
fn task_box_without_a_mark() {
    assert_eq!(
        render(vec![Event::Start(Tag::Paragraph), Event::TaskListMarker(true)]),
        None
    );
    assert_eq!(shown(vec![Event::TaskListMarker(true)]), vec!["[x] "]);
    assert_eq!(
        shown(vec![Event::Start(Tag::Paragraph), text("a"), Event::TaskListMarker(false)]),
        vec!["a[ ] "]
    );
}

#[test]
fn writer_stops_where_an_event_cannot_come() {
    let events = || vec![text("a"), Event::Rule, Event::Start(Tag::Item), text("b")];
    let mut writer = TextWriter::new(&DefaultStyleSheet, None);
    assert!(!writer.accepts(&Event::Start(Tag::Item)));
    assert!(writer.accepts(&Event::Rule));
    assert_eq!(writer.run(events()), 2);
    assert_eq!(strings_of(&writer.into_text()), vec!["a", "---"]);

    let mut writer = TextWriter::new(&DefaultStyleSheet, None);
    writer.handle_event(Event::Start(Tag::List(None)));
    assert!(writer.accepts(&Event::Start(Tag::Item)));
    assert_eq!(writer.run(events()), 4);
    assert_eq!(strings_of(&writer.into_text()), vec!["a", "---", "- b"]);
}

#[test]
fn ends_without_starts() {
    assert_eq!(
        shown(vec![
            Event::End(TagEnd::Strong),
            Event::End(TagEnd::BlockQuote),
            Event::End(TagEnd::List),
            Event::End(TagEnd::MetadataBlock),
            Event::End(TagEnd::Table),
            Event::End(TagEnd::TableCell),
            Event::End(TagEnd::Link),
            Event::Start(Tag::Paragraph),
            text("a"),
        ]),
        vec!["", "a"]
    );
}

#[test]
fn metadata_block_in_another_one() {
    let rendered = render(vec![
        Event::Start(Tag::MetadataBlock),
        Event::Start(Tag::MetadataBlock),
        Event::End(TagEnd::MetadataBlock),
        Event::End(TagEnd::MetadataBlock),
        Event::Start(Tag::Paragraph),
        text("a"),
    ])
    .unwrap();
    assert_eq!(strings_of(&rendered), vec!["---", "", "---", "", "---", "", "a"]);
    let style = Style::new().fg(Color::LightYellow);
    assert!(rendered.lines.iter().all(|line| line.style == style));
}

#[test]
fn breaks_in_a_metadata_block() {
    assert_eq!(
        shown(vec![
            Event::Start(Tag::MetadataBlock),
            text("a: 1"),
            Event::SoftBreak,
            text("b: 2"),
            Event::End(TagEnd::MetadataBlock),
        ]),
        vec!["---", "a: 1", "b: 2", "---"]
    );
}

#[test]
fn breaks_elsewhere() {
    assert_eq!(
        shown(vec![
            Event::Start(Tag::Paragraph),
            text("a"),
            Event::SoftBreak,
            text("b"),
            Event::HardBreak,
            text("c"),
        ]),
        vec!["a b", "c"]
    );
}

#[test]
fn headings_with_attributes() {
    let heading = |meta: HeadingMeta| {
        shown(vec![
            Event::Start(Tag::Heading(HeadingLevel::H2, meta)),
            text("a"),
            Event::Start(Tag::Strong),
            text("b"),
            Event::End(TagEnd::Strong),
            Event::End(TagEnd::Heading),
        ])
    };
    assert_eq!(heading(no_meta()), vec!["## ab"]);
    assert_eq!(
        heading(HeadingMeta { id: Some("i".to_string()), ..no_meta() }),
        vec!["## ab {#i}"]
    );
    assert_eq!(
        heading(HeadingMeta {
            classes: vec!["c".to_string(), "d".to_string()],
            attrs: vec![
                ("k".to_string(), None),
                ("l".to_string(), Some("v".to_string())),
                ("m".to_string(), Some(String::new())),
            ],
            ..no_meta()
        }),
        vec!["## ab {.c .d k l=v m=}"]
    );
}

#[test]
fn heading_suffix() {
    assert_eq!(no_meta().to_suffix(), None);
    assert!(no_meta().into_option().is_none());
    let meta = HeadingMeta { id: Some(String::new()), ..no_meta() };
    assert_eq!(meta.to_suffix(), Some(" {#}".to_string()));
    assert!(meta.into_option().is_some());
}

#[test]
fn heading_levels() {
    assert_eq!(HeadingLevel::H1.number(), 1);
    assert_eq!(HeadingLevel::H6.number(), 6);
}

#[test]
fn texts_of_several_lines() {
    assert_eq!(
        shown(vec![Event::Start(Tag::Paragraph), text("a\r\nb\n\nc\n")]),
        vec!["a", "b", "", "c"]
    );
    assert_eq!(shown(vec![Event::Start(Tag::Paragraph), text("")]), vec![""]);
    assert_eq!(shown(vec![text("a\nb")]), vec!["a", "b"]);
}

#[test]
fn text_in_nested_elements_has_the_attributes_of_all() {
    let nested = |outer: Tag, inner: Tag| {
        render(vec![Event::Start(outer), Event::Start(inner), text("a")]).unwrap().lines[0].spans[0]
            .style
    };
    let both = Style::new().add_modifier(BOLD).add_modifier(ITALIC);
    assert_eq!(nested(Tag::Strong, Tag::Emphasis), both);
    assert_eq!(nested(Tag::Emphasis, Tag::Strong), both);
    assert_eq!(nested(Tag::Emphasis, Tag::Superscript), nested(Tag::Subscript, Tag::Emphasis));
}

#[test]
fn text_after_an_element_has_the_style_of_before() {
    let rendered = render(vec![
        Event::Start(Tag::Strong),
        Event::Start(Tag::Emphasis),
        text("a"),
        Event::End(TagEnd::Emphasis),
        text("b"),
        Event::End(TagEnd::Strong),
        text("c"),
    ])
    .unwrap();
    let styles: Vec<Style> = rendered.lines[0].spans.iter().map(|span| span.style).collect();
    let bold = Style::new().add_modifier(BOLD);
    assert_eq!(styles, vec![bold.add_modifier(ITALIC), bold, Style::new()]);
}

#[test]
fn numbers_go_on_after_a_list_in_an_item() {
    let item = |content: &str| vec![Event::Start(Tag::Item), text(content)];
    let mut events = vec![Event::Start(Tag::List(Some(9)))];
    events.extend(item("a"));
    events.push(Event::Start(Tag::List(Some(1))));
    events.extend(item("b"));
    events.push(Event::End(TagEnd::Item));
    events.extend(item("c"));
    events.push(Event::End(TagEnd::Item));
    events.push(Event::End(TagEnd::List));
    events.push(Event::End(TagEnd::Item));
    events.extend(item("d"));
    assert_eq!(shown(events), vec!["9. a", "    1. b", "    2. c", "10. d"]);
}

#[test]
fn items_raise_the_number_on_top_alone() {
    let item = || vec![Event::Start(Tag::Item), text("a"), Event::End(TagEnd::Item)];
    let mut events = vec![Event::Start(Tag::List(Some(3))), Event::Start(Tag::List(Some(7)))];
    events.extend(item());
    events.push(Event::Start(Tag::Strong));
    events.extend(item());
    events.push(Event::End(TagEnd::Strong));
    events.extend(item());
    events.push(Event::End(TagEnd::List));
    events.extend(item());
    assert_eq!(shown(events), vec!["    7. a", "    8. a", "    9. a", "3. a"]);
}

#[test]
fn nothing_is_left_over_after_an_element() {
    assert_eq!(
        shown(vec![
            Event::Start(Tag::Link("x".to_string())),
            Event::End(TagEnd::Link),
            Event::End(TagEnd::Link),
            Event::Start(Tag::Table(vec![])),
            Event::End(TagEnd::Table),
            Event::Start(Tag::TableCell),
            text("a"),
            Event::End(TagEnd::Heading),
        ]),
        vec![" (x)", "a"]
    );
}

#[test]
fn quote_in_a_metadata_block_restores_its_style() {
    let rendered = render(vec![
        Event::Start(Tag::MetadataBlock),
        Event::Start(Tag::BlockQuote),
        Event::HardBreak,
        Event::End(TagEnd::BlockQuote),
        Event::HardBreak,
    ])
    .unwrap();
    let metadata = Style::new().fg(Color::LightYellow);
    let styles: Vec<Style> = rendered.lines.iter().map(|line| line.style).collect();
    assert_eq!(styles, vec![metadata, metadata, Style::new().fg(Color::Green), metadata]);
}

#[test]
fn item_that_starts_with_a_paragraph() {
    assert_eq!(
        shown(vec![
            Event::Start(Tag::List(None)),
            Event::Start(Tag::Item),
            Event::Start(Tag::Paragraph),
            text("a"),
            Event::End(TagEnd::Paragraph),
            Event::Start(Tag::Paragraph),
            text("b"),
            Event::End(TagEnd::Paragraph),
        ]),
        vec!["- a", "", "b"]
    );
}

#[test]
fn task_boxes_in_deeper_lists() {
    let task = |first: Option<u64>| {
        let rendered = render(vec![
            Event::Start(Tag::List(None)),
            Event::Start(Tag::List(first)),
            Event::Start(Tag::Item),
            Event::Start(Tag::Paragraph),
            Event::TaskListMarker(true),
            text("a"),
        ])
        .unwrap();
        rendered.lines[0].spans.iter().map(|span| span.content.clone()).collect::<Vec<String>>()
    };
    assert_eq!(task(None), vec!["    - [x] ", "a"]);
    assert_eq!(task(Some(3)), vec!["    3. ", "[x] ", "a"]);
}

#[test]
fn task_box_in_a_block_quote() {
    assert_eq!(
        shown(vec![
            Event::Start(Tag::BlockQuote),
            Event::Start(Tag::List(None)),
            Event::Start(Tag::Item),
            Event::TaskListMarker(false),
            text("a"),
        ]),
        vec![">[ ]  - a"]
    );
}

#[test]
fn block_quotes_are_marked_and_unmarked() {
    let paragraph = |content: &str| {
        vec![Event::Start(Tag::Paragraph), text(content), Event::End(TagEnd::Paragraph)]
    };
    let mut events = vec![Event::Start(Tag::BlockQuote), Event::Start(Tag::BlockQuote)];
    events.extend(paragraph("a"));
    events.push(Event::End(TagEnd::BlockQuote));
    events.extend(paragraph("b"));
    events.push(Event::End(TagEnd::BlockQuote));
    events.extend(paragraph("c"));
    let rendered = render(events).unwrap();
    assert_eq!(strings_of(&rendered), vec![">> a", "> ", "> b", "", "c"]);
    let quote = Style::new().fg(Color::Green);
    let styles: Vec<Style> = rendered.lines.iter().map(|line| line.style).collect();
    assert_eq!(styles, vec![quote, quote, quote, Style::new(), Style::new()]);
}

#[test]
fn there_is_a_blank_line_between_blocks() {
    let blocks = || {
        vec![
            vec![Event::Start(Tag::Paragraph), text("p"), Event::End(TagEnd::Paragraph)],
            vec![
                Event::Start(Tag::Heading(HeadingLevel::H1, no_meta())),
                text("h"),
                Event::End(TagEnd::Heading),
            ],
            vec![Event::Rule],
            vec![
                Event::Start(Tag::CodeBlock(CodeBlockKind::Fenced("x".to_string()))),
                text("c\n"),
                Event::End(TagEnd::CodeBlock),
            ],
            table_events(vec![], vec![vec![text("t")]]),
            vec![
                Event::Start(Tag::List(None)),
                Event::Start(Tag::Item),
                text("i"),
                Event::End(TagEnd::Item),
                Event::End(TagEnd::List),
            ],
        ]
    };
    for first in 0..blocks().len() {
        for second in 0..blocks().len() {
            let one = blocks().swap_remove(first);
            let other = blocks().swap_remove(second);
            let before = shown(blocks().swap_remove(first));
            let after = shown(one.into_iter().chain(other).collect());
            assert_eq!(&after[..before.len()], &before[..]);
            assert_eq!(after[before.len()], "");
            assert!(after.len() > before.len() + 1);
        }
    }
}

#[test]
fn written_lines_stay() {
    let events = || {
        let mut events = vec![Event::Start(Tag::Paragraph), text("a"), Event::Code("b".to_string())];
        events.push(Event::HardBreak);
        events.extend(table_events(vec![Alignment::Left], vec![vec![text("c")]]));
        events.push(Event::Start(Tag::Paragraph));
        events.push(text("d\ne"));
        events
    };
    let count = events().len();
    let whole = render(events()).unwrap();
    for n in 0..count {
        let part = render(events().into_iter().take(n).collect()).unwrap();
        assert!(part.lines.len() <= whole.lines.len());
        for (i, line) in part.lines.iter().enumerate() {
            assert_eq!(line.style, whole.lines[i].style);
            assert_eq!(line.spans[..], whole.lines[i].spans[..line.spans.len()]);
        }
    }
}

#[test]
fn what_is_not_shown_leaves_no_trace() {
    let hidden = vec![
        Event::Start(Tag::HtmlBlock),
        Event::Html,
        Event::End(TagEnd::HtmlBlock),
        Event::InlineHtml,
        Event::InlineMath,
        Event::DisplayMath,
        Event::FootnoteReference,
        Event::Start(Tag::FootnoteDefinition),
        Event::End(TagEnd::FootnoteDefinition),
        Event::Start(Tag::DefinitionList),
        Event::Start(Tag::DefinitionListTitle),
        Event::End(TagEnd::DefinitionListTitle),
        Event::Start(Tag::DefinitionListDefinition),
        Event::End(TagEnd::DefinitionListDefinition),
        Event::End(TagEnd::DefinitionList),
        Event::Start(Tag::Image),
        Event::End(TagEnd::Image),
    ];
    let mut events = vec![Event::Start(Tag::Paragraph), text("a")];
    events.extend(hidden);
    events.push(text("b"));
    assert_eq!(
        render(events),
        render(vec![Event::Start(Tag::Paragraph), text("a"), text("b")])
    );
}

#[test]
fn links_end_with_their_addresses() {
    let rendered = render(vec![
        Event::Start(Tag::Link("x".to_string())),
        Event::Start(Tag::Strong),
        text("a"),
        Event::End(TagEnd::Strong),
        Event::Start(Tag::Image),
        text("b"),
        Event::End(TagEnd::Image),
        Event::End(TagEnd::Link),
        text("c"),
    ])
    .unwrap();
    assert_eq!(strings_of(&rendered), vec!["ab (x)c"]);
}

#[test]
fn tables_without_rows_or_columns() {
    assert_eq!(
        shown(vec![Event::Start(Tag::Table(vec![])), Event::End(TagEnd::Table)]),
        Vec::<String>::new()
    );
    assert_eq!(
        shown(vec![Event::Start(Tag::Table(vec![Alignment::Left])), Event::End(TagEnd::Table)]),
        Vec::<String>::new()
    );
    assert_eq!(
        shown(vec![
            Event::Start(Tag::Table(vec![])),
            Event::Start(Tag::TableRow),
            Event::End(TagEnd::TableRow),
            Event::End(TagEnd::Table),
        ]),
        Vec::<String>::new()
    );
    assert_eq!(
        shown(table_events(vec![Alignment::Left], vec![])),
        vec!["┌───┐", "│   │", "└───┘"]
    );
}

#[test]
fn table_with_more_cells_than_alignments() {
    assert_eq!(
        shown(table_events(
            vec![Alignment::Right],
            vec![vec![text("a")], vec![text("bc")], vec![]],
        )),
        vec!["┌───┬────┬───┐", "│ a │ bc │   │", "└───┴────┴───┘"]
    );
}

#[test]
fn alignments_in_a_table() {
    let mut events = vec![Event::Start(Tag::Table(vec![
        Alignment::Unset,
        Alignment::Left,
        Alignment::Center,
        Alignment::Right,
    ]))];
    for row in ["wwww", "x"] {
        events.push(Event::Start(Tag::TableRow));
        for _ in 0..4 {
            events.push(Event::Start(Tag::TableCell));
            events.push(text(row));
            events.push(Event::End(TagEnd::TableCell));
        }
        events.push(Event::End(TagEnd::TableRow));
    }
    events.push(Event::End(TagEnd::Table));
    assert_eq!(
        shown(events),
        vec![
            "┌──────┬──────┬──────┬──────┐",
            "│ wwww │ wwww │ wwww │ wwww │",
            "├──────┼──────┼──────┼──────┤",
            "│ x    │ x    │  x   │    x │",
            "└──────┴──────┴──────┴──────┘",
        ]
    );
}

#[test]
fn cell_text_stays_on_one_line() {
    let rendered = render(table_events(
        vec![],
        vec![vec![
            text("a\nb"),
            Event::HardBreak,
            Event::Code("c".to_string()),
            Event::SoftBreak,
            text(""),
            Event::Start(Tag::Link("d".to_string())),
            text("e"),
            Event::End(TagEnd::Link),
        ]],
    ))
    .unwrap();
    assert_eq!(strings_of(&rendered)[1], "│ a b c e (d) │");
    let code = Style::new().fg(Color::White).bg(Color::Black);
    assert!(rendered.lines[1].spans.contains(&Span::styled("c".to_string(), code)));
}

#[test]
fn parts_of_a_table_that_are_left_open() {
    assert_eq!(
        shown(vec![
            Event::Start(Tag::Table(vec![])),
            Event::Start(Tag::TableCell),
            text("a"),
            Event::End(TagEnd::Table),
        ]),
        vec!["┌───┐", "│ a │", "└───┘"]
    );
}

#[test]
fn table_lines_are_equally_wide() {
    let mut events = table_events(
        vec![Alignment::Center, Alignment::Right],
        vec![vec![text("\u{4e2d}\u{6587} a\u{301}")], vec![text("\u{7}x")], vec![text("yz")]],
    );
    events.truncate(events.len() - 1);
    events.push(Event::Start(Tag::TableRow));
    events.push(Event::Start(Tag::TableCell));
    events.push(text("b"));
    events.push(Event::End(TagEnd::TableRow));
    events.push(Event::End(TagEnd::Table));
    let rendered = render(events).unwrap();
    let widths: Vec<usize> =
        rendered.lines.iter().map(|line| display_width_spans(&line.spans)).collect();
    assert_eq!(widths, vec![1 + (6 + 3) + (1 + 3) + (2 + 3); 5]);
}

#[test]
fn header_of_a_table() {
    let rendered = render(vec![
        Event::Start(Tag::Table(vec![Alignment::Unset])),
        Event::Start(Tag::TableHead),
        Event::Start(Tag::TableCell),
        Event::Start(Tag::Emphasis),
        text("a"),
        Event::End(TagEnd::Emphasis),
        Event::End(TagEnd::TableCell),
        Event::End(TagEnd::TableHead),
        Event::End(TagEnd::Table),
    ])
    .unwrap();
    let style = Style::new().add_modifier(BOLD).add_modifier(ITALIC);
    assert_eq!(
        rendered.lines[1],
        Line {
            spans: vec![
                Span::raw("│"),
                Span::raw(" "),
                Span::styled("a".to_string(), style),
                Span::raw(" "),
                Span::raw("│"),
            ],
            style: Style::new(),
        }
    );
}

#[test]
fn table_in_a_block_quote() {
    let mut events = vec![Event::Start(Tag::BlockQuote)];
    events.extend(table_events(vec![], vec![vec![text("a")]]));
    assert_eq!(shown(events), vec!["> ┌───┐", "> │ a │", "> └───┘"]);
}

#[test]
fn code_blocks() {
    let block = |kind: CodeBlockKind| {
        shown(vec![
            Event::Start(Tag::CodeBlock(kind)),
            text("a\n"),
            text("b\n"),
            Event::End(TagEnd::CodeBlock),
        ])
    };
    assert_eq!(block(CodeBlockKind::Fenced("rs".to_string())), vec!["```rs", "ab", "```"]);
    assert_eq!(block(CodeBlockKind::Indented), vec!["```", "ab", "```"]);
}
