//! What rendering does, stated over mathematical values: how each event changes what has been
//! written so far.

use vstd::prelude::*;

use crate::event::{Alignment, CodeBlockKindView, EventView, HeadingMetaView, TagEnd, TagView};
use crate::highlight::{CodeHighlightingView, HighlighterView};
use crate::strings::{
    decimal, has_suffix, joined, lines_of, lines_with_endings, pad_start, repeated,
};
use crate::style::{Color, Style, BOLD, CROSSED_OUT, DIM, ITALIC};
use crate::style_sheet::Palette;
use crate::table::TableView;
use crate::text::{blank_line, raw_line, raw_span, LineView, SpanView};

verus! {

/// A document that is being written.
pub struct WriterView {
    /// The styles of the elements.
    pub palette: Palette,
    /// What code blocks are highlighted with, if they are.
    pub highlighting: Option<CodeHighlightingView>,
    /// The lines written so far.
    pub lines: Seq<LineView>,
    /// The styles of the text within the line, one for each element that sets one.
    pub inline_styles: Seq<Style>,
    /// What each line starts with.
    pub line_prefixes: Seq<SpanView>,
    /// The styles of whole lines, one for each element that sets one.
    pub line_styles: Seq<Style>,
    /// The highlighter of the code block that is being written.
    pub code_highlighter: Option<HighlighterView>,
    /// For each list that is being written, the number of its next item if it is ordered.
    pub list_indices: Seq<Option<u64>>,
    /// The address of the link that is being written.
    pub link: Option<Seq<char>>,
    /// The attributes of the heading that is being written.
    pub heading_meta: Option<HeadingMetaView>,
    /// Whether a metadata block is being written.
    pub in_metadata_block: bool,
    /// Whether a blank line is due before what comes next.
    pub needs_newline: bool,
    /// Whether the mark of a list item has just been written.
    pub just_added_list_item: bool,
    /// The table that is being read.
    pub table: Option<TableView>,
}

/// The style on top of a stack; the default style if there is none.
pub open spec fn top(styles: Seq<Style>) -> Style {
    if styles.len() > 0 {
        styles.last()
    } else {
        Style::new()
    }
}

/// A stack without its topmost element, if it has one.
pub open spec fn popped<A>(stack: Seq<A>) -> Seq<A> {
    if stack.len() > 0 {
        stack.drop_last()
    } else {
        stack
    }
}

/// The mark of an item in a list at the given depth, where the outermost list has depth 1.
pub open spec fn item_marker(depth: nat, index: Option<u64>) -> SpanView {
    match index {
        None => raw_span(repeated(' ', (4 * depth - 4) as nat) + "- "@),
        Some(n) => SpanView {
            content: pad_start(decimal(n as nat), (4 * depth - 3) as nat) + ". "@,
            style: Style::new().fg(Color::LightBlue),
        },
    }
}

/// The box of a task list item.
pub open spec fn task_box(checked: bool) -> Seq<char> {
    if checked {
        "[x] "@
    } else {
        "[ ] "@
    }
}

impl WriterView {
    /// An empty document.
    pub open spec fn empty(
        palette: Palette,
        highlighting: Option<CodeHighlightingView>,
    ) -> WriterView {
        WriterView {
            palette,
            highlighting,
            lines: Seq::empty(),
            inline_styles: Seq::empty(),
            line_prefixes: Seq::empty(),
            line_styles: Seq::empty(),
            code_highlighter: None,
            list_indices: Seq::empty(),
            link: None,
            heading_meta: None,
            in_metadata_block: false,
            needs_newline: false,
            just_added_list_item: false,
            table: None,
        }
    }

    /// Whether a cell of a table is being read.
    pub open spec fn in_table_cell(self) -> bool {
        self.table is Some && self.table->0.current_cell is Some
    }

    /// A line behind the prefixes and a space, if there are prefixes.
    pub open spec fn prefixed(self, line: LineView) -> LineView {
        LineView {
            spans: if self.line_prefixes.len() > 0 {
                self.line_prefixes + seq![raw_span(" "@)] + line.spans
            } else {
                line.spans
            },
            ..line
        }
    }

    /// A line as it is written here: behind the prefixes, and in the line style that is due.
    pub open spec fn decorated(self, line: LineView) -> LineView {
        LineView {
            style: line.style.patch(top(self.line_styles)),
            ..self.prefixed(line)
        }
    }

    /// Writes a line.
    pub open spec fn push_line(self, line: LineView) -> WriterView {
        WriterView { lines: self.lines.push(self.decorated(line)), ..self }
    }

    /// Writes lines one after another.
    pub open spec fn push_lines(self, lines: Seq<LineView>) -> WriterView {
        WriterView {
            lines: self.lines + lines.map_values(|line: LineView| self.decorated(line)),
            ..self
        }
    }

    /// Writes lines one after another in the styles that they have, whatever line style is due.
    pub open spec fn push_styled_lines(self, lines: Seq<LineView>) -> WriterView {
        WriterView {
            lines: self.lines + lines.map_values(|line: LineView| self.prefixed(line)),
            ..self
        }
    }

    /// Writes a blank line if one is due.
    pub open spec fn break_if_due(self) -> WriterView {
        if self.needs_newline {
            self.push_line(blank_line())
        } else {
            self
        }
    }

    /// Writes a span: into the cell that is being read, or else at the end of the last line, or
    /// else on a line of its own.
    pub open spec fn push_span(self, span: SpanView) -> WriterView {
        if self.in_table_cell() {
            WriterView { table: Some(self.table->0.push_span(span)), ..self }
        } else if self.lines.len() > 0 {
            let last = self.lines.last();
            WriterView {
                lines: self.lines.drop_last().push(
                    LineView { spans: last.spans.push(span), ..last },
                ),
                ..self
            }
        } else {
            self.push_line(LineView { spans: seq![span], style: Style::new() })
        }
    }

    /// A paragraph starts on a line of its own, after a blank line if one is due; the first
    /// paragraph of a list item starts behind its mark.
    pub open spec fn start_paragraph(self) -> WriterView {
        let broken = self.break_if_due();
        let started = if self.just_added_list_item {
            broken
        } else {
            broken.push_line(blank_line())
        };
        WriterView { needs_newline: false, just_added_list_item: false, ..started }
    }

    /// After a paragraph a blank line is due.
    pub open spec fn end_paragraph(self) -> WriterView {
        WriterView { needs_newline: true, ..self }
    }

    /// A heading starts with as many number signs as its level says.
    pub open spec fn start_heading(self, level: u8, meta: HeadingMetaView) -> WriterView {
        let line = LineView {
            spans: seq![raw_span(repeated('#', level as nat) + " "@)],
            style: (self.palette.heading)(level),
        };
        WriterView {
            heading_meta: meta.non_empty(),
            needs_newline: false,
            ..self.break_if_due().push_line(line)
        }
    }

    /// A heading ends with its attributes.
    pub open spec fn end_heading(self) -> WriterView {
        let taken = WriterView { heading_meta: None, ..self };
        let written = match self.heading_meta {
            Some(meta) => match meta.suffix() {
                Some(suffix) => taken.push_span(
                    SpanView { content: suffix, style: self.palette.heading_meta },
                ),
                None => taken,
            },
            None => taken,
        };
        WriterView { needs_newline: true, ..written }
    }

    /// The lines of a block quote start with an angle bracket.
    pub open spec fn start_blockquote(self) -> WriterView {
        let broken = self.break_if_due();
        WriterView {
            line_prefixes: broken.line_prefixes.push(raw_span(">"@)),
            line_styles: broken.line_styles.push(self.palette.blockquote),
            needs_newline: false,
            ..broken
        }
    }

    /// After a block quote a blank line is due.
    pub open spec fn end_blockquote(self) -> WriterView {
        WriterView {
            line_prefixes: popped(self.line_prefixes),
            line_styles: popped(self.line_styles),
            needs_newline: true,
            ..self
        }
    }

    /// Writes lines of text in the style that is due: the first at the end of the last line, after
    /// a blank line if one is due, and each further one on a line of its own.
    pub open spec fn write_lines(self, lines: Seq<Seq<char>>) -> WriterView
        decreases lines.len(),
    {
        if lines.len() == 0 {
            self
        } else {
            let before = self.write_lines(lines.drop_last());
            let broken = WriterView { needs_newline: false, ..before.break_if_due() };
            let started = if lines.len() > 1 {
                broken.push_line(blank_line())
            } else {
                broken
            };
            started.push_span(
                SpanView { content: lines.last(), style: top(self.inline_styles) },
            )
        }
    }

    /// Writes text: in a cell as one line, in a highlighted code block as lines that the
    /// highlighter shows, and elsewhere line by line.
    pub open spec fn text(self, text: Seq<char>) -> WriterView {
        if self.in_table_cell() {
            let normalized = joined(lines_of(text), " "@);
            let written = if normalized.len() > 0 {
                self.push_span(SpanView { content: normalized, style: top(self.inline_styles) })
            } else {
                self
            };
            WriterView { needs_newline: false, just_added_list_item: false, ..written }
        } else {
            match self.code_highlighter {
                Some(highlighter) => {
                    let code = lines_with_endings(text);
                    WriterView {
                        code_highlighter: Some(highlighter.take_lines(code)),
                        needs_newline: false,
                        ..self.push_styled_lines(highlighter.shown_lines(code))
                    }
                },
                None => WriterView {
                    needs_newline: false,
                    just_added_list_item: false,
                    ..self.write_lines(lines_of(text))
                },
            }
        }
    }

    /// Writes code within the line.
    pub open spec fn code(self, code: Seq<char>) -> WriterView {
        self.push_span(SpanView { content: code, style: self.palette.code })
    }

    /// A hard break starts a new line; in a cell it is a space.
    pub open spec fn hard_break(self) -> WriterView {
        if self.in_table_cell() {
            self.push_span(raw_span(" "@))
        } else {
            self.push_line(blank_line())
        }
    }

    /// A soft break is a space; in a metadata block it starts a new line.
    pub open spec fn soft_break(self) -> WriterView {
        if self.in_metadata_block {
            self.hard_break()
        } else {
            self.push_span(raw_span(" "@))
        }
    }

    /// A metadata block starts with a line of dashes.
    pub open spec fn start_metadata_block(self) -> WriterView {
        let broken = self.break_if_due();
        let styled = WriterView {
            line_styles: broken.line_styles.push(self.palette.metadata_block),
            ..broken
        };
        WriterView {
            in_metadata_block: true,
            ..styled.push_line(raw_line("---"@)).push_line(blank_line())
        }
    }

    /// A metadata block ends with a line of dashes.
    pub open spec fn end_metadata_block(self) -> WriterView {
        if self.in_metadata_block {
            let written = self.push_line(raw_line("---"@));
            WriterView {
                line_styles: popped(written.line_styles),
                in_metadata_block: false,
                needs_newline: true,
                ..written
            }
        } else {
            self
        }
    }

    /// A rule is a line of dashes.
    pub open spec fn rule(self) -> WriterView {
        WriterView { needs_newline: true, ..self.break_if_due().push_line(raw_line("---"@)) }
    }

    /// A list starts after a blank line if one is due, unless it stands in another list.
    pub open spec fn start_list(self, index: Option<u64>) -> WriterView {
        let broken = if self.list_indices.len() == 0 {
            self.break_if_due()
        } else {
            self
        };
        WriterView { list_indices: broken.list_indices.push(index), ..broken }
    }

    /// After a list a blank line is due.
    pub open spec fn end_list(self) -> WriterView {
        WriterView { list_indices: popped(self.list_indices), needs_newline: true, ..self }
    }

    /// A list item starts on a new line with its mark; the next item of an ordered list has the
    /// next number.
    pub open spec fn start_item(self) -> WriterView {
        let index = self.list_indices.last();
        let next = match index {
            Some(n) => Some((n + 1) as u64),
            None => None,
        };
        let numbered = WriterView {
            list_indices: self.list_indices.drop_last().push(next),
            ..self.push_line(blank_line())
        };
        WriterView {
            needs_newline: false,
            just_added_list_item: true,
            ..numbered.push_span(item_marker(self.list_indices.len(), index))
        }
    }

    /// The box of a task list item stands behind the mark of the item: in the same span if that
    /// is a dash, and in a span of its own if it is a number.
    pub open spec fn task_list_marker(self, checked: bool) -> WriterView {
        if self.lines.len() == 0 {
            self.push_span(raw_span(task_box(checked)))
        } else {
            let last = self.lines.last();
            let first = last.spans[0];
            let spans = if has_suffix(first.content, "- "@) {
                last.spans.update(
                    0,
                    SpanView { content: first.content + task_box(checked), ..first },
                )
            } else {
                last.spans.insert(1, raw_span(task_box(checked)))
            };
            WriterView {
                lines: self.lines.drop_last().push(LineView { spans, ..last }),
                ..self
            }
        }
    }

    /// A table is read before it is written.
    pub open spec fn start_table(self, alignments: Seq<Alignment>) -> WriterView {
        WriterView {
            table: Some(TableView::empty(alignments)),
            needs_newline: false,
            just_added_list_item: false,
            ..self.break_if_due()
        }
    }

    /// A table is written once it has ended.
    pub open spec fn end_table(self) -> WriterView {
        match self.table {
            Some(table) => {
                let taken = WriterView { table: None, ..self };
                WriterView {
                    needs_newline: true,
                    just_added_list_item: false,
                    ..taken.push_lines(table.end_row().lines(self.palette.table_header))
                }
            },
            None => self,
        }
    }

    /// The document with another state of the table that is being read, if there is one.
    pub open spec fn map_table(self, change: spec_fn(TableView) -> TableView) -> WriterView {
        match self.table {
            Some(table) => WriterView { table: Some(change(table)), ..self },
            None => self,
        }
    }

    /// A code block starts with a fence that names its language. Its lines are in the style of
    /// code, unless code is highlighted.
    pub open spec fn start_codeblock(self, kind: CodeBlockKindView) -> WriterView {
        let broken = if self.lines.len() > 0 {
            self.push_line(blank_line())
        } else {
            self
        };
        let lang = match kind {
            CodeBlockKindView::Fenced(lang) => lang,
            CodeBlockKindView::Indented => Seq::empty(),
        };
        let styled = match self.highlighting {
            Some(highlighting) => match highlighting.highlighter(lang) {
                Some(highlighter) => WriterView {
                    code_highlighter: Some(highlighter),
                    ..broken
                },
                None => broken,
            },
            None => WriterView {
                line_styles: broken.line_styles.push(self.palette.code),
                ..broken
            },
        };
        WriterView { needs_newline: true, ..styled.push_line(raw_line("```"@ + lang)) }
    }

    /// A code block ends with a fence.
    pub open spec fn end_codeblock(self) -> WriterView {
        let written = WriterView { needs_newline: true, ..self.push_line(raw_line("```"@)) };
        match self.highlighting {
            Some(_) => WriterView { code_highlighter: None, ..written },
            None => WriterView { line_styles: popped(written.line_styles), ..written },
        }
    }

    /// An element sets a style for the text in it, on top of the style around it.
    pub open spec fn push_inline_style(self, style: Style) -> WriterView {
        WriterView {
            inline_styles: self.inline_styles.push(top(self.inline_styles).patch(style)),
            ..self
        }
    }

    /// An element that sets a style ends.
    pub open spec fn pop_inline_style(self) -> WriterView {
        WriterView { inline_styles: popped(self.inline_styles), ..self }
    }

    /// A link starts.
    pub open spec fn push_link(self, url: Seq<char>) -> WriterView {
        WriterView { link: Some(url), ..self }
    }

    /// A link ends with its address in brackets.
    pub open spec fn pop_link(self) -> WriterView {
        match self.link {
            Some(url) => WriterView { link: None, ..self }.push_span(raw_span(" ("@)).push_span(
                SpanView { content: url, style: self.palette.link },
            ).push_span(raw_span(")"@)),
            None => self,
        }
    }

    /// An element starts.
    pub open spec fn start_tag(self, tag: TagView) -> WriterView {
        match tag {
            TagView::Paragraph => self.start_paragraph(),
            TagView::Heading(level, meta) => self.start_heading(level.number(), meta),
            TagView::BlockQuote => self.start_blockquote(),
            TagView::CodeBlock(kind) => self.start_codeblock(kind),
            TagView::HtmlBlock => self,
            TagView::List(index) => self.start_list(index),
            TagView::Item => self.start_item(),
            TagView::FootnoteDefinition => self,
            TagView::DefinitionList => self,
            TagView::DefinitionListTitle => self,
            TagView::DefinitionListDefinition => self,
            TagView::Table(alignments) => self.start_table(alignments),
            TagView::TableHead => self.map_table(|table: TableView| table.start_head()),
            TagView::TableRow => self.map_table(|table: TableView| table.start_row()),
            TagView::TableCell => self.map_table(|table: TableView| table.start_cell()),
            TagView::Emphasis => self.push_inline_style(Style::new().add_modifier(ITALIC)),
            TagView::Strong => self.push_inline_style(Style::new().add_modifier(BOLD)),
            TagView::Strikethrough => self.push_inline_style(
                Style::new().add_modifier(CROSSED_OUT),
            ),
            TagView::Superscript => self.push_inline_style(
                Style::new().add_modifier(DIM).add_modifier(ITALIC),
            ),
            TagView::Subscript => self.push_inline_style(
                Style::new().add_modifier(DIM).add_modifier(ITALIC),
            ),
            TagView::Link(url) => self.push_link(url),
            TagView::Image => self,
            TagView::MetadataBlock => self.start_metadata_block(),
        }
    }

    /// An element ends.
    pub open spec fn end_tag(self, tag: TagEnd) -> WriterView {
        match tag {
            TagEnd::Paragraph => self.end_paragraph(),
            TagEnd::Heading => self.end_heading(),
            TagEnd::BlockQuote => self.end_blockquote(),
            TagEnd::CodeBlock => self.end_codeblock(),
            TagEnd::HtmlBlock => self,
            TagEnd::List => self.end_list(),
            TagEnd::Item => self,
            TagEnd::FootnoteDefinition => self,
            TagEnd::DefinitionList => self,
            TagEnd::DefinitionListTitle => self,
            TagEnd::DefinitionListDefinition => self,
            TagEnd::Table => self.end_table(),
            TagEnd::TableHead => self.map_table(|table: TableView| table.end_head()),
            TagEnd::TableRow => self.map_table(|table: TableView| table.end_row()),
            TagEnd::TableCell => self.map_table(|table: TableView| table.end_cell()),
            TagEnd::Emphasis => self.pop_inline_style(),
            TagEnd::Strong => self.pop_inline_style(),
            TagEnd::Strikethrough => self.pop_inline_style(),
            TagEnd::Superscript => self.pop_inline_style(),
            TagEnd::Subscript => self.pop_inline_style(),
            TagEnd::Link => self.pop_link(),
            TagEnd::Image => self,
            TagEnd::MetadataBlock => self.end_metadata_block(),
        }
    }

    /// What an event does to the document.
    #[verifier::opaque]
    pub open spec fn step(self, event: EventView) -> WriterView {
        match event {
            EventView::Start(tag) => self.start_tag(tag),
            EventView::End(tag) => self.end_tag(tag),
            EventView::Text(text) => self.text(text),
            EventView::Code(code) => self.code(code),
            EventView::InlineMath => self,
            EventView::DisplayMath => self,
            EventView::Html => self,
            EventView::InlineHtml => self,
            EventView::FootnoteReference => self,
            EventView::SoftBreak => self.soft_break(),
            EventView::HardBreak => self.hard_break(),
            EventView::Rule => self.rule(),
            EventView::TaskListMarker(checked) => self.task_list_marker(checked),
        }
    }

    /// What events do one after another.
    pub open spec fn run(self, events: Seq<EventView>) -> WriterView
        decreases events.len(),
    {
        if events.len() == 0 {
            self
        } else {
            self.run(events.drop_last()).step(events.last())
        }
    }

    /// Whether an item can start: there is a list that it is in, and the number after its own, if
    /// it has one, and the width of its mark can be counted.
    pub open spec fn accepts_item(self) -> bool {
        &&& self.list_indices.len() > 0
        &&& self.list_indices.last() != Some(u64::MAX)
        &&& 4 * self.list_indices.len() <= usize::MAX
    }

    /// Whether the box of a task list item can be placed: the last line has a mark that it can
    /// stand behind, or there is no line yet.
    pub open spec fn accepts_task_list_marker(self) -> bool {
        self.lines.len() > 0 ==> self.lines.last().spans.len() > 0
    }

    /// Whether a table can end: its cells are no wider than can be counted.
    pub open spec fn accepts_table_end(self) -> bool {
        self.table matches Some(table) ==> table.end_row().fits()
    }

    /// Whether an event can come here.
    #[verifier::opaque]
    pub open spec fn accepts(self, event: EventView) -> bool {
        match event {
            EventView::Start(TagView::Item) => self.accepts_item(),
            EventView::TaskListMarker(_) => self.accepts_task_list_marker(),
            EventView::End(TagEnd::Table) => self.accepts_table_end(),
            _ => true,
        }
    }

    /// Whether events can come here one after another.
    pub open spec fn accepts_all(self, events: Seq<EventView>) -> bool
        decreases events.len(),
    {
        events.len() > 0 ==> {
            &&& self.accepts_all(events.drop_last())
            &&& self.run(events.drop_last()).accepts(events.last())
        }
    }
}

/// The lines that a document of these events is rendered as. There are none where an event comes
/// that cannot come there: a list item outside of any list or with a number that is too large, the
/// box of a task list item without the mark of the item, or the end of a table that is too wide.
pub open spec fn rendered(
    palette: Palette,
    highlighting: Option<CodeHighlightingView>,
    events: Seq<EventView>,
) -> Option<Seq<LineView>> {
    let start = WriterView::empty(palette, highlighting);
    if start.accepts_all(events) {
        Some(start.run(events).lines)
    } else {
        None
    }
}

} // verus!
