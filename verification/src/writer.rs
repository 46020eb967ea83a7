//! Writing a document event by event.

use vstd::prelude::*;

use crate::event::{
    events_view, option_view, Alignment, CodeBlockKind, Event, HeadingLevel, HeadingMeta, Tag,
    TagEnd,
};
use crate::heading::meta_view;
use crate::highlight::{highlighter_view, CodeHighlighter, CodeHighlighting, CodeHighlightingView};
use crate::model::{item_marker, popped, top, WriterView};
use crate::strings::{
    decimal_string, ends_with_pair, join_strings, pad_start_string, repeat_char, split_lines,
    strings_view,
};
use crate::style::{Color, Style, BOLD, CROSSED_OUT, DIM, ITALIC};
use crate::style_sheet::StyleSheet;
use crate::table::{TableState, TableView};
use crate::text::{
    blank_line, clone_spans, lemma_lines_view_push, lemma_spans_view_concat, lemma_spans_view_push,
    lines_view, raw_span, spans_view, Line, LineView, Span, SpanView, Text,
};

verus! {

broadcast use {lemma_spans_view_push, lemma_lines_view_push};

/// Writes a document, event by event.
pub struct TextWriter<'a, S: StyleSheet> {
    /// The styles of the elements.
    styles: &'a S,
    /// What code blocks are highlighted with, if they are.
    highlighting: Option<&'a CodeHighlighting>,
    /// The text to write to.
    text: Text,
    /// A stack of styles, of which the topmost is that of the text within the line.
    inline_styles: Vec<Style>,
    /// What each line starts with.
    line_prefixes: Vec<Span>,
    /// A stack of styles, of which the topmost is that of whole lines.
    line_styles: Vec<Style>,
    /// The highlighter of the code block that is being written.
    code_highlighter: Option<CodeHighlighter<'a>>,
    /// For each list that is being written, the number of its next item if it is ordered.
    list_indices: Vec<Option<u64>>,
    /// The address of a link, which is written when the link ends.
    link: Option<String>,
    /// The attributes of a heading, which are written when the heading ends.
    heading_meta: Option<HeadingMeta>,
    /// Whether a metadata block is being written.
    in_metadata_block: bool,
    /// Whether a blank line is due before what comes next.
    needs_newline: bool,
    /// Whether the mark of a list item has just been written.
    just_added_list_item: bool,
    /// A table, which is written when it ends: its columns are as wide as its cells need.
    table: Option<TableState>,
}

/// What optional highlighting holds.
pub open spec fn highlighting_view(highlighting: Option<&CodeHighlighting>) -> Option<
    CodeHighlightingView,
> {
    match highlighting {
        Some(highlighting) => Some(highlighting@),
        None => None,
    }
}

/// What an optional table holds.
pub open spec fn table_view(table: Option<TableState>) -> Option<TableView> {
    match table {
        Some(table) => Some(table@),
        None => None,
    }
}

impl<'a, S: StyleSheet> View for TextWriter<'a, S> {
    type V = WriterView;

    closed spec fn view(&self) -> WriterView {
        WriterView {
            palette: self.styles.palette(),
            highlighting: highlighting_view(self.highlighting),
            lines: self.text@,
            inline_styles: self.inline_styles@,
            line_prefixes: spans_view(self.line_prefixes@),
            line_styles: self.line_styles@,
            code_highlighter: highlighter_view(self.code_highlighter),
            list_indices: self.list_indices@,
            link: option_view(self.link),
            heading_meta: meta_view(self.heading_meta),
            in_metadata_block: self.in_metadata_block,
            needs_newline: self.needs_newline,
            just_added_list_item: self.just_added_list_item,
            table: table_view(self.table),
        }
    }
}

/// The style on top of a stack.
fn top_style(styles: &Vec<Style>) -> (style: Style)
    ensures
        style == top(styles@),
{
    if styles.len() > 0 {
        styles[styles.len() - 1]
    } else {
        Style::new()
    }
}

impl<'a, S: StyleSheet> TextWriter<'a, S> {
    /// A writer that has written nothing.
    pub fn new(styles: &'a S, highlighting: Option<&'a CodeHighlighting>) -> (writer: TextWriter<
        'a,
        S,
    >)
        ensures
            writer@ == WriterView::empty(styles.palette(), highlighting_view(highlighting)),
    {
        let line_prefixes: Vec<Span> = Vec::new();
        assert(spans_view(line_prefixes@) =~= Seq::empty());
        TextWriter {
            styles,
            highlighting,
            text: Text::new(),
            inline_styles: Vec::new(),
            line_prefixes,
            line_styles: Vec::new(),
            code_highlighter: None,
            list_indices: Vec::new(),
            link: None,
            heading_meta: None,
            in_metadata_block: false,
            needs_newline: false,
            just_added_list_item: false,
            table: None,
        }
    }

    /// The text that has been written.
    pub fn into_text(self) -> (text: Text)
        ensures
            text@ == self@.lines,
    {
        self.text
    }

    /// Whether a cell of a table is being read.
    fn in_table_cell(&self) -> (res: bool)
        ensures
            res == self@.in_table_cell(),
    {
        match &self.table {
            Some(table) => table.current_cell.is_some(),
            None => false,
        }
    }

    /// A line behind the prefixes and a space, if there are prefixes.
    fn prefixed(&self, line: Line) -> (res: Line)
        ensures
            res@ == self@.prefixed(line@),
    {
        let ghost prefixes = spans_view(self.line_prefixes@);
        let mut line_spans = line.spans;
        let spans = if self.line_prefixes.len() > 0 {
            let mut spans = clone_spans(&self.line_prefixes);
            spans.push(Span::raw(" "));
            assert(spans_view(spans@) =~= prefixes + seq![raw_span(" "@)]);
            proof {
                lemma_spans_view_concat(spans@, line_spans@);
            }
            spans.append(&mut line_spans);
            spans
        } else {
            line_spans
        };
        Line { spans, style: line.style }
    }

    /// Writes a line.
    fn push_line(&mut self, line: Line)
        ensures
            final(self)@ == old(self)@.push_line(line@),
    {
        let style = line.style.patch(top_style(&self.line_styles));
        let line = self.prefixed(line);
        self.text.lines.push(Line { spans: line.spans, style });
    }

    /// Writes a blank line if one is due.
    fn break_if_due(&mut self)
        ensures
            final(self)@ == old(self)@.break_if_due(),
    {
        if self.needs_newline {
            self.push_line(Line::blank());
        }
    }

    /// Writes a span.
    fn push_span(&mut self, span: Span)
        ensures
            final(self)@ == old(self)@.push_span(span@),
    {
        if self.in_table_cell() {
            if let Some(table) = self.table.as_mut() {
                table.push_span(span);
            }
            return;
        }
        let count: usize = self.text.lines.len();
        if count > 0 {
            let ghost lines = self.text.lines@;
            self.text.lines[count - 1].spans.push(span);
            assert(lines_view(self.text.lines@) =~= lines_view(lines).drop_last().push(
                LineView {
                    spans: lines_view(lines).last().spans.push(span@),
                    ..lines_view(lines).last()
                },
            ));
        } else {
            self.push_line(Line::from_span(span));
        }
    }

    fn start_paragraph(&mut self)
        ensures
            final(self)@ == old(self)@.start_paragraph(),
    {
        self.break_if_due();
        if !self.just_added_list_item {
            self.push_line(Line::blank());
        }
        self.needs_newline = false;
        self.just_added_list_item = false;
    }

    fn end_paragraph(&mut self)
        ensures
            final(self)@ == old(self)@.end_paragraph(),
    {
        self.needs_newline = true;
    }

    fn start_heading(&mut self, level: HeadingLevel, meta: HeadingMeta)
        ensures
            final(self)@ == old(self)@.start_heading(level.number(), meta@),
    {
        self.break_if_due();
        let number: u8 = level.number();
        let mut content = repeat_char('#', number as usize);
        content.append(" ");
        let line = Line::from_span(Span::styled(content, Style::new()));
        let line = Line { spans: line.spans, style: self.styles.heading(number) };
        self.push_line(line);
        self.heading_meta = meta.into_option();
        self.needs_newline = false;
    }

    fn end_heading(&mut self)
        ensures
            final(self)@ == old(self)@.end_heading(),
    {
        if let Some(meta) = self.heading_meta.take() {
            if let Some(suffix) = meta.to_suffix() {
                let style = self.styles.heading_meta();
                self.push_span(Span::styled(suffix, style));
            }
        }
        self.needs_newline = true;
    }

    fn start_blockquote(&mut self)
        ensures
            final(self)@ == old(self)@.start_blockquote(),
    {
        self.break_if_due();
        self.needs_newline = false;
        self.line_prefixes.push(Span::raw(">"));
        self.line_styles.push(self.styles.blockquote());
    }

    fn end_blockquote(&mut self)
        ensures
            final(self)@ == old(self)@.end_blockquote(),
    {
        let ghost prefixes = self.line_prefixes@;
        self.line_prefixes.pop();
        assert(spans_view(self.line_prefixes@) =~= popped(spans_view(prefixes)));
        self.line_styles.pop();
        self.needs_newline = true;
    }

    /// Writes one of several lines of text.
    fn write_line(&mut self, line: String, first: bool, style: Style)
        ensures
            final(self)@ == ({
                let broken = WriterView { needs_newline: false, ..old(self)@.break_if_due() };
                let started = if first {
                    broken
                } else {
                    broken.push_line(blank_line())
                };
                started.push_span(SpanView { content: line@, style })
            }),
    {
        self.break_if_due();
        self.needs_newline = false;
        if !first {
            self.push_line(Line::blank());
        }
        self.push_span(Span::styled(line, style));
    }

    /// Writes lines of text.
    fn write_lines(&mut self, lines: Vec<String>)
        ensures
            final(self)@ == old(self)@.write_lines(strings_view(lines@)),
    {
        let ghost start = self@;
        let ghost views = strings_view(lines@);
        let style = top_style(&self.inline_styles);
        let mut i: usize = 0;
        assert(views.take(0) =~= Seq::empty());
        while i < lines.len()
            invariant
                i <= lines.len(),
                views == strings_view(lines@),
                style == top(start.inline_styles),
                self@ == start.write_lines(views.take(i as int)),
            decreases lines.len() - i,
        {
            assert(views.take(i + 1).drop_last() =~= views.take(i as int));
            assert(views.take(i + 1).last() == lines@[i as int]@);
            self.write_line(lines[i].clone(), i == 0, style);
            i += 1;
        }
        assert(views.take(i as int) =~= views);
    }

    fn text(&mut self, text: String)
        ensures
            final(self)@ == old(self)@.text(text@),
    {
        if self.in_table_cell() {
            let style = top_style(&self.inline_styles);
            let normalized = join_strings(&split_lines(text.as_str()), " ");
            if !normalized.as_str().is_empty() {
                self.push_span(Span::styled(normalized, style));
            }
            self.needs_newline = false;
            self.just_added_list_item = false;
            return;
        }
        if let Some(highlighter) = self.code_highlighter.take() {
            let (highlighter, shown) = highlighter.highlight(text.as_str());
            self.push_styled_lines(shown);
            self.code_highlighter = Some(highlighter);
            assert(self@.lines =~= old(self)@.push_styled_lines(lines_view(shown@)).lines);
            self.needs_newline = false;
            return;
        }
        self.write_lines(split_lines(text.as_str()));
        self.needs_newline = false;
        self.just_added_list_item = false;
    }

    fn code(&mut self, code: String)
        ensures
            final(self)@ == old(self)@.code(code@),
    {
        let style = self.styles.code();
        self.push_span(Span::styled(code, style));
    }

    fn hard_break(&mut self)
        ensures
            final(self)@ == old(self)@.hard_break(),
    {
        if self.in_table_cell() {
            self.push_span(Span::raw(" "));
        } else {
            self.push_line(Line::blank());
        }
    }

    fn soft_break(&mut self)
        ensures
            final(self)@ == old(self)@.soft_break(),
    {
        if self.in_metadata_block {
            self.hard_break();
        } else {
            self.push_span(Span::raw(" "));
        }
    }

    fn start_metadata_block(&mut self)
        ensures
            final(self)@ == old(self)@.start_metadata_block(),
    {
        self.break_if_due();
        self.line_styles.push(self.styles.metadata_block());
        self.push_line(Line::raw("---"));
        self.push_line(Line::blank());
        self.in_metadata_block = true;
    }

    fn end_metadata_block(&mut self)
        ensures
            final(self)@ == old(self)@.end_metadata_block(),
    {
        if self.in_metadata_block {
            self.push_line(Line::raw("---"));
            self.line_styles.pop();
            self.in_metadata_block = false;
            self.needs_newline = true;
        }
    }

    fn rule(&mut self)
        ensures
            final(self)@ == old(self)@.rule(),
    {
        self.break_if_due();
        self.push_line(Line::raw("---"));
        self.needs_newline = true;
    }

    fn start_list(&mut self, index: Option<u64>)
        ensures
            final(self)@ == old(self)@.start_list(index),
    {
        if self.list_indices.is_empty() {
            self.break_if_due();
        }
        self.list_indices.push(index);
    }

    fn end_list(&mut self)
        ensures
            final(self)@ == old(self)@.end_list(),
    {
        self.list_indices.pop();
        self.needs_newline = true;
    }

    fn start_item(&mut self)
        requires
            old(self)@.accepts_item(),
        ensures
            final(self)@ == old(self)@.start_item(),
    {
        self.push_line(Line::blank());
        let depth: usize = self.list_indices.len();
        let width: usize = depth * 4 - 3;
        let index = self.list_indices[depth - 1];
        let ghost indices = self.list_indices@;
        let span = match index {
            None => {
                let mut content = repeat_char(' ', width - 1);
                content.append("- ");
                Span::styled(content, Style::new())
            },
            Some(n) => {
                self.list_indices[depth - 1] = Some(n + 1);
                let mut content = pad_start_string(decimal_string(n).as_str(), width);
                content.append(". ");
                Span::styled(content, Style::new().fg(Color::LightBlue))
            },
        };
        assert(span@ == item_marker(depth as nat, index));
        assert(self.list_indices@ =~= indices.drop_last().push(
            match index {
                Some(n) => Some((n + 1) as u64),
                None => None,
            },
        ));
        self.push_span(span);
        self.needs_newline = false;
        self.just_added_list_item = true;
    }

    fn task_list_marker(&mut self, checked: bool)
        requires
            old(self)@.accepts_task_list_marker(),
        ensures
            final(self)@ == old(self)@.task_list_marker(checked),
    {
        let marker = if checked {
            "[x] "
        } else {
            "[ ] "
        };
        let count: usize = self.text.lines.len();
        if count == 0 {
            self.push_span(Span::raw(marker));
            return;
        }
        let ghost lines = self.text.lines@;
        let ghost last = lines.last();
        assert(lines_view(lines).last() == last@);
        assert(last@.spans[0] == last.spans@[0]@);
        proof {
            reveal_strlit("- ");
            assert("- "@ =~= seq!['-', ' ']);
        }
        if ends_with_pair(self.text.lines[count - 1].spans[0].content.as_str(), '-', ' ') {
            self.text.lines[count - 1].spans[0].content.append(marker);
        } else {
            self.text.lines[count - 1].spans.insert(1, Span::raw(marker));
        }
        let ghost new_last = self.text.lines@.last();
        assert(new_last@.spans =~= self@.lines.last().spans);
        assert(new_last@.spans =~= old(self)@.task_list_marker(checked).lines.last().spans);
        assert(lines_view(self.text.lines@) =~= lines_view(lines).drop_last().push(new_last@));
    }

    fn start_table(&mut self, alignments: Vec<Alignment>)
        ensures
            final(self)@ == old(self)@.start_table(alignments@),
    {
        self.break_if_due();
        self.table = Some(TableState::new(alignments));
        self.needs_newline = false;
        self.just_added_list_item = false;
    }

    /// Writes lines one after another.
    fn push_lines(&mut self, lines: Vec<Line>)
        ensures
            final(self)@ == old(self)@.push_lines(lines_view(lines@)),
    {
        let ghost start = self@;
        let ghost views = lines_view(lines@);
        assert(start.push_lines(views.take(0)).lines =~= start.lines);
        for line in it: lines.into_iter()
            invariant
                views == lines_view(lines@),
                it.seq() == lines@,
                self@ == start.push_lines(views.take(it.index())),
        {
            let ghost i = it.index();
            assert(line@ == views[i]);
            self.push_line(line);
            assert(self@.lines =~= start.push_lines(views.take(i + 1)).lines);
        }
        assert(views.take(views.len() as int) =~= views);
    }

    /// Writes lines one after another in the styles that they have.
    fn push_styled_lines(&mut self, lines: Vec<Line>)
        ensures
            final(self)@ == old(self)@.push_styled_lines(lines_view(lines@)),
    {
        let ghost start = self@;
        let ghost views = lines_view(lines@);
        assert(start.push_styled_lines(views.take(0)).lines =~= start.lines);
        for line in it: lines.into_iter()
            invariant
                views == lines_view(lines@),
                it.seq() == lines@,
                self@ == start.push_styled_lines(views.take(it.index())),
        {
            let ghost i = it.index();
            assert(line@ == views[i]);
            let line = self.prefixed(line);
            self.text.lines.push(line);
            assert(self@.lines =~= start.push_styled_lines(views.take(i + 1)).lines);
        }
        assert(views.take(views.len() as int) =~= views);
    }

    fn end_table(&mut self)
        requires
            old(self)@.accepts_table_end(),
        ensures
            final(self)@ == old(self)@.end_table(),
    {
        if let Some(table) = self.table.take() {
            let mut table = table;
            table.end_row();
            let header_style = self.styles.table_header();
            self.push_lines(table.into_lines(header_style));
            self.needs_newline = true;
            self.just_added_list_item = false;
        }
    }

    fn start_table_head(&mut self)
        ensures
            final(self)@ == old(self)@.map_table(|table: TableView| table.start_head()),
    {
        if let Some(table) = self.table.as_mut() {
            table.start_head();
        }
    }

    fn end_table_head(&mut self)
        ensures
            final(self)@ == old(self)@.map_table(|table: TableView| table.end_head()),
    {
        if let Some(table) = self.table.as_mut() {
            table.end_head();
        }
    }

    fn start_table_row(&mut self)
        ensures
            final(self)@ == old(self)@.map_table(|table: TableView| table.start_row()),
    {
        if let Some(table) = self.table.as_mut() {
            table.start_row();
        }
    }

    fn end_table_row(&mut self)
        ensures
            final(self)@ == old(self)@.map_table(|table: TableView| table.end_row()),
    {
        if let Some(table) = self.table.as_mut() {
            table.end_row();
        }
    }

    fn start_table_cell(&mut self)
        ensures
            final(self)@ == old(self)@.map_table(|table: TableView| table.start_cell()),
    {
        if let Some(table) = self.table.as_mut() {
            table.start_cell();
        }
    }

    fn end_table_cell(&mut self)
        ensures
            final(self)@ == old(self)@.map_table(|table: TableView| table.end_cell()),
    {
        if let Some(table) = self.table.as_mut() {
            table.end_cell();
        }
    }

    /// Starts to highlight code in the given language, if it is known.
    fn set_code_highlighter(&mut self, highlighting: &'a CodeHighlighting, lang: &str)
        ensures
            final(self)@ == (match highlighting@.highlighter(lang@) {
                Some(highlighter) => WriterView {
                    code_highlighter: Some(highlighter),
                    ..old(self)@
                },
                None => old(self)@,
            }),
    {
        if let Some(highlighter) = highlighting.highlighter(lang) {
            self.code_highlighter = Some(highlighter);
        }
    }

    /// Stops to highlight code.
    fn clear_code_highlighter(&mut self)
        ensures
            final(self)@ == (WriterView { code_highlighter: None, ..old(self)@ }),
    {
        self.code_highlighter = None;
    }

    fn start_codeblock(&mut self, kind: CodeBlockKind)
        ensures
            final(self)@ == old(self)@.start_codeblock(kind@),
    {
        if !self.text.lines.is_empty() {
            self.push_line(Line::blank());
        }
        let lang = match kind {
            CodeBlockKind::Fenced(lang) => lang,
            CodeBlockKind::Indented => String::new(),
        };
        match self.highlighting {
            Some(highlighting) => {
                self.set_code_highlighter(highlighting, lang.as_str());
            },
            None => {
                self.line_styles.push(self.styles.code());
            },
        }
        let mut content = "```".to_owned();
        content.append(lang.as_str());
        self.push_line(Line::from_span(Span::styled(content, Style::new())));
        self.needs_newline = true;
    }

    fn end_codeblock(&mut self)
        ensures
            final(self)@ == old(self)@.end_codeblock(),
    {
        self.push_line(Line::raw("```"));
        self.needs_newline = true;
        match self.highlighting {
            Some(_) => {
                self.clear_code_highlighter();
            },
            None => {
                self.line_styles.pop();
            },
        }
    }

    fn push_inline_style(&mut self, style: Style)
        ensures
            final(self)@ == old(self)@.push_inline_style(style),
    {
        let style = top_style(&self.inline_styles).patch(style);
        self.inline_styles.push(style);
    }

    fn pop_inline_style(&mut self)
        ensures
            final(self)@ == old(self)@.pop_inline_style(),
    {
        self.inline_styles.pop();
    }

    fn push_link(&mut self, url: String)
        ensures
            final(self)@ == old(self)@.push_link(url@),
    {
        self.link = Some(url);
    }

    fn pop_link(&mut self)
        ensures
            final(self)@ == old(self)@.pop_link(),
    {
        if let Some(url) = self.link.take() {
            self.push_span(Span::raw(" ("));
            let style = self.styles.link();
            self.push_span(Span::styled(url, style));
            self.push_span(Span::raw(")"));
        }
    }

    fn start_tag(&mut self, tag: Tag)
        requires
            tag@ is Item ==> old(self)@.accepts_item(),
        ensures
            final(self)@ == old(self)@.start_tag(tag@),
    {
        match tag {
            Tag::Paragraph => self.start_paragraph(),
            Tag::Heading(level, meta) => self.start_heading(level, meta),
            Tag::BlockQuote => self.start_blockquote(),
            Tag::CodeBlock(kind) => self.start_codeblock(kind),
            Tag::HtmlBlock => {},
            Tag::List(index) => self.start_list(index),
            Tag::Item => self.start_item(),
            Tag::FootnoteDefinition => {},
            Tag::DefinitionList => {},
            Tag::DefinitionListTitle => {},
            Tag::DefinitionListDefinition => {},
            Tag::Table(alignments) => self.start_table(alignments),
            Tag::TableHead => self.start_table_head(),
            Tag::TableRow => self.start_table_row(),
            Tag::TableCell => self.start_table_cell(),
            Tag::Emphasis => self.push_inline_style(Style::new().add_modifier(ITALIC)),
            Tag::Strong => self.push_inline_style(Style::new().add_modifier(BOLD)),
            Tag::Strikethrough => self.push_inline_style(Style::new().add_modifier(CROSSED_OUT)),
            Tag::Superscript => self.push_inline_style(
                Style::new().add_modifier(DIM).add_modifier(ITALIC),
            ),
            Tag::Subscript => self.push_inline_style(
                Style::new().add_modifier(DIM).add_modifier(ITALIC),
            ),
            Tag::Link(url) => self.push_link(url),
            Tag::Image => {},
            Tag::MetadataBlock => self.start_metadata_block(),
        }
    }

    fn end_tag(&mut self, tag: TagEnd)
        requires
            tag is Table ==> old(self)@.accepts_table_end(),
        ensures
            final(self)@ == old(self)@.end_tag(tag),
    {
        match tag {
            TagEnd::Paragraph => self.end_paragraph(),
            TagEnd::Heading => self.end_heading(),
            TagEnd::BlockQuote => self.end_blockquote(),
            TagEnd::CodeBlock => self.end_codeblock(),
            TagEnd::HtmlBlock => {},
            TagEnd::List => self.end_list(),
            TagEnd::Item => {},
            TagEnd::FootnoteDefinition => {},
            TagEnd::DefinitionList => {},
            TagEnd::DefinitionListTitle => {},
            TagEnd::DefinitionListDefinition => {},
            TagEnd::Table => self.end_table(),
            TagEnd::TableHead => self.end_table_head(),
            TagEnd::TableRow => self.end_table_row(),
            TagEnd::TableCell => self.end_table_cell(),
            TagEnd::Emphasis => self.pop_inline_style(),
            TagEnd::Strong => self.pop_inline_style(),
            TagEnd::Strikethrough => self.pop_inline_style(),
            TagEnd::Superscript => self.pop_inline_style(),
            TagEnd::Subscript => self.pop_inline_style(),
            TagEnd::Link => self.pop_link(),
            TagEnd::Image => {},
            TagEnd::MetadataBlock => self.end_metadata_block(),
        }
    }

    /// Writes what an event says. Elements that are not rendered leave no trace, but what stands
    /// in them is written.
    pub fn handle_event(&mut self, event: Event)
        requires
            old(self)@.accepts(event@),
        ensures
            final(self)@ == old(self)@.step(event@),
    {
        proof {
            reveal(WriterView::step);
            reveal(WriterView::accepts);
        }
        match event {
            Event::Start(tag) => self.start_tag(tag),
            Event::End(tag) => self.end_tag(tag),
            Event::Text(text) => self.text(text),
            Event::Code(code) => self.code(code),
            Event::InlineMath => {},
            Event::DisplayMath => {},
            Event::Html => {},
            Event::InlineHtml => {},
            Event::FootnoteReference => {},
            Event::SoftBreak => self.soft_break(),
            Event::HardBreak => self.hard_break(),
            Event::Rule => self.rule(),
            Event::TaskListMarker(checked) => self.task_list_marker(checked),
        }
    }

    /// Whether an event can come next.
    pub fn accepts(&self, event: &Event) -> (res: bool)
        ensures
            res == self@.accepts(event@),
    {
        proof {
            reveal(WriterView::accepts);
        }
        match event {
            Event::Start(Tag::Item) => {
                let depth: usize = self.list_indices.len();
                if depth == 0 || depth > usize::MAX / 4 {
                    return false;
                }
                match self.list_indices[depth - 1] {
                    Some(n) => n < u64::MAX,
                    None => true,
                }
            },
            Event::TaskListMarker(_) => {
                let count: usize = self.text.lines.len();
                assert(count > 0 ==> self@.lines.last() == self.text.lines@.last()@);
                count == 0 || !self.text.lines[count - 1].spans.is_empty()
            },
            Event::End(TagEnd::Table) => match &self.table {
                Some(table) => table.fits_when_ended(),
                None => true,
            },
            _ => true,
        }
    }

    /// Writes what events say one after another, up to the first one that cannot come where it
    /// comes. Returns how many were written.
    pub fn run(&mut self, events: Vec<Event>) -> (handled: usize)
        ensures
            handled <= events@.len(),
            old(self)@.accepts_all(events_view(events@).take(handled as int)),
            final(self)@ == old(self)@.run(events_view(events@).take(handled as int)),
            handled < events@.len() ==> !final(self)@.accepts(events@[handled as int]@),
    {
        let ghost start = self@;
        let ghost views = events_view(events@);
        let mut handled: usize = 0;
        let count: usize = events.len();
        assert(views.take(0) =~= Seq::empty());
        for event in it: events.into_iter()
            invariant
                start == old(self)@,
                views == events_view(events@),
                count == events@.len(),
                it.seq() == events@,
                handled == it.index(),
                start.accepts_all(views.take(handled as int)),
                self@ == start.run(views.take(handled as int)),
        {
            assert(event == events@[handled as int]);
            if !self.accepts(&event) {
                return handled;
            }
            assert(views.take(handled + 1).drop_last() =~= views.take(handled as int));
            assert(views.take(handled + 1).last() == event@);
            self.handle_event(event);
            handled += 1;
        }
        handled
    }
}

} // verus!
