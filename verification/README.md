# tui_markdown

Renders Markdown as styled text for terminals: headings, paragraphs, lists and task lists, block
quotes, tables, code blocks (highlighted where the language is known), links, inline styles and
metadata blocks.

```rust
let text = tui_markdown::from_str("This is **bold**.");
```

The library is verified with Verus. `src/model.rs` states over mathematical values what each event
of a document does to the text; `src/writer.rs` is the code that is proved to do just that. What
holds of rendering as a whole is proved under `src/laws/`:

| module         | what it states                                                              |
| -------------- | --------------------------------------------------------------------------- |
| `acceptance`   | documents whose parts stand where they belong can be rendered                |
| `blocks`       | blocks are set apart; what is not shown leaves no trace; links and headings end with what they started with |
| `elements`     | an element leaves no style, prefix, link, table or highlighter behind        |
| `frame`        | documents can be rendered in parts                                           |
| `highlighting` | highlighting matters to code blocks alone                                    |
| `lines`        | what has been written stays                                                  |
| `lists`        | items are numbered in order, on lines of their own, with boxes behind marks  |
| `nesting`      | what an element changes is as before once it has ended                       |
| `quotes`       | every line in block quotes is marked                                         |
| `sheets`       | a style sheet changes styles and nothing else                                |
| `styles`       | attributes of nested elements add up                                         |
| `tables`       | the frame of a table is a rectangle                                          |
| `text`         | text is shown in full; in a cell it stays on one line                        |

Documents are read with `pulldown_cmark`, widths of characters come from `unicode_width`, and code
is highlighted with `syntect` and `ansi_to_tui`. The functions that call these crates are marked
`external_body`; the comment above each of them says what is claimed of the call.

`app/` offers the same with the types of `ratatui_core`.
