//! A message as a row of styled spans: a coloured prefix that names the
//! role, then the spans of the message's elements.

use crate::markdown::{
    event_stream, parse_markdown, parsed, MarkdownElement, MarkdownElementView,
};
use crate::models::{Message, Role};
use crate::text::{pieces, repeat_char, repeated, split_pieces};
use vstd::prelude::*;

verus! {

/// The colours that spans and lines are shown in.
#[derive(Clone, Copy, Debug, PartialEq, Eq, Structural)]
pub enum Color {
    Blue,
    Green,
    Yellow,
    Gray,
    DarkGray,
}

/// A piece of text with its style. Without a colour the terminal's own
/// colour is used.
#[derive(Clone, Debug, PartialEq, Eq)]
pub struct StyledSpan {
    pub text: String,
    pub color: Option<Color>,
    pub bold: bool,
}

pub ghost struct StyledSpanView {
    pub text: Seq<char>,
    pub color: Option<Color>,
    pub bold: bool,
}

impl View for StyledSpan {
    type V = StyledSpanView;

    open spec fn view(&self) -> StyledSpanView {
        StyledSpanView { text: self.text@, color: self.color, bold: self.bold }
    }
}

impl DeepView for StyledSpan {
    type V = StyledSpanView;

    open spec fn deep_view(&self) -> StyledSpanView {
        self@
    }
}

/// A span without colour or weight.
pub open spec fn raw_span(text: Seq<char>) -> StyledSpanView {
    StyledSpanView { text, color: None, bold: false }
}

/// A span in a colour, of normal weight.
pub open spec fn colored_span(text: Seq<char>, color: Color) -> StyledSpanView {
    StyledSpanView { text, color: Some(color), bold: false }
}

/// The colour of a role's prefix.
pub open spec fn prefix_color(role: Role) -> Color {
    match role {
        Role::System => Color::Blue,
        Role::User => Color::Green,
        Role::Assistant => Color::Yellow,
    }
}

/// The span that names the role: its name, a colon and a space, bold and in
/// the role's colour.
pub open spec fn prefix_span(role: Role) -> StyledSpanView {
    StyledSpanView { text: role.label() + ": "@, color: Some(prefix_color(role)), bold: true }
}

/// The span of one line of code: the line as it is, with the line ending
/// that it brings.
pub open spec fn code_line_span(line: Seq<char>) -> StyledSpanView {
    raw_span(line)
}

/// The spans of one element.
///
/// Text is shown as it is. A header is bold, after as many `#` as its level
/// and a space. A code block stands between two dimmed fences, the first
/// with the language tag, each line as it is. A quote is gray after `> `,
/// and a list item follows a bullet.
pub open spec fn element_spans(element: MarkdownElementView) -> Seq<StyledSpanView> {
    match element {
        MarkdownElementView::Text(text) => seq![raw_span(text)],
        MarkdownElementView::Header(text, level) => seq![
            StyledSpanView {
                text: repeated('#', level as nat) + " "@ + text,
                color: None,
                bold: true,
            },
        ],
        MarkdownElementView::CodeBlock(lines, language) => seq![
            raw_span("\n"@),
            colored_span("```"@ + language + "\n"@, Color::DarkGray),
        ] + lines.map_values(|line: Seq<char>| code_line_span(line)) + seq![
            colored_span("```\n"@, Color::DarkGray),
        ],
        MarkdownElementView::BlockQuote(text) => seq![
            colored_span("> "@ + text + "\n"@, Color::Gray),
        ],
        MarkdownElementView::List(text) => seq![raw_span("• "@ + text + "\n"@)],
    }
}

/// The spans of the elements, one element after another.
pub open spec fn spans_of(elements: Seq<MarkdownElementView>) -> Seq<StyledSpanView>
    decreases elements.len(),
{
    if elements.len() == 0 {
        Seq::empty()
    } else {
        spans_of(elements.drop_last()) + element_spans(elements.last())
    }
}

/// The spans of a message from `role` that holds `elements`.
pub open spec fn message_spans(role: Role, elements: Seq<MarkdownElementView>) -> Seq<
    StyledSpanView,
> {
    seq![prefix_span(role)] + spans_of(elements)
}

/// The lines with a piece of `span` added to the last of them. An empty
/// piece adds nothing.
pub open spec fn with_piece(
    lines: Seq<Seq<StyledSpanView>>,
    piece: Seq<char>,
    span: StyledSpanView,
) -> Seq<Seq<StyledSpanView>> {
    if piece.len() == 0 || lines.len() == 0 {
        lines
    } else {
        lines.update(
            lines.len() - 1,
            lines.last().push(StyledSpanView { text: piece, ..span }),
        )
    }
}

/// The lines with the pieces of `span` added: the first piece to the last
/// line, every further piece to a new line of its own.
pub open spec fn with_pieces(
    lines: Seq<Seq<StyledSpanView>>,
    parts: Seq<Seq<char>>,
    span: StyledSpanView,
) -> Seq<Seq<StyledSpanView>>
    decreases parts.len(),
{
    if parts.len() == 0 {
        lines
    } else if parts.len() == 1 {
        with_piece(lines, parts[0], span)
    } else {
        with_piece(
            with_pieces(lines, parts.drop_last(), span).push(Seq::empty()),
            parts.last(),
            span,
        )
    }
}

/// The spans laid out in lines: each span is cut at its line feeds, a line
/// feed ends the line, and every piece keeps its span's style. There is
/// always a first line, and no span in the lines is empty or holds a line
/// feed.
pub open spec fn lines_of(spans: Seq<StyledSpanView>) -> Seq<Seq<StyledSpanView>>
    decreases spans.len(),
{
    if spans.len() == 0 {
        seq![Seq::empty()]
    } else {
        with_pieces(lines_of(spans.drop_last()), pieces(spans.last().text), spans.last())
    }
}

/// The colour of a role's prefix.
pub fn color_of_prefix(role: Role) -> (r: Color)
    ensures
        r == prefix_color(role),
{
    match role {
        Role::System => Color::Blue,
        Role::User => Color::Green,
        Role::Assistant => Color::Yellow,
    }
}

/// Appends the spans of one element.
pub fn push_element_spans(spans: &mut Vec<StyledSpan>, element: &MarkdownElement)
    ensures
        final(spans).deep_view() == old(spans).deep_view() + element_spans(element@),
{
    let ghost before = spans.deep_view();
    match element {
        MarkdownElement::Text(text) => {
            spans.push(StyledSpan { text: text.clone(), color: None, bold: false });
            proof {
                assert(spans.deep_view() =~= before + element_spans(element@));
            }
        },
        MarkdownElement::Header(text, level) => {
            let mut shown = repeat_char('#', *level);
            shown.append(" ");
            shown.append(text.as_str());
            spans.push(StyledSpan { text: shown, color: None, bold: true });
            proof {
                assert(spans.deep_view() =~= before + element_spans(element@));
            }
        },
        MarkdownElement::CodeBlock(lines, language) => {
            let ghost shown = lines.deep_view();
            let mut opening = String::from_str("```");
            opening.append(language.as_str());
            opening.append("\n");
            spans.push(StyledSpan { text: String::from_str("\n"), color: None, bold: false });
            spans.push(StyledSpan { text: opening, color: Some(Color::DarkGray), bold: false });
            let ghost head = seq![
                raw_span("\n"@),
                colored_span("```"@ + language@ + "\n"@, Color::DarkGray),
            ];
            proof {
                assert(spans.deep_view() =~= before + head + shown.take(0).map_values(
                    |line: Seq<char>| code_line_span(line),
                ));
            }
            let mut i: usize = 0;
            while i < lines.len()
                invariant
                    i <= lines.len(),
                    shown == lines.deep_view(),
                    spans.deep_view() == before + head + shown.take(i as int).map_values(
                        |line: Seq<char>| code_line_span(line),
                    ),
                decreases lines.len() - i,
            {
                let ghost so_far = spans.deep_view();
                spans.push(StyledSpan { text: lines[i].clone(), color: None, bold: false });
                proof {
                    assert(spans.deep_view() =~= so_far.push(code_line_span(shown[i as int])));
                    assert(spans.deep_view() =~= before + head + shown.take(i + 1).map_values(
                        |line: Seq<char>| code_line_span(line),
                    ));
                }
                i = i + 1;
            }
            let ghost so_far = spans.deep_view();
            spans.push(
                StyledSpan {
                    text: String::from_str("```\n"),
                    color: Some(Color::DarkGray),
                    bold: false,
                },
            );
            proof {
                assert(shown.take(lines.len() as int) =~= shown);
                assert(spans.deep_view() =~= so_far.push(
                    colored_span("```\n"@, Color::DarkGray),
                ));
                assert(spans.deep_view() =~= before + element_spans(element@));
            }
        },
        MarkdownElement::BlockQuote(text) => {
            let mut shown = String::from_str("> ");
            shown.append(text.as_str());
            shown.append("\n");
            spans.push(StyledSpan { text: shown, color: Some(Color::Gray), bold: false });
            proof {
                assert(spans.deep_view() =~= before + element_spans(element@));
            }
        },
        MarkdownElement::List(text) => {
            let mut shown = String::from_str("• ");
            shown.append(text.as_str());
            shown.append("\n");
            spans.push(StyledSpan { text: shown, color: None, bold: false });
            proof {
                assert(spans.deep_view() =~= before + element_spans(element@));
            }
        },
    }
}

/// The spans of a message from `role` that holds `elements`.
pub fn render_elements(role: Role, elements: &Vec<MarkdownElement>) -> (spans: Vec<StyledSpan>)
    ensures
        spans.deep_view() == message_spans(role, elements.deep_view()),
{
    let ghost shown = elements.deep_view();
    let mut prefix = String::from_str(role.name());
    prefix.append(": ");
    let mut spans: Vec<StyledSpan> = Vec::new();
    spans.push(StyledSpan { text: prefix, color: Some(color_of_prefix(role)), bold: true });
    proof {
        assert(spans.deep_view() =~= seq![prefix_span(role)] + spans_of(shown.take(0)));
    }
    let mut i: usize = 0;
    while i < elements.len()
        invariant
            i <= elements.len(),
            shown == elements.deep_view(),
            spans.deep_view() == seq![prefix_span(role)] + spans_of(shown.take(i as int)),
        decreases elements.len() - i,
    {
        proof {
            assert(shown.take(i + 1).drop_last() =~= shown.take(i as int));
            assert(shown.take(i + 1).last() == elements[i as int]@);
        }
        push_element_spans(&mut spans, &elements[i]);
        proof {
            assert(spans.deep_view() =~= seq![prefix_span(role)] + spans_of(shown.take(i + 1)));
        }
        i = i + 1;
    }
    proof {
        assert(shown.take(elements.len() as int) =~= shown);
    }
    spans
}

/// Lays the spans out in lines, cutting them at their line feeds.
pub fn lay_out(spans: &Vec<StyledSpan>) -> (lines: Vec<Vec<StyledSpan>>)
    ensures
        lines.deep_view() == lines_of(spans.deep_view()),
        lines.len() >= 1,
{
    let ghost shown = spans.deep_view();
    let mut done: Vec<Vec<StyledSpan>> = Vec::new();
    let mut current: Vec<StyledSpan> = Vec::new();
    proof {
        assert(current.deep_view() =~= Seq::<StyledSpanView>::empty());
        assert(done.deep_view() =~= Seq::<Seq<StyledSpanView>>::empty());
        assert(done.deep_view().push(current.deep_view()) =~= seq![
            Seq::<StyledSpanView>::empty(),
        ]);
        assert(shown.take(0).len() == 0);
    }
    let mut i: usize = 0;
    while i < spans.len()
        invariant
            i <= spans.len(),
            shown == spans.deep_view(),
            done.deep_view().push(current.deep_view()) == lines_of(shown.take(i as int)),
        decreases spans.len() - i,
    {
        let span = &spans[i];
        let parts = split_pieces(span.text.as_str());
        let ghost cut = parts.deep_view();
        let ghost start = lines_of(shown.take(i as int));
        proof {
            assert(shown.take(i + 1).drop_last() =~= shown.take(i as int));
            assert(shown.take(i + 1).last() == span@);
            assert(cut.len() == parts.len());
            assert(with_pieces(start, cut.take(0), span@) == start);
        }
        let mut j: usize = 0;
        while j < parts.len()
            invariant
                j <= parts.len(),
                cut == parts.deep_view(),
                done.deep_view().push(current.deep_view()) == with_pieces(
                    start,
                    cut.take(j as int),
                    span@,
                ),
            decreases parts.len() - j,
        {
            let ghost before = with_pieces(start, cut.take(j as int), span@);
            proof {
                assert(cut.take(j + 1).drop_last() =~= cut.take(j as int));
                assert(cut.take(j + 1).last() == parts[j as int]@);
                assert(cut.take(j + 1).len() == j + 1);
                assert(cut.take(1)[0] == cut[0]);
            }
            if j > 0 {
                let ghost closed = done.deep_view();
                let ghost line = current.deep_view();
                done.push(current);
                current = Vec::new();
                proof {
                    assert(done.deep_view() =~= closed.push(line));
                    assert(current.deep_view() =~= Seq::<StyledSpanView>::empty());
                    assert(done.deep_view().push(current.deep_view()) =~= before.push(
                        Seq::empty(),
                    ));
                }
            }
            let ghost opened = done.deep_view().push(current.deep_view());
            if !parts[j].as_str().is_empty() {
                let ghost line = current.deep_view();
                let piece = StyledSpan {
                    text: parts[j].clone(),
                    color: span.color,
                    bold: span.bold,
                };
                current.push(piece);
                proof {
                    assert(current.deep_view() =~= line.push(piece@));
                    assert(piece@ == (StyledSpanView { text: parts[j as int]@, ..span@ }));
                    assert(done.deep_view().push(current.deep_view()) =~= with_piece(
                        opened,
                        parts[j as int]@,
                        span@,
                    ));
                }
            } else {
                proof {
                    assert(parts[j as int]@.len() == 0);
                }
            }
            j = j + 1;
        }
        proof {
            assert(cut.take(parts.len() as int) =~= cut);
        }
        i = i + 1;
    }
    proof {
        assert(shown.take(spans.len() as int) =~= shown);
    }
    let ghost closed = done.deep_view();
    let ghost line = current.deep_view();
    done.push(current);
    proof {
        assert(done.deep_view() =~= closed.push(line));
    }
    done
}

/// A message about to be shown, and whether it is the selected one.
pub struct MessageBlock<'a> {
    message: &'a Message,
    is_selected: bool,
}

impl<'a> MessageBlock<'a> {
    pub closed spec fn message(&self) -> Message {
        *self.message
    }

    pub closed spec fn selected(&self) -> bool {
        self.is_selected
    }

    pub fn new(message: &'a Message, is_selected: bool) -> (block: Self)
        ensures
            block.message() == *message,
            block.selected() == is_selected,
    {
        MessageBlock { message, is_selected }
    }

    /// Whether the message is the selected one.
    pub fn is_selected(&self) -> (r: bool)
        ensures
            r == self.selected(),
    {
        self.is_selected
    }

    /// The message as spans: the role's prefix, then the spans of the
    /// elements that the message's text is read as.
    pub fn render(&self) -> (spans: Vec<StyledSpan>)
        ensures
            spans.deep_view() == message_spans(
                self.message().role,
                parsed(event_stream(self.message().content@)),
            ),
    {
        let elements = parse_markdown(self.message.content.as_str());
        render_elements(self.message.role, &elements)
    }
}

} // verus!
