//! From the text of a message to the elements that are shown: plain text,
//! headers, highlighted code, quotes and list items.
//!
//! The text is read by `pulldown_cmark`, which hands out a stream of events.
//! What becomes of the events is decided here, by a small machine that
//! remembers whether it stands inside a fenced code block. The lines of a
//! code block are coloured by `syntect`.

use crate::text::{lines_with_endings, split_lines};
use pulldown_cmark::{CodeBlockKind, Event, Parser, Tag};
use syntect::easy::HighlightLines;
use syntect::highlighting::ThemeSet;
use syntect::parsing::SyntaxSet;
use syntect::util::as_24_bit_terminal_escaped;
use vstd::prelude::*;

verus! {

/// One piece of a message as it is shown.
#[derive(Clone, Debug, PartialEq, Eq)]
pub enum MarkdownElement {
    Text(String),
    /// A header's text and its level, from 1 to 6.
    Header(String, u32),
    /// The lines of a fenced code block, each with its line ending, and the
    /// language tag of the fence.
    CodeBlock(Vec<String>, String),
    BlockQuote(String),
    List(String),
}

pub ghost enum MarkdownElementView {
    Text(Seq<char>),
    Header(Seq<char>, u32),
    CodeBlock(Seq<Seq<char>>, Seq<char>),
    BlockQuote(Seq<char>),
    List(Seq<char>),
}

impl View for MarkdownElement {
    type V = MarkdownElementView;

    open spec fn view(&self) -> MarkdownElementView {
        match self {
            MarkdownElement::Text(text) => MarkdownElementView::Text(text@),
            MarkdownElement::Header(text, level) => MarkdownElementView::Header(text@, *level),
            MarkdownElement::CodeBlock(lines, language) => MarkdownElementView::CodeBlock(
                lines.deep_view(),
                language@,
            ),
            MarkdownElement::BlockQuote(text) => MarkdownElementView::BlockQuote(text@),
            MarkdownElement::List(text) => MarkdownElementView::List(text@),
        }
    }
}

impl DeepView for MarkdownElement {
    type V = MarkdownElementView;

    open spec fn deep_view(&self) -> MarkdownElementView {
        self@
    }
}

/// What the reader of the text reports, as far as it matters here.
#[derive(Clone, Debug, PartialEq, Eq)]
pub enum MarkdownEvent {
    /// A heading opens; the field is its level.
    HeadingStart(u32),
    /// A fenced code block opens; the field is the fence's language tag.
    FenceStart(String),
    /// A fenced code block closes.
    FenceEnd,
    /// A block quote opens.
    QuoteStart,
    /// A list opens.
    ListStart,
    /// A run of text.
    Text(String),
    /// Any other event.
    Other,
}

pub ghost enum MarkdownEventView {
    HeadingStart(u32),
    FenceStart(Seq<char>),
    FenceEnd,
    QuoteStart,
    ListStart,
    Text(Seq<char>),
    Other,
}

impl View for MarkdownEvent {
    type V = MarkdownEventView;

    open spec fn view(&self) -> MarkdownEventView {
        match self {
            MarkdownEvent::HeadingStart(level) => MarkdownEventView::HeadingStart(*level),
            MarkdownEvent::FenceStart(language) => MarkdownEventView::FenceStart(language@),
            MarkdownEvent::FenceEnd => MarkdownEventView::FenceEnd,
            MarkdownEvent::QuoteStart => MarkdownEventView::QuoteStart,
            MarkdownEvent::ListStart => MarkdownEventView::ListStart,
            MarkdownEvent::Text(text) => MarkdownEventView::Text(text@),
            MarkdownEvent::Other => MarkdownEventView::Other,
        }
    }
}

impl DeepView for MarkdownEvent {
    type V = MarkdownEventView;

    open spec fn deep_view(&self) -> MarkdownEventView {
        self@
    }
}

/// What the machine remembers between events.
pub ghost struct Fence {
    /// Whether text is being gathered as code.
    pub open: bool,
    /// The code gathered since the last fence opened.
    pub code: Seq<char>,
    /// The language tag of the last fence that opened.
    pub language: Seq<char>,
}

impl Fence {
    /// The memory at the start of a message.
    pub open spec fn closed() -> Fence {
        Fence { open: false, code: Seq::empty(), language: Seq::empty() }
    }
}

/// The text of the event after the one at `at`, if there is such an event and
/// it is a run of text.
pub open spec fn following_text(events: Seq<MarkdownEventView>, at: int) -> Option<Seq<char>> {
    if 0 <= at + 1 < events.len() {
        match events[at + 1] {
            MarkdownEventView::Text(text) => Some(text),
            _ => None,
        }
    } else {
        None
    }
}

/// The elements that the events from `at` on give, for a machine whose
/// memory is `fence`.
///
/// A heading, a block quote or a list that opens takes the next event with
/// it: a run of text becomes the header, quote or list item, and any other
/// event is dropped. While a fence is open, text is gathered and shows only
/// when the fence closes, cut into lines. Other text is shown as it comes.
pub open spec fn elements_from(events: Seq<MarkdownEventView>, at: int, fence: Fence) -> Seq<
    MarkdownElementView,
>
    decreases events.len() + 1 - at,
{
    if at < 0 || at >= events.len() {
        Seq::empty()
    } else {
        match events[at] {
            MarkdownEventView::HeadingStart(level) => (match following_text(events, at) {
                Some(text) => seq![MarkdownElementView::Header(text, level)],
                None => Seq::empty(),
            }) + elements_from(events, at + 2, fence),
            MarkdownEventView::QuoteStart => (match following_text(events, at) {
                Some(text) => seq![MarkdownElementView::BlockQuote(text)],
                None => Seq::empty(),
            }) + elements_from(events, at + 2, fence),
            MarkdownEventView::ListStart => (match following_text(events, at) {
                Some(text) => seq![MarkdownElementView::List(text)],
                None => Seq::empty(),
            }) + elements_from(events, at + 2, fence),
            MarkdownEventView::FenceStart(language) => elements_from(
                events,
                at + 1,
                Fence { open: true, code: Seq::empty(), language },
            ),
            MarkdownEventView::Text(text) => if fence.open {
                elements_from(events, at + 1, Fence { code: fence.code + text, ..fence })
            } else {
                seq![MarkdownElementView::Text(text)] + elements_from(events, at + 1, fence)
            },
            MarkdownEventView::FenceEnd => seq![
                MarkdownElementView::CodeBlock(lines_with_endings(fence.code), fence.language),
            ] + elements_from(events, at + 1, Fence { open: false, ..fence }),
            MarkdownEventView::Other => elements_from(events, at + 1, fence),
        }
    }
}

/// The elements that a stream of events gives, code not yet coloured.
pub open spec fn elements_of(events: Seq<MarkdownEventView>) -> Seq<MarkdownElementView> {
    elements_from(events, 0, Fence::closed())
}

/// Whether every heading of the stream has a level from 1 to 6.
pub open spec fn heading_levels_in_range(events: Seq<MarkdownEventView>) -> bool {
    forall|i: int|
        0 <= i < events.len() ==> (#[trigger] events[i] matches MarkdownEventView::HeadingStart(
            level,
        ) ==> 1 <= level <= 6)
}

/// Whether every header among the elements has a level from 1 to 6.
pub open spec fn header_levels_in_range(elements: Seq<MarkdownElementView>) -> bool {
    forall|i: int|
        0 <= i < elements.len() ==> (#[trigger] elements[i] matches MarkdownElementView::Header(
            _,
            level,
        ) ==> 1 <= level <= 6)
}

/// The events that `pulldown_cmark` reads from a text, in its order.
pub uninterp spec fn event_stream(input: Seq<char>) -> Seq<MarkdownEventView>;

/// The lines as `syntect` colours them under the syntax that its default set
/// has for a file extension and under a theme of its default themes; `None`
/// where it has no such syntax or theme, or gives up on a line.
pub uninterp spec fn extension_highlight(
    lines: Seq<Seq<char>>,
    extension: Seq<char>,
    theme: Seq<char>,
) -> Option<Seq<Seq<char>>>;

/// The lines as `syntect` colours them under its plain-text syntax and under
/// a theme of its default themes; `None` where it has no such theme, or gives
/// up on a line.
pub uninterp spec fn plain_highlight(lines: Seq<Seq<char>>, theme: Seq<char>) -> Option<
    Seq<Seq<char>>,
>;

/// The theme under which code is coloured.
pub open spec fn theme_name() -> Seq<char> {
    "base16-ocean.dark"@
}

/// The first of the two colourings that exists, or else the lines as they
/// are.
pub open spec fn pick_styled(
    by_extension: Option<Seq<Seq<char>>>,
    plain: Option<Seq<Seq<char>>>,
    raw: Seq<Seq<char>>,
) -> Seq<Seq<char>> {
    match by_extension {
        Some(styled) => styled,
        None => match plain {
            Some(styled) => styled,
            None => raw,
        },
    }
}

/// The lines of a code block as they are shown: coloured for the language
/// where its tag is a known file extension, coloured as plain text where it
/// is not, and left as they are where no colouring can be had.
pub open spec fn highlighted(lines: Seq<Seq<char>>, language: Seq<char>) -> Seq<Seq<char>> {
    pick_styled(
        extension_highlight(lines, language, theme_name()),
        plain_highlight(lines, theme_name()),
        lines,
    )
}

/// An element with its code coloured; anything but a code block stays.
pub open spec fn styled_element(element: MarkdownElementView) -> MarkdownElementView {
    match element {
        MarkdownElementView::CodeBlock(lines, language) => MarkdownElementView::CodeBlock(
            highlighted(lines, language),
            language,
        ),
        other => other,
    }
}

/// The elements that a stream of events gives, code coloured.
pub open spec fn parsed(events: Seq<MarkdownEventView>) -> Seq<MarkdownElementView> {
    elements_of(events).map_values(|element: MarkdownElementView| styled_element(element))
}

/// Whether `styled` shows what `raw` shows, with as many lines in each code
/// block.
pub open spec fn keeps_line_counts(
    raw: Seq<MarkdownElementView>,
    styled: Seq<MarkdownElementView>,
) -> bool {
    &&& styled.len() == raw.len()
    &&& forall|i: int|
        0 <= i < raw.len() ==> (#[trigger] raw[i] matches MarkdownElementView::CodeBlock(
            lines,
            language,
        ) ==> styled[i] matches MarkdownElementView::CodeBlock(shown, tag) && shown.len()
            == lines.len() && tag == language)
}

/// Reads `input` with `pulldown_cmark::Parser::new` and reports each event of
/// the parser by its kind: a heading, a fenced code block, a block quote or a
/// list that opens, a fenced code block that closes, a run of text, or
/// anything else. The parser gives a heading a level from 1 to 6.
#[verifier::external_body]
fn read_events(input: &str) -> (events: Vec<MarkdownEvent>)
    ensures
        events.deep_view() == event_stream(input@),
        heading_levels_in_range(events.deep_view()),
{
    Parser::new(input).map(|event| match event {
        Event::Start(Tag::Heading(level)) => MarkdownEvent::HeadingStart(level),
        Event::Start(Tag::CodeBlock(CodeBlockKind::Fenced(tag))) => MarkdownEvent::FenceStart(tag.to_string()),
        Event::End(Tag::CodeBlock(CodeBlockKind::Fenced(_))) => MarkdownEvent::FenceEnd,
        Event::Start(Tag::BlockQuote) => MarkdownEvent::QuoteStart,
        Event::Start(Tag::List(_)) => MarkdownEvent::ListStart,
        Event::Text(text) => MarkdownEvent::Text(text.to_string()),
        _ => MarkdownEvent::Other,
    }).collect()
}

/// Colours the lines with `syntect`: the default syntaxes and themes are
/// loaded, the syntax is looked up with `SyntaxSet::find_syntax_by_extension`,
/// each line goes through `HighlightLines::highlight_line` and is written out
/// by `as_24_bit_terminal_escaped` without background. One line in gives one
/// line out.
#[verifier::external_body]
fn highlight_by_extension(lines: &Vec<String>, extension: &str, theme: &str) -> (styled: Option<
    Vec<String>,
>)
    ensures
        styled.deep_view() == extension_highlight(lines.deep_view(), extension@, theme@),
        styled matches Some(out) ==> out.len() == lines.len(),
{
    let syntaxes = SyntaxSet::load_defaults_newlines();
    let themes = ThemeSet::load_defaults();
    let syntax = syntaxes.find_syntax_by_extension(extension)?;
    let mut highlighter = HighlightLines::new(syntax, themes.themes.get(theme)?);
    lines.iter().map(|line| {
        let ranges = highlighter.highlight_line(line, &syntaxes).ok()?;
        Some(as_24_bit_terminal_escaped(&ranges[..], false))
    }).collect()
}

/// Colours the lines with `syntect` as [`highlight_by_extension`] does, but
/// under the syntax that `SyntaxSet::find_syntax_plain_text` gives, which the
/// default syntaxes hold.
#[verifier::external_body]
fn highlight_as_plain_text(lines: &Vec<String>, theme: &str) -> (styled: Option<Vec<String>>)
    ensures
        styled.deep_view() == plain_highlight(lines.deep_view(), theme@),
        styled matches Some(out) ==> out.len() == lines.len(),
{
    let syntaxes = SyntaxSet::load_defaults_newlines();
    let themes = ThemeSet::load_defaults();
    let syntax = syntaxes.find_syntax_plain_text();
    let mut highlighter = HighlightLines::new(syntax, themes.themes.get(theme)?);
    lines.iter().map(|line| {
        let ranges = highlighter.highlight_line(line, &syntaxes).ok()?;
        Some(as_24_bit_terminal_escaped(&ranges[..], false))
    }).collect()
}

/// A copy of the lines.
pub fn copy_lines(lines: &Vec<String>) -> (r: Vec<String>)
    ensures
        r.deep_view() == lines.deep_view(),
{
    let mut out: Vec<String> = Vec::new();
    let mut i: usize = 0;
    while i < lines.len()
        invariant
            i <= lines.len(),
            out.deep_view() == lines.deep_view().take(i as int),
        decreases lines.len() - i,
    {
        let ghost before = out.deep_view();
        out.push(lines[i].clone());
        proof {
            assert(out.deep_view() =~= before.push(lines[i as int]@));
            assert(out.deep_view() =~= lines.deep_view().take(i + 1));
        }
        i = i + 1;
    }
    proof {
        assert(lines.deep_view().take(lines.len() as int) =~= lines.deep_view());
    }
    out
}

/// Settles on the lines to show, given what the two colourings gave.
pub fn styled_or_raw(
    by_extension: Option<Vec<String>>,
    plain: Option<Vec<String>>,
    raw: &Vec<String>,
) -> (r: Vec<String>)
    ensures
        r.deep_view() == pick_styled(by_extension.deep_view(), plain.deep_view(), raw.deep_view()),
{
    match by_extension {
        Some(styled) => styled,
        None => match plain {
            Some(styled) => styled,
            None => copy_lines(raw),
        },
    }
}

/// Colours the lines of a code block for `language`. Never fails: lines that
/// cannot be coloured are shown as they are.
pub fn highlight_lines(lines: &Vec<String>, language: &str) -> (r: Vec<String>)
    ensures
        r.deep_view() == highlighted(lines.deep_view(), language@),
        r.len() == lines.len(),
{
    let by_extension = highlight_by_extension(lines, language, "base16-ocean.dark");
    let plain = match by_extension {
        Some(_) => None,
        None => highlight_as_plain_text(lines, "base16-ocean.dark"),
    };
    proof {
        assert(lines.deep_view().len() == lines.len());
        if by_extension is Some {
            assert(by_extension->0.deep_view().len() == by_extension->0.len());
        }
        if plain is Some {
            assert(plain->0.deep_view().len() == plain->0.len());
        }
    }
    let shown = styled_or_raw(by_extension, plain, lines);
    proof {
        assert(shown.deep_view().len() == shown.len());
    }
    shown
}

/// The text of the event after the one at `at`, if it is a run of text.
fn text_after(events: &Vec<MarkdownEvent>, at: usize) -> (r: Option<String>)
    requires
        at < events.len(),
    ensures
        r.deep_view() == following_text(events.deep_view(), at as int),
{
    if at + 1 < events.len() {
        match &events[at + 1] {
            MarkdownEvent::Text(text) => Some(text.clone()),
            _ => None,
        }
    } else {
        None
    }
}

/// Turns a stream of events into elements, code not yet coloured.
pub fn elements_from_events(events: &Vec<MarkdownEvent>) -> (elements: Vec<MarkdownElement>)
    ensures
        elements.deep_view() == elements_of(events.deep_view()),
{
    let ghost stream = events.deep_view();
    let mut elements: Vec<MarkdownElement> = Vec::new();
    let mut in_code_block = false;
    let mut code = String::new();
    let mut language = String::new();
    let mut i: usize = 0;
    proof {
        assert(elements.deep_view() =~= Seq::<MarkdownElementView>::empty());
        assert(Seq::<MarkdownElementView>::empty() + elements_of(stream) =~= elements_of(stream));
    }
    while i < events.len()
        invariant
            i <= events.len(),
            stream == events.deep_view(),
            elements_of(stream) == elements.deep_view() + elements_from(
                stream,
                i as int,
                Fence { open: in_code_block, code: code@, language: language@ },
            ),
        decreases events.len() - i,
    {
        let ghost fence = Fence { open: in_code_block, code: code@, language: language@ };
        let ghost before = elements.deep_view();
        let ghost rest = elements_from(stream, i as int, fence);
        proof {
            assert(stream[i as int] == events[i as int]@);
        }
        let mut taken: usize = 1;
        match &events[i] {
            MarkdownEvent::HeadingStart(level) => {
                match text_after(events, i) {
                    Some(text) => {
                        elements.push(MarkdownElement::Header(text, *level));
                    },
                    None => {},
                }
                taken = 2;
            },
            MarkdownEvent::QuoteStart => {
                match text_after(events, i) {
                    Some(text) => {
                        elements.push(MarkdownElement::BlockQuote(text));
                    },
                    None => {},
                }
                taken = 2;
            },
            MarkdownEvent::ListStart => {
                match text_after(events, i) {
                    Some(text) => {
                        elements.push(MarkdownElement::List(text));
                    },
                    None => {},
                }
                taken = 2;
            },
            MarkdownEvent::FenceStart(tag) => {
                in_code_block = true;
                language = tag.clone();
                code = String::new();
            },
            MarkdownEvent::Text(text) => {
                if in_code_block {
                    code.append(text.as_str());
                } else {
                    elements.push(MarkdownElement::Text(text.clone()));
                }
            },
            MarkdownEvent::FenceEnd => {
                in_code_block = false;
                let lines = split_lines(code.as_str());
                elements.push(MarkdownElement::CodeBlock(lines, language.clone()));
            },
            MarkdownEvent::Other => {},
        }
        let ghost after = Fence { open: in_code_block, code: code@, language: language@ };
        proof {
            let added = elements.deep_view().skip(before.len() as int);
            assert(elements.deep_view() =~= before + added);
            assert(rest =~= added + elements_from(stream, i + taken, after));
            assert(before + rest =~= (before + added) + elements_from(stream, i + taken, after));
        }
        if taken == 2 && i + 1 >= events.len() {
            i = events.len();
        } else {
            i = i + taken;
        }
    }
    proof {
        assert(elements.deep_view() + Seq::<MarkdownElementView>::empty()
            =~= elements.deep_view());
    }
    elements
}

/// An element with its code coloured; anything but a code block is copied.
pub fn style_element(element: &MarkdownElement) -> (r: MarkdownElement)
    ensures
        r@ == styled_element(element@),
        element@ matches MarkdownElementView::CodeBlock(lines, language) ==> r@
            matches MarkdownElementView::CodeBlock(shown, tag) && shown.len() == lines.len() && tag
            == language,
{
    match element {
        MarkdownElement::Text(text) => MarkdownElement::Text(text.clone()),
        MarkdownElement::Header(text, level) => MarkdownElement::Header(text.clone(), *level),
        MarkdownElement::CodeBlock(lines, language) => {
            let shown = highlight_lines(lines, language.as_str());
            proof {
                assert(shown.deep_view().len() == shown.len());
                assert(lines.deep_view().len() == lines.len());
            }
            MarkdownElement::CodeBlock(shown, language.clone())
        },
        MarkdownElement::BlockQuote(text) => MarkdownElement::BlockQuote(text.clone()),
        MarkdownElement::List(text) => MarkdownElement::List(text.clone()),
    }
}

/// Colours the code of each element.
pub fn style_elements(elements: &Vec<MarkdownElement>) -> (styled: Vec<MarkdownElement>)
    ensures
        styled.deep_view() == elements.deep_view().map_values(
            |element: MarkdownElementView| styled_element(element),
        ),
        keeps_line_counts(elements.deep_view(), styled.deep_view()),
{
    let ghost raw = elements.deep_view();
    let mut styled: Vec<MarkdownElement> = Vec::new();
    let mut i: usize = 0;
    while i < elements.len()
        invariant
            i <= elements.len(),
            raw == elements.deep_view(),
            styled.deep_view() == raw.take(i as int).map_values(
                |element: MarkdownElementView| styled_element(element),
            ),
            keeps_line_counts(raw.take(i as int), styled.deep_view()),
        decreases elements.len() - i,
    {
        let ghost before = styled.deep_view();
        let shown = style_element(&elements[i]);
        styled.push(shown);
        proof {
            assert(styled.deep_view() =~= before.push(shown@));
            assert(styled.deep_view() =~= raw.take(i + 1).map_values(
                |element: MarkdownElementView| styled_element(element),
            ));
            assert forall|k: int| 0 <= k < i + 1 implies (#[trigger] raw.take(i + 1)[k]
                matches MarkdownElementView::CodeBlock(lines, language) ==> styled.deep_view()[k]
                matches MarkdownElementView::CodeBlock(shown, tag) && shown.len() == lines.len()
                && tag == language) by {
                if k < i {
                    assert(raw.take(i as int)[k] == raw.take(i + 1)[k]);
                    assert(before[k] == styled.deep_view()[k]);
                }
            }
        }
        i = i + 1;
    }
    proof {
        assert(raw.take(elements.len() as int) =~= raw);
    }
    styled
}

/// Every header comes from a heading of the stream, with the heading's
/// level.
pub proof fn lemma_header_levels(events: Seq<MarkdownEventView>, at: int, fence: Fence)
    requires
        heading_levels_in_range(events),
    ensures
        header_levels_in_range(elements_from(events, at, fence)),
    decreases events.len() + 1 - at,
{
    if 0 <= at < events.len() {
        match events[at] {
            MarkdownEventView::HeadingStart(level) => {
                lemma_header_levels(events, at + 2, fence);
            },
            MarkdownEventView::QuoteStart => {
                lemma_header_levels(events, at + 2, fence);
            },
            MarkdownEventView::ListStart => {
                lemma_header_levels(events, at + 2, fence);
            },
            MarkdownEventView::FenceStart(language) => {
                lemma_header_levels(
                    events,
                    at + 1,
                    Fence { open: true, code: Seq::empty(), language },
                );
            },
            MarkdownEventView::Text(text) => {
                if fence.open {
                    lemma_header_levels(
                        events,
                        at + 1,
                        Fence { code: fence.code + text, ..fence },
                    );
                } else {
                    lemma_header_levels(events, at + 1, fence);
                }
            },
            MarkdownEventView::FenceEnd => {
                lemma_header_levels(events, at + 1, Fence { open: false, ..fence });
            },
            MarkdownEventView::Other => {
                lemma_header_levels(events, at + 1, fence);
            },
        }
    }
}

/// Reads a message and gives its elements in order. Never fails: text that
/// is not well-formed Markdown comes out as plain text.
pub fn parse_markdown(input: &str) -> (elements: Vec<MarkdownElement>)
    ensures
        elements.deep_view() == parsed(event_stream(input@)),
        keeps_line_counts(elements_of(event_stream(input@)), elements.deep_view()),
        header_levels_in_range(elements.deep_view()),
{
    let events = read_events(input);
    let raw = elements_from_events(&events);
    let styled = style_elements(&raw);
    proof {
        lemma_header_levels(event_stream(input@), 0, Fence::closed());
        assert forall|i: int| 0 <= i < styled.deep_view().len() implies (
        #[trigger] styled.deep_view()[i] matches MarkdownElementView::Header(_, level) ==> 1
            <= level <= 6) by {
            assert(styled.deep_view()[i] == styled_element(raw.deep_view()[i]));
        }
    }
    styled
}

} // verus!
