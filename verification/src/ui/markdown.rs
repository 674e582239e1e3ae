//! Release notes as plain text.
//!
//! Markdown is read into events by an outside parser; the text is built from the events here.

use pulldown_cmark::Event::{
    Code as CodeEvent, End as EndEvent, HardBreak as HardBreakEvent, Html as HtmlEvent,
    InlineHtml as InlineHtmlEvent, Rule as RuleEvent, SoftBreak as SoftBreakEvent,
    Start as StartEvent, Text as TextEvent,
};
use pulldown_cmark::Tag::List as ListTag;
use pulldown_cmark::TagEnd::{
    BlockQuote as BlockQuoteEnd, CodeBlock as CodeBlockEnd, Emphasis as EmphasisEnd,
    Heading as HeadingEnd, HtmlBlock as HtmlBlockEnd, Image as ImageEnd, Item as ItemEnd,
    Link as LinkEnd, List as ListEnd, Paragraph as ParagraphEnd, Strong as StrongEnd,
};
use pulldown_cmark::Parser;
use vstd::prelude::*;

use crate::text::{
    all_white, before_trailing, decimal, drop_trailing, ends, from_chars, is_white,
    law_trimming_is_thorough, law_trimming_leaves_the_middle, law_trimming_takes_only_white_space,
    lemma_drop_suffix, lemma_drop_trailing, to_chars, to_decimal, trim, trimmed,
};
use Construct::{
    BlockQuote, CodeBlock, Emphasis, Heading, HtmlBlock, Image, Item, Link, List, Optional,
    Paragraph, Strong,
};
use MarkdownEvent::{
    Code, End, Extension, HardBreak, Html, InlineHtml, Rule, SoftBreak, Start, StartList, Text,
};

verus! {

/// Something in a markdown document that opens and closes.
#[derive(Debug, Clone, Copy, PartialEq, Eq, Structural)]
pub enum Construct {
    /// A paragraph. In a tight list the parser does not tell of them.
    Paragraph,
    Heading,
    CodeBlock,
    BlockQuote,
    /// A block of HTML.
    HtmlBlock,
    List,
    /// An item of a list.
    Item,
    Emphasis,
    Strong,
    Link,
    Image,
    /// Anything that the parser knows only by an option, and none is enabled.
    Optional,
}

/// What the text builder hears of a markdown document.
#[derive(Debug, PartialEq, Eq)]
pub enum MarkdownEvent {
    /// A stretch of text.
    Text(String),
    /// Inline code.
    Code(String),
    /// A line ending in the source that is not one in the output.
    SoftBreak,
    /// A line ending that was asked for.
    HardBreak,
    /// A rule between blocks.
    Rule,
    /// HTML in a block of its own.
    Html,
    /// HTML within a line.
    InlineHtml,
    /// A list opens: bulleted, or numbered from the given number on.
    StartList(Option<u64>),
    /// A construct opens. A list without more ado is a bulleted one.
    Start(Construct),
    /// A construct closes, the innermost of its sort.
    End(Construct),
    /// Anything else that the parser knows only by an option, and none is enabled.
    Extension,
}

/// [`MarkdownEvent`] with its text as a sequence of characters.
pub enum MarkdownEventView {
    Text(Seq<char>),
    Code(Seq<char>),
    SoftBreak,
    HardBreak,
    Rule,
    Html,
    InlineHtml,
    StartList(Option<u64>),
    Start(Construct),
    End(Construct),
    Extension,
}

impl View for MarkdownEvent {
    type V = MarkdownEventView;

    open spec fn view(&self) -> MarkdownEventView {
        match self {
            MarkdownEvent::Text(s) => MarkdownEventView::Text(s@),
            MarkdownEvent::Code(s) => MarkdownEventView::Code(s@),
            MarkdownEvent::SoftBreak => MarkdownEventView::SoftBreak,
            MarkdownEvent::HardBreak => MarkdownEventView::HardBreak,
            MarkdownEvent::Rule => MarkdownEventView::Rule,
            MarkdownEvent::Html => MarkdownEventView::Html,
            MarkdownEvent::InlineHtml => MarkdownEventView::InlineHtml,
            MarkdownEvent::StartList(first) => MarkdownEventView::StartList(*first),
            MarkdownEvent::Start(construct) => MarkdownEventView::Start(*construct),
            MarkdownEvent::End(construct) => MarkdownEventView::End(*construct),
            MarkdownEvent::Extension => MarkdownEventView::Extension,
        }
    }
}

/// A list of events with their texts as sequences of characters.
pub open spec fn event_views(events: Seq<MarkdownEvent>) -> Seq<MarkdownEventView> {
    Seq::new(events.len(), |i: int| events[i]@)
}

/// The events that `pulldown_cmark::Parser::new` yields for a document, in order.
pub uninterp spec fn markdown_events(markdown: Seq<char>) -> Seq<MarkdownEventView>;

/// Reads a document with `pulldown_cmark::Parser::new`, no options enabled, and turns each event
/// into the one of this library with the same name, in order. What opens is told apart by the tag
/// that closes it, which `pulldown_cmark::Tag::to_end` gives. Texts and the first number of a list
/// are kept; the level of a heading, the target of a link and the HTML itself are not. What the
/// events of a document are is the parser's business; claimed is only that they depend on the
/// document alone.
#[verifier::external_body]
fn parse_markdown(markdown: &str) -> (events: Vec<MarkdownEvent>)
    ensures
        event_views(events@) == markdown_events(markdown@),
{
    let construct = |tag| match tag {
        ParagraphEnd => Paragraph, HeadingEnd(_) => Heading, CodeBlockEnd => CodeBlock,
        BlockQuoteEnd(_) => BlockQuote, HtmlBlockEnd => HtmlBlock, ListEnd(_) => List,
        ItemEnd => Item, EmphasisEnd => Emphasis, StrongEnd => Strong, LinkEnd => Link,
        ImageEnd => Image, _ => Optional,
    };
    Parser::new(markdown).map(|event| match event {
        TextEvent(s) => Text(s.into_string()), CodeEvent(s) => Code(s.into_string()),
        SoftBreakEvent => SoftBreak, HardBreakEvent => HardBreak, RuleEvent => Rule,
        HtmlEvent(_) => Html, InlineHtmlEvent(_) => InlineHtml,
        StartEvent(ListTag(first)) => StartList(first),
        StartEvent(tag) => Start(construct(tag.to_end())),
        EndEvent(tag) => End(construct(tag)),
        _ => Extension,
    }).collect()
}

/// Spaces and line feeds, as a class of characters.
pub open spec fn blank() -> spec_fn(char) -> bool {
    |c: char| c == ' ' || c == '\n'
}

/// Whether a character is a space or a line feed.
fn is_blank(c: char) -> (b: bool)
    ensures
        b == blank()(c),
{
    c == ' ' || c == '\n'
}

/// `text` without the spaces and line feeds at its end.
pub open spec fn unpadded(text: Seq<char>) -> Seq<char> {
    drop_trailing(text, blank())
}

/// `text` with its last line closed.
pub open spec fn line_ended(text: Seq<char>) -> Seq<char> {
    let kept = unpadded(text);
    if kept.len() > 0 {
        kept.push('\n')
    } else {
        kept
    }
}

/// `text` with its last block closed.
pub open spec fn block_ended(text: Seq<char>) -> Seq<char> {
    let kept = unpadded(text);
    if kept.len() > 0 {
        kept + seq!['\n', '\n']
    } else {
        kept
    }
}

/// `text` moved on to the start of a line.
pub open spec fn line_started(text: Seq<char>) -> Seq<char> {
    if text.len() > 0 && text.last() != '\n' {
        text.push('\n')
    } else {
        text
    }
}

/// Cuts spaces and line feeds off the end of the text.
pub fn trim_trailing_space(text: &mut String)
    ensures
        final(text)@ == unpadded(old(text)@),
{
    let chars = to_chars(text.as_str());
    let kept = before_trailing(chars.as_slice(), is_blank, Ghost(blank()));
    *text = from_chars(kept);
}

/// Close the current line, leaving exactly one trailing newline.
pub fn end_line(text: &mut String)
    ensures
        final(text)@ == line_ended(old(text)@),
{
    trim_trailing_space(text);
    if !text.as_str().is_empty() {
        text.push('\n');
    }
}

/// Close the current block, leaving exactly one blank line after it.
pub fn end_block(text: &mut String)
    ensures
        final(text)@ == block_ended(old(text)@),
{
    trim_trailing_space(text);
    if !text.as_str().is_empty() {
        let ghost kept = text@;
        text.push('\n');
        text.push('\n');
        assert(text@ =~= kept + seq!['\n', '\n']);
    }
}

/// Move to the start of a line, keeping any blank line that is already there.
pub fn start_line(text: &mut String)
    ensures
        final(text)@ == line_started(old(text)@),
{
    let chars = to_chars(text.as_str());
    if chars.len() > 0 && chars[chars.len() - 1] != '\n' {
        text.push('\n');
    }
}

/// What the end of a text under construction is.
#[derive(Debug, Clone, Copy, PartialEq, Eq, Structural)]
pub enum Place {
    /// The marker of a list item, with nothing behind it yet.
    Marker,
    /// A list within an item of another, which goes on.
    InnerList,
    /// Anything else.
    Text,
}

/// A text under construction: what is written, for each open list, outermost first, the number of
/// its next item, or nothing for a bulleted list, and what the end of the text is.
pub struct Draft {
    pub text: Seq<char>,
    pub lists: Seq<Option<nat>>,
    pub place: Place,
}

/// Two spaces for each list that the innermost open one stands in.
pub open spec fn indent(depth: nat) -> Seq<char> {
    if depth == 0 {
        Seq::empty()
    } else {
        Seq::new((2 * (depth - 1)) as nat, |i: int| ' ')
    }
}

/// What an item of the innermost open list begins with.
pub open spec fn marker(lists: Seq<Option<nat>>) -> Seq<char> {
    if lists.len() > 0 && lists.last() is Some {
        decimal(lists.last()->0) + seq!['.', ' ']
    } else {
        seq!['-', ' ']
    }
}

/// The open lists, once the innermost has used up the number of one item.
pub open spec fn counted(lists: Seq<Option<nat>>) -> Seq<Option<nat>> {
    if lists.len() > 0 && lists.last() is Some {
        lists.drop_last().push(Some(lists.last()->0 + 1))
    } else {
        lists
    }
}

/// How a stretch of text changes the text under construction: it is put behind it. What follows an
/// inner list is a block of its own.
pub open spec fn extended(draft: Draft, s: Seq<char>) -> Draft {
    if s.len() == 0 {
        draft
    } else if draft.place == Place::InnerList {
        Draft { text: block_ended(draft.text) + s, place: Place::Text, ..draft }
    } else {
        Draft { text: draft.text + s, place: Place::Text, ..draft }
    }
}

/// Whether a construct is a block of its own, so that it never goes on where other text stands.
pub open spec fn is_block(construct: Construct) -> bool {
    match construct {
        Construct::Paragraph
        | Construct::Heading
        | Construct::CodeBlock
        | Construct::BlockQuote
        | Construct::HtmlBlock => true,
        _ => false,
    }
}

/// Whether a block opens with an event. A rule is one that shows nothing.
pub open spec fn opens_block(event: MarkdownEventView) -> bool {
    match event {
        MarkdownEventView::Start(construct) => is_block(construct),
        MarkdownEventView::Rule => true,
        _ => false,
    }
}

/// Whether a block of text closes with an event.
pub open spec fn closes_block(event: MarkdownEventView) -> bool {
    match event {
        MarkdownEventView::End(Construct::Paragraph)
        | MarkdownEventView::End(Construct::Heading)
        | MarkdownEventView::End(Construct::CodeBlock) => true,
        _ => false,
    }
}

/// Whether an event makes no difference to the text: HTML, what surrounds a stretch of text within
/// a line, the ends of what only wraps other blocks, and what takes an option.
pub open spec fn adds_nothing(event: MarkdownEventView) -> bool {
    match event {
        MarkdownEventView::Html
        | MarkdownEventView::InlineHtml
        | MarkdownEventView::Extension => true,
        MarkdownEventView::Start(construct) => is_inline(construct),
        MarkdownEventView::End(construct) => is_inline(construct) || construct
            == Construct::BlockQuote || construct == Construct::HtmlBlock,
        _ => false,
    }
}

/// Whether a construct stands within a line, or takes an option.
pub open spec fn is_inline(construct: Construct) -> bool {
    match construct {
        Construct::Emphasis
        | Construct::Strong
        | Construct::Link
        | Construct::Image
        | Construct::Optional => true,
        _ => false,
    }
}

/// The text under construction once a list has opened.
pub open spec fn list_opened(draft: Draft, first: Option<u64>) -> Draft {
    Draft {
        lists: draft.lists.push(
            match first {
                Some(n) => Some(n as nat),
                None => None,
            },
        ),
        ..draft
    }
}

/// How one event changes the text under construction.
pub open spec fn absorb(draft: Draft, event: MarkdownEventView) -> Draft {
    if opens_block(event) {
        if draft.place == Place::Marker {
            draft
        } else {
            Draft { text: block_ended(draft.text), place: Place::Text, ..draft }
        }
    } else if closes_block(event) {
        Draft { text: block_ended(draft.text), place: Place::Text, ..draft }
    } else {
        match event {
            MarkdownEventView::Text(s) | MarkdownEventView::Code(s) => extended(draft, s),
            MarkdownEventView::SoftBreak => (Draft {
                text: draft.text.push(' '),
                place: Place::Text,
                ..draft
            }),
            MarkdownEventView::HardBreak | MarkdownEventView::End(Construct::Item) => (Draft {
                text: line_ended(draft.text),
                place: Place::Text,
                ..draft
            }),
            MarkdownEventView::StartList(first) => list_opened(draft, first),
            MarkdownEventView::Start(Construct::List) => list_opened(draft, None),
            MarkdownEventView::End(Construct::List) => if draft.lists.len() <= 1 {
                Draft { text: block_ended(draft.text), lists: Seq::empty(), place: Place::Text }
            } else {
                Draft { text: draft.text, lists: draft.lists.drop_last(), place: Place::InnerList }
            },
            MarkdownEventView::Start(Construct::Item) => (Draft {
                text: line_started(draft.text) + indent(draft.lists.len()) + marker(draft.lists),
                lists: counted(draft.lists),
                place: Place::Marker,
            }),
            _ => draft,
        }
    }
}

/// The text under construction after a list of events.
pub open spec fn drafted(events: Seq<MarkdownEventView>) -> Draft
    decreases events.len(),
{
    if events.len() == 0 {
        Draft { text: Seq::empty(), lists: Seq::empty(), place: Place::Text }
    } else {
        absorb(drafted(events.drop_last()), events.last())
    }
}

/// The plain text that a list of events comes to.
pub open spec fn rendered(events: Seq<MarkdownEventView>) -> Seq<char> {
    trimmed(drafted(events).text)
}

/// The numbers of the open lists, as the builder keeps them.
spec fn ordinals(lists: Seq<Option<u128>>) -> Seq<Option<nat>> {
    Seq::new(
        lists.len(),
        |i: int|
            match lists[i] {
                Some(n) => Some(n as nat),
                None => None,
            },
    )
}

/// Writes the beginning of a list item.
fn start_item(text: &mut String, lists: &mut Vec<Option<u128>>)
    requires
        forall|i: int|
            0 <= i < old(lists)@.len() ==> (#[trigger] old(lists)@[i] matches Some(n) ==> n
                < u128::MAX),
    ensures
        final(text)@ == line_started(old(text)@) + indent(old(lists)@.len()) + marker(
            ordinals(old(lists)@),
        ),
        ordinals(final(lists)@) == counted(ordinals(old(lists)@)),
        final(lists)@.len() == old(lists)@.len(),
        forall|i: int|
            0 <= i < old(lists)@.len() ==> (#[trigger] final(lists)@[i] matches Some(n) ==> (
            old(lists)@[i] matches Some(m) && n <= m + 1)),
{
    start_line(text);
    let ghost begun = text@;
    let depth: usize = lists.len();
    let mut level: usize = 1;
    assert(text@ =~= begun + indent(1));
    while level < depth
        invariant
            1 <= level,
            level <= depth || depth == 0,
            depth == 0 ==> level == 1,
            text@ == begun + indent(level as nat),
        decreases depth - level,
    {
        text.push(' ');
        text.push(' ');
        assert(text@ =~= begun + indent((level + 1) as nat));
        level += 1;
    }
    assert(text@ =~= begun + indent(depth as nat));
    let ghost padded = text@;
    let ghost before = lists@;
    if depth > 0 {
        if let Some(ordinal) = lists[depth - 1] {
            text.append(to_decimal(ordinal).as_str());
            text.push('.');
            text.push(' ');
            lists.set(depth - 1, Some(ordinal + 1));
            assert(text@ =~= padded + marker(ordinals(before)));
            assert(ordinals(lists@) =~= counted(ordinals(before)));
            return;
        }
    }
    text.push('-');
    text.push(' ');
    assert(text@ =~= padded + marker(ordinals(before)));
}

/// Writes a stretch of text, and gives what the end of the text is then.
fn extend(text: &mut String, place: Place, s: &str) -> (next: Place)
    ensures
        forall|lists: Seq<Option<nat>>|
            (Draft { text: final(text)@, lists, place: next }) == #[trigger] extended(
                Draft { text: old(text)@, lists, place },
                s@,
            ),
{
    if s.is_empty() {
        return place;
    }
    if place == Place::InnerList {
        end_block(text);
    }
    text.append(s);
    Place::Text
}

/// Makes room for a block, and gives what the end of the text is then.
fn open_block(text: &mut String, place: Place) -> (next: Place)
    ensures
        place == Place::Marker ==> final(text)@ == old(text)@ && next == Place::Marker,
        place != Place::Marker ==> final(text)@ == block_ended(old(text)@) && next == Place::Text,
{
    if place == Place::Marker {
        return place;
    }
    end_block(text);
    Place::Text
}

/// Builds the plain text that a list of events comes to.
pub fn render_events(events: &[MarkdownEvent]) -> (out: String)
    ensures
        out@ == rendered(event_views(events@)),
{
    let mut text = String::new();
    let mut lists: Vec<Option<u128>> = Vec::new();
    let mut place = Place::Text;
    let ghost views = event_views(events@);
    let mut i: usize = 0;
    assert(ordinals(lists@) =~= Seq::empty());
    while i < events.len()
        invariant
            i <= events@.len(),
            views == event_views(events@),
            text@ == drafted(views.take(i as int)).text,
            ordinals(lists@) == drafted(views.take(i as int)).lists,
            place == drafted(views.take(i as int)).place,
            forall|j: int|
                0 <= j < lists@.len() ==> (#[trigger] lists@[j] matches Some(n) ==> n <= u64::MAX
                    + i),
        decreases events@.len() - i,
    {
        let ghost prior = drafted(views.take(i as int));
        let ghost open = lists@;
        assert(views.take(i + 1).drop_last() =~= views.take(i as int));
        assert(drafted(views.take(i + 1)) == absorb(prior, events@[i as int]@));
        match &events[i] {
            MarkdownEvent::Text(s) => {
                place = extend(&mut text, place, s.as_str());
                assert(extended(prior, s@) == (Draft { text: text@, lists: prior.lists, place }));
            },
            MarkdownEvent::Code(s) => {
                place = extend(&mut text, place, s.as_str());
                assert(extended(prior, s@) == (Draft { text: text@, lists: prior.lists, place }));
            },
            MarkdownEvent::SoftBreak => {
                text.push(' ');
                place = Place::Text;
            },
            MarkdownEvent::HardBreak => {
                end_line(&mut text);
                place = Place::Text;
            },
            MarkdownEvent::Rule => {
                place = open_block(&mut text, place);
            },
            MarkdownEvent::StartList(first) => {
                let first: Option<u128> = match first {
                    Some(n) => Some(*n as u128),
                    None => None,
                };
                lists.push(first);
                assert(ordinals(lists@) =~= absorb(prior, events@[i as int]@).lists);
            },
            MarkdownEvent::Start(construct) => match construct {
                Construct::List => {
                    lists.push(None);
                    assert(ordinals(lists@) =~= absorb(prior, events@[i as int]@).lists);
                },
                Construct::Item => {
                    start_item(&mut text, &mut lists);
                    place = Place::Marker;
                    assert forall|j: int| 0 <= j < lists@.len() implies (
                    #[trigger] lists@[j] matches Some(n) ==> n <= u64::MAX + i + 1) by {
                        assert(open[j] matches Some(n) ==> n <= u64::MAX + i);
                    }
                },
                Construct::Paragraph
                | Construct::Heading
                | Construct::CodeBlock
                | Construct::BlockQuote
                | Construct::HtmlBlock => {
                    place = open_block(&mut text, place);
                },
                _ => {},
            },
            MarkdownEvent::End(construct) => match construct {
                Construct::List => {
                    let closed = lists.pop();
                    if lists.len() == 0 {
                        end_block(&mut text);
                        place = Place::Text;
                    } else {
                        place = Place::InnerList;
                    }
                    assert(ordinals(lists@) =~= absorb(prior, events@[i as int]@).lists);
                },
                Construct::Item => {
                    end_line(&mut text);
                    place = Place::Text;
                },
                Construct::Paragraph | Construct::Heading | Construct::CodeBlock => {
                    end_block(&mut text);
                    place = Place::Text;
                },
                _ => {},
            },
            MarkdownEvent::Html | MarkdownEvent::InlineHtml | MarkdownEvent::Extension => {},
        }
        i += 1;
    }
    assert(views.take(views.len() as int) =~= views);
    let chars = to_chars(text.as_str());
    from_chars(trim(chars.as_slice()))
}

/// Convert markdown to plain text suitable for display in a read-only text field.
///
/// Headings, paragraphs, code blocks, and lists each become a block separated by a blank line.
/// List items carry a `- ` or `N. ` marker and are indented two spaces per nesting level. Wrapped
/// source lines are joined with a space. Every other construct contributes only the text it wraps,
/// so emphasis markers and link targets are dropped.
#[must_use]
pub fn markdown_to_text(markdown: &str) -> (out: String)
    ensures
        out@ == rendered(markdown_events(markdown@)),
{
    let events = parse_markdown(markdown);
    render_events(events.as_slice())
}

/// Spaces and line feeds at the end make no difference to what is kept.
proof fn lemma_unpadded_again(text: Seq<char>, padding: Seq<char>)
    requires
        forall|i: int| 0 <= i < padding.len() ==> blank()(padding[i]),
    ensures
        unpadded(unpadded(text) + padding) == unpadded(text),
{
    lemma_drop_trailing(text, blank());
    lemma_drop_suffix(unpadded(text), padding, blank());
}

/// A closed line ends with one newline and no more, and nothing but blanks comes to nothing.
pub proof fn law_line_ends_with_one_newline(text: Seq<char>)
    ensures
        line_ended(text).len() == 0 || (line_ended(text).len() >= 2 && line_ended(text).last()
            == '\n' && line_ended(text)[line_ended(text).len() - 2] != '\n'),
        line_ended(line_ended(text)) == line_ended(text),
{
    lemma_drop_trailing(text, blank());
    lemma_unpadded_again(text, seq!['\n']);
    lemma_unpadded_again(text, Seq::empty());
    let kept = unpadded(text);
    assert(kept + Seq::<char>::empty() =~= kept);
    assert(kept.push('\n') =~= kept + seq!['\n']);
}

/// A closed block is followed by one blank line and no more, and nothing but blanks comes to
/// nothing.
pub proof fn law_block_ends_with_one_blank_line(text: Seq<char>)
    ensures
        block_ended(text).len() == 0 || (block_ended(text).len() >= 3 && block_ended(text).last()
            == '\n' && block_ended(text)[block_ended(text).len() - 2] == '\n' && block_ended(
            text,
        )[block_ended(text).len() - 3] != '\n'),
        block_ended(block_ended(text)) == block_ended(text),
{
    lemma_drop_trailing(text, blank());
    lemma_unpadded_again(text, seq!['\n', '\n']);
    lemma_unpadded_again(text, Seq::empty());
    let kept = unpadded(text);
    assert(kept + Seq::<char>::empty() =~= kept);
}

/// Moving to the start of a line keeps everything that is there, blank lines as well.
pub proof fn law_line_start_keeps_the_text(text: Seq<char>)
    ensures
        line_started(text).len() == 0 || line_started(text).last() == '\n',
        line_started(text) == text || line_started(text) == text.push('\n'),
        line_started(line_started(text)) == line_started(text),
{
}

/// A paragraph that ends a list item leaves no trace: a loose list reads like a tight one.
pub proof fn law_loose_lists_read_like_tight_ones(draft: Draft)
    ensures
        absorb(
            absorb(draft, MarkdownEventView::End(Construct::Paragraph)),
            MarkdownEventView::End(Construct::Item),
        ) == absorb(draft, MarkdownEventView::End(Construct::Item)),
{
    lemma_drop_trailing(draft.text, blank());
    lemma_unpadded_again(draft.text, seq!['\n', '\n']);
    lemma_unpadded_again(draft.text, Seq::empty());
    let kept = unpadded(draft.text);
    assert(kept + Seq::<char>::empty() =~= kept);
}

/// Whether the text that a list of events comes to ends with the marker of a list item: since the
/// item began there has been no text, and nothing else that closes or breaks a line.
pub open spec fn at_marker(events: Seq<MarkdownEventView>) -> bool
    decreases events.len(),
{
    events.len() > 0 && match events.last() {
        MarkdownEventView::Start(Construct::Item) => true,
        MarkdownEventView::Text(s) | MarkdownEventView::Code(s) => s.len() == 0 && at_marker(
            events.drop_last(),
        ),
        MarkdownEventView::StartList(_) | MarkdownEventView::Start(Construct::List) => at_marker(
            events.drop_last(),
        ),
        event => (opens_block(event) || adds_nothing(event)) && at_marker(events.drop_last()),
    }
}

/// Whether the last line of a text is an indented marker and nothing else.
pub open spec fn only_marker(text: Seq<char>) -> bool {
    exists|begun: Seq<char>, lists: Seq<Option<nat>>|
        text == #[trigger] (line_started(begun) + indent(lists.len()) + marker(lists))
}

proof fn lemma_at_marker(events: Seq<MarkdownEventView>)
    ensures
        drafted(events).place == Place::Marker <==> at_marker(events),
        at_marker(events) ==> only_marker(drafted(events).text),
    decreases events.len(),
{
    if events.len() > 0 {
        lemma_at_marker(events.drop_last());
        let prior = drafted(events.drop_last());
        if events.last() == MarkdownEventView::Start(Construct::Item) {
            assert(drafted(events).text == line_started(prior.text) + indent(prior.lists.len())
                + marker(prior.lists));
        }
    }
}

/// A block never shares a line with text before it, other than an item's marker: when it opens,
/// the text is empty, or ends with a blank line, or its last line is a marker and nothing else,
/// which is so exactly when nothing has come since the item began. No visible character is lost.
pub proof fn law_blocks_stand_apart(events: Seq<MarkdownEventView>, event: MarkdownEventView)
    requires
        opens_block(event),
    ensures
        ({
            let text = drafted(events).text;
            let opened = drafted(events.push(event)).text;
            &&& at_marker(events) ==> opened == text && only_marker(text)
            &&& !at_marker(events) ==> opened.len() == 0 || ends(opened, seq!['\n', '\n'])
            &&& unpadded(opened) == unpadded(text)
        }),
{
    let text = drafted(events).text;
    let more = events.push(event);
    assert(more.drop_last() =~= events);
    lemma_at_marker(events);
    lemma_unpadded_again(text, seq!['\n', '\n']);
    lemma_unpadded_again(text, Seq::empty());
    let kept = unpadded(text);
    assert(kept + Seq::<char>::empty() =~= kept);
    let opened = drafted(more).text;
    assert(drafted(more) == absorb(drafted(events), event));
    if !at_marker(events) && opened.len() > 0 {
        assert(opened.subrange(opened.len() - 2, opened.len() as int) =~= seq!['\n', '\n']);
    }
}

/// Headings, paragraphs and code blocks open and close as blocks, and a list outside any other
/// closes as one.
pub proof fn law_what_is_a_block(construct: Construct, draft: Draft)
    ensures
        construct == Construct::Paragraph || construct == Construct::Heading || construct
            == Construct::CodeBlock ==> opens_block(MarkdownEventView::Start(construct))
            && closes_block(MarkdownEventView::End(construct)),
        draft.lists.len() == 1 ==> absorb(
            draft,
            MarkdownEventView::End(Construct::List),
        ).text == block_ended(draft.text),
{
}

/// Where a list within an item has ended and the item goes on, the text that comes next stands
/// apart from the list as a block does.
pub proof fn law_text_stands_apart_from_inner_lists(
    events: Seq<MarkdownEventView>,
    text: Seq<char>,
)
    requires
        drafted(events).lists.len() > 1,
        text.len() > 0,
    ensures
        drafted(
            events + seq![
                MarkdownEventView::End(Construct::List),
                MarkdownEventView::Text(text),
            ],
        ).text == block_ended(drafted(events).text) + text,
{
    let all = events + seq![
                MarkdownEventView::End(Construct::List),
                MarkdownEventView::Text(text),
            ];
    let closed = events.push(MarkdownEventView::End(Construct::List));
    assert(all.drop_last() =~= closed);
    assert(closed.drop_last() =~= events);
    assert(drafted(closed) == absorb(drafted(events), MarkdownEventView::End(Construct::List)));
    assert(all.last() == MarkdownEventView::Text(text));
}

/// Events that add nothing can be left out: every construct that is not a block, a list or an item
/// contributes only the text it wraps, and HTML contributes nothing.
pub proof fn law_other_events_add_nothing(
    before: Seq<MarkdownEventView>,
    event: MarkdownEventView,
    after: Seq<MarkdownEventView>,
)
    requires
        adds_nothing(event),
    ensures
        rendered(before + seq![event] + after) == rendered(before + after),
{
    lemma_other_adds_nothing(before, event, after);
}

proof fn lemma_other_adds_nothing(
    before: Seq<MarkdownEventView>,
    event: MarkdownEventView,
    after: Seq<MarkdownEventView>,
)
    requires
        adds_nothing(event),
    ensures
        drafted(before + seq![event] + after) == drafted(before + after),
    decreases after.len(),
{
    let with = before + seq![event] + after;
    let without = before + after;
    if after.len() == 0 {
        assert(with.drop_last() =~= before);
        assert(with.last() == event);
        assert(without =~= before);
    } else {
        lemma_other_adds_nothing(before, event, after.drop_last());
        assert(with.drop_last() =~= before + seq![event] + after.drop_last());
        assert(without.drop_last() =~= before + after.drop_last());
        assert(with.last() == after.last());
        assert(without.last() == after.last());
    }
}

/// The finished text has no white space at either end.
pub proof fn law_text_is_trimmed(events: Seq<MarkdownEventView>)
    ensures
        trimmed(rendered(events)) == rendered(events),
{
    law_trimming_is_thorough(drafted(events).text);
}

/// The number of items that a list of events opens.
pub open spec fn items(events: Seq<MarkdownEventView>) -> nat
    decreases events.len(),
{
    if events.len() == 0 {
        0
    } else {
        items(events.drop_last()) + (if events.last() == MarkdownEventView::Start(Construct::Item) {
            1nat
        } else {
            0nat
        })
    }
}

/// Whether an event opens or closes a list.
pub open spec fn turns_list(event: MarkdownEventView) -> bool {
    event is StartList || event == MarkdownEventView::Start(Construct::List) || event
        == MarkdownEventView::End(Construct::List)
}

/// Whether no list opens or closes.
pub open spec fn same_list(events: Seq<MarkdownEventView>) -> bool {
    forall|i: int| 0 <= i < events.len() ==> !turns_list(#[trigger] events[i])
}

/// The items of a numbered list count up from its first number: after any events within it, its
/// next item gets that number plus the items so far.
pub proof fn law_items_count_up(
    before: Seq<MarkdownEventView>,
    first: u64,
    within: Seq<MarkdownEventView>,
)
    requires
        same_list(within),
    ensures
        ({
            let lists = drafted(
                before + seq![MarkdownEventView::StartList(Some(first))] + within,
            ).lists;
            &&& lists.len() > 0
            &&& lists.last() == Some((first + items(within)) as nat)
        }),
    decreases within.len(),
{
    let all = before + seq![MarkdownEventView::StartList(Some(first))] + within;
    if within.len() == 0 {
        assert(all.drop_last() =~= before);
    } else {
        let init = within.drop_last();
        assert forall|i: int| 0 <= i < init.len() implies !turns_list(#[trigger] init[i]) by {
            assert(init[i] == within[i]);
        }
        law_items_count_up(before, first, init);
        assert(all.drop_last() =~= before + seq![MarkdownEventView::StartList(Some(first))]
            + init);
        assert(all.last() == within.last());
        assert(within[within.len() - 1] == within.last());
    }
}

/// One more event is one more change.
proof fn lemma_one_more(events: Seq<MarkdownEventView>, event: MarkdownEventView)
    ensures
        drafted(events.push(event)) == absorb(drafted(events), event),
{
    let more = events.push(event);
    assert(more.drop_last() =~= events);
    assert(more.last() == event);
}

/// Wrapped source lines are joined with a space: wherever it stands, inside or outside any list, a
/// soft break and a stretch of text or code behind it add one space and that stretch, and nothing
/// else changes.
pub proof fn law_wrapped_lines_are_joined_with_a_space(
    events: Seq<MarkdownEventView>,
    t: Seq<char>,
)
    requires
        t.len() > 0,
    ensures
        drafted(
            events + seq![MarkdownEventView::SoftBreak, MarkdownEventView::Text(t)],
        ).text == drafted(events).text + seq![' '] + t,
        drafted(
            events + seq![MarkdownEventView::SoftBreak, MarkdownEventView::Code(t)],
        ).text == drafted(events).text + seq![' '] + t,
        drafted(events.push(MarkdownEventView::SoftBreak)).lists == drafted(events).lists,
{
    let broken = events.push(MarkdownEventView::SoftBreak);
    lemma_one_more(events, MarkdownEventView::SoftBreak);
    lemma_one_more(broken, MarkdownEventView::Text(t));
    lemma_one_more(broken, MarkdownEventView::Code(t));
    assert(events + seq![MarkdownEventView::SoftBreak, MarkdownEventView::Text(t)]
        =~= broken.push(MarkdownEventView::Text(t)));
    assert(events + seq![MarkdownEventView::SoftBreak, MarkdownEventView::Code(t)]
        =~= broken.push(MarkdownEventView::Code(t)));
    let text = drafted(events).text;
    assert(text.push(' ') + t =~= text + seq![' '] + t);
}

/// Whether a list within an item of another has just ended: since then there has been no text, and
/// nothing else that closes or breaks a line.
pub open spec fn behind_inner_list(events: Seq<MarkdownEventView>) -> bool
    decreases events.len(),
{
    events.len() > 0 && match events.last() {
        MarkdownEventView::End(Construct::List) => open_lists(events) > 0,
        MarkdownEventView::Text(s) | MarkdownEventView::Code(s) => s.len() == 0
            && behind_inner_list(events.drop_last()),
        MarkdownEventView::StartList(_)
        | MarkdownEventView::Start(Construct::List) => behind_inner_list(events.drop_last()),
        event => adds_nothing(event) && behind_inner_list(events.drop_last()),
    }
}

/// The number of lists that are open after a list of events.
pub open spec fn open_lists(events: Seq<MarkdownEventView>) -> nat
    decreases events.len(),
{
    if events.len() == 0 {
        0
    } else {
        let before = open_lists(events.drop_last());
        match events.last() {
            MarkdownEventView::StartList(_) | MarkdownEventView::Start(Construct::List) => before
                + 1,
            MarkdownEventView::End(Construct::List) => if before > 0 {
                (before - 1) as nat
            } else {
                0
            },
            _ => before,
        }
    }
}

proof fn lemma_open_lists(events: Seq<MarkdownEventView>)
    ensures
        drafted(events).lists.len() == open_lists(events),
        drafted(events).place == Place::InnerList <==> behind_inner_list(events),
    decreases events.len(),
{
    if events.len() > 0 {
        lemma_open_lists(events.drop_last());
    }
}

/// Text is kept: a stretch of it is put behind what is there, character by character, and so is
/// inline code. Only behind a list that ended within an item does a blank line come between.
pub proof fn law_text_is_kept(events: Seq<MarkdownEventView>, t: Seq<char>)
    ensures
        !behind_inner_list(events) ==> drafted(events.push(MarkdownEventView::Text(t))).text
            == drafted(events).text + t,
        behind_inner_list(events) && t.len() > 0 ==> drafted(
            events.push(MarkdownEventView::Text(t)),
        ).text == block_ended(drafted(events).text) + t,
        drafted(events.push(MarkdownEventView::Code(t))) == drafted(
            events.push(MarkdownEventView::Text(t)),
        ),
{
    lemma_open_lists(events);
    lemma_one_more(events, MarkdownEventView::Text(t));
    lemma_one_more(events, MarkdownEventView::Code(t));
    if t.len() == 0 {
        assert(drafted(events).text + t =~= drafted(events).text);
    }
}

/// Closing a line or a block keeps the text up to its last visible character and puts one or two
/// line feeds behind it; where there is nothing visible, nothing is left.
pub proof fn law_closing_keeps_the_text(kept: Seq<char>, padding: Seq<char>)
    requires
        kept.len() > 0 ==> kept.last() != ' ' && kept.last() != '\n',
        forall|i: int| 0 <= i < padding.len() ==> #[trigger] padding[i] == ' ' || padding[i] == '\n',
    ensures
        unpadded(kept + padding) == kept,
        kept.len() > 0 ==> line_ended(kept + padding) == kept + seq!['\n'],
        kept.len() > 0 ==> block_ended(kept + padding) == kept + seq!['\n', '\n'],
        line_ended(padding) == Seq::<char>::empty(),
        block_ended(padding) == Seq::<char>::empty(),
{
    let none = Seq::<char>::empty();
    assert forall|i: int| 0 <= i < padding.len() implies blank()(padding[i]) by {
        assert(padding[i] == ' ' || padding[i] == '\n');
    }
    lemma_drop_suffix(kept, padding, blank());
    lemma_drop_suffix(none, padding, blank());
    assert(none + padding =~= padding);
    assert(drop_trailing(none, blank()) == none);
    assert(drop_trailing(kept, blank()) == kept);
    assert(kept.push('\n') =~= kept + seq!['\n']);
}

/// What closes what: a hard break and the end of an item close the line; the end of a paragraph, a
/// heading or a code block, and of a list that stands in no other, close the block; the end of any
/// other list leaves the text as it is.
pub proof fn law_ends_close_lines_and_blocks(events: Seq<MarkdownEventView>)
    ensures
        ({
            let text = drafted(events).text;
            let after = |event: MarkdownEventView| drafted(events.push(event)).text;
            &&& after(MarkdownEventView::HardBreak) == line_ended(text)
            &&& after(MarkdownEventView::End(Construct::Item)) == line_ended(text)
            &&& after(MarkdownEventView::End(Construct::Paragraph)) == block_ended(text)
            &&& after(MarkdownEventView::End(Construct::Heading)) == block_ended(text)
            &&& after(MarkdownEventView::End(Construct::CodeBlock)) == block_ended(text)
            &&& open_lists(events) <= 1 ==> after(MarkdownEventView::End(Construct::List))
                == block_ended(text)
            &&& open_lists(events) > 1 ==> after(MarkdownEventView::End(Construct::List)) == text
        }),
{
    lemma_open_lists(events);
    lemma_one_more(events, MarkdownEventView::HardBreak);
    lemma_one_more(events, MarkdownEventView::End(Construct::Item));
    lemma_one_more(events, MarkdownEventView::End(Construct::Paragraph));
    lemma_one_more(events, MarkdownEventView::End(Construct::Heading));
    lemma_one_more(events, MarkdownEventView::End(Construct::CodeBlock));
    lemma_one_more(events, MarkdownEventView::End(Construct::List));
}

/// Items of a bulleted list begin on a line of their own with two spaces for each list around
/// theirs, and a dash; those of a numbered list with their number in place of the dash, counting up
/// from the list's first.
pub proof fn law_items_carry_their_markers(
    before: Seq<MarkdownEventView>,
    first: u64,
    within: Seq<MarkdownEventView>,
)
    requires
        same_list(within),
    ensures
        ({
            let bulleted = before + seq![MarkdownEventView::StartList(None)] + within;
            let numbered = before + seq![MarkdownEventView::StartList(Some(first))] + within;
            let spaces = Seq::new(2 * open_lists(before), |i: int| ' ');
            &&& drafted(bulleted.push(MarkdownEventView::Start(Construct::Item))).text
                == line_started(drafted(bulleted).text) + spaces + seq!['-', ' ']
            &&& drafted(numbered.push(MarkdownEventView::Start(Construct::Item))).text
                == line_started(drafted(numbered).text) + spaces + (decimal(
                (first + items(within)) as nat,
            ) + seq!['.', ' '])
        }),
{
    let bulleted = before + seq![MarkdownEventView::StartList(None)] + within;
    let numbered = before + seq![MarkdownEventView::StartList(Some(first))] + within;
    let spaces = Seq::new(2 * open_lists(before), |i: int| ' ');
    law_items_count_up(before, first, within);
    lemma_within(before, None, within);
    lemma_within(before, Some(first), within);
    lemma_open_lists(before);
    lemma_one_more(bulleted, MarkdownEventView::Start(Construct::Item));
    lemma_one_more(numbered, MarkdownEventView::Start(Construct::Item));
    assert(indent(open_lists(before) + 1) =~= spaces);
}

/// Within a list, the lists around it stay as they were, and a bulleted one stays bulleted.
proof fn lemma_within(
    before: Seq<MarkdownEventView>,
    first: Option<u64>,
    within: Seq<MarkdownEventView>,
)
    requires
        same_list(within),
    ensures
        ({
            let lists = drafted(before + seq![MarkdownEventView::StartList(first)] + within).lists;
            &&& lists.len() == drafted(before).lists.len() + 1
            &&& lists.drop_last() == drafted(before).lists
            &&& first is None ==> lists.last() is None
        }),
    decreases within.len(),
{
    let all = before + seq![MarkdownEventView::StartList(first)] + within;
    if within.len() == 0 {
        assert(all =~= before.push(MarkdownEventView::StartList(first)));
        lemma_one_more(before, MarkdownEventView::StartList(first));
        assert(drafted(all).lists.drop_last() =~= drafted(before).lists);
    } else {
        let init = within.drop_last();
        assert forall|i: int| 0 <= i < init.len() implies !turns_list(#[trigger] init[i]) by {
            assert(init[i] == within[i]);
        }
        lemma_within(before, first, init);
        let prior = before + seq![MarkdownEventView::StartList(first)] + init;
        assert(!turns_list(within[within.len() - 1]));
        assert(all =~= prior.push(within.last()));
        lemma_one_more(prior, within.last());
        assert(drafted(all).lists.drop_last() =~= drafted(before).lists);
    }
}

/// An event never touches the lists around the innermost: they go on counting where they were, once
/// the inner one has ended.
pub proof fn law_outer_lists_wait(draft: Draft, event: MarkdownEventView)
    requires
        draft.lists.len() > 0,
    ensures
        event == MarkdownEventView::End(Construct::List) ==> absorb(draft, event).lists
            == draft.lists.drop_last(),
        event != MarkdownEventView::End(Construct::List) ==> absorb(draft, event).lists.len()
            >= draft.lists.len() && absorb(draft, event).lists.take(draft.lists.len() - 1)
            == draft.lists.drop_last(),
{
    let next = absorb(draft, event).lists;
    if event == MarkdownEventView::End(Construct::List) {
        assert(next =~= draft.lists.drop_last());
    } else {
        assert(next.take(draft.lists.len() - 1) =~= draft.lists.drop_last());
    }
}

/// The finished text is the one that was built, but for the white space at its two ends.
pub proof fn law_nothing_but_white_space_is_cut(events: Seq<MarkdownEventView>)
    ensures
        exists|a: Seq<char>, b: Seq<char>|
            all_white(a) && all_white(b) && drafted(events).text == #[trigger] (a + rendered(events)
                + b),
{
    let text = drafted(events).text;
    law_trimming_leaves_the_middle(text);
    let (a, b) = choose|a: Seq<char>, b: Seq<char>|
        all_white(a) && all_white(b) && text == #[trigger] (a + trimmed(text) + b);
    assert(text == a + rendered(events) + b);
}

/// Block quotes, blocks of HTML and rules set apart what stands around them, like the blocks that
/// show text. Emphasis, links, images and HTML within a line add nothing of their own, nor do HTML
/// itself and the end of what only wraps other blocks.
pub proof fn law_what_shows_nothing(construct: Construct)
    ensures
        opens_block(MarkdownEventView::Start(Construct::BlockQuote)),
        opens_block(MarkdownEventView::Start(Construct::HtmlBlock)),
        opens_block(MarkdownEventView::Rule),
        adds_nothing(MarkdownEventView::End(Construct::BlockQuote)),
        adds_nothing(MarkdownEventView::End(Construct::HtmlBlock)),
        adds_nothing(MarkdownEventView::Html),
        adds_nothing(MarkdownEventView::InlineHtml),
        adds_nothing(MarkdownEventView::Extension),
        construct == Construct::Emphasis || construct == Construct::Strong || construct
            == Construct::Link || construct == Construct::Image || construct == Construct::Optional
            ==> adds_nothing(MarkdownEventView::Start(construct)) && adds_nothing(
            MarkdownEventView::End(construct),
        ),
{
}

/// Two paragraphs come out as two blocks with one blank line between them, the wrapped lines of the
/// first joined with a space.
pub proof fn law_paragraphs_are_set_apart(a: Seq<char>, b: Seq<char>, c: Seq<char>)
    requires
        a.len() > 0,
        !is_white(a[0]),
        b.len() > 0,
        !is_white(b.last()),
        c.len() > 0,
        !is_white(c.last()),
    ensures
        rendered(
            seq![
                MarkdownEventView::Start(Construct::Paragraph),
                MarkdownEventView::Text(a),
                MarkdownEventView::SoftBreak,
                MarkdownEventView::Text(b),
                MarkdownEventView::End(Construct::Paragraph),
                MarkdownEventView::Start(Construct::Paragraph),
                MarkdownEventView::Text(c),
                MarkdownEventView::End(Construct::Paragraph),
            ],
        ) == a + seq![' '] + b + seq!['\n', '\n'] + c,
{
    let open = MarkdownEventView::Start(Construct::Paragraph);
    let close = MarkdownEventView::End(Construct::Paragraph);
    let none = Seq::<char>::empty();
    let gap = seq!['\n', '\n'];
    let first = a + seq![' '] + b;
    let e0 = Seq::<MarkdownEventView>::empty();
    let e1 = e0.push(open);
    let e2 = e1.push(MarkdownEventView::Text(a));
    let e3 = e2.push(MarkdownEventView::SoftBreak);
    let e4 = e3.push(MarkdownEventView::Text(b));
    let e5 = e4.push(close);
    let e6 = e5.push(open);
    let e7 = e6.push(MarkdownEventView::Text(c));
    let e8 = e7.push(close);
    lemma_one_more(e0, open);
    lemma_one_more(e1, MarkdownEventView::Text(a));
    lemma_one_more(e2, MarkdownEventView::SoftBreak);
    lemma_one_more(e3, MarkdownEventView::Text(b));
    lemma_one_more(e4, close);
    lemma_one_more(e5, open);
    lemma_one_more(e6, MarkdownEventView::Text(c));
    lemma_one_more(e7, close);
    law_closing_keeps_the_text(none, none);
    assert(drafted(e0).text == none);
    assert(drafted(e1).text == none);
    assert(drafted(e2).text =~= a);
    assert(drafted(e4).text =~= first);
    law_closing_keeps_the_text(first, none);
    assert(first + none =~= first);
    assert(drafted(e5).text == first + gap);
    law_closing_keeps_the_text(first, gap);
    assert(drafted(e6).text == first + gap);
    let both = first + gap + c;
    law_closing_keeps_the_text(both, none);
    assert(both + none =~= both);
    assert(drafted(e8).text == both + gap);
    law_trimming_takes_only_white_space(none, both, gap);
    assert(none + both + gap =~= both + gap);
    assert(e8 =~= seq![
        open,
        MarkdownEventView::Text(a),
        MarkdownEventView::SoftBreak,
        MarkdownEventView::Text(b),
        close,
        open,
        MarkdownEventView::Text(c),
        close,
    ]);
}

/// Moving to the start of a line closes an open line and does nothing else.
pub proof fn law_lines_start_where_lines_ended(text: Seq<char>, c: char)
    ensures
        line_started(Seq::empty()) == Seq::<char>::empty(),
        line_started(text.push('\n')) == text.push('\n'),
        c != '\n' ==> line_started(text.push(c)) == text.push(c).push('\n'),
{
}

/// A list opens within those that are open; without a first number it is a bulleted one.
pub proof fn law_lists_open_within_others(
    events: Seq<MarkdownEventView>,
    first: Option<u64>,
    number: u64,
)
    ensures
        ({
            let lists = drafted(events).lists;
            let opened = drafted(events.push(MarkdownEventView::StartList(first)));
            &&& opened.lists.len() == lists.len() + 1
            &&& opened.lists.drop_last() == lists
            &&& opened.text == drafted(events).text
            &&& first is None ==> opened.lists.last() is None
            &&& first == Some(number) ==> opened.lists.last() == Some(number as nat)
        }),
        drafted(events.push(MarkdownEventView::Start(Construct::List))) == drafted(
            events.push(MarkdownEventView::StartList(None)),
        ),
{
    lemma_one_more(events, MarkdownEventView::StartList(first));
    lemma_one_more(events, MarkdownEventView::StartList(None));
    lemma_one_more(events, MarkdownEventView::Start(Construct::List));
    let opened = drafted(events.push(MarkdownEventView::StartList(first)));
    assert(opened.lists.drop_last() =~= drafted(events).lists);
}

/// The number of open lists goes up with each that opens and down with each that ends, and nothing
/// else changes it.
pub proof fn law_open_lists_are_counted(events: Seq<MarkdownEventView>)
    ensures
        drafted(events).lists.len() == open_lists(events),
{
    lemma_open_lists(events);
}

/// Events are seen as they are, one by one.
pub proof fn law_events_are_seen_as_they_are(
    events: Seq<MarkdownEvent>,
    more: MarkdownEvent,
    s: String,
    first: Option<u64>,
    construct: Construct,
)
    ensures
        event_views(Seq::empty()) == Seq::<MarkdownEventView>::empty(),
        event_views(events.push(more)) == event_views(events).push(more@),
        MarkdownEvent::Text(s)@ == MarkdownEventView::Text(s@),
        MarkdownEvent::Code(s)@ == MarkdownEventView::Code(s@),
        MarkdownEvent::SoftBreak@ is SoftBreak,
        MarkdownEvent::HardBreak@ is HardBreak,
        MarkdownEvent::Rule@ is Rule,
        MarkdownEvent::StartList(first)@ == MarkdownEventView::StartList(first),
        MarkdownEvent::Start(construct)@ == MarkdownEventView::Start(construct),
        MarkdownEvent::End(construct)@ == MarkdownEventView::End(construct),
{
    assert(event_views(events.push(more)) =~= event_views(events).push(more@));
}

/// Every item, wherever its list stands and whatever came before it, begins on a line of its own,
/// with two spaces for each list around its own and its marker, and uses up one number of its own
/// list. An item outside any list has a dash.
pub proof fn law_items_begin_on_lines_of_their_own(events: Seq<MarkdownEventView>, number: nat)
    ensures
        ({
            let draft = drafted(events);
            let begun = drafted(events.push(MarkdownEventView::Start(Construct::Item)));
            let spaces = Seq::new((2 * (draft.lists.len() - 1)) as nat, |i: int| ' ');
            &&& draft.lists.len() == 0 ==> begun.text == line_started(draft.text) + seq!['-', ' ']
                && begun.lists == draft.lists
            &&& draft.lists.len() > 0 && draft.lists.last() is None ==> begun.text == line_started(
                draft.text,
            ) + spaces + seq!['-', ' '] && begun.lists == draft.lists
            &&& draft.lists.len() > 0 && draft.lists.last() == Some(number) ==> begun.text
                == line_started(draft.text) + spaces + (decimal(number) + seq!['.', ' '])
                && begun.lists == draft.lists.update(draft.lists.len() - 1, Some(number + 1))
        }),
{
    let draft = drafted(events);
    lemma_one_more(events, MarkdownEventView::Start(Construct::Item));
    let begun = drafted(events.push(MarkdownEventView::Start(Construct::Item)));
    let spaces = Seq::new((2 * (draft.lists.len() - 1)) as nat, |i: int| ' ');
    if draft.lists.len() == 0 {
        assert(begun.text =~= line_started(draft.text) + seq!['-', ' ']);
    } else {
        assert(indent(draft.lists.len()) =~= spaces);
        if draft.lists.last() == Some(number) {
            assert(begun.lists =~= draft.lists.update(draft.lists.len() - 1, Some(number + 1)));
        }
    }
}

/// Only items use up numbers, and only lists open and close lists: any other event leaves the open
/// lists as they are.
pub proof fn law_other_events_leave_the_lists(
    events: Seq<MarkdownEventView>,
    event: MarkdownEventView,
)
    requires
        !turns_list(event),
        event != MarkdownEventView::Start(Construct::Item),
    ensures
        drafted(events.push(event)).lists == drafted(events).lists,
{
    lemma_one_more(events, event);
}

/// A block that opens behind other text closes what is there as a block, with one blank line and no
/// more, and text without characters changes nothing.
pub proof fn law_one_blank_line_comes_before_a_block(
    events: Seq<MarkdownEventView>,
    event: MarkdownEventView,
)
    requires
        opens_block(event),
    ensures
        !at_marker(events) ==> drafted(events.push(event)).text == block_ended(
            drafted(events).text,
        ),
        drafted(events.push(MarkdownEventView::Text(Seq::empty()))) == drafted(events),
{
    lemma_at_marker(events);
    lemma_one_more(events, event);
    lemma_one_more(events, MarkdownEventView::Text(Seq::empty()));
}

} // verus!
