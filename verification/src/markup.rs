//! Markdown to Kakoune markup.
//!
//! The parse-event types, the brace-escaping rule of the markup dialect,
//! the trusted boundary to the Markdown parser, and the public transpile
//! entry points.

use vstd::prelude::*;
use vstd::string::StrSliceExecFns;

use crate::text::push_char;
use crate::transpile::lemma_balanced_events_close_all_scopes;
use crate::transpile::render_events;
use crate::transpile::transpile_events;
use crate::transpile::wf_events;

verus! {

/// A structural Markdown tag, as far as the transpiler distinguishes them.
/// Tags it does not support (tables, footnote definitions) all map to
/// `Other` and are skipped.
pub enum MarkupTag {
    Paragraph,
    /// Heading with its level.
    Heading(u32),
    BlockQuote,
    CodeBlock,
    /// A list; `Some` carries the first ordinal of an ordered list, `None`
    /// marks an unordered one.
    List(Option<u64>),
    Item,
    Emphasis,
    Strong,
    Strikethrough,
    Link,
    Image,
    Other,
}

/// One event of a Markdown parse stream.
pub enum ParseEvent {
    Start(MarkupTag),
    End(MarkupTag),
    Text(String),
    Code(String),
    Html(String),
    FootnoteReference,
    SoftBreak,
    HardBreak,
    Rule,
    TaskListMarker,
}

/// How one character is written in markup text: a literal opening brace is
/// escaped so it cannot start a face directive; every other character,
/// closing braces included, stands for itself.
pub open spec fn esc_char(c: char) -> Seq<char> {
    if c == '{' {
        seq!['\\', '{']
    } else {
        seq![c]
    }
}

/// The brace-escaped form of a text.
pub open spec fn escaped(s: Seq<char>) -> Seq<char>
    decreases s.len(),
{
    if s.len() == 0 {
        Seq::empty()
    } else {
        escaped(s.drop_last()) + esc_char(s.last())
    }
}

/// Escape opening braces for Kakoune markup strings.
pub fn escape_brace(s: &str) -> (r: String)
    ensures
        r@ == escaped(s@),
{
    let n: usize = s.unicode_len();
    let mut r = String::new();
    proof {
        assert(s@.take(0) =~= Seq::<char>::empty());
    }
    let mut i: usize = 0;
    while i < n
        invariant
            n == s@.len(),
            0 <= i <= n,
            r@ == escaped(s@.take(i as int)),
        decreases n - i,
    {
        let c = s.get_char(i);
        if c == '{' {
            push_char(&mut r, '\\');
            push_char(&mut r, '{');
        } else {
            push_char(&mut r, c);
        }
        proof {
            assert(s@.take(i + 1).drop_last() =~= s@.take(i as int));
            assert(s@.take(i + 1).last() == s@[i as int]);
            assert(r@ =~= escaped(s@.take(i as int)) + esc_char(s@[i as int]));
        }
        i = i + 1;
    }
    proof {
        assert(s@.take(n as int) =~= s@);
    }
    r
}

#[verifier::external_type_specification]
#[verifier::external_body]
pub struct ExEvent<'a>(pulldown_cmark::Event<'a>);

#[verifier::external_type_specification]
#[verifier::external_body]
pub struct ExTag<'a>(pulldown_cmark::Tag<'a>);

/// The event stream that pulldown_cmark's parser yields for a Markdown
/// text, translated to `ParseEvent`.  The parser is deterministic, so the
/// stream is a function of the text alone.
pub uninterp spec fn events_of(s: Seq<char>) -> Seq<ParseEvent>;

/// Relies on pulldown_cmark::Tag: tells the tag's variant apart, moving the
/// heading level and the ordered-list start number over.
#[verifier::external_body]
fn tag_of(t: pulldown_cmark::Tag) -> MarkupTag {
    match t {
        pulldown_cmark::Tag::Paragraph => MarkupTag::Paragraph,
        pulldown_cmark::Tag::Heading(level) => MarkupTag::Heading(level),
        pulldown_cmark::Tag::BlockQuote => MarkupTag::BlockQuote,
        pulldown_cmark::Tag::CodeBlock(_) => MarkupTag::CodeBlock,
        pulldown_cmark::Tag::List(start) => MarkupTag::List(start),
        pulldown_cmark::Tag::Item => MarkupTag::Item,
        pulldown_cmark::Tag::Emphasis => MarkupTag::Emphasis,
        pulldown_cmark::Tag::Strong => MarkupTag::Strong,
        pulldown_cmark::Tag::Strikethrough => MarkupTag::Strikethrough,
        pulldown_cmark::Tag::Link(_, _, _) => MarkupTag::Link,
        pulldown_cmark::Tag::Image(_, _, _) => MarkupTag::Image,
        _ => MarkupTag::Other,
    }
}

/// Relies on pulldown_cmark::Event: tells the event's variant apart, moving
/// the text of the leaf events over.
#[verifier::external_body]
fn event_of(e: pulldown_cmark::Event) -> ParseEvent {
    match e {
        pulldown_cmark::Event::Start(t) => ParseEvent::Start(tag_of(t)),
        pulldown_cmark::Event::End(t) => ParseEvent::End(tag_of(t)),
        pulldown_cmark::Event::Text(t) => ParseEvent::Text(t.into_string()),
        pulldown_cmark::Event::Code(c) => ParseEvent::Code(c.into_string()),
        pulldown_cmark::Event::Html(h) => ParseEvent::Html(h.into_string()),
        pulldown_cmark::Event::FootnoteReference(_) => ParseEvent::FootnoteReference,
        pulldown_cmark::Event::SoftBreak => ParseEvent::SoftBreak,
        pulldown_cmark::Event::HardBreak => ParseEvent::HardBreak,
        pulldown_cmark::Event::Rule => ParseEvent::Rule,
        pulldown_cmark::Event::TaskListMarker(_) => ParseEvent::TaskListMarker,
    }
}

/// Relies on pulldown_cmark::Parser (a CommonMark parser): the events of a
/// string are a fixed function of that string, and `Start`/`End` events
/// come properly nested, with items only inside lists — so the stream is
/// well formed in the sense of `wf_events`.
#[verifier::external_body]
fn parse_markdown_events(s: &str) -> (r: Vec<ParseEvent>)
    ensures
        r@ == events_of(s@),
        wf_events(r@),
{
    let mut events = Vec::new();
    for e in pulldown_cmark::Parser::new(s) {
        events.push(event_of(e));
    }
    events
}

/// The markup a Markdown text renders to.
pub open spec fn markup_of(md: Seq<char>) -> Seq<char> {
    render_events(events_of(md))
}

/// Transpile Markdown into Kakoune's markup syntax using faces for
/// highlighting.
pub fn markdown_to_kakoune_markup(markdown: &str) -> (r: String)
    ensures
        r@ == markup_of(markdown@),
{
    let events = parse_markdown_events(markdown);
    proof {
        lemma_balanced_events_close_all_scopes(events@);
    }
    transpile_events(&events)
}

/// A documentation block with an optional language tag, whose `value` is
/// shown verbatim.
pub struct LanguageString {
    pub language: String,
    pub value: String,
}

/// One styled hover block: Markdown text, or a language-tagged block.
pub enum MarkedString {
    Markdown(String),
    LanguageString(LanguageString),
}

/// The raw text of a block, with any language tag dropped.
pub open spec fn marked_plaintext(ms: MarkedString) -> Seq<char> {
    match ms {
        MarkedString::Markdown(s) => s@,
        MarkedString::LanguageString(ls) => ls.value@,
    }
}

impl MarkedString {
    /// The block's raw text, with any language tag dropped.
    pub fn plaintext(self) -> (r: String)
        ensures
            r@ == marked_plaintext(self),
    {
        match self {
            MarkedString::Markdown(s) => s,
            MarkedString::LanguageString(ls) => ls.value,
        }
    }
}

/// The markup of one hover block: Markdown runs through the transpiler, a
/// language-tagged block passes through verbatim.
pub open spec fn marked_markup_of(ms: MarkedString) -> Seq<char> {
    match ms {
        MarkedString::Markdown(s) => markup_of(s@),
        MarkedString::LanguageString(ls) => ls.value@,
    }
}

/// Transpile one hover block into Kakoune markup.
pub fn marked_string_to_kakoune_markup(contents: &MarkedString) -> (r: String)
    ensures
        r@ == marked_markup_of(*contents),
{
    match contents {
        MarkedString::Markdown(s) => markdown_to_kakoune_markup(s.as_str()),
        MarkedString::LanguageString(ls) => ls.value.clone(),
    }
}

} // verus!
