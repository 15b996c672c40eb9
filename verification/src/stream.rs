//! The stream of events that a markdown source is parsed into, and the
//! stream that is written out as HTML.

use pulldown_cmark::{CodeBlockKind, Event, Options, Parser, Tag, TagEnd};
use vstd::prelude::*;

verus! {

/// An event of the markdown parser.
#[verifier::external_type_specification]
#[verifier::external_body]
pub struct ExEvent<'a>(Event<'a>);

/// One event of a parsed document, as far as this crate reads it.
pub enum Token {
    /// The start of a fenced code block, with what follows the fence on its line.
    FencedStart(String),
    /// The end of a code block.
    CodeBlockEnd,
    /// A run of text.
    Text(String),
    /// Any other event. It is carried along and never looked into.
    Other(Event<'static>),
}

/// A token with its strings as sequences of characters.
pub ghost enum TokenView {
    FencedStart(Seq<char>),
    CodeBlockEnd,
    Text(Seq<char>),
    Other(Event<'static>),
}

impl View for Token {
    type V = TokenView;

    open spec fn view(&self) -> TokenView {
        match self {
            Token::FencedStart(tag) => TokenView::FencedStart(tag@),
            Token::CodeBlockEnd => TokenView::CodeBlockEnd,
            Token::Text(text) => TokenView::Text(text@),
            Token::Other(event) => TokenView::Other(*event),
        }
    }
}

impl DeepView for Token {
    type V = TokenView;

    open spec fn deep_view(&self) -> TokenView {
        self@
    }
}

/// One event of the stream that is written out: a token of the source,
/// unchanged, or a fragment of markup put in its place.
pub enum Output {
    Pass(Token),
    Html(String),
}

/// An output event with its strings as sequences of characters.
pub ghost enum OutputView {
    Pass(TokenView),
    Html(Seq<char>),
}

impl View for Output {
    type V = OutputView;

    open spec fn view(&self) -> OutputView {
        match self {
            Output::Pass(token) => OutputView::Pass(token@),
            Output::Html(markup) => OutputView::Html(markup@),
        }
    }
}

impl DeepView for Output {
    type V = OutputView;

    open spec fn deep_view(&self) -> OutputView {
        self@
    }
}

/// The tokens that the markdown parser reads out of a source text.
pub uninterp spec fn markdown_tokens(source: Seq<char>) -> Seq<TokenView>;

/// The HTML that the markdown writer makes of a stream of output events.
pub uninterp spec fn written_html(outputs: Seq<OutputView>) -> Seq<char>;

/// `pulldown_cmark::Parser::new_ext` with the GitHub extensions switched on:
/// the events it yields for `source`, in order, each as a token.
#[verifier::external_body]
pub(crate) fn scan(source: &str) -> (tokens: Vec<Token>)
    ensures
        tokens.deep_view() == markdown_tokens(source@),
{
    Parser::new_ext(source, Options::ENABLE_GFM)
        .map(|event| match event {
            Event::Start(Tag::CodeBlock(CodeBlockKind::Fenced(tag))) => {
                Token::FencedStart(tag.into_string())
            },
            Event::End(TagEnd::CodeBlock) => Token::CodeBlockEnd,
            Event::Text(text) => Token::Text(text.into_string()),
            other => Token::Other(other.into_static()),
        })
        .collect()
}

/// `pulldown_cmark::html::push_html` on the events that the outputs stand
/// for: the HTML it writes for them.
#[verifier::external_body]
pub(crate) fn write_html(outputs: Vec<Output>) -> (html: String)
    ensures
        html@ == written_html(outputs.deep_view()),
{
    let events = outputs.into_iter().map(|output| match output {
        Output::Html(markup) => Event::Html(markup.into()),
        Output::Pass(Token::FencedStart(tag)) => {
            Event::Start(Tag::CodeBlock(CodeBlockKind::Fenced(tag.into())))
        },
        Output::Pass(Token::CodeBlockEnd) => Event::End(TagEnd::CodeBlock),
        Output::Pass(Token::Text(text)) => Event::Text(text.into()),
        Output::Pass(Token::Other(event)) => event,
    });
    let mut html = String::new();
    pulldown_cmark::html::push_html(&mut html, events);
    html
}

} // verus!
