//! The state machine that rewrites the token stream of a document.
//!
//! It takes the tokens one by one. Outside a fenced block everything passes
//! through. A fenced block tagged `frontmatter` is taken out of the stream
//! and its text is kept as the document's metadata. Any other fenced block
//! is taken out as well and a single fragment of coloured markup, in a
//! wrapper of its own, is put in its place.
//!
//! Two cases that a well-formed document does not show are settled here.
//! Of several metadata blocks the last one counts: each block starts the
//! metadata afresh. And inside a block only text and the end of the block
//! mean anything: every other token passes through and leaves the machine
//! where it is, a fenced start among them. A block that is still open when
//! the stream ends is treated as if it ended there.

use crate::registry::{block_markup, colored, grammar_for, plain_text, Grammar, Registry};
use crate::stream::{Output, OutputView, Token, TokenView};
use crate::text::{concat, same_text, trim, trimmed};
use vstd::prelude::*;
use vstd::string::StringExecFns;

verus! {

/// The tag of the fenced block that holds a document's metadata.
pub const FRONTMATTER: &'static str = "frontmatter";

/// What opens the wrapper of a coloured code block.
pub const OPEN_WRAPPER: &'static str = "<div class=\"md-codeblock\">";

/// What closes the wrapper of a coloured code block.
pub const CLOSE_WRAPPER: &'static str = "</div>";

/// Where the machine is in the document.
#[derive(Clone, Copy, Debug)]
pub enum Mode {
    /// Outside any block that the machine rewrites.
    Normal,
    /// Inside the metadata block.
    Meta,
    /// Inside a code block that will be coloured.
    Highlight,
}

/// The state of the machine, as plain values.
pub ghost struct MachineView {
    pub mode: Mode,
    /// The text of the code block so far.
    pub code: Seq<char>,
    /// The name of the grammar of the code block.
    pub grammar: Seq<char>,
    /// The text of the last metadata block so far, if there was one.
    pub captured: Option<Seq<char>>,
}

/// The state before the first token.
pub open spec fn initial() -> MachineView {
    MachineView { mode: Mode::Normal, code: Seq::empty(), grammar: plain_text(), captured: None }
}

/// The fragment that stands for a whole code block's content and end: what
/// the highlighter made of the code, or the escaped code, and the end of
/// the wrapper.
pub open spec fn closing_fragment(code: Seq<char>, grammar: Seq<char>) -> Seq<char> {
    block_markup(code, colored(code, grammar)) + CLOSE_WRAPPER@
}

/// What one token does: the state after it, and what is written out for it.
pub open spec fn step(m: MachineView, token: TokenView) -> (MachineView, Option<OutputView>) {
    match m.mode {
        Mode::Normal => match token {
            TokenView::FencedStart(tag) => {
                if trimmed(tag) == FRONTMATTER@ {
                    (MachineView { mode: Mode::Meta, captured: Some(Seq::empty()), ..m }, None)
                } else {
                    (
                        MachineView { mode: Mode::Highlight, grammar: grammar_for(trimmed(tag)), ..m },
                        Some(OutputView::Html(OPEN_WRAPPER@)),
                    )
                }
            },
            _ => (m, Some(OutputView::Pass(token))),
        },
        Mode::Meta => match token {
            TokenView::Text(text) => (
                MachineView {
                    captured: Some(
                        match m.captured {
                            Some(before) => before + text,
                            None => text,
                        },
                    ),
                    ..m
                },
                None,
            ),
            TokenView::CodeBlockEnd => (MachineView { mode: Mode::Normal, ..m }, None),
            _ => (m, Some(OutputView::Pass(token))),
        },
        Mode::Highlight => match token {
            TokenView::Text(text) => (MachineView { code: m.code + text, ..m }, None),
            TokenView::CodeBlockEnd => (
                MachineView { mode: Mode::Normal, code: Seq::empty(), ..m },
                Some(OutputView::Html(closing_fragment(m.code, m.grammar))),
            ),
            _ => (m, Some(OutputView::Pass(token))),
        },
    }
}

/// What is still owed when the stream ends: a code block that was never
/// closed is written out with the text it has.
pub open spec fn flush(m: MachineView) -> Option<OutputView> {
    match m.mode {
        Mode::Highlight => Some(OutputView::Html(closing_fragment(m.code, m.grammar))),
        _ => None,
    }
}

/// `out` with `emitted` after it, if there is one.
pub open spec fn with(out: Seq<OutputView>, emitted: Option<OutputView>) -> Seq<OutputView> {
    match emitted {
        Some(output) => out.push(output),
        None => out,
    }
}

/// The state after the tokens, started in `m`, and what was written out
/// for them.
pub open spec fn run(m: MachineView, tokens: Seq<TokenView>) -> (MachineView, Seq<OutputView>)
    decreases tokens.len(),
{
    if tokens.len() == 0 {
        (m, Seq::empty())
    } else {
        let before = run(m, tokens.drop_last());
        let last = step(before.0, tokens.last());
        (last.0, with(before.1, last.1))
    }
}

/// The whole stream rewritten: what is written out for the tokens of a
/// document, and the text of its metadata block if it has one.
pub open spec fn rewritten(tokens: Seq<TokenView>) -> (Seq<OutputView>, Option<Seq<char>>) {
    let end = run(initial(), tokens);
    (with(end.1, flush(end.0)), end.0.captured)
}

/// The machine.
pub struct Transformer<'r> {
    registry: &'r Registry,
    mode: Mode,
    code: String,
    grammar: Grammar,
    captured: Option<String>,
}

impl<'r> View for Transformer<'r> {
    type V = MachineView;

    /// The registry is no part of the state: every registry holds the same
    /// definitions and the same theme.
    closed spec fn view(&self) -> MachineView {
        MachineView {
            mode: self.mode,
            code: self.code@,
            grammar: self.grammar@,
            captured: self.captured.deep_view(),
        }
    }
}

impl<'r> Transformer<'r> {
    /// A machine at the start of a document.
    pub fn new(registry: &'r Registry) -> (machine: Transformer<'r>)
        ensures
            machine@ == initial(),
    {
        proof {
            reveal_strlit("");
        }
        Transformer {
            registry,
            mode: Mode::Normal,
            code: String::new(),
            grammar: registry.lookup_grammar(""),
            captured: None,
        }
    }

    /// Where the machine is.
    pub fn mode(&self) -> (mode: Mode)
        ensures
            mode == self@.mode,
    {
        self.mode
    }

    /// Takes one token. Returns what is written out for it, if anything.
    pub fn transform(&mut self, token: Token) -> (output: Option<Output>)
        ensures
            final(self)@ == step(old(self)@, token@).0,
            output.deep_view() == step(old(self)@, token@).1,
    {
        match self.mode {
            Mode::Normal => match token {
                Token::FencedStart(tag) => {
                    let tag = trim(tag.as_str());
                    if same_text(tag.as_str(), FRONTMATTER) {
                        self.mode = Mode::Meta;
                        self.captured = Some(String::new());
                        None
                    } else {
                        self.mode = Mode::Highlight;
                        self.grammar = self.registry.lookup_grammar(tag.as_str());
                        Some(Output::Html(OPEN_WRAPPER.to_owned()))
                    }
                },
                other => Some(Output::Pass(other)),
            },
            Mode::Meta => match token {
                Token::Text(text) => {
                    let mut captured = match self.captured.take() {
                        Some(before) => before,
                        None => String::new(),
                    };
                    captured.append(text.as_str());
                    self.captured = Some(captured);
                    None
                },
                Token::CodeBlockEnd => {
                    self.mode = Mode::Normal;
                    None
                },
                other => Some(Output::Pass(other)),
            },
            Mode::Highlight => match token {
                Token::Text(text) => {
                    self.code.append(text.as_str());
                    None
                },
                Token::CodeBlockEnd => {
                    let fragment = self.close_block();
                    self.mode = Mode::Normal;
                    self.code = String::new();
                    Some(Output::Html(fragment))
                },
                other => Some(Output::Pass(other)),
            },
        }
    }

    /// Ends the stream. Returns what is still to be written out, if
    /// anything, and the text of the metadata block, if there was one.
    pub fn finish(self) -> (end: (Option<Output>, Option<String>))
        ensures
            end.0.deep_view() == flush(self@),
            end.1.deep_view() == self@.captured,
    {
        let last = match self.mode {
            Mode::Highlight => Some(Output::Html(self.close_block())),
            _ => None,
        };
        (last, self.captured)
    }

    /// The fragment for the code block that the machine is in.
    fn close_block(&self) -> (fragment: String)
        ensures
            fragment@ == closing_fragment(self@.code, self@.grammar),
    {
        let mut fragment = self.registry.highlight(&self.grammar, self.code.as_str());
        fragment.append(CLOSE_WRAPPER);
        fragment
    }
}

/// Rewrites the token stream of a whole document. Returns what is to be
/// written out and the text of the metadata block, if the document has one.
pub fn rewrite(tokens: Vec<Token>, registry: &Registry) -> (result: (Vec<Output>, Option<String>))
    ensures
        result.0.deep_view() == rewritten(tokens.deep_view()).0,
        result.1.deep_view() == rewritten(tokens.deep_view()).1,
{
    let ghost source = tokens.deep_view();
    let mut machine = Transformer::new(registry);
    let mut out: Vec<Output> = Vec::new();
    for token in it: tokens.into_iter()
        invariant
            it.seq() == tokens@,
            source == tokens.deep_view(),
            machine@ == run(initial(), source.take(it.index())).0,
            out.deep_view() == run(initial(), source.take(it.index())).1,
    {
        proof {
            assert(source.take(it.index() + 1).drop_last() =~= source.take(it.index()));
        }
        let ghost before = out.deep_view();
        match machine.transform(token) {
            Some(output) => {
                out.push(output);
                assert(out.deep_view() =~= before.push(output@));
            },
            None => {},
        }
    }
    proof {
        assert(source.take(source.len() as int) =~= source);
    }
    let ghost before = out.deep_view();
    let (last, captured) = machine.finish();
    match last {
        Some(output) => {
            out.push(output);
            assert(out.deep_view() =~= before.push(output@));
        },
        None => {},
    }
    (out, captured)
}

/// Whether a stream ends inside a fenced block: after a fenced start that
/// no code block end has followed yet.
pub open spec fn inside(tokens: Seq<TokenView>) -> bool
    decreases tokens.len(),
{
    if tokens.len() == 0 {
        false
    } else {
        match tokens.last() {
            TokenView::FencedStart(_) => true,
            TokenView::CodeBlockEnd => false,
            _ => inside(tokens.drop_last()),
        }
    }
}

/// The number of fenced blocks of a stream that are not metadata blocks. A
/// block starts at a fenced start that stands outside any fenced block.
pub open spec fn code_blocks(tokens: Seq<TokenView>) -> nat
    decreases tokens.len(),
{
    if tokens.len() == 0 {
        0
    } else {
        let before = tokens.drop_last();
        match tokens.last() {
            TokenView::FencedStart(tag) => if !inside(before) && trimmed(tag) != FRONTMATTER@ {
                code_blocks(before) + 1
            } else {
                code_blocks(before)
            },
            _ => code_blocks(before),
        }
    }
}

/// Whether a stream holds a fenced start tagged as metadata.
pub open spec fn has_frontmatter(tokens: Seq<TokenView>) -> bool {
    exists|i: int|
        0 <= i < tokens.len() && (#[trigger] tokens[i] matches TokenView::FencedStart(tag)
            && trimmed(tag) == FRONTMATTER@)
}

/// Whether `text` ends with `tail`.
pub open spec fn ends_with(text: Seq<char>, tail: Seq<char>) -> bool {
    text.len() >= tail.len() && text.skip(text.len() - tail.len()) == tail
}

/// Whether an output event opens a wrapper.
pub open spec fn opens_wrapper(output: OutputView) -> bool {
    output == OutputView::Html(OPEN_WRAPPER@)
}

/// Whether an output event is a fragment that closes a wrapper.
pub open spec fn closes_wrapper(output: OutputView) -> bool {
    output matches OutputView::Html(markup) && ends_with(markup, CLOSE_WRAPPER@)
}

/// The number of output events that open a wrapper.
pub open spec fn openings(outputs: Seq<OutputView>) -> nat
    decreases outputs.len(),
{
    if outputs.len() == 0 {
        0
    } else if opens_wrapper(outputs.last()) {
        openings(outputs.drop_last()) + 1
    } else {
        openings(outputs.drop_last())
    }
}

/// The number of output events that close a wrapper.
pub open spec fn closings(outputs: Seq<OutputView>) -> nat
    decreases outputs.len(),
{
    if outputs.len() == 0 {
        0
    } else if closes_wrapper(outputs.last()) {
        closings(outputs.drop_last()) + 1
    } else {
        closings(outputs.drop_last())
    }
}

/// The tokens of a run of text pieces.
pub open spec fn text_tokens(texts: Seq<Seq<char>>) -> Seq<TokenView> {
    Seq::new(texts.len(), |i: int| TokenView::Text(texts[i]))
}

/// The tokens of a metadata block: its start, its text in pieces, its end.
pub open spec fn frontmatter_block(tag: Seq<char>, texts: Seq<Seq<char>>) -> Seq<TokenView> {
    seq![TokenView::FencedStart(tag)] + text_tokens(texts) + seq![TokenView::CodeBlockEnd]
}

/// Running the machine over two streams in a row is running it over the
/// first and then, from where that ended, over the second.
pub proof fn run_in_two_parts(m: MachineView, first: Seq<TokenView>, second: Seq<TokenView>)
    ensures
        run(m, first + second).0 == run(run(m, first).0, second).0,
        run(m, first + second).1 == run(m, first).1 + run(run(m, first).0, second).1,
    decreases second.len(),
{
    if second.len() == 0 {
        assert(first + second =~= first);
        assert(run(m, first).1 + Seq::<OutputView>::empty() =~= run(m, first).1);
    } else {
        run_in_two_parts(m, first, second.drop_last());
        assert((first + second).drop_last() =~= first + second.drop_last());
        assert((first + second).last() == second.last());
        let mid = run(m, first);
        let rest = run(mid.0, second.drop_last());
        let last = step(rest.0, second.last());
        assert(with(mid.1 + rest.1, last.1) =~= mid.1 + with(rest.1, last.1));
    }
}

/// Running the machine over one token is one step.
pub proof fn run_over_one(m: MachineView, token: TokenView)
    ensures
        run(m, seq![token]).0 == step(m, token).0,
        run(m, seq![token]).1 == with(Seq::empty(), step(m, token).1),
{
    reveal_with_fuel(run, 2);
    assert(seq![token].drop_last() =~= Seq::<TokenView>::empty());
}

/// The wrapper's opening is no closing fragment, and no closing fragment is
/// the wrapper's opening.
pub proof fn wrapper_ends_differ(markup: Seq<char>)
    ensures
        !ends_with(OPEN_WRAPPER@, CLOSE_WRAPPER@),
        ends_with(markup + CLOSE_WRAPPER@, CLOSE_WRAPPER@),
        markup + CLOSE_WRAPPER@ != OPEN_WRAPPER@,
{
    reveal_strlit("<div class=\"md-codeblock\">");
    reveal_strlit("</div>");
    let open = OPEN_WRAPPER@;
    let close = CLOSE_WRAPPER@;
    let whole = markup + close;
    assert(open.skip(open.len() - close.len())[4] == '"');
    assert(close[4] == 'v');
    assert(whole.skip(whole.len() - close.len()) =~= close);
    if whole == open {
        assert(whole[whole.len() - 2] == close[4]);
        assert(open[open.len() - 2] == '"');
    }
}

/// Every code block gets one wrapper: what is written out for a stream
/// holds as many openings, and as many closing fragments, as the stream has
/// fenced blocks that are not metadata blocks.
pub proof fn one_wrapper_per_code_block(tokens: Seq<TokenView>)
    ensures
        openings(rewritten(tokens).0) == code_blocks(tokens),
        closings(rewritten(tokens).0) == code_blocks(tokens),
{
    wrappers_follow_blocks(tokens);
    let end = run(initial(), tokens);
    match end.0.mode {
        Mode::Highlight => {
            wrapper_ends_differ(block_markup(end.0.code, colored(end.0.code, end.0.grammar)));
            let out = with(end.1, flush(end.0));
            assert(out.drop_last() =~= end.1);
        },
        _ => {},
    }
}

/// While the machine runs, it is outside a block exactly when the stream
/// is; the openings written so far are the code blocks begun, and the
/// closing fragments are those of the code blocks that have ended. So no
/// wrapper opens while another is open: at every point the openings are
/// the closing fragments, or one more while a code block is open.
pub proof fn wrappers_follow_blocks(tokens: Seq<TokenView>)
    ensures
        (run(initial(), tokens).0.mode is Normal) == !inside(tokens),
        openings(run(initial(), tokens).1) == code_blocks(tokens),
        closings(run(initial(), tokens).1) <= openings(run(initial(), tokens).1) <= closings(
            run(initial(), tokens).1,
        ) + 1,
        openings(run(initial(), tokens).1) == closings(run(initial(), tokens).1) + 1 <==> run(
            initial(),
            tokens,
        ).0.mode is Highlight,
        closings(run(initial(), tokens).1) + (if run(initial(), tokens).0.mode is Highlight {
            1nat
        } else {
            0nat
        }) == code_blocks(tokens),
    decreases tokens.len(),
{
    if tokens.len() > 0 {
        wrappers_follow_blocks(tokens.drop_last());
        let before = run(initial(), tokens.drop_last());
        let last = step(before.0, tokens.last());
        let out = with(before.1, last.1);
        wrapper_ends_differ(block_markup(before.0.code, colored(before.0.code, before.0.grammar)));
        match last.1 {
            Some(output) => {
                assert(out.drop_last() =~= before.1);
                assert(out.last() == output);
            },
            None => {},
        }
    }
}

/// The tokens, each as an output event that passes it on.
pub open spec fn passed(tokens: Seq<TokenView>) -> Seq<OutputView> {
    Seq::new(tokens.len(), |i: int| OutputView::Pass(tokens[i]))
}

/// Whether a stream holds a fenced start.
pub open spec fn has_fence(tokens: Seq<TokenView>) -> bool {
    exists|i: int| 0 <= i < tokens.len() && #[trigger] tokens[i] is FencedStart
}

/// What is not in a fenced block is left alone: a stream without a fenced
/// start is written out as it is, token for token.
pub proof fn prose_passes_through(tokens: Seq<TokenView>)
    requires
        !has_fence(tokens),
    ensures
        rewritten(tokens).0 == passed(tokens),
        rewritten(tokens).1 is None,
{
    prose_keeps_the_machine_outside(tokens);
}

/// Without a fenced start the machine stays outside any block and passes
/// every token on.
proof fn prose_keeps_the_machine_outside(tokens: Seq<TokenView>)
    requires
        !has_fence(tokens),
    ensures
        run(initial(), tokens) == (initial(), passed(tokens)),
    decreases tokens.len(),
{
    if tokens.len() == 0 {
        assert(passed(tokens) =~= Seq::<OutputView>::empty());
    } else {
        let before = tokens.drop_last();
        assert forall|i: int| 0 <= i < before.len() implies !(#[trigger] before[i] is FencedStart) by {
            assert(before[i] == tokens[i]);
        }
        prose_keeps_the_machine_outside(before);
        assert(tokens.last() == tokens[tokens.len() - 1]);
        assert(passed(before).push(OutputView::Pass(tokens.last())) =~= passed(tokens));
    }
}

/// A document without a metadata block has no metadata: where no fenced
/// start of the stream is tagged as metadata, nothing is captured.
pub proof fn no_frontmatter_no_metadata(tokens: Seq<TokenView>)
    requires
        !has_frontmatter(tokens),
    ensures
        rewritten(tokens).1 is None,
{
    capture_needs_frontmatter(tokens);
}

/// Without a metadata tag in the stream the machine never enters the
/// metadata block and captures nothing.
proof fn capture_needs_frontmatter(tokens: Seq<TokenView>)
    requires
        !has_frontmatter(tokens),
    ensures
        run(initial(), tokens).0.captured is None,
        !(run(initial(), tokens).0.mode is Meta),
    decreases tokens.len(),
{
    if tokens.len() > 0 {
        let before = tokens.drop_last();
        assert forall|i: int| 0 <= i < before.len() implies !(#[trigger] before[i] matches TokenView::FencedStart(
            tag,
        ) && trimmed(tag) == FRONTMATTER@) by {
            assert(before[i] == tokens[i]);
        }
        capture_needs_frontmatter(before);
        assert(tokens.last() == tokens[tokens.len() - 1]);
    }
}

/// What is written out, and where the machine stands, does not depend on
/// the metadata captured before.
proof fn capture_changes_nothing_else(m: MachineView, captured: Option<Seq<char>>, tokens: Seq<TokenView>)
    ensures
        run(MachineView { captured, ..m }, tokens).1 == run(m, tokens).1,
        run(MachineView { captured, ..m }, tokens).0.mode == run(m, tokens).0.mode,
        run(MachineView { captured, ..m }, tokens).0.code == run(m, tokens).0.code,
        run(MachineView { captured, ..m }, tokens).0.grammar == run(m, tokens).0.grammar,
    decreases tokens.len(),
{
    if tokens.len() > 0 {
        capture_changes_nothing_else(m, captured, tokens.drop_last());
    }
}

/// Inside the metadata block, text is kept and nothing is written out.
proof fn text_is_captured(m: MachineView, texts: Seq<Seq<char>>)
    requires
        m.mode is Meta,
        m.captured is Some,
    ensures
        run(m, text_tokens(texts)) == (
            MachineView { captured: Some(m.captured->0 + concat(texts)), ..m },
            Seq::<OutputView>::empty(),
        ),
    decreases texts.len(),
{
    if texts.len() == 0 {
        assert(m.captured->0 + concat(texts) =~= m.captured->0);
    } else {
        text_is_captured(m, texts.drop_last());
        assert(text_tokens(texts).drop_last() =~= text_tokens(texts.drop_last()));
        assert(m.captured->0 + concat(texts.drop_last()) + texts.last() =~= m.captured->0 + concat(
            texts,
        ));
    }
}

/// A metadata block is consumed whole: met outside any block, it writes
/// nothing out, keeps its text as the metadata, and leaves the machine
/// where it was.
pub proof fn frontmatter_block_is_consumed(m: MachineView, tag: Seq<char>, texts: Seq<Seq<char>>)
    requires
        m.mode is Normal,
        trimmed(tag) == FRONTMATTER@,
    ensures
        run(m, frontmatter_block(tag, texts)) == (
            MachineView { captured: Some(concat(texts)), ..m },
            Seq::<OutputView>::empty(),
        ),
{
    let start = seq![TokenView::FencedStart(tag)];
    let end = seq![TokenView::CodeBlockEnd];
    let entered = MachineView { mode: Mode::Meta, captured: Some(Seq::empty()), ..m };
    run_over_one(m, TokenView::FencedStart(tag));
    assert(run(m, start) == (entered, Seq::<OutputView>::empty()));
    text_is_captured(entered, texts);
    assert(Seq::<char>::empty() + concat(texts) =~= concat(texts));
    let filled = MachineView { captured: Some(concat(texts)), ..entered };
    run_over_one(filled, TokenView::CodeBlockEnd);
    assert(run(filled, end) == (MachineView { mode: Mode::Normal, ..filled }, Seq::<OutputView>::empty()));
    run_in_two_parts(m, start, text_tokens(texts));
    run_in_two_parts(m, start + text_tokens(texts), end);
    assert(run(m, frontmatter_block(tag, texts)).1 =~= Seq::<OutputView>::empty());
}

/// The text of a metadata block never reaches the page: with the block in
/// the stream or without it, the same events are written out.
pub proof fn frontmatter_block_leaves_no_output(
    before: Seq<TokenView>,
    tag: Seq<char>,
    texts: Seq<Seq<char>>,
    after: Seq<TokenView>,
)
    requires
        !inside(before),
        trimmed(tag) == FRONTMATTER@,
    ensures
        rewritten(before + frontmatter_block(tag, texts) + after).0 == rewritten(before + after).0,
{
    let block = frontmatter_block(tag, texts);
    wrappers_follow_blocks(before);
    let m = run(initial(), before).0;
    frontmatter_block_is_consumed(m, tag, texts);
    let kept = MachineView { captured: Some(concat(texts)), ..m };
    run_in_two_parts(initial(), before, block);
    run_in_two_parts(initial(), before + block, after);
    run_in_two_parts(initial(), before, after);
    capture_changes_nothing_else(m, Some(concat(texts)), after);
    assert(run(initial(), before + block).1 =~= run(initial(), before).1);
}

} // verus!
