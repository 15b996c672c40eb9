//! The grammars and the theme that code blocks are coloured with.
//!
//! A registry holds the bundled syntax definitions and one theme. It is
//! loaded once and only read afterwards, so one value serves every render.

use crate::text::{escape_html, escaped};
use vstd::prelude::*;

verus! {

/// syntect's set of syntax definitions.
#[verifier::external_type_specification]
#[verifier::external_body]
pub struct ExSyntaxSet(syntect::parsing::SyntaxSet);

/// syntect's colour theme.
#[verifier::external_type_specification]
#[verifier::external_body]
pub struct ExTheme(syntect::highlighting::Theme);

/// Whether a set of syntax definitions is the one that is bundled with
/// syntect, for text whose lines end in a newline.
pub uninterp spec fn is_bundled(set: syntect::parsing::SyntaxSet) -> bool;

/// The name of the grammar that the bundled definitions give for a language
/// token, if they know the token.
pub uninterp spec fn syntax_for_token(token: Seq<char>) -> Option<Seq<char>>;

/// The theme that is bundled under a name, if one is.
pub uninterp spec fn bundled_theme(name: Seq<char>) -> Option<syntect::highlighting::Theme>;

/// The coloured markup of `code` under the bundled grammar named `grammar`
/// and a theme; `None` where the bundled definitions hold no grammar of
/// that name or the highlighter fails.
pub uninterp spec fn highlighted(
    code: Seq<char>,
    grammar: Seq<char>,
    theme: syntect::highlighting::Theme,
) -> Option<Seq<char>>;

/// The coloured markup of `code` under the bundled grammar named `grammar`
/// and the theme that is bundled under the name `THEME`, which is the one
/// that every registry holds.
pub open spec fn colored(code: Seq<char>, grammar: Seq<char>) -> Option<Seq<char>> {
    match bundled_theme(THEME@) {
        Some(theme) => highlighted(code, grammar, theme),
        None => None,
    }
}

/// The name of the theme that code is coloured with.
pub const THEME: &'static str = "base16-ocean.dark";

/// The name of the grammar that leaves text as it is.
pub const PLAIN_TEXT: &'static str = "Plain Text";

/// The name of the grammar that leaves text as it is.
pub open spec fn plain_text() -> Seq<char> {
    PLAIN_TEXT@
}

/// The name of the grammar that a language tag resolves to: the one the
/// definitions give for it, and the plain-text grammar for an empty or
/// unknown tag.
pub open spec fn grammar_for(tag: Seq<char>) -> Seq<char> {
    if tag.len() == 0 {
        plain_text()
    } else {
        match syntax_for_token(tag) {
            Some(name) => name,
            None => plain_text(),
        }
    }
}

/// The markup of a code block's content: the coloured markup, or the
/// escaped code where colouring failed.
pub open spec fn block_markup(code: Seq<char>, colored: Option<Seq<char>>) -> Seq<char> {
    match colored {
        Some(markup) => markup,
        None => escaped(code),
    }
}

/// A tag that the definitions do not know resolves to the plain-text
/// grammar, and a code block under it still gets its markup: the
/// highlighter's, or else the escaped code.
pub proof fn unknown_tag_is_plain_text(tag: Seq<char>, code: Seq<char>)
    requires
        syntax_for_token(tag) is None,
    ensures
        grammar_for(tag) == plain_text(),
        colored(code, grammar_for(tag)) is None ==> block_markup(
            code,
            colored(code, grammar_for(tag)),
        ) == escaped(code),
{
}

/// A grammar, known by the name it has in the bundled definitions.
pub struct Grammar {
    pub name: String,
}

impl View for Grammar {
    type V = Seq<char>;

    open spec fn view(&self) -> Seq<char> {
        self.name@
    }
}

/// The syntax definitions and the theme.
pub struct Registry {
    syntaxes: syntect::parsing::SyntaxSet,
    theme: syntect::highlighting::Theme,
}

/// `SyntaxSet::load_defaults_newlines`: the definitions bundled with syntect.
#[verifier::external_body]
fn load_syntaxes() -> (set: syntect::parsing::SyntaxSet)
    ensures
        is_bundled(set),
{
    syntect::parsing::SyntaxSet::load_defaults_newlines()
}

/// `ThemeSet::load_defaults`: a copy of the theme that the bundled set
/// keeps under that name, or `None` where it keeps none.
#[verifier::external_body]
fn load_theme(name: &str) -> (theme: Option<syntect::highlighting::Theme>)
    ensures
        theme == bundled_theme(name@),
{
    syntect::highlighting::ThemeSet::load_defaults().themes.get(name).cloned()
}

/// `SyntaxSet::find_syntax_by_token` on the bundled definitions: the name
/// of the syntax found for the token, first by file extension and then by
/// name, or `None`.
#[verifier::external_body]
fn find_by_token(syntaxes: &syntect::parsing::SyntaxSet, token: &str) -> (name: Option<String>)
    requires
        is_bundled(*syntaxes),
    ensures
        match name {
            Some(n) => syntax_for_token(token@) == Some(n@),
            None => syntax_for_token(token@) is None,
        },
{
    syntaxes.find_syntax_by_token(token).map(|syntax| syntax.name.clone())
}

/// `syntect::html::highlighted_html_for_string` on the bundled definitions,
/// with the syntax that `SyntaxSet::find_syntax_by_name` gives for
/// `grammar` and with the given theme: the coloured markup, or `None` where
/// the name is unknown or the highlighter reports an error.
///
/// A grammar is known by its name alone, so the syntax is looked up a
/// second time here, by the name that the lookup by token gave. That is
/// the syntax the token was resolved to as long as no two bundled syntaxes
/// share a name, which holds of the bundled definitions; of two syntaxes
/// of one name the lookup by name takes the one that stands last.
#[verifier::external_body]
fn colorize(
    syntaxes: &syntect::parsing::SyntaxSet,
    theme: &syntect::highlighting::Theme,
    grammar: &str,
    code: &str,
) -> (markup: Option<String>)
    requires
        is_bundled(*syntaxes),
    ensures
        markup.deep_view() == highlighted(code@, grammar@, *theme),
{
    let syntax = syntaxes.find_syntax_by_name(grammar)?;
    syntect::html::highlighted_html_for_string(code, syntaxes, syntax, theme).ok()
}

impl Registry {
    /// Every registry holds the bundled definitions and the theme that is
    /// bundled under the name `THEME`.
    #[verifier::type_invariant]
    closed spec fn is_loaded(self) -> bool {
        is_bundled(self.syntaxes) && bundled_theme(THEME@) == Some(self.theme)
    }

    /// The theme that the registry holds.
    pub closed spec fn theme(&self) -> syntect::highlighting::Theme {
        self.theme
    }

    /// Loads the bundled definitions and the theme. The registry holds the
    /// theme that is bundled under the name `THEME`; there is no registry
    /// where no theme is bundled under that name.
    pub fn load() -> (registry: Option<Registry>)
        ensures
            match registry {
                Some(loaded) => bundled_theme(THEME@) == Some(loaded.theme()),
                None => bundled_theme(THEME@) is None,
            },
    {
        match load_theme(THEME) {
            Some(theme) => Some(Registry { syntaxes: load_syntaxes(), theme }),
            None => None,
        }
    }

    /// The theme that code is coloured with: the one the registry holds.
    pub fn current_theme(&self) -> (theme: &syntect::highlighting::Theme)
        ensures
            *theme == self.theme(),
            bundled_theme(THEME@) == Some(*theme),
    {
        proof {
            use_type_invariant(self);
        }
        &self.theme
    }

    /// The grammar for a language tag. Every tag has one: an empty tag and a
    /// tag that the definitions do not know resolve to plain text.
    pub fn lookup_grammar(&self, language_tag: &str) -> (grammar: Grammar)
        ensures
            grammar@ == grammar_for(language_tag@),
    {
        proof {
            use_type_invariant(self);
        }
        if language_tag.unicode_len() == 0 {
            return Grammar { name: PLAIN_TEXT.to_owned() };
        }
        match find_by_token(&self.syntaxes, language_tag) {
            Some(name) => Grammar { name },
            None => Grammar { name: PLAIN_TEXT.to_owned() },
        }
    }

    /// The markup of `code` coloured under `grammar`. Where colouring fails
    /// the code comes back escaped and uncoloured, so that there is always
    /// something to show.
    pub fn highlight(&self, grammar: &Grammar, code: &str) -> (markup: String)
        ensures
            markup@ == block_markup(code@, colored(code@, grammar@)),
    {
        proof {
            use_type_invariant(self);
        }
        let markup = colorize(&self.syntaxes, &self.theme, grammar.name.as_str(), code);
        fallback(code, markup)
    }
}

/// The coloured markup if there is one, the escaped code otherwise.
pub fn fallback(code: &str, colored: Option<String>) -> (markup: String)
    ensures
        markup@ == block_markup(
            code@,
            match colored {
                Some(m) => Some(m@),
                None => None,
            },
        ),
{
    match colored {
        Some(markup) => markup,
        None => escape_html(code),
    }
}

} // verus!
