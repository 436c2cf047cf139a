//! Syntax highlighting of C# source.

use crate::style;
use crate::style::{Color, Span, SpanView, Style};
use crate::text;
use syntect::easy::HighlightLines;
use syntect::highlighting::{FontStyle, Theme, ThemeSet};
use syntect::parsing::{SyntaxReference, SyntaxSet};
use vstd::prelude::*;
use vstd::string::*;

verus! {

#[verifier::external_type_specification]
#[verifier::external_body]
pub struct ExTheme(syntect::highlighting::Theme);

#[verifier::external_type_specification]
#[verifier::external_body]
pub struct ExThemeSet(syntect::highlighting::ThemeSet);

#[verifier::external_type_specification]
#[verifier::external_body]
pub struct ExSyntaxReference(syntect::parsing::SyntaxReference);

#[verifier::external_type_specification]
#[verifier::external_body]
pub struct ExSyntaxSet(syntect::parsing::SyntaxSet);

#[verifier::external_type_specification]
#[verifier::external_body]
pub struct ExHighlightLines<'a>(syntect::easy::HighlightLines<'a>);

/// Whether `syntaxes` is the set that comes with the highlighting engine, for
/// lines that end in a newline.
pub uninterp spec fn bundled(syntaxes: SyntaxSet) -> bool;

/// `SyntaxSet::load_defaults_newlines`: the syntaxes that come with the
/// highlighting engine. One of them is named `Plain Text`, as every set of
/// syntaxes ought to have one; nothing more is stated of what they are.
pub assume_specification[ syntect::parsing::SyntaxSet::load_defaults_newlines ]() -> (result:
    SyntaxSet)
    ensures
        bundled(result),
        syntax_by_name(result, "Plain Text"@) is Some,
;

/// Whether `themes` is the set that comes with the highlighting engine.
pub uninterp spec fn bundled_themes(themes: ThemeSet) -> bool;

/// `ThemeSet::load_defaults`: the themes that come with the highlighting
/// engine. `base16-ocean.dark` is documented to be one of them; nothing more is
/// stated of what they are.
pub assume_specification[ syntect::highlighting::ThemeSet::load_defaults ]() -> (result: ThemeSet)
    ensures
        bundled_themes(result),
        theme_named(result, "base16-ocean.dark"@) is Some,
;

/// The theme that `themes` holds under `name`.
pub uninterp spec fn theme_named(themes: ThemeSet, name: Seq<char>) -> Option<Theme>;

/// Looks up a key of `ThemeSet::themes`, a map from names to themes.
#[verifier::external_body]
fn find_theme(themes: &ThemeSet, name: &str) -> (result: Option<Theme>)
    ensures
        result == theme_named(*themes, name@),
{
    themes.themes.get(name).cloned()
}

/// The theme that `themes` holds under the first of its names in their order.
pub uninterp spec fn first_theme(themes: ThemeSet) -> Option<Theme>;

/// The first value of `ThemeSet::themes`, which is ordered by name.
#[verifier::external_body]
fn find_any_theme(themes: &ThemeSet) -> (result: Option<Theme>)
    ensures
        result == first_theme(*themes),
{
    themes.themes.values().next().cloned()
}

/// The syntax in `syntaxes` for files with the given extension.
pub uninterp spec fn syntax_by_extension(
    syntaxes: SyntaxSet,
    extension: Seq<char>,
) -> Option<SyntaxReference>;

/// `SyntaxSet::find_syntax_by_extension`: what it finds depends on the set and
/// the extension alone.
#[verifier::external_body]
fn find_by_extension(syntaxes: &SyntaxSet, extension: &str) -> (result: Option<SyntaxReference>)
    ensures
        result == syntax_by_extension(*syntaxes, extension@),
{
    syntaxes.find_syntax_by_extension(extension).cloned()
}

/// The syntax in `syntaxes` with the given name.
pub uninterp spec fn syntax_by_name(syntaxes: SyntaxSet, name: Seq<char>) -> Option<
    SyntaxReference,
>;

/// `SyntaxSet::find_syntax_by_name`: what it finds depends on the set and the
/// name alone.
#[verifier::external_body]
fn find_by_name(syntaxes: &SyntaxSet, name: &str) -> (result: Option<SyntaxReference>)
    ensures
        result == syntax_by_name(*syntaxes, name@),
{
    syntaxes.find_syntax_by_name(name).cloned()
}

/// Whether `syntax` is one that can be found in `syntaxes`.
pub open spec fn found_in(syntaxes: SyntaxSet, syntax: SyntaxReference) -> bool {
    exists|key: Seq<char>|
        #![trigger syntax_by_extension(syntaxes, key)]
        #![trigger syntax_by_name(syntaxes, key)]
        syntax_by_extension(syntaxes, key) == Some(syntax) || syntax_by_name(syntaxes, key) == Some(
            syntax,
        )
}

/// A piece of a line and the look that the theme gives it.
#[derive(Debug)]
pub struct Token {
    pub red: u8,
    pub green: u8,
    pub blue: u8,
    pub bold: bool,
    pub italic: bool,
    pub underline: bool,
    pub text: String,
}

/// What a [`Token`] says.
#[verifier::ext_equal]
pub struct TokenView {
    pub red: u8,
    pub green: u8,
    pub blue: u8,
    pub bold: bool,
    pub italic: bool,
    pub underline: bool,
    pub text: Seq<char>,
}

impl View for Token {
    type V = TokenView;

    open spec fn view(&self) -> TokenView {
        TokenView {
            red: self.red,
            green: self.green,
            blue: self.blue,
            bold: self.bold,
            italic: self.italic,
            underline: self.underline,
            text: self.text@,
        }
    }
}

/// What a list of tokens says.
pub open spec fn token_views(tokens: Seq<Token>) -> Seq<TokenView> {
    Seq::new(tokens.len(), |i: int| tokens[i]@)
}

/// The texts of the tokens, one after the other.
pub open spec fn token_text(tokens: Seq<TokenView>) -> Seq<char>
    decreases tokens.len(),
{
    if tokens.len() == 0 {
        seq![]
    } else {
        token_text(tokens.drop_last()) + tokens.last().text
    }
}

/// What `HighlightLines::new` gives: a highlighter at the start of a text.
pub uninterp spec fn highlight_start(syntax: SyntaxReference, theme: Theme) -> HighlightLines<
    'static,
>;

/// `HighlightLines::new`: the start of a text, which depends on the syntax and
/// the theme alone. The syntax is one of the bundled set: a syntax made by hand
/// may lack the context that every text starts in.
pub assume_specification<'a>[ syntect::easy::HighlightLines::<'a>::new ](
    reference: &SyntaxReference,
    theme: &'a Theme,
) -> (result: HighlightLines<'a>)
    requires
        exists|syntaxes: SyntaxSet| #[trigger]
            bundled(syntaxes) && found_in(syntaxes, *reference),
    ensures
        result == highlight_start(*reference, *theme),
;

/// What `HighlightLines::highlight_line` does with a line: the highlighter
/// behind the line, and the line's tokens if it could be parsed.
pub uninterp spec fn highlight_next(
    at: HighlightLines<'static>,
    line: Seq<char>,
    syntaxes: SyntaxSet,
) -> (HighlightLines<'static>, Option<Seq<TokenView>>);

/// `HighlightLines::highlight_line`: the tokens of the next line of a text,
/// which depend on the highlighter so far, the line and the set of syntaxes
/// alone. Their texts are consecutive pieces of the line from its start on. They
/// make up the whole line as long as no earlier line of the text failed to
/// parse; after a failure the engine may stop short of the end. The text was
/// started on a syntax of the bundled set and is read with that set all along,
/// because a highlighter holds indices into the set.
#[verifier::external_body]
fn highlight_line(at: &mut HighlightLines<'_>, line: &str, syntaxes: &SyntaxSet) -> (result: Option<
    Vec<Token>,
>)
    requires
        exists|h: Highlighter, lines: Seq<Seq<char>>, i: nat|
            h.wf() && h.syntax_set == *syntaxes && *old(at) == #[trigger] h.state_before(lines, i),
    ensures
        *final(at) == highlight_next(*old(at), line@, *syntaxes).0,
        match result {
            Some(tokens) => {
                &&& highlight_next(*old(at), line@, *syntaxes).1 == Some(token_views(tokens@))
                &&& token_text(token_views(tokens@)).is_prefix_of(line@)
                &&& (exists|h: Highlighter, lines: Seq<Seq<char>>, i: nat|
                    {
                        &&& h.wf()
                        &&& h.syntax_set == *syntaxes
                        &&& *old(at) == #[trigger] h.state_before(lines, i)
                        &&& h.parses(lines, i)
                    }) ==> token_text(token_views(tokens@)) == line@
            },
            None => highlight_next(*old(at), line@, *syntaxes).1 is None,
        },
{
    let ranges = at.highlight_line(line, syntaxes).ok()?;
    let tokens = ranges.into_iter().map(|(style, text)| Token {
        red: style.foreground.r,
        green: style.foreground.g,
        blue: style.foreground.b,
        bold: style.font_style.contains(FontStyle::BOLD),
        italic: style.font_style.contains(FontStyle::ITALIC),
        underline: style.font_style.contains(FontStyle::UNDERLINE),
        text: text.to_string(),
    });
    Some(tokens.collect())
}

/// `s` without the newlines at its end.
pub open spec fn without_newlines(s: Seq<char>) -> Seq<char>
    decreases s.len(),
{
    if s.len() > 0 && s.last() == '\n' {
        without_newlines(s.drop_last())
    } else {
        s
    }
}

/// The look of a token.
pub open spec fn token_style(token: TokenView) -> Style {
    Style {
        fg: Some(Color::Rgb(token.red, token.green, token.blue)),
        bg: None,
        bold: token.bold,
        italic: token.italic,
        underlined: token.underline,
        reversed: false,
    }
}

/// The tokens of a line as spans, without the newline that ends the line and
/// without empty spans.
pub open spec fn spans_of(tokens: Seq<TokenView>) -> Seq<SpanView>
    decreases tokens.len(),
{
    if tokens.len() == 0 {
        seq![]
    } else {
        let earlier = spans_of(tokens.drop_last());
        let text = without_newlines(tokens.last().text);
        if text.len() > 0 {
            earlier.push(SpanView { style: token_style(tokens.last()), text })
        } else {
            earlier
        }
    }
}

proof fn lemma_without_newlines(s: Seq<char>)
    requires
        !s.contains('\n'),
    ensures
        without_newlines(s) == s,
        without_newlines(s.push('\n')) == s,
{
    if s.len() > 0 {
        assert(s[s.len() - 1] != '\n');
    }
    assert(s.push('\n').drop_last() == s);
    assert(without_newlines(s) == s);
}

/// Tokens that are pieces of a line and the newline behind it keep, as spans,
/// the text of the line.
proof fn lemma_spans_text(tokens: Seq<TokenView>, line: Seq<char>)
    requires
        !line.contains('\n'),
        token_text(tokens).is_prefix_of(line.push('\n')),
    ensures
        style::plain_text(spans_of(tokens)).is_prefix_of(line),
        style::plain_text(spans_of(tokens)).len() == (if token_text(tokens).len() <= line.len() {
            token_text(tokens).len()
        } else {
            line.len()
        }),
    decreases tokens.len(),
{
    if tokens.len() > 0 {
        let before = token_text(tokens.drop_last());
        let piece = tokens.last().text;
        let earlier = spans_of(tokens.drop_last());
        assert(token_text(tokens) == before + piece);
        assert(before =~= token_text(tokens).take(before.len() as int));
        assert(before.is_prefix_of(line.push('\n')));
        lemma_spans_text(tokens.drop_last(), line);
        let end = before.len() + piece.len();
        assert(piece =~= token_text(tokens).subrange(before.len() as int, end as int));
        assert(piece =~= line.push('\n').subrange(before.len() as int, end as int));
        let kept = without_newlines(piece);
        if end <= line.len() {
            assert(piece =~= line.subrange(before.len() as int, end as int));
            assert(!piece.contains('\n'));
            lemma_without_newlines(piece);
        } else if piece.len() > 0 {
            let rest = line.skip(before.len() as int);
            assert(piece =~= rest.push('\n'));
            assert(!rest.contains('\n'));
            lemma_without_newlines(rest);
        }
        if kept.len() > 0 {
            let span = SpanView { style: token_style(tokens.last()), text: kept };
            assert(earlier.push(span).drop_last() == earlier);
            assert(style::plain_text(spans_of(tokens)) == style::plain_text(earlier) + kept);
            assert((style::plain_text(earlier) + kept).is_prefix_of(line));
        }
    }
}

fn strip_newlines(s: &str) -> (result: String)
    ensures
        result@ == without_newlines(s@),
{
    let chars = text::chars_of(s);
    let n: usize = chars.len();
    let mut end: usize = n;
    assert(chars@.take(n as int) == chars@);
    while end > 0 && chars[end - 1] == '\n'
        invariant
            end <= n == chars@.len(),
            without_newlines(chars@.take(end as int)) == without_newlines(chars@),
        decreases end,
    {
        assert(chars@.take(end as int).drop_last() == chars@.take(end - 1));
        end -= 1;
    }
    assert(chars@.subrange(0, end as int) == chars@.take(end as int));
    text::string_of(&chars, 0, end)
}

/// Turns the tokens of a line into spans to draw.
pub fn token_spans(tokens: &Vec<Token>) -> (result: Vec<Span>)
    ensures
        style::span_views(result@) == spans_of(token_views(tokens@)),
{
    let mut result: Vec<Span> = Vec::new();
    let ghost all = token_views(tokens@);
    let mut i: usize = 0;
    proof {
        assert(all.take(0) == Seq::<TokenView>::empty());
        assert(style::span_views(result@) == Seq::<SpanView>::empty());
    }
    while i < tokens.len()
        invariant
            i <= tokens@.len(),
            all == token_views(tokens@),
            style::span_views(result@) == spans_of(all.take(i as int)),
        decreases tokens@.len() - i,
    {
        assert(all.take(i + 1).drop_last() == all.take(i as int));
        let token = &tokens[i];
        let text = strip_newlines(token.text.as_str());
        if text.as_str().unicode_len() > 0 {
            let style = Style {
                fg: Some(Color::Rgb(token.red, token.green, token.blue)),
                bg: None,
                bold: token.bold,
                italic: token.italic,
                underlined: token.underline,
                reversed: false,
            };
            let ghost before = style::span_views(result@);
            let span = Span { style, text };
            result.push(span);
            assert(style::span_views(result@) == before.push(span@));
        }
        i += 1;
    }
    assert(all.take(i as int) == all);
    result
}

/// What rows of spans show.
pub open spec fn row_views(rows: Seq<Vec<Span>>) -> Seq<Seq<SpanView>> {
    Seq::new(rows.len(), |i: int| style::span_views(rows[i]@))
}

/// The syntaxes, and the one and the theme that source is shown in.
pub struct Highlighter {
    pub syntax_set: SyntaxSet,
    pub theme: Theme,
    pub syntax: SyntaxReference,
}

impl Highlighter {
    /// The syntax is one of the set, and the set is the bundled one.
    pub open spec fn wf(&self) -> bool {
        bundled(self.syntax_set) && found_in(self.syntax_set, self.syntax)
    }

    /// The theme to show source in: the dark ocean one, or else the first.
    pub open spec fn chosen_theme(themes: ThemeSet) -> Option<Theme> {
        match theme_named(themes, "base16-ocean.dark"@) {
            Some(theme) => Some(theme),
            None => first_theme(themes),
        }
    }

    /// The syntax to read source in: that of `.cs` files, or else the one named
    /// C#, or else plain text.
    pub open spec fn chosen_syntax(syntaxes: SyntaxSet) -> Option<SyntaxReference> {
        match syntax_by_extension(syntaxes, "cs"@) {
            Some(syntax) => Some(syntax),
            None => match syntax_by_name(syntaxes, "C#"@) {
                Some(syntax) => Some(syntax),
                None => syntax_by_name(syntaxes, "Plain Text"@),
            },
        }
    }

    /// The highlighter for C# out of the given syntaxes and themes; `None`
    /// where they hold no theme or not even a plain text syntax.
    pub open spec fn chosen(syntaxes: SyntaxSet, themes: ThemeSet) -> Option<Highlighter> {
        match (Self::chosen_theme(themes), Self::chosen_syntax(syntaxes)) {
            (Some(theme), Some(syntax)) => Some(
                Highlighter { syntax_set: syntaxes, theme, syntax },
            ),
            _ => None,
        }
    }

    /// Picks the theme and the syntax to show C# in.
    pub fn choose_from(syntaxes: SyntaxSet, themes: &ThemeSet) -> (result: Option<Highlighter>)
        ensures
            result == Self::chosen(syntaxes, *themes),
            result matches Some(h) ==> (bundled(syntaxes) ==> h.wf()),
    {
        let theme = match find_theme(themes, "base16-ocean.dark") {
            Some(theme) => Some(theme),
            None => find_any_theme(themes),
        };
        let syntax = match find_by_extension(&syntaxes, "cs") {
            Some(syntax) => Some(syntax),
            None => match find_by_name(&syntaxes, "C#") {
                Some(syntax) => Some(syntax),
                None => find_by_name(&syntaxes, "Plain Text"),
            },
        };
        match (theme, syntax) {
            (Some(theme), Some(syntax)) => Some(
                Highlighter { syntax_set: syntaxes, theme, syntax },
            ),
            _ => None,
        }
    }

    /// A highlighter for C# out of the syntaxes and themes that come with the
    /// highlighting engine.
    pub fn new() -> (result: Highlighter)
        ensures
            result.wf(),
            exists|syntaxes: SyntaxSet, themes: ThemeSet|
                {
                    &&& bundled(syntaxes)
                    &&& bundled_themes(themes)
                    &&& theme_named(themes, "base16-ocean.dark"@) == Some(result.theme)
                    &&& Some(result) == #[trigger] Highlighter::chosen(syntaxes, themes)
                },
    {
        let syntaxes = SyntaxSet::load_defaults_newlines();
        let themes = ThemeSet::load_defaults();
        Highlighter::choose_from(syntaxes, &themes).unwrap()
    }

    /// The state of the highlighting engine in front of line `i`.
    pub open spec fn state_before(&self, lines: Seq<Seq<char>>, i: nat) -> HighlightLines<'static>
        decreases i,
    {
        if i == 0 {
            highlight_start(self.syntax, self.theme)
        } else {
            highlight_next(
                self.state_before(lines, (i - 1) as nat),
                lines[i - 1].push('\n'),
                self.syntax_set,
            ).0
        }
    }

    /// Whether the engine can parse line `i` after the lines before it.
    pub open spec fn parses_line(&self, lines: Seq<Seq<char>>, i: int) -> bool {
        highlight_next(
            self.state_before(lines, i as nat),
            lines[i].push('\n'),
            self.syntax_set,
        ).1 is Some
    }

    /// Whether the engine can parse the first `upto` lines, one after the other.
    pub open spec fn parses(&self, lines: Seq<Seq<char>>, upto: nat) -> bool {
        forall|i: int| 0 <= i < upto ==> #[trigger] self.parses_line(lines, i)
    }

    /// The spans of line `i`, as they come out when all lines before it were
    /// read first. A line that cannot be parsed has none.
    pub open spec fn row(&self, lines: Seq<Seq<char>>, i: int) -> Seq<SpanView> {
        match highlight_next(
            self.state_before(lines, i as nat),
            lines[i].push('\n'),
            self.syntax_set,
        ).1 {
            Some(tokens) => spans_of(tokens),
            None => seq![],
        }
    }

    /// The spans of the first `upto` lines.
    pub open spec fn rows(&self, lines: Seq<Seq<char>>, upto: nat) -> Seq<Seq<SpanView>> {
        let count = if upto <= lines.len() {
            upto
        } else {
            lines.len()
        };
        Seq::new(count, |i: int| self.row(lines, i))
    }

    /// Highlights `lines[0..upto]` from the start of the buffer so
    /// multi-line constructs (block comments, verbatim strings) stay
    /// consistent, and returns styled spans per line.
    pub fn highlight(&self, lines: &Vec<String>, upto: usize) -> (result: Vec<Vec<Span>>)
        requires
            self.wf(),
        ensures
            row_views(result@) == self.rows(text::views(lines@), upto as nat),
            forall|i: int|
                0 <= i < result@.len() && !lines[i]@.contains('\n') ==> style::plain_text(
                    #[trigger] row_views(result@)[i],
                ).is_prefix_of(lines[i]@),
            forall|i: int|
                0 <= i < result@.len() && !lines[i]@.contains('\n') && self.parses(
                    text::views(lines@),
                    (i + 1) as nat,
                ) ==> style::plain_text(#[trigger] row_views(result@)[i]) == lines[i]@,
    {
        let ghost all = text::views(lines@);
        let count: usize = if upto <= lines.len() {
            upto
        } else {
            lines.len()
        };
        let mut at = HighlightLines::new(&self.syntax, &self.theme);
        let mut rows: Vec<Vec<Span>> = Vec::new();
        let mut i: usize = 0;
        while i < count
            invariant
                i <= count <= lines@.len(),
                all == text::views(lines@),
                self.wf(),
                at == self.state_before(all, i as nat),
                row_views(rows@) == Seq::new(i as nat, |j: int| self.row(all, j)),
                forall|j: int|
                    0 <= j < i && !lines[j]@.contains('\n') ==> style::plain_text(
                        #[trigger] self.row(all, j),
                    ).is_prefix_of(lines[j]@),
                forall|j: int|
                    0 <= j < i && !lines[j]@.contains('\n') && self.parses(all, (j + 1) as nat)
                        ==> style::plain_text(#[trigger] self.row(all, j)) == lines[j]@,
            decreases count - i,
        {
            let mut line = lines[i].clone();
            line.push('\n');
            let spans = match highlight_line(&mut at, line.as_str(), &self.syntax_set) {
                Some(tokens) => {
                    proof {
                        if !all[i as int].contains('\n') {
                            lemma_spans_text(token_views(tokens@), all[i as int]);
                        }
                        if self.parses(all, (i + 1) as nat) {
                            assert(self.parses(all, i as nat));
                        }
                    }
                    token_spans(&tokens)
                },
                None => {
                    assert(!self.parses_line(all, i as int));
                    Vec::new()
                },
            };
            assert(style::span_views(spans@) =~= self.row(all, i as int));
            let ghost before = row_views(rows@);
            rows.push(spans);
            assert(row_views(rows@) == before.push(self.row(all, i as int)));
            i += 1;
        }
        rows
    }
}

} // verus!
