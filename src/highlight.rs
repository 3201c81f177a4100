//! Syntax highlighting of code blocks and inline code, with syntect's default
//! syntaxes and themes.

use vstd::prelude::*;
use crate::text::{chars_of, push_char, text_eq};
use syntect::highlighting::{FontStyle, Style, Theme, ThemeSet};
use syntect::html::{
    IncludeBackground, append_highlighted_html_for_styled_line, highlighted_html_for_string,
    start_highlighted_html_snippet, styled_line_to_highlighted_html,
};
use syntect::parsing::SyntaxSet;

verus! {

#[verifier::external_type_specification]
#[verifier::external_body]
pub struct ExSyntaxSet(SyntaxSet);

#[verifier::external_type_specification]
#[verifier::external_body]
pub struct ExTheme(Theme);

/// The names of the themes of syntect's default theme set.
pub open spec fn is_default_theme(name: Seq<char>) -> bool {
    name == "base16-ocean.dark"@ || name == "base16-eighties.dark"@ || name
        == "base16-mocha.dark"@ || name == "base16-ocean.light"@ || name == "InspiredGitHub"@
        || name == "Solarized (dark)"@ || name == "Solarized (light)"@
}

/// Whether `name` names a theme of the default theme set.
pub fn is_default_theme_name(name: &str) -> (r: bool)
    ensures
        r == is_default_theme(name@),
{
    text_eq(name, "base16-ocean.dark") || text_eq(name, "base16-eighties.dark") || text_eq(
        name,
        "base16-mocha.dark",
    ) || text_eq(name, "base16-ocean.light") || text_eq(name, "InspiredGitHub") || text_eq(
        name,
        "Solarized (dark)",
    ) || text_eq(name, "Solarized (light)")
}

/// A character of Unicode's White_Space property.
pub open spec fn is_unicode_whitespace(c: char) -> bool {
    let u = c as u32;
    (0x9 <= u <= 0xD) || u == 0x20 || u == 0x85 || u == 0xA0 || u == 0x1680 || (0x2000 <= u
        <= 0x200A) || u == 0x2028 || u == 0x2029 || u == 0x202F || u == 0x205F || u == 0x3000
}

/// Whether `c` is Unicode white space.
pub fn is_whitespace(c: char) -> (r: bool)
    ensures
        r == is_unicode_whitespace(c),
{
    let u = c as u32;
    (0x9 <= u && u <= 0xD) || u == 0x20 || u == 0x85 || u == 0xA0 || u == 0x1680 || (0x2000 <= u
        && u <= 0x200A) || u == 0x2028 || u == 0x2029 || u == 0x202F || u == 0x205F || u == 0x3000
}

/// A line with each tab of its leading white space written as four spaces;
/// `leading` while the white space at the start of the line goes on.
pub open spec fn expand_tabs_from(s: Seq<char>, leading: bool) -> Seq<char>
    decreases s.len(),
{
    if s.len() == 0 {
        Seq::empty()
    } else {
        let lead = leading && is_unicode_whitespace(s[0]);
        (if lead && s[0] == '\t' {
            seq![' ', ' ', ' ', ' ']
        } else {
            seq![s[0]]
        }) + expand_tabs_from(s.drop_first(), lead)
    }
}

/// Writes each tab of the leading white space of `line` as four spaces.
pub fn expand_leading_tabs(line: &str) -> (r: String)
    ensures
        r@ == expand_tabs_from(line@, true),
{
    let s = chars_of(line);
    let mut out = String::new();
    let mut lead = true;
    let mut i: usize = 0;
    assert(s@.subrange(0, s@.len() as int) =~= line@);
    assert(out@ + expand_tabs_from(line@, true) =~= expand_tabs_from(line@, true));
    while i < s.len()
        invariant
            s@ == line@,
            i <= s@.len(),
            out@ + expand_tabs_from(s@.subrange(i as int, s@.len() as int), lead) == expand_tabs_from(
                line@,
                true,
            ),
        decreases s@.len() - i,
    {
        let ghost rest = s@.subrange(i as int, s@.len() as int);
        assert(rest.drop_first() =~= s@.subrange(i + 1, s@.len() as int));
        let c = s[i];
        lead = lead && is_whitespace(c);
        if lead && c == '\t' {
            push_char(&mut out, ' ');
            push_char(&mut out, ' ');
            push_char(&mut out, ' ');
            push_char(&mut out, ' ');
        } else {
            push_char(&mut out, c);
        }
        assert(out@ + expand_tabs_from(s@.subrange(i + 1, s@.len() as int), lead) =~= expand_tabs_from(
            line@,
            true,
        ));
        i = i + 1;
    }
    assert(s@.subrange(i as int, s@.len() as int) =~= Seq::<char>::empty());
    assert(out@ + Seq::<char>::empty() =~= out@);
    out
}

/// The lines of a text, each with its line feed when it has one.
pub open spec fn lines_with_endings(s: Seq<char>) -> Seq<Seq<char>>
    decreases s.len(),
{
    if s.len() == 0 {
        Seq::empty()
    } else {
        let prev = lines_with_endings(s.drop_last());
        if s.len() == 1 || s[s.len() - 2] == '\n' {
            prev.push(seq![s.last()])
        } else {
            prev.update(prev.len() - 1, prev.last().push(s.last()))
        }
    }
}

proof fn lemma_lines_nonempty(s: Seq<char>)
    ensures
        s.len() > 0 ==> lines_with_endings(s).len() > 0,
    decreases s.len(),
{
    if s.len() > 1 {
        lemma_lines_nonempty(s.drop_last());
    }
}

/// Splits a text after each line feed.
pub fn split_lines(text: &str) -> (r: Vec<String>)
    ensures
        Seq::new(r@.len(), |i: int| r@[i]@) == lines_with_endings(text@),
{
    let s = chars_of(text);
    let mut lines: Vec<String> = Vec::new();
    let mut cur = String::new();
    let mut i: usize = 0;
    while i < s.len()
        invariant
            s@ == text@,
            i <= s@.len(),
            (cur@.len() == 0) == (i == 0 || s@[i - 1] == '\n'),
            Seq::new(lines@.len(), |k: int| lines@[k]@) + (if cur@.len() == 0 {
                Seq::<Seq<char>>::empty()
            } else {
                seq![cur@]
            }) == lines_with_endings(s@.subrange(0, i as int)),
        decreases s@.len() - i,
    {
        let ghost prefix = s@.subrange(0, i + 1);
        assert(prefix.drop_last() =~= s@.subrange(0, i as int));
        let ghost before = Seq::new(lines@.len(), |k: int| lines@[k]@);
        let ghost cur0 = cur@;
        proof {
            lemma_lines_nonempty(s@.subrange(0, i as int));
        }
        let c = s[i];
        push_char(&mut cur, c);
        if c == '\n' {
            let done = cur;
            cur = String::new();
            lines.push(done);
        }
        let ghost after = Seq::new(lines@.len(), |k: int| lines@[k]@);
        proof {
            assert(prefix.last() == c);
            if i > 0 {
                assert(prefix[prefix.len() - 2] == s@[i - 1]);
            }
            let prev = lines_with_endings(s@.subrange(0, i as int));
            if cur0.len() == 0 {
                assert(prev =~= before);
                assert(lines_with_endings(prefix) =~= before.push(seq![c]));
                if c == '\n' {
                    assert(cur0.push(c) =~= seq![c]);
                    assert(after =~= before.push(seq![c]));
                } else {
                    assert(after =~= before);
                    assert(cur@ =~= seq![c]);
                }
            } else {
                assert(prev =~= before.push(cur0));
                assert(lines_with_endings(prefix) =~= before.push(cur0.push(c)));
                if c == '\n' {
                    assert(after =~= before.push(cur0.push(c)));
                } else {
                    assert(after =~= before);
                }
            }
        }
        assert(after + (if cur@.len() == 0 {
            Seq::<Seq<char>>::empty()
        } else {
            seq![cur@]
        }) =~= lines_with_endings(prefix));
        i = i + 1;
    }
    assert(s@.subrange(0, i as int) =~= text@);
    if cur.unicode_len() > 0 {
        lines.push(cur);
    }
    let ghost v = Seq::new(lines@.len(), |k: int| lines@[k]@);
    assert(v =~= lines_with_endings(text@));
    lines
}

/// The lines of a code block as the highlighter receives them.
pub open spec fn prepared_lines(text: Seq<char>) -> Seq<Seq<char>> {
    lines_with_endings(text).map_values(|l: Seq<char>| expand_tabs_from(l, true))
}

/// A language token as characters.
pub open spec fn token_view(token: Option<&str>) -> Option<Seq<char>> {
    match token {
        Some(t) => Some(t@),
        None => None,
    }
}

/// Whether the default syntax set has a syntax for the language token.
pub uninterp spec fn has_syntax_token(token: Seq<char>) -> bool;

/// The HTML that the highlighter writes for `lines` in the language `token` (plain
/// text when `None`) with the default theme named `theme`, when it succeeds.
pub uninterp spec fn highlighted_lines(
    theme: Seq<char>,
    token: Option<Seq<char>>,
    lines: Seq<Seq<char>>,
) -> Option<Seq<char>>;

/// The HTML that the highlighter writes for `text` as one plain segment in the
/// theme's default colours, when the theme has them.
pub uninterp spec fn highlighted_segment(theme: Seq<char>, text: Seq<char>) -> Option<Seq<char>>;

/// The HTML that syntect's whole-text highlighter writes for `text` in the language
/// `token` (plain text when `None`) with the default theme named `theme`.
pub uninterp spec fn highlighted_text(
    theme: Seq<char>,
    token: Option<Seq<char>>,
    text: Seq<char>,
) -> Option<Seq<char>>;

/// Why code could not be highlighted.
#[derive(Clone, Debug, PartialEq, Eq)]
pub enum HighlightError {
    /// No syntax is known for the language token.
    UnknownLanguage(String),
    /// The highlighter failed on the text, or the theme has no default colours.
    Engine,
}

/// Highlights code with the default syntaxes and one default theme.
pub struct SyntaxHighlighter {
    syntaxes: SyntaxSet,
    theme: Theme,
    theme_name: String,
}

/// Relies on syntect's `SyntaxSet::load_defaults_newlines`: the default syntaxes.
#[verifier::external_body]
fn default_syntaxes() -> SyntaxSet {
    SyntaxSet::load_defaults_newlines()
}

/// Relies on syntect's `ThemeSet::load_defaults`, whose map holds each default theme.
#[verifier::external_body]
fn default_theme(name: &str) -> Theme
    requires
        is_default_theme(name@),
{
    ThemeSet::load_defaults().themes.remove(name).unwrap()
}

/// Relies on syntect's `SyntaxSet::find_syntax_by_token` on the default syntaxes.
#[verifier::external_body]
fn token_has_syntax(h: &SyntaxHighlighter, token: &str) -> (r: bool)
    ensures
        r == has_syntax_token(token@),
{
    h.syntaxes.find_syntax_by_token(token).is_some()
}

/// Relies on syntect's `HighlightLines::highlight_line` and the HTML writers of
/// `syntect::html`, line by line, after `start_highlighted_html_snippet`.
#[verifier::external_body]
fn highlight_lines(h: &SyntaxHighlighter, token: Option<&str>, lines: &Vec<String>) -> (r: Option<String>)
    requires
        token matches Some(t) ==> has_syntax_token(t@),
    ensures
        r is Some == highlighted_lines(h.theme(), token_view(token), lines@.map_values(|l: String| l@)) is Some,
        r matches Some(x) ==> x@ == highlighted_lines(h.theme(), token_view(token), lines@.map_values(|l: String| l@))->Some_0,
{
    let syntax = match token {
        Some(t) => h.syntaxes.find_syntax_by_token(t).unwrap(),
        None => h.syntaxes.find_syntax_plain_text(),
    };
    let mut hl = syntect::easy::HighlightLines::new(syntax, &h.theme);
    let (mut out, bg) = start_highlighted_html_snippet(&h.theme);
    for line in lines {
        let regions = hl.highlight_line(line, &h.syntaxes).ok()?;
        append_highlighted_html_for_styled_line(&regions, IncludeBackground::IfDifferent(bg), &mut out).ok()?;
    }
    Some(out)
}

/// Relies on syntect's `highlighted_html_for_string`, which highlights a whole text
/// as a `<pre>` snippet.
#[verifier::external_body]
fn text_html(h: &SyntaxHighlighter, token: Option<&str>, text: &str) -> (r: Option<String>)
    requires
        token matches Some(t) ==> has_syntax_token(t@),
    ensures
        r is Some == highlighted_text(h.theme(), token_view(token), text@) is Some,
        r matches Some(x) ==> x@ == highlighted_text(h.theme(), token_view(token), text@)->Some_0,
{
    let syntax = match token {
        Some(t) => h.syntaxes.find_syntax_by_token(t).unwrap(),
        None => h.syntaxes.find_syntax_plain_text(),
    };
    highlighted_html_for_string(text, &h.syntaxes, syntax, &h.theme).ok()
}

/// Relies on syntect's `styled_line_to_highlighted_html` with the theme's default
/// foreground and background colours.
#[verifier::external_body]
fn segment_html(h: &SyntaxHighlighter, text: &str) -> (r: Option<String>)
    ensures
        r is Some == highlighted_segment(h.theme(), text@) is Some,
        r matches Some(x) ==> x@ == highlighted_segment(h.theme(), text@)->Some_0,
{
    let s = &h.theme.settings;
    let style = Style { foreground: s.foreground?, background: s.background?, font_style: FontStyle::empty() };
    styled_line_to_highlighted_html(&[(style, text)], IncludeBackground::Yes).ok()
}

impl SyntaxHighlighter {
    /// The name of the default theme that the highlighter was built with.
    pub closed spec fn theme(&self) -> Seq<char> {
        self.theme_name@
    }

    /// A highlighter with the default syntaxes and the default theme `theme`.
    pub fn new(theme: &str) -> (r: SyntaxHighlighter)
        requires
            is_default_theme(theme@),
        ensures
            r.theme() == theme@,
    {
        SyntaxHighlighter {
            syntaxes: default_syntaxes(),
            theme: default_theme(theme),
            theme_name: theme.to_owned(),
        }
    }

    /// Highlights a code block. A missing or empty language token means plain text;
    /// an unknown token is an error. Each tab of a line's leading white space counts
    /// as four spaces.
    pub fn highlight_block(&self, text: &str, language: Option<&str>) -> (r: Result<
        String,
        HighlightError,
    >)
        ensures
            ({
                let token = match language {
                    Some(l) => if l@.len() > 0 {
                        Some(l@)
                    } else {
                        None
                    },
                    None => None,
                };
                if token is Some && !has_syntax_token(token->Some_0) {
                    r matches Err(HighlightError::UnknownLanguage(x)) && x@ == token->Some_0
                } else {
                    match highlighted_lines(self.theme(), token, prepared_lines(text@)) {
                        Some(h) => r matches Ok(x) && x@ == h + "</pre>"@,
                        None => r == Err::<String, HighlightError>(HighlightError::Engine),
                    }
                }
            }),
    {
        let token = match language {
            Some(l) => if l.unicode_len() > 0 {
                Some(l)
            } else {
                None
            },
            None => None,
        };
        if let Some(t) = token {
            if !token_has_syntax(self, t) {
                return Err(HighlightError::UnknownLanguage(t.to_owned()));
            }
        }
        let raw = split_lines(text);
        let mut lines: Vec<String> = Vec::new();
        let mut i: usize = 0;
        while i < raw.len()
            invariant
                i <= raw@.len(),
                lines@.len() == i,
                forall|k: int| 0 <= k < i ==> #[trigger] lines@[k]@ == expand_tabs_from(raw@[k]@, true),
            decreases raw@.len() - i,
        {
            lines.push(expand_leading_tabs(raw[i].as_str()));
            i = i + 1;
        }
        assert(lines@.map_values(|l: String| l@) =~= prepared_lines(text@));
        assert(token_view(token) == match language {
            Some(l) => if l@.len() > 0 {
                Some(l@)
            } else {
                None
            },
            None => None,
        });
        match highlight_lines(self, token, &lines) {
            Some(mut out) => {
                out.append("</pre>");
                Ok(out)
            },
            None => Err(HighlightError::Engine),
        }
    }

    /// Highlights inline code as plain text in the theme's default colours, within
    /// a `<code>` element.
    pub fn highlight_segment(&self, text: &str) -> (r: Result<String, HighlightError>)
        ensures
            match highlighted_segment(self.theme(), text@) {
                Some(h) => r matches Ok(x) && x@ == "<code>"@ + h + "</code>"@,
                None => r == Err::<String, HighlightError>(HighlightError::Engine),
            },
    {
        match segment_html(self, text) {
            Some(h) => {
                let mut out = String::new();
                out.append("<code>");
                out.append(h.as_str());
                out.append("</code>");
                proof {
                    assert(out@ =~= "<code>"@ + h@ + "</code>"@);
                }
                Ok(out)
            },
            None => Err(HighlightError::Engine),
        }
    }

    /// Highlights a whole text in one pass, without touching its tabs. Any given
    /// language token, even an empty one, must name a known syntax.
    pub fn highlight(&self, text: &str, language: Option<&str>) -> (r: Result<String, HighlightError>)
        ensures
            language is Some && !has_syntax_token(language->Some_0@) ==> (r matches Err(
                HighlightError::UnknownLanguage(x),
            ) && x@ == language->Some_0@),
            !(language is Some && !has_syntax_token(language->Some_0@)) ==> match highlighted_text(
                self.theme(),
                token_view(language),
                text@,
            ) {
                Some(h) => r matches Ok(x) && x@ == h,
                None => r == Err::<String, HighlightError>(HighlightError::Engine),
            },
    {
        if let Some(t) = language {
            if !token_has_syntax(self, t) {
                return Err(HighlightError::UnknownLanguage(t.to_owned()));
            }
        }
        match text_html(self, language, text) {
            Some(h) => Ok(h),
            None => Err(HighlightError::Engine),
        }
    }
}

} // verus!
