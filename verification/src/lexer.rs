//! Cutting the text of an expression into tokens.
//!
//! Between tokens, blanks count for nothing. A token is a parenthesis, a
//! comma, a name, a number, a text between quotes or a pattern between
//! slashes.

use vstd::prelude::*;
use vstd::std_specs::iter::IteratorSpec;

verus! {

/// One token of an expression.
#[derive(Debug, PartialEq)]
pub enum Token {
    /// A name: of a function, of a column, or `true` or `false`.
    Name(String),
    /// What stood between two quotes, with escapes resolved.
    Text(String),
    /// A number as it was written.
    Number(String),
    /// What stood between two slashes.
    Pattern(String),
    /// `(`
    Open,
    /// `)`
    Close,
    /// `,`
    Comma,
}

/// A token as plain values.
pub enum TokenView {
    Name(Seq<char>),
    Text(Seq<char>),
    Number(Seq<char>),
    Pattern(Seq<char>),
    Open,
    Close,
    Comma,
}

impl View for Token {
    type V = TokenView;

    open spec fn view(&self) -> TokenView {
        match self {
            Token::Name(name) => TokenView::Name(name@),
            Token::Text(text) => TokenView::Text(text@),
            Token::Number(digits) => TokenView::Number(digits@),
            Token::Pattern(source) => TokenView::Pattern(source@),
            Token::Open => TokenView::Open,
            Token::Close => TokenView::Close,
            Token::Comma => TokenView::Comma,
        }
    }
}

/// What each token is.
pub open spec fn token_views(tokens: Seq<Token>) -> Seq<TokenView> {
    Seq::new(tokens.len(), |i: int| tokens[i]@)
}

/// A blank: a space, a tab or an end of line.
pub open spec fn is_blank(c: char) -> bool {
    c == ' ' || c == '\t' || c == '\n' || c == '\r'
}

/// A character that a name may start with: an ASCII letter or an underscore.
pub open spec fn starts_name(c: char) -> bool {
    ('a' <= c <= 'z') || ('A' <= c <= 'Z') || c == '_'
}

/// A character that a name may go on with: one that may start it, or a digit.
pub open spec fn continues_name(c: char) -> bool {
    starts_name(c) || ('0' <= c <= '9')
}

/// A character that a number may start with: a digit or a minus sign.
pub open spec fn starts_number(c: char) -> bool {
    ('0' <= c <= '9') || c == '-'
}

/// A character that a number may go on with: a digit, a point, a sign, or
/// the letter that announces an exponent.
pub open spec fn continues_number(c: char) -> bool {
    ('0' <= c <= '9') || c == '.' || c == '-' || c == '+' || c == 'e' || c == 'E'
}

/// The kinds of runs of characters that make a token or what lies between.
pub enum Run {
    Blank,
    Name,
    Number,
}

impl Run {
    /// Whether the character belongs to a run of this kind.
    pub open spec fn holds(self, c: char) -> bool {
        match self {
            Run::Blank => is_blank(c),
            Run::Name => continues_name(c),
            Run::Number => continues_number(c),
        }
    }

    /// Where the longest run of this kind that starts at `from` ends.
    pub open spec fn end(self, s: Seq<char>, from: int) -> int
        decreases s.len() - from,
    {
        if 0 <= from < s.len() && self.holds(s[from]) {
            self.end(s, from + 1)
        } else {
            from
        }
    }
}

/// A run ends at or after its start, within the text, on a character that is
/// not of its kind.
pub proof fn lemma_run_end(run: Run, s: Seq<char>, from: int)
    requires
        0 <= from <= s.len(),
    ensures
        from <= run.end(s, from) <= s.len(),
        forall|i: int| from <= i < run.end(s, from) ==> run.holds(#[trigger] s[i]),
        run.end(s, from) < s.len() ==> !run.holds(s[run.end(s, from)]),
    decreases s.len() - from,
{
    if from < s.len() && run.holds(s[from]) {
        lemma_run_end(run, s, from + 1);
    }
}

/// What a character after a backslash stands for within quotes: `n`, `t` and
/// `r` stand for an end of line, a tab and a return, any other for itself.
pub open spec fn escaped(c: char) -> char {
    if c == 'n' {
        '\n'
    } else if c == 't' {
        '\t'
    } else if c == 'r' {
        '\r'
    } else {
        c
    }
}

/// The text that runs from `from` up to the next `quote` that no backslash
/// precedes, and the place after that quote. Within quotes a backslash
/// stands for nothing and the character after it for what `escaped` says.
/// Within slashes only a slash is escaped, and any other backslash stays.
/// `None` where the text ends before the closing quote.
pub open spec fn quoted(s: Seq<char>, from: int, quote: char) -> Option<(Seq<char>, int)>
    decreases s.len() - from,
{
    if from < 0 || from >= s.len() {
        None
    } else if s[from] == quote {
        Some((Seq::empty(), from + 1))
    } else if s[from] == '\\' && from + 1 < s.len() && (quote != '/' || s[from + 1] == '/') {
        match quoted(s, from + 2, quote) {
            Some((rest, end)) => Some(
                (
                    seq![
                        if quote == '/' {
                            '/'
                        } else {
                            escaped(s[from + 1])
                        },
                    ] + rest,
                    end,
                ),
            ),
            None => None,
        }
    } else {
        match quoted(s, from + 1, quote) {
            Some((rest, end)) => Some((seq![s[from]] + rest, end)),
            None => None,
        }
    }
}

/// The token that starts at `from`, where no blank stands, and the place
/// after it. `None` where no token starts there.
pub open spec fn token_at(s: Seq<char>, from: int) -> Option<(TokenView, int)> {
    if from < 0 || from >= s.len() {
        None
    } else if s[from] == '(' {
        Some((TokenView::Open, from + 1))
    } else if s[from] == ')' {
        Some((TokenView::Close, from + 1))
    } else if s[from] == ',' {
        Some((TokenView::Comma, from + 1))
    } else if starts_name(s[from]) {
        Some((TokenView::Name(s.subrange(from, Run::Name.end(s, from))), Run::Name.end(s, from)))
    } else if starts_number(s[from]) {
        Some(
            (
                TokenView::Number(s.subrange(from, Run::Number.end(s, from))),
                Run::Number.end(s, from),
            ),
        )
    } else if s[from] == '"' || s[from] == '\'' {
        match quoted(s, from + 1, s[from]) {
            Some((text, end)) => Some((TokenView::Text(text), end)),
            None => None,
        }
    } else if s[from] == '/' {
        match quoted(s, from + 1, '/') {
            Some((source, end)) => Some((TokenView::Pattern(source), end)),
            None => None,
        }
    } else {
        None
    }
}

/// What is quoted ends after its start and within the text.
pub proof fn lemma_quoted_end(s: Seq<char>, from: int, quote: char)
    requires
        quoted(s, from, quote) is Some,
    ensures
        quoted(s, from, quote) matches Some((_, end)) && from < end <= s.len(),
    decreases s.len() - from,
{
    if s[from] == quote {
    } else if s[from] == '\\' && from + 1 < s.len() && (quote != '/' || s[from + 1] == '/') {
        lemma_quoted_end(s, from + 2, quote);
    } else {
        lemma_quoted_end(s, from + 1, quote);
    }
}

/// A token ends after its start and within the text.
pub proof fn lemma_token_end(s: Seq<char>, from: int)
    requires
        token_at(s, from) is Some,
    ensures
        token_at(s, from) matches Some((_, end)) && from < end <= s.len(),
{
    if starts_name(s[from]) {
        lemma_run_end(Run::Name, s, from + 1);
        assert(Run::Name.holds(s[from]));
    } else if starts_number(s[from]) && s[from] != '(' && s[from] != ')' && s[from] != ',' {
        lemma_run_end(Run::Number, s, from + 1);
        assert(Run::Number.holds(s[from]));
    } else if s[from] == '"' || s[from] == '\'' {
        lemma_quoted_end(s, from + 1, s[from]);
    } else if s[from] == '/' {
        lemma_quoted_end(s, from + 1, '/');
    }
}

/// The tokens of the text from `from` on, or the place where something
/// stands that is no token.
pub open spec fn tokens_from(s: Seq<char>, from: int) -> Result<Seq<TokenView>, int>
    decreases s.len() - from,
{
    let start = Run::Blank.end(s, from);
    if from < 0 || start >= s.len() {
        Ok(Seq::empty())
    } else {
        match token_at(s, start) {
            None => Err(start),
            Some((token, end)) => if from <= start < end <= s.len() {
                match tokens_from(s, end) {
                    Ok(rest) => Ok(seq![token] + rest),
                    Err(place) => Err(place),
                }
            } else {
                Err(start)
            },
        }
    }
}

/// The tokens of a text, or the place of the first character with which no
/// token starts.
pub open spec fn tokens_of(s: Seq<char>) -> Result<Seq<TokenView>, int> {
    tokens_from(s, 0)
}

/// The characters of a text.
pub fn characters(text: &str) -> (chars: Vec<char>)
    ensures
        chars@ == text@,
{
    broadcast use vstd::string::group_string_axioms;

    let mut chars: Vec<char> = Vec::new();
    let mut iter = text.chars();
    loop
        invariant
            chars@ + iter.remaining() == text@,
        decreases text@.len() - chars@.len(),
    {
        let ghost before = iter.remaining();
        match iter.next() {
            None => {
                assert(chars@ + before =~= chars@);
                return chars;
            },
            Some(c) => {
                let ghost had = chars@;
                chars.push(c);
                assert(chars@ + iter.remaining() =~= had + before);
            },
        }
    }
}

/// The text that the characters make, as `String::from_iter` of the
/// standard library gathers them.
#[verifier::external_body]
fn gather(chars: &Vec<char>) -> (text: String)
    ensures
        text@ == chars@,
{
    String::from_iter(chars.iter())
}

/// The text of the characters from `from` up to `end`.
pub fn text_between(chars: &Vec<char>, from: usize, end: usize) -> (text: String)
    requires
        from <= end <= chars@.len(),
    ensures
        text@ == chars@.subrange(from as int, end as int),
{
    let mut part: Vec<char> = Vec::with_capacity(end - from);
    let mut i: usize = from;
    while i < end
        invariant
            from <= i <= end <= chars@.len(),
            part@ == chars@.subrange(from as int, i as int),
        decreases end - i,
    {
        part.push(chars[i]);
        assert(chars@.subrange(from as int, i + 1) =~= chars@.subrange(from as int, i as int).push(
            chars@[i as int],
        ));
        i = i + 1;
    }
    gather(&part)
}

/// Whether the character belongs to a run of the kind.
fn run_holds(run: &Run, c: char) -> (r: bool)
    ensures
        r == run.holds(c),
{
    let digit = c >= '0' && c <= '9';
    match run {
        Run::Blank => c == ' ' || c == '\t' || c == '\n' || c == '\r',
        Run::Name => (c >= 'a' && c <= 'z') || (c >= 'A' && c <= 'Z') || c == '_' || digit,
        Run::Number => digit || c == '.' || c == '-' || c == '+' || c == 'e' || c == 'E',
    }
}

/// Where the longest run of the kind that starts at `from` ends.
fn run_end(run: Run, chars: &Vec<char>, from: usize) -> (end: usize)
    requires
        from <= chars@.len(),
    ensures
        end == run.end(chars@, from as int),
        from <= end <= chars@.len(),
{
    let mut end: usize = from;
    while end < chars.len() && run_holds(&run, chars[end])
        invariant
            from <= end <= chars@.len(),
            run.end(chars@, from as int) == run.end(chars@, end as int),
        decreases chars@.len() - end,
    {
        end = end + 1;
    }
    end
}

/// Reads what is quoted from `from` on, up to the closing `quote`.
fn read_quoted(chars: &Vec<char>, from: usize, quote: char) -> (r: Option<(String, usize)>)
    requires
        from <= chars@.len(),
    ensures
        match quoted(chars@, from as int, quote) {
            Some((text, end)) => r matches Some((read, stop)) && read@ == text && stop == end
                && from < stop <= chars@.len(),
            None => r is None,
        },
{
    let mut read: Vec<char> = Vec::new();
    let mut at: usize = from;
    loop
        invariant
            from <= at <= chars@.len(),
            match quoted(chars@, at as int, quote) {
                Some((rest, end)) => quoted(chars@, from as int, quote) == Some(
                    (read@ + rest, end),
                ),
                None => quoted(chars@, from as int, quote) is None,
            },
        decreases chars@.len() - at,
    {
        if at >= chars.len() {
            return None;
        }
        let c = chars[at];
        if c == quote {
            let text = text_between(&read, 0, read.len());
            assert(read@.subrange(0, read@.len() as int) =~= read@);
            assert(read@ + Seq::<char>::empty() =~= read@);
            return Some((text, at + 1));
        }
        let ghost before = read@;
        if c == '\\' && at + 1 < chars.len() && (quote != '/' || chars[at + 1] == '/') {
            let next = chars[at + 1];
            let kept = if quote == '/' {
                '/'
            } else if next == 'n' {
                '\n'
            } else if next == 't' {
                '\t'
            } else if next == 'r' {
                '\r'
            } else {
                next
            };
            read.push(kept);
            proof {
                match quoted(chars@, at + 2, quote) {
                    Some((rest, end)) => {
                        assert(before + (seq![kept] + rest) =~= read@ + rest);
                    },
                    None => {},
                }
            }
            at = at + 2;
        } else {
            read.push(c);
            proof {
                match quoted(chars@, at + 1, quote) {
                    Some((rest, end)) => {
                        assert(before + (seq![c] + rest) =~= read@ + rest);
                    },
                    None => {},
                }
            }
            at = at + 1;
        }
    }
}

/// Reads the token that starts at `from`.
fn read_token(chars: &Vec<char>, from: usize) -> (r: Option<(Token, usize)>)
    requires
        from < chars@.len(),
    ensures
        match token_at(chars@, from as int) {
            Some((token, end)) => r matches Some((read, stop)) && read@ == token && stop == end
                && from < stop <= chars@.len(),
            None => r is None,
        },
{
    let c = chars[from];
    assert(from < chars.len());
    proof {
        if token_at(chars@, from as int) is Some {
            lemma_token_end(chars@, from as int);
        }
    }
    if c == '(' {
        Some((Token::Open, from + 1))
    } else if c == ')' {
        Some((Token::Close, from + 1))
    } else if c == ',' {
        Some((Token::Comma, from + 1))
    } else if (c >= 'a' && c <= 'z') || (c >= 'A' && c <= 'Z') || c == '_' {
        let end = run_end(Run::Name, chars, from);
        Some((Token::Name(text_between(chars, from, end)), end))
    } else if (c >= '0' && c <= '9') || c == '-' {
        let end = run_end(Run::Number, chars, from);
        Some((Token::Number(text_between(chars, from, end)), end))
    } else if c == '"' || c == '\'' {
        match read_quoted(chars, from + 1, c) {
            Some((text, end)) => Some((Token::Text(text), end)),
            None => None,
        }
    } else if c == '/' {
        match read_quoted(chars, from + 1, '/') {
            Some((source, end)) => Some((Token::Pattern(source), end)),
            None => None,
        }
    } else {
        None
    }
}

/// Cuts a text into its tokens. Where a character stands with which no token
/// starts, its place is the error.
pub fn tokenize(text: &str) -> (r: Result<Vec<Token>, usize>)
    ensures
        match tokens_of(text@) {
            Ok(tokens) => r matches Ok(read) && token_views(read@) == tokens,
            Err(place) => r == Err::<Vec<Token>, usize>(place as usize) && 0 <= place < text@.len(),
        },
{
    let chars = characters(text);
    let mut tokens: Vec<Token> = Vec::new();
    let mut at: usize = 0;
    loop
        invariant
            chars@ == text@,
            at <= chars@.len(),
            match tokens_from(chars@, at as int) {
                Ok(rest) => tokens_of(chars@) == Ok::<Seq<TokenView>, int>(
                    token_views(tokens@) + rest,
                ),
                Err(place) => tokens_of(chars@) == Err::<Seq<TokenView>, int>(place),
            },
        decreases chars@.len() - at,
    {
        let start = run_end(Run::Blank, &chars, at);
        if start >= chars.len() {
            assert(token_views(tokens@) + Seq::<TokenView>::empty() =~= token_views(tokens@));
            return Ok(tokens);
        }
        match read_token(&chars, start) {
            None => {
                return Err(start);
            },
            Some((token, end)) => {
                let ghost before = token_views(tokens@);
                let ghost view = token@;
                tokens.push(token);
                proof {
                    assert(token_views(tokens@) =~= before + seq![view]);
                    match tokens_from(chars@, end as int) {
                        Ok(rest) => {
                            assert(before + (seq![view] + rest) =~= token_views(tokens@) + rest);
                        },
                        Err(_) => {},
                    }
                }
                at = end;
            },
        }
    }
}

} // verus!
