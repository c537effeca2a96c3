//! Writing expressions down, and reading what was written.
//!
//! Every expression can be written as a text, token by token with a blank
//! after each, and the text reads back as the expression. This is what
//! makes the grammar whole: there is no shape of expression that no text
//! writes, and none that a text writes in two ways.

use crate::float::Float64;
use crate::floats::{float_text, write_float, writes_purely};
use crate::lexer::{
    characters,
    text_between,
    token_views,
    Token,
    continues_name,
    continues_number,
    is_blank,
    quoted,
    starts_name,
    starts_number,
    token_at,
    tokens_from,
    Run,
    TokenView,
};
use crate::parser::{
    lemma_shape_of_call,
    lemma_tokens_read_back,
    listed,
    parsed,
    reads_back,
    shapes,
    Argument,
    Ast,
    ParseError,
};
use crate::text::{decimal, i64_to_string, is_digit, lemma_decimal_reads_back, signed_decimal};
use vstd::prelude::*;

verus! {

/// Whether a text is a name: a letter or an underscore, then letters, digits
/// and underscores.
pub open spec fn is_name(text: Seq<char>) -> bool {
    text.len() > 0 && starts_name(text[0]) && forall|i: int|
        0 <= i < text.len() ==> continues_name(#[trigger] text[i])
}

/// Whether a text has the form of a number: a digit or a minus sign, then
/// digits, points, signs and the letter of an exponent.
pub open spec fn is_number(text: Seq<char>) -> bool {
    text.len() > 0 && starts_number(text[0]) && forall|i: int|
        0 <= i < text.len() ==> continues_number(#[trigger] text[i])
}

/// What is written between quotes or slashes for a text: each character as
/// it is, with a backslash before the closing character and, between
/// quotes, before a backslash.
pub open spec fn escaped_text(text: Seq<char>, quote: char) -> Seq<char>
    decreases text.len(),
{
    if text.len() == 0 {
        Seq::empty()
    } else if text[0] == quote || (text[0] == '\\' && quote != '/') {
        seq!['\\', text[0]] + escaped_text(text.drop_first(), quote)
    } else {
        seq![text[0]] + escaped_text(text.drop_first(), quote)
    }
}

/// Whether the token can be written: a name is a name, a number has the
/// form of one, and a pattern does not end with a backslash.
pub open spec fn token_is_writable(token: TokenView) -> bool {
    match token {
        TokenView::Name(name) => is_name(name),
        TokenView::Number(digits) => is_number(digits),
        TokenView::Pattern(source) => source.len() == 0 || source.last() != '\\',
        _ => true,
    }
}

/// The text that writes a token.
pub open spec fn token_text(token: TokenView) -> Seq<char> {
    match token {
        TokenView::Name(name) => name,
        TokenView::Number(digits) => digits,
        TokenView::Text(text) => seq!['"'] + escaped_text(text, '"') + seq!['"'],
        TokenView::Pattern(source) => seq!['/'] + escaped_text(source, '/') + seq!['/'],
        TokenView::Open => seq!['('],
        TokenView::Close => seq![')'],
        TokenView::Comma => seq![','],
    }
}

/// The text that writes the tokens from rank `from` on, a blank after each.
pub open spec fn tokens_text(tokens: Seq<TokenView>, from: int) -> Seq<char>
    decreases tokens.len() - from,
{
    if from < 0 || from >= tokens.len() {
        Seq::empty()
    } else {
        token_text(tokens[from]) + seq![' '] + tokens_text(tokens, from + 1)
    }
}

/// A run that holds from `from` up to `end`, and not at `end`, ends at `end`.
pub proof fn lemma_run_stops(run: Run, s: Seq<char>, from: int, end: int)
    requires
        0 <= from <= end <= s.len(),
        forall|i: int| from <= i < end ==> run.holds(#[trigger] s[i]),
        end < s.len() ==> !run.holds(s[end]),
    ensures
        run.end(s, from) == end,
    decreases end - from,
{
    if from < end {
        lemma_run_stops(run, s, from + 1, end);
    }
}

/// What was written between quotes or slashes for a text reads back as the
/// text, up to the closing character.
pub proof fn lemma_quoted_reads_back(s: Seq<char>, from: int, text: Seq<char>, quote: char)
    requires
        quote == '"' || quote == '/',
        quote == '/' ==> text.len() == 0 || text.last() != '\\',
        0 <= from,
        from + escaped_text(text, quote).len() < s.len(),
        s.subrange(from, from + escaped_text(text, quote).len() + 1) == escaped_text(text, quote)
            + seq![quote],
    ensures
        quoted(s, from, quote) == Some((text, from + escaped_text(text, quote).len() + 1)),
    decreases text.len(),
{
    let written = escaped_text(text, quote);
    let part = s.subrange(from, from + written.len() + 1);
    assert(part[0] == s[from]);
    if text.len() == 0 {
        assert(s[from] == quote);
    } else {
        let rest = text.drop_first();
        let rest_written = escaped_text(rest, quote);
        if rest.len() > 0 {
            assert(rest.last() == text.last());
        }
        if text[0] == quote || (text[0] == '\\' && quote != '/') {
            assert(part[1] == s[from + 1]);
            assert(written[0] == '\\');
            assert(written[1] == text[0]);
            assert(s.subrange(from + 2, from + 2 + rest_written.len() + 1) =~= rest_written
                + seq![quote]) by {
                assert forall|i: int| 0 <= i < rest_written.len() + 1 implies s[from + 2 + i] == (
                rest_written + seq![quote])[i] by {
                    assert(part[i + 2] == s[from + 2 + i]);
                }
            }
            lemma_quoted_reads_back(s, from + 2, rest, quote);
            assert(text =~= seq![text[0]] + rest);
        } else {
            assert(written[0] == text[0]);
            if text[0] == '\\' {
                // Between slashes a backslash stays, unless a slash follows:
                // here none does, or the backslash would be the last character.
                assert(rest.len() > 0);
                assert(part[1] == s[from + 1]);
                assert(written[1] == rest_written[0]);
                if rest[0] == '/' {
                    assert(rest_written[0] == '\\');
                } else {
                    assert(rest_written[0] == rest[0]);
                }
                assert(s[from + 1] != '/');
            }
            assert(s.subrange(from + 1, from + 1 + rest_written.len() + 1) =~= rest_written
                + seq![quote]) by {
                assert forall|i: int| 0 <= i < rest_written.len() + 1 implies s[from + 1 + i] == (
                rest_written + seq![quote])[i] by {
                    assert(part[i + 1] == s[from + 1 + i]);
                }
            }
            lemma_quoted_reads_back(s, from + 1, rest, quote);
            assert(text =~= seq![text[0]] + rest);
        }
    }
}

/// A token that was written, with a blank after it, reads back as the token.
pub proof fn lemma_token_reads_back(s: Seq<char>, from: int, token: TokenView)
    requires
        token_is_writable(token),
        0 <= from,
        from + token_text(token).len() < s.len(),
        s.subrange(from, from + token_text(token).len() + 1) == token_text(token) + seq![' '],
    ensures
        token_at(s, from) == Some((token, from + token_text(token).len())),
        !is_blank(s[from]),
{
    let written = token_text(token);
    let end = from + written.len();
    let part = s.subrange(from, end + 1);
    assert(part[0] == s[from]);
    assert forall|i: int| 0 <= i <= written.len() implies s[from + i] == #[trigger] part[i] by {}
    assert(s[end] == ' ') by {
        assert(part[written.len() as int] == ' ');
    }
    match token {
        TokenView::Name(name) => {
            assert forall|i: int| from <= i < end implies Run::Name.holds(#[trigger] s[i]) by {
                assert(s[i] == part[i - from]);
                assert(continues_name(name[i - from]));
            }
            lemma_run_stops(Run::Name, s, from, end);
            assert(s.subrange(from, end) =~= name);
        },
        TokenView::Number(digits) => {
            assert forall|i: int| from <= i < end implies Run::Number.holds(#[trigger] s[i]) by {
                assert(s[i] == part[i - from]);
                assert(continues_number(digits[i - from]));
            }
            lemma_run_stops(Run::Number, s, from, end);
            assert(s.subrange(from, end) =~= digits);
        },
        TokenView::Text(text) => {
            let inner = escaped_text(text, '"');
            assert(s.subrange(from + 1, from + 1 + inner.len() + 1) =~= inner + seq!['"']) by {
                assert forall|i: int| 0 <= i < inner.len() + 1 implies s[from + 1 + i] == (inner
                    + seq!['"'])[i] by {
                    assert(part[i + 1] == s[from + 1 + i]);
                }
            }
            lemma_quoted_reads_back(s, from + 1, text, '"');
        },
        TokenView::Pattern(source) => {
            let inner = escaped_text(source, '/');
            assert(s.subrange(from + 1, from + 1 + inner.len() + 1) =~= inner + seq!['/']) by {
                assert forall|i: int| 0 <= i < inner.len() + 1 implies s[from + 1 + i] == (inner
                    + seq!['/'])[i] by {
                    assert(part[i + 1] == s[from + 1 + i]);
                }
            }
            lemma_quoted_reads_back(s, from + 1, source, '/');
        },
        _ => {},
    }
}

/// Tokens that were written read back as the tokens.
pub proof fn lemma_tokens_are_read_back(
    tokens: Seq<TokenView>,
    from: int,
    before: Seq<char>,
)
    requires
        0 <= from <= tokens.len(),
        forall|i: int| 0 <= i < tokens.len() ==> token_is_writable(#[trigger] tokens[i]),
    ensures
        tokens_from(before + tokens_text(tokens, from), before.len() as int) == Ok::<
            Seq<TokenView>,
            int,
        >(tokens.skip(from)),
    decreases tokens.len() - from,
{
    let s = before + tokens_text(tokens, from);
    let at = before.len() as int;
    if from == tokens.len() {
        assert(s =~= before);
        assert(tokens.skip(from) =~= Seq::<TokenView>::empty());
        assert(Run::Blank.end(s, at) == at);
    } else {
        let token = tokens[from];
        let written = token_text(token);
        let rest = tokens_text(tokens, from + 1);
        assert(s =~= before + written + seq![' '] + rest);
        assert(s.subrange(at, at + written.len() + 1) =~= written + seq![' ']);
        lemma_token_reads_back(s, at, token);
        assert(Run::Blank.end(s, at) == at);
        let end = at + written.len();
        let passed = before + written;
        // The blank after the token belongs to what stands before the next.
        lemma_tokens_are_read_back(tokens, from + 1, passed + seq![' ']);
        assert(s =~= (passed + seq![' ']) + rest);
        lemma_blank_is_skipped(s, end);
        assert(tokens.skip(from) =~= seq![token] + tokens.skip(from + 1));
    }
}

/// Tokens are read the same from a blank as from after it.
pub proof fn lemma_blank_is_skipped(s: Seq<char>, at: int)
    requires
        0 <= at < s.len(),
        is_blank(s[at]),
    ensures
        tokens_from(s, at) == tokens_from(s, at + 1),
{
    assert(Run::Blank.end(s, at) == Run::Blank.end(s, at + 1));
    crate::lexer::lemma_run_end(Run::Blank, s, at + 1);
    let start = Run::Blank.end(s, at);
    if start < s.len() {
        match token_at(s, start) {
            Some((token, end)) => {
                crate::lexer::lemma_token_end(s, start);
            },
            None => {},
        }
    }
}

impl Ast {
    /// Whether the expression can be written as a text: every name in it is
    /// a name, a name that stands on its own is none of the two words for
    /// true and false, and no pattern ends with a backslash.
    pub open spec fn well_named(self) -> bool
        decreases self,
    {
        match self {
            Ast::Identifier(name) => is_name(name) && name != "true"@ && name != "false"@,
            Ast::RegexLiteral(source) => source.len() == 0 || source.last() != '\\',
            Ast::Call(name, args) => is_name(name) && forall|i: int|
                0 <= i < args.len() ==> (#[trigger] args[i]).well_named(),
            _ => true,
        }
    }

    /// The text that writes the expression, where `written` is how a
    /// floating-point number is written.
    pub open spec fn text(self, written: spec_fn(Float64) -> Seq<char>) -> Seq<char> {
        tokens_text(self.tokens(written), 0)
    }
}

/// Whether every floating-point number is written in the form of a number.
pub open spec fn writes_numbers(written: spec_fn(Float64) -> Seq<char>) -> bool {
    forall|number: Float64| is_number(#[trigger] written(number))
}

/// A whole number is written in the form of a number.
pub proof fn lemma_whole_number_is_a_number(v: int)
    ensures
        is_number(signed_decimal(v)),
{
    let written = signed_decimal(v);
    if v < 0 {
        lemma_decimal_reads_back((-v) as nat);
        let digits = decimal((-v) as nat);
        assert forall|i: int| 0 <= i < written.len() implies continues_number(
            #[trigger] written[i],
        ) by {
            if i > 0 {
                assert(written[i] == digits[i - 1]);
                assert(is_digit(digits[i - 1]));
            }
        }
    } else {
        lemma_decimal_reads_back(v as nat);
        let digits = decimal(v as nat);
        assert forall|i: int| 0 <= i < written.len() implies continues_number(
            #[trigger] written[i],
        ) by {
            assert(is_digit(digits[i]));
        }
        assert(is_digit(digits[0]));
    }
}

/// The tokens of an expression that can be written can be written.
pub proof fn lemma_tokens_are_writable(
    ast: Ast,
    written: spec_fn(Float64) -> Seq<char>,
    i: int,
)
    requires
        ast.well_named(),
        writes_numbers(written),
        0 <= i < ast.tokens(written).len(),
    ensures
        token_is_writable(ast.tokens(written)[i]),
        ast.writable(),
    decreases ast, 0nat,
{
    match ast {
        Ast::IntegerLiteral(number) => {
            lemma_whole_number_is_a_number(number as int);
        },
        Ast::BooleanLiteral(truth) => {
            reveal_strlit("true");
            reveal_strlit("false");
            assert("true"@ =~= seq!['t', 'r', 'u', 'e']);
            assert("false"@ =~= seq!['f', 'a', 'l', 's', 'e']);
        },
        Ast::Call(name, args) => {
            if i >= 2 {
                lemma_listed_is_writable(args, 0, written, i - 2);
            }
            assert forall|k: int| 0 <= k < args.len() implies (#[trigger] args[k]).writable() by {
                lemma_first_token(args[k], written);
                lemma_tokens_are_writable(args[k], written, 0);
            }
        },
        _ => {},
    }
}

/// An expression has a token.
proof fn lemma_first_token(ast: Ast, written: spec_fn(Float64) -> Seq<char>)
    ensures
        ast.tokens(written).len() > 0,
{
}

/// The tokens of operands that can be written can be written.
pub proof fn lemma_listed_is_writable(
    args: Seq<Ast>,
    from: int,
    written: spec_fn(Float64) -> Seq<char>,
    i: int,
)
    requires
        0 <= from <= args.len(),
        forall|k: int| 0 <= k < args.len() ==> (#[trigger] args[k]).well_named(),
        writes_numbers(written),
        0 <= i < listed(args, from, written).len(),
    ensures
        token_is_writable(listed(args, from, written)[i]),
    decreases args, args.len() - from,
{
    if from < args.len() {
        let own = args[from].tokens(written);
        if i < own.len() {
            lemma_tokens_are_writable(args[from], written, i);
        } else if from + 1 < args.len() && i > own.len() {
            lemma_listed_is_writable(args, from + 1, written, i - own.len() - 1);
        }
    }
}

/// Every expression that can be written reads back from its text as
/// itself.
pub proof fn lemma_text_reads_back(
    ast: Ast,
    written: spec_fn(Float64) -> Seq<char>,
    float_of: spec_fn(Seq<char>) -> Option<Float64>,
)
    requires
        ast.well_named(),
        writes_numbers(written),
        reads_back(written, float_of),
    ensures
        parsed(ast.text(written), float_of) == Ok::<Ast, ParseError>(ast),
{
    let tokens = ast.tokens(written);
    assert forall|i: int| 0 <= i < tokens.len() implies token_is_writable(#[trigger] tokens[i]) by {
        lemma_tokens_are_writable(ast, written, i);
    }
    lemma_first_token(ast, written);
    lemma_tokens_are_writable(ast, written, 0);
    lemma_tokens_are_read_back(tokens, 0, Seq::empty());
    assert(Seq::<char>::empty() + tokens_text(tokens, 0) =~= tokens_text(tokens, 0));
    assert(tokens.skip(0) =~= tokens);
    lemma_tokens_read_back(ast, written, float_of);
}

/// How a pure `format_float` writes each number.
pub open spec fn writer<F: Fn(Float64) -> String>(format_float: &F) -> spec_fn(Float64) -> Seq<
    char,
> {
    |number: Float64| float_text(format_float, number)
}

/// Writes what stands between quotes or slashes for a text.
pub fn escape(text: &str, quote: char) -> (written: String)
    ensures
        written@ == escaped_text(text@, quote),
{
    let chars = characters(text);
    let mut out: Vec<char> = Vec::new();
    let mut i: usize = 0;
    assert(chars@.skip(0) =~= chars@);
    while i < chars.len()
        invariant
            chars@ == text@,
            i <= chars@.len(),
            out@ + escaped_text(chars@.skip(i as int), quote) == escaped_text(chars@, quote),
        decreases chars@.len() - i,
    {
        let c = chars[i];
        let ghost before = out@;
        let ghost left = chars@.skip(i as int);
        assert(left[0] == c);
        assert(left.drop_first() =~= chars@.skip(i + 1));
        if c == quote || (c == '\\' && quote != '/') {
            out.push('\\');
            out.push(c);
            assert(out@ + escaped_text(chars@.skip(i + 1), quote) =~= before + (seq!['\\', c]
                + escaped_text(left.drop_first(), quote)));
        } else {
            out.push(c);
            assert(out@ + escaped_text(chars@.skip(i + 1), quote) =~= before + (seq![c]
                + escaped_text(left.drop_first(), quote)));
        }
        i = i + 1;
    }
    assert(out@ + Seq::<char>::empty() =~= out@);
    let n = out.len();
    let written = text_between(&out, 0, n);
    assert(out@.subrange(0, n as int) =~= out@);
    written
}

/// Writes a token.
pub fn write_token(token: &Token) -> (written: String)
    ensures
        written@ == token_text(token@),
{
    proof {
        reveal_strlit("\"");
        reveal_strlit("/");
        reveal_strlit("(");
        reveal_strlit(")");
        reveal_strlit(",");
    }
    match token {
        Token::Name(name) => name.clone(),
        Token::Number(digits) => digits.clone(),
        Token::Text(text) => {
            let mut written = "\"".to_owned();
            written.append(escape(text.as_str(), '"').as_str());
            written.append("\"");
            assert(written@ =~= token_text(token@));
            written
        },
        Token::Pattern(source) => {
            let mut written = "/".to_owned();
            written.append(escape(source.as_str(), '/').as_str());
            written.append("/");
            assert(written@ =~= token_text(token@));
            written
        },
        Token::Open => {
            assert("("@ =~= seq!['(']);
            "(".to_owned()
        },
        Token::Close => {
            assert(")"@ =~= seq![')']);
            ")".to_owned()
        },
        Token::Comma => {
            assert(","@ =~= seq![',']);
            ",".to_owned()
        },
    }
}

/// The text of one token more is the text of the tokens before it, its own
/// text and a blank.
proof fn lemma_tokens_text_grows(tokens: Seq<TokenView>, upto: int)
    requires
        0 <= upto < tokens.len(),
    ensures
        tokens_text(tokens.take(upto + 1), 0) == tokens_text(tokens.take(upto), 0) + token_text(
            tokens[upto],
        ) + seq![' '],
{
    lemma_tokens_text_of_more(tokens.take(upto + 1), 0, upto);
    assert(tokens.take(upto + 1).take(upto) =~= tokens.take(upto));
}

/// The text of tokens up to the last, and the last.
proof fn lemma_tokens_text_of_more(tokens: Seq<TokenView>, from: int, last: int)
    requires
        0 <= from <= last,
        last + 1 == tokens.len(),
    ensures
        tokens_text(tokens, from) == tokens_text(tokens.take(last), from) + token_text(tokens[last])
            + seq![' '],
    decreases last - from,
{
    let shorter = tokens.take(last);
    if from == last {
        assert(tokens_text(tokens, from + 1) =~= Seq::<char>::empty());
        assert(tokens_text(shorter, from) =~= Seq::<char>::empty());
        assert(tokens_text(tokens, from) =~= token_text(tokens[last]) + seq![' ']);
    } else {
        lemma_tokens_text_of_more(tokens, from + 1, last);
        assert(shorter[from] == tokens[from]);
        assert(tokens_text(tokens, from) =~= token_text(tokens[from]) + seq![' '] + (tokens_text(
            shorter,
            from + 1,
        ) + token_text(tokens[last]) + seq![' ']));
    }
}

/// Writes tokens as a text, a blank after each.
pub fn write_tokens(tokens: &Vec<Token>) -> (written: String)
    ensures
        written@ == tokens_text(token_views(tokens@), 0),
{
    let ghost views = token_views(tokens@);
    let mut written = String::new();
    let mut i: usize = 0;
    assert(tokens_text(views.take(0), 0) =~= Seq::<char>::empty());
    while i < tokens.len()
        invariant
            views == token_views(tokens@),
            i <= tokens@.len(),
            written@ == tokens_text(views.take(i as int), 0),
        decreases tokens@.len() - i,
    {
        proof {
            lemma_tokens_text_grows(views, i as int);
        }
        written.append(write_token(&tokens[i]).as_str());
        proof {
            reveal_strlit(" ");
            assert(" "@ =~= seq![' ']);
        }
        written.append(" ");
        i = i + 1;
    }
    assert(views.take(i as int) =~= views);
    written
}

/// Adds to `tokens` those that write an expression down.
pub fn push_tokens<F: Fn(Float64) -> String>(
    tokens: &mut Vec<Token>,
    ast: &Argument,
    format_float: &F,
)
    requires
        writes_purely(format_float),
    ensures
        token_views(final(tokens)@) == token_views(old(tokens)@) + ast@.tokens(writer(format_float)),
    decreases ast,
{
    let ghost before = token_views(tokens@);
    let ghost written = writer(format_float);
    match ast {
        Argument::StringLiteral(text) => {
            tokens.push(Token::Text(text.clone()));
        },
        Argument::FloatLiteral(number) => {
            tokens.push(Token::Number(write_float(format_float, *number)));
        },
        Argument::IntegerLiteral(number) => {
            tokens.push(Token::Number(i64_to_string(*number)));
        },
        Argument::BooleanLiteral(truth) => {
            tokens.push(
                Token::Name(
                    if *truth {
                        "true".to_owned()
                    } else {
                        "false".to_owned()
                    },
                ),
            );
        },
        Argument::RegexLiteral(source) => {
            tokens.push(Token::Pattern(source.clone()));
        },
        Argument::Identifier(name) => {
            tokens.push(Token::Name(name.clone()));
        },
        Argument::Call(call) => {
            proof {
                lemma_shape_of_call(*call);
            }
            let ghost operands = shapes(call.args@);
            tokens.push(Token::Name(call.name.clone()));
            tokens.push(Token::Open);
            let ghost opened = token_views(tokens@);
            assert(opened =~= before + seq![TokenView::Name(call.name@), TokenView::Open]);
            let n = call.args.len();
            if n == 0 {
                tokens.push(Token::Close);
                assert(token_views(tokens@) =~= opened + listed(operands, 0, written));
            } else {
                let mut i: usize = 0;
                while i < n
                    invariant
                        writes_purely(format_float),
                        ast is Call && ast->Call_0 == *call,
                        written == writer(format_float),
                        operands == shapes(call.args@),
                        n == call.args@.len(),
                        0 < n,
                        i <= n,
                        i < n ==> token_views(tokens@) + listed(operands, i as int, written)
                            == opened + listed(operands, 0, written),
                        i == n ==> token_views(tokens@) == opened + listed(operands, 0, written),
                    decreases n - i,
                {
                    assert(decreases_to!(call.args => call.args[i as int]));
                    let ghost had = token_views(tokens@);
                    push_tokens(tokens, &call.args[i], format_float);
                    let ghost own = operands[i as int].tokens(written);
                    let ghost mid = token_views(tokens@);
                    assert(mid == had + own);
                    if i + 1 == n {
                        tokens.push(Token::Close);
                        assert(token_views(tokens@) =~= mid + seq![TokenView::Close]);
                        assert(token_views(tokens@) =~= had + (own + seq![TokenView::Close]));
                    } else {
                        tokens.push(Token::Comma);
                        assert(token_views(tokens@) =~= mid + seq![TokenView::Comma]);
                        assert(token_views(tokens@) + listed(operands, i + 1, written) =~= had + (
                        own + seq![TokenView::Comma] + listed(operands, i + 1, written)));
                    }
                    i = i + 1;
                }
            }
            assert(token_views(tokens@) =~= before + (seq![
                TokenView::Name(call.name@),
                TokenView::Open,
            ] + listed(operands, 0, written)));
        },
    }
    proof {
        match ast {
            Argument::Call(_) => {},
            _ => {
                assert(token_views(tokens@) =~= before + ast@.tokens(written));
            },
        }
    }
}

/// Writes an expression as a text that reads back as the expression, where
/// it can be written at all.
pub fn write_expression<F: Fn(Float64) -> String>(ast: &Argument, format_float: &F) -> (text:
    String)
    requires
        writes_purely(format_float),
    ensures
        text@ == ast@.text(writer(format_float)),
{
    let mut tokens: Vec<Token> = Vec::new();
    assert(token_views(tokens@) =~= Seq::<TokenView>::empty());
    push_tokens(&mut tokens, ast, format_float);
    assert(Seq::<TokenView>::empty() + ast@.tokens(writer(format_float)) =~= ast@.tokens(
        writer(format_float),
    ));
    write_tokens(&tokens)
}

} // verus!
