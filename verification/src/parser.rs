//! The shape of an expression: what stands at a call site before anything
//! is looked up or computed.

use crate::float::Float64;
use crate::floats::{float_read, read_float, reads_purely};
use crate::lexer::{token_views, tokenize, tokens_of, Token, TokenView};
use crate::record::bytes_equal;
use crate::text::{lemma_signed_decimal_reads_back, parse_i64, parse_i64_text, signed_decimal};
use vstd::prelude::*;

verus! {

/// A call of a function by its name.
#[derive(Debug)]
pub struct FunctionCall {
    /// The name of the function.
    pub name: String,
    /// What the call hands to it, left to right.
    pub args: Vec<Argument>,
}

/// One operand at a call site.
#[derive(Debug)]
pub enum Argument {
    /// A text between quotes.
    StringLiteral(String),
    /// A number with a fractional part or an exponent.
    FloatLiteral(Float64),
    /// A number without either.
    IntegerLiteral(i64),
    /// `true` or `false`.
    BooleanLiteral(bool),
    /// A pattern between slashes.
    RegexLiteral(String),
    /// A bare name: a column, or a function to call on the target column.
    Identifier(String),
    /// A nested call.
    Call(FunctionCall),
}

impl Argument {
    /// The index that this operand stands for, if it is a numeric literal
    /// that stands for one.
    pub fn try_to_usize(&self) -> (r: Option<usize>)
        ensures
            match r {
                Some(i) => self@.index_value() == Some(i as nat),
                None => self@.index_value() is None,
            },
    {
        match self {
            Argument::IntegerLiteral(v) => i64_to_index(*v),
            Argument::FloatLiteral(f) => match f.to_i64() {
                Some(v) => i64_to_index(v),
                None => None,
            },
            _ => None,
        }
    }
}

/// The index that an integer stands for, where it is one.
pub fn i64_to_index(v: i64) -> (r: Option<usize>)
    ensures
        r == (if 0 <= v <= usize::MAX {
            Some(v as usize)
        } else {
            None
        }),
{
    if v >= 0 && v as u64 <= usize::MAX as u64 {
        Some(v as usize)
    } else {
        None
    }
}

/// The shape of an expression, apart from how it is held.
pub enum Ast {
    StringLiteral(Seq<char>),
    FloatLiteral(Float64),
    IntegerLiteral(i64),
    BooleanLiteral(bool),
    RegexLiteral(Seq<char>),
    Identifier(Seq<char>),
    Call(Seq<char>, Seq<Ast>),
}

impl Ast {
    /// The index that a numeric literal stands for: its value, where that is
    /// a whole number from zero up that an index can hold.
    pub open spec fn index_value(self) -> Option<nat> {
        match self {
            Ast::IntegerLiteral(v) => if 0 <= v <= usize::MAX {
                Some(v as nat)
            } else {
                None
            },
            Ast::FloatLiteral(f) => match f.int_value() {
                Some(v) => if 0 <= v <= i64::MAX && v <= usize::MAX {
                    Some(v as nat)
                } else {
                    None
                },
                None => None,
            },
            _ => None,
        }
    }
}

impl Argument {
    /// The shape of this operand.
    pub open spec fn model(self) -> Ast
        decreases self,
    {
        match self {
            Argument::StringLiteral(text) => Ast::StringLiteral(text@),
            Argument::FloatLiteral(number) => Ast::FloatLiteral(number),
            Argument::IntegerLiteral(number) => Ast::IntegerLiteral(number),
            Argument::BooleanLiteral(truth) => Ast::BooleanLiteral(truth),
            Argument::RegexLiteral(source) => Ast::RegexLiteral(source@),
            Argument::Identifier(name) => Ast::Identifier(name@),
            Argument::Call(call) => Ast::Call(
                call.name@,
                Seq::new(
                    call.args@.len(),
                    |i: int|
                        if 0 <= i < call.args@.len() {
                            call.args@[i].model()
                        } else {
                            Ast::BooleanLiteral(false)
                        },
                ),
            ),
        }
    }
}

impl View for Argument {
    type V = Ast;

    open spec fn view(&self) -> Ast {
        self.model()
    }
}

/// The shape of each operand.
pub open spec fn shapes(args: Seq<Argument>) -> Seq<Ast> {
    Seq::new(args.len(), |i: int| args[i]@)
}

/// A call has the shape of its name and of its operands.
pub proof fn lemma_shape_of_call(call: FunctionCall)
    ensures
        Argument::Call(call)@ == Ast::Call(call.name@, shapes(call.args@)),
{
    assert(Argument::Call(call)@->Call_1 =~= shapes(call.args@));
}

/// Why a text is no expression.
#[derive(Debug, Clone, Copy, PartialEq, Eq, Structural)]
pub enum ParseError {
    /// No token starts with the character at this place in the text.
    Character(usize),
    /// The token at this rank cannot stand where it does, or writes no
    /// number; at the rank after the last token, the expression is not
    /// complete.
    Token(usize),
}

/// The literal that a number token writes: a whole number where it writes
/// one in decimal, else what `float_of` reads it as.
pub open spec fn number_literal(
    digits: Seq<char>,
    float_of: spec_fn(Seq<char>) -> Option<Float64>,
) -> Option<Ast> {
    match parse_i64_text(digits) {
        Some(v) => Some(Ast::IntegerLiteral(v as i64)),
        None => match float_of(digits) {
            Some(number) => Some(Ast::FloatLiteral(number)),
            None => None,
        },
    }
}

/// The expression that starts with the token at rank `at`, and the rank
/// after its last token; or the rank of the token that cannot stand where it
/// does. An expression is a literal, a name, or a name followed by operands
/// between parentheses.
pub open spec fn expression_at(
    tokens: Seq<TokenView>,
    at: int,
    float_of: spec_fn(Seq<char>) -> Option<Float64>,
) -> Result<(Ast, int), int>
    decreases tokens.len() - at, 0nat,
{
    if at < 0 || at >= tokens.len() {
        Err(at)
    } else {
        match tokens[at] {
            TokenView::Name(name) => {
                if at + 1 < tokens.len() && tokens[at + 1] is Open {
                    match operands_at(tokens, at + 2, float_of) {
                        Ok((args, end)) => Ok((Ast::Call(name, args), end)),
                        Err(place) => Err(place),
                    }
                } else if name == "true"@ {
                    Ok((Ast::BooleanLiteral(true), at + 1))
                } else if name == "false"@ {
                    Ok((Ast::BooleanLiteral(false), at + 1))
                } else {
                    Ok((Ast::Identifier(name), at + 1))
                }
            },
            TokenView::Text(text) => Ok((Ast::StringLiteral(text), at + 1)),
            TokenView::Number(digits) => match number_literal(digits, float_of) {
                Some(literal) => Ok((literal, at + 1)),
                None => Err(at),
            },
            TokenView::Pattern(source) => Ok((Ast::RegexLiteral(source), at + 1)),
            _ => Err(at),
        }
    }
}

/// The operands of a call from the token at rank `at` on, which follows the
/// opening parenthesis, and the rank after the closing one: nothing, or
/// expressions with a comma between each two.
pub open spec fn operands_at(
    tokens: Seq<TokenView>,
    at: int,
    float_of: spec_fn(Seq<char>) -> Option<Float64>,
) -> Result<(Seq<Ast>, int), int>
    decreases tokens.len() - at, 2nat,
{
    if 0 <= at < tokens.len() && tokens[at] is Close {
        Ok((Seq::empty(), at + 1))
    } else {
        more_operands_at(tokens, at, float_of)
    }
}

/// One operand or more from the token at rank `at` on, up to the closing
/// parenthesis.
pub open spec fn more_operands_at(
    tokens: Seq<TokenView>,
    at: int,
    float_of: spec_fn(Seq<char>) -> Option<Float64>,
) -> Result<(Seq<Ast>, int), int>
    decreases tokens.len() - at, 1nat,
{
    match expression_at(tokens, at, float_of) {
        Err(place) => Err(place),
        Ok((first, next)) => {
            if next <= at || next >= tokens.len() {
                Err(next)
            } else if tokens[next] is Close {
                Ok((seq![first], next + 1))
            } else if tokens[next] is Comma {
                match more_operands_at(tokens, next + 1, float_of) {
                    Ok((rest, end)) => Ok((seq![first] + rest, end)),
                    Err(place) => Err(place),
                }
            } else {
                Err(next)
            }
        },
    }
}

/// The expression that the tokens make, all of them; or the rank of the
/// token that cannot stand where it does.
pub open spec fn expression_of(
    tokens: Seq<TokenView>,
    float_of: spec_fn(Seq<char>) -> Option<Float64>,
) -> Result<Ast, int> {
    match expression_at(tokens, 0, float_of) {
        Ok((ast, end)) => if end == tokens.len() {
            Ok(ast)
        } else {
            Err(end)
        },
        Err(place) => Err(place),
    }
}

/// The expression that a text writes, or why it writes none.
pub open spec fn parsed(text: Seq<char>, float_of: spec_fn(Seq<char>) -> Option<Float64>) -> Result<
    Ast,
    ParseError,
> {
    match tokens_of(text) {
        Err(place) => Err(ParseError::Character(place as usize)),
        Ok(tokens) => match expression_of(tokens, float_of) {
            Ok(ast) => Ok(ast),
            Err(place) => Err(ParseError::Token(place as usize)),
        },
    }
}

/// An expression ends after its start and within the tokens; an error is at
/// a rank from its start up to the rank after the last token.
pub proof fn lemma_expression_bounds(
    tokens: Seq<TokenView>,
    at: int,
    float_of: spec_fn(Seq<char>) -> Option<Float64>,
)
    requires
        0 <= at <= tokens.len(),
    ensures
        match expression_at(tokens, at, float_of) {
            Ok((_, end)) => at < end <= tokens.len(),
            Err(place) => at <= place <= tokens.len(),
        },
        match operands_at(tokens, at, float_of) {
            Ok((_, end)) => at < end <= tokens.len(),
            Err(place) => at <= place <= tokens.len(),
        },
        match more_operands_at(tokens, at, float_of) {
            Ok((_, end)) => at < end <= tokens.len(),
            Err(place) => at <= place <= tokens.len(),
        },
    decreases tokens.len() - at,
{
    if at < tokens.len() {
        if at + 2 <= tokens.len() {
            lemma_expression_bounds(tokens, at + 2, float_of);
        }
        match expression_at(tokens, at, float_of) {
            Ok((_, next)) => {
                if at < next < tokens.len() {
                    lemma_expression_bounds(tokens, next + 1, float_of);
                }
            },
            Err(_) => {},
        }
    }
}

impl Ast {
    /// Whether the expression can be written down: no name in it that
    /// stands on its own is one of the two words for true and false.
    pub open spec fn writable(self) -> bool
        decreases self,
    {
        match self {
            Ast::Identifier(name) => name != "true"@ && name != "false"@,
            Ast::Call(_, args) => forall|i: int|
                0 <= i < args.len() ==> (#[trigger] args[i]).writable(),
            _ => true,
        }
    }

    /// Whether the expression is one token that is a name.
    pub open spec fn is_a_name(self) -> bool {
        self is Identifier || self is BooleanLiteral
    }

    /// The tokens that write the expression down, where `written` is how a
    /// floating-point number is written.
    pub open spec fn tokens(self, written: spec_fn(Float64) -> Seq<char>) -> Seq<TokenView>
        decreases self, 0nat,
    {
        match self {
            Ast::StringLiteral(text) => seq![TokenView::Text(text)],
            Ast::FloatLiteral(number) => seq![TokenView::Number(written(number))],
            Ast::IntegerLiteral(number) => seq![TokenView::Number(signed_decimal(number as int))],
            Ast::BooleanLiteral(truth) => seq![
                TokenView::Name(
                    if truth {
                        "true"@
                    } else {
                        "false"@
                    },
                ),
            ],
            Ast::RegexLiteral(source) => seq![TokenView::Pattern(source)],
            Ast::Identifier(name) => seq![TokenView::Name(name)],
            Ast::Call(name, args) => seq![TokenView::Name(name), TokenView::Open] + listed(
                args,
                0,
                written,
            ),
        }
    }
}

/// The tokens that write down the operands from rank `from` on, with a
/// comma between each two, and the closing parenthesis after the last.
pub open spec fn listed(args: Seq<Ast>, from: int, written: spec_fn(Float64) -> Seq<char>) -> Seq<
    TokenView,
>
    decreases args, args.len() - from,
{
    if from < 0 || from >= args.len() {
        seq![TokenView::Close]
    } else if from + 1 == args.len() {
        args[from].tokens(written) + seq![TokenView::Close]
    } else {
        args[from].tokens(written) + seq![TokenView::Comma] + listed(args, from + 1, written)
    }
}

/// Whether every floating-point number is written as a text that writes no
/// whole number and that reads back as the number.
pub open spec fn reads_back(
    written: spec_fn(Float64) -> Seq<char>,
    float_of: spec_fn(Seq<char>) -> Option<Float64>,
) -> bool {
    forall|number: Float64|
        parse_i64_text(#[trigger] written(number)) is None && float_of(written(number)) == Some(
            number,
        )
}

/// An expression that is written down in tokens reads back as itself,
/// whatever stands before and after its tokens, as long as no parenthesis is
/// opened right after a name that stands on its own.
pub proof fn lemma_expression_reads_back(
    ast: Ast,
    before: Seq<TokenView>,
    after: Seq<TokenView>,
    written: spec_fn(Float64) -> Seq<char>,
    float_of: spec_fn(Seq<char>) -> Option<Float64>,
)
    requires
        ast.writable(),
        reads_back(written, float_of),
        ast.is_a_name() ==> after.len() == 0 || !(after[0] is Open),
    ensures
        expression_at(before + ast.tokens(written) + after, before.len() as int, float_of) == Ok::<
            (Ast, int),
            int,
        >((ast, (before.len() + ast.tokens(written).len()) as int)),
    decreases ast, 0nat,
{
    let own = ast.tokens(written);
    let all = before + own + after;
    let at = before.len() as int;
    assert(all[at] == own[0]);
    match ast {
        Ast::IntegerLiteral(number) => {
            lemma_signed_decimal_reads_back(number as int);
        },
        Ast::FloatLiteral(number) => {
            assert(parse_i64_text(written(number)) is None);
        },
        Ast::Call(name, args) => {
            assert(all[at + 1] == own[1]);
            let opened = before + seq![TokenView::Name(name), TokenView::Open];
            assert(all =~= opened + listed(args, 0, written) + after);
            if args.len() == 0 {
                assert(all[at + 2] is Close);
                assert(args =~= Seq::<Ast>::empty());
            } else {
                lemma_operands_read_back(args, 0, opened, after, written, float_of);
                assert(args.skip(0) =~= args);
                assert(!(all[at + 2] is Close)) by {
                    lemma_first_token_is_no_close(args[0], written);
                    assert(listed(args, 0, written)[0] == args[0].tokens(written)[0]);
                }
            }
        },
        Ast::Identifier(name) => {
            if after.len() > 0 {
                assert(all[at + 1] == after[0]);
            }
        },
        Ast::BooleanLiteral(truth) => {
            if after.len() > 0 {
                assert(all[at + 1] == after[0]);
            }
            reveal_strlit("true");
            reveal_strlit("false");
            assert("true"@[0] != "false"@[0]);
        },
        _ => {},
    }
}

/// The first token of an expression is no closing parenthesis and no comma.
pub proof fn lemma_first_token_is_no_close(ast: Ast, written: spec_fn(Float64) -> Seq<char>)
    ensures
        ast.tokens(written).len() > 0,
        !(ast.tokens(written)[0] is Close),
        !(ast.tokens(written)[0] is Comma),
        !(ast.tokens(written)[0] is Open),
{
}

/// Operands that are written down in tokens read back as themselves.
pub proof fn lemma_operands_read_back(
    args: Seq<Ast>,
    from: int,
    before: Seq<TokenView>,
    after: Seq<TokenView>,
    written: spec_fn(Float64) -> Seq<char>,
    float_of: spec_fn(Seq<char>) -> Option<Float64>,
)
    requires
        0 <= from < args.len(),
        forall|i: int| 0 <= i < args.len() ==> (#[trigger] args[i]).writable(),
        reads_back(written, float_of),
    ensures
        more_operands_at(before + listed(args, from, written) + after, before.len() as int, float_of)
            == Ok::<(Seq<Ast>, int), int>(
            (args.skip(from), (before.len() + listed(args, from, written).len()) as int),
        ),
    decreases args, args.len() - from,
{
    let first = args[from];
    let own = first.tokens(written);
    let all = before + listed(args, from, written) + after;
    let at = before.len() as int;
    let next = at + own.len();
    lemma_first_token_is_no_close(first, written);
    if from + 1 == args.len() {
        let closed = seq![TokenView::Close] + after;
        assert(all =~= before + own + closed);
        lemma_expression_reads_back(first, before, closed, written, float_of);
        assert(all[next] == closed[0]);
        assert(args.skip(from) =~= seq![first]);
    } else {
        let rest = listed(args, from + 1, written);
        let more = seq![TokenView::Comma] + rest + after;
        assert(all =~= before + own + more);
        lemma_expression_reads_back(first, before, more, written, float_of);
        assert(all[next] == more[0]);
        let passed = before + own + seq![TokenView::Comma];
        assert(all =~= passed + rest + after);
        lemma_operands_read_back(args, from + 1, passed, after, written, float_of);
        assert(args.skip(from) =~= seq![first] + args.skip(from + 1));
    }
}

/// Every expression that can be written down is what its tokens read as.
pub proof fn lemma_tokens_read_back(
    ast: Ast,
    written: spec_fn(Float64) -> Seq<char>,
    float_of: spec_fn(Seq<char>) -> Option<Float64>,
)
    requires
        ast.writable(),
        reads_back(written, float_of),
    ensures
        expression_of(ast.tokens(written), float_of) == Ok::<Ast, int>(ast),
{
    let none = Seq::<TokenView>::empty();
    lemma_expression_reads_back(ast, none, none, written, float_of);
    assert(none + ast.tokens(written) + none =~= ast.tokens(written));
}

/// What a pure `parse_float` reads each text as.
pub open spec fn reader<P: Fn(&str) -> Option<Float64>>(parse_float: &P) -> spec_fn(
    Seq<char>,
) -> Option<Float64> {
    |text: Seq<char>| float_read(parse_float, text)
}

/// Whether two texts are the same.
pub fn same_text(a: &str, b: &str) -> (same: bool)
    ensures
        same == (a@ == b@),
{
    broadcast use vstd::utf8::encode_utf8_decode_utf8;

    let same = bytes_equal(a.as_bytes(), b.as_bytes());
    proof {
        if same {
            assert(vstd::utf8::decode_utf8(vstd::utf8::encode_utf8(a@)) == a@);
            assert(vstd::utf8::decode_utf8(vstd::utf8::encode_utf8(b@)) == b@);
        }
    }
    same
}

/// Reads the literal that a number token writes.
fn parse_number<P: Fn(&str) -> Option<Float64>>(digits: &str, parse_float: &P) -> (r: Option<
    Argument,
>)
    requires
        reads_purely(parse_float),
    ensures
        match number_literal(digits@, reader(parse_float)) {
            Some(literal) => r matches Some(read) && read@ == literal,
            None => r is None,
        },
{
    match parse_i64(digits) {
        Some(number) => Some(Argument::IntegerLiteral(number)),
        None => match read_float(parse_float, digits) {
            Some(number) => Some(Argument::FloatLiteral(number)),
            None => None,
        },
    }
}

/// Reads the expression that starts with the token at rank `at`.
fn parse_expression<P: Fn(&str) -> Option<Float64>>(
    tokens: &Vec<Token>,
    at: usize,
    parse_float: &P,
) -> (r: Result<(Argument, usize), usize>)
    requires
        reads_purely(parse_float),
        at <= tokens@.len(),
    ensures
        match expression_at(token_views(tokens@), at as int, reader(parse_float)) {
            Ok((ast, end)) => r matches Ok((read, stop)) && read@ == ast && stop == end,
            Err(place) => r == Err::<(Argument, usize), usize>(place as usize),
        },
    decreases tokens@.len() - at, 0nat,
{
    proof {
        lemma_expression_bounds(token_views(tokens@), at as int, reader(parse_float));
    }
    if at >= tokens.len() {
        return Err(at);
    }
    match &tokens[at] {
        Token::Name(name) => {
            if at + 1 < tokens.len() && is_open(&tokens[at + 1]) {
                match parse_operands(tokens, at + 2, parse_float) {
                    Ok((args, end)) => {
                        let call = FunctionCall { name: name.clone(), args };
                        proof {
                            lemma_shape_of_call(call);
                        }
                        Ok((Argument::Call(call), end))
                    },
                    Err(place) => Err(place),
                }
            } else if same_text(name.as_str(), "true") {
                Ok((Argument::BooleanLiteral(true), at + 1))
            } else if same_text(name.as_str(), "false") {
                Ok((Argument::BooleanLiteral(false), at + 1))
            } else {
                Ok((Argument::Identifier(name.clone()), at + 1))
            }
        },
        Token::Text(text) => Ok((Argument::StringLiteral(text.clone()), at + 1)),
        Token::Number(digits) => match parse_number(digits.as_str(), parse_float) {
            Some(literal) => Ok((literal, at + 1)),
            None => Err(at),
        },
        Token::Pattern(source) => Ok((Argument::RegexLiteral(source.clone()), at + 1)),
        _ => Err(at),
    }
}

/// Whether the token is an opening parenthesis.
fn is_open(token: &Token) -> (r: bool)
    ensures
        r == (token@ is Open),
{
    match token {
        Token::Open => true,
        _ => false,
    }
}

/// Whether the token is a closing parenthesis.
fn is_close(token: &Token) -> (r: bool)
    ensures
        r == (token@ is Close),
{
    match token {
        Token::Close => true,
        _ => false,
    }
}

/// Whether the token is a comma.
fn is_comma(token: &Token) -> (r: bool)
    ensures
        r == (token@ is Comma),
{
    match token {
        Token::Comma => true,
        _ => false,
    }
}

/// Reads the operands of a call from the token at rank `at` on.
fn parse_operands<P: Fn(&str) -> Option<Float64>>(
    tokens: &Vec<Token>,
    at: usize,
    parse_float: &P,
) -> (r: Result<(Vec<Argument>, usize), usize>)
    requires
        reads_purely(parse_float),
        at <= tokens@.len(),
    ensures
        match operands_at(token_views(tokens@), at as int, reader(parse_float)) {
            Ok((asts, end)) => r matches Ok((read, stop)) && shapes(read@) == asts && stop
                == end,
            Err(place) => r == Err::<(Vec<Argument>, usize), usize>(place as usize),
        },
    decreases tokens@.len() - at, 2nat,
{
    proof {
        lemma_expression_bounds(token_views(tokens@), at as int, reader(parse_float));
    }
    if at < tokens.len() && is_close(&tokens[at]) {
        let args: Vec<Argument> = Vec::new();
        assert(shapes(args@) =~= Seq::<Ast>::empty());
        return Ok((args, at + 1));
    }
    let mut args: Vec<Argument> = Vec::new();
    let mut from: usize = at;
    loop
        invariant
            reads_purely(parse_float),
            at <= from <= tokens@.len(),
            operands_at(token_views(tokens@), at as int, reader(parse_float))
                == more_operands_at(token_views(tokens@), at as int, reader(parse_float)),
            match more_operands_at(token_views(tokens@), from as int, reader(parse_float)) {
                Ok((rest, end)) => more_operands_at(
                    token_views(tokens@),
                    at as int,
                    reader(parse_float),
                ) == Ok::<(Seq<Ast>, int), int>((shapes(args@) + rest, end)),
                Err(place) => more_operands_at(
                    token_views(tokens@),
                    at as int,
                    reader(parse_float),
                ) == Err::<(Seq<Ast>, int), int>(place),
            },
        decreases tokens@.len() - from,
    {
        proof {
            lemma_expression_bounds(token_views(tokens@), from as int, reader(parse_float));
        }
        let (first, next) = match parse_expression(tokens, from, parse_float) {
            Ok(pair) => pair,
            Err(place) => {
                return Err(place);
            },
        };
        if next >= tokens.len() {
            return Err(next);
        }
        let ghost before = shapes(args@);
        let ghost shape = first@;
        args.push(first);
        assert(shapes(args@) =~= before + seq![shape]);
        if is_close(&tokens[next]) {
            return Ok((args, next + 1));
        } else if is_comma(&tokens[next]) {
            proof {
                lemma_expression_bounds(token_views(tokens@), next + 1, reader(parse_float));
                match more_operands_at(token_views(tokens@), next + 1, reader(parse_float)) {
                    Ok((rest, end)) => {
                        assert(before + (seq![shape] + rest) =~= shapes(args@) + rest);
                    },
                    Err(_) => {},
                }
            }
            from = next + 1;
        } else {
            return Err(next);
        }
    }
}

/// Reads a text as an expression: a literal, a name, or a call of a function
/// by its name on operands that are expressions themselves. A number that is
/// no whole number is read by `parse_float`.
pub fn parse<P: Fn(&str) -> Option<Float64>>(text: &str, parse_float: &P) -> (r: Result<
    Argument,
    ParseError,
>)
    requires
        reads_purely(parse_float),
    ensures
        match parsed(text@, reader(parse_float)) {
            Ok(ast) => r matches Ok(read) && read@ == ast,
            Err(e) => r == Err::<Argument, ParseError>(e),
        },
{
    let tokens = match tokenize(text) {
        Ok(tokens) => tokens,
        Err(place) => {
            return Err(ParseError::Character(place));
        },
    };
    proof {
        lemma_expression_bounds(token_views(tokens@), 0, reader(parse_float));
    }
    match parse_expression(&tokens, 0, parse_float) {
        Ok((read, end)) => if end == tokens.len() {
            Ok(read)
        } else {
            Err(ParseError::Token(end))
        },
        Err(place) => Err(ParseError::Token(place)),
    }
}

} // verus!
