use xan::float::Float64;
use xan::lexer::{tokenize, Token};
use xan::parser::{parse, Argument, FunctionCall, ParseError};

fn parse_float(s: &str) -> Option<Float64> {
    s.parse::<f64>().ok().map(|x| Float64::from_bits(x.to_bits()))
}

fn name(s: &str) -> Token {
    Token::Name(s.to_string())
}

fn shape(argument: &Argument) -> String {
    match argument {
        Argument::StringLiteral(text) => format!("s:{}", text),
        Argument::FloatLiteral(number) => format!("f:{}", f64::from_bits(number.to_bits())),
        Argument::IntegerLiteral(number) => format!("i:{}", number),
        Argument::BooleanLiteral(truth) => format!("b:{}", truth),
        Argument::RegexLiteral(source) => format!("r:{}", source),
        Argument::Identifier(name) => format!("n:{}", name),
        Argument::Call(FunctionCall { name, args }) => {
            let inner: Vec<String> = args.iter().map(shape).collect();
            format!("{}({})", name, inner.join(","))
        }
    }
}

fn parsed(text: &str) -> Result<String, ParseError> {
    parse(text, &parse_float).map(|a| shape(&a))
}

#[test]
fn tokens_are_cut_at_blanks_and_punctuation() {
    assert_eq!(
        tokenize("add(a, b)"),
        Ok(vec![name("add"), Token::Open, name("a"), Token::Comma, name("b"), Token::Close])
    );
    assert_eq!(
        tokenize("  add (\ta ,\nb )  "),
        Ok(vec![name("add"), Token::Open, name("a"), Token::Comma, name("b"), Token::Close])
    );
    assert_eq!(tokenize(""), Ok(vec![]));
    assert_eq!(tokenize("   "), Ok(vec![]));
    assert_eq!(tokenize("_a1 B_2"), Ok(vec![name("_a1"), name("B_2")]));
}

#[test]
fn numbers_are_kept_as_written() {
    assert_eq!(tokenize("12"), Ok(vec![Token::Number("12".to_string())]));
    assert_eq!(tokenize("-1.5e+3,"), Ok(vec![Token::Number("-1.5e+3".to_string()), Token::Comma]));
    assert_eq!(tokenize("1a"), Ok(vec![Token::Number("1".to_string()), name("a")]));
}

#[test]
fn quotes_of_either_kind_hold_a_text() {
    assert_eq!(tokenize("\"a b\""), Ok(vec![Token::Text("a b".to_string())]));
    assert_eq!(tokenize("'a b'"), Ok(vec![Token::Text("a b".to_string())]));
    assert_eq!(tokenize("'say \"hi\"'"), Ok(vec![Token::Text("say \"hi\"".to_string())]));
    assert_eq!(tokenize("\"it's\""), Ok(vec![Token::Text("it's".to_string())]));
    assert_eq!(tokenize("''"), Ok(vec![Token::Text("".to_string())]));
    assert_eq!(tokenize("'caf\u{e9}'"), Ok(vec![Token::Text("caf\u{e9}".to_string())]));
}

#[test]
fn a_backslash_escapes_within_quotes() {
    assert_eq!(tokenize(r#"'it\'s'"#), Ok(vec![Token::Text("it's".to_string())]));
    assert_eq!(tokenize(r#""a\"b""#), Ok(vec![Token::Text("a\"b".to_string())]));
    assert_eq!(tokenize(r#"'a\\b'"#), Ok(vec![Token::Text("a\\b".to_string())]));
    assert_eq!(tokenize(r#"'a\nb\tc\rd'"#), Ok(vec![Token::Text("a\nb\tc\rd".to_string())]));
    assert_eq!(tokenize(r#"'a\qb'"#), Ok(vec![Token::Text("aqb".to_string())]));
}

#[test]
fn slashes_hold_a_pattern() {
    assert_eq!(tokenize("/^a+$/"), Ok(vec![Token::Pattern("^a+$".to_string())]));
    assert_eq!(tokenize(r#"/a\/b/"#), Ok(vec![Token::Pattern("a/b".to_string())]));
    assert_eq!(tokenize(r#"/\d+\.\d/"#), Ok(vec![Token::Pattern(r#"\d+\.\d"#.to_string())]));
}

#[test]
fn what_starts_no_token_is_an_error_at_its_place() {
    assert_eq!(tokenize("add(a; b)"), Err(5));
    assert_eq!(tokenize("#"), Err(0));
    assert_eq!(tokenize("  'open"), Err(2));
    assert_eq!(tokenize("a /open"), Err(2));
    assert_eq!(tokenize("a 'b\\"), Err(2));
    assert_eq!(tokenize("caf\u{e9}"), Err(3));
}

#[test]
fn literals_are_expressions() {
    assert_eq!(parsed("'abc'"), Ok("s:abc".to_string()));
    assert_eq!(parsed("12"), Ok("i:12".to_string()));
    assert_eq!(parsed("-12"), Ok("i:-12".to_string()));
    assert_eq!(parsed("1.5"), Ok("f:1.5".to_string()));
    assert_eq!(parsed("1e3"), Ok("f:1000".to_string()));
    assert_eq!(parsed("-2.5e-1"), Ok("f:-0.25".to_string()));
    assert_eq!(parsed("true"), Ok("b:true".to_string()));
    assert_eq!(parsed("false"), Ok("b:false".to_string()));
    assert_eq!(parsed("/a|b/"), Ok("r:a|b".to_string()));
    assert_eq!(parsed("99999999999999999999"), Ok("f:100000000000000000000".to_string()));
}

#[test]
fn names_and_calls_are_expressions() {
    assert_eq!(parsed("surname"), Ok("n:surname".to_string()));
    assert_eq!(parsed("truth"), Ok("n:truth".to_string()));
    assert_eq!(parsed("add(a, b)"), Ok("add(n:a,n:b)".to_string()));
    assert_eq!(parsed("now()"), Ok("now()".to_string()));
    assert_eq!(parsed("upper(surname)"), Ok("upper(n:surname)".to_string()));
    assert_eq!(
        parsed("add(mul(a, 2), col('b', 1))"),
        Ok("add(mul(n:a,i:2),col(s:b,i:1))".to_string())
    );
    assert_eq!(parsed(" f ( g ( ) , 'x' ) "), Ok("f(g(),s:x)".to_string()));
    assert_eq!(parsed("true(1)"), Ok("true(i:1)".to_string()));
}

#[test]
fn a_character_that_starts_no_token_is_reported() {
    assert_eq!(parsed("add(a; b)"), Err(ParseError::Character(5)));
    assert_eq!(parsed("'open"), Err(ParseError::Character(0)));
}

#[test]
fn a_token_out_of_place_is_reported() {
    assert_eq!(parsed(""), Err(ParseError::Token(0)));
    assert_eq!(parsed(")"), Err(ParseError::Token(0)));
    assert_eq!(parsed("a b"), Err(ParseError::Token(1)));
    assert_eq!(parsed("add(a b)"), Err(ParseError::Token(3)));
    assert_eq!(parsed("add(a,)"), Err(ParseError::Token(4)));
    assert_eq!(parsed("add(,a)"), Err(ParseError::Token(2)));
    assert_eq!(parsed("add(a, b"), Err(ParseError::Token(5)));
    assert_eq!(parsed("add(a, b))"), Err(ParseError::Token(6)));
    assert_eq!(parsed("add("), Err(ParseError::Token(2)));
    assert_eq!(parsed("(a)"), Err(ParseError::Token(0)));
}

#[test]
fn a_number_that_writes_none_is_reported() {
    assert_eq!(parsed("1-2"), Err(ParseError::Token(0)));
    assert_eq!(parsed("add(1, 2..3)"), Err(ParseError::Token(4)));
    assert_eq!(parsed("-"), Err(ParseError::Token(0)));
}
