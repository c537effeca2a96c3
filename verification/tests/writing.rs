use xan::float::Float64;
use xan::lexer::{tokenize, Token};
use xan::parser::{parse, Argument, FunctionCall};
use xan::writing::{escape, write_expression, write_token, write_tokens};

fn parse_float(s: &str) -> Option<Float64> {
    s.parse::<f64>().ok().map(|x| Float64::from_bits(x.to_bits()))
}

// Written with a point or an exponent, so that no whole number is read.
fn format_float(x: Float64) -> String {
    format!("{:e}", f64::from_bits(x.to_bits()))
}

fn shape(argument: &Argument) -> String {
    match argument {
        Argument::StringLiteral(text) => format!("s:{:?}", text),
        Argument::FloatLiteral(number) => format!("f:{:x}", number.to_bits()),
        Argument::IntegerLiteral(number) => format!("i:{}", number),
        Argument::BooleanLiteral(truth) => format!("b:{}", truth),
        Argument::RegexLiteral(source) => format!("r:{:?}", source),
        Argument::Identifier(name) => format!("n:{}", name),
        Argument::Call(FunctionCall { name, args }) => {
            let inner: Vec<String> = args.iter().map(shape).collect();
            format!("{}({})", name, inner.join(","))
        }
    }
}

#[test]
fn what_is_written_reads_back() {
    let texts = [
        "add(a, b)",
        "a",
        "'text'",
        "\"it's\"",
        r#"'say \"hi\" \\ twice'"#,
        "'line\nbreak\tand tab'",
        r#"/a\/b|c\d+/"#,
        "//",
        "12",
        "-12",
        "1.5",
        "-2.5e-3",
        "1e300",
        "true",
        "false",
        "now()",
        "f(g(h(1, 2.0, 'x'), true), /p/, col('a', 1), _x9)",
        "concat(a,b,c,d,e,f)",
    ];
    for text in texts {
        let ast = parse(text, &parse_float).unwrap();
        let written = write_expression(&ast, &format_float);
        let read = parse(&written, &parse_float).unwrap();
        assert_eq!(shape(&read), shape(&ast), "{} -> {}", text, written);
        assert_eq!(write_expression(&read, &format_float), written);
    }
}

#[test]
fn an_expression_is_written_token_by_token() {
    let ast = parse("add( a,'b c' )", &parse_float).unwrap();
    assert_eq!(write_expression(&ast, &format_float), "add ( a , \"b c\" ) ");
    let ast = parse("upper", &parse_float).unwrap();
    assert_eq!(write_expression(&ast, &format_float), "upper ");
    let ast = parse("f()", &parse_float).unwrap();
    assert_eq!(write_expression(&ast, &format_float), "f ( ) ");
    let ast = parse("1.5", &parse_float).unwrap();
    assert_eq!(write_expression(&ast, &format_float), "1.5e0 ");
}

#[test]
fn closing_characters_and_backslashes_are_escaped() {
    assert_eq!(escape("a\"b", '"'), "a\\\"b");
    assert_eq!(escape("a\\b", '"'), "a\\\\b");
    assert_eq!(escape("a'b", '"'), "a'b");
    assert_eq!(escape("a/b", '/'), "a\\/b");
    assert_eq!(escape("a\\d", '/'), "a\\d");
    assert_eq!(escape("", '"'), "");
    assert_eq!(write_token(&Token::Text("q\"".to_string())), "\"q\\\"\"");
    assert_eq!(write_token(&Token::Pattern("a/b".to_string())), "/a\\/b/");
    assert_eq!(write_token(&Token::Open), "(");
    assert_eq!(write_token(&Token::Close), ")");
    assert_eq!(write_token(&Token::Comma), ",");
    assert_eq!(write_token(&Token::Name("n".to_string())), "n");
    assert_eq!(write_token(&Token::Number("-1".to_string())), "-1");
}

#[test]
fn written_tokens_read_back() {
    let tokens = vec![
        Token::Name("f".to_string()),
        Token::Open,
        Token::Text("a \"b\" \\ c".to_string()),
        Token::Comma,
        Token::Number("-1.5e+3".to_string()),
        Token::Pattern("x/y\\d".to_string()),
        Token::Close,
        Token::Name("g".to_string()),
        Token::Name("h".to_string()),
    ];
    assert_eq!(tokenize(&write_tokens(&tokens)), Ok(tokens));
    assert_eq!(write_tokens(&vec![]), "");
}
