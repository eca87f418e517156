use tails::compiler::lexer::{tokenize, SpannedToken, TemplatePart, Token};

fn toks(src: &str) -> Vec<SpannedToken> {
    tokenize(src).expect("tokenize")
}

fn err(src: &str) -> String {
    match tokenize(src) {
        Ok(_) => panic!("expected an error"),
        Err(e) => {
            assert_eq!(e.kind_name(), "ParseError");
            e.message().to_string()
        }
    }
}

#[test]
fn empty_source_gives_only_eof() {
    let ts = toks("");
    assert_eq!(ts.len(), 1);
    assert!(matches!(ts[0].token, Token::Eof));
    assert_eq!((ts[0].span.line, ts[0].span.col, ts[0].span.offset), (1, 1, 0));
}

#[test]
fn declaration_with_positions() {
    let ts = toks("let x = 42;\nconst y = x;");
    assert!(matches!(ts[0].token, Token::Let));
    assert!(matches!(&ts[1].token, Token::Identifier(n) if n == "x"));
    assert!(matches!(ts[2].token, Token::Assign));
    assert!(matches!(&ts[3].token, Token::Number(n) if n == "42"));
    assert!(matches!(ts[4].token, Token::Semicolon));
    assert!(matches!(ts[5].token, Token::Const));
    assert_eq!((ts[5].span.line, ts[5].span.col, ts[5].span.offset), (2, 1, 12));
    assert_eq!((ts[3].span.line, ts[3].span.col, ts[3].span.offset), (1, 9, 8));
    assert!(matches!(ts.last().unwrap().token, Token::Eof));
    assert_eq!(ts.len(), 11);
}

#[test]
fn numbers_and_bigints() {
    let ts = toks("1.5e3 2E-2 10n 3.");
    assert!(matches!(&ts[0].token, Token::Number(n) if n == "1.5e3"));
    assert!(matches!(&ts[1].token, Token::Number(n) if n == "2E-2"));
    assert!(matches!(&ts[2].token, Token::BigInt(n) if n == "10"));
    assert!(matches!(&ts[3].token, Token::Number(n) if n == "3."));
}

#[test]
fn keywords_and_identifiers() {
    let ts = toks("function f() { return this; } $a _b set get typeof");
    assert!(matches!(ts[0].token, Token::Function));
    assert!(matches!(&ts[1].token, Token::Identifier(n) if n == "f"));
    assert!(matches!(ts[5].token, Token::Return));
    assert!(matches!(ts[6].token, Token::This));
    assert!(matches!(&ts[9].token, Token::Identifier(n) if n == "$a"));
    assert!(matches!(&ts[10].token, Token::Identifier(n) if n == "_b"));
    assert!(matches!(ts[11].token, Token::SetKeyword));
    assert!(matches!(ts[12].token, Token::Get));
    assert!(matches!(ts[13].token, Token::Typeof));
}

#[test]
fn operators_longest_match() {
    let ts = toks("=== !== ** **= ??= ?. => ... .. && || <= >= << >> ++ --");
    let expected = [
        "StrictEqual", "StrictNotEqual", "Power", "PowerAssign", "NullishCoalescingAssign",
        "QuestionDot", "Arrow", "Ellipsis", "Dot", "Dot", "And", "Or", "LessEqual",
        "GreaterEqual", "ShiftLeft", "ShiftRight", "Increment", "Decrement", "Eof",
    ];
    let names: Vec<String> = ts.iter().map(|t| format!("{:?}", t.token)).collect();
    assert_eq!(names, expected.iter().map(|s| s.to_string()).collect::<Vec<_>>());
}

#[test]
fn strings_with_escapes() {
    let ts = toks(r#""a\nb" 'it\'s' "\q""#);
    assert!(matches!(&ts[0].token, Token::String(s) if s == "a\nb"));
    assert!(matches!(&ts[1].token, Token::String(s) if s == "it's"));
    assert!(matches!(&ts[2].token, Token::String(s) if s == "\\q"));
}

#[test]
fn comments_are_skipped() {
    let ts = toks("a // line\n/* block\n comment */ b");
    assert_eq!(ts.len(), 3);
    assert!(matches!(&ts[1].token, Token::Identifier(n) if n == "b"));
    assert_eq!(ts[1].span.line, 3);
}

#[test]
fn regex_versus_division() {
    let ts = toks("x = /ab+c/gi; y = a / b;");
    assert!(matches!(&ts[2].token, Token::Regex(r) if r == "ab+c/gi"));
    assert!(matches!(ts[7].token, Token::Slash));
    let ts2 = toks("a /= 2");
    assert!(matches!(ts2[1].token, Token::SlashAssign));
}

#[test]
fn template_literal_parts() {
    let ts = toks("`a${x + 1}b\\n`");
    match &ts[0].token {
        Token::TemplateLiteral(parts) => {
            assert_eq!(parts.len(), 3);
            assert!(matches!(&parts[0], TemplatePart::Text(t) if t == "a"));
            match &parts[1] {
                TemplatePart::Expression(inner) => {
                    assert_eq!(inner.len(), 3);
                    assert!(matches!(&inner[0].token, Token::Identifier(n) if n == "x"));
                    assert!(matches!(inner[1].token, Token::Plus));
                    assert!(inner.iter().all(|t| !matches!(t.token, Token::Eof)));
                }
                _ => panic!("expected an expression part"),
            }
            assert!(matches!(&parts[2], TemplatePart::Text(t) if t == "b\n"));
        }
        _ => panic!("expected a template literal"),
    }
    assert_eq!(ts.len(), 2);
}

#[test]
fn unterminated_errors() {
    assert_eq!(err("\"abc"), "Unterminated string");
    assert_eq!(err("/* x"), "Unterminated comment");
    assert_eq!(err("`abc"), "Unterminated template literal");
    assert_eq!(err("`a${b"), "Unterminated template expression");
    assert_eq!(err("x = /abc"), "Unterminated regex");
    assert_eq!(err("`${\"x}`"), "Unterminated string");
}

#[test]
fn non_ascii_offsets_count_bytes() {
    let ts = toks("\"é\" x");
    assert_eq!((ts[1].span.col, ts[1].span.offset), (5, 5));
}
