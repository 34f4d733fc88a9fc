use lexer::prompt::{action, is_shown, Action};
use lexer::{tokenize, Token, Tokens};

fn assert_tokens(mut actual: Tokens, expected: Vec<Token>) {
    for (i, expected_item) in expected.into_iter().enumerate() {
        assert_eq!(actual.next(), Some(expected_item), "comparing item {}", i);
    }
    assert_eq!(actual.next(), None, "comparing last item");
}

/// The token of a number literal written as `text`, which must read as `value`.
fn number(text: &str, value: f64) -> Token {
    assert_eq!(text.parse::<f64>(), Ok(value));
    Token::Number(text.to_string())
}

#[test]
fn single_character_tokens() {
    let source = r#"({}),.-+;/*"#;
    let actual = tokenize(source);

    assert_tokens(
        actual,
        vec![
            Token::LeftParen,
            Token::LeftBrace,
            Token::RightBrace,
            Token::RightParen,
            Token::Comma,
            Token::Dot,
            Token::Minus,
            Token::Plus,
            Token::Semicolon,
            Token::Slash,
            Token::Star,
        ],
    );
}

#[test]
fn one_or_two_character_tokens() {
    let source = r#"!
        !=
        =
        ==
        >
        >=
        <
        <="#;
    let actual = tokenize(source);

    assert_tokens(
        actual,
        vec![
            Token::Bang,
            Token::Whitespace,
            Token::BangEqual,
            Token::Whitespace,
            Token::Equal,
            Token::Whitespace,
            Token::EqualEqual,
            Token::Whitespace,
            Token::Greater,
            Token::Whitespace,
            Token::GreaterEqual,
            Token::Whitespace,
            Token::Less,
            Token::Whitespace,
            Token::LessEqual,
        ],
    );
}

#[test]
fn idents() {
    let source = r#"variable1 variable_2 cammelCaseVariable _undescore_first"#;
    let actual = tokenize(source);

    assert_tokens(
        actual,
        vec![
            Token::Ident("variable1".to_string()),
            Token::Whitespace,
            Token::Ident("variable_2".to_string()),
            Token::Whitespace,
            Token::Ident("cammelCaseVariable".to_string()),
            Token::Whitespace,
            Token::Ident("_undescore_first".to_string()),
        ],
    );
}

#[test]
fn strings() {
    let source = r#""Valid string even if keywords in"
"Escaped \"string\""
"Invalid string not terminated"#;
    let actual = tokenize(source);

    assert_tokens(
        actual,
        vec![
            Token::String("Valid string even if keywords in".to_string()),
            Token::Whitespace,
            Token::String("Escaped \\\"string\\\"".to_string()),
            Token::Whitespace,
            Token::Unexpected { line: 3, col: 31 },
        ],
    );
}

#[test]
fn keywords() {
    let source = r#"and
class
else
false
fun
for
if
nil
or
print
super
return
this
true
var
while"#;
    let actual = tokenize(source);

    assert_tokens(
        actual,
        vec![
            Token::And,
            Token::Whitespace,
            Token::Class,
            Token::Whitespace,
            Token::Else,
            Token::Whitespace,
            Token::False,
            Token::Whitespace,
            Token::Fun,
            Token::Whitespace,
            Token::For,
            Token::Whitespace,
            Token::If,
            Token::Whitespace,
            Token::Nil,
            Token::Whitespace,
            Token::Or,
            Token::Whitespace,
            Token::Print,
            Token::Whitespace,
            Token::Super,
            Token::Whitespace,
            Token::Return,
            Token::Whitespace,
            Token::This,
            Token::Whitespace,
            Token::True,
            Token::Whitespace,
            Token::Var,
            Token::Whitespace,
            Token::While,
        ],
    );
}

#[test]
fn comments() {
    let source = r#"// comment! no var/if keyword"#;
    let actual = tokenize(source);

    assert_tokens(
        actual,
        vec![Token::Comment(" comment! no var/if keyword".to_string())],
    );
}

#[test]
fn fibonacci() {
    let source = r#"fun fib(n) {
  if (n < 2) return n;
  return fib(n - 1) + fib(n - 2);
}

print fib(8); // expect: 21"#;
    let actual = tokenize(source);

    assert_tokens(
        actual,
        vec![
            Token::Fun,
            Token::Whitespace,
            Token::Ident("fib".to_string()),
            Token::LeftParen,
            Token::Ident("n".to_string()),
            Token::RightParen,
            Token::Whitespace,
            Token::LeftBrace,
            Token::Whitespace,
            Token::If,
            Token::Whitespace,
            Token::LeftParen,
            Token::Ident("n".to_string()),
            Token::Whitespace,
            Token::Less,
            Token::Whitespace,
            number("2", 2f64),
            Token::RightParen,
            Token::Whitespace,
            Token::Return,
            Token::Whitespace,
            Token::Ident("n".to_string()),
            Token::Semicolon,
            Token::Whitespace,
            Token::Return,
            Token::Whitespace,
            Token::Ident("fib".to_string()),
            Token::LeftParen,
            Token::Ident("n".to_string()),
            Token::Whitespace,
            Token::Minus,
            Token::Whitespace,
            number("1", 1f64),
            Token::RightParen,
            Token::Whitespace,
            Token::Plus,
            Token::Whitespace,
            Token::Ident("fib".to_string()),
            Token::LeftParen,
            Token::Ident("n".to_string()),
            Token::Whitespace,
            Token::Minus,
            Token::Whitespace,
            number("2", 2f64),
            Token::RightParen,
            Token::Semicolon,
            Token::Whitespace,
            Token::RightBrace,
            Token::Whitespace,
            Token::Print,
            Token::Whitespace,
            Token::Ident("fib".to_string()),
            Token::LeftParen,
            number("8", 8f64),
            Token::RightParen,
            Token::Semicolon,
            Token::Whitespace,
            Token::Comment(" expect: 21".to_string()),
        ],
    );
}

#[test]
fn empty_input_yields_nothing() {
    assert_tokens(tokenize(""), vec![]);
}

#[test]
fn stream_stays_exhausted() {
    let mut tokens = tokenize(";");
    assert_eq!(tokens.next(), Some(Token::Semicolon));
    assert_eq!(tokens.next(), None);
    assert_eq!(tokens.next(), None);
    assert_eq!(tokens.next(), None);
}

#[test]
fn bang_equal_is_one_token() {
    assert_tokens(tokenize("!="), vec![Token::BangEqual]);
}

#[test]
fn bang_before_space_is_alone() {
    assert_tokens(tokenize("! "), vec![Token::Bang, Token::Whitespace]);
}

#[test]
fn operators_take_one_equal_sign_only() {
    assert_tokens(tokenize("==="), vec![Token::EqualEqual, Token::Equal]);
    assert_tokens(tokenize("<=>"), vec![Token::LessEqual, Token::Greater]);
    assert_tokens(tokenize(">=="), vec![Token::GreaterEqual, Token::Equal]);
    assert_tokens(tokenize("!!="), vec![Token::Bang, Token::BangEqual]);
    assert_tokens(tokenize("<"), vec![Token::Less]);
    assert_tokens(tokenize(">"), vec![Token::Greater]);
    assert_tokens(tokenize("="), vec![Token::Equal]);
    assert_tokens(tokenize("!"), vec![Token::Bang]);
}

#[test]
fn identifier_is_maximal_munch() {
    assert_tokens(
        tokenize("variable_2"),
        vec![Token::Ident("variable_2".to_string())],
    );
}

#[test]
fn identifier_ends_at_first_other_character() {
    assert_tokens(
        tokenize("ab1_c-d"),
        vec![
            Token::Ident("ab1_c".to_string()),
            Token::Minus,
            Token::Ident("d".to_string()),
        ],
    );
}

#[test]
fn keyword_prefix_is_an_identifier() {
    assert_tokens(
        tokenize("printable"),
        vec![Token::Ident("printable".to_string())],
    );
    assert_tokens(tokenize("print"), vec![Token::Print]);
    assert_tokens(tokenize("prin"), vec![Token::Ident("prin".to_string())]);
    assert_tokens(tokenize("And"), vec![Token::Ident("And".to_string())]);
    assert_tokens(tokenize("for_"), vec![Token::Ident("for_".to_string())]);
    assert_tokens(tokenize("_if"), vec![Token::Ident("_if".to_string())]);
    assert_tokens(tokenize("while1"), vec![Token::Ident("while1".to_string())]);
}

#[test]
fn number_takes_one_decimal_point() {
    assert_tokens(
        tokenize("1.2.3"),
        vec![number("1.2", 1.2), Token::Dot, number("3", 3.0)],
    );
}

#[test]
fn number_forms() {
    assert_tokens(tokenize("0"), vec![number("0", 0.0)]);
    assert_tokens(tokenize("42"), vec![number("42", 42.0)]);
    assert_tokens(tokenize("3.25"), vec![number("3.25", 3.25)]);
    assert_tokens(tokenize("007.50"), vec![number("007.50", 7.5)]);
    assert_tokens(tokenize("1."), vec![number("1.", 1.0)]);
    assert_tokens(
        tokenize("1..2"),
        vec![number("1.", 1.0), Token::Dot, number("2", 2.0)],
    );
    assert_tokens(tokenize(".5"), vec![Token::Dot, number("5", 5.0)]);
    assert_tokens(
        tokenize("12ab"),
        vec![number("12", 12.0), Token::Ident("ab".to_string())],
    );
    assert_tokens(
        tokenize("-7"),
        vec![Token::Minus, number("7", 7.0)],
    );
}

#[test]
fn string_round_trip() {
    assert_tokens(tokenize("\"abc\""), vec![Token::String("abc".to_string())]);
    assert_tokens(tokenize("\"\""), vec![Token::String("".to_string())]);
}

#[test]
fn string_keeps_escaped_quote() {
    assert_tokens(
        tokenize("\"a\\\"b\""),
        vec![Token::String("a\\\"b".to_string())],
    );
}

#[test]
fn string_may_span_lines() {
    assert_tokens(
        tokenize("\"a\nb\" x"),
        vec![
            Token::String("a\nb".to_string()),
            Token::Whitespace,
            Token::Ident("x".to_string()),
        ],
    );
}

#[test]
fn backslash_before_closing_quote_hides_it() {
    assert_tokens(
        tokenize("\"a\\\\\""),
        vec![Token::Unexpected { line: 1, col: 6 }],
    );
}

#[test]
fn unterminated_string_is_one_token() {
    assert_tokens(tokenize("\"abc"), vec![Token::Unexpected { line: 1, col: 5 }]);
    assert_tokens(tokenize("\""), vec![Token::Unexpected { line: 1, col: 2 }]);
    assert_tokens(
        tokenize("x = \"abc"),
        vec![
            Token::Ident("x".to_string()),
            Token::Whitespace,
            Token::Equal,
            Token::Whitespace,
            Token::Unexpected { line: 1, col: 9 },
        ],
    );
}

#[test]
fn comment_stops_at_line_end() {
    assert_tokens(
        tokenize("// abc\ndef"),
        vec![
            Token::Comment(" abc".to_string()),
            Token::Whitespace,
            Token::Ident("def".to_string()),
        ],
    );
}

#[test]
fn comment_forms() {
    assert_tokens(tokenize("//"), vec![Token::Comment("".to_string())]);
    assert_tokens(tokenize("///"), vec![Token::Comment("/".to_string())]);
    assert_tokens(
        tokenize("/ /"),
        vec![Token::Slash, Token::Whitespace, Token::Slash],
    );
    assert_tokens(
        tokenize("a//b\"c\n"),
        vec![
            Token::Ident("a".to_string()),
            Token::Comment("b\"c".to_string()),
            Token::Whitespace,
        ],
    );
}

#[test]
fn whitespace_runs_coalesce() {
    assert_tokens(tokenize(" "), vec![Token::Whitespace]);
    assert_tokens(tokenize(" \t\n \r\n\t  "), vec![Token::Whitespace]);
    assert_tokens(
        tokenize("a \t\n b"),
        vec![
            Token::Ident("a".to_string()),
            Token::Whitespace,
            Token::Ident("b".to_string()),
        ],
    );
}

#[test]
fn whitespace_beyond_ascii() {
    assert_tokens(
        tokenize("a\u{a0}\u{2003}\u{3000}b"),
        vec![
            Token::Ident("a".to_string()),
            Token::Whitespace,
            Token::Ident("b".to_string()),
        ],
    );
}

#[test]
fn unknown_characters() {
    assert_tokens(tokenize("@"), vec![Token::Unknown]);
    assert_tokens(
        tokenize("a#b"),
        vec![
            Token::Ident("a".to_string()),
            Token::Unknown,
            Token::Ident("b".to_string()),
        ],
    );
    assert_tokens(tokenize("\u{e9}"), vec![Token::Unknown]);
    assert_tokens(tokenize("\u{0}"), vec![Token::Unknown]);
    assert_tokens(tokenize("\u{661}"), vec![Token::Unknown]);
    assert_tokens(tokenize("[]"), vec![Token::Unknown, Token::Unknown]);
}

#[test]
fn position_after_newline() {
    assert_tokens(
        tokenize("ab\n\"cd"),
        vec![
            Token::Ident("ab".to_string()),
            Token::Whitespace,
            Token::Unexpected { line: 2, col: 4 },
        ],
    );
    assert_tokens(
        tokenize("\n\n\n\""),
        vec![Token::Whitespace, Token::Unexpected { line: 4, col: 2 }],
    );
    assert_tokens(
        tokenize("\"a\nbc\n\nd"),
        vec![Token::Unexpected { line: 4, col: 2 }],
    );
}

#[test]
fn position_counts_characters_not_bytes() {
    assert_tokens(
        tokenize("\u{e9}\u{e9}\n\u{4e16}\"\u{754c}"),
        vec![
            Token::Unknown,
            Token::Unknown,
            Token::Whitespace,
            Token::Unknown,
            Token::Unexpected { line: 2, col: 4 },
        ],
    );
}

#[test]
fn newline_at_the_very_end_starts_no_line() {
    assert_tokens(
        tokenize("\"abc\n"),
        vec![Token::Unexpected { line: 1, col: 6 }],
    );
}

#[test]
fn collect_gives_all_tokens() {
    let tokens = tokenize("var x = 1;").collect();
    assert_eq!(
        tokens,
        vec![
            Token::Var,
            Token::Whitespace,
            Token::Ident("x".to_string()),
            Token::Whitespace,
            Token::Equal,
            Token::Whitespace,
            number("1", 1.0),
            Token::Semicolon,
        ]
    );
    assert_eq!(tokenize("").collect(), vec![]);
}

#[test]
fn collect_gives_what_is_left() {
    let mut tokens = tokenize("a b");
    assert_eq!(tokens.next(), Some(Token::Ident("a".to_string())));
    assert_eq!(
        tokens.collect(),
        vec![Token::Whitespace, Token::Ident("b".to_string())]
    );
}

#[test]
fn try_tokenize_gives_the_same_stream() {
    let tokens = lexer::try_tokenize("a + 1");
    assert!(tokens.is_some());
    assert_eq!(
        tokens.unwrap().collect(),
        vec![
            Token::Ident("a".to_string()),
            Token::Whitespace,
            Token::Plus,
            Token::Whitespace,
            number("1", 1.0),
        ]
    );
}

#[test]
fn end_of_input_is_never_yielded() {
    for source in ["", "a", "a ", "\"", "//", "1.", "@"] {
        let tokens = tokenize(source).collect();
        assert!(!tokens.contains(&Token::Eof), "{:?}", source);
    }
}

#[test]
fn prompt_quits_on_quit_line_or_end_of_input() {
    assert_eq!(action("q!\n", 3), Action::Quit);
    assert_eq!(action("", 0), Action::Quit);
    assert_eq!(action("print 1;\n", 0), Action::Quit);
    assert_eq!(action("print 1;\n", 9), Action::Scan);
    assert_eq!(action("q!", 2), Action::Scan);
    assert_eq!(action("q!\r\n", 4), Action::Scan);
    assert_eq!(action(" q!\n", 4), Action::Scan);
    assert_eq!(action("\n", 1), Action::Scan);
}

#[test]
fn all_but_whitespace_is_shown() {
    assert!(!is_shown(&Token::Whitespace));
    assert!(is_shown(&Token::Comment(" x".to_string())));
    assert!(is_shown(&Token::Unknown));
    assert!(is_shown(&Token::Eof));
    assert!(is_shown(&Token::Ident("a".to_string())));
    assert!(is_shown(&Token::Unexpected { line: 1, col: 2 }));
}
