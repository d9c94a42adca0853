use sol::lexer::tokens::Token;
use sol::lexer::Lexer;

fn lex(input: &str) -> Vec<Token> {
    let mut lexer = Lexer::new(input.into());
    lexer.collect_tokens()
}

fn ident(name: &str) -> Token {
    Token::Ident(String::from(name))
}

#[test]
fn read_tokens() {
    let input = "=+(){},;";
    let mut lexer = Lexer::new(input.into());

    let expected_tokens = vec![
        Token::Assign,
        Token::Plus,
        Token::LParen,
        Token::RParen,
        Token::LBrace,
        Token::RBrace,
        Token::Comma,
        Token::Semicolon,
    ];
    let real_tokens: Vec<Token> = lexer.collect_tokens();

    assert_eq!(expected_tokens, real_tokens);
}

#[test]
fn assignments_with_comments() {
    let input = r#"
            decl a = 42;
            /* this is a comment */
            decl b; /* this is another comment */
            // this is another way of commenting
            b = 99;
        "#;
    let mut lexer = Lexer::new(input.into());

    let expected_tokens = vec![
        Token::Decl,
        Token::Ident(String::from("a")),
        Token::Assign,
        Token::Integer(42),
        Token::Semicolon,
        Token::Decl,
        Token::Ident(String::from("b")),
        Token::Semicolon,
        Token::Ident(String::from("b")),
        Token::Assign,
        Token::Integer(99),
        Token::Semicolon,
    ];
    let real_tokens: Vec<Token> = lexer.collect_tokens();

    assert_eq!(expected_tokens, real_tokens);
}

#[test]
fn invalid_token() {
    let input = r#"
            decl a = 42;
            /* this is a comment */
            ^&~ b; /* this is another comment */
            // this is another way of commenting
            b = 99;
        "#;
    let mut lexer = Lexer::new(input.into());

    let expected_tokens = vec![
        Token::Decl,
        Token::Ident(String::from("a")),
        Token::Assign,
        Token::Integer(42),
        Token::Semicolon,
        Token::Invalid,
        Token::Invalid,
        Token::Invalid,
        Token::Ident(String::from("b")),
        Token::Semicolon,
        Token::Ident(String::from("b")),
        Token::Assign,
        Token::Integer(99),
        Token::Semicolon,
    ];
    let real_tokens: Vec<Token> = lexer.collect_tokens();

    assert_eq!(expected_tokens, real_tokens);
}

#[test]
fn declaration_statement() {
    assert_eq!(
        lex("decl a = 42;"),
        vec![Token::Decl, ident("a"), Token::Assign, Token::Integer(42), Token::Semicolon]
    );
}

#[test]
fn empty_input_ends_at_once_and_stays_ended() {
    let mut lexer = Lexer::new(String::new());
    assert_eq!(lexer.read_token(), None);
    assert_eq!(lexer.read_token(), None);
    assert_eq!(lexer.read_token(), None);
}

#[test]
fn only_whitespace_and_comments_yield_nothing() {
    assert_eq!(lex(" \t\r\n  // note\n /* block */ "), vec![]);
}

#[test]
fn read_token_pulls_one_token_at_a_time() {
    let mut lexer = Lexer::new(String::from("x + 1"));
    assert_eq!(lexer.read_token(), Some(ident("x")));
    assert_eq!(lexer.read_token(), Some(Token::Plus));
    assert_eq!(lexer.read_token(), Some(Token::Integer(1)));
    assert_eq!(lexer.read_token(), None);
    assert_eq!(lexer.read_token(), None);
}

#[test]
fn rescanning_gives_the_same_tokens() {
    let input = "fun f(x) { return x >= 10; } // done";
    assert_eq!(lex(input), lex(input));
}

#[test]
fn line_comment_does_not_hide_next_line() {
    assert_eq!(
        lex("// comment\nb = 1;"),
        vec![ident("b"), Token::Assign, Token::Integer(1), Token::Semicolon]
    );
}

#[test]
fn line_comment_at_end_of_input() {
    assert_eq!(lex("a // trailing"), vec![ident("a")]);
}

#[test]
fn block_comment_keeps_line_and_column() {
    let mut lexer = Lexer::new(String::from("a /* one\ntwo\nthree */ b"));
    assert_eq!(lexer.line(), 1);
    assert_eq!(lexer.column(), 1);
    assert_eq!(lexer.read_token(), Some(ident("a")));
    assert_eq!(lexer.line(), 1);
    assert_eq!(lexer.column(), 2);
    assert_eq!(lexer.read_token(), Some(ident("b")));
    assert_eq!(lexer.line(), 3);
    assert_eq!(lexer.column(), 11);
    assert_eq!(lexer.read_token(), None);
}

#[test]
fn line_and_column_follow_newlines() {
    let mut lexer = Lexer::new(String::from("x\n  yy\nz"));
    assert_eq!(lexer.read_token(), Some(ident("x")));
    assert_eq!((lexer.line(), lexer.column()), (1, 2));
    assert_eq!(lexer.read_token(), Some(ident("yy")));
    assert_eq!((lexer.line(), lexer.column()), (2, 5));
    assert_eq!(lexer.read_token(), Some(ident("z")));
    assert_eq!((lexer.line(), lexer.column()), (3, 2));
}

#[test]
fn unterminated_block_comment_runs_to_end() {
    assert_eq!(lex("a /* never closed\n b = 1;"), vec![ident("a")]);
}

#[test]
fn block_comment_closes_at_first_star_slash() {
    assert_eq!(lex("/* a */ b */"), vec![ident("b"), Token::Asterisk, Token::Slash]);
}

#[test]
fn opening_star_may_close_block_comment() {
    assert_eq!(lex("/*/ x"), vec![ident("x")]);
}

#[test]
fn unrecognized_characters_are_invalid_one_by_one() {
    assert_eq!(
        lex("^&~ b"),
        vec![Token::Invalid, Token::Invalid, Token::Invalid, ident("b")]
    );
}

#[test]
fn two_character_operators_are_not_split() {
    assert_eq!(lex("=="), vec![Token::Eq]);
    assert_eq!(lex("!="), vec![Token::NotEq]);
    assert_eq!(lex("<="), vec![Token::LtEq]);
    assert_eq!(lex(">="), vec![Token::GtEq]);
    assert_eq!(lex("a==b"), vec![ident("a"), Token::Eq, ident("b")]);
    assert_eq!(lex("!=="), vec![Token::NotEq, Token::Assign]);
}

#[test]
fn lone_comparison_characters() {
    assert_eq!(
        lex("= ! < >"),
        vec![Token::Assign, Token::Bang, Token::Lt, Token::Gt]
    );
    assert_eq!(lex("= ="), vec![Token::Assign, Token::Assign]);
    assert_eq!(lex("<"), vec![Token::Lt]);
}

#[test]
fn remaining_operators_and_delimiters() {
    assert_eq!(
        lex("- * / [ ]"),
        vec![
            Token::Minus,
            Token::Asterisk,
            Token::Slash,
            Token::LBracket,
            Token::RBracket
        ]
    );
}

#[test]
fn keywords_are_reserved() {
    assert_eq!(
        lex("decl fun if else return while for"),
        vec![
            Token::Decl,
            Token::Fun,
            Token::If,
            Token::Else,
            Token::Return,
            Token::While,
            Token::For
        ]
    );
}

#[test]
fn near_keywords_are_identifiers() {
    assert_eq!(
        lex("iff fo declare If _x"),
        vec![
            ident("iff"),
            ident("fo"),
            ident("declare"),
            ident("If"),
            Token::Invalid,
            ident("x")
        ]
    );
}

#[test]
fn identifiers_take_letters_digits_and_underscores() {
    assert_eq!(lex("a_1b2 c"), vec![ident("a_1b2"), ident("c")]);
    assert_eq!(lex("héllo"), vec![ident("héllo")]);
}

#[test]
fn digits_then_letters_split() {
    assert_eq!(lex("42foo"), vec![Token::Integer(42), ident("foo")]);
}

#[test]
fn largest_integer_fits() {
    assert_eq!(lex("2147483647"), vec![Token::Integer(2147483647)]);
    assert_eq!(lex("007"), vec![Token::Integer(7)]);
}

#[test]
fn integer_overflow_is_invalid() {
    assert_eq!(lex("2147483648;"), vec![Token::Invalid, Token::Semicolon]);
}

#[test]
fn non_ascii_numerals_are_invalid() {
    assert_eq!(lex("²"), vec![Token::Invalid]);
}

#[test]
fn minus_before_number_is_an_operator() {
    assert_eq!(lex("-5"), vec![Token::Minus, Token::Integer(5)]);
}

#[test]
fn token_text_of_symbols_and_keywords() {
    assert_eq!(Token::Assign.text(), "=");
    assert_eq!(Token::Eq.text(), "==");
    assert_eq!(Token::NotEq.text(), "!=");
    assert_eq!(Token::LtEq.text(), "<=");
    assert_eq!(Token::GtEq.text(), ">=");
    assert_eq!(Token::LBrace.text(), "{");
    assert_eq!(Token::RBrace.text(), "}");
    assert_eq!(Token::LBracket.text(), "[");
    assert_eq!(Token::RBracket.text(), "]");
    assert_eq!(Token::Decl.text(), "decl");
    assert_eq!(Token::Return.text(), "return");
    assert_eq!(Token::Invalid.text(), "Invalid");
}

#[test]
fn token_text_of_literals() {
    assert_eq!(ident("name").text(), "name");
    assert_eq!(Token::Integer(42).text(), "42");
    assert_eq!(Token::Integer(-7).text(), "-7");
    assert_eq!(Token::Integer(0).text(), "0");
    assert_eq!(Token::Integer(i32::MIN).text(), "-2147483648");
}
