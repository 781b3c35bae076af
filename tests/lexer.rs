use monkey_rs::{Lexer, Token};

fn ident(s: &str) -> Token {
    Token::IDENT(s.to_string())
}

fn scan_all(input: &str) -> Vec<Token> {
    let mut lexer = Lexer::new(input);
    let mut tokens = Vec::new();
    loop {
        let token = lexer.next_token();
        let done = token == Token::EOF;
        tokens.push(token);
        if done {
            return tokens;
        }
    }
}

#[test]
fn next_token_works() {
    let input = "let five = 5;
let ten = 10;

let add = fn(x, y) {
    x + y;
};

let result = add(five, ten);

let sum = 2 - 3 * 4 + 4/2;

false = !true;

1 < 2 > 3;

10 == 10;
10 != 9;
";

    let mut lexer = Lexer::new(input);

    let tokens = [
        Token::LET,
        Token::IDENT("five".to_string()),
        Token::ASSIGN,
        Token::INT(5),
        Token::SEMICOLON,
        Token::LET,
        Token::IDENT("ten".to_string()),
        Token::ASSIGN,
        Token::INT(10),
        Token::SEMICOLON,
        Token::LET,
        Token::IDENT("add".to_string()),
        Token::ASSIGN,
        Token::FUNCTION,
        Token::LPAREN,
        Token::IDENT("x".to_string()),
        Token::COMA,
        Token::IDENT("y".to_string()),
        Token::RPAREN,
        Token::LBRACE,
        Token::IDENT("x".to_string()),
        Token::PLUS,
        Token::IDENT("y".to_string()),
        Token::SEMICOLON,
        Token::RBRACE,
        Token::SEMICOLON,
        Token::LET,
        Token::IDENT("result".to_string()),
        Token::ASSIGN,
        Token::IDENT("add".to_string()),
        Token::LPAREN,
        Token::IDENT("five".to_string()),
        Token::COMA,
        Token::IDENT("ten".to_string()),
        Token::RPAREN,
        Token::SEMICOLON,
        Token::LET,
        Token::IDENT("sum".to_string()),
        Token::ASSIGN,
        Token::INT(2),
        Token::MINUS,
        Token::INT(3),
        Token::ASTERISK,
        Token::INT(4),
        Token::PLUS,
        Token::INT(4),
        Token::SLASH,
        Token::INT(2),
        Token::SEMICOLON,
        Token::FALSE,
        Token::ASSIGN,
        Token::BANG,
        Token::TRUE,
        Token::SEMICOLON,
        Token::INT(1),
        Token::LT,
        Token::INT(2),
        Token::GT,
        Token::INT(3),
        Token::SEMICOLON,
        Token::INT(10),
        Token::EQUALS,
        Token::INT(10),
        Token::SEMICOLON,
        Token::INT(10),
        Token::NOTEQUALS,
        Token::INT(9),
        Token::SEMICOLON,
        Token::EOF,
    ];

    for token in tokens.into_iter() {
        assert_eq!(token, lexer.next_token());
    }
}

#[test]
fn symbols_in_a_row() {
    assert_eq!(
        scan_all("=+(){},;"),
        vec![
            Token::ASSIGN,
            Token::PLUS,
            Token::LPAREN,
            Token::RPAREN,
            Token::LBRACE,
            Token::RBRACE,
            Token::COMA,
            Token::SEMICOLON,
            Token::EOF,
        ]
    );
}

#[test]
fn let_statement() {
    assert_eq!(
        scan_all("let five = 5;"),
        vec![
            Token::LET,
            ident("five"),
            Token::ASSIGN,
            Token::INT(5),
            Token::SEMICOLON,
            Token::EOF,
        ]
    );
}

#[test]
fn function_literal() {
    assert_eq!(
        scan_all("fn(x, y) { x + y; }"),
        vec![
            Token::FUNCTION,
            Token::LPAREN,
            ident("x"),
            Token::COMA,
            ident("y"),
            Token::RPAREN,
            Token::LBRACE,
            ident("x"),
            Token::PLUS,
            ident("y"),
            Token::SEMICOLON,
            Token::RBRACE,
            Token::EOF,
        ]
    );
}

#[test]
fn comparisons() {
    assert_eq!(
        scan_all("10 == 10; 10 != 9;"),
        vec![
            Token::INT(10),
            Token::EQUALS,
            Token::INT(10),
            Token::SEMICOLON,
            Token::INT(10),
            Token::NOTEQUALS,
            Token::INT(9),
            Token::SEMICOLON,
            Token::EOF,
        ]
    );
}

#[test]
fn bang_before_keyword() {
    assert_eq!(scan_all("!true"), vec![Token::BANG, Token::TRUE, Token::EOF]);
}

#[test]
fn empty_input() {
    assert_eq!(scan_all(""), vec![Token::EOF]);
}

#[test]
fn end_marker_repeats() {
    let mut lexer = Lexer::new("x ");
    assert_eq!(lexer.next_token(), ident("x"));
    for _ in 0..5 {
        assert_eq!(lexer.next_token(), Token::EOF);
    }
}

#[test]
fn identifier_keeps_its_text() {
    assert_eq!(scan_all("foo_Bar"), vec![ident("foo_Bar"), Token::EOF]);
    assert_eq!(scan_all("_"), vec![ident("_"), Token::EOF]);
}

#[test]
fn keywords_are_whole_words() {
    assert_eq!(scan_all("falsely"), vec![ident("falsely"), Token::EOF]);
    assert_eq!(scan_all("letter"), vec![ident("letter"), Token::EOF]);
    assert_eq!(scan_all("fnx"), vec![ident("fnx"), Token::EOF]);
    assert_eq!(
        scan_all("let fn true false"),
        vec![Token::LET, Token::FUNCTION, Token::TRUE, Token::FALSE, Token::EOF]
    );
}

#[test]
fn identifier_stops_at_digit() {
    assert_eq!(scan_all("abc12"), vec![ident("abc"), Token::INT(12), Token::EOF]);
}

#[test]
fn integer_takes_the_whole_run() {
    assert_eq!(scan_all("007"), vec![Token::INT(7), Token::EOF]);
    assert_eq!(scan_all("123abc"), vec![Token::INT(123), ident("abc"), Token::EOF]);
}

#[test]
fn largest_integer() {
    assert_eq!(scan_all("4294967295"), vec![Token::INT(4294967295), Token::EOF]);
}

#[test]
fn integer_overflow() {
    assert_eq!(scan_all("4294967296"), vec![Token::OVERFLOW, Token::EOF]);
    assert_eq!(
        scan_all("99999999999999999999 1"),
        vec![Token::OVERFLOW, Token::INT(1), Token::EOF]
    );
}

#[test]
fn double_operators_are_one_token() {
    assert_eq!(scan_all("=="), vec![Token::EQUALS, Token::EOF]);
    assert_eq!(scan_all("!="), vec![Token::NOTEQUALS, Token::EOF]);
    assert_eq!(scan_all("==="), vec![Token::EQUALS, Token::ASSIGN, Token::EOF]);
    assert_eq!(scan_all("= ="), vec![Token::ASSIGN, Token::ASSIGN, Token::EOF]);
    assert_eq!(scan_all("!"), vec![Token::BANG, Token::EOF]);
}

#[test]
fn whitespace_runs_are_skipped() {
    assert_eq!(
        scan_all(" \t\r\n  a \n\n\t b\r\n"),
        vec![ident("a"), ident("b"), Token::EOF]
    );
    assert_eq!(scan_all(" \t\n\r "), vec![Token::EOF]);
}

#[test]
fn unknown_characters_are_illegal() {
    assert_eq!(
        scan_all("a @ b"),
        vec![ident("a"), Token::ILLEGAL, ident("b"), Token::EOF]
    );
    assert_eq!(scan_all("é1"), vec![Token::ILLEGAL, Token::INT(1), Token::EOF]);
    assert_eq!(scan_all("#$"), vec![Token::ILLEGAL, Token::ILLEGAL, Token::EOF]);
}

#[test]
fn all_single_symbols() {
    assert_eq!(
        scan_all("+-*/<>,;(){}"),
        vec![
            Token::PLUS,
            Token::MINUS,
            Token::ASTERISK,
            Token::SLASH,
            Token::LT,
            Token::GT,
            Token::COMA,
            Token::SEMICOLON,
            Token::LPAREN,
            Token::RPAREN,
            Token::LBRACE,
            Token::RBRACE,
            Token::EOF,
        ]
    );
}
