use script_lexer::lexer::is_digit;
use script_lexer::lexer::is_letter;
use script_lexer::lexer::lookup_ident;
use script_lexer::lexer::Lexer;
use script_lexer::token::Token;

fn collect_tokens(input: &str) -> Vec<Token> {
    let mut lexer = Lexer::from(String::from(input));
    let mut tokens = Vec::new();
    loop {
        let token = lexer.next_token();
        let done = token == Token::Eof;
        tokens.push(token);
        if done {
            return tokens;
        }
    }
}

#[test]
fn test_basic_lexing() {
    let mut lexer = Lexer::from(String::from("+=(){},;"));
    let expected_tokens = [
        Token::Plus,
        Token::Assign,
        Token::LParen,
        Token::RParen,
        Token::LBrace,
        Token::RBrace,
        Token::Comma,
        Token::Semicolon,
        Token::Eof,
    ];

    for token in expected_tokens {
        assert_eq!(lexer.next_token(), token);
    }
}

#[test]
fn test_lexing() {
    let mut lexer = Lexer::from(String::from(
        "
            let five = 5;
            let ten = 10;

            let add = fn(x, y) {
                x + y;
            };

            let result = add(five, ten);

            !-/*5;
            5 < 10 > 5;

            if (5 < 10) {
                return true;
            } else {
                return false;
            }

            10 == 10;
            10 != 9;
            ",
    ));

    let expected_tokens = [
        Token::Let,
        Token::Ident("five".to_string()),
        Token::Assign,
        Token::Int("5".to_string()),
        Token::Semicolon,
        Token::Let,
        Token::Ident("ten".to_string()),
        Token::Assign,
        Token::Int("10".to_string()),
        Token::Semicolon,
        Token::Let,
        Token::Ident("add".to_string()),
        Token::Assign,
        Token::Function,
        Token::LParen,
        Token::Ident("x".to_string()),
        Token::Comma,
        Token::Ident("y".to_string()),
        Token::RParen,
        Token::LBrace,
        Token::Ident("x".to_string()),
        Token::Plus,
        Token::Ident("y".to_string()),
        Token::Semicolon,
        Token::RBrace,
        Token::Semicolon,
        Token::Let,
        Token::Ident("result".to_string()),
        Token::Assign,
        Token::Ident("add".to_string()),
        Token::LParen,
        Token::Ident("five".to_string()),
        Token::Comma,
        Token::Ident("ten".to_string()),
        Token::RParen,
        Token::Semicolon,
        Token::Bang,
        Token::Minus,
        Token::Slash,
        Token::Asterisk,
        Token::Int("5".to_string()),
        Token::Semicolon,
        Token::Int("5".to_string()),
        Token::Lt,
        Token::Int("10".to_string()),
        Token::Gt,
        Token::Int("5".to_string()),
        Token::Semicolon,
        Token::If,
        Token::LParen,
        Token::Int("5".to_string()),
        Token::Lt,
        Token::Int("10".to_string()),
        Token::RParen,
        Token::LBrace,
        Token::Return,
        Token::True,
        Token::Semicolon,
        Token::RBrace,
        Token::Else,
        Token::LBrace,
        Token::Return,
        Token::False,
        Token::Semicolon,
        Token::RBrace,
        Token::Int("10".to_string()),
        Token::Eq,
        Token::Int("10".to_string()),
        Token::Semicolon,
        Token::Int("10".to_string()),
        Token::Neq,
        Token::Int("9".to_string()),
        Token::Semicolon,
        Token::Eof,
    ];

    for token in expected_tokens {
        let next_token = lexer.next_token();
        println!("___________________________________");
        println!("expected: {:?}\nfound: {:?}", token, next_token);
        assert_eq!(next_token, token);
    }
}

#[test]
fn fresh_scans_produce_the_same_sequence() {
    let input = "let x = fn(a, b) { a + b; };";
    let first = collect_tokens(input);
    let second = collect_tokens(input);
    assert_eq!(first, second);
}

#[test]
fn end_of_input_is_repeated() {
    let mut lexer = Lexer::from(String::from("x"));
    assert_eq!(lexer.next_token(), Token::Ident("x".to_string()));
    assert_eq!(lexer.next_token(), Token::Eof);
    assert_eq!(lexer.next_token(), Token::Eof);
    assert_eq!(lexer.next_token(), Token::Eof);
}

#[test]
fn empty_input_yields_end_of_input() {
    assert_eq!(collect_tokens(""), vec![Token::Eof]);
}

#[test]
fn whitespace_only_input_yields_end_of_input() {
    assert_eq!(collect_tokens(" \t\r\n  "), vec![Token::Eof]);
}

#[test]
fn all_non_whitespace_content_is_consumed() {
    assert_eq!(
        collect_tokens("x_y 42"),
        vec![
            Token::Ident("x_y".to_string()),
            Token::Int("42".to_string()),
            Token::Eof,
        ]
    );
}

#[test]
fn maximal_munch_digits_then_letters() {
    assert_eq!(
        collect_tokens("1234abc"),
        vec![
            Token::Int("1234".to_string()),
            Token::Ident("abc".to_string()),
            Token::Eof,
        ]
    );
}

#[test]
fn digit_starts_a_number_even_before_letters() {
    assert_eq!(
        collect_tokens("5x"),
        vec![
            Token::Int("5".to_string()),
            Token::Ident("x".to_string()),
            Token::Eof,
        ]
    );
}

#[test]
fn two_char_lookahead_eq() {
    assert_eq!(collect_tokens("=="), vec![Token::Eq, Token::Eof]);
}

#[test]
fn two_char_lookahead_assign_then_ident() {
    assert_eq!(
        collect_tokens("=x"),
        vec![Token::Assign, Token::Ident("x".to_string()), Token::Eof]
    );
}

#[test]
fn two_char_lookahead_neq() {
    assert_eq!(collect_tokens("!="), vec![Token::Neq, Token::Eof]);
}

#[test]
fn two_char_lookahead_bang_then_ident() {
    assert_eq!(
        collect_tokens("!x"),
        vec![Token::Bang, Token::Ident("x".to_string()), Token::Eof]
    );
}

#[test]
fn keyword_needs_exact_match() {
    assert_eq!(collect_tokens("let"), vec![Token::Let, Token::Eof]);
    assert_eq!(
        collect_tokens("letx"),
        vec![Token::Ident("letx".to_string()), Token::Eof]
    );
}

#[test]
fn all_keywords_are_recognized() {
    assert_eq!(
        collect_tokens("fn let return if else true false"),
        vec![
            Token::Function,
            Token::Let,
            Token::Return,
            Token::If,
            Token::Else,
            Token::True,
            Token::False,
            Token::Eof,
        ]
    );
}

#[test]
fn one_illegal_token_per_unrecognized_character() {
    assert_eq!(collect_tokens("@"), vec![Token::Illegal, Token::Eof]);
    assert_eq!(
        collect_tokens("@@"),
        vec![Token::Illegal, Token::Illegal, Token::Eof]
    );
}

#[test]
fn nul_character_in_input_is_illegal_not_end() {
    assert_eq!(
        collect_tokens("\0x"),
        vec![Token::Illegal, Token::Ident("x".to_string()), Token::Eof]
    );
}

#[test]
fn non_ascii_character_is_illegal() {
    assert_eq!(
        collect_tokens("\u{3b1}\u{3b2}"),
        vec![Token::Illegal, Token::Illegal, Token::Eof]
    );
}

#[test]
fn let_statement_scenario() {
    assert_eq!(
        collect_tokens("let five = 5;"),
        vec![
            Token::Let,
            Token::Ident("five".to_string()),
            Token::Assign,
            Token::Int("5".to_string()),
            Token::Semicolon,
            Token::Eof,
        ]
    );
}

#[test]
fn punctuation_cluster_scenario() {
    assert_eq!(
        collect_tokens("!-/*5;"),
        vec![
            Token::Bang,
            Token::Minus,
            Token::Slash,
            Token::Asterisk,
            Token::Int("5".to_string()),
            Token::Semicolon,
            Token::Eof,
        ]
    );
}

#[test]
fn interleaved_whitespace_does_not_change_tokens() {
    let compact = collect_tokens("let x = 5 ;");
    let spaced = collect_tokens("  let\tx\n=\r\n5   ; ");
    assert_eq!(compact, spaced);
    let newline_heavy = collect_tokens("\nlet\nx\n=\n5\n;\n");
    assert_eq!(compact, newline_heavy);
}

#[test]
fn lookup_ident_distinguishes_keywords() {
    assert_eq!(lookup_ident("fn".to_string()), Token::Function);
    assert_eq!(lookup_ident("return".to_string()), Token::Return);
    assert_eq!(
        lookup_ident("foo".to_string()),
        Token::Ident("foo".to_string())
    );
}

#[test]
fn character_classification() {
    assert!(is_letter('a'));
    assert!(is_letter('Z'));
    assert!(is_letter('_'));
    assert!(!is_letter('5'));
    assert!(!is_letter(' '));
    assert!(is_digit('0'));
    assert!(is_digit('9'));
    assert!(!is_digit('a'));
}

#[test]
fn token_text_names_each_kind() {
    assert_eq!(Token::Eq.text(), "==");
    assert_eq!(Token::Let.text(), "Let");
    assert_eq!(Token::Plus.text(), "+");
    assert_eq!(Token::Ident("five".to_string()).text(), "Ident");
    assert_eq!(Token::Int("5".to_string()).text(), "Int");
}
