use minicc::error::{error, Error, ErrorType};
use minicc::lexer::token::{Token, TokenType};
use minicc::lexer::{is_alpha, is_digit, lex, to_keyword, Lexer};
use minicc::name_generator::{gen_label, gen_tmp_name, uniquify_identifier};
use minicc::text::{i64_to_string, push_decimal, push_i64, push_usize};

fn chars(s: &str) -> Vec<char> {
    s.chars().collect()
}

fn kinds(source: &str) -> Vec<TokenType> {
    lex(chars(source)).unwrap().iter().map(|t| t.token_type).collect()
}

#[test]
fn tokens_of_a_small_function() {
    let tokens = lex(chars("int main(void) {\n  return 42;\n}\n")).unwrap();
    let expected = vec![
        (TokenType::Int, "int", 1),
        (TokenType::Identifier, "main", 1),
        (TokenType::OpenParen, "(", 1),
        (TokenType::Void, "void", 1),
        (TokenType::CloseParen, ")", 1),
        (TokenType::OpenBrace, "{", 1),
        (TokenType::Return, "return", 2),
        (TokenType::Integer(42), "42", 2),
        (TokenType::Semicolon, ";", 2),
        (TokenType::CloseBrace, "}", 3),
        (TokenType::EOF, "", 4),
    ];
    assert_eq!(tokens.len(), expected.len());
    for (t, (kind, lexeme, line)) in tokens.iter().zip(expected) {
        assert_eq!(t.token_type, kind);
        assert_eq!(t.lexeme, lexeme);
        assert_eq!(t.line_number, line);
    }
}

#[test]
fn empty_source_is_only_end_of_file() {
    let tokens = lex(Vec::new()).unwrap();
    assert_eq!(tokens.len(), 1);
    assert_eq!(tokens[0].token_type, TokenType::EOF);
    assert_eq!(tokens[0].lexeme, "");
    assert_eq!(tokens[0].line_number, 1);
}

#[test]
fn every_symbol() {
    assert_eq!(
        kinds("( ) { } ; , ? : ~ - -- + ++ * / % & && | || ^ < <= << > >= >> ! == != ="),
        vec![
            TokenType::OpenParen,
            TokenType::CloseParen,
            TokenType::OpenBrace,
            TokenType::CloseBrace,
            TokenType::Semicolon,
            TokenType::Comma,
            TokenType::Question,
            TokenType::Colon,
            TokenType::Tilde,
            TokenType::Dash,
            TokenType::DoubleDash,
            TokenType::Plus,
            TokenType::DoublePlus,
            TokenType::Star,
            TokenType::Slash,
            TokenType::Percent,
            TokenType::Ampersand,
            TokenType::DoubleAmpersand,
            TokenType::Pipe,
            TokenType::DoublePipe,
            TokenType::Caret,
            TokenType::Less,
            TokenType::LessOrEqual,
            TokenType::DoubleLess,
            TokenType::Greater,
            TokenType::GreaterOrEqual,
            TokenType::DoubleGreater,
            TokenType::Bang,
            TokenType::DoubleEqual,
            TokenType::BangEqual,
            TokenType::Equal,
            TokenType::EOF,
        ]
    );
}

#[test]
fn every_compound_assignment() {
    assert_eq!(
        kinds("+= -= *= /= %= &= |= ^= <<= >>="),
        vec![
            TokenType::PlusEqual,
            TokenType::MinusEqual,
            TokenType::StarEqual,
            TokenType::SlashEqual,
            TokenType::PercentEqual,
            TokenType::AndEqual,
            TokenType::OrEqual,
            TokenType::XorEqual,
            TokenType::LeftShiftEqual,
            TokenType::RightShiftEqual,
            TokenType::EOF,
        ]
    );
}

#[test]
fn the_longest_symbol_wins() {
    assert_eq!(
        kinds("a<<=b>>c<=d<e"),
        vec![
            TokenType::Identifier,
            TokenType::LeftShiftEqual,
            TokenType::Identifier,
            TokenType::DoubleGreater,
            TokenType::Identifier,
            TokenType::LessOrEqual,
            TokenType::Identifier,
            TokenType::Less,
            TokenType::Identifier,
            TokenType::EOF,
        ]
    );
    assert_eq!(kinds("---"), vec![TokenType::DoubleDash, TokenType::Dash, TokenType::EOF]);
    assert_eq!(kinds("<"), vec![TokenType::Less, TokenType::EOF]);
    assert_eq!(kinds("<<"), vec![TokenType::DoubleLess, TokenType::EOF]);
}

#[test]
fn every_keyword() {
    assert_eq!(
        kinds("int void return if else do while for break continue"),
        vec![
            TokenType::Int,
            TokenType::Void,
            TokenType::Return,
            TokenType::If,
            TokenType::Else,
            TokenType::Do,
            TokenType::While,
            TokenType::For,
            TokenType::Break,
            TokenType::Continue,
            TokenType::EOF,
        ]
    );
}

#[test]
fn a_word_that_starts_like_a_keyword_is_an_identifier() {
    let tokens = lex(chars("integer _if return1 é9")).unwrap();
    assert_eq!(tokens.len(), 5);
    for t in &tokens[..4] {
        assert_eq!(t.token_type, TokenType::Identifier);
    }
    assert_eq!(tokens[0].lexeme, "integer");
    assert_eq!(tokens[1].lexeme, "_if");
    assert_eq!(tokens[2].lexeme, "return1");
    assert_eq!(tokens[3].lexeme, "é9");
}

#[test]
fn to_keyword_knows_exactly_the_keywords() {
    assert_eq!(to_keyword(&"int".to_string()), Some(TokenType::Int));
    assert_eq!(to_keyword(&"while".to_string()), Some(TokenType::While));
    assert_eq!(to_keyword(&"continue".to_string()), Some(TokenType::Continue));
    assert_eq!(to_keyword(&"Int".to_string()), None);
    assert_eq!(to_keyword(&"main".to_string()), None);
    assert_eq!(to_keyword(&"".to_string()), None);
}

#[test]
fn numbers_carry_their_value() {
    assert_eq!(
        kinds("0 7 0042 9223372036854775807"),
        vec![
            TokenType::Integer(0),
            TokenType::Integer(7),
            TokenType::Integer(42),
            TokenType::Integer(i64::MAX),
            TokenType::EOF,
        ]
    );
}

#[test]
fn a_number_may_end_the_source() {
    let tokens = lex(chars("12")).unwrap();
    assert_eq!(tokens.len(), 2);
    assert_eq!(tokens[0].token_type, TokenType::Integer(12));
    assert_eq!(tokens[0].lexeme, "12");
}

#[test]
fn a_number_beyond_64_bits_is_an_invalid_token() {
    let e = lex(chars("\n9223372036854775808;")).unwrap_err();
    assert_eq!(e.kind(), ErrorType::InvalidToken);
    assert_eq!(e.line(), 2);
    assert_eq!(e.message(), "9223372036854775808");
    let e = lex(chars("99999999999999999999999999")).unwrap_err();
    assert_eq!(e.kind(), ErrorType::InvalidToken);
}

#[test]
fn a_number_that_runs_into_letters_is_an_invalid_identifier() {
    let e = lex(chars("int x = 123abc4 + 1;")).unwrap_err();
    assert_eq!(e.kind(), ErrorType::InvalidIdentifier);
    assert_eq!(e.line(), 1);
    assert_eq!(e.message(), "123abc4");
    assert_eq!(e.to_text(), "[line 1] Error at '123abc4': Invalid Identifier");
}

#[test]
fn an_unknown_character_is_an_invalid_token() {
    let e = lex(chars("int main(void) {\n\n  return 1 @ 2;\n}")).unwrap_err();
    assert_eq!(e.kind(), ErrorType::InvalidToken);
    assert_eq!(e.line(), 3);
    assert_eq!(e.message(), "@");
    assert_eq!(e.to_text(), "[line 3] Error at '@': Invalid Token");
}

#[test]
fn white_space_separates_and_newlines_count() {
    let tokens = lex(chars("a\t\u{a0}b\r\n\nc")).unwrap();
    let lines: Vec<usize> = tokens.iter().map(|t| t.line_number).collect();
    assert_eq!(lines, vec![1, 1, 3, 3]);
}

#[test]
fn character_classes() {
    assert!(is_alpha('a'));
    assert!(is_alpha('Z'));
    assert!(is_alpha('_'));
    assert!(is_alpha('é'));
    assert!(!is_alpha('1'));
    assert!(!is_alpha('-'));
    assert!(is_digit('0'));
    assert!(is_digit('9'));
    assert!(!is_digit('a'));
    assert!(!is_digit('٣'));
}

#[test]
fn scanner_state_after_construction() {
    let l = Lexer::new(chars("ab"));
    assert_eq!(l.source, vec!['a', 'b']);
    assert!(l.tokens.is_empty());
    assert_eq!((l.start, l.current, l.line), (0, 0, 1));
    let l = Lexer::new2();
    assert!(l.source.is_empty());
    assert!(l.tokens.is_empty());
    assert_eq!((l.start, l.current, l.line), (0, 0, 1));
}

#[test]
fn scanner_appends_to_its_tokens() {
    let mut l = Lexer::new(chars("x"));
    l.lex().unwrap();
    assert_eq!(l.tokens.len(), 2);
    assert_eq!(l.tokens[0].token_type, TokenType::Identifier);
    assert_eq!(l.tokens[1].token_type, TokenType::EOF);
    let mut l = Lexer::new2();
    l.lex2(chars("1 +\n2")).unwrap();
    let kinds: Vec<TokenType> = l.tokens.iter().map(|t| t.token_type).collect();
    assert_eq!(
        kinds,
        vec![TokenType::Integer(1), TokenType::Plus, TokenType::Integer(2), TokenType::EOF]
    );
    assert_eq!(l.line, 2);
}

#[test]
fn token_construction_and_text() {
    let t = Token::new(TokenType::Plus, "+".to_string(), 3);
    assert_eq!(t.token_type, TokenType::Plus);
    assert_eq!(t.lexeme, "+");
    assert_eq!(t.line_number, 3);
    let c = t.clone();
    assert_eq!(c.lexeme, "+");
    assert_eq!(TokenType::GreaterOrEqual.to_text(), ">=");
    assert_eq!(TokenType::LeftShiftEqual.to_text(), "<<=");
    assert_eq!(TokenType::Integer(-12).to_text(), "-12");
    assert_eq!(TokenType::Identifier.to_text(), "identifier");
    assert_eq!(TokenType::EOF.to_text(), "EOF");
    assert_eq!(TokenType::Continue.to_text(), "continue");
    assert_eq!(TokenType::OpenBrace.to_text(), "{");
}

#[test]
fn errors_of_every_kind() {
    let e = error(7, "x".to_string(), ErrorType::InvalidToken);
    assert!(matches!(&e, Error::InvalidToken { line: 7, msg } if msg == "x"));
    assert_eq!(e.to_text(), "[line 7] Error at 'x': Invalid Token");
    let e = error(8, "1a".to_string(), ErrorType::InvalidIdentifier);
    assert!(matches!(&e, Error::InvalidIdentifier { line: 8, msg } if msg == "1a"));
    assert_eq!(e.to_text(), "[line 8] Error at '1a': Invalid Identifier");
    let e = error(120, "Expected ';'".to_string(), ErrorType::SyntaxError);
    assert!(matches!(&e, Error::SyntaxError { line: 120, msg } if msg == "Expected ';'"));
    assert_eq!(e.to_text(), "[line 120] Syntax Error: Expected ';'");
    assert_eq!(e.kind(), ErrorType::SyntaxError);
    assert_eq!(e.line(), 120);
    assert_eq!(e.message(), "Expected ';'");
    let e = error(0, "bad".to_string(), ErrorType::SemanticError);
    assert!(matches!(&e, Error::SemanticError { line: 0, msg } if msg == "bad"));
    assert_eq!(e.to_text(), "[line 0] Semantic Error: bad");
}

#[test]
fn decimal_numerals() {
    let mut s = String::from("n=");
    push_usize(&mut s, 0);
    push_usize(&mut s, 9);
    push_decimal(&mut s, 10);
    push_usize(&mut s, 1234567890);
    assert_eq!(s, "n=09101234567890");
    let mut s = String::new();
    push_usize(&mut s, usize::MAX);
    assert_eq!(s, usize::MAX.to_string());
    let mut s = String::from("x");
    push_i64(&mut s, -40);
    assert_eq!(s, "x-40");
    assert_eq!(i64_to_string(0), "0");
    assert_eq!(i64_to_string(-1), "-1");
    assert_eq!(i64_to_string(305), "305");
    assert_eq!(i64_to_string(i64::MAX), "9223372036854775807");
    assert_eq!(i64_to_string(i64::MIN), "-9223372036854775808");
}

#[test]
fn fresh_names_are_numbered_by_one_counter() {
    let mut counter: usize = 0;
    assert_eq!(gen_tmp_name(&mut counter), "tmp.0");
    assert_eq!(uniquify_identifier(&"x".to_string(), &mut counter), "x.1");
    assert_eq!(gen_label("while", &mut counter), "while.2");
    assert_eq!(gen_tmp_name(&mut counter), "tmp.3");
    assert_eq!(counter, 4);
    let mut counter: usize = 41;
    assert_eq!(gen_label("end", &mut counter), "end.41");
    assert_eq!(counter, 42);
}

#[test]
fn the_counter_wraps_at_the_limit() {
    let mut counter: usize = usize::MAX;
    assert_eq!(gen_tmp_name(&mut counter), format!("tmp.{}", usize::MAX));
    assert_eq!(counter, 0);
}
