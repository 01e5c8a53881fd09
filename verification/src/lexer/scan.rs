//! What the scanner produces, stated over the characters of the source.

use vstd::prelude::*;
use crate::error::{ErrorView, ErrorType};
use crate::lexer::token::{TokenType, TokenView};

verus! {

/// Whether `char::is_alphabetic` of the standard library holds of `c`: the
/// character has the Unicode property `Alphabetic`.
pub uninterp spec fn char_is_alphabetic(c: char) -> bool;

/// Whether `char::is_whitespace` of the standard library holds of `c`: the
/// character has the Unicode property `White_Space`.
pub uninterp spec fn char_is_whitespace(c: char) -> bool;

/// A character that may start an identifier.
pub open spec fn is_alpha_char(c: char) -> bool {
    char_is_alphabetic(c) || c == '_'
}

/// A decimal digit.
pub open spec fn is_digit_char(c: char) -> bool {
    '0' <= c && c <= '9'
}

/// A character that may continue an identifier.
pub open spec fn is_word_char(c: char) -> bool {
    is_alpha_char(c) || is_digit_char(c)
}

/// The characters of `s` that are left from `pos` on.
pub open spec fn remaining(s: Seq<char>, pos: int) -> nat {
    if 0 <= pos <= s.len() {
        (s.len() - pos) as nat
    } else {
        0
    }
}

/// The number of digits of `s` from `pos` on.
pub open spec fn digit_run(s: Seq<char>, pos: int) -> nat
    decreases remaining(s, pos),
{
    if 0 <= pos < s.len() && is_digit_char(s[pos]) {
        1 + digit_run(s, pos + 1)
    } else {
        0
    }
}

/// The number of identifier characters of `s` from `pos` on.
pub open spec fn word_run(s: Seq<char>, pos: int) -> nat
    decreases remaining(s, pos),
{
    if 0 <= pos < s.len() && is_word_char(s[pos]) {
        1 + word_run(s, pos + 1)
    } else {
        0
    }
}

/// The value of a single digit.
pub open spec fn digit_value(c: char) -> nat {
    (c as nat - '0' as nat) as nat
}

/// The number that a string of digits stands for.
pub open spec fn digits_value(s: Seq<char>) -> nat
    decreases s.len(),
{
    if s.len() == 0 {
        0
    } else {
        digits_value(s.drop_last()) * 10 + digit_value(s.last())
    }
}

/// The keyword that a word is, if it is one.
pub open spec fn keyword(word: Seq<char>) -> Option<TokenType> {
    if word == "int"@ {
        Some(TokenType::Int)
    } else if word == "void"@ {
        Some(TokenType::Void)
    } else if word == "return"@ {
        Some(TokenType::Return)
    } else if word == "if"@ {
        Some(TokenType::If)
    } else if word == "else"@ {
        Some(TokenType::Else)
    } else if word == "do"@ {
        Some(TokenType::Do)
    } else if word == "while"@ {
        Some(TokenType::While)
    } else if word == "for"@ {
        Some(TokenType::For)
    } else if word == "break"@ {
        Some(TokenType::Break)
    } else if word == "continue"@ {
        Some(TokenType::Continue)
    } else {
        None
    }
}

/// The kind of a word: a keyword, or else an identifier.
pub open spec fn word_kind(word: Seq<char>) -> TokenType {
    match keyword(word) {
        Some(t) => t,
        None => TokenType::Identifier,
    }
}

/// Whether the character at `pos` is `c`.
pub open spec fn has_char(s: Seq<char>, pos: int, c: char) -> bool {
    0 <= pos < s.len() && s[pos] == c
}

/// The symbol that starts at `pos`, with the number of characters that follow
/// its first one. The longest symbol wins.
pub open spec fn symbol(s: Seq<char>, pos: int) -> Option<(TokenType, nat)>
    recommends
        0 <= pos < s.len(),
{
    let c = s[pos];
    let n = pos + 1;
    if c == '(' {
        Some((TokenType::OpenParen, 0))
    } else if c == ')' {
        Some((TokenType::CloseParen, 0))
    } else if c == '{' {
        Some((TokenType::OpenBrace, 0))
    } else if c == '}' {
        Some((TokenType::CloseBrace, 0))
    } else if c == ';' {
        Some((TokenType::Semicolon, 0))
    } else if c == ',' {
        Some((TokenType::Comma, 0))
    } else if c == '?' {
        Some((TokenType::Question, 0))
    } else if c == ':' {
        Some((TokenType::Colon, 0))
    } else if c == '~' {
        Some((TokenType::Tilde, 0))
    } else if c == '-' {
        if has_char(s, n, '-') {
            Some((TokenType::DoubleDash, 1))
        } else if has_char(s, n, '=') {
            Some((TokenType::MinusEqual, 1))
        } else {
            Some((TokenType::Dash, 0))
        }
    } else if c == '+' {
        if has_char(s, n, '+') {
            Some((TokenType::DoublePlus, 1))
        } else if has_char(s, n, '=') {
            Some((TokenType::PlusEqual, 1))
        } else {
            Some((TokenType::Plus, 0))
        }
    } else if c == '*' {
        if has_char(s, n, '=') {
            Some((TokenType::StarEqual, 1))
        } else {
            Some((TokenType::Star, 0))
        }
    } else if c == '/' {
        if has_char(s, n, '=') {
            Some((TokenType::SlashEqual, 1))
        } else {
            Some((TokenType::Slash, 0))
        }
    } else if c == '%' {
        if has_char(s, n, '=') {
            Some((TokenType::PercentEqual, 1))
        } else {
            Some((TokenType::Percent, 0))
        }
    } else if c == '&' {
        if has_char(s, n, '&') {
            Some((TokenType::DoubleAmpersand, 1))
        } else if has_char(s, n, '=') {
            Some((TokenType::AndEqual, 1))
        } else {
            Some((TokenType::Ampersand, 0))
        }
    } else if c == '|' {
        if has_char(s, n, '|') {
            Some((TokenType::DoublePipe, 1))
        } else if has_char(s, n, '=') {
            Some((TokenType::OrEqual, 1))
        } else {
            Some((TokenType::Pipe, 0))
        }
    } else if c == '^' {
        if has_char(s, n, '=') {
            Some((TokenType::XorEqual, 1))
        } else {
            Some((TokenType::Caret, 0))
        }
    } else if c == '<' {
        if has_char(s, n, '<') {
            if has_char(s, n + 1, '=') {
                Some((TokenType::LeftShiftEqual, 2))
            } else {
                Some((TokenType::DoubleLess, 1))
            }
        } else if has_char(s, n, '=') {
            Some((TokenType::LessOrEqual, 1))
        } else {
            Some((TokenType::Less, 0))
        }
    } else if c == '>' {
        if has_char(s, n, '>') {
            if has_char(s, n + 1, '=') {
                Some((TokenType::RightShiftEqual, 2))
            } else {
                Some((TokenType::DoubleGreater, 1))
            }
        } else if has_char(s, n, '=') {
            Some((TokenType::GreaterOrEqual, 1))
        } else {
            Some((TokenType::Greater, 0))
        }
    } else if c == '!' {
        if has_char(s, n, '=') {
            Some((TokenType::BangEqual, 1))
        } else {
            Some((TokenType::Bang, 0))
        }
    } else if c == '=' {
        if has_char(s, n, '=') {
            Some((TokenType::DoubleEqual, 1))
        } else {
            Some((TokenType::Equal, 0))
        }
    } else {
        None
    }
}

/// What one step of the scanner finds at a position: a token, nothing worth
/// a token, or an error. `more` counts the characters that the step takes
/// after the first one.
pub enum Scan {
    Token { token_type: TokenType, more: nat },
    Skip { more: nat, newline: bool },
    Error { kind: ErrorType, more: nat },
}

/// What the scanner finds where a number starts at `pos`. A number that runs
/// into letters is an invalid identifier; one that does not fit a signed
/// 64-bit integer is an invalid token.
pub open spec fn scan_number(s: Seq<char>, pos: int) -> Scan {
    let digits = digit_run(s, pos + 1);
    let end = pos + 1 + digits;
    if end < s.len() && is_alpha_char(s[end]) {
        Scan::Error { kind: ErrorType::InvalidIdentifier, more: digits + word_run(s, end) }
    } else if digits_value(s.subrange(pos, end)) <= i64::MAX {
        Scan::Token {
            token_type: TokenType::Integer(digits_value(s.subrange(pos, end)) as i64),
            more: digits,
        }
    } else {
        Scan::Error { kind: ErrorType::InvalidToken, more: digits }
    }
}

/// What the scanner finds at `pos`.
pub open spec fn scan(s: Seq<char>, pos: int) -> Scan
    recommends
        0 <= pos < s.len(),
{
    let c = s[pos];
    match symbol(s, pos) {
        Some((token_type, more)) => Scan::Token { token_type, more },
        None => {
            if c == '\n' {
                Scan::Skip { more: 0, newline: true }
            } else if char_is_whitespace(c) {
                Scan::Skip { more: 0, newline: false }
            } else if is_digit_char(c) {
                scan_number(s, pos)
            } else if is_alpha_char(c) {
                let more = word_run(s, pos + 1);
                Scan::Token { token_type: word_kind(s.subrange(pos, pos + 1 + more)), more }
            } else {
                Scan::Error { kind: ErrorType::InvalidToken, more: 0 }
            }
        },
    }
}

/// The end-of-file token on the given line.
pub open spec fn eof_token(line: usize) -> TokenView {
    TokenView { token_type: TokenType::EOF, lexeme: Seq::empty(), line_number: line }
}

/// The tokens of `s` from `pos` on, appended to `acc` and closed by the
/// end-of-file token; or the first error. A token and an error carry the
/// text that was read for them and the line it was read on.
pub open spec fn scan_all(s: Seq<char>, pos: int, line: usize, acc: Seq<TokenView>) -> Result<
    Seq<TokenView>,
    ErrorView,
>
    decreases remaining(s, pos),
{
    if !(0 <= pos < s.len()) {
        Ok(acc.push(eof_token(line)))
    } else {
        match scan(s, pos) {
            Scan::Token { token_type, more } => scan_all(
                s,
                pos + 1 + more,
                line,
                acc.push(
                    TokenView {
                        token_type,
                        lexeme: s.subrange(pos, pos + 1 + more),
                        line_number: line,
                    },
                ),
            ),
            Scan::Skip { more, newline } => scan_all(
                s,
                pos + 1 + more,
                if newline {
                    (line + 1) as usize
                } else {
                    line
                },
                acc,
            ),
            Scan::Error { kind, more } => Err(
                ErrorView { kind, line, msg: s.subrange(pos, pos + 1 + more) },
            ),
        }
    }
}

/// The tokens of a source, or the first error.
pub open spec fn tokenize(s: Seq<char>) -> Result<Seq<TokenView>, ErrorView> {
    scan_all(s, 0, 1, Seq::empty())
}

} // verus!
