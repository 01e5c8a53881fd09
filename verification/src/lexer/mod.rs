//! The lexical scanner: from the characters of a preprocessed source to
//! tokens.

pub mod scan;
pub mod token;

use vstd::prelude::*;
use vstd::string::*;
use crate::error::{Error, ErrorType, ErrorView, error};
use crate::views::{seq_view, push_view, lemma_take_step};
use crate::lexer::token::{Token, TokenType, TokenView};
use crate::lexer::scan::{
    char_is_alphabetic, char_is_whitespace, is_alpha_char, is_digit_char, digit_run, word_run,
    digit_value, digits_value, keyword, word_kind, symbol, Scan, scan_number, scan, scan_all,
    tokenize, remaining,
};

verus! {

/// `char::is_alphabetic` of the standard library tells whether the character
/// has the Unicode property `Alphabetic`.
pub assume_specification[ char::is_alphabetic ](c: char) -> (r: bool)
    ensures
        r == char_is_alphabetic(c),
;

/// `char::is_whitespace` of the standard library tells whether the character
/// has the Unicode property `White_Space`.
pub assume_specification[ char::is_whitespace ](c: char) -> (r: bool)
    ensures
        r == char_is_whitespace(c),
;

/// The tokens of a source, closed by the end-of-file token, or the first
/// error.
pub fn lex(source: Vec<char>) -> (r: Result<Vec<Token>, Error>)
    requires
        source.len() < usize::MAX,
    ensures
        match r {
            Ok(tokens) => tokenize(source@) == Ok::<Seq<TokenView>, ErrorView>(seq_view(tokens@)),
            Err(e) => tokenize(source@) == Err::<Seq<TokenView>, ErrorView>(e@),
        },
        r matches Ok(tokens) ==> tokens.len() > 0 && seq_view(tokens@).last().token_type
            == TokenType::EOF,
{
    let mut lexer = Lexer::new(source);
    proof {
        assert(seq_view(lexer.tokens@) =~= Seq::empty());
        lemma_scan_all_ends(source@, 0, 1, Seq::empty());
    }
    match lexer.lex() {
        Ok(()) => Ok(lexer.tokens),
        Err(e) => Err(e),
    }
}

/// The state of the scanner: the source, the tokens found so far, the start
/// of the token being read, the position of the next character, and the
/// current line.
pub struct Lexer {
    pub source: Vec<char>,
    pub tokens: Vec<Token>,
    pub start: usize,
    pub current: usize,
    pub line: usize,
}

impl Lexer {
    /// The positions lie within the source, and the line counter has room for
    /// every line that is left.
    pub open spec fn wf(&self) -> bool {
        &&& self.start <= self.current <= self.source.len()
        &&& self.line + (self.source.len() - self.current) <= usize::MAX
    }

    /// A scanner at the start of `source`, on line 1.
    pub fn new(source: Vec<char>) -> (l: Self)
        ensures
            l.source == source,
            l.tokens@.len() == 0,
            l.start == 0,
            l.current == 0,
            l.line == 1,
    {
        Self { source, tokens: Vec::new(), start: 0, current: 0, line: 1 }
    }

    /// A scanner without a source, on line 1.
    pub fn new2() -> (l: Self)
        ensures
            l.source@.len() == 0,
            l.tokens@.len() == 0,
            l.start == 0,
            l.current == 0,
            l.line == 1,
    {
        Self { source: Vec::new(), tokens: Vec::new(), start: 0, current: 0, line: 1 }
    }

    /// Scans the rest of the source. The tokens found are appended to the
    /// tokens of the scanner and closed by the end-of-file token.
    pub fn lex(&mut self) -> (r: Result<(), Error>)
        requires
            old(self).wf(),
        ensures
            final(self).source == old(self).source,
            match r {
                Ok(()) => scan_all(
                    old(self).source@,
                    old(self).current as int,
                    old(self).line,
                    seq_view(old(self).tokens@),
                ) == Ok::<Seq<TokenView>, ErrorView>(seq_view(final(self).tokens@)),
                Err(e) => scan_all(
                    old(self).source@,
                    old(self).current as int,
                    old(self).line,
                    seq_view(old(self).tokens@),
                ) == Err::<Seq<TokenView>, ErrorView>(e@),
            },
    {
        let ghost goal = scan_all(
            self.source@,
            self.current as int,
            self.line,
            seq_view(self.tokens@),
        );
        while !self.at_end()
            invariant
                self.wf(),
                self.source == old(self).source,
                goal == scan_all(
                    old(self).source@,
                    old(self).current as int,
                    old(self).line,
                    seq_view(old(self).tokens@),
                ),
                scan_all(self.source@, self.current as int, self.line, seq_view(self.tokens@))
                    == goal,
            decreases self.source.len() - self.current,
        {
            self.start = self.current;
            self.scan_token()?;
        }
        let token = Token::new(TokenType::EOF, String::new(), self.line);
        push_view(&mut self.tokens, token);
        Ok(())
    }

    /// Scans `source` from the position of the scanner on.
    pub fn lex2(&mut self, source: Vec<char>) -> (r: Result<(), Error>)
        requires
            old(self).current <= source.len(),
            old(self).line + (source.len() - old(self).current) <= usize::MAX,
        ensures
            final(self).source == source,
            match r {
                Ok(()) => scan_all(
                    source@,
                    old(self).current as int,
                    old(self).line,
                    seq_view(old(self).tokens@),
                ) == Ok::<Seq<TokenView>, ErrorView>(seq_view(final(self).tokens@)),
                Err(e) => scan_all(
                    source@,
                    old(self).current as int,
                    old(self).line,
                    seq_view(old(self).tokens@),
                ) == Err::<Seq<TokenView>, ErrorView>(e@),
            },
    {
        self.source = source;
        self.start = self.current;
        self.lex()
    }

    /// Scans the token that starts at the current position, if one does.
    fn scan_token(&mut self) -> (r: Result<(), Error>)
        requires
            old(self).wf(),
            old(self).start == old(self).current,
            old(self).current < old(self).source.len(),
        ensures
            final(self).source == old(self).source,
            final(self).wf(),
            final(self).current > old(self).current,
            match r {
                Ok(()) => scan_all(
                    old(self).source@,
                    old(self).current as int,
                    old(self).line,
                    seq_view(old(self).tokens@),
                ) == scan_all(
                    final(self).source@,
                    final(self).current as int,
                    final(self).line,
                    seq_view(final(self).tokens@),
                ),
                Err(e) => scan_all(
                    old(self).source@,
                    old(self).current as int,
                    old(self).line,
                    seq_view(old(self).tokens@),
                ) == Err::<Seq<TokenView>, ErrorView>(e@),
            },
    {
        let ghost s = self.source@;
        let ghost pos = self.current as int;
        let c = self.advance();
        match c {
            '(' => self.add_token(TokenType::OpenParen),
            ')' => self.add_token(TokenType::CloseParen),
            '{' => self.add_token(TokenType::OpenBrace),
            '}' => self.add_token(TokenType::CloseBrace),
            ';' => self.add_token(TokenType::Semicolon),
            ',' => self.add_token(TokenType::Comma),
            '~' => self.add_token(TokenType::Tilde),
            '-' => {
                if !self.at_end() && self.peek() == '-' {
                    self.advance();
                    self.add_token(TokenType::DoubleDash);
                } else if !self.at_end() && self.peek() == '=' {
                    self.advance();
                    self.add_token(TokenType::MinusEqual);
                } else {
                    self.add_token(TokenType::Dash);
                }
            },
            '+' => {
                if !self.at_end() && self.peek() == '+' {
                    self.advance();
                    self.add_token(TokenType::DoublePlus);
                } else if !self.at_end() && self.peek() == '=' {
                    self.advance();
                    self.add_token(TokenType::PlusEqual);
                } else {
                    self.add_token(TokenType::Plus);
                }
            },
            '*' => {
                if !self.at_end() && self.peek() == '=' {
                    self.advance();
                    self.add_token(TokenType::StarEqual);
                } else {
                    self.add_token(TokenType::Star);
                }
            },
            '/' => {
                if !self.at_end() && self.peek() == '=' {
                    self.advance();
                    self.add_token(TokenType::SlashEqual);
                } else {
                    self.add_token(TokenType::Slash);
                }
            },
            '%' => {
                if !self.at_end() && self.peek() == '=' {
                    self.advance();
                    self.add_token(TokenType::PercentEqual);
                } else {
                    self.add_token(TokenType::Percent);
                }
            },
            '&' => {
                if !self.at_end() && self.peek() == '&' {
                    self.advance();
                    self.add_token(TokenType::DoubleAmpersand);
                } else if !self.at_end() && self.peek() == '=' {
                    self.advance();
                    self.add_token(TokenType::AndEqual);
                } else {
                    self.add_token(TokenType::Ampersand);
                }
            },
            '|' => {
                if !self.at_end() && self.peek() == '|' {
                    self.advance();
                    self.add_token(TokenType::DoublePipe);
                } else if !self.at_end() && self.peek() == '=' {
                    self.advance();
                    self.add_token(TokenType::OrEqual);
                } else {
                    self.add_token(TokenType::Pipe);
                }
            },
            '^' => {
                if !self.at_end() && self.peek() == '=' {
                    self.advance();
                    self.add_token(TokenType::XorEqual);
                } else {
                    self.add_token(TokenType::Caret);
                }
            },
            '<' => {
                if !self.at_end() && self.peek() == '<' {
                    self.advance();
                    if !self.at_end() && self.peek() == '=' {
                        self.advance();
                        self.add_token(TokenType::LeftShiftEqual);
                    } else {
                        self.add_token(TokenType::DoubleLess);
                    }
                } else if !self.at_end() && self.peek() == '=' {
                    self.advance();
                    self.add_token(TokenType::LessOrEqual);
                } else {
                    self.add_token(TokenType::Less);
                }
            },
            '>' => {
                if !self.at_end() && self.peek() == '>' {
                    self.advance();
                    if !self.at_end() && self.peek() == '=' {
                        self.advance();
                        self.add_token(TokenType::RightShiftEqual);
                    } else {
                        self.add_token(TokenType::DoubleGreater);
                    }
                } else if !self.at_end() && self.peek() == '=' {
                    self.advance();
                    self.add_token(TokenType::GreaterOrEqual);
                } else {
                    self.add_token(TokenType::Greater);
                }
            },
            '!' => {
                if !self.at_end() && self.peek() == '=' {
                    self.advance();
                    self.add_token(TokenType::BangEqual);
                } else {
                    self.add_token(TokenType::Bang);
                }
            },
            '=' => {
                if !self.at_end() && self.peek() == '=' {
                    self.advance();
                    self.add_token(TokenType::DoubleEqual);
                } else {
                    self.add_token(TokenType::Equal);
                }
            },
            '?' => self.add_token(TokenType::Question),
            ':' => self.add_token(TokenType::Colon),
            '\n' => {
                self.line += 1;
            },
            _ => {
                proof {
                    assert(symbol(s, pos) is None);
                }
                if c.is_whitespace() {
                } else if is_digit(c) {
                    return self.number();
                } else if is_alpha(c) {
                    self.identifier();
                } else {
                    let mut msg = String::new();
                    msg.push(c);
                    proof {
                        assert(msg@ =~= s.subrange(pos, pos + 1));
                    }
                    return Err(error(self.line, msg, ErrorType::InvalidToken));
                }
            },
        };
        Ok(())
    }

    /// Appends the token of the given kind whose text lies between the start
    /// and the current position.
    fn add_token(&mut self, token_type: TokenType)
        requires
            old(self).start <= old(self).current <= old(self).source.len(),
        ensures
            final(self).source == old(self).source,
            final(self).start == old(self).start,
            final(self).current == old(self).current,
            final(self).line == old(self).line,
            seq_view(final(self).tokens@) == seq_view(old(self).tokens@).push(
                TokenView {
                    token_type,
                    lexeme: old(self).source@.subrange(
                        old(self).start as int,
                        old(self).current as int,
                    ),
                    line_number: old(self).line,
                },
            ),
    {
        let lexeme = self.lexeme();
        let token = Token::new(token_type, lexeme, self.line);
        push_view(&mut self.tokens, token);
    }

    /// Takes the character at the current position.
    fn advance(&mut self) -> (c: char)
        requires
            old(self).current < old(self).source.len(),
        ensures
            c == old(self).source@[old(self).current as int],
            final(self).current == old(self).current + 1,
            final(self).source == old(self).source,
            final(self).tokens == old(self).tokens,
            final(self).start == old(self).start,
            final(self).line == old(self).line,
    {
        let c = self.source[self.current];
        self.current += 1;
        c
    }

    /// The character at the current position.
    fn peek(&self) -> (c: char)
        requires
            self.current < self.source.len(),
        ensures
            c == self.source@[self.current as int],
    {
        self.source[self.current]
    }

    /// Whether the source is used up.
    fn at_end(&self) -> (b: bool)
        ensures
            b == (self.current >= self.source.len()),
    {
        self.current >= self.source.len()
    }

    /// The text between the start and the current position.
    fn lexeme(&self) -> (s: String)
        requires
            self.start <= self.current <= self.source.len(),
        ensures
            s@ == self.source@.subrange(self.start as int, self.current as int),
    {
        let mut s = String::new();
        let mut i: usize = self.start;
        proof {
            assert(s@ =~= self.source@.subrange(self.start as int, i as int));
        }
        while i < self.current
            invariant
                self.start <= i <= self.current <= self.source.len(),
                s@ == self.source@.subrange(self.start as int, i as int),
            decreases self.current - i,
        {
            s.push(self.source[i]);
            i += 1;
            proof {
                assert(s@ =~= self.source@.subrange(self.start as int, i as int));
            }
        }
        s
    }

    /// The value of the digits between the start and the current position,
    /// if it fits a signed 64-bit integer.
    fn value(&self) -> (r: Option<i64>)
        requires
            self.start <= self.current <= self.source.len(),
            forall|k: int| self.start <= k < self.current ==> is_digit_char(self.source@[k]),
        ensures
            match r {
                Some(v) => digits_value(
                    self.source@.subrange(self.start as int, self.current as int),
                ) == v,
                None => digits_value(self.source@.subrange(self.start as int, self.current as int))
                    > i64::MAX,
            },
    {
        let ghost digits = self.source@.subrange(self.start as int, self.current as int);
        let mut acc: i64 = 0;
        let mut i: usize = self.start;
        proof {
            assert(digits.take(0) =~= Seq::empty());
        }
        while i < self.current
            invariant
                self.start <= i <= self.current <= self.source.len(),
                digits == self.source@.subrange(self.start as int, self.current as int),
                forall|k: int| 0 <= k < digits.len() ==> is_digit_char(digits[k]),
                0 <= acc,
                acc == digits_value(digits.take(i - self.start)),
            decreases self.current - i,
        {
            let c = self.source[i];
            proof {
                lemma_take_step(digits, i - self.start);
                assert(digits[i - self.start] == c);
                assert(is_digit_char(c));
            }
            let d: i64 = ((c as u32) - ('0' as u32)) as i64;
            proof {
                assert(d == digit_value(c));
            }
            if acc > (i64::MAX - d) / 10 {
                proof {
                    lemma_digits_value_prefix(digits, i - self.start + 1);
                }
                return None;
            }
            acc = acc * 10 + d;
            i += 1;
        }
        proof {
            assert(digits.take(i - self.start) =~= digits);
        }
        Some(acc)
    }

    /// Scans a number whose first digit was taken.
    fn number(&mut self) -> (r: Result<(), Error>)
        requires
            old(self).wf(),
            old(self).current == old(self).start + 1,
            is_digit_char(old(self).source@[old(self).start as int]),
        ensures
            final(self).source == old(self).source,
            final(self).start == old(self).start,
            final(self).line == old(self).line,
            final(self).wf(),
            final(self).current >= old(self).current,
            match scan_number(old(self).source@, old(self).start as int) {
                Scan::Token { token_type, more } => r is Ok && final(self).current == old(
                    self,
                ).start + 1 + more && seq_view(final(self).tokens@) == seq_view(
                    old(self).tokens@,
                ).push(
                    TokenView {
                        token_type,
                        lexeme: old(self).source@.subrange(
                            old(self).start as int,
                            old(self).start + 1 + more,
                        ),
                        line_number: old(self).line,
                    },
                ),
                Scan::Error { kind, more } => r matches Err(e) && e@ == (ErrorView {
                    kind,
                    line: old(self).line,
                    msg: old(self).source@.subrange(
                        old(self).start as int,
                        old(self).start + 1 + more,
                    ),
                }),
                Scan::Skip { .. } => false,
            },
    {
        let ghost s = self.source@;
        let ghost first = self.start as int;
        while !self.at_end() && is_digit(self.peek())
            invariant
                self.wf(),
                self.source == old(self).source,
                self.tokens == old(self).tokens,
                self.start == old(self).start,
                self.line == old(self).line,
                s == self.source@,
                first == self.start,
                first + 1 <= self.current,
                forall|k: int| first <= k < self.current ==> is_digit_char(s[k]),
                digit_run(s, first + 1) == (self.current - (first + 1)) + digit_run(
                    s,
                    self.current as int,
                ),
            decreases self.source.len() - self.current,
        {
            self.advance();
        }
        let ghost end = self.current as int;
        proof {
            assert(digit_run(s, end) == 0);
        }
        if !self.at_end() && is_alpha(self.peek()) {
            while !self.at_end() && (is_alpha(self.peek()) || is_digit(self.peek()))
                invariant
                    self.wf(),
                    self.source == old(self).source,
                    self.tokens == old(self).tokens,
                    self.start == old(self).start,
                    self.line == old(self).line,
                    s == self.source@,
                    end <= self.current,
                    word_run(s, end) == (self.current - end) + word_run(s, self.current as int),
                decreases self.source.len() - self.current,
            {
                self.advance();
            }
            return Err(error(self.line, self.lexeme(), ErrorType::InvalidIdentifier));
        }
        match self.value() {
            Some(v) => {
                self.add_token(TokenType::Integer(v));
                Ok(())
            },
            None => Err(error(self.line, self.lexeme(), ErrorType::InvalidToken)),
        }
    }

    /// Scans an identifier or a keyword whose first character was taken.
    fn identifier(&mut self)
        requires
            old(self).wf(),
            old(self).current == old(self).start + 1,
        ensures
            final(self).source == old(self).source,
            final(self).start == old(self).start,
            final(self).line == old(self).line,
            final(self).wf(),
            final(self).current == old(self).start + 1 + word_run(
                old(self).source@,
                old(self).start + 1,
            ),
            seq_view(final(self).tokens@) == seq_view(old(self).tokens@).push(
                TokenView {
                    token_type: word_kind(
                        old(self).source@.subrange(
                            old(self).start as int,
                            final(self).current as int,
                        ),
                    ),
                    lexeme: old(self).source@.subrange(
                        old(self).start as int,
                        final(self).current as int,
                    ),
                    line_number: old(self).line,
                },
            ),
    {
        let ghost s = self.source@;
        let ghost first = self.start as int;
        while !self.at_end() && (is_alpha(self.peek()) || is_digit(self.peek()))
            invariant
                self.wf(),
                self.source == old(self).source,
                self.tokens == old(self).tokens,
                self.start == old(self).start,
                self.line == old(self).line,
                s == self.source@,
                first == self.start,
                first + 1 <= self.current,
                word_run(s, first + 1) == (self.current - (first + 1)) + word_run(
                    s,
                    self.current as int,
                ),
            decreases self.source.len() - self.current,
        {
            self.advance();
        }
        let token_string = self.lexeme();
        if let Some(t) = to_keyword(&token_string) {
            self.add_token(t);
        } else {
            self.add_token(TokenType::Identifier);
        }
    }
}

/// The tokens of a source end with the end-of-file token.
pub proof fn lemma_scan_all_ends(s: Seq<char>, pos: int, line: usize, acc: Seq<TokenView>)
    ensures
        scan_all(s, pos, line, acc) matches Ok(ts) ==> ts.len() > 0 && ts.last().token_type
            == TokenType::EOF,
    decreases remaining(s, pos),
{
    if 0 <= pos < s.len() {
        match scan(s, pos) {
            Scan::Token { token_type, more } => {
                lemma_scan_all_ends(
                    s,
                    pos + 1 + more,
                    line,
                    acc.push(
                        TokenView {
                            token_type,
                            lexeme: s.subrange(pos, pos + 1 + more),
                            line_number: line,
                        },
                    ),
                );
            },
            Scan::Skip { more, newline } => {
                lemma_scan_all_ends(
                    s,
                    pos + 1 + more,
                    if newline {
                        (line + 1) as usize
                    } else {
                        line
                    },
                    acc,
                );
            },
            Scan::Error { .. } => {},
        }
    }
}

/// The value of a prefix of a string of digits is at most the value of the
/// whole.
pub proof fn lemma_digits_value_prefix(s: Seq<char>, k: int)
    requires
        0 <= k <= s.len(),
    ensures
        digits_value(s.take(k)) <= digits_value(s),
    decreases s.len() - k,
{
    if k < s.len() {
        lemma_digits_value_prefix(s, k + 1);
        lemma_take_step(s, k);
    } else {
        assert(s.take(k) =~= s);
    }
}

/// Whether the character may start an identifier: a letter or an underscore.
pub fn is_alpha(c: char) -> (b: bool)
    ensures
        b == is_alpha_char(c),
{
    c.is_alphabetic() || c == '_'
}

/// Whether the character is a decimal digit.
pub fn is_digit(c: char) -> (b: bool)
    ensures
        b == is_digit_char(c),
{
    '0' <= c && c <= '9'
}

/// The keyword that the word is, if it is one.
pub fn to_keyword(identifier: &String) -> (r: Option<TokenType>)
    ensures
        r == keyword(identifier@),
{
    if *identifier == String::from_str("int") {
        Some(TokenType::Int)
    } else if *identifier == String::from_str("void") {
        Some(TokenType::Void)
    } else if *identifier == String::from_str("return") {
        Some(TokenType::Return)
    } else if *identifier == String::from_str("if") {
        Some(TokenType::If)
    } else if *identifier == String::from_str("else") {
        Some(TokenType::Else)
    } else if *identifier == String::from_str("do") {
        Some(TokenType::Do)
    } else if *identifier == String::from_str("while") {
        Some(TokenType::While)
    } else if *identifier == String::from_str("for") {
        Some(TokenType::For)
    } else if *identifier == String::from_str("break") {
        Some(TokenType::Break)
    } else if *identifier == String::from_str("continue") {
        Some(TokenType::Continue)
    } else {
        None
    }
}

} // verus!
