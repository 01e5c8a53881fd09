//! The parser: recursive descent over the token stream, with precedence
//! climbing for expressions.

pub mod ast;
pub mod grammar;

use vstd::prelude::*;
use vstd::string::*;
use crate::error::{Error, ErrorType, ErrorView, error};
use crate::views::{seq_view, push_view, clone_string};
use crate::lexer::token::{Token, TokenType, TokenView};
use crate::parser::ast::{
    AST, Program, FuncDecl, VarDecl, Block, BlockItem, Decl, ForInit, Stmt, Expr, UnaryOp,
    BinaryOp, ExprView, FuncDeclView, ProgramView, opt_expr_view, opt_init_view, clone_expr,
};
use crate::parser::grammar::{
    Precedence, Parsed, level, stronger, precedence_of, binary_op_of, unary_op_of, compound_op_of,
    is_assignment_op, kind_at, line_at, lexeme_at, holds, expected, expected_identifier,
    expected_expression, identifier_at, factor_at, args_at, more_args_at, expression_at,
    operators_at, optional_expression_at, variable_decl_at, param_at, more_params_at, params_at,
    body_at, function_decl_at, declaration_at, for_init_at, condition_at, for_header_at,
    statement_at, block_item_at, items_at, functions_at, parse_tokens,
};

verus! {

impl Precedence {
    /// The place of this level in the order of binding strength.
    fn rank(&self) -> (r: u8)
        ensures
            r == level(*self),
    {
        match self {
            Precedence::Lowest => 0,
            Precedence::Assignment => 1,
            Precedence::Ternary => 2,
            Precedence::LogicalOr => 3,
            Precedence::LogicalAnd => 4,
            Precedence::BitwiseOr => 5,
            Precedence::BitwiseXor => 6,
            Precedence::BitwiseAnd => 7,
            Precedence::Equality => 8,
            Precedence::Comparison => 9,
            Precedence::Shift => 10,
            Precedence::Term => 11,
            Precedence::Factor => 12,
            Precedence::Max => 13,
        }
    }

    /// The next stronger level.
    fn increment(&self) -> (p: Precedence)
        ensures
            p == stronger(*self),
    {
        match self {
            Precedence::Lowest => Precedence::Assignment,
            Precedence::Assignment => Precedence::Ternary,
            Precedence::Ternary => Precedence::LogicalOr,
            Precedence::LogicalOr => Precedence::LogicalAnd,
            Precedence::LogicalAnd => Precedence::BitwiseOr,
            Precedence::BitwiseOr => Precedence::BitwiseXor,
            Precedence::BitwiseXor => Precedence::BitwiseAnd,
            Precedence::BitwiseAnd => Precedence::Equality,
            Precedence::Equality => Precedence::Comparison,
            Precedence::Comparison => Precedence::Shift,
            Precedence::Shift => Precedence::Term,
            Precedence::Term => Precedence::Factor,
            Precedence::Factor => Precedence::Max,
            Precedence::Max => Precedence::Max,
        }
    }
}

impl TokenType {
    /// The level at which this token binds as an operator.
    fn precedence(&self) -> (p: Precedence)
        ensures
            p == precedence_of(*self),
    {
        match self {
            TokenType::Star => Precedence::Factor,
            TokenType::Slash => Precedence::Factor,
            TokenType::Percent => Precedence::Factor,
            TokenType::Plus => Precedence::Term,
            TokenType::Dash => Precedence::Term,
            TokenType::DoubleLess => Precedence::Shift,
            TokenType::DoubleGreater => Precedence::Shift,
            TokenType::Pipe => Precedence::BitwiseOr,
            TokenType::Caret => Precedence::BitwiseXor,
            TokenType::Ampersand => Precedence::BitwiseAnd,
            TokenType::DoubleAmpersand => Precedence::LogicalAnd,
            TokenType::DoublePipe => Precedence::LogicalOr,
            TokenType::Less => Precedence::Comparison,
            TokenType::LessOrEqual => Precedence::Comparison,
            TokenType::Greater => Precedence::Comparison,
            TokenType::GreaterOrEqual => Precedence::Comparison,
            TokenType::DoubleEqual => Precedence::Equality,
            TokenType::BangEqual => Precedence::Equality,
            TokenType::Equal => Precedence::Assignment,
            TokenType::PlusEqual => Precedence::Assignment,
            TokenType::MinusEqual => Precedence::Assignment,
            TokenType::StarEqual => Precedence::Assignment,
            TokenType::SlashEqual => Precedence::Assignment,
            TokenType::PercentEqual => Precedence::Assignment,
            TokenType::AndEqual => Precedence::Assignment,
            TokenType::OrEqual => Precedence::Assignment,
            TokenType::XorEqual => Precedence::Assignment,
            TokenType::LeftShiftEqual => Precedence::Assignment,
            TokenType::RightShiftEqual => Precedence::Assignment,
            TokenType::Question => Precedence::Ternary,
            _ => Precedence::Lowest,
        }
    }

    /// The binary operator that this token stands for.
    fn to_binary_op(&self) -> (op: BinaryOp)
        requires
            binary_op_of(*self) is Some,
        ensures
            Some(op) == binary_op_of(*self),
    {
        match self {
            TokenType::Plus => BinaryOp::Add,
            TokenType::Dash => BinaryOp::Subtract,
            TokenType::Star => BinaryOp::Multiply,
            TokenType::Slash => BinaryOp::Divide,
            TokenType::Percent => BinaryOp::Modulus,
            TokenType::Ampersand => BinaryOp::BitwiseAnd,
            TokenType::Pipe => BinaryOp::BitwiseOr,
            TokenType::Caret => BinaryOp::BitwiseXor,
            TokenType::DoubleLess => BinaryOp::LeftShift,
            TokenType::DoubleGreater => BinaryOp::RightShift,
            TokenType::DoubleAmpersand => BinaryOp::LogicalAnd,
            TokenType::DoublePipe => BinaryOp::LogicalOr,
            TokenType::DoubleEqual => BinaryOp::Equal,
            TokenType::BangEqual => BinaryOp::NotEqual,
            TokenType::Less => BinaryOp::LessThan,
            TokenType::LessOrEqual => BinaryOp::LessOrEqual,
            TokenType::Greater => BinaryOp::GreaterThan,
            _ => BinaryOp::GreaterOrEqual,
        }
    }

    /// The unary operator that this token stands for.
    fn to_unary_op(&self) -> (op: UnaryOp)
        requires
            unary_op_of(*self) is Some,
        ensures
            Some(op) == unary_op_of(*self),
    {
        match self {
            TokenType::Dash => UnaryOp::Negate,
            TokenType::Tilde => UnaryOp::Complement,
            _ => UnaryOp::Not,
        }
    }

    fn is_binary_op(&self) -> (b: bool)
        ensures
            b == (binary_op_of(*self) is Some),
    {
        match self {
            TokenType::Plus
            | TokenType::Dash
            | TokenType::Star
            | TokenType::Slash
            | TokenType::Percent
            | TokenType::Ampersand
            | TokenType::Pipe
            | TokenType::Caret
            | TokenType::DoubleLess
            | TokenType::DoubleGreater
            | TokenType::DoubleAmpersand
            | TokenType::DoublePipe
            | TokenType::DoubleEqual
            | TokenType::BangEqual
            | TokenType::Less
            | TokenType::LessOrEqual
            | TokenType::Greater
            | TokenType::GreaterOrEqual => true,
            _ => false,
        }
    }

    fn is_unary_op(&self) -> (b: bool)
        ensures
            b == (unary_op_of(*self) is Some),
    {
        match self {
            TokenType::Dash | TokenType::Tilde | TokenType::Bang => true,
            _ => false,
        }
    }

    fn is_assignment_op(&self) -> (b: bool)
        ensures
            b == is_assignment_op(*self),
    {
        match self {
            TokenType::Equal
            | TokenType::PlusEqual
            | TokenType::MinusEqual
            | TokenType::StarEqual
            | TokenType::SlashEqual
            | TokenType::PercentEqual
            | TokenType::AndEqual
            | TokenType::OrEqual
            | TokenType::XorEqual
            | TokenType::LeftShiftEqual
            | TokenType::RightShiftEqual => true,
            _ => false,
        }
    }
}

/// The arithmetic operator of a compound assignment.
fn compound_to_arithmetic(t: &TokenType) -> (op: BinaryOp)
    requires
        compound_op_of(*t) is Some,
    ensures
        Some(op) == compound_op_of(*t),
{
    match t {
        TokenType::PlusEqual => BinaryOp::Add,
        TokenType::MinusEqual => BinaryOp::Subtract,
        TokenType::StarEqual => BinaryOp::Multiply,
        TokenType::SlashEqual => BinaryOp::Divide,
        TokenType::PercentEqual => BinaryOp::Modulus,
        TokenType::AndEqual => BinaryOp::BitwiseAnd,
        TokenType::OrEqual => BinaryOp::BitwiseOr,
        TokenType::XorEqual => BinaryOp::BitwiseXor,
        TokenType::LeftShiftEqual => BinaryOp::LeftShift,
        _ => BinaryOp::RightShift,
    }
}

/// A compound assignment binds as weakly as an assignment.
pub proof fn lemma_compound_binds_as_assignment(t: TokenType)
    requires
        compound_op_of(t) is Some,
    ensures
        precedence_of(t) == Precedence::Assignment,
        is_assignment_op(t),
        t != TokenType::Equal,
        binary_op_of(t) is None,
{
}

/// The state of the parser: the tokens and the position of the next one.
pub struct Parser {
    pub tokens: Vec<Token>,
    pub current: usize,
}

/// Whether a result of the parser is the one that the grammar gives: the
/// same tree, with the parser gone on by `first` and as many tokens as the
/// grammar counts; or the same error.
pub open spec fn reads<T, V>(
    r: Result<T, Error>,
    p: Parsed<V>,
    view: spec_fn(T) -> V,
    from: usize,
    to: usize,
    first: nat,
) -> bool {
    match r {
        Ok(t) => to >= from + first && p == Ok::<(V, nat), ErrorView>(
            (view(t), (to - from - first) as nat),
        ),
        Err(x) => p == Err::<(V, nat), ErrorView>(x@),
    }
}

/// The tokens end with the end-of-file token.
pub open spec fn closed_by_eof(ts: Seq<TokenView>) -> bool {
    ts.len() > 0 && ts.last().token_type == TokenType::EOF
}

/// Parses a token sequence into a translation unit, or gives the error of
/// the first token that does not fit the grammar.
pub fn parse(tokens: Vec<Token>) -> (r: Result<AST, Error>)
    requires
        closed_by_eof(seq_view(tokens@)),
    ensures
        match r {
            Ok(ast) => parse_tokens(seq_view(tokens@)) == Ok::<ProgramView, ErrorView>(ast@),
            Err(e) => parse_tokens(seq_view(tokens@)) == Err::<ProgramView, ErrorView>(e@),
        },
{
    let mut parser = Parser::new(tokens);
    parser.parse()
}

impl Parser {
    /// The model of the tokens.
    pub open spec fn ts(&self) -> Seq<TokenView> {
        seq_view(self.tokens@)
    }

    /// The tokens end with end-of-file, and the position lies within them.
    pub open spec fn wf(&self) -> bool {
        &&& closed_by_eof(self.ts())
        &&& self.current < self.tokens.len()
    }

    /// A parser at the start of `tokens`.
    pub fn new(tokens: Vec<Token>) -> (p: Self)
        ensures
            p.tokens == tokens,
            p.current == 0,
    {
        Self { tokens, current: 0 }
    }

    /// Parses the tokens from the current position on into a translation
    /// unit.
    pub fn parse(&mut self) -> (r: Result<AST, Error>)
        requires
            old(self).wf(),
        ensures
            final(self).tokens == old(self).tokens,
            match r {
                Ok(ast) => functions_at(old(self).ts(), old(self).current as int, Seq::empty())
                    == Ok::<Seq<FuncDeclView>, ErrorView>(ast@.func_decls),
                Err(e) => functions_at(old(self).ts(), old(self).current as int, Seq::empty())
                    == Err::<Seq<FuncDeclView>, ErrorView>(e@),
            },
    {
        let program = self.program()?;
        Ok(AST { program })
    }

    fn program(&mut self) -> (r: Result<Program, Error>)
        requires
            old(self).wf(),
        ensures
            final(self).tokens == old(self).tokens,
            match r {
                Ok(program) => functions_at(
                    old(self).ts(),
                    old(self).current as int,
                    Seq::empty(),
                ) == Ok::<Seq<FuncDeclView>, ErrorView>(program@.func_decls),
                Err(e) => functions_at(old(self).ts(), old(self).current as int, Seq::empty())
                    == Err::<Seq<FuncDeclView>, ErrorView>(e@),
            },
    {
        reveal(functions_at);
        let mut func_decls: Vec<FuncDecl> = Vec::new();
        let ghost goal = functions_at(self.ts(), self.current as int, Seq::empty());
        proof {
            assert(seq_view(func_decls@) =~= Seq::empty());
        }
        while !self.at_end()
            invariant
                self.wf(),
                self.tokens == old(self).tokens,
                goal == functions_at(old(self).ts(), old(self).current as int, Seq::empty()),
                functions_at(self.ts(), self.current as int, seq_view(func_decls@)) == goal,
            decreases self.tokens.len() - self.current,
        {
            reveal(functions_at);
            self.consume(TokenType::Int)?;
            let name = self.identifier()?;
            let line_number = self.peek().line_number;
            push_view(&mut func_decls, self.function_decl(name, line_number)?);
        }
        Ok(Program { func_decls })
    }

    fn function_decl(&mut self, name: String, line_number: usize) -> (r: Result<FuncDecl, Error>)
        requires
            old(self).wf(),
        ensures
            final(self).tokens == old(self).tokens,
            final(self).wf(),
            reads(
                r,
                function_decl_at(old(self).ts(), old(self).current as int, name@, line_number),
                |d: FuncDecl| d@,
                old(self).current,
                final(self).current,
                1,
            ),
        decreases old(self).tokens.len() - old(self).current, 7nat,
    {
        reveal(body_at);
        reveal(function_decl_at);
        reveal(declaration_at);
        reveal(statement_at);
        reveal(block_item_at);
        reveal(items_at);
        self.consume(TokenType::OpenParen)?;
        let params = self.params()?;
        self.consume(TokenType::CloseParen)?;
        let block = if !self.match_token(TokenType::OpenBrace) {
            self.consume(TokenType::Semicolon)?;
            None
        } else {
            let block = self.block()?;
            self.consume(TokenType::CloseBrace)?;
            Some(block)
        };
        Ok(FuncDecl { name, params, body: block, line_number })
    }

    fn variable_decl(&mut self, name: String, line_number: usize) -> (r: Result<VarDecl, Error>)
        requires
            old(self).wf(),
        ensures
            final(self).tokens == old(self).tokens,
            final(self).wf(),
            reads(
                r,
                variable_decl_at(old(self).ts(), old(self).current as int, name@, line_number),
                |d: VarDecl| d@,
                old(self).current,
                final(self).current,
                1,
            ),
    {
        reveal(variable_decl_at);
        let init = if !self.match_token(TokenType::Equal) {
            None
        } else {
            Some(self.expression(Precedence::Lowest)?)
        };
        self.consume(TokenType::Semicolon)?;
        Ok(VarDecl { name, init, line: line_number })
    }

    fn param(&mut self) -> (r: Result<String, Error>)
        requires
            old(self).wf(),
        ensures
            final(self).tokens == old(self).tokens,
            final(self).wf(),
            match r {
                Ok(s) => param_at(old(self).ts(), old(self).current as int) == Ok::<
                    Seq<char>,
                    ErrorView,
                >(s@) && final(self).current == old(self).current + 2,
                Err(e) => param_at(old(self).ts(), old(self).current as int) == Err::<
                    Seq<char>,
                    ErrorView,
                >(e@),
            },
    {
        reveal(param_at);
        self.consume(TokenType::Int)?;
        self.identifier()
    }

    fn params(&mut self) -> (r: Result<Vec<String>, Error>)
        requires
            old(self).wf(),
        ensures
            final(self).tokens == old(self).tokens,
            final(self).wf(),
            reads(
                r,
                params_at(old(self).ts(), old(self).current as int),
                |v: Vec<String>| seq_view(v@),
                old(self).current,
                final(self).current,
                1,
            ),
    {
        reveal(params_at);
        let mut params: Vec<String> = Vec::new();
        if !self.match_token(TokenType::Void) {
            push_view(&mut params, self.param()?);
            proof {
                assert(seq_view(params@) =~= seq![seq_view(params@)[0]]);
            }
            loop
                invariant
                    self.wf(),
                    self.tokens == old(self).tokens,
                    old(self).current < self.current,
                    more_params_at(
                        self.ts(),
                        self.current as int,
                        seq_view(params@),
                        (self.current - old(self).current - 1) as nat,
                    ) == params_at(old(self).ts(), old(self).current as int),
                ensures
                    self.wf(),
                    self.tokens == old(self).tokens,
                    old(self).current < self.current,
                    params_at(old(self).ts(), old(self).current as int) == Ok::<
                        (Seq<Seq<char>>, nat),
                        ErrorView,
                    >((seq_view(params@), (self.current - old(self).current - 1) as nat)),
                decreases self.tokens.len() - self.current,
            {
                reveal(more_params_at);
                if !self.match_token(TokenType::Comma) {
                    break;
                }
                push_view(&mut params, self.param()?);
            }
        } else {
            proof {
                assert(seq_view(params@) =~= Seq::empty());
            }
        }
        Ok(params)
    }

    fn block(&mut self) -> (r: Result<Block, Error>)
        requires
            old(self).wf(),
        ensures
            final(self).tokens == old(self).tokens,
            final(self).wf(),
            reads(
                r,
                items_at(old(self).ts(), old(self).current as int, Seq::empty(), 0),
                |b: Block| b@.items,
                old(self).current,
                final(self).current,
                0,
            ),
        decreases old(self).tokens.len() - old(self).current, 10nat,
    {
        reveal(body_at);
        reveal(function_decl_at);
        reveal(declaration_at);
        reveal(statement_at);
        reveal(block_item_at);
        reveal(items_at);
        let mut items: Vec<BlockItem> = Vec::new();
        proof {
            assert(seq_view(items@) =~= Seq::empty());
        }
        while !self.at_end() && self.peek().token_type != TokenType::CloseBrace
            invariant
                self.wf(),
                self.tokens == old(self).tokens,
                old(self).current <= self.current,
                items_at(
                    self.ts(),
                    self.current as int,
                    seq_view(items@),
                    (self.current - old(self).current) as nat,
                ) == items_at(old(self).ts(), old(self).current as int, Seq::empty(), 0),
            decreases self.tokens.len() - self.current,
        {
            reveal(body_at);
            reveal(function_decl_at);
            reveal(declaration_at);
            reveal(statement_at);
            reveal(block_item_at);
            reveal(items_at);
            let block_item = self.block_item()?;
            push_view(&mut items, block_item);
        }
        let block = Block { items };
        proof {
            block.lemma_items_view();
        }
        Ok(block)
    }

    fn block_item(&mut self) -> (r: Result<BlockItem, Error>)
        requires
            old(self).wf(),
        ensures
            final(self).tokens == old(self).tokens,
            final(self).wf(),
            reads(
                r,
                block_item_at(old(self).ts(), old(self).current as int),
                |i: BlockItem| i@,
                old(self).current,
                final(self).current,
                1,
            ),
        decreases old(self).tokens.len() - old(self).current, 9nat,
    {
        reveal(body_at);
        reveal(function_decl_at);
        reveal(declaration_at);
        reveal(statement_at);
        reveal(block_item_at);
        reveal(items_at);
        match self.peek().token_type {
            TokenType::Int => {
                Ok(BlockItem::Decl(self.declaration()?))
            },
            _ => {
                Ok(BlockItem::Stmt(self.statement()?))
            },
        }
    }

    fn declaration(&mut self) -> (r: Result<Decl, Error>)
        requires
            old(self).wf(),
        ensures
            final(self).tokens == old(self).tokens,
            final(self).wf(),
            reads(
                r,
                declaration_at(old(self).ts(), old(self).current as int),
                |d: Decl| d@,
                old(self).current,
                final(self).current,
                1,
            ),
        decreases old(self).tokens.len() - old(self).current, 8nat,
    {
        reveal(body_at);
        reveal(function_decl_at);
        reveal(declaration_at);
        reveal(statement_at);
        reveal(block_item_at);
        reveal(items_at);
        self.consume(TokenType::Int)?;
        let name = self.identifier()?;
        let line_number = self.peek().line_number;
        if self.peek().token_type == TokenType::OpenParen {
            Ok(Decl::FuncDecl(self.function_decl(name, line_number)?))
        } else {
            Ok(Decl::VarDecl(self.variable_decl(name, line_number)?))
        }
    }

    fn identifier(&mut self) -> (r: Result<String, Error>)
        requires
            old(self).wf(),
        ensures
            final(self).tokens == old(self).tokens,
            final(self).wf(),
            match r {
                Ok(s) => identifier_at(old(self).ts(), old(self).current as int) == Ok::<
                    Seq<char>,
                    ErrorView,
                >(s@) && final(self).current == old(self).current + 1,
                Err(e) => identifier_at(old(self).ts(), old(self).current as int) == Err::<
                    Seq<char>,
                    ErrorView,
                >(e@),
            },
    {
        reveal(expected_identifier);
        match self.peek().token_type {
            TokenType::Identifier => {
                self.advance();
                Ok(clone_string(&self.previous().lexeme))
            },
            _ => {
                let t = self.peek();
                let mut msg = String::from_str("Expected an identifier, found '");
                msg.append(t.lexeme.as_str());
                msg.append("'");
                Err(error(t.line_number, msg, ErrorType::SyntaxError))
            },
        }
    }

    /// An expression in parentheses.
    fn condition(&mut self) -> (r: Result<Expr, Error>)
        requires
            old(self).wf(),
        ensures
            final(self).tokens == old(self).tokens,
            final(self).wf(),
            reads(
                r,
                condition_at(old(self).ts(), old(self).current as int),
                |e: Expr| e@,
                old(self).current,
                final(self).current,
                1,
            ),
        decreases old(self).tokens.len() - old(self).current, 2nat,
    {
        reveal(condition_at);
        self.consume(TokenType::OpenParen)?;
        let expr = self.expression(Precedence::Lowest)?;
        self.consume(TokenType::CloseParen)?;
        Ok(expr)
    }

    #[verifier::rlimit(60)]
    fn statement(&mut self) -> (r: Result<Stmt, Error>)
        requires
            old(self).wf(),
        ensures
            final(self).tokens == old(self).tokens,
            final(self).wf(),
            reads(
                r,
                statement_at(old(self).ts(), old(self).current as int),
                |s: Stmt| s@,
                old(self).current,
                final(self).current,
                1,
            ),
        decreases old(self).tokens.len() - old(self).current, 3nat,
    {
        reveal(body_at);
        reveal(function_decl_at);
        reveal(declaration_at);
        reveal(statement_at);
        reveal(block_item_at);
        reveal(items_at);
        match self.peek().token_type {
            TokenType::Return => {
                self.advance();
                let expr = self.expression(Precedence::Lowest)?;
                self.consume(TokenType::Semicolon)?;
                Ok(Stmt::Return(expr))
            },
            TokenType::Semicolon => {
                self.advance();
                Ok(Stmt::Null)
            },
            TokenType::If => {
                self.advance();
                let expr = self.condition()?;
                let then_stmt = self.statement()?;
                let else_stmt = if self.peek().token_type == TokenType::Else {
                    self.advance();
                    Some(Box::new(self.statement()?))
                } else {
                    None
                };
                Ok(Stmt::If(expr, Box::new(then_stmt), else_stmt))
            },
            TokenType::OpenBrace => {
                self.advance();
                let block = self.block()?;
                self.consume(TokenType::CloseBrace)?;
                Ok(Stmt::Compound(block))
            },
            TokenType::Break => {
                self.advance();
                self.consume(TokenType::Semicolon)?;
                Ok(Stmt::Break(String::new(), self.previous().line_number))
            },
            TokenType::Continue => {
                self.advance();
                self.consume(TokenType::Semicolon)?;
                Ok(Stmt::Continue(String::new(), self.previous().line_number))
            },
            TokenType::While => {
                self.advance();
                let condition = self.condition()?;
                let body = self.statement()?;
                Ok(Stmt::While(condition, Box::new(body), String::new()))
            },
            TokenType::Do => {
                self.advance();
                let body = self.statement()?;
                self.consume(TokenType::While)?;
                let condition = self.condition()?;
                self.consume(TokenType::Semicolon)?;
                Ok(Stmt::DoWhile(Box::new(body), condition, String::new()))
            },
            TokenType::For => {
                self.advance();
                let (for_init, condition, post) = self.for_header()?;
                let body = self.statement()?;
                Ok(Stmt::For(for_init, condition, post, Box::new(body), String::new()))
            },
            _ => {
                let expr = self.expression(Precedence::Lowest)?;
                self.consume(TokenType::Semicolon)?;
                Ok(Stmt::Expression(expr))
            },
        }
    }

    /// The header of a `for` loop, from its opening parenthesis to its
    /// closing one.
    fn for_header(&mut self) -> (r: Result<(Option<ForInit>, Option<Expr>, Option<Expr>), Error>)
        requires
            old(self).wf(),
        ensures
            final(self).tokens == old(self).tokens,
            final(self).wf(),
            reads(
                r,
                for_header_at(old(self).ts(), old(self).current as int),
                |h: (Option<ForInit>, Option<Expr>, Option<Expr>)|
                    (opt_init_view(h.0), opt_expr_view(h.1), opt_expr_view(h.2)),
                old(self).current,
                final(self).current,
                1,
            ),
    {
        reveal(for_header_at);
        self.consume(TokenType::OpenParen)?;
        let for_init = self.for_init()?;
        let condition = self.optional_expression(TokenType::Semicolon, Precedence::Lowest)?;
        self.consume(TokenType::Semicolon)?;
        let post = self.optional_expression(TokenType::CloseParen, Precedence::Lowest)?;
        self.consume(TokenType::CloseParen)?;
        Ok((for_init, condition, post))
    }

    fn for_init(&mut self) -> (r: Result<Option<ForInit>, Error>)
        requires
            old(self).wf(),
        ensures
            final(self).tokens == old(self).tokens,
            final(self).wf(),
            reads(
                r,
                for_init_at(old(self).ts(), old(self).current as int),
                |i: Option<ForInit>| opt_init_view(i),
                old(self).current,
                final(self).current,
                1,
            ),
    {
        reveal(for_init_at);
        if !self.match_token(TokenType::Semicolon) {
            if self.match_token(TokenType::Int) {
                let name = self.identifier()?;
                let line_number = self.peek().line_number;
                Ok(Some(ForInit::Decl(self.variable_decl(name, line_number)?)))
            } else {
                let init = Some(ForInit::Expr(self.expression(Precedence::Lowest)?));
                self.consume(TokenType::Semicolon)?;
                Ok(init)
            }
        } else {
            Ok(None)
        }
    }

    fn optional_expression(&mut self, delimiter: TokenType, min_prec: Precedence) -> (r: Result<
        Option<Expr>,
        Error,
    >)
        requires
            old(self).wf(),
            min_prec == Precedence::Lowest,
        ensures
            final(self).tokens == old(self).tokens,
            final(self).wf(),
            reads(
                r,
                optional_expression_at(old(self).ts(), old(self).current as int, delimiter),
                |e: Option<Expr>| opt_expr_view(e),
                old(self).current,
                final(self).current,
                0,
            ),
    {
        reveal(optional_expression_at);
        if self.peek().token_type == delimiter {
            Ok(None)
        } else {
            Ok(Some(self.expression(min_prec)?))
        }
    }

    #[verifier::rlimit(100)]
    fn expression(&mut self, min_prec: Precedence) -> (r: Result<Expr, Error>)
        requires
            old(self).wf(),
        ensures
            final(self).tokens == old(self).tokens,
            final(self).wf(),
            reads(
                r,
                expression_at(old(self).ts(), old(self).current as int, min_prec),
                |e: Expr| e@,
                old(self).current,
                final(self).current,
                1,
            ),
        decreases old(self).tokens.len() - old(self).current, 1nat,
    {
        reveal(factor_at);
        reveal(args_at);
        reveal(more_args_at);
        reveal(expression_at);
        reveal(operators_at);
        let mut left: Expr = self.factor()?;
        loop
            invariant
                self.wf(),
                self.tokens == old(self).tokens,
                old(self).current < self.current,
                operators_at(
                    self.ts(),
                    self.current as int,
                    left@,
                    min_prec,
                    (self.current - old(self).current - 1) as nat,
                ) == expression_at(old(self).ts(), old(self).current as int, min_prec),
            ensures
                self.wf(),
                self.tokens == old(self).tokens,
                old(self).current < self.current,
                expression_at(old(self).ts(), old(self).current as int, min_prec) == Ok::<
                    (ExprView, nat),
                    ErrorView,
                >((left@, (self.current - old(self).current - 1) as nat)),
            decreases self.tokens.len() - self.current,
        {
            reveal(factor_at);
            reveal(args_at);
            reveal(more_args_at);
            reveal(expression_at);
            reveal(operators_at);
            if self.peek().token_type.precedence().rank() < min_prec.rank() {
                break;
            }
            if self.match_binary_op() {
                let next_prec = self.previous().token_type.precedence().increment();
                let binary_op = self.previous().token_type.to_binary_op();
                let right = self.expression(next_prec)?;
                left = Expr::BinaryOp(binary_op, Box::new(left), Box::new(right));
            } else if self.match_assignment_op() {
                match self.previous().token_type {
                    TokenType::Equal => {
                        let prec = self.previous().token_type.precedence();
                        let line_number = self.previous().line_number;
                        let right = self.expression(prec)?;
                        left = Expr::Assignment(Box::new(left), Box::new(right), line_number);
                    },
                    t => {
                        let op = compound_to_arithmetic(&t);
                        proof {
                            lemma_compound_binds_as_assignment(t);
                        }
                        left = self.compound_assignment(op, left)?;
                    },
                }
            } else if self.match_token(TokenType::Question) {
                let prec = self.previous().token_type.precedence();
                let middle = self.expression(Precedence::Lowest)?;
                self.consume(TokenType::Colon)?;
                let right = self.expression(prec)?;
                left = Expr::Conditional(Box::new(left), Box::new(middle), Box::new(right));
            } else {
                break;
            }
        }
        Ok(left)
    }

    fn compound_assignment(&mut self, op: BinaryOp, left: Expr) -> (r: Result<Expr, Error>)
        requires
            old(self).wf(),
            old(self).current > 0,
            compound_op_of(kind_at(old(self).ts(), old(self).current - 1)) == Some(op),
        ensures
            final(self).tokens == old(self).tokens,
            final(self).wf(),
            match r {
                Ok(e) => {
                    let right = expression_at(
                        old(self).ts(),
                        old(self).current as int,
                        Precedence::Assignment,
                    );
                    &&& right is Ok
                    &&& final(self).current == old(self).current + 1 + right->Ok_0.1
                    &&& e@ == ExprView::Assignment(
                        Box::new(left@),
                        Box::new(
                            ExprView::BinaryOp(op, Box::new(left@), Box::new(right->Ok_0.0)),
                        ),
                        line_at(old(self).ts(), old(self).current - 1),
                    )
                },
                Err(x) => expression_at(
                    old(self).ts(),
                    old(self).current as int,
                    Precedence::Assignment,
                ) == Err::<(ExprView, nat), ErrorView>(x@),
            },
        decreases old(self).tokens.len() - old(self).current, 2nat,
    {
        let line_number = self.previous().line_number;
        let prec = self.previous().token_type.precedence();
        proof {
            lemma_compound_binds_as_assignment(kind_at(self.ts(), self.current - 1));
        }
        let operand = self.expression(prec)?;
        let ghost target = left@;
        let ghost value = operand@;
        let right = Expr::BinaryOp(op, Box::new(clone_expr(&left)), Box::new(operand));
        proof {
            assert(right@ == ExprView::BinaryOp(op, Box::new(target), Box::new(value)));
        }
        Ok(Expr::Assignment(Box::new(left), Box::new(right), line_number))
    }

    fn unary(&mut self) -> (r: Result<Expr, Error>)
        requires
            old(self).wf(),
            old(self).current > 0,
            unary_op_of(kind_at(old(self).ts(), old(self).current - 1)) is Some,
        ensures
            final(self).tokens == old(self).tokens,
            final(self).wf(),
            match r {
                Ok(e) => {
                    let inner = factor_at(old(self).ts(), old(self).current as int);
                    &&& inner is Ok
                    &&& final(self).current == old(self).current + 1 + inner->Ok_0.1
                    &&& e@ == ExprView::UnaryOp(
                        unary_op_of(kind_at(old(self).ts(), old(self).current - 1))->0,
                        Box::new(inner->Ok_0.0),
                    )
                },
                Err(x) => factor_at(old(self).ts(), old(self).current as int) == Err::<
                    (ExprView, nat),
                    ErrorView,
                >(x@),
            },
        decreases old(self).tokens.len() - old(self).current, 1nat,
    {
        let unary_op = self.previous().token_type.to_unary_op();
        let expr = self.factor()?;
        Ok(Expr::UnaryOp(unary_op, Box::new(expr)))
    }

    fn arg(&mut self) -> (r: Result<Expr, Error>)
        requires
            old(self).wf(),
        ensures
            final(self).tokens == old(self).tokens,
            final(self).wf(),
            reads(
                r,
                expression_at(old(self).ts(), old(self).current as int, Precedence::Lowest),
                |e: Expr| e@,
                old(self).current,
                final(self).current,
                1,
            ),
        decreases old(self).tokens.len() - old(self).current, 2nat,
    {
        self.expression(Precedence::Lowest)
    }

    fn args(&mut self) -> (r: Result<Vec<Expr>, Error>)
        requires
            old(self).wf(),
        ensures
            final(self).tokens == old(self).tokens,
            final(self).wf(),
            reads(
                r,
                args_at(old(self).ts(), old(self).current as int, Seq::empty(), 0),
                |v: Vec<Expr>| seq_view(v@),
                old(self).current,
                final(self).current,
                0,
            ),
        decreases old(self).tokens.len() - old(self).current, 3nat,
    {
        reveal(factor_at);
        reveal(args_at);
        reveal(more_args_at);
        reveal(expression_at);
        reveal(operators_at);
        let mut args: Vec<Expr> = Vec::new();
        proof {
            assert(seq_view(args@) =~= Seq::empty());
        }
        while self.peek().token_type != TokenType::CloseParen
            invariant
                self.wf(),
                self.tokens == old(self).tokens,
                old(self).current <= self.current,
                args_at(
                    self.ts(),
                    self.current as int,
                    seq_view(args@),
                    (self.current - old(self).current) as nat,
                ) == args_at(old(self).ts(), old(self).current as int, Seq::empty(), 0),
            decreases self.tokens.len() - self.current,
        {
            reveal(factor_at);
            reveal(args_at);
            reveal(more_args_at);
            reveal(expression_at);
            reveal(operators_at);
            let ghost begin = self.current;
            push_view(&mut args, self.arg()?);
            loop
                invariant
                    self.wf(),
                    self.tokens == old(self).tokens,
                    old(self).current <= begin < self.current,
                    more_args_at(
                        self.ts(),
                        self.current as int,
                        seq_view(args@),
                        (self.current - old(self).current) as nat,
                    ) == args_at(old(self).ts(), old(self).current as int, Seq::empty(), 0),
                ensures
                    self.wf(),
                    self.tokens == old(self).tokens,
                    old(self).current <= begin < self.current,
                    args_at(
                        self.ts(),
                        self.current as int,
                        seq_view(args@),
                        (self.current - old(self).current) as nat,
                    ) == args_at(old(self).ts(), old(self).current as int, Seq::empty(), 0),
                decreases self.tokens.len() - self.current,
            {
                reveal(factor_at);
                reveal(args_at);
                reveal(more_args_at);
                reveal(expression_at);
                reveal(operators_at);
                if !self.match_token(TokenType::Comma) {
                    break;
                }
                push_view(&mut args, self.arg()?);
            }
        }
        proof {
        }
        Ok(args)
    }

    fn factor(&mut self) -> (r: Result<Expr, Error>)
        requires
            old(self).wf(),
        ensures
            final(self).tokens == old(self).tokens,
            final(self).wf(),
            reads(
                r,
                factor_at(old(self).ts(), old(self).current as int),
                |e: Expr| e@,
                old(self).current,
                final(self).current,
                1,
            ),
        decreases old(self).tokens.len() - old(self).current, 0nat,
    {
        reveal(factor_at);
        reveal(args_at);
        reveal(more_args_at);
        reveal(expression_at);
        reveal(operators_at);
        reveal(expected_expression);
        if self.match_unary_op() {
            return self.unary();
        } else {
            match self.peek().token_type {
                TokenType::Integer(i) => {
                    self.advance();
                    Ok(Expr::Integer(i))
                },
                TokenType::OpenParen => {
                    self.advance();
                    let expr = self.expression(Precedence::Lowest)?;
                    self.consume(TokenType::CloseParen)?;
                    Ok(expr)
                },
                TokenType::Identifier => {
                    let line_number = self.peek().line_number;
                    let name = self.identifier()?;
                    if self.match_token(TokenType::OpenParen) {
                        let args = self.args()?;
                        self.consume(TokenType::CloseParen)?;
                        let call = Expr::FunctionCall(name, args, line_number);
                        proof {
                            call.lemma_call_view();
                        }
                        Ok(call)
                    } else {
                        Ok(Expr::Var(name, line_number))
                    }
                },
                _ => {
                    let t = self.peek();
                    let mut msg = String::from_str("Expected an expression, found '");
                    msg.append(t.lexeme.as_str());
                    msg.append("'");
                    Err(error(t.line_number, msg, ErrorType::SyntaxError))
                },
            }
        }
    }

    /// Takes the next token if it is of the given kind, and fails otherwise.
    fn consume(&mut self, token_type: TokenType) -> (r: Result<(), Error>)
        requires
            old(self).wf(),
        ensures
            final(self).tokens == old(self).tokens,
            final(self).wf(),
            holds(old(self).ts(), old(self).current as int, token_type) ==> r is Ok && final(self).current == old(self).current + 1,
            !holds(old(self).ts(), old(self).current as int, token_type) ==> (r matches Err(e)
                && e@ == expected(old(self).ts(), old(self).current as int, token_type)),
    {
        reveal(expected);
        if self.check(&token_type) {
            self.advance();
            return Ok(());
        }
        let mut msg = String::from_str("Expected '");
        let wanted = token_type.to_text();
        msg.append(wanted.as_str());
        msg.append("', found '");
        let found = self.peek().token_type.to_text();
        msg.append(found.as_str());
        msg.append("'");
        Err(error(self.peek().line_number, msg, ErrorType::SyntaxError))
    }

    /// Takes the next token if it is of the given kind.
    fn match_token(&mut self, token_type: TokenType) -> (b: bool)
        requires
            old(self).wf(),
        ensures
            final(self).tokens == old(self).tokens,
            final(self).wf(),
            b == holds(old(self).ts(), old(self).current as int, token_type),
            final(self).current == old(self).current + (if b {
                1int
            } else {
                0int
            }),
    {
        if self.check(&token_type) {
            self.advance();
            return true;
        }
        false
    }

    /// The token before the current one.
    fn previous(&self) -> (t: &Token)
        requires
            0 < self.current <= self.tokens.len(),
        ensures
            t@ == self.ts()[self.current - 1],
    {
        &self.tokens[self.current - 1]
    }

    /// Whether the next token is of the given kind.
    fn check(&self, token_type: &TokenType) -> (b: bool)
        requires
            self.wf(),
        ensures
            b == holds(self.ts(), self.current as int, *token_type),
    {
        if self.at_end() {
            return false;
        }
        self.peek().token_type == *token_type
    }

    /// Goes on to the next token.
    fn advance(&mut self)
        requires
            old(self).wf(),
            kind_at(old(self).ts(), old(self).current as int) != TokenType::EOF,
        ensures
            final(self).tokens == old(self).tokens,
            final(self).wf(),
            final(self).current == old(self).current + 1,
    {
        self.current += 1;
    }

    /// The next token.
    fn peek(&self) -> (t: &Token)
        requires
            self.current < self.tokens.len(),
        ensures
            t@ == self.ts()[self.current as int],
            t.token_type == kind_at(self.ts(), self.current as int),
            t.line_number == line_at(self.ts(), self.current as int),
            t.lexeme@ == lexeme_at(self.ts(), self.current as int),
    {
        &self.tokens[self.current]
    }

    /// Whether the next token is the end of the file.
    fn at_end(&self) -> (b: bool)
        requires
            self.current < self.tokens.len(),
        ensures
            b == (kind_at(self.ts(), self.current as int) == TokenType::EOF),
    {
        self.peek().token_type == TokenType::EOF
    }

    /// Takes the next token if it is a binary operator.
    fn match_binary_op(&mut self) -> (b: bool)
        requires
            old(self).wf(),
        ensures
            final(self).tokens == old(self).tokens,
            final(self).wf(),
            b == (binary_op_of(kind_at(old(self).ts(), old(self).current as int)) is Some),
            final(self).current == old(self).current + (if b {
                1int
            } else {
                0int
            }),
    {
        if self.at_end() {
            return false;
        }
        if self.peek().token_type.is_binary_op() {
            self.advance();
            return true;
        }
        false
    }

    /// Takes the next token if it is a unary operator.
    fn match_unary_op(&mut self) -> (b: bool)
        requires
            old(self).wf(),
        ensures
            final(self).tokens == old(self).tokens,
            final(self).wf(),
            b == (unary_op_of(kind_at(old(self).ts(), old(self).current as int)) is Some),
            final(self).current == old(self).current + (if b {
                1int
            } else {
                0int
            }),
    {
        if self.at_end() {
            return false;
        }
        if self.peek().token_type.is_unary_op() {
            self.advance();
            return true;
        }
        false
    }

    /// Takes the next token if it is an assignment operator.
    fn match_assignment_op(&mut self) -> (b: bool)
        requires
            old(self).wf(),
        ensures
            final(self).tokens == old(self).tokens,
            final(self).wf(),
            b == is_assignment_op(kind_at(old(self).ts(), old(self).current as int)),
            final(self).current == old(self).current + (if b {
                1int
            } else {
                0int
            }),
    {
        if self.at_end() {
            return false;
        }
        if self.peek().token_type.is_assignment_op() {
            self.advance();
            return true;
        }
        false
    }
}

} // verus!
