//! The grammar, as functions from a position in the token sequence to the
//! tree that is read there. A function that always reads at least one token
//! gives, beside the tree, the number of tokens it reads after the first; a
//! function that may read nothing gives the number of tokens it reads.

use vstd::prelude::*;
use crate::error::{ErrorView, syntax_error};
use crate::lexer::token::{TokenType, TokenView, token_text};
use crate::parser::ast::{
    ExprView, StmtView, BlockView, BlockItemView, DeclView, VarDeclView, ForInitView,
    FuncDeclView, ProgramView, UnaryOp, BinaryOp,
};

verus! {

/// The levels of binding strength, from the weakest to the strongest.
#[derive(Debug, Clone, Copy, PartialEq, Eq, Structural)]
pub enum Precedence {
    Lowest,
    Assignment,
    Ternary,
    LogicalOr,
    LogicalAnd,
    BitwiseOr,
    BitwiseXor,
    BitwiseAnd,
    Equality,
    Comparison,
    Shift,
    Term,
    Factor,
    Max,
}

/// The place of a level in the order of binding strength.
pub open spec fn level(p: Precedence) -> nat {
    match p {
        Precedence::Lowest => 0,
        Precedence::Assignment => 1,
        Precedence::Ternary => 2,
        Precedence::LogicalOr => 3,
        Precedence::LogicalAnd => 4,
        Precedence::BitwiseOr => 5,
        Precedence::BitwiseXor => 6,
        Precedence::BitwiseAnd => 7,
        Precedence::Equality => 8,
        Precedence::Comparison => 9,
        Precedence::Shift => 10,
        Precedence::Term => 11,
        Precedence::Factor => 12,
        Precedence::Max => 13,
    }
}

/// The next stronger level; the strongest level stays.
pub open spec fn stronger(p: Precedence) -> Precedence {
    match p {
        Precedence::Lowest => Precedence::Assignment,
        Precedence::Assignment => Precedence::Ternary,
        Precedence::Ternary => Precedence::LogicalOr,
        Precedence::LogicalOr => Precedence::LogicalAnd,
        Precedence::LogicalAnd => Precedence::BitwiseOr,
        Precedence::BitwiseOr => Precedence::BitwiseXor,
        Precedence::BitwiseXor => Precedence::BitwiseAnd,
        Precedence::BitwiseAnd => Precedence::Equality,
        Precedence::Equality => Precedence::Comparison,
        Precedence::Comparison => Precedence::Shift,
        Precedence::Shift => Precedence::Term,
        Precedence::Term => Precedence::Factor,
        Precedence::Factor => Precedence::Max,
        Precedence::Max => Precedence::Max,
    }
}

/// The level at which a token binds as an operator between two operands.
pub open spec fn precedence_of(t: TokenType) -> Precedence {
    match t {
        TokenType::Star => Precedence::Factor,
        TokenType::Slash => Precedence::Factor,
        TokenType::Percent => Precedence::Factor,
        TokenType::Plus => Precedence::Term,
        TokenType::Dash => Precedence::Term,
        TokenType::DoubleLess => Precedence::Shift,
        TokenType::DoubleGreater => Precedence::Shift,
        TokenType::Pipe => Precedence::BitwiseOr,
        TokenType::Caret => Precedence::BitwiseXor,
        TokenType::Ampersand => Precedence::BitwiseAnd,
        TokenType::DoubleAmpersand => Precedence::LogicalAnd,
        TokenType::DoublePipe => Precedence::LogicalOr,
        TokenType::Less => Precedence::Comparison,
        TokenType::LessOrEqual => Precedence::Comparison,
        TokenType::Greater => Precedence::Comparison,
        TokenType::GreaterOrEqual => Precedence::Comparison,
        TokenType::DoubleEqual => Precedence::Equality,
        TokenType::BangEqual => Precedence::Equality,
        TokenType::Equal => Precedence::Assignment,
        TokenType::PlusEqual => Precedence::Assignment,
        TokenType::MinusEqual => Precedence::Assignment,
        TokenType::StarEqual => Precedence::Assignment,
        TokenType::SlashEqual => Precedence::Assignment,
        TokenType::PercentEqual => Precedence::Assignment,
        TokenType::AndEqual => Precedence::Assignment,
        TokenType::OrEqual => Precedence::Assignment,
        TokenType::XorEqual => Precedence::Assignment,
        TokenType::LeftShiftEqual => Precedence::Assignment,
        TokenType::RightShiftEqual => Precedence::Assignment,
        TokenType::Question => Precedence::Ternary,
        _ => Precedence::Lowest,
    }
}

/// The binary operator that a token stands for, if it stands for one.
pub open spec fn binary_op_of(t: TokenType) -> Option<BinaryOp> {
    match t {
        TokenType::Plus => Some(BinaryOp::Add),
        TokenType::Dash => Some(BinaryOp::Subtract),
        TokenType::Star => Some(BinaryOp::Multiply),
        TokenType::Slash => Some(BinaryOp::Divide),
        TokenType::Percent => Some(BinaryOp::Modulus),
        TokenType::Ampersand => Some(BinaryOp::BitwiseAnd),
        TokenType::Pipe => Some(BinaryOp::BitwiseOr),
        TokenType::Caret => Some(BinaryOp::BitwiseXor),
        TokenType::DoubleLess => Some(BinaryOp::LeftShift),
        TokenType::DoubleGreater => Some(BinaryOp::RightShift),
        TokenType::DoubleAmpersand => Some(BinaryOp::LogicalAnd),
        TokenType::DoublePipe => Some(BinaryOp::LogicalOr),
        TokenType::DoubleEqual => Some(BinaryOp::Equal),
        TokenType::BangEqual => Some(BinaryOp::NotEqual),
        TokenType::Less => Some(BinaryOp::LessThan),
        TokenType::LessOrEqual => Some(BinaryOp::LessOrEqual),
        TokenType::Greater => Some(BinaryOp::GreaterThan),
        TokenType::GreaterOrEqual => Some(BinaryOp::GreaterOrEqual),
        _ => None,
    }
}

/// The unary operator that a token stands for, if it stands for one.
pub open spec fn unary_op_of(t: TokenType) -> Option<UnaryOp> {
    match t {
        TokenType::Dash => Some(UnaryOp::Negate),
        TokenType::Tilde => Some(UnaryOp::Complement),
        TokenType::Bang => Some(UnaryOp::Not),
        _ => None,
    }
}

/// The arithmetic operator of a compound assignment, if the token is one.
pub open spec fn compound_op_of(t: TokenType) -> Option<BinaryOp> {
    match t {
        TokenType::PlusEqual => Some(BinaryOp::Add),
        TokenType::MinusEqual => Some(BinaryOp::Subtract),
        TokenType::StarEqual => Some(BinaryOp::Multiply),
        TokenType::SlashEqual => Some(BinaryOp::Divide),
        TokenType::PercentEqual => Some(BinaryOp::Modulus),
        TokenType::AndEqual => Some(BinaryOp::BitwiseAnd),
        TokenType::OrEqual => Some(BinaryOp::BitwiseOr),
        TokenType::XorEqual => Some(BinaryOp::BitwiseXor),
        TokenType::LeftShiftEqual => Some(BinaryOp::LeftShift),
        TokenType::RightShiftEqual => Some(BinaryOp::RightShift),
        _ => None,
    }
}

/// Whether the token is `=` or a compound assignment.
pub open spec fn is_assignment_op(t: TokenType) -> bool {
    t == TokenType::Equal || compound_op_of(t) is Some
}

/// A tree with the number of tokens that were read for it.
pub type Parsed<T> = Result<(T, nat), ErrorView>;

/// The kind of the token at `pos`. Past the end there is only end-of-file.
pub open spec fn kind_at(ts: Seq<TokenView>, pos: int) -> TokenType {
    if 0 <= pos < ts.len() {
        ts[pos].token_type
    } else {
        TokenType::EOF
    }
}

/// The line of the token at `pos`.
pub open spec fn line_at(ts: Seq<TokenView>, pos: int) -> usize {
    if 0 <= pos < ts.len() {
        ts[pos].line_number
    } else {
        0
    }
}

/// The text of the token at `pos`.
pub open spec fn lexeme_at(ts: Seq<TokenView>, pos: int) -> Seq<char> {
    if 0 <= pos < ts.len() {
        ts[pos].lexeme
    } else {
        Seq::empty()
    }
}

/// The tokens that are left from `pos` on.
pub open spec fn left(ts: Seq<TokenView>, pos: int) -> nat {
    if pos <= ts.len() {
        (ts.len() - pos) as nat
    } else {
        0
    }
}

/// Whether the token at `pos` is of the kind `t`. End-of-file is never met.
pub open spec fn holds(ts: Seq<TokenView>, pos: int, t: TokenType) -> bool {
    kind_at(ts, pos) != TokenType::EOF && kind_at(ts, pos) == t
}

/// The error for a token of the kind `t` that is missing at `pos`.
#[verifier::opaque]
pub open spec fn expected(ts: Seq<TokenView>, pos: int, t: TokenType) -> ErrorView {
    syntax_error(
        line_at(ts, pos),
        "Expected '"@ + token_text(t) + "', found '"@ + token_text(kind_at(ts, pos)) + "'"@,
    )
}

/// The error for an identifier that is missing at `pos`.
#[verifier::opaque]
pub open spec fn expected_identifier(ts: Seq<TokenView>, pos: int) -> ErrorView {
    syntax_error(
        line_at(ts, pos),
        "Expected an identifier, found '"@ + lexeme_at(ts, pos) + "'"@,
    )
}

/// The error for an expression that is missing at `pos`.
#[verifier::opaque]
pub open spec fn expected_expression(ts: Seq<TokenView>, pos: int) -> ErrorView {
    syntax_error(
        line_at(ts, pos),
        "Expected an expression, found '"@ + lexeme_at(ts, pos) + "'"@,
    )
}

/// An identifier at `pos`: its name.
pub open spec fn identifier_at(ts: Seq<TokenView>, pos: int) -> Result<Seq<char>, ErrorView> {
    if kind_at(ts, pos) == TokenType::Identifier {
        Ok(lexeme_at(ts, pos))
    } else {
        Err(expected_identifier(ts, pos))
    }
}

/// The tree that ends with the token of kind `t` at `pos`.
pub open spec fn closed<T>(ts: Seq<TokenView>, pos: int, t: TokenType, tree: T, more: nat)
    -> Parsed<T> {
    if holds(ts, pos, t) {
        Ok((tree, more))
    } else {
        Err(expected(ts, pos, t))
    }
}

/// A primary expression or a unary operation at `pos`.
#[verifier::opaque]
pub open spec fn factor_at(ts: Seq<TokenView>, pos: int) -> Parsed<ExprView>
    decreases left(ts, pos), 0nat,
{
    let k = kind_at(ts, pos);
    if unary_op_of(k) is Some {
        match factor_at(ts, pos + 1) {
            Ok((e, m)) => Ok((ExprView::UnaryOp(unary_op_of(k)->0, Box::new(e)), 1 + m)),
            Err(e) => Err(e),
        }
    } else {
        match k {
            TokenType::Integer(i) => Ok((ExprView::Integer(i), 0)),
            TokenType::OpenParen => match expression_at(ts, pos + 1, Precedence::Lowest) {
                Ok((e, m)) => closed(ts, pos + 2 + m, TokenType::CloseParen, e, 2 + m),
                Err(e) => Err(e),
            },
            TokenType::Identifier => {
                if holds(ts, pos + 1, TokenType::OpenParen) {
                    match args_at(ts, pos + 2, Seq::empty(), 0) {
                        Ok((args, n)) => closed(
                            ts,
                            pos + 2 + n,
                            TokenType::CloseParen,
                            ExprView::FunctionCall(lexeme_at(ts, pos), args, line_at(ts, pos)),
                            2 + n,
                        ),
                        Err(e) => Err(e),
                    }
                } else {
                    Ok((ExprView::Var(lexeme_at(ts, pos), line_at(ts, pos)), 0))
                }
            },
            _ => Err(expected_expression(ts, pos)),
        }
    }
}

/// The arguments of a call from `pos` up to the closing parenthesis, added
/// to `acc`, where `taken` tokens were read for `acc`. A comma between two
/// arguments may be left out.
#[verifier::opaque]
pub open spec fn args_at(ts: Seq<TokenView>, pos: int, acc: Seq<ExprView>, taken: nat) -> Parsed<
    Seq<ExprView>,
>
    decreases left(ts, pos), 2nat,
{
    if kind_at(ts, pos) == TokenType::CloseParen {
        Ok((acc, taken))
    } else if kind_at(ts, pos) == TokenType::EOF {
        Err(expected_expression(ts, pos))
    } else {
        match expression_at(ts, pos, Precedence::Lowest) {
            Ok((e, m)) => more_args_at(ts, pos + 1 + m, acc.push(e), taken + 1 + m),
            Err(e) => Err(e),
        }
    }
}

/// The arguments that follow an argument.
#[verifier::opaque]
pub open spec fn more_args_at(ts: Seq<TokenView>, pos: int, acc: Seq<ExprView>, taken: nat)
    -> Parsed<Seq<ExprView>>
    decreases left(ts, pos), 3nat,
{
    if holds(ts, pos, TokenType::Comma) {
        match expression_at(ts, pos + 1, Precedence::Lowest) {
            Ok((e, m)) => more_args_at(ts, pos + 2 + m, acc.push(e), taken + 2 + m),
            Err(e) => Err(e),
        }
    } else {
        args_at(ts, pos, acc, taken)
    }
}

/// An expression at `pos` whose operators all bind at least as strongly as
/// `min`.
#[verifier::opaque]
pub open spec fn expression_at(ts: Seq<TokenView>, pos: int, min: Precedence) -> Parsed<ExprView>
    decreases left(ts, pos), 1nat,
{
    match factor_at(ts, pos) {
        Ok((first, m)) => operators_at(ts, pos + 1 + m, first, min, m),
        Err(e) => Err(e),
    }
}

/// The expression that `first` grows into by the operators from `pos` on
/// that bind at least as strongly as `min`, where `taken` tokens were read
/// after the first token of `first`. A binary operator takes a right
/// operand of stronger operators only, so it groups to the left; assignment
/// and the conditional group to the right. A compound assignment `x op= y`
/// stands for `x = x op y`.
#[verifier::opaque]
pub open spec fn operators_at(
    ts: Seq<TokenView>,
    pos: int,
    first: ExprView,
    min: Precedence,
    taken: nat,
) -> Parsed<ExprView>
    decreases left(ts, pos), 0nat,
{
    let k = kind_at(ts, pos);
    if level(precedence_of(k)) < level(min) {
        Ok((first, taken))
    } else if binary_op_of(k) is Some {
        match expression_at(ts, pos + 1, stronger(precedence_of(k))) {
            Ok((right, m)) => operators_at(
                ts,
                pos + 2 + m,
                ExprView::BinaryOp(binary_op_of(k)->0, Box::new(first), Box::new(right)),
                min,
                taken + 2 + m,
            ),
            Err(e) => Err(e),
        }
    } else if is_assignment_op(k) {
        match expression_at(ts, pos + 1, Precedence::Assignment) {
            Ok((right, m)) => operators_at(
                ts,
                pos + 2 + m,
                ExprView::Assignment(
                    Box::new(first),
                    Box::new(
                        match compound_op_of(k) {
                            Some(op) => ExprView::BinaryOp(op, Box::new(first), Box::new(right)),
                            None => right,
                        },
                    ),
                    line_at(ts, pos),
                ),
                min,
                taken + 2 + m,
            ),
            Err(e) => Err(e),
        }
    } else if k == TokenType::Question {
        match expression_at(ts, pos + 1, Precedence::Lowest) {
            Ok((middle, m1)) => {
                if holds(ts, pos + 2 + m1, TokenType::Colon) {
                    match expression_at(ts, pos + 3 + m1, Precedence::Ternary) {
                        Ok((right, m2)) => operators_at(
                            ts,
                            pos + 4 + m1 + m2,
                            ExprView::Conditional(
                                Box::new(first),
                                Box::new(middle),
                                Box::new(right),
                            ),
                            min,
                            taken + 4 + m1 + m2,
                        ),
                        Err(e) => Err(e),
                    }
                } else {
                    Err(expected(ts, pos + 2 + m1, TokenType::Colon))
                }
            },
            Err(e) => Err(e),
        }
    } else {
        Ok((first, taken))
    }
}

/// An expression at `pos`, unless the token at `pos` is `delimiter`.
#[verifier::opaque]
pub open spec fn optional_expression_at(ts: Seq<TokenView>, pos: int, delimiter: TokenType)
    -> Parsed<Option<ExprView>> {
    if kind_at(ts, pos) == delimiter {
        Ok((None, 0))
    } else {
        match expression_at(ts, pos, Precedence::Lowest) {
            Ok((e, m)) => Ok((Some(e), 1 + m)),
            Err(e) => Err(e),
        }
    }
}

/// The rest of a variable declaration after its name: an optional
/// initializer, and the semicolon.
#[verifier::opaque]
pub open spec fn variable_decl_at(ts: Seq<TokenView>, pos: int, name: Seq<char>, line: usize)
    -> Parsed<VarDeclView> {
    if holds(ts, pos, TokenType::Equal) {
        match expression_at(ts, pos + 1, Precedence::Lowest) {
            Ok((e, m)) => closed(
                ts,
                pos + 2 + m,
                TokenType::Semicolon,
                VarDeclView { name, init: Some(e), line },
                2 + m,
            ),
            Err(e) => Err(e),
        }
    } else {
        closed(ts, pos, TokenType::Semicolon, VarDeclView { name, init: None, line }, 0)
    }
}

/// One parameter at `pos`: `int` and a name.
#[verifier::opaque]
pub open spec fn param_at(ts: Seq<TokenView>, pos: int) -> Result<Seq<char>, ErrorView> {
    if holds(ts, pos, TokenType::Int) {
        identifier_at(ts, pos + 1)
    } else {
        Err(expected(ts, pos, TokenType::Int))
    }
}

/// The parameters that follow the parameters `acc`, each after a comma,
/// where `taken` tokens were read after the first one of `acc`.
#[verifier::opaque]
pub open spec fn more_params_at(ts: Seq<TokenView>, pos: int, acc: Seq<Seq<char>>, taken: nat)
    -> Parsed<Seq<Seq<char>>>
    decreases left(ts, pos),
{
    if holds(ts, pos, TokenType::Comma) {
        match param_at(ts, pos + 1) {
            Ok(name) => more_params_at(ts, pos + 3, acc.push(name), taken + 3),
            Err(e) => Err(e),
        }
    } else {
        Ok((acc, taken))
    }
}

/// A parameter list at `pos`: `void`, or one or more parameters.
#[verifier::opaque]
pub open spec fn params_at(ts: Seq<TokenView>, pos: int) -> Parsed<Seq<Seq<char>>> {
    if holds(ts, pos, TokenType::Void) {
        Ok((Seq::empty(), 0))
    } else {
        match param_at(ts, pos) {
            Ok(name) => more_params_at(ts, pos + 2, seq![name], 1),
            Err(e) => Err(e),
        }
    }
}

/// The body of a function, or the semicolon of a declaration without one.
#[verifier::opaque]
pub open spec fn body_at(ts: Seq<TokenView>, pos: int) -> Parsed<Option<BlockView>>
    decreases left(ts, pos), 6nat,
{
    if holds(ts, pos, TokenType::OpenBrace) {
        match items_at(ts, pos + 1, Seq::empty(), 0) {
            Ok((items, n)) => closed(
                ts,
                pos + 1 + n,
                TokenType::CloseBrace,
                Some(BlockView { items }),
                1 + n,
            ),
            Err(e) => Err(e),
        }
    } else {
        closed(ts, pos, TokenType::Semicolon, None, 0)
    }
}

/// The rest of a function declaration after its name: the parameters in
/// parentheses, then a body or a semicolon.
#[verifier::opaque]
pub open spec fn function_decl_at(ts: Seq<TokenView>, pos: int, name: Seq<char>, line: usize)
    -> Parsed<FuncDeclView>
    decreases left(ts, pos), 7nat,
{
    if !holds(ts, pos, TokenType::OpenParen) {
        Err(expected(ts, pos, TokenType::OpenParen))
    } else {
        match params_at(ts, pos + 1) {
            Ok((params, m)) => {
                if !holds(ts, pos + 2 + m, TokenType::CloseParen) {
                    Err(expected(ts, pos + 2 + m, TokenType::CloseParen))
                } else {
                    match body_at(ts, pos + 3 + m) {
                        Ok((body, b)) => Ok(
                            (FuncDeclView { name, params, body, line_number: line }, 3 + m + b),
                        ),
                        Err(e) => Err(e),
                    }
                }
            },
            Err(e) => Err(e),
        }
    }
}

/// A declaration at `pos`: `int`, a name, and then a function when a
/// parenthesis follows, a variable otherwise. The declaration carries the
/// line of the token after the name.
#[verifier::opaque]
pub open spec fn declaration_at(ts: Seq<TokenView>, pos: int) -> Parsed<DeclView>
    decreases left(ts, pos), 8nat,
{
    if !holds(ts, pos, TokenType::Int) {
        Err(expected(ts, pos, TokenType::Int))
    } else {
        match identifier_at(ts, pos + 1) {
            Ok(name) => {
                if kind_at(ts, pos + 2) == TokenType::OpenParen {
                    match function_decl_at(ts, pos + 2, name, line_at(ts, pos + 2)) {
                        Ok((f, m)) => Ok((DeclView::FuncDecl(f), 2 + m)),
                        Err(e) => Err(e),
                    }
                } else {
                    match variable_decl_at(ts, pos + 2, name, line_at(ts, pos + 2)) {
                        Ok((v, m)) => Ok((DeclView::VarDecl(v), 2 + m)),
                        Err(e) => Err(e),
                    }
                }
            },
            Err(e) => Err(e),
        }
    }
}

/// The first clause of a `for` header at `pos`, with its semicolon.
#[verifier::opaque]
pub open spec fn for_init_at(ts: Seq<TokenView>, pos: int) -> Parsed<Option<ForInitView>> {
    if holds(ts, pos, TokenType::Semicolon) {
        Ok((None, 0))
    } else if holds(ts, pos, TokenType::Int) {
        match identifier_at(ts, pos + 1) {
            Ok(name) => match variable_decl_at(ts, pos + 2, name, line_at(ts, pos + 2)) {
                Ok((d, m)) => Ok((Some(ForInitView::Decl(d)), 2 + m)),
                Err(e) => Err(e),
            },
            Err(e) => Err(e),
        }
    } else {
        match expression_at(ts, pos, Precedence::Lowest) {
            Ok((e, m)) => closed(
                ts,
                pos + 1 + m,
                TokenType::Semicolon,
                Some(ForInitView::Expr(e)),
                1 + m,
            ),
            Err(e) => Err(e),
        }
    }
}

/// An expression in parentheses from `pos` on.
#[verifier::opaque]
pub open spec fn condition_at(ts: Seq<TokenView>, pos: int) -> Parsed<ExprView> {
    if !holds(ts, pos, TokenType::OpenParen) {
        Err(expected(ts, pos, TokenType::OpenParen))
    } else {
        match expression_at(ts, pos + 1, Precedence::Lowest) {
            Ok((e, m)) => closed(ts, pos + 2 + m, TokenType::CloseParen, e, 2 + m),
            Err(e) => Err(e),
        }
    }
}

/// The header of a `for` loop from the opening parenthesis at `pos` on.
#[verifier::opaque]
pub open spec fn for_header_at(ts: Seq<TokenView>, pos: int) -> Parsed<
    (Option<ForInitView>, Option<ExprView>, Option<ExprView>),
> {
    if !holds(ts, pos, TokenType::OpenParen) {
        Err(expected(ts, pos, TokenType::OpenParen))
    } else {
        match for_init_at(ts, pos + 1) {
            Ok((init, m)) => match optional_expression_at(ts, pos + 2 + m, TokenType::Semicolon) {
                Ok((cond, n)) => {
                    if !holds(ts, pos + 2 + m + n, TokenType::Semicolon) {
                        Err(expected(ts, pos + 2 + m + n, TokenType::Semicolon))
                    } else {
                        match optional_expression_at(
                            ts,
                            pos + 3 + m + n,
                            TokenType::CloseParen,
                        ) {
                            Ok((post, p)) => closed(
                                ts,
                                pos + 3 + m + n + p,
                                TokenType::CloseParen,
                                (init, cond, post),
                                3 + m + n + p,
                            ),
                            Err(e) => Err(e),
                        }
                    }
                },
                Err(e) => Err(e),
            },
            Err(e) => Err(e),
        }
    }
}

/// A statement at `pos`. Loops, `break` and `continue` get an empty label;
/// `break` and `continue` carry the line of their semicolon.
#[verifier::opaque]
pub open spec fn statement_at(ts: Seq<TokenView>, pos: int) -> Parsed<StmtView>
    decreases left(ts, pos), 3nat,
{
    match kind_at(ts, pos) {
        TokenType::Return => match expression_at(ts, pos + 1, Precedence::Lowest) {
            Ok((e, m)) => closed(ts, pos + 2 + m, TokenType::Semicolon, StmtView::Return(e), 2 + m),
            Err(e) => Err(e),
        },
        TokenType::Semicolon => Ok((StmtView::Null, 0)),
        TokenType::If => match condition_at(ts, pos + 1) {
            Ok((c, m)) => match statement_at(ts, pos + 2 + m) {
                Ok((t, n)) => {
                    if kind_at(ts, pos + 3 + m + n) == TokenType::Else {
                        match statement_at(ts, pos + 4 + m + n) {
                            Ok((e, p)) => Ok(
                                (StmtView::If(c, Box::new(t), Some(Box::new(e))), 4 + m + n + p),
                            ),
                            Err(e) => Err(e),
                        }
                    } else {
                        Ok((StmtView::If(c, Box::new(t), None), 2 + m + n))
                    }
                },
                Err(e) => Err(e),
            },
            Err(e) => Err(e),
        },
        TokenType::OpenBrace => match items_at(ts, pos + 1, Seq::empty(), 0) {
            Ok((items, n)) => closed(
                ts,
                pos + 1 + n,
                TokenType::CloseBrace,
                StmtView::Compound(BlockView { items }),
                1 + n,
            ),
            Err(e) => Err(e),
        },
        TokenType::Break => closed(
            ts,
            pos + 1,
            TokenType::Semicolon,
            StmtView::Break(Seq::empty(), line_at(ts, pos + 1)),
            1,
        ),
        TokenType::Continue => closed(
            ts,
            pos + 1,
            TokenType::Semicolon,
            StmtView::Continue(Seq::empty(), line_at(ts, pos + 1)),
            1,
        ),
        TokenType::While => match condition_at(ts, pos + 1) {
            Ok((c, m)) => match statement_at(ts, pos + 2 + m) {
                Ok((body, n)) => Ok(
                    (StmtView::While(c, Box::new(body), Seq::empty()), 2 + m + n),
                ),
                Err(e) => Err(e),
            },
            Err(e) => Err(e),
        },
        TokenType::Do => match statement_at(ts, pos + 1) {
            Ok((body, m)) => {
                if !holds(ts, pos + 2 + m, TokenType::While) {
                    Err(expected(ts, pos + 2 + m, TokenType::While))
                } else {
                    match condition_at(ts, pos + 3 + m) {
                        Ok((c, n)) => closed(
                            ts,
                            pos + 4 + m + n,
                            TokenType::Semicolon,
                            StmtView::DoWhile(Box::new(body), c, Seq::empty()),
                            4 + m + n,
                        ),
                        Err(e) => Err(e),
                    }
                }
            },
            Err(e) => Err(e),
        },
        TokenType::For => match for_header_at(ts, pos + 1) {
            Ok((header, m)) => match statement_at(ts, pos + 2 + m) {
                Ok((body, n)) => Ok(
                    (
                        StmtView::For(header.0, header.1, header.2, Box::new(body), Seq::empty()),
                        2 + m + n,
                    ),
                ),
                Err(e) => Err(e),
            },
            Err(e) => Err(e),
        },
        _ => match expression_at(ts, pos, Precedence::Lowest) {
            Ok((e, m)) => closed(
                ts,
                pos + 1 + m,
                TokenType::Semicolon,
                StmtView::Expression(e),
                1 + m,
            ),
            Err(e) => Err(e),
        },
    }
}

/// A block item at `pos`: a declaration when it starts with `int`, a
/// statement otherwise.
#[verifier::opaque]
pub open spec fn block_item_at(ts: Seq<TokenView>, pos: int) -> Parsed<BlockItemView>
    decreases left(ts, pos), 9nat,
{
    if kind_at(ts, pos) == TokenType::Int {
        match declaration_at(ts, pos) {
            Ok((d, m)) => Ok((BlockItemView::Decl(d), m)),
            Err(e) => Err(e),
        }
    } else {
        match statement_at(ts, pos) {
            Ok((s, m)) => Ok((BlockItemView::Stmt(s), m)),
            Err(e) => Err(e),
        }
    }
}

/// The block items from `pos` up to a closing brace or the end of the
/// tokens, added to `acc`, where `taken` tokens were read for `acc`.
#[verifier::opaque]
pub open spec fn items_at(ts: Seq<TokenView>, pos: int, acc: Seq<BlockItemView>, taken: nat)
    -> Parsed<Seq<BlockItemView>>
    decreases left(ts, pos), 10nat,
{
    if kind_at(ts, pos) == TokenType::EOF || kind_at(ts, pos) == TokenType::CloseBrace {
        Ok((acc, taken))
    } else {
        match block_item_at(ts, pos) {
            Ok((item, m)) => items_at(ts, pos + 1 + m, acc.push(item), taken + 1 + m),
            Err(e) => Err(e),
        }
    }
}

/// The function declarations from `pos` up to the end of the tokens, added
/// to `acc`.
#[verifier::opaque]
pub open spec fn functions_at(ts: Seq<TokenView>, pos: int, acc: Seq<FuncDeclView>) -> Result<
    Seq<FuncDeclView>,
    ErrorView,
>
    decreases left(ts, pos),
{
    if kind_at(ts, pos) == TokenType::EOF {
        Ok(acc)
    } else if !holds(ts, pos, TokenType::Int) {
        Err(expected(ts, pos, TokenType::Int))
    } else {
        match identifier_at(ts, pos + 1) {
            Ok(name) => match function_decl_at(ts, pos + 2, name, line_at(ts, pos + 2)) {
                Ok((f, m)) => functions_at(ts, pos + 3 + m, acc.push(f)),
                Err(e) => Err(e),
            },
            Err(e) => Err(e),
        }
    }
}

/// The translation unit that a token sequence stands for, or the first
/// error.
pub open spec fn parse_tokens(ts: Seq<TokenView>) -> Result<ProgramView, ErrorView> {
    match functions_at(ts, 0, Seq::empty()) {
        Ok(func_decls) => Ok(ProgramView { func_decls }),
        Err(e) => Err(e),
    }
}

} // verus!
