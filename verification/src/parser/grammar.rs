//! The grammar as a function from a run of tokens to a syntax tree.
//!
//! Every rule takes the tokens and a position and gives either the tree it
//! recognised together with the position behind it, or the first error. The
//! rules call each other from the loosest binding to the tightest, so the
//! order of the calls is the order of precedence.
use vstd::prelude::*;
use crate::parser::expression::ExprView;
use crate::parser::statement::StmtView;
use crate::token::{TokenType, TokenView};

verus! {

/// What the parser found wrong.
#[derive(Debug, Clone, Copy, PartialEq, Eq, Structural)]
pub enum ParseErrorKind {
    ExpectedSemicolon,
    ExpectedLeftParen,
    ExpectedRightParen,
    ExpectedRightBracket,
    ExpectedLeftBrace,
    ExpectedRightBrace,
    ExpectedColon,
    ExpectedComma,
    ExpectedElse,
    ExpectedEqual,
    ExpectedIn,
    ExpectedAs,
    InvalidAssignmentTarget,
    UnexpectedToken,
    UnexpectedEndOfInput,
}

/// A syntax error: what was wrong, the kind of the token it was found at, and
/// that token's line.
#[derive(Debug, Clone, Copy, PartialEq, Eq, Structural)]
pub struct ParseError {
    pub kind: ParseErrorKind,
    pub found: TokenType,
    pub line: u32,
}

/// The kind of the token at `pos`; behind the last token it is `EOF`.
pub open spec fn kind_at(ts: Seq<TokenView>, pos: int) -> TokenType {
    if 0 <= pos < ts.len() {
        ts[pos].token_type
    } else {
        TokenType::EOF
    }
}

/// The line of the token at `pos`; behind the last token it is the last
/// token's line, and 0 where there is no token at all.
pub open spec fn line_at(ts: Seq<TokenView>, pos: int) -> u32 {
    if 0 <= pos < ts.len() {
        ts[pos].line
    } else if ts.len() > 0 {
        ts[ts.len() - 1].line
    } else {
        0
    }
}

/// The error of the given kind at `pos`.
pub open spec fn error_at(ts: Seq<TokenView>, pos: int, kind: ParseErrorKind) -> ParseError {
    ParseError { kind, found: kind_at(ts, pos), line: line_at(ts, pos) }
}

/// A rule that has consumed at least one token and has not run past the end.
pub open spec fn progressed(ts: Seq<TokenView>, pos: int, next: int) -> bool {
    pos < next <= ts.len()
}

/// The error of a rule that consumed nothing. No rule of this grammar does
/// (see [`progress`](super::progress)), so this error never comes; it is
/// here so that every rule is defined on every input.
pub open spec fn stalled(ts: Seq<TokenView>, pos: int) -> ParseError {
    error_at(ts, pos, ParseErrorKind::UnexpectedEndOfInput)
}

/// The token at `pos`, whatever its kind, and the position behind it.
pub open spec fn take(ts: Seq<TokenView>, pos: int) -> Result<(TokenView, int), ParseError> {
    if 0 <= pos < ts.len() {
        Ok((ts[pos], pos + 1))
    } else {
        Err(error_at(ts, pos, ParseErrorKind::UnexpectedEndOfInput))
    }
}

/// The position behind the token at `pos` if it has the given kind, else the
/// error `missing`.
pub open spec fn expect(ts: Seq<TokenView>, pos: int, kind: TokenType, missing: ParseErrorKind) -> Result<
    int,
    ParseError,
> {
    if 0 <= pos < ts.len() && ts[pos].token_type == kind {
        Ok(pos + 1)
    } else {
        Err(error_at(ts, pos, missing))
    }
}

/// The binary operators of each tier, from the tightest (0, `*` and `/`) to
/// the loosest (5, `or`).
pub open spec fn is_operator(tier: nat, kind: TokenType) -> bool {
    if tier == 0 {
        kind == TokenType::Slash || kind == TokenType::Star
    } else if tier == 1 {
        kind == TokenType::Minus || kind == TokenType::Plus
    } else if tier == 2 {
        kind == TokenType::Greater || kind == TokenType::GreaterEqual || kind == TokenType::Less || kind
            == TokenType::LessEqual
    } else if tier == 3 {
        kind == TokenType::BangEqual || kind == TokenType::EqualEqual
    } else if tier == 4 {
        kind == TokenType::And
    } else {
        kind == TokenType::Or
    }
}

/// The node that a binary operator of the given tier builds.
pub open spec fn binary_node(tier: nat, left: ExprView, operator: TokenView, right: ExprView) -> ExprView {
    if tier == 0 {
        ExprView::Factor { left: Box::new(left), operator, right: Box::new(right) }
    } else if tier == 1 {
        ExprView::Term { left: Box::new(left), operator, right: Box::new(right) }
    } else if tier == 2 {
        ExprView::Comparison { left: Box::new(left), operator, right: Box::new(right) }
    } else if tier == 3 {
        ExprView::Equality { left: Box::new(left), operator, right: Box::new(right) }
    } else if tier == 4 {
        ExprView::And { left: Box::new(left), right: Box::new(right) }
    } else {
        ExprView::Or { left: Box::new(left), right: Box::new(right) }
    }
}

/// The assignment that `target = value` stands for, where `target` may be
/// assigned to: an identifier, an indexed element or a field.
pub open spec fn assignment_node(target: ExprView, value: ExprView) -> Option<ExprView> {
    match target {
        ExprView::Primary { value: name } => if name.token_type == TokenType::Identifier {
            Some(ExprView::Assignment { identifier: name, value: Box::new(value) })
        } else {
            None
        },
        ExprView::MapIndex { map, key } => Some(
            ExprView::MapIndexAssignment { map, key, value: Box::new(value) },
        ),
        ExprView::Index { list, expression } => Some(
            ExprView::IndexAssignment { list, expression, value: Box::new(value) },
        ),
        _ => None,
    }
}

/// program := declaration* EOF
///
/// The declarations from `pos` up to the end of input, behind those in
/// `done`. A program is read from position 0 with nothing done.
#[verifier::opaque]
pub open spec fn program_rest(ts: Seq<TokenView>, pos: int, done: Seq<StmtView>) -> Result<
    Seq<StmtView>,
    ParseError,
>
    decreases ts.len() - pos, 50nat,
{
    if kind_at(ts, pos) == TokenType::EOF {
        Ok(done)
    } else {
        match declaration(ts, pos) {
            Ok((s, p)) => if progressed(ts, pos, p) {
                program_rest(ts, p, done.push(s))
            } else {
                Err(stalled(ts, pos))
            },
            Err(e) => Err(e),
        }
    }
}

/// declaration := functionDecl | variableDecl | statement
#[verifier::opaque]
pub open spec fn declaration(ts: Seq<TokenView>, pos: int) -> Result<(StmtView, int), ParseError>
    decreases ts.len() - pos, 42nat,
{
    match kind_at(ts, pos) {
        TokenType::Make => variable_declaration(ts, pos),
        TokenType::Funk => function_declaration(ts, pos),
        _ => statement(ts, pos),
    }
}

/// statement := printStmt | block | ifStmt | whileStmt | returnStmt | withStmt
/// | forStmt | exprStmt
#[verifier::opaque]
pub open spec fn statement(ts: Seq<TokenView>, pos: int) -> Result<(StmtView, int), ParseError>
    decreases ts.len() - pos, 41nat,
{
    match kind_at(ts, pos) {
        TokenType::Print => print_statement(ts, pos),
        TokenType::LBrace => block(ts, pos),
        TokenType::If => if_statement(ts, pos),
        TokenType::While => while_statement(ts, pos),
        TokenType::Return => return_statement(ts, pos),
        TokenType::With => with_statement(ts, pos),
        TokenType::For => for_statement(ts, pos),
        _ => expression_statement(ts, pos),
    }
}

/// forStmt := "for" name "in" expression statement
#[verifier::opaque]
pub open spec fn for_statement(ts: Seq<TokenView>, pos: int) -> Result<(StmtView, int), ParseError>
    decreases ts.len() - pos, 40nat,
{
    if kind_at(ts, pos) != TokenType::For {
        Err(error_at(ts, pos, ParseErrorKind::UnexpectedToken))
    } else {
        match take(ts, pos + 1) {
            Err(e) => Err(e),
            Ok((identifier, stop1)) => match expect(ts, stop1, TokenType::In, ParseErrorKind::ExpectedIn) {
                Err(e) => Err(e),
                Ok(stop2) => match expression(ts, stop2) {
                    Err(e) => Err(e),
                    Ok((iter, stop3)) => if !progressed(ts, pos, stop3) {
                        Err(stalled(ts, pos))
                    } else {
                        match statement(ts, stop3) {
                            Err(e) => Err(e),
                            Ok((body, stop4)) => Ok(
                                (StmtView::For { identifier, iter, body: Box::new(body) }, stop4),
                            ),
                        }
                    },
                },
            },
        }
    }
}

/// withStmt := "with" expression "as" name statement
#[verifier::opaque]
pub open spec fn with_statement(ts: Seq<TokenView>, pos: int) -> Result<(StmtView, int), ParseError>
    decreases ts.len() - pos, 40nat,
{
    if kind_at(ts, pos) != TokenType::With {
        Err(error_at(ts, pos, ParseErrorKind::UnexpectedToken))
    } else {
        match expression(ts, pos + 1) {
            Err(e) => Err(e),
            Ok((value, stop1)) => match expect(ts, stop1, TokenType::As, ParseErrorKind::ExpectedAs) {
                Err(e) => Err(e),
                Ok(stop2) => match take(ts, stop2) {
                    Err(e) => Err(e),
                    Ok((identifier, stop3)) => if !progressed(ts, pos, stop3) {
                        Err(stalled(ts, pos))
                    } else {
                        match statement(ts, stop3) {
                            Err(e) => Err(e),
                            Ok((body, stop4)) => Ok(
                                (StmtView::With { value, identifier, body: Box::new(body) }, stop4),
                            ),
                        }
                    },
                },
            },
        }
    }
}

/// returnStmt := "return" expression? ";"
#[verifier::opaque]
pub open spec fn return_statement(ts: Seq<TokenView>, pos: int) -> Result<(StmtView, int), ParseError>
    decreases ts.len() - pos, 40nat,
{
    if kind_at(ts, pos) != TokenType::Return {
        Err(error_at(ts, pos, ParseErrorKind::UnexpectedToken))
    } else if kind_at(ts, pos + 1) == TokenType::Semicolon {
        Ok((StmtView::Return { value: None }, pos + 2))
    } else {
        match expression(ts, pos + 1) {
            Err(e) => Err(e),
            Ok((value, stop1)) => match expect(ts, stop1, TokenType::Semicolon, ParseErrorKind::ExpectedSemicolon) {
                Err(e) => Err(e),
                Ok(stop2) => Ok((StmtView::Return { value: Some(value) }, stop2)),
            },
        }
    }
}

/// whileStmt := "while" expression statement
#[verifier::opaque]
pub open spec fn while_statement(ts: Seq<TokenView>, pos: int) -> Result<(StmtView, int), ParseError>
    decreases ts.len() - pos, 40nat,
{
    if kind_at(ts, pos) != TokenType::While {
        Err(error_at(ts, pos, ParseErrorKind::UnexpectedToken))
    } else {
        match expression(ts, pos + 1) {
            Err(e) => Err(e),
            Ok((condition, stop1)) => if !progressed(ts, pos, stop1) {
                Err(stalled(ts, pos))
            } else {
                match statement(ts, stop1) {
                    Err(e) => Err(e),
                    Ok((body, stop2)) => Ok((StmtView::WhileStatement { condition, body: Box::new(body) }, stop2)),
                }
            },
        }
    }
}

/// ifStmt := "if" expression statement ("else" statement)?
#[verifier::opaque]
pub open spec fn if_statement(ts: Seq<TokenView>, pos: int) -> Result<(StmtView, int), ParseError>
    decreases ts.len() - pos, 40nat,
{
    if kind_at(ts, pos) != TokenType::If {
        Err(error_at(ts, pos, ParseErrorKind::UnexpectedToken))
    } else {
        match expression(ts, pos + 1) {
            Err(e) => Err(e),
            Ok((condition, stop1)) => if !progressed(ts, pos, stop1) {
                Err(stalled(ts, pos))
            } else {
                match statement(ts, stop1) {
                    Err(e) => Err(e),
                    Ok((then_branch, stop2)) => if kind_at(ts, stop2) != TokenType::Else {
                        Ok(
                            (
                                StmtView::IfStatement {
                                    condition,
                                    then_branch: Box::new(then_branch),
                                    else_branch: None,
                                },
                                stop2,
                            ),
                        )
                    } else if !progressed(ts, pos, stop2) {
                        Err(stalled(ts, pos))
                    } else {
                        match statement(ts, stop2 + 1) {
                            Err(e) => Err(e),
                            Ok((else_branch, stop3)) => Ok(
                                (
                                    StmtView::IfStatement {
                                        condition,
                                        then_branch: Box::new(then_branch),
                                        else_branch: Some(Box::new(else_branch)),
                                    },
                                    stop3,
                                ),
                            ),
                        }
                    },
                }
            },
        }
    }
}

/// block := "{" declaration* "}"
#[verifier::opaque]
pub open spec fn block(ts: Seq<TokenView>, pos: int) -> Result<(StmtView, int), ParseError>
    decreases ts.len() - pos, 40nat,
{
    if kind_at(ts, pos) != TokenType::LBrace {
        Err(error_at(ts, pos, ParseErrorKind::ExpectedLeftBrace))
    } else {
        match block_rest(ts, pos + 1, Seq::empty()) {
            Err(e) => Err(e),
            Ok((statements, p)) => Ok((StmtView::Block { statements }, p)),
        }
    }
}

/// The declarations of a block from `pos` up to its closing brace, behind
/// those in `done`.
#[verifier::opaque]
pub open spec fn block_rest(ts: Seq<TokenView>, pos: int, done: Seq<StmtView>) -> Result<
    (Seq<StmtView>, int),
    ParseError,
>
    decreases ts.len() - pos, 50nat,
{
    if kind_at(ts, pos) == TokenType::RBrace {
        Ok((done, pos + 1))
    } else if kind_at(ts, pos) == TokenType::EOF {
        Err(error_at(ts, pos, ParseErrorKind::ExpectedRightBrace))
    } else {
        match declaration(ts, pos) {
            Err(e) => Err(e),
            Ok((s, p)) => if progressed(ts, pos, p) {
                block_rest(ts, p, done.push(s))
            } else {
                Err(stalled(ts, pos))
            },
        }
    }
}

/// exprStmt := expression ";"
#[verifier::opaque]
pub open spec fn expression_statement(ts: Seq<TokenView>, pos: int) -> Result<(StmtView, int), ParseError>
    decreases ts.len() - pos, 40nat,
{
    match expression(ts, pos) {
        Err(e) => Err(e),
        Ok((expression, stop1)) => match expect(ts, stop1, TokenType::Semicolon, ParseErrorKind::ExpectedSemicolon) {
            Err(e) => Err(e),
            Ok(stop2) => Ok((StmtView::ExpressionStatement { expression }, stop2)),
        },
    }
}

/// printStmt := "print" expression ";"
#[verifier::opaque]
pub open spec fn print_statement(ts: Seq<TokenView>, pos: int) -> Result<(StmtView, int), ParseError>
    decreases ts.len() - pos, 40nat,
{
    if kind_at(ts, pos) != TokenType::Print {
        Err(error_at(ts, pos, ParseErrorKind::UnexpectedToken))
    } else {
        match expression(ts, pos + 1) {
            Err(e) => Err(e),
            Ok((expression, stop1)) => match expect(
                ts,
                stop1,
                TokenType::Semicolon,
                ParseErrorKind::ExpectedSemicolon,
            ) {
                Err(e) => Err(e),
                Ok(stop2) => Ok((StmtView::PrintStatement { expression }, stop2)),
            },
        }
    }
}

/// functionDecl := "funk" name "(" (name ("," name)*)? ")" block
#[verifier::opaque]
pub open spec fn function_declaration(ts: Seq<TokenView>, pos: int) -> Result<(StmtView, int), ParseError>
    decreases ts.len() - pos, 41nat,
{
    if kind_at(ts, pos) != TokenType::Funk {
        Err(error_at(ts, pos, ParseErrorKind::UnexpectedToken))
    } else {
        match take(ts, pos + 1) {
            Err(e) => Err(e),
            Ok((identifier, stop1)) => match expect(ts, stop1, TokenType::LParen, ParseErrorKind::ExpectedLeftParen) {
                Err(e) => Err(e),
                Ok(stop2) => match parameters(ts, stop2) {
                    Err(e) => Err(e),
                    Ok((parameters, stop3)) => if !progressed(ts, pos, stop3) {
                        Err(stalled(ts, pos))
                    } else {
                        match block(ts, stop3) {
                            Err(e) => Err(e),
                            Ok((body, stop4)) => Ok(
                                (
                                    StmtView::FunctionDeclaration {
                                        identifier,
                                        parameters,
                                        body: Box::new(body),
                                    },
                                    stop4,
                                ),
                            ),
                        }
                    },
                },
            },
        }
    }
}

/// The parameter names from `pos` up to and with the closing parenthesis.
pub open spec fn parameters(ts: Seq<TokenView>, pos: int) -> Result<(Seq<TokenView>, int), ParseError> {
    if kind_at(ts, pos) == TokenType::RParen {
        Ok((Seq::empty(), pos + 1))
    } else {
        match take(ts, pos) {
            Err(e) => Err(e),
            Ok((first, p)) => parameters_rest(ts, p, seq![first]),
        }
    }
}

/// The parameter names that follow those in `done`, each behind a comma.
#[verifier::opaque]
pub open spec fn parameters_rest(ts: Seq<TokenView>, pos: int, done: Seq<TokenView>) -> Result<
    (Seq<TokenView>, int),
    ParseError,
>
    decreases ts.len() - pos,
{
    if kind_at(ts, pos) == TokenType::Comma {
        match take(ts, pos + 1) {
            Err(e) => Err(e),
            Ok((name, p)) => parameters_rest(ts, p, done.push(name)),
        }
    } else {
        match expect(ts, pos, TokenType::RParen, ParseErrorKind::ExpectedRightParen) {
            Err(e) => Err(e),
            Ok(p) => Ok((done, p)),
        }
    }
}

/// variableDecl := "make" name (";" | "=" expression ";")
#[verifier::opaque]
pub open spec fn variable_declaration(ts: Seq<TokenView>, pos: int) -> Result<(StmtView, int), ParseError>
    decreases ts.len() - pos, 41nat,
{
    if kind_at(ts, pos) != TokenType::Make {
        Err(error_at(ts, pos, ParseErrorKind::UnexpectedToken))
    } else {
        match take(ts, pos + 1) {
            Err(e) => Err(e),
            Ok((identifier, stop1)) => if kind_at(ts, stop1) == TokenType::Semicolon {
                Ok((StmtView::VariableDeclaration { identifier, expression: None }, stop1 + 1))
            } else {
                match expect(ts, stop1, TokenType::Equal, ParseErrorKind::ExpectedEqual) {
                    Err(e) => Err(e),
                    Ok(stop2) => match expression(ts, stop2) {
                        Err(e) => Err(e),
                        Ok((value, stop3)) => match expect(
                            ts,
                            stop3,
                            TokenType::Semicolon,
                            ParseErrorKind::ExpectedSemicolon,
                        ) {
                            Err(e) => Err(e),
                            Ok(stop4) => Ok(
                                (StmtView::VariableDeclaration { identifier, expression: Some(value) }, stop4),
                            ),
                        },
                    },
                }
            },
        }
    }
}

/// expression := assignment
#[verifier::opaque]
pub open spec fn expression(ts: Seq<TokenView>, pos: int) -> Result<(ExprView, int), ParseError>
    decreases ts.len() - pos, 30nat,
{
    assignment(ts, pos)
}

/// assignment := ifExpression ("=" assignment)?, where the left side is an
/// identifier, an indexed element or a field
#[verifier::opaque]
pub open spec fn assignment(ts: Seq<TokenView>, pos: int) -> Result<(ExprView, int), ParseError>
    decreases ts.len() - pos, 29nat,
{
    match if_expression(ts, pos) {
        Err(e) => Err(e),
        Ok((target, stop1)) => if kind_at(ts, stop1) != TokenType::Equal {
            Ok((target, stop1))
        } else if !progressed(ts, pos, stop1) {
            Err(stalled(ts, pos))
        } else {
            match assignment(ts, stop1 + 1) {
                Err(e) => Err(e),
                Ok((value, stop2)) => match assignment_node(target, value) {
                    Some(node) => Ok((node, stop2)),
                    None => Err(error_at(ts, stop1, ParseErrorKind::InvalidAssignmentTarget)),
                },
            }
        },
    }
}

/// ifExpression := or ("if" or "else" or)*
#[verifier::opaque]
pub open spec fn if_expression(ts: Seq<TokenView>, pos: int) -> Result<(ExprView, int), ParseError>
    decreases ts.len() - pos, 28nat,
{
    match binary(ts, pos, 5) {
        Err(e) => Err(e),
        Ok((first, p)) => if progressed(ts, pos, p) {
            if_expression_rest(ts, p, first)
        } else {
            Err(stalled(ts, pos))
        },
    }
}

/// The conditions and alternatives that follow `first`: each wraps what was
/// read so far as its own first branch.
#[verifier::opaque]
pub open spec fn if_expression_rest(ts: Seq<TokenView>, pos: int, first: ExprView) -> Result<
    (ExprView, int),
    ParseError,
>
    decreases ts.len() - pos, 50nat,
{
    if kind_at(ts, pos) != TokenType::If {
        Ok((first, pos))
    } else {
        match binary(ts, pos + 1, 5) {
            Err(e) => Err(e),
            Ok((condition, stop1)) => match expect(ts, stop1, TokenType::Else, ParseErrorKind::ExpectedElse) {
                Err(e) => Err(e),
                Ok(stop2) => if !progressed(ts, pos, stop2) {
                    Err(stalled(ts, pos))
                } else {
                    match binary(ts, stop2, 5) {
                        Err(e) => Err(e),
                        Ok((else_branch, stop3)) => if !progressed(ts, pos, stop3) {
                            Err(stalled(ts, pos))
                        } else {
                            if_expression_rest(
                                ts,
                                stop3,
                                ExprView::IfExpression {
                                    condition: Box::new(condition),
                                    then_branch: Box::new(first),
                                    else_branch: Box::new(else_branch),
                                },
                            )
                        },
                    }
                },
            },
        }
    }
}

/// A chain of binary operators of one tier, grouped to the left.
///
/// or := and ("or" and)*, and := equality ("and" equality)*,
/// equality := comparison (("==" | "!=") comparison)*,
/// comparison := term ((">" | ">=" | "<" | "<=") term)*,
/// term := factor (("-" | "+") factor)*, factor := unary (("/" | "*") unary)*.
/// The operands of a tier are chains of the next tighter tier, and `unary`
/// below the tightest.
#[verifier::opaque]
pub open spec fn binary(ts: Seq<TokenView>, pos: int, tier: nat) -> Result<(ExprView, int), ParseError>
    decreases ts.len() - pos, 21nat + tier, 1nat,
{
    match (if tier == 0 {
        unary(ts, pos)
    } else {
        binary(ts, pos, (tier - 1) as nat)
    }) {
        Err(e) => Err(e),
        Ok((first, p)) => if progressed(ts, pos, p) {
            binary_rest(ts, p, tier, first)
        } else {
            Err(stalled(ts, pos))
        },
    }
}

/// The operators of the tier and their right operands that follow `left`.
#[verifier::opaque]
pub open spec fn binary_rest(ts: Seq<TokenView>, pos: int, tier: nat, left: ExprView) -> Result<
    (ExprView, int),
    ParseError,
>
    decreases ts.len() - pos, 50nat, 0nat,
{
    if 0 <= pos < ts.len() && is_operator(tier, ts[pos].token_type) {
        match (if tier == 0 {
            unary(ts, pos + 1)
        } else {
            binary(ts, pos + 1, (tier - 1) as nat)
        }) {
            Err(e) => Err(e),
            Ok((right, p)) => if progressed(ts, pos, p) {
                binary_rest(ts, p, tier, binary_node(tier, left, ts[pos], right))
            } else {
                Err(stalled(ts, pos))
            },
        }
    } else {
        Ok((left, pos))
    }
}

/// unary := ("!" | "-") unary | call
#[verifier::opaque]
pub open spec fn unary(ts: Seq<TokenView>, pos: int) -> Result<(ExprView, int), ParseError>
    decreases ts.len() - pos, 20nat, 0nat,
{
    if 0 <= pos < ts.len() && (ts[pos].token_type == TokenType::Bang || ts[pos].token_type
        == TokenType::Minus) {
        match unary(ts, pos + 1) {
            Err(e) => Err(e),
            Ok((right, p)) => Ok((ExprView::Unary { operator: ts[pos], right: Box::new(right) }, p)),
        }
    } else {
        call(ts, pos)
    }
}

/// call := primary ("(" arguments ")" | "[" expression "]" | "." name)*
#[verifier::opaque]
pub open spec fn call(ts: Seq<TokenView>, pos: int) -> Result<(ExprView, int), ParseError>
    decreases ts.len() - pos, 19nat, 0nat,
{
    match primary(ts, pos) {
        Err(e) => Err(e),
        Ok((callee, p)) => if progressed(ts, pos, p) {
            call_rest(ts, p, callee)
        } else {
            Err(stalled(ts, pos))
        },
    }
}

/// The calls, indexings and field accesses that follow `callee`.
#[verifier::opaque]
pub open spec fn call_rest(ts: Seq<TokenView>, pos: int, callee: ExprView) -> Result<
    (ExprView, int),
    ParseError,
>
    decreases ts.len() - pos, 50nat, 0nat,
{
    match kind_at(ts, pos) {
        TokenType::LParen => match arguments(ts, pos + 1) {
            Err(e) => Err(e),
            Ok((arguments, p)) => if progressed(ts, pos, p) {
                call_rest(ts, p, ExprView::Call { identifier: Box::new(callee), arguments })
            } else {
                Err(stalled(ts, pos))
            },
        },
        TokenType::LBracket => match expression(ts, pos + 1) {
            Err(e) => Err(e),
            Ok((index, stop1)) => match expect(
                ts,
                stop1,
                TokenType::RBracket,
                ParseErrorKind::ExpectedRightBracket,
            ) {
                Err(e) => Err(e),
                Ok(stop2) => if progressed(ts, pos, stop2) {
                    call_rest(ts, stop2, ExprView::Index { list: Box::new(callee), expression: Box::new(index) })
                } else {
                    Err(stalled(ts, pos))
                },
            },
        },
        TokenType::Dot => match take(ts, pos + 1) {
            Err(e) => Err(e),
            Ok((key, p)) => call_rest(ts, p, ExprView::MapIndex { map: Box::new(callee), key }),
        },
        _ => Ok((callee, pos)),
    }
}

/// arguments := (expression ("," expression)*)? ")"
#[verifier::opaque]
pub open spec fn arguments(ts: Seq<TokenView>, pos: int) -> Result<(Seq<ExprView>, int), ParseError>
    decreases ts.len() - pos, 40nat, 0nat,
{
    if kind_at(ts, pos) == TokenType::RParen {
        Ok((Seq::empty(), pos + 1))
    } else {
        match expression(ts, pos) {
            Err(e) => Err(e),
            Ok((first, p)) => if progressed(ts, pos, p) {
                elements_rest(ts, p, seq![first], TokenType::RParen, ParseErrorKind::ExpectedRightParen)
            } else {
                Err(stalled(ts, pos))
            },
        }
    }
}

/// The expressions that follow those in `done`, each behind a comma, up to
/// and with the closing token `close`.
#[verifier::opaque]
pub open spec fn elements_rest(
    ts: Seq<TokenView>,
    pos: int,
    done: Seq<ExprView>,
    close: TokenType,
    missing: ParseErrorKind,
) -> Result<(Seq<ExprView>, int), ParseError>
    decreases ts.len() - pos, 50nat, 0nat,
{
    if kind_at(ts, pos) == TokenType::Comma {
        match expression(ts, pos + 1) {
            Err(e) => Err(e),
            Ok((next, p)) => if progressed(ts, pos, p) {
                elements_rest(ts, p, done.push(next), close, missing)
            } else {
                Err(stalled(ts, pos))
            },
        }
    } else {
        match expect(ts, pos, close, missing) {
            Err(e) => Err(e),
            Ok(p) => Ok((done, p)),
        }
    }
}

/// primary := NUMBER | STRING | BOOL | NIL | IDENT | "[" list "]"
/// | "{" record "}" | "(" expression ")"
#[verifier::opaque]
pub open spec fn primary(ts: Seq<TokenView>, pos: int) -> Result<(ExprView, int), ParseError>
    decreases ts.len() - pos, 18nat, 0nat,
{
    match kind_at(ts, pos) {
        TokenType::Number | TokenType::String | TokenType::Boolean | TokenType::Nil | TokenType::Identifier => Ok(
            (ExprView::Primary { value: ts[pos] }, pos + 1),
        ),
        TokenType::LBracket => list(ts, pos),
        TokenType::LBrace => record(ts, pos),
        TokenType::LParen => match expression(ts, pos + 1) {
            Err(e) => Err(e),
            Ok((inner, stop1)) => match expect(ts, stop1, TokenType::RParen, ParseErrorKind::ExpectedRightParen) {
                Err(e) => Err(e),
                Ok(stop2) => Ok((inner, stop2)),
            },
        },
        _ => Err(error_at(ts, pos, ParseErrorKind::UnexpectedToken)),
    }
}

/// record := "{" (name ":" expression ",")* "}"
#[verifier::opaque]
pub open spec fn record(ts: Seq<TokenView>, pos: int) -> Result<(ExprView, int), ParseError>
    decreases ts.len() - pos, 17nat, 0nat,
{
    if kind_at(ts, pos) != TokenType::LBrace {
        Err(error_at(ts, pos, ParseErrorKind::ExpectedLeftBrace))
    } else {
        match record_rest(ts, pos + 1, Seq::empty()) {
            Err(e) => Err(e),
            Ok((key_values, p)) => Ok((ExprView::Record { key_values }, p)),
        }
    }
}

/// The entries of a record from `pos` up to its closing brace, behind those
/// in `done`. Every entry ends in a comma.
#[verifier::opaque]
pub open spec fn record_rest(ts: Seq<TokenView>, pos: int, done: Seq<(TokenView, ExprView)>) -> Result<
    (Seq<(TokenView, ExprView)>, int),
    ParseError,
>
    decreases ts.len() - pos, 50nat, 0nat,
{
    if kind_at(ts, pos) == TokenType::RBrace {
        Ok((done, pos + 1))
    } else {
        match take(ts, pos) {
            Err(e) => Err(e),
            Ok((key, stop1)) => match expect(ts, stop1, TokenType::Colon, ParseErrorKind::ExpectedColon) {
                Err(e) => Err(e),
                Ok(stop2) => match expression(ts, stop2) {
                    Err(e) => Err(e),
                    Ok((value, stop3)) => match expect(ts, stop3, TokenType::Comma, ParseErrorKind::ExpectedComma) {
                        Err(e) => Err(e),
                        Ok(stop4) => if progressed(ts, pos, stop4) {
                            record_rest(ts, stop4, done.push((key, value)))
                        } else {
                            Err(stalled(ts, pos))
                        },
                    },
                },
            },
        }
    }
}

/// list := "[" (expression ("," expression)*)? "]"
#[verifier::opaque]
pub open spec fn list(ts: Seq<TokenView>, pos: int) -> Result<(ExprView, int), ParseError>
    decreases ts.len() - pos, 17nat, 0nat,
{
    if kind_at(ts, pos) != TokenType::LBracket {
        Err(error_at(ts, pos, ParseErrorKind::UnexpectedToken))
    } else if kind_at(ts, pos + 1) == TokenType::RBracket {
        Ok((ExprView::List { values: Seq::empty() }, pos + 2))
    } else {
        match expression(ts, pos + 1) {
            Err(e) => Err(e),
            Ok((first, p)) => if progressed(ts, pos, p) {
                match elements_rest(
                    ts,
                    p,
                    seq![first],
                    TokenType::RBracket,
                    ParseErrorKind::ExpectedRightBracket,
                ) {
                    Err(e) => Err(e),
                    Ok((values, stop2)) => Ok((ExprView::List { values }, stop2)),
                }
            } else {
                Err(stalled(ts, pos))
            },
        }
    }
}

} // verus!
