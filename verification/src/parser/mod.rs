//! A recursive-descent parser: one method for each rule of the grammar in
//! [`grammar`], each proved to compute exactly what its rule says.
use vstd::prelude::*;
use crate::token::{Token, TokenType, TokenView, token_views};

pub mod accept;
pub mod expression;
pub mod grammar;
pub mod progress;
pub mod statement;

use expression::{
    And, Assignment, Call, Comparison, Equality, ExprView, Expression, Factor, IfExpression, Index,
    IndexAssignment, List, MapIndex, MapIndexAssignment, Or, Primary, Record, Term, Unary,
    entry_views, expression_views, lemma_element_views,
};
use grammar::{ParseError, ParseErrorKind};
use statement::{
    Block, ExpressionStatement, For, FunctionDeclaration, IfStatement, PrintStatement, Return,
    Statement, StmtView, VariableDeclaration, WhileStatement, With, lemma_block_view,
    statement_views,
};

verus! {

/// A parser over a run of tokens, with the position of the next token to read.
pub struct Parser {
    tokens: Vec<Token>,
    position: usize,
}

/// What a rule for expressions must leave behind: the tokens untouched, and
/// either the expected tree with the cursor behind it, or the expected error.
pub open spec fn expression_parsed(
    before: Parser,
    after: Parser,
    result: Result<Expression, ParseError>,
    expected: Result<(ExprView, int), ParseError>,
) -> bool {
    &&& after.stream() == before.stream()
    &&& match expected {
        Ok((tree, next)) => {
            &&& result is Ok
            &&& result->Ok_0@ == tree
            &&& after.cursor() == next
            &&& grammar::progressed(before.stream(), before.cursor(), next)
        },
        Err(e) => result == Err::<Expression, ParseError>(e),
    }
}

/// The same for a rule that may consume nothing.
pub open spec fn expression_continued(
    before: Parser,
    after: Parser,
    result: Result<Expression, ParseError>,
    expected: Result<(ExprView, int), ParseError>,
) -> bool {
    &&& after.stream() == before.stream()
    &&& match expected {
        Ok((tree, next)) => {
            &&& result is Ok
            &&& result->Ok_0@ == tree
            &&& after.cursor() == next
            &&& before.cursor() <= next <= before.stream().len()
        },
        Err(e) => result == Err::<Expression, ParseError>(e),
    }
}

/// What a rule for statements must leave behind.
pub open spec fn statement_parsed(
    before: Parser,
    after: Parser,
    result: Result<Statement, ParseError>,
    expected: Result<(StmtView, int), ParseError>,
) -> bool {
    &&& after.stream() == before.stream()
    &&& match expected {
        Ok((tree, next)) => {
            &&& result is Ok
            &&& result->Ok_0@ == tree
            &&& after.cursor() == next
            &&& grammar::progressed(before.stream(), before.cursor(), next)
        },
        Err(e) => result == Err::<Statement, ParseError>(e),
    }
}

/// What a rule for a run of expressions must leave behind.
pub open spec fn expressions_parsed(
    before: Parser,
    after: Parser,
    result: Result<Vec<Expression>, ParseError>,
    expected: Result<(Seq<ExprView>, int), ParseError>,
) -> bool {
    &&& after.stream() == before.stream()
    &&& match expected {
        Ok((trees, next)) => {
            &&& result is Ok
            &&& expression_views(result->Ok_0@) == trees
            &&& after.cursor() == next
            &&& grammar::progressed(before.stream(), before.cursor(), next)
        },
        Err(e) => result == Err::<Vec<Expression>, ParseError>(e),
    }
}

/// What `parse` must give for the tokens `ts`, read from `start` on: the
/// trees of the program, or its first syntax error.
pub open spec fn program_parsed(ts: Seq<TokenView>, start: int, result: Result<Vec<Statement>, ParseError>) -> bool {
    match grammar::program_rest(ts, start, Seq::empty()) {
        Ok(trees) => result is Ok && statement_views(result->Ok_0@) == trees,
        Err(e) => result == Err::<Vec<Statement>, ParseError>(e),
    }
}

/// Parsing is deterministic: whatever `parse` gives for one run of tokens,
/// it gives for every run of the same tokens. Two results are both trees,
/// and then the same trees, or both errors, and then the same error.
pub proof fn law_parse_is_deterministic(
    ts: Seq<TokenView>,
    start: int,
    first: Result<Vec<Statement>, ParseError>,
    second: Result<Vec<Statement>, ParseError>,
)
    requires
        program_parsed(ts, start, first),
        program_parsed(ts, start, second),
    ensures
        first is Ok <==> second is Ok,
        first is Ok ==> statement_views(first->Ok_0@) == statement_views(second->Ok_0@),
        first is Err ==> first->Err_0 == second->Err_0,
{
}

impl Parser {
    /// The tokens that this parser reads, as values.
    pub closed spec fn stream(&self) -> Seq<TokenView> {
        token_views(self.tokens@)
    }

    /// The position of the next token to read.
    pub closed spec fn cursor(&self) -> int {
        self.position as int
    }

    /// A parser at the start of the given tokens.
    pub fn new(tokens: Vec<Token>) -> (parser: Parser)
        ensures
            parser.stream() == token_views(tokens@),
            parser.cursor() == 0,
    {
        Parser { tokens, position: 0 }
    }

    /// Reads declarations up to the end of input. Gives their trees in order,
    /// or the first syntax error; nothing is recovered after an error.
    #[verifier::loop_isolation(false)]
    pub fn parse(&mut self) -> (result: Result<Vec<Statement>, ParseError>)
        ensures
            final(self).stream() == old(self).stream(),
            match grammar::program_rest(old(self).stream(), old(self).cursor(), Seq::empty()) {
                Ok(trees) => result is Ok && statement_views(result->Ok_0@) == trees,
                Err(e) => result == Err::<Vec<Statement>, ParseError>(e),
            },
    {
        proof {
            reveal(grammar::program_rest);
            reveal(grammar::declaration);
        }
        let mut statements: Vec<Statement> = Vec::new();
        proof {
            assert(statement_views(statements@) =~= Seq::<StmtView>::empty());
        }
        while !self.is_at_end()
            invariant
                self.stream() == old(self).stream(),
                grammar::program_rest(old(self).stream(), old(self).cursor(), Seq::empty())
                    == grammar::program_rest(self.stream(), self.cursor(), statement_views(statements@)),
            decreases self.stream().len() - self.cursor(),
        {
            proof {
                reveal(grammar::program_rest);
                reveal(grammar::declaration);
            }
            let ghost done = statement_views(statements@);
            match self.declaration() {
                Ok(statement) => {
                    statements.push(statement);
                    proof {
                        assert(statement_views(statements@) =~= done.push(statement@));
                    }
                },
                Err(e) => {
                    return Err(e);
                },
            }
        }
        Ok(statements)
    }

    fn declaration(&mut self) -> (result: Result<Statement, ParseError>)
        ensures
            statement_parsed(
                *old(self),
                *final(self),
                result,
                grammar::declaration(old(self).stream(), old(self).cursor()),
            ),
        decreases old(self).stream().len() - old(self).cursor(), 42nat,
    {
        proof {
            reveal(grammar::declaration);
            reveal(grammar::variable_declaration);
            reveal(grammar::function_declaration);
            reveal(grammar::statement);
        }
        match self.peek() {
            TokenType::Make => self.declaration_statement(),
            TokenType::Funk => self.function_declaration(),
            _ => self.statement(),
        }
    }

    fn statement(&mut self) -> (result: Result<Statement, ParseError>)
        ensures
            statement_parsed(
                *old(self),
                *final(self),
                result,
                grammar::statement(old(self).stream(), old(self).cursor()),
            ),
        decreases old(self).stream().len() - old(self).cursor(), 41nat,
    {
        proof {
            reveal(grammar::statement);
            reveal(grammar::print_statement);
            reveal(grammar::block);
            reveal(grammar::if_statement);
            reveal(grammar::while_statement);
            reveal(grammar::return_statement);
            reveal(grammar::with_statement);
            reveal(grammar::for_statement);
            reveal(grammar::expression_statement);
        }
        match self.peek() {
            TokenType::Print => self.print_statement(),
            TokenType::LBrace => self.block(),
            TokenType::If => self.if_statement(),
            TokenType::While => self.while_statement(),
            TokenType::Return => self.return_statement(),
            TokenType::With => self.with_statement(),
            TokenType::For => self.for_statement(),
            _ => self.expression_statement(),
        }
    }

    fn for_statement(&mut self) -> (result: Result<Statement, ParseError>)
        ensures
            statement_parsed(
                *old(self),
                *final(self),
                result,
                grammar::for_statement(old(self).stream(), old(self).cursor()),
            ),
        decreases old(self).stream().len() - old(self).cursor(), 40nat,
    {
        proof {
            reveal(grammar::for_statement);
            reveal(grammar::expression);
            reveal(grammar::statement);
        }
        if self.peek() != TokenType::For {
            return Err(self.error(ParseErrorKind::UnexpectedToken));
        }
        self.skip();
        let identifier = match self.advance() {
            Ok(token) => token,
            Err(e) => {
                return Err(e);
            },
        };
        match self.expect(TokenType::In, ParseErrorKind::ExpectedIn) {
            Ok(()) => {},
            Err(e) => {
                return Err(e);
            },
        }
        let iter = match self.expression() {
            Ok(e) => e,
            Err(e) => {
                return Err(e);
            },
        };
        let body = match self.statement() {
            Ok(s) => s,
            Err(e) => {
                return Err(e);
            },
        };
        Ok(Statement::For(Box::new(For { identifier, iter, body })))
    }

    fn with_statement(&mut self) -> (result: Result<Statement, ParseError>)
        ensures
            statement_parsed(
                *old(self),
                *final(self),
                result,
                grammar::with_statement(old(self).stream(), old(self).cursor()),
            ),
        decreases old(self).stream().len() - old(self).cursor(), 40nat,
    {
        proof {
            reveal(grammar::with_statement);
            reveal(grammar::expression);
            reveal(grammar::statement);
        }
        if self.peek() != TokenType::With {
            return Err(self.error(ParseErrorKind::UnexpectedToken));
        }
        self.skip();
        let value = match self.expression() {
            Ok(e) => e,
            Err(e) => {
                return Err(e);
            },
        };
        match self.expect(TokenType::As, ParseErrorKind::ExpectedAs) {
            Ok(()) => {},
            Err(e) => {
                return Err(e);
            },
        }
        let identifier = match self.advance() {
            Ok(token) => token,
            Err(e) => {
                return Err(e);
            },
        };
        let body = match self.statement() {
            Ok(s) => s,
            Err(e) => {
                return Err(e);
            },
        };
        Ok(Statement::With(Box::new(With { value, identifier, body })))
    }

    fn return_statement(&mut self) -> (result: Result<Statement, ParseError>)
        ensures
            statement_parsed(
                *old(self),
                *final(self),
                result,
                grammar::return_statement(old(self).stream(), old(self).cursor()),
            ),
        decreases old(self).stream().len() - old(self).cursor(), 40nat,
    {
        proof {
            reveal(grammar::return_statement);
            reveal(grammar::expression);
        }
        if self.peek() != TokenType::Return {
            return Err(self.error(ParseErrorKind::UnexpectedToken));
        }
        self.skip();
        if self.peek() == TokenType::Semicolon {
            self.skip();
            return Ok(Statement::Return(Box::new(Return { value: None })));
        }
        let value = match self.expression() {
            Ok(e) => e,
            Err(e) => {
                return Err(e);
            },
        };
        match self.expect(TokenType::Semicolon, ParseErrorKind::ExpectedSemicolon) {
            Ok(()) => {},
            Err(e) => {
                return Err(e);
            },
        }
        Ok(Statement::Return(Box::new(Return { value: Some(value) })))
    }

    fn while_statement(&mut self) -> (result: Result<Statement, ParseError>)
        ensures
            statement_parsed(
                *old(self),
                *final(self),
                result,
                grammar::while_statement(old(self).stream(), old(self).cursor()),
            ),
        decreases old(self).stream().len() - old(self).cursor(), 40nat,
    {
        proof {
            reveal(grammar::while_statement);
            reveal(grammar::expression);
            reveal(grammar::statement);
        }
        if self.peek() != TokenType::While {
            return Err(self.error(ParseErrorKind::UnexpectedToken));
        }
        self.skip();
        let condition = match self.expression() {
            Ok(e) => e,
            Err(e) => {
                return Err(e);
            },
        };
        let body = match self.statement() {
            Ok(s) => s,
            Err(e) => {
                return Err(e);
            },
        };
        Ok(Statement::WhileStatement(Box::new(WhileStatement { condition, body })))
    }

    fn if_statement(&mut self) -> (result: Result<Statement, ParseError>)
        ensures
            statement_parsed(
                *old(self),
                *final(self),
                result,
                grammar::if_statement(old(self).stream(), old(self).cursor()),
            ),
        decreases old(self).stream().len() - old(self).cursor(), 40nat,
    {
        proof {
            reveal(grammar::if_statement);
            reveal(grammar::expression);
            reveal(grammar::statement);
        }
        if self.peek() != TokenType::If {
            return Err(self.error(ParseErrorKind::UnexpectedToken));
        }
        self.skip();
        let condition = match self.expression() {
            Ok(e) => e,
            Err(e) => {
                return Err(e);
            },
        };
        let then_branch = match self.statement() {
            Ok(s) => s,
            Err(e) => {
                return Err(e);
            },
        };
        let else_branch = if self.peek() == TokenType::Else {
            self.skip();
            match self.statement() {
                Ok(s) => Some(Box::new(s)),
                Err(e) => {
                    return Err(e);
                },
            }
        } else {
            None
        };
        Ok(
            Statement::IfStatement(
                Box::new(IfStatement { condition, then_branch: Box::new(then_branch), else_branch }),
            ),
        )
    }

    #[verifier::loop_isolation(false)]
    fn block(&mut self) -> (result: Result<Statement, ParseError>)
        ensures
            statement_parsed(
                *old(self),
                *final(self),
                result,
                grammar::block(old(self).stream(), old(self).cursor()),
            ),
        decreases old(self).stream().len() - old(self).cursor(), 40nat,
    {
        proof {
            reveal(grammar::block);
            reveal(grammar::block_rest);
            reveal(grammar::declaration);
        }
        if self.peek() != TokenType::LBrace {
            return Err(self.error(ParseErrorKind::ExpectedLeftBrace));
        }
        self.skip();
        let ghost start = self.cursor();
        let mut statements: Vec<Statement> = Vec::new();
        proof {
            assert(statement_views(statements@) =~= Seq::<StmtView>::empty());
        }
        loop
            invariant
                self.stream() == old(self).stream(),
                start == old(self).cursor() + 1,
                start <= self.cursor() <= self.stream().len(),
                grammar::block_rest(self.stream(), start, Seq::empty()) == grammar::block_rest(
                    self.stream(),
                    self.cursor(),
                    statement_views(statements@),
                ),
            decreases self.stream().len() - self.cursor(),
        {
            proof {
                reveal(grammar::block);
                reveal(grammar::block_rest);
                reveal(grammar::declaration);
            }
            let kind = self.peek();
            if kind == TokenType::RBrace {
                self.skip();
                let node = Statement::Block(Box::new(Block { statements }));
                proof {
                    lemma_block_view(node);
                }
                return Ok(node);
            }
            if kind == TokenType::EOF {
                return Err(self.error(ParseErrorKind::ExpectedRightBrace));
            }
            let ghost done = statement_views(statements@);
            match self.declaration() {
                Ok(statement) => {
                    statements.push(statement);
                    proof {
                        assert(statement_views(statements@) =~= done.push(statement@));
                    }
                },
                Err(e) => {
                    return Err(e);
                },
            }
        }
    }

    fn expression_statement(&mut self) -> (result: Result<Statement, ParseError>)
        ensures
            statement_parsed(
                *old(self),
                *final(self),
                result,
                grammar::expression_statement(old(self).stream(), old(self).cursor()),
            ),
        decreases old(self).stream().len() - old(self).cursor(), 40nat,
    {
        proof {
            reveal(grammar::expression_statement);
            reveal(grammar::expression);
        }
        let expression = match self.expression() {
            Ok(e) => e,
            Err(e) => {
                return Err(e);
            },
        };
        match self.expect(TokenType::Semicolon, ParseErrorKind::ExpectedSemicolon) {
            Ok(()) => {},
            Err(e) => {
                return Err(e);
            },
        }
        Ok(Statement::ExpressionStatement(Box::new(ExpressionStatement { expression })))
    }

    fn print_statement(&mut self) -> (result: Result<Statement, ParseError>)
        ensures
            statement_parsed(
                *old(self),
                *final(self),
                result,
                grammar::print_statement(old(self).stream(), old(self).cursor()),
            ),
        decreases old(self).stream().len() - old(self).cursor(), 40nat,
    {
        proof {
            reveal(grammar::print_statement);
            reveal(grammar::expression);
        }
        if self.peek() != TokenType::Print {
            return Err(self.error(ParseErrorKind::UnexpectedToken));
        }
        self.skip();
        let expression = match self.expression() {
            Ok(e) => e,
            Err(e) => {
                return Err(e);
            },
        };
        match self.expect(TokenType::Semicolon, ParseErrorKind::ExpectedSemicolon) {
            Ok(()) => {},
            Err(e) => {
                return Err(e);
            },
        }
        Ok(Statement::PrintStatement(Box::new(PrintStatement { expression })))
    }

    fn function_declaration(&mut self) -> (result: Result<Statement, ParseError>)
        ensures
            statement_parsed(
                *old(self),
                *final(self),
                result,
                grammar::function_declaration(old(self).stream(), old(self).cursor()),
            ),
        decreases old(self).stream().len() - old(self).cursor(), 41nat,
    {
        proof {
            reveal(grammar::function_declaration);
            reveal(grammar::block);
        }
        if self.peek() != TokenType::Funk {
            return Err(self.error(ParseErrorKind::UnexpectedToken));
        }
        self.skip();
        let identifier = match self.advance() {
            Ok(token) => token,
            Err(e) => {
                return Err(e);
            },
        };
        match self.expect(TokenType::LParen, ParseErrorKind::ExpectedLeftParen) {
            Ok(()) => {},
            Err(e) => {
                return Err(e);
            },
        }
        let parameters = match self.parameters() {
            Ok(names) => names,
            Err(e) => {
                return Err(e);
            },
        };
        let body = match self.block() {
            Ok(s) => s,
            Err(e) => {
                return Err(e);
            },
        };
        Ok(Statement::FunctionDeclaration(Box::new(FunctionDeclaration { identifier, parameters, body })))
    }

    #[verifier::loop_isolation(false)]
    fn parameters(&mut self) -> (result: Result<Vec<Token>, ParseError>)
        ensures
            final(self).stream() == old(self).stream(),
            match grammar::parameters(old(self).stream(), old(self).cursor()) {
                Ok((names, next)) => {
                    &&& result is Ok
                    &&& token_views(result->Ok_0@) == names
                    &&& final(self).cursor() == next
                    &&& grammar::progressed(old(self).stream(), old(self).cursor(), next)
                },
                Err(e) => result == Err::<Vec<Token>, ParseError>(e),
            },
    {
        proof {
            reveal(grammar::parameters_rest);
        }
        let mut names: Vec<Token> = Vec::new();
        if self.peek() == TokenType::RParen {
            self.skip();
            proof {
                assert(token_views(names@) =~= Seq::<TokenView>::empty());
            }
            return Ok(names);
        }
        let first = match self.advance() {
            Ok(token) => token,
            Err(e) => {
                return Err(e);
            },
        };
        names.push(first);
        proof {
            assert(token_views(names@) =~= seq![first@]);
        }
        let ghost start = self.cursor();
        let ghost first_view = first@;
        loop
            invariant
                self.stream() == old(self).stream(),
                old(self).cursor() < start <= self.cursor() <= self.stream().len(),
                grammar::parameters_rest(self.stream(), start, seq![first_view])
                    == grammar::parameters_rest(self.stream(), self.cursor(), token_views(names@)),
            decreases self.stream().len() - self.cursor(),
        {
            proof {
                reveal(grammar::parameters_rest);
            }
            if self.peek() != TokenType::Comma {
                match self.expect(TokenType::RParen, ParseErrorKind::ExpectedRightParen) {
                    Ok(()) => {
                        return Ok(names);
                    },
                    Err(e) => {
                        return Err(e);
                    },
                }
            }
            self.skip();
            let ghost done = token_views(names@);
            match self.advance() {
                Ok(name) => {
                    names.push(name);
                    proof {
                        assert(token_views(names@) =~= done.push(name@));
                    }
                },
                Err(e) => {
                    return Err(e);
                },
            }
        }
    }

    fn declaration_statement(&mut self) -> (result: Result<Statement, ParseError>)
        ensures
            statement_parsed(
                *old(self),
                *final(self),
                result,
                grammar::variable_declaration(old(self).stream(), old(self).cursor()),
            ),
        decreases old(self).stream().len() - old(self).cursor(), 41nat,
    {
        proof {
            reveal(grammar::variable_declaration);
            reveal(grammar::expression);
        }
        if self.peek() != TokenType::Make {
            return Err(self.error(ParseErrorKind::UnexpectedToken));
        }
        self.skip();
        let identifier = match self.advance() {
            Ok(token) => token,
            Err(e) => {
                return Err(e);
            },
        };
        if self.peek() == TokenType::Semicolon {
            self.skip();
            return Ok(
                Statement::VariableDeclaration(Box::new(VariableDeclaration { identifier, expression: None })),
            );
        }
        match self.expect(TokenType::Equal, ParseErrorKind::ExpectedEqual) {
            Ok(()) => {},
            Err(e) => {
                return Err(e);
            },
        }
        let expression = match self.expression() {
            Ok(e) => e,
            Err(e) => {
                return Err(e);
            },
        };
        match self.expect(TokenType::Semicolon, ParseErrorKind::ExpectedSemicolon) {
            Ok(()) => {},
            Err(e) => {
                return Err(e);
            },
        }
        Ok(
            Statement::VariableDeclaration(
                Box::new(VariableDeclaration { identifier, expression: Some(expression) }),
            ),
        )
    }

    fn expression(&mut self) -> (result: Result<Expression, ParseError>)
        ensures
            expression_parsed(
                *old(self),
                *final(self),
                result,
                grammar::expression(old(self).stream(), old(self).cursor()),
            ),
        decreases old(self).stream().len() - old(self).cursor(), 30nat,
    {
        proof {
            reveal(grammar::expression);
            reveal(grammar::assignment);
        }
        self.assignment()
    }

    fn assignment(&mut self) -> (result: Result<Expression, ParseError>)
        ensures
            expression_parsed(
                *old(self),
                *final(self),
                result,
                grammar::assignment(old(self).stream(), old(self).cursor()),
            ),
        decreases old(self).stream().len() - old(self).cursor(), 29nat,
    {
        proof {
            reveal(grammar::assignment);
            reveal(grammar::if_expression);
        }
        let target = match self.if_expression() {
            Ok(e) => e,
            Err(e) => {
                return Err(e);
            },
        };
        if self.peek() != TokenType::Equal {
            return Ok(target);
        }
        let invalid = self.error(ParseErrorKind::InvalidAssignmentTarget);
        self.skip();
        let value = match self.assignment() {
            Ok(e) => e,
            Err(e) => {
                return Err(e);
            },
        };
        match target {
            Expression::Primary(primary) => {
                let primary: Primary = *primary;
                if primary.value.token_type == TokenType::Identifier {
                    Ok(Expression::Assignment(Box::new(Assignment { identifier: primary.value, value })))
                } else {
                    Err(invalid)
                }
            },
            Expression::MapIndex(map_index) => {
                let map_index: MapIndex = *map_index;
                Ok(
                    Expression::MapIndexAssignment(
                        Box::new(MapIndexAssignment { map: map_index.map, key: map_index.key, value }),
                    ),
                )
            },
            Expression::Index(index) => {
                let index: Index = *index;
                Ok(
                    Expression::IndexAssignment(
                        Box::new(
                            IndexAssignment { list: index.list, expression: index.expression, value },
                        ),
                    ),
                )
            },
            _ => Err(invalid),
        }
    }

    fn if_expression(&mut self) -> (result: Result<Expression, ParseError>)
        ensures
            expression_parsed(
                *old(self),
                *final(self),
                result,
                grammar::if_expression(old(self).stream(), old(self).cursor()),
            ),
        decreases old(self).stream().len() - old(self).cursor(), 28nat,
    {
        proof {
            reveal(grammar::if_expression);
            reveal(grammar::if_expression_rest);
            reveal(grammar::binary);
        }
        let mut first = match self.or() {
            Ok(e) => e,
            Err(e) => {
                return Err(e);
            },
        };
        while self.peek() == TokenType::If
            invariant
                self.stream() == old(self).stream(),
                old(self).cursor() < self.cursor() <= self.stream().len(),
                grammar::if_expression(old(self).stream(), old(self).cursor())
                    == grammar::if_expression_rest(self.stream(), self.cursor(), first@),
            decreases self.stream().len() - self.cursor(),
        {
            proof {
                reveal(grammar::if_expression);
                reveal(grammar::if_expression_rest);
                reveal(grammar::binary);
            }
            self.skip();
            let condition = match self.or() {
                Ok(e) => e,
                Err(e) => {
                    return Err(e);
                },
            };
            match self.expect(TokenType::Else, ParseErrorKind::ExpectedElse) {
                Ok(()) => {},
                Err(e) => {
                    return Err(e);
                },
            }
            let else_branch = match self.or() {
                Ok(e) => e,
                Err(e) => {
                    return Err(e);
                },
            };
            first =
            Expression::IfExpression(Box::new(IfExpression { condition, then_branch: first, else_branch }));
        }
        Ok(first)
    }

    #[verifier::loop_isolation(false)]
    fn or(&mut self) -> (result: Result<Expression, ParseError>)
        ensures
            expression_parsed(
                *old(self),
                *final(self),
                result,
                grammar::binary(old(self).stream(), old(self).cursor(), 5),
            ),
        decreases old(self).stream().len() - old(self).cursor(), 26nat,
    {
        proof {
            reveal(grammar::binary);
            reveal(grammar::binary_rest);
        }
        let mut first = match self.and() {
            Ok(e) => e,
            Err(e) => {
                return Err(e);
            },
        };
        let ghost start = self.cursor();
        let ghost head = first@;
        while self.peek() == TokenType::Or
            invariant
                self.stream() == old(self).stream(),
                old(self).cursor() < start <= self.cursor() <= self.stream().len(),
                grammar::binary_rest(self.stream(), start, 5, head) == grammar::binary_rest(
                    self.stream(),
                    self.cursor(),
                    5,
                    first@,
                ),
            decreases self.stream().len() - self.cursor(),
        {
            proof {
                reveal(grammar::binary);
                reveal(grammar::binary_rest);
            }
            self.skip();
            let right = match self.and() {
                Ok(e) => e,
                Err(e) => {
                    return Err(e);
                },
            };
            first = Expression::Or(Box::new(Or { left: first, right }));
        }
        Ok(first)
    }

    #[verifier::loop_isolation(false)]
    fn and(&mut self) -> (result: Result<Expression, ParseError>)
        ensures
            expression_parsed(
                *old(self),
                *final(self),
                result,
                grammar::binary(old(self).stream(), old(self).cursor(), 4),
            ),
        decreases old(self).stream().len() - old(self).cursor(), 25nat,
    {
        proof {
            reveal(grammar::binary);
            reveal(grammar::binary_rest);
        }
        let mut first = match self.equality() {
            Ok(e) => e,
            Err(e) => {
                return Err(e);
            },
        };
        let ghost start = self.cursor();
        let ghost head = first@;
        while self.peek() == TokenType::And
            invariant
                self.stream() == old(self).stream(),
                old(self).cursor() < start <= self.cursor() <= self.stream().len(),
                grammar::binary_rest(self.stream(), start, 4, head) == grammar::binary_rest(
                    self.stream(),
                    self.cursor(),
                    4,
                    first@,
                ),
            decreases self.stream().len() - self.cursor(),
        {
            proof {
                reveal(grammar::binary);
                reveal(grammar::binary_rest);
            }
            self.skip();
            let right = match self.equality() {
                Ok(e) => e,
                Err(e) => {
                    return Err(e);
                },
            };
            first = Expression::And(Box::new(And { left: first, right }));
        }
        Ok(first)
    }

    #[verifier::loop_isolation(false)]
    fn equality(&mut self) -> (result: Result<Expression, ParseError>)
        ensures
            expression_parsed(
                *old(self),
                *final(self),
                result,
                grammar::binary(old(self).stream(), old(self).cursor(), 3),
            ),
        decreases old(self).stream().len() - old(self).cursor(), 24nat,
    {
        proof {
            reveal(grammar::binary);
            reveal(grammar::binary_rest);
        }
        let mut first = match self.comparison() {
            Ok(e) => e,
            Err(e) => {
                return Err(e);
            },
        };
        let ghost start = self.cursor();
        let ghost head = first@;
        while self.peek() == TokenType::BangEqual || self.peek() == TokenType::EqualEqual
            invariant
                self.stream() == old(self).stream(),
                old(self).cursor() < start <= self.cursor() <= self.stream().len(),
                grammar::binary_rest(self.stream(), start, 3, head) == grammar::binary_rest(
                    self.stream(),
                    self.cursor(),
                    3,
                    first@,
                ),
            decreases self.stream().len() - self.cursor(),
        {
            proof {
                reveal(grammar::binary);
                reveal(grammar::binary_rest);
            }
            let operator = match self.advance() {
                Ok(token) => token,
                Err(e) => {
                    return Err(e);
                },
            };
            let second = match self.comparison() {
                Ok(e) => e,
                Err(e) => {
                    return Err(e);
                },
            };
            first = Expression::Equality(Box::new(Equality::new(first, operator, second)));
        }
        Ok(first)
    }

    #[verifier::loop_isolation(false)]
    fn comparison(&mut self) -> (result: Result<Expression, ParseError>)
        ensures
            expression_parsed(
                *old(self),
                *final(self),
                result,
                grammar::binary(old(self).stream(), old(self).cursor(), 2),
            ),
        decreases old(self).stream().len() - old(self).cursor(), 23nat,
    {
        proof {
            reveal(grammar::binary);
            reveal(grammar::binary_rest);
        }
        let mut first = match self.term() {
            Ok(e) => e,
            Err(e) => {
                return Err(e);
            },
        };
        let ghost start = self.cursor();
        let ghost head = first@;
        while self.peek() == TokenType::Greater || self.peek() == TokenType::GreaterEqual || self.peek()
            == TokenType::Less || self.peek() == TokenType::LessEqual
            invariant
                self.stream() == old(self).stream(),
                old(self).cursor() < start <= self.cursor() <= self.stream().len(),
                grammar::binary_rest(self.stream(), start, 2, head) == grammar::binary_rest(
                    self.stream(),
                    self.cursor(),
                    2,
                    first@,
                ),
            decreases self.stream().len() - self.cursor(),
        {
            proof {
                reveal(grammar::binary);
                reveal(grammar::binary_rest);
            }
            let operator = match self.advance() {
                Ok(token) => token,
                Err(e) => {
                    return Err(e);
                },
            };
            let second = match self.term() {
                Ok(e) => e,
                Err(e) => {
                    return Err(e);
                },
            };
            first = Expression::Comparison(Box::new(Comparison::new(first, operator, second)));
        }
        Ok(first)
    }

    #[verifier::loop_isolation(false)]
    fn term(&mut self) -> (result: Result<Expression, ParseError>)
        ensures
            expression_parsed(
                *old(self),
                *final(self),
                result,
                grammar::binary(old(self).stream(), old(self).cursor(), 1),
            ),
        decreases old(self).stream().len() - old(self).cursor(), 22nat,
    {
        proof {
            reveal(grammar::binary);
            reveal(grammar::binary_rest);
        }
        let mut first = match self.factor() {
            Ok(e) => e,
            Err(e) => {
                return Err(e);
            },
        };
        let ghost start = self.cursor();
        let ghost head = first@;
        while self.peek() == TokenType::Minus || self.peek() == TokenType::Plus
            invariant
                self.stream() == old(self).stream(),
                old(self).cursor() < start <= self.cursor() <= self.stream().len(),
                grammar::binary_rest(self.stream(), start, 1, head) == grammar::binary_rest(
                    self.stream(),
                    self.cursor(),
                    1,
                    first@,
                ),
            decreases self.stream().len() - self.cursor(),
        {
            proof {
                reveal(grammar::binary);
                reveal(grammar::binary_rest);
            }
            let operator = match self.advance() {
                Ok(token) => token,
                Err(e) => {
                    return Err(e);
                },
            };
            let second = match self.factor() {
                Ok(e) => e,
                Err(e) => {
                    return Err(e);
                },
            };
            first = Expression::Term(Box::new(Term::new(first, operator, second)));
        }
        Ok(first)
    }

    #[verifier::loop_isolation(false)]
    fn factor(&mut self) -> (result: Result<Expression, ParseError>)
        ensures
            expression_parsed(
                *old(self),
                *final(self),
                result,
                grammar::binary(old(self).stream(), old(self).cursor(), 0),
            ),
        decreases old(self).stream().len() - old(self).cursor(), 21nat,
    {
        proof {
            reveal(grammar::binary);
            reveal(grammar::binary_rest);
            reveal(grammar::unary);
        }
        let mut first = match self.unary() {
            Ok(e) => e,
            Err(e) => {
                return Err(e);
            },
        };
        let ghost start = self.cursor();
        let ghost head = first@;
        while self.peek() == TokenType::Slash || self.peek() == TokenType::Star
            invariant
                self.stream() == old(self).stream(),
                old(self).cursor() < start <= self.cursor() <= self.stream().len(),
                grammar::binary_rest(self.stream(), start, 0, head) == grammar::binary_rest(
                    self.stream(),
                    self.cursor(),
                    0,
                    first@,
                ),
            decreases self.stream().len() - self.cursor(),
        {
            proof {
                reveal(grammar::binary);
                reveal(grammar::binary_rest);
                reveal(grammar::unary);
            }
            let operator = match self.advance() {
                Ok(token) => token,
                Err(e) => {
                    return Err(e);
                },
            };
            let second = match self.unary() {
                Ok(e) => e,
                Err(e) => {
                    return Err(e);
                },
            };
            first = Expression::Factor(Box::new(Factor::new(first, operator, second)));
        }
        Ok(first)
    }

    fn unary(&mut self) -> (result: Result<Expression, ParseError>)
        ensures
            expression_parsed(
                *old(self),
                *final(self),
                result,
                grammar::unary(old(self).stream(), old(self).cursor()),
            ),
        decreases old(self).stream().len() - old(self).cursor(), 20nat,
    {
        proof {
            reveal(grammar::unary);
            reveal(grammar::call);
        }
        if self.peek() == TokenType::Bang || self.peek() == TokenType::Minus {
            let operator = match self.advance() {
                Ok(token) => token,
                Err(e) => {
                    return Err(e);
                },
            };
            let right = match self.unary() {
                Ok(e) => e,
                Err(e) => {
                    return Err(e);
                },
            };
            Ok(Expression::Unary(Box::new(Unary::new(operator, right))))
        } else {
            self.call()
        }
    }

    fn call(&mut self) -> (result: Result<Expression, ParseError>)
        ensures
            expression_parsed(
                *old(self),
                *final(self),
                result,
                grammar::call(old(self).stream(), old(self).cursor()),
            ),
        decreases old(self).stream().len() - old(self).cursor(), 19nat,
    {
        proof {
            reveal(grammar::call);
            reveal(grammar::primary);
            reveal(grammar::call_rest);
        }
        match self.primary() {
            Ok(callee) => self.postfix(callee),
            Err(e) => Err(e),
        }
    }

    /// The calls, indexings and field accesses that follow `callee`.
    fn postfix(&mut self, callee: Expression) -> (result: Result<Expression, ParseError>)
        requires
            old(self).cursor() <= old(self).stream().len(),
        ensures
            expression_continued(
                *old(self),
                *final(self),
                result,
                grammar::call_rest(old(self).stream(), old(self).cursor(), callee@),
            ),
        decreases old(self).stream().len() - old(self).cursor(), 60nat,
    {
        let mut identifier = callee;
        loop
            invariant
                self.stream() == old(self).stream(),
                old(self).cursor() <= self.cursor() <= self.stream().len(),
                grammar::call_rest(old(self).stream(), old(self).cursor(), callee@) == grammar::call_rest(
                    self.stream(),
                    self.cursor(),
                    identifier@,
                ),
            decreases self.stream().len() - self.cursor(),
        {
            proof {
                reveal(grammar::call_rest);
            }
            match self.peek() {
                TokenType::LParen => {
                    proof {
                        reveal(grammar::arguments);
                    }
                    self.skip();
                    let arguments = match self.arguments() {
                        Ok(list) => list,
                        Err(e) => {
                            return Err(e);
                        },
                    };
                    let node = Expression::Call(Box::new(Call { identifier, arguments }));
                    proof {
                        lemma_element_views(node);
                    }
                    identifier = node;
                },
                TokenType::LBracket => {
                    proof {
                        reveal(grammar::expression);
                    }
                    self.skip();
                    let expression = match self.expression() {
                        Ok(e) => e,
                        Err(e) => {
                            return Err(e);
                        },
                    };
                    match self.expect(TokenType::RBracket, ParseErrorKind::ExpectedRightBracket) {
                        Ok(()) => {},
                        Err(e) => {
                            return Err(e);
                        },
                    }
                    identifier = Expression::Index(Box::new(Index { list: identifier, expression }));
                },
                TokenType::Dot => {
                    self.skip();
                    let key = match self.advance() {
                        Ok(token) => token,
                        Err(e) => {
                            return Err(e);
                        },
                    };
                    identifier = Expression::MapIndex(Box::new(MapIndex { map: identifier, key }));
                },
                _ => {
                    return Ok(identifier);
                },
            }
        }
    }

    fn arguments(&mut self) -> (result: Result<Vec<Expression>, ParseError>)
        ensures
            expressions_parsed(
                *old(self),
                *final(self),
                result,
                grammar::arguments(old(self).stream(), old(self).cursor()),
            ),
        decreases old(self).stream().len() - old(self).cursor(), 40nat,
    {
        proof {
            reveal(grammar::arguments);
            reveal(grammar::expression);
            reveal(grammar::elements_rest);
        }
        if self.peek() == TokenType::RParen {
            self.skip();
            let arguments: Vec<Expression> = Vec::new();
            proof {
                assert(expression_views(arguments@) =~= Seq::<ExprView>::empty());
            }
            return Ok(arguments);
        }
        let first = match self.expression() {
            Ok(e) => e,
            Err(e) => {
                return Err(e);
            },
        };
        self.elements(first, TokenType::RParen, ParseErrorKind::ExpectedRightParen)
    }

    /// The expressions that follow `first`, each behind a comma, up to and
    /// with the closing token.
    #[verifier::loop_isolation(false)]
    fn elements(&mut self, first: Expression, close: TokenType, missing: ParseErrorKind) -> (result: Result<
        Vec<Expression>,
        ParseError,
    >)
        requires
            old(self).cursor() <= old(self).stream().len(),
        ensures
            expressions_parsed(
                *old(self),
                *final(self),
                result,
                grammar::elements_rest(old(self).stream(), old(self).cursor(), seq![first@], close, missing),
            ),
        decreases old(self).stream().len() - old(self).cursor(), 60nat,
    {
        proof {
            reveal(grammar::elements_rest);
            reveal(grammar::expression);
        }
        let mut values: Vec<Expression> = Vec::new();
        values.push(first);
        proof {
            assert(expression_views(values@) =~= seq![first@]);
        }
        loop
            invariant
                self.stream() == old(self).stream(),
                old(self).cursor() <= self.cursor() <= self.stream().len(),
                grammar::elements_rest(old(self).stream(), old(self).cursor(), seq![first@], close, missing)
                    == grammar::elements_rest(
                    self.stream(),
                    self.cursor(),
                    expression_views(values@),
                    close,
                    missing,
                ),
            decreases self.stream().len() - self.cursor(),
        {
            proof {
                reveal(grammar::elements_rest);
                reveal(grammar::expression);
            }
            if self.peek() != TokenType::Comma {
                match self.expect(close, missing) {
                    Ok(()) => {
                        return Ok(values);
                    },
                    Err(e) => {
                        return Err(e);
                    },
                }
            }
            self.skip();
            let ghost done = expression_views(values@);
            match self.expression() {
                Ok(next) => {
                    values.push(next);
                    proof {
                        assert(expression_views(values@) =~= done.push(next@));
                    }
                },
                Err(e) => {
                    return Err(e);
                },
            }
        }
    }

    fn primary(&mut self) -> (result: Result<Expression, ParseError>)
        ensures
            expression_parsed(
                *old(self),
                *final(self),
                result,
                grammar::primary(old(self).stream(), old(self).cursor()),
            ),
        decreases old(self).stream().len() - old(self).cursor(), 18nat,
    {
        proof {
            reveal(grammar::primary);
            reveal(grammar::list);
            reveal(grammar::record);
            reveal(grammar::expression);
        }
        match self.peek() {
            TokenType::Number | TokenType::String | TokenType::Boolean | TokenType::Nil | TokenType::Identifier => {
                match self.advance() {
                    Ok(value) => Ok(Expression::Primary(Box::new(Primary::new(value)))),
                    Err(e) => Err(e),
                }
            },
            TokenType::LBracket => self.list(),
            TokenType::LBrace => self.record(),
            TokenType::LParen => {
                self.skip();
                let expression = match self.expression() {
                    Ok(e) => e,
                    Err(e) => {
                        return Err(e);
                    },
                };
                match self.expect(TokenType::RParen, ParseErrorKind::ExpectedRightParen) {
                    Ok(()) => {},
                    Err(e) => {
                        return Err(e);
                    },
                }
                Ok(expression)
            },
            _ => Err(self.error(ParseErrorKind::UnexpectedToken)),
        }
    }

    #[verifier::loop_isolation(false)]
    fn record(&mut self) -> (result: Result<Expression, ParseError>)
        ensures
            expression_parsed(
                *old(self),
                *final(self),
                result,
                grammar::record(old(self).stream(), old(self).cursor()),
            ),
        decreases old(self).stream().len() - old(self).cursor(), 17nat,
    {
        proof {
            reveal(grammar::record);
            reveal(grammar::record_rest);
            reveal(grammar::expression);
        }
        if self.peek() != TokenType::LBrace {
            return Err(self.error(ParseErrorKind::ExpectedLeftBrace));
        }
        self.skip();
        let ghost start = self.cursor();
        let mut key_values: Vec<(Token, Expression)> = Vec::new();
        proof {
            assert(entry_views(key_values@) =~= Seq::<(TokenView, ExprView)>::empty());
        }
        loop
            invariant
                self.stream() == old(self).stream(),
                start == old(self).cursor() + 1,
                start <= self.cursor() <= self.stream().len(),
                grammar::record_rest(self.stream(), start, Seq::empty()) == grammar::record_rest(
                    self.stream(),
                    self.cursor(),
                    entry_views(key_values@),
                ),
            decreases self.stream().len() - self.cursor(),
        {
            proof {
                reveal(grammar::record);
                reveal(grammar::record_rest);
                reveal(grammar::expression);
            }
            if self.peek() == TokenType::RBrace {
                self.skip();
                let node = Expression::Record(Box::new(Record { key_values }));
                proof {
                    lemma_element_views(node);
                }
                return Ok(node);
            }
            let key = match self.advance() {
                Ok(token) => token,
                Err(e) => {
                    return Err(e);
                },
            };
            match self.expect(TokenType::Colon, ParseErrorKind::ExpectedColon) {
                Ok(()) => {},
                Err(e) => {
                    return Err(e);
                },
            }
            let value = match self.expression() {
                Ok(e) => e,
                Err(e) => {
                    return Err(e);
                },
            };
            match self.expect(TokenType::Comma, ParseErrorKind::ExpectedComma) {
                Ok(()) => {},
                Err(e) => {
                    return Err(e);
                },
            }
            let ghost done = entry_views(key_values@);
            let ghost entry = (key@, value@);
            key_values.push((key, value));
            proof {
                assert(entry_views(key_values@) =~= done.push(entry));
            }
        }
    }

    fn list(&mut self) -> (result: Result<Expression, ParseError>)
        ensures
            expression_parsed(
                *old(self),
                *final(self),
                result,
                grammar::list(old(self).stream(), old(self).cursor()),
            ),
        decreases old(self).stream().len() - old(self).cursor(), 17nat,
    {
        proof {
            reveal(grammar::list);
            reveal(grammar::expression);
            reveal(grammar::elements_rest);
        }
        if self.peek() != TokenType::LBracket {
            return Err(self.error(ParseErrorKind::UnexpectedToken));
        }
        self.skip();
        if self.peek() == TokenType::RBracket {
            self.skip();
            let values: Vec<Expression> = Vec::new();
            let node = Expression::List(Box::new(List { values }));
            proof {
                lemma_element_views(node);
                assert(expression_views(Seq::<Expression>::empty()) =~= Seq::<ExprView>::empty());
            }
            return Ok(node);
        }
        let first = match self.expression() {
            Ok(e) => e,
            Err(e) => {
                return Err(e);
            },
        };
        let values = match self.elements(first, TokenType::RBracket, ParseErrorKind::ExpectedRightBracket) {
            Ok(values) => values,
            Err(e) => {
                return Err(e);
            },
        };
        let node = Expression::List(Box::new(List { values }));
        proof {
            lemma_element_views(node);
        }
        Ok(node)
    }

    /// Takes the next token, whatever its kind.
    fn advance(&mut self) -> (result: Result<Token, ParseError>)
        ensures
            final(self).stream() == old(self).stream(),
            match grammar::take(old(self).stream(), old(self).cursor()) {
                Ok((token, next)) => {
                    &&& result is Ok
                    &&& result->Ok_0@ == token
                    &&& final(self).cursor() == next
                },
                Err(e) => result == Err::<Token, ParseError>(e) && final(self).cursor() == old(self).cursor(),
            },
    {
        if self.position < self.tokens.len() {
            let token = self.tokens[self.position].duplicate();
            self.position = self.position + 1;
            Ok(token)
        } else {
            Err(self.error(ParseErrorKind::UnexpectedEndOfInput))
        }
    }

    /// Steps over the next token.
    fn skip(&mut self)
        requires
            old(self).cursor() < old(self).stream().len(),
        ensures
            final(self).stream() == old(self).stream(),
            final(self).cursor() == old(self).cursor() + 1,
    {
        if self.position < self.tokens.len() {
            self.position = self.position + 1;
        }
    }

    /// Steps over the next token if it has the given kind.
    fn expect(&mut self, kind: TokenType, missing: ParseErrorKind) -> (result: Result<(), ParseError>)
        ensures
            final(self).stream() == old(self).stream(),
            match grammar::expect(old(self).stream(), old(self).cursor(), kind, missing) {
                Ok(next) => result is Ok && final(self).cursor() == next,
                Err(e) => result == Err::<(), ParseError>(e) && final(self).cursor() == old(self).cursor(),
            },
    {
        if self.position < self.tokens.len() && self.tokens[self.position].token_type == kind {
            self.position = self.position + 1;
            Ok(())
        } else {
            Err(self.error(missing))
        }
    }

    /// The kind of the next token; `EOF` behind the last one.
    fn peek(&self) -> (kind: TokenType)
        ensures
            kind == grammar::kind_at(self.stream(), self.cursor()),
            kind != TokenType::EOF ==> self.cursor() < self.stream().len(),
    {
        if self.position < self.tokens.len() {
            self.tokens[self.position].token_type
        } else {
            TokenType::EOF
        }
    }

    /// The error of the given kind at the next token.
    fn error(&self, kind: ParseErrorKind) -> (e: ParseError)
        ensures
            e == grammar::error_at(self.stream(), self.cursor(), kind),
    {
        let line = if self.position < self.tokens.len() {
            self.tokens[self.position].line
        } else if self.tokens.len() > 0 {
            self.tokens[self.tokens.len() - 1].line
        } else {
            0
        };
        ParseError { kind, found: self.peek(), line }
    }

    fn is_at_end(&self) -> (at_end: bool)
        ensures
            at_end == (grammar::kind_at(self.stream(), self.cursor()) == TokenType::EOF),
    {
        self.peek() == TokenType::EOF
    }
}

} // verus!
