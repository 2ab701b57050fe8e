use vstd::prelude::*;
use crate::parser::expression::{ExprView, Expression};
use crate::token::{Token, TokenView, token_views};

verus! {

/// An expression evaluated for its effect.
#[derive(Debug, PartialEq)]
pub struct ExpressionStatement {
    pub expression: Expression,
}

/// `print expression;`.
#[derive(Debug, PartialEq)]
pub struct PrintStatement {
    pub expression: Expression,
}

/// `make identifier;` or `make identifier = expression;`.
#[derive(Debug, PartialEq)]
pub struct VariableDeclaration {
    pub identifier: Token,
    pub expression: Option<Expression>,
}

/// `{ statements }`; the statements run in a scope of their own.
#[derive(Debug, PartialEq)]
pub struct Block {
    pub statements: Vec<Statement>,
}

/// `if condition then_branch` with an optional `else else_branch`.
#[derive(Debug, PartialEq)]
pub struct IfStatement {
    pub condition: Expression,
    pub then_branch: Box<Statement>,
    pub else_branch: Option<Box<Statement>>,
}

/// `while condition body`.
#[derive(Debug, PartialEq)]
pub struct WhileStatement {
    pub condition: Expression,
    pub body: Statement,
}

/// `funk identifier(parameters) body`.
#[derive(Debug, PartialEq)]
pub struct FunctionDeclaration {
    pub identifier: Token,
    pub parameters: Vec<Token>,
    pub body: Statement,
}

/// `return;` or `return value;`.
#[derive(Debug, PartialEq)]
pub struct Return {
    pub value: Option<Expression>,
}

/// `with value as identifier body`: the body runs once with one name bound.
#[derive(Debug, PartialEq)]
pub struct With {
    pub value: Expression,
    pub identifier: Token,
    pub body: Statement,
}

/// `for identifier in iter body`: the body runs once for each element.
#[derive(Debug, PartialEq)]
pub struct For {
    pub identifier: Token,
    pub iter: Expression,
    pub body: Statement,
}

/// A statement: each variant owns its parts.
#[derive(Debug, PartialEq)]
pub enum Statement {
    ExpressionStatement(Box<ExpressionStatement>),
    PrintStatement(Box<PrintStatement>),
    VariableDeclaration(Box<VariableDeclaration>),
    Block(Box<Block>),
    IfStatement(Box<IfStatement>),
    WhileStatement(Box<WhileStatement>),
    FunctionDeclaration(Box<FunctionDeclaration>),
    Return(Box<Return>),
    With(Box<With>),
    For(Box<For>),
}

/// The mathematical value of a [`Statement`].
#[allow(inconsistent_fields)]
pub enum StmtView {
    ExpressionStatement { expression: ExprView },
    PrintStatement { expression: ExprView },
    VariableDeclaration { identifier: TokenView, expression: Option<ExprView> },
    Block { statements: Seq<StmtView> },
    IfStatement { condition: ExprView, then_branch: Box<StmtView>, else_branch: Option<Box<StmtView>> },
    WhileStatement { condition: ExprView, body: Box<StmtView> },
    FunctionDeclaration { identifier: TokenView, parameters: Seq<TokenView>, body: Box<StmtView> },
    Return { value: Option<ExprView> },
    With { value: ExprView, identifier: TokenView, body: Box<StmtView> },
    For { identifier: TokenView, iter: ExprView, body: Box<StmtView> },
}

impl View for Statement {
    type V = StmtView;

    open spec fn view(&self) -> StmtView {
        stmt_view(*self)
    }
}

/// The view of an optional expression.
pub open spec fn optional_expr_view(e: Option<Expression>) -> Option<ExprView> {
    match e {
        Some(e) => Some(e@),
        None => None,
    }
}

/// The tree that a statement stands for.
pub open spec fn stmt_view(s: Statement) -> StmtView
    decreases s, 0nat,
{
    match s {
        Statement::ExpressionStatement(n) => StmtView::ExpressionStatement { expression: n.expression@ },
        Statement::PrintStatement(n) => StmtView::PrintStatement { expression: n.expression@ },
        Statement::VariableDeclaration(n) => StmtView::VariableDeclaration {
            identifier: n.identifier@,
            expression: optional_expr_view(n.expression),
        },
        Statement::Block(n) => StmtView::Block { statements: stmt_views_from(n.statements@, 0) },
        Statement::IfStatement(n) => StmtView::IfStatement {
            condition: n.condition@,
            then_branch: Box::new(stmt_view(*n.then_branch)),
            else_branch: match n.else_branch {
                Some(s) => Some(Box::new(stmt_view(*s))),
                None => None,
            },
        },
        Statement::WhileStatement(n) => StmtView::WhileStatement {
            condition: n.condition@,
            body: Box::new(stmt_view(n.body)),
        },
        Statement::FunctionDeclaration(n) => StmtView::FunctionDeclaration {
            identifier: n.identifier@,
            parameters: token_views(n.parameters@),
            body: Box::new(stmt_view(n.body)),
        },
        Statement::Return(n) => StmtView::Return { value: optional_expr_view(n.value) },
        Statement::With(n) => StmtView::With {
            value: n.value@,
            identifier: n.identifier@,
            body: Box::new(stmt_view(n.body)),
        },
        Statement::For(n) => StmtView::For {
            identifier: n.identifier@,
            iter: n.iter@,
            body: Box::new(stmt_view(n.body)),
        },
    }
}

/// The trees of the statements from position `i` on.
pub open spec fn stmt_views_from(ss: Seq<Statement>, i: int) -> Seq<StmtView>
    decreases ss, ss.len() - i,
{
    if 0 <= i < ss.len() {
        seq![stmt_view(ss[i])] + stmt_views_from(ss, i + 1)
    } else {
        Seq::empty()
    }
}

/// The views of a run of statements, in order.
pub open spec fn statement_views(statements: Seq<Statement>) -> Seq<StmtView> {
    Seq::new(statements.len(), |i: int| statements[i]@)
}

proof fn lemma_stmt_views_from(ss: Seq<Statement>, i: int)
    requires
        0 <= i <= ss.len(),
    ensures
        stmt_views_from(ss, i) == statement_views(ss).subrange(i, ss.len() as int),
    decreases ss.len() - i,
{
    if i < ss.len() {
        lemma_stmt_views_from(ss, i + 1);
        assert(stmt_views_from(ss, i) =~= statement_views(ss).subrange(i, ss.len() as int));
    } else {
        assert(stmt_views_from(ss, i) =~= statement_views(ss).subrange(i, ss.len() as int));
    }
}

/// The view of a block holds the views of its statements.
pub proof fn lemma_block_view(s: Statement)
    ensures
        s matches Statement::Block(n) ==> s@ == (StmtView::Block {
            statements: statement_views(n.statements@),
        }),
{
    match s {
        Statement::Block(n) => {
            lemma_stmt_views_from(n.statements@, 0);
            assert(statement_views(n.statements@).subrange(0, n.statements@.len() as int)
                =~= statement_views(n.statements@));
        },
        _ => {},
    }
}

impl View for ExpressionStatement {
    type V = StmtView;

    open spec fn view(&self) -> StmtView {
        StmtView::ExpressionStatement { expression: self.expression@ }
    }
}

impl View for PrintStatement {
    type V = StmtView;

    open spec fn view(&self) -> StmtView {
        StmtView::PrintStatement { expression: self.expression@ }
    }
}

impl View for VariableDeclaration {
    type V = StmtView;

    open spec fn view(&self) -> StmtView {
        StmtView::VariableDeclaration {
            identifier: self.identifier@,
            expression: optional_expr_view(self.expression),
        }
    }
}

impl View for Block {
    type V = StmtView;

    open spec fn view(&self) -> StmtView {
        StmtView::Block { statements: statement_views(self.statements@) }
    }
}

impl View for IfStatement {
    type V = StmtView;

    open spec fn view(&self) -> StmtView {
        StmtView::IfStatement {
            condition: self.condition@,
            then_branch: Box::new((*self.then_branch)@),
            else_branch: match self.else_branch {
                Some(s) => Some(Box::new((*s)@)),
                None => None,
            },
        }
    }
}

impl View for WhileStatement {
    type V = StmtView;

    open spec fn view(&self) -> StmtView {
        StmtView::WhileStatement { condition: self.condition@, body: Box::new(self.body@) }
    }
}

impl View for FunctionDeclaration {
    type V = StmtView;

    open spec fn view(&self) -> StmtView {
        StmtView::FunctionDeclaration {
            identifier: self.identifier@,
            parameters: token_views(self.parameters@),
            body: Box::new(self.body@),
        }
    }
}

impl View for Return {
    type V = StmtView;

    open spec fn view(&self) -> StmtView {
        StmtView::Return { value: optional_expr_view(self.value) }
    }
}

impl View for With {
    type V = StmtView;

    open spec fn view(&self) -> StmtView {
        StmtView::With { value: self.value@, identifier: self.identifier@, body: Box::new(self.body@) }
    }
}

impl View for For {
    type V = StmtView;

    open spec fn view(&self) -> StmtView {
        StmtView::For { identifier: self.identifier@, iter: self.iter@, body: Box::new(self.body@) }
    }
}

/// The view of a statement is the view of the node it holds.
pub proof fn lemma_statement_node_view(s: Statement)
    ensures
        s matches Statement::ExpressionStatement(n) ==> s@ == n@,
        s matches Statement::PrintStatement(n) ==> s@ == n@,
        s matches Statement::VariableDeclaration(n) ==> s@ == n@,
        s matches Statement::Block(n) ==> s@ == n@,
        s matches Statement::IfStatement(n) ==> s@ == n@,
        s matches Statement::WhileStatement(n) ==> s@ == n@,
        s matches Statement::FunctionDeclaration(n) ==> s@ == n@,
        s matches Statement::Return(n) ==> s@ == n@,
        s matches Statement::With(n) ==> s@ == n@,
        s matches Statement::For(n) ==> s@ == n@,
{
    lemma_block_view(s);
}

} // verus!
