use vstd::prelude::*;
use crate::token::{Token, TokenView};

verus! {

/// `left == right` or `left != right`.
#[derive(Debug, PartialEq)]
pub struct Equality {
    pub left: Expression,
    pub operator: Token,
    pub right: Expression,
}

/// `left < right` and the other three relations.
#[derive(Debug, PartialEq)]
pub struct Comparison {
    pub left: Expression,
    pub operator: Token,
    pub right: Expression,
}

/// `left + right` or `left - right`.
#[derive(Debug, PartialEq)]
pub struct Term {
    pub left: Expression,
    pub operator: Token,
    pub right: Expression,
}

/// `left * right` or `left / right`.
#[derive(Debug, PartialEq)]
pub struct Factor {
    pub left: Expression,
    pub operator: Token,
    pub right: Expression,
}

/// `!right` or `-right`.
#[derive(Debug, PartialEq)]
pub struct Unary {
    pub operator: Token,
    pub right: Expression,
}

/// A literal or an identifier.
#[derive(Debug, PartialEq)]
pub struct Primary {
    pub value: Token,
}

/// `left and right`; the right operand is evaluated only if the left is not false.
#[derive(Debug, PartialEq)]
pub struct And {
    pub left: Expression,
    pub right: Expression,
}

/// `left or right`; the right operand is evaluated only if the left is not true.
#[derive(Debug, PartialEq)]
pub struct Or {
    pub left: Expression,
    pub right: Expression,
}

/// `identifier = value`.
#[derive(Debug, PartialEq)]
pub struct Assignment {
    pub identifier: Token,
    pub value: Expression,
}

/// `list[expression] = value`.
#[derive(Debug, PartialEq)]
pub struct IndexAssignment {
    pub list: Expression,
    pub expression: Expression,
    pub value: Expression,
}

/// `map.key = value`.
#[derive(Debug, PartialEq)]
pub struct MapIndexAssignment {
    pub map: Expression,
    pub key: Token,
    pub value: Expression,
}

/// `then_branch if condition else else_branch`.
#[derive(Debug, PartialEq)]
pub struct IfExpression {
    pub condition: Expression,
    pub then_branch: Expression,
    pub else_branch: Expression,
}

/// `identifier(arguments)`.
#[derive(Debug, PartialEq)]
pub struct Call {
    pub identifier: Expression,
    pub arguments: Vec<Expression>,
}

/// `[values]`.
#[derive(Debug, PartialEq)]
pub struct List {
    pub values: Vec<Expression>,
}

/// `{key: value, ...}`.
#[derive(Debug, PartialEq)]
pub struct Record {
    pub key_values: Vec<(Token, Expression)>,
}

/// `list[expression]`.
#[derive(Debug, PartialEq)]
pub struct Index {
    pub list: Expression,
    pub expression: Expression,
}

/// `map.key`.
#[derive(Debug, PartialEq)]
pub struct MapIndex {
    pub map: Expression,
    pub key: Token,
}

/// An expression: each variant owns its operands.
#[derive(Debug, PartialEq)]
pub enum Expression {
    Equality(Box<Equality>),
    Assignment(Box<Assignment>),
    IfExpression(Box<IfExpression>),
    Comparison(Box<Comparison>),
    Term(Box<Term>),
    Factor(Box<Factor>),
    Unary(Box<Unary>),
    Primary(Box<Primary>),
    Or(Box<Or>),
    And(Box<And>),
    Call(Box<Call>),
    List(Box<List>),
    Index(Box<Index>),
    Record(Box<Record>),
    MapIndex(Box<MapIndex>),
    MapIndexAssignment(Box<MapIndexAssignment>),
    IndexAssignment(Box<IndexAssignment>),
}

/// The mathematical value of an [`Expression`]: a tree over token views and
/// sequences.
#[allow(inconsistent_fields)]
pub enum ExprView {
    Equality { left: Box<ExprView>, operator: TokenView, right: Box<ExprView> },
    Assignment { identifier: TokenView, value: Box<ExprView> },
    IfExpression { condition: Box<ExprView>, then_branch: Box<ExprView>, else_branch: Box<ExprView> },
    Comparison { left: Box<ExprView>, operator: TokenView, right: Box<ExprView> },
    Term { left: Box<ExprView>, operator: TokenView, right: Box<ExprView> },
    Factor { left: Box<ExprView>, operator: TokenView, right: Box<ExprView> },
    Unary { operator: TokenView, right: Box<ExprView> },
    Primary { value: TokenView },
    Or { left: Box<ExprView>, right: Box<ExprView> },
    And { left: Box<ExprView>, right: Box<ExprView> },
    Call { identifier: Box<ExprView>, arguments: Seq<ExprView> },
    List { values: Seq<ExprView> },
    Index { list: Box<ExprView>, expression: Box<ExprView> },
    Record { key_values: Seq<(TokenView, ExprView)> },
    MapIndex { map: Box<ExprView>, key: TokenView },
    MapIndexAssignment { map: Box<ExprView>, key: TokenView, value: Box<ExprView> },
    IndexAssignment { list: Box<ExprView>, expression: Box<ExprView>, value: Box<ExprView> },
}

impl View for Expression {
    type V = ExprView;

    open spec fn view(&self) -> ExprView {
        expr_view(*self)
    }
}

/// The tree that an expression stands for.
pub open spec fn expr_view(e: Expression) -> ExprView
    decreases e, 0nat,
{
    match e {
        Expression::Equality(n) => ExprView::Equality {
            left: Box::new(expr_view(n.left)),
            operator: n.operator@,
            right: Box::new(expr_view(n.right)),
        },
        Expression::Assignment(n) => ExprView::Assignment {
            identifier: n.identifier@,
            value: Box::new(expr_view(n.value)),
        },
        Expression::IfExpression(n) => ExprView::IfExpression {
            condition: Box::new(expr_view(n.condition)),
            then_branch: Box::new(expr_view(n.then_branch)),
            else_branch: Box::new(expr_view(n.else_branch)),
        },
        Expression::Comparison(n) => ExprView::Comparison {
            left: Box::new(expr_view(n.left)),
            operator: n.operator@,
            right: Box::new(expr_view(n.right)),
        },
        Expression::Term(n) => ExprView::Term {
            left: Box::new(expr_view(n.left)),
            operator: n.operator@,
            right: Box::new(expr_view(n.right)),
        },
        Expression::Factor(n) => ExprView::Factor {
            left: Box::new(expr_view(n.left)),
            operator: n.operator@,
            right: Box::new(expr_view(n.right)),
        },
        Expression::Unary(n) => ExprView::Unary {
            operator: n.operator@,
            right: Box::new(expr_view(n.right)),
        },
        Expression::Primary(n) => ExprView::Primary { value: n.value@ },
        Expression::Or(n) => ExprView::Or {
            left: Box::new(expr_view(n.left)),
            right: Box::new(expr_view(n.right)),
        },
        Expression::And(n) => ExprView::And {
            left: Box::new(expr_view(n.left)),
            right: Box::new(expr_view(n.right)),
        },
        Expression::Call(n) => ExprView::Call {
            identifier: Box::new(expr_view(n.identifier)),
            arguments: expr_views_from(n.arguments@, 0),
        },
        Expression::List(n) => ExprView::List { values: expr_views_from(n.values@, 0) },
        Expression::Index(n) => ExprView::Index {
            list: Box::new(expr_view(n.list)),
            expression: Box::new(expr_view(n.expression)),
        },
        Expression::Record(n) => ExprView::Record { key_values: entry_views_from(n.key_values@, 0) },
        Expression::MapIndex(n) => ExprView::MapIndex { map: Box::new(expr_view(n.map)), key: n.key@ },
        Expression::MapIndexAssignment(n) => ExprView::MapIndexAssignment {
            map: Box::new(expr_view(n.map)),
            key: n.key@,
            value: Box::new(expr_view(n.value)),
        },
        Expression::IndexAssignment(n) => ExprView::IndexAssignment {
            list: Box::new(expr_view(n.list)),
            expression: Box::new(expr_view(n.expression)),
            value: Box::new(expr_view(n.value)),
        },
    }
}

/// The trees of the expressions from position `i` on.
pub open spec fn expr_views_from(es: Seq<Expression>, i: int) -> Seq<ExprView>
    decreases es, es.len() - i,
{
    if 0 <= i < es.len() {
        seq![expr_view(es[i])] + expr_views_from(es, i + 1)
    } else {
        Seq::empty()
    }
}

/// The keys and trees of the record entries from position `i` on.
pub open spec fn entry_views_from(es: Seq<(Token, Expression)>, i: int) -> Seq<(TokenView, ExprView)>
    decreases es, es.len() - i,
{
    if 0 <= i < es.len() {
        seq![(es[i].0@, expr_view(es[i].1))] + entry_views_from(es, i + 1)
    } else {
        Seq::empty()
    }
}

/// The views of a run of expressions, in order.
pub open spec fn expression_views(expressions: Seq<Expression>) -> Seq<ExprView> {
    Seq::new(expressions.len(), |i: int| expressions[i]@)
}

/// The views of a run of record entries, in order.
pub open spec fn entry_views(entries: Seq<(Token, Expression)>) -> Seq<(TokenView, ExprView)> {
    Seq::new(entries.len(), |i: int| (entries[i].0@, entries[i].1@))
}

proof fn lemma_expr_views_from(es: Seq<Expression>, i: int)
    requires
        0 <= i <= es.len(),
    ensures
        expr_views_from(es, i) == expression_views(es).subrange(i, es.len() as int),
    decreases es.len() - i,
{
    if i < es.len() {
        lemma_expr_views_from(es, i + 1);
        assert(expr_views_from(es, i) =~= expression_views(es).subrange(i, es.len() as int));
    } else {
        assert(expr_views_from(es, i) =~= expression_views(es).subrange(i, es.len() as int));
    }
}

proof fn lemma_entry_views_from(es: Seq<(Token, Expression)>, i: int)
    requires
        0 <= i <= es.len(),
    ensures
        entry_views_from(es, i) == entry_views(es).subrange(i, es.len() as int),
    decreases es.len() - i,
{
    if i < es.len() {
        lemma_entry_views_from(es, i + 1);
        assert(entry_views_from(es, i) =~= entry_views(es).subrange(i, es.len() as int));
    } else {
        assert(entry_views_from(es, i) =~= entry_views(es).subrange(i, es.len() as int));
    }
}

/// The view of a call, a list or a record holds the views of its elements.
pub proof fn lemma_element_views(e: Expression)
    ensures
        e matches Expression::Call(n) ==> e@ == (ExprView::Call {
            identifier: Box::new(n.identifier@),
            arguments: expression_views(n.arguments@),
        }),
        e matches Expression::List(n) ==> e@ == (ExprView::List { values: expression_views(n.values@) }),
        e matches Expression::Record(n) ==> e@ == (ExprView::Record {
            key_values: entry_views(n.key_values@),
        }),
{
    match e {
        Expression::Call(n) => {
            lemma_expr_views_from(n.arguments@, 0);
            assert(expression_views(n.arguments@).subrange(0, n.arguments@.len() as int)
                =~= expression_views(n.arguments@));
        },
        Expression::List(n) => {
            lemma_expr_views_from(n.values@, 0);
            assert(expression_views(n.values@).subrange(0, n.values@.len() as int) =~= expression_views(
                n.values@,
            ));
        },
        Expression::Record(n) => {
            lemma_entry_views_from(n.key_values@, 0);
            assert(entry_views(n.key_values@).subrange(0, n.key_values@.len() as int) =~= entry_views(
                n.key_values@,
            ));
        },
        _ => {},
    }
}

/// The tree of the node, as the variant of the same name.
impl View for Equality {
    type V = ExprView;

    open spec fn view(&self) -> ExprView {
        ExprView::Equality { left: Box::new(self.left@), operator: self.operator@, right: Box::new(self.right@) }
    }
}

impl View for Comparison {
    type V = ExprView;

    open spec fn view(&self) -> ExprView {
        ExprView::Comparison { left: Box::new(self.left@), operator: self.operator@, right: Box::new(self.right@) }
    }
}

impl View for Term {
    type V = ExprView;

    open spec fn view(&self) -> ExprView {
        ExprView::Term { left: Box::new(self.left@), operator: self.operator@, right: Box::new(self.right@) }
    }
}

impl View for Factor {
    type V = ExprView;

    open spec fn view(&self) -> ExprView {
        ExprView::Factor { left: Box::new(self.left@), operator: self.operator@, right: Box::new(self.right@) }
    }
}

impl View for Unary {
    type V = ExprView;

    open spec fn view(&self) -> ExprView {
        ExprView::Unary { operator: self.operator@, right: Box::new(self.right@) }
    }
}

impl View for Primary {
    type V = ExprView;

    open spec fn view(&self) -> ExprView {
        ExprView::Primary { value: self.value@ }
    }
}

impl View for And {
    type V = ExprView;

    open spec fn view(&self) -> ExprView {
        ExprView::And { left: Box::new(self.left@), right: Box::new(self.right@) }
    }
}

impl View for Or {
    type V = ExprView;

    open spec fn view(&self) -> ExprView {
        ExprView::Or { left: Box::new(self.left@), right: Box::new(self.right@) }
    }
}

impl View for Assignment {
    type V = ExprView;

    open spec fn view(&self) -> ExprView {
        ExprView::Assignment { identifier: self.identifier@, value: Box::new(self.value@) }
    }
}

impl View for IndexAssignment {
    type V = ExprView;

    open spec fn view(&self) -> ExprView {
        ExprView::IndexAssignment {
            list: Box::new(self.list@),
            expression: Box::new(self.expression@),
            value: Box::new(self.value@),
        }
    }
}

impl View for MapIndexAssignment {
    type V = ExprView;

    open spec fn view(&self) -> ExprView {
        ExprView::MapIndexAssignment { map: Box::new(self.map@), key: self.key@, value: Box::new(self.value@) }
    }
}

impl View for IfExpression {
    type V = ExprView;

    open spec fn view(&self) -> ExprView {
        ExprView::IfExpression {
            condition: Box::new(self.condition@),
            then_branch: Box::new(self.then_branch@),
            else_branch: Box::new(self.else_branch@),
        }
    }
}

impl View for Call {
    type V = ExprView;

    open spec fn view(&self) -> ExprView {
        ExprView::Call { identifier: Box::new(self.identifier@), arguments: expression_views(self.arguments@) }
    }
}

impl View for List {
    type V = ExprView;

    open spec fn view(&self) -> ExprView {
        ExprView::List { values: expression_views(self.values@) }
    }
}

impl View for Record {
    type V = ExprView;

    open spec fn view(&self) -> ExprView {
        ExprView::Record { key_values: entry_views(self.key_values@) }
    }
}

impl View for Index {
    type V = ExprView;

    open spec fn view(&self) -> ExprView {
        ExprView::Index { list: Box::new(self.list@), expression: Box::new(self.expression@) }
    }
}

impl View for MapIndex {
    type V = ExprView;

    open spec fn view(&self) -> ExprView {
        ExprView::MapIndex { map: Box::new(self.map@), key: self.key@ }
    }
}

/// The view of an expression is the view of the node it holds.
pub proof fn lemma_node_view(e: Expression)
    ensures
        e matches Expression::Equality(n) ==> e@ == n@,
        e matches Expression::Assignment(n) ==> e@ == n@,
        e matches Expression::IfExpression(n) ==> e@ == n@,
        e matches Expression::Comparison(n) ==> e@ == n@,
        e matches Expression::Term(n) ==> e@ == n@,
        e matches Expression::Factor(n) ==> e@ == n@,
        e matches Expression::Unary(n) ==> e@ == n@,
        e matches Expression::Primary(n) ==> e@ == n@,
        e matches Expression::Or(n) ==> e@ == n@,
        e matches Expression::And(n) ==> e@ == n@,
        e matches Expression::Call(n) ==> e@ == n@,
        e matches Expression::List(n) ==> e@ == n@,
        e matches Expression::Index(n) ==> e@ == n@,
        e matches Expression::Record(n) ==> e@ == n@,
        e matches Expression::MapIndex(n) ==> e@ == n@,
        e matches Expression::MapIndexAssignment(n) ==> e@ == n@,
        e matches Expression::IndexAssignment(n) ==> e@ == n@,
{
    lemma_element_views(e);
}

impl Equality {
    /// An equality of two operands.
    pub fn new(left: Expression, operator: Token, right: Expression) -> (node: Equality)
        ensures
            node.left == left,
            node.operator == operator,
            node.right == right,
    {
        Equality { left, operator, right }
    }
}

impl Comparison {
    /// A comparison of two operands.
    pub fn new(left: Expression, operator: Token, right: Expression) -> (node: Comparison)
        ensures
            node.left == left,
            node.operator == operator,
            node.right == right,
    {
        Comparison { left, operator, right }
    }
}

impl Term {
    /// A sum or a difference of two operands.
    pub fn new(left: Expression, operator: Token, right: Expression) -> (node: Term)
        ensures
            node.left == left,
            node.operator == operator,
            node.right == right,
    {
        Term { left, operator, right }
    }
}

impl Factor {
    /// A product or a quotient of two operands.
    pub fn new(left: Expression, operator: Token, right: Expression) -> (node: Factor)
        ensures
            node.left == left,
            node.operator == operator,
            node.right == right,
    {
        Factor { left, operator, right }
    }
}

impl Unary {
    /// An operator applied to one operand.
    pub fn new(operator: Token, right: Expression) -> (node: Unary)
        ensures
            node.operator == operator,
            node.right == right,
    {
        Unary { operator, right }
    }
}

impl Primary {
    /// A literal or an identifier.
    pub fn new(value: Token) -> (node: Primary)
        ensures
            node.value == value,
    {
        Primary { value }
    }
}

} // verus!
