//! The typing rules, as functions from the checker's state and a tree to the
//! tree's type and the state behind it, or the first violation.
use vstd::prelude::*;
use crate::parser::expression::ExprView;
use crate::parser::statement::StmtView;
use crate::token::{TokenType, TokenView};
use crate::visitors::environment::{ScopeView, assign, declare, enclose, lookup};
use crate::visitors::type_checker::types::Type;

verus! {

/// The kinds of violation that the checker reports.
#[derive(Debug, Clone, Copy, PartialEq, Eq, Structural)]
pub enum TypeErrorKind {
    /// An operand has a type that the operator does not take.
    TypeMismatch,
    /// The condition of an `if` or a `while` is not a `Boolean`.
    NonBooleanCondition,
    /// The body of an `if` or a `while` has a type other than `Nil`.
    NonNilBody,
    /// A name is read or assigned that no scope binds.
    UndefinedVariable,
    /// What is called is neither a `Function` nor `Unknown`.
    NotCallable,
    /// What is indexed is neither a list, a string nor `Unknown`.
    NotIndexable,
    /// An index is neither a `Number` nor `Unknown`.
    InvalidIndex,
    /// What a field is taken of is neither a `Record` nor `Unknown`.
    NotARecord,
    /// A name is bound that is no identifier.
    InvalidIdentifier,
    /// What a `for` runs over does not have the type `Unknown`.
    InvalidIterator,
    /// A token stands where the grammar allows none of its kind.
    UnexpectedToken,
}

/// A violation, with the line of the token it was found at where the tree
/// holds one.
#[derive(Debug, Clone, Copy, PartialEq, Eq, Structural)]
pub struct TypeError {
    pub kind: TypeErrorKind,
    pub line: Option<u32>,
}

/// The checker's state: the scopes with the types they bind, and the scope
/// that is current.
pub struct CheckerView {
    pub scopes: Seq<ScopeView<Type>>,
    pub scope: int,
}

/// The state on entry to a construct that has a scope of its own: a new
/// scope, enclosed by the current one, is current.
pub open spec fn enter(st: CheckerView) -> CheckerView {
    CheckerView { scopes: enclose(st.scopes, st.scope), scope: st.scopes.len() as int }
}

/// The state on leaving such a construct: the scope that was current on
/// entry is current again.
pub open spec fn leave(st: CheckerView, entry: int) -> CheckerView {
    CheckerView { scopes: st.scopes, scope: entry }
}

/// The state with `name` bound to `t` in the current scope.
pub open spec fn bind(st: CheckerView, name: Seq<char>, t: Type) -> CheckerView {
    CheckerView { scopes: declare(st.scopes, st.scope, name, t), scope: st.scope }
}

/// The violation of an operand that the operator does not take.
pub open spec fn mismatch(operator: TokenView) -> TypeError {
    TypeError { kind: TypeErrorKind::TypeMismatch, line: Some(operator.line) }
}

/// `*` and `/` take two numbers.
pub open spec fn factor_type(left: Type, operator: TokenView, right: Type) -> Result<Type, TypeError> {
    if left == Type::Unknown || right == Type::Unknown {
        Ok(Type::Unknown)
    } else if left == Type::Number && right == Type::Number {
        Ok(Type::Number)
    } else {
        Err(mismatch(operator))
    }
}

/// `+` and `-` take two numbers; two strings are allowed too.
pub open spec fn term_type(left: Type, operator: TokenView, right: Type) -> Result<Type, TypeError> {
    if left == Type::Unknown || right == Type::Unknown {
        Ok(Type::Unknown)
    } else if left == Type::Number && right == Type::Number {
        Ok(Type::Number)
    } else if left == Type::String && right == Type::String {
        Ok(Type::String)
    } else {
        Err(mismatch(operator))
    }
}

/// The four order relations take two numbers.
pub open spec fn comparison_type(left: Type, operator: TokenView, right: Type) -> Result<Type, TypeError> {
    if left == Type::Unknown || right == Type::Unknown {
        Ok(Type::Boolean)
    } else if left == Type::Number && right == Type::Number {
        Ok(Type::Boolean)
    } else {
        Err(mismatch(operator))
    }
}

/// `==` and `!=` take two operands of one type.
pub open spec fn equality_type(left: Type, operator: TokenView, right: Type) -> Result<Type, TypeError> {
    if left == Type::Unknown || right == Type::Unknown {
        Ok(Type::Boolean)
    } else if left == right {
        Ok(Type::Boolean)
    } else {
        Err(mismatch(operator))
    }
}

/// `and` and `or` take two booleans.
pub open spec fn logical_type(left: Type, right: Type) -> Result<Type, TypeError> {
    if (left == Type::Boolean || left == Type::Unknown) && (right == Type::Boolean || right == Type::Unknown) {
        Ok(Type::Boolean)
    } else {
        Err(TypeError { kind: TypeErrorKind::TypeMismatch, line: None })
    }
}

/// `-` takes a number and `!` a boolean.
pub open spec fn unary_type(operator: TokenView, right: Type) -> Result<Type, TypeError> {
    if operator.token_type == TokenType::Minus {
        if right == Type::Number {
            Ok(Type::Number)
        } else {
            Err(mismatch(operator))
        }
    } else if operator.token_type == TokenType::Bang {
        if right == Type::Boolean {
            Ok(Type::Boolean)
        } else {
            Err(mismatch(operator))
        }
    } else {
        Err(TypeError { kind: TypeErrorKind::UnexpectedToken, line: Some(operator.line) })
    }
}

/// A tree of another variant than the rule is for. The rules are only ever
/// applied to their own variant.
pub open spec fn misplaced() -> TypeError {
    TypeError { kind: TypeErrorKind::UnexpectedToken, line: None }
}

/// The type of an expression and the state behind it.
#[verifier::opaque]
pub open spec fn check_expression(st: CheckerView, e: ExprView) -> Result<(Type, CheckerView), TypeError>
    decreases e, 1nat,
{
    match e {
        ExprView::Equality { .. } => check_equality(st, e),
        ExprView::Assignment { .. } => check_assignment(st, e),
        ExprView::IfExpression { .. } => check_if_expression(st, e),
        ExprView::Comparison { .. } => check_comparison(st, e),
        ExprView::Term { .. } => check_term(st, e),
        ExprView::Factor { .. } => check_factor(st, e),
        ExprView::Unary { .. } => check_unary(st, e),
        ExprView::Primary { .. } => check_primary(st, e),
        ExprView::Or { .. } => check_or(st, e),
        ExprView::And { .. } => check_and(st, e),
        ExprView::Call { .. } => check_call(st, e),
        ExprView::List { .. } => check_list(st, e),
        ExprView::Index { .. } => check_index(st, e),
        ExprView::Record { .. } => check_record(st, e),
        ExprView::MapIndex { .. } => check_map_index(st, e),
        ExprView::MapIndexAssignment { .. } => check_map_index_assignment(st, e),
        ExprView::IndexAssignment { .. } => check_index_assignment(st, e),
    }
}

/// A literal has the type of its kind; an identifier has the type that the
/// nearest scope binds it to.
pub open spec fn check_primary(st: CheckerView, e: ExprView) -> Result<(Type, CheckerView), TypeError> {
    match e {
        ExprView::Primary { value } => match value.token_type {
            TokenType::Number => Ok((Type::Number, st)),
            TokenType::Boolean => Ok((Type::Boolean, st)),
            TokenType::String => Ok((Type::String, st)),
            TokenType::Nil => Ok((Type::Nil, st)),
            TokenType::Identifier => match lookup(st.scopes, st.scope, value.lexeme) {
                Some(t) => Ok((t, st)),
                None => Err(TypeError { kind: TypeErrorKind::UndefinedVariable, line: Some(value.line) }),
            },
            _ => Err(TypeError { kind: TypeErrorKind::UnexpectedToken, line: Some(value.line) }),
        },
        _ => Err(misplaced()),
    }
}

/// `-right` and `!right`.
#[verifier::opaque]
pub open spec fn check_unary(st: CheckerView, e: ExprView) -> Result<(Type, CheckerView), TypeError>
    decreases e, 0nat,
{
    match e {
        ExprView::Unary { operator, right } => match check_expression(st, *right) {
            Err(x) => Err(x),
            Ok((t, st1)) => match unary_type(operator, t) {
                Err(x) => Err(x),
                Ok(u) => Ok((u, st1)),
            },
        },
        _ => Err(misplaced()),
    }
}

/// `left * right` and `left / right`.
#[verifier::opaque]
pub open spec fn check_factor(st: CheckerView, e: ExprView) -> Result<(Type, CheckerView), TypeError>
    decreases e, 0nat,
{
    match e {
        ExprView::Factor { left, operator, right } => match check_expression(st, *left) {
            Err(x) => Err(x),
            Ok((l, st1)) => match check_expression(st1, *right) {
                Err(x) => Err(x),
                Ok((r, st2)) => match factor_type(l, operator, r) {
                    Err(x) => Err(x),
                    Ok(t) => Ok((t, st2)),
                },
            },
        },
        _ => Err(misplaced()),
    }
}

/// `left + right` and `left - right`.
#[verifier::opaque]
pub open spec fn check_term(st: CheckerView, e: ExprView) -> Result<(Type, CheckerView), TypeError>
    decreases e, 0nat,
{
    match e {
        ExprView::Term { left, operator, right } => match check_expression(st, *left) {
            Err(x) => Err(x),
            Ok((l, st1)) => match check_expression(st1, *right) {
                Err(x) => Err(x),
                Ok((r, st2)) => match term_type(l, operator, r) {
                    Err(x) => Err(x),
                    Ok(t) => Ok((t, st2)),
                },
            },
        },
        _ => Err(misplaced()),
    }
}

/// The four order relations.
#[verifier::opaque]
pub open spec fn check_comparison(st: CheckerView, e: ExprView) -> Result<(Type, CheckerView), TypeError>
    decreases e, 0nat,
{
    match e {
        ExprView::Comparison { left, operator, right } => match check_expression(st, *left) {
            Err(x) => Err(x),
            Ok((l, st1)) => match check_expression(st1, *right) {
                Err(x) => Err(x),
                Ok((r, st2)) => match comparison_type(l, operator, r) {
                    Err(x) => Err(x),
                    Ok(t) => Ok((t, st2)),
                },
            },
        },
        _ => Err(misplaced()),
    }
}

/// `left == right` and `left != right`.
#[verifier::opaque]
pub open spec fn check_equality(st: CheckerView, e: ExprView) -> Result<(Type, CheckerView), TypeError>
    decreases e, 0nat,
{
    match e {
        ExprView::Equality { left, operator, right } => match check_expression(st, *left) {
            Err(x) => Err(x),
            Ok((l, st1)) => match check_expression(st1, *right) {
                Err(x) => Err(x),
                Ok((r, st2)) => match equality_type(l, operator, r) {
                    Err(x) => Err(x),
                    Ok(t) => Ok((t, st2)),
                },
            },
        },
        _ => Err(misplaced()),
    }
}

/// `left and right`.
#[verifier::opaque]
pub open spec fn check_and(st: CheckerView, e: ExprView) -> Result<(Type, CheckerView), TypeError>
    decreases e, 0nat,
{
    match e {
        ExprView::And { left, right } => match check_expression(st, *left) {
            Err(x) => Err(x),
            Ok((l, st1)) => match check_expression(st1, *right) {
                Err(x) => Err(x),
                Ok((r, st2)) => match logical_type(l, r) {
                    Err(x) => Err(x),
                    Ok(t) => Ok((t, st2)),
                },
            },
        },
        _ => Err(misplaced()),
    }
}

/// `left or right`.
#[verifier::opaque]
pub open spec fn check_or(st: CheckerView, e: ExprView) -> Result<(Type, CheckerView), TypeError>
    decreases e, 0nat,
{
    match e {
        ExprView::Or { left, right } => match check_expression(st, *left) {
            Err(x) => Err(x),
            Ok((l, st1)) => match check_expression(st1, *right) {
                Err(x) => Err(x),
                Ok((r, st2)) => match logical_type(l, r) {
                    Err(x) => Err(x),
                    Ok(t) => Ok((t, st2)),
                },
            },
        },
        _ => Err(misplaced()),
    }
}

/// An assignment stores the type of its value in the nearest binding of the
/// name and has that type.
#[verifier::opaque]
pub open spec fn check_assignment(st: CheckerView, e: ExprView) -> Result<(Type, CheckerView), TypeError>
    decreases e, 0nat,
{
    match e {
        ExprView::Assignment { identifier, value } => match check_expression(st, *value) {
            Err(x) => Err(x),
            Ok((t, st1)) => match assign(st1.scopes, st1.scope, identifier.lexeme, t) {
                Some(scopes) => Ok((t, CheckerView { scopes, scope: st1.scope })),
                None => Err(TypeError { kind: TypeErrorKind::UndefinedVariable, line: Some(identifier.line) }),
            },
        },
        _ => Err(misplaced()),
    }
}

/// The condition of a conditional expression is a `Boolean`; its type is
/// `Unknown`.
#[verifier::opaque]
pub open spec fn check_if_expression(st: CheckerView, e: ExprView) -> Result<(Type, CheckerView), TypeError>
    decreases e, 0nat,
{
    match e {
        ExprView::IfExpression { condition, then_branch, else_branch } => match check_expression(
            st,
            *condition,
        ) {
            Err(x) => Err(x),
            Ok((c, st1)) => if c != Type::Boolean {
                Err(TypeError { kind: TypeErrorKind::NonBooleanCondition, line: None })
            } else {
                match check_expression(st1, *then_branch) {
                    Err(x) => Err(x),
                    Ok((_, st2)) => match check_expression(st2, *else_branch) {
                        Err(x) => Err(x),
                        Ok((_, st3)) => Ok((Type::Unknown, st3)),
                    },
                }
            },
        },
        _ => Err(misplaced()),
    }
}

/// What is called is a `Function` or `Unknown`; the arguments are checked
/// each for itself, and the call's type is `Unknown`.
#[verifier::opaque]
pub open spec fn check_call(st: CheckerView, e: ExprView) -> Result<(Type, CheckerView), TypeError>
    decreases e, 0nat,
{
    match e {
        ExprView::Call { identifier, arguments } => match check_expression(st, *identifier) {
            Err(x) => Err(x),
            Ok((callee, st1)) => if callee != Type::Function && callee != Type::Unknown {
                Err(TypeError { kind: TypeErrorKind::NotCallable, line: None })
            } else {
                match check_all(st1, arguments, 0) {
                    Err(x) => Err(x),
                    Ok(st2) => Ok((Type::Unknown, st2)),
                }
            },
        },
        _ => Err(misplaced()),
    }
}

/// The state behind the expressions from position `i` on, checked in order.
#[verifier::opaque]
pub open spec fn check_all(st: CheckerView, es: Seq<ExprView>, i: int) -> Result<CheckerView, TypeError>
    decreases es, es.len() - i,
{
    if 0 <= i < es.len() {
        match check_expression(st, es[i]) {
            Err(x) => Err(x),
            Ok((_, st1)) => check_all(st1, es, i + 1),
        }
    } else {
        Ok(st)
    }
}

/// `[values]`: the elements are checked each for itself; the list has the type
/// `List`.
#[verifier::opaque]
pub open spec fn check_list(st: CheckerView, e: ExprView) -> Result<(Type, CheckerView), TypeError>
    decreases e, 0nat,
{
    match e {
        ExprView::List { values } => match check_all(st, values, 0) {
            Err(x) => Err(x),
            Ok(st1) => Ok((Type::List, st1)),
        },
        _ => Err(misplaced()),
    }
}

/// The keys of a record are identifiers.
#[verifier::opaque]
pub open spec fn check_record(st: CheckerView, e: ExprView) -> Result<(Type, CheckerView), TypeError>
    decreases e, 0nat,
{
    match e {
        ExprView::Record { key_values } => match check_entries(st, key_values, 0) {
            Err(x) => Err(x),
            Ok(st1) => Ok((Type::Record, st1)),
        },
        _ => Err(misplaced()),
    }
}

/// The state behind the record entries from position `i` on.
#[verifier::opaque]
pub open spec fn check_entries(st: CheckerView, entries: Seq<(TokenView, ExprView)>, i: int) -> Result<
    CheckerView,
    TypeError,
>
    decreases entries, entries.len() - i,
{
    if 0 <= i < entries.len() {
        if entries[i].0.token_type != TokenType::Identifier {
            Err(TypeError { kind: TypeErrorKind::InvalidIdentifier, line: Some(entries[i].0.line) })
        } else {
            match check_expression(st, entries[i].1) {
                Err(x) => Err(x),
                Ok((_, st1)) => check_entries(st1, entries, i + 1),
            }
        }
    } else {
        Ok(st)
    }
}

/// What is indexed is a list, a string or `Unknown`, and the index a number
/// or `Unknown`; the element's type is `Unknown`.
#[verifier::opaque]
pub open spec fn check_index(st: CheckerView, e: ExprView) -> Result<(Type, CheckerView), TypeError>
    decreases e, 0nat,
{
    match e {
        ExprView::Index { list, expression } => match check_expression(st, *list) {
            Err(x) => Err(x),
            Ok((l, st1)) => if l != Type::List && l != Type::String && l != Type::Unknown {
                Err(TypeError { kind: TypeErrorKind::NotIndexable, line: None })
            } else {
                match check_expression(st1, *expression) {
                    Err(x) => Err(x),
                    Ok((i, st2)) => if i != Type::Number && i != Type::Unknown {
                        Err(TypeError { kind: TypeErrorKind::InvalidIndex, line: None })
                    } else {
                        Ok((Type::Unknown, st2))
                    },
                }
            },
        },
        _ => Err(misplaced()),
    }
}

/// What a field is taken of is a record or `Unknown`; the field's type is
/// `Unknown`.
#[verifier::opaque]
pub open spec fn check_map_index(st: CheckerView, e: ExprView) -> Result<(Type, CheckerView), TypeError>
    decreases e, 0nat,
{
    match e {
        ExprView::MapIndex { map, key } => match check_expression(st, *map) {
            Err(x) => Err(x),
            Ok((m, st1)) => if m != Type::Record && m != Type::Unknown {
                Err(TypeError { kind: TypeErrorKind::NotARecord, line: Some(key.line) })
            } else {
                Ok((Type::Unknown, st1))
            },
        },
        _ => Err(misplaced()),
    }
}

/// An assignment to a field has the type of its value.
#[verifier::opaque]
pub open spec fn check_map_index_assignment(st: CheckerView, e: ExprView) -> Result<
    (Type, CheckerView),
    TypeError,
>
    decreases e, 0nat,
{
    match e {
        ExprView::MapIndexAssignment { map, key, value } => match check_expression(st, *map) {
            Err(x) => Err(x),
            Ok((m, st1)) => if m != Type::Record && m != Type::Unknown {
                Err(TypeError { kind: TypeErrorKind::NotARecord, line: Some(key.line) })
            } else {
                check_expression(st1, *value)
            },
        },
        _ => Err(misplaced()),
    }
}

/// An assignment to an element of a list has the type of its value.
#[verifier::opaque]
pub open spec fn check_index_assignment(st: CheckerView, e: ExprView) -> Result<
    (Type, CheckerView),
    TypeError,
>
    decreases e, 0nat,
{
    match e {
        ExprView::IndexAssignment { list, expression, value } => match check_expression(st, *list) {
            Err(x) => Err(x),
            Ok((l, st1)) => if l != Type::List && l != Type::Unknown {
                Err(TypeError { kind: TypeErrorKind::NotIndexable, line: None })
            } else {
                match check_expression(st1, *expression) {
                    Err(x) => Err(x),
                    Ok((i, st2)) => if i != Type::Number && i != Type::Unknown {
                        Err(TypeError { kind: TypeErrorKind::InvalidIndex, line: None })
                    } else {
                        check_expression(st2, *value)
                    },
                }
            },
        },
        _ => Err(misplaced()),
    }
}

/// The type of a statement and the state behind it. Every statement but
/// `return` has the type `Nil`.
#[verifier::opaque]
pub open spec fn check_statement(st: CheckerView, s: StmtView) -> Result<(Type, CheckerView), TypeError>
    decreases s, 1nat,
{
    match s {
        StmtView::ExpressionStatement { expression } => match check_expression(st, expression) {
            Err(x) => Err(x),
            Ok((_, st1)) => Ok((Type::Nil, st1)),
        },
        StmtView::PrintStatement { expression } => match check_expression(st, expression) {
            Err(x) => Err(x),
            Ok((_, st1)) => Ok((Type::Nil, st1)),
        },
        StmtView::VariableDeclaration { identifier, expression } => match expression {
            Some(e) => match check_expression(st, e) {
                Err(x) => Err(x),
                Ok((t, st1)) => Ok((Type::Nil, bind(st1, identifier.lexeme, t))),
            },
            None => Ok((Type::Nil, bind(st, identifier.lexeme, Type::Nil))),
        },
        StmtView::Return { value } => match value {
            Some(e) => check_expression(st, e),
            None => Ok((Type::Nil, st)),
        },
        StmtView::Block { .. } => check_block(st, s),
        StmtView::IfStatement { .. } => check_if_statement(st, s),
        StmtView::WhileStatement { .. } => check_while_statement(st, s),
        StmtView::FunctionDeclaration { .. } => check_function_declaration(st, s),
        StmtView::With { .. } => check_with_statement(st, s),
        StmtView::For { .. } => check_for_statement(st, s),
    }
}

/// A block is checked in a scope of its own, which is left at its end.
#[verifier::opaque]
pub open spec fn check_block(st: CheckerView, s: StmtView) -> Result<(Type, CheckerView), TypeError>
    decreases s, 0nat,
{
    match s {
        StmtView::Block { statements } => match check_statements(enter(st), statements, 0) {
            Err(x) => Err(x),
            Ok(st1) => Ok((Type::Nil, leave(st1, st.scope))),
        },
        _ => Err(misplaced()),
    }
}

/// The state behind the statements from position `i` on, checked in order.
/// The types of the statements are not looked at.
#[verifier::opaque]
pub open spec fn check_statements(st: CheckerView, ss: Seq<StmtView>, i: int) -> Result<
    CheckerView,
    TypeError,
>
    decreases ss, ss.len() - i,
{
    if 0 <= i < ss.len() {
        match check_statement(st, ss[i]) {
            Err(x) => Err(x),
            Ok((_, st1)) => check_statements(st1, ss, i + 1),
        }
    } else {
        Ok(st)
    }
}

/// The condition of an `if` is a `Boolean` and its branches have the type
/// `Nil`.
#[verifier::opaque]
pub open spec fn check_if_statement(st: CheckerView, s: StmtView) -> Result<(Type, CheckerView), TypeError>
    decreases s, 0nat,
{
    match s {
        StmtView::IfStatement { condition, then_branch, else_branch } => match check_expression(st, condition) {
            Err(x) => Err(x),
            Ok((c, st1)) => if c != Type::Boolean {
                Err(TypeError { kind: TypeErrorKind::NonBooleanCondition, line: None })
            } else {
                match check_statement(st1, *then_branch) {
                    Err(x) => Err(x),
                    Ok((t, st2)) => if t != Type::Nil {
                        Err(TypeError { kind: TypeErrorKind::NonNilBody, line: None })
                    } else {
                        match else_branch {
                            None => Ok((Type::Nil, st2)),
                            Some(other) => match check_statement(st2, *other) {
                                Err(x) => Err(x),
                                Ok((u, st3)) => if u != Type::Nil {
                                    Err(TypeError { kind: TypeErrorKind::NonNilBody, line: None })
                                } else {
                                    Ok((Type::Nil, st3))
                                },
                            },
                        }
                    },
                }
            },
        },
        _ => Err(misplaced()),
    }
}

/// The condition of a `while` is a `Boolean` and its body has the type `Nil`.
#[verifier::opaque]
pub open spec fn check_while_statement(st: CheckerView, s: StmtView) -> Result<
    (Type, CheckerView),
    TypeError,
>
    decreases s, 0nat,
{
    match s {
        StmtView::WhileStatement { condition, body } => match check_expression(st, condition) {
            Err(x) => Err(x),
            Ok((c, st1)) => if c != Type::Boolean {
                Err(TypeError { kind: TypeErrorKind::NonBooleanCondition, line: None })
            } else {
                match check_statement(st1, *body) {
                    Err(x) => Err(x),
                    Ok((t, st2)) => if t != Type::Nil {
                        Err(TypeError { kind: TypeErrorKind::NonNilBody, line: None })
                    } else {
                        Ok((Type::Nil, st2))
                    },
                }
            },
        },
        _ => Err(misplaced()),
    }
}

/// The state with the parameters from position `i` on bound to `Unknown` in
/// the current scope.
pub open spec fn bind_parameters(st: CheckerView, parameters: Seq<TokenView>, i: int) -> CheckerView
    decreases parameters.len() - i,
{
    if 0 <= i < parameters.len() {
        bind_parameters(bind(st, parameters[i].lexeme, Type::Unknown), parameters, i + 1)
    } else {
        st
    }
}

/// A function's name is bound to `Function` before its body is checked, so
/// that the body may call it. The body is checked in a scope of its own with
/// every parameter bound to `Unknown`.
#[verifier::opaque]
pub open spec fn check_function_declaration(st: CheckerView, s: StmtView) -> Result<
    (Type, CheckerView),
    TypeError,
>
    decreases s, 0nat,
{
    match s {
        StmtView::FunctionDeclaration { identifier, parameters, body } => {
            let declared = bind(st, identifier.lexeme, Type::Function);
            match check_statement(bind_parameters(enter(declared), parameters, 0), *body) {
                Err(x) => Err(x),
                Ok((_, st1)) => Ok((Type::Nil, leave(st1, st.scope))),
            }
        },
        _ => Err(misplaced()),
    }
}

/// `with` binds one identifier to the type of its value in a scope of its own.
#[verifier::opaque]
pub open spec fn check_with_statement(st: CheckerView, s: StmtView) -> Result<(Type, CheckerView), TypeError>
    decreases s, 0nat,
{
    match s {
        StmtView::With { value, identifier, body } => if identifier.token_type != TokenType::Identifier {
            Err(TypeError { kind: TypeErrorKind::InvalidIdentifier, line: Some(identifier.line) })
        } else {
            match check_expression(enter(st), value) {
                Err(x) => Err(x),
                Ok((t, st1)) => match check_statement(bind(st1, identifier.lexeme, t), *body) {
                    Err(x) => Err(x),
                    Ok((_, st2)) => Ok((Type::Nil, leave(st2, st.scope))),
                },
            }
        },
        _ => Err(misplaced()),
    }
}

/// `for` runs over what has the type `Unknown`, the type of every call, and
/// binds one identifier to it in a scope of its own.
#[verifier::opaque]
pub open spec fn check_for_statement(st: CheckerView, s: StmtView) -> Result<(Type, CheckerView), TypeError>
    decreases s, 0nat,
{
    match s {
        StmtView::For { identifier, iter, body } => if identifier.token_type != TokenType::Identifier {
            Err(TypeError { kind: TypeErrorKind::InvalidIdentifier, line: Some(identifier.line) })
        } else {
            match check_expression(st, iter) {
                Err(x) => Err(x),
                Ok((t, st1)) => if t != Type::Unknown {
                    Err(TypeError { kind: TypeErrorKind::InvalidIterator, line: Some(identifier.line) })
                } else {
                    match check_statement(bind(enter(st1), identifier.lexeme, t), *body) {
                        Err(x) => Err(x),
                        Ok((_, st2)) => Ok((Type::Nil, leave(st2, st.scope))),
                    }
                },
            }
        },
        _ => Err(misplaced()),
    }
}

/// The names that every program may call.
pub open spec fn built_in_names() -> Seq<Seq<char>> {
    seq![
        "clock"@,
        "println"@,
        "input"@,
        "iter"@,
        "range_to"@,
        "range"@,
        "range_skip"@,
        "len"@,
        "push"@,
        "to_number"@,
        "type_of"@,
    ]
}

/// The scopes with the names from position `i` on bound to `t` in the root.
pub open spec fn declare_all<V>(scopes: Seq<ScopeView<V>>, names: Seq<Seq<char>>, i: int, t: V) -> Seq<
    ScopeView<V>,
>
    decreases names.len() - i,
{
    if 0 <= i < names.len() {
        declare_all(declare(scopes, 0, names[i], t), names, i + 1, t)
    } else {
        scopes
    }
}

/// The state that checking starts from: one scope, the root, which binds
/// every built-in name to `Function`.
pub open spec fn initial_state() -> CheckerView {
    CheckerView {
        scopes: declare_all(
            seq![ScopeView::<Type> { bindings: Map::empty(), enclosing: None }],
            built_in_names(),
            0,
            Type::Function,
        ),
        scope: 0,
    }
}

} // verus!
