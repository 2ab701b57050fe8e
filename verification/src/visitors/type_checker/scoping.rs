//! The scoping law of the checker: a construct that has a scope of its own
//! leaves the names that are visible around it as they were.
use vstd::prelude::*;
use crate::parser::expression::ExprView;
use crate::parser::statement::StmtView;
use crate::token::TokenView;
use crate::visitors::environment::{ScopeView, declare, lemma_resolve_owner, lookup, resolve};
use crate::visitors::type_checker::rules::{
    CheckerView, bind, bind_parameters, check_all, check_and, check_assignment, check_block,
    check_call, check_comparison, check_entries, check_equality, check_expression, check_factor,
    check_for_statement, check_function_declaration, check_if_expression, check_if_statement,
    check_index, check_index_assignment, check_list, check_map_index, check_map_index_assignment,
    check_or, check_record, check_statement, check_statements, check_term, check_unary,
    check_while_statement, check_with_statement, enter, leave,
};
use crate::visitors::type_checker::types::Type;

verus! {

/// What a piece of a program may do to the scopes: it may add scopes, and it
/// may declare names in the scope that is current. Every scope that was
/// there before keeps its enclosing scope and, but for the current one, the
/// names that it binds; and the scope that was current is current again.
pub open spec fn framed(before: CheckerView, after: CheckerView) -> bool {
    &&& after.scopes.len() >= before.scopes.len()
    &&& after.scope == before.scope
    &&& forall|i: int|
        0 <= i < before.scopes.len() ==> (#[trigger] after.scopes[i]).enclosing == before.scopes[i].enclosing
            && (i != before.scope ==> after.scopes[i].bindings.dom() == before.scopes[i].bindings.dom())
}

/// The same, and the current scope binds the same names too.
pub open spec fn sealed(before: CheckerView, after: CheckerView) -> bool {
    &&& after.scopes.len() >= before.scopes.len()
    &&& after.scope == before.scope
    &&& forall|i: int|
        0 <= i < before.scopes.len() ==> (#[trigger] after.scopes[i]).enclosing == before.scopes[i].enclosing
            && after.scopes[i].bindings.dom() == before.scopes[i].bindings.dom()
}

/// A name is visible from the current scope.
pub open spec fn visible(st: CheckerView, name: Seq<char>) -> bool {
    lookup(st.scopes, st.scope, name) is Some
}

proof fn lemma_same_names_same_owner(a: Seq<ScopeView<Type>>, b: Seq<ScopeView<Type>>, scope: int, name: Seq<char>)
    requires
        0 <= scope < a.len(),
        a.len() <= b.len(),
        forall|i: int|
            0 <= i <= scope ==> (#[trigger] b[i]).enclosing == a[i].enclosing && b[i].bindings.dom()
                == a[i].bindings.dom(),
    ensures
        resolve(a, scope, name) == resolve(b, scope, name),
    decreases scope,
{
    assert(b[scope].enclosing == a[scope].enclosing);
    assert(b[scope].bindings.dom() == a[scope].bindings.dom());
    assert(a[scope].bindings.contains_key(name) == b[scope].bindings.contains_key(name));
    if !a[scope].bindings.contains_key(name) {
        match a[scope].enclosing {
            Some(outer) => {
                if 0 <= outer < scope {
                    lemma_same_names_same_owner(a, b, outer, name);
                }
            },
            None => {},
        }
    }
}

proof fn lemma_sealed_keeps_names(before: CheckerView, after: CheckerView, name: Seq<char>)
    requires
        sealed(before, after),
        0 <= before.scope < before.scopes.len(),
    ensures
        visible(after, name) == visible(before, name),
{
    lemma_same_names_same_owner(before.scopes, after.scopes, before.scope, name);
}

proof fn lemma_sealed_twice(a: CheckerView, b: CheckerView, c: CheckerView)
    requires
        sealed(a, b),
        sealed(b, c),
    ensures
        sealed(a, c),
{
    assert forall|i: int| 0 <= i < a.scopes.len() implies (#[trigger] c.scopes[i]).enclosing
        == a.scopes[i].enclosing && c.scopes[i].bindings.dom() == a.scopes[i].bindings.dom() by {
        assert(b.scopes[i].enclosing == a.scopes[i].enclosing);
        assert(c.scopes[i].enclosing == b.scopes[i].enclosing);
    }
}

proof fn lemma_framed_twice(a: CheckerView, b: CheckerView, c: CheckerView)
    requires
        framed(a, b),
        framed(b, c),
    ensures
        framed(a, c),
{
    assert forall|i: int| 0 <= i < a.scopes.len() implies (#[trigger] c.scopes[i]).enclosing
        == a.scopes[i].enclosing && (i != a.scope ==> c.scopes[i].bindings.dom()
        == a.scopes[i].bindings.dom()) by {
        assert(b.scopes[i].enclosing == a.scopes[i].enclosing);
        assert(c.scopes[i].enclosing == b.scopes[i].enclosing);
    }
}

proof fn lemma_declare_frames(st: CheckerView, name: Seq<char>, t: Type)
    ensures
        framed(st, bind(st, name, t)),
{
    let after = bind(st, name, t);
    assert forall|i: int| 0 <= i < st.scopes.len() implies (#[trigger] after.scopes[i]).enclosing
        == st.scopes[i].enclosing && (i != st.scope ==> after.scopes[i].bindings.dom()
        == st.scopes[i].bindings.dom()) by {}
}

proof fn lemma_assign_seals(st: CheckerView, name: Seq<char>, t: Type)
    requires
        resolve(st.scopes, st.scope, name) is Some,
    ensures
        sealed(
            st,
            CheckerView {
                scopes: declare(st.scopes, resolve(st.scopes, st.scope, name)->Some_0, name, t),
                scope: st.scope,
            },
        ),
{
    lemma_resolve_owner(st.scopes, st.scope, name);
    let owner = resolve(st.scopes, st.scope, name)->Some_0;
    let after = declare(st.scopes, owner, name, t);
    assert forall|i: int| 0 <= i < st.scopes.len() implies (#[trigger] after[i]).enclosing
        == st.scopes[i].enclosing && after[i].bindings.dom() == st.scopes[i].bindings.dom() by {
        if i == owner {
            assert(after[i].bindings.dom() =~= st.scopes[i].bindings.dom());
        }
    }
}

/// What is checked inside a new scope seals the scopes around it, once the
/// scope is left.
proof fn lemma_inside_seals(st: CheckerView, entered: CheckerView, inside: CheckerView, after: CheckerView)
    requires
        entered == enter(st),
        framed(entered, inside),
        framed(inside, after),
    ensures
        sealed(st, leave(after, st.scope)),
{
    let last = leave(after, st.scope);
    assert forall|i: int| 0 <= i < st.scopes.len() implies (#[trigger] last.scopes[i]).enclosing
        == st.scopes[i].enclosing && last.scopes[i].bindings.dom() == st.scopes[i].bindings.dom() by {
        assert(entered.scopes[i] == st.scopes[i]);
        assert(inside.scopes[i].enclosing == entered.scopes[i].enclosing);
        assert(after.scopes[i].enclosing == inside.scopes[i].enclosing);
    }
}

proof fn lemma_itself(st: CheckerView)
    ensures
        framed(st, st),
        sealed(st, st),
{
}

proof fn lemma_bind_parameters_frames(st: CheckerView, parameters: Seq<TokenView>, i: int)
    ensures
        framed(st, bind_parameters(st, parameters, i)),
    decreases parameters.len() - i,
{
    if 0 <= i < parameters.len() {
        let next = bind(st, parameters[i].lexeme, Type::Unknown);
        lemma_declare_frames(st, parameters[i].lexeme, Type::Unknown);
        lemma_bind_parameters_frames(next, parameters, i + 1);
        lemma_framed_twice(st, next, bind_parameters(next, parameters, i + 1));
    } else {
        lemma_itself(st);
    }
}

/// Two expressions in a row seal the scopes.
proof fn lemma_pair_seals(st: CheckerView, first: ExprView, second: ExprView, e: ExprView)
    requires
        decreases_to!(e => first),
        decreases_to!(e => second),
    ensures
        check_expression(st, first) matches Ok((_, st1)) ==> sealed(st, st1) && (check_expression(
            st1,
            second,
        ) matches Ok((_, st2)) ==> sealed(st, st2)),
    decreases e, 0nat,
{
    lemma_expression_seals(st, first);
    match check_expression(st, first) {
        Ok((_, st1)) => {
            lemma_expression_seals(st1, second);
            match check_expression(st1, second) {
                Ok((_, st2)) => {
                    lemma_sealed_twice(st, st1, st2);
                },
                Err(_) => {},
            }
        },
        Err(_) => {},
    }
}

/// An expression seals the scopes: it declares nothing.
pub proof fn lemma_expression_seals(st: CheckerView, e: ExprView)
    ensures
        check_expression(st, e) matches Ok((_, after)) ==> sealed(st, after),
    decreases e, 1nat,
{
    reveal(check_expression);
    reveal(check_all);
    reveal(check_entries);
    match e {
        ExprView::Equality { left, operator, right } => {
            reveal(check_equality);
            lemma_pair_seals(st, *left, *right, e);
        },
        ExprView::Comparison { left, operator, right } => {
            reveal(check_comparison);
            lemma_pair_seals(st, *left, *right, e);
        },
        ExprView::Term { left, operator, right } => {
            reveal(check_term);
            lemma_pair_seals(st, *left, *right, e);
        },
        ExprView::Factor { left, operator, right } => {
            reveal(check_factor);
            lemma_pair_seals(st, *left, *right, e);
        },
        ExprView::And { left, right } => {
            reveal(check_and);
            lemma_pair_seals(st, *left, *right, e);
        },
        ExprView::Or { left, right } => {
            reveal(check_or);
            lemma_pair_seals(st, *left, *right, e);
        },
        ExprView::Index { list, expression } => {
            reveal(check_index);
            lemma_pair_seals(st, *list, *expression, e);
        },
        ExprView::MapIndexAssignment { map, key, value } => {
            reveal(check_map_index_assignment);
            lemma_pair_seals(st, *map, *value, e);
        },
        ExprView::Unary { operator, right } => {
            reveal(check_unary);
            lemma_expression_seals(st, *right);
        },
        ExprView::MapIndex { map, key } => {
            reveal(check_map_index);
            lemma_expression_seals(st, *map);
        },
        ExprView::Primary { value } => {
            lemma_itself(st);
        },
        ExprView::Assignment { identifier, value } => {
            reveal(check_assignment);
            lemma_expression_seals(st, *value);
            match check_expression(st, *value) {
                Ok((t, st1)) => {
                    if resolve(st1.scopes, st1.scope, identifier.lexeme) is Some {
                        lemma_assign_seals(st1, identifier.lexeme, t);
                        lemma_sealed_twice(st, st1, check_expression(st, e)->Ok_0.1);
                    }
                },
                Err(_) => {},
            }
        },
        ExprView::IfExpression { condition, then_branch, else_branch } => {
            reveal(check_if_expression);
            lemma_expression_seals(st, *condition);
            match check_expression(st, *condition) {
                Ok((_, st1)) => {
                    lemma_pair_seals(st1, *then_branch, *else_branch, e);
                    match check_expression(st1, *then_branch) {
                        Ok((_, st2)) => {
                            match check_expression(st2, *else_branch) {
                                Ok((_, st3)) => {
                                    lemma_sealed_twice(st, st1, st3);
                                },
                                Err(_) => {},
                            }
                        },
                        Err(_) => {},
                    }
                },
                Err(_) => {},
            }
        },
        ExprView::IndexAssignment { list, expression, value } => {
            reveal(check_index_assignment);
            lemma_pair_seals(st, *list, *expression, e);
            match check_expression(st, *list) {
                Ok((_, st1)) => {
                    match check_expression(st1, *expression) {
                        Ok((_, st2)) => {
                            lemma_expression_seals(st2, *value);
                            match check_expression(st2, *value) {
                                Ok((_, st3)) => {
                                    lemma_sealed_twice(st, st2, st3);
                                },
                                Err(_) => {},
                            }
                        },
                        Err(_) => {},
                    }
                },
                Err(_) => {},
            }
        },
        ExprView::List { values } => {
            reveal(check_list);
            lemma_all_seal(st, values, 0);
        },
        ExprView::Record { key_values } => {
            reveal(check_record);
            lemma_entries_seal(st, key_values, 0);
        },
        ExprView::Call { identifier, arguments } => {
            reveal(check_call);
            lemma_expression_seals(st, *identifier);
            match check_expression(st, *identifier) {
                Ok((_, st1)) => {
                    lemma_all_seal(st1, arguments, 0);
                    match check_all(st1, arguments, 0) {
                        Ok(st2) => {
                            lemma_sealed_twice(st, st1, st2);
                        },
                        Err(_) => {},
                    }
                },
                Err(_) => {},
            }
        },
    }
}

proof fn lemma_all_seal(st: CheckerView, es: Seq<ExprView>, i: int)
    ensures
        check_all(st, es, i) matches Ok(after) ==> sealed(st, after),
    decreases es, es.len() - i,
{
    reveal(check_all);
    reveal(check_expression);
    if 0 <= i < es.len() {
        lemma_expression_seals(st, es[i]);
        match check_expression(st, es[i]) {
            Ok((_, st1)) => {
                lemma_all_seal(st1, es, i + 1);
                match check_all(st1, es, i + 1) {
                    Ok(st2) => {
                        lemma_sealed_twice(st, st1, st2);
                    },
                    Err(_) => {},
                }
            },
            Err(_) => {},
        }
    } else {
        lemma_itself(st);
    }
}

proof fn lemma_entries_seal(st: CheckerView, entries: Seq<(TokenView, ExprView)>, i: int)
    ensures
        check_entries(st, entries, i) matches Ok(after) ==> sealed(st, after),
    decreases entries, entries.len() - i,
{
    reveal(check_entries);
    reveal(check_expression);
    if 0 <= i < entries.len() {
        lemma_expression_seals(st, entries[i].1);
        match check_expression(st, entries[i].1) {
            Ok((_, st1)) => {
                lemma_entries_seal(st1, entries, i + 1);
                match check_entries(st1, entries, i + 1) {
                    Ok(st2) => {
                        lemma_sealed_twice(st, st1, st2);
                    },
                    Err(_) => {},
                }
            },
            Err(_) => {},
        }
    } else {
        lemma_itself(st);
    }
}

/// A statement frames the scopes: it declares names in the current scope
/// alone.
pub proof fn lemma_statement_frames(st: CheckerView, s: StmtView)
    ensures
        check_statement(st, s) matches Ok((_, after)) ==> framed(st, after),
    decreases s, 1nat,
{
    reveal(check_statement);
    reveal(check_statements);
    match s {
        StmtView::ExpressionStatement { expression } => {
            lemma_expression_seals(st, expression);
        },
        StmtView::PrintStatement { expression } => {
            lemma_expression_seals(st, expression);
        },
        StmtView::VariableDeclaration { identifier, expression } => {
            match expression {
                Some(e) => {
                    lemma_expression_seals(st, e);
                    match check_expression(st, e) {
                        Ok((t, st1)) => {
                            lemma_declare_frames(st1, identifier.lexeme, t);
                            lemma_framed_twice(st, st1, bind(st1, identifier.lexeme, t));
                        },
                        Err(_) => {},
                    }
                },
                None => {
                    lemma_declare_frames(st, identifier.lexeme, Type::Nil);
                },
            }
        },
        StmtView::Return { value } => {
            match value {
                Some(e) => {
                    lemma_expression_seals(st, e);
                },
                None => {
                    lemma_itself(st);
                },
            }
        },
        StmtView::Block { statements } => {
            reveal(check_block);
            let inside = enter(st);
            lemma_statements_frame(inside, statements, 0);
            match check_statements(inside, statements, 0) {
                Ok(st1) => {
                    lemma_itself(inside);
                    lemma_inside_seals(st, inside, inside, st1);
                },
                Err(_) => {},
            }
        },
        StmtView::IfStatement { condition, then_branch, else_branch } => {
            reveal(check_if_statement);
            lemma_expression_seals(st, condition);
            match check_expression(st, condition) {
                Ok((_, st1)) => {
                    lemma_statement_frames(st1, *then_branch);
                    match check_statement(st1, *then_branch) {
                        Ok((_, st2)) => {
                            lemma_framed_twice(st, st1, st2);
                            match else_branch {
                                Some(other) => {
                                    lemma_statement_frames(st2, *other);
                                    match check_statement(st2, *other) {
                                        Ok((_, st3)) => {
                                            lemma_framed_twice(st, st2, st3);
                                        },
                                        Err(_) => {},
                                    }
                                },
                                None => {},
                            }
                        },
                        Err(_) => {},
                    }
                },
                Err(_) => {},
            }
        },
        StmtView::WhileStatement { condition, body } => {
            reveal(check_while_statement);
            lemma_expression_seals(st, condition);
            match check_expression(st, condition) {
                Ok((_, st1)) => {
                    lemma_statement_frames(st1, *body);
                    match check_statement(st1, *body) {
                        Ok((_, st2)) => {
                            lemma_framed_twice(st, st1, st2);
                        },
                        Err(_) => {},
                    }
                },
                Err(_) => {},
            }
        },
        StmtView::FunctionDeclaration { identifier, parameters, body } => {
            reveal(check_function_declaration);
            let declared = bind(st, identifier.lexeme, Type::Function);
            lemma_declare_frames(st, identifier.lexeme, Type::Function);
            let entered = enter(declared);
            let inside = bind_parameters(entered, parameters, 0);
            lemma_bind_parameters_frames(entered, parameters, 0);
            lemma_statement_frames(inside, *body);
            match check_statement(inside, *body) {
                Ok((_, st1)) => {
                    lemma_inside_seals(declared, entered, inside, st1);
                    lemma_framed_twice(st, declared, leave(st1, st.scope));
                },
                Err(_) => {},
            }
        },
        StmtView::With { value, identifier, body } => {
            reveal(check_with_statement);
            lemma_scoped_statement_seals(st, s);
        },
        StmtView::For { identifier, iter, body } => {
            reveal(check_for_statement);
            lemma_scoped_statement_seals(st, s);
        },
    }
}

proof fn lemma_statements_frame(st: CheckerView, ss: Seq<StmtView>, i: int)
    ensures
        check_statements(st, ss, i) matches Ok(after) ==> framed(st, after),
    decreases ss, ss.len() - i,
{
    reveal(check_statements);
    reveal(check_statement);
    if 0 <= i < ss.len() {
        lemma_statement_frames(st, ss[i]);
        match check_statement(st, ss[i]) {
            Ok((_, st1)) => {
                lemma_statements_frame(st1, ss, i + 1);
                match check_statements(st1, ss, i + 1) {
                    Ok(st2) => {
                        lemma_framed_twice(st, st1, st2);
                    },
                    Err(_) => {},
                }
            },
            Err(_) => {},
        }
    } else {
        lemma_itself(st);
    }
}

/// A `with` and a `for` seal the scopes around them.
proof fn lemma_scoped_statement_seals(st: CheckerView, s: StmtView)
    requires
        s is With || s is For,
    ensures
        check_statement(st, s) matches Ok((_, after)) ==> sealed(st, after),
    decreases s, 0nat,
{
    reveal(check_statement);
    reveal(check_with_statement);
    reveal(check_for_statement);
    match s {
        StmtView::With { value, identifier, body } => {
            let entered = enter(st);
            lemma_expression_seals(entered, value);
            match check_expression(entered, value) {
                Ok((t, st1)) => {
                    let inside = bind(st1, identifier.lexeme, t);
                    lemma_declare_frames(st1, identifier.lexeme, t);
                    lemma_framed_twice(entered, st1, inside);
                    lemma_statement_frames(inside, *body);
                    match check_statement(inside, *body) {
                        Ok((_, st2)) => {
                            lemma_inside_seals(st, entered, inside, st2);
                        },
                        Err(_) => {},
                    }
                },
                Err(_) => {},
            }
        },
        StmtView::For { identifier, iter, body } => {
            lemma_expression_seals(st, iter);
            match check_expression(st, iter) {
                Ok((t, st1)) => {
                    let entered = enter(st1);
                    let inside = bind(entered, identifier.lexeme, t);
                    lemma_declare_frames(entered, identifier.lexeme, t);
                    lemma_statement_frames(inside, *body);
                    match check_statement(inside, *body) {
                        Ok((_, st2)) => {
                            lemma_inside_seals(st1, entered, inside, st2);
                            lemma_sealed_twice(st, st1, leave(st2, st1.scope));
                        },
                        Err(_) => {},
                    }
                },
                Err(_) => {},
            }
        },
        _ => {},
    }
}

/// Scope, as the checker sees it: after a block, a `with` or a `for` that
/// passed the check, exactly the names that were visible before are visible,
/// and the scope that was current is current again. A name that is declared
/// inside is not known behind the construct.
pub proof fn law_scoped_statement_keeps_the_names_around_it(st: CheckerView, s: StmtView, name: Seq<char>)
    requires
        0 <= st.scope < st.scopes.len(),
        s is Block || s is With || s is For,
        check_statement(st, s) is Ok,
    ensures
        check_statement(st, s)->Ok_0.1.scope == st.scope,
        visible(check_statement(st, s)->Ok_0.1, name) == visible(st, name),
{
    let after = check_statement(st, s)->Ok_0.1;
    if s is Block {
        reveal(check_statement);
        reveal(check_block);
        reveal(check_statements);
        let inside = enter(st);
        lemma_statements_frame(inside, s->Block_statements, 0);
        lemma_itself(inside);
        lemma_inside_seals(st, inside, inside, check_statements(inside, s->Block_statements, 0)->Ok_0);
    } else {
        lemma_scoped_statement_seals(st, s);
    }
    lemma_sealed_keeps_names(st, after, name);
}

/// Scope, as the checker sees it: a function declaration makes one name
/// known, its own. The parameters and what the body declares are not known
/// behind it, and the scope that was current is current again.
pub proof fn law_function_declaration_declares_its_name_alone(
    st: CheckerView,
    identifier: TokenView,
    parameters: Seq<TokenView>,
    body: StmtView,
    name: Seq<char>,
)
    requires
        0 <= st.scope < st.scopes.len(),
        name != identifier.lexeme,
        check_statement(st, StmtView::FunctionDeclaration { identifier, parameters, body: Box::new(body) }) is Ok,
    ensures
        ({
            let after = check_statement(
                st,
                StmtView::FunctionDeclaration { identifier, parameters, body: Box::new(body) },
            )->Ok_0.1;
            &&& after.scope == st.scope
            &&& visible(after, name) == visible(st, name)
            &&& visible(after, identifier.lexeme)
        }),
{
    reveal(check_statement);
    reveal(check_function_declaration);
    let declared = bind(st, identifier.lexeme, Type::Function);
    let entered = enter(declared);
    let inside = bind_parameters(entered, parameters, 0);
    lemma_bind_parameters_frames(entered, parameters, 0);
    lemma_statement_frames(inside, body);
    let st1 = check_statement(inside, body)->Ok_0.1;
    lemma_inside_seals(declared, entered, inside, st1);
    let after = leave(st1, st.scope);
    lemma_sealed_keeps_names(declared, after, name);
    lemma_sealed_keeps_names(declared, after, identifier.lexeme);
    crate::visitors::environment::law_declaration_changes_one_name(
        st.scopes,
        st.scope,
        identifier.lexeme,
        Type::Function,
        st.scope,
        name,
    );
}

} // verus!
