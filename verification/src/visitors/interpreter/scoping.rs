//! The scoping law: whatever a program does, a construct that has a scope
//! of its own leaves the names that are visible around it as they were.
use vstd::prelude::*;
use crate::parser::expression::ExprView;
use crate::parser::statement::StmtView;
use crate::token::TokenView;
use crate::visitors::environment::{ScopeView, declare, enclose, lemma_resolve_owner, lookup, resolve};
use crate::visitors::interpreter::number::NumberModel;
use crate::visitors::interpreter::semantics::{
    MachineView, bind, bind_arguments, call_function, call_native, enter, eval_all, eval_and,
    eval_assignment, eval_call, eval_comparison, eval_equality, eval_expression, eval_factor,
    eval_fields, eval_if_expression, eval_index, eval_index_assignment, eval_list, eval_map_index,
    eval_map_index_assignment, eval_or, eval_record, eval_term, eval_unary, exec_block, exec_if,
    exec_statement, exec_statements, exec_while, exec_with, for_each, leave, with_field,
};
use crate::visitors::interpreter::value::{FlowView, RuntimeError, ValueView};

verus! {

/// What a piece of a program may do to the scopes: it may add scopes, and it
/// may declare names in the scope that is current. Every scope that was
/// there before keeps its enclosing scope and, but for the current one, the
/// names that it binds; and the scope that was current is current again.
pub open spec fn framed(before: MachineView, after: MachineView) -> bool {
    &&& after.scopes.len() >= before.scopes.len()
    &&& after.scope == before.scope
    &&& forall|i: int|
        0 <= i < before.scopes.len() ==> (#[trigger] after.scopes[i]).enclosing == before.scopes[i].enclosing
            && (i != before.scope ==> after.scopes[i].bindings.dom() == before.scopes[i].bindings.dom())
}

/// The same, and the current scope binds the same names too.
pub open spec fn sealed(before: MachineView, after: MachineView) -> bool {
    &&& after.scopes.len() >= before.scopes.len()
    &&& after.scope == before.scope
    &&& forall|i: int|
        0 <= i < before.scopes.len() ==> (#[trigger] after.scopes[i]).enclosing == before.scopes[i].enclosing
            && after.scopes[i].bindings.dom() == before.scopes[i].bindings.dom()
}

/// A name is visible from the current scope.
pub open spec fn visible(st: MachineView, name: Seq<char>) -> bool {
    lookup(st.scopes, st.scope, name) is Some
}

/// Whether a name is found depends on the names that the scopes of the
/// chain bind and on their links alone.
proof fn lemma_same_names_same_owner<V>(a: Seq<ScopeView<V>>, b: Seq<ScopeView<V>>, scope: int, name: Seq<char>)
    requires
        0 <= scope < a.len(),
        a.len() <= b.len(),
        forall|i: int|
            0 <= i <= scope ==> (#[trigger] b[i]).enclosing == a[i].enclosing && b[i].bindings.dom()
                == a[i].bindings.dom(),
    ensures
        resolve(a, scope, name) == resolve(b, scope, name),
    decreases scope,
{
    assert(b[scope].enclosing == a[scope].enclosing);
    assert(b[scope].bindings.dom() == a[scope].bindings.dom());
    assert(a[scope].bindings.contains_key(name) == b[scope].bindings.contains_key(name));
    if !a[scope].bindings.contains_key(name) {
        match a[scope].enclosing {
            Some(outer) => {
                if 0 <= outer < scope {
                    lemma_same_names_same_owner(a, b, outer, name);
                }
            },
            None => {},
        }
    }
}

/// Where the scopes are sealed, the same names are visible.
pub proof fn lemma_sealed_keeps_names(before: MachineView, after: MachineView, name: Seq<char>)
    requires
        sealed(before, after),
        0 <= before.scope < before.scopes.len(),
    ensures
        visible(after, name) == visible(before, name),
{
    lemma_same_names_same_owner(before.scopes, after.scopes, before.scope, name);
}

/// Scopes that are the same are sealed.
proof fn lemma_same_scopes_sealed(before: MachineView, after: MachineView)
    requires
        after.scopes == before.scopes,
        after.scope == before.scope,
    ensures
        sealed(before, after),
{
}

proof fn lemma_sealed_twice(a: MachineView, b: MachineView, c: MachineView)
    requires
        sealed(a, b),
        sealed(b, c),
    ensures
        sealed(a, c),
{
    assert forall|i: int| 0 <= i < a.scopes.len() implies (#[trigger] c.scopes[i]).enclosing
        == a.scopes[i].enclosing && c.scopes[i].bindings.dom() == a.scopes[i].bindings.dom() by {
        assert(b.scopes[i].enclosing == a.scopes[i].enclosing);
        assert(c.scopes[i].enclosing == b.scopes[i].enclosing);
    }
}

proof fn lemma_framed_twice(a: MachineView, b: MachineView, c: MachineView)
    requires
        framed(a, b),
        framed(b, c),
    ensures
        framed(a, c),
{
    assert forall|i: int| 0 <= i < a.scopes.len() implies (#[trigger] c.scopes[i]).enclosing
        == a.scopes[i].enclosing && (i != a.scope ==> c.scopes[i].bindings.dom()
        == a.scopes[i].bindings.dom()) by {
        assert(b.scopes[i].enclosing == a.scopes[i].enclosing);
        assert(c.scopes[i].enclosing == b.scopes[i].enclosing);
    }
}

proof fn lemma_declare_frames(st: MachineView, name: Seq<char>, value: ValueView)
    ensures
        framed(st, bind(st, name, value)),
{
    let after = bind(st, name, value);
    assert forall|i: int| 0 <= i < st.scopes.len() implies (#[trigger] after.scopes[i]).enclosing
        == st.scopes[i].enclosing && (i != st.scope ==> after.scopes[i].bindings.dom()
        == st.scopes[i].bindings.dom()) by {}
}

proof fn lemma_assign_seals(st: MachineView, name: Seq<char>, value: ValueView)
    requires
        resolve(st.scopes, st.scope, name) is Some,
    ensures
        sealed(
            st,
            MachineView {
                scopes: declare(st.scopes, resolve(st.scopes, st.scope, name)->Some_0, name, value),
                ..st
            },
        ),
{
    lemma_resolve_owner(st.scopes, st.scope, name);
    let owner = resolve(st.scopes, st.scope, name)->Some_0;
    let after = declare(st.scopes, owner, name, value);
    assert forall|i: int| 0 <= i < st.scopes.len() implies (#[trigger] after[i]).enclosing
        == st.scopes[i].enclosing && after[i].bindings.dom() == st.scopes[i].bindings.dom() by {
        if i == owner {
            assert(after[i].bindings.dom() =~= st.scopes[i].bindings.dom());
        }
    }
}

/// What runs inside a new scope and leaves it again seals the scopes around
/// it.
proof fn lemma_inside_seals(st: MachineView, entered: MachineView, inside: MachineView, after: MachineView)
    requires
        entered.scopes == enclose(st.scopes, entered.scopes[st.scopes.len() as int].enclosing->Some_0),
        entered.scope == st.scopes.len(),
        framed(entered, inside),
        framed(inside, after),
    ensures
        sealed(st, leave(after, st.scope)),
{
    let last = leave(after, st.scope);
    assert forall|i: int| 0 <= i < st.scopes.len() implies (#[trigger] last.scopes[i]).enclosing
        == st.scopes[i].enclosing && last.scopes[i].bindings.dom() == st.scopes[i].bindings.dom() by {
        assert(entered.scopes[i] == st.scopes[i]);
        assert(inside.scopes[i].enclosing == entered.scopes[i].enclosing);
        assert(after.scopes[i].enclosing == inside.scopes[i].enclosing);
    }
}

proof fn lemma_framed_itself(st: MachineView)
    ensures
        framed(st, st),
        sealed(st, st),
{
}

proof fn lemma_bind_arguments_frames(st: MachineView, parameters: Seq<TokenView>, arguments: Seq<ValueView>, i: int)
    ensures
        framed(st, bind_arguments(st, parameters, arguments, i)),
    decreases parameters.len() - i,
{
    if 0 <= i < parameters.len() && i < arguments.len() {
        let next = bind(st, parameters[i].lexeme, arguments[i]);
        lemma_declare_frames(st, parameters[i].lexeme, arguments[i]);
        lemma_bind_arguments_frames(next, parameters, arguments, i + 1);
        lemma_framed_twice(st, next, bind_arguments(next, parameters, arguments, i + 1));
    } else {
        lemma_framed_itself(st);
    }
}

/// Two expressions in a row seal the scopes.
proof fn lemma_pair_seals(m: NumberModel, st: MachineView, first: ExprView, second: ExprView, depth: nat, e: ExprView)
    requires
        decreases_to!(e => first),
        decreases_to!(e => second),
    ensures
        ({
            let (a, st1) = eval_expression(m, st, first, depth);
            let (b, st2) = eval_expression(m, st1, second, depth);
            &&& a is Ok ==> sealed(st, st1)
            &&& a is Ok && b is Ok ==> sealed(st, st2)
        }),
    decreases depth, 0nat, e, 0nat, 0nat,
{
    lemma_expression_seals(m, st, first, depth);
    let (a, st1) = eval_expression(m, st, first, depth);
    lemma_expression_seals(m, st1, second, depth);
    let (b, st2) = eval_expression(m, st1, second, depth);
    if a is Ok && b is Ok {
        lemma_sealed_twice(st, st1, st2);
    }
}

/// An expression seals the scopes: it declares nothing where it stands.
pub proof fn lemma_expression_seals(m: NumberModel, st: MachineView, e: ExprView, depth: nat)
    ensures
        eval_expression(m, st, e, depth).0 is Ok ==> sealed(st, eval_expression(m, st, e, depth).1),
    decreases depth, 0nat, e, 1nat, 0nat,
{
    reveal(eval_expression);
    reveal(eval_all);
    reveal(eval_fields);
    reveal(call_function);
    match e {
        ExprView::Equality { left, operator, right } => {
            reveal(eval_equality);
            lemma_pair_seals(m, st, *left, *right, depth, e);
        },
        ExprView::Comparison { left, operator, right } => {
            reveal(eval_comparison);
            lemma_pair_seals(m, st, *left, *right, depth, e);
        },
        ExprView::Term { left, operator, right } => {
            reveal(eval_term);
            lemma_pair_seals(m, st, *left, *right, depth, e);
        },
        ExprView::Factor { left, operator, right } => {
            reveal(eval_factor);
            lemma_pair_seals(m, st, *left, *right, depth, e);
        },
        ExprView::And { left, right } => {
            reveal(eval_and);
            lemma_pair_seals(m, st, *left, *right, depth, e);
        },
        ExprView::Or { left, right } => {
            reveal(eval_or);
            lemma_pair_seals(m, st, *left, *right, depth, e);
        },
        ExprView::Index { list, expression } => {
            reveal(eval_index);
            lemma_pair_seals(m, st, *list, *expression, depth, e);
        },
        ExprView::MapIndexAssignment { map, key, value } => {
            reveal(eval_map_index_assignment);
            lemma_pair_seals(m, st, *map, *value, depth, e);
            let (a, st1) = eval_expression(m, st, *map, depth);
            let (b, st2) = eval_expression(m, st1, *value, depth);
            if a is Ok && b is Ok {
                let st3 = eval_expression(m, st, e, depth).1;
                lemma_same_scopes_sealed(st2, st3);
                lemma_sealed_twice(st, st2, st3);
            }
        },
        ExprView::Unary { operator, right } => {
            reveal(eval_unary);
            lemma_expression_seals(m, st, *right, depth);
        },
        ExprView::MapIndex { map, key } => {
            reveal(eval_map_index);
            lemma_expression_seals(m, st, *map, depth);
        },
        ExprView::Primary { value } => {
            lemma_framed_itself(st);
        },
        ExprView::Assignment { identifier, value } => {
            reveal(eval_assignment);
            lemma_expression_seals(m, st, *value, depth);
            let (r, st1) = eval_expression(m, st, *value, depth);
            if r is Ok && resolve(st1.scopes, st1.scope, identifier.lexeme) is Some {
                lemma_assign_seals(st1, identifier.lexeme, r->Ok_0);
                lemma_sealed_twice(st, st1, eval_expression(m, st, e, depth).1);
            }
        },
        ExprView::IfExpression { condition, then_branch, else_branch } => {
            reveal(eval_if_expression);
            lemma_expression_seals(m, st, *condition, depth);
            let (c, st1) = eval_expression(m, st, *condition, depth);
            if c is Ok {
                lemma_expression_seals(m, st1, *then_branch, depth);
                lemma_expression_seals(m, st1, *else_branch, depth);
                if eval_expression(m, st, e, depth).0 is Ok {
                    lemma_sealed_twice(st, st1, eval_expression(m, st, e, depth).1);
                }
            }
        },
        ExprView::IndexAssignment { list, expression, value } => {
            reveal(eval_index_assignment);
            lemma_pair_seals(m, st, *list, *expression, depth, e);
            let (a, st1) = eval_expression(m, st, *list, depth);
            let (b, st2) = eval_expression(m, st1, *expression, depth);
            if a is Ok && b is Ok {
                lemma_expression_seals(m, st2, *value, depth);
                let (c, st3) = eval_expression(m, st2, *value, depth);
                if c is Ok {
                    lemma_sealed_twice(st, st2, st3);
                    let st4 = eval_expression(m, st, e, depth).1;
                    lemma_same_scopes_sealed(st3, st4);
                    lemma_sealed_twice(st, st3, st4);
                }
            }
        },
        ExprView::List { values } => {
            reveal(eval_list);
            lemma_all_seal(m, st, values, 0, depth, Seq::empty());
            let (items, st1) = eval_all(m, st, values, 0, depth, Seq::empty());
            if items is Ok {
                let st2 = eval_expression(m, st, e, depth).1;
                lemma_same_scopes_sealed(st1, st2);
                lemma_sealed_twice(st, st1, st2);
            }
        },
        ExprView::Record { key_values } => {
            reveal(eval_record);
            lemma_fields_seal(m, st, key_values, 0, depth, Seq::empty());
            let (fields, st1) = eval_fields(m, st, key_values, 0, depth, Seq::empty());
            if fields is Ok {
                let st2 = eval_expression(m, st, e, depth).1;
                lemma_same_scopes_sealed(st1, st2);
                lemma_sealed_twice(st, st1, st2);
            }
        },
        ExprView::Call { identifier, arguments } => {
            reveal(eval_call);
            lemma_expression_seals(m, st, *identifier, depth);
            let (callee, st1) = eval_expression(m, st, *identifier, depth);
            if callee is Ok {
                lemma_all_seal(m, st1, arguments, 0, depth, Seq::empty());
                let (values, st2) = eval_all(m, st1, arguments, 0, depth, Seq::empty());
                if values is Ok {
                    lemma_sealed_twice(st, st1, st2);
                    let st3 = eval_expression(m, st, e, depth).1;
                    if eval_expression(m, st, e, depth).0 is Ok {
                        match callee->Ok_0 {
                            ValueView::Function { arity, declaration, closure } => {
                                lemma_call_seals(m, st2, declaration, closure, values->Ok_0, (depth - 1) as nat);
                            },
                            ValueView::BuiltIn(built_in) => {
                                lemma_native_seals(m, st2, built_in.function, values->Ok_0, depth);
                            },
                            _ => {},
                        }
                        lemma_sealed_twice(st, st2, st3);
                    }
                }
            }
        },
    }
}

/// A built-in function leaves the scopes alone.
proof fn lemma_native_seals(
    m: NumberModel,
    st: MachineView,
    native: crate::visitors::interpreter::callable::Native,
    arguments: Seq<ValueView>,
    depth: nat,
)
    ensures
        sealed(st, call_native(m, st, native, arguments, depth).1),
{
    let after = call_native(m, st, native, arguments, depth).1;
    assert(after.scopes == st.scopes && after.scope == st.scope);
}

proof fn lemma_all_seal(m: NumberModel, st: MachineView, es: Seq<ExprView>, i: int, depth: nat, done: Seq<ValueView>)
    ensures
        eval_all(m, st, es, i, depth, done).0 is Ok ==> sealed(st, eval_all(m, st, es, i, depth, done).1),
    decreases depth, 0nat, es, 0nat, es.len() - i,
{
    reveal(eval_all);
    reveal(eval_expression);
    if 0 <= i < es.len() {
        lemma_expression_seals(m, st, es[i], depth);
        let (v, st1) = eval_expression(m, st, es[i], depth);
        if v is Ok {
            lemma_all_seal(m, st1, es, i + 1, depth, done.push(v->Ok_0));
            if eval_all(m, st1, es, i + 1, depth, done.push(v->Ok_0)).0 is Ok {
                lemma_sealed_twice(st, st1, eval_all(m, st1, es, i + 1, depth, done.push(v->Ok_0)).1);
            }
        }
    } else {
        lemma_framed_itself(st);
    }
}

proof fn lemma_fields_seal(
    m: NumberModel,
    st: MachineView,
    entries: Seq<(TokenView, ExprView)>,
    i: int,
    depth: nat,
    done: Seq<(Seq<char>, ValueView)>,
)
    ensures
        eval_fields(m, st, entries, i, depth, done).0 is Ok ==> sealed(
            st,
            eval_fields(m, st, entries, i, depth, done).1,
        ),
    decreases depth, 0nat, entries, 0nat, entries.len() - i,
{
    reveal(eval_fields);
    reveal(eval_expression);
    if 0 <= i < entries.len() {
        lemma_expression_seals(m, st, entries[i].1, depth);
        let (v, st1) = eval_expression(m, st, entries[i].1, depth);
        if v is Ok {
            let next = with_field(done, entries[i].0.lexeme, v->Ok_0);
            lemma_fields_seal(m, st1, entries, i + 1, depth, next);
            if eval_fields(m, st1, entries, i + 1, depth, next).0 is Ok {
                lemma_sealed_twice(st, st1, eval_fields(m, st1, entries, i + 1, depth, next).1);
            }
        }
    } else {
        lemma_framed_itself(st);
    }
}

/// A call seals the scopes of its caller: what the body declares, it
/// declares in scopes of its own.
pub proof fn lemma_call_seals(
    m: NumberModel,
    st: MachineView,
    declaration: StmtView,
    closure: int,
    arguments: Seq<ValueView>,
    depth: nat,
)
    ensures
        call_function(m, st, declaration, closure, arguments, depth).0 is Ok ==> sealed(
            st,
            call_function(m, st, declaration, closure, arguments, depth).1,
        ),
    decreases depth, 1nat, declaration, 2nat, 0nat,
{
    reveal(call_function);
    reveal(exec_statement);
    match declaration {
        StmtView::FunctionDeclaration { identifier, parameters, body } => {
            let entered = enter(st, closure);
            let inside = bind_arguments(entered, parameters, arguments, 0);
            lemma_bind_arguments_frames(entered, parameters, arguments, 0);
            lemma_statement_frames(m, inside, *body, depth);
            let (flow, st1) = exec_statement(m, inside, *body, depth);
            if flow is Ok {
                lemma_inside_seals(st, entered, inside, st1);
            }
        },
        _ => {},
    }
}

/// A statement frames the scopes: it declares names in the current scope
/// alone.
pub proof fn lemma_statement_frames(m: NumberModel, st: MachineView, s: StmtView, depth: nat)
    ensures
        exec_statement(m, st, s, depth).0 is Ok ==> framed(st, exec_statement(m, st, s, depth).1),
    decreases depth, 1nat, s, 1nat, 0nat,
{
    reveal(exec_statement);
    reveal(eval_expression);
    let whole = exec_statement(m, st, s, depth);
    match s {
        StmtView::ExpressionStatement { expression } => {
            lemma_expression_seals(m, st, expression, depth);
        },
        StmtView::PrintStatement { expression } => {
            lemma_expression_seals(m, st, expression, depth);
            let (v, st1) = eval_expression(m, st, expression, depth);
            if whole.0 is Ok {
                lemma_same_scopes_sealed(st1, whole.1);
                lemma_sealed_twice(st, st1, whole.1);
            }
        },
        StmtView::VariableDeclaration { identifier, expression } => {
            match expression {
                Some(e) => {
                    lemma_expression_seals(m, st, e, depth);
                    let (v, st1) = eval_expression(m, st, e, depth);
                    if v is Ok {
                        lemma_declare_frames(st1, identifier.lexeme, v->Ok_0);
                        lemma_framed_twice(st, st1, whole.1);
                    }
                },
                None => {
                    lemma_declare_frames(st, identifier.lexeme, ValueView::Nil);
                },
            }
        },
        StmtView::FunctionDeclaration { identifier, parameters, body } => {
            lemma_declare_frames(
                st,
                identifier.lexeme,
                ValueView::Function { arity: parameters.len(), declaration: s, closure: st.scope },
            );
        },
        StmtView::Return { value } => {
            match value {
                Some(e) => {
                    lemma_expression_seals(m, st, e, depth);
                },
                None => {
                    lemma_framed_itself(st);
                },
            }
        },
        StmtView::Block { statements } => {
            reveal(exec_block);
            reveal(exec_statements);
            let inside = enter(st, st.scope);
            lemma_statements_frame(m, inside, statements, 0, depth);
            let (flow, st1) = exec_statements(m, inside, statements, 0, depth);
            if flow is Ok {
                lemma_framed_itself(inside);
                lemma_inside_seals(st, inside, inside, st1);
            }
        },
        StmtView::IfStatement { condition, then_branch, else_branch } => {
            reveal(exec_if);
            lemma_expression_seals(m, st, condition, depth);
            let (c, st1) = eval_expression(m, st, condition, depth);
            if c is Ok {
                lemma_statement_frames(m, st1, *then_branch, depth);
                match else_branch {
                    Some(other) => {
                        lemma_statement_frames(m, st1, *other, depth);
                    },
                    None => {},
                }
                if whole.0 is Ok {
                    lemma_framed_itself(st1);
                    lemma_framed_twice(st, st1, whole.1);
                }
            }
        },
        StmtView::WhileStatement { condition, body } => {
            reveal(exec_while);
            lemma_while_frames(m, st, s, depth, st.iterations);
        },
        StmtView::With { value, identifier, body } => {
            reveal(exec_with);
            lemma_expression_seals(m, st, value, depth);
            let (v, st1) = eval_expression(m, st, value, depth);
            if v is Ok {
                let entered = enter(st1, st1.scope);
                let inside = bind(entered, identifier.lexeme, v->Ok_0);
                lemma_declare_frames(entered, identifier.lexeme, v->Ok_0);
                lemma_statement_frames(m, inside, *body, depth);
                let (flow, st2) = exec_statement(m, inside, *body, depth);
                if flow is Ok {
                    lemma_inside_seals(st1, entered, inside, st2);
                    lemma_sealed_twice(st, st1, leave(st2, st1.scope));
                }
            }
        },
        StmtView::For { identifier, iter, body } => {
            reveal(for_each);
            lemma_expression_seals(m, st, iter, depth);
            let (it, st1) = eval_expression(m, st, iter, depth);
            if it is Ok {
                match it->Ok_0 {
                    ValueView::Iter(at) => {
                        if 0 <= at < st1.lists.len() {
                            lemma_for_seals(m, st1, s, st1.lists[at], 0, depth, st.scope);
                            if whole.0 is Ok {
                                lemma_sealed_twice(st, st1, whole.1);
                            }
                        }
                    },
                    _ => {},
                }
            }
        },
    }
}

proof fn lemma_statements_frame(m: NumberModel, st: MachineView, ss: Seq<StmtView>, i: int, depth: nat)
    ensures
        exec_statements(m, st, ss, i, depth).0 is Ok ==> framed(st, exec_statements(m, st, ss, i, depth).1),
    decreases depth, 1nat, ss, 0nat, ss.len() - i,
{
    reveal(exec_statements);
    reveal(exec_statement);
    if 0 <= i < ss.len() {
        lemma_statement_frames(m, st, ss[i], depth);
        let (flow, st1) = exec_statement(m, st, ss[i], depth);
        if flow == Ok::<FlowView, RuntimeError>(FlowView::Normal) {
            lemma_statements_frame(m, st1, ss, i + 1, depth);
            if exec_statements(m, st1, ss, i + 1, depth).0 is Ok {
                lemma_framed_twice(st, st1, exec_statements(m, st1, ss, i + 1, depth).1);
            }
        }
    } else {
        lemma_framed_itself(st);
    }
}

proof fn lemma_while_frames(m: NumberModel, st: MachineView, s: StmtView, depth: nat, remaining: nat)
    requires
        s is WhileStatement,
    ensures
        exec_while(m, st, s, depth, remaining).0 is Ok ==> framed(st, exec_while(m, st, s, depth, remaining).1),
    decreases depth, 1nat, s, 0nat, remaining,
{
    reveal(exec_while);
    reveal(exec_statement);
    reveal(eval_expression);
    match s {
        StmtView::WhileStatement { condition, body } => {
            lemma_expression_seals(m, st, condition, depth);
            let (c, st1) = eval_expression(m, st, condition, depth);
            if c is Ok {
                if c == Ok::<ValueView, RuntimeError>(ValueView::Boolean(true)) && remaining > 0 {
                    lemma_statement_frames(m, st1, *body, depth);
                    let (flow, st2) = exec_statement(m, st1, *body, depth);
                    if flow is Ok {
                        lemma_framed_twice(st, st1, st2);
                        if flow == Ok::<FlowView, RuntimeError>(FlowView::Normal) {
                            lemma_while_frames(m, st2, s, depth, (remaining - 1) as nat);
                            if exec_while(m, st2, s, depth, (remaining - 1) as nat).0 is Ok {
                                lemma_framed_twice(st, st2, exec_while(m, st2, s, depth, (remaining - 1) as nat).1);
                            }
                        }
                    }
                }
            }
        },
        _ => {},
    }
}

/// The repetitions of a `for` seal the scopes around them, once the scope
/// `entry` is the current one: each runs in a scope of its own.
proof fn lemma_for_seals(
    m: NumberModel,
    st: MachineView,
    s: StmtView,
    elements: Seq<ValueView>,
    i: int,
    depth: nat,
    entry: int,
)
    requires
        s is For,
        st.scope == entry,
    ensures
        for_each(m, st, s, elements, i, depth, entry).0 is Ok ==> sealed(
            st,
            for_each(m, st, s, elements, i, depth, entry).1,
        ),
    decreases depth, 1nat, s, 0nat, 1nat + elements.len() - i,
{
    reveal(for_each);
    reveal(exec_statement);
    match s {
        StmtView::For { identifier, iter, body } => {
            if 0 <= i < elements.len() {
                let entered = enter(st, st.scope);
                let inside = bind(entered, identifier.lexeme, elements[i]);
                lemma_declare_frames(entered, identifier.lexeme, elements[i]);
                lemma_statement_frames(m, inside, *body, depth);
                let (flow, st1) = exec_statement(m, inside, *body, depth);
                if flow is Ok {
                    lemma_inside_seals(st, entered, inside, st1);
                    let next = leave(st1, entry);
                    if flow == Ok::<FlowView, RuntimeError>(FlowView::Normal) {
                        lemma_for_seals(m, next, s, elements, i + 1, depth, entry);
                        if for_each(m, next, s, elements, i + 1, depth, entry).0 is Ok {
                            lemma_sealed_twice(st, next, for_each(m, next, s, elements, i + 1, depth, entry).1);
                        }
                    }
                }
            } else {
                lemma_framed_itself(st);
            }
        },
        _ => {},
    }
}

/// A block, a `with` and a `for` seal the scopes around them.
proof fn lemma_scoped_statement_seals(m: NumberModel, st: MachineView, s: StmtView, depth: nat)
    requires
        s is With || s is For || s is Block,
        exec_statement(m, st, s, depth).0 is Ok,
    ensures
        sealed(st, exec_statement(m, st, s, depth).1),
{
    reveal(exec_statement);
    reveal(eval_expression);
    let whole = exec_statement(m, st, s, depth);
    match s {
        StmtView::Block { statements } => {
            reveal(exec_block);
            reveal(exec_statements);
            let inside = enter(st, st.scope);
            lemma_statements_frame(m, inside, statements, 0, depth);
            let (flow, st1) = exec_statements(m, inside, statements, 0, depth);
            lemma_framed_itself(inside);
            lemma_inside_seals(st, inside, inside, st1);
        },
        StmtView::With { value, identifier, body } => {
            reveal(exec_with);
            lemma_expression_seals(m, st, value, depth);
            let (v, st1) = eval_expression(m, st, value, depth);
            let entered = enter(st1, st1.scope);
            let inside = bind(entered, identifier.lexeme, v->Ok_0);
            lemma_declare_frames(entered, identifier.lexeme, v->Ok_0);
            lemma_statement_frames(m, inside, *body, depth);
            let (flow, st2) = exec_statement(m, inside, *body, depth);
            lemma_inside_seals(st1, entered, inside, st2);
            lemma_sealed_twice(st, st1, leave(st2, st1.scope));
        },
        StmtView::For { identifier, iter, body } => {
            reveal(for_each);
            lemma_expression_seals(m, st, iter, depth);
            let (it, st1) = eval_expression(m, st, iter, depth);
            match it->Ok_0 {
                ValueView::Iter(at) => {
                    lemma_for_seals(m, st1, s, st1.lists[at], 0, depth, st.scope);
                    lemma_sealed_twice(st, st1, whole.1);
                },
                _ => {},
            }
        },
        _ => {},
    }
}

/// Scope: a variable that is declared inside a block is not visible after
/// the block has ended. Exactly the names that were visible before the block
/// are visible behind it, and the scope that was current is current again.
/// The same holds of a `with` and of a `for`.
pub proof fn law_scoped_statement_keeps_the_names_around_it(
    m: NumberModel,
    st: MachineView,
    s: StmtView,
    depth: nat,
    name: Seq<char>,
)
    requires
        0 <= st.scope < st.scopes.len(),
        s is Block || s is With || s is For,
        exec_statement(m, st, s, depth).0 is Ok,
    ensures
        exec_statement(m, st, s, depth).1.scope == st.scope,
        visible(exec_statement(m, st, s, depth).1, name) == visible(st, name),
{
    lemma_scoped_statement_seals(m, st, s, depth);
    lemma_sealed_keeps_names(st, exec_statement(m, st, s, depth).1, name);
}

/// Scope: an expression, and so every call, leaves the names that are
/// visible as they were: what the body of a function declares is gone when
/// the call has ended, and the caller's scope is current again.
pub proof fn law_expression_keeps_the_names_around_it(
    m: NumberModel,
    st: MachineView,
    e: ExprView,
    depth: nat,
    name: Seq<char>,
)
    requires
        0 <= st.scope < st.scopes.len(),
        eval_expression(m, st, e, depth).0 is Ok,
    ensures
        eval_expression(m, st, e, depth).1.scope == st.scope,
        visible(eval_expression(m, st, e, depth).1, name) == visible(st, name),
{
    lemma_expression_seals(m, st, e, depth);
    lemma_sealed_keeps_names(st, eval_expression(m, st, e, depth).1, name);
}

} // verus!
