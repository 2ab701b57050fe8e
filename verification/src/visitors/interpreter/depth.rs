//! The depth is a budget and nothing more: a program that does not run out
//! of it does the same with every larger one.
use vstd::prelude::*;
use crate::parser::expression::ExprView;
use crate::parser::statement::StmtView;
use crate::token::TokenView;
use crate::visitors::interpreter::callable::Native;
use crate::visitors::interpreter::number::NumberModel;
use crate::visitors::interpreter::semantics::{
    MachineView, bind, bind_arguments, call_function, call_native, enter, eval_all, eval_and,
    eval_assignment, eval_call, eval_comparison, eval_equality, eval_expression, eval_factor,
    eval_fields, eval_if_expression, eval_index, eval_index_assignment, eval_list, eval_map_index,
    eval_map_index_assignment, eval_or, eval_record, eval_term, eval_unary, exec_block, exec_if,
    exec_statement, exec_statements, exec_while, exec_with, for_each, leave, render, render_all,
    render_fields, render_items, run, separator, with_field,
};
use crate::visitors::interpreter::value::{FlowView, RuntimeError, ValueView};

verus! {

/// An outcome other than having run out of depth.
pub open spec fn settled<T>(outcome: Result<T, RuntimeError>) -> bool {
    outcome != Err::<T, RuntimeError>(RuntimeError::DepthExceeded)
}

proof fn lemma_render_stable(m: NumberModel, st: MachineView, value: ValueView, depth: nat, more: nat)
    requires
        depth <= more,
        settled(render(m, st, value, depth)),
    ensures
        render(m, st, value, more) == render(m, st, value, depth),
    decreases depth, 0nat,
{
    match value {
        ValueView::List(at) => {
            if depth > 0 && 0 <= at < st.lists.len() {
                lemma_render_items_stable(m, st, st.lists[at], 0, (depth - 1) as nat, (more - 1) as nat, "["@);
            }
        },
        ValueView::Iter(at) => {
            if depth > 0 && 0 <= at < st.lists.len() {
                lemma_render_items_stable(
                    m,
                    st,
                    st.lists[at],
                    0,
                    (depth - 1) as nat,
                    (more - 1) as nat,
                    "Iter ["@,
                );
            }
        },
        ValueView::Record(at) => {
            if depth > 0 && 0 <= at < st.records.len() {
                lemma_render_fields_stable(
                    m,
                    st,
                    st.records[at],
                    0,
                    (depth - 1) as nat,
                    (more - 1) as nat,
                    "{"@,
                );
            }
        },
        _ => {},
    }
}

proof fn lemma_render_items_stable(
    m: NumberModel,
    st: MachineView,
    items: Seq<ValueView>,
    i: int,
    depth: nat,
    more: nat,
    done: Seq<char>,
)
    requires
        depth <= more,
        settled(render_items(m, st, items, i, depth, done)),
    ensures
        render_items(m, st, items, i, more, done) == render_items(m, st, items, i, depth, done),
    decreases depth, 1nat + items.len() - i,
{
    if 0 <= i < items.len() {
        lemma_render_stable(m, st, items[i], depth, more);
        match render(m, st, items[i], depth) {
            Ok(text) => {
                lemma_render_items_stable(m, st, items, i + 1, depth, more, done + separator(i) + text);
            },
            Err(_) => {},
        }
    }
}

proof fn lemma_render_fields_stable(
    m: NumberModel,
    st: MachineView,
    fields: Seq<(Seq<char>, ValueView)>,
    i: int,
    depth: nat,
    more: nat,
    done: Seq<char>,
)
    requires
        depth <= more,
        settled(render_fields(m, st, fields, i, depth, done)),
    ensures
        render_fields(m, st, fields, i, more, done) == render_fields(m, st, fields, i, depth, done),
    decreases depth, 1nat + fields.len() - i,
{
    if 0 <= i < fields.len() {
        lemma_render_stable(m, st, fields[i].1, depth, more);
        match render(m, st, fields[i].1, depth) {
            Ok(text) => {
                lemma_render_fields_stable(
                    m,
                    st,
                    fields,
                    i + 1,
                    depth,
                    more,
                    done + separator(i) + fields[i].0 + ":"@ + text,
                );
            },
            Err(_) => {},
        }
    }
}

proof fn lemma_render_all_stable(
    m: NumberModel,
    st: MachineView,
    values: Seq<ValueView>,
    i: int,
    depth: nat,
    more: nat,
    done: Seq<char>,
)
    requires
        depth <= more,
        settled(render_all(m, st, values, i, depth, done)),
    ensures
        render_all(m, st, values, i, more, done) == render_all(m, st, values, i, depth, done),
    decreases values.len() - i,
{
    if 0 <= i < values.len() {
        lemma_render_stable(m, st, values[i], depth, more);
        match render(m, st, values[i], depth) {
            Ok(text) => {
                lemma_render_all_stable(m, st, values, i + 1, depth, more, done + text);
            },
            Err(_) => {},
        }
    }
}

proof fn lemma_native_stable(
    m: NumberModel,
    st: MachineView,
    native: Native,
    arguments: Seq<ValueView>,
    depth: nat,
    more: nat,
)
    requires
        depth <= more,
        settled(call_native(m, st, native, arguments, depth).0),
    ensures
        call_native(m, st, native, arguments, more) == call_native(m, st, native, arguments, depth),
{
    if native == Native::Println {
        lemma_render_all_stable(m, st, arguments, 0, depth, more, Seq::empty());
    }
}

/// Two expressions in a row.
proof fn lemma_pair_stable(
    m: NumberModel,
    st: MachineView,
    first: ExprView,
    second: ExprView,
    depth: nat,
    more: nat,
    e: ExprView,
)
    requires
        depth <= more,
        decreases_to!(e => first),
        decreases_to!(e => second),
    ensures
        ({
            let (a, st1) = eval_expression(m, st, first, depth);
            let (b, st2) = eval_expression(m, st1, second, depth);
            &&& settled(a) ==> eval_expression(m, st, first, more) == (a, st1)
            &&& a is Ok && settled(b) ==> eval_expression(m, st1, second, more) == (b, st2)
        }),
    decreases depth, 0nat, e, 0nat, 0nat,
{
    let (a, st1) = eval_expression(m, st, first, depth);
    if settled(a) {
        lemma_expression_stable(m, st, first, depth, more);
    }
    let (b, st2) = eval_expression(m, st1, second, depth);
    if a is Ok && settled(b) {
        lemma_expression_stable(m, st1, second, depth, more);
    }
}

/// An expression that does not run out of depth has the same value, and
/// leaves the same state, with every larger depth.
pub proof fn lemma_expression_stable(m: NumberModel, st: MachineView, e: ExprView, depth: nat, more: nat)
    requires
        depth <= more,
        settled(eval_expression(m, st, e, depth).0),
    ensures
        eval_expression(m, st, e, more) == eval_expression(m, st, e, depth),
    decreases depth, 0nat, e, 1nat, 0nat,
{
    reveal(eval_expression);
    reveal(eval_all);
    reveal(eval_fields);
    reveal(call_function);
    match e {
        ExprView::Equality { left, operator, right } => {
            reveal(eval_equality);
            lemma_pair_stable(m, st, *left, *right, depth, more, e);
        },
        ExprView::Comparison { left, operator, right } => {
            reveal(eval_comparison);
            lemma_pair_stable(m, st, *left, *right, depth, more, e);
        },
        ExprView::Term { left, operator, right } => {
            reveal(eval_term);
            lemma_pair_stable(m, st, *left, *right, depth, more, e);
        },
        ExprView::Factor { left, operator, right } => {
            reveal(eval_factor);
            lemma_pair_stable(m, st, *left, *right, depth, more, e);
        },
        ExprView::And { left, right } => {
            reveal(eval_and);
            lemma_pair_stable(m, st, *left, *right, depth, more, e);
        },
        ExprView::Or { left, right } => {
            reveal(eval_or);
            lemma_pair_stable(m, st, *left, *right, depth, more, e);
        },
        ExprView::Index { list, expression } => {
            reveal(eval_index);
            lemma_pair_stable(m, st, *list, *expression, depth, more, e);
        },
        ExprView::MapIndexAssignment { map, key, value } => {
            reveal(eval_map_index_assignment);
            lemma_pair_stable(m, st, *map, *value, depth, more, e);
        },
        ExprView::Unary { operator, right } => {
            reveal(eval_unary);
            lemma_expression_stable(m, st, *right, depth, more);
        },
        ExprView::MapIndex { map, key } => {
            reveal(eval_map_index);
            lemma_expression_stable(m, st, *map, depth, more);
        },
        ExprView::Primary { value } => {},
        ExprView::Assignment { identifier, value } => {
            reveal(eval_assignment);
            lemma_expression_stable(m, st, *value, depth, more);
        },
        ExprView::IfExpression { condition, then_branch, else_branch } => {
            reveal(eval_if_expression);
            lemma_expression_stable(m, st, *condition, depth, more);
            let (c, st1) = eval_expression(m, st, *condition, depth);
            match c {
                Ok(ValueView::Boolean(truth)) => {
                    if truth {
                        lemma_expression_stable(m, st1, *then_branch, depth, more);
                    } else {
                        lemma_expression_stable(m, st1, *else_branch, depth, more);
                    }
                },
                _ => {},
            }
        },
        ExprView::IndexAssignment { list, expression, value } => {
            reveal(eval_index_assignment);
            lemma_pair_stable(m, st, *list, *expression, depth, more, e);
            let (a, st1) = eval_expression(m, st, *list, depth);
            let (b, st2) = eval_expression(m, st1, *expression, depth);
            if a is Ok && b is Ok {
                lemma_expression_stable(m, st2, *value, depth, more);
            }
        },
        ExprView::List { values } => {
            reveal(eval_list);
            lemma_all_stable(m, st, values, 0, depth, more, Seq::empty());
        },
        ExprView::Record { key_values } => {
            reveal(eval_record);
            lemma_fields_stable(m, st, key_values, 0, depth, more, Seq::empty());
        },
        ExprView::Call { identifier, arguments } => {
            reveal(eval_call);
            lemma_expression_stable(m, st, *identifier, depth, more);
            let (callee, st1) = eval_expression(m, st, *identifier, depth);
            if callee is Ok {
                lemma_all_stable(m, st1, arguments, 0, depth, more, Seq::empty());
                let (values, st2) = eval_all(m, st1, arguments, 0, depth, Seq::empty());
                if values is Ok {
                    match callee->Ok_0 {
                        ValueView::Function { arity, declaration, closure } => {
                            if arity == values->Ok_0.len() && depth > 0 {
                                lemma_call_stable(
                                    m,
                                    st2,
                                    declaration,
                                    closure,
                                    values->Ok_0,
                                    (depth - 1) as nat,
                                    (more - 1) as nat,
                                );
                            }
                        },
                        ValueView::BuiltIn(built_in) => {
                            if !(built_in.arity is Some && built_in.arity->Some_0 != values->Ok_0.len()) {
                                lemma_native_stable(m, st2, built_in.function, values->Ok_0, depth, more);
                            }
                        },
                        _ => {},
                    }
                }
            }
        },
    }
}

proof fn lemma_all_stable(
    m: NumberModel,
    st: MachineView,
    es: Seq<ExprView>,
    i: int,
    depth: nat,
    more: nat,
    done: Seq<ValueView>,
)
    requires
        depth <= more,
        settled(eval_all(m, st, es, i, depth, done).0),
    ensures
        eval_all(m, st, es, i, more, done) == eval_all(m, st, es, i, depth, done),
    decreases depth, 0nat, es, 0nat, es.len() - i,
{
    reveal(eval_all);
    reveal(eval_expression);
    if 0 <= i < es.len() {
        lemma_expression_stable(m, st, es[i], depth, more);
        let (v, st1) = eval_expression(m, st, es[i], depth);
        if v is Ok {
            lemma_all_stable(m, st1, es, i + 1, depth, more, done.push(v->Ok_0));
        }
    }
}

proof fn lemma_fields_stable(
    m: NumberModel,
    st: MachineView,
    entries: Seq<(TokenView, ExprView)>,
    i: int,
    depth: nat,
    more: nat,
    done: Seq<(Seq<char>, ValueView)>,
)
    requires
        depth <= more,
        settled(eval_fields(m, st, entries, i, depth, done).0),
    ensures
        eval_fields(m, st, entries, i, more, done) == eval_fields(m, st, entries, i, depth, done),
    decreases depth, 0nat, entries, 0nat, entries.len() - i,
{
    reveal(eval_fields);
    reveal(eval_expression);
    if 0 <= i < entries.len() {
        lemma_expression_stable(m, st, entries[i].1, depth, more);
        let (v, st1) = eval_expression(m, st, entries[i].1, depth);
        if v is Ok {
            lemma_fields_stable(
                m,
                st1,
                entries,
                i + 1,
                depth,
                more,
                with_field(done, entries[i].0.lexeme, v->Ok_0),
            );
        }
    }
}

proof fn lemma_call_stable(
    m: NumberModel,
    st: MachineView,
    declaration: StmtView,
    closure: int,
    arguments: Seq<ValueView>,
    depth: nat,
    more: nat,
)
    requires
        depth <= more,
        settled(call_function(m, st, declaration, closure, arguments, depth).0),
    ensures
        call_function(m, st, declaration, closure, arguments, more) == call_function(
            m,
            st,
            declaration,
            closure,
            arguments,
            depth,
        ),
    decreases depth, 1nat, declaration, 2nat, 0nat,
{
    reveal(call_function);
    reveal(exec_statement);
    match declaration {
        StmtView::FunctionDeclaration { identifier, parameters, body } => {
            lemma_statement_stable(
                m,
                bind_arguments(enter(st, closure), parameters, arguments, 0),
                *body,
                depth,
                more,
            );
        },
        _ => {},
    }
}

/// A statement that does not run out of depth ends in the same way, and
/// leaves the same state, with every larger depth.
pub proof fn lemma_statement_stable(m: NumberModel, st: MachineView, s: StmtView, depth: nat, more: nat)
    requires
        depth <= more,
        settled(exec_statement(m, st, s, depth).0),
    ensures
        exec_statement(m, st, s, more) == exec_statement(m, st, s, depth),
    decreases depth, 1nat, s, 1nat, 0nat,
{
    reveal(exec_statement);
    reveal(eval_expression);
    match s {
        StmtView::ExpressionStatement { expression } => {
            lemma_expression_stable(m, st, expression, depth, more);
        },
        StmtView::PrintStatement { expression } => {
            lemma_expression_stable(m, st, expression, depth, more);
            let (v, st1) = eval_expression(m, st, expression, depth);
            if v is Ok {
                lemma_render_stable(m, st1, v->Ok_0, depth, more);
            }
        },
        StmtView::VariableDeclaration { identifier, expression } => {
            match expression {
                Some(e) => {
                    lemma_expression_stable(m, st, e, depth, more);
                },
                None => {},
            }
        },
        StmtView::FunctionDeclaration { identifier, parameters, body } => {},
        StmtView::Return { value } => {
            match value {
                Some(e) => {
                    lemma_expression_stable(m, st, e, depth, more);
                },
                None => {},
            }
        },
        StmtView::Block { statements } => {
            reveal(exec_block);
            reveal(exec_statements);
            lemma_statements_stable(m, enter(st, st.scope), statements, 0, depth, more);
        },
        StmtView::IfStatement { condition, then_branch, else_branch } => {
            reveal(exec_if);
            lemma_expression_stable(m, st, condition, depth, more);
            let (c, st1) = eval_expression(m, st, condition, depth);
            match c {
                Ok(ValueView::Boolean(truth)) => {
                    if truth {
                        lemma_statement_stable(m, st1, *then_branch, depth, more);
                    } else {
                        match else_branch {
                            Some(other) => {
                                lemma_statement_stable(m, st1, *other, depth, more);
                            },
                            None => {},
                        }
                    }
                },
                _ => {},
            }
        },
        StmtView::WhileStatement { condition, body } => {
            reveal(exec_while);
            lemma_while_stable(m, st, s, depth, more, st.iterations);
        },
        StmtView::With { value, identifier, body } => {
            reveal(exec_with);
            lemma_expression_stable(m, st, value, depth, more);
            let (v, st1) = eval_expression(m, st, value, depth);
            if v is Ok {
                lemma_statement_stable(
                    m,
                    bind(enter(st1, st1.scope), identifier.lexeme, v->Ok_0),
                    *body,
                    depth,
                    more,
                );
            }
        },
        StmtView::For { identifier, iter, body } => {
            reveal(for_each);
            lemma_expression_stable(m, st, iter, depth, more);
            let (it, st1) = eval_expression(m, st, iter, depth);
            match it {
                Ok(ValueView::Iter(at)) => {
                    if 0 <= at < st1.lists.len() {
                        lemma_for_stable(m, st1, s, st1.lists[at], 0, depth, more, st.scope);
                    }
                },
                _ => {},
            }
        },
    }
}

proof fn lemma_statements_stable(
    m: NumberModel,
    st: MachineView,
    ss: Seq<StmtView>,
    i: int,
    depth: nat,
    more: nat,
)
    requires
        depth <= more,
        settled(exec_statements(m, st, ss, i, depth).0),
    ensures
        exec_statements(m, st, ss, i, more) == exec_statements(m, st, ss, i, depth),
    decreases depth, 1nat, ss, 0nat, ss.len() - i,
{
    reveal(exec_statements);
    reveal(exec_statement);
    if 0 <= i < ss.len() {
        lemma_statement_stable(m, st, ss[i], depth, more);
        let (flow, st1) = exec_statement(m, st, ss[i], depth);
        if flow == Ok::<FlowView, RuntimeError>(FlowView::Normal) {
            lemma_statements_stable(m, st1, ss, i + 1, depth, more);
        }
    }
}

proof fn lemma_while_stable(
    m: NumberModel,
    st: MachineView,
    s: StmtView,
    depth: nat,
    more: nat,
    remaining: nat,
)
    requires
        depth <= more,
        s is WhileStatement,
        settled(exec_while(m, st, s, depth, remaining).0),
    ensures
        exec_while(m, st, s, more, remaining) == exec_while(m, st, s, depth, remaining),
    decreases depth, 1nat, s, 0nat, remaining,
{
    reveal(exec_while);
    reveal(exec_statement);
    reveal(eval_expression);
    match s {
        StmtView::WhileStatement { condition, body } => {
            lemma_expression_stable(m, st, condition, depth, more);
            let (c, st1) = eval_expression(m, st, condition, depth);
            if c == Ok::<ValueView, RuntimeError>(ValueView::Boolean(true)) && remaining > 0 {
                lemma_statement_stable(m, st1, *body, depth, more);
                let (flow, st2) = exec_statement(m, st1, *body, depth);
                if flow == Ok::<FlowView, RuntimeError>(FlowView::Normal) {
                    lemma_while_stable(m, st2, s, depth, more, (remaining - 1) as nat);
                }
            }
        },
        _ => {},
    }
}

proof fn lemma_for_stable(
    m: NumberModel,
    st: MachineView,
    s: StmtView,
    elements: Seq<ValueView>,
    i: int,
    depth: nat,
    more: nat,
    entry: int,
)
    requires
        depth <= more,
        s is For,
        settled(for_each(m, st, s, elements, i, depth, entry).0),
    ensures
        for_each(m, st, s, elements, i, more, entry) == for_each(m, st, s, elements, i, depth, entry),
    decreases depth, 1nat, s, 0nat, 1nat + elements.len() - i,
{
    reveal(for_each);
    reveal(exec_statement);
    match s {
        StmtView::For { identifier, iter, body } => {
            if 0 <= i < elements.len() {
                let inside = bind(enter(st, st.scope), identifier.lexeme, elements[i]);
                lemma_statement_stable(m, inside, *body, depth, more);
                let (flow, st1) = exec_statement(m, inside, *body, depth);
                if flow == Ok::<FlowView, RuntimeError>(FlowView::Normal) {
                    lemma_for_stable(m, leave(st1, entry), s, elements, i + 1, depth, more, entry);
                }
            }
        },
        _ => {},
    }
}

/// The depth is a budget and nothing more: a program that does not run out
/// of depth has the same outcome, writes the same lines and leaves the same
/// state with every larger depth.
pub proof fn law_depth_is_only_a_budget(
    m: NumberModel,
    st: MachineView,
    ss: Seq<StmtView>,
    i: int,
    depth: nat,
    more: nat,
)
    requires
        depth <= more,
        settled(run(m, st, ss, i, depth).0),
    ensures
        run(m, st, ss, i, more) == run(m, st, ss, i, depth),
    decreases ss.len() - i,
{
    if 0 <= i < ss.len() {
        lemma_statement_stable(m, st, ss[i], depth, more);
        let (flow, st1) = exec_statement(m, st, ss[i], depth);
        if flow == Ok::<FlowView, RuntimeError>(FlowView::Normal) {
            law_depth_is_only_a_budget(m, st1, ss, i + 1, depth, more);
        }
    }
}

} // verus!
