//! A program that asked for more than was handed in can be run again from
//! the start with more handed in. It then writes what it wrote before, and
//! goes on from there: what was written before is the beginning of what is
//! written now.
use vstd::prelude::*;
use crate::parser::expression::ExprView;
use crate::parser::statement::StmtView;
use crate::token::TokenView;
use crate::visitors::interpreter::callable::Native;
use crate::visitors::interpreter::number::NumberModel;
use crate::visitors::interpreter::semantics::{
    MachineView, bind, bind_arguments, call_function, call_native, enter, eval_all, eval_and,
    eval_assignment, eval_call, eval_comparison, eval_equality, eval_expression, eval_factor,
    eval_fields, eval_if_expression, eval_index, eval_index_assignment, eval_list, eval_map_index,
    eval_map_index_assignment, eval_or, eval_record, eval_term, eval_unary, exec_block, exec_if,
    exec_statement, exec_statements, exec_while, exec_with, for_each, leave, render, render_all,
    render_fields, render_items, run, separator, with_field,
};
use crate::visitors::interpreter::supply::{
    Supply, answered, lemma_all_lasting, lemma_bind_arguments_lasting, lemma_call_lasting,
    lemma_expression_lasting, lemma_fields_lasting, lemma_for_lasting, lemma_native_lasting,
    lemma_statement_lasting, lemma_statements_lasting, lemma_while_lasting, supplied,
};
use crate::visitors::interpreter::value::{FlowView, RuntimeError, ValueView};

verus! {

/// What `before` has written is the beginning of what `after` has written.
pub open spec fn behind(before: MachineView, after: MachineView) -> bool {
    before.output.len() <= after.output.len() && after.output.subrange(0, before.output.len() as int)
        == before.output
}

proof fn lemma_behind_itself(st: MachineView, other: MachineView)
    requires
        other.output == st.output,
    ensures
        behind(st, other),
{
    assert(other.output.subrange(0, st.output.len() as int) =~= st.output);
}

proof fn lemma_behind_twice(a: MachineView, b: MachineView, c: MachineView)
    requires
        behind(a, b),
        behind(b, c),
    ensures
        behind(a, c),
{
    assert(c.output.subrange(0, a.output.len() as int) =~= b.output.subrange(0, a.output.len() as int));
}

proof fn lemma_behind_written(st: MachineView, line: Seq<char>, other: MachineView)
    requires
        other.output == st.output.push(line),
    ensures
        behind(st, other),
{
    assert(other.output.subrange(0, st.output.len() as int) =~= st.output);
}


proof fn lemma_native_writes_on(m: NumberModel, st: MachineView, native: Native, arguments: Seq<ValueView>, depth: nat)
    ensures
        behind(st, call_native(m, st, native, arguments, depth).1),
{
    let after = call_native(m, st, native, arguments, depth).1;
    if after.output == st.output {
        lemma_behind_itself(st, after);
    } else {
        lemma_behind_written(st, after.output.last(), after);
    }
}

/// Two expressions in a row.
proof fn lemma_pair_writes_on(m: NumberModel, st: MachineView, first: ExprView, second: ExprView, depth: nat, e: ExprView)
    requires
        decreases_to!(e => first),
        decreases_to!(e => second),
    ensures
        ({
            let (a, st1) = eval_expression(m, st, first, depth);
            let (b, st2) = eval_expression(m, st1, second, depth);
            behind(st, st1) && behind(st1, st2) && behind(st, st2)
        }),
    decreases depth, 0nat, e, 0nat, 0nat,
{
    lemma_expression_writes_on(m, st, first, depth);
    let (a, st1) = eval_expression(m, st, first, depth);
    lemma_expression_writes_on(m, st1, second, depth);
    let (b, st2) = eval_expression(m, st1, second, depth);
    lemma_behind_twice(st, st1, st2);
}

/// An expression takes nothing back of what was written.
pub proof fn lemma_expression_writes_on(m: NumberModel, st: MachineView, e: ExprView, depth: nat)
    ensures
        behind(st, eval_expression(m, st, e, depth).1),
    decreases depth, 0nat, e, 1nat, 0nat,
{
    reveal(eval_expression);
    reveal(eval_all);
    reveal(eval_fields);
    reveal(call_function);
    let whole = eval_expression(m, st, e, depth).1;
    lemma_behind_itself(st, st);
    match e {
        ExprView::Equality { left, operator, right } => {
            reveal(eval_equality);
            lemma_pair_writes_on(m, st, *left, *right, depth, e);
        },
        ExprView::Comparison { left, operator, right } => {
            reveal(eval_comparison);
            lemma_pair_writes_on(m, st, *left, *right, depth, e);
        },
        ExprView::Term { left, operator, right } => {
            reveal(eval_term);
            lemma_pair_writes_on(m, st, *left, *right, depth, e);
        },
        ExprView::Factor { left, operator, right } => {
            reveal(eval_factor);
            lemma_pair_writes_on(m, st, *left, *right, depth, e);
        },
        ExprView::And { left, right } => {
            reveal(eval_and);
            lemma_pair_writes_on(m, st, *left, *right, depth, e);
        },
        ExprView::Or { left, right } => {
            reveal(eval_or);
            lemma_pair_writes_on(m, st, *left, *right, depth, e);
        },
        ExprView::Index { list, expression } => {
            reveal(eval_index);
            lemma_pair_writes_on(m, st, *list, *expression, depth, e);
        },
        ExprView::MapIndexAssignment { map, key, value } => {
            reveal(eval_map_index_assignment);
            lemma_pair_writes_on(m, st, *map, *value, depth, e);
            let (a, st1) = eval_expression(m, st, *map, depth);
            let (b, st2) = eval_expression(m, st1, *value, depth);
            if whole.output == st2.output {
                lemma_behind_itself(st2, whole);
                lemma_behind_twice(st, st2, whole);
            }
        },
        ExprView::Unary { operator, right } => {
            reveal(eval_unary);
            lemma_expression_writes_on(m, st, *right, depth);
        },
        ExprView::MapIndex { map, key } => {
            reveal(eval_map_index);
            lemma_expression_writes_on(m, st, *map, depth);
        },
        ExprView::Primary { value } => {},
        ExprView::Assignment { identifier, value } => {
            reveal(eval_assignment);
            lemma_expression_writes_on(m, st, *value, depth);
            let (r, st1) = eval_expression(m, st, *value, depth);
            lemma_behind_itself(st1, whole);
            lemma_behind_twice(st, st1, whole);
        },
        ExprView::IfExpression { condition, then_branch, else_branch } => {
            reveal(eval_if_expression);
            lemma_expression_writes_on(m, st, *condition, depth);
            let (c, st1) = eval_expression(m, st, *condition, depth);
            lemma_expression_writes_on(m, st1, *then_branch, depth);
            lemma_expression_writes_on(m, st1, *else_branch, depth);
            lemma_behind_twice(st, st1, eval_expression(m, st1, *then_branch, depth).1);
            lemma_behind_twice(st, st1, eval_expression(m, st1, *else_branch, depth).1);
        },
        ExprView::IndexAssignment { list, expression, value } => {
            reveal(eval_index_assignment);
            lemma_pair_writes_on(m, st, *list, *expression, depth, e);
            let (a, st1) = eval_expression(m, st, *list, depth);
            let (b, st2) = eval_expression(m, st1, *expression, depth);
            lemma_expression_writes_on(m, st2, *value, depth);
            let (c, st3) = eval_expression(m, st2, *value, depth);
            lemma_behind_twice(st, st2, st3);
            if whole.output == st3.output {
                lemma_behind_itself(st3, whole);
                lemma_behind_twice(st, st3, whole);
            }
        },
        ExprView::List { values } => {
            reveal(eval_list);
            lemma_all_write_on(m, st, values, 0, depth, Seq::empty());
            let st1 = eval_all(m, st, values, 0, depth, Seq::empty()).1;
            lemma_behind_itself(st1, whole);
            lemma_behind_twice(st, st1, whole);
        },
        ExprView::Record { key_values } => {
            reveal(eval_record);
            lemma_fields_write_on(m, st, key_values, 0, depth, Seq::empty());
            let st1 = eval_fields(m, st, key_values, 0, depth, Seq::empty()).1;
            lemma_behind_itself(st1, whole);
            lemma_behind_twice(st, st1, whole);
        },
        ExprView::Call { identifier, arguments } => {
            reveal(eval_call);
            lemma_expression_writes_on(m, st, *identifier, depth);
            let (callee, st1) = eval_expression(m, st, *identifier, depth);
            lemma_all_write_on(m, st1, arguments, 0, depth, Seq::empty());
            let (values, st2) = eval_all(m, st1, arguments, 0, depth, Seq::empty());
            lemma_behind_twice(st, st1, st2);
            if callee is Ok && values is Ok {
                match callee->Ok_0 {
                    ValueView::Function { arity, declaration, closure } => {
                        if arity == values->Ok_0.len() && depth > 0 {
                            lemma_call_writes_on(m, st2, declaration, closure, values->Ok_0, (depth - 1) as nat);
                        }
                    },
                    ValueView::BuiltIn(built_in) => {
                        lemma_native_writes_on(m, st2, built_in.function, values->Ok_0, depth);
                    },
                    _ => {},
                }
                lemma_behind_itself(st2, st2);
                lemma_behind_twice(st, st2, whole);
            }
        },
    }
}

proof fn lemma_all_write_on(m: NumberModel, st: MachineView, es: Seq<ExprView>, i: int, depth: nat, done: Seq<ValueView>)
    ensures
        behind(st, eval_all(m, st, es, i, depth, done).1),
    decreases depth, 0nat, es, 0nat, es.len() - i,
{
    reveal(eval_all);
    reveal(eval_expression);
    lemma_behind_itself(st, st);
    if 0 <= i < es.len() {
        lemma_expression_writes_on(m, st, es[i], depth);
        let (v, st1) = eval_expression(m, st, es[i], depth);
        if v is Ok {
            lemma_all_write_on(m, st1, es, i + 1, depth, done.push(v->Ok_0));
            lemma_behind_twice(st, st1, eval_all(m, st1, es, i + 1, depth, done.push(v->Ok_0)).1);
        }
    }
}

proof fn lemma_fields_write_on(
    m: NumberModel,
    st: MachineView,
    entries: Seq<(TokenView, ExprView)>,
    i: int,
    depth: nat,
    done: Seq<(Seq<char>, ValueView)>,
)
    ensures
        behind(st, eval_fields(m, st, entries, i, depth, done).1),
    decreases depth, 0nat, entries, 0nat, entries.len() - i,
{
    reveal(eval_fields);
    reveal(eval_expression);
    lemma_behind_itself(st, st);
    if 0 <= i < entries.len() {
        lemma_expression_writes_on(m, st, entries[i].1, depth);
        let (v, st1) = eval_expression(m, st, entries[i].1, depth);
        if v is Ok {
            let next = with_field(done, entries[i].0.lexeme, v->Ok_0);
            lemma_fields_write_on(m, st1, entries, i + 1, depth, next);
            lemma_behind_twice(st, st1, eval_fields(m, st1, entries, i + 1, depth, next).1);
        }
    }
}

proof fn lemma_bind_arguments_writes_nothing(st: MachineView, parameters: Seq<TokenView>, arguments: Seq<ValueView>, i: int)
    ensures
        bind_arguments(st, parameters, arguments, i).output == st.output,
    decreases parameters.len() - i,
{
    if 0 <= i < parameters.len() && i < arguments.len() {
        lemma_bind_arguments_writes_nothing(bind(st, parameters[i].lexeme, arguments[i]), parameters, arguments, i + 1);
    }
}

proof fn lemma_call_writes_on(
    m: NumberModel,
    st: MachineView,
    declaration: StmtView,
    closure: int,
    arguments: Seq<ValueView>,
    depth: nat,
)
    ensures
        behind(st, call_function(m, st, declaration, closure, arguments, depth).1),
    decreases depth, 1nat, declaration, 2nat, 0nat,
{
    reveal(call_function);
    reveal(exec_statement);
    lemma_behind_itself(st, st);
    match declaration {
        StmtView::FunctionDeclaration { identifier, parameters, body } => {
            let inside = bind_arguments(enter(st, closure), parameters, arguments, 0);
            lemma_bind_arguments_writes_nothing(enter(st, closure), parameters, arguments, 0);
            lemma_behind_itself(st, inside);
            lemma_statement_writes_on(m, inside, *body, depth);
            let st1 = exec_statement(m, inside, *body, depth).1;
            lemma_behind_twice(st, inside, st1);
            let whole = call_function(m, st, declaration, closure, arguments, depth).1;
            lemma_behind_itself(st1, whole);
            lemma_behind_twice(st, st1, whole);
        },
        _ => {},
    }
}

/// A statement takes nothing back of what was written.
pub proof fn lemma_statement_writes_on(m: NumberModel, st: MachineView, s: StmtView, depth: nat)
    ensures
        behind(st, exec_statement(m, st, s, depth).1),
    decreases depth, 1nat, s, 1nat, 0nat,
{
    reveal(exec_statement);
    reveal(eval_expression);
    let whole = exec_statement(m, st, s, depth).1;
    lemma_behind_itself(st, st);
    match s {
        StmtView::ExpressionStatement { expression } => {
            lemma_expression_writes_on(m, st, expression, depth);
        },
        StmtView::PrintStatement { expression } => {
            lemma_expression_writes_on(m, st, expression, depth);
            let st1 = eval_expression(m, st, expression, depth).1;
            if whole.output == st1.output {
                lemma_behind_itself(st1, whole);
            } else {
                lemma_behind_written(st1, whole.output.last(), whole);
            }
            lemma_behind_twice(st, st1, whole);
        },
        StmtView::VariableDeclaration { identifier, expression } => {
            match expression {
                Some(e) => {
                    lemma_expression_writes_on(m, st, e, depth);
                    let st1 = eval_expression(m, st, e, depth).1;
                    lemma_behind_itself(st1, whole);
                    lemma_behind_twice(st, st1, whole);
                },
                None => {
                    lemma_behind_itself(st, whole);
                },
            }
        },
        StmtView::FunctionDeclaration { identifier, parameters, body } => {
            lemma_behind_itself(st, whole);
        },
        StmtView::Return { value } => {
            match value {
                Some(e) => {
                    lemma_expression_writes_on(m, st, e, depth);
                },
                None => {},
            }
        },
        StmtView::Block { statements } => {
            reveal(exec_block);
            reveal(exec_statements);
            let inside = enter(st, st.scope);
            lemma_behind_itself(st, inside);
            lemma_statements_write_on(m, inside, statements, 0, depth);
            let st1 = exec_statements(m, inside, statements, 0, depth).1;
            lemma_behind_twice(st, inside, st1);
            lemma_behind_itself(st1, whole);
            lemma_behind_twice(st, st1, whole);
        },
        StmtView::IfStatement { condition, then_branch, else_branch } => {
            reveal(exec_if);
            lemma_expression_writes_on(m, st, condition, depth);
            let st1 = eval_expression(m, st, condition, depth).1;
            lemma_statement_writes_on(m, st1, *then_branch, depth);
            lemma_behind_twice(st, st1, exec_statement(m, st1, *then_branch, depth).1);
            match else_branch {
                Some(other) => {
                    lemma_statement_writes_on(m, st1, *other, depth);
                    lemma_behind_twice(st, st1, exec_statement(m, st1, *other, depth).1);
                },
                None => {},
            }
        },
        StmtView::WhileStatement { condition, body } => {
            reveal(exec_while);
            lemma_while_writes_on(m, st, s, depth, st.iterations);
        },
        StmtView::With { value, identifier, body } => {
            reveal(exec_with);
            lemma_expression_writes_on(m, st, value, depth);
            let (v, st1) = eval_expression(m, st, value, depth);
            if v is Ok {
                let inside = bind(enter(st1, st1.scope), identifier.lexeme, v->Ok_0);
                lemma_behind_itself(st1, inside);
                lemma_statement_writes_on(m, inside, *body, depth);
                let st2 = exec_statement(m, inside, *body, depth).1;
                lemma_behind_twice(st1, inside, st2);
                lemma_behind_twice(st, st1, st2);
                lemma_behind_itself(st2, whole);
                lemma_behind_twice(st, st2, whole);
            }
        },
        StmtView::For { identifier, iter, body } => {
            reveal(for_each);
            lemma_expression_writes_on(m, st, iter, depth);
            let (it, st1) = eval_expression(m, st, iter, depth);
            match it {
                Ok(ValueView::Iter(at)) => {
                    if 0 <= at < st1.lists.len() {
                        lemma_for_writes_on(m, st1, s, st1.lists[at], 0, depth, st.scope);
                        lemma_behind_twice(st, st1, whole);
                    }
                },
                _ => {},
            }
        },
    }
}

proof fn lemma_statements_write_on(m: NumberModel, st: MachineView, ss: Seq<StmtView>, i: int, depth: nat)
    ensures
        behind(st, exec_statements(m, st, ss, i, depth).1),
    decreases depth, 1nat, ss, 0nat, ss.len() - i,
{
    reveal(exec_statements);
    reveal(exec_statement);
    lemma_behind_itself(st, st);
    if 0 <= i < ss.len() {
        lemma_statement_writes_on(m, st, ss[i], depth);
        let (flow, st1) = exec_statement(m, st, ss[i], depth);
        if flow == Ok::<FlowView, RuntimeError>(FlowView::Normal) {
            lemma_statements_write_on(m, st1, ss, i + 1, depth);
            lemma_behind_twice(st, st1, exec_statements(m, st1, ss, i + 1, depth).1);
        }
    }
}

proof fn lemma_while_writes_on(m: NumberModel, st: MachineView, s: StmtView, depth: nat, remaining: nat)
    requires
        s is WhileStatement,
    ensures
        behind(st, exec_while(m, st, s, depth, remaining).1),
    decreases depth, 1nat, s, 0nat, remaining,
{
    reveal(exec_while);
    reveal(exec_statement);
    reveal(eval_expression);
    lemma_behind_itself(st, st);
    match s {
        StmtView::WhileStatement { condition, body } => {
            lemma_expression_writes_on(m, st, condition, depth);
            let (c, st1) = eval_expression(m, st, condition, depth);
            if c == Ok::<ValueView, RuntimeError>(ValueView::Boolean(true)) && remaining > 0 {
                lemma_statement_writes_on(m, st1, *body, depth);
                let (flow, st2) = exec_statement(m, st1, *body, depth);
                lemma_behind_twice(st, st1, st2);
                if flow == Ok::<FlowView, RuntimeError>(FlowView::Normal) {
                    lemma_while_writes_on(m, st2, s, depth, (remaining - 1) as nat);
                    lemma_behind_twice(st, st2, exec_while(m, st2, s, depth, (remaining - 1) as nat).1);
                }
            }
        },
        _ => {},
    }
}

proof fn lemma_for_writes_on(
    m: NumberModel,
    st: MachineView,
    s: StmtView,
    elements: Seq<ValueView>,
    i: int,
    depth: nat,
    entry: int,
)
    requires
        s is For,
    ensures
        behind(st, for_each(m, st, s, elements, i, depth, entry).1),
    decreases depth, 1nat, s, 0nat, 1nat + elements.len() - i,
{
    reveal(for_each);
    reveal(exec_statement);
    lemma_behind_itself(st, st);
    match s {
        StmtView::For { identifier, iter, body } => {
            if 0 <= i < elements.len() {
                let inside = bind(enter(st, st.scope), identifier.lexeme, elements[i]);
                lemma_behind_itself(st, inside);
                lemma_statement_writes_on(m, inside, *body, depth);
                let (flow, st1) = exec_statement(m, inside, *body, depth);
                lemma_behind_twice(st, inside, st1);
                let next = leave(st1, entry);
                lemma_behind_itself(st1, next);
                lemma_behind_twice(st, st1, next);
                if flow == Ok::<FlowView, RuntimeError>(FlowView::Normal) {
                    lemma_for_writes_on(m, next, s, elements, i + 1, depth, entry);
                    lemma_behind_twice(st, next, for_each(m, next, s, elements, i + 1, depth, entry).1);
                }
            }
        },
        _ => {},
    }
}

/// A program takes nothing back of what was written.
pub proof fn lemma_run_writes_on(m: NumberModel, st: MachineView, ss: Seq<StmtView>, i: int, depth: nat)
    ensures
        behind(st, run(m, st, ss, i, depth).1),
    decreases ss.len() - i,
{
    lemma_behind_itself(st, st);
    if 0 <= i < ss.len() {
        lemma_statement_writes_on(m, st, ss[i], depth);
        let (flow, st1) = exec_statement(m, st, ss[i], depth);
        if flow == Ok::<FlowView, RuntimeError>(FlowView::Normal) {
            lemma_run_writes_on(m, st1, ss, i + 1, depth);
            lemma_behind_twice(st, st1, run(m, st1, ss, i + 1, depth).1);
        }
    }
}

/// What a rule does when it is run again with more handed in: it writes
/// what it wrote before and maybe more, and where it did not ask for more
/// than it had, it does the same and leaves what was handed in on top.
pub open spec fn replays<T>(
    before: (Result<T, RuntimeError>, MachineView),
    again: (Result<T, RuntimeError>, MachineView),
    more: Supply,
) -> bool {
    &&& behind(before.1, again.1)
    &&& answered(before.0) ==> again == (before.0, supplied(before.1, more))
}

proof fn lemma_render_never_asks(m: NumberModel, st: MachineView, value: ValueView, depth: nat)
    ensures
        answered(render(m, st, value, depth)),
    decreases depth, 0nat,
{
    match value {
        ValueView::List(at) => {
            if depth > 0 && 0 <= at < st.lists.len() {
                lemma_render_items_never_ask(m, st, st.lists[at], 0, (depth - 1) as nat, "["@);
            }
        },
        ValueView::Iter(at) => {
            if depth > 0 && 0 <= at < st.lists.len() {
                lemma_render_items_never_ask(m, st, st.lists[at], 0, (depth - 1) as nat, "Iter ["@);
            }
        },
        ValueView::Record(at) => {
            if depth > 0 && 0 <= at < st.records.len() {
                lemma_render_fields_never_ask(m, st, st.records[at], 0, (depth - 1) as nat, "{"@);
            }
        },
        _ => {},
    }
}

proof fn lemma_render_items_never_ask(
    m: NumberModel,
    st: MachineView,
    items: Seq<ValueView>,
    i: int,
    depth: nat,
    done: Seq<char>,
)
    ensures
        answered(render_items(m, st, items, i, depth, done)),
    decreases depth, 1nat + items.len() - i,
{
    if 0 <= i < items.len() {
        lemma_render_never_asks(m, st, items[i], depth);
        match render(m, st, items[i], depth) {
            Ok(text) => {
                lemma_render_items_never_ask(m, st, items, i + 1, depth, done + separator(i) + text);
            },
            Err(_) => {},
        }
    }
}

proof fn lemma_render_fields_never_ask(
    m: NumberModel,
    st: MachineView,
    fields: Seq<(Seq<char>, ValueView)>,
    i: int,
    depth: nat,
    done: Seq<char>,
)
    ensures
        answered(render_fields(m, st, fields, i, depth, done)),
    decreases depth, 1nat + fields.len() - i,
{
    if 0 <= i < fields.len() {
        lemma_render_never_asks(m, st, fields[i].1, depth);
        match render(m, st, fields[i].1, depth) {
            Ok(text) => {
                lemma_render_fields_never_ask(
                    m,
                    st,
                    fields,
                    i + 1,
                    depth,
                    done + separator(i) + fields[i].0 + ":"@ + text,
                );
            },
            Err(_) => {},
        }
    }
}

proof fn lemma_render_all_never_ask(
    m: NumberModel,
    st: MachineView,
    values: Seq<ValueView>,
    i: int,
    depth: nat,
    done: Seq<char>,
)
    ensures
        answered(render_all(m, st, values, i, depth, done)),
    decreases values.len() - i,
{
    if 0 <= i < values.len() {
        lemma_render_never_asks(m, st, values[i], depth);
        match render(m, st, values[i], depth) {
            Ok(text) => {
                lemma_render_all_never_ask(m, st, values, i + 1, depth, done + text);
            },
            Err(_) => {},
        }
    }
}

proof fn lemma_native_replays(
    m: NumberModel,
    st: MachineView,
    native: Native,
    arguments: Seq<ValueView>,
    depth: nat,
    more: Supply,
)
    ensures
        replays(
            call_native(m, st, native, arguments, depth),
            call_native(m, supplied(st, more), native, arguments, depth),
            more,
        ),
{
    let before = call_native(m, st, native, arguments, depth);
    let again = call_native(m, supplied(st, more), native, arguments, depth);
    if answered(before.0) {
        lemma_native_lasting(m, st, native, arguments, depth, more);
        lemma_behind_itself(before.1, again.1);
    } else {
        lemma_render_all_never_ask(m, st, arguments, 0, depth, Seq::empty());
        assert(native == Native::Input || native == Native::Clock);
        lemma_behind_itself(before.1, again.1);
    }
}

/// Two expressions in a row.
proof fn lemma_pair_replays(
    m: NumberModel,
    st: MachineView,
    first: ExprView,
    second: ExprView,
    depth: nat,
    more: Supply,
    e: ExprView,
)
    requires
        decreases_to!(e => first),
        decreases_to!(e => second),
    ensures
        ({
            let (a, st1) = eval_expression(m, st, first, depth);
            let (b, st2) = eval_expression(m, st1, second, depth);
            let (c, again1) = eval_expression(m, supplied(st, more), first, depth);
            let (d, again2) = eval_expression(m, again1, second, depth);
            &&& replays((a, st1), (c, again1), more)
            &&& behind(st1, again2)
            &&& answered(a) ==> replays((b, st2), (d, again2), more)
        }),
    decreases depth, 0nat, e, 0nat, 0nat,
{
    lemma_expression_replays(m, st, first, depth, more);
    let (a, st1) = eval_expression(m, st, first, depth);
    let (c, again1) = eval_expression(m, supplied(st, more), first, depth);
    lemma_expression_writes_on(m, again1, second, depth);
    let (d, again2) = eval_expression(m, again1, second, depth);
    lemma_behind_twice(st1, again1, again2);
    if answered(a) {
        lemma_expression_replays(m, st1, second, depth, more);
    }
}

/// An expression that is evaluated again with more handed in writes what it
/// wrote before and maybe more; where it did not ask for more than it had,
/// it does the same.
pub proof fn lemma_expression_replays(m: NumberModel, st: MachineView, e: ExprView, depth: nat, more: Supply)
    ensures
        replays(eval_expression(m, st, e, depth), eval_expression(m, supplied(st, more), e, depth), more),
    decreases depth, 0nat, e, 1nat, 0nat,
{
    reveal(eval_expression);
    reveal(eval_all);
    reveal(eval_fields);
    reveal(call_function);
    let before = eval_expression(m, st, e, depth);
    let again = eval_expression(m, supplied(st, more), e, depth);
    if answered(before.0) {
        lemma_expression_lasting(m, st, e, depth, more);
        lemma_behind_itself(before.1, again.1);
    } else {
        match e {
            ExprView::Equality { left, operator, right } => {
                reveal(eval_equality);
                lemma_pair_replays(m, st, *left, *right, depth, more, e);
            },
            ExprView::Comparison { left, operator, right } => {
                reveal(eval_comparison);
                lemma_pair_replays(m, st, *left, *right, depth, more, e);
            },
            ExprView::Term { left, operator, right } => {
                reveal(eval_term);
                lemma_pair_replays(m, st, *left, *right, depth, more, e);
            },
            ExprView::Factor { left, operator, right } => {
                reveal(eval_factor);
                lemma_pair_replays(m, st, *left, *right, depth, more, e);
            },
            ExprView::And { left, right } => {
                reveal(eval_and);
                lemma_pair_replays(m, st, *left, *right, depth, more, e);
            },
            ExprView::Or { left, right } => {
                reveal(eval_or);
                lemma_pair_replays(m, st, *left, *right, depth, more, e);
            },
            ExprView::Index { list, expression } => {
                reveal(eval_index);
                lemma_pair_replays(m, st, *list, *expression, depth, more, e);
            },
            ExprView::MapIndexAssignment { map, key, value } => {
                reveal(eval_map_index_assignment);
                lemma_pair_replays(m, st, *map, *value, depth, more, e);
                let again1 = eval_expression(m, supplied(st, more), *map, depth).1;
                let again2 = eval_expression(m, again1, *value, depth).1;
                if again.1.output == again2.output {
                    lemma_behind_itself(again2, again.1);
                    lemma_behind_twice(before.1, again2, again.1);
                }
            },
            ExprView::Unary { operator, right } => {
                reveal(eval_unary);
                lemma_expression_replays(m, st, *right, depth, more);
            },
            ExprView::MapIndex { map, key } => {
                reveal(eval_map_index);
                lemma_expression_replays(m, st, *map, depth, more);
            },
            ExprView::Primary { value } => {},
            ExprView::Assignment { identifier, value } => {
                reveal(eval_assignment);
                lemma_expression_replays(m, st, *value, depth, more);
                let again1 = eval_expression(m, supplied(st, more), *value, depth).1;
                lemma_behind_itself(again1, again.1);
                lemma_behind_twice(before.1, again1, again.1);
            },
            ExprView::IfExpression { condition, then_branch, else_branch } => {
                reveal(eval_if_expression);
                lemma_expression_replays(m, st, *condition, depth, more);
                let (c, st1) = eval_expression(m, st, *condition, depth);
                let (d, again1) = eval_expression(m, supplied(st, more), *condition, depth);
                lemma_expression_writes_on(m, again1, *then_branch, depth);
                lemma_expression_writes_on(m, again1, *else_branch, depth);
                lemma_behind_twice(st1, again1, eval_expression(m, again1, *then_branch, depth).1);
                lemma_behind_twice(st1, again1, eval_expression(m, again1, *else_branch, depth).1);
                if answered(c) {
                    lemma_expression_replays(m, st1, *then_branch, depth, more);
                    lemma_expression_replays(m, st1, *else_branch, depth, more);
                }
            },
            ExprView::IndexAssignment { list, expression, value } => {
                reveal(eval_index_assignment);
                lemma_pair_replays(m, st, *list, *expression, depth, more, e);
                let (a, st1) = eval_expression(m, st, *list, depth);
                let (b, st2) = eval_expression(m, st1, *expression, depth);
                let again1 = eval_expression(m, supplied(st, more), *list, depth).1;
                let again2 = eval_expression(m, again1, *expression, depth).1;
                lemma_expression_writes_on(m, again2, *value, depth);
                let again3 = eval_expression(m, again2, *value, depth).1;
                lemma_behind_twice(st1, again2, again3);
                if answered(a) {
                    lemma_behind_twice(st2, again2, again3);
                }
                if answered(a) && answered(b) {
                    lemma_expression_replays(m, st2, *value, depth, more);
                }
                if again.1.output == again3.output {
                    lemma_behind_itself(again3, again.1);
                    lemma_behind_twice(before.1, again3, again.1);
                }
            },
            ExprView::List { values } => {
                reveal(eval_list);
                lemma_all_replay(m, st, values, 0, depth, Seq::empty(), more);
                let again1 = eval_all(m, supplied(st, more), values, 0, depth, Seq::empty()).1;
                lemma_behind_itself(again1, again.1);
                lemma_behind_twice(before.1, again1, again.1);
            },
            ExprView::Record { key_values } => {
                reveal(eval_record);
                lemma_fields_replay(m, st, key_values, 0, depth, Seq::empty(), more);
                let again1 = eval_fields(m, supplied(st, more), key_values, 0, depth, Seq::empty()).1;
                lemma_behind_itself(again1, again.1);
                lemma_behind_twice(before.1, again1, again.1);
            },
            ExprView::Call { identifier, arguments } => {
                lemma_call_expression_replays(m, st, e, depth, more);
            },
        }
    }
}

/// What follows the arguments of a call takes nothing back of what was
/// written.
proof fn lemma_called_writes_on(
    m: NumberModel,
    st: MachineView,
    callee: ValueView,
    values: Seq<ValueView>,
    depth: nat,
)
    ensures
        match callee {
            ValueView::Function { arity, declaration, closure } => arity == values.len() && depth > 0 ==> behind(
                st,
                call_function(m, st, declaration, closure, values, (depth - 1) as nat).1,
            ),
            ValueView::BuiltIn(built_in) => behind(st, call_native(m, st, built_in.function, values, depth).1),
            _ => true,
        },
{
    match callee {
        ValueView::Function { arity, declaration, closure } => {
            if arity == values.len() && depth > 0 {
                lemma_call_writes_on(m, st, declaration, closure, values, (depth - 1) as nat);
            }
        },
        ValueView::BuiltIn(built_in) => {
            lemma_native_writes_on(m, st, built_in.function, values, depth);
        },
        _ => {},
    }
}

/// A call that is evaluated again with more handed in.
proof fn lemma_call_expression_replays(m: NumberModel, st: MachineView, e: ExprView, depth: nat, more: Supply)
    requires
        e is Call,
    ensures
        replays(eval_expression(m, st, e, depth), eval_expression(m, supplied(st, more), e, depth), more),
    decreases depth, 0nat, e, 0nat, 1nat,
{
    reveal(eval_expression);
    reveal(eval_call);
    reveal(eval_all);
    reveal(call_function);
    let before = eval_expression(m, st, e, depth);
    let again = eval_expression(m, supplied(st, more), e, depth);
    match e {
        ExprView::Call { identifier, arguments } => {
            lemma_expression_replays(m, st, *identifier, depth, more);
            let (callee, st1) = eval_expression(m, st, *identifier, depth);
            let (callee_again, again1) = eval_expression(m, supplied(st, more), *identifier, depth);
            lemma_behind_itself(again1, again1);
            if callee_again is Ok {
                lemma_all_write_on(m, again1, arguments, 0, depth, Seq::empty());
                let (values_again, again2) = eval_all(m, again1, arguments, 0, depth, Seq::empty());
                lemma_behind_itself(again2, again2);
                if values_again is Ok {
                    lemma_called_writes_on(m, again2, callee_again->Ok_0, values_again->Ok_0, depth);
                }
                lemma_behind_twice(again1, again2, again.1);
            }
            lemma_behind_twice(st1, again1, again.1);
            if answered(callee) && callee is Ok {
                lemma_all_replay(m, st1, arguments, 0, depth, Seq::empty(), more);
                let (values, st2) = eval_all(m, st1, arguments, 0, depth, Seq::empty());
                let (values_again, again2) = eval_all(m, again1, arguments, 0, depth, Seq::empty());
                lemma_behind_itself(again2, again2);
                if values_again is Ok {
                    lemma_called_writes_on(m, again2, callee->Ok_0, values_again->Ok_0, depth);
                }
                lemma_behind_twice(st2, again2, again.1);
                if answered(values) && values is Ok {
                    match callee->Ok_0 {
                        ValueView::Function { arity, declaration, closure } => {
                            if arity == values->Ok_0.len() && depth > 0 {
                                lemma_call_replays(
                                    m,
                                    st2,
                                    declaration,
                                    closure,
                                    values->Ok_0,
                                    (depth - 1) as nat,
                                    more,
                                );
                            } else {
                                lemma_behind_itself(before.1, again.1);
                            }
                        },
                        ValueView::BuiltIn(built_in) => {
                            if built_in.arity is Some && built_in.arity->Some_0 != values->Ok_0.len() {
                                lemma_behind_itself(before.1, again.1);
                            } else {
                                lemma_native_replays(m, st2, built_in.function, values->Ok_0, depth, more);
                            }
                        },
                        _ => {
                            lemma_behind_itself(before.1, again.1);
                        },
                    }
                }
            }
        },
        _ => {},
    }
}

proof fn lemma_all_replay(
    m: NumberModel,
    st: MachineView,
    es: Seq<ExprView>,
    i: int,
    depth: nat,
    done: Seq<ValueView>,
    more: Supply,
)
    ensures
        replays(eval_all(m, st, es, i, depth, done), eval_all(m, supplied(st, more), es, i, depth, done), more),
    decreases depth, 0nat, es, 0nat, es.len() - i,
{
    reveal(eval_all);
    reveal(eval_expression);
    let before = eval_all(m, st, es, i, depth, done);
    let again = eval_all(m, supplied(st, more), es, i, depth, done);
    if answered(before.0) {
        lemma_all_lasting(m, st, es, i, depth, more, done);
        lemma_behind_itself(before.1, again.1);
    } else if 0 <= i < es.len() {
        lemma_expression_replays(m, st, es[i], depth, more);
        let (v, st1) = eval_expression(m, st, es[i], depth);
        let (w, again1) = eval_expression(m, supplied(st, more), es[i], depth);
        if w is Ok {
            lemma_all_write_on(m, again1, es, i + 1, depth, done.push(w->Ok_0));
            lemma_behind_twice(st1, again1, again.1);
        }
        if v is Ok {
            lemma_all_replay(m, st1, es, i + 1, depth, done.push(v->Ok_0), more);
        }
    }
}

proof fn lemma_fields_replay(
    m: NumberModel,
    st: MachineView,
    entries: Seq<(TokenView, ExprView)>,
    i: int,
    depth: nat,
    done: Seq<(Seq<char>, ValueView)>,
    more: Supply,
)
    ensures
        replays(
            eval_fields(m, st, entries, i, depth, done),
            eval_fields(m, supplied(st, more), entries, i, depth, done),
            more,
        ),
    decreases depth, 0nat, entries, 0nat, entries.len() - i,
{
    reveal(eval_fields);
    reveal(eval_expression);
    let before = eval_fields(m, st, entries, i, depth, done);
    let again = eval_fields(m, supplied(st, more), entries, i, depth, done);
    if answered(before.0) {
        lemma_fields_lasting(m, st, entries, i, depth, more, done);
        lemma_behind_itself(before.1, again.1);
    } else if 0 <= i < entries.len() {
        lemma_expression_replays(m, st, entries[i].1, depth, more);
        let (v, st1) = eval_expression(m, st, entries[i].1, depth);
        let (w, again1) = eval_expression(m, supplied(st, more), entries[i].1, depth);
        if w is Ok {
            lemma_fields_write_on(m, again1, entries, i + 1, depth, with_field(done, entries[i].0.lexeme, w->Ok_0));
            lemma_behind_twice(st1, again1, again.1);
        }
        if v is Ok {
            lemma_fields_replay(m, st1, entries, i + 1, depth, with_field(done, entries[i].0.lexeme, v->Ok_0), more);
        }
    }
}

proof fn lemma_call_replays(
    m: NumberModel,
    st: MachineView,
    declaration: StmtView,
    closure: int,
    arguments: Seq<ValueView>,
    depth: nat,
    more: Supply,
)
    ensures
        replays(
            call_function(m, st, declaration, closure, arguments, depth),
            call_function(m, supplied(st, more), declaration, closure, arguments, depth),
            more,
        ),
    decreases depth, 1nat, declaration, 2nat, 0nat,
{
    reveal(call_function);
    reveal(exec_statement);
    let before = call_function(m, st, declaration, closure, arguments, depth);
    let again = call_function(m, supplied(st, more), declaration, closure, arguments, depth);
    if answered(before.0) {
        lemma_call_lasting(m, st, declaration, closure, arguments, depth, more);
        lemma_behind_itself(before.1, again.1);
    } else {
        match declaration {
            StmtView::FunctionDeclaration { identifier, parameters, body } => {
                let inside = bind_arguments(enter(st, closure), parameters, arguments, 0);
                lemma_bind_arguments_lasting(enter(st, closure), parameters, arguments, 0, more);
                lemma_statement_replays(m, inside, *body, depth, more);
                let again1 = exec_statement(m, supplied(inside, more), *body, depth).1;
                lemma_behind_itself(again1, again.1);
                lemma_behind_twice(before.1, again1, again.1);
            },
            _ => {
                lemma_behind_itself(before.1, again.1);
            },
        }
    }
}

/// A statement that is executed again with more handed in writes what it
/// wrote before and maybe more; where it did not ask for more than it had,
/// it does the same.
pub proof fn lemma_statement_replays(m: NumberModel, st: MachineView, s: StmtView, depth: nat, more: Supply)
    ensures
        replays(exec_statement(m, st, s, depth), exec_statement(m, supplied(st, more), s, depth), more),
    decreases depth, 1nat, s, 1nat, 0nat,
{
    reveal(exec_statement);
    reveal(eval_expression);
    let before = exec_statement(m, st, s, depth);
    let again = exec_statement(m, supplied(st, more), s, depth);
    if answered(before.0) {
        lemma_statement_lasting(m, st, s, depth, more);
        lemma_behind_itself(before.1, again.1);
    } else {
        match s {
            StmtView::ExpressionStatement { expression } => {
                lemma_expression_replays(m, st, expression, depth, more);
            },
            StmtView::PrintStatement { expression } => {
                lemma_expression_replays(m, st, expression, depth, more);
                let again1 = eval_expression(m, supplied(st, more), expression, depth).1;
                if again.1.output == again1.output {
                    lemma_behind_itself(again1, again.1);
                } else {
                    lemma_behind_written(again1, again.1.output.last(), again.1);
                }
                lemma_behind_twice(before.1, again1, again.1);
            },
            StmtView::VariableDeclaration { identifier, expression } => {
                match expression {
                    Some(e) => {
                        lemma_expression_replays(m, st, e, depth, more);
                        let again1 = eval_expression(m, supplied(st, more), e, depth).1;
                        lemma_behind_itself(again1, again.1);
                        lemma_behind_twice(before.1, again1, again.1);
                    },
                    None => {},
                }
            },
            StmtView::FunctionDeclaration { identifier, parameters, body } => {},
            StmtView::Return { value } => {
                match value {
                    Some(e) => {
                        lemma_expression_replays(m, st, e, depth, more);
                    },
                    None => {},
                }
            },
            StmtView::Block { statements } => {
                reveal(exec_block);
                reveal(exec_statements);
                let inside = enter(st, st.scope);
                lemma_statements_replay(m, inside, statements, 0, depth, more);
                let again1 = exec_statements(m, supplied(inside, more), statements, 0, depth).1;
                lemma_behind_itself(again1, again.1);
                lemma_behind_twice(before.1, again1, again.1);
            },
            StmtView::IfStatement { condition, then_branch, else_branch } => {
                reveal(exec_if);
                lemma_expression_replays(m, st, condition, depth, more);
                let (c, st1) = eval_expression(m, st, condition, depth);
                let again1 = eval_expression(m, supplied(st, more), condition, depth).1;
                lemma_statement_writes_on(m, again1, *then_branch, depth);
                lemma_behind_twice(st1, again1, exec_statement(m, again1, *then_branch, depth).1);
                match else_branch {
                    Some(other) => {
                        lemma_statement_writes_on(m, again1, *other, depth);
                        lemma_behind_twice(st1, again1, exec_statement(m, again1, *other, depth).1);
                    },
                    None => {},
                }
                if answered(c) {
                    lemma_statement_replays(m, st1, *then_branch, depth, more);
                    match else_branch {
                        Some(other) => {
                            lemma_statement_replays(m, st1, *other, depth, more);
                        },
                        None => {},
                    }
                }
            },
            StmtView::WhileStatement { condition, body } => {
                reveal(exec_while);
                lemma_while_replays(m, st, s, depth, st.iterations, more);
            },
            StmtView::With { value, identifier, body } => {
                reveal(exec_with);
                lemma_expression_replays(m, st, value, depth, more);
                let (v, st1) = eval_expression(m, st, value, depth);
                let (w, again1) = eval_expression(m, supplied(st, more), value, depth);
                if w is Ok {
                    let inside_again = bind(enter(again1, again1.scope), identifier.lexeme, w->Ok_0);
                    lemma_behind_itself(again1, inside_again);
                    lemma_statement_writes_on(m, inside_again, *body, depth);
                    let again2 = exec_statement(m, inside_again, *body, depth).1;
                    lemma_behind_twice(again1, inside_again, again2);
                    lemma_behind_itself(again2, again.1);
                    lemma_behind_twice(again1, again2, again.1);
                    lemma_behind_twice(st1, again1, again.1);
                }
                if answered(v) && v is Ok {
                    let inside = bind(enter(st1, st1.scope), identifier.lexeme, v->Ok_0);
                    lemma_statement_replays(m, inside, *body, depth, more);
                    let again2 = exec_statement(m, supplied(inside, more), *body, depth).1;
                    lemma_behind_itself(again2, again.1);
                    lemma_behind_twice(before.1, again2, again.1);
                }
            },
            StmtView::For { identifier, iter, body } => {
                reveal(for_each);
                lemma_expression_replays(m, st, iter, depth, more);
                let (it, st1) = eval_expression(m, st, iter, depth);
                let (it_again, again1) = eval_expression(m, supplied(st, more), iter, depth);
                match it_again {
                    Ok(ValueView::Iter(at)) => {
                        if 0 <= at < again1.lists.len() {
                            lemma_for_writes_on(m, again1, s, again1.lists[at], 0, depth, st.scope);
                            lemma_behind_twice(st1, again1, again.1);
                        }
                    },
                    _ => {},
                }
                if answered(it) {
                    match it {
                        Ok(ValueView::Iter(at)) => {
                            if 0 <= at < st1.lists.len() {
                                lemma_for_replays(m, st1, s, st1.lists[at], 0, depth, st.scope, more);
                            }
                        },
                        _ => {},
                    }
                }
            },
        }
    }
}

proof fn lemma_statements_replay(
    m: NumberModel,
    st: MachineView,
    ss: Seq<StmtView>,
    i: int,
    depth: nat,
    more: Supply,
)
    ensures
        replays(exec_statements(m, st, ss, i, depth), exec_statements(m, supplied(st, more), ss, i, depth), more),
    decreases depth, 1nat, ss, 0nat, ss.len() - i,
{
    reveal(exec_statements);
    reveal(exec_statement);
    let before = exec_statements(m, st, ss, i, depth);
    let again = exec_statements(m, supplied(st, more), ss, i, depth);
    if answered(before.0) {
        lemma_statements_lasting(m, st, ss, i, depth, more);
        lemma_behind_itself(before.1, again.1);
    } else if 0 <= i < ss.len() {
        lemma_statement_replays(m, st, ss[i], depth, more);
        let (flow, st1) = exec_statement(m, st, ss[i], depth);
        let (flow_again, again1) = exec_statement(m, supplied(st, more), ss[i], depth);
        if flow_again == Ok::<FlowView, RuntimeError>(FlowView::Normal) {
            lemma_statements_write_on(m, again1, ss, i + 1, depth);
            lemma_behind_twice(st1, again1, again.1);
        }
        if flow == Ok::<FlowView, RuntimeError>(FlowView::Normal) {
            lemma_statements_replay(m, st1, ss, i + 1, depth, more);
        }
    }
}

proof fn lemma_while_replays(
    m: NumberModel,
    st: MachineView,
    s: StmtView,
    depth: nat,
    remaining: nat,
    more: Supply,
)
    requires
        s is WhileStatement,
    ensures
        replays(
            exec_while(m, st, s, depth, remaining),
            exec_while(m, supplied(st, more), s, depth, remaining),
            more,
        ),
    decreases depth, 1nat, s, 0nat, remaining,
{
    reveal(exec_while);
    reveal(exec_statement);
    reveal(eval_expression);
    let before = exec_while(m, st, s, depth, remaining);
    let again = exec_while(m, supplied(st, more), s, depth, remaining);
    if answered(before.0) {
        lemma_while_lasting(m, st, s, depth, more, remaining);
        lemma_behind_itself(before.1, again.1);
    } else {
        match s {
            StmtView::WhileStatement { condition, body } => {
                lemma_expression_replays(m, st, condition, depth, more);
                let (c, st1) = eval_expression(m, st, condition, depth);
                let (d, again1) = eval_expression(m, supplied(st, more), condition, depth);
                if d == Ok::<ValueView, RuntimeError>(ValueView::Boolean(true)) && remaining > 0 {
                    lemma_statement_writes_on(m, again1, *body, depth);
                    let (flow_again, again2) = exec_statement(m, again1, *body, depth);
                    lemma_behind_twice(st1, again1, again2);
                    if flow_again == Ok::<FlowView, RuntimeError>(FlowView::Normal) {
                        lemma_while_writes_on(m, again2, s, depth, (remaining - 1) as nat);
                        lemma_behind_twice(again1, again2, again.1);
                        lemma_behind_twice(st1, again1, again.1);
                    }
                }
                if c == Ok::<ValueView, RuntimeError>(ValueView::Boolean(true)) && remaining > 0 {
                    lemma_statement_replays(m, st1, *body, depth, more);
                    let (flow, st2) = exec_statement(m, st1, *body, depth);
                    let (flow_again, again2) = exec_statement(m, supplied(st1, more), *body, depth);
                    if flow_again == Ok::<FlowView, RuntimeError>(FlowView::Normal) {
                        lemma_while_writes_on(m, again2, s, depth, (remaining - 1) as nat);
                        lemma_behind_twice(st2, again2, again.1);
                    }
                    if flow == Ok::<FlowView, RuntimeError>(FlowView::Normal) {
                        lemma_while_replays(m, st2, s, depth, (remaining - 1) as nat, more);
                    }
                }
            },
            _ => {},
        }
    }
}

proof fn lemma_for_replays(
    m: NumberModel,
    st: MachineView,
    s: StmtView,
    elements: Seq<ValueView>,
    i: int,
    depth: nat,
    entry: int,
    more: Supply,
)
    requires
        s is For,
    ensures
        replays(
            for_each(m, st, s, elements, i, depth, entry),
            for_each(m, supplied(st, more), s, elements, i, depth, entry),
            more,
        ),
    decreases depth, 1nat, s, 0nat, 1nat + elements.len() - i,
{
    reveal(for_each);
    reveal(exec_statement);
    let before = for_each(m, st, s, elements, i, depth, entry);
    let again = for_each(m, supplied(st, more), s, elements, i, depth, entry);
    if answered(before.0) {
        lemma_for_lasting(m, st, s, elements, i, depth, more, entry);
        lemma_behind_itself(before.1, again.1);
    } else {
        match s {
            StmtView::For { identifier, iter, body } => {
                if 0 <= i < elements.len() {
                    let inside = bind(enter(st, st.scope), identifier.lexeme, elements[i]);
                    lemma_statement_replays(m, inside, *body, depth, more);
                    let (flow, st1) = exec_statement(m, inside, *body, depth);
                    let (flow_again, again1) = exec_statement(m, supplied(inside, more), *body, depth);
                    let next_again = leave(again1, entry);
                    lemma_behind_itself(again1, next_again);
                    lemma_behind_twice(st1, again1, next_again);
                    if flow_again == Ok::<FlowView, RuntimeError>(FlowView::Normal) {
                        lemma_for_writes_on(m, next_again, s, elements, i + 1, depth, entry);
                        lemma_behind_twice(st1, next_again, again.1);
                    }
                    if flow == Ok::<FlowView, RuntimeError>(FlowView::Normal) {
                        lemma_for_replays(m, leave(st1, entry), s, elements, i + 1, depth, entry, more);
                    }
                }
            },
            _ => {},
        }
    }
}

/// A program that is run again from the start with more lines and readings
/// handed in writes what it wrote before, line for line, and maybe more
/// behind that. Where it had not asked for more than it had, it does the
/// same as before.
pub proof fn law_a_run_again_goes_on(
    m: NumberModel,
    st: MachineView,
    ss: Seq<StmtView>,
    i: int,
    depth: nat,
    more: Supply,
)
    ensures
        replays(run(m, st, ss, i, depth), run(m, supplied(st, more), ss, i, depth), more),
    decreases ss.len() - i,
{
    let before = run(m, st, ss, i, depth);
    let again = run(m, supplied(st, more), ss, i, depth);
    lemma_behind_itself(st, supplied(st, more));
    if 0 <= i < ss.len() {
        lemma_statement_replays(m, st, ss[i], depth, more);
        let (flow, st1) = exec_statement(m, st, ss[i], depth);
        let (flow_again, again1) = exec_statement(m, supplied(st, more), ss[i], depth);
        if flow_again == Ok::<FlowView, RuntimeError>(FlowView::Normal) {
            lemma_run_writes_on(m, again1, ss, i + 1, depth);
            lemma_behind_twice(st1, again1, again.1);
        }
        if flow == Ok::<FlowView, RuntimeError>(FlowView::Normal) {
            law_a_run_again_goes_on(m, st1, ss, i + 1, depth, more);
        }
    }
}

} // verus!
