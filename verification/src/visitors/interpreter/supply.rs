//! What a program reads is handed in beforehand: the lines of input and
//! the readings of the clock. A program that does not ask for more than was
//! handed in does the same when more is handed in: what is left over stays
//! unread.
use vstd::prelude::*;
use crate::parser::expression::ExprView;
use crate::parser::statement::StmtView;
use crate::token::TokenView;
use crate::visitors::interpreter::callable::Native;
use crate::visitors::interpreter::number::NumberModel;
use crate::visitors::interpreter::semantics::{
    MachineView, bind, bind_arguments, call_function, call_native, enter, eval_all, eval_and,
    eval_assignment, eval_call, eval_comparison, eval_equality, eval_expression, eval_factor,
    eval_fields, eval_if_expression, eval_index, eval_index_assignment, eval_list, eval_map_index,
    eval_map_index_assignment, eval_or, eval_record, eval_term, eval_unary, exec_block, exec_if,
    exec_statement, exec_statements, exec_while, exec_with, for_each, leave, render, render_all,
    render_fields, render_items, run, separator, with_field,
};
use crate::visitors::interpreter::value::{FlowView, RuntimeError, ValueView};

verus! {

/// An outcome other than having asked for more than was handed in.
pub open spec fn answered<T>(outcome: Result<T, RuntimeError>) -> bool {
    outcome != Err::<T, RuntimeError>(RuntimeError::InputNeeded) && outcome != Err::<T, RuntimeError>(
        RuntimeError::ClockNeeded,
    )
}

/// What is handed in on top: more lines of input and more readings of the
/// clock, behind those that are there.
pub struct Supply {
    pub lines: Seq<Seq<char>>,
    pub readings: Seq<u64>,
}

/// The state with more handed in.
pub open spec fn supplied(st: MachineView, more: Supply) -> MachineView {
    MachineView { input: st.input + more.lines, clock: st.clock + more.readings, ..st }
}

/// What a rule does with more handed in: the same, and what was handed in on
/// top is left over.
pub open spec fn lasting<T>(
    with_less: (Result<T, RuntimeError>, MachineView),
    with_more: (Result<T, RuntimeError>, MachineView),
    more: Supply,
) -> bool {
    with_more == (with_less.0, supplied(with_less.1, more))
}

/// The text of a value does not depend on what was handed in.
pub proof fn lemma_render_lasting(m: NumberModel, st: MachineView, value: ValueView, depth: nat, more: Supply)
    ensures
        render(m, supplied(st, more), value, depth) == render(m, st, value, depth),
    decreases depth, 0nat,
{
    match value {
        ValueView::List(at) => {
            if depth > 0 && 0 <= at < st.lists.len() {
                lemma_render_items_lasting(m, st, st.lists[at], 0, (depth - 1) as nat, more, "["@);
            }
        },
        ValueView::Iter(at) => {
            if depth > 0 && 0 <= at < st.lists.len() {
                lemma_render_items_lasting(m, st, st.lists[at], 0, (depth - 1) as nat, more, "Iter ["@);
            }
        },
        ValueView::Record(at) => {
            if depth > 0 && 0 <= at < st.records.len() {
                lemma_render_fields_lasting(m, st, st.records[at], 0, (depth - 1) as nat, more, "{"@);
            }
        },
        _ => {},
    }
}

/// The text of a list does not depend on what was handed in.
pub proof fn lemma_render_items_lasting(
    m: NumberModel,
    st: MachineView,
    items: Seq<ValueView>,
    i: int,
    depth: nat,
    more: Supply,
    done: Seq<char>,
)
    ensures
        render_items(m, supplied(st, more), items, i, depth, done) == render_items(m, st, items, i, depth, done),
    decreases depth, 1nat + items.len() - i,
{
    if 0 <= i < items.len() {
        lemma_render_lasting(m, st, items[i], depth, more);
        match render(m, st, items[i], depth) {
            Ok(text) => {
                lemma_render_items_lasting(m, st, items, i + 1, depth, more, done + separator(i) + text);
            },
            Err(_) => {},
        }
    }
}

/// The text of a record does not depend on what was handed in.
pub proof fn lemma_render_fields_lasting(
    m: NumberModel,
    st: MachineView,
    fields: Seq<(Seq<char>, ValueView)>,
    i: int,
    depth: nat,
    more: Supply,
    done: Seq<char>,
)
    ensures
        render_fields(m, supplied(st, more), fields, i, depth, done) == render_fields(
            m,
            st,
            fields,
            i,
            depth,
            done,
        ),
    decreases depth, 1nat + fields.len() - i,
{
    if 0 <= i < fields.len() {
        lemma_render_lasting(m, st, fields[i].1, depth, more);
        match render(m, st, fields[i].1, depth) {
            Ok(text) => {
                lemma_render_fields_lasting(
                    m,
                    st,
                    fields,
                    i + 1,
                    depth,
                    more,
                    done + separator(i) + fields[i].0 + ":"@ + text,
                );
            },
            Err(_) => {},
        }
    }
}

/// The text of a line does not depend on what was handed in.
pub proof fn lemma_render_all_lasting(
    m: NumberModel,
    st: MachineView,
    values: Seq<ValueView>,
    i: int,
    depth: nat,
    more: Supply,
    done: Seq<char>,
)
    ensures
        render_all(m, supplied(st, more), values, i, depth, done) == render_all(m, st, values, i, depth, done),
    decreases values.len() - i,
{
    if 0 <= i < values.len() {
        lemma_render_lasting(m, st, values[i], depth, more);
        match render(m, st, values[i], depth) {
            Ok(text) => {
                lemma_render_all_lasting(m, st, values, i + 1, depth, more, done + text);
            },
            Err(_) => {},
        }
    }
}

/// A built-in function that does not ask for more than was handed in does the
/// same with more handed in, and leaves that over.
pub proof fn lemma_native_lasting(
    m: NumberModel,
    st: MachineView,
    native: Native,
    arguments: Seq<ValueView>,
    depth: nat,
    more: Supply,
)
    requires
        answered(call_native(m, st, native, arguments, depth).0),
    ensures
        lasting(
            call_native(m, st, native, arguments, depth),
            call_native(m, supplied(st, more), native, arguments, depth),
            more,
        ),
{
    if native == Native::Println {
        lemma_render_all_lasting(m, st, arguments, 0, depth, more, Seq::empty());
    }
    if native == Native::Input && st.input.len() > 0 {
        assert((st.input + more.lines).drop_first() =~= st.input.drop_first() + more.lines);
    }
    if native == Native::Clock && st.clock.len() > 0 {
        assert((st.clock + more.readings).drop_first() =~= st.clock.drop_first() + more.readings);
    }
}

/// Two expressions in a row.
pub proof fn lemma_pair_lasting(
    m: NumberModel,
    st: MachineView,
    first: ExprView,
    second: ExprView,
    depth: nat,
    more: Supply,
    e: ExprView,
)
    requires
        decreases_to!(e => first),
        decreases_to!(e => second),
    ensures
        ({
            let (a, st1) = eval_expression(m, st, first, depth);
            let (b, st2) = eval_expression(m, st1, second, depth);
            &&& answered(a) ==> lasting(
                (a, st1),
                eval_expression(m, supplied(st, more), first, depth),
                more,
            )
            &&& a is Ok && answered(b) ==> lasting(
                (b, st2),
                eval_expression(m, supplied(st1, more), second, depth),
                more,
            )
        }),
    decreases depth, 0nat, e, 0nat, 0nat,
{
    let (a, st1) = eval_expression(m, st, first, depth);
    if answered(a) {
        lemma_expression_lasting(m, st, first, depth, more);
    }
    let (b, st2) = eval_expression(m, st1, second, depth);
    if a is Ok && answered(b) {
        lemma_expression_lasting(m, st1, second, depth, more);
    }
}

/// An expression that does not ask for more than was handed in has the same
/// value with more handed in, and leaves that over.
pub proof fn lemma_expression_lasting(m: NumberModel, st: MachineView, e: ExprView, depth: nat, more: Supply)
    requires
        answered(eval_expression(m, st, e, depth).0),
    ensures
        lasting(
            eval_expression(m, st, e, depth),
            eval_expression(m, supplied(st, more), e, depth),
            more,
        ),
    decreases depth, 0nat, e, 1nat, 0nat,
{
    reveal(eval_expression);
    reveal(eval_all);
    reveal(eval_fields);
    reveal(call_function);
    match e {
        ExprView::Equality { left, operator, right } => {
            reveal(eval_equality);
            lemma_pair_lasting(m, st, *left, *right, depth, more, e);
        },
        ExprView::Comparison { left, operator, right } => {
            reveal(eval_comparison);
            lemma_pair_lasting(m, st, *left, *right, depth, more, e);
        },
        ExprView::Term { left, operator, right } => {
            reveal(eval_term);
            lemma_pair_lasting(m, st, *left, *right, depth, more, e);
        },
        ExprView::Factor { left, operator, right } => {
            reveal(eval_factor);
            lemma_pair_lasting(m, st, *left, *right, depth, more, e);
        },
        ExprView::And { left, right } => {
            reveal(eval_and);
            lemma_pair_lasting(m, st, *left, *right, depth, more, e);
        },
        ExprView::Or { left, right } => {
            reveal(eval_or);
            lemma_pair_lasting(m, st, *left, *right, depth, more, e);
        },
        ExprView::Index { list, expression } => {
            reveal(eval_index);
            lemma_pair_lasting(m, st, *list, *expression, depth, more, e);
        },
        ExprView::MapIndexAssignment { map, key, value } => {
            reveal(eval_map_index_assignment);
            lemma_pair_lasting(m, st, *map, *value, depth, more, e);
        },
        ExprView::Unary { operator, right } => {
            reveal(eval_unary);
            lemma_expression_lasting(m, st, *right, depth, more);
        },
        ExprView::MapIndex { map, key } => {
            reveal(eval_map_index);
            lemma_expression_lasting(m, st, *map, depth, more);
        },
        ExprView::Primary { value } => {},
        ExprView::Assignment { identifier, value } => {
            reveal(eval_assignment);
            lemma_expression_lasting(m, st, *value, depth, more);
        },
        ExprView::IfExpression { condition, then_branch, else_branch } => {
            reveal(eval_if_expression);
            lemma_expression_lasting(m, st, *condition, depth, more);
            let (c, st1) = eval_expression(m, st, *condition, depth);
            match c {
                Ok(ValueView::Boolean(truth)) => {
                    if truth {
                        lemma_expression_lasting(m, st1, *then_branch, depth, more);
                    } else {
                        lemma_expression_lasting(m, st1, *else_branch, depth, more);
                    }
                },
                _ => {},
            }
        },
        ExprView::IndexAssignment { list, expression, value } => {
            reveal(eval_index_assignment);
            lemma_pair_lasting(m, st, *list, *expression, depth, more, e);
            let (a, st1) = eval_expression(m, st, *list, depth);
            let (b, st2) = eval_expression(m, st1, *expression, depth);
            if a is Ok && b is Ok {
                lemma_expression_lasting(m, st2, *value, depth, more);
            }
        },
        ExprView::List { values } => {
            reveal(eval_list);
            lemma_all_lasting(m, st, values, 0, depth, more, Seq::empty());
        },
        ExprView::Record { key_values } => {
            reveal(eval_record);
            lemma_fields_lasting(m, st, key_values, 0, depth, more, Seq::empty());
        },
        ExprView::Call { identifier, arguments } => {
            reveal(eval_call);
            lemma_expression_lasting(m, st, *identifier, depth, more);
            let (callee, st1) = eval_expression(m, st, *identifier, depth);
            if callee is Ok {
                lemma_all_lasting(m, st1, arguments, 0, depth, more, Seq::empty());
                let (values, st2) = eval_all(m, st1, arguments, 0, depth, Seq::empty());
                if values is Ok {
                    match callee->Ok_0 {
                        ValueView::Function { arity, declaration, closure } => {
                            if arity == values->Ok_0.len() && depth > 0 {
                                lemma_call_lasting(
                                    m,
                                    st2,
                                    declaration,
                                    closure,
                                    values->Ok_0,
                                    (depth - 1) as nat,
                                    more,
                                );
                            }
                        },
                        ValueView::BuiltIn(built_in) => {
                            if !(built_in.arity is Some && built_in.arity->Some_0 != values->Ok_0.len()) {
                                lemma_native_lasting(m, st2, built_in.function, values->Ok_0, depth, more);
                            }
                        },
                        _ => {},
                    }
                }
            }
        },
    }
}

/// The same for a run of expressions.
pub proof fn lemma_all_lasting(
    m: NumberModel,
    st: MachineView,
    es: Seq<ExprView>,
    i: int,
    depth: nat,
    more: Supply,
    done: Seq<ValueView>,
)
    requires
        answered(eval_all(m, st, es, i, depth, done).0),
    ensures
        lasting(
            eval_all(m, st, es, i, depth, done),
            eval_all(m, supplied(st, more), es, i, depth, done),
            more,
        ),
    decreases depth, 0nat, es, 0nat, es.len() - i,
{
    reveal(eval_all);
    reveal(eval_expression);
    if 0 <= i < es.len() {
        lemma_expression_lasting(m, st, es[i], depth, more);
        let (v, st1) = eval_expression(m, st, es[i], depth);
        if v is Ok {
            lemma_all_lasting(m, st1, es, i + 1, depth, more, done.push(v->Ok_0));
        }
    }
}

/// The same for the fields of a record.
pub proof fn lemma_fields_lasting(
    m: NumberModel,
    st: MachineView,
    entries: Seq<(TokenView, ExprView)>,
    i: int,
    depth: nat,
    more: Supply,
    done: Seq<(Seq<char>, ValueView)>,
)
    requires
        answered(eval_fields(m, st, entries, i, depth, done).0),
    ensures
        lasting(
            eval_fields(m, st, entries, i, depth, done),
            eval_fields(m, supplied(st, more), entries, i, depth, done),
            more,
        ),
    decreases depth, 0nat, entries, 0nat, entries.len() - i,
{
    reveal(eval_fields);
    reveal(eval_expression);
    if 0 <= i < entries.len() {
        lemma_expression_lasting(m, st, entries[i].1, depth, more);
        let (v, st1) = eval_expression(m, st, entries[i].1, depth);
        if v is Ok {
            lemma_fields_lasting(
                m,
                st1,
                entries,
                i + 1,
                depth,
                more,
                with_field(done, entries[i].0.lexeme, v->Ok_0),
            );
        }
    }
}

/// Binding arguments does not touch what was handed in.
pub proof fn lemma_bind_arguments_lasting(
    st: MachineView,
    parameters: Seq<TokenView>,
    arguments: Seq<ValueView>,
    i: int,
    more: Supply,
)
    ensures
        bind_arguments(supplied(st, more), parameters, arguments, i) == supplied(
            bind_arguments(st, parameters, arguments, i),
            more,
        ),
    decreases parameters.len() - i,
{
    if 0 <= i < parameters.len() && i < arguments.len() {
        lemma_bind_arguments_lasting(
            bind(st, parameters[i].lexeme, arguments[i]),
            parameters,
            arguments,
            i + 1,
            more,
        );
    }
}

/// The same for a call of a function of the program.
pub proof fn lemma_call_lasting(
    m: NumberModel,
    st: MachineView,
    declaration: StmtView,
    closure: int,
    arguments: Seq<ValueView>,
    depth: nat,
    more: Supply,
)
    requires
        answered(call_function(m, st, declaration, closure, arguments, depth).0),
    ensures
        lasting(
            call_function(m, st, declaration, closure, arguments, depth),
            call_function(m, supplied(st, more), declaration, closure, arguments, depth),
            more,
        ),
    decreases depth, 1nat, declaration, 2nat, 0nat,
{
    reveal(call_function);
    reveal(exec_statement);
    match declaration {
        StmtView::FunctionDeclaration { identifier, parameters, body } => {
            lemma_bind_arguments_lasting(enter(st, closure), parameters, arguments, 0, more);
            lemma_statement_lasting(
                m,
                bind_arguments(enter(st, closure), parameters, arguments, 0),
                *body,
                depth,
                more,
            );
        },
        _ => {},
    }
}

/// A statement that does not ask for more than was handed in ends in the
/// same way with more handed in, and leaves that over.
pub proof fn lemma_statement_lasting(m: NumberModel, st: MachineView, s: StmtView, depth: nat, more: Supply)
    requires
        answered(exec_statement(m, st, s, depth).0),
    ensures
        lasting(
            exec_statement(m, st, s, depth),
            exec_statement(m, supplied(st, more), s, depth),
            more,
        ),
    decreases depth, 1nat, s, 1nat, 0nat,
{
    reveal(exec_statement);
    reveal(eval_expression);
    match s {
        StmtView::ExpressionStatement { expression } => {
            lemma_expression_lasting(m, st, expression, depth, more);
        },
        StmtView::PrintStatement { expression } => {
            lemma_expression_lasting(m, st, expression, depth, more);
            let (v, st1) = eval_expression(m, st, expression, depth);
            if v is Ok {
                lemma_render_lasting(m, st1, v->Ok_0, depth, more);
            }
        },
        StmtView::VariableDeclaration { identifier, expression } => {
            match expression {
                Some(e) => {
                    lemma_expression_lasting(m, st, e, depth, more);
                },
                None => {},
            }
        },
        StmtView::FunctionDeclaration { identifier, parameters, body } => {},
        StmtView::Return { value } => {
            match value {
                Some(e) => {
                    lemma_expression_lasting(m, st, e, depth, more);
                },
                None => {},
            }
        },
        StmtView::Block { statements } => {
            reveal(exec_block);
            reveal(exec_statements);
            lemma_statements_lasting(m, enter(st, st.scope), statements, 0, depth, more);
        },
        StmtView::IfStatement { condition, then_branch, else_branch } => {
            reveal(exec_if);
            lemma_expression_lasting(m, st, condition, depth, more);
            let (c, st1) = eval_expression(m, st, condition, depth);
            match c {
                Ok(ValueView::Boolean(truth)) => {
                    if truth {
                        lemma_statement_lasting(m, st1, *then_branch, depth, more);
                    } else {
                        match else_branch {
                            Some(other) => {
                                lemma_statement_lasting(m, st1, *other, depth, more);
                            },
                            None => {},
                        }
                    }
                },
                _ => {},
            }
        },
        StmtView::WhileStatement { condition, body } => {
            reveal(exec_while);
            lemma_while_lasting(m, st, s, depth, more, st.iterations);
        },
        StmtView::With { value, identifier, body } => {
            reveal(exec_with);
            lemma_expression_lasting(m, st, value, depth, more);
            let (v, st1) = eval_expression(m, st, value, depth);
            if v is Ok {
                lemma_statement_lasting(
                    m,
                    bind(enter(st1, st1.scope), identifier.lexeme, v->Ok_0),
                    *body,
                    depth,
                    more,
                );
            }
        },
        StmtView::For { identifier, iter, body } => {
            reveal(for_each);
            lemma_expression_lasting(m, st, iter, depth, more);
            let (it, st1) = eval_expression(m, st, iter, depth);
            match it {
                Ok(ValueView::Iter(at)) => {
                    if 0 <= at < st1.lists.len() {
                        lemma_for_lasting(m, st1, s, st1.lists[at], 0, depth, more, st.scope);
                    }
                },
                _ => {},
            }
        },
    }
}

/// The same for a run of statements.
pub proof fn lemma_statements_lasting(
    m: NumberModel,
    st: MachineView,
    ss: Seq<StmtView>,
    i: int,
    depth: nat,
    more: Supply,
)
    requires
        answered(exec_statements(m, st, ss, i, depth).0),
    ensures
        lasting(
            exec_statements(m, st, ss, i, depth),
            exec_statements(m, supplied(st, more), ss, i, depth),
            more,
        ),
    decreases depth, 1nat, ss, 0nat, ss.len() - i,
{
    reveal(exec_statements);
    reveal(exec_statement);
    if 0 <= i < ss.len() {
        lemma_statement_lasting(m, st, ss[i], depth, more);
        let (flow, st1) = exec_statement(m, st, ss[i], depth);
        if flow == Ok::<FlowView, RuntimeError>(FlowView::Normal) {
            lemma_statements_lasting(m, st1, ss, i + 1, depth, more);
        }
    }
}

/// The same for the repetitions of a `while`.
pub proof fn lemma_while_lasting(
    m: NumberModel,
    st: MachineView,
    s: StmtView,
    depth: nat,
    more: Supply,
    remaining: nat,
)
    requires
        s is WhileStatement,
        answered(exec_while(m, st, s, depth, remaining).0),
    ensures
        lasting(
            exec_while(m, st, s, depth, remaining),
            exec_while(m, supplied(st, more), s, depth, remaining),
            more,
        ),
    decreases depth, 1nat, s, 0nat, remaining,
{
    reveal(exec_while);
    reveal(exec_statement);
    reveal(eval_expression);
    match s {
        StmtView::WhileStatement { condition, body } => {
            lemma_expression_lasting(m, st, condition, depth, more);
            let (c, st1) = eval_expression(m, st, condition, depth);
            if c == Ok::<ValueView, RuntimeError>(ValueView::Boolean(true)) && remaining > 0 {
                lemma_statement_lasting(m, st1, *body, depth, more);
                let (flow, st2) = exec_statement(m, st1, *body, depth);
                if flow == Ok::<FlowView, RuntimeError>(FlowView::Normal) {
                    lemma_while_lasting(m, st2, s, depth, more, (remaining - 1) as nat);
                }
            }
        },
        _ => {},
    }
}

/// The same for the repetitions of a `for`.
pub proof fn lemma_for_lasting(
    m: NumberModel,
    st: MachineView,
    s: StmtView,
    elements: Seq<ValueView>,
    i: int,
    depth: nat,
    more: Supply,
    entry: int,
)
    requires
        s is For,
        answered(for_each(m, st, s, elements, i, depth, entry).0),
    ensures
        lasting(
            for_each(m, st, s, elements, i, depth, entry),
            for_each(m, supplied(st, more), s, elements, i, depth, entry),
            more,
        ),
    decreases depth, 1nat, s, 0nat, 1nat + elements.len() - i,
{
    reveal(for_each);
    reveal(exec_statement);
    match s {
        StmtView::For { identifier, iter, body } => {
            if 0 <= i < elements.len() {
                let inside = bind(enter(st, st.scope), identifier.lexeme, elements[i]);
                lemma_statement_lasting(m, inside, *body, depth, more);
                let (flow, st1) = exec_statement(m, inside, *body, depth);
                if flow == Ok::<FlowView, RuntimeError>(FlowView::Normal) {
                    lemma_for_lasting(m, leave(st1, entry), s, elements, i + 1, depth, more, entry);
                }
            }
        },
        _ => {},
    }
}

/// A program that does not ask for more than was handed in does the same
/// with more handed in: it has the same outcome, writes the same lines and
/// leaves the same state, but that what was handed in on top is left over.
pub proof fn law_more_handed_in_changes_nothing(
    m: NumberModel,
    st: MachineView,
    ss: Seq<StmtView>,
    i: int,
    depth: nat,
    more: Supply,
)
    requires
        answered(run(m, st, ss, i, depth).0),
    ensures
        run(m, supplied(st, more), ss, i, depth) == (
            run(m, st, ss, i, depth).0,
            supplied(run(m, st, ss, i, depth).1, more),
        ),
    decreases ss.len() - i,
{
    if 0 <= i < ss.len() {
        lemma_statement_lasting(m, st, ss[i], depth, more);
        let (flow, st1) = exec_statement(m, st, ss[i], depth);
        if flow == Ok::<FlowView, RuntimeError>(FlowView::Normal) {
            law_more_handed_in_changes_nothing(m, st1, ss, i + 1, depth, more);
        }
    }
}

} // verus!
