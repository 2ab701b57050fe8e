//! What holds of every program: laws of the rules in
//! [`semantics`](super::semantics).
use vstd::prelude::*;
use crate::parser::expression::ExprView;
use crate::parser::statement::StmtView;
use crate::token::{TokenType, TokenView};
use crate::visitors::environment::{
    law_declaration_changes_one_name, law_declaration_is_seen, law_enclosed_scope_sees_parent, lookup,
};
use crate::visitors::interpreter::callable::Native;
use crate::visitors::interpreter::number::NumberModel;
use crate::visitors::interpreter::semantics::{
    MachineView, bind, bind_arguments, call_function, call_native, enter, eval_all, eval_and,
    eval_expression, eval_fields, eval_list, eval_or, eval_record, exec_block, exec_if,
    exec_statement, exec_statements, exec_while, exec_with, field_place, field_value, for_each,
    index_value, leave, place, run, store_element, store_field,
};
use crate::visitors::interpreter::value::{FlowView, RuntimeError, ValueView};

verus! {

/// Short circuit: where the left operand of `and` is false, the result is
/// false and the state is the one behind the left operand, whatever the
/// right operand is. The right operand is not evaluated.
pub proof fn law_and_short_circuit(m: NumberModel, st: MachineView, left: ExprView, right: ExprView, depth: nat)
    requires
        eval_expression(m, st, left, depth).0 == Ok::<ValueView, RuntimeError>(ValueView::Boolean(false)),
    ensures
        eval_expression(m, st, ExprView::And { left: Box::new(left), right: Box::new(right) }, depth) == (
            Ok::<ValueView, RuntimeError>(ValueView::Boolean(false)),
            eval_expression(m, st, left, depth).1,
        ),
{
    reveal(eval_expression);
    reveal(eval_and);
}

/// Short circuit: where the left operand of `or` is true, the result is true
/// and the state is the one behind the left operand, whatever the right
/// operand is. The right operand is not evaluated.
pub proof fn law_or_short_circuit(m: NumberModel, st: MachineView, left: ExprView, right: ExprView, depth: nat)
    requires
        eval_expression(m, st, left, depth).0 == Ok::<ValueView, RuntimeError>(ValueView::Boolean(true)),
    ensures
        eval_expression(m, st, ExprView::Or { left: Box::new(left), right: Box::new(right) }, depth) == (
            Ok::<ValueView, RuntimeError>(ValueView::Boolean(true)),
            eval_expression(m, st, left, depth).1,
        ),
{
    reveal(eval_expression);
    reveal(eval_or);
}

/// Return propagation: a statement that returns ends the run of statements
/// that it stands in. The statements behind it are not executed: the
/// outcome and the state are those of the returning statement.
pub proof fn law_return_ends_statements(m: NumberModel, st: MachineView, ss: Seq<StmtView>, i: int, depth: nat)
    requires
        0 <= i < ss.len(),
        exec_statement(m, st, ss[i], depth).0 matches Ok(FlowView::Returning(_)),
    ensures
        exec_statements(m, st, ss, i, depth) == exec_statement(m, st, ss[i], depth),
{
    reveal(exec_statements);
    reveal(exec_statement);
}

/// Return propagation: a block whose statements return returns the same
/// value, and the scope that was current on entry is current again.
pub proof fn law_return_leaves_block(m: NumberModel, st: MachineView, statements: Seq<StmtView>, depth: nat)
    requires
        exec_statements(m, enter(st, st.scope), statements, 0, depth).0 matches Ok(FlowView::Returning(_)),
    ensures
        exec_statement(m, st, StmtView::Block { statements }, depth) == (
            exec_statements(m, enter(st, st.scope), statements, 0, depth).0,
            leave(exec_statements(m, enter(st, st.scope), statements, 0, depth).1, st.scope),
        ),
{
    reveal(exec_statement);
    reveal(exec_block);
    reveal(exec_statements);
}

/// Return propagation: an `if` whose branch returns returns the same value.
pub proof fn law_return_leaves_if(
    m: NumberModel,
    st: MachineView,
    condition: ExprView,
    then_branch: StmtView,
    else_branch: Option<Box<StmtView>>,
    depth: nat,
)
    requires
        eval_expression(m, st, condition, depth).0 matches Ok(ValueView::Boolean(_)),
    ensures
        ({
            let (c, st1) = eval_expression(m, st, condition, depth);
            let whole = exec_statement(
                m,
                st,
                StmtView::IfStatement { condition, then_branch: Box::new(then_branch), else_branch },
                depth,
            );
            &&& c == Ok::<ValueView, RuntimeError>(ValueView::Boolean(true)) ==> whole == exec_statement(
                m,
                st1,
                then_branch,
                depth,
            )
            &&& c == Ok::<ValueView, RuntimeError>(ValueView::Boolean(false)) && else_branch is Some ==> whole
                == exec_statement(m, st1, *else_branch->Some_0, depth)
        }),
{
    reveal(exec_statement);
    reveal(exec_if);
    reveal(eval_expression);
}

/// Return propagation: a `while` whose body returns returns the same value;
/// the condition is not evaluated again.
pub proof fn law_return_leaves_while(
    m: NumberModel,
    st: MachineView,
    condition: ExprView,
    body: StmtView,
    depth: nat,
    remaining: nat,
)
    requires
        remaining > 0,
        eval_expression(m, st, condition, depth).0 == Ok::<ValueView, RuntimeError>(ValueView::Boolean(true)),
        exec_statement(m, eval_expression(m, st, condition, depth).1, body, depth).0 matches Ok(
            FlowView::Returning(_),
        ),
    ensures
        exec_while(m, st, StmtView::WhileStatement { condition, body: Box::new(body) }, depth, remaining)
            == exec_statement(m, eval_expression(m, st, condition, depth).1, body, depth),
{
    reveal(exec_while);
    reveal(exec_statement);
    reveal(eval_expression);
}

/// Return propagation: a `for` whose body returns returns the same value
/// and runs no further repetition; the scope `entry` is current again.
pub proof fn law_return_leaves_for(
    m: NumberModel,
    st: MachineView,
    identifier: TokenView,
    iter: ExprView,
    body: StmtView,
    elements: Seq<ValueView>,
    i: int,
    depth: nat,
    entry: int,
)
    requires
        0 <= i < elements.len(),
        exec_statement(m, bind(enter(st, st.scope), identifier.lexeme, elements[i]), body, depth).0 matches Ok(
            FlowView::Returning(_),
        ),
    ensures
        ({
            let inside = exec_statement(m, bind(enter(st, st.scope), identifier.lexeme, elements[i]), body, depth);
            for_each(m, st, StmtView::For { identifier, iter, body: Box::new(body) }, elements, i, depth, entry)
                == (inside.0, leave(inside.1, entry))
        }),
{
    reveal(for_each);
    reveal(exec_statement);
}

/// Return propagation: a `with` whose body returns returns the same value,
/// and the scope that was current on entry is current again.
pub proof fn law_return_leaves_with(
    m: NumberModel,
    st: MachineView,
    value: ExprView,
    identifier: TokenView,
    body: StmtView,
    depth: nat,
)
    requires
        eval_expression(m, st, value, depth).0 is Ok,
    ensures
        ({
            let (v, st1) = eval_expression(m, st, value, depth);
            let inside = exec_statement(m, bind(enter(st1, st1.scope), identifier.lexeme, v->Ok_0), body, depth);
            let whole = exec_statement(m, st, StmtView::With { value, identifier, body: Box::new(body) }, depth);
            inside.0 matches Ok(flow) ==> whole == (inside.0, leave(inside.1, st.scope))
        }),
{
    reveal(exec_statement);
    reveal(exec_with);
    reveal(eval_expression);
}

/// Return propagation: the value that the body of a function returns is
/// exactly what the call gives; a body that runs to its end gives `Nil`.
/// The `return` goes no further than the call. Behind the call the caller's
/// scope is current again.
pub proof fn law_return_ends_call(
    m: NumberModel,
    st: MachineView,
    identifier: TokenView,
    parameters: Seq<TokenView>,
    body: StmtView,
    closure: int,
    arguments: Seq<ValueView>,
    depth: nat,
)
    ensures
        ({
            let declaration = StmtView::FunctionDeclaration { identifier, parameters, body: Box::new(body) };
            let inside = exec_statement(
                m,
                bind_arguments(enter(st, closure), parameters, arguments, 0),
                body,
                depth,
            );
            let whole = call_function(m, st, declaration, closure, arguments, depth);
            &&& inside.0 matches Ok(FlowView::Returning(v)) ==> whole == (
                Ok::<ValueView, RuntimeError>(v),
                leave(inside.1, st.scope),
            )
            &&& inside.0 matches Ok(FlowView::Normal) ==> whole == (
                Ok::<ValueView, RuntimeError>(ValueView::Nil),
                leave(inside.1, st.scope),
            )
            &&& inside.0 matches Err(x) ==> whole == (Err::<ValueView, RuntimeError>(x), inside.1)
        }),
{
    reveal(call_function);
    reveal(exec_statement);
}

/// Return propagation: a `return` that reaches the program itself is
/// rejected, and the statements behind it are not executed.
pub proof fn law_return_at_top_level(m: NumberModel, st: MachineView, ss: Seq<StmtView>, i: int, depth: nat)
    requires
        0 <= i < ss.len(),
        exec_statement(m, st, ss[i], depth).0 matches Ok(FlowView::Returning(_)),
    ensures
        run(m, st, ss, i, depth) == (
            Err::<ValueView, RuntimeError>(RuntimeError::ReturnOutsideFunction),
            exec_statement(m, st, ss[i], depth).1,
        ),
{
}

/// Closure: a call gives the same result and leaves the same state,
/// whatever scope the caller is in. Only the scope that is current behind
/// the call differs: it is the caller's.
pub proof fn law_call_ignores_callers_scope(
    m: NumberModel,
    st: MachineView,
    declaration: StmtView,
    closure: int,
    arguments: Seq<ValueView>,
    depth: nat,
    other: int,
)
    requires
        declaration is FunctionDeclaration,
    ensures
        ({
            let here = call_function(m, st, declaration, closure, arguments, depth);
            let there = call_function(m, MachineView { scope: other, ..st }, declaration, closure, arguments, depth);
            &&& there.0 == here.0
            &&& here.0 is Ok ==> there.1 == (MachineView { scope: other, ..here.1 }) && here.1.scope == st.scope
            &&& here.0 is Err ==> there.1 == here.1
        }),
{
    reveal(call_function);
    reveal(exec_statement);
    let moved = MachineView { scope: other, ..st };
    assert(enter(moved, closure) == enter(st, closure));
}

/// Closure: on entry to the body, a name that is no parameter means what it
/// means in the scope in which the function was declared.
pub proof fn law_body_resolves_in_defining_scope(
    st: MachineView,
    closure: int,
    parameters: Seq<TokenView>,
    arguments: Seq<ValueView>,
    name: Seq<char>,
)
    requires
        0 <= closure < st.scopes.len(),
        forall|i: int| 0 <= i < parameters.len() ==> (#[trigger] parameters[i]).lexeme != name,
    ensures
        ({
            let inside = bind_arguments(enter(st, closure), parameters, arguments, 0);
            lookup(inside.scopes, inside.scope, name) == lookup(st.scopes, closure, name)
        }),
{
    law_enclosed_scope_sees_parent(st.scopes, closure, name);
    lemma_bind_arguments_keeps_other_names(enter(st, closure), parameters, arguments, 0, name);
}

/// Binding arguments leaves the current scope current and every name that
/// is no parameter as it was.
proof fn lemma_bind_arguments_keeps_other_names(
    st: MachineView,
    parameters: Seq<TokenView>,
    arguments: Seq<ValueView>,
    i: int,
    name: Seq<char>,
)
    requires
        forall|k: int| 0 <= k < parameters.len() ==> (#[trigger] parameters[k]).lexeme != name,
    ensures
        bind_arguments(st, parameters, arguments, i).scope == st.scope,
        lookup(bind_arguments(st, parameters, arguments, i).scopes, st.scope, name) == lookup(
            st.scopes,
            st.scope,
            name,
        ),
    decreases parameters.len() - i,
{
    if 0 <= i < parameters.len() && i < arguments.len() {
        let next = bind(st, parameters[i].lexeme, arguments[i]);
        law_declaration_changes_one_name(st.scopes, st.scope, parameters[i].lexeme, arguments[i], st.scope, name);
        lemma_bind_arguments_keeps_other_names(next, parameters, arguments, i + 1, name);
    }
}

/// Aliasing: a list that is written out is new. Its place is the first that
/// the store has free once the elements are evaluated, so it shares its
/// sequence with no list made before, however alike they are written.
pub proof fn law_list_literal_is_new(m: NumberModel, st: MachineView, values: Seq<ExprView>, depth: nat)
    requires
        eval_all(m, st, values, 0, depth, Seq::empty()).0 is Ok,
    ensures
        ({
            let (items, st1) = eval_all(m, st, values, 0, depth, Seq::empty());
            let (list, st2) = eval_expression(m, st, ExprView::List { values }, depth);
            &&& list == Ok::<ValueView, RuntimeError>(ValueView::List(st1.lists.len() as int))
            &&& st2.lists == st1.lists.push(items->Ok_0)
        }),
{
    reveal(eval_expression);
    reveal(eval_list);
    reveal(eval_all);
}

/// Aliasing: a name that is declared with the value of another name holds
/// the same list, not a copy: both give the same place, and no sequence is
/// added to the store.
pub proof fn law_declaration_shares_the_list(
    m: NumberModel,
    st: MachineView,
    identifier: TokenView,
    other: TokenView,
    depth: nat,
)
    requires
        other.token_type == TokenType::Identifier,
        0 <= st.scope < st.scopes.len(),
        lookup(st.scopes, st.scope, other.lexeme) matches Some(ValueView::List(_)),
    ensures
        ({
            let (flow, st1) = exec_statement(
                m,
                st,
                StmtView::VariableDeclaration {
                    identifier,
                    expression: Some(ExprView::Primary { value: other }),
                },
                depth,
            );
            &&& flow == Ok::<FlowView, RuntimeError>(FlowView::Normal)
            &&& lookup(st1.scopes, st1.scope, identifier.lexeme) == lookup(st.scopes, st.scope, other.lexeme)
            &&& st1.lists == st.lists
        }),
{
    reveal(exec_statement);
    reveal(eval_expression);
    let held = lookup(st.scopes, st.scope, other.lexeme)->Some_0;
    law_declaration_is_seen(st.scopes, st.scope, identifier.lexeme, held);
}

/// Aliasing: `push` changes the sequence at the list's place. Every holder
/// of the list names that place, so every holder sees the new element; every
/// other sequence stays as it was.
pub proof fn law_push_is_seen_by_every_holder(
    m: NumberModel,
    st: MachineView,
    at: int,
    value: ValueView,
    depth: nat,
)
    requires
        0 <= at < st.lists.len(),
    ensures
        ({
            let (result, st1) = call_native(m, st, Native::Push, seq![ValueView::List(at), value], depth);
            &&& result == Ok::<ValueView, RuntimeError>(ValueView::List(at))
            &&& st1.lists.len() == st.lists.len()
            &&& st1.lists[at] == st.lists[at].push(value)
            &&& forall|other: int| 0 <= other < st.lists.len() && other != at ==> st1.lists[other] == st.lists[other]
            &&& st1.scopes == st.scopes
        }),
{
}

/// Aliasing: an assignment to an element changes the sequence at the list's
/// place. Every holder of the list reads the new element there; every other
/// sequence stays as it was.
pub proof fn law_element_assignment_is_seen_by_every_holder(
    st: MachineView,
    at: int,
    index: ValueView,
    value: ValueView,
)
    requires
        0 <= at < st.lists.len(),
        place(index, st.lists[at].len() as int) is Ok,
    ensures
        ({
            let (result, st1) = store_element(st, ValueView::List(at), index, value);
            &&& result == Ok::<ValueView, RuntimeError>(value)
            &&& index_value(st1, ValueView::List(at), index) == Ok::<ValueView, RuntimeError>(value)
            &&& st1.lists[at].len() == st.lists[at].len()
            &&& forall|other: int| 0 <= other < st.lists.len() && other != at ==> st1.lists[other] == st.lists[other]
        }),
{
}

/// Aliasing: a record that is written out is new. Its place is the first
/// that the store has free once the fields are evaluated.
pub proof fn law_record_literal_is_new(
    m: NumberModel,
    st: MachineView,
    key_values: Seq<(TokenView, ExprView)>,
    depth: nat,
)
    requires
        eval_fields(m, st, key_values, 0, depth, Seq::empty()).0 is Ok,
    ensures
        ({
            let (fields, st1) = eval_fields(m, st, key_values, 0, depth, Seq::empty());
            let (record, st2) = eval_expression(m, st, ExprView::Record { key_values }, depth);
            &&& record == Ok::<ValueView, RuntimeError>(ValueView::Record(st1.records.len() as int))
            &&& st2.records == st1.records.push(fields->Ok_0)
        }),
{
    reveal(eval_expression);
    reveal(eval_record);
    reveal(eval_fields);
}

/// Aliasing: an assignment to a field changes the mapping at the record's
/// place. Every holder of the record reads the new value there; every other
/// record stays as it was.
pub proof fn law_field_assignment_is_seen_by_every_holder(
    st: MachineView,
    at: int,
    key: Seq<char>,
    value: ValueView,
)
    requires
        0 <= at < st.records.len(),
        field_value(st, ValueView::Record(at), key) is Ok,
    ensures
        ({
            let (result, st1) = store_field(st, ValueView::Record(at), key, value);
            &&& result == Ok::<ValueView, RuntimeError>(value)
            &&& field_value(st1, ValueView::Record(at), key) == Ok::<ValueView, RuntimeError>(value)
            &&& forall|other: int|
                0 <= other < st.records.len() && other != at ==> st1.records[other] == st.records[other]
        }),
{
    let place = field_place(st.records[at], key, 0);
    lemma_field_place(st.records[at], key, 0);
    let after = st.records[at].update(place->Some_0, (key, value));
    lemma_field_place_after_update(st.records[at], key, 0, place->Some_0, value);
}

/// The place that `field_place` finds holds the name, and no place before
/// it does.
proof fn lemma_field_place(fields: Seq<(Seq<char>, ValueView)>, key: Seq<char>, i: int)
    requires
        0 <= i,
    ensures
        field_place(fields, key, i) matches Some(at) ==> i <= at < fields.len() && fields[at].0 == key
            && forall|k: int| i <= k < at ==> fields[k].0 != key,
    decreases fields.len() - i,
{
    if i < fields.len() && fields[i].0 != key {
        lemma_field_place(fields, key, i + 1);
    }
}

/// Replacing the value of the field found leaves it where it is found.
proof fn lemma_field_place_after_update(
    fields: Seq<(Seq<char>, ValueView)>,
    key: Seq<char>,
    i: int,
    at: int,
    value: ValueView,
)
    requires
        0 <= i <= at < fields.len(),
        field_place(fields, key, i) == Some(at),
    ensures
        field_place(fields.update(at, (key, value)), key, i) == Some(at),
    decreases fields.len() - i,
{
    lemma_field_place(fields, key, i);
    if i < at {
        lemma_field_place_after_update(fields, key, i + 1, at, value);
    }
}

} // verus!
