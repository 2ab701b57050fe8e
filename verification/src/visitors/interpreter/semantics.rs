//! What a program means: functions from the evaluator's state and a tree to
//! the tree's value and the state behind it.
//!
//! Every rule gives a pair: the outcome, which is a value (for a statement,
//! how it ended) or the error that stopped the program, and the state at
//! that point. `depth` bounds how deep calls may nest. Children are
//! evaluated in the order in which they are written.
use vstd::prelude::*;
use crate::parser::expression::ExprView;
use crate::parser::statement::StmtView;
use crate::token::{TokenType, TokenView};
use crate::visitors::environment::{ScopeView, assign, declare, enclose, lookup};
use crate::visitors::interpreter::callable::{BuiltIn, Native};
use crate::visitors::interpreter::number;
use crate::visitors::interpreter::number::{Arithmetic, NumberModel};
use crate::visitors::interpreter::value::{FlowView, RuntimeError, ValueView, equal, kind_name};

verus! {

/// The evaluator's state.
pub struct MachineView {
    /// The scopes with the values they bind.
    pub scopes: Seq<ScopeView<ValueView>>,
    /// The scope that is current.
    pub scope: int,
    /// The sequences that lists and iterators name.
    pub lists: Seq<Seq<ValueView>>,
    /// The fields that records name, in the order in which they were added.
    pub records: Seq<Seq<(Seq<char>, ValueView)>>,
    /// The lines written so far.
    pub output: Seq<Seq<char>>,
    /// The lines of input that were handed in and are not yet read.
    pub input: Seq<Seq<char>>,
    /// The readings of the clock, in milliseconds, that were handed in and
    /// are not yet used.
    pub clock: Seq<u64>,
    /// How often one loop may repeat.
    pub iterations: nat,
}

/// What an expression gives: its value or the error that stopped the program,
/// and the state behind it.
pub type Evaluated = (Result<ValueView, RuntimeError>, MachineView);

/// What a statement gives: how it ended or the error that stopped the
/// program, and the state behind it.
pub type Executed = (Result<FlowView, RuntimeError>, MachineView);

/// The state on entry to a construct that has a scope of its own: a new
/// scope, enclosed by `parent`, is current.
pub open spec fn enter(st: MachineView, parent: int) -> MachineView {
    MachineView { scopes: enclose(st.scopes, parent), scope: st.scopes.len() as int, ..st }
}

/// The state on leaving such a construct: the scope `entry`, which was
/// current on entry, is current again.
pub open spec fn leave(st: MachineView, entry: int) -> MachineView {
    MachineView { scope: entry, ..st }
}

/// The state with `name` bound to `value` in the current scope.
pub open spec fn bind(st: MachineView, name: Seq<char>, value: ValueView) -> MachineView {
    MachineView { scopes: declare(st.scopes, st.scope, name, value), ..st }
}

/// The state with one more line written.
pub open spec fn write(st: MachineView, line: Seq<char>) -> MachineView {
    MachineView { output: st.output.push(line), ..st }
}

/// The value of a literal.
pub open spec fn literal(m: NumberModel, token: TokenView) -> Result<ValueView, RuntimeError> {
    match token.token_type {
        TokenType::Number => match (m.parse)(token.lexeme) {
            Some(bits) => Ok(ValueView::Number(bits)),
            None => Err(RuntimeError::InvalidNumber),
        },
        TokenType::Boolean => Ok(ValueView::Boolean(token.lexeme == "true"@)),
        TokenType::String => Ok(ValueView::String(token.lexeme)),
        TokenType::Nil => Ok(ValueView::Nil),
        _ => Err(RuntimeError::UnexpectedToken),
    }
}

/// `-` changes the sign of a number and `!` turns a boolean round.
pub open spec fn unary_value(operator: TokenView, right: ValueView) -> Result<ValueView, RuntimeError> {
    match operator.token_type {
        TokenType::Minus => match right {
            ValueView::Number(bits) => Ok(ValueView::Number(number::negated(bits))),
            _ => Err(RuntimeError::TypeMismatch),
        },
        TokenType::Bang => match right {
            ValueView::Boolean(b) => Ok(ValueView::Boolean(!b)),
            _ => Err(RuntimeError::TypeMismatch),
        },
        _ => Err(RuntimeError::UnexpectedToken),
    }
}

/// `+` adds two numbers or joins two strings; `-` subtracts two numbers.
pub open spec fn term_value(m: NumberModel, left: ValueView, operator: TokenView, right: ValueView) -> Result<
    ValueView,
    RuntimeError,
> {
    match operator.token_type {
        TokenType::Plus => match (left, right) {
            (ValueView::Number(a), ValueView::Number(b)) => Ok(
                ValueView::Number((m.arithmetic)(Arithmetic::Add, a, b)),
            ),
            (ValueView::String(a), ValueView::String(b)) => Ok(ValueView::String(a + b)),
            _ => Err(RuntimeError::TypeMismatch),
        },
        TokenType::Minus => match (left, right) {
            (ValueView::Number(a), ValueView::Number(b)) => Ok(
                ValueView::Number((m.arithmetic)(Arithmetic::Subtract, a, b)),
            ),
            _ => Err(RuntimeError::TypeMismatch),
        },
        _ => Err(RuntimeError::UnexpectedToken),
    }
}

/// `*` and `/` take two numbers.
pub open spec fn factor_value(m: NumberModel, left: ValueView, operator: TokenView, right: ValueView) -> Result<
    ValueView,
    RuntimeError,
> {
    match operator.token_type {
        TokenType::Star => match (left, right) {
            (ValueView::Number(a), ValueView::Number(b)) => Ok(
                ValueView::Number((m.arithmetic)(Arithmetic::Multiply, a, b)),
            ),
            _ => Err(RuntimeError::TypeMismatch),
        },
        TokenType::Slash => match (left, right) {
            (ValueView::Number(a), ValueView::Number(b)) => Ok(
                ValueView::Number((m.arithmetic)(Arithmetic::Divide, a, b)),
            ),
            _ => Err(RuntimeError::TypeMismatch),
        },
        _ => Err(RuntimeError::UnexpectedToken),
    }
}

/// The four order relations take two numbers.
pub open spec fn comparison_value(left: ValueView, operator: TokenView, right: ValueView) -> Result<
    ValueView,
    RuntimeError,
> {
    match (left, right) {
        (ValueView::Number(a), ValueView::Number(b)) => match operator.token_type {
            TokenType::Greater => Ok(ValueView::Boolean(number::less(b, a))),
            TokenType::GreaterEqual => Ok(ValueView::Boolean(number::less(b, a) || number::same(a, b))),
            TokenType::Less => Ok(ValueView::Boolean(number::less(a, b))),
            TokenType::LessEqual => Ok(ValueView::Boolean(number::less(a, b) || number::same(a, b))),
            _ => Err(RuntimeError::UnexpectedToken),
        },
        _ => match operator.token_type {
            TokenType::Greater | TokenType::GreaterEqual | TokenType::Less | TokenType::LessEqual => Err(
                RuntimeError::TypeMismatch,
            ),
            _ => Err(RuntimeError::UnexpectedToken),
        },
    }
}

/// `==` and `!=` take any two values.
pub open spec fn equality_value(left: ValueView, operator: TokenView, right: ValueView) -> Result<
    ValueView,
    RuntimeError,
> {
    match operator.token_type {
        TokenType::EqualEqual => Ok(ValueView::Boolean(equal(left, right))),
        TokenType::BangEqual => Ok(ValueView::Boolean(!equal(left, right))),
        _ => Err(RuntimeError::UnexpectedToken),
    }
}

/// The digit of a number below ten.
pub open spec fn digit(d: u8) -> char {
    if d == 0 {
        '0'
    } else if d == 1 {
        '1'
    } else if d == 2 {
        '2'
    } else if d == 3 {
        '3'
    } else if d == 4 {
        '4'
    } else if d == 5 {
        '5'
    } else if d == 6 {
        '6'
    } else if d == 7 {
        '7'
    } else if d == 8 {
        '8'
    } else {
        '9'
    }
}

/// A byte in decimal digits.
pub open spec fn decimal(byte: u8) -> Seq<char> {
    if byte < 10 {
        seq![digit(byte)]
    } else if byte < 100 {
        seq![digit(byte / 10), digit(byte % 10)]
    } else {
        seq![digit(byte / 100), digit((byte / 10) % 10), digit(byte % 10)]
    }
}

/// The place that a number names in a sequence of the given length: the
/// number cut to a whole number, where that is a place of the sequence.
pub open spec fn place(index: ValueView, length: int) -> Result<int, RuntimeError> {
    match index {
        ValueView::Number(bits) => if 0 <= number::truncated(bits) < length {
            Ok(number::truncated(bits) as int)
        } else {
            Err(RuntimeError::IndexOutOfRange)
        },
        _ => Err(RuntimeError::TypeMismatch),
    }
}

/// `collection[index]`: the element of a list at that place, or the byte of
/// a string at that place, written in decimal digits.
pub open spec fn index_value(st: MachineView, collection: ValueView, index: ValueView) -> Result<
    ValueView,
    RuntimeError,
> {
    match collection {
        ValueView::List(at) => if 0 <= at < st.lists.len() {
            match place(index, st.lists[at].len() as int) {
                Ok(i) => Ok(st.lists[at][i]),
                Err(x) => Err(x),
            }
        } else {
            Err(RuntimeError::IndexOutOfRange)
        },
        ValueView::String(text) => match place(index, vstd::utf8::encode_utf8(text).len() as int) {
            Ok(i) => Ok(ValueView::String(decimal(vstd::utf8::encode_utf8(text)[i]))),
            Err(x) => Err(x),
        },
        _ => Err(RuntimeError::TypeMismatch),
    }
}

/// The state with the element of the list `at` at place `i` replaced.
pub open spec fn with_element(st: MachineView, at: int, i: int, value: ValueView) -> MachineView {
    MachineView { lists: st.lists.update(at, st.lists[at].update(i, value)), ..st }
}

/// `list[index] = value`: the element at that place is replaced, for every
/// holder of the list, and the assignment has the value assigned.
pub open spec fn store_element(st: MachineView, list: ValueView, index: ValueView, value: ValueView) -> Evaluated {
    match list {
        ValueView::List(at) => if 0 <= at < st.lists.len() {
            match place(index, st.lists[at].len() as int) {
                Ok(i) => (Ok(value), with_element(st, at, i, value)),
                Err(x) => (Err(x), st),
            }
        } else {
            (Err(RuntimeError::IndexOutOfRange), st)
        },
        _ => (Err(RuntimeError::TypeMismatch), st),
    }
}

/// The place of the first field from `i` on that has the name `key`.
pub open spec fn field_place(fields: Seq<(Seq<char>, ValueView)>, key: Seq<char>, i: int) -> Option<int>
    decreases fields.len() - i,
{
    if !(0 <= i < fields.len()) {
        None
    } else if fields[i].0 == key {
        Some(i)
    } else {
        field_place(fields, key, i + 1)
    }
}

/// The fields with `key` set to `value`: an existing field of the name keeps
/// its place, a new one comes last.
pub open spec fn with_field(fields: Seq<(Seq<char>, ValueView)>, key: Seq<char>, value: ValueView) -> Seq<
    (Seq<char>, ValueView),
> {
    match field_place(fields, key, 0) {
        Some(i) => fields.update(i, (key, value)),
        None => fields.push((key, value)),
    }
}

/// `map.key`: the value of the record's field of that name.
pub open spec fn field_value(st: MachineView, map: ValueView, key: Seq<char>) -> Result<ValueView, RuntimeError> {
    match map {
        ValueView::Record(at) => if 0 <= at < st.records.len() {
            match field_place(st.records[at], key, 0) {
                Some(i) => Ok(st.records[at][i].1),
                None => Err(RuntimeError::InvalidKey),
            }
        } else {
            Err(RuntimeError::InvalidKey)
        },
        _ => Err(RuntimeError::TypeMismatch),
    }
}

/// `map.key = value`: the field of that name, which the record must have, is
/// replaced for every holder of the record.
pub open spec fn store_field(st: MachineView, map: ValueView, key: Seq<char>, value: ValueView) -> Evaluated {
    match map {
        ValueView::Record(at) => if 0 <= at < st.records.len() {
            match field_place(st.records[at], key, 0) {
                Some(i) => (
                    Ok(value),
                    MachineView { records: st.records.update(at, st.records[at].update(i, (key, value))), ..st },
                ),
                None => (Err(RuntimeError::InvalidKey), st),
            }
        } else {
            (Err(RuntimeError::InvalidKey), st)
        },
        _ => (Err(RuntimeError::TypeMismatch), st),
    }
}

/// The number of bytes that a text takes in UTF-8, as the machine counts.
pub open spec fn byte_length(text: Seq<char>) -> usize {
    vstd::utf8::encode_utf8(text).len() as usize
}

/// The separator before the item at place `i` of a list that is written.
pub open spec fn separator(i: int) -> Seq<char> {
    if i > 0 {
        ", "@
    } else {
        Seq::empty()
    }
}

/// The text that a value is written as. A list is written with its elements,
/// and so on inwards as far as `depth` allows.
pub open spec fn render(m: NumberModel, st: MachineView, value: ValueView, depth: nat) -> Result<
    Seq<char>,
    RuntimeError,
>
    decreases depth, 0nat,
{
    match value {
        ValueView::Number(bits) => Ok((m.format)(bits)),
        ValueView::Boolean(b) => Ok(
            if b {
                "true"@
            } else {
                "false"@
            },
        ),
        ValueView::String(text) => Ok(text),
        ValueView::BuiltIn(_) => Ok("<native funk>"@),
        ValueView::Function { .. } => Ok("<funk>"@),
        ValueView::Nil => Ok("nil"@),
        ValueView::List(at) => if depth == 0 {
            Err(RuntimeError::DepthExceeded)
        } else if !(0 <= at < st.lists.len()) {
            Err(RuntimeError::IndexOutOfRange)
        } else {
            match render_items(m, st, st.lists[at], 0, (depth - 1) as nat, "["@) {
                Ok(text) => Ok(text + "]"@),
                Err(x) => Err(x),
            }
        },
        ValueView::Iter(at) => if depth == 0 {
            Err(RuntimeError::DepthExceeded)
        } else if !(0 <= at < st.lists.len()) {
            Err(RuntimeError::IndexOutOfRange)
        } else {
            match render_items(m, st, st.lists[at], 0, (depth - 1) as nat, "Iter ["@) {
                Ok(text) => Ok(text + "]"@),
                Err(x) => Err(x),
            }
        },
        ValueView::Record(at) => if depth == 0 {
            Err(RuntimeError::DepthExceeded)
        } else if !(0 <= at < st.records.len()) {
            Err(RuntimeError::InvalidKey)
        } else {
            match render_fields(m, st, st.records[at], 0, (depth - 1) as nat, "{"@) {
                Ok(text) => Ok(text + "}"@),
                Err(x) => Err(x),
            }
        },
    }
}

/// `done`, followed by the items from place `i` on, with `, ` between them.
pub open spec fn render_items(
    m: NumberModel,
    st: MachineView,
    items: Seq<ValueView>,
    i: int,
    depth: nat,
    done: Seq<char>,
) -> Result<Seq<char>, RuntimeError>
    decreases depth, 1nat + items.len() - i,
{
    if 0 <= i < items.len() {
        match render(m, st, items[i], depth) {
            Ok(text) => render_items(m, st, items, i + 1, depth, done + separator(i) + text),
            Err(x) => Err(x),
        }
    } else {
        Ok(done)
    }
}

/// `done`, followed by the fields from place `i` on as `name:value`, with
/// `, ` between them.
pub open spec fn render_fields(
    m: NumberModel,
    st: MachineView,
    fields: Seq<(Seq<char>, ValueView)>,
    i: int,
    depth: nat,
    done: Seq<char>,
) -> Result<Seq<char>, RuntimeError>
    decreases depth, 1nat + fields.len() - i,
{
    if 0 <= i < fields.len() {
        match render(m, st, fields[i].1, depth) {
            Ok(text) => render_fields(
                m,
                st,
                fields,
                i + 1,
                depth,
                done + separator(i) + fields[i].0 + ":"@ + text,
            ),
            Err(x) => Err(x),
        }
    } else {
        Ok(done)
    }
}

/// `done`, followed by the values from place `i` on, with nothing between
/// them.
pub open spec fn render_all(
    m: NumberModel,
    st: MachineView,
    values: Seq<ValueView>,
    i: int,
    depth: nat,
    done: Seq<char>,
) -> Result<Seq<char>, RuntimeError>
    decreases values.len() - i,
{
    if 0 <= i < values.len() {
        match render(m, st, values[i], depth) {
            Ok(text) => render_all(m, st, values, i + 1, depth, done + text),
            Err(x) => Err(x),
        }
    } else {
        Ok(done)
    }
}

/// The characters of a text from place `i` on, each as a string of its own.
pub open spec fn characters(text: Seq<char>) -> Seq<ValueView> {
    Seq::new(text.len(), |i: int| ValueView::String(seq![text[i]]))
}

/// `done`, followed by the numbers `low`, `low + step`, and so on below
/// `high`; `None` where one of them has no bits of its own.
pub open spec fn range_values(low: int, high: int, step: int, done: Seq<ValueView>) -> Option<Seq<ValueView>>
    decreases high - low,
{
    if low >= high || low < 0 || step < 1 {
        Some(done)
    } else {
        match number::from_integer(low as u64) {
            None => None,
            Some(bits) => if step >= high - low {
                Some(done.push(ValueView::Number(bits)))
            } else {
                range_values(low + step, high, step, done.push(ValueView::Number(bits)))
            },
        }
    }
}

/// The state with one more sequence in the store, and the iterator over it.
pub open spec fn new_iterator(st: MachineView, items: Seq<ValueView>) -> Evaluated {
    (Ok(ValueView::Iter(st.lists.len() as int)), MachineView { lists: st.lists.push(items), ..st })
}

/// The iterator over the numbers of a range.
pub open spec fn range(st: MachineView, low: int, high: int, step: int) -> Evaluated {
    match range_values(low, high, step, Seq::empty()) {
        Some(items) => new_iterator(st, items),
        None => (Err(RuntimeError::NumberOutOfRange), st),
    }
}

/// What a built-in function gives for the given arguments.
///
/// The lines that `input` reads and the readings that `clock` gives are
/// handed in beforehand. Where a program asks for one more than was handed
/// in, it stops with `InputNeeded` or `ClockNeeded`; run again from the start
/// with more handed in, it does the same up to that point and goes on.
pub open spec fn call_native(m: NumberModel, st: MachineView, native: Native, arguments: Seq<ValueView>, depth: nat) -> Evaluated {
    match native {
        Native::Clock => if st.clock.len() > 0 {
            match number::from_integer(st.clock[0]) {
                Some(bits) => (Ok(ValueView::Number(bits)), MachineView { clock: st.clock.drop_first(), ..st }),
                None => (Err(RuntimeError::NumberOutOfRange), st),
            }
        } else {
            (Err(RuntimeError::ClockNeeded), st)
        },
        Native::Println => match render_all(m, st, arguments, 0, depth, Seq::empty()) {
            Ok(line) => (Ok(ValueView::Nil), write(st, line)),
            Err(x) => (Err(x), st),
        },
        Native::Input => if st.input.len() > 0 {
            (Ok(ValueView::String(st.input[0])), MachineView { input: st.input.drop_first(), ..st })
        } else {
            (Err(RuntimeError::InputNeeded), st)
        },
        Native::Iter => if arguments.len() < 1 {
            (Err(RuntimeError::ArityMismatch), st)
        } else {
            match arguments[0] {
                ValueView::List(at) => (Ok(ValueView::Iter(at)), st),
                ValueView::String(text) => new_iterator(st, characters(text)),
                _ => (Err(RuntimeError::InvalidArgument), st),
            }
        },
        Native::RangeTo => if arguments.len() < 1 {
            (Err(RuntimeError::ArityMismatch), st)
        } else {
            match arguments[0] {
                ValueView::Number(high) => if number::is_negative(high) {
                    (Err(RuntimeError::InvalidRange), st)
                } else {
                    range(st, 0, number::truncated(high) as int, 1)
                },
                _ => (Err(RuntimeError::InvalidArgument), st),
            }
        },
        Native::Range => if arguments.len() < 2 {
            (Err(RuntimeError::ArityMismatch), st)
        } else {
            match (arguments[0], arguments[1]) {
                (ValueView::Number(low), ValueView::Number(high)) => if number::is_negative(low) || !number::less(
                    low,
                    high,
                ) {
                    (Err(RuntimeError::InvalidRange), st)
                } else {
                    range(st, number::truncated(low) as int, number::truncated(high) as int, 1)
                },
                _ => (Err(RuntimeError::InvalidArgument), st),
            }
        },
        Native::RangeSkip => if arguments.len() < 3 {
            (Err(RuntimeError::ArityMismatch), st)
        } else {
            match (arguments[0], arguments[1], arguments[2]) {
                (ValueView::Number(low), ValueView::Number(high), ValueView::Number(step)) => if number::is_negative(
                    low,
                ) || !number::less(low, high) || number::truncated(step) < 1 {
                    (Err(RuntimeError::InvalidRange), st)
                } else {
                    range(
                        st,
                        number::truncated(low) as int,
                        number::truncated(high) as int,
                        number::truncated(step) as int,
                    )
                },
                _ => (Err(RuntimeError::InvalidArgument), st),
            }
        },
        Native::Len => if arguments.len() < 1 {
            (Err(RuntimeError::ArityMismatch), st)
        } else {
            match arguments[0] {
                ValueView::List(at) => if 0 <= at < st.lists.len() {
                    match number::from_integer(st.lists[at].len() as u64) {
                        Some(bits) => (Ok(ValueView::Number(bits)), st),
                        None => (Err(RuntimeError::NumberOutOfRange), st),
                    }
                } else {
                    (Err(RuntimeError::InvalidArgument), st)
                },
                ValueView::String(text) => match number::from_integer(byte_length(text) as u64) {
                    Some(bits) => (Ok(ValueView::Number(bits)), st),
                    None => (Err(RuntimeError::NumberOutOfRange), st),
                },
                _ => (Err(RuntimeError::InvalidArgument), st),
            }
        },
        Native::Push => if arguments.len() < 2 {
            (Err(RuntimeError::ArityMismatch), st)
        } else {
            match arguments[0] {
                ValueView::List(at) => if 0 <= at < st.lists.len() {
                    (
                        Ok(ValueView::List(at)),
                        MachineView { lists: st.lists.update(at, st.lists[at].push(arguments[1])), ..st },
                    )
                } else {
                    (Err(RuntimeError::InvalidArgument), st)
                },
                _ => (Err(RuntimeError::InvalidArgument), st),
            }
        },
        Native::ToNumber => if arguments.len() < 1 {
            (Err(RuntimeError::ArityMismatch), st)
        } else {
            match arguments[0] {
                ValueView::String(text) => match (m.parse)(text) {
                    Some(bits) => (Ok(ValueView::Number(bits)), st),
                    None => (Err(RuntimeError::InvalidNumber), st),
                },
                _ => (Err(RuntimeError::InvalidArgument), st),
            }
        },
        Native::TypeOf => if arguments.len() < 1 {
            (Err(RuntimeError::ArityMismatch), st)
        } else {
            (Ok(ValueView::String(kind_name(arguments[0]))), st)
        },
    }
}

/// A call of a built-in function: it takes the number of arguments that its
/// arity says, or any number where it has no arity.
pub open spec fn call_built_in(
    m: NumberModel,
    st: MachineView,
    built_in: BuiltIn,
    arguments: Seq<ValueView>,
    depth: nat,
) -> Evaluated {
    if built_in.arity is Some && built_in.arity->Some_0 != arguments.len() {
        (Err(RuntimeError::ArityMismatch), st)
    } else {
        call_native(m, st, built_in.function, arguments, depth)
    }
}

/// A call of a function of the program, as the rule for calls has it: it
/// takes as many arguments as it has parameters, and it nests one deeper
/// than its caller.
pub open spec fn call_declared(
    m: NumberModel,
    st: MachineView,
    arity: nat,
    declaration: StmtView,
    closure: int,
    arguments: Seq<ValueView>,
    depth: nat,
) -> Evaluated {
    if arity != arguments.len() {
        (Err(RuntimeError::ArityMismatch), st)
    } else if depth == 0 {
        (Err(RuntimeError::DepthExceeded), st)
    } else {
        call_function(m, st, declaration, closure, arguments, (depth - 1) as nat)
    }
}

/// A tree of another variant than the rule is for. The rules are only ever
/// applied to their own variant.
pub open spec fn misplaced() -> RuntimeError {
    RuntimeError::UnexpectedToken
}

/// The value of an expression and the state behind it.
#[verifier::opaque]
pub open spec fn eval_expression(m: NumberModel, st: MachineView, e: ExprView, depth: nat) -> Evaluated
    decreases depth, 0nat, e, 1nat, 0nat,
{
    match e {
        ExprView::Equality { .. } => eval_equality(m, st, e, depth),
        ExprView::Assignment { .. } => eval_assignment(m, st, e, depth),
        ExprView::IfExpression { .. } => eval_if_expression(m, st, e, depth),
        ExprView::Comparison { .. } => eval_comparison(m, st, e, depth),
        ExprView::Term { .. } => eval_term(m, st, e, depth),
        ExprView::Factor { .. } => eval_factor(m, st, e, depth),
        ExprView::Unary { .. } => eval_unary(m, st, e, depth),
        ExprView::Primary { .. } => eval_primary(m, st, e),
        ExprView::Or { .. } => eval_or(m, st, e, depth),
        ExprView::And { .. } => eval_and(m, st, e, depth),
        ExprView::Call { .. } => eval_call(m, st, e, depth),
        ExprView::List { .. } => eval_list(m, st, e, depth),
        ExprView::Index { .. } => eval_index(m, st, e, depth),
        ExprView::Record { .. } => eval_record(m, st, e, depth),
        ExprView::MapIndex { .. } => eval_map_index(m, st, e, depth),
        ExprView::MapIndexAssignment { .. } => eval_map_index_assignment(m, st, e, depth),
        ExprView::IndexAssignment { .. } => eval_index_assignment(m, st, e, depth),
    }
}

/// A literal has its own value; an identifier has the value that the
/// nearest scope binds it to.
pub open spec fn eval_primary(m: NumberModel, st: MachineView, e: ExprView) -> Evaluated {
    match e {
        ExprView::Primary { value } => if value.token_type == TokenType::Identifier {
            match lookup(st.scopes, st.scope, value.lexeme) {
                Some(v) => (Ok(v), st),
                None => (Err(RuntimeError::UndefinedVariable), st),
            }
        } else {
            (literal(m, value), st)
        },
        _ => (Err(misplaced()), st),
    }
}

/// `-right` and `!right`.
#[verifier::opaque]
pub open spec fn eval_unary(m: NumberModel, st: MachineView, e: ExprView, depth: nat) -> Evaluated
    decreases depth, 0nat, e, 0nat, 0nat,
{
    match e {
        ExprView::Unary { operator, right } => match eval_expression(m, st, *right, depth) {
            (Err(x), st1) => (Err(x), st1),
            (Ok(v), st1) => (unary_value(operator, v), st1),
        },
        _ => (Err(misplaced()), st),
    }
}

/// `left * right` and `left / right`: the left operand is evaluated first.
#[verifier::opaque]
pub open spec fn eval_factor(m: NumberModel, st: MachineView, e: ExprView, depth: nat) -> Evaluated
    decreases depth, 0nat, e, 0nat, 0nat,
{
    match e {
        ExprView::Factor { left, operator, right } => match eval_expression(m, st, *left, depth) {
            (Err(x), st1) => (Err(x), st1),
            (Ok(l), st1) => match eval_expression(m, st1, *right, depth) {
                (Err(x), st2) => (Err(x), st2),
                (Ok(r), st2) => (factor_value(m, l, operator, r), st2),
            },
        },
        _ => (Err(misplaced()), st),
    }
}

/// `left + right` and `left - right`: the left operand is evaluated first.
#[verifier::opaque]
pub open spec fn eval_term(m: NumberModel, st: MachineView, e: ExprView, depth: nat) -> Evaluated
    decreases depth, 0nat, e, 0nat, 0nat,
{
    match e {
        ExprView::Term { left, operator, right } => match eval_expression(m, st, *left, depth) {
            (Err(x), st1) => (Err(x), st1),
            (Ok(l), st1) => match eval_expression(m, st1, *right, depth) {
                (Err(x), st2) => (Err(x), st2),
                (Ok(r), st2) => (term_value(m, l, operator, r), st2),
            },
        },
        _ => (Err(misplaced()), st),
    }
}

/// The four order relations: the left operand is evaluated first.
#[verifier::opaque]
pub open spec fn eval_comparison(m: NumberModel, st: MachineView, e: ExprView, depth: nat) -> Evaluated
    decreases depth, 0nat, e, 0nat, 0nat,
{
    match e {
        ExprView::Comparison { left, operator, right } => match eval_expression(m, st, *left, depth) {
            (Err(x), st1) => (Err(x), st1),
            (Ok(l), st1) => match eval_expression(m, st1, *right, depth) {
                (Err(x), st2) => (Err(x), st2),
                (Ok(r), st2) => (comparison_value(l, operator, r), st2),
            },
        },
        _ => (Err(misplaced()), st),
    }
}

/// `left == right` and `left != right`: the left operand is evaluated first.
#[verifier::opaque]
pub open spec fn eval_equality(m: NumberModel, st: MachineView, e: ExprView, depth: nat) -> Evaluated
    decreases depth, 0nat, e, 0nat, 0nat,
{
    match e {
        ExprView::Equality { left, operator, right } => match eval_expression(m, st, *left, depth) {
            (Err(x), st1) => (Err(x), st1),
            (Ok(l), st1) => match eval_expression(m, st1, *right, depth) {
                (Err(x), st2) => (Err(x), st2),
                (Ok(r), st2) => (equality_value(l, operator, r), st2),
            },
        },
        _ => (Err(misplaced()), st),
    }
}

/// `left and right`: where the left operand is false, the right one is not
/// evaluated. Both operands are booleans.
#[verifier::opaque]
pub open spec fn eval_and(m: NumberModel, st: MachineView, e: ExprView, depth: nat) -> Evaluated
    decreases depth, 0nat, e, 0nat, 0nat,
{
    match e {
        ExprView::And { left, right } => match eval_expression(m, st, *left, depth) {
            (Err(x), st1) => (Err(x), st1),
            (Ok(ValueView::Boolean(l)), st1) => if !l {
                (Ok(ValueView::Boolean(false)), st1)
            } else {
                match eval_expression(m, st1, *right, depth) {
                    (Err(x), st2) => (Err(x), st2),
                    (Ok(ValueView::Boolean(r)), st2) => (Ok(ValueView::Boolean(r)), st2),
                    (Ok(_), st2) => (Err(RuntimeError::TypeMismatch), st2),
                }
            },
            (Ok(_), st1) => (Err(RuntimeError::TypeMismatch), st1),
        },
        _ => (Err(misplaced()), st),
    }
}

/// `left or right`: where the left operand is true, the right one is not
/// evaluated. Both operands are booleans.
#[verifier::opaque]
pub open spec fn eval_or(m: NumberModel, st: MachineView, e: ExprView, depth: nat) -> Evaluated
    decreases depth, 0nat, e, 0nat, 0nat,
{
    match e {
        ExprView::Or { left, right } => match eval_expression(m, st, *left, depth) {
            (Err(x), st1) => (Err(x), st1),
            (Ok(ValueView::Boolean(l)), st1) => if l {
                (Ok(ValueView::Boolean(true)), st1)
            } else {
                match eval_expression(m, st1, *right, depth) {
                    (Err(x), st2) => (Err(x), st2),
                    (Ok(ValueView::Boolean(r)), st2) => (Ok(ValueView::Boolean(r)), st2),
                    (Ok(_), st2) => (Err(RuntimeError::TypeMismatch), st2),
                }
            },
            (Ok(_), st1) => (Err(RuntimeError::TypeMismatch), st1),
        },
        _ => (Err(misplaced()), st),
    }
}

/// `identifier = value` overwrites the nearest binding of the name and has
/// the value assigned.
#[verifier::opaque]
pub open spec fn eval_assignment(m: NumberModel, st: MachineView, e: ExprView, depth: nat) -> Evaluated
    decreases depth, 0nat, e, 0nat, 0nat,
{
    match e {
        ExprView::Assignment { identifier, value } => match eval_expression(m, st, *value, depth) {
            (Err(x), st1) => (Err(x), st1),
            (Ok(v), st1) => match assign(st1.scopes, st1.scope, identifier.lexeme, v) {
                Some(scopes) => (Ok(v), MachineView { scopes, ..st1 }),
                None => (Err(RuntimeError::UndefinedVariable), st1),
            },
        },
        _ => (Err(misplaced()), st),
    }
}

/// `then_branch if condition else else_branch`: the condition is evaluated
/// first, then the one branch that it selects.
#[verifier::opaque]
pub open spec fn eval_if_expression(m: NumberModel, st: MachineView, e: ExprView, depth: nat) -> Evaluated
    decreases depth, 0nat, e, 0nat, 0nat,
{
    match e {
        ExprView::IfExpression { condition, then_branch, else_branch } => match eval_expression(
            m,
            st,
            *condition,
            depth,
        ) {
            (Err(x), st1) => (Err(x), st1),
            (Ok(ValueView::Boolean(c)), st1) => if c {
                eval_expression(m, st1, *then_branch, depth)
            } else {
                eval_expression(m, st1, *else_branch, depth)
            },
            (Ok(_), st1) => (Err(RuntimeError::TypeMismatch), st1),
        },
        _ => (Err(misplaced()), st),
    }
}

/// The values of the expressions from place `i` on, behind those in `done`.
#[verifier::opaque]
pub open spec fn eval_all(
    m: NumberModel,
    st: MachineView,
    es: Seq<ExprView>,
    i: int,
    depth: nat,
    done: Seq<ValueView>,
) -> (Result<Seq<ValueView>, RuntimeError>, MachineView)
    decreases depth, 0nat, es, 0nat, es.len() - i,
{
    if 0 <= i < es.len() {
        match eval_expression(m, st, es[i], depth) {
            (Err(x), st1) => (Err(x), st1),
            (Ok(v), st1) => eval_all(m, st1, es, i + 1, depth, done.push(v)),
        }
    } else {
        (Ok(done), st)
    }
}

/// The state on entry to the body of a function: a new scope, enclosed by
/// the scope in which the function was declared, binds the parameters to the
/// arguments and is current.
pub open spec fn bind_arguments(st: MachineView, parameters: Seq<TokenView>, arguments: Seq<ValueView>, i: int) -> MachineView
    decreases parameters.len() - i,
{
    if 0 <= i < parameters.len() && i < arguments.len() {
        bind_arguments(bind(st, parameters[i].lexeme, arguments[i]), parameters, arguments, i + 1)
    } else {
        st
    }
}

/// What a call gives once the body has ended: the value returned, or `Nil`
/// where the body ran to its end.
pub open spec fn returned(flow: FlowView) -> ValueView {
    match flow {
        FlowView::Returning(v) => v,
        FlowView::Normal => ValueView::Nil,
    }
}

/// A call of a function of the program. The body runs in a new scope that
/// is enclosed by the scope of the declaration, whatever scope the caller is
/// in. A `return` in the body ends the call; it goes no further. Behind the
/// call the caller's scope is current again.
#[verifier::opaque]
pub open spec fn call_function(
    m: NumberModel,
    st: MachineView,
    declaration: StmtView,
    closure: int,
    arguments: Seq<ValueView>,
    depth: nat,
) -> Evaluated
    decreases depth, 1nat, declaration, 2nat, 0nat,
{
    match declaration {
        StmtView::FunctionDeclaration { identifier, parameters, body } => match exec_statement(
            m,
            bind_arguments(enter(st, closure), parameters, arguments, 0),
            *body,
            depth,
        ) {
            (Err(x), st1) => (Err(x), st1),
            (Ok(flow), st1) => (Ok(returned(flow)), leave(st1, st.scope)),
        },
        _ => (Err(RuntimeError::NotCallable), st),
    }
}

/// `identifier(arguments)`: what is called is evaluated first, then the
/// arguments from left to right.
#[verifier::opaque]
pub open spec fn eval_call(m: NumberModel, st: MachineView, e: ExprView, depth: nat) -> Evaluated
    decreases depth, 0nat, e, 0nat, 0nat,
{
    match e {
        ExprView::Call { identifier, arguments } => match eval_expression(m, st, *identifier, depth) {
            (Err(x), st1) => (Err(x), st1),
            (Ok(callee), st1) => match eval_all(m, st1, arguments, 0, depth, Seq::empty()) {
                (Err(x), st2) => (Err(x), st2),
                (Ok(values), st2) => match callee {
                    ValueView::BuiltIn(built_in) => call_built_in(m, st2, built_in, values, depth),
                    ValueView::Function { arity, declaration, closure } => if arity != values.len() {
                        (Err(RuntimeError::ArityMismatch), st2)
                    } else if depth == 0 {
                        (Err(RuntimeError::DepthExceeded), st2)
                    } else {
                        call_function(m, st2, declaration, closure, values, (depth - 1) as nat)
                    },
                    _ => (Err(RuntimeError::NotCallable), st2),
                },
            },
        },
        _ => (Err(misplaced()), st),
    }
}

/// `[values]` makes a new list: it shares its elements' places with no list
/// made before.
#[verifier::opaque]
pub open spec fn eval_list(m: NumberModel, st: MachineView, e: ExprView, depth: nat) -> Evaluated
    decreases depth, 0nat, e, 0nat, 0nat,
{
    match e {
        ExprView::List { values } => match eval_all(m, st, values, 0, depth, Seq::empty()) {
            (Err(x), st1) => (Err(x), st1),
            (Ok(items), st1) => (
                Ok(ValueView::List(st1.lists.len() as int)),
                MachineView { lists: st1.lists.push(items), ..st1 },
            ),
        },
        _ => (Err(misplaced()), st),
    }
}

/// The fields of a record from place `i` on, behind those in `done`. A name
/// that occurs twice keeps its first place and its last value.
#[verifier::opaque]
pub open spec fn eval_fields(
    m: NumberModel,
    st: MachineView,
    entries: Seq<(TokenView, ExprView)>,
    i: int,
    depth: nat,
    done: Seq<(Seq<char>, ValueView)>,
) -> (Result<Seq<(Seq<char>, ValueView)>, RuntimeError>, MachineView)
    decreases depth, 0nat, entries, 0nat, entries.len() - i,
{
    if 0 <= i < entries.len() {
        match eval_expression(m, st, entries[i].1, depth) {
            (Err(x), st1) => (Err(x), st1),
            (Ok(v), st1) => eval_fields(m, st1, entries, i + 1, depth, with_field(done, entries[i].0.lexeme, v)),
        }
    } else {
        (Ok(done), st)
    }
}

/// `{key: value, ...}` makes a new record.
#[verifier::opaque]
pub open spec fn eval_record(m: NumberModel, st: MachineView, e: ExprView, depth: nat) -> Evaluated
    decreases depth, 0nat, e, 0nat, 0nat,
{
    match e {
        ExprView::Record { key_values } => match eval_fields(m, st, key_values, 0, depth, Seq::empty()) {
            (Err(x), st1) => (Err(x), st1),
            (Ok(fields), st1) => (
                Ok(ValueView::Record(st1.records.len() as int)),
                MachineView { records: st1.records.push(fields), ..st1 },
            ),
        },
        _ => (Err(misplaced()), st),
    }
}

/// `list[expression]`: the collection is evaluated first, then the index.
#[verifier::opaque]
pub open spec fn eval_index(m: NumberModel, st: MachineView, e: ExprView, depth: nat) -> Evaluated
    decreases depth, 0nat, e, 0nat, 0nat,
{
    match e {
        ExprView::Index { list, expression } => match eval_expression(m, st, *list, depth) {
            (Err(x), st1) => (Err(x), st1),
            (Ok(collection), st1) => match eval_expression(m, st1, *expression, depth) {
                (Err(x), st2) => (Err(x), st2),
                (Ok(index), st2) => (index_value(st2, collection, index), st2),
            },
        },
        _ => (Err(misplaced()), st),
    }
}

/// `map.key`.
#[verifier::opaque]
pub open spec fn eval_map_index(m: NumberModel, st: MachineView, e: ExprView, depth: nat) -> Evaluated
    decreases depth, 0nat, e, 0nat, 0nat,
{
    match e {
        ExprView::MapIndex { map, key } => match eval_expression(m, st, *map, depth) {
            (Err(x), st1) => (Err(x), st1),
            (Ok(record), st1) => (field_value(st1, record, key.lexeme), st1),
        },
        _ => (Err(misplaced()), st),
    }
}

/// `map.key = value`: the record is evaluated first, then the value.
#[verifier::opaque]
pub open spec fn eval_map_index_assignment(m: NumberModel, st: MachineView, e: ExprView, depth: nat) -> Evaluated
    decreases depth, 0nat, e, 0nat, 0nat,
{
    match e {
        ExprView::MapIndexAssignment { map, key, value } => match eval_expression(m, st, *map, depth) {
            (Err(x), st1) => (Err(x), st1),
            (Ok(record), st1) => match eval_expression(m, st1, *value, depth) {
                (Err(x), st2) => (Err(x), st2),
                (Ok(v), st2) => store_field(st2, record, key.lexeme, v),
            },
        },
        _ => (Err(misplaced()), st),
    }
}

/// `list[expression] = value`: the list is evaluated first, then the index,
/// then the value.
#[verifier::opaque]
pub open spec fn eval_index_assignment(m: NumberModel, st: MachineView, e: ExprView, depth: nat) -> Evaluated
    decreases depth, 0nat, e, 0nat, 0nat,
{
    match e {
        ExprView::IndexAssignment { list, expression, value } => match eval_expression(m, st, *list, depth) {
            (Err(x), st1) => (Err(x), st1),
            (Ok(collection), st1) => match eval_expression(m, st1, *expression, depth) {
                (Err(x), st2) => (Err(x), st2),
                (Ok(index), st2) => match eval_expression(m, st2, *value, depth) {
                    (Err(x), st3) => (Err(x), st3),
                    (Ok(v), st3) => store_element(st3, collection, index, v),
                },
            },
        },
        _ => (Err(misplaced()), st),
    }
}

/// How a statement ends and the state behind it.
#[verifier::opaque]
pub open spec fn exec_statement(m: NumberModel, st: MachineView, s: StmtView, depth: nat) -> Executed
    decreases depth, 1nat, s, 1nat, 0nat,
{
    match s {
        StmtView::ExpressionStatement { expression } => match eval_expression(m, st, expression, depth) {
            (Err(x), st1) => (Err(x), st1),
            (Ok(_), st1) => (Ok(FlowView::Normal), st1),
        },
        StmtView::PrintStatement { expression } => match eval_expression(m, st, expression, depth) {
            (Err(x), st1) => (Err(x), st1),
            (Ok(v), st1) => match render(m, st1, v, depth) {
                Ok(line) => (Ok(FlowView::Normal), write(st1, line)),
                Err(x) => (Err(x), st1),
            },
        },
        StmtView::VariableDeclaration { identifier, expression } => match expression {
            Some(e) => match eval_expression(m, st, e, depth) {
                (Err(x), st1) => (Err(x), st1),
                (Ok(v), st1) => (Ok(FlowView::Normal), bind(st1, identifier.lexeme, v)),
            },
            None => (Ok(FlowView::Normal), bind(st, identifier.lexeme, ValueView::Nil)),
        },
        StmtView::FunctionDeclaration { identifier, parameters, body } => (
            Ok(FlowView::Normal),
            bind(
                st,
                identifier.lexeme,
                ValueView::Function { arity: parameters.len(), declaration: s, closure: st.scope },
            ),
        ),
        StmtView::Return { value } => match value {
            Some(e) => match eval_expression(m, st, e, depth) {
                (Err(x), st1) => (Err(x), st1),
                (Ok(v), st1) => (Ok(FlowView::Returning(v)), st1),
            },
            None => (Ok(FlowView::Returning(ValueView::Nil)), st),
        },
        StmtView::Block { .. } => exec_block(m, st, s, depth),
        StmtView::IfStatement { .. } => exec_if(m, st, s, depth),
        StmtView::WhileStatement { .. } => exec_while(m, st, s, depth, st.iterations),
        StmtView::With { .. } => exec_with(m, st, s, depth),
        StmtView::For { identifier, iter, body } => match eval_expression(m, st, iter, depth) {
            (Err(x), st1) => (Err(x), st1),
            (Ok(ValueView::Iter(at)), st1) => if 0 <= at < st1.lists.len() {
                for_each(m, st1, s, st1.lists[at], 0, depth, st.scope)
            } else {
                (Err(RuntimeError::InvalidIterator), st1)
            },
            (Ok(_), st1) => (Err(RuntimeError::InvalidIterator), st1),
        },
    }
}

/// The statements from place `i` on, in order. A `return` ends the run: the
/// statements behind it are not executed.
#[verifier::opaque]
pub open spec fn exec_statements(m: NumberModel, st: MachineView, ss: Seq<StmtView>, i: int, depth: nat) -> Executed
    decreases depth, 1nat, ss, 0nat, ss.len() - i,
{
    if 0 <= i < ss.len() {
        match exec_statement(m, st, ss[i], depth) {
            (Err(x), st1) => (Err(x), st1),
            (Ok(FlowView::Returning(v)), st1) => (Ok(FlowView::Returning(v)), st1),
            (Ok(FlowView::Normal), st1) => exec_statements(m, st1, ss, i + 1, depth),
        }
    } else {
        (Ok(FlowView::Normal), st)
    }
}

/// A block runs in a scope of its own. At its end, however it ends, the
/// scope that was current on entry is current again.
#[verifier::opaque]
pub open spec fn exec_block(m: NumberModel, st: MachineView, s: StmtView, depth: nat) -> Executed
    decreases depth, 1nat, s, 0nat, 0nat,
{
    match s {
        StmtView::Block { statements } => match exec_statements(m, enter(st, st.scope), statements, 0, depth) {
            (Err(x), st1) => (Err(x), st1),
            (Ok(flow), st1) => (Ok(flow), leave(st1, st.scope)),
        },
        _ => (Err(misplaced()), st),
    }
}

/// `if`: the condition is a boolean, and the statement ends as the branch
/// taken ends.
#[verifier::opaque]
pub open spec fn exec_if(m: NumberModel, st: MachineView, s: StmtView, depth: nat) -> Executed
    decreases depth, 1nat, s, 0nat, 0nat,
{
    match s {
        StmtView::IfStatement { condition, then_branch, else_branch } => match eval_expression(
            m,
            st,
            condition,
            depth,
        ) {
            (Err(x), st1) => (Err(x), st1),
            (Ok(ValueView::Boolean(c)), st1) => if c {
                exec_statement(m, st1, *then_branch, depth)
            } else {
                match else_branch {
                    Some(other) => exec_statement(m, st1, *other, depth),
                    None => (Ok(FlowView::Normal), st1),
                }
            },
            (Ok(_), st1) => (Err(RuntimeError::TypeMismatch), st1),
        },
        _ => (Err(misplaced()), st),
    }
}

/// `while`: the condition, a boolean, is evaluated before every repetition.
/// A `return` in the body ends the loop. The loop may repeat `remaining`
/// times more.
#[verifier::opaque]
pub open spec fn exec_while(m: NumberModel, st: MachineView, s: StmtView, depth: nat, remaining: nat) -> Executed
    decreases depth, 1nat, s, 0nat, remaining,
{
    match s {
        StmtView::WhileStatement { condition, body } => match eval_expression(m, st, condition, depth) {
            (Err(x), st1) => (Err(x), st1),
            (Ok(ValueView::Boolean(c)), st1) => if !c {
                (Ok(FlowView::Normal), st1)
            } else if remaining == 0 {
                (Err(RuntimeError::IterationsExceeded), st1)
            } else {
                match exec_statement(m, st1, *body, depth) {
                    (Err(x), st2) => (Err(x), st2),
                    (Ok(FlowView::Returning(v)), st2) => (Ok(FlowView::Returning(v)), st2),
                    (Ok(FlowView::Normal), st2) => exec_while(m, st2, s, depth, (remaining - 1) as nat),
                }
            },
            (Ok(_), st1) => (Err(RuntimeError::TypeMismatch), st1),
        },
        _ => (Err(misplaced()), st),
    }
}

/// `with`: the value is evaluated in the current scope; the body runs once
/// in a scope of its own that binds the identifier to it.
#[verifier::opaque]
pub open spec fn exec_with(m: NumberModel, st: MachineView, s: StmtView, depth: nat) -> Executed
    decreases depth, 1nat, s, 0nat, 0nat,
{
    match s {
        StmtView::With { value, identifier, body } => match eval_expression(m, st, value, depth) {
            (Err(x), st1) => (Err(x), st1),
            (Ok(v), st1) => match exec_statement(
                m,
                bind(enter(st1, st1.scope), identifier.lexeme, v),
                *body,
                depth,
            ) {
                (Err(x), st2) => (Err(x), st2),
                (Ok(flow), st2) => (Ok(flow), leave(st2, st.scope)),
            },
        },
        _ => (Err(misplaced()), st),
    }
}

/// `for` runs over an iterator: its body runs once for each element that the
/// iterator has when the loop starts. These are the repetitions for the
/// elements from place `i` on. Each runs in a scope of its own, enclosed by
/// the current one, that binds the identifier to the element; behind each,
/// and at a `return`, the scope `entry` is current.
#[verifier::opaque]
pub open spec fn for_each(
    m: NumberModel,
    st: MachineView,
    s: StmtView,
    elements: Seq<ValueView>,
    i: int,
    depth: nat,
    entry: int,
) -> Executed
    decreases depth, 1nat, s, 0nat, 1nat + elements.len() - i,
{
    match s {
        StmtView::For { identifier, iter, body } => if 0 <= i < elements.len() {
            match exec_statement(m, bind(enter(st, st.scope), identifier.lexeme, elements[i]), *body, depth) {
                (Err(x), st1) => (Err(x), st1),
                (Ok(FlowView::Returning(v)), st1) => (Ok(FlowView::Returning(v)), leave(st1, entry)),
                (Ok(FlowView::Normal), st1) => for_each(m, leave(st1, entry), s, elements, i + 1, depth, entry),
            }
        } else {
            (Ok(FlowView::Normal), st)
        },
        _ => (Err(misplaced()), st),
    }
}

/// The statements of a program from place `i` on. A `return` that reaches
/// the program itself is an error.
pub open spec fn run(m: NumberModel, st: MachineView, ss: Seq<StmtView>, i: int, depth: nat) -> Evaluated
    decreases ss.len() - i,
{
    if 0 <= i < ss.len() {
        match exec_statement(m, st, ss[i], depth) {
            (Err(x), st1) => (Err(x), st1),
            (Ok(FlowView::Returning(_)), st1) => (Err(RuntimeError::ReturnOutsideFunction), st1),
            (Ok(FlowView::Normal), st1) => run(m, st1, ss, i + 1, depth),
        }
    } else {
        (Ok(ValueView::Nil), st)
    }
}

/// The built-in function of each name, in the order of
/// [`built_in_names`](crate::visitors::type_checker::rules::built_in_names).
pub open spec fn built_ins() -> Seq<BuiltIn> {
    seq![
        BuiltIn { arity: Some(0), function: Native::Clock },
        BuiltIn { arity: None, function: Native::Println },
        BuiltIn { arity: Some(0), function: Native::Input },
        BuiltIn { arity: Some(1), function: Native::Iter },
        BuiltIn { arity: Some(1), function: Native::RangeTo },
        BuiltIn { arity: Some(2), function: Native::Range },
        BuiltIn { arity: Some(3), function: Native::RangeSkip },
        BuiltIn { arity: Some(1), function: Native::Len },
        BuiltIn { arity: Some(2), function: Native::Push },
        BuiltIn { arity: Some(1), function: Native::ToNumber },
        BuiltIn { arity: Some(1), function: Native::TypeOf },
    ]
}

/// The scopes with the names from place `i` on bound to their built-in
/// functions in the root.
pub open spec fn declare_built_ins(scopes: Seq<ScopeView<ValueView>>, names: Seq<Seq<char>>, i: int) -> Seq<
    ScopeView<ValueView>,
>
    decreases names.len() - i,
{
    if 0 <= i < names.len() && i < built_ins().len() {
        declare_built_ins(declare(scopes, 0, names[i], ValueView::BuiltIn(built_ins()[i])), names, i + 1)
    } else {
        scopes
    }
}

/// The state that a program starts in: one scope, the root, which binds
/// every built-in name to its function; no list, no record, nothing written.
pub open spec fn initial_state(input: Seq<Seq<char>>, clock: Seq<u64>, iterations: nat) -> MachineView {
    MachineView {
        scopes: declare_built_ins(
            seq![ScopeView::<ValueView> { bindings: Map::empty(), enclosing: None }],
            crate::visitors::type_checker::rules::built_in_names(),
            0,
        ),
        scope: 0,
        lists: Seq::empty(),
        records: Seq::empty(),
        output: Seq::empty(),
        input,
        clock,
        iterations,
    }
}

} // verus!
