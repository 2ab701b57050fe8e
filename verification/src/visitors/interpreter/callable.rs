//! What can be called: the functions of a program and the built-in ones.
use vstd::prelude::*;
use vstd::string::{StrSliceExecFns, StringExecFns};
use crate::parser::statement::FunctionDeclaration;
use crate::visitors::environment::Duplicate;
use crate::visitors::interpreter::Interpreter;
use crate::visitors::interpreter::number;
use crate::visitors::interpreter::number::Arithmetic;
use crate::visitors::interpreter::semantics;
use crate::visitors::interpreter::semantics::MachineView;
use crate::visitors::interpreter::value::{
    RuntimeError, Value, ValueView, field_views, value_views,
};

verus! {

/// The built-in functions.
#[derive(Debug, Clone, Copy, PartialEq, Eq, Structural)]
pub enum Native {
    Clock,
    Println,
    Input,
    Iter,
    RangeTo,
    Range,
    RangeSkip,
    Len,
    Push,
    ToNumber,
    TypeOf,
}

/// A built-in function with the number of arguments that it takes; `None`
/// where it takes any number.
#[derive(Debug, Clone, Copy, PartialEq, Eq, Structural)]
pub struct BuiltIn {
    pub arity: Option<usize>,
    pub function: Native,
}

impl BuiltIn {
    /// The built-in function `function`, which takes `arity` arguments.
    pub fn new(arity: Option<usize>, function: Native) -> (built_in: Self)
        ensures
            built_in.arity == arity,
            built_in.function == function,
    {
        BuiltIn { arity, function }
    }
}

/// A function of the program: its declaration, the number of its parameters
/// and the scope that was current where it was declared. A call resolves
/// the names that the body does not bind itself from that scope on outwards.
#[derive(Debug)]
pub struct Function<'a> {
    pub arity: usize,
    pub declaration: &'a FunctionDeclaration,
    pub closure: usize,
}

/// What can be called with arguments: the functions of a program and the
/// built-in ones.
pub trait Callable<'a, A: Fn(Arithmetic, u64, u64) -> u64, P: Fn(&String) -> Option<u64>, F: Fn(u64) -> String> {
    /// What a call gives and the state behind it.
    spec fn called(
        &self,
        m: crate::visitors::interpreter::number::NumberModel,
        st: MachineView,
        arguments: Seq<ValueView>,
        depth: nat,
    ) -> semantics::Evaluated;

    /// Calls this with the given arguments, `depth` being how deep calls may
    /// still nest.
    fn call(&self, interpreter: &mut Interpreter<'a, A, P, F>, arguments: Vec<Value<'a>>, depth: usize) -> (result:
        Result<Value<'a>, RuntimeError>)
        requires
            old(interpreter).wf(),
        ensures
            final(interpreter).evaluated(
                *old(interpreter),
                result,
                self.called(
                    old(interpreter).model(),
                    old(interpreter)@,
                    value_views(arguments@),
                    depth as nat,
                ),
            ),
    ;
}

impl<'a, A: Fn(Arithmetic, u64, u64) -> u64, P: Fn(&String) -> Option<u64>, F: Fn(u64) -> String> Callable<
    'a,
    A,
    P,
    F,
> for Function<'a> {
    open spec fn called(
        &self,
        m: crate::visitors::interpreter::number::NumberModel,
        st: MachineView,
        arguments: Seq<ValueView>,
        depth: nat,
    ) -> semantics::Evaluated {
        semantics::call_declared(
            m,
            st,
            self.arity as nat,
            self.declaration@,
            self.closure as int,
            arguments,
            depth,
        )
    }

    fn call(&self, interpreter: &mut Interpreter<'a, A, P, F>, arguments: Vec<Value<'a>>, depth: usize) -> (result:
        Result<Value<'a>, RuntimeError>)
        decreases 2 * depth,
    {
        if self.arity != arguments.len() {
            return Err(RuntimeError::ArityMismatch);
        }
        if depth == 0 {
            return Err(RuntimeError::DepthExceeded);
        }
        interpreter.call_function(self, arguments, depth - 1)
    }
}

impl<'a, A: Fn(Arithmetic, u64, u64) -> u64, P: Fn(&String) -> Option<u64>, F: Fn(u64) -> String> Callable<
    'a,
    A,
    P,
    F,
> for BuiltIn {
    open spec fn called(
        &self,
        m: crate::visitors::interpreter::number::NumberModel,
        st: MachineView,
        arguments: Seq<ValueView>,
        depth: nat,
    ) -> semantics::Evaluated {
        semantics::call_built_in(m, st, *self, arguments, depth)
    }

    fn call(&self, interpreter: &mut Interpreter<'a, A, P, F>, arguments: Vec<Value<'a>>, depth: usize) -> (result:
        Result<Value<'a>, RuntimeError>)
    {
        match self.arity {
            Some(arity) => {
                if arity != arguments.len() {
                    return Err(RuntimeError::ArityMismatch);
                }
            },
            None => {},
        }
        call_native(interpreter, self.function, arguments, depth)
    }
}

/// The built-in functions, in the order of their names.
pub fn built_ins() -> (functions: Vec<BuiltIn>)
    ensures
        functions@ == semantics::built_ins(),
{
    let mut functions: Vec<BuiltIn> = Vec::new();
    functions.push(BuiltIn::new(Some(0), Native::Clock));
    functions.push(BuiltIn::new(None, Native::Println));
    functions.push(BuiltIn::new(Some(0), Native::Input));
    functions.push(BuiltIn::new(Some(1), Native::Iter));
    functions.push(BuiltIn::new(Some(1), Native::RangeTo));
    functions.push(BuiltIn::new(Some(2), Native::Range));
    functions.push(BuiltIn::new(Some(3), Native::RangeSkip));
    functions.push(BuiltIn::new(Some(1), Native::Len));
    functions.push(BuiltIn::new(Some(2), Native::Push));
    functions.push(BuiltIn::new(Some(1), Native::ToNumber));
    functions.push(BuiltIn::new(Some(1), Native::TypeOf));
    proof {
        assert(functions@ =~= semantics::built_ins());
    }
    functions
}

/// The place of the first field that has the name `key`.
pub fn find_field<'a>(fields: &Vec<(String, Value<'a>)>, key: &String) -> (at: Option<usize>)
    ensures
        match semantics::field_place(field_views(fields@), key@, 0) {
            Some(i) => at is Some && at->Some_0 == i && 0 <= i < fields@.len(),
            None => at is None,
        },
{
    let ghost views = field_views(fields@);
    let mut i: usize = 0;
    while i < fields.len()
        invariant
            i <= fields@.len(),
            views == field_views(fields@),
            semantics::field_place(views, key@, 0) == semantics::field_place(views, key@, i as int),
        decreases fields@.len() - i,
    {
        if fields[i].0 == *key {
            return Some(i);
        }
        i = i + 1;
    }
    None
}

/// Sets the field `key` to `value`: an existing field of the name keeps its
/// place, a new one comes last.
pub fn set_field<'a>(fields: &mut Vec<(String, Value<'a>)>, key: &String, value: Value<'a>)
    ensures
        field_views(final(fields)@) == semantics::with_field(field_views(old(fields)@), key@, value@),
{
    match find_field(fields, key) {
        Some(i) => {
            fields.set(i, (key.clone(), value));
            proof {
                assert(field_views(final(fields)@) =~= field_views(old(fields)@).update(
                    i as int,
                    (key@, value@),
                ));
            }
        },
        None => {
            fields.push((key.clone(), value));
            proof {
                assert(field_views(final(fields)@) =~= field_views(old(fields)@).push((key@, value@)));
            }
        },
    }
}

/// See [`semantics::place`].
pub fn place<'a>(index: &Value<'a>, length: usize) -> (result: Result<usize, RuntimeError>)
    ensures
        match semantics::place(index@, length as int) {
            Ok(i) => result is Ok && result->Ok_0 == i && 0 <= i < length,
            Err(x) => result == Err::<usize, RuntimeError>(x),
        },
{
    match index {
        Value::Number(bits) => {
            let whole = number::truncate(*bits);
            if whole >= 0 && (whole as u64) < (length as u64) {
                Ok(whole as usize)
            } else {
                Err(RuntimeError::IndexOutOfRange)
            }
        },
        _ => Err(RuntimeError::TypeMismatch),
    }
}

/// The text of one digit.
fn digit_text(d: u8) -> (text: &'static str)
    requires
        d < 10,
    ensures
        text@ == seq![semantics::digit(d)],
{
    proof {
        reveal_strlit("0");
        reveal_strlit("1");
        reveal_strlit("2");
        reveal_strlit("3");
        reveal_strlit("4");
        reveal_strlit("5");
        reveal_strlit("6");
        reveal_strlit("7");
        reveal_strlit("8");
        reveal_strlit("9");
    }
    let text = if d == 0 {
        "0"
    } else if d == 1 {
        "1"
    } else if d == 2 {
        "2"
    } else if d == 3 {
        "3"
    } else if d == 4 {
        "4"
    } else if d == 5 {
        "5"
    } else if d == 6 {
        "6"
    } else if d == 7 {
        "7"
    } else if d == 8 {
        "8"
    } else {
        "9"
    };
    proof {
        assert(text@ =~= seq![semantics::digit(d)]);
    }
    text
}

/// See [`semantics::decimal`].
pub fn decimal(byte: u8) -> (text: String)
    ensures
        text@ == semantics::decimal(byte),
{
    let mut text = String::new();
    if byte >= 100 {
        text.append(digit_text(byte / 100));
    }
    if byte >= 10 {
        text.append(digit_text((byte / 10) % 10));
    }
    text.append(digit_text(byte % 10));
    proof {
        assert(text@ =~= semantics::decimal(byte));
    }
    text
}

/// `collection[index]`. See [`semantics::index_value`].
pub fn index_value<'a, A: Fn(Arithmetic, u64, u64) -> u64, P: Fn(&String) -> Option<u64>, F: Fn(u64) -> String>(
    interpreter: &Interpreter<'a, A, P, F>,
    collection: &Value<'a>,
    index: &Value<'a>,
) -> (result: Result<Value<'a>, RuntimeError>)
    ensures
        match semantics::index_value(interpreter@, collection@, index@) {
            Ok(v) => result is Ok && result->Ok_0@ == v,
            Err(x) => result is Err && result->Err_0 == x,
        },
{
    match collection {
        Value::List(at) => match interpreter.list_at(*at) {
            Some(items) => match place(index, items.len()) {
                Ok(i) => Ok(items[i].duplicate()),
                Err(x) => Err(x),
            },
            None => Err(RuntimeError::IndexOutOfRange),
        },
        Value::String(text) => {
            let bytes = text.as_str().as_bytes();
            match place(index, bytes.len()) {
                Ok(i) => Ok(Value::String(decimal(bytes[i]))),
                Err(x) => Err(x),
            }
        },
        _ => Err(RuntimeError::TypeMismatch),
    }
}

/// `map.key`. See [`semantics::field_value`].
pub fn field_value<'a, A: Fn(Arithmetic, u64, u64) -> u64, P: Fn(&String) -> Option<u64>, F: Fn(u64) -> String>(
    interpreter: &Interpreter<'a, A, P, F>,
    map: &Value<'a>,
    key: &String,
) -> (result: Result<Value<'a>, RuntimeError>)
    ensures
        match semantics::field_value(interpreter@, map@, key@) {
            Ok(v) => result is Ok && result->Ok_0@ == v,
            Err(x) => result is Err && result->Err_0 == x,
        },
{
    match map {
        Value::Record(at) => match interpreter.record_at(*at) {
            Some(fields) => match find_field(fields, key) {
                Some(i) => {
                    proof {
                        assert(field_views(fields@)[i as int] == (fields@[i as int].0@, fields@[i as int].1@));
                    }
                    Ok(fields[i].1.duplicate())
                },
                None => Err(RuntimeError::InvalidKey),
            },
            None => Err(RuntimeError::InvalidKey),
        },
        _ => Err(RuntimeError::TypeMismatch),
    }
}

/// `map.key = value`. See [`semantics::store_field`].
pub fn store_field<'a, A: Fn(Arithmetic, u64, u64) -> u64, P: Fn(&String) -> Option<u64>, F: Fn(u64) -> String>(
    interpreter: &mut Interpreter<'a, A, P, F>,
    map: &Value<'a>,
    key: &String,
    value: Value<'a>,
) -> (result: Result<Value<'a>, RuntimeError>)
    requires
        old(interpreter).wf(),
    ensures
        final(interpreter).evaluated(
            *old(interpreter),
            result,
            semantics::store_field(old(interpreter)@, map@, key@, value@),
        ),
{
    match map {
        Value::Record(at) => {
            if *at >= interpreter.records_len() {
                return Err(RuntimeError::InvalidKey);
            }
            let found = match interpreter.record_at(*at) {
                Some(fields) => find_field(fields, key),
                None => None,
            };
            match found {
                Some(i) => {
                    let mut fields = interpreter.take_record(*at);
                    fields.set(i, (key.clone(), value.duplicate()));
                    proof {
                        assert(field_views(fields@) =~= old(interpreter)@.records[*at as int].update(
                            i as int,
                            (key@, value@),
                        ));
                    }
                    interpreter.put_record(*at, fields);
                    proof {
                        assert(final(interpreter)@.records =~= old(interpreter)@.records.update(
                            *at as int,
                            field_views(fields@),
                        ));
                    }
                    Ok(value)
                },
                None => Err(RuntimeError::InvalidKey),
            }
        },
        _ => Err(RuntimeError::TypeMismatch),
    }
}

/// `list[index] = value`. See [`semantics::store_element`].
pub fn store_element<'a, A: Fn(Arithmetic, u64, u64) -> u64, P: Fn(&String) -> Option<u64>, F: Fn(u64) -> String>(
    interpreter: &mut Interpreter<'a, A, P, F>,
    list: &Value<'a>,
    index: &Value<'a>,
    value: Value<'a>,
) -> (result: Result<Value<'a>, RuntimeError>)
    requires
        old(interpreter).wf(),
    ensures
        final(interpreter).evaluated(
            *old(interpreter),
            result,
            semantics::store_element(old(interpreter)@, list@, index@, value@),
        ),
{
    match list {
        Value::List(at) => {
            let length = match interpreter.list_at(*at) {
                Some(items) => items.len(),
                None => {
                    return Err(RuntimeError::IndexOutOfRange);
                },
            };
            match place(index, length) {
                Ok(i) => {
                    let mut items = interpreter.take_list(*at);
                    items.set(i, value.duplicate());
                    proof {
                        assert(value_views(items@) =~= old(interpreter)@.lists[*at as int].update(i as int, value@));
                    }
                    interpreter.put_list(*at, items);
                    proof {
                        assert(final(interpreter)@.lists =~= old(interpreter)@.lists.update(
                            *at as int,
                            value_views(items@),
                        ));
                    }
                    Ok(value)
                },
                Err(x) => Err(x),
            }
        },
        _ => Err(RuntimeError::TypeMismatch),
    }
}

/// The iterator over a new sequence of the given items.
fn new_iterator<'a, A: Fn(Arithmetic, u64, u64) -> u64, P: Fn(&String) -> Option<u64>, F: Fn(u64) -> String>(
    interpreter: &mut Interpreter<'a, A, P, F>,
    items: Vec<Value<'a>>,
) -> (result: Result<Value<'a>, RuntimeError>)
    requires
        old(interpreter).wf(),
    ensures
        final(interpreter).evaluated(
            *old(interpreter),
            result,
            semantics::new_iterator(old(interpreter)@, value_views(items@)),
        ),
{
    let at = interpreter.new_list(items);
    Ok(Value::Iter(at))
}

/// The iterator over the numbers `low`, `low + step`, and so on below `high`.
fn range<'a, A: Fn(Arithmetic, u64, u64) -> u64, P: Fn(&String) -> Option<u64>, F: Fn(u64) -> String>(
    interpreter: &mut Interpreter<'a, A, P, F>,
    low: i64,
    high: i64,
    step: i64,
) -> (result: Result<Value<'a>, RuntimeError>)
    requires
        old(interpreter).wf(),
    ensures
        final(interpreter).evaluated(
            *old(interpreter),
            result,
            semantics::range(old(interpreter)@, low as int, high as int, step as int),
        ),
{
    let mut items: Vec<Value<'a>> = Vec::new();
    proof {
        assert(value_views(items@) =~= Seq::<ValueView>::empty());
    }
    let mut current = low;
    while current < high && current >= 0 && step >= 1
        invariant
            interpreter.wf(),
            *interpreter == *old(interpreter),
            semantics::range_values(low as int, high as int, step as int, Seq::empty())
                == semantics::range_values(current as int, high as int, step as int, value_views(items@)),
        decreases high - current,
    {
        let ghost done = value_views(items@);
        match number::integer(current as u64) {
            None => {
                return Err(RuntimeError::NumberOutOfRange);
            },
            Some(bits) => {
                items.push(Value::Number(bits));
                proof {
                    assert(value_views(items@) =~= done.push(ValueView::Number(bits)));
                }
                if step >= high - current {
                    return new_iterator(interpreter, items);
                }
                current = current + step;
            },
        }
    }
    new_iterator(interpreter, items)
}

/// `clock()`: the next reading of the clock, in milliseconds.
pub fn clock<'a, A: Fn(Arithmetic, u64, u64) -> u64, P: Fn(&String) -> Option<u64>, F: Fn(u64) -> String>(
    interpreter: &mut Interpreter<'a, A, P, F>,
    arguments: &Vec<Value<'a>>,
) -> (result: Result<Value<'a>, RuntimeError>)
    requires
        old(interpreter).wf(),
    ensures
        final(interpreter).evaluated(
            *old(interpreter),
            result,
            semantics::call_native(
                old(interpreter).model(),
                old(interpreter)@,
                Native::Clock,
                value_views(arguments@),
                0,
            ),
        ),
{
    let time = match interpreter.reading(false) {
        Some(time) => time,
        None => {
            return Err(RuntimeError::ClockNeeded);
        },
    };
    match number::integer(time) {
        Some(bits) => {
            interpreter.reading(true);
            Ok(Value::Number(bits))
        },
        None => Err(RuntimeError::NumberOutOfRange),
    }
}

/// `println(...)`: writes the texts of its arguments as one line.
pub fn println<'a, A: Fn(Arithmetic, u64, u64) -> u64, P: Fn(&String) -> Option<u64>, F: Fn(u64) -> String>(
    interpreter: &mut Interpreter<'a, A, P, F>,
    arguments: &Vec<Value<'a>>,
    depth: usize,
) -> (result: Result<Value<'a>, RuntimeError>)
    requires
        old(interpreter).wf(),
    ensures
        final(interpreter).evaluated(
            *old(interpreter),
            result,
            semantics::call_native(
                old(interpreter).model(),
                old(interpreter)@,
                Native::Println,
                value_views(arguments@),
                depth as nat,
            ),
        ),
{
    let ghost views = value_views(arguments@);
    let mut line = String::new();
    let mut i: usize = 0;
    while i < arguments.len()
        invariant
            i <= arguments@.len(),
            views == value_views(arguments@),
            interpreter.wf(),
            *interpreter == *old(interpreter),
            semantics::render_all(interpreter.model(), interpreter@, views, 0, depth as nat, Seq::empty())
                == semantics::render_all(interpreter.model(), interpreter@, views, i as int, depth as nat, line@),
        decreases arguments@.len() - i,
    {
        match interpreter.render(&arguments[i], depth) {
            Ok(text) => {
                line.append(text.as_str());
            },
            Err(e) => {
                return Err(e);
            },
        }
        i = i + 1;
    }
    interpreter.write(line);
    Ok(Value::Nil)
}

/// `input()`: the next line of input.
pub fn input<'a, A: Fn(Arithmetic, u64, u64) -> u64, P: Fn(&String) -> Option<u64>, F: Fn(u64) -> String>(
    interpreter: &mut Interpreter<'a, A, P, F>,
    arguments: &Vec<Value<'a>>,
) -> (result: Result<Value<'a>, RuntimeError>)
    requires
        old(interpreter).wf(),
    ensures
        final(interpreter).evaluated(
            *old(interpreter),
            result,
            semantics::call_native(
                old(interpreter).model(),
                old(interpreter)@,
                Native::Input,
                value_views(arguments@),
                0,
            ),
        ),
{
    match interpreter.read_line() {
        Some(line) => Ok(Value::String(line)),
        None => Err(RuntimeError::InputNeeded),
    }
}

/// The characters of a text, each as a string of its own.
fn characters<'a>(text: &String) -> (items: Vec<Value<'a>>)
    ensures
        value_views(items@) == semantics::characters(text@),
{
    let source = text.as_str();
    let length = source.unicode_len();
    let mut items: Vec<Value<'a>> = Vec::new();
    let mut i: usize = 0;
    while i < length
        invariant
            i <= length,
            length == source@.len(),
            source@ == text@,
            items@.len() == i,
            forall|k: int| 0 <= k < i ==> (#[trigger] items@[k])@ == ValueView::String(seq![text@[k]]),
        decreases length - i,
    {
        let one = source.substring_char(i, i + 1);
        proof {
            assert(one@ =~= seq![text@[i as int]]);
        }
        items.push(Value::String(String::from_str(one)));
        i = i + 1;
    }
    proof {
        assert(value_views(items@) =~= semantics::characters(text@));
    }
    items
}

/// `iter(list)` is the iterator over the list's own sequence; `iter(string)`
/// is the iterator over the characters of the string.
pub fn iter<'a, A: Fn(Arithmetic, u64, u64) -> u64, P: Fn(&String) -> Option<u64>, F: Fn(u64) -> String>(
    interpreter: &mut Interpreter<'a, A, P, F>,
    arguments: &Vec<Value<'a>>,
) -> (result: Result<Value<'a>, RuntimeError>)
    requires
        old(interpreter).wf(),
    ensures
        final(interpreter).evaluated(
            *old(interpreter),
            result,
            semantics::call_native(
                old(interpreter).model(),
                old(interpreter)@,
                Native::Iter,
                value_views(arguments@),
                0,
            ),
        ),
{
    if arguments.len() < 1 {
        return Err(RuntimeError::ArityMismatch);
    }
    match &arguments[0] {
        Value::List(at) => Ok(Value::Iter(*at)),
        Value::String(text) => {
            let items = characters(text);
            new_iterator(interpreter, items)
        },
        _ => Err(RuntimeError::InvalidArgument),
    }
}

/// `range_to(high)`: the iterator over the whole numbers from 0 up to, and
/// without, `high`, which is not negative.
pub fn range_max<'a, A: Fn(Arithmetic, u64, u64) -> u64, P: Fn(&String) -> Option<u64>, F: Fn(u64) -> String>(
    interpreter: &mut Interpreter<'a, A, P, F>,
    arguments: &Vec<Value<'a>>,
) -> (result: Result<Value<'a>, RuntimeError>)
    requires
        old(interpreter).wf(),
    ensures
        final(interpreter).evaluated(
            *old(interpreter),
            result,
            semantics::call_native(
                old(interpreter).model(),
                old(interpreter)@,
                Native::RangeTo,
                value_views(arguments@),
                0,
            ),
        ),
{
    if arguments.len() < 1 {
        return Err(RuntimeError::ArityMismatch);
    }
    match &arguments[0] {
        Value::Number(high) => {
            if number::sign_negative(*high) {
                Err(RuntimeError::InvalidRange)
            } else {
                range(interpreter, 0, number::truncate(*high), 1)
            }
        },
        _ => Err(RuntimeError::InvalidArgument),
    }
}

/// `range(low, high)`: the iterator over the whole numbers from `low` up to,
/// and without, `high`. `low` is not negative and less than `high`.
pub fn range_min_max<'a, A: Fn(Arithmetic, u64, u64) -> u64, P: Fn(&String) -> Option<u64>, F: Fn(u64) -> String>(
    interpreter: &mut Interpreter<'a, A, P, F>,
    arguments: &Vec<Value<'a>>,
) -> (result: Result<Value<'a>, RuntimeError>)
    requires
        old(interpreter).wf(),
    ensures
        final(interpreter).evaluated(
            *old(interpreter),
            result,
            semantics::call_native(
                old(interpreter).model(),
                old(interpreter)@,
                Native::Range,
                value_views(arguments@),
                0,
            ),
        ),
{
    if arguments.len() < 2 {
        return Err(RuntimeError::ArityMismatch);
    }
    match (&arguments[0], &arguments[1]) {
        (Value::Number(low), Value::Number(high)) => {
            if number::sign_negative(*low) || !number::is_less(*low, *high) {
                Err(RuntimeError::InvalidRange)
            } else {
                range(interpreter, number::truncate(*low), number::truncate(*high), 1)
            }
        },
        _ => Err(RuntimeError::InvalidArgument),
    }
}

/// `range_skip(low, high, step)`: the iterator over `low`, `low + step`, and
/// so on below `high`. `low` is not negative and less than `high`, and
/// `step` is at least one.
pub fn range_min_max_skip<
    'a,
    A: Fn(Arithmetic, u64, u64) -> u64,
    P: Fn(&String) -> Option<u64>,
    F: Fn(u64) -> String,
>(interpreter: &mut Interpreter<'a, A, P, F>, arguments: &Vec<Value<'a>>) -> (result: Result<
    Value<'a>,
    RuntimeError,
>)
    requires
        old(interpreter).wf(),
    ensures
        final(interpreter).evaluated(
            *old(interpreter),
            result,
            semantics::call_native(
                old(interpreter).model(),
                old(interpreter)@,
                Native::RangeSkip,
                value_views(arguments@),
                0,
            ),
        ),
{
    if arguments.len() < 3 {
        return Err(RuntimeError::ArityMismatch);
    }
    match (&arguments[0], &arguments[1], &arguments[2]) {
        (Value::Number(low), Value::Number(high), Value::Number(step)) => {
            if number::sign_negative(*low) || !number::is_less(*low, *high) || number::truncate(*step) < 1 {
                Err(RuntimeError::InvalidRange)
            } else {
                range(interpreter, number::truncate(*low), number::truncate(*high), number::truncate(*step))
            }
        },
        _ => Err(RuntimeError::InvalidArgument),
    }
}

/// `len(list)` is the number of elements of the list; `len(string)` is the
/// number of bytes of the string.
pub fn len<'a, A: Fn(Arithmetic, u64, u64) -> u64, P: Fn(&String) -> Option<u64>, F: Fn(u64) -> String>(
    interpreter: &mut Interpreter<'a, A, P, F>,
    arguments: &Vec<Value<'a>>,
) -> (result: Result<Value<'a>, RuntimeError>)
    requires
        old(interpreter).wf(),
    ensures
        final(interpreter).evaluated(
            *old(interpreter),
            result,
            semantics::call_native(
                old(interpreter).model(),
                old(interpreter)@,
                Native::Len,
                value_views(arguments@),
                0,
            ),
        ),
{
    if arguments.len() < 1 {
        return Err(RuntimeError::ArityMismatch);
    }
    match &arguments[0] {
        Value::List(at) => match interpreter.list_at(*at) {
            Some(items) => match number::integer(items.len() as u64) {
                Some(bits) => Ok(Value::Number(bits)),
                None => Err(RuntimeError::NumberOutOfRange),
            },
            None => Err(RuntimeError::InvalidArgument),
        },
        Value::String(text) => match number::integer(text.as_str().len() as u64) {
            Some(bits) => Ok(Value::Number(bits)),
            None => Err(RuntimeError::NumberOutOfRange),
        },
        _ => Err(RuntimeError::InvalidArgument),
    }
}

/// `push(list, value)` appends the value to the list's own sequence, so that
/// every holder of the list sees it, and gives the list back.
pub fn push<'a, A: Fn(Arithmetic, u64, u64) -> u64, P: Fn(&String) -> Option<u64>, F: Fn(u64) -> String>(
    interpreter: &mut Interpreter<'a, A, P, F>,
    arguments: &Vec<Value<'a>>,
) -> (result: Result<Value<'a>, RuntimeError>)
    requires
        old(interpreter).wf(),
    ensures
        final(interpreter).evaluated(
            *old(interpreter),
            result,
            semantics::call_native(
                old(interpreter).model(),
                old(interpreter)@,
                Native::Push,
                value_views(arguments@),
                0,
            ),
        ),
{
    if arguments.len() < 2 {
        return Err(RuntimeError::ArityMismatch);
    }
    match &arguments[0] {
        Value::List(at) => {
            if *at >= interpreter.lists_len() {
                return Err(RuntimeError::InvalidArgument);
            }
            let mut items = interpreter.take_list(*at);
            items.push(arguments[1].duplicate());
            proof {
                assert(value_views(items@) =~= old(interpreter)@.lists[*at as int].push(arguments@[1]@));
            }
            interpreter.put_list(*at, items);
            proof {
                assert(final(interpreter)@.lists =~= old(interpreter)@.lists.update(
                    *at as int,
                    value_views(items@),
                ));
            }
            Ok(Value::List(*at))
        },
        _ => Err(RuntimeError::InvalidArgument),
    }
}

/// `to_number(string)`: the number that the string stands for.
pub fn to_number<'a, A: Fn(Arithmetic, u64, u64) -> u64, P: Fn(&String) -> Option<u64>, F: Fn(u64) -> String>(
    interpreter: &mut Interpreter<'a, A, P, F>,
    arguments: &Vec<Value<'a>>,
) -> (result: Result<Value<'a>, RuntimeError>)
    requires
        old(interpreter).wf(),
    ensures
        final(interpreter).evaluated(
            *old(interpreter),
            result,
            semantics::call_native(
                old(interpreter).model(),
                old(interpreter)@,
                Native::ToNumber,
                value_views(arguments@),
                0,
            ),
        ),
{
    if arguments.len() < 1 {
        return Err(RuntimeError::ArityMismatch);
    }
    match &arguments[0] {
        Value::String(text) => match interpreter.parse_number(text) {
            Some(bits) => Ok(Value::Number(bits)),
            None => Err(RuntimeError::InvalidNumber),
        },
        _ => Err(RuntimeError::InvalidArgument),
    }
}

/// `type_of(value)`: the name of the kind of the value.
pub fn type_of<'a, A: Fn(Arithmetic, u64, u64) -> u64, P: Fn(&String) -> Option<u64>, F: Fn(u64) -> String>(
    interpreter: &mut Interpreter<'a, A, P, F>,
    arguments: &Vec<Value<'a>>,
) -> (result: Result<Value<'a>, RuntimeError>)
    requires
        old(interpreter).wf(),
    ensures
        final(interpreter).evaluated(
            *old(interpreter),
            result,
            semantics::call_native(
                old(interpreter).model(),
                old(interpreter)@,
                Native::TypeOf,
                value_views(arguments@),
                0,
            ),
        ),
{
    if arguments.len() < 1 {
        return Err(RuntimeError::ArityMismatch);
    }
    proof {
        assert(value_views(arguments@)[0] == arguments@[0]@);
    }
    Ok(Value::String(arguments[0].kind()))
}

/// Calls a built-in function. See [`semantics::call_native`].
pub fn call_native<'a, A: Fn(Arithmetic, u64, u64) -> u64, P: Fn(&String) -> Option<u64>, F: Fn(u64) -> String>(
    interpreter: &mut Interpreter<'a, A, P, F>,
    native: Native,
    arguments: Vec<Value<'a>>,
    depth: usize,
) -> (result: Result<Value<'a>, RuntimeError>)
    requires
        old(interpreter).wf(),
    ensures
        final(interpreter).evaluated(
            *old(interpreter),
            result,
            semantics::call_native(
                old(interpreter).model(),
                old(interpreter)@,
                native,
                value_views(arguments@),
                depth as nat,
            ),
        ),
{
    match native {
        Native::Clock => clock(interpreter, &arguments),
        Native::Println => println(interpreter, &arguments, depth),
        Native::Input => input(interpreter, &arguments),
        Native::Iter => iter(interpreter, &arguments),
        Native::RangeTo => range_max(interpreter, &arguments),
        Native::Range => range_min_max(interpreter, &arguments),
        Native::RangeSkip => range_min_max_skip(interpreter, &arguments),
        Native::Len => len(interpreter, &arguments),
        Native::Push => push(interpreter, &arguments),
        Native::ToNumber => to_number(interpreter, &arguments),
        Native::TypeOf => type_of(interpreter, &arguments),
    }
}

} // verus!
