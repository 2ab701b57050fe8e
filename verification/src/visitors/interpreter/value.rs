//! The values that a program computes with.
use vstd::prelude::*;
use vstd::string::StringExecFns;
use crate::parser::statement::StmtView;
use crate::visitors::environment::Duplicate;
use crate::visitors::interpreter::callable::{BuiltIn, Function};
use crate::visitors::interpreter::number;

verus! {

/// A value. Numbers are held as the bits of a 64-bit floating-point number.
/// A list, an iterator or a record is held by its place in the evaluator's
/// store: copies of such a value name one and the same sequence or mapping,
/// so a change made through one copy is seen through every other.
#[derive(Debug)]
pub enum Value<'a> {
    Number(u64),
    Boolean(bool),
    String(String),
    BuiltIn(BuiltIn),
    Function(Function<'a>),
    List(usize),
    Iter(usize),
    Record(usize),
    Nil,
}

/// The mathematical value of a [`Value`].
pub enum ValueView {
    Number(u64),
    Boolean(bool),
    String(Seq<char>),
    BuiltIn(BuiltIn),
    Function { arity: nat, declaration: StmtView, closure: int },
    List(int),
    Iter(int),
    Record(int),
    Nil,
}

impl<'a> View for Value<'a> {
    type V = ValueView;

    open spec fn view(&self) -> ValueView {
        match self {
            Value::Number(bits) => ValueView::Number(*bits),
            Value::Boolean(b) => ValueView::Boolean(*b),
            Value::String(s) => ValueView::String(s@),
            Value::BuiltIn(b) => ValueView::BuiltIn(*b),
            Value::Function(f) => ValueView::Function {
                arity: f.arity as nat,
                declaration: f.declaration@,
                closure: f.closure as int,
            },
            Value::List(place) => ValueView::List(*place as int),
            Value::Iter(place) => ValueView::Iter(*place as int),
            Value::Record(place) => ValueView::Record(*place as int),
            Value::Nil => ValueView::Nil,
        }
    }
}

impl<'a> Duplicate for Value<'a> {
    fn duplicate(&self) -> (copy: Value<'a>) {
        match self {
            Value::Number(bits) => Value::Number(*bits),
            Value::Boolean(b) => Value::Boolean(*b),
            Value::String(s) => Value::String(s.clone()),
            Value::BuiltIn(b) => Value::BuiltIn(*b),
            Value::Function(f) => Value::Function(
                Function { arity: f.arity, declaration: f.declaration, closure: f.closure },
            ),
            Value::List(place) => Value::List(*place),
            Value::Iter(place) => Value::Iter(*place),
            Value::Record(place) => Value::Record(*place),
            Value::Nil => Value::Nil,
        }
    }
}

/// The views of a run of values, in order.
pub open spec fn value_views<'a>(values: Seq<Value<'a>>) -> Seq<ValueView> {
    Seq::new(values.len(), |i: int| values[i]@)
}

/// The views of the entries of a record, in order.
pub open spec fn field_views<'a>(fields: Seq<(String, Value<'a>)>) -> Seq<(Seq<char>, ValueView)> {
    Seq::new(fields.len(), |i: int| (fields[i].0@, fields[i].1@))
}

/// `a == b` in the language: two numbers, two booleans, two strings or two
/// nils may be equal. A value of any other kind is equal to nothing, not
/// even to itself.
pub open spec fn equal(a: ValueView, b: ValueView) -> bool {
    match (a, b) {
        (ValueView::Number(x), ValueView::Number(y)) => number::same(x, y),
        (ValueView::Boolean(x), ValueView::Boolean(y)) => x == y,
        (ValueView::String(x), ValueView::String(y)) => x == y,
        (ValueView::Nil, ValueView::Nil) => true,
        _ => false,
    }
}

/// The name that `type_of` gives to the kind of a value.
pub open spec fn kind_name(value: ValueView) -> Seq<char> {
    match value {
        ValueView::Number(_) => "number"@,
        ValueView::String(_) => "string"@,
        ValueView::Boolean(_) => "boolean"@,
        ValueView::BuiltIn(_) => "builtin function"@,
        ValueView::Function { .. } => "function"@,
        ValueView::List(_) => "list"@,
        ValueView::Iter(_) => "iter"@,
        ValueView::Record(_) => "record"@,
        ValueView::Nil => "nil"@,
    }
}

impl<'a> Value<'a> {
    /// See [`equal`].
    pub fn equals(&self, other: &Value<'a>) -> (result: bool)
        ensures
            result == equal(self@, other@),
    {
        match (self, other) {
            (Value::Number(x), Value::Number(y)) => number::is_same(*x, *y),
            (Value::Boolean(x), Value::Boolean(y)) => *x == *y,
            (Value::String(x), Value::String(y)) => *x == *y,
            (Value::Nil, Value::Nil) => true,
            _ => false,
        }
    }

    /// See [`kind_name`].
    pub fn kind(&self) -> (name: String)
        ensures
            name@ == kind_name(self@),
    {
        match self {
            Value::Number(_) => String::from_str("number"),
            Value::String(_) => String::from_str("string"),
            Value::Boolean(_) => String::from_str("boolean"),
            Value::BuiltIn(_) => String::from_str("builtin function"),
            Value::Function(_) => String::from_str("function"),
            Value::List(_) => String::from_str("list"),
            Value::Iter(_) => String::from_str("iter"),
            Value::Record(_) => String::from_str("record"),
            Value::Nil => String::from_str("nil"),
        }
    }
}

/// Copies of the given values, in order.
pub fn duplicate_values<'a>(values: &Vec<Value<'a>>) -> (copy: Vec<Value<'a>>)
    ensures
        value_views(copy@) == value_views(values@),
{
    let mut copy: Vec<Value<'a>> = Vec::new();
    let mut i: usize = 0;
    while i < values.len()
        invariant
            i <= values@.len(),
            copy@.len() == i,
            forall|k: int| 0 <= k < i ==> (#[trigger] copy@[k])@ == values@[k]@,
        decreases values@.len() - i,
    {
        copy.push(values[i].duplicate());
        i = i + 1;
    }
    proof {
        assert(value_views(copy@) =~= value_views(values@));
    }
    copy
}

/// Why a program stopped.
#[derive(Debug, Clone, Copy, PartialEq, Eq, Structural)]
pub enum RuntimeError {
    /// A name is read or assigned that no scope binds.
    UndefinedVariable,
    /// An operand is of a kind that the operation does not take.
    TypeMismatch,
    /// What is called is no function.
    NotCallable,
    /// A function is called with another number of arguments than it takes.
    ArityMismatch,
    /// An index lies outside the list or the string.
    IndexOutOfRange,
    /// A record has no field of the name.
    InvalidKey,
    /// `for` is given something that is no iterator.
    InvalidIterator,
    /// `return` outside the body of a function.
    ReturnOutsideFunction,
    /// An argument of a built-in function is of the wrong kind.
    InvalidArgument,
    /// The bounds of a range are negative or out of order, or the step is
    /// less than one.
    InvalidRange,
    /// A text that is read as a number is none.
    InvalidNumber,
    /// A whole number is too large to have bits of its own.
    NumberOutOfRange,
    /// A token stands where the grammar allows none of its kind.
    UnexpectedToken,
    /// The program asks for a line of input, and none is left of those that
    /// were handed in.
    InputNeeded,
    /// The program asks for the time, and no reading is left of those that
    /// were handed in.
    ClockNeeded,
    /// Calls, or lists inside lists that are printed, are nested deeper than
    /// the limit given.
    DepthExceeded,
    /// A loop has run more often than the limit given.
    IterationsExceeded,
}

/// How a statement ended.
#[derive(Debug)]
pub enum Flow<'a> {
    /// It ran to its end.
    Normal,
    /// It executed a `return`: the function that is running stops and hands
    /// the value to its caller.
    Returning(Value<'a>),
}

/// The mathematical value of a [`Flow`].
pub enum FlowView {
    Normal,
    Returning(ValueView),
}

impl<'a> View for Flow<'a> {
    type V = FlowView;

    open spec fn view(&self) -> FlowView {
        match self {
            Flow::Normal => FlowView::Normal,
            Flow::Returning(value) => FlowView::Returning(value@),
        }
    }
}

} // verus!
