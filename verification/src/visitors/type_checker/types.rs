use vstd::prelude::*;
use crate::visitors::environment::Duplicate;

verus! {

/// What the checker knows of a value before the program runs. `Unknown` is
/// the type of everything that flows through a function: it goes with every
/// operation.
#[derive(Debug, Clone, Copy, PartialEq, Eq, Structural)]
pub enum Type {
    Number,
    Boolean,
    String,
    Function,
    Unknown,
    Nil,
    List,
    Record,
}

impl View for Type {
    type V = Type;

    open spec fn view(&self) -> Type {
        *self
    }
}

impl Duplicate for Type {
    fn duplicate(&self) -> (copy: Type) {
        *self
    }
}

} // verus!
