//! The cells of the evaluation stack.

use crate::comparison::{partial_ordering, to_partial_ordering, Comparison};
use core::cmp::Ordering;
use crate::integer::Integer;
use crate::natural::Natural;
use crate::value::{compare, Value, ValueModel};
use vstd::prelude::*;
use vstd::std_specs::cmp::{PartialEqSpecImpl, PartialOrdSpecImpl};
use vstd::std_specs::convert::FromSpecImpl;

verus! {

/// A cell of the stack: a plain value, a value marked as a positional
/// argument of the next call, or a value marked as an optional argument with
/// the key under which the call finds it.
#[derive(Debug)]
pub enum StackValue {
    Value(Value),
    Argument(Value),
    Optional(Natural, Value),
}

/// What a cell of the stack is.
pub enum StackValueModel {
    Value(ValueModel),
    Argument(ValueModel),
    Optional(nat, ValueModel),
}

impl View for StackValue {
    type V = StackValueModel;

    open spec fn view(&self) -> StackValueModel {
        match self {
            StackValue::Value(v) => StackValueModel::Value(v@),
            StackValue::Argument(v) => StackValueModel::Argument(v@),
            StackValue::Optional(k, v) => StackValueModel::Optional(k@, v@),
        }
    }
}

/// What the cells of a stack are, the bottom first.
pub open spec fn stack_models(cells: Seq<StackValue>) -> Seq<StackValueModel> {
    cells.map_values(|c: StackValue| c@)
}

/// The value that a cell holds, whatever its mark.
pub open spec fn cell_value(c: StackValueModel) -> ValueModel {
    match c {
        StackValueModel::Value(v) => v,
        StackValueModel::Argument(v) => v,
        StackValueModel::Optional(_, v) => v,
    }
}

/// The value of a cell that is plain or marked as an argument; a cell marked
/// as optional has none.
pub open spec fn plain_value(c: StackValueModel) -> Option<ValueModel> {
    match c {
        StackValueModel::Value(v) => Some(v),
        StackValueModel::Argument(v) => Some(v),
        StackValueModel::Optional(_, _) => None,
    }
}

/// The partial order of cells: two cells with the same mark stand as their
/// values do, and the keys of optional cells play no part; cells with
/// different marks cannot be compared.
pub open spec fn compare_cells(a: StackValueModel, b: StackValueModel) -> Option<Comparison> {
    match (a, b) {
        (StackValueModel::Value(x), StackValueModel::Value(y)) => compare(x, y),
        (StackValueModel::Argument(x), StackValueModel::Argument(y)) => compare(x, y),
        (StackValueModel::Optional(_, x), StackValueModel::Optional(_, y)) => compare(x, y),
        _ => None,
    }
}

impl Clone for StackValue {
    fn clone(&self) -> (r: Self)
        ensures
            r@ == self@,
    {
        match self {
            StackValue::Value(v) => StackValue::Value(v.clone()),
            StackValue::Argument(v) => StackValue::Argument(v.clone()),
            StackValue::Optional(k, v) => StackValue::Optional(k.clone(), v.clone()),
        }
    }
}

impl PartialEq for StackValue {
    /// Whether two cells have the same mark, the same value and, where they
    /// are optional arguments, the same key.
    fn eq(&self, other: &Self) -> (r: bool) {
        match (self, other) {
            (StackValue::Value(a), StackValue::Value(b)) => *a == *b,
            (StackValue::Argument(a), StackValue::Argument(b)) => *a == *b,
            (StackValue::Optional(j, a), StackValue::Optional(k, b)) => *j == *k && *a == *b,
            _ => false,
        }
    }
}

impl PartialEqSpecImpl for StackValue {
    open spec fn obeys_eq_spec() -> bool {
        true
    }

    open spec fn eq_spec(&self, other: &Self) -> bool {
        self@ == other@
    }
}

impl PartialOrd for StackValue {
    /// How the cell stands to another in the partial order of cells.
    fn partial_cmp(&self, other: &Self) -> (r: Option<Ordering>) {
        to_partial_ordering(self.partial_compare(other))
    }
}

impl PartialOrdSpecImpl for StackValue {
    open spec fn obeys_partial_cmp_spec() -> bool {
        true
    }

    open spec fn partial_cmp_spec(&self, other: &Self) -> Option<Ordering> {
        partial_ordering(compare_cells(self@, other@))
    }
}

impl StackValue {
    /// The value that the cell holds, whatever its mark.
    pub fn into_value(self) -> (r: Value)
        ensures
            r@ == cell_value(self@),
    {
        match self {
            StackValue::Value(v) => v,
            StackValue::Argument(v) => v,
            StackValue::Optional(_, v) => v,
        }
    }

    /// The value of a cell that is plain or marked as an argument, or `None`
    /// for a cell marked as optional.
    pub fn into_plain(self) -> (r: Option<Value>)
        ensures
            match r {
                Some(v) => plain_value(self@) == Some(v@),
                None => plain_value(self@) is None,
            },
    {
        match self {
            StackValue::Value(v) => Some(v),
            StackValue::Argument(v) => Some(v),
            StackValue::Optional(_, _) => None,
        }
    }

    /// How the cell stands to another in the partial order of cells, as
    /// [`compare_cells`] describes it.
    pub fn partial_compare(&self, other: &StackValue) -> (r: Option<Comparison>)
        ensures
            r == compare_cells(self@, other@),
    {
        match (self, other) {
            (StackValue::Value(a), StackValue::Value(b)) => a.partial_compare(b),
            (StackValue::Argument(a), StackValue::Argument(b)) => a.partial_compare(b),
            (StackValue::Optional(_, a), StackValue::Optional(_, b)) => a.partial_compare(b),
            _ => None,
        }
    }
}

impl From<Value> for StackValue {
    /// A plain cell with a value.
    fn from(value: Value) -> (r: Self)
        ensures
            r == StackValue::Value(value),
    {
        StackValue::Value(value)
    }
}

impl FromSpecImpl<Value> for StackValue {
    open spec fn obeys_from_spec() -> bool {
        true
    }

    open spec fn from_spec(value: Value) -> Self {
        StackValue::Value(value)
    }
}

impl From<Integer> for StackValue {
    /// A plain cell with an integer.
    fn from(value: Integer) -> (r: Self)
        ensures
            r == StackValue::Value(Value::Integer(value)),
    {
        StackValue::Value(Value::Integer(value))
    }
}

impl FromSpecImpl<Integer> for StackValue {
    open spec fn obeys_from_spec() -> bool {
        true
    }

    open spec fn from_spec(value: Integer) -> Self {
        StackValue::Value(Value::Integer(value))
    }
}

impl From<Natural> for StackValue {
    /// A plain cell with the integer equal to a natural number.
    fn from(value: Natural) -> (r: Self)
        ensures
            r@ == StackValueModel::Value(ValueModel::Integer(value@ as int)),
    {
        StackValue::Value(Value::Integer(Integer::from_natural(&value)))
    }
}

impl FromSpecImpl<Natural> for StackValue {
    open spec fn obeys_from_spec() -> bool {
        false
    }

    open spec fn from_spec(value: Natural) -> Self {
        arbitrary()
    }
}

impl From<bool> for StackValue {
    /// A plain cell with a boolean.
    fn from(value: bool) -> (r: Self)
        ensures
            r == StackValue::Value(Value::Boolean(value)),
    {
        StackValue::Value(Value::Boolean(value))
    }
}

impl FromSpecImpl<bool> for StackValue {
    open spec fn obeys_from_spec() -> bool {
        true
    }

    open spec fn from_spec(value: bool) -> Self {
        StackValue::Value(Value::Boolean(value))
    }
}

impl From<String> for StackValue {
    /// A plain cell with a string.
    fn from(value: String) -> (r: Self)
        ensures
            r == StackValue::Value(Value::String(value)),
    {
        StackValue::Value(Value::String(value))
    }
}

impl FromSpecImpl<String> for StackValue {
    open spec fn obeys_from_spec() -> bool {
        true
    }

    open spec fn from_spec(value: String) -> Self {
        StackValue::Value(Value::String(value))
    }
}

impl From<char> for StackValue {
    /// A plain cell with the code point of a character, as an integer.
    fn from(value: char) -> (r: Self)
        ensures
            r@ == StackValueModel::Value(ValueModel::Integer(value as u32 as int)),
    {
        StackValue::Value(Value::Integer(Integer::from_u64(value as u32 as u64)))
    }
}

impl FromSpecImpl<char> for StackValue {
    open spec fn obeys_from_spec() -> bool {
        false
    }

    open spec fn from_spec(value: char) -> Self {
        arbitrary()
    }
}

} // verus!
