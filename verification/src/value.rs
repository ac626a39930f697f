//! The values that the machine computes with.

use crate::comparison::{
    compare_bools, compare_ints, compare_texts, lemma_compare_texts, partial_ordering, reversed,
    to_partial_ordering, Comparison,
};
use core::cmp::Ordering;
use crate::function::{function_display, Function, FunctionModel};
use crate::integer::{decimal, parsed_decimal, Integer};
use crate::natural::Natural;
use crate::stack_value::{cell_value, StackValue};
use crate::text::{compare_strs, join};
use vstd::prelude::*;
use vstd::std_specs::cmp::{PartialEqSpecImpl, PartialOrdSpecImpl};
use vstd::std_specs::convert::FromSpecImpl;

verus! {

/// A value: a boolean, an integer of any size, a text, a list of values or a
/// function.
#[derive(Debug)]
pub enum Value {
    Boolean(bool),
    Integer(Integer),
    String(String),
    Array(Vec<Value>),
    Function(Function),
}

/// What a value is.
pub enum ValueModel {
    Boolean(bool),
    Integer(int),
    String(Seq<char>),
    Array(Seq<ValueModel>),
    Function(FunctionModel),
}

impl View for Value {
    type V = ValueModel;

    open spec fn view(&self) -> ValueModel
        decreases self,
    {
        match self {
            Value::Boolean(b) => ValueModel::Boolean(*b),
            Value::Integer(i) => ValueModel::Integer(i@),
            Value::String(s) => ValueModel::String(s@),
            Value::Array(items) => ValueModel::Array(array_models(*items)),
            Value::Function(f) => ValueModel::Function(f@),
        }
    }
}

/// What the items of an array are.
pub open spec fn array_models(items: Vec<Value>) -> Seq<ValueModel>
    decreases items,
{
    Seq::new(
        items.len() as nat,
        |i: int|
            if 0 <= i < items.len() {
                items[i]@
            } else {
                ValueModel::Boolean(false)
            },
    )
}

/// What the values of a list are.
pub open spec fn value_models(items: Seq<Value>) -> Seq<ValueModel> {
    items.map_values(|v: Value| v@)
}

/// An array is the list of what its items are.
pub proof fn lemma_array_model(items: Vec<Value>)
    ensures
        Value::Array(items)@ == ValueModel::Array(value_models(items@)),
{
    assert(Value::Array(items)@ == ValueModel::Array(array_models(items)));
    assert(array_models(items).len() == items.len());
    assert forall|i: int| 0 <= i < items.len() implies array_models(items)[i] == items[i]@ by {}
    assert(array_models(items) =~= value_models(items@));
}

/// The display forms of a list of values.
pub open spec fn displays(items: Seq<ValueModel>) -> Seq<Seq<char>>
    decreases items,
{
    Seq::new(
        items.len(),
        |i: int|
            if 0 <= i < items.len() {
                display(items[i])
            } else {
                Seq::empty()
            },
    )
}

/// The display form of a value: `true` or `false`; the decimal form of an
/// integer; a text as it is; the items of an array between square brackets,
/// with a comma and a space between each two; a function as
/// [`function_display`] writes it.
pub open spec fn display(v: ValueModel) -> Seq<char>
    decreases v,
{
    match v {
        ValueModel::Boolean(b) => if b {
            "true"@
        } else {
            "false"@
        },
        ValueModel::Integer(i) => decimal(i),
        ValueModel::String(s) => s,
        ValueModel::Array(items) => "["@ + join(displays(items), ", "@) + "]"@,
        ValueModel::Function(f) => function_display(f),
    }
}

/// The boolean that a value is taken for: a number other than zero, a text
/// or an array that is not empty. A function is taken for none.
pub open spec fn truthiness(v: ValueModel) -> Option<bool> {
    match v {
        ValueModel::Boolean(b) => Some(b),
        ValueModel::Integer(i) => Some(i != 0),
        ValueModel::String(s) => Some(s.len() > 0),
        ValueModel::Array(items) => Some(items.len() > 0),
        ValueModel::Function(_) => None,
    }
}

/// The integer that a value is taken for: zero and one for the booleans, the
/// number that a text denotes in base ten. An array or a function is taken
/// for none, and so is a text that denotes no number.
pub open spec fn integer_value(v: ValueModel) -> Option<int> {
    match v {
        ValueModel::Boolean(b) => Some(
            if b {
                1int
            } else {
                0int
            },
        ),
        ValueModel::Integer(i) => Some(i),
        ValueModel::String(s) => parsed_decimal(s),
        ValueModel::Array(_) => None,
        ValueModel::Function(_) => None,
    }
}

/// The lexicographic order of arrays: the first place where the items are
/// not equal decides, also where the two items cannot be compared; without
/// such a place the shorter array is below the longer.
pub open spec fn compare_arrays(a: Seq<ValueModel>, b: Seq<ValueModel>) -> Option<Comparison>
    decreases a, 0nat,
{
    if a.len() == 0 || b.len() == 0 {
        Some(compare_ints(a.len() as int, b.len() as int))
    } else {
        match compare(a[0], b[0]) {
            Some(Comparison::Equal) => compare_arrays(a.drop_first(), b.drop_first()),
            decided => decided,
        }
    }
}

/// The partial order of values: two booleans, two integers, two texts and
/// two arrays can be compared, nothing else.
pub open spec fn compare(a: ValueModel, b: ValueModel) -> Option<Comparison>
    decreases a, 1nat,
{
    match (a, b) {
        (ValueModel::Boolean(x), ValueModel::Boolean(y)) => Some(compare_bools(x, y)),
        (ValueModel::Integer(x), ValueModel::Integer(y)) => Some(compare_ints(x, y)),
        (ValueModel::String(x), ValueModel::String(y)) => Some(compare_texts(x, y)),
        (ValueModel::Array(x), ValueModel::Array(y)) => compare_arrays(x, y),
        _ => None,
    }
}

/// The opposite outcome of a comparison that may have none.
pub open spec fn reversed_outcome(c: Option<Comparison>) -> Option<Comparison> {
    match c {
        Some(c) => Some(reversed(c)),
        None => None,
    }
}

/// Arrays that compare as equal are the same array, and comparing two
/// arrays the other way round gives the opposite outcome.
pub proof fn lemma_compare_arrays(a: Seq<ValueModel>, b: Seq<ValueModel>)
    ensures
        compare_arrays(a, b) == Some(Comparison::Equal) ==> a == b,
        compare_arrays(b, a) == reversed_outcome(compare_arrays(a, b)),
    decreases a, 0nat,
{
    if a.len() == 0 || b.len() == 0 {
        if a.len() == 0 && b.len() == 0 {
            assert(a =~= b);
        }
    } else {
        lemma_compare(a[0], b[0]);
        if compare(a[0], b[0]) == Some(Comparison::Equal) {
            lemma_compare_arrays(a.drop_first(), b.drop_first());
            if a.drop_first() == b.drop_first() {
                assert(a =~= seq![a[0]] + a.drop_first());
                assert(b =~= seq![b[0]] + b.drop_first());
            }
        }
    }
}

/// Values that compare as equal are the same value, and comparing two
/// values the other way round gives the opposite outcome, or none where the
/// first way gave none.
pub proof fn lemma_compare(a: ValueModel, b: ValueModel)
    ensures
        compare(a, b) == Some(Comparison::Equal) ==> a == b,
        compare(b, a) == reversed_outcome(compare(a, b)),
    decreases a, 1nat,
{
    match (a, b) {
        (ValueModel::String(x), ValueModel::String(y)) => {
            lemma_compare_texts(x, y);
        },
        (ValueModel::Array(x), ValueModel::Array(y)) => {
            lemma_compare_arrays(x, y);
        },
        _ => {},
    }
}

impl Clone for Value {
    fn clone(&self) -> (r: Self)
        ensures
            r@ == self@,
        decreases self,
    {
        match self {
            Value::Boolean(b) => Value::Boolean(*b),
            Value::Integer(i) => Value::Integer(i.clone()),
            Value::String(s) => Value::String(s.clone()),
            Value::Array(items) => {
                let mut copy: Vec<Value> = Vec::new();
                let mut i: usize = 0;
                while i < items.len()
                    invariant
                        i <= items.len(),
                        *self == Value::Array(*items),
                        copy.len() == i,
                        forall|j: int| 0 <= j < i ==> copy@[j]@ == items@[j]@,
                    decreases items.len() - i,
                {
                    proof {
                        assert(decreases_to!(*self => self->Array_0));
                    }
                    copy.push(items[i].clone());
                    i += 1;
                }
                proof {
                    assert(value_models(copy@) =~= value_models(items@));
                    lemma_array_model(copy);
                    lemma_array_model(*items);
                }
                Value::Array(copy)
            },
            Value::Function(f) => Value::Function(f.clone()),
        }
    }
}

/// Putting one more part behind a list joins it behind the separator, or
/// alone where the list was empty.
pub proof fn lemma_join_push(parts: Seq<Seq<char>>, part: Seq<char>, separator: Seq<char>)
    ensures
        join(parts.push(part), separator) == if parts.len() == 0 {
            part
        } else {
            join(parts, separator) + separator + part
        },
{
    assert(parts.push(part).drop_last() =~= parts);
}

impl PartialEq for Value {
    /// Whether two values are the same: of the same kind and equal in it.
    fn eq(&self, other: &Self) -> (r: bool) {
        self.same(other)
    }
}

impl PartialEqSpecImpl for Value {
    open spec fn obeys_eq_spec() -> bool {
        true
    }

    open spec fn eq_spec(&self, other: &Self) -> bool {
        self@ == other@
    }
}

impl PartialOrd for Value {
    /// How the value stands to another in the partial order of values.
    fn partial_cmp(&self, other: &Self) -> (r: Option<Ordering>) {
        to_partial_ordering(self.partial_compare(other))
    }
}

impl PartialOrdSpecImpl for Value {
    open spec fn obeys_partial_cmp_spec() -> bool {
        true
    }

    open spec fn partial_cmp_spec(&self, other: &Self) -> Option<Ordering> {
        partial_ordering(compare(self@, other@))
    }
}

impl Value {
    /// Whether two values are the same.
    fn same(&self, other: &Value) -> (r: bool)
        ensures
            r == (self@ == other@),
        decreases self,
    {
        match (self, other) {
            (Value::Boolean(a), Value::Boolean(b)) => *a == *b,
            (Value::Integer(a), Value::Integer(b)) => *a == *b,
            (Value::String(a), Value::String(b)) => *a == *b,
            (Value::Array(a), Value::Array(b)) => {
                proof {
                    lemma_array_model(*a);
                    lemma_array_model(*b);
                    assert(value_models(a@).len() == a.len());
                    assert(value_models(b@).len() == b.len());
                }
                if a.len() != b.len() {
                    return false;
                }
                let mut i: usize = 0;
                while i < a.len()
                    invariant
                        i <= a.len(),
                        a.len() == b.len(),
                        *self == Value::Array(*a),
                        self@ == ValueModel::Array(value_models(a@)),
                        other@ == ValueModel::Array(value_models(b@)),
                        forall|j: int| 0 <= j < i ==> a@[j]@ == b@[j]@,
                    decreases a.len() - i,
                {
                    proof {
                        assert(decreases_to!(*self => self->Array_0));
                    }
                    if !a[i].same(&b[i]) {
                        proof {
                            assert(value_models(a@)[i as int] != value_models(b@)[i as int]);
                        }
                        return false;
                    }
                    i += 1;
                }
                proof {
                    assert(value_models(a@) =~= value_models(b@));
                }
                true
            },
            (Value::Function(a), Value::Function(b)) => *a == *b,
            _ => false,
        }
    }

    /// The display form of the value, as [`display`] describes it.
    pub fn to_string(&self) -> (r: String)
        ensures
            r@ == display(self@),
        decreases self,
    {
        match self {
            Value::Boolean(b) => String::from_str(
                if *b {
                    "true"
                } else {
                    "false"
                },
            ),
            Value::Integer(i) => i.to_decimal(),
            Value::String(s) => s.clone(),
            Value::Array(items) => {
                let ghost models = value_models(items@);
                let mut inner = String::new();
                let mut i: usize = 0;
                while i < items.len()
                    invariant
                        i <= items.len(),
                        *self == Value::Array(*items),
                        models == value_models(items@),
                        inner@ == join(displays(models.take(i as int)), ", "@),
                    decreases items.len() - i,
                {
                    proof {
                        assert(decreases_to!(*self => self->Array_0));
                        lemma_join_push(
                            displays(models.take(i as int)),
                            display(models[i as int]),
                            ", "@,
                        );
                        assert(displays(models.take(i + 1)) =~= displays(
                            models.take(i as int),
                        ).push(display(models[i as int])));
                    }
                    if i > 0 {
                        inner.append(", ");
                    }
                    let item = items[i].to_string();
                    inner.append(item.as_str());
                    i += 1;
                }
                proof {
                    assert(models.take(i as int) =~= models);
                    lemma_array_model(*items);
                }
                let mut out = String::from_str("[");
                out.append(inner.as_str());
                out.append("]");
                out
            },
            Value::Function(f) => f.to_string(),
        }
    }

    /// The boolean that the value is taken for, as [`truthiness`] describes
    /// it.
    pub fn to_bool(&self) -> (r: Option<bool>)
        ensures
            r == truthiness(self@),
    {
        match self {
            Value::Boolean(b) => Some(*b),
            Value::Integer(i) => Some(!i.is_zero()),
            Value::String(s) => Some(!s.as_str().is_empty()),
            Value::Array(items) => {
                proof {
                    lemma_array_model(*items);
                }
                Some(items.len() > 0)
            },
            Value::Function(_) => None,
        }
    }

    /// The integer that the value is taken for, as [`integer_value`]
    /// describes it.
    pub fn to_integer(&self) -> (r: Option<Integer>)
        ensures
            match r {
                Some(i) => integer_value(self@) == Some(i@),
                None => integer_value(self@) is None,
            },
    {
        match self {
            Value::Boolean(b) => Some(Integer::from_bool(*b)),
            Value::Integer(i) => Some(i.clone()),
            Value::String(s) => Integer::parse(s.as_str()),
            Value::Array(_) => None,
            Value::Function(_) => None,
        }
    }

    /// How the value stands to another in the partial order of values, as
    /// [`compare`] describes it; `None` where the two cannot be compared.
    pub fn partial_compare(&self, other: &Value) -> (r: Option<Comparison>)
        ensures
            r == compare(self@, other@),
        decreases self,
    {
        match (self, other) {
            (Value::Boolean(a), Value::Boolean(b)) => Some(Comparison::of_bools(*a, *b)),
            (Value::Integer(a), Value::Integer(b)) => Some(a.compare(b)),
            (Value::String(a), Value::String(b)) => Some(compare_strs(a.as_str(), b.as_str())),
            (Value::Array(a), Value::Array(b)) => {
                let ghost left = value_models(a@);
                let ghost right = value_models(b@);
                proof {
                    lemma_array_model(*a);
                    lemma_array_model(*b);
                    assert(left.skip(0) =~= left);
                    assert(right.skip(0) =~= right);
                }
                let mut i: usize = 0;
                while i < a.len() && i < b.len()
                    invariant
                        i <= a.len(),
                        i <= b.len(),
                        *self == Value::Array(*a),
                        left == value_models(a@),
                        right == value_models(b@),
                        compare(self@, other@) == compare_arrays(left, right),
                        compare_arrays(left, right) == compare_arrays(
                            left.skip(i as int),
                            right.skip(i as int),
                        ),
                    decreases a.len() - i,
                {
                    proof {
                        assert(decreases_to!(*self => self->Array_0));
                        assert(left.skip(i as int)[0] == a@[i as int]@);
                        assert(right.skip(i as int)[0] == b@[i as int]@);
                        assert(left.skip(i as int).drop_first() =~= left.skip(i + 1));
                        assert(right.skip(i as int).drop_first() =~= right.skip(i + 1));
                    }
                    match a[i].partial_compare(&b[i]) {
                        Some(Comparison::Equal) => {},
                        decided => {
                            return decided;
                        },
                    }
                    i += 1;
                }
                Some(Comparison::of_lengths(a.len(), b.len()))
            },
            _ => None,
        }
    }
}

impl From<Integer> for Value {
    fn from(value: Integer) -> (r: Self)
        ensures
            r == Value::Integer(value),
    {
        Value::Integer(value)
    }
}

impl FromSpecImpl<Integer> for Value {
    open spec fn obeys_from_spec() -> bool {
        true
    }

    open spec fn from_spec(value: Integer) -> Self {
        Value::Integer(value)
    }
}

impl From<Natural> for Value {
    /// The integer equal to a natural number.
    fn from(value: Natural) -> (r: Self)
        ensures
            r@ == ValueModel::Integer(value@ as int),
    {
        Value::Integer(Integer::from_natural(&value))
    }
}

impl FromSpecImpl<Natural> for Value {
    open spec fn obeys_from_spec() -> bool {
        false
    }

    open spec fn from_spec(value: Natural) -> Self {
        arbitrary()
    }
}

impl From<bool> for Value {
    fn from(value: bool) -> (r: Self)
        ensures
            r == Value::Boolean(value),
    {
        Value::Boolean(value)
    }
}

impl FromSpecImpl<bool> for Value {
    open spec fn obeys_from_spec() -> bool {
        true
    }

    open spec fn from_spec(value: bool) -> Self {
        Value::Boolean(value)
    }
}

impl From<String> for Value {
    fn from(value: String) -> (r: Self)
        ensures
            r == Value::String(value),
    {
        Value::String(value)
    }
}

impl FromSpecImpl<String> for Value {
    open spec fn obeys_from_spec() -> bool {
        true
    }

    open spec fn from_spec(value: String) -> Self {
        Value::String(value)
    }
}

impl From<&str> for Value {
    /// The string with the characters of a text.
    fn from(value: &str) -> (r: Self)
        ensures
            r@ == ValueModel::String(value@),
    {
        Value::String(String::from_str(value))
    }
}

impl FromSpecImpl<&str> for Value {
    open spec fn obeys_from_spec() -> bool {
        false
    }

    open spec fn from_spec(value: &str) -> Self {
        arbitrary()
    }
}

impl From<Function> for Value {
    fn from(value: Function) -> (r: Self)
        ensures
            r == Value::Function(value),
    {
        Value::Function(value)
    }
}

impl FromSpecImpl<Function> for Value {
    open spec fn obeys_from_spec() -> bool {
        true
    }

    open spec fn from_spec(value: Function) -> Self {
        Value::Function(value)
    }
}

impl From<StackValue> for Value {
    /// The value that a cell holds, whatever its mark.
    fn from(cell: StackValue) -> (r: Self)
        ensures
            r@ == cell_value(cell@),
    {
        match cell {
            StackValue::Value(v) => v,
            StackValue::Argument(v) => v,
            StackValue::Optional(_, v) => v,
        }
    }
}

impl FromSpecImpl<StackValue> for Value {
    open spec fn obeys_from_spec() -> bool {
        true
    }

    open spec fn from_spec(cell: StackValue) -> Self {
        match cell {
            StackValue::Value(v) => v,
            StackValue::Argument(v) => v,
            StackValue::Optional(_, v) => v,
        }
    }
}

} // verus!
