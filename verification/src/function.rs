//! Functions as values, and the built-in functions.

use crate::error::{Error, FunctionCallError, RuntimeError};
use crate::instruction::Instruction;
use crate::integer::{decimal, Integer};
use crate::memory::Table;
use crate::natural::Natural;
use crate::program::program_model;
use crate::text::{byte_char, char_byte, join, pop_char, push_char, trim, trimmed};
use crate::value::{
    display, displays, integer_value, lemma_array_model, lemma_join_push, truthiness,
    value_models, Value, ValueModel,
};
use std::collections::VecDeque;
use vstd::prelude::*;
use vstd::std_specs::cmp::PartialEqSpecImpl;
use vstd::utf8::encode_utf8;

verus! {

/// Which built-in function a function value stands for, if any.
#[derive(Debug, Clone, Copy, PartialEq, Eq, Structural)]
pub enum BuiltInFunction {
    /// None: the function is defined by the program.
    UserDefined,
    /// Writes its arguments.
    Print,
    /// Writes its arguments and a line end.
    PrintLn,
    /// Reads one line.
    ReadLn,
    /// Turns its argument into a boolean.
    ToBool,
    /// Turns its argument into its display form.
    ToStr,
    /// Turns its argument into an integer.
    ToInt,
    /// Takes the white space off both ends of a string.
    Trim,
    /// The length of a string or an array.
    Len,
    /// Appends to a string or an array.
    Push,
    /// Takes the last element off a string or an array.
    Pop,
}

impl Default for BuiltInFunction {
    fn default() -> (r: Self)
        ensures
            r == BuiltInFunction::UserDefined,
    {
        BuiltInFunction::UserDefined
    }
}

/// A callable value.
#[derive(Debug)]
pub struct Function {
    varargs: bool,
    arity: usize,
    built_in: BuiltInFunction,
    instructions: Vec<Instruction>,
}

/// What a function value holds.
pub struct FunctionModel {
    /// Whether more arguments than `arity` are taken.
    pub varargs: bool,
    /// The least number of positional arguments.
    pub arity: usize,
    /// The built-in function that it stands for.
    pub built_in: BuiltInFunction,
    /// The body of a function that the program defines.
    pub instructions: Seq<Seq<bool>>,
}

/// The display form of a function:
/// `<function varargs arity=2 built-in>` and the like.
pub open spec fn function_display(f: FunctionModel) -> Seq<char> {
    "<function "@ + (if f.varargs {
        "varargs"@
    } else {
        "constant"@
    }) + " arity="@ + decimal(f.arity as int) + " "@ + (if f.built_in
        == BuiltInFunction::UserDefined {
        "user-defined"@
    } else {
        "built-in"@
    }) + ">"@
}

impl View for Function {
    type V = FunctionModel;

    closed spec fn view(&self) -> FunctionModel {
        FunctionModel {
            varargs: self.varargs,
            arity: self.arity,
            built_in: self.built_in,
            instructions: program_model(self.instructions@),
        }
    }
}

impl Clone for Function {
    fn clone(&self) -> (r: Self)
        ensures
            r@ == self@,
    {
        let mut instructions: Vec<Instruction> = Vec::new();
        let mut i: usize = 0;
        while i < self.instructions.len()
            invariant
                i <= self.instructions.len(),
                instructions.len() == i,
                forall|j: int| 0 <= j < i ==> instructions@[j]@ == self.instructions@[j]@,
            decreases self.instructions.len() - i,
        {
            instructions.push(self.instructions[i].clone());
            i += 1;
        }
        proof {
            assert(program_model(instructions@) =~= program_model(self.instructions@));
        }
        Function {
            varargs: self.varargs,
            arity: self.arity,
            built_in: self.built_in,
            instructions,
        }
    }
}

impl Default for Function {
    /// A function that the program defines, without arguments and without a
    /// body.
    fn default() -> (r: Self)
        ensures
            r@ == (FunctionModel {
                varargs: false,
                arity: 0,
                built_in: BuiltInFunction::UserDefined,
                instructions: Seq::empty(),
            }),
    {
        Function::new_built_in(false, 0, BuiltInFunction::UserDefined)
    }
}

impl PartialEq for Function {
    /// Whether two functions are the same in every part.
    fn eq(&self, other: &Self) -> (r: bool) {
        if self.varargs != other.varargs || self.arity != other.arity || !(self.built_in
            == other.built_in) || self.instructions.len() != other.instructions.len() {
            proof {
                assert(program_model(self.instructions@).len() == self.instructions.len());
                assert(program_model(other.instructions@).len() == other.instructions.len());
            }
            return false;
        }
        let mut i: usize = 0;
        while i < self.instructions.len()
            invariant
                i <= self.instructions.len(),
                self.instructions.len() == other.instructions.len(),
                forall|j: int| 0 <= j < i ==> self.instructions@[j]@ == other.instructions@[j]@,
            decreases self.instructions.len() - i,
        {
            if !(self.instructions[i] == other.instructions[i]) {
                proof {
                    assert(program_model(self.instructions@)[i as int]
                        != program_model(other.instructions@)[i as int]);
                }
                return false;
            }
            i += 1;
        }
        proof {
            assert(program_model(self.instructions@) =~= program_model(other.instructions@));
        }
        true
    }
}

impl PartialEqSpecImpl for Function {
    open spec fn obeys_eq_spec() -> bool {
        true
    }

    open spec fn eq_spec(&self, other: &Self) -> bool {
        self@ == other@
    }
}

impl Function {
    /// A function that the program defines. Its body is kept with it; a call
    /// of the function does not run the body and returns nothing.
    pub fn new(varargs: bool, arity: usize, instructions: Vec<Instruction>) -> (r: Function)
        ensures
            r@ == (FunctionModel {
                varargs,
                arity,
                built_in: BuiltInFunction::UserDefined,
                instructions: program_model(instructions@),
            }),
    {
        Function { varargs, arity, built_in: BuiltInFunction::UserDefined, instructions }
    }

    /// A function value that stands for a built-in function.
    pub fn new_built_in(varargs: bool, arity: usize, built_in: BuiltInFunction) -> (r: Function)
        ensures
            r@ == (FunctionModel { varargs, arity, built_in, instructions: Seq::empty() }),
    {
        let instructions: Vec<Instruction> = Vec::new();
        proof {
            assert(program_model(instructions@) =~= Seq::empty());
        }
        Function { varargs, arity, built_in, instructions }
    }

    /// Whether more arguments than the arity are taken.
    pub fn varargs(&self) -> (r: bool)
        ensures
            r == self@.varargs,
    {
        self.varargs
    }

    /// The least number of positional arguments.
    pub fn arity(&self) -> (r: usize)
        ensures
            r == self@.arity,
    {
        self.arity
    }

    /// The built-in function that the value stands for.
    pub fn built_in(&self) -> (r: BuiltInFunction)
        ensures
            r == self@.built_in,
    {
        self.built_in
    }

    /// The display form of the function.
    pub fn to_string(&self) -> (r: String)
        ensures
            r@ == function_display(self@),
    {
        let mut out = String::from_str("<function ");
        out.append(
            if self.varargs {
                "varargs"
            } else {
                "constant"
            },
        );
        out.append(" arity=");
        out.append(Integer::from_u64(self.arity as u64).to_decimal().as_str());
        out.append(" ");
        out.append(
            match self.built_in {
                BuiltInFunction::UserDefined => "user-defined",
                _ => "built-in",
            },
        );
        out.append(">");
        out
    }
}

/// What a call comes to.
#[derive(Debug)]
pub enum CallOutcome {
    /// The call is over, and may have returned a value.
    Return(Option<Value>),
    /// The text is to be written to the standard output; the call returns
    /// nothing.
    Print(String),
    /// A line is to be read from the standard input; the call returns it as
    /// a string.
    ReadLine,
}

/// What a call comes to.
pub enum CallModel {
    Return(Option<ValueModel>),
    Print(Seq<char>),
    ReadLine,
}

impl View for CallOutcome {
    type V = CallModel;

    open spec fn view(&self) -> CallModel {
        match self {
            CallOutcome::Return(Some(v)) => CallModel::Return(Some(v@)),
            CallOutcome::Return(None) => CallModel::Return(None),
            CallOutcome::Print(text) => CallModel::Print(text@),
            CallOutcome::ReadLine => CallModel::ReadLine,
        }
    }
}

/// Whether a function takes a number of positional arguments: at least its
/// arity, and no more unless it takes any number.
pub open spec fn accepts(f: FunctionModel, count: nat) -> bool {
    count >= f.arity && (count == f.arity || f.varargs)
}

/// The number of arguments that a built-in function works on.
pub open spec fn operands(which: BuiltInFunction) -> nat {
    match which {
        BuiltInFunction::UserDefined => 0,
        BuiltInFunction::Print => 0,
        BuiltInFunction::PrintLn => 0,
        BuiltInFunction::ReadLn => 0,
        BuiltInFunction::Push => 2,
        _ => 1,
    }
}

/// What stands between two printed arguments: the optional argument 0 where
/// it is a string, else one space.
pub open spec fn separator(optionals: Map<nat, ValueModel>) -> Seq<char> {
    if optionals.contains_key(0) && optionals[0] is String {
        optionals[0]->String_0
    } else {
        " "@
    }
}

/// What `Print` writes: the display forms of the arguments with the
/// separator between them.
pub open spec fn printed(args: Seq<ValueModel>, optionals: Map<nat, ValueModel>) -> Seq<char> {
    join(displays(args), separator(optionals))
}

/// A failed call for an argument that the function cannot work on.
pub open spec fn invalid_argument() -> Error {
    Error::Call(FunctionCallError::InvalidArgument)
}

/// What `Len` returns: the number of bytes of a string in UTF-8, or the
/// number of items of an array.
pub open spec fn len_model(v: ValueModel) -> Result<ValueModel, Error> {
    match v {
        ValueModel::String(s) => Ok(ValueModel::Integer(encode_utf8(s).len() as int)),
        ValueModel::Array(items) => Ok(ValueModel::Integer(items.len() as int)),
        _ => Err(invalid_argument()),
    }
}

/// What `Push` returns: an array with one more item; a string with another
/// string behind it, or with the character whose code point is an integer
/// from 0 to 255.
pub open spec fn push_model(container: ValueModel, element: ValueModel) -> Result<
    ValueModel,
    Error,
> {
    match container {
        ValueModel::Array(items) => Ok(ValueModel::Array(items.push(element))),
        ValueModel::String(s) => match element {
            ValueModel::String(t) => Ok(ValueModel::String(s + t)),
            ValueModel::Integer(i) => if 0 <= i <= 255 {
                Ok(ValueModel::String(s.push(byte_char(i as u8))))
            } else {
                Err(Error::Runtime(RuntimeError::InvalidInstruction))
            },
            _ => Err(invalid_argument()),
        },
        _ => Err(invalid_argument()),
    }
}

/// What `Pop` returns: an array of two items, what was last and what is
/// left. The last item of an array is itself; the last character of a string
/// is the lowest eight bits of its code point, as an integer.
pub open spec fn pop_model(container: ValueModel) -> Result<ValueModel, Error> {
    match container {
        ValueModel::Array(items) => if items.len() > 0 {
            Ok(ValueModel::Array(seq![items.last(), ValueModel::Array(items.drop_last())]))
        } else {
            Err(invalid_argument())
        },
        ValueModel::String(s) => if s.len() > 0 {
            Ok(
                ValueModel::Array(
                    seq![
                        ValueModel::Integer(char_byte(s.last()) as int),
                        ValueModel::String(s.drop_last()),
                    ],
                ),
            )
        } else {
            Err(invalid_argument())
        },
        _ => Err(invalid_argument()),
    }
}

/// What a built-in function that works on values returns.
pub open spec fn returned(which: BuiltInFunction, args: Seq<ValueModel>) -> Result<
    ValueModel,
    Error,
>
    recommends
        args.len() >= operands(which),
{
    match which {
        BuiltInFunction::ToBool => match truthiness(args[0]) {
            Some(b) => Ok(ValueModel::Boolean(b)),
            None => Err(invalid_argument()),
        },
        BuiltInFunction::ToStr => Ok(ValueModel::String(display(args[0]))),
        BuiltInFunction::ToInt => match integer_value(args[0]) {
            Some(i) => Ok(ValueModel::Integer(i)),
            None => Err(invalid_argument()),
        },
        BuiltInFunction::Trim => match args[0] {
            ValueModel::String(s) => Ok(ValueModel::String(trimmed(s))),
            _ => Err(invalid_argument()),
        },
        BuiltInFunction::Len => len_model(args[0]),
        BuiltInFunction::Push => push_model(args[0], args[1]),
        BuiltInFunction::Pop => pop_model(args[0]),
        _ => Err(invalid_argument()),
    }
}

/// What a call comes to, by the function, the positional arguments and the
/// optional ones.
///
/// The call fails where the function does not take that many arguments, or
/// where a built-in function gets fewer than it works on. A function that the
/// program defines returns nothing. `Print` and `PrintLn` write, `ReadLn`
/// reads, and the other built-in functions return as [`returned`] says.
pub open spec fn call_model(
    f: FunctionModel,
    args: Seq<ValueModel>,
    optionals: Map<nat, ValueModel>,
) -> Result<CallModel, Error> {
    if !accepts(f, args.len()) {
        Err(
            Error::Call(
                FunctionCallError::InvalidNumberOfArguments {
                    expected: f.arity,
                    got: args.len() as usize,
                },
            ),
        )
    } else if args.len() < operands(f.built_in) {
        Err(
            Error::Call(
                FunctionCallError::InvalidNumberOfArguments {
                    expected: operands(f.built_in) as usize,
                    got: args.len() as usize,
                },
            ),
        )
    } else {
        match f.built_in {
            BuiltInFunction::UserDefined => Ok(CallModel::Return(None)),
            BuiltInFunction::Print => Ok(CallModel::Print(printed(args, optionals))),
            BuiltInFunction::PrintLn => Ok(CallModel::Print(printed(args, optionals) + "\n"@)),
            BuiltInFunction::ReadLn => Ok(CallModel::ReadLine),
            which => match returned(which, args) {
                Ok(v) => Ok(CallModel::Return(Some(v))),
                Err(e) => Err(e),
            },
        }
    }
}

/// Whether a result of [`Function::call`] is what the model says.
pub open spec fn call_matches(r: Result<CallOutcome, Error>, model: Result<CallModel, Error>) -> bool {
    match model {
        Ok(m) => r matches Ok(o) && o@ == m,
        Err(e) => r matches Err(x) && x == e,
    }
}

/// Whether a returned value is what the model says.
spec fn value_matches(r: Result<Value, Error>, model: Result<ValueModel, Error>) -> bool {
    match model {
        Ok(m) => r matches Ok(v) && v@ == m,
        Err(e) => r matches Err(x) && x == e,
    }
}

/// The error of a call that hands over the wrong number of arguments.
fn wrong_count(expected: usize, got: usize) -> (r: Error)
    ensures
        r == Error::Call(FunctionCallError::InvalidNumberOfArguments { expected, got }),
{
    Error::Call(FunctionCallError::InvalidNumberOfArguments { expected, got })
}

/// The text that `Print` writes for its arguments.
fn print_text(args: &VecDeque<Value>, optionals: &Table) -> (r: String)
    ensures
        r@ == printed(value_models(args@), optionals@),
{
    let separator = match optionals.get(&Natural::zero()) {
        Some(Value::String(s)) => s.clone(),
        _ => String::from_str(" "),
    };
    let ghost models = value_models(args@);
    let mut out = String::new();
    let mut i: usize = 0;
    while i < args.len()
        invariant
            i <= args.len(),
            models == value_models(args@),
            separator@ == crate::function::separator(optionals@),
            out@ == join(displays(models.take(i as int)), separator@),
        decreases args.len() - i,
    {
        proof {
            lemma_join_push(
                displays(models.take(i as int)),
                display(models[i as int]),
                separator@,
            );
            assert(displays(models.take(i + 1)) =~= displays(models.take(i as int)).push(
                display(models[i as int]),
            ));
        }
        if i > 0 {
            out.append(separator.as_str());
        }
        let item = args[i].to_string();
        out.append(item.as_str());
        i += 1;
    }
    proof {
        assert(models.take(i as int) =~= models);
    }
    out
}

/// What `Len` returns for a value.
fn len_of(v: Value) -> (r: Result<Value, Error>)
    ensures
        value_matches(r, len_model(v@)),
{
    match v {
        Value::String(s) => {
            let n = s.as_str().as_bytes().len();
            Ok(Value::Integer(Integer::from_u64(n as u64)))
        },
        Value::Array(items) => {
            proof {
                lemma_array_model(items);
            }
            Ok(Value::Integer(Integer::from_u64(items.len() as u64)))
        },
        _ => Err(Error::Call(FunctionCallError::InvalidArgument)),
    }
}

/// What `Push` returns for a container and an element.
fn push_to(container: Value, element: Value) -> (r: Result<Value, Error>)
    ensures
        value_matches(r, push_model(container@, element@)),
{
    match container {
        Value::Array(items) => {
            let mut items = items;
            proof {
                lemma_array_model(items);
                assert(value_models(items@.push(element)) =~= value_models(items@).push(element@));
            }
            items.push(element);
            proof {
                lemma_array_model(items);
            }
            Ok(Value::Array(items))
        },
        Value::String(s) => {
            let mut s = s;
            match element {
                Value::String(t) => {
                    s.append(t.as_str());
                    Ok(Value::String(s))
                },
                Value::Integer(i) => {
                    match i.to_usize() {
                        Some(code) => {
                            if code <= 255 {
                                push_char(&mut s, (code as u8) as char);
                                Ok(Value::String(s))
                            } else {
                                Err(Error::Runtime(RuntimeError::InvalidInstruction))
                            }
                        },
                        None => Err(Error::Runtime(RuntimeError::InvalidInstruction)),
                    }
                },
                _ => Err(Error::Call(FunctionCallError::InvalidArgument)),
            }
        },
        _ => Err(Error::Call(FunctionCallError::InvalidArgument)),
    }
}

/// What `Pop` returns for a container.
fn pop_from(container: Value) -> (r: Result<Value, Error>)
    ensures
        value_matches(r, pop_model(container@)),
{
    match container {
        Value::Array(items) => {
            let mut items = items;
            let ghost before = value_models(items@);
            proof {
                lemma_array_model(items);
            }
            match items.pop() {
                Some(last) => {
                    proof {
                        lemma_array_model(items);
                        assert(value_models(items@) =~= before.drop_last());
                    }
                    let ghost expected = seq![last@, Value::Array(items)@];
                    let mut pair: Vec<Value> = Vec::new();
                    pair.push(last);
                    pair.push(Value::Array(items));
                    proof {
                        lemma_array_model(pair);
                        assert(value_models(pair@) =~= expected);
                    }
                    Ok(Value::Array(pair))
                },
                None => Err(Error::Call(FunctionCallError::InvalidArgument)),
            }
        },
        Value::String(s) => {
            let mut s = s;
            match pop_char(&mut s) {
                Some(c) => {
                    let code = Value::Integer(Integer::from_u64(((c as u32) % 256) as u64));
                    let ghost expected = seq![code@, ValueModel::String(s@)];
                    let mut pair: Vec<Value> = Vec::new();
                    pair.push(code);
                    pair.push(Value::String(s));
                    proof {
                        lemma_array_model(pair);
                        assert(value_models(pair@) =~= expected);
                    }
                    Ok(Value::Array(pair))
                },
                None => Err(Error::Call(FunctionCallError::InvalidArgument)),
            }
        },
        _ => Err(Error::Call(FunctionCallError::InvalidArgument)),
    }
}

/// What one or two operands are, as a list.
spec fn operand_models(first: ValueModel, second: Option<Value>) -> Seq<ValueModel> {
    match second {
        Some(s) => seq![first, s@],
        None => seq![first],
    }
}

/// What a built-in function that works on values returns for its operands,
/// the first of which is `first` and the second, if it takes two, `second`.
fn apply(which: BuiltInFunction, first: Value, second: Option<Value>) -> (r: Result<Value, Error>)
    requires
        operands(which) == 2 ==> second is Some,
    ensures
        value_matches(r, returned(which, operand_models(first@, second))),
{
    match which {
        BuiltInFunction::ToBool => match first.to_bool() {
            Some(b) => Ok(Value::Boolean(b)),
            None => Err(Error::Call(FunctionCallError::InvalidArgument)),
        },
        BuiltInFunction::ToStr => Ok(Value::String(first.to_string())),
        BuiltInFunction::ToInt => match first.to_integer() {
            Some(i) => Ok(Value::Integer(i)),
            None => Err(Error::Call(FunctionCallError::InvalidArgument)),
        },
        BuiltInFunction::Trim => match first {
            Value::String(s) => Ok(Value::String(trim(s.as_str()))),
            _ => Err(Error::Call(FunctionCallError::InvalidArgument)),
        },
        BuiltInFunction::Len => len_of(first),
        BuiltInFunction::Push => match second {
            Some(element) => push_to(first, element),
            None => Err(Error::Call(FunctionCallError::InvalidArgument)),
        },
        BuiltInFunction::Pop => pop_from(first),
        _ => Err(Error::Call(FunctionCallError::InvalidArgument)),
    }
}

impl Function {
    /// Calls the function, as [`call_model`] describes it.
    ///
    /// Nothing is written or read here: where the function is `Print`,
    /// `PrintLn` or `ReadLn`, the outcome says what the caller is to do.
    pub fn call(&self, args: VecDeque<Value>, optionals: Table) -> (r: Result<CallOutcome, Error>)
        ensures
            call_matches(r, call_model(self@, value_models(args@), optionals@)),
    {
        let got = args.len();
        if got < self.arity || (got > self.arity && !self.varargs) {
            return Err(wrong_count(self.arity, got));
        }
        let ghost models = value_models(args@);
        let mut args = args;
        match self.built_in {
            BuiltInFunction::UserDefined => Ok(CallOutcome::Return(None)),
            BuiltInFunction::Print => Ok(CallOutcome::Print(print_text(&args, &optionals))),
            BuiltInFunction::PrintLn => {
                let mut text = print_text(&args, &optionals);
                text.append("\n");
                Ok(CallOutcome::Print(text))
            },
            BuiltInFunction::ReadLn => Ok(CallOutcome::ReadLine),
            which => {
                let first = match args.pop_front() {
                    Some(v) => v,
                    None => {
                        return Err(
                            wrong_count(
                                match which {
                                    BuiltInFunction::Push => 2,
                                    _ => 1,
                                },
                                got,
                            ),
                        );
                    },
                };
                let second = match which {
                    BuiltInFunction::Push => match args.pop_front() {
                        Some(v) => Some(v),
                        None => {
                            return Err(wrong_count(2, got));
                        },
                    },
                    _ => None,
                };
                match apply(which, first, second) {
                    Ok(v) => Ok(CallOutcome::Return(Some(v))),
                    Err(e) => Err(e),
                }
            },
        }
    }
}

} // verus!
