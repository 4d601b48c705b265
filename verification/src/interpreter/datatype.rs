//! Values of the language.
use crate::host::NumberValue;
use crate::interpreter::builtin::BuiltinId;
use crate::modules::Module;
use vstd::prelude::*;

verus! {

/// A list, by its place among the lists of the runtime.
#[derive(PartialEq, Eq, Debug, Clone, Copy, Structural)]
pub struct ListRef {
    pub index: usize,
}

/// A dictionary, by its place among the dictionaries of the runtime.
#[derive(PartialEq, Eq, Debug, Clone, Copy, Structural)]
pub struct DictRef {
    pub index: usize,
}

#[derive(PartialEq, Debug)]
pub enum DataType {
    Number(NumberValue),
    String(String),
    Boolean(bool),
    Function(Callable),
    List(ListRef),
    Dictionary(DictRef),
    Module(Module),
    Undefined,
}

/// What a call runs: a function of the runtime, or a function of the program (by its
/// place among the declared functions).
#[derive(PartialEq, Eq, Debug, Clone, Copy, Structural)]
pub enum Executable {
    Builtin(BuiltinId),
    Declared(usize),
}

#[derive(PartialEq, Debug)]
pub struct Callable {
    pub name: Option<String>,
    pub function: Executable,
    pub receiver: Option<Box<DataType>>,
}

pub fn duplicate_string_option(s: &Option<String>) -> (r: Option<String>)
    ensures
        r == *s,
{
    match s {
        Some(x) => Some(x.clone()),
        None => None,
    }
}

impl Callable {
    pub fn new(name: Option<String>, function: Executable) -> (c: Callable)
        ensures
            c.name == name,
            c.function == function,
            c.receiver is None,
    {
        Callable { name, function, receiver: None }
    }

    /// The callable with `receiver` as the value it is called on.
    pub fn bind(self, receiver: DataType) -> (c: Callable)
        ensures
            c.name == self.name,
            c.function == self.function,
            c.receiver == Some(Box::new(receiver)),
    {
        Callable { name: self.name, function: self.function, receiver: Some(Box::new(receiver)) }
    }

    pub fn duplicate(&self) -> (c: Callable)
        ensures
            c == *self,
        decreases self,
    {
        Callable {
            name: duplicate_string_option(&self.name),
            function: self.function,
            receiver: match &self.receiver {
                Some(r) => Some(Box::new((**r).duplicate())),
                None => None,
            },
        }
    }
}

impl DataType {
    pub fn duplicate(&self) -> (d: DataType)
        ensures
            d == *self,
        decreases self,
    {
        match self {
            DataType::Number(n) => DataType::Number(*n),
            DataType::String(s) => DataType::String(s.clone()),
            DataType::Boolean(b) => DataType::Boolean(*b),
            DataType::Function(c) => DataType::Function(c.duplicate()),
            DataType::List(l) => DataType::List(*l),
            DataType::Dictionary(d) => DataType::Dictionary(*d),
            DataType::Module(m) => DataType::Module(m.duplicate()),
            DataType::Undefined => DataType::Undefined,
        }
    }
}

} // verus!
