//! Checking the arguments of runtime functions and turning values into the Rust
//! values the functions work with.
use crate::host::Host;
use crate::interpreter::datatype::{Callable, DataType, DictRef, ListRef};
use crate::interpreter::dictionary::DictionaryDeclaration;
use crate::text::{bool_to_string, cat, spec_bool_text, usize_to_string};
use vstd::prelude::*;

verus! {

#[derive(Debug, PartialEq, Eq, Clone, Copy, Structural)]
pub enum DataKind {
    String,
    Boolean,
    Int,
    Float,
    List,
    Dictionary,
    Callable,
    Module,
    Undefined,
}

/// The kind of a value (every number counts as `Int`).
pub open spec fn spec_kind_of(d: DataType) -> DataKind {
    match d {
        DataType::Number(_) => DataKind::Int,
        DataType::String(_) => DataKind::String,
        DataType::Boolean(_) => DataKind::Boolean,
        DataType::Function(_) => DataKind::Callable,
        DataType::List(_) => DataKind::List,
        DataType::Dictionary(_) => DataKind::Dictionary,
        DataType::Module(_) => DataKind::Module,
        DataType::Undefined => DataKind::Undefined,
    }
}

pub open spec fn spec_kind_name(k: DataKind) -> Seq<char> {
    match k {
        DataKind::String => "String"@,
        DataKind::Boolean => "Boolean"@,
        DataKind::Int => "Int"@,
        DataKind::Float => "Float"@,
        DataKind::List => "List"@,
        DataKind::Dictionary => "Dictionary"@,
        DataKind::Callable => "Callable"@,
        DataKind::Module => "Module"@,
        DataKind::Undefined => "Undefined"@,
    }
}

impl DataKind {
    pub fn from(value: &DataType) -> (k: DataKind)
        ensures
            k == spec_kind_of(*value),
    {
        match value {
            DataType::Number(_) => DataKind::Int,
            DataType::String(_) => DataKind::String,
            DataType::Boolean(_) => DataKind::Boolean,
            DataType::Function(_) => DataKind::Callable,
            DataType::List(_) => DataKind::List,
            DataType::Dictionary(_) => DataKind::Dictionary,
            DataType::Module(_) => DataKind::Module,
            DataType::Undefined => DataKind::Undefined,
        }
    }

    /// The name the kind prints as.
    pub fn name(&self) -> (s: &'static str)
        ensures
            s@ == spec_kind_name(*self),
    {
        match self {
            DataKind::String => "String",
            DataKind::Boolean => "Boolean",
            DataKind::Int => "Int",
            DataKind::Float => "Float",
            DataKind::List => "List",
            DataKind::Dictionary => "Dictionary",
            DataKind::Callable => "Callable",
            DataKind::Module => "Module",
            DataKind::Undefined => "Undefined",
        }
    }
}

/// A string, number or boolean as text; the kind of any other value.
pub fn expect_string<H: Host>(data: &DataType, host: &H) -> (r: Result<String, DataKind>)
    ensures
        data matches DataType::String(s) ==> r == Ok::<String, DataKind>(*s),
        data matches DataType::Boolean(b) ==> (r matches Ok(t) && t@ == spec_bool_text(*b)),
        data is Number ==> r is Ok,
        *data matches DataType::Number(n) ==> (r matches Ok(t) && call_ensures(H::number_to_string, (host, n), t)),
        !(data is String || data is Boolean || data is Number) ==> r == Err::<String, DataKind>(
            spec_kind_of(*data),
        ),
{
    match data {
        DataType::Number(x) => Ok(host.number_to_string(*x)),
        DataType::String(x) => Ok(x.clone()),
        DataType::Boolean(x) => Ok(bool_to_string(*x)),
        _ => Err(DataKind::from(data)),
    }
}

pub fn expect_callable(data: &DataType) -> (r: Result<Callable, DataKind>)
    ensures
        data matches DataType::Function(c) ==> r == Ok::<Callable, DataKind>(*c),
        !(data is Function) ==> r == Err::<Callable, DataKind>(spec_kind_of(*data)),
{
    match data {
        DataType::Function(callable) => Ok(callable.duplicate()),
        _ => Err(DataKind::from(data)),
    }
}

pub fn expect_dict(data: &DataType) -> (r: Result<DictRef, DataKind>)
    ensures
        data matches DataType::Dictionary(d) ==> r == Ok::<DictRef, DataKind>(*d),
        !(data is Dictionary) ==> r == Err::<DictRef, DataKind>(spec_kind_of(*data)),
{
    match data {
        DataType::Dictionary(x) => Ok(*x),
        _ => Err(DataKind::from(data)),
    }
}

pub fn expect_bool(data: &DataType) -> (r: Result<bool, DataKind>)
    ensures
        data matches DataType::Boolean(b) ==> r == Ok::<bool, DataKind>(*b),
        !(data is Boolean) ==> r == Err::<bool, DataKind>(spec_kind_of(*data)),
{
    match data {
        DataType::Boolean(x) => Ok(*x),
        _ => Err(DataKind::from(data)),
    }
}

pub fn expect_list(data: &DataType) -> (r: Result<ListRef, DataKind>)
    ensures
        data matches DataType::List(l) ==> r == Ok::<ListRef, DataKind>(*l),
        !(data is List) ==> r == Err::<ListRef, DataKind>(spec_kind_of(*data)),
{
    match data {
        DataType::List(x) => Ok(*x),
        _ => Err(DataKind::from(data)),
    }
}

/// A whole number as an index; `Float` for another number, the kind of any other value.
pub fn expect_int<H: Host>(data: &DataType, host: &H) -> (r: Result<usize, DataKind>)
    ensures
        data is Number ==> (r is Ok || r == Err::<usize, DataKind>(DataKind::Float)),
        !(data is Number) ==> r == Err::<usize, DataKind>(spec_kind_of(*data)),
        index_of_number(host, *data, r),
{
    if let DataType::Number(number) = data {
        return match host.number_to_index(*number) {
            Some(i) => Ok(i),
            None => Err(DataKind::Float),
        };
    }
    Err(DataKind::from(data))
}

#[derive(Debug)]
pub enum ArgumentError {
    InvalidCount { fn_name: String, expected: usize, found: usize },
    InvalidRange { fn_name: String, expected_min: usize, expected_max: usize, found: usize },
    InvalidType { fn_name: String, index: usize, expected_type: DataKind, found_type: DataKind },
    MissingKey { fn_name: String, key: String, expected_type: DataKind },
    InvalidKeyType { fn_name: String, key: String, expected_type: DataKind, found_type: DataKind },
}

impl ArgumentError {
    /// The name of the function whose arguments were refused.
    pub fn fn_name(&self) -> (s: &String)
        ensures
            s == match *self {
                ArgumentError::InvalidCount { fn_name, .. } => fn_name,
                ArgumentError::InvalidRange { fn_name, .. } => fn_name,
                ArgumentError::InvalidType { fn_name, .. } => fn_name,
                ArgumentError::MissingKey { fn_name, .. } => fn_name,
                ArgumentError::InvalidKeyType { fn_name, .. } => fn_name,
            },
    {
        match self {
            ArgumentError::InvalidCount { fn_name, .. } => fn_name,
            ArgumentError::InvalidRange { fn_name, .. } => fn_name,
            ArgumentError::InvalidType { fn_name, .. } => fn_name,
            ArgumentError::MissingKey { fn_name, .. } => fn_name,
            ArgumentError::InvalidKeyType { fn_name, .. } => fn_name,
        }
    }

    /// The message the error prints as.
    pub fn to_text(&self) -> (s: String)
        ensures
            s@ == spec_argument_error_text(*self),
    {
        match self {
            ArgumentError::InvalidCount { fn_name, expected, found } => {
                let s = cat("Argument count error. ", fn_name.as_str());
                let s = cat(s.as_str(), " expected ");
                let s = cat(s.as_str(), usize_to_string(*expected).as_str());
                let s = cat(s.as_str(), " arguments, found: ");
                cat(s.as_str(), usize_to_string(*found).as_str())
            },
            ArgumentError::InvalidRange { fn_name, expected_min, expected_max, found } => {
                let s = cat("Argument range error. ", fn_name.as_str());
                let s = cat(s.as_str(), " expected ");
                let s = cat(s.as_str(), usize_to_string(*expected_min).as_str());
                let s = cat(s.as_str(), "-");
                let s = cat(s.as_str(), usize_to_string(*expected_max).as_str());
                let s = cat(s.as_str(), " arguments, found: ");
                cat(s.as_str(), usize_to_string(*found).as_str())
            },
            ArgumentError::InvalidType { fn_name, index, expected_type, found_type } => {
                let s = cat("Argument type error. ", fn_name.as_str());
                let s = cat(s.as_str(), " expected ");
                let s = cat(s.as_str(), expected_type.name());
                let s = cat(s.as_str(), " as argument ");
                let s = cat(s.as_str(), usize_to_string(*index).as_str());
                let s = cat(s.as_str(), ", found: ");
                cat(s.as_str(), found_type.name())
            },
            ArgumentError::MissingKey { fn_name, key, expected_type } => {
                let s = cat("Dictionary error. ", fn_name.as_str());
                let s = cat(s.as_str(), " expected key \"");
                let s = cat(s.as_str(), key.as_str());
                let s = cat(s.as_str(), "\" of type ");
                let s = cat(s.as_str(), expected_type.name());
                cat(s.as_str(), ", but it was not found")
            },
            ArgumentError::InvalidKeyType { fn_name, key, expected_type, found_type } => {
                let s = cat("Dictionary type error. ", fn_name.as_str());
                let s = cat(s.as_str(), " expected key \"");
                let s = cat(s.as_str(), key.as_str());
                let s = cat(s.as_str(), "\" to be ");
                let s = cat(s.as_str(), expected_type.name());
                let s = cat(s.as_str(), ", found: ");
                cat(s.as_str(), found_type.name())
            },
        }
    }
}

pub open spec fn spec_argument_error_text(e: ArgumentError) -> Seq<char> {
    match e {
        ArgumentError::InvalidCount { fn_name, expected, found } => "Argument count error. "@
            + fn_name@ + " expected "@ + crate::text::decimal(expected as nat)
            + " arguments, found: "@ + crate::text::decimal(found as nat),
        ArgumentError::InvalidRange { fn_name, expected_min, expected_max, found } =>
            "Argument range error. "@ + fn_name@ + " expected "@ + crate::text::decimal(
            expected_min as nat,
        ) + "-"@ + crate::text::decimal(expected_max as nat) + " arguments, found: "@
            + crate::text::decimal(found as nat),
        ArgumentError::InvalidType { fn_name, index, expected_type, found_type } =>
            "Argument type error. "@ + fn_name@ + " expected "@ + spec_kind_name(expected_type)
            + " as argument "@ + crate::text::decimal(index as nat) + ", found: "@
            + spec_kind_name(found_type),
        ArgumentError::MissingKey { fn_name, key, expected_type } => "Dictionary error. "@
            + fn_name@ + " expected key \""@ + key@ + "\" of type "@ + spec_kind_name(
            expected_type,
        ) + ", but it was not found"@,
        ArgumentError::InvalidKeyType { fn_name, key, expected_type, found_type } =>
            "Dictionary type error. "@ + fn_name@ + " expected key \""@ + key@ + "\" to be "@
            + spec_kind_name(expected_type) + ", found: "@ + spec_kind_name(found_type),
    }
}

/// A missing dictionary key is no error for an optional value.
pub trait OptionalValue<T>: Sized {
    fn optional(self) -> Result<Option<T>, ArgumentError>;
}

impl<T> OptionalValue<T> for Result<T, ArgumentError> {
    fn optional(self) -> (r: Result<Option<T>, ArgumentError>)
        ensures
            r == spec_optional(self),
    {
        match self {
            Ok(v) => Ok(Some(v)),
            Err(ArgumentError::MissingKey { .. }) => Ok(None),
            Err(e) => Err(e),
        }
    }
}

/// `Ok(Some(v))` for `Ok(v)`, `Ok(None)` for a missing key, the error otherwise.
pub open spec fn spec_optional<T>(r: Result<T, ArgumentError>) -> Result<Option<T>, ArgumentError> {
    match r {
        Ok(v) => Ok(Some(v)),
        Err(ArgumentError::MissingKey { .. }) => Ok(None),
        Err(e) => Err(e),
    }
}

pub fn optional<T>(r: Result<T, ArgumentError>) -> (o: Result<Option<T>, ArgumentError>)
    ensures
        o == spec_optional(r),
{
    match r {
        Ok(v) => Ok(Some(v)),
        Err(ArgumentError::MissingKey { fn_name, key, expected_type }) => Ok(None),
        Err(e) => Err(e),
    }
}

/// An optional argument reads as the required one, wrapped: a value as that value, an error
/// as that error, and only a missing key as nothing.
pub proof fn law_optional_wraps_the_reading<T>(r: Result<T, ArgumentError>)
    ensures
        r matches Ok(v) ==> spec_optional(r) == Ok::<Option<T>, ArgumentError>(Some(v)),
        r matches Err(ArgumentError::MissingKey { .. }) ==> spec_optional(r) == Ok::<Option<T>, ArgumentError>(None),
        r matches Err(e) ==> (!(e is MissingKey) ==> spec_optional(r) == Err::<Option<T>, ArgumentError>(e)),
{
}

/// `r` is the type error of argument `index` of `fn_name`.
pub open spec fn is_type_error<T>(
    r: Result<T, ArgumentError>,
    fn_name: Seq<char>,
    index: usize,
    expected: DataKind,
    found: DataKind,
) -> bool {
    match r {
        Err(ArgumentError::InvalidType { fn_name: f, index: i, expected_type, found_type }) => f@
            == fn_name && i == index && expected_type == expected && found_type == found,
        _ => false,
    }
}

/// Where `value` is a number, the index read from it is the one the host says the number
/// denotes, and the reading fails where the host says it denotes none.
pub open spec fn index_of_number<H: Host, E>(host: &H, value: DataType, r: Result<usize, E>) -> bool {
    value matches DataType::Number(n) ==> ((r matches Ok(i) ==> call_ensures(H::number_to_index, (host, n), Some(i)))
        && (r is Err ==> call_ensures(H::number_to_index, (host, n), None::<usize>)))
}

/// A list is read and written at the index its key number denotes: an index read from a
/// number is one the host says the number denotes, never a neighbour of it, and the reading
/// fails only where the host says the number denotes no index.
pub proof fn law_index_is_the_denoted_one<H: Host, E>(host: &H, n: crate::host::NumberValue, r: Result<usize, E>)
    requires
        index_of_number(host, DataType::Number(n), r),
    ensures
        forall|i: usize| r == Ok::<usize, E>(i) ==> #[trigger] call_ensures(H::number_to_index, (host, n), Some(i)),
        r is Err ==> call_ensures(H::number_to_index, (host, n), None::<usize>),
{
}

pub struct Args {
    pub fn_name: String,
    pub arguments: Vec<DataType>,
}

pub fn duplicate_values(values: &Vec<DataType>) -> (r: Vec<DataType>)
    ensures
        r@ == values@,
{
    let mut r: Vec<DataType> = Vec::new();
    let mut i: usize = 0;
    while i < values.len()
        invariant
            i <= values.len(),
            r@ == values@.take(i as int),
        decreases values.len() - i,
    {
        r.push(values[i].duplicate());
        proof {
            assert(values@.take(i + 1) == values@.take(i as int).push(values@[i as int]));
        }
        i = i + 1;
    }
    proof {
        assert(values@.take(values@.len() as int) == values@);
    }
    r
}

impl Args {
    pub open spec fn spec_fn_name(&self) -> Seq<char> {
        self.fn_name@
    }

    pub fn new(fn_name: &str, arguments: &Vec<DataType>) -> (a: Args)
        ensures
            a.spec_fn_name() == fn_name@,
            a.arguments@ == arguments@,
    {
        Args { fn_name: fn_name.to_owned(), arguments: duplicate_values(arguments) }
    }

    /// Exactly `length` arguments.
    pub fn exact(&self, length: usize) -> (r: Result<(), ArgumentError>)
        ensures
            r is Ok <==> self.arguments@.len() == length,
            r matches Err(ArgumentError::InvalidCount { fn_name, expected, found }) ==> fn_name@
                == self.spec_fn_name() && expected == length && found == self.arguments@.len(),
            r is Err ==> r->Err_0 is InvalidCount,
    {
        let len = self.arguments.len();
        if len != length {
            return Err(ArgumentError::InvalidCount { fn_name: self.fn_name.clone(), found: len, expected: length });
        }
        Ok(())
    }

    /// Between `min` and `max` arguments.
    pub fn range(&self, min: usize, max: usize) -> (r: Result<(), ArgumentError>)
        ensures
            r is Ok <==> min <= self.arguments@.len() <= max,
            r matches Err(ArgumentError::InvalidRange { fn_name, expected_min, expected_max, found }) ==> fn_name@
                == self.spec_fn_name() && expected_min == min && expected_max == max && found == self.arguments@.len(),
            r is Err ==> r->Err_0 is InvalidRange,
    {
        let len = self.arguments.len();
        if len < min || len > max {
            return Err(ArgumentError::InvalidRange { fn_name: self.fn_name.clone(), found: len, expected_min: min, expected_max: max });
        }
        Ok(())
    }

    fn type_error(&self, index: usize, expected_type: DataKind, found_type: DataKind) -> (e: ArgumentError)
        ensures
            e matches ArgumentError::InvalidType { fn_name, index: i, expected_type: x, found_type: f }
                && fn_name@ == self.spec_fn_name() && i == index && x == expected_type && f == found_type,
    {
        ArgumentError::InvalidType { fn_name: self.fn_name.clone(), index, expected_type, found_type }
    }

    /// The argument at `index` as text if there is one.
    pub fn optional_string<H: Host>(&self, index: usize, host: &H) -> (r: Result<Option<String>, ArgumentError>)
        ensures
            index >= self.arguments@.len() ==> r == Ok::<Option<String>, ArgumentError>(None),
            index < self.arguments@.len() ==> match self.arguments@[index as int] {
                DataType::String(s) => r == Ok::<Option<String>, ArgumentError>(Some(s)),
                DataType::Number(_) => r matches Ok(Some(_)),
                DataType::Boolean(b) => r matches Ok(Some(t)) && t@ == spec_bool_text(b),
                other => is_type_error(r, self.spec_fn_name(), index, DataKind::String, spec_kind_of(other)),
            },
    {
        if index >= self.arguments.len() {
            return Ok(None);
        }
        match expect_string(&self.arguments[index], host) {
            Ok(s) => Ok(Some(s)),
            Err(found) => Err(self.type_error(index, DataKind::String, found)),
        }
    }

    /// The argument at `index` as text.
    pub fn string<H: Host>(&self, index: usize, host: &H) -> (r: Result<String, ArgumentError>)
        ensures
            index >= self.arguments@.len() ==> is_type_error(r, self.spec_fn_name(), index, DataKind::String, DataKind::Undefined),
            index < self.arguments@.len() ==> match self.arguments@[index as int] {
                DataType::String(s) => r == Ok::<String, ArgumentError>(s),
                DataType::Number(_) => r is Ok,
                DataType::Boolean(b) => r matches Ok(t) && t@ == spec_bool_text(b),
                other => is_type_error(r, self.spec_fn_name(), index, DataKind::String, spec_kind_of(other)),
            },
            index < self.arguments@.len() ==> (self.arguments@[index as int] matches DataType::Number(n) ==> (
                r matches Ok(t) && call_ensures(H::number_to_string, (host, n), t))),
    {
        if index >= self.arguments.len() {
            return Err(self.type_error(index, DataKind::String, DataKind::Undefined));
        }
        match expect_string(&self.arguments[index], host) {
            Ok(s) => Ok(s),
            Err(found) => Err(self.type_error(index, DataKind::String, found)),
        }
    }

    /// The argument at `index` as a whole number.
    pub fn integer<H: Host>(&self, index: usize, host: &H) -> (r: Result<usize, ArgumentError>)
        ensures
            index >= self.arguments@.len() ==> is_type_error(r, self.spec_fn_name(), index, DataKind::Int, DataKind::Undefined),
            index < self.arguments@.len() ==> match self.arguments@[index as int] {
                DataType::Number(_) => r is Ok || (is_type_error(r, self.spec_fn_name(), index, DataKind::Int, DataKind::Float)),
                other => is_type_error(r, self.spec_fn_name(), index, DataKind::Int, spec_kind_of(other)),
            },
            index < self.arguments@.len() ==> index_of_number(host, self.arguments@[index as int], r),
    {
        if index >= self.arguments.len() {
            return Err(self.type_error(index, DataKind::Int, DataKind::Undefined));
        }
        match expect_int(&self.arguments[index], host) {
            Ok(i) => Ok(i),
            Err(found) => Err(self.type_error(index, DataKind::Int, found)),
        }
    }

    /// The argument at `index` as a boolean.
    pub fn boolean(&self, index: usize) -> (r: Result<bool, ArgumentError>)
        ensures
            index >= self.arguments@.len() ==> is_type_error(r, self.spec_fn_name(), index, DataKind::Boolean, DataKind::Undefined),
            index < self.arguments@.len() ==> match self.arguments@[index as int] {
                DataType::Boolean(b) => r == Ok::<bool, ArgumentError>(b),
                other => is_type_error(r, self.spec_fn_name(), index, DataKind::Boolean, spec_kind_of(other)),
            },
    {
        if index >= self.arguments.len() {
            return Err(self.type_error(index, DataKind::Boolean, DataKind::Undefined));
        }
        match expect_bool(&self.arguments[index]) {
            Ok(b) => Ok(b),
            Err(found) => Err(self.type_error(index, DataKind::Boolean, found)),
        }
    }

    /// The argument at `index` as a list.
    pub fn list(&self, index: usize) -> (r: Result<ListRef, ArgumentError>)
        ensures
            index >= self.arguments@.len() ==> is_type_error(r, self.spec_fn_name(), index, DataKind::List, DataKind::Undefined),
            index < self.arguments@.len() ==> match self.arguments@[index as int] {
                DataType::List(l) => r == Ok::<ListRef, ArgumentError>(l),
                other => is_type_error(r, self.spec_fn_name(), index, DataKind::List, spec_kind_of(other)),
            },
    {
        if index >= self.arguments.len() {
            return Err(self.type_error(index, DataKind::List, DataKind::Undefined));
        }
        match expect_list(&self.arguments[index]) {
            Ok(l) => Ok(l),
            Err(found) => Err(self.type_error(index, DataKind::List, found)),
        }
    }

    /// The argument at `index` as a dictionary.
    pub fn dictionary(&self, index: usize) -> (r: Result<DictRef, ArgumentError>)
        ensures
            index >= self.arguments@.len() ==> is_type_error(r, self.spec_fn_name(), index, DataKind::Dictionary, DataKind::Undefined),
            index < self.arguments@.len() ==> match self.arguments@[index as int] {
                DataType::Dictionary(d) => r == Ok::<DictRef, ArgumentError>(d),
                other => is_type_error(r, self.spec_fn_name(), index, DataKind::Dictionary, spec_kind_of(other)),
            },
    {
        if index >= self.arguments.len() {
            return Err(self.type_error(index, DataKind::Dictionary, DataKind::Undefined));
        }
        match expect_dict(&self.arguments[index]) {
            Ok(d) => Ok(d),
            Err(found) => Err(self.type_error(index, DataKind::Dictionary, found)),
        }
    }

    /// The argument at `index` as a callable.
    pub fn callable(&self, index: usize) -> (r: Result<Callable, ArgumentError>)
        ensures
            index >= self.arguments@.len() ==> is_type_error(r, self.spec_fn_name(), index, DataKind::Callable, DataKind::Undefined),
            index < self.arguments@.len() ==> match self.arguments@[index as int] {
                DataType::Function(c) => r == Ok::<Callable, ArgumentError>(c),
                other => is_type_error(r, self.spec_fn_name(), index, DataKind::Callable, spec_kind_of(other)),
            },
    {
        if index >= self.arguments.len() {
            return Err(self.type_error(index, DataKind::Callable, DataKind::Undefined));
        }
        match expect_callable(&self.arguments[index]) {
            Ok(c) => Ok(c),
            Err(found) => Err(self.type_error(index, DataKind::Callable, found)),
        }
    }

    /// The argument at `index`, whatever its kind.
    pub fn any(&self, index: usize) -> (r: Result<DataType, ArgumentError>)
        ensures
            index < self.arguments@.len() ==> r == Ok::<DataType, ArgumentError>(self.arguments@[index as int]),
            index >= self.arguments@.len() ==> is_type_error(r, self.spec_fn_name(), index, DataKind::Callable, DataKind::Undefined),
    {
        if index >= self.arguments.len() {
            return Err(self.type_error(index, DataKind::Callable, DataKind::Undefined));
        }
        Ok(self.arguments[index].duplicate())
    }
}

/// The value a dictionary holds under `key`, `undefined` where it holds none.
pub open spec fn spec_entry(d: Map<Seq<char>, DataType>, key: Seq<char>) -> DataType {
    if d.contains_key(key) {
        d[key]
    } else {
        DataType::Undefined
    }
}

/// `r` is the error for a missing key.
pub open spec fn is_missing_key<T>(r: Result<T, ArgumentError>, fn_name: Seq<char>, key: Seq<char>, expected: DataKind) -> bool {
    r matches Err(ArgumentError::MissingKey { fn_name: f, key: k, expected_type }) && f@ == fn_name
        && k@ == key && expected_type == expected
}

/// `r` is the error for a key of the wrong kind.
pub open spec fn is_key_type_error<T>(
    r: Result<T, ArgumentError>,
    fn_name: Seq<char>,
    key: Seq<char>,
    expected: DataKind,
    found: DataKind,
) -> bool {
    r matches Err(ArgumentError::InvalidKeyType { fn_name: f, key: k, expected_type, found_type })
        && f@ == fn_name && k@ == key && expected_type == expected && found_type == found
}

/// Named arguments, read from a dictionary. A key whose value is `undefined` counts as
/// missing.
pub struct DictArgs<'a> {
    pub fn_name: String,
    pub dict: &'a DictionaryDeclaration,
}

impl<'a> DictArgs<'a> {
    pub fn new(fn_name: &str, dict: &'a DictionaryDeclaration) -> (a: Self)
        ensures
            a.fn_name@ == fn_name@,
            a.dict == dict,
    {
        DictArgs { fn_name: fn_name.to_owned(), dict }
    }

    /// The value under `key`; `undefined` where there is none.
    fn get(&self, key: &str) -> (v: DataType)
        requires
            self.dict.wf(),
        ensures
            v == spec_entry(self.dict.view(), key@),
    {
        self.dict.get(key)
    }

    fn missing(&self, key: &str, expected_type: DataKind) -> (e: ArgumentError)
        ensures
            e matches ArgumentError::MissingKey { fn_name, key: k, expected_type: x } && fn_name@ == self.fn_name@ && k@ == key@ && x == expected_type,
    {
        ArgumentError::MissingKey { fn_name: self.fn_name.clone(), key: key.to_owned(), expected_type }
    }

    fn wrong_kind(&self, key: &str, expected_type: DataKind, found_type: DataKind) -> (e: ArgumentError)
        ensures
            e matches ArgumentError::InvalidKeyType { fn_name, key: k, expected_type: x, found_type: f } && fn_name@ == self.fn_name@ && k@ == key@ && x == expected_type && f == found_type,
    {
        ArgumentError::InvalidKeyType { fn_name: self.fn_name.clone(), key: key.to_owned(), expected_type, found_type }
    }

    /// The value under `key` as text.
    pub fn string<H: Host>(&self, key: &str, host: &H) -> (r: Result<String, ArgumentError>)
        requires
            self.dict.wf(),
        ensures
            match spec_entry(self.dict.view(), key@) {
                DataType::Undefined => is_missing_key(r, self.fn_name@, key@, DataKind::String),
                DataType::String(s) => r == Ok::<String, ArgumentError>(s),
                DataType::Number(_) => r is Ok,
                DataType::Boolean(b) => r matches Ok(t) && t@ == spec_bool_text(b),
                other => is_key_type_error(r, self.fn_name@, key@, DataKind::String, spec_kind_of(other)),
            },
    {
        let value = self.get(key);
        if let DataType::Undefined = value {
            return Err(self.missing(key, DataKind::String));
        }
        match expect_string(&value, host) {
            Ok(s) => Ok(s),
            Err(found) => Err(self.wrong_kind(key, DataKind::String, found)),
        }
    }

    /// The value under `key` as a whole number.
    pub fn integer<H: Host>(&self, key: &str, host: &H) -> (r: Result<usize, ArgumentError>)
        requires
            self.dict.wf(),
        ensures
            match spec_entry(self.dict.view(), key@) {
                DataType::Undefined => is_missing_key(r, self.fn_name@, key@, DataKind::Int),
                DataType::Number(_) => r is Ok || is_key_type_error(r, self.fn_name@, key@, DataKind::Int, DataKind::Float),
                other => is_key_type_error(r, self.fn_name@, key@, DataKind::Int, spec_kind_of(other)),
            },
            index_of_number(host, spec_entry(self.dict.view(), key@), r),
    {
        let value = self.get(key);
        if let DataType::Undefined = value {
            return Err(self.missing(key, DataKind::Int));
        }
        match expect_int(&value, host) {
            Ok(i) => Ok(i),
            Err(found) => Err(self.wrong_kind(key, DataKind::Int, found)),
        }
    }

    /// The value under `key` as a boolean.
    pub fn boolean(&self, key: &str) -> (r: Result<bool, ArgumentError>)
        requires
            self.dict.wf(),
        ensures
            match spec_entry(self.dict.view(), key@) {
                DataType::Undefined => is_missing_key(r, self.fn_name@, key@, DataKind::Boolean),
                DataType::Boolean(b) => r == Ok::<bool, ArgumentError>(b),
                other => is_key_type_error(r, self.fn_name@, key@, DataKind::Boolean, spec_kind_of(other)),
            },
    {
        let value = self.get(key);
        if let DataType::Undefined = value {
            return Err(self.missing(key, DataKind::Boolean));
        }
        match expect_bool(&value) {
            Ok(b) => Ok(b),
            Err(found) => Err(self.wrong_kind(key, DataKind::Boolean, found)),
        }
    }

    /// The value under `key`, which must be a list.
    pub fn list(&self, key: &str) -> (r: Result<DataType, ArgumentError>)
        requires
            self.dict.wf(),
        ensures
            match spec_entry(self.dict.view(), key@) {
                DataType::Undefined => is_missing_key(r, self.fn_name@, key@, DataKind::List),
                DataType::List(l) => r == Ok::<DataType, ArgumentError>(DataType::List(l)),
                other => is_key_type_error(r, self.fn_name@, key@, DataKind::List, spec_kind_of(other)),
            },
    {
        let value = self.get(key);
        if let DataType::Undefined = value {
            return Err(self.missing(key, DataKind::List));
        }
        match expect_list(&value) {
            Ok(_) => Ok(value),
            Err(found) => Err(self.wrong_kind(key, DataKind::List, found)),
        }
    }

    /// The value under `key`, which must be a dictionary.
    pub fn dictionary(&self, key: &str) -> (r: Result<DataType, ArgumentError>)
        requires
            self.dict.wf(),
        ensures
            match spec_entry(self.dict.view(), key@) {
                DataType::Undefined => is_missing_key(r, self.fn_name@, key@, DataKind::Dictionary),
                DataType::Dictionary(d) => r == Ok::<DataType, ArgumentError>(DataType::Dictionary(d)),
                other => is_key_type_error(r, self.fn_name@, key@, DataKind::Dictionary, spec_kind_of(other)),
            },
    {
        let value = self.get(key);
        if let DataType::Undefined = value {
            return Err(self.missing(key, DataKind::Dictionary));
        }
        match expect_dict(&value) {
            Ok(_) => Ok(value),
            Err(found) => Err(self.wrong_kind(key, DataKind::Dictionary, found)),
        }
    }

    /// The value under `key`, which must be a callable.
    pub fn callable(&self, key: &str) -> (r: Result<DataType, ArgumentError>)
        requires
            self.dict.wf(),
        ensures
            match spec_entry(self.dict.view(), key@) {
                DataType::Undefined => is_missing_key(r, self.fn_name@, key@, DataKind::Callable),
                DataType::Function(c) => r == Ok::<DataType, ArgumentError>(DataType::Function(c)),
                other => is_key_type_error(r, self.fn_name@, key@, DataKind::Callable, spec_kind_of(other)),
            },
    {
        let value = self.get(key);
        if let DataType::Undefined = value {
            return Err(self.missing(key, DataKind::Callable));
        }
        match expect_callable(&value) {
            Ok(_) => Ok(value),
            Err(found) => Err(self.wrong_kind(key, DataKind::Callable, found)),
        }
    }
}

} // verus!
