//! The meaning of the part of the language that needs no host: strings, booleans,
//! `undefined`, variables holding them, and the operators on them.
use crate::interpreter::datatype::DataType;
use crate::interpreter::ops::seq_less;
use crate::interpreter::store::Store;
use crate::text::spec_bool_text;
use crate::parser::expressions::{
    BinaryOperator, ExpressionType, IdentifierExpression, LiteralType, UnaryOperator,
};
use vstd::prelude::*;

verus! {

/// A value as a program sees it: text, a truth value, or `undefined`.
pub enum PlainValue {
    Text(Seq<char>),
    Truth(bool),
    Nothing,
}

/// `v` is the run-time form of `p`.
pub open spec fn denotes(v: DataType, p: PlainValue) -> bool {
    match (v, p) {
        (DataType::String(s), PlainValue::Text(t)) => s@ == t,
        (DataType::Boolean(b), PlainValue::Truth(c)) => b == c,
        (DataType::Undefined, PlainValue::Nothing) => true,
        _ => false,
    }
}

/// The plain value a run-time value stands for, if it is a string, a boolean or `undefined`.
pub open spec fn plain_of(v: DataType) -> Option<PlainValue> {
    match v {
        DataType::String(s) => Some(PlainValue::Text(s@)),
        DataType::Boolean(b) => Some(PlainValue::Truth(b)),
        DataType::Undefined => Some(PlainValue::Nothing),
        _ => None,
    }
}

/// `l op r` on texts, where the operator applies to texts.
pub open spec fn text_operation(op: BinaryOperator, l: Seq<char>, r: Seq<char>) -> Option<PlainValue> {
    match op {
        BinaryOperator::Add => Some(PlainValue::Text(l + r)),
        BinaryOperator::Equal => Some(PlainValue::Truth(l == r)),
        BinaryOperator::NotEqual => Some(PlainValue::Truth(l != r)),
        BinaryOperator::GreaterThan => Some(PlainValue::Truth(seq_less(r, l))),
        BinaryOperator::LessThan => Some(PlainValue::Truth(seq_less(l, r))),
        BinaryOperator::GreaterOrEqual => Some(PlainValue::Truth(!seq_less(l, r))),
        BinaryOperator::LessOrEqual => Some(PlainValue::Truth(!seq_less(r, l))),
        _ => None,
    }
}

/// `l op r` on truth values, where the operator applies to them.
pub open spec fn truth_operation(op: BinaryOperator, l: bool, r: bool) -> Option<PlainValue> {
    match op {
        BinaryOperator::Equal => Some(PlainValue::Truth(l == r)),
        BinaryOperator::NotEqual => Some(PlainValue::Truth(l != r)),
        BinaryOperator::And => Some(PlainValue::Truth(l && r)),
        BinaryOperator::Or => Some(PlainValue::Truth(l || r)),
        _ => None,
    }
}

/// The value of `e` where `look` gives what each variable name holds, for `e` built from
/// string, boolean and `undefined` literals, variables holding such values, `!` on a truth
/// value, and the binary operators that apply to two texts or two truth values; `None` for
/// any other expression.
pub open spec fn plain_in(look: spec_fn(Seq<char>) -> Option<DataType>, e: ExpressionType) -> Option<PlainValue>
    decreases e,
{
    match e {
        ExpressionType::Literal(LiteralType::String(s)) => Some(PlainValue::Text(s@)),
        ExpressionType::Literal(LiteralType::Boolean(b)) => Some(PlainValue::Truth(b)),
        ExpressionType::Literal(LiteralType::Undefined) => Some(PlainValue::Nothing),
        ExpressionType::Identifier(i) => match look(i.name@) {
            Some(v) => plain_of(v),
            None => None,
        },
        ExpressionType::UnaryOperation(u) => match (u.operator, plain_in(look, *u.expression)) {
            (UnaryOperator::Bang, Some(PlainValue::Truth(b))) => Some(PlainValue::Truth(!b)),
            _ => None,
        },
        ExpressionType::BinaryOperation(b) => match (plain_in(look, *b.left), plain_in(look, *b.right)) {
            (Some(PlainValue::Text(l)), Some(PlainValue::Text(r))) => text_operation(b.operator, l, r),
            (Some(PlainValue::Truth(l)), Some(PlainValue::Truth(r))) => truth_operation(b.operator, l, r),
            _ => None,
        },
        _ => None,
    }
}

/// What each variable name holds, seen from `scope` of `store`.
pub open spec fn names_in(store: Store, scope: int) -> spec_fn(Seq<char>) -> Option<DataType> {
    |n: Seq<char>| store.lookup(scope, n)
}

/// The value of `e` evaluated in `scope` of `store` (see `plain_in`).
pub open spec fn plain_value(store: Store, scope: int, e: ExpressionType) -> Option<PlainValue> {
    plain_in(names_in(store, scope), e)
}

/// `e` calls no function, so evaluating it changes no variable.
pub open spec fn calls_nothing(e: ExpressionType) -> bool
    decreases e,
{
    match e {
        ExpressionType::FunctionCall(_) => false,
        ExpressionType::Accessor(a) => calls_nothing(*a.value) && calls_nothing(*a.key),
        ExpressionType::Property(p) => calls_nothing(*p.value),
        ExpressionType::BinaryOperation(b) => calls_nothing(*b.left) && calls_nothing(*b.right),
        ExpressionType::UnaryOperation(u) => calls_nothing(*u.expression),
        ExpressionType::List(l) => forall|k: int| 0 <= k < l.values@.len() ==> calls_nothing(#[trigger] l.values@[k]),
        ExpressionType::Dictionary(d) => (forall|k: int| 0 <= k < d.keys@.len() ==> calls_nothing(#[trigger] d.keys@[k]))
            && (forall|k: int| 0 <= k < d.values@.len() ==> calls_nothing(#[trigger] d.values@[k])),
        _ => true,
    }
}

/// None of `es` calls a function.
pub open spec fn all_call_nothing(es: Seq<ExpressionType>) -> bool {
    forall|k: int| 0 <= k < es.len() ==> calls_nothing(#[trigger] es[k])
}

/// No name comes twice in `names`.
pub open spec fn distinct_names(names: Seq<String>) -> bool {
    forall|a: int, b: int| 0 <= a < b < names.len() ==> #[trigger] names[a]@ != #[trigger] names[b]@
}

/// What each name holds inside a call of a function with the parameters `parameters`
/// declared in `scope`: a parameter the argument in its place, any other name what it holds
/// seen from the scope the function was declared in.
pub open spec fn call_names(
    store: Store,
    scope: int,
    parameters: Seq<String>,
    args: Seq<DataType>,
) -> spec_fn(Seq<char>) -> Option<DataType> {
    |n: Seq<char>|
        if exists|k: int| 0 <= k < parameters.len() && #[trigger] parameters[k]@ == n {
            Some(args[choose|k: int| 0 <= k < parameters.len() && #[trigger] parameters[k]@ == n])
        } else {
            store.lookup(scope, n)
        }
}

/// Every one of `es` has a plain value in `scope` of `store`.
pub open spec fn all_plain(store: Store, scope: int, es: Seq<ExpressionType>) -> bool {
    forall|k: int| 0 <= k < es.len() ==> (#[trigger] plain_value(store, scope, es[k])) is Some
}

/// The key a plain value makes in a dictionary: a text itself, a truth value `true` or
/// `false`; `undefined` makes none.
pub open spec fn key_text(p: PlainValue) -> Option<Seq<char>> {
    match p {
        PlainValue::Text(t) => Some(t),
        PlainValue::Truth(b) => Some(spec_bool_text(b)),
        PlainValue::Nothing => None,
    }
}

/// Every one of `keys` has a plain value in `scope` of `store` that makes a key.
pub open spec fn all_keys(store: Store, scope: int, keys: Seq<ExpressionType>) -> bool {
    forall|k: int| 0 <= k < keys.len() ==> ((#[trigger] plain_value(store, scope, keys[k])) matches Some(p)
        && key_text(p) is Some)
}

/// The key the `k`-th of `keys` makes.
pub open spec fn key_of(store: Store, scope: int, keys: Seq<ExpressionType>, k: int) -> Seq<char> {
    key_text(plain_value(store, scope, keys[k])->0)->0
}

/// The dictionary that the first `n` pairs of `keys` and `values` make, each pair set in
/// turn, so that a later pair with the same key wins.
pub open spec fn plain_dictionary(
    store: Store,
    scope: int,
    keys: Seq<ExpressionType>,
    values: Seq<ExpressionType>,
    n: nat,
) -> Map<Seq<char>, PlainValue>
    decreases n,
{
    if n == 0 {
        Map::empty()
    } else {
        plain_dictionary(store, scope, keys, values, (n - 1) as nat).insert(
            key_of(store, scope, keys, n - 1),
            plain_value(store, scope, values[n - 1])->0,
        )
    }
}

/// Inside a call, a parameter holds the argument in its place, where no parameter name comes
/// twice.
pub proof fn law_parameter_holds_its_argument(
    store: Store,
    scope: int,
    parameters: Seq<String>,
    args: Seq<DataType>,
    k: int,
)
    requires
        distinct_names(parameters),
        0 <= k < parameters.len(),
    ensures
        call_names(store, scope, parameters, args)(parameters[k]@) == Some(args[k]),
{
    let n = parameters[k]@;
    let c = choose|c: int| 0 <= c < parameters.len() && #[trigger] parameters[c]@ == n;
    if c != k {
        if c < k {
            assert(parameters[c]@ != parameters[k]@);
        } else {
            assert(parameters[k]@ != parameters[c]@);
        }
    }
}

/// Inside a call, a name that is no parameter holds what it holds in the scope the function
/// was declared in, whatever the caller's scope holds.
pub proof fn law_other_names_seen_from_declaration(
    store: Store,
    scope: int,
    parameters: Seq<String>,
    args: Seq<DataType>,
    n: Seq<char>,
)
    requires
        forall|k: int| 0 <= k < parameters.len() ==> #[trigger] parameters[k]@ != n,
    ensures
        call_names(store, scope, parameters, args)(n) == store.lookup(scope, n),
{
}

/// A plain value depends on the variables alone: a change to lists, dictionaries or
/// functions leaves it as it was, so after `d[k] = e` the key `k` still reads as before and
/// `d[k]` gives what was written.
pub proof fn law_plain_values_depend_on_variables_only(before: Store, after: Store, scope: int, e: ExpressionType)
    requires
        after.scope_seq() == before.scope_seq(),
    ensures
        plain_value(after, scope, e) == plain_value(before, scope, e),
{
    assert(names_in(after, scope) =~= names_in(before, scope));
}

/// What a declaration or an assignment wrote, a read gives back: where the variable `name`
/// holds a value denoting `p` in `scope`, the expression `name` evaluated there is `p`.
pub proof fn law_read_after_write(store: Store, scope: int, name: IdentifierExpression, p: PlainValue)
    requires
        store.lookup(scope, name.name@) matches Some(x) && denotes(x, p),
    ensures
        plain_value(store, scope, ExpressionType::Identifier(name)) == Some(p),
{
}

} // verus!
