//! What the operators of the language compute.
use crate::host::{Host, NumberValue};
use crate::interpreter::builtin::{CallInfo, ExecutionError};
use crate::interpreter::datatype::DataType;
use crate::parser::expressions::{BinaryOperator, UnaryOperator};
use crate::text::{cat, chars_of, str_eq};
use vstd::prelude::*;

verus! {

/// `a` comes before `b` in the order of `str`: character by character, a proper prefix
/// first.
pub open spec fn seq_less(a: Seq<char>, b: Seq<char>) -> bool
    decreases a.len(),
{
    if a.len() == 0 {
        b.len() > 0
    } else if b.len() == 0 {
        false
    } else if a[0] != b[0] {
        (a[0] as u32) < (b[0] as u32)
    } else {
        seq_less(a.drop_first(), b.drop_first())
    }
}

/// `a < b` on strings.
pub fn str_less(a: &str, b: &str) -> (r: bool)
    ensures
        r == seq_less(a@, b@),
{
    let x = chars_of(a);
    let y = chars_of(b);
    let mut i: usize = 0;
    assert(a@.skip(0) =~= a@);
    assert(b@.skip(0) =~= b@);
    while i < x.len() && i < y.len()
        invariant
            x@ == a@,
            y@ == b@,
            i <= x.len(),
            i <= y.len(),
            seq_less(a@, b@) == seq_less(a@.skip(i as int), b@.skip(i as int)),
        decreases x.len() - i,
    {
        if x[i] != y[i] {
            proof {
                assert(a@.skip(i as int)[0] == x@[i as int]);
                assert(b@.skip(i as int)[0] == y@[i as int]);
            }
            return (x[i] as u32) < (y[i] as u32);
        }
        proof {
            assert(a@.skip(i as int).drop_first() =~= a@.skip(i + 1));
            assert(b@.skip(i as int).drop_first() =~= b@.skip(i + 1));
        }
        i = i + 1;
    }
    proof {
        assert(a@.skip(i as int).len() == a@.len() - i);
        assert(b@.skip(i as int).len() == b@.len() - i);
    }
    i == x.len() && i < y.len()
}

/// The result of `l op r` on two strings.
pub open spec fn string_binary_result(op: BinaryOperator, l: Seq<char>, r: Seq<char>, result: Result<DataType, ExecutionError>) -> bool {
    match op {
        BinaryOperator::Add => result matches Ok(DataType::String(s)) && s@ == l + r,
        BinaryOperator::Equal => result == Ok::<DataType, ExecutionError>(DataType::Boolean(l == r)),
        BinaryOperator::NotEqual => result == Ok::<DataType, ExecutionError>(DataType::Boolean(l != r)),
        BinaryOperator::GreaterThan => result == Ok::<DataType, ExecutionError>(DataType::Boolean(seq_less(r, l))),
        BinaryOperator::LessThan => result == Ok::<DataType, ExecutionError>(DataType::Boolean(seq_less(l, r))),
        BinaryOperator::GreaterOrEqual => result == Ok::<DataType, ExecutionError>(DataType::Boolean(!seq_less(l, r))),
        BinaryOperator::LessOrEqual => result == Ok::<DataType, ExecutionError>(DataType::Boolean(!seq_less(r, l))),
        _ => result is Err,
    }
}

/// The result of `l op r` on two booleans.
pub open spec fn bool_binary_result(op: BinaryOperator, l: bool, r: bool, result: Result<DataType, ExecutionError>) -> bool {
    match op {
        BinaryOperator::Equal => result == Ok::<DataType, ExecutionError>(DataType::Boolean(l == r)),
        BinaryOperator::NotEqual => result == Ok::<DataType, ExecutionError>(DataType::Boolean(l != r)),
        BinaryOperator::And => result == Ok::<DataType, ExecutionError>(DataType::Boolean(l && r)),
        BinaryOperator::Or => result == Ok::<DataType, ExecutionError>(DataType::Boolean(l || r)),
        _ => result is Err,
    }
}

pub open spec fn is_arithmetic(op: BinaryOperator) -> bool {
    op is Add || op is Subtract || op is Divide || op is Multiply
}

pub open spec fn is_comparison(op: BinaryOperator) -> bool {
    op is Equal || op is NotEqual || op is GreaterThan || op is LessThan || op is GreaterOrEqual
        || op is LessOrEqual
}

fn fail(reason: &str) -> (e: ExecutionError)
    ensures
        e.spec_name() == ""@,
        e.spec_reason() == reason@,
{
    ExecutionError::new(CallInfo::new(""), reason)
}

/// What `left op right` gives where a number takes part: for two numbers, the answer the
/// host gives to the operation on the left number and the right number, in that order (an
/// arithmetic operator a number, a comparison a boolean); for a number and a string joined
/// by `+`, the host's text of the number joined to the string on its side.
pub open spec fn number_binary_result<H: Host>(
    host: &H,
    op: BinaryOperator,
    left: DataType,
    right: DataType,
    r: Result<DataType, ExecutionError>,
) -> bool {
    &&& left matches DataType::Number(l) ==> (right matches DataType::Number(x) ==> (is_arithmetic(op) ==> (
        r matches Ok(DataType::Number(n)) && call_ensures(H::number_arithmetic, (host, op, l, x), n))))
    &&& left matches DataType::Number(l) ==> (right matches DataType::Number(x) ==> (is_comparison(op) ==> (
        r matches Ok(DataType::Boolean(b)) && call_ensures(H::number_compare, (host, op, l, x), b))))
    &&& left matches DataType::Number(l) ==> (right matches DataType::String(x) ==> (op is Add ==> (
        r matches Ok(DataType::String(s)) && exists|t: String| call_ensures(H::number_to_string, (host, l), t)
        && s@ == t@ + x@)))
    &&& left matches DataType::String(l) ==> (right matches DataType::Number(x) ==> (op is Add ==> (
        r matches Ok(DataType::String(s)) && exists|t: String| call_ensures(H::number_to_string, (host, x), t)
        && s@ == l@ + t@)))
}

/// `left op right`. Strings compare in the order of `str` and `+` joins them; a number
/// joined to a string is written as the host writes it; `&&` and `||` take booleans.
pub fn apply_binary<H: Host>(op: BinaryOperator, left: DataType, right: DataType, host: &H) -> (r: Result<DataType, ExecutionError>)
    ensures
        left matches DataType::String(l) ==> (right matches DataType::String(x) ==> string_binary_result(op, l@, x@, r)),
        left matches DataType::Boolean(l) ==> (right matches DataType::Boolean(x) ==> bool_binary_result(op, l, x, r)),
        (left is Number && right is Number) ==> (is_arithmetic(op) ==> r matches Ok(DataType::Number(_)))
            && (is_comparison(op) ==> r matches Ok(DataType::Boolean(_)))
            && (!is_arithmetic(op) && !is_comparison(op) ==> r is Err),
        left is Number ==> (right matches DataType::String(x) ==> ((op is Add ==> (r matches Ok(DataType::String(s))
            && exists|t: Seq<char>| s@ == t + x@)) && (!(op is Add) ==> r is Err))),
        left matches DataType::String(l) ==> (right is Number ==> ((op is Add ==> (r matches Ok(DataType::String(s))
            && exists|t: Seq<char>| s@ == l@ + t)) && (!(op is Add) ==> r is Err))),
        (left is Number && !(right is Number || right is String)) ==> r is Err,
        (left is String && !(right is Number || right is String)) ==> r is Err,
        (left is Boolean && !(right is Boolean)) ==> r is Err,
        !(left is Number || left is String || left is Boolean) ==> r is Err,
        number_binary_result(host, op, left, right, r),
{
    match (left, right) {
        (DataType::Number(l), DataType::Number(x)) => match op {
            BinaryOperator::Add | BinaryOperator::Subtract | BinaryOperator::Divide | BinaryOperator::Multiply => Ok(
                DataType::Number(host.number_arithmetic(op, l, x)),
            ),
            BinaryOperator::Equal | BinaryOperator::NotEqual | BinaryOperator::GreaterThan
            | BinaryOperator::LessThan | BinaryOperator::GreaterOrEqual | BinaryOperator::LessOrEqual => Ok(
                DataType::Boolean(host.number_compare(op, l, x)),
            ),
            _ => Err(fail("Invalid operation for number binary operation")),
        },
        (DataType::Number(l), DataType::String(x)) => match op {
            BinaryOperator::Add => {
                let t = host.number_to_string(l);
                let s = cat(t.as_str(), x.as_str());
                assert(s@ == t@ + x@);
                Ok(DataType::String(s))
            },
            _ => Err(fail("Invalid operation for number and string binary operation")),
        },
        (DataType::String(l), DataType::String(x)) => match op {
            BinaryOperator::Add => Ok(DataType::String(cat(l.as_str(), x.as_str()))),
            BinaryOperator::Equal => Ok(DataType::Boolean(str_eq(l.as_str(), x.as_str()))),
            BinaryOperator::NotEqual => Ok(DataType::Boolean(!str_eq(l.as_str(), x.as_str()))),
            BinaryOperator::GreaterThan => Ok(DataType::Boolean(str_less(x.as_str(), l.as_str()))),
            BinaryOperator::LessThan => Ok(DataType::Boolean(str_less(l.as_str(), x.as_str()))),
            BinaryOperator::GreaterOrEqual => Ok(DataType::Boolean(!str_less(l.as_str(), x.as_str()))),
            BinaryOperator::LessOrEqual => Ok(DataType::Boolean(!str_less(x.as_str(), l.as_str()))),
            _ => Err(fail("Invalid operation for string binary operation")),
        },
        (DataType::String(l), DataType::Number(x)) => match op {
            BinaryOperator::Add => {
                let t = host.number_to_string(x);
                let s = cat(l.as_str(), t.as_str());
                assert(s@ == l@ + t@);
                Ok(DataType::String(s))
            },
            _ => Err(fail("Invalid operation for number and string binary operation")),
        },
        (DataType::Boolean(l), DataType::Boolean(x)) => match op {
            BinaryOperator::Equal => Ok(DataType::Boolean(l == x)),
            BinaryOperator::NotEqual => Ok(DataType::Boolean(l != x)),
            BinaryOperator::And => Ok(DataType::Boolean(l && x)),
            BinaryOperator::Or => Ok(DataType::Boolean(l || x)),
            _ => Err(fail("Invalid operation for boolean binary operation")),
        },
        (DataType::Number(_), _) | (DataType::String(_), _) | (DataType::Boolean(_), _) => Err(
            fail("Left and right types of binary expression don't match"),
        ),
        _ => Err(fail("Invalid DataType used for binary expression")),
    }
}

/// What `-n` gives for a number `n`: the host's negation of `n`.
pub open spec fn number_unary_result<H: Host>(host: &H, op: UnaryOperator, value: DataType, r: Result<DataType, ExecutionError>) -> bool {
    value matches DataType::Number(n) ==> (op is Minus ==> (r matches Ok(DataType::Number(m))
        && call_ensures(H::number_negate, (host, n), m)))
}

/// `op value`: `-` negates a number, `!` a boolean.
pub fn apply_unary<H: Host>(op: UnaryOperator, value: DataType, host: &H) -> (r: Result<DataType, ExecutionError>)
    ensures
        value is Number ==> (op is Minus ==> r matches Ok(DataType::Number(_))) && (op is Bang ==> (r matches Err(e)
            && e.spec_reason() == "Unary operator 'Bang' not supported for number"@)),
        value matches DataType::Boolean(b) ==> (op is Bang ==> r == Ok::<DataType, ExecutionError>(DataType::Boolean(!b)))
            && (op is Minus ==> (r matches Err(e) && e.spec_reason() == "Unary operator 'Minus' not supported for boolean"@)),
        !(value is Number || value is Boolean) ==> (r matches Err(e) && e.spec_reason()
            == "Unsupported expression type for unary processing"@),
        number_unary_result(host, op, value, r),
{
    match value {
        DataType::Number(x) => match op {
            UnaryOperator::Minus => Ok(DataType::Number(host.number_negate(x))),
            UnaryOperator::Bang => Err(fail("Unary operator 'Bang' not supported for number")),
        },
        DataType::Boolean(x) => match op {
            UnaryOperator::Bang => Ok(DataType::Boolean(!x)),
            UnaryOperator::Minus => Err(fail("Unary operator 'Minus' not supported for boolean")),
        },
        _ => Err(fail("Unsupported expression type for unary processing")),
    }
}

/// On two numbers, every operator hands the host the left number first and the right
/// second: `l - x` and `l / x` are the host's answers to `l - x` and `l / x`, never to
/// `x - l` or `x / l`; an arithmetic operator gives the host's number, a comparison the
/// host's boolean.
pub proof fn law_number_operands_keep_their_order<H: Host>(
    host: &H,
    op: BinaryOperator,
    l: NumberValue,
    x: NumberValue,
    r: Result<DataType, ExecutionError>,
)
    requires
        number_binary_result(host, op, DataType::Number(l), DataType::Number(x), r),
    ensures
        is_arithmetic(op) ==> exists|n: NumberValue| r == Ok::<DataType, ExecutionError>(DataType::Number(n))
            && #[trigger] call_ensures(H::number_arithmetic, (host, op, l, x), n),
        is_comparison(op) ==> exists|b: bool| r == Ok::<DataType, ExecutionError>(DataType::Boolean(b))
            && #[trigger] call_ensures(H::number_compare, (host, op, l, x), b),
{
}

/// A number joined to a string by `+` is written as the host writes it, on its own side of
/// the string.
pub proof fn law_number_joined_to_text<H: Host>(host: &H, n: NumberValue, text: String, r: Result<DataType, ExecutionError>, q: Result<DataType, ExecutionError>)
    requires
        number_binary_result(host, BinaryOperator::Add, DataType::Number(n), DataType::String(text), r),
        number_binary_result(host, BinaryOperator::Add, DataType::String(text), DataType::Number(n), q),
    ensures
        r matches Ok(DataType::String(s)) && exists|t: String| #[trigger] call_ensures(H::number_to_string, (host, n), t)
            && s@ == t@ + text@,
        q matches Ok(DataType::String(s)) && exists|t: String| #[trigger] call_ensures(H::number_to_string, (host, n), t)
            && s@ == text@ + t@,
{
}

/// `-n` is the host's negation of `n`.
pub proof fn law_negation_is_the_hosts<H: Host>(host: &H, n: NumberValue, r: Result<DataType, ExecutionError>)
    requires
        number_unary_result(host, UnaryOperator::Minus, DataType::Number(n), r),
    ensures
        exists|m: NumberValue| r == Ok::<DataType, ExecutionError>(DataType::Number(m))
            && #[trigger] call_ensures(H::number_negate, (host, n), m),
{
}

/// No text comes before itself.
proof fn lemma_less_irreflexive(a: Seq<char>)
    ensures
        !seq_less(a, a),
    decreases a.len(),
{
    if a.len() > 0 {
        lemma_less_irreflexive(a.drop_first());
    }
}

/// No two texts come each before the other.
proof fn lemma_less_asymmetric(a: Seq<char>, b: Seq<char>)
    ensures
        !(seq_less(a, b) && seq_less(b, a)),
    decreases a.len(),
{
    if a.len() > 0 && b.len() > 0 && a[0] == b[0] {
        lemma_less_asymmetric(a.drop_first(), b.drop_first());
    }
}

/// Comparing two texts: at most one of `l < x`, `l == x` and `l > x` holds, `l == x` holds
/// just where the texts are equal, `!=` is its opposite, `l <= x` is `!(l > x)`, `l >= x` is
/// `!(l < x)`; and `l + x` is `l` followed by `x`.
pub proof fn law_string_operators(
    l: Seq<char>,
    x: Seq<char>,
    lt: Result<DataType, ExecutionError>,
    gt: Result<DataType, ExecutionError>,
    le: Result<DataType, ExecutionError>,
    ge: Result<DataType, ExecutionError>,
    eq: Result<DataType, ExecutionError>,
    ne: Result<DataType, ExecutionError>,
    sum: Result<DataType, ExecutionError>,
)
    requires
        string_binary_result(BinaryOperator::LessThan, l, x, lt),
        string_binary_result(BinaryOperator::GreaterThan, l, x, gt),
        string_binary_result(BinaryOperator::LessOrEqual, l, x, le),
        string_binary_result(BinaryOperator::GreaterOrEqual, l, x, ge),
        string_binary_result(BinaryOperator::Equal, l, x, eq),
        string_binary_result(BinaryOperator::NotEqual, l, x, ne),
        string_binary_result(BinaryOperator::Add, l, x, sum),
    ensures
        lt matches Ok(DataType::Boolean(a)) && gt matches Ok(DataType::Boolean(c)) && eq matches Ok(DataType::Boolean(e))
            && !(a && c) && (e ==> !a && !c)
            && (e <==> l == x)
            && ne == Ok::<DataType, ExecutionError>(DataType::Boolean(!e))
            && le == Ok::<DataType, ExecutionError>(DataType::Boolean(!c))
            && ge == Ok::<DataType, ExecutionError>(DataType::Boolean(!a)),
        sum matches Ok(DataType::String(s)) && s@.len() == l.len() + x.len() && s@.subrange(0, l.len() as int) == l
            && s@.subrange(l.len() as int, s@.len() as int) == x,
{
    lemma_less_irreflexive(l);
    lemma_less_asymmetric(l, x);
    if let Ok(DataType::String(s)) = sum {
        assert(s@.subrange(0, l.len() as int) =~= l);
        assert(s@.subrange(l.len() as int, s@.len() as int) =~= x);
    }
}

/// On two booleans `&&` is true just where both are, `||` false just where both are, and
/// `==` and `!=` are opposites that tell whether the two are the same.
pub proof fn law_boolean_operators(
    l: bool,
    x: bool,
    and: Result<DataType, ExecutionError>,
    or: Result<DataType, ExecutionError>,
    eq: Result<DataType, ExecutionError>,
    ne: Result<DataType, ExecutionError>,
)
    requires
        bool_binary_result(BinaryOperator::And, l, x, and),
        bool_binary_result(BinaryOperator::Or, l, x, or),
        bool_binary_result(BinaryOperator::Equal, l, x, eq),
        bool_binary_result(BinaryOperator::NotEqual, l, x, ne),
    ensures
        and matches Ok(DataType::Boolean(a)) && (a <==> (l && x)),
        or matches Ok(DataType::Boolean(o)) && (!o <==> (!l && !x)),
        eq matches Ok(DataType::Boolean(e)) && (e <==> (l == x)) && ne == Ok::<DataType, ExecutionError>(DataType::Boolean(!e)),
{
}

} // verus!
