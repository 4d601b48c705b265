//! Running programs: statements, expressions and calls.
pub mod builtin;
pub mod coerce;
pub mod datatype;
pub mod dictionary;
pub mod display;
pub mod function;
pub mod helpers;
pub mod list;
pub mod methods;
pub mod ops;
pub mod plain;
pub mod scope;
pub mod semantics;
pub mod store;

use crate::context::{only_runs, Effect, Run, RuntimeContext};
use crate::entries::Entries;
use crate::host::{Host, NumberValue};
use crate::interpreter::builtin::{accepts_count, BuiltinId, CallInfo, ExecutionError};
use crate::interpreter::coerce::{
    expect_callable, duplicate_values, spec_kind_name, spec_kind_of, Args, ArgumentError, DataKind,
};
use crate::interpreter::datatype::{duplicate_string_option, Callable, DataType, Executable};
use crate::interpreter::dictionary::DictionaryDeclaration;
use crate::interpreter::display::{display_value, DISPLAY_DEPTH};
use crate::interpreter::function::{share_body, FunctionDeclaration};
use crate::interpreter::ops::{apply_binary, apply_unary, is_arithmetic, is_comparison};
use crate::interpreter::plain::{
    all_call_nothing, all_keys, all_plain, call_names, calls_nothing, denotes, distinct_names, key_of, key_text, names_in,
    plain_dictionary, plain_in, plain_value, PlainValue,
};
use crate::interpreter::scope::{declaring_scope, lemma_lookup_stays_none};
use crate::interpreter::semantics::{
    block_runs_to, bound_arguments, lemma_block_step, lemma_block_stops, makes_nothing, opened, rebound, same_store, simple_block,
    simple_statement, statement_runs_to, store_after, value_of, Step, Trace,
};
use crate::interpreter::store::{unknown_reference, Store};
use crate::modules::{git, shell, tmux, GitRunner, Module, TmuxRunner};
use crate::parser::duplicate::duplicate_statements;
use crate::parser::expressions::{BinaryOperator, CallExpression, ExpressionType, IdentifierExpression, LiteralType, UnaryOperator};
use crate::parser::statements::{AssignmentStatement, ExpressionStatement, IfStatement, StatementType, While};
use crate::text::{cat, cat3, cr_to_lf, usize_to_string};
use vstd::prelude::*;

verus! {

/// How deeply calls of functions may nest; a call deeper than this fails.
pub const MAX_CALL_DEPTH: usize = 200;

/// How a statement ends: normally, by `break` or `continue`, or by `return` with a value.
pub enum StatementResult {
    Void,
    Break,
    Continue,
    Return(DataType),
}

/// A program ready to run, and the scope of its global variables.
pub struct Interpreter {
    pub scope: usize,
    pub statements: Vec<StatementType>,
    pub pos: usize,
}

/// A step of a program keeps the context well formed, uses no more loop rounds than there
/// were, loses no scope, moves no scope under another parent, and leaves every declared
/// variable declared.
pub open spec fn advances<G: GitRunner, T: TmuxRunner, H: Host>(
    before: &RuntimeContext<G, T, H>,
    after: &RuntimeContext<G, T, H>,
) -> bool {
    &&& after.wf()
    &&& after.steps <= before.steps
    &&& after.store.scope_seq().len() >= before.store.scope_seq().len()
    &&& forall|i: int| 0 <= i < before.store.scope_seq().len() ==> (#[trigger] after.store.scope_seq()[i]).parent
        == before.store.scope_seq()[i].parent
    &&& forall|s: int, n: Seq<char>|
        #[trigger] before.store.lookup(s, n) is Some ==> after.store.lookup(s, n) is Some
    &&& before.runs@.is_prefix_of(after.runs@)
    &&& before.effects@.is_prefix_of(after.effects@)
}

/// What reading `value[key]` gives where `value` names a list and `key` names a number or
/// is a number literal: the list's element at the index the host says the number denotes.
pub open spec fn list_read<G: GitRunner, T: TmuxRunner, H: Host>(
    ctx: &RuntimeContext<G, T, H>,
    scope: int,
    value: ExpressionType,
    key: ExpressionType,
    r: Result<DataType, ExecutionError>,
) -> bool {
    value matches ExpressionType::Identifier(id) ==> (ctx.store.lookup(scope, id.name@) matches Some(DataType::List(l)) ==> (
        l.index < ctx.store.list_seq().len() ==> ({
            &&& key_number(ctx, scope, key) matches Some(n) ==> (r matches Ok(v) ==> exists|i: usize|
                #[trigger] call_ensures(H::number_to_index, (&ctx.host, n), Some(i))
                && i < ctx.store.list_seq()[l.index as int].values@.len()
                && v == ctx.store.list_seq()[l.index as int].values@[i as int])
            &&& key matches ExpressionType::Literal(LiteralType::Number(text)) ==> (r matches Ok(v) ==> exists|p: NumberValue, i: usize|
                #[trigger] parses_as(&ctx.host, text@, p)
                && #[trigger] call_ensures(H::number_to_index, (&ctx.host, p), Some(i))
                && i < ctx.store.list_seq()[l.index as int].values@.len()
                && v == ctx.store.list_seq()[l.index as int].values@[i as int])
        })))
}

/// `e` gives the number `n` in `scope`: a name that holds `n`, or a number literal the host
/// reads as `n`.
pub open spec fn gives_number<G: GitRunner, T: TmuxRunner, H: Host>(
    ctx: &RuntimeContext<G, T, H>,
    scope: int,
    e: ExpressionType,
    n: NumberValue,
) -> bool {
    match e {
        ExpressionType::Identifier(i) => ctx.store.lookup(scope, i.name@) == Some(DataType::Number(n)),
        ExpressionType::Literal(LiteralType::Number(text)) => parses_as(&ctx.host, text@, n),
        _ => false,
    }
}

/// What `left op right` gives where both operands are names or literals of numbers: the
/// host's answer to the operation on the left number and the right number, in that order.
pub open spec fn binary_on_numbers<G: GitRunner, T: TmuxRunner, H: Host>(
    ctx: &RuntimeContext<G, T, H>,
    scope: int,
    op: BinaryOperator,
    left: ExpressionType,
    right: ExpressionType,
    r: Result<DataType, ExecutionError>,
) -> bool {
    &&& is_arithmetic(op) ==> (r matches Ok(DataType::Number(n)) ==> ((left is Identifier || left is Literal)
        && (right is Identifier || right is Literal) ==> exists|l: NumberValue, x: NumberValue|
        #[trigger] gives_number(ctx, scope, left, l) && #[trigger] gives_number(ctx, scope, right, x)
        && call_ensures(H::number_arithmetic, (&ctx.host, op, l, x), n)))
    &&& is_comparison(op) ==> (r matches Ok(DataType::Boolean(c)) ==> (((exists|l: NumberValue| #[trigger] gives_number(
        ctx, scope, left, l)) && (exists|x: NumberValue| #[trigger] gives_number(ctx, scope, right, x))) ==> exists|
        l: NumberValue, x: NumberValue| #[trigger] gives_number(ctx, scope, left, l) && #[trigger] gives_number(ctx, scope,
        right, x) && call_ensures(H::number_compare, (&ctx.host, op, l, x), c)))
}

/// What `-e` gives where `e` is a name or literal of a number: the host's negation of it.
pub open spec fn negation_of_number<G: GitRunner, T: TmuxRunner, H: Host>(
    ctx: &RuntimeContext<G, T, H>,
    scope: int,
    op: UnaryOperator,
    e: ExpressionType,
    r: Result<DataType, ExecutionError>,
) -> bool {
    op is Minus ==> (r matches Ok(DataType::Number(m)) ==> ((e is Identifier || e is Literal) ==> exists|n: NumberValue|
        #[trigger] gives_number(ctx, scope, e, n) && call_ensures(H::number_negate, (&ctx.host, n), m)))
}

/// `a op b` on two names that hold numbers `l` and `x` is the host's answer to `l op x`:
/// the left name's number first, the right name's second (so `a - b` is not `b - a`).
pub proof fn law_names_of_numbers_keep_their_order<G: GitRunner, T: TmuxRunner, H: Host>(
    ctx: &RuntimeContext<G, T, H>,
    scope: int,
    op: BinaryOperator,
    a: IdentifierExpression,
    b: IdentifierExpression,
    l: NumberValue,
    x: NumberValue,
    n: NumberValue,
)
    requires
        is_arithmetic(op),
        ctx.store.lookup(scope, a.name@) == Some(DataType::Number(l)),
        ctx.store.lookup(scope, b.name@) == Some(DataType::Number(x)),
        binary_on_numbers(ctx, scope, op, ExpressionType::Identifier(a), ExpressionType::Identifier(b),
            Ok::<DataType, ExecutionError>(DataType::Number(n))),
    ensures
        call_ensures(H::number_arithmetic, (&ctx.host, op, l, x), n),
{
    let (l2, x2) = choose|l2: NumberValue, x2: NumberValue| #[trigger] gives_number(ctx, scope, ExpressionType::Identifier(a), l2)
        && #[trigger] gives_number(ctx, scope, ExpressionType::Identifier(b), x2)
        && call_ensures(H::number_arithmetic, (&ctx.host, op, l2, x2), n);
    assert(l2 == l && x2 == x);
}

/// The host reads the number literal `text` as `p`.
pub open spec fn parses_as<H: Host>(host: &H, text: Seq<char>, p: NumberValue) -> bool {
    exists|t: &str| t@ == text && #[trigger] call_ensures(H::parse_number, (host, t), Some(p))
}

/// The number a key expression gives: a name's number.
pub open spec fn key_number<G: GitRunner, T: TmuxRunner, H: Host>(
    ctx: &RuntimeContext<G, T, H>,
    scope: int,
    key: ExpressionType,
) -> Option<NumberValue> {
    match key {
        ExpressionType::Identifier(k) => match ctx.store.lookup(scope, k.name@) {
            Some(DataType::Number(n)) => Some(n),
            _ => None,
        },
        _ => None,
    }
}

/// Every list and every dictionary that existed before holds what it held: what ran only
/// made new ones.
pub open spec fn keeps_containers(before: Store, after: Store) -> bool {
    &&& before.list_seq().len() <= after.list_seq().len()
    &&& forall|j: int| 0 <= j < before.list_seq().len() ==> #[trigger] after.list_seq()[j] == before.list_seq()[j]
    &&& before.dict_seq().len() <= after.dict_seq().len()
    &&& forall|j: int| 0 <= j < before.dict_seq().len() ==> #[trigger] after.dict_seq()[j] == before.dict_seq()[j]
}

/// No scope that existed before gained or lost a name: what runs declares only in scopes it
/// made itself.
pub open spec fn keeps_names<G: GitRunner, T: TmuxRunner, H: Host>(
    before: &RuntimeContext<G, T, H>,
    after: &RuntimeContext<G, T, H>,
) -> bool {
    forall|i: int| 0 <= i < before.store.scope_seq().len() ==> (#[trigger] after.store.scope_seq()[i]).view().dom()
        == before.store.scope_seq()[i].view().dom()
}

/// As `keeps_names`, except for the scope `s`, which may have gained names.
pub open spec fn keeps_names_except<G: GitRunner, T: TmuxRunner, H: Host>(
    before: &RuntimeContext<G, T, H>,
    after: &RuntimeContext<G, T, H>,
    s: int,
) -> bool {
    forall|i: int| 0 <= i < before.store.scope_seq().len() && i != s ==> (#[trigger] after.store.scope_seq()[i]).view().dom()
        == before.store.scope_seq()[i].view().dom()
}

/// What a block, a loop body or a called function declares is not seen outside it: after a
/// step that keeps names (an expression, or any statement but a declaration run in the scope
/// itself), a name that no existing scope could see still cannot be seen from it.
pub proof fn law_declarations_stay_inside<G: GitRunner, T: TmuxRunner, H: Host>(
    before: &RuntimeContext<G, T, H>,
    after: &RuntimeContext<G, T, H>,
    s: int,
    name: Seq<char>,
)
    requires
        advances(before, after),
        keeps_names(before, after),
        0 <= s < before.store.scope_seq().len(),
        before.store.lookup(s, name) is None,
    ensures
        after.store.lookup(s, name) is None,
{
    lemma_lookup_stays_none(before.store.scope_seq(), after.store.scope_seq(), s, name);
}

fn fail(reason: &str) -> (e: ExecutionError)
    ensures
        e.spec_name() == ""@,
        e.spec_reason() == reason@,
{
    ExecutionError::new(CallInfo::new(""), reason)
}

fn too_deep() -> (e: ExecutionError)
    ensures
        e.spec_reason() == "Calls are nested too deeply"@,
{
    fail("Calls are nested too deeply")
}

/// The text of a value used as a dictionary key: strings, numbers and booleans.
pub fn dictionary_key<H: Host>(key: &DataType, host: &H) -> (r: Result<String, ExecutionError>)
    ensures
        key matches DataType::String(s) ==> r == Ok::<String, ExecutionError>(*s),
        key matches DataType::Boolean(b) ==> (r matches Ok(t) && t@ == crate::text::spec_bool_text(*b)),
        key is Number ==> r is Ok,
        !(key is String || key is Number || key is Boolean) ==> (r matches Err(e) && e.spec_reason()
            == "Can only use literals or functions returning literals as dictionary keys"@),
{
    match key {
        DataType::Number(x) => Ok(host.number_to_string(*x)),
        DataType::String(x) => Ok(x.clone()),
        DataType::Boolean(x) => Ok(crate::text::bool_to_string(*x)),
        _ => Err(fail("Can only use literals or functions returning literals as dictionary keys")),
    }
}

/// The index a value denotes when it is used on a list.
fn list_index<H: Host>(key: DataType, host: &H) -> (r: Result<usize, ExecutionError>)
    ensures
        !(key is Number) ==> (r matches Err(e) && e.spec_reason()
            == "Argument type error. "@ + "get"@ + " expected "@ + spec_kind_name(DataKind::Int) + " as argument "@
            + crate::text::decimal(0) + ", found: "@ + spec_kind_name(spec_kind_of(key))),
        crate::interpreter::coerce::index_of_number(host, key, r),
{
    let mut values: Vec<DataType> = Vec::new();
    values.push(key);
    let args = Args::new("get", &values);
    match args.integer(0, host) {
        Ok(i) => Ok(i),
        Err(e) => Err(ExecutionError::from_argument_error(e)),
    }
}

/// The key text a value denotes when it is used on a dictionary.
fn dict_key_text<H: Host>(key: DataType, host: &H) -> (r: Result<String, ExecutionError>)
    ensures
        key matches DataType::String(s) ==> r == Ok::<String, ExecutionError>(s),
        key matches DataType::Number(n) ==> (r matches Ok(t) && call_ensures(H::number_to_string, (host, n), t)),
{
    let mut values: Vec<DataType> = Vec::new();
    values.push(key);
    let args = Args::new("get", &values);
    match args.string(0, host) {
        Ok(s) => Ok(s),
        Err(e) => Err(ExecutionError::from_argument_error(e)),
    }
}

/// The names of a function's parameters.
fn parameter_names(parameters: &Vec<IdentifierExpression>) -> (r: Vec<String>)
    ensures
        r@.len() == parameters@.len(),
        forall|i: int| 0 <= i < parameters@.len() ==> #[trigger] r@[i] == parameters@[i].name,
{
    let mut r: Vec<String> = Vec::new();
    let mut i: usize = 0;
    while i < parameters.len()
        invariant
            i <= parameters.len(),
            r@.len() == i,
            forall|k: int| 0 <= k < i ==> #[trigger] r@[k] == parameters@[k].name,
        decreases parameters.len() - i,
    {
        r.push(parameters[i].name.clone());
        i = i + 1;
    }
    r
}

fn duplicate_strings(v: &Vec<String>) -> (r: Vec<String>)
    ensures
        r@ == v@,
{
    let mut r: Vec<String> = Vec::new();
    let mut i: usize = 0;
    while i < v.len()
        invariant
            i <= v.len(),
            r@ == v@.take(i as int),
        decreases v.len() - i,
    {
        r.push(v[i].clone());
        proof {
            assert(v@.take(i + 1) == v@.take(i as int).push(v@[i as int]));
        }
        i = i + 1;
    }
    proof {
        assert(v@.take(v@.len() as int) == v@);
    }
    r
}

/// The declaration of a function named `name` with the parameters `parameters` in `scope`
/// was added to the store as its last function.
pub open spec fn declares_function<G: GitRunner, T: TmuxRunner, H: Host>(
    before: &RuntimeContext<G, T, H>,
    after: &RuntimeContext<G, T, H>,
    name: Option<String>,
    parameters: &Vec<IdentifierExpression>,
    scope: usize,
) -> bool {
    let index = before.store.function_seq().len();
    &&& after.store.function_seq().len() == index + 1
    &&& after.store.function_seq()[index as int].name == name
    &&& after.store.function_seq()[index as int].scope == scope
    &&& after.store.function_seq()[index as int].arguments@.len() == parameters@.len()
    &&& forall|i: int| 0 <= i < parameters@.len() ==> #[trigger] after.store.function_seq()[index as int].arguments@[i] == parameters@[i].name
}

/// `run` is the call that the call expression `c`, evaluated in `scope`, made and that gave
/// `r`: with as many arguments as `c` has; of the function its callee names, where that is
/// an identifier, and then with the values of the arguments, where they are plain.
pub open spec fn called_as_written(store: Store, scope: int, c: CallExpression, run: Run, r: Result<DataType, ExecutionError>) -> bool {
    match run {
        Run::Call { callable, args, outcome } => {
            &&& outcome == r
            &&& args.len() == c.parameters@.len()
            &&& match *c.value {
                ExpressionType::Identifier(i) => {
                    &&& store.lookup(scope, i.name@) == Some(DataType::Function(callable))
                    &&& all_plain(store, scope, c.parameters@) ==> forall|k: int|
                        0 <= k < args.len() ==> denotes(#[trigger] args[k], plain_value(store, scope, c.parameters@[k])->0)
                },
                _ => true,
            }
        },
        _ => false,
    }
}

/// The value of an expression evaluated in `scope`. Calls inside it may nest `depth`
/// deep.
pub fn interpret_expression<G: GitRunner, T: TmuxRunner, H: Host>(
    ctx: &mut RuntimeContext<G, T, H>,
    scope: usize,
    expression: &ExpressionType,
    depth: usize,
) -> (r: Result<DataType, ExecutionError>)
    requires
        old(ctx).wf(),
        scope < old(ctx).store.scope_seq().len(),
    ensures
        advances(old(ctx), final(ctx)),
        keeps_names(old(ctx), final(ctx)),
        calls_nothing(*expression) ==> final(ctx).store.scope_seq() == old(ctx).store.scope_seq(),
        calls_nothing(*expression) ==> keeps_containers(old(ctx).store, final(ctx).store),
        expression matches ExpressionType::Accessor(a) ==> list_read(old(ctx), scope as int, *a.value, *a.key, r),
        expression matches ExpressionType::UnaryOperation(u) ==> negation_of_number(old(ctx), scope as int, u.operator,
            *u.expression, r),
        expression matches ExpressionType::BinaryOperation(b) ==> binary_on_numbers(old(ctx), scope as int, b.operator, *b.left,
            *b.right, r),
        expression matches ExpressionType::Literal(LiteralType::String(s)) ==> r == Ok::<DataType, ExecutionError>(DataType::String(*s)),
        expression matches ExpressionType::Literal(LiteralType::Boolean(b)) ==> r == Ok::<DataType, ExecutionError>(DataType::Boolean(*b)),
        expression matches ExpressionType::Literal(LiteralType::Undefined) ==> r == Ok::<DataType, ExecutionError>(DataType::Undefined),
        expression matches ExpressionType::Identifier(i) ==> (*final(ctx) == *old(ctx)
            && (r is Ok <==> old(ctx).store.lookup(scope as int, i.name@) is Some)
            && (r matches Ok(v) ==> old(ctx).store.lookup(scope as int, i.name@) == Some(v))),
        expression matches ExpressionType::Literal(LiteralType::Number(_)) ==> (r matches Ok(v) ==> v is Number),
        expression matches ExpressionType::Literal(LiteralType::Number(text)) ==> (r matches Ok(DataType::Number(p))
            ==> parses_as(&old(ctx).host, text@, p)),
        expression is Literal ==> *final(ctx) == *old(ctx),
        expression matches ExpressionType::Identifier(i) ==> (r matches Err(e) ==> e.spec_reason() == "Variable '"@ + i.name@
            + "' is not declared"@),
        expression matches ExpressionType::UnaryOperation(u) ==> (*u.expression matches ExpressionType::Identifier(i) ==> (
            old(ctx).store.lookup(scope as int, i.name@) is None ==> (r matches Err(e) && e.spec_reason() == "Variable '"@
            + i.name@ + "' is not declared"@))),
        makes_nothing(*expression) ==> same_store(final(ctx).store, old(ctx).store),
        makes_nothing(*expression) ==> (r matches Ok(v) ==> value_of(old(ctx).store, scope as int, *expression, v)),
        expression matches ExpressionType::FunctionDeclaration(f) ==> declares_function(old(ctx), final(ctx), None, &f.parameters, scope)
            && r == Ok::<DataType, ExecutionError>(DataType::Function(Callable {
                name: None,
                function: Executable::Declared(old(ctx).store.function_seq().len() as usize),
                receiver: None,
            })),
        expression matches ExpressionType::List(l) ==> (r matches Ok(v) ==> (v matches DataType::List(x)
            && x.index + 1 == final(ctx).store.list_seq().len()
            && final(ctx).store.list_seq()[x.index as int].values@.len() == l.values@.len())),
        expression matches ExpressionType::List(l) ==> (all_plain(old(ctx).store, scope as int, l.values@) ==> (
            r matches Ok(DataType::List(x)) && x.index == old(ctx).store.list_seq().len()
            && final(ctx).store.scope_seq() == old(ctx).store.scope_seq()
            && forall|k: int| 0 <= k < l.values@.len() ==> denotes(
                #[trigger] final(ctx).store.list_seq()[x.index as int].values@[k],
                plain_value(old(ctx).store, scope as int, l.values@[k])->0,
            ))),
        expression is Dictionary ==> (r matches Ok(v) ==> v is Dictionary),
        expression matches ExpressionType::Dictionary(d) ==> ((all_keys(old(ctx).store, scope as int, d.keys@)
            && all_plain(old(ctx).store, scope as int, d.values@)) ==> ({
            let n = if d.keys@.len() <= d.values@.len() { d.keys@.len() } else { d.values@.len() };
            let m = plain_dictionary(old(ctx).store, scope as int, d.keys@, d.values@, n);
            &&& r matches Ok(DataType::Dictionary(x))
            &&& x.index == old(ctx).store.dict_seq().len()
            &&& final(ctx).store.scope_seq() == old(ctx).store.scope_seq()
            &&& final(ctx).store.dict_seq()[x.index as int].view().dom() == m.dom()
            &&& forall|t: Seq<char>| #[trigger] m.contains_key(t) ==> denotes(final(ctx).store.dict_seq()[x.index as int].view()[t], m[t])
        })),
        expression is Property ==> (r matches Ok(v) ==> v is Function),
        expression matches ExpressionType::Accessor(a) ==> (*a.value matches ExpressionType::Identifier(id) ==> (
            old(ctx).store.lookup(scope as int, id.name@) matches Some(DataType::Dictionary(d)) ==> (
            d.index < old(ctx).store.dict_seq().len() ==> (
            plain_value(old(ctx).store, scope as int, *a.key) matches Some(PlainValue::Text(t)) ==> ({
            let held = old(ctx).store.dict_seq()[d.index as int].view();
            &&& *final(ctx) == *old(ctx)
            &&& r is Ok <==> held.contains_key(t)
            &&& r matches Ok(v) ==> v == held[t]
            &&& r matches Err(e) ==> e.spec_reason() == "Key '"@ + t + "' is not in the dictionary"@
        }))))),
        expression matches ExpressionType::UnaryOperation(u) ==> (r matches Ok(v) ==> (u.operator is Minus ==> v is Number)
            && (u.operator is Bang ==> v is Boolean)),
        expression matches ExpressionType::BinaryOperation(b) ==> (r matches Ok(v) ==> (
            (is_comparison(b.operator) || b.operator is And || b.operator is Or ==> v is Boolean)
            && (b.operator is Subtract || b.operator is Multiply || b.operator is Divide ==> v is Number)
            && (b.operator is Add ==> v is Number || v is String))),
        plain_value(old(ctx).store, scope as int, *expression) matches Some(p) ==> (*final(ctx) == *old(ctx)
            && (r matches Ok(v) && denotes(v, p))),
        expression matches ExpressionType::FunctionCall(c) ==> (r is Ok ==> (final(ctx).runs@.len() > 0
            && called_as_written(old(ctx).store, scope as int, *c, final(ctx).runs@.last(), r))),
    decreases depth, 1nat, expression, 0nat,
{
    match expression {
        ExpressionType::Literal(literal) => match literal {
            LiteralType::String(x) => Ok(DataType::String(x.clone())),
            LiteralType::Boolean(x) => Ok(DataType::Boolean(*x)),
            LiteralType::Undefined => Ok(DataType::Undefined),
            LiteralType::Number(text) => {
                let written = text.as_str();
                let parsed = ctx.host.parse_number(written);
                proof {
                    assert(written@ == text@);
                    assert(call_ensures(H::parse_number, (&ctx.host, written), parsed));
                }
                match parsed {
                    Some(n) => {
                        proof {
                            assert(call_ensures(H::parse_number, (&old(ctx).host, written), Some(n)));
                            assert(exists|t: &str| t@ == text@ && #[trigger] call_ensures(H::parse_number, (&old(ctx).host, t), Some(n)));
                            assert(parses_as(&old(ctx).host, text@, n));
                        }
                        Ok(DataType::Number(n))
                    },
                    None => Err(ExecutionError::from_string(CallInfo::new(""), cat3("Invalid number literal '", text.as_str(), "'"))),
                }
            },
        },
        ExpressionType::Identifier(identifier) => ctx.store.get_variable(scope, identifier.name.as_str()),
        ExpressionType::FunctionCall(call) => {
            let callee = interpret_expression(ctx, scope, &call.value, depth)?;
            match callee {
                DataType::Function(callable) => {
                    let parameters = interpret_expressions(ctx, scope, &call.parameters, depth)?;
                    if depth == 0 {
                        return Err(too_deep());
                    }
                    let ghost given = parameters@;
                    let r = call_callable(ctx, &callable, parameters, depth - 1);
                    assert(ctx.runs@.last() == (Run::Call { callable: callable, args: given, outcome: r }));
                    r
                },
                _ => Err(fail("Expression is not callable")),
            }
        },
        ExpressionType::FunctionDeclaration(declaration) => {
            let arguments = parameter_names(&declaration.parameters);
            let body = duplicate_statements(&declaration.body.statements);
            let index = ctx.store.new_function(FunctionDeclaration::new(None, arguments, body, scope));
            Ok(DataType::Function(Callable::new(None, Executable::Declared(index))))
        },
        ExpressionType::BinaryOperation(binary) => {
            let left = interpret_expression(ctx, scope, &binary.left, depth)?;
            let ghost left_value = left;
            let right = interpret_expression(ctx, scope, &binary.right, depth)?;
            let ghost right_value = right;
            let r = apply_binary(binary.operator, left, right, &ctx.host);
            proof {
                let l_e = *binary.left;
                let r_e = *binary.right;
                if (l_e is Identifier || l_e is Literal) && (r_e is Identifier || r_e is Literal) {
                    if let (DataType::Number(l), DataType::Number(x)) = (left_value, right_value) {
                        assert(gives_number(old(ctx), scope as int, l_e, l));
                        assert(gives_number(old(ctx), scope as int, r_e, x));
                    }
                }
            }
            r
        },
        ExpressionType::UnaryOperation(unary) => {
            let value = interpret_expression(ctx, scope, &unary.expression, depth)?;
            let ghost operand = value;
            let r = apply_unary(unary.operator, value, &ctx.host);
            proof {
                let e = *unary.expression;
                if e is Identifier || e is Literal {
                    if let DataType::Number(n) = operand {
                        assert(gives_number(old(ctx), scope as int, e, n));
                    }
                }
            }
            r
        },
        ExpressionType::List(list) => {
            let values = interpret_expressions(ctx, scope, &list.values, depth)?;
            Ok(DataType::List(ctx.store.new_list(values)))
        },
        ExpressionType::Dictionary(dictionary) => {
            let ghost before = ctx.store;
            let keys = interpret_dictionary_keys(ctx, scope, &dictionary.keys, depth)?;
            let values = interpret_expressions(ctx, scope, &dictionary.values, depth)?;
            let ghost plain = all_keys(before, scope as int, dictionary.keys@) && all_plain(
                before,
                scope as int,
                dictionary.values@,
            );
            let mut entries: Entries<DataType> = Entries::new();
            let mut i: usize = 0;
            while i < keys.len() && i < values.len()
                invariant
                    entries.wf(),
                    i <= keys@.len(),
                    i <= values@.len(),
                    keys@.len() == dictionary.keys@.len(),
                    values@.len() == dictionary.values@.len(),
                    plain ==> forall|k: int| 0 <= k < keys@.len() ==> (#[trigger] keys@[k])@ == key_of(before, scope as int, dictionary.keys@, k),
                    plain ==> forall|k: int| 0 <= k < values@.len() ==> denotes(#[trigger] values@[k], plain_value(before, scope as int, dictionary.values@[k])->0),
                    plain ==> ({
                        let m = plain_dictionary(before, scope as int, dictionary.keys@, dictionary.values@, i as nat);
                        &&& entries.view().dom() == m.dom()
                        &&& forall|t: Seq<char>| #[trigger] m.contains_key(t) ==> denotes(entries.view()[t], m[t])
                    }),
                decreases keys.len() - i,
            {
                let ghost m = plain_dictionary(before, scope as int, dictionary.keys@, dictionary.values@, i as nat);
                entries.insert(keys[i].clone(), values[i].duplicate());
                proof {
                    if plain {
                        let m2 = plain_dictionary(before, scope as int, dictionary.keys@, dictionary.values@, (i + 1) as nat);
                        assert(m2 == m.insert(key_of(before, scope as int, dictionary.keys@, i as int), plain_value(before, scope as int, dictionary.values@[i as int])->0));
                        assert(entries.view().dom() =~= m2.dom());
                    }
                }
                i = i + 1;
            }
            Ok(DataType::Dictionary(ctx.store.new_dictionary(DictionaryDeclaration::new(entries))))
        },
        ExpressionType::Accessor(accessor) => {
            let value = interpret_expression(ctx, scope, &accessor.value, depth)?;
            match value {
                DataType::List(l) => {
                    let key = interpret_expression(ctx, scope, &accessor.key, depth)?;
                    let index = list_index(key, &ctx.host)?;
                    match ctx.store.list(l) {
                        Some(list) => list.get(index),
                        None => Err(unknown_reference()),
                    }
                },
                DataType::Dictionary(d) => {
                    let key = interpret_expression(ctx, scope, &accessor.key, depth)?;
                    let text = dict_key_text(key, &ctx.host)?;
                    match ctx.store.dictionary(d) {
                        Some(dict) => {
                            if dict.has(text.as_str()) {
                                Ok(dict.get(text.as_str()))
                            } else {
                                Err(ExecutionError::from_string(CallInfo::new("get"), cat3("Key '", text.as_str(), "' is not in the dictionary")))
                            }
                        },
                        None => Err(unknown_reference()),
                    }
                },
                other => {
                    let shown = display_value(&ctx.store, &ctx.host, &other, DISPLAY_DEPTH);
                    Err(ExecutionError::from_string(CallInfo::new(""), cat("Can't use accessor on ", shown.as_str())))
                },
            }
        },
        ExpressionType::Property(property) => {
            let value = interpret_expression(ctx, scope, &property.value, depth)?;
            value.get_method(property.key.name.as_str(), &ctx.store, &ctx.host)
        },
    }
}

/// The values of expressions, evaluated in order.
pub fn interpret_expressions<G: GitRunner, T: TmuxRunner, H: Host>(
    ctx: &mut RuntimeContext<G, T, H>,
    scope: usize,
    expressions: &Vec<ExpressionType>,
    depth: usize,
) -> (r: Result<Vec<DataType>, ExecutionError>)
    requires
        old(ctx).wf(),
        scope < old(ctx).store.scope_seq().len(),
    ensures
        advances(old(ctx), final(ctx)),
        keeps_names(old(ctx), final(ctx)),
        all_call_nothing(expressions@) ==> final(ctx).store.scope_seq() == old(ctx).store.scope_seq(),
        all_call_nothing(expressions@) ==> keeps_containers(old(ctx).store, final(ctx).store),
        r matches Ok(v) ==> v@.len() == expressions@.len(),
        all_plain(old(ctx).store, scope as int, expressions@) ==> (*final(ctx) == *old(ctx) && (r matches Ok(v)
            && forall|k: int| 0 <= k < v@.len() ==> denotes(#[trigger] v@[k], plain_value(old(ctx).store, scope as int, expressions@[k])->0))),
    decreases depth, 1nat, expressions, 0nat,
{
    let mut values: Vec<DataType> = Vec::new();
    let mut i: usize = 0;
    while i < expressions.len()
        invariant
            i <= expressions.len(),
            values@.len() == i,
            scope < ctx.store.scope_seq().len(),
            advances(old(ctx), ctx),
            keeps_names(old(ctx), ctx),
            all_call_nothing(expressions@) ==> ctx.store.scope_seq() == old(ctx).store.scope_seq(),
            all_call_nothing(expressions@) ==> keeps_containers(old(ctx).store, ctx.store),
            all_plain(old(ctx).store, scope as int, expressions@) ==> (*ctx == *old(ctx)
                && forall|k: int| 0 <= k < i ==> denotes(#[trigger] values@[k], plain_value(old(ctx).store, scope as int, expressions@[k])->0)),
        decreases expressions.len() - i,
    {
        proof {
            assert(decreases_to!(expressions => expressions@[i as int]));
        }
        let value = interpret_expression(ctx, scope, &expressions[i], depth)?;
        values.push(value);
        i = i + 1;
    }
    Ok(values)
}

/// The key texts of a dictionary expression, evaluated in order.
fn interpret_dictionary_keys<G: GitRunner, T: TmuxRunner, H: Host>(
    ctx: &mut RuntimeContext<G, T, H>,
    scope: usize,
    keys: &Vec<ExpressionType>,
    depth: usize,
) -> (r: Result<Vec<String>, ExecutionError>)
    requires
        old(ctx).wf(),
        scope < old(ctx).store.scope_seq().len(),
    ensures
        advances(old(ctx), final(ctx)),
        keeps_names(old(ctx), final(ctx)),
        all_call_nothing(keys@) ==> final(ctx).store.scope_seq() == old(ctx).store.scope_seq(),
        all_call_nothing(keys@) ==> keeps_containers(old(ctx).store, final(ctx).store),
        r matches Ok(t) ==> t@.len() == keys@.len(),
        all_keys(old(ctx).store, scope as int, keys@) ==> (*final(ctx) == *old(ctx) && (r matches Ok(t)
            && forall|k: int| 0 <= k < t@.len() ==> (#[trigger] t@[k])@ == key_of(old(ctx).store, scope as int, keys@, k))),
    decreases depth, 1nat, keys, 0nat,
{
    let mut texts: Vec<String> = Vec::new();
    let mut i: usize = 0;
    while i < keys.len()
        invariant
            i <= keys.len(),
            texts@.len() == i,
            scope < ctx.store.scope_seq().len(),
            advances(old(ctx), ctx),
            keeps_names(old(ctx), ctx),
            all_call_nothing(keys@) ==> ctx.store.scope_seq() == old(ctx).store.scope_seq(),
            all_call_nothing(keys@) ==> keeps_containers(old(ctx).store, ctx.store),
            all_keys(old(ctx).store, scope as int, keys@) ==> (*ctx == *old(ctx)
                && forall|k: int| 0 <= k < i ==> (#[trigger] texts@[k])@ == key_of(old(ctx).store, scope as int, keys@, k)),
        decreases keys.len() - i,
    {
        proof {
            assert(decreases_to!(keys => keys@[i as int]));
        }
        let value = interpret_expression(ctx, scope, &keys[i], depth)?;
        let text = dictionary_key(&value, &ctx.host)?;
        texts.push(text);
        i = i + 1;
    }
    Ok(texts)
}

/// Gives a variable, or an element of a list or dictionary, a new value.
fn interpret_assignment<G: GitRunner, T: TmuxRunner, H: Host>(
    ctx: &mut RuntimeContext<G, T, H>,
    scope: usize,
    assignment: &AssignmentStatement,
    depth: usize,
) -> (r: Result<(), ExecutionError>)
    requires
        old(ctx).wf(),
        scope < old(ctx).store.scope_seq().len(),
    ensures
        advances(old(ctx), final(ctx)),
        keeps_names(old(ctx), final(ctx)),
        (assignment.identifier is Identifier && calls_nothing(assignment.value)) ==> keeps_containers(old(ctx).store, final(ctx).store),
        assignment.identifier matches ExpressionType::Accessor(a) ==> list_written_at(old(ctx), final(ctx).store, scope as int,
            *a.value, *a.key, assignment.value, r is Ok),
        assignment.identifier matches ExpressionType::Identifier(i) ==> (calls_nothing(assignment.value) ==> ({
            let d = declaring_scope(old(ctx).store.scope_seq(), scope as int, i.name@);
            &&& r is Ok ==> (0 <= d < old(ctx).store.scope_seq().len()
                && final(ctx).store.scope_seq()[d].view().dom() == old(ctx).store.scope_seq()[d].view().dom()
                && forall|j: int| 0 <= j < old(ctx).store.scope_seq().len() && j != d
                    ==> #[trigger] final(ctx).store.scope_seq()[j] == old(ctx).store.scope_seq()[j])
            &&& r is Ok ==> (final(ctx).store.lookup(scope as int, i.name@) matches Some(v)
                && final(ctx).store.scope_seq()[d].view() == old(ctx).store.scope_seq()[d].view().insert(i.name@, v)
                && (assignment.value is List ==> (v matches DataType::List(x) && x.index + 1 == final(ctx).store.list_seq().len())))
            &&& r is Err ==> final(ctx).store.scope_seq() == old(ctx).store.scope_seq()
        })),
        assignment.identifier matches ExpressionType::Identifier(i) ==> (
            plain_value(old(ctx).store, scope as int, assignment.value) matches Some(p) ==> (
            (r is Ok <==> old(ctx).store.lookup(scope as int, i.name@) is Some)
            && (r is Ok ==> (final(ctx).store.lookup(scope as int, i.name@) matches Some(x) && denotes(x, p))))),
        assignment.identifier matches ExpressionType::Accessor(a) ==> (*a.value matches ExpressionType::Identifier(id) ==> (
            old(ctx).store.lookup(scope as int, id.name@) matches Some(DataType::Dictionary(d)) ==> (
            d.index < old(ctx).store.dict_seq().len() ==> (
            plain_value(old(ctx).store, scope as int, *a.key) matches Some(pk) ==> (key_text(pk) matches Some(t) ==> (
            plain_value(old(ctx).store, scope as int, assignment.value) matches Some(p) ==> ({
            let before = old(ctx).store.dict_seq()[d.index as int].view();
            let after = final(ctx).store.dict_seq()[d.index as int].view();
            &&& r is Ok
            &&& final(ctx).store.scope_seq() == old(ctx).store.scope_seq()
            &&& after.dom() == before.dom().insert(t)
            &&& denotes(after[t], p)
            &&& forall|o: Seq<char>| o != t && #[trigger] before.contains_key(o) ==> after[o] == before[o]
        }))))))),
        assignment.identifier matches ExpressionType::Identifier(i) ==> ((makes_nothing(assignment.value) && r is Ok) ==> exists|x: DataType|
            #[trigger] value_of(old(ctx).store, scope as int, assignment.value, x) && rebound(old(ctx).store, final(ctx).store,
            declaring_scope(old(ctx).store.scope_seq(), scope as int, i.name@), i.name@, x)),
        assignment.identifier matches ExpressionType::Accessor(a) ==> (*a.value matches ExpressionType::Identifier(id) ==> (
            old(ctx).store.lookup(scope as int, id.name@) matches Some(DataType::List(l)) ==> ((*a.key is Literal
            && assignment.value is Literal) ==> list_written(old(ctx).store, final(ctx).store, l.index as int,
            assignment.value, r is Ok)))),
    decreases depth, 1nat, assignment, 0nat,
{
    let value = interpret_expression(ctx, scope, &assignment.value, depth)?;
    match &assignment.identifier {
        ExpressionType::Identifier(identifier) => {
            let ghost held = value;
            let r = ctx.store.update_variable(scope, identifier.name.as_str(), value);
            proof {
                if makes_nothing(assignment.value) && r is Ok {
                    assert(value_of(old(ctx).store, scope as int, assignment.value, held));
                }
            }
            r
        },
        ExpressionType::Accessor(accessor) => {
            let storage = interpret_expression(ctx, scope, &accessor.value, depth)?;
            match storage {
                DataType::List(l) => {
                    let key = interpret_expression(ctx, scope, &accessor.key, depth)?;
                    let ghost key_value = key;
                    let index = list_index(key, &ctx.host)?;
                    let ghost given = value;
                    let r = ctx.store.list_set(l, index, value);
                    let ghost key_expression = *accessor.key;
                    proof {
                        if let ExpressionType::Literal(LiteralType::Number(text)) = key_expression {
                            if let DataType::Number(p) = key_value {
                                if assignment.value is Literal && r is Ok && *accessor.value is Identifier {
                                    assert(parses_as(&old(ctx).host, text@, p));
                                    assert(call_ensures(H::number_to_index, (&old(ctx).host, p), Some(index)));
                                    assert(literal_gives(assignment.value, given));
                                }
                            }
                        }
                    }
                    r
                },
                DataType::Dictionary(d) => {
                    let key = interpret_expression(ctx, scope, &accessor.key, depth)?;
                    ctx.store.dict_set(d, &key, value, &ctx.host)
                },
                _ => Err(fail("Invalid use of accessor")),
            }
        },
        _ => Err(fail("Expression is not assignable")),
    }
}

/// The `if` statement `s` ran in `scope`, where the run recorded `runs` and left `store`,
/// with the outcome `r`: its condition was evaluated; where it gave `false` the outcome is
/// `Void`, where it gave no boolean an error, where it failed its error; where it gave
/// `true`, the body ran after it in a new scope whose parent is `scope`, and its outcome is
/// the body's.
pub open spec fn if_ran(
    s: IfStatement,
    scope: nat,
    scopes_before: int,
    store: Store,
    runs: Seq<Run>,
    r: Result<StatementResult, ExecutionError>,
) -> bool {
    runs.len() > 0 && match runs.last() {
        Run::Condition { expression, scope: c, outcome } => expression == s.condition && c == scope && match outcome {
            Ok(DataType::Boolean(b)) => !b && r == Ok::<StatementResult, ExecutionError>(StatementResult::Void),
            Ok(_) => r matches Err(e) && e.spec_reason() == "Condition of if statement does not result in a boolean"@,
            Err(e) => r == Err::<StatementResult, ExecutionError>(e),
        },
        Run::Block { statements, scope: b, outcome } => {
            &&& statements == s.body.statements@
            &&& outcome == r
            &&& scopes_before <= b < store.scope_seq().len()
            &&& store.scope_seq()[b as int].parent == Some(scope as usize)
            &&& exists|m: int| 0 <= m < runs.len() - 1 && #[trigger] runs[m] == (Run::Condition {
                expression: s.condition,
                scope,
                outcome: Ok(DataType::Boolean(true)),
            })
        },
        _ => false,
    }
}

/// The error of a program that ran out of loop rounds.
pub open spec fn out_of_rounds(r: Result<StatementResult, ExecutionError>) -> bool {
    r matches Err(e) && e.spec_reason() == "The program ran out of loop rounds"@
}

/// The last run is the body of the loop `s`, run in a new scope whose parent is `scope`, and
/// it ended plainly or continued: the loop goes on.
pub open spec fn went_on(s: While, scope: nat, scopes_before: int, store: Store, runs: Seq<Run>) -> bool {
    runs.len() > 0 && match runs.last() {
        Run::Block { statements, scope: b, outcome } => {
            &&& statements == s.body.statements@
            &&& scopes_before <= b < store.scope_seq().len()
            &&& store.scope_seq()[b as int].parent == Some(scope as usize)
            &&& (outcome == Ok::<StatementResult, ExecutionError>(StatementResult::Void)
                || outcome == Ok::<StatementResult, ExecutionError>(StatementResult::Continue))
        },
        _ => false,
    }
}

/// The `while` loop `s` ran in `scope`, where the run had recorded `started` runs before it,
/// recorded `runs` and left `store`, with the outcome `r`. Each round evaluates the condition
/// and, where it gives `true`, runs the body in a new scope whose parent is `scope`. The
/// loop ends with the last thing it ran: a condition that gave `false` (`Void`), no boolean
/// or an error; a body that returned (its value), broke (`Void`) or failed. A body that ended
/// plainly or continued is followed by another round, unless the rounds ran out.
pub open spec fn while_ran(
    s: While,
    scope: nat,
    scopes_before: int,
    store: Store,
    started: int,
    runs: Seq<Run>,
    r: Result<StatementResult, ExecutionError>,
) -> bool {
    if runs.len() == started {
        out_of_rounds(r)
    } else {
        runs.len() > 0 && match runs.last() {
            Run::Condition { expression, scope: c, outcome } => expression == s.condition && c == scope && match outcome {
                Ok(DataType::Boolean(b)) => !b && r == Ok::<StatementResult, ExecutionError>(StatementResult::Void),
                Ok(_) => r matches Err(e) && e.spec_reason() == "Condition of while statement does not result in a boolean"@,
                Err(e) => r == Err::<StatementResult, ExecutionError>(e),
            },
            Run::Block { statements, scope: b, outcome } => {
                &&& statements == s.body.statements@
                &&& scopes_before <= b < store.scope_seq().len()
                &&& store.scope_seq()[b as int].parent == Some(scope as usize)
                &&& match outcome {
                    Ok(StatementResult::Return(v)) => r == Ok::<StatementResult, ExecutionError>(StatementResult::Return(v)),
                    Ok(StatementResult::Break) => r == Ok::<StatementResult, ExecutionError>(StatementResult::Void),
                    Ok(_) => out_of_rounds(r),
                    Err(e) => r == Err::<StatementResult, ExecutionError>(e),
                }
            },
            _ => false,
        }
    }
}

/// A statement that calls no function, assigns to no variable, declares no function and
/// loops not: it can only declare variables, in its own scope or in scopes it makes.
pub open spec fn quiet(s: StatementType) -> bool
    decreases s,
{
    match s {
        StatementType::VariableDeclaration(v) => calls_nothing(v.value),
        StatementType::Return(e) => calls_nothing(e),
        StatementType::Expression(ExpressionStatement::Inline(e)) => calls_nothing(e),
        StatementType::IfStatement(i) => calls_nothing(i.condition) && forall|k: int|
            0 <= k < i.body.statements@.len() ==> quiet(#[trigger] i.body.statements@[k]),
        StatementType::Break => true,
        StatementType::Continue => true,
        _ => false,
    }
}

/// Every variable of `before` holds in `after` what it held.
pub open spec fn keeps_values(before: Store, after: Store) -> bool {
    &&& after.scope_seq().len() >= before.scope_seq().len()
    &&& forall|j: int, n: Seq<char>| 0 <= j < before.scope_seq().len() && #[trigger] before.scope_seq()[j].view().contains_key(n)
        ==> after.scope_seq()[j].view().contains_key(n) && after.scope_seq()[j].view()[n] == before.scope_seq()[j].view()[n]
}

/// `v` is a value the literal `e` can give: its text or truth, `undefined`, or a number.
pub open spec fn literal_gives(e: ExpressionType, v: DataType) -> bool {
    match e {
        ExpressionType::Literal(LiteralType::String(s)) => v == DataType::String(s),
        ExpressionType::Literal(LiteralType::Boolean(b)) => v == DataType::Boolean(b),
        ExpressionType::Literal(LiteralType::Undefined) => v is Undefined,
        ExpressionType::Literal(LiteralType::Number(_)) => v is Number,
        _ => true,
    }
}

/// Where `value[key] = v` writes to a list that `value` names, with a number literal `key`
/// and a literal `v`, and succeeds: it writes the value of `v` at the index the host says the
/// key's number denotes.
pub open spec fn list_written_at<G: GitRunner, T: TmuxRunner, H: Host>(
    ctx: &RuntimeContext<G, T, H>,
    after: Store,
    scope: int,
    value: ExpressionType,
    key: ExpressionType,
    v: ExpressionType,
    ok: bool,
) -> bool {
    value matches ExpressionType::Identifier(id) ==> (ctx.store.lookup(scope, id.name@) matches Some(DataType::List(l)) ==> (
        key matches ExpressionType::Literal(LiteralType::Number(text)) ==> ((v is Literal && ok) ==> exists|p: NumberValue, i: usize|
            #[trigger] parses_as(&ctx.host, text@, p) && #[trigger] call_ensures(H::number_to_index, (&ctx.host, p), Some(i))
            && l.index < ctx.store.list_seq().len() && i < ctx.store.list_seq()[l.index as int].values@.len()
            && exists|x: DataType| literal_gives(v, x) && #[trigger] after.list_seq()[l.index as int].values@
                == ctx.store.list_seq()[l.index as int].values@.update(i as int, x))))
}

/// The assignment of the literal `value` to an element of the list `list` changed that one
/// element of it, where it succeeded, and nothing else: every variable that holds the list
/// sees the new element.
pub open spec fn list_written(before: Store, after: Store, list: int, value: ExpressionType, ok: bool) -> bool {
    &&& after.scope_seq() == before.scope_seq()
    &&& after.list_seq().len() == before.list_seq().len()
    &&& forall|j: int| 0 <= j < before.list_seq().len() && j != list ==> #[trigger] after.list_seq()[j] == before.list_seq()[j]
    &&& !ok ==> after.list_seq() == before.list_seq()
    &&& ok ==> (0 <= list < before.list_seq().len() && exists|k: int, v: DataType| 0 <= k < before.list_seq()[list].values@.len()
        && #[trigger] after.list_seq()[list].values@ == before.list_seq()[list].values@.update(k, v) && literal_gives(value, v))
}

/// Runs a statement in `scope`.
pub fn interpret_statement<G: GitRunner, T: TmuxRunner, H: Host>(
    ctx: &mut RuntimeContext<G, T, H>,
    scope: usize,
    statement: &StatementType,
    depth: usize,
) -> (r: Result<StatementResult, ExecutionError>)
    requires
        old(ctx).wf(),
        scope < old(ctx).store.scope_seq().len(),
    ensures
        advances(old(ctx), final(ctx)),
        keeps_names_except(old(ctx), final(ctx), scope as int),
        !(statement is VariableDeclaration || statement is FunctionDeclaration) ==> keeps_names(old(ctx), final(ctx)),
        statement matches StatementType::VariableDeclaration(v) ==> (calls_nothing(v.value) ==> keeps_containers(
            old(ctx).store, final(ctx).store)),
        statement matches StatementType::Expression(ExpressionStatement::Assignment(a)) ==> ((a.identifier is Identifier
            && calls_nothing(a.value)) ==> keeps_containers(old(ctx).store, final(ctx).store)),
        statement matches StatementType::VariableDeclaration(v) ==> final(ctx).store.scope_seq()[scope as int].view().dom()
            <= old(ctx).store.scope_seq()[scope as int].view().dom().insert(v.identifier@),
        statement matches StatementType::FunctionDeclaration(f) ==> final(ctx).store.scope_seq()[scope as int].view().dom()
            <= old(ctx).store.scope_seq()[scope as int].view().dom().insert(f.identifier@),
        statement is Break ==> r matches Ok(StatementResult::Break),
        statement matches StatementType::VariableDeclaration(v) ==> (old(ctx).store.scope_seq()[scope as int].view().contains_key(
            v.identifier@) ==> r is Err),
        statement matches StatementType::VariableDeclaration(v) ==> ((calls_nothing(v.value) && r is Err)
            ==> final(ctx).store.scope_seq() == old(ctx).store.scope_seq()),
        statement matches StatementType::Expression(ExpressionStatement::Assignment(a)) ==> (a.identifier matches ExpressionType::Identifier(i) ==> (calls_nothing(a.value) ==> ({
            let d = declaring_scope(old(ctx).store.scope_seq(), scope as int, i.name@);
            &&& r is Ok ==> (0 <= d < old(ctx).store.scope_seq().len()
                && final(ctx).store.scope_seq()[d].view().dom() == old(ctx).store.scope_seq()[d].view().dom()
                && forall|j: int| 0 <= j < old(ctx).store.scope_seq().len() && j != d
                    ==> #[trigger] final(ctx).store.scope_seq()[j] == old(ctx).store.scope_seq()[j])
            &&& r is Err ==> final(ctx).store.scope_seq() == old(ctx).store.scope_seq()
        }))),
        statement is Continue ==> r matches Ok(StatementResult::Continue),
        statement matches StatementType::VariableDeclaration(v) ==> (r is Ok ==> (final(ctx).store.lookup(scope as int, v.identifier@)
            matches Some(x) && ((v.value is List ==> (x matches DataType::List(l) && l.index + 1 == final(ctx).store.list_seq().len()))
            && (v.value is Dictionary ==> x is Dictionary) && (v.value is FunctionDeclaration ==> x is Function)))),
        quiet(*statement) ==> keeps_values(old(ctx).store, final(ctx).store),
        simple_statement(*statement) ==> (r matches Ok(o) ==> exists|t: Trace| #[trigger] statement_runs_to(
            old(ctx).store, scope as int, *statement, final(ctx).store, o, t)),
        statement matches StatementType::IfStatement(s) ==> if_ran(*s, scope as nat, old(ctx).store.scope_seq().len() as int,
            final(ctx).store, final(ctx).runs@.drop_last(), r),
        statement matches StatementType::While(s) ==> while_ran(*s, scope as nat, old(ctx).store.scope_seq().len() as int,
            final(ctx).store, old(ctx).runs@.len() as int, final(ctx).runs@.drop_last(), r),
        statement matches StatementType::Expression(ExpressionStatement::Assignment(a)) ==> (a.identifier matches ExpressionType::Accessor(x) ==> (
            *x.value matches ExpressionType::Identifier(id) ==> (old(ctx).store.lookup(scope as int, id.name@) matches Some(DataType::List(l)) ==> (
            (*x.key is Literal && a.value is Literal) ==> list_written(old(ctx).store, final(ctx).store, l.index as int, a.value, r is Ok))))),
        statement matches StatementType::VariableDeclaration(v) ==> (r is Ok ==> final(ctx).store.lookup(
            scope as int,
            v.identifier@,
        ) is Some),
        statement matches StatementType::FunctionDeclaration(f) ==> (r is Ok <==> !old(ctx).store.scope_seq()[scope as int].view().contains_key(f.identifier@)),
        statement matches StatementType::FunctionDeclaration(f) ==> (r is Ok ==> declares_function(old(ctx), final(ctx), Some(f.identifier), &f.arguments, scope)
            && final(ctx).store.lookup(scope as int, f.identifier@) == Some(DataType::Function(Callable {
                name: Some(f.identifier),
                function: Executable::Declared(old(ctx).store.function_seq().len() as usize),
                receiver: None,
            }))),
        statement is Return ==> (r matches Ok(x) ==> x is Return),
        statement is VariableDeclaration ==> (r matches Ok(x) ==> x is Void),
        statement is Expression ==> (r matches Ok(x) ==> x is Void),
        statement is While ==> (r matches Ok(x) ==> (x is Void || x is Return)),
        statement matches StatementType::VariableDeclaration(v) ==> (plain_value(old(ctx).store, scope as int, v.value) matches Some(p) ==> (
            (r is Ok <==> !old(ctx).store.scope_seq()[scope as int].view().contains_key(v.identifier@))
            && (r is Ok ==> (final(ctx).store.lookup(scope as int, v.identifier@) matches Some(x) && denotes(x, p))))),
        statement matches StatementType::Expression(ExpressionStatement::Assignment(a)) ==> (a.identifier matches ExpressionType::Identifier(i) ==> (
            plain_value(old(ctx).store, scope as int, a.value) matches Some(p) ==> (
            (r is Ok <==> old(ctx).store.lookup(scope as int, i.name@) is Some)
            && (r is Ok ==> (final(ctx).store.lookup(scope as int, i.name@) matches Some(x) && denotes(x, p)))))),
        statement matches StatementType::Expression(ExpressionStatement::Inline(e)) ==> (plain_value(old(ctx).store, scope as int, *e) is Some ==> (
            r matches Ok(StatementResult::Void) && only_runs(old(ctx), final(ctx)))),
        statement matches StatementType::Return(e) ==> (plain_value(old(ctx).store, scope as int, *e) matches Some(p) ==> (
            only_runs(old(ctx), final(ctx)) && (r matches Ok(StatementResult::Return(v)) && denotes(v, p)))),
        statement matches StatementType::IfStatement(s) ==> (plain_value(old(ctx).store, scope as int, s.condition) matches Some(p) ==> (
            (p == PlainValue::Truth(false) ==> (r matches Ok(StatementResult::Void) && only_runs(old(ctx), final(ctx))))
            && (p == PlainValue::Truth(true) ==> (old(ctx).store.scope_seq().len() < final(ctx).store.scope_seq().len()
                && final(ctx).store.scope_seq()[old(ctx).store.scope_seq().len() as int].parent == Some(scope)
                && final(ctx).runs@.len() > 1
                && final(ctx).runs@[final(ctx).runs@.len() - 2] == (Run::Block {
                    statements: s.body.statements@,
                    scope: old(ctx).store.scope_seq().len(),
                    outcome: r,
                })))
            && (!(p is Truth) ==> r is Err))),
        statement matches StatementType::While(s) ==> (plain_value(old(ctx).store, scope as int, s.condition) matches Some(p) ==> (
            (p == PlainValue::Truth(false) ==> (old(ctx).steps > 0 <==> r matches Ok(StatementResult::Void)))
            && (!(p is Truth) ==> r is Err))),
        final(ctx).runs@.len() > old(ctx).runs@.len(),
        final(ctx).runs@.last() == (Run::Statement { statement: *statement, scope: scope as nat, outcome: r }),
    decreases depth, 1nat, statement, 1nat,
{
    let r = run_statement(ctx, scope, statement, depth);
    proof {
        let before = ctx.runs@;
        ctx.runs@ = ctx.runs@.push(Run::Statement { statement: *statement, scope: scope as nat, outcome: r });
        assert(before.is_prefix_of(ctx.runs@));
    }
    r
}

/// What running a statement does, before it is recorded.
fn run_statement<G: GitRunner, T: TmuxRunner, H: Host>(
    ctx: &mut RuntimeContext<G, T, H>,
    scope: usize,
    statement: &StatementType,
    depth: usize,
) -> (r: Result<StatementResult, ExecutionError>)
    requires
        old(ctx).wf(),
        scope < old(ctx).store.scope_seq().len(),
    ensures
        advances(old(ctx), final(ctx)),
        keeps_names_except(old(ctx), final(ctx), scope as int),
        !(statement is VariableDeclaration || statement is FunctionDeclaration) ==> keeps_names(old(ctx), final(ctx)),
        statement matches StatementType::VariableDeclaration(v) ==> (calls_nothing(v.value) ==> keeps_containers(
            old(ctx).store, final(ctx).store)),
        statement matches StatementType::Expression(ExpressionStatement::Assignment(a)) ==> ((a.identifier is Identifier
            && calls_nothing(a.value)) ==> keeps_containers(old(ctx).store, final(ctx).store)),
        statement matches StatementType::VariableDeclaration(v) ==> final(ctx).store.scope_seq()[scope as int].view().dom()
            <= old(ctx).store.scope_seq()[scope as int].view().dom().insert(v.identifier@),
        statement matches StatementType::FunctionDeclaration(f) ==> final(ctx).store.scope_seq()[scope as int].view().dom()
            <= old(ctx).store.scope_seq()[scope as int].view().dom().insert(f.identifier@),
        statement is Break ==> r matches Ok(StatementResult::Break),
        statement matches StatementType::VariableDeclaration(v) ==> (old(ctx).store.scope_seq()[scope as int].view().contains_key(
            v.identifier@) ==> r is Err),
        statement matches StatementType::VariableDeclaration(v) ==> ((calls_nothing(v.value) && r is Err)
            ==> final(ctx).store.scope_seq() == old(ctx).store.scope_seq()),
        statement matches StatementType::Expression(ExpressionStatement::Assignment(a)) ==> (a.identifier matches ExpressionType::Identifier(i) ==> (calls_nothing(a.value) ==> ({
            let d = declaring_scope(old(ctx).store.scope_seq(), scope as int, i.name@);
            &&& r is Ok ==> (0 <= d < old(ctx).store.scope_seq().len()
                && final(ctx).store.scope_seq()[d].view().dom() == old(ctx).store.scope_seq()[d].view().dom()
                && forall|j: int| 0 <= j < old(ctx).store.scope_seq().len() && j != d
                    ==> #[trigger] final(ctx).store.scope_seq()[j] == old(ctx).store.scope_seq()[j])
            &&& r is Err ==> final(ctx).store.scope_seq() == old(ctx).store.scope_seq()
        }))),
        statement is Continue ==> r matches Ok(StatementResult::Continue),
        statement matches StatementType::VariableDeclaration(v) ==> (r is Ok ==> (final(ctx).store.lookup(scope as int, v.identifier@)
            matches Some(x) && ((v.value is List ==> (x matches DataType::List(l) && l.index + 1 == final(ctx).store.list_seq().len()))
            && (v.value is Dictionary ==> x is Dictionary) && (v.value is FunctionDeclaration ==> x is Function)))),
        quiet(*statement) ==> keeps_values(old(ctx).store, final(ctx).store),
        simple_statement(*statement) ==> (r matches Ok(o) ==> exists|t: Trace| #[trigger] statement_runs_to(
            old(ctx).store, scope as int, *statement, final(ctx).store, o, t)),
        statement matches StatementType::IfStatement(s) ==> if_ran(*s, scope as nat, old(ctx).store.scope_seq().len() as int,
            final(ctx).store, final(ctx).runs@, r),
        statement matches StatementType::While(s) ==> while_ran(*s, scope as nat, old(ctx).store.scope_seq().len() as int,
            final(ctx).store, old(ctx).runs@.len() as int, final(ctx).runs@, r),
        statement matches StatementType::Expression(ExpressionStatement::Assignment(a)) ==> (a.identifier matches ExpressionType::Accessor(x) ==> (
            *x.value matches ExpressionType::Identifier(id) ==> (old(ctx).store.lookup(scope as int, id.name@) matches Some(DataType::List(l)) ==> (
            (*x.key is Literal && a.value is Literal) ==> list_written(old(ctx).store, final(ctx).store, l.index as int, a.value, r is Ok))))),
        statement matches StatementType::VariableDeclaration(v) ==> (r is Ok ==> final(ctx).store.lookup(
            scope as int,
            v.identifier@,
        ) is Some),
        statement matches StatementType::FunctionDeclaration(f) ==> (r is Ok <==> !old(ctx).store.scope_seq()[scope as int].view().contains_key(f.identifier@)),
        statement matches StatementType::FunctionDeclaration(f) ==> (r is Ok ==> declares_function(old(ctx), final(ctx), Some(f.identifier), &f.arguments, scope)
            && final(ctx).store.lookup(scope as int, f.identifier@) == Some(DataType::Function(Callable {
                name: Some(f.identifier),
                function: Executable::Declared(old(ctx).store.function_seq().len() as usize),
                receiver: None,
            }))),
        statement is Return ==> (r matches Ok(x) ==> x is Return),
        statement is VariableDeclaration ==> (r matches Ok(x) ==> x is Void),
        statement is Expression ==> (r matches Ok(x) ==> x is Void),
        statement is While ==> (r matches Ok(x) ==> (x is Void || x is Return)),
        statement matches StatementType::VariableDeclaration(v) ==> (plain_value(old(ctx).store, scope as int, v.value) matches Some(p) ==> (
            (r is Ok <==> !old(ctx).store.scope_seq()[scope as int].view().contains_key(v.identifier@))
            && (r is Ok ==> (final(ctx).store.lookup(scope as int, v.identifier@) matches Some(x) && denotes(x, p))))),
        statement matches StatementType::Expression(ExpressionStatement::Assignment(a)) ==> (a.identifier matches ExpressionType::Identifier(i) ==> (
            plain_value(old(ctx).store, scope as int, a.value) matches Some(p) ==> (
            (r is Ok <==> old(ctx).store.lookup(scope as int, i.name@) is Some)
            && (r is Ok ==> (final(ctx).store.lookup(scope as int, i.name@) matches Some(x) && denotes(x, p)))))),
        statement matches StatementType::Expression(ExpressionStatement::Inline(e)) ==> (plain_value(old(ctx).store, scope as int, *e) is Some ==> (
            r matches Ok(StatementResult::Void) && *final(ctx) == *old(ctx))),
        statement matches StatementType::Return(e) ==> (plain_value(old(ctx).store, scope as int, *e) matches Some(p) ==> (
            *final(ctx) == *old(ctx) && (r matches Ok(StatementResult::Return(v)) && denotes(v, p)))),
        statement matches StatementType::IfStatement(s) ==> (plain_value(old(ctx).store, scope as int, s.condition) matches Some(p) ==> (
            (p == PlainValue::Truth(false) ==> (r matches Ok(StatementResult::Void) && only_runs(old(ctx), final(ctx))))
            && (p == PlainValue::Truth(true) ==> (old(ctx).store.scope_seq().len() < final(ctx).store.scope_seq().len()
                && final(ctx).store.scope_seq()[old(ctx).store.scope_seq().len() as int].parent == Some(scope)
                && final(ctx).runs@.len() > 0
                && final(ctx).runs@.last() == (Run::Block {
                    statements: s.body.statements@,
                    scope: old(ctx).store.scope_seq().len(),
                    outcome: r,
                })))
            && (!(p is Truth) ==> r is Err))),
        statement matches StatementType::While(s) ==> (plain_value(old(ctx).store, scope as int, s.condition) matches Some(p) ==> (
            (p == PlainValue::Truth(false) ==> (old(ctx).steps > 0 <==> r matches Ok(StatementResult::Void)))
            && (!(p is Truth) ==> r is Err))),
    decreases depth, 1nat, statement, 0nat,
{
    let ghost whole: StatementType = *statement;
    match statement {
        StatementType::VariableDeclaration(declaration) => {
            let value = interpret_expression(ctx, scope, &declaration.value, depth)?;
            let ghost held = value;
            ctx.store.set_variable(scope, declaration.identifier.clone(), value)?;
            proof {
                if simple_statement(*statement) {
                    assert(statement_runs_to(old(ctx).store, scope as int, *statement, ctx.store, StatementResult::Void, Trace::Value(held)));
                }
            }
            Ok(StatementResult::Void)
        },
        StatementType::FunctionDeclaration(declaration) => {
            let arguments = parameter_names(&declaration.arguments);
            let body = duplicate_statements(&declaration.body.statements);
            let index = ctx.store.new_function(
                FunctionDeclaration::new(Some(declaration.identifier.clone()), arguments, body, scope),
            );
            let callable = Callable::new(Some(declaration.identifier.clone()), Executable::Declared(index));
            ctx.store.set_variable(scope, declaration.identifier.clone(), DataType::Function(callable))?;
            Ok(StatementResult::Void)
        },
        StatementType::Return(expression) => {
            let value = interpret_expression(ctx, scope, expression, depth)?;
            proof {
                if simple_statement(*statement) {
                    assert(statement_runs_to(old(ctx).store, scope as int, *statement, ctx.store, StatementResult::Return(value), Trace::Value(value)));
                }
            }
            Ok(StatementResult::Return(value))
        },
        StatementType::IfStatement(statement) => {
            let evaluated = interpret_expression(ctx, scope, &statement.condition, depth);
            proof {
                let before = ctx.runs@;
                ctx.runs@ = ctx.runs@.push(Run::Condition { expression: statement.condition, scope: scope as nat, outcome: evaluated });
                assert(before.is_prefix_of(ctx.runs@));
            }
            let ghost mark = ctx.runs@.len() - 1;
            let ghost scopes_before = ctx.store.scope_seq().len();
            let condition = match evaluated {
                Ok(c) => c,
                Err(e) => return Err(e),
            };
            match condition {
                DataType::Boolean(should_execute) => {
                    if !should_execute {
                        proof {
                            if simple_statement(whole) {
                                assert(statement_runs_to(old(ctx).store, scope as int, whole, ctx.store, StatementResult::Void, Trace::Nothing));
                            }
                        }
                        return Ok(StatementResult::Void);
                    }
                    let block_scope = ctx.store.new_scope(Some(scope));
                    let ghost opened_store = ctx.store;
                    let ghost runs_before = ctx.runs@;
                    let r = execute_statements(ctx, block_scope, &statement.body.statements, depth);
                    proof {
                        lemma_runs_kept(runs_before, ctx.runs@, seq![mark]);
                        assert(seq![mark][0] == mark);
                        if simple_statement(whole) && r is Ok {
                            assert(simple_block(statement.body.statements@));
                            let steps = choose|steps: Seq<Step>| block_runs_to(opened_store, block_scope as int,
                                statement.body.statements@, steps, ctx.store, r->Ok_0);
                            assert(opened(old(ctx).store, opened_store, scope as int));
                            assert(statement_runs_to(old(ctx).store, scope as int, whole, ctx.store, r->Ok_0,
                                Trace::Body(opened_store, steps)));
                        }
                    }
                    r
                },
                _ => Err(fail("Condition of if statement does not result in a boolean")),
            }
        },
        StatementType::Expression(expression) => match expression {
            ExpressionStatement::Assignment(assignment) => {
                interpret_assignment(ctx, scope, assignment, depth)?;
                proof {
                    if simple_statement(*statement) {
                        let name = assignment.identifier->Identifier_0.name@;
                        let x = choose|x: DataType| #[trigger] value_of(old(ctx).store, scope as int, assignment.value, x)
                            && rebound(old(ctx).store, ctx.store, declaring_scope(old(ctx).store.scope_seq(), scope as int, name), name, x);
                        assert(statement_runs_to(old(ctx).store, scope as int, *statement, ctx.store, StatementResult::Void, Trace::Value(x)));
                    }
                }
                Ok(StatementResult::Void)
            },
            ExpressionStatement::Inline(expression) => {
                interpret_expression(ctx, scope, expression, depth)?;
                proof {
                    if simple_statement(*statement) {
                        assert(statement_runs_to(old(ctx).store, scope as int, *statement, ctx.store, StatementResult::Void, Trace::Nothing));
                    }
                }
                Ok(StatementResult::Void)
            },
        },
        StatementType::While(statement) => {
            let ghost mut first = true;
            let ghost scopes_before = old(ctx).store.scope_seq().len() as int;
            #[verifier::loop_isolation(false)]
            loop
                invariant
                    scope < ctx.store.scope_seq().len(),
                    advances(old(ctx), ctx),
                    keeps_names(old(ctx), ctx),
                    first ==> ctx.store == old(ctx).store && ctx.steps == old(ctx).steps,
                    first ==> ctx.runs@ == old(ctx).runs@,
                    !first ==> went_on(*statement, scope as nat, scopes_before, ctx.store, ctx.runs@),
                    plain_value(old(ctx).store, scope as int, statement.condition) matches Some(p) ==> (
                        p != PlainValue::Truth(true) ==> first),
                decreases ctx.steps,
            {
                if ctx.steps == 0 {
                    return Err(fail("The program ran out of loop rounds"));
                }
                ctx.steps = ctx.steps - 1;
                let evaluated = interpret_expression(ctx, scope, &statement.condition, depth);
                proof {
                    let before = ctx.runs@;
                    ctx.runs@ = ctx.runs@.push(Run::Condition { expression: statement.condition, scope: scope as nat, outcome: evaluated });
                    assert(before.is_prefix_of(ctx.runs@));
                }
                let condition = match evaluated {
                    Ok(c) => c,
                    Err(e) => return Err(e),
                };
                match condition {
                    DataType::Boolean(should_execute) => {
                        if !should_execute {
                            break;
                        }
                        let block_scope = ctx.store.new_scope(Some(scope));
                        proof {
                            first = false;
                        }
                        let outcome = execute_statements(ctx, block_scope, &statement.body.statements, depth);
                        match outcome {
                            Err(e) => {
                                return Err(e);
                            },
                            Ok(StatementResult::Return(v)) => {
                                return Ok(StatementResult::Return(v));
                            },
                            Ok(StatementResult::Break) => {
                                break;
                            },
                            _ => {},
                        }
                    },
                    _ => {
                        return Err(fail("Condition of while statement does not result in a boolean"));
                    },
                }
            }
            Ok(StatementResult::Void)
        },
        StatementType::Break => {
            assert(statement_runs_to(old(ctx).store, scope as int, whole, ctx.store, StatementResult::Break, Trace::Nothing));
            Ok(StatementResult::Break)
        },
        StatementType::Continue => {
            assert(statement_runs_to(old(ctx).store, scope as int, whole, ctx.store, StatementResult::Continue, Trace::Nothing));
            Ok(StatementResult::Continue)
        },
    }
}

/// The runs at `marks`, in order, are the statements `statements` run in `scope`, each of
/// which ended without returning, breaking or continuing.
pub open spec fn ran_plainly(statements: Seq<StatementType>, scope: nat, runs: Seq<Run>, marks: Seq<int>) -> bool {
    &&& marks.len() == statements.len()
    &&& forall|k: int| 0 <= k < marks.len() ==> 0 <= #[trigger] marks[k] < runs.len()
    &&& forall|k: int, j: int| 0 <= k < j < marks.len() ==> #[trigger] marks[k] < #[trigger] marks[j]
    &&& forall|k: int| 0 <= k < marks.len() ==> runs[#[trigger] marks[k]] == (Run::Statement {
        statement: statements[k],
        scope,
        outcome: Ok(StatementResult::Void),
    })
}

/// The runs at `marks` show a block of `statements` run in `scope` to the outcome `r`: the
/// statements ran in order, all of them where `r` is `Void`; else the last one that ran gave
/// `r` and those before it ended plainly.
pub open spec fn ran_block(
    statements: Seq<StatementType>,
    scope: nat,
    runs: Seq<Run>,
    marks: Seq<int>,
    r: Result<StatementResult, ExecutionError>,
) -> bool {
    if r == Ok::<StatementResult, ExecutionError>(StatementResult::Void) {
        ran_plainly(statements, scope, runs, marks)
    } else {
        &&& 0 < marks.len() <= statements.len()
        &&& ran_plainly(statements.take(marks.len() - 1), scope, runs, marks.drop_last())
        &&& marks.drop_last().len() > 0 ==> marks.drop_last().last() < marks.last()
        &&& 0 <= marks.last() < runs.len()
        &&& runs[marks.last()] == (Run::Statement { statement: statements[marks.len() - 1], scope, outcome: r })
    }
}

/// The runs at `marks`, in order, are the statements `statements` run in `scope`, each of
/// which succeeded.
pub open spec fn ran_through(statements: Seq<StatementType>, scope: nat, runs: Seq<Run>, marks: Seq<int>) -> bool {
    &&& marks.len() == statements.len()
    &&& forall|k: int| 0 <= k < marks.len() ==> 0 <= #[trigger] marks[k] < runs.len()
    &&& forall|k: int, j: int| 0 <= k < j < marks.len() ==> #[trigger] marks[k] < #[trigger] marks[j]
    &&& forall|k: int| 0 <= k < marks.len() ==> (runs[#[trigger] marks[k]] matches Run::Statement { statement, scope: s, outcome }
        && statement == statements[k] && s == scope && outcome is Ok)
}

/// The statements `statements` ran in `scope`, in order, each of them successfully.
pub open spec fn ran_in_order(statements: Seq<StatementType>, scope: nat, runs: Seq<Run>) -> bool {
    exists|marks: Seq<int>| #[trigger] ran_through(statements, scope, runs, marks)
}

/// What was run stays as it was recorded, as more is run.
pub proof fn lemma_runs_kept(before: Seq<Run>, after: Seq<Run>, marks: Seq<int>)
    requires
        before.is_prefix_of(after),
        forall|k: int| 0 <= k < marks.len() ==> 0 <= #[trigger] marks[k] < before.len(),
    ensures
        forall|k: int| 0 <= k < marks.len() ==> after[#[trigger] marks[k]] == before[marks[k]],
{
    assert forall|k: int| 0 <= k < marks.len() implies after[#[trigger] marks[k]] == before[marks[k]] by {
        assert(after.subrange(0, before.len() as int)[marks[k]] == after[marks[k]]);
    }
}

/// Runs statements in order until one returns, breaks or continues.
pub fn execute_statements<G: GitRunner, T: TmuxRunner, H: Host>(
    ctx: &mut RuntimeContext<G, T, H>,
    scope: usize,
    statements: &Vec<StatementType>,
    depth: usize,
) -> (r: Result<StatementResult, ExecutionError>)
    requires
        old(ctx).wf(),
        scope < old(ctx).store.scope_seq().len(),
    ensures
        advances(old(ctx), final(ctx)),
        keeps_names_except(old(ctx), final(ctx), scope as int),
        statements@.len() == 0 ==> (r matches Ok(StatementResult::Void) && only_runs(old(ctx), final(ctx))),
        statements@.len() == 1 ==> (statements@[0] matches StatementType::Return(e) ==> (
            plain_value(old(ctx).store, scope as int, e) matches Some(p) ==> (only_runs(old(ctx), final(ctx))
            && (r matches Ok(StatementResult::Return(v)) && denotes(v, p))))),
        final(ctx).runs@.len() > 0,
        final(ctx).runs@.last() == (Run::Block { statements: statements@, scope: scope as nat, outcome: r }),
        exists|marks: Seq<int>| #[trigger] ran_block(statements@, scope as nat, final(ctx).runs@, marks, r),
        simple_block(statements@) ==> (r matches Ok(o) ==> exists|steps: Seq<Step>| #[trigger] block_runs_to(
            old(ctx).store, scope as int, statements@, steps, final(ctx).store, o)),
        (forall|k: int| 0 <= k < statements@.len() ==> quiet(#[trigger] statements@[k])) ==> keeps_values(
            old(ctx).store,
            final(ctx).store,
        ),
    decreases depth, 1nat, statements, 0nat,
{
    let ghost mut marks: Seq<int> = Seq::empty();
    let ghost mut steps: Seq<Step> = Seq::empty();
    let mut i: usize = 0;
    proof {
        assert(statements@.take(0) =~= Seq::<StatementType>::empty());
    }
    while i < statements.len()
        invariant
            i <= statements.len(),
            ran_plainly(statements@.take(i as int), scope as nat, ctx.runs@, marks),
            steps.len() == i,
            ctx.store == store_after(old(ctx).store, steps),
            simple_block(statements@) ==> block_runs_to(old(ctx).store, scope as int, statements@.take(i as int), steps,
                ctx.store, StatementResult::Void),
            (forall|k: int| 0 <= k < statements@.len() ==> quiet(#[trigger] statements@[k])) ==> keeps_values(
                old(ctx).store,
                ctx.store,
            ),
            scope < ctx.store.scope_seq().len(),
            advances(old(ctx), ctx),
            keeps_names_except(old(ctx), ctx, scope as int),
            statements@.len() == 0 ==> *ctx == *old(ctx),
            statements@.len() == 1 ==> (statements@[0] matches StatementType::Return(e) ==> (
                plain_value(old(ctx).store, scope as int, e) is Some ==> (i == 0 && *ctx == *old(ctx)))),
        decreases statements.len() - i,
    {
        proof {
            assert(decreases_to!(statements => statements@[i as int]));
        }
        let ghost runs_before = ctx.runs@;
        let ghost store_before = ctx.store;
        let outcome = interpret_statement(ctx, scope, &statements[i], depth);
        proof {
            if simple_block(statements@) && outcome is Ok {
                assert(simple_statement(statements@[i as int]));
                let t = choose|t: Trace| statement_runs_to(store_before, scope as int, statements@[i as int], ctx.store,
                    outcome->Ok_0, t);
                let next = Step { store: ctx.store, out: outcome->Ok_0, trace: t };
                lemma_block_step(old(ctx).store, scope as int, statements@, steps, next);
                if outcome->Ok_0 != StatementResult::Void {
                    lemma_block_stops(old(ctx).store, scope as int, statements@, i + 1, steps.push(next), ctx.store, outcome->Ok_0);
                }
            }
            steps = steps.push(Step { store: ctx.store, out: if outcome is Ok { outcome->Ok_0 } else { StatementResult::Void }, trace: if simple_block(statements@) && outcome is Ok {
                choose|t: Trace| statement_runs_to(store_before, scope as int, statements@[i as int], ctx.store, outcome->Ok_0, t)
            } else {
                Trace::Nothing
            } });
            lemma_runs_kept(runs_before, ctx.runs@, marks);
            let done = statements@.take(i as int);
            let old_marks = marks;
            marks = marks.push(ctx.runs@.len() - 1);
            let next = statements@.take(i + 1);
            assert(next.take(i as int) =~= done);
            assert(marks.drop_last() =~= old_marks);
            if outcome == Ok::<StatementResult, ExecutionError>(StatementResult::Void) {
                assert forall|k: int| 0 <= k < marks.len() implies ctx.runs@[#[trigger] marks[k]] == (Run::Statement {
                    statement: next[k],
                    scope: scope as nat,
                    outcome: Ok(StatementResult::Void),
                }) by {
                    if k < old_marks.len() {
                        assert(marks[k] == old_marks[k]);
                        assert(next[k] == done[k]);
                    }
                }
            }
        }
        let result = match outcome {
            Ok(x) => x,
            Err(e) => {
                let r = Err(e);
                proof {
                    let before = ctx.runs@;
                    ctx.runs@ = ctx.runs@.push(Run::Block { statements: statements@, scope: scope as nat, outcome: r });
                    lemma_runs_kept(before, ctx.runs@, marks);
                    assert(statements@.take(i + 1).take(marks.len() - 1) =~= statements@.take(i as int));
                    assert(ran_block(statements@, scope as nat, ctx.runs@, marks, r));
                }
                return r;
            },
        };
        match result {
            StatementResult::Void => {},
            _ => {
                let r = Ok(result);
                proof {
                    let before = ctx.runs@;
                    ctx.runs@ = ctx.runs@.push(Run::Block { statements: statements@, scope: scope as nat, outcome: r });
                    assert(before.is_prefix_of(ctx.runs@));
                    lemma_runs_kept(before, ctx.runs@, marks);
                    assert(statements@.take(i + 1).take(marks.len() - 1) =~= statements@.take(i as int));
                    assert(ran_block(statements@, scope as nat, ctx.runs@, marks, r));
                }
                return r;
            },
        }
        i = i + 1;
    }
    let r = Ok(StatementResult::Void);
    proof {
        let before = ctx.runs@;
        ctx.runs@ = ctx.runs@.push(Run::Block { statements: statements@, scope: scope as nat, outcome: r });
        assert(before.is_prefix_of(ctx.runs@));
        lemma_runs_kept(before, ctx.runs@, marks);
        assert(statements@.take(statements@.len() as int) =~= statements@);
        if simple_block(statements@) {
            assert(block_runs_to(old(ctx).store, scope as int, statements@, steps, ctx.store, StatementResult::Void));
        }
        assert(ran_block(statements@, scope as nat, ctx.runs@, marks, r));
    }
    r
}

/// Calls a function with `args`. Calls inside it may nest `depth` deep.
pub fn call_callable<G: GitRunner, T: TmuxRunner, H: Host>(
    ctx: &mut RuntimeContext<G, T, H>,
    callable: &Callable,
    args: Vec<DataType>,
    depth: usize,
) -> (r: Result<DataType, ExecutionError>)
    requires
        old(ctx).wf(),
    ensures
        advances(old(ctx), final(ctx)),
        keeps_names(old(ctx), final(ctx)),
        callable.function matches Executable::Builtin(id) ==> (!accepts_count(id, args@.len()) ==> r is Err),
        callable.function matches Executable::Declared(i) ==> (i >= old(ctx).store.function_seq().len() ==> r is Err),
        callable.function matches Executable::Declared(i) ==> ((i >= old(ctx).store.function_seq().len()
            || args@.len() != old(ctx).store.function_seq()[i as int].arguments@.len()) ==> only_runs(old(ctx), final(ctx))),
        callable.function matches Executable::Declared(i) ==> (i < old(ctx).store.function_seq().len()
            ==> (args@.len() != old(ctx).store.function_seq()[i as int].arguments@.len() ==> (r matches Err(e)
            && e.spec_reason() == "Argument count for function is invalid. Expect: "@ + crate::text::decimal(
            old(ctx).store.function_seq()[i as int].arguments@.len()) + ", received "@ + crate::text::decimal(args@.len())))),
        callable.function matches Executable::Declared(i) ==> ((i < old(ctx).store.function_seq().len()
            && args@.len() == old(ctx).store.function_seq()[i as int].arguments@.len()) ==> (
            old(ctx).store.scope_seq().len() < final(ctx).store.scope_seq().len()
            && final(ctx).store.scope_seq()[old(ctx).store.scope_seq().len() as int].parent == Some(old(ctx).store.function_seq()[i as int].scope))),
        callable.function matches Executable::Declared(i) ==> ((i < old(ctx).store.function_seq().len() && r is Ok) ==> (
            forall|j: int| 0 <= j < old(ctx).store.function_seq()[i as int].arguments@.len() ==> (#[trigger] final(ctx).store.lookup(
                old(ctx).store.scope_seq().len() as int, old(ctx).store.function_seq()[i as int].arguments@[j]@)) is Some)),
        callable.function matches Executable::Declared(i) ==> ((i < old(ctx).store.function_seq().len()
            && args@.len() == old(ctx).store.function_seq()[i as int].arguments@.len()
            && distinct_names(old(ctx).store.function_seq()[i as int].arguments@)
            && old(ctx).store.function_seq()[i as int].body@.len() == 1) ==> ({
            let f = old(ctx).store.function_seq()[i as int];
            f.body@[0] matches StatementType::Return(e) ==> (plain_in(
                call_names(old(ctx).store, f.scope as int, f.arguments@, args@),
                e,
            ) matches Some(p) ==> (r matches Ok(v) && denotes(v, p)))
        })),
        final(ctx).runs@.len() > old(ctx).runs@.len(),
        final(ctx).runs@.last() == (Run::Call { callable: *callable, args: args@, outcome: r }),
        callable.function matches Executable::Declared(i) ==> ((i < old(ctx).store.function_seq().len()
            && args@.len() == old(ctx).store.function_seq()[i as int].arguments@.len()
            && distinct_names(old(ctx).store.function_seq()[i as int].arguments@)) ==> ({
            let f = old(ctx).store.function_seq()[i as int];
            let body_run = final(ctx).runs@[final(ctx).runs@.len() - 2];
            &&& body_run matches Run::Block { statements, scope, outcome }
            &&& statements == f.body@
            &&& scope == old(ctx).store.scope_seq().len()
            &&& returns_from(outcome, function_name(f.name), r)
        })),
        callable.function matches Executable::Declared(i) ==> ((i < old(ctx).store.function_seq().len()
            && args@.len() == old(ctx).store.function_seq()[i as int].arguments@.len()
            && distinct_names(old(ctx).store.function_seq()[i as int].arguments@)) ==> function_ran(old(ctx).store,
            old(ctx).store.function_seq()[i as int], args@, final(ctx).store, r)),
    decreases depth, 4nat, callable, 0nat,
{
    let ghost given = args@;
    let r = call_function(ctx, callable, args, depth);
    proof {
        let before = ctx.runs@;
        ctx.runs@ = ctx.runs@.push(Run::Call { callable: *callable, args: given, outcome: r });
        assert(before.is_prefix_of(ctx.runs@));
    }
    r
}

/// The call of the function `f` with `args` from the store `before` bound the arguments in a
/// new scope; where the body makes nothing and the call succeeded, the body ran in that
/// scope to `after` and the call gives back what the body's end gives.
pub open spec fn function_ran(before: Store, f: FunctionDeclaration, args: Seq<DataType>, after: Store, r: Result<DataType, ExecutionError>) -> bool {
    exists|bound: Store| #[trigger] bound_arguments(before, bound, f.scope as int, f.arguments@, args) && ((simple_block(f.body@)
        && r is Ok) ==> exists|steps: Seq<Step>, o: StatementResult| #[trigger] block_runs_to(bound,
        before.scope_seq().len() as int, f.body@, steps, after, o) && returns_from(Ok(o), function_name(f.name), r))
}

/// The name a function's errors carry: its own, or none.
pub open spec fn function_name(name: Option<String>) -> Seq<char> {
    match name {
        Some(n) => n@,
        None => ""@,
    }
}

/// What a call gives back once the body of the function ended with `outcome`: the value
/// returned, `undefined` where the body ended without returning, an error naming the
/// function where it broke or continued, and the body's own error.
pub open spec fn returns_from(
    outcome: Result<StatementResult, ExecutionError>,
    name: Seq<char>,
    r: Result<DataType, ExecutionError>,
) -> bool {
    match outcome {
        Ok(StatementResult::Return(v)) => r == Ok::<DataType, ExecutionError>(v),
        Ok(StatementResult::Void) => r == Ok::<DataType, ExecutionError>(DataType::Undefined),
        Ok(StatementResult::Break) => r matches Err(e) && e.spec_name() == name
            && e.spec_reason() == "Break is not supported in function body"@,
        Ok(StatementResult::Continue) => r matches Err(e) && e.spec_name() == name
            && e.spec_reason() == "Continue is not supported in function body"@,
        Err(e) => r == Err::<DataType, ExecutionError>(e),
    }
}

/// Runs a function with `args`: a runtime function, or the body of a declared one in a new
/// scope that binds the arguments.
fn call_function<G: GitRunner, T: TmuxRunner, H: Host>(
    ctx: &mut RuntimeContext<G, T, H>,
    callable: &Callable,
    args: Vec<DataType>,
    depth: usize,
) -> (r: Result<DataType, ExecutionError>)
    requires
        old(ctx).wf(),
    ensures
        advances(old(ctx), final(ctx)),
        keeps_names(old(ctx), final(ctx)),
        callable.function matches Executable::Builtin(id) ==> (!accepts_count(id, args@.len()) ==> r is Err),
        callable.function matches Executable::Declared(i) ==> (i >= old(ctx).store.function_seq().len() ==> r is Err),
        callable.function matches Executable::Declared(i) ==> ((i >= old(ctx).store.function_seq().len()
            || args@.len() != old(ctx).store.function_seq()[i as int].arguments@.len()) ==> *final(ctx) == *old(ctx)),
        callable.function matches Executable::Declared(i) ==> (i < old(ctx).store.function_seq().len()
            ==> (args@.len() != old(ctx).store.function_seq()[i as int].arguments@.len() ==> (r matches Err(e)
            && e.spec_reason() == "Argument count for function is invalid. Expect: "@ + crate::text::decimal(
            old(ctx).store.function_seq()[i as int].arguments@.len()) + ", received "@ + crate::text::decimal(args@.len())))),
        callable.function matches Executable::Declared(i) ==> ((i < old(ctx).store.function_seq().len()
            && args@.len() == old(ctx).store.function_seq()[i as int].arguments@.len()) ==> (
            old(ctx).store.scope_seq().len() < final(ctx).store.scope_seq().len()
            && final(ctx).store.scope_seq()[old(ctx).store.scope_seq().len() as int].parent == Some(old(ctx).store.function_seq()[i as int].scope))),
        callable.function matches Executable::Declared(i) ==> ((i < old(ctx).store.function_seq().len() && r is Ok) ==> (
            forall|j: int| 0 <= j < old(ctx).store.function_seq()[i as int].arguments@.len() ==> (#[trigger] final(ctx).store.lookup(
                old(ctx).store.scope_seq().len() as int, old(ctx).store.function_seq()[i as int].arguments@[j]@)) is Some)),
        callable.function matches Executable::Declared(i) ==> ((i < old(ctx).store.function_seq().len()
            && args@.len() == old(ctx).store.function_seq()[i as int].arguments@.len()
            && distinct_names(old(ctx).store.function_seq()[i as int].arguments@)
            && old(ctx).store.function_seq()[i as int].body@.len() == 1) ==> ({
            let f = old(ctx).store.function_seq()[i as int];
            f.body@[0] matches StatementType::Return(e) ==> (plain_in(
                call_names(old(ctx).store, f.scope as int, f.arguments@, args@),
                e,
            ) matches Some(p) ==> (r matches Ok(v) && denotes(v, p)))
        })),
        callable.function matches Executable::Declared(i) ==> ((i < old(ctx).store.function_seq().len()
            && args@.len() == old(ctx).store.function_seq()[i as int].arguments@.len()
            && distinct_names(old(ctx).store.function_seq()[i as int].arguments@)) ==> ({
            let f = old(ctx).store.function_seq()[i as int];
            &&& final(ctx).runs@.len() > 0
            &&& final(ctx).runs@.last() matches Run::Block { statements, scope, outcome }
            &&& statements == f.body@
            &&& scope == old(ctx).store.scope_seq().len()
            &&& returns_from(outcome, function_name(f.name), r)
        })),
        callable.function matches Executable::Declared(i) ==> ((i < old(ctx).store.function_seq().len()
            && args@.len() == old(ctx).store.function_seq()[i as int].arguments@.len()
            && distinct_names(old(ctx).store.function_seq()[i as int].arguments@)) ==> function_ran(old(ctx).store,
            old(ctx).store.function_seq()[i as int], args@, final(ctx).store, r)),
    decreases depth, 3nat, callable, 0nat,
{
    match callable.function {
        Executable::Builtin(id) => {
            let receiver = match &callable.receiver {
                Some(b) => Some((**b).duplicate()),
                None => None,
            };
            call_builtin(ctx, id, receiver, args, depth)
        },
        Executable::Declared(index) => {
            let (name, count) = match ctx.store.function(index) {
                Some(f) => (duplicate_string_option(&f.name), f.arguments.len()),
                None => return Err(fail("Unknown function")),
            };
            if args.len() != count {
                let call_name = match &name {
                    Some(n) => n.clone(),
                    None => String::new(),
                };
                let head = cat("Argument count for function is invalid. Expect: ", usize_to_string(count).as_str());
                let text = cat3(head.as_str(), ", received ", usize_to_string(args.len()).as_str());
                return Err(ExecutionError::from_string(CallInfo::new(call_name.as_str()), text));
            }
            execute_function(ctx, index, args, depth)
        },
    }
}

/// The body of the declared function `index` run with `args`, one for each of its
/// parameters, in a new scope under the scope it was declared in; what it returns.
pub fn execute_function<G: GitRunner, T: TmuxRunner, H: Host>(
    ctx: &mut RuntimeContext<G, T, H>,
    index: usize,
    args: Vec<DataType>,
    depth: usize,
) -> (r: Result<DataType, ExecutionError>)
    requires
        old(ctx).wf(),
        index < old(ctx).store.function_seq().len(),
        args@.len() == old(ctx).store.function_seq()[index as int].arguments@.len(),
    ensures
        advances(old(ctx), final(ctx)),
        keeps_names(old(ctx), final(ctx)),
        ({
            let f = old(ctx).store.function_seq()[index as int];
            &&& old(ctx).store.scope_seq().len() < final(ctx).store.scope_seq().len()
            &&& final(ctx).store.scope_seq()[old(ctx).store.scope_seq().len() as int].parent == Some(f.scope)
            &&& r is Ok ==> forall|j: int| 0 <= j < f.arguments@.len() ==> (#[trigger] final(ctx).store.lookup(
                old(ctx).store.scope_seq().len() as int, f.arguments@[j]@)) is Some
            &&& (distinct_names(f.arguments@) && f.body@.len() == 1) ==> (f.body@[0] matches StatementType::Return(e)
                ==> (plain_in(call_names(old(ctx).store, f.scope as int, f.arguments@, args@), e) matches Some(p)
                ==> (r matches Ok(v) && denotes(v, p))))
            &&& distinct_names(f.arguments@) ==> (final(ctx).runs@.len() > 0
                && (final(ctx).runs@.last() matches Run::Block { statements, scope, outcome }
                && statements == f.body@ && scope == old(ctx).store.scope_seq().len()
                && returns_from(outcome, function_name(f.name), r)))
            &&& distinct_names(f.arguments@) ==> function_ran(old(ctx).store, f, args@, final(ctx).store, r)
        }),
    decreases depth, 2nat, args, 0nat,
{
    let (name, arguments, body, function_scope) = match ctx.store.function(index) {
        Some(f) => (duplicate_string_option(&f.name), duplicate_strings(&f.arguments), share_body(&f.body), f.scope),
        None => return Err(fail("Unknown function")),
    };
    let call_name = match &name {
        Some(n) => n.clone(),
        None => String::new(),
    };
    if args.len() != arguments.len() {
        let head = cat("Argument count for function is invalid. Expect: ", usize_to_string(arguments.len()).as_str());
        let text = cat3(head.as_str(), ", received ", usize_to_string(args.len()).as_str());
        return Err(ExecutionError::from_string(CallInfo::new(call_name.as_str()), text));
    }
    let call_scope = ctx.store.new_scope(Some(function_scope));
    let mut j: usize = 0;
    while j < arguments.len()
        invariant
            j <= arguments.len(),
            args@.len() == arguments@.len(),
            call_scope < ctx.store.scope_seq().len(),
            call_scope == old(ctx).store.scope_seq().len(),
            keeps_names(old(ctx), ctx),
            ctx.store.scope_seq()[call_scope as int].parent == Some(function_scope),
                index < old(ctx).store.function_seq().len(),
            function_scope == old(ctx).store.function_seq()[index as int].scope,
            arguments@ == old(ctx).store.function_seq()[index as int].arguments@,
            forall|k: int| 0 <= k < j ==> (#[trigger] ctx.store.lookup(call_scope as int, arguments@[k]@)) is Some,
            distinct_names(arguments@) ==> forall|k: int| 0 <= k < j ==> #[trigger] ctx.store.lookup(
                call_scope as int,
                arguments@[k]@,
            ) == Some(args@[k]),
            distinct_names(arguments@) ==> forall|n: Seq<char>| (forall|k: int| 0 <= k < j ==> arguments@[k]@ != n)
                ==> #[trigger] ctx.store.lookup(call_scope as int, n) == old(ctx).store.lookup(function_scope as int, n),
            *body == *old(ctx).store.function_seq()[index as int].body,
            forall|n: Seq<char>| #[trigger] ctx.store.scope_seq()[call_scope as int].view().contains_key(n)
                ==> exists|k: int| 0 <= k < j && #[trigger] arguments@[k]@ == n,
            ctx.store.scope_seq().len() == call_scope + 1,
            forall|i: int| 0 <= i < call_scope ==> #[trigger] ctx.store.scope_seq()[i] == old(ctx).store.scope_seq()[i],
            ctx.store.list_seq() == old(ctx).store.list_seq(),
            ctx.store.dict_seq() == old(ctx).store.dict_seq(),
            ctx.store.function_seq() == old(ctx).store.function_seq(),
            advances(old(ctx), ctx),
        decreases arguments.len() - j,
    {
        proof {
            if distinct_names(arguments@) && ctx.store.scope_seq()[call_scope as int].view().contains_key(arguments@[j as int]@) {
                let k = choose|k: int| 0 <= k < j && #[trigger] arguments@[k]@ == arguments@[j as int]@;
                assert(arguments@[k]@ != arguments@[j as int]@);
            }
        }
        ctx.store.set_variable(call_scope, arguments[j].clone(), args[j].duplicate())?;
        j = j + 1;
    }
    proof {
        if distinct_names(arguments@) {
            let look = call_names(old(ctx).store, function_scope as int, arguments@, args@);
            assert forall|n: Seq<char>| #[trigger] names_in(ctx.store, call_scope as int)(n) == look(n) by {
                if exists|k: int| 0 <= k < arguments@.len() && #[trigger] arguments@[k]@ == n {
                    let k = choose|k: int| 0 <= k < arguments@.len() && #[trigger] arguments@[k]@ == n;
                    assert(ctx.store.lookup(call_scope as int, arguments@[k]@) == Some(args@[k]));
                }
            }
            assert(names_in(ctx.store, call_scope as int) =~= look);
        }
    }
    let ghost before_body = ctx.store;
    proof {
        if distinct_names(arguments@) {
            assert(bound_arguments(old(ctx).store, before_body, function_scope as int, arguments@, args@));
        }
    }
    let outcome = match execute_statements(ctx, call_scope, &*body, depth) {
        Ok(o) => o,
        Err(e) => return Err(e),
    };
    let ghost body_out = outcome;
    proof {
        assert forall|k: int| 0 <= k < arguments@.len() implies (#[trigger] ctx.store.lookup(
            call_scope as int,
            arguments@[k]@,
        )) is Some by {
            assert(before_body.lookup(call_scope as int, arguments@[k]@) is Some);
        }
    }
    proof {
        reveal_strlit("");
        assert(call_name@ == function_name(old(ctx).store.function_seq()[index as int].name));
        assert((*body)@ == old(ctx).store.function_seq()[index as int].body@);
    }
    let r = match outcome {
        StatementResult::Return(value) => Ok(value),
        StatementResult::Void => Ok(DataType::Undefined),
        StatementResult::Break => Err(ExecutionError::new(CallInfo::new(call_name.as_str()), "Break is not supported in function body")),
        StatementResult::Continue => Err(ExecutionError::new(CallInfo::new(call_name.as_str()), "Continue is not supported in function body")),
    };
    proof {
        let f = old(ctx).store.function_seq()[index as int];
        if distinct_names(arguments@) && simple_block(f.body@) && r is Ok {
            let steps = choose|steps: Seq<Step>| block_runs_to(before_body, call_scope as int, f.body@, steps, ctx.store, body_out);
            assert(returns_from(Ok(body_out), function_name(f.name), r));
            assert(block_runs_to(before_body, old(ctx).store.scope_seq().len() as int, f.body@, steps, ctx.store, body_out));
        }
    }
    r
}

/// Runs a function of the runtime.
pub fn call_builtin<G: GitRunner, T: TmuxRunner, H: Host>(
    ctx: &mut RuntimeContext<G, T, H>,
    id: BuiltinId,
    receiver: Option<DataType>,
    args: Vec<DataType>,
    depth: usize,
) -> (r: Result<DataType, ExecutionError>)
    requires
        old(ctx).wf(),
    ensures
        advances(old(ctx), final(ctx)),
        keeps_names(old(ctx), final(ctx)),
        !accepts_count(id, args@.len()) ==> r is Err,
        id is Print ==> (r is Ok <==> args@.len() == 1),
        id is Print ==> (r is Ok ==> builtin::global::printed(old(ctx).effects@, final(ctx).effects@, old(ctx).store, args@[0])),
        id is Print ==> (r is Err ==> final(ctx).effects@ == old(ctx).effects@),
        id is RegisterTask ==> (r is Ok <==> (args@.len() == 2 && (args@[0] is String || args@[0] is Number
            || args@[0] is Boolean) && args@[1] is Function)),
        id is Parallel ==> (r is Ok <==> parallel_accepts(old(ctx).store, args@, depth)),
        (id is ListPop || id is ListClear || id is ListLen) ==> ((args@.len() == 0 && (receiver matches Some(
            DataType::List(l)) && l.index < old(ctx).store.list_seq().len())) ==> r is Ok),
        (id is ListPop || id is ListClear) ==> (r is Ok ==> (args@.len() == 0 && (receiver matches Some(
            DataType::List(l)) && l.index < old(ctx).store.list_seq().len()))),
        id is ListPush ==> (r is Ok <==> (args@.len() == 1 && (receiver matches Some(DataType::List(l))
            && l.index < old(ctx).store.list_seq().len()))),
        (id is DictHas || id is DictDelete) ==> (r is Ok <==> (args@.len() == 1 && (args@[0] is String
            || args@[0] is Number || args@[0] is Boolean) && (receiver matches Some(DataType::Dictionary(d))
            && d.index < old(ctx).store.dict_seq().len()))),
        (id is DictClear || id is DictLen) ==> ((args@.len() == 0 && (receiver matches Some(DataType::Dictionary(d))
            && d.index < old(ctx).store.dict_seq().len())) ==> r is Ok),
        id is DictClear ==> (r is Ok ==> (args@.len() == 0 && (receiver matches Some(DataType::Dictionary(d))
            && d.index < old(ctx).store.dict_seq().len()))),
    decreases depth, 2nat, id, 0nat,
{
    proof {
        assert(ctx.runs@.subrange(0, ctx.runs@.len() as int) =~= ctx.runs@);
        assert(ctx.effects@.subrange(0, ctx.effects@.len() as int) =~= ctx.effects@);
    }
    match id {
        BuiltinId::Print => builtin::global::print(ctx, &args),
        BuiltinId::RegisterTask => builtin::global::register_task(ctx, &args),
        BuiltinId::Parallel => parallel(ctx, &args, depth),
        BuiltinId::ListPop => builtin::list::pop(&mut ctx.store, &receiver, &args),
        BuiltinId::ListPush => builtin::list::push(&mut ctx.store, &receiver, &args),
        BuiltinId::ListClear => builtin::list::clear(&mut ctx.store, &receiver, &args),
        BuiltinId::ListLen => builtin::list::len(&ctx.store, &ctx.host, &receiver, &args),
        BuiltinId::DictHas => builtin::dictionary::has(&ctx.store, &ctx.host, &receiver, &args),
        BuiltinId::DictDelete => builtin::dictionary::delete(&mut ctx.store, &ctx.host, &receiver, &args),
        BuiltinId::DictClear => builtin::dictionary::clear(&mut ctx.store, &receiver, &args),
        BuiltinId::DictLen => builtin::dictionary::len(&ctx.store, &ctx.host, &receiver, &args),
        BuiltinId::GitInDirectory => git::in_directory(ctx, &args),
        BuiltinId::GitCurrentBranch => git::current_branch(ctx, &args),
        BuiltinId::GitLocalBranches => git::list_branches(ctx, "local_branches", &args),
        BuiltinId::GitRemoteBranches => git::list_branches(ctx, "remote_branches", &args),
        BuiltinId::GitWorktrees => git::worktrees(ctx, &args),
        BuiltinId::GitDeleteBranch => git::delete_branch(ctx, &args),
        BuiltinId::GitRebase => git::run_for_effect(ctx, "rebase", &args),
        BuiltinId::GitFetch => git::run_for_effect(ctx, "fetch", &args),
        BuiltinId::GitPrune => git::run_for_effect(ctx, "prune", &args),
        BuiltinId::GitPull => git::run_for_effect(ctx, "pull", &args),
        BuiltinId::GitPush => git::push(ctx, &args),
        BuiltinId::ShellOpen => shell::open(ctx, &args),
        BuiltinId::ShellRun => shell::run(ctx, &args),
        BuiltinId::TmuxNewSession => tmux::new_session(ctx, &args),
        BuiltinId::TmuxKillSession => tmux::kill_session(ctx, &args),
        BuiltinId::TmuxHasSession => tmux::has_session(ctx, &args),
        BuiltinId::TmuxNewWindow => tmux::window_with_command(ctx, "new_window", &receiver, &args),
        BuiltinId::TmuxSplitPane => tmux::window_with_command(ctx, "split_pane", &receiver, &args),
        BuiltinId::TmuxSplitPaneH => tmux::window_with_command(ctx, "split_pane_h", &receiver, &args),
        BuiltinId::TmuxKillWindow => tmux::window_command(ctx, "kill_window", 1, &receiver, &args),
        BuiltinId::TmuxSelectWindow => tmux::window_command(ctx, "select_window", 1, &receiver, &args),
        BuiltinId::TmuxSetLayout => tmux::window_command(ctx, "set_layout", 2, &receiver, &args),
        BuiltinId::TmuxAttach => tmux::window_command(ctx, "attach", 0, &receiver, &args),
        BuiltinId::TmuxKillPane => {
            proof {
                reveal_strlit("kill_pane");
                reveal_strlit("send_keys");
                assert("kill_pane"@[0] != "send_keys"@[0]);
            }
            tmux::pane_command(ctx, "kill_pane", &receiver, &args)
        },
        BuiltinId::TmuxSendKeys => tmux::pane_command(ctx, "send_keys", &receiver, &args),
        BuiltinId::TmuxInterrupt => {
            proof {
                reveal_strlit("interrupt");
                reveal_strlit("send_keys");
                assert("interrupt"@[0] != "send_keys"@[0]);
            }
            tmux::pane_command(ctx, "interrupt", &receiver, &args)
        },
        BuiltinId::TmuxAttachCmd => tmux::attach_cmd(&receiver, &args),
    }
}

/// `[parallel-<i>] task failed: <error>`, carriage returns made line feeds.
pub fn parallel_failure_text(i: usize, error: &ExecutionError) -> (s: String)
    ensures
        s@ == "[parallel-"@ + crate::text::decimal(i as nat) + "] task failed: "@ + crate::text::spec_cr_to_lf(
            crate::interpreter::builtin::execution_error_text(error.spec_name(), error.spec_reason()),
        ),
{
    let head = cat3("[parallel-", usize_to_string(i).as_str(), "] task failed: ");
    cat(head.as_str(), cr_to_lf(error.to_text().as_str()).as_str())
}

/// The text `parallel` reports the failure of its task `k` with.
pub open spec fn failure_report(k: int, e: ExecutionError) -> Seq<char> {
    "[parallel-"@ + crate::text::decimal(k as nat) + "] task failed: "@ + crate::text::spec_cr_to_lf(
        crate::interpreter::builtin::execution_error_text(e.spec_name(), e.spec_reason()),
    )
}

/// The runs at `marks`, in order, are calls of the functions `tasks` with no arguments, and
/// each call that failed was reported.
pub open spec fn calls_each(tasks: Seq<DataType>, runs: Seq<Run>, effects: Seq<Effect>, marks: Seq<int>) -> bool {
    &&& marks.len() == tasks.len()
    &&& forall|k: int| 0 <= k < marks.len() ==> 0 <= #[trigger] marks[k] < runs.len()
    &&& forall|k: int, j: int| 0 <= k < j < marks.len() ==> #[trigger] marks[k] < #[trigger] marks[j]
    &&& forall|k: int| 0 <= k < marks.len() ==> (runs[#[trigger] marks[k]] matches Run::Call { callable, args, outcome }
        && tasks[k] == DataType::Function(callable) && args.len() == 0
        && (outcome matches Err(e) ==> effects.contains(Effect::Reported { text: failure_report(k, e) })))
}

/// `parallel` runs: it is given one list, every value of which is a function, and calls may
/// still nest.
pub open spec fn parallel_accepts(store: Store, args: Seq<DataType>, depth: usize) -> bool {
    &&& args.len() == 1
    &&& args[0] matches DataType::List(l) && l.index < store.list_seq().len()
        && forall|k: int| 0 <= k < store.list_seq()[l.index as int].values@.len()
            ==> (#[trigger] store.list_seq()[l.index as int].values@[k]) is Function
    &&& depth > 0
}

/// `parallel(tasks)`: runs each function of the list `tasks` with no arguments, one after
/// the other, each in the working directory it was called in; a failure is reported on
/// standard error and does not stop the others. `undefined`.
pub fn parallel<G: GitRunner, T: TmuxRunner, H: Host>(
    ctx: &mut RuntimeContext<G, T, H>,
    args: &Vec<DataType>,
    depth: usize,
) -> (r: Result<DataType, ExecutionError>)
    requires
        old(ctx).wf(),
    ensures
        advances(old(ctx), final(ctx)),
        keeps_names(old(ctx), final(ctx)),
        final(ctx).cwd == old(ctx).cwd,
        args@.len() != 1 ==> r is Err,
        r matches Ok(v) ==> v is Undefined,
        r is Ok <==> parallel_accepts(old(ctx).store, args@, depth),
        r is Ok ==> (args@[0] matches DataType::List(l) && exists|marks: Seq<int>| #[trigger] calls_each(
            old(ctx).store.list_seq()[l.index as int].values@,
            final(ctx).runs@,
            final(ctx).effects@,
            marks,
        )),
    decreases depth, 1nat, args, 0nat,
{
    let checked = Args::new("parallel", args);
    if let Err(e) = checked.exact(1) {
        return Err(ExecutionError::from_argument_error(e));
    }
    let list = match checked.list(0) {
        Ok(l) => l,
        Err(e) => return Err(ExecutionError::from_argument_error(e)),
    };
    let values = match ctx.store.list(list) {
        Some(l) => duplicate_values(&l.values),
        None => return Err(unknown_reference()),
    };
    let mut callables: Vec<Callable> = Vec::new();
    let mut i: usize = 0;
    while i < values.len()
        invariant
            i <= values.len(),
            *ctx == *old(ctx),
            ctx.wf(),
            args@.len() == 1 && args@[0] == DataType::List(list),
            list.index < ctx.store.list_seq().len(),
            values@ == ctx.store.list_seq()[list.index as int].values@,
            forall|k: int| 0 <= k < i ==> (#[trigger] values@[k]) is Function,
            callables@.len() == i,
            forall|j: int| 0 <= j < i ==> values@[j] == DataType::Function(#[trigger] callables@[j]),
        decreases values.len() - i,
    {
        match expect_callable(&values[i]) {
            Ok(c) => callables.push(c),
            Err(found) => {
                let e = ArgumentError::InvalidType {
                    fn_name: "parallel".to_owned(),
                    index: i,
                    expected_type: DataKind::Callable,
                    found_type: found,
                };
                return Err(ExecutionError::from_argument_error(e));
            },
        }
        i = i + 1;
    }
    if depth == 0 {
        return Err(too_deep());
    }
    let ghost tasks = values@;
    let ghost mut marks: Seq<int> = Seq::empty();
    let mut k: usize = 0;
    while k < callables.len()
        invariant
            k <= callables.len(),
            callables@.len() == tasks.len(),
            forall|j: int| 0 <= j < tasks.len() ==> tasks[j] == DataType::Function(#[trigger] callables@[j]),
            depth > 0,
            advances(old(ctx), ctx),
            keeps_names(old(ctx), ctx),
            ctx.cwd == old(ctx).cwd,
            calls_each(tasks.take(k as int), ctx.runs@, ctx.effects@, marks),
        decreases callables.len() - k,
    {
        let saved_cwd = ctx.cwd.clone();
        let ghost runs_before = ctx.runs@;
        let ghost effects_before = ctx.effects@;
        let result = call_callable(ctx, &callables[k], Vec::new(), depth - 1);
        ctx.cwd = saved_cwd;
        let ghost runs_after = ctx.runs@;
        if let Err(e) = result {
            let text = parallel_failure_text(k, &e);
            ctx.host.print_error(text.as_str());
            proof {
                ctx.effects@ = ctx.effects@.push(Effect::Reported { text: text@ });
                assert(ctx.effects@.contains(Effect::Reported { text: failure_report(k as int, e) })) by {
                    assert(ctx.effects@[ctx.effects@.len() - 1] == Effect::Reported { text: failure_report(k as int, e) });
                }
            }
        }
        proof {
            let old_marks = marks;
            marks = marks.push(runs_after.len() - 1);
            let done = tasks.take(k as int);
            let next = tasks.take(k + 1);
            assert(ctx.runs@ == runs_after);
            assert forall|j: int| 0 <= j < old_marks.len() implies ctx.runs@[#[trigger] old_marks[j]] == runs_before[old_marks[j]] by {
                assert(runs_after.subrange(0, runs_before.len() as int)[old_marks[j]] == runs_after[old_marks[j]]);
            }
            assert forall|t: Effect| effects_before.contains(t) implies #[trigger] ctx.effects@.contains(t) by {
                let w = choose|w: int| 0 <= w < effects_before.len() && effects_before[w] == t;
                assert(ctx.effects@.subrange(0, effects_before.len() as int)[w] == ctx.effects@[w]);
            }
            assert forall|j: int| 0 <= j < marks.len() implies (ctx.runs@[#[trigger] marks[j]] matches Run::Call {
                callable,
                args,
                outcome,
            } && next[j] == DataType::Function(callable) && args.len() == 0 && (outcome matches Err(e)
                ==> ctx.effects@.contains(Effect::Reported { text: failure_report(j, e) }))) by {
                if j < old_marks.len() {
                    assert(marks[j] == old_marks[j]);
                    assert(next[j] == done[j]);
                } else {
                    assert(marks[j] == runs_after.len() - 1);
                    assert(next[j] == tasks[k as int]);
                }
            }
            assert(calls_each(next, ctx.runs@, ctx.effects@, marks));
        }
        k = k + 1;
    }
    proof {
        assert(tasks.take(k as int) =~= tasks);
    }
    Ok(DataType::Undefined)
}

/// A name the global scope gives a function of the runtime.
pub open spec fn is_global_name(n: Seq<char>) -> bool {
    n == "print"@ || n == "register_task"@ || n == "parallel"@
}

/// The first `m` modules have names of their own: none a global's, no two alike.
pub open spec fn fresh_module_names(mods: Seq<Module>, m: int) -> bool {
    &&& forall|a: int| 0 <= a < m ==> !is_global_name(#[trigger] mods[a].name@)
    &&& forall|a: int, b: int| 0 <= b < a < m ==> #[trigger] mods[b].name@ != #[trigger] mods[a].name@
}

/// The names of the global scope once the first `m` modules are added.
pub open spec fn names_after(mods: Seq<Module>, m: int) -> Set<Seq<char>> {
    Set::new(|n: Seq<char>| is_global_name(n) || exists|k: int| 0 <= k < m && #[trigger] mods[k].name@ == n)
}

impl Interpreter {
    /// A program ready to run: its global scope holds `print`, `register_task`,
    /// `parallel` and the registered modules.
    pub fn new<G: GitRunner, T: TmuxRunner, H: Host>(statements: Vec<StatementType>, ctx: &mut RuntimeContext<G, T, H>) -> (r: Result<Self, ExecutionError>)
        requires
            old(ctx).wf(),
        ensures
            advances(old(ctx), final(ctx)),
            final(ctx).steps == old(ctx).steps,
            r matches Ok(i) ==> i.scope == old(ctx).store.scope_seq().len() && i.scope < final(ctx).store.scope_seq().len()
                && final(ctx).store.lookup(i.scope as int, "print"@) is Some
                && final(ctx).store.lookup(i.scope as int, "register_task"@) is Some
                && final(ctx).store.lookup(i.scope as int, "parallel"@) is Some,
            r is Ok <==> fresh_module_names(old(ctx).module_registry.modules@, old(ctx).module_registry.modules@.len() as int),
            r matches Ok(i) ==> i.statements == statements && i.pos == 0,
    {
        proof {
            reveal_strlit("print");
            reveal_strlit("register_task");
            reveal_strlit("parallel");
        }
        let scope = ctx.store.new_scope(None);
        let globals: [(&str, BuiltinId); 3] = [
            ("print", BuiltinId::Print),
            ("register_task", BuiltinId::RegisterTask),
            ("parallel", BuiltinId::Parallel),
        ];
        let mut g: usize = 0;
        while g < 3
            invariant
                g <= 3,
                scope < ctx.store.scope_seq().len(),
                scope == old(ctx).store.scope_seq().len(),
                advances(old(ctx), ctx),
                ctx.steps == old(ctx).steps,
                globals@ == seq![("print", BuiltinId::Print), ("register_task", BuiltinId::RegisterTask), ("parallel", BuiltinId::Parallel)],
                g > 0 ==> ctx.store.lookup(scope as int, "print"@) is Some,
                g > 1 ==> ctx.store.lookup(scope as int, "register_task"@) is Some,
                g > 2 ==> ctx.store.lookup(scope as int, "parallel"@) is Some,
                ctx.module_registry == old(ctx).module_registry,
                g == 0 ==> ctx.store.scope_seq()[scope as int].view().dom() == Set::<Seq<char>>::empty(),
                g == 1 ==> ctx.store.scope_seq()[scope as int].view().dom() == set!["print"@],
                g == 2 ==> ctx.store.scope_seq()[scope as int].view().dom() == set!["print"@, "register_task"@],
                g == 3 ==> ctx.store.scope_seq()[scope as int].view().dom() == set!["print"@, "register_task"@, "parallel"@],
            decreases 3 - g,
        {
            let (name, id) = globals[g];
            proof {
                reveal_strlit("print");
                reveal_strlit("register_task");
                reveal_strlit("parallel");
                assert(name@ == globals@[g as int].0@);
                assert(set!["print"@].insert("register_task"@) =~= set!["print"@, "register_task"@]);
                assert(set!["print"@, "register_task"@].insert("parallel"@) =~= set!["print"@, "register_task"@, "parallel"@]);
                assert(Set::<Seq<char>>::empty().insert("print"@) =~= set!["print"@]);
            }
            let callable = Callable::new(Some(name.to_owned()), Executable::Builtin(id));
            ctx.store.set_variable(scope, name.to_owned(), DataType::Function(callable))?;
            g = g + 1;
        }
        ctx.host.print("Hello!");
        proof {
            assert(names_after(ctx.module_registry.modules@, 0) =~= set!["print"@, "register_task"@, "parallel"@]);
        }
        let mut m: usize = 0;
        while m < ctx.module_registry.modules.len()
            invariant
                scope < ctx.store.scope_seq().len(),
                scope == old(ctx).store.scope_seq().len(),
                advances(old(ctx), ctx),
                ctx.steps == old(ctx).steps,
                ctx.store.lookup(scope as int, "print"@) is Some,
                ctx.store.lookup(scope as int, "register_task"@) is Some,
                ctx.store.lookup(scope as int, "parallel"@) is Some,
                ctx.module_registry == old(ctx).module_registry,
                m <= ctx.module_registry.modules@.len(),
                ctx.store.scope_seq()[scope as int].view().dom() == names_after(ctx.module_registry.modules@, m as int),
                fresh_module_names(ctx.module_registry.modules@, m as int),
            decreases ctx.module_registry.modules.len() - m,
        {
            let ghost mods = ctx.module_registry.modules@;
            let module = ctx.module_registry.modules[m].duplicate();
            proof {
                assert(names_after(mods, m + 1) =~= names_after(mods, m as int).insert(mods[m as int].name@));
                if names_after(mods, m as int).contains(mods[m as int].name@) && !is_global_name(mods[m as int].name@) {
                    let k = choose|k: int| 0 <= k < m && #[trigger] mods[k].name@ == mods[m as int].name@;
                    assert(mods[k].name@ == mods[m as int].name@);
                }
            }
            let text = cat3("Adding module ", module.name.as_str(), " ");
            ctx.host.print(text.as_str());
            let name = module.name.clone();
            ctx.store.set_variable(scope, name, DataType::Module(module))?;
            m = m + 1;
        }
        Ok(Interpreter { scope, statements, pos: 0 })
    }

    /// Runs the program's statements in order from `pos`; a `return` at the top level ends
    /// nothing. Where one fails, `pos` is left at it.
    pub fn interpret<G: GitRunner, T: TmuxRunner, H: Host>(&mut self, ctx: &mut RuntimeContext<G, T, H>) -> (r: Result<(), ExecutionError>)
        requires
            old(ctx).wf(),
            old(self).scope < old(ctx).store.scope_seq().len(),
        ensures
            advances(old(ctx), final(ctx)),
            final(self).scope == old(self).scope,
            final(self).statements == old(self).statements,
            final(self).pos >= old(self).pos,
            r is Ok ==> final(self).pos >= final(self).statements.len(),
            r is Err ==> final(self).pos < final(self).statements.len(),
            old(self).pos >= old(self).statements.len() ==> (r is Ok && *final(ctx) == *old(ctx)),
            r is Ok && old(self).pos <= old(self).statements.len() ==> exists|marks: Seq<int>| #[trigger] ran_through(
                old(self).statements@.subrange(old(self).pos as int, old(self).statements@.len() as int),
                old(self).scope as nat,
                final(ctx).runs@,
                marks,
            ),
            r matches Err(e) ==> final(ctx).runs@.len() > 0 && final(ctx).runs@.last() == (Run::Statement {
                statement: old(self).statements@[final(self).pos as int],
                scope: old(self).scope as nat,
                outcome: Err(e),
            }),
    {
        let ghost start = self.pos;
        let ghost mut marks: Seq<int> = Seq::empty();
        while self.pos < self.statements.len()
            invariant
                self.scope == old(self).scope,
                self.statements == old(self).statements,
                self.pos >= old(self).pos,
                start == old(self).pos,
                old(self).pos >= old(self).statements.len() ==> *ctx == *old(ctx),
                self.scope < ctx.store.scope_seq().len(),
                advances(old(ctx), ctx),
                self.pos < self.statements.len() ==> ran_through(self.statements@.subrange(start as int, self.pos as int),
                    self.scope as nat, ctx.runs@, marks),
                self.pos >= self.statements.len() && start <= self.statements.len() ==> ran_through(self.statements@.subrange(start as int,
                    self.statements@.len() as int), self.scope as nat, ctx.runs@, marks),
            decreases self.statements.len() - self.pos,
        {
            let ghost runs_before = ctx.runs@;
            let outcome = interpret_statement(ctx, self.scope, &self.statements[self.pos], MAX_CALL_DEPTH);
            if let Err(e) = outcome {
                return Err(e);
            }
            proof {
                lemma_runs_kept(runs_before, ctx.runs@, marks);
                let done = self.statements@.subrange(start as int, self.pos as int);
                let next = self.statements@.subrange(start as int, self.pos + 1);
                let old_marks = marks;
                marks = marks.push(ctx.runs@.len() - 1);
                assert forall|k: int| 0 <= k < marks.len() implies (ctx.runs@[#[trigger] marks[k]] matches Run::Statement {
                    statement,
                    scope,
                    outcome,
                } && statement == next[k] && scope == self.scope as nat && outcome is Ok) by {
                    if k < old_marks.len() {
                        assert(marks[k] == old_marks[k]);
                        assert(next[k] == done[k]);
                    }
                }
                assert(ran_through(next, self.scope as nat, ctx.runs@, marks));
            }
            self.pos = self.pos + 1;
        }
        Ok(())
    }

    /// The value of the variable `name` seen from the program's global scope.
    pub fn get_variable<G: GitRunner, T: TmuxRunner, H: Host>(&self, ctx: &RuntimeContext<G, T, H>, name: &str) -> (r: Result<DataType, ExecutionError>)
        requires
            ctx.wf(),
        ensures
            r is Ok <==> ctx.store.lookup(self.scope as int, name@) is Some,
            r matches Ok(v) ==> ctx.store.lookup(self.scope as int, name@) == Some(v),
    {
        ctx.store.get_variable(self.scope, name)
    }
}

} // verus!
