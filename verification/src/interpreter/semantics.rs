//! What running a statement does to the store, for statements that make nothing: they call
//! no function and write no list, dictionary or function literal, so that all they can do is
//! read and write variables, open scopes for `if` bodies and end a block. Values the host
//! decides (numbers, and what operators on numbers give) are left free; every other value is
//! fixed.
use crate::interpreter::datatype::DataType;
use crate::interpreter::plain::{denotes, plain_value};
use crate::interpreter::scope::declaring_scope;
use crate::interpreter::store::Store;
use crate::interpreter::StatementResult;
use crate::parser::expressions::ExpressionType;
use crate::parser::statements::{ExpressionStatement, StatementType};
use vstd::prelude::*;

verus! {

/// The two stores hold the same scopes, lists, dictionaries and functions.
pub open spec fn same_store(a: Store, b: Store) -> bool {
    &&& a.scope_seq() == b.scope_seq()
    &&& a.list_seq() == b.list_seq()
    &&& a.dict_seq() == b.dict_seq()
    &&& a.function_seq() == b.function_seq()
}

/// `e` calls no function and writes no list, dictionary or function literal.
pub open spec fn makes_nothing(e: ExpressionType) -> bool
    decreases e,
{
    match e {
        ExpressionType::Literal(_) => true,
        ExpressionType::Identifier(_) => true,
        ExpressionType::BinaryOperation(b) => makes_nothing(*b.left) && makes_nothing(*b.right),
        ExpressionType::UnaryOperation(u) => makes_nothing(*u.expression),
        ExpressionType::Accessor(a) => makes_nothing(*a.value) && makes_nothing(*a.key),
        ExpressionType::Property(p) => makes_nothing(*p.value),
        _ => false,
    }
}

/// `v` is a value `e` can have in `scope`: a variable's own value, the value of a plain
/// expression, and anything where the host decides.
pub open spec fn value_of(store: Store, scope: int, e: ExpressionType, v: DataType) -> bool {
    match e {
        ExpressionType::Identifier(i) => store.lookup(scope, i.name@) == Some(v),
        _ => match plain_value(store, scope, e) {
            Some(p) => denotes(v, p),
            None => true,
        },
    }
}

/// `after` is `before` with `name` holding `v` in scope `d`, and nothing else changed.
pub open spec fn rebound(before: Store, after: Store, d: int, name: Seq<char>, v: DataType) -> bool {
    &&& 0 <= d < before.scope_seq().len()
    &&& after.scope_seq().len() == before.scope_seq().len()
    &&& forall|j: int| 0 <= j < before.scope_seq().len() && j != d ==> #[trigger] after.scope_seq()[j] == before.scope_seq()[j]
    &&& after.scope_seq()[d].parent == before.scope_seq()[d].parent
    &&& after.scope_seq()[d].view() == before.scope_seq()[d].view().insert(name, v)
    &&& after.list_seq() == before.list_seq()
    &&& after.dict_seq() == before.dict_seq()
    &&& after.function_seq() == before.function_seq()
}

/// `after` is `before` with one more scope, empty, whose parent is `parent`.
pub open spec fn opened(before: Store, after: Store, parent: int) -> bool {
    &&& after.scope_seq().len() == before.scope_seq().len() + 1
    &&& forall|j: int| 0 <= j < before.scope_seq().len() ==> #[trigger] after.scope_seq()[j] == before.scope_seq()[j]
    &&& after.scope_seq()[before.scope_seq().len() as int].parent == Some(parent as usize)
    &&& after.scope_seq()[before.scope_seq().len() as int].view() == Map::<Seq<char>, DataType>::empty()
    &&& after.list_seq() == before.list_seq()
    &&& after.dict_seq() == before.dict_seq()
    &&& after.function_seq() == before.function_seq()
}

/// `after` is `before` with one more scope, whose parent is `parent`, that binds the names
/// `names` to the values `args`, one for one, and nothing else.
pub open spec fn bound_arguments(before: Store, after: Store, parent: int, names: Seq<String>, args: Seq<DataType>) -> bool {
    let s = before.scope_seq().len() as int;
    &&& after.scope_seq().len() == s + 1
    &&& forall|j: int| 0 <= j < s ==> #[trigger] after.scope_seq()[j] == before.scope_seq()[j]
    &&& after.scope_seq()[s].parent == Some(parent as usize)
    &&& forall|k: int| 0 <= k < names.len() ==> #[trigger] after.lookup(s, names[k]@) == Some(args[k])
    &&& forall|n: Seq<char>| #[trigger] after.scope_seq()[s].view().contains_key(n) ==> exists|k: int|
        0 <= k < names.len() && #[trigger] names[k]@ == n
    &&& after.list_seq() == before.list_seq()
    &&& after.dict_seq() == before.dict_seq()
    &&& after.function_seq() == before.function_seq()
}

/// A statement that makes nothing: a declaration, an assignment to a variable, an
/// expression or a `return` of an expression that makes nothing; `break`; `continue`; an
/// `if` with such a condition and a body of such statements.
pub open spec fn simple_statement(s: StatementType) -> bool
    decreases s,
{
    match s {
        StatementType::VariableDeclaration(v) => makes_nothing(v.value),
        StatementType::Expression(ExpressionStatement::Assignment(a)) => a.identifier is Identifier && makes_nothing(a.value),
        StatementType::Expression(ExpressionStatement::Inline(e)) => makes_nothing(e),
        StatementType::Return(e) => makes_nothing(e),
        StatementType::IfStatement(i) => makes_nothing(i.condition) && forall|k: int|
            0 <= k < i.body.statements@.len() ==> simple_statement(#[trigger] i.body.statements@[k]),
        StatementType::Break => true,
        StatementType::Continue => true,
        _ => false,
    }
}

/// Every statement of `statements` makes nothing.
pub open spec fn simple_block(statements: Seq<StatementType>) -> bool {
    forall|k: int| 0 <= k < statements.len() ==> simple_statement(#[trigger] statements[k])
}

/// How a statement ran: the value its expression gave; nothing to note; or, for an `if`
/// whose body ran, the store with the body's new scope and the steps of the body.
pub enum Trace {
    Value(DataType),
    Nothing,
    Body(Store, Seq<Step>),
}

/// A statement of a block that ran: the store after it, how it ended and how it ran.
pub struct Step {
    pub store: Store,
    pub out: StatementResult,
    pub trace: Trace,
}

/// Running the statement `s` in `scope` takes the store `before` to `after` and ends with
/// `out`, as `t` shows:
/// - a declaration binds, in `scope` and only there, a name `scope` did not declare to a
///   value of the expression;
/// - an assignment gives the name a value of the expression in the nearest scope outwards
///   that declares it;
/// - an expression changes nothing, `return` ends with a value of its expression, `break`
///   and `continue` end as they say;
/// - an `if` whose condition is `false` changes nothing; where it is `true` the body runs in
///   a new scope whose parent is `scope`, and the `if` ends as its body does.
pub open spec fn statement_runs_to(before: Store, scope: int, s: StatementType, after: Store, out: StatementResult, t: Trace) -> bool
    decreases s,
{
    match s {
        StatementType::VariableDeclaration(v) => match t {
            Trace::Value(x) => {
                &&& out == StatementResult::Void
                &&& !before.scope_seq()[scope].view().contains_key(v.identifier@)
                &&& value_of(before, scope, v.value, x)
                &&& rebound(before, after, scope, v.identifier@, x)
            },
            _ => false,
        },
        StatementType::Expression(ExpressionStatement::Assignment(a)) => match (a.identifier, t) {
            (ExpressionType::Identifier(i), Trace::Value(x)) => {
                &&& out == StatementResult::Void
                &&& value_of(before, scope, a.value, x)
                &&& rebound(before, after, declaring_scope(before.scope_seq(), scope, i.name@), i.name@, x)
            },
            _ => false,
        },
        StatementType::Expression(ExpressionStatement::Inline(_)) => out == StatementResult::Void && same_store(after, before),
        StatementType::Return(e) => match t {
            Trace::Value(x) => same_store(after, before) && value_of(before, scope, e, x) && out == StatementResult::Return(x),
            _ => false,
        },
        StatementType::Break => same_store(after, before) && out == StatementResult::Break,
        StatementType::Continue => same_store(after, before) && out == StatementResult::Continue,
        StatementType::IfStatement(i) => match t {
            Trace::Body(mid, steps) => {
                &&& value_of(before, scope, i.condition, DataType::Boolean(true))
                &&& opened(before, mid, scope)
                &&& block_runs_to(mid, before.scope_seq().len() as int, i.body.statements@, steps, after, out)
            },
            _ => value_of(before, scope, i.condition, DataType::Boolean(false)) && same_store(after, before)
                && out == StatementResult::Void,
        },
        _ => false,
    }
}

/// The store after the steps `steps` of a block that started from `before`.
pub open spec fn store_after(before: Store, steps: Seq<Step>) -> Store {
    if steps.len() == 0 {
        before
    } else {
        steps[steps.len() - 1].store
    }
}

/// Running the statements in order, in `scope`, takes `before` to `after` and ends with
/// `out`, as `steps` show, one for each statement that ran: the block ends with the first
/// statement that does not end normally, and normally where none does.
pub open spec fn block_runs_to(
    before: Store,
    scope: int,
    statements: Seq<StatementType>,
    steps: Seq<Step>,
    after: Store,
    out: StatementResult,
) -> bool
    decreases statements,
{
    if statements.len() == 0 {
        steps.len() == 0 && same_store(after, before) && out == StatementResult::Void
    } else if steps.len() == statements.len() {
        let mid = store_after(before, steps.drop_last());
        let last = steps[steps.len() - 1];
        &&& block_runs_to(before, scope, statements.drop_last(), steps.drop_last(), mid, StatementResult::Void)
        &&& statement_runs_to(mid, scope, statements[statements.len() - 1], last.store, last.out, last.trace)
        &&& same_store(after, last.store)
        &&& out == last.out
    } else {
        out != StatementResult::Void && block_runs_to(before, scope, statements.drop_last(), steps, after, out)
    }
}

/// A block whose first `k` statements ran normally, as `steps` show, runs one statement
/// further with the next one's step.
pub proof fn lemma_block_step(
    before: Store,
    scope: int,
    statements: Seq<StatementType>,
    steps: Seq<Step>,
    next: Step,
)
    requires
        0 <= steps.len() < statements.len(),
        block_runs_to(before, scope, statements.take(steps.len() as int), steps, store_after(before, steps), StatementResult::Void),
        statement_runs_to(store_after(before, steps), scope, statements[steps.len() as int], next.store, next.out, next.trace),
    ensures
        block_runs_to(before, scope, statements.take(steps.len() + 1int), steps.push(next), next.store, next.out),
{
    let k = steps.len() as int;
    let longer = statements.take(k + 1);
    let more = steps.push(next);
    assert(longer.drop_last() =~= statements.take(k));
    assert(more.drop_last() =~= steps);
    assert(longer[longer.len() - 1] == statements[k]);
}

/// A block that ended early, after its first `steps.len()` statements, ends there whatever
/// follows.
pub proof fn lemma_block_stops(
    before: Store,
    scope: int,
    statements: Seq<StatementType>,
    k: int,
    steps: Seq<Step>,
    after: Store,
    out: StatementResult,
)
    requires
        steps.len() <= k <= statements.len(),
        out != StatementResult::Void,
        block_runs_to(before, scope, statements.take(k), steps, after, out),
    ensures
        block_runs_to(before, scope, statements, steps, after, out),
    decreases statements.len() - k,
{
    if k < statements.len() {
        let longer = statements.take(k + 1);
        assert(longer.drop_last() =~= statements.take(k));
        assert(block_runs_to(before, scope, longer, steps, after, out));
        lemma_block_stops(before, scope, statements, k + 1, steps, after, out);
    } else {
        assert(statements.take(k) =~= statements);
    }
}

} // verus!
