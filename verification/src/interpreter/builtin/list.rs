//! The methods of lists: `pop`, `push`, `clear`, `len`.
use crate::host::Host;
use crate::interpreter::builtin::{CallInfo, ExecutionError};
use crate::interpreter::coerce::{expect_list, spec_kind_name, spec_kind_of, Args};
use crate::interpreter::datatype::{DataType, ListRef};
use crate::interpreter::store::Store;
use crate::text::cat;
use vstd::prelude::*;

verus! {

/// The list a list method is called on.
pub fn list_receiver(receiver: &Option<DataType>, fn_name: &str) -> (r: Result<ListRef, ExecutionError>)
    ensures
        *receiver matches Some(DataType::List(l)) ==> r == Ok::<ListRef, ExecutionError>(l),
        !(*receiver matches Some(DataType::List(_))) ==> (r matches Err(e) && e.spec_name() == fn_name@),
        *receiver matches Some(v) ==> (!(v is List) ==> (r matches Err(e) && e.spec_reason()
            == "Expected to be called on List, instead found: "@ + spec_kind_name(spec_kind_of(v)))),
{
    match receiver {
        None => Err(ExecutionError::from_string(CallInfo::new(fn_name), cat(fn_name, " can only be called on a list"))),
        Some(v) => match expect_list(v) {
            Ok(l) => Ok(l),
            Err(kind) => Err(ExecutionError::from_string(CallInfo::new(fn_name), cat("Expected to be called on List, instead found: ", kind.name()))),
        },
    }
}

/// `list.pop()`: removes and returns the last value; `undefined` for an empty list.
pub fn pop(store: &mut Store, receiver: &Option<DataType>, args: &Vec<DataType>) -> (r: Result<DataType, ExecutionError>)
    requires
        old(store).wf(),
    ensures
        final(store).wf(),
        args@.len() != 0 ==> r is Err && *final(store) == *old(store),
        r is Err ==> final(store).list_seq() == old(store).list_seq(),
        final(store).scope_seq() == old(store).scope_seq(),
        final(store).dict_seq() == old(store).dict_seq(),
        final(store).function_seq() == old(store).function_seq(),
        r is Ok <==> (args@.len() == 0 && (*receiver matches Some(DataType::List(l)) && l.index < old(store).list_seq().len())),
        *receiver matches Some(DataType::List(l)) ==> (r is Ok ==> {
            let before = old(store).list_seq()[l.index as int].values@;
            &&& (before.len() == 0 ==> r == Ok::<DataType, ExecutionError>(DataType::Undefined)
                && final(store).list_seq()[l.index as int].values@ == before)
            &&& (before.len() > 0 ==> r == Ok::<DataType, ExecutionError>(before.last())
                && final(store).list_seq()[l.index as int].values@ == before.drop_last())
        }),
        *receiver matches Some(DataType::List(l)) ==> (r is Ok ==> final(store).list_seq().len() == old(store).list_seq().len()
            && forall|i: int| 0 <= i < old(store).list_seq().len() && i != l.index ==> #[trigger] final(store).list_seq()[i]
                == old(store).list_seq()[i]),
{
    let checked = Args::new("clear", args);
    if let Err(e) = checked.exact(0) {
        return Err(ExecutionError::from_argument_error(e));
    }
    let list = list_receiver(receiver, "pop")?;
    match store.list_pop(list)? {
        Some(v) => Ok(v),
        None => Ok(DataType::Undefined),
    }
}

/// `list.push(value)`: appends the value; `undefined`.
pub fn push(store: &mut Store, receiver: &Option<DataType>, args: &Vec<DataType>) -> (r: Result<DataType, ExecutionError>)
    requires
        old(store).wf(),
    ensures
        final(store).wf(),
        args@.len() != 1 ==> r is Err && *final(store) == *old(store),
        r is Err ==> final(store).list_seq() == old(store).list_seq(),
        r matches Ok(v) ==> v is Undefined,
        final(store).scope_seq() == old(store).scope_seq(),
        final(store).dict_seq() == old(store).dict_seq(),
        final(store).function_seq() == old(store).function_seq(),
        r is Ok <==> (args@.len() == 1 && (*receiver matches Some(DataType::List(l)) && l.index < old(store).list_seq().len())),
        *receiver matches Some(DataType::List(l)) ==> (r is Ok ==> final(store).list_seq()[l.index as int].values@
            == old(store).list_seq()[l.index as int].values@.push(args@[0])),
        *receiver matches Some(DataType::List(l)) ==> (r is Ok ==> final(store).list_seq().len() == old(store).list_seq().len()
            && forall|i: int| 0 <= i < old(store).list_seq().len() && i != l.index ==> #[trigger] final(store).list_seq()[i]
                == old(store).list_seq()[i]),
{
    let checked = Args::new("push", args);
    if let Err(e) = checked.exact(1) {
        return Err(ExecutionError::from_argument_error(e));
    }
    let value = match checked.any(0) {
        Ok(v) => v,
        Err(e) => return Err(ExecutionError::from_argument_error(e)),
    };
    let list = list_receiver(receiver, "push")?;
    store.list_push(list, value)?;
    Ok(DataType::Undefined)
}

/// `list.clear()`: removes every value; `undefined`.
pub fn clear(store: &mut Store, receiver: &Option<DataType>, args: &Vec<DataType>) -> (r: Result<DataType, ExecutionError>)
    requires
        old(store).wf(),
    ensures
        final(store).wf(),
        args@.len() != 0 ==> r is Err && *final(store) == *old(store),
        r is Err ==> final(store).list_seq() == old(store).list_seq(),
        r matches Ok(v) ==> v is Undefined,
        final(store).scope_seq() == old(store).scope_seq(),
        final(store).dict_seq() == old(store).dict_seq(),
        final(store).function_seq() == old(store).function_seq(),
        r is Ok <==> (args@.len() == 0 && (*receiver matches Some(DataType::List(l)) && l.index < old(store).list_seq().len())),
        *receiver matches Some(DataType::List(l)) ==> (r is Ok ==> final(store).list_seq()[l.index as int].values@.len() == 0),
        *receiver matches Some(DataType::List(l)) ==> (r is Ok ==> final(store).list_seq().len() == old(store).list_seq().len()
            && forall|i: int| 0 <= i < old(store).list_seq().len() && i != l.index ==> #[trigger] final(store).list_seq()[i]
                == old(store).list_seq()[i]),
{
    let checked = Args::new("clear", args);
    if let Err(e) = checked.exact(0) {
        return Err(ExecutionError::from_argument_error(e));
    }
    let list = list_receiver(receiver, "clear")?;
    store.list_clear(list)?;
    Ok(DataType::Undefined)
}

/// What `list.len()` gives: the number the host makes of the count of the values the
/// receiver list holds in the store.
pub open spec fn length_result<H: Host>(
    store: &Store,
    host: &H,
    receiver: Option<DataType>,
    args: Seq<DataType>,
    r: Result<DataType, ExecutionError>,
) -> bool {
    receiver matches Some(DataType::List(l)) ==> ((args.len() == 0 && l.index < store.list_seq().len()) ==> (
        r matches Ok(DataType::Number(x)) && call_ensures(H::number_from_count, (host, store.list_seq()[l.index as int].values.len()), x)))
}

/// `list.len()`: the number of values.
pub fn len<H: Host>(store: &Store, host: &H, receiver: &Option<DataType>, args: &Vec<DataType>) -> (r: Result<DataType, ExecutionError>)
    ensures
        args@.len() != 0 ==> r is Err,
        r matches Ok(v) ==> v is Number,
        (*receiver matches Some(DataType::List(l)) && args@.len() == 0 && l.index < store.list_seq().len()) ==> r is Ok,
        length_result(store, host, *receiver, args@, r),
{
    let checked = Args::new("len", args);
    if let Err(e) = checked.exact(0) {
        return Err(ExecutionError::from_argument_error(e));
    }
    let list = list_receiver(receiver, "len")?;
    match store.list(list) {
        Some(l) => Ok(DataType::Number(host.number_from_count(l.length()))),
        None => Err(crate::interpreter::store::unknown_reference()),
    }
}

/// `list.len()` is the count of all the values the list holds, as the host writes counts:
/// for a list of `k` values it is the host's number for `k`, not for `k - 1`.
pub proof fn law_length_counts_every_value<H: Host>(store: &Store, host: &H, l: ListRef, r: Result<DataType, ExecutionError>)
    requires
        l.index < store.list_seq().len(),
        length_result(store, host, Some(DataType::List(l)), Seq::empty(), r),
    ensures
        exists|x: crate::host::NumberValue| r == Ok::<DataType, ExecutionError>(DataType::Number(x))
            && #[trigger] call_ensures(H::number_from_count, (host, store.list_seq()[l.index as int].values@.len() as usize), x),
{
}

} // verus!
