//! The methods of dictionaries: `has`, `delete`, `clear`, `len`.
use crate::host::Host;
use crate::interpreter::builtin::{CallInfo, ExecutionError};
use crate::interpreter::coerce::{expect_dict, spec_kind_name, spec_kind_of, Args};
use crate::interpreter::datatype::{DataType, DictRef};
use crate::interpreter::store::{unknown_reference, Store};
use crate::text::cat;
use vstd::prelude::*;

verus! {

/// A change a program makes to a dictionary: setting a key (`d[key] = value`), deleting it
/// (`d.delete(key)`) or emptying the dictionary (`d.clear()`).
pub enum KeyChange {
    Assigned { key: Seq<char>, value: DataType },
    Deleted { key: Seq<char> },
    Cleared,
}

/// The entries of a dictionary that held `entries`, after `changes`, in order.
pub open spec fn after_changes(entries: Map<Seq<char>, DataType>, changes: Seq<KeyChange>) -> Map<Seq<char>, DataType>
    decreases changes.len(),
{
    if changes.len() == 0 {
        entries
    } else {
        let before = after_changes(entries, changes.drop_last());
        match changes.last() {
            KeyChange::Assigned { key, value } => before.insert(key, value),
            KeyChange::Deleted { key } => before.remove(key),
            KeyChange::Cleared => Map::empty(),
        }
    }
}

/// Whether `key` is in a dictionary after `changes`, which had it where `had`: as the last
/// change to that key left it, or as it was where none touched it.
pub open spec fn has_after(had: bool, changes: Seq<KeyChange>, key: Seq<char>) -> bool
    decreases changes.len(),
{
    if changes.len() == 0 {
        had
    } else {
        match changes.last() {
            KeyChange::Assigned { key: k, .. } => if k == key { true } else { has_after(had, changes.drop_last(), key) },
            KeyChange::Deleted { key: k } => if k == key { false } else { has_after(had, changes.drop_last(), key) },
            KeyChange::Cleared => false,
        }
    }
}

/// `has(key)` after any history of sets, deletes and clears answers as the last change to
/// `key` left it: `true` after a set, `false` after a delete or a clear, and as before where
/// none touched it; a new dictionary is one whose entries were empty. (`has` answers
/// `contains_key` of the entries, a set inserts, a delete removes and a clear empties.)
pub proof fn law_has_follows_the_last_change(entries: Map<Seq<char>, DataType>, changes: Seq<KeyChange>, key: Seq<char>)
    ensures
        after_changes(entries, changes).contains_key(key) == has_after(entries.contains_key(key), changes, key),
    decreases changes.len(),
{
    if changes.len() > 0 {
        law_has_follows_the_last_change(entries, changes.drop_last(), key);
    }
}

/// A dictionary value copied before a set sees the set: the copy refers to the same
/// dictionary of the store, whose entries the set changed.
pub proof fn law_set_seen_through_copies(before: Store, after: Store, d: DictRef, copy: DataType, key: Seq<char>, value: DataType)
    requires
        copy == DataType::Dictionary(d),
        d.index < before.dict_seq().len(),
        after.dict_seq()[d.index as int].view() == before.dict_seq()[d.index as int].view().insert(key, value),
    ensures
        copy matches DataType::Dictionary(c) && after.dict_seq()[c.index as int].view().contains_key(key)
            && after.dict_seq()[c.index as int].view()[key] == value,
{
}

/// The dictionary a dictionary method is called on.
pub fn dict_receiver(receiver: &Option<DataType>, fn_name: &str) -> (r: Result<DictRef, ExecutionError>)
    ensures
        *receiver matches Some(DataType::Dictionary(d)) ==> r == Ok::<DictRef, ExecutionError>(d),
        !(*receiver matches Some(DataType::Dictionary(_))) ==> (r matches Err(e) && e.spec_name() == fn_name@),
        *receiver matches Some(v) ==> (!(v is Dictionary) ==> (r matches Err(e) && e.spec_reason()
            == "Expected to be called on Dictionary, instead found: "@ + spec_kind_name(spec_kind_of(v)))),
{
    match receiver {
        None => Err(ExecutionError::from_string(CallInfo::new(fn_name), cat(fn_name, " can only be called on a dictionary"))),
        Some(v) => match expect_dict(v) {
            Ok(d) => Ok(d),
            Err(kind) => Err(ExecutionError::from_string(CallInfo::new(fn_name), cat("Expected to be called on Dictionary, instead found: ", kind.name()))),
        },
    }
}

/// `dict.has(key)`: whether the dictionary holds the key.
pub fn has<H: Host>(store: &Store, host: &H, receiver: &Option<DataType>, args: &Vec<DataType>) -> (r: Result<DataType, ExecutionError>)
    requires
        store.wf(),
    ensures
        args@.len() != 1 ==> r is Err,
        r matches Ok(v) ==> v is Boolean,
        r is Ok <==> (args@.len() == 1 && (args@[0] is String || args@[0] is Number || args@[0] is Boolean)
            && (*receiver matches Some(DataType::Dictionary(d)) && d.index < store.dict_seq().len())),
        *receiver matches Some(DataType::Dictionary(d)) ==> (args@.len() == 1 ==> (args@[0] matches DataType::String(k) ==> (
            d.index < store.dict_seq().len() ==> r == Ok::<DataType, ExecutionError>(DataType::Boolean(store.dict_seq()[d.index as int].view().contains_key(k@)))))),
{
    let checked = Args::new("has", args);
    if let Err(e) = checked.exact(1) {
        return Err(ExecutionError::from_argument_error(e));
    }
    let key = match checked.string(0, host) {
        Ok(k) => k,
        Err(e) => return Err(ExecutionError::from_argument_error(e)),
    };
    let dict = dict_receiver(receiver, "has")?;
    match store.dictionary(dict) {
        Some(d) => Ok(DataType::Boolean(d.has(key.as_str()))),
        None => Err(unknown_reference()),
    }
}

/// `dict.delete(key)`: removes the key; `undefined`.
pub fn delete<H: Host>(store: &mut Store, host: &H, receiver: &Option<DataType>, args: &Vec<DataType>) -> (r: Result<DataType, ExecutionError>)
    requires
        old(store).wf(),
    ensures
        final(store).wf(),
        args@.len() != 1 ==> r is Err && *final(store) == *old(store),
        r is Err ==> final(store).dict_seq() == old(store).dict_seq(),
        r matches Ok(v) ==> v is Undefined,
        final(store).scope_seq() == old(store).scope_seq(),
        final(store).list_seq() == old(store).list_seq(),
        final(store).function_seq() == old(store).function_seq(),
        r is Ok <==> (args@.len() == 1 && (args@[0] is String || args@[0] is Number || args@[0] is Boolean)
            && (*receiver matches Some(DataType::Dictionary(d)) && d.index < old(store).dict_seq().len())),
        *receiver matches Some(DataType::Dictionary(d)) ==> (args@.len() == 1 ==> (args@[0] matches DataType::String(k) ==> (
            r is Ok ==> final(store).dict_seq()[d.index as int].view() == old(store).dict_seq()[d.index as int].view().remove(k@)))),
{
    let checked = Args::new("delete", args);
    if let Err(e) = checked.exact(1) {
        return Err(ExecutionError::from_argument_error(e));
    }
    let key = match checked.string(0, host) {
        Ok(k) => k,
        Err(e) => return Err(ExecutionError::from_argument_error(e)),
    };
    let dict = dict_receiver(receiver, "delete")?;
    store.dict_delete(dict, key.as_str())?;
    Ok(DataType::Undefined)
}

/// `dict.clear()`: removes every key; `undefined`.
pub fn clear(store: &mut Store, receiver: &Option<DataType>, args: &Vec<DataType>) -> (r: Result<DataType, ExecutionError>)
    requires
        old(store).wf(),
    ensures
        final(store).wf(),
        args@.len() != 0 ==> r is Err && *final(store) == *old(store),
        r is Err ==> final(store).dict_seq() == old(store).dict_seq(),
        r matches Ok(v) ==> v is Undefined,
        final(store).scope_seq() == old(store).scope_seq(),
        final(store).list_seq() == old(store).list_seq(),
        final(store).function_seq() == old(store).function_seq(),
        r is Ok <==> (args@.len() == 0 && (*receiver matches Some(DataType::Dictionary(d)) && d.index < old(store).dict_seq().len())),
        *receiver matches Some(DataType::Dictionary(d)) ==> (r is Ok ==> final(store).dict_seq()[d.index as int].view()
            == Map::<Seq<char>, DataType>::empty()),
{
    let checked = Args::new("clear", args);
    if let Err(e) = checked.exact(0) {
        return Err(ExecutionError::from_argument_error(e));
    }
    let dict = dict_receiver(receiver, "clear")?;
    store.dict_clear(dict)?;
    Ok(DataType::Undefined)
}

/// What `dictionary.len()` gives: the number the host makes of the count of the keys the
/// receiver dictionary holds in the store.
pub open spec fn size_result<H: Host>(
    store: &Store,
    host: &H,
    receiver: Option<DataType>,
    args: Seq<DataType>,
    r: Result<DataType, ExecutionError>,
) -> bool {
    receiver matches Some(DataType::Dictionary(d)) ==> ((args.len() == 0 && d.index < store.dict_seq().len()) ==> (
        r matches Ok(DataType::Number(x)) && call_ensures(H::number_from_count,
        (host, store.dict_seq()[d.index as int].view().dom().len() as usize), x)))
}

/// `dictionary.len()` is the count of all the keys the dictionary holds, as the host writes
/// counts.
pub proof fn law_size_counts_every_key<H: Host>(store: &Store, host: &H, d: DictRef, r: Result<DataType, ExecutionError>)
    requires
        d.index < store.dict_seq().len(),
        size_result(store, host, Some(DataType::Dictionary(d)), Seq::empty(), r),
    ensures
        exists|x: crate::host::NumberValue| r == Ok::<DataType, ExecutionError>(DataType::Number(x))
            && #[trigger] call_ensures(H::number_from_count, (host, store.dict_seq()[d.index as int].view().dom().len() as usize), x),
{
}

/// `dict.len()`: the number of keys.
pub fn len<H: Host>(store: &Store, host: &H, receiver: &Option<DataType>, args: &Vec<DataType>) -> (r: Result<DataType, ExecutionError>)
    requires
        store.wf(),
    ensures
        args@.len() != 0 ==> r is Err,
        r matches Ok(v) ==> v is Number,
        (*receiver matches Some(DataType::Dictionary(d)) && args@.len() == 0 && d.index < store.dict_seq().len()) ==> r is Ok,
        size_result(store, host, *receiver, args@, r),
{
    let checked = Args::new("len", args);
    if let Err(e) = checked.exact(0) {
        return Err(ExecutionError::from_argument_error(e));
    }
    let dict = dict_receiver(receiver, "len")?;
    match store.dictionary(dict) {
        Some(d) => Ok(DataType::Number(host.number_from_count(d.length()))),
        None => Err(unknown_reference()),
    }
}

} // verus!
