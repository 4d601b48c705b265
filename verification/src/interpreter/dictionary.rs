//! Dictionaries: maps from text keys to values.
use crate::entries::Entries;
use crate::host::Host;
use crate::interpreter::builtin::{CallInfo, ExecutionError};
use crate::interpreter::coerce::{Args, ArgumentError};
use crate::interpreter::datatype::DataType;
use vstd::prelude::*;

verus! {

pub struct DictionaryDeclaration {
    pub(crate) entries: Entries<DataType>,
}

impl ExecutionError {
    /// The execution error an argument error becomes: named after the function.
    pub fn from_argument_error(value: ArgumentError) -> (e: ExecutionError)
        ensures
            e.spec_reason() == crate::interpreter::coerce::spec_argument_error_text(value),
    {
        let reason = value.to_text();
        let name = value.fn_name();
        ExecutionError::from_string(CallInfo::new(name.as_str()), reason)
    }
}

impl DictionaryDeclaration {
    pub closed spec fn view(&self) -> Map<Seq<char>, DataType> {
        self.entries.view()
    }

    pub closed spec fn wf(&self) -> bool {
        self.entries.wf()
    }

    pub closed spec fn entry_seq(&self) -> Seq<(String, DataType)> {
        self.entries.pairs()
    }

    pub fn new(entries: Entries<DataType>) -> (d: Self)
        requires
            entries.wf(),
        ensures
            d.wf(),
            d.view() == entries.view(),
    {
        DictionaryDeclaration { entries }
    }

    pub fn empty() -> (d: Self)
        ensures
            d.wf(),
            d.view() == Map::<Seq<char>, DataType>::empty(),
    {
        DictionaryDeclaration { entries: Entries::new() }
    }

    pub fn has(&self, key: &str) -> (b: bool)
        requires
            self.wf(),
        ensures
            b == self.view().contains_key(key@),
    {
        self.entries.contains(key)
    }

    /// The value of `key`; `undefined` where there is none.
    pub fn get(&self, key: &str) -> (v: DataType)
        requires
            self.wf(),
        ensures
            self.view().contains_key(key@) ==> v == self.view()[key@],
            !self.view().contains_key(key@) ==> v == DataType::Undefined,
    {
        match self.entries.get(key) {
            Some(data) => data.duplicate(),
            None => DataType::Undefined,
        }
    }

    /// Sets the value of the key that `key` reads as (a string, number or boolean).
    pub fn set<H: Host>(&mut self, key: &DataType, value: DataType, host: &H) -> (r: Result<(), ExecutionError>)
        requires
            old(self).wf(),
        ensures
            final(self).wf(),
            r is Ok <==> (key is String || key is Number || key is Boolean),
            r is Err ==> final(self).view() == old(self).view(),
            key matches DataType::String(k) ==> final(self).view() == old(self).view().insert(k@, value),
            key matches DataType::Boolean(b) ==> final(self).view() == old(self).view().insert(
                crate::text::spec_bool_text(*b),
                value,
            ),
            key is Number ==> exists|k: Seq<char>| final(self).view() == old(self).view().insert(k, value),
    {
        let mut arguments: Vec<DataType> = Vec::new();
        arguments.push(key.duplicate());
        let args = Args::new("set", &arguments);
        let key_string = match args.string(0, host) {
            Ok(s) => s,
            Err(e) => return Err(ExecutionError::from_argument_error(e)),
        };
        let ghost k = key_string@;
        self.entries.insert(key_string, value);
        assert(final(self).view() == old(self).view().insert(k, value));
        Ok(())
    }

    pub fn delete(&mut self, key: &str)
        requires
            old(self).wf(),
        ensures
            final(self).wf(),
            final(self).view() == old(self).view().remove(key@),
    {
        self.entries.remove(key)
    }

    pub fn clear(&mut self)
        ensures
            final(self).wf(),
            final(self).view() == Map::<Seq<char>, DataType>::empty(),
    {
        self.entries.clear()
    }

    /// The number of keys.
    pub fn length(&self) -> (n: usize)
        requires
            self.wf(),
        ensures
            n == self.view().dom().len(),
    {
        self.entries.len()
    }

    pub fn count(&self) -> (n: usize)
        ensures
            n == self.entry_seq().len(),
    {
        self.entries.count()
    }

    pub fn key_at(&self, i: usize) -> (k: &String)
        requires
            i < self.entry_seq().len(),
        ensures
            *k == self.entry_seq()[i as int].0,
    {
        self.entries.key_at(i)
    }

    pub fn value_at(&self, i: usize) -> (v: &DataType)
        requires
            i < self.entry_seq().len(),
        ensures
            *v == self.entry_seq()[i as int].1,
    {
        self.entries.value_at(i)
    }
}

/// A dictionary prints each of its keys once, with the value it holds: the pairs it prints
/// are exactly its contents, and no key comes twice.
pub proof fn law_printed_pairs_are_the_contents(d: DictionaryDeclaration)
    requires
        d.wf(),
    ensures
        forall|i: int| 0 <= i < d.entry_seq().len() ==> #[trigger] d.view().contains_key(d.entry_seq()[i].0@)
            && d.view()[d.entry_seq()[i].0@] == d.entry_seq()[i].1,
        forall|k: Seq<char>| #[trigger] d.view().contains_key(k) ==> exists|i: int| 0 <= i < d.entry_seq().len()
            && #[trigger] d.entry_seq()[i].0@ == k,
        forall|i: int, j: int| 0 <= i < j < d.entry_seq().len() ==> #[trigger] d.entry_seq()[i].0@
            != #[trigger] d.entry_seq()[j].0@,
{
    d.entries.lemma_pairs();
    assert forall|k: Seq<char>| #[trigger] d.view().contains_key(k) implies exists|i: int| 0 <= i
        < d.entry_seq().len() && #[trigger] d.entry_seq()[i].0@ == k by {
        let i = choose|i: int| 0 <= i < d.entries.pairs().len() && #[trigger] d.entries.pairs()[i].0@ == k;
        assert(d.entry_seq()[i].0@ == k);
    }
}

/// After `set` of a key, `get` of that key gives the value set and `has` holds; other
/// keys keep their values.
pub proof fn law_get_after_set(entries: Map<Seq<char>, DataType>, key: Seq<char>, value: DataType, other: Seq<char>)
    requires
        other != key,
    ensures
        entries.insert(key, value).contains_key(key),
        entries.insert(key, value)[key] == value,
        entries.insert(key, value).contains_key(other) == entries.contains_key(other),
        entries.contains_key(other) ==> entries.insert(key, value)[other] == entries[other],
{
}

/// After `delete` of a key, `has` of it fails and `get` of it gives `undefined`; other keys
/// keep their values.
pub proof fn law_has_after_delete(entries: Map<Seq<char>, DataType>, key: Seq<char>, other: Seq<char>)
    requires
        other != key,
    ensures
        !entries.remove(key).contains_key(key),
        crate::interpreter::coerce::spec_entry(entries.remove(key), key) == DataType::Undefined,
        entries.remove(key).contains_key(other) == entries.contains_key(other),
        entries.contains_key(other) ==> entries.remove(key)[other] == entries[other],
{
}

/// After `clear`, `len` is zero.
pub proof fn law_len_after_clear()
    ensures
        Map::<Seq<char>, DataType>::empty().dom().len() == 0,
{
}

} // verus!
