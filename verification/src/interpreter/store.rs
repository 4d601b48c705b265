//! Everything a running program has made and keeps across calls: its scopes, lists,
//! dictionaries and declared functions. Values refer to lists, dictionaries and functions by
//! their place here, so that two variables can hold the same list.
use crate::interpreter::builtin::{CallInfo, ExecutionError};
use crate::interpreter::datatype::{DataType, DictRef, ListRef};
use crate::interpreter::dictionary::DictionaryDeclaration;
use crate::interpreter::function::FunctionDeclaration;
use crate::interpreter::list::ListDeclaration;
use crate::interpreter::scope::{
    declaring_scope, lemma_lookup_grows, lemma_lookup_other_name, lemma_lookup_push, lemma_reaches_declaring,
    lemma_reaches_lookup,
    lemma_reaches_step, lemma_reaches_update, lookup, reaches, scopes_wf, Scope,
};
use crate::host::Host;
use crate::text::{cat3, spec_bool_text};
use vstd::prelude::*;

verus! {

pub struct Store {
    pub(crate) scopes: Vec<Scope>,
    pub(crate) lists: Vec<ListDeclaration>,
    pub(crate) dicts: Vec<DictionaryDeclaration>,
    pub(crate) functions: Vec<FunctionDeclaration>,
}

impl Store {
    pub closed spec fn scope_seq(&self) -> Seq<Scope> {
        self.scopes@
    }

    pub closed spec fn list_seq(&self) -> Seq<ListDeclaration> {
        self.lists@
    }

    pub closed spec fn dict_seq(&self) -> Seq<DictionaryDeclaration> {
        self.dicts@
    }

    pub closed spec fn function_seq(&self) -> Seq<FunctionDeclaration> {
        self.functions@
    }

    /// The value of `name` seen from scope `scope`, if it is declared there or further out.
    pub open spec fn lookup(&self, scope: int, name: Seq<char>) -> Option<DataType> {
        lookup(self.scope_seq(), scope, name)
    }

    pub closed spec fn wf(&self) -> bool {
        &&& scopes_wf(self.scopes@)
        &&& forall|i: int| 0 <= i < self.dicts@.len() ==> (#[trigger] self.dicts@[i]).wf()
        &&& forall|i: int|
            0 <= i < self.functions@.len() ==> (#[trigger] self.functions@[i]).scope
                < self.scopes@.len()
    }

    pub fn new() -> (s: Store)
        ensures
            s.wf(),
            s.scope_seq().len() == 0,
            s.list_seq().len() == 0,
            s.dict_seq().len() == 0,
            s.function_seq().len() == 0,
    {
        Store { scopes: Vec::new(), lists: Vec::new(), dicts: Vec::new(), functions: Vec::new() }
    }

    /// Adds a scope with no variables of its own under `parent`; its place.
    pub fn new_scope(&mut self, parent: Option<usize>) -> (s: usize)
        requires
            old(self).wf(),
            parent matches Some(p) ==> p < old(self).scope_seq().len(),
        ensures
            final(self).wf(),
            s == old(self).scope_seq().len(),
            final(self).scope_seq().len() == s + 1,
            final(self).scope_seq()[s as int].parent == parent,
            final(self).scope_seq()[s as int].view() == Map::<Seq<char>, DataType>::empty(),
            forall|i: int| 0 <= i < s ==> final(self).scope_seq()[i] == old(self).scope_seq()[i],
            forall|i: int, n: Seq<char>|
                i < s ==> #[trigger] final(self).lookup(i, n) == old(self).lookup(i, n),
            forall|i: int, n: Seq<char>|
                #[trigger] old(self).lookup(i, n) is Some ==> final(self).lookup(i, n) is Some,
            forall|n: Seq<char>|
                #[trigger] final(self).lookup(s as int, n) == match parent {
                    Some(p) => old(self).lookup(p as int, n),
                    None => None,
                },
            final(self).list_seq() == old(self).list_seq(),
            final(self).dict_seq() == old(self).dict_seq(),
            final(self).function_seq() == old(self).function_seq(),
    {
        let s = self.scopes.len();
        let scope = Scope::new(parent);
        let ghost before = self.scopes@;
        self.scopes.push(scope);
        proof {
            assert forall|i: int, n: Seq<char>| i < s implies #[trigger] lookup(self.scopes@, i, n)
                == lookup(before, i, n) by {
                lemma_lookup_push(before, i, n, scope);
            }
            assert forall|i: int, n: Seq<char>| #[trigger] lookup(before, i, n) is Some implies lookup(self.scopes@, i, n) is Some by {
                lemma_lookup_push(before, i, n, scope);
            }
            assert forall|n: Seq<char>| #[trigger] lookup(self.scopes@, s as int, n) == match parent {
                Some(p) => lookup(before, p as int, n),
                None => None,
            } by {
                if let Some(p) = parent {
                    lemma_lookup_push(before, p as int, n, scope);
                }
            }
        }
        s
    }

    /// The value of `name` seen from `scope`.
    pub fn get_variable(&self, scope: usize, name: &str) -> (r: Result<DataType, ExecutionError>)
        requires
            self.wf(),
        ensures
            r is Ok <==> self.lookup(scope as int, name@) is Some,
            r matches Ok(v) ==> self.lookup(scope as int, name@) == Some(v),
            r matches Err(e) ==> e.spec_reason() == "Variable '"@ + name@ + "' is not declared"@,
    {
        let mut current = scope;
        while current < self.scopes.len()
            invariant
                self.wf(),
                lookup(self.scopes@, scope as int, name@) == lookup(self.scopes@, current as int, name@),
            ensures
                lookup(self.scopes@, scope as int, name@) is None,
            decreases current,
        {
            match self.scopes[current].variables.get(name) {
                Some(v) => {
                    return Ok(v.duplicate());
                },
                None => {},
            }
            match self.scopes[current].parent {
                Some(p) => {
                    current = p;
                },
                None => {
                    break;
                },
            }
        }
        Err(ExecutionError::from_string(CallInfo::new(""), cat3("Variable '", name, "' is not declared")))
    }

    /// Declares `name` in `scope`; refused where the scope declares it already.
    pub fn set_variable(&mut self, scope: usize, name: String, data: DataType) -> (r: Result<
        (),
        ExecutionError,
    >)
        requires
            old(self).wf(),
            scope < old(self).scope_seq().len(),
        ensures
            final(self).wf(),
            r is Err <==> old(self).scope_seq()[scope as int].view().contains_key(name@),
            r is Err ==> *final(self) == *old(self),
            r matches Err(e) ==> e.spec_reason() == "Duplicate identifier '"@ + name@
                + "' already declared"@,
            r is Ok ==> final(self).lookup(scope as int, name@) == Some(data),
            r is Ok ==> final(self).scope_seq()[scope as int].view() == old(
                self,
            ).scope_seq()[scope as int].view().insert(name@, data),
            final(self).scope_seq().len() == old(self).scope_seq().len(),
            forall|i: int|
                0 <= i < final(self).scope_seq().len() ==> (#[trigger] final(self).scope_seq()[i]).parent
                    == old(self).scope_seq()[i].parent,
            forall|i: int| 0 <= i < final(self).scope_seq().len() && i != scope ==> #[trigger] final(self).scope_seq()[i] == old(self).scope_seq()[i],
            forall|i: int, n: Seq<char>|
                n != name@ ==> #[trigger] final(self).lookup(i, n) == old(self).lookup(i, n),
            forall|i: int, n: Seq<char>|
                #[trigger] old(self).lookup(i, n) is Some ==> final(self).lookup(i, n) is Some,
            final(self).list_seq() == old(self).list_seq(),
            final(self).dict_seq() == old(self).dict_seq(),
            final(self).function_seq() == old(self).function_seq(),
    {
        if self.scopes[scope].variables.contains(name.as_str()) {
            return Err(ExecutionError::from_string(CallInfo::new(""), cat3("Duplicate identifier '", name.as_str(), "' already declared")));
        }
        let ghost before = self.scopes@;
        let ghost key = name@;
        self.scopes[scope].variables.insert(name, data);
        proof {
            let after = self.scopes@;
            assert(after == before.update(scope as int, after[scope as int]));
            assert forall|i: int, n: Seq<char>| n != key implies #[trigger] lookup(after, i, n)
                == lookup(before, i, n) by {
                lemma_lookup_other_name(before, i, scope as int, key, n, after[scope as int]);
            }
            assert forall|i: int, n: Seq<char>| #[trigger] lookup(before, i, n) is Some implies lookup(after, i, n) is Some by {
                lemma_lookup_grows(before, after, i, n);
            }
        }
        Ok(())
    }

    /// Gives `name` a new value in the nearest scope, from `scope` outwards, that declares it.
    pub fn update_variable(&mut self, scope: usize, name: &str, data: DataType) -> (r: Result<
        (),
        ExecutionError,
    >)
        requires
            old(self).wf(),
        ensures
            final(self).wf(),
            r is Ok <==> old(self).lookup(scope as int, name@) is Some,
            r is Err ==> *final(self) == *old(self),
            r matches Err(e) ==> e.spec_reason() == "Identifier '"@ + name@ + "' has not declared"@,
            r is Ok ==> final(self).lookup(scope as int, name@) == Some(data),
            r is Ok ==> ({
                let d = declaring_scope(old(self).scope_seq(), scope as int, name@);
                &&& 0 <= d < old(self).scope_seq().len()
                &&& final(self).scope_seq()[d].view() == old(self).scope_seq()[d].view().insert(name@, data)
                &&& forall|i: int| 0 <= i < final(self).scope_seq().len() && i != d
                    ==> #[trigger] final(self).scope_seq()[i] == old(self).scope_seq()[i]
            }),
            final(self).scope_seq().len() == old(self).scope_seq().len(),
            forall|i: int|
                0 <= i < final(self).scope_seq().len() ==> (#[trigger] final(self).scope_seq()[i]).parent
                    == old(self).scope_seq()[i].parent,
            forall|i: int|
                0 <= i < final(self).scope_seq().len() ==> (#[trigger] final(self).scope_seq()[i]).view().dom()
                    == old(self).scope_seq()[i].view().dom(),
            forall|i: int, n: Seq<char>|
                n != name@ ==> #[trigger] final(self).lookup(i, n) == old(self).lookup(i, n),
            forall|i: int, n: Seq<char>|
                #[trigger] old(self).lookup(i, n) is Some ==> final(self).lookup(i, n) is Some,
            final(self).list_seq() == old(self).list_seq(),
            final(self).dict_seq() == old(self).dict_seq(),
            final(self).function_seq() == old(self).function_seq(),
    {
        let mut current = scope;
        while current < self.scopes.len()
            invariant
                self.wf(),
                *self == *old(self),
                lookup(self.scopes@, scope as int, name@) == lookup(self.scopes@, current as int, name@),
                reaches(self.scopes@, scope as int, current as int, name@),
            ensures
                *self == *old(self),
                lookup(self.scopes@, scope as int, name@) is None,
            decreases current,
        {
            if self.scopes[current].variables.contains(name) {
                let ghost before = self.scopes@;
                let ghost key = name@;
                self.scopes[current].variables.insert(name.to_owned(), data);
                proof {
                    let after = self.scopes@;
                    lemma_reaches_declaring(before, scope as int, current as int, key);
                    assert(after == before.update(current as int, after[current as int]));
                    assert(after[current as int].view().dom() =~= before[current as int].view().dom());
                    lemma_reaches_update(before, scope as int, current as int, key, after[current as int]);
                    lemma_reaches_lookup(after, scope as int, current as int, key);
                    assert forall|i: int, n: Seq<char>| n != key implies #[trigger] lookup(after, i, n)
                        == lookup(before, i, n) by {
                        lemma_lookup_other_name(before, i, current as int, key, n, after[current as int]);
                    }
                    assert forall|i: int, n: Seq<char>| #[trigger] lookup(before, i, n) is Some implies lookup(after, i, n) is Some by {
                        lemma_lookup_grows(before, after, i, n);
                    }
                }
                return Ok(());
            }
            match self.scopes[current].parent {
                Some(p) => {
                    proof {
                        lemma_reaches_step(self.scopes@, scope as int, current as int, name@);
                    }
                    current = p;
                },
                None => {
                    break;
                },
            }
        }
        Err(ExecutionError::from_string(CallInfo::new(""), cat3("Identifier '", name, "' has not declared")))
    }

    /// Adds a list holding `values`; the reference to it.
    pub fn new_list(&mut self, values: Vec<DataType>) -> (r: ListRef)
        requires
            old(self).wf(),
        ensures
            final(self).wf(),
            r.index == old(self).list_seq().len(),
            final(self).list_seq() == old(self).list_seq().push(ListDeclaration { values }),
            final(self).scope_seq() == old(self).scope_seq(),
            final(self).dict_seq() == old(self).dict_seq(),
            final(self).function_seq() == old(self).function_seq(),
    {
        let index = self.lists.len();
        self.lists.push(ListDeclaration::new(values));
        ListRef { index }
    }

    /// Adds `dict`; the reference to it.
    pub fn new_dictionary(&mut self, dict: DictionaryDeclaration) -> (r: DictRef)
        requires
            old(self).wf(),
            dict.wf(),
        ensures
            final(self).wf(),
            r.index == old(self).dict_seq().len(),
            final(self).dict_seq() == old(self).dict_seq().push(dict),
            final(self).scope_seq() == old(self).scope_seq(),
            final(self).list_seq() == old(self).list_seq(),
            final(self).function_seq() == old(self).function_seq(),
    {
        let index = self.dicts.len();
        self.dicts.push(dict);
        DictRef { index }
    }

    /// Adds a declared function; its place.
    pub fn new_function(&mut self, function: FunctionDeclaration) -> (r: usize)
        requires
            old(self).wf(),
            function.scope < old(self).scope_seq().len(),
        ensures
            final(self).wf(),
            r == old(self).function_seq().len(),
            final(self).function_seq() == old(self).function_seq().push(function),
            final(self).scope_seq() == old(self).scope_seq(),
            final(self).list_seq() == old(self).list_seq(),
            final(self).dict_seq() == old(self).dict_seq(),
    {
        let index = self.functions.len();
        self.functions.push(function);
        index
    }

    pub fn list(&self, r: ListRef) -> (l: Option<&ListDeclaration>)
        ensures
            r.index < self.list_seq().len() ==> l == Some(&self.list_seq()[r.index as int]),
            r.index >= self.list_seq().len() ==> l is None,
    {
        if r.index < self.lists.len() {
            Some(&self.lists[r.index])
        } else {
            None
        }
    }

    pub fn dictionary(&self, r: DictRef) -> (d: Option<&DictionaryDeclaration>)
        requires
            self.wf(),
        ensures
            r.index < self.dict_seq().len() ==> d == Some(&self.dict_seq()[r.index as int]),
            r.index >= self.dict_seq().len() ==> d is None,
            d matches Some(x) ==> x.wf(),
    {
        if r.index < self.dicts.len() {
            Some(&self.dicts[r.index])
        } else {
            None
        }
    }

    pub fn function(&self, i: usize) -> (f: Option<&FunctionDeclaration>)
        requires
            self.wf(),
        ensures
            f matches Some(x) ==> x.scope < self.scope_seq().len(),
            i < self.function_seq().len() ==> f == Some(&self.function_seq()[i as int]),
            i >= self.function_seq().len() ==> f is None,
    {
        if i < self.functions.len() {
            Some(&self.functions[i])
        } else {
            None
        }
    }

    /// Replaces the value at `index` of list `r`.
    pub fn list_set(&mut self, r: ListRef, index: usize, value: DataType) -> (res: Result<(), ExecutionError>)
        requires
            old(self).wf(),
        ensures
            final(self).wf(),
            res is Ok <==> r.index < old(self).list_seq().len() && index < old(self).list_seq()[r.index as int].values@.len(),
            res is Ok ==> final(self).list_seq() == old(self).list_seq().update(
                r.index as int,
                ListDeclaration { values: final(self).list_seq()[r.index as int].values },
            ) && final(self).list_seq()[r.index as int].values@ == old(self).list_seq()[r.index as int].values@.update(index as int, value),
            res is Err ==> final(self).list_seq() == old(self).list_seq(),
            final(self).scope_seq() == old(self).scope_seq(),
            final(self).dict_seq() == old(self).dict_seq(),
            final(self).function_seq() == old(self).function_seq(),
    {
        if r.index >= self.lists.len() {
            return Err(unknown_reference());
        }
        if index >= self.lists[r.index].length() {
            return Err(ExecutionError::new(CallInfo::new("get"), "Index out of bounds"));
        }
        self.lists[r.index].set(index, value)
    }

    /// Appends `value` to list `r`.
    pub fn list_push(&mut self, r: ListRef, value: DataType) -> (res: Result<(), ExecutionError>)
        requires
            old(self).wf(),
        ensures
            final(self).wf(),
            res is Ok <==> r.index < old(self).list_seq().len(),
            res is Ok ==> final(self).list_seq().len() == old(self).list_seq().len()
                && final(self).list_seq()[r.index as int].values@ == old(self).list_seq()[r.index as int].values@.push(value)
                && forall|i: int| 0 <= i < final(self).list_seq().len() && i != r.index ==> #[trigger] final(self).list_seq()[i] == old(self).list_seq()[i],
            res is Err ==> final(self).list_seq() == old(self).list_seq(),
            final(self).scope_seq() == old(self).scope_seq(),
            final(self).dict_seq() == old(self).dict_seq(),
            final(self).function_seq() == old(self).function_seq(),
    {
        if r.index >= self.lists.len() {
            return Err(unknown_reference());
        }
        self.lists[r.index].push(value);
        Ok(())
    }

    /// Removes and returns the last value of list `r`, if any.
    pub fn list_pop(&mut self, r: ListRef) -> (res: Result<Option<DataType>, ExecutionError>)
        requires
            old(self).wf(),
        ensures
            final(self).wf(),
            res is Ok <==> r.index < old(self).list_seq().len(),
            res matches Ok(v) ==> {
                let before = old(self).list_seq()[r.index as int].values@;
                &&& final(self).list_seq().len() == old(self).list_seq().len()
                &&& (before.len() == 0 ==> v is None && final(self).list_seq()[r.index as int].values@ == before)
                &&& (before.len() > 0 ==> v == Some(before.last()) && final(self).list_seq()[r.index as int].values@ == before.drop_last())
                &&& forall|i: int| 0 <= i < final(self).list_seq().len() && i != r.index ==> #[trigger] final(self).list_seq()[i] == old(self).list_seq()[i]
            },
            res is Err ==> final(self).list_seq() == old(self).list_seq(),
            final(self).scope_seq() == old(self).scope_seq(),
            final(self).dict_seq() == old(self).dict_seq(),
            final(self).function_seq() == old(self).function_seq(),
    {
        if r.index >= self.lists.len() {
            return Err(unknown_reference());
        }
        Ok(self.lists[r.index].pop())
    }

    /// Empties list `r`.
    pub fn list_clear(&mut self, r: ListRef) -> (res: Result<(), ExecutionError>)
        requires
            old(self).wf(),
        ensures
            final(self).wf(),
            res is Ok <==> r.index < old(self).list_seq().len(),
            res is Ok ==> final(self).list_seq().len() == old(self).list_seq().len()
                && final(self).list_seq()[r.index as int].values@.len() == 0
                && forall|i: int| 0 <= i < final(self).list_seq().len() && i != r.index ==> #[trigger] final(self).list_seq()[i] == old(self).list_seq()[i],
            res is Err ==> final(self).list_seq() == old(self).list_seq(),
            final(self).scope_seq() == old(self).scope_seq(),
            final(self).dict_seq() == old(self).dict_seq(),
            final(self).function_seq() == old(self).function_seq(),
    {
        if r.index >= self.lists.len() {
            return Err(unknown_reference());
        }
        self.lists[r.index].clear();
        Ok(())
    }

    /// Sets the value of `key` in dictionary `r` (see `DictionaryDeclaration::set`).
    pub fn dict_set<H: Host>(&mut self, r: DictRef, key: &DataType, value: DataType, host: &H) -> (res: Result<(), ExecutionError>)
        requires
            old(self).wf(),
        ensures
            final(self).wf(),
            res is Ok <==> r.index < old(self).dict_seq().len() && (key is String || key is Number || key is Boolean),
            final(self).dict_seq().len() == old(self).dict_seq().len(),
            forall|i: int| 0 <= i < final(self).dict_seq().len() && i != r.index ==> #[trigger] final(self).dict_seq()[i] == old(self).dict_seq()[i],
            res is Err && r.index < old(self).dict_seq().len() ==> final(self).dict_seq()[r.index as int].view() == old(self).dict_seq()[r.index as int].view(),
            res is Err && r.index >= old(self).dict_seq().len() ==> final(self).dict_seq() == old(self).dict_seq(),
            res is Ok ==> (key matches DataType::String(k) ==> final(self).dict_seq()[r.index as int].view() == old(self).dict_seq()[r.index as int].view().insert(k@, value)),
            res is Ok ==> (key matches DataType::Boolean(b) ==> final(self).dict_seq()[r.index as int].view() == old(self).dict_seq()[r.index as int].view().insert(spec_bool_text(*b), value)),
            res is Ok && key is Number ==> exists|k: Seq<char>| final(self).dict_seq()[r.index as int].view() == old(self).dict_seq()[r.index as int].view().insert(k, value),
            final(self).scope_seq() == old(self).scope_seq(),
            final(self).list_seq() == old(self).list_seq(),
            final(self).function_seq() == old(self).function_seq(),
    {
        if r.index >= self.dicts.len() {
            return Err(unknown_reference());
        }
        let ghost before = self.dicts@[r.index as int];
        let res = self.dicts[r.index].set(key, value, host);
        proof {
            if res is Ok && key is Number {
                let k = choose|k: Seq<char>| self.dicts@[r.index as int].view() == before.view().insert(k, value);
                assert(self.dicts@[r.index as int].view() == before.view().insert(k, value));
            }
        }
        res
    }

    /// Removes `key` from dictionary `r`.
    pub fn dict_delete(&mut self, r: DictRef, key: &str) -> (res: Result<(), ExecutionError>)
        requires
            old(self).wf(),
        ensures
            final(self).wf(),
            res is Ok <==> r.index < old(self).dict_seq().len(),
            res is Ok ==> final(self).dict_seq().len() == old(self).dict_seq().len()
                && final(self).dict_seq()[r.index as int].view() == old(self).dict_seq()[r.index as int].view().remove(key@)
                && forall|i: int| 0 <= i < final(self).dict_seq().len() && i != r.index ==> #[trigger] final(self).dict_seq()[i] == old(self).dict_seq()[i],
            res is Err ==> final(self).dict_seq() == old(self).dict_seq(),
            final(self).scope_seq() == old(self).scope_seq(),
            final(self).list_seq() == old(self).list_seq(),
            final(self).function_seq() == old(self).function_seq(),
    {
        if r.index >= self.dicts.len() {
            return Err(unknown_reference());
        }
        self.dicts[r.index].delete(key);
        Ok(())
    }

    /// Empties dictionary `r`.
    pub fn dict_clear(&mut self, r: DictRef) -> (res: Result<(), ExecutionError>)
        requires
            old(self).wf(),
        ensures
            final(self).wf(),
            res is Ok <==> r.index < old(self).dict_seq().len(),
            res is Ok ==> final(self).dict_seq().len() == old(self).dict_seq().len()
                && final(self).dict_seq()[r.index as int].view() == Map::<Seq<char>, DataType>::empty()
                && forall|i: int| 0 <= i < final(self).dict_seq().len() && i != r.index ==> #[trigger] final(self).dict_seq()[i] == old(self).dict_seq()[i],
            res is Err ==> final(self).dict_seq() == old(self).dict_seq(),
            final(self).scope_seq() == old(self).scope_seq(),
            final(self).list_seq() == old(self).list_seq(),
            final(self).function_seq() == old(self).function_seq(),
    {
        if r.index >= self.dicts.len() {
            return Err(unknown_reference());
        }
        self.dicts[r.index].clear();
        Ok(())
    }
}

/// The error for a list or dictionary reference that the store does not hold.
pub fn unknown_reference() -> (e: ExecutionError)
    ensures
        e.spec_reason() == "Unknown list or dictionary"@,
{
    ExecutionError::new(CallInfo::new(""), "Unknown list or dictionary")
}

} // verus!
