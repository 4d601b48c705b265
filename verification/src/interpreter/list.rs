//! Lists of values.
use crate::interpreter::builtin::{CallInfo, ExecutionError};
use crate::interpreter::coerce::{spec_kind_of, DataKind};
use crate::interpreter::datatype::DataType;
use vstd::prelude::*;

verus! {

pub struct ListDeclaration {
    pub values: Vec<DataType>,
}

impl ListDeclaration {
    pub fn new(values: Vec<DataType>) -> (l: Self)
        ensures
            l == (ListDeclaration { values }),
    {
        ListDeclaration { values }
    }

    /// The value at `index`; an error past the end.
    pub fn get(&self, index: usize) -> (r: Result<DataType, ExecutionError>)
        ensures
            index < self.values@.len() ==> r == Ok::<DataType, ExecutionError>(self.values@[index as int]),
            index >= self.values@.len() ==> (r matches Err(e) && e.spec_name() == "get"@ && e.spec_reason() == "Index out of bounds"@),
    {
        if index < self.values.len() {
            Ok(self.values[index].duplicate())
        } else {
            Err(ExecutionError::new(CallInfo::new("get"), "Index out of bounds"))
        }
    }

    /// Replaces the value at `index`; an error past the end.
    pub fn set(&mut self, index: usize, value: DataType) -> (r: Result<(), ExecutionError>)
        ensures
            r is Ok <==> index < old(self).values@.len(),
            r is Ok ==> final(self).values@ == old(self).values@.update(index as int, value),
            r is Err ==> final(self).values@ == old(self).values@,
            r matches Err(e) ==> e.spec_name() == "get"@ && e.spec_reason() == "Index out of bounds"@,
    {
        if index < self.values.len() {
            self.values.set(index, value);
            Ok(())
        } else {
            Err(ExecutionError::new(CallInfo::new("get"), "Index out of bounds"))
        }
    }

    /// Whether every value is of `kind`.
    pub fn all(&self, kind: DataKind) -> (b: bool)
        ensures
            b == forall|i: int| 0 <= i < self.values@.len() ==> spec_kind_of(#[trigger] self.values@[i]) == kind,
    {
        let mut i: usize = 0;
        while i < self.values.len()
            invariant
                i <= self.values.len(),
                forall|j: int| 0 <= j < i ==> spec_kind_of(#[trigger] self.values@[j]) == kind,
            decreases self.values.len() - i,
        {
            if DataKind::from(&self.values[i]) != kind {
                return false;
            }
            i = i + 1;
        }
        true
    }

    pub fn length(&self) -> (n: usize)
        ensures
            n == self.values@.len(),
    {
        self.values.len()
    }

    pub fn clear(&mut self)
        ensures
            final(self).values@.len() == 0,
    {
        self.values.clear();
    }

    /// Removes and returns the last value, if any.
    pub fn pop(&mut self) -> (r: Option<DataType>)
        ensures
            old(self).values@.len() == 0 ==> r is None && final(self).values@ == old(self).values@,
            old(self).values@.len() > 0 ==> r == Some(old(self).values@.last()) && final(self).values@
                == old(self).values@.drop_last(),
    {
        self.values.pop()
    }

    pub fn push(&mut self, value: DataType)
        ensures
            final(self).values@ == old(self).values@.push(value),
    {
        self.values.push(value);
    }
}

/// What `pop` takes from a list is what `push` put there last, and the list is as it was
/// before the push.
pub proof fn law_pop_undoes_push(values: Seq<DataType>, value: DataType)
    ensures
        values.push(value).len() > 0,
        values.push(value).last() == value,
        values.push(value).drop_last() == values,
{
    assert(values.push(value).drop_last() =~= values);
}

} // verus!
