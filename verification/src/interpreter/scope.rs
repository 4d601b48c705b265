//! Scopes of variables. A scope has its own variables and may have a parent scope, in
//! which the names it does not declare are looked up.
use crate::entries::Entries;
use crate::interpreter::datatype::DataType;
use vstd::prelude::*;

verus! {

pub struct Scope {
    pub parent: Option<usize>,
    pub variables: Entries<DataType>,
}

impl Scope {
    /// A scope with no variables of its own.
    pub fn new(parent: Option<usize>) -> (s: Scope)
        ensures
            s.parent == parent,
            s.wf(),
            s.view() == Map::<Seq<char>, DataType>::empty(),
    {
        Scope { parent, variables: Entries::new() }
    }

    /// The variables the scope declares itself.
    pub open spec fn view(&self) -> Map<Seq<char>, DataType> {
        self.variables.view()
    }

    pub open spec fn wf(&self) -> bool {
        self.variables.wf()
    }
}

/// The value that `name` has when looked up from scope `s`: the scope's own variable if it
/// declares one, else the value in its parent scope. Every parent comes before its child.
pub open spec fn lookup(scopes: Seq<Scope>, s: int, name: Seq<char>) -> Option<DataType>
    decreases s,
{
    if s < 0 || s >= scopes.len() {
        None
    } else if scopes[s].view().contains_key(name) {
        Some(scopes[s].view()[name])
    } else {
        match scopes[s].parent {
            Some(p) => if p < s {
                lookup(scopes, p as int, name)
            } else {
                None
            },
            None => None,
        }
    }
}

/// Looking `name` up from `s` passes on to scope `j`: every scope on the way from `s` to
/// `j` lacks `name` and hands over to its parent.
pub open spec fn reaches(scopes: Seq<Scope>, s: int, j: int, name: Seq<char>) -> bool
    decreases s,
{
    if s == j {
        true
    } else if s < 0 || s >= scopes.len() || scopes[s].view().contains_key(name) {
        false
    } else {
        match scopes[s].parent {
            Some(p) => p < s && reaches(scopes, p as int, j, name),
            None => false,
        }
    }
}

/// The scope that declares `name` as seen from scope `s`: `s` itself or the nearest scope
/// further out; -1 where none does.
pub open spec fn declaring_scope(scopes: Seq<Scope>, s: int, name: Seq<char>) -> int
    decreases s,
{
    if s < 0 || s >= scopes.len() {
        -1
    } else if scopes[s].view().contains_key(name) {
        s
    } else {
        match scopes[s].parent {
            Some(p) => if p < s {
                declaring_scope(scopes, p as int, name)
            } else {
                -1
            },
            None => -1,
        }
    }
}

/// Where the search from `s` reaches `j` and `j` declares the name, `j` is the declaring scope.
pub proof fn lemma_reaches_declaring(scopes: Seq<Scope>, s: int, j: int, name: Seq<char>)
    requires
        reaches(scopes, s, j, name),
        0 <= j < scopes.len(),
        scopes[j].view().contains_key(name),
    ensures
        declaring_scope(scopes, s, name) == j,
    decreases s,
{
    if s != j {
        let p = scopes[s].parent->0;
        lemma_reaches_declaring(scopes, p as int, j, name);
    }
}

/// Every scope's parent comes before it, and no scope declares a name twice.
pub open spec fn scopes_wf(scopes: Seq<Scope>) -> bool {
    forall|i: int|
        0 <= i < scopes.len() ==> (#[trigger] scopes[i]).wf() && (scopes[i].parent matches Some(
            p,
        ) ==> p < i)
}

pub proof fn lemma_reaches_lookup(scopes: Seq<Scope>, s: int, j: int, name: Seq<char>)
    requires
        reaches(scopes, s, j, name),
    ensures
        lookup(scopes, s, name) == lookup(scopes, j, name),
        j <= s,
    decreases s,
{
    if s != j {
        let p = scopes[s].parent->0;
        lemma_reaches_lookup(scopes, p as int, j, name);
    }
}

pub proof fn lemma_reaches_step(scopes: Seq<Scope>, s: int, j: int, name: Seq<char>)
    requires
        reaches(scopes, s, j, name),
        0 <= j < scopes.len(),
        !scopes[j].view().contains_key(name),
        scopes[j].parent matches Some(p) && p < j,
    ensures
        reaches(scopes, s, scopes[j].parent->0 as int, name),
    decreases s,
{
    if s != j {
        let p = scopes[s].parent->0;
        lemma_reaches_step(scopes, p as int, j, name);
    } else {
        let p = scopes[j].parent->0;
        assert(reaches(scopes, p as int, p as int, name));
    }
}

/// Changing scope `j`, with its parent kept, leaves the way from `s` to `j` as it was.
pub proof fn lemma_reaches_update(
    scopes: Seq<Scope>,
    s: int,
    j: int,
    name: Seq<char>,
    scope: Scope,
)
    requires
        reaches(scopes, s, j, name),
        0 <= j < scopes.len(),
        scope.parent == scopes[j].parent,
    ensures
        reaches(scopes.update(j, scope), s, j, name),
    decreases s,
{
    if s != j {
        let p = scopes[s].parent->0;
        lemma_reaches_update(scopes, p as int, j, name, scope);
        lemma_reaches_lookup(scopes, s, j, name);
    }
}

/// Changing what scope `j` declares under `name` changes no lookup of another name.
pub proof fn lemma_lookup_other_name(
    scopes: Seq<Scope>,
    s: int,
    j: int,
    name: Seq<char>,
    other: Seq<char>,
    scope: Scope,
)
    requires
        0 <= j < scopes.len(),
        scope.parent == scopes[j].parent,
        scope.view() == scopes[j].view().insert(name, scope.view()[name]),
        other != name,
    ensures
        lookup(scopes.update(j, scope), s, other) == lookup(scopes, s, other),
    decreases s,
{
    if 0 <= s < scopes.len() {
        if s == j {
            assert(scope.view().contains_key(other) == scopes[j].view().contains_key(other));
        }
        match scopes[s].parent {
            Some(p) => {
                if p < s {
                    lemma_lookup_other_name(scopes, p as int, j, name, other, scope);
                }
            },
            None => {},
        }
    }
}

/// Adding a scope at the end changes no lookup from the scopes already there.
pub proof fn lemma_lookup_push(scopes: Seq<Scope>, s: int, name: Seq<char>, scope: Scope)
    requires
        s < scopes.len(),
    ensures
        lookup(scopes.push(scope), s, name) == lookup(scopes, s, name),
    decreases s,
{
    if 0 <= s {
        assert(scopes.push(scope)[s] == scopes[s]);
        match scopes[s].parent {
            Some(p) => {
                if p < s {
                    lemma_lookup_push(scopes, p as int, name, scope);
                }
            },
            None => {},
        }
    }
}

/// Changing scope `j` changes no lookup from a scope before it.
pub proof fn lemma_lookup_update_later(
    scopes: Seq<Scope>,
    s: int,
    j: int,
    name: Seq<char>,
    scope: Scope,
)
    requires
        s < j < scopes.len(),
    ensures
        lookup(scopes.update(j, scope), s, name) == lookup(scopes, s, name),
    decreases s,
{
    if 0 <= s {
        match scopes[s].parent {
            Some(p) => {
                if p < s {
                    lemma_lookup_update_later(scopes, p as int, j, name, scope);
                }
            },
            None => {},
        }
    }
}

/// Scopes that keep their parents and only gain names keep every name visible that was
/// visible before.
pub proof fn lemma_lookup_grows(before: Seq<Scope>, after: Seq<Scope>, s: int, name: Seq<char>)
    requires
        before.len() <= after.len(),
        forall|j: int| 0 <= j < before.len() ==> (#[trigger] after[j]).parent == before[j].parent,
        forall|j: int, k: Seq<char>|
            0 <= j < before.len() && #[trigger] before[j].view().contains_key(k) ==> after[j].view().contains_key(k),
        lookup(before, s, name) is Some,
    ensures
        lookup(after, s, name) is Some,
    decreases s,
{
    if 0 <= s < before.len() && !after[s].view().contains_key(name) {
        assert(!before[s].view().contains_key(name));
        let p = before[s].parent->0;
        lemma_lookup_grows(before, after, p as int, name);
    }
}

/// Scopes that keep their parents and their names leave undeclared every name that was not
/// visible before.
pub proof fn lemma_lookup_stays_none(before: Seq<Scope>, after: Seq<Scope>, s: int, name: Seq<char>)
    requires
        before.len() <= after.len(),
        forall|j: int| 0 <= j < before.len() ==> (#[trigger] after[j]).parent == before[j].parent,
        forall|j: int| 0 <= j < before.len() ==> (#[trigger] after[j]).view().dom() == before[j].view().dom(),
        0 <= s < before.len(),
        lookup(before, s, name) is None,
    ensures
        lookup(after, s, name) is None,
    decreases s,
{
    assert(after[s].view().dom() == before[s].view().dom());
    assert(!before[s].view().dom().contains(name));
    if let Some(p) = before[s].parent {
        if p < s {
            lemma_lookup_stays_none(before, after, p as int, name);
        }
    }
}

} // verus!
