//! Functions that a program declares.
use crate::parser::statements::StatementType;
use std::rc::Rc;
use vstd::prelude::*;

verus! {

/// A declared function: its name if it has one, the names of its parameters, its body,
/// and the scope it was declared in, which its calls see. Every call of the function runs
/// the one body it was declared with.
pub struct FunctionDeclaration {
    pub name: Option<String>,
    pub arguments: Vec<String>,
    pub body: Rc<Vec<StatementType>>,
    pub scope: usize,
}

impl FunctionDeclaration {
    pub fn new(name: Option<String>, arguments: Vec<String>, body: Vec<StatementType>, scope: usize) -> (f: Self)
        ensures
            f.name == name,
            f.arguments == arguments,
            *f.body == body,
            f.scope == scope,
    {
        FunctionDeclaration { name, arguments, body: Rc::new(body), scope }
    }
}

/// `Rc::clone`: another pointer to the same body, so the clone is the body itself.
#[verifier::external_body]
pub(crate) fn share_body(body: &Rc<Vec<StatementType>>) -> (r: Rc<Vec<StatementType>>)
    ensures
        *r == **body,
{
    Rc::clone(body)
}

} // verus!
