//! The methods that values offer: those of lists and dictionaries, and the functions of
//! modules.
use crate::host::Host;
use crate::interpreter::builtin::{BuiltinId, CallInfo, ExecutionError};
use crate::interpreter::datatype::{Callable, DataType, Executable};
use crate::interpreter::display::{display_value, DISPLAY_DEPTH};
use crate::interpreter::store::Store;
use crate::modules::spec_module_function;
use crate::text::{cat3, str_eq};
use vstd::prelude::*;

verus! {

pub open spec fn spec_list_method(name: Seq<char>) -> Option<BuiltinId> {
    if name == "pop"@ {
        Some(BuiltinId::ListPop)
    } else if name == "push"@ {
        Some(BuiltinId::ListPush)
    } else if name == "clear"@ {
        Some(BuiltinId::ListClear)
    } else if name == "len"@ {
        Some(BuiltinId::ListLen)
    } else {
        None
    }
}

pub open spec fn spec_dict_method(name: Seq<char>) -> Option<BuiltinId> {
    if name == "has"@ {
        Some(BuiltinId::DictHas)
    } else if name == "delete"@ {
        Some(BuiltinId::DictDelete)
    } else if name == "clear"@ {
        Some(BuiltinId::DictClear)
    } else if name == "len"@ {
        Some(BuiltinId::DictLen)
    } else {
        None
    }
}

/// The method `name` of `value`, if it has one.
pub open spec fn spec_method(value: DataType, name: Seq<char>) -> Option<BuiltinId> {
    match value {
        DataType::List(_) => spec_list_method(name),
        DataType::Dictionary(_) => spec_dict_method(name),
        DataType::Module(m) => spec_module_function(m.kind, name),
        _ => None,
    }
}

fn list_method(name: &str) -> (r: Option<BuiltinId>)
    ensures
        r == spec_list_method(name@),
{
    if str_eq(name, "pop") {
        Some(BuiltinId::ListPop)
    } else if str_eq(name, "push") {
        Some(BuiltinId::ListPush)
    } else if str_eq(name, "clear") {
        Some(BuiltinId::ListClear)
    } else if str_eq(name, "len") {
        Some(BuiltinId::ListLen)
    } else {
        None
    }
}

fn dict_method(name: &str) -> (r: Option<BuiltinId>)
    ensures
        r == spec_dict_method(name@),
{
    if str_eq(name, "has") {
        Some(BuiltinId::DictHas)
    } else if str_eq(name, "delete") {
        Some(BuiltinId::DictDelete)
    } else if str_eq(name, "clear") {
        Some(BuiltinId::DictClear)
    } else if str_eq(name, "len") {
        Some(BuiltinId::DictLen)
    } else {
        None
    }
}

impl DataType {
    /// The method `name` of the value, as a function called on the value.
    pub fn get_method<H: Host>(&self, name: &str, store: &Store, host: &H) -> (r: Result<DataType, ExecutionError>)
        requires
            store.wf(),
        ensures
            spec_method(*self, name@) matches Some(id) ==> (r matches Ok(DataType::Function(c))
                && c.function == Executable::Builtin(id) && c.receiver == Some(Box::new(*self))
                && (c.name matches Some(n) && n@ == name@)),
            spec_method(*self, name@) is None ==> (r matches Err(e) && e.spec_name() == name@),
    {
        let method = match self {
            DataType::List(_) => match list_method(name) {
                Some(id) => id,
                None => return Err(ExecutionError::from_string(CallInfo::new(name), cat3("Method '", name, "' not found on 'List'"))),
            },
            DataType::Dictionary(_) => match dict_method(name) {
                Some(id) => id,
                None => return Err(ExecutionError::from_string(CallInfo::new(name), cat3("Method '", name, "' not found on 'Dictionary'"))),
            },
            DataType::Module(m) => match m.function(name) {
                Some(id) => id,
                None => {
                    let head = cat3("Method '", name, "' not found for module '");
                    let text = cat3(head.as_str(), m.name.as_str(), "'");
                    return Err(ExecutionError::from_string(CallInfo::new(name), text));
                },
            },
            _ => {
                let shown = display_value(store, host, self, DISPLAY_DEPTH);
                return Err(ExecutionError::from_string(CallInfo::new(name), cat3("No methods found for '", shown.as_str(), "'")));
            },
        };
        let callable = Callable::new(Some(name.to_owned()), Executable::Builtin(method));
        Ok(DataType::Function(callable.bind(self.duplicate())))
    }
}

} // verus!
