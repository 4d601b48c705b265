//! The working directory and command that terminal functions take from a dictionary.
use crate::fs::{get_absolute_path, resolution_error};
use crate::host::Host;
use crate::interpreter::builtin::{execution_error_text, CallInfo, ExecutionError};
use crate::interpreter::coerce::{optional, spec_entry, DictArgs};
use crate::interpreter::datatype::DataType;
use crate::interpreter::dictionary::DictionaryDeclaration;
use crate::text::{cat, cat3};
use vstd::prelude::*;

verus! {

pub struct ResolvedCmd {
    pub cwd: String,
    pub cmd: Option<String>,
}

/// `cd '<cwd>'[ && <cmd>] && exec $SHELL`.
pub open spec fn spec_open_cmd(cwd: Seq<char>, cmd: Option<Seq<char>>) -> Seq<char> {
    "cd '"@ + cwd + "'"@ + match cmd {
        Some(c) => " && "@ + c,
        None => Seq::<char>::empty(),
    } + " && exec $SHELL"@
}

impl ResolvedCmd {
    /// The command that opens a terminal in the directory, runs the command if there is
    /// one, and keeps the terminal open.
    pub fn to_open_cmd(&self) -> (s: String)
        ensures
            s@ == spec_open_cmd(
                self.cwd@,
                match self.cmd {
                    Some(c) => Some(c@),
                    None => None,
                },
            ),
    {
        let mut s = cat3("cd '", self.cwd.as_str(), "'");
        match &self.cmd {
            Some(cmd) => {
                s = cat3(s.as_str(), " && ", cmd.as_str());
            },
            None => {},
        }
        let r = cat(s.as_str(), " && exec $SHELL");
        proof {
            if self.cmd is None {
                assert(s@ + Seq::<char>::empty() == s@);
            }
        }
        r
    }

    /// `cd '<cwd>' && <cmd>`, where there is a command.
    pub fn to_run_cmd(&self) -> (r: Option<String>)
        ensures
            self.cmd is None ==> r is None,
            self.cmd matches Some(c) ==> r matches Some(s) && s@ == "cd '"@ + self.cwd@ + "' && "@ + c@,
    {
        match &self.cmd {
            Some(cmd) => {
                let head = cat3("cd '", self.cwd.as_str(), "' && ");
                Some(cat(head.as_str(), cmd.as_str()))
            },
            None => None,
        }
    }
}

/// The command a dictionary's `cmd` entry names: its text, or none where there is no entry.
pub open spec fn spec_cmd_entry(entry: DataType) -> Option<Seq<char>> {
    match entry {
        DataType::String(c) => Some(c@),
        _ => None,
    }
}

/// A dictionary whose `cmd` entry is a string or is missing.
pub open spec fn has_cmd_text(d: Map<Seq<char>, DataType>) -> bool {
    spec_entry(d, "cmd"@) is String || spec_entry(d, "cmd"@) is Undefined
}

/// An entry that is no text: a function, a list, a dictionary or a module.
pub open spec fn not_text(entry: DataType) -> bool {
    entry is Function || entry is List || entry is Dictionary || entry is Module
}

/// A dictionary whose `cwd` entry is a string or is missing.
pub open spec fn has_dir_text(d: Map<Seq<char>, DataType>) -> bool {
    spec_entry(d, "cwd"@) is String || spec_entry(d, "cwd"@) is Undefined
}

/// The directory a terminal function resolves: the `cwd` entry, else `fallback`.
pub open spec fn chosen_directory(d: Map<Seq<char>, DataType>, fallback: Seq<char>) -> Seq<char> {
    match spec_entry(d, "cwd"@) {
        DataType::String(c) => c@,
        _ => fallback,
    }
}

/// The directory (key `cwd`, else `fallback_cwd`) made absolute, and the command (key
/// `cmd`), if any, that a terminal function named `fn_name` is to use.
pub fn resolve_cmd<H: Host>(
    dict: &DictionaryDeclaration,
    fn_name: &str,
    fallback_cwd: &str,
    host: &H,
) -> (r: Result<ResolvedCmd, ExecutionError>)
    requires
        dict.wf(),
    ensures
        r matches Ok(c) ==> (spec_entry(dict.view(), "cmd"@) matches DataType::String(s) ==> c.cmd == Some(s))
            && (spec_entry(dict.view(), "cmd"@) is Undefined ==> c.cmd is None),
        not_text(spec_entry(dict.view(), "cwd"@)) ==> r is Err,
        not_text(spec_entry(dict.view(), "cmd"@)) ==> r is Err,
        (has_dir_text(dict.view()) && has_cmd_text(dict.view())) ==> (r matches Err(x) ==> (x.spec_name() == fn_name@
            && exists|why: Seq<char>| #[trigger] resolution_error(chosen_directory(dict.view(), fallback_cwd@), why)
                && x.spec_reason() == execution_error_text(""@, why))),
{
    let dict_args = DictArgs::new(fn_name, dict);
    let cwd = match optional(dict_args.string("cwd", host)) {
        Ok(Some(c)) => c,
        Ok(None) => fallback_cwd.to_owned(),
        Err(e) => return Err(ExecutionError::from_argument_error(e)),
    };
    let absolute_cwd = match get_absolute_path(cwd.as_str(), host) {
        Ok(p) => p,
        Err(e) => {
            proof {
                if has_dir_text(dict.view()) {
                    assert(cwd@ == chosen_directory(dict.view(), fallback_cwd@));
                    assert(resolution_error(chosen_directory(dict.view(), fallback_cwd@), e.spec_reason()));
                }
            }
            return Err(ExecutionError::from_string(CallInfo::new(fn_name), e.to_text()));
        },
    };
    let cmd = match optional(dict_args.string("cmd", host)) {
        Ok(c) => c,
        Err(e) => return Err(ExecutionError::from_argument_error(e)),
    };
    Ok(ResolvedCmd { cwd: absolute_cwd, cmd })
}

} // verus!
