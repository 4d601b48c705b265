//! Errors of execution and the functions that the runtime provides.
pub mod dictionary;
pub mod global;
pub mod list;

use crate::text::{cat, cat3};
use vstd::prelude::*;

verus! {

#[derive(Debug)]
pub struct CallInfo {
    pub(crate) name: String,
}

impl CallInfo {
    pub fn new(name: &str) -> (c: CallInfo)
        ensures
            c.spec_name() == name@,
    {
        CallInfo { name: name.to_owned() }
    }

    pub closed spec fn spec_name(&self) -> Seq<char> {
        self.name@
    }
}

#[derive(Debug)]
pub struct ExecutionError {
    pub(crate) call_info: CallInfo,
    pub(crate) reason: String,
}

/// The text an execution error reads as.
pub open spec fn execution_error_text(name: Seq<char>, reason: Seq<char>) -> Seq<char> {
    "Exeucting '"@ + name + "' failed: "@ + reason
}

impl ExecutionError {
    pub fn new(call_info: CallInfo, reason: &str) -> (e: ExecutionError)
        ensures
            e.spec_name() == call_info.spec_name(),
            e.spec_reason() == reason@,
    {
        ExecutionError { reason: reason.to_owned(), call_info }
    }

    pub fn from_string(call_info: CallInfo, reason: String) -> (e: ExecutionError)
        ensures
            e.spec_name() == call_info.spec_name(),
            e.spec_reason() == reason@,
    {
        ExecutionError { reason, call_info }
    }

    pub closed spec fn spec_name(&self) -> Seq<char> {
        self.call_info.name@
    }

    pub closed spec fn spec_reason(&self) -> Seq<char> {
        self.reason@
    }

    /// `Exeucting '<name>' failed: <reason>`.
    pub fn to_text(&self) -> (s: String)
        ensures
            s@ == execution_error_text(self.spec_name(), self.spec_reason()),
    {
        let head = cat3("Exeucting '", self.call_info.name.as_str(), "' failed: ");
        cat(head.as_str(), self.reason.as_str())
    }

    pub fn reason(&self) -> (r: &str)
        ensures
            r@ == self.spec_reason(),
    {
        self.reason.as_str()
    }
}

/// The functions that the runtime provides: global functions, the methods of lists
/// and dictionaries, and the functions of the modules.
#[derive(PartialEq, Eq, Debug, Clone, Copy, Structural)]
pub enum BuiltinId {
    Print,
    RegisterTask,
    Parallel,
    ListPop,
    ListPush,
    ListClear,
    ListLen,
    DictHas,
    DictDelete,
    DictClear,
    DictLen,
    GitInDirectory,
    GitCurrentBranch,
    GitLocalBranches,
    GitRemoteBranches,
    GitWorktrees,
    GitDeleteBranch,
    GitRebase,
    GitFetch,
    GitPrune,
    GitPull,
    GitPush,
    ShellOpen,
    ShellRun,
    TmuxNewSession,
    TmuxKillSession,
    TmuxHasSession,
    TmuxNewWindow,
    TmuxKillWindow,
    TmuxSelectWindow,
    TmuxSplitPane,
    TmuxSplitPaneH,
    TmuxKillPane,
    TmuxSetLayout,
    TmuxSendKeys,
    TmuxInterrupt,
    TmuxAttach,
    TmuxAttachCmd,
}

/// Whether the function of the runtime `id` takes `count` arguments.
pub open spec fn accepts_count(id: BuiltinId, count: nat) -> bool {
    match id {
        BuiltinId::Print => count == 1,
        BuiltinId::RegisterTask => count == 2,
        BuiltinId::Parallel => count == 1,
        BuiltinId::ListPop => count == 0,
        BuiltinId::ListPush => count == 1,
        BuiltinId::ListClear => count == 0,
        BuiltinId::ListLen => count == 0,
        BuiltinId::DictHas => count == 1,
        BuiltinId::DictDelete => count == 1,
        BuiltinId::DictClear => count == 0,
        BuiltinId::DictLen => count == 0,
        BuiltinId::GitInDirectory => count == 1,
        BuiltinId::GitCurrentBranch => count == 0,
        BuiltinId::GitLocalBranches => count == 0,
        BuiltinId::GitRemoteBranches => count == 0,
        BuiltinId::GitWorktrees => count == 0,
        BuiltinId::GitDeleteBranch => count == 1,
        BuiltinId::GitRebase => count == 0,
        BuiltinId::GitFetch => count == 0,
        BuiltinId::GitPrune => count == 0,
        BuiltinId::GitPull => count == 0,
        BuiltinId::GitPush => count <= 1,
        BuiltinId::ShellOpen => count == 1,
        BuiltinId::ShellRun => count == 1,
        BuiltinId::TmuxNewSession => count == 1,
        BuiltinId::TmuxKillSession => count == 1,
        BuiltinId::TmuxHasSession => count == 1,
        BuiltinId::TmuxNewWindow => count == 2,
        BuiltinId::TmuxKillWindow => count == 1,
        BuiltinId::TmuxSelectWindow => count == 1,
        BuiltinId::TmuxSplitPane => count == 2,
        BuiltinId::TmuxSplitPaneH => count == 2,
        BuiltinId::TmuxKillPane => count == 2,
        BuiltinId::TmuxSetLayout => count == 2,
        BuiltinId::TmuxSendKeys => count == 3,
        BuiltinId::TmuxInterrupt => count == 2,
        BuiltinId::TmuxAttach => count == 0,
        BuiltinId::TmuxAttachCmd => count == 0,
    }
}

} // verus!
