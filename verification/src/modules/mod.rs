//! Modules of functions that programs reach by name (`git`, `shell`, `tmux`), and the
//! runners through which they reach the outside tools.
pub mod cmd;
pub mod git;
pub mod shell;
pub mod tmux;

use crate::interpreter::builtin::{BuiltinId, CallInfo, ExecutionError};
use crate::text::{cat, cat3, str_eq};
use vstd::prelude::*;

verus! {

#[derive(Debug)]
pub struct GitError {
    pub command: String,
    pub reason: String,
}

/// Runs `git` with arguments in a working directory; the standard output, or the failure.
pub trait GitRunner {
    fn run(&self, args: &[&str], cwd: &str) -> Result<String, GitError>;
}

#[derive(Debug)]
pub struct TmuxError {
    pub command: String,
    pub reason: String,
}

/// Runs `tmux` with arguments; the standard output, or the failure.
pub trait TmuxRunner {
    fn run(&self, args: &[&str]) -> Result<String, TmuxError>;
}

#[derive(PartialEq, Eq, Debug, Clone, Copy, Structural)]
pub enum ModuleKind {
    Git,
    Shell,
    Tmux,
    TmuxSession,
}

#[derive(PartialEq, Debug)]
pub struct Module {
    pub name: String,
    pub kind: ModuleKind,
}

impl Module {
    pub fn new(name: &str, kind: ModuleKind) -> (m: Module)
        ensures
            m.name@ == name@,
            m.kind == kind,
    {
        Module { name: name.to_owned(), kind }
    }

    pub fn duplicate(&self) -> (m: Module)
        ensures
            m == *self,
    {
        Module { name: self.name.clone(), kind: self.kind }
    }
}

pub struct ModuleRegistry {
    pub modules: Vec<Module>,
}

impl ModuleRegistry {
    pub fn new() -> (r: ModuleRegistry)
        ensures
            r.modules@.len() == 0,
    {
        ModuleRegistry { modules: Vec::new() }
    }

    pub fn register(&mut self, module: Module)
        ensures
            final(self).modules@ == old(self).modules@.push(module),
    {
        self.modules.push(module);
    }
}

impl ExecutionError {
    /// The execution error a failed `git` command becomes: named after the command.
    pub fn from_git_error(value: GitError) -> (e: ExecutionError)
        ensures
            e.spec_name() == value.command@,
            e.spec_reason() == value.reason@,
    {
        ExecutionError::from_string(CallInfo::new(value.command.as_str()), value.reason)
    }
}

impl TmuxError {
    /// `tmux command '<command>' failed: <reason>`.
    pub fn to_text(&self) -> (s: String)
        ensures
            s@ == "tmux command '"@ + self.command@ + "' failed: "@ + self.reason@,
    {
        let head = cat3("tmux command '", self.command.as_str(), "' failed: ");
        cat(head.as_str(), self.reason.as_str())
    }
}

impl GitError {
    /// `Git command '<command>' failed: <reason>`.
    pub fn to_text(&self) -> (s: String)
        ensures
            s@ == "Git command '"@ + self.command@ + "' failed: "@ + self.reason@,
    {
        let head = cat3("Git command '", self.command.as_str(), "' failed: ");
        cat(head.as_str(), self.reason.as_str())
    }
}

/// The function a module of kind `kind` offers under `name`.
pub open spec fn spec_module_function(kind: ModuleKind, name: Seq<char>) -> Option<BuiltinId> {
    match kind {
        ModuleKind::Git => if name == "in_directory"@ {
            Some(BuiltinId::GitInDirectory)
        } else if name == "current_branch"@ {
            Some(BuiltinId::GitCurrentBranch)
        } else if name == "local_branches"@ {
            Some(BuiltinId::GitLocalBranches)
        } else if name == "remote_branches"@ {
            Some(BuiltinId::GitRemoteBranches)
        } else if name == "worktrees"@ {
            Some(BuiltinId::GitWorktrees)
        } else if name == "delete_branch"@ {
            Some(BuiltinId::GitDeleteBranch)
        } else if name == "rebase"@ {
            Some(BuiltinId::GitRebase)
        } else if name == "fetch"@ {
            Some(BuiltinId::GitFetch)
        } else if name == "prune"@ {
            Some(BuiltinId::GitPrune)
        } else if name == "pull"@ {
            Some(BuiltinId::GitPull)
        } else if name == "push"@ {
            Some(BuiltinId::GitPush)
        } else {
            None
        },
        ModuleKind::Shell => if name == "open"@ {
            Some(BuiltinId::ShellOpen)
        } else if name == "run"@ {
            Some(BuiltinId::ShellRun)
        } else {
            None
        },
        ModuleKind::Tmux => if name == "new_session"@ {
            Some(BuiltinId::TmuxNewSession)
        } else if name == "kill_session"@ {
            Some(BuiltinId::TmuxKillSession)
        } else if name == "has_session"@ {
            Some(BuiltinId::TmuxHasSession)
        } else {
            None
        },
        ModuleKind::TmuxSession => if name == "new_window"@ {
            Some(BuiltinId::TmuxNewWindow)
        } else if name == "kill_window"@ {
            Some(BuiltinId::TmuxKillWindow)
        } else if name == "select_window"@ {
            Some(BuiltinId::TmuxSelectWindow)
        } else if name == "split_pane"@ {
            Some(BuiltinId::TmuxSplitPane)
        } else if name == "split_pane_h"@ {
            Some(BuiltinId::TmuxSplitPaneH)
        } else if name == "kill_pane"@ {
            Some(BuiltinId::TmuxKillPane)
        } else if name == "set_layout"@ {
            Some(BuiltinId::TmuxSetLayout)
        } else if name == "send_keys"@ {
            Some(BuiltinId::TmuxSendKeys)
        } else if name == "interrupt"@ {
            Some(BuiltinId::TmuxInterrupt)
        } else if name == "attach"@ {
            Some(BuiltinId::TmuxAttach)
        } else if name == "attach_cmd"@ {
            Some(BuiltinId::TmuxAttachCmd)
        } else {
            None
        },
    }
}

impl Module {
    /// The function the module offers under `name`.
    pub fn function(&self, name: &str) -> (f: Option<BuiltinId>)
        ensures
            f == spec_module_function(self.kind, name@),
    {
        match self.kind {
            ModuleKind::Git => if str_eq(name, "in_directory") {
                Some(BuiltinId::GitInDirectory)
            } else if str_eq(name, "current_branch") {
                Some(BuiltinId::GitCurrentBranch)
            } else if str_eq(name, "local_branches") {
                Some(BuiltinId::GitLocalBranches)
            } else if str_eq(name, "remote_branches") {
                Some(BuiltinId::GitRemoteBranches)
            } else if str_eq(name, "worktrees") {
                Some(BuiltinId::GitWorktrees)
            } else if str_eq(name, "delete_branch") {
                Some(BuiltinId::GitDeleteBranch)
            } else if str_eq(name, "rebase") {
                Some(BuiltinId::GitRebase)
            } else if str_eq(name, "fetch") {
                Some(BuiltinId::GitFetch)
            } else if str_eq(name, "prune") {
                Some(BuiltinId::GitPrune)
            } else if str_eq(name, "pull") {
                Some(BuiltinId::GitPull)
            } else if str_eq(name, "push") {
                Some(BuiltinId::GitPush)
            } else {
                None
            },
            ModuleKind::Shell => if str_eq(name, "open") {
                Some(BuiltinId::ShellOpen)
            } else if str_eq(name, "run") {
                Some(BuiltinId::ShellRun)
            } else {
                None
            },
            ModuleKind::Tmux => if str_eq(name, "new_session") {
                Some(BuiltinId::TmuxNewSession)
            } else if str_eq(name, "kill_session") {
                Some(BuiltinId::TmuxKillSession)
            } else if str_eq(name, "has_session") {
                Some(BuiltinId::TmuxHasSession)
            } else {
                None
            },
            ModuleKind::TmuxSession => if str_eq(name, "new_window") {
                Some(BuiltinId::TmuxNewWindow)
            } else if str_eq(name, "kill_window") {
                Some(BuiltinId::TmuxKillWindow)
            } else if str_eq(name, "select_window") {
                Some(BuiltinId::TmuxSelectWindow)
            } else if str_eq(name, "split_pane") {
                Some(BuiltinId::TmuxSplitPane)
            } else if str_eq(name, "split_pane_h") {
                Some(BuiltinId::TmuxSplitPaneH)
            } else if str_eq(name, "kill_pane") {
                Some(BuiltinId::TmuxKillPane)
            } else if str_eq(name, "set_layout") {
                Some(BuiltinId::TmuxSetLayout)
            } else if str_eq(name, "send_keys") {
                Some(BuiltinId::TmuxSendKeys)
            } else if str_eq(name, "interrupt") {
                Some(BuiltinId::TmuxInterrupt)
            } else if str_eq(name, "attach") {
                Some(BuiltinId::TmuxAttach)
            } else if str_eq(name, "attach_cmd") {
                Some(BuiltinId::TmuxAttachCmd)
            } else {
                None
            },
        }
    }
}

/// The `git` module.
pub fn git_module() -> (m: Module)
    ensures
        m.name@ == "git"@,
        m.kind == ModuleKind::Git,
{
    Module::new("git", ModuleKind::Git)
}

/// The `shell` module.
pub fn shell_module() -> (m: Module)
    ensures
        m.name@ == "shell"@,
        m.kind == ModuleKind::Shell,
{
    Module::new("shell", ModuleKind::Shell)
}

/// The `tmux` module.
pub fn tmux_module() -> (m: Module)
    ensures
        m.name@ == "tmux"@,
        m.kind == ModuleKind::Tmux,
{
    Module::new("tmux", ModuleKind::Tmux)
}

} // verus!
