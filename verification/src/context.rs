//! The state a program runs in.
use crate::host::Host;
use crate::interpreter::builtin::ExecutionError;
use crate::interpreter::datatype::{Callable, DataType};
use crate::interpreter::store::Store;
use crate::interpreter::StatementResult;
use crate::parser::expressions::ExpressionType;
use crate::parser::statements::StatementType;
use crate::modules::{GitRunner, ModuleRegistry, TmuxRunner};
use crate::task_management::TaskRegistry;
use vstd::prelude::*;

verus! {

/// What a run has handed to its surroundings, in order, with what came back: the text a
/// `print` call wrote; the arguments and working directory of a `git` command and the
/// command's output, if it succeeded; the arguments of a `tmux` command and its output, if it
/// succeeded; the directory and command of a terminal opened or run, and the host's error, if
/// any; the text of a failure reported on standard error.
pub enum Effect {
    Printed { text: Seq<char> },
    Reported { text: Seq<char> },
    Git { args: Seq<Seq<char>>, cwd: Seq<char>, output: Option<Seq<char>> },
    Tmux { args: Seq<Seq<char>>, output: Option<Seq<char>> },
    Opened { path: Seq<char>, cmd: Option<Seq<char>>, error: Option<Seq<char>> },
    Ran { path: Seq<char>, cmd: Seq<char>, error: Option<Seq<char>> },
}

/// What the interpreter has run, each entry made as the run ended: the condition of an
/// `if` evaluated in a scope with its value, a statement in a scope with its outcome, a block of statements in a scope with its outcome, and a call of a function with its arguments and outcome.
pub enum Run {
    Condition { expression: ExpressionType, scope: nat, outcome: Result<DataType, ExecutionError> },
    Statement { statement: StatementType, scope: nat, outcome: Result<StatementResult, ExecutionError> },
    Block { statements: Seq<StatementType>, scope: nat, outcome: Result<StatementResult, ExecutionError> },
    Call { callable: Callable, args: Seq<DataType>, outcome: Result<DataType, ExecutionError> },
}

/// How many loop rounds a run may take in all.
pub const STEP_BUDGET: u64 = 1_000_000_000;

pub struct RuntimeContext<G, T, H> {
    pub task_registry: TaskRegistry,
    pub module_registry: ModuleRegistry,
    /// The working directory of the `git` module and the default of the terminal modules.
    pub cwd: String,
    pub git_runner: G,
    pub tmux_runner: T,
    pub host: H,
    pub store: Store,
    /// The loop rounds left.
    pub steps: u64,
    /// What the run has handed to its surroundings so far.
    pub effects: Ghost<Seq<Effect>>,
    /// The blocks and calls run so far.
    pub runs: Ghost<Seq<Run>>,
}

/// The context is as it was but for what was handed to the surroundings, which only grew.
pub open spec fn only_effects<G, T, H>(before: &RuntimeContext<G, T, H>, after: &RuntimeContext<G, T, H>) -> bool {
    &&& after.task_registry == before.task_registry
    &&& after.module_registry == before.module_registry
    &&& after.cwd == before.cwd
    &&& after.git_runner == before.git_runner
    &&& after.tmux_runner == before.tmux_runner
    &&& after.host == before.host
    &&& after.store == before.store
    &&& after.steps == before.steps
    &&& before.effects@.is_prefix_of(after.effects@)
    &&& after.runs == before.runs
}

/// The context is as it was but for the record of runs, which only grew.
pub open spec fn only_runs<G, T, H>(before: &RuntimeContext<G, T, H>, after: &RuntimeContext<G, T, H>) -> bool {
    &&& after.task_registry == before.task_registry
    &&& after.module_registry == before.module_registry
    &&& after.cwd == before.cwd
    &&& after.git_runner == before.git_runner
    &&& after.tmux_runner == before.tmux_runner
    &&& after.host == before.host
    &&& after.store == before.store
    &&& after.steps == before.steps
    &&& after.effects == before.effects
    &&& before.runs@.is_prefix_of(after.runs@)
}

impl<G: GitRunner, T: TmuxRunner, H: Host> RuntimeContext<G, T, H> {
    pub open spec fn wf(&self) -> bool {
        self.task_registry.wf() && self.store.wf()
    }

    /// A context with no tasks, no modules and nothing stored, working in `cwd`.
    pub fn new(cwd: String, git_runner: G, tmux_runner: T, host: H) -> (c: Self)
        ensures
            c.wf(),
            c.cwd == cwd,
            c.module_registry.modules@.len() == 0,
            c.task_registry.view() == Map::<Seq<char>, crate::interpreter::datatype::Callable>::empty(),
            c.store.scope_seq().len() == 0,
            c.steps == STEP_BUDGET,
            c.effects@ == Seq::<Effect>::empty(),
            c.runs@ == Seq::<Run>::empty(),
    {
        RuntimeContext {
            task_registry: TaskRegistry::new(),
            module_registry: ModuleRegistry::new(),
            cwd,
            git_runner,
            tmux_runner,
            host,
            store: Store::new(),
            steps: STEP_BUDGET,
            effects: Ghost(Seq::empty()),
            runs: Ghost(Seq::empty()),
        }
    }
}

} // verus!
