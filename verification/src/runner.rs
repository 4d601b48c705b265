//! Running source text, and running a registered task by name.
use crate::context::{only_effects, Effect, Run, RuntimeContext};
use crate::host::Host;
use crate::interpreter::builtin::{CallInfo, ExecutionError};
use crate::interpreter::datatype::{DataType, Executable};
use crate::interpreter::{advances, call_callable, fresh_module_names, ran_in_order, ran_through, Interpreter, MAX_CALL_DEPTH};
use crate::lexer::Lexer;
use crate::lexer::scanner::{spec_tokenize, token_views};
use crate::modules::{GitRunner, TmuxRunner};
use crate::parser::Parser;
use crate::text::{cat, str_eq, string_views};
use vstd::prelude::*;

verus! {

#[derive(Debug)]
pub struct RuntimeError {
    pub reason: String,
}

impl RuntimeError {
    pub fn new(reason: &str) -> (e: RuntimeError)
        ensures
            e.reason@ == reason@,
    {
        RuntimeError { reason: reason.to_owned() }
    }

    /// The runtime error an execution error becomes: its text.
    pub fn from_execution_error(value: ExecutionError) -> (e: RuntimeError)
        ensures
            e.reason@ == crate::interpreter::builtin::execution_error_text(value.spec_name(), value.spec_reason()),
    {
        RuntimeError { reason: value.to_text() }
    }

    /// `Runtime failure: <reason>`.
    pub fn to_text(&self) -> (s: String)
        ensures
            s@ == "Runtime failure: "@ + self.reason@,
    {
        cat("Runtime failure: ", self.reason.as_str())
    }
}

/// What `run` is asked to do: search directories recursively or not, where to look for
/// programs, which task to run and with which arguments.
pub struct RunArgs {
    pub recursive: bool,
    pub directory: Option<String>,
    pub task_name: String,
    pub task_args: Vec<String>,
}

/// The arguments of `run` read from position `i` on, after what was read before it:
/// `-r`/`--recursive` sets the flag, `--task <name>` and `--dir <directory>` take the next
/// argument, the first other argument names the task and the rest are its arguments.
/// `None` where `--task` or `--dir` is the last argument.
pub open spec fn spec_run_args(
    args: Seq<Seq<char>>,
    i: int,
    recursive: bool,
    directory: Option<Seq<char>>,
    task_name: Seq<char>,
    task_args: Seq<Seq<char>>,
) -> Option<(bool, Option<Seq<char>>, Seq<char>, Seq<Seq<char>>)>
    decreases args.len() - i,
{
    if i < 0 || i >= args.len() {
        Some((recursive, directory, task_name, task_args))
    } else if args[i] == "-r"@ || args[i] == "--recursive"@ {
        spec_run_args(args, i + 1, true, directory, task_name, task_args)
    } else if args[i] == "--task"@ {
        if i + 1 >= args.len() {
            None
        } else {
            spec_run_args(args, i + 2, recursive, directory, args[i + 1], task_args)
        }
    } else if args[i] == "--dir"@ {
        if i + 1 >= args.len() {
            None
        } else {
            spec_run_args(args, i + 2, recursive, Some(args[i + 1]), task_name, task_args)
        }
    } else if task_name.len() == 0 {
        spec_run_args(args, i + 1, recursive, directory, args[i], task_args)
    } else {
        spec_run_args(args, i + 1, recursive, directory, task_name, task_args.push(args[i]))
    }
}

/// The reading of all of `args`.
pub open spec fn spec_parse_run_arguments(args: Seq<Seq<char>>) -> Option<(bool, Option<Seq<char>>, Seq<char>, Seq<Seq<char>>)> {
    spec_run_args(args, 0, false, None, Seq::<char>::empty(), Seq::<Seq<char>>::empty())
}

impl RunArgs {
    pub open spec fn view(&self) -> (bool, Option<Seq<char>>, Seq<char>, Seq<Seq<char>>) {
        (
            self.recursive,
            match self.directory {
                Some(d) => Some(d@),
                None => None,
            },
            self.task_name@,
            string_views(self.task_args@),
        )
    }
}

/// Whether `args` can be read: neither `--task` nor `--dir` lacks its value.
pub fn run_arguments_are_complete(args: &Vec<String>) -> (b: bool)
    ensures
        b == spec_parse_run_arguments(string_views(args@)) is Some,
{
    let ghost views = string_views(args@);
    let mut recursive = false;
    let mut directory: Option<String> = None;
    let mut task_name = String::new();
    let mut task_args: Vec<String> = Vec::new();
    let mut i: usize = 0;
    assert(string_views(task_args@) =~= Seq::<Seq<char>>::empty());
    assert(task_name@ =~= Seq::<char>::empty());
    while i < args.len()
        invariant
            i <= args.len(),
            views == string_views(args@),
            spec_parse_run_arguments(views) == spec_run_args(
                views,
                i as int,
                recursive,
                match directory {
                    Some(d) => Some(d@),
                    None => None,
                },
                task_name@,
                string_views(task_args@),
            ),
        decreases args.len() - i,
    {
        let arg = args[i].as_str();
        if str_eq(arg, "-r") || str_eq(arg, "--recursive") {
            recursive = true;
            i = i + 1;
        } else if str_eq(arg, "--task") {
            if i + 1 >= args.len() {
                return false;
            }
            task_name = args[i + 1].clone();
            i = i + 2;
        } else if str_eq(arg, "--dir") {
            if i + 1 >= args.len() {
                return false;
            }
            directory = Some(args[i + 1].clone());
            i = i + 2;
        } else if task_name.as_str().unicode_len() == 0 {
            task_name = args[i].clone();
            i = i + 1;
        } else {
            let ghost before = task_args@;
            task_args.push(args[i].clone());
            proof {
                assert(string_views(task_args@) =~= string_views(before).push(views[i as int]));
            }
            i = i + 1;
        }
    }
    true
}

/// Reads the arguments of `run`.
pub fn parse_run_arguments(args: &Vec<String>) -> (r: RunArgs)
    requires
        spec_parse_run_arguments(string_views(args@)) is Some,
    ensures
        Some(r@) == spec_parse_run_arguments(string_views(args@)),
{
    let ghost views = string_views(args@);
    let mut recursive = false;
    let mut directory: Option<String> = None;
    let mut task_name = String::new();
    let mut task_args: Vec<String> = Vec::new();
    let mut i: usize = 0;
    assert(string_views(task_args@) =~= Seq::<Seq<char>>::empty());
    assert(task_name@ =~= Seq::<char>::empty());
    while i < args.len()
        invariant
            i <= args.len(),
            views == string_views(args@),
            spec_parse_run_arguments(views) is Some,
            spec_parse_run_arguments(views) == spec_run_args(
                views,
                i as int,
                recursive,
                match directory {
                    Some(d) => Some(d@),
                    None => None,
                },
                task_name@,
                string_views(task_args@),
            ),
        decreases args.len() - i,
    {
        let arg = args[i].as_str();
        if str_eq(arg, "-r") || str_eq(arg, "--recursive") {
            recursive = true;
            i = i + 1;
        } else if str_eq(arg, "--task") {
            task_name = args[i + 1].clone();
            i = i + 2;
        } else if str_eq(arg, "--dir") {
            directory = Some(args[i + 1].clone());
            i = i + 2;
        } else if task_name.as_str().unicode_len() == 0 {
            task_name = args[i].clone();
            i = i + 1;
        } else {
            let ghost before = task_args@;
            task_args.push(args[i].clone());
            proof {
                assert(string_views(task_args@) =~= string_views(before).push(views[i as int]));
            }
            i = i + 1;
        }
    }
    RunArgs { recursive, directory, task_name, task_args }
}

/// Lexes, parses and runs `input`; the program, whose global scope holds its variables.
pub fn interpret<G: GitRunner, T: TmuxRunner, H: Host>(input: String, runtime_context: &mut RuntimeContext<G, T, H>) -> (r: Result<Interpreter, ExecutionError>)
    requires
        old(runtime_context).wf(),
    ensures
        advances(old(runtime_context), final(runtime_context)),
        r matches Ok(i) ==> i.scope < final(runtime_context).store.scope_seq().len(),
        r matches Ok(i) ==> i.pos >= i.statements.len(),
        r matches Ok(i) ==> ran_in_order(i.statements@, i.scope as nat, final(runtime_context).runs@),
        r is Ok ==> fresh_module_names(old(runtime_context).module_registry.modules@,
            old(runtime_context).module_registry.modules@.len() as int),
        (spec_tokenize(input@).len() == 0 && fresh_module_names(old(runtime_context).module_registry.modules@,
            old(runtime_context).module_registry.modules@.len() as int)) ==> r is Ok,
{
    let tokens = Lexer::new().tokenize(input);
    assert(token_views(tokens@).len() == tokens@.len());
    let mut parser = Parser::new(tokens);
    let ast = match parser.parse() {
        Ok(a) => a,
        Err(e) => return Err(ExecutionError::from_string(CallInfo::new("parse"), e.reason)),
    };
    let mut interpreter = Interpreter::new(ast, runtime_context)?;
    interpreter.interpret(runtime_context)?;
    proof {
        let all = interpreter.statements@;
        assert(all.subrange(0, all.len() as int) =~= all);
        let m = choose|marks: Seq<int>| ran_through(all.subrange(0, all.len() as int), interpreter.scope as nat, runtime_context.runs@, marks);
        assert(ran_through(all, interpreter.scope as nat, runtime_context.runs@, m));
        assert(ran_in_order(all, interpreter.scope as nat, runtime_context.runs@));
    }
    Ok(interpreter)
}

/// Runs the task registered as `task_name` with the arguments as strings; a task that is
/// not registered is reported on standard output. What the task returns, or how it fails,
/// is dropped.
pub fn run_task<G: GitRunner, T: TmuxRunner, H: Host>(runtime_context: &mut RuntimeContext<G, T, H>, task_name: &str, task_args: &Vec<String>)
    requires
        old(runtime_context).wf(),
    ensures
        advances(old(runtime_context), final(runtime_context)),
        !old(runtime_context).task_registry.view().contains_key(task_name@) ==> (only_effects(old(runtime_context),
            final(runtime_context)) && final(runtime_context).effects@ == old(runtime_context).effects@.push(
            Effect::Printed { text: "Error: "@ + ("Running task '"@ + task_name@ + "' failed: "@ + "Not registered"@) },
        )),
        old(runtime_context).task_registry.view().contains_key(task_name@) ==> (final(runtime_context).runs@.len() > 0
            && (final(runtime_context).runs@.last() matches Run::Call { callable, args, .. }
            && callable == old(runtime_context).task_registry.view()[task_name@] && args.len() == task_args@.len()
            && forall|k: int| 0 <= k < args.len() ==> #[trigger] args[k] == DataType::String(task_args@[k]))),
        old(runtime_context).task_registry.view().contains_key(task_name@) ==> (
            old(runtime_context).task_registry.view()[task_name@].function matches Executable::Declared(i) ==> (
            (i < old(runtime_context).store.function_seq().len()
            && task_args@.len() == old(runtime_context).store.function_seq()[i as int].arguments@.len()) ==> (
            old(runtime_context).store.scope_seq().len() < final(runtime_context).store.scope_seq().len()
            && final(runtime_context).store.scope_seq()[old(runtime_context).store.scope_seq().len() as int].parent
                == Some(old(runtime_context).store.function_seq()[i as int].scope)))),
{
    let mut values: Vec<DataType> = Vec::new();
    let mut i: usize = 0;
    while i < task_args.len()
        invariant
            i <= task_args.len(),
            values@.len() == i,
            forall|k: int| 0 <= k < i ==> #[trigger] values@[k] == DataType::String(task_args@[k]),
        decreases task_args.len() - i,
    {
        values.push(DataType::String(task_args[i].clone()));
        i = i + 1;
    }
    match runtime_context.task_registry.get(task_name) {
        Err(e) => {
            let text = cat("Error: ", e.to_text().as_str());
            runtime_context.host.print(text.as_str());
            proof {
                runtime_context.effects@ = runtime_context.effects@.push(Effect::Printed { text: text@ });
                assert(old(runtime_context).effects@.is_prefix_of(runtime_context.effects@));
            }
        },
        Ok(task) => {
            let _ = call_callable(runtime_context, &task, values, MAX_CALL_DEPTH);
        },
    }
}

} // verus!
