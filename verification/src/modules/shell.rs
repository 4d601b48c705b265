//! The `shell` module: terminals opened in a directory, through the host.
use crate::context::{only_effects, Effect, RuntimeContext};
use crate::fs::get_absolute_path;
use crate::host::Host;
use crate::interpreter::builtin::{CallInfo, ExecutionError};
use crate::interpreter::coerce::{optional, spec_entry, Args, DictArgs};
use crate::interpreter::dictionary::DictionaryDeclaration;
use crate::modules::cmd::{has_cmd_text, not_text, spec_cmd_entry};
use crate::interpreter::datatype::DataType;
use crate::interpreter::store::unknown_reference;
use crate::modules::{GitRunner, Module, ModuleKind, TmuxRunner};
use crate::text::cat;
use vstd::prelude::*;

verus! {

/// The `shell` module.
pub fn create_shell_module() -> (m: Module)
    ensures
        m.name@ == "shell"@,
        m.kind == ModuleKind::Shell,
{
    Module::new("shell", ModuleKind::Shell)
}

/// What a `shell` function refuses: other than one argument, an argument that is no
/// dictionary or is unknown, a `cwd` or `cmd` entry that is no text, and no `cmd` entry
/// where the function needs one.
pub open spec fn shell_refused(args: Seq<DataType>, dicts: Seq<DictionaryDeclaration>, cmd_required: bool) -> bool {
    args.len() != 1 || match args[0] {
        DataType::Dictionary(d) => d.index >= dicts.len() || not_text(spec_entry(dicts[d.index as int].view(), "cwd"@))
            || not_text(spec_entry(dicts[d.index as int].view(), "cmd"@)) || (cmd_required && spec_entry(
            dicts[d.index as int].view(),
            "cmd"@,
        ) is Undefined),
        _ => true,
    }
}

/// `cmd` is the command of the dictionary argument, where its `cmd` entry is a string or
/// missing.
pub open spec fn gives_cmd(args: Seq<DataType>, dicts: Seq<DictionaryDeclaration>, cmd: Option<Seq<char>>) -> bool {
    match args[0] {
        DataType::Dictionary(d) => has_cmd_text(dicts[d.index as int].view()) ==> cmd == spec_cmd_entry(
            spec_entry(dicts[d.index as int].view(), "cmd"@),
        ),
        _ => true,
    }
}

/// The host's error as text, if any.
pub open spec fn host_error(r: Result<(), String>) -> Option<Seq<char>> {
    match r {
        Ok(()) => None,
        Err(e) => Some(e@),
    }
}

/// The absolute directory (key `cwd`, else the context's working directory) and the
/// command (key `cmd`) of a `shell` function; the command is required when `cmd_required`.
fn shell_target<G: GitRunner, T: TmuxRunner, H: Host>(
    ctx: &RuntimeContext<G, T, H>,
    fn_name: &str,
    args: &Vec<DataType>,
    cmd_required: bool,
) -> (r: Result<(String, Option<String>), ExecutionError>)
    requires
        ctx.wf(),
    ensures
        shell_refused(args@, ctx.store.dict_seq(), cmd_required) ==> r is Err,
        r matches Ok((_, c)) ==> (cmd_required ==> c is Some),
        r matches Ok((_, c)) ==> gives_cmd(args@, ctx.store.dict_seq(), match c {
            Some(t) => Some(t@),
            None => None,
        }),
{
    let checked = Args::new(fn_name, args);
    if let Err(e) = checked.exact(1) {
        return Err(ExecutionError::from_argument_error(e));
    }
    let dict_ref = match checked.dictionary(0) {
        Ok(d) => d,
        Err(e) => return Err(ExecutionError::from_argument_error(e)),
    };
    let dict = match ctx.store.dictionary(dict_ref) {
        Some(d) => d,
        None => return Err(unknown_reference()),
    };
    let dict_args = DictArgs::new(fn_name, dict);
    let cwd = match optional(dict_args.string("cwd", &ctx.host)) {
        Ok(Some(c)) => c,
        Ok(None) => ctx.cwd.clone(),
        Err(e) => return Err(ExecutionError::from_argument_error(e)),
    };
    let absolute_cwd = get_absolute_path(cwd.as_str(), &ctx.host)?;
    let cmd = if cmd_required {
        match dict_args.string("cmd", &ctx.host) {
            Ok(c) => Some(c),
            Err(e) => return Err(ExecutionError::from_argument_error(e)),
        }
    } else {
        match optional(dict_args.string("cmd", &ctx.host)) {
            Ok(c) => c,
            Err(e) => return Err(ExecutionError::from_argument_error(e)),
        }
    };
    Ok((absolute_cwd, cmd))
}

/// `shell.open({cwd, cmd})`: opens a terminal in the directory that runs the command, if
/// any, and stays open.
pub fn open<G: GitRunner, T: TmuxRunner, H: Host>(ctx: &mut RuntimeContext<G, T, H>, args: &Vec<DataType>) -> (r: Result<DataType, ExecutionError>)
    requires
        old(ctx).wf(),
    ensures
        only_effects(old(ctx), final(ctx)),
        shell_refused(args@, old(ctx).store.dict_seq(), false) ==> r is Err && final(ctx).effects@ == old(ctx).effects@,
        final(ctx).effects@ == old(ctx).effects@ || (final(ctx).effects@.len() == old(ctx).effects@.len() + 1
            && final(ctx).effects@.drop_last() == old(ctx).effects@ && final(ctx).effects@.last() is Opened),
        final(ctx).effects@ == old(ctx).effects@ ==> r is Err,
        final(ctx).effects@.len() > old(ctx).effects@.len() ==> ({
            let opened = final(ctx).effects@.last();
            &&& gives_cmd(args@, old(ctx).store.dict_seq(), opened->Opened_cmd)
            &&& opened->Opened_error is None <==> r is Ok
            &&& opened->Opened_error matches Some(e) ==> (r matches Err(x) && x.spec_name() == "open"@
                && x.spec_reason() == "Spawning child for open failed: "@ + e)
        }),
        r matches Ok(v) ==> v is Undefined,
{
    let (path, cmd) = shell_target(ctx, "open", args, false)?;
    let command: Option<&str> = match &cmd {
        Some(c) => Some(c.as_str()),
        None => None,
    };
    let spawned = ctx.host.spawn_open(path.as_str(), command);
    proof {
        let c = match cmd {
            Some(t) => Some(t@),
            None => None,
        };
        ctx.effects@ = ctx.effects@.push(Effect::Opened { path: path@, cmd: c, error: host_error(spawned) });
        assert(ctx.effects@.drop_last() =~= old(ctx).effects@);
    }
    match spawned {
        Ok(()) => Ok(DataType::Undefined),
        Err(e) => Err(ExecutionError::from_string(CallInfo::new("open"), cat("Spawning child for open failed: ", e.as_str()))),
    }
}

/// `shell.run({cwd, cmd})`: opens a terminal in the directory that runs the command and
/// closes with it.
pub fn run<G: GitRunner, T: TmuxRunner, H: Host>(ctx: &mut RuntimeContext<G, T, H>, args: &Vec<DataType>) -> (r: Result<DataType, ExecutionError>)
    requires
        old(ctx).wf(),
    ensures
        only_effects(old(ctx), final(ctx)),
        shell_refused(args@, old(ctx).store.dict_seq(), true) ==> r is Err && final(ctx).effects@ == old(ctx).effects@,
        final(ctx).effects@ == old(ctx).effects@ || (final(ctx).effects@.len() == old(ctx).effects@.len() + 1
            && final(ctx).effects@.drop_last() == old(ctx).effects@ && final(ctx).effects@.last() is Ran),
        final(ctx).effects@ == old(ctx).effects@ ==> r is Err,
        final(ctx).effects@.len() > old(ctx).effects@.len() ==> ({
            let ran = final(ctx).effects@.last();
            &&& gives_cmd(args@, old(ctx).store.dict_seq(), Some(ran->Ran_cmd))
            &&& ran->Ran_error is None <==> r is Ok
            &&& ran->Ran_error matches Some(e) ==> (r matches Err(x) && x.spec_name() == "run"@
                && x.spec_reason() == "Spawning child for run failed: "@ + e)
        }),
        r matches Ok(v) ==> v is Undefined,
{
    let (path, cmd) = shell_target(ctx, "run", args, true)?;
    let command = match cmd {
        Some(c) => c,
        None => String::new(),
    };
    let spawned = ctx.host.spawn_run(path.as_str(), command.as_str());
    proof {
        ctx.effects@ = ctx.effects@.push(Effect::Ran { path: path@, cmd: command@, error: host_error(spawned) });
        assert(ctx.effects@.drop_last() =~= old(ctx).effects@);
    }
    match spawned {
        Ok(()) => Ok(DataType::Undefined),
        Err(e) => Err(ExecutionError::from_string(CallInfo::new("run"), cat("Spawning child for run failed: ", e.as_str()))),
    }
}

} // verus!
