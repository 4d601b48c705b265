//! The `tmux` module: sessions, and the windows and panes of a session, through the
//! context's `tmux` runner. Functions of a session return the session, so that calls
//! chain.
use crate::context::{only_effects, Effect, RuntimeContext};
use crate::host::Host;
use crate::interpreter::builtin::{CallInfo, ExecutionError};
use crate::interpreter::coerce::{spec_entry, Args};
use crate::interpreter::datatype::DataType;
use crate::interpreter::dictionary::DictionaryDeclaration;
use crate::interpreter::store::unknown_reference;
use crate::modules::cmd::{has_cmd_text, not_text, resolve_cmd, spec_cmd_entry};
use crate::modules::git::answer_of;
use crate::modules::{GitRunner, Module, ModuleKind, TmuxError, TmuxRunner};
use crate::text::{cat, cat3, i32_to_string, signed_decimal, string_views};
use vstd::prelude::*;

verus! {

/// The `tmux` module.
pub fn create_tmux_module() -> (m: Module)
    ensures
        m.name@ == "tmux"@,
        m.kind == ModuleKind::Tmux,
{
    Module::new("tmux", ModuleKind::Tmux)
}

/// The module of the session `session_name`.
pub fn create_tmux_session_module(session_name: &str) -> (m: Module)
    ensures
        m.name@ == session_name@,
        m.kind == ModuleKind::TmuxSession,
{
    Module::new(session_name, ModuleKind::TmuxSession)
}

/// The name of the session a session function is called on.
pub fn session_name_from_receiver(receiver: &Option<DataType>, fn_name: &str) -> (r: Result<String, ExecutionError>)
    ensures
        receiver matches Some(DataType::Module(m)) ==> r == Ok::<String, ExecutionError>(m.name),
        !(receiver matches Some(DataType::Module(_))) ==> (r matches Err(e) && e.spec_name() == fn_name@
            && e.spec_reason() == "expected a tmux session module as receiver"@),
{
    match receiver {
        Some(DataType::Module(module)) => Ok(module.name.clone()),
        _ => Err(ExecutionError::new(CallInfo::new(fn_name), "expected a tmux session module as receiver")),
    }
}

/// The execution error a failed `tmux` command becomes in the function `fn_name`.
pub fn tmux_error_to_execution_error(e: TmuxError, fn_name: &str) -> (x: ExecutionError)
    ensures
        x.spec_name() == fn_name@,
        x.spec_reason() == "tmux command '"@ + e.command@ + "' failed: "@ + e.reason@,
{
    ExecutionError::from_string(CallInfo::new(fn_name), e.to_text())
}

/// `<session>:<window>`.
pub fn window_target(session: &str, window: &str) -> (t: String)
    ensures
        t@ == session@ + ":"@ + window@,
{
    cat3(session, ":", window)
}

/// `<session>:<window>.<pane>`, the pane number read as an `i32`.
pub fn pane_target(session: &str, window: &str, pane: usize) -> (t: String)
    ensures
        t@ == session@ + ":"@ + window@ + "."@ + signed_decimal((pane as i32) as int),
{
    let head = cat3(session, ":", window);
    let number = i32_to_string(pane as i32);
    cat3(head.as_str(), ".", number.as_str())
}

fn strings(words: &[&str]) -> (r: Vec<String>)
    ensures
        string_views(r@) == words@.map_values(|w: &str| w@),
{
    let mut r: Vec<String> = Vec::new();
    let mut i: usize = 0;
    while i < words.len()
        invariant
            i <= words.len(),
            string_views(r@) == words@.take(i as int).map_values(|w: &str| w@),
        decreases words.len() - i,
    {
        let ghost before = r@;
        r.push(words[i].to_owned());
        proof {
            assert(string_views(r@) =~= string_views(before).push(words@[i as int]@));
            assert(words@.take(i + 1).map_values(|w: &str| w@) =~= words@.take(i as int).map_values(|w: &str| w@).push(words@[i as int]@));
        }
        i = i + 1;
    }
    proof {
        assert(words@.take(words@.len() as int) == words@);
    }
    r
}

/// `words` followed by `last` where there is one.
fn strings_then(words: &[&str], last: &Option<String>) -> (r: Vec<String>)
    ensures
        string_views(r@) == words@.map_values(|w: &str| w@) + match last {
            Some(c) => seq![c@],
            None => Seq::<Seq<char>>::empty(),
        },
{
    let mut r = strings(words);
    let ghost before = r@;
    match last {
        Some(c) => {
            r.push(c.clone());
            assert(string_views(r@) =~= string_views(before) + seq![c@]);
        },
        None => {
            assert(string_views(r@) =~= string_views(before) + Seq::<Seq<char>>::empty());
        },
    }
    r
}

/// Runs `tmux` with `args`.
fn run_tmux<T: TmuxRunner>(runner: &T, args: &Vec<String>, effects: &mut Ghost<Seq<Effect>>) -> (r: Result<String, TmuxError>)
    ensures
        final(effects)@ == old(effects)@.push(Effect::Tmux { args: string_views(args@), output: answer_of(r) }),
{
    let mut refs: Vec<&str> = Vec::new();
    let mut i: usize = 0;
    while i < args.len()
        invariant
            i <= args.len(),
        decreases args.len() - i,
    {
        refs.push(args[i].as_str());
        i = i + 1;
    }
    let r = runner.run(refs.as_slice());
    proof {
        effects@ = effects@.push(Effect::Tmux { args: string_views(args@), output: answer_of(r) });
    }
    r
}

/// The `tmux` arguments of a session function, given the session, its argument texts, the
/// resolved directory and command where it takes a dictionary.
pub open spec fn spec_tmux_arguments(
    name: Seq<char>,
    session: Seq<char>,
    first: Seq<char>,
    second: Seq<char>,
    cwd: Seq<char>,
    cmd: Option<Seq<char>>,
) -> Seq<Seq<char>> {
    let tail = match cmd {
        Some(c) => seq![c],
        None => Seq::<Seq<char>>::empty(),
    };
    if name == "new_session"@ {
        seq!["new-session"@, "-d"@, "-s"@, first]
    } else if name == "kill_session"@ {
        seq!["kill-session"@, "-t"@, first]
    } else if name == "has_session"@ {
        seq!["has-session"@, "-t"@, first]
    } else if name == "new_window"@ {
        seq!["new-window"@, "-t"@, session, "-n"@, first, "-c"@, cwd] + tail
    } else if name == "kill_window"@ {
        seq!["kill-window"@, "-t"@, session + ":"@ + first]
    } else if name == "select_window"@ {
        seq!["select-window"@, "-t"@, session + ":"@ + first]
    } else if name == "split_pane"@ {
        seq!["split-window"@, "-t"@, session + ":"@ + first, "-d"@, "-c"@, cwd] + tail
    } else if name == "split_pane_h"@ {
        seq!["split-window"@, "-h"@, "-t"@, session + ":"@ + first, "-d"@, "-c"@, cwd] + tail
    } else if name == "kill_pane"@ {
        seq!["kill-pane"@, "-t"@, session + ":"@ + first + "."@ + second]
    } else if name == "set_layout"@ {
        seq!["select-layout"@, "-t"@, session + ":"@ + first, second]
    } else if name == "interrupt"@ {
        seq!["send-keys"@, "-t"@, session + ":"@ + first + "."@ + second, "C-c"@]
    } else if name == "attach"@ {
        seq!["attach-session"@, "-t"@, session]
    } else {
        Seq::empty()
    }
}

/// `send-keys -t <session>:<window>.<pane> <keys> Enter`.
pub fn send_keys_arguments(target: &str, keys: &str) -> (r: Vec<String>)
    ensures
        string_views(r@) == seq!["send-keys"@, "-t"@, target@, keys@, "Enter"@],
{
    let r = strings(&["send-keys", "-t", target, keys, "Enter"]);
    assert(string_views(r@) =~= seq!["send-keys"@, "-t"@, target@, keys@, "Enter"@]);
    r
}

/// The `tmux` arguments of the function `name` (see `spec_tmux_arguments`).
pub fn tmux_arguments(
    name: &str,
    session: &str,
    first: &str,
    second: &str,
    cwd: &str,
    cmd: &Option<String>,
) -> (r: Vec<String>)
    ensures
        string_views(r@) == spec_tmux_arguments(
            name@,
            session@,
            first@,
            second@,
            cwd@,
            match cmd {
                Some(c) => Some(c@),
                None => None,
            },
        ),
{
    let none: Option<String> = None;
    let ghost tail = match cmd {
        Some(c) => seq![c@],
        None => Seq::<Seq<char>>::empty(),
    };
    let r = if crate::text::str_eq(name, "new_session") {
        strings_then(&["new-session", "-d", "-s", first], &none)
    } else if crate::text::str_eq(name, "kill_session") {
        strings_then(&["kill-session", "-t", first], &none)
    } else if crate::text::str_eq(name, "has_session") {
        strings_then(&["has-session", "-t", first], &none)
    } else if crate::text::str_eq(name, "new_window") {
        strings_then(&["new-window", "-t", session, "-n", first, "-c", cwd], cmd)
    } else if crate::text::str_eq(name, "kill_window") {
        let target = window_target(session, first);
        strings_then(&["kill-window", "-t", target.as_str()], &none)
    } else if crate::text::str_eq(name, "select_window") {
        let target = window_target(session, first);
        strings_then(&["select-window", "-t", target.as_str()], &none)
    } else if crate::text::str_eq(name, "split_pane") {
        let target = window_target(session, first);
        strings_then(&["split-window", "-t", target.as_str(), "-d", "-c", cwd], cmd)
    } else if crate::text::str_eq(name, "split_pane_h") {
        let target = window_target(session, first);
        strings_then(&["split-window", "-h", "-t", target.as_str(), "-d", "-c", cwd], cmd)
    } else if crate::text::str_eq(name, "kill_pane") {
        let head = window_target(session, first);
        let target = cat3(head.as_str(), ".", second);
        strings_then(&["kill-pane", "-t", target.as_str()], &none)
    } else if crate::text::str_eq(name, "set_layout") {
        let target = window_target(session, first);
        strings_then(&["select-layout", "-t", target.as_str(), second], &none)
    } else if crate::text::str_eq(name, "interrupt") {
        let head = window_target(session, first);
        let target = cat3(head.as_str(), ".", second);
        strings_then(&["send-keys", "-t", target.as_str(), "C-c"], &none)
    } else if crate::text::str_eq(name, "attach") {
        strings_then(&["attach-session", "-t", session], &none)
    } else {
        Vec::new()
    };
    assert(string_views(r@) =~= spec_tmux_arguments(
        name@,
        session@,
        first@,
        second@,
        cwd@,
        match cmd {
            Some(c) => Some(c@),
            None => None,
        },
    ));
    r
}

/// `after` is `before` and one more `tmux` command, run with `args`.
pub open spec fn ran_tmux(before: Seq<Effect>, after: Seq<Effect>, args: Seq<Seq<char>>) -> bool {
    &&& after.len() == before.len() + 1
    &&& after.drop_last() == before
    &&& after.last() is Tmux
    &&& after.last()->Tmux_args == args
}

/// `sent` are the `tmux` arguments of `fn_name` for the session of `receiver`, the window
/// named by the first argument and the command of the dictionary in the second, in some
/// directory; where the window is a string and the command a string or missing.
pub open spec fn names_window(
    fn_name: Seq<char>,
    receiver: Option<DataType>,
    args: Seq<DataType>,
    dicts: Seq<DictionaryDeclaration>,
    sent: Seq<Seq<char>>,
) -> bool {
    match receiver {
        Some(DataType::Module(m)) => match args[0] {
            DataType::String(w) => match args[1] {
                DataType::Dictionary(d) => has_cmd_text(dicts[d.index as int].view()) ==> exists|p: Seq<char>|
                    sent == #[trigger] spec_tmux_arguments(fn_name, m.name@, w@, ""@, p,
                        spec_cmd_entry(spec_entry(dicts[d.index as int].view(), "cmd"@))),
                _ => true,
            },
            _ => true,
        },
        _ => true,
    }
}


/// Runs the command of `fn_name`, turning a failure into an execution error.
fn run_checked<T: TmuxRunner>(runner: &T, args: &Vec<String>, fn_name: &str, effects: &mut Ghost<Seq<Effect>>) -> (r: Result<(), ExecutionError>)
    ensures
        r matches Err(e) ==> e.spec_name() == fn_name@,
        ran_tmux(old(effects)@, final(effects)@, string_views(args@)),
        final(effects)@.last()->Tmux_output is Some <==> r is Ok,
{
    let r = run_tmux(runner, args, effects);
    assert(effects@.drop_last() =~= old(effects)@);
    match r {
        Ok(_) => Ok(()),
        Err(e) => Err(tmux_error_to_execution_error(e, fn_name)),
    }
}

/// One argument, which reads as text: a string, a number or a boolean.
pub open spec fn session_named(args: Seq<DataType>) -> bool {
    args.len() == 1 && (args[0] is String || args[0] is Number || args[0] is Boolean)
}

/// The session name given as the one argument of `tmux.<fn_name>(name)`.
fn session_argument<G: GitRunner, T: TmuxRunner, H: Host>(ctx: &RuntimeContext<G, T, H>, fn_name: &str, args: &Vec<DataType>) -> (r: Result<String, ExecutionError>)
    ensures
        args@.len() != 1 ==> r is Err,
        args@.len() == 1 ==> (args@[0] matches DataType::String(s) ==> r == Ok::<String, ExecutionError>(s)),
        r is Ok <==> session_named(args@),
{
    let args = Args::new(fn_name, args);
    if let Err(e) = args.exact(1) {
        return Err(ExecutionError::from_argument_error(e));
    }
    match args.string(0, &ctx.host) {
        Ok(name) => Ok(name),
        Err(e) => Err(ExecutionError::from_argument_error(e)),
    }
}

/// `tmux.new_session(name)`: starts a detached session; its module.
pub fn new_session<G: GitRunner, T: TmuxRunner, H: Host>(ctx: &mut RuntimeContext<G, T, H>, args: &Vec<DataType>) -> (r: Result<DataType, ExecutionError>)
    ensures
        only_effects(old(ctx), final(ctx)),
        !session_named(args@) ==> r is Err && final(ctx).effects@ == old(ctx).effects@,
        args@.len() == 1 ==> (args@[0] matches DataType::String(s) ==> ran_tmux(old(ctx).effects@, final(ctx).effects@,
            spec_tmux_arguments("new_session"@, ""@, s@, ""@, ""@, None))),
        session_named(args@) ==> (final(ctx).effects@.last()->Tmux_output is Some <==> r is Ok),
        r matches Ok(v) ==> v matches DataType::Module(m) && m.kind == ModuleKind::TmuxSession,
        r matches Ok(DataType::Module(m)) ==> (args@[0] matches DataType::String(s) ==> m.name@ == s@),
{
    let name = session_argument(ctx, "new_session", args)?;
    let none: Option<String> = None;
    run_checked(&ctx.tmux_runner, &tmux_arguments("new_session", "", name.as_str(), "", "", &none), "new_session", &mut ctx.effects)?;
    Ok(DataType::Module(create_tmux_session_module(name.as_str())))
}

/// `tmux.kill_session(name)`.
pub fn kill_session<G: GitRunner, T: TmuxRunner, H: Host>(ctx: &mut RuntimeContext<G, T, H>, args: &Vec<DataType>) -> (r: Result<DataType, ExecutionError>)
    ensures
        only_effects(old(ctx), final(ctx)),
        !session_named(args@) ==> r is Err && final(ctx).effects@ == old(ctx).effects@,
        args@.len() == 1 ==> (args@[0] matches DataType::String(s) ==> ran_tmux(old(ctx).effects@, final(ctx).effects@,
            spec_tmux_arguments("kill_session"@, ""@, s@, ""@, ""@, None))),
        session_named(args@) ==> (final(ctx).effects@.last()->Tmux_output is Some <==> r is Ok),
        r matches Ok(v) ==> v is Undefined,
{
    let name = session_argument(ctx, "kill_session", args)?;
    let none: Option<String> = None;
    run_checked(&ctx.tmux_runner, &tmux_arguments("kill_session", "", name.as_str(), "", "", &none), "kill_session", &mut ctx.effects)?;
    Ok(DataType::Undefined)
}

/// `tmux.has_session(name)`: whether `tmux has-session` succeeds.
pub fn has_session<G: GitRunner, T: TmuxRunner, H: Host>(ctx: &mut RuntimeContext<G, T, H>, args: &Vec<DataType>) -> (r: Result<DataType, ExecutionError>)
    ensures
        only_effects(old(ctx), final(ctx)),
        !session_named(args@) ==> r is Err && final(ctx).effects@ == old(ctx).effects@,
        args@.len() == 1 ==> (args@[0] matches DataType::String(s) ==> ran_tmux(old(ctx).effects@, final(ctx).effects@,
            spec_tmux_arguments("has_session"@, ""@, s@, ""@, ""@, None))),
        session_named(args@) ==> (r matches Ok(DataType::Boolean(b)) && (b <==> final(ctx).effects@.last()->Tmux_output is Some)),
        r is Ok <==> session_named(args@),
{
    let name = session_argument(ctx, "has_session", args)?;
    let none: Option<String> = None;
    let answer = run_tmux(&ctx.tmux_runner, &tmux_arguments("has_session", "", name.as_str(), "", "", &none), &mut ctx.effects);
    assert(ctx.effects@.drop_last() =~= old(ctx).effects@);
    Ok(DataType::Boolean(answer.is_ok()))
}

/// A session function that takes a window and a dictionary with `cwd` and `cmd`:
/// `new_window`, `split_pane`, `split_pane_h`; the session.
pub fn window_with_command<G: GitRunner, T: TmuxRunner, H: Host>(
    ctx: &mut RuntimeContext<G, T, H>,
    fn_name: &str,
    receiver: &Option<DataType>,
    args: &Vec<DataType>,
) -> (r: Result<DataType, ExecutionError>)
    requires
        old(ctx).wf(),
    ensures
        only_effects(old(ctx), final(ctx)),
        final(ctx).effects@ == old(ctx).effects@ || (final(ctx).effects@.len() == old(ctx).effects@.len() + 1
            && final(ctx).effects@.drop_last() == old(ctx).effects@),
        final(ctx).effects@ == old(ctx).effects@ ==> r is Err,
        !(receiver matches Some(DataType::Module(_))) ==> r is Err && final(ctx).effects@ == old(ctx).effects@,
        args@.len() != 2 ==> r is Err && final(ctx).effects@ == old(ctx).effects@,
        args@.len() == 2 ==> (!(args@[0] is String || args@[0] is Number || args@[0] is Boolean)
            ==> r is Err && final(ctx).effects@ == old(ctx).effects@),
        args@.len() == 2 ==> (!(args@[1] is Dictionary) ==> r is Err && final(ctx).effects@ == old(ctx).effects@),
        args@.len() == 2 ==> (args@[1] matches DataType::Dictionary(d) ==> (d.index < old(ctx).store.dict_seq().len()
            ==> ((not_text(spec_entry(old(ctx).store.dict_seq()[d.index as int].view(), "cwd"@))
                || not_text(spec_entry(old(ctx).store.dict_seq()[d.index as int].view(), "cmd"@)))
                ==> r is Err && final(ctx).effects@ == old(ctx).effects@))),
        final(ctx).effects@.len() > old(ctx).effects@.len() ==> (final(ctx).effects@.last() is Tmux
            && (final(ctx).effects@.last()->Tmux_output is Some <==> r is Ok)
            && names_window(fn_name@, *receiver, args@, old(ctx).store.dict_seq(), final(ctx).effects@.last()->Tmux_args)),
        r matches Ok(v) ==> receiver == Some(v),
{
    let session = session_name_from_receiver(receiver, fn_name)?;
    let checked = Args::new(fn_name, args);
    if let Err(e) = checked.exact(2) {
        return Err(ExecutionError::from_argument_error(e));
    }
    let window = match checked.string(0, &ctx.host) {
        Ok(w) => w,
        Err(e) => return Err(ExecutionError::from_argument_error(e)),
    };
    let dict_ref = match checked.dictionary(1) {
        Ok(d) => d,
        Err(e) => return Err(ExecutionError::from_argument_error(e)),
    };
    let dict = match ctx.store.dictionary(dict_ref) {
        Some(d) => d,
        None => return Err(unknown_reference()),
    };
    let resolved = resolve_cmd(dict, fn_name, ctx.cwd.as_str(), &ctx.host)?;
    let arguments = tmux_arguments(fn_name, session.as_str(), window.as_str(), "", resolved.cwd.as_str(), &resolved.cmd);
    let ran = run_checked(&ctx.tmux_runner, &arguments, fn_name, &mut ctx.effects);
    proof {
        let c = match resolved.cmd {
            Some(c) => Some(c@),
            None => None,
        };
        assert(has_cmd_text(dict.view()) ==> c == spec_cmd_entry(spec_entry(dict.view(), "cmd"@)));
        assert(ctx.effects@.last()->Tmux_args == spec_tmux_arguments(fn_name@, session@, window@, ""@, resolved.cwd@, c));
    }
    ran?;
    match receiver {
        Some(v) => Ok(v.duplicate()),
        None => Err(ExecutionError::new(CallInfo::new(fn_name), "expected a tmux session module as receiver")),
    }
}

/// The name of the session module `receiver`.
pub open spec fn session_of(receiver: Option<DataType>) -> Seq<char> {
    match receiver {
        Some(DataType::Module(m)) => m.name@,
        _ => ""@,
    }
}

/// Every value of `args` is a string.
pub open spec fn all_strings(args: Seq<DataType>) -> bool {
    forall|k: int| 0 <= k < args.len() ==> #[trigger] args[k] is String
}

/// The text of the string at `i` of `args`, or nothing where there is none.
pub open spec fn text_at(args: Seq<DataType>, i: int) -> Seq<char> {
    if 0 <= i < args.len() && args[i] is String {
        args[i]->String_0@
    } else {
        ""@
    }
}

/// A session function whose arguments are texts: `kill_window(window)`,
/// `select_window(window)`, `set_layout(window, layout)`, `attach()`; the session, or
/// `undefined` for `attach`.
pub fn window_command<G: GitRunner, T: TmuxRunner, H: Host>(
    ctx: &mut RuntimeContext<G, T, H>,
    fn_name: &str,
    count: usize,
    receiver: &Option<DataType>,
    args: &Vec<DataType>,
) -> (r: Result<DataType, ExecutionError>)
    requires
        count <= 2,
    ensures
        only_effects(old(ctx), final(ctx)),
        !(receiver matches Some(DataType::Module(_))) ==> r is Err && final(ctx).effects@ == old(ctx).effects@,
        args@.len() != count ==> r is Err && final(ctx).effects@ == old(ctx).effects@,
        (receiver matches Some(DataType::Module(_)) && args@.len() == count && all_strings(args@)) ==> (
            ran_tmux(old(ctx).effects@, final(ctx).effects@, spec_tmux_arguments(fn_name@, session_of(*receiver),
                text_at(args@, 0), text_at(args@, 1), ""@, None))
            && (final(ctx).effects@.last()->Tmux_output is Some <==> r is Ok)),
        r matches Ok(v) ==> (fn_name@ == "attach"@ ==> v is Undefined) && (fn_name@ != "attach"@ ==> receiver == Some(v)),
{
    let session = session_name_from_receiver(receiver, fn_name)?;
    let checked = Args::new(fn_name, args);
    if let Err(e) = checked.exact(count) {
        return Err(ExecutionError::from_argument_error(e));
    }
    let mut texts: Vec<String> = Vec::new();
    let mut i: usize = 0;
    while i < count
        invariant
            i <= count <= 2,
            texts@.len() == i,
            checked.arguments@ == args@,
            args@.len() == count,
            forall|k: int| 0 <= k < i ==> (args@[k] matches DataType::String(t) ==> #[trigger] texts@[k] == t),
        decreases count - i,
    {
        match checked.string(i, &ctx.host) {
            Ok(t) => texts.push(t),
            Err(e) => return Err(ExecutionError::from_argument_error(e)),
        }
        i = i + 1;
    }
    let first = if count > 0 { texts[0].clone() } else { String::new() };
    let second = if count > 1 { texts[1].clone() } else { String::new() };
    proof {
        reveal_strlit("");
        if all_strings(args@) {
            assert(count > 0 ==> args@[0] is String);
            assert(count > 1 ==> args@[1] is String);
            assert(first@ == text_at(args@, 0));
            assert(second@ == text_at(args@, 1));
        }
    }
    let none: Option<String> = None;
    let arguments = tmux_arguments(fn_name, session.as_str(), first.as_str(), second.as_str(), "", &none);
    run_checked(&ctx.tmux_runner, &arguments, fn_name, &mut ctx.effects)?;
    if crate::text::str_eq(fn_name, "attach") {
        return Ok(DataType::Undefined);
    }
    match receiver {
        Some(v) => Ok(v.duplicate()),
        None => Err(ExecutionError::new(CallInfo::new(fn_name), "expected a tmux session module as receiver")),
    }
}

/// `sent` are the `tmux` arguments for the pane function `fn_name` of the session of
/// `receiver`: on the window its first argument names, where that is a string, and some pane
/// (the number the second argument reads as), with the keys of the third for `send_keys`.
pub open spec fn names_pane(fn_name: Seq<char>, receiver: Option<DataType>, args: Seq<DataType>, sent: Seq<Seq<char>>) -> bool {
    args.len() > 0 && args[0] is String ==> exists|p: usize| {
        let target = session_of(receiver) + ":"@ + text_at(args, 0) + "."@ + #[trigger] pane_text(p);
        if fn_name == "send_keys"@ {
            args.len() > 2 && args[2] is String ==> sent == seq!["send-keys"@, "-t"@, target, text_at(args, 2), "Enter"@]
        } else {
            sent == spec_tmux_arguments(fn_name, session_of(receiver), text_at(args, 0), pane_text(p), ""@, None)
        }
    }
}

/// How a pane number is written: as the `i32` it reads as.
pub open spec fn pane_text(p: usize) -> Seq<char> {
    signed_decimal((p as i32) as int)
}

/// A session function on a pane: `kill_pane(window, pane)`, `interrupt(window, pane)`,
/// `send_keys(window, pane, keys)`; the session.
pub fn pane_command<G: GitRunner, T: TmuxRunner, H: Host>(
    ctx: &mut RuntimeContext<G, T, H>,
    fn_name: &str,
    receiver: &Option<DataType>,
    args: &Vec<DataType>,
) -> (r: Result<DataType, ExecutionError>)
    ensures
        only_effects(old(ctx), final(ctx)),
        final(ctx).effects@ == old(ctx).effects@ || ran_tmux(old(ctx).effects@, final(ctx).effects@,
            final(ctx).effects@.last()->Tmux_args),
        final(ctx).effects@ == old(ctx).effects@ ==> r is Err,
        !(receiver matches Some(DataType::Module(_))) ==> r is Err && final(ctx).effects@ == old(ctx).effects@,
        fn_name@ == "send_keys"@ ==> (args@.len() != 3 ==> r is Err && final(ctx).effects@ == old(ctx).effects@),
        fn_name@ != "send_keys"@ ==> (args@.len() != 2 ==> r is Err && final(ctx).effects@ == old(ctx).effects@),
        final(ctx).effects@.len() > old(ctx).effects@.len() ==> ((final(ctx).effects@.last()->Tmux_output is Some <==> r is Ok)
            && names_pane(fn_name@, *receiver, args@, final(ctx).effects@.last()->Tmux_args)),
        r matches Ok(v) ==> receiver == Some(v),
{
    let session = session_name_from_receiver(receiver, fn_name)?;
    let sends_keys = crate::text::str_eq(fn_name, "send_keys");
    let checked = Args::new(fn_name, args);
    let count: usize = if sends_keys { 3 } else { 2 };
    if let Err(e) = checked.exact(count) {
        return Err(ExecutionError::from_argument_error(e));
    }
    let window = match checked.string(0, &ctx.host) {
        Ok(w) => w,
        Err(e) => return Err(ExecutionError::from_argument_error(e)),
    };
    let pane = match checked.integer(1, &ctx.host) {
        Ok(p) => p,
        Err(e) => return Err(ExecutionError::from_argument_error(e)),
    };
    let arguments = if sends_keys {
        let keys = match checked.string(2, &ctx.host) {
            Ok(k) => k,
            Err(e) => return Err(ExecutionError::from_argument_error(e)),
        };
        let target = pane_target(session.as_str(), window.as_str(), pane);
        send_keys_arguments(target.as_str(), keys.as_str())
    } else {
        let number = i32_to_string(pane as i32);
        let none: Option<String> = None;
        tmux_arguments(fn_name, session.as_str(), window.as_str(), number.as_str(), "", &none)
    };
    let ran = run_checked(&ctx.tmux_runner, &arguments, fn_name, &mut ctx.effects);
    proof {
        let sent = ctx.effects@.last()->Tmux_args;
        let target = session_of(*receiver) + ":"@ + text_at(args@, 0) + "."@ + pane_text(pane);
        if args@[0] is String {
            assert(window@ == text_at(args@, 0));
            if sends_keys {
                if args@.len() > 2 && args@[2] is String {
                    assert(sent =~= seq!["send-keys"@, "-t"@, target, text_at(args@, 2), "Enter"@]);
                }
            } else {
                assert(sent == spec_tmux_arguments(fn_name@, session_of(*receiver), text_at(args@, 0), pane_text(pane), ""@, None));
            }
            assert(names_pane(fn_name@, *receiver, args@, sent));
        }
    }
    ran?;
    match receiver {
        Some(v) => Ok(v.duplicate()),
        None => Err(ExecutionError::new(CallInfo::new(fn_name), "expected a tmux session module as receiver")),
    }
}

/// `session.attach_cmd()`: the command that attaches to the session.
pub fn attach_cmd(receiver: &Option<DataType>, args: &Vec<DataType>) -> (r: Result<DataType, ExecutionError>)
    ensures
        !(receiver matches Some(DataType::Module(_))) ==> r is Err,
        args@.len() != 0 ==> r is Err,
        receiver matches Some(DataType::Module(m)) ==> (args@.len() == 0 ==> (r matches Ok(DataType::String(s))
            && s@ == "tmux attach -t "@ + m.name@)),
{
    let session = session_name_from_receiver(receiver, "attach_cmd")?;
    let checked = Args::new("attach_cmd", args);
    if let Err(e) = checked.exact(0) {
        return Err(ExecutionError::from_argument_error(e));
    }
    Ok(DataType::String(cat("tmux attach -t ", session.as_str())))
}

} // verus!
