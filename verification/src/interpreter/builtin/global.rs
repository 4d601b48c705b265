//! The global functions `print` and `register_task` (`parallel`, which calls back into the
//! interpreter, stands with it).
use crate::context::{only_effects, Effect, RuntimeContext};
use crate::host::Host;
use crate::interpreter::builtin::ExecutionError;
use crate::interpreter::coerce::Args;
use crate::interpreter::datatype::DataType;
use crate::interpreter::display::{display_value, shown, shows, spec_callable_text, DISPLAY_DEPTH};
use crate::interpreter::store::Store;
use crate::text::spec_bool_text;
use crate::modules::{GitRunner, TmuxRunner};
use vstd::prelude::*;

verus! {

/// The text `value` is written as (see `display_value`).
pub open spec fn printed_as(store: Store, value: DataType, text: Seq<char>) -> bool {
    &&& value matches DataType::String(x) ==> text == "\""@ + x@ + "\""@
    &&& value matches DataType::Boolean(b) ==> text == spec_bool_text(b)
    &&& value matches DataType::Function(c) ==> text == spec_callable_text(c)
    &&& value matches DataType::Module(m) ==> text == "Module '"@ + m.name@ + "'"@
    &&& value is Undefined ==> text == "undefined"@
    &&& shown(store, value, DISPLAY_DEPTH as nat) matches Some(t) ==> text == t
}

/// `after` is `before` and the text of `value`, printed.
pub open spec fn printed(before: Seq<Effect>, after: Seq<Effect>, store: Store, value: DataType) -> bool {
    &&& after.len() == before.len() + 1
    &&& after.drop_last() == before
    &&& after.last() is Printed
    &&& printed_as(store, value, after.last()->Printed_text)
}

/// The host was asked to print `text`.
pub open spec fn handed_to_print<H: Host>(host: &H, text: Seq<char>) -> bool {
    exists|t: &str| t@ == text && #[trigger] call_ensures(H::print, (host, t), ())
}

/// `print(value)`: writes the value's text; `undefined`.
pub fn print<G: GitRunner, T: TmuxRunner, H: Host>(ctx: &mut RuntimeContext<G, T, H>, args: &Vec<DataType>) -> (r: Result<DataType, ExecutionError>)
    requires
        old(ctx).wf(),
    ensures
        only_effects(old(ctx), final(ctx)),
        args@.len() != 1 <==> r is Err,
        r is Err ==> final(ctx).effects@ == old(ctx).effects@,
        r is Ok ==> printed(old(ctx).effects@, final(ctx).effects@, old(ctx).store, args@[0]),
        r is Ok ==> shows(&old(ctx).host, old(ctx).store, args@[0], final(ctx).effects@.last()->Printed_text, DISPLAY_DEPTH as nat),
        r is Ok ==> handed_to_print(&old(ctx).host, final(ctx).effects@.last()->Printed_text),
        r matches Ok(v) ==> v is Undefined,
{
    let checked = Args::new("print", args);
    if let Err(e) = checked.exact(1) {
        return Err(ExecutionError::from_argument_error(e));
    }
    let value = match checked.any(0) {
        Ok(v) => v,
        Err(e) => return Err(ExecutionError::from_argument_error(e)),
    };
    let text = display_value(&ctx.store, &ctx.host, &value, DISPLAY_DEPTH);
    let written = text.as_str();
    ctx.host.print(written);
    proof {
        assert(call_ensures(H::print, (&old(ctx).host, written), ()));
        assert(handed_to_print(&old(ctx).host, text@));
        ctx.effects@ = ctx.effects@.push(Effect::Printed { text: text@ });
        assert(ctx.effects@.drop_last() =~= old(ctx).effects@);
    }
    Ok(DataType::Undefined)
}

/// `register_task(name, function)`: registers the function as the task `name`;
/// `undefined`.
pub fn register_task<G: GitRunner, T: TmuxRunner, H: Host>(ctx: &mut RuntimeContext<G, T, H>, args: &Vec<DataType>) -> (r: Result<DataType, ExecutionError>)
    requires
        old(ctx).wf(),
    ensures
        final(ctx).wf(),
        final(ctx).store == old(ctx).store,
        final(ctx).steps == old(ctx).steps,
        final(ctx).cwd == old(ctx).cwd,
        final(ctx).runs == old(ctx).runs,
        final(ctx).effects == old(ctx).effects,
        args@.len() != 2 ==> r is Err,
        r is Err ==> final(ctx).task_registry == old(ctx).task_registry,
        r matches Ok(v) ==> v is Undefined,
        (args@.len() == 2 && (args@[0] is String || args@[0] is Number || args@[0] is Boolean)
            && args@[1] is Function) <==> r is Ok,
        args@.len() == 2 ==> (args@[0] matches DataType::String(name) ==> (args@[1] matches DataType::Function(c)
            ==> final(ctx).task_registry.view() == old(ctx).task_registry.view().insert(name@, c))),
{
    let checked = Args::new("register_task", args);
    if let Err(e) = checked.exact(2) {
        return Err(ExecutionError::from_argument_error(e));
    }
    let name = match checked.string(0, &ctx.host) {
        Ok(n) => n,
        Err(e) => return Err(ExecutionError::from_argument_error(e)),
    };
    let task = match checked.callable(1) {
        Ok(c) => c,
        Err(e) => return Err(ExecutionError::from_argument_error(e)),
    };
    ctx.task_registry.register(name, task, &ctx.host);
    Ok(DataType::Undefined)
}

} // verus!
