//! The `git` module: branches, worktrees and synchronisation of the repository in the
//! working directory, through the context's `git` runner.
use crate::context::{only_effects, Effect, RuntimeContext};
use crate::entries::Entries;
use crate::fs::get_absolute_path;
use crate::host::Host;
use crate::interpreter::builtin::{CallInfo, ExecutionError};
use crate::interpreter::coerce::Args;
use crate::interpreter::datatype::DataType;
use crate::interpreter::dictionary::DictionaryDeclaration;
use crate::modules::{git_module, GitError, GitRunner, Module, TmuxRunner};
use crate::text::{spec_bool_text, cat, spec_trim, split_pieces, split_str, str_eq, string_views, trim_str};
use vstd::prelude::*;

verus! {

/// A worktree line as `git worktree list` prints it: the directory, a commit, and the
/// branch in brackets.
pub const WORKTREE_PATTERN: &'static str = r"^(\S+)\s+\S+\s+\[([^\]]+)\]";

/// The first and second capture groups of the first match of the regular expression
/// `pattern` in `text`: `None` where the pattern is invalid, does not match, or a group
/// takes no part in the match.
pub uninterp spec fn regex_two_groups(pattern: Seq<char>, text: Seq<char>) -> Option<(Seq<char>, Seq<char>)>;

/// `regex::Regex::new(pattern)` followed by `captures(text)`: the text of groups 1 and 2
/// of the first match. The contract claims only that the answer is a function of the
/// pattern and the text, named `regex_two_groups`.
#[verifier::external_body]
fn regex_captures(pattern: &str, text: &str) -> (r: Option<(String, String)>)
    ensures
        match r {
            Some((a, b)) => regex_two_groups(pattern@, text@) == Some((a@, b@)),
            None => regex_two_groups(pattern@, text@) is None,
        },
{
    let caps = regex::Regex::new(pattern).ok()?.captures(text)?;
    Some((caps.get(1)?.as_str().to_string(), caps.get(2)?.as_str().to_string()))
}

pub struct WorktreeInfo {
    pub branch: String,
    pub directory: String,
}

/// The worktree that the capture groups of a worktree line describe.
pub fn worktree_from_captures(line: &str, captures: Option<(String, String)>) -> (r: Result<WorktreeInfo, ExecutionError>)
    ensures
        captures matches Some((d, b)) ==> r matches Ok(w) && w.directory == d && w.branch == b,
        captures is None ==> (r matches Err(e) && e.spec_name() == "parse_worktree_line"@
            && e.spec_reason() == "Worktree line was not valid: "@ + line@),
{
    match captures {
        Some((directory, branch)) => Ok(WorktreeInfo { directory, branch }),
        None => Err(ExecutionError::from_string(CallInfo::new("parse_worktree_line"), cat("Worktree line was not valid: ", line))),
    }
}

/// The directory and branch of a line of `git worktree list`.
pub fn parse_worktree_line(line: &str) -> (r: Result<WorktreeInfo, ExecutionError>)
    ensures
        regex_two_groups(WORKTREE_PATTERN@, line@) matches Some((d, b)) ==> r matches Ok(w)
            && w.directory@ == d && w.branch@ == b,
        regex_two_groups(WORKTREE_PATTERN@, line@) is None ==> (r matches Err(e) && e.spec_name()
            == "parse_worktree_line"@ && e.spec_reason() == "Worktree line was not valid: "@ + line@),
{
    worktree_from_captures(line, regex_captures(WORKTREE_PATTERN, line))
}

/// The arguments of the `git` command behind a module function that takes none.
pub open spec fn spec_git_arguments(name: Seq<char>) -> Seq<Seq<char>> {
    if name == "current_branch"@ {
        seq!["rev-parse"@, "--abbrev-ref"@, "HEAD"@]
    } else if name == "local_branches"@ {
        seq!["for-each-ref"@, "--format=%(refname:short)"@, "refs/heads/"@]
    } else if name == "remote_branches"@ {
        seq!["branch"@, "--remote"@]
    } else if name == "worktrees"@ {
        seq!["worktree"@, "list"@]
    } else if name == "rebase"@ {
        seq!["rebase"@, "origin/master"@]
    } else if name == "fetch"@ {
        seq!["fetch"@]
    } else if name == "prune"@ {
        seq!["gc"@]
    } else if name == "pull"@ {
        seq!["pull"@]
    } else {
        Seq::empty()
    }
}

fn strings(words: &[&str]) -> (r: Vec<String>)
    ensures
        r@.len() == words@.len(),
        forall|i: int| 0 <= i < words@.len() ==> #[trigger] r@[i]@ == words@[i]@,
{
    let mut r: Vec<String> = Vec::new();
    let mut i: usize = 0;
    while i < words.len()
        invariant
            i <= words.len(),
            r@.len() == i,
            forall|k: int| 0 <= k < i ==> #[trigger] r@[k]@ == words@[k]@,
        decreases words.len() - i,
    {
        r.push(words[i].to_owned());
        i = i + 1;
    }
    r
}

/// The arguments of the `git` command behind the module function `name`, which takes none.
pub fn git_arguments(name: &str) -> (r: Vec<String>)
    ensures
        string_views(r@) == spec_git_arguments(name@),
{
    let r = if str_eq(name, "current_branch") {
        strings(&["rev-parse", "--abbrev-ref", "HEAD"])
    } else if str_eq(name, "local_branches") {
        strings(&["for-each-ref", "--format=%(refname:short)", "refs/heads/"])
    } else if str_eq(name, "remote_branches") {
        strings(&["branch", "--remote"])
    } else if str_eq(name, "worktrees") {
        strings(&["worktree", "list"])
    } else if str_eq(name, "rebase") {
        strings(&["rebase", "origin/master"])
    } else if str_eq(name, "fetch") {
        strings(&["fetch"])
    } else if str_eq(name, "prune") {
        strings(&["gc"])
    } else if str_eq(name, "pull") {
        strings(&["pull"])
    } else {
        Vec::new()
    };
    assert(string_views(r@) =~= spec_git_arguments(name@));
    r
}

/// `branch -D <branch>`.
pub fn delete_branch_arguments(branch: &str) -> (r: Vec<String>)
    ensures
        string_views(r@) == seq!["branch"@, "-D"@, branch@],
{
    let r = strings(&["branch", "-D", branch]);
    assert(string_views(r@) =~= seq!["branch"@, "-D"@, branch@]);
    r
}

/// `push [--force-with-lease] origin <branch>`.
pub open spec fn spec_push_arguments(force: bool, branch: Seq<char>) -> Seq<Seq<char>> {
    if force {
        seq!["push"@, "--force-with-lease"@, "origin"@, branch]
    } else {
        seq!["push"@, "origin"@, branch]
    }
}

pub fn push_arguments(force: bool, branch: &str) -> (r: Vec<String>)
    ensures
        string_views(r@) == spec_push_arguments(force, branch@),
{
    let r = if force {
        strings(&["push", "--force-with-lease", "origin", branch])
    } else {
        strings(&["push", "origin", branch])
    };
    assert(string_views(r@) =~= spec_push_arguments(force, branch@));
    r
}

/// The output of a command, if it succeeded.
pub open spec fn answer_of<E>(r: Result<String, E>) -> Option<Seq<char>> {
    match r {
        Ok(s) => Some(s@),
        Err(_) => None,
    }
}

/// Runs `git` with `args` in `cwd`, and records the command and its answer in `effects`.
fn run_git<G: GitRunner>(runner: &G, args: &Vec<String>, cwd: &str, effects: &mut Ghost<Seq<Effect>>) -> (r: Result<String, GitError>)
    ensures
        final(effects)@ == old(effects)@.push(Effect::Git { args: string_views(args@), cwd: cwd@, output: answer_of(r) }),
{
    let mut refs: Vec<&str> = Vec::new();
    let mut i: usize = 0;
    while i < args.len()
        invariant
            i <= args.len(),
        decreases args.len() - i,
    {
        refs.push(args[i].as_str());
        i = i + 1;
    }
    let r = runner.run(refs.as_slice(), cwd);
    proof {
        effects@ = effects@.push(Effect::Git { args: string_views(args@), cwd: cwd@, output: answer_of(r) });
    }
    r
}

/// The non-empty pieces, trimmed.
pub open spec fn spec_branch_names(pieces: Seq<Seq<char>>) -> Seq<Seq<char>>
    decreases pieces.len(),
{
    if pieces.len() == 0 {
        Seq::empty()
    } else {
        let rest = spec_branch_names(pieces.drop_last());
        if pieces.last().len() == 0 {
            rest
        } else {
            rest.push(spec_trim(pieces.last()))
        }
    }
}

/// The non-empty pieces.
pub open spec fn spec_non_empty(pieces: Seq<Seq<char>>) -> Seq<Seq<char>>
    decreases pieces.len(),
{
    if pieces.len() == 0 {
        Seq::empty()
    } else {
        let rest = spec_non_empty(pieces.drop_last());
        if pieces.last().len() == 0 {
            rest
        } else {
            rest.push(pieces.last())
        }
    }
}

/// The branch names in the output of a branch listing: its non-empty lines, trimmed.
pub fn branch_names(output: &str) -> (r: Vec<String>)
    ensures
        string_views(r@) == spec_branch_names(split_pieces(output@, '\n')),
{
    let lines = split_str(output, '\n');
    let ghost pieces = split_pieces(output@, '\n');
    let mut r: Vec<String> = Vec::new();
    let mut i: usize = 0;
    while i < lines.len()
        invariant
            i <= lines.len(),
            string_views(lines@) == pieces,
            string_views(r@) == spec_branch_names(pieces.take(i as int)),
        decreases lines.len() - i,
    {
        proof {
            assert(pieces.take(i + 1).drop_last() == pieces.take(i as int));
            assert(pieces[i as int] == lines@[i as int]@);
        }
        if lines[i].as_str().unicode_len() != 0 {
            let ghost before = r@;
            r.push(trim_str(lines[i].as_str()));
            proof {
                assert(string_views(r@) =~= string_views(before).push(spec_trim(lines@[i as int]@)));
            }
        }
        i = i + 1;
    }
    proof {
        assert(pieces.take(lines@.len() as int) == pieces);
    }
    r
}

/// The non-empty lines of an output.
pub fn non_empty_lines(output: &str) -> (r: Vec<String>)
    ensures
        string_views(r@) == spec_non_empty(split_pieces(output@, '\n')),
{
    let lines = split_str(output, '\n');
    let ghost pieces = split_pieces(output@, '\n');
    let mut r: Vec<String> = Vec::new();
    let mut i: usize = 0;
    while i < lines.len()
        invariant
            i <= lines.len(),
            string_views(lines@) == pieces,
            string_views(r@) == spec_non_empty(pieces.take(i as int)),
        decreases lines.len() - i,
    {
        proof {
            assert(pieces.take(i + 1).drop_last() == pieces.take(i as int));
            assert(pieces[i as int] == lines@[i as int]@);
        }
        if lines[i].as_str().unicode_len() != 0 {
            let ghost before = r@;
            r.push(lines[i].clone());
            proof {
                assert(string_views(r@) =~= string_views(before).push(lines@[i as int]@));
            }
        }
        i = i + 1;
    }
    proof {
        assert(pieces.take(lines@.len() as int) == pieces);
    }
    r
}

/// Strings as values of the language.
pub fn string_values(v: Vec<String>) -> (r: Vec<DataType>)
    ensures
        r@.len() == v@.len(),
        forall|i: int| 0 <= i < v@.len() ==> #[trigger] r@[i] == DataType::String(v@[i]),
{
    let mut r: Vec<DataType> = Vec::new();
    let mut i: usize = 0;
    while i < v.len()
        invariant
            i <= v.len(),
            r@.len() == i,
            forall|k: int| 0 <= k < i ==> #[trigger] r@[k] == DataType::String(v@[k]),
        decreases v.len() - i,
    {
        r.push(DataType::String(v[i].clone()));
        i = i + 1;
    }
    r
}

/// `values` are the strings `texts`, in order.
pub open spec fn is_string_list(values: Seq<DataType>, texts: Seq<Seq<char>>) -> bool {
    &&& values.len() == texts.len()
    &&& forall|i: int| 0 <= i < values.len() ==> (#[trigger] values[i] matches DataType::String(t) && t@ == texts[i])
}

/// The dictionary `{directory: .., branch: ..}` of a worktree.
pub fn worktree_dictionary(info: WorktreeInfo) -> (d: DictionaryDeclaration)
    ensures
        d.wf(),
        d.view() == Map::<Seq<char>, DataType>::empty().insert("directory"@, DataType::String(info.directory)).insert(
            "branch"@,
            DataType::String(info.branch),
        ),
{
    let mut entries: Entries<DataType> = Entries::new();
    entries.insert("directory".to_owned(), DataType::String(info.directory));
    entries.insert("branch".to_owned(), DataType::String(info.branch));
    DictionaryDeclaration::new(entries)
}

/// The context after a module function that changes nothing but adds values to the store.
pub open spec fn adds_values_only<G, T, H>(before: &RuntimeContext<G, T, H>, after: &RuntimeContext<G, T, H>) -> bool {
    &&& after.store.wf()
    &&& after.task_registry == before.task_registry
    &&& after.module_registry == before.module_registry
    &&& after.cwd == before.cwd
    &&& after.steps == before.steps
    &&& after.store.scope_seq() == before.store.scope_seq()
    &&& after.store.function_seq() == before.store.function_seq()
    &&& before.store.list_seq().is_prefix_of(after.store.list_seq())
    &&& before.store.dict_seq().is_prefix_of(after.store.dict_seq())
    &&& after.runs == before.runs
    &&& before.effects@.is_prefix_of(after.effects@)
}

/// The `git` module.
pub fn create_git_module() -> (m: Module)
    ensures
        m.name@ == "git"@,
        m.kind == crate::modules::ModuleKind::Git,
{
    git_module()
}

/// `git.in_directory(dir)`: works in `dir` from now on; the `git` module.
pub fn in_directory<G: GitRunner, T: TmuxRunner, H: Host>(ctx: &mut RuntimeContext<G, T, H>, args: &Vec<DataType>) -> (r: Result<DataType, ExecutionError>)
    requires
        old(ctx).wf(),
    ensures
        final(ctx).wf(),
        final(ctx).store == old(ctx).store,
        final(ctx).steps == old(ctx).steps,
        final(ctx).task_registry == old(ctx).task_registry,
        final(ctx).runs == old(ctx).runs,
        final(ctx).effects == old(ctx).effects,
        args@.len() != 1 ==> r is Err && only_effects(old(ctx), final(ctx)),
        r is Err ==> final(ctx).cwd == old(ctx).cwd,
        r matches Ok(v) ==> v matches DataType::Module(m) && m.name@ == "git"@ && m.kind == crate::modules::ModuleKind::Git,
{
    let args = Args::new("in_directory", args);
    if let Err(e) = args.exact(1) {
        return Err(ExecutionError::from_argument_error(e));
    }
    let directory = match args.string(0, &ctx.host) {
        Ok(d) => d,
        Err(e) => return Err(ExecutionError::from_argument_error(e)),
    };
    let path = get_absolute_path(directory.as_str(), &ctx.host)?;
    ctx.cwd = path;
    Ok(DataType::Module(git_module()))
}

/// `after` is `before` and one more `git` command, run with `args` in `cwd`.
pub open spec fn ran_git(before: Seq<Effect>, after: Seq<Effect>, args: Seq<Seq<char>>, cwd: Seq<char>) -> bool {
    &&& after.len() == before.len() + 1
    &&& after.drop_last() == before
    &&& after.last() is Git
    &&& after.last()->Git_args == args
    &&& after.last()->Git_cwd == cwd
}

/// Runs the `git` command of a module function that takes no arguments; its output.
fn run_simple<G: GitRunner, T: TmuxRunner, H: Host>(ctx: &mut RuntimeContext<G, T, H>, name: &str, args: &Vec<DataType>) -> (r: Result<String, ExecutionError>)
    ensures
        only_effects(old(ctx), final(ctx)),
        args@.len() != 0 ==> r is Err && final(ctx).effects@ == old(ctx).effects@,
        args@.len() == 0 ==> final(ctx).effects@ == old(ctx).effects@.push(
            Effect::Git { args: spec_git_arguments(name@), cwd: old(ctx).cwd@, output: answer_of(r) },
        ),
        args@.len() == 0 ==> final(ctx).effects@.drop_last() == old(ctx).effects@,
{
    let checked = Args::new(name, args);
    if let Err(e) = checked.exact(0) {
        return Err(ExecutionError::from_argument_error(e));
    }
    let r = run_git(&ctx.git_runner, &git_arguments(name), ctx.cwd.as_str(), &mut ctx.effects);
    assert(ctx.effects@.drop_last() =~= old(ctx).effects@);
    match r {
        Ok(out) => Ok(out),
        Err(e) => Err(ExecutionError::from_git_error(e)),
    }
}

/// The current branch: the trimmed output of `rev-parse --abbrev-ref HEAD`.
fn branch_of_head<G: GitRunner, T: TmuxRunner, H: Host>(ctx: &mut RuntimeContext<G, T, H>) -> (r: Result<String, ExecutionError>)
    ensures
        only_effects(old(ctx), final(ctx)),
        ran_git(old(ctx).effects@, final(ctx).effects@, spec_git_arguments("current_branch"@), old(ctx).cwd@),
        final(ctx).effects@.last()->Git_output is None <==> r is Err,
        final(ctx).effects@.last()->Git_output matches Some(o) ==> (r matches Ok(b) && b@ == spec_trim(o)),
{
    let none: Vec<DataType> = Vec::new();
    let out = run_simple(ctx, "current_branch", &none)?;
    Ok(trim_str(out.as_str()))
}

/// `git.current_branch()`: the name of the branch checked out.
pub fn current_branch<G: GitRunner, T: TmuxRunner, H: Host>(ctx: &mut RuntimeContext<G, T, H>, args: &Vec<DataType>) -> (r: Result<DataType, ExecutionError>)
    requires
        old(ctx).wf(),
    ensures
        only_effects(old(ctx), final(ctx)),
        args@.len() != 0 ==> r is Err && final(ctx).effects@ == old(ctx).effects@,
        args@.len() == 0 ==> ran_git(old(ctx).effects@, final(ctx).effects@, spec_git_arguments("current_branch"@), old(ctx).cwd@),
        args@.len() == 0 ==> (final(ctx).effects@.last()->Git_output is None <==> r is Err),
        args@.len() == 0 ==> (final(ctx).effects@.last()->Git_output matches Some(o) ==> (r matches Ok(v)
            && v matches DataType::String(b) && b@ == spec_trim(o))),
{
    let checked = Args::new("current_branch", args);
    if let Err(e) = checked.exact(0) {
        return Err(ExecutionError::from_argument_error(e));
    }
    let branch = branch_of_head(ctx)?;
    Ok(DataType::String(branch))
}

/// A module function that runs its command for the effect: `rebase`, `fetch`, `prune`,
/// `pull`; `undefined`.
pub fn run_for_effect<G: GitRunner, T: TmuxRunner, H: Host>(ctx: &mut RuntimeContext<G, T, H>, name: &str, args: &Vec<DataType>) -> (r: Result<DataType, ExecutionError>)
    requires
        old(ctx).wf(),
    ensures
        only_effects(old(ctx), final(ctx)),
        args@.len() != 0 ==> r is Err && final(ctx).effects@ == old(ctx).effects@,
        args@.len() == 0 ==> ran_git(old(ctx).effects@, final(ctx).effects@, spec_git_arguments(name@), old(ctx).cwd@),
        args@.len() == 0 ==> (final(ctx).effects@.last()->Git_output is Some <==> r is Ok),
        r matches Ok(v) ==> v is Undefined,
{
    run_simple(ctx, name, args)?;
    Ok(DataType::Undefined)
}

/// `git.local_branches()` / `git.remote_branches()`: the branch names as a list.
pub fn list_branches<G: GitRunner, T: TmuxRunner, H: Host>(ctx: &mut RuntimeContext<G, T, H>, name: &str, args: &Vec<DataType>) -> (r: Result<DataType, ExecutionError>)
    requires
        old(ctx).wf(),
    ensures
        final(ctx).wf(),
        adds_values_only(old(ctx), final(ctx)),
        args@.len() != 0 ==> r is Err && final(ctx).effects@ == old(ctx).effects@,
        args@.len() == 0 ==> ran_git(old(ctx).effects@, final(ctx).effects@, spec_git_arguments(name@), old(ctx).cwd@),
        args@.len() == 0 ==> (final(ctx).effects@.last()->Git_output is Some <==> r is Ok),
        r is Err ==> only_effects(old(ctx), final(ctx)),
        r matches Ok(v) ==> v matches DataType::List(l) && l.index == old(ctx).store.list_seq().len()
            && final(ctx).store.list_seq().len() == l.index + 1
            && (final(ctx).effects@.last()->Git_output matches Some(o)
            && is_string_list(final(ctx).store.list_seq()[l.index as int].values@, spec_branch_names(split_pieces(o, '\n')))),
{
    let out = run_simple(ctx, name, args)?;
    let values = string_values(branch_names(out.as_str()));
    let list = ctx.store.new_list(values);
    proof {
        assert(old(ctx).store.list_seq().is_prefix_of(ctx.store.list_seq()));
    }
    Ok(DataType::List(list))
}

/// Every line is a worktree line (see `WORKTREE_PATTERN`).
pub open spec fn all_worktree_lines(lines: Seq<Seq<char>>) -> bool {
    forall|k: int| 0 <= k < lines.len() ==> #[trigger] regex_two_groups(WORKTREE_PATTERN@, lines[k]) is Some
}

/// `entry` is the dictionary `{directory, branch}` of a worktree.
pub open spec fn worktree_entry(entry: Map<Seq<char>, DataType>, directory: Seq<char>, branch: Seq<char>) -> bool {
    &&& entry.dom() == set!["directory"@, "branch"@]
    &&& entry["directory"@] matches DataType::String(d) && d@ == directory
    &&& entry["branch"@] matches DataType::String(b) && b@ == branch
}

/// `values` are the dictionaries, among `dicts`, of the worktrees of the lines `lines`, in
/// order.
pub open spec fn worktree_values(values: Seq<DataType>, dicts: Seq<DictionaryDeclaration>, lines: Seq<Seq<char>>) -> bool {
    &&& values.len() == lines.len()
    &&& forall|k: int| 0 <= k < values.len() ==> (#[trigger] values[k] matches DataType::Dictionary(d)
        && d.index < dicts.len() && (regex_two_groups(WORKTREE_PATTERN@, lines[k]) matches Some((directory, branch))
        && worktree_entry(dicts[d.index as int].view(), directory, branch)))
}

/// `git.worktrees()`: a list of `{directory, branch}` dictionaries, one for each line of
/// `git worktree list`.
pub fn worktrees<G: GitRunner, T: TmuxRunner, H: Host>(ctx: &mut RuntimeContext<G, T, H>, args: &Vec<DataType>) -> (r: Result<DataType, ExecutionError>)
    requires
        old(ctx).wf(),
    ensures
        final(ctx).wf(),
        adds_values_only(old(ctx), final(ctx)),
        args@.len() != 0 ==> r is Err && final(ctx).effects@ == old(ctx).effects@,
        args@.len() == 0 ==> ran_git(old(ctx).effects@, final(ctx).effects@, spec_git_arguments("worktrees"@), old(ctx).cwd@),
        args@.len() == 0 ==> (final(ctx).effects@.last()->Git_output is None ==> r is Err),
        args@.len() == 0 ==> (final(ctx).effects@.last()->Git_output matches Some(o) ==> (
            (r is Ok <==> all_worktree_lines(spec_non_empty(split_pieces(o, '\n'))))
            && (r matches Ok(DataType::List(l)) ==> (l.index < final(ctx).store.list_seq().len()
                && worktree_values(final(ctx).store.list_seq()[l.index as int].values@, final(ctx).store.dict_seq(),
                spec_non_empty(split_pieces(o, '\n'))))))),
        r is Err ==> only_effects(old(ctx), final(ctx)),
        r matches Ok(v) ==> v is List,
{
    let out = run_simple(ctx, "worktrees", args)?;
    let ghost after_query = ctx.effects@;
    assert(after_query.drop_last() =~= old(ctx).effects@);
    let lines = non_empty_lines(out.as_str());
    let ghost texts = string_views(lines@);
    let mut infos: Vec<WorktreeInfo> = Vec::new();
    let mut i: usize = 0;
    while i < lines.len()
        invariant
            i <= lines.len(),
            only_effects(old(ctx), ctx),
            ctx.effects@ == after_query,
            args@.len() == 0,
            ran_git(old(ctx).effects@, after_query, spec_git_arguments("worktrees"@), old(ctx).cwd@),
            ctx.wf(),
            texts == string_views(lines@),
            texts == spec_non_empty(split_pieces(out@, '\n')),
            after_query.last()->Git_output == Some(out@),
            infos@.len() == i,
            forall|k: int| 0 <= k < i ==> regex_two_groups(WORKTREE_PATTERN@, #[trigger] texts[k]) == Some(
                (infos@[k].directory@, infos@[k].branch@),
            ),
        decreases lines.len() - i,
    {
        let info = match parse_worktree_line(lines[i].as_str()) {
            Ok(w) => w,
            Err(e) => {
                assert(regex_two_groups(WORKTREE_PATTERN@, texts[i as int]) is None);
                return Err(e);
            },
        };
        infos.push(info);
        i = i + 1;
    }
    let ghost collected = infos@;
    let mut values: Vec<DataType> = Vec::new();
    while infos.len() > 0
        invariant
            ctx.wf(),
            adds_values_only(old(ctx), ctx),
            ctx.effects@ == after_query,
            values@.len() + infos@.len() == collected.len(),
            infos@ == collected.subrange(values@.len() as int, collected.len() as int),
            forall|k: int| 0 <= k < values@.len() ==> (#[trigger] values@[k] matches DataType::Dictionary(d)
                && d.index < ctx.store.dict_seq().len() && worktree_entry(ctx.store.dict_seq()[d.index as int].view(),
                collected[k].directory@, collected[k].branch@)),
        decreases infos.len(),
    {
        let ghost j = values@.len() as int;
        let ghost values_before = values@;
        let ghost dicts_before = ctx.store.dict_seq();
        let info = infos.remove(0);
        assert(infos@ =~= collected.subrange(j + 1, collected.len() as int));
        assert(info == collected[j]);
        let dict = worktree_dictionary(info);
        assert(dict.view().dom() =~= set!["directory"@, "branch"@]);
        let d = ctx.store.new_dictionary(dict);
        values.push(DataType::Dictionary(d));
        proof {
            assert(old(ctx).store.dict_seq().is_prefix_of(ctx.store.dict_seq()));
            assert forall|k: int| 0 <= k < values@.len() implies (#[trigger] values@[k] matches DataType::Dictionary(x)
                && x.index < ctx.store.dict_seq().len() && worktree_entry(ctx.store.dict_seq()[x.index as int].view(),
                collected[k].directory@, collected[k].branch@)) by {
                if k < j {
                    assert(values@[k] == values_before[k]);
                    let x = values_before[k]->Dictionary_0;
                    assert(ctx.store.dict_seq()[x.index as int] == dicts_before[x.index as int]);
                } else {
                    reveal_strlit("directory");
                    reveal_strlit("branch");
                    assert("directory"@.len() != "branch"@.len());
                }
            }
        }
    }
    let list = ctx.store.new_list(values);
    proof {
        assert(old(ctx).store.list_seq().is_prefix_of(ctx.store.list_seq()));
        assert(texts == spec_non_empty(split_pieces(out@, '\n')));
        assert(all_worktree_lines(texts));
    }
    Ok(DataType::List(list))
}

/// `git.delete_branch(name)`.
pub fn delete_branch<G: GitRunner, T: TmuxRunner, H: Host>(ctx: &mut RuntimeContext<G, T, H>, args: &Vec<DataType>) -> (r: Result<DataType, ExecutionError>)
    requires
        old(ctx).wf(),
    ensures
        only_effects(old(ctx), final(ctx)),
        args@.len() != 1 ==> r is Err,
        r matches Ok(v) ==> v is Undefined,
{
    let args = Args::new("delete_branch", args);
    if let Err(e) = args.exact(1) {
        return Err(ExecutionError::from_argument_error(e));
    }
    let branch = match args.string(0, &ctx.host) {
        Ok(b) => b,
        Err(e) => return Err(ExecutionError::from_argument_error(e)),
    };
    match run_git(&ctx.git_runner, &delete_branch_arguments(branch.as_str()), ctx.cwd.as_str(), &mut ctx.effects) {
        Ok(_) => Ok(DataType::Undefined),
        Err(e) => Err(ExecutionError::from_git_error(e)),
    }
}

/// Whether the optional argument of `push` asks for a forced push: `--force` does, no
/// argument does not, anything else is refused.
pub fn push_force(flag: Option<String>) -> (r: Result<bool, ExecutionError>)
    ensures
        flag is None ==> r == Ok::<bool, ExecutionError>(false),
        flag matches Some(f) ==> (f@ == "--force"@ ==> r == Ok::<bool, ExecutionError>(true)),
        flag matches Some(f) ==> (f@ != "--force"@ ==> (r matches Err(e) && e.spec_reason()
            == "Invalid arg supplied to git push. Expected --force, found: "@ + f@)),
{
    match flag {
        None => Ok(false),
        Some(arg) => {
            if str_eq(arg.as_str(), "--force") {
                Ok(true)
            } else {
                Err(ExecutionError::from_string(CallInfo::new(""), cat("Invalid arg supplied to git push. Expected --force, found: ", arg.as_str())))
            }
        },
    }
}

/// `after` is `before` and the commands of a push: the query for the current branch in
/// `cwd`, and, where it answered, the push of the branch it named, trimmed, forced or not;
/// `succeeded` where both commands did.
pub open spec fn pushed(before: Seq<Effect>, after: Seq<Effect>, force: bool, cwd: Seq<char>, succeeded: bool) -> bool {
    let query = after.subrange(0, before.len() + 1int);
    &&& after.len() > before.len()
    &&& ran_git(before, query, spec_git_arguments("current_branch"@), cwd)
    &&& match query.last()->Git_output {
        None => after.len() == before.len() + 1 && !succeeded,
        Some(o) => ran_git(query, after, spec_push_arguments(force, spec_trim(o)), cwd)
            && (after.last()->Git_output is Some <==> succeeded),
    }
}

/// `git.push()` / `git.push("--force")`: pushes the current branch to `origin`, with
/// `--force-with-lease` when asked to force.
pub fn push<G: GitRunner, T: TmuxRunner, H: Host>(ctx: &mut RuntimeContext<G, T, H>, args: &Vec<DataType>) -> (r: Result<DataType, ExecutionError>)
    requires
        old(ctx).wf(),
    ensures
        only_effects(old(ctx), final(ctx)),
        args@.len() > 1 ==> r is Err && final(ctx).effects@ == old(ctx).effects@,
        args@.len() == 0 ==> pushed(old(ctx).effects@, final(ctx).effects@, false, old(ctx).cwd@, r is Ok),
        args@.len() == 1 ==> match args@[0] {
            DataType::String(f) => if f@ == "--force"@ {
                pushed(old(ctx).effects@, final(ctx).effects@, true, old(ctx).cwd@, r is Ok)
            } else {
                final(ctx).effects@ == old(ctx).effects@ && (r matches Err(e) && e.spec_reason()
                    == "Invalid arg supplied to git push. Expected --force, found: "@ + f@)
            },
            DataType::Boolean(b) => final(ctx).effects@ == old(ctx).effects@ && (r matches Err(e)
                && e.spec_reason() == "Invalid arg supplied to git push. Expected --force, found: "@ + spec_bool_text(b)),
            DataType::Number(_) => true,
            _ => r is Err && final(ctx).effects@ == old(ctx).effects@,
        },
        r matches Ok(v) ==> v is Undefined,
{
    let args = Args::new("push", args);
    if let Err(e) = args.range(0, 1) {
        return Err(ExecutionError::from_argument_error(e));
    }
    let flag = match args.optional_string(0, &ctx.host) {
        Ok(f) => f,
        Err(e) => return Err(ExecutionError::from_argument_error(e)),
    };
    proof {
        reveal_strlit("--force");
        reveal_strlit("true");
        reveal_strlit("false");
        assert(spec_bool_text(true).len() != "--force"@.len());
        assert(spec_bool_text(false).len() != "--force"@.len());
    }
    let force = push_force(flag)?;
    let branch = match branch_of_head(ctx) {
        Ok(b) => b,
        Err(e) => {
            assert(ctx.effects@.subrange(0, old(ctx).effects@.len() + 1int) =~= ctx.effects@);
            assert(pushed(old(ctx).effects@, ctx.effects@, force, old(ctx).cwd@, false));
            return Err(e);
        },
    };
    let ghost query = ctx.effects@;
    let r = run_git(&ctx.git_runner, &push_arguments(force, branch.as_str()), ctx.cwd.as_str(), &mut ctx.effects);
    assert(ctx.effects@.subrange(0, old(ctx).effects@.len() + 1int) =~= query);
    assert(ctx.effects@.drop_last() =~= query);
    match r {
        Ok(_) => Ok(DataType::Undefined),
        Err(e) => Err(ExecutionError::from_git_error(e)),
    }
}

} // verus!
