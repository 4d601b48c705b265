//! Turning the directories that programs name into absolute paths.
use crate::host::Host;
use crate::interpreter::builtin::{CallInfo, ExecutionError};
use crate::text::{cat, cat3, starts_with, str_skip};
use vstd::prelude::*;

verus! {

/// `~/rest` with the home directory `home`: `home/rest`.
pub open spec fn spec_expand_home(directory: Seq<char>, home: Seq<char>) -> Seq<char> {
    home + "/"@ + directory.skip(2)
}

/// The path a directory that begins with `~/` stands for, given the home directory or why
/// it is unknown.
pub fn expand_home(directory: &str, home: Result<String, String>) -> (r: Result<String, ExecutionError>)
    requires
        2 <= directory@.len(),
    ensures
        home matches Ok(h) ==> r matches Ok(p) && p@ == spec_expand_home(directory@, h@),
        home matches Err(e) ==> r matches Err(x) && x.spec_name() == ""@ && x.spec_reason()
            == "Could not resolve home directory: "@ + e@,
{
    match home {
        Ok(h) => {
            let rest = str_skip(directory, 2);
            Ok(cat3(h.as_str(), "/", rest.as_str()))
        },
        Err(e) => Err(ExecutionError::from_string(CallInfo::new(""), cat("Could not resolve home directory: ", e.as_str()))),
    }
}

/// The absolute path of `directory`, given its canonical form or why it has none.
pub fn resolved_directory(directory: &str, canonical: Result<String, String>) -> (r: Result<String, ExecutionError>)
    ensures
        canonical matches Ok(c) ==> r == Ok::<String, ExecutionError>(c),
        canonical matches Err(e) ==> r matches Err(x) && x.spec_name() == ""@ && x.spec_reason()
            == "Directory '"@ + directory@ + "' could not be resolved ("@ + e@ + ")"@,
{
    match canonical {
        Ok(c) => Ok(c),
        Err(e) => {
            let head = cat3("Directory '", directory, "' could not be resolved (");
            let text = cat3(head.as_str(), e.as_str(), ")");
            Err(ExecutionError::from_string(CallInfo::new(""), text))
        },
    }
}

/// `reason` is why `directory` could not be made absolute: the directory could not be
/// resolved, or the home directory it starts from is unknown.
pub open spec fn resolution_error(directory: Seq<char>, reason: Seq<char>) -> bool {
    (exists|why: Seq<char>| reason == "Directory '"@ + directory + "' could not be resolved ("@ + why + ")"@)
        || (exists|why: Seq<char>| reason == "Could not resolve home directory: "@ + why)
}

/// The canonical absolute path of `directory`, with a leading `~/` standing for the home
/// directory. The file system is the host's: the result is whatever it answers.
pub fn get_absolute_path<H: Host>(directory: &str, host: &H) -> (r: Result<String, ExecutionError>)
    ensures
        r matches Err(e) ==> e.spec_name() == ""@ && resolution_error(directory@, e.spec_reason()),
{
    let expanded = if starts_with(directory, "~/") {
        proof {
            reveal_strlit("~/");
        }
        match expand_home(directory, host.home_directory()) {
            Ok(p) => p,
            Err(e) => return Err(e),
        }
    } else {
        directory.to_owned()
    };
    resolved_directory(directory, host.canonicalize(expanded.as_str()))
}

} // verus!
