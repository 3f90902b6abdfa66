//! Where the launcher keeps its own files below its base directory.

use vstd::prelude::*;
use vstd::string::StringExecFns;

verus! {

/// File name of the saved launcher state.
pub open spec fn saved_state_name() -> Seq<char> {
    "airshipper_state.ron"@
}

/// File name of the log.
pub open spec fn log_name() -> Seq<char> {
    "airshipper.log"@
}

/// Path of the file that saves the launcher's state, below `base`.
pub fn savedstate_file(base: &str) -> (r: String)
    ensures
        r@ == base@ + "/"@ + saved_state_name(),
{
    String::from_str(base).concat("/").concat("airshipper_state.ron")
}

/// Path of the log file, below `base`.
pub fn log_file(base: &str) -> (r: String)
    ensures
        r@ == base@ + "/"@ + log_name(),
{
    String::from_str(base).concat("/").concat("airshipper.log")
}

/// The log's directory and file name.
pub fn log_path_file(base: &str) -> (r: (String, String))
    ensures
        r.0@ == base@,
        r.1@ == log_name(),
{
    (String::from_str(base), String::from_str("airshipper.log"))
}

} // verus!
