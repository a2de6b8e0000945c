//! Where the control socket lives: in a directory of the manager's own
//! under the user's runtime directory, in a file named by the process id.

use vstd::prelude::*;
use vstd::string::StringExecFns;
use crate::text::{decimal, push_decimal};

verus! {

/// The directory that holds the manager's directory: the runtime directory
/// where the environment names one, the temporary directory where it does not.
pub open spec fn base_dir_of(runtime_dir: Option<Seq<char>>) -> Seq<char> {
    match runtime_dir {
        Some(dir) => dir,
        None => "/tmp"@,
    }
}

/// The name of the socket of the process `pid`.
pub open spec fn socket_name_of(pid: u32) -> Seq<char> {
    "ipc-socket."@ + decimal(pid as nat)
}

/// The directory under which the manager nests its own: `runtime_dir` is
/// the value of the runtime-directory variable, if it could be read.
pub fn base_dir(runtime_dir: Option<String>) -> (dir: String)
    ensures
        dir@ == base_dir_of(
            match runtime_dir {
                Some(given) => Some(given@),
                None => None,
            },
        ),
{
    match runtime_dir {
        Some(dir) => dir,
        None => String::from_str("/tmp"),
    }
}

/// The name of the manager's directory inside the base directory.
pub fn nested_dir() -> (name: &'static str)
    ensures
        name@ == "r3"@,
{
    "r3"
}

/// The file name of the socket of the process `pid`.
pub fn socket_name(pid: u32) -> (name: String)
    ensures
        name@ == socket_name_of(pid),
{
    let mut name = String::from_str("ipc-socket.");
    push_decimal(&mut name, pid as u64);
    name
}

} // verus!
