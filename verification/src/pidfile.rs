//! The file that holds the process id of the running bar.

use vstd::prelude::*;

verus! {

/// Where the pid file is.
#[derive(Debug)]
pub struct Pidfile {
    pub path: String,
}

/// The pid file's place under the runtime directory: `oatbar/oatbar.pid`.
pub open spec fn pidfile_name() -> Seq<char> {
    seq!['o', 'a', 't', 'b', 'a', 'r', '/', 'o', 'a', 't', 'b', 'a', 'r', '.', 'p', 'i', 'd']
}

impl Pidfile {
    /// The pid file in the runtime directory given (the user's runtime,
    /// state or temporary directory).
    pub fn new(base_dir: &str) -> (r: Self)
        ensures
            r.path@ == crate::ipc::path_join(base_dir@, pidfile_name()),
    {
        let name = "oatbar/oatbar.pid";
        proof {
            reveal_strlit("oatbar/oatbar.pid");
            assert(name@ =~= pidfile_name());
        }
        Pidfile { path: crate::ipc::join_path(base_dir, name) }
    }

    /// The process id written in the file's text (`str::parse::<u32>`, no
    /// whitespace allowed).
    pub fn parse(contents: &str) -> (r: Option<u32>)
        ensures
            r == crate::decimal::spec_parse_u32(contents@),
    {
        crate::decimal::parse_u32(contents)
    }
}

} // verus!
