//! Files read from an application's repository: the `Dockerfile` and the
//! `Procfile`, found under the application's root directory.
pub mod dockerfile_parser;
pub mod procfile;
pub mod strategy;

pub use crate::docker::deployment::dockerfile_parser::{parse_expose, parse_volumes};
pub use crate::docker::deployment::procfile_parser::{parse_procfile_content, Procfile};
pub use strategy::BuildStrategy;

use crate::text::{chars_of, lit, starts_with};
use vstd::prelude::*;
use vstd::string::StringExecFns;

verus! {

/// The repository path of `filename` under `root_dir`, as `Path::join`
/// forms it: the file name alone when the root is empty or the file name is
/// absolute, else the two joined by one `/` (none is added when the root
/// already ends with one).
pub open spec fn repo_file_path_spec(root_dir: Seq<char>, filename: Seq<char>) -> Seq<char> {
    if root_dir.len() == 0 || starts_with(filename, "/"@) {
        filename
    } else if root_dir.last() == '/' {
        root_dir + filename
    } else {
        root_dir + "/"@ + filename
    }
}

/// The path of `filename` under the application's root directory.
pub fn repo_file_path(root_dir: &str, filename: &str) -> (r: String)
    ensures
        r@ == repo_file_path_spec(root_dir@, filename@),
{
    let root = chars_of(root_dir);
    let name = chars_of(filename);
    proof {
        reveal_strlit("/");
        assert("/"@ == seq!['/']);
    }
    if root.len() == 0 {
        return lit(filename);
    }
    if name.len() > 0 && name[0] == '/' {
        assert(name@.subrange(0, 1) == seq!['/']);
        return lit(filename);
    }
    assert(!starts_with(name@, "/"@)) by {
        if starts_with(name@, "/"@) {
            assert(name@.subrange(0, 1)[0] == name@[0]);
        }
    }
    let mut r = lit(root_dir);
    if root[root.len() - 1] != '/' {
        r.append("/");
    }
    r.append(filename);
    r
}

} // verus!
