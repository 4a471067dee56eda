use vstd::prelude::*;

use crate::path::{join_path, spec_join};

verus! {

/// The name of this project, under which its files are kept.
pub open spec fn project_name() -> Seq<char> {
    "caf"@
}

/// The home directory used when none is given.
pub open spec fn default_home() -> Seq<char> {
    "/home"@
}

/// The root directory of the package store under `home` (or under `/home`
/// where no home is given): `{home}/caf/.caf`.
pub open spec fn root_dir_path(home: Option<Seq<char>>) -> Seq<char> {
    spec_join(
        match home {
            Some(h) => h,
            None => default_home(),
        },
        "caf/.caf"@,
    )
}

/// The path of the file `filename` in this project's directory under the
/// temporary directory `tmp`: `{tmp}/caf/{filename}`.
pub open spec fn tmp_path(tmp: Seq<char>, filename: Seq<char>) -> Seq<char> {
    spec_join(spec_join(tmp, project_name()), filename)
}

/// The root directory of the package store under `home`, or under `/home`
/// where no home is given.
pub fn get_root_dir_path(home: Option<String>) -> (p: String)
    ensures
        p@ == root_dir_path(
            match home {
                Some(h) => Some(h@),
                None => None,
            },
        ),
{
    match home {
        Some(h) => join_path(h.as_str(), "caf/.caf"),
        None => join_path("/home", "caf/.caf"),
    }
}

/// The path of the file `filename` in this project's directory under the
/// temporary directory `temp_dir`.
pub fn get_tmp_path(temp_dir: &str, filename: &str) -> (p: String)
    ensures
        p@ == tmp_path(temp_dir@, filename@),
{
    let dir = join_path(temp_dir, "caf");
    join_path(dir.as_str(), filename)
}

/// The name of the file whose exclusive lock keeps a second instance from running.
pub open spec fn lock_file_name() -> Seq<char> {
    "caf.lock"@
}

/// The path of the lock file under the temporary directory `temp_dir`.
pub fn lock_file_path(temp_dir: &str) -> (p: String)
    ensures
        p@ == tmp_path(temp_dir@, lock_file_name()),
{
    get_tmp_path(temp_dir, "caf.lock")
}

} // verus!
