//! The path planner: given where the source directory sits and what it
//! is called, pick a destination path for the archive that does not
//! collide with an existing file, numbering the candidates on collision.

use vstd::prelude::*;
use vstd::string::StringExecFns;
use crate::names::candidate_file_name;
use crate::names::planned_file_name;
use crate::names::sanitize_filename;
use crate::names::sanitize_spec;

verus! {

/// Relies on `Path::exists`: asks the filesystem whether anything sits
/// at `p`.  Nothing can be promised of the answer; the planner holds
/// for every answer.
#[verifier::external_body]
fn path_exists(p: &String) -> bool {
    std::path::Path::new(p.as_str()).exists()
}

/// The base name the planner derives from the source directory's final
/// component: sanitized, or a fixed fallback where the directory has
/// no final component.
pub open spec fn planned_base(dir_name: Option<&str>) -> Seq<char> {
    match dir_name {
        Some(s) => sanitize_spec(s@),
        None => seq!['a', 'r', 'c', 'h', 'i', 'v', 'e'],
    }
}

/// `{parent}/{file}`.
pub open spec fn path_join(parent: Seq<char>, file: Seq<char>) -> Seq<char> {
    parent + seq!['/'] + file
}

fn join_under(parent: &str, file: &String) -> (r: String)
    ensures
        r@ == path_join(parent@, file@),
{
    proof {
        reveal_strlit("/");
    }
    let r = String::from_str(parent).concat("/").concat(file.as_str());
    assert(r@ =~= path_join(parent@, file@));
    r
}

/// Plan the destination path for the archive of a source directory
/// whose parent is `parent` and whose final component is `dir_name`.
///
/// The result always lies under `parent` and carries a planned file
/// name: the sanitized base with `.zip`, or, past collisions, the
/// sanitized base with a counter.  Which candidate comes back depends
/// on what the filesystem reports; the shape holds for every answer.
pub fn plan_output_path(parent: &str, dir_name: Option<&str>) -> (r: String)
    ensures
        exists|k: nat| r@ == path_join(parent@, planned_file_name(planned_base(dir_name), k)),
{
    let base: String = match dir_name {
        Some(s) => sanitize_filename(s),
        None => {
            proof {
                reveal_strlit("archive");
            }
            let a = String::from_str("archive");
            assert(a@ =~= planned_base(dir_name));
            a
        },
    };
    let mut k: u64 = 0;
    let mut candidate = join_under(parent, &candidate_file_name(base.as_str(), 0));
    while k < u64::MAX && path_exists(&candidate)
        invariant
            base@ == planned_base(dir_name),
            candidate@ == path_join(parent@, planned_file_name(base@, k as nat)),
        decreases u64::MAX - k,
    {
        k = k + 1;
        candidate = join_under(parent, &candidate_file_name(base.as_str(), k));
    }
    assert(candidate@ == path_join(parent@, planned_file_name(planned_base(dir_name), k as nat)));
    candidate
}

} // verus!
