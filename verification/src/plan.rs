//! The builder's decision rules: which entries of a traversal become
//! archive members, under which names, and when a size budget stops the
//! build.  `plan_members` is the specification the executable builder is
//! proved against.

use vstd::prelude::*;
use vstd::string::StrSliceExecFns;
use vstd::string::StringExecFns;
use crate::entry::EntryKind;
use crate::entry::EntryView;
use crate::entry::comps_view;

verus! {

/// The builder's configuration: one builder serves both the unlimited
/// ZIP64-aware variant and the size-capped variant.
#[derive(Clone, Copy, Debug)]
pub struct BuildConfig {
    /// Ask the archive writer for ZIP64 structures on every member.
    pub zip64: bool,
    /// A regular file larger than this is skipped, not archived.
    pub max_file_size: Option<u64>,
    /// Once the sizes of the archived files pass this, the build aborts.
    pub max_total_size: Option<u64>,
}

/// Why a build cannot deliver an archive, before the archive writer is
/// even consulted.
#[derive(Clone, Copy, Debug, PartialEq, Eq, Structural)]
pub enum PlanError {
    /// An entry's path does not lie under the source directory.
    PathEscape,
    /// The cumulative size cap was passed.
    OverLimit,
}

/// One archive member: its `/`-separated name and its content.
#[verifier::ext_equal]
pub ghost struct MemberView {
    pub name: Seq<char>,
    pub data: Seq<u8>,
}

/// The component sequence `..`, a parent-directory segment.
pub open spec fn parent_seg() -> Seq<char> {
    seq!['.', '.']
}

pub open spec fn is_prefix_of(root: Seq<Seq<char>>, path: Seq<Seq<char>>) -> bool {
    root.len() <= path.len() && path.take(root.len() as int) == root
}

/// An entry's path relative to the source directory.
pub open spec fn rel_components(root: Seq<Seq<char>>, path: Seq<Seq<char>>) -> Seq<Seq<char>> {
    path.skip(root.len() as int)
}

pub open spec fn has_parent_segment(comps: Seq<Seq<char>>) -> bool {
    exists|i: int| 0 <= i < comps.len() && comps[i] == parent_seg()
}

/// Relative components joined with `/`, the archive member name,
/// whatever the host platform's separator is.
pub open spec fn join_slash(comps: Seq<Seq<char>>) -> Seq<char>
    decreases comps.len(),
{
    if comps.len() == 0 {
        Seq::empty()
    } else if comps.len() == 1 {
        comps[0]
    } else {
        join_slash(comps.drop_last()) + seq!['/'] + comps.last()
    }
}

pub open spec fn member_of(root: Seq<Seq<char>>, e: EntryView) -> MemberView {
    MemberView { name: join_slash(rel_components(root, e.path)), data: e.data }
}

/// Does the per-file cap exclude a file of `size` bytes?
pub open spec fn file_cap_excludes(cfg: BuildConfig, size: nat) -> bool {
    match cfg.max_file_size {
        Some(cap) => size > cap,
        None => false,
    }
}

/// Is a cumulative total of `total` bytes over the budget?
pub open spec fn total_cap_exceeded(cfg: BuildConfig, total: nat) -> bool {
    match cfg.max_total_size {
        Some(cap) => total > cap,
        None => false,
    }
}

/// The archive members owed for `entries`, given `total` bytes already
/// accounted for: regular files under the source directory whose
/// relative path holds no parent-directory segment and whose size the
/// per-file cap admits, in traversal order.  A file outside the source
/// directory fails the build; passing the cumulative cap aborts it.
pub open spec fn plan_members(
    root: Seq<Seq<char>>,
    entries: Seq<EntryView>,
    cfg: BuildConfig,
    total: nat,
) -> Result<Seq<MemberView>, PlanError>
    decreases entries.len(),
{
    if entries.len() == 0 {
        Ok(Seq::empty())
    } else {
        let e = entries[0];
        let rest = entries.drop_first();
        if e.kind != EntryKind::File {
            plan_members(root, rest, cfg, total)
        } else if !is_prefix_of(root, e.path) {
            Err(PlanError::PathEscape)
        } else if has_parent_segment(rel_components(root, e.path)) {
            plan_members(root, rest, cfg, total)
        } else if file_cap_excludes(cfg, e.data.len()) {
            plan_members(root, rest, cfg, total)
        } else if total_cap_exceeded(cfg, total + e.data.len()) {
            Err(PlanError::OverLimit)
        } else {
            match plan_members(root, rest, cfg, total + e.data.len()) {
                Ok(ms) => Ok(seq![member_of(root, e)] + ms),
                Err(err) => Err(err),
            }
        }
    }
}

pub open spec fn names_of(ms: Seq<MemberView>) -> Seq<Seq<char>> {
    ms.map_values(|m: MemberView| m.name)
}

pub open spec fn datas_of(ms: Seq<MemberView>) -> Seq<Seq<u8>> {
    ms.map_values(|m: MemberView| m.data)
}

/// Is `s` exactly the parent-directory segment `..`?
pub fn is_parent_component(s: &String) -> (b: bool)
    ensures
        b == (s@ == parent_seg()),
{
    let st = s.as_str();
    let b = st.unicode_len() == 2 && st.get_char(0) == '.' && st.get_char(1) == '.';
    proof {
        if b {
            assert(s@ =~= parent_seg());
        }
        if s@ == parent_seg() {
            assert(s@.len() == 2);
            assert(s@[0] == '.' && s@[1] == '.');
        }
    }
    b
}

/// Does some component of `comps` name the parent directory?
pub fn any_parent_component(comps: &Vec<String>) -> (b: bool)
    ensures
        b == has_parent_segment(comps_view(comps@)),
{
    let mut i: usize = 0;
    while i < comps.len()
        invariant
            i <= comps@.len(),
            !has_parent_segment(comps_view(comps@).take(i as int)),
        decreases comps@.len() - i,
    {
        if is_parent_component(&comps[i]) {
            assert(comps_view(comps@)[i as int] == parent_seg());
            return true;
        }
        i = i + 1;
        assert forall|j: int| 0 <= j < i implies comps_view(comps@).take(i as int)[j]
            != parent_seg() by {
            if j < i - 1 {
                assert(comps_view(comps@).take(i - 1)[j] != parent_seg());
            }
        }
    }
    assert(comps_view(comps@).take(comps@.len() as int) =~= comps_view(comps@));
    false
}

/// Is `root` a prefix of `path`, component by component?
pub fn is_prefix(root: &Vec<String>, path: &Vec<String>) -> (b: bool)
    ensures
        b == is_prefix_of(comps_view(root@), comps_view(path@)),
{
    if path.len() < root.len() {
        assert(!is_prefix_of(comps_view(root@), comps_view(path@)));
        return false;
    }
    let mut i: usize = 0;
    while i < root.len()
        invariant
            i <= root@.len() <= path@.len(),
            forall|j: int| 0 <= j < i ==> comps_view(path@)[j] == comps_view(root@)[j],
        decreases root@.len() - i,
    {
        if !root[i].eq(&path[i]) {
            assert(comps_view(path@)[i as int] != comps_view(root@)[i as int]);
            assert(!is_prefix_of(comps_view(root@), comps_view(path@))) by {
                if is_prefix_of(comps_view(root@), comps_view(path@)) {
                    assert(comps_view(path@).take(root@.len() as int)[i as int]
                        == comps_view(root@)[i as int]);
                }
            }
            return false;
        }
        i = i + 1;
    }
    assert(comps_view(path@).take(root@.len() as int) =~= comps_view(root@));
    true
}

/// The components of `path` past the first `n`, cloned.
pub fn tail_components(path: &Vec<String>, n: usize) -> (r: Vec<String>)
    requires
        n <= path@.len(),
    ensures
        comps_view(r@) == comps_view(path@).skip(n as int),
{
    let mut r: Vec<String> = Vec::new();
    let mut i: usize = n;
    while i < path.len()
        invariant
            n <= i <= path@.len(),
            r@.len() == i - n,
            forall|j: int| 0 <= j < r@.len() ==> r@[j]@ == path@[n + j]@,
        decreases path@.len() - i,
    {
        let c = path[i].clone();
        r.push(c);
        i = i + 1;
    }
    assert(comps_view(r@) =~~= comps_view(path@).skip(n as int));
    r
}

/// Join components with `/` into the archive member name.
pub fn join_components(comps: &Vec<String>) -> (s: String)
    ensures
        s@ == join_slash(comps_view(comps@)),
{
    proof {
        reveal_strlit("/");
    }
    let mut s = String::new();
    let mut i: usize = 0;
    while i < comps.len()
        invariant
            i <= comps@.len(),
            s@ == join_slash(comps_view(comps@).take(i as int)),
        decreases comps@.len() - i,
    {
        proof {
            reveal_strlit("/");
        }
        if i > 0 {
            s.append("/");
        }
        s.append(comps[i].as_str());
        i = i + 1;
        proof {
            let cv = comps_view(comps@);
            assert(cv.take(i as int).drop_last() =~= cv.take(i - 1));
            assert(cv.take(i as int).last() == cv[i - 1]);
            if i > 1 {
                assert(s@ == join_slash(cv.take(i - 1)) + seq!['/'] + cv[i - 1]);
            } else {
                assert(s@ =~= cv[0]);
            }
        }
    }
    assert(comps_view(comps@).take(comps@.len() as int) =~= comps_view(comps@));
    s
}

} // verus!
