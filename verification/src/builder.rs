//! The archive builder: drives the trusted ZIP writer over the entries a
//! traversal delivered, exactly as `plan_members` prescribes.  The plan
//! is decided in full before the writer is touched, so the plan's own
//! failures surface exactly, and the writer is only ever handed work it
//! accepts — unless a name repeats or overflows the format's limits.

use vstd::prelude::*;
use crate::entry::EntryKind;
use crate::entry::RawEntry;
use crate::entry::comps_view;
use crate::entry::entries_view;
use crate::plan::BuildConfig;
use crate::plan::MemberView;
use crate::plan::PlanError;
use crate::plan::any_parent_component;
use crate::plan::datas_of;
use crate::plan::is_prefix;
use crate::plan::join_components;
use crate::plan::names_of;
use crate::plan::plan_members;
use crate::plan::tail_components;
use crate::zipio::NAME_BYTES_LIMIT;
use crate::zipio::surely_fits_plain;
use crate::zipio::utf8_len;
use crate::zipio::zip_append_data;
use crate::zipio::zip_archive_encoding;
use crate::zipio::zip_begin_member;
use crate::zipio::zip_entry_datas;
use crate::zipio::zip_entry_large_flags;
use crate::zipio::zip_entry_modes;
use crate::zipio::zip_entry_names;
use crate::zipio::zip_finish;
use crate::zipio::zip_new;

verus! {

/// Why a build failed.
#[derive(Debug)]
pub enum ArchiveError {
    /// An entry's path did not lie under the source directory.
    PathFailure,
    /// The cumulative size cap was passed; the partial output is invalid.
    LimitExceeded,
    /// The archive writer refused an operation.
    FormatFailure(zip::result::ZipError),
}

/// A finished archive: its byte stream and the member names written
/// into it, in order.
pub struct ArchiveOutput {
    pub bytes: Vec<u8>,
    pub member_names: Vec<String>,
}

/// The Unix permission bits stamped on every member, whatever the host.
pub const MEMBER_MODE: u32 = 0o755;

/// No two of these names are the same.
pub open spec fn distinct_names(ns: Seq<Seq<char>>) -> bool {
    forall|a: int, b: int| 0 <= a < b < ns.len() ==> ns[a] != ns[b]
}

/// The writer accepts these members: names pairwise distinct and within
/// the format's name-length field, and — unless ZIP64 extensions are
/// asked for — every content surely within the plain size limit even
/// after worst-case compression.
pub open spec fn writer_accepts(ms: Seq<MemberView>, zip64: bool) -> bool {
    &&& distinct_names(names_of(ms))
    &&& forall|j: int| 0 <= j < ms.len() ==> utf8_len((#[trigger] ms[j]).name) <= NAME_BYTES_LIMIT
    &&& (zip64 || forall|j: int|
        0 <= j < ms.len() ==> surely_fits_plain((#[trigger] ms[j]).data.len()))
}

/// Continue a partial build: the members already written, followed by
/// whatever the remaining entries owe.
pub open spec fn plan_continue(
    done: Seq<MemberView>,
    rest: Result<Seq<MemberView>, PlanError>,
) -> Result<Seq<MemberView>, PlanError> {
    match rest {
        Ok(ms) => Ok(done + ms),
        Err(e) => Err(e),
    }
}

/// Build the archive for `entries`, found under the source directory
/// `root`, into an in-memory byte stream.
///
/// On success the members are exactly those `plan_members` owes, under
/// their `/`-separated relative names, in traversal order, and the bytes
/// are the writer's serialization of exactly those members.  The plan's
/// failures surface as `PathFailure` and `LimitExceeded`, each if and
/// only if the plan fails that way; and where the plan succeeds with
/// members the writer accepts — distinct names within the name-length
/// field, sizes surely within the plain limit unless ZIP64 is on — the
/// build succeeds.
pub fn build_archive(root: &Vec<String>, entries: &Vec<RawEntry>, cfg: &BuildConfig) -> (r: Result<
    ArchiveOutput,
    ArchiveError,
>)
    ensures
        r matches Ok(out) ==> plan_members(comps_view(root@), entries_view(entries@), *cfg, 0)
            matches Ok(ms) && out.member_names@.map_values(|s: String| s@) == names_of(ms)
            && out.bytes@ == zip_archive_encoding(
            names_of(ms),
            datas_of(ms),
            Seq::new(ms.len(), |j: int| cfg.zip64),
            Seq::new(ms.len(), |j: int| MEMBER_MODE),
        ),
        r matches Err(ArchiveError::PathFailure) <==> plan_members(
            comps_view(root@),
            entries_view(entries@),
            *cfg,
            0,
        ) == Err::<Seq<MemberView>, PlanError>(PlanError::PathEscape),
        r matches Err(ArchiveError::LimitExceeded) <==> plan_members(
            comps_view(root@),
            entries_view(entries@),
            *cfg,
            0,
        ) == Err::<Seq<MemberView>, PlanError>(PlanError::OverLimit),
        plan_members(comps_view(root@), entries_view(entries@), *cfg, 0) matches Ok(ms) ==> (
        writer_accepts(ms, cfg.zip64) ==> r is Ok),
        plan_members(comps_view(root@), entries_view(entries@), *cfg, 0) is Err ==> r is Err,
        plan_members(comps_view(root@), entries_view(entries@), *cfg, 0) is Ok ==> (r is Ok || (
        r matches Err(ArchiveError::FormatFailure(_)))),
{
    let ghost rootv = comps_view(root@);
    let ghost ev = entries_view(entries@);
    let mut member_names: Vec<String> = Vec::new();
    let mut picked: Vec<usize> = Vec::new();
    let ghost mut members: Seq<MemberView> = Seq::empty();
    let ghost mut gtotal: nat = 0;
    let mut total: u64 = 0;
    let mut i: usize = 0;
    proof {
        assert(ev.skip(0) =~= ev);
        let p = plan_members(rootv, ev, *cfg, 0);
        if p is Ok {
            assert(members + p->Ok_0 =~= p->Ok_0);
        }
    }
    while i < entries.len()
        invariant
            i <= entries@.len(),
            rootv == comps_view(root@),
            ev == entries_view(entries@),
            plan_members(rootv, ev, *cfg, 0) == plan_continue(
                members,
                plan_members(rootv, ev.skip(i as int), *cfg, gtotal),
            ),
            member_names@.map_values(|s: String| s@) == names_of(members),
            picked@.len() == members.len(),
            forall|q: int|
                0 <= q < picked@.len() ==> (#[trigger] picked@[q]) < entries@.len()
                    && ev[picked@[q] as int].data == members[q].data,
            cfg.max_total_size matches Some(cap) ==> total == gtotal && gtotal <= cap,
        decreases entries@.len() - i,
    {
        proof {
            assert(ev.skip(i as int).len() == ev.len() - i);
            assert(ev.skip(i as int)[0] == ev[i as int]);
            assert(ev.skip(i as int).drop_first() =~= ev.skip(i + 1));
            assert(ev[i as int] == entries@[i as int]@);
        }
        let e = &entries[i];
        let ghost plan_here = plan_members(rootv, ev.skip(i as int), *cfg, gtotal);
        if e.kind == EntryKind::File {
            if !is_prefix(root, &e.path) {
                proof {
                    assert(plan_here == Err::<Seq<MemberView>, PlanError>(PlanError::PathEscape));
                }
                return Err(ArchiveError::PathFailure);
            }
            let rel = tail_components(&e.path, root.len());
            proof {
                assert(comps_view(rel@) == crate::plan::rel_components(rootv, ev[i as int].path));
            }
            let mut accepted = !any_parent_component(&rel);
            let size: u64 = e.data.len() as u64;
            if accepted {
                if let Some(cap) = cfg.max_file_size {
                    if size > cap {
                        accepted = false;
                    }
                }
            }
            if accepted {
                if let Some(cap) = cfg.max_total_size {
                    if size > cap - total {
                        proof {
                            assert(crate::plan::total_cap_exceeded(*cfg, gtotal + size as nat));
                            assert(plan_here == Err::<Seq<MemberView>, PlanError>(
                                PlanError::OverLimit,
                            ));
                        }
                        return Err(ArchiveError::LimitExceeded);
                    }
                    total = total + size;
                }
                let name = join_components(&rel);
                member_names.push(name);
                picked.push(i);
                proof {
                    let m = crate::plan::member_of(rootv, ev[i as int]);
                    let members2 = members.push(m);
                    let gtotal2 = gtotal + size as nat;
                    let rest_r = plan_members(rootv, ev.skip(i + 1), *cfg, gtotal2);
                    assert(plan_here == plan_continue(seq![m], rest_r));
                    if rest_r is Ok {
                        assert(members2 + rest_r->Ok_0 =~= members + (seq![m] + rest_r->Ok_0));
                    }
                    assert(names_of(members2) =~= names_of(members).push(m.name));
                    assert(member_names@.map_values(|s: String| s@) =~= names_of(members2));
                    members = members2;
                    gtotal = gtotal2;
                }
            } else {
                proof {
                    assert(plan_here == plan_members(rootv, ev.skip(i + 1), *cfg, gtotal));
                }
            }
        } else {
            proof {
                assert(ev[i as int].kind != EntryKind::File);
                assert(plan_here == plan_members(rootv, ev.skip(i + 1), *cfg, gtotal));
            }
        }
        i = i + 1;
    }
    proof {
        assert(ev.skip(i as int).len() == 0);
        assert(plan_members(rootv, ev.skip(i as int), *cfg, gtotal) == Ok::<
            Seq<MemberView>,
            PlanError,
        >(Seq::empty()));
        assert(members + Seq::<MemberView>::empty() =~= members);
        assert(plan_members(rootv, ev, *cfg, 0) == Ok::<Seq<MemberView>, PlanError>(members));
    }

    // The plan is settled; now hand exactly these members to the writer.
    let ghost ns = names_of(members);
    let ghost ds = datas_of(members);
    let mut w = zip_new();
    let mut j: usize = 0;
    proof {
        assert(member_names@.len() == names_of(members).len());
        assert(zip_entry_names(w) =~= ns.take(0));
        assert(zip_entry_datas(w) =~= ds.take(0));
        assert(zip_entry_large_flags(w) =~= Seq::new(0, |q: int| cfg.zip64));
        assert(zip_entry_modes(w) =~= Seq::new(0, |q: int| MEMBER_MODE));
    }
    while j < member_names.len()
        invariant
            rootv == comps_view(root@),
            ev == entries_view(entries@),
            plan_members(rootv, ev, *cfg, 0) == Ok::<Seq<MemberView>, PlanError>(members),
            ns == names_of(members),
            ds == datas_of(members),
            member_names@.map_values(|s: String| s@) == ns,
            member_names@.len() == members.len(),
            picked@.len() == members.len(),
            forall|q: int|
                0 <= q < picked@.len() ==> (#[trigger] picked@[q]) < entries@.len()
                    && ev[picked@[q] as int].data == members[q].data,
            j <= members.len(),
            zip_entry_names(w) == ns.take(j as int),
            zip_entry_datas(w) == ds.take(j as int),
            zip_entry_large_flags(w) == Seq::new(j as nat, |q: int| cfg.zip64),
            zip_entry_modes(w) == Seq::new(j as nat, |q: int| MEMBER_MODE),
        decreases members.len() - j,
    {
        proof {
            assert(j < members.len());
            assert(ns[j as int] == members[j as int].name);
            assert(ds[j as int] == members[j as int].data);
            assert(member_names@[j as int]@ == ns[j as int]);
        }
        match zip_begin_member(&mut w, &member_names[j], MEMBER_MODE, cfg.zip64) {
            Ok(()) => (),
            Err(z) => {
                proof {
                    if writer_accepts(members, cfg.zip64) {
                        assert(!ns.take(j as int).contains(ns[j as int])) by {
                            if ns.take(j as int).contains(ns[j as int]) {
                                let q = choose|q: int|
                                    0 <= q < j && ns.take(j as int)[q] == ns[j as int];
                                assert(ns[q] == ns[j as int]);
                                assert(distinct_names(ns));
                            }
                        }
                        assert(utf8_len(members[j as int].name) <= NAME_BYTES_LIMIT);
                        if j > 0 {
                            assert(ds.take(j as int).last() == members[j - 1].data);
                            assert(cfg.zip64 || surely_fits_plain(members[j - 1].data.len()));
                        }
                        assert(false);
                    }
                }
                return Err(ArchiveError::FormatFailure(z));
            },
        }
        let idx = picked[j];
        proof {
            assert(entries@[idx as int]@.data == ds[j as int]);
        }
        match zip_append_data(&mut w, &entries[idx].data) {
            Ok(()) => (),
            Err(z) => {
                proof {
                    if writer_accepts(members, cfg.zip64) {
                        assert(cfg.zip64 || surely_fits_plain(members[j as int].data.len()));
                        assert(false);
                    }
                }
                return Err(ArchiveError::FormatFailure(z));
            },
        }
        j = j + 1;
        proof {
            assert(zip_entry_names(w) =~= ns.take(j as int));
            assert(Seq::<u8>::empty() + ds[j - 1] =~= ds[j - 1]);
            assert(zip_entry_datas(w) =~= ds.take(j as int));
            assert(zip_entry_large_flags(w) =~= Seq::new(j as nat, |q: int| cfg.zip64));
            assert(zip_entry_modes(w) =~= Seq::new(j as nat, |q: int| MEMBER_MODE));
        }
    }
    proof {
        assert(ns.take(members.len() as int) =~= ns);
        assert(ds.take(members.len() as int) =~= ds);
    }
    match zip_finish(w) {
        Ok(bytes) => Ok(ArchiveOutput { bytes, member_names }),
        Err(z) => {
            proof {
                if writer_accepts(members, cfg.zip64) {
                    assert(forall|q: int|
                        0 <= q < zip_entry_datas(w).len() ==> zip_entry_large_flags(w)[q]
                            || surely_fits_plain((#[trigger] zip_entry_datas(w)[q]).len())) by {
                        assert(forall|q: int|
                            0 <= q < ds.len() ==> ds[q] == (#[trigger] members[q]).data);
                    }
                    assert(false);
                }
            }
            Err(ArchiveError::FormatFailure(z))
        },
    }
}

} // verus!
