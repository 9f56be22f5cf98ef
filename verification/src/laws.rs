//! The general laws of the builder's plan, stated and proved once: what
//! the member names look like, that only regular files contribute, that
//! without caps every regular file is delivered, and what the size caps
//! admit.

use vstd::prelude::*;
use crate::entry::EntryKind;
use crate::entry::EntryView;
use crate::plan::BuildConfig;
use crate::plan::MemberView;
use crate::plan::PlanError;
use crate::plan::file_cap_excludes;
use crate::plan::has_parent_segment;
use crate::plan::is_prefix_of;
use crate::plan::join_slash;
use crate::plan::member_of;
use crate::plan::parent_seg;
use crate::plan::plan_members;
use crate::plan::rel_components;

verus! {

broadcast use vstd::seq_lib::group_seq_properties;

/// The `/`-separated segments of a member name: reading the name from
/// the front, `/` closes a segment.  The empty name has one empty
/// segment, so that `split_slash` inverts `join_slash`.
pub open spec fn split_slash(s: Seq<char>) -> Seq<Seq<char>>
    decreases s.len(),
{
    if s.len() == 0 {
        seq![Seq::empty()]
    } else if s.last() == '/' {
        split_slash(s.drop_last()).push(Seq::empty())
    } else {
        let r = split_slash(s.drop_last());
        r.update(r.len() - 1, r.last().push(s.last()))
    }
}

/// No character of `c` is a separator.
pub open spec fn slash_free(c: Seq<char>) -> bool {
    forall|i: int| 0 <= i < c.len() ==> c[i] != '/'
}

/// Every component of every entry path is free of separators, as paths
/// a filesystem traversal delivers are.
pub open spec fn wf_entry_paths(entries: Seq<EntryView>) -> bool {
    forall|i: int, k: int|
        0 <= i < entries.len() && 0 <= k < entries[i].path.len() ==> slash_free(
            #[trigger] entries[i].path[k],
        )
}

proof fn lemma_split_len(s: Seq<char>)
    ensures
        split_slash(s).len() >= 1,
    decreases s.len(),
{
    if s.len() > 0 {
        lemma_split_len(s.drop_last());
    }
}

proof fn lemma_split_slash_free(t: Seq<char>)
    requires
        slash_free(t),
    ensures
        split_slash(t) == seq![t],
    decreases t.len(),
{
    if t.len() == 0 {
        assert(split_slash(t) =~~= seq![t]);
    } else {
        assert(slash_free(t.drop_last()));
        lemma_split_slash_free(t.drop_last());
        let r = split_slash(t.drop_last());
        assert(r == seq![t.drop_last()]);
        assert(r.update(r.len() - 1, r.last().push(t.last())) =~= seq![t.drop_last().push(
            t.last(),
        )]);
        assert(t.drop_last().push(t.last()) =~= t);
    }
}

proof fn lemma_split_append(s: Seq<char>, t: Seq<char>)
    requires
        slash_free(t),
    ensures
        split_slash(s + seq!['/'] + t) == split_slash(s).push(t),
    decreases t.len(),
{
    lemma_split_len(s);
    if t.len() == 0 {
        assert((s + seq!['/'] + t) =~= s + seq!['/']);
        assert((s + seq!['/']).last() == '/');
        assert((s + seq!['/']).drop_last() =~= s);
    } else {
        let u = s + seq!['/'] + t;
        assert(u.last() == t.last());
        assert(t.last() != '/');
        assert(slash_free(t.drop_last()));
        lemma_split_append(s, t.drop_last());
        assert(u.drop_last() =~= s + seq!['/'] + t.drop_last());
        let r = split_slash(u.drop_last());
        assert(r == split_slash(s).push(t.drop_last()));
        assert(r.last() == t.drop_last());
        assert(r.update(r.len() - 1, r.last().push(u.last())) =~= split_slash(s).push(
            t.drop_last().push(t.last()),
        ));
        assert(t.drop_last().push(t.last()) =~= t);
    }
}

/// Splitting a join gives the components back: `/`-separator joining of
/// separator-free components loses nothing.
pub proof fn lemma_split_join(comps: Seq<Seq<char>>)
    requires
        comps.len() > 0,
        forall|i: int| 0 <= i < comps.len() ==> slash_free(#[trigger] comps[i]),
    ensures
        split_slash(join_slash(comps)) == comps,
    decreases comps.len(),
{
    if comps.len() == 1 {
        lemma_split_slash_free(comps[0]);
        assert(split_slash(join_slash(comps)) =~= comps);
    } else {
        assert(forall|i: int|
            0 <= i < comps.drop_last().len() ==> slash_free(#[trigger] comps.drop_last()[i]));
        lemma_split_join(comps.drop_last());
        lemma_split_append(join_slash(comps.drop_last()), comps.last());
        assert(comps.drop_last().push(comps.last()) =~= comps);
    }
}

/// No segment of `n`, read back by splitting on `/`, names the parent
/// directory.
pub open spec fn no_parent_name(n: Seq<char>) -> bool {
    forall|q: int| 0 <= q < split_slash(n).len() ==> split_slash(n)[q] != parent_seg()
}

/// Every member name the plan owes is a `/`-separated path without a
/// parent-directory segment, whatever the host separator was.
pub proof fn lemma_member_names_safe(
    root: Seq<Seq<char>>,
    entries: Seq<EntryView>,
    cfg: BuildConfig,
    total: nat,
)
    requires
        wf_entry_paths(entries),
    ensures
        plan_members(root, entries, cfg, total) matches Ok(ms) ==> forall|j: int|
            0 <= j < ms.len() ==> no_parent_name(#[trigger] ms[j].name),
    decreases entries.len(),
{
    if entries.len() == 0 {
        return ;
    }
    let e = entries[0];
    let rest = entries.drop_first();
    assert(wf_entry_paths(rest)) by {
        assert(forall|i: int, k: int|
            0 <= i < rest.len() && 0 <= k < rest[i].path.len() ==> slash_free(
                #[trigger] rest[i].path[k],
            )) by {
            assert(forall|i: int| 0 <= i < rest.len() ==> rest[i] == entries[i + 1]);
        }
    }
    lemma_member_names_safe(root, rest, cfg, total);
    if e.kind == EntryKind::File && is_prefix_of(root, e.path) && !has_parent_segment(
        rel_components(root, e.path),
    ) && !file_cap_excludes(cfg, e.data.len()) && !crate::plan::total_cap_exceeded(
        cfg,
        total + e.data.len(),
    ) {
        lemma_member_names_safe(root, rest, cfg, total + e.data.len());
        let m = member_of(root, e);
        let rel = rel_components(root, e.path);
        assert(no_parent_name(m.name)) by {
            if rel.len() == 0 {
                assert(m.name =~= Seq::<char>::empty());
                assert(split_slash(m.name) =~= seq![Seq::<char>::empty()]);
                assert(parent_seg().len() == 2);
            } else {
                assert(forall|i: int| 0 <= i < rel.len() ==> slash_free(#[trigger] rel[i])) by {
                    assert(forall|i: int|
                        0 <= i < rel.len() ==> rel[i] == entries[0].path[root.len() + i]);
                }
                lemma_split_join(rel);
            }
        }
        match plan_members(root, rest, cfg, total + e.data.len()) {
            Ok(ms_rest) => {
                let ms = seq![m] + ms_rest;
                assert(plan_members(root, entries, cfg, total) == Ok::<_, PlanError>(ms));
                assert(forall|j: int| 0 <= j < ms.len() ==> no_parent_name(#[trigger] ms[j].name))
                    by {
                    assert(forall|j: int| 1 <= j < ms.len() ==> ms[j] == ms_rest[j - 1]);
                }
            },
            Err(_) => {},
        }
    }
}

/// The entries of `entries` that are regular files, in order.
pub open spec fn files_only(entries: Seq<EntryView>) -> Seq<EntryView>
    decreases entries.len(),
{
    if entries.len() == 0 {
        Seq::empty()
    } else if entries[0].kind == EntryKind::File {
        seq![entries[0]] + files_only(entries.drop_first())
    } else {
        files_only(entries.drop_first())
    }
}

/// Entries that are not regular files never influence the plan: the
/// plan of a traversal equals the plan of its regular files alone.
/// Symbolic links, directories and devices contribute nothing.
pub proof fn lemma_plan_ignores_non_files(
    root: Seq<Seq<char>>,
    entries: Seq<EntryView>,
    cfg: BuildConfig,
    total: nat,
)
    ensures
        plan_members(root, entries, cfg, total) == plan_members(
            root,
            files_only(entries),
            cfg,
            total,
        ),
    decreases entries.len(),
{
    if entries.len() == 0 {
    } else {
        let e = entries[0];
        let rest = entries.drop_first();
        if e.kind == EntryKind::File {
            let f = files_only(entries);
            assert(f == seq![e] + files_only(rest));
            assert(f.len() >= 1 && f[0] == e);
            assert(f.drop_first() =~= files_only(rest));
            if is_prefix_of(root, e.path) && !has_parent_segment(rel_components(root, e.path))
                && !file_cap_excludes(cfg, e.data.len()) && !crate::plan::total_cap_exceeded(
                cfg,
                total + e.data.len(),
            ) {
                lemma_plan_ignores_non_files(root, rest, cfg, total + e.data.len());
            } else {
                lemma_plan_ignores_non_files(root, rest, cfg, total);
            }
        } else {
            lemma_plan_ignores_non_files(root, rest, cfg, total);
        }
    }
}

/// With no size caps, the plan never aborts on a budget, and delivers
/// exactly one member per regular file that lies under the source
/// directory without a parent-directory segment — in traversal order,
/// each carrying the file's relative name and exact content.
pub proof fn lemma_plan_unlimited(
    root: Seq<Seq<char>>,
    entries: Seq<EntryView>,
    cfg: BuildConfig,
    total: nat,
)
    requires
        cfg.max_file_size is None,
        cfg.max_total_size is None,
        forall|i: int|
            0 <= i < entries.len() && (#[trigger] entries[i].kind) == EntryKind::File
                ==> is_prefix_of(root, entries[i].path) && !has_parent_segment(
                rel_components(root, entries[i].path),
            ),
    ensures
        plan_members(root, entries, cfg, total) matches Ok(ms) && ms == files_only(
            entries,
        ).map_values(|e: EntryView| member_of(root, e)),
    decreases entries.len(),
{
    let fm = files_only(entries).map_values(|e: EntryView| member_of(root, e));
    if entries.len() == 0 {
        assert(fm =~= Seq::<MemberView>::empty());
    } else {
        let e = entries[0];
        let rest = entries.drop_first();
        assert(forall|i: int|
            0 <= i < rest.len() && (#[trigger] rest[i].kind) == EntryKind::File ==> is_prefix_of(
                root,
                rest[i].path,
            ) && !has_parent_segment(rel_components(root, rest[i].path))) by {
            assert(forall|i: int| 0 <= i < rest.len() ==> rest[i] == entries[i + 1]);
        }
        if e.kind == EntryKind::File {
            lemma_plan_unlimited(root, rest, cfg, total + e.data.len());
            let ms_rest = plan_members(root, rest, cfg, total + e.data.len())->Ok_0;
            assert(plan_members(root, entries, cfg, total) == Ok::<_, PlanError>(
                seq![member_of(root, e)] + ms_rest,
            ));
            assert(files_only(entries) == seq![e] + files_only(rest));
            assert(fm =~= seq![member_of(root, e)] + files_only(rest).map_values(
                |x: EntryView| member_of(root, x),
            ));
        } else {
            lemma_plan_unlimited(root, rest, cfg, total);
            assert(files_only(entries) =~= files_only(rest));
        }
    }
}

/// The sizes of a member sequence, summed.
pub open spec fn sum_sizes(ms: Seq<MemberView>) -> nat
    decreases ms.len(),
{
    if ms.len() == 0 {
        0
    } else {
        ms[0].data.len() + sum_sizes(ms.drop_first())
    }
}

/// What the size caps admit: no delivered member is over the per-file
/// cap, and under a cumulative cap the previous total plus every
/// delivered byte stays within the budget — otherwise the plan would
/// have aborted instead.
pub proof fn lemma_plan_within_caps(
    root: Seq<Seq<char>>,
    entries: Seq<EntryView>,
    cfg: BuildConfig,
    total: nat,
)
    ensures
        plan_members(root, entries, cfg, total) matches Ok(ms) ==> (forall|j: int|
            0 <= j < ms.len() ==> !file_cap_excludes(cfg, (#[trigger] ms[j]).data.len())),
        plan_members(root, entries, cfg, total) matches Ok(ms) ==> (cfg.max_total_size matches Some(
            cap,
        ) ==> (total <= cap ==> total + sum_sizes(ms) <= cap)),
    decreases entries.len(),
{
    if entries.len() == 0 {
        return ;
    }
    let e = entries[0];
    let rest = entries.drop_first();
    lemma_plan_within_caps(root, rest, cfg, total);
    if e.kind == EntryKind::File && is_prefix_of(root, e.path) && !has_parent_segment(
        rel_components(root, e.path),
    ) && !file_cap_excludes(cfg, e.data.len()) && !crate::plan::total_cap_exceeded(
        cfg,
        total + e.data.len(),
    ) {
        lemma_plan_within_caps(root, rest, cfg, total + e.data.len());
        match plan_members(root, rest, cfg, total + e.data.len()) {
            Ok(ms_rest) => {
                let m = member_of(root, e);
                let ms = seq![m] + ms_rest;
                assert(plan_members(root, entries, cfg, total) == Ok::<_, PlanError>(ms));
                assert(ms.drop_first() =~= ms_rest);
                assert(ms[0] == m);
                assert(m.data == e.data);
                assert(sum_sizes(ms) == e.data.len() + sum_sizes(ms_rest));
                assert(forall|j: int| 1 <= j < ms.len() ==> ms[j] == ms_rest[j - 1]);
            },
            Err(_) => {},
        }
    }
}

} // verus!
