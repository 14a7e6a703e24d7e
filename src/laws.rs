//! Properties that relate the engine's functions across calls.
use vstd::prelude::*;
use crate::listing::render_lines;
use crate::plan::{apply_record_deletions, apply_writes, deregister_spec, record_spec, removal_spec, OnFailure, StepKind};
use crate::registry::{desc_ext, join3, list_ext, prefix_matches, Layout};

verus! {

/// The obsolete files of an upgrade are exactly the paths that the installed
/// manifest lists and the candidate manifest does not.
pub proof fn law_obsolete_is_difference(old: Seq<Seq<char>>, new: Seq<Seq<char>>, p: Seq<char>)
    ensures
        old.filter(|q: Seq<char>| !new.contains(q)).contains(p) <==> (old.contains(p) && !new.contains(p)),
{
    let keep = |q: Seq<char>| !new.contains(q);
    if old.filter(keep).contains(p) {
        let k = choose|k: int| 0 <= k < old.filter(keep).len() && old.filter(keep)[k] == p;
        old.lemma_filter_pred(keep, k);
        old.lemma_filter_contains_rev(keep, p);
    }
    if old.contains(p) && !new.contains(p) {
        let k = choose|k: int| 0 <= k < old.len() && old[k] == p;
        old.lemma_filter_contains(keep, k);
    }
}

/// Removal deletes files before directories: the file step of the manifest
/// path at position `a` comes before every directory step, and directory
/// steps go through the manifest backwards, so a path listed after its
/// parent is tried before that parent.
pub proof fn law_removal_order(l: Layout, name: Seq<char>, m: Seq<Seq<char>>, a: int, b: int)
    requires
        0 <= a < m.len(),
        0 <= b < m.len(),
    ensures
        removal_spec(l, name, m)[a] == (StepKind::RemoveFile, l.root@ + m[a], OnFailure::Warn),
        removal_spec(l, name, m)[2 * m.len() - 1 - b] == (StepKind::RemoveDirIfEmpty, l.root@ + m[b], OnFailure::Ignore),
        a < 2 * m.len() - 1 - b,
        a < b ==> 2 * m.len() - 1 - b < 2 * m.len() - 1 - a,
        removal_spec(l, name, m).len() == 2 * m.len() + 2,
{
    let n = m.len() as int;
    let s = removal_spec(l, name, m);
    assert(s[a] == (StepKind::RemoveFile, l.root@ + m[a], OnFailure::Warn));
    assert(m[n - 1 - (n - 1 - b)] == m[b]);
    assert(s[2 * n - 1 - b] == (StepKind::RemoveDirIfEmpty, l.root@ + m[b], OnFailure::Ignore));
}

/// Deregistering the previous name of an upgraded package never deletes a
/// record of the new name, whenever the two names differ.
pub proof fn law_deregister_spares_new_record(l: Layout, old_name: Seq<char>, new_name: Seq<char>, k: int, j: int)
    requires
        old_name != new_name,
        0 <= k < 2,
        0 <= j < 2,
    ensures
        deregister_spec(l, old_name)[k].1 != deregister_spec(l, new_name)[j].1,
{
    let a = deregister_spec(l, old_name)[k].1;
    let b = deregister_spec(l, new_name)[j].1;
    if a == b {
        let dk = if k == 0 { l.list_dir@ } else { l.desc_dir@ };
        let dj = if j == 0 { l.list_dir@ } else { l.desc_dir@ };
        if k == j {
            let ext = if k == 0 { list_ext() } else { desc_ext() };
            assert(a == dk + old_name + ext);
            assert(b == dk + new_name + ext);
            assert(a.len() == dk.len() + old_name.len() + ext.len());
            assert(b.len() == dk.len() + new_name.len() + ext.len());
            assert(old_name.len() == new_name.len());
            assert(old_name =~= new_name) by {
                assert forall|i: int| 0 <= i < old_name.len() implies old_name[i] == new_name[i] by {
                    assert(a[dk.len() + i] == old_name[i]);
                    assert(b[dk.len() + i] == new_name[i]);
                }
            }
        } else {
            // the two records of one name differ in their extension's second character
            let e = a.len() - 4;
            assert(a[e] != b[e]);
        }
    }
}

/// Two registered records whose names both start with the package name
/// make the lookup of that package ambiguous.
pub proof fn law_two_matches_are_ambiguous(names: Seq<Seq<char>>, pkgname: Seq<char>, i: int, j: int)
    requires
        0 <= i < j < names.len(),
        pkgname.is_prefix_of(names[i]),
        pkgname.is_prefix_of(names[j]),
    ensures
        prefix_matches(names, pkgname).len() > 1,
{
    let sel = |n: Seq<char>| pkgname.is_prefix_of(n);
    assert(names.take(i + 1) =~= names.take(i).push(names[i]));
    assert(names.take(j + 1) =~= names.take(j).push(names[j]));
    names.take(i).lemma_filter_len_push(sel, names[i]);
    names.take(j).lemma_filter_len_push(sel, names[j]);
    assert(names.take(j).take(i + 1) =~= names.take(i + 1));
    names.take(j).lemma_filter_take_len(sel, i + 1);
    names.lemma_filter_take_len(sel, j + 1);
}

/// The two record files of one name are distinct files.
pub proof fn lemma_record_halves_distinct(l: Layout, name: Seq<char>)
    ensures
        join3(l.list_dir@, name, list_ext()) != join3(l.desc_dir@, name, desc_ext()),
{
    let a = join3(l.list_dir@, name, list_ext());
    let b = join3(l.desc_dir@, name, desc_ext());
    if a == b {
        let e = a.len() - 4;
        assert(a[e] != b[e]);
    }
}

/// After an upgrade from the package registered as `old_name` to `new_name`,
/// where the registry held only the old package's records, the registry
/// holds exactly the new package's records: its description text and the
/// record text of its manifest.
pub proof fn law_upgrade_leaves_only_new_record(
    l: Layout,
    files: Map<Seq<char>, Seq<char>>,
    old_name: Seq<char>,
    new_name: Seq<char>,
    desc_text: Seq<char>,
    m: Seq<Seq<char>>,
)
    requires
        old_name != new_name,
        files.dom() == set![
            join3(l.list_dir@, old_name, list_ext()),
            join3(l.desc_dir@, old_name, desc_ext()),
        ],
    ensures
        apply_record_deletions(apply_writes(files, record_spec(l, new_name, desc_text, m)), deregister_spec(l, old_name))
            == map![
                join3(l.list_dir@, new_name, list_ext()) => render_lines(m),
                join3(l.desc_dir@, new_name, desc_ext()) => desc_text,
            ],
{
    let w = record_spec(l, new_name, desc_text, m);
    let d = deregister_spec(l, old_name);
    let lo = join3(l.list_dir@, old_name, list_ext());
    let dsc_o = join3(l.desc_dir@, old_name, desc_ext());
    let ln = join3(l.list_dir@, new_name, list_ext());
    let dsc_n = join3(l.desc_dir@, new_name, desc_ext());
    lemma_record_halves_distinct(l, new_name);
    lemma_record_halves_distinct(l, old_name);
    law_deregister_spares_new_record(l, old_name, new_name, 0, 0);
    law_deregister_spares_new_record(l, old_name, new_name, 0, 1);
    law_deregister_spares_new_record(l, old_name, new_name, 1, 0);
    law_deregister_spares_new_record(l, old_name, new_name, 1, 1);
    assert(w.drop_last().drop_last() =~= Seq::<(Seq<char>, Seq<char>)>::empty());
    assert(w.drop_last() =~= seq![(ln, render_lines(m))]);
    let after_w = files.insert(ln, render_lines(m)).insert(dsc_n, desc_text);
    assert(apply_writes(files, w.drop_last().drop_last()) == files);
    assert(w.drop_last().last() == (ln, render_lines(m)));
    assert(apply_writes(files, w.drop_last()) == files.insert(ln, render_lines(m)));
    assert(apply_writes(files, w) == after_w);
    assert(d.drop_last().drop_last() =~= Seq::<(StepKind, Seq<char>, OnFailure)>::empty());
    assert(d.drop_last() =~= seq![(StepKind::DeleteRecord, lo, OnFailure::Abort)]);
    assert(apply_record_deletions(after_w, d.drop_last().drop_last()) == after_w);
    assert(d.drop_last().last() == (StepKind::DeleteRecord, lo, OnFailure::Abort));
    assert(apply_record_deletions(after_w, d.drop_last()) == after_w.remove(lo));
    assert(apply_record_deletions(after_w, d) == after_w.remove(lo).remove(dsc_o));
    assert(after_w.remove(lo).remove(dsc_o) =~= map![ln => render_lines(m), dsc_n => desc_text]);
}

} // verus!
