//! Manifests: the sets of paths, relative to the install root, that one
//! package owns.
use vstd::prelude::*;
use vstd::seq_lib::lemma_seq_contains_after_push;
use crate::text::str_eq;

verus! {

/// The views of a sequence of strings.
pub open spec fn paths_view(v: Seq<String>) -> Seq<Seq<char>> {
    v.map_values(|s: String| s@)
}

/// The name of the archive entry that holds the package identity.
pub open spec fn identity_entry() -> Seq<char> {
    seq!['d', 'e', 's', 'c', '.', 't', 'o', 'm', 'l']
}

/// The archive's root marker, in the two spellings a container may give it.
pub open spec fn is_root_marker(p: Seq<char>) -> bool {
    p == seq!['.'] || p == seq!['.', '/']
}

/// An archive entry that a package installs and its manifest lists.
pub open spec fn is_installable(p: Seq<char>) -> bool {
    !is_root_marker(p) && p != identity_entry()
}

/// `m` is the manifest of an archive with entry paths `entries`: every
/// installable entry, once.
pub open spec fn is_manifest_of(entries: Seq<Seq<char>>, m: Seq<Seq<char>>) -> bool {
    &&& m.no_duplicates()
    &&& forall|p: Seq<char>| #[trigger] m.contains(p) <==> (entries.contains(p) && is_installable(p))
}

/// Whether `p` names the entry that holds the package identity.
pub fn is_identity_entry(p: &str) -> (r: bool)
    ensures
        r == (p@ == identity_entry()),
{
    proof {
        reveal_strlit("desc.toml");
        assert("desc.toml"@ =~= identity_entry());
    }
    str_eq(p, "desc.toml")
}

/// Whether an archive entry is installable: neither the root marker nor the
/// identity entry.
pub fn entry_is_installable(p: &str) -> (r: bool)
    ensures
        r == is_installable(p@),
{
    proof {
        reveal_strlit(".");
        reveal_strlit("./");
        assert("."@ =~= seq!['.']);
        assert("./"@ =~= seq!['.', '/']);
    }
    !(str_eq(p, ".") || str_eq(p, "./") || is_identity_entry(p))
}

/// Whether `v` lists the path `p`.
pub fn contains_path(v: &Vec<String>, p: &str) -> (r: bool)
    ensures
        r == paths_view(v@).contains(p@),
{
    let mut i: usize = 0;
    while i < v.len()
        invariant
            i <= v@.len(),
            forall|j: int| 0 <= j < i ==> v@[j]@ != p@,
        decreases v@.len() - i,
    {
        if str_eq(v[i].as_str(), p) {
            assert(paths_view(v@)[i as int] == p@);
            return true;
        }
        i = i + 1;
    }
    assert forall|j: int| 0 <= j < paths_view(v@).len() implies paths_view(v@)[j] != p@ by {
        assert(paths_view(v@)[j] == v@[j]@);
    }
    false
}

/// The manifest that an archive's entry paths give: every installable entry,
/// once, in the order of first appearance.
pub fn derive_manifest(entries: &Vec<String>) -> (r: Vec<String>)
    ensures
        is_manifest_of(paths_view(entries@), paths_view(r@)),
{
    let mut r: Vec<String> = Vec::new();
    let mut i: usize = 0;
    while i < entries.len()
        invariant
            i <= entries@.len(),
            paths_view(r@).no_duplicates(),
            forall|p: Seq<char>|
                #[trigger] paths_view(r@).contains(p) <==> (paths_view(entries@.take(i as int)).contains(p)
                    && is_installable(p)),
        decreases entries@.len() - i,
    {
        let e = &entries[i];
        let ghost old_r = r@;
        let ghost seen = paths_view(entries@.take(i as int));
        assert(paths_view(entries@.take(i as int + 1)) =~= seen.push(e@));
        let keep = entry_is_installable(e.as_str()) && !contains_path(&r, e.as_str());
        if keep {
            r.push(e.clone());
            assert(paths_view(r@) =~= paths_view(old_r).push(e@));
        }
        assert forall|p: Seq<char>|
            #[trigger] paths_view(r@).contains(p) <==> (paths_view(entries@.take(i as int + 1)).contains(p) && is_installable(p)) by {
            lemma_seq_contains_after_push(seen, e@, p);
            lemma_seq_contains_after_push(paths_view(old_r), e@, p);
            assert(paths_view(old_r).contains(p) <==> (seen.contains(p) && is_installable(p)));
            if p == e@ && is_installable(p) && !keep {
                assert(paths_view(old_r).contains(p));
            }
        }
        i = i + 1;
    }
    assert(entries@.take(entries@.len() as int) =~= entries@);
    assert(paths_view(entries@.take(entries@.len() as int)) == paths_view(entries@));
    r
}

/// The paths of `old` that `new` no longer lists, in `old`'s order.
pub fn obsolete_paths(old: &Vec<String>, new: &Vec<String>) -> (r: Vec<String>)
    ensures
        paths_view(r@) == paths_view(old@).filter(|p: Seq<char>| !paths_view(new@).contains(p)),
{
    let ghost keep = |p: Seq<char>| !paths_view(new@).contains(p);
    let mut r: Vec<String> = Vec::new();
    let mut i: usize = 0;
    while i < old.len()
        invariant
            i <= old@.len(),
            keep == (|p: Seq<char>| !paths_view(new@).contains(p)),
            paths_view(r@) == paths_view(old@.take(i as int)).filter(keep),
        decreases old@.len() - i,
    {
        let e = &old[i];
        let ghost old_r = r@;
        assert(paths_view(old@.take(i as int + 1)) =~= paths_view(old@.take(i as int)).push(e@));
        proof {
            paths_view(old@.take(i as int)).lemma_filter_push(e@, keep);
        }
        if !contains_path(new, e.as_str()) {
            r.push(e.clone());
            assert(paths_view(r@) =~= paths_view(old_r).push(e@));
        } else {
            assert(paths_view(r@) =~= paths_view(old_r));
        }
        i = i + 1;
    }
    assert(old@.take(old@.len() as int) =~= old@);
    r
}

} // verus!
