//! The decisions of the upgrade transaction: reading a candidate archive's
//! entries, the version gate, and the directories left to check after the
//! obsolete files are gone.
use vstd::prelude::*;
use vstd::seq_lib::lemma_seq_contains_after_push;
use crate::error::PkgError;
use crate::manifest::{contains_path, derive_manifest, identity_entry, is_identity_entry, is_manifest_of, paths_view};
use crate::package::Metadata;
use crate::text::concat2;
use crate::version::{is_upgrade, upgrade_rule, version_order_of};

verus! {

/// Reads the entry paths of a candidate archive: the manifest it installs,
/// or `InvalidPackage` where no entry holds the package identity.
pub fn analyze_entries(entries: &Vec<String>) -> (r: Result<Vec<String>, PkgError>)
    ensures
        !paths_view(entries@).contains(identity_entry()) <==> r == Err::<Vec<String>, PkgError>(PkgError::InvalidPackage),
        r is Err ==> r == Err::<Vec<String>, PkgError>(PkgError::InvalidPackage),
        r matches Ok(m) ==> is_manifest_of(paths_view(entries@), paths_view(m@)),
{
    let mut found = false;
    let mut i: usize = 0;
    while i < entries.len()
        invariant
            i <= entries@.len(),
            found <==> exists|k: int| 0 <= k < i && entries@[k]@ == identity_entry(),
        decreases entries@.len() - i,
    {
        if is_identity_entry(entries[i].as_str()) {
            found = true;
        }
        i = i + 1;
    }
    proof {
        if found {
            let k = choose|k: int| 0 <= k < entries@.len() && entries@[k]@ == identity_entry();
            assert(paths_view(entries@)[k] == identity_entry());
        } else {
            assert forall|k: int| 0 <= k < paths_view(entries@).len() implies paths_view(entries@)[k] != identity_entry() by {
                assert(paths_view(entries@)[k] == entries@[k]@);
            }
        }
    }
    if !found {
        return Err(PkgError::InvalidPackage);
    }
    Ok(derive_manifest(entries))
}

/// The version gate of an upgrade: the candidate must supersede the
/// installed package under the upgrade rule.
pub fn upgrade_gate(cand: &Metadata, inst: &Metadata) -> (r: Result<(), PkgError>)
    ensures
        match version_order_of(cand.version@, inst.version@) {
            None => r == Err::<(), PkgError>(PkgError::InvalidVersion),
            Some(o) => if upgrade_rule(o, cand.build@, inst.build@) {
                r is Ok
            } else {
                r == Err::<(), PkgError>(PkgError::NotNewer)
            },
        },
{
    match is_upgrade(cand.version.as_str(), cand.build.as_str(), inst.version.as_str(), inst.build.as_str()) {
        Ok(true) => Ok(()),
        Ok(false) => Err(PkgError::NotNewer),
        Err(e) => Err(e),
    }
}

/// The index of the last `/` in `p`, or -1 where it found_sep none.
pub open spec fn last_sep(p: Seq<char>) -> int
    decreases p.len(),
{
    if p.len() == 0 {
        -1
    } else if p.last() == '/' {
        p.len() - 1
    } else {
        last_sep(p.drop_last())
    }
}

/// The directory that holds the file path `p`: the text before its last
/// `/`, or `/` itself where that separator comes first. A path without a
/// separator, and `/` alone, have none.
pub open spec fn parent_of(p: Seq<char>) -> Option<Seq<char>> {
    let k = last_sep(p);
    if k < 0 || p.len() <= 1 {
        None
    } else if k == 0 {
        Some(seq!['/'])
    } else {
        Some(p.take(k))
    }
}

/// The directory that holds the file path `p`.
pub fn parent_dir(p: &str) -> (r: Option<String>)
    ensures
        r matches Some(s) ==> parent_of(p@) == Some(s@),
        r is None ==> parent_of(p@) is None,
{
    let n = p.unicode_len();
    let mut found_sep: bool = false;
    let mut last: usize = 0;
    let mut i: usize = 0;
    assert(p@.take(0) =~= Seq::<char>::empty());
    while i < n
        invariant
            n == p@.len(),
            i <= n,
            found_sep ==> last as int == last_sep(p@.take(i as int)) && last < i,
            !found_sep ==> last_sep(p@.take(i as int)) == -1,
        decreases n - i,
    {
        assert(p@.take(i as int + 1).drop_last() =~= p@.take(i as int));
        assert(p@.take(i as int + 1).last() == p@[i as int]);
        if p.get_char(i) == '/' {
            found_sep = true;
            last = i;
        }
        i = i + 1;
    }
    assert(p@.take(n as int) =~= p@);
    if !found_sep || n <= 1 {
        None
    } else if last == 0 {
        proof {
            reveal_strlit("/");
            assert("/"@ =~= seq!['/']);
        }
        Some(String::from_str("/"))
    } else {
        let head = p.substring_char(0, last as usize);
        assert(head@ =~= p@.take(last as int));
        Some(String::from_str(head))
    }
}

/// The directories to check for emptiness after the files `deleted` were
/// removed: the parent of each, once.
pub fn touched_dirs(deleted: &Vec<String>) -> (r: Vec<String>)
    ensures
        paths_view(r@).no_duplicates(),
        forall|d: Seq<char>|
            paths_view(r@).contains(d) <==> exists|k: int|
                0 <= k < deleted@.len() && parent_of(#[trigger] deleted@[k]@) == Some(d),
{
    let mut r: Vec<String> = Vec::new();
    let mut i: usize = 0;
    while i < deleted.len()
        invariant
            i <= deleted@.len(),
            paths_view(r@).no_duplicates(),
            forall|d: Seq<char>|
                #[trigger] paths_view(r@).contains(d) <==> exists|k: int|
                    0 <= k < i && parent_of(#[trigger] deleted@[k]@) == Some(d),
        decreases deleted@.len() - i,
    {
        let ghost before = r@;
        match parent_dir(deleted[i].as_str()) {
            Some(d) => {
                let present = contains_path(&r, d.as_str());
                if !present {
                    r.push(d);
                    assert(paths_view(r@) =~= paths_view(before).push(d@));
                } else {
                    assert(paths_view(r@) == paths_view(before));
                }
                assert forall|x: Seq<char>|
                    #[trigger] paths_view(r@).contains(x) <==> exists|k: int|
                        0 <= k < i + 1 && parent_of(#[trigger] deleted@[k]@) == Some(x) by {
                    lemma_seq_contains_after_push(paths_view(before), d@, x);
                    assert(parent_of(deleted@[i as int]@) == Some(d@));
                    if paths_view(before).contains(x) {
                        let k = choose|k: int| 0 <= k < i && parent_of(#[trigger] deleted@[k]@) == Some(x);
                        assert(0 <= k < i + 1 && parent_of(deleted@[k]@) == Some(x));
                    }
                    if exists|k: int| 0 <= k < i + 1 && parent_of(#[trigger] deleted@[k]@) == Some(x) {
                        let k = choose|k: int| 0 <= k < i + 1 && parent_of(#[trigger] deleted@[k]@) == Some(x);
                        if k < i {
                            assert(paths_view(before).contains(x));
                        } else {
                            assert(x == d@);
                        }
                    }
                }
            },
            None => {
                assert forall|x: Seq<char>|
                    #[trigger] paths_view(r@).contains(x) <==> exists|k: int|
                        0 <= k < i + 1 && parent_of(#[trigger] deleted@[k]@) == Some(x) by {
                    if exists|k: int| 0 <= k < i + 1 && parent_of(#[trigger] deleted@[k]@) == Some(x) {
                        let k = choose|k: int| 0 <= k < i + 1 && parent_of(#[trigger] deleted@[k]@) == Some(x);
                        assert(k < i);
                    }
                }
            },
        }
        i = i + 1;
    }
    r
}

} // verus!
