//! The registry of installed packages: where its two halves live and how an
//! installed package is found by name.
use vstd::prelude::*;
use crate::error::PkgError;
use crate::manifest::paths_view;
use crate::text::{concat3, str_starts_with};

verus! {

/// Where a package is installed and where the registry keeps its records.
/// Each directory is written with its trailing separator.
pub struct Layout {
    /// The install root that manifest paths are relative to.
    pub root: String,
    /// The directory of description records, one per canonical name.
    pub desc_dir: String,
    /// The directory of manifest records, one per canonical name.
    pub list_dir: String,
}

/// `a` followed by `b` and `c`.
pub open spec fn join3(a: Seq<char>, b: Seq<char>, c: Seq<char>) -> Seq<char> {
    a + b + c
}

/// The extension of a description record.
pub open spec fn desc_ext() -> Seq<char> {
    seq!['.', 't', 'o', 'm', 'l']
}

/// The extension of a manifest record.
pub open spec fn list_ext() -> Seq<char> {
    seq!['.', 'l', 'i', 's', 't']
}

impl Layout {
    /// The system-wide layout: install root `/`, registry under `/var/lib/matepkg`.
    pub fn system() -> (r: Layout)
        ensures
            r.root@ == seq!['/'],
            r.desc_dir@ == "/var/lib/matepkg/desc/"@,
            r.list_dir@ == "/var/lib/matepkg/list/"@,
    {
        proof {
            reveal_strlit("/");
        }
        let r = Layout {
            root: String::from_str("/"),
            desc_dir: String::from_str("/var/lib/matepkg/desc/"),
            list_dir: String::from_str("/var/lib/matepkg/list/"),
        };
        assert(r.root@ =~= seq!['/']);
        r
    }

    /// The description record of the package `name`.
    pub fn desc_path(&self, name: &str) -> (r: String)
        ensures
            r@ == join3(self.desc_dir@, name@, desc_ext()),
    {
        proof {
            reveal_strlit(".toml");
            assert(".toml"@ =~= desc_ext());
        }
        concat3(self.desc_dir.as_str(), name, ".toml")
    }

    /// The manifest record of the package `name`.
    pub fn list_path(&self, name: &str) -> (r: String)
        ensures
            r@ == join3(self.list_dir@, name@, list_ext()),
    {
        proof {
            reveal_strlit(".list");
            assert(".list"@ =~= list_ext());
        }
        concat3(self.list_dir.as_str(), name, ".list")
    }

    /// Where the manifest path `rel` lands under the install root.
    pub fn target_path(&self, rel: &str) -> (r: String)
        ensures
            r@ == self.root@ + rel@,
    {
        crate::text::concat2(self.root.as_str(), rel)
    }
}

/// The record names that the prefix `p` selects.
pub open spec fn prefix_matches(names: Seq<Seq<char>>, p: Seq<char>) -> Seq<Seq<char>> {
    names.filter(|n: Seq<char>| p.is_prefix_of(n))
}

/// Finds the one record whose name starts with `pkgname`, among the names of
/// the description records, and returns its index.
pub fn lookup_by_prefix(names: &Vec<String>, pkgname: &str) -> (r: Result<usize, PkgError>)
    ensures
        prefix_matches(paths_view(names@), pkgname@).len() == 0 <==> r == Err::<usize, PkgError>(PkgError::NotInstalled),
        prefix_matches(paths_view(names@), pkgname@).len() > 1 <==> r == Err::<usize, PkgError>(PkgError::AmbiguousInstall),
        prefix_matches(paths_view(names@), pkgname@).len() == 1 <==> r is Ok,
        r matches Ok(k) ==> k < names@.len() && pkgname@.is_prefix_of(names@[k as int]@),
{
    let ghost sel = |n: Seq<char>| pkgname@.is_prefix_of(n);
    let mut count: usize = 0;
    let mut first: usize = 0;
    let mut i: usize = 0;
    while i < names.len()
        invariant
            i <= names@.len(),
            sel == (|n: Seq<char>| pkgname@.is_prefix_of(n)),
            count as int == paths_view(names@.take(i as int)).filter(sel).len(),
            count <= i,
            count > 0 ==> first < names@.len() && pkgname@.is_prefix_of(names@[first as int]@),
        decreases names@.len() - i,
    {
        let n = &names[i];
        assert(paths_view(names@.take(i as int + 1)) =~= paths_view(names@.take(i as int)).push(n@));
        proof {
            paths_view(names@.take(i as int)).lemma_filter_push(n@, sel);
        }
        if str_starts_with(n.as_str(), pkgname) {
            if count == 0 {
                first = i;
            }
            count = count + 1;
        }
        i = i + 1;
    }
    assert(names@.take(names@.len() as int) =~= names@);
    if count == 0 {
        Err(PkgError::NotInstalled)
    } else if count > 1 {
        Err(PkgError::AmbiguousInstall)
    } else {
        Ok(first)
    }
}

/// The check made before a package is removed: both halves of its record
/// must be present.
pub fn require_installed(has_desc: bool, has_list: bool) -> (r: Result<(), PkgError>)
    ensures
        r is Ok <==> has_desc && has_list,
        r is Err ==> r == Err::<(), PkgError>(PkgError::NotInstalled),
{
    if has_desc && has_list {
        Ok(())
    } else {
        Err(PkgError::NotInstalled)
    }
}

/// The state of a record read back from the registry: both halves present,
/// neither (not installed), or one without the other (corrupt).
pub fn entry_status(has_desc: bool, has_list: bool) -> (r: Result<(), PkgError>)
    ensures
        r is Ok <==> has_desc && has_list,
        !has_desc && !has_list <==> r == Err::<(), PkgError>(PkgError::NotInstalled),
        has_desc != has_list <==> r == Err::<(), PkgError>(PkgError::CorruptEntry),
{
    if has_desc && has_list {
        Ok(())
    } else if has_desc || has_list {
        Err(PkgError::CorruptEntry)
    } else {
        Err(PkgError::NotInstalled)
    }
}

} // verus!
