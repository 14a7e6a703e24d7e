//! The package identity record and the names derived from it.
use vstd::prelude::*;
use vstd::string::*;
use crate::error::PkgError;
use crate::text::str_eq;

verus! {

/// A package identity, as its description record holds it.
#[derive(Debug)]
pub struct Metadata {
    pub maintainer: String,
    pub pkgname: String,
    pub version: String,
    pub build: String,
    pub license: String,
    pub desc: String,
    pub url: String,
    /// Dependencies: carried, never consulted by the engine.
    pub deps: Vec<String>,
}

/// `pkgname-version-build`, the key of a package everywhere it is archived
/// or installed.
pub open spec fn canonical(pkgname: Seq<char>, version: Seq<char>, build: Seq<char>) -> Seq<char> {
    pkgname + seq!['-'] + version + seq!['-'] + build
}

/// The extension of a package archive.
pub open spec fn archive_ext() -> Seq<char> {
    seq!['.', 'm', 't', 'z']
}

/// The extension of an archive's checksum sidecar.
pub open spec fn sidecar_ext() -> Seq<char> {
    seq!['.', 's', 'h', 'a', '2', '5', '6']
}

/// The name of the archive built for the package `name`.
pub fn archive_file_name(name: &str) -> (r: String)
    ensures
        r@ == name@ + archive_ext(),
{
    proof {
        reveal_strlit(".mtz");
        assert(".mtz"@ =~= archive_ext());
    }
    crate::text::concat2(name, ".mtz")
}

/// The name of the checksum sidecar written beside the archive `archive_name`.
pub fn sidecar_file_name(archive_name: &str) -> (r: String)
    ensures
        r@ == archive_name@ + sidecar_ext(),
{
    proof {
        reveal_strlit(".sha256");
        assert(".sha256"@ =~= sidecar_ext());
    }
    crate::text::concat2(archive_name, ".sha256")
}

/// Whether `level` is a compression level that archives can be built with.
pub fn is_valid_compression_level(level: i32) -> (r: bool)
    ensures
        r == (0 <= level <= 21),
{
    0 <= level && level <= 21
}

impl Metadata {
    /// The canonical name of this identity.
    pub open spec fn canonical_view(&self) -> Seq<char> {
        canonical(self.pkgname@, self.version@, self.build@)
    }

    /// The canonical name `pkgname-version-build`.
    pub fn canonical_name(&self) -> (r: String)
        ensures
            r@ == self.canonical_view(),
    {
        proof {
            reveal_strlit("-");
        }
        let mut r = String::from_str(self.pkgname.as_str());
        r.append("-");
        r.append(self.version.as_str());
        r.append("-");
        r.append(self.build.as_str());
        assert(r@ =~= self.canonical_view());
        r
    }

    /// Checks that the name a package is built under is this identity's
    /// canonical name.
    pub fn check_package_name(&self, package_name: &str) -> (r: Result<(), PkgError>)
        ensures
            r is Ok <==> package_name@ == self.canonical_view(),
            r is Err ==> r == Err::<(), PkgError>(PkgError::Validation),
    {
        let expected = self.canonical_name();
        if str_eq(package_name, expected.as_str()) {
            Ok(())
        } else {
            Err(PkgError::Validation)
        }
    }
}

} // verus!
