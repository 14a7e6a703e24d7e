//! The checksum sidecar written beside an archive:
//! `<hex-sha256> <archive-file-name>` and a newline.
use vstd::prelude::*;
use vstd::string::*;

verus! {

/// The SHA-256 digest of `data`.
pub uninterp spec fn sha256_of(data: Seq<u8>) -> Seq<u8>;

/// Relies on `sha2::Sha256::digest` (the `digest::Digest` trait): the
/// SHA-256 digest of the bytes, whose output size is 32 bytes.
#[verifier::external_body]
fn sha256_digest(data: &[u8]) -> (r: Vec<u8>)
    ensures
        r@ == sha256_of(data@),
        r@.len() == 32,
{
    <sha2::Sha256 as sha2::Digest>::digest(data).to_vec()
}

/// The lower-case hexadecimal digits.
pub open spec fn hex_digits() -> Seq<char> {
    seq!['0', '1', '2', '3', '4', '5', '6', '7', '8', '9', 'a', 'b', 'c', 'd', 'e', 'f']
}

/// Two lower-case hexadecimal digits for each byte, high nibble first.
pub open spec fn hex_of(b: Seq<u8>) -> Seq<char>
    decreases b.len(),
{
    if b.len() == 0 {
        Seq::empty()
    } else {
        hex_of(b.drop_last()) + seq![
            hex_digits()[(b.last() / 16) as int],
            hex_digits()[(b.last() % 16) as int],
        ]
    }
}

/// The text of a checksum sidecar for a digest and an archive name.
pub open spec fn sidecar_text(digest: Seq<u8>, archive_name: Seq<char>) -> Seq<char> {
    hex_of(digest) + seq![' '] + archive_name + seq!['\n']
}

/// The lower-case hexadecimal form of `b`.
pub fn to_hex(b: &[u8]) -> (r: String)
    ensures
        r@ == hex_of(b@),
{
    let digits: &str = "0123456789abcdef";
    proof {
        reveal_strlit("0123456789abcdef");
        assert(digits@ =~= hex_digits());
    }
    let mut r = String::new();
    let mut i: usize = 0;
    while i < b.len()
        invariant
            i <= b@.len(),
            digits@ == hex_digits(),
            r@ == hex_of(b@.take(i as int)),
        decreases b@.len() - i,
    {
        let x = b[i];
        let hi = (x / 16) as usize;
        let lo = (x % 16) as usize;
        let dh = digits.substring_char(hi, hi + 1);
        let dl = digits.substring_char(lo, lo + 1);
        r.append(dh);
        r.append(dl);
        proof {
            let t = b@.take(i as int + 1);
            assert(t.drop_last() =~= b@.take(i as int));
            assert(t.last() == x);
            assert(dh@ =~= seq![hex_digits()[hi as int]]);
            assert(dl@ =~= seq![hex_digits()[lo as int]]);
            assert(r@ =~= hex_of(t));
        }
        i = i + 1;
    }
    assert(b@.take(b@.len() as int) =~= b@);
    r
}

/// The sidecar line for an archive whose digest is `digest`.
pub fn sidecar_line(digest: &[u8], archive_name: &str) -> (r: String)
    ensures
        r@ == sidecar_text(digest@, archive_name@),
{
    proof {
        reveal_strlit(" ");
        reveal_strlit("\n");
    }
    let mut r = to_hex(digest);
    r.append(" ");
    r.append(archive_name);
    r.append("\n");
    assert(r@ =~= sidecar_text(digest@, archive_name@));
    r
}

/// The checksum sidecar of the archive whose bytes are `archive`, stored
/// under the file name `archive_name`.
pub fn checksum_record(archive: &[u8], archive_name: &str) -> (r: String)
    ensures
        r@ == sidecar_text(sha256_of(archive@), archive_name@),
{
    let digest = sha256_digest(archive);
    sidecar_line(digest.as_slice(), archive_name)
}

} // verus!
