//! Archive formats, told apart by the suffix of a path or URL.
use vstd::prelude::*;

verus! {

#[derive(Clone, Copy, Debug, PartialEq, Eq, Structural)]
pub enum ArchiveType {
    Zip,
    TarGz,
    TarXz,
}

/// A path whose suffix names no supported archive format.
#[derive(Clone, Copy, Debug, PartialEq, Eq, Structural)]
pub struct UnknownArchiveType;

pub open spec fn bytes_end_with(s: Seq<u8>, suffix: Seq<u8>) -> bool {
    suffix.len() <= s.len() && s.skip(s.len() - suffix.len()) == suffix
}

pub open spec fn zip_suffix() -> Seq<u8> {
    seq![46u8, 122u8, 105u8, 112u8]
}

pub open spec fn tar_gz_suffix() -> Seq<u8> {
    seq![46u8, 116u8, 97u8, 114u8, 46u8, 103u8, 122u8]
}

pub open spec fn tar_xz_suffix() -> Seq<u8> {
    seq![46u8, 116u8, 97u8, 114u8, 46u8, 120u8, 122u8]
}

/// `.zip`, `.tar.gz`, `.tar.xz`, or nothing.
pub open spec fn archive_type_of(path: Seq<u8>) -> Option<ArchiveType> {
    if bytes_end_with(path, zip_suffix()) {
        Some(ArchiveType::Zip)
    } else if bytes_end_with(path, tar_gz_suffix()) {
        Some(ArchiveType::TarGz)
    } else if bytes_end_with(path, tar_xz_suffix()) {
        Some(ArchiveType::TarXz)
    } else {
        None
    }
}

fn ends_with_bytes(s: &[u8], suffix: &[u8]) -> (r: bool)
    ensures
        r == bytes_end_with(s@, suffix@),
{
    let n = s.len();
    let m = suffix.len();
    if m > n {
        return false;
    }
    let mut i: usize = 0;
    while i < m
        invariant
            m <= n,
            n == s@.len(),
            m == suffix@.len(),
            i <= m,
            forall|k: int| 0 <= k < i ==> s@[n - m + k] == suffix@[k],
        decreases m - i,
    {
        if s[n - m + i] != suffix[i] {
            assert(s@.skip(n - m)[i as int] != suffix@[i as int]);
            return false;
        }
        i = i + 1;
    }
    assert(s@.skip(n - m) =~= suffix@);
    true
}

impl ArchiveType {
    /// Detects the archive format from the end of `path`.
    pub fn from_path(path: &[u8]) -> (r: Result<ArchiveType, UnknownArchiveType>)
        ensures
            match archive_type_of(path@) {
                Some(t) => r == Ok::<ArchiveType, UnknownArchiveType>(t),
                None => r is Err,
            },
    {
        let zip: [u8; 4] = [46u8, 122u8, 105u8, 112u8];
        let tar_gz: [u8; 7] = [46u8, 116u8, 97u8, 114u8, 46u8, 103u8, 122u8];
        let tar_xz: [u8; 7] = [46u8, 116u8, 97u8, 114u8, 46u8, 120u8, 122u8];
        assert(zip@ == zip_suffix());
        assert(tar_gz@ == tar_gz_suffix());
        assert(tar_xz@ == tar_xz_suffix());
        if ends_with_bytes(path, zip.as_slice()) {
            Ok(ArchiveType::Zip)
        } else if ends_with_bytes(path, tar_gz.as_slice()) {
            Ok(ArchiveType::TarGz)
        } else if ends_with_bytes(path, tar_xz.as_slice()) {
            Ok(ArchiveType::TarXz)
        } else {
            Err(UnknownArchiveType)
        }
    }
}

/// Detection succeeds exactly on the three suffixes: any path that ends in
/// one of them is recognised, and any other path is refused.
pub proof fn lemma_detection_total(path: Seq<u8>)
    ensures
        archive_type_of(path) is Some <==> (bytes_end_with(path, zip_suffix()) || bytes_end_with(
            path,
            tar_gz_suffix(),
        ) || bytes_end_with(path, tar_xz_suffix())),
        bytes_end_with(path, zip_suffix()) ==> archive_type_of(path) == Some(ArchiveType::Zip),
        bytes_end_with(path, tar_gz_suffix()) ==> archive_type_of(path) == Some(ArchiveType::TarGz),
        bytes_end_with(path, tar_xz_suffix()) ==> archive_type_of(path) == Some(ArchiveType::TarXz),
{
    let n = path.len();
    if bytes_end_with(path, tar_gz_suffix()) {
        assert(path[n - 4] == path.skip(n - 7)[3]);
        assert(path.skip(n - 4)[0] == path[n - 4]);
        assert(zip_suffix()[0] != tar_gz_suffix()[3]);
    }
    if bytes_end_with(path, tar_xz_suffix()) {
        assert(path[n - 4] == path.skip(n - 7)[3]);
        assert(path.skip(n - 4)[0] == path[n - 4]);
        assert(zip_suffix()[0] != tar_xz_suffix()[3]);
        assert(tar_gz_suffix()[5] != tar_xz_suffix()[5]);
    }
}

/// Where an archive lies and where it is unpacked.
pub struct ArchiveExtractInfo {
    pub archive_path: String,
    pub archive_type: ArchiveType,
    pub extracted_dir: String,
}

} // verus!
