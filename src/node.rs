//! Node.js release labels: `[v]X.Y.Z`.
use vstd::prelude::*;
use crate::text::{chars_of, parse_u32_range, split_on, split_ranges, u32_text};
use crate::version::{
    from_input, has_raw, key_lt, last_max_index, same_candidate, sort_dedup, to_versions, Candidate, OrderKey,
    ReleaseFilter, ToolError, Version, VersionFilter,
};
use crate::go::parsed_filter;
use crate::text::{chars_range_text, decimal, decimal_text, is_digit, push_char, same_text, word_ranges, words};
use crate::platform::{cpu, os, default_of, default_platform, in_table, string_opt_view, platform_index, platform_text, split_table, PlatformRow};
use crate::tool::{ToolDownInfo, ToolInfo};
use crate::config::FileHash;

verus! {

/// A parsed Node.js version.
#[derive(Clone, Copy, Debug, PartialEq, Eq, Structural)]
pub struct NodeVersion {
    pub major: u32,
    pub minor: u32,
    pub patch: u32,
}

/// A label that is not a Node.js version.
#[derive(Clone, Copy, Debug, PartialEq, Eq, Structural)]
pub struct NodeVersionError;

impl NodeVersion {
    pub open spec fn key(self) -> OrderKey {
        OrderKey { a: self.major, b: self.minor, c: self.patch, d: 0, e: 0 }
    }

    pub fn order_key(&self) -> (r: OrderKey)
        ensures
            r == self.key(),
    {
        OrderKey { a: self.major, b: self.minor, c: self.patch, d: 0, e: 0 }
    }
}

/// Node versions are totally ordered by their keys: two versions with the
/// same key are the same version.
pub proof fn lemma_node_order_total(x: NodeVersion, y: NodeVersion)
    ensures
        crate::version::key_lt(x.key(), y.key()) || crate::version::key_lt(y.key(), x.key()) || x == y,
        !(crate::version::key_lt(x.key(), y.key()) && crate::version::key_lt(y.key(), x.key())),
        !crate::version::key_lt(x.key(), x.key()),
{
}

/// `major.minor.patch` in decimal.
pub open spec fn node_text(v: NodeVersion) -> Seq<char> {
    decimal_text(v.major as nat) + seq!['.'] + decimal_text(v.minor as nat) + seq!['.'] + decimal_text(v.patch as nat)
}

impl NodeVersion {
    /// Writes the version as `major.minor.patch`.
    pub fn to_text(&self) -> (r: String)
        ensures
            r@ == node_text(*self),
    {
        let a = push_char(decimal(self.major), '.');
        let b = push_char(a.concat(decimal(self.minor).as_str()), '.');
        let r = b.concat(decimal(self.patch).as_str());
        assert(r@ =~= node_text(*self));
        r
    }
}

/// Writing a version and parsing it again gives the same version, whether
/// the label carries its `v` or not; the parsed label is the written text.
pub proof fn lemma_node_round_trip(v: NodeVersion)
    ensures
        node_label(node_text(v)) == Some(v),
        node_label(seq!['v'] + node_text(v)) == Some(v),
        node_raw(seq!['v'] + node_text(v)) == node_text(v),
        node_raw(node_text(v)) == node_text(v),
{
    let a = decimal_text(v.major as nat);
    let b = decimal_text(v.minor as nat);
    let c = decimal_text(v.patch as nat);
    crate::text::lemma_decimal_reads_back(v.major as nat);
    crate::text::lemma_decimal_reads_back(v.minor as nat);
    crate::text::lemma_decimal_reads_back(v.patch as nat);
    crate::text::lemma_u32_text_of_decimal(v.major);
    crate::text::lemma_u32_text_of_decimal(v.minor);
    crate::text::lemma_u32_text_of_decimal(v.patch);
    crate::text::lemma_split_three(a, b, c, '.');
    let t = node_text(v);
    assert(t[0] == a[0]);
    assert(is_digit(a[0]));
    assert(node_raw(t) == t);
    assert((seq!['v'] + t).skip(1) =~= t);
    assert(node_raw(seq!['v'] + t) == t);
}

/// The label without its optional leading `v`.
pub open spec fn node_raw(s: Seq<char>) -> Seq<char> {
    if s.len() > 0 && s[0] == 'v' {
        s.skip(1)
    } else {
        s
    }
}

/// Exactly three dot-separated numbers.
pub open spec fn node_label(s: Seq<char>) -> Option<NodeVersion> {
    let parts = split_on(node_raw(s), '.');
    if node_raw(s).len() > 0 && parts.len() == 3 && u32_text(parts[0]) is Some && u32_text(
        parts[1],
    ) is Some && u32_text(parts[2]) is Some {
        Some(
            NodeVersion {
                major: u32_text(parts[0])->Some_0,
                minor: u32_text(parts[1])->Some_0,
                patch: u32_text(parts[2])->Some_0,
            },
        )
    } else {
        None
    }
}

/// Parses a Node.js label, returning it without the `v` and the parsed version.
pub fn parse_node_version(s: &str) -> (r: Result<(&str, NodeVersion), NodeVersionError>)
    ensures
        match node_label(s@) {
            Some(g) => r matches Ok((raw, v)) && raw@ == node_raw(s@) && v == g,
            None => r is Err,
        },
{
    let v = chars_of(s);
    let n = v.len();
    let start: usize = if n > 0 && v[0] == 'v' { 1 } else { 0 };
    assert(node_raw(s@) == v@.subrange(start as int, n as int));
    if start == n {
        return Err(NodeVersionError);
    }
    let ranges = split_ranges(&v, start, n, '.');
    if ranges.len() != 3 {
        return Err(NodeVersionError);
    }
    let major = match parse_u32_range(&v, ranges[0].0, ranges[0].1) {
        Some(x) => x,
        None => return Err(NodeVersionError),
    };
    let minor = match parse_u32_range(&v, ranges[1].0, ranges[1].1) {
        Some(x) => x,
        None => return Err(NodeVersionError),
    };
    let patch = match parse_u32_range(&v, ranges[2].0, ranges[2].1) {
        Some(x) => x,
        None => return Err(NodeVersionError),
    };
    Ok((s.substring_char(start, n), NodeVersion { major, minor, patch }))
}


pub const BASE_URL: &'static str = "https://nodejs.org/dist/";

/// Platforms Node.js publishes archives for: the key in the catalog's
/// `files` list, and the suffix of the archive name.
pub open spec fn node_table() -> Seq<PlatformRow> {
    seq![
            (cpu::X64, os::LINUX, "linux-x64", "linux-x64.tar.xz"),
            (cpu::X86, os::LINUX, "linux-x86", "linux-x86.tar.xz"),
            (cpu::ARM64, os::LINUX, "linux-arm64", "linux-arm64.tar.xz"),
            (cpu::ARMV6L, os::LINUX, "linux-armv6l", "linux-armv6l.tar.xz"),
            (cpu::ARMV7L, os::LINUX, "linux-armv7l", "linux-armv7l.tar.xz"),
            (cpu::PPC64LE, os::LINUX, "linux-ppc64le", "linux-ppc64le.tar.xz"),
            (cpu::S390X, os::LINUX, "linux-s390x", "linux-s390x.tar.xz"),
            (cpu::X64, os::WIN, "win-x64-zip", "win-x64.zip"),
            (cpu::X86, os::WIN, "win-x86-zip", "win-x86.zip"),
            (cpu::ARM64, os::WIN, "win-arm64-zip", "win-arm64.zip"),
            (cpu::ARM64, os::MAC, "osx-arm64-tar", "darwin-arm64.tar.xz"),
            (cpu::X64, os::MAC, "osx-x64-tar", "darwin-x64.tar.xz"),
            (cpu::X86, os::MAC, "osx-x86-tar", "darwin-x86.tar.xz"),
            (cpu::X64, os::SOLARIS, "sunos-x64", "sunos-x64.tar.xz"),
            (cpu::X86, os::SOLARIS, "sunos-x86", "sunos-x86.tar.xz"),
            (cpu::PPC64, os::AIX, "aix-ppc64", "aix-ppc64.tar.gz"),
        ]
}

fn node_rows() -> (r: Vec<PlatformRow>)
    ensures
        r@ == node_table(),
{
    vec![
            (cpu::X64, os::LINUX, "linux-x64", "linux-x64.tar.xz"),
            (cpu::X86, os::LINUX, "linux-x86", "linux-x86.tar.xz"),
            (cpu::ARM64, os::LINUX, "linux-arm64", "linux-arm64.tar.xz"),
            (cpu::ARMV6L, os::LINUX, "linux-armv6l", "linux-armv6l.tar.xz"),
            (cpu::ARMV7L, os::LINUX, "linux-armv7l", "linux-armv7l.tar.xz"),
            (cpu::PPC64LE, os::LINUX, "linux-ppc64le", "linux-ppc64le.tar.xz"),
            (cpu::S390X, os::LINUX, "linux-s390x", "linux-s390x.tar.xz"),
            (cpu::X64, os::WIN, "win-x64-zip", "win-x64.zip"),
            (cpu::X86, os::WIN, "win-x86-zip", "win-x86.zip"),
            (cpu::ARM64, os::WIN, "win-arm64-zip", "win-arm64.zip"),
            (cpu::ARM64, os::MAC, "osx-arm64-tar", "darwin-arm64.tar.xz"),
            (cpu::X64, os::MAC, "osx-x64-tar", "darwin-x64.tar.xz"),
            (cpu::X86, os::MAC, "osx-x86-tar", "darwin-x86.tar.xz"),
            (cpu::X64, os::SOLARIS, "sunos-x64", "sunos-x64.tar.xz"),
            (cpu::X86, os::SOLARIS, "sunos-x86", "sunos-x86.tar.xz"),
            (cpu::PPC64, os::AIX, "aix-ppc64", "aix-ppc64.tar.gz"),
    ]
}

/// The `lts` field of the catalog: a codename for LTS lines, else `false`.
pub enum LtsDto {
    String(String),
    Bool(bool),
}

pub open spec fn lts_of(l: LtsDto) -> bool {
    match l {
        LtsDto::String(_) => true,
        LtsDto::Bool(b) => b,
    }
}

impl LtsDto {
    pub fn is(&self) -> (r: bool)
        ensures
            r == lts_of(*self),
    {
        match self {
            LtsDto::String(_) => true,
            LtsDto::Bool(b) => *b,
        }
    }
}

/// One release of the Node.js catalog.
pub struct NodeRelease {
    pub version: String,
    pub lts: LtsDto,
    pub files: Vec<String>,
}

pub open spec fn has_file(files: Seq<String>, key: Seq<char>) -> bool {
    exists|i: int| 0 <= i < files.len() && (#[trigger] files[i])@ == key
}

fn contains_file(files: &Vec<String>, key: &str) -> (r: bool)
    ensures
        r == has_file(files@, key@),
{
    let mut i: usize = 0;
    while i < files.len()
        invariant
            i <= files@.len(),
            forall|k: int| 0 <= k < i ==> (#[trigger] files@[k])@ != key@,
        decreases files@.len() - i,
    {
        if same_text(files[i].as_str(), key) {
            return true;
        }
        i = i + 1;
    }
    false
}

/// Whether a catalog release is offered for the platform and passes the
/// filter; an exact version may name the label with or without its `v`.
pub open spec fn eligible(r: NodeRelease, file_key: Seq<char>, f: ReleaseFilter) -> bool {
    &&& has_file(r.files@, file_key)
    &&& node_label(r.version@) matches Some(v)
    &&& (f.admits_release(node_raw(r.version@), v.major, lts_of(r.lts)) || f.admits_release(r.version@, v.major, lts_of(r.lts)))
}

/// The order key of a label given without its `v`.
pub open spec fn raw_key(raw: Seq<char>) -> OrderKey {
    node_label(seq!['v'] + raw)->Some_0.key()
}

proof fn lemma_raw_key(s: Seq<char>)
    requires
        node_label(s) is Some,
    ensures
        raw_key(node_raw(s)) == node_label(s)->Some_0.key(),
{
    let t = seq!['v'] + node_raw(s);
    assert(node_raw(t) =~= node_raw(s));
}

/// The eligible releases of a catalog as candidates, in catalog order.
pub fn node_candidates(releases: &Vec<NodeRelease>, file_key: &str, filter: &ReleaseFilter) -> (r: Vec<Candidate>)
    ensures
        forall|k: int| 0 <= k < r@.len() ==> (#[trigger] r@[k]).source < releases@.len() && eligible(
            releases@[r@[k].source as int], file_key@, *filter)
            && r@[k].raw@ == node_raw(releases@[r@[k].source as int].version@)
            && r@[k].key == raw_key(r@[k].raw@)
            && r@[k].major == node_label(releases@[r@[k].source as int].version@)->Some_0.major
            && r@[k].is_lts == lts_of(releases@[r@[k].source as int].lts),
        forall|j: int| 0 <= j < releases@.len() && eligible(#[trigger] releases@[j], file_key@, *filter)
            ==> exists|k: int| 0 <= k < r@.len() && (#[trigger] r@[k]).source == j,
        forall|a: int, b: int| 0 <= a < b < r@.len() ==> (#[trigger] r@[a]).source < (#[trigger] r@[b]).source,
{
    let mut out: Vec<Candidate> = Vec::new();
    let mut i: usize = 0;
    while i < releases.len()
        invariant
            i <= releases@.len(),
            forall|k: int| 0 <= k < out@.len() ==> (#[trigger] out@[k]).source < i && eligible(
                releases@[out@[k].source as int], file_key@, *filter)
                && out@[k].raw@ == node_raw(releases@[out@[k].source as int].version@)
                && out@[k].key == raw_key(out@[k].raw@)
                && out@[k].major == node_label(releases@[out@[k].source as int].version@)->Some_0.major
                && out@[k].is_lts == lts_of(releases@[out@[k].source as int].lts),
            forall|j: int| 0 <= j < i && eligible(#[trigger] releases@[j], file_key@, *filter)
                ==> exists|k: int| 0 <= k < out@.len() && (#[trigger] out@[k]).source == j,
            forall|a: int, b: int| 0 <= a < b < out@.len() ==> (#[trigger] out@[a]).source < (#[trigger] out@[b]).source,
        decreases releases@.len() - i,
    {
        let rel = &releases[i];
        let ghost before = out@;
        let mut pushed = false;
        if let Ok((raw, v)) = parse_node_version(rel.version.as_str()) {
            let lts = rel.lts.is();
            // an exact version may be given with or without its `v`
            if (filter.matches(raw, v.major, lts) || filter.matches(rel.version.as_str(), v.major, lts))
                && contains_file(&rel.files, file_key) {
                proof {
                    lemma_raw_key(rel.version@);
                }
                out.push(Candidate { raw: raw.to_owned(), key: v.order_key(), major: v.major, is_lts: lts, source: i });
                pushed = true;
            }
        }
        assert(pushed ==> out@ == before.push(out@[before.len() as int]) && out@[before.len() as int].source == i);
        assert(!pushed ==> out@ == before && !eligible(releases@[i as int], file_key@, *filter));
        assert forall|j: int| 0 <= j < i + 1 && eligible(#[trigger] releases@[j], file_key@, *filter)
            implies exists|k: int| 0 <= k < out@.len() && (#[trigger] out@[k]).source == j by {
            if j < i {
                let k0 = choose|k: int| 0 <= k < before.len() && (#[trigger] before[k]).source == j;
                assert(out@[k0] == before[k0]);
            } else {
                assert(out@[before.len() as int].source == j);
            }
        }
        i = i + 1;
    }
    out
}

pub open spec fn from_eligible(v: Version, releases: Seq<NodeRelease>, file_key: Seq<char>, f: ReleaseFilter) -> bool {
    exists|j: int| 0 <= j < releases.len() && eligible(releases[j], file_key, f) && v.version@ == node_raw((#[trigger] releases[j]).version@)
        && v.major_version@ == decimal_text(node_label(releases[j].version@)->Some_0.major as nat)
        && v.is_lts == lts_of(releases[j].lts)
}

pub open spec fn is_listed(vs: Seq<Version>, r: NodeRelease) -> bool {
    exists|k: int| 0 <= k < vs.len() && (#[trigger] vs[k]).version@ == node_raw(r.version@)
}

/// `vs` lists the eligible releases: ascending, one per label, none missing.
pub open spec fn versions_of(vs: Seq<Version>, releases: Seq<NodeRelease>, file_key: Seq<char>, f: ReleaseFilter) -> bool {
    &&& forall|a: int, b: int| 0 <= a < b < vs.len() ==> !key_lt(raw_key((#[trigger] vs[b]).version@), raw_key((#[trigger] vs[a]).version@))
    &&& forall|a: int, b: int| 0 <= a < b < vs.len() ==> (#[trigger] vs[a]).version@ != (#[trigger] vs[b]).version@
    &&& forall|k: int| 0 <= k < vs.len() ==> from_eligible(#[trigger] vs[k], releases, file_key, f)
    &&& forall|j: int| 0 <= j < releases.len() && eligible(#[trigger] releases[j], file_key, f) ==> is_listed(vs, releases[j])
}

/// The archive name of a release for a platform suffix.
pub open spec fn archive_name(raw: Seq<char>, suffix: Seq<char>) -> Seq<char> {
    seq!['n', 'o', 'd', 'e', '-', 'v'] + raw + seq!['-'] + suffix
}

/// The directory a release is published under.
pub open spec fn release_dir(raw: Seq<char>) -> Seq<char> {
    BASE_URL@ + seq!['v'] + raw
}

/// The first line of a checksum list whose second word is `name`, as its first word.
pub open spec fn shasum_in(lines: Seq<Seq<char>>, name: Seq<char>) -> Option<Seq<char>>
    decreases lines.len(),
{
    if lines.len() == 0 {
        None
    } else if words(lines[0]).len() >= 2 && words(lines[0])[1] == name {
        Some(words(lines[0])[0])
    } else {
        shasum_in(lines.drop_first(), name)
    }
}

/// Looks up the digest listed for `name` in a `SHASUMS256.txt` text.
pub fn find_sha256(content: &str, name: &str) -> (r: Option<String>)
    ensures
        match shasum_in(split_on(content@, '\n'), name@) {
            Some(h) => r matches Some(x) && x@ == h,
            None => r is None,
        },
{
    let v = chars_of(content);
    let n = v.len();
    let lines = split_ranges(&v, 0, n, '\n');
    let ghost ls = split_on(v@.subrange(0, n as int), '\n');
    assert(v@.subrange(0, n as int) == content@);
    let mut i: usize = 0;
    assert(ls.skip(0) =~= ls);
    while i < lines.len()
        invariant
            i <= lines@.len(),
            lines@.len() == ls.len(),
            n == v@.len(),
            forall|k: int| 0 <= k < lines@.len() ==> (#[trigger] lines@[k]).0 <= lines@[k].1 <= n
                && v@.subrange(lines@[k].0 as int, lines@[k].1 as int) == ls[k],
            shasum_in(ls, name@) == shasum_in(ls.skip(i as int), name@),
            ls == split_on(content@, '\n'),
        decreases lines@.len() - i,
    {
        let (a, b) = lines[i];
        let ws = word_ranges(&v, a, b);
        assert(v@.subrange(a as int, b as int) == ls[i as int]);
        assert(ls.skip(i as int)[0] == ls[i as int]);
        assert(ls.skip(i as int).drop_first() =~= ls.skip(i + 1));
        if ws.len() >= 2 {
            let (s1, e1) = ws[1];
            let second = chars_range_text(&v, s1, e1);
            if same_text(second.as_str(), name) {
                let (s0, e0) = ws[0];
                assert(words(ls[i as int])[1] == name@);
                assert(shasum_in(ls.skip(i as int), name@) == Some(words(ls[i as int])[0]));
                return Some(chars_range_text(&v, s0, e0));
            }
        }
        i = i + 1;
    }
    None
}

/// The download of a selected release: its archive URL, and the digest
/// that the checksum list gives for the archive, if any.
pub fn down_info_for(version_raw: &str, archive_suffix: &str, shasums: &str) -> (r: ToolDownInfo)
    ensures
        r.version@ == version_raw@,
        r.url@ == release_dir(version_raw@) + seq!['/'] + archive_name(version_raw@, archive_suffix@),
        r.hash.sha1 is None,
        match shasum_in(split_on(shasums@, '\n'), archive_name(version_raw@, archive_suffix@)) {
            Some(h) => r.hash.sha256 matches Some(x) && x@ == h,
            None => r.hash.sha256 is None,
        },
{
    proof {
        reveal_strlit("node-v");
        reveal_strlit("-");
        reveal_strlit("v");
        reveal_strlit("/");
    }
    let file_name = String::from_str("node-v").concat(version_raw).concat("-").concat(archive_suffix);
    assert(file_name@ =~= archive_name(version_raw@, archive_suffix@));
    let dir = String::from_str(BASE_URL).concat("v").concat(version_raw);
    assert(dir@ =~= release_dir(version_raw@));
    let sha256 = find_sha256(shasums, file_name.as_str());
    let url = dir.concat("/").concat(file_name.as_str());
    ToolDownInfo { version: version_raw.to_owned(), url, hash: FileHash { sha1: None, sha256 } }
}

/// A Node.js tool adapter: its metadata and the catalog's names for each platform.
pub struct Tool {
    pub info: ToolInfo,
    pub corresponding_file_dto_and_archive_suffix: Vec<(&'static str, &'static str)>,
}

impl Tool {
    pub open spec fn well_formed(&self) -> bool {
        self.info.all_platforms matches Some(p) && p@.len() == self.corresponding_file_dto_and_archive_suffix@.len()
    }

    /// The platform identifiers and, for each, the catalog file key and archive suffix.
    pub fn get_platforms_and_corresponding_file_dto_and_archive_suffix() -> (r: (Vec<String>, Vec<(&'static str, &'static str)>))
        ensures
            r.0@.len() == node_table().len(),
            r.1@.len() == node_table().len(),
            forall|i: int| 0 <= i < node_table().len() ==> (#[trigger] r.0@[i])@ == platform_text(
                node_table()[i].0@,
                node_table()[i].1@,
            ) && r.1@[i] == (node_table()[i].2, node_table()[i].3),
    {
        let rows = node_rows();
        split_table(&rows)
    }

    /// A Node.js adapter; `cpu` and `os` name the running machine, if known.
    pub fn new(cpu: Option<&str>, os: Option<&str>) -> (r: Tool)
        ensures
            r.well_formed(),
            r.info.name@ == "node"@,
            r.info.default_flavor is None,
            r.info.all_platforms->Some_0@.len() == node_table().len(),
            forall|i: int| 0 <= i < node_table().len() ==> (#[trigger] r.info.all_platforms->Some_0@[i])@ == platform_text(
                node_table()[i].0@,
                node_table()[i].1@,
            ) && r.corresponding_file_dto_and_archive_suffix@[i] == (node_table()[i].2, node_table()[i].3),
            string_opt_view(r.info.default_platform) == default_of(r.info.all_platforms->Some_0@, cpu, os),
            r.info.all_flavors is None,
    {
        let (all_platforms, corresponding_file_dto_and_archive_suffix) = Self::get_platforms_and_corresponding_file_dto_and_archive_suffix();
        let default_platform = default_platform(&all_platforms, cpu, os);
        Tool {
            info: ToolInfo {
                name: String::from_str("node"),
                about: String::from_str("Node.js JavaScript runtime"),
                after_long_help: None,
                all_platforms: Some(all_platforms),
                default_platform,
                all_flavors: None,
                default_flavor: None,
            },
            corresponding_file_dto_and_archive_suffix,
        }
    }

    /// The catalog file key and archive suffix for a platform identifier.
    pub fn get_file_dto_and_archive_suffix(&self, platform: &str) -> (r: Result<(&'static str, &'static str), ToolError>)
        requires
            self.well_formed(),
        ensures
            match r {
                Ok(names) => exists|i: int| 0 <= i < self.corresponding_file_dto_and_archive_suffix@.len()
                    && (#[trigger] self.info.all_platforms->Some_0@[i])@ == platform@
                    && self.corresponding_file_dto_and_archive_suffix@[i] == names,
                Err(e) => e == ToolError::UnsupportedPlatform && forall|i: int|
                    0 <= i < self.corresponding_file_dto_and_archive_suffix@.len() ==> (#[trigger] self.info.all_platforms->Some_0@[i])@ != platform@,
            },
    {
        match &self.info.all_platforms {
            Some(p) => match platform_index(p, platform) {
                Some(i) => Ok(self.corresponding_file_dto_and_archive_suffix[i]),
                None => Err(ToolError::UnsupportedPlatform),
            },
            None => Err(ToolError::UnsupportedPlatform),
        }
    }

    /// Installable versions for a platform, from a fetched catalog: the
    /// eligible releases, ascending, one per label.
    #[verifier::rlimit(60)]
    pub fn fetch_versions(&self, platform: Option<&str>, version_filter: &VersionFilter, releases: &Vec<NodeRelease>) -> (r: Result<Vec<Version>, ToolError>)
        requires
            self.well_formed(),
        ensures
            platform is None ==> r == Err::<Vec<Version>, ToolError>(ToolError::PlatformRequired),
            r is Ok ==> platform is Some,
            r matches Err(e) ==> match e {
                ToolError::PlatformRequired => platform is None,
                ToolError::UnsupportedPlatform => platform matches Some(p) && !in_table(self.info.all_platforms->Some_0@, p@),
                ToolError::InvalidMajorVersion => platform is Some && (version_filter.major_version matches Some(m) && u32_text(m@) is None),
                _ => false,
            },
            r matches Ok(vs) ==> exists|i: int| 0 <= i < self.corresponding_file_dto_and_archive_suffix@.len()
                && (#[trigger] self.info.all_platforms->Some_0@[i])@ == platform->Some_0@
                && versions_of(vs@, releases@, self.corresponding_file_dto_and_archive_suffix@[i].0@, parsed_filter(*version_filter)),
    {
        let platform = match platform {
            Some(p) => p,
            None => return Err(ToolError::PlatformRequired),
        };
        let (file_key, _) = self.get_file_dto_and_archive_suffix(platform)?;
        let filter = ReleaseFilter::from_filter(version_filter)?;
        let ghost pf = parsed_filter(*version_filter);
        assert forall|j: int| 0 <= j < releases@.len() implies eligible(#[trigger] releases@[j], file_key@, filter)
            == eligible(releases@[j], file_key@, pf) by {}
        let cands = node_candidates(releases, file_key, &filter);
        let sorted = sort_dedup(cands);
        let vs = to_versions(&sorted);
        proof {
            assert forall|a: int, b: int| 0 <= a < b < vs@.len() implies !key_lt(raw_key((#[trigger] vs@[b]).version@), raw_key((#[trigger] vs@[a]).version@)) by {
                assert(from_input(sorted@[a], cands@));
                assert(from_input(sorted@[b], cands@));
                let qa = choose|q: int| 0 <= q < cands@.len() && same_candidate(sorted@[a], #[trigger] cands@[q]);
                let qb = choose|q: int| 0 <= q < cands@.len() && same_candidate(sorted@[b], #[trigger] cands@[q]);
            }
            assert forall|a: int, b: int| 0 <= a < b < vs@.len() implies (#[trigger] vs@[a]).version@ != (#[trigger] vs@[b]).version@ by {
                assert(sorted@[a].raw@ != sorted@[b].raw@);
            }
            assert forall|k: int| 0 <= k < vs@.len() implies from_eligible(#[trigger] vs@[k], releases@, file_key@, pf) by {
                assert(from_input(sorted@[k], cands@));
                let q = choose|q: int| 0 <= q < cands@.len() && same_candidate(sorted@[k], #[trigger] cands@[q]);
                let j = cands@[q].source as int;
                assert(eligible(releases@[j], file_key@, pf));
                assert(vs@[k].version@ == node_raw(releases@[j].version@));
                assert(vs@[k].major_version@ == decimal_text(node_label(releases@[j].version@)->Some_0.major as nat));
            }
            assert forall|j: int| 0 <= j < releases@.len() && eligible(#[trigger] releases@[j], file_key@, pf) implies is_listed(vs@, releases@[j]) by {
                let q = choose|q: int| 0 <= q < cands@.len() && (#[trigger] cands@[q]).source == j;
                assert(has_raw(sorted@, cands@[q].raw@));
                let k = choose|k: int| 0 <= k < sorted@.len() && (#[trigger] sorted@[k]).raw@ == cands@[q].raw@;
                assert(vs@[k].version@ == node_raw(releases@[j].version@));
            }
        }
        Ok(vs)
    }

    /// The release to install for a platform, from a fetched catalog: the
    /// greatest eligible version (the last of equals, in catalog order), with
    /// the archive suffix of the platform.
    #[verifier::rlimit(60)]
    pub fn select_release(&self, platform: Option<&str>, version_filter: &VersionFilter, releases: &Vec<NodeRelease>) -> (r: Result<(String, &'static str), ToolError>)
        requires
            self.well_formed(),
        ensures
            platform is None ==> r == Err::<(String, &'static str), ToolError>(ToolError::PlatformRequired),
            r is Ok ==> platform is Some,
            r matches Err(e) ==> match e {
                ToolError::PlatformRequired => platform is None,
                ToolError::UnsupportedPlatform => platform matches Some(p) && !in_table(self.info.all_platforms->Some_0@, p@),
                ToolError::InvalidMajorVersion => platform is Some && (version_filter.major_version matches Some(m) && u32_text(m@) is None),
                ToolError::NoDownloadUrl => platform is Some,
                _ => false,
            },
            r matches Ok((raw, suffix)) ==> exists|i: int| 0 <= i < self.corresponding_file_dto_and_archive_suffix@.len()
                && (#[trigger] self.info.all_platforms->Some_0@[i])@ == platform->Some_0@
                && suffix == self.corresponding_file_dto_and_archive_suffix@[i].1
                && best_release(raw@, releases@, self.corresponding_file_dto_and_archive_suffix@[i].0@, parsed_filter(*version_filter)),
            r == Err::<(String, &'static str), ToolError>(ToolError::NoDownloadUrl) ==> exists|i: int| 0 <= i < self.corresponding_file_dto_and_archive_suffix@.len()
                && (#[trigger] self.info.all_platforms->Some_0@[i])@ == platform->Some_0@
                && forall|j: int| 0 <= j < releases@.len() ==> !eligible(#[trigger] releases@[j], self.corresponding_file_dto_and_archive_suffix@[i].0@, parsed_filter(*version_filter)),
    {
        let platform = match platform {
            Some(p) => p,
            None => return Err(ToolError::PlatformRequired),
        };
        let (file_key, suffix) = self.get_file_dto_and_archive_suffix(platform)?;
        let filter = ReleaseFilter::from_filter(version_filter)?;
        let ghost pf = parsed_filter(*version_filter);
        assert forall|j: int| 0 <= j < releases@.len() implies eligible(#[trigger] releases@[j], file_key@, filter)
            == eligible(releases@[j], file_key@, pf) by {}
        let cands = node_candidates(releases, file_key, &filter);
        match last_max_index(&cands) {
            None => {
                assert forall|j: int| 0 <= j < releases@.len() implies !eligible(#[trigger] releases@[j], file_key@, pf) by {
                    if eligible(releases@[j], file_key@, filter) {
                        let k = choose|k: int| 0 <= k < cands@.len() && (#[trigger] cands@[k]).source == j;
                    }
                }
                Err(ToolError::NoDownloadUrl)
            },
            Some(m) => {
                let raw = cands[m].raw.clone();
                proof {
                    let j = cands@[m as int].source as int;
                    assert forall|q: int| 0 <= q < releases@.len() && eligible(#[trigger] releases@[q], file_key@, pf)
                        implies !key_lt(raw_key(raw@), raw_key(node_raw(releases@[q].version@))) by {
                        let k = choose|k: int| 0 <= k < cands@.len() && (#[trigger] cands@[k]).source == q;
                        assert(!key_lt(cands@[m as int].key, cands@[k].key));
                    }
                    assert(eligible(releases@[j], file_key@, pf));
                }
                Ok((raw, suffix))
            },
        }
    }
}

/// `raw` is the label of a greatest eligible release.
pub open spec fn best_release(raw: Seq<char>, releases: Seq<NodeRelease>, file_key: Seq<char>, f: ReleaseFilter) -> bool {
    &&& exists|j: int| 0 <= j < releases.len() && eligible(#[trigger] releases[j], file_key, f) && raw == node_raw(releases[j].version@)
    &&& forall|q: int| 0 <= q < releases.len() && eligible(#[trigger] releases[q], file_key, f)
        ==> !key_lt(raw_key(raw), raw_key(node_raw(releases[q].version@)))
}

impl Tool {
    /// The executable inside an install, relative to its directory.
    pub fn exe_path(&self, windows: bool) -> (r: (&'static str, &'static str))
        ensures
            r.0@ == "bin"@,
            r.1@ == if windows { "node.exe"@ } else { "node"@ },
    {
        if windows {
            ("bin", "node.exe")
        } else {
            ("bin", "node")
        }
    }
}

} // verus!
