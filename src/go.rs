//! Go release labels: `goX[.Y[.Z]][betaN|rcN]`.
use vstd::prelude::*;
use crate::text::{
    chars_of, find_first, find_from, find_in, is_digit, lemma_decimal_reads_back, lemma_find_at, lemma_find_none,
    lemma_split_one, lemma_split_three, lemma_split_two, lemma_u32_text_of_decimal, parse_u32_range, split_on,
    split_ranges, u32_text,
};
use crate::version::{
    from_input, has_raw, key_lt, raws_distinct, same_candidate, sort_dedup, sorted_by_key,
    to_versions, last_max_index, Candidate, OrderKey, ReleaseFilter, ToolError, Version, VersionFilter,
};
use crate::text::{decimal, decimal_text, push_char, same_text};
use crate::platform::{cpu, os, default_of, default_platform, in_table, string_opt_view, platform_index, platform_text, split_table, PlatformRow};
use crate::tool::{ToolDownInfo, ToolInfo};
use crate::config::FileHash;

verus! {

/// Pre-release stage; a final release sorts after every pre-release.
#[derive(Clone, Copy, Debug, PartialEq, Eq, Structural)]
pub enum PreRelease {
    Beta(u32),
    Rc(u32),
    Final,
}

/// A parsed Go version.
#[derive(Clone, Copy, Debug, PartialEq, Eq, Structural)]
pub struct GoVersion {
    pub major: u32,
    pub minor: u32,
    pub patch: u32,
    pub pre_release: PreRelease,
}

/// A label that is not a Go version.
#[derive(Clone, Copy, Debug, PartialEq, Eq, Structural)]
pub struct GoVersionError;

impl GoVersion {
    /// Position in the release order: numbers first, then beta < rc < final.
    pub open spec fn key(self) -> OrderKey {
        let (d, e) = match self.pre_release {
            PreRelease::Beta(n) => (0u32, n),
            PreRelease::Rc(n) => (1u32, n),
            PreRelease::Final => (2u32, 0u32),
        };
        OrderKey { a: self.major, b: self.minor, c: self.patch, d, e }
    }

    pub fn order_key(&self) -> (r: OrderKey)
        ensures
            r == self.key(),
    {
        let (d, e) = match self.pre_release {
            PreRelease::Beta(n) => (0u32, n),
            PreRelease::Rc(n) => (1u32, n),
            PreRelease::Final => (2u32, 0u32),
        };
        OrderKey { a: self.major, b: self.minor, c: self.patch, d, e }
    }

    /// Writes the version as Go labels it, without the `go`: a zero patch
    /// is left out, and so is a zero minor when the patch is.
    pub fn to_text(&self) -> (r: String)
        ensures
            r@ == go_text(*self),
    {
        let mut t = decimal(self.major);
        if self.minor != 0 || self.patch != 0 {
            t = push_char(t, '.').concat(decimal(self.minor).as_str());
        }
        if self.patch != 0 {
            t = push_char(t, '.').concat(decimal(self.patch).as_str());
        }
        assert(t@ =~= go_main_text(*self));
        proof {
            reveal_strlit("beta");
            reveal_strlit("rc");
        }
        let r = match self.pre_release {
            PreRelease::Beta(n) => t.concat("beta").concat(decimal(n).as_str()),
            PreRelease::Rc(n) => t.concat("rc").concat(decimal(n).as_str()),
            PreRelease::Final => t,
        };
        assert(r@ =~= go_text(*self));
        r
    }

    /// Only final releases count as long-term.
    pub fn is_lts(&self) -> (r: bool)
        ensures
            r == (self.pre_release == PreRelease::Final),
    {
        match self.pre_release {
            PreRelease::Final => true,
            _ => false,
        }
    }
}

/// Two Go versions with the same order key are the same version, so the
/// order on versions is total and antisymmetric.
pub proof fn lemma_go_order_total(x: GoVersion, y: GoVersion)
    ensures
        key_lt(x.key(), y.key()) || key_lt(y.key(), x.key()) || x == y,
        !(key_lt(x.key(), y.key()) && key_lt(y.key(), x.key())),
        !key_lt(x.key(), x.key()),
{
}

/// For every number: beta N < rc N < final, at the same major, minor and patch.
pub proof fn lemma_go_prerelease_order(major: u32, minor: u32, patch: u32, n: u32)
    ensures
        key_lt(
            GoVersion { major, minor, patch, pre_release: PreRelease::Beta(n) }.key(),
            GoVersion { major, minor, patch, pre_release: PreRelease::Rc(n) }.key(),
        ),
        key_lt(
            GoVersion { major, minor, patch, pre_release: PreRelease::Rc(n) }.key(),
            GoVersion { major, minor, patch, pre_release: PreRelease::Final }.key(),
        ),
{
}

/// Part `k` of a split label as a number; a missing part reads as zero.
pub open spec fn part_or_zero(parts: Seq<Seq<char>>, k: int) -> Option<u32> {
    if k < parts.len() {
        u32_text(parts[k])
    } else {
        Some(0)
    }
}

/// The numeric head `X[.Y[.Z]]` with the given stage.
pub open spec fn go_numbers(main: Seq<char>, pre: PreRelease) -> Option<GoVersion> {
    let parts = split_on(main, '.');
    if parts.len() <= 3 && part_or_zero(parts, 0) is Some && part_or_zero(parts, 1) is Some
        && part_or_zero(parts, 2) is Some {
        Some(
            GoVersion {
                major: part_or_zero(parts, 0)->Some_0,
                minor: part_or_zero(parts, 1)->Some_0,
                patch: part_or_zero(parts, 2)->Some_0,
                pre_release: pre,
            },
        )
    } else {
        None
    }
}

/// The head and stage of the label after `go`: the tail after the first
/// `beta` (else the first `rc`) must be a number.
pub open spec fn go_body(raw: Seq<char>) -> Option<GoVersion> {
    match find_first(raw, seq!['b', 'e', 't', 'a']) {
        Some(i) => match u32_text(raw.skip(i + 4)) {
            Some(n) => go_numbers(raw.take(i), PreRelease::Beta(n)),
            None => None,
        },
        None => match find_first(raw, seq!['r', 'c']) {
            Some(i) => match u32_text(raw.skip(i + 2)) {
                Some(n) => go_numbers(raw.take(i), PreRelease::Rc(n)),
                None => None,
            },
            None => go_numbers(raw, PreRelease::Final),
        },
    }
}

/// A Go label: `go`, then a non-empty body.
pub open spec fn go_label(s: Seq<char>) -> Option<GoVersion> {
    if s.len() > 2 && s[0] == 'g' && s[1] == 'o' {
        go_body(s.skip(2))
    } else {
        None
    }
}

/// The numbers of a version, leaving out a zero patch, and a zero minor
/// when the patch is left out too.
pub open spec fn go_main_text(v: GoVersion) -> Seq<char> {
    decimal_text(v.major as nat) + (if v.minor != 0 || v.patch != 0 {
        seq!['.'] + decimal_text(v.minor as nat)
    } else {
        Seq::empty()
    }) + (if v.patch != 0 {
        seq!['.'] + decimal_text(v.patch as nat)
    } else {
        Seq::empty()
    })
}

/// A version as Go labels it, without the `go`.
pub open spec fn go_text(v: GoVersion) -> Seq<char> {
    go_main_text(v) + match v.pre_release {
        PreRelease::Beta(n) => seq!['b', 'e', 't', 'a'] + decimal_text(n as nat),
        PreRelease::Rc(n) => seq!['r', 'c'] + decimal_text(n as nat),
        PreRelease::Final => Seq::empty(),
    }
}

proof fn lemma_main_chars(v: GoVersion)
    ensures
        forall|i: int| 0 <= i < go_main_text(v).len() ==> is_digit(#[trigger] go_main_text(v)[i]) || go_main_text(v)[i] == '.',
        go_numbers(go_main_text(v), v.pre_release) == Some(v),
{
    let a = decimal_text(v.major as nat);
    let b = decimal_text(v.minor as nat);
    let c = decimal_text(v.patch as nat);
    lemma_decimal_reads_back(v.major as nat);
    lemma_decimal_reads_back(v.minor as nat);
    lemma_decimal_reads_back(v.patch as nat);
    lemma_u32_text_of_decimal(v.major);
    lemma_u32_text_of_decimal(v.minor);
    lemma_u32_text_of_decimal(v.patch);
    let m = go_main_text(v);
    if v.patch != 0 {
        assert(m =~= a + seq!['.'] + b + seq!['.'] + c);
        lemma_split_three(a, b, c, '.');
    } else if v.minor != 0 {
        assert(m =~= a + seq!['.'] + b);
        lemma_split_two(a, b, '.');
    } else {
        assert(m =~= a);
        lemma_split_one(a, '.');
    }
    assert forall|i: int| 0 <= i < m.len() implies is_digit(#[trigger] m[i]) || m[i] == '.' by {
        if v.patch != 0 {
            assert(m =~= a + seq!['.'] + b + seq!['.'] + c);
            if i >= a.len() + 1 + b.len() + 1 {
                assert(m[i] == c[i - a.len() - b.len() - 2]);
            } else if i >= a.len() + 1 && i < a.len() + 1 + b.len() {
                assert(m[i] == b[i - a.len() - 1]);
            } else if i < a.len() {
                assert(m[i] == a[i]);
            }
        } else if v.minor != 0 {
            assert(m =~= a + seq!['.'] + b);
            if i >= a.len() + 1 {
                assert(m[i] == b[i - a.len() - 1]);
            } else if i < a.len() {
                assert(m[i] == a[i]);
            }
        } else {
            assert(m[i] == a[i]);
        }
    }
}

/// Writing a version as a Go label and parsing it again gives the same
/// version, and the parsed label is the written text.
pub proof fn lemma_go_round_trip(v: GoVersion)
    ensures
        go_label(seq!['g', 'o'] + go_text(v)) == Some(v),
        (seq!['g', 'o'] + go_text(v)).skip(2) == go_text(v),
{
    let m = go_main_text(v);
    let raw = go_text(v);
    let beta = seq!['b', 'e', 't', 'a'];
    let rc = seq!['r', 'c'];
    lemma_main_chars(v);
    assert((seq!['g', 'o'] + raw).skip(2) =~= raw);
    assert(raw.len() > 0) by {
        lemma_decimal_reads_back(v.major as nat);
    }
    match v.pre_release {
        PreRelease::Beta(n) => {
            let d = decimal_text(n as nat);
            lemma_decimal_reads_back(n as nat);
            lemma_u32_text_of_decimal(n);
            assert(raw =~= m + beta + d);
            assert(raw.subrange(m.len() as int, m.len() as int + 4) =~= beta);
            assert forall|j: int| 0 <= j < m.len() implies #[trigger] raw[j] != beta[0] by {
                assert(raw[j] == m[j]);
            }
            lemma_find_at(raw, beta, 0, m.len() as int);
            assert(raw.skip(m.len() as int + 4) =~= d);
            assert(raw.take(m.len() as int) =~= m);
        },
        PreRelease::Rc(n) => {
            let d = decimal_text(n as nat);
            lemma_decimal_reads_back(n as nat);
            lemma_u32_text_of_decimal(n);
            assert(raw =~= m + rc + d);
            assert forall|j: int| 0 <= j < raw.len() implies #[trigger] raw[j] != beta[0] by {
                if j < m.len() {
                    assert(raw[j] == m[j]);
                } else if j >= m.len() + 2 {
                    assert(raw[j] == d[j - m.len() - 2]);
                }
            }
            lemma_find_none(raw, beta, 0);
            assert(raw.subrange(m.len() as int, m.len() as int + 2) =~= rc);
            assert forall|j: int| 0 <= j < m.len() implies #[trigger] raw[j] != rc[0] by {
                assert(raw[j] == m[j]);
            }
            lemma_find_at(raw, rc, 0, m.len() as int);
            assert(raw.skip(m.len() as int + 2) =~= d);
            assert(raw.take(m.len() as int) =~= m);
        },
        PreRelease::Final => {
            assert(raw =~= m);
            assert forall|j: int| 0 <= j < raw.len() implies #[trigger] raw[j] != beta[0] && raw[j] != rc[0] by {
                assert(raw[j] == m[j]);
            }
            lemma_find_none(raw, beta, 0);
            lemma_find_none(raw, rc, 0);
        },
    }
}

/// On labels: for a release label `x`, the labels `x` + `betaN`, `x` + `rcN`
/// and `x` parse to versions ordered beta < rc < final, and within one stage
/// a smaller number comes first.
pub proof fn lemma_go_label_order(major: u32, minor: u32, patch: u32, n: u32, m: u32)
    ensures
        ({
            let b = GoVersion { major, minor, patch, pre_release: PreRelease::Beta(n) };
            let r = GoVersion { major, minor, patch, pre_release: PreRelease::Rc(n) };
            let f = GoVersion { major, minor, patch, pre_release: PreRelease::Final };
            &&& go_label(seq!['g', 'o'] + go_text(b)) == Some(b)
            &&& go_label(seq!['g', 'o'] + go_text(r)) == Some(r)
            &&& go_label(seq!['g', 'o'] + go_text(f)) == Some(f)
            &&& go_text(b) == go_main_text(f) + seq!['b', 'e', 't', 'a'] + decimal_text(n as nat)
            &&& go_text(r) == go_main_text(f) + seq!['r', 'c'] + decimal_text(n as nat)
            &&& key_lt(b.key(), r.key()) && key_lt(r.key(), f.key())
            &&& n < m ==> key_lt(b.key(), GoVersion { major, minor, patch, pre_release: PreRelease::Beta(m) }.key())
            &&& n < m ==> key_lt(r.key(), GoVersion { major, minor, patch, pre_release: PreRelease::Rc(m) }.key())
        }),
{
    let b = GoVersion { major, minor, patch, pre_release: PreRelease::Beta(n) };
    let r = GoVersion { major, minor, patch, pre_release: PreRelease::Rc(n) };
    let f = GoVersion { major, minor, patch, pre_release: PreRelease::Final };
    lemma_go_round_trip(b);
    lemma_go_round_trip(r);
    lemma_go_round_trip(f);
    lemma_go_prerelease_order(major, minor, patch, n);
}

proof fn lemma_find_bounds(s: Seq<char>, pat: Seq<char>, i: int)
    ensures
        find_from(s, pat, i) matches Some(k) ==> i <= k && k + pat.len() <= s.len(),
    decreases s.len() + 1 - i,
{
    if !(i < 0 || i + pat.len() > s.len()) && s.subrange(i, i + pat.len()) != pat {
        lemma_find_bounds(s, pat, i + 1);
    }
}

fn parse_numbers(v: &Vec<char>, lo: usize, hi: usize, pre: PreRelease) -> (r: Option<GoVersion>)
    requires
        lo <= hi <= v@.len(),
    ensures
        r == go_numbers(v@.subrange(lo as int, hi as int), pre),
{
    let ghost parts = split_on(v@.subrange(lo as int, hi as int), '.');
    let ranges = split_ranges(v, lo, hi, '.');
    proof {
        crate::text::lemma_split_nonempty(v@.subrange(lo as int, hi as int), '.');
    }
    if ranges.len() > 3 {
        return None;
    }
    let major = match parse_u32_range(v, ranges[0].0, ranges[0].1) {
        Some(x) => x,
        None => return None,
    };
    let mut minor: u32 = 0;
    if ranges.len() >= 2 {
        minor = match parse_u32_range(v, ranges[1].0, ranges[1].1) {
            Some(x) => x,
            None => return None,
        };
    }
    let mut patch: u32 = 0;
    if ranges.len() >= 3 {
        patch = match parse_u32_range(v, ranges[2].0, ranges[2].1) {
            Some(x) => x,
            None => return None,
        };
    }
    Some(GoVersion { major, minor, patch, pre_release: pre })
}

/// Parses a Go label, returning the part after `go` and the parsed version.
pub fn parse_go_version(s: &str) -> (r: Result<(&str, GoVersion), GoVersionError>)
    ensures
        match go_label(s@) {
            Some(g) => r matches Ok((raw, v)) && raw@ == s@.skip(2) && v == g,
            None => r is Err,
        },
{
    let v = chars_of(s);
    let n = v.len();
    if n <= 2 || v[0] != 'g' || v[1] != 'o' {
        return Err(GoVersionError);
    }
    let ghost raw = s@.skip(2);
    assert(raw == v@.subrange(2, n as int));
    let beta = vec!['b', 'e', 't', 'a'];
    let rc = vec!['r', 'c'];
    assert(beta@ == seq!['b', 'e', 't', 'a']);
    assert(rc@ == seq!['r', 'c']);
    let parsed = match find_in(&v, 2, n, &beta) {
        Some(i) => {
            proof {
                lemma_find_bounds(raw, beta@, 0);
                assert(raw.skip(i - 2 + 4) == v@.subrange(i + 4, n as int));
                assert(raw.take(i - 2) == v@.subrange(2, i as int));
            }
            match parse_u32_range(&v, i + 4, n) {
                Some(k) => parse_numbers(&v, 2, i, PreRelease::Beta(k)),
                None => None,
            }
        },
        None => match find_in(&v, 2, n, &rc) {
            Some(i) => {
                proof {
                    lemma_find_bounds(raw, rc@, 0);
                    assert(raw.skip(i - 2 + 2) == v@.subrange(i + 2, n as int));
                    assert(raw.take(i - 2) == v@.subrange(2, i as int));
                }
                match parse_u32_range(&v, i + 2, n) {
                    Some(k) => parse_numbers(&v, 2, i, PreRelease::Rc(k)),
                    None => None,
                }
            },
            None => parse_numbers(&v, 2, n, PreRelease::Final),
        },
    };
    match parsed {
        Some(g) => Ok((s.substring_char(2, n), g)),
        None => Err(GoVersionError),
    }
}


pub const BASE_URL: &'static str = "https://golang.org/dl/";

/// Platforms Go publishes archives for, with Go's `arch` and `os` names.
pub open spec fn go_table() -> Seq<PlatformRow> {
    seq![
            (cpu::X86, os::LINUX, "386", "linux"),
            (cpu::X64, os::LINUX, "amd64", "linux"),
            (cpu::ARM64, os::LINUX, "arm64", "linux"),
            (cpu::ARMV6L, os::LINUX, "armv6l", "linux"),
            (cpu::LOONG64, os::LINUX, "loong64", "linux"),
            (cpu::MIPS32, os::LINUX, "mips", "linux"),
            (cpu::MIPS64, os::LINUX, "mips64", "linux"),
            (cpu::MIPS64LE, os::LINUX, "mips64le", "linux"),
            (cpu::MIPS32LE, os::LINUX, "mipsle", "linux"),
            (cpu::PPC64, os::LINUX, "ppc64", "linux"),
            (cpu::PPC64LE, os::LINUX, "ppc64le", "linux"),
            (cpu::RISCV64, os::LINUX, "riscv64", "linux"),
            (cpu::S390X, os::LINUX, "s390x", "linux"),
            (cpu::X86, os::WIN, "386", "windows"),
            (cpu::X64, os::WIN, "amd64", "windows"),
            (cpu::ARM32, os::WIN, "arm", "windows"),
            (cpu::ARM64, os::WIN, "arm64", "windows"),
            (cpu::ARMV6L, os::WIN, "armv6l", "windows"),
            (cpu::X86, os::MAC, "386", "darwin"),
            (cpu::X64, os::MAC, "amd64", "darwin"),
            (cpu::ARM64, os::MAC, "arm64", "darwin"),
            (cpu::X86, os::FREEBSD, "386", "freebsd"),
            (cpu::X64, os::FREEBSD, "amd64", "freebsd"),
            (cpu::ARM32, os::FREEBSD, "arm", "freebsd"),
            (cpu::ARM64, os::FREEBSD, "arm64", "freebsd"),
            (cpu::ARMV6L, os::FREEBSD, "armv6l", "freebsd"),
            (cpu::RISCV64, os::FREEBSD, "riscv64", "freebsd"),
            (cpu::PPC64, os::AIX, "ppc64", "aix"),
            (cpu::X64, os::DRAGONFLYBSD, "amd64", "dragonfly"),
            (cpu::X64, os::ILLUMOS, "amd64", "illumos"),
            (cpu::X86, os::NETBSD, "386", "netbsd"),
            (cpu::X64, os::NETBSD, "amd64", "netbsd"),
            (cpu::ARM32, os::NETBSD, "arm", "netbsd"),
            (cpu::ARM64, os::NETBSD, "arm64", "netbsd"),
            (cpu::ARMV6L, os::NETBSD, "armv6l", "netbsd"),
            (cpu::X86, os::OPENBSD, "386", "openbsd"),
            (cpu::X64, os::OPENBSD, "amd64", "openbsd"),
            (cpu::ARM32, os::OPENBSD, "arm", "openbsd"),
            (cpu::ARM64, os::OPENBSD, "arm64", "openbsd"),
            (cpu::ARMV6L, os::OPENBSD, "armv6l", "openbsd"),
            (cpu::PPC64, os::OPENBSD, "ppc64", "openbsd"),
            (cpu::RISCV64, os::OPENBSD, "riscv64", "openbsd"),
            (cpu::X86, os::PLAN9, "386", "plan9"),
            (cpu::X64, os::PLAN9, "amd64", "plan9"),
            (cpu::ARM32, os::PLAN9, "arm", "plan9"),
            (cpu::ARMV6L, os::PLAN9, "armv6l", "plan9"),
            (cpu::X64, os::SOLARIS, "amd64", "solaris"),
        ]
}

fn go_rows() -> (r: Vec<PlatformRow>)
    ensures
        r@ == go_table(),
{
    vec![
            (cpu::X86, os::LINUX, "386", "linux"),
            (cpu::X64, os::LINUX, "amd64", "linux"),
            (cpu::ARM64, os::LINUX, "arm64", "linux"),
            (cpu::ARMV6L, os::LINUX, "armv6l", "linux"),
            (cpu::LOONG64, os::LINUX, "loong64", "linux"),
            (cpu::MIPS32, os::LINUX, "mips", "linux"),
            (cpu::MIPS64, os::LINUX, "mips64", "linux"),
            (cpu::MIPS64LE, os::LINUX, "mips64le", "linux"),
            (cpu::MIPS32LE, os::LINUX, "mipsle", "linux"),
            (cpu::PPC64, os::LINUX, "ppc64", "linux"),
            (cpu::PPC64LE, os::LINUX, "ppc64le", "linux"),
            (cpu::RISCV64, os::LINUX, "riscv64", "linux"),
            (cpu::S390X, os::LINUX, "s390x", "linux"),
            (cpu::X86, os::WIN, "386", "windows"),
            (cpu::X64, os::WIN, "amd64", "windows"),
            (cpu::ARM32, os::WIN, "arm", "windows"),
            (cpu::ARM64, os::WIN, "arm64", "windows"),
            (cpu::ARMV6L, os::WIN, "armv6l", "windows"),
            (cpu::X86, os::MAC, "386", "darwin"),
            (cpu::X64, os::MAC, "amd64", "darwin"),
            (cpu::ARM64, os::MAC, "arm64", "darwin"),
            (cpu::X86, os::FREEBSD, "386", "freebsd"),
            (cpu::X64, os::FREEBSD, "amd64", "freebsd"),
            (cpu::ARM32, os::FREEBSD, "arm", "freebsd"),
            (cpu::ARM64, os::FREEBSD, "arm64", "freebsd"),
            (cpu::ARMV6L, os::FREEBSD, "armv6l", "freebsd"),
            (cpu::RISCV64, os::FREEBSD, "riscv64", "freebsd"),
            (cpu::PPC64, os::AIX, "ppc64", "aix"),
            (cpu::X64, os::DRAGONFLYBSD, "amd64", "dragonfly"),
            (cpu::X64, os::ILLUMOS, "amd64", "illumos"),
            (cpu::X86, os::NETBSD, "386", "netbsd"),
            (cpu::X64, os::NETBSD, "amd64", "netbsd"),
            (cpu::ARM32, os::NETBSD, "arm", "netbsd"),
            (cpu::ARM64, os::NETBSD, "arm64", "netbsd"),
            (cpu::ARMV6L, os::NETBSD, "armv6l", "netbsd"),
            (cpu::X86, os::OPENBSD, "386", "openbsd"),
            (cpu::X64, os::OPENBSD, "amd64", "openbsd"),
            (cpu::ARM32, os::OPENBSD, "arm", "openbsd"),
            (cpu::ARM64, os::OPENBSD, "arm64", "openbsd"),
            (cpu::ARMV6L, os::OPENBSD, "armv6l", "openbsd"),
            (cpu::PPC64, os::OPENBSD, "ppc64", "openbsd"),
            (cpu::RISCV64, os::OPENBSD, "riscv64", "openbsd"),
            (cpu::X86, os::PLAN9, "386", "plan9"),
            (cpu::X64, os::PLAN9, "amd64", "plan9"),
            (cpu::ARM32, os::PLAN9, "arm", "plan9"),
            (cpu::ARMV6L, os::PLAN9, "armv6l", "plan9"),
            (cpu::X64, os::SOLARIS, "amd64", "solaris"),
    ]
}

/// One downloadable file of a Go release.
pub struct GoFile {
    pub filename: String,
    pub os: String,
    pub arch: String,
    pub sha256: String,
    pub kind: String,
}

/// One release of the Go catalog.
pub struct GoRelease {
    pub version: String,
    pub files: Vec<GoFile>,
}

pub open spec fn file_matches(f: GoFile, cpu: Seq<char>, os: Seq<char>) -> bool {
    f.os@ == os && f.arch@ == cpu && f.kind@ == "archive"@
}

impl GoFile {
    /// An archive for the given upstream `arch` and `os`.
    pub fn matches(&self, cpu: &str, os: &str) -> (r: bool)
        ensures
            r == file_matches(*self, cpu@, os@),
    {
        same_text(self.os.as_str(), os) && same_text(self.arch.as_str(), cpu) && same_text(
            self.kind.as_str(),
            "archive",
        )
    }
}

/// Position of the first archive of `r` for the platform.
pub open spec fn first_match(files: Seq<GoFile>, cpu: Seq<char>, os: Seq<char>, i: int) -> bool {
    0 <= i < files.len() && file_matches(files[i], cpu, os) && forall|k: int|
        0 <= k < i ==> !file_matches(#[trigger] files[k], cpu, os)
}

pub open spec fn has_match(files: Seq<GoFile>, cpu: Seq<char>, os: Seq<char>) -> bool {
    exists|i: int| 0 <= i < files.len() && file_matches(#[trigger] files[i], cpu, os)
}

fn find_file(files: &Vec<GoFile>, cpu: &str, os: &str) -> (r: Option<usize>)
    ensures
        match r {
            Some(i) => first_match(files@, cpu@, os@, i as int),
            None => !has_match(files@, cpu@, os@),
        },
{
    let mut i: usize = 0;
    while i < files.len()
        invariant
            i <= files@.len(),
            forall|k: int| 0 <= k < i ==> !file_matches(#[trigger] files@[k], cpu@, os@),
        decreases files@.len() - i,
    {
        if files[i].matches(cpu, os) {
            return Some(i);
        }
        i = i + 1;
    }
    None
}

/// Whether a catalog release is offered for the platform and passes the filter.
pub open spec fn eligible(r: GoRelease, cpu: Seq<char>, os: Seq<char>, f: ReleaseFilter) -> bool {
    &&& has_match(r.files@, cpu, os)
    &&& go_label(r.version@) matches Some(v)
    &&& f.admits_release(r.version@.skip(2), v.major, v.pre_release == PreRelease::Final)
}

/// The filter a request asks for, its major version read as a number.
pub open spec fn parsed_filter(vf: VersionFilter) -> ReleaseFilter {
    ReleaseFilter {
        lts_only: vf.lts_only,
        major_version: match vf.major_version {
            Some(m) => u32_text(m@),
            None => None,
        },
        exact_version: vf.exact_version,
    }
}

/// The order key of a label given without its `go`.
pub open spec fn raw_key(raw: Seq<char>) -> OrderKey {
    go_label(seq!['g', 'o'] + raw)->Some_0.key()
}

/// The candidate an eligible release becomes.
pub open spec fn candidate_of(c: Candidate, r: GoRelease) -> bool {
    let v = go_label(r.version@)->Some_0;
    &&& c.raw@ == r.version@.skip(2)
    &&& c.key == v.key()
    &&& c.major == v.major
    &&& c.is_lts == (v.pre_release == PreRelease::Final)
}

/// The eligible releases of a catalog as candidates, in catalog order.
pub fn go_candidates(releases: &Vec<GoRelease>, cpu: &str, os: &str, filter: &ReleaseFilter) -> (r: Vec<Candidate>)
    ensures
        forall|k: int| 0 <= k < r@.len() ==> (#[trigger] r@[k]).source < releases@.len() && eligible(
            releases@[r@[k].source as int], cpu@, os@, *filter) && candidate_of(r@[k], releases@[r@[k].source as int]),
        forall|j: int| 0 <= j < releases@.len() && eligible(#[trigger] releases@[j], cpu@, os@, *filter)
            ==> exists|k: int| 0 <= k < r@.len() && (#[trigger] r@[k]).source == j,
        forall|a: int, b: int| 0 <= a < b < r@.len() ==> (#[trigger] r@[a]).source < (#[trigger] r@[b]).source,
{
    let mut out: Vec<Candidate> = Vec::new();
    let mut i: usize = 0;
    while i < releases.len()
        invariant
            i <= releases@.len(),
            forall|k: int| 0 <= k < out@.len() ==> (#[trigger] out@[k]).source < i && eligible(
                releases@[out@[k].source as int], cpu@, os@, *filter) && candidate_of(out@[k], releases@[out@[k].source as int]),
            forall|j: int| 0 <= j < i && eligible(#[trigger] releases@[j], cpu@, os@, *filter)
                ==> exists|k: int| 0 <= k < out@.len() && (#[trigger] out@[k]).source == j,
            forall|a: int, b: int| 0 <= a < b < out@.len() ==> (#[trigger] out@[a]).source < (#[trigger] out@[b]).source,
        decreases releases@.len() - i,
    {
        let rel = &releases[i];
        let ghost before = out@;
        let mut pushed = false;
        if find_file(&rel.files, cpu, os).is_some() {
            if let Ok((raw, v)) = parse_go_version(rel.version.as_str()) {
                let lts = v.is_lts();
                if filter.matches(raw, v.major, lts) {
                    out.push(Candidate { raw: raw.to_owned(), key: v.order_key(), major: v.major, is_lts: lts, source: i });
                    pushed = true;
                }
            }
        }
        assert(pushed ==> out@ == before.push(out@[before.len() as int]) && out@[before.len() as int].source == i);
        assert(!pushed ==> out@ == before && !eligible(releases@[i as int], cpu@, os@, *filter));
        assert forall|j: int| 0 <= j < i + 1 && eligible(#[trigger] releases@[j], cpu@, os@, *filter)
            implies exists|k: int| 0 <= k < out@.len() && (#[trigger] out@[k]).source == j by {
            if j < i {
                let k0 = choose|k: int| 0 <= k < before.len() && (#[trigger] before[k]).source == j;
                assert(out@[k0] == before[k0]);
            } else {
                assert(out@[before.len() as int].source == j);
            }
        }
        i = i + 1;
    }
    out
}

/// A Go tool adapter: its metadata and Go's names for each platform.
pub struct Tool {
    pub info: ToolInfo,
    pub corresponding_dto_cpu_os: Vec<(&'static str, &'static str)>,
}

impl Tool {
    pub open spec fn well_formed(&self) -> bool {
        self.info.all_platforms matches Some(p) && p@.len() == self.corresponding_dto_cpu_os@.len()
    }

    /// The platform identifiers and Go's `(arch, os)` for each, position by position.
    pub fn get_platforms_and_corresponding_dto_cpu_os() -> (r: (Vec<String>, Vec<(&'static str, &'static str)>))
        ensures
            r.0@.len() == go_table().len(),
            r.1@.len() == go_table().len(),
            forall|i: int| 0 <= i < go_table().len() ==> (#[trigger] r.0@[i])@ == platform_text(
                go_table()[i].0@,
                go_table()[i].1@,
            ) && r.1@[i] == (go_table()[i].2, go_table()[i].3),
    {
        let rows = go_rows();
        split_table(&rows)
    }

    /// A Go adapter; `cpu` and `os` name the running machine, if known.
    pub fn new(cpu: Option<&str>, os: Option<&str>) -> (r: Tool)
        ensures
            r.well_formed(),
            r.info.name@ == "go"@,
            r.info.all_platforms->Some_0@.len() == go_table().len(),
            forall|i: int| 0 <= i < go_table().len() ==> (#[trigger] r.info.all_platforms->Some_0@[i])@ == platform_text(
                go_table()[i].0@,
                go_table()[i].1@,
            ) && r.corresponding_dto_cpu_os@[i] == (go_table()[i].2, go_table()[i].3),
            string_opt_view(r.info.default_platform) == default_of(r.info.all_platforms->Some_0@, cpu, os),
            r.info.all_flavors is None,
            r.info.default_flavor is None,
    {
        let (all_platforms, corresponding_dto_cpu_os) = Self::get_platforms_and_corresponding_dto_cpu_os();
        let default_platform = default_platform(&all_platforms, cpu, os);
        Tool {
            info: ToolInfo {
                name: String::from_str("go"),
                about: String::from_str("Go programming language"),
                after_long_help: None,
                all_platforms: Some(all_platforms),
                default_platform,
                all_flavors: None,
                default_flavor: None,
            },
            corresponding_dto_cpu_os,
        }
    }

    pub fn info(&self) -> (r: &ToolInfo)
        ensures
            r == &self.info,
    {
        &self.info
    }

    /// Go's `(arch, os)` for a platform identifier.
    pub fn get_dto_cpu_os(&self, platform: &str) -> (r: Result<(&'static str, &'static str), ToolError>)
        requires
            self.well_formed(),
        ensures
            match r {
                Ok(names) => exists|i: int| 0 <= i < self.corresponding_dto_cpu_os@.len()
                    && (#[trigger] self.info.all_platforms->Some_0@[i])@ == platform@
                    && self.corresponding_dto_cpu_os@[i] == names,
                Err(e) => e == ToolError::UnsupportedPlatform && forall|i: int|
                    0 <= i < self.corresponding_dto_cpu_os@.len() ==> (#[trigger] self.info.all_platforms->Some_0@[i])@ != platform@,
            },
    {
        match &self.info.all_platforms {
            Some(p) => match platform_index(p, platform) {
                Some(i) => Ok(self.corresponding_dto_cpu_os[i]),
                None => Err(ToolError::UnsupportedPlatform),
            },
            None => Err(ToolError::UnsupportedPlatform),
        }
    }

    /// Installable versions for a platform, from a fetched catalog: the
    /// eligible releases, ascending, one per label.
    #[verifier::rlimit(60)]
    pub fn fetch_versions(&self, platform: Option<&str>, version_filter: &VersionFilter, releases: &Vec<GoRelease>) -> (r: Result<Vec<Version>, ToolError>)
        requires
            self.well_formed(),
        ensures
            platform is None ==> r == Err::<Vec<Version>, ToolError>(ToolError::PlatformRequired),
            r is Ok ==> platform is Some,
            r matches Err(e) ==> match e {
                ToolError::PlatformRequired => platform is None,
                ToolError::UnsupportedPlatform => platform matches Some(p) && !in_table(self.info.all_platforms->Some_0@, p@),
                ToolError::InvalidMajorVersion => platform is Some && (version_filter.major_version matches Some(m) && u32_text(m@) is None),
                _ => false,
            },
            r matches Ok(vs) ==> exists|i: int| 0 <= i < self.corresponding_dto_cpu_os@.len()
                && (#[trigger] self.info.all_platforms->Some_0@[i])@ == platform->Some_0@
                && versions_of(vs@, releases@, self.corresponding_dto_cpu_os@[i].0@, self.corresponding_dto_cpu_os@[i].1@, parsed_filter(*version_filter)),
    {
        let platform = match platform {
            Some(p) => p,
            None => return Err(ToolError::PlatformRequired),
        };
        let (cpu, os) = self.get_dto_cpu_os(platform)?;
        let filter = ReleaseFilter::from_filter(version_filter)?;
        let cands = go_candidates(releases, cpu, os, &filter);
        let sorted = sort_dedup(cands);
        let vs = to_versions(&sorted);
        proof {
            lemma_versions_of(vs@, sorted@, cands@, releases@, cpu@, os@, filter);
            let pf = parsed_filter(*version_filter);
            assert forall|j: int| 0 <= j < releases@.len() implies eligible(#[trigger] releases@[j], cpu@, os@, filter)
                == eligible(releases@[j], cpu@, os@, pf) by {}
            assert forall|k: int| 0 <= k < vs@.len() implies from_eligible(#[trigger] vs@[k], releases@, cpu@, os@, pf) by {
                assert(from_eligible(vs@[k], releases@, cpu@, os@, filter));
                let j = choose|j: int| 0 <= j < releases@.len() && eligible(releases@[j], cpu@, os@, filter) && vs@[k].version@ == (#[trigger] releases@[j]).version@.skip(2)
                    && vs@[k].major_version@ == decimal_text(go_label(releases@[j].version@)->Some_0.major as nat)
                    && vs@[k].is_lts == (go_label(releases@[j].version@)->Some_0.pre_release == PreRelease::Final);
                assert(eligible(releases@[j], cpu@, os@, pf));
            }
        }
        Ok(vs)
    }
}

/// The download URL of an archive: the base, which ends in `/`, then the file name.
pub open spec fn go_url(filename: Seq<char>) -> Seq<char> {
    BASE_URL@ + filename
}

/// `info` describes a greatest eligible release and its first archive for
/// the platform.
pub open spec fn best_release_info(info: ToolDownInfo, releases: Seq<GoRelease>, cpu: Seq<char>, os: Seq<char>, f: ReleaseFilter) -> bool {
    exists|j: int, fi: int| #![trigger releases[j].files@[fi]]
        0 <= j < releases.len() && eligible(releases[j], cpu, os, f)
        && info.version@ == releases[j].version@.skip(2)
        && (forall|q: int| 0 <= q < releases.len() && eligible(#[trigger] releases[q], cpu, os, f)
            ==> !key_lt(raw_key(releases[j].version@.skip(2)), raw_key(releases[q].version@.skip(2))))
        && first_match(releases[j].files@, cpu, os, fi)
        && info.url@ == go_url(releases[j].files@[fi].filename@)
        && info.hash.sha1 is None
        && (info.hash.sha256 matches Some(h) && h@ == releases[j].files@[fi].sha256@)
}

pub open spec fn none_eligible(releases: Seq<GoRelease>, cpu: Seq<char>, os: Seq<char>, f: ReleaseFilter) -> bool {
    forall|j: int| 0 <= j < releases.len() ==> !eligible(#[trigger] releases[j], cpu, os, f)
}

impl Tool {
    /// The release to install for a platform, from a fetched catalog: the
    /// greatest eligible version (the last of equals, in catalog order).
    #[verifier::rlimit(60)]
    pub fn get_down_info(&self, platform: Option<&str>, version_filter: &VersionFilter, releases: &Vec<GoRelease>) -> (r: Result<ToolDownInfo, ToolError>)
        requires
            self.well_formed(),
        ensures
            platform is None ==> r == Err::<ToolDownInfo, ToolError>(ToolError::PlatformRequired),
            r is Ok ==> platform is Some,
            r matches Err(e) ==> match e {
                ToolError::PlatformRequired => platform is None,
                ToolError::UnsupportedPlatform => platform matches Some(p) && !in_table(self.info.all_platforms->Some_0@, p@),
                ToolError::InvalidMajorVersion => platform is Some && (version_filter.major_version matches Some(m) && u32_text(m@) is None),
                ToolError::NoDownloadUrl => platform is Some,
                _ => false,
            },
            r matches Ok(info) ==> exists|i: int| 0 <= i < self.corresponding_dto_cpu_os@.len()
                && (#[trigger] self.info.all_platforms->Some_0@[i])@ == platform->Some_0@
                && best_release_info(info, releases@, self.corresponding_dto_cpu_os@[i].0@, self.corresponding_dto_cpu_os@[i].1@, parsed_filter(*version_filter)),
            r == Err::<ToolDownInfo, ToolError>(ToolError::NoDownloadUrl) ==> exists|i: int| 0 <= i < self.corresponding_dto_cpu_os@.len()
                && (#[trigger] self.info.all_platforms->Some_0@[i])@ == platform->Some_0@
                && none_eligible(releases@, self.corresponding_dto_cpu_os@[i].0@, self.corresponding_dto_cpu_os@[i].1@, parsed_filter(*version_filter)),
    {
        let platform = match platform {
            Some(p) => p,
            None => return Err(ToolError::PlatformRequired),
        };
        let (cpu, os) = self.get_dto_cpu_os(platform)?;
        let filter = ReleaseFilter::from_filter(version_filter)?;
        let ghost pf = parsed_filter(*version_filter);
        assert forall|j: int| 0 <= j < releases@.len() implies eligible(#[trigger] releases@[j], cpu@, os@, filter)
            == eligible(releases@[j], cpu@, os@, pf) by {}
        let cands = go_candidates(releases, cpu, os, &filter);
        match last_max_index(&cands) {
            None => {
                assert forall|j: int| 0 <= j < releases@.len() implies !eligible(#[trigger] releases@[j], cpu@, os@, pf) by {
                    if eligible(releases@[j], cpu@, os@, filter) {
                        let k = choose|k: int| 0 <= k < cands@.len() && (#[trigger] cands@[k]).source == j;
                    }
                }
                Err(ToolError::NoDownloadUrl)
            },
            Some(m) => {
                let j = cands[m].source;
                let rel = &releases[j];
                match find_file(&rel.files, cpu, os) {
                    Some(fi) => {
                        let file = &rel.files[fi];
                        let url = String::from_str(BASE_URL).concat(file.filename.as_str());
                        let info = ToolDownInfo {
                            version: cands[m].raw.clone(),
                            url,
                            hash: FileHash { sha1: None, sha256: Some(file.sha256.clone()) },
                        };
                        proof {
                            assert(info.url@ =~= go_url(file.filename@));
                            assert forall|q: int| 0 <= q < releases@.len() && eligible(#[trigger] releases@[q], cpu@, os@, pf)
                                implies !key_lt(raw_key(releases@[j as int].version@.skip(2)), raw_key(releases@[q].version@.skip(2))) by {
                                let k = choose|k: int| 0 <= k < cands@.len() && (#[trigger] cands@[k]).source == q;
                                let rq = releases@[q];
                                let rj = releases@[j as int];
                                assert(rq.version@ =~= seq!['g', 'o'] + rq.version@.skip(2));
                                assert(rj.version@ =~= seq!['g', 'o'] + rj.version@.skip(2));
                                assert(!key_lt(cands@[m as int].key, cands@[k].key));
                            }
                            assert(releases@[j as int].files@[fi as int] == *file);
                        }
                        Ok(info)
                    },
                    None => Err(ToolError::NoDownloadUrl),
                }
            },
        }
    }
}

proof fn lemma_versions_of(
    vs: Seq<Version>,
    sorted: Seq<Candidate>,
    cands: Seq<Candidate>,
    releases: Seq<GoRelease>,
    cpu: Seq<char>,
    os: Seq<char>,
    f: ReleaseFilter,
)
    requires
        forall|k: int| 0 <= k < cands.len() ==> (#[trigger] cands[k]).source < releases.len() && eligible(
            releases[cands[k].source as int], cpu, os, f) && candidate_of(cands[k], releases[cands[k].source as int]),
        forall|j: int| 0 <= j < releases.len() && eligible(#[trigger] releases[j], cpu, os, f)
            ==> exists|k: int| 0 <= k < cands.len() && (#[trigger] cands[k]).source == j,
        sorted_by_key(sorted),
        raws_distinct(sorted),
        forall|k: int| 0 <= k < sorted.len() ==> from_input(#[trigger] sorted[k], cands),
        forall|j: int| 0 <= j < cands.len() ==> has_raw(sorted, (#[trigger] cands[j]).raw@),
        vs.len() == sorted.len(),
        forall|k: int| 0 <= k < vs.len() ==> (#[trigger] vs[k]).version@ == sorted[k].raw@
            && vs[k].major_version@ == decimal_text(sorted[k].major as nat) && vs[k].is_lts == sorted[k].is_lts,
    ensures
        versions_of(vs, releases, cpu, os, f),
{
    assert forall|k: int| 0 <= k < sorted.len() implies #[trigger] sorted[k].key == raw_key(sorted[k].raw@) by {
        let j = choose|j: int| 0 <= j < cands.len() && same_candidate(sorted[k], #[trigger] cands[j]);
        let rel = releases[cands[j].source as int];
        assert(rel.version@ =~= seq!['g', 'o'] + rel.version@.skip(2));
    }
    assert forall|a: int, b: int| 0 <= a < b < vs.len() implies !key_lt(raw_key((#[trigger] vs[b]).version@), raw_key((#[trigger] vs[a]).version@)) by {
        assert(sorted[a].key == raw_key(sorted[a].raw@));
        assert(sorted[b].key == raw_key(sorted[b].raw@));
    }
    assert forall|a: int, b: int| 0 <= a < b < vs.len() implies (#[trigger] vs[a]).version@ != (#[trigger] vs[b]).version@ by {
        assert(sorted[a].raw@ != sorted[b].raw@);
    }
    assert forall|k: int| 0 <= k < vs.len() implies from_eligible(#[trigger] vs[k], releases, cpu, os, f) by {
        let q = choose|q: int| 0 <= q < cands.len() && same_candidate(sorted[k], #[trigger] cands[q]);
        let j = cands[q].source as int;
        assert(eligible(releases[j], cpu, os, f));
        assert(vs[k].version@ == releases[j].version@.skip(2));
        assert(vs[k].major_version@ == decimal_text(go_label(releases[j].version@)->Some_0.major as nat));
    }
    assert forall|j: int| 0 <= j < releases.len() && eligible(#[trigger] releases[j], cpu, os, f) implies is_listed(vs, releases[j]) by {
        let q = choose|q: int| 0 <= q < cands.len() && (#[trigger] cands[q]).source == j;
        assert(has_raw(sorted, cands[q].raw@));
        let k = choose|k: int| 0 <= k < sorted.len() && (#[trigger] sorted[k]).raw@ == cands[q].raw@;
        assert(vs[k].version@ == releases[j].version@.skip(2));
    }
}

pub open spec fn from_eligible(v: Version, releases: Seq<GoRelease>, cpu: Seq<char>, os: Seq<char>, f: ReleaseFilter) -> bool {
    exists|j: int| 0 <= j < releases.len() && eligible(releases[j], cpu, os, f) && v.version@ == (#[trigger] releases[j]).version@.skip(2)
        && v.major_version@ == decimal_text(go_label(releases[j].version@)->Some_0.major as nat)
        && v.is_lts == (go_label(releases[j].version@)->Some_0.pre_release == PreRelease::Final)
}

pub open spec fn is_listed(vs: Seq<Version>, r: GoRelease) -> bool {
    exists|k: int| 0 <= k < vs.len() && (#[trigger] vs[k]).version@ == r.version@.skip(2)
}

/// `vs` lists the eligible releases of the catalog: ascending by version,
/// one per label, each from an eligible release, none missing.
pub open spec fn versions_of(vs: Seq<Version>, releases: Seq<GoRelease>, cpu: Seq<char>, os: Seq<char>, f: ReleaseFilter) -> bool {
    &&& forall|a: int, b: int| 0 <= a < b < vs.len() ==> !key_lt(raw_key((#[trigger] vs[b]).version@), raw_key((#[trigger] vs[a]).version@))
    &&& forall|a: int, b: int| 0 <= a < b < vs.len() ==> (#[trigger] vs[a]).version@ != (#[trigger] vs[b]).version@
    &&& forall|k: int| 0 <= k < vs.len() ==> from_eligible(#[trigger] vs[k], releases, cpu, os, f)
    &&& forall|j: int| 0 <= j < releases.len() && eligible(#[trigger] releases[j], cpu, os, f) ==> is_listed(vs, releases[j])
}

impl Tool {
    /// The executable inside an install, relative to its directory.
    pub fn exe_path(&self, windows: bool) -> (r: (&'static str, &'static str))
        ensures
            r.0@ == "bin"@,
            r.1@ == if windows { "go.exe"@ } else { "go"@ },
    {
        if windows {
            ("bin", "go.exe")
        } else {
            ("bin", "go")
        }
    }
}

} // verus!
