//! Liberica JDK labels and flavors.
use vstd::prelude::*;
use crate::text::{chars_of, parse_u32_range, split_on, split_ranges, u32_text, same_text};
use crate::version::{
    first_max_index, has_raw, key_lt, same_candidate, sort_dedup, to_versions, Candidate, OrderKey, ReleaseFilter, ToolError,
    Version, VersionFilter,
};
use crate::text::{decimal, decimal_text};
use crate::platform::{cpu, os, create_platform_string, default_of, default_platform, in_table, string_opt_view, platform_index, platform_text};
use crate::tool::{ToolDownInfo, ToolInfo};
use crate::config::FileHash;

verus! {

/// A parsed JDK version; missing parts are zero.
#[derive(Clone, Copy, Debug, PartialEq, Eq, Structural)]
pub struct JdkVersion {
    pub major: u32,
    pub minor: u32,
    pub security: u32,
    pub patch: u32,
    pub build: u32,
}

pub open spec fn or_zero(o: Option<u32>) -> u32 {
    match o {
        Some(n) => n,
        None => 0,
    }
}

/// Part `k` of `parts` as a number, zero when missing or not a number.
pub open spec fn num_at(parts: Seq<Seq<char>>, k: int) -> u32 {
    if k < parts.len() {
        or_zero(u32_text(parts[k]))
    } else {
        0
    }
}

/// Whether the label starts with `8u`, in either case.
pub open spec fn is_jdk8_label(s: Seq<char>) -> bool {
    s.len() >= 2 && s[0] == '8' && (s[1] == 'u' || s[1] == 'U')
}

/// `8uS[+B]`, or dotted numbers `M[.m[.s[.p]]]` with an optional `+B`.
pub open spec fn jdk_label(s: Seq<char>) -> JdkVersion {
    if is_jdk8_label(s) {
        let parts = split_on(s.skip(2), '+');
        JdkVersion { major: 8, minor: 0, security: num_at(parts, 0), patch: 0, build: num_at(parts, 1) }
    } else {
        let plus = split_on(s, '+');
        let nums = split_on(plus[0], '.');
        JdkVersion {
            major: num_at(nums, 0),
            minor: num_at(nums, 1),
            security: num_at(nums, 2),
            patch: num_at(nums, 3),
            build: num_at(plus, 1),
        }
    }
}

fn num_in(v: &Vec<char>, ranges: &Vec<(usize, usize)>, k: usize, lo: usize, hi: usize) -> (r: u32)
    requires
        lo <= hi <= v@.len(),
        forall|q: int| 0 <= q < ranges@.len() ==> (#[trigger] ranges@[q]).0 <= ranges@[q].1 <= v@.len(),
    ensures
        r == (if k < ranges@.len() {
            or_zero(u32_text(v@.subrange(ranges@[k as int].0 as int, ranges@[k as int].1 as int)))
        } else {
            0
        }),
{
    if k < ranges.len() {
        match parse_u32_range(v, ranges[k].0, ranges[k].1) {
            Some(n) => n,
            None => 0,
        }
    } else {
        0
    }
}

impl JdkVersion {
    pub open spec fn key(self) -> OrderKey {
        OrderKey { a: self.major, b: self.minor, c: self.security, d: self.patch, e: self.build }
    }

    pub fn order_key(&self) -> (r: OrderKey)
        ensures
            r == self.key(),
    {
        OrderKey { a: self.major, b: self.minor, c: self.security, d: self.patch, e: self.build }
    }

    /// Reads a JDK label; parts that are not numbers read as zero.
    pub fn parse(version: &str) -> (r: JdkVersion)
        ensures
            r == jdk_label(version@),
    {
        let v = chars_of(version);
        let n = v.len();
        if n >= 2 && v[0] == '8' && (v[1] == 'u' || v[1] == 'U') {
            let parts = split_ranges(&v, 2, n, '+');
            assert(version@.skip(2) == v@.subrange(2, n as int));
            let security = num_in(&v, &parts, 0, 2, n);
            let build = num_in(&v, &parts, 1, 2, n);
            JdkVersion { major: 8, minor: 0, security, patch: 0, build }
        } else {
            let plus = split_ranges(&v, 0, n, '+');
            assert(version@ == v@.subrange(0, n as int));
            proof {
                crate::text::lemma_split_nonempty(version@, '+');
            }
            let build = num_in(&v, &plus, 1, 0, n);
            let lo = plus[0].0;
            let hi = plus[0].1;
            let nums = split_ranges(&v, lo, hi, '.');
            let major = num_in(&v, &nums, 0, lo, hi);
            let minor = num_in(&v, &nums, 1, lo, hi);
            let security = num_in(&v, &nums, 2, lo, hi);
            let patch = num_in(&v, &nums, 3, lo, hi);
            JdkVersion { major, minor, security, patch, build }
        }
    }
}

/// JDK versions are totally ordered by their keys: two versions with the
/// same key are the same version.
pub proof fn lemma_jdk_order_total(x: JdkVersion, y: JdkVersion)
    ensures
        key_lt(x.key(), y.key()) || key_lt(y.key(), x.key()) || x == y,
        !(key_lt(x.key(), y.key()) && key_lt(y.key(), x.key())),
        !key_lt(x.key(), x.key()),
{
}

/// A Liberica flavor: which endpoint serves it and its bundle type.
#[derive(Debug)]
pub struct Flavor {
    pub is_nik: bool,
    pub bundle_type: String,
}

pub open spec fn starts_nik(s: Seq<char>) -> bool {
    s.len() >= 3 && s[0] == 'n' && s[1] == 'i' && s[2] == 'k'
}

pub open spec fn starts_nik_sep(s: Seq<char>) -> bool {
    starts_nik(s) && s.len() >= 4 && s[3] == '_'
}

/// The bundle type a flavor name asks for.
pub open spec fn bundle_of(s: Seq<char>) -> Seq<char> {
    if starts_nik_sep(s) {
        s.skip(4)
    } else {
        s
    }
}

pub open spec fn valid_nik_bundle(b: Seq<char>) -> bool {
    b == "core"@ || b == "standard"@ || b == "full"@
}

pub open spec fn valid_jdk_bundle(b: Seq<char>) -> bool {
    b == "jdk"@ || b == "jdk_full"@ || b == "jdk_lite"@ || b == "jre"@ || b == "jre_full"@
}

/// Whether a flavor name is one Liberica serves.
pub open spec fn flavor_ok(s: Seq<char>) -> bool {
    if starts_nik(s) {
        valid_nik_bundle(bundle_of(s))
    } else {
        valid_jdk_bundle(bundle_of(s))
    }
}

impl Flavor {
    /// Reads a flavor name; absent means `jdk`.
    pub fn parse(s: Option<&str>) -> (r: Result<Flavor, ToolError>)
        ensures
            ({
                let name = match s {
                    Some(t) => t@,
                    None => "jdk"@,
                };
                &&& flavor_ok(name) ==> (r matches Ok(f) && f.is_nik == starts_nik(name)
                    && f.bundle_type@ == bundle_of(name))
                &&& !flavor_ok(name) ==> r == Err::<Flavor, ToolError>(ToolError::InvalidFlavor)
            }),
    {
        let name: &str = match s {
            Some(t) => t,
            None => "jdk",
        };
        let v = chars_of(name);
        let n = v.len();
        let is_nik = n >= 3 && v[0] == 'n' && v[1] == 'i' && v[2] == 'k';
        let bundle: &str = if is_nik && n >= 4 && v[3] == '_' {
            name.substring_char(4, n)
        } else {
            name
        };
        assert(bundle@ == bundle_of(name@));
        if is_nik {
            if !(same_text(bundle, "core") || same_text(bundle, "standard") || same_text(bundle, "full")) {
                return Err(ToolError::InvalidFlavor);
            }
        } else {
            if !(same_text(bundle, "jdk") || same_text(bundle, "jdk_full") || same_text(bundle, "jdk_lite")
                || same_text(bundle, "jre") || same_text(bundle, "jre_full")) {
                return Err(ToolError::InvalidFlavor);
            }
        }
        Ok(Flavor { is_nik, bundle_type: bundle.to_owned() })
    }
}


/// Flavors Liberica serves.
pub const FLAVOR: [&'static str; 8] = [
    "jdk",
    "jdk_full",
    "jdk_lite",
    "jre",
    "jre_full",
    "nik_core",
    "nik_standard",
    "nik_full",
];

pub const BASE_URL: &'static str = "https://api.bell-sw.com/v1/";

/// Long help describing the flavors.
pub const FLAVOR_HELP: &'static str = r#"### Flavors

The flavor parameter allows you to specify which type of Liberica JDK or NIK to use, based on your application's needs. The available options include both Java SE Development Kit (JDK) and Java SE Runtime Environment (JRE) distributions, as well as the Liberica Native Image Kit (NIK), which enables Java bytecode to be compiled into native executables.

#### **JDK and JRE Options**

These distributions are tailored for running, compiling, and debugging Java applications or for lightweight runtime environments:
- **`jdk` (Standard version):** A full Java SE Development Kit optimized for server and desktop deployments without additional components.
- **`jdk_full` (Full version):** Includes LibericaFX (based on OpenJFX) and Minimal VM, providing a more feature-complete development environment.
- **`jdk_lite` (Lite version):** Optimized for size, making it ideal for cloud deployments.
- **`jre` (Standard version):** A lightweight Java Runtime Environment for running simple Java applications.
- **`jre_full` (Full version):** Includes LibericaFX and Minimal VM for a richer runtime experience.

#### **NIK (Native Image Kit) Options**

These distributions are designed for building native executables from Java bytecode for improved performance and startup time:
- **`nik_core` (Core version):** A minimal distribution with Liberica VM and native image (based on GraalVM), suitable for Java development.
- **`nik_standard` (Standard version):** Adds support for plugins to enable the use of non-Java programming languages.
- **`nik_full` (Full version):** A comprehensive build that includes LibericaFX for GUI-based applications."#;

/// A platform row: our CPU and OS, then Liberica's `arch`, `os` and bitness.
pub type LibericaRow = (&'static str, &'static str, &'static str, &'static str, u32);

pub open spec fn liberica_table() -> Seq<LibericaRow> {
    seq![
            (cpu::X86, os::LINUX, "x86", "linux", 32),
            (cpu::X64, os::LINUX, "x86", "linux", 64),
            (cpu::ARM32, os::LINUX, "arm", "linux", 32),
            (cpu::ARM64, os::LINUX, "arm", "linux", 64),
            (cpu::PPC64, os::LINUX, "ppc", "linux", 64),
            (cpu::RISCV64, os::LINUX, "riscv", "linux", 64),
            (cpu::ARM64, os::WIN, "arm", "windows", 64),
            (cpu::X86, os::WIN, "x86", "windows", 32),
            (cpu::X64, os::WIN, "x86", "windows", 64),
            (cpu::X64, os::LINUX_MUSL, "x86", "linux-musl", 64),
            (cpu::ARM64, os::LINUX_MUSL, "arm", "linux-musl", 64),
            (cpu::X64, os::MAC, "x86", "macos", 64),
            (cpu::ARM64, os::MAC, "arm", "macos", 64),
            (cpu::SPARC64, os::SOLARIS, "sparc", "solaris", 64),
            (cpu::X64, os::SOLARIS, "x86", "solaris", 64),
        ]
}

fn liberica_rows() -> (r: Vec<LibericaRow>)
    ensures
        r@ == liberica_table(),
{
    vec![
            (cpu::X86, os::LINUX, "x86", "linux", 32),
            (cpu::X64, os::LINUX, "x86", "linux", 64),
            (cpu::ARM32, os::LINUX, "arm", "linux", 32),
            (cpu::ARM64, os::LINUX, "arm", "linux", 64),
            (cpu::PPC64, os::LINUX, "ppc", "linux", 64),
            (cpu::RISCV64, os::LINUX, "riscv", "linux", 64),
            (cpu::ARM64, os::WIN, "arm", "windows", 64),
            (cpu::X86, os::WIN, "x86", "windows", 32),
            (cpu::X64, os::WIN, "x86", "windows", 64),
            (cpu::X64, os::LINUX_MUSL, "x86", "linux-musl", 64),
            (cpu::ARM64, os::LINUX_MUSL, "arm", "linux-musl", 64),
            (cpu::X64, os::MAC, "x86", "macos", 64),
            (cpu::ARM64, os::MAC, "arm", "macos", 64),
            (cpu::SPARC64, os::SOLARIS, "sparc", "solaris", 64),
            (cpu::X64, os::SOLARIS, "x86", "solaris", 64),
    ]
}

/// A release as the Liberica catalogs describe it.
pub struct ReleaseItem {
    pub download_url: String,
    pub sha1: String,
    pub version_raw: String,
    pub version: JdkVersion,
    pub lts: bool,
}

/// A JDK/JRE catalog entry.
pub struct ReleaseItemDto {
    pub download_url: String,
    pub sha1: String,
    pub version: String,
    pub lts: bool,
}

/// A component bundled in a NIK release.
pub struct NikComponentDto {
    pub version: String,
    pub component: String,
}

/// A NIK catalog entry; its JDK version is that of its `liberica` component.
pub struct NikReleaseItemDto {
    pub download_url: String,
    pub sha1: String,
    pub components: Vec<NikComponentDto>,
    pub lts: bool,
}

/// A NIK entry without a `liberica` component.
#[derive(Clone, Copy, Debug, PartialEq, Eq, Structural)]
pub struct MissingJdkComponent;

impl ReleaseItem {
    /// The parsed version is that of the label.
    pub open spec fn well_formed(&self) -> bool {
        self.version == jdk_label(self.version_raw@)
    }

    pub fn from_dto(value: ReleaseItemDto) -> (r: ReleaseItem)
        ensures
            r.download_url@ == value.download_url@,
            r.sha1@ == value.sha1@,
            r.version_raw@ == value.version@,
            r.version == jdk_label(value.version@),
            r.lts == value.lts,
            r.well_formed(),
    {
        let version = JdkVersion::parse(value.version.as_str());
        ReleaseItem {
            download_url: value.download_url,
            sha1: value.sha1,
            version,
            version_raw: value.version,
            lts: value.lts,
        }
    }

    /// Takes the version of the first `liberica` component.
    pub fn try_from_nik(value: NikReleaseItemDto) -> (r: Result<ReleaseItem, MissingJdkComponent>)
        ensures
            r matches Ok(item) ==> item.well_formed(),
            match r {
                Ok(item) => exists|i: int| 0 <= i < value.components@.len()
                    && (#[trigger] value.components@[i]).component@ == "liberica"@
                    && (forall|k: int| 0 <= k < i ==> (#[trigger] value.components@[k]).component@ != "liberica"@)
                    && item.version_raw@ == value.components@[i].version@
                    && item.version == jdk_label(value.components@[i].version@)
                    && item.download_url@ == value.download_url@ && item.sha1@ == value.sha1@
                    && item.lts == value.lts,
                Err(_) => forall|k: int| 0 <= k < value.components@.len()
                    ==> (#[trigger] value.components@[k]).component@ != "liberica"@,
            },
    {
        let mut i: usize = 0;
        while i < value.components.len()
            invariant
                i <= value.components@.len(),
                forall|k: int| 0 <= k < i ==> (#[trigger] value.components@[k]).component@ != "liberica"@,
            decreases value.components@.len() - i,
        {
            if same_text(value.components[i].component.as_str(), "liberica") {
                let raw = value.components[i].version.clone();
                let version = JdkVersion::parse(raw.as_str());
                return Ok(ReleaseItem {
                    download_url: value.download_url,
                    sha1: value.sha1,
                    version,
                    version_raw: raw,
                    lts: value.lts,
                });
            }
            i = i + 1;
        }
        Err(MissingJdkComponent)
    }
}

/// Whether a NIK release passes the parts of the filter applied locally.
pub open spec fn nik_admits(item: ReleaseItem, major: Option<u32>, exact: Option<Seq<char>>) -> bool {
    &&& (major matches Some(m) ==> item.version.major == m)
    &&& (exact matches Some(e) ==> item.version_raw@ == e)
}

fn clone_item(it: &ReleaseItem) -> (r: ReleaseItem)
    ensures
        r == *it,
{
    ReleaseItem {
        download_url: it.download_url.clone(),
        sha1: it.sha1.clone(),
        version_raw: it.version_raw.clone(),
        version: it.version,
        lts: it.lts,
    }
}

/// The releases that pass, in order.
pub open spec fn nik_kept(items: Seq<ReleaseItem>, major: Option<u32>, exact: Option<Seq<char>>) -> Seq<ReleaseItem>
    decreases items.len(),
{
    if items.len() == 0 {
        items
    } else {
        let rest = nik_kept(items.drop_last(), major, exact);
        if nik_admits(items.last(), major, exact) {
            rest.push(items.last())
        } else {
            rest
        }
    }
}

pub open spec fn str_view(o: Option<&str>) -> Option<Seq<char>> {
    match o {
        Some(e) => Some(e@),
        None => None,
    }
}

/// Keeps the NIK releases of the requested major and exact version, in order.
pub fn filter_nik_releases(items: &Vec<ReleaseItem>, major: Option<u32>, exact: Option<&str>) -> (r: Vec<ReleaseItem>)
    ensures
        r@ == nik_kept(items@, major, str_view(exact)),
{
    let mut out: Vec<ReleaseItem> = Vec::new();
    let n = items.len();
    let mut i: usize = 0;
    while i < n
        invariant
            n == items@.len(),
            i <= n,
            out@ == nik_kept(items@.take(i as int), major, str_view(exact)),
        decreases n - i,
    {
        let item = &items[i];
        proof {
            assert(items@.take(i + 1).drop_last() =~= items@.take(i as int));
            assert(items@.take(i + 1).last() == items@[i as int]);
        }
        let keep_major = match major {
            Some(m) => item.version.major == m,
            None => true,
        };
        let keep_exact = match exact {
            Some(e) => same_text(item.version_raw.as_str(), e),
            None => true,
        };
        if keep_major && keep_exact {
            out.push(clone_item(item));
        }
        i = i + 1;
    }
    assert(items@.take(n as int) =~= items@);
    out
}

/// A Liberica tool adapter: its metadata and Liberica's names for each platform.
pub struct Tool {
    pub info: ToolInfo,
    pub corresponding_dto_os_arch_bitness: Vec<(&'static str, &'static str, u32)>,
}

impl Tool {
    pub open spec fn well_formed(&self) -> bool {
        self.info.all_platforms matches Some(p) && p@.len() == self.corresponding_dto_os_arch_bitness@.len()
    }

    /// The platform identifiers and Liberica's `(arch, os, bitness)` for each.
    pub fn get_platforms_and_corresponding_dto_os_arch_bitness() -> (r: (Vec<String>, Vec<(&'static str, &'static str, u32)>))
        ensures
            r.0@.len() == liberica_table().len(),
            r.1@.len() == liberica_table().len(),
            forall|i: int| 0 <= i < liberica_table().len() ==> (#[trigger] r.0@[i])@ == platform_text(
                liberica_table()[i].0@,
                liberica_table()[i].1@,
            ) && r.1@[i] == (liberica_table()[i].2, liberica_table()[i].3, liberica_table()[i].4),
    {
        let rows = liberica_rows();
        let mut platforms: Vec<String> = Vec::new();
        let mut names: Vec<(&'static str, &'static str, u32)> = Vec::new();
        let mut i: usize = 0;
        while i < rows.len()
            invariant
                rows@ == liberica_table(),
                i <= rows@.len(),
                platforms@.len() == i,
                names@.len() == i,
                forall|k: int| 0 <= k < i ==> (#[trigger] platforms@[k])@ == platform_text(rows@[k].0@, rows@[k].1@)
                    && names@[k] == (rows@[k].2, rows@[k].3, rows@[k].4),
            decreases rows@.len() - i,
        {
            let row = rows[i];
            platforms.push(create_platform_string(row.0, row.1));
            names.push((row.2, row.3, row.4));
            i = i + 1;
        }
        (platforms, names)
    }

    /// A Liberica adapter; `cpu` and `os` name the running machine, if known.
    pub fn new(cpu: Option<&str>, os: Option<&str>) -> (r: Tool)
        ensures
            r.well_formed(),
            r.info.name@ == "liberica"@,
            r.info.all_platforms->Some_0@.len() == liberica_table().len(),
            forall|i: int| 0 <= i < liberica_table().len() ==> (#[trigger] r.info.all_platforms->Some_0@[i])@ == platform_text(
                liberica_table()[i].0@,
                liberica_table()[i].1@,
            ) && r.corresponding_dto_os_arch_bitness@[i] == (liberica_table()[i].2, liberica_table()[i].3, liberica_table()[i].4),
            string_opt_view(r.info.default_platform) == default_of(r.info.all_platforms->Some_0@, cpu, os),
            r.info.all_flavors matches Some(f) && f@.len() == 8 && forall|i: int| 0 <= i < 8 ==> (#[trigger] f@[i])@ == FLAVOR[i]@,
            r.info.default_flavor matches Some(d) && d@ == "jdk"@,
    {
        let (all_platforms, corresponding_dto_os_arch_bitness) = Self::get_platforms_and_corresponding_dto_os_arch_bitness();
        let default_platform = default_platform(&all_platforms, cpu, os);
        let mut all_flavors: Vec<String> = Vec::new();
        let mut i: usize = 0;
        while i < 8
            invariant
                i <= 8,
                all_flavors@.len() == i,
                forall|k: int| 0 <= k < i ==> (#[trigger] all_flavors@[k])@ == FLAVOR[k]@,
            decreases 8 - i,
        {
            all_flavors.push(String::from_str(FLAVOR[i]));
            i = i + 1;
        }
        Tool {
            info: ToolInfo {
                name: String::from_str("liberica"),
                about: String::from_str("Liberica Java JDK/JRE"),
                after_long_help: Some(String::from_str(FLAVOR_HELP)),
                all_platforms: Some(all_platforms),
                default_platform,
                all_flavors: Some(all_flavors),
                default_flavor: Some(String::from_str("jdk")),
            },
            corresponding_dto_os_arch_bitness,
        }
    }

    /// Liberica's `(arch, os, bitness)` for a platform identifier.
    pub fn get_dto_os_arch_bitness(&self, platform: &str) -> (r: Result<(&'static str, &'static str, u32), ToolError>)
        requires
            self.well_formed(),
        ensures
            match r {
                Ok(names) => exists|i: int| 0 <= i < self.corresponding_dto_os_arch_bitness@.len()
                    && (#[trigger] self.info.all_platforms->Some_0@[i])@ == platform@
                    && self.corresponding_dto_os_arch_bitness@[i] == names,
                Err(e) => e == ToolError::UnsupportedPlatform && forall|i: int|
                    0 <= i < self.corresponding_dto_os_arch_bitness@.len() ==> (#[trigger] self.info.all_platforms->Some_0@[i])@ != platform@,
            },
    {
        match &self.info.all_platforms {
            Some(p) => match platform_index(p, platform) {
                Some(i) => Ok(self.corresponding_dto_os_arch_bitness[i]),
                None => Err(ToolError::UnsupportedPlatform),
            },
            None => Err(ToolError::UnsupportedPlatform),
        }
    }
}

/// Candidates of a release list, in order.
pub fn liberica_candidates(items: &Vec<ReleaseItem>) -> (r: Vec<Candidate>)
    ensures
        r@.len() == items@.len(),
        forall|k: int| 0 <= k < r@.len() ==> (#[trigger] r@[k]).source == k && r@[k].raw@ == items@[k].version_raw@
            && r@[k].key == items@[k].version.key() && r@[k].major == items@[k].version.major
            && r@[k].is_lts == items@[k].lts,
{
    let mut out: Vec<Candidate> = Vec::new();
    let mut i: usize = 0;
    while i < items.len()
        invariant
            i <= items@.len(),
            out@.len() == i,
            forall|k: int| 0 <= k < i ==> (#[trigger] out@[k]).source == k && out@[k].raw@ == items@[k].version_raw@
                && out@[k].key == items@[k].version.key() && out@[k].major == items@[k].version.major
                && out@[k].is_lts == items@[k].lts,
        decreases items@.len() - i,
    {
        let it = &items[i];
        out.push(Candidate { raw: it.version_raw.clone(), key: it.version.order_key(), major: it.version.major, is_lts: it.lts, source: i });
        i = i + 1;
    }
    out
}

pub open spec fn version_from(v: Version, items: Seq<ReleaseItem>) -> bool {
    exists|j: int| 0 <= j < items.len() && v.version@ == (#[trigger] items[j]).version_raw@ && v.is_lts == items[j].lts
        && v.major_version@ == decimal_text(items[j].version.major as nat)
}

pub open spec fn lists_label(vs: Seq<Version>, raw: Seq<char>) -> bool {
    exists|k: int| 0 <= k < vs.len() && (#[trigger] vs[k]).version@ == raw
}

/// The versions of the fetched releases: ascending, one per label.
pub fn versions_of_releases(items: &Vec<ReleaseItem>) -> (r: Vec<Version>)
    requires
        forall|j: int| 0 <= j < items@.len() ==> (#[trigger] items@[j]).well_formed(),
    ensures
        forall|a: int, b: int| 0 <= a < b < r@.len() ==> (#[trigger] r@[a]).version@ != (#[trigger] r@[b]).version@,
        forall|a: int, b: int| 0 <= a < b < r@.len() ==> !key_lt(jdk_label((#[trigger] r@[b]).version@).key(), jdk_label((#[trigger] r@[a]).version@).key()),
        forall|k: int| 0 <= k < r@.len() ==> version_from(#[trigger] r@[k], items@),
        forall|j: int| 0 <= j < items@.len() ==> lists_label(r@, (#[trigger] items@[j]).version_raw@),
{
    let cands = liberica_candidates(items);
    let sorted = sort_dedup(cands);
    let r = to_versions(&sorted);
    assert forall|k: int| 0 <= k < r@.len() implies version_from(#[trigger] r@[k], items@) by {
        assert(crate::version::from_input(sorted@[k], cands@));
        let q = choose|q: int| 0 <= q < cands@.len() && same_candidate(sorted@[k], #[trigger] cands@[q]);
        assert(r@[k].version@ == items@[q].version_raw@);
    }
    assert forall|k: int| 0 <= k < sorted@.len() implies #[trigger] sorted@[k].key == jdk_label(sorted@[k].raw@).key() by {
        assert(crate::version::from_input(sorted@[k], cands@));
        let q = choose|q: int| 0 <= q < cands@.len() && same_candidate(sorted@[k], #[trigger] cands@[q]);
    }
    assert forall|a: int, b: int| 0 <= a < b < r@.len() implies !key_lt(jdk_label((#[trigger] r@[b]).version@).key(), jdk_label((#[trigger] r@[a]).version@).key()) by {
        assert(sorted@[a].key == jdk_label(sorted@[a].raw@).key());
        assert(sorted@[b].key == jdk_label(sorted@[b].raw@).key());
    }
    assert forall|j: int| 0 <= j < items@.len() implies lists_label(r@, (#[trigger] items@[j]).version_raw@) by {
        assert(has_raw(sorted@, cands@[j].raw@));
        let k = choose|k: int| 0 <= k < sorted@.len() && (#[trigger] sorted@[k]).raw@ == cands@[j].raw@;
        assert(r@[k].version@ == items@[j].version_raw@);
    }
    assert forall|a: int, b: int| 0 <= a < b < r@.len() implies (#[trigger] r@[a]).version@ != (#[trigger] r@[b]).version@ by {
        assert(sorted@[a].raw@ != sorted@[b].raw@);
    }
    r
}

/// The release to install: the greatest version, the first of equals.
pub fn down_info_of_releases(items: &Vec<ReleaseItem>) -> (r: Result<ToolDownInfo, ToolError>)
    ensures
        items@.len() == 0 ==> r == Err::<ToolDownInfo, ToolError>(ToolError::NoDownloadUrl),
        items@.len() > 0 ==> r is Ok,
        r matches Ok(info) ==> exists|j: int| 0 <= j < items@.len()
            && info.version@ == (#[trigger] items@[j]).version_raw@
            && info.url@ == items@[j].download_url@
            && (info.hash.sha1 matches Some(h) && h@ == items@[j].sha1@)
            && info.hash.sha256 is None
            && (forall|q: int| 0 <= q < items@.len() ==> !key_lt(items@[j].version.key(), #[trigger] items@[q].version.key()))
            && (forall|q: int| 0 <= q < j ==> key_lt(#[trigger] items@[q].version.key(), items@[j].version.key())),
{
    let cands = liberica_candidates(items);
    match first_max_index(&cands) {
        None => Err(ToolError::NoDownloadUrl),
        Some(m) => {
            let it = &items[m];
            let info = ToolDownInfo {
                version: it.version_raw.clone(),
                url: it.download_url.clone(),
                hash: FileHash { sha1: Some(it.sha1.clone()), sha256: None },
            };
            assert forall|q: int| 0 <= q < items@.len() implies !key_lt(items@[m as int].version.key(), #[trigger] items@[q].version.key()) by {
                assert(cands@[q].key == items@[q].version.key());
            }
            assert forall|q: int| 0 <= q < m implies key_lt(#[trigger] items@[q].version.key(), items@[m as int].version.key()) by {
                assert(cands@[q].key == items@[q].version.key());
            }
            Ok(info)
        },
    }
}


/// What to ask a Liberica endpoint, and what to filter locally afterwards.
pub struct ReleaseQuery {
    pub url: String,
    pub params: Vec<(&'static str, String)>,
    pub is_nik: bool,
    /// Applied to NIK releases after fetching.
    pub nik_major: Option<u32>,
    pub nik_exact: Option<String>,
}

pub open spec fn param_view(p: Seq<(&'static str, String)>) -> Seq<(Seq<char>, Seq<char>)> {
    p.map_values(|e: (&'static str, String)| (e.0@, e.1@))
}

pub open spec fn opt_param(name: Seq<char>, v: Option<String>) -> Seq<(Seq<char>, Seq<char>)> {
    match v {
        Some(x) => seq![(name, x@)],
        None => Seq::empty(),
    }
}

/// The query of a request: platform and bundle first, then (JDK/JRE only)
/// the requested major and exact version, then the release type.
pub open spec fn query_params(
    arch: Seq<char>,
    os: Seq<char>,
    bitness: u32,
    bundle: Seq<char>,
    is_nik: bool,
    vf: VersionFilter,
) -> Seq<(Seq<char>, Seq<char>)> {
    seq![
        ("arch"@, arch),
        ("os"@, os),
        ("installation-type"@, "archive"@),
        ("bitness"@, decimal_text(bitness as nat)),
        ("bundle-type"@, bundle),
    ] + (if is_nik {
        Seq::empty()
    } else {
        opt_param("version-feature"@, vf.major_version) + opt_param("version"@, vf.exact_version)
    }) + seq![("release-type"@, if vf.lts_only { "lts"@ } else { "all"@ })]
}

fn clone_opt(o: &Option<String>) -> (r: Option<String>)
    ensures
        r == *o,
{
    match o {
        Some(x) => Some(x.clone()),
        None => None,
    }
}

impl Tool {
    /// The request for a platform, flavor and filter.
    #[verifier::rlimit(60)]
    pub fn release_query(&self, platform: Option<&str>, flavor: Option<&str>, version_filter: &VersionFilter) -> (r: Result<ReleaseQuery, ToolError>)
        requires
            self.well_formed(),
        ensures
            platform is None ==> r == Err::<ReleaseQuery, ToolError>(ToolError::PlatformRequired),
            r matches Ok(q) ==> platform is Some && exists|i: int| 0 <= i < self.corresponding_dto_os_arch_bitness@.len()
                && (#[trigger] self.info.all_platforms->Some_0@[i])@ == platform->Some_0@
                && ({
                    let name = match flavor { Some(t) => t@, None => "jdk"@ };
                    let (arch, os, bitness) = self.corresponding_dto_os_arch_bitness@[i];
                    &&& flavor_ok(name)
                    &&& q.is_nik == starts_nik(name)
                    &&& q.url@ == BASE_URL@ + (if q.is_nik { "nik/releases"@ } else { "liberica/releases"@ })
                    &&& param_view(q.params@) == query_params(arch@, os@, bitness, bundle_of(name), q.is_nik, *version_filter)
                    &&& (q.is_nik ==> q.nik_major == match version_filter.major_version { Some(m) => u32_text(m@), None => None }
                        && q.nik_exact == version_filter.exact_version)
                    &&& (!q.is_nik ==> q.nik_major is None && q.nik_exact is None)
                }),
            r matches Err(e) ==> match e {
                ToolError::PlatformRequired => platform is None,
                ToolError::UnsupportedPlatform => platform matches Some(p) && !in_table(self.info.all_platforms->Some_0@, p@),
                ToolError::InvalidFlavor => platform is Some && !flavor_ok(match flavor { Some(t) => t@, None => "jdk"@ }),
                ToolError::InvalidMajorVersion => platform is Some && starts_nik(match flavor { Some(t) => t@, None => "jdk"@ })
                    && (version_filter.major_version matches Some(m) && u32_text(m@) is None),
                _ => false,
            },
    {
        let platform = match platform {
            Some(p) => p,
            None => return Err(ToolError::PlatformRequired),
        };
        let (arch, os, bitness) = self.get_dto_os_arch_bitness(platform)?;
        let flavor = Flavor::parse(flavor)?;
        let mut params: Vec<(&'static str, String)> = Vec::new();
        params.push(("arch", String::from_str(arch)));
        params.push(("os", String::from_str(os)));
        params.push(("installation-type", String::from_str("archive")));
        params.push(("bitness", decimal(bitness)));
        params.push(("bundle-type", flavor.bundle_type.clone()));
        let ghost head = param_view(params@);
        let mut nik_major: Option<u32> = None;
        let mut nik_exact: Option<String> = None;
        if flavor.is_nik {
            let f = ReleaseFilter::from_filter(version_filter)?;
            nik_major = f.major_version;
            nik_exact = clone_opt(&version_filter.exact_version);
        } else {
            if let Some(m) = &version_filter.major_version {
                params.push(("version-feature", m.clone()));
            }
            if let Some(e) = &version_filter.exact_version {
                params.push(("version", e.clone()));
            }
        }
        let ghost mid = param_view(params@);
        let release_type = if version_filter.lts_only { "lts" } else { "all" };
        params.push(("release-type", String::from_str(release_type)));
        let url = if flavor.is_nik {
            String::from_str(BASE_URL).concat("nik/releases")
        } else {
            String::from_str(BASE_URL).concat("liberica/releases")
        };
        proof {
            assert(param_view(params@) =~= query_params(
                arch@,
                os@,
                bitness,
                flavor.bundle_type@,
                flavor.is_nik,
                *version_filter,
            ));
        }
        Ok(ReleaseQuery { url, params, is_nik: flavor.is_nik, nik_major, nik_exact })
    }

    /// Installable versions, from the releases fetched for a query; NIK
    /// releases are filtered here.
    pub fn fetch_versions(&self, query: &ReleaseQuery, releases: &Vec<ReleaseItem>) -> (r: Vec<Version>)
        requires
            forall|j: int| 0 <= j < releases@.len() ==> (#[trigger] releases@[j]).well_formed(),
        ensures
            forall|a: int, b: int| 0 <= a < b < r@.len() ==> (#[trigger] r@[a]).version@ != (#[trigger] r@[b]).version@,
            forall|a: int, b: int| 0 <= a < b < r@.len() ==> !key_lt(jdk_label((#[trigger] r@[b]).version@).key(), jdk_label((#[trigger] r@[a]).version@).key()),
            forall|k: int| 0 <= k < r@.len() ==> version_from(#[trigger] r@[k], query_releases(query, releases@)),
            forall|j: int| 0 <= j < query_releases(query, releases@).len() ==> lists_label(r@, (#[trigger] query_releases(query, releases@)[j]).version_raw@),
    {
        let kept = self.kept_releases(query, releases);
        proof {
            if query.is_nik {
                lemma_kept_well_formed(releases@, query.nik_major, opt_view(query.nik_exact));
            }
        }
        versions_of_releases(&kept)
    }

    /// The release to install, from the releases fetched for a query.
    pub fn get_down_info(&self, query: &ReleaseQuery, releases: &Vec<ReleaseItem>) -> (r: Result<ToolDownInfo, ToolError>)
        ensures
            query_releases(query, releases@).len() == 0 ==> r == Err::<ToolDownInfo, ToolError>(ToolError::NoDownloadUrl),
            query_releases(query, releases@).len() > 0 ==> r is Ok,
            r matches Ok(info) ==> exists|j: int| 0 <= j < query_releases(query, releases@).len()
                && info.version@ == (#[trigger] query_releases(query, releases@)[j]).version_raw@
                && info.url@ == query_releases(query, releases@)[j].download_url@
                && (info.hash.sha1 matches Some(h) && h@ == query_releases(query, releases@)[j].sha1@)
                && info.hash.sha256 is None
                && (forall|q: int| 0 <= q < query_releases(query, releases@).len() ==> !key_lt(
                    query_releases(query, releases@)[j].version.key(),
                    #[trigger] query_releases(query, releases@)[q].version.key(),
                )),
    {
        let kept = self.kept_releases(query, releases);
        down_info_of_releases(&kept)
    }

    fn kept_releases(&self, query: &ReleaseQuery, releases: &Vec<ReleaseItem>) -> (r: Vec<ReleaseItem>)
        ensures
            r@ == query_releases(query, releases@),
    {
        if query.is_nik {
            let exact: Option<&str> = match &query.nik_exact {
                Some(e) => Some(e.as_str()),
                None => None,
            };
            filter_nik_releases(releases, query.nik_major, exact)
        } else {
            let mut out: Vec<ReleaseItem> = Vec::new();
            let mut i: usize = 0;
            while i < releases.len()
                invariant
                    i <= releases@.len(),
                    out@ == releases@.take(i as int),
                decreases releases@.len() - i,
            {
                out.push(clone_item(&releases[i]));
                assert(out@ =~= releases@.take(i + 1));
                i = i + 1;
            }
            assert(releases@.take(releases@.len() as int) =~= releases@);
            out
        }
    }
}

proof fn lemma_kept_well_formed(items: Seq<ReleaseItem>, major: Option<u32>, exact: Option<Seq<char>>)
    requires
        forall|j: int| 0 <= j < items.len() ==> (#[trigger] items[j]).well_formed(),
    ensures
        forall|j: int| 0 <= j < nik_kept(items, major, exact).len() ==> (#[trigger] nik_kept(items, major, exact)[j]).well_formed(),
    decreases items.len(),
{
    if items.len() > 0 {
        let init = items.drop_last();
        assert forall|j: int| 0 <= j < init.len() implies (#[trigger] init[j]).well_formed() by {
            assert(init[j] == items[j]);
        }
        lemma_kept_well_formed(init, major, exact);
        let rest = nik_kept(init, major, exact);
        let kept = nik_kept(items, major, exact);
        assert forall|j: int| 0 <= j < kept.len() implies (#[trigger] kept[j]).well_formed() by {
            if j < rest.len() {
                assert(kept[j] == rest[j]);
            } else {
                assert(kept[j] == items.last());
            }
        }
    }
}

pub open spec fn opt_view(o: Option<String>) -> Option<Seq<char>> {
    match o {
        Some(e) => Some(e@),
        None => None,
    }
}

/// The releases a query keeps: all for JDK/JRE, the locally filtered ones for NIK.
pub open spec fn query_releases(query: &ReleaseQuery, releases: Seq<ReleaseItem>) -> Seq<ReleaseItem> {
    if query.is_nik {
        nik_kept(releases, query.nik_major, opt_view(query.nik_exact))
    } else {
        releases
    }
}

impl Tool {
    /// The executable inside an install, relative to its directory.
    pub fn exe_path(&self, windows: bool) -> (r: (&'static str, &'static str))
        ensures
            r.0@ == "bin"@,
            r.1@ == if windows { "java.exe"@ } else { "java"@ },
    {
        if windows {
            ("bin", "java.exe")
        } else {
            ("bin", "java")
        }
    }
}

} // verus!
