//! Platform identifiers `{cpu}-{os}` and the tables that map them to each
//! upstream's own names.
use vstd::prelude::*;
use crate::text::same_text;

pub mod cpu;
pub mod os;

verus! {

/// `cpu-os`.
pub open spec fn platform_text(cpu: Seq<char>, os: Seq<char>) -> Seq<char> {
    cpu + seq!['-'] + os
}

/// Joins a CPU and an OS into a platform identifier.
pub fn create_platform_string(cpu: &str, os: &str) -> (r: String)
    ensures
        r@ == platform_text(cpu@, os@),
{
    proof {
        reveal_strlit("-");
    }
    let s = String::from_str(cpu).concat("-");
    assert(s@ == cpu@ + seq!['-']);
    s.concat(os)
}

/// The OS identifier for a Rust target OS name, where one is known.
pub fn current_os(target_os: &str) -> (r: Option<&'static str>)
    ensures
        r == if target_os@ == "windows"@ {
            Some(os::WIN)
        } else if target_os@ == "linux"@ {
            Some(os::LINUX)
        } else if target_os@ == "macos"@ {
            Some(os::MAC)
        } else {
            None::<&'static str>
        },
{
    if same_text(target_os, "windows") {
        Some(os::WIN)
    } else if same_text(target_os, "linux") {
        Some(os::LINUX)
    } else if same_text(target_os, "macos") {
        Some(os::MAC)
    } else {
        None
    }
}

/// The CPU identifier for a Rust target architecture name, where one is known.
pub fn current_cpu(target_arch: &str) -> (r: Option<&'static str>)
    ensures
        r == if target_arch@ == "x86"@ {
            Some(cpu::X86)
        } else if target_arch@ == "x86_64"@ {
            Some(cpu::X64)
        } else if target_arch@ == "arm"@ {
            Some(cpu::ARM32)
        } else if target_arch@ == "aarch64"@ {
            Some(cpu::ARM64)
        } else if target_arch@ == "riscv32"@ {
            Some(cpu::RISCV32)
        } else if target_arch@ == "riscv64"@ {
            Some(cpu::RISCV64)
        } else if target_arch@ == "sparc"@ {
            Some(cpu::SPARC32)
        } else if target_arch@ == "sparc64"@ {
            Some(cpu::SPARC64)
        } else {
            None::<&'static str>
        },
{
    if same_text(target_arch, "x86") {
        Some(cpu::X86)
    } else if same_text(target_arch, "x86_64") {
        Some(cpu::X64)
    } else if same_text(target_arch, "arm") {
        Some(cpu::ARM32)
    } else if same_text(target_arch, "aarch64") {
        Some(cpu::ARM64)
    } else if same_text(target_arch, "riscv32") {
        Some(cpu::RISCV32)
    } else if same_text(target_arch, "riscv64") {
        Some(cpu::RISCV64)
    } else if same_text(target_arch, "sparc") {
        Some(cpu::SPARC32)
    } else if same_text(target_arch, "sparc64") {
        Some(cpu::SPARC64)
    } else {
        None
    }
}

/// One row of a platform table: our CPU and OS, then the upstream's two names.
pub type PlatformRow = (&'static str, &'static str, &'static str, &'static str);

/// Splits a table into the platform identifiers and the upstream names,
/// position by position.
pub fn split_table(rows: &Vec<PlatformRow>) -> (r: (Vec<String>, Vec<(&'static str, &'static str)>))
    ensures
        r.0@.len() == rows@.len(),
        r.1@.len() == rows@.len(),
        forall|i: int| 0 <= i < rows@.len() ==> (#[trigger] r.0@[i])@ == platform_text(rows@[i].0@, rows@[i].1@)
            && r.1@[i] == (rows@[i].2, rows@[i].3),
{
    let mut platforms: Vec<String> = Vec::new();
    let mut names: Vec<(&'static str, &'static str)> = Vec::new();
    let mut i: usize = 0;
    while i < rows.len()
        invariant
            i <= rows@.len(),
            platforms@.len() == i,
            names@.len() == i,
            forall|k: int| 0 <= k < i ==> (#[trigger] platforms@[k])@ == platform_text(rows@[k].0@, rows@[k].1@)
                && names@[k] == (rows@[k].2, rows@[k].3),
        decreases rows@.len() - i,
    {
        let row = rows[i];
        platforms.push(create_platform_string(row.0, row.1));
        names.push((row.2, row.3));
        i = i + 1;
    }
    (platforms, names)
}

/// Whether a table offers the platform.
pub open spec fn in_table(platforms: Seq<String>, platform: Seq<char>) -> bool {
    exists|k: int| 0 <= k < platforms.len() && (#[trigger] platforms[k])@ == platform
}

/// Position of `platform` among `platforms`, the first if it repeats.
pub fn platform_index(platforms: &Vec<String>, platform: &str) -> (r: Option<usize>)
    ensures
        match r {
            Some(i) => i < platforms@.len() && platforms@[i as int]@ == platform@ && forall|k: int|
                0 <= k < i ==> (#[trigger] platforms@[k])@ != platform@,
            None => forall|k: int| 0 <= k < platforms@.len() ==> (#[trigger] platforms@[k])@ != platform@,
        },
{
    let mut i: usize = 0;
    while i < platforms.len()
        invariant
            i <= platforms@.len(),
            forall|k: int| 0 <= k < i ==> (#[trigger] platforms@[k])@ != platform@,
        decreases platforms@.len() - i,
    {
        if same_text(platforms[i].as_str(), platform) {
            return Some(i);
        }
        i = i + 1;
    }
    None
}

pub open spec fn string_opt_view(o: Option<String>) -> Option<Seq<char>> {
    match o {
        Some(s) => Some(s@),
        None => None,
    }
}

/// The running machine's platform, when both halves are known and the
/// table offers it.
pub open spec fn default_of(platforms: Seq<String>, cpu: Option<&str>, os: Option<&str>) -> Option<Seq<char>> {
    match (cpu, os) {
        (Some(c), Some(o)) => if in_table(platforms, platform_text(c@, o@)) {
            Some(platform_text(c@, o@))
        } else {
            None
        },
        _ => None,
    }
}

/// The platform of the running machine, if the table offers it.
pub fn default_platform(platforms: &Vec<String>, cpu: Option<&str>, os: Option<&str>) -> (r: Option<String>)
    ensures
        string_opt_view(r) == default_of(platforms@, cpu, os),
        match (cpu, os) {
            (Some(c), Some(o)) => match r {
                Some(p) => p@ == platform_text(c@, o@) && exists|k: int| 0 <= k < platforms@.len()
                    && (#[trigger] platforms@[k])@ == p@,
                None => forall|k: int| 0 <= k < platforms@.len() ==> (#[trigger] platforms@[k])@
                    != platform_text(c@, o@),
            },
            _ => r is None,
        },
{
    match (cpu, os) {
        (Some(c), Some(o)) => {
            let p = create_platform_string(c, o);
            match platform_index(platforms, p.as_str()) {
                Some(i) => Some(platforms[i].clone()),
                None => None,
            }
        },
        _ => None,
    }
}

} // verus!
