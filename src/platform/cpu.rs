//! CPU half of a platform identifier.
use vstd::prelude::*;

verus! {

pub const X86: &'static str = "x86";
pub const X64: &'static str = "x64";
pub const ARM32: &'static str = "arm32";
pub const ARM64: &'static str = "arm64";
pub const ARMV6L: &'static str = "armv6l";
pub const ARMV7L: &'static str = "armv7l";
pub const LOONG64: &'static str = "loong64";
pub const RISCV32: &'static str = "riscv32";
pub const RISCV64: &'static str = "riscv64";
pub const PPC32: &'static str = "ppc32";
pub const PPC64: &'static str = "ppc64";
pub const PPC64LE: &'static str = "ppc64le";
pub const SPARC32: &'static str = "sparc32";
pub const SPARC64: &'static str = "sparc64";
pub const MIPS32: &'static str = "mips32";
pub const MIPS64: &'static str = "mips64";
pub const MIPS32LE: &'static str = "mips32le";
pub const MIPS64LE: &'static str = "mips64le";
pub const S390X: &'static str = "s390x";

} // verus!
