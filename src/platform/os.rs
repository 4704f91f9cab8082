//! Operating-system half of a platform identifier.
use vstd::prelude::*;

verus! {

pub const WIN: &'static str = "win";
pub const WIN_GNU: &'static str = "win_gnu";
pub const LINUX: &'static str = "linux";
pub const LINUX_MUSL: &'static str = "linux_musl";
pub const MAC: &'static str = "mac";
pub const SOLARIS: &'static str = "solaris";
pub const AIX: &'static str = "aix";
pub const FREEBSD: &'static str = "freebsd";
pub const NETBSD: &'static str = "netbsd";
pub const OPENBSD: &'static str = "openbsd";
pub const DRAGONFLYBSD: &'static str = "dragonflybsd";
pub const ILLUMOS: &'static str = "illumos";
pub const PLAN9: &'static str = "plan9";

} // verus!
