//! The plan of an install, fixed before anything is downloaded.
use vstd::prelude::*;
use vstd::utf8::encode_utf8;
use crate::archive::{archive_type_of, ArchiveType};
use crate::config::FileHash;
use crate::tags::{is_scratch, is_scratch_name, scratch_name, scratch_prefix};
use crate::tool::{target_tag, DownInfo, ToolDownInfo};

verus! {

/// What an install will do: the tag, its scratch entry, and the archive.
pub struct InstallPlan {
    pub tag: String,
    pub scratch: String,
    pub url: String,
    pub hash: FileHash,
    pub archive_type: ArchiveType,
}

#[derive(Clone, Copy, Debug, PartialEq, Eq, Structural)]
pub enum PlanError {
    /// The tag would begin with the scratch prefix.
    Reserved,
    /// The URL names no supported archive format.
    UnknownArchiveType,
}

/// Names the tag of a picked release and checks it can be installed.
pub fn plan_install(down: ToolDownInfo, platform: Option<&str>, flavor: Option<&str>) -> (r: Result<InstallPlan, PlanError>)
    ensures
        ({
            let tag = target_tag(platform, flavor, down.version@);
            &&& is_scratch(tag) ==> r == Err::<InstallPlan, PlanError>(PlanError::Reserved)
            &&& !is_scratch(tag) && archive_type_of(encode_utf8(down.url@)) is None ==> r == Err::<InstallPlan, PlanError>(PlanError::UnknownArchiveType)
            &&& !is_scratch(tag) && archive_type_of(encode_utf8(down.url@)) is Some ==> r is Ok
            &&& r matches Ok(p) ==> p.tag@ == tag && p.scratch@ == scratch_prefix() + tag && p.url@ == down.url@
                && p.hash == down.hash && Some(p.archive_type) == archive_type_of(encode_utf8(down.url@))
        }),
{
    let info = DownInfo::from_tool_down_info(down, platform, flavor);
    if is_scratch_name(info.tag.as_str()) {
        return Err(PlanError::Reserved);
    }
    let archive_type = match ArchiveType::from_path(info.url.as_str().as_bytes()) {
        Ok(t) => t,
        Err(_) => return Err(PlanError::UnknownArchiveType),
    };
    let scratch = scratch_name(info.tag.as_str());
    Ok(InstallPlan { tag: info.tag, scratch, url: info.url, hash: info.hash, archive_type })
}

} // verus!
