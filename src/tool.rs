//! What every tool adapter offers, independent of the upstream.
use vstd::prelude::*;
use crate::config::FileHash;

verus! {

/// Metadata of a tool: its name and the platforms and flavors it serves.
pub struct ToolInfo {
    pub name: String,
    pub about: String,
    pub after_long_help: Option<String>,
    /// `None` when the tool has no distinct platforms.
    pub all_platforms: Option<Vec<String>>,
    pub default_platform: Option<String>,
    /// `None` when the tool has no distinct flavors.
    pub all_flavors: Option<Vec<String>>,
    pub default_flavor: Option<String>,
}

/// The release an adapter picked: its label, URL and declared digests.
pub struct ToolDownInfo {
    pub version: String,
    pub url: String,
    pub hash: FileHash,
}

/// A picked release together with the tag it installs under.
pub struct DownInfo {
    pub tag: String,
    pub url: String,
    pub hash: FileHash,
}

pub open spec fn opt_prefix(o: Option<&str>) -> Seq<char> {
    match o {
        Some(s) => s@ + seq!['_'],
        None => Seq::empty(),
    }
}

/// `{platform_}{flavor_}{version}`.
pub open spec fn target_tag(platform: Option<&str>, flavor: Option<&str>, version: Seq<char>) -> Seq<char> {
    opt_prefix(platform) + opt_prefix(flavor) + version
}

fn push_prefix(tag: String, part: Option<&str>) -> (r: String)
    ensures
        r@ == tag@ + opt_prefix(part),
{
    match part {
        Some(p) => {
            proof {
                reveal_strlit("_");
            }
            let t = tag.concat(p);
            let r = t.concat("_");
            assert(r@ =~= tag@ + (p@ + seq!['_']));
            r
        },
        None => {
            assert(tag@ + opt_prefix(part) =~= tag@);
            tag
        },
    }
}

impl DownInfo {
    /// Names the tag a release installs under.
    pub fn from_tool_down_info(tool_down_info: ToolDownInfo, platform: Option<&str>, flavor: Option<&str>) -> (r: Self)
        ensures
            r.tag@ == target_tag(platform, flavor, tool_down_info.version@),
            r.url@ == tool_down_info.url@,
            r.hash == tool_down_info.hash,
    {
        let t = push_prefix(String::new(), platform);
        let t = push_prefix(t, flavor);
        let tag = t.concat(tool_down_info.version.as_str());
        assert(tag@ =~= target_tag(platform, flavor, tool_down_info.version@));
        DownInfo { tag, url: tool_down_info.url, hash: tool_down_info.hash }
    }
}

} // verus!
