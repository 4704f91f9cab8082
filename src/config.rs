//! Configuration values and the URL mirror rules.
use vstd::prelude::*;
use crate::text::{has_prefix, starts_with_text};

verus! {

/// Replace the prefix `from` of a URL by `to`.
pub struct UrlMirrorEntry {
    pub from: String,
    pub to: String,
}

/// Mirror rules, tried in order.
pub struct UrlMirror {
    pub mirror: Vec<UrlMirrorEntry>,
}

/// Settings read from the configuration file.
pub struct Config {
    pub mirror: Option<UrlMirror>,
    pub data_path: Option<String>,
}

/// Where the configuration and the installs live.
pub struct Paths {
    pub config_file: String,
    pub data_dir: String,
    pub tool_dir: String,
    pub rustup_path: Option<String>,
}

/// Declared digests of a download, as lowercase hex.
pub struct FileHash {
    pub sha1: Option<String>,
    pub sha256: Option<String>,
}

pub open spec fn rules_view(rules: Seq<UrlMirrorEntry>) -> Seq<(Seq<char>, Seq<char>)> {
    rules.map_values(|e: UrlMirrorEntry| (e.from@, e.to@))
}

/// The first rule whose `from` begins `url` rewrites it; no rule, no change.
pub open spec fn rewrite_with(rules: Seq<(Seq<char>, Seq<char>)>, url: Seq<char>) -> Seq<char>
    decreases rules.len(),
{
    if rules.len() == 0 {
        url
    } else if has_prefix(url, rules[0].0) {
        rules[0].1 + url.skip(rules[0].0.len() as int)
    } else {
        rewrite_with(rules.drop_first(), url)
    }
}

impl UrlMirror {
    pub open spec fn rules(&self) -> Seq<(Seq<char>, Seq<char>)> {
        rules_view(self.mirror@)
    }

    /// The URL a request for `url` goes to.
    pub fn rewrite(&self, url: &str) -> (r: String)
        ensures
            r@ == rewrite_with(self.rules(), url@),
    {
        let n = self.mirror.len();
        let mut i: usize = 0;
        assert(self.rules().skip(0) =~= self.rules());
        while i < n
            invariant
                n == self.mirror@.len(),
                i <= n,
                rewrite_with(self.rules(), url@) == rewrite_with(self.rules().skip(i as int), url@),
            decreases n - i,
        {
            let e = &self.mirror[i];
            assert(self.rules().skip(i as int)[0] == (e.from@, e.to@));
            assert(self.rules().skip(i as int).drop_first() == self.rules().skip(i + 1));
            if starts_with_text(url, e.from.as_str()) {
                let cut = e.from.as_str().unicode_len();
                let rest = url.substring_char(cut, url.unicode_len());
                let out = e.to.clone().concat(rest);
                return out;
            }
            i = i + 1;
        }
        assert(self.rules().skip(n as int).len() == 0);
        url.to_owned()
    }
}

/// A rule applies to every URL it prefixes, unless an earlier rule already
/// does; a URL that no rule prefixes goes out unchanged.
pub proof fn lemma_mirror_rewrite(rules: Seq<(Seq<char>, Seq<char>)>, url: Seq<char>, i: int)
    requires
        0 <= i < rules.len(),
        has_prefix(url, rules[i].0),
        forall|j: int| 0 <= j < i ==> !has_prefix(url, #[trigger] rules[j].0),
    ensures
        rewrite_with(rules, url) == rules[i].1 + url.skip(rules[i].0.len() as int),
    decreases i,
{
    if i > 0 {
        assert(!has_prefix(url, rules[0].0));
        assert forall|j: int| 0 <= j < i - 1 implies !has_prefix(url, #[trigger] rules.drop_first()[j].0) by {
            assert(rules.drop_first()[j] == rules[j + 1]);
        }
        lemma_mirror_rewrite(rules.drop_first(), url, i - 1);
    }
}

/// A URL that no rule prefixes is used as it is.
pub proof fn lemma_mirror_no_match(rules: Seq<(Seq<char>, Seq<char>)>, url: Seq<char>)
    requires
        forall|j: int| 0 <= j < rules.len() ==> !has_prefix(url, #[trigger] rules[j].0),
    ensures
        rewrite_with(rules, url) == url,
    decreases rules.len(),
{
    if rules.len() > 0 {
        assert(!has_prefix(url, rules[0].0));
        assert forall|j: int| 0 <= j < rules.len() - 1 implies !has_prefix(url, #[trigger] rules.drop_first()[j].0) by {
            assert(rules.drop_first()[j] == rules[j + 1]);
        }
        lemma_mirror_no_match(rules.drop_first(), url);
    }
}

} // verus!
