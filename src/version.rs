//! The tool-independent version model: order keys, filters and the
//! catalog operations every adapter shares.
use vstd::prelude::*;
use crate::text::{decimal, decimal_text, same_text};

verus! {

/// Five numbers compared left to right; every tool maps its parsed
/// versions onto this order.
#[derive(Clone, Copy, Debug, PartialEq, Eq, Structural)]
pub struct OrderKey {
    pub a: u32,
    pub b: u32,
    pub c: u32,
    pub d: u32,
    pub e: u32,
}

/// Strict lexicographic order on keys.
pub open spec fn key_lt(x: OrderKey, y: OrderKey) -> bool {
    x.a < y.a || (x.a == y.a && (x.b < y.b || (x.b == y.b && (x.c < y.c || (x.c == y.c && (
    x.d < y.d || (x.d == y.d && x.e < y.e)))))))
}

pub open spec fn key_le(x: OrderKey, y: OrderKey) -> bool {
    key_lt(x, y) || x == y
}

/// Key order is irreflexive.
pub proof fn lemma_key_irreflexive(x: OrderKey)
    ensures
        !key_lt(x, x),
{
}

/// Key order is transitive.
pub proof fn lemma_key_transitive(x: OrderKey, y: OrderKey, z: OrderKey)
    requires
        key_lt(x, y),
        key_lt(y, z),
    ensures
        key_lt(x, z),
{
}

/// Any two keys are ordered one way or the other, or are equal.
pub proof fn lemma_key_total(x: OrderKey, y: OrderKey)
    ensures
        key_lt(x, y) || key_lt(y, x) || x == y,
{
}

/// Key order is antisymmetric.
pub proof fn lemma_key_antisymmetric(x: OrderKey, y: OrderKey)
    ensures
        !(key_lt(x, y) && key_lt(y, x)),
{
}

pub fn key_less(x: &OrderKey, y: &OrderKey) -> (r: bool)
    ensures
        r == key_lt(*x, *y),
{
    if x.a != y.a {
        x.a < y.a
    } else if x.b != y.b {
        x.b < y.b
    } else if x.c != y.c {
        x.c < y.c
    } else if x.d != y.d {
        x.d < y.d
    } else {
        x.e < y.e
    }
}

/// A release as the user sees it.
pub struct Version {
    pub version: String,
    pub major_version: String,
    pub is_lts: bool,
}

/// Which releases to consider; an absent field admits every release.
pub struct VersionFilter {
    pub lts_only: bool,
    pub major_version: Option<String>,
    pub exact_version: Option<String>,
}

/// Problems of a request against a release catalog.
#[derive(Debug, PartialEq, Eq)]
pub enum ToolError {
    PlatformRequired,
    UnsupportedPlatform,
    InvalidMajorVersion,
    InvalidFlavor,
    NoDownloadUrl,
}

/// A filter whose major version is already a number.
pub struct ReleaseFilter {
    pub lts_only: bool,
    pub major_version: Option<u32>,
    pub exact_version: Option<String>,
}

/// The filter predicate: every present field must hold.
pub open spec fn admits(
    lts_only: bool,
    major: Option<u32>,
    exact: Option<Seq<char>>,
    raw: Seq<char>,
    release_major: u32,
    is_lts: bool,
) -> bool {
    &&& (!lts_only || is_lts)
    &&& (major matches Some(m) ==> m == release_major)
    &&& (exact matches Some(e) ==> e == raw)
}

pub open spec fn exact_view(e: Option<String>) -> Option<Seq<char>> {
    match e {
        Some(s) => Some(s@),
        None => None,
    }
}

impl ReleaseFilter {
    pub open spec fn admits_release(&self, raw: Seq<char>, major: u32, is_lts: bool) -> bool {
        admits(self.lts_only, self.major_version, exact_view(self.exact_version), raw, major, is_lts)
    }

    /// Reads the major version of `filter` as a number.
    pub fn from_filter(filter: &VersionFilter) -> (r: Result<ReleaseFilter, ToolError>)
        ensures
            match filter.major_version {
                Some(m) => match crate::text::u32_text(m@) {
                    Some(n) => r matches Ok(f) && f.major_version == Some(n),
                    None => r == Err::<ReleaseFilter, ToolError>(ToolError::InvalidMajorVersion),
                },
                None => r matches Ok(f) && f.major_version is None,
            },
            r matches Ok(f) ==> f.lts_only == filter.lts_only && exact_view(f.exact_version)
                == exact_view(filter.exact_version),
    {
        let major_version = match &filter.major_version {
            Some(m) => {
                let v = crate::text::chars_of(m.as_str());
                match crate::text::parse_u32_range(&v, 0, v.len()) {
                    Some(n) => {
                        assert(v@.subrange(0, v@.len() as int) == v@);
                        Some(n)
                    },
                    None => {
                        assert(v@.subrange(0, v@.len() as int) == v@);
                        return Err(ToolError::InvalidMajorVersion);
                    },
                }
            },
            None => None,
        };
        let exact_version = match &filter.exact_version {
            Some(e) => Some(e.clone()),
            None => None,
        };
        Ok(ReleaseFilter { lts_only: filter.lts_only, major_version, exact_version })
    }

    /// Whether a release passes every present predicate.
    pub fn matches(&self, raw: &str, major: u32, is_lts: bool) -> (r: bool)
        ensures
            r == self.admits_release(raw@, major, is_lts),
    {
        if self.lts_only && !is_lts {
            return false;
        }
        if let Some(m) = self.major_version {
            if m != major {
                return false;
            }
        }
        if let Some(e) = &self.exact_version {
            if !same_text(e.as_str(), raw) {
                return false;
            }
        }
        true
    }
}

/// A filter with every field absent admits every release.
pub proof fn lemma_empty_filter_admits_all(raw: Seq<char>, major: u32, is_lts: bool)
    ensures
        admits(false, None, None, raw, major, is_lts),
{
}

/// A filter admits a release exactly when each present field does on its own.
pub proof fn lemma_filter_is_conjunction(
    lts_only: bool,
    major: Option<u32>,
    exact: Option<Seq<char>>,
    raw: Seq<char>,
    release_major: u32,
    is_lts: bool,
)
    ensures
        admits(lts_only, major, exact, raw, release_major, is_lts) == (admits(
            lts_only,
            None,
            None,
            raw,
            release_major,
            is_lts,
        ) && admits(false, major, None, raw, release_major, is_lts) && admits(
            false,
            None,
            exact,
            raw,
            release_major,
            is_lts,
        )),
{
}

/// A parsed release that passed the filter, ready to be ranked.
pub struct Candidate {
    pub raw: String,
    pub key: OrderKey,
    pub major: u32,
    pub is_lts: bool,
    /// Position of the release in the catalog it came from.
    pub source: usize,
}

pub open spec fn sorted_by_key(s: Seq<Candidate>) -> bool {
    forall|i: int, j: int| 0 <= i < j < s.len() ==> !key_lt(#[trigger] s[j].key, #[trigger] s[i].key)
}

pub open spec fn raws_distinct(s: Seq<Candidate>) -> bool {
    forall|i: int, j: int| 0 <= i < j < s.len() ==> (#[trigger] s[i]).raw@ != (#[trigger] s[j]).raw@
}

pub open spec fn same_candidate(x: Candidate, y: Candidate) -> bool {
    x.raw@ == y.raw@ && x.key == y.key && x.major == y.major && x.is_lts == y.is_lts
}

/// The labels already taken while deduplicating, in an `FxHashSet`.
#[verifier::external_body]
pub struct LabelSet {
    set: fxhash::FxHashSet<String>,
}

/// The labels a `LabelSet` holds.
pub uninterp spec fn label_set_contents(s: LabelSet) -> Set<Seq<char>>;

/// Relies on `FxHashSet::default`, which makes an empty set.
#[verifier::external_body]
fn new_label_set() -> (r: LabelSet)
    ensures
        label_set_contents(r) == Set::<Seq<char>>::empty(),
{
    LabelSet { set: fxhash::FxHashSet::default() }
}

/// Relies on `HashSet::insert`: it adds the label and reports whether it
/// was not there before.
#[verifier::external_body]
fn insert_label(s: &mut LabelSet, label: &str) -> (r: bool)
    ensures
        r == !label_set_contents(*old(s)).contains(label@),
        label_set_contents(*final(s)) == label_set_contents(*old(s)).insert(label@),
{
    s.set.insert(label.to_string())
}

/// Inserts after every element whose key is not greater, so equal keys keep
/// their arrival order.
fn insert_stable(out: &mut Vec<Candidate>, item: Candidate) -> (pos: usize)
    requires
        sorted_by_key(old(out)@),
    ensures
        pos <= old(out)@.len(),
        final(out)@ == old(out)@.insert(pos as int, item),
        sorted_by_key(final(out)@),
{
    let mut pos: usize = out.len();
    while pos > 0 && key_less(&item.key, &out[pos - 1].key)
        invariant
            pos <= out@.len(),
            forall|q: int| pos <= q < out@.len() ==> key_lt(item.key, #[trigger] out@[q].key),
        decreases pos,
    {
        pos = pos - 1;
    }
    let ghost old_out = out@;
    let ghost key = item.key;
    out.insert(pos, item);
    assert forall|a: int, b: int| 0 <= a < b < out@.len() implies !key_lt(
        #[trigger] out@[b].key,
        #[trigger] out@[a].key,
    ) by {
        if a < pos && b == pos {
            if pos > 0 {
                assert(!key_lt(key, old_out[pos - 1].key));
                if a < pos - 1 {
                    assert(!key_lt(old_out[pos - 1].key, old_out[a].key));
                }
            }
        } else if a == pos && b > pos {
            assert(key_lt(key, old_out[b - 1].key));
        } else if a < pos && b > pos {
            assert(!key_lt(old_out[b - 1].key, old_out[a].key));
        } else if a > pos {
            assert(!key_lt(old_out[b - 1].key, old_out[a - 1].key));
        }
    }
    pos
}

pub open spec fn has_raw(s: Seq<Candidate>, raw: Seq<char>) -> bool {
    exists|k: int| 0 <= k < s.len() && (#[trigger] s[k]).raw@ == raw
}

pub open spec fn from_input(c: Candidate, input: Seq<Candidate>) -> bool {
    exists|j: int| 0 <= j < input.len() && same_candidate(c, #[trigger] input[j])
}

/// Sorts candidates by ascending key, keeping one candidate per raw label.
#[verifier::rlimit(30)]
pub fn sort_dedup(cands: Vec<Candidate>) -> (r: Vec<Candidate>)
    ensures
        sorted_by_key(r@),
        raws_distinct(r@),
        forall|k: int| 0 <= k < r@.len() ==> from_input(#[trigger] r@[k], cands@),
        forall|j: int| 0 <= j < cands@.len() ==> has_raw(r@, (#[trigger] cands@[j]).raw@),
{
    let mut out: Vec<Candidate> = Vec::new();
    let mut seen = new_label_set();
    let n = cands.len();
    let mut i: usize = 0;
    while i < n
        invariant
            n == cands@.len(),
            i <= n,
            forall|x: Seq<char>| label_set_contents(seen).contains(x) <==> has_raw(out@, x),
            sorted_by_key(out@),
            raws_distinct(out@),
            forall|k: int| 0 <= k < out@.len() ==> from_input(#[trigger] out@[k], cands@.take(i as int)),
            forall|j: int| 0 <= j < i ==> has_raw(out@, (#[trigger] cands@[j]).raw@),
        decreases n - i,
    {
        let c = &cands[i];
        let ghost pre = cands@.take(i as int);
        let ghost next = cands@.take(i + 1);
        assert forall|x: Candidate| from_input(x, pre) implies from_input(x, next) by {
            let j0 = choose|j: int| 0 <= j < pre.len() && same_candidate(x, #[trigger] pre[j]);
            assert(next[j0] == pre[j0]);
        }
        let ghost old_seen = label_set_contents(seen);
        if insert_label(&mut seen, c.raw.as_str()) {
            let item = Candidate { raw: c.raw.clone(), key: c.key, major: c.major, is_lts: c.is_lts, source: c.source };
            let ghost old_out = out@;
            let pos = insert_stable(&mut out, item);
            assert(same_candidate(out@[pos as int], next[i as int]));
            assert forall|a: int, b: int| 0 <= a < b < out@.len() implies (#[trigger] out@[a]).raw@
                != (#[trigger] out@[b]).raw@ by {
                if a < pos && b == pos {
                    assert(out@[a] == old_out[a]);
                } else if a == pos && b > pos {
                    assert(out@[b] == old_out[b - 1]);
                } else if a < pos && b > pos {
                    assert(out@[a] == old_out[a]);
                    assert(out@[b] == old_out[b - 1]);
                } else if a > pos {
                    assert(out@[a] == old_out[a - 1]);
                    assert(out@[b] == old_out[b - 1]);
                } else {
                    assert(out@[a] == old_out[a]);
                    assert(out@[b] == old_out[b]);
                }
            }
            assert forall|q: int| 0 <= q < out@.len() implies from_input(#[trigger] out@[q], next) by {
                if q < pos {
                    assert(out@[q] == old_out[q]);
                } else if q > pos {
                    assert(out@[q] == old_out[q - 1]);
                } else {
                    assert(same_candidate(out@[q], next[i as int]));
                }
            }
            assert forall|j: int| 0 <= j < i + 1 implies has_raw(out@, (#[trigger] cands@[j]).raw@) by {
                if j < i {
                    let q0 = choose|q: int| 0 <= q < old_out.len() && (#[trigger] old_out[q]).raw@ == cands@[j].raw@;
                    if q0 < pos {
                        assert(out@[q0] == old_out[q0]);
                    } else {
                        assert(out@[q0 + 1] == old_out[q0]);
                    }
                } else {
                    assert(out@[pos as int].raw@ == cands@[j].raw@);
                }
            }
            assert forall|x: Seq<char>| label_set_contents(seen).contains(x) <==> has_raw(out@, x) by {
                if has_raw(out@, x) {
                    let q = choose|q: int| 0 <= q < out@.len() && (#[trigger] out@[q]).raw@ == x;
                    if q < pos {
                        assert(old_out[q] == out@[q]);
                    } else if q > pos {
                        assert(old_out[q - 1] == out@[q]);
                    }
                }
                if old_seen.contains(x) {
                    let q = choose|q: int| 0 <= q < old_out.len() && (#[trigger] old_out[q]).raw@ == x;
                    if q < pos {
                        assert(out@[q] == old_out[q]);
                    } else {
                        assert(out@[q + 1] == old_out[q]);
                    }
                }
                if x == c.raw@ {
                    assert(out@[pos as int].raw@ == x);
                }
            }
        } else {
            assert(has_raw(out@, c.raw@));
            assert(label_set_contents(seen) =~= old_seen);
        }
        i = i + 1;
    }
    assert(cands@.take(n as int) == cands@);
    out
}

/// Position of a greatest key; among equal greatest keys, the last one.
pub fn last_max_index(cands: &Vec<Candidate>) -> (r: Option<usize>)
    ensures
        cands@.len() == 0 <==> r is None,
        r matches Some(m) ==> m < cands@.len() && (forall|j: int|
            0 <= j < cands@.len() ==> !key_lt(cands@[m as int].key, #[trigger] cands@[j].key))
            && (forall|j: int| m < j < cands@.len() ==> key_lt(#[trigger] cands@[j].key, cands@[m as int].key)),
{
    if cands.len() == 0 {
        return None;
    }
    let mut best: usize = 0;
    let mut i: usize = 1;
    while i < cands.len()
        invariant
            best < i <= cands@.len(),
            forall|j: int| 0 <= j < i ==> !key_lt(cands@[best as int].key, #[trigger] cands@[j].key),
            forall|j: int| best < j < i ==> key_lt(#[trigger] cands@[j].key, cands@[best as int].key),
        decreases cands@.len() - i,
    {
        if !key_less(&cands[i].key, &cands[best].key) {
            proof {
                assert forall|j: int| 0 <= j < i + 1 implies !key_lt(cands@[i as int].key, #[trigger] cands@[j].key) by {
                    lemma_key_total(cands@[i as int].key, cands@[best as int].key);
                    if j < i && key_lt(cands@[i as int].key, cands@[j].key) {
                        if cands@[i as int].key != cands@[best as int].key {
                            lemma_key_transitive(cands@[best as int].key, cands@[i as int].key, cands@[j].key);
                        }
                    }
                }
            }
            best = i;
        }
        i = i + 1;
    }
    Some(best)
}

/// Position of a greatest key; among equal greatest keys, the first one.
pub fn first_max_index(cands: &Vec<Candidate>) -> (r: Option<usize>)
    ensures
        cands@.len() == 0 <==> r is None,
        r matches Some(m) ==> m < cands@.len() && (forall|j: int|
            0 <= j < cands@.len() ==> !key_lt(cands@[m as int].key, #[trigger] cands@[j].key))
            && (forall|j: int| 0 <= j < m ==> key_lt(#[trigger] cands@[j].key, cands@[m as int].key)),
{
    if cands.len() == 0 {
        return None;
    }
    let mut best: usize = 0;
    let mut i: usize = 1;
    while i < cands.len()
        invariant
            best < i <= cands@.len(),
            forall|j: int| 0 <= j < i ==> !key_lt(cands@[best as int].key, #[trigger] cands@[j].key),
            forall|j: int| 0 <= j < best ==> key_lt(#[trigger] cands@[j].key, cands@[best as int].key),
        decreases cands@.len() - i,
    {
        if key_less(&cands[best].key, &cands[i].key) {
            proof {
                assert forall|j: int| 0 <= j < i + 1 implies !key_lt(cands@[i as int].key, #[trigger] cands@[j].key) by {
                    if j < i && key_lt(cands@[i as int].key, cands@[j].key) {
                        lemma_key_transitive(cands@[best as int].key, cands@[i as int].key, cands@[j].key);
                    }
                }
                assert forall|j: int| 0 <= j < i implies key_lt(#[trigger] cands@[j].key, cands@[i as int].key) by {
                    lemma_key_total(cands@[j].key, cands@[best as int].key);
                    if j < best {
                        lemma_key_transitive(cands@[j].key, cands@[best as int].key, cands@[i as int].key);
                    }
                }
            }
            best = i;
        }
        i = i + 1;
    }
    Some(best)
}

/// The user-facing list of a sorted, deduplicated candidate list.
pub fn to_versions(cands: &Vec<Candidate>) -> (r: Vec<Version>)
    ensures
        r@.len() == cands@.len(),
        forall|k: int| 0 <= k < r@.len() ==> (#[trigger] r@[k]).version@ == cands@[k].raw@
            && r@[k].major_version@ == decimal_text(cands@[k].major as nat) && r@[k].is_lts
            == cands@[k].is_lts,
{
    let mut r: Vec<Version> = Vec::new();
    let mut i: usize = 0;
    while i < cands.len()
        invariant
            i <= cands@.len(),
            r@.len() == i,
            forall|k: int| 0 <= k < i ==> (#[trigger] r@[k]).version@ == cands@[k].raw@
                && r@[k].major_version@ == decimal_text(cands@[k].major as nat) && r@[k].is_lts
                == cands@[k].is_lts,
        decreases cands@.len() - i,
    {
        let c = &cands[i];
        r.push(Version { version: c.raw.clone(), major_version: decimal(c.major), is_lts: c.is_lts });
        i = i + 1;
    }
    r
}

} // verus!
