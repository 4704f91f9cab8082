//! Rules of the per-tool tag store: naming, listing, alias, copy, delete,
//! clean and the checks made before an install. The filesystem work itself
//! is done by the caller, which hands these functions what it read.
use vstd::prelude::*;
use crate::text::{chars_of, chars_range_text, has_prefix, same_text, split_on, split_ranges, starts_with_text};

verus! {

/// Prefix of the scratch entries used while installing.
pub const TMP_PREFIX: &'static str = ".tmp.";

/// The conventional alias.
pub const DEFAULT_TAG: &'static str = "default";

pub open spec fn scratch_prefix() -> Seq<char> {
    seq!['.', 't', 'm', 'p', '.']
}

pub open spec fn is_scratch(name: Seq<char>) -> bool {
    has_prefix(name, scratch_prefix())
}

/// Whether `name` is reserved for scratch use.
pub fn is_scratch_name(name: &str) -> (r: bool)
    ensures
        r == is_scratch(name@),
{
    let v = chars_of(name);
    if v.len() < 5 {
        return false;
    }
    let r = v[0] == '.' && v[1] == 't' && v[2] == 'm' && v[3] == 'p' && v[4] == '.';
    assert(r == (v@.take(5) =~= scratch_prefix()));
    r
}

/// The scratch name of a tag.
pub fn scratch_name(tag: &str) -> (r: String)
    ensures
        r@ == scratch_prefix() + tag@,
{
    let p = String::from_str(".tmp.");
    proof {
        reveal_strlit(".tmp.");
    }
    assert(p@ =~= scratch_prefix());
    p.concat(tag)
}

/// Why a tag-store operation was refused.
#[derive(Debug, PartialEq, Eq)]
pub enum TagError {
    /// The tag is the target of this alias.
    AliasTarget { alias: String },
    NotFound,
    AlreadyExists,
    /// Another install of the same tag is under way.
    Installing,
    /// The tag begins with the scratch prefix.
    Reserved,
    /// `default` may only be an alias.
    DefaultNotConcrete,
    /// Something that is not an alias stands under the alias name.
    NotAnAlias,
    /// The filesystem reported an error.
    Io,
}

/// A listed tag: its name and, for an alias, the name of its target.
pub open spec fn entry_view(e: (String, Option<String>)) -> (Seq<char>, Option<Seq<char>>) {
    (e.0@, match e.1 {
        Some(t) => Some(t@),
        None => None,
    })
}

pub open spec fn listing_view(l: Seq<(String, Option<String>)>) -> Seq<(Seq<char>, Option<Seq<char>>)> {
    l.map_values(|e: (String, Option<String>)| entry_view(e))
}

/// The entries whose names do not begin with `prefix`, in order.
pub open spec fn visible(entries: Seq<(Seq<char>, Option<Seq<char>>)>, prefix: Seq<char>) -> Seq<
    (Seq<char>, Option<Seq<char>>),
>
    decreases entries.len(),
{
    if entries.len() == 0 {
        entries
    } else {
        let rest = visible(entries.drop_last(), prefix);
        if has_prefix(entries.last().0, prefix) {
            rest
        } else {
            rest.push(entries.last())
        }
    }
}

fn clone_entry(e: &(String, Option<String>)) -> (r: (String, Option<String>))
    ensures
        entry_view(r) == entry_view(*e),
{
    let t = match &e.1 {
        Some(x) => Some(x.clone()),
        None => None,
    };
    (e.0.clone(), t)
}

/// The name a path ends in: its last part other than an empty one or `.`,
/// and none when that part is `..` or there is none.
pub open spec fn last_name_in(parts: Seq<Seq<char>>) -> Option<Seq<char>>
    decreases parts.len(),
{
    if parts.len() == 0 {
        None
    } else if parts.last().len() == 0 || parts.last() == seq!['.'] {
        last_name_in(parts.drop_last())
    } else if parts.last() == seq!['.', '.'] {
        None
    } else {
        Some(parts.last())
    }
}

pub open spec fn file_name_of(path: Seq<char>, sep: char) -> Option<Seq<char>> {
    last_name_in(split_on(path, sep))
}

/// The target name listed for an alias: the file name of the link's
/// target, or the whole target when it has none.
pub open spec fn listed_target_of(target: Seq<char>, sep: char) -> Seq<char> {
    match file_name_of(target, sep) {
        Some(n) => n,
        None => target,
    }
}

/// The file name of a link target, with `sep` as the path separator.
pub fn link_target_name(target: &str, sep: char) -> (r: String)
    ensures
        r@ == listed_target_of(target@, sep),
{
    let v = chars_of(target);
    let n = v.len();
    let ranges = split_ranges(&v, 0, n, sep);
    let ghost parts = split_on(v@.subrange(0, n as int), sep);
    assert(v@.subrange(0, n as int) == target@);
    let mut k = ranges.len();
    assert(parts.take(k as int) =~= parts);
    while k > 0
        invariant
            k <= ranges@.len(),
            ranges@.len() == parts.len(),
            parts == split_on(target@, sep),
            v@ == target@,
            forall|q: int| 0 <= q < ranges@.len() ==> (#[trigger] ranges@[q]).0 <= ranges@[q].1 <= v@.len()
                && v@.subrange(ranges@[q].0 as int, ranges@[q].1 as int) == parts[q],
            last_name_in(parts) == last_name_in(parts.take(k as int)),
        decreases k,
    {
        let (a, b) = ranges[k - 1];
        let ghost part = parts[k - 1];
        assert(parts.take(k as int).last() == part);
        assert(parts.take(k as int).drop_last() =~= parts.take(k - 1));
        assert(part.len() == b - a);
        if b == a || (b - a == 1 && v[a] == '.') {
            if b - a == 1 {
                assert(part =~= seq!['.']);
            }
            k = k - 1;
        } else if b - a == 2 && v[a] == '.' && v[a + 1] == '.' {
            assert(part =~= seq!['.', '.']);
            return target.to_owned();
        } else {
            assert(part != seq!['.']) by {
                if b - a == 1 {
                    assert(part[0] == v@[a as int]);
                }
            }
            assert(part != seq!['.', '.']) by {
                if b - a == 2 {
                    assert(part[0] == v@[a as int]);
                    assert(part[1] == v@[a + 1]);
                }
            }
            return chars_range_text(&v, a, b);
        }
    }
    assert(parts.take(0) =~= Seq::<Seq<char>>::empty());
    target.to_owned()
}

/// One entry of a tool directory as listed: its name and, for a link, the
/// file name of what the link reads.
pub fn entry_of(name: String, link_target: Option<&str>, sep: char) -> (r: (String, Option<String>))
    ensures
        entry_view(r) == (name@, match link_target {
            Some(t) => Some(listed_target_of(t@, sep)),
            None => None,
        }),
{
    match link_target {
        Some(t) => (name, Some(link_target_name(t, sep))),
        None => (name, None),
    }
}

/// Lists the tags among the entries of a tool directory, leaving out those
/// whose names begin with `ignore_prefix`.
pub fn list_tags(entries: &Vec<(String, Option<String>)>, ignore_prefix: &str) -> (r: Vec<(String, Option<String>)>)
    ensures
        listing_view(r@) == visible(listing_view(entries@), ignore_prefix@),
{
    let mut out: Vec<(String, Option<String>)> = Vec::new();
    let mut i: usize = 0;
    while i < entries.len()
        invariant
            i <= entries@.len(),
            listing_view(out@) == visible(listing_view(entries@.take(i as int)), ignore_prefix@),
        decreases entries@.len() - i,
    {
        let ghost before = out@;
        assert(listing_view(entries@.take(i + 1)).drop_last() =~= listing_view(entries@.take(i as int)));
        assert(listing_view(entries@.take(i + 1)).last() == entry_view(entries@[i as int]));
        if !starts_with_text(entries[i].0.as_str(), ignore_prefix) {
            out.push(clone_entry(&entries[i]));
            assert(listing_view(out@) =~= listing_view(before).push(entry_view(entries@[i as int])));
        }
        i = i + 1;
    }
    assert(entries@.take(entries@.len() as int) == entries@);
    out
}

proof fn lemma_visible_hides(entries: Seq<(Seq<char>, Option<Seq<char>>)>, prefix: Seq<char>)
    ensures
        forall|k: int| 0 <= k < visible(entries, prefix).len() ==> !has_prefix(
            #[trigger] visible(entries, prefix)[k].0,
            prefix,
        ),
    decreases entries.len(),
{
    if entries.len() > 0 {
        lemma_visible_hides(entries.drop_last(), prefix);
        let rest = visible(entries.drop_last(), prefix);
        let v = visible(entries, prefix);
        assert forall|k: int| 0 <= k < v.len() implies !has_prefix(#[trigger] v[k].0, prefix) by {
            if k < rest.len() {
                assert(v[k] == rest[k]);
            }
        }
    }
}

proof fn lemma_visible_keeps(entries: Seq<(Seq<char>, Option<Seq<char>>)>, prefix: Seq<char>, k: int)
    requires
        0 <= k < entries.len(),
        !has_prefix(entries[k].0, prefix),
    ensures
        exists|j: int| 0 <= j < visible(entries, prefix).len() && #[trigger] visible(entries, prefix)[j] == entries[k],
    decreases entries.len(),
{
    let init = entries.drop_last();
    let rest = visible(init, prefix);
    if k == entries.len() - 1 {
        assert(visible(entries, prefix) == rest.push(entries.last()));
        assert(visible(entries, prefix)[rest.len() as int] == entries[k]);
    } else {
        assert(init[k] == entries[k]);
        lemma_visible_keeps(init, prefix, k);
        let j = choose|j: int| 0 <= j < rest.len() && #[trigger] rest[j] == entries[k];
        assert(visible(entries, prefix)[j] == rest[j]);
    }
}

/// Every alias entry that is not scratch is listed, with the file name of
/// what its link reads as its target.
pub proof fn lemma_alias_listed_with_target(
    entries: Seq<(Seq<char>, Option<Seq<char>>)>,
    k: int,
    link: Seq<char>,
    sep: char,
)
    requires
        0 <= k < entries.len(),
        entries[k].1 == Some(listed_target_of(link, sep)),
        !is_scratch(entries[k].0),
    ensures
        exists|j: int| 0 <= j < visible(entries, scratch_prefix()).len()
            && #[trigger] visible(entries, scratch_prefix())[j] == (entries[k].0, Some(listed_target_of(link, sep))),
{
    lemma_visible_keeps(entries, scratch_prefix(), k);
}

/// No listed tag begins with the prefix the listing ignores, in particular
/// no scratch entry is ever listed.
pub proof fn lemma_listing_hides_scratch(entries: Seq<(Seq<char>, Option<Seq<char>>)>)
    ensures
        forall|k: int| 0 <= k < visible(entries, scratch_prefix()).len() ==> !is_scratch(
            #[trigger] visible(entries, scratch_prefix())[k].0,
        ),
{
    lemma_visible_hides(entries, scratch_prefix());
}

/// The first listed alias whose target is `tag`.
pub open spec fn first_alias_of(l: Seq<(Seq<char>, Option<Seq<char>>)>, tag: Seq<char>) -> Option<Seq<char>>
    decreases l.len(),
{
    if l.len() == 0 {
        None
    } else if l[0].1 == Some(tag) {
        Some(l[0].0)
    } else {
        first_alias_of(l.drop_first(), tag)
    }
}

/// Decides whether `tag` may be deleted, given the current listing: an
/// alias target is protected unless dangling aliases are allowed.
pub fn check_delete(listing: &Vec<(String, Option<String>)>, tag: &str, allow_dangling: bool) -> (r: Result<(), TagError>)
    ensures
        allow_dangling ==> r is Ok,
        !allow_dangling ==> match first_alias_of(listing_view(listing@), tag@) {
            Some(a) => r matches Err(TagError::AliasTarget { alias }) && alias@ == a,
            None => r is Ok,
        },
{
    if allow_dangling {
        return Ok(());
    }
    let mut i: usize = 0;
    assert(listing_view(listing@).skip(0) =~= listing_view(listing@));
    while i < listing.len()
        invariant
            !allow_dangling,
            i <= listing@.len(),
            first_alias_of(listing_view(listing@), tag@) == first_alias_of(
                listing_view(listing@).skip(i as int),
                tag@,
            ),
        decreases listing@.len() - i,
    {
        let ghost rest = listing_view(listing@).skip(i as int);
        assert(rest[0] == entry_view(listing@[i as int]));
        assert(rest.drop_first() =~= listing_view(listing@).skip(i + 1));
        if let Some(t) = &listing[i].1 {
            if same_text(t.as_str(), tag) {
                return Err(TagError::AliasTarget { alias: listing[i].0.clone() });
            }
        }
        i = i + 1;
    }
    Ok(())
}

proof fn lemma_first_alias_found(l: Seq<(Seq<char>, Option<Seq<char>>)>, tag: Seq<char>, k: int)
    requires
        0 <= k < l.len(),
        l[k].1 == Some(tag),
    ensures
        first_alias_of(l, tag) is Some,
    decreases k,
{
    if k > 0 && l[0].1 != Some(tag) {
        assert(l.drop_first()[k - 1] == l[k]);
        lemma_first_alias_found(l.drop_first(), tag, k - 1);
    }
}

/// Every listed alias `a -> t` protects `t`: deleting `t` without allowing
/// dangling aliases is refused, before anything is removed.
pub proof fn lemma_alias_protects_target(l: Seq<(Seq<char>, Option<Seq<char>>)>, k: int)
    requires
        0 <= k < l.len(),
        l[k].1 is Some,
    ensures
        first_alias_of(l, l[k].1->Some_0) is Some,
{
    lemma_first_alias_found(l, l[k].1->Some_0, k);
}

/// What `clean` does with one entry.
#[derive(Clone, Copy, Debug, PartialEq, Eq, Structural)]
pub enum CleanAction {
    RemoveScratch,
    RemoveDanglingLink,
    Keep,
}

pub open spec fn clean_action_of(name: Seq<char>, is_link: bool, target_resolves: bool) -> CleanAction {
    if is_scratch(name) {
        CleanAction::RemoveScratch
    } else if is_link && !target_resolves {
        CleanAction::RemoveDanglingLink
    } else {
        CleanAction::Keep
    }
}

/// Scratch entries go; aliases whose target does not resolve go; the rest stays.
pub fn clean_action(name: &str, is_link: bool, target_resolves: bool) -> (r: CleanAction)
    ensures
        r == clean_action_of(name@, is_link, target_resolves),
{
    if is_scratch_name(name) {
        CleanAction::RemoveScratch
    } else if is_link && !target_resolves {
        CleanAction::RemoveDanglingLink
    } else {
        CleanAction::Keep
    }
}

/// A tool directory as a map from entry name to `None` for a concrete
/// directory or `Some(target)` for an alias. In this model an alias
/// resolves when its target is a concrete directory; an alias of an alias
/// is not modelled, and the laws below exclude it.
pub open spec fn resolves(m: Map<Seq<char>, Option<Seq<char>>>, name: Seq<char>) -> bool {
    match m[name] {
        Some(t) => m.contains_key(t) && m[t] is None,
        None => true,
    }
}

pub open spec fn kept_by_clean(m: Map<Seq<char>, Option<Seq<char>>>, name: Seq<char>) -> bool {
    clean_action_of(name, m[name] is Some, resolves(m, name)) == CleanAction::Keep
}

/// The directory after one `clean`.
pub open spec fn clean_store(m: Map<Seq<char>, Option<Seq<char>>>) -> Map<Seq<char>, Option<Seq<char>>> {
    m.restrict(m.dom().filter(|k: Seq<char>| kept_by_clean(m, k)))
}

/// Aliases point at concrete tags, never at scratch entries or other aliases.
pub open spec fn aliases_well_formed(m: Map<Seq<char>, Option<Seq<char>>>) -> bool {
    forall|k: Seq<char>| #[trigger] m.contains_key(k) && m[k] is Some ==> !is_scratch(m[k]->Some_0)
        && !(m.contains_key(m[k]->Some_0) && m[m[k]->Some_0] is Some)
}

/// Cleaning twice leaves the same directory as cleaning once.
pub proof fn lemma_clean_idempotent(m: Map<Seq<char>, Option<Seq<char>>>)
    requires
        aliases_well_formed(m),
    ensures
        clean_store(clean_store(m)) == clean_store(m),
{
    let c = clean_store(m);
    assert forall|k: Seq<char>| c.contains_key(k) implies kept_by_clean(c, k) by {
        assert(kept_by_clean(m, k));
        if let Some(t) = m[k] {
            assert(m.contains_key(t) && m[t] is None);
            assert(!is_scratch(t));
            assert(kept_by_clean(m, t));
            assert(c.contains_key(t));
        }
    }
    assert(clean_store(c) =~= c);
}

/// The directory after an alias `alias -> src` is written.
pub open spec fn alias_store(m: Map<Seq<char>, Option<Seq<char>>>, src: Seq<char>, alias: Seq<char>) -> Map<Seq<char>, Option<Seq<char>>> {
    m.insert(alias, Some(src))
}

/// The directory after a tag is removed.
pub open spec fn delete_store(m: Map<Seq<char>, Option<Seq<char>>>, tag: Seq<char>) -> Map<Seq<char>, Option<Seq<char>>> {
    m.remove(tag)
}

/// The directory after `src` is copied to `dest`.
pub open spec fn copy_store(m: Map<Seq<char>, Option<Seq<char>>>, src: Seq<char>, dest: Seq<char>) -> Map<Seq<char>, Option<Seq<char>>> {
    m.insert(dest, None)
}

/// Writing an alias lists it with its target; deleting it again (which the
/// alias check allows when no alias points at it) leaves it unlisted.
pub proof fn lemma_alias_round_trip(m: Map<Seq<char>, Option<Seq<char>>>, src: Seq<char>, alias: Seq<char>)
    requires
        m.contains_key(src),
        !m.contains_key(alias) || m[alias] is Some,
    ensures
        alias_store(m, src, alias).contains_key(alias),
        alias_store(m, src, alias)[alias] == Some(src),
        alias_store(m, src, alias).contains_key(src),
        !delete_store(alias_store(m, src, alias), alias).contains_key(alias),
{
}

/// A copy that the checks allow leaves both the source and the copy listed.
pub proof fn lemma_copy_lists_both(m: Map<Seq<char>, Option<Seq<char>>>, src: Seq<char>, dest: Seq<char>)
    requires
        m.contains_key(src),
        !m.contains_key(dest),
    ensures
        copy_store(m, src, dest).contains_key(src),
        copy_store(m, src, dest).contains_key(dest),
        copy_store(m, src, dest)[src] == m[src],
{
}

/// State of the name an alias is to be written under.
#[derive(Clone, Copy, Debug, PartialEq, Eq, Structural)]
pub enum LinkState {
    Link,
    NotLink,
    NotFound,
    Failed,
}

/// How to write an alias.
#[derive(Clone, Copy, Debug, PartialEq, Eq, Structural)]
pub enum AliasAction {
    /// Nothing stands under the alias name.
    Create,
    /// An older alias stands there; it is replaced.
    Replace,
}

/// Decides how an alias is written: the source must exist, and only an
/// older alias may be replaced.
pub fn alias_action(src_exists: bool, alias_state: LinkState) -> (r: Result<AliasAction, TagError>)
    ensures
        !src_exists ==> r == Err::<AliasAction, TagError>(TagError::NotFound),
        src_exists ==> r == match alias_state {
            LinkState::Link => Ok(AliasAction::Replace),
            LinkState::NotFound => Ok(AliasAction::Create),
            LinkState::NotLink => Err(TagError::NotAnAlias),
            LinkState::Failed => Err(TagError::Io),
        },
{
    if !src_exists {
        return Err(TagError::NotFound);
    }
    match alias_state {
        LinkState::Link => Ok(AliasAction::Replace),
        LinkState::NotFound => Ok(AliasAction::Create),
        LinkState::NotLink => Err(TagError::NotAnAlias),
        LinkState::Failed => Err(TagError::Io),
    }
}

/// Decides whether `src_tag` may be copied to `dest_tag`.
pub fn check_copy(dest_tag: &str, src_exists: bool, dest_exists: bool) -> (r: Result<(), TagError>)
    ensures
        dest_tag@ == "default"@ ==> r == Err::<(), TagError>(TagError::DefaultNotConcrete),
        dest_tag@ != "default"@ ==> r == if !src_exists {
            Err(TagError::NotFound)
        } else if dest_exists {
            Err(TagError::AlreadyExists)
        } else {
            Ok(())
        },
{
    if same_text(dest_tag, DEFAULT_TAG) {
        return Err(TagError::DefaultNotConcrete);
    }
    if !src_exists {
        return Err(TagError::NotFound);
    }
    if dest_exists {
        return Err(TagError::AlreadyExists);
    }
    Ok(())
}

pub open spec fn install_check(tag: Seq<char>, update: bool, tag_exists: bool, scratch_exists: bool) -> Result<(), TagError> {
    if is_scratch(tag) {
        Err(TagError::Reserved)
    } else if !update && tag_exists {
        Err(TagError::AlreadyExists)
    } else if scratch_exists {
        Err(TagError::Installing)
    } else {
        Ok(())
    }
}

/// With `update`, an existing install of the tag never stops a new one:
/// installing the same release again goes through the same checks.
pub proof fn lemma_update_ignores_existing(tag: Seq<char>, scratch_exists: bool)
    ensures
        install_check(tag, true, true, scratch_exists) == install_check(tag, true, false, scratch_exists),
{
}

/// Decides whether an install of `tag` may start.
pub fn check_install(tag: &str, update: bool, tag_exists: bool, scratch_exists: bool) -> (r: Result<(), TagError>)
    ensures
        r == install_check(tag@, update, tag_exists, scratch_exists),
{
    if is_scratch_name(tag) {
        return Err(TagError::Reserved);
    }
    if !update && tag_exists {
        return Err(TagError::AlreadyExists);
    }
    if scratch_exists {
        return Err(TagError::Installing);
    }
    Ok(())
}

/// What is moved into place after extraction.
#[derive(Clone, Copy, Debug, PartialEq, Eq, Structural)]
pub enum MoveSource {
    /// The single directory the archive unpacked to.
    SingleChild,
    /// The extraction directory itself.
    Whole,
}

/// An archive that unpacked to exactly one directory has that directory
/// installed; otherwise the whole extraction directory is.
pub fn move_source(child_count: usize, first_child_is_dir: bool) -> (r: MoveSource)
    ensures
        r == if child_count == 1 && first_child_is_dir {
            MoveSource::SingleChild
        } else {
            MoveSource::Whole
        },
{
    if child_count == 1 && first_child_is_dir {
        MoveSource::SingleChild
    } else {
        MoveSource::Whole
    }
}

/// What reading a link found.
pub enum GetLinkResult<R> {
    Link(R),
    NotLink,
    NotFound,
    Failed(std::io::Error),
}

#[verifier::external_type_specification]
#[verifier::external_body]
pub struct ExIoError(std::io::Error);

/// The OS error code for "not a link" when reading one.
pub fn not_link_error_code(windows: bool) -> (r: i32)
    ensures
        r == if windows { 4390i32 } else { 22i32 },
{
    if windows { 4390 } else { 22 }
}

/// Sorts a failed link read: a missing entry, an entry that is not a link,
/// or another error.
pub fn link_error_result<R>(err: std::io::Error, not_found: bool, raw_os_error: Option<i32>, windows: bool) -> (r: GetLinkResult<R>)
    ensures
        not_found ==> r is NotFound,
        !not_found && raw_os_error == Some(if windows { 4390i32 } else { 22i32 }) ==> r is NotLink,
        !not_found && raw_os_error != Some(if windows { 4390i32 } else { 22i32 }) ==> (r matches GetLinkResult::Failed(e) && e == err),
{
    if not_found {
        GetLinkResult::NotFound
    } else if raw_os_error == Some(not_link_error_code(windows)) {
        GetLinkResult::NotLink
    } else {
        GetLinkResult::Failed(err)
    }
}

/// The state of an alias name, as `alias_action` takes it.
pub fn link_state<R>(r: &GetLinkResult<R>) -> (s: LinkState)
    ensures
        s == match r {
            GetLinkResult::Link(_) => LinkState::Link,
            GetLinkResult::NotLink => LinkState::NotLink,
            GetLinkResult::NotFound => LinkState::NotFound,
            GetLinkResult::Failed(_) => LinkState::Failed,
        },
{
    match r {
        GetLinkResult::Link(_) => LinkState::Link,
        GetLinkResult::NotLink => LinkState::NotLink,
        GetLinkResult::NotFound => LinkState::NotFound,
        GetLinkResult::Failed(_) => LinkState::Failed,
    }
}

} // verus!
