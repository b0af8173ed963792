//! The facts about a deployment that never change, and the cache that keeps
//! them at hand.

use vstd::prelude::*;
use lru_time_cache::LruCache;
use crate::block::BlockNumber;
use crate::deployment::{
    copy_interfaces, copy_opt_text, graft_block_of, interfaces_view, opt_text, Interface,
    InterfaceView,
};
use crate::error::{StoreError, StoreErrorView};
use crate::state::{Deployment, DeploymentView};

verus! {

/// The generation of the algorithm that makes the proof of indexing.
#[derive(Copy, Clone, Debug, PartialEq, Eq, Structural)]
pub enum ProofOfIndexingVersion {
    Fast,
    Legacy,
}

/// What is read of a semantic version.
#[derive(Debug)]
pub struct SpecVersion {
    pub major: u64,
    pub minor: u64,
    pub patch: u64,
    /// The pre-release part; empty for a release.
    pub pre: String,
}

/// The mathematical value of a `SpecVersion`.
pub struct SpecVersionView {
    pub major: u64,
    pub minor: u64,
    pub patch: u64,
    pub pre: Seq<char>,
}

impl View for SpecVersion {
    type V = SpecVersionView;

    open spec fn view(&self) -> SpecVersionView {
        SpecVersionView { major: self.major, minor: self.minor, patch: self.patch, pre: self.pre@ }
    }
}

impl SpecVersionView {
    /// Whether the version is the release `major.minor.patch` or comes
    /// after it in the order of semantic versions: a pre-release comes
    /// before its release.
    pub open spec fn at_least(self, major: u64, minor: u64, patch: u64) -> bool {
        ||| self.major > major
        ||| self.major == major && self.minor > minor
        ||| self.major == major && self.minor == minor && self.patch > patch
        ||| self.major == major && self.minor == minor && self.patch == patch && self.pre.len()
            == 0
    }
}

impl SpecVersion {
    /// Whether the version is the release `major.minor.patch` or comes
    /// after it.
    pub fn is_at_least(&self, major: u64, minor: u64, patch: u64) -> (res: bool)
        ensures
            res == self@.at_least(major, minor, patch),
    {
        if self.major != major {
            self.major > major
        } else if self.minor != minor {
            self.minor > minor
        } else if self.patch != patch {
            self.patch > patch
        } else {
            self.pre.as_str().is_empty()
        }
    }
}

/// Makes `semver::Error` known: the reason why a text is no semantic
/// version. Nothing is read of it.
#[verifier::external_type_specification]
#[verifier::external_body]
pub struct ExSemverError(semver::Error);

/// What `semver::Version::parse` makes of a text: the numbers of the
/// version and its pre-release part, or nothing where the text is not a
/// semantic version.
pub uninterp spec fn parsed_version(text: Seq<char>) -> Option<SpecVersionView>;

/// Parses a semantic version with `semver::Version::parse`. The result is
/// what that function returns for the text: its three numbers and the text
/// of its pre-release part.
#[verifier::external_body]
pub(crate) fn parse_version(text: &str) -> (res: Result<SpecVersion, semver::Error>)
    ensures
        match res {
            Ok(version) => parsed_version(text@) == Some(version@),
            Err(_) => parsed_version(text@) is None,
        },
{
    match semver::Version::parse(text) {
        Ok(v) => Ok(
            SpecVersion {
                major: v.major,
                minor: v.minor,
                patch: v.patch,
                pre: v.pre.as_str().to_string(),
            },
        ),
        Err(e) => Err(e),
    }
}

/// The algorithm for the proof of indexing that goes with the version of a
/// manifest: the fast one from version 0.0.6 on, the legacy one before.
pub open spec fn poi_version_for(version: SpecVersionView) -> ProofOfIndexingVersion {
    if version.at_least(0, 0, 6) {
        ProofOfIndexingVersion::Fast
    } else {
        ProofOfIndexingVersion::Legacy
    }
}

/// The algorithm for the proof of indexing that goes with the version of a
/// manifest.
pub fn poi_version_of(version: &SpecVersion) -> (res: ProofOfIndexingVersion)
    ensures
        res == poi_version_for(version@),
{
    if version.is_at_least(0, 0, 6) {
        ProofOfIndexingVersion::Fast
    } else {
        ProofOfIndexingVersion::Legacy
    }
}

/// Commonly needed facts about a deployment. None of them changes once the
/// deployment exists, so they can be kept in a cache for as long as the
/// store lives.
#[derive(Debug)]
pub struct SubgraphInfo {
    /// The interfaces of the schema that queries see, with the types that
    /// implement them.
    pub interfaces: Vec<Interface>,
    /// The block at which the deployment was grafted onto another one. The
    /// deployment cannot be reverted past it.
    pub graft_block: Option<BlockNumber>,
    /// The deployment whose store is queried when debugging.
    pub debug_fork: Option<String>,
    pub poi_version: ProofOfIndexingVersion,
}

/// The mathematical value of a `SubgraphInfo`.
pub struct SubgraphInfoView {
    pub interfaces: Seq<InterfaceView>,
    pub graft_block: Option<BlockNumber>,
    pub debug_fork: Option<Seq<char>>,
    pub poi_version: ProofOfIndexingVersion,
}

impl View for SubgraphInfo {
    type V = SubgraphInfoView;

    open spec fn view(&self) -> SubgraphInfoView {
        SubgraphInfoView {
            interfaces: interfaces_view(self.interfaces@),
            graft_block: self.graft_block,
            debug_fork: opt_text(self.debug_fork),
            poi_version: self.poi_version,
        }
    }
}

impl Clone for SubgraphInfo {
    fn clone(&self) -> (res: Self)
        ensures
            res@ == self@,
    {
        SubgraphInfo {
            interfaces: copy_interfaces(&self.interfaces),
            graft_block: self.graft_block,
            debug_fork: copy_opt_text(&self.debug_fork),
            poi_version: self.poi_version,
        }
    }
}

/// The facts that are derived from what the store keeps of a deployment,
/// or the error when the version of its manifest is not a semantic version.
pub open spec fn derived_info(d: DeploymentView) -> Result<SubgraphInfoView, StoreErrorView> {
    match parsed_version(d.spec_version) {
        Some(version) => Ok(
            SubgraphInfoView {
                interfaces: d.interfaces,
                graft_block: graft_block_of(d.graft),
                debug_fork: d.debug_fork,
                poi_version: poi_version_for(version),
            },
        ),
        None => Err(StoreErrorView::InvalidSpecVersion(d.spec_version)),
    }
}

/// What the facts are once the version of the manifest has been parsed.
pub open spec fn info_from(d: DeploymentView, version: SpecVersionView) -> SubgraphInfoView {
    SubgraphInfoView {
        interfaces: d.interfaces,
        graft_block: graft_block_of(d.graft),
        debug_fork: d.debug_fork,
        poi_version: poi_version_for(version),
    }
}

impl Deployment {
    /// Puts together the facts about the deployment, given the parsed
    /// version of its manifest.
    pub fn info_with_version(&self, version: &SpecVersion) -> (info: SubgraphInfo)
        ensures
            info@ == info_from(self@, version@),
    {
        let graft_block = match &self.graft {
            Some(graft) => Some(graft.block.number),
            None => None,
        };
        SubgraphInfo {
            interfaces: copy_interfaces(&self.interfaces),
            graft_block,
            debug_fork: copy_opt_text(&self.debug_fork),
            poi_version: poi_version_of(version),
        }
    }

    /// Derives the facts about the deployment from what the store keeps of
    /// it.
    pub fn derive_info(&self) -> (res: Result<SubgraphInfo, StoreError>)
        ensures
            match res {
                Ok(info) => derived_info(self@) == Ok::<_, StoreErrorView>(info@),
                Err(e) => derived_info(self@) == Err::<SubgraphInfoView, _>(e@),
            },
    {
        match parse_version(self.spec_version.as_str()) {
            Ok(version) => Ok(self.info_with_version(&version)),
            Err(_) => Err(StoreError::InvalidSpecVersion(self.spec_version.clone())),
        }
    }
}

/// Makes `lru_time_cache::LruCache` known. What a cache holds is spoken of
/// through `cache_entries`, `cache_capacity` and `cache_expires`.
#[verifier::external_type_specification]
#[verifier::external_body]
#[verifier::reject_recursive_types(K)]
#[verifier::reject_recursive_types(V)]
pub struct ExLruCache<K, V>(LruCache<K, V>);

/// What a cache of facts holds: its entries, the one that was used longest
/// ago first.
pub uninterp spec fn cache_entries(cache: LruCache<String, SubgraphInfo>) -> Seq<
    (Seq<char>, SubgraphInfoView),
>;

/// The number of entries that a cache of facts was made for.
pub uninterp spec fn cache_capacity(cache: LruCache<String, SubgraphInfo>) -> nat;

/// Whether a cache of facts drops its entries by age: whether it was made
/// with a time to live.
pub uninterp spec fn cache_expires(cache: LruCache<String, SubgraphInfo>) -> bool;

/// Whether no two entries are for the same key.
pub open spec fn keys_distinct(entries: Seq<(Seq<char>, SubgraphInfoView)>) -> bool {
    forall|i: int, j: int|
        #![trigger entries[i], entries[j]]
        0 <= i < j < entries.len() ==> entries[i].0 != entries[j].0
}

/// The position of the first entry for `key` at or after `from`; the number
/// of entries where there is none.
pub open spec fn entry_from(entries: Seq<(Seq<char>, SubgraphInfoView)>, key: Seq<char>, from: int)
    -> int
    decreases entries.len() - from,
{
    if from < 0 || from >= entries.len() {
        entries.len() as int
    } else if entries[from].0 == key {
        from
    } else {
        entry_from(entries, key, from + 1)
    }
}

/// The facts that the entries hold for `key`.
pub open spec fn cached_info(entries: Seq<(Seq<char>, SubgraphInfoView)>, key: Seq<char>)
    -> Option<SubgraphInfoView> {
    let at = entry_from(entries, key, 0);
    if at < entries.len() {
        Some(entries[at].1)
    } else {
        None
    }
}

/// The entries after a lookup of `key`: its entry, if there is one, has
/// become the one that was used last.
pub open spec fn entries_after_get(entries: Seq<(Seq<char>, SubgraphInfoView)>, key: Seq<char>)
    -> Seq<(Seq<char>, SubgraphInfoView)> {
    let at = entry_from(entries, key, 0);
    if at < entries.len() {
        entries.remove(at).push(entries[at])
    } else {
        entries
    }
}

/// The entries of a cache made for `capacity` entries after `info` was
/// stored for `key`: an entry for `key` is replaced; else, where the cache is
/// full, the entries that were used longest ago make room. Either way the
/// new entry is the one that was used last.
pub open spec fn entries_after_insert(
    entries: Seq<(Seq<char>, SubgraphInfoView)>,
    capacity: nat,
    key: Seq<char>,
    info: SubgraphInfoView,
) -> Seq<(Seq<char>, SubgraphInfoView)> {
    let at = entry_from(entries, key, 0);
    if at < entries.len() {
        entries.remove(at).push((key, info))
    } else if entries.len() >= capacity {
        entries.skip(entries.len() - capacity + 1).push((key, info))
    } else {
        entries.push((key, info))
    }
}

/// Makes a cache with `LruCache::with_capacity`: it is empty, made for
/// `capacity` entries, and drops none by age. A cache holds at most one
/// entry for a key.
#[verifier::external_body]
pub(crate) fn new_cache(capacity: usize) -> (cache: LruCache<String, SubgraphInfo>)
    ensures
        cache_entries(cache) == Seq::<(Seq<char>, SubgraphInfoView)>::empty(),
        cache_capacity(cache) == capacity,
        !cache_expires(cache),
        keys_distinct(cache_entries(cache)),
{
    LruCache::with_capacity(capacity)
}

/// Looks `key` up with `LruCache::get`. In a cache that drops no entries by
/// age the lookup moves the entry that it finds to the place of the one
/// used last and changes nothing else.
#[verifier::external_body]
pub(crate) fn cache_get<'a>(cache: &'a mut LruCache<String, SubgraphInfo>, key: &String) -> (res:
    Option<&'a SubgraphInfo>)
    requires
        !cache_expires(*old(cache)),
    ensures
        match res {
            Some(info) => cached_info(cache_entries(*old(cache)), key@) == Some(info@),
            None => cached_info(cache_entries(*old(cache)), key@) is None,
        },
        cache_entries(*final(cache)) == entries_after_get(cache_entries(*old(cache)), key@),
        cache_capacity(*final(cache)) == cache_capacity(*old(cache)),
        !cache_expires(*final(cache)),
        keys_distinct(cache_entries(*final(cache))),
{
    cache.get(key)
}

/// Stores `info` for `key` with `LruCache::insert`, in a cache that drops
/// no entries by age. The cache must have been made for at least one entry:
/// making room in a cache made for none fails.
#[verifier::external_body]
pub(crate) fn cache_insert(cache: &mut LruCache<String, SubgraphInfo>, key: String, info: SubgraphInfo)
    requires
        cache_capacity(*old(cache)) > 0,
        !cache_expires(*old(cache)),
    ensures
        cache_entries(*final(cache)) == entries_after_insert(
            cache_entries(*old(cache)),
            cache_capacity(*old(cache)),
            key@,
            info@,
        ),
        cache_capacity(*final(cache)) == cache_capacity(*old(cache)),
        !cache_expires(*final(cache)),
        keys_distinct(cache_entries(*final(cache))),
{
    let _ = cache.insert(key, info);
}

} // verus!
