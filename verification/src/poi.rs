//! The proof of indexing: gathering, for a block, the digests that the
//! deployment has kept for each causality region, and what else goes into
//! the one digest that is made of them.

use vstd::prelude::*;
use crate::block::{copy_bytes, BlockNumber, BlockPtr, BlockPtrView};
use crate::entity::{attribute_of, AttributeView, Entity, Value, ValueView};
use crate::error::{StoreError, StoreErrorView};
use crate::info::ProofOfIndexingVersion;
use crate::layout::poi_object;
use crate::state::{Deployment, DeploymentView};
use crate::versions::{VersionView, VersionedTable};

verus! {

/// The digest that a deployment has kept for one causality region.
#[derive(Debug)]
pub struct RegionDigest {
    pub region: String,
    pub digest: Vec<u8>,
}

/// The mathematical value of a `RegionDigest`.
pub struct RegionDigestView {
    pub region: Seq<char>,
    pub digest: Seq<u8>,
}

impl View for RegionDigest {
    type V = RegionDigestView;

    open spec fn view(&self) -> RegionDigestView {
        RegionDigestView { region: self.region@, digest: self.digest@ }
    }
}

/// The mathematical values of a list of digests.
pub open spec fn regions_view(regions: Seq<RegionDigest>) -> Seq<RegionDigestView> {
    regions.map_values(|r: RegionDigest| r@)
}

/// What the one digest of a block is made of.
#[derive(Debug)]
pub struct ProofOfIndexingInputs {
    pub block: BlockPtr,
    pub deployment: String,
    /// The address of the indexer who attests to the block.
    pub indexer: Option<[u8; 20]>,
    pub version: ProofOfIndexingVersion,
    /// The digest of each causality region, each region once.
    pub regions: Vec<RegionDigest>,
}

/// The mathematical value of a `ProofOfIndexingInputs`.
pub struct ProofOfIndexingInputsView {
    pub block: BlockPtrView,
    pub deployment: Seq<char>,
    pub indexer: Option<[u8; 20]>,
    pub version: ProofOfIndexingVersion,
    pub regions: Seq<RegionDigestView>,
}

impl View for ProofOfIndexingInputs {
    type V = ProofOfIndexingInputsView;

    open spec fn view(&self) -> ProofOfIndexingInputsView {
        ProofOfIndexingInputsView {
            block: self.block@,
            deployment: self.deployment@,
            indexer: self.indexer,
            version: self.version,
            regions: regions_view(self.regions@),
        }
    }
}

/// The causality region and the digest that an entity carries: its id,
/// which must be a string, and its attribute `digest`, which must be a byte
/// string.
pub open spec fn region_digest(data: Seq<AttributeView>) -> Result<RegionDigestView, StoreErrorView> {
    match attribute_of(data, "id"@) {
        Some(ValueView::String(region)) => match attribute_of(data, "digest"@) {
            Some(ValueView::Bytes(digest)) => Ok(RegionDigestView { region, digest }),
            _ => Err(StoreErrorView::DigestNotBytes(region)),
        },
        _ => Err(StoreErrorView::DigestWithoutRegion),
    }
}

/// The position of the first digest, at or after `from`, of the region
/// `region`; the number of digests where there is none.
pub open spec fn region_from(regions: Seq<RegionDigestView>, region: Seq<char>, from: int) -> int
    decreases regions.len() - from,
{
    if from < 0 || from >= regions.len() {
        regions.len() as int
    } else if regions[from].region == region {
        from
    } else {
        region_from(regions, region, from + 1)
    }
}

/// The digests with `entry` among them: in the place of the digest of its
/// region where there is one, at the end where there is none.
pub open spec fn with_region(regions: Seq<RegionDigestView>, entry: RegionDigestView) -> Seq<
    RegionDigestView,
> {
    let at = region_from(regions, entry.region, 0);
    if at < regions.len() {
        regions.update(at, entry)
    } else {
        regions.push(entry)
    }
}

/// Whether the version holds a digest that is valid at block `block`.
pub open spec fn carries_digest(row: VersionView, block: int) -> bool {
    row.key.entity_type == poi_object() && row.valid_at(block)
}

/// The digests by causality region that the first `n` versions hold for
/// block `block`, or the error of the first version that should hold one
/// and does not.
pub open spec fn digests_at(rows: Seq<VersionView>, block: int, n: int) -> Result<
    Seq<RegionDigestView>,
    StoreErrorView,
>
    decreases n,
{
    if n <= 0 {
        Ok(Seq::empty())
    } else {
        match digests_at(rows, block, n - 1) {
            Ok(regions) => if carries_digest(rows[n - 1], block) {
                match region_digest(rows[n - 1].data) {
                    Ok(entry) => Ok(with_region(regions, entry)),
                    Err(e) => Err(e),
                }
            } else {
                Ok(regions)
            },
            Err(e) => Err(e),
        }
    }
}

/// Whether the deployment can attest to block `block`: it keeps digests,
/// and its head has reached the block. Only the numbers of the blocks are
/// compared; that the block is an ancestor of the head is not checked.
pub open spec fn can_attest(d: DeploymentView, supports: bool, block: BlockPtrView) -> bool {
    supports && (d.head matches Some(head) && head.number >= block.number)
}

/// Reads the causality region and the digest that an entity carries.
pub fn read_region_digest(entity: &Entity) -> (res: Result<RegionDigest, StoreError>)
    ensures
        match res {
            Ok(entry) => region_digest(entity@) == Ok::<_, StoreErrorView>(entry@),
            Err(e) => region_digest(entity@) == Err::<RegionDigestView, _>(e@),
        },
{
    let region = match entity.get("id") {
        Some(Value::String(region)) => region.clone(),
        _ => {
            return Err(StoreError::DigestWithoutRegion);
        },
    };
    match entity.get("digest") {
        Some(Value::Bytes(digest)) => Ok(RegionDigest { region, digest: copy_bytes(digest) }),
        _ => Err(StoreError::DigestNotBytes(region)),
    }
}

/// Puts `entry` among the digests: in the place of the digest of its
/// region where there is one, at the end where there is none.
pub fn add_causality_region(regions: &mut Vec<RegionDigest>, entry: RegionDigest)
    ensures
        regions_view(final(regions)@) == with_region(regions_view(old(regions)@), entry@),
{
    let ghost before = regions_view(regions@);
    let mut i: usize = 0;
    while i < regions.len()
        invariant
            i <= regions.len(),
            regions_view(regions@) == before,
            before == regions_view(old(regions)@),
            region_from(before, entry@.region, 0) == region_from(before, entry@.region, i as int),
        decreases regions.len() - i,
    {
        assert(before[i as int] == regions@[i as int]@);
        if regions[i].region == entry.region {
            assert(region_from(before, entry@.region, i as int) == i);
            regions.set(i, entry);
            assert(regions_view(regions@) =~= before.update(i as int, entry@));
            return ;
        }
        i = i + 1;
    }
    regions.push(entry);
    assert(regions_view(regions@) =~= before.push(entry@));
}

impl VersionedTable {
    /// The digests by causality region that the table holds for block
    /// `block`.
    pub fn digests(&self, block: BlockNumber) -> (res: Result<Vec<RegionDigest>, StoreError>)
        ensures
            match res {
                Ok(regions) => digests_at(self@, block as int, self@.len() as int) == Ok::<
                    _,
                    StoreErrorView,
                >(regions_view(regions@)),
                Err(e) => digests_at(self@, block as int, self@.len() as int) == Err::<
                    Seq<RegionDigestView>,
                    _,
                >(e@),
            },
    {
        let mut regions: Vec<RegionDigest> = Vec::new();
        let mut i: usize = 0;
        assert(regions_view(regions@) =~= Seq::<RegionDigestView>::empty());
        while i < self.rows.len()
            invariant
                i <= self.rows.len(),
                digests_at(self@, block as int, i as int) == Ok::<_, StoreErrorView>(
                    regions_view(regions@),
                ),
            decreases self.rows.len() - i,
        {
            let row = &self.rows[i];
            assert(self@[i as int] == row@);
            let valid = row.start <= block && match row.end {
                Some(end) => block < end,
                None => true,
            };
            if valid && crate::entity::str_eq(row.key.entity_type.as_str(), "Poi$") {
                match read_region_digest(&row.data) {
                    Ok(entry) => {
                        add_causality_region(&mut regions, entry);
                    },
                    Err(e) => {
                        proof {
                            lemma_digest_error_stays(
                                self@,
                                block as int,
                                i + 1,
                                self@.len() as int,
                            );
                        }
                        return Err(e);
                    },
                }
            }
            i = i + 1;
        }
        Ok(regions)
    }
}

/// Once a version has failed to hold its digest, the gathering ends in
/// that error however many versions follow.
pub proof fn lemma_digest_error_stays(rows: Seq<VersionView>, block: int, k: int, n: int)
    requires
        k <= n,
        digests_at(rows, block, k) is Err,
    ensures
        digests_at(rows, block, n) == digests_at(rows, block, k),
    decreases n - k,
{
    if k < n {
        lemma_digest_error_stays(rows, block, k, n - 1);
    }
}

impl Deployment {
    /// The digests by causality region for block `block`, as far as the
    /// deployment can attest to that block: `None` where it keeps no
    /// digests (`supports` says whether it does), has no head, or has its
    /// head before the block.
    pub fn digests_for(&self, supports: bool, block: &BlockPtr) -> (res: Result<
        Option<Vec<RegionDigest>>,
        StoreError,
    >)
        ensures
            match res {
                Ok(Some(regions)) => can_attest(self@, supports, block@) && digests_at(
                    self@.rows,
                    block@.number as int,
                    self@.rows.len() as int,
                ) == Ok::<_, StoreErrorView>(regions_view(regions@)),
                Ok(None) => !can_attest(self@, supports, block@),
                Err(e) => can_attest(self@, supports, block@) && digests_at(
                    self@.rows,
                    block@.number as int,
                    self@.rows.len() as int,
                ) == Err::<Seq<RegionDigestView>, _>(e@),
            },
    {
        if !supports {
            return Ok(None);
        }
        let reached = match &self.latest_block {
            Some(head) => head.number >= block.number,
            None => false,
        };
        if !reached {
            return Ok(None);
        }
        let regions = self.table.digests(block.number)?;
        Ok(Some(regions))
    }
}

} // verus!
