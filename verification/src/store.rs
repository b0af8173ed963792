//! The store: the router over the database replicas, the cache of facts
//! about deployments, and the operations on a deployment that need them.

use vstd::prelude::*;
use lru_time_cache::LruCache;
use std::sync::atomic::AtomicUsize;
use std::sync::atomic::Ordering;
use crate::block::{BlockNumber, BlockPtr};
use crate::deployment::{
    errors_view, sources_view, FirehoseCursor, StoreEvent, StoredDynamicDataSource, SubgraphError,
    UnfailOutcome,
};
use crate::entity::{batch_view, EntityModification};
use crate::error::{StoreError, StoreErrorView};
use crate::info::{
    cache_capacity, cache_entries, cache_expires, cache_get, cache_insert, cached_info,
    derived_info,
    entries_after_get, entries_after_insert, entry_from, keys_distinct, new_cache, SubgraphInfo,
    SubgraphInfoView,
};
use crate::layout::{cached_layout, Layout, LayoutCache, LayoutView};
use crate::poi::{can_attest, digests_at, ProofOfIndexingInputs, ProofOfIndexingInputsView};
use crate::replica::{
    build_weighted_order, is_replica, lemma_shuffle_keeps_replicas, lemma_weighted_order_len,
    lemma_weighted_order_replicas, names_replicas, shuffle_order, total_weight, weighted_order,
    ReplicaId,
};
use crate::state::{changed_types, reverted_to, transacted, Deployment, DeploymentView};
use crate::unfail::{failed_at, unfailed_deterministic};
use crate::versions::reverted_types;

verus! {

/// The number of deployments whose facts the store keeps at hand.
pub const SUBGRAPH_CACHE_CAPACITY: usize = 100;

/// The replica for the read that takes the counter value `counter`: the
/// main replica for a subscription, else the entry of the schedule at the
/// counter, taken round the length of the schedule.
pub open spec fn selected(order: Seq<ReplicaId>, counter: int, for_subscription: bool) -> ReplicaId {
    if for_subscription {
        ReplicaId::Main
    } else {
        order[counter % (order.len() as int)]
    }
}

/// Picks the replica for the read that takes the counter value `counter`.
pub fn select_replica(order: &Vec<ReplicaId>, counter: usize, for_subscription: bool) -> (replica:
    ReplicaId)
    requires
        order@.len() > 0,
    ensures
        replica == selected(order@, counter as int, for_subscription),
{
    if for_subscription {
        ReplicaId::Main
    } else {
        order[counter % order.len()]
    }
}

/// What the store holds.
pub struct StoreInner {
    /// The number of read-only replicas.
    read_only_pools: usize,
    /// A list of the available replicas set up such that when we run
    /// through the list once, we picked each replica according to its
    /// desired weight. Each replica can appear multiple times in the list.
    replica_order: Vec<ReplicaId>,
    /// The current position in `replica_order` so we know which one to
    /// pick next.
    conn_round_robin_counter: AtomicUsize,
    /// A cache of commonly needed data about a subgraph.
    subgraph_cache: LruCache<String, SubgraphInfo>,
    /// A cache for the layout metadata for subgraphs.
    layout_cache: LayoutCache,
}

/// Storage of the data for individual deployments.
pub struct DeploymentStore(StoreInner);

/// The layout of a deployment as its tables are in the database.
pub open spec fn layout_of(d: DeploymentView) -> LayoutView {
    LayoutView { deployment: d.id, namespace: d.namespace, tables: d.tables }
}

impl Deployment {
    /// Puts the layout of the deployment together from its tables.
    pub fn layout(&self) -> (res: Layout)
        ensures
            res@ == layout_of(self@),
    {
        Layout {
            deployment: self.id.clone(),
            namespace: self.namespace.clone(),
            tables: crate::layout::copy_tables(&self.tables),
        }
    }
}

/// The facts that the store hands out for a deployment: those in the
/// cache, where it has an entry for the deployment, else those derived from
/// the deployment.
pub open spec fn info_for(entries: Seq<(Seq<char>, SubgraphInfoView)>, d: DeploymentView) -> Result<
    SubgraphInfoView,
    StoreErrorView,
> {
    match cached_info(entries, d.id) {
        Some(info) => Ok(info),
        None => derived_info(d),
    }
}

/// The entries of the cache after the store has handed out the facts for a
/// deployment: the entry of the deployment is the one used last, and it is
/// new where the cache had none and the facts could be derived.
pub open spec fn entries_after_info(
    entries: Seq<(Seq<char>, SubgraphInfoView)>,
    capacity: nat,
    d: DeploymentView,
) -> Seq<(Seq<char>, SubgraphInfoView)> {
    match cached_info(entries, d.id) {
        Some(_) => entries_after_get(entries, d.id),
        None => match derived_info(d) {
            Ok(info) => entries_after_insert(entries, capacity, d.id, info),
            Err(_) => entries,
        },
    }
}

impl DeploymentStore {
    /// The store is usable: its schedule names at least one replica, and
    /// its cache was made for at least one entry, holds no more entries
    /// than it was made for, and drops none by age.
    pub closed spec fn wf(&self) -> bool {
        &&& self.0.replica_order@.len() > 0
        &&& cache_capacity(self.0.subgraph_cache) > 0
        &&& !cache_expires(self.0.subgraph_cache)
        &&& cache_entries(self.0.subgraph_cache).len() <= cache_capacity(self.0.subgraph_cache)
        &&& keys_distinct(cache_entries(self.0.subgraph_cache))
        &&& names_replicas(self.0.replica_order@, self.0.read_only_pools as nat)
    }

    /// What a usable store can be relied on for.
    pub proof fn lemma_wf(&self)
        requires
            self.wf(),
        ensures
            self.replica_order().len() > 0,
            self.capacity() > 0,
            self.cached().len() <= self.capacity(),
            keys_distinct(self.cached()),
            names_replicas(self.replica_order(), self.read_only_pools()),
    {
    }

    /// The schedule by which reads are spread over the replicas.
    pub closed spec fn replica_order(&self) -> Seq<ReplicaId> {
        self.0.replica_order@
    }

    /// The number of read-only replicas.
    pub closed spec fn read_only_pools(&self) -> nat {
        self.0.read_only_pools as nat
    }

    /// The entries of the cache of facts, the one used longest ago first.
    pub closed spec fn cached(&self) -> Seq<(Seq<char>, SubgraphInfoView)> {
        cache_entries(self.0.subgraph_cache)
    }

    /// The number of entries that the cache of facts was made for.
    pub closed spec fn capacity(&self) -> nat {
        cache_capacity(self.0.subgraph_cache)
    }

    /// The layouts that the store keeps at hand.
    pub closed spec fn layouts(&self) -> Seq<LayoutView> {
        self.0.layout_cache@
    }

    /// A store over the main pool and `read_only_pools` read-only replicas.
    /// The schedule for reads holds each replica as often as its weight in
    /// `pool_weights` says, the main pool first; a replica without a weight
    /// has weight 1, and weights beyond the last replica are ignored. The
    /// schedule is shuffled once. Weights that are all zero leave no replica
    /// to read from: they are an error.
    pub fn new(read_only_pools: usize, pool_weights: Vec<usize>) -> (res: Result<Self, StoreError>)
        requires
            read_only_pools < usize::MAX,
        ensures
            match res {
                Ok(store) => {
                    &&& total_weight(pool_weights@, (read_only_pools + 1) as nat) > 0
                    &&& store.wf()
                    &&& store.read_only_pools() == read_only_pools
                    &&& store.replica_order().to_multiset() == weighted_order(
                        pool_weights@,
                        (read_only_pools + 1) as nat,
                    ).to_multiset()
                    &&& store.replica_order().len() == total_weight(
                        pool_weights@,
                        (read_only_pools + 1) as nat,
                    )
                    &&& store.cached() == Seq::<(Seq<char>, SubgraphInfoView)>::empty()
                    &&& store.capacity() == SUBGRAPH_CACHE_CAPACITY
                    &&& store.layouts() == Seq::<LayoutView>::empty()
                },
                Err(e) => total_weight(pool_weights@, (read_only_pools + 1) as nat) == 0 && e@
                    == StoreErrorView::NoReplica,
            },
    {
        let mut replica_order = build_weighted_order(&pool_weights, read_only_pools + 1);
        let ghost unshuffled = replica_order@;
        proof {
            lemma_weighted_order_len(pool_weights@, (read_only_pools + 1) as nat);
            lemma_weighted_order_replicas(pool_weights@, (read_only_pools + 1) as nat);
            replica_order@.to_multiset_ensures();
        }
        if replica_order.len() == 0 {
            return Err(StoreError::NoReplica);
        }
        shuffle_order(&mut replica_order);
        proof {
            replica_order@.to_multiset_ensures();
            lemma_shuffle_keeps_replicas(unshuffled, replica_order@, read_only_pools as nat);
        }
        Ok(
            DeploymentStore(
                StoreInner {
                    read_only_pools,
                    replica_order,
                    conn_round_robin_counter: AtomicUsize::new(0),
                    subgraph_cache: new_cache(SUBGRAPH_CACHE_CAPACITY),
                    layout_cache: LayoutCache::new(),
                },
            ),
        )
    }

    /// Takes the next value of the counter that all readers share. Other
    /// readers take values at the same time, so nothing is known of it.
    fn next_counter(&self) -> usize {
        self.0.conn_round_robin_counter.fetch_add(1, Ordering::SeqCst)
    }

    /// The replica for the next read. A subscription reads from the main
    /// replica. Any other read takes the next value of a counter that all
    /// readers share, and with it the replica that `selected` names.
    pub fn replica_for_query(&self, for_subscription: bool) -> (res: Result<ReplicaId, StoreError>)
        requires
            self.wf(),
        ensures
            res matches Ok(replica) && (for_subscription ==> replica == ReplicaId::Main) && (
            !for_subscription ==> exists|counter: int|
                0 <= counter && replica == selected(self.replica_order(), counter, false))
                && is_replica(replica, self.read_only_pools()),
    {
        if for_subscription {
            return Ok(ReplicaId::Main);
        }
        let counter: usize = self.next_counter();
        let replica = select_replica(&self.0.replica_order, counter, false);
        assert(replica == selected(self.replica_order(), counter as int, false));
        Ok(replica)
    }

    /// The layout of a deployment. Putting a layout together takes some
    /// work, so the store keeps the layouts that it has handed out. While
    /// a migration of the deployment is pending its tables can change
    /// behind the back of the store: the layout is then read anew at every
    /// call, and what the store has kept of it is dropped, so that the first
    /// call after the migration keeps the new layout.
    pub fn layout(&mut self, deployment: &Deployment) -> (res: Layout)
        requires
            old(self).wf(),
        ensures
            final(self).wf(),
            res@ == layout_for(old(self).layouts(), deployment@),
            deployment@.pending_migration ==> res@ == layout_of(deployment@),
            final(self).layouts() == layouts_after(old(self).layouts(), deployment@),
            final(self).cached() == old(self).cached(),
            final(self).capacity() == old(self).capacity(),
            final(self).replica_order() == old(self).replica_order(),
            final(self).read_only_pools() == old(self).read_only_pools(),
    {
        if deployment.pending_migration {
            self.0.layout_cache.remove(&deployment.id);
            return deployment.layout();
        }
        if let Some(layout) = self.0.layout_cache.find(&deployment.id) {
            return layout.clone();
        }
        let layout = deployment.layout();
        self.0.layout_cache.cache(layout.clone());
        layout
    }

    /// The layout of a deployment, for a caller that holds no connection
    /// to the database: where no migration is pending the cache is asked
    /// first, so that no connection is taken where the cache has the
    /// layout.
    pub fn find_layout(&mut self, deployment: &Deployment) -> (res: Layout)
        requires
            old(self).wf(),
        ensures
            final(self).wf(),
            res@ == layout_for(old(self).layouts(), deployment@),
            deployment@.pending_migration ==> res@ == layout_of(deployment@),
            final(self).layouts() == layouts_after(old(self).layouts(), deployment@),
            final(self).cached() == old(self).cached(),
            final(self).capacity() == old(self).capacity(),
            final(self).replica_order() == old(self).replica_order(),
            final(self).read_only_pools() == old(self).read_only_pools(),
    {
        if !deployment.pending_migration {
            if let Some(layout) = self.0.layout_cache.find(&deployment.id) {
                return layout.clone();
            }
        }
        self.layout(deployment)
    }

    /// The facts about a deployment, from the cache where it has them;
    /// else they are derived from the deployment and put into the cache.
    pub fn subgraph_info_with_conn(&mut self, deployment: &Deployment) -> (res: Result<
        SubgraphInfo,
        StoreError,
    >)
        requires
            old(self).wf(),
        ensures
            final(self).wf(),
            match res {
                Ok(info) => info_for(old(self).cached(), deployment@) == Ok::<_, StoreErrorView>(
                    info@,
                ),
                Err(e) => info_for(old(self).cached(), deployment@) == Err::<SubgraphInfoView, _>(
                    e@,
                ),
            },
            final(self).cached() == entries_after_info(
                old(self).cached(),
                old(self).capacity(),
                deployment@,
            ),
            final(self).capacity() == old(self).capacity(),
            final(self).replica_order() == old(self).replica_order(),
            final(self).layouts() == old(self).layouts(),
            final(self).read_only_pools() == old(self).read_only_pools(),
    {
        proof {
            lemma_entry_found(old(self).cached(), deployment@.id, 0);
        }
        let found = match cache_get(&mut self.0.subgraph_cache, &deployment.id) {
            Some(info) => Some(info.clone()),
            None => None,
        };
        if let Some(info) = found {
            return Ok(info);
        }
        let info = deployment.derive_info()?;
        let found = info.clone();
        cache_insert(&mut self.0.subgraph_cache, deployment.id.clone(), info);
        Ok(found)
    }

    /// The number of errors on record for a deployment.
    pub fn error_count(&self, deployment: &Deployment) -> (res: Result<usize, StoreError>)
        ensures
            res matches Ok(n) && n == deployment@.errors.len(),
    {
        Ok(deployment.error_count())
    }

    /// The facts about a deployment.
    pub fn subgraph_info(&mut self, deployment: &Deployment) -> (res: Result<SubgraphInfo, StoreError>)
        requires
            old(self).wf(),
        ensures
            final(self).wf(),
            match res {
                Ok(info) => info_for(old(self).cached(), deployment@) == Ok::<_, StoreErrorView>(
                    info@,
                ),
                Err(e) => info_for(old(self).cached(), deployment@) == Err::<SubgraphInfoView, _>(
                    e@,
                ),
            },
            final(self).cached() == entries_after_info(
                old(self).cached(),
                old(self).capacity(),
                deployment@,
            ),
            final(self).capacity() == old(self).capacity(),
            final(self).replica_order() == old(self).replica_order(),
            final(self).layouts() == old(self).layouts(),
            final(self).read_only_pools() == old(self).read_only_pools(),
    {
        self.subgraph_info_with_conn(deployment)
    }
}

impl DeploymentStore {
    /// Applies the changes of block `block_ptr_to` to the deployment and
    /// moves its head there, all of it or nothing: the entity changes, each
    /// checked against the interfaces that the facts about the deployment
    /// name; the new data sources and the removal of the off-chain ones;
    /// the deterministic errors of the block; the head, the cursor and the
    /// entity count. Returns the notice of the changes, made from the batch
    /// as it was handed in.
    pub fn transact_block_operations(
        &mut self,
        deployment: &mut Deployment,
        block_ptr_to: &BlockPtr,
        firehose_cursor: &FirehoseCursor,
        mods: &Vec<EntityModification>,
        data_sources: &Vec<StoredDynamicDataSource>,
        deterministic_errors: &Vec<SubgraphError>,
        offchain_to_remove: &Vec<StoredDynamicDataSource>,
    ) -> (res: Result<StoreEvent, StoreError>)
        requires
            old(self).wf(),
        ensures
            final(self).wf(),
            final(self).cached() == entries_after_info(
                old(self).cached(),
                old(self).capacity(),
                old(deployment)@,
            ),
            final(self).capacity() == old(self).capacity(),
            final(self).replica_order() == old(self).replica_order(),
            final(self).layouts() == old(self).layouts(),
            match info_for(old(self).cached(), old(deployment)@) {
                Ok(info) => match res {
                    Ok(event) => transacted(
                        old(deployment)@,
                        info.interfaces,
                        block_ptr_to@,
                        firehose_cursor@,
                        batch_view(mods@),
                        sources_view(data_sources@),
                        errors_view(deterministic_errors@),
                        sources_view(offchain_to_remove@),
                    ) == Ok::<_, StoreErrorView>(final(deployment)@) && event@.deployment == old(
                        deployment,
                    )@.id && event@.entity_types == changed_types(
                        batch_view(mods@),
                        mods@.len() as int,
                    ),
                    Err(e) => transacted(
                        old(deployment)@,
                        info.interfaces,
                        block_ptr_to@,
                        firehose_cursor@,
                        batch_view(mods@),
                        sources_view(data_sources@),
                        errors_view(deterministic_errors@),
                        sources_view(offchain_to_remove@),
                    ) == Err::<DeploymentView, _>(e@) && final(deployment)@ == old(deployment)@,
                },
                Err(failure) => res matches Err(e) && e@ == failure && final(deployment)@ == old(
                    deployment,
                )@,
            },
    {
        let info = self.subgraph_info_with_conn(deployment)?;
        deployment.transact(
            &info.interfaces,
            block_ptr_to,
            firehose_cursor,
            mods,
            data_sources,
            deterministic_errors,
            offchain_to_remove,
        )
    }

    /// Rewinds the deployment to the earlier block `block_ptr_to` at an
    /// operator's request and resets its cursor. The deployment must have a
    /// head. A target that is not before the head is a constraint
    /// violation; a target before the graft point that the facts about the
    /// deployment name is refused.
    pub fn rewind(&mut self, deployment: &mut Deployment, block_ptr_to: BlockPtr) -> (res: Result<
        StoreEvent,
        StoreError,
    >)
        requires
            old(self).wf(),
            old(deployment)@.head is Some,
        ensures
            final(self).wf(),
            final(self).capacity() == old(self).capacity(),
            final(self).replica_order() == old(self).replica_order(),
            final(self).layouts() == old(self).layouts(),
            block_ptr_to@.number >= old(deployment)@.head->0.number ==> final(self).cached() == old(
                self,
            ).cached() && final(deployment)@ == old(deployment)@ && (res matches Err(e) && e@
                == StoreErrorView::ConstraintViolation(
                crate::error::ConstraintViolation::RewindForward {
                    from: old(deployment)@.head->0.number,
                    to: block_ptr_to@.number,
                },
            )),
            block_ptr_to@.number < old(deployment)@.head->0.number ==> final(self).cached()
                == entries_after_info(old(self).cached(), old(self).capacity(), old(deployment)@)
                && reverted_with(
                info_for(old(self).cached(), old(deployment)@),
                old(deployment)@,
                block_ptr_to@,
                None,
                res,
                final(deployment)@,
            ),
    {
        let from: BlockNumber = match &deployment.latest_block {
            Some(head) => head.number,
            None => 0,
        };
        if from <= block_ptr_to.number {
            return Err(
                StoreError::ConstraintViolation(
                    crate::error::ConstraintViolation::RewindForward {
                        from,
                        to: block_ptr_to.number,
                    },
                ),
            );
        }
        let info = self.subgraph_info_with_conn(deployment)?;
        deployment.rewind(info.graft_block, block_ptr_to)
    }

    /// Reverts the deployment to the earlier block `block_ptr_to` after a
    /// reorganisation of the chain and stores the cursor of the caller. The
    /// target must be before the head of the deployment. A target before
    /// the graft point that the facts about the deployment name is refused.
    pub fn revert_block_operations(
        &mut self,
        deployment: &mut Deployment,
        block_ptr_to: BlockPtr,
        firehose_cursor: &FirehoseCursor,
    ) -> (res: Result<StoreEvent, StoreError>)
        requires
            old(self).wf(),
            old(deployment)@.head is Some,
            block_ptr_to@.number < old(deployment)@.head->0.number,
        ensures
            final(self).wf(),
            final(self).capacity() == old(self).capacity(),
            final(self).replica_order() == old(self).replica_order(),
            final(self).layouts() == old(self).layouts(),
            final(self).cached() == entries_after_info(
                old(self).cached(),
                old(self).capacity(),
                old(deployment)@,
            ),
            reverted_with(
                info_for(old(self).cached(), old(deployment)@),
                old(deployment)@,
                block_ptr_to@,
                firehose_cursor@,
                res,
                final(deployment)@,
            ),
    {
        let info = self.subgraph_info_with_conn(deployment)?;
        deployment.revert_block_operations(info.graft_block, block_ptr_to, firehose_cursor)
    }

    /// Clears a deterministic fatal error that stopped the deployment at
    /// its head `current_ptr`, by going back to `parent_ptr`; see
    /// `Deployment::unfail_deterministic_error`. The facts about the
    /// deployment are looked up only where the block has to be reverted.
    pub fn unfail_deterministic_error(
        &mut self,
        deployment: &mut Deployment,
        current_ptr: &BlockPtr,
        parent_ptr: &BlockPtr,
    ) -> (res: Result<UnfailOutcome, StoreError>)
        requires
            old(self).wf(),
            failed_at(old(deployment)@, current_ptr@) ==> old(deployment)@.head is Some
                && parent_ptr@.number < old(deployment)@.head->0.number,
        ensures
            final(self).wf(),
            final(self).capacity() == old(self).capacity(),
            final(self).replica_order() == old(self).replica_order(),
            final(self).layouts() == old(self).layouts(),
            !failed_at(old(deployment)@, current_ptr@) ==> final(self).cached() == old(
                self,
            ).cached() && final(deployment)@ == old(deployment)@ && (res matches Ok(outcome)
                && outcome == UnfailOutcome::Noop),
            failed_at(old(deployment)@, current_ptr@) ==> final(self).cached()
                == entries_after_info(old(self).cached(), old(self).capacity(), old(deployment)@)
                && match info_for(old(self).cached(), old(deployment)@) {
                Ok(info) => match res {
                    Ok(outcome) => unfailed_deterministic(
                        old(deployment)@,
                        info.graft_block,
                        current_ptr@,
                        parent_ptr@,
                    ) == Ok::<_, StoreErrorView>((outcome, final(deployment)@)),
                    Err(e) => unfailed_deterministic(
                        old(deployment)@,
                        info.graft_block,
                        current_ptr@,
                        parent_ptr@,
                    ) == Err::<(UnfailOutcome, DeploymentView), _>(e@) && final(deployment)@
                        == old(deployment)@,
                },
                Err(failure) => res matches Err(e) && e@ == failure && final(deployment)@ == old(
                    deployment,
                )@,
            },
    {
        if !deployment.stopped_at(current_ptr) {
            return Ok(UnfailOutcome::Noop);
        }
        let info = self.subgraph_info_with_conn(deployment)?;
        deployment.unfail_deterministic_error(info.graft_block, current_ptr, parent_ptr)
    }
}

/// The layout that the store hands out for a deployment: while a migration
/// is pending, the one that the tables of the deployment give; else the one
/// in the cache, where it has one, and the one that the tables give where it
/// has none.
pub open spec fn layout_for(layouts: Seq<LayoutView>, d: DeploymentView) -> LayoutView {
    if d.pending_migration {
        layout_of(d)
    } else {
        match cached_layout(layouts, d.id) {
            Some(layout) => layout,
            None => layout_of(d),
        }
    }
}

/// The layouts that the store keeps after it has handed out the layout of
/// a deployment: while a migration is pending, none of that deployment;
/// else the one that it handed out.
pub open spec fn layouts_after(layouts: Seq<LayoutView>, d: DeploymentView) -> Seq<LayoutView> {
    if d.pending_migration {
        crate::layout::without_layout(layouts, d.id, layouts.len() as int)
    } else if cached_layout(layouts, d.id) is None {
        layouts.push(layout_of(d))
    } else {
        layouts
    }
}

/// Whether a layout has a table for the digests of the proof of indexing.
pub open spec fn keeps_digests(layout: LayoutView) -> bool {
    crate::layout::table_for_entity(layout.tables, crate::layout::poi_object(), 0)
        < layout.tables.len()
}

/// What the proof of indexing of block `block` is made of, for the indexer
/// `indexer`: nothing where the deployment cannot attest to the block; else
/// the digests that it holds for the block, with the block, the deployment,
/// the indexer and the algorithm that the facts about the deployment name.
pub open spec fn poi_inputs(
    d: DeploymentView,
    layout: LayoutView,
    info: Result<SubgraphInfoView, StoreErrorView>,
    indexer: Option<[u8; 20]>,
    block: crate::block::BlockPtrView,
) -> Result<Option<ProofOfIndexingInputsView>, StoreErrorView> {
    if !can_attest(d, keeps_digests(layout), block) {
        Ok(None)
    } else {
        match digests_at(d.rows, block.number as int, d.rows.len() as int) {
            Ok(regions) => match info {
                Ok(info) => Ok(
                    Some(
                        ProofOfIndexingInputsView {
                            block,
                            deployment: d.id,
                            indexer,
                            version: info.poi_version,
                            regions,
                        },
                    ),
                ),
                Err(e) => Err(e),
            },
            Err(e) => Err(e),
        }
    }
}

/// Whether `res` is the mathematical value `expected`.
pub open spec fn is_inputs(
    res: Result<Option<ProofOfIndexingInputs>, StoreError>,
    expected: Result<Option<ProofOfIndexingInputsView>, StoreErrorView>,
) -> bool {
    match res {
        Ok(Some(inputs)) => expected == Ok::<_, StoreErrorView>(Some(inputs@)),
        Ok(None) => expected == Ok::<_, StoreErrorView>(None::<ProofOfIndexingInputsView>),
        Err(e) => expected == Err::<Option<ProofOfIndexingInputsView>, _>(e@),
    }
}

impl DeploymentStore {
    /// Gathers what the proof of indexing of block `block` is made of, for
    /// the indexer `indexer`. The result depends on the deployment, the
    /// block, the indexer and the caches of the store, and on nothing else:
    /// it is what `poi_inputs` says. The facts about the deployment are
    /// looked up only where digests were found.
    pub fn get_proof_of_indexing(
        &mut self,
        deployment: &Deployment,
        indexer: &Option<[u8; 20]>,
        block: BlockPtr,
    ) -> (res: Result<Option<ProofOfIndexingInputs>, StoreError>)
        requires
            old(self).wf(),
        ensures
            final(self).wf(),
            is_inputs(
                res,
                poi_inputs(
                    deployment@,
                    layout_for(old(self).layouts(), deployment@),
                    info_for(old(self).cached(), deployment@),
                    *indexer,
                    block@,
                ),
            ),
            final(self).layouts() == layouts_after(old(self).layouts(), deployment@),
            final(self).cached() == (if can_attest(
                deployment@,
                keeps_digests(layout_for(old(self).layouts(), deployment@)),
                block@,
            ) && digests_at(
                deployment@.rows,
                block@.number as int,
                deployment@.rows.len() as int,
            ) is Ok {
                entries_after_info(old(self).cached(), old(self).capacity(), deployment@)
            } else {
                old(self).cached()
            }),
            final(self).capacity() == old(self).capacity(),
            final(self).replica_order() == old(self).replica_order(),
    {
        let layout = self.layout(deployment);
        let supports = layout.supports_proof_of_indexing();
        let regions = match deployment.digests_for(supports, &block)? {
            Some(regions) => regions,
            None => {
                return Ok(None);
            },
        };
        let info = self.subgraph_info(deployment)?;
        Ok(
            Some(
                ProofOfIndexingInputs {
                    block,
                    deployment: deployment.id.clone(),
                    indexer: *indexer,
                    version: info.poi_version,
                    regions,
                },
            ),
        )
    }
}

/// What a revert by the store comes to, given the facts `info` that it has
/// of the deployment `d`: with the facts, `res` and the deployment `after`
/// are what `reverted_to` says for the graft block of the facts; without
/// them, `res` is the error that kept them from the store, and the
/// deployment is as it was.
pub open spec fn reverted_with(
    info: Result<SubgraphInfoView, StoreErrorView>,
    d: DeploymentView,
    target: crate::block::BlockPtrView,
    cursor: Option<Seq<char>>,
    res: Result<StoreEvent, StoreError>,
    after: DeploymentView,
) -> bool {
    match info {
        Ok(info) => match res {
            Ok(event) => reverted_to(d, info.graft_block, target, cursor) == Ok::<
                _,
                StoreErrorView,
            >(after) && event@.deployment == d.id && event@.entity_types == reverted_types(
                d.rows,
                target.number + 1,
                d.rows.len() as int,
            ),
            Err(e) => reverted_to(d, info.graft_block, target, cursor) == Err::<DeploymentView, _>(
                e@,
            ) && after == d,
        },
        Err(failure) => res matches Err(e) && e@ == failure && after == d,
    }
}

proof fn lemma_first_entry(
    entries: Seq<(Seq<char>, SubgraphInfoView)>,
    key: Seq<char>,
    from: int,
    at: int,
)
    requires
        0 <= from <= at < entries.len(),
        entries[at].0 == key,
        forall|j: int| from <= j < at ==> (#[trigger] entries[j]).0 != key,
    ensures
        entry_from(entries, key, from) == at,
    decreases at - from,
{
    if from < at {
        assert(entries[from].0 != key);
        lemma_first_entry(entries, key, from + 1, at);
    }
}

proof fn lemma_no_entry(entries: Seq<(Seq<char>, SubgraphInfoView)>, key: Seq<char>, from: int)
    requires
        0 <= from,
        entry_from(entries, key, from) >= entries.len(),
    ensures
        forall|j: int| from <= j < entries.len() ==> (#[trigger] entries[j]).0 != key,
    decreases entries.len() - from,
{
    if from < entries.len() {
        lemma_no_entry(entries, key, from + 1);
    }
}

/// What was put into a cache that had nothing for the key is what the
/// cache holds for the key, and a lookup of it leaves the cache as it is.
pub proof fn lemma_inserted_is_cached(
    entries: Seq<(Seq<char>, SubgraphInfoView)>,
    capacity: nat,
    key: Seq<char>,
    info: SubgraphInfoView,
)
    requires
        capacity > 0,
        cached_info(entries, key) is None,
    ensures
        cached_info(entries_after_insert(entries, capacity, key, info), key) == Some(info),
        entries_after_get(entries_after_insert(entries, capacity, key, info), key)
            == entries_after_insert(entries, capacity, key, info),
{
    let after = entries_after_insert(entries, capacity, key, info);
    lemma_no_entry(entries, key, 0);
    lemma_first_entry(after, key, 0, after.len() - 1);
    assert(after.remove(after.len() - 1).push(after[after.len() - 1]) =~= after);
}

/// The facts that the store hands out for a deployment are the same at the
/// next call, whatever the first call did to the cache.
pub proof fn lemma_facts_stable(
    entries: Seq<(Seq<char>, SubgraphInfoView)>,
    capacity: nat,
    d: DeploymentView,
)
    requires
        capacity > 0,
        keys_distinct(entries),
    ensures
        info_for(entries_after_info(entries, capacity, d), d) == info_for(entries, d),
{
    let after = entries_after_info(entries, capacity, d);
    match cached_info(entries, d.id) {
        Some(info) => {
            let at = entry_from(entries, d.id, 0);
            lemma_entry_found(entries, d.id, 0);
            assert forall|j: int| 0 <= j < after.len() - 1 implies (#[trigger] after[j]).0
                != d.id by {
                if j < at {
                    assert(after[j] == entries[j]);
                    assert(entries[j].0 != entries[at].0);
                } else {
                    assert(after[j] == entries[j + 1]);
                    assert(entries[at].0 != entries[j + 1].0);
                }
            }
            lemma_first_entry(after, d.id, 0, after.len() - 1);
        },
        None => {
            match derived_info(d) {
                Ok(info) => {
                    lemma_inserted_is_cached(entries, capacity, d.id, info);
                },
                Err(_) => {},
            }
        },
    }
}

proof fn lemma_entry_found(entries: Seq<(Seq<char>, SubgraphInfoView)>, key: Seq<char>, from: int)
    requires
        0 <= from <= entries.len(),
    ensures
        from <= entry_from(entries, key, from) <= entries.len(),
        entry_from(entries, key, from) < entries.len() ==> entries[entry_from(
            entries,
            key,
            from,
        )].0 == key,
    decreases entries.len() - from,
{
    if from < entries.len() && entries[from].0 != key {
        lemma_entry_found(entries, key, from + 1);
    }
}

proof fn lemma_layout_from(entries: Seq<LayoutView>, id: Seq<char>, from: int, at: int)
    requires
        0 <= from <= at < entries.len(),
        entries[at].deployment == id,
        forall|j: int| from <= j < at ==> (#[trigger] entries[j]).deployment != id,
    ensures
        crate::layout::layout_from(entries, id, from) == Some(entries[at]),
    decreases at - from,
{
    if from < at {
        assert(entries[from].deployment != id);
        lemma_layout_from(entries, id, from + 1, at);
    }
}

proof fn lemma_no_layout(entries: Seq<LayoutView>, id: Seq<char>, from: int)
    requires
        0 <= from,
        crate::layout::layout_from(entries, id, from) is None,
    ensures
        forall|j: int| from <= j < entries.len() ==> (#[trigger] entries[j]).deployment != id,
    decreases entries.len() - from,
{
    if from < entries.len() {
        lemma_no_layout(entries, id, from + 1);
    }
}

proof fn lemma_layout_kept(entries: Seq<LayoutView>, extra: LayoutView, id: Seq<char>, from: int)
    requires
        0 <= from,
        crate::layout::layout_from(entries, id, from) is Some,
    ensures
        crate::layout::layout_from(entries.push(extra), id, from) == crate::layout::layout_from(
            entries,
            id,
            from,
        ),
    decreases entries.len() - from,
{
    if from < entries.len() && entries[from].deployment != id {
        assert(entries.push(extra)[from] == entries[from]);
        lemma_layout_kept(entries, extra, id, from + 1);
    } else if from < entries.len() {
        assert(entries.push(extra)[from] == entries[from]);
    }
}

proof fn lemma_without_layout(layouts: Seq<LayoutView>, id: Seq<char>, n: int)
    requires
        0 <= n <= layouts.len(),
    ensures
        forall|j: int|
            0 <= j < crate::layout::without_layout(layouts, id, n).len() ==> (
            #[trigger] crate::layout::without_layout(layouts, id, n)[j]).deployment != id,
    decreases n,
{
    if n > 0 {
        lemma_without_layout(layouts, id, n - 1);
        let init = crate::layout::without_layout(layouts, id, n - 1);
        let all = crate::layout::without_layout(layouts, id, n);
        assert forall|j: int| 0 <= j < all.len() implies (#[trigger] all[j]).deployment != id by {
            if j < init.len() {
                assert(all[j] == init[j]);
            }
        }
    }
}

proof fn lemma_layout_absent(layouts: Seq<LayoutView>, id: Seq<char>, from: int)
    requires
        0 <= from,
        forall|j: int| from <= j < layouts.len() ==> (#[trigger] layouts[j]).deployment != id,
    ensures
        crate::layout::layout_from(layouts, id, from) is None,
    decreases layouts.len() - from,
{
    if from < layouts.len() {
        lemma_layout_absent(layouts, id, from + 1);
    }
}

/// While a migration of a deployment is pending, the store keeps no layout
/// of it: after a call for its layout the cache has none.
pub proof fn lemma_pending_layout_is_not_kept(layouts: Seq<LayoutView>, d: DeploymentView)
    requires
        d.pending_migration,
    ensures
        cached_layout(layouts_after(layouts, d), d.id) is None,
        layout_for(layouts, d) == layout_of(d),
{
    lemma_without_layout(layouts, d.id, layouts.len() as int);
    lemma_layout_absent(layouts_after(layouts, d), d.id, 0);
}

/// The layout that the store hands out for a deployment is the same at the
/// next call, as long as the tables of the deployment stay as they are.
pub proof fn lemma_layout_stable(layouts: Seq<LayoutView>, d: DeploymentView)
    ensures
        layout_for(layouts_after(layouts, d), d) == layout_for(layouts, d),
{
    if cached_layout(layouts, d.id) is None && !d.pending_migration {
        let after = layouts.push(layout_of(d));
        lemma_no_layout(layouts, d.id, 0);
        assert forall|j: int| 0 <= j < after.len() - 1 implies (#[trigger] after[j]).deployment
            != d.id by {
            assert(after[j] == layouts[j]);
        }
        lemma_layout_from(after, d.id, 0, after.len() - 1);
    }
}

/// Digest determinism: what the proof of indexing is made of is the same at
/// a second call for the same deployment, indexer and block, whatever the
/// first call did to the caches of the store.
pub proof fn lemma_digest_inputs_repeat(
    layouts: Seq<LayoutView>,
    entries: Seq<(Seq<char>, SubgraphInfoView)>,
    capacity: nat,
    d: DeploymentView,
    indexer: Option<[u8; 20]>,
    block: crate::block::BlockPtrView,
)
    requires
        capacity > 0,
        keys_distinct(entries),
    ensures
        poi_inputs(
            d,
            layout_for(layouts_after(layouts, d), d),
            info_for(entries_after_info(entries, capacity, d), d),
            indexer,
            block,
        ) == poi_inputs(d, layout_for(layouts, d), info_for(entries, d), indexer, block),
        poi_inputs(
            d,
            layout_for(layouts_after(layouts, d), d),
            info_for(entries, d),
            indexer,
            block,
        ) == poi_inputs(d, layout_for(layouts, d), info_for(entries, d), indexer, block),
{
    lemma_facts_stable(entries, capacity, d);
    lemma_layout_stable(layouts, d);
}

/// What the proof of indexing is made of tells indexers and blocks apart:
/// for another indexer or another block it is another value.
pub proof fn lemma_digest_inputs_differ(
    d: DeploymentView,
    layout: LayoutView,
    info: Result<SubgraphInfoView, StoreErrorView>,
    indexer: Option<[u8; 20]>,
    block: crate::block::BlockPtrView,
    other_indexer: Option<[u8; 20]>,
    other_block: crate::block::BlockPtrView,
)
    requires
        poi_inputs(d, layout, info, indexer, block) matches Ok(Some(_)),
        poi_inputs(d, layout, info, other_indexer, other_block) matches Ok(Some(_)),
        indexer != other_indexer || block != other_block,
    ensures
        poi_inputs(d, layout, info, indexer, block) != poi_inputs(
            d,
            layout,
            info,
            other_indexer,
            other_block,
        ),
{
}

/// Whether the cache is right about a deployment: where it holds facts
/// for the deployment, they are the facts that the deployment gives.
pub open spec fn cache_agrees(entries: Seq<(Seq<char>, SubgraphInfoView)>, d: DeploymentView) -> bool {
    forall|i: int|
        0 <= i < entries.len() && (#[trigger] entries[i]).0 == d.id ==> derived_info(d) == Ok::<
            _,
            StoreErrorView,
        >(entries[i].1)
}

/// The cache is transparent: where it is right about a deployment, the
/// store hands out the facts that the deployment gives, whether the cache
/// holds them or not. Eviction costs a new derivation and nothing else.
pub proof fn lemma_cache_transparent(entries: Seq<(Seq<char>, SubgraphInfoView)>, d: DeploymentView)
    requires
        cache_agrees(entries, d),
    ensures
        info_for(entries, d) == derived_info(d),
{
    lemma_entry_found(entries, d.id, 0);
}

/// A cache that is right about a deployment stays right about it when the
/// store hands out the facts of any deployment: of the same one, or of one
/// with another id.
pub proof fn lemma_cache_stays_right(
    entries: Seq<(Seq<char>, SubgraphInfoView)>,
    capacity: nat,
    d: DeploymentView,
    asked: DeploymentView,
)
    requires
        capacity > 0,
        cache_agrees(entries, d),
        asked.id != d.id || derived_info(asked) == derived_info(d),
    ensures
        cache_agrees(entries_after_info(entries, capacity, asked), d),
{
    let after = entries_after_info(entries, capacity, asked);
    lemma_entry_found(entries, asked.id, 0);
    let at = entry_from(entries, asked.id, 0);
    assert forall|i: int| 0 <= i < after.len() && (#[trigger] after[i]).0 == d.id implies derived_info(
        d,
    ) == Ok::<_, StoreErrorView>(after[i].1) by {
        if at < entries.len() {
            // The entry of the deployment that was asked for moved to the end.
            if i == after.len() - 1 {
                assert(after[i] == entries[at]);
            } else if i < at {
                assert(after[i] == entries[i]);
            } else {
                assert(after[i] == entries[i + 1]);
            }
        } else {
            match derived_info(asked) {
                Ok(info) => {
                    if i == after.len() - 1 {
                        assert(after[i] == (asked.id, info));
                    } else if entries.len() >= capacity {
                        assert(after[i] == entries[i + (entries.len() - capacity + 1)]);
                    } else {
                        assert(after[i] == entries[i]);
                    }
                },
                Err(_) => {},
            }
        }
    }
}

} // verus!
