//! What the store keeps of one deployment besides its entities: block
//! pointers, health and errors, dynamic data sources, and the facts that
//! never change once the deployment exists.

use vstd::prelude::*;
use crate::block::{bytes_eq, copy_bytes, copy_strings, texts, BlockNumber, BlockPtr, BlockPtrView};

verus! {

/// The bytes of an optional byte string.
pub open spec fn opt_bytes(o: Option<Vec<u8>>) -> Option<Seq<u8>> {
    match o {
        Some(b) => Some(b@),
        None => None,
    }
}

/// The text of an optional string.
pub open spec fn opt_text(o: Option<String>) -> Option<Seq<char>> {
    match o {
        Some(s) => Some(s@),
        None => None,
    }
}

/// The value of an optional block pointer.
pub open spec fn opt_ptr(o: Option<BlockPtr>) -> Option<BlockPtrView> {
    match o {
        Some(p) => Some(p@),
        None => None,
    }
}

/// A copy of an optional byte string.
pub fn copy_opt_bytes(o: &Option<Vec<u8>>) -> (res: Option<Vec<u8>>)
    ensures
        opt_bytes(res) == opt_bytes(*o),
{
    match o {
        Some(b) => Some(copy_bytes(b)),
        None => None,
    }
}

/// A copy of an optional string.
pub fn copy_opt_text(o: &Option<String>) -> (res: Option<String>)
    ensures
        opt_text(res) == opt_text(*o),
{
    match o {
        Some(s) => Some(s.clone()),
        None => None,
    }
}

/// A copy of an optional block pointer.
pub fn copy_opt_ptr(o: &Option<BlockPtr>) -> (res: Option<BlockPtr>)
    ensures
        opt_ptr(res) == opt_ptr(*o),
{
    match o {
        Some(p) => Some(p.clone()),
        None => None,
    }
}

/// Whether two optional byte strings are equal.
pub fn opt_bytes_eq(a: &Option<Vec<u8>>, b: &Option<Vec<u8>>) -> (res: bool)
    ensures
        res == (opt_bytes(*a) == opt_bytes(*b)),
{
    match a {
        Some(x) => match b {
            Some(y) => bytes_eq(x, y),
            None => false,
        },
        None => b.is_none(),
    }
}

/// The health of a deployment.
#[derive(Copy, Clone, Debug, PartialEq, Eq, Structural)]
pub enum SubgraphHealth {
    /// Syncing has stopped on a fatal error.
    Failed,
    /// Syncing without errors.
    Healthy,
    /// Syncing, but deterministic errors were recorded.
    Unhealthy,
}

/// What an attempt to clear a fatal error did.
#[derive(Copy, Clone, Debug, PartialEq, Eq, Structural)]
pub enum UnfailOutcome {
    Noop,
    Unfailed,
}

/// A range of blocks; `None` stands for a side without a bound.
#[derive(Copy, Clone, Debug, PartialEq, Eq, Structural)]
pub struct BlockRange {
    /// The first block of the range.
    pub start: Option<BlockNumber>,
    /// The first block after the range.
    pub end: Option<BlockNumber>,
}

impl BlockRange {
    /// Whether `block` lies in the range.
    pub open spec fn contains(self, block: int) -> bool {
        &&& match self.start {
            Some(start) => start <= block,
            None => true,
        }
        &&& match self.end {
            Some(end) => block < end,
            None => true,
        }
    }

    /// The range of all blocks from `block` on.
    pub fn from_block(block: BlockNumber) -> (range: Self)
        ensures
            range == (BlockRange { start: Some(block), end: None }),
    {
        BlockRange { start: Some(block), end: None }
    }

    /// Whether `block` lies in the range.
    pub fn includes(&self, block: BlockNumber) -> (res: bool)
        ensures
            res == self.contains(block as int),
    {
        let after_start = match self.start {
            Some(start) => start <= block,
            None => true,
        };
        let before_end = match self.end {
            Some(end) => block < end,
            None => true,
        };
        after_start && before_end
    }
}

/// The record of a failed run of a deployment.
#[derive(Debug)]
pub struct SubgraphError {
    pub id: String,
    pub message: String,
    /// Whether the failure is sure to happen again on the same block.
    pub deterministic: bool,
    /// The hash of the block at which the run failed.
    pub block_hash: Option<Vec<u8>>,
    /// The blocks for which the error is on record.
    pub block_range: BlockRange,
}

/// The mathematical value of a `SubgraphError`.
pub struct SubgraphErrorView {
    pub id: Seq<char>,
    pub message: Seq<char>,
    pub deterministic: bool,
    pub block_hash: Option<Seq<u8>>,
    pub block_range: BlockRange,
}

impl View for SubgraphError {
    type V = SubgraphErrorView;

    open spec fn view(&self) -> SubgraphErrorView {
        SubgraphErrorView {
            id: self.id@,
            message: self.message@,
            deterministic: self.deterministic,
            block_hash: opt_bytes(self.block_hash),
            block_range: self.block_range,
        }
    }
}

impl Clone for SubgraphError {
    fn clone(&self) -> (res: Self)
        ensures
            res@ == self@,
    {
        SubgraphError {
            id: self.id.clone(),
            message: self.message.clone(),
            deterministic: self.deterministic,
            block_hash: copy_opt_bytes(&self.block_hash),
            block_range: self.block_range,
        }
    }
}

/// The mathematical values of a list of errors.
pub open spec fn errors_view(errors: Seq<SubgraphError>) -> Seq<SubgraphErrorView> {
    errors.map_values(|e: SubgraphError| e@)
}

/// A copy of a list of errors.
pub fn copy_errors(errors: &Vec<SubgraphError>) -> (res: Vec<SubgraphError>)
    ensures
        errors_view(res@) == errors_view(errors@),
{
    let mut res: Vec<SubgraphError> = Vec::new();
    let mut i: usize = 0;
    while i < errors.len()
        invariant
            i <= errors.len(),
            res@.len() == i,
            forall|j: int| 0 <= j < i ==> res@[j]@ == errors@[j]@,
        decreases errors.len() - i,
    {
        res.push(errors[i].clone());
        i = i + 1;
    }
    assert(errors_view(res@) =~= errors_view(errors@));
    res
}

/// A data source that the indexer created while it ran.
#[derive(Debug)]
pub struct StoredDynamicDataSource {
    /// The template of the manifest that the data source was made from.
    pub manifest_idx: u32,
    pub param: Option<Vec<u8>>,
    pub context: Option<Vec<u8>>,
    /// The block at which the data source was created.
    pub creation_block: Option<BlockNumber>,
}

/// The mathematical value of a `StoredDynamicDataSource`.
pub struct DataSourceView {
    pub manifest_idx: u32,
    pub param: Option<Seq<u8>>,
    pub context: Option<Seq<u8>>,
    pub creation_block: Option<BlockNumber>,
}

impl View for StoredDynamicDataSource {
    type V = DataSourceView;

    open spec fn view(&self) -> DataSourceView {
        DataSourceView {
            manifest_idx: self.manifest_idx,
            param: opt_bytes(self.param),
            context: opt_bytes(self.context),
            creation_block: self.creation_block,
        }
    }
}

impl Clone for StoredDynamicDataSource {
    fn clone(&self) -> (res: Self)
        ensures
            res@ == self@,
    {
        StoredDynamicDataSource {
            manifest_idx: self.manifest_idx,
            param: copy_opt_bytes(&self.param),
            context: copy_opt_bytes(&self.context),
            creation_block: self.creation_block,
        }
    }
}

impl StoredDynamicDataSource {
    /// Whether two data sources are the same.
    pub fn same(&self, other: &StoredDynamicDataSource) -> (res: bool)
        ensures
            res == (self@ == other@),
    {
        let blocks = match self.creation_block {
            Some(a) => match other.creation_block {
                Some(b) => a == b,
                None => false,
            },
            None => other.creation_block.is_none(),
        };
        self.manifest_idx == other.manifest_idx && blocks && opt_bytes_eq(&self.param, &other.param)
            && opt_bytes_eq(&self.context, &other.context)
    }
}

/// The mathematical values of a list of data sources.
pub open spec fn sources_view(sources: Seq<StoredDynamicDataSource>) -> Seq<DataSourceView> {
    sources.map_values(|s: StoredDynamicDataSource| s@)
}

/// A copy of a list of data sources.
pub fn copy_sources(sources: &Vec<StoredDynamicDataSource>) -> (res: Vec<StoredDynamicDataSource>)
    ensures
        sources_view(res@) == sources_view(sources@),
{
    let mut res: Vec<StoredDynamicDataSource> = Vec::new();
    let mut i: usize = 0;
    while i < sources.len()
        invariant
            i <= sources.len(),
            res@.len() == i,
            forall|j: int| 0 <= j < i ==> res@[j]@ == sources@[j]@,
        decreases sources.len() - i,
    {
        res.push(sources[i].clone());
        i = i + 1;
    }
    assert(sources_view(res@) =~= sources_view(sources@));
    res
}

/// The position in the block stream from which an indexer resumes; without
/// a position it resumes from the block pointer.
#[derive(Debug)]
pub struct FirehoseCursor {
    pub position: Option<String>,
}

impl View for FirehoseCursor {
    type V = Option<Seq<char>>;

    open spec fn view(&self) -> Option<Seq<char>> {
        opt_text(self.position)
    }
}

impl Clone for FirehoseCursor {
    fn clone(&self) -> (res: Self)
        ensures
            res@ == self@,
    {
        FirehoseCursor { position: copy_opt_text(&self.position) }
    }
}

impl FirehoseCursor {
    /// The cursor without a position.
    pub fn none() -> (cursor: Self)
        ensures
            cursor@ is None,
    {
        FirehoseCursor { position: None }
    }

    /// The cursor at `position`.
    pub fn at(position: String) -> (cursor: Self)
        ensures
            cursor@ == Some(position@),
    {
        FirehoseCursor { position: Some(position) }
    }
}

/// The deployment and block that a deployment was grafted onto.
#[derive(Debug)]
pub struct GraftPoint {
    pub base: String,
    pub block: BlockPtr,
}

/// The mathematical value of a `GraftPoint`.
pub struct GraftPointView {
    pub base: Seq<char>,
    pub block: BlockPtrView,
}

impl View for GraftPoint {
    type V = GraftPointView;

    open spec fn view(&self) -> GraftPointView {
        GraftPointView { base: self.base@, block: self.block@ }
    }
}

impl Clone for GraftPoint {
    fn clone(&self) -> (res: Self)
        ensures
            res@ == self@,
    {
        GraftPoint { base: self.base.clone(), block: self.block.clone() }
    }
}

/// The value of an optional graft point.
pub open spec fn opt_graft(o: Option<GraftPoint>) -> Option<GraftPointView> {
    match o {
        Some(g) => Some(g@),
        None => None,
    }
}

/// The value of an optional reference to a graft point.
pub open spec fn opt_graft_ref(o: Option<&GraftPoint>) -> Option<GraftPointView> {
    match o {
        Some(g) => Some(g@),
        None => None,
    }
}

/// The block number of an optional graft point.
pub open spec fn graft_block_of(o: Option<GraftPointView>) -> Option<BlockNumber> {
    match o {
        Some(g) => Some(g.block.number),
        None => None,
    }
}

/// An interface of the schema and the entity types that implement it.
#[derive(Debug)]
pub struct Interface {
    pub name: String,
    pub types: Vec<String>,
}

/// The mathematical value of an `Interface`.
pub struct InterfaceView {
    pub name: Seq<char>,
    pub types: Seq<Seq<char>>,
}

impl View for Interface {
    type V = InterfaceView;

    open spec fn view(&self) -> InterfaceView {
        InterfaceView { name: self.name@, types: texts(self.types@) }
    }
}

impl Clone for Interface {
    fn clone(&self) -> (res: Self)
        ensures
            res@ == self@,
    {
        Interface { name: self.name.clone(), types: copy_strings(&self.types) }
    }
}

/// The mathematical values of a list of interfaces.
pub open spec fn interfaces_view(interfaces: Seq<Interface>) -> Seq<InterfaceView> {
    interfaces.map_values(|i: Interface| i@)
}

/// A copy of a list of interfaces.
pub fn copy_interfaces(interfaces: &Vec<Interface>) -> (res: Vec<Interface>)
    ensures
        interfaces_view(res@) == interfaces_view(interfaces@),
{
    let mut res: Vec<Interface> = Vec::new();
    let mut i: usize = 0;
    while i < interfaces.len()
        invariant
            i <= interfaces.len(),
            res@.len() == i,
            forall|j: int| 0 <= j < i ==> res@[j]@ == interfaces@[j]@,
        decreases interfaces.len() - i,
    {
        res.push(interfaces[i].clone());
        i = i + 1;
    }
    assert(interfaces_view(res@) =~= interfaces_view(interfaces@));
    res
}

/// The head and the retention floor of a deployment.
#[derive(Debug)]
pub struct DeploymentState {
    pub id: String,
    /// The last block that the deployment has processed.
    pub latest_block: BlockPtr,
    /// The earliest block for which the deployment keeps history.
    pub earliest_block_number: BlockNumber,
}

/// The mathematical value of a `DeploymentState`.
pub struct DeploymentStateView {
    pub id: Seq<char>,
    pub latest_block: BlockPtrView,
    pub earliest_block_number: BlockNumber,
}

impl View for DeploymentState {
    type V = DeploymentStateView;

    open spec fn view(&self) -> DeploymentStateView {
        DeploymentStateView {
            id: self.id@,
            latest_block: self.latest_block@,
            earliest_block_number: self.earliest_block_number,
        }
    }
}

/// The notice that entities of a deployment have changed: the entity types
/// concerned, each once.
#[derive(Debug)]
pub struct StoreEvent {
    pub deployment: String,
    pub entity_types: Vec<String>,
}

/// The mathematical value of a `StoreEvent`.
pub struct StoreEventView {
    pub deployment: Seq<char>,
    pub entity_types: Seq<Seq<char>>,
}

impl View for StoreEvent {
    type V = StoreEventView;

    open spec fn view(&self) -> StoreEventView {
        StoreEventView { deployment: self.deployment@, entity_types: texts(self.entity_types@) }
    }
}

} // verus!
