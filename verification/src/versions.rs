//! The versions of the entities of one deployment.
//!
//! Each version of an entity is valid over a half-open range of blocks
//! `[start, end)`; the current version has no end. At every block at most
//! one version of an entity is valid.

use vstd::prelude::*;
use crate::block::{texts, BlockNumber};
use crate::entity::{AttributeView, Entity, EntityKey, EntityKeyView};

verus! {

/// One version of an entity, with the blocks over which it is valid.
#[derive(Debug)]
pub struct EntityVersion {
    pub key: EntityKey,
    pub data: Entity,
    /// The first block at which the version is valid.
    pub start: BlockNumber,
    /// The first block at which it is no longer valid; `None` while it is
    /// the current version.
    pub end: Option<BlockNumber>,
}

/// The mathematical value of an `EntityVersion`.
pub struct VersionView {
    pub key: EntityKeyView,
    pub data: Seq<AttributeView>,
    pub start: BlockNumber,
    pub end: Option<BlockNumber>,
}

impl View for EntityVersion {
    type V = VersionView;

    open spec fn view(&self) -> VersionView {
        VersionView { key: self.key@, data: self.data@, start: self.start, end: self.end }
    }
}

impl Clone for EntityVersion {
    fn clone(&self) -> (res: Self)
        ensures
            res@ == self@,
    {
        EntityVersion {
            key: self.key.clone(),
            data: self.data.clone(),
            start: self.start,
            end: self.end,
        }
    }
}

impl VersionView {
    /// Whether the version is valid at block `block`.
    pub open spec fn valid_at(self, block: int) -> bool {
        self.start <= block && match self.end {
            Some(end) => block < end,
            None => true,
        }
    }

    /// Whether the version is the current one of its entity.
    pub open spec fn is_open(self) -> bool {
        self.end is None
    }

    /// The version, ended at `block`.
    pub open spec fn closed_at(self, block: BlockNumber) -> VersionView {
        VersionView { end: Some(block), ..self }
    }

    /// The version, made current again.
    pub open spec fn reopened(self) -> VersionView {
        VersionView { end: None, ..self }
    }

    /// Whether the version begins no later than it ends, and neither after
    /// block `head`.
    pub open spec fn within(self, head: int) -> bool {
        self.start <= head && match self.end {
            Some(end) => self.start <= end <= head,
            None => true,
        }
    }

    /// Whether no block lies in the ranges of both versions.
    pub open spec fn apart_from(self, other: VersionView) -> bool {
        ||| self.end matches Some(end) && end <= other.start
        ||| other.end matches Some(end) && end <= self.start
    }

    /// The version as it is after a revert that discards block `boundary`
    /// and all blocks after it: a version that ended there or later is
    /// current again.
    pub open spec fn reverted(self, boundary: int) -> VersionView {
        match self.end {
            Some(end) if end >= boundary => self.reopened(),
            _ => self,
        }
    }
}

/// The versions of a deployment whose head is at block `head` are well
/// formed: no version reaches beyond the head, and two versions of one
/// entity never share a block.
pub open spec fn versions_wf(rows: Seq<VersionView>, head: int) -> bool {
    &&& forall|i: int| 0 <= i < rows.len() ==> (#[trigger] rows[i]).within(head)
    &&& forall|i: int, j: int|
        #![trigger rows[i], rows[j]]
        0 <= i < j < rows.len() && rows[i].key == rows[j].key ==> rows[i].apart_from(rows[j])
}

/// A new current version of `key` that begins at `block`.
pub open spec fn fresh_version(
    key: EntityKeyView,
    data: Seq<AttributeView>,
    block: BlockNumber,
) -> VersionView {
    VersionView { key, data, start: block, end: None }
}

/// Whether the entity `key` has a current version.
pub open spec fn has_open(rows: Seq<VersionView>, key: EntityKeyView) -> bool {
    exists|i: int| 0 <= i < rows.len() && (#[trigger] rows[i]).key == key && rows[i].is_open()
}

/// The versions after the current version of `key`, if there is one, has
/// been ended at `block`.
pub open spec fn close_open(rows: Seq<VersionView>, key: EntityKeyView, block: BlockNumber) -> Seq<
    VersionView,
> {
    Seq::new(
        rows.len(),
        |i: int|
            if rows[i].key == key && rows[i].is_open() {
                rows[i].closed_at(block)
            } else {
                rows[i]
            },
    )
}

/// The data of the first version of `key`, at or after position `from`,
/// that is valid at `block`.
pub open spec fn find_from(rows: Seq<VersionView>, key: EntityKeyView, block: int, from: int)
    -> Option<Seq<AttributeView>>
    decreases rows.len() - from,
{
    if from < 0 || from >= rows.len() {
        None
    } else if rows[from].key == key && rows[from].valid_at(block) {
        Some(rows[from].data)
    } else {
        find_from(rows, key, block, from + 1)
    }
}

/// The entity `key` as of block `block`.
pub open spec fn find_at(rows: Seq<VersionView>, key: EntityKeyView, block: int) -> Option<
    Seq<AttributeView>,
> {
    find_from(rows, key, block, 0)
}

/// The number of current versions among the first `n`.
pub open spec fn count_open_in(rows: Seq<VersionView>, n: int) -> nat
    decreases n,
{
    if n <= 0 {
        0
    } else {
        count_open_in(rows, n - 1) + if rows[n - 1].is_open() {
            1nat
        } else {
            0nat
        }
    }
}

/// The number of entities that have a current version.
pub open spec fn count_open(rows: Seq<VersionView>) -> nat {
    count_open_in(rows, rows.len() as int)
}

/// The first `n` versions after a revert that discards block `boundary`
/// and all blocks after it: versions that began there or later are gone,
/// the others are as `VersionView::reverted` says.
pub open spec fn revert_prefix(rows: Seq<VersionView>, boundary: int, n: int) -> Seq<VersionView>
    decreases n,
{
    if n <= 0 {
        Seq::empty()
    } else {
        let init = revert_prefix(rows, boundary, n - 1);
        if rows[n - 1].start >= boundary {
            init
        } else {
            init.push(rows[n - 1].reverted(boundary))
        }
    }
}

/// The versions after a revert that discards block `boundary` and all
/// blocks after it.
pub open spec fn revert_rows(rows: Seq<VersionView>, boundary: int) -> Seq<VersionView> {
    revert_prefix(rows, boundary, rows.len() as int)
}

/// The list `types` with `name` added at its end, unless it is there.
pub open spec fn noted(types: Seq<Seq<char>>, name: Seq<char>) -> Seq<Seq<char>> {
    if types.contains(name) {
        types
    } else {
        types.push(name)
    }
}

/// Whether a revert that discards block `boundary` and all blocks after
/// it removes or reopens the version.
pub open spec fn touched_by_revert(row: VersionView, boundary: int) -> bool {
    row.start >= boundary || (row.end matches Some(end) && end >= boundary)
}

/// The entity types, each once and in the order of their first version,
/// that such a revert changes among the first `n` versions.
pub open spec fn reverted_types(rows: Seq<VersionView>, boundary: int, n: int) -> Seq<Seq<char>>
    decreases n,
{
    if n <= 0 {
        Seq::empty()
    } else {
        let init = reverted_types(rows, boundary, n - 1);
        if touched_by_revert(rows[n - 1], boundary) {
            noted(init, rows[n - 1].key.entity_type)
        } else {
            init
        }
    }
}

/// Adds `name` at the end of `types` unless it is there.
pub fn note_type(types: &mut Vec<String>, name: &String)
    ensures
        texts(final(types)@) == noted(texts(old(types)@), name@),
{
    let ghost before = texts(types@);
    let mut i: usize = 0;
    while i < types.len()
        invariant
            i <= types.len(),
            texts(types@) == before,
            forall|j: int| 0 <= j < i ==> before[j] != name@,
        decreases types.len() - i,
    {
        if types[i] == *name {
            assert(before[i as int] == name@);
            return ;
        }
        i = i + 1;
    }
    types.push(name.clone());
    assert(texts(types@) =~= before.push(name@));
}

/// Well-formed versions stay well formed when the head moves forward.
pub proof fn lemma_wf_widen(rows: Seq<VersionView>, head: int, later: int)
    requires
        versions_wf(rows, head),
        head <= later,
    ensures
        versions_wf(rows, later),
{
    assert forall|i: int| 0 <= i < rows.len() implies (#[trigger] rows[i]).within(later) by {
        assert(rows[i].within(head));
    }
}

/// A new current version at the head keeps the versions well formed when
/// the entity has no current version.
pub proof fn lemma_open_keeps_wf(
    rows: Seq<VersionView>,
    key: EntityKeyView,
    data: Seq<AttributeView>,
    block: BlockNumber,
)
    requires
        versions_wf(rows, block as int),
        !has_open(rows, key),
    ensures
        versions_wf(rows.push(fresh_version(key, data, block)), block as int),
{
    let after = rows.push(fresh_version(key, data, block));
    assert forall|i: int| 0 <= i < after.len() implies (#[trigger] after[i]).within(
        block as int,
    ) by {
        if i < rows.len() {
            assert(rows[i].within(block as int));
        }
    }
    assert forall|i: int, j: int|
        #![trigger after[i], after[j]]
        0 <= i < j < after.len() && after[i].key == after[j].key implies after[i].apart_from(
        after[j],
    ) by {
        if j < rows.len() {
            assert(rows[i].apart_from(rows[j]));
        } else {
            assert(rows[i].within(block as int));
            assert(!(rows[i].key == key && rows[i].is_open()));
        }
    }
}

/// Ending the current version of an entity at the head keeps the versions
/// well formed, and leaves the entity without a current version.
pub proof fn lemma_close_keeps_wf(rows: Seq<VersionView>, key: EntityKeyView, block: BlockNumber)
    requires
        versions_wf(rows, block as int),
    ensures
        versions_wf(close_open(rows, key, block), block as int),
        !has_open(close_open(rows, key, block), key),
{
    let after = close_open(rows, key, block);
    assert forall|i: int| 0 <= i < after.len() implies (#[trigger] after[i]).within(
        block as int,
    ) by {
        assert(rows[i].within(block as int));
    }
    assert forall|i: int, j: int|
        #![trigger after[i], after[j]]
        0 <= i < j < after.len() && after[i].key == after[j].key implies after[i].apart_from(
        after[j],
    ) by {
        assert(rows[i].apart_from(rows[j]));
        assert(rows[i].within(block as int));
        assert(rows[j].within(block as int));
    }
}

/// Whether `row` is what a revert at `boundary` leaves of one of the first
/// `n` versions.
pub open spec fn left_by_revert(rows: Seq<VersionView>, boundary: int, n: int, row: VersionView)
    -> bool {
    exists|m: int|
        0 <= m < n && (#[trigger] rows[m]).start < boundary && row == rows[m].reverted(boundary)
}

proof fn lemma_revert_prefix_wf(rows: Seq<VersionView>, head: int, boundary: int, n: int)
    requires
        versions_wf(rows, head),
        0 <= n <= rows.len(),
    ensures
        versions_wf(revert_prefix(rows, boundary, n), boundary - 1),
        forall|p: int|
            0 <= p < revert_prefix(rows, boundary, n).len() ==> left_by_revert(
                rows,
                boundary,
                n,
                #[trigger] revert_prefix(rows, boundary, n)[p],
            ),
    decreases n,
{
    if n > 0 {
        lemma_revert_prefix_wf(rows, head, boundary, n - 1);
        let init = revert_prefix(rows, boundary, n - 1);
        let after = revert_prefix(rows, boundary, n);
        let last = rows[n - 1];
        assert forall|p: int| 0 <= p < after.len() implies left_by_revert(
            rows,
            boundary,
            n,
            #[trigger] after[p],
        ) by {
            if p < init.len() {
                assert(left_by_revert(rows, boundary, n - 1, init[p]));
                let m = choose|m: int|
                    0 <= m < n - 1 && (#[trigger] rows[m]).start < boundary && init[p]
                        == rows[m].reverted(boundary);
                assert(0 <= m < n && rows[m].start < boundary && after[p] == rows[m].reverted(
                    boundary,
                ));
            } else {
                assert(0 <= n - 1 < n && rows[n - 1].start < boundary && after[p] == rows[n
                    - 1].reverted(boundary));
            }
        }
        if last.start < boundary {
            assert(last.within(head));
            assert forall|i: int| 0 <= i < after.len() implies (#[trigger] after[i]).within(
                boundary - 1,
            ) by {
                if i < init.len() {
                    assert(init[i].within(boundary - 1));
                }
            }
            assert forall|i: int, j: int|
                #![trigger after[i], after[j]]
                0 <= i < j < after.len() && after[i].key == after[j].key implies after[i].apart_from(
                after[j],
            ) by {
                if j < init.len() {
                    assert(init[i].apart_from(init[j]));
                } else {
                    assert(left_by_revert(rows, boundary, n - 1, init[i]));
                    let m = choose|m: int|
                        0 <= m < n - 1 && (#[trigger] rows[m]).start < boundary && init[i]
                            == rows[m].reverted(boundary);
                    assert(rows[m].apart_from(rows[n - 1]));
                    assert(rows[m].within(head));
                }
            }
        }
    }
}

/// Every version that a revert leaves is what it made of a version that
/// was there before.
pub proof fn lemma_revert_leaves(rows: Seq<VersionView>, head: int, boundary: int)
    requires
        versions_wf(rows, head),
    ensures
        forall|p: int|
            0 <= p < revert_rows(rows, boundary).len() ==> left_by_revert(
                rows,
                boundary,
                rows.len() as int,
                #[trigger] revert_rows(rows, boundary)[p],
            ),
{
    lemma_revert_prefix_wf(rows, head, boundary, rows.len() as int);
}

/// A revert leaves the versions well formed for the block before its
/// boundary.
pub proof fn lemma_revert_keeps_wf(rows: Seq<VersionView>, head: int, boundary: int)
    requires
        versions_wf(rows, head),
    ensures
        versions_wf(revert_rows(rows, boundary), boundary - 1),
{
    lemma_revert_prefix_wf(rows, head, boundary, rows.len() as int);
}

proof fn lemma_find_from(rows: Seq<VersionView>, key: EntityKeyView, block: int, from: int, i: int)
    requires
        0 <= from <= i < rows.len(),
        rows[i].key == key,
        rows[i].valid_at(block),
        forall|j: int| from <= j < i ==> !((#[trigger] rows[j]).key == key && rows[j].valid_at(block)),
    ensures
        find_from(rows, key, block, from) == Some(rows[i].data),
    decreases i - from,
{
    if from < i {
        assert(!(rows[from].key == key && rows[from].valid_at(block)));
        lemma_find_from(rows, key, block, from + 1, i);
    }
}

proof fn lemma_find_from_none(rows: Seq<VersionView>, key: EntityKeyView, block: int, from: int)
    requires
        0 <= from,
    ensures
        find_from(rows, key, block, from) is None <==> forall|j: int|
            from <= j < rows.len() ==> !((#[trigger] rows[j]).key == key && rows[j].valid_at(block)),
    decreases rows.len() - from,
{
    if from < rows.len() {
        lemma_find_from_none(rows, key, block, from + 1);
        if rows[from].key == key && rows[from].valid_at(block) {
        } else {
            if find_from(rows, key, block, from) is None {
                assert forall|j: int| from <= j < rows.len() implies !((#[trigger] rows[j]).key
                    == key && rows[j].valid_at(block)) by {
                    if j > from {
                    }
                }
            }
        }
    }
}

/// Temporal integrity: among well-formed versions, a version of an entity
/// that is valid at a block is the only one that is, and it is the one
/// that a lookup at that block returns.
pub proof fn lemma_one_version_per_block(
    rows: Seq<VersionView>,
    head: int,
    key: EntityKeyView,
    block: int,
    i: int,
)
    requires
        versions_wf(rows, head),
        0 <= i < rows.len(),
        rows[i].key == key,
        rows[i].valid_at(block),
    ensures
        find_at(rows, key, block) == Some(rows[i].data),
        forall|j: int|
            0 <= j < rows.len() && j != i ==> !((#[trigger] rows[j]).key == key && rows[j].valid_at(
                block,
            )),
{
    assert forall|j: int| 0 <= j < rows.len() && j != i implies !((#[trigger] rows[j]).key == key
        && rows[j].valid_at(block)) by {
        if rows[j].key == key {
            if j < i {
                assert(rows[j].apart_from(rows[i]));
            } else {
                assert(rows[i].apart_from(rows[j]));
            }
        }
    }
    lemma_find_from(rows, key, block, 0, i);
}

/// A lookup finds nothing exactly when no version of the entity is valid
/// at the block.
pub proof fn lemma_find_none(rows: Seq<VersionView>, key: EntityKeyView, block: int)
    ensures
        find_at(rows, key, block) is None <==> forall|j: int|
            0 <= j < rows.len() ==> !((#[trigger] rows[j]).key == key && rows[j].valid_at(block)),
{
    lemma_find_from_none(rows, key, block, 0);
}

/// The versioned entities of one deployment.
#[derive(Debug)]
pub struct VersionedTable {
    pub rows: Vec<EntityVersion>,
}

impl View for VersionedTable {
    type V = Seq<VersionView>;

    open spec fn view(&self) -> Seq<VersionView> {
        self.rows@.map_values(|r: EntityVersion| r@)
    }
}

impl Clone for VersionedTable {
    fn clone(&self) -> (res: Self)
        ensures
            res@ == self@,
    {
        let mut rows: Vec<EntityVersion> = Vec::new();
        let mut i: usize = 0;
        while i < self.rows.len()
            invariant
                i <= self.rows.len(),
                rows@.len() == i,
                forall|j: int| 0 <= j < i ==> rows@[j]@ == self.rows@[j]@,
            decreases self.rows.len() - i,
        {
            rows.push(self.rows[i].clone());
            i = i + 1;
        }
        let res = VersionedTable { rows };
        assert(res@ =~= self@);
        res
    }
}

impl VersionedTable {
    /// A table without versions.
    pub fn new() -> (table: Self)
        ensures
            table@ == Seq::<VersionView>::empty(),
    {
        let table = VersionedTable { rows: Vec::new() };
        assert(table@ =~= Seq::<VersionView>::empty());
        table
    }

    /// The entity `key` as of block `block`.
    pub fn find(&self, key: &EntityKey, block: BlockNumber) -> (res: Option<&Entity>)
        ensures
            match res {
                Some(entity) => find_at(self@, key@, block as int) == Some(entity@),
                None => find_at(self@, key@, block as int) is None,
            },
    {
        let mut i: usize = 0;
        while i < self.rows.len()
            invariant
                i <= self.rows.len(),
                find_at(self@, key@, block as int) == find_from(self@, key@, block as int, i as int),
            decreases self.rows.len() - i,
        {
            let row = &self.rows[i];
            let valid = row.start <= block && match row.end {
                Some(end) => block < end,
                None => true,
            };
            if valid && row.key.same(key) {
                return Some(&row.data);
            }
            i = i + 1;
        }
        None
    }

    /// Whether the entity `key` has a current version.
    pub fn has_open_version(&self, key: &EntityKey) -> (res: bool)
        ensures
            res == has_open(self@, key@),
    {
        let mut i: usize = 0;
        while i < self.rows.len()
            invariant
                i <= self.rows.len(),
                forall|j: int| 0 <= j < i ==> !(self@[j].key == key@ && self@[j].is_open()),
            decreases self.rows.len() - i,
        {
            if self.rows[i].end.is_none() && self.rows[i].key.same(key) {
                assert(self@[i as int].key == key@ && self@[i as int].is_open());
                return true;
            }
            i = i + 1;
        }
        false
    }

    /// Appends a new current version of `key` that begins at `block`.
    pub fn open_version(&mut self, key: EntityKey, data: Entity, block: BlockNumber)
        ensures
            final(self)@ == old(self)@.push(fresh_version(key@, data@, block)),
    {
        self.rows.push(EntityVersion { key, data, start: block, end: None });
        assert(self@ =~= old(self)@.push(fresh_version(key@, data@, block)));
    }

    /// Ends the current version of `key`, if there is one, at `block`.
    pub fn close_version(&mut self, key: &EntityKey, block: BlockNumber)
        ensures
            final(self)@ == close_open(old(self)@, key@, block),
    {
        let ghost before = self@;
        let mut i: usize = 0;
        while i < self.rows.len()
            invariant
                i <= self.rows.len(),
                self@.len() == before.len(),
                forall|j: int| 0 <= j < i ==> self@[j] == close_open(before, key@, block)[j],
                forall|j: int| i <= j < before.len() ==> self@[j] == before[j],
            decreases self.rows.len() - i,
        {
            let ghost prev_view = self@;
            if self.rows[i].end.is_none() && self.rows[i].key.same(key) {
                self.rows[i].end = Some(block);
            }
            assert forall|j: int| 0 <= j < i implies self@[j] == close_open(
                before,
                key@,
                block,
            )[j] by {
                assert(self@[j] == prev_view[j]);
            }
            i = i + 1;
        }
    }

    /// The number of entities that have a current version.
    pub fn count_current(&self) -> (n: usize)
        ensures
            n == count_open(self@),
    {
        let mut n: usize = 0;
        let mut i: usize = 0;
        while i < self.rows.len()
            invariant
                i <= self.rows.len(),
                n <= i,
                n == count_open_in(self@, i as int),
            decreases self.rows.len() - i,
        {
            if self.rows[i].end.is_none() {
                n = n + 1;
            }
            i = i + 1;
        }
        n
    }
}

impl VersionedTable {
    /// Reverts the table so that block `boundary` and all blocks after it
    /// are undone: a version that began there or later is removed, a version
    /// that ended there or later is current again. Returns the entity types
    /// that this changed.
    pub fn revert_block(&mut self, boundary: BlockNumber) -> (types: Vec<String>)
        ensures
            final(self)@ == revert_rows(old(self)@, boundary as int),
            texts(types@) == reverted_types(old(self)@, boundary as int, old(self)@.len() as int),
    {
        let ghost before = self@;
        let mut types: Vec<String> = Vec::new();
        let mut i: usize = 0;
        let ghost mut k: int = 0;
        assert(texts(types@) =~= Seq::<Seq<char>>::empty());
        assert(self@.take(0) =~= revert_prefix(before, boundary as int, 0));
        assert(self@.skip(0) =~= before.skip(0));
        while i < self.rows.len()
            invariant
                0 <= k <= before.len(),
                i <= self.rows.len(),
                self@.take(i as int) == revert_prefix(before, boundary as int, k),
                self@.skip(i as int) == before.skip(k),
                texts(types@) == reverted_types(before, boundary as int, k),
            decreases self.rows.len() - i,
        {
            let ghost prev = self.rows@;
            let ghost prev_view = self@;
            assert(self@.skip(i as int).len() == before.skip(k).len());
            assert(self@[i as int] == self@.skip(i as int)[0]);
            assert(self@[i as int] == before[k]);
            if self.rows[i].start >= boundary {
                note_type(&mut types, &self.rows[i].key.entity_type);
                let _ = self.rows.remove(i);
                assert(self@ =~= prev_view.remove(i as int));
                assert(self@.take(i as int) =~= prev_view.take(i as int));
                assert(self@.skip(i as int) =~= prev_view.skip(i as int).skip(1));
                assert(before.skip(k + 1) =~= before.skip(k).skip(1));
            } else {
                let reopen = match self.rows[i].end {
                    Some(end) => end >= boundary,
                    None => false,
                };
                if reopen {
                    note_type(&mut types, &self.rows[i].key.entity_type);
                    self.rows[i].end = None;
                    assert(self.rows@[i as int].key == prev[i as int].key);
                    assert(self.rows@[i as int].data == prev[i as int].data);
                }
                assert(self@[i as int] == before[k].reverted(boundary as int));
                assert forall|j: int| 0 <= j < self@.len() && j != i implies self@[j]
                    == prev_view[j] by {
                    assert(self.rows@[j] == prev[j]);
                }
                assert(self@.take(i + 1) =~= prev_view.take(i as int).push(self@[i as int]));
                assert(self@.skip(i + 1) =~= prev_view.skip(i as int).skip(1));
                assert(before.skip(k + 1) =~= before.skip(k).skip(1));
                i = i + 1;
            }
            proof {
                k = k + 1;
            }
        }
        assert(before.skip(k).len() == 0);
        assert(self@.take(i as int) =~= self@);
        assert(self@ =~= revert_rows(before, boundary as int));
        types
    }
}

} // verus!
