//! The mutation log together with the logs of rollup records and of
//! garbage-collection records.
//!
//! Mutations are kept in ascending `(block, order)` position. Rollup records
//! partition the blocks `[0, end)` that were rolled up so far, and the
//! garbage-collection records retire those ranges oldest first.

use vstd::prelude::*;
use crate::error::NodeError;
use crate::records::{position_before, GcRecord, RollupRecord, RollupRecordView};

verus! {

/// A signed mutation at its position in the log.
#[derive(Debug, Clone, PartialEq, Eq)]
pub struct StoredMutation {
    pub block: u64,
    pub order: u32,
    pub payload: Vec<u8>,
    pub signature: String,
}

/// The mathematical value of a [`StoredMutation`].
pub ghost struct MutationView {
    pub block: u64,
    pub order: u32,
    pub payload: Seq<u8>,
    pub signature: Seq<char>,
}

impl View for StoredMutation {
    type V = MutationView;

    open spec fn view(&self) -> MutationView {
        MutationView {
            block: self.block,
            order: self.order,
            payload: self.payload@,
            signature: self.signature@,
        }
    }
}

impl StoredMutation {
    /// A copy with the same value.
    pub fn duplicate(&self) -> (copy: StoredMutation)
        ensures
            copy@ == self@,
    {
        let payload = self.payload.clone();
        assert(payload@ =~= self.payload@);
        StoredMutation {
            block: self.block,
            order: self.order,
            payload,
            signature: self.signature.clone(),
        }
    }
}

/// The values of a sequence of stored mutations.
pub open spec fn mutation_views(s: Seq<StoredMutation>) -> Seq<MutationView> {
    Seq::new(s.len(), |i: int| s[i]@)
}

/// The values of a sequence of rollup records.
pub open spec fn rollup_views(s: Seq<RollupRecord>) -> Seq<RollupRecordView> {
    Seq::new(s.len(), |i: int| s[i]@)
}

/// The mutations whose block lies in `[start, end)`.
pub open spec fn in_block_range(start: u64, end: u64) -> spec_fn(MutationView) -> bool {
    |m: MutationView| start <= m.block && m.block < end
}

/// The mutations whose block lies outside `[start, end)`.
pub open spec fn outside_block_range(start: u64, end: u64) -> spec_fn(MutationView) -> bool {
    |m: MutationView| !(start <= m.block && m.block < end)
}

/// The rollup records whose range starts after block `start`.
pub open spec fn starts_after(start: u64) -> spec_fn(RollupRecordView) -> bool {
    |r: RollupRecordView| r.start_block > start
}

/// How many rollup rounds start strictly later than block `start`.
pub open spec fn later_rounds(rollups: Seq<RollupRecordView>, start: u64) -> nat {
    rollups.filter(starts_after(start)).len()
}

/// Every mutation comes strictly before the ones behind it.
pub open spec fn mutations_ordered(ms: Seq<MutationView>) -> bool {
    forall|i: int, j: int|
        0 <= i < j < ms.len() ==> position_before(
            #[trigger] ms[i].block,
            ms[i].order,
            #[trigger] ms[j].block,
            ms[j].order,
        )
}

/// The ranges of the records are non-empty, the first starts at block 0, and
/// each starts where the one before it ends.
pub open spec fn rollups_contiguous(rollups: Seq<RollupRecordView>) -> bool {
    &&& rollups.len() > 0 ==> rollups[0].start_block == 0
    &&& forall|i: int|
        0 <= i < rollups.len() ==> (#[trigger] rollups[i]).start_block < rollups[i].end_block
    &&& forall|i: int, j: int|
        0 <= i && j == i + 1 && j < rollups.len() ==> (#[trigger] rollups[j]).start_block == (
        #[trigger] rollups[i]).end_block
}

/// The block at which the next rollup starts: the end of the last record, or 0.
pub open spec fn last_rollup_end(rollups: Seq<RollupRecordView>) -> u64 {
    if rollups.len() == 0 {
        0
    } else {
        rollups.last().end_block
    }
}

/// The block below which every mutation was retired: the end of the last
/// garbage-collection record, or 0.
pub open spec fn gc_end(gcs: Seq<GcRecord>) -> u64 {
    if gcs.len() == 0 {
        0
    } else {
        gcs.last().end_block
    }
}

/// Index `i` holds the first record whose range starts after block `start`.
pub open spec fn is_first_after(rollups: Seq<RollupRecordView>, start: u64, i: int) -> bool {
    &&& 0 <= i < rollups.len()
    &&& rollups[i].start_block > start
    &&& forall|j: int| 0 <= j < i ==> (#[trigger] rollups[j]).start_block <= start
}

/// The mathematical value of a [`MutationStore`].
pub ghost struct StoreView {
    pub mutations: Seq<MutationView>,
    pub rollups: Seq<RollupRecordView>,
    pub gcs: Seq<GcRecord>,
    pub block: u64,
    pub order: u32,
}

impl StoreView {
    /// The invariant of the store.
    pub open spec fn wf(self) -> bool {
        &&& rollups_contiguous(self.rollups)
        &&& last_rollup_end(self.rollups) <= self.block
        &&& self.gcs.len() <= self.rollups.len()
        &&& forall|i: int|
            0 <= i < self.gcs.len() ==> (#[trigger] self.gcs[i]).start_block
                == self.rollups[i].start_block && self.gcs[i].end_block
                == self.rollups[i].end_block
        &&& mutations_ordered(self.mutations)
        &&& forall|i: int|
            0 <= i < self.mutations.len() ==> gc_end(self.gcs) <= (
            #[trigger] self.mutations[i]).block && position_before(
                self.mutations[i].block,
                self.mutations[i].order,
                self.block,
                self.order,
            )
    }

    /// The store before anything was written to it.
    pub open spec fn empty() -> StoreView {
        StoreView {
            mutations: Seq::empty(),
            rollups: Seq::empty(),
            gcs: Seq::empty(),
            block: 0,
            order: 0,
        }
    }

    /// Whether `record` may follow the rollup records of the store.
    pub open spec fn accepts_rollup(self, record: RollupRecordView) -> bool {
        &&& record.start_block == last_rollup_end(self.rollups)
        &&& record.start_block < record.end_block
        &&& record.end_block <= self.block
    }

    /// Whether `record` retires the oldest rolled-up range that is not retired
    /// yet, and no mutation of that range is left.
    pub open spec fn accepts_gc(self, record: GcRecord) -> bool {
        &&& self.gcs.len() < self.rollups.len()
        &&& record.start_block == self.rollups[self.gcs.len() as int].start_block
        &&& record.end_block == self.rollups[self.gcs.len() as int].end_block
        &&& forall|i: int|
            0 <= i < self.mutations.len() ==> record.end_block <= (
            #[trigger] self.mutations[i]).block
    }
}

/// Filtering a sequence that ends in `x` filters what comes before, and keeps
/// `x` where the predicate holds of it.
pub proof fn lemma_filter_push<A>(s: Seq<A>, x: A, pred: spec_fn(A) -> bool)
    ensures
        s.push(x).filter(pred) == if pred(x) {
            s.filter(pred).push(x)
        } else {
            s.filter(pred)
        },
{
    reveal(Seq::filter);
    assert(s.push(x).drop_last() =~= s);
}

/// In contiguous records a later record starts at or after the end of an
/// earlier one.
pub proof fn lemma_rollups_increasing(rollups: Seq<RollupRecordView>, i: int, j: int)
    requires
        rollups_contiguous(rollups),
        0 <= i < j < rollups.len(),
    ensures
        rollups[i].end_block <= rollups[j].start_block,
        rollups[i].start_block < rollups[j].start_block,
    decreases j - i,
{
    if i + 1 < j {
        lemma_rollups_increasing(rollups, i, j - 1);
        assert(rollups[j].start_block == rollups[j - 1].end_block);
        assert(rollups[j - 1].start_block < rollups[j - 1].end_block);
    } else {
        assert(rollups[j].start_block == rollups[j - 1].end_block);
        assert(rollups[i].start_block < rollups[i].end_block);
    }
}

/// In contiguous records the rounds that start later than record `k` are the
/// records behind it.
pub proof fn lemma_later_rounds_at(rollups: Seq<RollupRecordView>, k: int)
    requires
        rollups_contiguous(rollups),
        0 <= k < rollups.len(),
    ensures
        later_rounds(rollups, rollups[k].start_block) == rollups.len() - 1 - k,
    decreases rollups.len(),
{
    let start = rollups[k].start_block;
    let front = rollups.drop_last();
    let last = rollups.last();
    assert(rollups =~= front.push(last));
    lemma_filter_push(front, last, starts_after(start));
    if k == rollups.len() - 1 {
        assert forall|i: int| 0 <= i < front.len() implies (#[trigger] front[i]).start_block
            <= start by {
            assert(front[i] == rollups[i]);
            lemma_rollups_increasing(rollups, i, k);
        }
        lemma_no_later_rounds(front, start);
    } else {
        assert(rollups_contiguous(front)) by {
            assert forall|i: int| 0 <= i < front.len() implies (#[trigger] front[i]).start_block
                < front[i].end_block by {
                assert(front[i] == rollups[i]);
            }
            assert forall|i: int, j: int| 0 <= i && j == i + 1 && j < front.len() implies (
            #[trigger] front[j]).start_block == (#[trigger] front[i]).end_block by {
                assert(front[i] == rollups[i]);
                assert(front[j] == rollups[j]);
            }
            assert(front[0] == rollups[0]);
        }
        assert(front[k] == rollups[k]);
        lemma_later_rounds_at(front, k);
        lemma_rollups_increasing(rollups, k, rollups.len() - 1);
    }
}

/// No round starts later than `start` where every record starts at or before it.
pub proof fn lemma_no_later_rounds(rollups: Seq<RollupRecordView>, start: u64)
    requires
        forall|i: int| 0 <= i < rollups.len() ==> (#[trigger] rollups[i]).start_block <= start,
    ensures
        later_rounds(rollups, start) == 0,
    decreases rollups.len(),
{
    reveal(Seq::filter);
    if rollups.len() > 0 {
        let front = rollups.drop_last();
        assert forall|i: int| 0 <= i < front.len() implies (#[trigger] front[i]).start_block
            <= start by {
            assert(front[i] == rollups[i]);
        }
        lemma_no_later_rounds(front, start);
        assert(rollups =~= front.push(rollups.last()));
        lemma_filter_push(front, rollups.last(), starts_after(start));
    }
}

/// Whether block `b` lies in the range of `record`.
pub open spec fn covers(record: RollupRecordView, b: u64) -> bool {
    record.start_block <= b && b < record.end_block
}

/// Whether block `b` lies in the range of one of the records.
pub open spec fn rolled_up(rollups: Seq<RollupRecordView>, b: u64) -> bool {
    exists|i: int| 0 <= i < rollups.len() && #[trigger] covers(rollups[i], b)
}

/// In contiguous records every block below the end of the last record lies in
/// the range of the record at the index that is returned.
pub proof fn lemma_covering_record(rollups: Seq<RollupRecordView>, b: u64) -> (i: int)
    requires
        rollups_contiguous(rollups),
        b < last_rollup_end(rollups),
    ensures
        0 <= i < rollups.len(),
        covers(rollups[i], b),
    decreases rollups.len(),
{
    let n = rollups.len() as int;
    if rollups[n - 1].start_block <= b {
        n - 1
    } else {
        let front = rollups.drop_last();
        assert(n > 1) by {
            if n == 1 {
                assert(rollups[0].start_block == 0);
            }
        }
        assert(rollups_contiguous(front)) by {
            assert forall|i: int| 0 <= i < front.len() implies (#[trigger] front[i]).start_block
                < front[i].end_block by {
                assert(front[i] == rollups[i]);
            }
            assert forall|i: int, j: int| 0 <= i && j == i + 1 && j < front.len() implies (
            #[trigger] front[j]).start_block == (#[trigger] front[i]).end_block by {
                assert(front[i] == rollups[i]);
                assert(front[j] == rollups[j]);
            }
            assert(front[0] == rollups[0]);
        }
        assert(front.last() == rollups[n - 2]);
        assert(rollups[n - 1].start_block == rollups[n - 2].end_block);
        let i = lemma_covering_record(front, b);
        assert(front[i] == rollups[i]);
        i
    }
}

/// The rollup records of a valid store partition the blocks below the end of
/// the last record: the ranges follow each other without a gap, no two of them
/// overlap, and every block from 0 up to that end lies in one of them.
pub proof fn lemma_rollup_ranges_partition(store: StoreView)
    requires
        store.wf(),
    ensures
        store.rollups.len() > 0 ==> store.rollups[0].start_block == 0,
        forall|i: int, j: int|
            0 <= i && j == i + 1 && j < store.rollups.len() ==> (
            #[trigger] store.rollups[j]).start_block == (#[trigger] store.rollups[i]).end_block,
        forall|i: int, j: int|
            0 <= i < j < store.rollups.len() ==> (#[trigger] store.rollups[i]).end_block <= (
            #[trigger] store.rollups[j]).start_block,
        forall|i: int, j: int, b: u64|
            0 <= i < store.rollups.len() && 0 <= j < store.rollups.len() && covers(
                #[trigger] store.rollups[i],
                b,
            ) && #[trigger] covers(store.rollups[j], b) ==> i == j,
        forall|b: u64|
            b < last_rollup_end(store.rollups) ==> #[trigger] rolled_up(store.rollups, b),
{
    let rollups = store.rollups;
    assert forall|i: int, j: int| 0 <= i < j < rollups.len() implies (
    #[trigger] rollups[i]).end_block <= (#[trigger] rollups[j]).start_block by {
        lemma_rollups_increasing(rollups, i, j);
    }
    assert forall|i: int, j: int, b: u64|
        0 <= i < rollups.len() && 0 <= j < rollups.len() && covers(#[trigger] rollups[i], b)
            && #[trigger] covers(rollups[j], b) implies i == j by {
        if i < j {
            lemma_rollups_increasing(rollups, i, j);
        } else if j < i {
            lemma_rollups_increasing(rollups, j, i);
        }
    }
    assert forall|b: u64| b < last_rollup_end(rollups) implies #[trigger] rolled_up(
        rollups,
        b,
    ) by {
        let i = lemma_covering_record(rollups, b);
        assert(covers(rollups[i], b));
    }
}

/// The mutation log with the rollup records and garbage-collection records
/// that were written for it.
pub struct MutationStore {
    mutations: Vec<StoredMutation>,
    rollups: Vec<RollupRecord>,
    gcs: Vec<GcRecord>,
    block: u64,
    order: u32,
}

impl View for MutationStore {
    type V = StoreView;

    closed spec fn view(&self) -> StoreView {
        StoreView {
            mutations: mutation_views(self.mutations@),
            rollups: rollup_views(self.rollups@),
            gcs: self.gcs@,
            block: self.block,
            order: self.order,
        }
    }
}

impl MutationStore {
    /// The invariant of the store, which every operation keeps.
    pub open spec fn wf(&self) -> bool {
        self@.wf()
    }

    /// An empty store whose open block is block 0.
    pub fn new() -> (store: MutationStore)
        ensures
            store@ == StoreView::empty(),
            store.wf(),
    {
        let store = MutationStore {
            mutations: Vec::new(),
            rollups: Vec::new(),
            gcs: Vec::new(),
            block: 0,
            order: 0,
        };
        assert(store@.mutations =~= Seq::empty());
        assert(store@.rollups =~= Seq::empty());
        assert(store@.gcs =~= Seq::empty());
        store
    }

    /// Appends a mutation at the next position of the open block and returns
    /// that position. Fails with `StorageError`, changing nothing, when the
    /// open block has no position left.
    pub fn add_mutation(&mut self, payload: Vec<u8>, signature: String) -> (res: Result<
        (u64, u32),
        NodeError,
    >)
        requires
            old(self).wf(),
        ensures
            final(self).wf(),
            old(self)@.order == u32::MAX ==> res == Err::<(u64, u32), NodeError>(
                NodeError::StorageError,
            ) && final(self)@ == old(self)@,
            old(self)@.order < u32::MAX ==> res == Ok::<(u64, u32), NodeError>(
                (old(self)@.block, old(self)@.order),
            ) && final(self)@ == (StoreView {
                mutations: old(self)@.mutations.push(
                    MutationView {
                        block: old(self)@.block,
                        order: old(self)@.order,
                        payload: payload@,
                        signature: signature@,
                    },
                ),
                order: (old(self)@.order + 1) as u32,
                ..old(self)@
            }),
    {
        if self.order == u32::MAX {
            return Err(NodeError::StorageError);
        }
        let block: u64 = self.block;
        let order: u32 = self.order;
        let ghost before = self@;
        let entry = StoredMutation { block, order, payload, signature };
        self.mutations.push(entry);
        self.order = order + 1;
        proof {
            assert(self@.mutations =~= before.mutations.push(entry@));
            assert(self@.rollups == before.rollups);
            assert forall|i: int, j: int| 0 <= i < j < self@.mutations.len() implies position_before(
                #[trigger] self@.mutations[i].block,
                self@.mutations[i].order,
                #[trigger] self@.mutations[j].block,
                self@.mutations[j].order,
            ) by {
                if j < before.mutations.len() {
                    assert(self@.mutations[i] == before.mutations[i]);
                    assert(self@.mutations[j] == before.mutations[j]);
                } else {
                    assert(self@.mutations[i] == before.mutations[i]);
                }
            }
            assert forall|i: int| 0 <= i < self@.mutations.len() implies gc_end(self@.gcs) <= (
            #[trigger] self@.mutations[i]).block && position_before(
                self@.mutations[i].block,
                self@.mutations[i].order,
                self@.block,
                self@.order,
            ) by {
                if i < before.mutations.len() {
                    assert(self@.mutations[i] == before.mutations[i]);
                } else {
                    lemma_gc_end_bound(before);
                }
            }
        }
        Ok((block, order))
    }

    /// Closes the open block and opens the next one, whose number it returns.
    /// Fails with `StorageError`, changing nothing, when there is no next block.
    pub fn increase_block(&mut self) -> (res: Result<u64, NodeError>)
        requires
            old(self).wf(),
        ensures
            final(self).wf(),
            old(self)@.block == u64::MAX ==> res == Err::<u64, NodeError>(NodeError::StorageError)
                && final(self)@ == old(self)@,
            old(self)@.block < u64::MAX ==> res == Ok::<u64, NodeError>(
                (old(self)@.block + 1) as u64,
            ) && final(self)@ == (StoreView {
                block: (old(self)@.block + 1) as u64,
                order: 0,
                ..old(self)@
            }),
    {
        if self.block == u64::MAX {
            return Err(NodeError::StorageError);
        }
        self.block = self.block + 1;
        self.order = 0;
        Ok(self.block)
    }

    /// The number of the open block.
    pub fn get_current_block(&self) -> (block: u64)
        ensures
            block == self@.block,
    {
        self.block
    }

    /// How many mutations the log holds.
    pub fn mutation_count(&self) -> (count: usize)
        ensures
            count == self@.mutations.len(),
    {
        self.mutations.len()
    }

    /// How many rollup records were written.
    pub fn rollup_count(&self) -> (count: usize)
        ensures
            count == self@.rollups.len(),
    {
        self.rollups.len()
    }

    /// How many garbage-collection records were written.
    pub fn gc_count(&self) -> (count: usize)
        ensures
            count == self@.gcs.len(),
    {
        self.gcs.len()
    }

    /// The mutations whose block lies in `[start, end)`, in log order.
    pub fn get_range_mutations(&self, start: u64, end: u64) -> (found: Vec<StoredMutation>)
        ensures
            mutation_views(found@) == self@.mutations.filter(in_block_range(start, end)),
    {
        let mut found: Vec<StoredMutation> = Vec::new();
        let mut i: usize = 0;
        proof {
            reveal(Seq::filter);
            assert(self@.mutations.take(0) =~= Seq::empty());
            assert(mutation_views(found@) =~= Seq::empty());
        }
        while i < self.mutations.len()
            invariant
                i <= self.mutations.len(),
                mutation_views(found@) == self@.mutations.take(i as int).filter(
                    in_block_range(start, end),
                ),
            decreases self.mutations.len() - i,
        {
            let m = &self.mutations[i];
            let ghost kept = mutation_views(found@);
            proof {
                assert(self@.mutations.take(i + 1) =~= self@.mutations.take(i as int).push(m@));
                lemma_filter_push(self@.mutations.take(i as int), m@, in_block_range(start, end));
            }
            if start <= m.block && m.block < end {
                found.push(m.duplicate());
                assert(mutation_views(found@) =~= kept.push(m@));
            }
            i = i + 1;
        }
        assert(self@.mutations.take(i as int) =~= self@.mutations);
        found
    }

    /// The rollup record that was written last, if any.
    pub fn get_last_rollup_record(&self) -> (last: Option<RollupRecord>)
        ensures
            self@.rollups.len() == 0 ==> last is None,
            self@.rollups.len() > 0 ==> last is Some && last->0@ == self@.rollups.last(),
    {
        if self.rollups.len() == 0 {
            None
        } else {
            Some(self.rollups[self.rollups.len() - 1].duplicate())
        }
    }

    /// The rollup record whose range starts at block `start`, if any.
    pub fn get_rollup_record(&self, start: u64) -> (found: Option<RollupRecord>)
        ensures
            found is None <==> forall|i: int|
                0 <= i < self@.rollups.len() ==> (#[trigger] self@.rollups[i]).start_block
                    != start,
            found is Some ==> exists|i: int|
                0 <= i < self@.rollups.len() && (#[trigger] self@.rollups[i]).start_block == start
                    && found->0@ == self@.rollups[i] && forall|j: int|
                    0 <= j < i ==> (#[trigger] self@.rollups[j]).start_block != start,
    {
        let mut i: usize = 0;
        while i < self.rollups.len()
            invariant
                i <= self.rollups.len(),
                forall|j: int| 0 <= j < i ==> (#[trigger] self@.rollups[j]).start_block != start,
            decreases self.rollups.len() - i,
        {
            if self.rollups[i].start_block == start {
                let found = self.rollups[i].duplicate();
                assert(self@.rollups[i as int].start_block == start && found@
                    == self@.rollups[i as int]);
                return Some(found);
            }
            i = i + 1;
        }
        None
    }

    /// The first rollup record whose range starts after block `start`, if any.
    pub fn get_next_rollup_record(&self, start: u64) -> (found: Option<RollupRecord>)
        ensures
            found is None <==> forall|i: int|
                0 <= i < self@.rollups.len() ==> (#[trigger] self@.rollups[i]).start_block
                    <= start,
            found is Some ==> exists|i: int|
                is_first_after(self@.rollups, start, i) && found->0@ == self@.rollups[i],
    {
        let mut i: usize = 0;
        while i < self.rollups.len()
            invariant
                i <= self.rollups.len(),
                forall|j: int| 0 <= j < i ==> (#[trigger] self@.rollups[j]).start_block <= start,
            decreases self.rollups.len() - i,
        {
            if self.rollups[i].start_block > start {
                let found = self.rollups[i].duplicate();
                assert(is_first_after(self@.rollups, start, i as int));
                return Some(found);
            }
            i = i + 1;
        }
        None
    }

    /// The garbage-collection record that was written last, if any.
    pub fn get_last_gc_record(&self) -> (last: Option<GcRecord>)
        ensures
            self@.gcs.len() == 0 ==> last is None,
            self@.gcs.len() > 0 ==> last == Some(self@.gcs.last()),
    {
        if self.gcs.len() == 0 {
            None
        } else {
            Some(self.gcs[self.gcs.len() - 1])
        }
    }

    /// Whether at least `offset` rollup rounds start strictly later than block
    /// `start`.
    pub fn has_enough_round_left(&self, start: u64, offset: u64) -> (enough: bool)
        ensures
            enough == (later_rounds(self@.rollups, start) >= offset),
    {
        let mut count: u64 = 0;
        let mut i: usize = 0;
        proof {
            reveal(Seq::filter);
            assert(self@.rollups.take(0) =~= Seq::empty());
        }
        while i < self.rollups.len()
            invariant
                i <= self.rollups.len(),
                count <= i,
                count == later_rounds(self@.rollups.take(i as int), start),
            decreases self.rollups.len() - i,
        {
            proof {
                let r = self@.rollups[i as int];
                assert(self@.rollups.take(i + 1) =~= self@.rollups.take(i as int).push(r));
                lemma_filter_push(self@.rollups.take(i as int), r, starts_after(start));
            }
            if self.rollups[i].start_block > start {
                count = count + 1;
            }
            i = i + 1;
        }
        assert(self@.rollups.take(i as int) =~= self@.rollups);
        count >= offset
    }

    /// Deletes the mutations whose block lies in `[start, end)`.
    pub fn gc_range_mutation(&mut self, start: u64, end: u64)
        requires
            old(self).wf(),
        ensures
            final(self).wf(),
            final(self)@ == (StoreView {
                mutations: old(self)@.mutations.filter(outside_block_range(start, end)),
                ..old(self)@
            }),
    {
        let ghost before = self@;
        let mut kept: Vec<StoredMutation> = Vec::new();
        let mut i: usize = 0;
        proof {
            reveal(Seq::filter);
            assert(before.mutations.take(0) =~= Seq::empty());
            assert(mutation_views(kept@) =~= Seq::empty());
        }
        while i < self.mutations.len()
            invariant
                self@ == before,
                before.wf(),
                i <= self.mutations.len(),
                mutation_views(kept@) == before.mutations.take(i as int).filter(
                    outside_block_range(start, end),
                ),
                mutations_ordered(mutation_views(kept@)),
                forall|k: int, j: int|
                    0 <= k < kept@.len() && i <= j < before.mutations.len() ==> position_before(
                        (#[trigger] mutation_views(kept@)[k]).block,
                        mutation_views(kept@)[k].order,
                        (#[trigger] before.mutations[j]).block,
                        before.mutations[j].order,
                    ),
                forall|k: int|
                    0 <= k < kept@.len() ==> gc_end(before.gcs) <= (#[trigger] mutation_views(
                        kept@,
                    )[k]).block && position_before(
                        mutation_views(kept@)[k].block,
                        mutation_views(kept@)[k].order,
                        before.block,
                        before.order,
                    ),
            decreases self.mutations.len() - i,
        {
            let m = &self.mutations[i];
            let ghost held = mutation_views(kept@);
            proof {
                assert(before.mutations[i as int] == m@);
                assert(before.mutations.take(i + 1) =~= before.mutations.take(i as int).push(m@));
                lemma_filter_push(
                    before.mutations.take(i as int),
                    m@,
                    outside_block_range(start, end),
                );
            }
            if !(start <= m.block && m.block < end) {
                kept.push(m.duplicate());
                proof {
                    assert(mutation_views(kept@) =~= held.push(m@));
                    assert forall|k: int, j: int|
                        0 <= k < kept@.len() && i + 1 <= j
                            < before.mutations.len() implies position_before(
                        (#[trigger] mutation_views(kept@)[k]).block,
                        mutation_views(kept@)[k].order,
                        (#[trigger] before.mutations[j]).block,
                        before.mutations[j].order,
                    ) by {
                        if k < held.len() {
                            assert(mutation_views(kept@)[k] == held[k]);
                        } else {
                            assert(mutation_views(kept@)[k] == before.mutations[i as int]);
                        }
                    }
                    assert forall|a: int, b: int|
                        0 <= a < b < mutation_views(kept@).len() implies position_before(
                        (#[trigger] mutation_views(kept@)[a]).block,
                        mutation_views(kept@)[a].order,
                        (#[trigger] mutation_views(kept@)[b]).block,
                        mutation_views(kept@)[b].order,
                    ) by {
                        if b < held.len() {
                            assert(mutation_views(kept@)[a] == held[a]);
                            assert(mutation_views(kept@)[b] == held[b]);
                        } else {
                            assert(mutation_views(kept@)[a] == held[a]);
                            assert(mutation_views(kept@)[b] == before.mutations[i as int]);
                        }
                    }
                    assert forall|k: int| 0 <= k < kept@.len() implies gc_end(before.gcs) <= (
                    #[trigger] mutation_views(kept@)[k]).block && position_before(
                        mutation_views(kept@)[k].block,
                        mutation_views(kept@)[k].order,
                        before.block,
                        before.order,
                    ) by {
                        if k < held.len() {
                            assert(mutation_views(kept@)[k] == held[k]);
                        } else {
                            assert(mutation_views(kept@)[k] == before.mutations[i as int]);
                        }
                    }
                }
            }
            i = i + 1;
        }
        assert(before.mutations.take(i as int) =~= before.mutations);
        self.mutations = kept;
    }

    /// Appends a rollup record. Fails with `StorageError`, changing nothing,
    /// unless the record's range is non-empty, starts where the last record
    /// ends (at block 0 for the first) and ends at or before the open block.
    pub fn add_rollup_record(&mut self, record: RollupRecord) -> (res: Result<(), NodeError>)
        requires
            old(self).wf(),
        ensures
            final(self).wf(),
            old(self)@.accepts_rollup(record@) ==> res is Ok && final(self)@ == (StoreView {
                rollups: old(self)@.rollups.push(record@),
                ..old(self)@
            }),
            !old(self)@.accepts_rollup(record@) ==> res == Err::<(), NodeError>(
                NodeError::StorageError,
            ) && final(self)@ == old(self)@,
    {
        let last_end: u64 = if self.rollups.len() == 0 {
            0
        } else {
            self.rollups[self.rollups.len() - 1].end_block
        };
        if record.start_block != last_end || record.start_block >= record.end_block
            || record.end_block > self.block {
            return Err(NodeError::StorageError);
        }
        let ghost before = self@;
        let ghost value = record@;
        self.rollups.push(record);
        proof {
            assert(self@.rollups =~= before.rollups.push(value));
            assert(self@.mutations == before.mutations);
            assert forall|i: int| 0 <= i < self@.rollups.len() implies (
            #[trigger] self@.rollups[i]).start_block < self@.rollups[i].end_block by {
                if i < before.rollups.len() {
                    assert(self@.rollups[i] == before.rollups[i]);
                }
            }
            assert forall|i: int, j: int|
                0 <= i && j == i + 1 && j < self@.rollups.len() implies (
            #[trigger] self@.rollups[j]).start_block == (#[trigger] self@.rollups[i]).end_block by {
                assert(self@.rollups[i] == before.rollups[i]);
                if j < before.rollups.len() {
                    assert(self@.rollups[j] == before.rollups[j]);
                }
            }
            if before.rollups.len() > 0 {
                assert(self@.rollups[0] == before.rollups[0]);
            }
            assert forall|i: int| 0 <= i < self@.gcs.len() implies (
            #[trigger] self@.gcs[i]).start_block == self@.rollups[i].start_block
                && self@.gcs[i].end_block == self@.rollups[i].end_block by {
                assert(self@.rollups[i] == before.rollups[i]);
                assert(self@.gcs[i] == before.gcs[i]);
            }
        }
        Ok(())
    }

    /// Appends a garbage-collection record. Fails with `StorageError`, changing
    /// nothing, unless the record covers the oldest rolled-up range that is not
    /// retired yet and the log holds no mutation of that range.
    pub fn add_gc_record(&mut self, record: GcRecord) -> (res: Result<(), NodeError>)
        requires
            old(self).wf(),
        ensures
            final(self).wf(),
            old(self)@.accepts_gc(record) ==> res is Ok && final(self)@ == (StoreView {
                gcs: old(self)@.gcs.push(record),
                ..old(self)@
            }),
            !old(self)@.accepts_gc(record) ==> res == Err::<(), NodeError>(NodeError::StorageError)
                && final(self)@ == old(self)@,
    {
        let done: usize = self.gcs.len();
        if done >= self.rollups.len() {
            return Err(NodeError::StorageError);
        }
        if record.start_block != self.rollups[done].start_block || record.end_block
            != self.rollups[done].end_block {
            return Err(NodeError::StorageError);
        }
        if self.mutations.len() > 0 && self.mutations[0].block < record.end_block {
            assert(self@.mutations[0].block < record.end_block);
            return Err(NodeError::StorageError);
        }
        let ghost before = self@;
        proof {
            assert forall|i: int| 0 <= i < before.mutations.len() implies record.end_block <= (
            #[trigger] before.mutations[i]).block by {
                if i > 0 {
                    assert(position_before(
                        before.mutations[0].block,
                        before.mutations[0].order,
                        before.mutations[i].block,
                        before.mutations[i].order,
                    ));
                }
            }
        }
        self.gcs.push(record);
        proof {
            assert(self@.gcs =~= before.gcs.push(record));
            assert forall|i: int| 0 <= i < self@.gcs.len() implies (
            #[trigger] self@.gcs[i]).start_block == self@.rollups[i].start_block
                && self@.gcs[i].end_block == self@.rollups[i].end_block by {
                if i < before.gcs.len() {
                    assert(self@.gcs[i] == before.gcs[i]);
                }
            }
        }
        Ok(())
    }
}

/// In a valid store the retired blocks end at or before the open block.
pub proof fn lemma_gc_end_bound(store: StoreView)
    requires
        store.wf(),
    ensures
        gc_end(store.gcs) <= last_rollup_end(store.rollups),
        gc_end(store.gcs) <= store.block,
{
    if store.gcs.len() > 0 {
        let g = store.gcs.len() - 1;
        assert(store.gcs[g].end_block == store.rollups[g].end_block);
        if g < store.rollups.len() - 1 {
            lemma_rollups_increasing(store.rollups, g, store.rollups.len() - 1);
            let n = store.rollups.len() - 1;
            assert(store.rollups[n].start_block < store.rollups[n].end_block);
        }
    }
}

} // verus!
