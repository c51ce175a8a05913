//! The document store as the block synchronisation engine sees it: the ledger
//! of applied mutations with its watermark, and the descriptors of the
//! databases that are bound to a contract.
//!
//! A mutation is applied at most once. The store takes a mutation only where
//! its position `(block, order)` lies behind the watermark, so a batch may be
//! handed in again, in whole or in part, without changing the ledger.

use vstd::prelude::*;
use crate::error::NodeError;
use crate::mutation_verifier::{copy_bytes, MutationAction, ADDRESS_LEN};
use crate::records::{position_before, BlockState};
use crate::registry::{duplicate_names, texts};

verus! {

/// A verified mutation at its position in the stream.
#[derive(Debug, Clone, PartialEq, Eq)]
pub struct AppliedMutation {
    pub block: u64,
    pub order: u32,
    pub network: u64,
    pub action: MutationAction,
    pub signer: Vec<u8>,
    pub nonce: u64,
    pub body: Vec<u8>,
    /// The document ids that the primary node assigned, one list for each
    /// part of the mutation.
    pub doc_ids: Vec<Vec<i64>>,
}

/// The mathematical value of an [`AppliedMutation`].
pub ghost struct AppliedMutationView {
    pub block: u64,
    pub order: u32,
    pub network: u64,
    pub action: MutationAction,
    pub signer: Seq<u8>,
    pub nonce: u64,
    pub body: Seq<u8>,
    pub doc_ids: Seq<Seq<i64>>,
}

/// The values of a sequence of lists of document ids.
pub open spec fn id_lists(lists: Seq<Vec<i64>>) -> Seq<Seq<i64>> {
    Seq::new(lists.len(), |i: int| lists[i]@)
}

/// A copy of the lists of document ids.
pub fn copy_id_lists(lists: &Vec<Vec<i64>>) -> (copy: Vec<Vec<i64>>)
    ensures
        id_lists(copy@) == id_lists(lists@),
{
    let mut copy: Vec<Vec<i64>> = Vec::new();
    let mut i: usize = 0;
    while i < lists.len()
        invariant
            i <= lists.len(),
            copy@.len() == i,
            forall|k: int| 0 <= k < i ==> (#[trigger] copy@[k])@ == lists@[k]@,
        decreases lists.len() - i,
    {
        let list = lists[i].clone();
        assert(list@ =~= lists@[i as int]@);
        copy.push(list);
        i = i + 1;
    }
    assert(id_lists(copy@) =~= id_lists(lists@));
    copy
}

impl View for AppliedMutation {
    type V = AppliedMutationView;

    open spec fn view(&self) -> AppliedMutationView {
        AppliedMutationView {
            block: self.block,
            order: self.order,
            network: self.network,
            action: self.action,
            signer: self.signer@,
            nonce: self.nonce,
            body: self.body@,
            doc_ids: id_lists(self.doc_ids@),
        }
    }
}

impl AppliedMutation {
    /// A copy with the same value.
    pub fn duplicate(&self) -> (copy: AppliedMutation)
        ensures
            copy@ == self@,
    {
        AppliedMutation {
            block: self.block,
            order: self.order,
            network: self.network,
            action: self.action,
            signer: copy_bytes(&self.signer),
            nonce: self.nonce,
            body: copy_bytes(&self.body),
            doc_ids: copy_id_lists(&self.doc_ids),
        }
    }
}

/// A database that is bound to a contract on a chain.
#[derive(Debug, Clone, PartialEq, Eq)]
pub struct EventDatabase {
    pub address: Vec<u8>,
    pub evm_node_url: String,
    pub events_json_abi: String,
    pub contract_address: String,
    /// The names of the events to listen for, one for each collection.
    pub tables: Vec<String>,
}

/// The mathematical value of an [`EventDatabase`].
pub ghost struct EventDatabaseView {
    pub address: Seq<u8>,
    pub evm_node_url: Seq<char>,
    pub events_json_abi: Seq<char>,
    pub contract_address: Seq<char>,
    pub tables: Seq<Seq<char>>,
}

impl View for EventDatabase {
    type V = EventDatabaseView;

    open spec fn view(&self) -> EventDatabaseView {
        EventDatabaseView {
            address: self.address@,
            evm_node_url: self.evm_node_url@,
            events_json_abi: self.events_json_abi@,
            contract_address: self.contract_address@,
            tables: texts(self.tables@),
        }
    }
}

impl EventDatabase {
    /// A copy with the same value.
    pub fn duplicate(&self) -> (copy: EventDatabase)
        ensures
            copy@ == self@,
    {
        EventDatabase {
            address: copy_bytes(&self.address),
            evm_node_url: self.evm_node_url.clone(),
            events_json_abi: self.events_json_abi.clone(),
            contract_address: self.contract_address.clone(),
            tables: duplicate_names(&self.tables),
        }
    }
}

/// The values of a sequence of applied mutations.
pub open spec fn applied_views(s: Seq<AppliedMutation>) -> Seq<AppliedMutationView> {
    Seq::new(s.len(), |i: int| s[i]@)
}

/// The values of a sequence of database descriptors.
pub open spec fn database_views(s: Seq<EventDatabase>) -> Seq<EventDatabaseView> {
    Seq::new(s.len(), |i: int| s[i]@)
}

/// Whether the position of `a` comes strictly before that of `b`.
pub open spec fn comes_before(a: AppliedMutationView, b: AppliedMutationView) -> bool {
    position_before(a.block, a.order, b.block, b.order)
}

/// Every mutation of the ledger comes strictly before the ones behind it:
/// the ledger ascends and holds no position twice.
pub open spec fn ledger_ordered(log: Seq<AppliedMutationView>) -> bool {
    forall|i: int, j: int|
        0 <= i < j < log.len() ==> comes_before(#[trigger] log[i], #[trigger] log[j])
}

/// The ledger after `m` was handed in: `m` is taken where the ledger is empty
/// or ends before the position of `m`, and left out otherwise.
pub open spec fn apply_one(log: Seq<AppliedMutationView>, m: AppliedMutationView) -> Seq<
    AppliedMutationView,
> {
    if log.len() == 0 || comes_before(log.last(), m) {
        log.push(m)
    } else {
        log
    }
}

/// The ledger after the mutations `ms` were handed in one after the other.
pub open spec fn apply_all(log: Seq<AppliedMutationView>, ms: Seq<AppliedMutationView>) -> Seq<
    AppliedMutationView,
>
    decreases ms.len(),
{
    if ms.len() == 0 {
        log
    } else {
        apply_one(apply_all(log, ms.drop_last()), ms.last())
    }
}

/// The watermark of a ledger: the position of its last mutation, if it has one.
pub open spec fn watermark(log: Seq<AppliedMutationView>) -> Option<BlockState> {
    if log.len() == 0 {
        None
    } else {
        Some(BlockState { block: log.last().block, order: log.last().order })
    }
}

/// Every mutation of `ms` either comes after all the mutations before it or
/// repeats one of them: the stream ascends, but for what is delivered again.
pub open spec fn arrivals_in_order(ms: Seq<AppliedMutationView>) -> bool {
    forall|k: int|
        0 <= k < ms.len() ==> repeats_earlier(ms, k) || #[trigger] follows_earlier(ms, k)
}

/// The mutation at index `k` occurs at an earlier index too.
pub open spec fn repeats_earlier(ms: Seq<AppliedMutationView>, k: int) -> bool {
    exists|j: int| 0 <= j < k && #[trigger] ms[j] == ms[k]
}

/// The mutation at index `k` comes after every mutation at an earlier index.
pub open spec fn follows_earlier(ms: Seq<AppliedMutationView>, k: int) -> bool {
    forall|j: int| 0 <= j < k ==> comes_before(#[trigger] ms[j], ms[k])
}

/// The two sequences hold the same mutations, whatever their order and number.
pub open spec fn same_mutations(a: Seq<AppliedMutationView>, b: Seq<AppliedMutationView>) -> bool {
    forall|m: AppliedMutationView| a.contains(m) <==> b.contains(m)
}

/// Handing a mutation in keeps the ledger in ascending order.
pub proof fn lemma_apply_one_ordered(log: Seq<AppliedMutationView>, m: AppliedMutationView)
    requires
        ledger_ordered(log),
    ensures
        ledger_ordered(apply_one(log, m)),
{
    let after = apply_one(log, m);
    if after.len() > log.len() {
        assert forall|i: int, j: int| 0 <= i < j < after.len() implies comes_before(
            #[trigger] after[i],
            #[trigger] after[j],
        ) by {
            assert(after[i] == log[i]);
            if j < log.len() {
                assert(after[j] == log[j]);
            } else if i < log.len() - 1 {
                assert(comes_before(log[i], log[log.len() - 1]));
            }
        }
    }
}

/// Handing mutations in keeps the ledger in ascending order, whatever is
/// handed in.
pub proof fn lemma_apply_all_ordered(log: Seq<AppliedMutationView>, ms: Seq<AppliedMutationView>)
    requires
        ledger_ordered(log),
    ensures
        ledger_ordered(apply_all(log, ms)),
    decreases ms.len(),
{
    if ms.len() > 0 {
        lemma_apply_all_ordered(log, ms.drop_last());
        lemma_apply_one_ordered(apply_all(log, ms.drop_last()), ms.last());
    }
}

/// Once `ms` was handed in, the ledger is not empty and none of `ms` comes
/// after its last mutation.
pub proof fn lemma_apply_all_covers(
    log: Seq<AppliedMutationView>,
    ms: Seq<AppliedMutationView>,
    k: int,
)
    requires
        0 <= k < ms.len(),
    ensures
        apply_all(log, ms).len() > 0,
        !comes_before(apply_all(log, ms).last(), ms[k]),
    decreases ms.len(),
{
    let front = ms.drop_last();
    let before = apply_all(log, front);
    if k < ms.len() - 1 {
        lemma_apply_all_covers(log, front, k);
        assert(front[k] == ms[k]);
    }
}

/// A ledger stays as it is where none of what is handed in comes after its
/// last mutation.
pub proof fn lemma_apply_all_nothing_new(
    log: Seq<AppliedMutationView>,
    ms: Seq<AppliedMutationView>,
)
    requires
        log.len() > 0,
        forall|k: int| 0 <= k < ms.len() ==> !comes_before(log.last(), #[trigger] ms[k]),
    ensures
        apply_all(log, ms) == log,
    decreases ms.len(),
{
    if ms.len() > 0 {
        let front = ms.drop_last();
        assert forall|k: int| 0 <= k < front.len() implies !comes_before(
            log.last(),
            #[trigger] front[k],
        ) by {
            assert(front[k] == ms[k]);
        }
        lemma_apply_all_nothing_new(log, front);
        assert(ms.last() == ms[ms.len() - 1]);
    }
}

/// Handing the same mutations in a second time changes nothing: recovery may
/// replay what was applied before.
pub proof fn lemma_apply_all_idempotent(
    log: Seq<AppliedMutationView>,
    ms: Seq<AppliedMutationView>,
)
    ensures
        apply_all(apply_all(log, ms), ms) == apply_all(log, ms),
{
    let after = apply_all(log, ms);
    if ms.len() > 0 {
        assert forall|k: int| 0 <= k < ms.len() implies !comes_before(
            after.last(),
            #[trigger] ms[k],
        ) by {
            lemma_apply_all_covers(log, ms, k);
        }
        lemma_apply_all_covers(log, ms, 0);
        lemma_apply_all_nothing_new(after, ms);
    }
}

/// A stream that ascends is taken whole.
pub proof fn lemma_apply_all_ascending(ms: Seq<AppliedMutationView>)
    requires
        ledger_ordered(ms),
    ensures
        apply_all(Seq::empty(), ms) == ms,
    decreases ms.len(),
{
    if ms.len() > 0 {
        let front = ms.drop_last();
        assert(ledger_ordered(front)) by {
            assert forall|i: int, j: int| 0 <= i < j < front.len() implies comes_before(
                #[trigger] front[i],
                #[trigger] front[j],
            ) by {
                assert(front[i] == ms[i]);
                assert(front[j] == ms[j]);
            }
        }
        lemma_apply_all_ascending(front);
        if front.len() > 0 {
            assert(front.last() == ms[ms.len() - 2]);
            assert(ms.last() == ms[ms.len() - 1]);
            assert(comes_before(ms[ms.len() - 2], ms[ms.len() - 1]));
        }
        assert(front.push(ms.last()) =~= ms);
    } else {
        assert(ms =~= Seq::empty());
    }
}

/// Where every mutation of the stream comes after the earlier ones or repeats
/// one of them, the ledger holds exactly the mutations of the stream.
pub proof fn lemma_apply_all_same_mutations(ms: Seq<AppliedMutationView>)
    requires
        arrivals_in_order(ms),
    ensures
        same_mutations(apply_all(Seq::empty(), ms), ms),
    decreases ms.len(),
{
    let out = apply_all(Seq::empty(), ms);
    if ms.len() == 0 {
        assert forall|m: AppliedMutationView| out.contains(m) <==> ms.contains(m) by {
            if out.contains(m) {
                let i = choose|i: int| 0 <= i < out.len() && out[i] == m;
            }
            if ms.contains(m) {
                let i = choose|i: int| 0 <= i < ms.len() && ms[i] == m;
            }
        }
    } else {
        let front = ms.drop_last();
        let last = ms.last();
        let k = ms.len() - 1;
        assert(arrivals_in_order(front)) by {
            assert forall|i: int| 0 <= i < front.len() implies repeats_earlier(front, i)
                || #[trigger] follows_earlier(front, i) by {
                assert(repeats_earlier(ms, i) || follows_earlier(ms, i));
                if repeats_earlier(ms, i) {
                    let j = choose|j: int| 0 <= j < i && #[trigger] ms[j] == ms[i];
                    assert(front[j] == front[i]);
                } else {
                    assert forall|j: int| 0 <= j < i implies comes_before(
                        #[trigger] front[j],
                        front[i],
                    ) by {
                        assert(comes_before(ms[j], ms[i]));
                    }
                }
            }
        }
        lemma_apply_all_same_mutations(front);
        let held = apply_all(Seq::empty(), front);
        assert forall|m: AppliedMutationView| out.contains(m) <==> ms.contains(m) by {
            if out.contains(m) {
                let i = choose|i: int| 0 <= i < out.len() && out[i] == m;
                if i < held.len() {
                    assert(held[i] == m);
                    assert(held.contains(m));
                    assert(front.contains(m));
                    let j = choose|j: int| 0 <= j < front.len() && front[j] == m;
                    assert(ms[j] == m);
                } else {
                    assert(m == last);
                    assert(ms[k] == m);
                }
            }
            if ms.contains(m) {
                let i = choose|i: int| 0 <= i < ms.len() && ms[i] == m;
                if i < k {
                    assert(front[i] == m);
                    assert(front.contains(m));
                    assert(held.contains(m));
                    let j = choose|j: int| 0 <= j < held.len() && held[j] == m;
                    assert(out[j] == m);
                } else if out.len() > held.len() {
                    assert(out[held.len() as int] == m);
                } else {
                    assert(repeats_earlier(ms, k) || follows_earlier(ms, k));
                    if repeats_earlier(ms, k) {
                        let j = choose|j: int| 0 <= j < k && #[trigger] ms[j] == ms[k];
                        assert(front[j] == m);
                        assert(front.contains(m));
                        assert(held.contains(m));
                        let h = choose|h: int| 0 <= h < held.len() && held[h] == m;
                        assert(out[h] == m);
                    } else {
                        assert(held.len() > 0);
                        assert(held.contains(held[held.len() - 1]));
                        assert(front.contains(held.last()));
                        let j = choose|j: int| 0 <= j < front.len() && front[j] == held.last();
                        assert(comes_before(ms[j], ms[k]));
                    }
                }
            }
        }
    }
}

/// Two ascending sequences that hold the same mutations are one and the same.
pub proof fn lemma_ordered_same_mutations_equal(
    a: Seq<AppliedMutationView>,
    b: Seq<AppliedMutationView>,
)
    requires
        ledger_ordered(a),
        ledger_ordered(b),
        same_mutations(a, b),
    ensures
        a == b,
    decreases a.len(),
{
    if a.len() == 0 {
        if b.len() > 0 {
            assert(b.contains(b[0]));
            assert(a.contains(b[0]));
        }
        assert(a =~= b);
    } else {
        let x = a.last();
        assert(a.contains(a[a.len() - 1]));
        assert(b.contains(x));
        let j = choose|j: int| 0 <= j < b.len() && b[j] == x;
        if j < b.len() - 1 {
            let y = b.last();
            assert(comes_before(b[j], b[b.len() - 1]));
            assert(b.contains(b[b.len() - 1]));
            assert(a.contains(y));
            let i = choose|i: int| 0 <= i < a.len() && a[i] == y;
            if i < a.len() - 1 {
                assert(comes_before(a[i], a[a.len() - 1]));
            }
        }
        let fa = a.drop_last();
        let fb = b.drop_last();
        assert(ledger_ordered(fa)) by {
            assert forall|p: int, q: int| 0 <= p < q < fa.len() implies comes_before(
                #[trigger] fa[p],
                #[trigger] fa[q],
            ) by {
                assert(fa[p] == a[p] && fa[q] == a[q]);
            }
        }
        assert(ledger_ordered(fb)) by {
            assert forall|p: int, q: int| 0 <= p < q < fb.len() implies comes_before(
                #[trigger] fb[p],
                #[trigger] fb[q],
            ) by {
                assert(fb[p] == b[p] && fb[q] == b[q]);
            }
        }
        assert forall|m: AppliedMutationView| fa.contains(m) <==> fb.contains(m) by {
            if fa.contains(m) {
                let p = choose|p: int| 0 <= p < fa.len() && fa[p] == m;
                assert(a[p] == m);
                assert(comes_before(a[p], a[a.len() - 1]));
                assert(a.contains(m));
                assert(b.contains(m));
                let q = choose|q: int| 0 <= q < b.len() && b[q] == m;
                assert(q < b.len() - 1);
                assert(fb[q] == m);
            }
            if fb.contains(m) {
                let q = choose|q: int| 0 <= q < fb.len() && fb[q] == m;
                assert(b[q] == m);
                assert(comes_before(b[q], b[b.len() - 1]));
                assert(b.contains(m));
                assert(a.contains(m));
                let p = choose|p: int| 0 <= p < a.len() && a[p] == m;
                assert(p < a.len() - 1);
                assert(fa[p] == m);
            }
        }
        lemma_ordered_same_mutations_equal(fa, fb);
        assert(a =~= fa.push(x));
        assert(b =~= fb.push(x));
    }
}

/// However often a mutation is delivered, the ledger ends as if every
/// mutation had been applied exactly once in ascending position: for a stream
/// in which each mutation comes after the earlier ones or repeats one of
/// them, and for `sorted`, the ascending sequence of the same mutations,
/// handing in the stream gives what handing in `sorted` gives, which is
/// `sorted` itself.
pub proof fn lemma_apply_in_order_once(
    stream: Seq<AppliedMutationView>,
    sorted: Seq<AppliedMutationView>,
)
    requires
        arrivals_in_order(stream),
        ledger_ordered(sorted),
        same_mutations(sorted, stream),
    ensures
        apply_all(Seq::empty(), stream) == apply_all(Seq::empty(), sorted),
        apply_all(Seq::empty(), stream) == sorted,
{
    let out = apply_all(Seq::empty(), stream);
    assert(ledger_ordered(Seq::<AppliedMutationView>::empty()));
    lemma_apply_all_ordered(Seq::empty(), stream);
    lemma_apply_all_same_mutations(stream);
    assert(same_mutations(out, sorted));
    lemma_ordered_same_mutations_equal(out, sorted);
    lemma_apply_all_ascending(sorted);
}

/// A stream that ascends has every mutation come after the earlier ones.
pub proof fn lemma_ascending_arrives_in_order(ms: Seq<AppliedMutationView>)
    requires
        ledger_ordered(ms),
    ensures
        arrivals_in_order(ms),
{
    assert forall|k: int| 0 <= k < ms.len() implies repeats_earlier(ms, k)
        || #[trigger] follows_earlier(ms, k) by {
        assert forall|j: int| 0 <= j < k implies comes_before(#[trigger] ms[j], ms[k]) by {}
    }
}

/// Whether `m` lies behind the watermark of `log`: whether it would be taken
/// by a ledger that ends as `log` does.
pub open spec fn is_news(log: Seq<AppliedMutationView>, m: AppliedMutationView) -> bool {
    log.len() == 0 || comes_before(log.last(), m)
}

/// What a ledger gains from a stream in which every mutation comes after the
/// earlier ones or repeats one of them: the mutations of the stream that lie
/// behind the watermark of the ledger, each once and in ascending order. The
/// gain is returned.
pub proof fn lemma_apply_all_gain(
    log: Seq<AppliedMutationView>,
    ms: Seq<AppliedMutationView>,
) -> (gain: Seq<AppliedMutationView>)
    requires
        arrivals_in_order(ms),
    ensures
        apply_all(log, ms) == log + gain,
        ledger_ordered(gain),
        forall|i: int| 0 <= i < gain.len() ==> is_news(log, #[trigger] gain[i]),
        forall|m: AppliedMutationView| gain.contains(m) <==> ms.contains(m) && is_news(log, m),
    decreases ms.len(),
{
    if ms.len() == 0 {
        let gain = Seq::<AppliedMutationView>::empty();
        assert(log + gain =~= log);
        assert forall|m: AppliedMutationView| gain.contains(m) <==> ms.contains(m) && is_news(
            log,
            m,
        ) by {
            if gain.contains(m) {
                let i = choose|i: int| 0 <= i < gain.len() && gain[i] == m;
            }
            if ms.contains(m) {
                let i = choose|i: int| 0 <= i < ms.len() && ms[i] == m;
            }
        }
        gain
    } else {
        let front = ms.drop_last();
        let last = ms.last();
        let k = ms.len() - 1;
        assert(arrivals_in_order(front)) by {
            assert forall|i: int| 0 <= i < front.len() implies repeats_earlier(front, i)
                || #[trigger] follows_earlier(front, i) by {
                assert(repeats_earlier(ms, i) || follows_earlier(ms, i));
                if repeats_earlier(ms, i) {
                    let j = choose|j: int| 0 <= j < i && #[trigger] ms[j] == ms[i];
                    assert(front[j] == front[i]);
                } else {
                    assert forall|j: int| 0 <= j < i implies comes_before(
                        #[trigger] front[j],
                        front[i],
                    ) by {
                        assert(comes_before(ms[j], ms[i]));
                    }
                }
            }
        }
        let held = lemma_apply_all_gain(log, front);
        let before = log + held;
        assert(apply_all(log, front) == before);
        if before.len() > 0 {
            if held.len() > 0 {
                assert(before.last() == held[held.len() - 1]);
            } else {
                assert(before =~= log);
            }
        }
        if is_news(before, last) {
            let gain = held.push(last);
            assert(log + gain =~= before.push(last));
            assert(is_news(log, last)) by {
                if log.len() > 0 && held.len() > 0 {
                    assert(is_news(log, held[held.len() - 1]));
                }
            }
            assert forall|i: int, j: int| 0 <= i < j < gain.len() implies comes_before(
                #[trigger] gain[i],
                #[trigger] gain[j],
            ) by {
                assert(gain[i] == held[i]);
                if j < held.len() {
                    assert(gain[j] == held[j]);
                } else if i < held.len() - 1 {
                    assert(comes_before(held[i], held[held.len() - 1]));
                }
            }
            assert forall|i: int| 0 <= i < gain.len() implies is_news(log, #[trigger] gain[i]) by {
                if i < held.len() {
                    assert(gain[i] == held[i]);
                }
            }
            assert forall|m: AppliedMutationView| gain.contains(m) <==> ms.contains(m) && is_news(
                log,
                m,
            ) by {
                if gain.contains(m) {
                    let i = choose|i: int| 0 <= i < gain.len() && gain[i] == m;
                    if i < held.len() {
                        assert(held[i] == m);
                        assert(held.contains(m));
                        let j = choose|j: int| 0 <= j < front.len() && front[j] == m;
                        assert(ms[j] == m);
                    } else {
                        assert(ms[k] == m);
                    }
                }
                if ms.contains(m) && is_news(log, m) {
                    let i = choose|i: int| 0 <= i < ms.len() && ms[i] == m;
                    if i < k {
                        assert(front[i] == m);
                        assert(front.contains(m));
                        assert(held.contains(m));
                        let j = choose|j: int| 0 <= j < held.len() && held[j] == m;
                        assert(gain[j] == m);
                    } else {
                        assert(gain[held.len() as int] == m);
                    }
                }
            }
            gain
        } else {
            let gain = held;
            assert forall|m: AppliedMutationView| gain.contains(m) <==> ms.contains(m) && is_news(
                log,
                m,
            ) by {
                if gain.contains(m) {
                    let j = choose|j: int| 0 <= j < front.len() && front[j] == m;
                    assert(ms[j] == m);
                }
                if ms.contains(m) && is_news(log, m) {
                    let i = choose|i: int| 0 <= i < ms.len() && ms[i] == m;
                    if i < k {
                        assert(front[i] == m);
                        assert(front.contains(m));
                    } else {
                        assert(m == last);
                        assert(held.len() > 0);
                        assert(repeats_earlier(ms, k) || follows_earlier(ms, k));
                        if repeats_earlier(ms, k) {
                            let j = choose|j: int| 0 <= j < k && #[trigger] ms[j] == ms[k];
                            assert(front[j] == m);
                            assert(front.contains(m));
                        } else {
                            assert(held.contains(held[held.len() - 1]));
                            assert(front.contains(held.last()));
                            let j = choose|j: int|
                                0 <= j < front.len() && front[j] == held.last();
                            assert(comes_before(ms[j], ms[k]));
                        }
                    }
                }
            }
            gain
        }
    }
}

/// Whatever the ledger holds already, a stream leaves it as the ascending
/// sequence of the same mutations would: for a stream in which each mutation
/// comes after the earlier ones or repeats one of them, and for `sorted`, the
/// ascending sequence of the same mutations, handing in the stream gives what
/// handing in `sorted` gives.
pub proof fn lemma_apply_in_order_once_from(
    log: Seq<AppliedMutationView>,
    stream: Seq<AppliedMutationView>,
    sorted: Seq<AppliedMutationView>,
)
    requires
        arrivals_in_order(stream),
        ledger_ordered(sorted),
        same_mutations(sorted, stream),
    ensures
        apply_all(log, stream) == apply_all(log, sorted),
{
    lemma_ascending_arrives_in_order(sorted);
    let a = lemma_apply_all_gain(log, stream);
    let b = lemma_apply_all_gain(log, sorted);
    assert(same_mutations(a, b)) by {
        assert forall|m: AppliedMutationView| a.contains(m) <==> b.contains(m) by {
            assert(sorted.contains(m) <==> stream.contains(m));
        }
    }
    lemma_ordered_same_mutations_equal(a, b);
}

/// The mathematical value of a [`DocStore`].
pub ghost struct DocStoreView {
    pub applied: Seq<AppliedMutationView>,
    pub event_dbs: Seq<EventDatabaseView>,
}

impl DocStoreView {
    /// The invariant of the store.
    pub open spec fn wf(self) -> bool {
        &&& ledger_ordered(self.applied)
        &&& forall|i: int|
            0 <= i < self.event_dbs.len() ==> (#[trigger] self.event_dbs[i]).address.len()
                == ADDRESS_LEN
    }
}

/// The ledger of applied mutations and the descriptors of the databases that
/// are bound to a contract.
pub struct DocStore {
    applied: Vec<AppliedMutation>,
    event_dbs: Vec<EventDatabase>,
}

impl View for DocStore {
    type V = DocStoreView;

    closed spec fn view(&self) -> DocStoreView {
        DocStoreView {
            applied: applied_views(self.applied@),
            event_dbs: database_views(self.event_dbs@),
        }
    }
}

impl DocStore {
    /// The invariant of the store, which every operation keeps.
    pub open spec fn wf(&self) -> bool {
        self@.wf()
    }

    /// A store to which nothing was applied.
    pub fn new() -> (store: DocStore)
        ensures
            store.wf(),
            store@.applied == Seq::<AppliedMutationView>::empty(),
            store@.event_dbs == Seq::<EventDatabaseView>::empty(),
    {
        let store = DocStore { applied: Vec::new(), event_dbs: Vec::new() };
        assert(store@.applied =~= Seq::empty());
        assert(store@.event_dbs =~= Seq::empty());
        store
    }

    /// The watermark: the position of the mutation that was applied last, if
    /// any was applied.
    pub fn recover_block_state(&self) -> (state: Option<BlockState>)
        ensures
            state == watermark(self@.applied),
    {
        if self.applied.len() == 0 {
            None
        } else {
            let last = &self.applied[self.applied.len() - 1];
            assert(last@ == self@.applied.last());
            Some(BlockState { block: last.block, order: last.order })
        }
    }

    /// How many mutations were applied.
    pub fn applied_count(&self) -> (count: usize)
        ensures
            count == self@.applied.len(),
    {
        self.applied.len()
    }

    /// The applied mutation at index `i` of the ledger.
    pub fn applied_at(&self, i: usize) -> (m: &AppliedMutation)
        requires
            i < self@.applied.len(),
        ensures
            m@ == self@.applied[i as int],
    {
        &self.applied[i]
    }

    /// Applies `m` unless its position is at or before the watermark. Returns
    /// whether it was applied.
    pub fn apply_mutation(&mut self, m: AppliedMutation) -> (taken: bool)
        requires
            old(self).wf(),
        ensures
            final(self).wf(),
            final(self)@ == (DocStoreView {
                applied: apply_one(old(self)@.applied, m@),
                ..old(self)@
            }),
            taken == (old(self)@.applied.len() == 0 || comes_before(
                old(self)@.applied.last(),
                m@,
            )),
    {
        let ghost before = self@;
        let ghost value = m@;
        let behind = match self.recover_block_state() {
            None => true,
            Some(state) => state.block < m.block || (state.block == m.block && state.order
                < m.order),
        };
        proof {
            lemma_apply_one_ordered(before.applied, value);
        }
        if behind {
            self.applied.push(m);
            assert(self@.applied =~= before.applied.push(value));
            assert(self@.event_dbs == before.event_dbs);
        }
        behind
    }

    /// Adds the descriptor of a database that is bound to a contract. Fails
    /// with `StorageError`, changing nothing, unless the address of the
    /// database has 20 bytes.
    pub fn add_event_db(&mut self, db: EventDatabase) -> (res: Result<(), NodeError>)
        requires
            old(self).wf(),
        ensures
            final(self).wf(),
            db@.address.len() == ADDRESS_LEN ==> res is Ok && final(self)@ == (DocStoreView {
                event_dbs: old(self)@.event_dbs.push(db@),
                ..old(self)@
            }),
            db@.address.len() != ADDRESS_LEN ==> res == Err::<(), NodeError>(
                NodeError::StorageError,
            ) && final(self)@ == old(self)@,
    {
        if db.address.len() != ADDRESS_LEN {
            return Err(NodeError::StorageError);
        }
        let ghost before = self@;
        let ghost value = db@;
        self.event_dbs.push(db);
        proof {
            assert(self@.event_dbs =~= before.event_dbs.push(value));
            assert(self@.applied == before.applied);
            assert forall|i: int| 0 <= i < self@.event_dbs.len() implies (
            #[trigger] self@.event_dbs[i]).address.len() == ADDRESS_LEN by {
                if i < before.event_dbs.len() {
                    assert(self@.event_dbs[i] == before.event_dbs[i]);
                }
            }
        }
        Ok(())
    }

    /// The descriptors of all the databases that are bound to a contract, in
    /// the order in which they were added.
    pub fn get_all_event_db(&self) -> (dbs: Vec<EventDatabase>)
        ensures
            database_views(dbs@) == self@.event_dbs,
    {
        let mut dbs: Vec<EventDatabase> = Vec::new();
        let mut i: usize = 0;
        while i < self.event_dbs.len()
            invariant
                i <= self.event_dbs.len(),
                dbs@.len() == i,
                forall|k: int| 0 <= k < i ==> (#[trigger] dbs@[k])@ == self@.event_dbs[k],
            decreases self.event_dbs.len() - i,
        {
            dbs.push(self.event_dbs[i].duplicate());
            i = i + 1;
        }
        assert(database_views(dbs@) =~= self@.event_dbs);
        dbs
    }
}

} // verus!
