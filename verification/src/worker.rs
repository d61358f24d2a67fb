//! The maintenance worker's decision policy and a model of the maintained
//! table.
//!
//! Once per tick the worker reads the current row count `n` and one uniform
//! random draw `r` in `[0,1)` from the store, then performs at most one
//! mutation: an insert while the table is small (`n < 10`), an insert with
//! probability one half in the middle band (`10 <= n < 20`), and otherwise an
//! eviction of the row with the minimum id. The draw reaches this module only
//! as its raw bit pattern together with the boolean `r < 1/2`, so the policy
//! itself is ordinary integer and boolean logic.

use crate::digest::{item_text, item_text_of};
use vstd::prelude::*;

verus! {

/// The two possible effects of one maintenance cycle.
#[derive(Clone, Copy, Debug, PartialEq, Eq, Structural)]
pub enum Decision {
    Insert,
    EvictMin,
}

/// The decision policy: grow while small, throttle growth by a fair coin in
/// the middle band, shed rows once the upper threshold is reached.
pub open spec fn decision_of(n: int, below_half: bool) -> Decision {
    if n < 10 {
        Decision::Insert
    } else if n < 20 && below_half {
        Decision::Insert
    } else {
        Decision::EvictMin
    }
}

/// Decide the effect of the next cycle from the current row count `n` and
/// whether the cycle's random draw fell below one half.
pub fn decide(n: u64, below_half: bool) -> (d: Decision)
    ensures
        d == decision_of(n as int, below_half),
{
    if n < 10 {
        Decision::Insert
    } else if n < 20 && below_half {
        Decision::Insert
    } else {
        Decision::EvictMin
    }
}

/// What the worker asks the store to do in one cycle: insert one row with the
/// given payload, or delete the row with the minimum id.
pub enum CycleAction {
    Insert { text: String },
    EvictMin,
}

/// Plan one cycle from the row count `n`, whether the draw fell below one
/// half, and the draw's raw bit pattern. The caller executes the action
/// against the store.
pub fn plan_cycle(n: u64, below_half: bool, bits: u64) -> (a: CycleAction)
    ensures
        (a is Insert) == (decision_of(n as int, below_half) is Insert),
        a matches CycleAction::Insert { text } ==> text@ == item_text_of(bits),
{
    match decide(n, below_half) {
        Decision::Insert => CycleAction::Insert { text: item_text(bits) },
        Decision::EvictMin => CycleAction::EvictMin,
    }
}

/// The mathematical value of one row: its id and its payload.
#[verifier::ext_equal]
pub struct RowV {
    pub id: int,
    pub text: Seq<char>,
}

/// The mathematical value of the table: the rows in id order, and the next id
/// the store would assign.
#[verifier::ext_equal]
pub struct TableV {
    pub next_id: int,
    pub rows: Seq<RowV>,
}

impl TableV {
    /// Rows stand in strictly increasing id order, and every id is below the
    /// next one to be assigned.
    pub open spec fn wf(self) -> bool {
        &&& forall|i: int, j: int|
            0 <= i < j < self.rows.len() ==> self.rows[i].id < self.rows[j].id
        &&& forall|i: int| 0 <= i < self.rows.len() ==> self.rows[i].id < self.next_id
    }
}

/// The table after an insert of a row with payload `text`: the store assigns
/// the next id and the row is appended.
pub open spec fn insert_effect(t: TableV, text: Seq<char>) -> TableV {
    TableV { next_id: t.next_id + 1, rows: t.rows.push(RowV { id: t.next_id, text }) }
}

/// The table after a delete of the row with the minimum id; an empty table is
/// left unchanged.
pub open spec fn evict_effect(t: TableV) -> TableV {
    if t.rows.len() == 0 {
        t
    } else {
        TableV { next_id: t.next_id, rows: t.rows.drop_first() }
    }
}

/// The table after one cycle: unchanged if the store failed, otherwise the
/// effect the decision policy picked for the current row count.
pub open spec fn cycle_effect(t: TableV, below_half: bool, bits: u64, store_ok: bool) -> TableV {
    if !store_ok {
        t
    } else {
        match decision_of(t.rows.len() as int, below_half) {
            Decision::Insert => insert_effect(t, item_text_of(bits)),
            Decision::EvictMin => evict_effect(t),
        }
    }
}

/// One row of the maintained table.
pub struct Row {
    pub id: u64,
    pub text: String,
}

impl View for Row {
    type V = RowV;

    open spec fn view(&self) -> RowV {
        RowV { id: self.id as int, text: self.text@ }
    }
}

/// A model of the maintained table, held in id order, together with the id
/// the store will assign next.
pub struct Table {
    pub next_id: u64,
    pub rows: Vec<Row>,
}

impl View for Table {
    type V = TableV;

    open spec fn view(&self) -> TableV {
        TableV { next_id: self.next_id as int, rows: self.rows@.map_values(|r: Row| r@) }
    }
}

impl Table {
    pub open spec fn wf(self) -> bool {
        self@.wf()
    }

    /// An empty table; the store has assigned no id yet.
    pub fn new() -> (t: Table)
        ensures
            t.wf(),
            t@.rows.len() == 0,
            t@.next_id == 0,
    {
        Table { next_id: 0, rows: Vec::new() }
    }

    /// The current row count.
    pub fn count(&self) -> (n: usize)
        ensures
            n == self@.rows.len(),
    {
        self.rows.len()
    }

    fn insert_row(&mut self, text: String)
        requires
            old(self).wf(),
            old(self).next_id < u64::MAX,
        ensures
            final(self)@ == insert_effect(old(self)@, text@),
    {
        let id = self.next_id;
        self.rows.push(Row { id, text });
        self.next_id = id + 1;
        proof {
            assert(self@.rows =~= old(self)@.rows.push(RowV { id: id as int, text: text@ }));
            assert(self@ =~= insert_effect(old(self)@, text@));
        }
    }

    /// Delete the row with the minimum id, returning it; an empty table is
    /// left unchanged.
    fn evict_min(&mut self) -> (removed: Option<u64>)
        requires
            old(self).wf(),
        ensures
            final(self)@ == evict_effect(old(self)@),
            removed is Some <==> old(self)@.rows.len() > 0,
            removed matches Some(id) ==> {
                &&& id as int == old(self)@.rows[0].id
                &&& forall|k: int|
                    0 <= k < old(self)@.rows.len() ==> id as int <= old(self)@.rows[k].id
            },
    {
        if self.rows.len() == 0 {
            return None;
        }
        let row = self.rows.remove(0);
        proof {
            assert(self@.rows =~= old(self)@.rows.drop_first());
            assert(self@ =~= evict_effect(old(self)@));
        }
        Some(row.id)
    }
}

/// A per-cycle store failure: the read or the mutation did not go through.
#[derive(Clone, Copy, Debug, PartialEq, Eq, Structural)]
pub struct StoreFailure;

/// One read-decide-write cycle against the table model. The store's
/// availability for this cycle is injected as `store_ok`: a failing store
/// leaves the table unchanged and surfaces as an error for the caller to log,
/// never as a panic.
pub fn run_cycle(table: &mut Table, below_half: bool, bits: u64, store_ok: bool) -> (r: Result<
    Decision,
    StoreFailure,
>)
    requires
        old(table).wf(),
        old(table).next_id < u64::MAX,
    ensures
        final(table).wf(),
        final(table)@ == cycle_effect(old(table)@, below_half, bits, store_ok),
        (r is Err) == !store_ok,
        store_ok ==> r == Ok::<Decision, StoreFailure>(
            decision_of(old(table)@.rows.len() as int, below_half),
        ),
        r == Ok::<Decision, StoreFailure>(Decision::EvictMin) ==> forall|k: int|
            0 <= k < old(table)@.rows.len() ==> old(table)@.rows[0].id
                <= #[trigger] old(table)@.rows[k].id,
{
    if !store_ok {
        return Err(StoreFailure);
    }
    let n = table.count();
    let d = decide(n as u64, below_half);
    match d {
        Decision::Insert => {
            let text = item_text(bits);
            table.insert_row(text);
            proof {
                lemma_insert_preserves_wf(old(table)@, text@);
            }
            Ok(Decision::Insert)
        },
        Decision::EvictMin => {
            let _ = table.evict_min();
            proof {
                lemma_evict_preserves_wf(old(table)@);
            }
            Ok(Decision::EvictMin)
        },
    }
}

/// Appending a row under the next id keeps the table well formed.
pub proof fn lemma_insert_preserves_wf(t: TableV, text: Seq<char>)
    requires
        t.wf(),
    ensures
        insert_effect(t, text).wf(),
{
    let r2 = insert_effect(t, text).rows;
    assert forall|i: int, j: int| 0 <= i < j < r2.len() implies r2[i].id < r2[j].id by {
        if j < t.rows.len() {
        } else {
            assert(r2[i].id < t.next_id);
        }
    }
}

/// Deleting the minimum-id row keeps the table well formed.
pub proof fn lemma_evict_preserves_wf(t: TableV)
    requires
        t.wf(),
    ensures
        evict_effect(t).wf(),
{
}

/// Every cycle keeps the table well formed.
pub proof fn lemma_cycle_preserves_wf(t: TableV, below_half: bool, bits: u64, store_ok: bool)
    requires
        t.wf(),
    ensures
        cycle_effect(t, below_half, bits, store_ok).wf(),
{
    lemma_insert_preserves_wf(t, item_text_of(bits));
    lemma_evict_preserves_wf(t);
}

/// Each cycle performs at most one mutation: the row count moves by at most
/// one, and only when the store was available.
pub proof fn lemma_at_most_one_mutation(t: TableV, below_half: bool, bits: u64, store_ok: bool)
    requires
        t.wf(),
    ensures
        !store_ok ==> cycle_effect(t, below_half, bits, store_ok) == t,
        cycle_effect(t, below_half, bits, store_ok).rows.len() <= t.rows.len() + 1,
        cycle_effect(t, below_half, bits, store_ok).rows.len() + 1 >= t.rows.len(),
{
}

/// Below ten rows a successful cycle always inserts: the count grows by one,
/// whatever the draw.
pub proof fn lemma_small_table_inserts(t: TableV, below_half: bool, bits: u64)
    requires
        t.wf(),
        t.rows.len() < 10,
    ensures
        decision_of(t.rows.len() as int, below_half) is Insert,
        cycle_effect(t, below_half, bits, true).rows.len() == t.rows.len() + 1,
{
}

/// At twenty rows or more a successful cycle always deletes the row whose id
/// is the minimum of those present: the count shrinks by one, the surviving
/// rows are exactly the rest, and the removed row's id is a lower bound on
/// every id that was present.
pub proof fn lemma_large_table_evicts_min(t: TableV, below_half: bool, bits: u64)
    requires
        t.wf(),
        t.rows.len() >= 20,
    ensures
        decision_of(t.rows.len() as int, below_half) is EvictMin,
        cycle_effect(t, below_half, bits, true).rows =~= t.rows.drop_first(),
        cycle_effect(t, below_half, bits, true).rows.len() == t.rows.len() - 1,
        forall|k: int| 0 <= k < t.rows.len() ==> t.rows[0].id <= #[trigger] t.rows[k].id,
{
}

/// In the middle band the coin decides: a successful cycle inserts exactly
/// when the draw fell below one half, and evicts otherwise. That each case
/// arises with probability one half is a property of the store's uniform
/// random source, not stated here.
pub proof fn lemma_band_follows_coin(n: int, below_half: bool)
    requires
        10 <= n < 20,
    ensures
        (decision_of(n, below_half) is Insert) == below_half,
{
}

/// The observations one cycle acts on: the coin, the draw's bit pattern, and
/// whether the store was available.
#[derive(Clone, Copy, Debug, PartialEq, Eq, Structural)]
pub struct CycleEvent {
    pub below_half: bool,
    pub bits: u64,
    pub store_ok: bool,
}

/// The table after a sequence of cycles, first event first.
pub open spec fn run_cycles(t: TableV, events: Seq<CycleEvent>) -> TableV
    decreases events.len(),
{
    if events.len() == 0 {
        t
    } else {
        run_cycles(
            cycle_effect(t, events[0].below_half, events[0].bits, events[0].store_ok),
            events.drop_first(),
        )
    }
}

/// Cycles compose: running one sequence of events and then another is
/// running their concatenation.
pub proof fn lemma_run_cycles_concat(t: TableV, first: Seq<CycleEvent>, rest: Seq<CycleEvent>)
    ensures
        run_cycles(t, first + rest) == run_cycles(run_cycles(t, first), rest),
    decreases first.len(),
{
    if first.len() == 0 {
        assert(first + rest =~= rest);
    } else {
        let t2 = cycle_effect(t, first[0].below_half, first[0].bits, first[0].store_ok);
        assert((first + rest).drop_first() =~= first.drop_first() + rest);
        lemma_run_cycles_concat(t2, first.drop_first(), rest);
    }
}

/// A failing cycle leaves the table unchanged, so a run of consecutive store
/// failures, however long, leaves the table exactly as it stood before them.
pub proof fn lemma_failed_cycles_change_nothing(t: TableV, events: Seq<CycleEvent>)
    requires
        forall|i: int| 0 <= i < events.len() ==> !events[i].store_ok,
    ensures
        run_cycles(t, events) == t,
    decreases events.len(),
{
    if events.len() > 0 {
        lemma_failed_cycles_change_nothing(t, events.drop_first());
    }
}

/// Store failures do not stop the cycles that follow: after any run of
/// failing cycles, the remaining cycles act on the table exactly as they
/// would have without the failures.
pub proof fn lemma_cycles_resume_after_failures(
    t: TableV,
    failures: Seq<CycleEvent>,
    rest: Seq<CycleEvent>,
)
    requires
        forall|i: int| 0 <= i < failures.len() ==> !failures[i].store_ok,
    ensures
        run_cycles(t, failures + rest) == run_cycles(t, rest),
{
    lemma_run_cycles_concat(t, failures, rest);
    lemma_failed_cycles_change_nothing(t, failures);
}

/// While the table stays at or below ten rows, successful cycles insert one
/// row each: the count after the run is the count before plus the number of
/// cycles.
pub proof fn lemma_fill_while_small(t: TableV, events: Seq<CycleEvent>)
    requires
        t.wf(),
        t.rows.len() + events.len() <= 10,
        forall|i: int| 0 <= i < events.len() ==> events[i].store_ok,
    ensures
        run_cycles(t, events).wf(),
        run_cycles(t, events).rows.len() == t.rows.len() + events.len(),
    decreases events.len(),
{
    if events.len() > 0 {
        let t2 = cycle_effect(t, events[0].below_half, events[0].bits, events[0].store_ok);
        lemma_cycle_preserves_wf(t, events[0].below_half, events[0].bits, events[0].store_ok);
        lemma_fill_while_small(t2, events.drop_first());
    }
}

/// From an empty table, ten successful cycles all take the insert branch and
/// fill the table to exactly ten rows, at which point the policy stands in
/// the probabilistic band: the next decision follows the coin.
pub proof fn lemma_empty_fills_to_band(t: TableV, events: Seq<CycleEvent>)
    requires
        t.wf(),
        t.rows.len() == 0,
        events.len() == 10,
        forall|i: int| 0 <= i < events.len() ==> events[i].store_ok,
    ensures
        run_cycles(t, events).wf(),
        run_cycles(t, events).rows.len() == 10,
        forall|b: bool| (decision_of(run_cycles(t, events).rows.len() as int, b) is Insert) == b,
{
    lemma_fill_while_small(t, events);
}

} // verus!
