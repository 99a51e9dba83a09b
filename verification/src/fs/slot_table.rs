//! The invocation slots of a mount.
use super::invocation::{
    committed_slot, drained_slot, edits_view, fresh_slot, pending_slot, reset_slot, touched_slot,
    written_slot, Edit, EndpointSnapshot, InvocationSlot, InvocationState, SlotKey, SlotModel,
    SnapshotModel,
};
use vstd::prelude::*;

verus! {

/// A reference to a slot of a table. It stays good while the slot is in the table
/// or pinned.
#[derive(Clone, Copy, Debug, PartialEq, Eq, Structural)]
pub struct SlotHandle {
    pub id: usize,
}

/// A slot with what keeps it alive.
struct Cell {
    /// Whether the slot is found under its key.
    live: bool,
    /// How many tasks still hold the slot.
    pins: u64,
    slot: InvocationSlot,
}

/// What a cell of a table holds.
pub struct CellModel {
    pub live: bool,
    pub pins: u64,
    pub slot: SlotModel,
}

/// Lookup table for live invocation slots.
///
/// Each key maps to at most one slot. A slot that was removed while a task still
/// holds it stays readable for that task.
pub struct SlotTable {
    cells: Vec<Option<Cell>>,
}

spec fn cell_view(c: Option<Cell>) -> Option<CellModel> {
    match c {
        None => None,
        Some(c) => Some(CellModel { live: c.live, pins: c.pins, slot: c.slot@ }),
    }
}

impl View for SlotTable {
    type V = Seq<Option<CellModel>>;

    closed spec fn view(&self) -> Seq<Option<CellModel>> {
        self.cells@.map_values(|c: Option<Cell>| cell_view(c))
    }
}

/// Whether the live slot of a key is the `i`th one.
pub open spec fn is_at(cells: Seq<Option<CellModel>>, key: SlotKey, i: int) -> bool {
    &&& 0 <= i < cells.len()
    &&& cells[i] matches Some(c) && c.live && c.slot.key == key
}

/// The place of the live slot of a key.
pub open spec fn slot_id(cells: Seq<Option<CellModel>>, key: SlotKey) -> Option<int> {
    if exists|i: int| is_at(cells, key, i) {
        Some(choose|i: int| is_at(cells, key, i))
    } else {
        None
    }
}

/// The live slot of a key.
pub open spec fn slot_at(cells: Seq<Option<CellModel>>, key: SlotKey) -> Option<SlotModel> {
    match slot_id(cells, key) {
        None => None,
        Some(i) => Some(cells[i]->0.slot),
    }
}

/// Whether no key has two live slots, and no slot is kept for nobody.
pub open spec fn table_wf(cells: Seq<Option<CellModel>>) -> bool {
    &&& forall|key: SlotKey, i: int, j: int|
        #![trigger is_at(cells, key, i), is_at(cells, key, j)]
        is_at(cells, key, i) && is_at(cells, key, j) ==> i == j
    &&& forall|i: int|
        0 <= i < cells.len() ==> (#[trigger] cells[i] matches Some(c) ==> c.live || c.pins > 0)
}

/// Whether a handle refers to a slot.
pub open spec fn holds(cells: Seq<Option<CellModel>>, h: SlotHandle) -> bool {
    h.id < cells.len() && cells[h.id as int] is Some
}

/// A cell after its slot was taken off its key.
pub open spec fn detached(c: Option<CellModel>) -> Option<CellModel> {
    match c {
        Some(c) => if c.pins > 0 {
            Some(CellModel { live: false, ..c })
        } else {
            None
        },
        None => None,
    }
}

/// The number of live slots for which `p` holds.
pub open spec fn live_count(cells: Seq<Option<CellModel>>, p: spec_fn(SlotModel) -> bool) -> nat
    decreases cells.len(),
{
    if cells.len() == 0 {
        0
    } else {
        live_count(cells.drop_last(), p) + match cells.last() {
            Some(c) => if c.live && p(c.slot) {
                1nat
            } else {
                0nat
            },
            None => 0nat,
        }
    }
}

/// The table after every live slot for which `p` holds was taken off its key.
pub open spec fn without(
    cells: Seq<Option<CellModel>>,
    p: spec_fn(SlotModel) -> bool,
) -> Seq<Option<CellModel>> {
    cells.map_values(
        |c: Option<CellModel>|
            if c matches Some(m) && m.live && p(m.slot) {
                detached(c)
            } else {
                c
            },
    )
}

/// Whether a slot was not used for longer than `max_idle`.
pub open spec fn is_stale(s: SlotModel, now: u64, max_idle: u64) -> bool {
    now - s.last_touched > max_idle
}

/// The table with a new slot at a place that was free.
pub open spec fn placed(
    cells: Seq<Option<CellModel>>,
    i: int,
    c: CellModel,
) -> Seq<Option<CellModel>> {
    if i == cells.len() {
        cells.push(Some(c))
    } else {
        cells.update(i, Some(c))
    }
}

/// The cell with its slot replaced.
pub open spec fn with_slot(c: Option<CellModel>, s: SlotModel) -> Option<CellModel> {
    match c {
        None => None,
        Some(c) => Some(CellModel { slot: s, ..c }),
    }
}

/// The slot of a handle.
pub open spec fn held(cells: Seq<Option<CellModel>>, h: SlotHandle) -> SlotModel {
    cells[h.id as int]->0.slot
}

/// The table with the slot of a handle replaced.
pub open spec fn changed(
    cells: Seq<Option<CellModel>>,
    h: SlotHandle,
    s: SlotModel,
) -> Seq<Option<CellModel>> {
    cells.update(h.id as int, with_slot(cells[h.id as int], s))
}

/// Whether a handle refers to a slot that a task holds.
pub open spec fn is_pinned(cells: Seq<Option<CellModel>>, h: SlotHandle) -> bool {
    holds(cells, h) && cells[h.id as int]->0.pins > 0
}

/// How many tasks hold the live slot of a key.
pub open spec fn pins_at(cells: Seq<Option<CellModel>>, key: SlotKey) -> u64 {
    match slot_id(cells, key) {
        None => 0,
        Some(i) => cells[i]->0.pins,
    }
}

/// Whether a live slot of a key that was there stays at its place.
pub open spec fn keeps_place(
    cells: Seq<Option<CellModel>>,
    after: Seq<Option<CellModel>>,
    key: SlotKey,
) -> bool {
    slot_id(cells, key) is Some ==> slot_id(after, key) == slot_id(cells, key)
}

/// One task more; so many that they cannot be counted stay so many.
pub open spec fn one_more(pins: u64) -> u64 {
    if pins < u64::MAX {
        (pins + 1) as u64
    } else {
        pins
    }
}

/// The cell with one more task that holds it.
pub open spec fn pinned(c: Option<CellModel>) -> Option<CellModel> {
    match c {
        None => None,
        Some(c) => Some(CellModel { pins: one_more(c.pins), ..c }),
    }
}

/// The cell with one task less that holds it.
pub open spec fn unpinned(c: Option<CellModel>) -> Option<CellModel> {
    match c {
        None => None,
        Some(c) => {
            let pins = if 0 < c.pins < u64::MAX {
                (c.pins - 1) as u64
            } else {
                c.pins
            };
            if c.live || pins > 0 {
                Some(CellModel { pins, ..c })
            } else {
                None
            }
        },
    }
}

/// Whether a slot has something to show in the log of an inode.
pub open spec fn has_trace(s: SlotModel, ino: u64) -> bool {
    s.key.0 == ino && s.state == InvocationState::Ready && s.trace.len() > 0
}

/// Whether a cell holds a live slot with something to show in the log of an inode.
pub open spec fn is_traced(c: Option<CellModel>, ino: u64) -> bool {
    c matches Some(m) && m.live && has_trace(m.slot, ino)
}

/// Whether the `i`th slot is a live one with the latest trace of an inode.
pub open spec fn is_latest_trace(cells: Seq<Option<CellModel>>, ino: u64, i: int) -> bool {
    &&& 0 <= i < cells.len()
    &&& is_traced(cells[i], ino)
    &&& forall|j: int|
        0 <= j < cells.len() && is_traced(#[trigger] cells[j], ino)
            ==> cells[j]->0.slot.last_touched <= cells[i]->0.slot.last_touched
}

/// The place, among the first `n`, of the live slot with the latest trace of an
/// inode; of several that were last used at the same time, the last one.
pub open spec fn latest_among(cells: Seq<Option<CellModel>>, ino: u64, n: int) -> Option<int>
    decreases n,
{
    if n <= 0 {
        None
    } else {
        let rest = latest_among(cells, ino, n - 1);
        if is_traced(cells[n - 1], ino) && (rest matches Some(b)
            ==> cells[b]->0.slot.last_touched <= cells[n - 1]->0.slot.last_touched) {
            Some(n - 1)
        } else {
            rest
        }
    }
}

/// The latest trace of an inode.
pub open spec fn latest_trace(cells: Seq<Option<CellModel>>, ino: u64) -> Option<Seq<u8>> {
    match latest_among(cells, ino, cells.len() as int) {
        None => None,
        Some(i) => Some(cells[i]->0.slot.trace),
    }
}

proof fn lemma_latest_among(cells: Seq<Option<CellModel>>, ino: u64, n: int)
    requires
        0 <= n <= cells.len(),
    ensures
        match latest_among(cells, ino, n) {
            None => forall|j: int| 0 <= j < n ==> !is_traced(#[trigger] cells[j], ino),
            Some(b) => 0 <= b < n && is_traced(cells[b], ino) && forall|j: int|
                0 <= j < n && is_traced(#[trigger] cells[j], ino) ==> cells[j]->0.slot.last_touched
                    <= cells[b]->0.slot.last_touched,
        },
    decreases n,
{
    if n > 0 {
        lemma_latest_among(cells, ino, n - 1);
    }
}

/// The latest trace of an inode is that of the live slot of the inode that was last
/// used, among those whose invocation ended with a trace.
pub proof fn latest_trace_is_latest(cells: Seq<Option<CellModel>>, ino: u64)
    ensures
        match latest_trace(cells, ino) {
            None => forall|j: int| 0 <= j < cells.len() ==> !is_traced(#[trigger] cells[j], ino),
            Some(t) => exists|i: int| #[trigger]
                is_latest_trace(cells, ino, i) && t == cells[i]->0.slot.trace,
        },
{
    lemma_latest_among(cells, ino, cells.len() as int);
    if let Some(i) = latest_among(cells, ino, cells.len() as int) {
        assert(is_latest_trace(cells, ino, i));
    }
}

/// The place of the live slot of a key is the one where it stands.
pub proof fn lemma_slot_id(cells: Seq<Option<CellModel>>, key: SlotKey, i: int)
    requires
        table_wf(cells),
        is_at(cells, key, i),
    ensures
        slot_id(cells, key) == Some(i),
        slot_at(cells, key) == Some(cells[i]->0.slot),
{
    let j = choose|j: int| is_at(cells, key, j);
    assert(is_at(cells, key, j));
}

/// Replacing the slot of a handle by one of the same key leaves the live slots of
/// other keys as they are.
pub proof fn lemma_update(cells: Seq<Option<CellModel>>, i: int, s: SlotModel)
    requires
        table_wf(cells),
        0 <= i < cells.len(),
        cells[i] is Some,
        s.key == cells[i]->0.slot.key,
    ensures
        table_wf(cells.update(i, with_slot(cells[i], s))),
        forall|key: SlotKey|
            slot_id(cells.update(i, with_slot(cells[i], s)), key) == #[trigger] slot_id(
                cells,
                key,
            ),
        forall|key: SlotKey| #[trigger]
            slot_at(cells.update(i, with_slot(cells[i], s)), key) == (if slot_id(cells, key)
                == Some(i) {
                Some(s)
            } else {
                slot_at(cells, key)
            }),
{
    let after = cells.update(i, with_slot(cells[i], s));
    assert forall|key: SlotKey, j: int| is_at(after, key, j) <==> is_at(cells, key, j) by {
        if j == i {
        } else {
        }
    }
    assert forall|key: SlotKey| slot_id(after, key) == #[trigger] slot_id(cells, key) by {
        if exists|j: int| is_at(cells, key, j) {
            let j = choose|j: int| is_at(cells, key, j);
            assert(is_at(after, key, j));
            let k = choose|j: int| is_at(after, key, j);
            assert(is_at(cells, key, k));
        } else if exists|j: int| is_at(after, key, j) {
            let k = choose|j: int| is_at(after, key, j);
            assert(is_at(cells, key, k));
        }
    }
    assert forall|key: SlotKey, a: int, b: int|
        #![trigger is_at(after, key, a), is_at(after, key, b)]
        is_at(after, key, a) && is_at(after, key, b) implies a == b by {
        assert(is_at(cells, key, a) && is_at(cells, key, b));
    }
    assert forall|key: SlotKey| #[trigger]
        slot_at(after, key) == (if slot_id(cells, key) == Some(i) {
            Some(s)
        } else {
            slot_at(cells, key)
        }) by {
        assert(slot_id(after, key) == slot_id(cells, key));
        if let Some(j) = slot_id(cells, key) {
            assert(is_at(cells, key, j));
        }
    }
}

/// A change that keeps which slots are live, and under which key, keeps what is
/// found under each key.
proof fn lemma_same_live(
    cells: Seq<Option<CellModel>>,
    after: Seq<Option<CellModel>>,
)
    requires
        table_wf(cells),
        forall|key: SlotKey, j: int| #[trigger] is_at(after, key, j) <==> is_at(cells, key, j),
        forall|key: SlotKey, j: int| #[trigger]
            is_at(cells, key, j) ==> after[j]->0.slot == cells[j]->0.slot,
        forall|i: int|
            0 <= i < after.len() ==> (#[trigger] after[i] matches Some(c) ==> c.live || c.pins
                > 0),
    ensures
        table_wf(after),
        forall|key: SlotKey| #[trigger] slot_id(after, key) == slot_id(cells, key),
        forall|key: SlotKey| #[trigger] slot_at(after, key) == slot_at(cells, key),
{
    assert forall|key: SlotKey, a: int, b: int|
        #![trigger is_at(after, key, a), is_at(after, key, b)]
        is_at(after, key, a) && is_at(after, key, b) implies a == b by {
        assert(is_at(cells, key, a) && is_at(cells, key, b));
    }
    assert forall|key: SlotKey| #[trigger] slot_id(after, key) == slot_id(cells, key) by {
        if exists|j: int| is_at(cells, key, j) {
            let j = choose|j: int| is_at(cells, key, j);
            assert(is_at(after, key, j));
            lemma_slot_id(after, key, j);
            lemma_slot_id(cells, key, j);
        } else if exists|j: int| is_at(after, key, j) {
            let j = choose|j: int| is_at(after, key, j);
            assert(is_at(cells, key, j));
        }
    }
    assert forall|key: SlotKey| #[trigger] slot_at(after, key) == slot_at(cells, key) by {
        assert(slot_id(after, key) == slot_id(cells, key));
        if let Some(j) = slot_id(cells, key) {
            assert(is_at(cells, key, j));
        }
    }
}

/// Pinning a slot changes nothing that is found under a key.
pub proof fn lemma_pinned(cells: Seq<Option<CellModel>>, i: int)
    requires
        table_wf(cells),
        0 <= i < cells.len(),
        cells[i] is Some,
    ensures
        table_wf(cells.update(i, pinned(cells[i]))),
        forall|key: SlotKey| #[trigger]
            slot_id(cells.update(i, pinned(cells[i])), key) == slot_id(cells, key),
        forall|key: SlotKey| #[trigger]
            slot_at(cells.update(i, pinned(cells[i])), key) == slot_at(cells, key),
{
    lemma_same_live(cells, cells.update(i, pinned(cells[i])));
}

/// Unpinning a slot changes nothing that is found under a key.
pub proof fn lemma_unpinned(cells: Seq<Option<CellModel>>, i: int)
    requires
        table_wf(cells),
        0 <= i < cells.len(),
        cells[i] is Some,
    ensures
        table_wf(cells.update(i, unpinned(cells[i]))),
        forall|key: SlotKey| #[trigger]
            slot_id(cells.update(i, unpinned(cells[i])), key) == slot_id(cells, key),
        forall|key: SlotKey| #[trigger]
            slot_at(cells.update(i, unpinned(cells[i])), key) == slot_at(cells, key),
{
    lemma_same_live(cells, cells.update(i, unpinned(cells[i])));
}

/// Whether a change of a table touches nothing but the live slot of a key: what is
/// found under other keys stays, and so does every slot that a task still holds.
pub open spec fn only_slot_changed(
    cells: Seq<Option<CellModel>>,
    after: Seq<Option<CellModel>>,
    key: SlotKey,
) -> bool {
    &&& forall|other: SlotKey|
        other != key ==> #[trigger] slot_at(after, other) == slot_at(cells, other)
    &&& forall|i: int|
        0 <= i < cells.len() && cells[i] is Some && !is_at(cells, key, i) ==> i < after.len()
            && #[trigger] cells[i] == after[i]
}

/// The live slot of a key, or the one that would be made.
pub open spec fn slot_or_fresh(
    cells: Seq<Option<CellModel>>,
    key: SlotKey,
    snapshot: SnapshotModel,
    now: u64,
) -> SlotModel {
    match slot_at(cells, key) {
        Some(s) => s,
        None => fresh_slot(key, snapshot, now),
    }
}

/// A change of the live slot of a key that keeps its key touches no other one.
pub proof fn lemma_changed_only(cells: Seq<Option<CellModel>>, h: SlotHandle, s: SlotModel)
    requires
        table_wf(cells),
        holds(cells, h),
        cells[h.id as int]->0.live,
        s.key == held(cells, h).key,
    ensures
        table_wf(changed(cells, h, s)),
        holds(changed(cells, h, s), h),
        slot_id(changed(cells, h, s), s.key) == Some(h.id as int),
        slot_at(changed(cells, h, s), s.key) == Some(s),
        only_slot_changed(cells, changed(cells, h, s), s.key),
{
    lemma_update(cells, h.id as int, s);
    assert(is_at(cells, s.key, h.id as int));
    lemma_slot_id(cells, s.key, h.id as int);
    let after = changed(cells, h, s);
    assert(slot_id(after, s.key) == slot_id(cells, s.key));
    assert forall|other: SlotKey| other != s.key implies #[trigger] slot_at(after, other)
        == slot_at(cells, other) by {
        if slot_id(cells, other) == Some(h.id as int) {
            let i = choose|i: int| is_at(cells, other, i);
            assert(is_at(cells, other, i));
        }
    }
}

/// Changes that touch only the slot of a key, one after the other, touch only it.
pub proof fn lemma_only_trans(
    a: Seq<Option<CellModel>>,
    b: Seq<Option<CellModel>>,
    c: Seq<Option<CellModel>>,
    key: SlotKey,
)
    requires
        only_slot_changed(a, b, key),
        only_slot_changed(b, c, key),
    ensures
        only_slot_changed(a, c, key),
{
    assert forall|other: SlotKey| other != key implies #[trigger] slot_at(c, other) == slot_at(
        a,
        other,
    ) by {
        assert(slot_at(b, other) == slot_at(a, other));
    }
    assert forall|i: int| 0 <= i < a.len() && a[i] is Some && !is_at(a, key, i) implies i < c.len()
        && #[trigger] a[i] == c[i] by {
        assert(a[i] == b[i]);
        assert(!is_at(b, key, i));
        assert(b[i] == c[i]);
    }
}

/// A slot that was made or found is the live slot of its key, and the only change.
pub proof fn lemma_ensured(
    cells: Seq<Option<CellModel>>,
    after: Seq<Option<CellModel>>,
    key: SlotKey,
    h: SlotHandle,
    snapshot: SnapshotModel,
    now: u64,
)
    requires
        table_wf(cells),
        slot_id(after, key) == Some(h.id as int),
        slot_id(cells, key) is Some ==> after == cells,
        slot_id(cells, key) is None ==> h.id <= cells.len() && (h.id < cells.len()
            ==> cells[h.id as int] is None) && after == placed(
            cells,
            h.id as int,
            CellModel { live: true, pins: 0, slot: fresh_slot(key, snapshot, now) },
        ),
    ensures
        table_wf(after),
        is_at(after, key, h.id as int),
        holds(after, h),
        held(after, h) == slot_or_fresh(cells, key, snapshot, now),
        slot_at(after, key) == Some(slot_or_fresh(cells, key, snapshot, now)),
        pins_at(after, key) == pins_at(cells, key),
        keeps_place(cells, after, key),
        only_slot_changed(cells, after, key),
{
    if slot_id(cells, key) is Some {
        assert(is_at(cells, key, h.id as int));
    } else {
        let c = CellModel { live: true, pins: 0, slot: fresh_slot(key, snapshot, now) };
        lemma_placed(cells, h.id as int, c);
        assert(is_at(after, key, h.id as int));
    }
}

/// Taking the live slot of a key off it touches no other one.
pub proof fn lemma_removed_only(cells: Seq<Option<CellModel>>, key: SlotKey)
    requires
        table_wf(cells),
    ensures
        table_wf(without(cells, |s: SlotModel| s.key == key)),
        slot_at(without(cells, |s: SlotModel| s.key == key), key) is None,
        only_slot_changed(cells, without(cells, |s: SlotModel| s.key == key), key),
{
    let p = |s: SlotModel| s.key == key;
    lemma_without(cells, p);
    let after = without(cells, p);
    assert forall|k: SlotKey| #[trigger] slot_at(cells, k) is Some implies slot_at(cells, k)->0.key
        == k by {
        let i = choose|i: int| is_at(cells, k, i);
        assert(is_at(cells, k, i));
    }
    assert(slot_at(after, key) is None) by {
        if let Some(s) = slot_at(cells, key) {
            assert(p(s));
        }
    }
    assert forall|other: SlotKey| other != key implies #[trigger] slot_at(after, other) == slot_at(
        cells,
        other,
    ) by {
        if let Some(s) = slot_at(cells, other) {
            assert(!p(s));
        }
    }
}

/// Taking slots off their keys leaves the other live slots as they are.
pub proof fn lemma_without(cells: Seq<Option<CellModel>>, p: spec_fn(SlotModel) -> bool)
    requires
        table_wf(cells),
    ensures
        table_wf(without(cells, p)),
        forall|key: SlotKey| #[trigger]
            slot_at(without(cells, p), key) == (match slot_at(cells, key) {
                None => None,
                Some(s) => if p(s) {
                    None
                } else {
                    Some(s)
                },
            }),
{
    let after = without(cells, p);
    assert forall|key: SlotKey, j: int| #[trigger]
        is_at(after, key, j) <==> (is_at(cells, key, j) && !p(cells[j]->0.slot)) by {}
    assert forall|key: SlotKey, a: int, b: int|
        #![trigger is_at(after, key, a), is_at(after, key, b)]
        is_at(after, key, a) && is_at(after, key, b) implies a == b by {
        assert(is_at(cells, key, a) && is_at(cells, key, b));
    }
    assert(table_wf(after));
    assert forall|key: SlotKey| #[trigger]
        slot_at(after, key) == (match slot_at(cells, key) {
            None => None,
            Some(s) => if p(s) {
                None
            } else {
                Some(s)
            },
        }) by {
        match slot_id(cells, key) {
            Some(i) => {
                assert(is_at(cells, key, i));
                if p(cells[i]->0.slot) {
                    if exists|j: int| is_at(after, key, j) {
                        let j = choose|j: int| is_at(after, key, j);
                        assert(is_at(cells, key, j));
                    }
                } else {
                    assert(is_at(after, key, i));
                    lemma_slot_id(after, key, i);
                }
            },
            None => {
                if exists|j: int| is_at(after, key, j) {
                    let j = choose|j: int| is_at(after, key, j);
                    assert(is_at(cells, key, j));
                }
            },
        }
    }
}

/// A new slot at a free place is the live slot of its key, and the only change.
pub proof fn lemma_placed(cells: Seq<Option<CellModel>>, i: int, c: CellModel)
    requires
        table_wf(cells),
        0 <= i <= cells.len(),
        i < cells.len() ==> cells[i] is None,
        c.live,
        slot_id(cells, c.slot.key) is None,
    ensures
        table_wf(placed(cells, i, c)),
        slot_id(placed(cells, i, c), c.slot.key) == Some(i),
        forall|key: SlotKey| #[trigger]
            slot_at(placed(cells, i, c), key) == (if key == c.slot.key {
                Some(c.slot)
            } else {
                slot_at(cells, key)
            }),
{
    let after = placed(cells, i, c);
    assert forall|key: SlotKey, j: int| #[trigger]
        is_at(after, key, j) <==> (is_at(cells, key, j) || (j == i && key == c.slot.key)) by {}
    assert forall|key: SlotKey, a: int, b: int|
        #![trigger is_at(after, key, a), is_at(after, key, b)]
        is_at(after, key, a) && is_at(after, key, b) implies a == b by {
        if is_at(cells, key, a) {
            assert(key != c.slot.key);
            assert(is_at(cells, key, b));
        } else if is_at(cells, key, b) {
            assert(key != c.slot.key);
        }
    }
    assert(table_wf(after));
    assert(is_at(after, c.slot.key, i));
    lemma_slot_id(after, c.slot.key, i);
    assert forall|key: SlotKey| #[trigger]
        slot_at(after, key) == (if key == c.slot.key {
            Some(c.slot)
        } else {
            slot_at(cells, key)
        }) by {
        if key != c.slot.key {
            match slot_id(cells, key) {
                Some(j) => {
                    assert(is_at(cells, key, j));
                    assert(is_at(after, key, j));
                    lemma_slot_id(after, key, j);
                    lemma_slot_id(cells, key, j);
                },
                None => {
                    if exists|j: int| is_at(after, key, j) {
                        let j = choose|j: int| is_at(after, key, j);
                        assert(is_at(cells, key, j));
                    }
                },
            }
        }
    }
}

impl SlotTable {
    /// No key has two live slots.
    pub closed spec fn wf(&self) -> bool {
        table_wf(self@)
    }

    /// What the invariant of a table says.
    pub proof fn lemma_wf(&self)
        ensures
            self.wf() == table_wf(self@),
    {
    }

    /// A table without slots.
    pub fn new() -> (r: Self)
        ensures
            r.wf(),
            r@ == Seq::<Option<CellModel>>::empty(),
    {
        let r = SlotTable { cells: Vec::new() };
        proof {
            assert(r@ =~= Seq::<Option<CellModel>>::empty());
        }
        r
    }

    /// Returns the slot for `key` if it exists, without creating one.
    pub fn get(&self, key: SlotKey) -> (r: Option<SlotHandle>)
        requires
            self.wf(),
        ensures
            match r {
                None => slot_id(self@, key) is None,
                Some(h) => slot_id(self@, key) == Some(h.id as int) && is_at(
                    self@,
                    key,
                    h.id as int,
                ) && holds(self@, h),
            },
    {
        let mut i: usize = 0;
        while i < self.cells.len()
            invariant
                i <= self.cells@.len(),
                self.wf(),
                forall|j: int| 0 <= j < i ==> !is_at(self@, key, j),
            decreases self.cells@.len() - i,
        {
            match &self.cells[i] {
                Some(c) => {
                    if c.live && c.slot.key.0 == key.0 && c.slot.key.1 == key.1 {
                        proof {
                            assert(self@[i as int] == cell_view(self.cells@[i as int]));
                            lemma_slot_id(self@, key, i as int);
                        }
                        return Some(SlotHandle { id: i });
                    }
                },
                None => {},
            }
            proof {
                assert(self@[i as int] == cell_view(self.cells@[i as int]));
            }
            i = i + 1;
        }
        proof {
            assert forall|j: int| !is_at(self@, key, j) by {
                assert(self@.len() == self.cells@.len());
            }
        }
        None
    }

    /// A place that no slot takes.
    fn free_place(&self) -> (r: usize)
        ensures
            r <= self@.len(),
            r < self@.len() ==> self@[r as int] is None,
    {
        let mut i: usize = 0;
        while i < self.cells.len()
            invariant
                i <= self.cells@.len(),
            decreases self.cells@.len() - i,
        {
            if self.cells[i].is_none() {
                proof {
                    assert(self@[i as int] == cell_view(self.cells@[i as int]));
                }
                return i;
            }
            i = i + 1;
        }
        i
    }

    /// Returns the existing slot for `key`, or creates one from the snapshot if
    /// none exists.
    pub fn get_or_create(&mut self, key: SlotKey, snapshot: EndpointSnapshot, now: u64) -> (r:
        SlotHandle)
        requires
            old(self).wf(),
        ensures
            final(self).wf(),
            holds(final(self)@, r),
            slot_id(final(self)@, key) == Some(r.id as int),
            slot_id(old(self)@, key) is Some ==> final(self)@ == old(self)@,
            slot_id(old(self)@, key) is None ==> r.id <= old(self)@.len() && (r.id < old(
                self,
            )@.len() ==> old(self)@[r.id as int] is None) && final(self)@ == placed(
                old(self)@,
                r.id as int,
                CellModel { live: true, pins: 0, slot: fresh_slot(key, snapshot@, now) },
            ),
    {
        match self.get(key) {
            Some(h) => h,
            None => {
                let i: usize = self.free_place();
                let slot = InvocationSlot::new(key, snapshot, now);
                let ghost c = CellModel { live: true, pins: 0, slot: slot@ };
                let cell = Cell { live: true, pins: 0, slot };
                if i == self.cells.len() {
                    self.cells.push(Some(cell));
                } else {
                    self.cells.set(i, Some(cell));
                }
                proof {
                    assert(self@ =~= placed(old(self)@, i as int, c));
                    lemma_placed(old(self)@, i as int, c);
                }
                SlotHandle { id: i }
            },
        }
    }

    /// Takes the slot at a place off its key.
    fn detach(&mut self, i: usize)
        requires
            i < old(self)@.len(),
        ensures
            final(self)@ == old(self)@.update(i as int, detached(old(self)@[i as int])),
    {
        let mut c: Option<Cell> = None;
        std::mem::swap(&mut c, &mut self.cells[i]);
        let ghost given = c;
        let kept = match c {
            Some(c) => {
                if c.pins > 0 {
                    Some(Cell { live: false, pins: c.pins, slot: c.slot })
                } else {
                    None
                }
            },
            None => None,
        };
        self.cells.set(i, kept);
        proof {
            assert(old(self)@[i as int] == cell_view(given));
            assert(self@ =~= old(self)@.update(i as int, detached(old(self)@[i as int])));
        }
    }

    /// Removes the slot for `key`, if any, and says which one it was.
    pub fn remove(&mut self, key: SlotKey) -> (r: Option<SlotHandle>)
        requires
            old(self).wf(),
        ensures
            final(self).wf(),
            match r {
                None => slot_id(old(self)@, key) is None && final(self)@ == old(self)@,
                Some(h) => slot_id(old(self)@, key) == Some(h.id as int) && final(self)@ == old(
                    self,
                )@.update(h.id as int, detached(old(self)@[h.id as int])),
            },
            final(self)@ == without(old(self)@, |s: SlotModel| s.key == key),
    {
        let ghost p = |s: SlotModel| s.key == key;
        proof {
            lemma_without(self@, p);
        }
        match self.get(key) {
            None => {
                proof {
                    assert forall|i: int| 0 <= i < self@.len() implies #[trigger] self@[i]
                        == without(self@, p)[i] by {
                        assert(!is_at(self@, key, i));
                    }
                    assert(self@ =~= without(self@, p));
                }
                None
            },
            Some(h) => {
                self.detach(h.id);
                proof {
                    assert forall|i: int| 0 <= i < self@.len() implies #[trigger] self@[i]
                        == without(old(self)@, p)[i] by {
                        if i != h.id {
                            assert(is_at(old(self)@, key, i) ==> i == h.id);
                        }
                    }
                    assert(self@ =~= without(old(self)@, p));
                }
                Some(h)
            },
        }
    }

    /// Removes every slot whose inode is `ino`, whatever its session, and says how
    /// many there were.
    pub fn remove_all_for_ino(&mut self, ino: u64) -> (r: usize)
        requires
            old(self).wf(),
        ensures
            final(self).wf(),
            final(self)@ == without(old(self)@, |s: SlotModel| s.key.0 == ino),
            r == live_count(old(self)@, |s: SlotModel| s.key.0 == ino),
    {
        let ghost p = |s: SlotModel| s.key.0 == ino;
        let ghost before = self@;
        let mut n: usize = 0;
        let mut i: usize = 0;
        let len: usize = self.cells.len();
        proof {
            assert(before.take(0) =~= seq![]);
        }
        while i < len
            invariant
                i <= len,
                len == before.len(),
                self@.len() == before.len(),
                p == (|s: SlotModel| s.key.0 == ino),
                n == live_count(before.take(i as int), p),
                n <= i,
                forall|j: int| 0 <= j < i ==> self@[j] == #[trigger] without(before, p)[j],
                forall|j: int| i <= j < len ==> self@[j] == #[trigger] before[j],
            decreases len - i,
        {
            proof {
                assert(before.take(i + 1).drop_last() =~= before.take(i as int));
                assert(self@[i as int] == cell_view(self.cells@[i as int]));
                assert(before[i as int] == self@[i as int]);
                assert(without(before, p)[i as int] == without(before, p)[i as int]);
            }
            let hit: bool = match &self.cells[i] {
                Some(c) => c.live && c.slot.key.0 == ino,
                None => false,
            };
            if hit {
                self.detach(i);
                n = n + 1;
            }
            i = i + 1;
        }
        proof {
            assert(before.take(before.len() as int) =~= before);
            assert(self@ =~= without(before, p));
            lemma_without(before, p);
        }
        n
    }

    /// Drops every slot that was not used for longer than `max_idle`. Returns the
    /// number of slots dropped.
    pub fn reap_idle(&mut self, now: u64, max_idle: u64) -> (r: usize)
        requires
            old(self).wf(),
        ensures
            final(self).wf(),
            final(self)@ == without(old(self)@, |s: SlotModel| is_stale(s, now, max_idle)),
            r == live_count(old(self)@, |s: SlotModel| is_stale(s, now, max_idle)),
    {
        let ghost p = |s: SlotModel| is_stale(s, now, max_idle);
        let ghost before = self@;
        let mut n: usize = 0;
        let mut i: usize = 0;
        let len: usize = self.cells.len();
        proof {
            assert(before.take(0) =~= seq![]);
        }
        while i < len
            invariant
                i <= len,
                len == before.len(),
                self@.len() == before.len(),
                p == (|s: SlotModel| is_stale(s, now, max_idle)),
                n == live_count(before.take(i as int), p),
                n <= i,
                forall|j: int| 0 <= j < i ==> self@[j] == #[trigger] without(before, p)[j],
                forall|j: int| i <= j < len ==> self@[j] == #[trigger] before[j],
            decreases len - i,
        {
            proof {
                assert(before.take(i + 1).drop_last() =~= before.take(i as int));
                assert(self@[i as int] == cell_view(self.cells@[i as int]));
                assert(before[i as int] == self@[i as int]);
                assert(without(before, p)[i as int] == without(before, p)[i as int]);
            }
            let hit: bool = match &self.cells[i] {
                Some(c) => c.live && now > c.slot.last_touched && now - c.slot.last_touched
                    > max_idle,
                None => false,
            };
            if hit {
                self.detach(i);
                n = n + 1;
            }
            i = i + 1;
        }
        proof {
            assert(before.take(before.len() as int) =~= before);
            assert(self@ =~= without(before, p));
            lemma_without(before, p);
        }
        n
    }

    /// The number of slots.
    pub fn len(&self) -> (r: usize)
        ensures
            r == live_count(self@, |s: SlotModel| true),
    {
        let ghost p = |s: SlotModel| true;
        let mut n: usize = 0;
        let mut i: usize = 0;
        proof {
            assert(self@.take(0) =~= seq![]);
        }
        while i < self.cells.len()
            invariant
                i <= self.cells@.len(),
                p == (|s: SlotModel| true),
                n == live_count(self@.take(i as int), p),
                n <= i,
            decreases self.cells@.len() - i,
        {
            proof {
                assert(self@.take(i + 1).drop_last() =~= self@.take(i as int));
                assert(self@[i as int] == cell_view(self.cells@[i as int]));
            }
            let live: bool = match &self.cells[i] {
                Some(c) => c.live,
                None => false,
            };
            if live {
                n = n + 1;
            }
            i = i + 1;
        }
        proof {
            assert(self@.take(self@.len() as int) =~= self@);
        }
        n
    }

    /// The trace of the most recently completed invocation of `ino` across all
    /// sessions, used by the `.log` companion files.
    pub fn latest_trace_for_ino(&self, ino: u64) -> (r: Option<Vec<u8>>)
        ensures
            match r {
                None => latest_trace(self@, ino) is None,
                Some(t) => latest_trace(self@, ino) == Some(t@),
            },
    {
        let mut best: Option<usize> = None;
        let mut i: usize = 0;
        while i < self.cells.len()
            invariant
                i <= self.cells@.len(),
                match best {
                    None => latest_among(self@, ino, i as int) is None,
                    Some(b) => b < i && latest_among(self@, ino, i as int) == Some(b as int)
                        && is_traced(self@[b as int], ino),
                },
            decreases self.cells@.len() - i,
        {
            proof {
                assert(self@[i as int] == cell_view(self.cells@[i as int]));
            }
            match &self.cells[i] {
                Some(c) => {
                    if c.live && c.slot.key.0 == ino && c.slot.state.is_ready()
                        && c.slot.trace.len() > 0 {
                        match best {
                            None => {
                                best = Some(i);
                            },
                            Some(b) => {
                                proof {
                                    assert(self@[b as int] == cell_view(self.cells@[b as int]));
                                }
                                match &self.cells[b] {
                                    Some(d) => {
                                        if c.slot.last_touched >= d.slot.last_touched {
                                            best = Some(i);
                                        }
                                    },
                                    None => {},
                                }
                            },
                        }
                    }
                },
                None => {},
            }
            i = i + 1;
        }
        match best {
            None => None,
            Some(b) => {
                proof {
                    assert(self@[b as int] == cell_view(self.cells@[b as int]));
                }
                match &self.cells[b] {
                    Some(c) => {
                        let t = c.slot.trace.clone();
                        proof {
                            assert(t@ =~= c.slot.trace@);
                        }
                        Some(t)
                    },
                    None => None,
                }
            },
        }
    }

    /// The slot of a handle.
    pub fn slot(&self, h: SlotHandle) -> (r: &InvocationSlot)
        requires
            holds(self@, h),
        ensures
            self@[h.id as int] is Some,
            r@ == self@[h.id as int]->0.slot,
    {
        proof {
            assert(self@[h.id as int] == cell_view(self.cells@[h.id as int]));
        }
        &self.cells[h.id].as_ref().unwrap().slot
    }

    /// Whether a handle refers to a slot that a task holds.
    pub fn is_pinned(&self, h: SlotHandle) -> (r: bool)
        ensures
            r == is_pinned(self@, h),
    {
        if h.id >= self.cells.len() {
            return false;
        }
        proof {
            assert(self@[h.id as int] == cell_view(self.cells@[h.id as int]));
        }
        match &self.cells[h.id] {
            Some(c) => c.pins > 0,
            None => false,
        }
    }

    /// The slot of a handle, to be changed. The change must keep the key.
    fn slot_mut(&mut self, h: SlotHandle) -> (r: &mut InvocationSlot)
        requires
            holds(old(self)@, h),
        ensures
            r@ == old(self)@[h.id as int]->0.slot,
            final(self)@ == old(self)@.update(
                h.id as int,
                with_slot(old(self)@[h.id as int], final(r)@),
            ),
    {
        proof {
            assert(self@[h.id as int] == cell_view(self.cells@[h.id as int]));
        }
        &mut self.cells[h.id].as_mut().unwrap().slot
    }

    /// Notes that a slot is in use.
    pub fn touch(&mut self, h: SlotHandle, now: u64)
        requires
            old(self).wf(),
            holds(old(self)@, h),
        ensures
            final(self).wf(),
            final(self)@ == changed(old(self)@, h, touched_slot(held(old(self)@, h), now)),
    {
        self.slot_mut(h).touch(now);
        proof {
            lemma_update(old(self)@, h.id as int, touched_slot(held(old(self)@, h), now));
        }
    }

    /// Writes input into a slot.
    pub fn write_at(&mut self, h: SlotHandle, offset: usize, data: &[u8], now: u64)
        requires
            old(self).wf(),
            holds(old(self)@, h),
            offset + data@.len() <= usize::MAX,
        ensures
            final(self).wf(),
            final(self)@ == changed(
                old(self)@,
                h,
                written_slot(held(old(self)@, h), offset as int, data@, now),
            ),
    {
        self.slot_mut(h).write_at(offset, data, now);
        proof {
            lemma_update(
                old(self)@,
                h.id as int,
                written_slot(held(old(self)@, h), offset as int, data@, now),
            );
        }
    }

    /// Cuts the input of a slot and forgets what an earlier invocation gave.
    pub fn reset(&mut self, h: SlotHandle, size: u64, now: u64)
        requires
            old(self).wf(),
            holds(old(self)@, h),
        ensures
            final(self).wf(),
            final(self)@ == changed(
                old(self)@,
                h,
                reset_slot(held(old(self)@, h), size as int, now),
            ),
    {
        self.slot_mut(h).reset(size, now);
        proof {
            lemma_update(
                old(self)@,
                h.id as int,
                reset_slot(held(old(self)@, h), size as int, now),
            );
        }
    }

    /// Notes that an invocation of a slot was kicked.
    pub fn mark_pending(&mut self, h: SlotHandle, ticket: u64, now: u64)
        requires
            old(self).wf(),
            holds(old(self)@, h),
        ensures
            final(self).wf(),
            final(self)@ == changed(
                old(self)@,
                h,
                pending_slot(held(old(self)@, h), ticket, now),
            ),
    {
        self.slot_mut(h).mark_pending(ticket, now);
        proof {
            lemma_update(old(self)@, h.id as int, pending_slot(held(old(self)@, h), ticket, now));
        }
    }

    /// Takes the input out of a slot.
    pub fn take_input(&mut self, h: SlotHandle) -> (r: Vec<u8>)
        requires
            old(self).wf(),
            holds(old(self)@, h),
        ensures
            final(self).wf(),
            r@ == held(old(self)@, h).write_buf,
            final(self)@ == changed(old(self)@, h, drained_slot(held(old(self)@, h))),
    {
        let input = self.slot_mut(h).take_input();
        proof {
            lemma_update(old(self)@, h.id as int, drained_slot(held(old(self)@, h)));
        }
        input
    }

    /// Takes the edits out of a slot.
    pub fn take_edits(&mut self, h: SlotHandle) -> (r: Vec<Edit>)
        requires
            old(self).wf(),
            holds(old(self)@, h),
        ensures
            final(self).wf(),
            edits_view(r@) == held(old(self)@, h).edits,
            final(self)@ == changed(old(self)@, h, drained_slot(held(old(self)@, h))),
    {
        let edits = self.slot_mut(h).take_edits();
        proof {
            lemma_update(old(self)@, h.id as int, drained_slot(held(old(self)@, h)));
        }
        edits
    }

    /// Stores what an invocation of a slot gave. The result is the ticket of those
    /// who wait for it.
    pub fn commit(&mut self, h: SlotHandle, result: Vec<u8>, trace: Vec<u8>, now: u64) -> (r:
        Option<u64>)
        requires
            old(self).wf(),
            holds(old(self)@, h),
        ensures
            final(self).wf(),
            final(self)@ == changed(
                old(self)@,
                h,
                committed_slot(held(old(self)@, h), result@, trace@, now),
            ),
            r == match held(old(self)@, h).state {
                InvocationState::Pending(t) => Some(t),
                _ => None,
            },
    {
        let ghost done = committed_slot(held(old(self)@, h), result@, trace@, now);
        let waiting = self.slot_mut(h).commit(result, trace, now);
        proof {
            lemma_update(old(self)@, h.id as int, done);
        }
        waiting
    }

    /// Keeps a slot for a task that holds it.
    pub fn pin(&mut self, h: SlotHandle)
        requires
            old(self).wf(),
            holds(old(self)@, h),
        ensures
            final(self).wf(),
            final(self)@ == old(self)@.update(h.id as int, pinned(old(self)@[h.id as int])),
    {
        proof {
            assert(self@[h.id as int] == cell_view(self.cells@[h.id as int]));
            lemma_pinned(self@, h.id as int);
        }
        let c = self.cells[h.id].as_mut().unwrap();
        if c.pins < u64::MAX {
            c.pins = c.pins + 1;
        }
        proof {
            assert(self@ =~= old(self)@.update(h.id as int, pinned(old(self)@[h.id as int])));
        }
    }

    /// Ends what `pin` began. A slot that is in use by nobody else and was taken
    /// off its key is dropped.
    pub fn unpin(&mut self, h: SlotHandle)
        requires
            old(self).wf(),
            holds(old(self)@, h),
        ensures
            final(self).wf(),
            final(self)@ == old(self)@.update(h.id as int, unpinned(old(self)@[h.id as int])),
    {
        let ghost given = self.cells@[h.id as int];
        proof {
            assert(self@[h.id as int] == cell_view(given));
            lemma_unpinned(self@, h.id as int);
        }
        let c = self.cells[h.id].as_mut().unwrap();
        if 0 < c.pins && c.pins < u64::MAX {
            c.pins = c.pins - 1;
        }
        let idle: bool = !c.live && c.pins == 0;
        if idle {
            self.cells.set(h.id, None);
        }
        proof {
            assert(self@ =~= old(self)@.update(h.id as int, unpinned(old(self)@[h.id as int])));
        }
    }
}

impl Default for SlotTable {
    fn default() -> (r: Self)
        ensures
            r.wf(),
            r@ == Seq::<Option<CellModel>>::empty(),
    {
        SlotTable::new()
    }
}

} // verus!
