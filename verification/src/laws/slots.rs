//! What happens to the bytes and the slots of endpoints.
use crate::fs::data::ReleaseAction;
use crate::fs::invocation::{
    committed_slot, drained_slot, edited, fresh_slot, is_past_end, overwrite, pending_slot,
    reset_slot, resized, slice_of, touched_slot, truncated, whole, with_edit, written_slot,
    EditModel, InvocationState, SlotKey, SlotModel, SnapshotModel,
};
use crate::fs::slot_table::{
    changed, held, is_at, is_pinned, is_stale, is_traced, live_count, one_more, pinned, pins_at,
    slot_at, slot_id, slot_or_fresh, table_wf, unpinned, without, CellModel, SlotHandle,
};
use crate::fs::vfs::LiveFolders;
use crate::manifest::FileKind;
use vstd::prelude::*;

verus! {

// ---------------------------------------------------------------------------
// Bytes
// ---------------------------------------------------------------------------

/// A read gives the bytes from its offset on, as many as it asks for and there are; from an
/// offset outside the bytes it gives none.
pub proof fn reads_give_the_bytes_in_place(bytes: Seq<u8>, offset: i64, size: u32, i: int)
    ensures
        0 <= offset < bytes.len() ==> slice_of(bytes, offset, size).len() == (if bytes.len()
            - offset < size {
            bytes.len() - offset
        } else {
            size as int
        }),
        0 <= offset && 0 <= i < size && offset + i < bytes.len() ==> slice_of(
            bytes,
            offset,
            size,
        )[i] == bytes[offset + i],
        offset < 0 || bytes.len() <= offset ==> slice_of(bytes, offset, size).len() == 0,
        is_past_end(bytes, offset) <==> !(0 <= offset < bytes.len()),
{
}

/// A write puts its bytes at its offset, keeps the others, and fills a gap with zeros.
pub proof fn writes_put_the_bytes_in_place(bytes: Seq<u8>, offset: int, data: Seq<u8>, i: int)
    requires
        0 <= offset,
    ensures
        ({
            let after = overwrite(bytes, offset, data);
            &&& bytes.len() <= after.len()
            &&& offset + data.len() <= after.len()
            &&& after.len() == bytes.len() || after.len() == offset + data.len()
            &&& offset <= i < offset + data.len() ==> after[i] == data[i - offset]
            &&& 0 <= i < bytes.len() && !(offset <= i < offset + data.len()) ==> after[i]
                == bytes[i]
            &&& bytes.len() <= i < offset ==> after[i] == 0
        }),
{
}

/// A file that is made longer gets zeros, one that is made shorter loses its end; input is
/// only ever made shorter.
pub proof fn sizes_are_set(bytes: Seq<u8>, n: int, i: int)
    requires
        0 <= n,
    ensures
        resized(bytes, n).len() == n,
        0 <= i < n && i < bytes.len() ==> resized(bytes, n)[i] == bytes[i],
        bytes.len() <= i < n ==> resized(bytes, n)[i] == 0,
        n <= bytes.len() ==> truncated(bytes, n).len() == n,
        n > bytes.len() ==> truncated(bytes, n) == bytes,
        0 <= i < n && i < bytes.len() ==> truncated(bytes, n)[i] == bytes[i],
{
}

/// The writes to a file act one behind the other, in the order in which they came.
pub proof fn edits_act_in_order(bytes: Seq<u8>, edits: Seq<EditModel>, offset: int, data: Seq<u8>)
    ensures
        edited(bytes, Seq::empty()) == bytes,
        edited(bytes, edits.push(EditModel { offset, data })) == overwrite(
            edited(bytes, edits),
            offset,
            data,
        ),
        data.len() > 0 ==> with_edit(edits, offset, data) == edits.push(
            EditModel { offset, data },
        ),
        data.len() == 0 ==> with_edit(edits, offset, data) == edits,
        data.len() > 0 ==> whole(data) == seq![EditModel { offset: 0, data }],
        data.len() == 0 ==> whole(data) == Seq::<EditModel>::empty(),
{
    assert(edits.push(EditModel { offset, data }).drop_last() =~= edits);
    assert(seq![].push(EditModel { offset: 0, data }) =~= seq![EditModel { offset: 0, data }]);
}

// ---------------------------------------------------------------------------
// Slots
// ---------------------------------------------------------------------------

/// A new slot is idle and empty.
pub proof fn new_slots_are_empty(key: SlotKey, snapshot: SnapshotModel, now: u64)
    ensures
        ({
            let s = fresh_slot(key, snapshot, now);
            &&& s.key == key
            &&& s.snapshot == snapshot
            &&& s.write_buf.len() == 0
            &&& s.edits.len() == 0
            &&& s.result.len() == 0
            &&& s.trace.len() == 0
            &&& s.state == InvocationState::Idle
            &&& s.last_touched == now
        }),
{
}

/// Whether two slots differ at most in their input, in what became of it, in their state and
/// in the time of their use.
pub open spec fn is_same_place(a: SlotModel, b: SlotModel) -> bool {
    a.key == b.key && a.snapshot == b.snapshot
}

/// A write adds to the input of a slot and touches neither its result nor its state.
pub proof fn writing_adds_to_the_input(s: SlotModel, offset: int, data: Seq<u8>, now: u64)
    ensures
        ({
            let t = written_slot(s, offset, data, now);
            &&& is_same_place(s, t)
            &&& t.write_buf == overwrite(s.write_buf, offset, data)
            &&& t.edits == with_edit(s.edits, offset, data)
            &&& t.result == s.result
            &&& t.trace == s.trace
            &&& t.state == s.state
            &&& t.last_touched == now
        }),
{
}

/// A change of its size makes a slot idle again: its result and trace are gone, and of its
/// input what fits the size is left.
pub proof fn resizing_starts_anew(s: SlotModel, size: int, now: u64)
    ensures
        ({
            let t = reset_slot(s, size, now);
            &&& is_same_place(s, t)
            &&& t.write_buf == truncated(s.write_buf, size)
            &&& t.edits == whole(truncated(s.write_buf, size))
            &&& t.result.len() == 0
            &&& t.trace.len() == 0
            &&& t.state == InvocationState::Idle
            &&& t.last_touched == now
        }),
{
}

/// An invocation that begins leaves everything but the state of its slot as it is; a handler
/// that takes its input leaves everything but the input; the use of a slot leaves everything.
pub proof fn starting_keeps_the_rest(s: SlotModel, ticket: u64, now: u64)
    ensures
        ({
            let p = pending_slot(s, ticket, now);
            &&& is_same_place(s, p)
            &&& p.write_buf == s.write_buf
            &&& p.edits == s.edits
            &&& p.result == s.result
            &&& p.trace == s.trace
            &&& p.state == InvocationState::Pending(ticket)
            &&& p.last_touched == now
        }),
        ({
            let d = drained_slot(s);
            &&& is_same_place(s, d)
            &&& d.write_buf.len() == 0
            &&& d.edits.len() == 0
            &&& d.result == s.result
            &&& d.trace == s.trace
            &&& d.state == s.state
            &&& d.last_touched == s.last_touched
        }),
        ({
            let u = touched_slot(s, now);
            &&& is_same_place(s, u)
            &&& u.write_buf == s.write_buf
            &&& u.edits == s.edits
            &&& u.result == s.result
            &&& u.trace == s.trace
            &&& u.state == s.state
            &&& u.last_touched == now
        }),
{
}

/// A result that is stored takes the place of the one before it, and what was written in the
/// meantime is kept.
pub proof fn storing_keeps_the_input(
    s: SlotModel,
    result: Seq<u8>,
    trace: Seq<u8>,
    now: u64,
)
    ensures
        ({
            let t = committed_slot(s, result, trace, now);
            &&& is_same_place(s, t)
            &&& t.write_buf == s.write_buf
            &&& t.edits == s.edits
            &&& t.result == result
            &&& t.trace == trace
            &&& t.state == InvocationState::Ready
            &&& t.last_touched == now
        }),
{
}

// ---------------------------------------------------------------------------
// The table of slots
// ---------------------------------------------------------------------------

/// The slot of a key is the one that is there, and a key without one has none.
pub proof fn slots_are_found_by_key(cells: Seq<Option<CellModel>>, key: SlotKey, i: int)
    requires
        table_wf(cells),
    ensures
        0 <= i < cells.len() && (cells[i] matches Some(c) && c.live && c.slot.key == key)
            ==> slot_at(cells, key) == Some(cells[i]->0.slot) && pins_at(cells, key)
            == cells[i]->0.pins && slot_id(cells, key) == Some(i),
        (forall|j: int|
            0 <= j < cells.len() ==> !(#[trigger] cells[j] matches Some(c) && c.live && c.slot.key
                == key)) ==> slot_at(cells, key) is None && pins_at(cells, key) == 0,
{
    if is_at(cells, key, i) {
        crate::fs::slot_table::lemma_slot_id(cells, key, i);
    }
    if slot_id(cells, key) is Some {
        let j = slot_id(cells, key)->0;
        assert(is_at(cells, key, j));
        assert(cells[j] matches Some(c) && c.live && c.slot.key == key);
    }
}

/// An endpoint that was not used has a new slot, any other the one that it has.
pub proof fn unused_endpoints_get_a_new_slot(
    cells: Seq<Option<CellModel>>,
    key: SlotKey,
    snapshot: SnapshotModel,
    now: u64,
)
    ensures
        slot_at(cells, key) is Some ==> slot_or_fresh(cells, key, snapshot, now) == slot_at(
            cells,
            key,
        )->0,
        slot_at(cells, key) is None ==> slot_or_fresh(cells, key, snapshot, now) == fresh_slot(
            key,
            snapshot,
            now,
        ),
{
}

/// A change of one slot changes that slot and no other, and nothing of its cell but the
/// slot.
pub proof fn changes_stay_in_their_cell(
    cells: Seq<Option<CellModel>>,
    h: SlotHandle,
    s: SlotModel,
    j: int,
)
    requires
        is_pinned(cells, h),
    ensures
        held(changed(cells, h, s), h) == s,
        changed(cells, h, s).len() == cells.len(),
        0 <= j < cells.len() && j != h.id ==> changed(cells, h, s)[j] == cells[j],
        changed(cells, h, s)[h.id as int] matches Some(c) && c.live
            == cells[h.id as int]->0.live && c.pins == cells[h.id as int]->0.pins,
        held(cells, h) == cells[h.id as int]->0.slot,
{
}

/// A slot that is dropped is gone at once where nobody holds it; where somebody does, it is
/// off its key and stays for the holder. Slots that are not meant stay as they are.
pub proof fn dropped_slots_stay_for_their_holders(
    cells: Seq<Option<CellModel>>,
    p: spec_fn(SlotModel) -> bool,
    j: int,
)
    requires
        0 <= j < cells.len(),
    ensures
        without(cells, p).len() == cells.len(),
        cells[j] matches Some(c) && c.live && p(c.slot) && c.pins == 0 ==> without(
            cells,
            p,
        )[j] is None,
        cells[j] matches Some(c) && c.live && p(c.slot) && c.pins > 0 ==> (without(
            cells,
            p,
        )[j] matches Some(d) && !d.live && d.pins == cells[j]->0.pins && d.slot
            == cells[j]->0.slot),
        !(cells[j] matches Some(c) && c.live && p(c.slot)) ==> without(cells, p)[j] == cells[j],
{
}

/// Who takes hold of a slot and lets it go leaves it as it was; a slot that is off its key
/// is gone once its last holder lets it go.
pub proof fn holding_is_undone_by_letting_go(c: CellModel)
    requires
        c.pins < u64::MAX - 1,
    ensures
        pinned(Some(c)) matches Some(d) && d.pins == c.pins + 1 && d.live == c.live && d.slot
            == c.slot,
        c.live || c.pins > 0 ==> unpinned(pinned(Some(c))) == Some(c),
        !c.live && c.pins == 1 ==> unpinned(Some(c)) is None,
        !c.live && c.pins > 1 ==> (unpinned(Some(c)) matches Some(d) && d.pins == c.pins - 1
            && !d.live && d.slot == c.slot),
        c.live && c.pins > 0 ==> (unpinned(Some(c)) matches Some(d) && d.pins == c.pins - 1
            && d.live && d.slot == c.slot),
        one_more(c.pins) == c.pins + 1,
        one_more(u64::MAX) == u64::MAX,
{
}

/// A slot is stale once it was left alone for longer than is allowed.
pub proof fn slots_grow_stale(s: SlotModel, now: u64, max_idle: u64)
    ensures
        is_stale(s, now, max_idle) <==> s.last_touched + max_idle < now,
{
}

/// A slot has a trace for the log if its invocation ended, and left one.
pub proof fn ended_invocations_leave_a_trace(c: CellModel, ino: u64)
    ensures
        !is_traced(None, ino),
        is_traced(Some(c), ino) <==> c.live && c.slot.key.0 == ino && c.slot.state
            == InvocationState::Ready && c.slot.trace.len() != 0,
{
}

/// The slots that are counted are the live ones that are meant.
pub proof fn live_slots_are_counted(
    cells: Seq<Option<CellModel>>,
    c: Option<CellModel>,
    p: spec_fn(SlotModel) -> bool,
)
    ensures
        live_count(Seq::empty(), p) == 0,
        (c matches Some(m) && m.live && p(m.slot)) ==> live_count(cells.push(c), p) == live_count(
            cells,
            p,
        ) + 1,
        !(c matches Some(m) && m.live && p(m.slot)) ==> live_count(cells.push(c), p) == live_count(
            cells,
            p,
        ),
{
    assert(cells.push(c).drop_last() =~= cells);
}

// ---------------------------------------------------------------------------
// Reading and closing
// ---------------------------------------------------------------------------

/// A read runs an endpoint exactly if the endpoint runs when it is read and is idle; a reader
/// waits exactly if the endpoint runs. The reader finds the slot as it was, but for its state
/// where it was run, and no other slot changes.
pub proof fn reads_run_idle_endpoints_only(
    before: LiveFolders,
    after: LiveFolders,
    key: SlotKey,
    kind: FileKind,
    s: SlotModel,
    now: u64,
    h: SlotHandle,
    kick: bool,
    wait: Option<u64>,
    other: SlotKey,
)
    requires
        before.endpoint_read(&after, key, kind, s, now, h, kick, wait),
    ensures
        kick <==> kind == FileKind::ReadInvoke && s.state == InvocationState::Idle,
        !kick ==> (wait is Some <==> s.state is Pending),
        !kick ==> (s.state matches InvocationState::Pending(t) ==> wait == Some(t)),
        !kick ==> slot_at(after.slots@, key) == Some(s) && after.next_ticket == before.next_ticket,
        kick ==> wait == Some(before.next_ticket) && (slot_at(after.slots@, key) matches Some(t)
            && t.state == InvocationState::Pending(before.next_ticket) && t.write_buf == s.write_buf
            && t.result == s.result && t.snapshot == s.snapshot),
        kick && before.next_ticket < u64::MAX ==> after.next_ticket == before.next_ticket + 1,
        other != key ==> slot_at(after.slots@, other) == slot_at(before.slots@, other),
        is_pinned(after.slots@, h),
{
}

/// A reader that finishes marks the slot as used, and takes it off its key exactly if it has
/// read to the end.
pub proof fn finished_reads_take_the_result_away(
    before: Seq<Option<CellModel>>,
    h: SlotHandle,
    key: SlotKey,
    offset: i64,
    now: u64,
)
    requires
        table_wf(before),
        is_pinned(before, h),
        is_at(before, key, h.id as int),
    ensures
        ({
            let after = LiveFolders::drained(before, h, key, offset, now);
            let n = held(before, h).result.len();
            &&& 0 <= offset < n ==> after[h.id as int]->0.live && held(after, h) == touched_slot(
                held(before, h),
                now,
            )
            &&& !(0 <= offset < n) ==> slot_at(after, key) is None && held(after, h).result == held(
                before,
                h,
            ).result
        }),
{
    let s = touched_slot(held(before, h), now);
    crate::fs::slot_table::lemma_changed_only(before, h, s);
    crate::fs::slot_table::lemma_update(before, h.id as int, s);
    let used = changed(before, h, s);
    crate::fs::slot_table::lemma_removed_only(used, key);
}

/// Closing an endpoint that was written to runs it, with what was written; closing one that
/// was not written to does nothing.
pub proof fn closing_runs_what_was_written(
    before: LiveFolders,
    after: LiveFolders,
    key: SlotKey,
    s: SlotModel,
    tool: Seq<char>,
    endpoint: Seq<char>,
    now: u64,
    r: ReleaseAction,
    other: SlotKey,
)
    requires
        before.handed_over(&after, key, s, tool, endpoint, now, r),
    ensures
        s.write_buf.len() == 0 ==> r is Nothing && slot_at(after.slots@, key) == Some(s),
        s.write_buf.len() > 0 ==> {
            &&& r matches ReleaseAction::Invoke { tool: t, endpoint: e, input, .. } && t@ == tool
                && e@ == endpoint && input@ == s.write_buf
            &&& slot_at(after.slots@, key) matches Some(t) && t.state == InvocationState::Pending(
                before.next_ticket,
            ) && t.write_buf.len() == 0 && t.edits.len() == 0 && t.result == s.result
            &&& before.next_ticket < u64::MAX ==> after.next_ticket == before.next_ticket + 1
        },
        other != key ==> slot_at(after.slots@, other) == slot_at(before.slots@, other),
{
}

/// The same for an endpoint that a manifest declares: its handler takes the input itself.
pub proof fn closing_starts_the_handler(
    before: LiveFolders,
    after: LiveFolders,
    key: SlotKey,
    s: SlotModel,
    now: u64,
    r: ReleaseAction,
    other: SlotKey,
)
    requires
        before.kicked(&after, key, s, now, r),
    ensures
        s.write_buf.len() == 0 ==> r is Nothing && slot_at(after.slots@, key) == Some(s),
        s.write_buf.len() > 0 ==> {
            &&& r is Run
            &&& slot_at(after.slots@, key) matches Some(t) && t.state == InvocationState::Pending(
                before.next_ticket,
            ) && t.write_buf == s.write_buf && t.result == s.result
            &&& before.next_ticket < u64::MAX ==> after.next_ticket == before.next_ticket + 1
        },
        other != key ==> slot_at(after.slots@, other) == slot_at(before.slots@, other),
{
}

/// A slot that was emptied is off its key, and holds no input for those who hold it.
pub proof fn emptied_slots_hold_nothing(cells: Seq<Option<CellModel>>, key: SlotKey, j: int)
    requires
        table_wf(cells),
        0 <= j < cells.len(),
    ensures
        !is_at(cells, key, j) ==> LiveFolders::emptied(cells, key)[j] == cells[j],
        is_at(cells, key, j) && cells[j]->0.pins == 0 ==> LiveFolders::emptied(
            cells,
            key,
        )[j] is None,
        is_at(cells, key, j) && cells[j]->0.pins > 0 ==> (LiveFolders::emptied(
            cells,
            key,
        )[j] matches Some(c) && !c.live && c.slot.write_buf.len() == 0 && c.slot.edits.len() == 0
            && c.slot.result == cells[j]->0.slot.result),
{
    if is_at(cells, key, j) {
        crate::fs::slot_table::lemma_slot_id(cells, key, j);
    }
    if slot_id(cells, key) is Some {
        assert(is_at(cells, key, slot_id(cells, key)->0));
    }
}

} // verus!
