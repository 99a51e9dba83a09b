//! What holds of a mount over several operations.
use super::data::{
    found, result_bytes, result_trace, ReadTarget, ReleaseAction,
};
use super::attr::regular;
use super::invocation::{
    committed_slot, drained_slot, edited, edits_keep_the_rest, overwrite, pending_slot, reset_slot, slice_of, touched_slot,
    with_edit, written_slot, EditModel, InvocationState, SlotKey, SlotModel, SnapshotModel,
};
use super::lookup::declared_endpoint;
use super::path_table::{
    lemma_with_known, lemma_with_paths, number_of, path_at, with_paths, PathModel,
};
use super::slot_table::{
    changed, held, is_at, is_pinned, is_stale, latest_trace, lemma_changed_only, lemma_removed_only,
    lemma_slot_id, lemma_unpinned, lemma_without, only_slot_changed, pins_at, slot_at, slot_id,
    slot_or_fresh,
    table_wf, unpinned, without, CellModel, SlotHandle,
};
use super::tree::{
    add_all_declared, add_declared, add_missing, child_paths, has_name, page_of, root_entries,
    tool_listing, DirFacts, DirItem, DirTarget, EntryModel, NamedKind,
};
use super::vfs::{DiskFacts, LiveFolders};
use crate::manifest::{invokes, FileKind, FileSpec, Manifest};
use crate::paths::{file_name_of, lemma_join_one, parent_of};
use crate::number::decimal;
use crate::registry::ToolResult;
use crate::split::trim;
use crate::text::utf8_lossy;
use vstd::prelude::*;
use vstd::utf8::encode_utf8;

verus! {

/// A file that was opened belongs to the session of whoever opened it: later
/// operations on its handle, whether or not their caller is known, work on the slot of
/// that session.
pub proof fn open_binds_session(
    before: LiveFolders,
    after: LiveFolders,
    ino: u64,
    fh: u64,
    sid: i32,
    later: Option<i32>,
)
    requires
        fh != 0,
        after.fh_to_sid@ == LiveFolders::handles_with(before.fh_to_sid@, fh, Some(sid)),
    ensures
        after.key_of(ino, fh, later) == (ino, sid),
{
}

/// Whether what happened to a table left the slot of a key alone.
pub open spec fn left_alone(
    before: Seq<Option<CellModel>>,
    after: Seq<Option<CellModel>>,
    key: SlotKey,
) -> bool {
    &&& slot_at(after, key) == slot_at(before, key)
    &&& forall|i: int|
        #[trigger] is_at(before, key, i) ==> i < after.len() && after[i] == before[i]
}

/// What one session does with an endpoint, other sessions and other endpoints do not
/// see: an operation that touches only the slot of its key leaves the slot of every
/// other key alone.
pub proof fn sessions_are_isolated(
    before: Seq<Option<CellModel>>,
    after: Seq<Option<CellModel>>,
    key: SlotKey,
    other: SlotKey,
)
    requires
        only_slot_changed(before, after, key),
        other.0 != key.0 || other.1 != key.1,
    ensures
        left_alone(before, after, other),
{
    assert forall|i: int| #[trigger] is_at(before, other, i) implies i < after.len() && after[i]
        == before[i] by {
        assert(!is_at(before, key, i));
    }
}

/// What the handler of one slot does, other slots do not see: that it takes its input,
/// that its result is stored, and that a reader takes the result, leaves the slot of
/// every other key alone.
pub proof fn handlers_are_isolated(
    before: Seq<Option<CellModel>>,
    h: SlotHandle,
    other: SlotKey,
    result: Seq<u8>,
    trace: Seq<u8>,
    offset: i64,
    now: u64,
)
    requires
        table_wf(before),
        is_pinned(before, h),
        held(before, h).key != other,
    ensures
        left_alone(before, changed(before, h, drained_slot(held(before, h))), other),
        ({
            let done = changed(before, h, committed_slot(held(before, h), result, trace, now));
            left_alone(before, done.update(h.id as int, unpinned(done[h.id as int])), other)
        }),
        ({
            let read = LiveFolders::drained(before, h, held(before, h).key, offset, now);
            left_alone(before, read.update(h.id as int, unpinned(read[h.id as int])), other)
        }),
{
    let s = held(before, h);
    lemma_elsewhere(before, changed(before, h, drained_slot(s)), h, other);
    let done = changed(before, h, committed_slot(s, result, trace, now));
    lemma_elsewhere(before, done.update(h.id as int, unpinned(done[h.id as int])), h, other);
    let used = changed(before, h, touched_slot(s, now));
    lemma_elsewhere(before, used, h, other);
    lemma_elsewhere(before, used.update(h.id as int, unpinned(used[h.id as int])), h, other);
    if super::invocation::is_past_end(s.result, offset) {
        super::slot_table::lemma_update(before, h.id as int, touched_slot(s, now));
        lemma_removed_only(used, s.key);
        let gone = without(used, |m: SlotModel| m.key == s.key);
        sessions_are_isolated(used, gone, s.key, other);
        assert(table_wf(gone));
        let after = gone.update(h.id as int, unpinned(gone[h.id as int]));
        assert(gone[h.id as int] matches Some(c) && c.slot.key == s.key);
        lemma_elsewhere(gone, after, h, other);
        assert forall|i: int| #[trigger] is_at(before, other, i) implies i < after.len()
            && after[i] == before[i] by {
            assert(is_at(used, other, i));
            assert(is_at(gone, other, i));
        }
    }
}

/// A change of one cell leaves alone a key whose slot is not there.
proof fn lemma_elsewhere(
    before: Seq<Option<CellModel>>,
    after: Seq<Option<CellModel>>,
    h: SlotHandle,
    other: SlotKey,
)
    requires
        table_wf(before),
        h.id < before.len(),
        after.len() == before.len(),
        forall|i: int| 0 <= i < before.len() && i != h.id ==> after[i] == #[trigger] before[i],
        !is_at(before, other, h.id as int),
        !is_at(after, other, h.id as int),
    ensures
        left_alone(before, after, other),
{
    assert forall|i: int| is_at(before, other, i) == #[trigger] is_at(after, other, i) by {
        if 0 <= i < before.len() && i != h.id {
            assert(after[i] == before[i]);
        }
    }
    if slot_id(before, other) is Some {
        let i = slot_id(before, other)->0;
        assert(is_at(before, other, i) && is_at(after, other, i));
        let j = slot_id(after, other)->0;
        assert(is_at(after, other, j) && is_at(before, other, j));
        assert(i == j);
    } else {
        assert forall|i: int| !(#[trigger] is_at(after, other, i)) by {
            assert(!is_at(before, other, i));
        }
    }
}

/// What is left alone by one thing and by the next is left alone by both.
pub proof fn isolation_lasts(
    first: Seq<Option<CellModel>>,
    second: Seq<Option<CellModel>>,
    third: Seq<Option<CellModel>>,
    key: SlotKey,
)
    requires
        left_alone(first, second, key),
        left_alone(second, third, key),
    ensures
        left_alone(first, third, key),
{
    assert forall|i: int| #[trigger] is_at(first, key, i) implies i < third.len() && third[i]
        == first[i] by {
        assert(is_at(second, key, i));
    }
}

/// A slot keeps the snapshot that it was made with, whatever happens to it.
pub proof fn snapshot_is_pinned(
    s: SlotModel,
    offset: int,
    data: Seq<u8>,
    size: int,
    ticket: u64,
    result: Seq<u8>,
    trace: Seq<u8>,
    now: u64,
)
    ensures
        touched_slot(s, now).snapshot == s.snapshot,
        written_slot(s, offset, data, now).snapshot == s.snapshot,
        reset_slot(s, size, now).snapshot == s.snapshot,
        pending_slot(s, ticket, now).snapshot == s.snapshot,
        drained_slot(s).snapshot == s.snapshot,
        committed_slot(s, result, trace, now).snapshot == s.snapshot,
{
}

/// Whether the result of an invocation was stored in its slot.
pub open spec fn committed(
    before: Seq<Option<CellModel>>,
    after: Seq<Option<CellModel>>,
    run: SlotHandle,
    result: ToolResult,
    now: u64,
) -> bool {
    let done = changed(
        before,
        run,
        committed_slot(held(before, run), result_bytes(result), result_trace(result), now),
    );
    after == done.update(run.id as int, unpinned(done[run.id as int]))
}

proof fn lemma_left_alone(
    before: Seq<Option<CellModel>>,
    after: Seq<Option<CellModel>>,
    key: SlotKey,
    h: SlotHandle,
)
    requires
        left_alone(before, after, key),
        is_at(before, key, h.id as int),
    ensures
        is_at(after, key, h.id as int),
        held(after, h) == held(before, h),
        is_pinned(before, h) ==> is_pinned(after, h),
{
}

proof fn lemma_committed(
    before: Seq<Option<CellModel>>,
    after: Seq<Option<CellModel>>,
    key: SlotKey,
    run: SlotHandle,
    result: ToolResult,
    now: u64,
)
    requires
        table_wf(before),
        is_at(before, key, run.id as int),
        committed(before, after, run, result, now),
    ensures
        is_at(after, key, run.id as int),
        slot_at(after, key) == Some(held(after, run)),
        held(after, run) == committed_slot(
            held(before, run),
            result_bytes(result),
            result_trace(result),
            now,
        ),
{
    let s = committed_slot(held(before, run), result_bytes(result), result_trace(result), now);
    lemma_changed_only(before, run, s);
    let done = changed(before, run, s);
    lemma_unpinned(done, run.id as int);
    assert(slot_at(after, key) == slot_at(done, key));
}

/// What a read finds of a result is what the handler put out, or the message of its error:
/// how long it took and what it said beside its output is for the log alone.
///
/// The mount is `d0` before the result is stored, `d1` after `result` was stored, and `e1`
/// after `other` was stored in its place.
pub proof fn diagnostics_are_not_read(
    d0: LiveFolders,
    d1: LiveFolders,
    e1: LiveFolders,
    key: SlotKey,
    run: SlotHandle,
    result: ToolResult,
    other: ToolResult,
    offset: i64,
    size: u32,
    t: Seq<u64>,
)
    requires
        t.len() == 2,
        table_wf(d0.slots@),
        is_at(d0.slots@, key, run.id as int),
        committed(d0.slots@, d1.slots@, run, result, t[0]),
        committed(d0.slots@, e1.slots@, run, other, t[1]),
        result.output@ == other.output@,
        result.error is Some <==> other.error is Some,
        result.error is Some ==> result.error->0@ == other.error->0@,
    ensures
        held(d1.slots@, run).result == held(e1.slots@, run).result,
        slice_of(held(d1.slots@, run).result, offset, size) == slice_of(
            held(e1.slots@, run).result,
            offset,
            size,
        ),
        result.error is None ==> held(d1.slots@, run).result == result.output@,
        held(d1.slots@, run).state == InvocationState::Ready,
        held(d1.slots@, run).last_touched == t[0],
        held(d1.slots@, run).write_buf == held(d0.slots@, run).write_buf,
        held(d1.slots@, run).snapshot == held(d0.slots@, run).snapshot,
{
    lemma_committed(d0.slots@, d1.slots@, key, run, result, t[0]);
    lemma_committed(d0.slots@, e1.slots@, key, run, other, t[1]);
}

/// What was written to an endpoint is what its handler is given, and what the handler
/// gives is what a read then gives: a session that writes to an endpoint which runs
/// when it is written to, and closes it, finds there the result of that invocation,
/// whatever others do in between.
///
/// The mount is `w0` before the write and `w1` after it; in the same way `c0` and `c1`
/// stand for the closing of the file, `b0` and `b1` for the handler that takes its
/// input, `d0` and `d1` for the storing of its result, `r0` and `r1` for the read.
pub proof fn read_gives_what_the_handler_made(
    w0: LiveFolders,
    w1: LiveFolders,
    c0: LiveFolders,
    c1: LiveFolders,
    b0: LiveFolders,
    b1: LiveFolders,
    d0: LiveFolders,
    d1: LiveFolders,
    r0: LiveFolders,
    r1: LiveFolders,
    key: SlotKey,
    snapshot: SnapshotModel,
    later: SnapshotModel,
    data: Seq<u8>,
    run: SlotHandle,
    result: ToolResult,
    reader: SlotHandle,
    kick: bool,
    wait: Option<u64>,
    t: Seq<u64>,
)
    requires
        t.len() == 5,
        data.len() > 0,
        table_wf(c1.slots@),
        table_wf(b0.slots@),
        table_wf(d0.slots@),
        slot_or_fresh(w0.slots@, key, snapshot, t[0]).write_buf.len() == 0,
        found(
            w0.slots@,
            w1.slots@,
            key,
            written_slot(slot_or_fresh(w0.slots@, key, snapshot, t[0]), 0, data, t[0]),
            pins_at(w0.slots@, key),
        ),
        left_alone(w1.slots@, c0.slots@, key),
        c0.kicked(
            &c1,
            key,
            slot_or_fresh(c0.slots@, key, later, t[1]),
            t[1],
            ReleaseAction::Run(run),
        ),
        left_alone(c1.slots@, b0.slots@, key),
        b1.slots@ == changed(b0.slots@, run, drained_slot(held(b0.slots@, run))),
        left_alone(b1.slots@, d0.slots@, key),
        committed(d0.slots@, d1.slots@, run, result, t[3]),
        left_alone(d1.slots@, r0.slots@, key),
        r0.endpoint_read(
            &r1,
            key,
            FileKind::WriteInvoke,
            slot_or_fresh(r0.slots@, key, later, t[4]),
            t[4],
            reader,
            kick,
            wait,
        ),
    ensures
        is_pinned(b0.slots@, run),
        held(b0.slots@, run).write_buf == data,
        held(b0.slots@, run).snapshot == slot_or_fresh(w0.slots@, key, snapshot, t[0]).snapshot,
        is_pinned(d0.slots@, run),
        held(d0.slots@, run).state == InvocationState::Pending(c0.next_ticket),
        !kick,
        wait is None,
        result.error is None ==> held(r1.slots@, reader).result == result.output@,
        result.error is Some ==> held(r1.slots@, reader).result == encode_utf8(result.error->0@ + "\n"@),
        held(r1.slots@, reader).trace == encode_utf8(
            "duration_ms: "@ + decimal(result.duration_ms as nat) + "\nexit: "@ + (
            if result.error is Some {
                "error"@
            } else {
                "ok"@
            }) + "\nstderr: "@ + trim(utf8_lossy(result.stderr@)) + "\n"@,
        ),
        held(r1.slots@, reader).write_buf == Seq::<u8>::empty(),
{
    let first = slot_or_fresh(w0.slots@, key, snapshot, t[0]);
    assert(written_slot(first, 0, data, t[0]).write_buf =~= data);
    assert(is_at(c1.slots@, key, run.id as int));
    lemma_slot_id(c1.slots@, key, run.id as int);
    lemma_left_alone(c1.slots@, b0.slots@, key, run);
    lemma_changed_only(b0.slots@, run, drained_slot(held(b0.slots@, run)));
    assert(is_at(b1.slots@, key, run.id as int));
    lemma_left_alone(b1.slots@, d0.slots@, key, run);
    lemma_committed(d0.slots@, d1.slots@, key, run, result, t[3]);
    assert(is_at(r1.slots@, key, reader.id as int));
}

/// The same for a tool that is handed its input: what a session writes to an endpoint
/// of a built-in tool, or to a script, is what the tool is invoked with, and what the
/// tool gives is what a read then gives.
///
/// The mount is `w0` before the write and `w1` after it; in the same way `c0` and `c1`
/// stand for the closing of the file, `d0` and `d1` for the storing of the result, `r0`
/// and `r1` for the read.
pub proof fn read_gives_what_the_tool_made(
    w0: LiveFolders,
    w1: LiveFolders,
    c0: LiveFolders,
    c1: LiveFolders,
    d0: LiveFolders,
    d1: LiveFolders,
    r0: LiveFolders,
    r1: LiveFolders,
    key: SlotKey,
    snapshot: SnapshotModel,
    later: SnapshotModel,
    data: Seq<u8>,
    tool: Seq<char>,
    endpoint: Seq<char>,
    act: ReleaseAction,
    run: SlotHandle,
    result: ToolResult,
    reader: SlotHandle,
    kick: bool,
    wait: Option<u64>,
    t: Seq<u64>,
)
    requires
        t.len() == 4,
        data.len() > 0,
        table_wf(c1.slots@),
        table_wf(d0.slots@),
        slot_or_fresh(w0.slots@, key, snapshot, t[0]).write_buf.len() == 0,
        found(
            w0.slots@,
            w1.slots@,
            key,
            written_slot(slot_or_fresh(w0.slots@, key, snapshot, t[0]), 0, data, t[0]),
            pins_at(w0.slots@, key),
        ),
        left_alone(w1.slots@, c0.slots@, key),
        c0.handed_over(
            &c1,
            key,
            slot_or_fresh(c0.slots@, key, later, t[1]),
            tool,
            endpoint,
            t[1],
            act,
        ),
        act matches ReleaseAction::Invoke { handle, .. } ==> handle == run,
        left_alone(c1.slots@, d0.slots@, key),
        committed(d0.slots@, d1.slots@, run, result, t[2]),
        left_alone(d1.slots@, r0.slots@, key),
        r0.endpoint_read(
            &r1,
            key,
            FileKind::WriteInvoke,
            slot_or_fresh(r0.slots@, key, later, t[3]),
            t[3],
            reader,
            kick,
            wait,
        ),
    ensures
        act matches ReleaseAction::Invoke { tool: n, endpoint: e, input, .. } && n@ == tool && e@
            == endpoint && input@ == data,
        is_pinned(d0.slots@, run),
        held(d0.slots@, run).state == InvocationState::Pending(c0.next_ticket),
        !kick,
        wait is None,
        result.error is None ==> held(r1.slots@, reader).result == result.output@,
        result.error is Some ==> held(r1.slots@, reader).result == encode_utf8(result.error->0@ + "\n"@),
        held(r1.slots@, reader).trace == encode_utf8(
            "duration_ms: "@ + decimal(result.duration_ms as nat) + "\nexit: "@ + (
            if result.error is Some {
                "error"@
            } else {
                "ok"@
            }) + "\nstderr: "@ + trim(utf8_lossy(result.stderr@)) + "\n"@,
        ),
        held(r1.slots@, reader).write_buf == Seq::<u8>::empty(),
{
    let first = slot_or_fresh(w0.slots@, key, snapshot, t[0]);
    assert(written_slot(first, 0, data, t[0]).write_buf =~= data);
    assert(is_at(c1.slots@, key, run.id as int));
    lemma_slot_id(c1.slots@, key, run.id as int);
    lemma_left_alone(c1.slots@, d0.slots@, key, run);
    lemma_committed(d0.slots@, d1.slots@, key, run, result, t[2]);
    assert(is_at(r1.slots@, key, reader.id as int));
}

/// By the time a read returns, the handler has finished: a reader of an endpoint that
/// is running waits for the very ticket that the storing of the result calls, and then
/// finds that result.
///
/// The mount is `r0` before the read and `r1` after it, `d0` before the result is
/// stored and `d1` after that.
pub proof fn readers_wait_for_the_handler(
    r0: LiveFolders,
    r1: LiveFolders,
    d0: LiveFolders,
    d1: LiveFolders,
    key: SlotKey,
    kind: FileKind,
    s: SlotModel,
    ticket: u64,
    run: SlotHandle,
    result: ToolResult,
    reader: SlotHandle,
    kick: bool,
    wait: Option<u64>,
    t: Seq<u64>,
)
    requires
        t.len() == 2,
        table_wf(d0.slots@),
        slot_at(r0.slots@, key) == Some(s),
        s.state == InvocationState::Pending(ticket),
        r0.endpoint_read(&r1, key, kind, s, t[0], reader, kick, wait),
        left_alone(r1.slots@, d0.slots@, key),
        is_at(d0.slots@, key, run.id as int),
        committed(d0.slots@, d1.slots@, run, result, t[1]),
    ensures
        !kick,
        wait == Some(ticket),
        held(d0.slots@, run).state == InvocationState::Pending(ticket),
        result.error is None ==> held(d1.slots@, reader).result == result.output@,
        result.error is Some ==> held(d1.slots@, reader).result == encode_utf8(result.error->0@ + "\n"@),
        held(d1.slots@, reader).trace == encode_utf8(
            "duration_ms: "@ + decimal(result.duration_ms as nat) + "\nexit: "@ + (
            if result.error is Some {
                "error"@
            } else {
                "ok"@
            }) + "\nstderr: "@ + trim(utf8_lossy(result.stderr@)) + "\n"@,
        ),
{
    assert(is_at(r1.slots@, key, reader.id as int));
    lemma_left_alone(r1.slots@, d0.slots@, key, reader);
    assert(reader.id == run.id);
    lemma_committed(d0.slots@, d1.slots@, key, run, result, t[1]);
}

/// Reading an idle endpoint that runs when it is read runs it: the handler is given
/// what was written before, the reader waits for the ticket that the storing of the
/// result calls, and then finds that result.
///
/// The mount is `r0` before the read and `r1` after it; in the same way `b0` and `b1`
/// stand for the handler that takes its input, `d0` and `d1` for the storing of its
/// result.
pub proof fn reading_runs_the_handler(
    r0: LiveFolders,
    r1: LiveFolders,
    b0: LiveFolders,
    b1: LiveFolders,
    d0: LiveFolders,
    d1: LiveFolders,
    key: SlotKey,
    s: SlotModel,
    result: ToolResult,
    reader: SlotHandle,
    kick: bool,
    wait: Option<u64>,
    t: Seq<u64>,
)
    requires
        t.len() == 2,
        table_wf(b0.slots@),
        table_wf(d0.slots@),
        s.state == InvocationState::Idle,
        r0.endpoint_read(&r1, key, FileKind::ReadInvoke, s, t[0], reader, kick, wait),
        s.key == key,
        left_alone(r1.slots@, b0.slots@, key),
        b1.slots@ == changed(b0.slots@, reader, drained_slot(held(b0.slots@, reader))),
        left_alone(b1.slots@, d0.slots@, key),
        committed(d0.slots@, d1.slots@, reader, result, t[1]),
    ensures
        kick,
        wait == Some(r0.next_ticket),
        is_pinned(b0.slots@, reader),
        held(b0.slots@, reader).write_buf == s.write_buf,
        held(b0.slots@, reader).snapshot == s.snapshot,
        is_pinned(d0.slots@, reader),
        held(d0.slots@, reader).state == InvocationState::Pending(r0.next_ticket),
        result.error is None ==> held(d1.slots@, reader).result == result.output@,
        result.error is Some ==> held(d1.slots@, reader).result == encode_utf8(result.error->0@ + "\n"@),
        held(d1.slots@, reader).trace == encode_utf8(
            "duration_ms: "@ + decimal(result.duration_ms as nat) + "\nexit: "@ + (
            if result.error is Some {
                "error"@
            } else {
                "ok"@
            }) + "\nstderr: "@ + trim(utf8_lossy(result.stderr@)) + "\n"@,
        ),
{
    assert(is_at(r1.slots@, key, reader.id as int));
    lemma_left_alone(r1.slots@, b0.slots@, key, reader);
    lemma_changed_only(b0.slots@, reader, drained_slot(held(b0.slots@, reader)));
    lemma_left_alone(b1.slots@, d0.slots@, key, reader);
    lemma_committed(d0.slots@, d1.slots@, key, reader, result, t[1]);
}

/// One result per write: a read that comes to the end of the result takes it away, and
/// the next read of an endpoint that runs when it is written to finds nothing.
pub proof fn result_is_consumed(
    before: Seq<Option<CellModel>>,
    after: Seq<Option<CellModel>>,
    h: SlotHandle,
    key: SlotKey,
    offset: i64,
    now: u64,
    snapshot: SnapshotModel,
    later: u64,
    next_offset: i64,
    size: u32,
)
    requires
        table_wf(before),
        is_pinned(before, h),
        super::invocation::is_past_end(held(before, h).result, offset),
        ({
            let d = LiveFolders::drained(before, h, key, offset, now);
            after == d.update(h.id as int, unpinned(d[h.id as int]))
        }),
    ensures
        slot_at(after, key) is None,
        slice_of(slot_or_fresh(after, key, snapshot, later).result, next_offset, size) == Seq::<
            u8,
        >::empty(),
{
    let s = touched_slot(held(before, h), now);
    super::slot_table::lemma_update(before, h.id as int, s);
    let used = changed(before, h, s);
    lemma_removed_only(used, key);
    let gone = without(used, |s: SlotModel| s.key == key);
    assert(gone[h.id as int] is Some);
    lemma_unpinned(gone, h.id as int);
    assert(slot_at(after, key) == slot_at(gone, key));
}

/// A result stays until it was read to its end: a read of a part of it leaves the rest
/// for the next one.
pub proof fn partial_read_keeps_the_result(
    before: Seq<Option<CellModel>>,
    after: Seq<Option<CellModel>>,
    h: SlotHandle,
    key: SlotKey,
    offset: i64,
    now: u64,
)
    requires
        table_wf(before),
        is_pinned(before, h),
        is_at(before, key, h.id as int),
        !super::invocation::is_past_end(held(before, h).result, offset),
        ({
            let d = LiveFolders::drained(before, h, key, offset, now);
            after == d.update(h.id as int, unpinned(d[h.id as int]))
        }),
    ensures
        slot_at(after, key) == Some(touched_slot(held(before, h), now)),
{
    let s = touched_slot(held(before, h), now);
    lemma_changed_only(before, h, s);
    let used = changed(before, h, s);
    lemma_unpinned(used, h.id as int);
    assert(slot_at(after, key) == slot_at(used, key));
}

/// The reaper drops the slots that were idle for too long and no others.
pub proof fn reaper_keeps_fresh_slots(
    cells: Seq<Option<CellModel>>,
    now: u64,
    max_idle: u64,
    key: SlotKey,
)
    requires
        table_wf(cells),
    ensures
        ({
            let after = without(cells, |s: SlotModel| is_stale(s, now, max_idle));
            match slot_at(cells, key) {
                None => slot_at(after, key) is None,
                Some(s) => if now - s.last_touched > max_idle {
                    slot_at(after, key) is None
                } else {
                    slot_at(after, key) == Some(s)
                },
            }
        }),
{
    lemma_without(cells, |s: SlotModel| is_stale(s, now, max_idle));
}

/// The log of an endpoint shows its latest trace: a read of the file that has the name
/// of a declared endpoint with `.log` behind it, in the same directory, gives the trace
/// that was stored last for that endpoint, in whatever session.
pub proof fn log_shows_the_latest_trace(
    m: LiveFolders,
    dir: PathModel,
    name: Seq<char>,
    facts: DiskFacts,
)
    requires
        dir.len() > 0,
        m.tool_of_dir(dir) is Some,
        name.len() > 0,
        name != "."@,
        !name.contains('/'),
        declared_endpoint(facts.tool_manifest, name) is Some,
        m.paths@.contains(dir.push(name)),
    ensures
        m.file_target(dir.push(name + ".log"@), facts) == ReadTarget::Bytes(
            match latest_trace(m.slots@, number_of(m.paths@, dir.push(name)) as u64) {
                Some(t) => t,
                None => seq![],
            },
        ),
{
    reveal_strlit(".log");
    reveal_strlit("/");
    reveal_strlit(".");
    reveal_strlit("..");
    let file = name + ".log"@;
    let log = dir.push(file);
    assert(log.last() == file);
    assert(log.drop_last() =~= dir);
    reveal_strlit("");
    assert(""@.len() == 0);
    assert(file.subrange(file.len() - 4, file.len() as int) =~= ".log"@);
    assert(file.subrange(0, file.len() - 4) =~= name);
    lemma_join_one(dir, name);
}

/// A file that ends in `.log` is a file like any other unless it is the log of a declared
/// endpoint: it is read from disk.
pub proof fn other_logs_are_plain_files(
    m: LiveFolders,
    path: PathModel,
    name: Seq<char>,
    facts: DiskFacts,
)
    requires
        file_name_of(path) == Some(name + ".log"@),
        declared_endpoint(facts.tool_manifest, name) is None,
    ensures
        m.file_target(path, facts) == ReadTarget::Disk(path),
{
    reveal_strlit(".log");
    reveal_strlit("schema.json");
    reveal_strlit("anthropic_tools.json");
    reveal_strlit("how_to.md");
    let file = name + ".log"@;
    assert(file.subrange(0, file.len() - 4) =~= name);
    assert(file.last() == 'g');
}

/// A file of a tool that is made and not on disk has one size: a lookup, a request for
/// attributes and a read agree on it.
pub proof fn made_files_have_one_size(
    m: LiveFolders,
    ino: u64,
    path: PathModel,
    tool: Seq<char>,
    name: Seq<char>,
    facts: DiskFacts,
)
    requires
        path_at(m.paths@, ino) == Some(path),
        parent_of(path) is Some,
        file_name_of(path) == Some(name),
        file_name_of(parent_of(path)->0) == Some(tool),
        m.tool_of_dir(parent_of(path)->0) == Some(tool),
        facts.dir_manifest == facts.tool_manifest,
        m.made_file(path, facts) is Some,
    ensures
        m.made_file(path, facts) == m.made_entry(
            parent_of(path)->0,
            tool,
            name,
            facts.tool_manifest,
        ),
        m.external_attr(ino, facts) == Some(
            regular(ino as int, m.made_file(path, facts)->0.size, 0o444),
        ),
        m.file_target(path, facts) matches ReadTarget::Bytes(b) && b.len() == m.made_file(
            path,
            facts,
        )->0.size,
{
    reveal_strlit("schema.json");
    reveal_strlit("anthropic_tools.json");
    reveal_strlit("how_to.md");
    reveal_strlit(".log");
    assert("schema.json"@.len() != "how_to.md"@.len());
    assert("anthropic_tools.json"@.len() != "how_to.md"@.len());
    assert("anthropic_tools.json"@.len() != "schema.json"@.len());
    if LiveFolders::logged_endpoint(name, facts.tool_manifest) is Some {
        assert(name.subrange(name.len() - 4, name.len() as int)[3] == name.last());
        assert("how_to.md"@.last() == 'd');
    }
}

/// A file that its manifest declares to be read only keeps its content: it cannot be
/// written to, a change of its size is refused, and closing it leaves it as it is.
pub proof fn readonly_is_not_writable(
    m: LiveFolders,
    ino: u64,
    facts: DiskFacts,
    size: u64,
    after: LiveFolders,
    key: SlotKey,
    now: u64,
    r: ReleaseAction,
    bytes: Seq<u8>,
)
    requires
        m.declared(ino, facts.tool_manifest) matches Some(f) && f.kind == FileKind::Readonly,
        m.released(&after, ino, key, facts, now, r),
    ensures
        !m.is_writable(ino, facts),
        m.is_protected(ino, Some(size), facts),
        r.file_after(bytes) == bytes,
{
    assert(path_at(m.paths@, ino) is Some);
}

/// What is written to a file on disk acts on that file: once it is closed, it holds what
/// it held before with the written bytes over it, and every byte outside of what was
/// written is kept, whatever others do in between.
///
/// The mount is `w0` before the write and `w1` after it, `c0` before the closing of the
/// file and `c1` after it. `bytes` is what the file holds on disk; `earlier` what the
/// session wrote to it before.
pub proof fn writes_act_on_the_file(
    w0: LiveFolders,
    w1: LiveFolders,
    c0: LiveFolders,
    c1: LiveFolders,
    key: SlotKey,
    snapshot: SnapshotModel,
    path: PathModel,
    offset: int,
    data: Seq<u8>,
    earlier: Seq<EditModel>,
    r: ReleaseAction,
    bytes: Seq<u8>,
    now: u64,
)
    requires
        0 <= offset,
        data.len() > 0,
        earlier == slot_or_fresh(w0.slots@, key, snapshot, now).edits,
        found(
            w0.slots@,
            w1.slots@,
            key,
            written_slot(slot_or_fresh(w0.slots@, key, snapshot, now), offset, data, now),
            pins_at(w0.slots@, key),
        ),
        left_alone(w1.slots@, c0.slots@, key),
        c0.flushed(&c1, key, path, r),
    ensures
        r matches ReleaseAction::WriteFile { path: p, .. } && p@ == path,
        r.file_after(bytes) == overwrite(edited(bytes, earlier), offset, data),
        earlier.len() == 0 ==> forall|i: int|
            0 <= i < bytes.len() && !(offset <= i < offset + data.len()) ==> r.file_after(bytes)[i]
                == #[trigger] bytes[i],
        earlier.len() == 0 && offset == bytes.len() ==> r.file_after(bytes) == bytes + data,
{
    let edits = with_edit(earlier, offset, data);
    assert(edits.drop_last() =~= earlier);
    assert(r.file_after(bytes) == edited(bytes, edits));
    if earlier.len() == 0 {
        edits_keep_the_rest(bytes, offset, data);
    }
}

/// Every reader keeps its slot: where two read an endpoint and one of them has finished,
/// the slot of the other one is still there, whether the first one took it off its key
/// or not.
pub proof fn every_reader_keeps_its_slot(
    m0: LiveFolders,
    m1: LiveFolders,
    m2: LiveFolders,
    m3: LiveFolders,
    key: SlotKey,
    kind: FileKind,
    bases: (SlotModel, SlotModel),
    readers: (SlotHandle, SlotHandle),
    kicks: (bool, bool),
    waits: (Option<u64>, Option<u64>),
    offset: i64,
    t: Seq<u64>,
)
    requires
        t.len() == 3,
        table_wf(m2.slots@),
        m0.endpoint_read(&m1, key, kind, bases.0, t[0], readers.0, kicks.0, waits.0),
        m1.endpoint_read(&m2, key, kind, bases.1, t[1], readers.1, kicks.1, waits.1),
        ({
            let d = LiveFolders::drained(m2.slots@, readers.0, key, offset, t[2]);
            m3.slots@ == d.update(readers.0.id as int, unpinned(d[readers.0.id as int]))
        }),
    ensures
        readers.1 == readers.0,
        is_pinned(m3.slots@, readers.1),
        held(m3.slots@, readers.1).result == held(m2.slots@, readers.1).result,
{
    let h = readers.0;
    assert(pins_at(m2.slots@, key) >= 2);
    assert(m2.slots@[h.id as int]->0.pins >= 2);
}

/// An endpoint is never a file on disk and the other way round: no inode of a built-in
/// tool has a path.
pub proof fn builtin_inodes_have_no_path(m: LiveFolders, ino: u64)
    requires
        m.tool_index(ino) is Some,
    ensures
        path_at(m.paths@, ino) is None,
{
}

// ---------------------------------------------------------------------------
// Listings
// ---------------------------------------------------------------------------

/// Whether no name stands twice in a listing, and none is that of the directory itself
/// or of the one above it.
pub open spec fn distinct_names(l: Seq<NamedKind>) -> bool {
    &&& forall|i: int, j: int|
        0 <= i < j < l.len() ==> (#[trigger] l[i]).0 != (#[trigger] l[j]).0
    &&& forall|i: int| 0 <= i < l.len() ==> (#[trigger] l[i]).0 != "."@ && l[i].0 != ".."@
}

proof fn lemma_add_missing(l: Seq<NamedKind>, n: Seq<char>)
    ensures
        has_name(add_missing(l, n), n),
        distinct_names(l) ==> distinct_names(add_missing(l, n)),
        forall|m: Seq<char>| has_name(l, m) ==> #[trigger] has_name(add_missing(l, n), m),
{
    let after = add_missing(l, n);
    assert forall|m: Seq<char>| has_name(l, m) implies #[trigger] has_name(after, m) by {
        if m != "."@ && m != ".."@ {
            let i = choose|i: int| 0 <= i < l.len() && (#[trigger] l[i]).0 == m;
            assert(after[i].0 == m);
        }
    }
    if !has_name(l, n) {
        assert(after[l.len() as int].0 == n);
        if distinct_names(l) {
            assert forall|i: int, j: int| 0 <= i < j < after.len() implies (#[trigger] after[i]).0
                != (#[trigger] after[j]).0 by {
                assert(after[i] == l[i]);
                if j < l.len() {
                    assert(after[j] == l[j]);
                }
            }
        }
    }
}

proof fn lemma_add_declared(l: Seq<NamedKind>, f: FileSpec)
    ensures
        has_name(add_declared(l, f), f.name@),
        invokes(f.kind) ==> has_name(add_declared(l, f), f.name@ + ".log"@),
        distinct_names(l) ==> distinct_names(add_declared(l, f)),
        forall|m: Seq<char>| has_name(l, m) ==> #[trigger] has_name(add_declared(l, f), m),
{
    lemma_add_missing(l, f.name@);
    let mid = add_missing(l, f.name@);
    lemma_add_missing(mid, f.name@ + ".log"@);
    assert forall|m: Seq<char>| has_name(l, m) implies #[trigger] has_name(add_declared(l, f), m) by {
        assert(has_name(mid, m));
    }
}

proof fn lemma_add_all(l: Seq<NamedKind>, files: Seq<FileSpec>)
    ensures
        distinct_names(l) ==> distinct_names(add_all_declared(l, files)),
        forall|m: Seq<char>| has_name(l, m) ==> #[trigger] has_name(add_all_declared(l, files), m),
        forall|k: int|
            0 <= k < files.len() ==> has_name(
                add_all_declared(l, files),
                (#[trigger] files[k]).name@,
            ) && (invokes(files[k].kind) ==> has_name(
                add_all_declared(l, files),
                files[k].name@ + ".log"@,
            )),
    decreases files.len(),
{
    if files.len() > 0 {
        let rest = files.drop_last();
        let mid = add_all_declared(l, rest);
        let after = add_all_declared(l, files);
        lemma_add_all(l, rest);
        lemma_add_declared(mid, files.last());
        assert forall|m: Seq<char>| has_name(l, m) implies #[trigger] has_name(after, m) by {
            assert(has_name(mid, m));
        }
        assert forall|k: int| 0 <= k < files.len() implies has_name(
            after,
            (#[trigger] files[k]).name@,
        ) && (invokes(files[k].kind) ==> has_name(after, files[k].name@ + ".log"@)) by {
            if k < rest.len() {
                assert(rest[k] == files[k]);
                assert(has_name(mid, files[k].name@));
                if invokes(files[k].kind) {
                    assert(has_name(mid, files[k].name@ + ".log"@));
                }
            }
        }
    }
}

/// What the root and the directory of tools list, a lookup finds, under the inode that
/// the listing gives; and every registered tool is listed.
pub proof fn listed_names_are_found(m: LiveFolders, facts: DiskFacts, i: int, tool: Seq<char>)
    requires
        m.wf(),
        m.fits(),
    ensures
        0 <= i < root_entries().len() ==> m.root_entry(root_entries()[i].name, facts) is Some
            && m.root_entry(root_entries()[i].name, facts)->0.ino == root_entries()[i].ino,
        0 <= i < m.tools_entries().len() ==> m.tools_entry(m.tools_entries()[i].name, facts) is Some
            && m.tools_entry(m.tools_entries()[i].name, facts)->0.ino == m.tools_entries()[i].ino,
        m.registry@.contains_key(tool) ==> exists|k: int|
            0 <= k < m.tools_entries().len() && (#[trigger] m.tools_entries()[k]).name == tool,
{
    reveal_strlit("how_to.md");
    reveal_strlit("create_tool.md");
    reveal_strlit("system_prompt.md");
    reveal_strlit("index.md");
    reveal_strlit("tools");
    if 0 <= i < root_entries().len() {
        let name = root_entries()[i].name;
        assert(name.len() == "how_to.md"@.len() ==> i == 0);
        assert(name.len() == "create_tool.md"@.len() ==> i == 1);
        assert(name.len() == "system_prompt.md"@.len() ==> i == 2);
        assert(name.len() == "index.md"@.len() ==> i == 3);
        assert(i == 0 || i == 1 || i == 2 || i == 3 || i == 4);
    }
    m.registry.lemma_names();
    let names = m.registry.names();
    if 0 <= i < names.len() {
        crate::order::lemma_ascending_index(names, i);
        assert(m.tools_entries()[i] == m.tool_entries()[i]);
    }
    if m.registry@.contains_key(tool) {
        assert(names.contains(tool));
        let k = names.index_of(tool);
        assert(m.tools_entries()[k] == m.tool_entries()[k]);
    }
}

/// A page of a listing is the listing without what comes before it, each entry comes with
/// the offset behind it, and the first two entries are the directory itself and the one
/// above it. This holds of two calls as well: a directory that did not change is listed
/// in the same way again, so that a listing in pages misses nothing and repeats nothing.
///
/// The mount is `m0` before the first call and `m1` after it, `m2` after the second one.
pub proof fn pages_are_parts_of_the_listing(
    m0: LiveFolders,
    m1: LiveFolders,
    m2: LiveFolders,
    ino: u64,
    facts: DirFacts,
    first: Seq<EntryModel>,
    second: Seq<EntryModel>,
    k: int,
    i: int,
)
    requires
        m0.wf(),
        m1.same_mount(&m0),
        m0.lists(&m1, ino, facts, first),
        m1.lists(&m2, ino, facts, second),
        0 <= k <= first.len(),
        0 <= i < first.len(),
    ensures
        second == first,
        m2.paths@ == m1.paths@,
        page_of(second, k) == page_of(first, 0).skip(k),
        page_of(first, 0)[i] == (i + 1, first[i]),
        first.len() >= 2,
        first[0].name == "."@,
        first[1].name == ".."@,
{
    if let DirTarget::OnDisk(dir, names) = m0.dir_target(ino, facts) {
        let children = child_paths(dir, names);
        lemma_with_paths(m0.paths@, children);
        if path_at(m0.paths@, ino) is Some {
            lemma_same_path(m0.paths@, children, ino);
        }
        lemma_with_known(m1.paths@, children);
    }
    assert(page_of(second, k) =~= page_of(first, 0).skip(k));
}

/// A number leads to the same path when others were given out.
proof fn lemma_same_path(paths: Seq<PathModel>, more: Seq<PathModel>, ino: u64)
    requires
        path_at(paths, ino) is Some,
    ensures
        path_at(with_paths(paths, more), ino) == path_at(paths, ino),
    decreases more.len(),
{
    if more.len() > 0 {
        lemma_same_path(paths, more.drop_last(), ino);
    }
}

/// The directory of a tool with a manifest lists every file on disk, its descriptions,
/// every declared file, and the log of every declared file that runs something.
pub proof fn listing_is_complete(items: Seq<DirItem>, m: Manifest, k: int)
    requires
        0 <= k < m.files@.len(),
    ensures
        has_name(tool_listing(items, Some(m)), "how_to.md"@),
        has_name(tool_listing(items, Some(m)), "schema.json"@),
        has_name(tool_listing(items, Some(m)), "anthropic_tools.json"@),
        has_name(tool_listing(items, Some(m)), m.files@[k].name@),
        forall|i: int|
            0 <= i < items.len() ==> has_name(
                tool_listing(items, Some(m)),
                (#[trigger] items[i]).name@,
            ),
        invokes(m.files@[k].kind) ==> has_name(
            tool_listing(items, Some(m)),
            m.files@[k].name@ + ".log"@,
        ),
{
    let l0 = super::tree::listed(items);
    let l1 = add_missing(l0, "how_to.md"@);
    let l2 = add_missing(l1, "schema.json"@);
    let l3 = add_missing(l2, "anthropic_tools.json"@);
    lemma_add_missing(l0, "how_to.md"@);
    lemma_add_missing(l1, "schema.json"@);
    lemma_add_missing(l2, "anthropic_tools.json"@);
    assert(has_name(l2, "how_to.md"@));
    assert(has_name(l3, "how_to.md"@));
    assert(has_name(l3, "schema.json"@));
    lemma_add_all(l3, m.files@);
    assert forall|i: int| 0 <= i < items.len() implies has_name(
        tool_listing(items, Some(m)),
        (#[trigger] items[i]).name@,
    ) by {
        assert(l0[i].0 == items[i].name@);
        assert(has_name(l0, items[i].name@));
        assert(has_name(l1, items[i].name@));
        assert(has_name(l2, items[i].name@));
        assert(has_name(l3, items[i].name@));
    }
}

/// The directory of a tool lists no name twice, as long as its directory on disk holds
/// none twice.
pub proof fn listing_has_no_duplicates(items: Seq<DirItem>, manifest: Option<Manifest>)
    requires
        distinct_names(super::tree::listed(items)),
    ensures
        distinct_names(tool_listing(items, manifest)),
{
    if let Some(m) = manifest {
        let l0 = super::tree::listed(items);
        let l1 = add_missing(l0, "how_to.md"@);
        let l2 = add_missing(l1, "schema.json"@);
        let l3 = add_missing(l2, "anthropic_tools.json"@);
        lemma_add_missing(l0, "how_to.md"@);
        lemma_add_missing(l1, "schema.json"@);
        lemma_add_missing(l2, "anthropic_tools.json"@);
        lemma_add_all(l3, m.files@);
    }
}

} // verus!
