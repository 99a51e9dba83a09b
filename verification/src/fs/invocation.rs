//! Invocation slots: the state of one endpoint for one shell session.
use crate::manifest::{input_view, list_view, FileKind, InputModel, InputSchema};
use crate::paths::DiskPath;
use crate::text::opt_view;
use vstd::prelude::*;
use vstd::slice::slice_subrange;

verus! {

/// Identity of an invocation slot: inode and session id.
///
/// Slots are keyed by the pair rather than by the inode alone so that concurrent
/// shell sessions calling the same endpoint do not clobber each other's input or
/// result. `echo` and `cat` in the same shell pipeline share a session id.
pub type SlotKey = (u64, i32);

/// Snapshot of the manifest data needed to invoke an endpoint, taken at slot
/// creation time. Hot reload of `folder.yaml` swaps the registry but never touches
/// a live slot, so an in-flight invocation always runs against the snapshot it
/// started with.
#[derive(Debug)]
pub struct EndpointSnapshot {
    pub tool_name: String,
    pub file_name: String,
    pub cwd: DiskPath,
    pub kind: FileKind,
    pub handler: Option<String>,
    pub input_schema: Option<InputSchema>,
    pub state_file: Option<DiskPath>,
    pub pipe: Option<Vec<String>>,
    pub timeout_secs: u64,
    pub manifest_version: u64,
}

/// What a snapshot holds.
pub struct SnapshotModel {
    pub tool_name: Seq<char>,
    pub file_name: Seq<char>,
    pub cwd: Seq<Seq<char>>,
    pub kind: FileKind,
    pub handler: Option<Seq<char>>,
    pub input_schema: Option<InputModel>,
    pub state_file: Option<Seq<Seq<char>>>,
    pub pipe: Option<Seq<Seq<char>>>,
    pub timeout_secs: u64,
    pub manifest_version: u64,
}

impl View for EndpointSnapshot {
    type V = SnapshotModel;

    open spec fn view(&self) -> SnapshotModel {
        SnapshotModel {
            tool_name: self.tool_name@,
            file_name: self.file_name@,
            cwd: self.cwd@,
            kind: self.kind,
            handler: opt_view(self.handler),
            input_schema: input_view(self.input_schema),
            state_file: match self.state_file {
                None => None,
                Some(p) => Some(p@),
            },
            pipe: list_view(self.pipe),
            timeout_secs: self.timeout_secs,
            manifest_version: self.manifest_version,
        }
    }
}

impl EndpointSnapshot {
    /// A copy of the snapshot.
    pub fn copy(&self) -> (r: Self)
        ensures
            r@ == self@,
    {
        EndpointSnapshot {
            tool_name: self.tool_name.clone(),
            file_name: self.file_name.clone(),
            cwd: self.cwd.copy(),
            kind: self.kind,
            handler: self.handler.clone(),
            input_schema: crate::manifest::copy_input(&self.input_schema),
            state_file: match &self.state_file {
                None => None,
                Some(p) => Some(p.copy()),
            },
            pipe: crate::manifest::copy_list(&self.pipe),
            timeout_secs: self.timeout_secs,
            manifest_version: self.manifest_version,
        }
    }
}

/// State of a slot's invocation lifecycle.
///
/// `Idle` is the starting state. Once the handler is kicked the state moves to
/// `Pending`, which carries the ticket under which readers wait. `Ready` indicates
/// that the result is in the slot and can be sliced.
#[derive(Clone, Copy, Debug, PartialEq, Eq, Structural)]
pub enum InvocationState {
    Idle,
    Pending(u64),
    Ready,
}

impl InvocationState {
    /// Whether the result is there.
    pub fn is_ready(&self) -> (r: bool)
        ensures
            r == (*self == InvocationState::Ready),
    {
        match self {
            InvocationState::Ready => true,
            _ => false,
        }
    }
}

/// Bytes that were written to a file from an offset on.
#[derive(Debug)]
pub struct Edit {
    pub offset: usize,
    pub data: Vec<u8>,
}

/// What an edit holds.
pub struct EditModel {
    pub offset: int,
    pub data: Seq<u8>,
}

impl View for Edit {
    type V = EditModel;

    open spec fn view(&self) -> EditModel {
        EditModel { offset: self.offset as int, data: self.data@ }
    }
}

/// What some edits hold.
pub open spec fn edits_view(edits: Seq<Edit>) -> Seq<EditModel> {
    edits.map_values(|e: Edit| e@)
}

/// Per-invocation state for one inode and session.
#[derive(Debug)]
pub struct InvocationSlot {
    pub key: SlotKey,
    pub snapshot: EndpointSnapshot,
    pub write_buf: Vec<u8>,
    /// The writes that `write_buf` is made of, for a file that keeps what they leave
    /// alone.
    pub edits: Vec<Edit>,
    pub result: Vec<u8>,
    pub trace: Vec<u8>,
    pub state: InvocationState,
    /// When the slot was last used, on a clock that does not go back.
    pub last_touched: u64,
}

/// What a slot holds.
pub struct SlotModel {
    pub key: SlotKey,
    pub snapshot: SnapshotModel,
    pub write_buf: Seq<u8>,
    pub edits: Seq<EditModel>,
    pub result: Seq<u8>,
    pub trace: Seq<u8>,
    pub state: InvocationState,
    pub last_touched: u64,
}

impl View for InvocationSlot {
    type V = SlotModel;

    open spec fn view(&self) -> SlotModel {
        SlotModel {
            key: self.key,
            snapshot: self.snapshot@,
            write_buf: self.write_buf@,
            edits: edits_view(self.edits@),
            result: self.result@,
            trace: self.trace@,
            state: self.state,
            last_touched: self.last_touched,
        }
    }
}

/// The part of the bytes that a read of `size` bytes from `offset` gives.
pub open spec fn slice_of(bytes: Seq<u8>, offset: i64, size: u32) -> Seq<u8> {
    if offset < 0 || offset >= bytes.len() {
        seq![]
    } else if offset + size <= bytes.len() {
        bytes.subrange(offset as int, offset + size)
    } else {
        bytes.subrange(offset as int, bytes.len() as int)
    }
}

/// Whether a read from `offset` lies behind the last byte.
pub open spec fn is_past_end(bytes: Seq<u8>, offset: i64) -> bool {
    offset < 0 || offset >= bytes.len()
}

/// The bytes after `data` was written over them from `offset` on; a gap is filled
/// with zeros.
pub open spec fn overwrite(bytes: Seq<u8>, offset: int, data: Seq<u8>) -> Seq<u8> {
    Seq::new(
        if offset + data.len() > bytes.len() {
            (offset + data.len()) as nat
        } else {
            bytes.len()
        },
        |i: int|
            if offset <= i < offset + data.len() {
                data[i - offset]
            } else if i < bytes.len() {
                bytes[i]
            } else {
                0u8
            },
    )
}

/// The bytes after edits were made to them, one behind the other.
pub open spec fn edited(bytes: Seq<u8>, edits: Seq<EditModel>) -> Seq<u8>
    decreases edits.len(),
{
    if edits.len() == 0 {
        bytes
    } else {
        overwrite(edited(bytes, edits.drop_last()), edits.last().offset, edits.last().data)
    }
}

/// The edits after one more; to write nothing is no edit.
pub open spec fn with_edit(edits: Seq<EditModel>, offset: int, data: Seq<u8>) -> Seq<EditModel> {
    if data.len() == 0 {
        edits
    } else {
        edits.push(EditModel { offset, data })
    }
}

/// The one edit that writes some bytes to an empty file.
pub open spec fn whole(bytes: Seq<u8>) -> Seq<EditModel> {
    with_edit(seq![], 0, bytes)
}

/// The bytes cut to a length, or filled up to it with zeros.
pub open spec fn resized(bytes: Seq<u8>, n: int) -> Seq<u8> {
    Seq::new(
        n as nat,
        |i: int|
            if i < bytes.len() {
                bytes[i]
            } else {
                0u8
            },
    )
}

/// The first `n` of the bytes.
pub open spec fn truncated(bytes: Seq<u8>, n: int) -> Seq<u8> {
    if n < bytes.len() {
        bytes.take(n)
    } else {
        bytes
    }
}

/// A slot that was just made.
pub open spec fn fresh_slot(key: SlotKey, snapshot: SnapshotModel, now: u64) -> SlotModel {
    SlotModel {
        key,
        snapshot,
        write_buf: seq![],
        edits: seq![],
        result: seq![],
        trace: seq![],
        state: InvocationState::Idle,
        last_touched: now,
    }
}

/// The slot after it was used.
pub open spec fn touched_slot(s: SlotModel, now: u64) -> SlotModel {
    SlotModel { last_touched: now, ..s }
}

/// The slot after `data` was written to it.
pub open spec fn written_slot(s: SlotModel, offset: int, data: Seq<u8>, now: u64) -> SlotModel {
    SlotModel {
        write_buf: overwrite(s.write_buf, offset, data),
        edits: with_edit(s.edits, offset, data),
        last_touched: now,
        ..s
    }
}

/// The slot after its file was truncated: the input is cut, and what an earlier
/// invocation gave is forgotten.
pub open spec fn reset_slot(s: SlotModel, size: int, now: u64) -> SlotModel {
    SlotModel {
        write_buf: truncated(s.write_buf, size),
        edits: whole(truncated(s.write_buf, size)),
        result: seq![],
        trace: seq![],
        state: InvocationState::Idle,
        last_touched: now,
        ..s
    }
}

/// The slot after an invocation was kicked.
pub open spec fn pending_slot(s: SlotModel, ticket: u64, now: u64) -> SlotModel {
    SlotModel { state: InvocationState::Pending(ticket), last_touched: now, ..s }
}

/// The slot after its input was handed to an invocation.
pub open spec fn drained_slot(s: SlotModel) -> SlotModel {
    SlotModel { write_buf: seq![], edits: seq![], ..s }
}

/// The slot after an invocation ended.
pub open spec fn committed_slot(
    s: SlotModel,
    result: Seq<u8>,
    trace: Seq<u8>,
    now: u64,
) -> SlotModel {
    SlotModel { result, trace, state: InvocationState::Ready, last_touched: now, ..s }
}

/// The part of the bytes that a read of `size` bytes from `offset` gives.
pub fn sliced(bytes: &[u8], offset: i64, size: u32) -> (r: &[u8])
    ensures
        r@ == slice_of(bytes@, offset, size),
{
    let n: usize = bytes.len();
    if offset < 0 || offset as u64 >= n as u64 {
        return slice_subrange(bytes, 0, 0);
    }
    let start: usize = offset as usize;
    let end: usize = if size as u64 <= (n - start) as u64 {
        start + size as usize
    } else {
        n
    };
    slice_subrange(bytes, start, end)
}

impl InvocationSlot {
    /// A slot that was just made.
    pub fn new(key: SlotKey, snapshot: EndpointSnapshot, now: u64) -> (r: Self)
        ensures
            r@ == fresh_slot(key, snapshot@, now),
            r.key == key,
    {
        let r = InvocationSlot {
            key,
            snapshot,
            write_buf: Vec::new(),
            edits: Vec::new(),
            result: Vec::new(),
            trace: Vec::new(),
            state: InvocationState::Idle,
            last_touched: now,
        };
        proof {
            assert(edits_view(r.edits@) =~= seq![]);
        }
        r
    }

    /// Notes that the slot is in use.
    pub fn touch(&mut self, now: u64)
        ensures
            final(self)@ == touched_slot(old(self)@, now),
    {
        self.last_touched = now;
    }

    /// The part of the result that a read of `size` bytes from `offset` gives,
    /// clamped to its bounds; empty where `offset` lies behind it.
    pub fn slice(&self, offset: i64, size: u32) -> (r: &[u8])
        ensures
            r@ == slice_of(self.result@, offset, size),
    {
        sliced(self.result.as_slice(), offset, size)
    }

    /// Whether a read from `offset` lies behind the result.
    pub fn past_end(&self, offset: i64) -> (r: bool)
        ensures
            r == is_past_end(self.result@, offset),
    {
        offset < 0 || offset as u64 >= self.result.len() as u64
    }

    /// Writes input into the slot.
    pub fn write_at(&mut self, offset: usize, data: &[u8], now: u64)
        requires
            offset + data@.len() <= usize::MAX,
        ensures
            final(self)@ == written_slot(old(self)@, offset as int, data@, now),
    {
        let ghost before = self.write_buf@;
        let end: usize = offset + data.len();
        while self.write_buf.len() < end
            invariant
                self@ == (SlotModel { write_buf: self.write_buf@, ..old(self)@ }),
                end == offset + data@.len(),
                before == old(self).write_buf@,
                before.len() <= self.write_buf@.len(),
                self.write_buf@.len() <= before.len() || self.write_buf@.len() <= end,
                forall|i: int|
                    0 <= i < self.write_buf@.len() ==> #[trigger] self.write_buf@[i] == (if i
                        < before.len() {
                        before[i]
                    } else {
                        0u8
                    }),
            decreases end - self.write_buf@.len(),
        {
            self.write_buf.push(0);
        }
        let mut i: usize = 0;
        while i < data.len()
            invariant
                self@ == (SlotModel { write_buf: self.write_buf@, ..old(self)@ }),
                i <= data@.len(),
                end == offset + data@.len(),
                before.len() <= self.write_buf@.len(),
                end <= self.write_buf@.len(),
                self.write_buf@.len() == before.len() || self.write_buf@.len() == end,
                forall|k: int|
                    0 <= k < self.write_buf@.len() ==> #[trigger] self.write_buf@[k] == (if offset
                        <= k < offset + i {
                        data@[k - offset]
                    } else if k < before.len() {
                        before[k]
                    } else {
                        0u8
                    }),
            decreases data@.len() - i,
        {
            self.write_buf.set(offset + i, data[i]);
            i = i + 1;
        }
        self.note(offset, data);
        self.last_touched = now;
        proof {
            assert(self.write_buf@ =~= overwrite(before, offset as int, data@));
        }
    }

    /// Adds an edit.
    fn note(&mut self, offset: usize, data: &[u8])
        ensures
            final(self)@ == (SlotModel {
                edits: with_edit(old(self)@.edits, offset as int, data@),
                ..old(self)@
            }),
    {
        if data.len() > 0 {
            let mut copy: Vec<u8> = Vec::new();
            copy.extend_from_slice(data);
            proof {
                assert(copy@ =~= data@);
            }
            let ghost given = self.edits@;
            self.edits.push(Edit { offset, data: copy });
            proof {
                assert(edits_view(self.edits@) =~= edits_view(given).push(
                    EditModel { offset: offset as int, data: data@ },
                ));
            }
        }
    }

    /// Cuts the input and forgets what an earlier invocation gave.
    pub fn reset(&mut self, size: u64, now: u64)
        ensures
            final(self)@ == reset_slot(old(self)@, size as int, now),
    {
        if size < self.write_buf.len() as u64 {
            self.write_buf.truncate(size as usize);
        }
        self.edits = Vec::new();
        let rest = self.write_buf.clone();
        proof {
            assert(edits_view(self.edits@) =~= seq![]);
            assert(rest@ =~= self.write_buf@);
        }
        self.note(0, rest.as_slice());
        self.result = Vec::new();
        self.trace = Vec::new();
        self.state = InvocationState::Idle;
        self.last_touched = now;
        proof {
            assert(self.write_buf@ =~= truncated(old(self).write_buf@, size as int));
            assert(self.result@ =~= seq![]);
            assert(self.trace@ =~= seq![]);
        }
    }

    /// Notes that an invocation was kicked; readers wait under the ticket.
    pub fn mark_pending(&mut self, ticket: u64, now: u64)
        ensures
            final(self)@ == pending_slot(old(self)@, ticket, now),
    {
        self.state = InvocationState::Pending(ticket);
        self.last_touched = now;
    }

    /// Takes the input out of the slot.
    pub fn take_input(&mut self) -> (r: Vec<u8>)
        ensures
            r@ == old(self)@.write_buf,
            final(self)@ == drained_slot(old(self)@),
    {
        let mut input: Vec<u8> = Vec::new();
        std::mem::swap(&mut input, &mut self.write_buf);
        self.edits = Vec::new();
        proof {
            assert(edits_view(self.edits@) =~= seq![]);
        }
        input
    }

    /// Takes the edits out of the slot.
    pub fn take_edits(&mut self) -> (r: Vec<Edit>)
        ensures
            edits_view(r@) == old(self)@.edits,
            final(self)@ == drained_slot(old(self)@),
    {
        let mut edits: Vec<Edit> = Vec::new();
        std::mem::swap(&mut edits, &mut self.edits);
        self.write_buf = Vec::new();
        proof {
            assert(edits_view(self.edits@) =~= seq![]);
            assert(self.write_buf@ =~= seq![]);
        }
        edits
    }

    /// Stores what an invocation gave. The result is the ticket of those who wait
    /// for it.
    pub fn commit(&mut self, result: Vec<u8>, trace: Vec<u8>, now: u64) -> (r: Option<u64>)
        ensures
            final(self)@ == committed_slot(old(self)@, result@, trace@, now),
            r == match old(self)@.state {
                InvocationState::Pending(t) => Some(t),
                _ => None,
            },
    {
        let waiting = match self.state {
            InvocationState::Pending(t) => Some(t),
            _ => None,
        };
        self.result = result;
        self.trace = trace;
        self.state = InvocationState::Ready;
        self.last_touched = now;
        waiting
    }
}

/// Reads of successive parts of the bytes, put together, are the bytes up to where
/// they ended.
pub proof fn slices_reassemble(bytes: Seq<u8>, offset: i64, size: u32)
    requires
        0 <= offset <= bytes.len(),
        offset + size <= i64::MAX,
    ensures
        bytes.take(offset as int) + slice_of(bytes, offset, size) == bytes.take(
            offset + slice_of(bytes, offset, size).len(),
        ),
        slice_of(bytes, offset, size).len() <= size,
        size > 0 && !is_past_end(bytes, offset) ==> slice_of(bytes, offset, size).len() > 0,
        is_past_end(bytes, offset) ==> bytes.take(offset as int) == bytes,
{
}

/// A write to a file changes the bytes that it covers and no others: what lies before it
/// and behind it is kept, and a write at the end appends.
pub proof fn edits_keep_the_rest(bytes: Seq<u8>, offset: int, data: Seq<u8>)
    requires
        0 <= offset,
        data.len() > 0,
    ensures
        edited(bytes, with_edit(seq![], offset, data)) == overwrite(bytes, offset, data),
        forall|i: int|
            0 <= i < bytes.len() && !(offset <= i < offset + data.len()) ==> overwrite(
                bytes,
                offset,
                data,
            )[i] == #[trigger] bytes[i],
        forall|i: int|
            0 <= i < data.len() ==> overwrite(bytes, offset, data)[offset + i]
                == #[trigger] data[i],
        overwrite(bytes, offset, data).len() >= bytes.len(),
        offset == bytes.len() ==> overwrite(bytes, offset, data) == bytes + data,
{
    let one = with_edit(seq![], offset, data);
    assert(one.drop_last() =~= seq![]);
    assert(edited(bytes, one.drop_last()) == bytes);
    if offset == bytes.len() {
        assert(overwrite(bytes, offset, data) =~= bytes + data);
    }
}

/// Input written in successive parts is the whole input.
pub proof fn writes_append(first: Seq<u8>, second: Seq<u8>)
    ensures
        overwrite(seq![], 0, first) == first,
        overwrite(first, first.len() as int, second) == first + second,
{
    assert(overwrite(seq![], 0, first) =~= first);
    assert(overwrite(first, first.len() as int, second) =~= first + second);
}

} // verus!
