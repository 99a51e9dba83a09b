//! Reading from and writing to files, and what that sets off.
use super::attr::Errno;
use super::how_to_gen::{generate_how_to, how_to_document};
use super::inode::tool_ino;
use super::lookup::is_declared_endpoint;
use super::invocation::{
    committed_slot, drained_slot, edited, edits_view, is_past_end, pending_slot, reset_slot,
    resized, slice_of, sliced, touched_slot, written_slot, Edit, EditModel, EndpointSnapshot, InvocationState, SlotKey, SlotModel,
    SnapshotModel,
};
use super::path_table::{path_at, PathModel};
use super::schema_gen::{
    anthropic_tools, generate_anthropic_tools_json, generate_schema_json, schema_tree,
};
use super::slot_table::{
    changed, held, holds, is_at, is_pinned, keeps_place, lemma_changed_only, lemma_only_trans,
    lemma_pinned, lemma_removed_only, lemma_slot_id, one_more, only_slot_changed, pinned, pins_at,
    slot_at, slot_id, slot_or_fresh, unpinned, with_slot, without, SlotHandle,
};
use super::vfs::{here, DiskFacts, LiveFolders};
use crate::json::json_pretty;
use crate::manifest::{invokes, FileKind, Manifest};
use crate::number::{decimal, to_decimal};
use crate::paths::{file_name_of, join_components, parent_of, DiskPath};
use crate::registry::{Invocation, ToolResult};
use crate::split::{trim, trimmed, views};
use crate::text::{bytes_of, from_utf8_lossy, same, strip_suffix, utf8_lossy};
use crate::tools::external::{check_invocation, is_refusal, may_run};
use crate::tools::pipe::PipeRun;
use vstd::prelude::*;
use vstd::utf8::*;

verus! {

/// The answer to `open`.
#[derive(Clone, Copy, Debug, PartialEq, Eq, Structural)]
pub struct Opened {
    pub fh: u64,
    /// Whether the kernel must not cache what is read.
    pub direct_io: bool,
}

/// The answer to `read`.
#[derive(Debug)]
pub enum ReadReply {
    Error(Errno),
    /// These bytes.
    Data(Vec<u8>),
    /// The part of this file that was asked for.
    Disk(DiskPath),
    /// The part of the result of a slot that was asked for. Where `kick`, an
    /// invocation has to be started first; where `wait`, the result is there when the
    /// ticket is called. The slot is kept until `finish_read`.
    Slot { handle: SlotHandle, kick: bool, wait: Option<u64> },
}

/// What has to be done after `release`.
#[derive(Debug)]
pub enum ReleaseAction {
    Nothing,
    /// Run the handler of a slot. The slot is kept until its result is committed.
    Run(SlotHandle),
    /// Make the edits to a file, one behind the other; what they do not cover stays.
    WriteFile { path: DiskPath, edits: Vec<Edit> },
    /// Invoke a tool with an input. The slot is kept until its result is committed.
    Invoke { handle: SlotHandle, tool: String, endpoint: String, input: Vec<u8> },
}

impl ReleaseAction {
    /// What the file that was closed holds afterwards, where it held `bytes` before.
    pub open spec fn file_after(&self, bytes: Seq<u8>) -> Seq<u8> {
        match self {
            ReleaseAction::WriteFile { edits, .. } => edited(bytes, edits_view(edits@)),
            _ => bytes,
        }
    }
}

/// What has to be done on disk for `setattr`.
#[derive(Debug)]
pub struct SetattrAction {
    /// The file whose mode has to be set.
    pub chmod: Option<DiskPath>,
    /// The file whose size has to be set.
    pub resize: Option<Resize>,
}

/// How the size of a file is set: the edits are made first, then it is cut to its new
/// size or filled up to it.
#[derive(Debug)]
pub struct Resize {
    pub path: DiskPath,
    pub edits: Vec<Edit>,
    pub size: u64,
}

impl SetattrAction {
    /// What a file holds afterwards, where it held `bytes` before.
    pub open spec fn file_after(&self, bytes: Seq<u8>) -> Seq<u8> {
        match self.resize {
            None => bytes,
            Some(r) => resized(edited(bytes, edits_view(r.edits@)), r.size as int),
        }
    }
}

/// How the handler of a slot is run.
#[derive(Debug)]
pub enum HandlerPlan {
    /// Not at all: this is the result.
    Fail(ToolResult),
    /// As a chain of endpoints.
    Pipe(PipeRun),
    /// As a shell command with the input on its standard input.
    Command { handler: String, input: Vec<u8> },
}

/// The trace of an invocation, as its log shows it.
pub open spec fn trace_text(duration_ms: u64, is_error: bool, stderr: Seq<u8>) -> Seq<char> {
    "duration_ms: "@ + decimal(duration_ms as nat) + "\nexit: "@ + (if is_error {
        "error"@
    } else {
        "ok"@
    }) + "\nstderr: "@ + trim(utf8_lossy(stderr)) + "\n"@
}

/// The bytes that a read of a slot gives for a result.
pub open spec fn result_bytes(r: ToolResult) -> Seq<u8> {
    match r.error {
        Some(e) => encode_utf8(e@ + "\n"@),
        None => r.output@,
    }
}

/// The trace of a result.
pub open spec fn result_trace(r: ToolResult) -> Seq<u8> {
    encode_utf8(trace_text(r.duration_ms, r.error is Some, r.stderr@))
}

/// What a read of an inode gives.
pub enum ReadTarget {
    /// The result of a slot, which is made with this snapshot where it is not there.
    Slot(SnapshotModel),
    /// These bytes.
    Bytes(Seq<u8>),
    /// The file.
    Disk(PathModel),
    Missing,
}

/// The name of the directory that a file is in.
pub open spec fn dir_name(path: PathModel) -> Seq<char> {
    match parent_of(path) {
        None => "unknown"@,
        Some(d) => match file_name_of(d) {
            None => "unknown"@,
            Some(n) => n,
        },
    }
}

/// Whether a file is made from the manifest of its directory.
pub open spec fn is_generated(path: PathModel, name: Seq<char>, facts: DiskFacts) -> bool {
    file_name_of(path) == Some(name) && parent_of(path) is Some && facts.dir_manifest is Some
}

/// Whether a slot table is untouched but for one key, and this is the slot found there,
/// held by so many tasks. A slot that was there before stays where it is.
pub open spec fn found(
    before: Seq<Option<super::slot_table::CellModel>>,
    after: Seq<Option<super::slot_table::CellModel>>,
    key: SlotKey,
    s: SlotModel,
    pins: u64,
) -> bool {
    &&& slot_at(after, key) == Some(s)
    &&& pins_at(after, key) == pins
    &&& keeps_place(before, after, key)
    &&& only_slot_changed(before, after, key)
}

/// What a session has written to a file that was not flushed yet.
pub open spec fn pending_edits(
    cells: Seq<Option<super::slot_table::CellModel>>,
    key: SlotKey,
) -> Seq<EditModel> {
    match slot_at(cells, key) {
        None => seq![],
        Some(s) => s.edits,
    }
}

/// The part of a file that a read of `size` bytes from `offset` gives.
pub fn reply_bytes(bytes: &[u8], offset: i64, size: u32) -> (r: Vec<u8>)
    ensures
        r@ == slice_of(bytes@, offset, size),
{
    let part = sliced(bytes, offset, size);
    let mut out: Vec<u8> = Vec::new();
    out.extend_from_slice(part);
    proof {
        assert(out@ =~= part@);
    }
    out
}

/// The trace of an invocation, as its log shows it.
pub fn format_trace(duration_ms: u64, is_error: bool, stderr: &[u8]) -> (r: Vec<u8>)
    ensures
        r@ == encode_utf8(trace_text(duration_ms, is_error, stderr@)),
{
    let mut s = "duration_ms: ".to_string();
    s.push_str(&to_decimal(duration_ms));
    s.push_str("\nexit: ");
    s.push_str(
        if is_error {
            "error"
        } else {
            "ok"
        },
    );
    s.push_str("\nstderr: ");
    s.push_str(&trimmed(&from_utf8_lossy(stderr)));
    s.push_str("\n");
    bytes_of(&s)
}

/// Decides how the handler of a slot is run, from the slot's snapshot and what the
/// tool's directory declares now. The input is checked first; a chain needs the
/// manifest.
pub fn plan_run(snapshot: &EndpointSnapshot, input: Vec<u8>, manifest: Option<&Manifest>) -> (r:
    HandlerPlan)
    ensures
        if !may_run(input@, snapshot@.input_schema) {
            r matches HandlerPlan::Fail(t) && is_refusal(input@, snapshot@.input_schema, t)
        } else {
            match snapshot@.pipe {
                Some(stages) => if manifest is None {
                    r matches HandlerPlan::Fail(t) && t.fails("[ERROR:SPAWN] manifest not found"@)
                } else {
                    r matches HandlerPlan::Pipe(p) && views(p.stages@) == stages && p.wf() && p.done
                        == 0 && p.data == input
                },
                None => r matches HandlerPlan::Command { handler, input: i } && i == input
                    && handler@ == (match snapshot@.handler {
                    Some(h) => h,
                    None => ""@,
                }),
            }
        },
{
    if let Some(t) = check_invocation(input.as_slice(), snapshot.input_schema.as_ref()) {
        return HandlerPlan::Fail(t);
    }
    if let Some(stages) = &snapshot.pipe {
        return match manifest {
            None => HandlerPlan::Fail(
                ToolResult::err("[ERROR:SPAWN] manifest not found".to_string()),
            ),
            Some(_) => HandlerPlan::Pipe(PipeRun::new(crate::paths::copy_texts(stages), input)),
        };
    }
    let handler = match &snapshot.handler {
        Some(h) => h.clone(),
        None => "".to_string(),
    };
    HandlerPlan::Command { handler, input }
}

impl LiveFolders {
    /// Whether an inode stands for an endpoint.
    pub open spec fn is_endpoint(&self, ino: u64, facts: DiskFacts) -> bool {
        ||| self.ep_index(ino) is Some
        ||| self.declared(ino, facts.tool_manifest) matches Some(f) && invokes(f.kind)
        ||| self.is_script(ino, facts)
    }

    /// Whether a file on disk can be executed.
    pub open spec fn runs_as_script(facts: DiskFacts) -> bool {
        facts.meta matches Some(m) && super::attr::is_executable(m.mode)
    }

    /// The tool, and the file in it, that an executable file which no manifest
    /// declares belongs to, where that tool is registered.
    pub open spec fn script_of(&self, ino: u64) -> Option<(Seq<char>, Seq<char>)> {
        match self.owner(ino) {
            None => None,
            Some(o) => if self.registry@.contains_key(o.0) {
                Some(o)
            } else {
                None
            },
        }
    }

    /// Whether an inode stands for an executable file that no manifest declares, in the
    /// directory of a registered tool.
    pub open spec fn is_script(&self, ino: u64, facts: DiskFacts) -> bool {
        &&& self.declared(ino, facts.tool_manifest) is None
        &&& LiveFolders::runs_as_script(facts)
        &&& !facts.meta->0.is_dir
        &&& self.script_of(ino) is Some
    }

    /// The directory that a file is in, for an invocation that no manifest declares.
    pub open spec fn file_cwd(path: PathModel) -> PathModel {
        match parent_of(path) {
            Some(d) => d,
            None => here(),
        }
    }

    /// The snapshot for an executable file that no manifest declares.
    pub open spec fn script_snapshot(&self, ino: u64) -> SnapshotModel {
        let (tool, file) = self.script_of(ino)->0;
        self.plain_snapshot(tool, file, LiveFolders::file_cwd(path_at(self.paths@, ino)->0))
    }

    /// The snapshot for an executable file that no manifest declares.
    fn snapshot_beside(&self, tool: &str, file: &str, path: &DiskPath) -> (r: EndpointSnapshot)
        ensures
            r@ == self.plain_snapshot(tool@, file@, LiveFolders::file_cwd(path@)),
    {
        let cwd = match path.parent() {
            Some(d) => d,
            None => DiskPath::from_text("."),
        };
        self.synth_snapshot(tool, file, cwd)
    }

    /// The tool, and the file in it, that an executable file which no manifest
    /// declares belongs to, where that tool is registered.
    fn script_owner(&self, ino: u64) -> (r: Option<(String, String)>)
        requires
            self.wf(),
        ensures
            match r {
                None => self.script_of(ino) is None,
                Some((tool, file)) => self.script_of(ino) == Some((tool@, file@)),
            },
    {
        match self.owner_of(ino) {
            None => None,
            Some((tool, file)) => {
                if self.registry.get(&tool).is_some() {
                    Some((tool, file))
                } else {
                    None
                }
            },
        }
    }

    /// The tool, and the file in it, of an inode that stands for a script.
    fn script_for_ino(&self, ino: u64, facts: &DiskFacts) -> (r: Option<(String, String)>)
        requires
            self.wf(),
        ensures
            match r {
                None => !self.is_script(ino, *facts),
                Some((tool, file)) => self.is_script(ino, *facts) && self.script_of(ino) == Some(
                    (tool@, file@),
                ),
            },
    {
        if self.file_spec_for_ino(ino, &facts.tool_manifest).is_some() {
            return None;
        }
        match facts.meta {
            Some(m) => {
                if m.mode & 0o111 != 0 && !m.is_dir {
                    self.script_owner(ino)
                } else {
                    None
                }
            },
            None => None,
        }
    }

    /// Whether an inode stands for an endpoint.
    fn is_endpoint_ino(&self, ino: u64, facts: &DiskFacts) -> (r: bool)
        requires
            self.wf(),
        ensures
            r == self.is_endpoint(ino, *facts),
    {
        if self.ep_index_for_ino(ino).is_some() {
            return true;
        }
        match self.file_spec_for_ino(ino, &facts.tool_manifest) {
            Some((_, _, f)) => f.kind.runs_handler(),
            None => self.script_for_ino(ino, facts).is_some(),
        }
    }

    /// Opens a file: a file handle that is bound to the session of the caller. What is
    /// read from an endpoint is not cached.
    pub fn open(&mut self, ino: u64, caller: Option<i32>, facts: &DiskFacts) -> (r: Opened)
        requires
            old(self).wf(),
        ensures
            final(self).wf(),
            r.fh == old(self).next_fh,
            r.direct_io == old(self).is_endpoint(ino, *facts),
            final(self).fh_to_sid@ == LiveFolders::handles_with(
                old(self).fh_to_sid@,
                r.fh,
                caller,
            ),
            final(self).next_fh == (old(self).next_fh + 1) % 0x1_0000_0000_0000_0000,
            final(self).same_mount(old(self)),
            final(self).slots@ == old(self).slots@,
            final(self).paths@ == old(self).paths@,
            final(self).next_ticket == old(self).next_ticket,
    {
        let direct_io: bool = self.is_endpoint_ino(ino, facts);
        let fh: u64 = self.alloc_fh_for(caller);
        Opened { fh, direct_io }
    }

    // -----------------------------------------------------------------------
    // Reading
    // -----------------------------------------------------------------------

    /// What a read of a file on disk gives, where no manifest declares it to run
    /// something: the log of an endpoint, a description of the tool, or the file.
    pub open spec fn file_target(&self, path: PathModel, facts: DiskFacts) -> ReadTarget {
        match self.log_path(path, facts) {
            Some(ep_path) => ReadTarget::Bytes(self.trace_at(ep_path)),
            None => if is_generated(path, "schema.json"@, facts) {
                ReadTarget::Bytes(encode_utf8(json_pretty(schema_tree(facts.dir_manifest->0))))
            } else if is_generated(path, "anthropic_tools.json"@, facts) {
                ReadTarget::Bytes(
                    encode_utf8(
                        json_pretty(anthropic_tools(dir_name(path), facts.dir_manifest->0)),
                    ),
                )
            } else if LiveFolders::lacks_how_to(path, facts) {
                ReadTarget::Bytes(encode_utf8(how_to_document(facts.dir_manifest->0)))
            } else {
                ReadTarget::Disk(path)
            },
        }
    }

    /// The endpoint whose log a file in the directory of a tool is.
    pub open spec fn log_path(&self, path: PathModel, facts: DiskFacts) -> Option<PathModel> {
        match (parent_of(path), file_name_of(path)) {
            (Some(dir), Some(name)) => match (
                self.tool_of_dir(dir),
                LiveFolders::logged_endpoint(name, facts.tool_manifest),
            ) {
                (Some(_), Some(ep)) => Some(join_components(dir, ep)),
                _ => None,
            },
            _ => None,
        }
    }

    /// The endpoint whose log a file in the directory of a tool is.
    fn logged_path(&self, path: &DiskPath, facts: &DiskFacts) -> (r: Option<DiskPath>)
        ensures
            match r {
                None => self.log_path(path@, *facts) is None,
                Some(p) => self.log_path(path@, *facts) == Some(p@),
            },
    {
        match (path.parent(), path.file_name()) {
            (Some(dir), Some(name)) => match (
                self.tool_of_directory(&dir),
                strip_suffix(&name, ".log"),
            ) {
                (Some(_), Some(ep)) => {
                    if is_declared_endpoint(&facts.tool_manifest, &ep) {
                        Some(dir.join(&ep))
                    } else {
                        None
                    }
                },
                _ => None,
            },
            _ => None,
        }
    }

    /// What a read of an inode gives.
    pub open spec fn read_target(&self, ino: u64, facts: DiskFacts) -> ReadTarget {
        match path_at(self.paths@, ino) {
            Some(path) => match self.declared(ino, facts.tool_manifest) {
                Some(f) => if invokes(f.kind) {
                    ReadTarget::Slot(self.manifest_snapshot(ino, f))
                } else {
                    self.file_target(path, facts)
                },
                None => if self.is_script(ino, facts) {
                    ReadTarget::Slot(self.script_snapshot(ino))
                } else {
                    self.file_target(path, facts)
                },
            },
            None => if self.root_text(ino, facts) is Some {
                ReadTarget::Bytes(encode_utf8(self.root_text(ino, facts)->0))
            } else {
                match self.tool_index(ino) {
                    None => ReadTarget::Missing,
                    Some(idx) => if ino == tool_ino(idx) + 1 {
                        ReadTarget::Bytes(encode_utf8(self.tool_at(idx).model().how_to))
                    } else if self.ep_index(ino) is Some {
                        ReadTarget::Slot(self.builtin_snapshot(ino))
                    } else {
                        ReadTarget::Missing
                    },
                }
            },
        }
    }

    /// What a read of a file on disk gives that no manifest declares to run something:
    /// these bytes, or the file.
    fn file_bytes(&self, path: &DiskPath, facts: &DiskFacts) -> (r: Option<Vec<u8>>)
        requires
            self.wf(),
            self.paths.room(0),
        ensures
            match r {
                Some(b) => self.file_target(path@, *facts) == ReadTarget::Bytes(b@),
                None => self.file_target(path@, *facts) == ReadTarget::Disk(path@),
            },
    {
        if let Some(ep_path) = self.logged_path(path, facts) {
            return Some(self.trace_of(&ep_path));
        }
        let parent = path.parent();
        if let (Some(name), Some(dir), Some(m)) = (path.file_name(), &parent, &facts.dir_manifest) {
            if same(&name, "schema.json") {
                return Some(bytes_of(&generate_schema_json(m)));
            }
            if same(&name, "anthropic_tools.json") {
                let tool = match dir.file_name() {
                    Some(n) => n,
                    None => "unknown".to_string(),
                };
                return Some(bytes_of(&generate_anthropic_tools_json(&tool, m)));
            }
        }
        if let Some(m) = LiveFolders::missing_how_to(path, facts) {
            return Some(bytes_of(&generate_how_to(m)));
        }
        None
    }

    /// The key of the slot that an operation works on.
    pub open spec fn key_of(&self, ino: u64, fh: u64, caller: Option<i32>) -> SlotKey {
        (ino, self.session_of(fh, caller))
    }

    /// Whether a read of an endpoint was answered as it should be: an idle
    /// endpoint that runs when it is read is kicked, and its reader waits; a reader of
    /// an endpoint that is running waits; otherwise the result is there. The slot is kept
    /// for each reader, and for a run that was kicked.
    pub open spec fn endpoint_read(
        &self,
        after: &LiveFolders,
        key: SlotKey,
        kind: FileKind,
        base: SlotModel,
        now: u64,
        handle: SlotHandle,
        kick: bool,
        wait: Option<u64>,
    ) -> bool {
        &&& kick == (kind == FileKind::ReadInvoke && base.state == InvocationState::Idle)
        &&& wait == (if kick {
            Some(self.next_ticket)
        } else {
            match base.state {
                InvocationState::Pending(t) => Some(t),
                _ => None,
            }
        })
        &&& found(
            self.slots@,
            after.slots@,
            key,
            if kick {
                pending_slot(base, self.next_ticket, now)
            } else {
                base
            },
            if kick {
                one_more(one_more(pins_at(self.slots@, key)))
            } else {
                one_more(pins_at(self.slots@, key))
            },
        )
        &&& slot_id(after.slots@, key) == Some(handle.id as int)
        &&& is_pinned(after.slots@, handle)
        &&& after.next_ticket == (if kick {
            (self.next_ticket + 1) % 0x1_0000_0000_0000_0000
        } else {
            self.next_ticket as int
        })
    }

    /// Keeps the slot of a handle for one more task.
    fn pin_slot(&mut self, h: SlotHandle)
        requires
            old(self).wf(),
            holds(old(self).slots@, h),
            old(self).slots@[h.id as int]->0.live,
        ensures
            final(self).wf(),
            final(self).same_mount(old(self)),
            final(self).same_handles(old(self)),
            final(self).paths == old(self).paths,
            final(self).next_ticket == old(self).next_ticket,
            holds(final(self).slots@, h),
            final(self).slots@ == old(self).slots@.update(
                h.id as int,
                pinned(old(self).slots@[h.id as int]),
            ),
            held(final(self).slots@, h) == held(old(self).slots@, h),
            final(self).slots@[h.id as int]->0.live,
            only_slot_changed(
                old(self).slots@,
                final(self).slots@,
                held(old(self).slots@, h).key,
            ),
            slot_id(final(self).slots@, held(old(self).slots@, h).key) == Some(h.id as int),
            found(
                old(self).slots@,
                final(self).slots@,
                held(old(self).slots@, h).key,
                held(old(self).slots@, h),
                one_more(pins_at(old(self).slots@, held(old(self).slots@, h).key)),
            ),
            is_pinned(final(self).slots@, h),
    {
        self.slots.pin(h);
        proof {
            old(self).slots.lemma_wf();
            let before = old(self).slots@;
            let key = held(before, h).key;
            lemma_pinned(before, h.id as int);
            assert(is_at(before, key, h.id as int));
            lemma_slot_id(before, key, h.id as int);
        }
    }

    /// Starts an invocation of a slot: its readers wait under a new ticket, and it is
    /// kept for the task that runs it.
    fn start(&mut self, h: SlotHandle, now: u64) -> (ticket: u64)
        requires
            old(self).wf(),
            holds(old(self).slots@, h),
            old(self).slots@[h.id as int]->0.live,
        ensures
            final(self).wf(),
            final(self).same_mount(old(self)),
            final(self).same_handles(old(self)),
            final(self).paths == old(self).paths,
            ticket == old(self).next_ticket,
            final(self).next_ticket == (old(self).next_ticket + 1) % 0x1_0000_0000_0000_0000,
            holds(final(self).slots@, h),
            final(self).slots@[h.id as int]->0.live,
            is_pinned(final(self).slots@, h),
            held(final(self).slots@, h) == pending_slot(held(old(self).slots@, h), ticket, now),
            found(
                old(self).slots@,
                final(self).slots@,
                held(old(self).slots@, h).key,
                pending_slot(held(old(self).slots@, h), ticket, now),
                one_more(pins_at(old(self).slots@, held(old(self).slots@, h).key)),
            ),
            slot_id(final(self).slots@, held(old(self).slots@, h).key) == Some(h.id as int),
    {
        let ticket: u64 = self.next_ticket;
        self.next_ticket = self.next_ticket.wrapping_add(1);
        self.slots.mark_pending(h, ticket, now);
        let ghost key = held(old(self).slots@, h).key;
        let ghost mid = self.slots@;
        proof {
            old(self).slots.lemma_wf();
            lemma_changed_only(
                old(self).slots@,
                h,
                pending_slot(held(old(self).slots@, h), ticket, now),
            );
        }
        self.pin_slot(h);
        proof {
            lemma_only_trans(old(self).slots@, mid, self.slots@, key);
        }
        ticket
    }

    /// Answers a read of an endpoint.
    fn read_endpoint(
        &mut self,
        ino: u64,
        sid: i32,
        snapshot: EndpointSnapshot,
        now: u64,
    ) -> (r: ReadReply)
        requires
            old(self).wf(),
        ensures
            final(self).wf(),
            final(self).same_mount(old(self)),
            final(self).same_handles(old(self)),
            final(self).paths == old(self).paths,
            r matches ReadReply::Slot { handle, kick, wait } && old(self).endpoint_read(
                final(self),
                (ino, sid),
                snapshot@.kind,
                slot_or_fresh(old(self).slots@, (ino, sid), snapshot@, now),
                now,
                handle,
                kick,
                wait,
            ),
    {
        let ghost key = (ino, sid);
        let kind = snapshot.kind;
        let h = self.ensure_slot(ino, sid, snapshot, now);
        let ghost one = self.slots@;
        let state = self.slots.slot(h).state;
        self.pin_slot(h);
        let ghost two = self.slots@;
        proof {
            lemma_only_trans(old(self).slots@, one, two, key);
        }
        let waiting = match state {
            InvocationState::Pending(t) => Some(t),
            _ => None,
        };
        if kind == FileKind::ReadInvoke && state == InvocationState::Idle {
            let ticket: u64 = self.start(h, now);
            proof {
                lemma_only_trans(old(self).slots@, two, self.slots@, key);
            }
            return ReadReply::Slot { handle: h, kick: true, wait: Some(ticket) };
        }
        ReadReply::Slot { handle: h, kick: false, wait: waiting }
    }

    /// What the last part of a read of a slot does: the slot was used, and what lies
    /// behind its result ends it.
    pub open spec fn drained(
        before: Seq<Option<super::slot_table::CellModel>>,
        h: SlotHandle,
        key: SlotKey,
        offset: i64,
        now: u64,
    ) -> Seq<Option<super::slot_table::CellModel>> {
        let used = changed(before, h, touched_slot(held(before, h), now));
        if is_past_end(held(before, h).result, offset) {
            without(used, |s: SlotModel| s.key == key)
        } else {
            used
        }
    }

    /// Ends a read of a slot: the part of its result that was asked for. A read behind
    /// its end takes the slot off its key.
    pub fn finish_read(
        &mut self,
        h: SlotHandle,
        key: SlotKey,
        offset: i64,
        size: u32,
        now: u64,
    ) -> (r: Vec<u8>)
        requires
            old(self).wf(),
            is_pinned(old(self).slots@, h),
        ensures
            final(self).wf(),
            final(self).same_mount(old(self)),
            final(self).same_handles(old(self)),
            final(self).paths == old(self).paths,
            final(self).next_ticket == old(self).next_ticket,
            r@ == slice_of(held(old(self).slots@, h).result, offset, size),
            final(self).slots@ == LiveFolders::drained(
                old(self).slots@,
                h,
                key,
                offset,
                now,
            ).update(
                h.id as int,
                unpinned(
                    LiveFolders::drained(old(self).slots@, h, key, offset, now)[h.id as int],
                ),
            ),
    {
        self.slots.touch(h, now);
        let part = self.slots.slot(h).slice(offset, size);
        let mut out: Vec<u8> = Vec::new();
        out.extend_from_slice(part);
        proof {
            assert(out@ =~= part@);
        }
        if self.slots.slot(h).past_end(offset) {
            self.slots.remove(key);
        }
        self.slots.unpin(h);
        out
    }

    /// Answers a read.
    pub fn read(
        &mut self,
        ino: u64,
        fh: u64,
        caller: Option<i32>,
        offset: i64,
        size: u32,
        facts: &DiskFacts,
        now: u64,
    ) -> (r: ReadReply)
        requires
            old(self).wf(),
            old(self).paths.room(0),
        ensures
            final(self).wf(),
            final(self).same_mount(old(self)),
            final(self).same_handles(old(self)),
            final(self).paths == old(self).paths,
            ({
                let key = old(self).key_of(ino, fh, caller);
                match old(self).read_target(ino, *facts) {
                    ReadTarget::Slot(snapshot) => r matches ReadReply::Slot { handle, kick, wait }
                        && old(self).endpoint_read(
                        final(self),
                        key,
                        snapshot.kind,
                        slot_or_fresh(old(self).slots@, key, snapshot, now),
                        now,
                        handle,
                        kick,
                        wait,
                    ),
                    ReadTarget::Bytes(b) => r matches ReadReply::Data(d) && d@ == slice_of(
                        b,
                        offset,
                        size,
                    ) && *final(self) == *old(self),
                    ReadTarget::Disk(p) => r matches ReadReply::Disk(path) && path@ == p
                        && *final(self) == *old(self),
                    ReadTarget::Missing => r == ReadReply::Error(Errno::NoEntry) && *final(self)
                        == *old(self),
                }
            }),
    {
        let sid: i32 = self.resolve_sid(fh, caller);
        if let Some(path) = self.paths.path_for_ino(ino) {
            if let Some((tool, file, f)) = self.file_spec_for_ino(ino, &facts.tool_manifest) {
                if f.kind.runs_handler() {
                    let snapshot = self.snapshot_for(tool, file, f, ino);
                    return self.read_endpoint(ino, sid, snapshot, now);
                }
            } else if let Some((tool, file)) = self.script_for_ino(ino, facts) {
                let snapshot = self.snapshot_beside(&tool, &file, path);
                return self.read_endpoint(ino, sid, snapshot, now);
            }
            return match self.file_bytes(path, facts) {
                Some(b) => ReadReply::Data(reply_bytes(b.as_slice(), offset, size)),
                None => ReadReply::Disk(path.copy()),
            };
        }
        if let Some(text) = self.root_document(ino, facts) {
            let bytes = bytes_of(&text);
            return ReadReply::Data(reply_bytes(bytes.as_slice(), offset, size));
        }
        match self.tool_index_for_ino(ino) {
            None => ReadReply::Error(Errno::NoEntry),
            Some(idx) => {
                if ino == super::inode::how_to_ino(idx) {
                    let bytes = bytes_of(self.registry.tool_at(idx).how_to());
                    return ReadReply::Data(reply_bytes(bytes.as_slice(), offset, size));
                }
                match self.ep_index_for_ino(ino) {
                    None => ReadReply::Error(Errno::NoEntry),
                    Some((ti, ei)) => {
                        let (tool, file) = self.builtin_names(ti, ei);
                        let cwd = self.cwd_of(&tool);
                        let snapshot = self.synth_snapshot(&tool, &file, cwd);
                        self.read_endpoint(ino, sid, snapshot, now)
                    },
                }
            },
        }
    }

    // -----------------------------------------------------------------------
    // Writing
    // -----------------------------------------------------------------------

    /// Whether an inode can be written to: an endpoint, and a file on disk that no
    /// manifest declares to be read only.
    pub open spec fn is_writable(&self, ino: u64, facts: DiskFacts) -> bool {
        ||| self.ep_index(ino) is Some
        ||| match self.declared(ino, facts.tool_manifest) {
            Some(f) => f.kind != FileKind::Readonly,
            None => path_at(self.paths@, ino) is Some,
        }
    }

    /// The snapshot of a slot that buffers what is written to an inode.
    pub open spec fn write_snapshot(&self, ino: u64, facts: DiskFacts) -> SnapshotModel {
        match self.declared(ino, facts.tool_manifest) {
            Some(f) => self.manifest_snapshot(ino, f),
            None => if self.ep_index(ino) is Some {
                self.builtin_snapshot(ino)
            } else {
                self.plain_snapshot(
                    ""@,
                    ""@,
                    LiveFolders::file_cwd(path_at(self.paths@, ino)->0),
                )
            },
        }
    }

    /// The snapshot of a slot that buffers what is written to an inode.
    fn snapshot_to_write(&self, ino: u64, facts: &DiskFacts) -> (r: Option<EndpointSnapshot>)
        requires
            self.wf(),
        ensures
            match r {
                Some(s) => s@ == self.write_snapshot(ino, *facts),
                None => self.declared(ino, facts.tool_manifest) is None && self.ep_index(ino) is None
                    && path_at(self.paths@, ino) is None,
            },
    {
        if let Some((tool, file, f)) = self.file_spec_for_ino(ino, &facts.tool_manifest) {
            return Some(self.snapshot_for(tool, file, f, ino));
        }
        if let Some((ti, ei)) = self.ep_index_for_ino(ino) {
            let (tool, file) = self.builtin_names(ti, ei);
            let cwd = self.cwd_of(&tool);
            return Some(self.synth_snapshot(&tool, &file, cwd));
        }
        match self.paths.path_for_ino(ino) {
            None => None,
            Some(path) => {
                Some(self.snapshot_beside("", "", path))
            },
        }
    }

    /// Buffers what is written to a file in the slot of the caller's session, and says
    /// how many bytes were taken. A file that cannot be written to is left alone.
    pub fn write(
        &mut self,
        ino: u64,
        fh: u64,
        caller: Option<i32>,
        offset: i64,
        data: &[u8],
        facts: &DiskFacts,
        now: u64,
    ) -> (r: Result<usize, Errno>)
        requires
            old(self).wf(),
            0 <= offset,
            offset + data@.len() <= usize::MAX,
        ensures
            final(self).wf(),
            final(self).same_mount(old(self)),
            final(self).same_handles(old(self)),
            final(self).paths == old(self).paths,
            final(self).next_ticket == old(self).next_ticket,
            ({
                let key = old(self).key_of(ino, fh, caller);
                if old(self).is_writable(ino, *facts) {
                    &&& r == Ok::<usize, Errno>(data@.len() as usize)
                    &&& found(
                        old(self).slots@,
                        final(self).slots@,
                        key,
                        written_slot(
                            slot_or_fresh(
                                old(self).slots@,
                                key,
                                old(self).write_snapshot(ino, *facts),
                                now,
                            ),
                            offset as int,
                            data@,
                            now,
                        ),
                        pins_at(old(self).slots@, key),
                    )
                } else {
                    r == Err::<usize, Errno>(Errno::Access) && final(self).slots == old(self).slots
                }
            }),
    {
        let writable: bool = self.ep_index_for_ino(ino).is_some() || match self.file_spec_for_ino(
            ino,
            &facts.tool_manifest,
        ) {
            Some((_, _, f)) => f.kind != FileKind::Readonly,
            None => self.paths.path_for_ino(ino).is_some(),
        };
        if !writable {
            return Err(Errno::Access);
        }
        let sid: i32 = self.resolve_sid(fh, caller);
        match self.snapshot_to_write(ino, facts) {
            None => Err(Errno::Access),
            Some(snapshot) => {
                let ghost key = (ino, sid);
                let h = self.ensure_slot(ino, sid, snapshot, now);
                let ghost one = self.slots@;
                proof {
                    self.slots.lemma_wf();
                    lemma_changed_only(
                        one,
                        h,
                        written_slot(held(one, h), offset as int, data@, now),
                    );
                }
                self.slots.write_at(h, offset as usize, data, now);
                proof {
                    lemma_only_trans(old(self).slots@, one, self.slots@, key);
                }
                Ok(data.len())
            },
        }
    }

    /// Takes what a session has written to a file.
    fn take_pending(&mut self, key: SlotKey) -> (r: Vec<Edit>)
        requires
            old(self).wf(),
        ensures
            final(self).wf(),
            final(self).same_mount(old(self)),
            final(self).same_handles(old(self)),
            final(self).paths == old(self).paths,
            final(self).next_ticket == old(self).next_ticket,
            edits_view(r@) == pending_edits(old(self).slots@, key),
            match slot_at(old(self).slots@, key) {
                None => final(self).slots@ == old(self).slots@,
                Some(s) => found(
                    old(self).slots@,
                    final(self).slots@,
                    key,
                    drained_slot(s),
                    pins_at(old(self).slots@, key),
                ),
            },
    {
        match self.slots.get(key) {
            None => {
                let none: Vec<Edit> = Vec::new();
                proof {
                    assert(edits_view(none@) =~= seq![]);
                }
                none
            },
            Some(h) => {
                proof {
                    self.slots.lemma_wf();
                    lemma_changed_only(self.slots@, h, drained_slot(held(self.slots@, h)));
                }
                self.slots.take_edits(h)
            },
        }
    }

    /// Whether a change of attributes would change the content of a file that its
    /// manifest declares to be read only.
    pub open spec fn is_protected(&self, ino: u64, size: Option<u64>, facts: DiskFacts) -> bool {
        &&& size is Some
        &&& self.declared(ino, facts.tool_manifest) matches Some(f) && f.kind == FileKind::Readonly
    }

    /// Takes in a change of attributes. A truncated endpoint forgets the input behind
    /// its new size and what an earlier invocation gave, for the caller's session
    /// alone; the size of a file on disk is set, behind what the session has written to it
    /// before. A file that is declared to be read only keeps its content, and the change
    /// is refused.
    pub fn setattr(
        &mut self,
        ino: u64,
        mode: Option<u32>,
        size: Option<u64>,
        fh: Option<u64>,
        caller: Option<i32>,
        facts: &DiskFacts,
        now: u64,
    ) -> (r: Result<SetattrAction, Errno>)
        requires
            old(self).wf(),
        ensures
            final(self).wf(),
            final(self).same_mount(old(self)),
            final(self).same_handles(old(self)),
            final(self).paths == old(self).paths,
            final(self).next_ticket == old(self).next_ticket,
            match r {
                Err(e) => e == Errno::Access && old(self).is_protected(ino, size, *facts),
                Ok(a) => {
                    &&& !old(self).is_protected(ino, size, *facts)
                    &&& a.chmod is Some == (mode is Some && path_at(old(self).paths@, ino) is Some)
                    &&& a.chmod matches Some(p) ==> path_at(old(self).paths@, ino) == Some(p@)
                    &&& a.resize is Some == (size is Some && !old(self).is_endpoint(ino, *facts)
                        && path_at(old(self).paths@, ino) is Some)
                    &&& a.resize matches Some(s) ==> path_at(old(self).paths@, ino) == Some(s.path@)
                        && Some(s.size) == size
                },
            },
            ({
                let key = old(self).key_of(
                    ino,
                    match fh {
                        Some(h) => h,
                        None => 0,
                    },
                    caller,
                );
                if size is Some && old(self).is_endpoint(ino, *facts) && r is Ok {
                    found(
                        old(self).slots@,
                        final(self).slots@,
                        key,
                        reset_slot(
                            slot_or_fresh(
                                old(self).slots@,
                                key,
                                old(self).write_snapshot(ino, *facts),
                                now,
                            ),
                            size->0 as int,
                            now,
                        ),
                        pins_at(old(self).slots@, key),
                    )
                } else if r matches Ok(a) && a.resize is Some {
                    let edits = pending_edits(old(self).slots@, key);
                    &&& edits_view(r->Ok_0.resize->0.edits@) == edits
                    &&& forall|bytes: Seq<u8>| #[trigger]
                        r->Ok_0.file_after(bytes) == resized(edited(bytes, edits), size->0 as int)
                    &&& match slot_at(old(self).slots@, key) {
                        None => final(self).slots@ == old(self).slots@,
                        Some(s) => found(
                            old(self).slots@,
                            final(self).slots@,
                            key,
                            drained_slot(s),
                            pins_at(old(self).slots@, key),
                        ),
                    }
                } else {
                    final(self).slots == old(self).slots
                }
            }),
    {
        if size.is_some() {
            if let Some((_, _, f)) = self.file_spec_for_ino(ino, &facts.tool_manifest) {
                if f.kind == FileKind::Readonly {
                    return Err(Errno::Access);
                }
            }
        }
        let chmod = match (mode, self.paths.path_for_ino(ino)) {
            (Some(_), Some(p)) => Some(p.copy()),
            _ => None,
        };
        let mut resize: Option<Resize> = None;
        if let Some(n) = size {
            let sid: i32 = self.resolve_sid(
                match fh {
                    Some(h) => h,
                    None => 0,
                },
                caller,
            );
            if self.is_endpoint_ino(ino, facts) {
                if let Some(snapshot) = self.snapshot_to_write(ino, facts) {
                    let ghost key = (ino, sid);
                    let h = self.ensure_slot(ino, sid, snapshot, now);
                    let ghost one = self.slots@;
                    proof {
                        self.slots.lemma_wf();
                        lemma_changed_only(one, h, reset_slot(held(one, h), n as int, now));
                    }
                    self.slots.reset(h, n, now);
                    proof {
                        lemma_only_trans(old(self).slots@, one, self.slots@, key);
                    }
                }
            } else if let Some(p) = self.paths.path_for_ino(ino) {
                let path = p.copy();
                let edits = self.take_pending((ino, sid));
                resize = Some(Resize { path, edits, size: n });
            }
        }
        Ok(SetattrAction { chmod, resize })
    }

    // -----------------------------------------------------------------------
    // Invocations
    // -----------------------------------------------------------------------

    /// The table after the live slot of a key was emptied and taken off its key. Those
    /// who hold it still find it.
    pub open spec fn emptied(
        cells: Seq<Option<super::slot_table::CellModel>>,
        key: SlotKey,
    ) -> Seq<Option<super::slot_table::CellModel>> {
        match slot_id(cells, key) {
            None => cells,
            Some(i) => without(
                cells.update(i, with_slot(cells[i], drained_slot(cells[i]->0.slot))),
                |s: SlotModel| s.key == key,
            ),
        }
    }

    /// Whether what was written to a file was flushed: the slot is gone, and the edits
    /// that it held have to be made to the file. The file then holds what it held before,
    /// but for what was written.
    pub open spec fn flushed(
        &self,
        after: &LiveFolders,
        key: SlotKey,
        path: PathModel,
        r: ReleaseAction,
    ) -> bool {
        let edits = pending_edits(self.slots@, key);
        &&& after.slots@ == LiveFolders::emptied(self.slots@, key)
        &&& slot_at(after.slots@, key) is None
        &&& only_slot_changed(self.slots@, after.slots@, key)
        &&& after.next_ticket == self.next_ticket
        &&& match r {
            ReleaseAction::WriteFile { path: p, edits: e } => p@ == path && edits_view(e@) == edits
                && edits.len() > 0,
            ReleaseAction::Nothing => edits.len() == 0,
            _ => false,
        }
        &&& forall|bytes: Seq<u8>| #[trigger] r.file_after(bytes) == edited(bytes, edits)
    }

    /// Whether a tool was handed the input of a slot: the slot is pending and its input
    /// gone; without input nothing is done.
    pub open spec fn handed_over(
        &self,
        after: &LiveFolders,
        key: SlotKey,
        base: SlotModel,
        tool: Seq<char>,
        endpoint: Seq<char>,
        now: u64,
        r: ReleaseAction,
    ) -> bool {
        if base.write_buf.len() == 0 {
            &&& r is Nothing
            &&& found(self.slots@, after.slots@, key, base, pins_at(self.slots@, key))
            &&& after.next_ticket == self.next_ticket
        } else {
            &&& r matches ReleaseAction::Invoke { handle, tool: t, endpoint: e, input } && t@
                == tool && e@ == endpoint && input@ == base.write_buf && slot_id(after.slots@, key)
                == Some(handle.id as int) && is_pinned(after.slots@, handle)
            &&& found(
                self.slots@,
                after.slots@,
                key,
                pending_slot(drained_slot(base), self.next_ticket, now),
                one_more(pins_at(self.slots@, key)),
            )
            &&& after.next_ticket == (self.next_ticket + 1) % 0x1_0000_0000_0000_0000
        }
    }

    /// Whether the handler of an endpoint that runs when it is written to was kicked:
    /// the slot is pending; without input nothing is done.
    pub open spec fn kicked(
        &self,
        after: &LiveFolders,
        key: SlotKey,
        base: SlotModel,
        now: u64,
        r: ReleaseAction,
    ) -> bool {
        if base.write_buf.len() == 0 {
            &&& r is Nothing
            &&& found(self.slots@, after.slots@, key, base, pins_at(self.slots@, key))
            &&& after.next_ticket == self.next_ticket
        } else {
            &&& r matches ReleaseAction::Run(handle) && slot_id(after.slots@, key) == Some(
                handle.id as int,
            ) && is_pinned(after.slots@, handle)
            &&& found(
                self.slots@,
                after.slots@,
                key,
                pending_slot(base, self.next_ticket, now),
                one_more(pins_at(self.slots@, key)),
            )
            &&& after.next_ticket == (self.next_ticket + 1) % 0x1_0000_0000_0000_0000
        }
    }

    /// Whether `release` did what it should.
    pub open spec fn released(
        &self,
        after: &LiveFolders,
        ino: u64,
        key: SlotKey,
        facts: DiskFacts,
        now: u64,
        r: ReleaseAction,
    ) -> bool {
        let same = r is Nothing && after.slots@ == self.slots@ && after.next_ticket
            == self.next_ticket;
        match path_at(self.paths@, ino) {
            Some(path) => match self.declared(ino, facts.tool_manifest) {
                Some(f) => match f.kind {
                    FileKind::WriteInvoke => self.kicked(
                        after,
                        key,
                        slot_or_fresh(self.slots@, key, self.manifest_snapshot(ino, f), now),
                        now,
                        r,
                    ),
                    FileKind::ReadInvoke => same,
                    FileKind::Passthrough => self.flushed(after, key, path, r),
                    FileKind::Readonly => same,
                },
                None => if !LiveFolders::runs_as_script(facts) {
                    self.flushed(after, key, path, r)
                } else {
                    match self.script_of(ino) {
                        None => same,
                        Some(o) => self.handed_over(
                            after,
                            key,
                            slot_or_fresh(self.slots@, key, self.script_snapshot(ino), now),
                            o.0,
                            o.1,
                            now,
                            r,
                        ),
                    }
                },
            },
            None => match self.ep_index(ino) {
                None => same,
                Some((ti, ei)) => self.handed_over(
                    after,
                    key,
                    slot_or_fresh(self.slots@, key, self.builtin_snapshot(ino), now),
                    self.registry.names()[ti],
                    self.tool_at(ti).model().endpoints[ei],
                    now,
                    r,
                ),
            },
        }
    }

    /// Flushes what was written to a file.
    fn flush(&mut self, key: SlotKey, path: DiskPath) -> (r: ReleaseAction)
        requires
            old(self).wf(),
        ensures
            final(self).wf(),
            final(self).same_mount(old(self)),
            final(self).same_handles(old(self)),
            final(self).paths == old(self).paths,
            old(self).flushed(final(self), key, path@, r),
    {
        proof {
            self.slots.lemma_wf();
        }
        match self.slots.get(key) {
            None => ReleaseAction::Nothing,
            Some(h) => {
                let ghost before = self.slots@;
                let edits = self.slots.take_edits(h);
                let ghost one = self.slots@;
                proof {
                    self.slots.lemma_wf();
                    lemma_changed_only(before, h, drained_slot(held(before, h)));
                    lemma_removed_only(one, key);
                }
                self.slots.remove(key);
                proof {
                    lemma_only_trans(before, one, self.slots@, key);
                    assert(edits_view(edits@).len() == edits@.len());
                }
                if edits.len() > 0 {
                    ReleaseAction::WriteFile { path, edits }
                } else {
                    ReleaseAction::Nothing
                }
            },
        }
    }

    /// Hands the input of a slot to a tool.
    fn hand_over(
        &mut self,
        ino: u64,
        sid: i32,
        snapshot: EndpointSnapshot,
        tool: String,
        endpoint: String,
        now: u64,
    ) -> (r: ReleaseAction)
        requires
            old(self).wf(),
        ensures
            final(self).wf(),
            final(self).same_mount(old(self)),
            final(self).same_handles(old(self)),
            final(self).paths == old(self).paths,
            old(self).handed_over(
                final(self),
                (ino, sid),
                slot_or_fresh(old(self).slots@, (ino, sid), snapshot@, now),
                tool@,
                endpoint@,
                now,
                r,
            ),
    {
        let ghost key = (ino, sid);
        let ghost before = self.slots@;
        let h = self.ensure_slot(ino, sid, snapshot, now);
        let ghost one = self.slots@;
        if self.slots.slot(h).write_buf.len() == 0 {
            return ReleaseAction::Nothing;
        }
        proof {
            self.slots.lemma_wf();
            lemma_changed_only(one, h, drained_slot(held(one, h)));
        }
        let input = self.slots.take_input(h);
        let ghost two = self.slots@;
        let ticket: u64 = self.start(h, now);
        proof {
            lemma_only_trans(before, one, two, key);
            lemma_only_trans(before, two, self.slots@, key);
        }
        ReleaseAction::Invoke { handle: h, tool, endpoint, input }
    }

    /// Closes a file. What was written to it is handed on: to the handler of an
    /// endpoint, to a tool, or to the file on disk.
    pub fn release(
        &mut self,
        ino: u64,
        fh: u64,
        caller: Option<i32>,
        facts: &DiskFacts,
        now: u64,
    ) -> (r: ReleaseAction)
        requires
            old(self).wf(),
        ensures
            final(self).wf(),
            final(self).same_mount(old(self)),
            final(self).paths == old(self).paths,
            final(self).next_fh == old(self).next_fh,
            final(self).fh_to_sid@ == (if fh != 0 {
                old(self).fh_to_sid@.remove(fh)
            } else {
                old(self).fh_to_sid@
            }),
            old(self).released(
                final(self),
                ino,
                old(self).key_of(ino, fh, caller),
                *facts,
                now,
                r,
            ),
    {
        let sid: i32 = self.resolve_sid(fh, caller);
        self.drop_fh(fh);
        if let Some(p) = self.paths.path_for_ino(ino) {
            let path = p.copy();
            if let Some((tool, file, f)) = self.file_spec_for_ino(ino, &facts.tool_manifest) {
                return match f.kind {
                    FileKind::WriteInvoke => {
                        let snapshot = self.snapshot_for(tool, file, f, ino);
                        let ghost key = (ino, sid);
                        let ghost before = self.slots@;
                        let h = self.ensure_slot(ino, sid, snapshot, now);
                        let ghost one = self.slots@;
                        if self.slots.slot(h).write_buf.len() == 0 {
                            return ReleaseAction::Nothing;
                        }
                        let ticket: u64 = self.start(h, now);
                        proof {
                            lemma_only_trans(before, one, self.slots@, key);
                        }
                        ReleaseAction::Run(h)
                    },
                    FileKind::ReadInvoke => ReleaseAction::Nothing,
                    FileKind::Passthrough => self.flush((ino, sid), path),
                    FileKind::Readonly => ReleaseAction::Nothing,
                };
            }
            let is_exec: bool = match facts.meta {
                Some(m) => m.mode & 0o111 != 0,
                None => false,
            };
            if !is_exec {
                return self.flush((ino, sid), path);
            }
            return match self.script_owner(ino) {
                None => ReleaseAction::Nothing,
                Some((tool, file)) => {
                    let snapshot = self.snapshot_beside(&tool, &file, &path);
                    self.hand_over(ino, sid, snapshot, tool, file, now)
                },
            };
        }
        match self.ep_index_for_ino(ino) {
            None => ReleaseAction::Nothing,
            Some((ti, ei)) => {
                let (tool, file) = self.builtin_names(ti, ei);
                let cwd = self.cwd_of(&tool);
                let snapshot = self.synth_snapshot(&tool, &file, cwd);
                self.hand_over(ino, sid, snapshot, tool, file, now)
            },
        }
    }

    /// Takes the input of a slot for an invocation, with the snapshot that it runs
    /// against.
    pub fn begin_invocation(&mut self, h: SlotHandle) -> (r: (EndpointSnapshot, Vec<u8>))
        requires
            old(self).wf(),
            is_pinned(old(self).slots@, h),
        ensures
            final(self).wf(),
            final(self).same_mount(old(self)),
            final(self).same_handles(old(self)),
            final(self).paths == old(self).paths,
            final(self).next_ticket == old(self).next_ticket,
            r.0@ == held(old(self).slots@, h).snapshot,
            r.1@ == held(old(self).slots@, h).write_buf,
            final(self).slots@ == changed(
                old(self).slots@,
                h,
                drained_slot(held(old(self).slots@, h)),
            ),
            is_pinned(final(self).slots@, h),
    {
        let snapshot = self.slots.slot(h).snapshot.copy();
        let input = self.slots.take_input(h);
        (snapshot, input)
    }

    /// Decides what a tool does with an input that it was handed. `manifest` is what the
    /// tool's directory declares. The tool may change the state that the tools share.
    pub fn invoke_tool(
        &mut self,
        tool: &str,
        endpoint: &str,
        input: &[u8],
        manifest: Option<&Manifest>,
    ) -> (r: Option<Invocation>)
        requires
            old(self).wf(),
        ensures
            final(self).wf(),
            final(self).registry == old(self).registry,
            final(self).slots == old(self).slots,
            final(self).paths == old(self).paths,
            final(self).same_handles(old(self)),
            final(self).same_settings(old(self)),
            final(self).manifest_version == old(self).manifest_version,
            final(self).next_ticket == old(self).next_ticket,
            r is Some <==> old(self).registry@.contains_key(tool@),
            match r {
                None => final(self).sessions == old(self).sessions,
                Some(i) => {
                    let t = old(self).registry@[tool@].tool;
                    &&& t.answers(endpoint@, input@, manifest, i)
                    &&& final(self).sessions@ == t.updates(
                        endpoint@,
                        input@,
                        old(self).session,
                        old(self).sessions@,
                    )
                },
            },
    {
        match self.registry.get(tool) {
            None => None,
            Some(t) => Some(t.invoke(endpoint, input, self.session, &mut self.sessions, manifest)),
        }
    }

    /// Stores the result of an invocation in its slot, and gives up the slot. The
    /// answer is the ticket to be called.
    pub fn commit_result(&mut self, h: SlotHandle, result: ToolResult, now: u64) -> (r: Option<u64>)
        requires
            old(self).wf(),
            is_pinned(old(self).slots@, h),
        ensures
            final(self).wf(),
            final(self).same_mount(old(self)),
            final(self).same_handles(old(self)),
            final(self).paths == old(self).paths,
            final(self).next_ticket == old(self).next_ticket,
            ({
                let done = changed(
                    old(self).slots@,
                    h,
                    committed_slot(
                        held(old(self).slots@, h),
                        result_bytes(result),
                        result_trace(result),
                        now,
                    ),
                );
                final(self).slots@ == done.update(h.id as int, unpinned(done[h.id as int]))
            }),
            final(self).slots@[h.id as int] matches Some(c) ==> {
                &&& result.error is None ==> c.slot.result == result.output@
                &&& result.error is Some ==> c.slot.result == encode_utf8(
                    result.error->0@ + "\n"@,
                )
                &&& c.slot.trace == encode_utf8(
                    "duration_ms: "@ + decimal(result.duration_ms as nat) + "\nexit: "@ + (
                    if result.error is Some {
                        "error"@
                    } else {
                        "ok"@
                    }) + "\nstderr: "@ + trim(utf8_lossy(result.stderr@)) + "\n"@,
                )
                &&& c.slot.state == InvocationState::Ready
            },
            r == match held(old(self).slots@, h).state {
                InvocationState::Pending(t) => Some(t),
                _ => None,
            },
    {
        let trace = format_trace(
            result.duration_ms,
            result.is_error(),
            result.stderr.as_slice(),
        );
        let bytes = match result.error {
            Some(e) => {
                let mut m = e;
                m.push_str("\n");
                bytes_of(&m)
            },
            None => result.output,
        };
        let waiting = self.slots.commit(h, bytes, trace, now);
        self.slots.unpin(h);
        waiting
    }
}

} // verus!
