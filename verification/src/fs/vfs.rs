//! The virtual file system: what a mount answers to each operation.
//!
//! A mount is a state machine. What it needs to know of the disk comes in as facts,
//! what has to be done on disk or by a handler comes out as an action.
use super::inode::tool_ino;
use super::invocation::{EndpointSnapshot, SnapshotModel};
use super::path_table::{path_at, PathModel, PathTable};
use super::slot_table::{
    held, holds, is_at, keeps_place, lemma_ensured, only_slot_changed, pins_at, slot_at, slot_id,
    slot_or_fresh, SlotHandle, SlotTable,
};
use crate::manifest::{
    all_in_order, file_named, input_view, list_view, FileKind, FileSpec, Manifest,
};
use crate::paths::{below, components, join_components, DiskPath};
use crate::registry::{Session, SessionStore, ToolHandle, ToolRegistry};
use crate::sandbox::SandboxMode;
use crate::split::views;
use crate::text::opt_view;
use super::attr::FileMeta;
use std::collections::HashMap;
use vstd::prelude::*;

verus! {

/// A mounted set of tools.
pub struct LiveFolders {
    pub registry: ToolRegistry,
    pub tools_dir: Option<DiskPath>,
    pub mount_path: String,
    /// The state that the tools share, and where it is kept.
    pub session: Session,
    pub sessions: SessionStore,
    /// Per-(inode, session) invocation state. Routes `echo` and `cat` in the same
    /// shell pipeline to the same slot; isolates pipelines from different shells.
    pub slots: SlotTable,
    /// The session of the caller of `open` by file handle. Later operations may come
    /// without a usable process id; by noting the session at open time, every
    /// operation in the lifecycle of an open file resolves to the same slot.
    pub fh_to_sid: HashMap<u64, i32>,
    /// The next file handle.
    pub next_fh: u64,
    /// The inode numbers of files on disk.
    pub paths: PathTable,
    pub timeout_secs: u64,
    pub sandbox_mode: SandboxMode,
    /// Bumped on every change of the registry. The current value is captured into the
    /// snapshot of a slot when it is made.
    pub manifest_version: u64,
    /// The next ticket under which readers wait for an invocation.
    pub next_ticket: u64,
}

/// What an operation knows of the disk.
pub struct DiskFacts {
    /// What the directory of the tool declares, where it declares something.
    pub tool_manifest: Option<Manifest>,
    /// What the directory of the file declares, where it declares something.
    pub dir_manifest: Option<Manifest>,
    /// The file, where it exists.
    pub meta: Option<FileMeta>,
    /// What the directories of all tools declare, in the order of their names.
    pub manifests: Vec<Option<Manifest>>,
}

/// The directory of a tool where there is no directory of tools.
pub open spec fn here() -> PathModel {
    components("."@)
}

impl LiveFolders {
    /// The parts of the mount are in order.
    pub open spec fn wf(&self) -> bool {
        &&& self.registry.wf()
        &&& self.sessions.wf()
        &&& self.sessions.has_session(self.session)
        &&& self.slots.wf()
        &&& self.paths.wf()
    }

    /// Whether two states of a mount differ in nothing but slots, tickets, file
    /// handles and inode numbers.
    pub open spec fn same_mount(&self, other: &LiveFolders) -> bool {
        &&& self.registry == other.registry
        &&& self.tools_dir == other.tools_dir
        &&& self.mount_path == other.mount_path
        &&& self.session == other.session
        &&& self.sessions == other.sessions
        &&& self.timeout_secs == other.timeout_secs
        &&& self.sandbox_mode == other.sandbox_mode
        &&& self.manifest_version == other.manifest_version
    }

    /// Whether two states of a mount were made with the same settings.
    pub open spec fn same_settings(&self, other: &LiveFolders) -> bool {
        &&& self.tools_dir == other.tools_dir
        &&& self.mount_path == other.mount_path
        &&& self.session == other.session
        &&& self.timeout_secs == other.timeout_secs
        &&& self.sandbox_mode == other.sandbox_mode
    }

    /// Whether two states of a mount have the same file handles.
    pub open spec fn same_handles(&self, other: &LiveFolders) -> bool {
        &&& self.fh_to_sid@ == other.fh_to_sid@
        &&& self.next_fh == other.next_fh
    }

    /// A mount of the given tools.
    pub fn new(
        registry: ToolRegistry,
        tools_dir: Option<DiskPath>,
        mount_path: String,
        session: Session,
        sessions: SessionStore,
        timeout_secs: u64,
        sandbox_mode: SandboxMode,
    ) -> (r: Self)
        requires
            registry.wf(),
            sessions.wf(),
            sessions.has_session(session),
        ensures
            r.wf(),
            r.registry == registry,
            r.tools_dir == tools_dir,
            r.mount_path == mount_path,
            r.session == session,
            r.sessions == sessions,
            r.timeout_secs == timeout_secs,
            r.sandbox_mode == sandbox_mode,
            r.slots@ == Seq::<Option<super::slot_table::CellModel>>::empty(),
            r.paths@ == Seq::<PathModel>::empty(),
            r.fh_to_sid@ == Map::<u64, i32>::empty(),
            r.next_fh == 1,
            r.manifest_version == 0,
            r.next_ticket == 0,
    {
        LiveFolders {
            registry,
            tools_dir,
            mount_path,
            session,
            sessions,
            slots: SlotTable::new(),
            fh_to_sid: HashMap::new(),
            next_fh: 1,
            paths: PathTable::new(),
            timeout_secs,
            sandbox_mode,
            manifest_version: 0,
            next_ticket: 0,
        }
    }

    /// The slots of the mount.
    pub fn slots(&self) -> (r: &SlotTable)
        ensures
            *r == self.slots,
    {
        &self.slots
    }

    /// Notes that the tools on disk changed. Slots keep their snapshot, the next slot
    /// that is made sees the new version.
    pub fn bump_manifest_version(&mut self)
        requires
            old(self).wf(),
        ensures
            final(self).wf(),
            final(self).manifest_version == (old(self).manifest_version + 1) % 0x1_0000_0000_0000_0000,
            final(self).slots@ == old(self).slots@,
            final(self).registry == old(self).registry,
            final(self).sessions == old(self).sessions,
            final(self).paths@ == old(self).paths@,
            final(self).next_ticket == old(self).next_ticket,
            final(self).same_settings(old(self)),
            final(self).same_handles(old(self)),
    {
        self.manifest_version = self.manifest_version.wrapping_add(1);
    }

    /// Drops the slots that were not used for longer than `max_idle`, and says how
    /// many there were.
    pub fn reap(&mut self, now: u64, max_idle: u64) -> (r: usize)
        requires
            old(self).wf(),
        ensures
            final(self).wf(),
            final(self).same_mount(old(self)),
            final(self).same_handles(old(self)),
            final(self).paths@ == old(self).paths@,
            final(self).next_ticket == old(self).next_ticket,
            final(self).slots@ == super::slot_table::without(
                old(self).slots@,
                |s: super::invocation::SlotModel| super::slot_table::is_stale(s, now, max_idle),
            ),
            r == super::slot_table::live_count(
                old(self).slots@,
                |s: super::invocation::SlotModel| super::slot_table::is_stale(s, now, max_idle),
            ),
    {
        self.slots.reap_idle(now, max_idle)
    }

    // -----------------------------------------------------------------------
    // Sessions and file handles
    // -----------------------------------------------------------------------

    /// The session of an operation: the one noted when its file was opened, else that
    /// of the caller, else the shared default.
    pub open spec fn session_of(&self, fh: u64, caller: Option<i32>) -> i32 {
        if fh != 0 && self.fh_to_sid@.contains_key(fh) {
            self.fh_to_sid@[fh]
        } else {
            match caller {
                Some(sid) => sid,
                None => 0,
            }
        }
    }

    /// The session of an operation.
    pub fn resolve_sid(&self, fh: u64, caller: Option<i32>) -> (r: i32)
        ensures
            r == self.session_of(fh, caller),
    {
        broadcast use vstd::std_specs::hash::group_hash_axioms;

        if fh != 0 {
            if let Some(sid) = self.fh_to_sid.get(&fh) {
                return *sid;
            }
        }
        match caller {
            Some(sid) => sid,
            None => 0,
        }
    }

    /// The file handles after one was given to a caller.
    pub open spec fn handles_with(
        handles: Map<u64, i32>,
        fh: u64,
        caller: Option<i32>,
    ) -> Map<u64, i32> {
        match caller {
            Some(sid) => handles.insert(fh, sid),
            None => handles,
        }
    }

    /// Gives out a new file handle and binds it to the session of the caller.
    pub(crate) fn alloc_fh_for(&mut self, caller: Option<i32>) -> (r: u64)
        requires
            old(self).wf(),
        ensures
            final(self).wf(),
            r == old(self).next_fh,
            final(self).next_fh == (old(self).next_fh + 1) % 0x1_0000_0000_0000_0000,
            final(self).fh_to_sid@ == LiveFolders::handles_with(old(self).fh_to_sid@, r, caller),
            final(self).same_mount(old(self)),
            final(self).slots@ == old(self).slots@,
            final(self).paths@ == old(self).paths@,
            final(self).next_ticket == old(self).next_ticket,
    {
        broadcast use vstd::std_specs::hash::group_hash_axioms;

        let fh: u64 = self.next_fh;
        self.next_fh = self.next_fh.wrapping_add(1);
        if let Some(sid) = caller {
            self.fh_to_sid.insert(fh, sid);
        }
        fh
    }

    /// Forgets the session of a file handle.
    pub(crate) fn drop_fh(&mut self, fh: u64)
        requires
            old(self).wf(),
        ensures
            final(self).wf(),
            final(self).fh_to_sid@ == (if fh != 0 {
                old(self).fh_to_sid@.remove(fh)
            } else {
                old(self).fh_to_sid@
            }),
            final(self).next_fh == old(self).next_fh,
            final(self).same_mount(old(self)),
            final(self).slots == old(self).slots,
            final(self).paths == old(self).paths,
            final(self).next_ticket == old(self).next_ticket,
    {
        broadcast use vstd::std_specs::hash::group_hash_axioms;

        if fh != 0 {
            self.fh_to_sid.remove(&fh);
        }
    }

    // -----------------------------------------------------------------------
    // What an inode stands for
    // -----------------------------------------------------------------------

    /// The tool whose inodes an inode lies among.
    pub open spec fn tool_index(&self, ino: u64) -> Option<int> {
        if 1000 <= ino < 100_000 && (ino - 1000) / 100 < self.registry.names().len() {
            Some((ino - 1000) / 100)
        } else {
            None
        }
    }

    /// The tool of a place in the order of the names.
    pub open spec fn tool_at(&self, idx: int) -> ToolHandle {
        self.registry@[self.registry.names()[idx]]
    }

    /// The endpoint of a built-in tool that an inode stands for.
    pub open spec fn ep_index(&self, ino: u64) -> Option<(int, int)> {
        match self.tool_index(ino) {
            None => None,
            Some(idx) => {
                let ep = ino - tool_ino(idx) - 10;
                if 0 <= ep < self.tool_at(idx).model().endpoints.len() {
                    Some((idx, ep))
                } else {
                    None
                }
            },
        }
    }

    /// The directory of a tool.
    pub open spec fn tool_cwd(&self, tool: Seq<char>) -> PathModel {
        match self.tools_dir {
            Some(d) => join_components(d@, tool),
            None => here(),
        }
    }

    /// The tool and the file in it that a file on disk belongs to.
    pub open spec fn owner(&self, ino: u64) -> Option<(Seq<char>, Seq<char>)> {
        match (self.tools_dir, path_at(self.paths@, ino)) {
            (Some(d), Some(p)) => match below(d@, p) {
                Some(rel) => if rel.len() >= 2 {
                    Some((rel[0], rel[1]))
                } else {
                    None
                },
                None => None,
            },
            _ => None,
        }
    }

    /// What the manifest of its tool declares of a file on disk. A manifest that is
    /// not in order declares nothing.
    pub open spec fn declared(&self, ino: u64, manifest: Option<Manifest>) -> Option<FileSpec> {
        match (self.owner(ino), manifest) {
            (Some(o), Some(m)) => if all_in_order(m.files@) {
                file_named(m.files@, o.1)
            } else {
                None
            },
            _ => None,
        }
    }

    /// The snapshot for a declared endpoint.
    pub open spec fn manifest_snapshot(&self, ino: u64, f: FileSpec) -> SnapshotModel {
        let (tool, file) = self.owner(ino)->0;
        let cwd = self.tool_cwd(tool);
        SnapshotModel {
            tool_name: tool,
            file_name: file,
            cwd,
            kind: f.kind,
            handler: opt_view(f.handler),
            input_schema: input_view(f.input),
            state_file: match f.state_file {
                None => None,
                Some(s) => Some(join_components(cwd, s@)),
            },
            pipe: list_view(f.pipe),
            timeout_secs: self.timeout_secs,
            manifest_version: self.manifest_version,
        }
    }

    /// The snapshot for an endpoint that no manifest declares.
    pub open spec fn plain_snapshot(
        &self,
        tool: Seq<char>,
        file: Seq<char>,
        cwd: PathModel,
    ) -> SnapshotModel {
        SnapshotModel {
            tool_name: tool,
            file_name: file,
            cwd,
            kind: FileKind::WriteInvoke,
            handler: None,
            input_schema: None,
            state_file: None,
            pipe: None,
            timeout_secs: self.timeout_secs,
            manifest_version: self.manifest_version,
        }
    }

    /// The snapshot for an endpoint of a built-in tool.
    pub open spec fn builtin_snapshot(&self, ino: u64) -> SnapshotModel {
        let (idx, ep) = self.ep_index(ino)->0;
        let name = self.registry.names()[idx];
        self.plain_snapshot(name, self.tool_at(idx).model().endpoints[ep], self.tool_cwd(name))
    }

    /// The tool whose inodes an inode lies among.
    pub fn tool_index_for_ino(&self, ino: u64) -> (r: Option<usize>)
        requires
            self.wf(),
        ensures
            match r {
                None => self.tool_index(ino) is None,
                Some(i) => self.tool_index(ino) == Some(i as int) && i < self.registry.names().len()
                    && i < 990,
            },
    {
        if ino < 1000 || ino >= 100_000 {
            return None;
        }
        let idx: usize = ((ino - 1000) / 100) as usize;
        if idx < self.registry.len() {
            Some(idx)
        } else {
            None
        }
    }

    /// The endpoint of a built-in tool that an inode stands for.
    pub fn ep_index_for_ino(&self, ino: u64) -> (r: Option<(usize, usize)>)
        requires
            self.wf(),
        ensures
            match r {
                None => self.ep_index(ino) is None,
                Some(p) => self.ep_index(ino) == Some((p.0 as int, p.1 as int)) && p.0
                    < self.registry.names().len() && p.0 < 990 && p.1 < self.tool_at(
                    p.0 as int,
                ).model().endpoints.len(),
            },
    {
        match self.tool_index_for_ino(ino) {
            None => None,
            Some(idx) => {
                let base: u64 = super::inode::tool_dir_ino(idx);
                if ino < base + 10 {
                    return None;
                }
                let ep: usize = (ino - base - 10) as usize;
                let eps = self.registry.tool_at(idx).endpoints();
                proof {
                    assert(views(eps@).len() == eps@.len());
                }
                if ep < eps.len() {
                    Some((idx, ep))
                } else {
                    None
                }
            },
        }
    }

    /// The name of the tool and of the endpoint that an inode of a built-in tool
    /// stands for.
    pub(crate) fn builtin_names(&self, idx: usize, ep: usize) -> (r: (String, String))
        requires
            self.wf(),
            idx < self.registry.names().len(),
            ep < self.tool_at(idx as int).model().endpoints.len(),
        ensures
            r.0@ == self.registry.names()[idx as int],
            r.1@ == self.tool_at(idx as int).model().endpoints[ep as int],
    {
        let eps = self.registry.tool_at(idx).endpoints();
        proof {
            assert(views(eps@).len() == eps@.len());
            assert(views(eps@)[ep as int] == eps@[ep as int]@);
        }
        (self.registry.name_at(idx).to_string(), eps[ep].clone())
    }

    /// The directory of a tool.
    pub(crate) fn cwd_of(&self, tool: &str) -> (r: DiskPath)
        ensures
            r@ == self.tool_cwd(tool@),
    {
        match &self.tools_dir {
            Some(d) => d.join(tool),
            None => DiskPath::from_text("."),
        }
    }

    /// The tool and the file in it that a file on disk belongs to.
    pub fn owner_of(&self, ino: u64) -> (r: Option<(String, String)>)
        ensures
            crate::split::pair_view(r) == self.owner(ino),
    {
        match (&self.tools_dir, self.paths.path_for_ino(ino)) {
            (Some(d), Some(p)) => {
                match p.relative_to(d) {
                    None => None,
                    Some(rel) => {
                        proof {
                            assert(views(rel@).len() == rel@.len());
                        }
                        if rel.len() >= 2 {
                            proof {
                                assert(views(rel@)[0] == rel@[0]@);
                                assert(views(rel@)[1] == rel@[1]@);
                            }
                            Some((rel[0].clone(), rel[1].clone()))
                        } else {
                            None
                        }
                    },
                }
            },
            _ => None,
        }
    }

    /// What the manifest of its tool declares of a file on disk, with the names of
    /// the tool and of the file.
    pub fn file_spec_for_ino<'a>(&self, ino: u64, manifest: &'a Option<Manifest>) -> (r: Option<
        (String, String, &'a FileSpec),
    >)
        ensures
            match r {
                None => self.declared(ino, *manifest) is None,
                Some(t) => self.declared(ino, *manifest) == Some(*t.2) && self.owner(ino) == Some(
                    (t.0@, t.1@),
                ),
            },
    {
        match (self.owner_of(ino), manifest) {
            (Some((tool, file)), Some(m)) => {
                if m.validate().is_err() {
                    return None;
                }
                match m.spec_for(&file) {
                    None => None,
                    Some(f) => Some((tool, file, f)),
                }
            },
            _ => None,
        }
    }

    /// The snapshot for a declared endpoint.
    pub(crate) fn snapshot_for(&self, tool: String, file: String, f: &FileSpec, ino: u64) -> (r:
        EndpointSnapshot)
        requires
            self.owner(ino) == Some((tool@, file@)),
        ensures
            r@ == self.manifest_snapshot(ino, *f),
    {
        let cwd = self.cwd_of(&tool);
        let state_file = match &f.state_file {
            None => None,
            Some(s) => Some(cwd.join(s)),
        };
        EndpointSnapshot {
            tool_name: tool,
            file_name: file,
            cwd,
            kind: f.kind,
            handler: f.handler.clone(),
            input_schema: crate::manifest::copy_input(&f.input),
            state_file,
            pipe: crate::manifest::copy_list(&f.pipe),
            timeout_secs: self.timeout_secs,
            manifest_version: self.manifest_version,
        }
    }

    /// The snapshot for an endpoint that no manifest declares.
    pub(crate) fn synth_snapshot(&self, tool: &str, file: &str, cwd: DiskPath) -> (r: EndpointSnapshot)
        ensures
            r@ == self.plain_snapshot(tool@, file@, cwd@),
    {
        EndpointSnapshot {
            tool_name: tool.to_string(),
            file_name: file.to_string(),
            cwd,
            kind: FileKind::WriteInvoke,
            handler: None,
            input_schema: None,
            state_file: None,
            pipe: None,
            timeout_secs: self.timeout_secs,
            manifest_version: self.manifest_version,
        }
    }

    /// Finds the slot of a key or makes one.
    pub(crate) fn ensure_slot(&mut self, ino: u64, sid: i32, snapshot: EndpointSnapshot, now: u64) -> (h:
        SlotHandle)
        requires
            old(self).wf(),
        ensures
            final(self).wf(),
            final(self).same_mount(old(self)),
            final(self).same_handles(old(self)),
            final(self).paths == old(self).paths,
            final(self).next_ticket == old(self).next_ticket,
            is_at(final(self).slots@, (ino, sid), h.id as int),
            slot_id(final(self).slots@, (ino, sid)) == Some(h.id as int),
            holds(final(self).slots@, h),
            held(final(self).slots@, h) == slot_or_fresh(
                old(self).slots@,
                (ino, sid),
                snapshot@,
                now,
            ),
            slot_at(final(self).slots@, (ino, sid)) == Some(
                slot_or_fresh(old(self).slots@, (ino, sid), snapshot@, now),
            ),
            pins_at(final(self).slots@, (ino, sid)) == pins_at(old(self).slots@, (ino, sid)),
            keeps_place(old(self).slots@, final(self).slots@, (ino, sid)),
            only_slot_changed(old(self).slots@, final(self).slots@, (ino, sid)),
    {
        let ghost model = snapshot@;
        let h = self.slots.get_or_create((ino, sid), snapshot, now);
        proof {
            old(self).slots.lemma_wf();
            lemma_ensured(old(self).slots@, self.slots@, (ino, sid), h, model, now);
        }
        h
    }
}

} // verus!
