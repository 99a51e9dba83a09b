//! Making, removing, renaming and listing files and directories.
use super::attr::{dir_attr, directory, file_attr, regular, EntryKind, Errno, FileAttr};
use super::inode::{
    tool_ino, ROOT_CREATE_TOOL_INO, ROOT_HOW_TO_INO, ROOT_INDEX_INO, ROOT_INO,
    ROOT_SYSTEM_PROMPT_INO, TOOLS_DIR_INO,
};
use super::invocation::SlotModel;
use super::lookup::declared_endpoint;
use super::path_table::{
    lemma_with_paths, number_of, numbers_are_stable, path_at, with_path, with_paths, PathModel,
};
use super::slot_table::without;
use super::vfs::{DiskFacts, LiveFolders};
use crate::manifest::{invokes, FileSpec, Manifest};
use crate::paths::{join_components, DiskPath};
use crate::registry::ToolHandle;
use crate::split::views;
use crate::text::same;
use crate::tools::external::opt_str;
use vstd::prelude::*;

verus! {

/// What has to be done on disk for `mkdir`.
#[derive(Debug)]
pub enum MkdirPlan {
    Denied(Errno),
    /// Make the directory of a new tool.
    Tool(DiskPath),
    /// Make a directory of a tool.
    Sub(DiskPath),
}

/// What has to be done on disk for `rmdir`.
#[derive(Debug)]
pub enum RmdirPlan {
    Denied(Errno),
    /// Remove the directory of a tool.
    Tool(DiskPath),
    /// Remove a directory of a tool.
    Sub(DiskPath),
}

/// What has to be done on disk for `unlink`.
#[derive(Debug)]
pub enum UnlinkPlan {
    Denied(Errno),
    /// Nothing: an endpoint has no file, what it buffered is gone.
    Cleared,
    /// Remove the file.
    Remove(DiskPath),
}

/// A file that a directory on disk holds.
#[derive(Debug)]
pub struct DirItem {
    pub name: String,
    pub is_dir: bool,
}

/// What a listing knows of a directory on disk.
pub struct DirFacts {
    /// Whether the directory exists.
    pub is_dir: bool,
    /// What it holds.
    pub items: Vec<DirItem>,
    /// What it declares, where it declares something.
    pub manifest: Option<Manifest>,
}

/// An entry of a listing.
#[derive(Debug)]
pub struct DirEntry {
    pub ino: u64,
    pub kind: EntryKind,
    pub name: String,
}

/// What an entry of a listing says.
pub struct EntryModel {
    pub ino: int,
    pub kind: EntryKind,
    pub name: Seq<char>,
}

impl View for DirEntry {
    type V = EntryModel;

    open spec fn view(&self) -> EntryModel {
        EntryModel { ino: self.ino as int, kind: self.kind, name: self.name@ }
    }
}

/// A name in a directory on disk.
pub type NamedKind = (Seq<char>, EntryKind);

/// What the entries of a listing say.
pub open spec fn entries_view(v: Seq<DirEntry>) -> Seq<EntryModel> {
    v.map_values(|e: DirEntry| e@)
}

/// The kind of a file.
pub open spec fn kind_of(is_dir: bool) -> EntryKind {
    if is_dir {
        EntryKind::Directory
    } else {
        EntryKind::RegularFile
    }
}

/// The names that a directory on disk holds.
pub open spec fn listed(items: Seq<DirItem>) -> Seq<NamedKind> {
    items.map_values(|i: DirItem| (i.name@, kind_of(i.is_dir)))
}

/// Whether a listing already has a name.
pub open spec fn has_name(l: Seq<NamedKind>, n: Seq<char>) -> bool {
    n == "."@ || n == ".."@ || exists|i: int| 0 <= i < l.len() && (#[trigger] l[i]).0 == n
}

/// A listing with a name that it may lack.
pub open spec fn add_missing(l: Seq<NamedKind>, n: Seq<char>) -> Seq<NamedKind> {
    if has_name(l, n) {
        l
    } else {
        l.push((n, EntryKind::RegularFile))
    }
}

/// A listing with a declared file, and the log of one that runs something.
pub open spec fn add_declared(l: Seq<NamedKind>, f: FileSpec) -> Seq<NamedKind> {
    let with_file = add_missing(l, f.name@);
    if invokes(f.kind) {
        add_missing(with_file, f.name@ + ".log"@)
    } else {
        with_file
    }
}

/// A listing with all declared files and their logs.
pub open spec fn add_all_declared(l: Seq<NamedKind>, files: Seq<FileSpec>) -> Seq<NamedKind>
    decreases files.len(),
{
    if files.len() == 0 {
        l
    } else {
        add_declared(add_all_declared(l, files.drop_last()), files.last())
    }
}

/// The names in the directory of a tool: what is on disk, and, where the tool has a
/// manifest, its descriptions, the declared files and their logs.
pub open spec fn tool_listing(items: Seq<DirItem>, manifest: Option<Manifest>) -> Seq<NamedKind> {
    match manifest {
        None => listed(items),
        Some(m) => add_all_declared(
            add_missing(
                add_missing(add_missing(listed(items), "how_to.md"@), "schema.json"@),
                "anthropic_tools.json"@,
            ),
            m.files@,
        ),
    }
}

/// The paths of the names in a directory.
pub open spec fn child_paths(dir: PathModel, names: Seq<NamedKind>) -> Seq<PathModel> {
    names.map_values(|n: NamedKind| join_components(dir, n.0))
}

/// The entries that every listing begins with.
pub open spec fn dots(ino: int) -> Seq<EntryModel> {
    seq![
        EntryModel { ino, kind: EntryKind::Directory, name: "."@ },
        EntryModel { ino: ROOT_INO as int, kind: EntryKind::Directory, name: ".."@ },
    ]
}

/// The entries for the names in a directory on disk.
pub open spec fn disk_entries(
    paths: Seq<PathModel>,
    dir: PathModel,
    names: Seq<NamedKind>,
) -> Seq<EntryModel> {
    names.map_values(
        |n: NamedKind|
            EntryModel {
                ino: number_of(paths, join_components(dir, n.0)),
                kind: n.1,
                name: n.0,
            },
    )
}

/// What an inode is to a listing.
pub enum DirTarget {
    /// A directory of the mount itself, with these entries.
    Fixed(Seq<EntryModel>),
    /// A directory on disk, with these names.
    OnDisk(PathModel, Seq<NamedKind>),
    /// No directory.
    NotDirectory,
    Missing,
}

/// The entries in the root of the mount.
pub open spec fn root_entries() -> Seq<EntryModel> {
    seq![
        EntryModel {
            ino: ROOT_HOW_TO_INO as int,
            kind: EntryKind::RegularFile,
            name: "how_to.md"@,
        },
        EntryModel {
            ino: ROOT_CREATE_TOOL_INO as int,
            kind: EntryKind::RegularFile,
            name: "create_tool.md"@,
        },
        EntryModel {
            ino: ROOT_SYSTEM_PROMPT_INO as int,
            kind: EntryKind::RegularFile,
            name: "system_prompt.md"@,
        },
        EntryModel { ino: ROOT_INDEX_INO as int, kind: EntryKind::RegularFile, name: "index.md"@ },
        EntryModel { ino: TOOLS_DIR_INO as int, kind: EntryKind::Directory, name: "tools"@ },
    ]
}

proof fn lemma_add_missing_len(l: Seq<NamedKind>, n: Seq<char>)
    ensures
        add_missing(l, n).len() <= l.len() + 1,
{
}

proof fn lemma_declared_len(l: Seq<NamedKind>, files: Seq<FileSpec>)
    ensures
        add_all_declared(l, files).len() <= l.len() + 2 * files.len(),
    decreases files.len(),
{
    if files.len() > 0 {
        lemma_declared_len(l, files.drop_last());
        let rest = add_all_declared(l, files.drop_last());
        lemma_add_missing_len(rest, files.last().name@);
        lemma_add_missing_len(
            add_missing(rest, files.last().name@),
            files.last().name@ + ".log"@,
        );
    }
}

/// How many names a listing of a tool has at most.
pub open spec fn listing_bound(facts: DirFacts) -> nat {
    facts.items@.len() + 3 + 2 * (match facts.manifest {
        None => 0nat,
        Some(m) => m.files@.len(),
    })
}

proof fn lemma_listing_len(facts: DirFacts)
    ensures
        tool_listing(facts.items@, facts.manifest).len() <= listing_bound(facts),
        listed(facts.items@).len() <= listing_bound(facts),
{
    if let Some(m) = facts.manifest {
        let l = listed(facts.items@);
        lemma_declared_len(
            add_missing(
                add_missing(add_missing(l, "how_to.md"@), "schema.json"@),
                "anthropic_tools.json"@,
            ),
            m.files@,
        );
    }
}

/// Names and kinds as they are kept while a listing is made.
type NameList = Vec<(String, EntryKind)>;

/// What a list of names and kinds says.
pub open spec fn names_view(v: Seq<(String, EntryKind)>) -> Seq<NamedKind> {
    v.map_values(|n: (String, EntryKind)| (n.0@, n.1))
}

/// Adds a name to a listing that may lack it.
fn push_missing(l: &mut NameList, n: &str)
    ensures
        names_view(final(l)@) == add_missing(names_view(old(l)@), n@),
{
    let ghost before = names_view(l@);
    if same(n, ".") || same(n, "..") {
        return;
    }
    let mut i: usize = 0;
    while i < l.len()
        invariant
            i <= l@.len(),
            before == names_view(l@),
            *l == *old(l),
            n@ != "."@,
            n@ != ".."@,
            forall|j: int| 0 <= j < i ==> (#[trigger] before[j]).0 != n@,
        decreases l@.len() - i,
    {
        proof {
            assert(before[i as int] == (l@[i as int].0@, l@[i as int].1));
        }
        if same(&l[i].0, n) {
            return;
        }
        i = i + 1;
    }
    l.push((n.to_string(), EntryKind::RegularFile));
    proof {
        assert(names_view(l@) =~= before.push((n@, EntryKind::RegularFile)));
    }
}

/// The names that a directory on disk holds.
fn listed_names(items: &Vec<DirItem>) -> (r: NameList)
    ensures
        names_view(r@) == listed(items@),
{
    let mut out: NameList = Vec::new();
    let mut i: usize = 0;
    while i < items.len()
        invariant
            i <= items@.len(),
            out@.len() == i,
            forall|k: int|
                0 <= k < i ==> (#[trigger] out@[k]).0@ == items@[k].name@ && out@[k].1 == kind_of(
                    items@[k].is_dir,
                ),
        decreases items@.len() - i,
    {
        let kind = if items[i].is_dir {
            EntryKind::Directory
        } else {
            EntryKind::RegularFile
        };
        out.push((items[i].name.clone(), kind));
        i = i + 1;
    }
    proof {
        assert(names_view(out@) =~= listed(items@));
    }
    out
}

/// The names in the directory of a tool.
fn tool_names(facts: &DirFacts) -> (r: NameList)
    ensures
        names_view(r@) == tool_listing(facts.items@, facts.manifest),
{
    let mut out = listed_names(&facts.items);
    if let Some(m) = &facts.manifest {
        push_missing(&mut out, "how_to.md");
        push_missing(&mut out, "schema.json");
        push_missing(&mut out, "anthropic_tools.json");
        let ghost base = names_view(out@);
        let mut i: usize = 0;
        proof {
            assert(m.files@.take(0) =~= seq![]);
        }
        while i < m.files.len()
            invariant
                i <= m.files@.len(),
                names_view(out@) == add_all_declared(base, m.files@.take(i as int)),
            decreases m.files@.len() - i,
        {
            let f = &m.files[i];
            proof {
                assert(m.files@.take(i + 1).drop_last() =~= m.files@.take(i as int));
                assert(m.files@.take(i + 1).last() == *f);
            }
            push_missing(&mut out, &f.name);
            if f.kind.runs_handler() {
                let mut log = f.name.clone();
                log.push_str(".log");
                push_missing(&mut out, &log);
            }
            i = i + 1;
        }
        proof {
            assert(m.files@.take(m.files@.len() as int) =~= m.files@);
        }
    }
    out
}

/// An entry of a listing, with the offset from which the listing goes on behind it.
#[derive(Debug)]
pub struct PageEntry {
    pub next: i64,
    pub entry: DirEntry,
}

/// What the entries of a page say.
pub open spec fn page_view(v: Seq<PageEntry>) -> Seq<(int, EntryModel)> {
    v.map_values(|e: PageEntry| (e.next as int, e.entry@))
}

/// The page of a listing from an offset on: its entries without those before the offset,
/// each with the offset behind it.
pub open spec fn page_of(entries: Seq<EntryModel>, offset: int) -> Seq<(int, EntryModel)> {
    let all = Seq::new(entries.len(), |i: int| (i + 1, entries[i]));
    if 0 <= offset <= all.len() {
        all.skip(offset)
    } else {
        seq![]
    }
}

/// The page of a listing from an offset on.
pub fn page(entries: &Vec<DirEntry>, offset: i64) -> (r: Vec<PageEntry>)
    requires
        entries@.len() < i64::MAX,
    ensures
        page_view(r@) == page_of(entries_view(entries@), offset as int),
{
    let ghost all = entries_view(entries@);
    let len: usize = entries.len();
    let start: usize = if offset < 0 || offset as u64 > len as u64 {
        len
    } else {
        offset as usize
    };
    let mut out: Vec<PageEntry> = Vec::new();
    let mut i: usize = start;
    while i < len
        invariant
            start <= i <= len,
            len == entries@.len(),
            len < i64::MAX,
            all == entries_view(entries@),
            out@.len() == i - start,
            forall|k: int|
                0 <= k < out@.len() ==> (#[trigger] out@[k]).next == start + k + 1
                    && out@[k].entry@ == all[start + k],
        decreases len - i,
    {
        let e = &entries[i];
        out.push(
            PageEntry {
                next: i as i64 + 1,
                entry: DirEntry { ino: e.ino, kind: e.kind, name: e.name.clone() },
            },
        );
        i = i + 1;
    }
    proof {
        assert(page_view(out@) =~= page_of(all, offset as int));
    }
    out
}

impl LiveFolders {
    /// The directory on disk behind an inode: that of a tool, or one in it.
    pub open spec fn dir_of(&self, ino: u64) -> Option<PathModel> {
        match path_at(self.paths@, ino) {
            Some(p) => Some(p),
            None => match (self.tools_dir, self.tool_index(ino)) {
                (Some(d), Some(idx)) => Some(join_components(d@, self.registry.names()[idx])),
                _ => None,
            },
        }
    }

    /// The directory on disk behind an inode.
    pub fn dir_path(&self, ino: u64) -> (r: Option<DiskPath>)
        requires
            self.wf(),
        ensures
            match r {
                None => self.dir_of(ino) is None,
                Some(p) => self.dir_of(ino) == Some(p@),
            },
    {
        if let Some(p) = self.paths.path_for_ino(ino) {
            return Some(p.copy());
        }
        match (&self.tools_dir, self.tool_index_for_ino(ino)) {
            (Some(d), Some(idx)) => Some(d.join(self.registry.name_at(idx))),
            _ => None,
        }
    }

    /// The file of a name in a directory.
    pub open spec fn child_of(&self, parent: u64, name: Seq<char>) -> Option<PathModel> {
        match self.dir_of(parent) {
            None => None,
            Some(d) => Some(join_components(d, name)),
        }
    }

    /// The file of a name in a directory.
    pub fn child_path(&self, parent: u64, name: &str) -> (r: Option<DiskPath>)
        requires
            self.wf(),
        ensures
            match r {
                None => self.child_of(parent, name@) is None,
                Some(p) => self.child_of(parent, name@) == Some(p@),
            },
    {
        match self.dir_path(parent) {
            None => None,
            Some(d) => Some(d.join(name)),
        }
    }

    /// The file that `create` has to make.
    pub fn create(&self, parent: u64, name: &str) -> (r: Result<DiskPath, Errno>)
        requires
            self.wf(),
        ensures
            match r {
                Ok(p) => self.child_of(parent, name@) == Some(p@),
                Err(e) => self.child_of(parent, name@) is None && e == Errno::Access,
            },
    {
        match self.child_path(parent, name) {
            Some(p) => Ok(p),
            None => Err(Errno::Access),
        }
    }

    /// Takes in a file that was made.
    pub fn created(&mut self, path: &DiskPath) -> (r: FileAttr)
        requires
            old(self).wf(),
            old(self).paths.room(1),
        ensures
            final(self).wf(),
            final(self).same_mount(old(self)),
            final(self).same_handles(old(self)),
            final(self).slots == old(self).slots,
            final(self).paths@ == with_path(old(self).paths@, path@),
            final(self).next_ticket == old(self).next_ticket,
            r == regular(number_of(final(self).paths@, path@), 0, 0o644),
    {
        let ino: u64 = self.paths.ino_for_path(path);
        file_attr(ino, 0, 0o644)
    }

    /// Decides what `mkdir` makes: a directory in the directory of tools is a new tool,
    /// one in a directory on disk is part of its tool.
    pub fn mkdir(&self, parent: u64, name: &str) -> (r: MkdirPlan)
        ensures
            match r {
                MkdirPlan::Tool(p) => parent == TOOLS_DIR_INO && self.tools_dir is Some && p@
                    == join_components(self.tools_dir->0@, name@),
                MkdirPlan::Sub(p) => parent != TOOLS_DIR_INO && path_at(self.paths@, parent) is Some
                    && p@ == join_components(path_at(self.paths@, parent)->0, name@),
                MkdirPlan::Denied(e) => e == Errno::Access && if parent == TOOLS_DIR_INO {
                    self.tools_dir is None
                } else {
                    path_at(self.paths@, parent) is None
                },
            },
    {
        if parent == TOOLS_DIR_INO {
            return match &self.tools_dir {
                None => MkdirPlan::Denied(Errno::Access),
                Some(d) => MkdirPlan::Tool(d.join(name)),
            };
        }
        match self.paths.path_for_ino(parent) {
            None => MkdirPlan::Denied(Errno::Access),
            Some(p) => MkdirPlan::Sub(p.join(name)),
        }
    }

    /// Takes in the directory of a new tool: the tool is registered at once, unless
    /// there is one of that name, and its directory has the inode of a tool directory.
    pub fn made_tool(&mut self, name: &str, tool: ToolHandle) -> (r: FileAttr)
        requires
            old(self).wf(),
            old(self).registry.names().len() < 0xffff_ffff,
            tool.model().name == name@,
        ensures
            final(self).wf(),
            final(self).registry@ == (if old(self).registry@.contains_key(name@) {
                old(self).registry@
            } else {
                old(self).registry@.insert(name@, tool)
            }),
            final(self).slots == old(self).slots,
            final(self).paths == old(self).paths,
            final(self).sessions == old(self).sessions,
            final(self).manifest_version == old(self).manifest_version,
            final(self).next_ticket == old(self).next_ticket,
            final(self).same_settings(old(self)),
            final(self).same_handles(old(self)),
            final(self).registry.names().contains(name@),
            r == directory(tool_ino(final(self).registry.names().index_of(name@))),
    {
        if self.registry.get(name).is_none() {
            let ghost names = self.registry.names();
            self.registry.register(tool);
            proof {
                old(self).registry.lemma_names();
                self.registry.lemma_names();
                crate::order::lemma_one_more(names, self.registry.names(), name@);
            }
        }
        proof {
            self.registry.lemma_names();
        }
        match self.registry.position(name) {
            Some(idx) => {
                proof {
                    crate::order::lemma_ascending_index(self.registry.names(), idx as int);
                }
                dir_attr(super::inode::tool_dir_ino(idx))
            },
            None => dir_attr(super::inode::tool_dir_ino(0)),
        }
    }

    /// Takes in a directory that was made in a tool.
    pub fn made_dir(&mut self, path: &DiskPath) -> (r: FileAttr)
        requires
            old(self).wf(),
            old(self).paths.room(1),
        ensures
            final(self).wf(),
            final(self).same_mount(old(self)),
            final(self).same_handles(old(self)),
            final(self).slots == old(self).slots,
            final(self).paths@ == with_path(old(self).paths@, path@),
            final(self).next_ticket == old(self).next_ticket,
            r == directory(number_of(final(self).paths@, path@)),
    {
        let ino: u64 = self.paths.ino_for_path(path);
        dir_attr(ino)
    }

    /// Decides what `rmdir` removes.
    pub fn rmdir(&self, parent: u64, name: &str) -> (r: RmdirPlan)
        requires
            self.wf(),
        ensures
            match r {
                RmdirPlan::Tool(p) => parent == TOOLS_DIR_INO && self.tools_dir is Some && p@
                    == join_components(self.tools_dir->0@, name@),
                RmdirPlan::Sub(p) => parent != TOOLS_DIR_INO && self.child_of(parent, name@) == Some(
                    p@,
                ),
                RmdirPlan::Denied(e) => e == Errno::Access && if parent == TOOLS_DIR_INO {
                    self.tools_dir is None
                } else {
                    self.child_of(parent, name@) is None
                },
            },
    {
        if parent == TOOLS_DIR_INO {
            return match &self.tools_dir {
                None => RmdirPlan::Denied(Errno::Access),
                Some(d) => RmdirPlan::Tool(d.join(name)),
            };
        }
        match self.child_path(parent, name) {
            None => RmdirPlan::Denied(Errno::Access),
            Some(p) => RmdirPlan::Sub(p),
        }
    }

    /// Takes in that the directory of a tool was removed.
    pub fn removed_tool(&mut self, name: &str)
        requires
            old(self).wf(),
        ensures
            final(self).wf(),
            final(self).registry@ == old(self).registry@.remove(name@),
            final(self).slots == old(self).slots,
            final(self).paths == old(self).paths,
            final(self).sessions == old(self).sessions,
            final(self).manifest_version == old(self).manifest_version,
            final(self).next_ticket == old(self).next_ticket,
            final(self).same_settings(old(self)),
            final(self).same_handles(old(self)),
    {
        self.registry.unregister(name);
    }

    /// Whether `unlink` of a name clears an endpoint, which has no file on disk.
    pub open spec fn clears_endpoint(
        &self,
        parent: u64,
        name: Seq<char>,
        facts: DiskFacts,
    ) -> bool {
        &&& facts.meta is None
        &&& self.dir_of(parent) matches Some(d) && self.tool_of_dir(d) is Some
        &&& declared_endpoint(facts.tool_manifest, name) is Some
    }

    /// Decides what `unlink` removes. What was buffered for an endpoint is dropped, for
    /// all sessions.
    pub fn unlink(&mut self, parent: u64, name: Option<&str>, facts: &DiskFacts) -> (r: UnlinkPlan)
        requires
            old(self).wf(),
            old(self).paths.room(0),
        ensures
            final(self).wf(),
            final(self).same_mount(old(self)),
            final(self).same_handles(old(self)),
            final(self).paths == old(self).paths,
            final(self).next_ticket == old(self).next_ticket,
            ({
                let text = match opt_str(name) {
                    None => ""@,
                    Some(n) => n,
                };
                match old(self).child_of(parent, text) {
                    None => r == UnlinkPlan::Denied(Errno::Access) && final(self).slots == old(
                        self,
                    ).slots,
                    Some(path) => if old(self).clears_endpoint(parent, text, *facts) {
                        &&& r is Cleared
                        &&& final(self).slots@ == (if old(self).paths@.contains(path) {
                            let ino = number_of(old(self).paths@, path);
                            without(old(self).slots@, |s: SlotModel| s.key.0 == ino)
                        } else {
                            old(self).slots@
                        })
                    } else {
                        r matches UnlinkPlan::Remove(p) && p@ == path && final(self).slots == old(
                            self,
                        ).slots
                    },
                }
            }),
    {
        let text = match name {
            None => "",
            Some(n) => n,
        };
        match self.dir_path(parent) {
            None => UnlinkPlan::Denied(Errno::Access),
            Some(dir) => {
                let path = dir.join(text);
                if facts.meta.is_none() && self.tool_of_directory(&dir).is_some()
                    && super::lookup::is_declared_endpoint(&facts.tool_manifest, text) {
                    if let Some(ino) = self.paths.find(&path) {
                        self.slots.remove_all_for_ino(ino);
                        proof {
                            let n = number_of(old(self).paths@, path@);
                            assert((|s: SlotModel| s.key.0 == ino) =~= (|s: SlotModel|
                                s.key.0 == n));
                        }
                    }
                    return UnlinkPlan::Cleared;
                }
                UnlinkPlan::Remove(path)
            },
        }
    }

    /// The files that `rename` moves from and to.
    pub fn rename(&self, parent: u64, name: &str, new_parent: u64, new_name: &str) -> (r: Result<
        (DiskPath, DiskPath),
        Errno,
    >)
        requires
            self.wf(),
        ensures
            match r {
                Ok(p) => self.child_of(parent, name@) == Some(p.0@) && self.child_of(
                    new_parent,
                    new_name@,
                ) == Some(p.1@),
                Err(e) => e == Errno::Access && (self.child_of(parent, name@) is None
                    || self.child_of(new_parent, new_name@) is None),
            },
    {
        match (self.child_path(parent, name), self.child_path(new_parent, new_name)) {
            (Some(s), Some(d)) => Ok((s, d)),
            _ => Err(Errno::Access),
        }
    }

    // -----------------------------------------------------------------------
    // Listings
    // -----------------------------------------------------------------------

    /// The entries for the tools.
    pub open spec fn tool_entries(&self) -> Seq<EntryModel> {
        Seq::new(
            self.registry.names().len(),
            |i: int|
                EntryModel {
                    ino: tool_ino(i),
                    kind: EntryKind::Directory,
                    name: self.registry.names()[i],
                },
        )
    }

    /// The entries in the directory of tools: the tools, and their index unless a tool
    /// has its name.
    pub open spec fn tools_entries(&self) -> Seq<EntryModel> {
        self.tool_entries() + (if self.registry.names().contains("index.md"@) {
            seq![]
        } else {
            seq![
                EntryModel {
                    ino: ROOT_INDEX_INO as int,
                    kind: EntryKind::RegularFile,
                    name: "index.md"@,
                },
            ]
        })
    }

    /// The entries in the directory of a built-in tool.
    pub open spec fn builtin_entries(&self, idx: int) -> Seq<EntryModel> {
        let eps = self.tool_at(idx).model().endpoints;
        seq![
            EntryModel {
                ino: tool_ino(idx) + 1,
                kind: EntryKind::RegularFile,
                name: "how_to.md"@,
            },
        ] + Seq::new(
            eps.len(),
            |i: int|
                EntryModel {
                    ino: tool_ino(idx) + 10 + i,
                    kind: EntryKind::RegularFile,
                    name: eps[i],
                },
        )
    }

    /// What an inode is to a listing.
    pub open spec fn dir_target(&self, ino: u64, facts: DirFacts) -> DirTarget {
        if ino == ROOT_INO {
            DirTarget::Fixed(root_entries())
        } else if ino == TOOLS_DIR_INO {
            DirTarget::Fixed(self.tools_entries())
        } else {
            match self.tool_index(ino) {
                Some(idx) => if ino != tool_ino(idx) {
                    DirTarget::NotDirectory
                } else if self.tools_dir is Some && facts.is_dir {
                    DirTarget::OnDisk(
                        join_components(self.tools_dir->0@, self.registry.names()[idx]),
                        tool_listing(facts.items@, facts.manifest),
                    )
                } else {
                    DirTarget::Fixed(self.builtin_entries(idx))
                },
                None => match path_at(self.paths@, ino) {
                    Some(p) => DirTarget::OnDisk(p, listed(facts.items@)),
                    None => DirTarget::Missing,
                },
            }
        }
    }

    /// Whether an inode is a directory that can be listed.
    pub open spec fn is_listed(&self, ino: u64, facts: DirFacts) -> bool {
        self.dir_target(ino, facts) is Fixed || self.dir_target(ino, facts) is OnDisk
    }

    /// Whether these are the entries of a directory: itself, the one above it, and what
    /// it holds. The files in a directory on disk are given inode numbers.
    pub open spec fn lists(
        &self,
        after: &LiveFolders,
        ino: u64,
        facts: DirFacts,
        entries: Seq<EntryModel>,
    ) -> bool {
        match self.dir_target(ino, facts) {
            DirTarget::Fixed(held) => entries == dots(ino as int) + held && after.paths@
                == self.paths@,
            DirTarget::OnDisk(dir, names) => entries == dots(ino as int) + disk_entries(
                after.paths@,
                dir,
                names,
            ) && after.paths@ == with_paths(self.paths@, child_paths(dir, names)),
            _ => false,
        }
    }

    /// Adds the entries for the names in a directory on disk to a listing. The files
    /// are given inode numbers.
    fn push_children(&mut self, dir: &DiskPath, names: &NameList, out: &mut Vec<DirEntry>)
        requires
            old(self).wf(),
            old(self).paths.room(names@.len()),
        ensures
            final(self).wf(),
            final(self).same_mount(old(self)),
            final(self).same_handles(old(self)),
            final(self).slots == old(self).slots,
            final(self).next_ticket == old(self).next_ticket,
            final(self).paths@ == with_paths(
                old(self).paths@,
                child_paths(dir@, names_view(names@)),
            ),
            entries_view(final(out)@) == entries_view(old(out)@) + disk_entries(
                final(self).paths@,
                dir@,
                names_view(names@),
            ),
    {
        let ghost all = names_view(names@);
        let ghost children = child_paths(dir@, all);
        let ghost given = entries_view(out@);
        let ghost start = self.paths@;
        let mut i: usize = 0;
        proof {
            assert(children.take(0) =~= seq![]);
            assert(given + disk_entries(self.paths@, dir@, all.take(0)) =~= given);
        }
        while i < names.len()
            invariant
                i <= names@.len(),
                self.wf(),
                self.same_mount(old(self)),
                self.same_handles(old(self)),
                self.slots == old(self).slots,
                self.next_ticket == old(self).next_ticket,
                all == names_view(names@),
                children == child_paths(dir@, all),
                start == old(self).paths@,
                start.no_duplicates(),
                start.len() + names@.len() < 0xffff_ffff_0000_0000,
                self.paths@ == with_paths(start, children.take(i as int)),
                self.paths@.len() <= start.len() + i,
                entries_view(out@) == given + disk_entries(
                    self.paths@,
                    dir@,
                    all.take(i as int),
                ),
            decreases names@.len() - i,
        {
            let ghost before = self.paths@;
            let ghost had = entries_view(out@);
            let path = dir.join(&names[i].0);
            let ino: u64 = self.paths.ino_for_path(&path);
            out.push(DirEntry { ino, kind: names[i].1, name: names[i].0.clone() });
            proof {
                lemma_with_paths(start, children.take(i as int));
                assert(children.take(i + 1).drop_last() =~= children.take(i as int));
                assert(children.take(i + 1).last() == path@);
                let now = disk_entries(self.paths@, dir@, all.take(i + 1));
                let prev = disk_entries(before, dir@, all.take(i as int));
                assert forall|k: int| 0 <= k < i implies #[trigger] now[k] == prev[k] by {
                    assert(children.take(i as int)[k] == join_components(dir@, all[k].0));
                    numbers_are_stable(before, join_components(dir@, all[k].0), path@);
                }
                assert(now =~= prev.push(
                    EntryModel { ino: ino as int, kind: all[i as int].1, name: all[i as int].0 },
                ));
                assert(entries_view(out@) =~= had.push(
                    EntryModel { ino: ino as int, kind: all[i as int].1, name: all[i as int].0 },
                ));
                assert(given + now =~= (given + prev).push(now.last()));
            }
            i = i + 1;
        }
        proof {
            assert(children.take(children.len() as int) =~= children);
            assert(all.take(all.len() as int) =~= all);
        }
    }

    /// Adds the entries in the directory of a built-in tool to a listing.
    fn push_builtin(&self, idx: usize, out: &mut Vec<DirEntry>)
        requires
            self.wf(),
            self.fits(),
            idx < self.registry.names().len(),
        ensures
            entries_view(final(out)@) == entries_view(old(out)@) + self.builtin_entries(
                idx as int,
            ),
    {
        let ghost given = entries_view(out@);
        let ghost all = self.builtin_entries(idx as int);
        out.push(
            DirEntry {
                ino: super::inode::how_to_ino(idx),
                kind: EntryKind::RegularFile,
                name: "how_to.md".to_string(),
            },
        );
        let eps = self.registry.tool_at(idx).endpoints();
        proof {
            assert(views(eps@).len() == eps@.len());
            assert(self.tool_at(idx as int).model().endpoints == views(eps@));
            assert(entries_view(out@) =~= given + all.take(1));
        }
        let mut i: usize = 0;
        while i < eps.len()
            invariant
                i <= eps@.len(),
                self.wf(),
                self.fits(),
                idx < self.registry.names().len(),
                eps@.len() <= 0xffff_ffff,
                views(eps@) == self.tool_at(idx as int).model().endpoints,
                all == self.builtin_entries(idx as int),
                all.len() == eps@.len() + 1,
                entries_view(out@) == given + all.take(i + 1),
            decreases eps@.len() - i,
        {
            let ghost had = entries_view(out@);
            out.push(
                DirEntry {
                    ino: super::inode::endpoint_ino(idx, i),
                    kind: EntryKind::RegularFile,
                    name: eps[i].clone(),
                },
            );
            proof {
                assert(views(eps@)[i as int] == eps@[i as int]@);
                assert(all.take(i + 2) =~= all.take(i + 1).push(all[i + 1]));
                assert(entries_view(out@) =~= had.push(all[i + 1]));
                assert(given + all.take(i + 2) =~= (given + all.take(i + 1)).push(all[i + 1]));
            }
            i = i + 1;
        }
        proof {
            assert(all.take(all.len() as int) =~= all);
        }
    }

    /// Lists a directory. Files on disk are given inode numbers.
    pub fn readdir(&mut self, ino: u64, facts: &DirFacts) -> (r: Result<Vec<DirEntry>, Errno>)
        requires
            old(self).wf(),
            old(self).fits(),
            old(self).paths.room(listing_bound(*facts)),
        ensures
            final(self).wf(),
            final(self).same_mount(old(self)),
            final(self).same_handles(old(self)),
            final(self).slots == old(self).slots,
            final(self).next_ticket == old(self).next_ticket,
            match r {
                Ok(v) => old(self).lists(final(self), ino, *facts, entries_view(v@)),
                Err(e) => e == (match old(self).dir_target(ino, *facts) {
                    DirTarget::NotDirectory => Errno::NotDirectory,
                    _ => Errno::NoEntry,
                }) && !old(self).is_listed(ino, *facts) && final(self).paths@ == old(self).paths@,
            },
            r is Ok <==> old(self).is_listed(ino, *facts),
    {
        proof {
            lemma_listing_len(*facts);
        }
        let mut out: Vec<DirEntry> = Vec::new();
        out.push(DirEntry { ino, kind: EntryKind::Directory, name: ".".to_string() });
        out.push(DirEntry { ino: ROOT_INO, kind: EntryKind::Directory, name: "..".to_string() });
        proof {
            assert(entries_view(out@) =~= dots(ino as int));
        }
        if ino == ROOT_INO {
            out.push(
                DirEntry {
                    ino: ROOT_HOW_TO_INO,
                    kind: EntryKind::RegularFile,
                    name: "how_to.md".to_string(),
                },
            );
            out.push(
                DirEntry {
                    ino: ROOT_CREATE_TOOL_INO,
                    kind: EntryKind::RegularFile,
                    name: "create_tool.md".to_string(),
                },
            );
            out.push(
                DirEntry {
                    ino: ROOT_SYSTEM_PROMPT_INO,
                    kind: EntryKind::RegularFile,
                    name: "system_prompt.md".to_string(),
                },
            );
            out.push(
                DirEntry {
                    ino: ROOT_INDEX_INO,
                    kind: EntryKind::RegularFile,
                    name: "index.md".to_string(),
                },
            );
            out.push(
                DirEntry {
                    ino: TOOLS_DIR_INO,
                    kind: EntryKind::Directory,
                    name: "tools".to_string(),
                },
            );
            proof {
                assert(entries_view(out@) =~= dots(ino as int) + root_entries());
            }
            return Ok(out);
        }
        if ino == TOOLS_DIR_INO {
            let n: usize = self.registry.len();
            let ghost all = self.tool_entries();
            let mut i: usize = 0;
            proof {
                assert(dots(ino as int) + all.take(0) =~= dots(ino as int));
            }
            while i < n
                invariant
                    i <= n,
                    n == self.registry.names().len(),
                    n <= 0xffff_ffff,
                    all == self.tool_entries(),
                    *self == *old(self),
                    self.wf(),
                    entries_view(out@) == dots(ino as int) + all.take(i as int),
                decreases n - i,
            {
                let ghost had = entries_view(out@);
                out.push(
                    DirEntry {
                        ino: super::inode::tool_dir_ino(i),
                        kind: EntryKind::Directory,
                        name: self.registry.name_at(i).to_string(),
                    },
                );
                proof {
                    assert(entries_view(out@) =~= had.push(all[i as int]));
                    assert(all.take(i + 1) =~= all.take(i as int).push(all[i as int]));
                    assert(dots(ino as int) + all.take(i + 1) =~= (dots(ino as int) + all.take(
                        i as int,
                    )).push(all[i as int]));
                }
                i = i + 1;
            }
            let ghost tools = entries_view(out@);
            proof {
                assert(all.take(all.len() as int) =~= all);
            }
            if self.registry.position("index.md").is_none() {
                out.push(
                    DirEntry {
                        ino: ROOT_INDEX_INO,
                        kind: EntryKind::RegularFile,
                        name: "index.md".to_string(),
                    },
                );
                proof {
                    assert(entries_view(out@) =~= tools.push(self.tools_entries().last()));
                    assert(entries_view(out@) =~= dots(ino as int) + self.tools_entries());
                }
            } else {
                proof {
                    assert(self.tools_entries() =~= all);
                }
            }
            return Ok(out);
        }
        match self.tool_index_for_ino(ino) {
            Some(idx) => {
                if ino != super::inode::tool_dir_ino(idx) {
                    return Err(Errno::NotDirectory);
                }
                let disk: Option<DiskPath> = match &self.tools_dir {
                    Some(d) => if facts.is_dir {
                        Some(d.join(self.registry.name_at(idx)))
                    } else {
                        None
                    },
                    None => None,
                };
                match disk {
                    Some(dir) => {
                        let names = tool_names(facts);
                        self.push_children(&dir, &names, &mut out);
                    },
                    None => {
                        self.push_builtin(idx, &mut out);
                    },
                }
                Ok(out)
            },
            None => {
                let dir = match self.paths.path_for_ino(ino) {
                    None => {
                        return Err(Errno::NoEntry);
                    },
                    Some(p) => p.copy(),
                };
                let names = listed_names(&facts.items);
                self.push_children(&dir, &names, &mut out);
                Ok(out)
            },
        }
    }
}

} // verus!
