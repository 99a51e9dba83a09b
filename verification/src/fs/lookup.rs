//! Attributes of inodes and names.
use super::attr::{
    dir_attr, directory, file_attr, is_executable, permissions, permissions_of, regular, Errno,
    FileAttr, FileMeta,
};
use super::how_to_gen::{generate_how_to, how_to_document};
use super::inode::{
    tool_ino, ROOT_CREATE_TOOL_INO, ROOT_HOW_TO_INO, ROOT_INDEX_INO, ROOT_INO,
    ROOT_SYSTEM_PROMPT_INO, TOOLS_DIR_INO,
};
use super::path_table::{number_of, path_at, with_paths, PathModel};
use super::root_doc::{ROOT_CREATE_TOOL, ROOT_HOW_TO};
use super::schema_gen::{
    anthropic_tools, generate_anthropic_tools_json, generate_schema_json, schema_tree,
};
use super::slot_table::latest_trace;
use super::vfs::{DiskFacts, LiveFolders};
use crate::json::json_pretty;
use crate::manifest::{all_in_order, file_named, invokes, FileSpec, Manifest};
use crate::paths::{below, file_name_of, join_components, parent_of, DiskPath};
use crate::split::{index_in, join, views};
use crate::text::{byte_len, opt_view, same, strip_suffix, without_suffix};
use crate::tools::external::opt_str;
use vstd::prelude::*;
use vstd::utf8::*;

verus! {

/// The number of bytes of a text.
pub open spec fn byte_count(s: Seq<char>) -> int {
    encode_utf8(s).len() as int
}

/// A file or directory on disk, or one that takes the place of one.
pub struct ChildEntry {
    /// The paths that are given inode numbers, in order; the last one is that of the
    /// entry.
    pub via: Seq<PathModel>,
    pub is_dir: bool,
    pub size: int,
    pub perm: u16,
}

/// What a name in a directory stands for.
pub enum Found {
    /// A file or directory of the mount itself.
    Fixed(FileAttr),
    /// A file or directory of a tool.
    Child(ChildEntry),
}

/// The attributes of an entry.
pub open spec fn child_attr(paths: Seq<PathModel>, e: ChildEntry) -> FileAttr {
    let ino = number_of(with_paths(paths, e.via), e.via.last());
    if e.is_dir {
        directory(ino)
    } else {
        regular(ino, e.size, e.perm)
    }
}

/// A manifest that is in order.
pub open spec fn valid_manifest(m: Option<Manifest>) -> Option<Manifest> {
    match m {
        Some(m) => if all_in_order(m.files@) {
            Some(m)
        } else {
            None
        },
        None => None,
    }
}

/// What a manifest that is in order declares of a file that runs something.
pub open spec fn declared_endpoint(m: Option<Manifest>, name: Seq<char>) -> Option<FileSpec> {
    match valid_manifest(m) {
        None => None,
        Some(m) => match file_named(m.files@, name) {
            Some(f) => if invokes(f.kind) {
                Some(f)
            } else {
                None
            },
            None => None,
        },
    }
}

/// A file on disk.
pub open spec fn disk_entry(path: PathModel, meta: FileMeta) -> ChildEntry {
    ChildEntry {
        via: seq![path],
        is_dir: meta.is_dir,
        size: meta.len as int,
        perm: permissions(meta.mode),
    }
}

/// A file that is made from a manifest.
pub open spec fn generated_entry(path: PathModel, text: Seq<char>) -> ChildEntry {
    ChildEntry { via: seq![path], is_dir: false, size: byte_count(text), perm: 0o444 }
}

/// Whether a declared file runs something, and the manifest is in order.
pub(crate) fn is_declared_endpoint(m: &Option<Manifest>, name: &str) -> (r: bool)
    ensures
        r == declared_endpoint(*m, name@) is Some,
{
    match m {
        None => false,
        Some(m) => {
            if m.validate().is_err() {
                return false;
            }
            match m.spec_for(name) {
                None => false,
                Some(f) => f.kind.runs_handler(),
            }
        },
    }
}

impl LiveFolders {
    /// Whether inode numbers can be given to all tools and their endpoints.
    pub open spec fn fits(&self) -> bool {
        &&& self.registry.names().len() <= 0xffff_ffff
        &&& forall|i: int|
            0 <= i < self.registry.names().len() ==> (#[trigger] self.tool_at(
                i,
            )).model().endpoints.len() <= 0xffff_ffff
    }

    /// Whether inode numbers can be given to all tools and their endpoints.
    pub fn check_fits(&self) -> (r: bool)
        requires
            self.wf(),
        ensures
            r == self.fits(),
    {
        let n: usize = self.registry.len();
        if n as u64 > 0xffff_ffff {
            return false;
        }
        let mut i: usize = 0;
        while i < n
            invariant
                self.wf(),
                i <= n,
                n == self.registry.names().len(),
                forall|k: int|
                    0 <= k < i ==> (#[trigger] self.tool_at(k)).model().endpoints.len()
                        <= 0xffff_ffff,
            decreases n - i,
        {
            let eps = self.registry.tool_at(i).endpoints();
            proof {
                assert(views(eps@).len() == eps@.len());
                assert(self.tool_at(i as int).model().endpoints == views(eps@));
            }
            if eps.len() as u64 > 0xffff_ffff {
                return false;
            }
            i = i + 1;
        }
        true
    }

    /// The text of a document in the root of the mount.
    pub open spec fn root_text(&self, ino: u64, facts: DiskFacts) -> Option<Seq<char>> {
        if ino == ROOT_INDEX_INO {
            Some(join(self.registry.index_lines(), "\n"@))
        } else if ino == ROOT_HOW_TO_INO {
            Some(ROOT_HOW_TO@)
        } else if ino == ROOT_CREATE_TOOL_INO {
            Some(ROOT_CREATE_TOOL@)
        } else if ino == ROOT_SYSTEM_PROMPT_INO {
            Some(self.registry.prompt(self.mount_path@, facts.manifests@))
        } else {
            None
        }
    }

    /// The text of a document in the root of the mount.
    pub fn root_document(&self, ino: u64, facts: &DiskFacts) -> (r: Option<String>)
        requires
            self.wf(),
        ensures
            opt_view(r) == self.root_text(ino, *facts),
    {
        if ino == ROOT_INDEX_INO {
            Some(self.registry.root_index())
        } else if ino == ROOT_HOW_TO_INO {
            Some(ROOT_HOW_TO.to_string())
        } else if ino == ROOT_CREATE_TOOL_INO {
            Some(ROOT_CREATE_TOOL.to_string())
        } else if ino == ROOT_SYSTEM_PROMPT_INO {
            Some(self.registry.system_prompt(&self.mount_path, &facts.manifests))
        } else {
            None
        }
    }

    /// Whether a file on disk is a `how_to.md` that has to be made from a manifest.
    pub open spec fn lacks_how_to(path: PathModel, facts: DiskFacts) -> bool {
        &&& facts.meta is None
        &&& file_name_of(path) == Some("how_to.md"@)
        &&& parent_of(path) is Some
        &&& facts.dir_manifest is Some
    }

    /// The latest trace of the endpoint at a path; empty where it was never invoked.
    pub open spec fn trace_at(&self, path: PathModel) -> Seq<u8> {
        if self.paths@.contains(path) {
            match latest_trace(self.slots@, number_of(self.paths@, path) as u64) {
                Some(t) => t,
                None => seq![],
            }
        } else {
            seq![]
        }
    }

    /// The latest trace of the endpoint at a path; empty where it was never invoked.
    pub(crate) fn trace_of(&self, path: &DiskPath) -> (r: Vec<u8>)
        requires
            self.wf(),
            self.paths.room(0),
        ensures
            r@ == self.trace_at(path@),
    {
        let trace = match self.paths.find(path) {
            None => None,
            Some(ino) => self.slots.latest_trace_for_ino(ino),
        };
        match trace {
            Some(t) => t,
            None => {
                let none: Vec<u8> = Vec::new();
                proof {
                    assert(none@ =~= seq![]);
                }
                none
            },
        }
    }

    /// What a file in the directory of a tool is made from, as an entry of that directory.
    pub open spec fn made_file(&self, path: PathModel, facts: DiskFacts) -> Option<ChildEntry> {
        match (parent_of(path), file_name_of(path)) {
            (Some(dir), Some(name)) => match self.tool_of_dir(dir) {
                Some(tool) => self.made_entry(dir, tool, name, facts.tool_manifest),
                None => None,
            },
            _ => None,
        }
    }

    /// The size of a file in the directory of a tool that is made and not on disk.
    fn made_file_size(&self, path: &DiskPath, facts: &DiskFacts) -> (r: Option<usize>)
        requires
            self.wf(),
            self.paths.room(0),
        ensures
            match r {
                None => self.made_file(path@, *facts) is None,
                Some(n) => self.made_file(path@, *facts) matches Some(e) && e.size == n && e.perm
                    == 0o444,
            },
    {
        match (path.parent(), path.file_name()) {
            (Some(dir), Some(name)) => match self.tool_of_directory(&dir) {
                Some(tool) => self.made_size(&dir, &tool, &name, &facts.tool_manifest),
                None => None,
            },
            _ => None,
        }
    }

    /// The attributes of a file on disk, or of one that is made.
    pub open spec fn external_attr(&self, ino: u64, facts: DiskFacts) -> Option<FileAttr> {
        match path_at(self.paths@, ino) {
            None => None,
            Some(p) => if LiveFolders::lacks_how_to(p, facts) {
                Some(
                    regular(
                        ino as int,
                        byte_count(how_to_document(facts.dir_manifest->0)),
                        0o444,
                    ),
                )
            } else if self.made_file(p, facts) is Some {
                Some(regular(ino as int, self.made_file(p, facts)->0.size, 0o444))
            } else {
                match facts.meta {
                    Some(m) => Some(
                        if m.is_dir {
                            directory(ino as int)
                        } else {
                            regular(
                                ino as int,
                                if is_executable(m.mode) {
                                    0
                                } else {
                                    m.len as int
                                },
                                permissions(m.mode),
                            )
                        },
                    ),
                    None => match self.declared(ino, facts.tool_manifest) {
                        Some(f) => if invokes(f.kind) {
                            Some(regular(ino as int, 0, 0o644))
                        } else {
                            None
                        },
                        None => None,
                    },
                }
            },
        }
    }

    /// The attributes of a file of a tool directory.
    pub open spec fn tool_attr(&self, ino: u64) -> Option<FileAttr> {
        match self.tool_index(ino) {
            None => None,
            Some(idx) => if ino == tool_ino(idx) {
                Some(directory(ino as int))
            } else if ino == tool_ino(idx) + 1 {
                Some(regular(ino as int, byte_count(self.tool_at(idx).model().how_to), 0o444))
            } else if self.ep_index(ino) is Some {
                Some(regular(ino as int, 0, 0o644))
            } else {
                None
            },
        }
    }

    /// The attributes of an inode. Endpoints have the size 0: what is read from them
    /// says where it ends.
    pub open spec fn attr_of(&self, ino: u64, facts: DiskFacts) -> Option<FileAttr> {
        if ino == ROOT_INO || ino == TOOLS_DIR_INO {
            Some(directory(ino as int))
        } else if self.root_text(ino, facts) is Some {
            Some(regular(ino as int, byte_count(self.root_text(ino, facts)->0), 0o444))
        } else if self.external_attr(ino, facts) is Some {
            self.external_attr(ino, facts)
        } else {
            self.tool_attr(ino)
        }
    }

    /// Whether a file on disk is a `how_to.md` that has to be made from a manifest,
    /// and that manifest.
    pub(crate) fn missing_how_to<'a>(path: &DiskPath, facts: &'a DiskFacts) -> (r: Option<&'a Manifest>)
        ensures
            r is Some == LiveFolders::lacks_how_to(path@, *facts),
            r is Some ==> facts.dir_manifest == Some(*r->0),
    {
        if facts.meta.is_some() {
            return None;
        }
        match path.file_name() {
            None => None,
            Some(n) => {
                if same(&n, "how_to.md") && path.parent().is_some() {
                    facts.dir_manifest.as_ref()
                } else {
                    None
                }
            },
        }
    }

    /// The attributes of an inode.
    pub fn resolve_ino_attr(&self, ino: u64, facts: &DiskFacts) -> (r: Option<FileAttr>)
        requires
            self.wf(),
            self.paths.room(0),
        ensures
            r == self.attr_of(ino, *facts),
    {
        if ino == ROOT_INO || ino == TOOLS_DIR_INO {
            return Some(dir_attr(ino));
        }
        if let Some(text) = self.root_document(ino, facts) {
            return Some(file_attr(ino, byte_len(&text) as u64, 0o444));
        }
        if let Some(path) = self.paths.path_for_ino(ino) {
            if let Some(m) = LiveFolders::missing_how_to(path, facts) {
                let text = generate_how_to(m);
                return Some(file_attr(ino, byte_len(&text) as u64, 0o444));
            }
            if let Some(n) = self.made_file_size(path, facts) {
                return Some(file_attr(ino, n as u64, 0o444));
            }
            match facts.meta {
                Some(m) => {
                    if m.is_dir {
                        return Some(dir_attr(ino));
                    }
                    let size: u64 = if m.mode & 0o111 != 0 {
                        0
                    } else {
                        m.len
                    };
                    return Some(file_attr(ino, size, permissions_of(m.mode)));
                },
                None => {
                    if let Some((_, _, f)) = self.file_spec_for_ino(ino, &facts.tool_manifest) {
                        if f.kind.runs_handler() {
                            return Some(file_attr(ino, 0, 0o644));
                        }
                    }
                },
            }
        }
        if let Some(idx) = self.tool_index_for_ino(ino) {
            if ino == super::inode::tool_dir_ino(idx) {
                return Some(dir_attr(ino));
            }
            if ino == super::inode::how_to_ino(idx) {
                let size: usize = byte_len(self.registry.tool_at(idx).how_to());
                return Some(file_attr(ino, size as u64, 0o444));
            }
            if self.ep_index_for_ino(ino).is_some() {
                return Some(file_attr(ino, 0, 0o644));
            }
        }
        None
    }

    /// The answer to a request for the attributes of an inode.
    pub fn getattr(&self, ino: u64, facts: &DiskFacts) -> (r: Result<FileAttr, Errno>)
        requires
            self.wf(),
            self.paths.room(0),
        ensures
            r == (match self.attr_of(ino, *facts) {
                Some(a) => Ok::<FileAttr, Errno>(a),
                None => Err::<FileAttr, Errno>(Errno::NoEntry),
            }),
    {
        match self.resolve_ino_attr(ino, facts) {
            Some(a) => Ok(a),
            None => Err(Errno::NoEntry),
        }
    }

    // -----------------------------------------------------------------------
    // Names
    // -----------------------------------------------------------------------

    /// What a name in the root of the mount stands for.
    pub open spec fn root_entry(&self, name: Seq<char>, facts: DiskFacts) -> Option<FileAttr> {
        if name == "how_to.md"@ {
            self.attr_of(ROOT_HOW_TO_INO, facts)
        } else if name == "create_tool.md"@ {
            self.attr_of(ROOT_CREATE_TOOL_INO, facts)
        } else if name == "system_prompt.md"@ {
            self.attr_of(ROOT_SYSTEM_PROMPT_INO, facts)
        } else if name == "index.md"@ {
            self.attr_of(ROOT_INDEX_INO, facts)
        } else if name == "tools"@ {
            Some(directory(TOOLS_DIR_INO as int))
        } else {
            None
        }
    }

    /// What a name in the directory of tools stands for: a tool, or else the index that
    /// stands in the root too.
    pub open spec fn tools_entry(&self, name: Seq<char>, facts: DiskFacts) -> Option<FileAttr> {
        if self.registry.names().contains(name) {
            Some(directory(tool_ino(self.registry.names().index_of(name))))
        } else if name == "index.md"@ {
            self.attr_of(ROOT_INDEX_INO, facts)
        } else {
            None
        }
    }

    /// What a name in the directory of a built-in tool stands for.
    pub open spec fn builtin_entry(&self, idx: int, name: Seq<char>) -> Option<FileAttr> {
        let tool = self.tool_at(idx).model();
        if name == "how_to.md"@ {
            if tool.how_to.len() == 0 {
                None
            } else {
                Some(regular(tool_ino(idx) + 1, byte_count(tool.how_to), 0o444))
            }
        } else {
            match tool.endpoints.index_of_first(name) {
                None => None,
                Some(ep) => Some(regular(tool_ino(idx) + 10 + ep, 0, 0o644)),
            }
        }
    }

    /// The endpoint whose log a name is.
    pub open spec fn logged_endpoint(name: Seq<char>, m: Option<Manifest>) -> Option<Seq<char>> {
        match without_suffix(name, ".log"@) {
            None => None,
            Some(ep) => if declared_endpoint(m, ep) is Some {
                Some(ep)
            } else {
                None
            },
        }
    }

    /// The log of an endpoint: as long as the trace of its latest invocation.
    pub open spec fn log_entry(&self, dir: PathModel, ep: Seq<char>, path: PathModel) -> ChildEntry {
        let ep_path = join_components(dir, ep);
        ChildEntry {
            via: seq![ep_path, path],
            is_dir: false,
            size: self.trace_at(ep_path).len() as int,
            perm: 0o444,
        }
    }

    /// What a name in the directory of a tool stands for that is made and not on disk: the
    /// log of an endpoint, or a description of the tool.
    pub open spec fn made_entry(
        &self,
        dir: PathModel,
        tool: Seq<char>,
        name: Seq<char>,
        manifest: Option<Manifest>,
    ) -> Option<ChildEntry> {
        let path = join_components(dir, name);
        if LiveFolders::logged_endpoint(name, manifest) is Some {
            Some(self.log_entry(dir, LiveFolders::logged_endpoint(name, manifest)->0, path))
        } else if name == "schema.json"@ && manifest is Some {
            Some(generated_entry(path, json_pretty(schema_tree(manifest->0))))
        } else if name == "anthropic_tools.json"@ && manifest is Some {
            Some(generated_entry(path, json_pretty(anthropic_tools(tool, manifest->0))))
        } else {
            None
        }
    }

    /// The size of what a name in the directory of a tool stands for, where that is made
    /// and not on disk.
    fn made_size(
        &self,
        dir: &DiskPath,
        tool: &str,
        name: &str,
        manifest: &Option<Manifest>,
    ) -> (r: Option<usize>)
        requires
            self.wf(),
            self.paths.room(0),
        ensures
            match r {
                None => self.made_entry(dir@, tool@, name@, *manifest) is None,
                Some(n) => self.made_entry(dir@, tool@, name@, *manifest) matches Some(e) && e.size
                    == n && e.perm == 0o444,
            },
    {
        if let Some(ep) = strip_suffix(name, ".log") {
            if is_declared_endpoint(manifest, &ep) {
                return Some(self.trace_of(&dir.join(&ep)).len());
            }
        }
        if let Some(m) = manifest {
            if same(name, "schema.json") {
                return Some(byte_len(&generate_schema_json(m)));
            }
            if same(name, "anthropic_tools.json") {
                return Some(byte_len(&generate_anthropic_tools_json(tool, m)));
            }
        }
        None
    }

    /// What a name in the directory of a tool on disk stands for: the log of an
    /// endpoint, a description of the tool, an endpoint, or a file on disk.
    pub open spec fn external_entry(
        &self,
        tool: Seq<char>,
        name: Seq<char>,
        facts: DiskFacts,
    ) -> Option<ChildEntry> {
        match self.tools_dir {
            None => None,
            Some(d) => {
                let dir = join_components(d@, tool);
                let path = join_components(dir, name);
                let manifest = facts.tool_manifest;
                if self.made_entry(dir, tool, name, manifest) is Some {
                    self.made_entry(dir, tool, name, manifest)
                } else if declared_endpoint(manifest, name) is Some {
                    Some(ChildEntry { via: seq![path], is_dir: false, size: 0, perm: 0o644 })
                } else if name == "how_to.md"@ && facts.meta is None && manifest is Some {
                    Some(generated_entry(path, how_to_document(manifest->0)))
                } else {
                    match facts.meta {
                        None => None,
                        Some(m) => Some(disk_entry(path, m)),
                    }
                }
            },
        }
    }

    /// The tool whose directory a directory on disk is.
    pub open spec fn tool_of_dir(&self, path: PathModel) -> Option<Seq<char>> {
        match self.tools_dir {
            None => None,
            Some(d) => match below(d@, path) {
                None => None,
                Some(rel) => if rel.len() == 1 {
                    Some(rel[0])
                } else {
                    None
                },
            },
        }
    }

    /// What a name in a directory stands for. A name that is no text is `None`.
    pub open spec fn entry(
        &self,
        parent: u64,
        name: Option<Seq<char>>,
        facts: DiskFacts,
    ) -> Option<Found> {
        let fixed = |a: Option<FileAttr>|
            match a {
                None => None::<Found>,
                Some(a) => Some(Found::Fixed(a)),
            };
        let child = |e: Option<ChildEntry>|
            match e {
                None => None::<Found>,
                Some(e) => Some(Found::Child(e)),
            };
        let text = match name {
            None => ""@,
            Some(n) => n,
        };
        if parent == ROOT_INO {
            match name {
                None => None,
                Some(n) => fixed(self.root_entry(n, facts)),
            }
        } else if parent == TOOLS_DIR_INO {
            match name {
                None => None,
                Some(n) => fixed(self.tools_entry(n, facts)),
            }
        } else {
            match self.tool_index(parent) {
                Some(idx) => if parent != tool_ino(idx) {
                    None
                } else if name is Some && self.builtin_entry(idx, name->0) is Some {
                    fixed(self.builtin_entry(idx, name->0))
                } else {
                    child(self.external_entry(self.registry.names()[idx], text, facts))
                },
                None => match path_at(self.paths@, parent) {
                    None => None,
                    Some(dir) => if self.tool_of_dir(dir) is Some && self.external_entry(
                        self.tool_of_dir(dir)->0,
                        text,
                        facts,
                    ) is Some {
                        child(self.external_entry(self.tool_of_dir(dir)->0, text, facts))
                    } else {
                        match facts.meta {
                            None => None,
                            Some(m) => child(Some(disk_entry(join_components(dir, text), m))),
                        }
                    },
                },
            }
        }
    }

    /// The file on disk that the facts for a name in a directory are about.
    pub open spec fn entry_path(&self, parent: u64, name: Option<Seq<char>>) -> Option<PathModel> {
        let text = match name {
            None => ""@,
            Some(n) => n,
        };
        match self.tool_index(parent) {
            Some(idx) => match self.tools_dir {
                None => None,
                Some(d) => Some(
                    join_components(join_components(d@, self.registry.names()[idx]), text),
                ),
            },
            None => match path_at(self.paths@, parent) {
                None => None,
                Some(dir) => Some(join_components(dir, text)),
            },
        }
    }

    /// The file on disk that the facts for a name in a directory are about.
    pub fn lookup_path(&self, parent: u64, name: Option<&str>) -> (r: Option<DiskPath>)
        requires
            self.wf(),
        ensures
            match r {
                None => self.entry_path(parent, opt_str(name)) is None,
                Some(p) => self.entry_path(parent, opt_str(name)) == Some(p@),
            },
    {
        let text = match name {
            None => "",
            Some(n) => n,
        };
        match self.tool_index_for_ino(parent) {
            Some(idx) => match &self.tools_dir {
                None => None,
                Some(d) => Some(d.join(self.registry.name_at(idx)).join(text)),
            },
            None => match self.paths.path_for_ino(parent) {
                None => None,
                Some(dir) => Some(dir.join(text)),
            },
        }
    }

    /// The tool whose manifest is among the facts for a name in a directory.
    pub open spec fn entry_tool(&self, parent: u64) -> Option<Seq<char>> {
        match self.tool_index(parent) {
            Some(idx) => Some(self.registry.names()[idx]),
            None => match path_at(self.paths@, parent) {
                None => None,
                Some(dir) => self.tool_of_dir(dir),
            },
        }
    }

    /// The tool whose manifest is among the facts for a name in a directory.
    pub fn lookup_tool(&self, parent: u64) -> (r: Option<String>)
        requires
            self.wf(),
        ensures
            opt_view(r) == self.entry_tool(parent),
    {
        match self.tool_index_for_ino(parent) {
            Some(idx) => Some(self.registry.name_at(idx).to_string()),
            None => match self.paths.path_for_ino(parent) {
                None => None,
                Some(dir) => self.tool_of_directory(dir),
            },
        }
    }

    /// The tool whose directory a directory on disk is.
    pub(crate) fn tool_of_directory(&self, path: &DiskPath) -> (r: Option<String>)
        ensures
            opt_view(r) == self.tool_of_dir(path@),
    {
        match &self.tools_dir {
            None => None,
            Some(d) => match path.relative_to(d) {
                None => None,
                Some(rel) => {
                    proof {
                        assert(views(rel@).len() == rel@.len());
                    }
                    if rel.len() == 1 {
                        proof {
                            assert(views(rel@)[0] == rel@[0]@);
                        }
                        Some(rel[0].clone())
                    } else {
                        None
                    }
                },
            },
        }
    }

    /// What a name in the root of the mount stands for.
    fn lookup_in_root(&self, name: &str, facts: &DiskFacts) -> (r: Option<FileAttr>)
        requires
            self.wf(),
            self.paths.room(0),
        ensures
            r == self.root_entry(name@, *facts),
    {
        if same(name, "how_to.md") {
            self.resolve_ino_attr(ROOT_HOW_TO_INO, facts)
        } else if same(name, "create_tool.md") {
            self.resolve_ino_attr(ROOT_CREATE_TOOL_INO, facts)
        } else if same(name, "system_prompt.md") {
            self.resolve_ino_attr(ROOT_SYSTEM_PROMPT_INO, facts)
        } else if same(name, "index.md") {
            self.resolve_ino_attr(ROOT_INDEX_INO, facts)
        } else if same(name, "tools") {
            Some(dir_attr(TOOLS_DIR_INO))
        } else {
            None
        }
    }

    /// What a name in the directory of tools stands for.
    fn lookup_in_tools(&self, name: &str, facts: &DiskFacts) -> (r: Option<FileAttr>)
        requires
            self.wf(),
            self.paths.room(0),
            self.fits(),
        ensures
            r == self.tools_entry(name@, *facts),
    {
        match self.registry.position(name) {
            None => {
                if same(name, "index.md") {
                    self.resolve_ino_attr(ROOT_INDEX_INO, facts)
                } else {
                    None
                }
            },
            Some(idx) => {
                proof {
                    self.registry.lemma_names();
                    crate::order::lemma_ascending_index(self.registry.names(), idx as int);
                }
                Some(dir_attr(super::inode::tool_dir_ino(idx)))
            },
        }
    }

    /// What a name in the directory of a built-in tool stands for.
    fn lookup_in_tool_dir(&self, idx: usize, name: &str) -> (r: Option<FileAttr>)
        requires
            self.wf(),
            self.fits(),
            idx < self.registry.names().len(),
        ensures
            r == self.builtin_entry(idx as int, name@),
    {
        let tool = self.registry.tool_at(idx);
        proof {
            assert(self.tool_at(idx as int) == *tool);
        }
        if same(name, "how_to.md") {
            let how_to = tool.how_to();
            if crate::text::chars_of(how_to).len() == 0 {
                return None;
            }
            return Some(
                file_attr(super::inode::how_to_ino(idx), byte_len(how_to) as u64, 0o444),
            );
        }
        let eps = tool.endpoints();
        proof {
            assert(views(eps@).len() == eps@.len());
            assert(self.tool_at(idx as int).model().endpoints.len() <= 0xffff_ffff);
        }
        match index_in(&eps, name) {
            None => None,
            Some(ep) => Some(file_attr(super::inode::endpoint_ino(idx, ep), 0, 0o644)),
        }
    }

    /// What a name in the directory of a tool on disk stands for; its paths are given
    /// inode numbers.
    fn lookup_external_file(&mut self, tool: &str, name: &str, facts: &DiskFacts) -> (r: Option<
        FileAttr,
    >)
        requires
            old(self).wf(),
            old(self).paths.room(2),
        ensures
            final(self).wf(),
            final(self).same_mount(old(self)),
            final(self).same_handles(old(self)),
            final(self).slots == old(self).slots,
            final(self).next_ticket == old(self).next_ticket,
            match old(self).external_entry(tool@, name@, *facts) {
                None => r is None && final(self).paths@ == old(self).paths@,
                Some(e) => r == Some(child_attr(old(self).paths@, e)) && final(self).paths@
                    == with_paths(old(self).paths@, e.via),
            },
    {
        let dir = match &self.tools_dir {
            None => {
                return None;
            },
            Some(d) => d.join(tool),
        };
        let path = dir.join(name);
        let ghost start = self.paths@;
        proof {
            reveal_with_fuel(with_paths, 3);
            assert(seq![path@].drop_last() =~= seq![]);
        }
        if let Some(size) = self.made_size(&dir, tool, name, &facts.tool_manifest) {
            if let Some(ep) = strip_suffix(name, ".log") {
                if is_declared_endpoint(&facts.tool_manifest, &ep) {
                    let ep_path = dir.join(&ep);
                    let ep_ino: u64 = self.paths.ino_for_path(&ep_path);
                    proof {
                        assert(seq![ep_path@, path@].drop_last() =~= seq![ep_path@]);
                        assert(seq![ep_path@].drop_last() =~= seq![]);
                    }
                }
            }
            let ino: u64 = self.paths.ino_for_path(&path);
            return Some(file_attr(ino, size as u64, 0o444));
        }
        if is_declared_endpoint(&facts.tool_manifest, name) {
            let ino: u64 = self.paths.ino_for_path(&path);
            return Some(file_attr(ino, 0, 0o644));
        }
        if same(name, "how_to.md") && facts.meta.is_none() {
            if let Some(m) = &facts.tool_manifest {
                let text = generate_how_to(m);
                let ino: u64 = self.paths.ino_for_path(&path);
                return Some(file_attr(ino, byte_len(&text) as u64, 0o444));
            }
        }
        match facts.meta {
            None => None,
            Some(m) => Some(self.disk_attr(&path, m)),
        }
    }

    /// The attributes of a file on disk, which is given an inode number.
    fn disk_attr(&mut self, path: &DiskPath, meta: FileMeta) -> (r: FileAttr)
        requires
            old(self).wf(),
            old(self).paths.room(1),
        ensures
            final(self).wf(),
            final(self).same_mount(old(self)),
            final(self).same_handles(old(self)),
            final(self).slots == old(self).slots,
            final(self).next_ticket == old(self).next_ticket,
            r == child_attr(old(self).paths@, disk_entry(path@, meta)),
            final(self).paths@ == with_paths(old(self).paths@, disk_entry(path@, meta).via),
    {
        proof {
            reveal_with_fuel(with_paths, 2);
            assert(seq![path@].drop_last() =~= seq![]);
        }
        let ino: u64 = self.paths.ino_for_path(path);
        if meta.is_dir {
            dir_attr(ino)
        } else {
            file_attr(ino, meta.len, permissions_of(meta.mode))
        }
    }

    /// The answer to a request for a name in a directory. Files of tools are given
    /// inode numbers.
    pub fn lookup(&mut self, parent: u64, name: Option<&str>, facts: &DiskFacts) -> (r: Result<
        FileAttr,
        Errno,
    >)
        requires
            old(self).wf(),
            old(self).fits(),
            old(self).paths.room(2),
        ensures
            final(self).wf(),
            final(self).same_mount(old(self)),
            final(self).same_handles(old(self)),
            final(self).slots == old(self).slots,
            final(self).next_ticket == old(self).next_ticket,
            match old(self).entry(parent, opt_str(name), *facts) {
                None => r == Err::<FileAttr, Errno>(Errno::NoEntry) && final(self).paths@ == old(
                    self,
                ).paths@,
                Some(Found::Fixed(a)) => r == Ok::<FileAttr, Errno>(a) && final(self).paths@ == old(
                    self,
                ).paths@,
                Some(Found::Child(e)) => r == Ok::<FileAttr, Errno>(
                    child_attr(old(self).paths@, e),
                ) && final(self).paths@ == with_paths(old(self).paths@, e.via),
            },
    {
        let text = match name {
            None => "",
            Some(n) => n,
        };
        let attr: Option<FileAttr> = if parent == ROOT_INO {
            match name {
                None => None,
                Some(n) => self.lookup_in_root(n, facts),
            }
        } else if parent == TOOLS_DIR_INO {
            match name {
                None => None,
                Some(n) => self.lookup_in_tools(n, facts),
            }
        } else {
            match self.tool_index_for_ino(parent) {
                Some(idx) => {
                    if parent != super::inode::tool_dir_ino(idx) {
                        None
                    } else {
                        let builtin = match name {
                            None => None,
                            Some(n) => self.lookup_in_tool_dir(idx, n),
                        };
                        match builtin {
                            Some(a) => Some(a),
                            None => {
                                let tool = self.registry.name_at(idx).to_string();
                                self.lookup_external_file(&tool, text, facts)
                            },
                        }
                    }
                },
                None => match self.paths.path_for_ino(parent) {
                    None => None,
                    Some(p) => {
                        let dir = p.copy();
                        let found = match self.tool_of_directory(&dir) {
                            None => None,
                            Some(tool) => self.lookup_external_file(&tool, text, facts),
                        };
                        match found {
                            Some(a) => Some(a),
                            None => match facts.meta {
                                None => None,
                                Some(m) => Some(self.disk_attr(&dir.join(text), m)),
                            },
                        }
                    },
                },
            }
        };
        match attr {
            Some(a) => Ok(a),
            None => Err(Errno::NoEntry),
        }
    }
}

} // verus!
