//! What a mount shows under its names and numbers.
use crate::fs::attr::{directory, is_executable, permissions, regular, EntryKind, FileAttr, FileMeta};
use crate::fs::data::{dir_name, ReadTarget, ReleaseAction};
use crate::fs::how_to_gen::how_to_document;
use crate::fs::inode::tool_ino;
use crate::fs::invocation::SlotKey;
use crate::fs::lookup::{child_attr, declared_endpoint, valid_manifest, ChildEntry, Found};
use crate::fs::path_table::{number_of, path_at, with_path, with_paths, PathModel};
use crate::fs::root_doc::{ROOT_CREATE_TOOL, ROOT_HOW_TO};
use crate::fs::schema_gen::{anthropic_tools, schema_tree};
use crate::fs::slot_table::slot_or_fresh;
use crate::fs::tree::{
    add_declared, add_missing, child_paths, disk_entries, dots, kind_of, listed, root_entries,
    tool_listing, DirFacts, DirItem, DirTarget, EntryModel, NamedKind,
};
use crate::fs::vfs::{DiskFacts, LiveFolders};
use crate::json::json_pretty;
use crate::manifest::{file_named, FileKind, FileSpec, Manifest};
use crate::paths::{components, file_name_of, join_components, parent_of};
use crate::split::join;
use vstd::prelude::*;
use vstd::utf8::encode_utf8;

verus! {

// ---------------------------------------------------------------------------
// Attributes and numbers
// ---------------------------------------------------------------------------

/// What is said of a directory, and of a file of a size: its blocks are as many as hold it.
pub proof fn attributes_say_what_a_file_is(ino: u64, size: u64, perm: u16)
    requires
        size + 511 <= u64::MAX,
    ensures
        directory(ino as int).ino == ino,
        directory(ino as int).kind == EntryKind::Directory,
        directory(ino as int).perm == 0o755,
        directory(ino as int).nlink == 2,
        directory(ino as int).size == 0,
        directory(ino as int).blocks == 0,
        regular(ino as int, size as int, perm).ino == ino,
        regular(ino as int, size as int, perm).kind == EntryKind::RegularFile,
        regular(ino as int, size as int, perm).perm == perm,
        regular(ino as int, size as int, perm).nlink == 1,
        regular(ino as int, size as int, perm).size == size,
        regular(ino as int, size as int, perm).blocks * 512 >= size,
        regular(ino as int, size as int, perm).blocks * 512 < size + 512,
        directory(ino as int).blksize == 512,
        regular(ino as int, size as int, perm).blksize == 512,
{
}

/// The permissions of a file are the last nine bits of its mode; it can be executed if one
/// of the three bits for that is set.
pub proof fn modes_have_nine_bits(mode: u32)
    ensures
        permissions(mode) == mode % 512,
        is_executable(mode) <==> mode & 1 != 0 || mode & 8 != 0 || mode & 64 != 0,
{
    assert(mode & 0o777 == mode % 512) by (bit_vector);
    assert((mode & 0o111 != 0) <==> (mode & 1 != 0 || mode & 8 != 0 || mode & 64 != 0))
        by (bit_vector);
}

/// A path gets a number when it is first asked for, behind those that were given out, and
/// is not given another one.
pub proof fn paths_are_numbered_in_order(
    paths: Seq<PathModel>,
    p: PathModel,
    more: Seq<PathModel>,
    i: int,
)
    requires
        paths.no_duplicates(),
        paths.len() < 0xffff_ffff_0000_0000,
    ensures
        paths.contains(p) ==> with_path(paths, p) == paths,
        !paths.contains(p) ==> with_path(paths, p) == paths.push(p) && number_of(
            with_path(paths, p),
            p,
        ) == 100_001 + paths.len(),
        with_paths(paths, Seq::empty()) == paths,
        with_paths(paths, more.push(p)) == with_path(with_paths(paths, more), p),
        0 <= i < paths.len() ==> number_of(paths, paths[i]) == 100_001 + i && path_at(
            paths,
            (100_001 + i) as u64,
        ) == Some(paths[i]),
        i < 0 || i >= paths.len() ==> 0 <= 100_001 + i <= u64::MAX ==> path_at(
            paths,
            (100_001 + i) as u64,
        ) is None,
{
    assert(more.push(p).drop_last() =~= more);
    if !paths.contains(p) {
        let after = paths.push(p);
        assert(after[paths.len() as int] == p);
        assert(after.contains(p));
        let k = after.index_of(p);
        assert(after[k] == p);
        if k < paths.len() {
            assert(paths[k] == p);
        }
    }
    if 0 <= i < paths.len() {
        assert(paths.contains(paths[i]));
        let k = paths.index_of(paths[i]);
        assert(paths[k] == paths[i]);
    }
}

/// The numbers of a built-in tool: its directory has one in every hundred from a thousand
/// on, its how-to document the next one, and its endpoints those from ten on.
pub proof fn builtin_tools_are_numbered_in_order(m: LiveFolders, i: int, e: int, ino: u64)
    requires
        0 <= i < m.registry.names().len(),
        i < 990,
        0 <= e < 90,
    ensures
        tool_ino(i) == 1000 + 100 * i,
        m.tool_index(tool_ino(i) as u64) == Some(i),
        m.tool_index((tool_ino(i) + 1) as u64) == Some(i),
        m.tool_index((tool_ino(i) + 10 + e) as u64) == Some(i),
        m.ep_index((tool_ino(i) + 10 + e) as u64) == (if e < m.tool_at(i).model().endpoints.len() {
            Some((i, e))
        } else {
            None
        }),
        m.ep_index(tool_ino(i) as u64) is None,
        m.ep_index((tool_ino(i) + 1) as u64) is None,
        ino < 1000 || ino >= 100_000 ==> m.tool_index(ino) is None && m.ep_index(ino) is None,
        m.tool_index(ino) matches Some(k) ==> 0 <= k < m.registry.names().len() && tool_ino(k)
            <= ino < tool_ino(k + 1),
        m.tool_at(i) == m.registry@[m.registry.names()[i]],
{
}

// ---------------------------------------------------------------------------
// Sessions
// ---------------------------------------------------------------------------

/// An operation belongs to the session that opened its handle; one without such a handle to
/// that of its caller, and one without a known caller to session zero. A handle is bound to
/// a session where its caller is known, and other handles stay bound as they are.
pub proof fn operations_belong_to_a_session(
    m: LiveFolders,
    fh: u64,
    caller: Option<i32>,
    sid: i32,
    ino: u64,
    other: u64,
)
    ensures
        fh != 0 && m.fh_to_sid@.contains_key(fh) ==> m.session_of(fh, caller) == m.fh_to_sid@[fh],
        fh == 0 || !m.fh_to_sid@.contains_key(fh) ==> m.session_of(fh, Some(sid)) == sid
            && m.session_of(fh, None) == 0,
        m.key_of(ino, fh, caller) == (ino, m.session_of(fh, caller)),
        LiveFolders::handles_with(m.fh_to_sid@, fh, None) == m.fh_to_sid@,
        LiveFolders::handles_with(m.fh_to_sid@, fh, Some(sid)).contains_key(fh),
        LiveFolders::handles_with(m.fh_to_sid@, fh, Some(sid))[fh] == sid,
        other != fh ==> LiveFolders::handles_with(m.fh_to_sid@, fh, Some(sid)).contains_key(other)
            == m.fh_to_sid@.contains_key(other),
        other != fh && m.fh_to_sid@.contains_key(other) ==> LiveFolders::handles_with(
            m.fh_to_sid@,
            fh,
            Some(sid),
        )[other] == m.fh_to_sid@[other],
{
}

// ---------------------------------------------------------------------------
// Owners and snapshots
// ---------------------------------------------------------------------------

/// A file belongs to the tool whose directory it is in, under the first name below that
/// directory; the directory of a tool itself belongs to none. The directory of a tool is the
/// one right below that of all tools.
pub proof fn files_belong_to_the_tool_above_them(
    m: LiveFolders,
    ino: u64,
    tool: Seq<char>,
    file: Seq<char>,
    rest: PathModel,
)
    requires
        m.tools_dir is Some,
    ensures
        ({
            let d = m.tools_dir->0@;
            &&& path_at(m.paths@, ino) == Some(d + seq![tool, file] + rest) ==> m.owner(ino)
                == Some((tool, file))
            &&& path_at(m.paths@, ino) == Some(d + seq![tool]) ==> m.owner(ino) is None
            &&& path_at(m.paths@, ino) is None ==> m.owner(ino) is None
            &&& m.owner(ino) is Some ==> (path_at(m.paths@, ino) matches Some(p)
                && d.is_prefix_of(p) && p.len() >= d.len() + 2)
            &&& m.tool_of_dir(d + seq![tool]) == Some(tool)
            &&& m.tool_of_dir(d) is None
            &&& m.tool_of_dir(d + seq![tool, file] + rest) is None
        }),
{
    let d = m.tools_dir->0@;
    super::texts::what_is_below_a_directory_begins_with_it(d, seq![tool, file] + rest, d);
    super::texts::what_is_below_a_directory_begins_with_it(d, seq![tool], d);
    super::texts::what_is_below_a_directory_begins_with_it(d, Seq::empty(), d);
    assert(d + (seq![tool, file] + rest) =~= d + seq![tool, file] + rest);
    assert((seq![tool, file] + rest)[0] == tool && (seq![tool, file] + rest)[1] == file);
    assert(seq![tool][0] == tool && seq![tool].len() == 1);
    assert(d + Seq::<Seq<char>>::empty() =~= d);
}

/// Without a directory of tools no file belongs to a tool.
pub proof fn no_tools_own_no_files(m: LiveFolders, ino: u64, path: PathModel, tool: Seq<char>)
    requires
        m.tools_dir is None,
    ensures
        m.owner(ino) is None,
        m.tool_of_dir(path) is None,
        m.tool_cwd(tool) == components("."@),
{
}

/// A file is declared if its tool has a valid manifest that has a file of its name; an
/// endpoint is such a file that runs something.
pub proof fn declared_files_are_in_a_valid_manifest(
    m: LiveFolders,
    ino: u64,
    man: Manifest,
    tool: Seq<char>,
    file: Seq<char>,
    f: FileSpec,
)
    ensures
        m.owner(ino) is None ==> m.declared(ino, Some(man)) is None,
        m.declared(ino, None) is None,
        declared_endpoint(None, file) is None,
        ({
            let valid = forall|i: int|
                0 <= i < man.files@.len() ==> super::settings::may_stand(
                    man.files@,
                    #[trigger] man.files@[i],
                );
            &&& !valid ==> m.declared(ino, Some(man)) is None && declared_endpoint(
                Some(man),
                file,
            ) is None && valid_manifest(Some(man)) is None
            &&& valid && m.owner(ino) == Some((tool, file)) ==> m.declared(ino, Some(man))
                == file_named(man.files@, file)
            &&& valid ==> valid_manifest(Some(man)) == Some(man)
            &&& valid && file_named(man.files@, file) == Some(f) ==> declared_endpoint(
                Some(man),
                file,
            ) == (if f.kind == FileKind::WriteInvoke || f.kind == FileKind::ReadInvoke {
                Some(f)
            } else {
                None
            })
            &&& file_named(man.files@, file) is None ==> declared_endpoint(Some(man), file) is None
        }),
{
    super::settings::manifests_are_valid_file_by_file(man.files@, f);
}

/// The snapshot of a declared endpoint has what its manifest declares, and runs in the
/// directory of its tool, where its state file lies too.
pub proof fn snapshots_hold_the_declaration(
    m: LiveFolders,
    ino: u64,
    f: FileSpec,
    tool: Seq<char>,
    file: Seq<char>,
)
    requires
        m.owner(ino) == Some((tool, file)),
        m.tools_dir is Some,
    ensures
        ({
            let s = m.manifest_snapshot(ino, f);
            let dir = join_components(m.tools_dir->0@, tool);
            &&& s.tool_name == tool
            &&& s.file_name == file
            &&& s.cwd == dir
            &&& s.kind == f.kind
            &&& s.handler is Some <==> f.handler is Some
            &&& f.handler matches Some(h) ==> s.handler == Some(h@)
            &&& s.input_schema is Some <==> f.input is Some
            &&& f.input matches Some(i) ==> s.input_schema == Some(i@)
            &&& s.state_file is Some <==> f.state_file is Some
            &&& f.state_file matches Some(t) ==> s.state_file == Some(join_components(dir, t@))
            &&& s.pipe is Some <==> f.pipe is Some
            &&& f.pipe matches Some(p) ==> s.pipe == Some(p@.map_values(|t: String| t@))
            &&& s.timeout_secs == m.timeout_secs
            &&& s.manifest_version == m.manifest_version
        }),
{
}

/// The snapshot of an endpoint without a declaration has no handler, and is one that runs
/// when it is written to.
pub proof fn plain_snapshots_declare_nothing(
    m: LiveFolders,
    tool: Seq<char>,
    file: Seq<char>,
    cwd: PathModel,
    i: int,
    e: int,
)
    requires
        0 <= i < m.registry.names().len(),
        i < 990,
        0 <= e < 90,
        e < m.tool_at(i).model().endpoints.len(),
    ensures
        ({
            let s = m.plain_snapshot(tool, file, cwd);
            &&& s.tool_name == tool
            &&& s.file_name == file
            &&& s.cwd == cwd
            &&& s.kind == FileKind::WriteInvoke
            &&& s.handler is None
            &&& s.input_schema is None
            &&& s.state_file is None
            &&& s.pipe is None
            &&& s.timeout_secs == m.timeout_secs
            &&& s.manifest_version == m.manifest_version
        }),
        ({
            let name = m.registry.names()[i];
            m.builtin_snapshot((tool_ino(i) + 10 + e) as u64) == m.plain_snapshot(
                name,
                m.tool_at(i).model().endpoints[e],
                m.tool_cwd(name),
            )
        }),
        m.tools_dir is Some ==> m.tool_cwd(tool) == join_components(m.tools_dir->0@, tool),
{
    builtin_tools_are_numbered_in_order(m, i, e, 0);
}

// ---------------------------------------------------------------------------
// The root
// ---------------------------------------------------------------------------

/// The files of the root have their texts, and nothing else has one.
pub proof fn the_root_holds_its_documents(m: LiveFolders, facts: DiskFacts, ino: u64)
    ensures
        m.root_text(3, facts) == Some(join(m.registry.index_lines(), "\n"@)),
        m.root_text(4, facts) == Some(ROOT_HOW_TO@),
        m.root_text(5, facts) == Some(ROOT_CREATE_TOOL@),
        m.root_text(6, facts) == Some(m.registry.prompt(m.mount_path@, facts.manifests@)),
        ino < 3 || ino > 6 ==> m.root_text(ino, facts) is None,
{
}

/// The index has a title, the line of every tool in the order of their names, and says where
/// to read on.
pub proof fn the_index_has_every_tool(m: LiveFolders, i: int)
    ensures
        ({
            let lines = m.registry.index_lines();
            let names = m.registry.names();
            &&& lines.len() == names.len() + 2
            &&& lines[0] == "# LiveFolders Tools\n"@
            &&& 0 <= i < names.len() ==> lines[i + 1] == "- **"@ + names[i] + "** — "@
                + m.registry@[names[i]].model().description
            &&& lines.last() == "\nRead `<tool>/how_to.md` to learn how to invoke each tool."@
        }),
{
}

proof fn lemma_root_names()
    ensures
        "how_to.md"@.len() == 9,
        "create_tool.md"@.len() == 14,
        "system_prompt.md"@.len() == 16,
        "index.md"@.len() == 8,
        "tools"@.len() == 5,
        "schema.json"@.len() == 11,
        "anthropic_tools.json"@.len() == 20,
        "how_to.md"@.last() == 'd',
        "schema.json"@.last() == 'n',
        "anthropic_tools.json"@.last() == 'n',
        ".log"@.len() == 4,
        ".log"@.last() == 'g',
{
    reveal_strlit("how_to.md");
    reveal_strlit("create_tool.md");
    reveal_strlit("system_prompt.md");
    reveal_strlit("index.md");
    reveal_strlit("tools");
    reveal_strlit("schema.json");
    reveal_strlit("anthropic_tools.json");
    reveal_strlit(".log");
}

/// The names of the root are found under the numbers that they have: four documents that can
/// be read and have the size of their texts, and the directory of tools. No other name is
/// found.
pub proof fn the_root_has_five_names(m: LiveFolders, facts: DiskFacts, name: Seq<char>)
    ensures
        m.root_entry("how_to.md"@, facts) == Some(
            regular(4, encode_utf8(ROOT_HOW_TO@).len() as int, 0o444),
        ),
        m.root_entry("create_tool.md"@, facts) == Some(
            regular(5, encode_utf8(ROOT_CREATE_TOOL@).len() as int, 0o444),
        ),
        m.root_entry("system_prompt.md"@, facts) == Some(
            regular(
                6,
                encode_utf8(m.registry.prompt(m.mount_path@, facts.manifests@)).len() as int,
                0o444,
            ),
        ),
        m.root_entry("index.md"@, facts) == Some(
            regular(
                3,
                encode_utf8(join(m.registry.index_lines(), "\n"@)).len() as int,
                0o444,
            ),
        ),
        m.root_entry("tools"@, facts) == Some(directory(2)),
        name != "how_to.md"@ && name != "create_tool.md"@ && name != "system_prompt.md"@ && name
            != "index.md"@ && name != "tools"@ ==> m.root_entry(name, facts) is None,
        root_entries().len() == 5,
        m.attr_of(1, facts) == Some(directory(1)),
        m.attr_of(2, facts) == Some(directory(2)),
{
    lemma_root_names();
}

/// The directory of tools has a directory for every tool, under its number, and the index.
pub proof fn the_tools_are_directories(m: LiveFolders, facts: DiskFacts, i: int, name: Seq<char>)
    requires
        m.registry.names().no_duplicates(),
    ensures
        0 <= i < m.registry.names().len() ==> m.tools_entry(m.registry.names()[i], facts) == Some(
            directory(1000 + 100 * i),
        ),
        !m.registry.names().contains("index.md"@) ==> m.tools_entry("index.md"@, facts)
            == m.root_entry("index.md"@, facts),
        !m.registry.names().contains(name) && name != "index.md"@ ==> m.tools_entry(
            name,
            facts,
        ) is None,
        0 <= i < m.registry.names().len() ==> m.tools_entries()[i] == (EntryModel {
            ino: 1000 + 100 * i,
            kind: EntryKind::Directory,
            name: m.registry.names()[i],
        }),
{
    lemma_root_names();
    let names = m.registry.names();
    if 0 <= i < names.len() {
        assert(names.contains(names[i]));
        let k = names.index_of(names[i]);
        assert(names[k] == names[i]);
        assert(m.tools_entries()[i] == m.tool_entries()[i]);
    }
}

/// A built-in tool has its how-to document, where it has a text, and its endpoints, under
/// their numbers; an endpoint is found under the first of its name, and can be written to.
pub proof fn builtin_tools_have_their_endpoints(
    m: LiveFolders,
    idx: int,
    e: int,
    name: Seq<char>,
    facts: DiskFacts,
)
    requires
        0 <= idx < m.registry.names().len(),
        idx < 990,
    ensures
        ({
            let t = m.tool_at(idx).model();
            &&& t.how_to.len() > 0 ==> m.builtin_entry(idx, "how_to.md"@) == Some(
                regular(1001 + 100 * idx, encode_utf8(t.how_to).len() as int, 0o444),
            )
            &&& t.how_to.len() == 0 ==> m.builtin_entry(idx, "how_to.md"@) is None
            &&& 0 <= e < t.endpoints.len() && t.endpoints[e] != "how_to.md"@ && (forall|k: int|
                0 <= k < e ==> #[trigger] t.endpoints[k] != t.endpoints[e]) ==> m.builtin_entry(
                idx,
                t.endpoints[e],
            ) == Some(regular(1010 + 100 * idx + e, 0, 0o644))
            &&& name != "how_to.md"@ && !t.endpoints.contains(name) ==> m.builtin_entry(
                idx,
                name,
            ) is None
            &&& m.builtin_entries(idx).len() == t.endpoints.len() + 1
            &&& m.builtin_entries(idx)[0] == (EntryModel {
                ino: 1001 + 100 * idx,
                kind: EntryKind::RegularFile,
                name: "how_to.md"@,
            })
            &&& 0 <= e < t.endpoints.len() ==> m.builtin_entries(idx)[e + 1] == (EntryModel {
                ino: 1010 + 100 * idx + e,
                kind: EntryKind::RegularFile,
                name: t.endpoints[e],
            })
            &&& m.tool_attr((1000 + 100 * idx) as u64) == Some(directory(1000 + 100 * idx))
            &&& m.tool_attr((1001 + 100 * idx) as u64) == Some(
                regular(1001 + 100 * idx, encode_utf8(t.how_to).len() as int, 0o444),
            )
            &&& 0 <= e < 90 && e < t.endpoints.len() ==> m.tool_attr((1010 + 100 * idx + e) as u64)
                == Some(regular(1010 + 100 * idx + e, 0, 0o644))
        }),
{
    let t = m.tool_at(idx).model();
    if 0 <= e < 90 {
        builtin_tools_are_numbered_in_order(m, idx, e, 0);
    }
    builtin_tools_are_numbered_in_order(m, idx, 0, 0);
    if 0 <= e < t.endpoints.len() {
        let n = t.endpoints[e];
        t.endpoints.index_of_first_ensures(n);
        assert(t.endpoints.contains(n));
        let k = t.endpoints.index_of_first(n)->0;
        assert(t.endpoints[k] == n);
    }
    t.endpoints.index_of_first_ensures(name);
}

// ---------------------------------------------------------------------------
// Files of tools
// ---------------------------------------------------------------------------

/// The file of a name in the directory of a tool: the log of an endpoint has the size of its
/// latest trace, the descriptions have the size of their texts, an endpoint can be written to
/// and has no size, and any other name is what is on disk.
pub proof fn names_of_a_tool_are_found(
    m: LiveFolders,
    tool: Seq<char>,
    name: Seq<char>,
    facts: DiskFacts,
    meta: FileMeta,
)
    requires
        m.tools_dir is Some,
    ensures
        ({
            let dir = join_components(m.tools_dir->0@, tool);
            let path = join_components(dir, name);
            let man = facts.tool_manifest;
            let found = m.external_entry(tool, name, facts);
            let log = name.len() >= 4 && name.subrange(name.len() - 4, name.len() as int) == ".log"@
                && declared_endpoint(man, name.subrange(0, name.len() - 4)) is Some;
            &&& log ==> (found matches Some(e) && e.via.last() == path && !e.is_dir && e.perm
                == 0o444 && e.size == m.trace_at(
                join_components(dir, name.subrange(0, name.len() - 4)),
            ).len())
            &&& man is Some && name == "schema.json"@ && !log ==> (found matches Some(e) && e.via
                == seq![path] && !e.is_dir && e.perm == 0o444 && e.size == encode_utf8(
                json_pretty(schema_tree(man->0)),
            ).len())
            &&& man is Some && name == "anthropic_tools.json"@ && !log ==> (found matches Some(e)
                && e.via == seq![path] && !e.is_dir && e.perm == 0o444 && e.size == encode_utf8(
                json_pretty(anthropic_tools(tool, man->0)),
            ).len())
            &&& !log && (man is None || (name != "schema.json"@ && name
                != "anthropic_tools.json"@)) && declared_endpoint(man, name) is Some ==> (
            found matches Some(e) && e.via == seq![path] && !e.is_dir && e.size == 0 && e.perm
                == 0o644)
            &&& man is Some && name == "how_to.md"@ && facts.meta is None && declared_endpoint(
                man,
                name,
            ) is None ==> (found matches Some(e) && e.via == seq![path] && !e.is_dir && e.perm
                == 0o444 && e.size == encode_utf8(how_to_document(man->0)).len())
            &&& !log && (man is None || (name != "schema.json"@ && name
                != "anthropic_tools.json"@)) && declared_endpoint(man, name) is None && facts.meta
                == Some(meta) ==> (found matches Some(e) && e.via == seq![path] && e.is_dir
                == meta.is_dir && e.size == meta.len && e.perm == meta.mode % 512)
            &&& man is None && facts.meta is None ==> found is None
        }),
{
    lemma_root_names();
    modes_have_nine_bits(meta.mode);
    if name == "how_to.md"@ || name == "schema.json"@ || name == "anthropic_tools.json"@ {
        assert(name.subrange(name.len() - 4, name.len() as int)[3] == name.last());
    }
}

/// Without a directory of tools a name of a tool is not found on disk; and the entry of a
/// name is shown with the number of its path.
pub proof fn entries_have_the_number_of_their_path(
    m: LiveFolders,
    tool: Seq<char>,
    name: Seq<char>,
    facts: DiskFacts,
    paths: Seq<PathModel>,
    e: ChildEntry,
)
    ensures
        m.tools_dir is None ==> m.external_entry(tool, name, facts) is None,
        e.is_dir ==> child_attr(paths, e) == directory(
            number_of(with_paths(paths, e.via), e.via.last()),
        ),
        !e.is_dir ==> child_attr(paths, e) == regular(
            number_of(with_paths(paths, e.via), e.via.last()),
            e.size,
            e.perm,
        ),
{
}

/// Where a name is looked up: in the root and in the directory of tools among their own
/// names, in the directory of a built-in tool first among its endpoints and then on disk, in
/// a directory of a tool on disk among what the tool has, and in any other directory on disk.
pub proof fn names_are_looked_up_in_their_directory(
    m: LiveFolders,
    parent: u64,
    name: Seq<char>,
    facts: DiskFacts,
    i: int,
    dir: PathModel,
    a: FileAttr,
    e: ChildEntry,
)
    ensures
        m.entry(1, Some(name), facts) == Some(Found::Fixed(a)) <==> m.root_entry(name, facts)
            == Some(a),
        m.entry(2, Some(name), facts) == Some(Found::Fixed(a)) <==> m.tools_entry(name, facts)
            == Some(a),
        m.entry(1, Some(name), facts) is Some <==> m.root_entry(name, facts) is Some,
        m.entry(2, Some(name), facts) is Some <==> m.tools_entry(name, facts) is Some,
        0 <= i < m.registry.names().len() && i < 990 ==> {
            let dir_ino = (1000 + 100 * i) as u64;
            let on_disk = m.external_entry(m.registry.names()[i], name, facts);
            &&& m.builtin_entry(i, name) matches Some(b) ==> m.entry(dir_ino, Some(name), facts)
                == Some(Found::Fixed(b))
            &&& m.builtin_entry(i, name) is None ==> (on_disk matches Some(c) ==> m.entry(
                dir_ino,
                Some(name),
                facts,
            ) == Some(Found::Child(c)))
            &&& m.builtin_entry(i, name) is None && on_disk is None ==> m.entry(
                dir_ino,
                Some(name),
                facts,
            ) is None
            &&& m.entry((1001 + 100 * i) as u64, Some(name), facts) is None
            &&& m.entry_tool(dir_ino) == Some(m.registry.names()[i])
            &&& m.tools_dir matches Some(d) ==> m.entry_path(dir_ino, Some(name)) == Some(
                join_components(join_components(d@, m.registry.names()[i]), name),
            )
        },
        path_at(m.paths@, parent) == Some(dir) ==> {
            let on_disk = match m.tool_of_dir(dir) {
                Some(t) => m.external_entry(t, name, facts),
                None => None,
            };
            &&& on_disk matches Some(c) ==> m.entry(parent, Some(name), facts) == Some(
                Found::Child(c),
            )
            &&& on_disk is None && facts.meta is None ==> m.entry(parent, Some(name), facts) is None
            &&& on_disk is None ==> (facts.meta matches Some(meta) ==> (m.entry(
                parent,
                Some(name),
                facts,
            ) matches Some(Found::Child(c)) && c.via == seq![join_components(dir, name)]
                && c.is_dir == meta.is_dir && c.size == meta.len && c.perm == meta.mode % 512))
            &&& m.entry_path(parent, Some(name)) == Some(join_components(dir, name))
            &&& m.entry_tool(parent) == m.tool_of_dir(dir)
        },
{
    if 0 <= i < m.registry.names().len() && i < 990 {
        builtin_tools_are_numbered_in_order(m, i, 0, 0);
    }
    if facts.meta is Some {
        modes_have_nine_bits(facts.meta->0.mode);
    }
}

/// What is said of a file on disk: its size and permissions, with no size where it is a
/// script, since that shows what it gives; of a file that is not there what is made in its
/// place.
pub proof fn files_on_disk_have_their_attributes(
    m: LiveFolders,
    ino: u64,
    facts: DiskFacts,
    path: PathModel,
    meta: FileMeta,
)
    requires
        path_at(m.paths@, ino) == Some(path),
    ensures
        m.made_file(path, facts) is None && facts.meta == Some(meta) && meta.is_dir
            ==> m.external_attr(ino, facts) == Some(directory(ino as int)),
        m.made_file(path, facts) is None && facts.meta == Some(meta) && !meta.is_dir && (meta.mode
            & 1 != 0 || meta.mode & 8 != 0 || meta.mode & 64 != 0) ==> m.external_attr(ino, facts)
            == Some(regular(ino as int, 0, (meta.mode % 512) as u16)),
        m.made_file(path, facts) is None && facts.meta == Some(meta) && !meta.is_dir && meta.mode
            & 1 == 0 && meta.mode & 8 == 0 && meta.mode & 64 == 0 ==> m.external_attr(ino, facts)
            == Some(regular(ino as int, meta.len as int, (meta.mode % 512) as u16)),
        facts.meta is None && file_name_of(path) == Some("how_to.md"@) && parent_of(path) is Some
            && facts.dir_manifest is Some ==> m.external_attr(ino, facts) == Some(
            regular(
                ino as int,
                encode_utf8(how_to_document(facts.dir_manifest->0)).len() as int,
                0o444,
            ),
        ),
        m.made_file(path, facts) is None && facts.meta is None && !(file_name_of(path) == Some(
            "how_to.md"@,
        ) && parent_of(path) is Some && facts.dir_manifest is Some) ==> (m.external_attr(
            ino,
            facts,
        ) is Some <==> (m.declared(ino, facts.tool_manifest) matches Some(f) && (f.kind
            == FileKind::WriteInvoke || f.kind == FileKind::ReadInvoke))),
        m.attr_of(ino, facts) == m.external_attr(ino, facts),
{
    modes_have_nine_bits(meta.mode);
}

// ---------------------------------------------------------------------------
// Listings
// ---------------------------------------------------------------------------

/// A directory on disk lists what is in it, each name with what it is.
pub proof fn items_are_listed_as_they_are(items: Seq<DirItem>, i: int)
    ensures
        listed(items).len() == items.len(),
        0 <= i < items.len() ==> listed(items)[i].0 == items[i].name@,
        0 <= i < items.len() ==> (listed(items)[i].1 == EntryKind::Directory <==> items[i].is_dir),
        kind_of(true) == EntryKind::Directory,
        kind_of(false) == EntryKind::RegularFile,
        tool_listing(items, None) == listed(items),
{
}

/// A name that a listing lacks is added behind it, as a file; a name that it has is not
/// added.
pub proof fn missing_names_are_added(l: Seq<NamedKind>, n: Seq<char>, f: FileSpec, i: int)
    requires
        n != "."@,
        n != ".."@,
    ensures
        (forall|k: int| 0 <= k < l.len() ==> (#[trigger] l[k]).0 != n) ==> add_missing(l, n)
            == l.push((n, EntryKind::RegularFile)),
        0 <= i < l.len() && l[i].0 == n ==> add_missing(l, n) == l,
        f.kind == FileKind::WriteInvoke || f.kind == FileKind::ReadInvoke ==> add_declared(l, f)
            == add_missing(add_missing(l, f.name@), f.name@ + ".log"@),
        f.kind == FileKind::Readonly || f.kind == FileKind::Passthrough ==> add_declared(l, f)
            == add_missing(l, f.name@),
{
}

/// A tool with a manifest lists what is on disk first, then what else it has, in a fixed
/// order: nothing that is on disk moves, and nothing is listed that the tool does not have.
pub proof fn listings_begin_with_the_disk(
    items: Seq<DirItem>,
    m: Manifest,
    f: FileSpec,
    with: Manifest,
)
    requires
        with.files@ == m.files@.push(f),
    ensures
        tool_listing(items, Some(with)) == add_declared(tool_listing(items, Some(m)), f),
        m.files@.len() == 0 ==> tool_listing(items, Some(m)) == add_missing(
            add_missing(add_missing(listed(items), "how_to.md"@), "schema.json"@),
            "anthropic_tools.json"@,
        ),
{
    assert(m.files@.push(f).drop_last() =~= m.files@);
}

/// Each name in a listing comes with the number of its path, and the directory itself and
/// the root come first.
pub proof fn listed_names_have_the_number_of_their_path(
    paths: Seq<PathModel>,
    dir: PathModel,
    names: Seq<NamedKind>,
    i: int,
    ino: int,
)
    ensures
        dots(ino) == seq![
            EntryModel { ino, kind: EntryKind::Directory, name: "."@ },
            EntryModel { ino: 1, kind: EntryKind::Directory, name: ".."@ },
        ],
        disk_entries(paths, dir, names).len() == names.len(),
        child_paths(dir, names).len() == names.len(),
        0 <= i < names.len() ==> child_paths(dir, names)[i] == join_components(dir, names[i].0),
        0 <= i < names.len() ==> disk_entries(paths, dir, names)[i] == (EntryModel {
            ino: number_of(paths, join_components(dir, names[i].0)),
            kind: names[i].1,
            name: names[i].0,
        }),
{
}

/// What a directory lists: the root and the directory of tools their own names; that of a
/// tool what is on disk, or its endpoints where nothing is on disk; any other directory what
/// is in it. Nothing else is a directory.
pub proof fn directories_list_what_they_hold(
    m: LiveFolders,
    ino: u64,
    facts: DirFacts,
    i: int,
    dir: PathModel,
)
    ensures
        m.dir_target(1, facts) == DirTarget::Fixed(root_entries()),
        m.dir_target(2, facts) == DirTarget::Fixed(m.tools_entries()),
        0 <= i < m.registry.names().len() && i < 990 ==> {
            let dir_ino = (1000 + 100 * i) as u64;
            &&& m.tools_dir is Some && facts.is_dir ==> m.dir_target(dir_ino, facts)
                == DirTarget::OnDisk(
                join_components(m.tools_dir->0@, m.registry.names()[i]),
                tool_listing(facts.items@, facts.manifest),
            )
            &&& m.tools_dir is None || !facts.is_dir ==> m.dir_target(dir_ino, facts)
                == DirTarget::Fixed(m.builtin_entries(i))
            &&& m.dir_target((1001 + 100 * i) as u64, facts) is NotDirectory
        },
        path_at(m.paths@, ino) == Some(dir) ==> m.dir_target(ino, facts) == DirTarget::OnDisk(
            dir,
            listed(facts.items@),
        ),
        ino > 2 && m.tool_index(ino) is None && path_at(m.paths@, ino) is None ==> m.dir_target(
            ino,
            facts,
        ) is Missing,
        m.is_listed(ino, facts) <==> !(m.dir_target(ino, facts) is Missing || m.dir_target(
            ino,
            facts,
        ) is NotDirectory),
{
    if 0 <= i < m.registry.names().len() && i < 990 {
        builtin_tools_are_numbered_in_order(m, i, 0, 0);
    }
}

/// The directory that a number leads to, and the path of a name in it.
pub proof fn numbers_lead_to_directories(m: LiveFolders, ino: u64, dir: PathModel, i: int, name: Seq<char>)
    ensures
        path_at(m.paths@, ino) == Some(dir) ==> m.dir_of(ino) == Some(dir) && m.child_of(ino, name)
            == Some(join_components(dir, name)),
        0 <= i < m.registry.names().len() && i < 990 ==> (m.tools_dir matches Some(d) ==> m.dir_of(
            (1000 + 100 * i) as u64,
        ) == Some(join_components(d@, m.registry.names()[i]))),
        m.tools_dir is None && path_at(m.paths@, ino) is None ==> m.dir_of(ino) is None
            && m.child_of(ino, name) is None,
{
    if 0 <= i < m.registry.names().len() && i < 990 {
        builtin_tools_are_numbered_in_order(m, i, 0, 0);
    }
}

// ---------------------------------------------------------------------------
// Reading and writing
// ---------------------------------------------------------------------------

/// What a read of a file on disk gives: the descriptions of a tool that has a manifest are
/// made, its how-to document where there is none on disk, and every other file that is not a
/// log is read from disk.
pub proof fn descriptions_are_made_when_read(
    m: LiveFolders,
    dir: PathModel,
    tool: Seq<char>,
    facts: DiskFacts,
    man: Manifest,
    name: Seq<char>,
)
    requires
        name != "/"@ && name != "."@ && name != ".."@,
        tool != "/"@ && tool != "."@ && tool != ".."@,
        m.log_path(dir.push(tool).push(name), facts) is None,
    ensures
        facts.dir_manifest == Some(man) && name == "schema.json"@ ==> m.file_target(
            dir.push(tool).push(name),
            facts,
        ) == ReadTarget::Bytes(encode_utf8(json_pretty(schema_tree(man)))),
        facts.dir_manifest == Some(man) && name == "anthropic_tools.json"@ ==> m.file_target(
            dir.push(tool).push(name),
            facts,
        ) == ReadTarget::Bytes(encode_utf8(json_pretty(anthropic_tools(tool, man)))),
        facts.dir_manifest == Some(man) && name == "how_to.md"@ && facts.meta is None
            ==> m.file_target(dir.push(tool).push(name), facts) == ReadTarget::Bytes(
            encode_utf8(how_to_document(man)),
        ),
        facts.dir_manifest is None || (name != "schema.json"@ && name != "anthropic_tools.json"@
            && (name != "how_to.md"@ || facts.meta is Some)) ==> m.file_target(
            dir.push(tool).push(name),
            facts,
        ) == ReadTarget::Disk(dir.push(tool).push(name)),
{
    lemma_root_names();
    super::texts::a_file_is_its_name_in_its_directory(dir.push(tool), name);
    super::texts::a_file_is_its_name_in_its_directory(dir, tool);
    assert(dir_name(dir.push(tool).push(name)) == tool);
}

/// What a read of each kind of file gives: a declared endpoint and a script their result, a
/// document of the root its text, a built-in tool its how-to document and the results of its
/// endpoints; files on disk are read from there.
pub proof fn reads_give_what_a_file_is(
    m: LiveFolders,
    ino: u64,
    facts: DiskFacts,
    path: PathModel,
    i: int,
    e: int,
)
    ensures
        path_at(m.paths@, ino) == Some(path) ==> {
            &&& m.declared(ino, facts.tool_manifest) matches Some(f) ==> if f.kind
                == FileKind::WriteInvoke || f.kind == FileKind::ReadInvoke {
                m.read_target(ino, facts) == ReadTarget::Slot(m.manifest_snapshot(ino, f))
            } else {
                m.read_target(ino, facts) == m.file_target(path, facts)
            }
            &&& m.declared(ino, facts.tool_manifest) is None ==> if m.is_script(ino, facts) {
                m.read_target(ino, facts) == ReadTarget::Slot(m.script_snapshot(ino))
            } else {
                m.read_target(ino, facts) == m.file_target(path, facts)
            }
        },
        m.root_text(ino, facts) matches Some(t) ==> m.read_target(ino, facts) == ReadTarget::Bytes(
            encode_utf8(t),
        ),
        0 <= i < m.registry.names().len() && i < 990 ==> {
            &&& m.read_target((1001 + 100 * i) as u64, facts) == ReadTarget::Bytes(
                encode_utf8(m.tool_at(i).model().how_to),
            )
            &&& 0 <= e < 90 && e < m.tool_at(i).model().endpoints.len() ==> m.read_target(
                (1010 + 100 * i + e) as u64,
                facts,
            ) == ReadTarget::Slot(m.builtin_snapshot((1010 + 100 * i + e) as u64))
        },
        m.read_target(1, facts) is Missing,
        m.read_target(2, facts) is Missing,
{
    if 0 <= i < m.registry.names().len() && i < 990 {
        builtin_tools_are_numbered_in_order(m, i, 0, 0);
        if 0 <= e < 90 {
            builtin_tools_are_numbered_in_order(m, i, e, 0);
        }
    }
}

/// A script is a file that can be executed, in the directory of a registered tool, that its
/// manifest does not declare.
pub proof fn scripts_are_undeclared_executables(m: LiveFolders, ino: u64, facts: DiskFacts)
    ensures
        m.is_script(ino, facts) <==> {
            &&& m.declared(ino, facts.tool_manifest) is None
            &&& facts.meta matches Some(meta) && !meta.is_dir && (meta.mode & 1 != 0 || meta.mode
                & 8 != 0 || meta.mode & 64 != 0)
            &&& m.owner(ino) matches Some(o) && m.registry@.contains_key(o.0)
        },
        m.is_script(ino, facts) ==> m.script_of(ino) == m.owner(ino),
        m.is_endpoint(ino, facts) <==> m.ep_index(ino) is Some || m.is_script(ino, facts) || (
        m.declared(ino, facts.tool_manifest) matches Some(f) && (f.kind == FileKind::WriteInvoke
            || f.kind == FileKind::ReadInvoke)),
{
    if facts.meta is Some {
        modes_have_nine_bits(facts.meta->0.mode);
    }
}

/// A file can be written to if it is an endpoint of a built-in tool, or on disk and not
/// declared to be read only.
pub proof fn files_can_be_written_unless_read_only(m: LiveFolders, ino: u64, facts: DiskFacts, size: u64)
    ensures
        m.is_writable(ino, facts) <==> m.ep_index(ino) is Some || (m.declared(
            ino,
            facts.tool_manifest,
        ) matches Some(f) && f.kind != FileKind::Readonly) || (m.declared(
            ino,
            facts.tool_manifest,
        ) is None && path_at(m.paths@, ino) is Some),
        !m.is_protected(ino, None, facts),
        m.is_protected(ino, Some(size), facts) <==> (m.declared(ino, facts.tool_manifest) matches Some(
            f,
        ) && f.kind == FileKind::Readonly),
{
}

/// What a write goes to: the slot of the declared file, of the endpoint of a built-in tool,
/// or of the file in its directory.
pub proof fn writes_go_to_the_slot_of_their_file(
    m: LiveFolders,
    ino: u64,
    facts: DiskFacts,
    dir: PathModel,
    name: Seq<char>,
)
    requires
        name != "/"@,
    ensures
        m.declared(ino, facts.tool_manifest) matches Some(f) ==> m.write_snapshot(ino, facts)
            == m.manifest_snapshot(ino, f),
        m.declared(ino, facts.tool_manifest) is None && m.ep_index(ino) is Some
            ==> m.write_snapshot(ino, facts) == m.builtin_snapshot(ino),
        m.declared(ino, facts.tool_manifest) is None && m.ep_index(ino) is None && path_at(
            m.paths@,
            ino,
        ) == Some(dir.push(name)) ==> m.write_snapshot(ino, facts) == m.plain_snapshot(
            Seq::empty(),
            Seq::empty(),
            dir,
        ),
        path_at(m.paths@, ino) == Some(dir.push(name)) && m.script_of(ino) is Some
            ==> m.script_snapshot(ino) == m.plain_snapshot(
            (m.owner(ino)->0).0,
            (m.owner(ino)->0).1,
            dir,
        ),
{
    reveal_strlit("");
    assert(""@ =~= Seq::<char>::empty());
    super::texts::a_file_is_its_name_in_its_directory(dir, name);
}

/// What the closing of a file does depends on what the file is: a declared endpoint that runs
/// when it is written to is started, a file on disk that is none is written to disk, a script
/// and the endpoint of a built-in tool are run, and any other file is left as it is.
pub proof fn closing_acts_on_what_a_file_is(
    m: LiveFolders,
    after: LiveFolders,
    ino: u64,
    key: SlotKey,
    facts: DiskFacts,
    now: u64,
    r: ReleaseAction,
    path: PathModel,
)
    requires
        m.released(&after, ino, key, facts, now, r),
    ensures
        path_at(m.paths@, ino) == Some(path) ==> {
            let script = facts.meta matches Some(meta) && (meta.mode & 1 != 0 || meta.mode & 8 != 0
                || meta.mode & 64 != 0);
            &&& m.declared(ino, facts.tool_manifest) matches Some(f) ==> {
                &&& f.kind == FileKind::WriteInvoke ==> m.kicked(
                    &after,
                    key,
                    slot_or_fresh(m.slots@, key, m.manifest_snapshot(ino, f), now),
                    now,
                    r,
                )
                &&& f.kind == FileKind::Passthrough ==> m.flushed(&after, key, path, r)
                &&& f.kind == FileKind::ReadInvoke || f.kind == FileKind::Readonly ==> r is Nothing
                    && after.slots@ == m.slots@
            }
            &&& m.declared(ino, facts.tool_manifest) is None && !script ==> m.flushed(
                &after,
                key,
                path,
                r,
            )
            &&& m.declared(ino, facts.tool_manifest) is None && script && m.script_of(ino) is Some
                ==> m.handed_over(
                &after,
                key,
                slot_or_fresh(m.slots@, key, m.script_snapshot(ino), now),
                (m.owner(ino)->0).0,
                (m.owner(ino)->0).1,
                now,
                r,
            )
            &&& m.declared(ino, facts.tool_manifest) is None && script && m.script_of(ino) is None
                ==> r is Nothing && after.slots@ == m.slots@
        },
        path_at(m.paths@, ino) is None && m.ep_index(ino) is None ==> r is Nothing && after.slots@
            == m.slots@,
        path_at(m.paths@, ino) is None ==> (m.ep_index(ino) matches Some(at) ==> m.handed_over(
            &after,
            key,
            slot_or_fresh(m.slots@, key, m.builtin_snapshot(ino), now),
            m.registry.names()[at.0],
            m.tool_at(at.0).model().endpoints[at.1],
            now,
            r,
        )),
{
    if facts.meta is Some {
        modes_have_nine_bits(facts.meta->0.mode);
    }
}

/// What keeps a mount as it is keeps its tools, its sessions and its settings.
pub proof fn the_same_mount_has_the_same_tools(a: LiveFolders, b: LiveFolders, ino: u64)
    requires
        a.same_mount(&b),
    ensures
        a.registry == b.registry,
        a.sessions == b.sessions,
        a.session == b.session,
        a.tools_dir == b.tools_dir,
        a.mount_path == b.mount_path,
        a.timeout_secs == b.timeout_secs,
        a.sandbox_mode == b.sandbox_mode,
        a.manifest_version == b.manifest_version,
        a.tool_index(ino) == b.tool_index(ino),
        a.ep_index(ino) == b.ep_index(ino),
        a.same_settings(&b),
        a.same_handles(&b) ==> a.fh_to_sid@ == b.fh_to_sid@ && a.next_fh == b.next_fh,
{
}

} // verus!
