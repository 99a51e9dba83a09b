//! What is held in order, under a key, or in a document.
use crate::fs::data::{pending_edits, ReleaseAction};
use crate::fs::invocation::{edited, EditModel, EndpointSnapshot, SlotKey};
use crate::fs::lookup::declared_endpoint;
use crate::fs::path_table::{number_of, PathModel};
use crate::fs::slot_table::{latest_trace, slot_at};
use crate::fs::vfs::{DiskFacts, LiveFolders};
use crate::json::{field, fields_map, object_of, tree, Json, JsonTree};
use crate::manifest::{input_view, list_view, InputSchema, Manifest};
use crate::order::{ascending, before, sorted};
use crate::paths::{join_components, join_text};
use crate::registry::session::{with_value, without_value, SessionState};
use crate::registry::{Invocation, Session, Tool};
use crate::text::opt_view;
use crate::tools::echo::EchoTool;
use crate::tools::external::{endpoint_schema, ExternalTool};
use crate::tools::github::GitHubTool;
use crate::tools::validate::{accepts, complaint};
use vstd::prelude::*;

verus! {

/// Texts are in order if no text comes behind one that it should come before; they ascend if
/// each comes before the next one.
pub proof fn order_holds_between_neighbours(s: Seq<Seq<char>>)
    ensures
        ascending(s) <==> forall|i: int|
            0 <= i < s.len() - 1 ==> before(#[trigger] s[i], s[i + 1]),
        sorted(s) <==> forall|i: int| 0 <= i < s.len() - 1 ==> !before(s[i + 1], #[trigger] s[i]),
{
    if forall|i: int| 0 <= i < s.len() - 1 ==> before(#[trigger] s[i], s[i + 1]) {
        assert forall|i: int, j: int| 0 <= i < j < s.len() implies before(
            #[trigger] s[i],
            #[trigger] s[j],
        ) by {
            lemma_ascends(s, i, j);
        }
    }
    if forall|i: int| 0 <= i < s.len() - 1 ==> !before(s[i + 1], #[trigger] s[i]) {
        assert forall|i: int, j: int| 0 <= i < j < s.len() implies !before(
            #[trigger] s[j],
            #[trigger] s[i],
        ) by {
            lemma_in_order(s, i, j);
        }
    }
}

proof fn lemma_ascends(s: Seq<Seq<char>>, i: int, j: int)
    requires
        forall|k: int| 0 <= k < s.len() - 1 ==> before(#[trigger] s[k], s[k + 1]),
        0 <= i < j < s.len(),
    ensures
        before(s[i], s[j]),
    decreases j - i,
{
    assert(before(s[i], s[i + 1]));
    if i + 1 < j {
        lemma_ascends(s, i + 1, j);
        crate::order::lemma_before_transitive(s[i], s[i + 1], s[j]);
    }
}

proof fn lemma_in_order(s: Seq<Seq<char>>, i: int, j: int)
    requires
        forall|k: int| 0 <= k < s.len() - 1 ==> !before(s[k + 1], #[trigger] s[k]),
        0 <= i < j < s.len(),
    ensures
        !before(s[j], s[i]),
    decreases j - i,
{
    assert(!before(s[i + 1], s[i]));
    if i + 1 < j {
        lemma_in_order(s, i + 1, j);
        if before(s[j], s[i]) {
            if s[i] == s[i + 1] {
            } else {
                crate::order::lemma_before_total(s[i], s[i + 1]);
                crate::order::lemma_before_transitive(s[j], s[i], s[i + 1]);
            }
        }
    }
}

// ---------------------------------------------------------------------------
// Documents
// ---------------------------------------------------------------------------

/// An object has the fields that it was made of; of two of one name the later one counts.
pub proof fn objects_have_their_fields(
    fields: Seq<(Seq<char>, JsonTree)>,
    key: Seq<char>,
    value: JsonTree,
    other: Seq<char>,
)
    ensures
        field(object_of(Seq::empty()), key) is None,
        field(object_of(fields.push((key, value))), key) == Some(value),
        other != key ==> field(object_of(fields.push((key, value))), other) == field(
            object_of(fields),
            other,
        ),
{
    assert(fields.push((key, value)).drop_last() =~= fields);
    assert(fields_map(Seq::<(Seq<char>, JsonTree)>::empty()) =~= Map::empty());
}

/// Only an object has fields.
pub proof fn only_objects_have_fields(t: JsonTree, key: Seq<char>)
    ensures
        !(t is Object) ==> field(t, key) is None,
        t matches JsonTree::Object(m) ==> (field(t, key) is Some <==> m.contains_key(key)),
        t matches JsonTree::Object(m) ==> (m.contains_key(key) ==> field(t, key) == Some(m[key])),
{
}

/// A document stands for the tree of its parts.
pub proof fn documents_stand_for_their_parts(j: Json, i: int)
    ensures
        match j {
            Json::Null => tree(j) is Null,
            Json::Bool(b) => tree(j) == JsonTree::Bool(b),
            Json::Number(n) => tree(j) == JsonTree::Number(n),
            Json::Str(s) => tree(j) == JsonTree::Str(s@),
            Json::Array(v) => tree(j) matches JsonTree::Array(a) && a.len() == v@.len() && (0 <= i
                < v@.len() ==> a[i] == tree(v@[i])),
            Json::Object(_) => tree(j) is Object,
        },
{
}

/// A declared input is seen with everything that was declared of it; so is an optional text,
/// and an optional list of texts.
pub proof fn declarations_are_seen_whole(i: InputSchema, s: String, v: Vec<String>)
    ensures
        i@.kind == i.kind,
        i@.min_length == i.min_length,
        i@.max_length == i.max_length,
        i@.pattern is Some <==> i.pattern is Some,
        i.pattern matches Some(p) ==> i@.pattern == Some(p@),
        i@.schema is Some <==> i.schema is Some,
        i.schema matches Some(j) ==> i@.schema == Some(tree(j)),
        input_view(None) is None,
        input_view(Some(i)) == Some(i@),
        opt_view(None) is None,
        opt_view(Some(s)) == Some(s@),
        list_view(None) is None,
        list_view(Some(v)) == Some(v@.map_values(|t: String| t@)),
{
}

/// A snapshot is seen with everything that it holds.
pub proof fn snapshots_are_seen_whole(s: EndpointSnapshot)
    ensures
        s@.tool_name == s.tool_name@,
        s@.file_name == s.file_name@,
        s@.cwd == s.cwd@,
        s@.kind == s.kind,
        s@.handler is Some <==> s.handler is Some,
        s.handler matches Some(h) ==> s@.handler == Some(h@),
        s@.input_schema is Some <==> s.input_schema is Some,
        s.input_schema matches Some(i) ==> s@.input_schema == Some(i@),
        s@.state_file is Some <==> s.state_file is Some,
        s.state_file matches Some(p) ==> s@.state_file == Some(p@),
        s@.pipe is Some <==> s.pipe is Some,
        s.pipe matches Some(v) ==> s@.pipe == Some(v@.map_values(|t: String| t@)),
        s@.timeout_secs == s.timeout_secs,
        s@.manifest_version == s.manifest_version,
{
}

// ---------------------------------------------------------------------------
// Sessions and tools
// ---------------------------------------------------------------------------

/// A value that is set in a session is there, and nothing else changes: no other key, and no
/// other session; the same for one that is removed.
pub proof fn sessions_hold_what_is_set(
    states: Seq<SessionState>,
    id: int,
    key: Seq<char>,
    value: Seq<u8>,
    other: Seq<char>,
    j: int,
)
    requires
        0 <= id < states.len(),
    ensures
        ({
            let after = with_value(states, id, key, value);
            &&& after.len() == states.len()
            &&& after[id].contains_key(key) && after[id][key] == value
            &&& other != key ==> after[id].contains_key(other) == states[id].contains_key(other)
            &&& other != key && states[id].contains_key(other) ==> after[id][other]
                == states[id][other]
            &&& 0 <= j < states.len() && j != id ==> after[j] == states[j]
        }),
        ({
            let after = without_value(states, id, key);
            &&& after.len() == states.len()
            &&& !after[id].contains_key(key)
            &&& other != key ==> after[id].contains_key(other) == states[id].contains_key(other)
            &&& other != key && states[id].contains_key(other) ==> after[id][other]
                == states[id][other]
            &&& 0 <= j < states.len() && j != id ==> after[j] == states[j]
        }),
{
}

/// The tools that come with the library leave every session as it is.
pub proof fn tools_leave_sessions_alone(
    echo: EchoTool,
    github: GitHubTool,
    external: ExternalTool,
    endpoint: Seq<char>,
    input: Seq<u8>,
    session: Session,
    states: Seq<SessionState>,
)
    ensures
        echo.updates(endpoint, input, session, states) == states,
        github.updates(endpoint, input, session, states) == states,
        external.updates(endpoint, input, session, states) == states,
{
}

/// A tool on disk runs the script of the endpoint's name in its own directory, on every
/// input that is taken there, for as long as is allowed; any other input is refused with what
/// is wrong with it.
pub proof fn tools_on_disk_run_their_scripts(
    t: ExternalTool,
    endpoint: Seq<char>,
    input: Seq<u8>,
    manifest: Option<&Manifest>,
    r: Invocation,
)
    requires
        t.answers(endpoint, input, manifest, r),
    ensures
        ({
            let taken = endpoint_schema(manifest, endpoint) matches Some(s) ==> accepts(input, s);
            &&& taken ==> (r matches Invocation::Script(s) && s.script@ == join_components(
                t.tool_dir(),
                endpoint,
            ) && s.script.shown() == join_text(t.tool_place(), endpoint) && s.dir@ == t.tool_dir()
                && s.tool@ == t.tool_name() && s.endpoint@ == endpoint && s.timeout_secs
                == t.timeout())
            &&& !taken ==> (r matches Invocation::Done(d) && d.output@ == Seq::<u8>::empty() && (
            d.error matches Some(e) && e@ == "[ERROR:INVALID_INPUT] "@ + complaint(
                input,
                endpoint_schema(manifest, endpoint)->0,
            )))
        }),
        t.model().name == t.tool_name(),
        t.model().endpoints.len() == 0,
        t.model().how_to == Seq::<char>::empty(),
{
    reveal_strlit("");
    assert(""@ =~= Seq::<char>::empty());
    if let Invocation::Done(d) = r {
        let s = endpoint_schema(manifest, endpoint);
        if s is Some {
            super::runs::refused_inputs_do_not_run(input, s->0, d);
        }
    }
}

// ---------------------------------------------------------------------------
// Logs and files on disk
// ---------------------------------------------------------------------------

/// A name is that of a log exactly if it is the name of a declared endpoint with `.log`
/// behind it.
pub proof fn logs_are_named_after_their_endpoint(m: Option<Manifest>, ep: Seq<char>, name: Seq<char>)
    ensures
        declared_endpoint(m, ep) is Some ==> LiveFolders::logged_endpoint(ep + ".log"@, m) == Some(
            ep,
        ),
        LiveFolders::logged_endpoint(name, m) matches Some(e) ==> name == e + ".log"@
            && declared_endpoint(m, e) is Some,
{
    super::texts::affixes_are_stripped(ep + ".log"@, ".log"@, ep);
    super::texts::affixes_are_stripped(name, ".log"@, ep);
}

/// The trace of a path is the latest one of its number, and empty where there is none.
pub proof fn traces_are_found_by_path(m: LiveFolders, path: PathModel)
    ensures
        !m.paths@.contains(path) ==> m.trace_at(path).len() == 0,
        m.paths@.contains(path) ==> match latest_trace(
            m.slots@,
            number_of(m.paths@, path) as u64,
        ) {
            Some(t) => m.trace_at(path) == t,
            None => m.trace_at(path).len() == 0,
        },
{
}

/// An endpoint is cleared by a removal exactly if it is declared, in the directory of a tool,
/// and nothing of its name is on disk.
pub proof fn declared_endpoints_are_cleared(
    m: LiveFolders,
    parent: u64,
    name: Seq<char>,
    facts: DiskFacts,
)
    ensures
        m.clears_endpoint(parent, name, facts) <==> facts.meta is None && declared_endpoint(
            facts.tool_manifest,
            name,
        ) is Some && (m.dir_of(parent) matches Some(d) && m.tool_of_dir(d) is Some),
{
}

/// What was written to a file on disk goes there when it is closed, all of it and once: its
/// slot is gone then, and where nothing was written nothing is done.
pub proof fn files_are_written_once(
    before: LiveFolders,
    after: LiveFolders,
    key: SlotKey,
    path: PathModel,
    r: ReleaseAction,
    bytes: Seq<u8>,
    other: SlotKey,
)
    requires
        before.flushed(&after, key, path, r),
    ensures
        slot_at(before.slots@, key) is None ==> r is Nothing,
        slot_at(before.slots@, key) matches Some(s) ==> (s.edits.len() == 0 ==> r is Nothing) && (
        s.edits.len() > 0 ==> (r matches ReleaseAction::WriteFile { path: p, .. } && p@ == path))
            && r.file_after(bytes) == edited(bytes, s.edits),
        slot_at(after.slots@, key) is None,
        pending_edits(after.slots@, key) == Seq::<EditModel>::empty(),
        other != key ==> slot_at(after.slots@, other) == slot_at(before.slots@, other),
        after.next_ticket == before.next_ticket,
{
}

} // verus!
