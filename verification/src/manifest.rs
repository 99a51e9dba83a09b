//! Tool manifests: what a `folder.yaml` declares.
use crate::json::{Json, JsonTree};
use crate::split::views;
use crate::text::{opt_view, same};
use vstd::prelude::*;

verus! {

/// How a file of a tool behaves.
#[derive(Clone, Copy, Debug, PartialEq, Eq, Structural)]
pub enum FileKind {
    /// A write hands the input to a handler, a read gives its result.
    WriteInvoke,
    /// A read runs a handler and gives its result.
    ReadInvoke,
    /// Reads and writes go to the file on disk.
    Passthrough,
    /// Reads go to the file on disk.
    Readonly,
}

/// What input an endpoint takes.
#[derive(Clone, Copy, Debug, PartialEq, Eq, Structural)]
pub enum InputKind {
    String,
    Json,
    Empty,
}

/// Constraints on the input of an endpoint.
#[derive(Clone, Debug)]
pub struct InputSchema {
    pub kind: InputKind,
    /// Minimum character count (string inputs only).
    pub min_length: Option<usize>,
    /// Maximum character count (string inputs only).
    pub max_length: Option<usize>,
    /// Regex pattern the full input must match (string inputs only).
    pub pattern: Option<String>,
    /// JSON Schema subset (JSON inputs only): `required` and `properties[*].type`.
    pub schema: Option<Json>,
}

impl InputSchema {
    /// A schema of a kind without further constraints.
    pub fn of_kind(kind: InputKind) -> (r: Self)
        ensures
            r.kind == kind,
            r.min_length is None,
            r.max_length is None,
            r.pattern is None,
            r.schema is None,
    {
        InputSchema { kind, min_length: None, max_length: None, pattern: None, schema: None }
    }
}

/// What a schema constrains.
pub struct InputModel {
    pub kind: InputKind,
    pub min_length: Option<usize>,
    pub max_length: Option<usize>,
    pub pattern: Option<Seq<char>>,
    pub schema: Option<JsonTree>,
}

impl View for InputSchema {
    type V = InputModel;

    open spec fn view(&self) -> InputModel {
        InputModel {
            kind: self.kind,
            min_length: self.min_length,
            max_length: self.max_length,
            pattern: opt_view(self.pattern),
            schema: match self.schema {
                None => None,
                Some(j) => Some(j@),
            },
        }
    }
}

/// The optional view of an optional schema.
pub open spec fn input_view(input: Option<InputSchema>) -> Option<InputModel> {
    match input {
        None => None,
        Some(i) => Some(i@),
    }
}

/// The optional views of an optional list of texts.
pub open spec fn list_view(list: Option<Vec<String>>) -> Option<Seq<Seq<char>>> {
    match list {
        None => None,
        Some(v) => Some(views(v@)),
    }
}

impl InputSchema {
    /// A copy of the schema.
    pub fn copy(&self) -> (r: Self)
        ensures
            r@ == self@,
    {
        InputSchema {
            kind: self.kind,
            min_length: self.min_length,
            max_length: self.max_length,
            pattern: self.pattern.clone(),
            schema: crate::json::copy_opt(&self.schema),
        }
    }
}

/// A copy of an optional schema.
pub fn copy_input(input: &Option<InputSchema>) -> (r: Option<InputSchema>)
    ensures
        input_view(r) == input_view(*input),
{
    match input {
        None => None,
        Some(i) => Some(i.copy()),
    }
}

/// A copy of an optional list of texts.
pub fn copy_list(list: &Option<Vec<String>>) -> (r: Option<Vec<String>>)
    ensures
        list_view(r) == list_view(*list),
{
    match list {
        None => None,
        Some(v) => Some(crate::paths::copy_texts(v)),
    }
}

/// A file that a tool declares.
#[derive(Clone, Debug)]
pub struct FileSpec {
    pub name: String,
    pub kind: FileKind,
    pub handler: Option<String>,
    pub input: Option<InputSchema>,
    /// Path to a state file (relative to the tool directory). An exclusive
    /// advisory lock on this file is held for the duration of each handler
    /// invocation, and its resolved path is passed to the handler as the
    /// `LIVEFOLDERS_STATE_FILE` environment variable.
    pub state_file: Option<String>,
    /// Ordered list of endpoint names to chain. The stdout of each stage becomes
    /// the stdin of the next. When set, `handler` must be absent.
    pub pipe: Option<Vec<String>>,
    /// Left out of the listings for agents.
    pub hidden: bool,
    /// What the endpoint does.
    pub description: Option<String>,
}

/// Paths that a sandboxed tool may touch.
#[derive(Clone, Debug, Default)]
pub struct SandboxFsSpec {
    pub read: Vec<String>,
    pub write: Vec<String>,
}

/// Resource limits of a sandboxed tool.
#[derive(Clone, Debug, Default)]
pub struct SandboxResourceSpec {
    pub max_procs: Option<u64>,
    pub max_memory_mb: Option<u64>,
}

/// The sandbox section of a manifest.
#[derive(Clone, Debug, Default)]
pub struct SandboxSpec {
    pub fs: SandboxFsSpec,
    /// `None` uses the global default (deny network), `Some(true)` allows network.
    pub network: Option<bool>,
    pub resources: SandboxResourceSpec,
}

/// An environment variable that a tool reads.
#[derive(Clone, Debug)]
pub struct EnvDecl {
    pub name: String,
    pub description: Option<String>,
    pub required: bool,
    pub default: Option<String>,
}

/// What a `folder.yaml` declares.
#[derive(Debug, Default)]
pub struct Manifest {
    pub name: Option<String>,
    pub description: Option<String>,
    pub version: Option<String>,
    pub env: Vec<EnvDecl>,
    pub files: Vec<FileSpec>,
    pub sandbox: Option<SandboxSpec>,
}

/// The names of a list of declared files.
pub open spec fn file_names(files: Seq<FileSpec>) -> Seq<Seq<char>> {
    files.map_values(|f: FileSpec| f.name@)
}

/// The first declared file of a name.
pub open spec fn file_named(files: Seq<FileSpec>, name: Seq<char>) -> Option<FileSpec> {
    match file_names(files).index_of_first(name) {
        None => None,
        Some(i) => Some(files[i]),
    }
}

/// Whether no file of a list has a name.
pub open spec fn is_unknown(files: Seq<FileSpec>, name: Seq<char>) -> bool {
    !file_names(files).contains(name)
}

/// Whether a file of this kind runs a handler.
pub open spec fn invokes(kind: FileKind) -> bool {
    kind == FileKind::WriteInvoke || kind == FileKind::ReadInvoke
}

/// The name of a kind as messages give it.
pub open spec fn kind_text(kind: FileKind) -> Seq<char> {
    match kind {
        FileKind::WriteInvoke => "WriteInvoke"@,
        FileKind::ReadInvoke => "ReadInvoke"@,
        FileKind::Passthrough => "Passthrough"@,
        FileKind::Readonly => "Readonly"@,
    }
}

/// The name of a kind as a manifest spells it.
pub open spec fn kind_key(kind: FileKind) -> Seq<char> {
    match kind {
        FileKind::WriteInvoke => "write_invoke"@,
        FileKind::ReadInvoke => "read_invoke"@,
        FileKind::Passthrough => "passthrough"@,
        FileKind::Readonly => "readonly"@,
    }
}

impl FileKind {
    /// Whether a file of this kind runs a handler.
    pub fn runs_handler(self) -> (r: bool)
        ensures
            r == invokes(self),
    {
        self == FileKind::WriteInvoke || self == FileKind::ReadInvoke
    }

    /// The name of the kind as messages give it.
    pub fn text(self) -> (r: &'static str)
        ensures
            r@ == kind_text(self),
    {
        match self {
            FileKind::WriteInvoke => "WriteInvoke",
            FileKind::ReadInvoke => "ReadInvoke",
            FileKind::Passthrough => "Passthrough",
            FileKind::Readonly => "Readonly",
        }
    }

    /// The name of the kind as a manifest spells it.
    pub fn key(self) -> (r: &'static str)
        ensures
            r@ == kind_key(self),
    {
        match self {
            FileKind::WriteInvoke => "write_invoke",
            FileKind::ReadInvoke => "read_invoke",
            FileKind::Passthrough => "passthrough",
            FileKind::Readonly => "readonly",
        }
    }
}

/// Whether a declared file is in order among the files of its manifest: a file
/// that runs something names either a handler or a chain of declared files, and
/// one that runs nothing names no handler.
pub open spec fn in_order(files: Seq<FileSpec>, f: FileSpec) -> bool {
    if invokes(f.kind) {
        match (f.handler, f.pipe) {
            (Some(_), None) => true,
            (None, Some(stages)) => stages@.len() > 0 && forall|k: int|
                0 <= k < stages@.len() ==> !is_unknown(files, #[trigger] stages@[k]@),
            _ => false,
        }
    } else {
        f.handler is None
    }
}

/// Whether every declared file is in order.
pub open spec fn all_in_order(files: Seq<FileSpec>) -> bool {
    forall|i: int| 0 <= i < files.len() ==> in_order(files, #[trigger] files[i])
}

/// Whether a stage is the first one of a chain that names no declared file.
pub open spec fn first_unknown(files: Seq<FileSpec>, stages: Seq<String>, k: int) -> bool {
    &&& 0 <= k < stages.len()
    &&& is_unknown(files, stages[k]@)
    &&& forall|j: int| 0 <= j < k ==> !is_unknown(files, #[trigger] stages[j]@)
}

/// Whether `m` is the message about a file that is not in order.
pub open spec fn complains(files: Seq<FileSpec>, f: FileSpec, m: Seq<char>) -> bool {
    let head = "file '"@ + f.name@;
    if !invokes(f.kind) {
        m == head + "' has kind "@ + kind_text(f.kind)
            + " but specifies a handler (not allowed)"@
    } else {
        match (f.handler, f.pipe) {
            (None, None) => m == head + "' has kind "@ + kind_text(f.kind)
                + " but neither handler nor pipe specified"@,
            (Some(_), _) => m == head
                + "' specifies both handler and pipe; use one or the other"@,
            (None, Some(stages)) => if stages@.len() == 0 {
                m == head + "' pipe must contain at least one stage"@
            } else {
                exists|k: int| #[trigger]
                    first_unknown(files, stages@, k) && m == head
                        + "' pipe references unknown endpoint '"@ + stages@[k]@ + "'"@
            },
        }
    }
}

/// Whether the `i`th file is the first one that is not in order.
pub open spec fn first_out_of_order(files: Seq<FileSpec>, i: int) -> bool {
    &&& 0 <= i < files.len()
    &&& !in_order(files, files[i])
    &&& forall|j: int| 0 <= j < i ==> in_order(files, #[trigger] files[j])
}

impl Manifest {
    /// The first declared file of a name.
    pub fn spec_for(&self, name: &str) -> (r: Option<&FileSpec>)
        ensures
            match r {
                None => file_named(self.files@, name@) is None,
                Some(f) => file_named(self.files@, name@) == Some(*f),
            },
            r is None <==> is_unknown(self.files@, name@),
    {
        let ghost names = file_names(self.files@);
        proof {
            names.index_of_first_ensures(name@);
        }
        let mut i: usize = 0;
        while i < self.files.len()
            invariant
                i <= self.files@.len(),
                names == file_names(self.files@),
                forall|j: int| 0 <= j < i ==> names[j] != name@,
                match names.index_of_first(name@) {
                    None => !names.contains(name@),
                    Some(k) => 0 <= k < names.len() && names[k] == name@ && forall|j: int|
                        0 <= j < k ==> names[j] != name@,
                },
            decreases self.files@.len() - i,
        {
            if same(&self.files[i].name, name) {
                proof {
                    assert(names[i as int] == name@);
                    assert(names.contains(name@));
                }
                return Some(&self.files[i]);
            }
            i = i + 1;
        }
        proof {
            assert(!names.contains(name@));
        }
        None
    }

    /// Checks one declared file.
    fn validate_file(&self, f: &FileSpec) -> (r: Result<(), String>)
        ensures
            match r {
                Ok(_) => in_order(self.files@, *f),
                Err(m) => !in_order(self.files@, *f) && complains(self.files@, *f, m@),
            },
    {
        let mut m = "file '".to_string();
        m.push_str(&f.name);
        if !f.kind.runs_handler() {
            if f.handler.is_some() {
                m.push_str("' has kind ");
                m.push_str(f.kind.text());
                m.push_str(" but specifies a handler (not allowed)");
                return Err(m);
            }
            return Ok(());
        }
        match (&f.handler, &f.pipe) {
            (None, None) => {
                m.push_str("' has kind ");
                m.push_str(f.kind.text());
                m.push_str(" but neither handler nor pipe specified");
                Err(m)
            },
            (Some(_), Some(_)) => {
                m.push_str("' specifies both handler and pipe; use one or the other");
                Err(m)
            },
            (Some(_), None) => Ok(()),
            (None, Some(stages)) => {
                if stages.len() == 0 {
                    m.push_str("' pipe must contain at least one stage");
                    return Err(m);
                }
                let mut k: usize = 0;
                while k < stages.len()
                    invariant
                        k <= stages@.len(),
                        stages@.len() > 0,
                        invokes(f.kind),
                        f.handler is None,
                        f.pipe == Some(*stages),
                        m@ == "file '"@ + f.name@,
                        forall|j: int|
                            0 <= j < k ==> !is_unknown(self.files@, #[trigger] stages@[j]@),
                    decreases stages@.len() - k,
                {
                    if self.spec_for(&stages[k]).is_none() {
                        m.push_str("' pipe references unknown endpoint '");
                        m.push_str(&stages[k]);
                        m.push_str("'");
                        proof {
                            assert(is_unknown(self.files@, stages@[k as int]@));
                            assert(first_unknown(self.files@, stages@, k as int));
                        }
                        return Err(m);
                    }
                    k = k + 1;
                }
                Ok(())
            },
        }
    }

    /// Checks every declared file; the message is about the first one that is
    /// not in order.
    pub fn validate(&self) -> (r: Result<(), String>)
        ensures
            match r {
                Ok(_) => all_in_order(self.files@),
                Err(m) => exists|i: int| #[trigger]
                    first_out_of_order(self.files@, i) && complains(
                        self.files@,
                        self.files@[i],
                        m@,
                    ),
            },
            r is Ok <==> all_in_order(self.files@),
    {
        let mut i: usize = 0;
        while i < self.files.len()
            invariant
                i <= self.files@.len(),
                forall|j: int| 0 <= j < i ==> in_order(self.files@, #[trigger] self.files@[j]),
            decreases self.files@.len() - i,
        {
            match self.validate_file(&self.files[i]) {
                Ok(_) => {},
                Err(m) => {
                    proof {
                        assert(first_out_of_order(self.files@, i as int));
                        assert(!in_order(self.files@, self.files@[i as int]));
                    }
                    return Err(m);
                },
            }
            i = i + 1;
        }
        Ok(())
    }
}

/// A valid manifest declares a handler or a chain, never both, for each file that
/// runs something, every stage of a chain is a declared file, and no handler for a
/// file that runs nothing.
pub proof fn validated_manifest(files: Seq<FileSpec>, i: int)
    requires
        all_in_order(files),
        0 <= i < files.len(),
    ensures
        invokes(files[i].kind) ==> (files[i].handler is Some) != (files[i].pipe is Some),
        !invokes(files[i].kind) ==> files[i].handler is None,
        invokes(files[i].kind) && files[i].pipe is Some ==> forall|k: int|
            0 <= k < files[i].pipe->0@.len() ==> file_named(
                files,
                #[trigger] files[i].pipe->0@[k]@,
            ) is Some,
{
    assert(in_order(files, files[i]));
    if invokes(files[i].kind) && files[i].pipe is Some {
        assert forall|k: int| 0 <= k < files[i].pipe->0@.len() implies file_named(
            files,
            #[trigger] files[i].pipe->0@[k]@,
        ) is Some by {
            file_names(files).index_of_first_ensures(files[i].pipe->0@[k]@);
        }
    }
}

} // verus!
