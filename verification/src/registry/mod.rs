//! The tools of a mount.
pub mod laws;
pub mod session;
mod tool;

pub use session::{Session, SessionStore};
pub use tool::{GitHubRequest, Invocation, ScriptRun, Tool, ToolHandle, ToolModel, ToolResult};

use crate::manifest::{FileKind, FileSpec, Manifest};
use crate::order::ascending;
use crate::split::{join, joined, views};
use crate::text::{concat, concatenated, str_views};
use crate::text_map::TextMap;
use vstd::prelude::*;

verus! {

/// The tools of a mount by name.
pub struct ToolRegistry {
    tools: TextMap<ToolHandle>,
}

impl View for ToolRegistry {
    type V = Map<Seq<char>, ToolHandle>;

    closed spec fn view(&self) -> Map<Seq<char>, ToolHandle> {
        self.tools@
    }
}

/// The first lines of the system prompt.
pub open spec fn prompt_head(mount: Seq<char>) -> Seq<char> {
    "Bash tools at "@ + mount
        + "/tools/. cat = read-invoke; echo X > path && cat path = write-invoke. Return only the final answer.\n"@
}

/// The line of the system prompt that introduces a tool.
pub open spec fn prompt_tool_line(name: Seq<char>, description: Seq<char>) -> Seq<char> {
    "\n"@ + name + " — "@ + description + "\n"@
}

/// The comment behind an endpoint of the system prompt.
pub open spec fn prompt_suffix(description: Option<String>) -> Seq<char> {
    match description {
        None => ""@,
        Some(d) => "  # "@ + d@,
    }
}

/// The path of an endpoint in the system prompt.
pub open spec fn prompt_path(mount: Seq<char>, tool: Seq<char>, endpoint: Seq<char>) -> Seq<char> {
    mount + "/tools/"@ + tool + "/"@ + endpoint
}

/// The line of the system prompt for a declared file: the files that run
/// something and are not hidden have one.
pub open spec fn prompt_file_line(mount: Seq<char>, tool: Seq<char>, f: FileSpec) -> Seq<char> {
    let path = prompt_path(mount, tool, f.name@);
    if f.hidden {
        ""@
    } else {
        match f.kind {
            FileKind::ReadInvoke => "  cat "@ + path + prompt_suffix(f.description) + "\n"@,
            FileKind::WriteInvoke => "  echo NAME > "@ + path + " && cat "@ + path + prompt_suffix(
                f.description,
            ) + "\n"@,
            _ => ""@,
        }
    }
}

/// The line of the system prompt for an endpoint of a built-in tool.
pub open spec fn prompt_endpoint_line(
    mount: Seq<char>,
    tool: Seq<char>,
    endpoint: Seq<char>,
) -> Seq<char> {
    "  "@ + prompt_path(mount, tool, endpoint) + "\n"@
}

/// The lines of the system prompt on a tool.
pub open spec fn prompt_section(
    mount: Seq<char>,
    name: Seq<char>,
    tool: ToolModel,
    manifest: Option<Manifest>,
) -> Seq<char> {
    prompt_tool_line(name, tool.description) + concat(
        match manifest {
            Some(m) => m.files@.map_values(|f: FileSpec| prompt_file_line(mount, name, f)),
            None => tool.endpoints.map_values(
                |e: Seq<char>| prompt_endpoint_line(mount, name, e),
            ),
        },
    )
}

/// The manifest of the `i`th tool, where there is one.
pub open spec fn manifest_at(manifests: Seq<Option<Manifest>>, i: int) -> Option<Manifest> {
    if 0 <= i < manifests.len() {
        manifests[i]
    } else {
        None
    }
}

/// The line of the root index for a tool.
pub open spec fn index_line(name: Seq<char>, description: Seq<char>) -> Seq<char> {
    "- **"@ + name + "** — "@ + description
}

/// The comment behind an endpoint of the system prompt.
fn suffix_text(description: &Option<String>) -> (r: String)
    ensures
        r@ == prompt_suffix(*description),
{
    match description {
        None => "".to_string(),
        Some(d) => {
            let mut s = "  # ".to_string();
            s.push_str(d);
            s
        },
    }
}

/// The path of an endpoint in the system prompt.
fn path_in_prompt(mount: &str, tool: &str, endpoint: &str) -> (r: String)
    ensures
        r@ == prompt_path(mount@, tool@, endpoint@),
{
    let mut s = mount.to_string();
    s.push_str("/tools/");
    s.push_str(tool);
    s.push_str("/");
    s.push_str(endpoint);
    s
}

/// The line of the system prompt for a declared file.
fn file_line(mount: &str, tool: &str, f: &FileSpec) -> (r: String)
    ensures
        r@ == prompt_file_line(mount@, tool@, *f),
{
    if f.hidden {
        return "".to_string();
    }
    let path = path_in_prompt(mount, tool, &f.name);
    match f.kind {
        FileKind::ReadInvoke => {
            let mut s = "  cat ".to_string();
            s.push_str(&path);
            s.push_str(&suffix_text(&f.description));
            s.push_str("\n");
            s
        },
        FileKind::WriteInvoke => {
            let mut s = "  echo NAME > ".to_string();
            s.push_str(&path);
            s.push_str(" && cat ");
            s.push_str(&path);
            s.push_str(&suffix_text(&f.description));
            s.push_str("\n");
            s
        },
        _ => "".to_string(),
    }
}

/// The lines of the system prompt on a tool.
fn section(mount: &str, name: &str, tool: &ToolHandle, manifest: Option<&Manifest>) -> (r: String)
    ensures
        r@ == prompt_section(
            mount@,
            name@,
            tool.model(),
            match manifest {
                Some(m) => Some(*m),
                None => None,
            },
        ),
{
    let mut out = "\n".to_string();
    out.push_str(name);
    out.push_str(" — ");
    out.push_str(tool.description());
    out.push_str("\n");
    let mut lines: Vec<String> = Vec::new();
    match manifest {
        Some(m) => {
            let mut i: usize = 0;
            while i < m.files.len()
                invariant
                    i <= m.files@.len(),
                    lines@.len() == i,
                    forall|k: int|
                        0 <= k < i ==> (#[trigger] lines@[k])@ == prompt_file_line(
                            mount@,
                            name@,
                            m.files@[k],
                        ),
                decreases m.files@.len() - i,
            {
                lines.push(file_line(mount, name, &m.files[i]));
                i = i + 1;
            }
            proof {
                assert(lines@.map_values(|s: String| s@) =~= m.files@.map_values(
                    |f: FileSpec| prompt_file_line(mount@, name@, f),
                ));
            }
        },
        None => {
            let eps = tool.endpoints();
            let ghost names = tool.model().endpoints;
            let mut i: usize = 0;
            while i < eps.len()
                invariant
                    i <= eps@.len(),
                    lines@.len() == i,
                    views(eps@) == names,
                    forall|k: int|
                        0 <= k < i ==> (#[trigger] lines@[k])@ == prompt_endpoint_line(
                            mount@,
                            name@,
                            names[k],
                        ),
                decreases eps@.len() - i,
            {
                let mut s = "  ".to_string();
                s.push_str(&path_in_prompt(mount, name, &eps[i]));
                s.push_str("\n");
                proof {
                    assert(names[i as int] == eps@[i as int]@);
                }
                lines.push(s);
                i = i + 1;
            }
            proof {
                assert(names.len() == eps@.len());
                assert(lines@.map_values(|s: String| s@) =~= names.map_values(
                    |e: Seq<char>| prompt_endpoint_line(mount@, name@, e),
                ));
            }
        },
    }
    out.push_str(&concatenated(&lines));
    out
}

impl ToolRegistry {
    /// Every tool stands under its own name.
    pub closed spec fn wf(&self) -> bool {
        &&& self.tools.wf()
        &&& forall|k: Seq<char>| #[trigger]
            self.tools@.contains_key(k) ==> self.tools@[k].model().name == k
    }

    /// The names of the tools in ascending order.
    pub closed spec fn names(&self) -> Seq<Seq<char>> {
        self.tools.keys()
    }

    /// The names of a registry ascend, and are those of its tools.
    pub proof fn lemma_names(&self)
        requires
            self.wf(),
        ensures
            ascending(self.names()),
            forall|k: Seq<char>| #[trigger] self.names().contains(k) <==> self@.contains_key(k),
            forall|k: Seq<char>| #[trigger]
                self@.contains_key(k) ==> self@[k].model().name == k,
            forall|i: int|
                0 <= i < self.names().len() ==> self@.contains_key(#[trigger] self.names()[i]),
    {
        self.tools.lemma_keys();
    }

    /// A registry without tools.
    pub fn new() -> (r: Self)
        ensures
            r.wf(),
            r@ == Map::<Seq<char>, ToolHandle>::empty(),
    {
        ToolRegistry { tools: TextMap::new() }
    }

    /// Adds a tool; it takes the place of one of the same name.
    pub fn register(&mut self, tool: ToolHandle)
        requires
            old(self).wf(),
        ensures
            final(self).wf(),
            final(self)@ == old(self)@.insert(tool.model().name, tool),
    {
        let name = tool.name().to_string();
        self.tools.insert(name, tool);
    }

    /// The tool of a name.
    pub fn get(&self, name: &str) -> (r: Option<&ToolHandle>)
        requires
            self.wf(),
        ensures
            r is Some <==> self@.contains_key(name@),
            r is Some ==> *r->0 == self@[name@],
            r is Some ==> r->0.model().name == name@,
    {
        self.tools.get(name)
    }

    /// Removes the tool of a name.
    pub fn unregister(&mut self, name: &str)
        requires
            old(self).wf(),
        ensures
            final(self).wf(),
            final(self)@ == old(self)@.remove(name@),
    {
        self.tools.remove(name);
    }

    /// The number of tools.
    pub fn len(&self) -> (r: usize)
        ensures
            r == self.names().len(),
    {
        self.tools.len()
    }

    /// The name of the `i`th tool in ascending order.
    pub fn name_at(&self, i: usize) -> (r: &str)
        requires
            i < self.names().len(),
        ensures
            r@ == self.names()[i as int],
    {
        self.tools.key(i)
    }

    /// The `i`th tool in the order of the names.
    pub fn tool_at(&self, i: usize) -> (r: &ToolHandle)
        requires
            self.wf(),
            i < self.names().len(),
        ensures
            self@.contains_key(self.names()[i as int]),
            *r == self@[self.names()[i as int]],
            r.model().name == self.names()[i as int],
    {
        self.tools.value(i)
    }

    /// The place of a name in ascending order.
    pub fn position(&self, name: &str) -> (r: Option<usize>)
        requires
            self.wf(),
        ensures
            match r {
                None => !self.names().contains(name@),
                Some(i) => i < self.names().len() && self.names()[i as int] == name@,
            },
    {
        self.tools.position(name)
    }

    /// The names of the tools in ascending order.
    pub fn list(&self) -> (r: Vec<&str>)
        requires
            self.wf(),
        ensures
            str_views(r@) == self.names(),
            ascending(str_views(r@)),
            forall|k: Seq<char>| #[trigger] str_views(r@).contains(k) <==> self@.contains_key(k),
    {
        let mut out: Vec<&str> = Vec::new();
        let n: usize = self.tools.len();
        let mut i: usize = 0;
        while i < n
            invariant
                i <= n,
                n == self.names().len(),
                out@.len() == i,
                forall|k: int| 0 <= k < i ==> (#[trigger] out@[k])@ == self.names()[k],
            decreases n - i,
        {
            out.push(self.tools.key(i));
            i = i + 1;
        }
        proof {
            assert(str_views(out@) =~= self.names());
            self.lemma_names();
        }
        out
    }

    /// The system prompt: how to use the mount, and the lines of every tool.
    pub open spec fn prompt(&self, mount: Seq<char>, manifests: Seq<Option<Manifest>>) -> Seq<
        char,
    > {
        prompt_head(mount) + concat(
            Seq::new(
                self.names().len(),
                |i: int|
                    prompt_section(
                        mount,
                        self.names()[i],
                        self@[self.names()[i]].model(),
                        manifest_at(manifests, i),
                    ),
            ),
        )
    }

    /// A compact system prompt that inlines the endpoints of every tool. Those of
    /// a tool with a manifest come from it, without the hidden ones; `manifests`
    /// holds the manifests in the order of the names.
    pub fn system_prompt(&self, mount_path: &str, manifests: &Vec<Option<Manifest>>) -> (r: String)
        requires
            self.wf(),
        ensures
            r@ == self.prompt(mount_path@, manifests@),
    {
        let mut out = "Bash tools at ".to_string();
        out.push_str(mount_path);
        out.push_str(
            "/tools/. cat = read-invoke; echo X > path && cat path = write-invoke. Return only the final answer.\n",
        );
        let ghost sections = Seq::new(
            self.names().len(),
            |i: int|
                prompt_section(
                    mount_path@,
                    self.names()[i],
                    self@[self.names()[i]].model(),
                    manifest_at(manifests@, i),
                ),
        );
        let mut lines: Vec<String> = Vec::new();
        let n: usize = self.tools.len();
        let mut i: usize = 0;
        while i < n
            invariant
                i <= n,
                n == self.names().len(),
                self.wf(),
                lines@.len() == i,
                sections == Seq::new(
                    self.names().len(),
                    |i: int|
                        prompt_section(
                            mount_path@,
                            self.names()[i],
                            self@[self.names()[i]].model(),
                            manifest_at(manifests@, i),
                        ),
                ),
                forall|k: int| 0 <= k < i ==> (#[trigger] lines@[k])@ == sections[k],
            decreases n - i,
        {
            let manifest = if i < manifests.len() {
                manifests[i].as_ref()
            } else {
                None
            };
            let s = section(mount_path, self.tools.key(i), self.tools.value(i), manifest);
            lines.push(s);
            i = i + 1;
        }
        proof {
            assert(lines@.map_values(|s: String| s@) =~= sections);
        }
        out.push_str(&concatenated(&lines));
        out
    }

    /// The lines of the root index.
    pub open spec fn index_lines(&self) -> Seq<Seq<char>> {
        Seq::new(
            self.names().len() + 2,
            |i: int|
                if i == 0 {
                    "# LiveFolders Tools\n"@
                } else if i <= self.names().len() {
                    index_line(self.names()[i - 1], self@[self.names()[i - 1]].model().description)
                } else {
                    "\nRead `<tool>/how_to.md` to learn how to invoke each tool."@
                },
        )
    }

    /// The root index: one line for each tool.
    pub fn root_index(&self) -> (r: String)
        requires
            self.wf(),
        ensures
            r@ == join(self.index_lines(), "\n"@),
    {
        let mut lines: Vec<String> = Vec::new();
        lines.push("# LiveFolders Tools\n".to_string());
        let n: usize = self.tools.len();
        let mut i: usize = 0;
        while i < n
            invariant
                i <= n,
                n == self.names().len(),
                self.wf(),
                lines@.len() == i + 1,
                forall|k: int| 0 <= k <= i ==> (#[trigger] lines@[k])@ == self.index_lines()[k],
            decreases n - i,
        {
            let mut s = "- **".to_string();
            s.push_str(self.tools.key(i));
            s.push_str("** — ");
            s.push_str(self.tools.value(i).description());
            lines.push(s);
            i = i + 1;
        }
        lines.push("\nRead `<tool>/how_to.md` to learn how to invoke each tool.".to_string());
        proof {
            assert(views(lines@) =~= self.index_lines());
        }
        joined(&lines, "\n")
    }
}

impl Default for ToolRegistry {
    fn default() -> (r: Self)
        ensures
            r.wf(),
            r@ == Map::<Seq<char>, ToolHandle>::empty(),
    {
        ToolRegistry::new()
    }
}

/// A tool that was registered is found under its name, until one of that name is
/// unregistered; other names are not touched by either.
pub proof fn registered_tool_is_found(
    tools: Map<Seq<char>, ToolHandle>,
    tool: ToolHandle,
    other: Seq<char>,
)
    requires
        other != tool.model().name,
    ensures
        tools.insert(tool.model().name, tool)[tool.model().name] == tool,
        !tools.insert(tool.model().name, tool).remove(tool.model().name).contains_key(
            tool.model().name,
        ),
        tools.insert(tool.model().name, tool).contains_key(other) <==> tools.contains_key(other),
        tools.remove(tool.model().name).contains_key(other) <==> tools.contains_key(other),
        tools.contains_key(other) ==> tools.insert(tool.model().name, tool)[other] == tools[other]
            && tools.remove(tool.model().name)[other] == tools[other],
{
}

} // verus!
