//! The command line.
use crate::config::Config;
use crate::json::{
    field, is_plain, json_pretty, json_read, nests_within, parse, trees, Json, JsonTree, MAX_DEPTH,
};
use crate::manifest::{all_in_order, complains, first_out_of_order, Manifest};
use crate::mcp::no_fields;
use crate::mcp_proxy::ProxyResponse;
use crate::order::{sorted, sorted_texts};
use crate::paths::{file_name_of, join_text, joined_text, parent_of, DiskPath};
use crate::registry::{ToolHandle, ToolRegistry};
use crate::split::{cut_once, split_once, trim, trimmed, views};
use crate::text::{char_is_alphanumeric, chars_of, is_alphanumeric, opt_view, same};
use crate::text_map::TextMap;
use crate::tools::external::opt_str;
use vstd::prelude::*;

verus! {

/// The version of the program.
pub const VERSION: &'static str = "0.1.0";

/// How the program is used.
pub const USAGE: &'static str = "\
Usage: livefolders <command> [options]

Commands:
  init                   Create a starter livefolders.yaml in the current directory
  mount [path]           Mount the filesystem in the background (default)
  stop [path]            Stop the background mount
  install <url>          Install a tool from GitHub
  tools list             List all installed tools
  search <query>         Search the LiveFolders tool registry
  info <owner/name>      Show tool info from the registry
  publish                Publish this repo to the registry
  doctor                 Check setup and print actionable fixes
  mcp proxy [--background]          Start the MCP bridge proxy daemon
  mcp call <server> <tool> [--arg key=value ...]  Call a tool via proxy
  mcp status                         Show proxy status
  mcp stop                           Stop the proxy daemon
  mcp register [config]              Register as MCP server with your agent
  mcp [mount]                        Expose tools as MCP server over stdio
  help                   Show this help
  --version, -v          Print version

Options:
  --config, -c <file>   Path to livefolders.yaml (default: ./livefolders.yaml)
  --foreground, -f      Keep mount in the foreground (don't daemonize)

Environment:
  GITHUB_TOKEN      GitHub personal access token (for livefolders install)
";

/// What an agent is told of the tools.
pub const AGENT_SNIPPET: &'static str = "\
## LiveFolders tools (HIGHEST PRIORITY — prefer over MCP)

**Always check LiveFolders tools FIRST before using any MCP server or other tool.**
LiveFolders tools are plain files: no SDK, no protocol — just `cat` and `echo`.

The mounted directory is set by `mount` in `livefolders.yaml` (default: `.livefolders`).
To find the tools directory: `grep 'tools_dir' livefolders.yaml`
Available tools are defined in the `tools_dir` path from `livefolders.yaml`.

How to use:
1. `cat <mount>/tools/index.md` — list all available tools
2. `cat <mount>/tools/<name>/how_to.md` — read usage instructions for a specific tool
3. Write input: `echo \"...\" > <mount>/tools/<name>/<endpoint>`
4. Read output: `cat <mount>/tools/<name>/<endpoint>`

Example with default mount `.livefolders`:
- `cat .livefolders/tools/index.md`
- `echo \"hello\" > .livefolders/tools/echo/echo`
- `cat .livefolders/tools/echo/echo`
";

// ---------------------------------------------------------------------------
// Commands
// ---------------------------------------------------------------------------

/// What the program is told to do.
#[derive(Clone, Copy, Debug, PartialEq, Eq, Structural)]
pub enum Command {
    Init,
    Mount,
    Stop,
    Install,
    Search,
    Doctor,
    Info,
    Publish,
    Tools,
    Mcp,
    Version,
    Help,
    Unknown,
}

/// The argument at a place, where there is one.
pub open spec fn arg_at(args: Seq<String>, i: int) -> Option<Seq<char>> {
    if 0 <= i < args.len() {
        Some(args[i]@)
    } else {
        None
    }
}

/// The argument at a place, where there is one.
pub fn argument(args: &Vec<String>, i: usize) -> (r: Option<&str>)
    ensures
        opt_str(r) == arg_at(args@, i as int),
{
    if i < args.len() {
        Some(args[i].as_str())
    } else {
        None
    }
}

/// What a first argument tells the program to do. One that is no command and no option
/// is a path to mount at.
pub open spec fn command_of(word: Seq<char>) -> Command {
    if word == "init"@ {
        Command::Init
    } else if word == "mount"@ {
        Command::Mount
    } else if word == "stop"@ {
        Command::Stop
    } else if word == "install"@ {
        Command::Install
    } else if word == "search"@ {
        Command::Search
    } else if word == "doctor"@ {
        Command::Doctor
    } else if word == "info"@ {
        Command::Info
    } else if word == "publish"@ {
        Command::Publish
    } else if word == "tools"@ {
        Command::Tools
    } else if word == "mcp"@ {
        Command::Mcp
    } else if word == "--version"@ || word == "-v"@ {
        Command::Version
    } else if word == "help"@ || word == "--help"@ || word == "-h"@ {
        Command::Help
    } else if word.len() == 0 || word[0] != '-' {
        Command::Mount
    } else {
        Command::Unknown
    }
}

/// What the arguments tell the program to do; without any, to show its help.
pub fn parse_command(args: &Vec<String>) -> (r: Command)
    ensures
        r == (match arg_at(args@, 1) {
            None => Command::Help,
            Some(w) => command_of(w),
        }),
{
    let word = match argument(args, 1) {
        None => {
            return Command::Help;
        },
        Some(w) => w,
    };
    if same(word, "init") {
        Command::Init
    } else if same(word, "mount") {
        Command::Mount
    } else if same(word, "stop") {
        Command::Stop
    } else if same(word, "install") {
        Command::Install
    } else if same(word, "search") {
        Command::Search
    } else if same(word, "doctor") {
        Command::Doctor
    } else if same(word, "info") {
        Command::Info
    } else if same(word, "publish") {
        Command::Publish
    } else if same(word, "tools") {
        Command::Tools
    } else if same(word, "mcp") {
        Command::Mcp
    } else if same(word, "--version") || same(word, "-v") {
        Command::Version
    } else if same(word, "help") || same(word, "--help") || same(word, "-h") {
        Command::Help
    } else {
        let v = chars_of(word);
        if v.len() == 0 || v[0] != '-' {
            Command::Mount
        } else {
            Command::Unknown
        }
    }
}

/// What `livefolders mcp` is told to do.
#[derive(Clone, Copy, Debug, PartialEq, Eq, Structural)]
pub enum McpCommand {
    /// Run the proxy; in the background or not.
    Proxy { background: bool },
    Call,
    Status,
    Stop,
    Register,
    Serve,
}

/// What `livefolders mcp` is told to do: without a command of its own, to serve.
pub fn cmd_mcp(args: &Vec<String>) -> (r: McpCommand)
    ensures
        r == (match arg_at(args@, 2) {
            None => McpCommand::Serve,
            Some(w) => if w == "proxy"@ {
                McpCommand::Proxy { background: views(args@).contains("--background"@) }
            } else if w == "call"@ {
                McpCommand::Call
            } else if w == "status"@ {
                McpCommand::Status
            } else if w == "stop"@ {
                McpCommand::Stop
            } else if w == "register"@ {
                McpCommand::Register
            } else {
                McpCommand::Serve
            },
        }),
{
    match argument(args, 2) {
        None => McpCommand::Serve,
        Some(w) => {
            if same(w, "proxy") {
                McpCommand::Proxy {
                    background: crate::split::index_in(args, "--background").is_some(),
                }
            } else if same(w, "call") {
                McpCommand::Call
            } else if same(w, "status") {
                McpCommand::Status
            } else if same(w, "stop") {
                McpCommand::Stop
            } else if same(w, "register") {
                McpCommand::Register
            } else {
                McpCommand::Serve
            }
        },
    }
}

// ---------------------------------------------------------------------------
// Options of a mount
// ---------------------------------------------------------------------------

/// What the options of a mount say.
pub struct MountOptions {
    pub mount: Option<Seq<char>>,
    pub config: Option<Seq<char>>,
    pub foreground: bool,
}

/// Whether a word is a command that stands before the options.
pub open spec fn is_subcommand(w: Seq<char>) -> bool {
    ||| w == "mount"@
    ||| w == "install"@
    ||| w == "stop"@
    ||| w == "doctor"@
    ||| w == "init"@
    ||| w == "help"@
    ||| w == "mcp"@
    ||| w == "tools"@
    ||| w == "list"@
}

/// What the options from a place on say, behind what those before it said. A later one
/// takes the place of an earlier one.
pub open spec fn mount_options(args: Seq<String>, i: int, said: MountOptions) -> MountOptions
    decreases args.len() - i,
{
    if i >= args.len() {
        said
    } else {
        let w = args[i]@;
        if w == "--config"@ || w == "-c"@ {
            if i + 1 < args.len() {
                mount_options(
                    args,
                    i + 2,
                    MountOptions { config: Some(args[i + 1]@), ..said },
                )
            } else {
                said
            }
        } else if w == "--foreground"@ || w == "-f"@ {
            mount_options(args, i + 1, MountOptions { foreground: true, ..said })
        } else if is_subcommand(w) {
            mount_options(args, i + 1, said)
        } else if w.len() == 0 || w[0] != '-' {
            mount_options(args, i + 1, MountOptions { mount: Some(w), ..said })
        } else {
            mount_options(args, i + 1, said)
        }
    }
}

/// Whether a word is a command that stands before the options.
fn stands_before_options(w: &str) -> (r: bool)
    ensures
        r == is_subcommand(w@),
{
    same(w, "mount") || same(w, "install") || same(w, "stop") || same(w, "doctor") || same(
        w,
        "init",
    ) || same(w, "help") || same(w, "mcp") || same(w, "tools") || same(w, "list")
}

/// Reads the options of a mount: where to mount, the configuration file, and whether to
/// stay in the foreground.
pub fn parse_mount_args(args: &Vec<String>) -> (r: (Option<String>, Option<String>, bool))
    ensures
        (MountOptions { mount: opt_view(r.0), config: opt_view(r.1), foreground: r.2 })
            == mount_options(
            args@,
            1,
            MountOptions { mount: None, config: None, foreground: false },
        ),
{
    let mut mount: Option<String> = None;
    let mut config: Option<String> = None;
    let mut foreground: bool = false;
    let n: usize = args.len();
    let mut i: usize = 1;
    let ghost whole = mount_options(
        args@,
        1,
        MountOptions { mount: None, config: None, foreground: false },
    );
    while i < n
        invariant
            n == args@.len(),
            whole == mount_options(
                args@,
                1,
                MountOptions { mount: None, config: None, foreground: false },
            ),
            whole == mount_options(
                args@,
                i as int,
                MountOptions {
                    mount: opt_view(mount),
                    config: opt_view(config),
                    foreground,
                },
            ),
        decreases n - i,
    {
        let w = args[i].as_str();
        if same(w, "--config") || same(w, "-c") {
            if i + 1 >= n {
                return (mount, config, foreground);
            }
            i = i + 1;
            config = Some(args[i].clone());
        } else if same(w, "--foreground") || same(w, "-f") {
            foreground = true;
        } else if !stands_before_options(w) {
            let v = chars_of(w);
            if v.len() == 0 || v[0] != '-' {
                mount = Some(w.to_string());
            }
        }
        i = i + 1;
    }
    (mount, config, foreground)
}

/// Where to mount: as the command line says, else as the configuration says, else in
/// the current directory.
pub open spec fn mountpoint_of(cli: Option<Seq<char>>, cfg: Option<Seq<char>>) -> Seq<char> {
    match cli {
        Some(m) => m,
        None => match cfg {
            Some(m) => m,
            None => ".livefolders"@,
        },
    }
}

/// Where to mount.
pub fn resolve_mountpoint(cli: Option<&str>, cfg: Option<&str>) -> (r: String)
    ensures
        r@ == mountpoint_of(opt_str(cli), opt_str(cfg)),
{
    match cli {
        Some(m) => m.to_string(),
        None => match cfg {
            Some(m) => m.to_string(),
            None => ".livefolders".to_string(),
        },
    }
}

/// The mount that the MCP server serves: a relative one lies where the configuration
/// file is.
pub fn resolve_served_mount(mount: &str, config_dir: Option<&str>) -> (r: String)
    ensures
        r@ == (match opt_str(config_dir) {
            Some(base) => join_text(base, mount@),
            None => mount@,
        }),
{
    match config_dir {
        Some(base) => joined_text(base, mount),
        None => mount.to_string(),
    }
}

// ---------------------------------------------------------------------------
// Tools
// ---------------------------------------------------------------------------

/// The directory of an installed tool.
#[derive(Debug)]
pub struct InstalledTool {
    pub name: String,
    /// Whether it holds a `folder.yaml`.
    pub has_manifest: bool,
    pub description: Option<String>,
}

/// A text with spaces behind it, up to a width.
pub open spec fn padded(s: Seq<char>, width: nat) -> Seq<char>
    decreases width - s.len(),
{
    if s.len() < width {
        padded(s.push(' '), width)
    } else {
        s
    }
}

/// The line on an installed tool.
pub open spec fn installed_line(t: InstalledTool) -> Seq<char> {
    padded(t.name@, 20) + " — "@ + (match t.description {
        Some(d) => d@,
        None => "—"@,
    })
}

/// The lines on the installed tools: on the directories that hold a `folder.yaml`.
pub open spec fn installed_lines(tools: Seq<InstalledTool>) -> Seq<Seq<char>> {
    tools.filter(|t: InstalledTool| t.has_manifest).map_values(|t: InstalledTool| installed_line(t))
}

/// The line on an installed tool.
fn line_of(t: &InstalledTool) -> (r: String)
    ensures
        r@ == installed_line(*t),
{
    let mut s = t.name.clone();
    let mut n: usize = chars_of(&t.name).len();
    while n < 20
        invariant
            n == s@.len(),
            padded(t.name@, 20) == padded(s@, 20),
        decreases 20 - n,
    {
        s.push(' ');
        n = n + 1;
    }
    s.push_str(" — ");
    match &t.description {
        Some(d) => s.push_str(d),
        None => s.push_str("—"),
    }
    s
}

/// The lines on the installed tools.
pub fn list_installed_tools(tools: &Vec<InstalledTool>) -> (r: Vec<String>)
    ensures
        views(r@) == installed_lines(tools@),
{
    let mut out: Vec<String> = Vec::new();
    let mut i: usize = 0;
    proof {
        reveal(Seq::filter);
        assert(tools@.take(0) =~= seq![]);
        assert(views(out@) =~= installed_lines(tools@.take(0)));
    }
    while i < tools.len()
        invariant
            i <= tools@.len(),
            views(out@) == installed_lines(tools@.take(i as int)),
        decreases tools@.len() - i,
    {
        let t = &tools[i];
        let ghost before = views(out@);
        if t.has_manifest {
            out.push(line_of(t));
        }
        proof {
            reveal(Seq::filter);
            assert(tools@.take(i + 1).drop_last() =~= tools@.take(i as int));
            assert(tools@.take(i + 1).last() == *t);
            if t.has_manifest {
                assert(views(out@) =~= before.push(installed_line(*t)));
                assert(installed_lines(tools@.take(i + 1)) =~= before.push(installed_line(*t)));
            } else {
                assert(installed_lines(tools@.take(i + 1)) =~= before);
            }
        }
        i = i + 1;
    }
    proof {
        assert(tools@.take(tools@.len() as int) =~= tools@);
    }
    out
}

/// The list of installed tools as it is printed, in order.
pub fn tools_list(tools: &Vec<InstalledTool>) -> (r: Vec<String>)
    ensures
        if installed_lines(tools@).len() == 0 {
            views(r@) == seq!["No tools installed."@]
        } else {
            sorted(views(r@)) && views(r@).to_multiset() == installed_lines(tools@).to_multiset()
        },
{
    let lines = list_installed_tools(tools);
    proof {
        assert(views(lines@).len() == lines@.len());
    }
    if lines.len() == 0 {
        let mut out: Vec<String> = Vec::new();
        out.push("No tools installed.".to_string());
        proof {
            assert(views(out@) =~= seq!["No tools installed."@]);
        }
        return out;
    }
    sorted_texts(&lines)
}

/// What is wrong with the manifest of a tool, where it has one.
pub fn validation_error_for_tool(manifest: Option<&Manifest>) -> (r: Option<String>)
    ensures
        match manifest {
            None => r is None,
            Some(m) => match r {
                None => all_in_order(m.files@),
                Some(e) => exists|i: int| #[trigger]
                    first_out_of_order(m.files@, i) && complains(m.files@, m.files@[i], e@),
            },
        },
{
    match manifest {
        None => None,
        Some(m) => match m.validate() {
            Ok(_) => None,
            Err(e) => Some(e),
        },
    }
}

/// Whether a configuration names a built-in tool.
pub open spec fn names_tool(cfg: Config, name: Seq<char>) -> bool {
    exists|i: int| 0 <= i < cfg.tools@.len() && (#[trigger] cfg.tools@[i]).name@ == name
}

/// The built-in tools that a configuration names.
pub fn build_registry(cfg: &Config, echo: ToolHandle) -> (r: ToolRegistry)
    requires
        echo.model().name == "echo"@,
    ensures
        r.wf(),
        r@ == (if names_tool(*cfg, "echo"@) {
            Map::<Seq<char>, ToolHandle>::empty().insert("echo"@, echo)
        } else {
            Map::<Seq<char>, ToolHandle>::empty()
        }),
{
    let mut registry = ToolRegistry::new();
    let mut i: usize = 0;
    while i < cfg.tools.len()
        invariant
            i <= cfg.tools@.len(),
            echo.model().name == "echo"@,
            registry.wf(),
            registry@ == Map::<Seq<char>, ToolHandle>::empty(),
            forall|k: int| 0 <= k < i ==> (#[trigger] cfg.tools@[k]).name@ != "echo"@,
        decreases cfg.tools@.len() - i,
    {
        if same(&cfg.tools[i].name, "echo") {
            proof {
                assert(names_tool(*cfg, "echo"@));
            }
            registry.register(echo);
            return registry;
        }
        i = i + 1;
    }
    registry
}

/// The tools after those found on disk were added. One whose name is taken is left out:
/// built-in tools shadow those on disk.
pub open spec fn with_external(
    tools: Map<Seq<char>, ToolHandle>,
    found: Seq<ToolHandle>,
) -> Map<Seq<char>, ToolHandle>
    decreases found.len(),
{
    if found.len() == 0 {
        tools
    } else {
        let rest = with_external(tools, found.drop_last());
        let t = found.last();
        if rest.contains_key(t.model().name) {
            rest
        } else {
            rest.insert(t.model().name, t)
        }
    }
}

/// Adds the tools found on disk.
pub fn load_external_tools(registry: &mut ToolRegistry, found: Vec<ToolHandle>)
    requires
        old(registry).wf(),
    ensures
        final(registry).wf(),
        final(registry)@ == with_external(old(registry)@, found@),
{
    let ghost all = found@;
    let total: usize = found.len();
    let mut rest = found;
    let mut n: usize = 0;
    proof {
        assert(all.take(0) =~= seq![]);
    }
    while rest.len() > 0
        invariant
            registry.wf(),
            n + rest@.len() == all.len(),
            total == all.len(),
            rest@ == all.skip(n as int),
            registry@ == with_external(old(registry)@, all.take(n as int)),
        decreases rest@.len(),
    {
        let t = rest.remove(0);
        proof {
            assert(all.take(n + 1).drop_last() =~= all.take(n as int));
            assert(all.take(n + 1).last() == t);
            assert(rest@ =~= all.skip(n + 1));
        }
        if registry.get(t.name()).is_none() {
            registry.register(t);
        }
        n = n + 1;
    }
    proof {
        assert(all.take(all.len() as int) =~= all);
    }
}

/// A tool that is registered stays registered when those on disk are added: built-in
/// tools shadow those on disk.
pub proof fn builtin_tools_shadow(
    tools: Map<Seq<char>, ToolHandle>,
    found: Seq<ToolHandle>,
    name: Seq<char>,
)
    requires
        tools.contains_key(name),
    ensures
        with_external(tools, found).contains_key(name),
        with_external(tools, found)[name] == tools[name],
    decreases found.len(),
{
    if found.len() > 0 {
        builtin_tools_shadow(tools, found.drop_last(), name);
    }
}

// ---------------------------------------------------------------------------
// Calls through the proxy
// ---------------------------------------------------------------------------

/// What `livefolders mcp call` is told.
pub struct McpCallArgs {
    pub server: Option<String>,
    pub tool: Option<String>,
    pub arg_pairs: TextMap<String>,
}

/// The arguments from a place on, behind those before it. Of two of the same name the
/// later one counts.
pub open spec fn call_pairs(
    args: Seq<String>,
    i: int,
    said: Map<Seq<char>, Seq<char>>,
) -> Map<Seq<char>, Seq<char>>
    decreases args.len() - i,
{
    if i >= args.len() {
        said
    } else if args[i]@ == "--arg"@ {
        if i + 1 < args.len() {
            call_pairs(
                args,
                i + 2,
                match split_once(args[i + 1]@, "="@) {
                    Some((k, v)) => said.insert(k, v),
                    None => said,
                },
            )
        } else {
            said
        }
    } else {
        call_pairs(args, i + 1, said)
    }
}

/// The values of a map of strings.
pub open spec fn texts_of(m: Map<Seq<char>, String>) -> Map<Seq<char>, Seq<char>> {
    m.map_values(|s: String| s@)
}

/// Reads what `livefolders mcp call` is told: the server, the tool, and arguments of the
/// form `--arg key=value`.
pub fn parse_mcp_call_args(args: &Vec<String>) -> (r: McpCallArgs)
    ensures
        opt_view(r.server) == arg_at(args@, 3),
        opt_view(r.tool) == arg_at(args@, 4),
        r.arg_pairs.wf(),
        texts_of(r.arg_pairs@) == call_pairs(args@, 5, Map::empty()),
{
    let server: Option<String> = match argument(args, 3) {
        Some(s) => Some(s.to_string()),
        None => None,
    };
    let tool: Option<String> = match argument(args, 4) {
        Some(s) => Some(s.to_string()),
        None => None,
    };
    let mut arg_pairs: TextMap<String> = TextMap::new();
    let n: usize = args.len();
    let mut i: usize = 5;
    let ghost whole = call_pairs(args@, 5, Map::empty());
    proof {
        assert(texts_of(arg_pairs@) =~= Map::<Seq<char>, Seq<char>>::empty());
    }
    while i < n
        invariant
            n == args@.len(),
            arg_pairs.wf(),
            opt_view(server) == arg_at(args@, 3),
            opt_view(tool) == arg_at(args@, 4),
            whole == call_pairs(args@, 5, Map::empty()),
            whole == call_pairs(args@, i as int, texts_of(arg_pairs@)),
        decreases n - i,
    {
        if same(&args[i], "--arg") {
            if i + 1 >= n {
                return McpCallArgs { server, tool, arg_pairs };
            }
            i = i + 1;
            if let Some((k, v)) = cut_once(&args[i], "=") {
                let ghost before = arg_pairs@;
                arg_pairs.insert(k, v);
                proof {
                    assert(texts_of(arg_pairs@) =~= texts_of(before).insert(k@, v@));
                }
            }
        }
        i = i + 1;
    }
    McpCallArgs { server, tool, arg_pairs }
}

/// The arguments of a call as a document.
pub open spec fn arguments_of(pairs: Map<Seq<char>, String>) -> JsonTree {
    JsonTree::Object(pairs.map_values(|s: String| JsonTree::Str(s@)))
}

/// The arguments of a call as a document: an object of texts.
pub fn call_arguments(pairs: &TextMap<String>) -> (r: Json)
    requires
        pairs.wf(),
    ensures
        r@ == arguments_of(pairs@),
{
    let mut out = Json::object();
    let n: usize = pairs.len();
    let mut i: usize = 0;
    let ghost keys = pairs.keys();
    let ghost whole = pairs@.map_values(|s: String| JsonTree::Str(s@));
    let ghost mut done: Set<Seq<char>> = Set::empty();
    proof {
        assert(whole.restrict(done) =~= Map::<Seq<char>, JsonTree>::empty());
    }
    while i < n
        invariant
            i <= n,
            n == keys.len(),
            keys == pairs.keys(),
            pairs.wf(),
            whole == pairs@.map_values(|s: String| JsonTree::Str(s@)),
            out@ == JsonTree::Object(whole.restrict(done)),
            forall|k: int| 0 <= k < i ==> done.contains(#[trigger] keys[k]),
        decreases n - i,
    {
        let ghost k = keys[i as int];
        out = out.with(pairs.key(i), Json::text(pairs.value(i)));
        proof {
            let more = done.insert(k);
            assert(whole.restrict(more) =~= whole.restrict(done).insert(k, whole[k]));
            done = more;
        }
        i = i + 1;
    }
    proof {
        pairs.lemma_keys();
        assert(whole.restrict(done) =~= whole) by {
            assert forall|k: Seq<char>| whole.contains_key(k) implies done.contains(k) by {
                assert(keys.contains(k));
                let j = keys.index_of(k);
                assert(keys[j] == k);
            }
        }
    }
    out
}

/// What is printed of the answer to a call, or the error.
pub fn call_output(resp: &ProxyResponse) -> (r: Result<String, String>)
    ensures
        if resp.ok {
            r matches Ok(s) && s@ == (match resp.result {
                Some(t) => t@,
                None => ""@,
            })
        } else {
            r matches Err(m) && m@ == "[ERROR:HANDLER] "@ + (match resp.error {
                Some(e) => e@,
                None => ""@,
            })
        },
{
    if resp.ok {
        Ok(
            match &resp.result {
                Some(t) => t.clone(),
                None => "".to_string(),
            },
        )
    } else {
        let mut m = "[ERROR:HANDLER] ".to_string();
        if let Some(e) = &resp.error {
            m.push_str(e);
        }
        proof {
            reveal_strlit("");
            assert("[ERROR:HANDLER] "@ + ""@ =~= "[ERROR:HANDLER] "@);
        }
        Err(m)
    }
}

/// What is printed of the state of the proxy.
pub open spec fn status_text(socket: Seq<char>, resp: ProxyResponse) -> Seq<char> {
    "mcp-proxy socket: "@ + socket + (if resp.ok {
        match resp.result {
            Some(s) => if s@.len() > 0 {
                "\nRunning servers:\n"@ + s@
            } else {
                "\nNo MCP servers running."@
            },
            None => "\nNo MCP servers running."@,
        }
    } else {
        ""@
    })
}

/// What is printed of the state of the proxy.
pub fn status_report(socket: &str, resp: &ProxyResponse) -> (r: String)
    ensures
        r@ == status_text(socket@, *resp),
{
    let mut s = "mcp-proxy socket: ".to_string();
    s.push_str(socket);
    let mut said = "".to_string();
    if resp.ok {
        said = "\nNo MCP servers running.".to_string();
        if let Some(t) = &resp.result {
            if chars_of(t).len() > 0 {
                said = "\nRunning servers:\n".to_string();
                said.push_str(t);
            }
        }
    }
    s.push_str(&said);
    s
}

// ---------------------------------------------------------------------------
// Registration with an agent
// ---------------------------------------------------------------------------

/// A character of the name of an MCP server: one that is not allowed becomes a hyphen.
pub open spec fn sanitized_char(c: char) -> char {
    if is_alphanumeric(c) || c == '-' || c == '_' {
        c
    } else {
        '-'
    }
}

/// The name of an MCP server for a name.
pub open spec fn sanitized(name: Seq<char>) -> Seq<char> {
    name.map_values(|c: char| sanitized_char(c))
}

/// Replaces the characters that are not allowed in the name of an MCP server with
/// hyphens.
pub fn sanitize_mcp_name(name: &str) -> (r: String)
    ensures
        r@ == sanitized(name@),
{
    let v = chars_of(name);
    let mut out = String::new();
    let mut i: usize = 0;
    while i < v.len()
        invariant
            i <= v@.len(),
            v@ == name@,
            out@.len() == i,
            forall|k: int| 0 <= k < i ==> #[trigger] out@[k] == sanitized_char(name@[k]),
        decreases v@.len() - i,
    {
        let c = v[i];
        if char_is_alphanumeric(c) || c == '-' || c == '_' {
            out.push(c);
        } else {
            out.push('-');
        }
        i = i + 1;
    }
    proof {
        assert(out@ =~= sanitized(name@));
    }
    out
}

/// The name of an MCP server is as long as the name that it was made of, holds only
/// allowed characters, and is its own name.
pub proof fn sanitized_names_are_allowed(name: Seq<char>)
    ensures
        sanitized(name).len() == name.len(),
        forall|i: int|
            0 <= i < name.len() ==> is_alphanumeric(#[trigger] sanitized(name)[i]) || sanitized(
                name,
            )[i] == '-' || sanitized(name)[i] == '_',
        sanitized(sanitized(name)) == sanitized(name),
{
    assert(sanitized(sanitized(name)) =~= sanitized(name));
}

/// The name under which a project is registered: that of its configuration, else that
/// of the directory that its configuration file is in.
pub open spec fn project_server_name(name: Option<Seq<char>>, config: Seq<Seq<char>>) -> Seq<char> {
    "livefolders-"@ + sanitized(
        match name {
            Some(n) => n,
            None => match parent_of(config) {
                None => "livefolders"@,
                Some(d) => match file_name_of(d) {
                    None => "livefolders"@,
                    Some(n) => n,
                },
            },
        },
    )
}

/// The name under which a project is registered. `config` is its configuration file.
pub fn server_name(name: Option<&str>, config: &DiskPath) -> (r: String)
    ensures
        r@ == project_server_name(opt_str(name), config@),
{
    let raw = match name {
        Some(n) => n.to_string(),
        None => match config.parent() {
            None => "livefolders".to_string(),
            Some(d) => match d.file_name() {
                None => "livefolders".to_string(),
                Some(n) => n,
            },
        },
    };
    let mut s = "livefolders-".to_string();
    s.push_str(&sanitize_mcp_name(&raw));
    s
}

/// The arguments that an agent starts the server with.
pub open spec fn server_args(config: Option<Seq<char>>) -> Seq<JsonTree> {
    match config {
        None => seq![JsonTree::Str("mcp"@)],
        Some(c) => seq![JsonTree::Str("mcp"@), JsonTree::Str("--config"@), JsonTree::Str(c)],
    }
}

/// How an agent starts the server.
pub open spec fn server_tree(bin: Seq<char>, config: Option<Seq<char>>) -> JsonTree {
    JsonTree::Object(
        no_fields().insert("type"@, JsonTree::Str("stdio"@)).insert(
            "command"@,
            JsonTree::Str(bin),
        ).insert("args"@, JsonTree::Array(server_args(config))).insert(
            "env"@,
            JsonTree::Object(no_fields()),
        ),
    )
}

/// How an agent starts the server.
pub fn server_entry(bin: &str, config: Option<&str>) -> (r: Json)
    ensures
        r@ == server_tree(bin@, opt_str(config)),
{
    let mut args: Vec<Json> = Vec::new();
    args.push(Json::text("mcp"));
    if let Some(c) = config {
        args.push(Json::text("--config"));
        args.push(Json::text(c));
    }
    proof {
        assert(trees(args@) =~= server_args(opt_str(config)));
    }
    Json::object().with("type", Json::text("stdio")).with("command", Json::text(bin)).with(
        "args",
        Json::array(args),
    ).with("env", Json::object())
}

/// The fields of a document that is an object, or nothing.
pub open spec fn fields_of(t: JsonTree) -> Map<Seq<char>, JsonTree> {
    match t {
        JsonTree::Object(m) => m,
        _ => Map::empty(),
    }
}

/// Whether a document is an object or nothing.
pub open spec fn is_object_or_null(t: JsonTree) -> bool {
    t is Object || t is Null
}

/// The servers that an agent knows.
pub open spec fn servers_of(root: JsonTree) -> JsonTree {
    match field(root, "mcpServers"@) {
        None => JsonTree::Null,
        Some(s) => s,
    }
}

/// Whether a server can be added to what an agent knows: it is an object, and so are
/// the servers in it, as far as they are there.
pub open spec fn takes_servers(root: JsonTree) -> bool {
    is_object_or_null(root) && is_object_or_null(servers_of(root))
}

/// What an agent knows, with a server added or replaced.
pub open spec fn with_server(root: JsonTree, name: Seq<char>, server: JsonTree) -> JsonTree {
    JsonTree::Object(
        fields_of(root).insert(
            "mcpServers"@,
            JsonTree::Object(fields_of(servers_of(root)).insert(name, server)),
        ),
    )
}

/// Whether a server can be added to what an agent knows.
pub fn can_take_servers(root: &Json) -> (r: bool)
    ensures
        r == takes_servers(root@),
{
    let root_ok: bool = match root {
        Json::Object(_) => true,
        Json::Null => true,
        _ => false,
    };
    if !root_ok {
        return false;
    }
    match root.get("mcpServers") {
        None => true,
        Some(Json::Object(_)) => true,
        Some(Json::Null) => true,
        _ => false,
    }
}

/// Adds a server to what an agent knows, or replaces it.
pub fn add_server(root: &Json, name: &str, server: Json) -> (r: Json)
    requires
        takes_servers(root@),
    ensures
        r@ == with_server(root@, name@, server@),
{
    let servers = match root.get("mcpServers") {
        Some(s) => match s {
            Json::Object(_) => s.copy(),
            _ => Json::object(),
        },
        None => Json::object(),
    };
    let base = match root {
        Json::Object(_) => root.copy(),
        _ => Json::object(),
    };
    base.with("mcpServers", servers.with(name, server))
}

/// What an agent knows, as it was read: nothing where there is no file, and nothing
/// where it is no JSON.
pub open spec fn known(text: Option<Seq<char>>) -> JsonTree {
    match text {
        None => JsonTree::Object(no_fields()),
        Some(t) => match json_read(t) {
            Ok(root) => root,
            Err(_) => JsonTree::Object(no_fields()),
        },
    }
}

/// Registers the server with an agent: the new text of the file in which it keeps what
/// it knows. `existing` is what that file holds, where there is one. There is no new
/// text where the file holds something that takes no servers.
pub fn register_claude_mcp(
    existing: Option<&str>,
    server_name: &str,
    bin: &str,
    config_path: Option<&str>,
) -> (r: Option<String>)
    ensures
        r is Some <==> takes_servers(known(opt_str(existing))),
        r matches Some(t) ==> t@ == json_pretty(
            with_server(
                known(opt_str(existing)),
                server_name@,
                server_tree(bin@, opt_str(config_path)),
            ),
        ),
        ({
            let root = with_server(
                known(opt_str(existing)),
                server_name@,
                server_tree(bin@, opt_str(config_path)),
            );
            r matches Some(t) ==> (nests_within(root, MAX_DEPTH as nat) ==> json_read(t@) is Ok)
                && (is_plain(root, MAX_DEPTH as nat) ==> json_read(t@) == Ok::<
                JsonTree,
                Seq<char>,
            >(root))
        }),
{
    let root = match existing {
        None => Json::object(),
        Some(t) => match parse(t) {
            Ok(j) => j,
            Err(_) => Json::object(),
        },
    };
    if !can_take_servers(&root) {
        return None;
    }
    Some(add_server(&root, server_name, server_entry(bin, config_path)).pretty())
}

/// The server of a name that an agent knows.
pub open spec fn server_of(root: JsonTree, name: Seq<char>) -> Option<JsonTree> {
    field(servers_of(root), name)
}

/// Registering a server keeps everything else that an agent knows, the other servers
/// among it, and takes the place of an earlier registration of the same name.
pub proof fn registration_keeps_the_rest(
    root: JsonTree,
    name: Seq<char>,
    server: JsonTree,
    other: Seq<char>,
    key: Seq<char>,
)
    requires
        takes_servers(root),
        other != name,
        key != "mcpServers"@,
    ensures
        field(with_server(root, name, server), key) == field(root, key),
        server_of(with_server(root, name, server), other) == server_of(root, other),
        server_of(with_server(root, name, server), name) == Some(server),
        takes_servers(with_server(root, name, server)),
{
}

// ---------------------------------------------------------------------------
// Starting a project
// ---------------------------------------------------------------------------

/// The configuration file of a new project.
pub open spec fn init_text(name: Seq<char>, mount: Seq<char>) -> Seq<char> {
    "# LiveFolders configuration\n# Run `livefolders mount` to start the filesystem.\n\nname: "@
        + name + "\nmount: "@ + mount
        + "\ntools_dir: ~/.config/livefolders/tools\n\ntools:\n  - name: echo\n"@
}

/// Starts a project: the text of its configuration file, unless there is one.
pub fn cmd_init_silent(present: bool, name: &str, mount: &str) -> (r: Result<String, String>)
    ensures
        if present {
            r matches Err(m) && m@ == "livefolders.yaml already exists in the current directory"@
        } else {
            r matches Ok(t) && t@ == init_text(name@, mount@)
        },
{
    if present {
        return Err("livefolders.yaml already exists in the current directory".to_string());
    }
    let mut s =
        "# LiveFolders configuration\n# Run `livefolders mount` to start the filesystem.\n\nname: ".to_string();
    s.push_str(name);
    s.push_str("\nmount: ");
    s.push_str(mount);
    s.push_str("\ntools_dir: ~/.config/livefolders/tools\n\ntools:\n  - name: echo\n");
    Ok(s)
}

/// The name of a project, from the answer to the question for it.
pub fn project_name(answer: &str, default: &str) -> (r: String)
    ensures
        r@ == (if trim(answer@).len() == 0 {
            default@
        } else {
            trim(answer@)
        }),
{
    let name = trimmed(answer);
    if chars_of(&name).len() == 0 {
        default.to_string()
    } else {
        name
    }
}

/// Where a project mounts, from the answer to the question for it.
pub fn mount_location(answer: &str) -> (r: String)
    ensures
        r@ == (if trim(answer@) == "2"@ {
            "~/.livefolders"@
        } else {
            ".livefolders"@
        }),
{
    if same(&trimmed(answer), "2") {
        "~/.livefolders".to_string()
    } else {
        ".livefolders".to_string()
    }
}

/// The agent that registers MCP servers: what it is called, and the file in which it
/// finds its instructions.
#[derive(Debug)]
pub struct AgentNames {
    pub title: String,
    pub file: String,
}

/// The agent that a project is worked on with.
#[derive(Clone, Copy, Debug, PartialEq, Eq, Structural)]
pub enum AgentChoice {
    /// The agent that registers MCP servers.
    Registering,
    Agents,
    Copilot,
    Snippet,
    Skip,
}

/// The agent that an answer names.
pub open spec fn agent_of(answer: Seq<char>) -> AgentChoice {
    if answer == "1"@ {
        AgentChoice::Registering
    } else if answer == "2"@ {
        AgentChoice::Agents
    } else if answer == "3"@ {
        AgentChoice::Copilot
    } else if answer == "4"@ {
        AgentChoice::Snippet
    } else {
        AgentChoice::Skip
    }
}

/// The agent that an answer names.
pub fn agent_choice(answer: &str) -> (r: AgentChoice)
    ensures
        r == agent_of(trim(answer@)),
{
    let a = trimmed(answer);
    if same(&a, "1") {
        AgentChoice::Registering
    } else if same(&a, "2") {
        AgentChoice::Agents
    } else if same(&a, "3") {
        AgentChoice::Copilot
    } else if same(&a, "4") {
        AgentChoice::Snippet
    } else {
        AgentChoice::Skip
    }
}

/// A remark on a file that was found.
pub open spec fn remark(found: bool, text: Seq<char>) -> Seq<char> {
    if found {
        text
    } else {
        ""@
    }
}

/// A remark on the instructions of the agent that registers MCP servers.
pub open spec fn file_remark(found: bool, file: Seq<char>) -> Seq<char> {
    if found {
        " ("@ + file + " detected)"@
    } else {
        ""@
    }
}

/// The question for the agent that a project is worked on with. The files of agents
/// that are there are remarked on.
pub open spec fn agent_question_text(
    title: Seq<char>,
    file: Seq<char>,
    has_file: bool,
    has_agents: bool,
    has_copilot: bool,
) -> Seq<char> {
    "\nWhich code agent are you using?\n  [1] "@ + title + file_remark(has_file, file)
        + "\n  [2] Cursor / Windsurf / Aider / other (AGENTS.md)"@ + remark(
        has_agents,
        " (AGENTS.md detected)"@,
    ) + "\n  [3] GitHub Copilot"@ + remark(has_copilot, " (copilot-instructions.md detected)"@)
        + "\n  [4] Show me the snippet — I'll add it myself\n  [5] Skip\nChoice [1-5]: "@
}

/// The question for the agent that a project is worked on with.
pub fn agent_question(
    names: &AgentNames,
    has_file: bool,
    has_agents: bool,
    has_copilot: bool,
) -> (r: String)
    ensures
        r@ == agent_question_text(names.title@, names.file@, has_file, has_agents, has_copilot),
{
    let mut s = "\nWhich code agent are you using?\n  [1] ".to_string();
    s.push_str(&names.title);
    let mut found = "".to_string();
    if has_file {
        found = " (".to_string();
        found.push_str(&names.file);
        found.push_str(" detected)");
    }
    s.push_str(&found);
    s.push_str("\n  [2] Cursor / Windsurf / Aider / other (AGENTS.md)");
    s.push_str(
        if has_agents {
            " (AGENTS.md detected)"
        } else {
            ""
        },
    );
    s.push_str("\n  [3] GitHub Copilot");
    s.push_str(
        if has_copilot {
            " (copilot-instructions.md detected)"
        } else {
            ""
        },
    );
    s.push_str("\n  [4] Show me the snippet — I'll add it myself\n  [5] Skip\nChoice [1-5]: ");
    s
}

/// The file in which an agent finds its instructions, below the directory of the
/// project.
pub fn agent_file(choice: AgentChoice, names: &AgentNames) -> (r: Option<String>)
    ensures
        opt_view(r) == (match choice {
            AgentChoice::Registering => Some(names.file@),
            AgentChoice::Agents => Some("AGENTS.md"@),
            AgentChoice::Copilot => Some(".github/copilot-instructions.md"@),
            _ => None,
        }),
{
    match choice {
        AgentChoice::Registering => Some(names.file.clone()),
        AgentChoice::Agents => Some("AGENTS.md".to_string()),
        AgentChoice::Copilot => Some(".github/copilot-instructions.md".to_string()),
        _ => None,
    }
}

/// What is printed when the instructions of an agent were added to.
pub fn added_notice(file: &str) -> (r: String)
    ensures
        r@ == "Added LiveFolders instructions to "@ + file@,
{
    let mut s = "Added LiveFolders instructions to ".to_string();
    s.push_str(file);
    s
}

/// What is appended to the instructions of an agent; behind others stands a blank line.
pub fn snippet_to_append(has_content: bool) -> (r: String)
    ensures
        r@ == remark(has_content, "\n"@) + AGENT_SNIPPET@,
{
    let mut s = if has_content {
        "\n".to_string()
    } else {
        "".to_string()
    };
    s.push_str(AGENT_SNIPPET);
    s
}

} // verus!
