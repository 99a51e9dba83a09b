//! What the words of a command line mean, and what the commands print.
use crate::cli::{
    agent_of, agent_question_text, arg_at, arguments_of, call_pairs, command_of, file_remark,
    init_text, installed_line, installed_lines, is_subcommand, known, mount_options, mountpoint_of,
    names_tool, padded, project_server_name, remark, sanitized, server_of, server_tree,
    status_text, takes_servers, texts_of, with_external, with_server, AgentChoice, Command,
    InstalledTool, MountOptions,
};
use crate::config::{Config, ToolConfig};
use crate::daemon::{data_directory, pid_file};
use crate::doctor::{
    check_line, report_lines, tool_checked, tools_dir_message, CheckResult, ManifestFact,
    ToolDirFact,
};
use crate::json::{field, field_array, field_str, json_read, JsonTree};
use crate::mcp_proxy::ProxyResponse;
use crate::registry::ToolHandle;
use crate::split::replace_char;
use vstd::prelude::*;

verus! {

// ---------------------------------------------------------------------------
// The command line
// ---------------------------------------------------------------------------

proof fn lemma_commands()
    ensures
        "init"@ =~= seq!['i', 'n', 'i', 't'],
        "mount"@ =~= seq!['m', 'o', 'u', 'n', 't'],
        "stop"@ =~= seq!['s', 't', 'o', 'p'],
        "install"@ =~= seq!['i', 'n', 's', 't', 'a', 'l', 'l'],
        "search"@ =~= seq!['s', 'e', 'a', 'r', 'c', 'h'],
        "doctor"@ =~= seq!['d', 'o', 'c', 't', 'o', 'r'],
        "info"@ =~= seq!['i', 'n', 'f', 'o'],
        "publish"@ =~= seq!['p', 'u', 'b', 'l', 'i', 's', 'h'],
        "tools"@ =~= seq!['t', 'o', 'o', 'l', 's'],
        "mcp"@ =~= seq!['m', 'c', 'p'],
        "help"@ =~= seq!['h', 'e', 'l', 'p'],
        "list"@ =~= seq!['l', 'i', 's', 't'],
{
    reveal_strlit("init");
    reveal_strlit("mount");
    reveal_strlit("stop");
    reveal_strlit("install");
    reveal_strlit("search");
    reveal_strlit("doctor");
    reveal_strlit("info");
    reveal_strlit("publish");
    reveal_strlit("tools");
    reveal_strlit("mcp");
    reveal_strlit("help");
    reveal_strlit("list");
}

proof fn lemma_flags()
    ensures
        "--version"@.len() == 9 && "--version"@[0] == '-',
        "-v"@ =~= seq!['-', 'v'],
        "--help"@.len() == 6 && "--help"@[0] == '-',
        "-h"@ =~= seq!['-', 'h'],
        "--config"@.len() == 8 && "--config"@[0] == '-',
        "-c"@ =~= seq!['-', 'c'],
        "--foreground"@.len() == 12 && "--foreground"@[0] == '-',
        "-f"@ =~= seq!['-', 'f'],
{
    reveal_strlit("--version");
    reveal_strlit("-v");
    reveal_strlit("--help");
    reveal_strlit("-h");
    reveal_strlit("--config");
    reveal_strlit("-c");
    reveal_strlit("--foreground");
    reveal_strlit("-f");
}

/// The words that name a command.
pub open spec fn names_command(w: Seq<char>) -> bool {
    seq![
        "init"@,
        "mount"@,
        "stop"@,
        "install"@,
        "search"@,
        "doctor"@,
        "info"@,
        "publish"@,
        "tools"@,
        "mcp"@,
        "--version"@,
        "-v"@,
        "help"@,
        "--help"@,
        "-h"@,
    ].contains(w)
}

/// Each command has its word, and is meant by no other. A word that names no command is a
/// place to mount at, unless it is an option: then it is unknown.
pub proof fn words_name_commands(w: Seq<char>)
    ensures
        command_of("init"@) == Command::Init,
        command_of("mount"@) == Command::Mount,
        command_of("stop"@) == Command::Stop,
        command_of("install"@) == Command::Install,
        command_of("search"@) == Command::Search,
        command_of("doctor"@) == Command::Doctor,
        command_of("info"@) == Command::Info,
        command_of("publish"@) == Command::Publish,
        command_of("tools"@) == Command::Tools,
        command_of("mcp"@) == Command::Mcp,
        command_of("--version"@) == Command::Version,
        command_of("-v"@) == Command::Version,
        command_of("help"@) == Command::Help,
        command_of("--help"@) == Command::Help,
        command_of("-h"@) == Command::Help,
        !names_command(w) && w.len() > 0 && w[0] == '-' ==> command_of(w) == Command::Unknown,
        !names_command(w) && (w.len() == 0 || w[0] != '-') ==> command_of(w) == Command::Mount,
{
    lemma_commands();
    lemma_flags();
    let all = seq![
        "init"@,
        "mount"@,
        "stop"@,
        "install"@,
        "search"@,
        "doctor"@,
        "info"@,
        "publish"@,
        "tools"@,
        "mcp"@,
        "--version"@,
        "-v"@,
        "help"@,
        "--help"@,
        "-h"@,
    ];
    assert("init"@[2] == 'i' && "stop"@[0] == 's' && "info"@[2] == 'f' && "help"@[0] == 'h');
    assert("mount"@[0] == 'm' && "tools"@[0] == 't');
    assert("install"@[0] == 'i' && "publish"@[0] == 'p');
    assert("search"@[0] == 's' && "doctor"@[0] == 'd');
    assert("-v"@[1] == 'v' && "-h"@[1] == 'h' && "-v"@[0] == '-' && "-h"@[0] == '-');
    assert(all[0] == "init"@ && all[1] == "mount"@ && all[2] == "stop"@ && all[3] == "install"@
        && all[4] == "search"@ && all[5] == "doctor"@ && all[6] == "info"@ && all[7] == "publish"@
        && all[8] == "tools"@ && all[9] == "mcp"@ && all[10] == "--version"@ && all[11] == "-v"@
        && all[12] == "help"@ && all[13] == "--help"@ && all[14] == "-h"@);
}

/// An argument is what stands at its place.
pub proof fn arguments_stand_in_order(args: Seq<String>, i: int)
    ensures
        0 <= i < args.len() ==> arg_at(args, i) == Some(args[i]@),
        i < 0 || i >= args.len() ==> arg_at(args, i) is None,
{
}

/// What one word of a mount's options does: `--config` and `-c` take the word behind them
/// for the configuration, `--foreground` and `-f` keep the mount in the foreground, a plain
/// word is the place to mount at, and the last one said counts. Commands and unknown options
/// are passed over.
pub proof fn options_of_a_mount_are_read(args: Seq<String>, i: int, said: MountOptions)
    requires
        0 <= i <= args.len(),
    ensures
        i == args.len() ==> mount_options(args, i, said) == said,
        i + 1 == args.len() && (args[i]@ == "--config"@ || args[i]@ == "-c"@) ==> mount_options(
            args,
            i,
            said,
        ) == said,
        i + 1 < args.len() && (args[i]@ == "--config"@ || args[i]@ == "-c"@) ==> mount_options(
            args,
            i,
            said,
        ) == mount_options(
            args,
            i + 2,
            MountOptions {
                mount: said.mount,
                config: Some(args[i + 1]@),
                foreground: said.foreground,
            },
        ),
        i < args.len() && (args[i]@ == "--foreground"@ || args[i]@ == "-f"@) ==> mount_options(
            args,
            i,
            said,
        ) == mount_options(
            args,
            i + 1,
            MountOptions { mount: said.mount, config: said.config, foreground: true },
        ),
        i < args.len() && seq![
            "mount"@,
            "install"@,
            "stop"@,
            "doctor"@,
            "init"@,
            "help"@,
            "mcp"@,
            "tools"@,
            "list"@,
        ].contains(args[i]@) ==> mount_options(args, i, said) == mount_options(args, i + 1, said),
        i < args.len() && args[i]@.len() > 0 && args[i]@[0] == '-' && args[i]@ != "--config"@
            && args[i]@ != "-c"@ && args[i]@ != "--foreground"@ && args[i]@ != "-f"@
            ==> mount_options(args, i, said) == mount_options(args, i + 1, said),
        i < args.len() && !seq![
            "mount"@,
            "install"@,
            "stop"@,
            "doctor"@,
            "init"@,
            "help"@,
            "mcp"@,
            "tools"@,
            "list"@,
        ].contains(args[i]@) && (args[i]@.len() == 0 || args[i]@[0] != '-') ==> mount_options(
            args,
            i,
            said,
        ) == mount_options(
            args,
            i + 1,
            MountOptions {
                mount: Some(args[i]@),
                config: said.config,
                foreground: said.foreground,
            },
        ),
{
    lemma_commands();
    lemma_flags();
    if i < args.len() {
        let w = args[i]@;
        let all = seq![
            "mount"@,
            "install"@,
            "stop"@,
            "doctor"@,
            "init"@,
            "help"@,
            "mcp"@,
            "tools"@,
            "list"@,
        ];
        assert(all[0] == "mount"@ && all[1] == "install"@ && all[2] == "stop"@ && all[3]
            == "doctor"@ && all[4] == "init"@ && all[5] == "help"@ && all[6] == "mcp"@ && all[7]
            == "tools"@ && all[8] == "list"@);
        assert(is_subcommand(w) == all.contains(w)) by {
            if all.contains(w) {
                let k = all.index_of(w);
                assert(all[k] == w);
                assert(k == 0 || k == 1 || k == 2 || k == 3 || k == 4 || k == 5 || k == 6 || k == 7
                    || k == 8);
            }
        }
        assert("-c"@.len() == 2 && "-f"@.len() == 2 && "-c"@[1] == 'c' && "-f"@[1] == 'f' && "-c"@[0]
            == '-' && "-f"@[0] == '-');
        assert(all.contains(w) ==> w[0] != '-') by {
            if all.contains(w) {
                let k = all.index_of(w);
                assert(all[k] == w);
                assert(k == 0 || k == 1 || k == 2 || k == 3 || k == 4 || k == 5 || k == 6 || k == 7
                    || k == 8);
                assert("mount"@[0] == 'm' && "install"@[0] == 'i' && "stop"@[0] == 's'
                    && "doctor"@[0] == 'd' && "init"@[0] == 'i' && "help"@[0] == 'h' && "mcp"@[0]
                    == 'm' && "tools"@[0] == 't' && "list"@[0] == 'l');
            }
        }
    }
}

/// The command line says where to mount, and else the configuration does.
pub proof fn the_command_line_goes_first(m: Seq<char>, cfg: Option<Seq<char>>)
    ensures
        mountpoint_of(Some(m), cfg) == m,
        mountpoint_of(None, Some(m)) == m,
        mountpoint_of(None, None) == ".livefolders"@,
{
}

/// What one word of a call's arguments does: the word behind `--arg` gives a name and a
/// value, the last one of a name counts, and every other word is passed over.
pub proof fn arguments_of_a_call_are_read(
    args: Seq<String>,
    i: int,
    said: Map<Seq<char>, Seq<char>>,
    key: Seq<char>,
    value: Seq<char>,
)
    requires
        0 <= i <= args.len(),
        !key.contains('='),
    ensures
        i == args.len() ==> call_pairs(args, i, said) == said,
        i < args.len() && args[i]@ != "--arg"@ ==> call_pairs(args, i, said) == call_pairs(
            args,
            i + 1,
            said,
        ),
        i + 1 == args.len() ==> call_pairs(args, i, said) == said,
        i + 1 < args.len() && args[i]@ == "--arg"@ && args[i + 1]@ == key + "="@ + value
            ==> call_pairs(args, i, said) == call_pairs(args, i + 2, said.insert(key, value)),
        i + 1 < args.len() && args[i]@ == "--arg"@ && !args[i + 1]@.contains('=') ==> call_pairs(
            args,
            i,
            said,
        ) == call_pairs(args, i + 2, said),
{
    reveal_strlit("=");
    assert("="@ =~= seq!['=']);
    super::texts::a_separator_is_found(key, '=', value);
    if i + 1 < args.len() && !args[i + 1]@.contains('=') {
        super::texts::a_separator_is_found(args[i + 1]@, '=', value);
    }
    reveal_with_fuel(call_pairs, 2);
}

/// The arguments of a call are an object of texts, one for each name that was given.
pub proof fn arguments_of_a_call_are_texts(pairs: Map<Seq<char>, String>, key: Seq<char>)
    ensures
        field(arguments_of(pairs), key) is Some <==> pairs.contains_key(key),
        pairs.contains_key(key) ==> field_str(arguments_of(pairs), key) == Some(pairs[key]@),
        texts_of(pairs).contains_key(key) <==> pairs.contains_key(key),
        pairs.contains_key(key) ==> texts_of(pairs)[key] == pairs[key]@,
{
}

/// What the proxy says of itself: where its socket is, and, if it answers, what servers run.
pub proof fn the_status_lists_the_servers(socket: Seq<char>, resp: ProxyResponse)
    ensures
        !resp.ok ==> status_text(socket, resp) == "mcp-proxy socket: "@ + socket,
        resp.ok && resp.result is Some && resp.result->0@.len() > 0 ==> status_text(socket, resp)
            == "mcp-proxy socket: "@ + socket + "\nRunning servers:\n"@ + resp.result->0@,
        resp.ok && (resp.result is None || resp.result->0@.len() == 0) ==> status_text(socket, resp)
            == "mcp-proxy socket: "@ + socket + "\nNo MCP servers running."@,
{
    reveal_strlit("");
    if !resp.ok {
        assert("mcp-proxy socket: "@ + socket + ""@ =~= "mcp-proxy socket: "@ + socket);
    } else if resp.result is Some && resp.result->0@.len() > 0 {
        assert("mcp-proxy socket: "@ + socket + ("\nRunning servers:\n"@ + resp.result->0@)
            =~= "mcp-proxy socket: "@ + socket + "\nRunning servers:\n"@ + resp.result->0@);
    }
}

// ---------------------------------------------------------------------------
// Installed tools
// ---------------------------------------------------------------------------

/// A text is filled up with spaces behind it, and never cut.
pub proof fn padding_adds_spaces(s: Seq<char>, width: nat)
    ensures
        padded(s, width).len() == (if s.len() < width {
            width
        } else {
            s.len()
        }),
        s.is_prefix_of(padded(s, width)),
        forall|i: int| s.len() <= i < padded(s, width).len() ==> padded(s, width)[i] == ' ',
    decreases width - s.len(),
{
    if s.len() < width {
        let t = s.push(' ');
        padding_adds_spaces(t, width);
        let p = padded(s, width);
        assert(p.subrange(0, t.len() as int) =~= t);
        assert(p.subrange(0, s.len() as int) =~= t.subrange(0, s.len() as int));
        assert(t.subrange(0, s.len() as int) =~= s);
        assert(p[s.len() as int] == p.subrange(0, t.len() as int)[s.len() as int]);
    } else {
        assert(s.subrange(0, s.len() as int) =~= s);
    }
}

/// The list of the installed tools has a line for each tool with a manifest, with its name
/// and description, and none for the others.
pub proof fn installed_tools_are_listed(tools: Seq<InstalledTool>, t: InstalledTool)
    ensures
        installed_lines(Seq::empty()) == Seq::<Seq<char>>::empty(),
        installed_lines(tools.push(t)) == (if t.has_manifest {
            installed_lines(tools).push(
                padded(t.name@, 20) + " — "@ + (if t.description is Some {
                    t.description->0@
                } else {
                    "—"@
                }),
            )
        } else {
            installed_lines(tools)
        }),
{
    reveal(Seq::filter);
    assert(tools.push(t).drop_last() =~= tools);
    assert(installed_lines(Seq::<InstalledTool>::empty()) =~= Seq::<Seq<char>>::empty());
    if t.has_manifest {
        assert(installed_lines(tools.push(t)) =~= installed_lines(tools).push(installed_line(t)));
    }
}

/// A configuration names the tools that are in its list.
pub proof fn configured_tools_are_named(cfg: Config, name: Seq<char>)
    ensures
        names_tool(cfg, name) <==> cfg.tools@.map_values(|t: ToolConfig| t.name@).contains(name),
{
    let names = cfg.tools@.map_values(|t: ToolConfig| t.name@);
    if names.contains(name) {
        let i = names.index_of(name);
        assert(names[i] == name);
        assert(cfg.tools@[i].name@ == name);
    }
    if names_tool(cfg, name) {
        let i = choose|i: int|
            0 <= i < cfg.tools@.len() && (#[trigger] cfg.tools@[i]).name@ == name;
        assert(names[i] == name);
    }
}

/// A tool on disk is registered under its name, unless a tool of that name is there already.
pub proof fn tools_on_disk_are_registered(
    tools: Map<Seq<char>, ToolHandle>,
    found: Seq<ToolHandle>,
    t: ToolHandle,
    other: Seq<char>,
)
    ensures
        with_external(tools, Seq::empty()) == tools,
        with_external(tools, found.push(t)).contains_key(t.model().name),
        !with_external(tools, found).contains_key(t.model().name) ==> with_external(
            tools,
            found.push(t),
        )[t.model().name] == t,
        with_external(tools, found).contains_key(t.model().name) ==> with_external(
            tools,
            found.push(t),
        ) == with_external(tools, found),
        other != t.model().name ==> with_external(tools, found.push(t)).contains_key(other)
            == with_external(tools, found).contains_key(other),
        other != t.model().name && with_external(tools, found).contains_key(other)
            ==> with_external(tools, found.push(t))[other] == with_external(tools, found)[other],
{
    assert(found.push(t).drop_last() =~= found);
}

// ---------------------------------------------------------------------------
// Registration and a new project
// ---------------------------------------------------------------------------

/// A name keeps its letters, digits, dashes and underscores, and every other character
/// becomes a dash.
pub proof fn names_are_made_plain(name: Seq<char>, i: int)
    requires
        0 <= i < name.len(),
    ensures
        ({
            let n = name[i] as u32;
            let plain = (48 <= n && n <= 57) || (65 <= n && n <= 90) || (97 <= n && n <= 122)
                || name[i] == '-' || name[i] == '_';
            &&& sanitized(name).len() == name.len()
            &&& plain ==> sanitized(name)[i] == name[i]
            &&& !plain ==> sanitized(name)[i] == '-'
        }),
{
}

/// A project is registered under the name of its configuration, and else under that of the
/// directory that holds its configuration.
pub proof fn projects_are_registered_by_name(
    name: Seq<char>,
    dir: Seq<Seq<char>>,
    project: Seq<char>,
    file: Seq<char>,
    config: Seq<Seq<char>>,
)
    requires
        project != "/"@ && project != "."@ && project != ".."@,
        file != "/"@,
    ensures
        project_server_name(Some(name), config) == "livefolders-"@ + sanitized(name),
        project_server_name(None, dir.push(project).push(file)) == "livefolders-"@ + sanitized(
            project,
        ),
{
    super::texts::a_file_is_its_name_in_its_directory(dir.push(project), file);
    super::texts::a_file_is_its_name_in_its_directory(dir, project);
}

proof fn lemma_server_keys()
    ensures
        "type"@ =~= seq!['t', 'y', 'p', 'e'],
        "args"@ =~= seq!['a', 'r', 'g', 's'],
        "command"@.len() == 7,
        "env"@.len() == 3,
{
    reveal_strlit("type");
    reveal_strlit("args");
    reveal_strlit("command");
    reveal_strlit("env");
}

/// The entry of a server says how it is started: the program, with `mcp` and, where there is
/// one, the configuration.
pub proof fn servers_are_started_by_their_entry(bin: Seq<char>, config: Seq<char>)
    ensures
        field_str(server_tree(bin, None), "type"@) == Some("stdio"@),
        field_str(server_tree(bin, None), "command"@) == Some(bin),
        field_array(server_tree(bin, None), "args"@) == Some(seq![JsonTree::Str("mcp"@)]),
        field(server_tree(bin, None), "env"@) == Some(
            JsonTree::Object(Map::<Seq<char>, JsonTree>::empty()),
        ),
        field_str(server_tree(bin, Some(config)), "type"@) == Some("stdio"@),
        field_str(server_tree(bin, Some(config)), "command"@) == Some(bin),
        field_array(server_tree(bin, Some(config)), "args"@) == Some(
            seq![JsonTree::Str("mcp"@), JsonTree::Str("--config"@), JsonTree::Str(config)],
        ),
        field(server_tree(bin, Some(config)), "env"@) == Some(
            JsonTree::Object(Map::<Seq<char>, JsonTree>::empty()),
        ),
{
    lemma_server_keys();
    assert("type"@[0] == 't' && "args"@[0] == 'a');
}

/// What an agent knows takes servers exactly if it is an object whose `mcpServers`, where
/// there are any, are one too; nothing known counts as an empty object in both places.
pub proof fn registrations_need_objects(root: JsonTree, name: Seq<char>, server: JsonTree)
    ensures
        takes_servers(root) <==> match root {
            JsonTree::Null => true,
            JsonTree::Object(_) => match field(root, "mcpServers"@) {
                None => true,
                Some(s) => s is Null || s is Object,
            },
            _ => false,
        },
        server_of(root, name) == (match field(root, "mcpServers"@) {
            None => None,
            Some(s) => field(s, name),
        }),
        field(with_server(root, name, server), "mcpServers"@) matches Some(s) && field(s, name)
            == Some(server),
{
}

/// What an agent knows is what its file says; a file that is missing or no JSON says
/// nothing.
pub proof fn unreadable_files_say_nothing(text: Seq<char>)
    ensures
        known(None) == JsonTree::Object(Map::<Seq<char>, JsonTree>::empty()),
        json_read(text) matches Ok(t) ==> known(Some(text)) == t,
        json_read(text) is Err ==> known(Some(text)) == JsonTree::Object(
            Map::<Seq<char>, JsonTree>::empty(),
        ),
{
}

/// The configuration of a new project has its name and its mount.
pub proof fn new_projects_are_configured(name: Seq<char>, mount: Seq<char>)
    ensures
        init_text(name, mount)
            == "# LiveFolders configuration\n# Run `livefolders mount` to start the filesystem.\n\nname: "@
            + name + "\nmount: "@ + mount
            + "\ntools_dir: ~/.config/livefolders/tools\n\ntools:\n  - name: echo\n"@,
{
}

/// Each of the numbers from one to four chooses what it stands for in the question; every
/// other answer skips.
pub proof fn answers_choose_an_agent(answer: Seq<char>)
    ensures
        agent_of(seq!['1']) == AgentChoice::Registering,
        agent_of(seq!['2']) == AgentChoice::Agents,
        agent_of(seq!['3']) == AgentChoice::Copilot,
        agent_of(seq!['4']) == AgentChoice::Snippet,
        answer != seq!['1'] && answer != seq!['2'] && answer != seq!['3'] && answer != seq!['4']
            ==> agent_of(answer) == AgentChoice::Skip,
{
    reveal_strlit("1");
    reveal_strlit("2");
    reveal_strlit("3");
    reveal_strlit("4");
    assert("1"@ =~= seq!['1']);
    assert("2"@ =~= seq!['2']);
    assert("3"@ =~= seq!['3']);
    assert("4"@ =~= seq!['4']);
    assert(seq!['1'][0] == '1' && seq!['2'][0] == '2' && seq!['3'][0] == '3' && seq!['4'][0]
        == '4');
}

/// A remark on a file stands behind its choice exactly if the file was found.
pub proof fn found_files_are_remarked_on(text: Seq<char>, file: Seq<char>)
    ensures
        remark(true, text) == text,
        remark(false, text) == Seq::<char>::empty(),
        file_remark(true, file) == " ("@ + file + " detected)"@,
        file_remark(false, file) == Seq::<char>::empty(),
        agent_question_text(text, file, false, false, false)
            == "\nWhich code agent are you using?\n  [1] "@ + text
            + "\n  [2] Cursor / Windsurf / Aider / other (AGENTS.md)"@ + "\n  [3] GitHub Copilot"@
            + "\n  [4] Show me the snippet — I'll add it myself\n  [5] Skip\nChoice [1-5]: "@,
        agent_question_text(text, file, true, true, true)
            == "\nWhich code agent are you using?\n  [1] "@ + text + " ("@ + file + " detected)"@
            + "\n  [2] Cursor / Windsurf / Aider / other (AGENTS.md)"@ + " (AGENTS.md detected)"@
            + "\n  [3] GitHub Copilot"@ + " (copilot-instructions.md detected)"@
            + "\n  [4] Show me the snippet — I'll add it myself\n  [5] Skip\nChoice [1-5]: "@,
{
    reveal_strlit("");
    assert(""@ =~= Seq::<char>::empty());
    assert(agent_question_text(text, file, false, false, false)
        =~= "\nWhich code agent are you using?\n  [1] "@ + text
        + "\n  [2] Cursor / Windsurf / Aider / other (AGENTS.md)"@ + "\n  [3] GitHub Copilot"@
        + "\n  [4] Show me the snippet — I'll add it myself\n  [5] Skip\nChoice [1-5]: "@);
    assert(agent_question_text(text, file, true, true, true)
        =~= "\nWhich code agent are you using?\n  [1] "@ + text + " ("@ + file + " detected)"@
        + "\n  [2] Cursor / Windsurf / Aider / other (AGENTS.md)"@ + " (AGENTS.md detected)"@
        + "\n  [3] GitHub Copilot"@ + " (copilot-instructions.md detected)"@
        + "\n  [4] Show me the snippet — I'll add it myself\n  [5] Skip\nChoice [1-5]: "@);
}

// ---------------------------------------------------------------------------
// The daemon
// ---------------------------------------------------------------------------

/// A mount that runs in the background leaves its number in a file below the home directory,
/// named after the place where it is mounted.
pub proof fn mounts_leave_their_number_below_home(mount: Seq<char>, home: Seq<char>)
    requires
        home.len() > 0,
        home.last() != '/',
    ensures
        data_directory(Some(home)) == home + "/.local/share/livefolders"@,
        data_directory(None) == "/tmp/.local/share/livefolders"@,
        pid_file(mount, Some(home)) == home + "/.local/share/livefolders/"@ + replace_char(
            mount,
            '/',
            '_',
        ) + ".pid"@,
{
    reveal_strlit(".local/share/livefolders");
    reveal_strlit("/.local/share/livefolders");
    reveal_strlit("/.local/share/livefolders/");
    reveal_strlit("/tmp");
    reveal_strlit("/tmp/.local/share/livefolders");
    reveal_strlit(".pid");
    let slash = seq!['/'];
    let tail = ".local/share/livefolders"@;
    super::texts::paths_are_joined_by_one_slash(home, tail);
    super::texts::paths_are_joined_by_one_slash("/tmp"@, tail);
    assert("/.local/share/livefolders"@ =~= slash + tail);
    assert("/.local/share/livefolders/"@ =~= slash + tail + slash);
    assert(home + slash + tail =~= home + "/.local/share/livefolders"@);
    assert("/tmp"@ + slash + tail =~= "/tmp/.local/share/livefolders"@);
    let name = replace_char(mount, '/', '_');
    let file = name + ".pid"@;
    assert(file[0] != '/') by {
        if mount.len() > 0 {
            super::texts::replacing_changes_one_character(mount, '/', '_', 0);
            assert(file[0] == name[0]);
        } else {
            assert(name.len() == 0);
            assert(file[0] == ".pid"@[0]);
        }
    }
    let dir = data_directory(Some(home));
    assert(dir.last() == 's');
    super::texts::paths_are_joined_by_one_slash(dir, file);
    assert(dir + slash + file =~= home + "/.local/share/livefolders/"@ + name + ".pid"@);
}

// ---------------------------------------------------------------------------
// The doctor
// ---------------------------------------------------------------------------

/// A report has the line of every check, in order, then says whether all of them passed.
pub proof fn reports_have_every_check(checks: Seq<CheckResult>, i: int)
    ensures
        report_lines(checks).len() == checks.len() + 1,
        0 <= i < checks.len() ==> report_lines(checks)[i] == (if checks[i].ok {
            "[OK] "@
        } else {
            "[FAIL] "@
        }) + checks[i].name@ + " — "@ + checks[i].message@,
        (forall|k: int| 0 <= k < checks.len() ==> (#[trigger] checks[k]).ok) ==> report_lines(
            checks,
        ).last() == "\nAll checks passed."@,
        0 <= i < checks.len() && !checks[i].ok ==> report_lines(checks).last()
            == "\nSome checks failed. Fix the issues above and run `livefolders doctor` again."@,
{
    reveal_strlit("[");
    reveal_strlit("OK");
    reveal_strlit("FAIL");
    reveal_strlit("] ");
    reveal_strlit("[OK] ");
    reveal_strlit("[FAIL] ");
    assert("["@ + "OK"@ + "] "@ =~= "[OK] "@);
    assert("["@ + "FAIL"@ + "] "@ =~= "[FAIL] "@);
    if 0 <= i < checks.len() {
        assert(report_lines(checks)[i] == check_line(checks[i]));
    }
}

/// What is said of the directory of tools.
pub proof fn the_directory_of_tools_is_checked(cfg: Config, home: Option<Seq<char>>, exists: bool)
    ensures
        cfg.tools_dir is None ==> tools_dir_message(cfg, home, exists)
            == "tools_dir is not set in livefolders.yaml. Add: tools_dir: ~/.config/livefolders/tools"@,
        cfg.tools_dir is Some && crate::config::resolved(cfg.tools_dir->0@, home) is None
            ==> tools_dir_message(cfg, home, exists) == "tools_dir config error: "@
            + "tools_dir starts with '~/' but $HOME is not set"@,
        cfg.tools_dir is Some && crate::config::resolved(cfg.tools_dir->0@, home) is Some && exists
            ==> tools_dir_message(cfg, home, exists) == crate::config::resolved(
            cfg.tools_dir->0@,
            home,
        )->0 + " exists"@,
        cfg.tools_dir is Some && crate::config::resolved(cfg.tools_dir->0@, home) is Some && !exists
            ==> tools_dir_message(cfg, home, exists) == crate::config::resolved(
            cfg.tools_dir->0@,
            home,
        )->0 + " does not exist. Run `livefolders install <url>` to create it."@,
{
}

/// The check of a tool passes exactly if its manifest is there and valid, and names the tool.
pub proof fn tools_pass_with_a_valid_manifest(t: ToolDirFact, r: CheckResult)
    requires
        tool_checked(t, r),
    ensures
        r.ok <==> (t.manifest matches ManifestFact::Read(m) && forall|i: int|
            0 <= i < m.files@.len() ==> super::settings::may_stand(
                m.files@,
                #[trigger] m.files@[i],
            )),
        r.ok ==> r.message@ == "tool '"@ + t.name@ + "' folder.yaml is valid"@,
        t.manifest is Absent ==> r.message@ == "tool '"@ + t.name@ + "' has no folder.yaml"@,
        t.manifest is Unreadable ==> r.message@ == "tool '"@ + t.name@
            + "' folder.yaml could not be read"@,
        t.manifest is Read && !r.ok ==> ("tool '"@ + t.name@
            + "' folder.yaml is invalid: "@).is_prefix_of(r.message@),
{
    if let ManifestFact::Read(m) = t.manifest {
        let files = m.files@;
        if files.len() > 0 {
            super::settings::manifests_are_valid_file_by_file(files, files[0]);
        }
        if !r.ok {
            let head = "tool '"@ + t.name@ + "' folder.yaml is invalid: "@;
            let (i, e) = choose|i: int, e: Seq<char>| #[trigger]
                crate::manifest::first_out_of_order(files, i) && #[trigger]
                crate::manifest::complains(files, files[i], e) && r.message@ == head + e;
            assert(r.message@.subrange(0, head.len() as int) =~= head);
        }
    }
}

} // verus!
