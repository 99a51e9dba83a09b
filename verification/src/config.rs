//! The configuration of a project: what a `livefolders.yaml` says.
use crate::paths::{join_text, joined_text};
use crate::sandbox::SandboxMode;
use crate::text::{strip_prefix, to_uppercase, uppercase, without_prefix};
use crate::text_map::TextMap;
use crate::tools::external::opt_str;
use vstd::prelude::*;

verus! {

/// How many seconds a handler may take where nothing is configured.
pub const DEFAULT_TIMEOUT_SECS: u64 = 30;

/// How many seconds a handler may take where nothing is configured.
pub fn default_timeout() -> (r: u64)
    ensures
        r == 30,
{
    DEFAULT_TIMEOUT_SECS
}

/// The configuration of a project.
#[derive(Debug)]
pub struct Config {
    /// The name of the project.
    pub name: Option<String>,
    /// Where to mount.
    pub mount: Option<String>,
    /// Where the tools live.
    pub tools_dir: Option<String>,
    /// How many seconds a handler may take.
    pub timeout_secs: u64,
    /// The built-in tools.
    pub tools: Vec<ToolConfig>,
}

/// The configuration of a built-in tool.
#[derive(Debug)]
pub struct ToolConfig {
    pub name: String,
    /// Name of the environment variable holding the API token. Defaults to
    /// `<NAME>_TOKEN` with the name of the tool in upper case.
    pub token_env: Option<String>,
}

/// The variable that holds the token of a tool.
pub open spec fn token_variable(c: ToolConfig) -> Seq<char> {
    match c.token_env {
        Some(v) => v@,
        None => uppercase(c.name@) + "_TOKEN"@,
    }
}

impl ToolConfig {
    /// The variable that holds the token of the tool.
    pub fn token_var(&self) -> (r: String)
        ensures
            r@ == token_variable(*self),
    {
        match &self.token_env {
            Some(v) => v.clone(),
            None => {
                let mut s = to_uppercase(&self.name);
                s.push_str("_TOKEN");
                s
            },
        }
    }

    /// The token of the tool, where the environment has it.
    pub fn resolve_token(&self, env: &TextMap<String>) -> (r: Option<String>)
        requires
            env.wf(),
        ensures
            r is Some <==> env@.contains_key(token_variable(*self)),
            r matches Some(t) ==> t@ == env@[token_variable(*self)]@,
    {
        match env.get(&self.token_var()) {
            None => None,
            Some(t) => Some(t.clone()),
        }
    }
}

/// The directory that a configured directory stands for: one under `~/` lies in the
/// home directory.
pub open spec fn resolved(dir: Seq<char>, home: Option<Seq<char>>) -> Option<Seq<char>> {
    match without_prefix(dir, "~/"@) {
        None => Some(dir),
        Some(rest) => match home {
            None => None,
            Some(h) => Some(join_text(h, rest)),
        },
    }
}

impl Config {
    /// The configuration of a project without a configuration file: the tool `echo`
    /// alone.
    pub fn default_config() -> (r: Self)
        ensures
            r.name is None,
            r.mount is None,
            r.tools_dir is None,
            r.timeout_secs == 30,
            r.tools@.len() == 1,
            r.tools@[0].name@ == "echo"@,
            r.tools@[0].token_env is None,
    {
        let mut tools: Vec<ToolConfig> = Vec::new();
        tools.push(ToolConfig { name: "echo".to_string(), token_env: None });
        Config { name: None, mount: None, tools_dir: None, timeout_secs: default_timeout(), tools }
    }

    /// How handlers are sandboxed.
    pub fn sandbox_mode(&self) -> (r: SandboxMode)
        ensures
            r == SandboxMode::Warn,
    {
        SandboxMode::default()
    }

    /// Where the tools live, for a home directory.
    pub fn resolved_tools_dir(&self, home: Option<&str>) -> (r: Result<Option<String>, String>)
        ensures
            match self.tools_dir {
                None => r matches Ok(d) && d is None,
                Some(dir) => match resolved(dir@, opt_str(home)) {
                    Some(d) => r matches Ok(Some(p)) && p@ == d,
                    None => r matches Err(m) && m@
                        == "tools_dir starts with '~/' but $HOME is not set"@,
                },
            },
    {
        match &self.tools_dir {
            None => Ok(None),
            Some(dir) => match strip_prefix(dir, "~/") {
                None => Ok(Some(dir.clone())),
                Some(rest) => match home {
                    None => Err("tools_dir starts with '~/' but $HOME is not set".to_string()),
                    Some(h) => Ok(Some(joined_text(h, &rest))),
                },
            },
        }
    }
}

} // verus!
