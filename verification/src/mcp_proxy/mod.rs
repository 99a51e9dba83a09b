//! A proxy that keeps MCP servers running and calls their tools.
pub mod client;
pub mod server_pool;
pub mod socket_protocol;

pub use client::McpClient;
pub use server_pool::{ServerEntry, ServerPool};
pub use socket_protocol::{ProxyRequest, ProxyResponse};

use crate::daemon::{data_dir, data_directory};
use crate::json::Json;
use crate::paths::{join_text, joined_text};
use crate::split::{join, joined, views};
use crate::tools::external::opt_str;
use vstd::prelude::*;

verus! {

/// Where the proxy listens.
pub fn default_socket_path(home: Option<&str>) -> (r: String)
    ensures
        r@ == join_text(data_directory(opt_str(home)), "mcp-proxy.sock"@),
{
    joined_text(&data_dir(home), "mcp-proxy.sock")
}

/// Where the MCP servers are configured.
pub fn default_config_path(home: Option<&str>) -> (r: String)
    ensures
        r@ == join_text(
            match opt_str(home) {
                None => ""@,
                Some(h) => h,
            },
            ".config/livefolders/mcp-servers.yaml"@,
        ),
{
    joined_text(
        match home {
            None => "",
            Some(h) => h,
        },
        ".config/livefolders/mcp-servers.yaml",
    )
}

/// What the proxy does about a request.
#[derive(Debug)]
pub enum ProxyAction {
    /// Call a tool of a server, and answer with what it gives.
    Call { server: String, tool: String, args: Json },
    /// Answer.
    Answer(ProxyResponse),
    /// Answer, and stop.
    AnswerAndStop(ProxyResponse),
}

/// Decides what the proxy does about a request. `running` holds the names of the
/// servers that run.
pub fn handle_request(req: ProxyRequest, running: &Vec<String>) -> (r: ProxyAction)
    ensures
        match req {
            ProxyRequest::Call { server, tool, args } => r == (ProxyAction::Call {
                server,
                tool,
                args,
            }),
            ProxyRequest::Status => r matches ProxyAction::Answer(a) && a.ok && a.error is None
                && a.result is Some && a.result->0@ == join(views(running@), "\n"@),
            ProxyRequest::Stop => r matches ProxyAction::AnswerAndStop(a) && a.ok && a.error is None
                && a.result is Some && a.result->0@ == ""@,
        },
{
    match req {
        ProxyRequest::Call { server, tool, args } => ProxyAction::Call { server, tool, args },
        ProxyRequest::Status => ProxyAction::Answer(
            ProxyResponse::success(joined(running, "\n")),
        ),
        ProxyRequest::Stop => ProxyAction::AnswerAndStop(ProxyResponse::success("".to_string())),
    }
}

} // verus!
