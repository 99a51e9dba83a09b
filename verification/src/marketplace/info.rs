//! What the registry says of a tool.
use super::REGISTRY_URL;
use crate::number::{decimal, to_decimal};
use crate::split::{cut_once, split_once};
use vstd::prelude::*;

verus! {

/// What the registry says of a tool.
#[derive(Debug)]
pub struct ToolDetail {
    pub owner: String,
    pub name: String,
    pub description: Option<String>,
    pub repo_url: String,
    pub downloads: u64,
    pub updated_at: String,
}

/// Where the registry answers for a tool.
pub fn info_url(owner: &str, name: &str) -> (r: String)
    ensures
        r@ == REGISTRY_URL@ + "/api/tools/"@ + owner@ + "/"@ + name@,
{
    let mut s = REGISTRY_URL.to_string();
    s.push_str("/api/tools/");
    s.push_str(owner);
    s.push_str("/");
    s.push_str(name);
    s
}

/// Reads the name of a tool of the registry: `owner/name`.
pub fn parse_package(pkg: &str) -> (r: Result<(String, String), String>)
    ensures
        match split_once(pkg@, "/"@) {
            None => r matches Err(m) && m@ == "[ERROR:INVALID] expected owner/name"@,
            Some((o, n)) => r matches Ok(p) && p.0@ == o && p.1@ == n,
        },
{
    match cut_once(pkg, "/") {
        None => Err("[ERROR:INVALID] expected owner/name".to_string()),
        Some(p) => Ok(p),
    }
}

/// What is printed of a tool that was asked for as `owner/name`.
pub open spec fn info_text(d: ToolDetail, owner: Seq<char>, name: Seq<char>) -> Seq<char> {
    d.owner@ + "/"@ + d.name@ + "\n  Description: "@ + (match d.description {
        Some(t) => t@,
        None => "—"@,
    }) + "\n  Repository:  "@ + d.repo_url@ + "\n  Downloads:   "@ + decimal(d.downloads as nat)
        + "\n  Updated:     "@ + d.updated_at@ + "\n  Install:     livefolders install "@ + owner
        + "/"@ + name
}

/// What is printed of a tool that was asked for as `owner/name`.
pub fn describe(d: &ToolDetail, owner: &str, name: &str) -> (r: String)
    ensures
        r@ == info_text(*d, owner@, name@),
{
    let mut s = d.owner.clone();
    s.push_str("/");
    s.push_str(&d.name);
    s.push_str("\n  Description: ");
    match &d.description {
        Some(t) => s.push_str(t),
        None => s.push_str("—"),
    }
    s.push_str("\n  Repository:  ");
    s.push_str(&d.repo_url);
    s.push_str("\n  Downloads:   ");
    s.push_str(&to_decimal(d.downloads));
    s.push_str("\n  Updated:     ");
    s.push_str(&d.updated_at);
    s.push_str("\n  Install:     livefolders install ");
    s.push_str(owner);
    s.push_str("/");
    s.push_str(name);
    s
}

} // verus!
