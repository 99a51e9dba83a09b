//! Versions of tools of the registry.
use super::REGISTRY_URL;
use crate::tools::external::opt_str;
use vstd::prelude::*;

verus! {

/// A version of a tool of the registry.
#[derive(Debug)]
pub struct ResolveResponse {
    pub owner: String,
    pub name: String,
    pub version: String,
    pub tarball_url: String,
}

/// Where the registry answers for the versions of a tool.
pub open spec fn resolve_address(
    owner: Seq<char>,
    name: Seq<char>,
    version: Option<Seq<char>>,
) -> Seq<char> {
    let base = REGISTRY_URL@ + "/api/resolve/"@ + owner + "/"@ + name;
    match version {
        Some(v) => base + "?version="@ + v,
        None => base,
    }
}

/// Where the registry answers for the versions of a tool.
pub fn resolve_url(owner: &str, name: &str, version: Option<&str>) -> (r: String)
    ensures
        r@ == resolve_address(owner@, name@, opt_str(version)),
{
    let mut s = REGISTRY_URL.to_string();
    s.push_str("/api/resolve/");
    s.push_str(owner);
    s.push_str("/");
    s.push_str(name);
    if let Some(v) = version {
        s.push_str("?version=");
        s.push_str(v);
    }
    s
}

/// Where the registry counts the downloads of a tool.
pub fn downloads_url(owner: &str, name: &str) -> (r: String)
    ensures
        r@ == REGISTRY_URL@ + "/api/tools/"@ + owner@ + "/"@ + name@ + "/downloads"@,
{
    let mut s = super::info::info_url(owner, name);
    s.push_str("/downloads");
    s
}

/// What is printed when a version was found.
pub fn resolved_notice(owner: &str, name: &str, found: &ResolveResponse) -> (r: String)
    ensures
        r@ == "Resolved "@ + owner@ + "/"@ + name@ + "@"@ + found.version@,
{
    let mut s = "Resolved ".to_string();
    s.push_str(owner);
    s.push_str("/");
    s.push_str(name);
    s.push_str("@");
    s.push_str(&found.version);
    s
}

} // verus!
