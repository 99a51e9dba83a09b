//! Searches in the registry.
use super::{percent_encoded, url_encoded, REGISTRY_URL};
use crate::number::{decimal, to_decimal};
use crate::split::views;
use vstd::prelude::*;
use vstd::utf8::*;

verus! {

/// A tool that a search found.
#[derive(Debug)]
pub struct ToolSummary {
    pub owner: String,
    pub name: String,
    pub description: Option<String>,
    pub downloads: u64,
}

/// Where the registry answers a search.
pub fn search_url(query: &str) -> (r: String)
    ensures
        r@ == REGISTRY_URL@ + "/api/search?q="@ + percent_encoded(encode_utf8(query@)),
{
    let mut s = REGISTRY_URL.to_string();
    s.push_str("/api/search?q=");
    s.push_str(&url_encoded(query));
    s
}

/// The line on a tool that a search found.
pub open spec fn summary_line(t: ToolSummary) -> Seq<char> {
    t.owner@ + "/"@ + t.name@ + "\t— "@ + (match t.description {
        Some(d) => d@,
        None => "no description"@,
    }) + "\t("@ + decimal(t.downloads as nat) + " installs)"@
}

/// The lines on what a search found.
pub open spec fn result_lines(query: Seq<char>, found: Seq<ToolSummary>) -> Seq<Seq<char>> {
    if found.len() == 0 {
        seq!["No tools found for \""@ + query + "\"."@]
    } else {
        found.map_values(|t: ToolSummary| summary_line(t))
    }
}

/// The lines on what a search found.
pub fn describe_results(query: &str, found: &Vec<ToolSummary>) -> (r: Vec<String>)
    ensures
        views(r@) == result_lines(query@, found@),
{
    let mut out: Vec<String> = Vec::new();
    if found.len() == 0 {
        let mut s = "No tools found for \"".to_string();
        s.push_str(query);
        s.push_str("\".");
        out.push(s);
        proof {
            assert(views(out@) =~= result_lines(query@, found@));
        }
        return out;
    }
    let mut i: usize = 0;
    while i < found.len()
        invariant
            i <= found@.len(),
            out@.len() == i,
            forall|k: int| 0 <= k < i ==> (#[trigger] out@[k])@ == summary_line(found@[k]),
        decreases found@.len() - i,
    {
        let t = &found[i];
        let mut s = t.owner.clone();
        s.push_str("/");
        s.push_str(&t.name);
        s.push_str("\t— ");
        match &t.description {
            Some(d) => s.push_str(d),
            None => s.push_str("no description"),
        }
        s.push_str("\t(");
        s.push_str(&to_decimal(t.downloads));
        s.push_str(" installs)");
        out.push(s);
        i = i + 1;
    }
    proof {
        assert(views(out@) =~= found@.map_values(|t: ToolSummary| summary_line(t)));
    }
    out
}

} // verus!
