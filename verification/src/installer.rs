//! Installing tools from GitHub.
use crate::laws::installs::{
    directories_are_read_off_their_url, repositories_are_read_off_their_url,
};
use crate::manifest::{EnvDecl, Manifest};
use crate::paths::{join_text, joined_text};
use crate::split::{
    cut_n, split_once, splitn, trim, trim_end_of, trim_start_of, trimmed, trimmed_end_of,
    trimmed_start_of, views,
};
use crate::text::{same, strip_prefix, without_prefix};
use vstd::prelude::*;

verus! {

/// Where a tool lives on GitHub.
#[derive(Debug)]
pub struct GithubUrl {
    pub owner: String,
    pub repo: String,
    pub branch: String,
    pub subdir: Option<String>,
}

/// What a GitHub URL says.
pub struct GithubPlace {
    pub owner: Seq<char>,
    pub repo: Seq<char>,
    pub branch: Seq<char>,
    pub subdir: Option<Seq<char>>,
}

impl View for GithubUrl {
    type V = GithubPlace;

    open spec fn view(&self) -> GithubPlace {
        GithubPlace {
            owner: self.owner@,
            repo: self.repo@,
            branch: self.branch@,
            subdir: crate::text::opt_view(self.subdir),
        }
    }
}

/// A URL without slashes at its end and without a scheme.
pub open spec fn bare_url(url: Seq<char>) -> Seq<char> {
    trim_start_of(trim_start_of(trim_end_of(url, "/"@), "https://"@), "http://"@)
}

/// What the path behind `github.com/` says.
pub open spec fn github_place(path: Seq<char>) -> Option<GithubPlace> {
    let parts = splitn(path, '/', 5);
    if parts.len() == 2 && parts[0].len() > 0 && parts[1].len() > 0 {
        Some(GithubPlace { owner: parts[0], repo: parts[1], branch: "HEAD"@, subdir: None })
    } else if parts.len() == 5 && parts[2] == "tree"@ {
        Some(
            GithubPlace {
                owner: parts[0],
                repo: parts[1],
                branch: parts[3],
                subdir: Some(parts[4]),
            },
        )
    } else {
        None
    }
}

/// The message about a URL that says nothing.
pub open spec fn unrecognized() -> Seq<char> {
    "unrecognized GitHub URL. Expected:\n  github.com/owner/repo\n  github.com/owner/repo/tree/BRANCH/subdir"@
}

/// Reads a GitHub URL: `github.com/owner/repo`, or with `/tree/BRANCH/subdir` behind
/// it.
pub fn parse_github_url(url: &str) -> (r: Result<GithubUrl, String>)
    ensures
        match without_prefix(bare_url(url@), "github.com/"@) {
            None => r matches Err(m) && m@ == "URL must start with github.com/: "@ + bare_url(url@),
            Some(path) => match github_place(path) {
                None => r matches Err(m) && m@ == unrecognized(),
                Some(place) => r matches Ok(u) && u@ == place,
            },
        },
{
    let ended = trimmed_end_of(url, "/");
    let bare = trimmed_start_of(&trimmed_start_of(&ended, "https://"), "http://");
    match strip_prefix(&bare, "github.com/") {
        None => {
            let mut m = "URL must start with github.com/: ".to_string();
            m.push_str(&bare);
            Err(m)
        },
        Some(path) => {
            let parts = cut_n(&path, '/', 5);
            proof {
                assert(views(parts@).len() == parts@.len());
                assert forall|i: int| 0 <= i < parts@.len() implies views(parts@)[i]
                    == parts@[i]@ by {}
            }
            if parts.len() == 2 {
                let owner = crate::text::chars_of(&parts[0]);
                let repo = crate::text::chars_of(&parts[1]);
                if owner.len() > 0 && repo.len() > 0 {
                    return Ok(
                        GithubUrl {
                            owner: parts[0].clone(),
                            repo: parts[1].clone(),
                            branch: "HEAD".to_string(),
                            subdir: None,
                        },
                    );
                }
            }
            if parts.len() == 5 && same(&parts[2], "tree") {
                return Ok(
                    GithubUrl {
                        owner: parts[0].clone(),
                        repo: parts[1].clone(),
                        branch: parts[3].clone(),
                        subdir: Some(parts[4].clone()),
                    },
                );
            }
            Err(
                "unrecognized GitHub URL. Expected:\n  github.com/owner/repo\n  github.com/owner/repo/tree/BRANCH/subdir".to_string(),
            )
        },
    }
}

/// The tarball of a place on GitHub.
pub open spec fn tarball(p: GithubPlace) -> Seq<char> {
    "https://api.github.com/repos/"@ + p.owner + "/"@ + p.repo + "/tarball/"@ + p.branch
}

/// The tarball of a place on GitHub.
pub fn tarball_url(u: &GithubUrl) -> (r: String)
    ensures
        r@ == tarball(u@),
        r@ == "https://api.github.com/repos/"@ + u.owner@ + "/"@ + u.repo@ + "/tarball/"@
            + u.branch@,
{
    let mut s = "https://api.github.com/repos/".to_string();
    s.push_str(&u.owner);
    s.push_str("/");
    s.push_str(&u.repo);
    s.push_str("/tarball/");
    s.push_str(&u.branch);
    s
}

/// What an installation needs before it downloads anything.
#[derive(Debug)]
pub struct InstallPlan {
    pub tools_dir: String,
    pub source: GithubUrl,
    pub tarball_url: String,
}

/// Decides where a tool comes from and where it goes. `tools_dir` is where the tools
/// live, as the configuration gives it.
pub fn plan_install(url: &str, tools_dir: Result<Option<String>, String>) -> (r: Result<
    InstallPlan,
    String,
>)
    ensures
        match tools_dir {
            Err(e) => r matches Err(m) && m == e,
            Ok(None) => r matches Err(m) && m@
                == "tools_dir is not configured in livefolders.yaml. Add:\n  tools_dir: ~/.config/livefolders/tools"@,
            Ok(Some(d)) => match without_prefix(bare_url(url@), "github.com/"@) {
                None => r matches Err(m) && m@ == "URL must start with github.com/: "@ + bare_url(
                    url@,
                ),
                Some(path) => match github_place(path) {
                    None => r matches Err(m) && m@ == unrecognized(),
                    Some(place) => r matches Ok(p) && p.tools_dir == d && p.source@ == place
                        && p.tarball_url@ == tarball(place),
                },
            },
        },
        forall|owner: Seq<char>, repo: Seq<char>|
            url@ == #[trigger] ("github.com/"@ + owner + "/"@ + repo) && !owner.contains('/')
                && !repo.contains('/') && owner.len() > 0 && repo.len() > 0 ==> (
            tools_dir matches Ok(Some(d)) ==> (r matches Ok(p) && p.tools_dir == d
                && p.tarball_url@ == "https://api.github.com/repos/"@ + owner + "/"@ + repo
                + "/tarball/HEAD"@)),
        forall|owner: Seq<char>, repo: Seq<char>, branch: Seq<char>, subdir: Seq<char>|
            url@ == #[trigger] ("github.com/"@ + owner + "/"@ + repo + "/tree/"@ + branch + "/"@
                + subdir) && !owner.contains('/') && !repo.contains('/') && !branch.contains('/')
                && subdir.len() > 0 && subdir.last() != '/' ==> (tools_dir matches Ok(Some(d)) ==> (
            r matches Ok(p) && p.tools_dir == d && p.source@.subdir == Some(subdir)
                && p.tarball_url@ == "https://api.github.com/repos/"@ + owner + "/"@ + repo
                + "/tarball/"@ + branch)),
{
    proof {
        assert forall|owner: Seq<char>, repo: Seq<char>|
            url@ == #[trigger] ("github.com/"@ + owner + "/"@ + repo) && !owner.contains('/')
                && !repo.contains('/') && owner.len() > 0 && repo.len()
                > 0 implies without_prefix(bare_url(url@), "github.com/"@) is Some && github_place(
            without_prefix(bare_url(url@), "github.com/"@)->0,
        ) is Some && tarball(github_place(without_prefix(bare_url(url@), "github.com/"@)->0)->0)
            == "https://api.github.com/repos/"@ + owner + "/"@ + repo + "/tarball/HEAD"@ by {
            repositories_are_read_off_their_url(owner, repo);
        }
        assert forall|owner: Seq<char>, repo: Seq<char>, branch: Seq<char>, subdir: Seq<char>|
            url@ == #[trigger] ("github.com/"@ + owner + "/"@ + repo + "/tree/"@ + branch + "/"@
                + subdir) && !owner.contains('/') && !repo.contains('/') && !branch.contains('/')
                && subdir.len() > 0 && subdir.last() != '/' implies without_prefix(
            bare_url(url@),
            "github.com/"@,
        ) is Some && (github_place(without_prefix(bare_url(url@), "github.com/"@)->0) matches Some(
            p,
        ) && p.subdir == Some(subdir) && tarball(p) == "https://api.github.com/repos/"@ + owner
            + "/"@ + repo + "/tarball/"@ + branch) by {
            directories_are_read_off_their_url(owner, repo, branch, subdir);
        }
    }
    match tools_dir {
        Err(e) => Err(e),
        Ok(None) => Err(
            "tools_dir is not configured in livefolders.yaml. Add:\n  tools_dir: ~/.config/livefolders/tools".to_string(),
        ),
        Ok(Some(d)) => match parse_github_url(url) {
            Err(m) => Err(m),
            Ok(source) => {
                let tarball_url = tarball_url(&source);
                Ok(InstallPlan { tools_dir: d, source, tarball_url })
            },
        },
    }
}

/// Decides where a tool goes whose tarball the registry names.
pub fn plan_from_registry(
    owner: &str,
    name: &str,
    tarball_url: &str,
    tools_dir: Result<Option<String>, String>,
) -> (r: Result<InstallPlan, String>)
    ensures
        match tools_dir {
            Err(e) => r matches Err(m) && m == e,
            Ok(None) => r matches Err(m) && m@
                == "tools_dir is not configured in livefolders.yaml. Add:\n  tools_dir: ~/.config/livefolders/tools"@,
            Ok(Some(d)) => r matches Ok(p) && p.tools_dir == d && p.tarball_url@ == tarball_url@
                && p.source@ == (GithubPlace {
                owner: owner@,
                repo: name@,
                branch: "HEAD"@,
                subdir: None,
            }),
        },
{
    match tools_dir {
        Err(e) => Err(e),
        Ok(None) => Err(
            "tools_dir is not configured in livefolders.yaml. Add:\n  tools_dir: ~/.config/livefolders/tools".to_string(),
        ),
        Ok(Some(d)) => Ok(
            InstallPlan {
                tools_dir: d,
                source: GithubUrl {
                    owner: owner.to_string(),
                    repo: name.to_string(),
                    branch: "HEAD".to_string(),
                    subdir: None,
                },
                tarball_url: tarball_url.to_string(),
            },
        ),
    }
}

/// The name of an installed tool: that of its manifest, else that of its directory in
/// the repository, else that of the repository.
pub open spec fn installed_name(manifest: Option<Manifest>, place: GithubPlace) -> Seq<char> {
    match manifest {
        Some(m) => match m.name {
            Some(n) => n@,
            None => match place.subdir {
                Some(s) => s,
                None => place.repo,
            },
        },
        None => match place.subdir {
            Some(s) => s,
            None => place.repo,
        },
    }
}

/// Where an installed tool goes.
#[derive(Debug)]
pub struct Placement {
    pub tool_name: String,
    pub dest: String,
}

/// Decides the name of an installed tool and where it goes.
pub fn place_tool(plan: &InstallPlan, manifest: Option<&Manifest>) -> (r: Placement)
    ensures
        r.tool_name@ == installed_name(
            match manifest {
                None => None,
                Some(m) => Some(*m),
            },
            plan.source@,
        ),
        r.dest@ == join_text(plan.tools_dir@, r.tool_name@),
{
    let given: Option<String> = match manifest {
        None => None,
        Some(m) => m.name.clone(),
    };
    let tool_name = match given {
        Some(n) => n,
        None => match &plan.source.subdir {
            Some(s) => s.clone(),
            None => plan.source.repo.clone(),
        },
    };
    let dest = joined_text(&plan.tools_dir, &tool_name);
    Placement { tool_name, dest }
}

/// The message about a directory that a repository lacks.
pub fn missing_subdir(sub: &str) -> (r: String)
    ensures
        r@ == "subdir '"@ + sub@ + "' not found in repository"@,
{
    let mut m = "subdir '".to_string();
    m.push_str(sub);
    m.push_str("' not found in repository");
    m
}

/// The question for a variable that a tool requires and that is not there yet.
pub open spec fn secret_question(e: EnvDecl) -> Seq<char> {
    e.name@ + " ("@ + (match e.description {
        Some(d) => d@,
        None => e.name@,
    }) + "): "@
}

/// The question for a variable, where it has to be asked for: it is required, and
/// there is no such secret yet.
pub fn ask_secret(e: &EnvDecl, present: bool) -> (r: Option<String>)
    ensures
        r is Some <==> e.required && !present,
        r matches Some(q) ==> q@ == secret_question(*e),
{
    if !e.required || present {
        return None;
    }
    let mut q = e.name.clone();
    q.push_str(" (");
    match &e.description {
        Some(d) => q.push_str(d),
        None => q.push_str(&e.name),
    }
    q.push_str("): ");
    Some(q)
}

/// The value in an answer, where it holds one.
pub fn answered_value(answer: &str) -> (r: Option<String>)
    ensures
        match r {
            None => trim(answer@).len() == 0,
            Some(v) => v@ == trim(answer@) && v@.len() > 0,
        },
{
    let v = trimmed(answer);
    if crate::text::chars_of(&v).len() == 0 {
        None
    } else {
        Some(v)
    }
}

/// The question whether a tool may be overwritten.
pub fn overwrite_question(tool_name: &str) -> (r: String)
    ensures
        r@ == "Tool '"@ + tool_name@ + "' already exists. Overwrite? [y/N]: "@,
{
    let mut q = "Tool '".to_string();
    q.push_str(tool_name);
    q.push_str("' already exists. Overwrite? [y/N]: ");
    q
}

/// Whether an answer means yes.
pub fn means_yes(answer: &str) -> (r: bool)
    ensures
        r == (trim(answer@) == "y"@ || trim(answer@) == "Y"@),
{
    let a = trimmed(answer);
    same(&a, "y") || same(&a, "Y")
}

/// What is printed when a tool was installed.
pub fn installed_notice(p: &Placement) -> (r: String)
    ensures
        r@ == "Installed "@ + p.tool_name@ + " → "@ + p.dest@
            + "\nRun `livefolders mount` to start using it (or it will appear automatically if already mounted)."@,
{
    let mut s = "Installed ".to_string();
    s.push_str(&p.tool_name);
    s.push_str(" → ");
    s.push_str(&p.dest);
    s.push_str(
        "\nRun `livefolders mount` to start using it (or it will appear automatically if already mounted).",
    );
    s
}

/// What an argument of `install` names.
#[derive(Debug)]
pub enum InstallSource {
    /// A tool on GitHub.
    Github(String),
    /// A tool of the registry.
    Registry { owner: String, name: String, version: Option<String> },
}

/// The name and the version in an argument of `install`.
pub open spec fn versioned(arg: Seq<char>) -> (Seq<char>, Option<Seq<char>>) {
    match split_once(arg, "@"@) {
        Some((s, v)) => (s, Some(v)),
        None => (arg, None),
    }
}

/// Whether an argument of `install` is a URL.
pub open spec fn names_url(arg: Seq<char>) -> bool {
    crate::text::has(arg, "github.com"@) || "http"@.is_prefix_of(arg)
}

/// Reads an argument of `install`: a GitHub URL, or `owner/name` with or without
/// `@version`.
pub fn parse_install_arg(arg: &str) -> (r: Result<InstallSource, String>)
    ensures
        if names_url(arg@) {
            r matches Ok(InstallSource::Github(u)) && u@ == arg@
        } else {
            let (slug, version) = versioned(arg@);
            match split_once(slug, "/"@) {
                None => r matches Err(m) && m@
                    == "[ERROR:INVALID] expected owner/name or owner/name@version"@,
                Some((o, n)) => r matches Ok(
                    InstallSource::Registry { owner, name, version: v },
                ) && owner@ == o && name@ == n && crate::text::opt_view(v) == version,
            }
        },
{
    if crate::text::contains(arg, "github.com") || crate::text::starts_with(arg, "http") {
        return Ok(InstallSource::Github(arg.to_string()));
    }
    let (slug, version) = match crate::split::cut_once(arg, "@") {
        Some((s, v)) => (s, Some(v)),
        None => (arg.to_string(), None),
    };
    match crate::split::cut_once(&slug, "/") {
        None => Err("[ERROR:INVALID] expected owner/name or owner/name@version".to_string()),
        Some((owner, name)) => Ok(InstallSource::Registry { owner, name, version }),
    }
}

proof fn lemma_trim_end_prefix(a: Seq<char>, u: Seq<char>)
    requires
        trim_end_of(u, "/"@).len() > 0,
    ensures
        trim_end_of(a + u, "/"@) == a + trim_end_of(u, "/"@),
    decreases u.len(),
{
    reveal_strlit("/");
    let slash = "/"@;
    let w = a + u;
    if slash.is_suffix_of(u) {
        assert(w.subrange(w.len() - 1, w.len() as int) =~= slash) by {
            assert(u.subrange(u.len() - 1, u.len() as int)[0] == u.last());
        }
        assert(w.take(w.len() - 1) =~= a + u.take(u.len() - 1));
        lemma_trim_end_prefix(a, u.take(u.len() - 1));
    } else {
        assert(u.len() > 0);
        if slash.is_suffix_of(w) {
            assert(w.subrange(w.len() - 1, w.len() as int)[0] == w.last());
            assert(u.subrange(u.len() - 1, u.len() as int) =~= slash);
        }
    }
}

/// A GitHub URL means the same with and without `https://` before it, and with and
/// without a slash behind it.
pub proof fn scheme_and_slash_do_not_matter(url: Seq<char>)
    requires
        trim_end_of(url, "/"@).len() > 0,
    ensures
        bare_url("https://"@ + url) == bare_url(url),
        bare_url(url + "/"@) == bare_url(url),
{
    reveal_strlit("/");
    reveal_strlit("https://");
    let scheme = "https://"@;
    let slash = "/"@;
    lemma_trim_end_prefix(scheme, url);
    let t = trim_end_of(url, slash);
    assert(scheme.is_prefix_of(scheme + t)) by {
        assert((scheme + t).subrange(0, scheme.len() as int) =~= scheme);
    }
    assert((scheme + t).skip(scheme.len() as int) =~= t);
    let u = url + slash;
    assert(slash.is_suffix_of(u)) by {
        assert(u.subrange(u.len() - 1, u.len() as int) =~= slash);
    }
    assert(u.take(u.len() - 1) =~= url);
}

} // verus!
