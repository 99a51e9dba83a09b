//! Where an installed tool comes from, and what it is called.
use super::texts::{affixes_are_stripped, a_separator_is_found};
use crate::installation::{InstallAction, InstallEvent, Installation, Phase};
use crate::installer::{
    bare_url, github_place, installed_name, names_url, secret_question, tarball, unrecognized,
    versioned, GithubPlace,
};
use crate::manifest::{EnvDecl, Manifest};
use crate::paths::join_text;
use crate::split::{split_once, splitn, trim, trim_end_of, trim_start_of};
use crate::text::without_prefix;
use vstd::prelude::*;

verus! {

proof fn lemma_bare(rest: Seq<char>)
    requires
        rest.len() > 0,
        rest.last() != '/',
    ensures
        bare_url("github.com/"@ + rest) == "github.com/"@ + rest,
        without_prefix("github.com/"@ + rest, "github.com/"@) == Some(rest),
{
    reveal_strlit("/");
    reveal_strlit("github.com/");
    reveal_strlit("https://");
    reveal_strlit("http://");
    let url = "github.com/"@ + rest;
    affixes_are_stripped(url, "github.com/"@, rest);
    assert(url.last() == rest.last());
    if "/"@.is_suffix_of(url) {
        assert(url.subrange(url.len() - 1, url.len() as int)[0] == url.last());
    }
    assert(url[0] == 'g');
    if "https://"@.is_prefix_of(url) {
        assert(url.subrange(0, 8)[0] == url[0]);
        assert("https://"@[0] == 'h');
    }
    if "http://"@.is_prefix_of(url) {
        assert(url.subrange(0, 7)[0] == url[0]);
        assert("http://"@[0] == 'h');
    }
}

/// The URL of a repository names its owner and its name, and the tarball is that of its
/// newest state: of `github.com/OWNER/REPO` it is
/// `https://api.github.com/repos/OWNER/REPO/tarball/HEAD`.
pub proof fn repositories_are_read_off_their_url(owner: Seq<char>, repo: Seq<char>)
    requires
        !owner.contains('/'),
        !repo.contains('/'),
        owner.len() > 0,
        repo.len() > 0,
    ensures
        ({
            let url = "github.com/"@ + owner + "/"@ + repo;
            let path = without_prefix(bare_url(url), "github.com/"@);
            let place = github_place(path->0);
            &&& path is Some
            &&& place is Some
            &&& place->0.owner == owner
            &&& place->0.repo == repo
            &&& place->0.branch == "HEAD"@
            &&& place->0.subdir is None
            &&& tarball(place->0) == "https://api.github.com/repos/"@ + owner + "/"@ + repo
                + "/tarball/HEAD"@
        }),
{
    reveal_strlit("/");
    reveal_strlit("HEAD");
    reveal_strlit("/tarball/");
    reveal_strlit("/tarball/HEAD");
    let slash = seq!['/'];
    assert("/"@ =~= slash);
    let rest = owner + slash + repo;
    assert(rest.last() == repo.last());
    assert("github.com/"@ + owner + "/"@ + repo =~= "github.com/"@ + rest);
    lemma_bare(rest);
    a_separator_is_found(owner, '/', repo);
    assert(splitn(repo, '/', 4) =~= seq![repo]);
    assert(splitn(rest, '/', 5) =~= seq![owner, repo]);
    let parts = splitn(rest, '/', 5);
    assert(parts[0] == owner && parts[1] == repo);
    assert("/tarball/HEAD"@ =~= "/tarball/"@ + "HEAD"@);
    let place = github_place(rest)->0;
    assert(tarball(place) =~= "https://api.github.com/repos/"@ + owner + "/"@ + repo
        + "/tarball/HEAD"@);
}

/// The URL of a directory in a repository names the owner, the repository, the branch and
/// the directory; the tarball is that of the branch, whatever the directory.
pub proof fn directories_are_read_off_their_url(
    owner: Seq<char>,
    repo: Seq<char>,
    branch: Seq<char>,
    subdir: Seq<char>,
)
    requires
        !owner.contains('/'),
        !repo.contains('/'),
        !branch.contains('/'),
        subdir.len() > 0,
        subdir.last() != '/',
    ensures
        ({
            let url = "github.com/"@ + owner + "/"@ + repo + "/tree/"@ + branch + "/"@ + subdir;
            let path = without_prefix(bare_url(url), "github.com/"@);
            let place = github_place(path->0);
            &&& path is Some
            &&& place is Some
            &&& place->0.owner == owner
            &&& place->0.repo == repo
            &&& place->0.branch == branch
            &&& place->0.subdir == Some(subdir)
            &&& tarball(place->0) == "https://api.github.com/repos/"@ + owner + "/"@ + repo
                + "/tarball/"@ + branch
        }),
{
    reveal_strlit("/");
    reveal_strlit("tree");
    reveal_strlit("/tree/");
    let slash = seq!['/'];
    assert("/"@ =~= slash);
    assert("/tree/"@ =~= slash + "tree"@ + slash);
    let d = branch + slash + subdir;
    let c = "tree"@ + slash + d;
    let b = repo + slash + c;
    let a = owner + slash + b;
    assert(a.last() == subdir.last());
    assert("github.com/"@ + owner + "/"@ + repo + "/tree/"@ + branch + "/"@ + subdir
        =~= "github.com/"@ + a);
    lemma_bare(a);
    assert(!"tree"@.contains('/'));
    a_separator_is_found(owner, '/', b);
    a_separator_is_found(repo, '/', c);
    a_separator_is_found("tree"@, '/', d);
    a_separator_is_found(branch, '/', subdir);
    assert(splitn(subdir, '/', 1) =~= seq![subdir]);
    assert(splitn(d, '/', 2) =~= seq![branch, subdir]);
    assert(splitn(c, '/', 3) =~= seq!["tree"@, branch, subdir]);
    assert(splitn(b, '/', 4) =~= seq![repo, "tree"@, branch, subdir]);
    let parts = splitn(a, '/', 5);
    assert(parts =~= seq![owner, repo, "tree"@, branch, subdir]);
    assert(parts[0] == owner && parts[1] == repo && parts[2] == "tree"@ && parts[3] == branch
        && parts[4] == subdir);
}

/// The tarball depends on the owner, the repository and the branch alone, and on all of
/// them: two places have one tarball where these agree, whatever their directories, and for
/// a slash-free owner, repository and branch only there.
pub proof fn tarballs_do_not_depend_on_the_directory(p: GithubPlace, q: GithubPlace)
    requires
        !p.owner.contains('/'),
        !q.owner.contains('/'),
        !p.repo.contains('/'),
        !q.repo.contains('/'),
    ensures
        tarball(p) == tarball(q) <==> p.owner == q.owner && p.repo == q.repo && p.branch
            == q.branch,
{
    reveal_strlit("/");
    reveal_strlit("/tarball/");
    let slash = seq!['/'];
    assert("/"@ =~= slash);
    let head = "https://api.github.com/repos/"@;
    let mark = "tarball/"@;
    reveal_strlit("tarball/");
    assert("/tarball/"@ =~= slash + mark);
    let a = p.repo + slash + (mark + p.branch);
    let b = q.repo + slash + (mark + q.branch);
    assert(tarball(p) =~= head + (p.owner + slash + a));
    assert(tarball(q) =~= head + (q.owner + slash + b));
    if tarball(p) == tarball(q) {
        let s = p.owner + slash + a;
        let t = q.owner + slash + b;
        assert(s =~= tarball(p).skip(head.len() as int));
        assert(t =~= tarball(q).skip(head.len() as int));
        a_separator_is_found(p.owner, '/', a);
        a_separator_is_found(q.owner, '/', b);
        assert(p.owner == q.owner && a == b);
        a_separator_is_found(p.repo, '/', mark + p.branch);
        a_separator_is_found(q.repo, '/', mark + q.branch);
        assert(mark + p.branch == mark + q.branch);
        assert(p.branch =~= (mark + p.branch).skip(mark.len() as int));
        assert(q.branch =~= (mark + q.branch).skip(mark.len() as int));
    }
}

/// What the path of a URL says is in the path: the owner, the repository and whatever else
/// it names, with slashes between them, are the path again. Paths of other forms, and those
/// with an empty owner or repository and nothing else, say nothing.
pub proof fn places_are_written_in_their_path(path: Seq<char>)
    ensures
        match github_place(path) {
            Some(p) => match p.subdir {
                None => path == p.owner + "/"@ + p.repo && p.branch == "HEAD"@ && p.owner.len() > 0
                    && p.repo.len() > 0 && !p.owner.contains('/') && !p.repo.contains('/'),
                Some(d) => path == p.owner + "/"@ + p.repo + "/tree/"@ + p.branch + "/"@ + d
                    && !p.owner.contains('/') && !p.repo.contains('/') && !p.branch.contains('/'),
            },
            None => forall|owner: Seq<char>, repo: Seq<char>|
                path == #[trigger] (owner + "/"@ + repo) && !owner.contains('/') && !repo.contains(
                    '/',
                ) ==> owner.len() == 0 || repo.len() == 0,
        },
{
    reveal_strlit("/");
    reveal_strlit("/tree/");
    reveal_strlit("tree");
    let slash = seq!['/'];
    assert("/"@ =~= slash);
    assert("/tree/"@ =~= slash + "tree"@ + slash);
    let parts = splitn(path, '/', 5);
    super::texts::cutting_undoes_joining(path, '/', 5);
    match github_place(path) {
        Some(p) => {
            if p.subdir is None {
                assert(parts =~= seq![p.owner] + seq![p.repo]);
                super::texts::joining_puts_separators_between(
                    seq![p.owner],
                    seq![p.repo],
                    p.owner,
                    slash,
                );
                super::texts::joining_puts_separators_between(
                    seq![p.owner],
                    seq![p.repo],
                    p.repo,
                    slash,
                );
                assert(parts[0] == p.owner && parts[1] == p.repo);
                assert(parts.last() == p.repo);
            } else {
                let d = p.subdir->0;
                let s1 = seq![d];
                let s2 = seq![p.branch] + s1;
                let s3 = seq!["tree"@] + s2;
                let s4 = seq![p.repo] + s3;
                assert(parts =~= seq![p.owner] + s4);
                super::texts::joining_puts_separators_between(seq![p.owner], s4, p.owner, slash);
                super::texts::joining_puts_separators_between(seq![p.repo], s3, p.repo, slash);
                super::texts::joining_puts_separators_between(seq!["tree"@], s2, "tree"@, slash);
                super::texts::joining_puts_separators_between(seq![p.branch], s1, p.branch, slash);
                super::texts::joining_puts_separators_between(seq![p.branch], s1, d, slash);
                assert(parts[0] == p.owner && parts[1] == p.repo && parts[3] == p.branch);
                assert(path =~= p.owner + "/"@ + p.repo + "/tree/"@ + p.branch + "/"@ + d);
            }
        },
        None => {
            assert forall|owner: Seq<char>, repo: Seq<char>|
                path == #[trigger] (owner + "/"@ + repo) && !owner.contains('/') && !repo.contains(
                    '/',
                ) implies owner.len() == 0 || repo.len() == 0 by {
                if owner.len() > 0 && repo.len() > 0 {
                    assert(path =~= owner + slash + repo);
                    a_separator_is_found(owner, '/', repo);
                    assert(splitn(repo, '/', 4) =~= seq![repo]);
                    assert(parts =~= seq![owner, repo]);
                    assert(parts[0] == owner && parts[1] == repo);
                }
            }
        },
    }
}

/// The message about a URL that says nothing names the two forms that are read.
pub proof fn the_expected_forms_are_named()
    ensures
        unrecognized()
            == "unrecognized GitHub URL. Expected:\n  github.com/owner/repo\n  github.com/owner/repo/tree/BRANCH/subdir"@,
{
}

/// A scheme before a URL and slashes behind it do not matter: what is read is the URL
/// without them.
pub proof fn a_scheme_is_taken_off(url: Seq<char>)
    ensures
        exists|n: nat|
            url == #[trigger] (trim_end_of(url, "/"@) + super::texts::repeated("/"@, n)),
        exists|k: nat, l: nat|
            trim_end_of(url, "/"@) == #[trigger] (super::texts::repeated("https://"@, k)
                + super::texts::repeated("http://"@, l) + bare_url(url)),
        !"http://"@.is_prefix_of(bare_url(url)),
{
    reveal_strlit("/");
    reveal_strlit("https://");
    reveal_strlit("http://");
    super::texts::suffixes_are_taken_off(url, "/"@);
    let n = choose|n: nat|
        url == trim_end_of(url, "/"@) + #[trigger] super::texts::repeated("/"@, n);
    assert(url == trim_end_of(url, "/"@) + super::texts::repeated("/"@, n));
    let t = trim_end_of(url, "/"@);
    let u = trim_start_of(t, "https://"@);
    super::texts::prefixes_are_taken_off(t, "https://"@);
    super::texts::prefixes_are_taken_off(u, "http://"@);
    let k = choose|k: nat| t == #[trigger] super::texts::repeated("https://"@, k) + u;
    let l = choose|l: nat| u == #[trigger] super::texts::repeated("http://"@, l) + bare_url(url);
    assert(t =~= super::texts::repeated("https://"@, k) + super::texts::repeated("http://"@, l)
        + bare_url(url));
}

/// A tool is installed under the name that its manifest gives; without one under that of its
/// directory, and without that under that of its repository.
pub proof fn tools_are_named_by_their_manifest(m: Manifest, p: GithubPlace)
    ensures
        m.name is Some ==> installed_name(Some(m), p) == m.name->0@,
        m.name is None ==> installed_name(Some(m), p) == installed_name(None, p),
        p.subdir is Some ==> installed_name(None, p) == p.subdir->0,
        p.subdir is None ==> installed_name(None, p) == p.repo,
{
}

/// The question for a secret has its name and its description, or its name twice where it
/// has none.
pub proof fn secrets_are_asked_for_by_name(e: EnvDecl)
    ensures
        e.description is Some ==> secret_question(e) == e.name@ + " ("@ + e.description->0@
            + "): "@,
        e.description is None ==> secret_question(e) == e.name@ + " ("@ + e.name@ + "): "@,
{
}

/// What is installed is named `OWNER/NAME` or `OWNER/NAME@VERSION`; what begins with `http`
/// or names `github.com` anywhere is a URL.
pub proof fn arguments_of_install_are_read(
    owner: Seq<char>,
    name: Seq<char>,
    version: Seq<char>,
    a: Seq<char>,
    b: Seq<char>,
)
    requires
        !owner.contains('/') && !owner.contains('@'),
        !name.contains('@'),
    ensures
        versioned(owner + "/"@ + name + "@"@ + version) == (owner + "/"@ + name, Some(version)),
        versioned(owner + "/"@ + name) == (owner + "/"@ + name, None::<Seq<char>>),
        split_once(owner + "/"@ + name, "/"@) == Some((owner, name)),
        names_url(a + "github.com"@ + b),
        names_url("http"@ + b),
        names_url(a) ==> "http"@.is_prefix_of(a) || exists|x: Seq<char>, y: Seq<char>|
            a == #[trigger] (x + "github.com"@ + y),
{
    reveal_strlit("/");
    reveal_strlit("@");
    assert("/"@ =~= seq!['/']);
    assert("@"@ =~= seq!['@']);
    let slug = owner + "/"@ + name;
    assert(!slug.contains('@')) by {
        if slug.contains('@') {
            let k = slug.index_of('@');
            assert(slug[k] == '@');
            if k < owner.len() {
                assert(owner[k] == '@');
            } else if k > owner.len() {
                assert(name[k - owner.len() - 1] == '@');
            }
        }
    }
    a_separator_is_found(slug, '@', version);
    a_separator_is_found(owner, '/', name);
    super::texts::parts_are_found(a, "github.com"@, b);
    if crate::text::has(a, "github.com"@) {
        super::texts::found_parts_are_there(a, "github.com"@);
    }
    let h = "http"@ + b;
    assert(h.subrange(0, "http"@.len() as int) =~= "http"@);
}

// ---------------------------------------------------------------------------
// The steps of an installation
// ---------------------------------------------------------------------------

/// The variables that a tool declares.
pub open spec fn variables(m: Option<Manifest>) -> Seq<EnvDecl> {
    if m is Some {
        m->0.env@
    } else {
        Seq::empty()
    }
}

/// What comes next once the variables before the `i`th are settled: the first required one
/// from there on is looked for, and where none is left, the place where the tool goes.
pub open spec fn goes_on_from(after: Installation, i: int, a: InstallAction) -> bool {
    let env = variables(after.manifest);
    &&& forall|j: int|
        i <= j < env.len() && (#[trigger] env[j]).required && (forall|k: int|
            i <= k < j ==> !(#[trigger] env[k]).required) ==> after.phase == Phase::Looking(
            j as usize,
        ) && (a matches InstallAction::LookForSecret(n) && n@ == env[j].name@)
    &&& (forall|k: int| i <= k < env.len() ==> !(#[trigger] env[k]).required) ==> after.phase
        == Phase::Placing && (a matches InstallAction::LookAt(d) && d@ == join_text(
        after.plan.tools_dir@,
        installed_name(after.manifest, after.plan.source@),
    ))
}

proof fn lemma_goes_on(after: Installation, i: int, a: InstallAction)
    requires
        0 <= i <= variables(after.manifest).len(),
        after.looks_from(i, a),
    ensures
        goes_on_from(after, i, a),
{
    let env = variables(after.manifest);
    assert(env =~= crate::installation::declared_env(after.manifest));
    let n = crate::installation::next_required(env, i);
    crate::installation::no_required_secret_is_passed_over(env, i);
    assert forall|j: int|
        i <= j < env.len() && (#[trigger] env[j]).required && (forall|k: int|
            i <= k < j ==> !(#[trigger] env[k]).required) implies after.phase == Phase::Looking(
        j as usize,
    ) && (a matches InstallAction::LookForSecret(n) && n@ == env[j].name@) by {
        if n < j {
            assert(env[n].required);
        }
        assert(n == j);
    }
    if forall|k: int| i <= k < env.len() ==> !(#[trigger] env[k]).required {
        if n < env.len() {
            assert(!env[n].required);
        }
    }
}

/// The steps of an installation: what was unpacked is checked, the manifest is read, every
/// required secret that is not there is asked for and stored, and the tool is copied to its
/// place. A failure ends it, and so does an owner who wants to keep what is there.
pub proof fn installations_go_step_by_step(
    before: Installation,
    event: InstallEvent,
    after: Installation,
    a: InstallAction,
)
    requires
        before.wf(),
        before.follows(event, after, a),
    ensures
        after.plan == before.plan,
        before.phase == Phase::Over ==> a is Nothing && after.phase == Phase::Over,
        before.phase != Phase::Over ==> (event matches InstallEvent::Failed(m) ==> (
        a matches InstallAction::Fail(t) && t@ == m@) && after.phase == Phase::Over),
        before.phase == Phase::Download ==> (event matches InstallEvent::Unpacked {
            top_level,
            found,
        } ==> {
            let subdir = before.plan.source.subdir;
            &&& top_level && (subdir is None || found) ==> a is ReadManifest && after.phase
                == Phase::Manifest
            &&& !top_level ==> (a matches InstallAction::Fail(t) && t@
                == "unexpected tarball structure: no top-level directory"@)
            &&& top_level && subdir is Some && !found ==> (a matches InstallAction::Fail(t) && t@
                == "subdir '"@ + subdir->0@ + "' not found in repository"@)
        }),
        before.phase == Phase::Manifest ==> (event matches InstallEvent::Manifest(m)
            ==> after.manifest == m && goes_on_from(after, 0, a)),
        before.phase matches Phase::Looking(i) ==> {
            let e = variables(before.manifest)[i as int];
            &&& event == InstallEvent::Seen(true) ==> goes_on_from(after, i + 1, a)
            &&& event == InstallEvent::Seen(false) ==> after.phase == Phase::Answering(i) && (
            a matches InstallAction::Ask(q) && q@ == e.name@ + " ("@ + (if e.description is Some {
                e.description->0@
            } else {
                e.name@
            }) + "): "@)
        },
        before.phase matches Phase::Answering(i) ==> (event matches InstallEvent::Answer(t) ==> {
            &&& super::texts::blank(t@) ==> goes_on_from(after, i + 1, a)
            &&& !super::texts::blank(t@) ==> after.phase == Phase::Storing(i) && (
            a matches InstallAction::StoreSecret { name, value } && name@ == variables(
                before.manifest,
            )[i as int].name@ && value@ == trim(t@))
        }),
        before.phase matches Phase::Storing(i) ==> (event is Done ==> goes_on_from(
            after,
            i + 1,
            a,
        )),
{
    assert(variables(before.manifest) =~= crate::installation::declared_env(before.manifest));
    if let InstallEvent::Answer(t) = event {
        super::texts::trimming_takes_white_space_only(t@);
    }
    if before.phase == Phase::Manifest && event is Manifest {
        lemma_goes_on(after, 0, a);
    }
    if let Phase::Looking(i) = before.phase {
        if event == InstallEvent::Seen(true) {
            lemma_goes_on(after, i + 1, a);
        }
    }
    if let Phase::Answering(i) = before.phase {
        if let InstallEvent::Answer(t) = event {
            if super::texts::blank(t@) {
                lemma_goes_on(after, i + 1, a);
            }
        }
    }
    if let Phase::Storing(i) = before.phase {
        if event is Done {
            lemma_goes_on(after, i + 1, a);
        }
    }
}

/// The end of an installation: the place where the tool goes is asked for where it is taken,
/// cleared where the owner says yes, and then filled.
pub proof fn tools_are_put_in_their_place(
    before: Installation,
    event: InstallEvent,
    after: Installation,
    a: InstallAction,
    name: Seq<char>,
    dest: Seq<char>,
)
    requires
        before.follows(event, after, a),
        name == installed_name(before.manifest, before.plan.source@),
        dest == join_text(before.plan.tools_dir@, name),
    ensures
        before.phase == Phase::Placing && event == InstallEvent::Seen(true) ==> after.phase
            == Phase::Confirming && (a matches InstallAction::Ask(q) && q@ == "Tool '"@ + name
            + "' already exists. Overwrite? [y/N]: "@),
        before.phase == Phase::Placing && event == InstallEvent::Seen(false) ==> after.phase
            == Phase::Copying && (a matches InstallAction::Copy(d) && d@ == dest),
        before.phase == Phase::Confirming ==> (event matches InstallEvent::Answer(t) ==> if trim(t@)
            == "y"@ || trim(t@) == "Y"@ {
            after.phase == Phase::Removing && (a matches InstallAction::Remove(d) && d@ == dest)
        } else {
            after.phase == Phase::Over && (a matches InstallAction::Finish(m) && m@ == "Aborted."@)
        }),
        before.phase == Phase::Removing && event is Done ==> after.phase == Phase::Copying && (
        a matches InstallAction::Copy(d) && d@ == dest),
        before.phase == Phase::Copying && event is Done ==> after.phase == Phase::Over && (
        a matches InstallAction::Finish(m) && m@ == "Installed "@ + name + " → "@ + dest
            + "\nRun `livefolders mount` to start using it (or it will appear automatically if already mounted)."@),
{
}

} // verus!
