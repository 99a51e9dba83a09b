//! What is said to the registry of tools and to GitHub, and what follows from the answers.
use crate::json::{field_str, field_u64, json_read, JsonTree};
use crate::marketplace::info::{info_text, ToolDetail};
use crate::marketplace::publish::{
    device_code_of, follows, publish_tree, published, slug_of, DeviceCode, DeviceFlow, FlowAction,
    FlowEvent, FlowPhase, PollStep,
};
use crate::marketplace::resolve::resolve_address;
use crate::marketplace::search::{result_lines, summary_line, ToolSummary};
use crate::marketplace::{hex_digit, percent_encoded, REGISTRY_URL};
use crate::number::decimal;
use crate::split::trim_end_of;
use vstd::prelude::*;

verus! {

/// The hexadecimal digits.
pub open spec fn hex_digits() -> Seq<char> {
    seq!['0', '1', '2', '3', '4', '5', '6', '7', '8', '9', 'A', 'B', 'C', 'D', 'E', 'F']
}

/// In a URL letters, digits, and the characters `-`, `_`, `.` and `~` stand for themselves;
/// every other byte is a percent sign and its two hexadecimal digits.
pub proof fn bytes_are_percent_encoded(bytes: Seq<u8>, b: u8)
    ensures
        percent_encoded(Seq::empty()) == Seq::<char>::empty(),
        percent_encoded(bytes.push(b)) == percent_encoded(bytes) + (if (48 <= b && b <= 57) || (65
            <= b && b <= 90) || (97 <= b && b <= 122) || b == 45 || b == 46 || b == 95 || b == 126 {
            seq![b as char]
        } else {
            seq!['%', hex_digits()[b as int / 16], hex_digits()[b as int % 16]]
        }),
{
    assert(bytes.push(b).drop_last() =~= bytes);
    assert(percent_encoded(Seq::<u8>::empty()) =~= Seq::<char>::empty());
    lemma_hex((b / 16) as u8);
    lemma_hex((b % 16) as u8);
}

proof fn lemma_hex(n: u8)
    requires
        n < 16,
    ensures
        hex_digit(n) == hex_digits()[n as int],
{
    let h = hex_digits();
    assert(h[0] == '0' && h[1] == '1' && h[2] == '2' && h[3] == '3' && h[4] == '4' && h[5] == '5'
        && h[6] == '6' && h[7] == '7' && h[8] == '8' && h[9] == '9' && h[10] == 'A' && h[11]
        == 'B' && h[12] == 'C' && h[13] == 'D' && h[14] == 'E' && h[15] == 'F');
    assert(n == 0 || n == 1 || n == 2 || n == 3 || n == 4 || n == 5 || n == 6 || n == 7 || n == 8
        || n == 9 || n == 10 || n == 11 || n == 12 || n == 13 || n == 14 || n == 15);
}

/// The registry is asked for a tool by its owner and name, and for a version where one is
/// wanted.
pub proof fn versions_are_asked_for(owner: Seq<char>, name: Seq<char>, version: Seq<char>)
    ensures
        resolve_address(owner, name, None) == REGISTRY_URL@ + "/api/resolve/"@ + owner + "/"@
            + name,
        resolve_address(owner, name, Some(version)) == resolve_address(owner, name, None)
            + "?version="@ + version,
{
}

/// What is printed of a tool of the registry.
pub proof fn tools_of_the_registry_are_described(
    d: ToolDetail,
    owner: Seq<char>,
    name: Seq<char>,
)
    ensures
        info_text(d, owner, name) == d.owner@ + "/"@ + d.name@ + "\n  Description: "@ + (
        if d.description is Some {
            d.description->0@
        } else {
            "—"@
        }) + "\n  Repository:  "@ + d.repo_url@ + "\n  Downloads:   "@ + decimal(d.downloads as nat)
            + "\n  Updated:     "@ + d.updated_at@ + "\n  Install:     livefolders install "@ + owner
            + "/"@ + name,
{
}

/// A search lists each tool that was found, in order, and says so where none was.
pub proof fn found_tools_are_listed(query: Seq<char>, found: Seq<ToolSummary>, i: int)
    ensures
        found.len() == 0 ==> result_lines(query, found) == seq![
            "No tools found for \""@ + query + "\"."@,
        ],
        found.len() > 0 ==> result_lines(query, found).len() == found.len(),
        0 <= i < found.len() ==> result_lines(query, found)[i] == found[i].owner@ + "/"@
            + found[i].name@ + "\t— "@ + (if found[i].description is Some {
            found[i].description->0@
        } else {
            "no description"@
        }) + "\t("@ + decimal(found[i].downloads as nat) + " installs)"@,
{
    if 0 <= i < found.len() {
        assert(result_lines(query, found)[i] == summary_line(found[i]));
    }
}

proof fn lemma_git_suffix(head: Seq<char>, slug: Seq<char>)
    requires
        trim_end_of(slug, ".git"@) == slug,
        slug.len() >= 4,
    ensures
        trim_end_of(head + slug, ".git"@) == head + slug,
        trim_end_of(head + slug + ".git"@, ".git"@) == head + slug,
{
    reveal_strlit(".git");
    let pat = ".git"@;
    let url = head + slug;
    assert(!pat.is_suffix_of(slug)) by {
        if pat.is_suffix_of(slug) {
            super::texts::suffixes_are_taken_off(slug, pat);
        }
    }
    if pat.is_suffix_of(url) {
        assert(slug.subrange(slug.len() - 4, slug.len() as int) =~= url.subrange(
            url.len() - 4,
            url.len() as int,
        ));
    }
    let more = url + pat;
    assert(more.subrange(more.len() - 4, more.len() as int) =~= pat);
    assert(more.take(more.len() - 4) =~= url);
}

/// The repository that a remote names is what comes behind the host, however the host is
/// written, and with or without `.git` behind it.
pub proof fn repositories_are_read_off_their_remote(slug: Seq<char>, remote: Seq<char>)
    requires
        trim_end_of(slug, ".git"@) == slug,
        slug.len() >= 4,
    ensures
        slug_of("https://github.com/"@ + slug) == Some(slug),
        slug_of("https://github.com/"@ + slug + ".git"@) == Some(slug),
        slug_of("git@github.com:"@ + slug) == Some(slug),
        slug_of("git@github.com:"@ + slug + ".git"@) == Some(slug),
        slug_of(remote) matches Some(s) ==> trim_end_of(remote, ".git"@) == "https://github.com/"@
            + s || trim_end_of(remote, ".git"@) == "git@github.com:"@ + s,
{
    let https = "https://github.com/"@;
    let ssh = "git@github.com:"@;
    lemma_git_suffix(https, slug);
    lemma_git_suffix(ssh, slug);
    super::texts::affixes_are_stripped(https + slug, https, slug);
    super::texts::affixes_are_stripped(ssh + slug, ssh, slug);
    assert(!https.is_prefix_of(ssh + slug)) by {
        reveal_strlit("https://github.com/");
        reveal_strlit("git@github.com:");
        if https.is_prefix_of(ssh + slug) {
            assert((ssh + slug).subrange(0, https.len() as int)[0] == (ssh + slug)[0]);
            assert(https[0] == 'h' && ssh[0] == 'g');
        }
    }
    let cleaned = trim_end_of(remote, ".git"@);
    super::texts::affixes_are_stripped(cleaned, https, slug);
    super::texts::affixes_are_stripped(cleaned, ssh, slug);
}

/// The registry is told the token of whoever publishes, and the repository.
pub proof fn publishing_tells_token_and_repository(token: Seq<char>, repo: Seq<char>)
    ensures
        field_str(publish_tree(token, repo), "token"@) == Some(token),
        field_str(publish_tree(token, repo), "repo"@) == Some(repo),
{
    reveal_strlit("token");
    reveal_strlit("repo");
    assert("token"@.len() != "repo"@.len());
}

/// What follows from the answer of the registry: where the tool can be seen, or the error
/// that the registry gave.
pub proof fn publishing_succeeds_where_the_registry_says_so(
    success: bool,
    body: JsonTree,
    r: Result<String, String>,
)
    requires
        published(success, body, r),
    ensures
        success <==> r is Ok,
        success ==> (field_str(body, "url"@) matches Some(u) ==> r->Ok_0@ == "Published! View at: "@
            + u),
        success && field_str(body, "url"@) is None ==> r->Ok_0@ == "Published successfully."@,
        !success ==> (field_str(body, "error"@) matches Some(e) ==> r->Err_0@
            == "[ERROR:REGISTRY] "@ + e),
        !success && field_str(body, "error"@) is None ==> r->Err_0@ == "[ERROR:REGISTRY] "@
            + "unknown error"@,
{
}

/// A device code is read exactly if the answer has both codes; what else is missing has its
/// usual value.
pub proof fn device_codes_are_read(t: JsonTree, r: Result<DeviceCode, String>)
    requires
        device_code_of(t, r),
    ensures
        r is Ok <==> field_str(t, "device_code"@) is Some && field_str(t, "user_code"@) is Some,
        r matches Ok(c) ==> {
            &&& field_str(t, "device_code"@) == Some(c.device_code@)
            &&& field_str(t, "user_code"@) == Some(c.user_code@)
            &&& field_str(t, "verification_uri"@) matches Some(v) ==> c.verification_uri@ == v
            &&& field_str(t, "verification_uri"@) is None ==> c.verification_uri@
                == "https://github.com/login/device"@
            &&& field_u64(t, "interval"@) matches Some(n) ==> c.interval_secs == n
            &&& field_u64(t, "interval"@) is None ==> c.interval_secs == 5
            &&& field_u64(t, "expires_in"@) matches Some(n) ==> c.expires_in == n
            &&& field_u64(t, "expires_in"@) is None ==> c.expires_in == 900
        },
        field_str(t, "device_code"@) is None ==> (r matches Err(m) && m@
            == "missing device_code"@),
        field_str(t, "device_code"@) is Some && field_str(t, "user_code"@) is None ==> (
        r matches Err(m) && m@ == "missing user_code"@),
{
}

proof fn lemma_flow_errors()
    ensures
        "authorization_pending"@.len() == 21,
        "slow_down"@.len() == 9,
        "expired_token"@.len() == 13 && "expired_token"@[0] == 'e',
        "access_denied"@.len() == 13 && "access_denied"@[0] == 'a',
{
    reveal_strlit("authorization_pending");
    reveal_strlit("slow_down");
    reveal_strlit("expired_token");
    reveal_strlit("access_denied");
}

/// What follows from an answer of GitHub to a program that waits for its user: a token ends
/// the wait, and so does every error but those that say to wait on.
pub proof fn tokens_end_the_wait(t: JsonTree, r: PollStep, e: Seq<char>)
    requires
        follows(t, r),
    ensures
        field_str(t, "access_token"@) matches Some(token) ==> (r matches PollStep::Token(s) && s@
            == token),
        field_str(t, "access_token"@) is None && field_str(t, "error"@) is None ==> r is Again,
        field_str(t, "access_token"@) is None && field_str(t, "error"@) == Some(e) ==> {
            &&& e == "authorization_pending"@ ==> r is Again
            &&& e == "slow_down"@ ==> r is SlowDown
            &&& e == "expired_token"@ ==> (r matches PollStep::Fail(m) && m@
                == "[ERROR:AUTH] device code expired — run `livefolders publish` again"@)
            &&& e == "access_denied"@ ==> (r matches PollStep::Fail(m) && m@
                == "[ERROR:AUTH] access denied by user"@)
            &&& e != "authorization_pending"@ && e != "slow_down"@ && e != "expired_token"@ && e
                != "access_denied"@ ==> (r matches PollStep::Fail(m) && m@ == "[ERROR:AUTH] "@ + e)
        },
{
    lemma_flow_errors();
}

/// GitHub is asked once in every interval, one interval later where it says to slow down,
/// and not any more once the code has expired. What it answers is heeded.
pub proof fn authorization_waits_its_turn(
    before: DeviceFlow,
    event: FlowEvent,
    after: DeviceFlow,
    a: FlowAction,
)
    requires
        before.goes_on(event, after, a),
    ensures
        after.code == before.code,
        before.phase == FlowPhase::Waiting ==> (event matches FlowEvent::Waited(elapsed) ==> {
            &&& elapsed <= before.code.expires_in ==> a is Ask && after.phase == FlowPhase::Asking
            &&& elapsed > before.code.expires_in ==> after.phase == FlowPhase::Over && (
            a matches FlowAction::Fail(m) && m@
                == "[ERROR:AUTH] device flow expired — run `livefolders publish` again"@)
        }),
        before.phase == FlowPhase::Slowed && event is Waited ==> after.phase == FlowPhase::Waiting
            && a == FlowAction::Wait(before.code.interval_secs),
        before.phase == FlowPhase::Over ==> a is Nothing && after.phase == FlowPhase::Over,
        a is Ask ==> before.phase == FlowPhase::Waiting && event is Waited,
        before.phase == FlowPhase::Asking ==> (event matches FlowEvent::Reply(text) ==> match json_read(
            text@,
        ) {
            Err(_) => after.phase == FlowPhase::Over && (a matches FlowAction::Fail(m) && m@
                == "invalid token response"@),
            Ok(t) => {
                &&& field_str(t, "access_token"@) matches Some(token) ==> after.phase
                    == FlowPhase::Over && (a matches FlowAction::Authorized(s) && s@ == token)
                &&& a is Authorized ==> field_str(t, "access_token"@) is Some
                &&& field_str(t, "access_token"@) is None && field_str(t, "error"@) == Some(
                    "slow_down"@,
                ) ==> after.phase == FlowPhase::Slowed && a == FlowAction::Wait(
                    before.code.interval_secs,
                )
                &&& field_str(t, "access_token"@) is None && (field_str(t, "error"@) is None
                    || field_str(t, "error"@) == Some("authorization_pending"@)) ==> after.phase
                    == FlowPhase::Waiting && a == FlowAction::Wait(before.code.interval_secs)
                &&& field_str(t, "access_token"@) is None && field_str(t, "error"@) == Some(
                    "access_denied"@,
                ) ==> after.phase == FlowPhase::Over && (a matches FlowAction::Fail(m) && m@
                    == "[ERROR:AUTH] access denied by user"@)
                &&& field_str(t, "access_token"@) is None && field_str(t, "error"@) is Some
                    && field_str(t, "error"@) != Some("slow_down"@) && field_str(t, "error"@)
                    != Some("authorization_pending"@) ==> after.phase == FlowPhase::Over && a is Fail
            },
        }),
{
    lemma_flow_errors();
}

} // verus!
