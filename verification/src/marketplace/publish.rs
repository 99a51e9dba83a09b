//! Publishing a repository to the registry.
use super::REGISTRY_URL;
use crate::json::{field_str, field_u64, json_compact, json_read, parse, Json, JsonTree};
use crate::split::{trim, trim_end_of, trimmed, trimmed_end_of};
use crate::text::{same, strip_prefix, without_prefix};
use crate::tools::external::opt_str;
use vstd::prelude::*;

verus! {

/// The client id that GitHub knows this program by, where no other one is configured.
pub const DEFAULT_CLIENT_ID: &'static str = "Ov23litjBhDq65tLjGoP";

/// The repository that a remote URL names, as `owner/name`.
pub open spec fn slug_of(remote: Seq<char>) -> Option<Seq<char>> {
    let cleaned = trim_end_of(remote, ".git"@);
    match without_prefix(cleaned, "https://github.com/"@) {
        Some(p) => Some(p),
        None => without_prefix(cleaned, "git@github.com:"@),
    }
}

/// The repository that a remote URL names, as `owner/name`.
pub fn extract_slug(remote_url: &str) -> (r: Option<String>)
    ensures
        crate::text::opt_view(r) == slug_of(remote_url@),
{
    let cleaned = trimmed_end_of(remote_url, ".git");
    match strip_prefix(&cleaned, "https://github.com/") {
        Some(p) => Some(p),
        None => strip_prefix(&cleaned, "git@github.com:"),
    }
}

/// The repository to publish. An argument names it; otherwise the URL of the remote
/// `origin` does, where there is one.
pub fn repo_to_publish(arg: Option<&str>, remote: Option<&str>) -> (r: Result<String, String>)
    ensures
        match opt_str(arg) {
            Some(a) => r matches Ok(s) && s@ == (match slug_of(a) {
                Some(s) => s,
                None => a,
            }),
            None => match opt_str(remote) {
                None => r matches Err(m) && m@
                    == "[ERROR:CONFIG] no git remote 'origin' found. Add one with: git remote add origin https://github.com/owner/repo"@,
                Some(u) => match slug_of(trim(u)) {
                    Some(s) => r matches Ok(t) && t@ == s,
                    None => r matches Err(m) && m@
                        == "[ERROR:CONFIG] could not parse GitHub remote URL: "@ + trim(u)
                        + "\nExpected: https://github.com/owner/repo or git@github.com:owner/repo"@,
                },
            },
        },
{
    if let Some(a) = arg {
        return Ok(
            match extract_slug(a) {
                Some(s) => s,
                None => a.to_string(),
            },
        );
    }
    match remote {
        None => Err(
            "[ERROR:CONFIG] no git remote 'origin' found. Add one with: git remote add origin https://github.com/owner/repo".to_string(),
        ),
        Some(u) => {
            let url = trimmed(u);
            match extract_slug(&url) {
                Some(s) => Ok(s),
                None => {
                    let mut m = "[ERROR:CONFIG] could not parse GitHub remote URL: ".to_string();
                    m.push_str(&url);
                    m.push_str(
                        "\nExpected: https://github.com/owner/repo or git@github.com:owner/repo",
                    );
                    Err(m)
                },
            }
        },
    }
}

/// Where the registry takes publications.
pub fn publish_url() -> (r: String)
    ensures
        r@ == REGISTRY_URL@ + "/api/publish"@,
{
    let mut s = REGISTRY_URL.to_string();
    s.push_str("/api/publish");
    s
}

/// What the registry is told: the token of whoever publishes, and the repository.
pub open spec fn publish_tree(token: Seq<char>, repo: Seq<char>) -> JsonTree {
    JsonTree::Object(
        Map::<Seq<char>, JsonTree>::empty().insert("token"@, JsonTree::Str(token)).insert(
            "repo"@,
            JsonTree::Str(repo),
        ),
    )
}

/// The text that the registry is sent.
pub fn publish_body(token: &str, repo: &str) -> (r: String)
    ensures
        r@ == json_compact(publish_tree(token@, repo@)),
{
    Json::object().with("token", Json::text(token)).with("repo", Json::text(repo)).compact()
}

/// What follows from the answer of the registry: what is printed, or the error.
pub open spec fn published(success: bool, body: JsonTree, r: Result<String, String>) -> bool {
    if success {
        r matches Ok(m) && m@ == (match field_str(body, "url"@) {
            Some(u) => "Published! View at: "@ + u,
            None => "Published successfully."@,
        })
    } else {
        r matches Err(m) && m@ == "[ERROR:REGISTRY] "@ + (match field_str(body, "error"@) {
            Some(e) => e,
            None => "unknown error"@,
        })
    }
}

/// What follows from the answer of the registry.
pub fn publish_outcome(success: bool, body: &Json) -> (r: Result<String, String>)
    ensures
        published(success, body@, r),
{
    if success {
        match body.get_str("url") {
            Some(u) => {
                let mut m = "Published! View at: ".to_string();
                m.push_str(u);
                Ok(m)
            },
            None => Ok("Published successfully.".to_string()),
        }
    } else {
        let mut m = "[ERROR:REGISTRY] ".to_string();
        match body.get_str("error") {
            Some(e) => m.push_str(e),
            None => m.push_str("unknown error"),
        }
        Err(m)
    }
}

/// What follows from the answer of the registry, as it was sent.
pub fn publish_reply(success: bool, text: &str) -> (r: Result<String, String>)
    ensures
        match json_read(text@) {
            Ok(body) => published(success, body, r),
            Err(_) => r matches Err(m) && m@ == "invalid JSON response from registry"@,
        },
{
    match parse(text) {
        Ok(body) => publish_outcome(success, &body),
        Err(_) => Err("invalid JSON response from registry".to_string()),
    }
}

// ---------------------------------------------------------------------------
// Authorization at GitHub
// ---------------------------------------------------------------------------

/// The client id that GitHub knows this program by: the configured one, unless it is
/// empty.
pub fn client_id(configured: Option<&str>) -> (r: String)
    ensures
        r@ == (match opt_str(configured) {
            Some(c) => if c.len() > 0 {
                c
            } else {
                DEFAULT_CLIENT_ID@
            },
            None => DEFAULT_CLIENT_ID@,
        }),
{
    if let Some(c) = configured {
        if crate::text::chars_of(c).len() > 0 {
            return c.to_string();
        }
    }
    DEFAULT_CLIENT_ID.to_string()
}

/// What GitHub gives a program that asks for authorization.
#[derive(Debug)]
pub struct DeviceCode {
    pub device_code: String,
    pub user_code: String,
    pub verification_uri: String,
    pub interval_secs: u64,
    pub expires_in: u64,
}

/// Whether a device code is what GitHub answered.
pub open spec fn device_code_of(t: JsonTree, r: Result<DeviceCode, String>) -> bool {
    match (field_str(t, "device_code"@), field_str(t, "user_code"@)) {
        (None, _) => r matches Err(m) && m@ == "missing device_code"@,
        (Some(_), None) => r matches Err(m) && m@ == "missing user_code"@,
        (Some(d), Some(u)) => r matches Ok(c) && c.device_code@ == d && c.user_code@ == u
            && c.verification_uri@ == (match field_str(t, "verification_uri"@) {
            Some(v) => v,
            None => "https://github.com/login/device"@,
        }) && c.interval_secs == (match field_u64(t, "interval"@) {
            Some(n) => n,
            None => 5,
        }) && c.expires_in == (match field_u64(t, "expires_in"@) {
            Some(n) => n,
            None => 900,
        }),
    }
}

/// Reads what GitHub answered to a request for a device code.
pub fn device_code(body: &Json) -> (r: Result<DeviceCode, String>)
    ensures
        device_code_of(body@, r),
{
    let code = match body.get_str("device_code") {
        None => {
            return Err("missing device_code".to_string());
        },
        Some(c) => c,
    };
    let user = match body.get_str("user_code") {
        None => {
            return Err("missing user_code".to_string());
        },
        Some(c) => c,
    };
    let uri = match body.get_str("verification_uri") {
        None => "https://github.com/login/device",
        Some(v) => v,
    };
    let interval_secs: u64 = match body.get_u64("interval") {
        None => 5,
        Some(n) => n,
    };
    let expires_in: u64 = match body.get_u64("expires_in") {
        None => 900,
        Some(n) => n,
    };
    Ok(
        DeviceCode {
            device_code: code.to_string(),
            user_code: user.to_string(),
            verification_uri: uri.to_string(),
            interval_secs,
            expires_in,
        },
    )
}

/// Reads what GitHub answered to a request for a device code, as it was sent.
pub fn device_reply(text: &str) -> (r: Result<DeviceCode, String>)
    ensures
        match json_read(text@) {
            Ok(t) => device_code_of(t, r),
            Err(_) => r matches Err(m) && m@ == "invalid response from GitHub device endpoint"@,
        },
{
    match parse(text) {
        Ok(body) => device_code(&body),
        Err(_) => Err("invalid response from GitHub device endpoint".to_string()),
    }
}

/// What is printed for the user to authorize the program.
pub fn authorize_notice(c: &DeviceCode) -> (r: String)
    ensures
        r@ == "\nTo authorize, open this URL in your browser:\n  "@ + c.verification_uri@
            + "\n\nEnter code: "@ + c.user_code@ + "\n"@,
{
    let mut s = "\nTo authorize, open this URL in your browser:\n  ".to_string();
    s.push_str(&c.verification_uri);
    s.push_str("\n\nEnter code: ");
    s.push_str(&c.user_code);
    s.push_str("\n");
    s
}

/// What to do after GitHub was asked whether the user has authorized the program.
#[derive(Debug)]
pub enum PollStep {
    /// The user has: this is the token.
    Token(String),
    /// Ask again after the interval.
    Again,
    /// Ask again after twice the interval.
    SlowDown,
    /// Give up.
    Fail(String),
}

/// Whether a step is what follows from an answer of GitHub.
pub open spec fn follows(t: JsonTree, r: PollStep) -> bool {
    match field_str(t, "access_token"@) {
        Some(token) => r matches PollStep::Token(s) && s@ == token,
        None => match field_str(t, "error"@) {
            None => r is Again,
            Some(e) => if e == "authorization_pending"@ {
                r is Again
            } else if e == "slow_down"@ {
                r is SlowDown
            } else if e == "expired_token"@ {
                r matches PollStep::Fail(m) && m@
                    == "[ERROR:AUTH] device code expired — run `livefolders publish` again"@
            } else if e == "access_denied"@ {
                r matches PollStep::Fail(m) && m@ == "[ERROR:AUTH] access denied by user"@
            } else {
                r matches PollStep::Fail(m) && m@ == "[ERROR:AUTH] "@ + e
            },
        },
    }
}

/// What to do after GitHub was asked whether the user has authorized the program.
pub fn poll_step(body: &Json) -> (r: PollStep)
    ensures
        follows(body@, r),
{
    if let Some(token) = body.get_str("access_token") {
        return PollStep::Token(token.to_string());
    }
    match body.get_str("error") {
        None => PollStep::Again,
        Some(e) => {
            if same(e, "authorization_pending") {
                PollStep::Again
            } else if same(e, "slow_down") {
                PollStep::SlowDown
            } else if same(e, "expired_token") {
                PollStep::Fail(
                    "[ERROR:AUTH] device code expired — run `livefolders publish` again".to_string(),
                )
            } else if same(e, "access_denied") {
                PollStep::Fail("[ERROR:AUTH] access denied by user".to_string())
            } else {
                let mut m = "[ERROR:AUTH] ".to_string();
                m.push_str(e);
                PollStep::Fail(m)
            }
        },
    }
}

/// What to do after GitHub was asked whether the user has authorized the program, from
/// the answer as it was sent.
pub fn poll_reply(text: &str) -> (r: PollStep)
    ensures
        match json_read(text@) {
            Ok(t) => follows(t, r),
            Err(_) => r matches PollStep::Fail(m) && m@ == "invalid token response"@,
        },
{
    match parse(text) {
        Ok(body) => poll_step(&body),
        Err(_) => PollStep::Fail("invalid token response".to_string()),
    }
}

/// Whether GitHub may still be asked, `elapsed` seconds, rounded up, after a device code
/// was given; otherwise the error.
pub fn check_deadline(elapsed: u64, c: &DeviceCode) -> (r: Result<(), String>)
    ensures
        r is Ok <==> elapsed <= c.expires_in,
        r matches Err(m) ==> m@
            == "[ERROR:AUTH] device flow expired — run `livefolders publish` again"@,
{
    if elapsed > c.expires_in {
        Err("[ERROR:AUTH] device flow expired — run `livefolders publish` again".to_string())
    } else {
        Ok(())
    }
}

/// What an authorization waits for.
#[derive(Clone, Copy, Debug, PartialEq, Eq, Structural)]
pub enum FlowPhase {
    /// The interval to pass, before GitHub is asked.
    Waiting,
    /// An interval more to pass, before that.
    Slowed,
    /// The answer of GitHub.
    Asking,
    /// Nothing more.
    Over,
}

/// What happened.
#[derive(Debug)]
pub enum FlowEvent {
    /// So many seconds, rounded up, have passed since the device code was given.
    Waited(u64),
    /// GitHub answered.
    Reply(String),
}

/// What has to be done next.
#[derive(Debug)]
pub enum FlowAction {
    /// Nothing: what happened was not waited for.
    Nothing,
    /// Wait so many seconds.
    Wait(u64),
    /// Ask GitHub whether the user has authorized the program.
    Ask,
    /// The user has: this is the token.
    Authorized(String),
    /// Give up, and say why.
    Fail(String),
}

/// An authorization under way.
#[derive(Debug)]
pub struct DeviceFlow {
    pub code: DeviceCode,
    pub phase: FlowPhase,
}

impl DeviceFlow {
    /// Whether `after` and `a` are what follows from an answer.
    pub open spec fn heeds(&self, step: PollStep, after: DeviceFlow, a: FlowAction) -> bool {
        match step {
            PollStep::Token(t) => after.phase == FlowPhase::Over && a == FlowAction::Authorized(t),
            PollStep::Again => after.phase == FlowPhase::Waiting && a == FlowAction::Wait(
                self.code.interval_secs,
            ),
            PollStep::SlowDown => after.phase == FlowPhase::Slowed && a == FlowAction::Wait(
                self.code.interval_secs,
            ),
            PollStep::Fail(m) => after.phase == FlowPhase::Over && a == FlowAction::Fail(m),
        }
    }

    /// Whether `after` and `a` are what has to follow from an event. GitHub is asked
    /// once in every interval until the device code expires.
    pub open spec fn goes_on(&self, event: FlowEvent, after: DeviceFlow, a: FlowAction) -> bool {
        &&& after.code == self.code
        &&& match (self.phase, event) {
            (FlowPhase::Slowed, FlowEvent::Waited(_)) => after.phase == FlowPhase::Waiting && a
                == FlowAction::Wait(self.code.interval_secs),
            (FlowPhase::Waiting, FlowEvent::Waited(elapsed)) => if elapsed > self.code.expires_in {
                after.phase == FlowPhase::Over && (a matches FlowAction::Fail(m) && m@
                    == "[ERROR:AUTH] device flow expired — run `livefolders publish` again"@)
            } else {
                after.phase == FlowPhase::Asking && a is Ask
            },
            (FlowPhase::Asking, FlowEvent::Reply(text)) => match json_read(text@) {
                Ok(t) => exists|step: PollStep| #[trigger]
                    follows(t, step) && self.heeds(step, after, a),
                Err(_) => after.phase == FlowPhase::Over && (a matches FlowAction::Fail(m) && m@
                    == "invalid token response"@),
            },
            _ => after.phase == self.phase && a is Nothing,
        }
    }

    /// An authorization that begins: it waits for the interval.
    pub fn new(code: DeviceCode) -> (r: (Self, FlowAction))
        ensures
            r.0.code == code,
            r.0.phase == FlowPhase::Waiting,
            r.1 == FlowAction::Wait(code.interval_secs),
    {
        let first = FlowAction::Wait(code.interval_secs);
        (DeviceFlow { code, phase: FlowPhase::Waiting }, first)
    }

    /// Takes in what happened: what has to be done next.
    pub fn advance(&mut self, event: FlowEvent) -> (a: FlowAction)
        ensures
            old(self).goes_on(event, *final(self), a),
    {
        match (self.phase, event) {
            (FlowPhase::Slowed, FlowEvent::Waited(_)) => {
                self.phase = FlowPhase::Waiting;
                FlowAction::Wait(self.code.interval_secs)
            },
            (FlowPhase::Waiting, FlowEvent::Waited(elapsed)) => match check_deadline(
                elapsed,
                &self.code,
            ) {
                Err(m) => {
                    self.phase = FlowPhase::Over;
                    FlowAction::Fail(m)
                },
                Ok(_) => {
                    self.phase = FlowPhase::Asking;
                    FlowAction::Ask
                },
            },
            (FlowPhase::Asking, FlowEvent::Reply(text)) => {
                let step = poll_reply(&text);
                let ghost said = step;
                let a = match step {
                    PollStep::Token(t) => {
                        self.phase = FlowPhase::Over;
                        FlowAction::Authorized(t)
                    },
                    PollStep::Again => {
                        self.phase = FlowPhase::Waiting;
                        FlowAction::Wait(self.code.interval_secs)
                    },
                    PollStep::SlowDown => {
                        self.phase = FlowPhase::Slowed;
                        FlowAction::Wait(self.code.interval_secs)
                    },
                    PollStep::Fail(m) => {
                        self.phase = FlowPhase::Over;
                        FlowAction::Fail(m)
                    },
                };
                proof {
                    assert(old(self).heeds(said, *self, a));
                }
                a
            },
            _ => FlowAction::Nothing,
        }
    }
}

} // verus!
