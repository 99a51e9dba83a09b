use livefolders::installation::{InstallAction, InstallEvent, Installation};
use livefolders::installer::{
    answered_value, ask_secret, installed_notice, means_yes, missing_subdir, overwrite_question,
    parse_github_url, parse_install_arg, place_tool, plan_from_registry,
    plan_install, tarball_url, InstallSource,
    Placement,
};
use livefolders::manifest::{EnvDecl, Manifest};
use livefolders::marketplace::info::{describe, info_url, parse_package, ToolDetail};
use livefolders::marketplace::publish::{
    authorize_notice, check_deadline, client_id, device_reply, extract_slug, poll_reply,
    publish_body, publish_reply, publish_url, repo_to_publish, DeviceFlow, FlowAction, FlowEvent,
    PollStep, DEFAULT_CLIENT_ID,
};
use livefolders::marketplace::resolve::{downloads_url, resolve_url, resolved_notice, ResolveResponse};
use livefolders::marketplace::search::{describe_results, search_url, ToolSummary};
use livefolders::marketplace::REGISTRY_URL;

#[test]
fn parse_owner_repo() {
    let u = parse_github_url("github.com/alice/mytool").unwrap();
    assert_eq!(u.owner, "alice");
    assert_eq!(u.repo, "mytool");
    assert_eq!(u.branch, "HEAD");
    assert!(u.subdir.is_none());
}

#[test]
fn parse_with_https_prefix() {
    let u = parse_github_url("https://github.com/alice/mytool").unwrap();
    assert_eq!(u.owner, "alice");
    assert_eq!(u.repo, "mytool");
}

#[test]
fn parse_with_subdir() {
    let u = parse_github_url("github.com/alice/tools/tree/main/summarizer").unwrap();
    assert_eq!(u.owner, "alice");
    assert_eq!(u.repo, "tools");
    assert_eq!(u.branch, "main");
    assert_eq!(u.subdir.as_deref(), Some("summarizer"));
}

#[test]
fn parse_invalid_url_errors() {
    assert!(parse_github_url("notgithub.com/x").is_err());
    assert!(parse_github_url("github.com/onlyone").is_err());
}

#[test]
fn parse_trailing_slash() {
    let u = parse_github_url("github.com/alice/mytool/").unwrap();
    assert_eq!(u.owner, "alice");
    assert_eq!(u.repo, "mytool");
}

#[test]
fn parse_more_urls() {
    let u = parse_github_url("https://https://http://github.com/a/b/tree/v1/x/y//").unwrap();
    assert_eq!((u.branch.as_str(), u.subdir.as_deref()), ("v1", Some("x/y")));
    assert_eq!(
        parse_github_url("https://gitlab.com/a/b").unwrap_err(),
        "URL must start with github.com/: gitlab.com/a/b"
    );
    for bad in ["github.com/a", "github.com//b", "github.com/a/b/blob/main/x", "github.com/a/b/c"] {
        assert!(parse_github_url(bad).unwrap_err().starts_with("unrecognized GitHub URL"), "{}", bad);
    }
}

#[test]
fn installation_is_planned() {
    let dir = Ok(Some("/t".to_string()));
    let plan = plan_install("github.com/alice/tools/tree/main/sum", dir).unwrap();
    assert_eq!(plan.tarball_url, "https://api.github.com/repos/alice/tools/tarball/main");
    assert_eq!(tarball_url(&plan.source), plan.tarball_url);
    let p = place_tool(&plan, None);
    assert_eq!((p.tool_name.as_str(), p.dest.as_str()), ("sum", "/t/sum"));
    let named = Manifest { name: Some("nice".to_string()), ..Default::default() };
    assert_eq!(place_tool(&plan, Some(&named)).dest, "/t/nice");
    let whole = plan_install("github.com/alice/tools", Ok(Some("/t".to_string()))).unwrap();
    assert_eq!(place_tool(&whole, Some(&Manifest::default())).tool_name, "tools");
    assert!(plan_install("github.com/a/b", Ok(None)).unwrap_err().contains("tools_dir is not configured"));
    assert_eq!(plan_install("github.com/a/b", Err("e".to_string())).unwrap_err(), "e");
    assert!(plan_install("x", Ok(Some("/t".to_string()))).is_err());
    assert_eq!(missing_subdir("x"), "subdir 'x' not found in repository");
}

#[test]
fn questions_of_an_installation() {
    let mut e = EnvDecl {
        name: "KEY".to_string(),
        description: Some("API key".to_string()),
        required: true,
        default: None,
    };
    assert_eq!(ask_secret(&e, false), Some("KEY (API key): ".to_string()));
    assert_eq!(ask_secret(&e, true), None);
    e.description = None;
    assert_eq!(ask_secret(&e, false), Some("KEY (KEY): ".to_string()));
    e.required = false;
    assert_eq!(ask_secret(&e, false), None);
    assert_eq!(answered_value(" v \n"), Some("v".to_string()));
    assert_eq!(answered_value(" \n"), None);
    assert_eq!(overwrite_question("t"), "Tool 't' already exists. Overwrite? [y/N]: ");
    for (answer, yes) in [("y\n", true), (" Y ", true), ("yes", false), ("", false), ("n", false)] {
        assert_eq!(means_yes(answer), yes);
    }
    let p = Placement { tool_name: "t".to_string(), dest: "/d/t".to_string() };
    assert!(installed_notice(&p).starts_with("Installed t → /d/t\nRun `livefolders mount`"));
}

#[test]
fn install_arguments_are_told_apart() {
    match parse_install_arg("alice/weather@v1.2.0").unwrap() {
        InstallSource::Registry { owner, name, version } => {
            assert_eq!((owner.as_str(), name.as_str()), ("alice", "weather"));
            assert_eq!(version.as_deref(), Some("v1.2.0"));
        }
        s => panic!("got {:?}", s),
    }
    match parse_install_arg("alice/weather").unwrap() {
        InstallSource::Registry { version, .. } => assert!(version.is_none()),
        s => panic!("got {:?}", s),
    }
    for url in ["github.com/a/b", "http://x", "https://github.com/a/b"] {
        assert!(matches!(parse_install_arg(url).unwrap(), InstallSource::Github(u) if u == url));
    }
    assert_eq!(
        parse_install_arg("weather").unwrap_err(),
        "[ERROR:INVALID] expected owner/name or owner/name@version"
    );
}

#[test]
fn info_url_is_correct() {
    let url = info_url("alice", "weather");
    assert_eq!(url, format!("{}/api/tools/alice/weather", REGISTRY_URL));
    assert!(url.ends_with("/api/tools/alice/weather"));
}

#[test]
fn info_is_described() {
    let d = ToolDetail {
        owner: "alice".to_string(),
        name: "weather".to_string(),
        description: None,
        repo_url: "https://github.com/alice/weather".to_string(),
        downloads: 120,
        updated_at: "today".to_string(),
    };
    assert_eq!(
        describe(&d, "alice", "weather"),
        "alice/weather\n  Description: —\n  Repository:  https://github.com/alice/weather\n  Downloads:   120\n  Updated:     today\n  Install:     livefolders install alice/weather"
    );
    assert_eq!(parse_package("a/b/c"), Ok(("a".to_string(), "b/c".to_string())));
    assert_eq!(parse_package("ab"), Err("[ERROR:INVALID] expected owner/name".to_string()));
}

#[test]
fn resolve_url_with_version() {
    let base = format!("{}/api/resolve/alice/weather", REGISTRY_URL);
    let url = resolve_url("alice", "weather", Some("v1.0.0"));
    assert_eq!(url, format!("{}?version=v1.0.0", base));
    assert!(url.contains("v1.0.0"));
    assert!(url.contains("alice/weather"));
}

#[test]
fn resolve_url_without_version() {
    let base = resolve_url("alice", "weather", None);
    assert_eq!(base, format!("{}/api/resolve/alice/weather", REGISTRY_URL));
    assert!(!base.contains("version"));
    assert_eq!(
        downloads_url("alice", "weather"),
        format!("{}/api/tools/alice/weather/downloads", REGISTRY_URL)
    );
    let r = ResolveResponse {
        owner: "alice".to_string(),
        name: "weather".to_string(),
        version: "v2".to_string(),
        tarball_url: "t".to_string(),
    };
    assert_eq!(resolved_notice("alice", "weather", &r), "Resolved alice/weather@v2");
}

#[test]
fn search_url_contains_query() {
    let url = search_url("hello world");
    assert!(url.contains("hello%20world"));
    assert_eq!(url, format!("{}/api/search?q={}", REGISTRY_URL, "hello%20world"));
}

#[test]
fn search_urls_are_encoded() {
    let head = format!("{}/api/search?q=", REGISTRY_URL);
    assert_eq!(search_url("aZ09-._~"), format!("{}aZ09-._~", head));
    assert_eq!(search_url("é/&+%"), format!("{}%C3%A9%2F%26%2B%25", head));
    assert_eq!(search_url(""), head);
}

#[test]
fn search_results_are_described() {
    assert_eq!(describe_results("x", &vec![]), vec!["No tools found for \"x\".".to_string()]);
    let found = vec![
        ToolSummary {
            owner: "a".to_string(),
            name: "b".to_string(),
            description: Some("d".to_string()),
            downloads: 3,
        },
        ToolSummary {
            owner: "c".to_string(),
            name: "d".to_string(),
            description: None,
            downloads: 0,
        },
    ];
    assert_eq!(
        describe_results("x", &found),
        vec!["a/b\t— d\t(3 installs)".to_string(), "c/d\t— no description\t(0 installs)".to_string()]
    );
}

#[test]
fn extracts_https_slug() {
    assert_eq!(
        extract_slug("https://github.com/alice/weather.git"),
        Some("alice/weather".to_string())
    );
}

#[test]
fn extracts_ssh_slug() {
    assert_eq!(
        extract_slug("git@github.com:alice/weather.git"),
        Some("alice/weather".to_string())
    );
}

#[test]
fn returns_none_for_non_github() {
    assert_eq!(extract_slug("https://gitlab.com/alice/weather.git"), None);
}

#[test]
fn extracts_without_git_suffix() {
    assert_eq!(
        extract_slug("https://github.com/alice/weather"),
        Some("alice/weather".to_string())
    );
}

#[test]
fn repository_to_publish_is_found() {
    assert_eq!(
        repo_to_publish(None, Some("git@github.com:a/b.git\n")),
        Ok("a/b".to_string())
    );
    assert_eq!(repo_to_publish(Some("a/b"), None), Ok("a/b".to_string()));
    assert_eq!(repo_to_publish(Some("https://github.com/a/b"), None), Ok("a/b".to_string()));
    assert!(repo_to_publish(None, None).unwrap_err().starts_with("[ERROR:CONFIG] no git remote"));
    assert!(repo_to_publish(None, Some("https://x/a")).unwrap_err().contains("https://x/a\nExpected"));
}

#[test]
fn publications_are_sent_and_answered() {
    assert_eq!(publish_url(), format!("{}/api/publish", REGISTRY_URL));
    assert_eq!(publish_body("tok", "a/b"), "{\"repo\":\"a/b\",\"token\":\"tok\"}");
    assert_eq!(
        publish_reply(true, "{\"url\":\"https://r/x\"}"),
        Ok("Published! View at: https://r/x".to_string())
    );
    assert_eq!(publish_reply(true, "{}"), Ok("Published successfully.".to_string()));
    assert_eq!(
        publish_reply(false, "{\"error\":\"bad\"}"),
        Err("[ERROR:REGISTRY] bad".to_string())
    );
    assert_eq!(publish_reply(false, "[]"), Err("[ERROR:REGISTRY] unknown error".to_string()));
    assert_eq!(publish_reply(true, "oops"), Err("invalid JSON response from registry".to_string()));
}

#[test]
fn device_codes_are_read() {
    let c = device_reply("{\"device_code\":\"d\",\"user_code\":\"U-1\"}").unwrap();
    assert_eq!(c.verification_uri, "https://github.com/login/device");
    assert_eq!((c.interval_secs, c.expires_in), (5, 900));
    let c = device_reply(
        "{\"device_code\":\"d\",\"user_code\":\"U-1\",\"verification_uri\":\"u\",\"interval\":7,\"expires_in\":60}",
    )
    .unwrap();
    assert_eq!((c.device_code.as_str(), c.interval_secs, c.expires_in), ("d", 7, 60));
    assert_eq!(
        authorize_notice(&c),
        "\nTo authorize, open this URL in your browser:\n  u\n\nEnter code: U-1\n"
    );
    assert!(check_deadline(60, &c).is_ok());
    assert!(check_deadline(61, &c).unwrap_err().contains("device flow expired"));
    assert_eq!(device_reply("{}").unwrap_err(), "missing device_code");
    assert_eq!(device_reply("{\"device_code\":\"d\"}").unwrap_err(), "missing user_code");
    assert_eq!(device_reply("x").unwrap_err(), "invalid response from GitHub device endpoint");
    assert_eq!(client_id(None), DEFAULT_CLIENT_ID);
    assert_eq!(client_id(Some("")), DEFAULT_CLIENT_ID);
    assert_eq!(client_id(Some("mine")), "mine");
}

#[test]
fn polling_goes_on_until_it_is_decided() {
    assert!(matches!(poll_reply("{\"access_token\":\"t\"}"), PollStep::Token(t) if t == "t"));
    assert!(matches!(poll_reply("{\"error\":\"authorization_pending\"}"), PollStep::Again));
    assert!(matches!(poll_reply("{}"), PollStep::Again));
    assert!(matches!(poll_reply("{\"error\":\"slow_down\"}"), PollStep::SlowDown));
    for (error, message) in [
        ("expired_token", "[ERROR:AUTH] device code expired — run `livefolders publish` again"),
        ("access_denied", "[ERROR:AUTH] access denied by user"),
        ("strange", "[ERROR:AUTH] strange"),
    ] {
        match poll_reply(&format!("{{\"error\":\"{}\"}}", error)) {
            PollStep::Fail(m) => assert_eq!(m, message),
            s => panic!("got {:?}", s),
        }
    }
    assert!(matches!(poll_reply("x"), PollStep::Fail(m) if m == "invalid token response"));
}

fn declared(name: &str, required: bool, description: Option<&str>) -> EnvDecl {
    EnvDecl {
        name: name.to_string(),
        description: description.map(|d| d.to_string()),
        required,
        default: None,
    }
}

fn installation(url: &str) -> Installation {
    Installation::new(plan_install(url, Ok(Some("/t".to_string()))).unwrap())
}

fn said(action: InstallAction) -> String {
    match action {
        InstallAction::LookForSecret(s) => format!("secret {}", s),
        InstallAction::Ask(s) => format!("ask {}", s),
        InstallAction::StoreSecret { name, value } => format!("store {}={}", name, value),
        InstallAction::LookAt(s) => format!("look {}", s),
        InstallAction::Remove(s) => format!("remove {}", s),
        InstallAction::Copy(s) => format!("copy {}", s),
        InstallAction::Finish(s) => format!("finish {}", s),
        InstallAction::Fail(s) => format!("fail {}", s),
        InstallAction::ReadManifest => "manifest".to_string(),
        InstallAction::Nothing => "nothing".to_string(),
    }
}

fn unpacked(top_level: bool, found: bool) -> InstallEvent {
    InstallEvent::Unpacked { top_level, found }
}

fn answer(s: &str) -> InstallEvent {
    InstallEvent::Answer(s.to_string())
}

#[test]
fn installations_ask_for_required_secrets() {
    let mut i = installation("github.com/alice/tools");
    assert_eq!(said(i.advance(unpacked(true, true))), "manifest");
    let m = Manifest {
        name: Some("mine".to_string()),
        env: vec![
            declared("A", false, None),
            declared("B", true, Some("a key")),
            declared("C", true, None),
            declared("D", true, None),
        ],
        ..Default::default()
    };
    assert_eq!(said(i.advance(InstallEvent::Manifest(Some(m)))), "secret B");
    assert_eq!(said(i.advance(InstallEvent::Seen(false))), "ask B (a key): ");
    assert_eq!(said(i.advance(answer(" v \n"))), "store B=v");
    assert_eq!(said(i.advance(InstallEvent::Done)), "secret C");
    assert_eq!(said(i.advance(InstallEvent::Seen(false))), "ask C (C): ");
    assert_eq!(said(i.advance(answer("\n"))), "secret D");
    assert_eq!(said(i.advance(InstallEvent::Seen(true))), "look /t/mine");
    assert_eq!(said(i.advance(InstallEvent::Done)), "nothing");
    assert_eq!(said(i.advance(InstallEvent::Seen(false))), "copy /t/mine");
    assert_eq!(
        said(i.advance(InstallEvent::Done)),
        "finish Installed mine → /t/mine\nRun `livefolders mount` to start using it (or it will appear automatically if already mounted)."
    );
    assert_eq!(said(i.advance(InstallEvent::Failed("x".to_string()))), "nothing");
}

#[test]
fn installations_overwrite_only_with_consent() {
    for (reply, after) in [("y\n", "remove /t/sub"), (" Y", "remove /t/sub"), ("\n", "finish Aborted."), ("yes", "finish Aborted.")] {
        let mut i = installation("github.com/alice/tools/tree/main/sub");
        i.advance(unpacked(true, true));
        assert_eq!(said(i.advance(InstallEvent::Manifest(None))), "look /t/sub");
        assert_eq!(
            said(i.advance(InstallEvent::Seen(true))),
            "ask Tool 'sub' already exists. Overwrite? [y/N]: "
        );
        assert_eq!(said(i.advance(answer(reply))), after);
        if after.starts_with("remove") {
            assert_eq!(said(i.advance(InstallEvent::Done)), "copy /t/sub");
        }
    }
}

#[test]
fn installations_fail_on_bad_tarballs() {
    let mut i = installation("github.com/alice/tools");
    assert_eq!(
        said(i.advance(unpacked(false, false))),
        "fail unexpected tarball structure: no top-level directory"
    );
    let mut i = installation("github.com/alice/tools/tree/main/sub");
    assert_eq!(said(i.advance(unpacked(true, false))), "fail subdir 'sub' not found in repository");
    let mut i = installation("github.com/alice/tools");
    assert_eq!(said(i.advance(InstallEvent::Failed("no net".to_string()))), "fail no net");
}

fn reply(s: &str) -> FlowEvent {
    FlowEvent::Reply(s.to_string())
}

#[test]
fn authorizations_poll_until_the_code_expires() {
    let device = device_reply(r#"{"device_code": "d", "user_code": "u", "interval": 7, "expires_in": 30}"#).unwrap();
    let (mut f, first) = DeviceFlow::new(device);
    assert!(matches!(first, FlowAction::Wait(7)));
    assert!(matches!(f.advance(reply("{}")), FlowAction::Nothing));
    assert!(matches!(f.advance(FlowEvent::Waited(7)), FlowAction::Ask));
    assert!(matches!(f.advance(reply(r#"{"error": "authorization_pending"}"#)), FlowAction::Wait(7)));
    assert!(matches!(f.advance(FlowEvent::Waited(14)), FlowAction::Ask));
    assert!(matches!(f.advance(reply(r#"{"error": "slow_down"}"#)), FlowAction::Wait(7)));
    assert!(matches!(f.advance(FlowEvent::Waited(21)), FlowAction::Wait(7)));
    assert!(matches!(f.advance(FlowEvent::Waited(30)), FlowAction::Ask));
    assert!(matches!(f.advance(reply("{}")), FlowAction::Wait(7)));
    assert!(matches!(f.advance(FlowEvent::Waited(31)), FlowAction::Fail(m) if m.starts_with("[ERROR:AUTH] device flow expired")));
    assert!(matches!(f.advance(FlowEvent::Waited(40)), FlowAction::Nothing));
}

#[test]
fn authorizations_end_with_a_token_or_an_error() {
    for (answer, token, error) in [
        (r#"{"access_token": "t"}"#, Some("t"), ""),
        (r#"{"error": "access_denied"}"#, None, "[ERROR:AUTH] access denied by user"),
        ("no", None, "invalid token response"),
    ] {
        let device = device_reply(r#"{"device_code": "d", "user_code": "u"}"#).unwrap();
        let (mut f, first) = DeviceFlow::new(device);
        assert!(matches!(first, FlowAction::Wait(5)));
        f.advance(FlowEvent::Waited(900));
        match f.advance(reply(answer)) {
            FlowAction::Authorized(t) => assert_eq!(Some(t.as_str()), token),
            FlowAction::Fail(m) => assert_eq!(m, error),
            a => panic!("got {:?}", a),
        }
    }
}

#[test]
fn registry_tarballs_are_planned() {
    let url = "https://example.org/a.tgz";
    let p = plan_from_registry("alice", "tool", url, Ok(Some("/t".to_string()))).unwrap();
    assert_eq!((p.tools_dir.as_str(), p.tarball_url.as_str()), ("/t", url));
    assert_eq!((p.source.owner.as_str(), p.source.repo.as_str()), ("alice", "tool"));
    assert_eq!((p.source.branch.as_str(), p.source.subdir), ("HEAD", None));
    assert!(plan_from_registry("a", "b", url, Ok(None)).unwrap_err().starts_with("tools_dir is not"));
    assert_eq!(plan_from_registry("a", "b", url, Err("e".to_string())).unwrap_err(), "e");
}
