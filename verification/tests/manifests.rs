use livefolders::json::parse;
use livefolders::manifest::{
    EnvDecl, FileKind, FileSpec, InputKind, InputSchema, Manifest, SandboxSpec,
};

fn file(name: &str, kind: FileKind, handler: Option<&str>) -> FileSpec {
    FileSpec {
        name: name.to_string(),
        kind,
        handler: handler.map(|h| h.to_string()),
        input: None,
        state_file: None,
        pipe: None,
        hidden: false,
        description: None,
    }
}

fn chain(name: &str, stages: &[&str]) -> FileSpec {
    FileSpec {
        pipe: Some(stages.iter().map(|s| s.to_string()).collect()),
        ..file(name, FileKind::WriteInvoke, None)
    }
}

fn with_files(files: Vec<FileSpec>) -> Manifest {
    Manifest { files, ..Default::default() }
}

#[test]
fn parse_files_section() {
    let m = Manifest {
        name: Some("weather".to_string()),
        ..with_files(vec![
            file("forecast", FileKind::ReadInvoke, Some("./bin/forecast")),
            file(
                "search",
                FileKind::WriteInvoke,
                Some("curl -s -X POST -d @- https://api.example.com/search"),
            ),
            file("config.json", FileKind::Passthrough, None),
            file("how_to.md", FileKind::Readonly, None),
        ])
    };
    assert_eq!(m.files.len(), 4);
    let forecast = m.spec_for("forecast").unwrap();
    assert_eq!(forecast.kind, FileKind::ReadInvoke);
    assert_eq!(forecast.handler.as_deref(), Some("./bin/forecast"));
    let config = m.spec_for("config.json").unwrap();
    assert_eq!(config.kind, FileKind::Passthrough);
    assert!(config.handler.is_none());
    assert!(m.spec_for("nonexistent").is_none());
}

#[test]
fn spec_for_gives_the_first_of_a_name() {
    let m = with_files(vec![
        file("a", FileKind::ReadInvoke, Some("one")),
        file("a", FileKind::ReadInvoke, Some("two")),
    ]);
    assert_eq!(m.spec_for("a").unwrap().handler.as_deref(), Some("one"));
}

#[test]
fn validate_rejects_handler_on_passthrough() {
    let m = with_files(vec![file("config.json", FileKind::Passthrough, Some("./something"))]);
    assert!(m.validate().is_err());
    assert_eq!(
        m.validate().unwrap_err(),
        "file 'config.json' has kind Passthrough but specifies a handler (not allowed)"
    );
}

#[test]
fn validate_rejects_missing_handler_on_write_invoke() {
    let m = with_files(vec![file("search", FileKind::WriteInvoke, None)]);
    assert!(m.validate().is_err());
    assert_eq!(
        m.validate().unwrap_err(),
        "file 'search' has kind WriteInvoke but neither handler nor pipe specified"
    );
}

#[test]
fn validate_accepts_valid_manifest() {
    let m = with_files(vec![
        file("search", FileKind::WriteInvoke, Some("./bin/search")),
        file("config.json", FileKind::Passthrough, None),
    ]);
    assert!(m.validate().is_ok());
}

#[test]
fn validate_rejects_missing_handler_on_read_invoke() {
    let m = with_files(vec![file("status", FileKind::ReadInvoke, None)]);
    assert!(m.validate().is_err());
}

#[test]
fn validate_rejects_handler_on_readonly() {
    let m = with_files(vec![file("readme.md", FileKind::Readonly, Some("./something"))]);
    assert!(m.validate().is_err());
}

#[test]
fn validate_accepts_read_invoke_with_handler() {
    let m = with_files(vec![file("status", FileKind::ReadInvoke, Some("date"))]);
    assert!(m.validate().is_ok());
}

#[test]
fn validate_accepts_readonly_without_handler() {
    let m = with_files(vec![file("readme.md", FileKind::Readonly, None)]);
    assert!(m.validate().is_ok());
}

#[test]
fn spec_for_returns_none_on_empty_files() {
    let m = Manifest { name: Some("empty".to_string()), ..Default::default() };
    assert!(m.spec_for("anything").is_none());
}

#[test]
fn validate_accepts_pipe_endpoint_without_handler() {
    let m = with_files(vec![
        file("fetch", FileKind::WriteInvoke, Some("./fetch.sh")),
        file("format", FileKind::WriteInvoke, Some("./format.sh")),
        chain("weather_report", &["fetch", "format"]),
    ]);
    assert!(m.validate().is_ok());
}

#[test]
fn validate_rejects_pipe_and_handler_together() {
    let m = with_files(vec![FileSpec {
        pipe: Some(vec!["a".to_string()]),
        ..file("a", FileKind::WriteInvoke, Some("./a.sh"))
    }]);
    assert_eq!(
        m.validate().unwrap_err(),
        "file 'a' specifies both handler and pipe; use one or the other"
    );
}

#[test]
fn validate_rejects_pipe_referencing_unknown_stage() {
    let m = with_files(vec![chain("pipeline", &["nonexistent"])]);
    let err = m.validate().unwrap_err();
    assert!(err.contains("nonexistent"), "got: {}", err);
    assert_eq!(err, "file 'pipeline' pipe references unknown endpoint 'nonexistent'");
}

#[test]
fn validate_rejects_empty_pipe() {
    let m = with_files(vec![chain("pipeline", &[])]);
    assert_eq!(
        m.validate().unwrap_err(),
        "file 'pipeline' pipe must contain at least one stage"
    );
}

#[test]
fn validate_reports_the_first_problem() {
    let m = with_files(vec![
        file("good", FileKind::Readonly, None),
        file("first", FileKind::ReadInvoke, None),
        file("second", FileKind::Readonly, Some("x")),
    ]);
    assert!(m.validate().unwrap_err().contains("'first'"));
}

#[test]
fn parse_input_schema_defaults_constraints_to_none() {
    let s = InputSchema::of_kind(InputKind::Empty);
    assert_eq!(s.kind, InputKind::Empty);
    assert!(s.min_length.is_none());
    assert!(s.max_length.is_none());
    assert!(s.pattern.is_none());
    assert!(s.schema.is_none());
}

#[test]
fn copies_of_schemas_are_the_same() {
    let s = InputSchema {
        kind: InputKind::Json,
        min_length: Some(1),
        max_length: Some(2),
        pattern: Some("x".to_string()),
        schema: Some(parse("{\"required\":[\"q\"]}").unwrap()),
    };
    let c = s.copy();
    assert_eq!(c.kind, InputKind::Json);
    assert_eq!(c.min_length, Some(1));
    assert_eq!(c.max_length, Some(2));
    assert_eq!(c.pattern.as_deref(), Some("x"));
    assert_eq!(c.schema.unwrap().compact(), "{\"required\":[\"q\"]}");
}

#[test]
fn sandbox_absent_yields_none() {
    let m = Manifest { name: Some("mytool".to_string()), ..Default::default() };
    assert!(m.sandbox.is_none());
    assert!(m.env.is_empty());
}

#[test]
fn sandbox_network_defaults_to_none_when_omitted() {
    let s = SandboxSpec::default();
    assert!(s.network.is_none());
    assert!(s.fs.read.is_empty());
}

#[test]
fn kinds_have_their_names() {
    assert_eq!(FileKind::WriteInvoke.key(), "write_invoke");
    assert_eq!(FileKind::ReadInvoke.key(), "read_invoke");
    assert_eq!(FileKind::Passthrough.key(), "passthrough");
    assert_eq!(FileKind::Readonly.key(), "readonly");
    assert_eq!(FileKind::Readonly.text(), "Readonly");
    assert!(FileKind::ReadInvoke.runs_handler());
    assert!(!FileKind::Passthrough.runs_handler());
}

#[test]
fn env_declarations_hold_their_parts() {
    let e = EnvDecl {
        name: "MYTOOL_TIMEOUT".to_string(),
        description: Some("Timeout".to_string()),
        required: false,
        default: Some("30".to_string()),
    };
    assert!(!e.required);
    assert_eq!(e.default.as_deref(), Some("30"));
}
