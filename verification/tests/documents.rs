use livefolders::fs::how_to_gen::generate_how_to;
use livefolders::fs::schema_gen::{generate_anthropic_tools_json, generate_schema_json};
use livefolders::json::{parse, Json};
use livefolders::manifest::{EnvDecl, FileKind, FileSpec, InputKind, InputSchema, Manifest};
use serde_json::Value;

fn spec(name: &str, kind: FileKind, input: Option<InputSchema>) -> FileSpec {
    FileSpec {
        name: name.to_string(),
        kind,
        handler: Some("cat".to_string()),
        input,
        state_file: None,
        pipe: None,
        hidden: false,
        description: None,
    }
}

fn plain(name: &str, kind: FileKind) -> FileSpec {
    FileSpec { handler: None, ..spec(name, kind, None) }
}

fn manifest(name: &str, description: Option<&str>, files: Vec<FileSpec>) -> Manifest {
    Manifest {
        name: Some(name.to_string()),
        description: description.map(|d| d.to_string()),
        files,
        ..Default::default()
    }
}

fn read(text: &str) -> Value {
    serde_json::from_str(text).unwrap()
}

#[test]
fn generate_includes_name_and_description() {
    let m = manifest("weather", Some("Get the weather forecast."), vec![]);
    let out = generate_how_to(&m);
    assert!(out.contains("weather"));
    assert!(out.contains("Get the weather forecast."));
    assert_eq!(out, "# weather\n\nGet the weather forecast.\n\n");
}

#[test]
fn generate_includes_env_defaults() {
    let m = Manifest {
        env: vec![EnvDecl {
            name: "TIMEOUT".to_string(),
            description: Some("Seconds".to_string()),
            required: false,
            default: Some("30".to_string()),
        }],
        ..manifest("mytool", None, vec![])
    };
    let out = generate_how_to(&m);
    assert!(out.contains("TIMEOUT"));
    assert!(out.contains("30"));
    assert_eq!(
        out,
        "# mytool\n\n## Required secrets\n\n- `TIMEOUT` — Seconds (default: `30`)\n"
    );
}

#[test]
fn generate_lists_file_specs() {
    let m = manifest(
        "demo",
        None,
        vec![
            FileSpec {
                handler: Some("date".to_string()),
                ..spec("forecast", FileKind::ReadInvoke, None)
            },
            plain("notes.txt", FileKind::Passthrough),
        ],
    );
    let out = generate_how_to(&m);
    assert!(out.contains("forecast"));
    assert!(out.contains("read_invoke"));
    assert!(out.contains("notes.txt"));
    assert!(out.contains("passthrough"));
    assert_eq!(
        out,
        "# demo\n\n## Files\n\n- **forecast** (`read_invoke`) — handler: `date`\n- **notes.txt** (`passthrough`)\n\n"
    );
}

#[test]
fn how_to_mentions_json_input_schema() {
    let m = manifest(
        "search",
        Some("Search the web."),
        vec![FileSpec {
            handler: Some("./search.sh".to_string()),
            ..spec("query", FileKind::WriteInvoke, Some(InputSchema::of_kind(InputKind::Json)))
        }],
    );
    let output = generate_how_to(&m);
    assert!(output.contains("JSON"), "expected JSON mention, got:\n{}", output);
}

#[test]
fn how_to_names_a_tool_without_a_name() {
    let m = Manifest {
        env: vec![EnvDecl {
            name: "KEY".to_string(),
            description: None,
            required: true,
            default: Some("x".to_string()),
        }],
        ..Default::default()
    };
    assert_eq!(generate_how_to(&m), "# this tool\n\n## Required secrets\n\n- `KEY` *(required)*\n");
}

#[test]
fn schema_json_contains_tool_name_and_description() {
    let m = manifest("search", Some("Search things."), vec![]);
    let v = read(&generate_schema_json(&m));
    assert_eq!(v["name"], "search");
    assert_eq!(v["description"], "Search things.");
}

#[test]
fn schema_json_lists_invokable_endpoints() {
    let m = manifest(
        "demo",
        None,
        vec![
            spec("query", FileKind::WriteInvoke, None),
            spec("status", FileKind::ReadInvoke, None),
            plain("notes.txt", FileKind::Passthrough),
        ],
    );
    let v = read(&generate_schema_json(&m));
    let eps = v["endpoints"].as_array().unwrap();
    assert_eq!(eps.len(), 2, "passthrough should be excluded");
    assert_eq!(eps[0]["name"], "query");
    assert_eq!(eps[1]["name"], "status");
    assert_eq!(eps[1]["kind"], "read_invoke");
}

#[test]
fn schema_json_includes_input_constraints() {
    let schema = InputSchema {
        schema: Some(parse("{\"required\": [\"q\"]}").unwrap()),
        ..InputSchema::of_kind(InputKind::Json)
    };
    let m = manifest("s", None, vec![spec("search", FileKind::WriteInvoke, Some(schema))]);
    let v = read(&generate_schema_json(&m));
    let input = &v["endpoints"][0]["input"];
    assert_eq!(input["type"], "json");
    assert_eq!(input["schema"]["required"][0], "q");
}

#[test]
fn schema_json_includes_string_constraints() {
    let schema = InputSchema {
        min_length: Some(1),
        max_length: Some(100),
        pattern: Some(r"^\w+$".to_string()),
        ..InputSchema::of_kind(InputKind::String)
    };
    let m = manifest("s", None, vec![spec("greet", FileKind::WriteInvoke, Some(schema))]);
    let v = read(&generate_schema_json(&m));
    let input = &v["endpoints"][0]["input"];
    assert_eq!(input["min_length"], 1);
    assert_eq!(input["max_length"], 100);
    assert_eq!(input["pattern"], r"^\w+$");
}

#[test]
fn schema_json_includes_pipe_stages() {
    let m = manifest(
        "t",
        None,
        vec![
            spec("fetch", FileKind::WriteInvoke, None),
            spec("format", FileKind::WriteInvoke, None),
            FileSpec {
                pipe: Some(vec!["fetch".to_string(), "format".to_string()]),
                ..plain("pipeline", FileKind::WriteInvoke)
            },
        ],
    );
    let v = read(&generate_schema_json(&m));
    let eps = v["endpoints"].as_array().unwrap();
    let pipe_ep = eps.iter().find(|e| e["name"] == "pipeline").unwrap();
    assert_eq!(pipe_ep["pipe"][0], "fetch");
    assert_eq!(pipe_ep["pipe"][1], "format");
}

#[test]
fn schema_json_excludes_passthrough_and_readonly() {
    let m = manifest(
        "t",
        None,
        vec![
            plain("config.json", FileKind::Passthrough),
            plain("readme.md", FileKind::Readonly),
        ],
    );
    let v = read(&generate_schema_json(&m));
    assert_eq!(v["endpoints"].as_array().unwrap().len(), 0);
}

#[test]
fn schema_json_of_an_unnamed_tool() {
    let m = Manifest {
        files: vec![FileSpec {
            state_file: Some("state.json".to_string()),
            ..spec("count", FileKind::WriteInvoke, Some(InputSchema::of_kind(InputKind::Empty)))
        }],
        ..Default::default()
    };
    let v = read(&generate_schema_json(&m));
    assert_eq!(v["name"], "unknown");
    assert_eq!(v["description"], "");
    assert_eq!(v["endpoints"][0]["state_file"], "state.json");
    assert_eq!(v["endpoints"][0]["input"]["type"], "none");
}

#[test]
fn anthropic_tools_describe_each_endpoint() {
    let m = manifest(
        "svc",
        Some("tool-level"),
        vec![
            FileSpec {
                description: Some("ep-level".to_string()),
                ..spec("ask", FileKind::WriteInvoke, None)
            },
            spec("status", FileKind::ReadInvoke, None),
            plain("notes.txt", FileKind::Readonly),
        ],
    );
    let v = read(&generate_anthropic_tools_json("svc", &m));
    let tools = v.as_array().unwrap();
    assert_eq!(tools.len(), 2);
    assert_eq!(tools[0]["name"], "svc__ask");
    assert_eq!(tools[0]["description"], "ep-level");
    assert_eq!(tools[0]["input_schema"]["required"][0], "input");
    assert_eq!(tools[1]["description"], "tool-level");
    assert_eq!(tools[1]["input_schema"]["required"].as_array().unwrap().len(), 0);
}

#[test]
fn json_reads_and_writes() {
    let j = parse("{\"b\": [1, \"x\", null, true], \"a\": {\"n\": 7}}").unwrap();
    assert_eq!(j.compact(), "{\"a\":{\"n\":7},\"b\":[1,\"x\",null,true]}");
    assert_eq!(j.copy().pretty(), j.pretty());
    assert!(j.pretty().contains("\n  \"a\": {\n"));
    assert_eq!(j.get("a").unwrap().get_u64("n"), Some(7));
    assert_eq!(j.get_array("b").unwrap().len(), 4);
    assert!(j.get("c").is_none());
    assert!(j.get_str("a").is_none());
    assert!(parse("{").is_err());
}

#[test]
fn json_later_fields_count() {
    let j = Json::object().with("k", Json::text("old")).with("k", Json::text("new"));
    assert_eq!(j.get_str("k"), Some("new"));
    assert_eq!(j.compact(), "{\"k\":\"new\"}");
    assert_eq!(j.keys(), vec!["k".to_string(), "k".to_string()]);
    assert_eq!(Json::text("s").with("k", Json::Null).compact(), "\"s\"");
}

#[test]
fn json_numbers_and_types() {
    assert_eq!(Json::uint(18446744073709551615).compact(), "18446744073709551615");
    assert_eq!(Json::sint(-32601).compact(), "-32601");
    assert!(Json::sint(-1).is_of_type("integer"));
    assert!(parse("2").unwrap().is_of_type("integer"));
    assert!(!parse("2.5").unwrap().is_of_type("integer"));
    assert!(parse("2.5").unwrap().is_of_type("number"));
    assert!(parse("[]").unwrap().is_of_type("array"));
    assert!(parse("{}").unwrap().is_of_type("object"));
    assert!(parse("null").unwrap().is_of_type("null"));
    assert!(parse("true").unwrap().is_of_type("boolean"));
    assert!(parse("\"s\"").unwrap().is_of_type("string"));
    assert!(!parse("\"s\"").unwrap().is_of_type("number"));
    assert!(parse("\"s\"").unwrap().is_of_type("anything"));
}
