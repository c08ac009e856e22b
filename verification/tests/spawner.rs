use codex_mcp_spawner::agent::{
    codex_args, config_toml, default_codex_home, diag, extract_event, finish, format_clipped,
    home_dir_name, is_clippable, item_brief, model_catalog, model_catalog_text, output_file_name,
    parse_events, plan_run, report_failure, sanitize, tail, try_parse_events, AgentEvent, CodexArg,
    CodexHome, Outcome, RunFailure, SpawnArgs,
};
use codex_mcp_spawner::codec::parse_json;
use codex_mcp_spawner::config::{
    daemon_config, default_wire_api, parse_proxy_args, ModelConfig, ProviderConfig, ProxyArgs,
    SpawnerConfig,
};

fn words(line: &[&str]) -> Vec<String> {
    line.iter().map(|w| w.to_string()).collect()
}

fn config() -> SpawnerConfig {
    let model = |slug: &str, context_window: i64| ModelConfig {
        slug: slug.to_string(),
        context_window,
    };
    let provider = |name: &str, models: Vec<ModelConfig>| {
        (
            name.to_string(),
            ProviderConfig {
                base_url: format!("https://{name}.example/v1"),
                proxy_url: "http://127.0.0.1:15722".to_string(),
                api_key: format!("{name}-key"),
                wire_api: default_wire_api(),
                models,
            },
        )
    };
    SpawnerConfig {
        providers: vec![
            provider("glm", vec![model("glm-5.2", 128000), model("glm-5.1", 64000)]),
            provider("bare", vec![]),
        ],
    }
}

fn spawn_args(provider: &str, model: Option<&str>) -> SpawnArgs {
    SpawnArgs {
        task_name: "job".to_string(),
        message: "do it".to_string(),
        provider: provider.to_string(),
        model: model.map(|m| m.to_string()),
        cwd: None,
        timeout_sec: None,
    }
}

#[test]
fn parse_proxy_args_accepts_provider_and_listen() {
    let args = vec![
        "codex-mcp-spawner".to_string(),
        "proxy".to_string(),
        "--provider".to_string(),
        "glm".to_string(),
        "--listen".to_string(),
        "127.0.0.1:15722".to_string(),
    ];

    let parsed = parse_proxy_args(&args).unwrap();
    assert_eq!(parsed.provider, "glm");
    assert_eq!(parsed.listen, "127.0.0.1:15722");
}

#[test]
fn setup_subagent_home_writes_config_with_proxy_url() {
    assert_eq!(home_dir_name("glm-test"), "codex-subagent-glm-test");
    let config = config_toml("glm-test", "glm-5.2", 128000, "http://127.0.0.1:15722");
    let catalog = model_catalog_text("glm-5.2", 128000).unwrap();
    assert!(config.contains("model = \"glm-5.2\""));
    assert!(config.contains("model_catalog_json = \"model-catalog.json\""));
    assert!(config.contains("base_url = \"http://127.0.0.1:15722\""));
    assert!(catalog.contains("\"supported_reasoning_levels\""));
    assert!(catalog.contains("\"apply_patch_tool_type\""));
}

#[test]
fn exact_text_of_the_configuration() {
    assert_eq!(
        config_toml("p", "m", -5, "u"),
        "model_provider = \"custom\"\nmodel = \"m\"\nmodel_context_window = -5\n\
         model_catalog_json = \"model-catalog.json\"\n\n[model_providers.custom]\nname = \"p\"\n\
         base_url = \"u\"\nwire_api = \"responses\"\n"
    );
    let entry = model_catalog("m", 9);
    let entry = &entry.get("models").unwrap().as_array().unwrap()[0];
    assert_eq!(entry.text("description"), Some("m via codex-mcp-spawner"));
    assert_eq!(entry.get("max_context_window").unwrap().as_i64(), Some(9));
    assert_eq!(entry.text("base_instructions"), Some(""));
    let levels = entry.get("supported_reasoning_levels").unwrap().as_array().unwrap();
    assert_eq!(levels[2].text("description"), Some("Deep reasoning"));
    let text = model_catalog_text("m", 9).unwrap();
    assert!(text.starts_with("{\n  \"models\": ["), "{text}");
    let value: serde_json::Value = serde_json::from_str(&text).unwrap();
    assert_eq!(value["models"][0].as_object().unwrap().len(), 29);
    assert_eq!(value["models"][0]["truncation_policy"]["limit"], 10000);
}

#[test]
fn proxy_arguments() {
    let parse = |line: &[&str]| parse_proxy_args(&words(line));
    assert_eq!(
        parse(&["x", "proxy", "--model", "m", "--provider", "p"]).unwrap(),
        ProxyArgs {
            provider: "p".into(),
            listen: "127.0.0.1:15722".into(),
            model: Some("m".into()),
        }
    );
    assert_eq!(parse(&["x", "proxy"]).unwrap_err(), "missing --provider");
    assert_eq!(parse(&[]).unwrap_err(), "missing --provider");
    assert_eq!(
        parse(&["x", "proxy", "--provider"]).unwrap_err(),
        "missing value for --provider"
    );
    assert_eq!(
        parse(&["x", "proxy", "--listen"]).unwrap_err(),
        "missing value for --listen"
    );
    assert_eq!(
        parse(&["x", "proxy", "--model"]).unwrap_err(),
        "missing value for --model"
    );
    assert_eq!(
        parse(&["x", "proxy", "--odd", "1"]).unwrap_err(),
        "unknown proxy argument: --odd"
    );
    // The last value for a flag counts.
    let twice = parse(&["x", "proxy", "--provider", "a", "--listen", "l", "--provider", "b"]);
    let twice = twice.unwrap();
    assert_eq!(twice.provider, "b");
    assert_eq!(twice.listen, "l");
}

#[test]
fn daemons() {
    let args = |provider: &str, model: Option<&str>| ProxyArgs {
        provider: provider.to_string(),
        listen: "l".to_string(),
        model: model.map(|m| m.to_string()),
    };
    let cfg = daemon_config(&args("glm", None), &config()).unwrap();
    assert_eq!(cfg.provider_name, "glm");
    assert_eq!(cfg.upstream_base, "https://glm.example/v1");
    assert_eq!(cfg.api_key, "glm-key");
    assert_eq!(cfg.model_slug, "glm-5.2");
    assert_eq!(
        daemon_config(&args("glm", Some("glm-5.1")), &config()).unwrap().model_slug,
        "glm-5.1"
    );
    assert_eq!(
        daemon_config(&args("none", None), &config()).unwrap_err(),
        "provider 'none' not in mcp-spawner.toml"
    );
    assert_eq!(
        daemon_config(&args("bare", None), &config()).unwrap_err(),
        "model 'unknown' not in provider 'bare'"
    );
}

#[test]
fn plans() {
    let plan = plan_run(&spawn_args("glm", Some("glm-5.1")), &config()).unwrap();
    assert_eq!(plan.model_slug, "glm-5.1");
    assert_eq!(plan.context_window, 64000);
    assert_eq!(plan.proxy_url, "http://127.0.0.1:15722");
    assert_eq!(plan.timeout_sec, 600);
    assert_eq!(
        plan_run(&spawn_args("glm", Some("x")), &config()).unwrap_err(),
        "[subagent job model 'x' not in provider 'glm']"
    );
    assert_eq!(
        plan_run(&spawn_args("y", None), &config()).unwrap_err(),
        "[subagent job provider 'y' not in mcp-spawner.toml]"
    );
}

#[test]
fn failures_are_reported() {
    assert_eq!(diag("t", "went wrong".to_string()), "[subagent t went wrong]");
    let report = |problem| report_failure("t", problem);
    assert_eq!(report(RunFailure::Setup("s".into())), "[subagent t s]");
    assert_eq!(
        report(RunFailure::Start("e".into())),
        "[subagent t failed to start: e]"
    );
    assert_eq!(report(RunFailure::Wait("e".into())), "[subagent t io error: e]");
    assert_eq!(
        report(RunFailure::Timeout(600)),
        "[subagent t timed out after 600s]"
    );
}

#[test]
fn command_lines() {
    let word = |w: &str| CodexArg::Word(w.to_string());
    let mut args = spawn_args("glm", Some("m"));
    args.cwd = Some("/work".to_string());
    assert_eq!(
        codex_args(&args),
        vec![
            word("exec"),
            word("--skip-git-repo-check"),
            word("--json"),
            word("--sandbox"),
            word("workspace-write"),
            word("-m"),
            word("m"),
            word("-o"),
            CodexArg::OutputPath,
            word("-C"),
            word("/work"),
        ]
    );
    assert_eq!(codex_args(&spawn_args("glm", None)).len(), 7);
}

#[test]
fn file_names() {
    assert_eq!(sanitize("a b/c-d_é.1"), "a_b_c-d_é_1");
    assert_eq!(sanitize(&sanitize("../x")), sanitize("../x"));
    assert_eq!(output_file_name("my task", 42), "codex_subagent_my_task_42.txt");
    assert_eq!(home_dir_name("a/b"), "codex-subagent-a_b");
}

#[test]
fn tails() {
    assert_eq!(tail("abc", 5), "abc");
    assert_eq!(tail("abcdef", 2), "ef");
    assert_eq!(tail("aé", 1), "");
    assert_eq!(tail("aéb", 3), "éb");
    assert_eq!(tail("aéb", 2), "b");
}

#[test]
fn clipped_lines() {
    assert_eq!(format_clipped("one\ntwo", 80), "one");
    assert_eq!(format_clipped("", 80), "");
    assert_eq!(format_clipped("abcdef", 3), "abc…");
    assert_eq!(format_clipped("one\r\ntwo", 3), "one");
    assert!(is_clippable("aébcd", 3));
    assert_eq!(format_clipped("aébcd", 3), "aé…");
    assert!(!is_clippable("aébcd", 2));
}

#[test]
fn briefs() {
    let brief = |text: &str| item_brief(&parse_json(text).unwrap());
    assert_eq!(
        brief(r#"{"type":"message","content":[{"text":"hello\nworld"}]}"#).as_deref(),
        Some("hello")
    );
    assert_eq!(brief(r#"{"type":"message","content":[]}"#), None);
    assert_eq!(
        brief(r#"{"type":"function_call","name":"f"}"#).as_deref(),
        Some("[tool] f")
    );
    assert_eq!(brief(r#"{"type":"function_call"}"#), None);
    assert_eq!(brief(r#"{"type":"reasoning"}"#).as_deref(), Some("[reasoning]"));
    assert_eq!(brief(r#"{"type":"web"}"#).as_deref(), Some("[web]"));
    assert_eq!(brief("{}"), None);
    let event = extract_event(&parse_json(r#"{"type":"TurnStarted"}"#).unwrap());
    assert_eq!(event.brief.as_deref(), Some("turn started"));
    let event = extract_event(&parse_json("[]").unwrap());
    assert_eq!(event.event_type, "unknown");
    assert_eq!(event.brief, None);
}

const OUTPUT: &str = "{\"type\":\"TurnStarted\"}\nnoise\n\
    {\"type\":\"OutputItemDone\",\"item\":{\"type\":\"function_call\",\"name\":\"ls\"}}\n\
    {\"type\":\"OutputItemDone\"}\n{\"type\":\"TurnComplete\"}\n";

fn outcome(events: Vec<AgentEvent>, final_output: Option<&str>, success: bool) -> Outcome {
    Outcome {
        task_name: "t".to_string(),
        model: None,
        provider: "glm".to_string(),
        events,
        exit_code: if success { Some(0) } else { None },
        success,
        final_output: final_output.map(|s| s.to_string()),
    }
}

#[test]
fn events_are_read_line_by_line() {
    let events = parse_events(OUTPUT.as_bytes());
    assert_eq!(events.len(), 4);
    assert_eq!(events[1].brief.as_deref(), Some("[tool] ls"));
    assert_eq!(try_parse_events(OUTPUT.as_bytes()).unwrap(), events);
    // Bytes that are no UTF-8 spoil their own line only.
    let mut bytes = b"\xff\n".to_vec();
    bytes.extend_from_slice(OUTPUT.as_bytes());
    assert_eq!(parse_events(&bytes), events);
    // A message that cannot be cut is no message that can be told.
    let awkward = format!(
        "{{\"type\":\"OutputItemDone\",\"item\":{{\"type\":\"message\",\"content\":[{{\"text\":\"{}é\"}}]}}}}\n",
        "x".repeat(79)
    );
    assert_eq!(try_parse_events(awkward.as_bytes()), None);
}

#[test]
fn reports() {
    let report = |outcome: &Outcome, stderr: &str| -> serde_json::Value {
        serde_json::from_str(&finish(outcome, stderr.as_bytes())).unwrap()
    };
    let done = report(&outcome(parse_events(OUTPUT.as_bytes()), Some(" all good \n"), true), "warn");
    assert_eq!(done["task_name"], "t");
    assert_eq!(done["model"], "inherited");
    assert_eq!(done["provider"], "glm");
    assert_eq!(done["exit_code"], 0);
    assert_eq!(done["turns"], 1);
    assert_eq!(done["tool_calls"][0], "[tool] ls");
    assert_eq!(done["tool_calls"].as_array().unwrap().len(), 1);
    assert_eq!(done["final_message"], "all good");
    assert!(done.get("stderr_tail").is_none());
    let failed = report(&outcome(vec![], Some("  "), false), &format!("{}end\n", "x".repeat(600)));
    assert_eq!(failed["final_message"], "");
    assert!(failed["exit_code"].is_null());
    let end = failed["stderr_tail"].as_str().unwrap();
    assert_eq!(end.len(), 500);
    assert!(end.ends_with("xend"));
    let silent = report(&outcome(vec![], None, true), "noise");
    assert_eq!(silent["final_message"], "");
    assert!(silent.get("stderr_tail").is_none());
    assert!(finish(&outcome(vec![], None, true), b"").starts_with("{\n  \"exit_code\": 0"));
}

#[test]
fn homes() {
    let home = |s: &str| Some(s.to_string());
    assert_eq!(
        default_codex_home(home("/c"), true, home("/h")),
        CodexHome::At("/c".into())
    );
    assert_eq!(
        default_codex_home(home("/c"), false, home("/h")),
        CodexHome::Under("/h".into())
    );
    assert_eq!(
        default_codex_home(None, false, None),
        CodexHome::Under("/tmp".into())
    );
}
