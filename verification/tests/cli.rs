//! The decisions of the program around the pipeline.
use ferro_stash::cli::build_info::{build_sha, rfc3339_utc};
use ferro_stash::cli::config::{
    auto_exit, check_pipelines_file, check_pipelines_list, default_paths, entry_options, entry_source, extract_plugins, first_action,
    has_effective_lines, is_pattern, is_yes, load_config_from_cli, merge_configs, pipeline_id,
    plan_pipeline, read_pipeline_id_from_settings, read_settings_yml, reloads, stored_id,
    test_action, validate_config, Config, ConfigSource, DiskQueue, FirstAction, Options,
    PipelineEntry, PipelinesFile, PluginConfig, Subcommand, TestAction,
};
use ferro_stash::cli::logging::{default_logger_levels, LoggerLevels};
use ferro_stash::cli::reload::{
    bind_step, files_changed, BindFailure, BindStep, ReloadAction, ReloadEvent, ReloadState,
};
use ferro_stash::cli::stats::{
    acknowledged, build_pipeline_stats, health_report, hot_threads, node_info, node_plugins,
    node_stats, pipeline_stats_all, pipeline_stats_by_id, root_body, NodeFacts, PluginInfo, Snapshot,
};
use ferro_stash::double::Double;
use ferro_stash::json::Json;

fn text(s: &str) -> Json {
    Json::Str(s.to_string())
}

fn object(members: Vec<(&str, Json)>) -> Json {
    Json::Object(members.into_iter().map(|(k, v)| (k.to_string(), v)).collect())
}

fn options() -> Options {
    Options {
        help: false,
        version: false,
        command: None,
        config: None,
        config_string: None,
        workers: None,
        batch_size: None,
        batch_delay: None,
        pipeline_id: "main".to_string(),
        api_enabled: "true".to_string(),
        config_test_and_exit: false,
        auto_exit: false,
        config_reload_automatic: None,
    }
}

fn plugin(plugin_type: &str, settings: Json) -> PluginConfig {
    PluginConfig { plugin_type: plugin_type.to_string(), settings }
}

fn config(inputs: Vec<PluginConfig>) -> Config {
    Config {
        inputs,
        filters: vec![],
        outputs: vec![],
        workers: 4,
        batch_size: 125,
        batch_delay_ms: 50,
        buffer_size: 1000,
        queue_type: "memory".to_string(),
        queue_path: "queue".to_string(),
        queue_max_bytes: 1024,
        dead_letters: false,
        dead_letter_path: "dlq".to_string(),
        dead_letter_max_bytes: 2048,
    }
}

// Logging

fn level<'a>(levels: &'a LoggerLevels, name: &str) -> Option<&'a str> {
    levels.entries.iter().find(|(k, _)| k == name).map(|(_, v)| v.as_str())
}

#[test]
fn root_level_spares_the_slow_log() {
    let mut levels = default_logger_levels();
    levels.put_logging(&object(vec![("logger.", text("debug"))]));
    assert_eq!(level(&levels, "logstash.agent"), Some("DEBUG"));
    assert_eq!(level(&levels, "logstash.inputs.stdin"), Some("DEBUG"));
    assert_eq!(level(&levels, "slowlog.logstash.pipeline"), Some("TRACE"));
    assert_eq!(levels.entries.len(), 5);
}

#[test]
fn package_level_reaches_its_loggers() {
    let mut levels = default_logger_levels();
    levels.put_logging(&object(vec![("logger.logstash", text("WARN"))]));
    assert_eq!(level(&levels, "logstash"), Some("WARN"));
    assert_eq!(level(&levels, "logstash.outputs.elasticsearch"), Some("WARN"));
    assert_eq!(level(&levels, "slowlog.logstash.pipeline"), Some("TRACE"));
    levels.put_logging(&object(vec![("logger.logstash.agent", Json::Int(1))]));
    assert_eq!(level(&levels, "logstash.agent"), Some("INFO"));
    assert_eq!(level(&levels, "logstash.pipeline"), Some("WARN"));
    // A level that was set by name stays.
    levels.put_logging(&object(vec![("logger.logstash", text("ERROR"))]));
    levels.put_logging(&object(vec![("logger.", text("FATAL"))]));
    assert_eq!(level(&levels, "logstash.agent"), Some("INFO"));
    assert_eq!(level(&levels, "logstash"), Some("ERROR"));
    assert_eq!(level(&levels, "logstash.pipeline"), Some("FATAL"));
    levels.put_logging(&object(vec![("logger.logstash.agent", text("TRACE"))]));
    assert_eq!(level(&levels, "logstash.agent"), Some("TRACE"));
    levels.reset_logging();
    assert_eq!(levels, default_logger_levels());
}

#[test]
fn requests_that_are_no_object_change_no_level() {
    let mut levels = default_logger_levels();
    levels.put_logging(&text("DEBUG"));
    assert_eq!(levels, default_logger_levels());
    levels.put_logging(&object(vec![("my.logger", text("error"))]));
    assert_eq!(level(&levels, "my.logger"), Some("ERROR"));
    let Some(Json::Object(shown)) = levels.get_logging().get("loggers").map(Json::copy) else {
        panic!("loggers");
    };
    assert_eq!(shown.len(), 6);
    assert_eq!(shown[5], ("my.logger".to_string(), text("ERROR")));
}

// Monitoring

fn snapshot() -> Snapshot {
    Snapshot {
        events_in: 10,
        events_out: 8,
        events_filtered: 9,
        uptime_millis: 1234,
        reload_successes: 1,
        reload_failures: 2,
        last_reload_success: Some("2026-04-12T00:00:00Z".to_string()),
        last_reload_failure: None,
        input_rate: 2.5_f64.to_bits(),
        output_rate: 2.0_f64.to_bits(),
        filter_rate: 2.25_f64.to_bits(),
    }
}

fn facts() -> NodeFacts {
    NodeFacts {
        host: "h1".to_string(),
        version: "9.3.2".to_string(),
        os: "linux".to_string(),
        arch: "x86_64".to_string(),
        workers: 8,
        pid: 42,
    }
}

fn at<'a>(j: &'a Json, path: &[&str]) -> &'a Json {
    path.iter().fold(j, |v, k| v.get(k).unwrap())
}

#[test]
fn pipeline_statistics_show_plugins_by_kind() {
    let plugins = vec![
        PluginInfo { id: "in1".into(), name: "stdin".into(), plugin_type: "input".into() },
        PluginInfo { id: "f1".into(), name: "grok".into(), plugin_type: "filter".into() },
        PluginInfo { id: "o1".into(), name: "stdout".into(), plugin_type: "output".into() },
    ];
    let stats = build_pipeline_stats(&snapshot(), 1234, &plugins);
    assert_eq!(at(&stats, &["events", "filtered"]), &Json::Int(9));
    assert_eq!(at(&stats, &["reloads", "last_failure_timestamp"]), &Json::Null);
    let Json::Array(inputs) = at(&stats, &["plugins", "inputs"]) else {
        panic!("inputs");
    };
    assert_eq!(inputs.len(), 1);
    assert_eq!(at(&inputs[0], &["events", "out"]), &Json::Int(10));
    assert_eq!(
        at(&inputs[0], &["flow", "throughput", "current"]),
        &Json::Float(Double::Bits(2.5_f64.to_bits()))
    );
    let Json::Array(outputs) = at(&stats, &["plugins", "outputs"]) else {
        panic!("outputs");
    };
    assert_eq!(at(&outputs[0], &["events", "in"]), &Json::Int(8));
    let all = pipeline_stats_all(&snapshot(), "main", &plugins);
    assert_eq!(at(&all, &["pipelines", "main"]), &stats);
}

#[test]
fn unknown_pipeline_is_not_found() {
    let (found, body) = pipeline_stats_by_id(&snapshot(), "main", &vec![], "other");
    assert!(!found);
    assert_eq!(body, object(vec![("error", text("pipeline 'other' not found"))]));
    let (found, body) = pipeline_stats_by_id(&snapshot(), "main", &vec![], "main");
    assert!(found);
    assert_eq!(body, pipeline_stats_all(&snapshot(), "main", &vec![]));
}

#[test]
fn node_bodies_carry_the_facts() {
    let root = root_body(&facts(), "id-1", "eph-1");
    assert_eq!(at(&root, &["host"]), &text("h1"));
    assert_eq!(at(&root, &["jvm", "pid"]), &Json::Int(42));
    assert_eq!(at(&root, &["pipeline", "batch_size"]), &Json::Int(500));
    let info = node_info(&facts(), "id-1", "main");
    assert_eq!(at(&info, &["pipelines", "main", "workers"]), &Json::Int(8));
    let mut whole = snapshot();
    whole.events_in = 100;
    let stats = node_stats(&facts(), &whole, &snapshot(), "main", &vec![]);
    assert_eq!(at(&stats, &["events", "in"]), &Json::Int(100));
    assert_eq!(at(&stats, &["pipelines", "main", "events", "in"]), &Json::Int(10));
    assert_eq!(at(&stats, &["jvm", "uptime_in_millis"]), &Json::Int(1234));
    assert_eq!(at(&hot_threads("now"), &["hot_threads", "time"]), &text("now"));
    assert_eq!(at(&node_plugins(), &["total"]), &Json::Int(10));
    let health = health_report("main");
    assert_eq!(
        at(&health, &["indicators", "pipelines", "indicators", "main", "status"]),
        &text("green")
    );
    assert_eq!(acknowledged(), object(vec![("acknowledged", Json::Bool(true))]));
}

// Configuration

#[test]
fn command_line_goes_before_configuration() {
    let mut o = options();
    let c = config(vec![]);
    let plan = plan_pipeline(&o, &c, auto_exit(&o));
    assert_eq!(plan.workers, 4);
    assert_eq!(plan.flush_interval_ms, 50);
    assert_eq!(plan.queue, None);
    assert!(!plan.auto_exit_on_inputs_done);
    o.workers = Some(2);
    o.batch_size = Some(7);
    o.batch_delay = Some(9);
    o.config_string = Some("input {}".to_string());
    let mut c = c;
    c.queue_type = "persisted".to_string();
    c.dead_letters = true;
    let plan = plan_pipeline(&o, &c, auto_exit(&o));
    assert_eq!(plan.workers, 2);
    assert_eq!(plan.batch_size, 7);
    assert_eq!(plan.flush_interval_ms, 9);
    assert!(plan.auto_exit_on_inputs_done);
    assert_eq!(plan.queue, Some(DiskQueue { path: "queue".to_string(), max_bytes: 1024 }));
    assert_eq!(
        plan.dead_letter_queue,
        Some(DiskQueue { path: "dlq".to_string(), max_bytes: 2048 })
    );
}

#[test]
fn first_actions_in_their_order() {
    let mut o = options();
    assert_eq!(first_action(&o), FirstAction::Run);
    o.config = Some("a.conf".to_string());
    o.config_string = Some("input {}".to_string());
    assert_eq!(first_action(&o), FirstAction::Conflict);
    o.command = Some(Subcommand::ConfigTest("b.conf".to_string()));
    assert_eq!(first_action(&o), FirstAction::ConfigTest("b.conf".to_string()));
    o.command = Some(Subcommand::Version);
    assert_eq!(first_action(&o), FirstAction::Version);
    o.help = true;
    assert_eq!(first_action(&o), FirstAction::Help);
}

#[test]
fn configuration_test_takes_path_before_text() {
    let mut o = options();
    assert_eq!(test_action(&o), TestAction::Skip);
    o.config_test_and_exit = true;
    assert_eq!(test_action(&o), TestAction::Missing);
    o.config_string = Some("x".to_string());
    assert_eq!(test_action(&o), TestAction::Text("x".to_string()));
    o.config = Some("p".to_string());
    assert_eq!(test_action(&o), TestAction::Path("p".to_string()));
}

#[test]
fn flags_and_reloading() {
    assert!(is_yes("true") && is_yes("1"));
    assert!(!is_yes("yes") && !is_yes(""));
    let mut o = options();
    o.config_reload_automatic = Some("true".to_string());
    assert!(!reloads(&o));
    o.config = Some("a.conf".to_string());
    assert!(reloads(&o));
}

#[test]
fn pipeline_identifier_of_the_settings_yields_to_the_command_line() {
    let settings = vec![
        "just text".to_string(),
        "path.data: /tmp\n".to_string(),
        "pipeline.id: from-settings\n".to_string(),
    ];
    let id = read_pipeline_id_from_settings(&settings);
    assert_eq!(id, Some("from-settings".to_string()));
    assert_eq!(pipeline_id(false, "main", &id), "from-settings");
    assert_eq!(pipeline_id(true, "main", &id), "main");
    assert_eq!(pipeline_id(false, "main", &None), "main");
}

#[test]
fn settings_name_a_configuration() {
    assert_eq!(
        read_settings_yml("config.string: 'input {}'\npath.config: a.conf\n"),
        (Some("input {}".to_string()), None)
    );
    assert_eq!(read_settings_yml("path.config: a.conf"), (None, Some("a.conf".to_string())));
    assert_eq!(read_settings_yml("!x\npath.config: !y a.conf"), (None, Some("a.conf".to_string())));
    assert_eq!(read_settings_yml("!x path.config: a.conf"), (None, None));
    assert_eq!(read_settings_yml("config.string: 7\npath.config: [a]"), (None, None));
    assert_eq!(read_settings_yml("{ not yaml"), (None, None));
    assert_eq!(read_settings_yml("pipeline.workers: 2"), (None, None));
}

#[test]
fn configuration_is_looked_for_in_order() {
    let mut o = options();
    let none: Vec<String> = vec![];
    assert_eq!(load_config_from_cli(&o, &none, &vec![false; 9]), ConfigSource::Missing);
    let mut exist = vec![false; 9];
    exist[2] = true;
    exist[5] = true;
    assert_eq!(
        load_config_from_cli(&o, &none, &exist),
        ConfigSource::Path("logstash.conf".to_string())
    );
    assert_eq!(default_paths()[8], "/etc/ferro-stash/ferro-stash.conf");
    let settings = vec!["x: 1".to_string(), "path.config: b.conf".to_string()];
    assert_eq!(
        load_config_from_cli(&o, &settings, &exist),
        ConfigSource::Path("b.conf".to_string())
    );
    let settings = vec!["config.string: input".to_string()];
    assert_eq!(
        load_config_from_cli(&o, &settings, &exist),
        ConfigSource::SettingsText("input".to_string())
    );
    o.config = Some("c.conf".to_string());
    assert_eq!(
        load_config_from_cli(&o, &settings, &exist),
        ConfigSource::Path("c.conf".to_string())
    );
    o.config_string = Some("output".to_string());
    assert_eq!(
        load_config_from_cli(&o, &settings, &exist),
        ConfigSource::Text("output".to_string())
    );
}

#[test]
fn comments_are_no_pipelines() {
    assert!(!has_effective_lines(""));
    assert!(!has_effective_lines("  \n# a comment\r\n\t# another\n"));
    assert!(has_effective_lines("# a comment\n- pipeline.id: main\n"));
}

#[test]
fn lists_of_pipelines_that_cannot_be_used() {
    assert_eq!(
        check_pipelines_file("p.yml", &PipelinesFile::Unreadable("no".to_string(), true)),
        vec!["Failed to read pipelines yaml file at p.yml: no", "Permission denied"]
    );
    assert_eq!(
        check_pipelines_file("p.yml", &PipelinesFile::Content("# none".to_string())),
        vec!["Pipelines YAML file is empty. Location: p.yml"]
    );
    let fine = PipelinesFile::Content("- pipeline.id: a".to_string());
    assert!(check_pipelines_file("p.yml", &fine).is_empty());
    assert_eq!(check_pipelines_list("p.yml", &Ok(2)), None);
    assert_eq!(
        check_pipelines_list("p.yml", &Ok(0)).as_deref(),
        Some("Pipelines YAML file is empty. Location: p.yml")
    );
    assert_eq!(
        check_pipelines_list("p.yml", &Err("bad".to_string())).as_deref(),
        Some("Failed to parse contents of pipelines yaml file at p.yml: SyntaxError: bad")
    );
}

#[test]
fn listed_pipelines() {
    let mut entry = PipelineEntry {
        id: "p1".to_string(),
        config_path: None,
        config_string: None,
        workers: Some(3),
        batch_size: None,
    };
    assert_eq!(
        entry_source(&entry),
        Err("pipeline 'p1' has neither path.config nor config.string".to_string())
    );
    entry.config_path = Some("a.conf".to_string());
    assert_eq!(entry_source(&entry), Ok(ConfigSource::Path("a.conf".to_string())));
    entry.config_string = Some("input {}".to_string());
    assert_eq!(entry_source(&entry), Ok(ConfigSource::Text("input {}".to_string())));
    let mut o = options();
    o.workers = Some(1);
    o.batch_size = Some(5);
    let own = entry_options(&entry, &o);
    assert_eq!(own.workers, Some(3));
    assert_eq!(own.batch_size, Some(5));
    assert_eq!(own.pipeline_id, "p1");
    assert_eq!(own.api_enabled, "false");
    assert!(own.auto_exit);
}

#[test]
fn plugins_are_named_by_setting_or_place() {
    let mut c = config(vec![
        plugin("stdin", Json::Null),
        plugin("file", object(vec![("id", text("my-file"))])),
    ]);
    c.outputs.push(plugin("stdout", Json::Null));
    let plugins = extract_plugins(&c);
    let shown: Vec<(&str, &str, &str)> = plugins
        .iter()
        .map(|p| (p.id.as_str(), p.name.as_str(), p.plugin_type.as_str()))
        .collect();
    assert_eq!(
        shown,
        vec![
            ("stdin_0", "stdin", "input"),
            ("my-file", "file", "input"),
            ("stdout_0", "stdout", "output"),
        ]
    );
}

#[test]
fn configuration_without_inputs_is_refused() {
    assert_eq!(validate_config(&config(vec![])), Err("no inputs configured".to_string()));
    assert_eq!(validate_config(&config(vec![plugin("stdin", Json::Null)])), Ok(()));
}

#[test]
fn patterns_merge_their_files() {
    assert!(is_pattern("conf.d/*.conf") && is_pattern("a?.conf"));
    assert!(!is_pattern("a.conf"));
    let merged = merge_configs(
        "*.conf",
        config(vec![]),
        vec![
            config(vec![plugin("a", Json::Null)]),
            config(vec![plugin("b", Json::Null), plugin("c", Json::Null)]),
        ],
    )
    .unwrap();
    let names: Vec<&str> = merged.inputs.iter().map(|p| p.plugin_type.as_str()).collect();
    assert_eq!(names, vec!["a", "b", "c"]);
    assert_eq!(
        merge_configs("*.conf", config(vec![]), vec![]),
        Err("no config files matching pattern: *.conf".to_string())
    );
}

#[test]
fn stored_identifier_is_trimmed() {
    assert_eq!(stored_id(" abc\n"), Some("abc".to_string()));
    assert_eq!(stored_id(" \n"), None);
}

// Reloading

#[test]
fn bad_configurations_leave_the_running_one() {
    let mut s = ReloadState::new(config(vec![plugin("stdin", Json::Null)]));
    assert!(!s.started());
    assert_eq!(
        s.step(ReloadEvent::Changed(Err("syntax".to_string()))),
        ReloadAction::Keep
    );
    assert_eq!(s.step(ReloadEvent::Changed(Ok(config(vec![])))), ReloadAction::Keep);
    assert_eq!(s.config.inputs[0].plugin_type, "stdin");
    assert!(!s.is_reload);
    assert_eq!(
        s.step(ReloadEvent::Changed(Ok(config(vec![plugin("tcp", Json::Null)])))),
        ReloadAction::Restart
    );
    assert_eq!(s.config.inputs[0].plugin_type, "tcp");
    assert!(s.started());
    assert!(!s.started());
    assert_eq!(s.step(ReloadEvent::Exited), ReloadAction::Leave);
    assert_eq!(s.step(ReloadEvent::Shutdown), ReloadAction::Stop);
}

#[test]
fn changed_files_are_seen() {
    let a = vec![Some((1_i128, 2_u64)), None];
    assert!(!files_changed(&a, &vec![Some((1, 2)), None]));
    assert!(files_changed(&a, &vec![Some((1, 3)), None]));
    assert!(files_changed(&a, &vec![Some((2, 2)), None]));
    assert!(files_changed(&a, &vec![Some((1, 2)), Some((0, 0))]));
    assert!(files_changed(&a, &vec![Some((1, 2))]));
}

#[test]
fn ports_are_tried_one_after_the_other() {
    assert_eq!(bind_step(9600, 0, 10, BindFailure::Bind, "in use"), BindStep::Try(9601));
    assert_eq!(bind_step(9600, 8, 10, BindFailure::Listen, "in use"), BindStep::Try(9609));
    assert_eq!(
        bind_step(9600, 9, 10, BindFailure::Bind, "in use"),
        BindStep::GiveUp(
            "failed to bind monitoring API after 10 attempts (ports 9600-9609): in use".to_string()
        )
    );
    assert_eq!(bind_step(65530, 4, 10, BindFailure::Bind, "in use"), BindStep::Try(65535));
    assert_eq!(
        bind_step(9600, 9, 10, BindFailure::Socket, "no"),
        BindStep::GiveUp("socket creation failed: no".to_string())
    );
    assert_eq!(
        bind_step(9600, 9, 10, BindFailure::Listen, "no"),
        BindStep::GiveUp("listen failed: no".to_string())
    );
}

// Builds

#[test]
fn build_dates() {
    assert_eq!(rfc3339_utc(0), "1970-01-01T00:00:00Z");
    assert_eq!(rfc3339_utc(951_826_154), "2000-02-29T12:09:14Z");
    assert_eq!(rfc3339_utc(1_735_689_599), "2024-12-31T23:59:59Z");
    assert_eq!(rfc3339_utc(253_402_300_800), "10000-01-01T00:00:00Z");
}

#[test]
fn build_commits() {
    let sha = Some("abc123".to_string());
    assert_eq!(build_sha(&sha, false), "abc123");
    assert_eq!(build_sha(&sha, true), "abc123-dirty");
    assert_eq!(build_sha(&None, true), "unknown");
    assert_eq!(build_sha(&Some("unknown".to_string()), true), "unknown");
}
