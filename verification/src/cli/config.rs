//! What the command line, the settings and the configuration ask for.
use crate::cli::stats::{plugins_view, PluginInfo, PluginV};
use crate::codec::json::{get_text, opt_view, text_setting};
use crate::json::{Json, JsonV};
use crate::text::{
    chars_of, join2, join3, lines, lines_from, nat_text, same, starts_with, texts_view, trim,
    trim_text, u64_text,
};
use crate::cli::yaml::{parse_yaml, text_under, yaml_read, yaml_text, Yaml, YamlV};
use vstd::prelude::*;

verus! {

broadcast use vstd::string::group_string_axioms;

/// What was given on the command line.
#[derive(Debug, PartialEq, Eq)]
pub struct Options {
    pub help: bool,
    pub version: bool,
    pub command: Option<Subcommand>,
    /// Path of the configuration.
    pub config: Option<String>,
    /// The configuration itself.
    pub config_string: Option<String>,
    pub workers: Option<usize>,
    pub batch_size: Option<usize>,
    pub batch_delay: Option<u64>,
    pub pipeline_id: String,
    pub api_enabled: String,
    pub config_test_and_exit: bool,
    pub auto_exit: bool,
    pub config_reload_automatic: Option<String>,
}

/// Subcommands.
#[derive(Debug, PartialEq, Eq)]
pub enum Subcommand {
    /// Validate the configuration at a path and exit.
    ConfigTest(String),
    /// Show the version.
    Version,
}

/// A plugin in a configuration.
#[derive(Debug, PartialEq)]
pub struct PluginConfig {
    pub plugin_type: String,
    pub settings: Json,
}

/// A configuration.
#[derive(Debug, PartialEq)]
pub struct Config {
    pub inputs: Vec<PluginConfig>,
    pub filters: Vec<PluginConfig>,
    pub outputs: Vec<PluginConfig>,
    pub workers: usize,
    pub batch_size: usize,
    pub batch_delay_ms: u64,
    pub buffer_size: usize,
    pub queue_type: String,
    pub queue_path: String,
    pub queue_max_bytes: u64,
    pub dead_letters: bool,
    pub dead_letter_path: String,
    pub dead_letter_max_bytes: u64,
}

/// A queue on disk.
#[derive(Debug, PartialEq, Eq)]
pub struct DiskQueue {
    pub path: String,
    pub max_bytes: u64,
}

/// How a pipeline is to be run.
#[derive(Debug, PartialEq, Eq)]
pub struct PipelinePlan {
    pub id: String,
    pub workers: usize,
    pub max_events: usize,
    pub flush_interval_ms: u64,
    pub batch_size: usize,
    pub auto_exit_on_inputs_done: bool,
    /// The queue between inputs and filters; in memory where there is none.
    pub queue: Option<DiskQueue>,
    pub dead_letter_queue: Option<DiskQueue>,
}

/// Whether a queue is on disk, and where.
pub open spec fn is_queue(q: Option<DiskQueue>, on: bool, path: Seq<char>, max_bytes: u64) -> bool {
    match q {
        Some(d) => on && d.path@ == path && d.max_bytes == max_bytes,
        None => !on,
    }
}

/// A value of the command line before that of the configuration.
pub open spec fn over<T>(given: Option<T>, configured: T) -> T {
    match given {
        Some(x) => x,
        None => configured,
    }
}

/// How a pipeline is to be run: the command line goes before the configuration.
pub fn plan_pipeline(options: &Options, config: &Config, auto_exit: bool) -> (r: PipelinePlan)
    ensures
        r.id@ == options.pipeline_id@,
        r.workers == over(options.workers, config.workers),
        r.max_events == config.buffer_size,
        r.flush_interval_ms == over(options.batch_delay, config.batch_delay_ms),
        r.batch_size == over(options.batch_size, config.batch_size),
        r.auto_exit_on_inputs_done == auto_exit,
        is_queue(
            r.queue,
            config.queue_type@ == "persisted"@,
            config.queue_path@,
            config.queue_max_bytes,
        ),
        is_queue(
            r.dead_letter_queue,
            config.dead_letters,
            config.dead_letter_path@,
            config.dead_letter_max_bytes,
        ),
{
    let queue = if same(&config.queue_type, "persisted") {
        Some(DiskQueue { path: config.queue_path.clone(), max_bytes: config.queue_max_bytes })
    } else {
        None
    };
    let dead_letter_queue = if config.dead_letters {
        Some(
            DiskQueue {
                path: config.dead_letter_path.clone(),
                max_bytes: config.dead_letter_max_bytes,
            },
        )
    } else {
        None
    };
    PipelinePlan {
        id: options.pipeline_id.clone(),
        workers: match options.workers {
            Some(n) => n,
            None => config.workers,
        },
        max_events: config.buffer_size,
        flush_interval_ms: match options.batch_delay {
            Some(n) => n,
            None => config.batch_delay_ms,
        },
        batch_size: match options.batch_size {
            Some(n) => n,
            None => config.batch_size,
        },
        auto_exit_on_inputs_done: auto_exit,
        queue,
        dead_letter_queue,
    }
}

/// Whether a pipeline ends with its inputs: one given on the command line does,
/// and any does if asked for.
pub fn auto_exit(options: &Options) -> (r: bool)
    ensures
        r == (options.config_string is Some || options.auto_exit),
{
    options.config_string.is_some() || options.auto_exit
}

/// What to do first.
#[derive(Debug, PartialEq, Eq)]
pub enum FirstAction {
    Help,
    Version,
    /// Validate the configuration at a path and exit.
    ConfigTest(String),
    /// A path and a text were both given as configuration.
    Conflict,
    Run,
}

/// Whether `r` is what the options ask for first.
pub open spec fn is_first_action(r: FirstAction, options: Options) -> bool {
    if options.help {
        r is Help
    } else if options.version {
        r is Version
    } else {
        match options.command {
            Some(Subcommand::ConfigTest(p)) => r matches FirstAction::ConfigTest(q) && q@ == p@,
            Some(Subcommand::Version) => r is Version,
            None => if options.config is Some && options.config_string is Some {
                r is Conflict
            } else {
                r is Run
            },
        }
    }
}

/// What the options ask for first.
pub fn first_action(options: &Options) -> (r: FirstAction)
    ensures
        is_first_action(r, *options),
{
    if options.help {
        return FirstAction::Help;
    }
    if options.version {
        return FirstAction::Version;
    }
    match &options.command {
        Some(Subcommand::ConfigTest(p)) => FirstAction::ConfigTest(p.clone()),
        Some(Subcommand::Version) => FirstAction::Version,
        None => if options.config.is_some() && options.config_string.is_some() {
            FirstAction::Conflict
        } else {
            FirstAction::Run
        },
    }
}

/// What `config.test_and_exit` is to test.
#[derive(Debug, PartialEq, Eq)]
pub enum TestAction {
    /// Nothing was asked for.
    Skip,
    Path(String),
    Text(String),
    /// There is nothing to test.
    Missing,
}

/// Whether `r` is what the options ask to test: the path before the text.
pub open spec fn is_test_action(r: TestAction, options: Options) -> bool {
    if !options.config_test_and_exit {
        r is Skip
    } else {
        match (options.config, options.config_string) {
            (Some(p), _) => r matches TestAction::Path(q) && q@ == p@,
            (None, Some(s)) => r matches TestAction::Text(q) && q@ == s@,
            (None, None) => r is Missing,
        }
    }
}

/// What the options ask to test.
pub fn test_action(options: &Options) -> (r: TestAction)
    ensures
        is_test_action(r, *options),
{
    if !options.config_test_and_exit {
        return TestAction::Skip;
    }
    match (&options.config, &options.config_string) {
        (Some(p), _) => TestAction::Path(p.clone()),
        (None, Some(s)) => TestAction::Text(s.clone()),
        (None, None) => TestAction::Missing,
    }
}

/// Whether a flag's text says yes.
pub open spec fn says_yes(s: Seq<char>) -> bool {
    s == "true"@ || s == "1"@
}

pub fn is_yes(s: &str) -> (r: bool)
    ensures
        r == says_yes(s@),
{
    same(s, "true") || same(s, "1")
}

/// Whether the configuration is to be watched and reloaded: only one at a path
/// can be.
pub fn reloads(options: &Options) -> (r: bool)
    ensures
        r == ((options.config_reload_automatic matches Some(s) && says_yes(s@))
            && options.config is Some),
{
    match &options.config_reload_automatic {
        Some(s) => is_yes(s) && options.config.is_some(),
        None => false,
    }
}

/// The pipeline identifier that counts: one given on the command line, else one
/// of the settings, else the default.
pub fn pipeline_id(given: bool, of_options: &str, of_settings: &Option<String>) -> (r: String)
    ensures
        r@ == (if !given && *of_settings is Some {
            of_settings->0@
        } else {
            of_options@
        }),
{
    if !given {
        if let Some(s) = of_settings {
            return s.clone();
        }
    }
    of_options.to_owned()
}

/// A line that says something: neither empty nor a comment.
pub open spec fn is_effective(line: Seq<char>) -> bool {
    let t = trim_text(line);
    t.len() > 0 && !"#"@.is_prefix_of(t)
}

/// Whether a text has a line that says something.
pub fn has_effective_lines(content: &str) -> (r: bool)
    ensures
        r == has_effective(content@),
{
    let ls = lines(content);
    let ghost lv = lines_from(content@, 0, Seq::empty());
    let mut i: usize = 0;
    while i < ls.len()
        invariant
            i <= ls@.len(),
            lv == texts_view(ls@),
            lv == lines_from(content@, 0, Seq::empty()),
            forall|k: int| 0 <= k < i ==> !is_effective(#[trigger] lv[k]),
        decreases ls@.len() - i,
    {
        assert(lv[i as int] == ls@[i as int]@);
        let t = trim(&ls[i]);
        if !t.as_str().is_empty() && !starts_with(&t, "#") {
            return true;
        }
        i += 1;
    }
    false
}

/// A pipeline in the list of pipelines.
#[derive(Debug, PartialEq, Eq)]
pub struct PipelineEntry {
    pub id: String,
    pub config_path: Option<String>,
    pub config_string: Option<String>,
    pub workers: Option<usize>,
    pub batch_size: Option<usize>,
}

/// What came of reading the list of pipelines.
#[derive(Debug, PartialEq, Eq)]
pub enum PipelinesFile {
    /// It could not be read, and whether that was forbidden.
    Unreadable(String, bool),
    Content(String),
}

/// Why a list of pipelines holds none.
pub open spec fn no_pipelines(place: Seq<char>) -> Seq<char> {
    "Pipelines YAML file is empty. Location: "@ + place
}

/// Whether a text has a line that says something.
pub open spec fn has_effective(content: Seq<char>) -> bool {
    exists|i: int|
        #![trigger lines_from(content, 0, Seq::empty())[i]]
        0 <= i < lines_from(content, 0, Seq::empty()).len() && is_effective(
            lines_from(content, 0, Seq::empty())[i],
        )
}

/// What the operator is told of a list of pipelines that cannot be used, line by
/// line; nothing where it can be parsed.
pub open spec fn file_complaints(place: Seq<char>, file: PipelinesFile) -> Seq<Seq<char>> {
    match file {
        PipelinesFile::Unreadable(e, denied) => {
            let first = "Failed to read pipelines yaml file at "@ + place + ": "@ + e@;
            if denied {
                seq![first, "Permission denied"@]
            } else {
                seq![first]
            }
        },
        PipelinesFile::Content(c) => if has_effective(c@) {
            Seq::empty()
        } else {
            seq![no_pipelines(place)]
        },
    }
}

/// What the operator is told of a list of pipelines that cannot be used, line by
/// line; nothing where it can be parsed.
pub fn check_pipelines_file(place: &str, file: &PipelinesFile) -> (r: Vec<String>)
    ensures
        texts_view(r@) == file_complaints(place@, *file),
{
    let mut r: Vec<String> = Vec::new();
    match file {
        PipelinesFile::Unreadable(e, denied) => {
            r.push(
                join2(
                    &join3("Failed to read pipelines yaml file at ", place, ": "),
                    e,
                ),
            );
            if *denied {
                r.push("Permission denied".to_owned());
            }
        },
        PipelinesFile::Content(c) => {
            if !has_effective_lines(c) {
                r.push(join2("Pipelines YAML file is empty. Location: ", place));
            }
        },
    }
    assert(texts_view(r@) =~= file_complaints(place@, *file));
    r
}

/// Why a list of pipelines that was parsed, or could not be, cannot be used.
pub fn check_pipelines_list(place: &str, count: &Result<usize, String>) -> (r: Option<String>)
    ensures
        match (r, *count) {
            (None, Ok(n)) => n > 0,
            (Some(m), Ok(n)) => n == 0 && m@ == no_pipelines(place@),
            (Some(m), Err(e)) => m@ == "Failed to parse contents of pipelines yaml file at "@
                + place@ + ": SyntaxError: "@ + e@,
            (None, Err(_)) => false,
        },
{
    match count {
        Ok(n) => if *n == 0 {
            Some(join2("Pipelines YAML file is empty. Location: ", place))
        } else {
            None
        },
        Err(e) => Some(
            join2(
                &join3("Failed to parse contents of pipelines yaml file at ", place, ": SyntaxError: "),
                e,
            ),
        ),
    }
}

/// Where a configuration comes from.
#[derive(Debug, PartialEq, Eq)]
pub enum ConfigSource {
    /// The text itself.
    Text(String),
    /// The text in the settings file.
    SettingsText(String),
    /// A file, or files by a pattern.
    Path(String),
    Missing,
}

/// What a [`ConfigSource`] holds.
pub enum SourceV {
    Text(Seq<char>),
    SettingsText(Seq<char>),
    Path(Seq<char>),
    Missing,
}

impl View for ConfigSource {
    type V = SourceV;

    open spec fn view(&self) -> SourceV {
        match self {
            ConfigSource::Text(s) => SourceV::Text(s@),
            ConfigSource::SettingsText(s) => SourceV::SettingsText(s@),
            ConfigSource::Path(s) => SourceV::Path(s@),
            ConfigSource::Missing => SourceV::Missing,
        }
    }
}

/// Where the configuration of a listed pipeline comes from: its text before its
/// path.
pub fn entry_source(entry: &PipelineEntry) -> (r: Result<ConfigSource, String>)
    ensures
        match (r, entry.config_string, entry.config_path) {
            (Ok(s), Some(t), _) => s@ == SourceV::Text(t@),
            (Ok(s), None, Some(p)) => s@ == SourceV::Path(p@),
            (Err(e), None, None) => e@ == "pipeline '"@ + entry.id@
                + "' has neither path.config nor config.string"@,
            _ => false,
        },
{
    if let Some(t) = &entry.config_string {
        return Ok(ConfigSource::Text(t.clone()));
    }
    if let Some(p) = &entry.config_path {
        return Ok(ConfigSource::Path(p.clone()));
    }
    Err(join3("pipeline '", &entry.id, "' has neither path.config nor config.string"))
}

fn copy_text(s: &Option<String>) -> (r: Option<String>)
    ensures
        opt_view(r) == opt_view(*s),
{
    match s {
        Some(x) => Some(x.clone()),
        None => None,
    }
}

/// The options of a listed pipeline: its own values before those of the command
/// line. It ends with its inputs, and neither opens the monitoring API nor
/// reloads.
pub fn entry_options(entry: &PipelineEntry, options: &Options) -> (r: Options)
    ensures
        !r.help && !r.version && r.command is None && !r.config_test_and_exit && r.auto_exit,
        opt_view(r.config) == opt_view(entry.config_path),
        opt_view(r.config_string) == opt_view(entry.config_string),
        r.workers == (if entry.workers is Some {
            entry.workers
        } else {
            options.workers
        }),
        r.batch_size == (if entry.batch_size is Some {
            entry.batch_size
        } else {
            options.batch_size
        }),
        r.batch_delay == options.batch_delay,
        r.pipeline_id@ == entry.id@,
        r.api_enabled@ == "false"@,
        r.config_reload_automatic is None,
{
    Options {
        help: false,
        version: false,
        command: None,
        config: copy_text(&entry.config_path),
        config_string: copy_text(&entry.config_string),
        workers: match entry.workers {
            Some(n) => Some(n),
            None => options.workers,
        },
        batch_size: match entry.batch_size {
            Some(n) => Some(n),
            None => options.batch_size,
        },
        batch_delay: options.batch_delay,
        pipeline_id: entry.id.clone(),
        api_enabled: "false".to_owned(),
        config_test_and_exit: false,
        auto_exit: true,
        config_reload_automatic: None,
    }
}

/// The identifier of a plugin: the one that its settings give, or its type and
/// its place.
pub open spec fn plugin_id(plugin_type: Seq<char>, settings: JsonV, i: int) -> Seq<char> {
    match text_setting(settings, "id"@) {
        Some(s) => s,
        None => plugin_type + "_"@ + nat_text(i as nat),
    }
}

/// The plugins of a kind as the monitoring API shows them.
pub open spec fn shown_plugins(plugins: Seq<PluginConfig>, kind: Seq<char>) -> Seq<PluginV> {
    Seq::new(
        plugins.len(),
        |i: int|
            PluginV {
                id: plugin_id(plugins[i].plugin_type@, plugins[i].settings.view(), i),
                name: plugins[i].plugin_type@,
                plugin_type: kind,
            },
    )
}

fn add_plugins(out: &mut Vec<PluginInfo>, plugins: &Vec<PluginConfig>, kind: &str)
    ensures
        plugins_view(final(out)@) == plugins_view(old(out)@) + shown_plugins(plugins@, kind@),
{
    let ghost before = plugins_view(out@);
    let ghost more = shown_plugins(plugins@, kind@);
    let mut i: usize = 0;
    while i < plugins.len()
        invariant
            i <= plugins@.len(),
            more == shown_plugins(plugins@, kind@),
            plugins_view(out@) =~= before + more.subrange(0, i as int),
        decreases plugins@.len() - i,
    {
        let p = &plugins[i];
        let id = match get_text(&p.settings, "id") {
            Some(s) => s,
            None => join3(&p.plugin_type, "_", &u64_text(i as u64)),
        };
        let info = PluginInfo {
            id,
            name: p.plugin_type.clone(),
            plugin_type: kind.to_owned(),
        };
        assert(info@ == more[i as int]);
        let ghost so_far = plugins_view(out@);
        out.push(info);
        assert(plugins_view(out@) =~= so_far.push(info@));
        i += 1;
    }
    assert(more.subrange(0, i as int) =~= more);
}

/// The plugins of a configuration, inputs first, then filters, then outputs.
pub fn extract_plugins(config: &Config) -> (r: Vec<PluginInfo>)
    ensures
        plugins_view(r@) == shown_plugins(config.inputs@, "input"@) + shown_plugins(
            config.filters@,
            "filter"@,
        ) + shown_plugins(config.outputs@, "output"@),
{
    let mut out: Vec<PluginInfo> = Vec::new();
    assert(plugins_view(out@) + shown_plugins(config.inputs@, "input"@) =~= shown_plugins(
        config.inputs@,
        "input"@,
    ));
    add_plugins(&mut out, &config.inputs, "input");
    add_plugins(&mut out, &config.filters, "filter");
    add_plugins(&mut out, &config.outputs, "output");
    out
}

/// Refuses a configuration without inputs. Without outputs, events are
/// discarded, which is allowed.
pub fn validate_config(config: &Config) -> (r: Result<(), String>)
    ensures
        match r {
            Ok(_) => config.inputs@.len() > 0,
            Err(e) => config.inputs@.len() == 0 && e@ == "no inputs configured"@,
        },
{
    if config.inputs.len() == 0 {
        return Err("no inputs configured".to_owned());
    }
    Ok(())
}

/// The configuration, or else the path of it, that a settings file names.
pub open spec fn settings_of(v: YamlV) -> (Option<Seq<char>>, Option<Seq<char>>) {
    match text_under(v, "config.string"@) {
        Some(s) => (Some(s), None),
        None => (None, text_under(v, "path.config"@)),
    }
}

/// The configuration, or else the path of it, that a settings file names.
pub fn find_settings(v: &Yaml) -> (r: (Option<String>, Option<String>))
    ensures
        (opt_view(r.0), opt_view(r.1)) == settings_of(v.view()),
{
    match v.text("config.string") {
        Some(s) => (Some(s), None),
        None => (None, v.text("path.config")),
    }
}

/// The configuration, or else the path of it, that the text of a settings file
/// names; neither where it is not YAML.
pub fn read_settings_yml(content: &str) -> (r: (Option<String>, Option<String>))
    ensures
        (opt_view(r.0), opt_view(r.1)) == (match yaml_read(content@) {
            Some(v) => settings_of(v),
            None => (None, None),
        }),
        r.0 is None || r.1 is None,
{
    match parse_yaml(content) {
        Some(v) => find_settings(&v),
        None => (None, None),
    }
}

/// The first settings file from `i` on that names a pipeline identifier.
pub open spec fn first_id(contents: Seq<Seq<char>>, i: int) -> Option<Seq<char>>
    decreases contents.len() - i,
{
    if i < 0 || i >= contents.len() {
        None
    } else {
        match yaml_text(contents[i], "pipeline.id"@) {
            Some(s) => Some(s),
            None => first_id(contents, i + 1),
        }
    }
}

/// The pipeline identifier that the settings files name, the first that does.
pub fn read_pipeline_id_from_settings(contents: &Vec<String>) -> (r: Option<String>)
    ensures
        opt_view(r) == first_id(texts_view(contents@), 0),
{
    let ghost cv = texts_view(contents@);
    let mut i: usize = 0;
    while i < contents.len()
        invariant
            i <= contents@.len(),
            cv == texts_view(contents@),
            first_id(cv, 0) == first_id(cv, i as int),
        decreases contents@.len() - i,
    {
        assert(cv[i as int] == contents@[i as int]@);
        if let Some(v) = parse_yaml(&contents[i]) {
            if let Some(s) = v.text("pipeline.id") {
                return Some(s);
            }
        }
        i += 1;
    }
    None
}

/// The files that are looked for where no configuration is named, in order.
pub open spec fn default_paths_v() -> Seq<Seq<char>> {
    seq![
        "config/pipelines.yml"@,
        "pipeline/logstash.conf"@,
        "logstash.conf"@,
        "config/logstash.conf"@,
        "ferro-stash.conf"@,
        "ferro-stash.yml"@,
        "config/ferro-stash.conf"@,
        "config/ferro-stash.yml"@,
        "/etc/ferro-stash/ferro-stash.conf"@,
    ]
}

/// The files that are looked for where no configuration is named, in order.
pub fn default_paths() -> (r: Vec<&'static str>)
    ensures
        r@.map_values(|s: &'static str| s@) == default_paths_v(),
{
    let mut r: Vec<&'static str> = Vec::new();
    r.push("config/pipelines.yml");
    r.push("pipeline/logstash.conf");
    r.push("logstash.conf");
    r.push("config/logstash.conf");
    r.push("ferro-stash.conf");
    r.push("ferro-stash.yml");
    r.push("config/ferro-stash.conf");
    r.push("config/ferro-stash.yml");
    r.push("/etc/ferro-stash/ferro-stash.conf");
    assert(r@.map_values(|s: &'static str| s@) =~= default_paths_v());
    r
}

/// The configuration that the settings files from `i` on name: the first file
/// that names one, its text before its path.
pub open spec fn settings_source(contents: Seq<Seq<char>>, i: int) -> Option<SourceV>
    decreases contents.len() - i,
{
    if i < 0 || i >= contents.len() {
        None
    } else {
        match (
            yaml_text(contents[i], "config.string"@),
            yaml_text(contents[i], "path.config"@),
        ) {
            (Some(s), _) => Some(SourceV::SettingsText(s)),
            (None, Some(p)) => Some(SourceV::Path(p)),
            (None, None) => settings_source(contents, i + 1),
        }
    }
}

/// The first path from `i` on that exists.
pub open spec fn first_existing(paths: Seq<Seq<char>>, exist: Seq<bool>, i: int) -> Option<
    Seq<char>,
>
    decreases paths.len() - i,
{
    if i < 0 || i >= paths.len() || i >= exist.len() {
        None
    } else if exist[i] {
        Some(paths[i])
    } else {
        first_existing(paths, exist, i + 1)
    }
}

/// Where the configuration comes from: the text on the command line, the path
/// on the command line, what the settings files name, or the first default path
/// that exists.
pub open spec fn source_of(
    text: Option<Seq<char>>,
    path: Option<Seq<char>>,
    settings: Seq<Seq<char>>,
    exist: Seq<bool>,
) -> SourceV {
    match (text, path) {
        (Some(s), _) => SourceV::Text(s),
        (None, Some(p)) => SourceV::Path(p),
        (None, None) => match settings_source(settings, 0) {
            Some(s) => s,
            None => match first_existing(default_paths_v(), exist, 0) {
                Some(p) => SourceV::Path(p),
                None => SourceV::Missing,
            },
        },
    }
}

/// Where the configuration comes from, given the contents of the settings files
/// that exist and which of the default paths exist.
pub fn load_config_from_cli(options: &Options, settings: &Vec<String>, exist: &Vec<bool>) -> (r:
    ConfigSource)
    ensures
        r@ == source_of(
            opt_view(options.config_string),
            opt_view(options.config),
            texts_view(settings@),
            exist@,
        ),
{
    if let Some(s) = &options.config_string {
        return ConfigSource::Text(s.clone());
    }
    if let Some(p) = &options.config {
        return ConfigSource::Path(p.clone());
    }
    let ghost sv = texts_view(settings@);
    let mut i: usize = 0;
    while i < settings.len()
        invariant
            i <= settings@.len(),
            sv == texts_view(settings@),
            settings_source(sv, 0) == settings_source(sv, i as int),
            options.config_string is None,
            options.config is None,
        decreases settings@.len() - i,
    {
        assert(sv[i as int] == settings@[i as int]@);
        let (text, path) = read_settings_yml(&settings[i]);
        if let Some(s) = text {
            return ConfigSource::SettingsText(s);
        }
        if let Some(p) = path {
            return ConfigSource::Path(p);
        }
        i += 1;
    }
    let paths = default_paths();
    let ghost pv = default_paths_v();
    i = 0;
    while i < paths.len() && i < exist.len()
        invariant
            i <= paths@.len(),
            i <= exist@.len(),
            pv == default_paths_v(),
            paths@.map_values(|s: &'static str| s@) == pv,
            first_existing(pv, exist@, 0) == first_existing(pv, exist@, i as int),
            settings_source(texts_view(settings@), 0) is None,
            options.config_string is None,
            options.config is None,
        decreases paths@.len() - i,
    {
        assert(pv[i as int] == paths@[i as int]@);
        if exist[i] {
            return ConfigSource::Path(paths[i].to_owned());
        }
        i += 1;
    }
    ConfigSource::Missing
}

/// Whether a path is a pattern for several files.
pub fn is_pattern(path: &str) -> (r: bool)
    ensures
        r == (path@.contains('*') || path@.contains('?')),
{
    let c = chars_of(path);
    let mut i: usize = 0;
    while i < c.len()
        invariant
            i <= c@.len(),
            c@ == path@,
            forall|k: int| 0 <= k < i ==> #[trigger] c@[k] != '*' && c@[k] != '?',
        decreases c@.len() - i,
    {
        if c[i] == '*' || c[i] == '?' {
            assert(path@[i as int] == c@[i as int]);
            return true;
        }
        i += 1;
    }
    assert(forall|k: int| 0 <= k < path@.len() ==> #[trigger] path@[k] == c@[k]);
    false
}

/// The plugins of configurations from `i` on, one after the other, by `part`.
pub open spec fn joined(
    configs: Seq<Config>,
    part: spec_fn(Config) -> Seq<PluginConfig>,
    i: int,
) -> Seq<PluginConfig>
    decreases configs.len() - i,
{
    if i < 0 || i >= configs.len() {
        Seq::empty()
    } else {
        part(configs[i]) + joined(configs, part, i + 1)
    }
}

fn append_plugins(to: &mut Vec<PluginConfig>, from: Vec<PluginConfig>)
    ensures
        final(to)@ == old(to)@ + from@,
{
    let mut more = from;
    to.append(&mut more);
}

/// The configuration of several files, each matched by a pattern: their plugins
/// one after the other, all else as in `base`.
pub fn merge_configs(path: &str, base: Config, configs: Vec<Config>) -> (r: Result<Config, String>)
    ensures
        match r {
            Ok(c) => configs@.len() > 0 && c.inputs@ == base.inputs@ + joined(
                configs@,
                |x: Config| x.inputs@,
                0,
            ) && c.filters@ == base.filters@ + joined(configs@, |x: Config| x.filters@, 0)
                && c.outputs@ == base.outputs@ + joined(configs@, |x: Config| x.outputs@, 0)
                && c.workers == base.workers && c.batch_size == base.batch_size && c.batch_delay_ms
                == base.batch_delay_ms && c.buffer_size == base.buffer_size && c.queue_type
                == base.queue_type && c.queue_path == base.queue_path && c.queue_max_bytes
                == base.queue_max_bytes && c.dead_letters == base.dead_letters
                && c.dead_letter_path == base.dead_letter_path && c.dead_letter_max_bytes
                == base.dead_letter_max_bytes,
            Err(e) => configs@.len() == 0 && e@ == "no config files matching pattern: "@ + path@,
        },
{
    if configs.len() == 0 {
        return Err(join2("no config files matching pattern: ", path));
    }
    let ghost all = configs@;
    let ghost f_in = |x: Config| x.inputs@;
    let ghost f_filter = |x: Config| x.filters@;
    let ghost f_out = |x: Config| x.outputs@;
    let mut rest = configs;
    let mut merged = base;
    let mut i: usize = 0;
    let n: usize = rest.len();
    while i < n
        invariant
            i <= n,
            n == all.len(),
            rest@ =~= all.subrange(i as int, n as int),
            f_in == |x: Config| x.inputs@,
            f_filter == |x: Config| x.filters@,
            f_out == |x: Config| x.outputs@,
            merged == (Config {
                inputs: merged.inputs,
                filters: merged.filters,
                outputs: merged.outputs,
                ..base
            }),
            merged.inputs@ + joined(all, f_in, i as int) =~= base.inputs@ + joined(all, f_in, 0),
            merged.filters@ + joined(all, f_filter, i as int) =~= base.filters@ + joined(
                all,
                f_filter,
                0,
            ),
            merged.outputs@ + joined(all, f_out, i as int) =~= base.outputs@ + joined(
                all,
                f_out,
                0,
            ),
        decreases n - i,
    {
        let c = rest.remove(0);
        assert(c == all[i as int]);
        append_plugins(&mut merged.inputs, c.inputs);
        append_plugins(&mut merged.filters, c.filters);
        append_plugins(&mut merged.outputs, c.outputs);
        i += 1;
    }
    Ok(merged)
}

/// The identifier of the instance that a file holds, if it holds one.
pub fn stored_id(existing: &str) -> (r: Option<String>)
    ensures
        match r {
            Some(s) => s@ == trim_text(existing@) && s@.len() > 0,
            None => trim_text(existing@).len() == 0,
        },
{
    let s = trim(existing);
    if s.as_str().is_empty() {
        None
    } else {
        Some(s)
    }
}

/// The command line decides before everything else, and text before path; an
/// empty environment names no configuration.
pub proof fn command_line_goes_first(
    text: Seq<char>,
    path: Option<Seq<char>>,
    settings: Seq<Seq<char>>,
    exist: Seq<bool>,
)
    ensures
        source_of(Some(text), path, settings, exist) == SourceV::Text(text),
        path is Some ==> source_of(None, path, settings, exist) == SourceV::Path(path->0),
        source_of(None, None, Seq::empty(), Seq::empty()) == SourceV::Missing,
{
}

} // verus!
