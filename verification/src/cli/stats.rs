//! What the monitoring API shows.
use crate::codec::json::opt_view;
use crate::double::{Double, DoubleV};
use crate::json::{entries_view, jsons_view, text_value, Json, JsonV};
use crate::text::{join3, same};
use vstd::prelude::*;

verus! {

broadcast use vstd::string::group_string_axioms;

/// A plugin of the pipeline.
#[derive(Debug, PartialEq, Eq)]
pub struct PluginInfo {
    pub id: String,
    pub name: String,
    /// `input`, `filter` or `output`.
    pub plugin_type: String,
}

/// What a [`PluginInfo`] holds.
pub struct PluginV {
    pub id: Seq<char>,
    pub name: Seq<char>,
    pub plugin_type: Seq<char>,
}

impl View for PluginInfo {
    type V = PluginV;

    open spec fn view(&self) -> PluginV {
        PluginV { id: self.id@, name: self.name@, plugin_type: self.plugin_type@ }
    }
}

pub open spec fn plugins_view(s: Seq<PluginInfo>) -> Seq<PluginV> {
    s.map_values(|p: PluginInfo| p@)
}

/// Counters of an instance or a pipeline. The rates, in events per second, are
/// the bit patterns of doubles.
#[derive(Debug, PartialEq, Eq)]
pub struct Snapshot {
    pub events_in: u64,
    pub events_out: u64,
    pub events_filtered: u64,
    pub uptime_millis: u64,
    pub reload_successes: u64,
    pub reload_failures: u64,
    pub last_reload_success: Option<String>,
    pub last_reload_failure: Option<String>,
    pub input_rate: u64,
    pub output_rate: u64,
    pub filter_rate: u64,
}

/// What a [`Snapshot`] holds.
pub struct SnapshotV {
    pub events_in: u64,
    pub events_out: u64,
    pub events_filtered: u64,
    pub uptime_millis: u64,
    pub reload_successes: u64,
    pub reload_failures: u64,
    pub last_reload_success: Option<Seq<char>>,
    pub last_reload_failure: Option<Seq<char>>,
    pub input_rate: u64,
    pub output_rate: u64,
    pub filter_rate: u64,
}

impl View for Snapshot {
    type V = SnapshotV;

    open spec fn view(&self) -> SnapshotV {
        SnapshotV {
            events_in: self.events_in,
            events_out: self.events_out,
            events_filtered: self.events_filtered,
            uptime_millis: self.uptime_millis,
            reload_successes: self.reload_successes,
            reload_failures: self.reload_failures,
            last_reload_success: opt_view(self.last_reload_success),
            last_reload_failure: opt_view(self.last_reload_failure),
            input_rate: self.input_rate,
            output_rate: self.output_rate,
            filter_rate: self.filter_rate,
        }
    }
}

/// What the machine and the process say of themselves.
#[derive(Debug, PartialEq, Eq)]
pub struct NodeFacts {
    pub host: String,
    pub version: String,
    pub os: String,
    pub arch: String,
    pub workers: u64,
    pub pid: u32,
}

/// What [`NodeFacts`] hold.
pub struct FactsV {
    pub host: Seq<char>,
    pub version: Seq<char>,
    pub os: Seq<char>,
    pub arch: Seq<char>,
    pub workers: u64,
    pub pid: u32,
}

impl View for NodeFacts {
    type V = FactsV;

    open spec fn view(&self) -> FactsV {
        FactsV {
            host: self.host@,
            version: self.version@,
            os: self.os@,
            arch: self.arch@,
            workers: self.workers,
            pid: self.pid,
        }
    }
}

/// A count as a JSON number.
pub open spec fn count_v(n: u64) -> JsonV {
    if n <= i64::MAX {
        JsonV::Int(n as i64)
    } else {
        JsonV::UInt(n)
    }
}

fn make_count(n: u64) -> (r: Json)
    ensures
        r.view() == count_v(n),
{
    if n <= i64::MAX as u64 {
        Json::Int(n as i64)
    } else {
        Json::UInt(n)
    }
}

/// A text, or null.
pub open spec fn opt_v(s: Option<Seq<char>>) -> JsonV {
    match s {
        Some(x) => JsonV::Str(x),
        None => JsonV::Null,
    }
}

fn make_opt(s: &Option<String>) -> (r: Json)
    ensures
        r.view() == opt_v(opt_view(*s)),
{
    match s {
        Some(x) => text_value(x),
        None => Json::Null,
    }
}

/// The double whose bit pattern this is.
pub open spec fn rate_v(bits: u64) -> JsonV {
    JsonV::Float(DoubleV::Bits(bits))
}

fn make_rate(bits: u64) -> (r: Json)
    ensures
        r.view() == rate_v(bits),
{
    Json::Float(Double::Bits(bits))
}

/// The double zero.
pub open spec fn zero() -> JsonV {
    JsonV::Float(DoubleV::Bits(0))
}

fn make_zero() -> (r: Json)
    ensures
        r.view() == zero(),
{
    Json::Float(Double::Bits(0))
}

/// The double one.
pub open spec fn one() -> JsonV {
    JsonV::Float(DoubleV::Bits(0x3ff0_0000_0000_0000))
}

fn make_one() -> (r: Json)
    ensures
        r.view() == one(),
{
    Json::Float(Double::Bits(0x3ff0_0000_0000_0000))
}

/// A value now and over the lifetime.
pub open spec fn twice_v(v: JsonV) -> JsonV {
    JsonV::Object(no_entries().push(("current"@, v)).push(("lifetime"@, v)))
}

fn twice(v: Json) -> (r: Json)
    ensures
        r.view() == twice_v(v.view()),
{
    let mut p = no_members();
    push_member(&mut p, "current", v.copy());
    push_member(&mut p, "lifetime", v);
    Json::Object(p)
}

pub open spec fn no_entries() -> Seq<(Seq<char>, JsonV)> {
    Seq::empty()
}

pub open spec fn no_values() -> Seq<JsonV> {
    Seq::empty()
}

fn no_members() -> (r: Vec<(String, Json)>)
    ensures
        entries_view(r@) == no_entries(),
{
    let r: Vec<(String, Json)> = Vec::new();
    assert(entries_view(r@) =~= Seq::<(Seq<char>, JsonV)>::empty());
    r
}

fn push_member(p: &mut Vec<(String, Json)>, k: &str, v: Json)
    ensures
        entries_view(final(p)@) == entries_view(old(p)@).push((k@, v.view())),
{
    let ghost before = entries_view(p@);
    let ghost w = v.view();
    p.push((k.to_owned(), v));
    assert(entries_view(p@) =~= before.push((k@, w)));
}

fn no_items() -> (r: Vec<Json>)
    ensures
        jsons_view(r@) == no_values(),
{
    let r: Vec<Json> = Vec::new();
    assert(jsons_view(r@) =~= Seq::<JsonV>::empty());
    r
}

fn push_item(a: &mut Vec<Json>, v: Json)
    ensures
        jsons_view(final(a)@) == jsons_view(old(a)@).push(v.view()),
{
    let ghost before = jsons_view(a@);
    let ghost w = v.view();
    a.push(v);
    assert(jsons_view(a@) =~= before.push(w));
}

/// The rates at which events flow.
pub open spec fn flow_v(snap: SnapshotV) -> JsonV {
    JsonV::Object(
        no_entries()
            .push(("input_throughput"@, twice_v(rate_v(snap.input_rate))))
            .push(("output_throughput"@, twice_v(rate_v(snap.output_rate))))
            .push(("filter_throughput"@, twice_v(rate_v(snap.filter_rate))))
            .push(("queue_backpressure"@, twice_v(zero())))
            .push(("worker_concurrency"@, twice_v(one())))
            .push(("worker_utilization"@, twice_v(zero())))
            .push(("worker_millis_per_event"@, twice_v(zero())))
    )
}

/// The rates at which events flow.
pub fn flow(snap: &Snapshot) -> (r: Json)
    ensures
        r.view() == flow_v(snap@),
{
    let mut body = no_members();
    push_member(&mut body, "input_throughput", twice(make_rate(snap.input_rate)));
    push_member(&mut body, "output_throughput", twice(make_rate(snap.output_rate)));
    push_member(&mut body, "filter_throughput", twice(make_rate(snap.filter_rate)));
    push_member(&mut body, "queue_backpressure", twice(make_zero()));
    push_member(&mut body, "worker_concurrency", twice(make_one()));
    push_member(&mut body, "worker_utilization", twice(make_zero()));
    push_member(&mut body, "worker_millis_per_event", twice(make_zero()));
    Json::Object(body)
}

/// The counts of events.
pub open spec fn event_counts_v(snap: SnapshotV, uptime_ms: u64) -> JsonV {
    JsonV::Object(
        no_entries()
            .push(("in"@, count_v(snap.events_in)))
            .push(("out"@, count_v(snap.events_out)))
            .push(("filtered"@, count_v(snap.events_filtered)))
            .push(("duration_in_millis"@, count_v(uptime_ms)))
            .push(("queue_push_duration_in_millis"@, JsonV::Int(0)))
    )
}

/// The counts of events.
pub fn event_counts(snap: &Snapshot, uptime_ms: u64) -> (r: Json)
    ensures
        r.view() == event_counts_v(snap@, uptime_ms),
{
    let mut body = no_members();
    push_member(&mut body, "in", make_count(snap.events_in));
    push_member(&mut body, "out", make_count(snap.events_out));
    push_member(&mut body, "filtered", make_count(snap.events_filtered));
    push_member(&mut body, "duration_in_millis", make_count(uptime_ms));
    push_member(&mut body, "queue_push_duration_in_millis", Json::Int(0));
    Json::Object(body)
}

/// An input as the statistics show it.
pub open spec fn input_plugin_v(snap: SnapshotV, p: PluginV) -> JsonV {
    JsonV::Object(
        no_entries()
            .push(("id"@, JsonV::Str(p.id)))
            .push(("name"@, JsonV::Str(p.name)))
            .push(("events"@, JsonV::Object(
                no_entries()
                    .push(("in"@, JsonV::Int(0)))
                    .push(("out"@, count_v(snap.events_in)))
            )))
            .push(("flow"@, JsonV::Object(
                no_entries()
                    .push(("throughput"@, twice_v(rate_v(snap.input_rate))))
            )))
    )
}

/// An input as the statistics show it.
pub fn input_plugin(snap: &Snapshot, p: &PluginInfo) -> (r: Json)
    ensures
        r.view() == input_plugin_v(snap@, p@),
{
    let mut events = no_members();
    push_member(&mut events, "in", Json::Int(0));
    push_member(&mut events, "out", make_count(snap.events_in));
    let mut flow = no_members();
    push_member(&mut flow, "throughput", twice(make_rate(snap.input_rate)));
    let mut body = no_members();
    push_member(&mut body, "id", text_value(&p.id));
    push_member(&mut body, "name", text_value(&p.name));
    push_member(&mut body, "events", Json::Object(events));
    push_member(&mut body, "flow", Json::Object(flow));
    Json::Object(body)
}

/// A filter as the statistics show it.
pub open spec fn filter_plugin_v(snap: SnapshotV, p: PluginV) -> JsonV {
    JsonV::Object(
        no_entries()
            .push(("id"@, JsonV::Str(p.id)))
            .push(("name"@, JsonV::Str(p.name)))
            .push(("events"@, JsonV::Object(
                no_entries()
                    .push(("in"@, count_v(snap.events_in)))
                    .push(("out"@, count_v(snap.events_out)))
            )))
            .push(("flow"@, JsonV::Object(
                no_entries()
                    .push(("worker_utilization"@, twice_v(zero())))
                    .push(("worker_millis_per_event"@, twice_v(zero())))
            )))
    )
}

/// A filter as the statistics show it.
pub fn filter_plugin(snap: &Snapshot, p: &PluginInfo) -> (r: Json)
    ensures
        r.view() == filter_plugin_v(snap@, p@),
{
    let mut events = no_members();
    push_member(&mut events, "in", make_count(snap.events_in));
    push_member(&mut events, "out", make_count(snap.events_out));
    let mut flow = no_members();
    push_member(&mut flow, "worker_utilization", twice(make_zero()));
    push_member(&mut flow, "worker_millis_per_event", twice(make_zero()));
    let mut body = no_members();
    push_member(&mut body, "id", text_value(&p.id));
    push_member(&mut body, "name", text_value(&p.name));
    push_member(&mut body, "events", Json::Object(events));
    push_member(&mut body, "flow", Json::Object(flow));
    Json::Object(body)
}

/// An output as the statistics show it.
pub open spec fn output_plugin_v(snap: SnapshotV, p: PluginV) -> JsonV {
    JsonV::Object(
        no_entries()
            .push(("id"@, JsonV::Str(p.id)))
            .push(("name"@, JsonV::Str(p.name)))
            .push(("events"@, JsonV::Object(
                no_entries()
                    .push(("in"@, count_v(snap.events_out)))
                    .push(("out"@, count_v(snap.events_out)))
            )))
            .push(("flow"@, JsonV::Object(
                no_entries()
                    .push(("worker_utilization"@, twice_v(zero())))
                    .push(("worker_millis_per_event"@, twice_v(zero())))
                    .push(("throughput"@, twice_v(rate_v(snap.output_rate))))
            )))
    )
}

/// An output as the statistics show it.
pub fn output_plugin(snap: &Snapshot, p: &PluginInfo) -> (r: Json)
    ensures
        r.view() == output_plugin_v(snap@, p@),
{
    let mut events = no_members();
    push_member(&mut events, "in", make_count(snap.events_out));
    push_member(&mut events, "out", make_count(snap.events_out));
    let mut flow = no_members();
    push_member(&mut flow, "worker_utilization", twice(make_zero()));
    push_member(&mut flow, "worker_millis_per_event", twice(make_zero()));
    push_member(&mut flow, "throughput", twice(make_rate(snap.output_rate)));
    let mut body = no_members();
    push_member(&mut body, "id", text_value(&p.id));
    push_member(&mut body, "name", text_value(&p.name));
    push_member(&mut body, "events", Json::Object(events));
    push_member(&mut body, "flow", Json::Object(flow));
    Json::Object(body)
}

/// A plugin as the statistics show it.
pub open spec fn plugin_v(snap: SnapshotV, p: PluginV) -> JsonV {
    if p.plugin_type == "input"@ {
        input_plugin_v(snap, p)
    } else if p.plugin_type == "filter"@ {
        filter_plugin_v(snap, p)
    } else {
        output_plugin_v(snap, p)
    }
}

/// The plugins of a type from `i` on, behind `acc`.
pub open spec fn plugins_of(
    snap: SnapshotV,
    kind: Seq<char>,
    plugins: Seq<PluginV>,
    i: int,
    acc: Seq<JsonV>,
) -> Seq<JsonV>
    decreases plugins.len() - i,
{
    if i < 0 || i >= plugins.len() {
        acc
    } else {
        plugins_of(
            snap,
            kind,
            plugins,
            i + 1,
            if plugins[i].plugin_type == kind {
                acc.push(plugin_v(snap, plugins[i]))
            } else {
                acc
            },
        )
    }
}

fn list_plugins(snap: &Snapshot, kind: &str, plugins: &Vec<PluginInfo>) -> (r: Vec<Json>)
    ensures
        jsons_view(r@) == plugins_of(snap@, kind@, plugins_view(plugins@), 0, no_values()),
{
    let ghost pv = plugins_view(plugins@);
    let mut out = no_items();
    let mut i: usize = 0;
    while i < plugins.len()
        invariant
            i <= plugins@.len(),
            pv == plugins_view(plugins@),
            plugins_of(snap@, kind@, pv, 0, no_values()) == plugins_of(
                snap@,
                kind@,
                pv,
                i as int,
                jsons_view(out@),
            ),
        decreases plugins@.len() - i,
    {
        assert(pv[i as int] == plugins@[i as int]@);
        let p = &plugins[i];
        if same(&p.plugin_type, kind) {
            let v = if same(&p.plugin_type, "input") {
                input_plugin(snap, p)
            } else if same(&p.plugin_type, "filter") {
                filter_plugin(snap, p)
            } else {
                output_plugin(snap, p)
            };
            push_item(&mut out, v);
        }
        i += 1;
    }
    out
}

/// The statistics of a pipeline.
pub open spec fn build_pipeline_stats_v(
    snap: SnapshotV,
    uptime_ms: u64,
    plugins: Seq<PluginV>,
) -> JsonV {
    JsonV::Object(
        no_entries()
            .push(("events"@, event_counts_v(snap, uptime_ms)))
            .push(("plugins"@, JsonV::Object(
                no_entries()
                    .push(("inputs"@, JsonV::Array(plugins_of(snap, "input"@, plugins, 0, no_values()))))
                    .push(("filters"@, JsonV::Array(plugins_of(snap, "filter"@, plugins, 0, no_values()))))
                    .push(("outputs"@, JsonV::Array(plugins_of(snap, "output"@, plugins, 0, no_values()))))
            )))
            .push(("reloads"@, JsonV::Object(
                no_entries()
                    .push(("successes"@, count_v(snap.reload_successes)))
                    .push(("failures"@, count_v(snap.reload_failures)))
                    .push(("last_error"@, JsonV::Null))
                    .push(("last_success_timestamp"@, opt_v(snap.last_reload_success)))
                    .push(("last_failure_timestamp"@, opt_v(snap.last_reload_failure)))
            )))
            .push(("queue"@, JsonV::Object(
                no_entries()
                    .push(("type"@, JsonV::Str("memory"@)))
                    .push(("events_count"@, JsonV::Int(0)))
                    .push(("queue_size_in_bytes"@, JsonV::Int(0)))
                    .push(("max_queue_size_in_bytes"@, JsonV::Int(0)))
            )))
            .push(("flow"@, flow_v(snap)))
    )
}

/// The statistics of a pipeline.
pub fn build_pipeline_stats(
    snap: &Snapshot,
    uptime_ms: u64,
    plugins: &Vec<PluginInfo>,
) -> (r: Json)
    ensures
        r.view() == build_pipeline_stats_v(snap@, uptime_ms, plugins_view(plugins@)),
{
    let mut plugins2 = no_members();
    push_member(&mut plugins2, "inputs", Json::Array(list_plugins(snap, "input", plugins)));
    push_member(&mut plugins2, "filters", Json::Array(list_plugins(snap, "filter", plugins)));
    push_member(&mut plugins2, "outputs", Json::Array(list_plugins(snap, "output", plugins)));
    let mut reloads = no_members();
    push_member(&mut reloads, "successes", make_count(snap.reload_successes));
    push_member(&mut reloads, "failures", make_count(snap.reload_failures));
    push_member(&mut reloads, "last_error", Json::Null);
    push_member(&mut reloads, "last_success_timestamp", make_opt(&snap.last_reload_success));
    push_member(&mut reloads, "last_failure_timestamp", make_opt(&snap.last_reload_failure));
    let mut queue = no_members();
    push_member(&mut queue, "type", text_value("memory"));
    push_member(&mut queue, "events_count", Json::Int(0));
    push_member(&mut queue, "queue_size_in_bytes", Json::Int(0));
    push_member(&mut queue, "max_queue_size_in_bytes", Json::Int(0));
    let mut body = no_members();
    push_member(&mut body, "events", event_counts(snap, uptime_ms));
    push_member(&mut body, "plugins", Json::Object(plugins2));
    push_member(&mut body, "reloads", Json::Object(reloads));
    push_member(&mut body, "queue", Json::Object(queue));
    push_member(&mut body, "flow", flow(snap));
    Json::Object(body)
}

/// The statistics of all pipelines: `GET /_node/stats/pipelines`.
pub open spec fn pipeline_stats_all_v(
    snap: SnapshotV,
    pipeline_id: Seq<char>,
    plugins: Seq<PluginV>,
) -> JsonV {
    JsonV::Object(
        no_entries()
            .push(("pipelines"@, JsonV::Object(
                no_entries()
                    .push((pipeline_id, build_pipeline_stats_v(snap, snap.uptime_millis, plugins)))
            )))
    )
}

/// The statistics of all pipelines: `GET /_node/stats/pipelines`.
pub fn pipeline_stats_all(
    snap: &Snapshot,
    pipeline_id: &str,
    plugins: &Vec<PluginInfo>,
) -> (r: Json)
    ensures
        r.view() == pipeline_stats_all_v(snap@, pipeline_id@, plugins_view(plugins@)),
{
    let mut pipelines = no_members();
    push_member(&mut pipelines, pipeline_id, build_pipeline_stats(snap, snap.uptime_millis, plugins));
    let mut body = no_members();
    push_member(&mut body, "pipelines", Json::Object(pipelines));
    Json::Object(body)
}

/// The instance: `GET /`.
pub open spec fn root_body_v(
    facts: FactsV,
    instance_id: Seq<char>,
    ephemeral_id: Seq<char>,
) -> JsonV {
    JsonV::Object(
        no_entries()
            .push(("host"@, JsonV::Str(facts.host)))
            .push(("version"@, JsonV::Str(facts.version)))
            .push(("http_address"@, JsonV::Str("127.0.0.1:9600"@)))
            .push(("id"@, JsonV::Str(instance_id)))
            .push(("name"@, JsonV::Str(facts.host)))
            .push(("ephemeral_id"@, JsonV::Str(ephemeral_id)))
            .push(("status"@, JsonV::Str("green"@)))
            .push(("snapshot"@, JsonV::Bool(false)))
            .push(("pipeline"@, JsonV::Object(
                no_entries()
                    .push(("workers"@, count_v(facts.workers)))
                    .push(("batch_size"@, JsonV::Int(500)))
                    .push(("batch_delay"@, JsonV::Int(5000)))
            )))
            .push(("jvm"@, JsonV::Object(
                no_entries()
                    .push(("pid"@, JsonV::Int(facts.pid as i64)))
                    .push(("version"@, JsonV::Str("21.0.0"@)))
                    .push(("vm_vendor"@, JsonV::Str("FerroStash (Rust native)"@)))
                    .push(("mem"@, JsonV::Object(
                        no_entries()
                            .push(("heap_used_in_bytes"@, JsonV::Int(0)))
                            .push(("heap_max_in_bytes"@, JsonV::Int(0)))
                    )))
            )))
            .push(("build_date"@, JsonV::Str("2026-01-01T00:00:00Z"@)))
            .push(("build_sha"@, JsonV::Str("ferrostash"@)))
            .push(("build_snapshot"@, JsonV::Bool(false)))
    )
}

/// The instance: `GET /`.
pub fn root_body(facts: &NodeFacts, instance_id: &str, ephemeral_id: &str) -> (r: Json)
    ensures
        r.view() == root_body_v(facts@, instance_id@, ephemeral_id@),
{
    let mut pipeline = no_members();
    push_member(&mut pipeline, "workers", make_count(facts.workers));
    push_member(&mut pipeline, "batch_size", Json::Int(500));
    push_member(&mut pipeline, "batch_delay", Json::Int(5000));
    let mut mem = no_members();
    push_member(&mut mem, "heap_used_in_bytes", Json::Int(0));
    push_member(&mut mem, "heap_max_in_bytes", Json::Int(0));
    let mut jvm = no_members();
    push_member(&mut jvm, "pid", Json::Int(facts.pid as i64));
    push_member(&mut jvm, "version", text_value("21.0.0"));
    push_member(&mut jvm, "vm_vendor", text_value("FerroStash (Rust native)"));
    push_member(&mut jvm, "mem", Json::Object(mem));
    let mut body = no_members();
    push_member(&mut body, "host", text_value(&facts.host));
    push_member(&mut body, "version", text_value(&facts.version));
    push_member(&mut body, "http_address", text_value("127.0.0.1:9600"));
    push_member(&mut body, "id", text_value(instance_id));
    push_member(&mut body, "name", text_value(&facts.host));
    push_member(&mut body, "ephemeral_id", text_value(ephemeral_id));
    push_member(&mut body, "status", text_value("green"));
    push_member(&mut body, "snapshot", Json::Bool(false));
    push_member(&mut body, "pipeline", Json::Object(pipeline));
    push_member(&mut body, "jvm", Json::Object(jvm));
    push_member(&mut body, "build_date", text_value("2026-01-01T00:00:00Z"));
    push_member(&mut body, "build_sha", text_value("ferrostash"));
    push_member(&mut body, "build_snapshot", Json::Bool(false));
    Json::Object(body)
}

/// The node: `GET /_node`.
pub open spec fn node_info_v(
    facts: FactsV,
    instance_id: Seq<char>,
    pipeline_id: Seq<char>,
) -> JsonV {
    JsonV::Object(
        no_entries()
            .push(("id"@, JsonV::Str(instance_id)))
            .push(("name"@, JsonV::Str(facts.host)))
            .push(("version"@, JsonV::Str(facts.version)))
            .push(("status"@, JsonV::Str("green"@)))
            .push(("pipelines"@, JsonV::Object(
                no_entries()
                    .push((pipeline_id, JsonV::Object(
                        no_entries()
                            .push(("workers"@, count_v(facts.workers)))
                            .push(("batch_size"@, JsonV::Int(500)))
                            .push(("batch_delay"@, JsonV::Int(5000)))
                    )))
            )))
            .push(("os"@, JsonV::Object(
                no_entries()
                    .push(("name"@, JsonV::Str(facts.os)))
                    .push(("arch"@, JsonV::Str(facts.arch)))
            )))
    )
}

/// The node: `GET /_node`.
pub fn node_info(facts: &NodeFacts, instance_id: &str, pipeline_id: &str) -> (r: Json)
    ensures
        r.view() == node_info_v(facts@, instance_id@, pipeline_id@),
{
    let mut pipeline_body = no_members();
    push_member(&mut pipeline_body, "workers", make_count(facts.workers));
    push_member(&mut pipeline_body, "batch_size", Json::Int(500));
    push_member(&mut pipeline_body, "batch_delay", Json::Int(5000));
    let mut pipelines = no_members();
    push_member(&mut pipelines, pipeline_id, Json::Object(pipeline_body));
    let mut os = no_members();
    push_member(&mut os, "name", text_value(&facts.os));
    push_member(&mut os, "arch", text_value(&facts.arch));
    let mut body = no_members();
    push_member(&mut body, "id", text_value(instance_id));
    push_member(&mut body, "name", text_value(&facts.host));
    push_member(&mut body, "version", text_value(&facts.version));
    push_member(&mut body, "status", text_value("green"));
    push_member(&mut body, "pipelines", Json::Object(pipelines));
    push_member(&mut body, "os", Json::Object(os));
    Json::Object(body)
}

/// The statistics of the node: `GET /_node/stats`. The counts at the top are
/// those of the instance, those of the pipeline begin anew with each reload.
pub open spec fn node_stats_v(
    facts: FactsV,
    snap: SnapshotV,
    pipeline: SnapshotV,
    pipeline_id: Seq<char>,
    plugins: Seq<PluginV>,
) -> JsonV {
    JsonV::Object(
        no_entries()
            .push(("jvm"@, JsonV::Object(
                no_entries()
                    .push(("threads"@, JsonV::Object(
                        no_entries()
                            .push(("count"@, count_v(facts.workers)))
                            .push(("peak_count"@, count_v(facts.workers)))
                    )))
                    .push(("mem"@, JsonV::Object(
                        no_entries()
                            .push(("heap_used_in_bytes"@, JsonV::Int(0)))
                            .push(("heap_max_in_bytes"@, JsonV::Int(0)))
                            .push(("heap_used_percent"@, JsonV::Int(0)))
                            .push(("heap_committed_in_bytes"@, JsonV::Int(0)))
                            .push(("non_heap_used_in_bytes"@, JsonV::Int(0)))
                            .push(("non_heap_committed_in_bytes"@, JsonV::Int(0)))
                    )))
                    .push(("gc"@, JsonV::Object(
                        no_entries()
                            .push(("collectors"@, JsonV::Object(
                                no_entries()
                                    .push(("young"@, JsonV::Object(
                                        no_entries()
                                            .push(("collection_count"@, JsonV::Int(0)))
                                            .push(("collection_time_in_millis"@, JsonV::Int(0)))
                                    )))
                                    .push(("old"@, JsonV::Object(
                                        no_entries()
                                            .push(("collection_count"@, JsonV::Int(0)))
                                            .push(("collection_time_in_millis"@, JsonV::Int(0)))
                                    )))
                            )))
                    )))
                    .push(("uptime_in_millis"@, count_v(snap.uptime_millis)))
            )))
            .push(("process"@, JsonV::Object(
                no_entries()
                    .push(("open_file_descriptors"@, JsonV::Int(0)))
                    .push(("peak_open_file_descriptors"@, JsonV::Int(0)))
                    .push(("max_file_descriptors"@, JsonV::Int(0)))
                    .push(("mem"@, JsonV::Object(
                        no_entries()
                            .push(("total_virtual_in_bytes"@, JsonV::Int(0)))
                    )))
                    .push(("cpu"@, JsonV::Object(
                        no_entries()
                            .push(("total_in_millis"@, JsonV::Int(0)))
                            .push(("percent"@, JsonV::Int(0)))
                            .push(("load_average"@, JsonV::Object(
                                no_entries()
                                    .push(("1m"@, zero()))
                                    .push(("5m"@, zero()))
                                    .push(("15m"@, zero()))
                            )))
                    )))
            )))
            .push(("events"@, event_counts_v(snap, snap.uptime_millis)))
            .push(("pipelines"@, JsonV::Object(
                no_entries()
                    .push((pipeline_id, build_pipeline_stats_v(pipeline, pipeline.uptime_millis, plugins)))
            )))
            .push(("reloads"@, JsonV::Object(
                no_entries()
                    .push(("successes"@, count_v(snap.reload_successes)))
                    .push(("failures"@, count_v(snap.reload_failures)))
                    .push(("last_success_timestamp"@, opt_v(snap.last_reload_success)))
                    .push(("last_failure_timestamp"@, opt_v(snap.last_reload_failure)))
            )))
            .push(("os"@, JsonV::Object(
                no_entries()
                    .push(("name"@, JsonV::Str(facts.os)))
                    .push(("arch"@, JsonV::Str(facts.arch)))
            )))
            .push(("queue"@, JsonV::Object(
                no_entries()
                    .push(("type"@, JsonV::Str("memory"@)))
            )))
            .push(("flow"@, flow_v(snap)))
    )
}

/// The statistics of the node: `GET /_node/stats`. The counts at the top are
/// those of the instance, those of the pipeline begin anew with each reload.
pub fn node_stats(
    facts: &NodeFacts,
    snap: &Snapshot,
    pipeline: &Snapshot,
    pipeline_id: &str,
    plugins: &Vec<PluginInfo>,
) -> (r: Json)
    ensures
        r.view() == node_stats_v(facts@, snap@, pipeline@, pipeline_id@, plugins_view(plugins@)),
{
    let mut threads = no_members();
    push_member(&mut threads, "count", make_count(facts.workers));
    push_member(&mut threads, "peak_count", make_count(facts.workers));
    let mut mem = no_members();
    push_member(&mut mem, "heap_used_in_bytes", Json::Int(0));
    push_member(&mut mem, "heap_max_in_bytes", Json::Int(0));
    push_member(&mut mem, "heap_used_percent", Json::Int(0));
    push_member(&mut mem, "heap_committed_in_bytes", Json::Int(0));
    push_member(&mut mem, "non_heap_used_in_bytes", Json::Int(0));
    push_member(&mut mem, "non_heap_committed_in_bytes", Json::Int(0));
    let mut young = no_members();
    push_member(&mut young, "collection_count", Json::Int(0));
    push_member(&mut young, "collection_time_in_millis", Json::Int(0));
    let mut old = no_members();
    push_member(&mut old, "collection_count", Json::Int(0));
    push_member(&mut old, "collection_time_in_millis", Json::Int(0));
    let mut collectors = no_members();
    push_member(&mut collectors, "young", Json::Object(young));
    push_member(&mut collectors, "old", Json::Object(old));
    let mut gc = no_members();
    push_member(&mut gc, "collectors", Json::Object(collectors));
    let mut jvm = no_members();
    push_member(&mut jvm, "threads", Json::Object(threads));
    push_member(&mut jvm, "mem", Json::Object(mem));
    push_member(&mut jvm, "gc", Json::Object(gc));
    push_member(&mut jvm, "uptime_in_millis", make_count(snap.uptime_millis));
    let mut mem2 = no_members();
    push_member(&mut mem2, "total_virtual_in_bytes", Json::Int(0));
    let mut load_average = no_members();
    push_member(&mut load_average, "1m", make_zero());
    push_member(&mut load_average, "5m", make_zero());
    push_member(&mut load_average, "15m", make_zero());
    let mut cpu = no_members();
    push_member(&mut cpu, "total_in_millis", Json::Int(0));
    push_member(&mut cpu, "percent", Json::Int(0));
    push_member(&mut cpu, "load_average", Json::Object(load_average));
    let mut process = no_members();
    push_member(&mut process, "open_file_descriptors", Json::Int(0));
    push_member(&mut process, "peak_open_file_descriptors", Json::Int(0));
    push_member(&mut process, "max_file_descriptors", Json::Int(0));
    push_member(&mut process, "mem", Json::Object(mem2));
    push_member(&mut process, "cpu", Json::Object(cpu));
    let mut pipelines = no_members();
    push_member(&mut pipelines, pipeline_id, build_pipeline_stats(pipeline, pipeline.uptime_millis, plugins));
    let mut reloads = no_members();
    push_member(&mut reloads, "successes", make_count(snap.reload_successes));
    push_member(&mut reloads, "failures", make_count(snap.reload_failures));
    push_member(&mut reloads, "last_success_timestamp", make_opt(&snap.last_reload_success));
    push_member(&mut reloads, "last_failure_timestamp", make_opt(&snap.last_reload_failure));
    let mut os = no_members();
    push_member(&mut os, "name", text_value(&facts.os));
    push_member(&mut os, "arch", text_value(&facts.arch));
    let mut queue = no_members();
    push_member(&mut queue, "type", text_value("memory"));
    let mut body = no_members();
    push_member(&mut body, "jvm", Json::Object(jvm));
    push_member(&mut body, "process", Json::Object(process));
    push_member(&mut body, "events", event_counts(snap, snap.uptime_millis));
    push_member(&mut body, "pipelines", Json::Object(pipelines));
    push_member(&mut body, "reloads", Json::Object(reloads));
    push_member(&mut body, "os", Json::Object(os));
    push_member(&mut body, "queue", Json::Object(queue));
    push_member(&mut body, "flow", flow(snap));
    Json::Object(body)
}

/// The busiest threads: `GET /_node/hot_threads`.
pub open spec fn hot_threads_v(now: Seq<char>) -> JsonV {
    JsonV::Object(
        no_entries()
            .push(("hot_threads"@, JsonV::Object(
                no_entries()
                    .push(("time"@, JsonV::Str(now)))
                    .push(("busiest_threads"@, JsonV::Int(3)))
                    .push(("threads"@, JsonV::Array(
                        no_values()
                    )))
            )))
    )
}

/// The busiest threads: `GET /_node/hot_threads`.
pub fn hot_threads(now: &str) -> (r: Json)
    ensures
        r.view() == hot_threads_v(now@),
{
    let mut hot_threads = no_members();
    push_member(&mut hot_threads, "time", text_value(now));
    push_member(&mut hot_threads, "busiest_threads", Json::Int(3));
    push_member(&mut hot_threads, "threads", Json::Array(no_items()));
    let mut body = no_members();
    push_member(&mut body, "hot_threads", Json::Object(hot_threads));
    Json::Object(body)
}

/// A plugin and its version.
pub open spec fn plugin_version_v(name: Seq<char>, version: Seq<char>) -> JsonV {
    JsonV::Object(
        no_entries()
            .push(("name"@, JsonV::Str(name)))
            .push(("version"@, JsonV::Str(version)))
    )
}

/// A plugin and its version.
pub fn plugin_version(name: &str, version: &str) -> (r: Json)
    ensures
        r.view() == plugin_version_v(name@, version@),
{
    let mut body = no_members();
    push_member(&mut body, "name", text_value(name));
    push_member(&mut body, "version", text_value(version));
    Json::Object(body)
}

/// The installed plugins: `GET /_node/plugins`.
pub open spec fn node_plugins_v() -> JsonV {
    JsonV::Object(
        no_entries()
            .push(("total"@, JsonV::Int(10)))
            .push(("plugins"@, JsonV::Array(
                no_values()
                    .push(plugin_version_v("logstash-input-stdin"@, "3.4.0"@))
                    .push(plugin_version_v("logstash-input-file"@, "4.4.6"@))
                    .push(plugin_version_v("logstash-input-tcp"@, "6.4.1"@))
                    .push(plugin_version_v("logstash-input-udp"@, "3.5.0"@))
                    .push(plugin_version_v("logstash-input-http"@, "3.8.0"@))
                    .push(plugin_version_v("logstash-input-generator"@, "3.1.0"@))
                    .push(plugin_version_v("logstash-input-beats"@, "6.8.2"@))
                    .push(plugin_version_v("logstash-filter-grok"@, "4.4.3"@))
                    .push(plugin_version_v("logstash-filter-mutate"@, "3.5.7"@))
                    .push(plugin_version_v("logstash-output-stdout"@, "3.1.4"@))
            )))
    )
}

/// The installed plugins: `GET /_node/plugins`.
pub fn node_plugins() -> (r: Json)
    ensures
        r.view() == node_plugins_v(),
{
    let mut plugins = no_items();
    push_item(&mut plugins, plugin_version("logstash-input-stdin", "3.4.0"));
    push_item(&mut plugins, plugin_version("logstash-input-file", "4.4.6"));
    push_item(&mut plugins, plugin_version("logstash-input-tcp", "6.4.1"));
    push_item(&mut plugins, plugin_version("logstash-input-udp", "3.5.0"));
    push_item(&mut plugins, plugin_version("logstash-input-http", "3.8.0"));
    push_item(&mut plugins, plugin_version("logstash-input-generator", "3.1.0"));
    push_item(&mut plugins, plugin_version("logstash-input-beats", "6.8.2"));
    push_item(&mut plugins, plugin_version("logstash-filter-grok", "4.4.3"));
    push_item(&mut plugins, plugin_version("logstash-filter-mutate", "3.5.7"));
    push_item(&mut plugins, plugin_version("logstash-output-stdout", "3.1.4"));
    let mut body = no_members();
    push_member(&mut body, "total", Json::Int(10));
    push_member(&mut body, "plugins", Json::Array(plugins));
    Json::Object(body)
}

/// The answer to a request that was carried out.
pub open spec fn acknowledged_v() -> JsonV {
    JsonV::Object(
        no_entries()
            .push(("acknowledged"@, JsonV::Bool(true)))
    )
}

/// The answer to a request that was carried out.
pub fn acknowledged() -> (r: Json)
    ensures
        r.view() == acknowledged_v(),
{
    let mut body = no_members();
    push_member(&mut body, "acknowledged", Json::Bool(true));
    Json::Object(body)
}

/// The health of the pipeline: `GET /_health_report`.
pub open spec fn health_report_v(pipeline_id: Seq<char>) -> JsonV {
    JsonV::Object(
        no_entries()
            .push(("status"@, JsonV::Str("green"@)))
            .push(("symptom"@, JsonV::Str("The data pipeline is operating correctly."@)))
            .push(("indicators"@, JsonV::Object(
                no_entries()
                    .push(("pipelines"@, JsonV::Object(
                        no_entries()
                            .push(("status"@, JsonV::Str("green"@)))
                            .push(("symptom"@, JsonV::Str("All pipelines are running."@)))
                            .push(("indicators"@, JsonV::Object(
                                no_entries()
                                    .push((pipeline_id, JsonV::Object(
                                        no_entries()
                                            .push(("status"@, JsonV::Str("green"@)))
                                            .push(("symptom"@, JsonV::Str("The pipeline is running."@)))
                                    )))
                            )))
                    )))
            )))
    )
}

/// The health of the pipeline: `GET /_health_report`.
pub fn health_report(pipeline_id: &str) -> (r: Json)
    ensures
        r.view() == health_report_v(pipeline_id@),
{
    let mut pipeline_body = no_members();
    push_member(&mut pipeline_body, "status", text_value("green"));
    push_member(&mut pipeline_body, "symptom", text_value("The pipeline is running."));
    let mut indicators2 = no_members();
    push_member(&mut indicators2, pipeline_id, Json::Object(pipeline_body));
    let mut pipelines = no_members();
    push_member(&mut pipelines, "status", text_value("green"));
    push_member(&mut pipelines, "symptom", text_value("All pipelines are running."));
    push_member(&mut pipelines, "indicators", Json::Object(indicators2));
    let mut indicators = no_members();
    push_member(&mut indicators, "pipelines", Json::Object(pipelines));
    let mut body = no_members();
    push_member(&mut body, "status", text_value("green"));
    push_member(&mut body, "symptom", text_value("The data pipeline is operating correctly."));
    push_member(&mut body, "indicators", Json::Object(indicators));
    Json::Object(body)
}

/// The answer to a request for a pipeline: whether there is such a pipeline, and
/// its statistics or an error.
pub open spec fn by_id_v(
    snap: SnapshotV,
    pipeline_id: Seq<char>,
    plugins: Seq<PluginV>,
    id: Seq<char>,
) -> (bool, JsonV) {
    if id == pipeline_id {
        (true, pipeline_stats_all_v(snap, pipeline_id, plugins))
    } else {
        (
            false,
            JsonV::Object(seq![("error"@, JsonV::Str("pipeline '"@ + id + "' not found"@))]),
        )
    }
}

/// The statistics of one pipeline: `GET /_node/stats/pipelines/:id`.
pub fn pipeline_stats_by_id(
    snap: &Snapshot,
    pipeline_id: &str,
    plugins: &Vec<PluginInfo>,
    id: &str,
) -> (r: (bool, Json))
    ensures
        (r.0, r.1.view()) == by_id_v(snap@, pipeline_id@, plugins_view(plugins@), id@),
{
    if same(id, pipeline_id) {
        return (true, pipeline_stats_all(snap, pipeline_id, plugins));
    }
    let mut p = no_members();
    push_member(&mut p, "error", Json::Str(join3("pipeline '", id, "' not found")));
    (false, Json::Object(p))
}

} // verus!
