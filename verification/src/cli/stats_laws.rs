//! What the statistics of a pipeline tell.
use crate::cli::stats::{
    build_pipeline_stats_v, event_counts_v, filter_plugin_v, flow_v, input_plugin_v, no_entries,
    no_values, node_stats_v, output_plugin_v, plugin_v, plugins_of, FactsV, PluginV, SnapshotV,
};
use crate::dict::{key_from, lemma_key_from, lookup};
use crate::double::DoubleV;
use crate::json::{json_get, JsonV};
use vstd::prelude::*;

verus! {

proof fn lemma_names()
    ensures
        "in"@.len() == 2,
        "out"@.len() == 3,
        "filtered"@.len() == 8,
        "duration_in_millis"@.len() == 18,
        "queue_push_duration_in_millis"@.len() == 29,
        "id"@.len() == 2,
        "name"@.len() == 4,
        "events"@.len() == 6,
        "flow"@.len() == 4,
        "throughput"@.len() == 10,
        "plugins"@.len() == 7,
        "inputs"@.len() == 6,
        "filters"@.len() == 7,
        "outputs"@.len() == 7,
        "reloads"@.len() == 7,
        "queue"@.len() == 5,
        "successes"@.len() == 9,
        "failures"@.len() == 8,
        "last_error"@.len() == 10,
        "last_success_timestamp"@.len() == 22,
        "last_failure_timestamp"@.len() == 22,
        "input_throughput"@.len() == 16,
        "output_throughput"@.len() == 17,
        "filter_throughput"@.len() == 17,
        "queue_backpressure"@.len() == 18,
        "worker_concurrency"@.len() == 18,
        "worker_utilization"@.len() == 18,
        "worker_millis_per_event"@.len() == 23,
        "current"@.len() == 7,
        "lifetime"@.len() == 8,
        "jvm"@.len() == 3,
        "process"@.len() == 7,
        "pipelines"@.len() == 9,
        "os"@.len() == 2,
        "input"@.len() == 5,
        "filter"@.len() == 6,
        "output"@.len() == 6,
        "id"@ != "in"@,
        "flow"@ != "name"@,
        "inputs"@ != "events"@,
        "filters"@ != "plugins"@,
        "outputs"@ != "plugins"@,
        "outputs"@ != "filters"@,
        "reloads"@ != "plugins"@,
        "reloads"@ != "filters"@,
        "reloads"@ != "outputs"@,
        "failures"@ != "filtered"@,
        "last_error"@ != "throughput"@,
        "last_failure_timestamp"@ != "last_success_timestamp"@,
        "filter_throughput"@ != "output_throughput"@,
        "queue_backpressure"@ != "duration_in_millis"@,
        "worker_concurrency"@ != "duration_in_millis"@,
        "worker_concurrency"@ != "queue_backpressure"@,
        "worker_utilization"@ != "duration_in_millis"@,
        "worker_utilization"@ != "queue_backpressure"@,
        "worker_utilization"@ != "worker_concurrency"@,
        "current"@ != "plugins"@,
        "current"@ != "filters"@,
        "current"@ != "outputs"@,
        "current"@ != "reloads"@,
        "lifetime"@ != "filtered"@,
        "lifetime"@ != "failures"@,
        "jvm"@ != "out"@,
        "process"@ != "plugins"@,
        "process"@ != "filters"@,
        "process"@ != "outputs"@,
        "process"@ != "reloads"@,
        "process"@ != "current"@,
        "pipelines"@ != "successes"@,
        "os"@ != "in"@,
        "os"@ != "id"@,
        "input"@ != "queue"@,
        "filter"@ != "events"@,
        "filter"@ != "inputs"@,
        "output"@ != "events"@,
        "output"@ != "inputs"@,
        "output"@ != "filter"@,
{
    reveal_strlit("in");
    reveal_strlit("out");
    reveal_strlit("filtered");
    reveal_strlit("duration_in_millis");
    reveal_strlit("queue_push_duration_in_millis");
    reveal_strlit("id");
    reveal_strlit("name");
    reveal_strlit("events");
    reveal_strlit("flow");
    reveal_strlit("throughput");
    reveal_strlit("plugins");
    reveal_strlit("inputs");
    reveal_strlit("filters");
    reveal_strlit("outputs");
    reveal_strlit("reloads");
    reveal_strlit("queue");
    reveal_strlit("successes");
    reveal_strlit("failures");
    reveal_strlit("last_error");
    reveal_strlit("last_success_timestamp");
    reveal_strlit("last_failure_timestamp");
    reveal_strlit("input_throughput");
    reveal_strlit("output_throughput");
    reveal_strlit("filter_throughput");
    reveal_strlit("queue_backpressure");
    reveal_strlit("worker_concurrency");
    reveal_strlit("worker_utilization");
    reveal_strlit("worker_millis_per_event");
    reveal_strlit("current");
    reveal_strlit("lifetime");
    reveal_strlit("jvm");
    reveal_strlit("process");
    reveal_strlit("pipelines");
    reveal_strlit("os");
    reveal_strlit("input");
    reveal_strlit("filter");
    reveal_strlit("output");
    assert("id"@[1] != "in"@[1]);
    assert("flow"@[0] != "name"@[0]);
    assert("inputs"@[0] != "events"@[0]);
    assert("filters"@[0] != "plugins"@[0]);
    assert("outputs"@[0] != "plugins"@[0]);
    assert("outputs"@[0] != "filters"@[0]);
    assert("reloads"@[0] != "plugins"@[0]);
    assert("reloads"@[0] != "filters"@[0]);
    assert("reloads"@[0] != "outputs"@[0]);
    assert("failures"@[1] != "filtered"@[1]);
    assert("last_error"@[0] != "throughput"@[0]);
    assert("last_failure_timestamp"@[5] != "last_success_timestamp"@[5]);
    assert("filter_throughput"@[0] != "output_throughput"@[0]);
    assert("queue_backpressure"@[0] != "duration_in_millis"@[0]);
    assert("worker_concurrency"@[0] != "duration_in_millis"@[0]);
    assert("worker_concurrency"@[0] != "queue_backpressure"@[0]);
    assert("worker_utilization"@[0] != "duration_in_millis"@[0]);
    assert("worker_utilization"@[0] != "queue_backpressure"@[0]);
    assert("worker_utilization"@[7] != "worker_concurrency"@[7]);
    assert("current"@[0] != "plugins"@[0]);
    assert("current"@[0] != "filters"@[0]);
    assert("current"@[0] != "outputs"@[0]);
    assert("current"@[0] != "reloads"@[0]);
    assert("lifetime"@[0] != "filtered"@[0]);
    assert("lifetime"@[0] != "failures"@[0]);
    assert("jvm"@[0] != "out"@[0]);
    assert("process"@[1] != "plugins"@[1]);
    assert("process"@[0] != "filters"@[0]);
    assert("process"@[0] != "outputs"@[0]);
    assert("process"@[0] != "reloads"@[0]);
    assert("process"@[0] != "current"@[0]);
    assert("pipelines"@[0] != "successes"@[0]);
    assert("os"@[0] != "in"@[0]);
    assert("os"@[0] != "id"@[0]);
    assert("input"@[0] != "queue"@[0]);
    assert("filter"@[0] != "events"@[0]);
    assert("filter"@[0] != "inputs"@[0]);
    assert("output"@[0] != "events"@[0]);
    assert("output"@[0] != "inputs"@[0]);
    assert("output"@[0] != "filter"@[0]);
}

/// Members are found by their keys, the first of several.
proof fn lemma_members()
    ensures
        forall|g: Seq<char>| #[trigger] lookup(no_entries(), g) is None,
        forall|p: Seq<(Seq<char>, JsonV)>, k: Seq<char>, v: JsonV, g: Seq<char>| #[trigger]
            lookup(p.push((k, v)), g) == (match lookup(p, g) {
                Some(x) => Some(x),
                None => if k == g {
                    Some(v)
                } else {
                    None
                },
            }),
{
    assert forall|p: Seq<(Seq<char>, JsonV)>, k: Seq<char>, v: JsonV, g: Seq<char>| #[trigger]
        lookup(p.push((k, v)), g) == (match lookup(p, g) {
            Some(x) => Some(x),
            None => if k == g {
                Some(v)
            } else {
                None
            },
        }) by {
        let q = p.push((k, v));
        lemma_key_from(p, g, 0);
        lemma_key_from(q, g, 0);
        let a = key_from(p, g, 0);
        let b = key_from(q, g, 0);
        if a < p.len() {
            assert(q[a] == p[a]);
            if b < a {
                assert(q[b] == p[b]);
            }
        } else if b < p.len() {
            assert(q[b] == p[b]);
        }
        if b >= q.len() {
            assert(q[p.len() as int].0 != g);
        }
    }
}

/// The value behind two keys.
pub open spec fn behind(j: JsonV, a: Seq<char>, b: Seq<char>) -> Option<JsonV> {
    match json_get(j, a) {
        Some(x) => json_get(x, b),
        None => None,
    }
}

/// Whether a value is there and is a number.
pub open spec fn counts(j: Option<JsonV>, n: u64) -> bool {
    j matches Some(x) && match x {
        JsonV::Int(k) => k == n,
        JsonV::UInt(k) => k == n,
        _ => false,
    }
}

/// The counts of events stand under their names.
pub proof fn events_are_counted(snap: SnapshotV, uptime: u64)
    ensures
        ({
            let e = event_counts_v(snap, uptime);
            &&& counts(json_get(e, "in"@), snap.events_in)
            &&& counts(json_get(e, "out"@), snap.events_out)
            &&& counts(json_get(e, "filtered"@), snap.events_filtered)
            &&& counts(json_get(e, "duration_in_millis"@), uptime)
        }),
{
    lemma_names();
    lemma_members();
}

/// Rates stand under their names, as the present one and that of all time.
pub proof fn rates_are_told(snap: SnapshotV)
    ensures
        ({
            let f = flow_v(snap);
            let rate = |bits: u64| Some(JsonV::Float(DoubleV::Bits(bits)));
            &&& behind(f, "input_throughput"@, "current"@) == rate(snap.input_rate)
            &&& behind(f, "input_throughput"@, "lifetime"@) == rate(snap.input_rate)
            &&& behind(f, "output_throughput"@, "current"@) == rate(snap.output_rate)
            &&& behind(f, "output_throughput"@, "lifetime"@) == rate(snap.output_rate)
            &&& behind(f, "filter_throughput"@, "current"@) == rate(snap.filter_rate)
            &&& behind(f, "filter_throughput"@, "lifetime"@) == rate(snap.filter_rate)
        }),
{
    lemma_names();
    lemma_members();
}

/// The statistics of a pipeline count its events, and its reloads by how they
/// ended.
#[verifier::spinoff_prover]
pub proof fn pipelines_are_counted(snap: SnapshotV, uptime: u64, plugins: Seq<PluginV>)
    ensures
        ({
            let s = build_pipeline_stats_v(snap, uptime, plugins);
            &&& json_get(s, "events"@) == Some(event_counts_v(snap, uptime))
            &&& json_get(s, "flow"@) == Some(flow_v(snap))
            &&& counts(behind(s, "reloads"@, "successes"@), snap.reload_successes)
            &&& counts(behind(s, "reloads"@, "failures"@), snap.reload_failures)
            &&& behind(s, "reloads"@, "last_success_timestamp"@) == Some(
                match snap.last_reload_success {
                    Some(x) => JsonV::Str(x),
                    None => JsonV::Null,
                },
            )
            &&& behind(s, "reloads"@, "last_failure_timestamp"@) == Some(
                match snap.last_reload_failure {
                    Some(x) => JsonV::Str(x),
                    None => JsonV::Null,
                },
            )
            &&& behind(s, "plugins"@, "inputs"@) == Some(
                JsonV::Array(plugins_of(snap, "input"@, plugins, 0, no_values())),
            )
            &&& behind(s, "plugins"@, "filters"@) == Some(
                JsonV::Array(plugins_of(snap, "filter"@, plugins, 0, no_values())),
            )
            &&& behind(s, "plugins"@, "outputs"@) == Some(
                JsonV::Array(plugins_of(snap, "output"@, plugins, 0, no_values())),
            )
        }),
{
    lemma_names();
    lemma_members();
}

/// What flows into a pipeline leaves its inputs, and what leaves the pipeline
/// passes its outputs; each plugin shows its own name and identifier.
#[verifier::spinoff_prover]
pub proof fn plugins_count_what_passes(snap: SnapshotV, p: PluginV)
    ensures
        counts(behind(input_plugin_v(snap, p), "events"@, "out"@), snap.events_in),
        counts(behind(filter_plugin_v(snap, p), "events"@, "in"@), snap.events_in),
        counts(behind(filter_plugin_v(snap, p), "events"@, "out"@), snap.events_out),
        counts(behind(output_plugin_v(snap, p), "events"@, "in"@), snap.events_out),
        counts(behind(output_plugin_v(snap, p), "events"@, "out"@), snap.events_out),
        json_get(plugin_v(snap, p), "id"@) == Some(JsonV::Str(p.id)),
        json_get(plugin_v(snap, p), "name"@) == Some(JsonV::Str(p.name)),
{
    lemma_names();
    lemma_members();
}

/// Exactly the plugins of a kind are listed, in their order.
pub proof fn plugins_are_listed_by_kind(
    snap: SnapshotV,
    kind: Seq<char>,
    plugins: Seq<PluginV>,
)
    ensures
        plugins_of(snap, kind, plugins, 0, no_values()) == plugins.filter(
            |p: PluginV| p.plugin_type == kind,
        ).map_values(|p: PluginV| plugin_v(snap, p)),
{
    lemma_listed(snap, kind, plugins, 0);
    let f = |p: PluginV| p.plugin_type == kind;
    assert(plugins.take(0).filter(f) =~= Seq::empty()) by {
        reveal(Seq::filter);
    }
    assert(plugins.take(0).filter(f).map_values(|p: PluginV| plugin_v(snap, p)) =~= no_values());
}

proof fn lemma_listed(snap: SnapshotV, kind: Seq<char>, plugins: Seq<PluginV>, i: int)
    requires
        0 <= i <= plugins.len(),
    ensures
        ({
            let f = |p: PluginV| p.plugin_type == kind;
            let g = |p: PluginV| plugin_v(snap, p);
            plugins_of(snap, kind, plugins, i, plugins.take(i).filter(f).map_values(g))
                == plugins.filter(f).map_values(g)
        }),
    decreases plugins.len() - i,
{
    reveal(Seq::filter);
    let f = |p: PluginV| p.plugin_type == kind;
    let g = |p: PluginV| plugin_v(snap, p);
    let acc = plugins.take(i).filter(f).map_values(g);
    if i < plugins.len() {
        lemma_listed(snap, kind, plugins, i + 1);
        let next = plugins.take(i + 1);
        assert(next.drop_last() =~= plugins.take(i));
        assert(next.last() == plugins[i]);
        if f(plugins[i]) {
            assert(next.filter(f).map_values(g) =~= acc.push(g(plugins[i])));
        }
    } else {
        assert(plugins.take(i) =~= plugins);
    }
}

/// The statistics of the node hold those of its pipeline, under the pipeline's
/// identifier, beside the counts of the whole instance.
#[verifier::spinoff_prover]
pub proof fn nodes_hold_their_pipeline(
    facts: FactsV,
    snap: SnapshotV,
    pipeline: SnapshotV,
    id: Seq<char>,
    plugins: Seq<PluginV>,
)
    ensures
        ({
            let s = node_stats_v(facts, snap, pipeline, id, plugins);
            &&& json_get(s, "events"@) == Some(event_counts_v(snap, snap.uptime_millis))
            &&& behind(s, "pipelines"@, id) == Some(
                build_pipeline_stats_v(pipeline, pipeline.uptime_millis, plugins),
            )
            &&& json_get(s, "flow"@) == Some(flow_v(snap))
        }),
{
    lemma_names();
    lemma_members();
}

} // verus!
