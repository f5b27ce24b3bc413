//! Laws of settings: where a configuration is found, what files say, and how
//! levels and identifiers are named.
use crate::cli::config::{
    first_existing, first_id, is_effective, plugin_id, settings_source, shown_plugins,
    PluginConfig, SourceV,
};
use crate::cli::logging::{
    after_request, covers, logger_name, upper, with_covered, with_level, with_settings, LevelsV,
};
use crate::cli::yaml::{text_under, untagged, value_under, yaml_text, YamlV};
use crate::dict::{key_from, lemma_key_from, lookup, put, put_then_lookup};
use crate::json::JsonV;
use crate::text::{is_white, nat_text, trim_text, white_end, white_start};
use vstd::prelude::*;

verus! {

broadcast use vstd::string::group_string_axioms;

/// The path that is taken is one that exists, and none before it does; without
/// one that exists none is taken.
pub proof fn first_path_that_exists_is_taken(paths: Seq<Seq<char>>, exist: Seq<bool>, i: int)
    requires
        paths.len() == exist.len(),
        0 <= i <= paths.len(),
    ensures
        match first_existing(paths, exist, i) {
            Some(p) => exists|k: int|
                i <= k < paths.len() && #[trigger] exist[k] && paths[k] == p && forall|j: int|
                    i <= j < k ==> !(#[trigger] exist[j]),
            None => forall|j: int| i <= j < paths.len() ==> !(#[trigger] exist[j]),
        },
    decreases paths.len() - i,
{
    if i < paths.len() && !exist[i] {
        first_path_that_exists_is_taken(paths, exist, i + 1);
        if let Some(p) = first_existing(paths, exist, i + 1) {
            let k = choose|k: int|
                i + 1 <= k < paths.len() && #[trigger] exist[k] && paths[k] == p && forall|j: int|
                    i + 1 <= j < k ==> !(#[trigger] exist[j]);
            assert(exist[k] && paths[k] == p);
        }
    } else if i < paths.len() {
        assert(exist[i]);
    }
}

/// The identifier of a pipeline comes from the first settings file that names
/// one under `pipeline.id`.
pub proof fn first_file_names_the_pipeline(contents: Seq<Seq<char>>, i: int, k: int)
    requires
        0 <= i <= k < contents.len(),
        forall|j: int| i <= j < k ==> yaml_text(#[trigger] contents[j], "pipeline.id"@) is None,
    ensures
        yaml_text(contents[k], "pipeline.id"@) is Some ==> first_id(contents, i) == yaml_text(
            contents[k],
            "pipeline.id"@,
        ),
    decreases k - i,
{
    if i < k {
        assert(yaml_text(contents[i], "pipeline.id"@) is None);
        first_file_names_the_pipeline(contents, i + 1, k);
    }
}

/// A configuration comes from the first settings file that names one: its text
/// under `config.string`, or else its path under `path.config`.
pub proof fn first_file_names_the_config(contents: Seq<Seq<char>>, i: int, k: int)
    requires
        0 <= i <= k < contents.len(),
        forall|j: int|
            i <= j < k ==> yaml_text(#[trigger] contents[j], "config.string"@) is None && yaml_text(
                contents[j],
                "path.config"@,
            ) is None,
    ensures
        ({
            let text = yaml_text(contents[k], "config.string"@);
            let path = yaml_text(contents[k], "path.config"@);
            &&& text is Some ==> settings_source(contents, i) == Some(
                SourceV::SettingsText(text->0),
            )
            &&& text is None && path is Some ==> settings_source(contents, i) == Some(
                SourceV::Path(path->0),
            )
        }),
    decreases k - i,
{
    if i < k {
        assert(yaml_text(contents[i], "config.string"@) is None);
        first_file_names_the_config(contents, i + 1, k);
    }
}

proof fn lemma_value_under(m: Seq<(YamlV, YamlV)>, key: Seq<char>, i: int, k: int)
    requires
        0 <= i <= k < m.len(),
        m[k].0 == YamlV::Text(key),
        forall|j: int| i <= j < k ==> (#[trigger] m[j]).0 != YamlV::Text(key),
    ensures
        value_under(m, key, i) == Some(m[k].1),
    decreases k - i,
{
    if i < k {
        assert(m[i].0 != YamlV::Text(key));
        lemma_value_under(m, key, i + 1, k);
    }
}

/// A mapping tells the text that stands beside a key, with tags or without;
/// what is no text, or no mapping, tells none.
pub proof fn mappings_tell_their_texts(
    m: Seq<(YamlV, YamlV)>,
    key: Seq<char>,
    k: int,
    s: Seq<char>,
    b: bool,
    mark: Seq<char>,
)
    requires
        0 <= k < m.len(),
        m[k].0 == YamlV::Text(key),
        forall|j: int| 0 <= j < k ==> (#[trigger] m[j]).0 != YamlV::Text(key),
    ensures
        m[k].1 == YamlV::Text(s) ==> text_under(YamlV::Mapping(m), key) == Some(s),
        m[k].1 == YamlV::Tagged(mark, Box::new(YamlV::Text(s))) ==> text_under(
            YamlV::Mapping(m),
            key,
        ) == Some(s),
        m[k].1 == YamlV::Text(s) ==> text_under(
            YamlV::Tagged(mark, Box::new(YamlV::Mapping(m))),
            key,
        ) == Some(s),
        m[k].1 == YamlV::Bool(b) ==> text_under(YamlV::Mapping(m), key) is None,
        text_under(YamlV::Text(s), key) is None,
{
    lemma_value_under(m, key, 0, k);
    reveal_with_fuel(untagged, 3);
}

/// A plugin is shown under the identifier of its settings, or else under its
/// type and its place; its name is its type.
pub proof fn plugins_are_shown_by_type(plugins: Seq<PluginConfig>, kind: Seq<char>, i: int)
    requires
        0 <= i < plugins.len(),
    ensures
        shown_plugins(plugins, kind).len() == plugins.len(),
        shown_plugins(plugins, kind)[i].name == plugins[i].plugin_type@,
        shown_plugins(plugins, kind)[i].plugin_type == kind,
        shown_plugins(plugins, kind)[i].id == plugin_id(
            plugins[i].plugin_type@,
            plugins[i].settings.view(),
            i,
        ),
{
}

/// An identifier that is set counts; without one, the type and the place do.
pub proof fn identifiers_are_set_or_made(plugin: Seq<char>, id: Seq<char>, i: nat)
    ensures
        plugin_id(plugin, JsonV::Object(seq![("id"@, JsonV::Str(id))]), i as int) == id,
        plugin_id(plugin, JsonV::Object(Seq::empty()), i as int) == plugin + seq!['_'] + nat_text(
            i,
        ),
        plugin_id(plugin, JsonV::Null, i as int) == plugin + seq!['_'] + nat_text(i),
{
    reveal_strlit("_");
    assert("_"@ =~= seq!['_']);
    let p = seq![("id"@, JsonV::Str(id))];
    assert(p[0].0 == "id"@);
    reveal_with_fuel(key_from, 2);
}

/// A line says nothing if it is empty, or if its first character that is no
/// white space begins a comment; any other line says something.
pub proof fn comments_say_nothing(line: Seq<char>, k: int)
    requires
        0 <= k <= line.len(),
        forall|j: int| 0 <= j < k ==> is_white(#[trigger] line[j]),
        k < line.len() ==> !is_white(line[k]),
    ensures
        is_effective(line) <==> k < line.len() && line[k] != '#',
{
    reveal_strlit("#");
    lemma_white(line, 0, k);
    lemma_back(line, k, line.len() as int);
    let t = trim_text(line);
    if k < line.len() {
        assert(t[0] == line[k]);
        if t[0] == '#' {
            assert("#"@ =~= t.subrange(0, 1));
        }
        if "#"@.is_prefix_of(t) {
            assert(t.subrange(0, 1)[0] == "#"@[0]);
        }
    }
}

proof fn lemma_white(s: Seq<char>, i: int, k: int)
    requires
        0 <= i <= k <= s.len(),
        forall|j: int| i <= j < k ==> is_white(#[trigger] s[j]),
        k < s.len() ==> !is_white(s[k]),
    ensures
        white_end(s, i) == k,
    decreases k - i,
{
    if i < k {
        assert(is_white(s[i]));
        lemma_white(s, i + 1, k);
    }
}

proof fn lemma_back(s: Seq<char>, low: int, j: int)
    requires
        0 <= low <= j <= s.len(),
        low < s.len() ==> !is_white(s[low]),
    ensures
        low <= white_start(s, low, j) <= j,
        low < j ==> white_start(s, low, j) > low,
    decreases j - low,
{
    if j > low && is_white(s[j - 1]) {
        lemma_back(s, low, j - 1);
    }
}

/// A level is spelled with capital letters, whatever it was asked with.
pub proof fn levels_are_capital(s: Seq<char>, i: int, k: int)
    requires
        0 <= i < s.len(),
        0 <= k < 26,
    ensures
        upper(s).len() == s.len(),
        s[i] == "abcdefghijklmnopqrstuvwxyz"@[k] ==> upper(s)[i]
            == "ABCDEFGHIJKLMNOPQRSTUVWXYZ"@[k],
        s[i] == "ABCDEFGHIJKLMNOPQRSTUVWXYZ"@[k] ==> upper(s)[i] == s[i],
{
    reveal_strlit("abcdefghijklmnopqrstuvwxyz");
    reveal_strlit("ABCDEFGHIJKLMNOPQRSTUVWXYZ");
    let a = "abcdefghijklmnopqrstuvwxyz"@;
    let b = "ABCDEFGHIJKLMNOPQRSTUVWXYZ"@;
    assert(a[k] as int == 97 + k);
    assert(b[k] as int == 65 + k);
}

/// A request sets the level of the logger that it names behind `logger.`; what
/// is no text asks for the level `INFO`.
pub proof fn requests_set_named_loggers(l: LevelsV, name: Seq<char>, level: Seq<char>, n: i64)
    requires
        name.len() > 0,
    ensures
        lookup(
            after_request(
                l,
                JsonV::Object(seq![("logger."@ + name, JsonV::Str(level))]),
            ).levels,
            name,
        ) == Some(upper(level)),
        lookup(
            after_request(l, JsonV::Object(seq![("logger."@ + name, JsonV::Int(n))])).levels,
            name,
        ) == Some(upper("INFO"@)),
        after_request(l, JsonV::Str(level)) == l,
{
    reveal_strlit("logger.");
    let key = "logger."@ + name;
    assert("logger."@.is_prefix_of(key));
    assert(key.subrange(7, key.len() as int) =~= name);
    assert(logger_name(key) == name);
    let p = seq![(key, JsonV::Str(level))];
    let q = seq![(key, JsonV::Int(n))];
    assert(p[0].0 == key && q[0].0 == key);
    reveal_with_fuel(with_settings, 2);
    lemma_level_set(l, name, upper(level));
    lemma_level_set(l, name, upper("INFO"@));
}

proof fn lemma_level_set(l: LevelsV, name: Seq<char>, level: Seq<char>)
    requires
        name.len() > 0,
    ensures
        lookup(with_level(l, name, level).levels, name) == Some(level),
{
    reveal_strlit(".");
    let p = put(l.levels, name, level);
    put_then_lookup(l.levels, name, level, name);
    lemma_key_from(p, name, 0);
    let r = with_covered(p, l.named, name, level);
    let i = key_from(p, name, 0);
    assert(!covers(name, name));
    assert(r[i] == p[i]);
    assert forall|j: int| 0 <= j < r.len() implies (#[trigger] r[j]).0 == p[j].0 by {}
    lemma_key_from(r, name, 0);
    let k = key_from(r, name, 0);
    if k < i {
        assert(r[k].0 == p[k].0);
    }
    if i < k {
        assert(r[i].0 == name);
    }
}

} // verus!
