//! Log levels that the monitoring API shows and sets.
use crate::codec::cef::pairs_view;
use crate::dict::{distinct_keys, find_key, key_from, lemma_key_from, put, put_then_lookup};
use crate::json::{entries_view, text_value, Json, JsonV};
use crate::text::{ascii_upper, chars_of, join2, same, starts_with, string_of, texts_view};
use vstd::prelude::*;

verus! {

broadcast use vstd::string::group_string_axioms;

/// Levels by logger.
pub type Levels = Seq<(Seq<char>, Seq<char>)>;

/// The level of each logger, and the loggers whose level was set by their own
/// name.
#[derive(Debug, PartialEq, Eq)]
pub struct LoggerLevels {
    pub entries: Vec<(String, String)>,
    pub named: Vec<String>,
}

/// What [`LoggerLevels`] hold.
#[verifier::ext_equal]
pub struct LevelsV {
    pub levels: Levels,
    pub named: Seq<Seq<char>>,
}

impl View for LoggerLevels {
    type V = LevelsV;

    open spec fn view(&self) -> LevelsV {
        LevelsV { levels: pairs_view(self.entries@), named: texts_view(self.named@) }
    }
}

/// The levels at start-up.
pub open spec fn default_levels() -> LevelsV {
    LevelsV {
        levels: seq![
            ("logstash.agent"@, "INFO"@),
            ("logstash.pipeline"@, "INFO"@),
            ("logstash.outputs.elasticsearch"@, "INFO"@),
            ("logstash.inputs.stdin"@, "INFO"@),
            ("slowlog.logstash.pipeline"@, "TRACE"@),
        ],
        named: Seq::empty(),
    }
}

/// A text with its ASCII letters in upper case.
pub open spec fn upper(s: Seq<char>) -> Seq<char> {
    s.map_values(|c: char| ascii_upper(c))
}

/// The level that a value asks for; `INFO` where it is no text.
pub open spec fn level_of(v: JsonV) -> Seq<char> {
    upper(
        match v {
            JsonV::Str(s) => s,
            _ => "INFO"@,
        },
    )
}

/// The logger that a key names: what stands behind `logger.`, or the key.
pub open spec fn logger_name(key: Seq<char>) -> Seq<char> {
    if "logger."@.is_prefix_of(key) {
        key.subrange(7, key.len() as int)
    } else {
        key
    }
}

/// Whether a logger gets the level that is set for `name`: the empty name is
/// the root, which stands for all but the slow logs; another name stands for
/// the loggers below it.
pub open spec fn covers(name: Seq<char>, logger: Seq<char>) -> bool {
    if name.len() == 0 {
        !"slowlog"@.is_prefix_of(logger)
    } else {
        (name + "."@).is_prefix_of(logger)
    }
}

/// The levels with that of each logger set that `name` covers and that was not
/// set by its own name.
pub open spec fn with_covered(
    levels: Levels,
    named: Seq<Seq<char>>,
    name: Seq<char>,
    level: Seq<char>,
) -> Levels {
    Seq::new(
        levels.len(),
        |i: int|
            if covers(name, levels[i].0) && !named.contains(levels[i].0) {
                (levels[i].0, level)
            } else {
                levels[i]
            },
    )
}

/// The levels after a level was set for a name.
pub open spec fn with_level(l: LevelsV, name: Seq<char>, level: Seq<char>) -> LevelsV {
    if name.len() == 0 {
        LevelsV { levels: with_covered(l.levels, l.named, name, level), ..l }
    } else {
        LevelsV {
            levels: with_covered(put(l.levels, name, level), l.named, name, level),
            named: if l.named.contains(name) {
                l.named
            } else {
                l.named.push(name)
            },
        }
    }
}

/// The levels after the members from `i` on were set, one by one.
pub open spec fn with_settings(l: LevelsV, p: Seq<(Seq<char>, JsonV)>, i: int) -> LevelsV
    decreases p.len() - i,
{
    if i < 0 || i >= p.len() {
        l
    } else {
        with_settings(with_level(l, logger_name(p[i].0), level_of(p[i].1)), p, i + 1)
    }
}

/// The levels after a request; what is no object changes nothing.
pub open spec fn after_request(l: LevelsV, payload: JsonV) -> LevelsV {
    match payload {
        JsonV::Object(p) => with_settings(l, p, 0),
        _ => l,
    }
}

/// The levels as a JSON object.
pub open spec fn levels_json(l: LevelsV) -> JsonV {
    JsonV::Object(
        seq![
            (
                "loggers"@,
                JsonV::Object(
                    l.levels.map_values(|p: (Seq<char>, Seq<char>)| (p.0, JsonV::Str(p.1))),
                ),
            ),
        ],
    )
}

fn to_upper(s: &str) -> (r: String)
    ensures
        r@ == upper(s@),
{
    let c = chars_of(s);
    let mut out = String::new();
    let mut i: usize = 0;
    assert(out@ =~= upper(s@).subrange(0, 0));
    while i < c.len()
        invariant
            i <= c@.len(),
            c@ == s@,
            out@ == upper(s@).subrange(0, i as int),
        decreases c@.len() - i,
    {
        let x = c[i];
        let y = if 'a' <= x && x <= 'z' {
            ((x as u8) - 32) as char
        } else {
            x
        };
        out.push(y);
        assert(upper(s@).subrange(0, i as int).push(y) =~= upper(s@).subrange(
            0,
            i + 1,
        ));
        i += 1;
    }
    assert(upper(s@).subrange(0, i as int) =~= upper(s@));
    out
}

fn name_of(key: &str) -> (r: String)
    ensures
        r@ == logger_name(key@),
{
    proof {
        reveal_strlit("logger.");
    }
    let c = chars_of(key);
    if starts_with(key, "logger.") {
        string_of(c.as_slice(), 7, c.len())
    } else {
        key.to_owned()
    }
}

/// The levels at start-up.
pub fn default_logger_levels() -> (r: LoggerLevels)
    ensures
        r@ == default_levels(),
{
    let mut entries: Vec<(String, String)> = Vec::new();
    entries.push(("logstash.agent".to_owned(), "INFO".to_owned()));
    entries.push(("logstash.pipeline".to_owned(), "INFO".to_owned()));
    entries.push(("logstash.outputs.elasticsearch".to_owned(), "INFO".to_owned()));
    entries.push(("logstash.inputs.stdin".to_owned(), "INFO".to_owned()));
    entries.push(("slowlog.logstash.pipeline".to_owned(), "TRACE".to_owned()));
    let r = LoggerLevels { entries, named: Vec::new() };
    assert(r@.levels =~= default_levels().levels);
    assert(r@.named =~= default_levels().named);
    r
}

impl LoggerLevels {
    fn is_named(&self, name: &str) -> (r: bool)
        ensures
            r == self@.named.contains(name@),
    {
        let ghost nv = self@.named;
        let mut i: usize = 0;
        while i < self.named.len()
            invariant
                i <= self.named@.len(),
                nv == texts_view(self.named@),
                forall|k: int| 0 <= k < i ==> #[trigger] nv[k] != name@,
            decreases self.named@.len() - i,
        {
            assert(nv[i as int] == self.named@[i as int]@);
            if same(&self.named[i], name) {
                return true;
            }
            i += 1;
        }
        false
    }

    fn set(&mut self, name: &str, level: &str)
        ensures
            final(self)@ == (LevelsV { levels: put(old(self)@.levels, name@, level@), ..old(self)@ }),
    {
        let ghost before = self@.levels;
        let i = find_key::<String, Seq<char>>(&self.entries, name, Ghost(before));
        proof {
            lemma_key_from(before, name@, 0);
        }
        if i < self.entries.len() {
            self.entries.set(i, (name.to_owned(), level.to_owned()));
            assert(self@.levels =~= before.update(i as int, (name@, level@)));
        } else {
            self.entries.push((name.to_owned(), level.to_owned()));
            assert(self@.levels =~= before.push((name@, level@)));
        }
    }

    fn set_covered(&mut self, name: &str, level: &str)
        ensures
            final(self)@.levels == with_covered(
                old(self)@.levels,
                old(self)@.named,
                name@,
                level@,
            ),
            final(self)@.named == old(self)@.named,
    {
        let prefix = join2(name, ".");
        let root = name.is_empty();
        let ghost before = self@.levels;
        let ghost named = self@.named;
        let ghost after = with_covered(before, named, name@, level@);
        let mut i: usize = 0;
        while i < self.entries.len()
            invariant
                i <= self.entries@.len(),
                self.entries@.len() == before.len(),
                self@.named == named,
                after == with_covered(before, named, name@, level@),
                prefix@ == name@ + "."@,
                root == (name@.len() == 0),
                forall|k: int| i <= k < before.len() ==> #[trigger] self@.levels[k] == before[k],
                forall|k: int| 0 <= k < i ==> #[trigger] self@.levels[k] == after[k],
            decreases self.entries@.len() - i,
        {
            assert(self@.levels[i as int] == before[i as int]);
            let hit = if root {
                !starts_with(&self.entries[i].0, "slowlog")
            } else {
                starts_with(&self.entries[i].0, &prefix)
            };
            let ghost now = self@.levels;
            if hit && !self.is_named(&self.entries[i].0) {
                let k = self.entries[i].0.clone();
                self.entries.set(i, (k, level.to_owned()));
                assert(self@.levels =~= now.update(i as int, (k@, level@)));
            }
            i += 1;
        }
        assert(self@.levels =~= after);
    }

    fn set_level(&mut self, name: &str, level: &str)
        ensures
            final(self)@ == with_level(old(self)@, name@, level@),
    {
        if name.is_empty() {
            self.set_covered(name, level);
            return;
        }
        self.set(name, level);
        self.set_covered(name, level);
        if !self.is_named(name) {
            let ghost before = self@.named;
            self.named.push(name.to_owned());
            assert(self@.named =~= before.push(name@));
        }
    }

    /// Sets levels as a request asks: `{"logger.<name>": "<LEVEL>"}`. The name
    /// of a package stands for the loggers below it, the empty name for all but
    /// the slow logs; a logger that was set by its own name keeps its level.
    pub fn put_logging(&mut self, payload: &Json)
        ensures
            final(self)@ == after_request(old(self)@, payload.view()),
    {
        let ghost before = self@;
        if let Json::Object(p) = payload {
            let mut i: usize = 0;
            while i < p.len()
                invariant
                    i <= p@.len(),
                    with_settings(before, entries_view(p@), 0) == with_settings(
                        self@,
                        entries_view(p@),
                        i as int,
                    ),
                decreases p@.len() - i,
            {
                assert(entries_view(p@)[i as int] == (p@[i as int].0@, p@[i as int].1.view()));
                let level = match &p[i].1 {
                    Json::Str(s) => to_upper(s),
                    _ => to_upper("INFO"),
                };
                let name = name_of(&p[i].0);
                self.set_level(&name, &level);
                i += 1;
            }
        }
    }

    /// Takes the levels back to those at start-up.
    pub fn reset_logging(&mut self)
        ensures
            final(self)@ == default_levels(),
    {
        *self = default_logger_levels();
    }

    /// The levels as the monitoring API shows them.
    pub fn get_logging(&self) -> (r: Json)
        ensures
            r.view() == levels_json(self@),
    {
        let ghost shown = self@.levels.map_values(|p: (Seq<char>, Seq<char>)| (p.0, JsonV::Str(p.1)));
        let mut p: Vec<(String, Json)> = Vec::new();
        let mut i: usize = 0;
        while i < self.entries.len()
            invariant
                i <= self.entries@.len(),
                shown == self@.levels.map_values(
                    |p: (Seq<char>, Seq<char>)| (p.0, JsonV::Str(p.1)),
                ),
                entries_view(p@) =~= shown.subrange(0, i as int),
            decreases self.entries@.len() - i,
        {
            let ghost before = entries_view(p@);
            p.push((self.entries[i].0.clone(), text_value(&self.entries[i].1)));
            assert(entries_view(p@) =~= before.push(shown[i as int]));
            i += 1;
        }
        assert(shown.subrange(0, i as int) =~= shown);
        let mut o: Vec<(String, Json)> = Vec::new();
        o.push(("loggers".to_owned(), Json::Object(p)));
        assert(entries_view(o@) =~= seq![("loggers"@, JsonV::Object(shown))]);
        Json::Object(o)
    }
}

proof fn lemma_covered_keys(
    levels: Levels,
    named: Seq<Seq<char>>,
    name: Seq<char>,
    level: Seq<char>,
)
    ensures
        forall|i: int|
            0 <= i < levels.len() ==> (#[trigger] with_covered(levels, named, name, level)[i]).0
                == levels[i].0,
        distinct_keys(levels) ==> distinct_keys(with_covered(levels, named, name, level)),
{
    let q = with_covered(levels, named, name, level);
    if distinct_keys(levels) {
        assert forall|i: int, j: int| 0 <= i < j < q.len() implies (#[trigger] q[i]).0 != (
        #[trigger] q[j]).0 by {
            assert(levels[i].0 != levels[j].0);
        }
    }
}

/// Setting the root sets every logger but the slow logs and those that were set
/// by their own name, which keep their levels; no logger comes or goes.
pub proof fn root_spares_slow_logs(l: LevelsV, level: Seq<char>, i: int)
    requires
        0 <= i < l.levels.len(),
    ensures
        ({
            let after = with_level(l, Seq::empty(), level);
            let logger = l.levels[i].0;
            let spared = "slowlog"@.is_prefix_of(logger) || l.named.contains(logger);
            &&& after.levels.len() == l.levels.len()
            &&& after.named == l.named
            &&& after.levels[i].0 == logger
            &&& spared ==> after.levels[i].1 == l.levels[i].1
            &&& !spared ==> after.levels[i].1 == level
        }),
{
}

/// Setting a logger sets it and those below it that were not set by their own
/// name, and no other.
pub proof fn package_sets_its_loggers(l: LevelsV, name: Seq<char>, level: Seq<char>, i: int)
    requires
        name.len() > 0,
        0 <= i < with_level(l, name, level).levels.len(),
    ensures
        ({
            let after = with_level(l, name, level).levels;
            let n = key_from(l.levels, name, 0);
            let below = (name + "."@).is_prefix_of(after[i].0) && !l.named.contains(after[i].0);
            &&& 0 <= n < after.len() && after[n] == (name, level)
            &&& below ==> after[i].1 == level
            &&& i != n && !below ==> i < l.levels.len() && after[i] == l.levels[i]
            &&& with_level(l, name, level).named.contains(name)
        }),
{
    lemma_key_from(l.levels, name, 0);
    let p = put(l.levels, name, level);
    lemma_covered_keys(p, l.named, name, level);
    let pushed = l.named.push(name);
    assert(pushed[pushed.len() - 1] == name);
    assert(!(name + "."@).is_prefix_of(name)) by {
        reveal_strlit(".");
    }
}

/// A level that was set by a logger's own name stays until that name is set
/// again, or all levels are reset.
pub proof fn named_levels_stay(l: LevelsV, name: Seq<char>, level: Seq<char>, i: int)
    requires
        0 <= i < l.levels.len(),
        l.named.contains(l.levels[i].0),
        l.levels[i].0 != name,
    ensures
        with_level(l, name, level).levels[i] == l.levels[i],
        with_level(l, name, level).named.contains(l.levels[i].0),
{
    lemma_key_from(l.levels, name, 0);
    let k = choose|k: int| 0 <= k < l.named.len() && l.named[k] == l.levels[i].0;
    assert(l.named.push(name)[k] == l.levels[i].0);
}

/// No logger comes to have two levels.
pub proof fn levels_stay_distinct(l: LevelsV, payload: JsonV)
    requires
        distinct_keys(l.levels),
    ensures
        distinct_keys(after_request(l, payload).levels),
{
    if let JsonV::Object(p) = payload {
        lemma_settings_distinct(l, p, 0);
    }
}

proof fn lemma_settings_distinct(l: LevelsV, p: Seq<(Seq<char>, JsonV)>, i: int)
    requires
        distinct_keys(l.levels),
    ensures
        distinct_keys(with_settings(l, p, i).levels),
    decreases p.len() - i,
{
    if 0 <= i < p.len() {
        let name = logger_name(p[i].0);
        let level = level_of(p[i].1);
        put_then_lookup(l.levels, name, level, name);
        lemma_covered_keys(l.levels, l.named, name, level);
        lemma_covered_keys(put(l.levels, name, level), l.named, name, level);
        lemma_settings_distinct(with_level(l, name, level), p, i + 1);
    }
}

} // verus!
