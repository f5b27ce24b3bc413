//! The codecs by name.
use crate::codec::avro::AvroCodec;
use crate::codec::bytes_codec::BytesCodec;
use crate::codec::cef::CefCodec;
use crate::codec::cloudfront::CloudfrontCodec;
use crate::codec::cloudtrail::CloudtrailCodec;
use crate::codec::collectd::CollectdCodec;
use crate::codec::csv_codec::CsvCodec;
use crate::codec::dots::DotsCodec;
use crate::codec::edn::EdnCodec;
use crate::codec::es_bulk::EsBulkCodec;
use crate::codec::fluent::FluentCodec;
use crate::codec::graphite::GraphiteCodec;
use crate::codec::json::JsonCodec;
use crate::codec::msgpack::MsgpackCodec;
use crate::codec::multiline::{pattern_setting, MultilineCodec};
use crate::codec::netflow::NetflowCodec;
use crate::codec::nmap::NmapCodec;
use crate::codec::plain::PlainCodec;
use crate::codec::protobuf::ProtobufCodec;
use crate::codec::rubydebug::RubydebugCodec;
use crate::codec::script::ScriptCodec;
use crate::codec::{Codec, CodecErrV, CodecError, DecodedV, EncodedV, TemplatesV};
use crate::double::{Answers, AnswersV};
use crate::event::{Event, EventV};
use crate::json::{Json, JsonV};
use crate::moment::Moment;
use crate::script::regexes::regex_fault;
use crate::text::{join2, same, texts_view};
use vstd::prelude::*;

verus! {

broadcast use vstd::string::group_string_axioms;

/// Any of the codecs.
#[derive(Debug)]
pub enum AnyCodec {
    Json(JsonCodec),
    Plain(PlainCodec),
    Multiline(MultilineCodec),
    Csv(CsvCodec),
    Script(ScriptCodec),
    Rubydebug(RubydebugCodec),
    Dots(DotsCodec),
    Bytes(BytesCodec),
    EsBulk(EsBulkCodec),
    Msgpack(MsgpackCodec),
    Fluent(FluentCodec),
    Graphite(GraphiteCodec),
    Cef(CefCodec),
    Netflow(NetflowCodec),
    Collectd(CollectdCodec),
    Avro(AvroCodec),
    Protobuf(ProtobufCodec),
    Cloudfront(CloudfrontCodec),
    Cloudtrail(CloudtrailCodec),
    Nmap(NmapCodec),
    Edn(EdnCodec),
}

/// The names of the codecs.
pub open spec fn codec_names() -> Seq<Seq<char>> {
    seq![
        "json"@,
        "json_lines"@,
        "plain"@,
        "line"@,
        "multiline"@,
        "csv"@,
        "script"@,
        "ruby"@,
        "rubydebug"@,
        "dots"@,
        "bytes"@,
        "es_bulk"@,
        "msgpack"@,
        "fluent"@,
        "graphite"@,
        "cef"@,
        "netflow"@,
        "collectd"@,
        "avro"@,
        "protobuf"@,
        "cloudfront"@,
        "cloudtrail"@,
        "nmap"@,
        "edn"@,
        "edn_lines"@,
    ]
}

/// Whether a codec is the one that a name and settings ask for.
pub open spec fn made_by(c: AnyCodec, name: Seq<char>, settings: JsonV) -> bool {
    match c {
        AnyCodec::Json(x) => (name == "json"@ || name == "json_lines"@) && x.configured(settings),
        AnyCodec::Plain(x) => (name == "plain"@ || name == "line"@) && x.configured(settings),
        AnyCodec::Multiline(x) => name == "multiline"@ && x.configured(settings),
        AnyCodec::Csv(x) => name == "csv"@ && x.configured(settings),
        AnyCodec::Script(x) => (name == "script"@ || name == "ruby"@) && x.configured(settings),
        AnyCodec::Rubydebug(_) => name == "rubydebug"@,
        AnyCodec::Dots(_) => name == "dots"@,
        AnyCodec::Bytes(_) => name == "bytes"@,
        AnyCodec::EsBulk(x) => name == "es_bulk"@ && x.configured(settings),
        AnyCodec::Msgpack(x) => name == "msgpack"@ && x.configured(settings),
        AnyCodec::Fluent(x) => name == "fluent"@ && x.configured(settings),
        AnyCodec::Graphite(x) => name == "graphite"@ && x.configured(settings),
        AnyCodec::Cef(x) => name == "cef"@ && x.configured(settings),
        AnyCodec::Netflow(x) => name == "netflow"@ && x.configured(settings),
        AnyCodec::Collectd(x) => name == "collectd"@ && x.configured(settings),
        AnyCodec::Avro(x) => name == "avro"@ && x.configured(settings),
        AnyCodec::Protobuf(x) => name == "protobuf"@ && x.configured(settings),
        AnyCodec::Cloudfront(x) => name == "cloudfront"@ && x.configured(settings),
        AnyCodec::Cloudtrail(x) => name == "cloudtrail"@ && x.configured(settings),
        AnyCodec::Nmap(_) => name == "nmap"@,
        AnyCodec::Edn(x) => (name == "edn"@ || name == "edn_lines"@) && x.configured(settings),
    }
}

/// Whether a codec has that name.
pub open spec fn is_known(name: Seq<char>) -> bool {
    name == "json"@ || name == "json_lines"@ || name == "plain"@ || name == "line"@
        || name == "multiline"@ || name == "csv"@ || name == "script"@ || name == "ruby"@
        || name == "rubydebug"@ || name == "dots"@ || name == "bytes"@ || name == "es_bulk"@
        || name == "msgpack"@ || name == "fluent"@ || name == "graphite"@ || name == "cef"@
        || name == "netflow"@ || name == "collectd"@ || name == "avro"@ || name == "protobuf"@
        || name == "cloudfront"@ || name == "cloudtrail"@ || name == "nmap"@ || name == "edn"@
        || name == "edn_lines"@
}

/// Why a name and settings give no codec, if they give none: the name is not
/// known, or the pattern of `multiline` does not compile.
pub open spec fn codec_fault(name: Seq<char>, settings: JsonV) -> Option<Seq<char>> {
    if name == "multiline"@ {
        match regex_fault(pattern_setting(settings)) {
            Some(m) => Some("invalid multiline pattern: "@ + m),
            None => None,
        }
    } else if is_known(name) {
        None
    } else {
        Some("unknown codec: "@ + name)
    }
}

/// Whether `r` is the codec that a name and settings ask for, or why there is
/// none.
pub open spec fn gives_codec(
    r: Result<AnyCodec, CodecError>,
    name: Seq<char>,
    settings: JsonV,
) -> bool {
    match (r, codec_fault(name, settings)) {
        (Ok(c), None) => made_by(c, name, settings),
        (Err(e), Some(m)) => e@ == CodecErrV::Codec(m),
        _ => false,
    }
}

/// Creates a codec by name.
#[verifier::spinoff_prover]
pub fn create_codec(name: &str, settings: &Json) -> (r: Result<AnyCodec, CodecError>)
    ensures
        gives_codec(r, name@, settings.view()),
        is_known(name@) && pattern_setting(settings.view()) == "^\\s"@ ==> r is Ok,
{
    if same(name, "multiline") {
        return match MultilineCodec::from_config(settings) {
            Ok(c) => Ok(AnyCodec::Multiline(c)),
            Err(e) => Err(e),
        };
    }
    if same(name, "json") || same(name, "json_lines") {
        return match JsonCodec::from_config(settings) {
            Ok(c) => Ok(AnyCodec::Json(c)),
            Err(e) => Err(e),
        };
    }
    if same(name, "plain") || same(name, "line") {
        return match PlainCodec::from_config(settings) {
            Ok(c) => Ok(AnyCodec::Plain(c)),
            Err(e) => Err(e),
        };
    }
    if same(name, "csv") {
        return match CsvCodec::from_config(settings) {
            Ok(c) => Ok(AnyCodec::Csv(c)),
            Err(e) => Err(e),
        };
    }
    if same(name, "script") || same(name, "ruby") {
        return match ScriptCodec::from_config(settings) {
            Ok(c) => Ok(AnyCodec::Script(c)),
            Err(e) => Err(e),
        };
    }
    if same(name, "rubydebug") {
        return match RubydebugCodec::from_config(settings) {
            Ok(c) => Ok(AnyCodec::Rubydebug(c)),
            Err(e) => Err(e),
        };
    }
    if same(name, "dots") {
        return match DotsCodec::from_config(settings) {
            Ok(c) => Ok(AnyCodec::Dots(c)),
            Err(e) => Err(e),
        };
    }
    if same(name, "bytes") {
        return match BytesCodec::from_config(settings) {
            Ok(c) => Ok(AnyCodec::Bytes(c)),
            Err(e) => Err(e),
        };
    }
    if same(name, "es_bulk") {
        return match EsBulkCodec::from_config(settings) {
            Ok(c) => Ok(AnyCodec::EsBulk(c)),
            Err(e) => Err(e),
        };
    }
    if same(name, "msgpack") {
        return match MsgpackCodec::from_config(settings) {
            Ok(c) => Ok(AnyCodec::Msgpack(c)),
            Err(e) => Err(e),
        };
    }
    if same(name, "fluent") {
        return match FluentCodec::from_config(settings) {
            Ok(c) => Ok(AnyCodec::Fluent(c)),
            Err(e) => Err(e),
        };
    }
    if same(name, "graphite") {
        return match GraphiteCodec::from_config(settings) {
            Ok(c) => Ok(AnyCodec::Graphite(c)),
            Err(e) => Err(e),
        };
    }
    if same(name, "cef") {
        return match CefCodec::from_config(settings) {
            Ok(c) => Ok(AnyCodec::Cef(c)),
            Err(e) => Err(e),
        };
    }
    if same(name, "netflow") {
        return match NetflowCodec::from_config(settings) {
            Ok(c) => Ok(AnyCodec::Netflow(c)),
            Err(e) => Err(e),
        };
    }
    if same(name, "collectd") {
        return match CollectdCodec::from_config(settings) {
            Ok(c) => Ok(AnyCodec::Collectd(c)),
            Err(e) => Err(e),
        };
    }
    if same(name, "avro") {
        return match AvroCodec::from_config(settings) {
            Ok(c) => Ok(AnyCodec::Avro(c)),
            Err(e) => Err(e),
        };
    }
    if same(name, "protobuf") {
        return match ProtobufCodec::from_config(settings) {
            Ok(c) => Ok(AnyCodec::Protobuf(c)),
            Err(e) => Err(e),
        };
    }
    if same(name, "cloudfront") {
        return match CloudfrontCodec::from_config(settings) {
            Ok(c) => Ok(AnyCodec::Cloudfront(c)),
            Err(e) => Err(e),
        };
    }
    if same(name, "cloudtrail") {
        return match CloudtrailCodec::from_config(settings) {
            Ok(c) => Ok(AnyCodec::Cloudtrail(c)),
            Err(e) => Err(e),
        };
    }
    if same(name, "nmap") {
        return match NmapCodec::from_config(settings) {
            Ok(c) => Ok(AnyCodec::Nmap(c)),
            Err(e) => Err(e),
        };
    }
    if same(name, "edn") || same(name, "edn_lines") {
        return match EdnCodec::from_config(settings) {
            Ok(c) => Ok(AnyCodec::Edn(c)),
            Err(e) => Err(e),
        };
    }
    Err(CodecError::Codec(join2("unknown codec: ", name)))
}

/// The default codec: plain text.
pub fn default_codec() -> (r: AnyCodec)
    ensures
        r matches AnyCodec::Plain(c) && c.charset@ == "UTF-8"@ && c.format is None,
{
    AnyCodec::Plain(PlainCodec::default())
}

/// All supported codec names.
pub fn supported_codecs() -> (r: Vec<&'static str>)
    ensures
        r@.map_values(|s: &'static str| s@) == codec_names(),
{
    let mut r: Vec<&'static str> = Vec::new();
    r.push("json");
    r.push("json_lines");
    r.push("plain");
    r.push("line");
    r.push("multiline");
    r.push("csv");
    r.push("script");
    r.push("ruby");
    r.push("rubydebug");
    r.push("dots");
    r.push("bytes");
    r.push("es_bulk");
    r.push("msgpack");
    r.push("fluent");
    r.push("graphite");
    r.push("cef");
    r.push("netflow");
    r.push("collectd");
    r.push("avro");
    r.push("protobuf");
    r.push("cloudfront");
    r.push("cloudtrail");
    r.push("nmap");
    r.push("edn");
    r.push("edn_lines");
    assert(r@.map_values(|s: &'static str| s@) =~= codec_names());
    r
}

/// A name gives a codec, whatever the settings, if it is one of the supported
/// names other than `multiline`; `multiline` gives one if its pattern compiles;
/// no other name gives one.
#[verifier::spinoff_prover]
pub proof fn supported_names_give_codecs(name: Seq<char>, settings: JsonV)
    ensures
        codec_names().contains(name) <==> is_known(name),
        codec_names().contains(name) && name != "multiline"@ ==> codec_fault(name, settings) is None,
        name == "multiline"@ ==> (codec_fault(name, settings) is None <==> regex_fault(
            pattern_setting(settings),
        ) is None),
        !codec_names().contains(name) ==> codec_fault(name, settings) is Some,
{
    let s = codec_names();
    assert(s.len() == 25);
    assert(s[0] == "json"@);
    assert(s[1] == "json_lines"@);
    assert(s[2] == "plain"@);
    assert(s[3] == "line"@);
    assert(s[4] == "multiline"@);
    assert(s[5] == "csv"@);
    assert(s[6] == "script"@);
    assert(s[7] == "ruby"@);
    assert(s[8] == "rubydebug"@);
    assert(s[9] == "dots"@);
    assert(s[10] == "bytes"@);
    assert(s[11] == "es_bulk"@);
    assert(s[12] == "msgpack"@);
    assert(s[13] == "fluent"@);
    assert(s[14] == "graphite"@);
    assert(s[15] == "cef"@);
    assert(s[16] == "netflow"@);
    assert(s[17] == "collectd"@);
    assert(s[18] == "avro"@);
    assert(s[19] == "protobuf"@);
    assert(s[20] == "cloudfront"@);
    assert(s[21] == "cloudtrail"@);
    assert(s[22] == "nmap"@);
    assert(s[23] == "edn"@);
    assert(s[24] == "edn_lines"@);
    if s.contains(name) {
        let i = choose|i: int| 0 <= i < s.len() && s[i] == name;
        assert(0 <= i < 25 && s[i] == name);
    }
}

/// A codec that was made by a name shows the name under which its kind is
/// known: the name itself, or the first of several.
#[verifier::spinoff_prover]
pub proof fn codecs_know_their_names(c: AnyCodec, name: Seq<char>, settings: JsonV)
    requires
        made_by(c, name, settings),
    ensures
        c.name_v() == (if name == "json_lines"@ {
            "json"@
        } else if name == "line"@ {
            "plain"@
        } else if name == "ruby"@ {
            "script"@
        } else if name == "edn_lines"@ {
            "edn"@
        } else {
            name
        }),
{
    reveal_strlit("json");
    reveal_strlit("json_lines");
    reveal_strlit("plain");
    reveal_strlit("line");
    reveal_strlit("multiline");
    reveal_strlit("csv");
    reveal_strlit("script");
    reveal_strlit("ruby");
    reveal_strlit("rubydebug");
    reveal_strlit("dots");
    reveal_strlit("bytes");
    reveal_strlit("es_bulk");
    reveal_strlit("msgpack");
    reveal_strlit("fluent");
    reveal_strlit("graphite");
    reveal_strlit("cef");
    reveal_strlit("netflow");
    reveal_strlit("collectd");
    reveal_strlit("avro");
    reveal_strlit("protobuf");
    reveal_strlit("cloudfront");
    reveal_strlit("cloudtrail");
    reveal_strlit("nmap");
    reveal_strlit("edn");
    reveal_strlit("edn_lines");
    assert("cloudfront"@[0] != "json_lines"@[0]);
    assert("cloudtrail"@[0] != "json_lines"@[0]);
    assert("json"@[0] != "line"@[0]);
    assert("ruby"@[0] != "line"@[0]);
    assert("dots"@[0] != "line"@[0]);
    assert("avro"@[0] != "line"@[0]);
    assert("nmap"@[0] != "line"@[0]);
    assert("json"@[0] != "ruby"@[0]);
    assert("line"@[0] != "ruby"@[0]);
    assert("dots"@[0] != "ruby"@[0]);
    assert("avro"@[0] != "ruby"@[0]);
    assert("nmap"@[0] != "ruby"@[0]);
    assert("multiline"@[0] != "edn_lines"@[0]);
    assert("rubydebug"@[0] != "edn_lines"@[0]);
}

impl Codec for AnyCodec {
    open spec fn name_v(&self) -> Seq<char> {
        match self {
            AnyCodec::Json(c) => c.name_v(),
            AnyCodec::Plain(c) => c.name_v(),
            AnyCodec::Multiline(c) => c.name_v(),
            AnyCodec::Csv(c) => c.name_v(),
            AnyCodec::Script(c) => c.name_v(),
            AnyCodec::Rubydebug(c) => c.name_v(),
            AnyCodec::Dots(c) => c.name_v(),
            AnyCodec::Bytes(c) => c.name_v(),
            AnyCodec::EsBulk(c) => c.name_v(),
            AnyCodec::Msgpack(c) => c.name_v(),
            AnyCodec::Fluent(c) => c.name_v(),
            AnyCodec::Graphite(c) => c.name_v(),
            AnyCodec::Cef(c) => c.name_v(),
            AnyCodec::Netflow(c) => c.name_v(),
            AnyCodec::Collectd(c) => c.name_v(),
            AnyCodec::Avro(c) => c.name_v(),
            AnyCodec::Protobuf(c) => c.name_v(),
            AnyCodec::Cloudfront(c) => c.name_v(),
            AnyCodec::Cloudtrail(c) => c.name_v(),
            AnyCodec::Nmap(c) => c.name_v(),
            AnyCodec::Edn(c) => c.name_v(),
        }
    }

    open spec fn decoded(&self, data: Seq<u8>, now: Moment, t: AnswersV) -> DecodedV {
        match self {
            AnyCodec::Json(c) => c.decoded(data, now, t),
            AnyCodec::Plain(c) => c.decoded(data, now, t),
            AnyCodec::Multiline(c) => c.decoded(data, now, t),
            AnyCodec::Csv(c) => c.decoded(data, now, t),
            AnyCodec::Script(c) => c.decoded(data, now, t),
            AnyCodec::Rubydebug(c) => c.decoded(data, now, t),
            AnyCodec::Dots(c) => c.decoded(data, now, t),
            AnyCodec::Bytes(c) => c.decoded(data, now, t),
            AnyCodec::EsBulk(c) => c.decoded(data, now, t),
            AnyCodec::Msgpack(c) => c.decoded(data, now, t),
            AnyCodec::Fluent(c) => c.decoded(data, now, t),
            AnyCodec::Graphite(c) => c.decoded(data, now, t),
            AnyCodec::Cef(c) => c.decoded(data, now, t),
            AnyCodec::Netflow(c) => c.decoded(data, now, t),
            AnyCodec::Collectd(c) => c.decoded(data, now, t),
            AnyCodec::Avro(c) => c.decoded(data, now, t),
            AnyCodec::Protobuf(c) => c.decoded(data, now, t),
            AnyCodec::Cloudfront(c) => c.decoded(data, now, t),
            AnyCodec::Cloudtrail(c) => c.decoded(data, now, t),
            AnyCodec::Nmap(c) => c.decoded(data, now, t),
            AnyCodec::Edn(c) => c.decoded(data, now, t),
        }
    }

    open spec fn encoded(&self, e: EventV, t: AnswersV) -> EncodedV {
        match self {
            AnyCodec::Json(c) => c.encoded(e, t),
            AnyCodec::Plain(c) => c.encoded(e, t),
            AnyCodec::Multiline(c) => c.encoded(e, t),
            AnyCodec::Csv(c) => c.encoded(e, t),
            AnyCodec::Script(c) => c.encoded(e, t),
            AnyCodec::Rubydebug(c) => c.encoded(e, t),
            AnyCodec::Dots(c) => c.encoded(e, t),
            AnyCodec::Bytes(c) => c.encoded(e, t),
            AnyCodec::EsBulk(c) => c.encoded(e, t),
            AnyCodec::Msgpack(c) => c.encoded(e, t),
            AnyCodec::Fluent(c) => c.encoded(e, t),
            AnyCodec::Graphite(c) => c.encoded(e, t),
            AnyCodec::Cef(c) => c.encoded(e, t),
            AnyCodec::Netflow(c) => c.encoded(e, t),
            AnyCodec::Collectd(c) => c.encoded(e, t),
            AnyCodec::Avro(c) => c.encoded(e, t),
            AnyCodec::Protobuf(c) => c.encoded(e, t),
            AnyCodec::Cloudfront(c) => c.encoded(e, t),
            AnyCodec::Cloudtrail(c) => c.encoded(e, t),
            AnyCodec::Nmap(c) => c.encoded(e, t),
            AnyCodec::Edn(c) => c.encoded(e, t),
        }
    }

    open spec fn learned(&self) -> TemplatesV {
        match self {
            AnyCodec::Json(c) => c.learned(),
            AnyCodec::Plain(c) => c.learned(),
            AnyCodec::Multiline(c) => c.learned(),
            AnyCodec::Csv(c) => c.learned(),
            AnyCodec::Script(c) => c.learned(),
            AnyCodec::Rubydebug(c) => c.learned(),
            AnyCodec::Dots(c) => c.learned(),
            AnyCodec::Bytes(c) => c.learned(),
            AnyCodec::EsBulk(c) => c.learned(),
            AnyCodec::Msgpack(c) => c.learned(),
            AnyCodec::Fluent(c) => c.learned(),
            AnyCodec::Graphite(c) => c.learned(),
            AnyCodec::Cef(c) => c.learned(),
            AnyCodec::Netflow(c) => c.learned(),
            AnyCodec::Collectd(c) => c.learned(),
            AnyCodec::Avro(c) => c.learned(),
            AnyCodec::Protobuf(c) => c.learned(),
            AnyCodec::Cloudfront(c) => c.learned(),
            AnyCodec::Cloudtrail(c) => c.learned(),
            AnyCodec::Nmap(c) => c.learned(),
            AnyCodec::Edn(c) => c.learned(),
        }
    }

    open spec fn learned_after(&self, data: Seq<u8>) -> TemplatesV {
        match self {
            AnyCodec::Json(c) => c.learned_after(data),
            AnyCodec::Plain(c) => c.learned_after(data),
            AnyCodec::Multiline(c) => c.learned_after(data),
            AnyCodec::Csv(c) => c.learned_after(data),
            AnyCodec::Script(c) => c.learned_after(data),
            AnyCodec::Rubydebug(c) => c.learned_after(data),
            AnyCodec::Dots(c) => c.learned_after(data),
            AnyCodec::Bytes(c) => c.learned_after(data),
            AnyCodec::EsBulk(c) => c.learned_after(data),
            AnyCodec::Msgpack(c) => c.learned_after(data),
            AnyCodec::Fluent(c) => c.learned_after(data),
            AnyCodec::Graphite(c) => c.learned_after(data),
            AnyCodec::Cef(c) => c.learned_after(data),
            AnyCodec::Netflow(c) => c.learned_after(data),
            AnyCodec::Collectd(c) => c.learned_after(data),
            AnyCodec::Avro(c) => c.learned_after(data),
            AnyCodec::Protobuf(c) => c.learned_after(data),
            AnyCodec::Cloudfront(c) => c.learned_after(data),
            AnyCodec::Cloudtrail(c) => c.learned_after(data),
            AnyCodec::Nmap(c) => c.learned_after(data),
            AnyCodec::Edn(c) => c.learned_after(data),
        }
    }

    open spec fn stateful(&self) -> bool {
        match self {
            AnyCodec::Json(c) => c.stateful(),
            AnyCodec::Plain(c) => c.stateful(),
            AnyCodec::Multiline(c) => c.stateful(),
            AnyCodec::Csv(c) => c.stateful(),
            AnyCodec::Script(c) => c.stateful(),
            AnyCodec::Rubydebug(c) => c.stateful(),
            AnyCodec::Dots(c) => c.stateful(),
            AnyCodec::Bytes(c) => c.stateful(),
            AnyCodec::EsBulk(c) => c.stateful(),
            AnyCodec::Msgpack(c) => c.stateful(),
            AnyCodec::Fluent(c) => c.stateful(),
            AnyCodec::Graphite(c) => c.stateful(),
            AnyCodec::Cef(c) => c.stateful(),
            AnyCodec::Netflow(c) => c.stateful(),
            AnyCodec::Collectd(c) => c.stateful(),
            AnyCodec::Avro(c) => c.stateful(),
            AnyCodec::Protobuf(c) => c.stateful(),
            AnyCodec::Cloudfront(c) => c.stateful(),
            AnyCodec::Cloudtrail(c) => c.stateful(),
            AnyCodec::Nmap(c) => c.stateful(),
            AnyCodec::Edn(c) => c.stateful(),
        }
    }

    fn name(&self) -> (r: &'static str) {
        match self {
            AnyCodec::Json(c) => c.name(),
            AnyCodec::Plain(c) => c.name(),
            AnyCodec::Multiline(c) => c.name(),
            AnyCodec::Csv(c) => c.name(),
            AnyCodec::Script(c) => c.name(),
            AnyCodec::Rubydebug(c) => c.name(),
            AnyCodec::Dots(c) => c.name(),
            AnyCodec::Bytes(c) => c.name(),
            AnyCodec::EsBulk(c) => c.name(),
            AnyCodec::Msgpack(c) => c.name(),
            AnyCodec::Fluent(c) => c.name(),
            AnyCodec::Graphite(c) => c.name(),
            AnyCodec::Cef(c) => c.name(),
            AnyCodec::Netflow(c) => c.name(),
            AnyCodec::Collectd(c) => c.name(),
            AnyCodec::Avro(c) => c.name(),
            AnyCodec::Protobuf(c) => c.name(),
            AnyCodec::Cloudfront(c) => c.name(),
            AnyCodec::Cloudtrail(c) => c.name(),
            AnyCodec::Nmap(c) => c.name(),
            AnyCodec::Edn(c) => c.name(),
        }
    }

    fn decode(&mut self, data: &[u8], now: Moment, answers: &Answers) -> (r: Result<
        Vec<Event>,
        CodecError,
    >)
        ensures
            match (*old(self), *final(self)) {
                (AnyCodec::Netflow(a), AnyCodec::Netflow(b)) => a.target_version
                    == b.target_version,
                (AnyCodec::Cloudfront(a), AnyCodec::Cloudfront(b)) => texts_view(b.fields@)
                    == a.fields_after(data@) && a.detect == b.detect,
                (a, b) => a == b,
            },
    {
        match self {
            AnyCodec::Json(c) => c.decode(data, now, answers),
            AnyCodec::Plain(c) => c.decode(data, now, answers),
            AnyCodec::Multiline(c) => c.decode(data, now, answers),
            AnyCodec::Csv(c) => c.decode(data, now, answers),
            AnyCodec::Script(c) => c.decode(data, now, answers),
            AnyCodec::Rubydebug(c) => c.decode(data, now, answers),
            AnyCodec::Dots(c) => c.decode(data, now, answers),
            AnyCodec::Bytes(c) => c.decode(data, now, answers),
            AnyCodec::EsBulk(c) => c.decode(data, now, answers),
            AnyCodec::Msgpack(c) => c.decode(data, now, answers),
            AnyCodec::Fluent(c) => c.decode(data, now, answers),
            AnyCodec::Graphite(c) => c.decode(data, now, answers),
            AnyCodec::Cef(c) => c.decode(data, now, answers),
            AnyCodec::Netflow(c) => c.decode(data, now, answers),
            AnyCodec::Collectd(c) => c.decode(data, now, answers),
            AnyCodec::Avro(c) => c.decode(data, now, answers),
            AnyCodec::Protobuf(c) => c.decode(data, now, answers),
            AnyCodec::Cloudfront(c) => c.decode(data, now, answers),
            AnyCodec::Cloudtrail(c) => c.decode(data, now, answers),
            AnyCodec::Nmap(c) => c.decode(data, now, answers),
            AnyCodec::Edn(c) => c.decode(data, now, answers),
        }
    }

    fn encode(&self, event: &Event, answers: &Answers) -> (r: Result<Vec<u8>, CodecError>) {
        match self {
            AnyCodec::Json(c) => c.encode(event, answers),
            AnyCodec::Plain(c) => c.encode(event, answers),
            AnyCodec::Multiline(c) => c.encode(event, answers),
            AnyCodec::Csv(c) => c.encode(event, answers),
            AnyCodec::Script(c) => c.encode(event, answers),
            AnyCodec::Rubydebug(c) => c.encode(event, answers),
            AnyCodec::Dots(c) => c.encode(event, answers),
            AnyCodec::Bytes(c) => c.encode(event, answers),
            AnyCodec::EsBulk(c) => c.encode(event, answers),
            AnyCodec::Msgpack(c) => c.encode(event, answers),
            AnyCodec::Fluent(c) => c.encode(event, answers),
            AnyCodec::Graphite(c) => c.encode(event, answers),
            AnyCodec::Cef(c) => c.encode(event, answers),
            AnyCodec::Netflow(c) => c.encode(event, answers),
            AnyCodec::Collectd(c) => c.encode(event, answers),
            AnyCodec::Avro(c) => c.encode(event, answers),
            AnyCodec::Protobuf(c) => c.encode(event, answers),
            AnyCodec::Cloudfront(c) => c.encode(event, answers),
            AnyCodec::Cloudtrail(c) => c.encode(event, answers),
            AnyCodec::Nmap(c) => c.encode(event, answers),
            AnyCodec::Edn(c) => c.encode(event, answers),
        }
    }

    fn is_stateful(&self) -> (r: bool) {
        match self {
            AnyCodec::Json(c) => c.is_stateful(),
            AnyCodec::Plain(c) => c.is_stateful(),
            AnyCodec::Multiline(c) => c.is_stateful(),
            AnyCodec::Csv(c) => c.is_stateful(),
            AnyCodec::Script(c) => c.is_stateful(),
            AnyCodec::Rubydebug(c) => c.is_stateful(),
            AnyCodec::Dots(c) => c.is_stateful(),
            AnyCodec::Bytes(c) => c.is_stateful(),
            AnyCodec::EsBulk(c) => c.is_stateful(),
            AnyCodec::Msgpack(c) => c.is_stateful(),
            AnyCodec::Fluent(c) => c.is_stateful(),
            AnyCodec::Graphite(c) => c.is_stateful(),
            AnyCodec::Cef(c) => c.is_stateful(),
            AnyCodec::Netflow(c) => c.is_stateful(),
            AnyCodec::Collectd(c) => c.is_stateful(),
            AnyCodec::Avro(c) => c.is_stateful(),
            AnyCodec::Protobuf(c) => c.is_stateful(),
            AnyCodec::Cloudfront(c) => c.is_stateful(),
            AnyCodec::Cloudtrail(c) => c.is_stateful(),
            AnyCodec::Nmap(c) => c.is_stateful(),
            AnyCodec::Edn(c) => c.is_stateful(),
        }
    }
}

} // verus!
