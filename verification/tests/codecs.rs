//! Codecs, from bytes to events and back.
use ferro_stash::cli::build_info::rfc3339_utc;
use ferro_stash::codec::avro::AvroCodec;
use ferro_stash::codec::bytes_codec::BytesCodec;
use ferro_stash::codec::cef::{cef_key_full_name, CefCodec};
use ferro_stash::codec::cloudfront::CloudfrontCodec;
use ferro_stash::codec::cloudtrail::CloudtrailCodec;
use ferro_stash::codec::collectd::{
    CollectdCodec, PART_HOST, PART_PLUGIN, PART_TIME, PART_TYPE,
};
use ferro_stash::codec::csv_codec::CsvCodec;
use ferro_stash::codec::dots::DotsCodec;
use ferro_stash::codec::edn::EdnCodec;
use ferro_stash::codec::es_bulk::EsBulkCodec;
use ferro_stash::codec::fluent::FluentCodec;
use ferro_stash::codec::graphite::GraphiteCodec;
use ferro_stash::codec::hex::encode as hex_digits;
use ferro_stash::codec::json::JsonCodec;
use ferro_stash::codec::msgpack::MsgpackCodec;
use ferro_stash::codec::multiline::{MultilineCodec, MultilineMode};
use ferro_stash::codec::netflow::NetflowCodec;
use ferro_stash::codec::nmap::NmapCodec;
use ferro_stash::codec::plain::PlainCodec;
use ferro_stash::codec::protobuf::ProtobufCodec;
use ferro_stash::codec::rubydebug::RubydebugCodec;
use ferro_stash::codec::script::ScriptCodec;
use ferro_stash::codec::varint::{read_varint, unfold};
use ferro_stash::codec::{create_codec, default_codec, supported_codecs, Codec, CodecError};
use ferro_stash::double::{Answers, Double, DoubleAnswer, DoubleQuery};
use ferro_stash::event::Event;
use ferro_stash::json::Json;
use ferro_stash::moment::Moment;

const AVRO_MAGIC: &[u8] = b"Obj\x01";

const NOW: Moment = Moment { secs: 1_775_952_000, nanos: 0 };

/// The library's value of a JSON value.
fn lib(v: serde_json::Value) -> Json {
    match v {
        serde_json::Value::Null => Json::Null,
        serde_json::Value::Bool(b) => Json::Bool(b),
        serde_json::Value::Number(n) => {
            if let Some(i) = n.as_i64() {
                Json::Int(i)
            } else if let Some(u) = n.as_u64() {
                Json::UInt(u)
            } else {
                Json::Float(Double::Bits(n.as_f64().unwrap().to_bits()))
            }
        }
        serde_json::Value::String(s) => Json::Str(s),
        serde_json::Value::Array(a) => Json::Array(a.into_iter().map(lib).collect()),
        serde_json::Value::Object(o) => {
            Json::Object(o.into_iter().map(|(k, x)| (k, lib(x))).collect())
        }
    }
}

/// A JSON value of its text.
fn js(text: &str) -> serde_json::Value {
    serde_json::from_str(text).unwrap()
}

/// The number that a double is.
fn number(d: &Double) -> f64 {
    match d {
        Double::Bits(b) => f64::from_bits(*b),
        Double::Text(s) => s.parse().unwrap(),
        Double::Int(n) => *n as f64,
    }
}

/// Computes what the library asks for.
fn answer(q: &DoubleQuery) -> DoubleAnswer {
    if q.name == "parse" {
        let Double::Text(s) = &q.args[0] else {
            panic!("a text is to be parsed");
        };
        return match s.parse::<f64>() {
            Ok(x) => DoubleAnswer::Bits(x.to_bits()),
            Err(_) => DoubleAnswer::Absent,
        };
    }
    if q.name == "single" {
        let Double::Int(n) = &q.args[0] else {
            panic!("a bit pattern is to be widened");
        };
        return DoubleAnswer::Bits(f64::from(f32::from_bits(*n as u32)).to_bits());
    }
    let x: Vec<f64> = q.args.iter().map(number).collect();
    let bits = |y: f64| DoubleAnswer::Bits(y.to_bits());
    let half = x.len() / 2;
    let pairs: Vec<(f64, f64)> =
        x[..half].iter().copied().zip(x[half..].iter().copied()).collect();
    match q.name.as_str() {
        "+" => bits(x[0] + x[1]),
        "-" => bits(x[0] - x[1]),
        "*" => bits(x[0] * x[1]),
        "/" => bits(x[0] / x[1]),
        "%" => bits(x[0] % x[1]),
        "neg" => bits(-x[0]),
        "abs" => bits(x[0].abs()),
        "max" => bits(x[0].max(x[1])),
        "min" => bits(x[0].min(x[1])),
        "pow" => bits(x[0].powf(x[1])),
        "atan2" => bits(x[0].atan2(x[1])),
        "hypot" => bits(x[0].hypot(x[1])),
        "log" => bits(x[0].ln()),
        "log10" => bits(x[0].log10()),
        "log2" => bits(x[0].log2()),
        "exp" => bits(x[0].exp()),
        "sqrt" => bits(x[0].sqrt()),
        "cbrt" => bits(x[0].cbrt()),
        "ceil" => bits(x[0].ceil()),
        "floor" => bits(x[0].floor()),
        "round" | "rint" => bits(x[0].round()),
        "sin" => bits(x[0].sin()),
        "cos" => bits(x[0].cos()),
        "tan" => bits(x[0].tan()),
        "asin" => bits(x[0].asin()),
        "acos" => bits(x[0].acos()),
        "atan" => bits(x[0].atan()),
        "sinh" => bits(x[0].sinh()),
        "cosh" => bits(x[0].cosh()),
        "tanh" => bits(x[0].tanh()),
        "signum" => bits(if x[0] > 0.0 {
            1.0
        } else if x[0] < 0.0 {
            -1.0
        } else {
            0.0
        }),
        "toRadians" => bits(x[0].to_radians()),
        "toDegrees" => bits(x[0].to_degrees()),
        "dotProduct" => bits(pairs.iter().map(|(a, b)| a * b).sum()),
        "cosineSimilarity" => {
            let dot: f64 = pairs.iter().map(|(a, b)| a * b).sum();
            let n: f64 = pairs.iter().map(|(a, _)| a * a).sum::<f64>().sqrt()
                * pairs.iter().map(|(_, b)| b * b).sum::<f64>().sqrt();
            bits(if n == 0.0 { 0.0 } else { dot / n })
        }
        "l1norm" => bits(pairs.iter().map(|(a, b)| (a - b).abs()).sum()),
        "l2norm" => bits(pairs.iter().map(|(a, b)| (a - b).powi(2)).sum::<f64>().sqrt()),
        "hamming" => {
            bits(pairs.iter().filter(|(a, b)| (a - b).abs() > f64::EPSILON).count() as f64)
        }
        "==" => DoubleAnswer::Flag(x[0] == x[1]),
        "<" => DoubleAnswer::Flag(x[0] < x[1]),
        ">" => DoubleAnswer::Flag(x[0] > x[1]),
        "<=" => DoubleAnswer::Flag(x[0] <= x[1]),
        ">=" => DoubleAnswer::Flag(x[0] >= x[1]),
        "nonzero" => DoubleAnswer::Flag(x[0] != 0.0),
        "finite" => DoubleAnswer::Flag(x[0].is_finite()),
        "int" => DoubleAnswer::Int(x[0] as i64),
        "display" => DoubleAnswer::Text(format!("{}", x[0])),
        "debug" => DoubleAnswer::Text(format!("{:?}", x[0])),
        "json" => DoubleAnswer::Text(serde_json::Value::from(x[0]).to_string()),
        "random" => bits(0.5),
        other => panic!("unknown computation: {other}"),
    }
}

/// A double as a value.
fn float(x: f64) -> Json {
    Json::Float(Double::Bits(x.to_bits()))
}

/// The day of an event.
fn day(event: &Event) -> String {
    rfc3339_utc(event.timestamp.secs as u64)[..10].to_string()
}

/// A codec whose computations with doubles are carried out.
trait Driven {
    fn feed(&mut self, data: &[u8]) -> Result<Vec<Event>, String>;
    fn emit(&self, event: &Event) -> Result<Vec<u8>, String>;
}

impl<C: Codec> Driven for C {
    fn feed(&mut self, data: &[u8]) -> Result<Vec<Event>, String> {
        let mut answers = Answers::new();
        loop {
            match self.decode(data, NOW, &answers) {
                Ok(events) => return Ok(events),
                Err(CodecError::Codec(m)) => return Err(m),
                Err(CodecError::Ask(q)) => {
                    let a = answer(&q);
                    answers.add(q, a);
                }
            }
        }
    }

    fn emit(&self, event: &Event) -> Result<Vec<u8>, String> {
        let mut answers = Answers::new();
        loop {
            match self.encode(event, &answers) {
                Ok(bytes) => return Ok(bytes),
                Err(CodecError::Codec(m)) => return Err(m),
                Err(CodecError::Ask(q)) => {
                    let a = answer(&q);
                    answers.add(q, a);
                }
            }
        }
    }
}

#[test]
fn test_avro_json_decode() {
    let mut codec = AvroCodec::default();
    let data = br#"{"message":"hello avro","host":"server01"}"#;
    let event = codec
        .feed(data)
        .expect("decode")
        .into_iter()
        .next()
        .expect("no events");
    assert_eq!(event.message(), Some("hello avro"));
}

#[test]
fn test_avro_json_decode_with_target() {
    let mut codec = AvroCodec {
        schema_json: None,
        target: Some("data".to_string()),
    };
    let data = br#"{"key":"value"}"#;
    let event = codec
        .feed(data)
        .expect("decode")
        .into_iter()
        .next()
        .expect("no events");
    assert!(event.has_field("data"));
}

#[test]
fn test_avro_ocf_magic_detection() {
    let mut codec = AvroCodec::default();
    // Minimal OCF — magic + empty metadata (should fail gracefully)
    let mut data = Vec::new();
    data.extend_from_slice(AVRO_MAGIC);
    // Empty map: count=0
    data.push(0);
    // Sync marker (16 bytes)
    data.extend_from_slice(&[0u8; 16]);
    let event = codec
        .feed(&data)
        .expect("decode")
        .into_iter()
        .next()
        .expect("no events");
    assert_eq!(
        event.get("avro_format"),
        Some(&Json::Str("ocf".into()))
    );
}

#[test]
fn test_avro_encode() {
    let codec = AvroCodec::default();
    let event = Event::new("test avro", NOW);
    let bytes = codec.emit(&event).expect("encode");
    let text = String::from_utf8(bytes).expect("utf8");
    assert!(text.contains("test avro"));
}

#[test]
fn test_avro_invalid() {
    let mut codec = AvroCodec::default();
    assert!(codec.feed(b"\xff\xfe\xfd").is_err());
}

#[test]
fn test_avro_name() {
    assert_eq!(AvroCodec::default().name(), "avro");
}

#[test]
fn test_avro_varint() {
    let data = [0x04]; // zig-zag encoded 2
    let mut offset = 0;
    assert_eq!(AvroCodec::read_varint(&data, &mut offset), Some(2));
}

#[test]
fn test_avro_varint_negative() {
    let data = [0x03]; // zig-zag encoded -2
    let mut offset = 0;
    assert_eq!(AvroCodec::read_varint(&data, &mut offset), Some(-2));
}

#[test]
fn test_avro_from_config() {
    let settings = js(r#"{ "schema": "{\"type\":\"record\",\"name\":\"test\",\"fields\":[]}", "target": "data" }"#);
    let codec = AvroCodec::from_config(&lib(settings)).expect("config");
    assert!(codec.schema_json.is_some());
    assert_eq!(codec.target, Some("data".to_string()));
}

#[test]
fn test_avro_decode_huge_varint_length_no_overflow() {
    let mut codec = AvroCodec::default();
    let data = [
        0x4f, 0x62, 0x6a, 0x01, 0x30, 0x2e, 0x34, 0x30, 0x36, 0x36, 0x36, 0x36, 0x36, 0x30,
        0x30, 0x30, 0x30, 0x30, 0x30, 0x30, 0x30, 0x30, 0x30, 0x31, 0x31, 0x38, 0x38, 0x30,
        0x34, 0x31, 0x35, 0x36, 0x88, 0xd8, 0x24, 0x86,
    ];
    let _ = codec.feed(&data);
}

#[test]
fn test_bytes_decode() {
    let mut codec = BytesCodec;
    let event = codec
        .feed(b"hello\nworld\n")
        .expect("decode")
        .into_iter()
        .next()
        .expect("no events");
    assert_eq!(event.message(), Some("hello\nworld\n"));
    assert_eq!(event.get("content_length"), Some(&Json::Int(12)));
}

#[test]
fn test_bytes_encode() {
    let codec = BytesCodec;
    let event = Event::new("raw data", NOW);
    let bytes = codec.emit(&event).expect("encode");
    assert_eq!(bytes, b"raw data");
}

#[test]
fn test_bytes_binary_data() {
    let mut codec = BytesCodec;
    let data = b"\x00\x01\x02\xff";
    let event = codec
        .feed(data)
        .expect("decode")
        .into_iter()
        .next()
        .expect("no events");
    assert_eq!(event.get("content_length"), Some(&Json::Int(4)));
}

#[test]
fn test_bytes_name() {
    assert_eq!(BytesCodec.name(), "bytes");
}

#[test]
fn test_bytes_empty() {
    let mut codec = BytesCodec;
    let event = codec
        .feed(b"")
        .expect("decode")
        .into_iter()
        .next()
        .expect("no events");
    assert_eq!(event.message(), Some(""));
    assert_eq!(event.get("content_length"), Some(&Json::Int(0)));
}

#[test]
fn test_cef_decode() {
    let mut codec = CefCodec::default();
    let data = b"CEF:0|Security|IDS|1.0|100|Attack|9|src=10.0.0.1 dst=192.168.1.1";
    let event = codec
        .feed(data)
        .expect("decode")
        .into_iter()
        .next()
        .expect("no events");
    assert_eq!(
        event.get("device_vendor"),
        Some(&Json::Str("Security".into()))
    );
    assert_eq!(
        event.get("device_product"),
        Some(&Json::Str("IDS".into()))
    );
    assert_eq!(event.get("severity"), Some(&Json::Str("9".into())));
    assert_eq!(
        event.get("sourceAddress"),
        Some(&Json::Str("10.0.0.1".into()))
    );
    assert_eq!(
        event.get("destinationAddress"),
        Some(&Json::Str("192.168.1.1".into()))
    );
}

#[test]
fn test_cef_decode_with_syslog_header() {
    let mut codec = CefCodec::default();
    let data = b"Apr 12 10:00:00 host CEF:0|Vendor|Product|1.0|1|Test|5|msg=hello";
    let event = codec
        .feed(data)
        .expect("decode")
        .into_iter()
        .next()
        .expect("no events");
    assert!(event.has_field("syslog_header"));
    assert_eq!(
        event.get("device_vendor"),
        Some(&Json::Str("Vendor".into()))
    );
}

#[test]
fn test_cef_encode() {
    let codec = CefCodec::default();
    let mut event = Event::empty(NOW);
    event.set("cef_version", Json::Str("0".into()));
    event.set("device_vendor", Json::Str("Test".into()));
    event.set("device_product", Json::Str("App".into()));
    event.set("device_version", Json::Str("1.0".into()));
    event.set("signature_id", Json::Str("100".into()));
    event.set("name", Json::Str("Event".into()));
    event.set("severity", Json::Str("5".into()));
    event.set("src", Json::Str("10.0.0.1".into()));
    let bytes = codec.emit(&event).expect("encode");
    let text = String::from_utf8(bytes).expect("utf8");
    assert!(text.starts_with("CEF:0|Test|App|1.0|100|Event|5|"));
    assert!(text.contains("src=10.0.0.1"));
}

#[test]
fn test_cef_invalid() {
    let mut codec = CefCodec::default();
    assert!(codec.feed(b"not a CEF message").is_err());
    assert!(codec.feed(b"CEF:0|only|three|pipes").is_err());
}

#[test]
fn test_cef_name() {
    assert_eq!(CefCodec::default().name(), "cef");
}

#[test]
fn test_cef_escaped_pipe() {
    let mut codec = CefCodec::default();
    let data = b"CEF:0|Ven\\|dor|Product|1.0|1|Name|5|";
    let event = codec
        .feed(data)
        .expect("decode")
        .into_iter()
        .next()
        .expect("no events");
    assert_eq!(
        event.get("device_vendor"),
        Some(&Json::Str("Ven|dor".into()))
    );
}

#[test]
fn test_cloudfront_decode() {
    let mut codec = CloudfrontCodec::default();
    let line = "2026-04-12\t00:00:00\tIAD89-C1\t1234\t10.0.0.1\tGET\texample.com\t/index.html\t200\t-\tMozilla/5.0\t-\t-\tHit\tabc123\texample.com\thttps\t500\t0.001\t-\t-\t-\tHit\tHTTP/2.0\t-\t-\t443\t0.001\tHit\ttext/html\t1234\t-\t-";
    let event = codec
        .feed(line.as_bytes())
        .expect("decode")
        .into_iter()
        .next()
        .expect("no events");
    assert_eq!(
        event.get("x-edge-location"),
        Some(&Json::Str("IAD89-C1".into()))
    );
    assert_eq!(event.get("sc-bytes"), Some(&Json::Int(1234)));
    assert_eq!(
        event.get("c-ip"),
        Some(&Json::Str("10.0.0.1".into()))
    );
    assert_eq!(event.get("sc-status"), Some(&Json::Int(200)));
}

#[test]
fn test_cloudfront_comment_line() {
    let mut codec = CloudfrontCodec::default();
    let event = codec
        .feed(b"#Version: 1.0")
        .expect("decode")
        .into_iter()
        .next()
        .expect("no events");
    assert!(event.has_tag("_cloudfront_comment"));
}

#[test]
fn test_cloudfront_fields_header() {
    let mut codec = CloudfrontCodec::default();
    let event = codec
        .feed(b"#Fields: date time x-edge-location")
        .expect("decode")
        .into_iter()
        .next()
        .expect("no events");
    assert!(event.has_tag("_cloudfront_header"));
}

#[test]
fn test_cloudfront_null_value() {
    let mut codec = CloudfrontCodec::default();
    let event = codec
        .feed(b"2026-04-12\t00:00:00\tIAD89\t-")
        .expect("decode")
        .into_iter()
        .next()
        .expect("no events");
    assert_eq!(event.get("sc-bytes"), Some(&Json::Null));
}

#[test]
fn test_cloudfront_encode() {
    let codec = CloudfrontCodec::default();
    let mut event = Event::empty(NOW);
    event.set("date", Json::Str("2026-04-12".into()));
    event.set("time", Json::Str("00:00:00".into()));
    event.set("x-edge-location", Json::Str("IAD89".into()));
    let bytes = codec.emit(&event).expect("encode");
    let text = String::from_utf8(bytes).expect("utf8");
    assert!(text.contains("2026-04-12"));
    assert!(text.contains("IAD89"));
}

#[test]
fn test_cloudfront_name() {
    assert_eq!(CloudfrontCodec::default().name(), "cloudfront");
}

#[test]
fn test_cloudfront_timestamp_parsing() {
    let mut codec = CloudfrontCodec::default();
    let line = "2026-04-12\t10:30:00\tIAD89\t0";
    let event = codec
        .feed(line.as_bytes())
        .expect("decode")
        .into_iter()
        .next()
        .expect("no events");
    assert_eq!(day(&event), "2026-04-12");
}

#[test]
fn test_cloudtrail_decode_records() {
    let mut codec = CloudtrailCodec::default();
    let data = br#"{
            "Records": [
                {
                    "eventVersion": "1.08",
                    "eventTime": "2026-04-12T10:00:00Z",
                    "eventSource": "s3.amazonaws.com",
                    "eventName": "GetObject",
                    "awsRegion": "us-east-1"
                }
            ]
        }"#;
    let event = codec
        .feed(data)
        .expect("decode")
        .into_iter()
        .next()
        .expect("no events");
    assert_eq!(
        event.get("eventSource"),
        Some(&Json::Str("s3.amazonaws.com".into()))
    );
    assert_eq!(
        event.get("eventName"),
        Some(&Json::Str("GetObject".into()))
    );
    assert!(event.has_tag("cloudtrail"));
    assert_eq!(
        event.get("cloudtrail_record_count"),
        Some(&Json::Int(1))
    );
}

#[test]
fn test_cloudtrail_decode_single_record() {
    let mut codec = CloudtrailCodec::default();
    let data = br#"{
            "eventVersion": "1.08",
            "eventTime": "2026-04-12T10:00:00Z",
            "eventSource": "iam.amazonaws.com",
            "eventName": "CreateUser"
        }"#;
    let event = codec
        .feed(data)
        .expect("decode")
        .into_iter()
        .next()
        .expect("no events");
    assert_eq!(
        event.get("eventName"),
        Some(&Json::Str("CreateUser".into()))
    );
    assert!(event.has_tag("cloudtrail"));
}

#[test]
fn test_cloudtrail_decode_with_target() {
    let mut codec = CloudtrailCodec {
        target: Some("ct".to_string()),
    };
    let data = br#"{"Records": [{"eventName": "ListBuckets"}]}"#;
    let event = codec
        .feed(data)
        .expect("decode")
        .into_iter()
        .next()
        .expect("no events");
    assert!(event.has_field("ct"));
}

#[test]
fn test_cloudtrail_timestamp_parsing() {
    let mut codec = CloudtrailCodec::default();
    let data = br#"{"Records": [{"eventTime": "2026-04-12T15:30:00Z"}]}"#;
    let event = codec
        .feed(data)
        .expect("decode")
        .into_iter()
        .next()
        .expect("no events");
    assert_eq!(day(&event), "2026-04-12");
}

#[test]
fn test_cloudtrail_encode() {
    let codec = CloudtrailCodec::default();
    let mut event = Event::empty(NOW);
    event.set("eventName", Json::Str("PutObject".into()));
    let bytes = codec.emit(&event).expect("encode");
    let text = String::from_utf8(bytes).expect("utf8");
    assert!(text.contains("PutObject"));
}

#[test]
fn test_cloudtrail_invalid_json() {
    let mut codec = CloudtrailCodec::default();
    assert!(codec.feed(b"not json").is_err());
}

#[test]
fn test_cloudtrail_name() {
    assert_eq!(CloudtrailCodec::default().name(), "cloudtrail");
}

#[test]
fn test_cloudtrail_decode_multiple_records() {
    let mut codec = CloudtrailCodec::default();
    let data = br#"{
            "Records": [
                {"eventName": "GetObject", "eventTime": "2026-04-12T10:00:00Z"},
                {"eventName": "PutObject", "eventTime": "2026-04-12T10:01:00Z"},
                {"eventName": "DeleteObject", "eventTime": "2026-04-12T10:02:00Z"}
            ]
        }"#;
    let events = codec.feed(data).expect("decode");
    assert_eq!(events.len(), 3);
    assert_eq!(
        events[0].get("eventName"),
        Some(&Json::Str("GetObject".into()))
    );
    assert_eq!(
        events[1].get("eventName"),
        Some(&Json::Str("PutObject".into()))
    );
    assert_eq!(
        events[2].get("eventName"),
        Some(&Json::Str("DeleteObject".into()))
    );
    // Each event has the total count
    assert_eq!(
        events[0].get("cloudtrail_record_count"),
        Some(&Json::Int(3))
    );
    // Each event has the cloudtrail tag
    assert!(events[2].has_tag("cloudtrail"));
}

fn make_binary_packet() -> Vec<u8> {
    let mut pkt = Vec::new();

    // Host part: "web01"
    let host = b"web01\0";
    pkt.extend_from_slice(&PART_HOST.to_be_bytes());
    pkt.extend_from_slice(&((4 + host.len()) as u16).to_be_bytes());
    pkt.extend_from_slice(host);

    // Plugin part: "cpu"
    let plugin = b"cpu\0";
    pkt.extend_from_slice(&PART_PLUGIN.to_be_bytes());
    pkt.extend_from_slice(&((4 + plugin.len()) as u16).to_be_bytes());
    pkt.extend_from_slice(plugin);

    // Type part: "gauge"
    let kind_name = b"gauge\0";
    pkt.extend_from_slice(&PART_TYPE.to_be_bytes());
    pkt.extend_from_slice(&((4 + kind_name.len()) as u16).to_be_bytes());
    pkt.extend_from_slice(kind_name);

    // Time part
    let ts: u64 = 1_712_880_000;
    pkt.extend_from_slice(&PART_TIME.to_be_bytes());
    pkt.extend_from_slice(&12u16.to_be_bytes());
    pkt.extend_from_slice(&ts.to_be_bytes());

    pkt
}

#[test]
fn test_collectd_binary_decode() {
    let mut codec = CollectdCodec::default();
    let pkt = make_binary_packet();
    let event = codec
        .feed(&pkt)
        .expect("decode")
        .into_iter()
        .next()
        .expect("no events");
    assert_eq!(event.get("host"), Some(&Json::Str("web01".into())));
    assert_eq!(event.get("plugin"), Some(&Json::Str("cpu".into())));
    assert_eq!(event.get("type"), Some(&Json::Str("gauge".into())));
}

#[test]
fn test_collectd_json_decode() {
    let mut codec = CollectdCodec { json_mode: true };
    let data = br#"[{"host":"web01","plugin":"cpu","time":1712880000,"values":[0.75]}]"#;
    let event = codec
        .feed(data)
        .expect("decode")
        .into_iter()
        .next()
        .expect("no events");
    assert_eq!(event.get("host"), Some(&Json::Str("web01".into())));
}

#[test]
fn test_collectd_auto_detect_json() {
    let mut codec = CollectdCodec::default();
    let data = br#"{"host":"web01","plugin":"memory"}"#;
    let event = codec
        .feed(data)
        .expect("decode")
        .into_iter()
        .next()
        .expect("no events");
    assert_eq!(event.get("host"), Some(&Json::Str("web01".into())));
}

#[test]
fn test_collectd_encode() {
    let codec = CollectdCodec::default();
    let mut event = Event::empty(NOW);
    event.set("host", Json::Str("web01".into()));
    event.set("plugin", Json::Str("cpu".into()));
    let bytes = codec.emit(&event).expect("encode");
    let text = String::from_utf8(bytes).expect("utf8");
    assert!(text.contains("web01"));
    assert!(text.contains("cpu"));
}

#[test]
fn test_collectd_name() {
    assert_eq!(CollectdCodec::default().name(), "collectd");
}

#[test]
fn test_collectd_from_config() {
    let settings = js(r#"{ "json_mode": true }"#);
    let codec = CollectdCodec::from_config(&lib(settings)).expect("config");
    assert!(codec.json_mode);
}

#[test]
fn test_collectd_json_multiple_records() {
    let mut codec = CollectdCodec { json_mode: true };
    let data = br#"[
            {"host":"web01","plugin":"cpu","values":[0.5]},
            {"host":"web01","plugin":"memory","values":[1024]},
            {"host":"web02","plugin":"cpu","values":[0.8]}
        ]"#;
    let events = codec.feed(data).expect("decode");
    assert_eq!(events.len(), 3);
    assert_eq!(
        events[0].get("plugin"),
        Some(&Json::Str("cpu".into()))
    );
    assert_eq!(
        events[1].get("plugin"),
        Some(&Json::Str("memory".into()))
    );
    assert_eq!(
        events[2].get("host"),
        Some(&Json::Str("web02".into()))
    );
}

#[test]
fn test_csv_decode_with_columns() {
    let mut codec = CsvCodec {
        columns: vec!["name".into(), "age".into(), "city".into()],
        ..Default::default()
    };
    let event = codec
        .feed(b"Alice,30,Tokyo")
        .expect("decode")
        .into_iter()
        .next()
        .expect("no events");
    assert_eq!(event.get("name"), Some(&Json::Str("Alice".into())));
    assert_eq!(event.get("age"), Some(&Json::Str("30".into())));
    assert_eq!(event.get("city"), Some(&Json::Str("Tokyo".into())));
}

#[test]
fn test_csv_decode_auto_columns() {
    let mut codec = CsvCodec::default();
    let event = codec
        .feed(b"a,b,c")
        .expect("decode")
        .into_iter()
        .next()
        .expect("no events");
    assert_eq!(event.get("column1"), Some(&Json::Str("a".into())));
    assert_eq!(event.get("column2"), Some(&Json::Str("b".into())));
}

#[test]
fn test_csv_encode() {
    let codec = CsvCodec {
        columns: vec!["name".into(), "age".into()],
        ..Default::default()
    };
    let mut event = Event::empty(NOW);
    event.set("name", Json::Str("Alice".into()));
    event.set("age", Json::Str("30".into()));
    let bytes = codec.emit(&event).expect("encode");
    let text = String::from_utf8(bytes).expect("utf8");
    assert!(text.contains("Alice"));
    assert!(text.contains("30"));
}

#[test]
fn test_csv_custom_separator() {
    let mut codec = CsvCodec {
        columns: vec!["a".into(), "b".into()],
        separator: b'\t',
        ..Default::default()
    };
    let event = codec
        .feed(b"foo\tbar")
        .expect("decode")
        .into_iter()
        .next()
        .expect("no events");
    assert_eq!(event.get("a"), Some(&Json::Str("foo".into())));
    assert_eq!(event.get("b"), Some(&Json::Str("bar".into())));
}

#[test]
fn test_dots_encode() {
    let codec = DotsCodec;
    let event = Event::new("test", NOW);
    let bytes = codec.emit(&event).expect("encode");
    assert_eq!(bytes, b".");
}

#[test]
fn test_dots_decode() {
    let mut codec = DotsCodec;
    let event = codec
        .feed(b"hello")
        .expect("decode")
        .into_iter()
        .next()
        .expect("no events");
    assert_eq!(event.message(), Some("hello"));
}

#[test]
fn test_dots_name() {
    assert_eq!(DotsCodec.name(), "dots");
}

#[test]
fn test_dots_encode_multiple() {
    let codec = DotsCodec;
    let mut output = Vec::new();
    for _ in 0..5 {
        output.extend_from_slice(&codec.emit(&Event::new("x", NOW)).expect("encode"));
    }
    assert_eq!(output, b".....");
}

#[test]
fn test_edn_decode_map() {
    let mut codec = EdnCodec::default();
    let data = br#"{:message "hello" :count 42 :active true}"#;
    let event = codec
        .feed(data)
        .expect("decode")
        .into_iter()
        .next()
        .expect("no events");
    assert_eq!(event.message(), Some("hello"));
    assert_eq!(event.get("count"), Some(&Json::Int(42)));
    assert_eq!(event.get("active"), Some(&Json::Bool(true)));
}

#[test]
fn test_edn_decode_nested() {
    let mut codec = EdnCodec::default();
    let data = br#"{:host "web01" :data {:cpu 0.75 :mem 1024}}"#;
    let event = codec
        .feed(data)
        .expect("decode")
        .into_iter()
        .next()
        .expect("no events");
    assert_eq!(event.get("host"), Some(&Json::Str("web01".into())));
    assert!(event.has_field("data"));
}

#[test]
fn test_edn_decode_vector() {
    let mut codec = EdnCodec::default();
    let data = b"[1 2 3]";
    let event = codec
        .feed(data)
        .expect("decode")
        .into_iter()
        .next()
        .expect("no events");
    // Non-map value stored as message
    assert!(event.message().is_some());
}

#[test]
fn test_edn_decode_nil() {
    let mut codec = EdnCodec::default();
    let data = br"{:value nil}";
    let event = codec
        .feed(data)
        .expect("decode")
        .into_iter()
        .next()
        .expect("no events");
    assert_eq!(event.get("value"), Some(&Json::Null));
}

#[test]
fn test_edn_decode_with_target() {
    let mut codec = EdnCodec {
        target: Some("edn".to_string()),
    };
    let data = br#"{:key "val"}"#;
    let event = codec
        .feed(data)
        .expect("decode")
        .into_iter()
        .next()
        .expect("no events");
    assert!(event.has_field("edn"));
}

#[test]
fn test_edn_encode() {
    let codec = EdnCodec::default();
    let mut event = Event::empty(NOW);
    event.set("host", Json::Str("web01".into()));
    event.set("count", Json::Int(42));
    let bytes = codec.emit(&event).expect("encode");
    let text = String::from_utf8(bytes).expect("utf8");
    assert!(text.contains(":host \"web01\""));
    assert!(text.contains(":count 42"));
}

#[test]
fn test_edn_empty() {
    let mut codec = EdnCodec::default();
    assert!(codec.feed(b"").is_err());
}

#[test]
fn test_edn_name() {
    assert_eq!(EdnCodec::default().name(), "edn");
}

#[test]
fn test_edn_set_parsing() {
    let mut codec = EdnCodec::default();
    let data = br"{:tags #{:a :b :c}}";
    let event = codec
        .feed(data)
        .expect("decode")
        .into_iter()
        .next()
        .expect("no events");
    assert!(event.has_field("tags"));
}

#[test]
fn test_edn_float() {
    let mut codec = EdnCodec::default();
    let data = br"{:pi 2.5}";
    let event = codec
        .feed(data)
        .expect("decode")
        .into_iter()
        .next()
        .expect("no events");
    assert_eq!(event.get("pi"), Some(&float(2.5)));
}

#[test]
fn test_edn_escaped_string() {
    let mut codec = EdnCodec::default();
    let data = br#"{:msg "hello\nworld"}"#;
    let event = codec
        .feed(data)
        .expect("decode")
        .into_iter()
        .next()
        .expect("no events");
    assert_eq!(
        event.get("msg"),
        Some(&Json::Str("hello\nworld".into()))
    );
}

#[test]
fn test_edn_tagged_inst() {
    let mut codec = EdnCodec::default();
    let data = br#"{:created #inst "2026-04-12T00:00:00Z"}"#;
    let event = codec
        .feed(data)
        .expect("decode")
        .into_iter()
        .next()
        .expect("no events");
    assert_eq!(
        event.get("created"),
        Some(&Json::Str("2026-04-12T00:00:00Z".into()))
    );
}

#[test]
fn test_edn_tagged_uuid() {
    let mut codec = EdnCodec::default();
    let data = br#"{:id #uuid "550e8400-e29b-41d4-a716-446655440000"}"#;
    let event = codec
        .feed(data)
        .expect("decode")
        .into_iter()
        .next()
        .expect("no events");
    assert_eq!(
        event.get("id"),
        Some(&Json::Str(
            "550e8400-e29b-41d4-a716-446655440000".into()
        ))
    );
}

#[test]
fn test_edn_line_comments() {
    let mut codec = EdnCodec::default();
    let data = b"; this is a comment\n{:key \"value\"}";
    let event = codec
        .feed(data)
        .expect("decode")
        .into_iter()
        .next()
        .expect("no events");
    assert_eq!(event.get("key"), Some(&Json::Str("value".into())));
}

#[test]
fn test_edn_char_literal() {
    let mut codec = EdnCodec::default();
    let data = br"{:sep \tab}";
    let event = codec
        .feed(data)
        .expect("decode")
        .into_iter()
        .next()
        .expect("no events");
    assert_eq!(event.get("sep"), Some(&Json::Str("\t".into())));
}

#[test]
fn test_edn_dense_container_opens_rejected_2026_05_17() {
    let mut codec = EdnCodec::default();
    // 32 consecutive `{` (exceeds both total-cap=32 inclusive *and*
    // consecutive-cap=4).
    let attack: Vec<u8> = std::iter::repeat(b'{').take(32).collect();
    let err = codec.feed(&attack).expect_err("32 `{` must reject");
    let msg = format!("{err}");
    assert!(
        msg.contains("container-open"),
        "unexpected error: {msg}"
    );
}

/// Consecutive-run cap closes boundary-learning: even if total opens
/// sit just below 32, a 5+ run of `{` is rejected on its own.
#[test]
fn test_edn_consecutive_open_run_rejected_2026_05_17() {
    let mut codec = EdnCodec::default();
    // 5 consecutive `{`, then split with spaces — total = 5 (well
    // under 32 total cap) but consecutive-run = 5 (over cap=4).
    let attack = b"{{{{{ a 1 } } } } }";
    let err = codec.feed(attack).expect_err("5-run `{` must reject");
    let msg = format!("{err}");
    assert!(
        msg.contains("run of") && msg.contains("container-open"),
        "unexpected error: {msg}"
    );
}

#[test]
fn test_edn_consecutive_open_run_at_cap_passes_density_check() {
    let mut codec = EdnCodec::default();
    let at_cap = b"{{{{:a 1}}}}";
    match codec.feed(at_cap) {
        Ok(_) => {}
        Err(e) => {
            let msg = format!("{e}");
            assert!(
                !msg.contains("container-open"),
                "4-run must not trip density cap: {msg}"
            );
        }
    }
}

/// String literal content is skipped: `{` characters inside a
/// `"..."` string do NOT count toward the cap.
#[test]
fn test_edn_container_density_skips_strings() {
    let mut codec = EdnCodec::default();
    // 50 `{` inside a string literal — must NOT trip the cap.
    let mut payload = String::from("{:notes \"");
    payload.push_str(&"{".repeat(50));
    payload.push_str("\"}");
    let event = codec
        .feed(payload.as_bytes())
        .expect("string-literal content must not trip cap")
        .into_iter()
        .next()
        .expect("no events");
    assert!(matches!(event.get("notes"), Some(Json::Str(_))));
}

/// Realistic EDN config with several nested containers must continue
/// to parse — well under both caps.
#[test]
fn test_edn_legitimate_nested_config_still_parses() {
    let mut codec = EdnCodec::default();
    let data = br#"{:filters [{:type "grok" :pattern "%{COMBINEDAPACHELOG}"}
                                   {:type "mutate" :fields {:src "ip" :dst "client_ip"}}]
                        :sink {:type "es" :host "localhost"}}"#;
    let event = codec
        .feed(data)
        .expect("legitimate nested EDN must parse")
        .into_iter()
        .next()
        .expect("no events");
    let _ = event;
}

#[test]
fn test_edn_replay_2c6eb739_2026_05_17() {
    let mut codec = EdnCodec::default();
    let attack: Vec<u8> = b"{{{{{{X\xff5\t{\x9f\n\xc4\xc4}{{{{{{{{{{{\
                            \xf5\x9f\n\xaf\xfd\x00\x00\x9f\n\xaf\xfd\
                            \x00\x00\x00\x00\x01{{k{{X5\t{\xff\x9f\n\
                            \xc4\xc4}{{{{{{".to_vec();
    let start = std::time::Instant::now();
    let err = codec
        .feed(&attack)
        .expect_err("dense `{` shape must reject");
    let elapsed = start.elapsed();
    let msg = format!("{err}");
    assert!(msg.contains("container-open"), "unexpected error: {msg}");
    assert!(
        elapsed.as_millis() < 10,
        "density check must reject in O(N) (took {:?})",
        elapsed
    );
}

#[test]
fn test_edn_container_key_rejects_2026_05_24() {
    let mut codec = EdnCodec::default();
    // `{ { } : v }` — empty map as key. Should reject cleanly, not
    // serialize the inner map.
    let pathological = "{{} :v}";
    let result = codec.feed(pathological.as_bytes());
    assert!(
        result.is_err(),
        "container in EDN key position must reject (got {result:?})"
    );
    let nested = "{".repeat(23) + ":v}";
    let start = std::time::Instant::now();
    let result = codec.feed(nested.as_bytes());
    let elapsed = start.elapsed();
    assert!(result.is_err(), "deeply-nested key map must reject");
    assert!(
        elapsed.as_millis() < 50,
        "container-key reject must be O(depth) (took {elapsed:?})"
    );
    // Legitimate string key with map value still parses.
    let legit = r#"{"k" {:nested true}}"#;
    let ok = codec.feed(legit.as_bytes());
    assert!(ok.is_ok(), "string key with map value must parse (got {ok:?})");
}

#[test]
fn test_es_bulk_decode_index() {
    let mut codec = EsBulkCodec::default();
    let data = b"{\"index\":{\"_index\":\"logs\",\"_id\":\"1\"}}\n{\"message\":\"hello\"}";
    let event = codec
        .feed(data)
        .expect("decode")
        .into_iter()
        .next()
        .expect("no events");
    assert_eq!(event.message(), Some("hello"));
}

#[test]
fn test_es_bulk_decode_delete() {
    let mut codec = EsBulkCodec::default();
    let data = b"{\"delete\":{\"_index\":\"logs\",\"_id\":\"1\"}}";
    let event = codec
        .feed(data)
        .expect("decode")
        .into_iter()
        .next()
        .expect("no events");
    assert!(event.message().is_none());
}

#[test]
fn test_es_bulk_encode() {
    let codec = EsBulkCodec {
        index: Some("test-index".to_string()),
        action: "index".to_string(),
    };
    let event = Event::new("hello", NOW);
    let bytes = codec.emit(&event).expect("encode");
    let text = String::from_utf8(bytes).expect("utf8");
    assert!(text.contains("\"index\""));
    assert!(text.contains("test-index"));
    assert!(text.contains("hello"));
}

#[test]
fn test_es_bulk_decode_empty() {
    let mut codec = EsBulkCodec::default();
    let result = codec.feed(b"");
    assert!(result.is_err());
}

#[test]
fn test_es_bulk_decode_create() {
    let mut codec = EsBulkCodec::default();
    let data = b"{\"create\":{\"_index\":\"logs\"}}\n{\"message\":\"new doc\"}";
    let event = codec
        .feed(data)
        .expect("decode")
        .into_iter()
        .next()
        .expect("no events");
    assert_eq!(event.message(), Some("new doc"));
}

#[test]
fn test_es_bulk_name() {
    assert_eq!(EsBulkCodec::default().name(), "es_bulk");
}

#[test]
fn test_es_bulk_roundtrip() {
    let mut codec = EsBulkCodec {
        index: Some("logs".to_string()),
        action: "index".to_string(),
    };
    let event = Event::new("roundtrip", NOW);
    let encoded = codec.emit(&event).expect("encode");
    let decoded = codec
        .feed(&encoded)
        .expect("decode")
        .into_iter()
        .next()
        .expect("no events");
    assert_eq!(decoded.message(), Some("roundtrip"));
}

#[test]
fn test_es_bulk_decode_multiple_actions() {
    let mut codec = EsBulkCodec::default();
    let data = b"{\"index\":{\"_index\":\"logs\",\"_id\":\"1\"}}\n{\"message\":\"first\"}\n{\"index\":{\"_index\":\"logs\",\"_id\":\"2\"}}\n{\"message\":\"second\"}\n{\"delete\":{\"_index\":\"logs\",\"_id\":\"3\"}}";
    let events = codec.feed(data).expect("decode");
    assert_eq!(events.len(), 3);
    assert_eq!(events[0].message(), Some("first"));
    assert_eq!(events[1].message(), Some("second"));
    assert!(events[2].message().is_none()); // delete has no source
}

#[test]
fn test_fluent_roundtrip() {
    let mut codec = FluentCodec::default();
    let mut event = Event::new("hello fluent", NOW);
    event.set("host", Json::Str("web01".into()));
    let encoded = codec.emit(&event).expect("encode");
    let decoded = codec
        .feed(&encoded)
        .expect("decode")
        .into_iter()
        .next()
        .expect("no events");
    assert_eq!(decoded.message(), Some("hello fluent"));
    assert_eq!(
        decoded.get("fluent_tag"),
        Some(&Json::Str("ferrostash".into()))
    );
}

#[test]
fn test_fluent_custom_tag() {
    let mut codec = FluentCodec {
        tag: "app.logs".to_string(),
    };
    let event = Event::new("test", NOW);
    let encoded = codec.emit(&event).expect("encode");
    let decoded = codec
        .feed(&encoded)
        .expect("decode")
        .into_iter()
        .next()
        .expect("no events");
    assert_eq!(
        decoded.get("fluent_tag"),
        Some(&Json::Str("app.logs".into()))
    );
}

#[test]
fn test_fluent_invalid_data() {
    let mut codec = FluentCodec::default();
    let result = codec.feed(b"not msgpack");
    assert!(result.is_err());
}

#[test]
fn test_fluent_name() {
    assert_eq!(FluentCodec::default().name(), "fluent");
}

#[test]
fn test_fluent_from_config() {
    let settings = js(r#"{ "tag": "my.app" }"#);
    let codec = FluentCodec::from_config(&lib(settings)).expect("config");
    assert_eq!(codec.tag, "my.app");
}

#[test]
fn test_fluent_forward_mode() {
    let mut codec = FluentCodec::default();
    // Forward mode: [tag, [[timestamp, record], [timestamp, record]]]
    let batch = js(r#"[ "app.logs", [ [1712880000, {"message": "first"}], [1712880001, {"message": "second"}], [1712880002, {"message": "third"}] ] ]"#);
    let encoded = rmp_serde::to_vec(&batch).expect("encode");
    let events = codec.feed(&encoded).expect("decode");
    assert_eq!(events.len(), 3);
    assert_eq!(events[0].message(), Some("first"));
    assert_eq!(events[1].message(), Some("second"));
    assert_eq!(events[2].message(), Some("third"));
    assert_eq!(
        events[0].get("fluent_tag"),
        Some(&Json::Str("app.logs".into()))
    );
}

#[test]
fn test_graphite_decode() {
    let mut codec = GraphiteCodec::default();
    let event = codec
        .feed(b"servers.web01.cpu 0.75 1712880000")
        .expect("decode")
        .into_iter()
        .next()
        .expect("no events");
    assert_eq!(
        event.get("metric"),
        Some(&Json::Str("servers.web01.cpu".into()))
    );
    assert_eq!(event.get("value"), Some(&float(0.75)));
    assert_eq!(
        event.get("timestamp_epoch"),
        Some(&Json::Int(1_712_880_000))
    );
}

#[test]
fn test_graphite_decode_no_timestamp() {
    let mut codec = GraphiteCodec::default();
    let event = codec
        .feed(b"cpu.load 2.5")
        .expect("decode")
        .into_iter()
        .next()
        .expect("no events");
    assert_eq!(
        event.get("metric"),
        Some(&Json::Str("cpu.load".into()))
    );
    assert_eq!(event.get("value"), Some(&float(2.5)));
}

#[test]
fn test_graphite_decode_metric_path() {
    let mut codec = GraphiteCodec::default();
    let event = codec
        .feed(b"a.b.c 1.0")
        .expect("decode")
        .into_iter()
        .next()
        .expect("no events");
    let path = event.get("metric_path").expect("metric_path");
    assert!(matches!(path, Json::Array(_)));
}

#[test]
fn test_graphite_encode() {
    let codec = GraphiteCodec {
        include_timestamp: false,
        metrics_prefix: None,
    };
    let mut event = Event::empty(NOW);
    event.set("metric", Json::Str("cpu.load".into()));
    event.set("value", float(0.5));
    let bytes = codec.emit(&event).expect("encode");
    assert_eq!(bytes, b"cpu.load 0.5\n");
}

#[test]
fn test_graphite_encode_with_prefix() {
    let codec = GraphiteCodec {
        include_timestamp: false,
        metrics_prefix: Some("prod".to_string()),
    };
    let mut event = Event::empty(NOW);
    event.set("metric", Json::Str("cpu".into()));
    event.set("value", float(1.0));
    let bytes = codec.emit(&event).expect("encode");
    assert_eq!(bytes, b"prod.cpu 1\n");
}

#[test]
fn test_graphite_invalid() {
    let mut codec = GraphiteCodec::default();
    assert!(codec.feed(b"").is_err());
    assert!(codec.feed(b"# comment").is_err());
    assert!(codec.feed(b"just_metric").is_err());
    assert!(codec.feed(b"metric not_a_number").is_err());
}

#[test]
fn test_graphite_name() {
    assert_eq!(GraphiteCodec::default().name(), "graphite");
}

#[test]
fn test_json_decode() {
    let mut codec = JsonCodec::default();
    let data = br#"{"message": "hello", "host": "server01"}"#;
    let event = codec
        .feed(data)
        .expect("decode failed")
        .into_iter()
        .next()
        .expect("no events");
    assert_eq!(event.message(), Some("hello"));
    assert!(event.has_field("host"));
}

#[test]
fn test_json_decode_with_target() {
    let mut codec = JsonCodec {
        target: Some("data".to_string()),
        pretty: false,
    };
    let data = br#"{"key": "value"}"#;
    let event = codec
        .feed(data)
        .expect("decode failed")
        .into_iter()
        .next()
        .expect("no events");
    assert!(event.has_field("data"));
}

#[test]
fn test_json_encode() {
    let codec = JsonCodec::default();
    let event = Event::new("hello world", NOW);
    let bytes = codec.emit(&event).expect("encode failed");
    let text = String::from_utf8(bytes).expect("utf8 failed");
    assert!(text.contains("hello world"));
    assert!(text.contains("@timestamp"));
}

#[test]
fn test_json_decode_invalid() {
    let mut codec = JsonCodec::default();
    let result = codec.feed(b"not json");
    assert!(result.is_err());
}

#[test]
fn json_test_json_roundtrip() {
    let mut codec = JsonCodec::default();
    let event = Event::new("roundtrip test", NOW);
    let encoded = codec.emit(&event).expect("encode");
    let decoded = codec
        .feed(&encoded)
        .expect("decode")
        .into_iter()
        .next()
        .expect("no events");
    assert_eq!(decoded.message(), Some("roundtrip test"));
}

#[test]
fn test_msgpack_roundtrip() {
    let mut codec = MsgpackCodec::default();
    let event = Event::new("hello msgpack", NOW);
    let encoded = codec.emit(&event).expect("encode");
    let decoded = codec
        .feed(&encoded)
        .expect("decode")
        .into_iter()
        .next()
        .expect("no events");
    assert_eq!(decoded.message(), Some("hello msgpack"));
}

#[test]
fn test_msgpack_with_fields() {
    let mut codec = MsgpackCodec::default();
    let mut event = Event::new("test", NOW);
    event.set("host", Json::Str("server01".into()));
    event.set("port", Json::Int(8080));
    let encoded = codec.emit(&event).expect("encode");
    let decoded = codec
        .feed(&encoded)
        .expect("decode")
        .into_iter()
        .next()
        .expect("no events");
    assert_eq!(decoded.message(), Some("test"));
    assert_eq!(
        decoded.get("host"),
        Some(&Json::Str("server01".into()))
    );
    assert_eq!(decoded.get("port"), Some(&Json::Int(8080)));
}

#[test]
fn test_msgpack_with_target() {
    let mut codec = MsgpackCodec {
        target: Some("data".to_string()),
    };
    let original = Event::new("test", NOW);
    let encoded = codec.emit(&original).expect("encode");
    let decoded = codec
        .feed(&encoded)
        .expect("decode")
        .into_iter()
        .next()
        .expect("no events");
    assert!(decoded.has_field("data"));
}

#[test]
fn test_msgpack_invalid_data() {
    let mut codec = MsgpackCodec::default();
    // Use truly invalid msgpack (truncated map with missing values)
    let result = codec.feed(b"\x82\xa1a");
    assert!(result.is_err());
}

#[test]
fn test_msgpack_name() {
    assert_eq!(MsgpackCodec::default().name(), "msgpack");
}

#[test]
fn test_msgpack_compact() {
    let codec = MsgpackCodec::default();
    let json_codec = JsonCodec::default();
    let event = Event::new("compactness test", NOW);
    let msgpack_bytes = codec.emit(&event).expect("msgpack");
    let json_bytes = json_codec.emit(&event).expect("json");
    // MessagePack should be more compact than JSON
    assert!(msgpack_bytes.len() < json_bytes.len());
}

#[test]
fn test_multiline_should_merge() {
    let codec = MultilineCodec::default(); // pattern: ^\\s
    assert!(codec.should_merge("  continuation line"));
    assert!(!codec.should_merge("new line start"));
}

#[test]
fn test_multiline_negate() {
    let mut codec = MultilineCodec::default();
    codec.negate = true;
    // With negate, lines NOT matching ^\\s should merge
    assert!(!codec.should_merge("  continuation line"));
    assert!(codec.should_merge("new line start"));
}

#[test]
fn test_multiline_from_config() {
    let settings = js(r#"{ "pattern": "^\\[", "what": "previous", "negate": true, "max_lines": 100 }"#);
    let codec = MultilineCodec::from_config(&lib(settings)).expect("config");
    assert_eq!(codec.max_lines(), 100);
    assert!(codec.negate);
}

fn make_v5_packet() -> Vec<u8> {
    let mut pkt = vec![0u8; 72]; // header (24) + 1 record (48)
                                 // Version = 5
    pkt[0] = 0;
    pkt[1] = 5;
    // Count = 1
    pkt[2] = 0;
    pkt[3] = 1;
    // sys_uptime = 1000
    pkt[7] = 0xe8;
    pkt[6] = 0x03;
    // unix_secs = 1712880000
    let ts = 1_712_880_000u32.to_be_bytes();
    pkt[8..12].copy_from_slice(&ts);
    // First record: src=10.0.0.1, dst=192.168.1.1
    pkt[24] = 10;
    pkt[25] = 0;
    pkt[26] = 0;
    pkt[27] = 1;
    pkt[28] = 192;
    pkt[29] = 168;
    pkt[30] = 1;
    pkt[31] = 1;
    // src_port = 12345 at offset 24+32=56
    let sp = 12345u16.to_be_bytes();
    pkt[56] = sp[0];
    pkt[57] = sp[1];
    // dst_port = 80
    pkt[58] = 0;
    pkt[59] = 80;
    // protocol = 6 (TCP) at offset 24+38=62
    pkt[62] = 6;
    pkt
}

#[test]
fn test_netflow_v5_decode() {
    let mut codec = NetflowCodec::default();
    let pkt = make_v5_packet();
    let event = codec
        .feed(&pkt)
        .expect("decode")
        .into_iter()
        .next()
        .expect("no events");
    assert_eq!(event.get("netflow_version"), Some(&Json::Int(5)));
    assert_eq!(
        event.get("ipv4_src_addr"),
        Some(&Json::Str("10.0.0.1".into()))
    );
    assert_eq!(
        event.get("ipv4_dst_addr"),
        Some(&Json::Str("192.168.1.1".into()))
    );
    assert_eq!(event.get("l4_src_port"), Some(&Json::Int(12345)));
    assert_eq!(event.get("l4_dst_port"), Some(&Json::Int(80)));
    assert_eq!(event.get("protocol"), Some(&Json::Int(6)));
}

#[test]
fn test_netflow_v5_too_short() {
    let mut codec = NetflowCodec::default();
    assert!(codec.feed(&[0, 5, 0]).is_err());
}

#[test]
fn test_netflow_unknown_version() {
    let mut codec = NetflowCodec::default();
    assert!(codec.feed(&[0, 99, 0, 0]).is_err());
}

#[test]
fn test_netflow_v9_header() {
    let mut codec = NetflowCodec::default();
    let mut pkt = vec![0u8; 20];
    pkt[0] = 0;
    pkt[1] = 9;
    pkt[2] = 0;
    pkt[3] = 0; // count=0
    let event = codec
        .feed(&pkt)
        .expect("decode")
        .into_iter()
        .next()
        .expect("no events");
    assert_eq!(event.get("netflow_version"), Some(&Json::Int(9)));
}

#[test]
fn test_netflow_ipfix_header() {
    let mut codec = NetflowCodec::default();
    let mut pkt = vec![0u8; 16];
    pkt[0] = 0;
    pkt[1] = 10;
    let event = codec
        .feed(&pkt)
        .expect("decode")
        .into_iter()
        .next()
        .expect("no events");
    assert_eq!(event.get("netflow_version"), Some(&Json::Int(10)));
}

#[test]
fn test_netflow_name() {
    assert_eq!(NetflowCodec::default().name(), "netflow");
}

#[test]
fn test_netflow_encode() {
    let codec = NetflowCodec::default();
    let event = Event::new("flow data", NOW);
    let bytes = codec.emit(&event).expect("encode");
    assert!(!bytes.is_empty());
}

#[test]
fn test_netflow_v5_multiple_records() {
    let mut codec = NetflowCodec::default();
    // Build a v5 packet with 2 flow records (header=24, each record=48)
    let mut pkt = vec![0u8; 24 + 48 * 2];
    pkt[0] = 0;
    pkt[1] = 5;
    pkt[2] = 0;
    pkt[3] = 2; // count=2
                // Record 1: src=10.0.0.1
    pkt[24] = 10;
    pkt[25] = 0;
    pkt[26] = 0;
    pkt[27] = 1;
    // Record 2: src=10.0.0.2
    pkt[72] = 10;
    pkt[73] = 0;
    pkt[74] = 0;
    pkt[75] = 2;

    let events = codec.feed(&pkt).expect("decode");
    assert_eq!(events.len(), 2);
    assert_eq!(
        events[0].get("ipv4_src_addr"),
        Some(&Json::Str("10.0.0.1".into()))
    );
    assert_eq!(
        events[1].get("ipv4_src_addr"),
        Some(&Json::Str("10.0.0.2".into()))
    );
}

#[test]
fn test_nmap_decode_basic() {
    let mut codec = NmapCodec;
    let xml = r#"<?xml version="1.0"?>
<nmaprun scanner="nmap" args="nmap -sV 192.168.1.1" start="1712880000" startstr="2026-04-12 00:00">
  <host>
    <status state="up"/>
    <address addr="192.168.1.1" addrtype="ipv4"/>
    <hostname name="router.local"/>
    <ports>
      <port portid="22" protocol="tcp">
        <state state="open"/>
        <service name="ssh" product="OpenSSH" version="8.9"/>
      </port>
      <port portid="80" protocol="tcp">
        <state state="open"/>
        <service name="http" product="nginx"/>
      </port>
    </ports>
  </host>
  <finished elapsed="1.23" summary="Nmap done: 1 IP address (1 host up)"/>
</nmaprun>"#;
    let event = codec
        .feed(xml.as_bytes())
        .expect("decode")
        .into_iter()
        .next()
        .expect("no events");
    assert_eq!(
        event.get("ip"),
        Some(&Json::Str("192.168.1.1".into()))
    );
    assert_eq!(event.get("status"), Some(&Json::Str("up".into())));
    assert_eq!(
        event.get("hostname"),
        Some(&Json::Str("router.local".into()))
    );
    assert_eq!(event.get("scan_elapsed"), Some(&float(1.23)));

    let ports = event.get("ports").expect("ports");
    let Json::Array(arr) = ports else {
        panic!("array");
    };
    assert_eq!(arr.len(), 2);
}

#[test]
fn test_nmap_decode_port_details() {
    let mut codec = NmapCodec;
    let xml = r#"<nmaprun scanner="nmap">
  <host>
    <address addr="10.0.0.1" addrtype="ipv4"/>
    <ports>
      <port portid="443" protocol="tcp">
        <state state="open"/>
        <service name="https" product="Apache" version="2.4"/>
      </port>
    </ports>
  </host>
</nmaprun>"#;
    let event = codec
        .feed(xml.as_bytes())
        .expect("decode")
        .into_iter()
        .next()
        .expect("no events");
    let ports = event.get("ports").expect("ports");
    let Json::Array(arr) = ports else {
        panic!("array");
    };
    let port = &arr[0];
    assert_eq!(port.get("port"), Some(&Json::Int(443)));
    assert_eq!(
        port.get("service"),
        Some(&Json::Str("https".into()))
    );
    assert_eq!(
        port.get("product"),
        Some(&Json::Str("Apache".into()))
    );
}

#[test]
fn test_nmap_not_xml() {
    let mut codec = NmapCodec;
    assert!(codec.feed(b"not xml at all").is_err());
}

#[test]
fn test_nmap_name() {
    assert_eq!(NmapCodec.name(), "nmap");
}

#[test]
fn test_nmap_extract_attr() {
    let tag = r#"<address addr="10.0.0.1" addrtype="ipv4"/>"#;
    assert_eq!(NmapCodec::extract_attr(tag, "addr").as_deref(), Some("10.0.0.1"));
    assert_eq!(NmapCodec::extract_attr(tag, "addrtype").as_deref(), Some("ipv4"));
    assert_eq!(NmapCodec::extract_attr(tag, "missing").as_deref(), None);
}

#[test]
fn test_nmap_encode() {
    let codec = NmapCodec;
    let mut event = Event::empty(NOW);
    event.set("ip", Json::Str("10.0.0.1".into()));
    let bytes = codec.emit(&event).expect("encode");
    let text = String::from_utf8(bytes).expect("utf8");
    assert!(text.contains("10.0.0.1"));
}

#[test]
fn test_plain_decode() {
    let mut codec = PlainCodec::default();
    let event = codec
        .feed(b"hello world\n")
        .expect("decode")
        .into_iter()
        .next()
        .expect("no events");
    assert_eq!(event.message(), Some("hello world"));
}

#[test]
fn test_plain_encode() {
    let codec = PlainCodec::default();
    let event = Event::new("test message", NOW);
    let bytes = codec.emit(&event).expect("encode");
    assert_eq!(bytes, b"test message\n");
}

#[test]
fn test_plain_encode_with_format() {
    let codec = PlainCodec {
        charset: "UTF-8".to_string(),
        format: Some("%{message} from %{host}".to_string()),
    };
    let mut event = Event::new("hello", NOW);
    event.set(
        "host",
        Json::Str("srv01".into()),
    );
    let bytes = codec.emit(&event).expect("encode");
    let text = String::from_utf8(bytes).expect("utf8");
    assert_eq!(text, "hello from srv01");
}

#[test]
fn test_protobuf_decode_varint() {
    let mut codec = ProtobufCodec::default();
    // field 1, wire type 0 (varint), value 150
    // tag = (1 << 3) | 0 = 0x08
    // value 150 = 0x96 0x01
    let data = vec![0x08, 0x96, 0x01];
    let event = codec
        .feed(&data)
        .expect("decode")
        .into_iter()
        .next()
        .expect("no events");
    assert_eq!(event.get("field_1"), Some(&Json::Int(150)));
}

#[test]
fn test_protobuf_decode_string() {
    let mut codec = ProtobufCodec::default();
    // field 2, wire type 2 (length-delimited), value "testing"
    // tag = (2 << 3) | 2 = 0x12
    // length = 7
    let mut data = vec![0x12, 0x07];
    data.extend_from_slice(b"testing");
    let event = codec
        .feed(&data)
        .expect("decode")
        .into_iter()
        .next()
        .expect("no events");
    assert_eq!(
        event.get("field_2"),
        Some(&Json::Str("testing".into()))
    );
}

#[test]
fn test_protobuf_decode_multiple_fields() {
    let mut codec = ProtobufCodec::default();
    // field 1 varint 42, field 2 string "hi"
    let data = vec![0x08, 0x2A, 0x12, 0x02, b'h', b'i'];
    let event = codec
        .feed(&data)
        .expect("decode")
        .into_iter()
        .next()
        .expect("no events");
    assert_eq!(event.get("field_1"), Some(&Json::Int(42)));
    assert_eq!(event.get("field_2"), Some(&Json::Str("hi".into())));
}

#[test]
fn test_protobuf_decode_empty() {
    let mut codec = ProtobufCodec::default();
    assert!(codec.feed(b"").is_err());
}

#[test]
fn test_protobuf_with_class_name() {
    let mut codec = ProtobufCodec {
        class_name: Some("MyMessage".to_string()),
        include_raw: false,
    };
    let data = vec![0x08, 0x01];
    let event = codec
        .feed(&data)
        .expect("decode")
        .into_iter()
        .next()
        .expect("no events");
    assert_eq!(
        event.get("protobuf_class"),
        Some(&Json::Str("MyMessage".into()))
    );
}

#[test]
fn test_protobuf_include_raw() {
    let mut codec = ProtobufCodec {
        class_name: None,
        include_raw: true,
    };
    let data = vec![0x08, 0x01];
    let event = codec
        .feed(&data)
        .expect("decode")
        .into_iter()
        .next()
        .expect("no events");
    assert!(event.has_field("raw_bytes"));
}

#[test]
fn test_protobuf_encode() {
    let codec = ProtobufCodec::default();
    let event = Event::new("test", NOW);
    let bytes = codec.emit(&event).expect("encode");
    assert!(!bytes.is_empty());
}

#[test]
fn test_protobuf_name() {
    assert_eq!(ProtobufCodec::default().name(), "protobuf");
}

#[test]
fn test_protobuf_from_config() {
    let settings = js(r#"{ "class_name": "MyProto", "include_raw": true }"#);
    let codec = ProtobufCodec::from_config(&lib(settings)).expect("config");
    assert_eq!(codec.class_name, Some("MyProto".to_string()));
    assert!(codec.include_raw);
}

#[test]
fn test_protobuf_decode_huge_varint_length_no_overflow() {
    let mut codec = ProtobufCodec::default();
    let data = [
        0x0a, 0xff, 0xff, 0xff, 0xff, 0xff, 0xff, 0xff, 0xff, 0xff, 0x7f, 0xff, 0xff, 0xff,
        0x5b, 0x6e,
    ];
    let _ = codec.feed(&data);
}

#[test]
fn test_protobuf_decode_corpus_regression_2026_05_02() {
    let mut codec = ProtobufCodec::default();
    let corpus: [u8; 16] = [
        0x0a, 0xff, 0xff, 0xff, 0xff, 0xff, 0xff, 0xff, 0xff, 0xff, 0x7f, 0xff, 0xff, 0xff,
        0x5b, 0x6e,
    ];
    let _ = codec.feed(&corpus);
}

#[test]
fn test_rubydebug_encode() {
    let codec = RubydebugCodec;
    let mut event = Event::new("hello world", NOW);
    event.set("host", Json::Str("server01".into()));
    let bytes = codec.emit(&event).expect("encode");
    let text = String::from_utf8(bytes).expect("utf8");
    assert!(text.contains("\"message\" => \"hello world\""));
    assert!(text.contains("\"host\" => \"server01\""));
    assert!(text.contains("@timestamp"));
    assert!(text.starts_with('{'));
    assert!(text.trim_end().ends_with('}'));
}

#[test]
fn test_rubydebug_decode_fallback() {
    let mut codec = RubydebugCodec;
    let event = codec
        .feed(b"some text\n")
        .expect("decode")
        .into_iter()
        .next()
        .expect("no events");
    assert_eq!(event.message(), Some("some text"));
}

#[test]
fn test_rubydebug_encode_with_tags() {
    let codec = RubydebugCodec;
    let mut event = Event::new("test", NOW);
    event.add_tag("tag1");
    event.add_tag("tag2");
    let bytes = codec.emit(&event).expect("encode");
    let text = String::from_utf8(bytes).expect("utf8");
    assert!(text.contains("\"tags\" => [\"tag1\", \"tag2\"]"));
}

#[test]
fn test_rubydebug_format_value_nil() {
    assert_eq!(RubydebugCodec::format_value(&Json::Null, &Answers::new()).unwrap(), "nil");
}

#[test]
fn test_rubydebug_format_value_array() {
    let arr = Json::Array(vec![Json::Int(1), Json::Int(2)]);
    assert_eq!(RubydebugCodec::format_value(&arr, &Answers::new()).unwrap(), "[1, 2]");
}

#[test]
fn test_rubydebug_name() {
    assert_eq!(RubydebugCodec.name(), "rubydebug");
}

#[test]
fn test_script_codec_decode_basic() {
    let mut codec = ScriptCodec::from_config(&lib(js(r#"{}"#))).expect("config");
    let event = codec
        .feed(b"hello world")
        .expect("decode")
        .into_iter()
        .next()
        .expect("no events");
    assert_eq!(event.message(), Some("hello world"));
}

#[test]
fn test_script_codec_decode_with_script() {
    let mut codec = ScriptCodec::from_config(&lib(js(r#"{ "decode": "event.set(\"decoded\", true); event.tag(\"script_processed\")" }"#)))
    .expect("config");
    let event = codec
        .feed(b"test data")
        .expect("decode")
        .into_iter()
        .next()
        .expect("no events");
    assert_eq!(event.message(), Some("test data"));
    assert_eq!(event.get("decoded"), Some(&Json::Bool(true)));
    assert!(event.has_tag("script_processed"));
}

#[test]
fn test_script_codec_decode_transform_field() {
    let mut codec = ScriptCodec::from_config(&lib(js(r#"{ "decode": "event.set(\"original\", event.get(\"message\"))" }"#)))
    .expect("config");
    let event = codec
        .feed(b"hello")
        .expect("decode")
        .into_iter()
        .next()
        .expect("no events");
    assert_eq!(
        event.get("original"),
        Some(&Json::Str("hello".into()))
    );
}

#[test]
fn test_script_codec_encode_basic() {
    let codec = ScriptCodec::from_config(&lib(js(r#"{}"#))).expect("config");
    let event = Event::new("test", NOW);
    let bytes = codec.emit(&event).expect("encode");
    let output = String::from_utf8(bytes).expect("utf8");
    assert!(output.contains("test"));
}

#[test]
fn test_script_codec_encode_with_script() {
    let codec = ScriptCodec::from_config(&lib(js(r#"{ "encode": "event.set(\"encoded\", true)" }"#)))
    .expect("config");
    let event = Event::new("test", NOW);
    let bytes = codec.emit(&event).expect("encode");
    let output = String::from_utf8(bytes).expect("utf8");
    assert!(output.contains("encoded"));
    assert!(output.contains("true"));
}

#[test]
fn test_script_codec_name() {
    let codec = ScriptCodec::from_config(&lib(js(r#"{}"#))).expect("config");
    assert_eq!(codec.name(), "script");
}

#[test]
fn test_script_codec_with_init() {
    let codec = ScriptCodec::from_config(&lib(js(r#"{ "init": "counter = 0", "decode": "", "encode": "" }"#)))
    .expect("config");
    assert_eq!(codec.init, Some("counter = 0".to_string()));
}

#[test]
fn test_script_codec_set_integer() {
    let mut codec = ScriptCodec::from_config(&lib(js(r#"{ "decode": "event.set(\"count\", 42)" }"#)))
    .expect("config");
    let event = codec
        .feed(b"data")
        .expect("decode")
        .into_iter()
        .next()
        .expect("no events");
    assert_eq!(event.get("count"), Some(&Json::Int(42)));
}

#[test]
fn test_script_codec_multiple_statements() {
    let mut codec = ScriptCodec::from_config(&lib(js(r#"{ "decode": "event.set(\"a\", 1); event.set(\"b\", \"two\"); event.tag(\"multi\")" }"#)))
    .expect("config");
    let event = codec
        .feed(b"x")
        .expect("decode")
        .into_iter()
        .next()
        .expect("no events");
    assert_eq!(event.get("a"), Some(&Json::Int(1)));
    assert_eq!(event.get("b"), Some(&Json::Str("two".into())));
    assert!(event.has_tag("multi"));
}

#[test]
fn test_script_codec_remove_field() {
    let mut codec = ScriptCodec::from_config(&lib(js(r#"{ "decode": "event.remove(\"message\")" }"#)))
    .expect("config");
    let event = codec
        .feed(b"hello")
        .expect("decode")
        .into_iter()
        .next()
        .expect("no events");
    assert!(!event.has_field("message"));
}

#[test]
fn test_script_codec_cancel() {
    let mut codec = ScriptCodec::from_config(&lib(js(r#"{ "decode": "event.cancel()" }"#)))
    .expect("config");
    let event = codec
        .feed(b"hello")
        .expect("decode")
        .into_iter()
        .next()
        .expect("no events");
    assert!(event.is_cancelled());
}

const CRASH_BODY: [u8; 161] = [
    0x4f, 0x62, 0x6a, 0x01, 0x30, 0x2e, 0x36, 0x36, 0xff, 0xff, 0xff, 0xff, 0xff, 0xff, 0x95, 0x95,
    0x95, 0x95, 0x95, 0x95, 0x5d, 0x95, 0x95, 0x95, 0x97, 0x95, 0x95, 0x95, 0xff, 0x56, 0x3e, 0x00,
    0x00, 0x00, 0x00, 0xff, 0xff, 0xff, 0x07, 0x00, 0x00, 0x95, 0x00, 0x00, 0x20, 0x00, 0x00, 0x00,
    0x00, 0x00, 0x00, 0x00, 0x00, 0x00, 0x95, 0x00, 0x00, 0x00, 0x00, 0x00, 0x00, 0x00, 0x00, 0xff,
    0xff, 0xff, 0x64, 0x00, 0x00, 0x00, 0x00, 0x00, 0x00, 0x00, 0x00, 0x00, 0x00, 0x00, 0x00, 0x00,
    0x00, 0x00, 0x00, 0x00, 0x00, 0x00, 0x00, 0x00, 0x00, 0x00, 0x00, 0x00, 0x00, 0x00, 0x00, 0x00,
    0x00, 0x00, 0x00, 0x00, 0x00, 0x00, 0x00, 0x00, 0x00, 0x00, 0x00, 0x00, 0x00, 0x00, 0x00, 0x00,
    0x00, 0x00, 0x00, 0x00, 0x00, 0x00, 0x00, 0x00, 0x00, 0x00, 0x00, 0x00, 0x00, 0x00, 0x00, 0x00,
    0x00, 0x00, 0x00, 0x00, 0x00, 0x00, 0x95, 0x95, 0x17, 0x95, 0x95, 0x95, 0xff, 0x56, 0xff, 0x00,
    0x00, 0x00, 0x00, 0x00, 0x00, 0x00, 0x00, 0x00, 0x00, 0x00, 0x00, 0x00, 0x00, 0x00, 0x00, 0x00,
    0x00,
];

#[test]
fn avro_decode_ocf_block_size_underflow_does_not_panic() {
    let mut codec = AvroCodec::default();
    let _ = codec.feed(&CRASH_BODY);
}

#[test]
fn avro_decode_ocf_negative_block_size_does_not_panic() {
    let mut codec = AvroCodec::default();
    let mut data = Vec::new();
    data.extend_from_slice(b"Obj\x01");
    // Empty header map: zero block count.
    data.push(0);
    // 16-byte sync marker.
    data.extend_from_slice(&[0u8; 16]);
    // Need >= 4 bytes remaining for the block read branch to fire.
    // block_count = zig-zag(2) = 0x04 (positive, harmless).
    data.push(0x04);
    // block_size = zig-zag-decoded large negative number. A 10-byte
    // varint with all-but-last bytes 0xFF and a final 0x7F decodes to
    // u64 ~MAX, then zig-zag → i64::MIN-ish: triggers the
    // `(offset as i64 + size)` underflow → wrapped `as usize`
    // → out-of-range slice.
    data.extend_from_slice(&[0xff, 0xff, 0xff, 0xff, 0xff, 0xff, 0xff, 0xff, 0xff, 0x7f]);
    // A few trailing payload bytes so the slice attempt has data to
    // run past.
    data.extend_from_slice(&[0x00, 0x01, 0x02, 0x03]);

    let _ = codec.feed(&data);
}

// Further behaviour

fn one(events: Result<Vec<Event>, String>) -> Event {
    events.expect("decode").into_iter().next().expect("an event")
}

fn string(s: &str) -> Json {
    Json::Str(s.to_string())
}

fn object(members: Vec<(&str, Json)>) -> Json {
    Json::Object(members.into_iter().map(|(k, v)| (k.to_string(), v)).collect())
}

#[test]
fn every_supported_name_gives_a_codec() {
    let names = supported_codecs();
    assert_eq!(names.len(), 25);
    for name in names {
        let codec = create_codec(name, &Json::Null).expect("supported");
        let shown = match name {
            "json_lines" => "json",
            "line" => "plain",
            "ruby" => "script",
            "edn_lines" => "edn",
            other => other,
        };
        assert_eq!(codec.name(), shown);
        assert_eq!(codec.is_stateful(), name == "multiline");
    }
    match create_codec("nope", &Json::Null) {
        Err(CodecError::Codec(m)) => assert_eq!(m, "unknown codec: nope"),
        other => panic!("expected an error, got {other:?}"),
    }
    match create_codec("multiline", &object(vec![("pattern", string("("))])) {
        Err(CodecError::Codec(m)) => assert!(m.starts_with("invalid multiline pattern: regex parse error")),
        other => panic!("expected an error, got {other:?}"),
    }
    assert_eq!(default_codec().name(), "plain");
}

#[test]
fn any_codec_does_what_its_kind_does() {
    let mut codec = create_codec("csv", &object(vec![("columns", Json::Array(vec![string("a")]))]))
        .expect("csv");
    let event = one(codec.feed(b"1,2"));
    assert_eq!(event.get("a"), Some(&string("1")));
    assert_eq!(event.get("column2"), Some(&string("2")));
    assert_eq!(event.message(), Some("1,2"));
}

#[test]
fn json_text_of_an_event() {
    let mut event = Event::new("hi", NOW);
    event.add_tag("t");
    let bytes = JsonCodec::default().emit(&event).expect("encode");
    assert_eq!(
        String::from_utf8(bytes).expect("utf8"),
        r#"{"message":"hi","@timestamp":"2026-04-12T00:00:00.000Z","tags":["t"]}"#
    );
    let pretty = JsonCodec { target: None, pretty: true };
    assert_eq!(
        String::from_utf8(pretty.emit(&Event::new("hi", NOW)).expect("encode")).expect("utf8"),
        "{\n  \"message\": \"hi\",\n  \"@timestamp\": \"2026-04-12T00:00:00.000Z\"\n}"
    );
}

#[test]
fn json_keeps_doubles_and_large_integers() {
    let mut codec = JsonCodec::default();
    let event = one(codec.feed(br#"{"a":0.1,"b":18446744073709551615,"c":-7,"d":1e300}"#));
    assert_eq!(event.get("b"), Some(&Json::UInt(u64::MAX)));
    assert_eq!(event.get("c"), Some(&Json::Int(-7)));
    let text = String::from_utf8(codec.emit(&event).expect("encode")).expect("utf8");
    assert!(text.starts_with(r#"{"a":0.1,"b":18446744073709551615,"c":-7,"d":1e+300"#), "{text}");
    let mut odd = Event::empty(NOW);
    odd.set("x", float(f64::NAN));
    let text = String::from_utf8(codec.emit(&odd).expect("encode")).expect("utf8");
    assert!(text.contains(r#""x":null"#));
}

#[test]
fn json_errors_name_the_place() {
    let err = JsonCodec::default().feed(b"{").expect_err("not json");
    assert_eq!(err, "JSON decode error: EOF while parsing an object at line 1 column 1");
}

#[test]
fn fields_survive_json_and_messagepack() {
    let mut event = Event::new("m", NOW);
    event.set("list", Json::Array(vec![Json::Int(1), Json::Null, Json::Bool(true)]));
    event.set("deep", object(vec![("k", object(vec![("n", Json::Int(-1))]))]));
    let mut json = JsonCodec::default();
    let mut msgpack = MsgpackCodec::default();
    let encoded = json.emit(&event).expect("json");
    let by_json = one(json.feed(&encoded));
    let encoded = msgpack.emit(&event).expect("msgpack");
    let by_msgpack = one(msgpack.feed(&encoded));
    for read in [by_json, by_msgpack] {
        assert_eq!(read.fields[..3], event.fields[..]);
        assert_eq!(read.get("@timestamp"), Some(&string("2026-04-12T00:00:00.000Z")));
    }
}

#[test]
fn bytes_that_are_no_text_are_repaired() {
    let event = one(BytesCodec.feed(b"a\xffb"));
    assert_eq!(event.message(), Some("a\u{fffd}b"));
    assert_eq!(event.get("content_length"), Some(&Json::Int(3)));
    let written = BytesCodec.emit(&Event::new("caf\u{e9}", NOW)).expect("encode");
    let back = one(BytesCodec.feed(&written));
    assert_eq!(back.message(), Some("caf\u{e9}"));
    assert_eq!(back.get("content_length"), Some(&Json::Int(5)));
}

#[test]
fn lines_lose_only_their_end() {
    let mut codec = PlainCodec::default();
    let written = codec.emit(&Event::new(" a\tb ", NOW)).expect("encode");
    assert_eq!(one(codec.feed(&written)).message(), Some(" a\tb "));
    assert_eq!(one(codec.feed(b"a\r\n\n")).message(), Some("a"));
    assert_eq!(codec.emit(&Event::empty(NOW)).expect("encode"), b"\n");
    let formatted = PlainCodec {
        charset: "UTF-8".to_string(),
        format: Some("%{n}/%{missing}/%{f}".to_string()),
    };
    let mut event = Event::empty(NOW);
    event.set("n", Json::Int(3));
    event.set("f", float(2.5));
    assert_eq!(formatted.emit(&event).expect("encode"), b"3/%{missing}/2.5");
}

#[test]
fn csv_quotes_what_needs_quotes() {
    let mut codec = CsvCodec {
        columns: vec!["a".into(), "b".into(), "c".into()],
        ..Default::default()
    };
    let mut event = Event::empty(NOW);
    event.set("a", string("x,y"));
    event.set("b", string("say \"hi\""));
    let bytes = codec.emit(&event).expect("encode");
    assert_eq!(bytes, b"\"x,y\",\"say \"\"hi\"\"\",\n");
    let back = one(codec.feed(&bytes));
    assert_eq!(back.get("a"), Some(&string("x,y")));
    assert_eq!(back.get("b"), Some(&string("say \"hi\"")));
    assert_eq!(back.get("c"), Some(&string("")));
    let all = CsvCodec::default();
    assert_eq!(all.emit(&event).expect("encode"), b"\"x,y\",\"say \"\"hi\"\"\"\n");
}

#[test]
fn csv_errors() {
    let mut codec = CsvCodec::default();
    assert_eq!(codec.feed(b"").expect_err("empty"), "empty CSV data");
    let err = codec.feed(b"a,b\nc\n").expect_err("lengths");
    assert!(err.starts_with("CSV parse error: CSV error: record 1"), "{err}");
    let events = codec.feed(b"a,b\nc,d\n").expect("records");
    assert_eq!(events.len(), 2);
    assert_eq!(events[1].get("column1"), Some(&string("c")));
    assert_eq!(events[1].message(), Some("a,b\nc,d"));
}

#[test]
fn csv_settings() {
    let codec = CsvCodec::from_config(&lib(js(
        r#"{"separator": ";x", "quote": "'", "columns": ["a", 1, "b"], "has_header": true, "target": "t"}"#,
    )))
    .expect("config");
    assert_eq!(codec.separator, b';');
    assert_eq!(codec.quote, b'\'');
    assert_eq!(codec.columns, vec!["a".to_string(), "b".to_string()]);
    assert!(codec.has_header);
    assert_eq!(codec.target, Some("t".to_string()));
}

#[test]
fn cef_errors_and_extensions() {
    let mut codec = CefCodec::default();
    assert_eq!(
        codec.feed(b"hello").expect_err("no CEF"),
        "not a CEF message: missing CEF: prefix"
    );
    assert_eq!(
        codec.feed(b"CEF:0|a|b").expect_err("short"),
        "invalid CEF format: expected 7 pipe-delimited header fields, got 2"
    );
    let event = one(codec.feed(b"CEF:0|v|p|1|s|n|3|msg=two words cs1=a=b custom=z"));
    assert_eq!(event.get("deviceCustomString1"), Some(&string("a=b")));
    assert_eq!(event.get("custom"), Some(&string("z")));
    assert_eq!(
        event.message(),
        Some("CEF:0|v|p|1|s|n|3|msg=two words cs1=a=b custom=z")
    );
    let quiet = CefCodec { default_severity: Some("7".to_string()) };
    assert_eq!(
        quiet.emit(&Event::new("m", NOW)).expect("encode"),
        b"CEF:0|FerroStash|FerroStash|1.0|0||7|\n"
    );
}

#[test]
fn cloudfront_types_its_columns() {
    let mut codec = CloudfrontCodec {
        fields: vec!["time-taken".into(), "sc-status".into(), "x".into()],
        detect: false,
    };
    let event = one(codec.feed(b"0.25\tabc\t-\textra"));
    assert_eq!(event.get("time-taken"), Some(&float(0.25)));
    assert_eq!(event.get("sc-status"), Some(&string("abc")));
    assert_eq!(event.get("x"), Some(&Json::Null));
    assert_eq!(event.get("field4"), Some(&string("extra")));
    let header = one(codec.feed(b"#Fields:  a\tb  c"));
    assert_eq!(
        header.get("cloudfront_fields"),
        Some(&Json::Array(vec![string("a"), string("b"), string("c")]))
    );
    assert_eq!(codec.emit(&event).expect("encode"), b"0.25\tabc\tnull\n");
    let timed = one(CloudfrontCodec::default().feed(b"2026-04-12\t10:30:00"));
    assert_eq!(timed.timestamp, Moment { secs: 1_775_989_800, nanos: 0 });
}

#[test]
fn edn_text_of_an_event() {
    let mut event = Event::empty(NOW);
    event.set("n", Json::Int(42));
    event.set("l", Json::Array(vec![Json::Null, Json::Bool(false), float(2.5)]));
    event.set("m", object(vec![("k", string("v"))]));
    let bytes = EdnCodec::default().emit(&event).expect("encode");
    assert_eq!(
        String::from_utf8(bytes).expect("utf8"),
        "{:@timestamp \"2026-04-12T00:00:00+00:00\", :n 42, :l [nil false 2.5], :m {:k \"v\"}}\n"
    );
}

#[test]
fn edn_values_and_errors() {
    let mut codec = EdnCodec::default();
    assert_eq!(codec.feed(b" ").expect_err("empty"), "empty EDN data");
    assert_eq!(codec.feed(b")").expect_err("no value"), "failed to parse EDN");
    let err = codec.feed(b"[[[[[").expect_err("run");
    assert_eq!(
        err,
        "EDN payload has a run of 5 consecutive container-open bytes (`{`/`[`); maximum 4"
    );
    let dense = "[ ".repeat(32);
    assert_eq!(
        codec.feed(dense.as_bytes()).expect_err("total"),
        "EDN payload has 32 container-open bytes (`{`/`[`); maximum 32 (exclusive)"
    );
    let event = one(codec.feed(br#"{1 :a, true [x -7 1.5e3] :t #my/tag "v" nil \newline}"#));
    assert_eq!(event.get("1"), Some(&string("a")));
    assert_eq!(
        event.get("true"),
        Some(&Json::Array(vec![string("x"), Json::Int(-7), float(1500.0)]))
    );
    assert_eq!(event.get("t"), Some(&string("#my/tag v")));
    assert_eq!(event.get("null"), Some(&string("\n")));
    assert_eq!(one(codec.feed(b"12")).message(), Some("12"));
}

#[test]
fn es_bulk_errors() {
    let mut codec = EsBulkCodec::default();
    assert_eq!(codec.feed(b" \n").expect_err("empty"), "empty bulk data");
    assert_eq!(codec.feed(b"[]").expect_err("list"), "invalid bulk action format");
    assert_eq!(codec.feed(b"{}").expect_err("no action"), "invalid bulk action format");
    let err = codec.feed(b"{x").expect_err("json");
    assert!(err.starts_with("invalid bulk action JSON: "), "{err}");
    let err = codec.feed(b"{\"index\":{}}\n{x").expect_err("json");
    assert!(err.starts_with("invalid bulk source JSON: "), "{err}");
}

#[test]
fn es_bulk_keeps_action_and_document() {
    let mut codec = EsBulkCodec { index: Some("logs".to_string()), action: "create".to_string() };
    let mut event = Event::new("two\nlines", NOW);
    event.set("[@metadata][_id]", string("7"));
    let encoded = codec.emit(&event).expect("encode");
    assert_eq!(encoded.iter().filter(|b| **b == b'\n').count(), 2);
    let read = one(codec.feed(&encoded));
    assert_eq!(read.message(), Some("two\nlines"));
    assert_eq!(read.get("[@metadata][action]"), Some(&string("create")));
    assert_eq!(read.get("[@metadata][_index]"), Some(&string("logs")));
    assert_eq!(read.get("[@metadata][_id]"), Some(&string("7")));
    event.set("[@metadata][action]", string("delete"));
    let encoded = codec.emit(&event).expect("encode");
    assert_eq!(encoded, b"{\"delete\":{\"_index\":\"logs\",\"_id\":\"7\"}}\n");
    let read = one(codec.feed(&encoded));
    assert_eq!(read.message(), None);
    assert_eq!(read.get("[@metadata][action]"), Some(&string("delete")));
}

#[test]
fn fluent_times_and_errors() {
    let mut codec = FluentCodec::default();
    let pack = |t: &str| rmp_serde::to_vec(&js(t)).expect("encode");
    assert_eq!(
        codec.feed(&pack("7")).expect_err("number"),
        "fluent message must be an array"
    );
    assert_eq!(
        codec.feed(&pack("[\"t\"]")).expect_err("short"),
        "fluent message needs at least 2 elements, got 1"
    );
    assert_eq!(
        codec.feed(&pack("[\"t\", []]")).expect_err("short"),
        "fluent message needs at least 3 elements, got 2"
    );
    let event = one(codec.feed(&pack("[7, 1712880000.5, {\"a\": 1}]")));
    assert_eq!(event.get("fluent_tag"), Some(&string("unknown")));
    assert_eq!(event.timestamp, Moment { secs: 1_712_880_000, nanos: 500_000_000 });
    let event = one(codec.feed(&pack("[\"t\", 9223372036854775807, {}]")));
    assert_eq!(event.timestamp, NOW);
}

#[test]
fn graphite_errors_and_times() {
    let mut codec = GraphiteCodec::from_config(&Json::Null).expect("config");
    assert!(codec.include_timestamp);
    assert_eq!(codec.feed(b"# x").expect_err("comment"), "empty or comment graphite line");
    assert_eq!(
        codec.feed(b"cpu").expect_err("metric"),
        "invalid graphite line: expected 'metric value [timestamp]', got: cpu"
    );
    assert_eq!(
        codec.feed(b"cpu x").expect_err("value"),
        "invalid graphite value: invalid float literal"
    );
    assert_eq!(
        codec.feed(b"cpu  1").expect_err("value"),
        "invalid graphite value: cannot parse float from empty string"
    );
    let event = one(codec.feed(b"cpu 1 1712880000"));
    assert_eq!(event.timestamp, Moment { secs: 1_712_880_000, nanos: 0 });
    assert_eq!(codec.emit(&event).expect("encode"), b"cpu 1 1712880000\n");
    let event = one(codec.feed(b"cpu 1 9223372036854775807"));
    assert_eq!(event.get("timestamp_epoch"), Some(&Json::Int(i64::MAX)));
    assert_eq!(event.timestamp, NOW);
    assert_eq!(
        codec.emit(&Event::empty(NOW)).expect_err("metric"),
        "missing 'metric' field"
    );
    let mut event = Event::empty(NOW);
    event.set("metric", string("m"));
    event.set("value", string("1"));
    assert_eq!(codec.emit(&event).expect_err("value"), "missing 'value' field");
    event.set("value", Json::Int(3));
    assert_eq!(codec.emit(&event).expect("encode"), b"m 3 1775952000\n");
}

#[test]
fn multiline_settings_and_lines() {
    let mut codec = MultilineCodec::from_config(&lib(js(
        r#"{"pattern": "^at ", "what": "next", "max_bytes": -1}"#,
    )))
    .expect("config");
    assert_eq!(codec.mode(), &MultilineMode::Next);
    assert_eq!(codec.max_bytes(), 1_048_576);
    assert_eq!(codec.max_lines(), 500);
    assert!(codec.should_merge("at line 1") && !codec.should_merge("not at "));
    assert_eq!(one(codec.feed(b"text \r\n")).message(), Some("text"));
    assert_eq!(codec.emit(&Event::new("text", NOW)).expect("encode"), b"text\n");
}

#[test]
fn netflow_learns_templates() {
    let mut codec = NetflowCodec::default();
    // Version 9: a template of a source address and a port, then its data.
    let mut template = vec![0, 9, 0, 1];
    template.extend_from_slice(&[0; 16]);
    template.extend_from_slice(&[0, 0, 0, 16, 1, 0, 0, 2, 0, 8, 0, 4, 0, 7, 0, 2]);
    let mut data = vec![0, 9, 0, 1];
    data.extend_from_slice(&[0; 16]);
    data.extend_from_slice(&[1, 0, 0, 10, 10, 1, 2, 3, 0, 80]);
    let before = codec.feed(&data).expect("decode");
    assert!(before.iter().all(|e| e.get("ipv4_src_addr").is_none()));
    codec.feed(&template).expect("decode");
    let events = codec.feed(&data).expect("decode");
    let flow = events.iter().find(|e| e.get("ipv4_src_addr").is_some()).expect("a flow");
    assert_eq!(flow.get("ipv4_src_addr"), Some(&string("10.1.2.3")));
    assert_eq!(flow.get("l4_src_port"), Some(&Json::Int(80)));
}

#[test]
fn bytes_as_hexadecimal_digits() {
    assert_eq!(hex_digits(&[0x00, 0x0f, 0xff, 0xa5]), "000fffa5");
    assert_eq!(hex_digits(&[]), "");
}

#[test]
fn varints_and_their_folding() {
    let mut at = 0;
    assert_eq!(read_varint(&[0xac, 0x02, 0x7f], &mut at), Some(300));
    assert_eq!(at, 2);
    assert_eq!(read_varint(&[0x80], &mut 0), None);
    assert_eq!(unfold(0), 0);
    assert_eq!(unfold(1), -1);
    assert_eq!(unfold(u64::MAX), i64::MIN);
}

#[test]
fn protobuf_doubles() {
    let mut codec = ProtobufCodec::default();
    let fixed64 = |x: f64| {
        let mut data = vec![0x09];
        data.extend_from_slice(&x.to_bits().to_le_bytes());
        data
    };
    for (x, v) in [
        (3.0, Json::Int(3)),
        (-3.0, Json::Int(-3)),
        (-0.0, Json::Int(0)),
        (4_503_599_627_370_497.0, Json::Int(4_503_599_627_370_497)),
        (9_223_372_036_854_774_784.0, Json::Int(9_223_372_036_854_774_784)),
        (9_223_372_036_854_775_808.0, float(9_223_372_036_854_775_808.0)),
        (0.5, float(0.5)),
        (5e-324, float(5e-324)),
        (f64::INFINITY, float(f64::INFINITY)),
    ] {
        assert_eq!(one(codec.feed(&fixed64(x))).get("field_1"), Some(&v), "{x}");
    }
    let mut data = vec![0x0d];
    data.extend_from_slice(&1.25_f32.to_bits().to_le_bytes());
    assert_eq!(one(codec.feed(&data)).get("field_1"), Some(&float(1.25)));
}

#[test]
fn rubydebug_aligns_its_keys() {
    let mut event = Event::new("hi", NOW);
    event.set("o", object(vec![("k", Json::Array(vec![float(0.5), Json::Null]))]));
    let bytes = RubydebugCodec.emit(&event).expect("encode");
    assert_eq!(
        String::from_utf8(bytes).expect("utf8"),
        "{\n    \"@timestamp\" => 2026-04-12T00:00:00.000Z,\n       \"message\" => \"hi\",\n             \"o\" => {\"k\" => [0.5, nil]}\n}\n"
    );
}

#[test]
fn script_values() {
    let codec = |script: &str| {
        ScriptCodec::from_config(&object(vec![("decode", string(script))])).expect("config")
    };
    let event = one(codec(
        "event.set('a', 'x'); event.set(\"b\", 1.5);; event.set(c, nil); event.set(d, bare word); event.set(e, event.get('none')); event.set(f, false); nonsense; event.set(g)",
    )
    .feed(b"line\n"));
    assert_eq!(event.get("a"), Some(&string("x")));
    assert_eq!(event.get("b"), Some(&float(1.5)));
    assert_eq!(event.get("c"), Some(&Json::Null));
    assert_eq!(event.get("d"), Some(&string("bare word")));
    assert_eq!(event.get("e"), Some(&Json::Null));
    assert_eq!(event.get("f"), Some(&Json::Bool(false)));
    assert!(!event.has_field("g"));
    assert_eq!(event.message(), Some("line"));
}

#[test]
fn nmap_scan_without_hosts_is_one_event() {
    let event = one(NmapCodec.feed(br#"<nmaprun scanner="nmap" start="1712880000"></nmaprun>"#));
    assert_eq!(event.get("scanner"), Some(&string("nmap")));
    assert_eq!(event.get("scan_start"), Some(&Json::Int(1_712_880_000)));
    assert_eq!(event.timestamp, NOW);
    let events = NmapCodec
        .feed(br#"<nmaprun start="1712880000"><host><status state="up"/></host><host><address addr="::1"/></host></nmaprun>"#)
        .expect("decode");
    assert_eq!(events.len(), 2);
    assert_eq!(events[0].get("status"), Some(&string("up")));
    assert_eq!(events[1].get("ip"), Some(&string("::1")));
    assert_eq!(events[1].timestamp, Moment { secs: 1_712_880_000, nanos: 0 });
}

#[test]
fn metadata_is_apart_from_fields() {
    let mut event = Event::empty(NOW);
    event.set("[@metadata][k]", Json::Int(1));
    event.set("k", Json::Int(2));
    assert_eq!(event.get("[@metadata][k]"), Some(&Json::Int(1)));
    assert_eq!(event.get("k"), Some(&Json::Int(2)));
    event.remove("k");
    assert!(!event.has_field("k") && event.has_field("[@metadata][k]"));
}

#[test]
fn edn_depth_is_bounded() {
    let mut codec = EdnCodec::default();
    let deep = "#a ".repeat(64) + "1";
    assert_eq!(codec.feed(deep.as_bytes()).expect_err("deep"), "failed to parse EDN");
    let fine = "#inst ".repeat(63) + "1";
    assert_eq!(one(codec.feed(fine.as_bytes())).message(), Some("1"));
    let quiet = format!("\"{}\"", "{".repeat(40));
    assert_eq!(one(codec.feed(quiet.as_bytes())).message(), Some("{".repeat(40).as_str()));
}

#[test]
fn fields_survive_edn() {
    let mut event = Event::empty(NOW);
    event.set("message", string("to be, or [not] to be; {1}"));
    event.set("n", Json::Int(i64::MIN));
    event.set("flag", Json::Bool(false));
    event.set("none", Json::Null);
    event.set(
        "list",
        Json::Array(vec![Json::Int(-7), string(" "), Json::Array(vec![]), object(vec![])]),
    );
    event.set("map", object(vec![("k/x", Json::Int(0)), ("v", object(vec![("", string(""))]))]));
    let mut codec = EdnCodec::default();
    let bytes = codec.encode(&event, &Answers::new()).expect("encode");
    let back = one(codec.feed(&bytes));
    for (k, v) in &event.fields {
        assert_eq!(back.get(k), Some(v), "{k}");
    }
    assert_eq!(back.get("@timestamp"), Some(&string("2026-04-12T00:00:00+00:00")));
    assert_eq!(back.fields.len(), event.fields.len() + 1);
    // A quote inside a text is not escaped.
    event.set("message", string("say \"hi\""));
    let bytes = codec.encode(&event, &Answers::new()).expect("encode");
    assert_eq!(codec.feed(&bytes).expect_err("quote"), "failed to parse EDN");
}

#[test]
fn cloudfront_header_names_the_columns() {
    let mut codec = CloudfrontCodec::default();
    one(codec.feed(b"#Version: 1.0"));
    one(codec.feed(b"#Fields: time-taken sc-status"));
    let event = one(codec.feed(b"0.5\t200"));
    assert_eq!(event.get("time-taken"), Some(&float(0.5)));
    assert_eq!(event.get("sc-status"), Some(&Json::Int(200)));
    assert!(!event.has_field("date"));
    // Names of one's own override the header.
    let settings = object(vec![("fields", Json::Array(vec![string("a")]))]);
    let mut codec = CloudfrontCodec::from_config(&settings).expect("config");
    one(codec.feed(b"#Fields: b"));
    assert_eq!(one(codec.feed(b"1")).get("a"), Some(&string("1")));
}

#[test]
fn cef_values_hold_spaces() {
    let pairs = |s: &str| CefCodec::parse_extensions(s);
    let pair = |k: &str, v: &str| (k.to_string(), v.to_string());
    assert_eq!(
        pairs("src=10.0.0.1 dst=192.168.1.1 msg=SQL injection"),
        vec![pair("src", "10.0.0.1"), pair("dst", "192.168.1.1"), pair("msg", "SQL injection")]
    );
    assert_eq!(
        pairs("msg=1 + 1 =2 src=x"),
        vec![pair("msg", "1 + 1 =2"), pair("src", "x")]
    );
    let event = one(CefCodec::default().feed(
        b"CEF:0|Security|IDS|1.0|100|Attack detected|9|src=10.0.0.1 cs1=two words here",
    ));
    assert_eq!(event.get("deviceCustomString1"), Some(&string("two words here")));
    assert!(!event.has_field("here"));
}

#[test]
fn cef_escapes_are_dropped() {
    let event = one(CefCodec::default().feed(b"CEF:0|a\\|b|c\\\\|1.0|1|plain|5|"));
    assert_eq!(event.get("device_vendor"), Some(&string("a|b")));
    assert_eq!(event.get("device_product"), Some(&string("c\\")));
    assert_eq!(event.get("name"), Some(&string("plain")));
}

#[test]
fn nmap_elements_have_whole_names() {
    let events = NmapCodec
        .feed(br#"<nmaprun><hosthint/><host><address addr="10.0.0.1"/><hostnames><hostname name="a.b"/></hostnames></host><runstats><hosts up="1"/></runstats></nmaprun>"#)
        .expect("decode");
    assert_eq!(events.len(), 1);
    assert_eq!(events[0].get("ip"), Some(&string("10.0.0.1")));
    assert_eq!(events[0].get("hostname"), Some(&string("a.b")));
}

#[test]
fn bytes_pass_through() {
    for data in [&b"a\xffb\n"[..], b"\x00\x01\x02\xff", b"text\r\n", b""] {
        let event = one(BytesCodec.feed(data));
        assert_eq!(BytesCodec.emit(&event).expect("encode"), data);
    }
    // A message of its own goes before the raw bytes.
    let mut event = one(BytesCodec.feed(b"\xff"));
    event.set_message("new");
    assert_eq!(BytesCodec.emit(&event).expect("encode"), b"new");
}

#[test]
fn csv_rows_under_a_target() {
    let mut codec = CsvCodec { target: Some("data".into()), ..Default::default() };
    let event = one(codec.feed(b"a,b"));
    assert_eq!(
        event.get("data"),
        Some(&object(vec![("column1", string("a")), ("column2", string("b"))]))
    );
    assert!(!event.has_field("column1"));
    assert_eq!(event.message(), Some("a,b"));
}

#[test]
fn csv_header_is_no_event() {
    let mut codec = CsvCodec { has_header: true, ..Default::default() };
    let event = one(codec.feed(b"name,age\nAlice,30\n"));
    assert_eq!(event.get("name"), Some(&string("Alice")));
    assert_eq!(event.get("age"), Some(&string("30")));
    assert_eq!(event.fields.len(), 3);
    assert_eq!(codec.feed(b"name,age\n").expect_err("header only"), "empty CSV data");
    codec.columns = vec!["n".into()];
    let event = one(codec.feed(b"name,age\nBob,5\n"));
    assert_eq!(event.get("n"), Some(&string("Bob")));
    assert_eq!(event.get("column2"), Some(&string("5")));
}

#[test]
fn graphite_writes_its_timestamp() {
    let mut event = Event::empty(NOW);
    event.set("metric", string("cpu"));
    event.set("value", float(0.5));
    assert_eq!(GraphiteCodec::default().emit(&event).expect("encode"), b"cpu 0.5 1775952000\n");
}

#[test]
fn avro_reads_stop_behind_the_length() {
    // A length of 5, and two bytes.
    let data = [0x0a, 1, 2];
    let mut at = 0;
    assert_eq!(AvroCodec::read_bytes(&data, &mut at), None);
    assert_eq!(at, 1);
    at = 0;
    assert_eq!(AvroCodec::read_string(&data, &mut at), None);
    assert_eq!(at, 1);
    at = 9;
    assert_eq!(AvroCodec::read_bytes(&data, &mut at), None);
    assert_eq!(at, 9);
    match AvroCodec::default().decode_ocf(b"Obj", NOW) {
        Err(CodecError::Codec(m)) => assert_eq!(m, "failed to read Avro header metadata"),
        other => panic!("expected an error, got {other:?}"),
    }
}

#[test]
fn private_keys_are_read_otherwise() {
    let mut inner = Event::empty(NOW);
    inner.set("x", object(vec![("$serde_json::private::RawValue", string("1"))]));
    inner.set("y", object(vec![("k", Json::Int(1)), ("$serde_json::private::RawValue", string("1"))]));
    let mut json = JsonCodec::default();
    let written = json.emit(&inner).expect("json");
    let read = one(json.feed(&written));
    assert_eq!(read.get("x"), Some(&Json::Int(1)));
    assert_eq!(read.get("y"), inner.get("y"));
}

#[test]
fn plain_lines_are_events() {
    let mut codec = PlainCodec::default();
    let messages = |events: Vec<Event>| -> Vec<String> {
        events.iter().map(|e| e.message().unwrap().to_string()).collect()
    };
    let events = codec.feed(b"first\r\nsecond\n\nlast \n\n").expect("decode");
    assert_eq!(messages(events), vec!["first", "second", "", "last "]);
    assert_eq!(messages(codec.feed(b"a\n\r").expect("decode")), vec!["a", ""]);
    assert_eq!(messages(codec.feed(b"").expect("decode")), vec![""]);
}

#[test]
fn cef_names_and_escapes() {
    assert_eq!(cef_key_full_name("src"), "sourceAddress");
    assert_eq!(cef_key_full_name("sourceAddress"), "sourceAddress");
    assert_eq!(cef_key_full_name("anything"), "anything");
    assert_ne!(cef_key_full_name("cs1"), cef_key_full_name("cs2"));
    let text = "a\\|b||\\\\";
    let escaped = text.replace('\\', "\\\\").replace('|', "\\|");
    assert_eq!(CefCodec::unescape_field(&escaped), text);
    assert_eq!(CefCodec::unescape_field("plain"), "plain");
}
