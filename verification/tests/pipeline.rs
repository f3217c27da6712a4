use collectd_plugin::config::{parse_block, parse_config, ConfigBlock, ConfigError, ConfigSetting};
use collectd_plugin::record::{build_lines, NamedValue, SampleBatch};
use collectd_plugin::router::{dispatch_batch, Router};
use collectd_plugin::sanitize::sanitize;
use collectd_plugin::sink::{FaultySink, MemSink, MetricSink, SinkWriter};
use collectd_plugin::cdtime::nanos_to_collectd;

#[test]
fn test_graphitize() {
    assert_eq!(sanitize("hello"), "hello");
    assert_eq!(sanitize("hello.maty"), "hello-maty");
    assert_eq!(sanitize("foo@bar.com"), "foo@bar-com");
    assert_eq!(sanitize("  test \n "), "--test---");
}

#[test]
fn sanitize_empty_is_empty() {
    assert_eq!(sanitize(""), "");
}

#[test]
fn sanitize_unicode_whitespace_and_controls() {
    assert_eq!(sanitize("a\u{A0}b"), "a-b");
    assert_eq!(sanitize("a\u{2003}b"), "a-b");
    assert_eq!(sanitize("a\u{7F}b"), "a-b");
    assert_eq!(sanitize("a\u{85}b"), "a-b");
    assert_eq!(sanitize("a\u{E9}b"), "a\u{E9}b");
}

fn batch(values: Vec<NamedValue>) -> SampleBatch {
    SampleBatch {
        host: "h".to_string(),
        plugin: "p".to_string(),
        plugin_instance: None,
        metric_type: "t".to_string(),
        type_instance: None,
        time: nanos_to_collectd(1_000_000_000),
        interval: nanos_to_collectd(10_000_000_000),
        values,
    }
}

fn value(name: &str, text: &str) -> NamedValue {
    NamedValue { name: name.to_string(), text: text.to_string() }
}

#[test]
fn single_value_line() {
    let b = batch(vec![value("ignored", "42")]);
    assert_eq!(build_lines(&b, &None), vec!["h.p.t 42 1\n".to_string()]);
    let lines = build_lines(&b, &Some("pre".to_string()));
    assert_eq!(lines, vec!["pre.h.p.t 42 1\n".to_string()]);
}

#[test]
fn two_named_values_get_suffixes() {
    let b = batch(vec![value("a", "1"), value("b", "2")]);
    let lines = build_lines(&b, &None);
    assert_eq!(lines, vec!["h.p.t.a 1 1\n".to_string(), "h.p.t.b 2 1\n".to_string()]);
}

#[test]
fn empty_batch_has_no_lines() {
    let b = batch(vec![]);
    assert!(build_lines(&b, &None).is_empty());
}

#[test]
fn instances_and_sanitizing_in_identifier() {
    let mut b = batch(vec![value("", "3.5")]);
    b.host = "my host".to_string();
    b.plugin_instance = Some("eth 0".to_string());
    b.type_instance = Some("rx.total".to_string());
    let lines = build_lines(&b, &None);
    assert_eq!(lines, vec!["my-host.p-eth-0.t-rx-total 3.5 1\n".to_string()]);
}

#[test]
fn reliable_sink_gets_every_line_in_order() {
    let b = batch(vec![value("a", "1"), value("b", "2"), value("c", "3")]);
    let mut r = Router::new(None, MemSink::new());
    r.write_values(&b);
    assert_eq!(
        r.writer.sink.lines,
        vec![
            "h.p.t.a 1 1\n".to_string(),
            "h.p.t.b 2 1\n".to_string(),
            "h.p.t.c 3 1\n".to_string(),
        ]
    );
}

#[test]
fn failing_sink_does_not_stop_other_sinks() {
    let b = batch(vec![value("a", "1"), value("b", "2")]);
    let mut routers = vec![
        Router::new(None, FaultySink::new(false)),
        Router::new(Some("ok".to_string()), FaultySink::new(true)),
    ];
    dispatch_batch(&mut routers, &b);
    assert!(routers[0].writer.sink.lines.is_empty());
    assert_eq!(
        routers[1].writer.sink.lines,
        vec!["ok.h.p.t.a 1 1\n".to_string(), "ok.h.p.t.b 2 1\n".to_string()]
    );
}

#[test]
fn writer_swallows_failures() {
    let mut w = SinkWriter::new(FaultySink::new(false));
    w.write_line("x 1 1\n");
    assert!(w.sink.lines.is_empty());
    let mut w = SinkWriter::new(MemSink::new());
    w.write_line("x 1 1\n");
    assert_eq!(w.sink.lines, vec!["x 1 1\n".to_string()]);
}

fn setting(key: &str, value: &str) -> ConfigSetting {
    ConfigSetting { key: key.to_string(), value: value.to_string() }
}

fn node(settings: Vec<ConfigSetting>) -> ConfigBlock {
    ConfigBlock { key: "Node".to_string(), settings }
}

#[test]
fn config_valid_node() {
    let b = node(vec![
        setting("Name", "localhost.1"),
        setting("Address", "127.0.0.1:20003"),
        setting("Prefix", "iamprefix"),
    ]);
    let c = parse_block(&b).unwrap();
    assert_eq!(c.name, "localhost.1");
    assert_eq!(c.address, "127.0.0.1:20003");
    assert_eq!(c.prefix, Some("iamprefix".to_string()));
}

#[test]
fn config_prefix_is_optional() {
    let b = node(vec![setting("Name", "n"), setting("Address", "a")]);
    let c = parse_block(&b).unwrap();
    assert_eq!(c.prefix, None);
}

#[test]
fn config_rejects_unknown_field() {
    let b = node(vec![setting("Name", "n"), setting("Address", "a"), setting("Port", "1")]);
    assert_eq!(parse_block(&b).unwrap_err(), ConfigError::UnknownField);
}

#[test]
fn config_rejects_unknown_block() {
    let b = ConfigBlock { key: "Sink".to_string(), settings: vec![] };
    assert_eq!(parse_block(&b).unwrap_err(), ConfigError::UnknownBlock);
}

#[test]
fn config_rejects_duplicates_and_missing() {
    let b = node(vec![setting("Name", "n"), setting("Name", "m"), setting("Address", "a")]);
    assert_eq!(parse_block(&b).unwrap_err(), ConfigError::DuplicateField);
    let b = node(vec![setting("Address", "a")]);
    assert_eq!(parse_block(&b).unwrap_err(), ConfigError::MissingName);
    let b = node(vec![setting("Name", "n")]);
    assert_eq!(parse_block(&b).unwrap_err(), ConfigError::MissingAddress);
}

#[test]
fn config_empty_is_valid() {
    let cs = parse_config(&vec![]).unwrap();
    assert!(cs.is_empty());
    let blocks = vec![
        node(vec![setting("Name", "n1"), setting("Address", "a1")]),
        node(vec![setting("Name", "n2"), setting("Address", "a2")]),
    ];
    let cs = parse_config(&blocks).unwrap();
    assert_eq!(cs.len(), 2);
    assert_eq!(cs[1].name, "n2");
}

#[test]
fn large_timestamp_renders_in_seconds() {
    let mut b = batch(vec![value("", "0")]);
    b.time = nanos_to_collectd(1439981652801860766);
    let lines = build_lines(&b, &None);
    assert_eq!(lines, vec!["h.p.t 0 1439981652\n".to_string()]);
}
