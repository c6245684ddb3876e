use statsd_sink::statsd::{
    encode_event, encode_tags, push_tag, Metric, MetricKind, MetricValue, StatisticKind,
};
use statsd_sink::tags::{StrSet, TagMap};

fn tags() -> TagMap {
    let mut t = TagMap::new();
    t.insert("normal_tag".to_owned(), "value".to_owned());
    t.insert("true_tag".to_owned(), "true".to_owned());
    t.insert("empty_tag".to_owned(), "".to_owned());
    t
}

/// A decoder compatible with the encoder, for single-value metrics: it
/// inverts `name:value|type[|@rate][|#tags]`.
fn parse(line: &str) -> Result<Metric, String> {
    let mut parts = line.split('|');
    let first = parts.next().ok_or("empty line")?;
    let colon = first.find(':').ok_or("missing value separator")?;
    let name = first[..colon].to_owned();
    let first_value = &first[colon + 1..];
    let ty = parts.next().ok_or("missing type")?;
    let mut sample_rate: Option<u32> = None;
    let mut tag_map: Option<TagMap> = None;
    for seg in parts {
        if let Some(rate) = seg.strip_prefix('@') {
            let x: f64 = rate.parse().map_err(|_| "bad sample rate")?;
            sample_rate = Some((1.0 / x).round() as u32);
        } else if let Some(t) = seg.strip_prefix('#') {
            tag_map = Some(parse_tags(t));
        } else {
            return Err(format!("unexpected segment {:?}", seg));
        }
    }
    let (kind, value) = match ty {
        "c" => (
            MetricKind::Incremental,
            MetricValue::Counter { value: first_value.to_owned() },
        ),
        "g" => {
            if let Some(rest) = first_value.strip_prefix('+') {
                (MetricKind::Incremental, MetricValue::Gauge { value: rest.to_owned() })
            } else if first_value.starts_with('-') {
                (MetricKind::Incremental, MetricValue::Gauge { value: first_value.to_owned() })
            } else {
                (MetricKind::Absolute, MetricValue::Gauge { value: first_value.to_owned() })
            }
        }
        "h" | "d" => (
            MetricKind::Incremental,
            MetricValue::Distribution {
                values: vec![first_value.to_owned()],
                sample_rates: vec![sample_rate.unwrap_or(1)],
                statistic: if ty == "h" {
                    StatisticKind::Histogram
                } else {
                    StatisticKind::Summary
                },
            },
        ),
        "s" => {
            let mut values = StrSet::new();
            values.insert(first_value.to_owned());
            (MetricKind::Incremental, MetricValue::SetValue { values })
        }
        other => return Err(format!("unknown type {:?}", other)),
    };
    Ok(Metric { name, tags: tag_map, kind, value })
}

fn parse_tags(s: &str) -> TagMap {
    let mut t = TagMap::new();
    for item in s.split(',') {
        match item.split_once(':') {
            Some((k, v)) => t.insert(k.to_owned(), v.to_owned()),
            None => t.insert(item.to_owned(), "true".to_owned()),
        }
    }
    t
}

#[test]
fn test_encode_tags() {
    assert_eq!(
        encode_tags(&tags()).as_str(),
        "empty_tag:,normal_tag:value,true_tag"
    );
}

#[test]
fn test_encode_counter() {
    let metric1 = Metric {
        name: "counter".to_owned(),
        tags: Some(tags()),
        kind: MetricKind::Incremental,
        value: MetricValue::Counter { value: "1.5".to_owned() },
    };
    let frame = encode_event(metric1.clone(), "");
    let metric2 = parse(std::str::from_utf8(&frame).unwrap().trim()).unwrap();
    assert_eq!(metric1, metric2);
}

#[test]
fn test_encode_gauge() {
    let metric1 = Metric {
        name: "gauge".to_owned(),
        tags: Some(tags()),
        kind: MetricKind::Incremental,
        value: MetricValue::Gauge { value: "-1.5".to_owned() },
    };
    let frame = encode_event(metric1.clone(), "");
    let metric2 = parse(std::str::from_utf8(&frame).unwrap().trim()).unwrap();
    assert_eq!(metric1, metric2);
}

#[test]
fn test_encode_distribution() {
    let metric1 = Metric {
        name: "distribution".to_owned(),
        tags: Some(tags()),
        kind: MetricKind::Incremental,
        value: MetricValue::Distribution {
            values: vec!["1.5".to_owned()],
            sample_rates: vec![1],
            statistic: StatisticKind::Histogram,
        },
    };
    let frame = encode_event(metric1.clone(), "");
    let metric2 = parse(std::str::from_utf8(&frame).unwrap().trim()).unwrap();
    assert_eq!(metric1, metric2);
}

#[test]
fn test_encode_set() {
    let mut values = StrSet::new();
    values.insert("abc".to_owned());
    let metric1 = Metric {
        name: "set".to_owned(),
        tags: Some(tags()),
        kind: MetricKind::Incremental,
        value: MetricValue::SetValue { values },
    };
    let frame = encode_event(metric1.clone(), "");
    let metric2 = parse(std::str::from_utf8(&frame).unwrap().trim()).unwrap();
    assert_eq!(metric1, metric2);
}

#[test]
fn incremental_gauge_is_signed() {
    let metric = Metric {
        name: "gauge".to_owned(),
        tags: None,
        kind: MetricKind::Incremental,
        value: MetricValue::Gauge { value: "1.5".to_owned() },
    };
    assert_eq!(encode_event(metric, ""), b"gauge:+1.5|g\n".to_vec());
}

#[test]
fn absolute_gauge_is_unsigned() {
    let metric = Metric {
        name: "gauge".to_owned(),
        tags: None,
        kind: MetricKind::Absolute,
        value: MetricValue::Gauge { value: "1.5".to_owned() },
    };
    assert_eq!(encode_event(metric, ""), b"gauge:1.5|g\n".to_vec());
}

#[test]
fn absolute_counter_produces_no_output() {
    let metric = Metric {
        name: "counter".to_owned(),
        tags: None,
        kind: MetricKind::Absolute,
        value: MetricValue::Counter { value: "1.5".to_owned() },
    };
    assert_eq!(encode_event(metric, ""), Vec::<u8>::new());
}

#[test]
fn namespace_prefixes_message() {
    let metric = Metric {
        name: "counter".to_owned(),
        tags: None,
        kind: MetricKind::Incremental,
        value: MetricValue::Counter { value: "2".to_owned() },
    };
    assert_eq!(encode_event(metric, "ns"), b"ns.counter:2|c\n".to_vec());
}

#[test]
fn sample_rate_renders_reciprocal() {
    let metric = Metric {
        name: "dist".to_owned(),
        tags: None,
        kind: MetricKind::Incremental,
        value: MetricValue::Distribution {
            values: vec!["1".to_owned(), "2".to_owned()],
            sample_rates: vec![2, 4],
            statistic: StatisticKind::Summary,
        },
    };
    assert_eq!(
        encode_event(metric, ""),
        b"dist:1|d|@0.5|dist:2|d|@0.25\n".to_vec()
    );
}

#[test]
fn sample_rate_zero_is_treated_as_one() {
    let metric = Metric {
        name: "dist".to_owned(),
        tags: None,
        kind: MetricKind::Incremental,
        value: MetricValue::Distribution {
            values: vec!["1".to_owned()],
            sample_rates: vec![0],
            statistic: StatisticKind::Histogram,
        },
    };
    assert_eq!(encode_event(metric, ""), b"dist:1|h\n".to_vec());
}

#[test]
fn push_tag_renders_true_as_bare_name() {
    let mut s = String::new();
    push_tag(&mut s, "flag", "true");
    assert_eq!(s.as_str(), "flag");
    let mut s2 = String::new();
    push_tag(&mut s2, "key", "v");
    assert_eq!(s2.as_str(), "key:v");
}

#[test]
fn tag_insert_replaces_and_sorts() {
    let mut t = TagMap::new();
    t.insert("b".to_owned(), "1".to_owned());
    t.insert("a".to_owned(), "2".to_owned());
    t.insert("b".to_owned(), "3".to_owned());
    assert_eq!(encode_tags(&t).as_str(), "a:2,b:3");
}

#[test]
fn zero_tags_omit_the_tag_segment() {
    let metric = Metric {
        name: "counter".to_owned(),
        tags: Some(TagMap::new()),
        kind: MetricKind::Incremental,
        value: MetricValue::Counter { value: "1".to_owned() },
    };
    assert_eq!(encode_event(metric, ""), b"counter:1|c\n".to_vec());
}
