use config_bridge::host::{HostKind, HostValue};
use config_bridge::marshal::{decode, encode};
use config_bridge::value::ConfigValue;

fn text(s: &str) -> String {
    String::from(s)
}

fn sample_tree() -> ConfigValue {
    ConfigValue::Mapping(vec![
        (text("debug"), ConfigValue::Boolean(false)),
        (text("retries"), ConfigValue::Integer(3)),
        (text("ratio"), ConfigValue::Float(0x3FF8_0000_0000_0000)),
        (text("name"), ConfigValue::Text(text("caf\u{e9}"))),
        (text("nothing"), ConfigValue::Null),
        (
            text("hosts"),
            ConfigValue::Sequence(vec![
                ConfigValue::Text(text("a")),
                ConfigValue::Sequence(vec![ConfigValue::Null, ConfigValue::Integer(-1)]),
                ConfigValue::Mapping(vec![(text("inner"), ConfigValue::Null)]),
            ]),
        ),
    ])
}

fn sample_host() -> HostValue {
    HostValue::Dict(vec![
        (text("debug"), HostValue::Bool(false)),
        (text("retries"), HostValue::Int(3)),
        (text("ratio"), HostValue::Float(0x3FF8_0000_0000_0000)),
        (text("name"), HostValue::Str(text("caf\u{e9}"))),
        (text("nothing"), HostValue::Absent),
        (
            text("hosts"),
            HostValue::List(vec![
                HostValue::Str(text("a")),
                HostValue::List(vec![HostValue::Absent, HostValue::Int(-1)]),
                HostValue::Dict(vec![(text("inner"), HostValue::Absent)]),
            ]),
        ),
    ])
}

#[test]
fn encodes_each_leaf_as_its_host_kind() {
    assert_eq!(encode(&ConfigValue::Boolean(true)), HostValue::Bool(true));
    assert_eq!(encode(&ConfigValue::Boolean(false)), HostValue::Bool(false));
    assert_eq!(encode(&ConfigValue::Integer(42)), HostValue::Int(42));
    assert_eq!(encode(&ConfigValue::Float(7)), HostValue::Float(7));
    assert_eq!(encode(&ConfigValue::Text(text("hi"))), HostValue::Str(text("hi")));
    assert_eq!(encode(&ConfigValue::Null), HostValue::Absent);
}

#[test]
fn encodes_empty_containers() {
    assert_eq!(encode(&ConfigValue::Sequence(vec![])), HostValue::List(vec![]));
    assert_eq!(encode(&ConfigValue::Mapping(vec![])), HostValue::Dict(vec![]));
}

#[test]
fn encodes_a_nested_tree_node_for_node() {
    assert_eq!(encode(&sample_tree()), sample_host());
}

#[test]
fn decodes_a_nested_tree_node_for_node() {
    assert_eq!(decode(&sample_host()), sample_tree());
}

#[test]
fn decode_inverts_encode() {
    let tree = sample_tree();
    assert_eq!(decode(&encode(&tree)), tree);
    let host = sample_host();
    assert_eq!(encode(&decode(&host)), host);
}

#[test]
fn integers_keep_the_full_64_bit_range() {
    assert_eq!(encode(&ConfigValue::Integer(i64::MAX)), HostValue::Int(i64::MAX));
    assert_eq!(encode(&ConfigValue::Integer(i64::MIN)), HostValue::Int(i64::MIN));
    assert_eq!(decode(&HostValue::Int(i64::MIN)), ConfigValue::Integer(i64::MIN));
}

#[test]
fn floats_keep_their_bit_pattern() {
    let patterns = [
        f64::NAN.to_bits(),
        0x7FF8_0000_0000_0001,
        0xFFF0_0000_0000_0000,
        f64::INFINITY.to_bits(),
        (-0.0f64).to_bits(),
        0.0f64.to_bits(),
        1.5f64.to_bits(),
        f64::MIN_POSITIVE.to_bits(),
    ];
    for bits in patterns {
        assert_eq!(encode(&ConfigValue::Float(bits)), HostValue::Float(bits));
        assert_eq!(decode(&HostValue::Float(bits)), ConfigValue::Float(bits));
    }
}

#[test]
fn text_is_kept_byte_for_byte() {
    let s = "tab\there \u{1F600} \u{0} end";
    let encoded = encode(&ConfigValue::Text(text(s)));
    match encoded {
        HostValue::Str(out) => assert_eq!(out.as_bytes(), s.as_bytes()),
        other => panic!("not a string: {:?}", other),
    }
}

#[test]
fn sequence_order_and_length_are_kept() {
    let items: Vec<ConfigValue> = (0..100).map(ConfigValue::Integer).collect();
    match encode(&ConfigValue::Sequence(items)) {
        HostValue::List(list) => {
            assert_eq!(list.len(), 100);
            for (i, item) in list.iter().enumerate() {
                assert_eq!(*item, HostValue::Int(i as i64));
            }
        }
        other => panic!("not a list: {:?}", other),
    }
}

#[test]
fn mapping_entries_keep_their_keys_and_order() {
    let mapping = ConfigValue::Mapping(vec![
        (text("z"), ConfigValue::Integer(1)),
        (text("a"), ConfigValue::Integer(2)),
        (text(""), ConfigValue::Integer(3)),
    ]);
    assert_eq!(
        encode(&mapping),
        HostValue::Dict(vec![
            (text("z"), HostValue::Int(1)),
            (text("a"), HostValue::Int(2)),
            (text(""), HostValue::Int(3)),
        ])
    );
}

#[test]
fn boolean_true_and_integer_one_are_told_apart() {
    let boolean = encode(&ConfigValue::Boolean(true));
    let integer = encode(&ConfigValue::Integer(1));
    assert_eq!(boolean.kind(), HostKind::Bool);
    assert_eq!(integer.kind(), HostKind::Int);
    assert_ne!(boolean.kind(), integer.kind());
    assert_ne!(boolean, integer);
    assert_ne!(encode(&ConfigValue::Boolean(false)), encode(&ConfigValue::Integer(0)));
}

#[test]
fn null_is_the_absent_sentinel_at_every_depth() {
    let mut tree = ConfigValue::Null;
    assert_eq!(encode(&tree), HostValue::Absent);
    for depth in 0..50 {
        tree = if depth % 2 == 0 {
            ConfigValue::Sequence(vec![tree])
        } else {
            ConfigValue::Mapping(vec![(text("k"), tree)])
        };
    }
    let mut host = encode(&tree);
    for _ in 0..50 {
        host = match host {
            HostValue::List(mut items) => {
                assert_eq!(items.len(), 1);
                items.remove(0)
            }
            HostValue::Dict(mut entries) => {
                assert_eq!(entries.len(), 1);
                entries.remove(0).1
            }
            other => panic!("not a container: {:?}", other),
        };
    }
    assert_eq!(host, HostValue::Absent);
    assert_eq!(host.kind(), HostKind::Absent);
}

#[test]
fn every_host_kind_is_reported() {
    assert_eq!(HostValue::Float(0).kind(), HostKind::Float);
    assert_eq!(HostValue::Str(text("")).kind(), HostKind::Str);
    assert_eq!(HostValue::List(vec![]).kind(), HostKind::List);
    assert_eq!(HostValue::Dict(vec![]).kind(), HostKind::Dict);
}
