use config_bridge::intake::from_param;
use config_bridge::value::ConfigValue;
use configtpl::types::config_param::ConfigParam;
use std::collections::HashMap;

fn text(s: &str) -> String {
    String::from(s)
}

#[test]
fn takes_over_each_leaf() {
    assert_eq!(from_param(&ConfigParam::Boolean(true)), ConfigValue::Boolean(true));
    assert_eq!(from_param(&ConfigParam::Int(-5)), ConfigValue::Integer(-5));
    assert_eq!(from_param(&ConfigParam::String(text("x"))), ConfigValue::Text(text("x")));
    assert_eq!(from_param(&ConfigParam::Null), ConfigValue::Null);
}

#[test]
fn takes_over_a_float_by_its_bits() {
    assert_eq!(from_param(&ConfigParam::Float(1.5)), ConfigValue::Float(0x3FF8_0000_0000_0000));
    assert_eq!(from_param(&ConfigParam::Float(0.0)), ConfigValue::Float(0));
    assert_eq!(
        from_param(&ConfigParam::Float(-0.0)),
        ConfigValue::Float(0x8000_0000_0000_0000)
    );
    assert_eq!(
        from_param(&ConfigParam::Float(f64::INFINITY)),
        ConfigValue::Float(0x7FF0_0000_0000_0000)
    );
    let nan = f64::from_bits(0x7FF8_0000_0000_0042);
    assert_eq!(from_param(&ConfigParam::Float(nan)), ConfigValue::Float(0x7FF8_0000_0000_0042));
}

#[test]
fn takes_over_a_sequence_in_order() {
    let param = ConfigParam::Vec(vec![
        ConfigParam::Int(1),
        ConfigParam::Null,
        ConfigParam::Vec(vec![ConfigParam::Boolean(false)]),
    ]);
    assert_eq!(
        from_param(&param),
        ConfigValue::Sequence(vec![
            ConfigValue::Integer(1),
            ConfigValue::Null,
            ConfigValue::Sequence(vec![ConfigValue::Boolean(false)]),
        ])
    );
}

#[test]
fn takes_over_every_entry_of_a_map_once() {
    let mut map = HashMap::new();
    for i in 0..20 {
        map.insert(format!("key{}", i), ConfigParam::Int(i));
    }
    match from_param(&ConfigParam::HashMap(map)) {
        ConfigValue::Mapping(mut entries) => {
            assert_eq!(entries.len(), 20);
            entries.sort_by_key(|e| match e.1 {
                ConfigValue::Integer(i) => i,
                _ => -1,
            });
            for (i, e) in entries.iter().enumerate() {
                assert_eq!(e.0, format!("key{}", i));
                assert_eq!(e.1, ConfigValue::Integer(i as i64));
            }
        }
        other => panic!("not a mapping: {:?}", other),
    }
}

#[test]
fn takes_over_an_empty_map_and_an_empty_vec() {
    assert_eq!(from_param(&ConfigParam::HashMap(HashMap::new())), ConfigValue::Mapping(vec![]));
    assert_eq!(from_param(&ConfigParam::Vec(vec![])), ConfigValue::Sequence(vec![]));
}

#[test]
fn takes_over_nested_maps() {
    let mut inner = HashMap::new();
    inner.insert(text("port"), ConfigParam::Int(8080));
    let mut outer = HashMap::new();
    outer.insert(text("server"), ConfigParam::HashMap(inner));
    assert_eq!(
        from_param(&ConfigParam::HashMap(outer)),
        ConfigValue::Mapping(vec![(
            text("server"),
            ConfigValue::Mapping(vec![(text("port"), ConfigValue::Integer(8080))])
        )])
    );
}
