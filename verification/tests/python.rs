use config_bridge::host::HostValue;
use config_bridge::marshal::encode;
use config_bridge::error::BridgeError;
use config_bridge::python::to_python;
use config_bridge::registry::Registry;
use config_bridge::render::{deliver, plan, present};
use config_bridge::value::ConfigValue;
use pyo3::types::{
    PyAny, PyAnyMethods, PyBool, PyDict, PyDictMethods, PyFloat, PyFloatMethods, PyInt, PyList,
    PyListMethods, PyString,
};
use pyo3::{Bound, Python};

fn text(s: &str) -> String {
    String::from(s)
}

fn render_object<'py>(
    py: Python<'py>,
    registry: &Registry,
    handle: usize,
    paths: Vec<String>,
) -> Result<Bound<'py, PyAny>, BridgeError> {
    let (engine, args) = plan(registry, handle, paths)?;
    let host = present(engine.build(&args))?;
    let float_object = |bits: u64| PyFloat::new(py, f64::from_bits(bits)).into_any();
    to_python(py, &host, &float_object)
}

fn build<'py>(py: Python<'py>, value: &HostValue) -> Bound<'py, PyAny> {
    let float_object = |bits: u64| PyFloat::new(py, f64::from_bits(bits)).into_any();
    to_python(py, value, &float_object).unwrap()
}

#[test]
fn python_boolean_is_a_bool_and_not_a_plain_int() {
    Python::initialize();
    Python::attach(|py| {
        let boolean = build(py, &encode(&ConfigValue::Boolean(true)));
        let integer = build(py, &encode(&ConfigValue::Integer(1)));
        assert!(boolean.is_exact_instance_of::<PyBool>());
        assert!(!integer.is_instance_of::<PyBool>());
        assert!(integer.is_exact_instance_of::<PyInt>());
        assert!(!boolean.get_type().is(&integer.get_type()));
        assert!(boolean.is(&PyBool::new(py, true)));
        let falsy = build(py, &HostValue::Bool(false));
        assert!(falsy.is(&PyBool::new(py, false)));
    });
}

#[test]
fn python_integer_keeps_the_full_range() {
    Python::initialize();
    Python::attach(|py| {
        for i in [0i64, 3, -1, i64::MAX, i64::MIN] {
            let object = build(py, &HostValue::Int(i));
            assert!(object.is_exact_instance_of::<PyInt>());
            assert_eq!(object.extract::<i64>().unwrap(), i);
        }
    });
}

#[test]
fn python_float_keeps_the_bit_pattern() {
    Python::initialize();
    Python::attach(|py| {
        for bits in [
            1.5f64.to_bits(),
            (-0.0f64).to_bits(),
            f64::INFINITY.to_bits(),
            f64::NEG_INFINITY.to_bits(),
            f64::NAN.to_bits(),
            0x7FF8_0000_0000_0042,
            0xFFF8_0000_0000_0001,
        ] {
            let object = build(py, &HostValue::Float(bits));
            assert!(object.is_exact_instance_of::<PyFloat>());
            let float = object.cast::<PyFloat>().unwrap();
            assert_eq!(float.value().to_bits(), bits);
        }
    });
}

#[test]
fn python_string_keeps_the_text() {
    Python::initialize();
    Python::attach(|py| {
        let s = "caf\u{e9} \u{1F600}";
        let object = build(py, &HostValue::Str(text(s)));
        assert!(object.is_exact_instance_of::<PyString>());
        assert_eq!(object.extract::<String>().unwrap(), s);
    });
}

#[test]
fn python_null_is_none_at_every_depth() {
    Python::initialize();
    Python::attach(|py| {
        assert!(build(py, &encode(&ConfigValue::Null)).is_none());
        let nested = ConfigValue::Sequence(vec![ConfigValue::Mapping(vec![(
            text("k"),
            ConfigValue::Sequence(vec![ConfigValue::Null]),
        )])]);
        let object = build(py, &encode(&nested));
        let outer = object.cast::<PyList>().unwrap();
        let dict = outer.get_item(0).unwrap();
        let inner = dict.cast::<PyDict>().unwrap().get_item("k").unwrap().unwrap();
        let leaf = inner.cast::<PyList>().unwrap().get_item(0).unwrap();
        assert!(leaf.is_none());
        assert!(leaf.is(&py.None()));
    });
}

#[test]
fn python_list_keeps_order_and_length() {
    Python::initialize();
    Python::attach(|py| {
        let items: Vec<HostValue> = (0..10).map(HostValue::Int).collect();
        let object = build(py, &HostValue::List(items));
        let list = object.cast::<PyList>().unwrap();
        assert_eq!(list.len(), 10);
        for i in 0..10 {
            assert_eq!(list.get_item(i).unwrap().extract::<i64>().unwrap(), i as i64);
        }
        let empty = build(py, &HostValue::List(vec![]));
        assert_eq!(empty.cast::<PyList>().unwrap().len(), 0);
    });
}

#[test]
fn python_dict_for_a_resolved_mapping() {
    Python::initialize();
    Python::attach(|py| {
        let outcome = Ok(ConfigValue::Mapping(vec![
            (text("debug"), ConfigValue::Boolean(false)),
            (text("retries"), ConfigValue::Integer(3)),
        ]));
        let host = deliver(outcome).unwrap();
        let object = build(py, &host);
        let dict = object.cast::<PyDict>().unwrap();
        assert_eq!(dict.len(), 2);
        let debug = dict.get_item("debug").unwrap().unwrap();
        assert!(debug.is_exact_instance_of::<PyBool>());
        assert!(debug.is(&PyBool::new(py, false)));
        let retries = dict.get_item("retries").unwrap().unwrap();
        assert!(retries.is_exact_instance_of::<PyInt>());
        assert_eq!(retries.extract::<i64>().unwrap(), 3);
    });
}

#[test]
fn python_dict_for_a_render_without_paths() {
    Python::initialize();
    Python::attach(|py| {
        let mut registry = Registry::new();
        let handle = registry.create();
        let object = render_object(py, &registry, handle, vec![]).unwrap();
        let dict = object.cast::<PyDict>().unwrap();
        assert_eq!(dict.len(), 0);
    });
}

#[test]
fn python_objects_mirror_a_nested_tree() {
    Python::initialize();
    Python::attach(|py| {
        let tree = ConfigValue::Mapping(vec![
            (
                text("hosts"),
                ConfigValue::Sequence(vec![
                    ConfigValue::Text(text("a")),
                    ConfigValue::Text(text("b")),
                ]),
            ),
            (text("limit"), ConfigValue::Float(2.5f64.to_bits())),
        ]);
        let object = build(py, &encode(&tree));
        let dict = object.cast::<PyDict>().unwrap();
        assert_eq!(dict.len(), 2);
        let hosts = dict.get_item("hosts").unwrap().unwrap();
        let hosts = hosts.cast::<PyList>().unwrap();
        assert_eq!(hosts.len(), 2);
        assert_eq!(hosts.get_item(0).unwrap().extract::<String>().unwrap(), "a");
        assert_eq!(hosts.get_item(1).unwrap().extract::<String>().unwrap(), "b");
        let limit = dict.get_item("limit").unwrap().unwrap();
        assert_eq!(limit.extract::<f64>().unwrap(), 2.5);
    });
}

#[test]
fn render_object_without_paths_is_the_empty_dict() {
    Python::initialize();
    Python::attach(|py| {
        let mut registry = Registry::new();
        let handle = registry.create();
        let object = render_object(py, &registry, handle, vec![]).unwrap();
        assert!(object.is_exact_instance_of::<PyDict>());
        assert_eq!(object.cast::<PyDict>().unwrap().len(), 0);
    });
}

#[test]
fn render_object_with_an_unknown_handle_is_refused() {
    Python::initialize();
    Python::attach(|py| {
        let mut registry = Registry::new();
        registry.create();
        let reply = render_object(py, &registry, 7, vec![text("a.yaml")]);
        match reply {
            Err(error) => {
                assert_eq!(error, BridgeError::InvalidHandle(7));
                assert_eq!(error.message(), "Invalid builder handle: 7");
            }
            Ok(object) => panic!("not refused: {:?}", object),
        }
    });
}

#[test]
fn render_object_passes_a_build_failure_on() {
    Python::initialize();
    Python::attach(|py| {
        let mut registry = Registry::new();
        let handle = registry.create();
        let missing = "/nonexistent-directory-for-config-bridge/base.yaml";
        match render_object(py, &registry, handle, vec![text(missing)]) {
            Err(BridgeError::BuildFailure(words)) => assert!(words.contains(missing)),
            other => panic!("not a build failure: {:?}", other),
        }
    });
}

#[test]
fn python_dict_with_a_repeated_key_keeps_the_last_value() {
    Python::initialize();
    Python::attach(|py| {
        let host = HostValue::Dict(vec![
            (text("a"), HostValue::Int(1)),
            (text("b"), HostValue::Int(2)),
            (text("a"), HostValue::Int(3)),
        ]);
        let object = build(py, &host);
        let dict = object.cast::<PyDict>().unwrap();
        assert_eq!(dict.len(), 2);
        assert_eq!(dict.get_item("a").unwrap().unwrap().extract::<i64>().unwrap(), 3);
        let keys: Vec<String> = dict.keys().extract().unwrap();
        assert_eq!(keys, vec![text("a"), text("b")]);
    });
}

#[test]
fn python_dict_keeps_insertion_order() {
    Python::initialize();
    Python::attach(|py| {
        let host = HostValue::Dict(vec![
            (text("z"), HostValue::Int(1)),
            (text("a"), HostValue::Int(2)),
            (text("m"), HostValue::Int(3)),
        ]);
        let object = build(py, &host);
        let keys: Vec<String> = object.cast::<PyDict>().unwrap().keys().extract().unwrap();
        assert_eq!(keys, vec![text("z"), text("a"), text("m")]);
    });
}

#[test]
fn python_object_without_floats_needs_no_float_constructor() {
    Python::initialize();
    Python::attach(|py| {
        let never_a_float = |_bits: u64| py.None().into_bound(py);
        let host = HostValue::List(vec![HostValue::Bool(true), HostValue::Int(2)]);
        let object = to_python(py, &host, &never_a_float).unwrap();
        let list = object.cast::<PyList>().unwrap();
        assert!(list.get_item(0).unwrap().is(&PyBool::new(py, true)));
        assert_eq!(list.get_item(1).unwrap().extract::<i64>().unwrap(), 2);
    });
}
