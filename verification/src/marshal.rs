//! Conversion between configuration values and host values.

use crate::host::{HostKind, HostModel, HostValue};
use crate::value::{entry_keys, ConfigValue, ValueModel};
use vstd::prelude::*;

verus! {

/// The host value that stands for a configuration value: same shape, each
/// leaf of the matching host kind with the same payload, sequence items and
/// mapping entries in the same order.
pub open spec fn to_host(value: ValueModel) -> HostModel
    decreases value,
{
    match value {
        ValueModel::Boolean(b) => HostModel::Bool(b),
        ValueModel::Integer(i) => HostModel::Int(i),
        ValueModel::Float(bits) => HostModel::Float(bits),
        ValueModel::Text(s) => HostModel::Str(s),
        ValueModel::Null => HostModel::Absent,
        ValueModel::Sequence(items) => HostModel::List(
            Seq::new(
                items.len(),
                |i: int|
                    if 0 <= i < items.len() {
                        to_host(items[i])
                    } else {
                        arbitrary()
                    },
            ),
        ),
        ValueModel::Mapping(entries) => HostModel::Dict(
            Seq::new(
                entries.len(),
                |i: int|
                    if 0 <= i < entries.len() {
                        (entries[i].0, to_host(entries[i].1))
                    } else {
                        arbitrary()
                    },
            ),
        ),
    }
}

/// The configuration value that a host value stands for.
pub open spec fn from_host(host: HostModel) -> ValueModel
    decreases host,
{
    match host {
        HostModel::Bool(b) => ValueModel::Boolean(b),
        HostModel::Int(i) => ValueModel::Integer(i),
        HostModel::Float(bits) => ValueModel::Float(bits),
        HostModel::Str(s) => ValueModel::Text(s),
        HostModel::Absent => ValueModel::Null,
        HostModel::List(items) => ValueModel::Sequence(
            Seq::new(
                items.len(),
                |i: int|
                    if 0 <= i < items.len() {
                        from_host(items[i])
                    } else {
                        arbitrary()
                    },
            ),
        ),
        HostModel::Dict(entries) => ValueModel::Mapping(
            Seq::new(
                entries.len(),
                |i: int|
                    if 0 <= i < entries.len() {
                        (entries[i].0, from_host(entries[i].1))
                    } else {
                        arbitrary()
                    },
            ),
        ),
    }
}

/// Encodes a configuration value as a host value: one depth-first walk, no
/// failure.
pub fn encode(value: &ConfigValue) -> (host: HostValue)
    ensures
        host@ == to_host(value@),
        host@.keys_unique() == value@.keys_unique(),
    decreases value,
{
    let host = match value {
        ConfigValue::Boolean(b) => HostValue::Bool(*b),
        ConfigValue::Integer(i) => HostValue::Int(*i),
        ConfigValue::Float(bits) => HostValue::Float(*bits),
        ConfigValue::Text(s) => HostValue::Str(s.clone()),
        ConfigValue::Null => HostValue::Absent,
        ConfigValue::Sequence(items) => {
            let mut list: Vec<HostValue> = Vec::new();
            let mut i: usize = 0;
            while i < items.len()
                invariant
                    i <= items.len(),
                    value is Sequence,
                    value->Sequence_0 == *items,
                    list@.len() == i,
                    forall|k: int| 0 <= k < i ==> (#[trigger] list@[k])@ == to_host(items@[k]@),
                decreases items.len() - i,
            {
                proof {
                    assert(decreases_to!(*value => value->Sequence_0));
                    assert(decreases_to!(*items => items[i as int]));
                }
                let item = encode(&items[i]);
                list.push(item);
                i = i + 1;
            }
            let host = HostValue::List(list);
            proof {
                assert(host@->List_0 =~= to_host(value@)->List_0);
            }
            host
        },
        ConfigValue::Mapping(entries) => {
            let mut dict: Vec<(String, HostValue)> = Vec::new();
            let mut i: usize = 0;
            while i < entries.len()
                invariant
                    i <= entries.len(),
                    value is Mapping,
                    value->Mapping_0 == *entries,
                    dict@.len() == i,
                    forall|k: int|
                        0 <= k < i ==> (#[trigger] dict@[k]).0@ == entries@[k].0@ && dict@[k].1@
                            == to_host(entries@[k].1@),
                decreases entries.len() - i,
            {
                proof {
                    assert(decreases_to!(*value => value->Mapping_0));
                    assert(decreases_to!(*entries => entries[i as int]));
                    assert(decreases_to!(entries[i as int] => entries[i as int].1));
                }
                let entry = &entries[i];
                let item = encode(&entry.1);
                dict.push((entry.0.clone(), item));
                i = i + 1;
            }
            let host = HostValue::Dict(dict);
            proof {
                assert(host@->Dict_0 =~= to_host(value@)->Dict_0);
            }
            host
        },
    };
    proof {
        lemma_encoding_keeps_keys(value@);
    }
    host
}


/// Decodes a host value into the configuration value that it stands for.
pub fn decode(host: &HostValue) -> (value: ConfigValue)
    ensures
        value@ == from_host(host@),
        value@.keys_unique() == host@.keys_unique(),
    decreases host,
{
    let value = match host {
        HostValue::Bool(b) => ConfigValue::Boolean(*b),
        HostValue::Int(i) => ConfigValue::Integer(*i),
        HostValue::Float(bits) => ConfigValue::Float(*bits),
        HostValue::Str(s) => ConfigValue::Text(s.clone()),
        HostValue::Absent => ConfigValue::Null,
        HostValue::List(items) => {
            let mut sequence: Vec<ConfigValue> = Vec::new();
            let mut i: usize = 0;
            while i < items.len()
                invariant
                    i <= items.len(),
                    host is List,
                    host->List_0 == *items,
                    sequence@.len() == i,
                    forall|k: int|
                        0 <= k < i ==> (#[trigger] sequence@[k])@ == from_host(items@[k]@),
                decreases items.len() - i,
            {
                proof {
                    assert(decreases_to!(*host => host->List_0));
                    assert(decreases_to!(*items => items[i as int]));
                }
                let item = decode(&items[i]);
                sequence.push(item);
                i = i + 1;
            }
            let value = ConfigValue::Sequence(sequence);
            proof {
                assert(value@->Sequence_0 =~= from_host(host@)->Sequence_0);
            }
            value
        },
        HostValue::Dict(entries) => {
            let mut mapping: Vec<(String, ConfigValue)> = Vec::new();
            let mut i: usize = 0;
            while i < entries.len()
                invariant
                    i <= entries.len(),
                    host is Dict,
                    host->Dict_0 == *entries,
                    mapping@.len() == i,
                    forall|k: int|
                        0 <= k < i ==> (#[trigger] mapping@[k]).0@ == entries@[k].0@
                            && mapping@[k].1@ == from_host(entries@[k].1@),
                decreases entries.len() - i,
            {
                proof {
                    assert(decreases_to!(*host => host->Dict_0));
                    assert(decreases_to!(*entries => entries[i as int]));
                    assert(decreases_to!(entries[i as int] => entries[i as int].1));
                }
                let entry = &entries[i];
                let item = decode(&entry.1);
                mapping.push((entry.0.clone(), item));
                i = i + 1;
            }
            let value = ConfigValue::Mapping(mapping);
            proof {
                assert(value@->Mapping_0 =~= from_host(host@)->Mapping_0);
            }
            value
        },
    };
    proof {
        lemma_encode_inverts_decode(host@);
        lemma_encoding_keeps_keys(value@);
    }
    value
}

/// Encoding loses nothing: decoding the encoding of a value gives the value
/// back, node for node.
pub proof fn lemma_decode_inverts_encode(value: ValueModel)
    ensures
        from_host(to_host(value)) == value,
    decreases value,
{
    match value {
        ValueModel::Sequence(items) => {
            assert forall|i: int| 0 <= i < items.len() implies from_host(to_host(items[i]))
                == items[i] by {
                lemma_decode_inverts_encode(items[i]);
            }
            assert(from_host(to_host(value))->Sequence_0 =~= items);
        },
        ValueModel::Mapping(entries) => {
            assert forall|i: int| 0 <= i < entries.len() implies from_host(
                to_host(entries[i].1),
            ) == entries[i].1 by {
                lemma_decode_inverts_encode(entries[i].1);
            }
            assert(from_host(to_host(value))->Mapping_0 =~= entries);
        },
        _ => {},
    }
}

/// Every host value is the encoding of exactly the value that it decodes to.
pub proof fn lemma_encode_inverts_decode(host: HostModel)
    ensures
        to_host(from_host(host)) == host,
    decreases host,
{
    match host {
        HostModel::List(items) => {
            assert forall|i: int| 0 <= i < items.len() implies to_host(from_host(items[i]))
                == items[i] by {
                lemma_encode_inverts_decode(items[i]);
            }
            assert(to_host(from_host(host))->List_0 =~= items);
        },
        HostModel::Dict(entries) => {
            assert forall|i: int| 0 <= i < entries.len() implies to_host(
                from_host(entries[i].1),
            ) == entries[i].1 by {
                lemma_encode_inverts_decode(entries[i].1);
            }
            assert(to_host(from_host(host))->Dict_0 =~= entries);
        },
        _ => {},
    }
}

/// The encoding mirrors the value node for node: the children of the
/// encoding are the encodings of the children, in the same order.
pub proof fn lemma_encoding_mirrors_children(value: ValueModel)
    ensures
        to_host(value).children().len() == value.children().len(),
        forall|i: int|
            0 <= i < value.children().len() ==> (#[trigger] to_host(value).children()[i])
                == to_host(value.children()[i]),
{
}

/// The encoding mirrors the value along every path: a path leads to a node
/// of the encoding exactly where it leads to a node of the value, and that
/// node is the encoding of the value's node.
pub proof fn lemma_encoding_mirrors_every_node(value: ValueModel, path: Seq<int>)
    ensures
        to_host(value).node_at(path) == match value.node_at(path) {
            Some(node) => Some(to_host(node)),
            None => None,
        },
    decreases path.len(),
{
    if path.len() > 0 {
        lemma_encoding_mirrors_children(value);
        if 0 <= path[0] < value.children().len() {
            lemma_encoding_mirrors_every_node(value.children()[path[0]], path.drop_first());
        }
    }
}

/// A boolean is encoded as a host boolean and an integer as a host integer,
/// whatever they hold: the two encodings are of different kinds and never
/// equal.
pub proof fn lemma_boolean_and_integer_stay_apart(b: bool, i: int)
    ensures
        to_host(ValueModel::Boolean(b)).kind() == HostKind::Bool,
        to_host(ValueModel::Integer(i)).kind() == HostKind::Int,
        to_host(ValueModel::Boolean(b)) != to_host(ValueModel::Integer(i)),
{
}

/// Null is encoded as the host's absent value and nothing else is, at the
/// root and at the end of every path into the tree.
pub proof fn lemma_null_is_absent_at_every_depth(value: ValueModel, path: Seq<int>)
    ensures
        to_host(ValueModel::Null) == HostModel::Absent,
        value.node_at(path) == Some(ValueModel::Null) <==> to_host(value).node_at(path) == Some(
            HostModel::Absent,
        ),
{
    lemma_encoding_mirrors_every_node(value, path);
    match value.node_at(path) {
        Some(node) => {
            lemma_decode_inverts_encode(node);
        },
        None => {},
    }
}

/// Encoding keeps the keys of every mapping, so a value that holds no key
/// twice is encoded as a host value that holds no key twice, and the other way
/// round.
pub proof fn lemma_encoding_keeps_keys(value: ValueModel)
    ensures
        to_host(value).keys_unique() == value.keys_unique(),
    decreases value,
{
    match value {
        ValueModel::Sequence(items) => {
            let list = to_host(value)->List_0;
            assert forall|i: int| 0 <= i < items.len() implies (#[trigger] list[i]).keys_unique()
                == items[i].keys_unique() by {
                lemma_encoding_keeps_keys(items[i]);
            }
            if value.keys_unique() {
                assert forall|i: int| 0 <= i < list.len() implies (#[trigger] list[i]).keys_unique() by {
                    assert(items[i].keys_unique());
                }
            }
            if to_host(value).keys_unique() {
                assert forall|i: int| 0 <= i < items.len() implies (#[trigger] items[i]).keys_unique() by {
                    assert(list[i].keys_unique());
                }
            }
        },
        ValueModel::Mapping(entries) => {
            let dict = to_host(value)->Dict_0;
            assert forall|i: int| 0 <= i < entries.len() implies (#[trigger] dict[i]).1.keys_unique()
                == entries[i].1.keys_unique() by {
                lemma_encoding_keeps_keys(entries[i].1);
            }
            assert(entry_keys(dict) =~= entry_keys(entries));
            if value.keys_unique() {
                assert forall|i: int| 0 <= i < dict.len() implies (#[trigger] dict[i]).1.keys_unique() by {
                    assert(entries[i].1.keys_unique());
                }
            }
            if to_host(value).keys_unique() {
                assert forall|i: int| 0 <= i < entries.len() implies (#[trigger] entries[i]).1.keys_unique() by {
                    assert(dict[i].1.keys_unique());
                }
            }
        },
        _ => {},
    }
}

/// Two different configuration values never share an encoding.
pub proof fn lemma_encoding_is_injective(a: ValueModel, b: ValueModel)
    requires
        to_host(a) == to_host(b),
    ensures
        a == b,
{
    lemma_decode_inverts_encode(a);
    lemma_decode_inverts_encode(b);
}

} // verus!
