//! Taking over what the build engine hands out.

use crate::engine::{entries_of, float_bits};
use crate::value::{entry_keys, has_match, ConfigValue, ValueModel};
use configtpl::types::config_param::ConfigParam;
use std::collections::HashMap;
use vstd::float::FloatBitsProperties;
use vstd::prelude::*;

verus! {

/// The items of a sequence parameter.
pub open spec fn items_of(param: ConfigParam) -> Vec<ConfigParam> {
    match param {
        ConfigParam::Vec(items) => items,
        _ => arbitrary(),
    }
}

/// The map of a mapping parameter.
pub open spec fn map_of(param: ConfigParam) -> HashMap<String, ConfigParam> {
    match param {
        ConfigParam::HashMap(map) => map,
        _ => arbitrary(),
    }
}

/// `value` says what the engine's `param` says: the same variant at every
/// node, the same payload at every leaf, the items of a sequence in the same
/// order, and for a mapping one entry for each key of the engine's map, in
/// any order.
pub open spec fn reflects(param: ConfigParam, value: ValueModel) -> bool
    decreases param,
{
    match param {
        ConfigParam::Boolean(b) => value == ValueModel::Boolean(b),
        ConfigParam::Int(i) => value == ValueModel::Integer(i as int),
        ConfigParam::Float(number) => value == ValueModel::Float(number.to_bits_spec()),
        ConfigParam::String(text) => value == ValueModel::Text(text@),
        ConfigParam::Null => value == ValueModel::Null,
        ConfigParam::Vec(items) => {
            &&& value is Sequence
            &&& value->Sequence_0.len() == items@.len()
            &&& forall|i: int|
                0 <= i < items@.len() ==> reflects(#[trigger] items@[i], value->Sequence_0[i])
        },
        ConfigParam::HashMap(map) => {
            &&& value is Mapping
            &&& value->Mapping_0.len() == map@.dom().len()
            &&& entry_keys(value->Mapping_0).no_duplicates()
            &&& forall|i: int|
                0 <= i < value->Mapping_0.len() ==> entry_reflects(
                    map,
                    #[trigger] value->Mapping_0[i],
                )
        },
    }
}

/// `entry` says what the engine's `map` says under one of its keys: the key
/// has the entry's text, and the entry's value reflects what the map holds
/// under it.
pub open spec fn entry_reflects(
    map: HashMap<String, ConfigParam>,
    entry: (Seq<char>, ValueModel),
) -> bool
    decreases map,
{
    exists|key: String|
        map@.dom().finite() && #[trigger] map@.contains_key(key) && key@ == entry.0 && reflects(
            map@[key],
            entry.1,
        )
}

/// Whatever reflects a value of the engine holds no key twice in any of its
/// mappings: the engine's maps hold each key once.
pub proof fn lemma_reflection_has_unique_keys(param: ConfigParam, value: ValueModel)
    requires
        reflects(param, value),
    ensures
        value.keys_unique(),
    decreases param,
{
    match param {
        ConfigParam::Vec(items) => {
            let held = value->Sequence_0;
            assert forall|i: int| 0 <= i < held.len() implies (#[trigger] held[i]).keys_unique() by {
                assert(reflects(items@[i], held[i]));
                assert(decreases_to!(param => items_of(param)));
                assert(decreases_to!(items => items@[i]));
                lemma_reflection_has_unique_keys(items@[i], held[i]);
            }
        },
        ConfigParam::HashMap(map) => {
            let held = value->Mapping_0;
            assert forall|i: int| 0 <= i < held.len() implies (#[trigger] held[i]).1.keys_unique() by {
                assert(entry_reflects(map, held[i]));
                let key = choose|key: String|
                    map@.dom().finite() && #[trigger] map@.contains_key(key) && key@ == held[i].0
                        && reflects(map@[key], held[i].1);
                assert(decreases_to!(param => map_of(param)));
                assert(decreases_to!(map => map@));
                assert(decreases_to!(map@ => map@[key]));
                lemma_reflection_has_unique_keys(map@[key], held[i].1);
            }
        },
        _ => {},
    }
}

/// What reflects a value of the engine is fixed but for the order of mapping
/// entries: two trees that reflect the same value are the same up to that
/// order.
pub proof fn lemma_reflection_is_fixed_up_to_order(
    param: ConfigParam,
    first: ValueModel,
    second: ValueModel,
)
    requires
        reflects(param, first),
        reflects(param, second),
    ensures
        first.same_up_to_order(second),
    decreases param,
{
    match param {
        ConfigParam::Vec(items) => {
            let a = first->Sequence_0;
            let b = second->Sequence_0;
            assert forall|i: int| 0 <= i < a.len() implies (#[trigger] a[i]).same_up_to_order(
                b[i],
            ) by {
                assert(reflects(items@[i], a[i]));
                assert(reflects(items@[i], b[i]));
                assert(decreases_to!(param => items_of(param)));
                assert(decreases_to!(items => items@[i]));
                lemma_reflection_is_fixed_up_to_order(items@[i], a[i], b[i]);
            }
        },
        ConfigParam::HashMap(map) => {
            let a = first->Mapping_0;
            let b = second->Mapping_0;
            let source = |j: int|
                choose|key: String|
                    map@.dom().finite() && #[trigger] map@.contains_key(key) && key@ == b[j].0
                        && reflects(map@[key], b[j].1);
            let sources = Seq::new(b.len(), source);
            assert forall|j: int| 0 <= j < b.len() implies map@.contains_key(
                #[trigger] sources[j],
            ) && sources[j]@ == b[j].0 && reflects(map@[sources[j]], b[j].1) by {
                assert(entry_reflects(map, b[j]));
            }
            assert forall|j: int, k: int|
                0 <= j < sources.len() && 0 <= k < sources.len() && j != k implies sources[j]
                != sources[k] by {
                assert(entry_keys(b)[j] != entry_keys(b)[k]);
            }
            sources.unique_seq_to_set();
            assert(map@.dom().finite());
            assert(sources.to_set().subset_of(map@.dom())) by {
                assert forall|key: String| sources.to_set().contains(key) implies map@.dom().contains(
                    key,
                ) by {
                    let j = choose|j: int| 0 <= j < sources.len() && sources[j] == key;
                    assert(map@.contains_key(sources[j]));
                }
            }
            vstd::set_lib::lemma_set_subset_finite(map@.dom(), sources.to_set());
            vstd::set_lib::lemma_subset_equality(sources.to_set(), map@.dom());
            assert forall|i: int| 0 <= i < a.len() implies has_match(#[trigger] a[i], b) by {
                assert(entry_reflects(map, a[i]));
                let key = choose|key: String|
                    map@.dom().finite() && #[trigger] map@.contains_key(key) && key@ == a[i].0
                        && reflects(map@[key], a[i].1);
                assert(sources.to_set().contains(key));
                let j = choose|j: int| 0 <= j < sources.len() && sources[j] == key;
                assert(reflects(map@[key], b[j].1));
                assert(decreases_to!(param => map_of(param)));
                assert(decreases_to!(map => map@));
                assert(decreases_to!(map@ => map@[key]));
                lemma_reflection_is_fixed_up_to_order(map@[key], a[i].1, b[j].1);
                assert(b[j].0 == a[i].0);
            }
        },
        _ => {},
    }
}

/// Converts a value of the engine into a configuration value.
pub fn from_param(param: &ConfigParam) -> (value: ConfigValue)
    ensures
        reflects(*param, value@),
        value@.keys_unique(),
    decreases param,
{
    let value = match param {
        ConfigParam::Boolean(b) => ConfigValue::Boolean(*b),
        ConfigParam::Int(i) => ConfigValue::Integer(*i),
        ConfigParam::Float(_) => ConfigValue::Float(float_bits(param)),
        ConfigParam::String(text) => ConfigValue::Text(text.clone()),
        ConfigParam::Null => ConfigValue::Null,
        ConfigParam::Vec(items) => {
            let mut sequence: Vec<ConfigValue> = Vec::new();
            let mut i: usize = 0;
            while i < items.len()
                invariant
                    i <= items.len(),
                    param is Vec,
                    items_of(*param) == *items,
                    sequence@.len() == i,
                    forall|k: int| 0 <= k < i ==> reflects(items@[k], #[trigger] sequence@[k]@),
                decreases items.len() - i,
            {
                proof {
                    assert(decreases_to!(*param => items_of(*param)));
                    assert(decreases_to!(*items => items[i as int]));
                }
                let item = from_param(&items[i]);
                sequence.push(item);
                i = i + 1;
            }
            let value = ConfigValue::Sequence(sequence);
            proof {
                let held = value@->Sequence_0;
                assert forall|k: int| 0 <= k < items@.len() implies reflects(
                    #[trigger] items@[k],
                    held[k],
                ) by {
                    assert(held[k] == sequence@[k]@);
                }
            }
            value
        },
        ConfigParam::HashMap(map) => {
            let entries = entries_of(map);
            let mut mapping: Vec<(String, ConfigValue)> = Vec::new();
            let mut i: usize = 0;
            while i < entries.len()
                invariant
                    i <= entries.len(),
                    param is HashMap,
                    map_of(*param) == *map,
                    forall|k: int|
                        0 <= k < entries@.len() ==> map@.contains_key(
                            *(#[trigger] entries@[k]).0,
                        ) && map@[*entries@[k].0] == *entries@[k].1,
                    mapping@.len() == i,
                    forall|k: int|
                        0 <= k < i ==> (#[trigger] mapping@[k]).0@ == entries@[k].0@ && reflects(
                            *entries@[k].1,
                            mapping@[k].1@,
                        ),
                decreases entries.len() - i,
            {
                let entry = entries[i];
                proof {
                    assert(map@.contains_key(*entries@[i as int].0));
                    assert(map@.dom().finite());
                    assert(decreases_to!(*param => map_of(*param)));
                    assert(decreases_to!(*map => map@));
                    assert(decreases_to!(map@ => map@[*entry.0]));
                }
                let item = from_param(entry.1);
                mapping.push((entry.0.clone(), item));
                i = i + 1;
            }
            let value = ConfigValue::Mapping(mapping);
            proof {
                let held = value@->Mapping_0;
                assert forall|k: int| 0 <= k < held.len() implies entry_reflects(
                    *map,
                    #[trigger] held[k],
                ) by {
                    let key = *entries@[k].0;
                    assert(map@.contains_key(key));
                    assert(held[k] == (mapping@[k].0@, mapping@[k].1@));
                    assert(reflects(map@[key], held[k].1));
                }
                assert forall|a: int, b: int|
                    0 <= a < held.len() && 0 <= b < held.len() && a != b implies entry_keys(
                    held,
                )[a] != entry_keys(held)[b] by {
                    if a < b {
                        assert(entries@[a].0@ != entries@[b].0@);
                    } else {
                        assert(entries@[b].0@ != entries@[a].0@);
                    }
                }
            }
            value
        },
    };
    proof {
        lemma_reflection_has_unique_keys(*param, value@);
    }
    value
}

} // verus!
