//! Resolved configuration values and their mathematical model.

use vstd::prelude::*;

verus! {

/// Mathematical model of a resolved configuration tree.
///
/// A float is modelled by its IEEE-754 binary64 bit pattern, so that every
/// NaN payload, both zeros and both infinities stay distinguishable. A mapping
/// is modelled by its entries in the order in which they are held.
pub enum ValueModel {
    Boolean(bool),
    Integer(int),
    Float(u64),
    Text(Seq<char>),
    Null,
    Sequence(Seq<ValueModel>),
    Mapping(Seq<(Seq<char>, ValueModel)>),
}

/// A resolved configuration value: a closed tree, built bottom-up.
///
/// The order of a sequence is significant. A mapping holds each key once,
/// which its producer sees to (`keys_unique` on the model says so); the
/// order of its entries carries no meaning, but is kept.
#[derive(Debug, PartialEq, Eq)]
pub enum ConfigValue {
    Boolean(bool),
    Integer(i64),
    /// The IEEE-754 binary64 bit pattern of the number.
    Float(u64),
    Text(String),
    Null,
    Sequence(Vec<ConfigValue>),
    Mapping(Vec<(String, ConfigValue)>),
}

/// The keys of the entries, in order.
pub open spec fn entry_keys<T>(entries: Seq<(Seq<char>, T)>) -> Seq<Seq<char>> {
    Seq::new(entries.len(), |i: int| entries[i].0)
}

/// One of `others` has the key of `entry` and a value that is the same as
/// the entry's but for the order of mapping entries.
pub open spec fn has_match(
    entry: (Seq<char>, ValueModel),
    others: Seq<(Seq<char>, ValueModel)>,
) -> bool
    decreases entry,
{
    exists|j: int|
        0 <= j < others.len() && (#[trigger] others[j]).0 == entry.0 && entry.1.same_up_to_order(
            others[j].1,
        )
}

impl ValueModel {
    /// The children of the node, in order: the items of a sequence, the
    /// values of the entries of a mapping. A leaf has none.
    pub open spec fn children(self) -> Seq<ValueModel> {
        match self {
            ValueModel::Sequence(items) => items,
            ValueModel::Mapping(entries) => Seq::new(entries.len(), |i: int| entries[i].1),
            _ => Seq::empty(),
        }
    }

    /// The node reached from this one by taking, step by step, the child
    /// with the index that `path` gives; `None` where a step leaves the tree.
    pub open spec fn node_at(self, path: Seq<int>) -> Option<ValueModel>
        decreases path.len(),
    {
        if path.len() == 0 {
            Some(self)
        } else if 0 <= path[0] < self.children().len() {
            self.children()[path[0]].node_at(path.drop_first())
        } else {
            None
        }
    }

    /// The two trees are the same but for the order in which their mappings
    /// hold their entries: equal leaves, sequences equal item by item, and
    /// mappings of one length in which each entry of this one has its match
    /// in the other. Where no key is held twice, that pairs the entries one
    /// to one.
    pub open spec fn same_up_to_order(self, other: ValueModel) -> bool
        decreases self,
    {
        match self {
            ValueModel::Sequence(items) => {
                &&& other is Sequence
                &&& other->Sequence_0.len() == items.len()
                &&& forall|i: int|
                    0 <= i < items.len() ==> (#[trigger] items[i]).same_up_to_order(
                        other->Sequence_0[i],
                    )
            },
            ValueModel::Mapping(entries) => {
                &&& other is Mapping
                &&& other->Mapping_0.len() == entries.len()
                &&& forall|i: int|
                    0 <= i < entries.len() ==> has_match(#[trigger] entries[i], other->Mapping_0)
            },
            _ => other == self,
        }
    }

    /// No mapping anywhere in the tree holds the same key twice.
    pub open spec fn keys_unique(self) -> bool
        decreases self,
    {
        match self {
            ValueModel::Sequence(items) => forall|i: int|
                0 <= i < items.len() ==> (#[trigger] items[i]).keys_unique(),
            ValueModel::Mapping(entries) => {
                &&& entry_keys(entries).no_duplicates()
                &&& forall|i: int|
                    0 <= i < entries.len() ==> (#[trigger] entries[i]).1.keys_unique()
            },
            _ => true,
        }
    }
}

impl ConfigValue {
    /// The tree that this value stands for.
    pub open spec fn model(&self) -> ValueModel
        decreases self,
    {
        match self {
            ConfigValue::Boolean(b) => ValueModel::Boolean(*b),
            ConfigValue::Integer(i) => ValueModel::Integer(*i as int),
            ConfigValue::Float(bits) => ValueModel::Float(*bits),
            ConfigValue::Text(s) => ValueModel::Text(s@),
            ConfigValue::Null => ValueModel::Null,
            ConfigValue::Sequence(items) => ValueModel::Sequence(
                Seq::new(
                    items@.len(),
                    |i: int|
                        if 0 <= i < items@.len() {
                            items@[i].model()
                        } else {
                            arbitrary()
                        },
                ),
            ),
            ConfigValue::Mapping(entries) => ValueModel::Mapping(
                Seq::new(
                    entries@.len(),
                    |i: int|
                        if 0 <= i < entries@.len() {
                            (entries@[i].0@, entries@[i].1.model())
                        } else {
                            arbitrary()
                        },
                ),
            ),
        }
    }
}

impl View for ConfigValue {
    type V = ValueModel;

    open spec fn view(&self) -> ValueModel {
        self.model()
    }
}

} // verus!
