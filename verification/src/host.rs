//! The host's dynamic values, as a closed tagged variant, and their model.

use crate::value::entry_keys;
use vstd::prelude::*;

verus! {

/// Mathematical model of a host value.
///
/// Booleans and integers are separate kinds: a host boolean is never an
/// integer that happens to be zero or one. `Absent` is the host's single
/// "no value" object.
pub enum HostModel {
    Bool(bool),
    Int(int),
    Float(u64),
    Str(Seq<char>),
    Absent,
    List(Seq<HostModel>),
    Dict(Seq<(Seq<char>, HostModel)>),
}

/// A value in the host's dynamic value model.
///
/// A binding layer for a concrete host builds its native objects from this
/// tree, one constructor per variant.
#[derive(Debug, PartialEq, Eq)]
pub enum HostValue {
    Bool(bool),
    Int(i64),
    /// The IEEE-754 binary64 bit pattern of the number.
    Float(u64),
    Str(String),
    Absent,
    List(Vec<HostValue>),
    /// Entries in insertion order; every key is a host string.
    Dict(Vec<(String, HostValue)>),
}

/// The kind of a host value, as the host's own type check tells it.
#[derive(Clone, Copy, PartialEq, Eq, Structural, Debug)]
pub enum HostKind {
    Bool,
    Int,
    Float,
    Str,
    Absent,
    List,
    Dict,
}

/// What the assignment `d[key] = value` makes of a dictionary's entries: a
/// new key goes to the end, a key that is held keeps its place and gets the
/// new value.
pub open spec fn put(
    entries: Seq<(Seq<char>, HostModel)>,
    key: Seq<char>,
    value: HostModel,
) -> Seq<(Seq<char>, HostModel)> {
    if entry_keys(entries).contains(key) {
        entries.update(entry_keys(entries).index_of(key), (key, value))
    } else {
        entries.push((key, value))
    }
}

/// What a dictionary holds after the first `n` of `entries` have been
/// assigned to it, one by one and in order, each with its value settled.
pub open spec fn assigned(entries: Seq<(Seq<char>, HostModel)>, n: nat) -> Seq<
    (Seq<char>, HostModel),
>
    decreases entries, n,
{
    if n == 0 || n > entries.len() {
        Seq::empty()
    } else {
        put(assigned(entries, (n - 1) as nat), entries[n - 1].0, entries[n - 1].1.settled())
    }
}

impl HostModel {
    /// The value as the host holds it once it is built: every dictionary is
    /// what the assignment of its entries, in order, leaves. A key that is
    /// given twice is held once, in its first place and with its last value.
    /// A value that holds no key twice is settled as it is.
    pub open spec fn settled(self) -> HostModel
        decreases self, 0nat,
    {
        match self {
            HostModel::List(items) => HostModel::List(
                Seq::new(
                    items.len(),
                    |i: int|
                        if 0 <= i < items.len() {
                            items[i].settled()
                        } else {
                            arbitrary()
                        },
                ),
            ),
            HostModel::Dict(entries) => HostModel::Dict(assigned(entries, entries.len())),
            _ => self,
        }
    }

    /// The children of the node, in order: the items of a list, the values
    /// of the entries of a dictionary. A scalar has none.
    pub open spec fn children(self) -> Seq<HostModel> {
        match self {
            HostModel::List(items) => items,
            HostModel::Dict(entries) => Seq::new(entries.len(), |i: int| entries[i].1),
            _ => Seq::empty(),
        }
    }

    /// The node reached from this one by taking, step by step, the child
    /// with the index that `path` gives; `None` where a step leaves the tree.
    pub open spec fn node_at(self, path: Seq<int>) -> Option<HostModel>
        decreases path.len(),
    {
        if path.len() == 0 {
            Some(self)
        } else if 0 <= path[0] < self.children().len() {
            self.children()[path[0]].node_at(path.drop_first())
        } else {
            None
        }
    }

    /// No dictionary anywhere in the tree holds the same key twice.
    pub open spec fn keys_unique(self) -> bool
        decreases self,
    {
        match self {
            HostModel::List(items) => forall|i: int|
                0 <= i < items.len() ==> (#[trigger] items[i]).keys_unique(),
            HostModel::Dict(entries) => {
                &&& entry_keys(entries).no_duplicates()
                &&& forall|i: int|
                    0 <= i < entries.len() ==> (#[trigger] entries[i]).1.keys_unique()
            },
            _ => true,
        }
    }

    /// A float stands somewhere in the tree.
    pub open spec fn holds_float(self) -> bool
        decreases self,
    {
        match self {
            HostModel::Float(_) => true,
            HostModel::List(items) => exists|i: int|
                0 <= i < items.len() && (#[trigger] items[i]).holds_float(),
            HostModel::Dict(entries) => exists|i: int|
                0 <= i < entries.len() && (#[trigger] entries[i]).1.holds_float(),
            _ => false,
        }
    }

    /// What the host's own type check says of the value.
    pub open spec fn kind(self) -> HostKind {
        match self {
            HostModel::Bool(_) => HostKind::Bool,
            HostModel::Int(_) => HostKind::Int,
            HostModel::Float(_) => HostKind::Float,
            HostModel::Str(_) => HostKind::Str,
            HostModel::Absent => HostKind::Absent,
            HostModel::List(_) => HostKind::List,
            HostModel::Dict(_) => HostKind::Dict,
        }
    }
}

impl HostValue {
    /// The tree that this value stands for.
    pub open spec fn model(&self) -> HostModel
        decreases self,
    {
        match self {
            HostValue::Bool(b) => HostModel::Bool(*b),
            HostValue::Int(i) => HostModel::Int(*i as int),
            HostValue::Float(bits) => HostModel::Float(*bits),
            HostValue::Str(s) => HostModel::Str(s@),
            HostValue::Absent => HostModel::Absent,
            HostValue::List(items) => HostModel::List(
                Seq::new(
                    items@.len(),
                    |i: int|
                        if 0 <= i < items@.len() {
                            items@[i].model()
                        } else {
                            arbitrary()
                        },
                ),
            ),
            HostValue::Dict(entries) => HostModel::Dict(
                Seq::new(
                    entries@.len(),
                    |i: int|
                        if 0 <= i < entries@.len() {
                            (entries@[i].0@, entries@[i].1.model())
                        } else {
                            arbitrary()
                        },
                ),
            ),
        }
    }
}

impl View for HostValue {
    type V = HostModel;

    open spec fn view(&self) -> HostModel {
        self.model()
    }
}

impl HostValue {
    /// The host's own type check.
    pub fn kind(&self) -> (k: HostKind)
        ensures
            k == self@.kind(),
    {
        match self {
            HostValue::Bool(_) => HostKind::Bool,
            HostValue::Int(_) => HostKind::Int,
            HostValue::Float(_) => HostKind::Float,
            HostValue::Str(_) => HostKind::Str,
            HostValue::Absent => HostKind::Absent,
            HostValue::List(_) => HostKind::List,
            HostValue::Dict(_) => HostKind::Dict,
        }
    }
}

/// Where no key is held twice, assigning the first `n` entries leaves just
/// those entries, in their order.
pub proof fn lemma_assigned_unique(entries: Seq<(Seq<char>, HostModel)>, n: nat)
    requires
        n <= entries.len(),
        HostModel::Dict(entries).keys_unique(),
    ensures
        assigned(entries, n) == entries.take(n as int),
    decreases entries, n,
{
    if n == 0 {
        assert(entries.take(0) =~= Seq::empty());
    } else {
        let last = entries[n - 1];
        let before = entries.take(n - 1);
        lemma_assigned_unique(entries, (n - 1) as nat);
        assert(last.1.keys_unique());
        lemma_settled_unique(last.1);
        assert(!entry_keys(before).contains(last.0)) by {
            if entry_keys(before).contains(last.0) {
                let k = choose|k: int|
                    0 <= k < entry_keys(before).len() && entry_keys(before)[k] == last.0;
                assert(entry_keys(entries)[k] == entry_keys(entries)[n - 1]);
            }
        }
        assert(before.push(last) =~= entries.take(n as int));
    }
}

/// A value that holds no key twice is settled as it is.
pub proof fn lemma_settled_unique(value: HostModel)
    requires
        value.keys_unique(),
    ensures
        value.settled() == value,
    decreases value, 0nat,
{
    match value {
        HostModel::List(items) => {
            assert forall|i: int| 0 <= i < items.len() implies (#[trigger] items[i]).settled()
                == items[i] by {
                lemma_settled_unique(items[i]);
            }
            assert(value.settled()->List_0 =~= items);
        },
        HostModel::Dict(entries) => {
            lemma_assigned_unique(entries, entries.len());
            assert(entries.take(entries.len() as int) =~= entries);
        },
        _ => {},
    }
}

} // verus!
