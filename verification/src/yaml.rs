//! The YAML document model, and the operations on `serde_yaml` values that
//! the configuration merge is built from.
//!
//! A `serde_yaml::Value` is opaque to the verifier; `yaml_model` names the
//! tree it holds. Mapping keys are looked up by `serde_yaml`'s own key
//! equality, named `yaml_eq`: it is not structural (all NaNs are equal, a tag
//! matches with or without its leading `!`, mappings compare without regard
//! to order), so the library never restates it.

use vstd::prelude::*;

verus! {

/// A number as `serde_yaml` stores it; a float is held by its IEEE-754 bits.
pub enum YamlNumber {
    PosInt(u64),
    NegInt(i64),
    Float(u64),
}

/// The content of a `serde_yaml::Value`: every node with its children, the
/// entries of a mapping in insertion order.
pub enum Yaml {
    Null,
    Bool(bool),
    Number(YamlNumber),
    String(Seq<char>),
    Sequence(Seq<Yaml>),
    Mapping(Seq<(Yaml, Yaml)>),
    Tagged(Seq<char>, Box<Yaml>),
}

#[verifier::external_type_specification]
#[verifier::external_body]
pub struct ExValue(serde_yaml::Value);

#[verifier::external_type_specification]
#[verifier::external_body]
pub struct ExYamlError(serde_yaml::Error);

/// What a `serde_yaml::Value` holds.
pub uninterp spec fn yaml_model(v: serde_yaml::Value) -> Yaml;

/// `serde_yaml`'s equality of two values, by which a mapping finds a key.
pub uninterp spec fn yaml_eq(a: Yaml, b: Yaml) -> bool;

/// The document that `serde_yaml` reads from a text, or `None` where it
/// reports an error.
pub uninterp spec fn yaml_parse(text: Seq<char>) -> Option<Yaml>;

/// The node under any number of tags.
pub open spec fn untagged(y: Yaml) -> Yaml
    decreases y,
{
    match y {
        Yaml::Tagged(_, inner) => untagged(*inner),
        _ => y,
    }
}

/// Whether a node is a sequence once its tags are taken off.
pub open spec fn is_sequence_value(y: Yaml) -> bool {
    untagged(y) is Sequence
}

/// The items of a (possibly tagged) sequence node.
pub open spec fn sequence_items(y: Yaml) -> Seq<Yaml> {
    match untagged(y) {
        Yaml::Sequence(items) => items,
        _ => Seq::empty(),
    }
}

/// The entries of a mapping node.
pub open spec fn entries_of(y: Yaml) -> Seq<(Yaml, Yaml)> {
    match y {
        Yaml::Mapping(entries) => entries,
        _ => Seq::empty(),
    }
}

/// The keys of a mapping's entries, in order.
pub open spec fn keys_of(entries: Seq<(Yaml, Yaml)>) -> Seq<Yaml> {
    entries.map_values(|e: (Yaml, Yaml)| e.0)
}

/// The position of the first key that equals `k`, if any.
pub open spec fn key_index(keys: Seq<Yaml>, k: Yaml) -> Option<int>
    decreases keys.len(),
{
    if keys.len() == 0 {
        None
    } else {
        match key_index(keys.drop_last(), k) {
            Some(i) => Some(i),
            None => if yaml_eq(keys.last(), k) {
                Some(keys.len() - 1)
            } else {
                None
            },
        }
    }
}

/// No two keys of the entries are equal: what every `serde_yaml` mapping
/// keeps, its `IndexMap` replacing the value of a key that is inserted again.
pub open spec fn unique_keys(entries: Seq<(Yaml, Yaml)>) -> bool {
    forall|i: int, j: int|
        0 <= i < entries.len() && 0 <= j < entries.len() && i != j
            ==> !yaml_eq(#[trigger] entries[i].0, #[trigger] entries[j].0)
}

/// What `serde_yaml`'s equality (the derived `PartialEq` of `Value`) shows
/// of the key `k`: it equals itself, it compares the same from either side,
/// and where it is a string it equals exactly the string of the same
/// characters.
pub open spec fn key_behaves(k: Yaml) -> bool {
    &&& yaml_eq(k, k)
    &&& forall|y: Yaml|
        #![trigger yaml_eq(y, k)]
        #![trigger yaml_eq(k, y)]
        yaml_eq(y, k) == yaml_eq(k, y)
    &&& k is String ==> forall|y: Yaml| #[trigger] yaml_eq(y, k) <==> y == k
}

/// The position of the first key that is `k` itself, if any.
pub open spec fn position_of(keys: Seq<Yaml>, k: Yaml) -> Option<int>
    decreases keys.len(),
{
    if keys.len() == 0 {
        None
    } else {
        match position_of(keys.drop_last(), k) {
            Some(i) => Some(i),
            None => if keys.last() == k {
                Some(keys.len() - 1)
            } else {
                None
            },
        }
    }
}

/// A string key is looked up by its characters: the key found is the first
/// one that is the same string.
pub proof fn law_string_key_lookup(keys: Seq<Yaml>, k: Yaml)
    requires
        k is String,
        key_behaves(k),
    ensures
        key_index(keys, k) == position_of(keys, k),
    decreases keys.len(),
{
    if keys.len() > 0 {
        law_string_key_lookup(keys.drop_last(), k);
        assert(yaml_eq(keys.last(), k) <==> keys.last() == k);
    }
}

/// The models of a run of values.
pub open spec fn values_model(values: Seq<serde_yaml::Value>) -> Seq<Yaml> {
    values.map_values(|v: serde_yaml::Value| yaml_model(v))
}

/// The models of a run of key/value pairs.
pub open spec fn pairs_model(pairs: Seq<(serde_yaml::Value, serde_yaml::Value)>) -> Seq<(Yaml, Yaml)> {
    pairs.map_values(|p: (serde_yaml::Value, serde_yaml::Value)| (yaml_model(p.0), yaml_model(p.1)))
}

/// Parses a YAML document with `serde_yaml::from_str::<serde_yaml::Value>`.
/// Claimed: the outcome is a function of the text (`yaml_parse`), `Ok` exactly
/// where that function gives a document.
#[verifier::external_body]
pub(crate) fn parse_value(text: &str) -> (r: Result<serde_yaml::Value, serde_yaml::Error>)
    ensures
        r is Ok <==> yaml_parse(text@) is Some,
        r matches Ok(v) ==> yaml_parse(text@) == Some(yaml_model(v)),
{
    serde_yaml::from_str::<serde_yaml::Value>(text)
}

/// Tells the `Value::Mapping` variant apart (a tagged mapping is not one).
/// A mapping holds no two equal keys, and each key behaves under
/// equality as `key_behaves` says.
#[verifier::external_body]
pub(crate) fn is_mapping_node(value: &serde_yaml::Value) -> (r: bool)
    ensures
        r == (yaml_model(*value) is Mapping),
        r ==> unique_keys(entries_of(yaml_model(*value))),
        r ==> forall|i: int|
            0 <= i < entries_of(yaml_model(*value)).len()
                ==> key_behaves(#[trigger] entries_of(yaml_model(*value))[i].0),
{
    match value {
        serde_yaml::Value::Mapping(_) => true,
        _ => false,
    }
}

/// Moves the entries out of a `Value::Mapping` through
/// `Mapping::into_iter`, which yields them in insertion order; no two of
/// their keys are equal, and each key behaves as `key_behaves` says.
#[verifier::external_body]
pub(crate) fn mapping_entries(value: serde_yaml::Value) -> (r: Vec<(serde_yaml::Value, serde_yaml::Value)>)
    requires
        yaml_model(value) is Mapping,
    ensures
        pairs_model(r@) == entries_of(yaml_model(value)),
        unique_keys(pairs_model(r@)),
        forall|i: int| 0 <= i < r@.len() ==> key_behaves(#[trigger] pairs_model(r@)[i].0),
{
    match value {
        serde_yaml::Value::Mapping(m) => m.into_iter().collect(),
        _ => Vec::new(),
    }
}

/// `Value::is_sequence`, which looks through tags.
#[verifier::external_body]
pub(crate) fn is_sequence_node(value: &serde_yaml::Value) -> (r: bool)
    ensures
        r == is_sequence_value(yaml_model(*value)),
{
    value.is_sequence()
}

/// A copy of the items of a sequence, through `Value::as_sequence` (which
/// looks through tags) and `Clone`.
#[verifier::external_body]
pub(crate) fn sequence_node_items(value: &serde_yaml::Value) -> (r: Vec<serde_yaml::Value>)
    requires
        is_sequence_value(yaml_model(*value)),
    ensures
        values_model(r@) == sequence_items(yaml_model(*value)),
{
    match value.as_sequence() {
        Some(items) => items.clone(),
        None => Vec::new(),
    }
}

/// `Mapping::contains_key`: whether some key of the mapping equals `key`.
#[verifier::external_body]
pub(crate) fn mapping_contains_key(map: &serde_yaml::Value, key: &serde_yaml::Value) -> (r: bool)
    requires
        yaml_model(*map) is Mapping,
    ensures
        r == (exists|i: int|
            0 <= i < entries_of(yaml_model(*map)).len()
                && yaml_eq(#[trigger] entries_of(yaml_model(*map))[i].0, yaml_model(*key))),
{
    match map {
        serde_yaml::Value::Mapping(m) => m.contains_key(key),
        _ => false,
    }
}

/// A key is found exactly where some key of the entries equals it, and
/// where it is found the key there equals it.
pub(crate) proof fn lemma_key_index_found(entries: Seq<(Yaml, Yaml)>, k: Yaml)
    ensures
        key_index(keys_of(entries), k) is Some <==> exists|i: int|
            0 <= i < entries.len() && yaml_eq(#[trigger] entries[i].0, k),
        key_index(keys_of(entries), k) matches Some(i) ==> 0 <= i < entries.len() && yaml_eq(entries[i].0, k),
    decreases entries.len(),
{
    if entries.len() > 0 {
        let keys = keys_of(entries);
        lemma_key_index_found(entries.drop_last(), k);
        assert(keys_of(entries.drop_last()) =~= keys.drop_last());
        if exists|i: int| 0 <= i < entries.len() && yaml_eq(#[trigger] entries[i].0, k) {
            let i = choose|i: int| 0 <= i < entries.len() && yaml_eq(#[trigger] entries[i].0, k);
            if i < entries.len() - 1 {
                assert(entries.drop_last()[i] == entries[i]);
            }
        }
        if key_index(keys.drop_last(), k) is Some {
            let j = key_index(keys.drop_last(), k)->0;
            assert(entries.drop_last()[j] == entries[j]);
        }
    }
}

/// `Mapping`'s `Index`: the value stored under the key equal to `key`. A
/// mapping holds no two equal keys, so that entry is the first that matches.
#[verifier::external_body]
pub(crate) fn mapping_value<'a>(map: &'a serde_yaml::Value, key: &serde_yaml::Value) -> (r: &'a serde_yaml::Value)
    requires
        yaml_model(*map) is Mapping,
        key_index(keys_of(entries_of(yaml_model(*map))), yaml_model(*key)) is Some,
    ensures
        yaml_model(*r) == entries_of(yaml_model(*map))[
            key_index(keys_of(entries_of(yaml_model(*map))), yaml_model(*key))->0
        ].1,
{
    match map {
        serde_yaml::Value::Mapping(m) => &m[key],
        _ => map,
    }
}

/// `std::mem::take` on `Mapping`'s `IndexMut`: moves out the value under the
/// key equal to `key`, leaving `Value::Null` (its `Default`) in its place.
#[verifier::external_body]
pub(crate) fn mapping_take_value(map: &mut serde_yaml::Value, key: &serde_yaml::Value) -> (r: serde_yaml::Value)
    requires
        yaml_model(*old(map)) is Mapping,
        key_index(keys_of(entries_of(yaml_model(*old(map)))), yaml_model(*key)) is Some,
    ensures
        ({
            let entries = entries_of(yaml_model(*old(map)));
            let i = key_index(keys_of(entries), yaml_model(*key))->0;
            &&& yaml_model(r) == entries[i].1
            &&& yaml_model(*final(map)) == Yaml::Mapping(entries.update(i, (entries[i].0, Yaml::Null)))
        }),
{
    match map {
        serde_yaml::Value::Mapping(m) => std::mem::take(&mut m[key]),
        _ => serde_yaml::Value::Null,
    }
}

/// Assignment through `Mapping`'s `IndexMut`: replaces the value under the
/// key equal to `key`; the entry keeps its key and its place.
#[verifier::external_body]
pub(crate) fn mapping_set_value(map: &mut serde_yaml::Value, key: &serde_yaml::Value, value: serde_yaml::Value)
    requires
        yaml_model(*old(map)) is Mapping,
        key_index(keys_of(entries_of(yaml_model(*old(map)))), yaml_model(*key)) is Some,
    ensures
        ({
            let entries = entries_of(yaml_model(*old(map)));
            let i = key_index(keys_of(entries), yaml_model(*key))->0;
            yaml_model(*final(map)) == Yaml::Mapping(entries.update(i, (entries[i].0, yaml_model(value))))
        }),
{
    if let serde_yaml::Value::Mapping(m) = map {
        m[key] = value;
    }
}

/// `Mapping::insert` of a key that no key of the mapping equals: the entry
/// goes to the end.
#[verifier::external_body]
pub(crate) fn mapping_push_entry(map: &mut serde_yaml::Value, key: serde_yaml::Value, value: serde_yaml::Value)
    requires
        yaml_model(*old(map)) is Mapping,
        key_index(keys_of(entries_of(yaml_model(*old(map)))), yaml_model(key)) is None,
    ensures
        yaml_model(*final(map)) == Yaml::Mapping(
            entries_of(yaml_model(*old(map))).push((yaml_model(key), yaml_model(value))),
        ),
{
    if let serde_yaml::Value::Mapping(m) = map {
        m.insert(key, value);
    }
}

/// `Value::from` a vector: an untagged sequence of those items.
#[verifier::external_body]
pub(crate) fn sequence_node(items: Vec<serde_yaml::Value>) -> (r: serde_yaml::Value)
    ensures
        yaml_model(r) == Yaml::Sequence(values_model(items@)),
{
    serde_yaml::Value::from(items)
}

} // verus!
