//! Merging one YAML document into another: mappings merge key by key, a
//! sequence under a key that already holds a sequence is appended to it, and
//! anything else replaces what was there.

use vstd::prelude::*;
use crate::yaml::{
    entries_of, is_mapping_node, is_sequence_node, is_sequence_value, key_index, keys_of,
    lemma_key_index_found, mapping_contains_key, yaml_eq, unique_keys, key_behaves, mapping_entries, mapping_push_entry,
    mapping_set_value, mapping_take_value, mapping_value, pairs_model, sequence_items,
    sequence_node, sequence_node_items, values_model, yaml_model, Yaml,
};

verus! {

/// The document that merging `b` into `a` gives.
pub open spec fn merged(a: Yaml, b: Yaml) -> Yaml
    decreases b, 0int,
{
    match b {
        Yaml::Mapping(be) => match a {
            Yaml::Mapping(ae) => Yaml::Mapping(merge_entries(ae, be)),
            _ => b,
        },
        _ => b,
    }
}

/// The entries `ae` after the entries `be` are merged into them in order.
pub open spec fn merge_entries(ae: Seq<(Yaml, Yaml)>, be: Seq<(Yaml, Yaml)>) -> Seq<(Yaml, Yaml)>
    decreases be, 0int,
{
    if be.len() == 0 {
        ae
    } else {
        merge_entries(merge_entry(ae, be[0].0, be[0].1), be.subrange(1, be.len() as int))
    }
}

/// The entries `ae` after the entry `k: v` is merged into them: a new key goes
/// to the end; two sequences are joined; otherwise the old value and `v` merge.
pub open spec fn merge_entry(ae: Seq<(Yaml, Yaml)>, k: Yaml, v: Yaml) -> Seq<(Yaml, Yaml)>
    decreases v, 1int,
{
    match key_index(keys_of(ae), k) {
        None => ae.push((k, v)),
        Some(i) => ae.update(
            i,
            (
                ae[i].0,
                if is_sequence_value(v) && is_sequence_value(ae[i].1) {
                    Yaml::Sequence(sequence_items(ae[i].1) + sequence_items(v))
                } else {
                    merged(ae[i].1, v)
                },
            ),
        ),
    }
}

/// A document that is not a mapping, or merged into one that is not, simply
/// replaces what was there.
pub proof fn law_non_mapping_replaces(a: Yaml, b: Yaml)
    requires
        !(a is Mapping) || !(b is Mapping),
    ensures
        merged(a, b) == b,
{
}

/// An empty mapping merged into a mapping leaves it as it was.
pub proof fn law_empty_layer_keeps(ae: Seq<(Yaml, Yaml)>)
    ensures
        merged(Yaml::Mapping(ae), Yaml::Mapping(Seq::empty())) == Yaml::Mapping(ae),
{
}

/// A layer of one entry merges as that entry does.
proof fn lemma_single_entry_layer(ae: Seq<(Yaml, Yaml)>, k: Yaml, v: Yaml)
    ensures
        merged(Yaml::Mapping(ae), Yaml::Mapping(seq![(k, v)])) == Yaml::Mapping(merge_entry(ae, k, v)),
{
    let be = seq![(k, v)];
    let m = merge_entry(ae, k, v);
    assert(be.subrange(1, 1) =~= Seq::<(Yaml, Yaml)>::empty());
    assert(merge_entries(m, Seq::empty()) == m);
    assert(merge_entries(ae, be) == merge_entries(m, be.subrange(1, 1)));
}

/// Under a key of the earlier mapping, a later value replaces the earlier one
/// in its place unless both are sequences (which join) or both are mappings
/// (which merge): a mapping replaces a scalar or a sequence, a sequence
/// replaces a scalar or a mapping, a scalar replaces anything.
pub proof fn law_later_value_replaces(ae: Seq<(Yaml, Yaml)>, k: Yaml, v: Yaml, i: int)
    requires
        key_index(keys_of(ae), k) == Some(i),
        !(is_sequence_value(ae[i].1) && is_sequence_value(v)),
        !(ae[i].1 is Mapping && v is Mapping),
    ensures
        merged(Yaml::Mapping(ae), Yaml::Mapping(seq![(k, v)])) == Yaml::Mapping(ae.update(i, (ae[i].0, v))),
{
    lemma_single_entry_layer(ae, k, v);
    assert(merged(ae[i].1, v) == v);
}

/// Under a key of the earlier mapping, a later value that is neither a
/// mapping nor a sequence replaces the earlier one in its place; under a new
/// key it is added at the end.
pub proof fn law_scalar_overrides(ae: Seq<(Yaml, Yaml)>, k: Yaml, v: Yaml)
    requires
        !(v is Mapping),
        !is_sequence_value(v),
    ensures
        merged(Yaml::Mapping(ae), Yaml::Mapping(seq![(k, v)])) == Yaml::Mapping(
            match key_index(keys_of(ae), k) {
                Some(i) => ae.update(i, (ae[i].0, v)),
                None => ae.push((k, v)),
            },
        ),
{
    lemma_single_entry_layer(ae, k, v);
    if let Some(i) = key_index(keys_of(ae), k) {
        assert(merged(ae[i].1, v) == v);
    }
}

/// A later sequence under a key that holds a sequence is appended to it.
pub proof fn law_sequences_join(ae: Seq<(Yaml, Yaml)>, k: Yaml, v: Yaml, i: int)
    requires
        key_index(keys_of(ae), k) == Some(i),
        is_sequence_value(ae[i].1),
        is_sequence_value(v),
    ensures
        merged(Yaml::Mapping(ae), Yaml::Mapping(seq![(k, v)])) == Yaml::Mapping(
            ae.update(i, (ae[i].0, Yaml::Sequence(sequence_items(ae[i].1) + sequence_items(v)))),
        ),
{
    lemma_single_entry_layer(ae, k, v);
}

/// A later mapping under a key that holds a mapping is merged into it, key by
/// key.
pub proof fn law_nested_mappings_merge(ae: Seq<(Yaml, Yaml)>, k: Yaml, v: Yaml, i: int)
    requires
        key_index(keys_of(ae), k) == Some(i),
        ae[i].1 is Mapping,
        v is Mapping,
    ensures
        merged(Yaml::Mapping(ae), Yaml::Mapping(seq![(k, v)])) == Yaml::Mapping(
            ae.update(i, (ae[i].0, Yaml::Mapping(merge_entries(entries_of(ae[i].1), entries_of(v))))),
        ),
{
    lemma_single_entry_layer(ae, k, v);
    assert(!is_sequence_value(v));
    assert(merged(ae[i].1, v) == Yaml::Mapping(merge_entries(entries_of(ae[i].1), entries_of(v))));
}

/// Merging a mapping is merging its first entries and then the rest: a layer
/// acts entry by entry, in its order.
pub proof fn law_split_layer(ae: Seq<(Yaml, Yaml)>, be: Seq<(Yaml, Yaml)>, n: int)
    requires
        0 <= n <= be.len(),
    ensures
        merge_entries(ae, be) == merge_entries(merge_entries(ae, be.take(n)), be.skip(n)),
    decreases n,
{
    if n == 0 {
        assert(be.take(0) =~= Seq::<(Yaml, Yaml)>::empty());
        assert(be.skip(0) =~= be);
    } else {
        let m = merge_entry(ae, be[0].0, be[0].1);
        let rest = be.subrange(1, be.len() as int);
        law_split_layer(m, rest, n - 1);
        let t = be.take(n);
        assert(t[0] == be[0]);
        assert(t.subrange(1, t.len() as int) =~= rest.take(n - 1));
        assert(rest.skip(n - 1) =~= be.skip(n));
    }
}

/// The entries of `be` whose keys `ae` does not hold, in `be`'s order.
pub open spec fn absent_entries(ae: Seq<(Yaml, Yaml)>, be: Seq<(Yaml, Yaml)>) -> Seq<(Yaml, Yaml)>
    decreases be.len(),
{
    if be.len() == 0 {
        Seq::empty()
    } else {
        let rest = absent_entries(ae, be.subrange(1, be.len() as int));
        if key_index(keys_of(ae), be[0].0) is None {
            seq![be[0]] + rest
        } else {
            rest
        }
    }
}

/// No key of `be` equals `k`.
pub open spec fn untouched_by(k: Yaml, be: Seq<(Yaml, Yaml)>) -> bool {
    forall|j: int| 0 <= j < be.len() ==> !yaml_eq(k, #[trigger] be[j].0)
}

/// `r` is what merging the entries `be` into `ae` gives, seen key by key:
/// `ae`'s keys keep their order and places, an entry whose key no key of
/// `be` equals is kept as it was, and after them come the entries of `be`
/// whose keys `ae` lacks, in `be`'s order and with `be`'s values.
pub open spec fn merged_in_key_order(ae: Seq<(Yaml, Yaml)>, be: Seq<(Yaml, Yaml)>, r: Seq<(Yaml, Yaml)>) -> bool {
    &&& r.len() == ae.len() + absent_entries(ae, be).len()
    &&& forall|p: int| 0 <= p < ae.len() ==> #[trigger] r[p].0 == ae[p].0
    &&& forall|p: int| 0 <= p < ae.len() && untouched_by(ae[p].0, be) ==> #[trigger] r[p] == ae[p]
    &&& r.skip(ae.len() as int) == absent_entries(ae, be)
}

proof fn lemma_absent_same_lookups(a1: Seq<(Yaml, Yaml)>, a2: Seq<(Yaml, Yaml)>, be: Seq<(Yaml, Yaml)>)
    requires
        forall|j: int| 0 <= j < be.len() ==>
            (key_index(keys_of(a1), #[trigger] be[j].0) is None) == (key_index(keys_of(a2), be[j].0) is None),
    ensures
        absent_entries(a1, be) == absent_entries(a2, be),
    decreases be.len(),
{
    if be.len() > 0 {
        let rest = be.subrange(1, be.len() as int);
        assert forall|j: int| 0 <= j < rest.len() implies
            (key_index(keys_of(a1), #[trigger] rest[j].0) is None) == (key_index(keys_of(a2), rest[j].0) is None) by {
            assert(rest[j] == be[j + 1]);
        }
        lemma_absent_same_lookups(a1, a2, rest);
    }
}

proof fn lemma_key_index_push(ae: Seq<(Yaml, Yaml)>, x: (Yaml, Yaml), k: Yaml)
    ensures
        (key_index(keys_of(ae.push(x)), k) is None) == (key_index(keys_of(ae), k) is None && !yaml_eq(x.0, k)),
{
    let m = ae.push(x);
    lemma_key_index_found(ae, k);
    lemma_key_index_found(m, k);
    if key_index(keys_of(ae), k) is Some {
        let i = choose|i: int| 0 <= i < ae.len() && yaml_eq(#[trigger] ae[i].0, k);
        assert(m[i] == ae[i]);
    }
    if yaml_eq(x.0, k) {
        assert(m[ae.len() as int] == x);
    }
    if key_index(keys_of(m), k) is Some {
        let i = choose|i: int| 0 <= i < m.len() && yaml_eq(#[trigger] m[i].0, k);
        if i < ae.len() {
            assert(m[i] == ae[i]);
        }
    }
}

/// Where no two keys of the later mapping are equal (as in every
/// `serde_yaml` mapping), merging keeps the earlier keys in order, leaves
/// alone every entry whose key no later key equals, and appends the later
/// entries with new keys, in order and unchanged.
pub proof fn law_merge_key_order(ae: Seq<(Yaml, Yaml)>, be: Seq<(Yaml, Yaml)>)
    requires
        unique_keys(be),
    ensures
        merged_in_key_order(ae, be, merge_entries(ae, be)),
    decreases be.len(),
{
    let r = merge_entries(ae, be);
    if be.len() == 0 {
        assert(r.skip(ae.len() as int) =~= absent_entries(ae, be));
    } else {
        let k = be[0].0;
        let v = be[0].1;
        let m = merge_entry(ae, k, v);
        let rest = be.subrange(1, be.len() as int);
        assert(r == merge_entries(m, rest));
        assert forall|i: int, j: int|
            0 <= i < rest.len() && 0 <= j < rest.len() && i != j implies
            !yaml_eq(#[trigger] rest[i].0, #[trigger] rest[j].0) by {
            assert(rest[i] == be[i + 1]);
            assert(rest[j] == be[j + 1]);
        }
        law_merge_key_order(m, rest);
        lemma_key_index_found(ae, k);
        assert forall|j: int| 0 <= j < rest.len() implies !yaml_eq(k, #[trigger] rest[j].0) by {
            assert(rest[j] == be[j + 1]);
        }
        assert(absent_entries(ae, be) == (if key_index(keys_of(ae), k) is None {
            seq![be[0]] + absent_entries(ae, rest)
        } else {
            absent_entries(ae, rest)
        }));
        match key_index(keys_of(ae), k) {
            Some(i) => {
                assert(keys_of(m) =~= keys_of(ae));
                lemma_absent_same_lookups(m, ae, rest);
                assert(yaml_eq(ae[i].0, be[0].0));
                assert forall|p: int| 0 <= p < ae.len() && untouched_by(ae[p].0, be) implies #[trigger] r[p] == ae[p] by {
                    assert(p != i);
                    assert(m[p] == ae[p]);
                    assert forall|j: int| 0 <= j < rest.len() implies !yaml_eq(ae[p].0, #[trigger] rest[j].0) by {
                        assert(rest[j] == be[j + 1]);
                    }
                }
                assert forall|p: int| 0 <= p < ae.len() implies #[trigger] r[p].0 == ae[p].0 by {
                    assert(r[p].0 == m[p].0);
                }
            },
            None => {
                assert(m == ae.push((k, v)));
                assert forall|j: int| 0 <= j < rest.len() implies
                    (key_index(keys_of(m), #[trigger] rest[j].0) is None) == (key_index(keys_of(ae), rest[j].0) is None) by {
                    lemma_key_index_push(ae, (k, v), rest[j].0);
                }
                lemma_absent_same_lookups(m, ae, rest);
                assert(untouched_by(m[ae.len() as int].0, rest));
                assert(r[ae.len() as int] == m[ae.len() as int]);
                assert(r.skip(ae.len() as int) =~= seq![be[0]] + r.skip(m.len() as int));
                assert forall|p: int| 0 <= p < ae.len() && untouched_by(ae[p].0, be) implies #[trigger] r[p] == ae[p] by {
                    assert(m[p] == ae[p]);
                    assert forall|j: int| 0 <= j < rest.len() implies !yaml_eq(ae[p].0, #[trigger] rest[j].0) by {
                        assert(rest[j] == be[j + 1]);
                    }
                }
                assert forall|p: int| 0 <= p < ae.len() implies #[trigger] r[p].0 == ae[p].0 by {
                    assert(r[p].0 == m[p].0);
                    assert(m[p] == ae[p]);
                }
            },
        }
    }
}

proof fn lemma_key_index_extends(k1: Seq<Yaml>, k2: Seq<Yaml>, k: Yaml)
    requires
        k1.len() <= k2.len(),
        forall|q: int| 0 <= q < k1.len() ==> #[trigger] k2[q] == k1[q],
        key_index(k1, k) is Some,
    ensures
        key_index(k2, k) == key_index(k1, k),
    decreases k2.len(),
{
    if k2.len() == k1.len() {
        assert(k2 =~= k1);
    } else {
        let d = k2.drop_last();
        assert forall|q: int| 0 <= q < k1.len() implies #[trigger] d[q] == k1[q] by {
            assert(d[q] == k2[q]);
        }
        lemma_key_index_extends(k1, d, k);
    }
}

/// In a layer with no two equal keys, take an entry `be[j]` whose key is
/// found in the earlier mapping at position `p`, and which no other key of
/// the layer touches there. The entry at `p` keeps its key, and its value
/// becomes: the two sequences joined, where both are sequences; the two
/// mappings merged, where both are mappings; otherwise the layer's value.
pub proof fn law_layer_value_at_key(ae: Seq<(Yaml, Yaml)>, be: Seq<(Yaml, Yaml)>, j: int, p: int)
    requires
        unique_keys(be),
        0 <= j < be.len(),
        key_index(keys_of(ae), be[j].0) == Some(p),
        forall|l: int| 0 <= l < be.len() && l != j ==> !yaml_eq(ae[p].0, #[trigger] be[l].0),
    ensures
        ({
            let r = merge_entries(ae, be);
            let (old_v, new_v) = (ae[p].1, be[j].1);
            &&& 0 <= p < ae.len() <= r.len()
            &&& r[p].0 == ae[p].0
            &&& is_sequence_value(old_v) && is_sequence_value(new_v)
                ==> r[p].1 == Yaml::Sequence(sequence_items(old_v) + sequence_items(new_v))
            &&& old_v is Mapping && new_v is Mapping ==> r[p].1 == merged(old_v, new_v)
            &&& old_v is Mapping && new_v is Mapping && unique_keys(entries_of(new_v)) ==> {
                &&& r[p].1 is Mapping
                &&& merged_in_key_order(entries_of(old_v), entries_of(new_v), entries_of(r[p].1))
            }
            &&& !(is_sequence_value(old_v) && is_sequence_value(new_v)) && !(old_v is Mapping && new_v is Mapping)
                ==> r[p].1 == new_v
        }),
{
    let k = be[j].0;
    let v = be[j].1;
    lemma_key_index_found(ae, k);
    let front = be.take(j);
    assert forall|x: int, y: int|
        0 <= x < front.len() && 0 <= y < front.len() && x != y implies
        !yaml_eq(#[trigger] front[x].0, #[trigger] front[y].0) by {
        assert(front[x] == be[x]);
        assert(front[y] == be[y]);
    }
    law_split_layer(ae, be, j);
    law_merge_key_order(ae, front);
    let cur = merge_entries(ae, front);
    assert(untouched_by(ae[p].0, front)) by {
        assert forall|l: int| 0 <= l < front.len() implies !yaml_eq(ae[p].0, #[trigger] front[l].0) by {
            assert(front[l] == be[l]);
        }
    }
    assert(cur[p] == ae[p]);
    assert forall|q: int| 0 <= q < keys_of(ae).len() implies #[trigger] keys_of(cur)[q] == keys_of(ae)[q] by {
        assert(cur[q].0 == ae[q].0);
    }
    lemma_key_index_extends(keys_of(ae), keys_of(cur), k);
    let back = be.skip(j);
    let rest = back.subrange(1, back.len() as int);
    assert(back[0] == be[j]);
    let c2 = merge_entry(cur, k, v);
    assert(merge_entries(cur, back) == merge_entries(c2, rest));
    assert forall|x: int, y: int|
        0 <= x < rest.len() && 0 <= y < rest.len() && x != y implies
        !yaml_eq(#[trigger] rest[x].0, #[trigger] rest[y].0) by {
        assert(rest[x] == be[j + 1 + x]);
        assert(rest[y] == be[j + 1 + y]);
    }
    law_merge_key_order(c2, rest);
    assert(c2[p].0 == ae[p].0);
    assert(untouched_by(c2[p].0, rest)) by {
        assert forall|l: int| 0 <= l < rest.len() implies !yaml_eq(c2[p].0, #[trigger] rest[l].0) by {
            assert(rest[l] == be[j + 1 + l]);
        }
    }
    let r = merge_entries(ae, be);
    assert(r == merge_entries(c2, rest));
    assert(r[p] == c2[p]);
    if !(is_sequence_value(ae[p].1) && is_sequence_value(v)) && !(ae[p].1 is Mapping && v is Mapping) {
        assert(merged(ae[p].1, v) == v);
    }
    if ae[p].1 is Mapping && v is Mapping {
        assert(!is_sequence_value(v));
        if unique_keys(entries_of(v)) {
            law_merge_key_order(entries_of(ae[p].1), entries_of(v));
        }
    }
}

proof fn lemma_absent_from_empty(be: Seq<(Yaml, Yaml)>)
    ensures
        absent_entries(Seq::empty(), be) == be,
    decreases be.len(),
{
    if be.len() > 0 {
        let rest = be.subrange(1, be.len() as int);
        lemma_absent_from_empty(rest);
        assert(keys_of(Seq::<(Yaml, Yaml)>::empty()) =~= Seq::<Yaml>::empty());
        assert(seq![be[0]] + rest =~= be);
    }
}

/// A mapping (with no two equal keys, as in every `serde_yaml` mapping)
/// merged into an empty mapping gives it back unchanged.
pub proof fn law_empty_base_gives_layer(be: Seq<(Yaml, Yaml)>)
    requires
        unique_keys(be),
    ensures
        merged(Yaml::Mapping(Seq::empty()), Yaml::Mapping(be)) == Yaml::Mapping(be),
{
    law_merge_key_order(Seq::empty(), be);
    lemma_absent_from_empty(be);
    let r = merge_entries(Seq::empty(), be);
    assert(r.skip(0) =~= r);
}

proof fn lemma_merge_entry_shape(ae: Seq<(Yaml, Yaml)>, k: Yaml, v: Yaml)
    ensures
        ({
            let r = merge_entry(ae, k, v);
            &&& r.len() == ae.len() || r.len() == ae.len() + 1
            &&& forall|j: int| 0 <= j < ae.len() ==> #[trigger] r[j].0 == ae[j].0
            &&& r.len() == ae.len() + 1 ==> r[ae.len() as int].0 == k
            &&& r.len() == ae.len() ==> exists|j: int| 0 <= j < r.len() && yaml_eq(#[trigger] r[j].0, k)
        }),
{
    lemma_key_index_found(ae, k);
    if let Some(i) = key_index(keys_of(ae), k) {
        let r = merge_entry(ae, k, v);
        assert(keys_of(ae)[i] == ae[i].0);
        assert(r[i].0 == ae[i].0);
        assert(yaml_eq(r[i].0, k));
    }
}

/// Merging keeps every earlier key in its place and adds keys only at the
/// end, each of them a key of the later mapping; every key of the later
/// mapping ends up in the result, as itself or as an earlier key equal to it.
pub proof fn law_keys_kept(ae: Seq<(Yaml, Yaml)>, be: Seq<(Yaml, Yaml)>)
    ensures
        ({
            let r = merge_entries(ae, be);
            &&& r.len() >= ae.len()
            &&& forall|j: int| 0 <= j < ae.len() ==> #[trigger] r[j].0 == ae[j].0
            &&& forall|j: int| ae.len() <= j < r.len() ==>
                exists|i: int| 0 <= i < be.len() && #[trigger] r[j].0 == #[trigger] be[i].0
            &&& forall|i: int| 0 <= i < be.len() ==>
                exists|j: int| 0 <= j < r.len() && (r[j].0 == #[trigger] be[i].0 || yaml_eq(#[trigger] r[j].0, be[i].0))
        }),
    decreases be.len(),
{
    if be.len() > 0 {
        let m = merge_entry(ae, be[0].0, be[0].1);
        let rest = be.subrange(1, be.len() as int);
        let r = merge_entries(ae, be);
        lemma_merge_entry_shape(ae, be[0].0, be[0].1);
        law_keys_kept(m, rest);
        assert(r == merge_entries(m, rest));
        assert forall|j: int| 0 <= j < ae.len() implies #[trigger] r[j].0 == ae[j].0 by {
            assert(r[j].0 == m[j].0);
        }
        assert forall|j: int| ae.len() <= j < r.len() implies
            exists|i: int| 0 <= i < be.len() && #[trigger] r[j].0 == #[trigger] be[i].0 by {
            if j < m.len() {
                assert(r[j].0 == m[j].0);
                assert(r[j].0 == be[0].0);
            } else {
                let i = choose|i: int| 0 <= i < rest.len() && #[trigger] r[j].0 == #[trigger] rest[i].0;
                assert(rest[i] == be[i + 1]);
            }
        }
        assert forall|i: int| 0 <= i < be.len() implies
            exists|j: int| 0 <= j < r.len() && (r[j].0 == #[trigger] be[i].0 || yaml_eq(#[trigger] r[j].0, be[i].0)) by {
            if i == 0 {
                if m.len() == ae.len() + 1 {
                    assert(r[ae.len() as int].0 == m[ae.len() as int].0);
                } else {
                    let j = choose|j: int| 0 <= j < m.len() && yaml_eq(#[trigger] m[j].0, be[0].0);
                    assert(r[j].0 == m[j].0);
                }
            } else {
                assert(rest[i - 1] == be[i]);
                let j = choose|j: int| 0 <= j < r.len() && (r[j].0 == #[trigger] rest[i - 1].0 || yaml_eq(#[trigger] r[j].0, rest[i - 1].0));
            }
        }
    }
}

/// Merges `b` into `a`.
pub fn merge_yaml(a: &mut serde_yaml::Value, b: serde_yaml::Value)
    ensures
        yaml_model(*final(a)) == merged(yaml_model(*old(a)), yaml_model(b)),
        yaml_model(*old(a)) is Mapping && yaml_model(b) is Mapping ==> {
            &&& unique_keys(entries_of(yaml_model(b)))
            &&& forall|i: int| 0 <= i < entries_of(yaml_model(*old(a))).len()
                ==> key_behaves(#[trigger] entries_of(yaml_model(*old(a)))[i].0)
            &&& forall|i: int| 0 <= i < entries_of(yaml_model(b)).len()
                ==> key_behaves(#[trigger] entries_of(yaml_model(b))[i].0)
            &&& merged_in_key_order(
                entries_of(yaml_model(*old(a))),
                entries_of(yaml_model(b)),
                entries_of(yaml_model(*final(a))),
            )
        },
        yaml_model(*old(a)) == Yaml::Mapping(Seq::empty()) && yaml_model(b) is Mapping
            ==> yaml_model(*final(a)) == yaml_model(b),
    decreases yaml_model(b), 0int,
{
    if is_mapping_node(a) && is_mapping_node(&b) {
        let ghost bm = yaml_model(b);
        let ghost be = entries_of(bm);
        let ghost ae = entries_of(yaml_model(*a));
        let mut entries = mapping_entries(b);
        assert(be.subrange(0, be.len() as int) =~= be);
        proof {
            law_merge_key_order(ae, be);
            if ae.len() == 0 {
                assert(ae =~= Seq::<(Yaml, Yaml)>::empty());
                law_empty_base_gives_layer(be);
            }
        }
        while entries.len() > 0
            invariant
                bm == Yaml::Mapping(be),
                bm == yaml_model(b),
                entries@.len() <= be.len(),
                pairs_model(entries@) == be.subrange(be.len() - entries@.len(), be.len() as int),
                yaml_model(*a) is Mapping,
                merge_entries(entries_of(yaml_model(*a)), pairs_model(entries@)) == merge_entries(ae, be),
            decreases entries.len(),
        {
            let ghost j = be.len() - entries@.len();
            let ghost rest = pairs_model(entries@);
            assert(rest[0] == be[j]);
            let (k, v) = entries.remove(0);
            assert(pairs_model(entries@) =~= rest.subrange(1, rest.len() as int));
            assert(rest.subrange(1, rest.len() as int) =~= be.subrange(j + 1, be.len() as int));
            assert(decreases_to!(bm => bm->Mapping_0));
            assert(decreases_to!(be => be[j]));
            assert(decreases_to!(be[j] => be[j].1));
            assert(yaml_model(v) == be[j].1);
            assert(decreases_to!(bm => yaml_model(v)));
            merge_entry_into(a, k, v);
        }
        assert(pairs_model(entries@) =~= Seq::<(Yaml, Yaml)>::empty());
    } else {
        *a = b;
    }
}

/// Merges the entry `k: v` into the mapping `a`.
fn merge_entry_into(a: &mut serde_yaml::Value, k: serde_yaml::Value, v: serde_yaml::Value)
    requires
        yaml_model(*old(a)) is Mapping,
    ensures
        yaml_model(*final(a)) == Yaml::Mapping(
            merge_entry(entries_of(yaml_model(*old(a))), yaml_model(k), yaml_model(v)),
        ),
    decreases yaml_model(v), 1int,
{
    let ghost ae = entries_of(yaml_model(*a));
    proof {
        lemma_key_index_found(ae, yaml_model(k));
    }
    if is_sequence_node(&v) && mapping_contains_key(a, &k) && is_sequence_node(mapping_value(a, &k)) {
        let mut items = sequence_node_items(mapping_value(a, &k));
        let mut more = sequence_node_items(&v);
        let ghost i = key_index(keys_of(ae), yaml_model(k))->0;
        items.append(&mut more);
        assert(values_model(items@) =~= sequence_items(ae[i].1) + sequence_items(yaml_model(v)));
        mapping_set_value(a, &k, sequence_node(items));
    } else if !mapping_contains_key(a, &k) {
        mapping_push_entry(a, k, v);
    } else {
        let ghost i = key_index(keys_of(ae), yaml_model(k))->0;
        let mut cur = mapping_take_value(a, &k);
        assert(keys_of(entries_of(yaml_model(*a))) =~= keys_of(ae));
        merge_yaml(&mut cur, v);
        mapping_set_value(a, &k, cur);
        assert(entries_of(yaml_model(*a)) =~= ae.update(i, (ae[i].0, merged(ae[i].1, yaml_model(v)))));
    }
}

} // verus!
