//! Sequences of named entries, keyed by distinct names.

use vstd::prelude::*;

verus! {

/// Names of the entries are distinct.
pub open spec fn keys_distinct<V>(o: Seq<(Seq<char>, V)>) -> bool {
    forall|i: int, j: int| 0 <= i < j < o.len() ==> o[i].0 != o[j].0
}

/// Index of the last entry named `name`, or -1.
pub open spec fn find_key<V>(o: Seq<(Seq<char>, V)>, name: Seq<char>) -> int
    decreases o.len(),
{
    if o.len() == 0 {
        -1
    } else if o.last().0 == name {
        o.len() - 1
    } else {
        find_key(o.drop_last(), name)
    }
}

/// The entries with `name` set to `v`, replacing an existing entry.
pub open spec fn upsert_key<V>(o: Seq<(Seq<char>, V)>, name: Seq<char>, v: V) -> Seq<(Seq<char>, V)> {
    let i = find_key(o, name);
    if i >= 0 {
        o.update(i, (name, v))
    } else {
        o.push((name, v))
    }
}

/// The entries without the one named `name`.
pub open spec fn remove_key<V>(o: Seq<(Seq<char>, V)>, name: Seq<char>) -> Seq<(Seq<char>, V)> {
    let i = find_key(o, name);
    if i >= 0 {
        o.remove(i)
    } else {
        o
    }
}

/// The value stored under `name`, if any.
pub open spec fn lookup_key<V>(o: Seq<(Seq<char>, V)>, name: Seq<char>) -> Option<V> {
    let i = find_key(o, name);
    if i >= 0 {
        Some(o[i].1)
    } else {
        None
    }
}

pub proof fn lemma_find_key<V>(o: Seq<(Seq<char>, V)>, name: Seq<char>)
    ensures
        -1 <= find_key(o, name) < o.len(),
        find_key(o, name) >= 0 ==> o[find_key(o, name)].0 == name,
        find_key(o, name) == -1 ==> forall|i: int| 0 <= i < o.len() ==> #[trigger] o[i].0 != name,
    decreases o.len(),
{
    if o.len() > 0 {
        lemma_find_key(o.drop_last(), name);
        if find_key(o, name) == -1 {
            assert forall|i: int| 0 <= i < o.len() implies #[trigger] o[i].0 != name by {
                if i < o.len() - 1 {
                    assert(o[i] == o.drop_last()[i]);
                }
            }
        }
    }
}

/// In a sequence with distinct names, the entry found is the only one with
/// that name.
pub proof fn lemma_find_key_unique<V>(o: Seq<(Seq<char>, V)>, name: Seq<char>, j: int)
    requires
        keys_distinct(o),
        0 <= j < o.len(),
        o[j].0 == name,
    ensures
        find_key(o, name) == j,
{
    lemma_find_key(o, name);
    let i = find_key(o, name);
    if i != j {
        if i < j {
            assert(o[i].0 != o[j].0);
        } else {
            assert(o[j].0 != o[i].0);
        }
    }
}

/// Upserting and removing keep names distinct; afterwards the name maps to
/// the new value, or to nothing.
pub proof fn lemma_upsert_remove<V>(o: Seq<(Seq<char>, V)>, name: Seq<char>, v: V)
    requires
        keys_distinct(o),
    ensures
        keys_distinct(upsert_key(o, name, v)),
        keys_distinct(remove_key(o, name)),
        lookup_key(upsert_key(o, name, v), name) == Some(v),
        lookup_key(remove_key(o, name), name) is None,
{
    lemma_find_key(o, name);
    let u = upsert_key(o, name, v);
    let r = remove_key(o, name);
    let i = find_key(o, name);
    assert(keys_distinct(u)) by {
        assert forall|a: int, b: int| 0 <= a < b < u.len() implies u[a].0 != u[b].0 by {
            if i >= 0 {
                if a != i && b != i {
                    assert(o[a].0 != o[b].0);
                }
            } else {
                if b < o.len() {
                    assert(o[a].0 != o[b].0);
                }
            }
        }
    }
    assert(keys_distinct(r)) by {
        assert forall|a: int, b: int| 0 <= a < b < r.len() implies r[a].0 != r[b].0 by {
            if i >= 0 {
                let a0 = if a < i { a } else { a + 1 };
                let b0 = if b < i { b } else { b + 1 };
                assert(r[a] == o[a0] && r[b] == o[b0]);
                assert(o[a0].0 != o[b0].0);
            } else {
                assert(o[a].0 != o[b].0);
            }
        }
    }
    if i >= 0 {
        lemma_find_key_unique(u, name, i);
    } else {
        lemma_find_key_unique(u, name, o.len() as int);
    }
    lemma_find_key(r, name);
    if find_key(r, name) >= 0 {
        let k = find_key(r, name);
        if i >= 0 {
            let k0 = if k < i { k } else { k + 1 };
            assert(r[k] == o[k0]);
            assert(o[k0].0 == name);
            if k0 < i {
                assert(o[k0].0 != o[i].0);
            } else {
                assert(o[i].0 != o[k0].0);
            }
        } else {
            assert(r[k] == o[k]);
        }
    }
}

/// Setting or removing one name leaves what the other names map to.
pub proof fn lemma_lookup_other<V>(o: Seq<(Seq<char>, V)>, name: Seq<char>, v: V, other: Seq<char>)
    requires
        keys_distinct(o),
        other != name,
    ensures
        lookup_key(upsert_key(o, name, v), other) == lookup_key(o, other),
        lookup_key(remove_key(o, name), other) == lookup_key(o, other),
{
    lemma_upsert_remove(o, name, v);
    lemma_find_key(o, name);
    lemma_find_key(o, other);
    let u = upsert_key(o, name, v);
    let r = remove_key(o, name);
    let i = find_key(o, name);
    let j = find_key(o, other);
    lemma_find_key(u, other);
    lemma_find_key(r, other);
    if j >= 0 {
        assert(j != i);
        assert(u[j] == o[j]);
        lemma_find_key_unique(u, other, j);
        if i >= 0 {
            let j2 = if j < i { j } else { j - 1 };
            assert(r[j2] == o[j]);
            lemma_find_key_unique(r, other, j2);
        } else {
            lemma_find_key_unique(r, other, j);
        }
    } else {
        if find_key(u, other) >= 0 {
            let k = find_key(u, other);
            if k < o.len() && k != i {
                assert(u[k] == o[k]);
            }
        }
        if find_key(r, other) >= 0 {
            let k = find_key(r, other);
            if i >= 0 {
                let k0 = if k < i { k } else { k + 1 };
                assert(r[k] == o[k0]);
            } else {
                assert(r[k] == o[k]);
            }
        }
    }
}

} // verus!
