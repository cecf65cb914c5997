//! A small map keyed by string identifiers, held as a vector of entries with
//! distinct keys. The order of the entries carries no meaning.

use vstd::prelude::*;

verus! {

/// One key and its value.
#[derive(Clone, Debug)]
pub struct Entry<V> {
    pub key: String,
    pub value: V,
}

/// Index of the first entry with key `k`, or -1.
pub open spec fn key_index<V>(es: Seq<Entry<V>>, k: Seq<char>) -> int
    decreases es.len(),
{
    if es.len() == 0 {
        -1
    } else if es.last().key@ == k && key_index(es.drop_last(), k) < 0 {
        es.len() - 1
    } else {
        key_index(es.drop_last(), k)
    }
}

/// The value stored under `k`, if any.
pub open spec fn lookup<V>(es: Seq<Entry<V>>, k: Seq<char>) -> Option<V> {
    let i = key_index(es, k);
    if 0 <= i < es.len() {
        Some(es[i].value)
    } else {
        None
    }
}

/// No two entries share a key.
pub open spec fn keys_distinct<V>(es: Seq<Entry<V>>) -> bool {
    forall|i: int, j: int|
        0 <= i < es.len() && 0 <= j < es.len() && i != j ==> es[i].key@ != es[j].key@
}

/// The keys of the table, as a set.
pub open spec fn key_set<V>(es: Seq<Entry<V>>) -> Set<Seq<char>> {
    Set::new(|k: Seq<char>| exists|i: int| 0 <= i < es.len() && es[i].key@ == k)
}

proof fn lemma_key_index<V>(es: Seq<Entry<V>>, k: Seq<char>)
    ensures
        -1 <= key_index(es, k) < es.len(),
        key_index(es, k) >= 0 ==> es[key_index(es, k)].key@ == k,
        key_index(es, k) >= 0 ==> forall|j: int| 0 <= j < key_index(es, k) ==> es[j].key@ != k,
        key_index(es, k) < 0 ==> forall|j: int| 0 <= j < es.len() ==> es[j].key@ != k,
    decreases es.len(),
{
    if es.len() > 0 {
        let init = es.drop_last();
        lemma_key_index(init, k);
        assert(forall|j: int| 0 <= j < init.len() ==> init[j] == es[j]);
    }
}

/// In a table with distinct keys, the entry found at `i` is the one `lookup`
/// gives for its key.
pub proof fn lemma_lookup_at<V>(es: Seq<Entry<V>>, i: int)
    requires
        keys_distinct(es),
        0 <= i < es.len(),
    ensures
        key_index(es, es[i].key@) == i,
        lookup(es, es[i].key@) == Some(es[i].value),
{
    lemma_key_index(es, es[i].key@);
}

/// `lookup` is none exactly where no entry has the key.
pub proof fn lemma_lookup_none<V>(es: Seq<Entry<V>>, k: Seq<char>)
    ensures
        lookup(es, k) is None <==> forall|j: int| 0 <= j < es.len() ==> es[j].key@ != k,
{
    lemma_key_index(es, k);
}

/// A lookup by any key after replacing the value of entry `i`.
pub proof fn lemma_lookup_update<V>(es: Seq<Entry<V>>, i: int, v: V, k: Seq<char>)
    requires
        keys_distinct(es),
        0 <= i < es.len(),
    ensures
        keys_distinct(es.update(i, Entry { key: es[i].key, value: v })),
        lookup(es.update(i, Entry { key: es[i].key, value: v }), k) == if k == es[i].key@ {
            Some(v)
        } else {
            lookup(es, k)
        },
{
    let es2 = es.update(i, Entry { key: es[i].key, value: v });
    lemma_key_index(es, k);
    lemma_key_index(es2, k);
    if k == es[i].key@ {
        lemma_lookup_at(es2, i);
    } else {
        let a = key_index(es, k);
        let b = key_index(es2, k);
        if a >= 0 {
            lemma_lookup_at(es2, a);
        } else if b >= 0 {
            assert(es2[b].key@ == es[b].key@);
        }
    }
}

/// A lookup by any key after adding an entry with a new key.
pub proof fn lemma_lookup_push<V>(es: Seq<Entry<V>>, e: Entry<V>, k: Seq<char>)
    requires
        keys_distinct(es),
        lookup(es, e.key@) is None,
    ensures
        keys_distinct(es.push(e)),
        lookup(es.push(e), k) == if k == e.key@ {
            Some(e.value)
        } else {
            lookup(es, k)
        },
{
    lemma_lookup_none(es, e.key@);
    let es2 = es.push(e);
    assert(es2.drop_last() =~= es);
    lemma_key_index(es, k);
    if k == e.key@ {
        lemma_lookup_at(es2, es.len() as int);
    }
}

/// A lookup by any key after removing entry `i`.
pub proof fn lemma_lookup_remove<V>(es: Seq<Entry<V>>, i: int, k: Seq<char>)
    requires
        keys_distinct(es),
        0 <= i < es.len(),
    ensures
        keys_distinct(es.remove(i)),
        lookup(es.remove(i), k) == if k == es[i].key@ {
            None
        } else {
            lookup(es, k)
        },
{
    let es2 = es.remove(i);
    assert forall|a: int, b: int|
        0 <= a < es2.len() && 0 <= b < es2.len() && a != b implies es2[a].key@ != es2[b].key@ by {
        let a1 = if a < i { a } else { a + 1 };
        let b1 = if b < i { b } else { b + 1 };
        assert(es2[a] == es[a1] && es2[b] == es[b1]);
    }
    lemma_key_index(es2, k);
    lemma_key_index(es, k);
    if k == es[i].key@ {
        lemma_lookup_none(es2, k);
        assert forall|j: int| 0 <= j < es2.len() implies es2[j].key@ != k by {
            let j1 = if j < i { j } else { j + 1 };
            assert(es2[j] == es[j1]);
        }
    } else {
        let a = key_index(es, k);
        if a >= 0 {
            let a2 = if a < i { a } else { a - 1 };
            assert(es2[a2] == es[a]);
            lemma_lookup_at(es2, a2);
        } else {
            assert forall|j: int| 0 <= j < es2.len() implies es2[j].key@ != k by {
                let j1 = if j < i { j } else { j + 1 };
                assert(es2[j] == es[j1]);
            }
            lemma_lookup_none(es2, k);
        }
    }
}

/// Index of the entry with key `k`, if any.
pub fn find_key<V>(es: &Vec<Entry<V>>, k: &String) -> (r: Option<usize>)
    requires
        keys_distinct(es@),
    ensures
        r is None ==> lookup(es@, k@) is None,
        r is Some ==> r->0 < es@.len() && es@[r->0 as int].key@ == k@ && lookup(es@, k@) == Some(
            es@[r->0 as int].value,
        ),
{
    let mut i: usize = 0;
    while i < es.len()
        invariant
            i <= es@.len(),
            keys_distinct(es@),
            forall|j: int| 0 <= j < i ==> es@[j].key@ != k@,
        decreases es@.len() - i,
    {
        if es[i].key == *k {
            proof {
                lemma_lookup_at(es@, i as int);
            }
            return Some(i);
        }
        i = i + 1;
    }
    proof {
        lemma_lookup_none(es@, k@);
    }
    None
}

/// Removes the entry with key `k` and returns its value, if there is one.
pub fn take_key<V>(es: &mut Vec<Entry<V>>, k: &String) -> (r: Option<V>)
    requires
        keys_distinct(old(es)@),
    ensures
        keys_distinct(final(es)@),
        r == lookup(old(es)@, k@),
        removed_at(old(es)@, final(es)@, k@),
{
    match find_key(es, k) {
        None => {
            proof {
                assert forall|k2: Seq<char>| #[trigger]
                    lookup(es@, k2) == if k2 == k@ {
                        None
                    } else {
                        lookup(es@, k2)
                    } by {}
            }
            None
        },
        Some(i) => {
            let ghost before = es@;
            let e = es.remove(i);
            proof {
                assert forall|k2: Seq<char>| #[trigger]
                    lookup(es@, k2) == if k2 == k@ {
                        None
                    } else {
                        lookup(before, k2)
                    } by {
                    lemma_lookup_remove(before, i as int, k2);
                }
                lemma_lookup_remove(before, i as int, k@);
            }
            Some(e.value)
        },
    }
}

/// Stores `v` under `k`, replacing any value there.
pub fn put_key<V>(es: &mut Vec<Entry<V>>, k: String, v: V)
    requires
        keys_distinct(old(es)@),
    ensures
        keys_distinct(final(es)@),
        put_at(old(es)@, final(es)@, k@, v),
{
    let ghost before = es@;
    let ghost kv = k@;
    match find_key(es, &k) {
        Some(i) => {
            let old_e = es.remove(i);
            es.insert(i, Entry { key: old_e.key, value: v });
            assert(es@ =~= before.update(i as int, Entry { key: before[i as int].key, value: v }));
            proof {
                assert forall|k2: Seq<char>| #[trigger]
                    lookup(es@, k2) == if k2 == kv {
                        Some(v)
                    } else {
                        lookup(before, k2)
                    } by {
                    lemma_lookup_update(before, i as int, v, k2);
                }
                lemma_lookup_update(before, i as int, v, kv);
            }
        },
        None => {
            let e = Entry { key: k, value: v };
            es.push(e);
            proof {
                assert forall|k2: Seq<char>| #[trigger]
                    lookup(es@, k2) == if k2 == kv {
                        Some(v)
                    } else {
                        lookup(before, k2)
                    } by {
                    lemma_lookup_push(before, e, k2);
                }
                lemma_lookup_push(before, e, kv);
            }
        },
    }
}

} // verus!

verus! {

/// The table as a map from keys to values.
pub open spec fn table_map<V>(es: Seq<Entry<V>>) -> Map<Seq<char>, V> {
    Map::new(|k: Seq<char>| lookup(es, k) is Some, |k: Seq<char>| lookup(es, k)->0)
}

/// A table of lists as a map from keys to sequences.
pub open spec fn list_map<T>(es: Seq<Entry<Vec<T>>>) -> Map<Seq<char>, Seq<T>> {
    Map::new(|k: Seq<char>| lookup(es, k) is Some, |k: Seq<char>| lookup(es, k)->0@)
}

/// Two tables that agree on every lookup but `k`, where the second holds `v`.
pub open spec fn put_at<V>(before: Seq<Entry<V>>, after: Seq<Entry<V>>, k: Seq<char>, v: V) -> bool {
    forall|k2: Seq<char>| #[trigger]
        lookup(after, k2) == if k2 == k {
            Some(v)
        } else {
            lookup(before, k2)
        }
}

/// Two tables that agree on every lookup but `k`, which the second lacks.
pub open spec fn removed_at<V>(before: Seq<Entry<V>>, after: Seq<Entry<V>>, k: Seq<char>) -> bool {
    forall|k2: Seq<char>| #[trigger]
        lookup(after, k2) == if k2 == k {
            None
        } else {
            lookup(before, k2)
        }
}

pub proof fn lemma_map_put<V>(before: Seq<Entry<V>>, after: Seq<Entry<V>>, k: Seq<char>, v: V)
    requires
        put_at(before, after, k, v),
    ensures
        table_map(after) == table_map(before).insert(k, v),
{
    assert(table_map(after) =~= table_map(before).insert(k, v));
}

pub proof fn lemma_list_map_put<T>(
    before: Seq<Entry<Vec<T>>>,
    after: Seq<Entry<Vec<T>>>,
    k: Seq<char>,
    v: Vec<T>,
)
    requires
        put_at(before, after, k, v),
    ensures
        list_map(after) == list_map(before).insert(k, v@),
{
    assert(list_map(after) =~= list_map(before).insert(k, v@));
}

pub proof fn lemma_list_map_remove<T>(
    before: Seq<Entry<Vec<T>>>,
    after: Seq<Entry<Vec<T>>>,
    k: Seq<char>,
)
    requires
        removed_at(before, after, k),
    ensures
        list_map(after) == list_map(before).remove(k),
{
    assert(list_map(after) =~= list_map(before).remove(k));
}

} // verus!
