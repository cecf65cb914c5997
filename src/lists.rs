//! Operations on a table of id-keyed lists, as the state store keeps them
//! (parts per message, prompts per session, messages per session).

use vstd::prelude::*;
use crate::ordered::{
    find_id, Identified, id_index, lemma_upsert_sorted, lemma_without_id, remove_by_id,
    sorted_by_id, upsert_by_id, upsert_sorted, without_id,
};
use crate::table::{
    Entry, keys_distinct, lemma_list_map_put, list_map, lookup, put_at, put_key, removed_at,
    take_key,
};

verus! {

/// The list under `k`, or the empty list.
pub open spec fn list_or_empty<T>(m: Map<Seq<char>, Seq<T>>, k: Seq<char>) -> Seq<T> {
    if m.contains_key(k) {
        m[k]
    } else {
        Seq::empty()
    }
}

/// Every list of the map is sorted by id.
pub open spec fn all_sorted<T: Identified>(m: Map<Seq<char>, Seq<T>>) -> bool {
    forall|k: Seq<char>| #[trigger] m.contains_key(k) ==> sorted_by_id(m[k])
}

/// Replace-by-id, else append at the end.
pub open spec fn upsert_back<T: Identified>(s: Seq<T>, x: T) -> Seq<T> {
    let i = id_index(s, x.id_view(), 0);
    if i >= 0 {
        s.update(i, x)
    } else {
        s.push(x)
    }
}

/// Replace-by-id, else insert at the front.
pub open spec fn upsert_front<T: Identified>(s: Seq<T>, x: T) -> Seq<T> {
    let i = id_index(s, x.id_view(), 0);
    if i >= 0 {
        s.update(i, x)
    } else {
        s.insert(0, x)
    }
}

/// Within the list under `k`, removes the records with id `id`; nothing
/// where there is no list under `k`.
pub open spec fn removed_in<T: Identified>(m: Map<Seq<char>, Seq<T>>, k: Seq<char>, id: Seq<char>) -> Map<
    Seq<char>,
    Seq<T>,
> {
    if m.contains_key(k) {
        m.insert(k, without_id(m[k], id))
    } else {
        m
    }
}

proof fn lemma_take_then_put<V>(
    before: Seq<Entry<V>>,
    mid: Seq<Entry<V>>,
    after: Seq<Entry<V>>,
    k: Seq<char>,
    v: V,
)
    requires
        removed_at(before, mid, k),
        put_at(mid, after, k, v),
    ensures
        put_at(before, after, k, v),
{
    assert forall|k2: Seq<char>| #[trigger]
        lookup(after, k2) == if k2 == k {
            Some(v)
        } else {
            lookup(before, k2)
        } by {
        assert(lookup(after, k2) == if k2 == k {
            Some(v)
        } else {
            lookup(mid, k2)
        });
        assert(lookup(mid, k2) == if k2 == k {
            None
        } else {
            lookup(before, k2)
        });
    }
}

/// Sorted upsert of `x` into the list under `k` (made empty where absent).
pub fn table_upsert_sorted<T: Identified>(es: &mut Vec<Entry<Vec<T>>>, k: String, x: T)
    requires
        keys_distinct(old(es)@),
        all_sorted(list_map(old(es)@)),
    ensures
        keys_distinct(final(es)@),
        all_sorted(list_map(final(es)@)),
        list_map(final(es)@) == list_map(old(es)@).insert(
            k@,
            upsert_sorted(list_or_empty(list_map(old(es)@), k@), x),
        ),
{
    let ghost before = es@;
    let ghost m = list_map(before);
    let mut list = match take_key(es, &k) {
        Some(l) => l,
        None => Vec::new(),
    };
    assert(list@ == list_or_empty(m, k@));
    proof {
        if !m.contains_key(k@) {
            assert(sorted_by_id(list@));
        }
        lemma_upsert_sorted(list@, x);
    }
    let ghost middle = es@;
    upsert_by_id(&mut list, x);
    let ghost kv = k@;
    put_key(es, k, list);
    proof {
        lemma_take_then_put(before, middle, es@, kv, list);
        lemma_list_map_put(before, es@, kv, list);
    }
}

/// Replace-by-id, else append, of `x` in the list under `k` (made empty where
/// absent).
pub fn table_upsert_back<T: Identified>(es: &mut Vec<Entry<Vec<T>>>, k: String, x: T)
    requires
        keys_distinct(old(es)@),
    ensures
        keys_distinct(final(es)@),
        list_map(final(es)@) == list_map(old(es)@).insert(
            k@,
            upsert_back(list_or_empty(list_map(old(es)@), k@), x),
        ),
{
    let ghost before = es@;
    let mut list = match take_key(es, &k) {
        Some(l) => l,
        None => Vec::new(),
    };
    let ghost middle = es@;
    let ghost lv = list@;
    match find_id(&list, x.id_ref()) {
        Some(i) => {
            list.remove(i);
            list.insert(i, x);
            assert(list@ =~= lv.update(i as int, x));
        },
        None => {
            list.push(x);
        },
    }
    let ghost kv = k@;
    put_key(es, k, list);
    proof {
        lemma_take_then_put(before, middle, es@, kv, list);
        lemma_list_map_put(before, es@, kv, list);
    }
}

/// Removes the records with id `id` from the list under `k`, if there is one.
pub fn table_remove_id<T: Identified>(es: &mut Vec<Entry<Vec<T>>>, k: &String, id: &String)
    requires
        keys_distinct(old(es)@),
    ensures
        keys_distinct(final(es)@),
        all_sorted(list_map(old(es)@)) ==> all_sorted(list_map(final(es)@)),
        list_map(final(es)@) == removed_in(list_map(old(es)@), k@, id@),
{
    let ghost before = es@;
    let ghost m = list_map(before);
    match take_key(es, k) {
        None => {
            assert(removed_at(before, es@, k@));
            assert(list_map(es@) =~= m);
        },
        Some(list) => {
            let ghost middle = es@;
            let mut list = list;
            let ghost lv = list@;
            proof {
                assert(m.contains_key(k@));
                assert(list@ == m[k@]);
                lemma_without_id(list@, id@);
            }
            remove_by_id(&mut list, id);
            let kc = k.clone();
            let ghost kv = k@;
            put_key(es, kc, list);
            proof {
                lemma_take_then_put(before, middle, es@, kv, list);
                lemma_list_map_put(before, es@, kv, list);
                if all_sorted(m) {
                    assert(sorted_by_id(lv));
                    assert(sorted_by_id(list@));
                    assert forall|k2: Seq<char>| #[trigger] list_map(es@).contains_key(k2) implies sorted_by_id(
                        list_map(es@)[k2],
                    ) by {
                        if k2 != kv {
                            assert(m.contains_key(k2));
                        }
                    }
                }
            }
        },
    }
}

/// The list under `k`, if there is one.
pub fn table_get<'a, T>(es: &'a Vec<Entry<Vec<T>>>, k: &String) -> (r: Option<&'a Vec<T>>)
    requires
        keys_distinct(es@),
    ensures
        match r {
            Some(l) => list_map(es@).contains_key(k@) && l@ == list_map(es@)[k@],
            None => !list_map(es@).contains_key(k@),
        },
{
    match crate::table::find_key(es, k) {
        Some(i) => Some(&es[i].value),
        None => None,
    }
}

} // verus!
