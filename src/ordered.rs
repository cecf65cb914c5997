//! Lists of records keyed by their string `id`: lexicographic order on ids,
//! sorted find-or-replace-else-insert, and removal by id.

use vstd::prelude::*;
use crate::text::chars_of;

verus! {

/// A record with a string identity.
pub trait Identified {
    /// The record's id.
    spec fn id_view(&self) -> Seq<char>;

    /// A reference to the record's id.
    fn id_ref(&self) -> (r: &String)
        ensures
            r@ == self.id_view(),
    ;
}

/// Lexicographic order on ids, character by character (by code point, which
/// is the byte order of their UTF-8 form).
pub open spec fn lex_lt(a: Seq<char>, b: Seq<char>) -> bool
    decreases a.len(),
{
    if a.len() == 0 {
        b.len() > 0
    } else if b.len() == 0 {
        false
    } else if a[0] != b[0] {
        (a[0] as u32) < (b[0] as u32)
    } else {
        lex_lt(a.drop_first(), b.drop_first())
    }
}

/// No id is before itself.
pub proof fn lemma_lex_irreflexive(a: Seq<char>)
    ensures
        !lex_lt(a, a),
    decreases a.len(),
{
    if a.len() > 0 {
        lemma_lex_irreflexive(a.drop_first());
    }
}

/// Of two different ids, one is before the other, and not both ways.
pub proof fn lemma_lex_total(a: Seq<char>, b: Seq<char>)
    ensures
        a != b ==> (lex_lt(a, b) || lex_lt(b, a)),
        !(lex_lt(a, b) && lex_lt(b, a)),
    decreases a.len(),
{
    broadcast use vstd::utf8::char_u32_cast;

    if a.len() > 0 && b.len() > 0 {
        if a[0] == b[0] {
            lemma_lex_total(a.drop_first(), b.drop_first());
            if a != b {
                assert(a =~= seq![a[0]] + a.drop_first());
                assert(b =~= seq![b[0]] + b.drop_first());
            }
        } else {
            assert((a[0] as u32) != (b[0] as u32)) by {
                vstd::utf8::char_u32_cast(a[0], a[0] as u32);
                vstd::utf8::char_u32_cast(b[0], b[0] as u32);
            }
        }
    } else if a.len() == 0 && b.len() == 0 {
        assert(a =~= b);
    }
}

/// The order is transitive.
pub proof fn lemma_lex_transitive(a: Seq<char>, b: Seq<char>, c: Seq<char>)
    requires
        lex_lt(a, b),
        lex_lt(b, c),
    ensures
        lex_lt(a, c),
    decreases a.len(),
{
    if a.len() > 0 && b.len() > 0 && c.len() > 0 {
        if a[0] == b[0] && b[0] == c[0] {
            lemma_lex_transitive(a.drop_first(), b.drop_first(), c.drop_first());
        }
    }
}

/// Whether `a` comes before `b`.
pub fn id_less(a: &String, b: &String) -> (r: bool)
    ensures
        r == lex_lt(a@, b@),
{
    let x = chars_of(a.as_str());
    let y = chars_of(b.as_str());
    let mut i: usize = 0;
    assert(x@.subrange(0, x@.len() as int) =~= x@);
    assert(y@.subrange(0, y@.len() as int) =~= y@);
    while i < x.len() && i < y.len() && x[i] == y[i]
        invariant
            i <= x@.len(),
            i <= y@.len(),
            lex_lt(a@, b@) == lex_lt(x@.subrange(i as int, x@.len() as int), y@.subrange(
                i as int,
                y@.len() as int,
            )),
        decreases x@.len() - i,
    {
        assert(x@.subrange(i as int, x@.len() as int).drop_first() =~= x@.subrange(
            i + 1,
            x@.len() as int,
        ));
        assert(y@.subrange(i as int, y@.len() as int).drop_first() =~= y@.subrange(
            i + 1,
            y@.len() as int,
        ));
        i = i + 1;
    }
    let ghost xs = x@.subrange(i as int, x@.len() as int);
    let ghost ys = y@.subrange(i as int, y@.len() as int);
    if i == x.len() {
        assert(xs.len() == 0);
        i < y.len()
    } else if i == y.len() {
        assert(ys.len() == 0);
        false
    } else {
        assert(xs[0] == x@[i as int] && ys[0] == y@[i as int]);
        (x[i] as u32) < (y[i] as u32)
    }
}

/// The ids are strictly increasing.
pub open spec fn sorted_by_id<T: Identified>(s: Seq<T>) -> bool {
    forall|i: int, j: int| 0 <= i < j < s.len() ==> lex_lt(s[i].id_view(), s[j].id_view())
}

/// Index of the first record with id `k` at or after `i`, or -1.
pub open spec fn id_index<T: Identified>(s: Seq<T>, k: Seq<char>, i: int) -> int
    decreases s.len() - i,
{
    if i < 0 || i >= s.len() {
        -1
    } else if s[i].id_view() == k {
        i
    } else {
        id_index(s, k, i + 1)
    }
}

/// Where a record with id `k` goes: before the first record whose id is
/// greater, at or after `i`; at the end where there is none.
pub open spec fn insert_pos<T: Identified>(s: Seq<T>, k: Seq<char>, i: int) -> int
    decreases s.len() - i,
{
    if i < 0 || i >= s.len() {
        s.len() as int
    } else if lex_lt(k, s[i].id_view()) {
        i
    } else {
        insert_pos(s, k, i + 1)
    }
}

/// Find-or-replace-else-insert-sorted: the record with `x`'s id is replaced
/// by `x`; without one, `x` is inserted before the first greater id.
pub open spec fn upsert_sorted<T: Identified>(s: Seq<T>, x: T) -> Seq<T> {
    let i = id_index(s, x.id_view(), 0);
    if i >= 0 {
        s.update(i, x)
    } else {
        s.insert(insert_pos(s, x.id_view(), 0), x)
    }
}

/// The records whose id is not `k`, in order.
pub open spec fn without_id<T: Identified>(s: Seq<T>, k: Seq<char>) -> Seq<T>
    decreases s.len(),
{
    if s.len() == 0 {
        Seq::empty()
    } else {
        without_id(s.drop_last(), k) + if s.last().id_view() == k {
            Seq::empty()
        } else {
            seq![s.last()]
        }
    }
}

/// Where `id_index` finds nothing, no record has the id.
pub proof fn lemma_id_index_none<T: Identified>(s: Seq<T>, k: Seq<char>)
    requires
        id_index(s, k, 0) < 0,
    ensures
        forall|j: int| 0 <= j < s.len() ==> s[j].id_view() != k,
{
    lemma_id_index(s, k, 0);
}

proof fn lemma_id_index<T: Identified>(s: Seq<T>, k: Seq<char>, i: int)
    requires
        0 <= i,
    ensures
        id_index(s, k, i) == -1 || (i <= id_index(s, k, i) < s.len() && s[id_index(
            s,
            k,
            i,
        )].id_view() == k),
        id_index(s, k, i) == -1 ==> forall|j: int| i <= j < s.len() ==> s[j].id_view() != k,
        id_index(s, k, i) >= 0 ==> forall|j: int|
            i <= j < id_index(s, k, i) ==> s[j].id_view() != k,
    decreases s.len() - i,
{
    if i < s.len() && s[i].id_view() != k {
        lemma_id_index(s, k, i + 1);
    }
}

proof fn lemma_insert_pos<T: Identified>(s: Seq<T>, k: Seq<char>, i: int)
    requires
        0 <= i <= s.len(),
    ensures
        i <= insert_pos(s, k, i) <= s.len(),
        forall|j: int| i <= j < insert_pos(s, k, i) ==> !lex_lt(k, s[j].id_view()),
        insert_pos(s, k, i) < s.len() ==> lex_lt(k, s[insert_pos(s, k, i)].id_view()),
    decreases s.len() - i,
{
    if i < s.len() && !lex_lt(k, s[i].id_view()) {
        lemma_insert_pos(s, k, i + 1);
    }
}

/// Index of the record with id `k`, if any.
pub fn find_id<T: Identified>(v: &Vec<T>, k: &String) -> (r: Option<usize>)
    ensures
        r is None ==> id_index(v@, k@, 0) == -1,
        r is Some ==> id_index(v@, k@, 0) == r->0 as int && r->0 < v@.len() && v@[r->0 as int].id_view()
            == k@,
{
    proof {
        lemma_id_index(v@, k@, 0);
    }
    let mut i: usize = 0;
    while i < v.len()
        invariant
            i <= v@.len(),
            forall|j: int| 0 <= j < i ==> v@[j].id_view() != k@,
        decreases v@.len() - i,
    {
        if *v[i].id_ref() == *k {
            proof {
                lemma_id_index(v@, k@, 0);
                let d = id_index(v@, k@, 0);
                if d != i as int {
                    assert(d == -1 || d < i || d > i);
                }
            }
            return Some(i);
        }
        i = i + 1;
    }
    proof {
        lemma_id_index(v@, k@, 0);
        let d = id_index(v@, k@, 0);
        if d >= 0 {
            assert(v@[d].id_view() != k@);
        }
    }
    None
}

/// Where a record with id `k` would be inserted.
pub fn find_insert_pos<T: Identified>(v: &Vec<T>, k: &String) -> (r: usize)
    ensures
        r as int == insert_pos(v@, k@, 0),
        r <= v@.len(),
{
    proof {
        lemma_insert_pos(v@, k@, 0);
    }
    let mut i: usize = 0;
    while i < v.len()
        invariant
            i <= v@.len(),
            forall|j: int| 0 <= j < i ==> !lex_lt(k@, v@[j].id_view()),
        decreases v@.len() - i,
    {
        if id_less(k, v[i].id_ref()) {
            proof {
                lemma_insert_pos(v@, k@, 0);
                let d = insert_pos(v@, k@, 0);
                if d < i {
                    assert(!lex_lt(k@, v@[d].id_view()));
                } else if d > i {
                    assert(!lex_lt(k@, v@[i as int].id_view()));
                }
            }
            return i;
        }
        i = i + 1;
    }
    proof {
        lemma_insert_pos(v@, k@, 0);
        let d = insert_pos(v@, k@, 0);
        if d < v@.len() {
            assert(!lex_lt(k@, v@[d].id_view()));
        }
    }
    i
}

/// Replaces the record with `x`'s id by `x`, or inserts `x` in id order.
pub fn upsert_by_id<T: Identified>(v: &mut Vec<T>, x: T)
    ensures
        final(v)@ == upsert_sorted(old(v)@, x),
{
    match find_id(v, x.id_ref()) {
        Some(i) => {
            let ghost before = v@;
            v.remove(i);
            v.insert(i, x);
            assert(v@ =~= before.update(i as int, x));
        },
        None => {
            let p = find_insert_pos(v, x.id_ref());
            v.insert(p, x);
        },
    }
}

/// Removes every record with id `k`, keeping the order of the others.
pub fn remove_by_id<T: Identified>(v: &mut Vec<T>, k: &String)
    ensures
        final(v)@ == without_id(old(v)@, k@),
{
    let ghost s = v@;
    let mut src: Vec<T> = Vec::new();
    std::mem::swap(&mut src, v);
    let n = src.len();
    let mut i: usize = 0;
    assert(s.subrange(0, 0) =~= Seq::<T>::empty());
    while i < n
        invariant
            n == s.len(),
            i <= n,
            src@ == s.subrange(i as int, n as int),
            v@ == without_id(s.subrange(0, i as int), k@),
        decreases n - i,
    {
        let x = src.remove(0);
        assert(x == s[i as int]);
        assert(s.subrange(0, i + 1).drop_last() =~= s.subrange(0, i as int));
        let ghost before = v@;
        if *x.id_ref() != *k {
            v.push(x);
            assert(v@ =~= without_id(s.subrange(0, i + 1), k@));
        } else {
            assert(v@ =~= without_id(s.subrange(0, i + 1), k@));
        }
        assert(src@ =~= s.subrange(i + 1, n as int));
        i = i + 1;
    }
    assert(s.subrange(0, n as int) =~= s);
}

} // verus!

verus! {

/// In a list sorted by id, each id occurs once.
pub proof fn lemma_sorted_ids_distinct<T: Identified>(s: Seq<T>, i: int, j: int)
    requires
        sorted_by_id(s),
        0 <= i < s.len(),
        0 <= j < s.len(),
        i != j,
    ensures
        s[i].id_view() != s[j].id_view(),
{
    if i < j {
        lemma_lex_irreflexive(s[i].id_view());
    } else {
        lemma_lex_irreflexive(s[j].id_view());
    }
}

/// A sorted upsert keeps the list sorted, and afterwards the one record with
/// the id of `x` is `x` itself; the records with other ids are kept.
pub proof fn lemma_upsert_sorted<T: Identified>(s: Seq<T>, x: T)
    requires
        sorted_by_id(s),
    ensures
        sorted_by_id(upsert_sorted(s, x)),
        upsert_sorted(s, x).contains(x),
        forall|j: int|
            0 <= j < upsert_sorted(s, x).len() && (#[trigger] upsert_sorted(s, x)[j]).id_view()
                == x.id_view() ==> upsert_sorted(s, x)[j] == x,
        forall|j: int|
            0 <= j < s.len() && (#[trigger] s[j]).id_view() != x.id_view() ==> upsert_sorted(
                s,
                x,
            ).contains(s[j]),
        upsert_sorted(s, x).len() == s.len() + if id_index(s, x.id_view(), 0) >= 0 {
            0int
        } else {
            1int
        },
{
    let k = x.id_view();
    let r = upsert_sorted(s, x);
    lemma_id_index(s, k, 0);
    let i = id_index(s, k, 0);
    if i >= 0 {
        assert(r == s.update(i, x));
        assert forall|a: int, b: int| 0 <= a < b < r.len() implies lex_lt(
            r[a].id_view(),
            r[b].id_view(),
        ) by {
            assert(r[a].id_view() == s[a].id_view());
            assert(r[b].id_view() == s[b].id_view());
        }
        assert(r[i] == x);
        assert forall|j: int| 0 <= j < r.len() && (#[trigger] r[j]).id_view() == k implies r[j]
            == x by {
            if j != i {
                lemma_sorted_ids_distinct(s, i, j);
            }
        }
        assert forall|j: int| 0 <= j < s.len() && (#[trigger] s[j]).id_view() != k implies r.contains(
            s[j],
        ) by {
            assert(r[j] == s[j]);
        }
    } else {
        lemma_insert_pos(s, k, 0);
        let p = insert_pos(s, k, 0);
        assert(r == s.insert(p, x));
        assert forall|a: int, b: int| 0 <= a < b < r.len() implies lex_lt(
            r[a].id_view(),
            r[b].id_view(),
        ) by {
            if b < p {
                assert(r[a] == s[a] && r[b] == s[b]);
            } else if b == p {
                assert(r[a] == s[a]);
                assert(!lex_lt(k, s[a].id_view()));
                lemma_lex_total(s[a].id_view(), k);
            } else if a == p {
                assert(r[b] == s[b - 1]);
                if b - 1 > p {
                    lemma_lex_transitive(k, s[p].id_view(), s[b - 1].id_view());
                }
            } else if a < p {
                assert(r[a] == s[a] && r[b] == s[b - 1]);
            } else {
                assert(r[a] == s[a - 1] && r[b] == s[b - 1]);
            }
        }
        assert(r[p] == x);
        assert forall|j: int| 0 <= j < r.len() && (#[trigger] r[j]).id_view() == k implies r[j]
            == x by {
            if j < p {
                assert(r[j] == s[j]);
            } else if j > p {
                assert(r[j] == s[j - 1]);
            }
        }
        assert forall|j: int| 0 <= j < s.len() && (#[trigger] s[j]).id_view() != k implies r.contains(
            s[j],
        ) by {
            if j < p {
                assert(r[j] == s[j]);
            } else {
                assert(r[j + 1] == s[j]);
            }
        }
    }
}

/// Removing by id keeps the others in order and leaves no record with that id.
pub proof fn lemma_without_id<T: Identified>(s: Seq<T>, k: Seq<char>)
    ensures
        forall|j: int|
            0 <= j < without_id(s, k).len() ==> (#[trigger] without_id(s, k)[j]).id_view() != k,
        forall|j: int|
            0 <= j < without_id(s, k).len() ==> s.contains(#[trigger] without_id(s, k)[j]),
        forall|j: int| 0 <= j < s.len() && (#[trigger] s[j]).id_view() != k ==> without_id(
            s,
            k,
        ).contains(s[j]),
        sorted_by_id(s) ==> sorted_by_id(without_id(s, k)),
    decreases s.len(),
{
    if s.len() > 0 {
        let init = s.drop_last();
        lemma_without_id(init, k);
        let w = without_id(init, k);
        let r = without_id(s, k);
        assert forall|j: int| 0 <= j < r.len() implies s.contains(#[trigger] r[j]) by {
            if j < w.len() {
                assert(r[j] == w[j]);
                let t = choose|t: int| 0 <= t < init.len() && init[t] == w[j];
                assert(s[t] == init[t]);
            } else {
                assert(r[j] == s.last());
                assert(s[s.len() - 1] == s.last());
            }
        }
        assert forall|j: int| 0 <= j < s.len() && (#[trigger] s[j]).id_view() != k implies r.contains(
            s[j],
        ) by {
            if j < init.len() {
                assert(init[j] == s[j]);
                let t = choose|t: int| 0 <= t < w.len() && w[t] == s[j];
                assert(r[t] == w[t]);
            } else {
                assert(r[r.len() - 1] == s.last());
            }
        }
        assert forall|j: int| 0 <= j < r.len() implies (#[trigger] r[j]).id_view() != k by {
            if j < w.len() {
                assert(r[j] == w[j]);
            }
        }
        if sorted_by_id(s) {
            assert(sorted_by_id(init)) by {
                assert forall|a: int, b: int| 0 <= a < b < init.len() implies lex_lt(
                    init[a].id_view(),
                    init[b].id_view(),
                ) by {
                    assert(init[a] == s[a] && init[b] == s[b]);
                }
            }
            assert forall|a: int, b: int| 0 <= a < b < r.len() implies lex_lt(
                r[a].id_view(),
                r[b].id_view(),
            ) by {
                if b < w.len() {
                    assert(r[a] == w[a] && r[b] == w[b]);
                } else {
                    assert(r[a] == w[a]);
                    assert(r[b] == s.last());
                    let t = choose|t: int| 0 <= t < init.len() && init[t] == w[a];
                    assert(s[t] == init[t]);
                    assert(s[s.len() - 1] == s.last());
                }
            }
        }
    }
}

/// Removing by id keeps the remaining ids distinct.
pub proof fn lemma_without_id_distinct<T: Identified>(s: Seq<T>, k: Seq<char>)
    requires
        forall|i: int, j: int|
            0 <= i < s.len() && 0 <= j < s.len() && i != j ==> s[i].id_view() != s[j].id_view(),
    ensures
        forall|i: int, j: int|
            0 <= i < without_id(s, k).len() && 0 <= j < without_id(s, k).len() && i != j
                ==> without_id(s, k)[i].id_view() != without_id(s, k)[j].id_view(),
    decreases s.len(),
{
    if s.len() > 0 {
        let init = s.drop_last();
        lemma_without_id_distinct(init, k);
        lemma_without_id(init, k);
        let w = without_id(init, k);
        let r = without_id(s, k);
        assert forall|i: int, j: int|
            0 <= i < r.len() && 0 <= j < r.len() && i != j implies r[i].id_view() != r[j].id_view() by {
            if i < w.len() && j < w.len() {
                assert(r[i] == w[i] && r[j] == w[j]);
            } else if i < w.len() {
                assert(r[i] == w[i]);
                assert(r[j] == s.last());
                assert(init.contains(w[i]));
                let t = choose|t: int| 0 <= t < init.len() && init[t] == w[i];
                assert(s[t] == init[t]);
                assert(s[s.len() - 1] == s.last());
            } else if j < w.len() {
                assert(r[j] == w[j]);
                assert(r[i] == s.last());
                assert(init.contains(w[j]));
                let t = choose|t: int| 0 <= t < init.len() && init[t] == w[j];
                assert(s[t] == init[t]);
                assert(s[s.len() - 1] == s.last());
            }
        }
    }
}

} // verus!
