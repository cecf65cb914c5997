//! Byte-level framing of the event-stream format: blocks separated by a blank
//! line (two consecutive `\n` bytes).

use vstd::prelude::*;

verus! {

/// Whether a block delimiter (`\n\n`) starts at index `i` of `s`.
pub open spec fn delim_at(s: Seq<u8>, i: int) -> bool {
    0 <= i && i + 1 < s.len() && s[i] == 10u8 && s[i + 1] == 10u8
}

/// Index of the first delimiter at or after `i`, or -1 where there is none.
pub open spec fn delim_index(s: Seq<u8>, i: int) -> int
    decreases s.len() - i,
{
    if i < 0 || i + 1 >= s.len() {
        -1
    } else if delim_at(s, i) {
        i
    } else {
        delim_index(s, i + 1)
    }
}

/// The complete blocks of `s`, in order: what precedes each delimiter.
pub open spec fn blocks(s: Seq<u8>) -> Seq<Seq<u8>>
    decreases s.len(),
{
    let p = delim_index(s, 0);
    if p < 0 || p + 2 > s.len() {
        Seq::empty()
    } else {
        seq![s.subrange(0, p)] + blocks(s.subrange(p + 2, s.len() as int))
    }
}

/// What is left of `s` after its complete blocks: an unfinished block.
pub open spec fn rest(s: Seq<u8>) -> Seq<u8>
    decreases s.len(),
{
    let p = delim_index(s, 0);
    if p < 0 || p + 2 > s.len() {
        s
    } else {
        rest(s.subrange(p + 2, s.len() as int))
    }
}

proof fn lemma_delim_index_bounds(s: Seq<u8>, i: int)
    requires
        0 <= i,
    ensures
        delim_index(s, i) == -1 || (i <= delim_index(s, i) && delim_at(s, delim_index(s, i))),
        delim_index(s, i) == -1 ==> forall|j: int| i <= j ==> !delim_at(s, j),
        delim_index(s, i) >= 0 ==> forall|j: int| i <= j < delim_index(s, i) ==> !delim_at(s, j),
    decreases s.len() - i,
{
    if i + 1 < s.len() && !delim_at(s, i) {
        lemma_delim_index_bounds(s, i + 1);
    }
}

proof fn lemma_delim_index_extend(x: Seq<u8>, y: Seq<u8>, i: int)
    requires
        0 <= i,
        delim_index(x, i) >= 0,
    ensures
        delim_index(x + y, i) == delim_index(x, i),
    decreases x.len() - i,
{
    assert(i + 1 < x.len());
    assert((x + y)[i] == x[i] && (x + y)[i + 1] == x[i + 1]);
    if !delim_at(x, i) {
        lemma_delim_index_extend(x, y, i + 1);
    }
}

/// Framing is independent of where the input is cut: the blocks of `x + y`
/// are those of `x`, then those of what `x` left unfinished followed by `y`.
pub proof fn lemma_blocks_split(x: Seq<u8>, y: Seq<u8>)
    ensures
        blocks(x + y) == blocks(x) + blocks(rest(x) + y),
        rest(x + y) == rest(rest(x) + y),
    decreases x.len(),
{
    let p = delim_index(x, 0);
    lemma_delim_index_bounds(x, 0);
    if p >= 0 {
        lemma_delim_index_extend(x, y, 0);
        let t = x.subrange(p + 2, x.len() as int);
        assert((x + y).subrange(0, p) == x.subrange(0, p));
        assert((x + y).subrange(p + 2, (x + y).len() as int) == t + y);
        lemma_blocks_split(t, y);
        assert(blocks(x + y) == seq![x.subrange(0, p)] + blocks(t + y));
        assert(blocks(x) == seq![x.subrange(0, p)] + blocks(t));
        assert(blocks(x + y) == blocks(x) + blocks(rest(x) + y)) by {
            assert(seq![x.subrange(0, p)] + (blocks(t) + blocks(rest(t) + y)) == (seq![
                x.subrange(0, p),
            ] + blocks(t)) + blocks(rest(t) + y));
        }
    } else {
        assert(blocks(x) =~= Seq::empty());
        assert(blocks(x) + blocks(rest(x) + y) =~= blocks(x + y));
    }
}

/// An input without a delimiter holds no complete block.
pub proof fn lemma_no_delim(s: Seq<u8>)
    requires
        forall|j: int| !delim_at(s, j),
    ensures
        blocks(s) == Seq::<Seq<u8>>::empty(),
        rest(s) == s,
{
    lemma_delim_index_bounds(s, 0);
    if delim_index(s, 0) >= 0 {
        assert(delim_at(s, delim_index(s, 0)));
    }
}

/// Index of the first delimiter of `s`, if any.
pub fn find_delim(s: &Vec<u8>) -> (r: Option<usize>)
    ensures
        r is None ==> delim_index(s@, 0) == -1,
        r is Some ==> delim_index(s@, 0) == r->0 as int && delim_at(s@, r->0 as int),
{
    proof {
        lemma_delim_index_bounds(s@, 0);
    }
    let n = s.len();
    let mut i: usize = 0;
    while n >= 2 && i < n - 1
        invariant
            n == s@.len(),
            i <= n,
            forall|j: int| 0 <= j < i ==> !delim_at(s@, j),
        decreases n - i,
    {
        if s[i] == 10u8 && s[i + 1] == 10u8 {
            proof {
                lemma_delim_first(s@, i as int);
            }
            return Some(i);
        }
        i = i + 1;
    }
    proof {
        lemma_delim_none(s@);
    }
    None
}

/// The first delimiter is the one before which there is none.
pub proof fn lemma_delim_first(s: Seq<u8>, p: int)
    requires
        delim_at(s, p),
        forall|j: int| 0 <= j < p ==> !delim_at(s, j),
    ensures
        delim_index(s, 0) == p,
{
    lemma_delim_index_bounds(s, 0);
    let d = delim_index(s, 0);
    if d == -1 {
        assert(!delim_at(s, p));
    } else if d < p {
        assert(!delim_at(s, d));
    } else if d > p {
        assert(!delim_at(s, p));
    }
}

proof fn lemma_delim_none(s: Seq<u8>)
    requires
        forall|j: int| 0 <= j < s.len() - 1 ==> !delim_at(s, j),
    ensures
        delim_index(s, 0) == -1,
{
    lemma_delim_index_bounds(s, 0);
    let d = delim_index(s, 0);
    if d >= 0 {
        assert(!delim_at(s, d));
    }
}

/// Splits `buf` into its complete blocks and what is left after them.
pub fn split_blocks(buf: Vec<u8>) -> (r: (Vec<Vec<u8>>, Vec<u8>))
    ensures
        r.0@.map_values(|b: Vec<u8>| b@) == blocks(buf@),
        r.1@ == rest(buf@),
{
    let mut out: Vec<Vec<u8>> = Vec::new();
    let mut cur = buf;
    while true
        invariant
            out@.map_values(|b: Vec<u8>| b@) + blocks(cur@) == blocks(buf@),
            rest(cur@) == rest(buf@),
        decreases cur@.len(),
    {
        match find_delim(&cur) {
            None => {
                assert(blocks(cur@) =~= Seq::empty());
                assert(out@.map_values(|b: Vec<u8>| b@) + blocks(cur@) =~= out@.map_values(
                    |b: Vec<u8>| b@,
                ));
                return (out, cur);
            },
            Some(p) => {
                let ghost old_cur = cur@;
                let mut tail = cur.split_off(p);
                let tail2 = tail.split_off(2);
                assert(tail2@ == old_cur.subrange(p + 2, old_cur.len() as int));
                assert(cur@ == old_cur.subrange(0, p as int));
                let ghost before = out@.map_values(|b: Vec<u8>| b@);
                out.push(cur);
                assert(out@.map_values(|b: Vec<u8>| b@) =~= before.push(old_cur.subrange(0, p as int)));
                assert(blocks(old_cur) == seq![old_cur.subrange(0, p as int)] + blocks(tail2@));
                assert(out@.map_values(|b: Vec<u8>| b@) + blocks(tail2@) =~= before + blocks(old_cur));
                cur = tail2;
            },
        }
    }
    (out, cur)
}

} // verus!
