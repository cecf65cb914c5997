//! Reading one block of the event-stream format: its `event:` label and its
//! `data:` payload.

use vstd::prelude::*;
use vstd::string::StrSliceExecFns;

verus! {

/// The characters that carry Unicode's White_Space property, which is what
/// `char::is_whitespace` tests.
pub open spec fn is_white_space(c: char) -> bool {
    let u = c as u32;
    (9 <= u <= 13) || u == 32 || u == 0x85 || u == 0xA0 || u == 0x1680 || (0x2000 <= u <= 0x200A)
        || u == 0x2028 || u == 0x2029 || u == 0x202F || u == 0x205F || u == 0x3000
}

/// `s` without its leading white space.
pub open spec fn trim_start(s: Seq<char>) -> Seq<char>
    decreases s.len(),
{
    if s.len() > 0 && is_white_space(s[0]) {
        trim_start(s.drop_first())
    } else {
        s
    }
}

/// `s` without its trailing white space.
pub open spec fn trim_end(s: Seq<char>) -> Seq<char>
    decreases s.len(),
{
    if s.len() > 0 && is_white_space(s.last()) {
        trim_end(s.drop_last())
    } else {
        s
    }
}

/// `s` without leading and trailing white space.
pub open spec fn trim(s: Seq<char>) -> Seq<char> {
    trim_end(trim_start(s))
}

/// Index of the first `\n` at or after `i`, or -1 where there is none.
pub open spec fn newline_index(s: Seq<char>, i: int) -> int
    decreases s.len() - i,
{
    if i < 0 || i >= s.len() {
        -1
    } else if s[i] == '\n' {
        i
    } else {
        newline_index(s, i + 1)
    }
}

/// The lines of `s`: the pieces between `\n` characters.
pub open spec fn lines(s: Seq<char>) -> Seq<Seq<char>>
    decreases s.len(),
{
    let p = newline_index(s, 0);
    if p < 0 || p >= s.len() {
        seq![s]
    } else {
        seq![s.subrange(0, p)] + lines(s.subrange(p + 1, s.len() as int))
    }
}

/// Whether `s` starts with `p`.
pub open spec fn has_prefix(s: Seq<char>, p: Seq<char>) -> bool {
    p.len() <= s.len() && s.subrange(0, p.len() as int) == p
}

/// The trimmed value of the last line that starts with `prefix`.
pub open spec fn field(ls: Seq<Seq<char>>, prefix: Seq<char>) -> Option<Seq<char>>
    decreases ls.len(),
{
    if ls.len() == 0 {
        None
    } else if has_prefix(ls.last(), prefix) {
        Some(trim(ls.last().subrange(prefix.len() as int, ls.last().len() as int)))
    } else {
        field(ls.drop_last(), prefix)
    }
}

/// The label of a block: the value of its last `event:` line.
pub open spec fn block_label(s: Seq<char>) -> Option<Seq<char>> {
    field(lines(s), "event:"@)
}

/// The payload of a block: the value of its last `data:` line.
pub open spec fn block_data(s: Seq<char>) -> Option<Seq<char>> {
    field(lines(s), "data:"@)
}

/// Whether `c` is white space, as `char::is_whitespace` says.
pub fn white_space(c: char) -> (r: bool)
    ensures
        r == is_white_space(c),
{
    let u = c as u32;
    (9 <= u && u <= 13) || u == 32 || u == 0x85 || u == 0xA0 || u == 0x1680 || (0x2000 <= u && u
        <= 0x200A) || u == 0x2028 || u == 0x2029 || u == 0x202F || u == 0x205F || u == 0x3000
}

/// A copy of `v[lo..hi]`.
pub fn sub_vec<T: Copy>(v: &Vec<T>, lo: usize, hi: usize) -> (r: Vec<T>)
    requires
        lo <= hi <= v@.len(),
    ensures
        r@ == v@.subrange(lo as int, hi as int),
{
    let mut r: Vec<T> = Vec::new();
    let mut i = lo;
    while i < hi
        invariant
            lo <= i <= hi <= v@.len(),
            r@ == v@.subrange(lo as int, i as int),
        decreases hi - i,
    {
        r.push(v[i]);
        assert(r@ =~= v@.subrange(lo as int, i + 1));
        i = i + 1;
    }
    r
}

proof fn lemma_trim_start_skip(s: Seq<char>, i: int)
    requires
        0 <= i < s.len(),
        is_white_space(s[i]),
    ensures
        trim_start(s.subrange(i, s.len() as int)) == trim_start(s.subrange(i + 1, s.len() as int)),
{
    assert(s.subrange(i, s.len() as int).drop_first() =~= s.subrange(i + 1, s.len() as int));
}

proof fn lemma_trim_end_take(s: Seq<char>, j: int)
    requires
        0 < j <= s.len(),
        is_white_space(s[j - 1]),
    ensures
        trim_end(s.subrange(0, j)) == trim_end(s.subrange(0, j - 1)),
{
    assert(s.subrange(0, j).drop_last() =~= s.subrange(0, j - 1));
}

/// `s[lo..hi]` with leading and trailing white space removed.
pub fn trimmed(s: &Vec<char>, lo: usize, hi: usize) -> (r: Vec<char>)
    requires
        lo <= hi <= s@.len(),
    ensures
        r@ == trim(s@.subrange(lo as int, hi as int)),
{
    let ghost t = s@.subrange(lo as int, hi as int);
    let mut i = lo;
    assert(t.subrange(0, t.len() as int) =~= t);
    while i < hi && white_space(s[i])
        invariant
            lo <= i <= hi <= s@.len(),
            t == s@.subrange(lo as int, hi as int),
            trim_start(t) == trim_start(t.subrange(i - lo, t.len() as int)),
        decreases hi - i,
    {
        proof {
            lemma_trim_start_skip(t, i - lo);
        }
        i = i + 1;
    }
    assert(trim_start(t) == t.subrange(i - lo, t.len() as int));
    let ghost u = t.subrange(i - lo, t.len() as int);
    assert(u =~= s@.subrange(i as int, hi as int));
    let mut j = hi;
    assert(u.subrange(0, u.len() as int) =~= u);
    while j > i && white_space(s[j - 1])
        invariant
            lo <= i <= j <= hi <= s@.len(),
            u == s@.subrange(i as int, hi as int),
            trim_end(u) == trim_end(u.subrange(0, j - i)),
        decreases j - i,
    {
        proof {
            lemma_trim_end_take(u, j - i);
        }
        j = j - 1;
    }
    assert(trim_end(u) == u.subrange(0, j - i));
    let r = sub_vec(s, i, j);
    assert(r@ =~= u.subrange(0, j - i));
    r
}

/// Whether `s` starts with the characters of `lit`.
pub fn starts_with_lit(s: &Vec<char>, lit: &str) -> (r: bool)
    ensures
        r == has_prefix(s@, lit@),
{
    let n = lit.unicode_len();
    if n > s.len() {
        return false;
    }
    let mut j: usize = 0;
    while j < n
        invariant
            n == lit@.len(),
            n <= s@.len(),
            j <= n,
            s@.subrange(0, j as int) == lit@.subrange(0, j as int),
        decreases n - j,
    {
        if s[j] != lit.get_char(j) {
            assert(s@.subrange(0, n as int)[j as int] != lit@[j as int]);
            return false;
        }
        assert(s@.subrange(0, j + 1) =~= lit@.subrange(0, j + 1));
        j = j + 1;
    }
    assert(lit@.subrange(0, n as int) =~= lit@);
    true
}

/// Whether `s` holds exactly the characters of `lit`.
pub fn equals_lit(s: &Vec<char>, lit: &str) -> (r: bool)
    ensures
        r == (s@ == lit@),
{
    if s.len() != lit.unicode_len() {
        return false;
    }
    let b = starts_with_lit(s, lit);
    assert(s@.subrange(0, lit@.len() as int) =~= s@);
    b
}

} // verus!

verus! {

proof fn lemma_newline_index_bounds(s: Seq<char>, i: int)
    requires
        0 <= i,
    ensures
        newline_index(s, i) == -1 || (i <= newline_index(s, i) < s.len() && s[newline_index(
            s,
            i,
        )] == '\n'),
        newline_index(s, i) == -1 ==> forall|j: int| i <= j < s.len() ==> s[j] != '\n',
        newline_index(s, i) >= 0 ==> forall|j: int| i <= j < newline_index(s, i) ==> s[j] != '\n',
    decreases s.len() - i,
{
    if i < s.len() && s[i] != '\n' {
        lemma_newline_index_bounds(s, i + 1);
    }
}

proof fn lemma_newline_first(s: Seq<char>, p: int)
    requires
        0 <= p < s.len(),
        s[p] == '\n',
        forall|j: int| 0 <= j < p ==> s[j] != '\n',
    ensures
        newline_index(s, 0) == p,
{
    lemma_newline_index_bounds(s, 0);
    let d = newline_index(s, 0);
    if d == -1 {
        assert(s[p] != '\n');
    } else if d < p {
        assert(s[d] != '\n');
    } else if d > p {
        assert(s[p] != '\n');
    }
}

proof fn lemma_newline_none(s: Seq<char>)
    requires
        forall|j: int| 0 <= j < s.len() ==> s[j] != '\n',
    ensures
        newline_index(s, 0) == -1,
{
    lemma_newline_index_bounds(s, 0);
    let d = newline_index(s, 0);
    if d >= 0 {
        assert(s[d] != '\n');
    }
}

/// Index of the first `\n` of `s`, if any.
pub fn find_newline(s: &Vec<char>) -> (r: Option<usize>)
    ensures
        r is None ==> newline_index(s@, 0) == -1,
        r is Some ==> newline_index(s@, 0) == r->0 as int && r->0 < s@.len(),
{
    let n = s.len();
    let mut i: usize = 0;
    while i < n
        invariant
            n == s@.len(),
            i <= n,
            forall|j: int| 0 <= j < i ==> s@[j] != '\n',
        decreases n - i,
    {
        if s[i] == '\n' {
            proof {
                lemma_newline_first(s@, i as int);
            }
            return Some(i);
        }
        i = i + 1;
    }
    proof {
        lemma_newline_none(s@);
    }
    None
}

/// The lines of `s`, split at each `\n`.
pub fn split_lines(s: Vec<char>) -> (r: Vec<Vec<char>>)
    ensures
        r@.map_values(|l: Vec<char>| l@) == lines(s@),
{
    let mut out: Vec<Vec<char>> = Vec::new();
    let mut cur = s;
    while true
        invariant
            out@.map_values(|l: Vec<char>| l@) + lines(cur@) == lines(s@),
        decreases cur@.len(),
    {
        match find_newline(&cur) {
            None => {
                let ghost before = out@.map_values(|l: Vec<char>| l@);
                assert(lines(cur@) == seq![cur@]);
                out.push(cur);
                assert(out@.map_values(|l: Vec<char>| l@) =~= before + lines(s@).subrange(
                    before.len() as int,
                    lines(s@).len() as int,
                ));
                assert(out@.map_values(|l: Vec<char>| l@) =~= lines(s@));
                return out;
            },
            Some(p) => {
                let ghost old_cur = cur@;
                let mut tail = cur.split_off(p);
                let tail2 = tail.split_off(1);
                assert(tail2@ == old_cur.subrange(p + 1, old_cur.len() as int));
                assert(cur@ == old_cur.subrange(0, p as int));
                let ghost before = out@.map_values(|l: Vec<char>| l@);
                out.push(cur);
                assert(out@.map_values(|l: Vec<char>| l@) =~= before.push(
                    old_cur.subrange(0, p as int),
                ));
                assert(lines(old_cur) == seq![old_cur.subrange(0, p as int)] + lines(tail2@));
                assert(out@.map_values(|l: Vec<char>| l@) + lines(tail2@) =~= before + lines(
                    old_cur,
                ));
                cur = tail2;
            },
        }
    }
    out
}

/// The view of an optional character vector.
pub open spec fn opt_chars(o: Option<Vec<char>>) -> Option<Seq<char>> {
    match o {
        Some(v) => Some(v@),
        None => None,
    }
}

/// The trimmed value of the last line of `ls` that starts with `prefix`.
pub fn find_field(ls: &Vec<Vec<char>>, prefix: &str) -> (r: Option<Vec<char>>)
    ensures
        opt_chars(r) == field(ls@.map_values(|l: Vec<char>| l@), prefix@),
{
    let ghost lv = ls@.map_values(|l: Vec<char>| l@);
    let plen = prefix.unicode_len();
    let mut value: Option<Vec<char>> = None;
    let mut k: usize = 0;
    assert(lv.subrange(0, 0) =~= Seq::<Seq<char>>::empty());
    while k < ls.len()
        invariant
            k <= ls@.len(),
            lv == ls@.map_values(|l: Vec<char>| l@),
            plen == prefix@.len(),
            opt_chars(value) == field(lv.subrange(0, k as int), prefix@),
        decreases ls@.len() - k,
    {
        let line = &ls[k];
        assert(lv.subrange(0, k + 1).last() == line@);
        assert(lv.subrange(0, k + 1).drop_last() =~= lv.subrange(0, k as int));
        if starts_with_lit(line, prefix) {
            value = Some(trimmed(line, plen, line.len()));
        }
        k = k + 1;
    }
    assert(lv.subrange(0, ls@.len() as int) =~= lv);
    value
}

/// The label and the payload of one block.
pub fn parse_block(s: Vec<char>) -> (r: (Option<Vec<char>>, Option<Vec<char>>))
    ensures
        opt_chars(r.0) == block_label(s@),
        opt_chars(r.1) == block_data(s@),
{
    let ghost sv = s@;
    let ls = split_lines(s);
    let label = find_field(&ls, "event:");
    let data = find_field(&ls, "data:");
    (label, data)
}

} // verus!
