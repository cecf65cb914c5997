//! Update checks: comparing dotted version strings, and the outcome of one
//! check against the release feed.

use vstd::prelude::*;
use crate::text::chars_of;

verus! {

/// URL of the release feed used when none is configured.
pub const DEFAULT_FEED_URL: &'static str =
    "https://raw.githubusercontent.com/adolago/agent-core/dev/packages/desktop-gpui/appcast.json";

/// What the feed says about the latest release.
#[derive(Clone, Debug)]
pub struct UpdateInfo {
    pub version: String,
    pub title: Option<String>,
    pub notes_url: Option<String>,
    pub download_url: Option<String>,
    pub published_at: Option<String>,
}

/// Where an update check stands.
#[derive(Clone, Copy, Debug, PartialEq, Eq, Structural)]
pub enum UpdateStatus {
    Idle,
    Checking,
    Available,
    UpToDate,
    Error,
}

/// The outcome of one update check.
#[derive(Clone, Debug)]
pub struct UpdateCheck {
    pub status: UpdateStatus,
    pub info: Option<UpdateInfo>,
    pub error: Option<String>,
    pub checked_at: Option<i64>,
}

/// Characters that separate the numeric fields of a version.
pub open spec fn is_version_sep(c: char) -> bool {
    c == '.' || c == '-' || c == '+'
}

/// Index of the first separator at or after `i`, or -1.
pub open spec fn sep_index(s: Seq<char>, i: int) -> int
    decreases s.len() - i,
{
    if i < 0 || i >= s.len() {
        -1
    } else if is_version_sep(s[i]) {
        i
    } else {
        sep_index(s, i + 1)
    }
}

/// The fields of a version string, between separators.
pub open spec fn version_fields(s: Seq<char>) -> Seq<Seq<char>>
    decreases s.len(),
{
    let p = sep_index(s, 0);
    if p < 0 || p >= s.len() {
        seq![s]
    } else {
        seq![s.subrange(0, p)] + version_fields(s.subrange(p + 1, s.len() as int))
    }
}

/// Whether `c` is an ASCII digit.
pub open spec fn is_digit(c: char) -> bool {
    '0' <= c <= '9'
}

/// The number that a run of digits spells.
pub open spec fn digits_value(s: Seq<char>) -> nat
    decreases s.len(),
{
    if s.len() == 0 {
        0
    } else {
        digits_value(s.drop_last()) * 10 + ((s.last() as u32) - ('0' as u32)) as nat
    }
}

/// What `u64::from_str` gives for a field (which holds no `+`): the value
/// of a non-empty run of digits that fits in 64 bits.
pub open spec fn field_number(s: Seq<char>) -> Option<u64> {
    if s.len() > 0 && (forall|i: int| 0 <= i < s.len() ==> is_digit(#[trigger] s[i]))
        && digits_value(s) <= u64::MAX {
        Some(digits_value(s) as u64)
    } else {
        None
    }
}

/// The numbers of the fields that parse, in order.
pub open spec fn numbers_of(fs: Seq<Seq<char>>) -> Seq<u64>
    decreases fs.len(),
{
    if fs.len() == 0 {
        Seq::empty()
    } else {
        numbers_of(fs.drop_last()) + match field_number(fs.last()) {
            Some(n) => seq![n],
            None => Seq::empty(),
        }
    }
}

/// The numeric fields of a version string.
pub open spec fn version_numbers(s: Seq<char>) -> Seq<u64> {
    numbers_of(version_fields(s))
}

/// The `i`th number, or zero past the end.
pub open spec fn nth_or_zero(v: Seq<u64>, i: int) -> u64 {
    if 0 <= i < v.len() {
        v[i]
    } else {
        0
    }
}

/// Whether `a` is greater than `b` at the first position from `i` where the
/// two differ, missing positions counting as zero.
pub open spec fn greater_from(a: Seq<u64>, b: Seq<u64>, i: int) -> bool
    decreases (if a.len() > b.len() {
        a.len()
    } else {
        b.len()
    }) - i,
{
    if i < 0 || (i >= a.len() && i >= b.len()) {
        false
    } else if nth_or_zero(a, i) > nth_or_zero(b, i) {
        true
    } else if nth_or_zero(a, i) < nth_or_zero(b, i) {
        false
    } else {
        greater_from(a, b, i + 1)
    }
}

/// Whether version `latest` is newer than `current`.
pub open spec fn newer(latest: Seq<char>, current: Seq<char>) -> bool {
    greater_from(version_numbers(latest), version_numbers(current), 0)
}

proof fn lemma_digits_value_grows(s: Seq<char>, i: int)
    requires
        0 <= i <= s.len(),
        forall|j: int| 0 <= j < s.len() ==> is_digit(#[trigger] s[j]),
    ensures
        digits_value(s.subrange(0, i)) <= digits_value(s),
    decreases s.len() - i,
{
    if i < s.len() {
        lemma_digits_value_grows(s, i + 1);
        let t = s.subrange(0, i + 1);
        assert(t.drop_last() =~= s.subrange(0, i));
    } else {
        assert(s.subrange(0, i) =~= s);
    }
}

/// The number that field `s[lo..hi]` spells, if it is one.
fn parse_field(s: &Vec<char>, lo: usize, hi: usize) -> (r: Option<u64>)
    requires
        lo <= hi <= s@.len(),
    ensures
        r == field_number(s@.subrange(lo as int, hi as int)),
{
    let ghost f = s@.subrange(lo as int, hi as int);
    if lo == hi {
        return None;
    }
    let mut acc: u64 = 0;
    let mut i = lo;
    assert(f.subrange(0, 0) =~= Seq::<char>::empty());
    while i < hi
        invariant
            lo <= i <= hi <= s@.len(),
            f == s@.subrange(lo as int, hi as int),
            forall|j: int| 0 <= j < i - lo ==> is_digit(#[trigger] f[j]),
            acc as nat == digits_value(f.subrange(0, i - lo)),
        decreases hi - i,
    {
        let c = s[i];
        if !('0' <= c && c <= '9') {
            assert(!is_digit(f[i - lo]));
            return None;
        }
        let d = (c as u32 - '0' as u32) as u64;
        assert(f.subrange(0, i + 1 - lo).drop_last() =~= f.subrange(0, i - lo));
        assert(f.subrange(0, i + 1 - lo).last() == c);
        if acc > (u64::MAX - d) / 10 {
            proof {
                assert(acc * 10 + d > u64::MAX) by (nonlinear_arith)
                    requires
                        acc > (u64::MAX - d) / 10,
                        d <= 9,
                ;
                assert(digits_value(f.subrange(0, i + 1 - lo)) > u64::MAX);
                if forall|j: int| 0 <= j < f.len() ==> is_digit(#[trigger] f[j]) {
                    lemma_digits_value_grows(f, i + 1 - lo);
                }
            }
            return None;
        }
        assert(acc * 10 + d <= u64::MAX) by (nonlinear_arith)
            requires
                acc <= (u64::MAX - d) / 10,
                d <= 9,
        ;
        acc = acc * 10 + d;
        i = i + 1;
    }
    assert(f.subrange(0, hi - lo) =~= f);
    Some(acc)
}

proof fn lemma_sep_index(s: Seq<char>, i: int)
    requires
        0 <= i,
    ensures
        sep_index(s, i) == -1 || (i <= sep_index(s, i) < s.len() && is_version_sep(
            s[sep_index(s, i)],
        )),
        sep_index(s, i) == -1 ==> forall|j: int| i <= j < s.len() ==> !is_version_sep(s[j]),
        sep_index(s, i) >= 0 ==> forall|j: int| i <= j < sep_index(s, i) ==> !is_version_sep(s[j]),
    decreases s.len() - i,
{
    if i < s.len() && !is_version_sep(s[i]) {
        lemma_sep_index(s, i + 1);
    }
}

proof fn lemma_fields_step(s: Seq<char>, start: int, p: int)
    requires
        0 <= start <= p < s.len(),
        is_version_sep(s[p]),
        forall|j: int| start <= j < p ==> !is_version_sep(s[j]),
    ensures
        version_fields(s.subrange(start, s.len() as int)) == seq![s.subrange(start, p)]
            + version_fields(s.subrange(p + 1, s.len() as int)),
{
    let t = s.subrange(start, s.len() as int);
    lemma_sep_index(t, 0);
    let d = sep_index(t, 0);
    if d != p - start {
        if d == -1 {
            assert(!is_version_sep(t[p - start]));
        } else if d < p - start {
            assert(!is_version_sep(s[start + d]));
        } else {
            assert(t[p - start] == s[p]);
        }
    }
    assert(t.subrange(0, p - start) =~= s.subrange(start, p));
    assert(t.subrange(p - start + 1, t.len() as int) =~= s.subrange(p + 1, s.len() as int));
}

proof fn lemma_fields_last(s: Seq<char>, start: int)
    requires
        0 <= start <= s.len(),
        forall|j: int| start <= j < s.len() ==> !is_version_sep(s[j]),
    ensures
        version_fields(s.subrange(start, s.len() as int)) == seq![s.subrange(start, s.len() as int)],
{
    let t = s.subrange(start, s.len() as int);
    lemma_sep_index(t, 0);
    if sep_index(t, 0) >= 0 {
        assert(!is_version_sep(s[start + sep_index(t, 0)]));
    }
}

proof fn lemma_numbers_append(a: Seq<Seq<char>>, b: Seq<Seq<char>>)
    ensures
        numbers_of(a + b) == numbers_of(a) + numbers_of(b),
    decreases b.len(),
{
    if b.len() == 0 {
        assert(a + b =~= a);
        assert(numbers_of(a) + numbers_of(b) =~= numbers_of(a));
    } else {
        assert((a + b).drop_last() =~= a + b.drop_last());
        lemma_numbers_append(a, b.drop_last());
        assert(numbers_of(a + b) =~= numbers_of(a) + numbers_of(b));
    }
}

/// The numeric fields of a version string: it is split at `.`, `-` and `+`,
/// and the fields that are numbers are kept, in order.
pub fn parse_version(value: &str) -> (r: Vec<u64>)
    ensures
        r@ == version_numbers(value@),
{
    let s = chars_of(value);
    let n = s.len();
    let mut out: Vec<u64> = Vec::new();
    let mut start: usize = 0;
    let mut i: usize = 0;
    assert(s@.subrange(0, n as int) =~= s@);
    assert(numbers_of(Seq::<Seq<char>>::empty()) =~= Seq::<u64>::empty());
    while i < n
        invariant
            n == s@.len(),
            start <= i <= n,
            forall|j: int| start <= j < i ==> !is_version_sep(s@[j]),
            version_numbers(value@) == out@ + numbers_of(
                version_fields(s@.subrange(start as int, n as int)),
            ),
            value@ == s@,
        decreases n - i,
    {
        if s[i] == '.' || s[i] == '-' || s[i] == '+' {
            let ghost before = out@;
            let f = parse_field(&s, start, i);
            proof {
                lemma_fields_step(s@, start as int, i as int);
                let head = seq![s@.subrange(start as int, i as int)];
                lemma_numbers_append(
                    head,
                    version_fields(s@.subrange(i + 1, n as int)),
                );
                assert(head.drop_last() =~= Seq::<Seq<char>>::empty());
            }
            let ghost head = seq![s@.subrange(start as int, i as int)];
            let ghost tail = numbers_of(version_fields(s@.subrange(i + 1, n as int)));
            assert(head.drop_last() =~= Seq::<Seq<char>>::empty());
            assert(numbers_of(head.drop_last()) =~= Seq::<u64>::empty());
            assert(head.last() == s@.subrange(start as int, i as int));
            match f {
                Some(v) => {
                    out.push(v);
                    assert(numbers_of(head) =~= seq![v]);
                },
                None => {
                    assert(numbers_of(head) =~= Seq::<u64>::empty());
                },
            }
            assert(version_numbers(value@) == before + (numbers_of(head) + tail));
            assert(version_numbers(value@) =~= out@ + tail);
            start = i + 1;
        }
        i = i + 1;
    }
    let f = parse_field(&s, start, n);
    proof {
        lemma_fields_last(s@, start as int);
        let head = seq![s@.subrange(start as int, n as int)];
        assert(head.drop_last() =~= Seq::<Seq<char>>::empty());
    }
    match f {
        Some(v) => {
            out.push(v);
        },
        None => {},
    }
    assert(version_numbers(value@) =~= out@);
    out
}

/// Whether release `latest` is newer than `current`: the first numeric field
/// where they differ decides, missing fields counting as zero.
pub fn is_newer(latest: &str, current: &str) -> (r: bool)
    ensures
        r == newer(latest@, current@),
{
    let a = parse_version(latest);
    let b = parse_version(current);
    let max_len = if a.len() > b.len() {
        a.len()
    } else {
        b.len()
    };
    let mut idx: usize = 0;
    while idx < max_len
        invariant
            max_len == if a@.len() > b@.len() {
                a@.len()
            } else {
                b@.len()
            },
            idx <= max_len,
            a@ == version_numbers(latest@),
            b@ == version_numbers(current@),
            greater_from(a@, b@, 0) == greater_from(a@, b@, idx as int),
        decreases max_len - idx,
    {
        let x = if idx < a.len() {
            a[idx]
        } else {
            0
        };
        let y = if idx < b.len() {
            b[idx]
        } else {
            0
        };
        assert(x == nth_or_zero(a@, idx as int) && y == nth_or_zero(b@, idx as int));
        if x > y {
            assert(greater_from(a@, b@, idx as int));
            return true;
        }
        if x < y {
            assert(!greater_from(a@, b@, idx as int));
            return false;
        }
        idx = idx + 1;
    }
    assert(!greater_from(a@, b@, max_len as int));
    false
}

impl UpdateCheck {
    /// A successful check: an update is available exactly when the feed's
    /// version is newer than `current`.
    pub fn from_feed(info: UpdateInfo, current: &str, checked_at: i64) -> (r: UpdateCheck)
        ensures
            r.status == if newer(info.version@, current@) {
                UpdateStatus::Available
            } else {
                UpdateStatus::UpToDate
            },
            r.info == Some(info),
            r.error is None,
            r.checked_at == Some(checked_at),
    {
        let status = if is_newer(info.version.as_str(), current) {
            UpdateStatus::Available
        } else {
            UpdateStatus::UpToDate
        };
        UpdateCheck { status, info: Some(info), error: None, checked_at: Some(checked_at) }
    }

    /// A failed check, with the reason.
    pub fn failed(error: String, checked_at: i64) -> (r: UpdateCheck)
        ensures
            r.status == UpdateStatus::Error,
            r.info is None,
            r.error == Some(error),
            r.checked_at == Some(checked_at),
    {
        UpdateCheck { status: UpdateStatus::Error, info: None, error: Some(error), checked_at: Some(checked_at) }
    }
}

} // verus!
