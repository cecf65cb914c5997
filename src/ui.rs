//! Small models that the presentation layer builds on: buttons, chat message
//! cells, and the translated-text lookup.

use vstd::prelude::*;
use crate::table::{find_key, keys_distinct, lookup, put_key, Entry};
use crate::text::{chars_of, lowercase_of, string_from_chars};
use crate::types::MessageRole;

verus! {

/// Look of a button.
#[derive(Clone, Copy, Debug, PartialEq, Eq, Structural)]
pub enum ButtonVariant {
    Primary,
    Secondary,
    Transparent,
    Danger,
}

/// A button's model.
#[derive(Clone, Debug)]
pub struct Button {
    pub label: String,
    pub variant: ButtonVariant,
    pub disabled: bool,
    pub loading: bool,
}

impl Button {
    /// An enabled primary button.
    pub fn primary(label: &str) -> (r: Button)
        ensures
            r.label@ == label@,
            r.variant == ButtonVariant::Primary,
            !r.disabled,
            !r.loading,
    {
        Button { label: label.to_owned(), variant: ButtonVariant::Primary, disabled: false, loading: false }
    }

    /// An enabled secondary button.
    pub fn secondary(label: &str) -> (r: Button)
        ensures
            r.label@ == label@,
            r.variant == ButtonVariant::Secondary,
            !r.disabled,
            !r.loading,
    {
        Button {
            label: label.to_owned(),
            variant: ButtonVariant::Secondary,
            disabled: false,
            loading: false,
        }
    }
}

/// One message cell of the chat.
#[derive(Clone, Debug)]
pub struct MessageComponent {
    pub role: MessageRole,
    pub content: String,
    pub timestamp: i64,
}

impl MessageComponent {
    /// A cell with the given fields.
    pub fn new(role: MessageRole, content: String, timestamp: i64) -> (r: MessageComponent)
        ensures
            r.role == role,
            r.content == content,
            r.timestamp == timestamp,
    {
        MessageComponent { role, content, timestamp }
    }
}

/// `s` with each occurrence of `pat`, scanning left to right without
/// overlap, replaced by `rep` (for a non-empty `pat`).
pub open spec fn replace_all(s: Seq<char>, pat: Seq<char>, rep: Seq<char>) -> Seq<char>
    decreases s.len(),
{
    if pat.len() == 0 || s.len() < pat.len() {
        s
    } else if s.subrange(0, pat.len() as int) == pat {
        rep + replace_all(s.subrange(pat.len() as int, s.len() as int), pat, rep)
    } else {
        seq![s[0]] + replace_all(s.drop_first(), pat, rep)
    }
}

/// A parameter name in braces, as it stands in a message template.
pub open spec fn braced(p: Seq<char>) -> Seq<char> {
    seq!['{'] + p + seq!['}']
}

/// A template with each parameter's placeholder replaced, in order.
pub open spec fn substituted(v: Seq<char>, params: Seq<(Seq<char>, Seq<char>)>) -> Seq<char>
    decreases params.len(),
{
    if params.len() == 0 {
        v
    } else {
        replace_all(
            substituted(v, params.drop_last()),
            braced(params.last().0),
            params.last().1,
        )
    }
}

/// Whether `pat` occurs in `s` at `i`.
fn occurs_at(s: &Vec<char>, i: usize, pat: &Vec<char>) -> (r: bool)
    requires
        i + pat@.len() <= s@.len(),
    ensures
        r == (s@.subrange(i as int, i + pat@.len()) == pat@),
{
    let m = pat.len();
    let n = s.len();
    let mut j: usize = 0;
    while j < m
        invariant
            m == pat@.len(),
            n == s@.len(),
            i + m <= n,
            j <= m,
            s@.subrange(i as int, i + j) == pat@.subrange(0, j as int),
        decreases m - j,
    {
        if s[i + j] != pat[j] {
            assert(s@.subrange(i as int, i + m)[j as int] != pat@[j as int]);
            return false;
        }
        assert(s@.subrange(i as int, i + j + 1) =~= pat@.subrange(0, j + 1));
        j = j + 1;
    }
    assert(pat@.subrange(0, m as int) =~= pat@);
    true
}

/// `s` with `pat` replaced by `rep`, as `replace_all` says.
pub fn replace_chars(s: &Vec<char>, pat: &Vec<char>, rep: &Vec<char>) -> (r: Vec<char>)
    requires
        pat@.len() > 0,
    ensures
        r@ == replace_all(s@, pat@, rep@),
{
    let n = s.len();
    let m = pat.len();
    let mut out: Vec<char> = Vec::new();
    let mut i: usize = 0;
    assert(s@.subrange(0, n as int) =~= s@);
    while i < n
        invariant
            n == s@.len(),
            m == pat@.len(),
            m > 0,
            i <= n,
            replace_all(s@, pat@, rep@) == out@ + replace_all(
                s@.subrange(i as int, n as int),
                pat@,
                rep@,
            ),
        decreases n - i,
    {
        let ghost t = s@.subrange(i as int, n as int);
        if n - i >= m && occurs_at(s, i, pat) {
            assert(t.subrange(0, m as int) =~= s@.subrange(i as int, i + m));
            assert(t.subrange(m as int, t.len() as int) =~= s@.subrange(i + m, n as int));
            let mut k: usize = 0;
            let ghost before = out@;
            while k < rep.len()
                invariant
                    k <= rep@.len(),
                    out@ == before + rep@.subrange(0, k as int),
                decreases rep@.len() - k,
            {
                out.push(rep[k]);
                assert(out@ =~= before + rep@.subrange(0, k + 1));
                k = k + 1;
            }
            assert(rep@.subrange(0, rep@.len() as int) =~= rep@);
            assert(out@ + replace_all(s@.subrange(i + m, n as int), pat@, rep@) =~= before + (rep@
                + replace_all(s@.subrange(i + m, n as int), pat@, rep@)));
            i = i + m;
        } else {
            assert(t.drop_first() =~= s@.subrange(i + 1, n as int));
            proof {
                if t.len() < m {
                    assert(replace_all(t.drop_first(), pat@, rep@) == t.drop_first());
                    assert(seq![t[0]] + t.drop_first() =~= t);
                } else {
                    assert(t.subrange(0, m as int) =~= s@.subrange(i as int, i + m));
                }
            }
            let ghost before = out@;
            out.push(s[i]);
            assert(out@ + replace_all(s@.subrange(i + 1, n as int), pat@, rep@) =~= before + (seq![
                t[0],
            ] + replace_all(t.drop_first(), pat@, rep@)));
            i = i + 1;
        }
    }
    assert(out@ + replace_all(s@.subrange(n as int, n as int), pat@, rep@) =~= out@);
    out
}

/// The text of the last entry with key `k`, if any.
pub open spec fn last_text(es: Seq<(String, String)>, k: Seq<char>) -> Option<Seq<char>>
    decreases es.len(),
{
    if es.len() == 0 {
        None
    } else if es.last().0@ == k {
        Some(es.last().1@)
    } else {
        last_text(es.drop_last(), k)
    }
}

/// Translated texts of one locale.
#[derive(Clone)]
pub struct I18n {
    locale: String,
    messages: Vec<Entry<String>>,
}

impl I18n {
    /// The locale name.
    pub closed spec fn locale_view(&self) -> Seq<char> {
        self.locale@
    }

    /// The text for a key, if the locale has one.
    pub closed spec fn text_of(&self, key: Seq<char>) -> Option<Seq<char>> {
        match lookup(self.messages@, key) {
            Some(v) => Some(v@),
            None => None,
        }
    }

    /// The table is well formed.
    pub closed spec fn wf(&self) -> bool {
        keys_distinct(self.messages@)
    }

    /// Texts for `locale`; where a key repeats, its last text counts.
    pub fn new(locale: String, entries: Vec<(String, String)>) -> (r: I18n)
        ensures
            r.wf(),
            r.locale_view() == locale@,
            forall|k: Seq<char>| #[trigger] r.text_of(k) == last_text(entries@, k),
    {
        let mut messages: Vec<Entry<String>> = Vec::new();
        let mut entries = entries;
        let ghost all = entries@;
        let n = entries.len();
        let mut i: usize = 0;
        while i < n
            invariant
                n == all.len(),
                i <= n,
                entries@ == all.subrange(i as int, n as int),
                keys_distinct(messages@),
                forall|k: Seq<char>|
                    #![trigger lookup(messages@, k)]
                    match lookup(messages@, k) {
                        Some(v) => last_text(all.subrange(0, i as int), k) == Some(v@),
                        None => last_text(all.subrange(0, i as int), k) is None,
                    },
            decreases n - i,
        {
            let (k, v) = entries.remove(0);
            assert(all[i as int] == (k, v));
            let ghost kv = k@;
            let ghost before = messages@;
            let ghost vv = v@;
            put_key(&mut messages, k, v);
            assert(all.subrange(0, i + 1).drop_last() =~= all.subrange(0, i as int));
            assert(all.subrange(0, i + 1).last() == all[i as int]);
            assert forall|k2: Seq<char>|
                #![trigger lookup(messages@, k2)]
                match lookup(messages@, k2) {
                    Some(v2) => last_text(all.subrange(0, i + 1), k2) == Some(v2@),
                    None => last_text(all.subrange(0, i + 1), k2) is None,
                } by {
                if k2 != kv {
                    assert(lookup(messages@, k2) == lookup(before, k2));
                }
            }
            assert(entries@ =~= all.subrange(i + 1, n as int));
            i = i + 1;
        }
        assert(all.subrange(0, n as int) =~= all);
        let r = I18n { locale, messages };
        assert forall|k: Seq<char>| #[trigger] r.text_of(k) == last_text(all, k) by {
            assert(match lookup(r.messages@, k) {
                Some(v) => last_text(all, k) == Some(v@),
                None => last_text(all, k) is None,
            });
        }
        r
    }

    /// The locale name.
    pub fn locale(&self) -> (r: &str)
        ensures
            r@ == self.locale_view(),
    {
        self.locale.as_str()
    }

    /// The text for `key`, or the key itself where the locale has none.
    pub fn t(&self, key: &str) -> (r: String)
        requires
            self.wf(),
        ensures
            r@ == match self.text_of(key@) {
                Some(v) => v,
                None => key@,
            },
    {
        let k = key.to_owned();
        match find_key(&self.messages, &k) {
            Some(i) => self.messages[i].value.clone(),
            None => k,
        }
    }

    /// The text for `key` with each `{param}` replaced by its value, the
    /// parameters taken in order.
    pub fn format(&self, key: &str, params: &[(&str, &str)]) -> (r: String)
        requires
            self.wf(),
        ensures
            r@ == substituted(
                match self.text_of(key@) {
                    Some(v) => v,
                    None => key@,
                },
                params@.map_values(|p: (&str, &str)| (p.0@, p.1@)),
            ),
    {
        let ghost ps = params@.map_values(|p: (&str, &str)| (p.0@, p.1@));
        let base = self.t(key);
        let mut value = chars_of(base.as_str());
        let ghost v0 = value@;
        let mut i: usize = 0;
        assert(ps.subrange(0, 0) =~= Seq::<(Seq<char>, Seq<char>)>::empty());
        while i < params.len()
            invariant
                i <= params@.len(),
                ps == params@.map_values(|p: (&str, &str)| (p.0@, p.1@)),
                value@ == substituted(v0, ps.subrange(0, i as int)),
            decreases params@.len() - i,
        {
            let (param, replacement) = params[i];
            let mut pat: Vec<char> = Vec::new();
            pat.push('{');
            let pc = chars_of(param);
            let mut j: usize = 0;
            while j < pc.len()
                invariant
                    j <= pc@.len(),
                    pat@ == seq!['{'] + pc@.subrange(0, j as int),
                decreases pc@.len() - j,
            {
                pat.push(pc[j]);
                assert(pat@ =~= seq!['{'] + pc@.subrange(0, j + 1));
                j = j + 1;
            }
            pat.push('}');
            assert(pc@.subrange(0, pc@.len() as int) =~= pc@);
            assert(pat@ =~= braced(param@));
            let rep = chars_of(replacement);
            value = replace_chars(&value, &pat, &rep);
            assert(ps.subrange(0, i + 1).drop_last() =~= ps.subrange(0, i as int));
            assert(ps.subrange(0, i + 1).last() == (param@, replacement@));
            i = i + 1;
        }
        assert(ps.subrange(0, params@.len() as int) =~= ps);
        string_from_chars(&value)
    }
}

} // verus!

verus! {

/// The part of `s` before its first `.`, all of it where there is none.
pub open spec fn before_dot(s: Seq<char>) -> Seq<char>
    decreases s.len(),
{
    if s.len() == 0 {
        s
    } else if s[0] == '.' {
        Seq::empty()
    } else {
        seq![s[0]] + before_dot(s.drop_first())
    }
}

/// `s` with each `-` turned into `_`.
pub open spec fn dashes_to_underscores(s: Seq<char>) -> Seq<char> {
    s.map_values(|c: char| if c == '-' {
        '_'
    } else {
        c
    })
}

/// The locale name that a locale variable's value gives: trimmed, cut at the
/// first `.` (dropping an encoding), `-` turned into `_`, lower-cased; none
/// where nothing is left.
pub open spec fn locale_name(value: Seq<char>) -> Option<Seq<char>> {
    let t = crate::block::trim(value);
    let n = lowercase_of(dashes_to_underscores(before_dot(t)));
    if t.len() == 0 || n.len() == 0 {
        None
    } else {
        Some(n)
    }
}

/// Normalises the value of a locale variable (`LC_ALL`, `LANG`, ...).
pub fn normalize_locale(value: &str) -> (r: Option<String>)
    ensures
        match r {
            Some(n) => locale_name(value@) == Some(n@),
            None => locale_name(value@) is None,
        },
{
    let cs = chars_of(value);
    let t = crate::block::trimmed(&cs, 0, cs.len());
    assert(cs@.subrange(0, cs@.len() as int) =~= cs@);
    if t.len() == 0 {
        return None;
    }
    let mut head: Vec<char> = Vec::new();
    let mut i: usize = 0;
    assert(t@.subrange(0, t@.len() as int) =~= t@);
    assert(t@.subrange(0, 0) + before_dot(t@) =~= before_dot(t@));
    assert(head@ =~= dashes_to_underscores(t@.subrange(0, 0)));
    while i < t.len() && t[i] != '.'
        invariant
            i <= t@.len(),
            forall|j: int| 0 <= j < i ==> t@[j] != '.',
            head@ == dashes_to_underscores(t@.subrange(0, i as int)),
            before_dot(t@) == t@.subrange(0, i as int) + before_dot(t@.subrange(i as int, t@.len() as int)),
        decreases t@.len() - i,
    {
        let c = t[i];
        head.push(if c == '-' {
            '_'
        } else {
            c
        });
        let ghost rest = t@.subrange(i as int, t@.len() as int);
        assert(rest.drop_first() =~= t@.subrange(i + 1, t@.len() as int));
        assert(t@.subrange(0, i as int) + seq![c] =~= t@.subrange(0, i + 1));
        assert(head@ =~= dashes_to_underscores(t@.subrange(0, i + 1)));
        assert(rest[0] == c);
        assert(before_dot(rest) == seq![c] + before_dot(rest.drop_first()));
        assert(t@.subrange(0, i as int) + (seq![c] + before_dot(rest.drop_first())) =~= t@.subrange(
            0,
            i + 1,
        ) + before_dot(t@.subrange(i + 1, t@.len() as int)));
        i = i + 1;
    }
    proof {
        let rest = t@.subrange(i as int, t@.len() as int);
        assert(before_dot(rest) =~= Seq::<char>::empty());
        assert(t@.subrange(0, i as int) + Seq::<char>::empty() =~= t@.subrange(0, i as int));
    }
    let joined = string_from_chars(&head);
    let lowered = crate::text::lowercase(joined.as_str());
    if lowered.as_str().is_empty() {
        None
    } else {
        Some(lowered)
    }
}

} // verus!
