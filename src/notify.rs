//! Lookups in the `user.cfg` and `datacenter.cfg` texts for notification defaults.

use vstd::prelude::*;

verus! {

/// White space as `char::is_whitespace` defines it: the Unicode `White_Space` property.
pub open spec fn is_unicode_ws(c: char) -> bool {
    ('\t' <= c && c <= '\r') || c == ' ' || c == '\u{85}' || c == '\u{A0}' || c == '\u{1680}'
        || ('\u{2000}' <= c && c <= '\u{200A}') || c == '\u{2028}' || c == '\u{2029}' || c
        == '\u{202F}' || c == '\u{205F}' || c == '\u{3000}'
}

fn char_is_unicode_ws(c: char) -> (r: bool)
    ensures
        r == is_unicode_ws(c),
{
    ('\t' <= c && c <= '\r') || c == ' ' || c == '\u{85}' || c == '\u{A0}' || c == '\u{1680}'
        || ('\u{2000}' <= c && c <= '\u{200A}') || c == '\u{2028}' || c == '\u{2029}' || c
        == '\u{202F}' || c == '\u{205F}' || c == '\u{3000}'
}

pub open spec fn ws_start(s: Seq<char>, i: int) -> int
    decreases s.len() - i,
{
    if i >= s.len() {
        s.len() as int
    } else if !is_unicode_ws(s[i]) {
        i
    } else {
        ws_start(s, i + 1)
    }
}

pub open spec fn ws_end(s: Seq<char>, i: int) -> int
    decreases i,
{
    if i <= 0 {
        0
    } else if !is_unicode_ws(s[i - 1]) {
        i
    } else {
        ws_end(s, i - 1)
    }
}

/// `s` without white space at either end, as `str::trim` gives it.
pub open spec fn trim_spec(s: Seq<char>) -> Seq<char> {
    let t = s.subrange(0, ws_end(s, s.len() as int));
    t.subrange(ws_start(t, 0), t.len() as int)
}

proof fn lemma_ws_end(s: Seq<char>, i: int)
    requires
        0 <= i <= s.len(),
    ensures
        0 <= ws_end(s, i) <= i,
    decreases i,
{
    if i > 0 && is_unicode_ws(s[i - 1]) {
        lemma_ws_end(s, i - 1);
    }
}

proof fn lemma_ws_start(s: Seq<char>, i: int)
    requires
        0 <= i <= s.len(),
    ensures
        i <= ws_start(s, i) <= s.len(),
    decreases s.len() - i,
{
    if i < s.len() && is_unicode_ws(s[i]) {
        lemma_ws_start(s, i + 1);
    }
}

/// The bounds of `s[a..b]` without white space at either end.
fn trim_range(s: &Vec<char>, a: usize, b: usize) -> (r: (usize, usize))
    requires
        a <= b <= s@.len(),
    ensures
        a <= r.0 <= r.1 <= b,
        s@.subrange(r.0 as int, r.1 as int) == trim_spec(s@.subrange(a as int, b as int)),
{
    let ghost w = s@.subrange(a as int, b as int);
    let mut e: usize = b;
    while e > a && char_is_unicode_ws(s[e - 1])
        invariant
            a <= e <= b <= s@.len(),
            w == s@.subrange(a as int, b as int),
            ws_end(w, w.len() as int) == ws_end(w, e - a),
        decreases e,
    {
        e = e - 1;
    }
    proof {
        lemma_ws_end(w, w.len() as int);
    }
    let ghost t = w.subrange(0, e - a);
    assert(t =~= s@.subrange(a as int, e as int));
    let mut f: usize = a;
    while f < e && char_is_unicode_ws(s[f])
        invariant
            a <= f <= e <= b <= s@.len(),
            t == s@.subrange(a as int, e as int),
            ws_start(t, 0) == ws_start(t, f - a),
        decreases e - f,
    {
        f = f + 1;
    }
    proof {
        lemma_ws_start(t, 0);
    }
    assert(s@.subrange(f as int, e as int) =~= t.subrange(f - a, t.len() as int));
    (f, e)
}

/// The pieces of `s` between the occurrences of `sep`, as `str::split` gives them, scanning
/// on from `i` with the current piece starting at `start`.
pub open spec fn split_from(s: Seq<char>, sep: char, start: int, i: int) -> Seq<Seq<char>>
    decreases s.len() - i,
{
    if i >= s.len() {
        seq![s.subrange(start, s.len() as int)]
    } else if s[i] == sep {
        seq![s.subrange(start, i)] + split_from(s, sep, i + 1, i + 1)
    } else {
        split_from(s, sep, start, i + 1)
    }
}

/// The pieces of `s` between the occurrences of `sep`.
pub open spec fn split_spec(s: Seq<char>, sep: char) -> Seq<Seq<char>> {
    split_from(s, sep, 0, 0)
}

/// The bounds, within `s[a..b]`, of the pieces between occurrences of `sep`.
fn split_range(s: &Vec<char>, a: usize, b: usize, sep: char) -> (r: Vec<(usize, usize)>)
    requires
        a <= b <= s@.len(),
    ensures
        r@.len() == split_spec(s@.subrange(a as int, b as int), sep).len(),
        forall|k: int|
            0 <= k < r@.len() ==> a <= (#[trigger] r@[k]).0 <= r@[k].1 <= b && s@.subrange(
                r@[k].0 as int,
                r@[k].1 as int,
            ) == split_spec(s@.subrange(a as int, b as int), sep)[k],
{
    let ghost w = s@.subrange(a as int, b as int);
    let mut out: Vec<(usize, usize)> = Vec::new();
    let mut start: usize = a;
    let mut i: usize = a;
    while i < b
        invariant
            a <= start <= i <= b <= s@.len(),
            w == s@.subrange(a as int, b as int),
            split_spec(w, sep) == out@.map_values(
                |p: (usize, usize)| s@.subrange(p.0 as int, p.1 as int),
            ) + split_from(w, sep, start - a, i - a),
            forall|k: int| 0 <= k < out@.len() ==> a <= (#[trigger] out@[k]).0 <= out@[k].1 <= b,
        decreases b - i,
    {
        if s[i] == sep {
            let ghost before = out@;
            assert(w.subrange(start - a, i - a) =~= s@.subrange(start as int, i as int));
            out.push((start, i));
            assert(out@.map_values(|p: (usize, usize)| s@.subrange(p.0 as int, p.1 as int))
                =~= before.map_values(|p: (usize, usize)| s@.subrange(p.0 as int, p.1 as int))
                + seq![s@.subrange(start as int, i as int)]);
            start = i + 1;
        }
        i = i + 1;
    }
    let ghost before = out@;
    assert(w.subrange(start - a, w.len() as int) =~= s@.subrange(start as int, b as int));
    out.push((start, b));
    let ghost pieces = out@.map_values(|p: (usize, usize)| s@.subrange(p.0 as int, p.1 as int));
    assert(pieces =~= before.map_values(|p: (usize, usize)| s@.subrange(p.0 as int, p.1 as int))
        + seq![s@.subrange(start as int, b as int)]);
    assert(pieces =~= split_spec(w, sep));
    assert forall|k: int| 0 <= k < out@.len() implies s@.subrange(
        (#[trigger] out@[k]).0 as int,
        out@[k].1 as int,
    ) == split_spec(w, sep)[k] by {
        assert(pieces[k] == s@.subrange(out@[k].0 as int, out@[k].1 as int));
    }
    out
}

/// Relies on `str::chars`: the characters of a string in order.
#[verifier::external_body]
fn chars_of(s: &str) -> (r: Vec<char>)
    ensures
        r@ == s@,
{
    s.chars().collect()
}

/// Relies on `String`'s `FromIterator<char>`: the string of these characters.
#[verifier::external_body]
fn string_of(cs: &[char]) -> (r: String)
    ensures
        r@ == cs@,
{
    cs.iter().collect()
}

/// The trimmed text, or `None` where nothing is left of it.
pub open spec fn normalize_spec(s: Option<Seq<char>>) -> Option<Seq<char>> {
    match s {
        None => None,
        Some(x) => if trim_spec(x).len() == 0 {
            None
        } else {
            Some(trim_spec(x))
        },
    }
}

/// Trims a looked-up value; an empty or blank value counts as none.
pub fn normalize_for_return(s: Option<&str>) -> (r: Option<String>)
    ensures
        match r {
            Some(t) => normalize_spec(Some(s->Some_0@)) == Some(t@) && s is Some,
            None => normalize_spec(
                match s {
                    Some(x) => Some(x@),
                    None => None,
                },
            ) is None,
        },
{
    let s = match s {
        Some(s) => s,
        None => return None,
    };
    let cs = chars_of(s);
    let (a, b) = trim_range(&cs, 0, cs.len());
    assert(cs@.subrange(0, cs@.len() as int) =~= cs@);
    if a == b {
        None
    } else {
        Some(string_of(&cs.as_slice()[a..b]))
    }
}

/// The mail address on a `user.cfg` line of `user`: its seventh `:`-separated field, where
/// the first is `user` and the second is the user id, both with white space around ignored.
pub open spec fn mail_of_line(line: Seq<char>, user: Seq<char>) -> Option<Seq<char>> {
    let f = split_spec(line, ':');
    if f.len() >= 7 && trim_spec(f[0]) == seq!['u', 's', 'e', 'r'] && trim_spec(f[1]) == user {
        Some(f[6])
    } else {
        None
    }
}

/// The first of `lines` that gives a mail address for `user`, and that address.
pub open spec fn first_mail(lines: Seq<Seq<char>>, user: Seq<char>) -> Option<Seq<char>>
    decreases lines.len(),
{
    if lines.len() == 0 {
        None
    } else {
        match mail_of_line(lines[0], user) {
            Some(m) => Some(m),
            None => first_mail(lines.drop_first(), user),
        }
    }
}

proof fn lemma_first_mail_skip(lines: Seq<Seq<char>>, user: Seq<char>, i: int)
    requires
        0 <= i < lines.len(),
        forall|j: int| 0 <= j < i ==> mail_of_line(#[trigger] lines[j], user) is None,
    ensures
        first_mail(lines, user) == first_mail(lines.subrange(i, lines.len() as int), user),
    decreases i,
{
    if i > 0 {
        let rest = lines.drop_first();
        assert forall|j: int| 0 <= j < i - 1 implies mail_of_line(#[trigger] rest[j], user) is None by {
            assert(rest[j] == lines[j + 1]);
        }
        lemma_first_mail_skip(rest, user, i - 1);
        assert(rest.subrange(i - 1, rest.len() as int) =~= lines.subrange(i, lines.len() as int));
    } else {
        assert(lines.subrange(0, lines.len() as int) =~= lines);
    }
}

/// The mail address of `user` in the text of `user.cfg`: from the first line of the form
/// `user:<user>:…` that has a seventh field, trimmed; `None` if there is none or it is blank.
pub fn lookup_mail_address(content: &str, user: &str) -> (r: Option<String>)
    ensures
        match r {
            Some(t) => normalize_spec(first_mail(split_spec(content@, '\n'), user@)) == Some(t@),
            None => normalize_spec(first_mail(split_spec(content@, '\n'), user@)) is None,
        },
{
    let cs = chars_of(content);
    let us = chars_of(user);
    assert(cs@.subrange(0, cs@.len() as int) =~= cs@);
    let lines = split_range(&cs, 0, cs.len(), '\n');
    let ghost ls = split_spec(cs@, '\n');
    let mut i: usize = 0;
    while i < lines.len()
        invariant
            i <= lines@.len(),
            lines@.len() == ls.len(),
            ls == split_spec(cs@, '\n'),
            cs@ == content@,
            us@ == user@,
            forall|k: int|
                0 <= k < lines@.len() ==> (#[trigger] lines@[k]).0 <= lines@[k].1 <= cs@.len()
                    && cs@.subrange(lines@[k].0 as int, lines@[k].1 as int) == ls[k],
            forall|j: int| 0 <= j < i ==> mail_of_line(#[trigger] ls[j], user@) is None,
        decreases lines.len() - i,
    {
        let (a, b) = lines[i];
        let ghost line = cs@.subrange(a as int, b as int);
        let ghost f = split_spec(line, ':');
        assert(line == ls[i as int]);
        let fields = split_range(&cs, a, b, ':');
        if fields.len() >= 7 {
            let (f0a, f0b) = fields[0];
            let (t0a, t0b) = trim_range(&cs, f0a, f0b);
            let (f1a, f1b) = fields[1];
            let (t1a, t1b) = trim_range(&cs, f1a, f1b);
            assert(cs@.subrange(f0a as int, f0b as int) == f[0]);
            assert(cs@.subrange(f1a as int, f1b as int) == f[1]);
            let is_user = t0b - t0a == 4 && cs[t0a] == 'u' && cs[t0a + 1] == 's' && cs[t0a + 2]
                == 'e' && cs[t0a + 3] == 'r';
            proof {
                let t0 = cs@.subrange(t0a as int, t0b as int);
                if is_user {
                    assert(t0 =~= seq!['u', 's', 'e', 'r']);
                }
                if t0 == seq!['u', 's', 'e', 'r'] {
                    assert(t0.len() == 4);
                    assert(t0[0] == 'u' && t0[1] == 's' && t0[2] == 'e' && t0[3] == 'r');
                    assert(cs@[t0a as int] == t0[0]);
                    assert(cs@[t0a + 1] == t0[1]);
                    assert(cs@[t0a + 2] == t0[2]);
                    assert(cs@[t0a + 3] == t0[3]);
                    assert(is_user);
                }
                assert(t0 == trim_spec(f[0]));
                assert(is_user == (trim_spec(f[0]) == seq!['u', 's', 'e', 'r']));
            }
            if is_user && same_chars(&cs, t1a, t1b, &us) {
                let (f6a, f6b) = fields[6];
                let found = string_of(&cs.as_slice()[f6a..f6b]);
                proof {
                    assert(found@ == f[6]);
                    assert(mail_of_line(ls[i as int], user@) == Some(f[6]));
                    lemma_first_mail_skip(ls, user@, i as int);
                    assert(ls.subrange(i as int, ls.len() as int)[0] == ls[i as int]);
                    assert(first_mail(ls.subrange(i as int, ls.len() as int), user@) == Some(f[6]));
                    assert(first_mail(ls, user@) == Some(found@));
                    assert(ls == split_spec(content@, '\n'));
                }
                return normalize_for_return(Some(found.as_str()));
            }
        }
        assert(mail_of_line(ls[i as int], user@) is None);
        i = i + 1;
    }
    proof {
        lemma_first_mail_none(ls, user@);
    }
    None
}

proof fn lemma_first_mail_none(lines: Seq<Seq<char>>, user: Seq<char>)
    requires
        forall|j: int| 0 <= j < lines.len() ==> mail_of_line(#[trigger] lines[j], user) is None,
    ensures
        first_mail(lines, user) is None,
    decreases lines.len(),
{
    if lines.len() > 0 {
        let rest = lines.drop_first();
        assert(mail_of_line(lines[0], user) is None);
        assert forall|j: int| 0 <= j < rest.len() implies mail_of_line(#[trigger] rest[j], user) is None by {
            assert(rest[j] == lines[j + 1]);
        }
        lemma_first_mail_none(rest, user);
    }
}

/// Whether `s[a..b]` holds exactly the characters of `t`.
fn same_chars(s: &Vec<char>, a: usize, b: usize, t: &Vec<char>) -> (r: bool)
    requires
        a <= b <= s@.len(),
    ensures
        r == (s@.subrange(a as int, b as int) == t@),
{
    if b - a != t.len() {
        return false;
    }
    let mut i: usize = 0;
    while i < t.len()
        invariant
            i <= t@.len(),
            b - a == t@.len(),
            a <= b <= s@.len(),
            forall|j: int| 0 <= j < i ==> s@[a + j] == t@[j],
        decreases t.len() - i,
    {
        if s[a + i] != t[i] {
            assert(s@.subrange(a as int, b as int)[i as int] != t@[i as int]);
            return false;
        }
        i = i + 1;
    }
    assert(s@.subrange(a as int, b as int) =~= t@);
    true
}

/// The rest of `line` after `prefix`, if it starts with it.
pub open spec fn value_of_line(line: Seq<char>, prefix: Seq<char>) -> Option<Seq<char>> {
    if line.len() >= prefix.len() && line.subrange(0, prefix.len() as int) == prefix {
        Some(line.subrange(prefix.len() as int, line.len() as int))
    } else {
        None
    }
}

/// The rest of the first of `lines` that starts with `prefix`.
pub open spec fn first_value(lines: Seq<Seq<char>>, prefix: Seq<char>) -> Option<Seq<char>>
    decreases lines.len(),
{
    if lines.len() == 0 {
        None
    } else {
        match value_of_line(lines[0], prefix) {
            Some(v) => Some(v),
            None => first_value(lines.drop_first(), prefix),
        }
    }
}

proof fn lemma_first_value_skip(lines: Seq<Seq<char>>, prefix: Seq<char>, i: int)
    requires
        0 <= i <= lines.len(),
        forall|j: int| 0 <= j < i ==> value_of_line(#[trigger] lines[j], prefix) is None,
    ensures
        first_value(lines, prefix) == first_value(lines.subrange(i, lines.len() as int), prefix),
    decreases i,
{
    if i > 0 {
        let rest = lines.drop_first();
        assert forall|j: int| 0 <= j < i - 1 implies value_of_line(#[trigger] rest[j], prefix) is None by {
            assert(rest[j] == lines[j + 1]);
        }
        lemma_first_value_skip(rest, prefix, i - 1);
        assert(rest.subrange(i - 1, rest.len() as int) =~= lines.subrange(i, lines.len() as int));
    } else {
        assert(lines.subrange(0, lines.len() as int) =~= lines);
    }
}

/// The value of `key` in the text of `datacenter.cfg`: the rest of the first line that starts
/// with `<key>:`, trimmed; `None` if there is none or it is blank.
pub fn lookup_datacenter_config_key(content: &str, key: &str) -> (r: Option<String>)
    ensures
        match r {
            Some(t) => normalize_spec(first_value(split_spec(content@, '\n'), key@.push(':')))
                == Some(t@),
            None => normalize_spec(first_value(split_spec(content@, '\n'), key@.push(':')))
                is None,
        },
{
    let cs = chars_of(content);
    let mut prefix = chars_of(key);
    prefix.push(':');
    assert(cs@.subrange(0, cs@.len() as int) =~= cs@);
    let lines = split_range(&cs, 0, cs.len(), '\n');
    let ghost ls = split_spec(cs@, '\n');
    let mut i: usize = 0;
    while i < lines.len()
        invariant
            i <= lines@.len(),
            lines@.len() == ls.len(),
            ls == split_spec(cs@, '\n'),
            cs@ == content@,
            prefix@ == key@.push(':'),
            forall|k: int|
                0 <= k < lines@.len() ==> (#[trigger] lines@[k]).0 <= lines@[k].1 <= cs@.len()
                    && cs@.subrange(lines@[k].0 as int, lines@[k].1 as int) == ls[k],
            forall|j: int| 0 <= j < i ==> value_of_line(#[trigger] ls[j], prefix@) is None,
        decreases lines.len() - i,
    {
        let (a, b) = lines[i];
        let ghost line = cs@.subrange(a as int, b as int);
        assert(line == ls[i as int]);
        if b - a >= prefix.len() && same_chars(&cs, a, a + prefix.len(), &prefix) {
            assert(line.subrange(0, prefix@.len() as int) =~= cs@.subrange(
                a as int,
                a + prefix@.len(),
            ));
            let found = string_of(&cs.as_slice()[a + prefix.len()..b]);
            proof {
                assert(found@ =~= line.subrange(prefix@.len() as int, line.len() as int));
                lemma_first_value_skip(ls, prefix@, i as int);
                assert(ls.subrange(i as int, ls.len() as int)[0] == ls[i as int]);
                assert(first_value(ls.subrange(i as int, ls.len() as int), prefix@) == Some(found@));
            }
            return normalize_for_return(Some(found.as_str()));
        }
        proof {
            if b - a >= prefix@.len() {
                assert(line.subrange(0, prefix@.len() as int) =~= cs@.subrange(
                    a as int,
                    a + prefix@.len(),
                ));
            }
        }
        i = i + 1;
    }
    proof {
        lemma_first_value_skip(ls, prefix@, i as int);
        assert(ls.subrange(i as int, ls.len() as int).len() == 0);
    }
    None
}

} // verus!
