//! Character-level helpers: trimming, splitting key lists, reading decimal numbers.

use vstd::prelude::*;
use vstd::string::{StrSliceExecFns, StringExecFns};

verus! {

/// ASCII white space as `char::is_ascii_whitespace` defines it.
pub open spec fn is_ws_char(c: char) -> bool {
    c == ' ' || c == '\t' || c == '\n' || c == '\x0C' || c == '\r'
}

pub fn char_is_ws(c: char) -> (r: bool)
    ensures
        r == is_ws_char(c),
{
    c == ' ' || c == '\t' || c == '\n' || c == '\x0C' || c == '\r'
}

pub open spec fn first_non_ws_char(s: Seq<char>, i: int) -> int
    decreases s.len() - i,
{
    if i >= s.len() {
        s.len() as int
    } else if !is_ws_char(s[i]) {
        i
    } else {
        first_non_ws_char(s, i + 1)
    }
}

pub open spec fn end_non_ws_char(s: Seq<char>, i: int) -> int
    decreases i,
{
    if i <= 0 {
        0
    } else if !is_ws_char(s[i - 1]) {
        i
    } else {
        end_non_ws_char(s, i - 1)
    }
}

/// `s` without ASCII white space at either end.
pub open spec fn trim_chars(s: Seq<char>) -> Seq<char> {
    let t = s.subrange(0, end_non_ws_char(s, s.len() as int));
    t.subrange(first_non_ws_char(t, 0), t.len() as int)
}

proof fn lemma_first_non_ws_char(s: Seq<char>, i: int)
    requires
        0 <= i <= s.len(),
    ensures
        i <= first_non_ws_char(s, i) <= s.len(),
    decreases s.len() - i,
{
    if i < s.len() && is_ws_char(s[i]) {
        lemma_first_non_ws_char(s, i + 1);
    }
}

proof fn lemma_end_non_ws_char(s: Seq<char>, i: int)
    requires
        0 <= i <= s.len(),
    ensures
        0 <= end_non_ws_char(s, i) <= i,
    decreases i,
{
    if i > 0 && is_ws_char(s[i - 1]) {
        lemma_end_non_ws_char(s, i - 1);
    }
}

/// `s` without ASCII white space at either end.
pub fn trim_str(s: &str) -> (r: &str)
    ensures
        r@ == trim_chars(s@),
{
    let n = s.unicode_len();
    let mut e: usize = n;
    while e > 0 && char_is_ws(s.get_char(e - 1))
        invariant
            e <= n,
            n == s@.len(),
            end_non_ws_char(s@, n as int) == end_non_ws_char(s@, e as int),
        decreases e,
    {
        e = e - 1;
    }
    proof {
        lemma_end_non_ws_char(s@, n as int);
    }
    let t = s.substring_char(0, e);
    let mut b: usize = 0;
    while b < e && char_is_ws(t.get_char(b))
        invariant
            b <= e,
            e == t@.len(),
            first_non_ws_char(t@, 0) == first_non_ws_char(t@, b as int),
        decreases e - b,
    {
        b = b + 1;
    }
    t.substring_char(b, e)
}

/// The separators of a list of keys.
pub open spec fn is_key_sep(c: char) -> bool {
    c == ',' || c == ';' || c == ' '
}

/// A piece as a list of at most one: empty pieces are dropped.
pub open spec fn nonempty_piece(p: Seq<char>) -> Seq<Seq<char>> {
    if p.len() == 0 {
        Seq::empty()
    } else {
        seq![p]
    }
}

/// The trimmed non-empty pieces of `s` between separators, scanning on from `i` with the
/// current piece starting at `start`.
pub open spec fn key_pieces_from(s: Seq<char>, start: int, i: int) -> Seq<Seq<char>>
    decreases s.len() - i,
{
    if i >= s.len() {
        nonempty_piece(trim_chars(s.subrange(start, s.len() as int)))
    } else if is_key_sep(s[i]) {
        nonempty_piece(trim_chars(s.subrange(start, i))) + key_pieces_from(s, i + 1, i + 1)
    } else {
        key_pieces_from(s, start, i + 1)
    }
}

/// The entries of a list separated by `,`, `;` or spaces, each trimmed of white space, with
/// the empty ones left out.
pub open spec fn key_pieces(s: Seq<char>) -> Seq<Seq<char>> {
    key_pieces_from(s, 0, 0)
}

/// Splits a list of keys separated by `,`, `;` or spaces; drops white space around each key
/// and empty keys.
pub fn split_keys(s: &str) -> (r: Vec<String>)
    ensures
        r@.map_values(|k: String| k@) == key_pieces(s@),
{
    let n = s.unicode_len();
    let mut out: Vec<String> = Vec::new();
    let mut start: usize = 0;
    let mut i: usize = 0;
    while i < n
        invariant
            start <= i <= n,
            n == s@.len(),
            key_pieces(s@) == out@.map_values(|k: String| k@) + key_pieces_from(
                s@,
                start as int,
                i as int,
            ),
        decreases n - i,
    {
        if is_sep(s.get_char(i)) {
            let piece = trim_str(s.substring_char(start, i));
            let ghost before = out@;
            if piece.unicode_len() > 0 {
                out.push(piece.to_owned());
                proof {
                    assert(out@.map_values(|k: String| k@) =~= before.map_values(|k: String| k@)
                        + seq![piece@]);
                }
            }
            start = i + 1;
        }
        i = i + 1;
    }
    let piece = trim_str(s.substring_char(start, n));
    let ghost before = out@;
    if piece.unicode_len() > 0 {
        out.push(piece.to_owned());
        proof {
            assert(out@.map_values(|k: String| k@) =~= before.map_values(|k: String| k@)
                + seq![piece@]);
        }
    }
    proof {
        assert(out@.map_values(|k: String| k@) =~= key_pieces(s@));
    }
    out
}

fn is_sep(c: char) -> (r: bool)
    ensures
        r == is_key_sep(c),
{
    c == ',' || c == ';' || c == ' '
}

/// The value of a string of decimal digits.
pub open spec fn decimal_value(d: Seq<char>) -> nat
    decreases d.len(),
{
    if d.len() == 0 {
        0
    } else {
        decimal_value(d.drop_last()) * 10 + (d.last() as nat - '0' as nat) as nat
    }
}

pub open spec fn all_decimal(d: Seq<char>) -> bool {
    forall|i: int| 0 <= i < d.len() ==> '0' <= #[trigger] d[i] && d[i] <= '9'
}

/// What `usize::from_str` reads: an optional `+`, then at least one decimal digit, with a
/// value that fits.
pub open spec fn parse_usize_spec(s: Seq<char>) -> Option<usize> {
    let d = if s.len() > 0 && s[0] == '+' {
        s.drop_first()
    } else {
        s
    };
    if d.len() > 0 && all_decimal(d) && decimal_value(d) <= usize::MAX {
        Some(decimal_value(d) as usize)
    } else {
        None
    }
}

proof fn lemma_decimal_prefix_monotone(d: Seq<char>, i: int)
    requires
        0 <= i <= d.len(),
        all_decimal(d),
    ensures
        decimal_value(d.subrange(0, i)) <= decimal_value(d),
    decreases d.len() - i,
{
    if i < d.len() {
        lemma_decimal_prefix_monotone(d, i + 1);
        let p = d.subrange(0, i + 1);
        assert(p.drop_last() =~= d.subrange(0, i));
        assert(p.last() == d[i]);
        assert('0' <= d[i]);
    } else {
        assert(d.subrange(0, i) =~= d);
    }
}

/// Reads a decimal number the way `usize::from_str` does.
pub fn parse_usize(s: &str) -> (r: Option<usize>)
    ensures
        r == parse_usize_spec(s@),
{
    let n = s.unicode_len();
    let mut i: usize = 0;
    if n > 0 && s.get_char(0) == '+' {
        i = 1;
    }
    let ghost d = if s@.len() > 0 && s@[0] == '+' {
        s@.drop_first()
    } else {
        s@
    };
    let ghost off = i as int;
    assert(d =~= s@.subrange(off, n as int));
    if i >= n {
        assert(d.len() == 0);
        return None;
    }
    let mut acc: usize = 0;
    while i < n
        invariant
            0 <= off <= i <= n,
            n == s@.len(),
            d == s@.subrange(off, n as int),
            d == (if s@.len() > 0 && s@[0] == '+' {
                s@.drop_first()
            } else {
                s@
            }),
            all_decimal(d.subrange(0, i - off)),
            acc == decimal_value(d.subrange(0, i - off)),
        decreases n - i,
    {
        let c = s.get_char(i);
        let ghost j = i - off;
        assert(d[j] == c);
        if c < '0' || c > '9' {
            assert(!all_decimal(d));
            return None;
        }
        let digit = (c as u32 - '0' as u32) as usize;
        let ghost p = d.subrange(0, j + 1);
        assert(p.drop_last() =~= d.subrange(0, j));
        assert(p.last() == c);
        assert(decimal_value(p) == acc * 10 + digit);
        assert(all_decimal(p)) by {
            assert forall|k: int| 0 <= k < p.len() implies '0' <= #[trigger] p[k] && p[k] <= '9' by {
                if k < j {
                    assert(p[k] == d.subrange(0, j)[k]);
                }
            }
        }
        match acc.checked_mul(10) {
            None => {
                proof {
                    if all_decimal(d) {
                        lemma_decimal_prefix_monotone(d, j + 1);
                    }
                }
                return None;
            },
            Some(m) => match m.checked_add(digit) {
                None => {
                    proof {
                        if all_decimal(d) {
                            lemma_decimal_prefix_monotone(d, j + 1);
                        }
                    }
                    return None;
                },
                Some(v) => {
                    acc = v;
                },
            },
        }
        i = i + 1;
    }
    assert(d.subrange(0, n - off) =~= d);
    Some(acc)
}

/// The decimal digit for a value below 10.
pub open spec fn decimal_digit(d: nat) -> char {
    ((d + '0' as nat) as u32) as char
}

/// `n` written in decimal, without leading zeros.
pub open spec fn decimal_text(n: nat) -> Seq<char>
    decreases n,
{
    if n < 10 {
        seq![decimal_digit(n)]
    } else {
        decimal_text(n / 10).push(decimal_digit(n % 10))
    }
}

/// Reading a number written in decimal gives the number back.
pub proof fn lemma_decimal_text(n: nat)
    ensures
        decimal_text(n).len() > 0,
        all_decimal(decimal_text(n)),
        decimal_value(decimal_text(n)) == n,
    decreases n,
{
    let t = decimal_text(n);
    let d = n % 10;
    assert(('0' as nat + d) as u32 as nat == '0' as nat + d);
    assert(decimal_digit(d) as nat == '0' as nat + d);
    if n < 10 {
        assert(t.drop_last() =~= Seq::<char>::empty());
        assert(decimal_value(Seq::<char>::empty()) == 0);
        assert(decimal_digit(n) as nat == '0' as nat + n);
    } else {
        lemma_decimal_text(n / 10);
        assert(t.drop_last() =~= decimal_text(n / 10));
        assert(n == (n / 10) * 10 + d);
        assert forall|i: int| 0 <= i < t.len() implies '0' <= #[trigger] t[i] && t[i] <= '9' by {
            if i < t.len() - 1 {
                assert(t[i] == decimal_text(n / 10)[i]);
            }
        }
    }
}

/// Different numbers are written differently.
pub proof fn lemma_decimal_text_injective(a: nat, b: nat)
    requires
        decimal_text(a) == decimal_text(b),
    ensures
        a == b,
{
    lemma_decimal_text(a);
    lemma_decimal_text(b);
}

fn digit_str(d: usize) -> (r: &'static str)
    requires
        d < 10,
    ensures
        r@ == seq![decimal_digit(d as nat)],
{
    proof {
        reveal_strlit("0");
        reveal_strlit("1");
        reveal_strlit("2");
        reveal_strlit("3");
        reveal_strlit("4");
        reveal_strlit("5");
        reveal_strlit("6");
        reveal_strlit("7");
        reveal_strlit("8");
        reveal_strlit("9");
    }
    match d {
        0 => "0",
        1 => "1",
        2 => "2",
        3 => "3",
        4 => "4",
        5 => "5",
        6 => "6",
        7 => "7",
        8 => "8",
        _ => "9",
    }
}

/// `n` in decimal.
pub fn decimal_string(n: usize) -> (r: String)
    ensures
        r@ == decimal_text(n as nat),
    decreases n,
{
    if n < 10 {
        digit_str(n).to_owned()
    } else {
        let mut s = decimal_string(n / 10);
        s.append(digit_str(n % 10));
        s
    }
}

} // verus!
