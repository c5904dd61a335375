//! Small text utilities: whitespace-separated fields, text equality and
//! non-negative decimal integers.
use vstd::prelude::*;

verus! {

/// A character with the Unicode property White_Space.
pub open spec fn is_white_space(c: char) -> bool {
    let u = c as u32;
    (0x09 <= u && u <= 0x0d) || u == 0x20 || u == 0x85 || u == 0xa0 || u == 0x1680 || (0x2000 <= u
        && u <= 0x200a) || u == 0x2028 || u == 0x2029 || u == 0x202f || u == 0x205f || u == 0x3000
}

/// The words of a line: its maximal runs of characters that are not white
/// space, in order.
pub open spec fn words_of(s: Seq<char>) -> Seq<Seq<char>>
    decreases s.len(),
{
    if s.len() == 0 {
        Seq::empty()
    } else {
        let t = s.drop_last();
        let c = s.last();
        if is_white_space(c) {
            words_of(t)
        } else if t.len() == 0 || is_white_space(t.last()) {
            words_of(t).push(seq![c])
        } else {
            words_of(t).drop_last().push(words_of(t).last().push(c))
        }
    }
}

/// Relies on `str::split_whitespace`: it splits at Unicode White_Space
/// characters and yields no empty words.
#[verifier::external_body]
pub(crate) fn split_fields(s: &str) -> (r: Vec<String>)
    ensures
        r@.map_values(|w: String| w@) == words_of(s@),
{
    s.split_whitespace().map(|w| w.to_string()).collect()
}

/// Words joined by single spaces.
pub open spec fn joined(ws: Seq<Seq<char>>) -> Seq<char>
    decreases ws.len(),
{
    if ws.len() == 0 {
        Seq::empty()
    } else if ws.len() == 1 {
        ws[0]
    } else {
        joined(ws.drop_last()) + seq![' '] + ws.last()
    }
}

/// Joins words with single spaces.
pub fn join_words(ws: &Vec<String>) -> (r: String)
    ensures
        r@ == joined(ws@.map_values(|s: String| s@)),
{
    let ghost wv = ws@.map_values(|s: String| s@);
    let mut r = String::new();
    let mut i: usize = 0;
    proof {
        reveal_strlit(" ");
        assert(wv.take(0) =~= Seq::<Seq<char>>::empty());
    }
    while i < ws.len()
        invariant
            wv == ws@.map_values(|s: String| s@),
            i <= ws@.len(),
            r@ == joined(wv.take(i as int)),
            " "@ == seq![' '],
        decreases ws@.len() - i,
    {
        if i > 0 {
            r.append(" ");
        }
        r.append(ws[i].as_str());
        proof {
            assert(wv.take(i + 1).drop_last() =~= wv.take(i as int));
            if i == 0 {
                assert(r@ =~= joined(wv.take(1)));
            } else {
                assert(r@ =~= joined(wv.take(i as int)) + seq![' '] + wv[i as int]);
            }
        }
        i = i + 1;
    }
    assert(wv.take(ws@.len() as int) =~= wv);
    r
}

/// Character-by-character equality of two texts.
pub fn same_text(a: &str, b: &str) -> (r: bool)
    ensures
        r == (a@ == b@),
{
    let n = a.unicode_len();
    if n != b.unicode_len() {
        return false;
    }
    let mut i: usize = 0;
    while i < n
        invariant
            n == a@.len(),
            n == b@.len(),
            i <= n,
            forall|k: int| 0 <= k < i ==> a@[k] == b@[k],
        decreases n - i,
    {
        if a.get_char(i) != b.get_char(i) {
            return false;
        }
        i = i + 1;
    }
    assert(a@ =~= b@);
    true
}

pub open spec fn is_digit(c: char) -> bool {
    48 <= (c as u32) && (c as u32) <= 57
}

pub open spec fn all_digits(s: Seq<char>) -> bool {
    forall|i: int| 0 <= i < s.len() ==> is_digit(#[trigger] s[i])
}

/// The value of a string of decimal digits, most significant first.
pub open spec fn digits_value(s: Seq<char>) -> nat
    decreases s.len(),
{
    if s.len() == 0 {
        0
    } else {
        digits_value(s.drop_last()) * 10 + ((s.last() as u32) - 48) as nat
    }
}

/// The digits of a numeral, without its optional leading `+`.
pub open spec fn unsigned_part(s: Seq<char>) -> Seq<char> {
    if s.len() > 0 && s[0] == '+' {
        s.drop_first()
    } else {
        s
    }
}

/// The value of a non-negative decimal numeral (an optional `+`, then one or
/// more digits) that fits in a `usize`; `None` for any other text.
pub open spec fn index_value(s: Seq<char>) -> Option<nat> {
    let d = unsigned_part(s);
    if d.len() > 0 && all_digits(d) && digits_value(d) <= usize::MAX {
        Some(digits_value(d))
    } else {
        None
    }
}

/// Reads a non-negative decimal numeral.
pub fn parse_index(s: &str) -> (r: Option<usize>)
    ensures
        match r {
            Some(v) => index_value(s@) == Some(v as nat),
            None => index_value(s@) is None,
        },
{
    let n = s.unicode_len();
    let mut start: usize = 0;
    if n > 0 && s.get_char(0) == '+' {
        start = 1;
    }
    if start >= n {
        return None;
    }
    proof {
        if start == 1 {
            assert(unsigned_part(s@) =~= s@.subrange(1, n as int));
        } else {
            assert(unsigned_part(s@) =~= s@.subrange(0, n as int));
        }
    }
    let mut val: usize = 0;
    let mut big = false;
    let mut i: usize = start;
    while i < n
        invariant
            n == s@.len(),
            start <= i <= n,
            start < n,
            unsigned_part(s@) == s@.subrange(start as int, n as int),
            forall|k: int| start <= k < i ==> is_digit(#[trigger] s@[k]),
            big ==> digits_value(s@.subrange(start as int, i as int)) > usize::MAX,
            !big ==> val == digits_value(s@.subrange(start as int, i as int)),
        decreases n - i,
    {
        let c = s.get_char(i);
        let code = c as u32;
        if code < 48 || code > 57 {
            assert(!is_digit(unsigned_part(s@)[i - start]));
            return None;
        }
        let d = (code - 48) as usize;
        let ghost next = s@.subrange(start as int, i + 1);
        assert(next.drop_last() =~= s@.subrange(start as int, i as int));
        assert(next.last() == c);
        if !big {
            match val.checked_mul(10) {
                Some(t) => match t.checked_add(d) {
                    Some(u) => {
                        val = u;
                    },
                    None => {
                        big = true;
                    },
                },
                None => {
                    big = true;
                },
            }
        }
        i = i + 1;
    }
    assert(s@.subrange(start as int, n as int) == unsigned_part(s@));
    assert(all_digits(unsigned_part(s@))) by {
        assert forall|k: int| 0 <= k < unsigned_part(s@).len() implies is_digit(
            #[trigger] unsigned_part(s@)[k],
        ) by {
            assert(unsigned_part(s@)[k] == s@[start + k]);
        }
    }
    if big {
        None
    } else {
        Some(val)
    }
}

/// Length of the sign at position `i`: 1 for `+` or `-`, else 0.
pub open spec fn sign_len(s: Seq<char>, i: int) -> int {
    if 0 <= i < s.len() && (s[i] == '+' || s[i] == '-') {
        1
    } else {
        0
    }
}

/// Number of consecutive digits from position `i`.
pub open spec fn digit_run(s: Seq<char>, i: int) -> nat
    decreases s.len() - i,
{
    if 0 <= i < s.len() && is_digit(s[i]) {
        1 + digit_run(s, i + 1)
    } else {
        0
    }
}

/// From position `c` on, `s` is empty or an exponent: `e` or `E`, an
/// optional sign, one or more digits.
pub open spec fn exponent_from(s: Seq<char>, c: int) -> bool {
    c == s.len() || (0 <= c < s.len() && (s[c] == 'e' || s[c] == 'E') && {
        let e = c + 1 + sign_len(s, c + 1);
        digit_run(s, e) > 0 && e + digit_run(s, e) == s.len()
    })
}

/// `c` is the lower-case letter `l` in either case.
pub open spec fn same_letter(c: char, l: char) -> bool {
    c == l || (c as u32) + 32 == (l as u32)
}

/// `s` from position `a` on spells the lower-case word `w`, in any case.
pub open spec fn spells_from(s: Seq<char>, a: int, w: Seq<char>) -> bool {
    s.len() - a == w.len() && forall|i: int| 0 <= i < w.len() ==> same_letter(#[trigger] s[a + i], w[i])
}

/// A real numeral: an optional sign, then `inf`, `infinity` or `nan` in any
/// case, or digits with an optional fraction (at least one digit in all) and
/// an optional exponent.
pub open spec fn is_real_numeral(s: Seq<char>) -> bool {
    let a = sign_len(s, 0);
    spells_from(s, a, seq!['i', 'n', 'f']) || spells_from(s, a, seq!['i', 'n', 'f', 'i', 'n', 'i', 't', 'y'])
        || spells_from(s, a, seq!['n', 'a', 'n']) || is_decimal_numeral(s)
}

/// A decimal numeral: an optional sign, digits with an optional fraction (at
/// least one digit in all), and an optional exponent.
pub open spec fn is_decimal_numeral(s: Seq<char>) -> bool {
    let a = sign_len(s, 0);
    let d1 = digit_run(s, a);
    let b = a + d1;
    if b < s.len() && s[b] == '.' {
        let d2 = digit_run(s, b + 1);
        d1 + d2 > 0 && exponent_from(s, b + 1 + d2)
    } else {
        d1 > 0 && exponent_from(s, b)
    }
}

fn sign_at(s: &str, n: usize, i: usize) -> (r: usize)
    requires
        n == s@.len(),
    ensures
        r == sign_len(s@, i as int),
{
    if i < n {
        let c = s.get_char(i);
        if c == '+' || c == '-' {
            return 1;
        }
    }
    0
}

fn digits_at(s: &str, n: usize, i: usize) -> (r: usize)
    requires
        n == s@.len(),
        i <= n,
    ensures
        r == digit_run(s@, i as int),
        i + r <= n,
{
    let mut j: usize = i;
    while j < n
        invariant
            n == s@.len(),
            i <= j <= n,
            digit_run(s@, i as int) == (j - i) + digit_run(s@, j as int),
        decreases n - j,
    {
        let code = s.get_char(j) as u32;
        if code < 48 || code > 57 {
            return j - i;
        }
        j = j + 1;
    }
    j - i
}

fn exponent_at(s: &str, n: usize, c: usize) -> (r: bool)
    requires
        n == s@.len(),
        c <= n,
    ensures
        r == exponent_from(s@, c as int),
{
    if c == n {
        return true;
    }
    let ch = s.get_char(c);
    if ch != 'e' && ch != 'E' {
        return false;
    }
    let e = c + 1 + sign_at(s, n, c + 1);
    if e > n {
        return false;
    }
    let d = digits_at(s, n, e);
    d > 0 && e + d == n
}

fn spells_at(s: &str, n: usize, a: usize, w: &str) -> (r: bool)
    requires
        n == s@.len(),
        a <= n,
    ensures
        r == spells_from(s@, a as int, w@),
{
    let m = w.unicode_len();
    if n - a != m {
        return false;
    }
    let mut i: usize = 0;
    while i < m
        invariant
            n == s@.len(),
            m == w@.len(),
            a + m == n,
            i <= m,
            forall|k: int| 0 <= k < i ==> same_letter(#[trigger] s@[a + k], w@[k]),
        decreases m - i,
    {
        let c = s.get_char(a + i);
        let l = w.get_char(i);
        if c != l && (c as u32) + 32 != (l as u32) {
            assert(!same_letter(s@[a + i as int], w@[i as int]));
            return false;
        }
        i = i + 1;
    }
    true
}

/// Whether `s` is a real numeral.
pub fn is_real(s: &str) -> (r: bool)
    ensures
        r == is_real_numeral(s@),
{
    let n = s.unicode_len();
    let a = sign_at(s, n, 0);
    proof {
        reveal_strlit("inf");
        reveal_strlit("infinity");
        reveal_strlit("nan");
        assert("inf"@ =~= seq!['i', 'n', 'f']);
        assert("infinity"@ =~= seq!['i', 'n', 'f', 'i', 'n', 'i', 't', 'y']);
        assert("nan"@ =~= seq!['n', 'a', 'n']);
    }
    if spells_at(s, n, a, "inf") || spells_at(s, n, a, "infinity") || spells_at(s, n, a, "nan") {
        return true;
    }
    is_decimal(s)
}

fn is_decimal(s: &str) -> (r: bool)
    ensures
        r == is_decimal_numeral(s@),
{
    let n = s.unicode_len();
    let a = sign_at(s, n, 0);
    let d1 = digits_at(s, n, a);
    let b = a + d1;
    if b < n && s.get_char(b) == '.' {
        let d2 = digits_at(s, n, b + 1);
        d1 + d2 > 0 && exponent_at(s, n, b + 1 + d2)
    } else {
        d1 > 0 && exponent_at(s, n, b)
    }
}

} // verus!
