//! Text primitives the recognition rules are built on: whitespace trimming,
//! lexicographic ordering, decimal rendering, and the trusted bridges to
//! `str::to_lowercase`, `str::contains` and the `regex` crate.

use vstd::prelude::*;

verus! {

/// A character with the Unicode `White_Space` property, the set that
/// `str::trim` and `char::is_whitespace` strip.
pub open spec fn is_ws_char(c: char) -> bool {
    let u = c as u32;
    (0x09 <= u && u <= 0x0D) || u == 0x20 || u == 0x85 || u == 0xA0 || u == 0x1680 || (0x2000
        <= u && u <= 0x200A) || u == 0x2028 || u == 0x2029 || u == 0x202F || u == 0x205F || u
        == 0x3000
}

/// Decides [`is_ws_char`] on a concrete character.
pub fn is_ws(c: char) -> (r: bool)
    ensures
        r == is_ws_char(c),
{
    let u = c as u32;
    (0x09 <= u && u <= 0x0D) || u == 0x20 || u == 0x85 || u == 0xA0 || u == 0x1680 || (0x2000 <= u
        && u <= 0x200A) || u == 0x2028 || u == 0x2029 || u == 0x202F || u == 0x205F || u == 0x3000
}

/// Every character of `s` is whitespace (in particular, `s` may be empty).
pub open spec fn spec_is_blank(s: Seq<char>) -> bool {
    forall|i: int| 0 <= i < s.len() ==> is_ws_char(s[i])
}

/// `s` with its leading whitespace removed.
pub open spec fn spec_trim_front(s: Seq<char>) -> Seq<char>
    decreases s.len(),
{
    if s.len() > 0 && is_ws_char(s[0]) {
        spec_trim_front(s.subrange(1, s.len() as int))
    } else {
        s
    }
}

/// `s` with its trailing whitespace removed.
pub open spec fn spec_trim_back(s: Seq<char>) -> Seq<char>
    decreases s.len(),
{
    if s.len() > 0 && is_ws_char(s[s.len() - 1]) {
        spec_trim_back(s.subrange(0, s.len() - 1))
    } else {
        s
    }
}

/// `s` with leading and trailing whitespace removed, as `str::trim` leaves it.
pub open spec fn spec_trim(s: Seq<char>) -> Seq<char> {
    spec_trim_back(spec_trim_front(s))
}

proof fn lemma_trim_front_skips(s: Seq<char>, a: int)
    requires
        0 <= a <= s.len(),
        forall|k: int| 0 <= k < a ==> is_ws_char(s[k]),
        a < s.len() ==> !is_ws_char(s[a]),
    ensures
        spec_trim_front(s) == s.subrange(a, s.len() as int),
    decreases a,
{
    if a == 0 {
        assert(s.subrange(0, s.len() as int) =~= s);
    } else {
        let t = s.subrange(1, s.len() as int);
        lemma_trim_front_skips(t, a - 1);
        assert(t.subrange(a - 1, t.len() as int) =~= s.subrange(a, s.len() as int));
    }
}

proof fn lemma_trim_back_keeps(s: Seq<char>, b: int)
    requires
        0 <= b <= s.len(),
        forall|k: int| b <= k < s.len() ==> is_ws_char(s[k]),
        b > 0 ==> !is_ws_char(s[b - 1]),
    ensures
        spec_trim_back(s) == s.subrange(0, b),
    decreases s.len() - b,
{
    if b == s.len() {
        if s.len() > 0 && is_ws_char(s[s.len() - 1]) {
            assert(!is_ws_char(s[b - 1]));
        } else {
            assert(s.subrange(0, s.len() as int) =~= s);
        }
    } else {
        let t = s.subrange(0, s.len() - 1);
        lemma_trim_back_keeps(t, b);
        assert(t.subrange(0, b) =~= s.subrange(0, b));
    }
}

/// Removes leading and trailing whitespace, exactly as [`spec_trim`] states.
pub fn trim_chars(s: &str) -> (r: String)
    ensures
        r@ == spec_trim(s@),
{
    let n = s.unicode_len();
    let mut start: usize = 0;
    while start < n && is_ws(s.get_char(start))
        invariant
            n == s@.len(),
            start <= n,
            forall|k: int| 0 <= k < start ==> is_ws_char(s@[k]),
        decreases n - start,
    {
        start += 1;
    }
    if start == n {
        proof {
            lemma_trim_front_skips(s@, n as int);
            lemma_trim_back_keeps(s@.subrange(n as int, n as int), 0);
            assert(spec_trim(s@) =~= Seq::<char>::empty());
        }
        return String::new();
    }
    let mut end: usize = n;
    while end > start && is_ws(s.get_char(end - 1))
        invariant
            n == s@.len(),
            start < n,
            !is_ws_char(s@[start as int]),
            start < end <= n,
            forall|k: int| end <= k < n ==> is_ws_char(s@[k]),
        decreases end,
    {
        proof {
            if end - 1 == start {
                assert(!is_ws_char(s@[start as int]));
            }
        }
        end -= 1;
    }
    let sub = s.substring_char(start, end);
    proof {
        lemma_trim_front_skips(s@, start as int);
        let t = s@.subrange(start as int, s@.len() as int);
        lemma_trim_back_keeps(t, end - start);
        assert(t.subrange(0, end - start) =~= s@.subrange(start as int, end as int));
    }
    sub.to_owned()
}

/// `needle` occurs as a contiguous substring of `hay`.
pub open spec fn spec_contains_seq(hay: Seq<char>, needle: Seq<char>) -> bool {
    exists|i: int|
        0 <= i && i + needle.len() <= hay.len() && #[trigger] hay.subrange(i, i + needle.len())
            == needle
}

/// Relies on `str::contains` with a `&str` pattern: true if and only if the
/// pattern matches a sub-slice of the string.
#[verifier::external_body]
pub(crate) fn str_contains(hay: &str, needle: &str) -> (r: bool)
    ensures
        r == spec_contains_seq(hay@, needle@),
{
    hay.contains(needle)
}

/// The lowercased form of a text, as `str::to_lowercase` computes it; the
/// result depends on the characters alone.
pub uninterp spec fn lower_of(s: Seq<char>) -> Seq<char>;

/// Relies on `str::to_lowercase`: the Unicode-lowercased text, a function of
/// the input characters alone; an empty string stays empty.
#[verifier::external_body]
pub(crate) fn to_lowercase_str(s: &str) -> (r: String)
    ensures
        r@ == lower_of(s@),
        s@.len() == 0 ==> r@.len() == 0,
{
    s.to_lowercase()
}

/// Whether the pattern, with or without the case-insensitivity flag, is
/// accepted by the regex engine; a function of the pattern alone.
pub uninterp spec fn regex_valid(pattern: Seq<char>, case_insensitive: bool) -> bool;

/// Whether a valid pattern matches anywhere in the text; a function of the
/// pattern, the flag and the text alone.
pub uninterp spec fn regex_matched(pattern: Seq<char>, case_insensitive: bool, text: Seq<char>) -> bool;

/// Relies on `regex::Regex::new` and `regex::Regex::is_match`: compilation
/// succeeds or fails depending on the pattern alone (`None` exactly on
/// failure), and a compiled pattern matches a text deterministically. The
/// case-insensitive form prefixes the pattern with `(?i)`, as the `regex`
/// crate documents.
#[verifier::external_body]
pub(crate) fn regex_is_match(pattern: &str, case_insensitive: bool, text: &str) -> (r: Option<bool>)
    ensures
        (r is Some) == regex_valid(pattern@, case_insensitive),
        r is Some ==> r == Some(regex_matched(pattern@, case_insensitive, text@)),
{
    let full = if case_insensitive {
        format!("(?i){}", pattern)
    } else {
        pattern.to_string()
    };
    match regex::Regex::new(&full) {
        Ok(re) => Some(re.is_match(text)),
        Err(_) => None,
    }
}

/// The decimal digit character for `d`.
pub open spec fn spec_digit_char(d: int) -> char {
    if d == 0 {
        '0'
    } else if d == 1 {
        '1'
    } else if d == 2 {
        '2'
    } else if d == 3 {
        '3'
    } else if d == 4 {
        '4'
    } else if d == 5 {
        '5'
    } else if d == 6 {
        '6'
    } else if d == 7 {
        '7'
    } else if d == 8 {
        '8'
    } else {
        '9'
    }
}

/// The usual decimal rendering of `n`, without leading zeroes.
pub open spec fn spec_decimal(n: nat) -> Seq<char>
    decreases n,
{
    if n < 10 {
        seq![spec_digit_char(n as int)]
    } else {
        spec_decimal(n / 10) + seq![spec_digit_char((n % 10) as int)]
    }
}

/// The one-character string of a decimal digit.
pub fn digit_str(d: u64) -> (r: &'static str)
    requires
        d < 10,
    ensures
        r@ == seq![spec_digit_char(d as int)],
{
    proof {
        reveal_strlit("0");
        reveal_strlit("1");
        reveal_strlit("2");
        reveal_strlit("3");
        reveal_strlit("4");
        reveal_strlit("5");
        reveal_strlit("6");
        reveal_strlit("7");
        reveal_strlit("8");
        reveal_strlit("9");
    }
    if d == 0 {
        "0"
    } else if d == 1 {
        "1"
    } else if d == 2 {
        "2"
    } else if d == 3 {
        "3"
    } else if d == 4 {
        "4"
    } else if d == 5 {
        "5"
    } else if d == 6 {
        "6"
    } else if d == 7 {
        "7"
    } else if d == 8 {
        "8"
    } else {
        "9"
    }
}

/// Renders `n` in decimal, exactly as [`spec_decimal`] states.
pub fn u64_to_string(n: u64) -> (r: String)
    ensures
        r@ == spec_decimal(n as nat),
    decreases n,
{
    if n < 10 {
        digit_str(n).to_owned()
    } else {
        let mut s = u64_to_string(n / 10);
        s.append(digit_str(n % 10));
        s
    }
}

/// Renders a `usize` in decimal.
pub fn usize_to_string(n: usize) -> (r: String)
    ensures
        r@ == spec_decimal(n as nat),
{
    u64_to_string(n as u64)
}

/// Decides whether two strings hold the same characters.
pub fn str_eq(a: &str, b: &str) -> (r: bool)
    ensures
        r == (a@ == b@),
{
    let na = a.unicode_len();
    let nb = b.unicode_len();
    if na != nb {
        proof {
            assert(a@ != b@);
        }
        return false;
    }
    let mut i: usize = 0;
    while i < na
        invariant
            na == a@.len(),
            na == b@.len(),
            i <= na,
            forall|k: int| 0 <= k < i ==> a@[k] == b@[k],
        decreases na - i,
    {
        if a.get_char(i) != b.get_char(i) {
            proof {
                assert(a@[i as int] != b@[i as int]);
            }
            return false;
        }
        i += 1;
    }
    proof {
        assert(a@ =~= b@);
    }
    true
}

/// Lexicographic order on character sequences, by code point.
pub open spec fn spec_str_le(a: Seq<char>, b: Seq<char>) -> bool
    decreases a.len(),
{
    if a.len() == 0 {
        true
    } else if b.len() == 0 {
        false
    } else if a[0] != b[0] {
        (a[0] as u32) < (b[0] as u32)
    } else {
        spec_str_le(a.subrange(1, a.len() as int), b.subrange(1, b.len() as int))
    }
}

proof fn lemma_char_cast_injective(c: char, d: char)
    requires
        c != d,
    ensures
        (c as u32) != (d as u32),
{
    assert(c as int <= 0x10FFFF);
    assert(d as int <= 0x10FFFF);
    assert((c as u32) as int == c as int);
    assert((d as u32) as int == d as int);
}

/// The lexicographic order is total: of any two texts, one is less than or
/// equal to the other.
pub proof fn lemma_str_le_total(a: Seq<char>, b: Seq<char>)
    ensures
        spec_str_le(a, b) || spec_str_le(b, a),
    decreases a.len(),
{
    if a.len() > 0 && b.len() > 0 {
        if a[0] == b[0] {
            lemma_str_le_total(a.subrange(1, a.len() as int), b.subrange(1, b.len() as int));
        } else {
            lemma_char_cast_injective(a[0], b[0]);
        }
    }
}

/// The lexicographic order is transitive.
pub proof fn lemma_str_le_trans(a: Seq<char>, b: Seq<char>, c: Seq<char>)
    requires
        spec_str_le(a, b),
        spec_str_le(b, c),
    ensures
        spec_str_le(a, c),
    decreases a.len(),
{
    if a.len() > 0 {
        if a[0] == b[0] && b[0] == c[0] {
            lemma_str_le_trans(
                a.subrange(1, a.len() as int),
                b.subrange(1, b.len() as int),
                c.subrange(1, c.len() as int),
            );
        }
    }
}

/// Decides [`spec_str_le`] on two strings.
pub fn str_le(a: &str, b: &str) -> (r: bool)
    ensures
        r == spec_str_le(a@, b@),
{
    let na = a.unicode_len();
    let nb = b.unicode_len();
    let mut i: usize = 0;
    proof {
        assert(a@.subrange(0, na as int) =~= a@);
        assert(b@.subrange(0, nb as int) =~= b@);
    }
    loop
        invariant
            na == a@.len(),
            nb == b@.len(),
            i <= na,
            i <= nb,
            forall|k: int| 0 <= k < i ==> a@[k] == b@[k],
            spec_str_le(a@, b@) == spec_str_le(
                a@.subrange(i as int, na as int),
                b@.subrange(i as int, nb as int),
            ),
        decreases na - i,
    {
        if i == na {
            proof {
                assert(a@.subrange(i as int, na as int).len() == 0);
            }
            return true;
        }
        if i == nb {
            proof {
                assert(b@.subrange(i as int, nb as int).len() == 0);
                assert(a@.subrange(i as int, na as int).len() > 0);
            }
            return false;
        }
        let ca = a.get_char(i);
        let cb = b.get_char(i);
        proof {
            let ra = a@.subrange(i as int, na as int);
            let rb = b@.subrange(i as int, nb as int);
            assert(ra[0] == a@[i as int]);
            assert(rb[0] == b@[i as int]);
            assert(ra.subrange(1, ra.len() as int) =~= a@.subrange(i + 1, na as int));
            assert(rb.subrange(1, rb.len() as int) =~= b@.subrange(i + 1, nb as int));
        }
        if ca != cb {
            return (ca as u32) < (cb as u32);
        }
        i += 1;
    }
}

} // verus!
