//! Verified helpers for the character-level string work the pipeline does:
//! locating separators, comparing and copying pieces, rendering decimal
//! numbers, and moving between ASCII strings and their byte form.

use vstd::prelude::*;
use vstd::string::StrSliceExecFns;
use vstd::string::StringExecFns;

verus! {

/// True when `s` holds `c` at or after position `from`.
pub open spec fn contains_char_from(s: Seq<char>, c: char, from: int) -> bool {
    exists|i: int| from <= i < s.len() && s[i] == c
}

/// True when `s` holds `c` anywhere.
pub open spec fn contains_char(s: Seq<char>, c: char) -> bool {
    contains_char_from(s, c, 0)
}

/// The first position of `c` in `s` at or after `from`.
pub open spec fn first_char_at(s: Seq<char>, c: char, from: int) -> int
    recommends
        contains_char_from(s, c, from),
{
    choose|i: int| from <= i < s.len() && s[i] == c && (forall|k: int| from <= k < i ==> s[k] != c)
}

/// The last position of `c` in `s`.
pub open spec fn last_char_at(s: Seq<char>, c: char) -> int
    recommends
        contains_char(s, c),
{
    choose|i: int| 0 <= i < s.len() && s[i] == c && (forall|k: int| i < k < s.len() ==> s[k] != c)
}

/// The first occurrence picked by `first_char_at` is well defined wherever
/// the character occurs at all.
pub proof fn lemma_first_char_props(s: Seq<char>, c: char, from: int)
    requires
        0 <= from,
        contains_char_from(s, c, from),
    ensures
        ({
            let i = first_char_at(s, c, from);
            from <= i < s.len() && s[i] == c && (forall|k: int| from <= k < i ==> s[k] != c)
        }),
    decreases s.len() - from,
{
    if s[from] == c {
        let w = from;
        assert(from <= w < s.len() && s[w] == c && (forall|k: int| from <= k < w ==> s[k] != c));
    } else {
        assert(contains_char_from(s, c, from + 1)) by {
            let e = choose|e: int| from <= e < s.len() && s[e] == c;
            assert(from + 1 <= e < s.len() && s[e] == c);
        }
        lemma_first_char_props(s, c, from + 1);
        let w = first_char_at(s, c, from + 1);
        assert(from <= w < s.len() && s[w] == c && (forall|k: int| from <= k < w ==> s[k] != c));
    }
}

/// The last occurrence picked by `last_char_at` is well defined wherever
/// the character occurs at all.
pub proof fn lemma_last_char_props(s: Seq<char>, c: char)
    requires
        contains_char(s, c),
    ensures
        ({
            let i = last_char_at(s, c);
            0 <= i < s.len() && s[i] == c && (forall|k: int| i < k < s.len() ==> s[k] != c)
        }),
    decreases s.len(),
{
    let e = choose|e: int| 0 <= e < s.len() && s[e] == c;
    if s[s.len() - 1] == c {
        let w = s.len() - 1;
        assert(0 <= w < s.len() && s[w] == c && (forall|k: int| w < k < s.len() ==> s[k] != c));
    } else {
        let fore = s.subrange(0, s.len() - 1);
        assert(contains_char(fore, c)) by {
            assert(s[e] == c && e != s.len() - 1);
            assert(fore[e] == c);
        }
        lemma_last_char_props(fore, c);
        let w = last_char_at(fore, c);
        assert(0 <= w < fore.len() && fore[w] == c);
        assert(s[w] == c);
        assert forall|k: int| w < k < s.len() implies s[k] != c by {
            if k < s.len() - 1 {
                assert(fore[k] == s[k]);
            }
        }
        assert(0 <= w < s.len() && s[w] == c && (forall|k: int| w < k < s.len() ==> s[k] != c));
    }
}

/// Finds the first occurrence of `c` in `s` at or after `from`.
pub fn find_char(s: &str, c: char, from: usize) -> (r: Option<usize>)
    requires
        from <= s@.len(),
    ensures
        match r {
            Some(i) => from <= i < s@.len() && s@[i as int] == c && (forall|k: int|
                from <= k < i ==> s@[k] != c) && i == first_char_at(s@, c, from as int),
            None => !contains_char_from(s@, c, from as int),
        },
{
    let len = s.unicode_len();
    let mut i: usize = from;
    while i < len
        invariant
            from <= i <= len,
            len == s@.len(),
            forall|k: int| from <= k < i ==> s@[k] != c,
        decreases len - i,
    {
        if s.get_char(i) == c {
            proof {
                let w = i as int;
                assert(from <= w < s@.len() && s@[w] == c && (forall|k: int|
                    from <= k < w ==> s@[k] != c));
                let j = first_char_at(s@, c, from as int);
                assert(s@[j] != c ==> false);
            }
            return Some(i);
        }
        i = i + 1;
    }
    None
}

/// Finds the last occurrence of `c` in `s`.
pub fn rfind_char(s: &str, c: char) -> (r: Option<usize>)
    ensures
        match r {
            Some(i) => i < s@.len() && s@[i as int] == c && (forall|k: int|
                i < k < s@.len() ==> s@[k] != c) && i == last_char_at(s@, c),
            None => !contains_char(s@, c),
        },
{
    let len = s.unicode_len();
    let mut i: usize = len;
    while i > 0
        invariant
            i <= len,
            len == s@.len(),
            forall|k: int| i <= k < s@.len() ==> s@[k] != c,
        decreases i,
    {
        i = i - 1;
        if s.get_char(i) == c {
            proof {
                let w = i as int;
                assert(0 <= w < s@.len() && s@[w] == c && (forall|k: int|
                    w < k < s@.len() ==> s@[k] != c));
                let j = last_char_at(s@, c);
                assert(s@[j] != c ==> false);
            }
            return Some(i);
        }
    }
    proof {
        assert forall|k: int| 0 <= k < s@.len() implies s@[k] != c by {}
    }
    None
}

/// Copies the characters of `s` between `from` and `to` into a fresh string.
pub fn substring(s: &str, from: usize, to: usize) -> (r: String)
    requires
        from <= to <= s@.len(),
    ensures
        r@ == s@.subrange(from as int, to as int),
{
    s.substring_char(from, to).to_owned()
}

/// True when `lit` occurs in `s` starting exactly at position `at`.
pub open spec fn matches_at(s: Seq<char>, at: int, lit: Seq<char>) -> bool {
    at + lit.len() <= s.len() && s.subrange(at, at + lit.len()) == lit
}

/// Compares the characters of `s` starting at `at` against all of `lit`.
pub fn match_lit(s: &str, at: usize, lit: &str) -> (r: bool)
    requires
        at <= s@.len(),
    ensures
        r == matches_at(s@, at as int, lit@),
{
    let slen = s.unicode_len();
    let llen = lit.unicode_len();
    if llen > slen - at {
        proof {
            assert(!matches_at(s@, at as int, lit@));
        }
        return false;
    }
    let mut i: usize = 0;
    while i < llen
        invariant
            i <= llen,
            slen == s@.len(),
            llen == lit@.len(),
            at + llen <= slen,
            forall|k: int| 0 <= k < i ==> s@[at + k] == lit@[k],
        decreases llen - i,
    {
        if s.get_char(at + i) != lit.get_char(i) {
            proof {
                assert(s@.subrange(at as int, at + lit@.len())[i as int] != lit@[i as int]);
            }
            return false;
        }
        i = i + 1;
    }
    proof {
        assert(s@.subrange(at as int, at + lit@.len()) =~= lit@);
    }
    true
}

/// True when `s` ends in `suf`.
pub open spec fn ends_with(s: Seq<char>, suf: Seq<char>) -> bool {
    s.len() >= suf.len() && s.subrange(s.len() - suf.len(), s.len() as int) == suf
}

/// Compares the tail of `s` against `suf`.
pub fn str_ends_with(s: &str, suf: &str) -> (r: bool)
    ensures
        r == ends_with(s@, suf@),
{
    let slen = s.unicode_len();
    let suflen = suf.unicode_len();
    if suflen > slen {
        return false;
    }
    let r = match_lit(s, slen - suflen, suf);
    proof {
        assert(matches_at(s@, s@.len() - suf@.len(), suf@) == ends_with(s@, suf@));
    }
    r
}

/// Compares two strings character by character.
pub fn str_eq(a: &str, b: &str) -> (r: bool)
    ensures
        r == (a@ == b@),
{
    if a.unicode_len() != b.unicode_len() {
        proof {
            assert(a@.len() != b@.len());
        }
        return false;
    }
    let r = match_lit(a, 0, b);
    proof {
        if r {
            assert(a@.subrange(0, a@.len() as int) =~= a@);
        } else {
            if a@ == b@ {
                assert(a@.subrange(0, b@.len() as int) =~= b@);
            }
        }
    }
    r
}

/// The decimal digit character for `n` (a value below ten).
pub open spec fn digit_char(n: int) -> char {
    if n == 0 {
        '0'
    } else if n == 1 {
        '1'
    } else if n == 2 {
        '2'
    } else if n == 3 {
        '3'
    } else if n == 4 {
        '4'
    } else if n == 5 {
        '5'
    } else if n == 6 {
        '6'
    } else if n == 7 {
        '7'
    } else if n == 8 {
        '8'
    } else {
        '9'
    }
}

/// The decimal rendering of `n`, most significant digit first.
pub open spec fn dec_str_of(n: nat) -> Seq<char>
    decreases n,
{
    if n < 10 {
        seq![digit_char(n as int)]
    } else {
        dec_str_of(n / 10).push(digit_char((n % 10) as int))
    }
}

/// The one-character string for the digit `d`.
fn digit_str(d: u64) -> (r: &'static str)
    requires
        d < 10,
    ensures
        r@ =~= seq![digit_char(d as int)],
{
    proof {
        reveal_strlit("0");
        reveal_strlit("1");
        reveal_strlit("2");
        reveal_strlit("3");
        reveal_strlit("4");
        reveal_strlit("5");
        reveal_strlit("6");
        reveal_strlit("7");
        reveal_strlit("8");
        reveal_strlit("9");
    }
    match d {
        0 => "0",
        1 => "1",
        2 => "2",
        3 => "3",
        4 => "4",
        5 => "5",
        6 => "6",
        7 => "7",
        8 => "8",
        _ => "9",
    }
}

/// Renders `n` in decimal.
pub fn u64_to_dec(n: u64) -> (r: String)
    ensures
        r@ == dec_str_of(n as nat),
    decreases n,
{
    if n < 10 {
        let r = digit_str(n).to_owned();
        proof {
            assert(r@ =~= dec_str_of(n as nat));
        }
        r
    } else {
        let mut r = u64_to_dec(n / 10);
        r.append(digit_str(n % 10));
        proof {
            assert(r@ =~= dec_str_of(n as nat));
        }
        r
    }
}

/// A character occurs in a concatenation exactly when it occurs in one of
/// the parts.
pub proof fn lemma_contains_concat(a: Seq<char>, b: Seq<char>, c: char)
    ensures
        contains_char(a + b, c) <==> (contains_char(a, c) || contains_char(b, c)),
{
    if contains_char(a + b, c) {
        let i = choose|i: int| 0 <= i < (a + b).len() && (a + b)[i] == c;
        if i < a.len() {
            assert(a[i] == c);
        } else {
            assert(b[i - a.len()] == c);
        }
    }
    if contains_char(a, c) {
        let i = choose|i: int| 0 <= i < a.len() && a[i] == c;
        assert((a + b)[i] == c);
    }
    if contains_char(b, c) {
        let i = choose|i: int| 0 <= i < b.len() && b[i] == c;
        assert((a + b)[a.len() + i] == c);
    }
}

/// A concatenation is ASCII exactly when both parts are.
pub proof fn lemma_ascii_concat(a: Seq<char>, b: Seq<char>)
    ensures
        vstd::utf8::is_ascii_chars(a + b) <==> (vstd::utf8::is_ascii_chars(a)
            && vstd::utf8::is_ascii_chars(b)),
{
    vstd::utf8::is_ascii_chars_concat(a + b, a, b);
}

/// The byte form of an ASCII character sequence.
pub open spec fn ascii_bytes_of(s: Seq<char>) -> Seq<u8> {
    Seq::new(s.len(), |i: int| s[i] as u8)
}

/// Copies an ASCII string into its byte form.
pub fn string_to_bytes(s: &str) -> (r: Vec<u8>)
    requires
        s.is_ascii(),
    ensures
        r@ == ascii_bytes_of(s@),
{
    let r = s.as_bytes_vec();
    proof {
        vstd::string::is_ascii_spec_bytes(s);
        assert(r@ =~= ascii_bytes_of(s@));
    }
    r
}

/// True when every byte is below 128.
pub open spec fn all_ascii_bytes(b: Seq<u8>) -> bool {
    forall|i: int| 0 <= i < b.len() ==> b[i] < 128
}

/// The character form of an all-ASCII byte sequence.
pub open spec fn ascii_chars_of(b: Seq<u8>) -> Seq<char> {
    Seq::new(b.len(), |i: int| b[i] as char)
}

/// Checks that every byte is below 128.
pub fn all_ascii_check(v: &Vec<u8>) -> (r: bool)
    ensures
        r == all_ascii_bytes(v@),
{
    let n = v.len();
    let mut i: usize = 0;
    while i < n
        invariant
            i <= n,
            n == v.len(),
            forall|k: int| 0 <= k < i ==> v@[k] < 128,
        decreases n - i,
    {
        if v[i] >= 128 {
            return false;
        }
        i = i + 1;
    }
    true
}

/// Relies on `String::from_utf8`: on bytes that are all below 128 it
/// succeeds, and UTF-8 decodes each such byte to the character with the
/// same value.
#[verifier::external_body]
pub(crate) fn bytes_to_string(v: &Vec<u8>) -> (r: String)
    requires
        forall|i: int| 0 <= i < v@.len() ==> v@[i] < 128,
    ensures
        r@ == Seq::new(v@.len(), |i: int| v@[i] as char),
        r.is_ascii(),
{
    String::from_utf8(v.clone()).unwrap()
}

} // verus!
