//! Character classification, string conversion, and text search.
//!
//! The rest of the crate works over `Vec<char>` and `Seq<char>` views; the
//! few places where Unicode tables are needed go through trusted wrappers
//! whose results are named by uninterpreted spec functions.

use vstd::prelude::*;

verus! {

/// Whether a non-ASCII character counts as alphanumeric under Unicode.
/// The ASCII range is fixed by `is_unicode_alphanumeric` below.
pub uninterp spec fn is_unicode_alnum_nonascii(c: char) -> bool;

/// Whether a non-ASCII-only string's Unicode lowercase differs from the
/// input; the value for ASCII-only strings is fixed by `to_lowercase`.
pub uninterp spec fn unicode_lowercase_of(s: Seq<char>) -> Seq<char>;

pub open spec fn is_ascii_char(c: char) -> bool {
    c <= '\u{7f}'
}

pub open spec fn is_ascii_alnum(c: char) -> bool {
    ('a' <= c && c <= 'z') || ('A' <= c && c <= 'Z') || ('0' <= c && c <= '9')
}

/// The Unicode Alphabetic-or-Number property. On the ASCII range it is
/// exactly letters and digits, as std documents; beyond ASCII it is the
/// named table lookup.
pub open spec fn is_unicode_alphanumeric(c: char) -> bool {
    if is_ascii_char(c) {
        is_ascii_alnum(c)
    } else {
        is_unicode_alnum_nonascii(c)
    }
}

/// Relies on char::is_alphanumeric: membership in the Unicode Alphabetic or
/// Number categories, a fixed property of the character; on ASCII characters
/// it holds exactly for letters and digits.
#[verifier::external_body]
pub fn char_is_alphanumeric(c: char) -> (r: bool)
    ensures
        r == is_unicode_alphanumeric(c),
        !is_ascii_char(c) ==> r == is_unicode_alnum_nonascii(c),
{
    c.is_alphanumeric()
}

pub open spec fn ascii_lower_char(c: char) -> char {
    if 'A' <= c && c <= 'Z' {
        ((c as u8) + 32) as char
    } else {
        c
    }
}

pub open spec fn ascii_lowercase_of(s: Seq<char>) -> Seq<char> {
    s.map_values(|c: char| ascii_lower_char(c))
}

/// Relies on str::to_lowercase: the Unicode lowercase mapping of the text,
/// a function of the characters alone; on ASCII-only text it agrees with
/// the ASCII lowercase mapping, as std documents.
#[verifier::external_body]
pub fn to_lowercase(s: &str) -> (r: String)
    ensures
        r@ == unicode_lowercase_of(s@),
        vstd::utf8::is_ascii_chars(s@) ==> r@ == ascii_lowercase_of(s@),
{
    s.to_lowercase()
}

/// Relies on str::chars: yields the characters of the text in order;
/// collect gathers them into a vector.
#[verifier::external_body]
pub fn str_to_chars(s: &str) -> (r: Vec<char>)
    ensures
        r@ == s@,
{
    s.chars().collect()
}

/// Relies on FromIterator for String: builds the string holding exactly
/// these characters in order.
#[verifier::external_body]
pub fn chars_to_string(v: &Vec<char>) -> (r: String)
    ensures
        r@ == v@,
{
    v.iter().collect()
}

/// ASCII lowercasing of a single character, verified.
pub fn char_ascii_lower(c: char) -> (r: char)
    ensures
        r == ascii_lower_char(c),
{
    if 'A' <= c && c <= 'Z' {
        (((c as u8) + 32) as char)
    } else {
        c
    }
}

/// The needle occurs in the haystack starting at position `i`.
pub open spec fn matches_at(hay: Seq<char>, i: int, needle: Seq<char>) -> bool {
    0 <= i && i + needle.len() <= hay.len() && hay.subrange(i, i + needle.len()) == needle
}

/// The needle occurs somewhere in the haystack.
pub open spec fn contains_seq(hay: Seq<char>, needle: Seq<char>) -> bool {
    exists|i: int| matches_at(hay, i, needle)
}

/// The needle compared against the haystack at one position.
pub fn range_eq(hay: &Vec<char>, i: usize, needle: &Vec<char>) -> (r: bool)
    requires
        i + needle@.len() <= hay@.len(),
    ensures
        r == matches_at(hay@, i as int, needle@),
{
    let hay_len: usize = hay.len();
    let mut k: usize = 0;
    while k < needle.len()
        invariant
            k <= needle@.len(),
            i + needle@.len() <= hay@.len(),
            hay_len == hay@.len(),
            forall|m: int| 0 <= m < k ==> hay@[i + m] == needle@[m],
        decreases needle@.len() - k,
    {
        if hay[i + k] != needle[k] {
            assert(hay@.subrange(i as int, i + needle@.len())[k as int] == hay@[i + k]);
            return false;
        }
        k += 1;
    }
    assert(hay@.subrange(i as int, i + needle@.len()) =~= needle@);
    true
}

/// First position at or after `from` where the needle occurs, if any.
pub fn find_sub_from(hay: &Vec<char>, from: usize, needle: &Vec<char>) -> (r: Option<usize>)
    requires
        from <= hay@.len(),
    ensures
        match r {
            Some(i) => {
                &&& from <= i
                &&& matches_at(hay@, i as int, needle@)
                &&& forall|j: int|
                    from <= j < i ==> !matches_at(hay@, j, needle@)
            },
            None => forall|j: int| from <= j ==> !matches_at(hay@, j, needle@),
        },
{
    if needle.len() > hay.len() {
        return None;
    }
    let last_start: usize = hay.len() - needle.len();
    if from > last_start {
        assert(forall|j: int| from <= j ==> !matches_at(hay@, j, needle@));
        return None;
    }
    let mut i: usize = from;
    loop
        invariant
            from <= i,
            i <= last_start,
            last_start == hay@.len() - needle@.len(),
            forall|j: int| from <= j < i ==> !matches_at(hay@, j, needle@),
        ensures
            forall|j: int| from <= j <= last_start ==> !matches_at(hay@, j, needle@),
        decreases last_start - i,
    {
        if range_eq(hay, i, needle) {
            return Some(i);
        }
        if i == last_start {
            break;
        }
        i += 1;
    }
    assert(forall|j: int| from <= j ==> !matches_at(hay@, j, needle@));
    None
}

/// Whether the needle occurs in the haystack.
pub fn contains_sub(hay: &Vec<char>, needle: &Vec<char>) -> (r: bool)
    ensures
        r == contains_seq(hay@, needle@),
{
    match find_sub_from(hay, 0, needle) {
        Some(i) => {
            assert(matches_at(hay@, i as int, needle@));
            true
        },
        None => {
            assert(forall|j: int| !matches_at(hay@, j, needle@));
            false
        },
    }
}

/// Whether two texts agree after ASCII lowercasing.
pub fn ascii_ci_eq(a: &str, b: &str) -> (r: bool)
    ensures
        r == (ascii_lowercase_of(a@) == ascii_lowercase_of(b@)),
{
    let va: Vec<char> = str_to_chars(a);
    let vb: Vec<char> = str_to_chars(b);
    if va.len() != vb.len() {
        assert(ascii_lowercase_of(a@).len() != ascii_lowercase_of(b@).len());
        return false;
    }
    let mut i: usize = 0;
    while i < va.len()
        invariant
            i <= va@.len(),
            va@ == a@,
            vb@ == b@,
            va@.len() == vb@.len(),
            forall|k: int| 0 <= k < i ==> ascii_lower_char(a@[k]) == ascii_lower_char(b@[k]),
        decreases va@.len() - i,
    {
        if char_ascii_lower(va[i]) != char_ascii_lower(vb[i]) {
            assert(ascii_lowercase_of(a@)[i as int] != ascii_lowercase_of(b@)[i as int]);
            return false;
        }
        i += 1;
    }
    assert(ascii_lowercase_of(a@) =~= ascii_lowercase_of(b@));
    true
}

/// Whether a character vector spells exactly this text.
pub fn chars_eq_str(w: &Vec<char>, lit: &str) -> (r: bool)
    ensures
        r == (w@ == lit@),
{
    let needle: Vec<char> = str_to_chars(lit);
    if w.len() != needle.len() {
        return false;
    }
    let same = range_eq(w, 0, &needle);
    proof {
        if same {
            assert(w@.subrange(0, needle@.len() as int) =~= w@);
        } else {
            if w@ == lit@ {
                assert(w@.subrange(0, needle@.len() as int) =~= needle@);
            }
        }
    }
    same
}

/// Whether two string slices hold the same characters.
pub fn str_eq(a: &str, b: &str) -> (r: bool)
    ensures
        r == (a@ == b@),
{
    let sa: String = a.to_owned();
    let sb: String = b.to_owned();
    sa.eq(&sb)
}

/// Copy of `v[a, b)`.
pub fn copy_range(v: &Vec<char>, a: usize, b: usize) -> (r: Vec<char>)
    requires
        a <= b,
        b <= v@.len(),
    ensures
        r@ == v@.subrange(a as int, b as int),
{
    let mut out: Vec<char> = Vec::new();
    let mut k: usize = a;
    while k < b
        invariant
            a <= k <= b <= v@.len(),
            out@ == v@.subrange(a as int, k as int),
        decreases b - k,
    {
        out.push(v[k]);
        assert(out@ =~= v@.subrange(a as int, k as int + 1));
        k += 1;
    }
    out
}

pub open spec fn digit_char(d: nat) -> char {
    if d == 0 { '0' }
    else if d == 1 { '1' }
    else if d == 2 { '2' }
    else if d == 3 { '3' }
    else if d == 4 { '4' }
    else if d == 5 { '5' }
    else if d == 6 { '6' }
    else if d == 7 { '7' }
    else if d == 8 { '8' }
    else { '9' }
}

/// Decimal digits of `n`, most significant first, no leading zeros
/// (a single `'0'` for zero).
pub open spec fn dec_digits(n: nat) -> Seq<char>
    decreases n,
{
    if n < 10 {
        seq![digit_char(n)]
    } else {
        dec_digits(n / 10) + seq![digit_char(n % 10)]
    }
}

/// Decimal rendering of an unsigned integer.
pub fn u64_to_dec(n: u64) -> (r: Vec<char>)
    ensures
        r@ == dec_digits(n as nat),
{
    let mut rev: Vec<char> = Vec::new();
    let mut m: u64 = n;
    loop
        invariant_except_break
            dec_digits(n as nat) == dec_digits(m as nat) + rev@.reverse(),
        ensures
            dec_digits(n as nat) == rev@.reverse(),
        decreases m,
    {
        let d: u64 = m % 10;
        let c: char = if d == 0 { '0' }
            else if d == 1 { '1' }
            else if d == 2 { '2' }
            else if d == 3 { '3' }
            else if d == 4 { '4' }
            else if d == 5 { '5' }
            else if d == 6 { '6' }
            else if d == 7 { '7' }
            else { if d == 8 { '8' } else { '9' } };
        let ghost old_rev = rev@;
        rev.push(c);
        assert(rev@.reverse() =~= seq![digit_char((m % 10) as nat)] + old_rev.reverse());
        if m < 10 {
            assert(dec_digits(m as nat) == seq![digit_char(m as nat)]);
            break;
        }
        m = m / 10;
        assert(dec_digits((m * 10 + d) as nat) == dec_digits(m as nat) + seq![digit_char(d as nat)]);
    }
    let mut out: Vec<char> = Vec::new();
    let mut i: usize = rev.len();
    while i > 0
        invariant
            i <= rev@.len(),
            out@ == rev@.reverse().take(rev@.len() - i),
        decreases i,
    {
        i -= 1;
        out.push(rev[i]);
        assert(out@ =~= rev@.reverse().take(rev@.len() - i));
    }
    assert(out@ =~= rev@.reverse());
    out
}

/// Decimal digits of a signed integer, with a leading minus when
/// negative.
pub open spec fn i64_digits(n: i64) -> Seq<char> {
    if n >= 0 {
        dec_digits(n as nat)
    } else {
        seq!['-'] + dec_digits((-(n as int)) as nat)
    }
}

/// Decimal rendering of a signed integer.
pub fn i64_to_dec(n: i64) -> (r: Vec<char>)
    ensures
        r@ == i64_digits(n),
{
    if n >= 0 {
        u64_to_dec(n as u64)
    } else {
        let magnitude: u64 = ((-(n + 1)) as u64) + 1;
        assert(magnitude == -(n as int));
        let digits: Vec<char> = u64_to_dec(magnitude);
        let mut out: Vec<char> = Vec::new();
        out.push('-');
        let mut i: usize = 0;
        while i < digits.len()
            invariant
                i <= digits@.len(),
                digits@ == dec_digits((-(n as int)) as nat),
                out@ == seq!['-'] + digits@.subrange(0, i as int),
            decreases digits@.len() - i,
        {
            out.push(digits[i]);
            assert(out@ =~= seq!['-'] + digits@.subrange(0, i as int + 1));
            i += 1;
        }
        assert(digits@.subrange(0, digits@.len() as int) =~= digits@);
        out
    }
}

/// Value of a decimal text read left to right onto `acc`; -1 for
/// empty or non-digit text or a value past the 64-bit range.
pub open spec fn spec_u64_read(s: Seq<char>, i: int, acc: int) -> int
    decreases s.len() - i + 1,
{
    if i < 0 || i > s.len() {
        -1
    } else if i == s.len() {
        acc
    } else {
        let c = s[i];
        if !('0' <= c && c <= '9') {
            -1
        } else {
            let d = c as int - '0' as int;
            if acc > (u64::MAX - d) / 10 {
                -1
            } else {
                spec_u64_read(s, i + 1, acc * 10 + d)
            }
        }
    }
}

/// Value of a decimal text: digits only, non-empty, within 64 bits.
pub open spec fn spec_parse_u64(s: Seq<char>) -> int {
    if s.len() == 0 {
        -1
    } else {
        spec_u64_read(s, 0, 0)
    }
}

/// Parse an unsigned decimal text.
pub fn parse_u64_dec(s: &str) -> (r: Option<u64>)
    ensures
        match r {
            Some(v) => spec_parse_u64(s@) == v,
            None => spec_parse_u64(s@) == -1,
        },
{
    let cs: Vec<char> = str_to_chars(s);
    let n: usize = cs.len();
    if n == 0 {
        return None;
    }
    let mut acc: u64 = 0;
    let mut i: usize = 0;
    while i < n
        invariant
            i <= n,
            n == cs@.len(),
            cs@ == s@,
            spec_u64_read(s@, 0, 0) == spec_u64_read(s@, i as int, acc as int),
        decreases n - i,
    {
        let c: char = cs[i];
        if !('0' <= c && c <= '9') {
            return None;
        }
        let d: u64 = ((c as u32) - ('0' as u32)) as u64;
        assert(d == cs@[i as int] as int - '0' as int);
        assert(d <= 9);
        if acc > (u64::MAX - d) / 10 {
            return None;
        }
        assert(acc * 10 + d <= u64::MAX) by (nonlinear_arith)
            requires
                0 <= d <= 9,
                acc <= (u64::MAX - d) / 10,
        ;
        acc = acc * 10 + d;
        i += 1;
    }
    Some(acc)
}

} // verus!
