//! Verified helpers over strings: substring search, prefix and suffix tests,
//! fixed-point and hexadecimal rendering, and the trusted case-folding and
//! byte-decoding calls the rest of the library shares.
use vstd::prelude::*;

verus! {

/// The pattern `p` occurs in `s` at position `i`.
pub open spec fn match_at(s: Seq<char>, p: Seq<char>, i: int) -> bool {
    0 <= i && i + p.len() <= s.len() && s.subrange(i, i + p.len() as int) == p
}

/// The pattern `p` occurs somewhere in `s`.
pub open spec fn contains_seq(s: Seq<char>, p: Seq<char>) -> bool {
    exists|i: int| match_at(s, p, i)
}

/// `p` is a prefix of `s`.
pub open spec fn starts_with_seq(s: Seq<char>, p: Seq<char>) -> bool {
    p.len() <= s.len() && s.subrange(0, p.len() as int) == p
}

/// `p` is a suffix of `s`.
pub open spec fn ends_with_seq(s: Seq<char>, p: Seq<char>) -> bool {
    p.len() <= s.len() && s.subrange(s.len() - p.len(), s.len() as int) == p
}

/// The characters of `s` and `p` agree over `p`'s whole length starting at
/// position `i` of `s`.
fn match_at_exec(s: &str, p: &str, i: usize, s_len: usize, p_len: usize) -> (r: bool)
    requires
        s_len == s@.len(),
        p_len == p@.len(),
        i + p_len <= s_len,
    ensures
        r == match_at(s@, p@, i as int),
{
    let mut j: usize = 0;
    while j < p_len
        invariant
            s_len == s@.len(),
            p_len == p@.len(),
            i + p_len <= s_len,
            j <= p_len,
            forall|k: int| 0 <= k < j ==> s@[i + k] == p@[k],
        decreases p_len - j,
    {
        if s.get_char(i + j) != p.get_char(j) {
            assert(s@.subrange(i as int, i + p@.len()) != p@) by {
                assert(s@.subrange(i as int, i + p@.len())[j as int] == s@[i + j]);
            }
            return false;
        }
        j += 1;
    }
    assert(s@.subrange(i as int, i + p@.len()) =~= p@);
    true
}

/// The pattern `p` occurs somewhere in `s`, as `str::contains` answers it.
pub fn str_contains(s: &str, p: &str) -> (r: bool)
    ensures
        r == contains_seq(s@, p@),
{
    let s_len = s.unicode_len();
    let p_len = p.unicode_len();
    if p_len > s_len {
        assert(forall|i: int| !match_at(s@, p@, i));
        return false;
    }
    if p_len == 0 {
        assert(s@.subrange(0, 0) =~= p@);
        assert(match_at(s@, p@, 0));
        return true;
    }
    let mut i: usize = 0;
    loop
        invariant
            s_len == s@.len(),
            p_len == p@.len(),
            0 < p_len <= s_len,
            i <= s_len - p_len + 1,
            forall|k: int| 0 <= k < i ==> !match_at(s@, p@, k),
        decreases s_len - p_len + 1 - i,
    {
        if i > s_len - p_len {
            assert(forall|k: int| !match_at(s@, p@, k));
            return false;
        }
        if match_at_exec(s, p, i, s_len, p_len) {
            return true;
        }
        i += 1;
    }
}

/// `p` is a prefix of `s`, as `str::starts_with` answers it.
pub fn str_starts_with(s: &str, p: &str) -> (r: bool)
    ensures
        r == starts_with_seq(s@, p@),
{
    let s_len = s.unicode_len();
    let p_len = p.unicode_len();
    if p_len > s_len {
        return false;
    }
    match_at_exec(s, p, 0, s_len, p_len)
}

/// `p` is a suffix of `s`, as `str::ends_with` answers it.
pub fn str_ends_with(s: &str, p: &str) -> (r: bool)
    ensures
        r == ends_with_seq(s@, p@),
{
    let s_len = s.unicode_len();
    let p_len = p.unicode_len();
    if p_len > s_len {
        return false;
    }
    match_at_exec(s, p, s_len - p_len, s_len, p_len)
}

/// The two strings hold the same characters.
pub fn str_eq(s: &str, t: &str) -> (r: bool)
    ensures
        r == (s@ == t@),
{
    let s_len = s.unicode_len();
    let t_len = t.unicode_len();
    if s_len != t_len {
        return false;
    }
    let r = match_at_exec(s, t, 0, s_len, t_len);
    if r {
        assert(s@.subrange(0, t@.len() as int) =~= s@);
    } else {
        assert(s@ != t@) by {
            if s@ == t@ {
                assert(s@.subrange(0, t@.len() as int) =~= t@);
            }
        }
    }
    r
}

/// What `str::to_lowercase` returns: Unicode case folding is a function of
/// the characters alone.
pub uninterp spec fn lower_of(s: Seq<char>) -> Seq<char>;

/// Relies on `str::to_lowercase`: the lowercased text depends on the
/// characters alone, and an empty string stays empty.
#[verifier::external_body]
pub(crate) fn to_lowercase(s: &str) -> (r: String)
    ensures
        r@ == lower_of(s@),
        s@.len() == 0 ==> r@.len() == 0,
{
    s.to_lowercase()
}

/// What `String::from_utf8_lossy` returns: the decoded text is a function of
/// the bytes alone.
pub uninterp spec fn utf8_lossy_of(bytes: Seq<u8>) -> Seq<char>;

/// Relies on `String::from_utf8_lossy`: the decoded text depends on the
/// bytes alone, and no bytes decode to no text.
#[verifier::external_body]
pub(crate) fn utf8_lossy(bytes: &[u8]) -> (r: String)
    ensures
        r@ == utf8_lossy_of(bytes@),
        bytes@.len() == 0 ==> r@.len() == 0,
    {
    String::from_utf8_lossy(bytes).into_owned()
}

/// The decimal digit character for `d`.
pub open spec fn digit_char(d: int) -> char {
    if d == 0 {
        '0'
    } else if d == 1 {
        '1'
    } else if d == 2 {
        '2'
    } else if d == 3 {
        '3'
    } else if d == 4 {
        '4'
    } else if d == 5 {
        '5'
    } else if d == 6 {
        '6'
    } else if d == 7 {
        '7'
    } else if d == 8 {
        '8'
    } else {
        '9'
    }
}

/// The decimal digit for `d` as a one-character string.
pub fn digit_str(d: u32) -> (r: &'static str)
    requires
        d <= 9,
    ensures
        r@ =~= seq![digit_char(d as int)],
{
    proof {
        reveal_strlit("0");
        reveal_strlit("1");
        reveal_strlit("2");
        reveal_strlit("3");
        reveal_strlit("4");
        reveal_strlit("5");
        reveal_strlit("6");
        reveal_strlit("7");
        reveal_strlit("8");
        reveal_strlit("9");
    }
    match d {
        0 => "0",
        1 => "1",
        2 => "2",
        3 => "3",
        4 => "4",
        5 => "5",
        6 => "6",
        7 => "7",
        8 => "8",
        _ => "9",
    }
}

/// A per-mille value `v` rendered with three decimal places, as `{:.3}`
/// renders `v / 1000`.
pub open spec fn permille_chars(v: int) -> Seq<char> {
    seq![
        digit_char(v / 1000),
        '.',
        digit_char(v / 100 % 10),
        digit_char(v / 10 % 10),
        digit_char(v % 10),
    ]
}

/// Renders a per-mille fraction with three decimal places.
pub fn permille_str(v: u32) -> (r: String)
    requires
        v <= 1000,
    ensures
        r@ == permille_chars(v as int),
{
    proof {
        reveal_strlit(".");
    }
    let mut out = String::from_str(digit_str(v / 1000));
    out.append(".");
    out.append(digit_str(v / 100 % 10));
    out.append(digit_str(v / 10 % 10));
    out.append(digit_str(v % 10));
    assert(out@ =~= permille_chars(v as int));
    out
}

/// A per-mille value rendered tersely: whole values as a bare digit,
/// anything else with three decimal places.
pub open spec fn terse_chars(v: int) -> Seq<char> {
    if v % 1000 == 0 {
        seq![digit_char(v / 1000)]
    } else {
        permille_chars(v)
    }
}

/// Renders a per-mille fraction tersely: `0` and `1` as bare digits,
/// anything else with three decimal places.
pub fn terse_permille_str(v: u32) -> (r: String)
    requires
        v <= 1000,
    ensures
        r@ == terse_chars(v as int),
{
    if v % 1000 == 0 {
        let r = String::from_str(digit_str(v / 1000));
        assert(r@ =~= terse_chars(v as int));
        r
    } else {
        permille_str(v)
    }
}

/// The lower-case hexadecimal digit character for `d`.
pub open spec fn hex_char(d: int) -> char {
    if d < 10 {
        digit_char(d)
    } else if d == 10 {
        'a'
    } else if d == 11 {
        'b'
    } else if d == 12 {
        'c'
    } else if d == 13 {
        'd'
    } else if d == 14 {
        'e'
    } else {
        'f'
    }
}

/// The lower-case hexadecimal digit for `d` as a one-character string.
pub fn hex_digit_str(d: u32) -> (r: &'static str)
    requires
        d <= 15,
    ensures
        r@ =~= seq![hex_char(d as int)],
{
    if d <= 9 {
        digit_str(d)
    } else {
        proof {
            reveal_strlit("a");
            reveal_strlit("b");
            reveal_strlit("c");
            reveal_strlit("d");
            reveal_strlit("e");
            reveal_strlit("f");
        }
        match d {
            10 => "a",
            11 => "b",
            12 => "c",
            13 => "d",
            14 => "e",
            _ => "f",
        }
    }
}

/// A 32-bit value rendered as eight lower-case hexadecimal digits, as
/// `{:08x}` renders it.
pub open spec fn hex8_chars(v: int) -> Seq<char> {
    seq![
        hex_char(v / 0x10000000 % 16),
        hex_char(v / 0x1000000 % 16),
        hex_char(v / 0x100000 % 16),
        hex_char(v / 0x10000 % 16),
        hex_char(v / 0x1000 % 16),
        hex_char(v / 0x100 % 16),
        hex_char(v / 0x10 % 16),
        hex_char(v % 16),
    ]
}

/// Renders a 32-bit value as eight lower-case hexadecimal digits.
pub fn hex8(v: u32) -> (r: String)
    ensures
        r@ == hex8_chars(v as int),
{
    let mut out = String::from_str(hex_digit_str(v / 0x10000000 % 16));
    out.append(hex_digit_str(v / 0x1000000 % 16));
    out.append(hex_digit_str(v / 0x100000 % 16));
    out.append(hex_digit_str(v / 0x10000 % 16));
    out.append(hex_digit_str(v / 0x1000 % 16));
    out.append(hex_digit_str(v / 0x100 % 16));
    out.append(hex_digit_str(v / 0x10 % 16));
    out.append(hex_digit_str(v % 16));
    assert(out@ =~= hex8_chars(v as int));
    out
}

} // verus!
