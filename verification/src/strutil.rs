//! Character-level string utilities: conversions between `&str` and
//! `Vec<char>`, ASCII case folding, decimal and hexadecimal numerals,
//! searching, and trimming. The parsers elsewhere in the crate work on
//! `Vec<char>` and use these helpers.

use vstd::prelude::*;

verus! {

/// The characters of `s`, one per element, in order.
pub fn chars_of(s: &str) -> (r: Vec<char>)
    ensures
        r@ == s@,
{
    let n = s.unicode_len();
    let mut v: Vec<char> = Vec::new();
    let mut i: usize = 0;
    while i < n
        invariant
            i <= n,
            n == s@.len(),
            v@ =~= s@.subrange(0, i as int),
        decreases n - i,
    {
        let c = s.get_char(i);
        v.push(c);
        i = i + 1;
    }
    assert(v@ =~= s@);
    v
}

/// Relies on `String: FromIterator<char>`: collecting characters yields
/// the string of exactly those characters in order.
#[verifier::external_body]
pub fn chars_to_string(v: &Vec<char>) -> (r: String)
    ensures
        r@ == v@,
{
    v.iter().collect()
}

/// ASCII whitespace: space, tab, carriage return, line feed.
pub open spec fn is_ws(c: char) -> bool {
    c == ' ' || c == '\t' || c == '\r' || c == '\n'
}

pub fn char_is_ws(c: char) -> (r: bool)
    ensures
        r == is_ws(c),
{
    c == ' ' || c == '\t' || c == '\r' || c == '\n'
}

/// ASCII lower-casing of a single character; other characters unchanged.
pub open spec fn lower_char(c: char) -> char {
    if 65 <= c as u32 && c as u32 <= 90 {
        (((c as u32) + 32) as u8) as char
    } else {
        c
    }
}

/// `s` with every ASCII upper-case letter lowered.
pub open spec fn lower_seq(s: Seq<char>) -> Seq<char> {
    Seq::new(s.len(), |i: int| lower_char(s[i]))
}

pub fn to_lower(v: &Vec<char>) -> (r: Vec<char>)
    ensures
        r@ == lower_seq(v@),
{
    let mut out: Vec<char> = Vec::new();
    let mut i: usize = 0;
    while i < v.len()
        invariant
            i <= v@.len(),
            out@ =~= lower_seq(v@).subrange(0, i as int),
        decreases v@.len() - i,
    {
        let c = v[i];
        let u = c as u32;
        if 65 <= u && u <= 90 {
            out.push(((u + 32) as u8) as char);
        } else {
            out.push(c);
        }
        i = i + 1;
    }
    assert(out@ =~= lower_seq(v@));
    out
}

pub open spec fn is_digit(c: char) -> bool {
    48 <= c as u32 && c as u32 <= 57
}

pub open spec fn digit_val(c: char) -> nat {
    ((c as u32) - 48) as nat
}

pub open spec fn all_digits(s: Seq<char>) -> bool {
    forall|i: int| 0 <= i < s.len() ==> is_digit(#[trigger] s[i])
}

/// Value of a decimal numeral, most significant digit first.
pub open spec fn dec_val(s: Seq<char>) -> nat
    decreases s.len(),
{
    if s.len() == 0 {
        0
    } else {
        dec_val(s.drop_last()) * 10 + digit_val(s.last())
    }
}

/// A longer digit prefix never has a smaller value.
proof fn lemma_dec_val_prefix_le(s: Seq<char>, i: int, j: int)
    requires
        0 <= i <= j <= s.len(),
    ensures
        dec_val(s.subrange(0, i)) <= dec_val(s.subrange(0, j)),
    decreases j - i,
{
    if i < j {
        lemma_dec_val_prefix_le(s, i, j - 1);
        assert(s.subrange(0, j).drop_last() =~= s.subrange(0, j - 1));
    }
}

/// Parses a non-empty string of decimal digits as a `u64`.
/// Returns `None` on an empty string, a non-digit, or overflow.
pub fn parse_u64(v: &Vec<char>) -> (r: Option<u64>)
    ensures
        r == (if v@.len() >= 1 && all_digits(v@) && dec_val(v@) <= u64::MAX {
            Some(dec_val(v@) as u64)
        } else {
            None::<u64>
        }),
{
    if v.len() == 0 {
        return None;
    }
    let mut acc: u64 = 0;
    let mut i: usize = 0;
    while i < v.len()
        invariant
            i <= v@.len(),
            all_digits(v@.subrange(0, i as int)),
            acc == dec_val(v@.subrange(0, i as int)),
        decreases v@.len() - i,
    {
        let c = v[i];
        let u = c as u32;
        if !(48 <= u && u <= 57) {
            assert(!is_digit(v@[i as int]));
            return None;
        }
        let d: u64 = (u - 48) as u64;
        proof {
            assert(v@.subrange(0, i + 1).drop_last() =~= v@.subrange(0, i as int));
        }
        if acc > (u64::MAX - d) / 10 {
            proof {
                assert(dec_val(v@.subrange(0, i + 1)) > u64::MAX) by (nonlinear_arith)
                    requires
                        dec_val(v@.subrange(0, i + 1)) == acc * 10 + d,
                        acc > (u64::MAX - d) / 10,
                        d <= 9,
                        acc <= u64::MAX,
                {}
                lemma_dec_val_prefix_le(v@, i + 1, v@.len() as int);
                assert(v@.subrange(0, v@.len() as int) =~= v@);
            }
            return None;
        }
        proof {
            assert(acc * 10 + d <= u64::MAX) by (nonlinear_arith)
                requires
                    acc <= (u64::MAX - d) / 10,
                    d <= 9,
                {}
        }
        acc = acc * 10 + d;
        i = i + 1;
    }
    assert(v@.subrange(0, v@.len() as int) =~= v@);
    Some(acc)
}

/// Parses a non-empty string of decimal digits as a `u16`.
pub fn parse_u16(v: &Vec<char>) -> (r: Option<u16>)
    ensures
        r == (if v@.len() >= 1 && all_digits(v@) && dec_val(v@) <= u16::MAX {
            Some(dec_val(v@) as u16)
        } else {
            None::<u16>
        }),
{
    match parse_u64(v) {
        Some(x) => {
            if x <= 65535 {
                Some(x as u16)
            } else {
                None
            }
        },
        None => {
            proof {
                if v@.len() >= 1 && all_digits(v@) && dec_val(v@) <= u16::MAX {
                    assert(dec_val(v@) <= u64::MAX);
                }
            }
            None
        },
    }
}

/// Parses a non-empty string of decimal digits as a `u32`.
pub fn parse_u32(v: &Vec<char>) -> (r: Option<u32>)
    ensures
        r == (if v@.len() >= 1 && all_digits(v@) && dec_val(v@) <= u32::MAX {
            Some(dec_val(v@) as u32)
        } else {
            None::<u32>
        }),
{
    match parse_u64(v) {
        Some(x) => {
            if x <= 0xffff_ffff {
                Some(x as u32)
            } else {
                None
            }
        },
        None => {
            proof {
                if v@.len() >= 1 && all_digits(v@) && dec_val(v@) <= u32::MAX {
                    assert(dec_val(v@) <= u64::MAX);
                }
            }
            None
        },
    }
}

pub open spec fn is_hex_digit(c: char) -> bool {
    is_digit(c) || (97 <= c as u32 && c as u32 <= 102) || (65 <= c as u32 && c as u32 <= 70)
}

pub open spec fn hex_digit_val(c: char) -> nat {
    if is_digit(c) {
        digit_val(c)
    } else if 97 <= c as u32 && c as u32 <= 102 {
        ((c as u32) - 87) as nat
    } else {
        ((c as u32) - 55) as nat
    }
}

pub open spec fn all_hex_digits(s: Seq<char>) -> bool {
    forall|i: int| 0 <= i < s.len() ==> is_hex_digit(#[trigger] s[i])
}

/// Value of a hexadecimal numeral, most significant digit first.
pub open spec fn hex_val(s: Seq<char>) -> nat
    decreases s.len(),
{
    if s.len() == 0 {
        0
    } else {
        hex_val(s.drop_last()) * 16 + hex_digit_val(s.last())
    }
}

proof fn lemma_hex_val_prefix_le(s: Seq<char>, i: int, j: int)
    requires
        0 <= i <= j <= s.len(),
    ensures
        hex_val(s.subrange(0, i)) <= hex_val(s.subrange(0, j)),
    decreases j - i,
{
    if i < j {
        lemma_hex_val_prefix_le(s, i, j - 1);
        assert(s.subrange(0, j).drop_last() =~= s.subrange(0, j - 1));
    }
}

/// Parses a non-empty string of hexadecimal digits (either case) as a
/// `u16`. Returns `None` on an empty string, a non-digit, or overflow.
pub fn parse_hex_u16(v: &Vec<char>) -> (r: Option<u16>)
    ensures
        r == (if v@.len() >= 1 && all_hex_digits(v@) && hex_val(v@) <= u16::MAX {
            Some(hex_val(v@) as u16)
        } else {
            None::<u16>
        }),
{
    if v.len() == 0 {
        return None;
    }
    let mut acc: u32 = 0;
    let mut i: usize = 0;
    while i < v.len()
        invariant
            i <= v@.len(),
            all_hex_digits(v@.subrange(0, i as int)),
            acc == hex_val(v@.subrange(0, i as int)),
            acc <= u16::MAX,
        decreases v@.len() - i,
    {
        let c = v[i];
        let u = c as u32;
        let d: u32 = if 48 <= u && u <= 57 {
            u - 48
        } else if 97 <= u && u <= 102 {
            u - 87
        } else if 65 <= u && u <= 70 {
            u - 55
        } else {
            assert(!is_hex_digit(v@[i as int]));
            return None;
        };
        proof {
            assert(v@.subrange(0, i + 1).drop_last() =~= v@.subrange(0, i as int));
        }
        if acc > (65535 - d) / 16 {
            proof {
                assert(hex_val(v@.subrange(0, i + 1)) > u16::MAX) by (nonlinear_arith)
                    requires
                        hex_val(v@.subrange(0, i + 1)) == acc * 16 + d,
                        acc > (65535 - d) / 16,
                        d <= 15,
                {}
                lemma_hex_val_prefix_le(v@, i + 1, v@.len() as int);
                assert(v@.subrange(0, v@.len() as int) =~= v@);
            }
            return None;
        }
        proof {
            assert(acc * 16 + d <= 65535) by (nonlinear_arith)
                requires
                    acc <= (65535 - d) / 16,
                    d <= 15,
                {}
        }
        acc = acc * 16 + d;
        i = i + 1;
    }
    assert(v@.subrange(0, v@.len() as int) =~= v@);
    Some(acc as u16)
}

/// Index of the first occurrence of `c`, if any.
pub fn find_char(v: &Vec<char>, c: char) -> (r: Option<usize>)
    ensures
        match r {
            Some(i) => i < v@.len() && v@[i as int] == c && (forall|j: int|
                0 <= j < i ==> v@[j] != c),
            None => forall|j: int| 0 <= j < v@.len() ==> v@[j] != c,
        },
{
    let mut i: usize = 0;
    while i < v.len()
        invariant
            i <= v@.len(),
            forall|j: int| 0 <= j < i ==> v@[j] != c,
        decreases v@.len() - i,
    {
        if v[i] == c {
            return Some(i);
        }
        i = i + 1;
    }
    None
}

/// Index of the first occurrence of `c` in `s` (meaningful only when
/// one exists).
pub open spec fn first_index_of(s: Seq<char>, c: char) -> int {
    choose|i: int| 0 <= i < s.len() && s[i] == c && (forall|j: int| 0 <= j < i ==> s[j] != c)
}

/// A position that holds `c` with none before it is the first one.
pub proof fn lemma_first_index_of(s: Seq<char>, c: char, i: int)
    requires
        0 <= i < s.len(),
        s[i] == c,
        forall|j: int| 0 <= j < i ==> s[j] != c,
    ensures
        first_index_of(s, c) == i,
{
    let w = first_index_of(s, c);
    assert(0 <= w < s.len() && s[w] == c && (forall|j: int| 0 <= j < w ==> s[j] != c));
    if w < i {
        assert(s[w] == c);
    } else if w > i {
        assert(s[i] == c);
    }
}

/// Index of the last occurrence of `c`, if any.
pub fn rfind_char(v: &Vec<char>, c: char) -> (r: Option<usize>)
    ensures
        match r {
            Some(i) => i < v@.len() && v@[i as int] == c && (forall|j: int|
                i < j < v@.len() ==> v@[j] != c),
            None => forall|j: int| 0 <= j < v@.len() ==> v@[j] != c,
        },
{
    let mut i: usize = v.len();
    while i > 0
        invariant
            i <= v@.len(),
            forall|j: int| i <= j < v@.len() ==> v@[j] != c,
        decreases i,
    {
        i = i - 1;
        if v[i] == c {
            return Some(i);
        }
    }
    None
}

/// Whether `h` equals `n` starting at position `at`.
fn matches_at(h: &Vec<char>, at: usize, n: &Vec<char>) -> (r: bool)
    requires
        at + n@.len() <= h@.len(),
    ensures
        r == (h@.subrange(at as int, at + n@.len()) == n@),
{
    let hl = h.len();
    let mut j: usize = 0;
    while j < n.len()
        invariant
            j <= n@.len(),
            at + n@.len() <= h@.len(),
            h@.len() == hl,
            forall|k: int| 0 <= k < j ==> h@[at + k] == n@[k],
        decreases n@.len() - j,
    {
        if h[at + j] != n[j] {
            assert(h@.subrange(at as int, at + n@.len())[j as int] != n@[j as int]);
            return false;
        }
        j = j + 1;
    }
    assert(h@.subrange(at as int, at + n@.len()) =~= n@);
    true
}

/// `n` occurs as a contiguous subsequence of `h`.
pub open spec fn contains_seq_spec(h: Seq<char>, n: Seq<char>) -> bool {
    exists|i: int| 0 <= i <= h.len() - n.len() && #[trigger] h.subrange(i, i + n.len()) == n
}

pub fn contains_seq(h: &Vec<char>, n: &Vec<char>) -> (r: bool)
    ensures
        r == contains_seq_spec(h@, n@),
{
    if n.len() > h.len() {
        return false;
    }
    let bound: usize = h.len() - n.len();
    let mut i: usize = 0;
    while i < bound
        invariant
            bound == h@.len() - n@.len(),
            n@.len() <= h@.len(),
            i <= bound,
            forall|k: int| 0 <= k < i ==> #[trigger] h@.subrange(k, k + n@.len()) != n@,
        decreases bound - i,
    {
        if matches_at(h, i, n) {
            return true;
        }
        i = i + 1;
    }
    if matches_at(h, bound, n) {
        return true;
    }
    false
}

/// `h` begins with `n`.
pub open spec fn starts_with_spec(h: Seq<char>, n: Seq<char>) -> bool {
    n.len() <= h.len() && h.subrange(0, n.len() as int) == n
}

pub fn starts_with(h: &Vec<char>, n: &Vec<char>) -> (r: bool)
    ensures
        r == starts_with_spec(h@, n@),
{
    if n.len() > h.len() {
        return false;
    }
    matches_at(h, 0, n)
}

/// `s` without leading ASCII whitespace.
pub open spec fn trim_start_spec(s: Seq<char>) -> Seq<char>
    decreases s.len(),
{
    if s.len() > 0 && is_ws(s[0]) {
        trim_start_spec(s.drop_first())
    } else {
        s
    }
}

/// `s` without trailing ASCII whitespace.
pub open spec fn trim_end_spec(s: Seq<char>) -> Seq<char>
    decreases s.len(),
{
    if s.len() > 0 && is_ws(s.last()) {
        trim_end_spec(s.drop_last())
    } else {
        s
    }
}

/// `s` without leading or trailing ASCII whitespace.
pub open spec fn trim_spec(s: Seq<char>) -> Seq<char> {
    trim_end_spec(trim_start_spec(s))
}

pub fn trim(v: &Vec<char>) -> (r: Vec<char>)
    ensures
        r@ == trim_spec(v@),
{
    assert(v@.subrange(0, v@.len() as int) =~= v@);
    let mut a: usize = 0;
    while a < v.len() && char_is_ws(v[a])
        invariant
            a <= v@.len(),
            trim_start_spec(v@) == trim_start_spec(v@.subrange(a as int, v@.len() as int)),
        decreases v@.len() - a,
    {
        proof {
            assert(v@.subrange(a as int, v@.len() as int).drop_first() =~= v@.subrange(
                a + 1,
                v@.len() as int,
            ));
        }
        a = a + 1;
    }
    let mut b: usize = v.len();
    while b > a && char_is_ws(v[b - 1])
        invariant
            a <= b <= v@.len(),
            trim_start_spec(v@) == trim_start_spec(v@.subrange(a as int, v@.len() as int)),
            a < v@.len() ==> !is_ws(v@[a as int]),
            a == v@.len() || !is_ws(v@[a as int]),
            trim_end_spec(v@.subrange(a as int, v@.len() as int)) == trim_end_spec(
                v@.subrange(a as int, b as int),
            ),
        decreases b,
    {
        proof {
            assert(v@.subrange(a as int, b as int).drop_last() =~= v@.subrange(a as int, b - 1));
        }
        b = b - 1;
    }
    let mut out: Vec<char> = Vec::new();
    let mut i: usize = a;
    while i < b
        invariant
            a <= i <= b <= v@.len(),
            out@ =~= v@.subrange(a as int, i as int),
        decreases b - i,
    {
        out.push(v[i]);
        i = i + 1;
    }
    proof {
        let mid = v@.subrange(a as int, b as int);
        if a < v@.len() {
            assert(v@.subrange(a as int, v@.len() as int)[0] == v@[a as int]);
        }
        assert(trim_start_spec(v@) == v@.subrange(a as int, v@.len() as int));
        if b > a {
            assert(!is_ws(mid.last()));
            assert(trim_end_spec(mid) == mid);
        } else {
            assert(mid =~= Seq::<char>::empty());
        }
        assert(out@ =~= mid);
    }
    out
}

/// Index of the last occurrence of `c` in `s` (meaningful only when one
/// exists).
pub open spec fn last_index_of(s: Seq<char>, c: char) -> int {
    choose|i: int| 0 <= i < s.len() && s[i] == c && (forall|j: int| i < j < s.len() ==> s[j] != c)
}

/// The part of `s` after the last occurrence of `c`; `s` itself if it
/// holds none.
pub open spec fn after_last(s: Seq<char>, c: char) -> Seq<char> {
    if exists|j: int| 0 <= j < s.len() && s[j] == c {
        s.subrange(last_index_of(s, c) + 1, s.len() as int)
    } else {
        s
    }
}

/// The part of `s` after the last `/`; `s` itself if it holds none.
pub open spec fn after_last_slash(s: Seq<char>) -> Seq<char> {
    after_last(s, '/')
}

/// Everything after the last occurrence of `c`.
pub fn after_last_char(v: &Vec<char>, c: char) -> (r: Vec<char>)
    ensures
        r@ == after_last(v@, c),
{
    match rfind_char(v, c) {
        Some(i) => {
            let n = v.len();
            assert(i < n);
            let mut out: Vec<char> = Vec::new();
            let mut j: usize = i + 1;
            while j < v.len()
                invariant
                    i + 1 <= j <= v@.len(),
                    out@ =~= v@.subrange(i + 1, j as int),
                decreases v@.len() - j,
            {
                out.push(v[j]);
                j = j + 1;
            }
            proof {
                assert(v@[i as int] == c);
                let w = last_index_of(v@, c);
                assert(0 <= w < v@.len() && v@[w] == c && (forall|j2: int|
                    w < j2 < v@.len() ==> v@[j2] != c));
                assert(w == i) by {
                    if w < i {
                        assert(v@[i as int] == c);
                    } else if w > i {
                        assert(v@[w] == c);
                    }
                }
                assert(out@ =~= v@.subrange(i + 1, v@.len() as int));
            }
            out
        },
        None => {
            let out = dup_chars(v);
            out
        },
    }
}

/// The final path segment: everything after the last `/`.
pub fn basename(v: &Vec<char>) -> (r: Vec<char>)
    ensures
        r@ == after_last_slash(v@),
{
    after_last_char(v, '/')
}

/// `n` stands in `h` at position `i`.
pub open spec fn has_seq_at(h: Seq<char>, n: Seq<char>, i: int) -> bool {
    0 <= i && i + n.len() <= h.len() && h.subrange(i, i + n.len()) == n
}

/// The first position where `n` stands in `h` (meaningful only when one
/// exists).
pub open spec fn first_seq_index(h: Seq<char>, n: Seq<char>) -> int {
    choose|i: int| has_seq_at(h, n, i) && (forall|j: int| 0 <= j < i ==> !has_seq_at(h, n, j))
}

/// Position of the first occurrence of `n` in `h`, if any.
pub fn find_seq(h: &Vec<char>, n: &Vec<char>) -> (r: Option<usize>)
    ensures
        match r {
            Some(i) => has_seq_at(h@, n@, i as int) && (forall|j: int|
                0 <= j < i ==> !has_seq_at(h@, n@, j)) && i == first_seq_index(h@, n@),
            None => forall|j: int| !has_seq_at(h@, n@, j),
        },
{
    if n.len() > h.len() {
        assert(forall|j: int| !has_seq_at(h@, n@, j));
        return None;
    }
    let bound: usize = h.len() - n.len();
    let mut i: usize = 0;
    loop
        invariant
            bound == h@.len() - n@.len(),
            n@.len() <= h@.len(),
            i <= bound,
            forall|j: int| 0 <= j < i ==> !has_seq_at(h@, n@, j),
        ensures
            forall|j: int| !has_seq_at(h@, n@, j),
        decreases bound - i,
    {
        if matches_at(h, i, n) {
            proof {
                let w = first_seq_index(h@, n@);
                assert(has_seq_at(h@, n@, i as int));
                assert(has_seq_at(h@, n@, w) && (forall|j: int|
                    0 <= j < w ==> !has_seq_at(h@, n@, j)));
                assert(w == i as int) by {
                    if w < i {
                        assert(has_seq_at(h@, n@, w));
                    } else if w > i {
                        assert(has_seq_at(h@, n@, i as int));
                    }
                }
            }
            return Some(i);
        }
        if i == bound {
            proof {
                assert(forall|j: int| j > bound ==> !has_seq_at(h@, n@, j));
            }
            break;
        }
        i = i + 1;
    }
    None
}

/// Length of the maximal run of decimal digits at the front of `s`.
pub open spec fn digit_prefix_len(s: Seq<char>) -> int
    decreases s.len(),
{
    if s.len() > 0 && is_digit(s[0]) {
        1 + digit_prefix_len(s.drop_first())
    } else {
        0
    }
}

pub proof fn lemma_digit_prefix_len_bounds(s: Seq<char>)
    ensures
        0 <= digit_prefix_len(s) <= s.len(),
        forall|j: int| 0 <= j < digit_prefix_len(s) ==> is_digit(#[trigger] s[j]),
    decreases s.len(),
{
    if s.len() > 0 && is_digit(s[0]) {
        lemma_digit_prefix_len_bounds(s.drop_first());
        assert forall|j: int| 0 <= j < digit_prefix_len(s) implies is_digit(#[trigger] s[j]) by {
            if j > 0 {
                assert(s.drop_first()[j - 1] == s[j]);
            }
        }
    }
}

/// How many decimal digits stand at the front of `v`, starting at `from`.
pub fn digit_run(v: &Vec<char>, from: usize) -> (r: usize)
    requires
        from <= v@.len(),
    ensures
        r == digit_prefix_len(v@.skip(from as int)),
        from + r <= v@.len(),
{
    let n = v.len();
    let mut i: usize = from;
    while i < n
        invariant
            from <= i <= n,
            n == v@.len(),
            digit_prefix_len(v@.skip(from as int)) == i - from + digit_prefix_len(
                v@.skip(i as int),
            ),
            forall|j: int| from <= j < i ==> is_digit(#[trigger] v@[j]),
        decreases n - i,
    {
        let u = v[i] as u32;
        proof {
            assert(v@.skip(i as int)[0] == v@[i as int]);
            assert(v@.skip(i as int).drop_first() =~= v@.skip(i + 1));
        }
        if !(48 <= u && u <= 57) {
            assert(digit_prefix_len(v@.skip(i as int)) == 0);
            return i - from;
        }
        i = i + 1;
    }
    proof {
        assert(v@.skip(n as int) =~= Seq::<char>::empty());
        assert(digit_prefix_len(v@.skip(n as int)) == 0);
    }
    n - from
}

/// `s` without its trailing `/` characters.
pub open spec fn strip_trailing_slashes(s: Seq<char>) -> Seq<char>
    decreases s.len(),
{
    if s.len() > 0 && s.last() == '/' {
        strip_trailing_slashes(s.drop_last())
    } else {
        s
    }
}

/// The name a pod takes from its project path: the final path segment,
/// ignoring trailing slashes; `unnamed` when there is none.
pub open spec fn pod_name_of_path(s: Seq<char>) -> Seq<char> {
    let t = after_last(strip_trailing_slashes(s), '/');
    if t.len() == 0 {
        "unnamed"@
    } else {
        t
    }
}

/// The final path segment of a project path, `unnamed` when there is
/// none.
pub fn name_from_path(v: &Vec<char>) -> (r: Vec<char>)
    ensures
        r@ == pod_name_of_path(v@),
{
    let mut b: usize = v.len();
    proof {
        assert(v@.subrange(0, v@.len() as int) =~= v@);
    }
    while b > 0 && v[b - 1] == '/'
        invariant
            b <= v@.len(),
            strip_trailing_slashes(v@) == strip_trailing_slashes(v@.subrange(0, b as int)),
        decreases b,
    {
        proof {
            assert(v@.subrange(0, b as int).drop_last() =~= v@.subrange(0, b - 1));
        }
        b = b - 1;
    }
    let trimmed = slice_chars(v, 0, b);
    proof {
        if b > 0 {
            assert(v@.subrange(0, b as int).last() == v@[b - 1]);
        }
        assert(strip_trailing_slashes(v@) == trimmed@);
    }
    let base = after_last_char(&trimmed, '/');
    if base.len() == 0 {
        chars_of("unnamed")
    } else {
        base
    }
}

/// `v` without its trailing `/` characters.
pub fn trim_trailing_slashes(v: &Vec<char>) -> (r: Vec<char>)
    ensures
        r@ == strip_trailing_slashes(v@),
{
    let mut b: usize = v.len();
    proof {
        assert(v@.subrange(0, v@.len() as int) =~= v@);
    }
    while b > 0 && v[b - 1] == '/'
        invariant
            b <= v@.len(),
            strip_trailing_slashes(v@) == strip_trailing_slashes(v@.subrange(0, b as int)),
        decreases b,
    {
        proof {
            assert(v@.subrange(0, b as int).drop_last() =~= v@.subrange(0, b - 1));
        }
        b = b - 1;
    }
    let r = slice_chars(v, 0, b);
    proof {
        if b > 0 {
            assert(v@.subrange(0, b as int).last() == v@[b - 1]);
        }
        assert(strip_trailing_slashes(v@) == r@);
    }
    r
}

/// `s` without its leading `/` characters.
pub open spec fn strip_leading_slashes(s: Seq<char>) -> Seq<char>
    decreases s.len(),
{
    if s.len() > 0 && s[0] == '/' {
        strip_leading_slashes(s.drop_first())
    } else {
        s
    }
}

/// `v` without its leading `/` characters.
pub fn trim_leading_slashes(v: &Vec<char>) -> (r: Vec<char>)
    ensures
        r@ == strip_leading_slashes(v@),
{
    let mut a: usize = 0;
    proof {
        assert(v@.subrange(0, v@.len() as int) =~= v@);
        assert(strip_leading_slashes(v@) == strip_leading_slashes(
            v@.subrange(0, v@.len() as int).subrange(0 as int, v@.len() as int),
        ));
    }
    while a < v.len() && v[a] == '/'
        invariant
            a <= v@.len(),
            strip_leading_slashes(v@) == strip_leading_slashes(
                v@.subrange(a as int, v@.len() as int),
            ),
        decreases v@.len() - a,
    {
        proof {
            assert(v@.subrange(a as int, v@.len() as int)[0] == v@[a as int]);
            assert(v@.subrange(a as int, v@.len() as int).drop_first() =~= v@.subrange(
                a + 1,
                v@.len() as int,
            ));
        }
        a = a + 1;
    }
    let r = slice_chars(v, a, v.len());
    proof {
        if a < v@.len() {
            assert(v@.subrange(a as int, v@.len() as int)[0] == v@[a as int]);
        }
        assert(strip_leading_slashes(v@) == r@);
    }
    r
}

/// The lines joined back with single newlines.
pub open spec fn join_nl(ls: Seq<Seq<char>>) -> Seq<char>
    decreases ls.len(),
{
    if ls.len() == 0 {
        Seq::empty()
    } else if ls.len() == 1 {
        ls[0]
    } else {
        join_nl(ls.drop_last()) + seq!['\n'] + ls.last()
    }
}

/// The last `k` lines of `s`, joined with newlines; all of them when
/// `k` is large.
pub fn last_lines(s: &str, k: usize) -> (r: String)
    ensures
        ({
            let ls = spec_lines(s@);
            let start: int = if ls.len() <= k {
                0
            } else {
                ls.len() - k
            };
            r@ == join_nl(ls.skip(start))
        }),
{
    let cs = chars_of(s);
    let lines = lines_of(&cs);
    let ghost ls = views_of(lines@);
    let n = lines.len();
    let start: usize = if n <= k {
        0
    } else {
        n - k
    };
    let mut out: Vec<char> = Vec::new();
    let mut i: usize = start;
    while i < n
        invariant
            start <= i <= n,
            n == lines@.len(),
            ls == views_of(lines@),
            ls.len() == n,
            out@ == join_nl(ls.subrange(start as int, i as int)),
        decreases n - i,
    {
        let ghost prefix = ls.subrange(start as int, i as int);
        let ghost prefix2 = ls.subrange(start as int, i + 1);
        proof {
            assert(prefix2.drop_last() =~= prefix);
            assert(prefix2.last() == ls[i as int]);
            assert(ls[i as int] == lines@[i as int]@);
        }
        if i > start {
            out.push('\n');
        }
        append_chars(&mut out, &lines[i]);
        proof {
            if i == start {
                assert(prefix2.len() == 1);
                assert(out@ =~= join_nl(prefix2));
            } else {
                assert(out@ =~= join_nl(prefix) + seq!['\n'] + ls[i as int]);
            }
        }
        i = i + 1;
    }
    proof {
        assert(ls.subrange(start as int, n as int) =~= ls.skip(start as int));
    }
    chars_to_string(&out)
}

/// Appends all of `v` to `out`.
pub fn append_chars(out: &mut Vec<char>, v: &Vec<char>)
    ensures
        final(out)@ == old(out)@ + v@,
{
    let ghost base = out@;
    let mut k: usize = 0;
    while k < v.len()
        invariant
            k <= v@.len(),
            out@ =~= base + v@.subrange(0, k as int),
        decreases v@.len() - k,
    {
        out.push(v[k]);
        k = k + 1;
    }
    assert(out@ =~= base + v@);
}

/// Equality of two character vectors.
pub fn chars_eq(a: &Vec<char>, b: &Vec<char>) -> (r: bool)
    ensures
        r == (a@ == b@),
{
    if a.len() != b.len() {
        return false;
    }
    let mut i: usize = 0;
    while i < a.len()
        invariant
            i <= a@.len(),
            a@.len() == b@.len(),
            forall|j: int| 0 <= j < i ==> a@[j] == b@[j],
        decreases a@.len() - i,
    {
        if a[i] != b[i] {
            return false;
        }
        i = i + 1;
    }
    assert(a@ =~= b@);
    true
}

/// Copy of a character vector (chars are `Copy`).
pub fn dup_chars(v: &Vec<char>) -> (r: Vec<char>)
    ensures
        r@ == v@,
{
    let mut out: Vec<char> = Vec::new();
    let mut i: usize = 0;
    while i < v.len()
        invariant
            i <= v@.len(),
            out@ =~= v@.subrange(0, i as int),
        decreases v@.len() - i,
    {
        out.push(v[i]);
        i = i + 1;
    }
    assert(out@ =~= v@);
    out
}

/// Subrange copy `v[from..to]`.
pub fn slice_chars(v: &Vec<char>, from: usize, to: usize) -> (r: Vec<char>)
    requires
        from <= to <= v@.len(),
    ensures
        r@ == v@.subrange(from as int, to as int),
{
    let mut out: Vec<char> = Vec::new();
    let mut i: usize = from;
    while i < to
        invariant
            from <= i <= to <= v@.len(),
            out@ =~= v@.subrange(from as int, i as int),
        decreases to - i,
    {
        out.push(v[i]);
        i = i + 1;
    }
    assert(out@ =~= v@.subrange(from as int, to as int));
    out
}

/// The views of a sequence of character vectors.
pub open spec fn views_of(ps: Seq<Vec<char>>) -> Seq<Seq<char>> {
    ps.map_values(|p: Vec<char>| p@)
}

/// `s` split at every occurrence of `sep`; separators are dropped and
/// empty pieces kept, so the result holds one more piece than `s` holds
/// separators.
pub open spec fn split_on(s: Seq<char>, sep: char) -> Seq<Seq<char>>
    decreases s.len(),
{
    if s.len() == 0 {
        seq![Seq::<char>::empty()]
    } else {
        let p = split_on(s.drop_last(), sep);
        if s.last() == sep {
            p.push(Seq::<char>::empty())
        } else {
            p.update(p.len() - 1, p.last().push(s.last()))
        }
    }
}

pub proof fn lemma_split_on_nonempty(s: Seq<char>, sep: char)
    ensures
        split_on(s, sep).len() >= 1,
    decreases s.len(),
{
    if s.len() > 0 {
        lemma_split_on_nonempty(s.drop_last(), sep);
    }
}

pub fn split_on_char(v: &Vec<char>, sep: char) -> (r: Vec<Vec<char>>)
    ensures
        views_of(r@) == split_on(v@, sep),
        r@.len() >= 1,
{
    let mut pieces: Vec<Vec<char>> = Vec::new();
    let mut cur: Vec<char> = Vec::new();
    let mut i: usize = 0;
    proof {
        assert(v@.subrange(0, 0) =~= Seq::<char>::empty());
        assert(views_of(pieces@).push(cur@) =~= split_on(v@.subrange(0, 0), sep));
    }
    while i < v.len()
        invariant
            i <= v@.len(),
            views_of(pieces@).push(cur@) =~= split_on(v@.subrange(0, i as int), sep),
        decreases v@.len() - i,
    {
        let ghost prefix = v@.subrange(0, i as int);
        let ghost prefix2 = v@.subrange(0, i + 1);
        proof {
            assert(prefix2.drop_last() =~= prefix);
            assert(prefix2.last() == v@[i as int]);
        }
        let c = v[i];
        if c == sep {
            let ghost old_pieces = pieces@;
            pieces.push(cur);
            cur = Vec::new();
            proof {
                assert(views_of(pieces@) =~= views_of(old_pieces).push(pieces@.last()@));
                assert(views_of(pieces@).push(cur@) =~= split_on(prefix2, sep));
            }
        } else {
            let ghost old_cur = cur@;
            cur.push(c);
            proof {
                let p = split_on(prefix, sep);
                assert(p == views_of(pieces@).push(old_cur));
                assert(p.len() >= 1);
                assert(p.last() == old_cur);
                assert(split_on(prefix2, sep) =~= p.update(p.len() - 1, old_cur.push(c)));
                assert(views_of(pieces@).push(cur@) =~= p.update(p.len() - 1, old_cur.push(c)));
            }
        }
        i = i + 1;
    }
    proof {
        assert(v@.subrange(0, v@.len() as int) =~= v@);
    }
    pieces.push(cur);
    proof {
        lemma_split_on_nonempty(v@, sep);
        assert(views_of(pieces@) =~= split_on(v@, sep));
    }
    pieces
}

/// `s` without one trailing carriage return, if it has one.
pub open spec fn strip_cr(s: Seq<char>) -> Seq<char> {
    if s.len() > 0 && s.last() == '\r' {
        s.drop_last()
    } else {
        s
    }
}

fn strip_cr_exec(v: Vec<char>) -> (r: Vec<char>)
    ensures
        r@ == strip_cr(v@),
{
    let mut v = v;
    if v.len() > 0 {
        let c = v[v.len() - 1];
        if c == '\r' {
            v.pop();
            return v;
        }
    }
    v
}

/// The lines of `s`: pieces split at `\n`, with a `\r` before each `\n`
/// dropped, and no final empty line when `s` ends with `\n`.
pub open spec fn spec_lines(s: Seq<char>) -> Seq<Seq<char>> {
    if s.len() == 0 {
        Seq::<Seq<char>>::empty()
    } else if s.last() == '\n' {
        split_on(s, '\n').drop_last().map_values(|p: Seq<char>| strip_cr(p))
    } else {
        let p = split_on(s, '\n');
        p.drop_last().map_values(|q: Seq<char>| strip_cr(q)).push(p.last())
    }
}

pub fn lines_of(v: &Vec<char>) -> (r: Vec<Vec<char>>)
    ensures
        views_of(r@) == spec_lines(v@),
{
    let mut out: Vec<Vec<char>> = Vec::new();
    if v.len() == 0 {
        assert(views_of(out@) =~= spec_lines(v@));
        return out;
    }
    let ends_nl = v[v.len() - 1] == '\n';
    let mut pieces = split_on_char(v, '\n');
    let ghost all = views_of(pieces@);
    let take: usize = if ends_nl {
        pieces.len() - 1
    } else {
        pieces.len()
    };
    proof {
        if ends_nl {
            assert(spec_lines(v@) == split_on(v@, '\n').drop_last().map_values(
                |p: Seq<char>| strip_cr(p),
            ));
        }
    }
    let mut k: usize = 0;
    while k < take
        invariant
            take <= pieces@.len(),
            pieces@.len() == all.len(),
            all == views_of(pieces@),
            k <= take,
            views_of(out@).len() == k,
            forall|j: int|
                0 <= j < k ==> #[trigger] views_of(out@)[j] == (if !ends_nl && j == take - 1 {
                    all[j]
                } else {
                    strip_cr(all[j])
                }),
            take == (if ends_nl {
                all.len() - 1
            } else {
                all.len() as int
            }),
        decreases take - k,
    {
        let piece = pieces[k].clone();
        proof {
            assert(pieces@[k as int]@ == all[k as int]);
        }
        let ghost old_out = views_of(out@);
        if !ends_nl && k == take - 1 {
            out.push(piece);
        } else {
            out.push(strip_cr_exec(piece));
        }
        proof {
            assert(views_of(out@) =~= old_out.push(out@.last()@));
        }
        k = k + 1;
    }
    proof {
        let s = v@;
        let p = split_on(s, '\n');
        if ends_nl {
            assert(views_of(out@) =~= p.drop_last().map_values(|q: Seq<char>| strip_cr(q)));
        } else {
            assert(views_of(out@) =~= p.drop_last().map_values(|q: Seq<char>| strip_cr(q)).push(
                p.last(),
            ));
        }
    }
    out
}

/// `s` split into maximal runs of non-whitespace characters.
pub open spec fn split_ws(s: Seq<char>) -> Seq<Seq<char>>
    decreases s.len(),
{
    if s.len() == 0 {
        Seq::<Seq<char>>::empty()
    } else {
        let p = split_ws(s.drop_last());
        let c = s.last();
        if is_ws(c) {
            p
        } else if s.len() == 1 || is_ws(s[s.len() - 2]) {
            p.push(seq![c])
        } else {
            p.update(p.len() - 1, p.last().push(c))
        }
    }
}

pub proof fn lemma_split_ws_nonempty(s: Seq<char>)
    requires
        s.len() > 0,
        !is_ws(s.last()),
    ensures
        split_ws(s).len() >= 1,
    decreases s.len(),
{
    if s.len() > 1 && !is_ws(s[s.len() - 2]) {
        assert(s.drop_last().last() == s[s.len() - 2]);
        lemma_split_ws_nonempty(s.drop_last());
    }
}

/// The whitespace-separated fields of `v`.
pub fn fields_of(v: &Vec<char>) -> (r: Vec<Vec<char>>)
    ensures
        views_of(r@) == split_ws(v@),
{
    let mut out: Vec<Vec<char>> = Vec::new();
    let mut cur: Vec<char> = Vec::new();
    let mut i: usize = 0;
    proof {
        assert(v@.subrange(0, 0) =~= Seq::<char>::empty());
        assert(views_of(out@) =~= split_ws(v@.subrange(0, 0)));
    }
    while i < v.len()
        invariant
            i <= v@.len(),
            cur@.len() == 0 <==> (i == 0 || is_ws(v@[i - 1])),
            cur@.len() == 0 ==> views_of(out@) =~= split_ws(v@.subrange(0, i as int)),
            cur@.len() > 0 ==> views_of(out@).push(cur@) =~= split_ws(v@.subrange(0, i as int)),
        decreases v@.len() - i,
    {
        let ghost prefix = v@.subrange(0, i as int);
        let ghost prefix2 = v@.subrange(0, i + 1);
        proof {
            assert(prefix2.drop_last() =~= prefix);
            assert(prefix2.last() == v@[i as int]);
            if i > 0 {
                assert(prefix2[i - 1] == v@[i - 1]);
            }
        }
        let c = v[i];
        if char_is_ws(c) {
            if cur.len() > 0 {
                let ghost old_out = views_of(out@);
                out.push(cur);
                cur = Vec::new();
                proof {
                    assert(views_of(out@) =~= old_out.push(out@.last()@));
                    assert(views_of(out@) =~= split_ws(prefix2));
                }
            }
        } else {
            let ghost old_cur = cur@;
            cur.push(c);
            proof {
                let p = split_ws(prefix);
                if old_cur.len() == 0 {
                    assert(cur@ =~= seq![c]);
                    assert(split_ws(prefix2) =~= p.push(seq![c]));
                    assert(views_of(out@).push(cur@) =~= p.push(seq![c]));
                } else {
                    assert(p == views_of(out@).push(old_cur));
                    assert(split_ws(prefix2) =~= p.update(p.len() - 1, old_cur.push(c)));
                    assert(views_of(out@).push(cur@) =~= p.update(p.len() - 1, old_cur.push(c)));
                }
            }
        }
        i = i + 1;
    }
    proof {
        assert(v@.subrange(0, v@.len() as int) =~= v@);
    }
    if cur.len() > 0 {
        let ghost old_out = views_of(out@);
        out.push(cur);
        proof {
            assert(views_of(out@) =~= old_out.push(out@.last()@));
        }
    }
    out
}

/// The decimal numeral of `n`, without leading zeroes.
pub open spec fn dec_str_of(n: nat) -> Seq<char>
    decreases n,
{
    if n < 10 {
        seq![((48 + n) as u8) as char]
    } else {
        dec_str_of(n / 10).push(((48 + n % 10) as u8) as char)
    }
}

/// The decimal digits of `n`, most significant first.
pub fn dec_chars(n: u64) -> (r: Vec<char>)
    ensures
        r@ == dec_str_of(n as nat),
    decreases n,
{
    if n < 10 {
        let mut v: Vec<char> = Vec::new();
        v.push(((48 + n) as u8) as char);
        proof {
            assert(v@ =~= seq![((48 + n) as u8) as char]);
        }
        v
    } else {
        let mut v = dec_chars(n / 10);
        v.push(((48 + n % 10) as u8) as char);
        v
    }
}

/// String equality by view, for any two string slices.
pub fn str_eq(a: &str, b: &str) -> (r: bool)
    ensures
        r == (a@ == b@),
{
    let sa = a.to_owned();
    let sb = b.to_owned();
    sa == sb
}

} // verus!
