//! Lexical ground floor: character classes, whitespace splitting, and
//! decimal parsing of the integer and boolean tokens that mesh files hold.
//!
//! The parsing specs mirror what `str::parse` accepts for the integer types:
//! an optional single sign, then one or more ASCII digits, rejected on
//! overflow; and `"true"`/`"false"` for booleans.

use vstd::prelude::*;

verus! {

/// A code point that Unicode classes as `White_Space`, the separator set
/// that whitespace splitting uses.
pub open spec fn is_space_code(n: u32) -> bool {
    ||| n == 0x09
    ||| n == 0x0A
    ||| n == 0x0B
    ||| n == 0x0C
    ||| n == 0x0D
    ||| n == 0x20
    ||| n == 0x85
    ||| n == 0xA0
    ||| n == 0x1680
    ||| (0x2000 <= n && n <= 0x200A)
    ||| n == 0x2028
    ||| n == 0x2029
    ||| n == 0x202F
    ||| n == 0x205F
    ||| n == 0x3000
}

pub open spec fn is_space_char(c: char) -> bool {
    is_space_code(c as u32)
}

pub fn space_char(c: char) -> (r: bool)
    ensures
        r == is_space_char(c),
{
    let n = c as u32;
    n == 0x09 || n == 0x0A || n == 0x0B || n == 0x0C || n == 0x0D || n == 0x20 || n == 0x85
        || n == 0xA0 || n == 0x1680 || (0x2000 <= n && n <= 0x200A) || n == 0x2028 || n == 0x2029
        || n == 0x202F || n == 0x205F || n == 0x3000
}

pub open spec fn is_digit_char(c: char) -> bool {
    0x30 <= c as u32 <= 0x39
}

/// The numeric value of an ASCII decimal digit.
pub open spec fn digit_val(c: char) -> nat
    recommends
        is_digit_char(c),
{
    (c as u32 - 0x30) as nat
}

pub fn digit_char(c: char) -> (r: bool)
    ensures
        r == is_digit_char(c),
{
    let n = c as u32;
    0x30 <= n && n <= 0x39
}

pub open spec fn all_digits(s: Seq<char>) -> bool {
    forall|i: int| 0 <= i < s.len() ==> is_digit_char(#[trigger] s[i])
}

/// The value of a digit string read most-significant digit first.
pub open spec fn digits_val(s: Seq<char>) -> nat
    decreases s.len(),
{
    if s.len() == 0 {
        0
    } else {
        digits_val(s.drop_last()) * 10 + digit_val(s.last())
    }
}

/// Every prefix of a digit string has a value no larger than the whole.
pub proof fn lemma_digits_val_prefix(s: Seq<char>, k: int)
    requires
        0 <= k <= s.len(),
    ensures
        digits_val(s.take(k)) <= digits_val(s),
    decreases s.len(),
{
    if s.len() == 0 {
    } else if k == s.len() {
        assert(s.take(k) =~= s);
    } else {
        assert(s.take(k) =~= s.drop_last().take(k));
        lemma_digits_val_prefix(s.drop_last(), k);
    }
}

/// What `str::parse` accepts for an unsigned integer, overflow left aside:
/// an optional `+`, then one or more digits.
pub open spec fn spec_parse_unsigned(s: Seq<char>) -> Option<nat> {
    let body = if s.len() >= 1 && s[0] == '+' {
        s.skip(1)
    } else {
        s
    };
    if body.len() == 0 || !all_digits(body) {
        None
    } else {
        Some(digits_val(body))
    }
}

/// What `str::parse` accepts for a signed integer, overflow left aside:
/// an optional single sign, then one or more digits.
pub open spec fn spec_parse_signed(s: Seq<char>) -> Option<int> {
    if s.len() >= 1 && s[0] == '-' {
        let body = s.skip(1);
        if body.len() == 0 || !all_digits(body) {
            None
        } else {
            Some(-(digits_val(body) as int))
        }
    } else {
        match spec_parse_unsigned(s) {
            Some(v) => Some(v as int),
            None => None,
        }
    }
}

pub open spec fn spec_parse_u8(s: Seq<char>) -> Option<u8> {
    match spec_parse_unsigned(s) {
        Some(v) => if v <= u8::MAX {
            Some(v as u8)
        } else {
            None
        },
        None => None,
    }
}

pub open spec fn spec_parse_u16(s: Seq<char>) -> Option<u16> {
    match spec_parse_unsigned(s) {
        Some(v) => if v <= u16::MAX {
            Some(v as u16)
        } else {
            None
        },
        None => None,
    }
}

pub open spec fn spec_parse_u32(s: Seq<char>) -> Option<u32> {
    match spec_parse_unsigned(s) {
        Some(v) => if v <= u32::MAX {
            Some(v as u32)
        } else {
            None
        },
        None => None,
    }
}

pub open spec fn spec_parse_i8(s: Seq<char>) -> Option<i8> {
    match spec_parse_signed(s) {
        Some(v) => if i8::MIN <= v <= i8::MAX {
            Some(v as i8)
        } else {
            None
        },
        None => None,
    }
}

pub open spec fn spec_parse_i16(s: Seq<char>) -> Option<i16> {
    match spec_parse_signed(s) {
        Some(v) => if i16::MIN <= v <= i16::MAX {
            Some(v as i16)
        } else {
            None
        },
        None => None,
    }
}

pub open spec fn spec_parse_i32(s: Seq<char>) -> Option<i32> {
    match spec_parse_signed(s) {
        Some(v) => if i32::MIN <= v <= i32::MAX {
            Some(v as i32)
        } else {
            None
        },
        None => None,
    }
}

/// What `str::parse::<bool>` accepts: exactly `"true"` or `"false"`.
pub open spec fn spec_parse_bool(s: Seq<char>) -> Option<bool> {
    if s =~= seq!['t', 'r', 'u', 'e'] {
        Some(true)
    } else if s =~= seq!['f', 'a', 'l', 's', 'e'] {
        Some(false)
    } else {
        None
    }
}

/// Reads the digit run `w[start..]`; `Some(v)` exactly when it is nonempty,
/// all digits, and its value is at most `max`.
fn parse_digits(w: &Vec<char>, start: usize, max: u64) -> (r: Option<u64>)
    requires
        start <= w@.len(),
        max <= 0x1_0000_0000,
    ensures
        ({
            let body = w@.skip(start as int);
            match r {
                Some(v) => body.len() > 0 && all_digits(body) && v == digits_val(body) && v <= max,
                None => body.len() == 0 || !all_digits(body) || digits_val(body) > max,
            }
        }),
{
    let ghost body = w@.skip(start as int);
    if start == w.len() {
        return None;
    }
    let mut acc: u64 = 0;
    let mut i: usize = start;
    while i < w.len()
        invariant
            start <= i <= w@.len(),
            start < w@.len(),
            body == w@.skip(start as int),
            acc == digits_val(body.take(i - start)),
            acc <= max,
            max <= 0x1_0000_0000,
            all_digits(body.take(i - start)),
        decreases w@.len() - i,
    {
        let c = w[i];
        assert(c == body[i - start]);
        if !digit_char(c) {
            return None;
        }
        let d: u32 = (c as u32) - 0x30;
        assert(d < 10);
        proof {
            let j = i - start;
            assert(body.take(j + 1).drop_last() =~= body.take(j));
            assert(body.take(j + 1).last() == body[j]);
        }
        let next: u64 = acc * 10 + (d as u64);
        if next > max {
            // The digits seen so far already outgrow `max`, and further
            // digits can only grow the value.
            proof {
                if all_digits(body) {
                    lemma_digits_val_prefix(body, i - start + 1);
                }
            }
            return None;
        }
        acc = next;
        i += 1;
    }
    proof {
        assert(body.take(w@.len() - start) =~= body);
    }
    Some(acc)
}

/// Unsigned decimal parse, as `str::parse` does it, refused above `max`.
pub fn parse_unsigned_max(w: &Vec<char>, max: u64) -> (r: Option<u64>)
    requires
        max <= 0x1_0000_0000,
    ensures
        ({
            match spec_parse_unsigned(w@) {
                Some(v) => if v <= max {
                    r == Some(v as u64)
                } else {
                    r is None
                },
                None => r is None,
            }
        }),
{
    let start: usize = if w.len() >= 1 && w[0] == '+' {
        1
    } else {
        0
    };
    proof {
        if start == 0 {
            assert(w@.skip(0) =~= w@);
        }
    }
    parse_digits(w, start, max)
}

/// Signed decimal parse, as `str::parse` does it, refused outside
/// `[-neg_mag, max]`.
pub fn parse_signed_bounds(w: &Vec<char>, neg_mag: u64, max: u64) -> (r: Option<i64>)
    requires
        neg_mag <= 0x1_0000_0000,
        max <= 0x1_0000_0000,
    ensures
        ({
            match spec_parse_signed(w@) {
                Some(v) => if -(neg_mag as int) <= v <= max {
                    r == Some(v as i64)
                } else {
                    r is None
                },
                None => r is None,
            }
        }),
{
    if w.len() >= 1 && w[0] == '-' {
        match parse_digits(w, 1, neg_mag) {
            Some(v) => Some(-(v as i64)),
            None => None,
        }
    } else {
        match parse_unsigned_max(w, max) {
            Some(v) => Some(v as i64),
            None => None,
        }
    }
}

/// The position right after the run of non-space characters that starts at `i`.
pub open spec fn end_word(s: Seq<char>, i: nat) -> nat
    decreases s.len() - i,
    when i <= s.len()
{
    if i >= s.len() {
        i
    } else if is_space_char(s[i as int]) {
        i
    } else {
        end_word(s, i + 1)
    }
}

pub proof fn lemma_end_word_bounds(s: Seq<char>, i: nat)
    requires
        i <= s.len(),
    ensures
        i <= end_word(s, i) <= s.len(),
    decreases s.len() - i,
{
    if i < s.len() && !is_space_char(s[i as int]) {
        lemma_end_word_bounds(s, i + 1);
    }
}

/// The whitespace-separated words of `s[i..]`, in order.
pub open spec fn words_from(s: Seq<char>, i: nat) -> Seq<Seq<char>>
    decreases s.len() - i,
    when i <= s.len()
    via words_from_decreases
{
    if i >= s.len() {
        Seq::empty()
    } else if is_space_char(s[i as int]) {
        words_from(s, i + 1)
    } else {
        let k = end_word(s, i);
        seq![s.subrange(i as int, k as int)] + words_from(s, k)
    }
}

#[via_fn]
proof fn words_from_decreases(s: Seq<char>, i: nat) {
    if i < s.len() && !is_space_char(s[i as int]) {
        lemma_end_word_bounds(s, i + 1);
    }
}

/// The whitespace-separated words of `s`, as `str::split_whitespace` yields
/// them.
pub open spec fn split_ws(s: Seq<char>) -> Seq<Seq<char>> {
    words_from(s, 0)
}

/// Splits at whitespace, dropping the separators, as `str::split_whitespace`
/// does.
pub fn split_whitespace_str<'a>(s: &'a str) -> (words: Vec<&'a str>)
    ensures
        words@.map_values(|w: &str| w@) == split_ws(s@),
{
    let ghost f = |w: &'a str| w@;
    let c = chars_of(s);
    let mut words: Vec<&'a str> = Vec::new();
    let mut i: usize = 0;
    while i < c.len()
        invariant
            i <= s@.len(),
            c@ == s@,
            split_ws(s@) == words@.map_values(f) + words_from(s@, i as nat),
            f == (|w: &'a str| w@),
        decreases s@.len() - i,
    {
        if space_char(c[i]) {
            i += 1;
        } else {
            proof {
                lemma_end_word_bounds(s@, i as nat);
            }
            // scan to the end of the word
            let mut j: usize = i + 1;
            proof {
                assert(end_word(s@, i as nat) == end_word(s@, (i + 1) as nat));
            }
            while j < c.len() && !space_char(c[j])
                invariant
                    i < j <= s@.len(),
                    c@ == s@,
                    end_word(s@, i as nat) == end_word(s@, j as nat),
                decreases s@.len() - j,
            {
                j += 1;
            }
            assert(end_word(s@, i as nat) == j);
            let w: &'a str = s.substring_char(i, j);
            let ghost old_words = words@;
            words.push(w);
            proof {
                assert(w@ == s@.subrange(i as int, j as int));
                assert(words@.map_values(f) =~= old_words.map_values(f) + seq![w@]);
                assert(words_from(s@, i as nat) == seq![w@] + words_from(s@, j as nat));
                assert(old_words.map_values(f) + (seq![w@] + words_from(s@, j as nat)) =~= (
                old_words.map_values(f) + seq![w@]) + words_from(s@, j as nat));
            }
            i = j;
        }
    }
    words
}

/// The characters of a string, one by one.
pub fn chars_of(s: &str) -> (v: Vec<char>)
    ensures
        v@ == s@,
{
    let n = s.unicode_len();
    let mut v: Vec<char> = Vec::new();
    let mut i: usize = 0;
    while i < n
        invariant
            i <= n,
            n == s@.len(),
            v@ == s@.take(i as int),
        decreases n - i,
    {
        let c = s.get_char(i);
        v.push(c);
        proof {
            assert(v@ =~= s@.take(i + 1));
        }
        i += 1;
    }
    proof {
        assert(s@.take(n as int) =~= s@);
    }
    v
}

/// True exactly when the two strings hold the same characters.
pub fn str_eq(a: &str, b: &str) -> (r: bool)
    ensures
        r == (a@ == b@),
{
    let n = a.unicode_len();
    if n != b.unicode_len() {
        return false;
    }
    let mut i: usize = 0;
    while i < n
        invariant
            i <= n,
            n == a@.len() == b@.len(),
            forall|k: int| 0 <= k < i ==> a@[k] == b@[k],
        decreases n - i,
    {
        if a.get_char(i) != b.get_char(i) {
            return false;
        }
        i += 1;
    }
    proof {
        assert(a@ =~= b@);
    }
    true
}

/// Unsigned 32-bit decimal parse of a whole string.
pub fn parse_u32_str(s: &str) -> (r: Option<u32>)
    ensures
        r == spec_parse_u32(s@),
{
    let w = chars_of(s);
    match parse_unsigned_max(&w, 0xFFFF_FFFF) {
        Some(v) => Some(v as u32),
        None => None,
    }
}

/// Signed 32-bit decimal parse of a whole string.
pub fn parse_i32_str(s: &str) -> (r: Option<i32>)
    ensures
        r == spec_parse_i32(s@),
{
    let w = chars_of(s);
    match parse_signed_bounds(&w, 0x8000_0000, 0x7FFF_FFFF) {
        Some(v) => Some(v as i32),
        None => None,
    }
}

/// `"true"` or `"false"`, as `str::parse::<bool>` reads them.
pub fn parse_bool_str(s: &str) -> (r: Option<bool>)
    ensures
        r == spec_parse_bool(s@),
{
    proof {
        reveal_strlit("true");
        reveal_strlit("false");
        assert("true"@ =~= seq!['t', 'r', 'u', 'e']);
        assert("false"@ =~= seq!['f', 'a', 'l', 's', 'e']);
    }
    if str_eq(s, "true") {
        Some(true)
    } else if str_eq(s, "false") {
        Some(false)
    } else {
        None
    }
}

} // verus!
