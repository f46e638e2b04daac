//! Text utilities: case-insensitive matching of ASCII keywords,
//! file-name extension extraction, decimal rendering of integers,
//! trimming, and digit parsing.
//!
//! Paths are handled as plain strings with `/` as the separator; an
//! extension is the part of the file name after its last dot, absent
//! when there is no dot or when the only dot starts the name.

use vstd::prelude::*;

verus! {

/// `c` equals the lowercase ASCII letter `lower`, ignoring case.
pub open spec fn ci_eq(c: char, lower: char) -> bool {
    c == lower || c as u32 + 32 == lower as u32
}

/// `s` spells the lowercase ASCII keyword `lower`, ignoring case.
pub open spec fn ci_matches(s: Seq<char>, lower: Seq<char>) -> bool {
    s.len() == lower.len() && forall|i: int| 0 <= i < s.len() ==> ci_eq(s[i], lower[i])
}

/// Compare a string against a lowercase ASCII keyword, ignoring the
/// case of the string.
pub fn str_ci_matches(s: &str, lower: &str) -> (r: bool)
    ensures
        r == ci_matches(s@, lower@),
{
    let n = s.unicode_len();
    let m = lower.unicode_len();
    if n != m {
        return false;
    }
    let mut i: usize = 0;
    while i < n
        invariant
            n == s@.len(),
            n == lower@.len(),
            i <= n,
            forall|j: int| 0 <= j < i ==> ci_eq(s@[j], lower@[j]),
        decreases n - i,
    {
        let c = s.get_char(i);
        let l = lower.get_char(i);
        if !(c == l || (c as u32) + 32 == l as u32) {
            return false;
        }
        i = i + 1;
    }
    true
}

/// The largest index at which `c` occurs in `s`, or -1 when it does
/// not occur.
pub open spec fn last_index_of(s: Seq<char>, c: char) -> int
    decreases s.len(),
{
    if s.len() == 0 {
        -1
    } else if s[s.len() - 1] == c {
        s.len() - 1
    } else {
        last_index_of(s.subrange(0, s.len() - 1), c)
    }
}

/// `last_index_of` over a one-longer prefix either finds the new
/// character or keeps the old answer.
proof fn lemma_last_index_step(s: Seq<char>, i: int, c: char)
    requires
        0 <= i < s.len(),
    ensures
        last_index_of(s.subrange(0, i + 1), c) == if s[i] == c {
            i
        } else {
            last_index_of(s.subrange(0, i), c)
        },
{
    let t = s.subrange(0, i + 1);
    assert(t[t.len() - 1] == s[i]);
    assert(t.subrange(0, t.len() - 1) =~= s.subrange(0, i));
}

/// The extension of a path: the part of its file name after the
/// last dot.  Absent when there is no dot past the last separator,
/// or when that dot is the first character of the file name.
pub open spec fn spec_extension(s: Seq<char>) -> Option<Seq<char>> {
    let d = last_index_of(s, '.');
    let sl = last_index_of(s, '/');
    if d <= sl + 1 {
        None
    } else {
        Some(s.subrange(d + 1, s.len() as int))
    }
}

/// Find the extension of a path, as [`spec_extension`] defines it.
pub fn extension_of<'a>(path: &'a str) -> (r: Option<&'a str>)
    ensures
        r is Some <==> spec_extension(path@) is Some,
        r matches Some(e) ==> spec_extension(path@) == Some(e@),
{
    let n = path.unicode_len();
    let mut last_dot: usize = 0;
    let mut has_dot = false;
    let mut last_sep: usize = 0;
    let mut has_sep = false;
    let mut i: usize = 0;
    proof {
        assert(path@.subrange(0, 0) =~= Seq::<char>::empty());
    }
    while i < n
        invariant
            n == path@.len(),
            i <= n,
            last_index_of(path@.subrange(0, i as int), '.') == if has_dot {
                last_dot as int
            } else {
                -1
            },
            last_index_of(path@.subrange(0, i as int), '/') == if has_sep {
                last_sep as int
            } else {
                -1
            },
            has_dot ==> last_dot < i,
            has_sep ==> last_sep < i,
        decreases n - i,
    {
        let c = path.get_char(i);
        proof {
            lemma_last_index_step(path@, i as int, '.');
            lemma_last_index_step(path@, i as int, '/');
        }
        if c == '.' {
            last_dot = i;
            has_dot = true;
        } else if c == '/' {
            last_sep = i;
            has_sep = true;
        }
        i = i + 1;
    }
    proof {
        assert(path@.subrange(0, n as int) =~= path@);
    }
    if !has_dot {
        return None;
    }
    if has_sep && last_dot <= last_sep + 1 {
        return None;
    }
    if !has_sep && last_dot == 0 {
        return None;
    }
    Some(path.substring_char(last_dot + 1, n))
}

/// The decimal digit character for `d`.
pub open spec fn digit_char(d: int) -> char {
    if d == 0 {
        '0'
    } else if d == 1 {
        '1'
    } else if d == 2 {
        '2'
    } else if d == 3 {
        '3'
    } else if d == 4 {
        '4'
    } else if d == 5 {
        '5'
    } else if d == 6 {
        '6'
    } else if d == 7 {
        '7'
    } else if d == 8 {
        '8'
    } else {
        '9'
    }
}

/// The decimal rendering of a non-negative integer.
pub open spec fn dec_seq(n: int) -> Seq<char>
    decreases n,
{
    if n < 10 {
        seq![digit_char(n)]
    } else {
        dec_seq(n / 10).push(digit_char(n % 10))
    }
}

/// One decimal digit as a string slice.
fn digit_str(d: u64) -> (r: &'static str)
    requires
        d < 10,
    ensures
        r@ == seq![digit_char(d as int)],
{
    if d == 0 {
        proof {
            reveal_strlit("0");
        }
        let s = "0";
        proof {
            assert(s@ =~= seq![digit_char(0)]);
        }
        s
    } else if d == 1 {
        proof {
            reveal_strlit("1");
        }
        let s = "1";
        proof {
            assert(s@ =~= seq![digit_char(1)]);
        }
        s
    } else if d == 2 {
        proof {
            reveal_strlit("2");
        }
        let s = "2";
        proof {
            assert(s@ =~= seq![digit_char(2)]);
        }
        s
    } else if d == 3 {
        proof {
            reveal_strlit("3");
        }
        let s = "3";
        proof {
            assert(s@ =~= seq![digit_char(3)]);
        }
        s
    } else if d == 4 {
        proof {
            reveal_strlit("4");
        }
        let s = "4";
        proof {
            assert(s@ =~= seq![digit_char(4)]);
        }
        s
    } else if d == 5 {
        proof {
            reveal_strlit("5");
        }
        let s = "5";
        proof {
            assert(s@ =~= seq![digit_char(5)]);
        }
        s
    } else if d == 6 {
        proof {
            reveal_strlit("6");
        }
        let s = "6";
        proof {
            assert(s@ =~= seq![digit_char(6)]);
        }
        s
    } else if d == 7 {
        proof {
            reveal_strlit("7");
        }
        let s = "7";
        proof {
            assert(s@ =~= seq![digit_char(7)]);
        }
        s
    } else if d == 8 {
        proof {
            reveal_strlit("8");
        }
        let s = "8";
        proof {
            assert(s@ =~= seq![digit_char(8)]);
        }
        s
    } else {
        proof {
            reveal_strlit("9");
        }
        let s = "9";
        proof {
            assert(s@ =~= seq![digit_char(9)]);
        }
        s
    }
}

/// Render a non-negative integer in decimal.
pub fn dec_str_u64(n: u64) -> (r: String)
    ensures
        r@ == dec_seq(n as int),
    decreases n,
{
    if n < 10 {
        String::from_str(digit_str(n))
    } else {
        let mut s = dec_str_u64(n / 10);
        s.append(digit_str(n % 10));
        proof {
            assert(s@ =~= dec_seq(n as int));
        }
        s
    }
}

/// Relies on `String::push`: appends one character at the end.
#[verifier::external_body]
pub fn push_char(s: &mut String, c: char)
    ensures
        final(s)@ == old(s)@.push(c),
{
    s.push(c);
}

/// The first index whose character is not `c`, or the length when
/// all of `s` is `c`.
pub open spec fn first_not_char(s: Seq<char>, c: char) -> int
    decreases s.len(),
{
    if s.len() == 0 {
        0
    } else if s[0] != c {
        0
    } else {
        1 + first_not_char(s.subrange(1, s.len() as int), c)
    }
}

/// The last index whose character is not `c`, or -1 when all of `s`
/// is `c`.
pub open spec fn last_not_char(s: Seq<char>, c: char) -> int
    decreases s.len(),
{
    if s.len() == 0 {
        -1
    } else if s[s.len() - 1] != c {
        s.len() - 1
    } else {
        last_not_char(s.subrange(0, s.len() - 1), c)
    }
}

/// `s` with every leading and trailing `c` removed.
pub open spec fn trim_char(s: Seq<char>, c: char) -> Seq<char> {
    if last_not_char(s, c) == -1 {
        Seq::empty()
    } else {
        s.subrange(first_not_char(s, c), last_not_char(s, c) + 1)
    }
}

/// A position preceded only by `c` and not holding `c` itself is
/// where `first_not_char` points.
pub proof fn lemma_first_not_char_at(s: Seq<char>, c: char, i: int)
    requires
        0 <= i <= s.len(),
        forall|j: int| 0 <= j < i ==> s[j] == c,
        i < s.len() ==> s[i] != c,
    ensures
        first_not_char(s, c) == i,
    decreases i,
{
    if s.len() == 0 {
    } else if i == 0 {
    } else {
        let t = s.subrange(1, s.len() as int);
        assert(forall|j: int| 0 <= j < i - 1 ==> t[j] == c);
        lemma_first_not_char_at(t, c, i - 1);
    }
}

/// A position followed only by `c` and not holding `c` itself is
/// where `last_not_char` points.
pub proof fn lemma_last_not_char_at(s: Seq<char>, c: char, i: int)
    requires
        -1 <= i < s.len(),
        forall|j: int| i < j < s.len() ==> s[j] == c,
        i >= 0 ==> s[i] != c,
    ensures
        last_not_char(s, c) == i,
    decreases s.len(),
{
    if s.len() == 0 {
    } else if i == s.len() - 1 {
    } else {
        let t = s.subrange(0, s.len() - 1);
        assert(forall|j: int| i < j < t.len() ==> t[j] == c);
        lemma_last_not_char_at(t, c, i);
    }
}

/// ASCII whitespace.
pub open spec fn is_ascii_space(c: char) -> bool {
    c == ' ' || c == '\t' || c == '\n' || c == '\r'
}

/// The first index whose character is not ASCII whitespace, or the
/// length when all of `s` is whitespace.
pub open spec fn first_non_space(s: Seq<char>) -> int
    decreases s.len(),
{
    if s.len() == 0 {
        0
    } else if !is_ascii_space(s[0]) {
        0
    } else {
        1 + first_non_space(s.subrange(1, s.len() as int))
    }
}

/// The last index whose character is not ASCII whitespace, or -1
/// when all of `s` is whitespace.
pub open spec fn last_non_space(s: Seq<char>) -> int
    decreases s.len(),
{
    if s.len() == 0 {
        -1
    } else if !is_ascii_space(s[s.len() - 1]) {
        s.len() - 1
    } else {
        last_non_space(s.subrange(0, s.len() - 1))
    }
}

/// `s` with ASCII whitespace removed from both ends.
pub open spec fn trimmed(s: Seq<char>) -> Seq<char> {
    if last_non_space(s) == -1 {
        Seq::empty()
    } else {
        s.subrange(first_non_space(s), last_non_space(s) + 1)
    }
}

/// Every character of `s` is a decimal digit.
pub open spec fn all_digits(s: Seq<char>) -> bool {
    forall|i: int| 0 <= i < s.len() ==> 48 <= (#[trigger] s[i]) as u32 <= 57
}

/// The numeric value of a digit character.
pub open spec fn digit_val(c: char) -> int {
    c as u32 - '0' as u32
}

/// The value of a digit string, most significant digit first.
pub open spec fn digits_val(s: Seq<char>) -> int
    decreases s.len(),
{
    if s.len() == 0 {
        0
    } else {
        10 * digits_val(s.subrange(0, s.len() - 1)) + digit_val(s[s.len() - 1])
    }
}

/// A position preceded only by whitespace and not whitespace itself
/// is where `first_non_space` points.
pub proof fn lemma_first_non_space_at(s: Seq<char>, i: int)
    requires
        0 <= i <= s.len(),
        forall|j: int| 0 <= j < i ==> is_ascii_space(s[j]),
        i < s.len() ==> !is_ascii_space(s[i]),
    ensures
        first_non_space(s) == i,
    decreases i,
{
    if s.len() == 0 {
    } else if i == 0 {
    } else {
        let t = s.subrange(1, s.len() as int);
        assert(forall|j: int| 0 <= j < i - 1 ==> is_ascii_space(t[j]));
        lemma_first_non_space_at(t, i - 1);
    }
}

/// A position followed only by whitespace and not whitespace itself
/// is where `last_non_space` points.
pub proof fn lemma_last_non_space_at(s: Seq<char>, i: int)
    requires
        -1 <= i < s.len(),
        forall|j: int| i < j < s.len() ==> is_ascii_space(s[j]),
        i >= 0 ==> !is_ascii_space(s[i]),
    ensures
        last_non_space(s) == i,
    decreases s.len(),
{
    if s.len() == 0 {
    } else if i == s.len() - 1 {
    } else {
        let t = s.subrange(0, s.len() - 1);
        assert(forall|j: int| i < j < t.len() ==> is_ascii_space(t[j]));
        lemma_last_non_space_at(t, i);
    }
}

/// How often `c` occurs in `s`.
pub open spec fn count_char(s: Seq<char>, c: char) -> int
    decreases s.len(),
{
    if s.len() == 0 {
        0
    } else {
        count_char(s.subrange(0, s.len() - 1), c) + if s[s.len() - 1] == c {
            1int
        } else {
            0int
        }
    }
}

/// `count_char` over a one-longer prefix.
pub proof fn lemma_count_char_step(s: Seq<char>, i: int, c: char)
    requires
        0 <= i < s.len(),
    ensures
        count_char(s.subrange(0, i + 1), c) == count_char(s.subrange(0, i), c) + if s[i] == c {
            1int
        } else {
            0int
        },
{
    let t = s.subrange(0, i + 1);
    assert(t[t.len() - 1] == s[i]);
    assert(t.subrange(0, t.len() - 1) =~= s.subrange(0, i));
}

/// The smallest index at which `c` occurs in `s`, or -1 when it
/// does not occur.
pub open spec fn first_index_of(s: Seq<char>, c: char) -> int
    decreases s.len(),
{
    if s.len() == 0 {
        -1
    } else if s[0] == c {
        0
    } else {
        let r = first_index_of(s.subrange(1, s.len() as int), c);
        if r == -1 {
            -1
        } else {
            1 + r
        }
    }
}

/// A position holding `c` with no earlier occurrence is where
/// `first_index_of` points.
pub proof fn lemma_first_index_at(s: Seq<char>, c: char, i: int)
    requires
        0 <= i < s.len(),
        s[i] == c,
        forall|j: int| 0 <= j < i ==> s[j] != c,
    ensures
        first_index_of(s, c) == i,
    decreases i,
{
    if i == 0 {
    } else {
        let t = s.subrange(1, s.len() as int);
        assert(forall|j: int| 0 <= j < i - 1 ==> t[j] != c);
        lemma_first_index_at(t, c, i - 1);
    }
}

/// A digit string has a non-negative value.
pub proof fn lemma_digits_val_nonneg(s: Seq<char>)
    requires
        all_digits(s),
    ensures
        digits_val(s) >= 0,
    decreases s.len(),
{
    if s.len() > 0 {
        let t = s.subrange(0, s.len() - 1);
        assert(forall|i: int| 0 <= i < t.len() ==> 48 <= (#[trigger] t[i]) as u32 <= 57);
        lemma_digits_val_nonneg(t);
    }
}

/// Dropping trailing digits can only shrink the value of a digit
/// string.
pub proof fn lemma_digits_val_prefix_le(s: Seq<char>, k: int)
    requires
        all_digits(s),
        0 <= k <= s.len(),
    ensures
        digits_val(s.subrange(0, k)) <= digits_val(s),
    decreases s.len(),
{
    if k == s.len() {
        assert(s.subrange(0, k) =~= s);
    } else {
        let t = s.subrange(0, s.len() - 1);
        assert(forall|i: int| 0 <= i < t.len() ==> 48 <= (#[trigger] t[i]) as u32 <= 57);
        lemma_digits_val_prefix_le(t, k);
        assert(t.subrange(0, k) =~= s.subrange(0, k));
        lemma_digits_val_nonneg(t);
        assert(digit_val(s[s.len() - 1]) >= 0);
        assert(digits_val(s) == 10 * digits_val(t) + digit_val(s[s.len() - 1]));
    }
}

/// `digits_val` over a one-longer prefix.
pub proof fn lemma_digits_val_step(s: Seq<char>, i: int)
    requires
        0 <= i < s.len(),
    ensures
        digits_val(s.subrange(0, i + 1)) == 10 * digits_val(s.subrange(0, i)) + digit_val(s[i]),
{
    let t = s.subrange(0, i + 1);
    assert(t[t.len() - 1] == s[i]);
    assert(t.subrange(0, t.len() - 1) =~= s.subrange(0, i));
}

} // verus!
