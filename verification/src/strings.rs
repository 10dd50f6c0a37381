//! Small verified helpers over strings: equality, substring search and
//! decimal formatting, used throughout the engine's contracts.

use vstd::prelude::*;
use vstd::string::StrSliceExecFns;
use vstd::string::StringExecFns;

verus! {

/// Relies on std's String::push: appends one character to the string.
#[verifier::external_body]
pub fn push_char(s: &mut String, c: char)
    ensures
        final(s)@ == old(s)@.push(c),
{
    s.push(c);
}

/// Character-wise equality of two string slices.
pub fn str_eq(a: &str, b: &str) -> (r: bool)
    ensures
        r == (a@ == b@),
{
    let alen = a.unicode_len();
    let blen = b.unicode_len();
    if alen != blen {
        return false;
    }
    let mut i: usize = 0;
    while i < alen
        invariant
            alen == a@.len(),
            blen == b@.len(),
            alen == blen,
            i <= alen,
            forall|j: int| 0 <= j < i ==> a@[j] == b@[j],
        decreases alen - i,
    {
        if a.get_char(i) != b.get_char(i) {
            return false;
        }
        i = i + 1;
    }
    proof {
        assert(a@ =~= b@);
    }
    true
}

/// Appends `b` to `a`, returning the concatenation.
pub fn str_concat(a: &str, b: &str) -> (r: String)
    ensures
        r@ == a@ + b@,
{
    let mut s = a.to_owned();
    s.append(b);
    s
}

/// Case-insensitive equality of two characters: equal outright, or the same
/// ASCII letter in different case.
pub open spec fn ascii_eq_char(a: char, b: char) -> bool {
    a == b || (97 <= a as u32 <= 122 && a as u32 == b as u32 + 32) || (97 <= b as u32 <= 122
        && b as u32 == a as u32 + 32)
}

/// Character-wise equality of two texts, ignoring ASCII case.
pub open spec fn ascii_caseless_eq(x: Seq<char>, y: Seq<char>) -> bool {
    x.len() == y.len() && (forall|i: int| 0 <= i < x.len() ==> ascii_eq_char(x[i], y[i]))
}

/// Compares two string slices ignoring ASCII case.
pub fn str_caseless_eq(a: &str, b: &str) -> (r: bool)
    ensures
        r == ascii_caseless_eq(a@, b@),
{
    let alen = a.unicode_len();
    let blen = b.unicode_len();
    if alen != blen {
        return false;
    }
    let mut i: usize = 0;
    while i < alen
        invariant
            alen == a@.len(),
            blen == b@.len(),
            alen == blen,
            i <= alen,
            forall|j: int| 0 <= j < i ==> ascii_eq_char(a@[j], b@[j]),
        decreases alen - i,
    {
        let au = a.get_char(i) as u32;
        let bu = b.get_char(i) as u32;
        let same = au == bu || (97 <= au && au <= 122 && au == bu + 32) || (97 <= bu && bu <= 122
            && bu == au + 32);
        if !same {
            return false;
        }
        i = i + 1;
    }
    true
}

/// True when `needle` occurs in `hay` starting at position `at`.
pub open spec fn occurs_at(hay: Seq<char>, needle: Seq<char>, at: int) -> bool {
    &&& 0 <= at
    &&& at + needle.len() <= hay.len()
    &&& hay.subrange(at, at + needle.len() as int) == needle
}

/// True when `needle` occurs somewhere in `hay`.
pub open spec fn contains_seq(hay: Seq<char>, needle: Seq<char>) -> bool {
    exists|at: int| occurs_at(hay, needle, at)
}

/// Substring search: does `hay` contain `needle`?
pub fn str_contains(hay: &str, needle: &str) -> (r: bool)
    ensures
        r == contains_seq(hay@, needle@),
{
    let hlen = hay.unicode_len();
    let nlen = needle.unicode_len();
    if nlen > hlen {
        proof {
            assert(forall|p: int| !occurs_at(hay@, needle@, p));
        }
        return false;
    }
    if nlen == 0 {
        proof {
            assert(hay@.subrange(0, 0) =~= needle@);
            assert(occurs_at(hay@, needle@, 0));
        }
        return true;
    }
    let mut at: usize = 0;
    while at <= hlen - nlen
        invariant
            hlen == hay@.len(),
            nlen == needle@.len(),
            1 <= nlen <= hlen,
            at <= hlen - nlen + 1,
            forall|p: int| 0 <= p < at ==> !occurs_at(hay@, needle@, p),
        decreases hlen + 1 - nlen - at,
    {
        let mut j: usize = 0;
        let mut hit = true;
        while hit && j < nlen
            invariant
                hlen == hay@.len(),
                nlen == needle@.len(),
                at + nlen <= hlen,
                j <= nlen,
                hit ==> forall|q: int| 0 <= q < j ==> hay@[at + q] == needle@[q],
                !hit ==> !occurs_at(hay@, needle@, at as int),
            decreases nlen - j, (if hit { 1int } else { 0int }),
        {
            if hay.get_char(at + j) != needle.get_char(j) {
                proof {
                    assert(hay@.subrange(at as int, at + nlen) != needle@) by {
                        assert(hay@.subrange(at as int, at + nlen)[j as int] == hay@[at + j]);
                    }
                }
                hit = false;
            } else {
                j = j + 1;
            }
        }
        if hit {
            proof {
                assert(hay@.subrange(at as int, at + nlen) =~= needle@);
                assert(occurs_at(hay@, needle@, at as int));
            }
            return true;
        }
        at = at + 1;
    }
    proof {
        assert forall|p: int| !occurs_at(hay@, needle@, p) by {
            if 0 <= p < at as int {
            }
        }
    }
    false
}

/// The decimal digits of `n`, most significant first.
pub open spec fn dec_digits(n: nat) -> Seq<char>
    decreases n,
{
    if n < 10 {
        seq![digit_char(n)]
    } else {
        dec_digits(n / 10) + seq![digit_char(n % 10)]
    }
}

/// The character for a single decimal digit.
pub open spec fn digit_char(d: nat) -> char {
    if d == 0 {
        '0'
    } else if d == 1 {
        '1'
    } else if d == 2 {
        '2'
    } else if d == 3 {
        '3'
    } else if d == 4 {
        '4'
    } else if d == 5 {
        '5'
    } else if d == 6 {
        '6'
    } else if d == 7 {
        '7'
    } else if d == 8 {
        '8'
    } else if d == 9 {
        '9'
    } else {
        '?'
    }
}

fn digit_to_char(d: u64) -> (c: char)
    requires
        d < 10,
    ensures
        c == digit_char(d as nat),
{
    match d {
        0 => '0',
        1 => '1',
        2 => '2',
        3 => '3',
        4 => '4',
        5 => '5',
        6 => '6',
        7 => '7',
        8 => '8',
        _ => '9',
    }
}

/// Is `c` a decimal digit?
pub open spec fn is_digit(c: char) -> bool {
    48 <= c as u32 <= 57
}

/// The value a digit sequence reads as in decimal (junk characters make the
/// value meaningless; callers guard with `is_digit`).
pub open spec fn seq_dec_val(s: Seq<char>) -> int
    decreases s.len(),
{
    if s.len() == 0 {
        0
    } else {
        seq_dec_val(s.drop_last()) * 10 + (s.last() as u32 - 48)
    }
}

/// The u16 a text denotes: non-empty, all decimal digits, value in range.
pub open spec fn str_as_u16(s: Seq<char>) -> Option<u16> {
    if s.len() == 0 || (exists|i: int| 0 <= i < s.len() && !is_digit(s[i])) {
        None
    } else if seq_dec_val(s) > 65535 {
        None
    } else {
        Some(seq_dec_val(s) as u16)
    }
}

proof fn lemma_dec_val_nonneg(s: Seq<char>)
    requires
        forall|j: int| 0 <= j < s.len() ==> is_digit(s[j]),
    ensures
        seq_dec_val(s) >= 0,
    decreases s.len(),
{
    if s.len() > 0 {
        assert(forall|j: int| 0 <= j < s.drop_last().len() ==> is_digit(s.drop_last()[j]));
        lemma_dec_val_nonneg(s.drop_last());
    }
}

proof fn lemma_dec_val_grows(s: Seq<char>, i: int)
    requires
        0 <= i <= s.len(),
        forall|j: int| 0 <= j < s.len() ==> is_digit(s[j]),
    ensures
        seq_dec_val(s) >= seq_dec_val(s.take(i)),
    decreases s.len() - i,
{
    if i < s.len() {
        assert(forall|j: int| 0 <= j < s.take(i).len() ==> is_digit(s.take(i)[j]));
        lemma_dec_val_nonneg(s.take(i));
        assert(s.take(i + 1).drop_last() =~= s.take(i));
        assert(s.take(i + 1).last() == s[i]);
        lemma_dec_val_grows(s, i + 1);
    } else {
        assert(s.take(i) =~= s);
    }
}

/// Reads a decimal u16 from a text; `None` on anything but an in-range
/// run of digits.
pub fn parse_u16(s: &str) -> (r: Option<u16>)
    ensures
        r == str_as_u16(s@),
{
    let n = s.unicode_len();
    if n == 0 {
        return None;
    }
    let mut i: usize = 0;
    let mut val: u32 = 0;
    while i < n
        invariant
            n == s@.len(),
            i <= n,
            forall|j: int| 0 <= j < i ==> is_digit(s@[j]),
            val == seq_dec_val(s@.take(i as int)),
            val <= 65535,
        decreases n - i,
    {
        let c = s.get_char(i);
        let cu = c as u32;
        if cu < 48 || cu > 57 {
            return None;
        }
        let d = cu - 48;
        let nv: u64 = (val as u64) * 10 + (d as u64);
        proof {
            assert(s@.take(i as int + 1).drop_last() =~= s@.take(i as int));
            assert(s@.take(i as int + 1).last() == s@[i as int]);
        }
        if nv > 65535 {
            proof {
                if forall|j: int| 0 <= j < s@.len() ==> is_digit(s@[j]) {
                    lemma_dec_val_grows(s@, i as int + 1);
                }
            }
            return None;
        }
        val = nv as u32;
        i = i + 1;
    }
    proof {
        assert(s@.take(n as int) =~= s@);
    }
    Some(val as u16)
}

/// Formats `n` in decimal.
pub fn u64_to_dec(n: u64) -> (r: String)
    ensures
        r@ == dec_digits(n as nat),
{
    let mut digits: Vec<char> = Vec::new();
    let mut rest = n;
    loop
        invariant_except_break
            dec_digits(n as nat) == dec_digits(rest as nat) + digits@,
        ensures
            dec_digits(n as nat) == digits@,
        decreases rest,
    {
        let ghost pre = digits@;
        let d = digit_to_char(rest % 10);
        digits.insert(0, d);
        proof {
            assert(digits@ =~= seq![digit_char((rest % 10) as nat)] + pre);
            if rest >= 10 {
                assert(dec_digits(rest as nat) == dec_digits((rest / 10) as nat) + seq![
                    digit_char((rest % 10) as nat),
                ]);
                assert(dec_digits((rest / 10) as nat) + digits@ =~= dec_digits(rest as nat)
                    + pre);
            } else {
                assert(digits@ =~= dec_digits(rest as nat) + pre);
            }
        }
        if rest < 10 {
            break;
        }
        rest = rest / 10;
    }
    let mut s = String::new();
    let mut i: usize = 0;
    while i < digits.len()
        invariant
            i <= digits@.len(),
            s@ == digits@.subrange(0, i as int),
        decreases digits@.len() - i,
    {
        push_char(&mut s, digits[i]);
        proof {
            assert(s@ =~= digits@.subrange(0, i + 1));
        }
        i = i + 1;
    }
    proof {
        assert(digits@.subrange(0, digits@.len() as int) =~= digits@);
    }
    s
}

/// The last `len` decimal digits of `n`, zero-padded to exactly `len`.
pub open spec fn fixed_digits(n: nat, len: nat) -> Seq<char>
    decreases len,
{
    if len == 0 {
        Seq::empty()
    } else {
        fixed_digits(n / 10, (len - 1) as nat).push(digit_char(n % 10))
    }
}

/// Formats the last `len` decimal digits of `n`, zero-padded.
pub fn u64_fixed_dec(n: u64, len: usize) -> (r: String)
    ensures
        r@ == fixed_digits(n as nat, len as nat),
    decreases len,
{
    if len == 0 {
        String::new()
    } else {
        let mut s = u64_fixed_dec(n / 10, len - 1);
        let d = match n % 10 {
            0 => '0',
            1 => '1',
            2 => '2',
            3 => '3',
            4 => '4',
            5 => '5',
            6 => '6',
            7 => '7',
            8 => '8',
            _ => '9',
        };
        push_char(&mut s, d);
        s
    }
}

} // verus!
