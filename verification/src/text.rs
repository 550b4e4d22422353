//! Text helpers for the inventory ledger: whitespace trimming, lenient
//! integer parsing, lexicographic ordering of names, and case-insensitive
//! substring matching.

use vstd::prelude::*;

verus! {

/// The code points with the Unicode `White_Space` property: the characters
/// that trimming removes from either end of a field.
pub open spec fn is_space(c: char) -> bool {
    let u = c as u32;
    u == 0x20 || (0x09 <= u && u <= 0x0D) || u == 0x85 || u == 0xA0 || u == 0x1680 || (0x2000
        <= u && u <= 0x200A) || u == 0x2028 || u == 0x2029 || u == 0x202F || u == 0x205F || u
        == 0x3000
}

fn is_space_char(c: char) -> (r: bool)
    ensures
        r == is_space(c),
{
    let u = c as u32;
    u == 0x20 || (0x09 <= u && u <= 0x0D) || u == 0x85 || u == 0xA0 || u == 0x1680 || (0x2000
        <= u && u <= 0x200A) || u == 0x2028 || u == 0x2029 || u == 0x202F || u == 0x205F || u
        == 0x3000
}

/// The input without its leading whitespace.
pub open spec fn trim_front(s: Seq<char>) -> Seq<char>
    decreases s.len(),
{
    if s.len() > 0 && is_space(s[0]) {
        trim_front(s.drop_first())
    } else {
        s
    }
}

/// The input without its trailing whitespace.
pub open spec fn trim_back(s: Seq<char>) -> Seq<char>
    decreases s.len(),
{
    if s.len() > 0 && is_space(s[s.len() - 1]) {
        trim_back(s.drop_last())
    } else {
        s
    }
}

/// The input without leading and trailing whitespace.
pub open spec fn trim_spec(s: Seq<char>) -> Seq<char> {
    trim_back(trim_front(s))
}

/// Returns a copy of `s` with leading and trailing whitespace removed.
pub fn trim_str(s: &str) -> (r: String)
    ensures
        r@ == trim_spec(s@),
{
    let n = s.unicode_len();
    let mut b: usize = 0;
    proof {
        assert(s@.skip(0) =~= s@);
    }
    while b < n && is_space_char(s.get_char(b))
        invariant
            b <= n,
            n == s@.len(),
            trim_front(s@) == trim_front(s@.skip(b as int)),
        decreases n - b,
    {
        proof {
            assert(s@.skip(b as int).drop_first() =~= s@.skip(b as int + 1));
        }
        b = b + 1;
    }
    proof {
        if b < n {
            assert(trim_front(s@.skip(b as int)) == s@.skip(b as int));
        } else {
            assert(s@.skip(b as int) =~= Seq::<char>::empty());
        }
        assert(trim_front(s@) == s@.skip(b as int));
        assert(s@.skip(b as int) =~= s@.subrange(b as int, n as int));
    }
    let mut e: usize = n;
    while e > b && is_space_char(s.get_char(e - 1))
        invariant
            b <= e <= n,
            n == s@.len(),
            trim_front(s@) == s@.subrange(b as int, n as int),
            trim_back(s@.subrange(b as int, n as int)) == trim_back(
                s@.subrange(b as int, e as int),
            ),
        decreases e,
    {
        proof {
            assert(s@.subrange(b as int, e as int).drop_last() =~= s@.subrange(
                b as int,
                e as int - 1,
            ));
        }
        e = e - 1;
    }
    proof {
        if e > b {
            assert(trim_back(s@.subrange(b as int, e as int)) == s@.subrange(b as int, e as int));
        } else {
            assert(s@.subrange(b as int, e as int) =~= Seq::<char>::empty());
        }
        assert(trim_spec(s@) == s@.subrange(b as int, e as int));
    }
    let t = s.substring_char(b, e);
    t.to_owned()
}

/// An ASCII decimal digit.
pub open spec fn is_digit(c: char) -> bool {
    0x30 <= c as u32 && c as u32 <= 0x39
}

/// The numeric value of an ASCII decimal digit.
pub open spec fn digit_val(c: char) -> int {
    c as u32 - 0x30
}

/// The value of a sequence of decimal digits, most significant first.
pub open spec fn digits_val(s: Seq<char>) -> int
    decreases s.len(),
{
    if s.len() == 0 {
        0
    } else {
        digits_val(s.drop_last()) * 10 + digit_val(s.last())
    }
}

pub open spec fn all_digits(s: Seq<char>) -> bool {
    forall|i: int| 0 <= i < s.len() ==> is_digit(s[i])
}

/// The unsigned part of an integer literal: the sign stripped off, if any.
pub open spec fn int_magnitude_part(s: Seq<char>) -> Seq<char> {
    if s.len() > 0 && (s[0] == '+' || s[0] == '-') {
        s.drop_first()
    } else {
        s
    }
}

pub open spec fn int_is_negative(s: Seq<char>) -> bool {
    s.len() > 0 && s[0] == '-'
}

/// The mathematical value of `s` read as a decimal integer literal
/// (an optional sign followed by at least one digit), or `None` where
/// `s` is not such a literal.
pub open spec fn int_of_chars(s: Seq<char>) -> Option<int> {
    if int_magnitude_part(s).len() > 0 && all_digits(int_magnitude_part(s)) {
        if int_is_negative(s) {
            Some(-digits_val(int_magnitude_part(s)))
        } else {
            Some(digits_val(int_magnitude_part(s)))
        }
    } else {
        None
    }
}

/// `s` read as an `i32`, rejecting values out of range, exactly as
/// `i32::from_str` does.
pub open spec fn parse_i32_spec(s: Seq<char>) -> Option<i32> {
    match int_of_chars(s) {
        Some(v) => if i32::MIN <= v <= i32::MAX {
            Some(v as i32)
        } else {
            None
        },
        None => None,
    }
}

/// The lenient quantity reading used throughout the ledger: trim the input,
/// read it as an `i32`, and fall back to zero where it is not a well-formed
/// in-range integer.  Malformed quantity input never blocks an operation.
pub open spec fn parse_or_zero_spec(s: Seq<char>) -> i32 {
    match parse_i32_spec(trim_spec(s)) {
        Some(v) => v,
        None => 0,
    }
}

/// Reads `s` as an `i32` with the exact acceptance rules of `i32::from_str`:
/// an optional `+` or `-` sign, then one or more ASCII digits, value in range.
pub fn parse_i32(s: &str) -> (r: Option<i32>)
    ensures
        r == parse_i32_spec(s@),
{
    let n = s.unicode_len();
    if n == 0 {
        return None;
    }
    let c0 = s.get_char(0);
    let start: usize = if c0 == '+' || c0 == '-' {
        1
    } else {
        0
    };
    let negative = c0 == '-';
    if start == n {
        // A bare sign has no digits.
        return None;
    }
    proof {
        assert(int_magnitude_part(s@) =~= s@.subrange(start as int, n as int));
    }
    let mut acc: i64 = 0;
    let mut too_big = false;
    let mut i: usize = start;
    while i < n
        invariant
            start <= i <= n,
            n == s@.len(),
            start < n,
            int_magnitude_part(s@) =~= s@.subrange(start as int, n as int),
            forall|k: int| start <= k < i ==> is_digit(s@[k]),
            !too_big ==> 0 <= acc <= 0x80000000i64 && acc == digits_val(
                s@.subrange(start as int, i as int),
            ),
            too_big ==> digits_val(s@.subrange(start as int, i as int)) > 0x80000000,
        decreases n - i,
    {
        let c = s.get_char(i);
        let u = c as u32;
        if u < 0x30 || u > 0x39 {
            proof {
                assert(!is_digit(int_magnitude_part(s@)[i - start]));
            }
            return None;
        }
        let d: i64 = (u - 0x30) as i64;
        proof {
            assert(s@.subrange(start as int, i as int + 1).drop_last() =~= s@.subrange(
                start as int,
                i as int,
            ));
            assert(s@.subrange(start as int, i as int + 1).last() == s@[i as int]);
        }
        if too_big {
            proof {
                let prev = digits_val(s@.subrange(start as int, i as int));
                assert(digits_val(s@.subrange(start as int, i as int + 1)) == prev * 10
                    + digit_val(s@[i as int]));
                assert(prev * 10 >= prev) by (nonlinear_arith)
                    requires
                        prev > 0,
                ;
            }
        } else {
            let next = acc * 10 + d;
            if next > 0x80000000i64 {
                too_big = true;
            } else {
                acc = next;
            }
        }
        i = i + 1;
    }
    proof {
        assert(s@.subrange(start as int, n as int) =~= int_magnitude_part(s@));
        assert(all_digits(int_magnitude_part(s@)));
    }
    if too_big {
        // Out of range for both signs: the magnitude exceeds 2^31.
        return None;
    }
    if negative {
        let v = -acc;
        Some(v as i32)
    } else {
        if acc > 0x7FFFFFFFi64 {
            return None;
        }
        Some(acc as i32)
    }
}

/// Trim `s` and read it as an `i32`; malformed or out-of-range input
/// yields zero rather than an error.
pub fn parse_or_zero(s: &str) -> (r: i32)
    ensures
        r == parse_or_zero_spec(s@),
{
    let t = trim_str(s);
    match parse_i32(t.as_str()) {
        Some(v) => v,
        None => 0,
    }
}

/// Lexicographic order on character sequences by code point, the order in
/// which `str` comparison ranks strings.
pub open spec fn lex_le(a: Seq<char>, b: Seq<char>) -> bool
    decreases a.len(),
{
    if a.len() == 0 {
        true
    } else if b.len() == 0 {
        false
    } else if a[0] != b[0] {
        (a[0] as u32) < (b[0] as u32)
    } else {
        lex_le(a.drop_first(), b.drop_first())
    }
}

pub proof fn lemma_lex_le_total(a: Seq<char>, b: Seq<char>)
    ensures
        lex_le(a, b) || lex_le(b, a),
    decreases a.len(),
{
    if a.len() > 0 && b.len() > 0 {
        if a[0] == b[0] {
            lemma_lex_le_total(a.drop_first(), b.drop_first());
        } else {
            vstd::utf8::char_u32_cast(a[0], a[0] as u32);
            vstd::utf8::char_u32_cast(b[0], b[0] as u32);
            assert((a[0] as u32) != (b[0] as u32));
        }
    }
}

pub proof fn lemma_lex_le_trans(a: Seq<char>, b: Seq<char>, c: Seq<char>)
    requires
        lex_le(a, b),
        lex_le(b, c),
    ensures
        lex_le(a, c),
    decreases a.len(),
{
    if a.len() > 0 && b.len() > 0 && c.len() > 0 && a[0] == b[0] && b[0] == c[0] {
        lemma_lex_le_trans(a.drop_first(), b.drop_first(), c.drop_first());
    }
}

pub proof fn lemma_lex_le_antisym(a: Seq<char>, b: Seq<char>)
    requires
        lex_le(a, b),
        lex_le(b, a),
    ensures
        a == b,
    decreases a.len(),
{
    if a.len() > 0 && b.len() > 0 && a[0] == b[0] {
        lemma_lex_le_antisym(a.drop_first(), b.drop_first());
        assert(a =~= seq![a[0]] + a.drop_first());
        assert(b =~= seq![b[0]] + b.drop_first());
    }
}

/// Compares two strings in lexicographic code-point order.
pub fn str_le(a: &str, b: &str) -> (r: bool)
    ensures
        r == lex_le(a@, b@),
{
    let alen = a.unicode_len();
    let blen = b.unicode_len();
    let mut i: usize = 0;
    proof {
        assert(a@.skip(0) =~= a@);
        assert(b@.skip(0) =~= b@);
    }
    loop
        invariant
            i <= alen,
            i <= blen,
            alen == a@.len(),
            blen == b@.len(),
            lex_le(a@, b@) == lex_le(a@.skip(i as int), b@.skip(i as int)),
        decreases alen - i,
    {
        if i >= alen {
            proof {
                assert(a@.skip(i as int).len() == 0);
            }
            return true;
        }
        if i >= blen {
            proof {
                assert(b@.skip(i as int).len() == 0);
                assert(a@.skip(i as int).len() > 0);
            }
            return false;
        }
        let ca = a.get_char(i);
        let cb = b.get_char(i);
        proof {
            assert(a@.skip(i as int)[0] == a@[i as int]);
            assert(b@.skip(i as int)[0] == b@[i as int]);
        }
        if ca != cb {
            return (ca as u32) < (cb as u32);
        }
        proof {
            assert(a@.skip(i as int).drop_first() =~= a@.skip(i as int + 1));
            assert(b@.skip(i as int).drop_first() =~= b@.skip(i as int + 1));
        }
        i = i + 1;
    }
}

/// `n` occurs in `h` starting at position `i`.
pub open spec fn matches_at(h: Seq<char>, n: Seq<char>, i: int) -> bool {
    0 <= i && i + n.len() <= h.len() && forall|j: int| 0 <= j < n.len() ==> h[i + j] == n[j]
}

/// `n` is a contiguous subsequence of `h`.
pub open spec fn contains_seq(h: Seq<char>, n: Seq<char>) -> bool {
    exists|i: int| matches_at(h, n, i)
}

/// Whether `needle` occurs as a contiguous substring of `hay`.
pub fn str_contains(hay: &str, needle: &str) -> (r: bool)
    ensures
        r == contains_seq(hay@, needle@),
{
    let hl = hay.unicode_len();
    let nl = needle.unicode_len();
    if nl > hl {
        return false;
    }
    let mut i: usize = 0;
    while i <= hl - nl
        invariant
            nl <= hl,
            hl == hay@.len(),
            nl == needle@.len(),
            i <= hl - nl + 1,
            forall|k: int| 0 <= k < i ==> !matches_at(hay@, needle@, k),
        decreases hl - nl + 1 - i,
    {
        let mut j: usize = 0;
        let mut ok = true;
        while j < nl
            invariant
                j <= nl,
                i + nl <= hl,
                hl == hay@.len(),
                nl == needle@.len(),
                ok ==> forall|t: int| 0 <= t < j ==> hay@[i + t] == needle@[t],
                !ok ==> !matches_at(hay@, needle@, i as int),
            decreases nl - j,
        {
            if hay.get_char(i + j) != needle.get_char(j) {
                ok = false;
            }
            j = j + 1;
        }
        if ok {
            proof {
                assert(matches_at(hay@, needle@, i as int));
            }
            return true;
        }
        i = i + 1;
    }
    proof {
        assert forall|k: int| !matches_at(hay@, needle@, k) by {
            if 0 <= k && k + needle@.len() <= hay@.len() {
                assert(k < i);
            }
        }
    }
    false
}

/// The result of Unicode lowercase mapping, a function of the characters of
/// the input alone.
pub uninterp spec fn lower_of(s: Seq<char>) -> Seq<char>;

/// Relies on `str::to_lowercase`: returns the lowercase equivalent of the
/// input, a value that depends on the input's characters alone.
#[verifier::external_body]
pub(crate) fn lowercase(s: &str) -> (r: String)
    ensures
        r@ == lower_of(s@),
{
    s.to_lowercase()
}

} // verus!
