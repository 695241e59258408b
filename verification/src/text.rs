//! Character-level helpers shared by the request builder and the decoder:
//! decimal rendering and parsing of unsigned integers, whitespace trimming,
//! and conversions between `&str`, `Vec<char>` and `String`.

use vstd::prelude::*;

verus! {

/// Relies on `String::push`: appends the given character at the end of the string.
#[verifier::external_body]
pub fn push_char(s: &mut String, c: char)
    ensures
        final(s)@ == old(s)@.push(c),
{
    s.push(c);
}

pub open spec fn is_digit_char(c: char) -> bool {
    48 <= c as u32 && c as u32 <= 57
}

pub open spec fn digit_of(c: char) -> nat {
    (c as u32 - 48) as nat
}

/// The character for a single decimal digit.
pub open spec fn digit_char_of(d: nat) -> char {
    ((d + 48) as u8) as char
}

/// The decimal rendering of a natural number, without leading zeroes
/// (a single `'0'` for zero).
pub open spec fn spec_dec(n: nat) -> Seq<char>
    decreases n,
{
    if n < 10 {
        seq![digit_char_of(n)]
    } else {
        spec_dec(n / 10).push(digit_char_of(n % 10))
    }
}

fn digit_char(d: u8) -> (c: char)
    requires
        d < 10,
    ensures
        c == digit_char_of(d as nat),
{
    (d + 48) as char
}

pub fn u64_to_string(n: u64) -> (r: String)
    ensures
        r@ == spec_dec(n as nat),
    decreases n,
{
    if n < 10 {
        let mut s = String::new();
        push_char(&mut s, digit_char(n as u8));
        assert(s@ =~= spec_dec(n as nat));
        s
    } else {
        let mut s = u64_to_string(n / 10);
        push_char(&mut s, digit_char((n % 10) as u8));
        assert(s@ =~= spec_dec(n as nat));
        s
    }
}

/// The value of a sequence of decimal digit characters.
pub open spec fn digits_val(s: Seq<char>) -> nat
    decreases s.len(),
{
    if s.len() == 0 {
        0
    } else {
        digits_val(s.drop_last()) * 10 + digit_of(s.last())
    }
}

pub open spec fn all_digits(s: Seq<char>) -> bool {
    forall|i: int| 0 <= i < s.len() ==> is_digit_char(#[trigger] s[i])
}

/// What `str::parse` accepts for an unsigned integer type, before any range
/// check: an optional leading `'+'`, then one or more decimal digits.
pub open spec fn spec_parse_uint(s: Seq<char>) -> Option<nat> {
    let body = if s.len() > 0 && s[0] == '+' {
        s.skip(1)
    } else {
        s
    };
    if body.len() > 0 && all_digits(body) {
        Some(digits_val(body))
    } else {
        None
    }
}

pub proof fn lemma_digits_val_prefix_le(s: Seq<char>, i: int)
    requires
        0 <= i < s.len(),
    ensures
        digits_val(s.take(i)) <= digits_val(s.take(i + 1)),
        digits_val(s.take(i + 1)) == digits_val(s.take(i)) * 10 + digit_of(s[i]),
    decreases s.len() - i,
{
    assert(s.take(i + 1).drop_last() =~= s.take(i));
    assert(s.take(i + 1).last() == s[i]);
}

pub proof fn lemma_digits_val_monotone(s: Seq<char>, i: int)
    requires
        0 <= i <= s.len(),
    ensures
        digits_val(s.take(i)) <= digits_val(s),
    decreases s.len() - i,
{
    if i == s.len() {
        assert(s.take(i) =~= s);
    } else {
        lemma_digits_val_prefix_le(s, i);
        lemma_digits_val_monotone(s, i + 1);
    }
}

/// Parses the run of decimal digits at `v[from..to]`, capped: `None` when the
/// run is empty, holds a non-digit, or its value exceeds `cap`.
pub fn parse_digits_capped(v: &Vec<char>, from: usize, to: usize, cap: u64) -> (r: Option<u64>)
    requires
        from <= to <= v@.len(),
        cap <= 0xFFFF_FFFF,
    ensures
        ({
            let s = v@.subrange(from as int, to as int);
            match r {
                Some(x) => all_digits(s) && s.len() > 0 && x == digits_val(s) && x <= cap,
                None => s.len() == 0 || !all_digits(s) || digits_val(s) > cap,
            }
        }),
{
    let ghost s = v@.subrange(from as int, to as int);
    if from == to {
        return None;
    }
    let mut acc: u64 = 0;
    let mut i: usize = from;
    while i < to
        invariant
            from <= i <= to <= v@.len(),
            cap <= 0xFFFF_FFFF,
            s == v@.subrange(from as int, to as int),
            acc == digits_val(s.take(i - from)),
            acc <= cap,
            all_digits(s.take(i - from)),
        decreases to - i,
    {
        let ghost k = i - from;
        let c = v[i];
        assert(c == s[k]);
        let u = c as u32;
        if u < 48 || u > 57 {
            assert(!is_digit_char(s[k]));
            return None;
        }
        assert(is_digit_char(s[k]));
        let d = (u - 48) as u64;
        proof {
            lemma_digits_val_prefix_le(s, k);
        }
        let next = acc * 10 + d;
        if next > cap {
            proof {
                lemma_digits_val_monotone(s, k + 1);
            }
            return None;
        }
        acc = next;
        assert(all_digits(s.take(k + 1))) by {
            assert(forall|j: int| 0 <= j < k + 1 ==> s.take(k + 1)[j] == s[j]);
        }
        i = i + 1;
    }
    assert(s.take(to - from) =~= s);
    Some(acc)
}

/// Exactly what `str::parse` does for an unsigned integer bounded by `cap`:
/// `None` on an empty string, a stray character, or a value above `cap`.
pub fn parse_uint_capped(v: &Vec<char>, cap: u64) -> (r: Option<u64>)
    requires
        cap <= 0xFFFF_FFFF,
    ensures
        match r {
            Some(x) => spec_parse_uint(v@) == Some(x as nat) && x <= cap,
            None => spec_parse_uint(v@) is None || spec_parse_uint(v@)->Some_0 > cap,
        },
{
    let from: usize = if v.len() > 0 && v[0] == '+' {
        1
    } else {
        0
    };
    proof {
        if from == 1 {
            assert(v@.subrange(1, v@.len() as int) =~= v@.skip(1));
        } else {
            assert(v@.subrange(0, v@.len() as int) =~= v@);
        }
    }
    match parse_digits_capped(v, from, v.len(), cap) {
        Some(x) => Some(x),
        None => None,
    }
}

/// The Unicode white-space characters, those that `char::is_whitespace`
/// reports.
pub open spec fn is_space_char(c: char) -> bool {
    let u = c as u32;
    ||| u == 0x09
    ||| u == 0x0A
    ||| u == 0x0B
    ||| u == 0x0C
    ||| u == 0x0D
    ||| u == 0x20
    ||| u == 0x85
    ||| u == 0xA0
    ||| u == 0x1680
    ||| (0x2000 <= u && u <= 0x200A)
    ||| u == 0x2028
    ||| u == 0x2029
    ||| u == 0x202F
    ||| u == 0x205F
    ||| u == 0x3000
}

pub fn is_space(c: char) -> (r: bool)
    ensures
        r == is_space_char(c),
{
    let u = c as u32;
    u == 0x09 || u == 0x0A || u == 0x0B || u == 0x0C || u == 0x0D || u == 0x20 || u == 0x85
        || u == 0xA0 || u == 0x1680 || (0x2000 <= u && u <= 0x200A) || u == 0x2028 || u == 0x2029
        || u == 0x202F || u == 0x205F || u == 0x3000
}

/// What `str::trim` leaves: the input without leading and trailing
/// white space.
pub open spec fn spec_trim(s: Seq<char>) -> Seq<char>
    decreases s.len(),
{
    if s.len() == 0 {
        s
    } else if is_space_char(s.first()) {
        spec_trim(s.drop_first())
    } else if is_space_char(s.last()) {
        spec_trim(s.drop_last())
    } else {
        s
    }
}

pub fn trim_chars(v: &Vec<char>) -> (r: Vec<char>)
    ensures
        r@ == spec_trim(v@),
{
    let mut lo: usize = 0;
    let mut hi: usize = v.len();
    proof {
        assert(v@.subrange(0, v@.len() as int) =~= v@);
    }
    while lo < hi && is_space(v[lo])
        invariant
            0 <= lo <= hi <= v@.len(),
            spec_trim(v@) == spec_trim(v@.subrange(lo as int, hi as int)),
        decreases hi - lo,
    {
        proof {
            let s = v@.subrange(lo as int, hi as int);
            assert(s.drop_first() =~= v@.subrange(lo as int + 1, hi as int));
        }
        lo = lo + 1;
    }
    while lo < hi && is_space(v[hi - 1])
        invariant
            0 <= lo <= hi <= v@.len(),
            spec_trim(v@) == spec_trim(v@.subrange(lo as int, hi as int)),
            lo < hi ==> !is_space_char(v@[lo as int]),
        decreases hi - lo,
    {
        proof {
            let s = v@.subrange(lo as int, hi as int);
            assert(s.first() == v@[lo as int]);
            assert(s.drop_last() =~= v@.subrange(lo as int, hi as int - 1));
        }
        hi = hi - 1;
    }
    let mut r: Vec<char> = Vec::new();
    let mut i: usize = lo;
    while i < hi
        invariant
            lo <= i <= hi <= v@.len(),
            r@ == v@.subrange(lo as int, i as int),
        decreases hi - i,
    {
        r.push(v[i]);
        proof {
            assert(v@.subrange(lo as int, i as int + 1) =~= v@.subrange(
                lo as int,
                i as int,
            ).push(v@[i as int]));
        }
        i = i + 1;
    }
    proof {
        let s = v@.subrange(lo as int, hi as int);
        if lo < hi {
            assert(s.first() == v@[lo as int]);
            assert(s.last() == v@[hi as int - 1]);
        }
        assert(spec_trim(s) == s);
    }
    r
}

/// Copies the characters of a string slice out into a vector.
pub fn str_to_chars(s: &str) -> (r: Vec<char>)
    ensures
        r@ == s@,
{
    let n = s.unicode_len();
    let mut v: Vec<char> = Vec::new();
    let mut i: usize = 0;
    while i < n
        invariant
            n == s@.len(),
            0 <= i <= n,
            v@ == s@.take(i as int),
        decreases n - i,
    {
        let c = s.get_char(i);
        v.push(c);
        proof {
            assert(s@.take(i as int + 1) =~= s@.take(i as int).push(s@[i as int]));
        }
        i = i + 1;
    }
    assert(s@.take(n as int) =~= s@);
    v
}

/// Character-wise equality of two string slices.
pub fn str_eq(a: &str, b: &str) -> (r: bool)
    ensures
        r == (a@ == b@),
{
    let na = a.unicode_len();
    let nb = b.unicode_len();
    if na != nb {
        return false;
    }
    let mut i: usize = 0;
    while i < na
        invariant
            na == a@.len(),
            na == b@.len(),
            0 <= i <= na,
            forall|j: int| 0 <= j < i ==> a@[j] == b@[j],
        decreases na - i,
    {
        if a.get_char(i) != b.get_char(i) {
            return false;
        }
        i = i + 1;
    }
    proof {
        assert(a@ =~= b@);
    }
    true
}

/// Builds a `String` out of the characters `v[from..to]`.
pub fn chars_to_string(v: &Vec<char>, from: usize, to: usize) -> (r: String)
    requires
        from <= to <= v@.len(),
    ensures
        r@ == v@.subrange(from as int, to as int),
{
    let mut r = String::new();
    let mut i: usize = from;
    while i < to
        invariant
            from <= i <= to <= v@.len(),
            r@ == v@.subrange(from as int, i as int),
        decreases to - i,
    {
        push_char(&mut r, v[i]);
        proof {
            assert(v@.subrange(from as int, i as int + 1) =~= v@.subrange(
                from as int,
                i as int,
            ).push(v@[i as int]));
        }
        i = i + 1;
    }
    r
}

} // verus!
