//! Lexical layer of the JSON decoder: white space, numbers, strings with
//! their escapes, and skipping over a whole value of any shape. Every
//! executable parser mirrors a specification function over the character
//! sequence, so decoding the same text always gives the same outcome.

use vstd::prelude::*;
use crate::text::all_digits;
use crate::text::digit_of;
use crate::text::digits_val;
use crate::text::is_digit_char;

verus! {

/// The white-space characters JSON allows between tokens.
pub open spec fn is_json_ws(c: char) -> bool {
    c as u32 == 0x20 || c as u32 == 0x09 || c as u32 == 0x0A || c as u32 == 0x0D
}

/// First position at or after `i` holding no JSON white space.
pub open spec fn s_ws(s: Seq<char>, i: int) -> int
    decreases s.len() - i,
{
    if 0 <= i && i < s.len() && is_json_ws(s[i]) {
        s_ws(s, i + 1)
    } else {
        i
    }
}

fn is_jws(c: char) -> (r: bool)
    ensures
        r == is_json_ws(c),
{
    let u = c as u32;
    u == 0x20 || u == 0x09 || u == 0x0A || u == 0x0D
}

/// Skips JSON white space.
pub fn ws(v: &Vec<char>, i: usize) -> (j: usize)
    requires
        i <= v@.len(),
    ensures
        j as int == s_ws(v@, i as int),
        i <= j <= v@.len(),
{
    let mut j = i;
    while j < v.len() && is_jws(v[j])
        invariant
            i <= j <= v@.len(),
            s_ws(v@, i as int) == s_ws(v@, j as int),
        decreases v@.len() - j,
    {
        j = j + 1;
    }
    j
}

/// First position at or after `i` holding no decimal digit.
pub open spec fn s_digits_end(s: Seq<char>, i: int) -> int
    decreases s.len() - i,
{
    if 0 <= i && i < s.len() && is_digit_char(s[i]) {
        s_digits_end(s, i + 1)
    } else {
        i
    }
}

pub proof fn lemma_digits_end_bounds(s: Seq<char>, i: int)
    requires
        0 <= i <= s.len(),
    ensures
        i <= s_digits_end(s, i) <= s.len(),
        forall|j: int| i <= j < s_digits_end(s, i) ==> is_digit_char(#[trigger] s[j]),
    decreases s.len() - i,
{
    if i < s.len() && is_digit_char(s[i]) {
        lemma_digits_end_bounds(s, i + 1);
    }
}

fn is_dig(c: char) -> (r: bool)
    ensures
        r == is_digit_char(c),
{
    let u = c as u32;
    48 <= u && u <= 57
}

/// Scans to the end of a digit run.
pub fn digits_end(v: &Vec<char>, i: usize) -> (j: usize)
    requires
        i <= v@.len(),
    ensures
        j as int == s_digits_end(v@, i as int),
        i <= j <= v@.len(),
{
    let mut j = i;
    while j < v.len() && is_dig(v[j])
        invariant
            i <= j <= v@.len(),
            s_digits_end(v@, i as int) == s_digits_end(v@, j as int),
        decreases v@.len() - j,
    {
        j = j + 1;
    }
    j
}

/// The value of a digit run when it fits a `u64`.
pub open spec fn digits_opt_u64(s: Seq<char>, from: int, to: int) -> Option<u64> {
    if digits_val(s.subrange(from, to)) <= u64::MAX {
        Some(digits_val(s.subrange(from, to)) as u64)
    } else {
        None
    }
}

/// Reads the value of the digit run `v[from..to]`; `None` when it exceeds
/// what a `u64` holds.
pub fn digits_u64(v: &Vec<char>, from: usize, to: usize) -> (r: Option<u64>)
    requires
        from <= to <= v@.len(),
        all_digits(v@.subrange(from as int, to as int)),
    ensures
        r == digits_opt_u64(v@, from as int, to as int),
{
    let ghost s = v@.subrange(from as int, to as int);
    let mut acc: u64 = 0;
    let mut i: usize = from;
    while i < to
        invariant
            from <= i <= to <= v@.len(),
            s == v@.subrange(from as int, to as int),
            all_digits(s),
            acc == digits_val(s.take(i - from)),
        decreases to - i,
    {
        let ghost k = i - from;
        let c = v[i];
        assert(c == s[k]);
        assert(is_digit_char(c));
        let d = ((c as u32) - 48) as u64;
        proof {
            crate::text::lemma_digits_val_prefix_le(s, k);
        }
        let m = match acc.checked_mul(10) {
            Some(m) => m,
            None => {
                proof {
                    crate::text::lemma_digits_val_monotone(s, k + 1);
                }
                return None;
            },
        };
        let next = match m.checked_add(d) {
            Some(n) => n,
            None => {
                proof {
                    crate::text::lemma_digits_val_monotone(s, k + 1);
                }
                return None;
            },
        };
        acc = next;
        i = i + 1;
    }
    assert(s.take(to - from) =~= s);
    Some(acc)
}

/// The shape of a JSON number, as far as the decoder reads it: its sign,
/// its integer part when it fits a `u64`, whether a fraction or an exponent
/// followed, and the first fractional digit.
#[derive(Clone, Copy, Debug)]
pub struct NumParts {
    pub neg: bool,
    pub int_val: Option<u64>,
    pub has_frac: bool,
    pub first_frac: u8,
    pub has_exp: bool,
}

impl NumParts {
    /// The unsigned integer this number denotes exactly, if it is one:
    /// no sign, no fraction, no exponent, within `u64`.
    pub open spec fn s_as_u64(self) -> Option<u64> {
        if !self.neg && !self.has_frac && !self.has_exp {
            self.int_val
        } else {
            None
        }
    }

    pub fn as_u64(&self) -> (r: Option<u64>)
        ensures
            r == self.s_as_u64(),
    {
        if !self.neg && !self.has_frac && !self.has_exp {
            self.int_val
        } else {
            None
        }
    }

    /// The signed whole number this number denotes exactly, if it is one
    /// and fits an `i64`; how a nanosecond timestamp is read.
    pub open spec fn s_as_i64(self) -> Option<i64> {
        if self.has_frac || self.has_exp {
            None
        } else {
            match self.int_val {
                Some(v) => if v <= 0x7FFF_FFFF_FFFF_FFFF {
                    if self.neg {
                        Some((-(v as int)) as i64)
                    } else {
                        Some(v as i64)
                    }
                } else if self.neg && v == 0x8000_0000_0000_0000 {
                    Some(i64::MIN)
                } else {
                    None
                },
                None => None,
            }
        }
    }

    pub fn as_i64(&self) -> (r: Option<i64>)
        ensures
            r == self.s_as_i64(),
    {
        if self.has_frac || self.has_exp {
            return None;
        }
        match self.int_val {
            Some(v) => {
                if v <= 0x7FFF_FFFF_FFFF_FFFF {
                    if self.neg {
                        Some(-(v as i64))
                    } else {
                        Some(v as i64)
                    }
                } else if self.neg && v == 0x8000_0000_0000_0000 {
                    Some(i64::MIN)
                } else {
                    None
                }
            },
            None => None,
        }
    }

    /// The number in tenths, keeping one fractional digit and dropping the
    /// rest: how a fractional rating is read. Nothing for a negative or
    /// exponent-bearing number, or one too large.
    pub open spec fn s_as_tenths(self) -> Option<u32> {
        if self.neg || self.has_exp {
            None
        } else {
            match self.int_val {
                Some(v) => if v * 10 + self.first_frac <= u32::MAX {
                    Some((v * 10 + self.first_frac) as u32)
                } else {
                    None
                },
                None => None,
            }
        }
    }

    pub fn as_tenths(&self) -> (r: Option<u32>)
        ensures
            r == self.s_as_tenths(),
    {
        if self.neg || self.has_exp {
            return None;
        }
        match self.int_val {
            Some(v) => {
                if v <= 429496729 {
                    let t: u64 = v * 10 + self.first_frac as u64;
                    if t <= 0xFFFF_FFFF {
                        Some(t as u32)
                    } else {
                        None
                    }
                } else {
                    None
                }
            },
            None => None,
        }
    }
}

/// The exponent tail of a number, after the digits parsed so far.
pub open spec fn s_num_exp(s: Seq<char>, i: int, n: NumParts) -> Option<(NumParts, int)> {
    if 0 <= i && i < s.len() && (s[i] == 'e' || s[i] == 'E') {
        let j = if i + 1 < s.len() && (s[i + 1] == '+' || s[i + 1] == '-') {
            i + 2
        } else {
            i + 1
        };
        if j < s.len() && is_digit_char(s[j]) {
            Some((NumParts { has_exp: true, ..n }, s_digits_end(s, j)))
        } else {
            None
        }
    } else {
        Some((n, i))
    }
}

/// A whole JSON number starting at `i`: optional minus, an integer part
/// without leading zeroes, an optional fraction, an optional exponent.
pub open spec fn s_num(s: Seq<char>, i: int) -> Option<(NumParts, int)> {
    if !(0 <= i && i < s.len()) {
        None
    } else {
        let neg = s[i] == '-';
        let i1 = if neg {
            i + 1
        } else {
            i
        };
        if !(i1 < s.len() && is_digit_char(s[i1])) {
            None
        } else if s[i1] as u32 == 48 && i1 + 1 < s.len() && is_digit_char(s[i1 + 1]) {
            None
        } else {
            let e1 = s_digits_end(s, i1);
            let iv = digits_opt_u64(s, i1, e1);
            if e1 < s.len() && s[e1] == '.' {
                if !(e1 + 1 < s.len() && is_digit_char(s[e1 + 1])) {
                    None
                } else {
                    let fe = s_digits_end(s, e1 + 1);
                    s_num_exp(
                        s,
                        fe,
                        NumParts {
                            neg,
                            int_val: iv,
                            has_frac: true,
                            first_frac: digit_of(s[e1 + 1]) as u8,
                            has_exp: false,
                        },
                    )
                }
            } else {
                s_num_exp(
                    s,
                    e1,
                    NumParts { neg, int_val: iv, has_frac: false, first_frac: 0, has_exp: false },
                )
            }
        }
    }
}

/// Parses the number starting at `i`.
pub fn parse_num(v: &Vec<char>, i: usize) -> (r: Option<(NumParts, usize)>)
    requires
        i <= v@.len(),
    ensures
        match r {
            Some((n, j)) => s_num(v@, i as int) == Some((n, j as int)) && i < j <= v@.len(),
            None => s_num(v@, i as int) is None,
        },
{
    if i >= v.len() {
        return None;
    }
    let neg = v[i] == '-';
    let i1 = if neg {
        i + 1
    } else {
        i
    };
    if !(i1 < v.len() && is_dig(v[i1])) {
        return None;
    }
    if (v[i1] as u32) == 48 && i1 + 1 < v.len() && is_dig(v[i1 + 1]) {
        return None;
    }
    let e1 = digits_end(v, i1);
    proof {
        lemma_digits_end_bounds(v@, i1 as int);
        assert(s_digits_end(v@, i1 as int) == s_digits_end(v@, i1 as int + 1));
        lemma_digits_end_bounds(v@, i1 as int + 1);
        assert(all_digits(v@.subrange(i1 as int, e1 as int))) by {
            assert(forall|k: int| 0 <= k < e1 as int - i1 as int ==> v@.subrange(
                i1 as int,
                e1 as int,
            )[k] == v@[i1 as int + k]);
        }
    }
    let iv = digits_u64(v, i1, e1);
    if e1 < v.len() && v[e1] == '.' {
        if !(e1 + 1 < v.len() && is_dig(v[e1 + 1])) {
            return None;
        }
        let fe = digits_end(v, e1 + 1);
        let ff = ((v[e1 + 1] as u32) - 48) as u8;
        let n = NumParts { neg, int_val: iv, has_frac: true, first_frac: ff, has_exp: false };
        parse_num_exp(v, fe, n)
    } else {
        let n = NumParts { neg, int_val: iv, has_frac: false, first_frac: 0, has_exp: false };
        parse_num_exp(v, e1, n)
    }
}

/// Hex digit value; 16 when `c` is no hex digit.
pub open spec fn hex_val(c: char) -> nat {
    let u = c as u32;
    if 48 <= u && u <= 57 {
        (u - 48) as nat
    } else if 65 <= u && u <= 70 {
        (u - 55) as nat
    } else if 97 <= u && u <= 102 {
        (u - 87) as nat
    } else {
        16
    }
}

/// Four hex digits starting at `i`, read as one code unit.
pub open spec fn hex4(s: Seq<char>, i: int) -> Option<u32> {
    if 0 <= i && i + 4 <= s.len() && hex_val(s[i]) < 16 && hex_val(s[i + 1]) < 16 && hex_val(
        s[i + 2],
    ) < 16 && hex_val(s[i + 3]) < 16 {
        Some(
            (hex_val(s[i]) * 4096 + hex_val(s[i + 1]) * 256 + hex_val(s[i + 2]) * 16 + hex_val(
                s[i + 3],
            )) as u32,
        )
    } else {
        None
    }
}

/// The character a single-letter escape stands for.
pub open spec fn esc_char(e: char) -> Option<char> {
    if e == '"' {
        Some('"')
    } else if e == '\\' {
        Some('\\')
    } else if e == '/' {
        Some('/')
    } else if e == 'b' {
        Some('\u{0008}')
    } else if e == 'f' {
        Some('\u{000C}')
    } else if e == 'n' {
        Some('\n')
    } else if e == 'r' {
        Some('\r')
    } else if e == 't' {
        Some('\t')
    } else {
        None
    }
}

/// Prepends one decoded character to the rest of a string parse.
pub open spec fn cons_char(c: char, rest: Option<(Seq<char>, int)>) -> Option<(Seq<char>, int)> {
    match rest {
        Some(p) => Some((seq![c] + p.0, p.1)),
        None => None,
    }
}

/// The body of a JSON string, starting just after the opening quote:
/// the decoded characters and the position after the closing quote.
/// A lone surrogate escape, an unknown escape, an unescaped control
/// character or a missing closing quote fails.
pub open spec fn s_str_body(s: Seq<char>, i: int) -> Option<(Seq<char>, int)>
    decreases s.len() - i,
{
    if !(0 <= i && i < s.len()) {
        None
    } else if s[i] == '"' {
        Some((Seq::empty(), i + 1))
    } else if s[i] == '\\' {
        if i + 2 > s.len() {
            None
        } else {
            let e = s[i + 1];
            if e == 'u' {
                match hex4(s, i + 2) {
                    Some(c1) => {
                        if 0xD800 <= c1 && c1 < 0xDC00 {
                            if i + 12 <= s.len() && s[i + 6] == '\\' && s[i + 7] == 'u' {
                                match hex4(s, i + 8) {
                                    Some(c2) => {
                                        if 0xDC00 <= c2 && c2 < 0xE000 {
                                            cons_char(
                                                ((0x10000 + (c1 - 0xD800) * 0x400 + (c2
                                                    - 0xDC00)) as u32) as char,
                                                s_str_body(s, i + 12),
                                            )
                                        } else {
                                            None
                                        }
                                    },
                                    None => None,
                                }
                            } else {
                                None
                            }
                        } else if 0xDC00 <= c1 && c1 < 0xE000 {
                            None
                        } else if i + 6 <= s.len() {
                            cons_char(c1 as char, s_str_body(s, i + 6))
                        } else {
                            None
                        }
                    },
                    None => None,
                }
            } else {
                match esc_char(e) {
                    Some(c) => cons_char(c, s_str_body(s, i + 2)),
                    None => None,
                }
            }
        }
    } else if (s[i] as u32) < 0x20 {
        None
    } else {
        cons_char(s[i], s_str_body(s, i + 1))
    }
}

/// What a partial parse with `pre` already decoded amounts to.
pub open spec fn with_prefix(pre: Seq<char>, rest: Option<(Seq<char>, int)>) -> Option<
    (Seq<char>, int),
> {
    match rest {
        Some(p) => Some((pre + p.0, p.1)),
        None => None,
    }
}

proof fn lemma_with_prefix_cons(pre: Seq<char>, c: char, rest: Option<(Seq<char>, int)>)
    ensures
        with_prefix(pre, cons_char(c, rest)) == with_prefix(pre.push(c), rest),
{
    match rest {
        Some(p) => {
            assert(pre + (seq![c] + p.0) =~= pre.push(c) + p.0);
        },
        None => {},
    }
}

/// Relies on `char::from_u32`: yields the character for exactly the
/// Unicode scalar values, nothing for surrogates and values past the
/// maximum.
#[verifier::external_body]
fn char_from_u32(u: u32) -> (r: Option<char>)
    ensures
        r == (if vstd::utf8::is_scalar(u) {
            Some(u as char)
        } else {
            None::<char>
        }),
{
    char::from_u32(u)
}

fn hex_digit_val(c: char) -> (r: u32)
    ensures
        r as nat == hex_val(c),
{
    let u = c as u32;
    if 48 <= u && u <= 57 {
        u - 48
    } else if 65 <= u && u <= 70 {
        u - 55
    } else if 97 <= u && u <= 102 {
        u - 87
    } else {
        16
    }
}

fn parse_hex4(v: &Vec<char>, i: usize) -> (r: Option<u32>)
    requires
        i <= v@.len(),
    ensures
        r == hex4(v@, i as int),
{
    if v.len() - i >= 4 {
        let a = hex_digit_val(v[i]);
        let b = hex_digit_val(v[i + 1]);
        let c = hex_digit_val(v[i + 2]);
        let d = hex_digit_val(v[i + 3]);
        if a < 16 && b < 16 && c < 16 && d < 16 {
            Some(a * 4096 + b * 256 + c * 16 + d)
        } else {
            None
        }
    } else {
        None
    }
}

/// Parses a JSON string body, starting just after the opening quote.
pub fn parse_str_body(v: &Vec<char>, i: usize) -> (r: Option<(Vec<char>, usize)>)
    requires
        i <= v@.len(),
    ensures
        match r {
            Some(p) => s_str_body(v@, i as int) == Some((p.0@, p.1 as int)) && i < p.1 <= v@.len(),
            None => s_str_body(v@, i as int) is None,
        },
{
    let ghost s = v@;
    let mut acc: Vec<char> = Vec::new();
    let mut j = i;
    loop
        invariant
            i <= j <= s.len(),
            s == v@,
            s_str_body(s, i as int) == with_prefix(acc@, s_str_body(s, j as int)),
        decreases s.len() - j,
    {
        if j >= v.len() {
            return None;
        }
        let c = v[j];
        if c == '"' {
            assert(s_str_body(s, j as int) == Some((Seq::<char>::empty(), j + 1)));
            assert(acc@ + Seq::<char>::empty() =~= acc@);
            return Some((acc, j + 1));
        }
        if c == '\\' {
            if v.len() - j < 2 {
                return None;
            }
            let e = v[j + 1];
            if e == 'u' {
                match parse_hex4(v, j + 2) {
                    Some(c1) => {
                        if 0xD800 <= c1 && c1 < 0xDC00 {
                            if v.len() - j >= 12 && v[j + 6] == '\\' && v[j + 7] == 'u' {
                                match parse_hex4(v, j + 8) {
                                    Some(c2) => {
                                        if 0xDC00 <= c2 && c2 < 0xE000 {
                                            let code: u32 = 0x10000 + (c1 - 0xD800) * 0x400 + (c2
                                                - 0xDC00);
                                            match char_from_u32(code) {
                                                Some(ch) => {
                                                    proof {
                                                        lemma_with_prefix_cons(
                                                            acc@,
                                                            ch,
                                                            s_str_body(s, j as int + 12),
                                                        );
                                                    }
                                                    acc.push(ch);
                                                    j = j + 12;
                                                },
                                                None => {
                                                    // a combined surrogate pair is always a
                                                    // scalar value
                                                    assert(false);
                                                    return None;
                                                },
                                            }
                                        } else {
                                            return None;
                                        }
                                    },
                                    None => {
                                        return None;
                                    },
                                }
                            } else {
                                return None;
                            }
                        } else if 0xDC00 <= c1 && c1 < 0xE000 {
                            return None;
                        } else {
                            match char_from_u32(c1) {
                                Some(ch) => {
                                    proof {
                                        lemma_with_prefix_cons(acc@, ch, s_str_body(s, j as int + 6));
                                    }
                                    acc.push(ch);
                                    j = j + 6;
                                },
                                None => {
                                    // below 0xD800: always a scalar value
                                    assert(false);
                                    return None;
                                },
                            }
                        }
                    },
                    None => {
                        return None;
                    },
                }
            } else {
                let ch: char = if e == '"' {
                    '"'
                } else if e == '\\' {
                    '\\'
                } else if e == '/' {
                    '/'
                } else if e == 'b' {
                    '\u{0008}'
                } else if e == 'f' {
                    '\u{000C}'
                } else if e == 'n' {
                    '\n'
                } else if e == 'r' {
                    '\r'
                } else if e == 't' {
                    '\t'
                } else {
                    return None;
                };
                proof {
                    lemma_with_prefix_cons(acc@, ch, s_str_body(s, j as int + 2));
                }
                acc.push(ch);
                j = j + 2;
            }
        } else if (c as u32) < 0x20 {
            return None;
        } else {
            proof {
                lemma_with_prefix_cons(acc@, c, s_str_body(s, j as int + 1));
            }
            acc.push(c);
            j = j + 1;
        }
    }
}

fn parse_num_exp(v: &Vec<char>, i: usize, n: NumParts) -> (r: Option<(NumParts, usize)>)
    requires
        i <= v@.len(),
    ensures
        match r {
            Some((m, j)) => s_num_exp(v@, i as int, n) == Some((m, j as int)) && i <= j <= v@.len(),
            None => s_num_exp(v@, i as int, n) is None,
        },
{
    if i < v.len() && (v[i] == 'e' || v[i] == 'E') {
        let j = if i + 1 < v.len() && (v[i + 1] == '+' || v[i + 1] == '-') {
            i + 2
        } else {
            i + 1
        };
        if j < v.len() && is_dig(v[j]) {
            let e = digits_end(v, j);
            Some((NumParts { has_exp: true, ..n }, e))
        } else {
            None
        }
    } else {
        Some((n, i))
    }
}

/// The exact characters of a four-letter keyword at `i`.
pub open spec fn s_lit4(s: Seq<char>, i: int, a: char, b: char, c: char, d: char) -> bool {
    0 <= i && i + 4 <= s.len() && s[i] == a && s[i + 1] == b && s[i + 2] == c && s[i + 3] == d
}

/// The exact characters of `false` at `i`.
pub open spec fn s_lit_false(s: Seq<char>, i: int) -> bool {
    0 <= i && i + 5 <= s.len() && s[i] == 'f' && s[i + 1] == 'a' && s[i + 2] == 'l' && s[i + 3]
        == 's' && s[i + 4] == 'e'
}

/// Position after the JSON value starting at `i`, whatever its shape;
/// `None` when no well-formed value starts there. The range checks on
/// intermediate positions are well-formedness guards: the executable
/// parser shows they never fail.
pub open spec fn s_skip(s: Seq<char>, i: int) -> Option<int>
    decreases s.len() - i, 0int,
{
    if !(0 <= i && i < s.len()) {
        None
    } else {
        let c = s[i];
        if c == '"' {
            match s_str_body(s, i + 1) {
                Some(p) => Some(p.1),
                None => None,
            }
        } else if c == 't' {
            if s_lit4(s, i, 't', 'r', 'u', 'e') {
                Some(i + 4)
            } else {
                None
            }
        } else if c == 'f' {
            if s_lit_false(s, i) {
                Some(i + 5)
            } else {
                None
            }
        } else if c == 'n' {
            if s_lit4(s, i, 'n', 'u', 'l', 'l') {
                Some(i + 4)
            } else {
                None
            }
        } else if c == '-' || is_digit_char(c) {
            match s_num(s, i) {
                Some(p) => Some(p.1),
                None => None,
            }
        } else if c == '[' {
            let j = s_ws(s, i + 1);
            if !(i + 1 <= j && j <= s.len()) {
                None
            } else if j < s.len() && s[j] == ']' {
                Some(j + 1)
            } else {
                s_skip_elems(s, i + 1)
            }
        } else if c == '{' {
            let j = s_ws(s, i + 1);
            if !(i + 1 <= j && j <= s.len()) {
                None
            } else if j < s.len() && s[j] == '}' {
                Some(j + 1)
            } else {
                s_skip_members(s, i + 1)
            }
        } else {
            None
        }
    }
}

/// Position after the remaining elements of an array, starting before the
/// next element; the closing bracket ends it.
pub open spec fn s_skip_elems(s: Seq<char>, i: int) -> Option<int>
    decreases s.len() - i, 1int,
{
    if !(0 <= i && i <= s.len()) {
        None
    } else {
        let j = s_ws(s, i);
        if !(i <= j && j <= s.len()) {
            None
        } else {
            match s_skip(s, j) {
                Some(e) => {
                    if !(j < e && e <= s.len()) {
                        None
                    } else {
                        let k = s_ws(s, e);
                        if !(e <= k && k <= s.len()) {
                            None
                        } else if k < s.len() && s[k] == ']' {
                            Some(k + 1)
                        } else if k < s.len() && s[k] == ',' {
                            s_skip_elems(s, k + 1)
                        } else {
                            None
                        }
                    }
                },
                None => None,
            }
        }
    }
}

/// Position after the remaining members of an object, starting before the
/// next `"key": value` pair; the closing brace ends it.
pub open spec fn s_skip_members(s: Seq<char>, i: int) -> Option<int>
    decreases s.len() - i, 1int,
{
    if !(0 <= i && i <= s.len()) {
        None
    } else {
        let j = s_ws(s, i);
        if !(i <= j && j < s.len()) {
            None
        } else if s[j] != '"' {
            None
        } else {
            match s_str_body(s, j + 1) {
                Some(kp) => {
                    let colon = s_ws(s, kp.1);
                    if !(j + 1 < kp.1 && kp.1 <= colon && colon < s.len()) {
                        None
                    } else if s[colon] != ':' {
                        None
                    } else {
                        let vp = s_ws(s, colon + 1);
                        if !(colon + 1 <= vp && vp <= s.len()) {
                            None
                        } else {
                            match s_skip(s, vp) {
                                Some(e) => {
                                    if !(vp < e && e <= s.len()) {
                                        None
                                    } else {
                                        let k = s_ws(s, e);
                                        if !(e <= k && k <= s.len()) {
                                            None
                                        } else if k < s.len() && s[k] == '}' {
                                            Some(k + 1)
                                        } else if k < s.len() && s[k] == ',' {
                                            s_skip_members(s, k + 1)
                                        } else {
                                            None
                                        }
                                    }
                                },
                                None => None,
                            }
                        }
                    }
                },
                None => None,
            }
        }
    }
}

/// Skips the whole JSON value starting at `i`.
pub fn skip_value(v: &Vec<char>, i: usize) -> (r: Option<usize>)
    requires
        i <= v@.len(),
    ensures
        match r {
            Some(e) => s_skip(v@, i as int) == Some(e as int) && i < e <= v@.len(),
            None => s_skip(v@, i as int) is None,
        },
    decreases v@.len() - i, 0int,
{
    if i >= v.len() {
        return None;
    }
    let c = v[i];
    if c == '"' {
        match parse_str_body(v, i + 1) {
            Some(p) => Some(p.1),
            None => None,
        }
    } else if c == 't' {
        if v.len() - i >= 4 && v[i + 1] == 'r' && v[i + 2] == 'u' && v[i + 3] == 'e' {
            Some(i + 4)
        } else {
            None
        }
    } else if c == 'f' {
        if v.len() - i >= 5 && v[i + 1] == 'a' && v[i + 2] == 'l' && v[i + 3] == 's' && v[i + 4]
            == 'e' {
            Some(i + 5)
        } else {
            None
        }
    } else if c == 'n' {
        if v.len() - i >= 4 && v[i + 1] == 'u' && v[i + 2] == 'l' && v[i + 3] == 'l' {
            Some(i + 4)
        } else {
            None
        }
    } else if c == '-' || is_dig(c) {
        match parse_num(v, i) {
            Some(p) => Some(p.1),
            None => None,
        }
    } else if c == '[' {
        let j = ws(v, i + 1);
        if j < v.len() && v[j] == ']' {
            Some(j + 1)
        } else {
            skip_elems(v, i + 1)
        }
    } else if c == '{' {
        let j = ws(v, i + 1);
        if j < v.len() && v[j] == '}' {
            Some(j + 1)
        } else {
            skip_members(v, i + 1)
        }
    } else {
        None
    }
}

fn skip_elems(v: &Vec<char>, i: usize) -> (r: Option<usize>)
    requires
        i <= v@.len(),
    ensures
        match r {
            Some(e) => s_skip_elems(v@, i as int) == Some(e as int) && i < e <= v@.len(),
            None => s_skip_elems(v@, i as int) is None,
        },
    decreases v@.len() - i, 1int,
{
    let j = ws(v, i);
    match skip_value(v, j) {
        Some(e) => {
            let k = ws(v, e);
            if k < v.len() && v[k] == ']' {
                Some(k + 1)
            } else if k < v.len() && v[k] == ',' {
                skip_elems(v, k + 1)
            } else {
                None
            }
        },
        None => None,
    }
}

fn skip_members(v: &Vec<char>, i: usize) -> (r: Option<usize>)
    requires
        i <= v@.len(),
    ensures
        match r {
            Some(e) => s_skip_members(v@, i as int) == Some(e as int) && i < e <= v@.len(),
            None => s_skip_members(v@, i as int) is None,
        },
    decreases v@.len() - i, 1int,
{
    let j = ws(v, i);
    if !(j < v.len() && v[j] == '"') {
        return None;
    }
    match parse_str_body(v, j + 1) {
        Some(kp) => {
            let colon = ws(v, kp.1);
            if !(colon < v.len() && v[colon] == ':') {
                return None;
            }
            let vp = ws(v, colon + 1);
            match skip_value(v, vp) {
                Some(e) => {
                    let k = ws(v, e);
                    if k < v.len() && v[k] == '}' {
                        Some(k + 1)
                    } else if k < v.len() && v[k] == ',' {
                        skip_members(v, k + 1)
                    } else {
                        None
                    }
                },
                None => None,
            }
        },
        None => None,
    }
}

} // verus!
