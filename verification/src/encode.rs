//! Form-style URL encoding of query values: alphanumerics and `*-._` pass
//! through, a space becomes `+`, and every other byte of the character's
//! UTF-8 encoding becomes a percent escape with upper-case hex digits.

use vstd::prelude::*;
use crate::text::digit_char_of;

verus! {

/// Characters that the query serializer passes through unescaped.
pub open spec fn is_unreserved(c: char) -> bool {
    let u = c as u32;
    ||| (48 <= u && u <= 57)
    ||| (65 <= u && u <= 90)
    ||| (97 <= u && u <= 122)
    ||| u == 42
    ||| u == 45
    ||| u == 46
    ||| u == 95
}

/// Upper-case hex digit for a value below 16.
pub open spec fn hex_char_of(d: nat) -> char {
    if d < 10 {
        digit_char_of(d)
    } else {
        ((d + 55) as u8) as char
    }
}

/// The percent escape of one byte.
pub open spec fn pct(b: u8) -> Seq<char> {
    seq!['%', hex_char_of(b as nat / 16), hex_char_of(b as nat % 16)]
}

/// The percent escapes of a run of bytes.
pub open spec fn pct_all(bs: Seq<u8>) -> Seq<char>
    decreases bs.len(),
{
    if bs.len() == 0 {
        Seq::empty()
    } else {
        pct(bs.first()) + pct_all(bs.drop_first())
    }
}

/// The encoding of a single character.
pub open spec fn enc_char(c: char) -> Seq<char> {
    if is_unreserved(c) {
        seq![c]
    } else if c == ' ' {
        seq!['+']
    } else {
        pct_all(vstd::utf8::encode_scalar(c as u32))
    }
}

/// The encoding of a whole value.
pub open spec fn enc(s: Seq<char>) -> Seq<char>
    decreases s.len(),
{
    if s.len() == 0 {
        Seq::empty()
    } else {
        enc_char(s.first()) + enc(s.drop_first())
    }
}

proof fn lemma_enc_push(s: Seq<char>, c: char)
    ensures
        enc(s.push(c)) == enc(s) + enc_char(c),
    decreases s.len(),
{
    let t = s.push(c);
    if s.len() == 0 {
        assert(t.drop_first() =~= Seq::<char>::empty());
        assert(t.first() == c);
        assert(enc(t) == enc_char(c) + enc(Seq::<char>::empty()));
        assert(enc(t) =~= enc(s) + enc_char(c));
    } else {
        assert(t.first() == s.first());
        assert(t.drop_first() =~= s.drop_first().push(c));
        lemma_enc_push(s.drop_first(), c);
        assert(enc(t) == enc_char(s.first()) + (enc(s.drop_first()) + enc_char(c)));
        assert(enc(t) =~= enc(s) + enc_char(c));
    }
}

proof fn lemma_pct_all_push(bs: Seq<u8>, b: u8)
    ensures
        pct_all(bs.push(b)) == pct_all(bs) + pct(b),
    decreases bs.len(),
{
    let t = bs.push(b);
    if bs.len() == 0 {
        assert(t.drop_first() =~= Seq::<u8>::empty());
        assert(t.first() == b);
        assert(pct_all(t) == pct(b) + pct_all(Seq::<u8>::empty()));
        assert(pct_all(t) =~= pct_all(bs) + pct(b));
    } else {
        assert(t.first() == bs.first());
        assert(t.drop_first() =~= bs.drop_first().push(b));
        lemma_pct_all_push(bs.drop_first(), b);
        assert(pct_all(t) == pct(bs.first()) + (pct_all(bs.drop_first()) + pct(b)));
        assert(pct_all(t) =~= pct_all(bs) + pct(b));
    }
}

fn hex_char(d: u8) -> (c: char)
    requires
        d < 16,
    ensures
        c == hex_char_of(d as nat),
{
    if d < 10 {
        (d + 48) as char
    } else {
        (d + 55) as char
    }
}

/// The UTF-8 bytes of one character.
fn utf8_bytes(c: char) -> (r: Vec<u8>)
    ensures
        r@ == vstd::utf8::encode_scalar(c as u32),
{
    broadcast use vstd::utf8::char_is_scalar;

    let s = c as u32;
    let mut r: Vec<u8> = Vec::new();
    if s < 0x80 {
        r.push((s & 0x7F) as u8);
    } else if s < 0x800 {
        r.push(0xC0u8 | ((s >> 6) & 0x1F) as u8);
        r.push(0x80u8 | (s & 0x3F) as u8);
    } else if s < 0x10000 {
        r.push(0xE0u8 | ((s >> 12) & 0x0F) as u8);
        r.push(0x80u8 | ((s >> 6) & 0x3F) as u8);
        r.push(0x80u8 | (s & 0x3F) as u8);
    } else {
        r.push(0xF0u8 | ((s >> 18) & 0x7) as u8);
        r.push(0x80u8 | ((s >> 12) & 0x3F) as u8);
        r.push(0x80u8 | ((s >> 6) & 0x3F) as u8);
        r.push(0x80u8 | (s & 0x3F) as u8);
    }
    assert(r@ =~= vstd::utf8::encode_scalar(c as u32));
    r
}

fn is_unreserved_exec(c: char) -> (r: bool)
    ensures
        r == is_unreserved(c),
{
    let u = c as u32;
    (48 <= u && u <= 57) || (65 <= u && u <= 90) || (97 <= u && u <= 122) || u == 42 || u == 45
        || u == 46 || u == 95
}

/// Appends the encoding of `v[..]` to `out`.
pub fn encode_into(out: &mut String, v: &Vec<char>)
    ensures
        final(out)@ == old(out)@ + enc(v@),
{
    let ghost base = old(out)@;
    let mut i: usize = 0;
    while i < v.len()
        invariant
            0 <= i <= v@.len(),
            out@ == base + enc(v@.take(i as int)),
        decreases v@.len() - i,
    {
        let c = v[i];
        if is_unreserved_exec(c) {
            crate::text::push_char(out, c);
            assert(out@ =~= base + (enc(v@.take(i as int)) + enc_char(c)));
        } else if c == ' ' {
            crate::text::push_char(out, '+');
            assert(out@ =~= base + (enc(v@.take(i as int)) + enc_char(c)));
        } else {
            let bs = utf8_bytes(c);
            let ghost mid = out@;
            let mut j: usize = 0;
            while j < bs.len()
                invariant
                    0 <= j <= bs@.len(),
                    out@ == mid + pct_all(bs@.take(j as int)),
                decreases bs@.len() - j,
            {
                let b = bs[j];
                crate::text::push_char(out, '%');
                crate::text::push_char(out, hex_char(b / 16));
                crate::text::push_char(out, hex_char(b % 16));
                proof {
                    lemma_pct_all_push(bs@.take(j as int), b);
                    assert(bs@.take(j as int).push(bs@[j as int]) =~= bs@.take(j as int + 1));
                    assert(out@ =~= mid + pct_all(bs@.take(j as int + 1)));
                }
                j = j + 1;
            }
            proof {
                assert(bs@.take(bs@.len() as int) =~= bs@);
                assert(out@ =~= base + (enc(v@.take(i as int)) + enc_char(c)));
            }
        }
        proof {
            lemma_enc_push(v@.take(i as int), c);
            assert(v@.take(i as int).push(v@[i as int]) =~= v@.take(i as int + 1));
        }
        i = i + 1;
    }
    assert(v@.take(v@.len() as int) =~= v@);
}

} // verus!
