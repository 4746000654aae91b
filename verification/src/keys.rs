//! Filesystem-safe cache keys.
//!
//! A cache key is a language code that callers supply, and it becomes a
//! file name stem. Using it verbatim would let an untrusted key escape the
//! cache directory or name an invalid file, so keys pass through an
//! injective, filesystem-safe encoding first: letters, digits and `-` stand
//! for themselves, and every other character becomes `_` followed by six
//! lowercase hex digits of its code point. Injectivity — two different
//! keys never share a cache file — is proved below by exhibiting a decoder.

use vstd::prelude::*;
use vstd::utf8::{char_is_scalar, char_u32_cast, is_scalar};
use crate::present::{all_hex, hex_value, is_hex_digit};

verus! {

/// Whether a character may stand for itself in a file name stem: an ASCII
/// letter, an ASCII digit, or `-`. The escape marker `_` is deliberately
/// not safe, so that encoded texts never collide with escapes.
pub open spec fn is_safe_char(c: char) -> bool {
    ('a' as u32 <= c as u32 && c as u32 <= 'z' as u32) || ('A' as u32 <= c as u32 && c as u32
        <= 'Z' as u32) || ('0' as u32 <= c as u32 && c as u32 <= '9' as u32) || c == '-'
}

/// The lowercase hex digit for a value below 16.
pub open spec fn hex_digit_char(d: int) -> char {
    if d == 0 {
        '0'
    } else if d == 1 {
        '1'
    } else if d == 2 {
        '2'
    } else if d == 3 {
        '3'
    } else if d == 4 {
        '4'
    } else if d == 5 {
        '5'
    } else if d == 6 {
        '6'
    } else if d == 7 {
        '7'
    } else if d == 8 {
        '8'
    } else if d == 9 {
        '9'
    } else if d == 10 {
        'a'
    } else if d == 11 {
        'b'
    } else if d == 12 {
        'c'
    } else if d == 13 {
        'd'
    } else if d == 14 {
        'e'
    } else {
        'f'
    }
}

/// `w` lowercase hex digits of `u`, big-endian, zero-padded.
pub open spec fn hex_fixed(u: int, w: nat) -> Seq<char>
    decreases w,
{
    if w == 0 {
        Seq::empty()
    } else {
        hex_fixed(u / 16, (w - 1) as nat).push(hex_digit_char(u % 16))
    }
}

/// One character of a key, encoded: itself when safe, else `_` and six hex
/// digits of its code point (six digits cover every Unicode scalar).
pub open spec fn encode_char(c: char) -> Seq<char> {
    if is_safe_char(c) {
        seq![c]
    } else {
        seq!['_'] + hex_fixed(c as u32 as int, 6)
    }
}

/// A whole key, encoded character by character.
pub open spec fn encode_key_spec(s: Seq<char>) -> Seq<char>
    decreases s.len(),
{
    if s.len() == 0 {
        Seq::empty()
    } else {
        encode_char(s[0]) + encode_key_spec(s.drop_first())
    }
}

/// The decoder that witnesses injectivity: a safe character stands for
/// itself, `_` opens a six-digit escape, and anything else is no encoding.
pub open spec fn decode_key_spec(s: Seq<char>) -> Option<Seq<char>>
    decreases s.len(),
{
    if s.len() == 0 {
        Some(Seq::empty())
    } else if s[0] == '_' {
        if s.len() >= 7 && all_hex(s.subrange(1, 7)) && is_scalar(hex_value(s.subrange(1, 7)) as u32) {
            match decode_key_spec(s.skip(7)) {
                Some(rest) => Some(seq![(hex_value(s.subrange(1, 7)) as u32) as char] + rest),
                None => None,
            }
        } else {
            None
        }
    } else if is_safe_char(s[0]) {
        match decode_key_spec(s.drop_first()) {
            Some(rest) => Some(seq![s[0]] + rest),
            None => None,
        }
    } else {
        None
    }
}

/// 16 to the `w`th.
pub open spec fn pow16(w: nat) -> int
    decreases w,
{
    if w == 0 {
        1
    } else {
        16 * pow16((w - 1) as nat)
    }
}

proof fn lemma_hex_fixed_len_and_digits(u: int, w: nat)
    requires
        0 <= u,
    ensures
        hex_fixed(u, w).len() == w,
        all_hex(hex_fixed(u, w)),
    decreases w,
{
    if w > 0 {
        lemma_hex_fixed_len_and_digits(u / 16, (w - 1) as nat);
        assert(0 <= u % 16 < 16);
        assert(is_hex_digit(hex_digit_char(u % 16)));
        assert(forall|i: int|
            0 <= i < w ==> #[trigger] hex_fixed(u, w)[i] == if i < w - 1 {
                hex_fixed(u / 16, (w - 1) as nat)[i]
            } else {
                hex_digit_char(u % 16)
            });
    }
}

proof fn lemma_hex_fixed_value(u: int, w: nat)
    requires
        0 <= u < pow16(w),
    ensures
        hex_value(hex_fixed(u, w)) == u,
    decreases w,
{
    if w == 0 {
        assert(u == 0);
    } else {
        lemma_pow16_pos((w - 1) as nat);
        if u / 16 >= pow16((w - 1) as nat) {
            assert(u == 16 * (u / 16) + u % 16);
            assert(16 * (u / 16) >= 16 * pow16((w - 1) as nat));
            assert(false);
        }
        lemma_hex_fixed_value(u / 16, (w - 1) as nat);
        let prefix = hex_fixed(u / 16, (w - 1) as nat);
        assert(hex_fixed(u, w).drop_last() =~= prefix);
        assert(hex_fixed(u, w).last() == hex_digit_char(u % 16));
        assert(crate::present::hex_digit_val(hex_digit_char(u % 16)) == u % 16);
        assert(hex_value(hex_fixed(u, w)) == u / 16 * 16 + u % 16);
    }
}

proof fn lemma_pow16_pos(w: nat)
    ensures
        pow16(w) >= 1,
    decreases w,
{
    if w > 0 {
        lemma_pow16_pos((w - 1) as nat);
    }
}

proof fn lemma_safe_is_not_underscore(c: char)
    requires
        is_safe_char(c),
    ensures
        c != '_',
{
    if c == '_' {
        char_u32_cast(c, c as u32);
        assert(c as u32 == 95) by {
            assert('_' as u32 == 95);
        }
        assert(!is_safe_char(c));
    }
}

/// Decoding undoes encoding: the encoder never loses a key.
pub proof fn lemma_decode_encode(s: Seq<char>)
    ensures
        decode_key_spec(encode_key_spec(s)) == Some(s),
    decreases s.len(),
{
    if s.len() == 0 {
    } else {
        let c = s[0];
        let rest = s.drop_first();
        lemma_decode_encode(rest);
        let e = encode_key_spec(s);
        assert(e == encode_char(c) + encode_key_spec(rest));
        if is_safe_char(c) {
            assert(e[0] == c);
            lemma_safe_is_not_underscore(c);
            assert(e.drop_first() =~= encode_key_spec(rest));
            assert(seq![c] + rest =~= s);
        } else {
            char_is_scalar(c);
            assert(c as u32 <= 0x10FFFF < pow16(6)) by {
                reveal_with_fuel(pow16, 7);
            }
            lemma_hex_fixed_len_and_digits(c as u32 as int, 6);
            assert(e[0] == '_');
            assert(e.len() >= 7);
            assert(e.subrange(1, 7) =~= hex_fixed(c as u32 as int, 6));
            lemma_hex_fixed_value(c as u32 as int, 6);
            assert(hex_value(e.subrange(1, 7)) == c as u32);
            assert(is_scalar(hex_value(e.subrange(1, 7)) as u32));
            assert(e.skip(7) =~= encode_key_spec(rest));
            char_u32_cast(c, c as u32);
            assert((hex_value(e.subrange(1, 7)) as u32) as char == c);
            assert(seq![c] + rest =~= s);
        }
    }
}

/// Key encoding is injective: two different keys never resolve to the same
/// cache file.
pub proof fn lemma_encode_key_injective(a: Seq<char>, b: Seq<char>)
    requires
        encode_key_spec(a) == encode_key_spec(b),
    ensures
        a == b,
{
    lemma_decode_encode(a);
    lemma_decode_encode(b);
}

/// A key made of safe characters — every real language code — encodes to
/// itself, so its cache file keeps the plain `<code>.json` name.
pub proof fn lemma_safe_key_encodes_to_itself(s: Seq<char>)
    requires
        forall|i: int| 0 <= i < s.len() ==> is_safe_char(s[i]),
    ensures
        encode_key_spec(s) == s,
    decreases s.len(),
{
    if s.len() > 0 {
        lemma_safe_key_encodes_to_itself(s.drop_first());
        assert(encode_key_spec(s) =~= seq![s[0]] + s.drop_first());
        assert(seq![s[0]] + s.drop_first() =~= s);
    }
}

/// Every character of an encoded key is a safe character or the escape
/// marker `_`: nothing path-unsafe ever reaches a file name.
pub proof fn lemma_encoded_key_is_safe(s: Seq<char>)
    ensures
        forall|i: int|
            0 <= i < encode_key_spec(s).len() ==> is_safe_char(#[trigger] encode_key_spec(s)[i])
                || encode_key_spec(s)[i] == '_',
    decreases s.len(),
{
    if s.len() > 0 {
        lemma_encoded_key_is_safe(s.drop_first());
        let c = s[0];
        if !is_safe_char(c) {
            char_is_scalar(c);
            lemma_hex_fixed_len_and_digits(c as u32 as int, 6);
            assert(forall|i: int|
                0 <= i < encode_char(c).len() ==> is_safe_char(#[trigger] encode_char(c)[i])
                    || encode_char(c)[i] == '_') by {
                assert(forall|i: int|
                    1 <= i < 7 ==> #[trigger] encode_char(c)[i] == hex_fixed(
                        c as u32 as int,
                        6,
                    )[i - 1]);
                assert(forall|i: int|
                    0 <= i < 6 ==> is_hex_digit(#[trigger] hex_fixed(c as u32 as int, 6)[i]));
                assert(forall|d: char| is_hex_digit(d) ==> is_safe_char(d) || d == '_');
            }
        }
        assert(forall|i: int|
            0 <= i < encode_key_spec(s).len() ==> #[trigger] encode_key_spec(s)[i] == if i
                < encode_char(c).len() {
                encode_char(c)[i]
            } else {
                encode_key_spec(s.drop_first())[i - encode_char(c).len()]
            });
    }
}

proof fn lemma_encode_push(s: Seq<char>, c: char)
    ensures
        encode_key_spec(s.push(c)) == encode_key_spec(s) + encode_char(c),
    decreases s.len(),
{
    if s.len() == 0 {
        assert(s.push(c)[0] == c);
        assert(s.push(c).drop_first() =~= Seq::<char>::empty());
        assert(encode_key_spec(s.push(c).drop_first()) == Seq::<char>::empty());
        assert(encode_key_spec(s.push(c)) == encode_char(c) + encode_key_spec(
            s.push(c).drop_first(),
        ));
        assert(encode_key_spec(s) == Seq::<char>::empty());
        assert(encode_char(c) + Seq::<char>::empty() =~= Seq::<char>::empty() + encode_char(c));
    } else {
        assert(s.push(c)[0] == s[0]);
        assert(s.push(c).drop_first() =~= s.drop_first().push(c));
        lemma_encode_push(s.drop_first(), c);
        assert(encode_char(s[0]) + (encode_key_spec(s.drop_first()) + encode_char(c)) =~= (
        encode_char(s[0]) + encode_key_spec(s.drop_first())) + encode_char(c));
    }
}

/// Relies on `String::push`: appends exactly one character.
#[verifier::external_body]
fn push_char(s: &mut String, c: char)
    ensures
        final(s)@ == old(s)@.push(c),
{
    s.push(c);
}

/// The lowercase hex digit for a value below 16.
fn hex_char_of(d: u32) -> (c: char)
    requires
        d < 16,
    ensures
        c == hex_digit_char(d as int),
{
    if d == 0 {
        '0'
    } else if d == 1 {
        '1'
    } else if d == 2 {
        '2'
    } else if d == 3 {
        '3'
    } else if d == 4 {
        '4'
    } else if d == 5 {
        '5'
    } else if d == 6 {
        '6'
    } else if d == 7 {
        '7'
    } else if d == 8 {
        '8'
    } else if d == 9 {
        '9'
    } else if d == 10 {
        'a'
    } else if d == 11 {
        'b'
    } else if d == 12 {
        'c'
    } else if d == 13 {
        'd'
    } else if d == 14 {
        'e'
    } else {
        'f'
    }
}

/// Append the `w` big-endian hex digits of `u` to `out`.
fn push_hex(out: &mut String, u: u32, w: u8)
    ensures
        final(out)@ == old(out)@ + hex_fixed(u as int, w as nat),
    decreases w,
{
    if w == 0 {
        proof {
            assert(old(out)@ + hex_fixed(u as int, 0) =~= old(out)@);
        }
    } else {
        push_hex(out, u / 16, w - 1);
        let c = hex_char_of(u % 16);
        push_char(out, c);
        proof {
            assert((old(out)@ + hex_fixed(u as int / 16, (w - 1) as nat)).push(c) =~= old(out)@
                + hex_fixed(u as int, w as nat));
        }
    }
}

/// Whether `c` may stand for itself in a file name stem.
pub fn is_safe_char_exec(c: char) -> (r: bool)
    ensures
        r == is_safe_char(c),
{
    let u = c as u32;
    ('a' as u32 <= u && u <= 'z' as u32) || ('A' as u32 <= u && u <= 'Z' as u32) || ('0' as u32
        <= u && u <= '9' as u32) || c == '-'
}

/// Encode a cache key into its filesystem-safe file name stem.
pub fn encode_key(key: &str) -> (r: String)
    ensures
        r@ == encode_key_spec(key@),
{
    let n: usize = key.unicode_len();
    let mut out = String::new();
    let mut i: usize = 0;
    proof {
        assert(key@.subrange(0, 0) =~= Seq::<char>::empty());
    }
    while i < n
        invariant
            i <= n,
            n == key@.len(),
            out@ == encode_key_spec(key@.subrange(0, i as int)),
        decreases n - i,
    {
        let c = key.get_char(i);
        if is_safe_char_exec(c) {
            push_char(&mut out, c);
            proof {
                assert(encode_key_spec(key@.subrange(0, i as int)) + encode_char(c)
                    =~= encode_key_spec(key@.subrange(0, i as int)).push(c));
            }
        } else {
            push_char(&mut out, '_');
            let u = c as u32;
            push_hex(&mut out, u, 6);
            proof {
                assert((encode_key_spec(key@.subrange(0, i as int)).push('_')) + hex_fixed(
                    u as int,
                    6,
                ) =~= encode_key_spec(key@.subrange(0, i as int)) + encode_char(c));
            }
        }
        proof {
            assert(key@.subrange(0, i as int + 1) =~= key@.subrange(0, i as int).push(
                key@[i as int],
            ));
            lemma_encode_push(key@.subrange(0, i as int), key@[i as int]);
        }
        i = i + 1;
    }
    proof {
        assert(key@.subrange(0, n as int) =~= key@);
    }
    out
}

} // verus!
