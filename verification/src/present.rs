//! Verified compute behind the presenter: picking the latest usage figure
//! of a word record, and decoding a UCSUR codepoint notation such as
//! `U+F1900` into the character it names. Rendering itself (color, layout)
//! stays outside the library.

use vstd::prelude::*;
use vstd::string::StrSliceExecFns;

verus! {

/// Lexicographic order on character sequences, by code point — the order
/// in which string keys sort.
pub open spec fn lex_le(a: Seq<char>, b: Seq<char>) -> bool
    decreases a.len(),
{
    if a.len() == 0 {
        true
    } else if b.len() == 0 {
        false
    } else if a[0] == b[0] {
        lex_le(a.drop_first(), b.drop_first())
    } else {
        (a[0] as u32) < (b[0] as u32)
    }
}

/// `lex_le` is reflexive.
pub proof fn lemma_lex_le_refl(a: Seq<char>)
    ensures
        lex_le(a, a),
    decreases a.len(),
{
    if a.len() > 0 {
        lemma_lex_le_refl(a.drop_first());
    }
}

/// `lex_le` is total: any two sequences compare one way or the other.
pub proof fn lemma_lex_le_total(a: Seq<char>, b: Seq<char>)
    ensures
        lex_le(a, b) || lex_le(b, a),
    decreases a.len(),
{
    if a.len() == 0 {
    } else if b.len() == 0 {
    } else if a[0] == b[0] {
        lemma_lex_le_total(a.drop_first(), b.drop_first());
    } else {
        if (a[0] as u32) == (b[0] as u32) {
            vstd::utf8::char_u32_cast(a[0], a[0] as u32);
            vstd::utf8::char_u32_cast(b[0], b[0] as u32);
            assert(a[0] == b[0]);
        }
    }
}

/// `lex_le` is transitive.
pub proof fn lemma_lex_le_trans(a: Seq<char>, b: Seq<char>, c: Seq<char>)
    requires
        lex_le(a, b),
        lex_le(b, c),
    ensures
        lex_le(a, c),
    decreases a.len(),
{
    if a.len() == 0 {
    } else if b.len() == 0 {
        assert(false);
    } else if c.len() == 0 {
        assert(false);
    } else if a[0] == b[0] && b[0] == c[0] {
        lemma_lex_le_trans(a.drop_first(), b.drop_first(), c.drop_first());
    }
}

/// Compare two strings in lexicographic code-point order.
pub fn str_le(a: &str, b: &str) -> (r: bool)
    ensures
        r == lex_le(a@, b@),
{
    let a_len: usize = a.unicode_len();
    let b_len: usize = b.unicode_len();
    let mut i: usize = 0;
    proof {
        assert(a@.skip(0) =~= a@);
        assert(b@.skip(0) =~= b@);
    }
    loop
        invariant
            i <= a_len,
            i <= b_len,
            a_len == a@.len(),
            b_len == b@.len(),
            lex_le(a@, b@) == lex_le(a@.skip(i as int), b@.skip(i as int)),
        decreases a_len - i,
    {
        if i >= a_len {
            proof {
                assert(a@.skip(i as int).len() == 0);
            }
            return true;
        }
        if i >= b_len {
            proof {
                assert(b@.skip(i as int).len() == 0);
                assert(a@.skip(i as int).len() > 0);
            }
            return false;
        }
        let ca = a.get_char(i);
        let cb = b.get_char(i);
        if ca != cb {
            proof {
                assert(a@.skip(i as int)[0] == a@[i as int]);
                assert(b@.skip(i as int)[0] == b@[i as int]);
            }
            return (ca as u32) < (cb as u32);
        }
        proof {
            assert(a@.skip(i as int)[0] == a@[i as int]);
            assert(b@.skip(i as int)[0] == b@[i as int]);
            assert(a@.skip(i as int).drop_first() =~= a@.skip(i as int + 1));
            assert(b@.skip(i as int).drop_first() =~= b@.skip(i as int + 1));
        }
        i = i + 1;
    }
}

/// The usage figure shown for a word: the value recorded under the
/// lexicographically greatest key of its usage table (the keys are dated,
/// so the greatest key is the most recent survey), or 0 when the table is
/// empty. The entries arrive in no particular order.
pub fn get_usage_percentage(usage: Vec<(String, u8)>) -> (r: u8)
    ensures
        usage@.len() == 0 ==> r == 0,
        usage@.len() > 0 ==> exists|i: int|
            0 <= i < usage@.len() && r == usage@[i].1 && (forall|j: int|
                0 <= j < usage@.len() ==> lex_le(usage@[j].0@, usage@[i].0@)),
{
    if usage.len() == 0 {
        return 0;
    }
    let mut best: usize = 0;
    let mut k: usize = 1;
    proof {
        lemma_lex_le_refl(usage@[0].0@);
    }
    while k < usage.len()
        invariant
            best < k,
            k <= usage@.len(),
            forall|j: int| 0 <= j < k ==> lex_le(usage@[j].0@, usage@[best as int].0@),
        decreases usage@.len() - k,
    {
        if str_le(usage[best].0.as_str(), usage[k].0.as_str()) {
            proof {
                assert forall|j: int| 0 <= j < k + 1 implies lex_le(
                    usage@[j].0@,
                    usage@[k as int].0@,
                ) by {
                    if j < k {
                        lemma_lex_le_trans(
                            usage@[j].0@,
                            usage@[best as int].0@,
                            usage@[k as int].0@,
                        );
                    } else {
                        lemma_lex_le_refl(usage@[k as int].0@);
                    }
                }
            }
            best = k;
        } else {
            proof {
                lemma_lex_le_total(usage@[best as int].0@, usage@[k as int].0@);
            }
        }
        k = k + 1;
    }
    let r = usage[best].1;
    proof {
        assert(0 <= best < usage@.len() && r == usage@[best as int].1 && (forall|j: int|
            0 <= j < usage@.len() ==> lex_le(usage@[j].0@, usage@[best as int].0@)));
    }
    r
}

/// The notation's text with every leading `U+` marker removed, however
/// often it repeats.
pub open spec fn strip_code_prefix(s: Seq<char>) -> Seq<char>
    decreases s.len(),
{
    if s.len() >= 2 && s[0] == 'U' && s[1] == '+' {
        strip_code_prefix(s.skip(2))
    } else {
        s
    }
}

/// Whether `c` is a hexadecimal digit.
pub open spec fn is_hex_digit(c: char) -> bool {
    ('0' as u32 <= c as u32 && c as u32 <= '9' as u32) || ('a' as u32 <= c as u32 && c as u32
        <= 'f' as u32) || ('A' as u32 <= c as u32 && c as u32 <= 'F' as u32)
}

/// The numeric value of a hexadecimal digit (meaningful for hex digits).
pub open spec fn hex_digit_val(c: char) -> int {
    if '0' as u32 <= c as u32 && c as u32 <= '9' as u32 {
        c as u32 - '0' as u32
    } else if 'a' as u32 <= c as u32 && c as u32 <= 'f' as u32 {
        c as u32 - 'a' as u32 + 10
    } else {
        c as u32 - 'A' as u32 + 10
    }
}

/// Whether every character of `s` is a hexadecimal digit.
pub open spec fn all_hex(s: Seq<char>) -> bool {
    forall|i: int| 0 <= i < s.len() ==> is_hex_digit(s[i])
}

/// The number a big-endian string of hexadecimal digits denotes.
pub open spec fn hex_value(s: Seq<char>) -> int
    decreases s.len(),
{
    if s.len() == 0 {
        0
    } else {
        hex_value(s.drop_last()) * 16 + hex_digit_val(s.last())
    }
}

/// The digit part of the notation: the text after the `U+` markers, less
/// one optional leading plus sign (which a numeric parse accepts).
pub open spec fn hex_body(s: Seq<char>) -> Seq<char> {
    let t = strip_code_prefix(s);
    if t.len() > 0 && t[0] == '+' {
        t.drop_first()
    } else {
        t
    }
}

/// The scalar a UCSUR notation denotes: the value of its digit part, if
/// that part is a nonempty string of hex digits whose value fits in 32
/// bits.
pub open spec fn ucsur_scalar(s: Seq<char>) -> Option<u32> {
    let body = hex_body(s);
    if body.len() > 0 && all_hex(body) && hex_value(body) <= u32::MAX {
        Some(hex_value(body) as u32)
    } else {
        None
    }
}

/// The character a UCSUR notation names: its scalar, when that scalar is a
/// valid Unicode scalar value.
pub open spec fn ucsur_char_spec(s: Seq<char>) -> Option<char> {
    match ucsur_scalar(s) {
        Some(u) => if vstd::utf8::is_scalar(u) {
            Some(u as char)
        } else {
            None
        },
        None => None,
    }
}

/// Relies on `char::from_u32`: it returns the character for every valid
/// Unicode scalar value and `None` for surrogates and values past the
/// Unicode range.
pub assume_specification[ char::from_u32 ](u: u32) -> (r: Option<char>)
    ensures
        vstd::utf8::is_scalar(u) ==> r == Some(u as char),
        !vstd::utf8::is_scalar(u) ==> r is None,
;

proof fn lemma_strip_step(s: Seq<char>, i: int)
    requires
        0 <= i,
        i + 2 <= s.len(),
        s[i] == 'U',
        s[i + 1] == '+',
    ensures
        strip_code_prefix(s.skip(i)) == strip_code_prefix(s.skip(i + 2)),
{
    assert(s.skip(i)[0] == s[i]);
    assert(s.skip(i)[1] == s[i + 1]);
    assert(s.skip(i).skip(2) =~= s.skip(i + 2));
}

proof fn lemma_strip_done(t: Seq<char>)
    requires
        !(t.len() >= 2 && t[0] == 'U' && t[1] == '+'),
    ensures
        strip_code_prefix(t) == t,
{
}

proof fn lemma_hex_value_nonneg(s: Seq<char>)
    requires
        all_hex(s),
    ensures
        hex_value(s) >= 0,
    decreases s.len(),
{
    if s.len() > 0 {
        assert(all_hex(s.drop_last()));
        lemma_hex_value_nonneg(s.drop_last());
        assert(is_hex_digit(s.last()));
        assert(hex_digit_val(s.last()) >= 0);
    }
}

/// A prefix of a hex string never denotes more than the whole string.
proof fn lemma_hex_value_mono(s: Seq<char>, m: int)
    requires
        0 <= m <= s.len(),
        all_hex(s),
    ensures
        hex_value(s.subrange(0, m)) <= hex_value(s),
    decreases s.len() - m,
{
    if m == s.len() {
        assert(s.subrange(0, m) =~= s);
    } else {
        assert(s.subrange(0, m + 1).drop_last() =~= s.subrange(0, m));
        assert(s.subrange(0, m + 1).last() == s[m]);
        assert(is_hex_digit(s[m]));
        assert(all_hex(s.subrange(0, m))) by {
            assert(forall|i: int|
                0 <= i < m ==> #[trigger] s.subrange(0, m)[i] == s[i] && is_hex_digit(s[i]));
        }
        lemma_hex_value_nonneg(s.subrange(0, m));
        assert(hex_value(s.subrange(0, m + 1)) == hex_value(s.subrange(0, m)) * 16
            + hex_digit_val(s[m]));
        assert(hex_value(s.subrange(0, m)) <= hex_value(s.subrange(0, m + 1)));
        lemma_hex_value_mono(s, m + 1);
    }
}

/// Decode a UCSUR codepoint notation, such as `U+F1900`, into the
/// character it names: strip the leading `U+` markers, read the rest as a
/// hexadecimal number, and look the scalar up. `None` exactly when the
/// digit part is empty, holds a non-digit, or does not name a Unicode
/// scalar value.
pub fn ucsur_char(s: &str) -> (r: Option<char>)
    ensures
        r == ucsur_char_spec(s@),
{
    let n: usize = s.unicode_len();
    let mut i: usize = 0;
    proof {
        assert(s@.skip(0) =~= s@);
    }
    loop
        invariant
            i <= n,
            n == s@.len(),
            strip_code_prefix(s@) == strip_code_prefix(s@.skip(i as int)),
        ensures
            i <= n,
            strip_code_prefix(s@) == s@.skip(i as int),
        decreases n - i,
    {
        if n - i < 2 {
            proof {
                lemma_strip_done(s@.skip(i as int));
            }
            break ;
        }
        let c0 = s.get_char(i);
        if c0 != 'U' {
            proof {
                assert(s@.skip(i as int)[0] == s@[i as int]);
                lemma_strip_done(s@.skip(i as int));
            }
            break ;
        }
        let c1 = s.get_char(i + 1);
        if c1 != '+' {
            proof {
                assert(s@.skip(i as int)[0] == s@[i as int]);
                assert(s@.skip(i as int)[1] == s@[i as int + 1]);
                lemma_strip_done(s@.skip(i as int));
            }
            break ;
        }
        proof {
            lemma_strip_step(s@, i as int);
        }
        i = i + 2;
    }
    proof {
        assert(strip_code_prefix(s@) == s@.skip(i as int));
    }
    let mut j: usize = i;
    if j < n {
        let c = s.get_char(j);
        if c == '+' {
            proof {
                assert(s@.skip(j as int)[0] == s@[j as int]);
                assert(s@.skip(j as int).drop_first() =~= s@.skip(j as int + 1));
            }
            j = j + 1;
        } else {
            proof {
                assert(s@.skip(j as int)[0] == s@[j as int]);
            }
        }
    }
    proof {
        assert(hex_body(s@) =~= s@.skip(j as int));
    }
    if j == n {
        proof {
            assert(hex_body(s@).len() == 0);
        }
        return None;
    }
    let mut val: u64 = 0;
    let mut k: usize = j;
    proof {
        assert(s@.subrange(j as int, j as int) =~= Seq::<char>::empty());
    }
    while k < n
        invariant
            j <= k <= n,
            j < n,
            n == s@.len(),
            hex_body(s@) == s@.skip(j as int),
            all_hex(s@.subrange(j as int, k as int)),
            val as int == hex_value(s@.subrange(j as int, k as int)),
            val <= u32::MAX as u64,
        decreases n - k,
    {
        let c = s.get_char(k);
        let cu: u32 = c as u32;
        let d: u32 = if '0' as u32 <= cu && cu <= '9' as u32 {
            cu - '0' as u32
        } else if 'a' as u32 <= cu && cu <= 'f' as u32 {
            cu - 'a' as u32 + 10
        } else if 'A' as u32 <= cu && cu <= 'F' as u32 {
            cu - 'A' as u32 + 10
        } else {
            proof {
                assert(!is_hex_digit(s@[k as int]));
                assert(hex_body(s@)[k as int - j as int] == s@[k as int]);
                assert(!all_hex(hex_body(s@)));
            }
            return None;
        };
        let nv: u64 = val * 16 + d as u64;
        proof {
            assert(is_hex_digit(s@[k as int]));
            assert(d as int == hex_digit_val(s@[k as int]));
            assert(s@.subrange(j as int, k as int + 1).drop_last() =~= s@.subrange(
                j as int,
                k as int,
            ));
            assert(s@.subrange(j as int, k as int + 1).last() == s@[k as int]);
            assert(nv as int == hex_value(s@.subrange(j as int, k as int + 1)));
            assert(all_hex(s@.subrange(j as int, k as int + 1))) by {
                assert(forall|t: int|
                    0 <= t < k as int + 1 - j as int ==> #[trigger] s@.subrange(
                        j as int,
                        k as int + 1,
                    )[t] == s@[j as int + t]);
            }
        }
        if nv > u32::MAX as u64 {
            proof {
                if all_hex(hex_body(s@)) {
                    assert(hex_body(s@).subrange(0, k as int + 1 - j as int) =~= s@.subrange(
                        j as int,
                        k as int + 1,
                    ));
                    lemma_hex_value_mono(hex_body(s@), k as int + 1 - j as int);
                    assert(hex_value(hex_body(s@)) > u32::MAX);
                }
            }
            return None;
        }
        val = nv;
        k = k + 1;
    }
    proof {
        assert(s@.subrange(j as int, n as int) =~= s@.skip(j as int));
        assert(all_hex(hex_body(s@)));
        assert(val as int == hex_value(hex_body(s@)));
        assert(hex_body(s@).len() > 0);
        assert(ucsur_scalar(s@) == Some(val as u32));
    }
    char::from_u32(val as u32)
}

} // verus!
