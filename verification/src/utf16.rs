//! UTF-16, the encoding that the Windows calls of the backup driver take and
//! give: encoding text for the tray tooltip, decoding the NUL-padded buffers
//! that hold the executable's path and the computer's name.
use vstd::prelude::*;
use crate::text::{trim_end_char, trim_end_char_exec};

verus! {

/// The character takes one UTF-16 code unit (it lies in the Basic Multilingual Plane).
pub open spec fn is_bmp(c: char) -> bool {
    (c as u32) < 0x10000
}

/// The UTF-16 code units of one character.
pub open spec fn utf16_of_char(c: char) -> Seq<u16> {
    let u = c as u32;
    if u < 0x10000 {
        seq![u as u16]
    } else {
        let v = (u - 0x10000) as int;
        seq![(0xD800 + v / 0x400) as u16, (0xDC00 + v % 0x400) as u16]
    }
}

/// The UTF-16 encoding of a text (what `str::encode_utf16` yields).
pub open spec fn utf16_of(s: Seq<char>) -> Seq<u16>
    decreases s.len(),
{
    if s.len() == 0 {
        Seq::empty()
    } else {
        utf16_of(s.drop_last()) + utf16_of_char(s.last())
    }
}

/// The text whose UTF-16 encoding is `v`, if there is one.
pub open spec fn utf16_decoding(v: Seq<u16>) -> Option<Seq<char>> {
    if exists|s: Seq<char>| utf16_of(s) == v {
        Some(choose|s: Seq<char>| utf16_of(s) == v)
    } else {
        None
    }
}

/// The encoding of a text is the encodings of its parts, one after the other.
pub proof fn lemma_utf16_concat(a: Seq<char>, b: Seq<char>)
    ensures
        utf16_of(a + b) == utf16_of(a) + utf16_of(b),
    decreases b.len(),
{
    if b.len() == 0 {
        assert(a + b =~= a);
    } else {
        lemma_utf16_concat(a, b.drop_last());
        assert((a + b).drop_last() =~= a + b.drop_last());
        assert((a + b).last() == b.last());
    }
}

/// A character of the Basic Multilingual Plane is one unit, its own value;
/// any other character is a leading and a trailing surrogate that together
/// stand for its value.
pub proof fn lemma_utf16_of_one_char(c: char)
    ensures
        utf16_of(seq![c]) == utf16_of_char(c),
        (c as u32) < 0x10000 ==> utf16_of_char(c).len() == 1 && utf16_of_char(c)[0] as u32 == c as u32,
        (c as u32) >= 0x10000 ==> utf16_of_char(c).len() == 2 && is_high_surrogate(utf16_of_char(c)[0])
            && is_low_surrogate(utf16_of_char(c)[1]) && pair_value(utf16_of_char(c)[0], utf16_of_char(c)[1])
            == c as u32,
{
    assert(seq![c].drop_last() =~= Seq::<char>::empty());
    assert(seq![c].last() == c);
    assert(utf16_of(Seq::<char>::empty()) == Seq::<u16>::empty());
    assert(Seq::<u16>::empty() + utf16_of_char(c) =~= utf16_of_char(c));
    lemma_char_range(c);
    let u = c as u32;
    if u < 0x10000 {
        assert(u < 0x10000 ==> (u as u16) as u32 == u) by (bit_vector);
    } else {
        let w = (u - 0x10000) as int;
        lemma_pair_units(w);
    }
}

/// The unit is a leading surrogate.
pub open spec fn is_high_surrogate(u: u16) -> bool {
    0xD800 <= u <= 0xDBFF
}

/// The unit is a trailing surrogate.
pub open spec fn is_low_surrogate(u: u16) -> bool {
    0xDC00 <= u <= 0xDFFF
}

/// The code point a surrogate pair stands for.
pub open spec fn pair_value(high: u16, low: u16) -> int {
    0x10000 + (high - 0xD800) * 0x400 + (low - 0xDC00)
}

/// Decoding UTF-16 from its end: a unit that is no surrogate is a
/// character; a trailing surrogate after a leading one is a pair; any
/// other surrogate makes the whole input invalid.
pub open spec fn decode_utf16_spec(v: Seq<u16>) -> Option<Seq<char>>
    decreases v.len(),
{
    if v.len() == 0 {
        Some(Seq::empty())
    } else {
        let u = v.last();
        if is_low_surrogate(u) {
            if v.len() >= 2 && is_high_surrogate(v[v.len() - 2]) {
                match decode_utf16_spec(v.take(v.len() - 2)) {
                    Some(t) => Some(t.push(pair_value(v[v.len() - 2], u) as char)),
                    None => None,
                }
            } else {
                None
            }
        } else if is_high_surrogate(u) {
            None
        } else {
            match decode_utf16_spec(v.drop_last()) {
                Some(t) => Some(t.push(u as char)),
                None => None,
            }
        }
    }
}

/// The character of a Unicode scalar value (`char::from_u32`). Its
/// documentation: it returns `None` where the value is no valid `char`,
/// that is, a surrogate or above U+10FFFF; else the character of that value.
#[verifier::external_body]
fn char_from_u32(x: u32) -> (res: Option<char>)
    ensures
        res is Some <==> (x <= 0x10FFFF && !(0xD800 <= x <= 0xDFFF)),
        res matches Some(c) ==> c as u32 == x,
{
    char::from_u32(x)
}

proof fn lemma_char_range(c: char)
    ensures
        (c as u32) <= 0x10FFFF,
        !(0xD800 <= (c as u32) <= 0xDFFF),
{
    vstd::utf8::char_is_scalar(c);
}

proof fn lemma_utf16_of_char(c: char)
    ensures
        is_bmp(c) ==> utf16_of_char(c).len() == 1 && !(0xDC00 <= utf16_of_char(c)[0] <= 0xDFFF),
        !is_bmp(c) ==> utf16_of_char(c).len() == 2 && 0xDC00 <= utf16_of_char(c)[1] <= 0xDFFF,
{
    lemma_char_range(c);
}

proof fn lemma_utf16_of_char_injective(c: char, d: char)
    requires
        utf16_of_char(c) == utf16_of_char(d),
    ensures
        c == d,
{
    lemma_char_range(c);
    lemma_char_range(d);
    let u = c as u32;
    let w = d as u32;
    if u < 0x10000 && w < 0x10000 {
        assert(utf16_of_char(c)[0] == utf16_of_char(d)[0]);
        assert(u < 0x10000 ==> (u as u16) as u32 == u) by (bit_vector);
        assert(w < 0x10000 ==> (w as u16) as u32 == w) by (bit_vector);
        assert(utf16_of_char(c)[0] == u as u16);
        assert(utf16_of_char(d)[0] == w as u16);
        assert((u as u16) == (w as u16));
        assert(u == w);
    } else if u >= 0x10000 && w >= 0x10000 {
        let a = (u - 0x10000) as int;
        let b = (w - 0x10000) as int;
        assert(utf16_of_char(c)[0] == utf16_of_char(d)[0]);
        assert(utf16_of_char(c)[1] == utf16_of_char(d)[1]);
        assert(0 <= a / 0x400 < 0x400);
        assert(0 <= b / 0x400 < 0x400);
        assert(a / 0x400 == b / 0x400);
        assert(a % 0x400 == b % 0x400);
        lemma_div_mod_parts(a, b);
        assert(a == b);
        assert(a == u - 0x10000);
        assert(b == w - 0x10000);
        assert(u == w);
    } else {
        assert(utf16_of_char(c).len() != utf16_of_char(d).len());
    }
    assert((c as u32) == (d as u32));
    vstd::utf8::char_u32_cast(c, c as u32);
    vstd::utf8::char_u32_cast(d, d as u32);
}

proof fn lemma_div_mod_parts(a: int, b: int)
    requires
        a / 0x400 == b / 0x400,
        a % 0x400 == b % 0x400,
    ensures
        a == b,
{
    assert(a == 0x400 * (a / 0x400) + a % 0x400) by (nonlinear_arith);
    assert(b == 0x400 * (b / 0x400) + b % 0x400) by (nonlinear_arith);
}

/// Two texts with the same UTF-16 encoding are the same text.
pub proof fn lemma_utf16_injective(s: Seq<char>, t: Seq<char>)
    requires
        utf16_of(s) == utf16_of(t),
    ensures
        s == t,
    decreases s.len() + t.len(),
{
    if s.len() == 0 || t.len() == 0 {
        if s.len() > 0 {
            lemma_utf16_of_char(s.last());
            assert(utf16_of(s).len() >= utf16_of_char(s.last()).len());
        }
        if t.len() > 0 {
            lemma_utf16_of_char(t.last());
            assert(utf16_of(t).len() >= utf16_of_char(t.last()).len());
        }
        assert(s =~= t);
    } else {
        let a = s.last();
        let b = t.last();
        let v = utf16_of(s);
        lemma_utf16_of_char(a);
        lemma_utf16_of_char(b);
        let ea = utf16_of_char(a);
        let eb = utf16_of_char(b);
        assert(v == utf16_of(s.drop_last()) + ea);
        assert(v == utf16_of(t.drop_last()) + eb);
        assert(v[v.len() - 1] == ea[ea.len() - 1]);
        assert(v[v.len() - 1] == eb[eb.len() - 1]);
        assert(ea.len() == eb.len());
        assert(v.subrange(v.len() - ea.len(), v.len() as int) == ea);
        assert(v.subrange(v.len() - eb.len(), v.len() as int) == eb);
        lemma_utf16_of_char_injective(a, b);
        assert(v.take(v.len() - ea.len()) == utf16_of(s.drop_last()));
        assert(v.take(v.len() - eb.len()) == utf16_of(t.drop_last()));
        lemma_utf16_injective(s.drop_last(), t.drop_last());
        assert(s == s.drop_last().push(a));
        assert(t == t.drop_last().push(b));
    }
}

/// Decoding the UTF-16 encoding of a text gives the text back.
pub proof fn lemma_utf16_decoding_of_encoding(s: Seq<char>)
    ensures
        utf16_decoding(utf16_of(s)) == Some(s),
{
    let v = utf16_of(s);
    assert(exists|t: Seq<char>| utf16_of(t) == v);
    let t = choose|t: Seq<char>| utf16_of(t) == v;
    lemma_utf16_injective(s, t);
}

/// The UTF-16 code units of `s`.
pub fn encode_utf16(s: &[char]) -> (res: Vec<u16>)
    ensures
        res@ == utf16_of(s@),
{
    let mut res: Vec<u16> = Vec::new();
    let mut i: usize = 0;
    while i < s.len()
        invariant
            i <= s@.len(),
            res@ == utf16_of(s@.take(i as int)),
        decreases s@.len() - i,
    {
        let c = s[i];
        let u = c as u32;
        proof {
            lemma_char_range(c);
        }
        let ghost before = res@;
        if u < 0x10000 {
            res.push(u as u16);
        } else {
            let v = u - 0x10000;
            res.push((0xD800 + v / 0x400) as u16);
            res.push((0xDC00 + v % 0x400) as u16);
        }
        assert(s@.take(i + 1).drop_last() == s@.take(i as int));
        assert(res@ == before + utf16_of_char(c));
        i = i + 1;
    }
    assert(s@.take(s@.len() as int) == s@);
    res
}

proof fn lemma_pair_units(w: int)
    requires
        0 <= w <= 0xFFFFF,
    ensures
        0 <= w / 0x400 <= 0x3FF,
        0 <= w % 0x400 <= 0x3FF,
        w == (w / 0x400) * 0x400 + w % 0x400,
{
    assert(0 <= w % 0x400 < 0x400 && w == (w / 0x400) * 0x400 + w % 0x400) by (nonlinear_arith)
        requires 0 <= w;
    assert((w / 0x400) * 0x400 <= w);
    assert(w / 0x400 <= 0x3FF) by (nonlinear_arith)
        requires 0 <= w <= 0xFFFFF, (w / 0x400) * 0x400 <= w, 0 <= w % 0x400 < 0x400, w == (w / 0x400) * 0x400 + w % 0x400;
}

proof fn lemma_split_pair(a: int, b: int)
    requires
        0 <= a <= 0x3FF,
        0 <= b <= 0x3FF,
    ensures
        (a * 0x400 + b) / 0x400 == a,
        (a * 0x400 + b) % 0x400 == b,
        a * 0x400 + b <= 0xFFFFF,
{
    assert((a * 0x400 + b) / 0x400 == a && (a * 0x400 + b) % 0x400 == b) by (nonlinear_arith)
        requires 0 <= a <= 0x3FF, 0 <= b <= 0x3FF;
    assert(a * 0x400 <= 0x3FF * 0x400) by (nonlinear_arith)
        requires 0 <= a <= 0x3FF;
}

/// What the decoder gives encodes to its input.
pub proof fn lemma_decode_utf16_sound(v: Seq<u16>)
    ensures
        decode_utf16_spec(v) matches Some(t) ==> utf16_of(t) == v,
    decreases v.len(),
{
    if v.len() > 0 {
        let u = v.last();
        if is_low_surrogate(u) {
            if v.len() >= 2 && is_high_surrogate(v[v.len() - 2]) {
                let h = v[v.len() - 2];
                lemma_decode_utf16_sound(v.take(v.len() - 2));
                if let Some(t) = decode_utf16_spec(v.take(v.len() - 2)) {
                    let a = h - 0xD800;
                    let b = u - 0xDC00;
                    lemma_split_pair(a as int, b as int);
                    let x = pair_value(h, u);
                    let c = x as char;
                    assert(0x10000 <= x <= 0x10FFFF);
                    assert((c as u32) == x);
                    let w = (c as u32 - 0x10000) as int;
                    assert(w == a * 0x400 + b);
                    assert(utf16_of_char(c) =~= seq![h, u]);
                    assert(t.push(c).drop_last() == t);
                    assert(v =~= v.take(v.len() - 2) + seq![h, u]);
                }
            }
        } else if !is_high_surrogate(u) {
            lemma_decode_utf16_sound(v.drop_last());
            if let Some(t) = decode_utf16_spec(v.drop_last()) {
                let c = u as char;
                assert((c as u32) == u);
                assert((u as u32) < 0x10000 ==> ((u as u32) as u16) == u) by (bit_vector);
                assert(utf16_of_char(c) =~= seq![u]);
                assert(t.push(c).drop_last() == t);
                assert(v =~= v.drop_last() + seq![u]);
            }
        }
    }
}

/// The decoder gives back every text from its encoding.
pub proof fn lemma_decode_utf16_complete(s: Seq<char>)
    ensures
        decode_utf16_spec(utf16_of(s)) == Some(s),
    decreases s.len(),
{
    if s.len() > 0 {
        let c = s.last();
        let rest = s.drop_last();
        lemma_decode_utf16_complete(rest);
        lemma_char_range(c);
        let v = utf16_of(s);
        let e = utf16_of_char(c);
        assert(v == utf16_of(rest) + e);
        let u = c as u32;
        if u < 0x10000 {
            assert(u < 0x10000 ==> (u as u16) as u32 == u) by (bit_vector);
            assert(v.last() == u as u16);
            assert(v.drop_last() =~= utf16_of(rest));
            vstd::utf8::char_u32_cast(c, u);
            assert((((u as u16) as u32) as char) == c);
            assert(s == rest.push(c));
        } else {
            let w = (u - 0x10000) as int;
            lemma_pair_units(w);
            let h = (0xD800 + w / 0x400) as u16;
            let l = (0xDC00 + w % 0x400) as u16;
            assert(e =~= seq![h, l]);
            assert(v.last() == l);
            assert(v[v.len() - 2] == h);
            assert(v.take(v.len() - 2) =~= utf16_of(rest));
            assert(pair_value(h, l) == u);
            vstd::utf8::char_u32_cast(c, u);
            assert(s == rest.push(c));
        }
    }
}

/// The decoding is the text whose encoding the input is.
pub proof fn lemma_decode_utf16_is_decoding(v: Seq<u16>)
    ensures
        decode_utf16_spec(v) == utf16_decoding(v),
{
    lemma_decode_utf16_sound(v);
    if let Some(t) = decode_utf16_spec(v) {
        lemma_utf16_decoding_of_encoding(t);
    } else {
        if exists|s: Seq<char>| utf16_of(s) == v {
            let s = choose|s: Seq<char>| utf16_of(s) == v;
            lemma_decode_utf16_complete(s);
        }
    }
}

/// Decodes UTF-16, as `String::from_utf16` does: the text whose encoding
/// `v` is, or `None` where there is none.
pub fn decode_utf16(v: &[u16]) -> (res: Option<Vec<char>>)
    ensures
        res is None <==> utf16_decoding(v@) is None,
        res matches Some(t) ==> utf16_decoding(v@) == Some(t@),
{
    proof {
        lemma_decode_utf16_is_decoding(v@);
    }
    let mut acc: Vec<char> = Vec::new();
    let mut i: usize = v.len();
    assert(v@.take(i as int) == v@);
    while i > 0
        invariant
            i <= v@.len(),
            decode_utf16_spec(v@) == utf16_decoding(v@),
            decode_utf16_spec(v@) == match decode_utf16_spec(v@.take(i as int)) {
                Some(t) => Some(t + acc@),
                None => None,
            },
        decreases i,
    {
        let ghost w = v@.take(i as int);
        let u = v[i - 1];
        assert(w.last() == u);
        if 0xDC00 <= u && u <= 0xDFFF {
            if i >= 2 && 0xD800 <= v[i - 2] && v[i - 2] <= 0xDBFF {
                let h = v[i - 2];
                assert(w[w.len() - 2] == h);
                assert(w.take(w.len() - 2) == v@.take(i - 2));
                let x: u32 = 0x10000 + ((h - 0xD800) as u32) * 0x400 + ((u - 0xDC00) as u32);
                proof {
                    lemma_split_pair((h - 0xD800) as int, (u - 0xDC00) as int);
                }
                assert(x == pair_value(h, u));
                let c = match char_from_u32(x) {
                    Some(c) => c,
                    None => {
                        return None;
                    },
                };
                proof {
                    vstd::utf8::char_u32_cast(c, x);
                }
                let ghost before = acc@;
                acc.insert(0, c);
                assert(acc@ == seq![c] + before);
                assert forall|t: Seq<char>| t.push(c) + before == t + acc@ by {
                    assert(t.push(c) + before =~= t + acc@);
                }
                i = i - 2;
            } else {
                assert(i >= 2 ==> w[w.len() - 2] == v@[i - 2]);
                return None;
            }
        } else if 0xD800 <= u && u <= 0xDBFF {
            return None;
        } else {
            assert(w.drop_last() == v@.take(i - 1));
            let c = match char_from_u32(u as u32) {
                Some(c) => c,
                None => {
                    return None;
                },
            };
            proof {
                vstd::utf8::char_u32_cast(c, u as u32);
            }
            let ghost before = acc@;
            acc.insert(0, c);
            assert(acc@ == seq![c] + before);
            assert forall|t: Seq<char>| t.push(c) + before == t + acc@ by {
                assert(t.push(c) + before =~= t + acc@);
            }
            i = i - 1;
        }
    }
    assert(v@.take(0) == Seq::<u16>::empty());
    assert(Seq::<char>::empty() + acc@ == acc@);
    Some(acc)
}

/// The text held in a NUL-padded UTF-16 buffer, as the driver reads the
/// executable's path and the computer's name: the whole buffer is decoded
/// and the trailing NULs are cut off. `None` where the buffer is no valid UTF-16.
pub fn text_of_padded_buffer(buffer: &[u16]) -> (res: Option<Vec<char>>)
    ensures
        res is None <==> utf16_decoding(buffer@) is None,
        res matches Some(t) ==> t@ == trim_end_char(utf16_decoding(buffer@)->0, '\0'),
{
    match decode_utf16(buffer) {
        Some(t) => Some(trim_end_char_exec(t.as_slice(), '\0')),
        None => None,
    }
}

} // verus!
