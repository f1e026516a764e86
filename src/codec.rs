use vstd::prelude::*;

verus! {

/// The replacement character that lossy decoding puts in place of an
/// unpaired surrogate.
pub const REPLACEMENT: char = '\u{FFFD}';

pub open spec fn is_high_surrogate(u: u16) -> bool {
    0xD800 <= u < 0xDC00
}

pub open spec fn is_low_surrogate(u: u16) -> bool {
    0xDC00 <= u < 0xE000
}

/// The UTF-16 code units of one character.
pub open spec fn utf16_of_char(c: char) -> Seq<u16> {
    let v = c as u32;
    if v < 0x10000 {
        seq![v as u16]
    } else {
        let w = (v - 0x10000) as u32;
        seq![(0xD800 + w / 1024) as u16, (0xDC00 + w % 1024) as u16]
    }
}

/// The UTF-16 encoding of a character sequence.
pub open spec fn utf16_of(s: Seq<char>) -> Seq<u16>
    decreases s.len(),
{
    if s.len() == 0 {
        Seq::empty()
    } else {
        utf16_of_char(s[0]) + utf16_of(s.skip(1))
    }
}

/// The character that a surrogate pair stands for.
pub open spec fn pair_scalar(hi: u16, lo: u16) -> u32 {
    (0x10000 + (hi - 0xD800) * 1024 + (lo - 0xDC00)) as u32
}

/// Lossy UTF-16 decoding: a well-formed unit or surrogate pair gives its
/// character, and every unpaired surrogate gives one replacement character.
pub open spec fn decode_lossy(u: Seq<u16>) -> Seq<char>
    decreases u.len(),
{
    if u.len() == 0 {
        Seq::empty()
    } else if !is_high_surrogate(u[0]) && !is_low_surrogate(u[0]) {
        seq![u[0] as u32 as char] + decode_lossy(u.skip(1))
    } else if is_high_surrogate(u[0]) && u.len() >= 2 && is_low_surrogate(u[1]) {
        seq![pair_scalar(u[0], u[1]) as char] + decode_lossy(u.skip(2))
    } else {
        seq![REPLACEMENT] + decode_lossy(u.skip(1))
    }
}

/// Relies on `char::from_u32`: the character with scalar value `v`, or `None`
/// where `v` is a surrogate or above 0x10FFFF.
#[verifier::external_body]
fn char_from_scalar(v: u32) -> (r: Option<char>)
    ensures
        (v < 0xD800 || (0xE000 <= v <= 0x10FFFF)) ==> r == Some(v as char),
        !(v < 0xD800 || (0xE000 <= v <= 0x10FFFF)) ==> r is None,
{
    char::from_u32(v)
}

/// Relies on `String::push`: appends one character.
#[verifier::external_body]
fn push_char(s: &mut String, c: char)
    ensures
        final(s)@ == old(s)@.push(c),
{
    s.push(c)
}

/// A copy of a buffer of code units.
pub fn copy_units(u: &[u16]) -> (r: Vec<u16>)
    ensures
        r@ == u@,
{
    let mut r: Vec<u16> = Vec::new();
    let mut i: usize = 0;
    while i < u.len()
        invariant
            i <= u@.len(),
            r@ == u@.take(i as int),
        decreases u@.len() - i,
    {
        r.push(u[i]);
        proof {
            assert(r@ =~= u@.take(i as int + 1));
        }
        i = i + 1;
    }
    proof {
        assert(u@.take(u@.len() as int) =~= u@);
    }
    r
}

/// Encodes text as UTF-16 code units.
pub fn encode_utf16(text: &str) -> (r: Vec<u16>)
    ensures
        r@ == utf16_of(text@),
{
    let n = text.unicode_len();
    let mut r: Vec<u16> = Vec::new();
    let mut i: usize = 0;
    proof {
        assert(text@.skip(0) =~= text@);
        assert(r@ + utf16_of(text@) =~= utf16_of(text@));
    }
    while i < n
        invariant
            n == text@.len(),
            i <= n,
            r@ + utf16_of(text@.skip(i as int)) == utf16_of(text@),
        decreases n - i,
    {
        let c = text.get_char(i);
        let v = c as u32;
        if v < 0x10000 {
            r.push(v as u16);
        } else {
            let w = v - 0x10000;
            r.push((0xD800 + w / 1024) as u16);
            r.push((0xDC00 + w % 1024) as u16);
        }
        proof {
            assert(text@.skip(i as int).skip(1) =~= text@.skip(i as int + 1));
            assert(r@ + utf16_of(text@.skip(i as int + 1)) =~= utf16_of(text@));
        }
        i = i + 1;
    }
    proof {
        assert(r@ + utf16_of(text@.skip(n as int)) =~= r@);
    }
    r
}

/// Decodes UTF-16 code units lossily: unpaired surrogates become the
/// replacement character, and decoding never fails.
pub fn decode_utf16(units: &[u16]) -> (r: String)
    ensures
        r@ == decode_lossy(units@),
{
    let mut r = String::new();
    let n = units.len();
    let mut i: usize = 0;
    proof {
        assert(units@.skip(0) =~= units@);
        assert(r@ + decode_lossy(units@) =~= decode_lossy(units@));
    }
    while i < n
        invariant
            n == units@.len(),
            i <= n,
            r@ + decode_lossy(units@.skip(i as int)) == decode_lossy(units@),
        decreases n - i,
    {
        let a = units[i];
        let rest = Ghost(units@.skip(i as int));
        if a < 0xD800 || a >= 0xE000 {
            match char_from_scalar(a as u32) {
                Some(c) => push_char(&mut r, c),
                None => {},
            }
            proof {
                assert(rest@.skip(1) =~= units@.skip(i as int + 1));
                assert(r@ + decode_lossy(units@.skip(i as int + 1)) =~= decode_lossy(units@));
            }
            i = i + 1;
        } else if a < 0xDC00 && i + 1 < n && units[i + 1] >= 0xDC00 && units[i + 1] < 0xE000 {
            let b = units[i + 1];
            let v: u32 = 0x10000 + (a as u32 - 0xD800) * 1024 + (b as u32 - 0xDC00);
            match char_from_scalar(v) {
                Some(c) => push_char(&mut r, c),
                None => {},
            }
            proof {
                assert(rest@.skip(2) =~= units@.skip(i as int + 2));
                assert(r@ + decode_lossy(units@.skip(i as int + 2)) =~= decode_lossy(units@));
            }
            i = i + 2;
        } else {
            push_char(&mut r, REPLACEMENT);
            proof {
                assert(rest@.skip(1) =~= units@.skip(i as int + 1));
                assert(r@ + decode_lossy(units@.skip(i as int + 1)) =~= decode_lossy(units@));
            }
            i = i + 1;
        }
    }
    proof {
        assert(r@ + decode_lossy(units@.skip(n as int)) =~= r@);
    }
    r
}

proof fn lemma_decode_char(c: char, rest: Seq<u16>)
    ensures
        decode_lossy(utf16_of_char(c) + rest) == seq![c] + decode_lossy(rest),
{
    let u = utf16_of_char(c) + rest;
    let v = c as u32;
    if v < 0x10000 {
        assert(u[0] == v as u16);
        assert(u.skip(1) =~= rest);
        assert((v as u16) as u32 == v);
    } else {
        let w = (v - 0x10000) as u32;
        assert(w / 1024 < 0x400);
        assert(u[0] == (0xD800 + w / 1024) as u16);
        assert(u[1] == (0xDC00 + w % 1024) as u16);
        assert(pair_scalar(u[0], u[1]) == v);
        assert(u.skip(2) =~= rest);
    }
}

/// Encoding text as UTF-16 and decoding it again gives back the same text.
pub proof fn lemma_utf16_round_trip(s: Seq<char>)
    ensures
        decode_lossy(utf16_of(s)) == s,
    decreases s.len(),
{
    if s.len() > 0 {
        lemma_utf16_round_trip(s.skip(1));
        lemma_decode_char(s[0], utf16_of(s.skip(1)));
        assert(seq![s[0]] + s.skip(1) =~= s);
    }
}

} // verus!
