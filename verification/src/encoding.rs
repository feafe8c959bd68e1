//! The encodings behind PowerShell's `-EncodedCommand`: a command's text as
//! UTF-16 code units, those as little-endian bytes, and the bytes in base64.
use vstd::prelude::*;

verus! {

// ---------------------------------------------------------------------------
// UTF-16
// ---------------------------------------------------------------------------

/// The UTF-16 code units of one character: itself below `0x10000`, else a
/// surrogate pair.
pub open spec fn utf16_of(c: char) -> Seq<u16> {
    let n = c as u32;
    if n < 0x10000 {
        seq![n as u16]
    } else {
        let m = n - 0x10000;
        seq![(0xD800 + m / 0x400) as u16, (0xDC00 + m % 0x400) as u16]
    }
}

/// The UTF-16 code units of a text (`str::encode_utf16`).
pub open spec fn utf16_units(s: Seq<char>) -> Seq<u16>
    decreases s.len(),
{
    if s.len() == 0 {
        Seq::empty()
    } else {
        utf16_units(s.drop_last()) + utf16_of(s.last())
    }
}

/// Each code unit as two bytes, low byte first (`u16::to_le_bytes`).
pub open spec fn le_bytes(us: Seq<u16>) -> Seq<u8>
    decreases us.len(),
{
    if us.len() == 0 {
        Seq::empty()
    } else {
        le_bytes(us.drop_last()) + seq![(us.last() % 256) as u8, (us.last() / 256) as u8]
    }
}

/// Appends the little-endian bytes of one code unit.
fn push_unit(out: &mut Vec<u8>, u: u16)
    ensures
        final(out)@ == old(out)@ + seq![(u % 256) as u8, (u / 256) as u8],
{
    out.push((u % 256) as u8);
    out.push((u / 256) as u8);
    proof {
        assert(final(out)@ =~= old(out)@ + seq![(u % 256) as u8, (u / 256) as u8]);
    }
}

/// The text as UTF-16 code units, each as two little-endian bytes.
pub fn utf16le_bytes(s: &Vec<char>) -> (r: Vec<u8>)
    ensures
        r@ == le_bytes(utf16_units(s@)),
{
    let mut out: Vec<u8> = Vec::new();
    let mut i: usize = 0;
    proof {
        assert(s@.take(0) =~= Seq::<char>::empty());
    }
    while i < s.len()
        invariant
            i <= s.len(),
            out@ == le_bytes(utf16_units(s@.take(i as int))),
        decreases s.len() - i,
    {
        let c = s[i];
        let n = c as u32;
        let ghost before = utf16_units(s@.take(i as int));
        proof {
            assert(s@.take(i + 1).drop_last() =~= s@.take(i as int));
            assert(s@.take(i + 1).last() == c);
            assert(n <= 0x10FFFF) by {
                vstd::utf8::char_is_scalar(c);
            }
        }
        if n < 0x10000 {
            let u = n as u16;
            push_unit(&mut out, u);
            proof {
                let units = before + seq![u];
                assert(utf16_units(s@.take(i + 1)) == units);
                assert(units.drop_last() =~= before);
                assert(units.last() == u);
                assert(le_bytes(units) == le_bytes(before) + seq![(u % 256) as u8, (u / 256) as u8]);
            }
        } else {
            let m = n - 0x10000;
            let hi = (0xD800 + m / 0x400) as u16;
            let lo = (0xDC00 + m % 0x400) as u16;
            push_unit(&mut out, hi);
            push_unit(&mut out, lo);
            proof {
                let units = before + seq![hi, lo];
                assert(utf16_units(s@.take(i + 1)) == units);
                assert(units.drop_last() =~= before + seq![hi]);
                assert((before + seq![hi]).drop_last() =~= before);
                assert(units.last() == lo);
                assert((before + seq![hi]).last() == hi);
                let bh = le_bytes(before) + seq![(hi % 256) as u8, (hi / 256) as u8];
                assert(le_bytes(before + seq![hi]) == bh);
                assert(le_bytes(units) == bh + seq![(lo % 256) as u8, (lo / 256) as u8]);
            }
        }
        i = i + 1;
    }
    proof {
        assert(s@.take(s@.len() as int) =~= s@);
    }
    out
}

// ---------------------------------------------------------------------------
// Base64
// ---------------------------------------------------------------------------

/// The base64 digit for a six-bit value: `A`–`Z`, `a`–`z`, `0`–`9`, `+`, `/`.
pub open spec fn b64_digit(i: int) -> char {
    if i < 26 {
        (65 + i) as char
    } else if i < 52 {
        (97 + i - 26) as char
    } else if i < 62 {
        (48 + i - 52) as char
    } else if i == 62 {
        '+'
    } else {
        '/'
    }
}

/// Standard base64 with `=` padding: every three bytes become four digits.
pub open spec fn base64(b: Seq<u8>) -> Seq<char>
    decreases b.len(),
{
    if b.len() >= 3 {
        let (x0, x1, x2) = (b[0] as int, b[1] as int, b[2] as int);
        seq![
            b64_digit(x0 / 4),
            b64_digit((x0 % 4) * 16 + x1 / 16),
            b64_digit((x1 % 16) * 4 + x2 / 64),
            b64_digit(x2 % 64),
        ] + base64(b.skip(3))
    } else if b.len() == 2 {
        let (x0, x1) = (b[0] as int, b[1] as int);
        seq![b64_digit(x0 / 4), b64_digit((x0 % 4) * 16 + x1 / 16), b64_digit((x1 % 16) * 4), '=']
    } else if b.len() == 1 {
        let x0 = b[0] as int;
        seq![b64_digit(x0 / 4), b64_digit((x0 % 4) * 16), '=', '=']
    } else {
        Seq::empty()
    }
}

fn digit(i: u8) -> (c: char)
    requires
        i < 64,
    ensures
        c == b64_digit(i as int),
{
    if i < 26 {
        (65 + i) as char
    } else if i < 52 {
        (97 + i - 26) as char
    } else if i < 62 {
        (48 + i - 52) as char
    } else if i == 62 {
        '+'
    } else {
        '/'
    }
}

/// The bytes in standard base64, with `=` padding.
pub fn base64_encode(b: &Vec<u8>) -> (r: Vec<char>)
    ensures
        r@ == base64(b@),
{
    let mut out: Vec<char> = Vec::new();
    let mut i: usize = 0;
    proof {
        assert(b@.skip(0) =~= b@);
    }
    while b.len() - i >= 3
        invariant
            i <= b.len(),
            base64(b@) == out@ + base64(b@.skip(i as int)),
        decreases b.len() - i,
    {
        let b0 = b[i];
        let b1 = b[i + 1];
        let b2 = b[i + 2];
        let ghost rest = b@.skip(i as int);
        let ghost before = out@;
        out.push(digit(b0 / 4));
        out.push(digit((b0 % 4) * 16 + b1 / 16));
        out.push(digit((b1 % 16) * 4 + b2 / 64));
        out.push(digit(b2 % 64));
        proof {
            assert(rest[0] == b0 && rest[1] == b1 && rest[2] == b2);
            assert(rest.skip(3) =~= b@.skip(i + 3));
            let (x0, x1, x2) = (b0 as int, b1 as int, b2 as int);
            let g = seq![
                b64_digit(x0 / 4),
                b64_digit((x0 % 4) * 16 + x1 / 16),
                b64_digit((x1 % 16) * 4 + x2 / 64),
                b64_digit(x2 % 64),
            ];
            assert(out@ =~= before + g);
            assert(base64(rest) == g + base64(b@.skip(i + 3)));
            assert(before + (g + base64(b@.skip(i + 3))) =~= (before + g) + base64(
                b@.skip(i + 3),
            ));
        }
        i = i + 3;
    }
    let ghost rest = b@.skip(i as int);
    let ghost before = out@;
    if b.len() - i == 2 {
        let b0 = b[i];
        let b1 = b[i + 1];
        out.push(digit(b0 / 4));
        out.push(digit((b0 % 4) * 16 + b1 / 16));
        out.push(digit((b1 % 16) * 4));
        out.push('=');
        proof {
            assert(rest.len() == 2 && rest[0] == b0 && rest[1] == b1);
            assert(out@ =~= before + base64(rest));
        }
    } else if b.len() - i == 1 {
        let b0 = b[i];
        out.push(digit(b0 / 4));
        out.push(digit((b0 % 4) * 16));
        out.push('=');
        out.push('=');
        proof {
            assert(rest.len() == 1 && rest[0] == b0);
            assert(out@ =~= before + base64(rest));
        }
    } else {
        proof {
            assert(rest.len() == 0);
            assert(out@ =~= before + base64(rest));
        }
    }
    out
}

/// Base64 turns every started group of three bytes into four digits.
pub proof fn law_base64_length(b: Seq<u8>)
    ensures
        base64(b).len() == 4 * ((b.len() + 2) / 3),
    decreases b.len(),
{
    if b.len() >= 3 {
        law_base64_length(b.skip(3));
    }
}

/// A character takes one UTF-16 code unit, or two from U+10000 on, so the
/// encoded text has between one and two units per character.
pub proof fn law_utf16_length(s: Seq<char>)
    ensures
        s.len() <= utf16_units(s).len() <= 2 * s.len(),
    decreases s.len(),
{
    if s.len() > 0 {
        law_utf16_length(s.drop_last());
    }
}

} // verus!
