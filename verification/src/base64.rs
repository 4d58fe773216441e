//! A verified base64 encoder.
//!
//! [`base64_spec`] is the mathematical definition of standard base64 with
//! `=` padding; [`base64_encode`] produces exactly that encoding.

use vstd::prelude::*;

verus! {

/// The base64 alphabet character for a six-bit value.
pub open spec fn b64_char(v: u8) -> char {
    if v < 26 {
        ((v + 65) as u8) as char  // 'A' to 'Z'
    } else if v < 52 {
        ((v + 71) as u8) as char  // 'a' to 'z'
    } else if v < 62 {
        ((v - 4) as u8) as char  // '0' to '9'
    } else if v == 62 {
        '+'
    } else {
        '/'
    }
}

/// The four characters encoding one full group of three bytes.
pub open spec fn b64_group(b1: u8, b2: u8, b3: u8) -> Seq<char> {
    seq![
        b64_char((b1 / 4) as u8),
        b64_char(((b1 % 4) * 16 + b2 / 16) as u8),
        b64_char(((b2 % 16) * 4 + b3 / 64) as u8),
        b64_char((b3 % 64) as u8),
    ]
}

/// Standard base64 with `=` padding: full three-byte groups from the
/// front, then a padded group for one or two remaining bytes.
pub open spec fn base64_spec(d: Seq<u8>) -> Seq<char>
    decreases d.len(),
{
    if d.len() >= 3 {
        b64_group(d[0], d[1], d[2]) + base64_spec(d.skip(3))
    } else if d.len() == 2 {
        seq![
            b64_char((d[0] / 4) as u8),
            b64_char(((d[0] % 4) * 16 + d[1] / 16) as u8),
            b64_char(((d[1] % 16) * 4) as u8),
            '=',
        ]
    } else if d.len() == 1 {
        seq![b64_char((d[0] / 4) as u8), b64_char(((d[0] % 4) * 16) as u8), '=', '=']
    } else {
        Seq::<char>::empty()
    }
}

/// Relies on `String::from_iter`: collecting characters yields the string
/// of exactly those characters in order.
#[verifier::external_body]
pub(crate) fn chars_to_string(chars: Vec<char>) -> (r: String)
    ensures
        r@ == chars@,
{
    chars.into_iter().collect()
}

/// The alphabet character for a six-bit value.
fn b64_char_of(v: u8) -> (c: char)
    requires
        v < 64,
    ensures
        c == b64_char(v),
{
    if v < 26 {
        (v + 65) as char
    } else if v < 52 {
        (v + 71) as char
    } else if v < 62 {
        (v - 4) as char
    } else if v == 62 {
        '+'
    } else {
        '/'
    }
}

/// Base64-encode a byte string.
pub fn base64_encode(data: &[u8]) -> (r: String)
    ensures
        r@ == base64_spec(data@),
{
    let mut out: Vec<char> = Vec::new();
    let mut i: usize = 0;

    assert(data@.skip(0) =~= data@);
    while i < data.len() && data.len() - i > 2
        invariant
            i % 3 == 0,
            i <= data.len(),
            out@ + base64_spec(data@.skip(i as int)) == base64_spec(data@),
        decreases data.len() - i,
    {
        let b1 = data[i];
        let b2 = data[i + 1];
        let b3 = data[i + 2];

        proof {
            let s = data@.skip(i as int);
            assert(s.len() >= 3);
            assert(s[0] == data@[i as int] && s[1] == data@[i + 1] && s[2] == data@[i + 2]);
            assert(s.skip(3) =~= data@.skip(i as int + 3));
        }
        assert(b1 / 4 < 64 && b1 % 4 < 4 && b2 / 16 < 16 && b2 % 16 < 16 && b3 / 64 < 4 && b3 % 64
            < 64);

        out.push(b64_char_of(b1 / 4));
        out.push(b64_char_of((b1 % 4) * 16 + b2 / 16));
        out.push(b64_char_of((b2 % 16) * 4 + b3 / 64));
        out.push(b64_char_of(b3 % 64));

        i = i + 3;
    }

    // Handle remaining bytes
    if data.len() - i == 1 {
        let b1 = data[i];
        proof {
            let s = data@.skip(i as int);
            assert(s.len() == 1);
            assert(s[0] == data@[i as int]);
        }
        assert(b1 / 4 < 64 && b1 % 4 < 4);
        out.push(b64_char_of(b1 / 4));
        out.push(b64_char_of((b1 % 4) * 16));
        out.push('=');
        out.push('=');
    } else if data.len() - i == 2 {
        let b1 = data[i];
        let b2 = data[i + 1];
        proof {
            let s = data@.skip(i as int);
            assert(s.len() == 2);
            assert(s[0] == data@[i as int] && s[1] == data@[i as int + 1]);
        }
        assert(b1 / 4 < 64 && b1 % 4 < 4 && b2 / 16 < 16 && b2 % 16 < 16);
        out.push(b64_char_of(b1 / 4));
        out.push(b64_char_of((b1 % 4) * 16 + b2 / 16));
        out.push(b64_char_of((b2 % 16) * 4));
        out.push('=');
    } else {
        proof {
            let s = data@.skip(i as int);
            assert(s.len() == 0);
        }
    }
    assert(out@ =~= base64_spec(data@));

    chars_to_string(out)
}

} // verus!
