//! Verified decoding of hexadecimal strings, as manifest hash fields carry
//! them.
use vstd::prelude::*;

verus! {

/// A hex digit's numeric value, if the character is one.
pub open spec fn hex_digit_value(c: char) -> Option<u8> {
    if '0' <= c && c <= '9' {
        Some((c as int - '0' as int) as u8)
    } else if 'a' <= c && c <= 'f' {
        Some((c as int - 'a' as int + 10) as u8)
    } else if 'A' <= c && c <= 'F' {
        Some((c as int - 'A' as int + 10) as u8)
    } else {
        None
    }
}

/// The bytes a hex string denotes: two digits per byte, `None` on an odd
/// length or a character that is no hex digit.
pub open spec fn spec_hex_decode(s: Seq<char>) -> Option<Seq<u8>>
    decreases s.len(),
{
    if s.len() == 0 {
        Some(Seq::<u8>::empty())
    } else if s.len() == 1 {
        None
    } else {
        match (hex_digit_value(s[0]), hex_digit_value(s[1])) {
            (Some(hi), Some(lo)) => match spec_hex_decode(s.skip(2)) {
                Some(rest) => Some(seq![(hi * 16 + lo) as u8] + rest),
                None => None,
            },
            _ => None,
        }
    }
}

/// Numeric value of one hex digit character.
pub fn hex_digit(c: char) -> (r: Option<u8>)
    ensures
        r == hex_digit_value(c),
{
    if '0' <= c && c <= '9' {
        Some((c as u32 - '0' as u32) as u8)
    } else if 'a' <= c && c <= 'f' {
        Some((c as u32 - 'a' as u32 + 10) as u8)
    } else if 'A' <= c && c <= 'F' {
        Some((c as u32 - 'A' as u32 + 10) as u8)
    } else {
        None
    }
}

/// Decodes a hex string into bytes; `None` exactly where `spec_hex_decode`
/// rejects.
pub fn hex_decode(s: &str) -> (r: Option<Vec<u8>>)
    ensures
        match r {
            Some(v) => spec_hex_decode(s@) == Some(v@),
            None => spec_hex_decode(s@) is None,
        },
{
    let n = s.unicode_len();
    let mut out: Vec<u8> = Vec::new();
    let mut i: usize = 0;
    proof {
        assert(s@.skip(0) =~= s@);
        if spec_hex_decode(s@) is Some {
            assert(out@ + spec_hex_decode(s@).unwrap() =~= spec_hex_decode(s@).unwrap());
        }
    }
    while i < n && i + 1 < n
        invariant
            n == s@.len(),
            0 <= i <= n,
            match spec_hex_decode(s@.skip(i as int)) {
                Some(tail) => spec_hex_decode(s@) == Some(out@ + tail),
                None => spec_hex_decode(s@) is None,
            },
        decreases n - i,
    {
        let hi = hex_digit(s.get_char(i));
        let lo = hex_digit(s.get_char(i + 1));
        proof {
            assert(s@.skip(i as int)[0] == s@[i as int]);
            assert(s@.skip(i as int)[1] == s@[i as int + 1]);
            assert(s@.skip(i as int).skip(2) =~= s@.skip(i as int + 2));
        }
        match (hi, lo) {
            (Some(h), Some(l)) => {
                let ghost pre = out@;
                let b = h * 16 + l;
                out.push(b);
                proof {
                    if spec_hex_decode(s@.skip(i as int + 2)) is Some {
                        let tail = spec_hex_decode(s@.skip(i as int + 2)).unwrap();
                        assert(pre + (seq![b] + tail) =~= out@ + tail);
                    }
                }
                i = i + 2;
            },
            _ => {
                return None;
            },
        }
    }
    if i < n {
        proof {
            assert(s@.skip(i as int).len() == 1);
        }
        return None;
    }
    proof {
        assert(s@.skip(i as int).len() == 0);
        assert(out@ + Seq::<u8>::empty() =~= out@);
    }
    Some(out)
}

} // verus!
