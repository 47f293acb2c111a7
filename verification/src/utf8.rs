//! Well-formedness of UTF-8 byte sequences.
//!
//! Strings crossing the host/guest boundary travel as plain byte ranges; a
//! range claimed to be a string must be checked in full before any of it is
//! interpreted.  The specification below writes out the well-formed byte
//! sequences of UTF-8 (shortest forms only, no surrogates, nothing above
//! U+10FFFF), and the executable validator is proved to decide exactly that
//! predicate, so a malformed payload is rejected whole and never partially
//! decoded.

use vstd::prelude::*;

verus! {

/// A continuation byte: `0x80..=0xBF`.
pub open spec fn is_cont(b: u8) -> bool {
    0x80 <= b <= 0xBF
}

/// The length of the well-formed scalar encoding that starts at the front
/// of `s`, or `0` if `s` does not start with one.
pub open spec fn utf8_step(s: Seq<u8>) -> int {
    if s.len() == 0 {
        0
    } else {
        let b0 = s[0];
        if b0 < 0x80 {
            1
        } else if 0xC2 <= b0 && b0 <= 0xDF {
            if s.len() >= 2 && is_cont(s[1]) {
                2
            } else {
                0
            }
        } else if b0 == 0xE0 {
            if s.len() >= 3 && 0xA0 <= s[1] && s[1] <= 0xBF && is_cont(s[2]) {
                3
            } else {
                0
            }
        } else if 0xE1 <= b0 && b0 <= 0xEC {
            if s.len() >= 3 && is_cont(s[1]) && is_cont(s[2]) {
                3
            } else {
                0
            }
        } else if b0 == 0xED {
            if s.len() >= 3 && 0x80 <= s[1] && s[1] <= 0x9F && is_cont(s[2]) {
                3
            } else {
                0
            }
        } else if 0xEE <= b0 && b0 <= 0xEF {
            if s.len() >= 3 && is_cont(s[1]) && is_cont(s[2]) {
                3
            } else {
                0
            }
        } else if b0 == 0xF0 {
            if s.len() >= 4 && 0x90 <= s[1] && s[1] <= 0xBF && is_cont(s[2]) && is_cont(s[3]) {
                4
            } else {
                0
            }
        } else if 0xF1 <= b0 && b0 <= 0xF3 {
            if s.len() >= 4 && is_cont(s[1]) && is_cont(s[2]) && is_cont(s[3]) {
                4
            } else {
                0
            }
        } else if b0 == 0xF4 {
            if s.len() >= 4 && 0x80 <= s[1] && s[1] <= 0x8F && is_cont(s[2]) && is_cont(s[3]) {
                4
            } else {
                0
            }
        } else {
            0
        }
    }
}

/// `s` is a well-formed UTF-8 byte sequence: a concatenation of well-formed
/// scalar encodings covering all of `s`.
pub open spec fn is_utf8(s: Seq<u8>) -> bool
    decreases s.len(),
{
    if s.len() == 0 {
        true
    } else {
        let n = utf8_step(s);
        if n == 0 {
            false
        } else {
            is_utf8(s.skip(n))
        }
    }
}

/// The sequence of characters a well-formed UTF-8 byte sequence decodes to.
/// Decoding is a fixed function of the bytes alone; its value is stated
/// nowhere, so nothing is claimed beyond determinism.
pub uninterp spec fn utf8_decode(s: Seq<u8>) -> Seq<char>;

/// Relies on `String::from_utf8`: it succeeds on well-formed UTF-8 input,
/// and the characters of the result depend on the input bytes alone.
#[verifier::external_body]
pub(crate) fn string_from_utf8(bytes: Vec<u8>) -> (r: String)
    requires
        is_utf8(bytes@),
    ensures
        r@ == utf8_decode(bytes@),
{
    match String::from_utf8(bytes) {
        Ok(s) => s,
        Err(_) => String::new(),
    }
}

/// Decides whether `v` is well-formed UTF-8, checking the whole buffer:
/// there is no partial acceptance.
pub fn validate_utf8(v: &Vec<u8>) -> (r: bool)
    ensures
        r == is_utf8(v@),
{
    let n = v.len();
    let mut i: usize = 0;
    proof {
        assert(v@.skip(0) =~= v@);
    }
    loop
        invariant
            i <= n,
            n == v@.len(),
            is_utf8(v@) == is_utf8(v@.skip(i as int)),
        decreases n - i,
    {
        if i == n {
            proof {
                assert(v@.skip(n as int) =~= Seq::<u8>::empty());
            }
            return true;
        }
        let rest = n - i;
        let b0 = v[i];
        let step: usize = if b0 < 0x80 {
            1
        } else if 0xC2 <= b0 && b0 <= 0xDF {
            if rest >= 2 && 0x80 <= v[i + 1] && v[i + 1] <= 0xBF {
                2
            } else {
                0
            }
        } else if b0 == 0xE0 {
            if rest >= 3 && 0xA0 <= v[i + 1] && v[i + 1] <= 0xBF && 0x80 <= v[i + 2] && v[i + 2]
                <= 0xBF {
                3
            } else {
                0
            }
        } else if 0xE1 <= b0 && b0 <= 0xEC {
            if rest >= 3 && 0x80 <= v[i + 1] && v[i + 1] <= 0xBF && 0x80 <= v[i + 2] && v[i + 2]
                <= 0xBF {
                3
            } else {
                0
            }
        } else if b0 == 0xED {
            if rest >= 3 && 0x80 <= v[i + 1] && v[i + 1] <= 0x9F && 0x80 <= v[i + 2] && v[i + 2]
                <= 0xBF {
                3
            } else {
                0
            }
        } else if 0xEE <= b0 && b0 <= 0xEF {
            if rest >= 3 && 0x80 <= v[i + 1] && v[i + 1] <= 0xBF && 0x80 <= v[i + 2] && v[i + 2]
                <= 0xBF {
                3
            } else {
                0
            }
        } else if b0 == 0xF0 {
            if rest >= 4 && 0x90 <= v[i + 1] && v[i + 1] <= 0xBF && 0x80 <= v[i + 2] && v[i + 2]
                <= 0xBF && 0x80 <= v[i + 3] && v[i + 3] <= 0xBF {
                4
            } else {
                0
            }
        } else if 0xF1 <= b0 && b0 <= 0xF3 {
            if rest >= 4 && 0x80 <= v[i + 1] && v[i + 1] <= 0xBF && 0x80 <= v[i + 2] && v[i + 2]
                <= 0xBF && 0x80 <= v[i + 3] && v[i + 3] <= 0xBF {
                4
            } else {
                0
            }
        } else if b0 == 0xF4 {
            if rest >= 4 && 0x80 <= v[i + 1] && v[i + 1] <= 0x8F && 0x80 <= v[i + 2] && v[i + 2]
                <= 0xBF && 0x80 <= v[i + 3] && v[i + 3] <= 0xBF {
                4
            } else {
                0
            }
        } else {
            0
        };
        proof {
            let tail = v@.skip(i as int);
            assert(tail[0] == v@[i as int]);
            assert(utf8_step(tail) == step);
        }
        if step == 0 {
            return false;
        }
        proof {
            assert(v@.skip(i as int).skip(step as int) =~= v@.skip(i + step));
        }
        i = i + step;
    }
}

} // verus!
