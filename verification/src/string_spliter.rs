//! Escape decoding for string literals.

use vstd::prelude::*;

verus! {

/// What one escaped byte decodes to: the recognized single-character
/// escapes map to their control byte, `x` contributes nothing (the hex
/// digits that follow are passed through as ordinary bytes), and any
/// other byte stands for itself.
pub open spec fn esc_byte(b: u8) -> Seq<u8> {
    if b == 97 {
        seq![7u8]  // a: bell
    } else if b == 98 {
        seq![8u8]  // b: backspace
    } else if b == 116 {
        seq![9u8]  // t: tab
    } else if b == 110 {
        seq![10u8]  // n: newline
    } else if b == 118 {
        seq![11u8]  // v: vertical tab
    } else if b == 102 {
        seq![12u8]  // f: form feed
    } else if b == 114 {
        seq![13u8]  // r: carriage return
    } else if b == 32 {
        seq![32u8]  // escaped space
    } else if b == 92 {
        seq![92u8]  // escaped backslash
    } else if b == 120 {
        seq![]  // x
    } else {
        seq![b]
    }
}

/// The decoding of the bytes from position `i` on: a backslash consumes
/// the byte after it (or ends the decoding when nothing follows), any
/// other byte passes through.
pub open spec fn spec_split(s: Seq<u8>, i: int) -> Seq<u8>
    decreases s.len() - i
        when 0 <= i
{
    if i >= s.len() {
        Seq::empty()
    } else if s[i] == 92 {
        if i + 1 >= s.len() {
            Seq::empty()
        } else {
            esc_byte(s[i + 1]) + spec_split(s, i + 2)
        }
    } else {
        seq![s[i]] + spec_split(s, i + 1)
    }
}

/// Decodes the escape sequences of a string literal's bytes.
pub fn split_string(s: Vec<u8>) -> (r: Vec<u8>)
    ensures
        r@ == spec_split(s@, 0),
{
    let mut out: Vec<u8> = Vec::new();
    let mut position: usize = 0;
    proof {
        assert(out@ + spec_split(s@, 0) =~= spec_split(s@, 0));
    }
    while position < s.len()
        invariant
            spec_split(s@, 0) == out@ + spec_split(s@, position as int),
            position <= s.len() + 1,
        decreases s.len() - position,
    {
        let ghost pre = out@;
        let ghost gpos = position as int;
        if s[position] == 92 {
            position = position + 1;
            if position >= s.len() {
                // Nothing follows the backslash: decoding ends here.
                proof {
                    assert(spec_split(s@, gpos) =~= Seq::<u8>::empty());
                    assert(spec_split(s@, position as int) =~= Seq::<u8>::empty());
                }
            } else {
            let b = s[position];
            if b == 97 {
                out.push(7);
            } else if b == 98 {
                out.push(8);
            } else if b == 116 {
                out.push(9);
            } else if b == 110 {
                out.push(10);
            } else if b == 118 {
                out.push(11);
            } else if b == 102 {
                out.push(12);
            } else if b == 114 {
                out.push(13);
            } else if b == 32 {
                out.push(32);
            } else if b == 92 {
                out.push(92);
            } else if b == 120 {
                // x: nothing is pushed for the escape itself
            } else {
                out.push(b);
            }
            proof {
                assert(out@ =~= pre + esc_byte(s@[gpos + 1]));
                assert(out@ + spec_split(s@, gpos + 2) =~= pre + spec_split(s@, gpos));
            }
            position = position + 1;
            }
        } else {
            out.push(s[position]);
            proof {
                assert(out@ =~= pre + seq![s@[gpos]]);
                assert(out@ + spec_split(s@, gpos + 1) =~= pre + spec_split(s@, gpos));
            }
            position = position + 1;
        }
    }
    proof {
        if position >= s.len() {
            assert(spec_split(s@, position as int) =~= Seq::<u8>::empty());
        }
        assert(out@ =~= spec_split(s@, 0));
    }
    out
}

} // verus!
