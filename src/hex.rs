//! Hexadecimal digits and strings.

use vstd::prelude::*;
use vstd::string::StringSliceAdditionalSpecFns;

verus! {

/// Whether `c` is an ASCII hexadecimal digit.
pub open spec fn is_hex(c: u8) -> bool {
    (0x30 <= c <= 0x39) || (0x41 <= c <= 0x46) || (0x61 <= c <= 0x66)
}

/// The value of the hexadecimal digit `c`.
pub open spec fn hex_value(c: u8) -> u8 {
    if 0x30 <= c <= 0x39 {
        (c - 0x30) as u8
    } else if 0x41 <= c <= 0x46 {
        (c - 0x41 + 10) as u8
    } else {
        (c - 0x61 + 10) as u8
    }
}

/// The values of the hexadecimal digits of `s`, in order; other bytes are
/// skipped.
pub open spec fn hex_digits(s: Seq<u8>) -> Seq<u8>
    decreases s.len(),
{
    if s.len() == 0 {
        Seq::empty()
    } else if is_hex(s.last()) {
        hex_digits(s.drop_last()).push(hex_value(s.last()))
    } else {
        hex_digits(s.drop_last())
    }
}

/// The bytes spelled by consecutive pairs of digit values, high nibble first.
pub open spec fn hex_bytes(d: Seq<u8>) -> Seq<u8> {
    Seq::new(d.len() / 2, |k: int| (d[2 * k] * 16 + d[2 * k + 1]) as u8)
}

/// The digits of a prefix of `s` are a prefix of the digits of `s`.
pub proof fn lemma_hex_digits_prefix(s: Seq<u8>, i: int)
    requires
        0 <= i <= s.len(),
    ensures
        hex_digits(s.subrange(0, i)).len() <= hex_digits(s).len(),
        hex_digits(s.subrange(0, i)) == hex_digits(s).subrange(0, hex_digits(s.subrange(0, i)).len() as int),
    decreases s.len() - i,
{
    if i < s.len() {
        lemma_hex_digits_prefix(s, i + 1);
        assert(s.subrange(0, i + 1).drop_last() =~= s.subrange(0, i));
        assert(hex_digits(s.subrange(0, i)) =~= hex_digits(s).subrange(
            0,
            hex_digits(s.subrange(0, i)).len() as int,
        ));
    } else {
        assert(s.subrange(0, i) =~= s);
        assert(hex_digits(s) =~= hex_digits(s).subrange(0, hex_digits(s).len() as int));
    }
}

/// The value of a hexadecimal digit.
pub fn hex2bin(c: char) -> (r: u8)
    requires
        ('0' <= c <= '9') || ('A' <= c <= 'F') || ('a' <= c <= 'f'),
    ensures
        r == hex_value(c as u8),
{
    let b = c as u8;
    if c >= 'A' && c <= 'F' {
        b - 0x41 + 10
    } else if c >= 'a' && c <= 'f' {
        b - 0x61 + 10
    } else {
        b - 0x30
    }
}

/// How many bytes `hexstrtobin` writes for the digits `d` into a buffer of
/// `n` bytes.
pub open spec fn hex_count(d: Seq<u8>, n: int) -> int {
    if d.len() / 2 < n {
        d.len() as int / 2
    } else {
        n
    }
}

/// Parses the hexadecimal digits of `string`, two per byte, into `buf`,
/// skipping any other character; stops when `buf` is full. Returns the number
/// of bytes written.
pub fn hexstrtobin(string: &str, buf: &mut [u8]) -> (r: usize)
    ensures
        r == hex_count(hex_digits(string.spec_bytes()), old(buf)@.len() as int),
        final(buf)@.len() == old(buf)@.len(),
        forall|k: int| 0 <= k < r ==> final(buf)@[k] == hex_bytes(hex_digits(string.spec_bytes()))[k],
        forall|k: int| r <= k < old(buf)@.len() ==> final(buf)@[k] == old(buf)@[k],
{
    let s = string.as_bytes();
    let ghost all = hex_digits(s@);
    let mut byte: u8 = 0;
    let mut count: usize = 0;
    let mut ptr: usize = 0;
    let mut i: usize = 0;
    proof {
        assert(s@.subrange(0, 0) =~= Seq::<u8>::empty());
    }
    while i < s.len()
        invariant
            i <= s@.len(),
            all == hex_digits(s@),
            s@ == string.spec_bytes(),
            buf@.len() == old(buf)@.len(),
            ptr == hex_digits(s@.subrange(0, i as int)).len() / 2,
            ptr <= buf@.len(),
            count == hex_digits(s@.subrange(0, i as int)).len() % 2,
            count == 1 ==> byte == hex_digits(s@.subrange(0, i as int)).last(),
            count == 0 ==> byte == 0,
            count == 1 ==> ptr < buf@.len(),
            count == 1 ==> byte < 16,
            forall|k: int| 0 <= k < ptr ==> buf@[k] == hex_bytes(hex_digits(s@.subrange(0, i as int)))[k],
            forall|k: int| ptr <= k < buf@.len() ==> buf@[k] == old(buf)@[k],
        decreases s@.len() - i,
    {
        let c = s[i];
        let ghost d0 = hex_digits(s@.subrange(0, i as int));
        proof {
            assert(s@.subrange(0, i + 1).drop_last() =~= s@.subrange(0, i as int));
        }
        let is_digit = (c >= 0x30 && c <= 0x39) || (c >= 0x41 && c <= 0x46) || (c >= 0x61 && c <= 0x66);
        if is_digit {
            let v: u8 = if c <= 0x39 {
                c - 0x30
            } else if c <= 0x46 {
                c - 0x41 + 10
            } else {
                c - 0x61 + 10
            };
            let ghost d1 = d0.push(v);
            proof {
                assert(hex_digits(s@.subrange(0, i + 1)) == d1);
            }
            if count == 0 {
                byte = v;
                count = 1;
                if ptr >= buf.len() {
                    proof {
                        lemma_hex_digits_prefix(s@, i + 1);
                        assert forall|k: int| 0 <= k < ptr implies hex_bytes(d1)[k] == hex_bytes(
                            all,
                        )[k] by {
                            assert(d1[2 * k] == all[2 * k]);
                            assert(d1[2 * k + 1] == all[2 * k + 1]);
                        }
                    }
                    return ptr;
                }
            } else {
                let full = byte * 16 + v;
                if ptr >= buf.len() {
                    return ptr;
                }
                buf[ptr] = full;
                proof {
                    assert(hex_bytes(d1)[ptr as int] == full);
                    assert forall|k: int| 0 <= k < ptr implies hex_bytes(d1)[k] == hex_bytes(d0)[k] by {}
                }
                ptr = ptr + 1;
                byte = 0;
                count = 0;
            }
        }
        i = i + 1;
    }
    proof {
        assert(s@.subrange(0, i as int) =~= s@);
    }
    ptr
}

} // verus!
