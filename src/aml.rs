//! Mathematical description of the AML encodings produced by the assembler.

use vstd::prelude::*;

verus! {

/// Largest number of bytes the assembler buffer may hold; it is also the
/// largest value a three-byte PkgLength can carry.
pub const ACPIGEN_MAXLEN: usize = 0xfffff;

/// Little-endian bytes of the low 16 bits of `v`.
pub open spec fn le16(v: int) -> Seq<u8> {
    seq![(v % 0x100) as u8, (v / 0x100 % 0x100) as u8]
}

/// Little-endian bytes of the low 32 bits of `v`.
pub open spec fn le32(v: int) -> Seq<u8> {
    seq![
        (v % 0x100) as u8,
        (v / 0x100 % 0x100) as u8,
        (v / 0x10000 % 0x100) as u8,
        (v / 0x1000000 % 0x100) as u8,
    ]
}

/// Little-endian bytes of a 64-bit value.
pub open spec fn le64(v: int) -> Seq<u8> {
    le32(v % 0x1_0000_0000) + le32(v / 0x1_0000_0000)
}

/// The three-byte PkgLength encoding of `len` (`len <= 0xfffff`): the top two
/// bits of the first byte give the number of following bytes (two), its low
/// nibble holds `len & 0xf`, and the next bytes hold `len >> 4` little-endian.
pub open spec fn pkg_length(len: int) -> Seq<u8> {
    seq![(0x80 + len % 0x10) as u8, (len / 0x10 % 0x100) as u8, (len / 0x1000 % 0x100) as u8]
}

/// Decodes an AML PkgLength starting at the first byte of `b`, in any of its
/// one- to four-byte forms.
pub open spec fn decode_pkg_length(b: Seq<u8>) -> int {
    let b0 = b[0] as int;
    let n = b0 / 64;
    if n == 0 {
        b0 % 64
    } else if n == 1 {
        b0 % 16 + b[1] as int * 0x10
    } else if n == 2 {
        b0 % 16 + b[1] as int * 0x10 + b[2] as int * 0x1000
    } else {
        b0 % 16 + b[1] as int * 0x10 + b[2] as int * 0x1000 + b[3] as int * 0x100000
    }
}

/// A length-prefixed AML object: its opcode bytes, the PkgLength that counts
/// itself and the body, then the body.
pub open spec fn aml_block(op: Seq<u8>, body: Seq<u8>) -> Seq<u8> {
    op + pkg_length(body.len() + 3int) + body
}

/// The most compact AML integer term for `v`.
pub open spec fn integer_encoding(v: u64) -> Seq<u8> {
    if v == 0 {
        seq![0x00u8]
    } else if v == 1 {
        seq![0x01u8]
    } else if v <= 0xff {
        seq![0x0au8, v as u8]
    } else if v <= 0xffff {
        seq![0x0bu8] + le16(v as int)
    } else if v <= 0xffff_ffff {
        seq![0x0cu8] + le32(v as int)
    } else {
        seq![0x0eu8] + le64(v as int)
    }
}

/// A name segment cut or padded with `_` to exactly four bytes.
pub open spec fn pad_segment(x: Seq<u8>) -> Seq<u8> {
    let k = if x.len() < 4 {
        x.len() as int
    } else {
        4
    };
    x.subrange(0, k) + Seq::new((4 - k) as nat, |_j: int| 0x5fu8)
}

/// The dot-separated parts of `s`; a string without dots is one part.
pub open spec fn split_dots(s: Seq<u8>) -> Seq<Seq<u8>>
    decreases s.len(),
{
    if s.len() == 0 {
        seq![Seq::empty()]
    } else {
        let parts = split_dots(s.drop_last());
        if s.last() == 0x2e {
            parts.push(Seq::empty())
        } else {
            parts.update(parts.len() - 1, parts.last().push(s.last()))
        }
    }
}

/// The four-byte encodings of `segs`, one after the other.
pub open spec fn segment_bytes(segs: Seq<Seq<u8>>) -> Seq<u8>
    decreases segs.len(),
{
    if segs.len() == 0 {
        Seq::empty()
    } else {
        segment_bytes(segs.drop_last()) + pad_segment(segs.last())
    }
}

/// The prefix that selects a simple, dual or multi-segment name path.
pub open spec fn segment_header(n: int) -> Seq<u8> {
    if n <= 1 {
        Seq::empty()
    } else if n == 2 {
        seq![0x2eu8]
    } else {
        seq![0x2fu8, n as u8]
    }
}

/// End of the run of `^` that starts at `i`.
pub open spec fn parent_prefix_end(s: Seq<u8>, i: int) -> int
    decreases s.len() - i,
{
    if 0 <= i < s.len() && s[i] == 0x5e {
        parent_prefix_end(s, i + 1)
    } else {
        i
    }
}

/// Length of the leading `\` and `^` characters of a name path.
pub open spec fn name_prefix_len(s: Seq<u8>) -> int {
    if s.len() > 0 && s[0] == 0x5c {
        parent_prefix_end(s, 1)
    } else {
        parent_prefix_end(s, 0)
    }
}

/// The segments of a name path after its `\` and `^` prefix.
pub open spec fn name_segments(s: Seq<u8>) -> Seq<Seq<u8>> {
    split_dots(s.subrange(name_prefix_len(s), s.len() as int))
}

/// The AML NameString for a dotted name path: the prefix characters as they
/// are, then a null name, or one, two (DualNamePrefix) or more
/// (MultiNamePrefix and a count) four-byte segments.
pub open spec fn namestring(s: Seq<u8>) -> Seq<u8> {
    let p = name_prefix_len(s);
    let prefix = s.subrange(0, p);
    if p == s.len() {
        prefix.push(0x00)
    } else {
        let segs = name_segments(s);
        prefix + segment_header(segs.len() as int) + segment_bytes(segs)
    }
}

/// The single four-byte name made of the first segment of `s`.
pub open spec fn simple_name(s: Seq<u8>) -> Seq<u8> {
    pad_segment(split_dots(s)[0])
}

/// Decoding the PkgLength written for a block gives back its length.
pub proof fn lemma_pkg_length_round_trip(len: int)
    requires
        0 <= len <= ACPIGEN_MAXLEN,
    ensures
        pkg_length(len).len() == 3,
        decode_pkg_length(pkg_length(len)) == len,
{
}

} // verus!

verus! {

/// Number of `.` bytes in `s`.
pub open spec fn count_dots(s: Seq<u8>) -> nat
    decreases s.len(),
{
    if s.len() == 0 {
        0
    } else {
        count_dots(s.drop_last()) + if s.last() == 0x2e {
            1nat
        } else {
            0nat
        }
    }
}

/// One more byte extends the split of a prefix by a new part or by one byte
/// of its last part.
pub proof fn lemma_split_step(s: Seq<u8>, i: int)
    requires
        0 <= i < s.len(),
    ensures
        split_dots(s.subrange(0, i + 1)) == if s[i] == 0x2e {
            split_dots(s.subrange(0, i)).push(Seq::empty())
        } else {
            let parts = split_dots(s.subrange(0, i));
            parts.update(parts.len() - 1, parts.last().push(s[i]))
        },
        count_dots(s.subrange(0, i + 1)) == count_dots(s.subrange(0, i)) + if s[i] == 0x2e {
            1nat
        } else {
            0nat
        },
{
    assert(s.subrange(0, i + 1).drop_last() =~= s.subrange(0, i));
}

/// A split has one part more than there are dots.
pub proof fn lemma_split_len(s: Seq<u8>)
    ensures
        split_dots(s).len() == count_dots(s) + 1,
    decreases s.len(),
{
    if s.len() > 0 {
        lemma_split_len(s.drop_last());
    }
}

/// The finished parts of a prefix's split stay parts of every longer
/// prefix's split.
pub proof fn lemma_split_prefix(s: Seq<u8>, a: int, b: int)
    requires
        0 <= a <= b <= s.len(),
    ensures
        split_dots(s.subrange(0, a)).len() <= split_dots(s.subrange(0, b)).len(),
        forall|j: int|
            0 <= j < split_dots(s.subrange(0, a)).len() - 1 ==> split_dots(s.subrange(0, b))[j]
                == split_dots(s.subrange(0, a))[j],
    decreases b - a,
{
    if a < b {
        lemma_split_prefix(s, a, b - 1);
        lemma_split_step(s, b - 1);
        lemma_split_len(s.subrange(0, b - 1));
    }
}

/// Each segment takes four bytes.
pub proof fn lemma_segment_bytes_len(segs: Seq<Seq<u8>>)
    ensures
        segment_bytes(segs).len() == 4 * segs.len(),
    decreases segs.len(),
{
    if segs.len() > 0 {
        lemma_segment_bytes_len(segs.drop_last());
    }
}

} // verus!

verus! {

/// Scanning one more byte of `s` while splitting it at dots.
pub proof fn lemma_split_scan(s: Seq<u8>, done: Seq<Seq<u8>>, start: int, i: int)
    requires
        0 <= start <= i < s.len(),
        split_dots(s.subrange(0, i)) == done.push(s.subrange(start, i)),
    ensures
        s[i] == 0x2e ==> split_dots(s.subrange(0, i + 1)) == done.push(s.subrange(start, i)).push(
            s.subrange(i + 1, i + 1),
        ),
        s[i] != 0x2e ==> split_dots(s.subrange(0, i + 1)) == done.push(s.subrange(start, i + 1)),
{
    lemma_split_step(s, i);
    assert(s.subrange(i + 1, i + 1) =~= Seq::<u8>::empty());
    assert(s.subrange(start, i + 1) =~= s.subrange(start, i).push(s[i]));
    assert(done.push(s.subrange(start, i)).update(done.len() as int, s.subrange(start, i + 1))
        =~= done.push(s.subrange(start, i + 1)));
}

/// The parts found before a dot are the first parts of the whole split.
pub proof fn lemma_split_done(s: Seq<u8>, done: Seq<Seq<u8>>, i: int)
    requires
        0 <= i < s.len(),
        split_dots(s.subrange(0, i + 1)) == done.push(s.subrange(i + 1, i + 1)),
    ensures
        done.len() < split_dots(s).len(),
        split_dots(s).subrange(0, done.len() as int) == done,
{
    lemma_split_prefix(s, i + 1, s.len() as int);
    assert(s.subrange(0, s.len() as int) =~= s);
    assert(split_dots(s).subrange(0, done.len() as int) =~= done);
}

} // verus!
