//! Properties that relate the encoders to the way AML is read back.

use vstd::prelude::*;
use crate::acpigen::{AcpiGen, Error};
use crate::aml::{
    integer_encoding,
    ACPIGEN_MAXLEN, decode_pkg_length, lemma_pkg_length_round_trip, name_prefix_len, name_segments,
    namestring, pad_segment, pkg_length, segment_bytes, segment_header,
};
use crate::fields::{field_entry, field_walk, FieldListView, FieldType};
use crate::namestring::name_ok;
use crate::ids::uuid_order;

verus! {

/// Closing a block writes a PkgLength that decodes to the number of bytes
/// from the start of that length field to the end of the buffer.
pub proof fn lemma_close_round_trip(g: AcpiGen)
    requires
        g.wf(),
        g.depth() > 0,
        g.top() + 3 <= g.bytes().len(),
    ensures
        g.closed_top().len() == g.bytes().len(),
        decode_pkg_length(g.closed_top().subrange(g.top(), g.bytes().len() as int)) == g.bytes().len()
            - g.top(),
{
    g.lemma_wf_bounds();
    let len = g.bytes().len() - g.top();
    lemma_pkg_length_round_trip(len);
    let c = g.closed_top();
    assert(c.subrange(g.top(), g.bytes().len() as int).subrange(0, 3) =~= pkg_length(len));
}

/// Reads the part of a NameString after its `\` and `^` prefix: a null
/// name, a dual name, a multi-name with its count, or one segment.
pub open spec fn decode_name_body(b: Seq<u8>) -> Seq<Seq<u8>> {
    if b[0] == 0x00 {
        Seq::empty()
    } else if b[0] == 0x2e {
        seq![b.subrange(1, 5), b.subrange(5, 9)]
    } else if b[0] == 0x2f {
        Seq::new(b[1] as nat, |k: int| b.subrange(2 + 4 * k, 6 + 4 * k))
    } else {
        seq![b.subrange(0, 4)]
    }
}

/// A byte that may start an ACPI name segment: a capital letter or `_`.
pub open spec fn is_lead_char(c: u8) -> bool {
    (0x41 <= c <= 0x5a) || c == 0x5f
}

/// Segment `k` of an encoding sits at bytes `4k..4k+4`.
pub proof fn lemma_segment_chunk(segs: Seq<Seq<u8>>, k: int)
    requires
        0 <= k < segs.len(),
    ensures
        segment_bytes(segs).len() == 4 * segs.len(),
        segment_bytes(segs).subrange(4 * k, 4 * k + 4) == pad_segment(segs[k]),
    decreases segs.len(),
{
    crate::aml::lemma_segment_bytes_len(segs);
    crate::aml::lemma_segment_bytes_len(segs.drop_last());
    let sb = segment_bytes(segs);
    if k == segs.len() - 1 {
        assert(sb.subrange(4 * k, 4 * k + 4) =~= pad_segment(segs[k]));
    } else {
        lemma_segment_chunk(segs.drop_last(), k);
        assert(sb.subrange(4 * k, 4 * k + 4) =~= segment_bytes(segs.drop_last()).subrange(
            4 * k,
            4 * k + 4,
        ));
    }
}

/// Encoding a name path and reading it back gives its prefix unchanged and
/// its segments padded to four characters (none for a bare prefix), for
/// paths whose segments start with a letter or `_`.
pub proof fn lemma_namestring_round_trip(s: Seq<u8>)
    requires
        name_ok(s),
        forall|k: int|
            0 <= k < name_segments(s).len() ==> (#[trigger] name_segments(s)[k]).len() >= 1
                && is_lead_char(name_segments(s)[k][0]),
    ensures
        ({
            let p = name_prefix_len(s);
            let b = namestring(s);
            &&& b.subrange(0, p) == s.subrange(0, p)
            &&& decode_name_body(b.subrange(p, b.len() as int)) == if p == s.len() {
                Seq::empty()
            } else {
                name_segments(s).map_values(|x: Seq<u8>| pad_segment(x))
            }
        }),
{
    let p = name_prefix_len(s);
    crate::namestring::lemma_prefix_len_bound(s);
    let b = namestring(s);
    if p == s.len() {
        assert(b.subrange(0, p) =~= s.subrange(0, p));
        assert(b.subrange(p, b.len() as int) =~= seq![0u8]);
    } else {
        let segs = name_segments(s);
        let n = segs.len();
        crate::aml::lemma_split_len(s.subrange(p, s.len() as int));
        crate::aml::lemma_segment_bytes_len(segs);
        let body = b.subrange(p, b.len() as int);
        assert(b.subrange(0, p) =~= s.subrange(0, p));
        let sb = segment_bytes(segs);
        assert(body =~= segment_header(n as int) + sb);
        let want = segs.map_values(|x: Seq<u8>| pad_segment(x));
        if n == 1 {
            lemma_segment_chunk(segs, 0);
            assert(sb.subrange(0, 4) == pad_segment(segs[0]));
            assert(body[0] == pad_segment(segs[0])[0]);
            assert(body.subrange(0, 4) =~= sb.subrange(0, 4));
            assert(decode_name_body(body) =~= want);
        } else if n == 2 {
            lemma_segment_chunk(segs, 0);
            lemma_segment_chunk(segs, 1);
            assert(body.subrange(1, 5) =~= sb.subrange(0, 4));
            assert(body.subrange(5, 9) =~= sb.subrange(4, 8));
            assert(decode_name_body(body) =~= want);
        } else {
            assert(body[1] == n as u8);
            assert forall|k: int| 0 <= k < n implies #[trigger] body.subrange(2 + 4 * k, 6 + 4 * k)
                == want[k] by {
                lemma_segment_chunk(segs, k);
                assert(body.subrange(2 + 4 * k, 6 + 4 * k) =~= sb.subrange(4 * k, 4 * k + 4));
            }
            assert(decode_name_body(body) =~= want);
        }
    }
}

/// The bit position before entry `k` of a field list that starts at `pos`.
pub open spec fn field_pos(v: Seq<FieldListView>, pos: int, k: int) -> int
    decreases k,
{
    if k <= 0 {
        pos
    } else {
        field_entry(v[k - 1], field_pos(v, pos, k - 1)).2
    }
}

/// Whether entry `k` can be written where it stands: an offset that does
/// not move backwards, a size that can be encoded.
pub open spec fn entry_ok(v: Seq<FieldListView>, pos: int, k: int) -> bool {
    field_entry(v[k], field_pos(v, pos, k)).1 is None
}

proof fn lemma_field_pos_shift(v: Seq<FieldListView>, pos: int, k: int)
    requires
        0 <= k < v.len(),
    ensures
        field_pos(v, pos, k + 1) == field_pos(v.drop_first(), field_entry(v[0], pos).2, k),
    decreases k,
{
    let t = v.drop_first();
    let e2 = field_entry(v[0], pos).2;
    if k > 0 {
        lemma_field_pos_shift(v, pos, k - 1);
        assert(t[k - 1] == v[k]);
        assert(field_pos(v, pos, k + 1) == field_entry(v[k], field_pos(v, pos, k)).2);
        assert(field_pos(t, e2, k) == field_entry(t[k - 1], field_pos(t, e2, k - 1)).2);
    } else {
        assert(field_pos(v, pos, 1) == field_entry(v[0], field_pos(v, pos, 0)).2);
        assert(field_pos(t, e2, 0) == e2);
    }
}

/// A field list is written in full exactly when each of its offsets is at
/// or after the bit position reached so far (and every size can be
/// encoded); the first offset that moves backwards fails the whole list
/// with `InvalidFieldOffset`.
pub proof fn lemma_field_offsets(v: Seq<FieldListView>, pos: int)
    ensures
        field_walk(v, pos).1 is None <==> (forall|k: int| 0 <= k < v.len() ==> entry_ok(v, pos, k)),
        forall|k: int|
            0 <= k < v.len() && (forall|j: int| 0 <= j < k ==> entry_ok(v, pos, j))
                && v[k].field_type == FieldType::Offset && v[k].bits < field_pos(v, pos, k)
                ==> field_walk(v, pos).1 == Some(Error::InvalidFieldOffset),
    decreases v.len(),
{
    if v.len() > 0 {
        let e = field_entry(v[0], pos);
        let t = v.drop_first();
        lemma_field_offsets(t, e.2);
        assert forall|k: int| 0 <= k < t.len() implies entry_ok(v, pos, k + 1) == entry_ok(t, e.2, k) by {
            lemma_field_pos_shift(v, pos, k);
        }
        if e.1 is None {
            assert((forall|k: int| 0 <= k < v.len() ==> entry_ok(v, pos, k)) <==> (forall|k: int|
                0 <= k < t.len() ==> entry_ok(t, e.2, k))) by {
                if forall|k: int| 0 <= k < t.len() ==> entry_ok(t, e.2, k) {
                    assert forall|k: int| 0 <= k < v.len() implies entry_ok(v, pos, k) by {
                        if k > 0 {
                            assert(entry_ok(t, e.2, k - 1));
                        }
                    }
                }
            }
            assert forall|k: int|
                0 <= k < v.len() && (forall|j: int| 0 <= j < k ==> entry_ok(v, pos, j))
                    && v[k].field_type == FieldType::Offset && v[k].bits < field_pos(v, pos, k)
                implies field_walk(v, pos).1 == Some(Error::InvalidFieldOffset) by {
                if k == 0 {
                    assert(e.1 == Some(Error::InvalidFieldOffset));
                } else {
                    lemma_field_pos_shift(v, pos, k - 1);
                    assert(t[k - 1] == v[k]);
                    assert forall|j: int| 0 <= j < k - 1 implies entry_ok(t, e.2, j) by {
                        assert(entry_ok(v, pos, j + 1));
                    }
                }
            }
        } else {
            assert(!entry_ok(v, pos, 0));
        }
    }
}

/// Reads back an AML integer term: ZeroOp, OneOp, or a prefix and its
/// little-endian payload of one, two, four or eight bytes.
pub open spec fn decode_integer(b: Seq<u8>) -> int {
    if b[0] == 0x00 {
        0
    } else if b[0] == 0x01 {
        1
    } else if b[0] == 0x0a {
        b[1] as int
    } else if b[0] == 0x0b {
        b[1] + 0x100 * b[2]
    } else if b[0] == 0x0c {
        b[1] + 0x100 * b[2] + 0x10000 * b[3] + 0x1000000 * b[4]
    } else {
        (b[1] + 0x100 * b[2] + 0x10000 * b[3] + 0x1000000 * b[4]) + 0x1_0000_0000 * (b[5] + 0x100
            * b[6] + 0x10000 * b[7] + 0x1000000 * b[8])
    }
}

/// The number of bytes of the smallest AML integer term that holds `v`.
pub open spec fn integer_width(v: u64) -> nat {
    if v <= 1 {
        1
    } else if v <= 0xff {
        2
    } else if v <= 0xffff {
        3
    } else if v <= 0xffff_ffff {
        5
    } else {
        9
    }
}

proof fn lemma_le32_sum(v: int)
    requires
        0 <= v < 0x1_0000_0000,
    ensures
        (v % 0x100) + 0x100 * (v / 0x100 % 0x100) + 0x10000 * (v / 0x10000 % 0x100) + 0x1000000 * (v
            / 0x1000000 % 0x100) == v,
        (v < 0x10000) ==> (v % 0x100) + 0x100 * (v / 0x100 % 0x100) == v,
{
    let a = v % 0x100;
    let q1 = v / 0x100;
    let q2 = q1 / 0x100;
    let q3 = q2 / 0x100;
    assert(v / 0x10000 == q2);
    assert(v / 0x1000000 == q3);
    assert(q3 < 0x100);
    assert(v == a + 0x100 * q1);
    assert(q1 == q1 % 0x100 + 0x100 * q2);
    assert(q2 == q2 % 0x100 + 0x100 * q3);
}

/// The integer term written for `v` is the smallest of ZeroOp/OneOp,
/// ByteConst, WordConst, DWordConst and QWordConst that holds `v`, and it
/// reads back as `v`.
pub proof fn lemma_integer_compact(v: u64)
    ensures
        integer_encoding(v).len() == integer_width(v),
        decode_integer(integer_encoding(v)) == v,
{
    let x = v as int;
    if x > 0xffff_ffff {
        lemma_le32_sum(x % 0x1_0000_0000);
        lemma_le32_sum(x / 0x1_0000_0000);
    } else if x > 1 {
        lemma_le32_sum(x);
    }
}

/// A UUID's bytes go into the buffer with the first group of four, then the
/// next two groups of two, reversed, and the last eight as written.
pub proof fn lemma_uuid_order(b: Seq<u8>)
    requires
        b.len() == 16,
    ensures
        uuid_order(b).len() == 16,
        forall|i: int|
            0 <= i < 16 ==> #[trigger] uuid_order(b)[i] == b[if i < 4 {
                3 - i
            } else if i < 6 {
                9 - i
            } else if i < 8 {
                13 - i
            } else {
                i
            }],
{
}

} // verus!
