//! Operation regions and the bit-level field lists laid over them.

use vstd::prelude::*;
use vstd::string::StringSliceAdditionalSpecFns;
use crate::acpigen::{AcpiGen, Error, ACPIGEN_LENSTACK_SIZE, EXT_OP_PREFIX, FIELD_OP, OPREGION_OP};
use crate::aml::{ACPIGEN_MAXLEN, aml_block, integer_encoding, simple_name};
use crate::values::lemma_close_block;

verus! {

/// Largest bit count a field length can encode.
pub const FIELD_LENGTH_MAX: u32 = 0xfffffff;

/// Kinds of field list entries.
#[derive(Debug, Clone, Copy, PartialEq, Eq, Structural)]
pub enum FieldType {
    Offset,
    NameString,
    Reserved,
    FieldTypeMax,
}

/// One entry of a field list.
pub struct FieldList<'a> {
    field_type: FieldType,
    name: &'a str,
    bits: u32,
}

/// The parts of a `FieldList` entry.
pub struct FieldListView {
    pub field_type: FieldType,
    pub name: Seq<u8>,
    pub bits: u32,
}

impl<'a> View for FieldList<'a> {
    type V = FieldListView;

    closed spec fn view(&self) -> FieldListView {
        FieldListView { field_type: self.field_type, name: self.name.spec_bytes(), bits: self.bits }
    }
}

impl<'a> FieldList<'a> {
    /// Moves to byte offset `bits` (given in bytes, kept in bits).
    pub fn offset(bits: u32) -> (r: Self)
        requires
            bits <= 0x1fff_ffff,
        ensures
            r@.field_type == FieldType::Offset,
            r@.name == Seq::<u8>::empty(),
            r@.bits == bits * 8,
    {
        proof {
            reveal_strlit("");
        }
        Self { field_type: FieldType::Offset, name: "", bits: bits * 8 }
    }

    /// A named field of `bits` bits.
    pub fn namestr(name: &'a str, bits: u32) -> (r: Self)
        ensures
            r@.field_type == FieldType::NameString,
            r@.name == name.spec_bytes(),
            r@.bits == bits,
    {
        Self { field_type: FieldType::NameString, name, bits }
    }

    /// `bits` unnamed, reserved bits.
    pub fn reserved(bits: u32) -> (r: Self)
        ensures
            r@.field_type == FieldType::Reserved,
            r@.name == Seq::<u8>::empty(),
            r@.bits == bits,
    {
        proof {
            reveal_strlit("");
        }
        Self { field_type: FieldType::Reserved, name: "", bits }
    }
}

/// Address spaces of an operation region.
#[derive(Debug, Clone, Copy, PartialEq, Eq, Structural)]
pub enum RegionSpace {
    SystemMemory,
    SystemIo,
    PciConfig,
    EmbeddedControl,
    Smbus,
    Cmos,
    PciBarTarget,
    Ipmi,
    GpioRegion,
    GpSerialBus,
    Pcc,
    FixedHardware,
    RegionSpaceMax,
}

impl RegionSpace {
    pub open spec fn spec_id(&self) -> u8 {
        match self {
            RegionSpace::SystemMemory => 0x00,
            RegionSpace::SystemIo => 0x01,
            RegionSpace::PciConfig => 0x02,
            RegionSpace::EmbeddedControl => 0x03,
            RegionSpace::Smbus => 0x04,
            RegionSpace::Cmos => 0x05,
            RegionSpace::PciBarTarget => 0x06,
            RegionSpace::Ipmi => 0x07,
            RegionSpace::GpioRegion => 0x08,
            RegionSpace::GpSerialBus => 0x09,
            RegionSpace::Pcc => 0x0a,
            RegionSpace::FixedHardware => 0x7f,
            RegionSpace::RegionSpaceMax => 0x80,
        }
    }

    /// The RegionSpace byte.
    #[verifier::when_used_as_spec(spec_id)]
    pub fn id(&self) -> (r: u8)
        ensures
            r == self.spec_id(),
    {
        match self {
            RegionSpace::SystemMemory => 0x00,
            RegionSpace::SystemIo => 0x01,
            RegionSpace::PciConfig => 0x02,
            RegionSpace::EmbeddedControl => 0x03,
            RegionSpace::Smbus => 0x04,
            RegionSpace::Cmos => 0x05,
            RegionSpace::PciBarTarget => 0x06,
            RegionSpace::Ipmi => 0x07,
            RegionSpace::GpioRegion => 0x08,
            RegionSpace::GpSerialBus => 0x09,
            RegionSpace::Pcc => 0x0a,
            RegionSpace::FixedHardware => 0x7f,
            RegionSpace::RegionSpaceMax => 0x80,
        }
    }
}

/// An operation region: name, address space, offset and length.
pub struct OpRegion<'a> {
    name: &'a str,
    region_space: RegionSpace,
    region_offset: u32,
    region_len: u32,
}

/// The parts of an `OpRegion`.
pub struct OpRegionView {
    pub name: Seq<u8>,
    pub region_space: RegionSpace,
    pub region_offset: u32,
    pub region_len: u32,
}

impl<'a> View for OpRegion<'a> {
    type V = OpRegionView;

    closed spec fn view(&self) -> OpRegionView {
        OpRegionView {
            name: self.name.spec_bytes(),
            region_space: self.region_space,
            region_offset: self.region_offset,
            region_len: self.region_len,
        }
    }
}

impl<'a> OpRegion<'a> {
    pub fn create(name: &'a str, region_space: RegionSpace, region_offset: u32, region_len: u32) -> (r:
        Self)
        ensures
            r@ == (OpRegionView { name: name.spec_bytes(), region_space, region_offset, region_len }),
    {
        Self { name, region_space, region_offset, region_len }
    }
}

/// The variable-length bit count of a field list entry (`len` at most
/// `FIELD_LENGTH_MAX`): one byte below 0x40, else a length byte whose top two
/// bits count the bytes that carry `len >> 4`.
pub open spec fn field_length(len: int) -> Seq<u8> {
    let v = len / 16;
    if len < 0x40 {
        seq![len as u8]
    } else if v < 0x100 {
        seq![(0x40 + len % 16) as u8, v as u8]
    } else if v < 0x10000 {
        seq![(0x80 + len % 16) as u8, (v % 0x100) as u8, (v / 0x100) as u8]
    } else {
        seq![(0xc0 + len % 16) as u8, (v % 0x100) as u8, (v / 0x100 % 0x100) as u8, (v / 0x10000) as u8]
    }
}

/// One field list entry at bit position `pos`: its bytes, the error it
/// raises (an offset before `pos`, or a bit count too large to encode), and
/// the bit position after it.
pub open spec fn field_entry(e: FieldListView, pos: int) -> (Seq<u8>, Option<Error>, int) {
    match e.field_type {
        FieldType::NameString => (
            simple_name(e.name) + field_length(e.bits as int),
            if e.bits > FIELD_LENGTH_MAX {
                Some(Error::InvalidFieldOffset)
            } else {
                None
            },
            pos + e.bits,
        ),
        FieldType::Reserved => (
            seq![0u8] + field_length(e.bits as int),
            if e.bits > FIELD_LENGTH_MAX {
                Some(Error::InvalidFieldOffset)
            } else {
                None
            },
            pos + e.bits,
        ),
        FieldType::Offset => (
            seq![0u8] + field_length(e.bits - pos),
            if e.bits < pos || e.bits - pos > FIELD_LENGTH_MAX {
                Some(Error::InvalidFieldOffset)
            } else {
                None
            },
            e.bits as int,
        ),
        FieldType::FieldTypeMax => (Seq::empty(), Some(Error::InvalidFieldType), pos),
    }
}

/// The encoding of the entries of `l` for a field whose bit position starts
/// at `pos`, up to the first entry that raises an error, and that error.
pub open spec fn field_walk(l: Seq<FieldListView>, pos: int) -> (Seq<u8>, Option<Error>)
    decreases l.len(),
{
    if l.len() == 0 {
        (Seq::empty(), None)
    } else {
        let e = field_entry(l[0], pos);
        if e.1 is Some {
            (Seq::empty(), e.1)
        } else {
            let w = field_walk(l.drop_first(), e.2);
            (e.0 + w.0, w.1)
        }
    }
}

/// The views of the entries of a field list.
pub open spec fn field_views(l: Seq<FieldList>) -> Seq<FieldListView> {
    l.map_values(|e: FieldList| e@)
}

/// The walk's bytes have a length (a fact the solver needs spelled out).
proof fn field_walk_len_nonneg(v: Seq<FieldListView>)
    ensures
        field_walk(v, 0).0.len() >= 0,
{
}

/// Unfolds one entry of a field list walk.
pub proof fn lemma_walk_step(v: Seq<FieldListView>, i: int, pos: int)
    requires
        0 <= i < v.len(),
    ensures
        field_walk(v.subrange(i, v.len() as int), pos) == ({
            let e = field_entry(v[i], pos);
            if e.1 is Some {
                (Seq::<u8>::empty(), e.1)
            } else {
                let w = field_walk(v.subrange(i + 1, v.len() as int), e.2);
                (e.0 + w.0, w.1)
            }
        }),
{
    assert(v.subrange(i, v.len() as int).drop_first() =~= v.subrange(i + 1, v.len() as int));
}

impl AcpiGen {
    /// Emits one field list entry at bit position `pos` and returns the bit
    /// position after it.
    fn write_field_entry(&mut self, e: &FieldList, pos: u64) -> (r: Result<u64, Error>)
        requires
            old(self).wf(),
            pos <= 0xffff_ffff_0000_0000,
        ensures
            ({
                let fe = field_entry(e@, pos as int);
                &&& final(self).emitted(
                    old(self),
                    fe.0,
                    fe.1,
                    match r {
                        Ok(_) => Ok(()),
                        Err(x) => Err(x),
                    },
                )
                &&& r is Ok ==> r->Ok_0 == fe.2
            }),
    {
        match e.field_type {
            FieldType::NameString => {
                self.write_field_name(e.name, e.bits)?;
                Ok(pos + e.bits as u64)
            },
            FieldType::Reserved => {
                self.write_field_reserved(e.bits)?;
                Ok(pos + e.bits as u64)
            },
            FieldType::Offset => {
                if (e.bits as u64) < pos {
                    return Err(Error::InvalidFieldOffset);
                }
                self.write_field_offset(e.bits, pos as u32)?;
                Ok(e.bits as u64)
            },
            FieldType::FieldTypeMax => Err(Error::InvalidFieldType),
        }
    }

    /// `self` is what `write_field` left behind: `head`, a PkgLength, `rest`
    /// and the walk's bytes, closed, or the walk's error, or `BufferFull`
    /// when the bytes up to the error do not fit.
    pub open spec fn field_outcome(
        &self,
        old: &AcpiGen,
        head: Seq<u8>,
        rest: Seq<u8>,
        walk: (Seq<u8>, Option<Error>),
        r: Result<(), Error>,
    ) -> bool {
        let n = head.len() + 3 + rest.len() + walk.0.len() as int;
        &&& self.wf()
        &&& (r is Ok <==> walk.1 is None && old.fits(n))
        &&& (r is Err ==> (r == Err::<(), Error>(Error::BufferFull) <==> !old.fits(n)))
        &&& (r is Err && old.fits(n) ==> walk.1 == Some(r->Err_0))
        &&& (r is Ok ==> self.bytes() == old.bytes() + aml_block(head, rest + walk.0)
            && self.open_blocks() == old.open_blocks())
    }

    /// `Field (name, flags) { entries }`: offsets may only move forward.
    pub fn write_field(&mut self, name: &str, l: &[FieldList], flags: u8) -> (r: Result<(), Error>)
        requires
            old(self).wf(),
            old(self).depth() < ACPIGEN_LENSTACK_SIZE,
            l@.len() <= 0xffff_ffff,
        ensures
            final(self).field_outcome(
                old(self),
                seq![EXT_OP_PREFIX, FIELD_OP],
                simple_name(name.spec_bytes()) + seq![flags],
                field_walk(field_views(l@), 0),
                r,
            ),
    {
        let ghost v = field_views(l@);
        let ghost head = seq![EXT_OP_PREFIX, FIELD_OP];
        let ghost rest = simple_name(name.spec_bytes()) + seq![flags];
        proof {
            field_walk_len_nonneg(v);
        }
        self.emit_ext_op(FIELD_OP)?;
        self.write_len_f()?;
        self.emit_simple_namestring(name)?;
        self.emit_byte(flags)?;
        let ghost start = self.bytes();
        proof {
            assert(start =~= old(self).bytes() + head + seq![0u8, 0u8, 0u8] + rest);
            assert(v.subrange(0, v.len() as int) =~= v);
        }
        let mut pos: u64 = 0;
        let mut i: usize = 0;
        let ghost mut done: Seq<u8> = Seq::empty();
        while i < l.len()
            invariant
                self.wf(),
                i <= l@.len(),
                l@.len() <= 0xffff_ffff,
                v == field_views(l@),
                v.len() == l@.len(),
                pos <= 0x1_0000_0000 + i * 0x1000_0000,
                head == seq![EXT_OP_PREFIX, FIELD_OP],
                rest == simple_name(name.spec_bytes()) + seq![flags],
                start == old(self).bytes() + head + seq![0u8, 0u8, 0u8] + rest,
                self.bytes() == start + done,
                self.open_blocks() == old(self).open_blocks().push(
                    (old(self).bytes().len() + head.len()) as usize,
                ),
                ({
                    let w = field_walk(v.subrange(i as int, v.len() as int), pos as int);
                    field_walk(v, 0) == (done + w.0, w.1)
                }),
            decreases l@.len() - i,
        {
            let e = &l[i];
            proof {
                lemma_walk_step(v, i as int, pos as int);
                assert(v[i as int] == l@[i as int]@);
                self.lemma_wf_bounds();
            }
            let ghost fe = field_entry(v[i as int], pos as int);
            let ghost before = self.bytes().len();
            let res = self.write_field_entry(e, pos);
            match res {
                Ok(next) => {
                    proof {
                        done = done + fe.0;
                    }
                    pos = next;
                },
                Err(err) => {
                    proof {
                        let w = field_walk(v.subrange(i as int, v.len() as int), pos as int);
                        assert(before == old(self).bytes().len() + head.len() + 3 + rest.len()
                            + done.len());
                        if fe.1 is Some {
                            assert(w == (Seq::<u8>::empty(), fe.1));
                            assert(field_walk(v, 0).0 =~= done);
                            assert(fe.1 != Some(Error::BufferFull));
                            assert(old(self).fits(
                                head.len() + 3 + rest.len() + field_walk(v, 0).0.len() as int,
                            ));
                        } else {
                            let w2 = field_walk(v.subrange(i + 1, v.len() as int), fe.2);
                            assert(w.0 == fe.0 + w2.0);
                            assert(field_walk(v, 0).0.len() >= done.len() + fe.0.len());
                            assert(err == Error::BufferFull);
                            assert(before + fe.0.len() > ACPIGEN_MAXLEN);
                            assert(!old(self).fits(
                                head.len() + 3 + rest.len() + field_walk(v, 0).0.len() as int,
                            ));
                        }
                    }
                    return Err(err);
                },
            }
            proof {
                assert(self.bytes() =~= start + done);
                assert(field_walk(v, 0).0 =~= done + field_walk(
                    v.subrange(i + 1, v.len() as int),
                    pos as int,
                ).0);
            }
            i = i + 1;
        }
        proof {
            self.lemma_wf_bounds();
        }
        self.pop_len();
        proof {
            assert(v.subrange(i as int, v.len() as int) =~= Seq::<FieldListView>::empty());
            assert(field_walk(v, 0).0 =~= done);
            lemma_close_block(old(self).bytes(), head, rest + done);
            assert(start + done =~= old(self).bytes() + head + seq![0u8, 0u8, 0u8] + (rest + done));
            assert(self.open_blocks() =~= old(self).open_blocks());
        }
        Ok(())
    }

    /// `OperationRegion (name, space, offset, length)`.
    pub fn write_opregion(&mut self, opreg: &OpRegion) -> (r: Result<(), Error>)
        requires
            old(self).wf(),
        ensures
            final(self).appended(
                old(self),
                seq![EXT_OP_PREFIX, OPREGION_OP] + simple_name(opreg@.name) + seq![
                    opreg@.region_space.spec_id(),
                ] + integer_encoding(opreg@.region_offset as u64) + integer_encoding(
                    opreg@.region_len as u64,
                ),
                r,
            ),
    {
        self.emit_ext_op(OPREGION_OP)?;
        self.emit_simple_namestring(opreg.name)?;
        self.emit_byte(opreg.region_space.id())?;
        self.write_integer(opreg.region_offset as u64)?;
        self.write_integer(opreg.region_len as u64)?;
        proof {
            assert(self.bytes() =~= old(self).bytes() + (seq![EXT_OP_PREFIX, OPREGION_OP]
                + simple_name(opreg@.name) + seq![opreg@.region_space.spec_id()] + integer_encoding(
                opreg@.region_offset as u64,
            ) + integer_encoding(opreg@.region_len as u64)));
        }
        Ok(())
    }

    /// Emits the bit count of a field entry.
    pub fn write_field_length(&mut self, len: u32) -> (r: Result<(), Error>)
        requires
            old(self).wf(),
        ensures
            final(self).emitted(
                old(self),
                field_length(len as int),
                if len > FIELD_LENGTH_MAX {
                    Some(Error::InvalidFieldOffset)
                } else {
                    None
                },
                r,
            ),
    {
        if len > FIELD_LENGTH_MAX {
            return Err(Error::InvalidFieldOffset);
        }
        let v = len / 16;
        let r = if len < 0x40 {
            let b = [len as u8];
            proof {
                assert(b@ =~= field_length(len as int));
            }
            self.emit_bytes(&b)
        } else if v < 0x100 {
            let b = [(0x40 + len % 16) as u8, v as u8];
            proof {
                assert(b@ =~= field_length(len as int));
            }
            self.emit_bytes(&b)
        } else if v < 0x10000 {
            let b = [(0x80 + len % 16) as u8, (v % 0x100) as u8, (v / 0x100) as u8];
            proof {
                assert(b@ =~= field_length(len as int));
            }
            self.emit_bytes(&b)
        } else {
            let b = [
                (0xc0 + len % 16) as u8,
                (v % 0x100) as u8,
                (v / 0x100 % 0x100) as u8,
                (v / 0x10000) as u8,
            ];
            proof {
                assert(b@ =~= field_length(len as int));
            }
            self.emit_bytes(&b)
        };
        r
    }

    /// Emits `Offset (offset)` for a field whose position is
    /// `current_bit_pos`: a null name and the distance in bits.
    pub fn write_field_offset(&mut self, offset: u32, current_bit_pos: u32) -> (r: Result<(), Error>)
        requires
            old(self).wf(),
        ensures
            final(self).emitted(
                old(self),
                seq![0u8] + field_length(offset - current_bit_pos),
                if offset < current_bit_pos || offset - current_bit_pos > FIELD_LENGTH_MAX {
                    Some(Error::InvalidFieldOffset)
                } else {
                    None
                },
                r,
            ),
    {
        if offset < current_bit_pos {
            return Err(Error::InvalidFieldOffset);
        }
        let diff_bits = offset - current_bit_pos;
        if diff_bits > FIELD_LENGTH_MAX {
            return Err(Error::InvalidFieldOffset);
        }
        self.emit_byte(0)?;
        self.write_field_length(diff_bits)?;
        proof {
            assert(self.bytes() =~= old(self).bytes() + (seq![0u8] + field_length(
                offset - current_bit_pos,
            )));
        }
        Ok(())
    }

    /// A named field entry: its four-byte name and its size in bits.
    pub fn write_field_name(&mut self, name: &str, size: u32) -> (r: Result<(), Error>)
        requires
            old(self).wf(),
        ensures
            final(self).emitted(
                old(self),
                simple_name(name.spec_bytes()) + field_length(size as int),
                if size > FIELD_LENGTH_MAX {
                    Some(Error::InvalidFieldOffset)
                } else {
                    None
                },
                r,
            ),
    {
        if size > FIELD_LENGTH_MAX {
            return Err(Error::InvalidFieldOffset);
        }
        self.emit_simple_namestring(name)?;
        self.write_field_length(size)?;
        proof {
            assert(self.bytes() =~= old(self).bytes() + (simple_name(name.spec_bytes())
                + field_length(size as int)));
        }
        Ok(())
    }

    /// A reserved field entry: a null name and its size in bits.
    pub fn write_field_reserved(&mut self, size: u32) -> (r: Result<(), Error>)
        requires
            old(self).wf(),
        ensures
            final(self).emitted(
                old(self),
                seq![0u8] + field_length(size as int),
                if size > FIELD_LENGTH_MAX {
                    Some(Error::InvalidFieldOffset)
                } else {
                    None
                },
                r,
            ),
    {
        if size > FIELD_LENGTH_MAX {
            return Err(Error::InvalidFieldOffset);
        }
        self.emit_byte(0)?;
        self.write_field_length(size)?;
        proof {
            assert(self.bytes() =~= old(self).bytes() + (seq![0u8] + field_length(size as int)));
        }
        Ok(())
    }
}

} // verus!
