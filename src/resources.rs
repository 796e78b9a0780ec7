//! Resource templates and the descriptors inside them.

use vstd::prelude::*;
use crate::acpi::AcpiAddr;
use crate::acpigen::{AcpiGen, Error, ACPIGEN_LENSTACK_SIZE, BUFFER_OP, WORD_PREFIX};
use crate::aml::{aml_block, le16, le32, le64, pkg_length};

verus! {

/// `ResourceTemplate () { items }`: a buffer holding a word-sized length,
/// the items and the end tag.
pub open spec fn resource_template(items: Seq<u8>) -> Seq<u8> {
    aml_block(
        seq![BUFFER_OP],
        seq![WORD_PREFIX] + le16(items.len() + 2int) + items + seq![0x79u8, 0x00u8],
    )
}

/// A Generic Register Descriptor for `addr`.
pub open spec fn register_descriptor(addr: AcpiAddr) -> Seq<u8> {
    seq![0x82u8, 0x0c, 0x00, addr.space_id, addr.bit_width, addr.bit_offset, addr.access_size]
        + le32(addr.addrl as int) + le32(addr.addrh as int)
}

/// A 32-Bit Fixed Memory Range Descriptor.
pub open spec fn mem32fixed_descriptor(readwrite: i32, base: u32, size: u32) -> Seq<u8> {
    seq![0x86u8, 0x09, 0x00, if readwrite != 0 { 1u8 } else { 0u8 }] + le32(base as int) + le32(
        size as int,
    )
}

/// An I/O Port Descriptor.
pub open spec fn io16_descriptor(min: u16, max: u16, align: u8, len: u8, decode16: u8) -> Seq<u8> {
    seq![0x47u8, if decode16 != 0 { 1u8 } else { 0u8 }] + le16(min as int) + le16(max as int) + seq![
        align,
        len,
    ]
}

/// The header of a Word, DWord or QWord Address Space Descriptor.
pub open spec fn address_space_header(tag: u8, len: u8, res_type: u16, gen_flags: u16, type_flags: u16) -> Seq<
    u8,
> {
    seq![tag, len, 0x00u8, res_type as u8, gen_flags as u8, type_flags as u8]
}

/// Patching the template's length word and then its PkgLength gives the
/// whole template.
pub proof fn lemma_template(before: Seq<u8>, items: Seq<u8>)
    ensures
        ({
            let b1 = before + seq![BUFFER_OP, 0u8, 0u8, 0u8, WORD_PREFIX, 0u8, 0u8] + items + seq![
                0x79u8,
                0x00u8,
            ];
            let w = before.len() + 5int;
            let p = before.len() + 1int;
            let b2 = b1.subrange(0, w) + le16(b1.len() - (w + 2)) + b1.subrange(w + 2, b1.len() as int);
            b2.subrange(0, p) + pkg_length(b2.len() - p) + b2.subrange(p + 3, b2.len() as int)
        }) == before + resource_template(items),
{
    let b1 = before + seq![BUFFER_OP, 0u8, 0u8, 0u8, WORD_PREFIX, 0u8, 0u8] + items + seq![
        0x79u8,
        0x00u8,
    ];
    let w = before.len() + 5int;
    let p = before.len() + 1int;
    let b2 = b1.subrange(0, w) + le16(b1.len() - (w + 2)) + b1.subrange(w + 2, b1.len() as int);
    assert(b2 =~= before + seq![BUFFER_OP, 0u8, 0u8, 0u8, WORD_PREFIX] + le16(items.len() + 2int)
        + items + seq![0x79u8, 0x00u8]);
    assert(b2.subrange(0, p) + pkg_length(b2.len() - p) + b2.subrange(p + 3, b2.len() as int)
        =~= before + resource_template(items));
}

impl AcpiGen {
    /// Opens `ResourceTemplate () {`: a buffer whose size word is filled in
    /// by `write_resourcetemplate_footer`.
    pub fn write_resourcetemplate_header(&mut self) -> (r: Result<(), Error>)
        requires
            old(self).wf(),
            old(self).depth() + 1 < ACPIGEN_LENSTACK_SIZE,
        ensures
            final(self).wf(),
            r is Ok <==> old(self).fits(7),
            r is Err ==> r == Err::<(), Error>(Error::BufferFull),
            r is Ok ==> final(self).bytes() == old(self).bytes() + seq![
                BUFFER_OP,
                0u8,
                0u8,
                0u8,
                WORD_PREFIX,
                0u8,
                0u8,
            ],
            r is Ok ==> final(self).open_blocks() == old(self).open_blocks().push(
                (old(self).bytes().len() + 1) as usize,
            ).push((old(self).bytes().len() + 5) as usize),
    {
        if 7 > crate::aml::ACPIGEN_MAXLEN - self.buf_len() {
            return Err(Error::BufferFull);
        }
        self.emit_byte(BUFFER_OP)?;
        self.write_len_f()?;
        self.emit_byte(WORD_PREFIX)?;
        self.push_word_mark();
        proof {
            assert(self.bytes() =~= old(self).bytes() + seq![
                BUFFER_OP,
                0u8,
                0u8,
                0u8,
                WORD_PREFIX,
                0u8,
                0u8,
            ]);
        }
        Ok(())
    }

    /// Closes a resource template: writes the end tag, its size word and its
    /// PkgLength.
    pub fn write_resourcetemplate_footer(&mut self) -> (r: Result<(), Error>)
        requires
            old(self).wf(),
            old(self).depth() >= 2,
            old(self).open_blocks()[old(self).depth() - 2] + 3 <= old(self).top(),
            old(self).top() + 2 <= old(self).bytes().len(),
        ensures
            final(self).wf(),
            r is Ok <==> old(self).fits(2),
            r is Err ==> r == Err::<(), Error>(Error::BufferFull),
            r is Ok ==> final(self).open_blocks() == old(self).open_blocks().drop_last().drop_last(),
            r is Ok ==> ({
                let b1 = old(self).bytes() + seq![0x79u8, 0x00u8];
                let w = old(self).top();
                let p = old(self).open_blocks()[old(self).depth() - 2] as int;
                let b2 = b1.subrange(0, w) + le16(b1.len() - (w + 2)) + b1.subrange(
                    w + 2,
                    b1.len() as int,
                );
                final(self).bytes() == b2.subrange(0, p) + pkg_length(b2.len() - p) + b2.subrange(
                    p + 3,
                    b2.len() as int,
                )
            }),
    {
        self.emit_byte(0x79)?;
        self.emit_byte(0x00)?;
        proof {
            assert(self.bytes() =~= old(self).bytes() + seq![0x79u8, 0x00u8]);
        }
        self.pop_word_mark();
        self.pop_len();
        Ok(())
    }

    /// A Generic Register Descriptor.
    pub fn write_register(&mut self, addr: &AcpiAddr) -> (r: Result<(), Error>)
        requires
            old(self).wf(),
        ensures
            final(self).appended(old(self), register_descriptor(*addr), r),
    {
        let head = [0x82u8, 0x0c, 0x00, addr.space_id, addr.bit_width, addr.bit_offset, addr.access_size];
        if 15 > crate::aml::ACPIGEN_MAXLEN - self.buf_len() {
            return Err(Error::BufferFull);
        }
        self.emit_bytes(&head)?;
        self.emit_dword(addr.addrl)?;
        self.emit_dword(addr.addrh)?;
        proof {
            assert(self.bytes() =~= old(self).bytes() + register_descriptor(*addr));
        }
        Ok(())
    }

    /// `ResourceTemplate () { Register (addr) }`.
    pub fn write_register_resource(&mut self, addr: &AcpiAddr) -> (r: Result<(), Error>)
        requires
            old(self).wf(),
            old(self).depth() + 1 < ACPIGEN_LENSTACK_SIZE,
        ensures
            final(self).appended(old(self), resource_template(register_descriptor(*addr)), r),
    {
        self.write_resourcetemplate_header()?;
        self.write_register(addr)?;
        self.write_resourcetemplate_footer()?;
        proof {
            lemma_template(old(self).bytes(), register_descriptor(*addr));
            assert(self.open_blocks() =~= old(self).open_blocks());
        }
        Ok(())
    }

    /// A 32-Bit Fixed Memory Range Descriptor.
    pub fn write_mem32fixed(&mut self, readwrite: i32, base: u32, size: u32) -> (r: Result<(), Error>)
        requires
            old(self).wf(),
        ensures
            final(self).appended(old(self), mem32fixed_descriptor(readwrite, base, size), r),
    {
        let rw: u8 = if readwrite != 0 {
            1
        } else {
            0
        };
        if 12 > crate::aml::ACPIGEN_MAXLEN - self.buf_len() {
            return Err(Error::BufferFull);
        }
        self.emit_bytes(&[0x86, 0x09, 0x00, rw])?;
        self.emit_dword(base)?;
        self.emit_dword(size)?;
        proof {
            assert([0x86u8, 0x09, 0x00, rw]@ =~= seq![0x86u8, 0x09, 0x00, rw]);
            assert(self.bytes() =~= old(self).bytes() + mem32fixed_descriptor(readwrite, base, size));
        }
        Ok(())
    }

    /// An IRQ Descriptor with the interrupt mask `mask`.
    pub fn write_irq(&mut self, mask: u16) -> (r: Result<(), Error>)
        requires
            old(self).wf(),
        ensures
            final(self).appended(old(self), seq![0x22u8] + le16(mask as int), r),
    {
        let b = [0x22u8, (mask % 0x100) as u8, (mask / 0x100) as u8];
        let r = self.emit_bytes(&b);
        proof {
            assert(b@ =~= seq![0x22u8] + le16(mask as int));
        }
        r
    }

    /// An I/O Port Descriptor.
    pub fn write_io16(&mut self, min: u16, max: u16, align: u8, len: u8, decode16: u8) -> (r: Result<
        (),
        Error,
    >)
        requires
            old(self).wf(),
        ensures
            final(self).appended(old(self), io16_descriptor(min, max, align, len, decode16), r),
    {
        let b = [
            0x47u8,
            if decode16 != 0 {
                1u8
            } else {
                0u8
            },
            (min % 0x100) as u8,
            (min / 0x100) as u8,
            (max % 0x100) as u8,
            (max / 0x100) as u8,
            align,
            len,
        ];
        let r = self.emit_bytes(&b);
        proof {
            assert(b@ =~= io16_descriptor(min, max, align, len, decode16));
        }
        r
    }

    /// Word Address Space Descriptor.
    pub fn resource_word(
        &mut self,
        res_type: u16,
        gen_flags: u16,
        type_flags: u16,
        gran: u16,
        range_min: u16,
        range_max: u16,
        translation: u16,
        length: u16,
    ) -> (r: Result<(), Error>)
        requires
            old(self).wf(),
        ensures
            final(self).appended(
                old(self),
                address_space_header(0x88, 0x0d, res_type, gen_flags, type_flags) + le16(gran as int)
                    + le16(range_min as int) + le16(range_max as int) + le16(translation as int) + le16(
                    length as int,
                ),
                r,
            ),
    {
        if 16 > crate::aml::ACPIGEN_MAXLEN - self.buf_len() {
            return Err(Error::BufferFull);
        }
        let head = [0x88u8, 0x0d, 0x00, res_type as u8, gen_flags as u8, type_flags as u8];
        self.emit_bytes(&head)?;
        self.emit_word(gran as u32)?;
        self.emit_word(range_min as u32)?;
        self.emit_word(range_max as u32)?;
        self.emit_word(translation as u32)?;
        self.emit_word(length as u32)?;
        proof {
            assert(self.bytes() =~= old(self).bytes() + (address_space_header(
                0x88,
                0x0d,
                res_type,
                gen_flags,
                type_flags,
            ) + le16(gran as int) + le16(range_min as int) + le16(range_max as int) + le16(
                translation as int,
            ) + le16(length as int)));
        }
        Ok(())
    }

    /// DWord Address Space Descriptor.
    pub fn resource_dword(
        &mut self,
        res_type: u16,
        gen_flags: u16,
        type_flags: u16,
        gran: u32,
        range_min: u32,
        range_max: u32,
        translation: u32,
        length: u32,
    ) -> (r: Result<(), Error>)
        requires
            old(self).wf(),
        ensures
            final(self).appended(
                old(self),
                address_space_header(0x87, 23, res_type, gen_flags, type_flags) + le32(gran as int)
                    + le32(range_min as int) + le32(range_max as int) + le32(translation as int) + le32(
                    length as int,
                ),
                r,
            ),
    {
        if 26 > crate::aml::ACPIGEN_MAXLEN - self.buf_len() {
            return Err(Error::BufferFull);
        }
        let head = [0x87u8, 23, 0x00, res_type as u8, gen_flags as u8, type_flags as u8];
        self.emit_bytes(&head)?;
        self.emit_dword(gran)?;
        self.emit_dword(range_min)?;
        self.emit_dword(range_max)?;
        self.emit_dword(translation)?;
        self.emit_dword(length)?;
        proof {
            assert(self.bytes() =~= old(self).bytes() + (address_space_header(
                0x87,
                23,
                res_type,
                gen_flags,
                type_flags,
            ) + le32(gran as int) + le32(range_min as int) + le32(range_max as int) + le32(
                translation as int,
            ) + le32(length as int)));
        }
        Ok(())
    }

    /// QWord Address Space Descriptor.
    pub fn resource_qword(
        &mut self,
        res_type: u16,
        gen_flags: u16,
        type_flags: u16,
        gran: u64,
        range_min: u64,
        range_max: u64,
        translation: u64,
        length: u64,
    ) -> (r: Result<(), Error>)
        requires
            old(self).wf(),
        ensures
            final(self).appended(
                old(self),
                address_space_header(0x8a, 0x2b, res_type, gen_flags, type_flags) + le64(gran as int)
                    + le64(range_min as int) + le64(range_max as int) + le64(translation as int) + le64(
                    length as int,
                ),
                r,
            ),
    {
        if 46 > crate::aml::ACPIGEN_MAXLEN - self.buf_len() {
            return Err(Error::BufferFull);
        }
        let head = [0x8au8, 0x2b, 0x00, res_type as u8, gen_flags as u8, type_flags as u8];
        self.emit_bytes(&head)?;
        self.emit_qword(gran)?;
        self.emit_qword(range_min)?;
        self.emit_qword(range_max)?;
        self.emit_qword(translation)?;
        self.emit_qword(length)?;
        proof {
            assert(self.bytes() =~= old(self).bytes() + (address_space_header(
                0x8a,
                0x2b,
                res_type,
                gen_flags,
                type_flags,
            ) + le64(gran as int) + le64(range_min as int) + le64(range_max as int) + le64(
                translation as int,
            ) + le64(length as int)));
        }
        Ok(())
    }
}

} // verus!
