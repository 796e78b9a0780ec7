//! The `_ROM` method: hands the OS a clamped window of a ROM image mapped
//! at a fixed address.

use vstd::prelude::*;
use crate::acpigen::{
    AcpiGen, Error, ACPIGEN_LENSTACK_SIZE, ARG0_OP, ARG1_OP, BUFFER_OP, CREATEFIELD_OP,
    EXT_OP_PREFIX, FIELD_OP, IF_OP, LGREATER_OP, LOCAL0_OP, LOCAL1_OP, LOCAL2_OP, LOCAL3_OP,
    METHOD_OP, MULTIPLY_OP, OPREGION_OP, RETURN_OP, STORE_OP, SUBTRACT_OP,
};
use crate::aml::{aml_block, integer_encoding, namestring, simple_name};
use crate::blocks::{method_block, method_rest};
use crate::dsm::if_block;
use crate::fields::field_length;
use crate::namestring::lemma_short_name_ok;
use crate::values::name_head;

verus! {

/// The largest image whose size in bits a field length can encode.
pub const ROM_MAX_LEN: usize = 0x1ff_ffff;

/// `ROMS`, `RBF0`, `TMPB` and `ROM1`.
pub open spec fn roms() -> Seq<u8> {
    seq![0x52u8, 0x4f, 0x4d, 0x53]
}

pub open spec fn rbf0() -> Seq<u8> {
    seq![0x52u8, 0x42, 0x46, 0x30]
}

pub open spec fn tmpb() -> Seq<u8> {
    seq![0x54u8, 0x4d, 0x50, 0x42]
}

pub open spec fn rom1() -> Seq<u8> {
    seq![0x52u8, 0x4f, 0x4d, 0x31]
}

/// The operation region over the image and the field `RBF0` covering it.
#[verifier::opaque]
pub open spec fn rom_region(bios: usize, length: usize) -> Seq<u8> {
    seq![EXT_OP_PREFIX, OPREGION_OP] + simple_name(roms()) + seq![0u8] + integer_encoding(
        bios as u32 as u64,
    ) + integer_encoding(length as u32 as u64) + aml_block(
        seq![EXT_OP_PREFIX, FIELD_OP],
        simple_name(roms()) + seq![0u8] + seq![0u8] + field_length(0) + simple_name(rbf0())
            + field_length((8 * length) as u32 as int),
    )
}

/// Reading the arguments and clamping the length to 4 KiB and to the end
/// of the image.
#[verifier::opaque]
pub open spec fn rom_clamp(length: usize) -> Seq<u8> {
    seq![STORE_OP, ARG0_OP, LOCAL0_OP, STORE_OP, ARG1_OP, LOCAL1_OP] + if_block(
        seq![LGREATER_OP, LOCAL1_OP] + integer_encoding(0x1000) + seq![STORE_OP] + integer_encoding(
            0x1000,
        ) + seq![LOCAL1_OP],
    ) + seq![STORE_OP, LOCAL1_OP, LOCAL3_OP] + if_block(
        seq![LGREATER_OP, LOCAL0_OP] + integer_encoding(length as u64) + seq![RETURN_OP] + aml_block(
            seq![BUFFER_OP],
            seq![LOCAL1_OP, 0u8],
        ),
    ) + rom_tail(length)
}

/// `Local2 = length - Local0; If (Local1 > Local2) { Local1 = Local2 }`:
/// clamps the window to the end of the image.
pub open spec fn rom_to_end(length: usize) -> Seq<u8> {
    seq![SUBTRACT_OP] + integer_encoding(length as u64) + seq![LOCAL0_OP, LOCAL2_OP] + if_block(
        seq![LGREATER_OP, LOCAL1_OP, LOCAL2_OP, STORE_OP, LOCAL2_OP, LOCAL1_OP],
    )
}

/// The clamp to the end of the image; for an image of 4 KiB or more it is
/// only needed when the offset lies in its last 4 KiB.
pub open spec fn rom_tail(length: usize) -> Seq<u8> {
    if length >= 0x1000 {
        if_block(
            seq![LGREATER_OP, LOCAL0_OP] + integer_encoding((length - 0x1000) as u64) + rom_to_end(
                length,
            ),
        )
    } else {
        rom_to_end(length)
    }
}

/// Copying the clamped window into `ROM1` and returning it.
#[verifier::opaque]
pub open spec fn rom_result() -> Seq<u8> {
    name_head(rom1()) + aml_block(seq![BUFFER_OP], seq![LOCAL3_OP, 0u8]) + seq![MULTIPLY_OP, LOCAL1_OP]
        + integer_encoding(8) + seq![LOCAL1_OP, MULTIPLY_OP, LOCAL0_OP] + integer_encoding(8) + seq![
        LOCAL0_OP,
        EXT_OP_PREFIX,
        CREATEFIELD_OP,
    ] + namestring(rbf0()) + seq![LOCAL0_OP, LOCAL1_OP] + namestring(tmpb()) + seq![STORE_OP]
        + namestring(tmpb()) + namestring(rom1()) + seq![RETURN_OP] + namestring(rom1())
}

impl AcpiGen {
    fn write_rom_opregion(&mut self, bios: usize, length: usize) -> (r: Result<(), Error>)
        requires
            old(self).wf(),
        ensures
            final(self).appended(
                old(self),
                seq![EXT_OP_PREFIX, OPREGION_OP] + simple_name(roms()) + seq![0u8] + integer_encoding(
                    bios as u32 as u64,
                ) + integer_encoding(length as u32 as u64),
                r,
            ),
    {
        let roms_name: [u8; 4] = [0x52, 0x4f, 0x4d, 0x53];
        proof {
            assert(roms_name@ =~= roms());
        }
        self.emit_ext_op(OPREGION_OP)?;
        self.emit_simple_namestring_bytes(&roms_name)?;
        self.emit_byte(0)?;
        self.write_integer(bios as u32 as u64)?;
        self.write_integer(length as u32 as u64)?;
        proof {
            assert(self.bytes() =~= old(self).bytes() + (seq![EXT_OP_PREFIX, OPREGION_OP] + simple_name(
                roms(),
            ) + seq![0u8] + integer_encoding(bios as u32 as u64) + integer_encoding(
                length as u32 as u64,
            )));
        }
        Ok(())
    }

    fn write_rom_field_body(&mut self, length: usize) -> (r: Result<(), Error>)
        requires
            old(self).wf(),
            length <= ROM_MAX_LEN,
        ensures
            final(self).appended(
                old(self),
                simple_name(roms()) + seq![0u8] + seq![0u8] + field_length(0) + simple_name(rbf0())
                    + field_length((8 * length) as u32 as int),
                r,
            ),
    {
        let roms_name: [u8; 4] = [0x52, 0x4f, 0x4d, 0x53];
        let rbf0_name: [u8; 4] = [0x52, 0x42, 0x46, 0x30];
        proof {
            assert(roms_name@ =~= roms());
            assert(rbf0_name@ =~= rbf0());
        }
        self.emit_simple_namestring_bytes(&roms_name)?;
        self.emit_byte(0)?;
        self.write_field_offset(0, 0)?;
        self.emit_simple_namestring_bytes(&rbf0_name)?;
        self.write_field_length((8 * length) as u32)?;
        proof {
            assert(self.bytes() =~= old(self).bytes() + (simple_name(roms()) + seq![0u8] + seq![0u8]
                + field_length(0) + simple_name(rbf0()) + field_length((8 * length) as u32 as int)));
        }
        Ok(())
    }

    fn write_rom_region(&mut self, bios: usize, length: usize) -> (r: Result<(), Error>)
        requires
            old(self).wf(),
            old(self).depth() < ACPIGEN_LENSTACK_SIZE,
            length <= ROM_MAX_LEN,
        ensures
            final(self).appended(old(self), rom_region(bios, length), r),
    {
        proof {
            reveal(rom_region);
        }
        self.write_rom_opregion(bios, length)?;
        let ghost mid = self.bytes();
        self.emit_ext_op(FIELD_OP)?;
        self.write_len_f()?;
        self.write_rom_field_body(length)?;
        let ghost head = seq![EXT_OP_PREFIX, FIELD_OP];
        let ghost rest = simple_name(roms()) + seq![0u8] + seq![0u8] + field_length(0) + simple_name(
            rbf0(),
        ) + field_length((8 * length) as u32 as int);
        proof {
            assert(self.bytes() =~= mid + head + seq![0u8, 0u8, 0u8] + rest);
        }
        self.end_block(Ghost(mid), Ghost(head), Ghost(rest));
        proof {
            assert(self.bytes() =~= old(self).bytes() + rom_region(bios, length));
            assert(self.open_blocks() =~= old(self).open_blocks());
        }
        Ok(())
    }

    /// `If (...) { ... }` for a body of plain bytes.
    fn write_if_bytes(&mut self, body: &[u8]) -> (r: Result<(), Error>)
        requires
            old(self).wf(),
            old(self).depth() < ACPIGEN_LENSTACK_SIZE,
        ensures
            final(self).appended(old(self), if_block(body@), r),
    {
        self.write_if()?;
        self.emit_bytes(body)?;
        let ghost head = seq![IF_OP];
        let ghost rest = body@;
        proof {
            assert(self.bytes() =~= old(self).bytes() + head + seq![0u8, 0u8, 0u8] + rest);
        }
        self.end_block(Ghost(old(self).bytes()), Ghost(head), Ghost(rest));
        proof {
            assert(self.open_blocks() =~= old(self).open_blocks());
        }
        Ok(())
    }

    /// `Buffer (op) { 0 }` whose size is held by a one-byte operand.
    fn write_sized_buffer(&mut self, op: u8) -> (r: Result<(), Error>)
        requires
            old(self).wf(),
            old(self).depth() < ACPIGEN_LENSTACK_SIZE,
        ensures
            final(self).appended(old(self), aml_block(seq![BUFFER_OP], seq![op, 0u8]), r),
    {
        self.emit_byte(BUFFER_OP)?;
        self.write_len_f()?;
        self.emit_bytes(&[op, 0])?;
        let ghost head = seq![BUFFER_OP];
        let ghost rest = seq![op, 0u8];
        proof {
            assert([op, 0u8]@ =~= rest);
            assert(self.bytes() =~= old(self).bytes() + head + seq![0u8, 0u8, 0u8] + rest);
        }
        self.end_block(Ghost(old(self).bytes()), Ghost(head), Ghost(rest));
        proof {
            assert(self.open_blocks() =~= old(self).open_blocks());
        }
        Ok(())
    }

    fn write_rom_to_end(&mut self, length: usize) -> (r: Result<(), Error>)
        requires
            old(self).wf(),
            old(self).depth() < ACPIGEN_LENSTACK_SIZE,
        ensures
            final(self).appended(old(self), rom_to_end(length), r),
    {
        self.emit_byte(SUBTRACT_OP)?;
        self.write_integer(length as u64)?;
        self.emit_bytes(&[LOCAL0_OP, LOCAL2_OP])?;
        self.write_if_bytes(&[LGREATER_OP, LOCAL1_OP, LOCAL2_OP, STORE_OP, LOCAL2_OP, LOCAL1_OP])?;
        proof {
            assert([LOCAL0_OP, LOCAL2_OP]@ =~= seq![LOCAL0_OP, LOCAL2_OP]);
            assert([LGREATER_OP, LOCAL1_OP, LOCAL2_OP, STORE_OP, LOCAL2_OP, LOCAL1_OP]@ =~= seq![
                LGREATER_OP,
                LOCAL1_OP,
                LOCAL2_OP,
                STORE_OP,
                LOCAL2_OP,
                LOCAL1_OP,
            ]);
            assert(self.bytes() =~= old(self).bytes() + rom_to_end(length));
        }
        Ok(())
    }

    fn write_rom_tail(&mut self, length: usize) -> (r: Result<(), Error>)
        requires
            old(self).wf(),
            old(self).depth() + 1 < ACPIGEN_LENSTACK_SIZE,
        ensures
            final(self).appended(old(self), rom_tail(length), r),
    {
        if length < 0x1000 {
            return self.write_rom_to_end(length);
        }
        self.write_if()?;
        self.emit_bytes(&[LGREATER_OP, LOCAL0_OP])?;
        self.write_integer((length - 0x1000) as u64)?;
        self.write_rom_to_end(length)?;
        let ghost head = seq![IF_OP];
        let ghost rest = seq![LGREATER_OP, LOCAL0_OP] + integer_encoding((length - 0x1000) as u64)
            + rom_to_end(length);
        proof {
            assert([LGREATER_OP, LOCAL0_OP]@ =~= seq![LGREATER_OP, LOCAL0_OP]);
            assert(self.bytes() =~= old(self).bytes() + head + seq![0u8, 0u8, 0u8] + rest);
        }
        self.end_block(Ghost(old(self).bytes()), Ghost(head), Ghost(rest));
        proof {
            assert(self.open_blocks() =~= old(self).open_blocks());
        }
        Ok(())
    }

    #[verifier::rlimit(80)]
    fn write_rom_clamp(&mut self, length: usize) -> (r: Result<(), Error>)
        requires
            old(self).wf(),
            old(self).depth() + 2 < ACPIGEN_LENSTACK_SIZE,
        ensures
            final(self).appended(old(self), rom_clamp(length), r),
    {
        proof {
            reveal(rom_clamp);
        }
        self.emit_bytes(&[STORE_OP, ARG0_OP, LOCAL0_OP, STORE_OP, ARG1_OP, LOCAL1_OP])?;
        let ghost a = self.bytes();
        self.write_if()?;
        self.emit_bytes(&[LGREATER_OP, LOCAL1_OP])?;
        self.write_integer(0x1000)?;
        self.emit_byte(STORE_OP)?;
        self.write_integer(0x1000)?;
        self.emit_byte(LOCAL1_OP)?;
        let ghost rest1 = seq![LGREATER_OP, LOCAL1_OP] + integer_encoding(0x1000) + seq![STORE_OP]
            + integer_encoding(0x1000) + seq![LOCAL1_OP];
        proof {
            assert([LGREATER_OP, LOCAL1_OP]@ =~= seq![LGREATER_OP, LOCAL1_OP]);
            assert(self.bytes() =~= a + seq![IF_OP] + seq![0u8, 0u8, 0u8] + rest1);
        }
        let ghost if_head = seq![IF_OP];
        self.end_block(Ghost(a), Ghost(if_head), Ghost(rest1));
        self.emit_bytes(&[STORE_OP, LOCAL1_OP, LOCAL3_OP])?;
        let ghost b = self.bytes();
        self.write_if()?;
        self.emit_bytes(&[LGREATER_OP, LOCAL0_OP])?;
        self.write_integer(length as u64)?;
        self.emit_byte(RETURN_OP)?;
        self.write_sized_buffer(LOCAL1_OP)?;
        let ghost rest2 = seq![LGREATER_OP, LOCAL0_OP] + integer_encoding(length as u64) + seq![
            RETURN_OP,
        ] + aml_block(seq![BUFFER_OP], seq![LOCAL1_OP, 0u8]);
        proof {
            assert([LGREATER_OP, LOCAL0_OP]@ =~= seq![LGREATER_OP, LOCAL0_OP]);
            assert(self.bytes() =~= b + if_head + seq![0u8, 0u8, 0u8] + rest2);
        }
        self.end_block(Ghost(b), Ghost(if_head), Ghost(rest2));
        self.write_rom_tail(length)?;
        proof {
            assert([STORE_OP, ARG0_OP, LOCAL0_OP, STORE_OP, ARG1_OP, LOCAL1_OP]@ =~= seq![
                STORE_OP,
                ARG0_OP,
                LOCAL0_OP,
                STORE_OP,
                ARG1_OP,
                LOCAL1_OP,
            ]);
            assert([STORE_OP, LOCAL1_OP, LOCAL3_OP]@ =~= seq![STORE_OP, LOCAL1_OP, LOCAL3_OP]);
            reveal(rom_clamp);
            assert(self.bytes() =~= old(self).bytes() + rom_clamp(length));
            assert(self.open_blocks() =~= old(self).open_blocks());
        }
        Ok(())
    }
}

impl AcpiGen {
    #[verifier::rlimit(80)]
    fn write_rom_result(&mut self) -> (r: Result<(), Error>)
        requires
            old(self).wf(),
            old(self).depth() < ACPIGEN_LENSTACK_SIZE,
        ensures
            final(self).appended(old(self), rom_result(), r),
    {
        proof {
            reveal(rom_result);
        }
        let rbf0_name: [u8; 4] = [0x52, 0x42, 0x46, 0x30];
        let tmpb_name: [u8; 4] = [0x54, 0x4d, 0x50, 0x42];
        let rom1_name: [u8; 4] = [0x52, 0x4f, 0x4d, 0x31];
        proof {
            assert(rbf0_name@ =~= rbf0());
            assert(tmpb_name@ =~= tmpb());
            assert(rom1_name@ =~= rom1());
            lemma_short_name_ok(rbf0());
            lemma_short_name_ok(tmpb());
            lemma_short_name_ok(rom1());
        }
        self.write_name_bytes(&rom1_name)?;
        self.write_sized_buffer(LOCAL3_OP)?;
        self.emit_bytes(&[MULTIPLY_OP, LOCAL1_OP])?;
        self.write_integer(8)?;
        self.emit_bytes(&[LOCAL1_OP, MULTIPLY_OP, LOCAL0_OP])?;
        self.write_integer(8)?;
        self.emit_bytes(&[LOCAL0_OP, EXT_OP_PREFIX, CREATEFIELD_OP])?;
        self.emit_namestring_bytes(&rbf0_name)?;
        self.emit_bytes(&[LOCAL0_OP, LOCAL1_OP])?;
        self.emit_namestring_bytes(&tmpb_name)?;
        self.emit_byte(STORE_OP)?;
        self.emit_namestring_bytes(&tmpb_name)?;
        self.emit_namestring_bytes(&rom1_name)?;
        self.emit_byte(RETURN_OP)?;
        self.emit_namestring_bytes(&rom1_name)?;
        proof {
            assert([MULTIPLY_OP, LOCAL1_OP]@ =~= seq![MULTIPLY_OP, LOCAL1_OP]);
            assert([LOCAL1_OP, MULTIPLY_OP, LOCAL0_OP]@ =~= seq![LOCAL1_OP, MULTIPLY_OP, LOCAL0_OP]);
            assert([LOCAL0_OP, EXT_OP_PREFIX, CREATEFIELD_OP]@ =~= seq![
                LOCAL0_OP,
                EXT_OP_PREFIX,
                CREATEFIELD_OP,
            ]);
            assert([LOCAL0_OP, LOCAL1_OP]@ =~= seq![LOCAL0_OP, LOCAL1_OP]);
            reveal(rom_result);
            assert(self.bytes() =~= old(self).bytes() + rom_result());
        }
        Ok(())
    }

    /// `_ROM`: returns up to 4 KiB of the ROM image of `length` bytes mapped
    /// at `bios`, starting at the offset the OS asks for and clamped to the
    /// end of the image. Fails with `InvalidFieldOffset`, emitting nothing,
    /// when the image's size in bits is too large for a field.
    pub fn write_rom(&mut self, bios: usize, length: usize) -> (r: Result<(), Error>)
        requires
            old(self).wf(),
            old(self).depth() + 3 < ACPIGEN_LENSTACK_SIZE,
            bios != 0,
            length != 0,
        ensures
            final(self).emitted(
                old(self),
                method_block(
                    seq![0x5fu8, 0x52, 0x4f, 0x4d],
                    0x0a,
                    rom_region(bios, length) + rom_clamp(length) + rom_result(),
                ),
                if length > ROM_MAX_LEN {
                    Some(Error::InvalidFieldOffset)
                } else {
                    None
                },
                r,
            ),
    {
        if length > ROM_MAX_LEN {
            return Err(Error::InvalidFieldOffset);
        }
        let name: [u8; 4] = [0x5f, 0x52, 0x4f, 0x4d];
        proof {
            assert(name@ =~= seq![0x5fu8, 0x52, 0x4f, 0x4d]);
            lemma_short_name_ok(name@);
        }
        self.write_method_bytes(&name, 0x0a)?;
        self.write_rom_region(bios, length)?;
        self.write_rom_clamp(length)?;
        self.write_rom_result()?;
        let ghost head = seq![METHOD_OP];
        let ghost rest = method_rest(name@, 0x0a) + (rom_region(bios, length) + rom_clamp(length)
            + rom_result());
        proof {
            assert(self.bytes() =~= old(self).bytes() + head + seq![0u8, 0u8, 0u8] + rest);
        }
        self.end_block(Ghost(old(self).bytes()), Ghost(head), Ghost(rest));
        proof {
            assert(self.open_blocks() =~= old(self).open_blocks());
        }
        Ok(())
    }
}

} // verus!
