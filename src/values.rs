//! Writers of AML data terms: integers, strings, names and byte buffers.

use vstd::prelude::*;
use crate::acpigen::{
    AcpiGen, Error, ACPIGEN_LENSTACK_SIZE, BUFFER_OP, BYTE_PREFIX, DWORD_PREFIX, EXT_OP_PREFIX,
    NAME_OP, ONES_OP, ONE_OP, QWORD_PREFIX, STRING_PREFIX, WORD_PREFIX, ZERO_OP,
};
use crate::aml::{aml_block, integer_encoding, le16, le32, le64, namestring, pkg_length};
use crate::namestring::{check_namestring, name_err, name_ok};

verus! {

/// Closing a block opened after `before` with `head`, once `body` follows its
/// reserved length field, leaves the whole block behind `before`.
pub proof fn lemma_close_block(before: Seq<u8>, head: Seq<u8>, body: Seq<u8>)
    ensures
        ({
            let b = before + head + seq![0u8, 0u8, 0u8] + body;
            let p = before.len() + head.len() as int;
            b.subrange(0, p) + pkg_length(b.len() - p) + b.subrange(p + 3, b.len() as int)
        }) == before + aml_block(head, body),
{
    let b = before + head + seq![0u8, 0u8, 0u8] + body;
    let p = before.len() + head.len() as int;
    assert(b.subrange(0, p) =~= before + head);
    assert(b.subrange(p + 3, b.len() as int) =~= body);
    assert(b.len() - p == body.len() + 3);
    assert(b.subrange(0, p) + pkg_length(b.len() - p) + b.subrange(p + 3, b.len() as int) =~= before
        + aml_block(head, body));
}

/// `Name (name, ...)`: the NameOp and the name's NameString.
pub open spec fn name_head(name: Seq<u8>) -> Seq<u8> {
    seq![NAME_OP] + namestring(name)
}

/// An AML string: StringPrefix, the bytes, a NUL.
pub open spec fn string_term(s: Seq<u8>) -> Seq<u8> {
    seq![STRING_PREFIX] + s + seq![0u8]
}

/// `Buffer () { bytes }` with its size as an integer term.
pub open spec fn byte_buffer(b: Seq<u8>) -> Seq<u8> {
    aml_block(seq![BUFFER_OP], integer_encoding(b.len() as u64) + b)
}

impl AcpiGen {
    /// Closes the innermost block, opened after `before` with `head`, now
    /// that `body` follows its reserved length field.
    pub(crate) fn end_block(
        &mut self,
        Ghost(before): Ghost<Seq<u8>>,
        Ghost(head): Ghost<Seq<u8>>,
        Ghost(body): Ghost<Seq<u8>>,
    )
        requires
            old(self).wf(),
            old(self).depth() > 0,
            old(self).bytes() == before + head + seq![0u8, 0u8, 0u8] + body,
            old(self).top() == before.len() + head.len(),
        ensures
            final(self).wf(),
            final(self).bytes() == before + aml_block(head, body),
            final(self).open_blocks() == old(self).open_blocks().drop_last(),
            final(self).depth() < ACPIGEN_LENSTACK_SIZE,
    {
        self.pop_len();
        proof {
            lemma_close_block(before, head, body);
        }
    }

    pub fn emit_ext_op(&mut self, op: u8) -> (r: Result<(), Error>)
        requires
            old(self).wf(),
        ensures
            final(self).appended(old(self), seq![EXT_OP_PREFIX, op], r),
            r is Err ==> final(self).unchanged(old(self)),
    {
        let r = self.emit_bytes(&[EXT_OP_PREFIX, op]);
        proof {
            assert([EXT_OP_PREFIX, op]@ =~= seq![EXT_OP_PREFIX, op]);
        }
        r
    }

    /// Emits the low 16 bits of `data`, little-endian.
    pub fn emit_word(&mut self, data: u32) -> (r: Result<(), Error>)
        requires
            old(self).wf(),
        ensures
            final(self).appended(old(self), le16(data as int), r),
            r is Err ==> final(self).unchanged(old(self)),
    {
        let r = self.emit_bytes(&[(data % 0x100) as u8, (data / 0x100 % 0x100) as u8]);
        proof {
            assert([(data % 0x100) as u8, (data / 0x100 % 0x100) as u8]@ =~= le16(data as int));
        }
        r
    }

    pub fn emit_dword(&mut self, data: u32) -> (r: Result<(), Error>)
        requires
            old(self).wf(),
        ensures
            final(self).appended(old(self), le32(data as int), r),
            r is Err ==> final(self).unchanged(old(self)),
    {
        let b = [
            (data % 0x100) as u8,
            (data / 0x100 % 0x100) as u8,
            (data / 0x10000 % 0x100) as u8,
            (data / 0x1000000 % 0x100) as u8,
        ];
        let r = self.emit_bytes(&b);
        proof {
            assert(b@ =~= le32(data as int));
        }
        r
    }

    pub fn emit_qword(&mut self, data: u64) -> (r: Result<(), Error>)
        requires
            old(self).wf(),
        ensures
            final(self).appended(old(self), le64(data as int), r),
            r is Err ==> final(self).unchanged(old(self)),
    {
        if 8 > crate::aml::ACPIGEN_MAXLEN - self.buf_len() {
            return Err(Error::BufferFull);
        }
        self.emit_dword((data % 0x1_0000_0000) as u32)?;
        self.emit_dword((data / 0x1_0000_0000) as u32)?;
        proof {
            assert(self.bytes() =~= old(self).bytes() + le64(data as int));
        }
        Ok(())
    }

    pub fn write_byte(&mut self, data: u32) -> (r: Result<(), Error>)
        requires
            old(self).wf(),
        ensures
            final(self).appended(old(self), seq![BYTE_PREFIX, (data % 0x100) as u8], r),
            r is Err ==> final(self).unchanged(old(self)),
    {
        let r = self.emit_bytes(&[BYTE_PREFIX, (data % 0x100) as u8]);
        proof {
            assert([BYTE_PREFIX, (data % 0x100) as u8]@ =~= seq![BYTE_PREFIX, (data % 0x100) as u8]);
        }
        r
    }

    pub fn write_word(&mut self, data: u32) -> (r: Result<(), Error>)
        requires
            old(self).wf(),
        ensures
            final(self).appended(old(self), seq![WORD_PREFIX] + le16(data as int), r),
            r is Err ==> final(self).unchanged(old(self)),
    {
        let b = [WORD_PREFIX, (data % 0x100) as u8, (data / 0x100 % 0x100) as u8];
        let r = self.emit_bytes(&b);
        proof {
            assert(b@ =~= seq![WORD_PREFIX] + le16(data as int));
        }
        r
    }

    pub fn write_dword(&mut self, data: u32) -> (r: Result<(), Error>)
        requires
            old(self).wf(),
        ensures
            final(self).appended(old(self), seq![DWORD_PREFIX] + le32(data as int), r),
            r is Err ==> final(self).unchanged(old(self)),
    {
        let b = [
            DWORD_PREFIX,
            (data % 0x100) as u8,
            (data / 0x100 % 0x100) as u8,
            (data / 0x10000 % 0x100) as u8,
            (data / 0x1000000 % 0x100) as u8,
        ];
        let r = self.emit_bytes(&b);
        proof {
            assert(b@ =~= seq![DWORD_PREFIX] + le32(data as int));
        }
        r
    }

    pub fn write_qword(&mut self, data: u64) -> (r: Result<(), Error>)
        requires
            old(self).wf(),
        ensures
            final(self).appended(old(self), seq![QWORD_PREFIX] + le64(data as int), r),
            r is Err ==> final(self).unchanged(old(self)),
    {
        if 9 > crate::aml::ACPIGEN_MAXLEN - self.buf_len() {
            return Err(Error::BufferFull);
        }
        self.emit_byte(QWORD_PREFIX)?;
        self.emit_qword(data)?;
        proof {
            assert(self.bytes() =~= old(self).bytes() + (seq![QWORD_PREFIX] + le64(data as int)));
        }
        Ok(())
    }

    pub fn write_zero(&mut self) -> (r: Result<(), Error>)
        requires
            old(self).wf(),
        ensures
            final(self).appended(old(self), seq![ZERO_OP], r),
            r is Err ==> final(self).unchanged(old(self)),
    {
        self.emit_byte(ZERO_OP)
    }

    pub fn write_one(&mut self) -> (r: Result<(), Error>)
        requires
            old(self).wf(),
        ensures
            final(self).appended(old(self), seq![ONE_OP], r),
            r is Err ==> final(self).unchanged(old(self)),
    {
        self.emit_byte(ONE_OP)
    }

    pub fn write_ones(&mut self) -> (r: Result<(), Error>)
        requires
            old(self).wf(),
        ensures
            final(self).appended(old(self), seq![ONES_OP], r),
            r is Err ==> final(self).unchanged(old(self)),
    {
        self.emit_byte(ONES_OP)
    }

    /// Emits `data` in the smallest integer form that holds it.
    pub fn write_integer(&mut self, data: u64) -> (r: Result<(), Error>)
        requires
            old(self).wf(),
        ensures
            final(self).appended(old(self), integer_encoding(data), r),
            r is Err ==> final(self).unchanged(old(self)),
    {
        if data == 0 {
            self.write_zero()
        } else if data == 1 {
            self.write_one()
        } else if data <= 0xff {
            self.write_byte(data as u32)
        } else if data <= 0xffff {
            self.write_word(data as u32)
        } else if data <= 0xffffffff {
            self.write_dword(data as u32)
        } else {
            self.write_qword(data)
        }
    }
}

} // verus!
