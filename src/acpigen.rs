//! The AML assembler: an append-only byte buffer with a stack of open
//! length-prefixed blocks whose PkgLength is patched when they close.

use vstd::prelude::*;
use crate::aml::{
    ACPIGEN_MAXLEN, aml_block, integer_encoding, le16, le32, le64, pkg_length,
};

verus! {

pub const UUID_LEN: usize = 16;
pub const CPPC_PACKAGE_NAME: &'static str = "GCPC";

pub const FIELD_ANYACC: usize = 0;
pub const FIELD_BYTEACC: usize = 1;
pub const FIELD_WORDACC: usize = 2;
pub const FIELD_DWORDACC: usize = 3;
pub const FIELD_QWORDACC: usize = 4;
pub const FIELD_BUFFERACC: usize = 5;
pub const FIELD_NOLOCK: usize = 0;
pub const FIELD_LOCK: usize = 0x10;
pub const FIELD_PRESERVE: usize = 0;
pub const FIELD_WRITEASONES: usize = 0x20;
pub const FIELD_WRITEASZEROS: usize = 0x40;

// AML opcodes and prefixes.
pub const ZERO_OP: u8 = 0x00;
pub const ONE_OP: u8 = 0x01;
pub const ALIAS_OP: u8 = 0x06;
pub const NAME_OP: u8 = 0x08;
pub const BYTE_PREFIX: u8 = 0x0A;
pub const WORD_PREFIX: u8 = 0x0B;
pub const DWORD_PREFIX: u8 = 0x0C;
pub const STRING_PREFIX: u8 = 0x0D;
pub const QWORD_PREFIX: u8 = 0x0E;
pub const SCOPE_OP: u8 = 0x10;
pub const BUFFER_OP: u8 = 0x11;
pub const PACKAGE_OP: u8 = 0x12;
pub const VARIABLE_PACKAGE_OP: u8 = 0x13;
pub const METHOD_OP: u8 = 0x14;
pub const EXTERNAL_OP: u8 = 0x15;
pub const DUAL_NAME_PREFIX: u8 = 0x2E;
pub const MULTI_NAME_PREFIX: u8 = 0x2F;
pub const EXT_OP_PREFIX: u8 = 0x5B;
pub const MUTEX_OP: u8 = 0x01;
pub const EVENT_OP: u8 = 0x01;
pub const SF_RIGHT_OP: u8 = 0x10;
pub const SF_LEFT_OP: u8 = 0x11;
pub const COND_REFOF_OP: u8 = 0x12;
pub const CREATEFIELD_OP: u8 = 0x13;
pub const LOAD_TABLE_OP: u8 = 0x1f;
pub const LOAD_OP: u8 = 0x20;
pub const STALL_OP: u8 = 0x21;
pub const SLEEP_OP: u8 = 0x22;
pub const ACQUIRE_OP: u8 = 0x23;
pub const SIGNAL_OP: u8 = 0x24;
pub const WAIT_OP: u8 = 0x25;
pub const RST_OP: u8 = 0x26;
pub const RELEASE_OP: u8 = 0x27;
pub const FROM_BCD_OP: u8 = 0x28;
pub const TO_BCD_OP: u8 = 0x29;
pub const UNLOAD_OP: u8 = 0x2A;
pub const REVISON_OP: u8 = 0x30;
pub const DEBUG_OP: u8 = 0x31;
pub const FATAL_OP: u8 = 0x32;
pub const TIMER_OP: u8 = 0x33;
pub const OPREGION_OP: u8 = 0x80;
pub const FIELD_OP: u8 = 0x81;
pub const DEVICE_OP: u8 = 0x82;
pub const PROCESSOR_OP: u8 = 0x83;
pub const POWER_RES_OP: u8 = 0x84;
pub const THERMAL_ZONE_OP: u8 = 0x85;
pub const INDEX_FIELD_OP: u8 = 0x86;
pub const BANK_FIELD_OP: u8 = 0x87;
pub const DATA_REGION_OP: u8 = 0x88;
pub const ROOT_PREFIX: u8 = 0x5C;
pub const PARENT_PREFIX: u8 = 0x5E;
pub const LOCAL0_OP: u8 = 0x60;
pub const LOCAL1_OP: u8 = 0x61;
pub const LOCAL2_OP: u8 = 0x62;
pub const LOCAL3_OP: u8 = 0x63;
pub const LOCAL4_OP: u8 = 0x64;
pub const LOCAL5_OP: u8 = 0x65;
pub const LOCAL6_OP: u8 = 0x66;
pub const LOCAL7_OP: u8 = 0x67;
pub const ARG0_OP: u8 = 0x68;
pub const ARG1_OP: u8 = 0x69;
pub const ARG2_OP: u8 = 0x6A;
pub const ARG3_OP: u8 = 0x6B;
pub const ARG4_OP: u8 = 0x6C;
pub const ARG5_OP: u8 = 0x6D;
pub const ARG6_OP: u8 = 0x6E;
pub const STORE_OP: u8 = 0x70;
pub const REF_OF_OP: u8 = 0x71;
pub const ADD_OP: u8 = 0x72;
pub const CONCATENATE_OP: u8 = 0x73;
pub const SUBTRACT_OP: u8 = 0x74;
pub const INCREMENT_OP: u8 = 0x75;
pub const DECREMENT_OP: u8 = 0x76;
pub const MULTIPLY_OP: u8 = 0x77;
pub const DIVIDE_OP: u8 = 0x78;
pub const SHIFT_LEFT_OP: u8 = 0x79;
pub const SHIFT_RIGHT_OP: u8 = 0x7A;
pub const AND_OP: u8 = 0x7B;
pub const NAND_OP: u8 = 0x7C;
pub const OR_OP: u8 = 0x7D;
pub const NOR_OP: u8 = 0x7E;
pub const XOR_OP: u8 = 0x7F;
pub const NOT_OP: u8 = 0x80;
pub const FD_SHIFT_LEFT_BIT_OR: u8 = 0x81;
pub const FD_SHIFT_RIGHT_BIT_OR: u8 = 0x82;
pub const DEREF_OP: u8 = 0x83;
pub const CONCATENATE_TEMP_OP: u8 = 0x84;
pub const MOD_OP: u8 = 0x85;
pub const NOTIFY_OP: u8 = 0x86;
pub const SIZEOF_OP: u8 = 0x87;
pub const INDEX_OP: u8 = 0x88;
pub const MATCH_OP: u8 = 0x89;
pub const CREATE_DWORD_OP: u8 = 0x8A;
pub const CREATE_WORD_OP: u8 = 0x8B;
pub const CREATE_BYTE_OP: u8 = 0x8C;
pub const CREATE_BIT_OP: u8 = 0x8D;
pub const OBJ_TYPE_OP: u8 = 0x8E;
pub const CREATE_QWORD_OP: u8 = 0x8F;
pub const LAND_OP: u8 = 0x90;
pub const LOR_OP: u8 = 0x91;
pub const LNOT_OP: u8 = 0x92;
pub const LEQUAL_OP: u8 = 0x93;
pub const LGREATER_OP: u8 = 0x94;
pub const LLESS_OP: u8 = 0x95;
pub const TO_BUFFER_OP: u8 = 0x96;
pub const TO_DEC_STRING_OP: u8 = 0x97;
pub const TO_HEX_STRING_OP: u8 = 0x98;
pub const TO_INTEGER_OP: u8 = 0x99;
pub const TO_STRING_OP: u8 = 0x9C;
pub const CP_OBJ_OP: u8 = 0x9D;
pub const MID_OP: u8 = 0x9E;
pub const CONTINUE_OP: u8 = 0x9F;
pub const IF_OP: u8 = 0xA0;
pub const ELSE_OP: u8 = 0xA1;
pub const WHILE_OP: u8 = 0xA2;
pub const NOOP_OP: u8 = 0xA3;
pub const RETURN_OP: u8 = 0xA4;
pub const BREAK_OP: u8 = 0xA5;
pub const COMMENT_OP: u8 = 0xA9;
pub const BREAKPIONT_OP: u8 = 0xCC;
pub const ONES_OP: u8 = 0xFF;

/// How many length-prefixed blocks may be open at once.
pub const ACPIGEN_LENSTACK_SIZE: usize = 10;

/// Errors reported by the assembler.
#[derive(Debug, Clone, Copy, PartialEq, Eq, Structural)]
pub enum Error {
    /// The output buffer would grow past its capacity.
    BufferFull,
    /// A replacement buffer handed to `set_current` is too long.
    CurrentTooLong,
    /// A name path has more segments than a MultiNamePrefix can count.
    NameTooLong,
    /// A coreboot `_HID` string could not be formed.
    HIDString,
    /// A UUID string holds fewer than sixteen bytes of hex digits.
    UUIDTooShort,
    /// A CPPC table version other than 1, 2 or 3.
    InvalidCppcVersion(u32),
    /// A field offset moves backwards or is too far to encode.
    InvalidFieldOffset,
    /// A field list entry of unknown type.
    InvalidFieldType,
    /// A GPIO number outside the platform's range.
    InvalidGpioPins,
    /// An EISA ID that is not three capital letters and four hex digits.
    InvalidEisaId,
}

/// The assembler state: the AML emitted so far and the start positions of
/// the blocks still open.
pub struct AcpiGen {
    buf: Vec<u8>,
    len_stack: Vec<usize>,
}

impl AcpiGen {
    /// The bytes emitted so far.
    pub closed spec fn bytes(&self) -> Seq<u8> {
        self.buf@
    }

    /// Positions of the length fields of the blocks still open, innermost last.
    pub closed spec fn open_blocks(&self) -> Seq<usize> {
        self.len_stack@
    }

    pub open spec fn depth(&self) -> nat {
        self.open_blocks().len()
    }

    /// Position of the innermost open block's length field.
    pub open spec fn top(&self) -> int {
        self.open_blocks().last() as int
    }

    /// The buffer once the innermost block's length field is written.
    pub open spec fn closed_top(&self) -> Seq<u8> {
        self.bytes().subrange(0, self.top()) + pkg_length(self.bytes().len() - self.top())
            + self.bytes().subrange(self.top() + 3, self.bytes().len() as int)
    }

    pub closed spec fn wf(&self) -> bool {
        &&& self.buf@.len() <= ACPIGEN_MAXLEN
        &&& self.len_stack@.len() <= ACPIGEN_LENSTACK_SIZE
        &&& forall|i: int|
            0 <= i < self.len_stack@.len() ==> #[trigger] self.len_stack@[i] + 2 <= self.buf@.len()
    }

    /// What a well-formed state holds of its size and depth.
    pub proof fn lemma_wf_bounds(&self)
        requires
            self.wf(),
        ensures
            self.bytes().len() <= ACPIGEN_MAXLEN,
            self.depth() <= ACPIGEN_LENSTACK_SIZE,
    {
    }

    /// Whether `n` more bytes fit in the buffer.
    pub open spec fn fits(&self, n: int) -> bool {
        self.bytes().len() + n <= ACPIGEN_MAXLEN
    }

    /// Nothing was emitted and no block opened or closed.
    pub open spec fn unchanged(&self, old: &AcpiGen) -> bool {
        self.bytes() == old.bytes() && self.open_blocks() == old.open_blocks()
    }

    /// `self` is what a call left behind that appends `out` to `old`, or
    /// fails with `bad` on malformed input (emitting nothing), or with
    /// `BufferFull` when `out` does not fit.
    pub open spec fn emitted(
        &self,
        old: &AcpiGen,
        out: Seq<u8>,
        bad: Option<Error>,
        r: Result<(), Error>,
    ) -> bool {
        &&& self.wf()
        &&& match bad {
            Some(e) => r == Err::<(), Error>(e) && self.unchanged(old),
            None => (r is Ok <==> old.fits(out.len() as int)) && (r is Err ==> r == Err::<(), Error>(
                Error::BufferFull,
            )),
        }
        &&& r is Ok ==> self.bytes() == old.bytes() + out && self.open_blocks() == old.open_blocks()
    }

    /// `emitted` for input that cannot be malformed.
    pub open spec fn appended(&self, old: &AcpiGen, out: Seq<u8>, r: Result<(), Error>) -> bool {
        self.emitted(old, out, None, r)
    }

    /// `self` is what a call left behind that emits `head`, reserves a
    /// PkgLength and emits `rest`, leaving that block open.
    pub open spec fn opened(
        &self,
        old: &AcpiGen,
        head: Seq<u8>,
        rest: Seq<u8>,
        bad: Option<Error>,
        r: Result<(), Error>,
    ) -> bool {
        &&& self.wf()
        &&& match bad {
            Some(e) => r == Err::<(), Error>(e) && self.unchanged(old),
            None => (r is Ok <==> old.fits(head.len() + 3 + rest.len() as int)) && (r is Err ==> r
                == Err::<(), Error>(Error::BufferFull)),
        }
        &&& r is Ok ==> {
            &&& self.bytes() == old.bytes() + head + seq![0u8, 0u8, 0u8] + rest
            &&& self.open_blocks() == old.open_blocks().push((old.bytes().len() + head.len()) as usize)
        }
    }

    pub fn new() -> (r: Self)
        ensures
            r.wf(),
            r.bytes() == Seq::<u8>::empty(),
            r.depth() == 0,
    {
        AcpiGen { buf: Vec::new(), len_stack: Vec::new() }
    }

    /// Starts a new pass whose output begins with `curr`; blocks left open
    /// are forgotten.
    pub fn set_current(&mut self, curr: &[u8]) -> (r: Result<(), Error>)
        requires
            old(self).wf(),
        ensures
            final(self).wf(),
            r is Ok <==> curr@.len() <= ACPIGEN_MAXLEN,
            r is Err ==> r == Err::<(), Error>(Error::CurrentTooLong) && *final(self) == *old(self),
            r is Ok ==> final(self).bytes() == curr@ && final(self).depth() == 0,
    {
        if curr.len() > ACPIGEN_MAXLEN {
            return Err(Error::CurrentTooLong);
        }
        self.buf = Vec::new();
        self.len_stack = Vec::new();
        self.push_all(curr);
        assert(self.bytes() =~= curr@);
        Ok(())
    }

    /// The bytes emitted so far.
    pub fn get_current(&self) -> (r: &[u8])
        ensures
            r@ == self.bytes(),
    {
        self.buf.as_slice()
    }

    /// Number of bytes emitted so far.
    pub fn buf_len(&self) -> (n: usize)
        ensures
            n == self.bytes().len(),
            self.wf() ==> n <= ACPIGEN_MAXLEN,
    {
        self.buf.len()
    }

    pub(crate) fn push(&mut self, b: u8)
        requires
            old(self).wf(),
            old(self).bytes().len() < ACPIGEN_MAXLEN,
        ensures
            final(self).wf(),
            final(self).bytes() == old(self).bytes().push(b),
            final(self).open_blocks() == old(self).open_blocks(),
    {
        self.buf.push(b);
    }

    /// Pushes every byte of `data`.
    pub(crate) fn push_all(&mut self, data: &[u8])
        requires
            old(self).wf(),
            old(self).fits(data@.len() as int),
        ensures
            final(self).wf(),
            final(self).bytes() == old(self).bytes() + data@,
            final(self).open_blocks() == old(self).open_blocks(),
    {
        let mut i: usize = 0;
        while i < data.len()
            invariant
                self.wf(),
                i <= data@.len(),
                old(self).bytes().len() + data@.len() <= ACPIGEN_MAXLEN,
                self.bytes() == old(self).bytes() + data@.subrange(0, i as int),
                self.open_blocks() == old(self).open_blocks(),
            decreases data@.len() - i,
        {
            self.push(data[i]);
            assert(data@.subrange(0, i + 1) =~= data@.subrange(0, i as int).push(data@[i as int]));
            i = i + 1;
        }
        assert(data@.subrange(0, i as int) =~= data@);
    }

    /// Appends `data` as it is, or fails with `BufferFull` leaving the buffer
    /// untouched.
    pub fn emit_bytes(&mut self, data: &[u8]) -> (r: Result<(), Error>)
        requires
            old(self).wf(),
        ensures
            final(self).appended(old(self), data@, r),
            r is Err ==> final(self).unchanged(old(self)),
    {
        if data.len() > ACPIGEN_MAXLEN - self.buf.len() {
            return Err(Error::BufferFull);
        }
        self.push_all(data);
        Ok(())
    }

    pub fn emit_byte(&mut self, c: u8) -> (r: Result<(), Error>)
        requires
            old(self).wf(),
        ensures
            final(self).appended(old(self), seq![c], r),
            r is Err ==> final(self).unchanged(old(self)),
    {
        if self.buf.len() >= ACPIGEN_MAXLEN {
            return Err(Error::BufferFull);
        }
        self.push(c);
        assert(self.bytes() =~= old(self).bytes() + seq![c]);
        Ok(())
    }

    /// Opens a length-prefixed block: records where its PkgLength goes and
    /// reserves three bytes for it.
    pub fn write_len_f(&mut self) -> (r: Result<(), Error>)
        requires
            old(self).wf(),
            old(self).depth() < ACPIGEN_LENSTACK_SIZE,
        ensures
            final(self).opened(old(self), Seq::empty(), Seq::empty(), None, r),
            r is Err ==> final(self).unchanged(old(self)),
    {
        if 3 > ACPIGEN_MAXLEN - self.buf.len() {
            return Err(Error::BufferFull);
        }
        let here = self.buf.len();
        self.push(0);
        self.push(0);
        self.push(0);
        self.len_stack.push(here);
        assert(self.bytes() =~= old(self).bytes() + Seq::<u8>::empty() + seq![0u8, 0u8, 0u8] + Seq::<u8>::empty());
        Ok(())
    }

    /// Records the position of a resource template's two-byte length and
    /// reserves it.
    pub(crate) fn push_word_mark(&mut self)
        requires
            old(self).wf(),
            old(self).fits(2),
            old(self).depth() < ACPIGEN_LENSTACK_SIZE,
        ensures
            final(self).wf(),
            final(self).bytes() == old(self).bytes() + seq![0u8, 0u8],
            final(self).open_blocks() == old(self).open_blocks().push(old(self).bytes().len() as usize),
    {
        let here = self.buf.len();
        self.push(0);
        self.push(0);
        self.len_stack.push(here);
        assert(self.bytes() =~= old(self).bytes() + seq![0u8, 0u8]);
    }

    /// Writes the number of bytes that follow the innermost two-byte length
    /// into it, and forgets it.
    pub(crate) fn pop_word_mark(&mut self)
        requires
            old(self).wf(),
            old(self).depth() > 0,
            old(self).top() + 2 <= old(self).bytes().len(),
        ensures
            final(self).wf(),
            final(self).open_blocks() == old(self).open_blocks().drop_last(),
            final(self).bytes() == old(self).bytes().subrange(0, old(self).top()) + crate::aml::le16(
                old(self).bytes().len() - (old(self).top() + 2),
            ) + old(self).bytes().subrange(old(self).top() + 2, old(self).bytes().len() as int),
    {
        let p = self.len_stack.pop().unwrap();
        let len = self.buf.len() - (p + 2);
        self.buf.set(p, (len % 0x100) as u8);
        self.buf.set(p + 1, (len / 0x100 % 0x100) as u8);
        assert(self.buf@ =~= old(self).bytes().subrange(0, p as int) + crate::aml::le16(len as int)
            + old(self).bytes().subrange(p + 2, old(self).bytes().len() as int));
    }

    /// Closes the innermost block: writes the distance from its length field
    /// to the end of the buffer into that field.
    pub fn pop_len(&mut self)
        requires
            old(self).wf(),
            old(self).depth() > 0,
            old(self).top() + 3 <= old(self).bytes().len(),
        ensures
            final(self).wf(),
            final(self).open_blocks() == old(self).open_blocks().drop_last(),
            final(self).bytes() == old(self).closed_top(),
            final(self).depth() < ACPIGEN_LENSTACK_SIZE,
    {
        let p = self.len_stack.pop().unwrap();
        let len = self.buf.len() - p;
        self.buf.set(p, (0x80 + len % 0x10) as u8);
        self.buf.set(p + 1, (len / 0x10 % 0x100) as u8);
        self.buf.set(p + 2, (len / 0x1000 % 0x100) as u8);
        assert(self.buf@ =~= old(self).bytes().subrange(0, p as int) + pkg_length(len as int)
            + old(self).bytes().subrange(p + 3, old(self).bytes().len() as int));
    }
}

} // verus!
