//! Statements and expressions: stores, logic, conversions, conditionals and
//! package element access.

use vstd::prelude::*;
use vstd::string::StringSliceAdditionalSpecFns;
use crate::acpigen::{
    AcpiGen, Error, ACPIGEN_LENSTACK_SIZE, AND_OP, COND_REFOF_OP, CREATE_BYTE_OP, CREATE_DWORD_OP,
    CREATE_QWORD_OP, CREATE_WORD_OP, DEBUG_OP, DEREF_OP, EXT_OP_PREFIX, IF_OP, INDEX_OP,
    LEQUAL_OP, NOT_OP, NOTIFY_OP, OR_OP, SHIFT_LEFT_OP, SLEEP_OP, STORE_OP, TO_BUFFER_OP,
    TO_INTEGER_OP, XOR_OP, ZERO_OP,
};
use crate::aml::{integer_encoding, namestring};
use crate::namestring::{check_namestring, name_err, name_ok};
use crate::values::string_term;

verus! {

/// The first of two possible input errors.
pub open spec fn first_err(a: Option<Error>, b: Option<Error>) -> Option<Error> {
    if a is Some {
        a
    } else {
        b
    }
}

impl AcpiGen {
    pub fn write_store(&mut self) -> (r: Result<(), Error>)
        requires
            old(self).wf(),
        ensures
            final(self).appended(old(self), seq![STORE_OP], r),
    {
        self.emit_byte(STORE_OP)
    }

    fn emit_op3(&mut self, a: u8, b: u8, c: u8) -> (r: Result<(), Error>)
        requires
            old(self).wf(),
        ensures
            final(self).appended(old(self), seq![a, b, c], r),
    {
        let r = self.emit_bytes(&[a, b, c]);
        proof {
            assert([a, b, c]@ =~= seq![a, b, c]);
        }
        r
    }

    fn emit_op4(&mut self, a: u8, b: u8, c: u8, d: u8) -> (r: Result<(), Error>)
        requires
            old(self).wf(),
        ensures
            final(self).appended(old(self), seq![a, b, c, d], r),
    {
        let r = self.emit_bytes(&[a, b, c, d]);
        proof {
            assert([a, b, c, d]@ =~= seq![a, b, c, d]);
        }
        r
    }

    /// `Store (src, dst)` with two one-byte operands.
    pub fn write_store_ops(&mut self, src: u8, dst: u8) -> (r: Result<(), Error>)
        requires
            old(self).wf(),
        ensures
            final(self).appended(old(self), seq![STORE_OP, src, dst], r),
    {
        self.emit_op3(STORE_OP, src, dst)
    }

    /// `Store (src, dst)` into a named object.
    pub fn write_stor_op_to_namestr(&mut self, src: u8, dst: &str) -> (r: Result<(), Error>)
        requires
            old(self).wf(),
        ensures
            final(self).emitted(
                old(self),
                seq![STORE_OP, src] + namestring(dst.spec_bytes()),
                name_err(dst.spec_bytes()),
                r,
            ),
    {
        let d = dst.as_bytes();
        check_namestring(d)?;
        self.emit_bytes(&[STORE_OP, src])?;
        self.emit_namestring_bytes(d)?;
        proof {
            assert([STORE_OP, src]@ =~= seq![STORE_OP, src]);
            assert(self.bytes() =~= old(self).bytes() + (seq![STORE_OP, src] + namestring(d@)));
        }
        Ok(())
    }

    /// `Store (src, dst)` of an integer into a named object.
    pub fn write_store_int_to_namestr(&mut self, src: u64, dst: &str) -> (r: Result<(), Error>)
        requires
            old(self).wf(),
        ensures
            final(self).emitted(
                old(self),
                seq![STORE_OP] + integer_encoding(src) + namestring(dst.spec_bytes()),
                name_err(dst.spec_bytes()),
                r,
            ),
    {
        let d = dst.as_bytes();
        check_namestring(d)?;
        self.write_store()?;
        self.write_integer(src)?;
        self.emit_namestring_bytes(d)?;
        proof {
            assert(self.bytes() =~= old(self).bytes() + (seq![STORE_OP] + integer_encoding(src)
                + namestring(d@)));
        }
        Ok(())
    }

    /// `Store (src, dst)` of an integer into a one-byte operand.
    pub fn write_store_int_to_op(&mut self, src: u64, dst: u8) -> (r: Result<(), Error>)
        requires
            old(self).wf(),
        ensures
            final(self).appended(old(self), seq![STORE_OP] + integer_encoding(src) + seq![dst], r),
    {
        self.write_store()?;
        self.write_integer(src)?;
        self.emit_byte(dst)?;
        proof {
            assert(self.bytes() =~= old(self).bytes() + (seq![STORE_OP] + integer_encoding(src)
                + seq![dst]));
        }
        Ok(())
    }

    /// `Or (arg1, arg2, res)`.
    pub fn write_or(&mut self, arg1: u8, arg2: u8, res: u8) -> (r: Result<(), Error>)
        requires
            old(self).wf(),
        ensures
            final(self).appended(old(self), seq![OR_OP, arg1, arg2, res], r),
    {
        self.emit_op4(OR_OP, arg1, arg2, res)
    }

    /// `Xor (arg1, arg2, res)`.
    pub fn write_xor(&mut self, arg1: u8, arg2: u8, res: u8) -> (r: Result<(), Error>)
        requires
            old(self).wf(),
        ensures
            final(self).appended(old(self), seq![XOR_OP, arg1, arg2, res], r),
    {
        self.emit_op4(XOR_OP, arg1, arg2, res)
    }

    /// `And (arg1, arg2, res)`.
    pub fn write_and(&mut self, arg1: u8, arg2: u8, res: u8) -> (r: Result<(), Error>)
        requires
            old(self).wf(),
        ensures
            final(self).appended(old(self), seq![AND_OP, arg1, arg2, res], r),
    {
        self.emit_op4(AND_OP, arg1, arg2, res)
    }

    /// `Not (arg, res)`.
    pub fn write_not(&mut self, arg: u8, res: u8) -> (r: Result<(), Error>)
        requires
            old(self).wf(),
        ensures
            final(self).appended(old(self), seq![NOT_OP, arg, res], r),
    {
        self.emit_op3(NOT_OP, arg, res)
    }

    /// `Store ("string", Debug)`.
    pub fn write_debug_string(&mut self, string: &str) -> (r: Result<(), Error>)
        requires
            old(self).wf(),
        ensures
            final(self).appended(
                old(self),
                seq![STORE_OP] + string_term(string.spec_bytes()) + seq![EXT_OP_PREFIX, DEBUG_OP],
                r,
            ),
    {
        self.write_store()?;
        self.write_string(string)?;
        self.emit_ext_op(DEBUG_OP)?;
        proof {
            assert(self.bytes() =~= old(self).bytes() + (seq![STORE_OP] + string_term(
                string.spec_bytes(),
            ) + seq![EXT_OP_PREFIX, DEBUG_OP]));
        }
        Ok(())
    }

    /// `Store (val, Debug)`.
    pub fn write_debug_integer(&mut self, val: u64) -> (r: Result<(), Error>)
        requires
            old(self).wf(),
        ensures
            final(self).appended(
                old(self),
                seq![STORE_OP] + integer_encoding(val) + seq![EXT_OP_PREFIX, DEBUG_OP],
                r,
            ),
    {
        self.write_store()?;
        self.write_integer(val)?;
        self.emit_ext_op(DEBUG_OP)?;
        proof {
            assert(self.bytes() =~= old(self).bytes() + (seq![STORE_OP] + integer_encoding(val)
                + seq![EXT_OP_PREFIX, DEBUG_OP]));
        }
        Ok(())
    }

    /// `Store (op, Debug)`.
    pub fn write_debug_op(&mut self, op: u8) -> (r: Result<(), Error>)
        requires
            old(self).wf(),
        ensures
            final(self).appended(old(self), seq![STORE_OP, op, EXT_OP_PREFIX, DEBUG_OP], r),
    {
        self.emit_op4(STORE_OP, op, EXT_OP_PREFIX, DEBUG_OP)
    }

    /// `Store (name, Debug)`.
    pub fn write_debug_namestr(&mut self, string: &str) -> (r: Result<(), Error>)
        requires
            old(self).wf(),
        ensures
            final(self).emitted(
                old(self),
                seq![STORE_OP] + namestring(string.spec_bytes()) + seq![EXT_OP_PREFIX, DEBUG_OP],
                name_err(string.spec_bytes()),
                r,
            ),
    {
        let s = string.as_bytes();
        check_namestring(s)?;
        self.write_store()?;
        self.emit_namestring_bytes(s)?;
        self.emit_ext_op(DEBUG_OP)?;
        proof {
            assert(self.bytes() =~= old(self).bytes() + (seq![STORE_OP] + namestring(s@) + seq![
                EXT_OP_PREFIX,
                DEBUG_OP,
            ]));
        }
        Ok(())
    }

    /// Opens `If (And (arg1, arg2)) {`.
    pub fn write_if_and(&mut self, arg1: u8, arg2: u8) -> (r: Result<(), Error>)
        requires
            old(self).wf(),
            old(self).depth() < ACPIGEN_LENSTACK_SIZE,
        ensures
            final(self).opened(old(self), seq![IF_OP], seq![AND_OP, arg1, arg2], None, r),
    {
        self.write_if()?;
        self.emit_op3(AND_OP, arg1, arg2)?;
        proof {
            assert(self.bytes() =~= old(self).bytes() + seq![IF_OP] + seq![0u8, 0u8, 0u8] + seq![
                AND_OP,
                arg1,
                arg2,
            ]);
        }
        Ok(())
    }

    /// Opens `If (LEqual (op1, op2)) {` for two one-byte operands.
    pub fn write_if_lequal_op_op(&mut self, op1: u8, op2: u8) -> (r: Result<(), Error>)
        requires
            old(self).wf(),
            old(self).depth() < ACPIGEN_LENSTACK_SIZE,
        ensures
            final(self).opened(old(self), seq![IF_OP], seq![LEQUAL_OP, op1, op2], None, r),
    {
        self.write_if()?;
        self.emit_op3(LEQUAL_OP, op1, op2)?;
        proof {
            assert(self.bytes() =~= old(self).bytes() + seq![IF_OP] + seq![0u8, 0u8, 0u8] + seq![
                LEQUAL_OP,
                op1,
                op2,
            ]);
        }
        Ok(())
    }

    /// Opens `If (LEqual (op, val)) {`.
    pub fn write_if_lequal_op_int(&mut self, op1: u8, val: u64) -> (r: Result<(), Error>)
        requires
            old(self).wf(),
            old(self).depth() < ACPIGEN_LENSTACK_SIZE,
        ensures
            final(self).opened(
                old(self),
                seq![IF_OP],
                seq![LEQUAL_OP, op1] + integer_encoding(val),
                None,
                r,
            ),
    {
        self.write_if()?;
        self.emit_bytes(&[LEQUAL_OP, op1])?;
        self.write_integer(val)?;
        proof {
            assert([LEQUAL_OP, op1]@ =~= seq![LEQUAL_OP, op1]);
            assert(self.bytes() =~= old(self).bytes() + seq![IF_OP] + seq![0u8, 0u8, 0u8] + (seq![
                LEQUAL_OP,
                op1,
            ] + integer_encoding(val)));
        }
        Ok(())
    }

    pub(crate) fn write_if_lequal_namestr_int_bytes(&mut self, namestr: &[u8], val: u64) -> (r:
        Result<(), Error>)
        requires
            old(self).wf(),
            old(self).depth() < ACPIGEN_LENSTACK_SIZE,
        ensures
            final(self).opened(
                old(self),
                seq![IF_OP],
                seq![LEQUAL_OP] + namestring(namestr@) + integer_encoding(val),
                name_err(namestr@),
                r,
            ),
    {
        check_namestring(namestr)?;
        self.write_if()?;
        self.emit_byte(LEQUAL_OP)?;
        self.emit_namestring_bytes(namestr)?;
        self.write_integer(val)?;
        proof {
            assert(self.bytes() =~= old(self).bytes() + seq![IF_OP] + seq![0u8, 0u8, 0u8] + (seq![
                LEQUAL_OP,
            ] + namestring(namestr@) + integer_encoding(val)));
        }
        Ok(())
    }

    /// Opens `If (LEqual (name, val)) {`.
    pub fn write_if_lequal_namestr_int(&mut self, namestr: &str, val: u64) -> (r: Result<(), Error>)
        requires
            old(self).wf(),
            old(self).depth() < ACPIGEN_LENSTACK_SIZE,
        ensures
            final(self).opened(
                old(self),
                seq![IF_OP],
                seq![LEQUAL_OP] + namestring(namestr.spec_bytes()) + integer_encoding(val),
                name_err(namestr.spec_bytes()),
                r,
            ),
    {
        self.write_if_lequal_namestr_int_bytes(namestr.as_bytes(), val)
    }

    /// Opens `If (CondRefOf (name)) {`.
    pub fn write_if_cond_ref_of(&mut self, namestring: &str) -> (r: Result<(), Error>)
        requires
            old(self).wf(),
            old(self).depth() < ACPIGEN_LENSTACK_SIZE,
        ensures
            final(self).opened(
                old(self),
                seq![IF_OP],
                seq![EXT_OP_PREFIX, COND_REFOF_OP] + crate::aml::namestring(namestring.spec_bytes()) + seq![ZERO_OP],
                name_err(namestring.spec_bytes()),
                r,
            ),
    {
        let n = namestring.as_bytes();
        check_namestring(n)?;
        self.write_if()?;
        self.emit_ext_op(COND_REFOF_OP)?;
        self.emit_namestring_bytes(n)?;
        self.emit_byte(ZERO_OP)?;
        proof {
            assert(self.bytes() =~= old(self).bytes() + seq![IF_OP] + seq![0u8, 0u8, 0u8] + (seq![
                EXT_OP_PREFIX,
                COND_REFOF_OP,
            ] + crate::aml::namestring(n@) + seq![ZERO_OP]));
        }
        Ok(())
    }

    /// `ShiftLeft (src_result, count, src_result)`.
    pub fn write_shiftleft_op_int(&mut self, src_result: u8, count: u64) -> (r: Result<(), Error>)
        requires
            old(self).wf(),
        ensures
            final(self).appended(
                old(self),
                seq![SHIFT_LEFT_OP, src_result] + integer_encoding(count) + seq![ZERO_OP],
                r,
            ),
    {
        self.emit_bytes(&[SHIFT_LEFT_OP, src_result])?;
        self.write_integer(count)?;
        self.emit_byte(ZERO_OP)?;
        proof {
            assert([SHIFT_LEFT_OP, src_result]@ =~= seq![SHIFT_LEFT_OP, src_result]);
            assert(self.bytes() =~= old(self).bytes() + (seq![SHIFT_LEFT_OP, src_result]
                + integer_encoding(count) + seq![ZERO_OP]));
        }
        Ok(())
    }

    /// `ToBuffer (src, dst)`.
    pub fn write_to_buffer(&mut self, src: u8, dst: u8) -> (r: Result<(), Error>)
        requires
            old(self).wf(),
        ensures
            final(self).appended(old(self), seq![TO_BUFFER_OP, src, dst], r),
    {
        self.emit_op3(TO_BUFFER_OP, src, dst)
    }

    /// `ToInteger (src, dst)`.
    pub fn write_to_integer(&mut self, src: u8, dst: u8) -> (r: Result<(), Error>)
        requires
            old(self).wf(),
        ensures
            final(self).appended(old(self), seq![TO_INTEGER_OP, src, dst], r),
    {
        self.emit_op3(TO_INTEGER_OP, src, dst)
    }

    /// `ToInteger (source, dst_op)` of a named object.
    pub fn write_to_integer_from_namestring(&mut self, source: &str, dst_op: u8) -> (r: Result<
        (),
        Error,
    >)
        requires
            old(self).wf(),
        ensures
            final(self).emitted(
                old(self),
                seq![TO_INTEGER_OP] + namestring(source.spec_bytes()) + seq![dst_op],
                name_err(source.spec_bytes()),
                r,
            ),
    {
        let s = source.as_bytes();
        check_namestring(s)?;
        self.emit_byte(TO_INTEGER_OP)?;
        self.emit_namestring_bytes(s)?;
        self.emit_byte(dst_op)?;
        proof {
            assert(self.bytes() =~= old(self).bytes() + (seq![TO_INTEGER_OP] + namestring(s@)
                + seq![dst_op]));
        }
        Ok(())
    }

    /// `Sleep (sleep_ms)`.
    pub fn write_sleep(&mut self, sleep_ms: u64) -> (r: Result<(), Error>)
        requires
            old(self).wf(),
        ensures
            final(self).appended(
                old(self),
                seq![EXT_OP_PREFIX, SLEEP_OP] + integer_encoding(sleep_ms),
                r,
            ),
    {
        self.emit_ext_op(SLEEP_OP)?;
        self.write_integer(sleep_ms)?;
        proof {
            assert(self.bytes() =~= old(self).bytes() + (seq![EXT_OP_PREFIX, SLEEP_OP]
                + integer_encoding(sleep_ms)));
        }
        Ok(())
    }

    /// `Notify (name, value)`; a negative value is sign-extended to 64 bits.
    pub fn notify(&mut self, namestr: &str, value: i32) -> (r: Result<(), Error>)
        requires
            old(self).wf(),
        ensures
            final(self).emitted(
                old(self),
                seq![NOTIFY_OP] + namestring(namestr.spec_bytes()) + integer_encoding(value as u64),
                name_err(namestr.spec_bytes()),
                r,
            ),
    {
        let n = namestr.as_bytes();
        check_namestring(n)?;
        self.emit_byte(NOTIFY_OP)?;
        self.emit_namestring_bytes(n)?;
        self.write_integer(value as u64)?;
        proof {
            assert(self.bytes() =~= old(self).bytes() + (seq![NOTIFY_OP] + namestring(n@)
                + integer_encoding(value as u64)));
        }
        Ok(())
    }

    fn create_field(&mut self, aml_op: u8, srcop: u8, byte_offset: usize, name: &str) -> (r:
        Result<(), Error>)
        requires
            old(self).wf(),
        ensures
            final(self).emitted(
                old(self),
                seq![aml_op, srcop] + integer_encoding(byte_offset as u64) + namestring(
                    name.spec_bytes(),
                ),
                name_err(name.spec_bytes()),
                r,
            ),
    {
        let n = name.as_bytes();
        check_namestring(n)?;
        self.emit_bytes(&[aml_op, srcop])?;
        self.write_integer(byte_offset as u64)?;
        self.emit_namestring_bytes(n)?;
        proof {
            assert([aml_op, srcop]@ =~= seq![aml_op, srcop]);
            assert(self.bytes() =~= old(self).bytes() + (seq![aml_op, srcop] + integer_encoding(
                byte_offset as u64,
            ) + namestring(n@)));
        }
        Ok(())
    }

    /// `CreateByteField (op, byte_offset, name)`.
    pub fn write_create_byte_field(&mut self, op: u8, byte_offset: usize, name: &str) -> (r: Result<
        (),
        Error,
    >)
        requires
            old(self).wf(),
        ensures
            final(self).emitted(
                old(self),
                seq![CREATE_BYTE_OP, op] + integer_encoding(byte_offset as u64) + namestring(
                    name.spec_bytes(),
                ),
                name_err(name.spec_bytes()),
                r,
            ),
    {
        self.create_field(CREATE_BYTE_OP, op, byte_offset, name)
    }

    /// `CreateWordField (op, byte_offset, name)`.
    pub fn write_create_word_field(&mut self, op: u8, byte_offset: usize, name: &str) -> (r: Result<
        (),
        Error,
    >)
        requires
            old(self).wf(),
        ensures
            final(self).emitted(
                old(self),
                seq![CREATE_WORD_OP, op] + integer_encoding(byte_offset as u64) + namestring(
                    name.spec_bytes(),
                ),
                name_err(name.spec_bytes()),
                r,
            ),
    {
        self.create_field(CREATE_WORD_OP, op, byte_offset, name)
    }

    /// `CreateDWordField (op, byte_offset, name)`.
    pub fn write_create_dword_field(&mut self, op: u8, byte_offset: usize, name: &str) -> (r:
        Result<(), Error>)
        requires
            old(self).wf(),
        ensures
            final(self).emitted(
                old(self),
                seq![CREATE_DWORD_OP, op] + integer_encoding(byte_offset as u64) + namestring(
                    name.spec_bytes(),
                ),
                name_err(name.spec_bytes()),
                r,
            ),
    {
        self.create_field(CREATE_DWORD_OP, op, byte_offset, name)
    }

    /// `CreateQWordField (op, byte_offset, name)`.
    pub fn write_create_qword_field(&mut self, op: u8, byte_offset: usize, name: &str) -> (r:
        Result<(), Error>)
        requires
            old(self).wf(),
        ensures
            final(self).emitted(
                old(self),
                seq![CREATE_QWORD_OP, op] + integer_encoding(byte_offset as u64) + namestring(
                    name.spec_bytes(),
                ),
                name_err(name.spec_bytes()),
                r,
            ),
    {
        self.create_field(CREATE_QWORD_OP, op, byte_offset, name)
    }

    /// `dest_op = DeRefOf (package_op[element])`.
    pub fn get_package_op_element(&mut self, package_op: u8, element: u32, dest_op: u8) -> (r:
        Result<(), Error>)
        requires
            old(self).wf(),
        ensures
            final(self).appended(
                old(self),
                seq![STORE_OP, DEREF_OP, INDEX_OP, package_op] + integer_encoding(element as u64)
                    + seq![ZERO_OP, dest_op],
                r,
            ),
    {
        self.emit_op4(STORE_OP, DEREF_OP, INDEX_OP, package_op)?;
        self.write_integer(element as u64)?;
        self.emit_bytes(&[ZERO_OP, dest_op])?;
        proof {
            assert([ZERO_OP, dest_op]@ =~= seq![ZERO_OP, dest_op]);
            assert(self.bytes() =~= old(self).bytes() + (seq![STORE_OP, DEREF_OP, INDEX_OP, package_op]
                + integer_encoding(element as u64) + seq![ZERO_OP, dest_op]));
        }
        Ok(())
    }

    /// `DeRefOf (package_op[element]) = src`.
    pub fn set_package_op_element_int(&mut self, package_op: u8, element: u32, src: u64) -> (r:
        Result<(), Error>)
        requires
            old(self).wf(),
        ensures
            final(self).appended(
                old(self),
                seq![STORE_OP] + integer_encoding(src) + seq![DEREF_OP, INDEX_OP, package_op]
                    + integer_encoding(element as u64) + seq![ZERO_OP],
                r,
            ),
    {
        self.write_store()?;
        self.write_integer(src)?;
        self.emit_op3(DEREF_OP, INDEX_OP, package_op)?;
        self.write_integer(element as u64)?;
        self.emit_byte(ZERO_OP)?;
        proof {
            assert(self.bytes() =~= old(self).bytes() + (seq![STORE_OP] + integer_encoding(src)
                + seq![DEREF_OP, INDEX_OP, package_op] + integer_encoding(element as u64) + seq![
                ZERO_OP,
            ]));
        }
        Ok(())
    }

    /// `dest_op = package[element]`.
    pub fn get_package_element(&mut self, package: &str, element: u32, dest_op: u8) -> (r: Result<
        (),
        Error,
    >)
        requires
            old(self).wf(),
        ensures
            final(self).emitted(
                old(self),
                seq![STORE_OP, INDEX_OP] + namestring(package.spec_bytes()) + integer_encoding(
                    element as u64,
                ) + seq![ZERO_OP, dest_op],
                name_err(package.spec_bytes()),
                r,
            ),
    {
        let p = package.as_bytes();
        check_namestring(p)?;
        self.emit_bytes(&[STORE_OP, INDEX_OP])?;
        self.emit_namestring_bytes(p)?;
        self.write_integer(element as u64)?;
        self.emit_bytes(&[ZERO_OP, dest_op])?;
        proof {
            assert([STORE_OP, INDEX_OP]@ =~= seq![STORE_OP, INDEX_OP]);
            assert([ZERO_OP, dest_op]@ =~= seq![ZERO_OP, dest_op]);
            assert(self.bytes() =~= old(self).bytes() + (seq![STORE_OP, INDEX_OP] + namestring(p@)
                + integer_encoding(element as u64) + seq![ZERO_OP, dest_op]));
        }
        Ok(())
    }

    /// `package[element] = src`.
    pub fn set_package_element_int(&mut self, package: &str, element: u32, src: u64) -> (r: Result<
        (),
        Error,
    >)
        requires
            old(self).wf(),
        ensures
            final(self).emitted(
                old(self),
                seq![STORE_OP] + integer_encoding(src) + seq![INDEX_OP] + namestring(
                    package.spec_bytes(),
                ) + integer_encoding(element as u64) + seq![ZERO_OP],
                name_err(package.spec_bytes()),
                r,
            ),
    {
        let p = package.as_bytes();
        check_namestring(p)?;
        self.write_store()?;
        self.write_integer(src)?;
        self.emit_byte(INDEX_OP)?;
        self.emit_namestring_bytes(p)?;
        self.write_integer(element as u64)?;
        self.emit_byte(ZERO_OP)?;
        proof {
            assert(self.bytes() =~= old(self).bytes() + (seq![STORE_OP] + integer_encoding(src)
                + seq![INDEX_OP] + namestring(p@) + integer_encoding(element as u64) + seq![ZERO_OP]));
        }
        Ok(())
    }

    /// `package[element] = src` where `src` is a named object.
    pub fn set_package_element_namestr(&mut self, package: &str, element: u32, src: &str) -> (r:
        Result<(), Error>)
        requires
            old(self).wf(),
        ensures
            final(self).emitted(
                old(self),
                seq![STORE_OP] + namestring(src.spec_bytes()) + seq![INDEX_OP] + namestring(
                    package.spec_bytes(),
                ) + integer_encoding(element as u64) + seq![ZERO_OP],
                first_err(name_err(src.spec_bytes()), name_err(package.spec_bytes())),
                r,
            ),
    {
        let p = package.as_bytes();
        let s = src.as_bytes();
        check_namestring(s)?;
        check_namestring(p)?;
        self.write_store()?;
        self.emit_namestring_bytes(s)?;
        self.emit_byte(INDEX_OP)?;
        self.emit_namestring_bytes(p)?;
        self.write_integer(element as u64)?;
        self.emit_byte(ZERO_OP)?;
        proof {
            assert(self.bytes() =~= old(self).bytes() + (seq![STORE_OP] + namestring(s@) + seq![
                INDEX_OP,
            ] + namestring(p@) + integer_encoding(element as u64) + seq![ZERO_OP]));
        }
        Ok(())
    }
}

} // verus!
