//! Names, strings, byte buffers and the length-prefixed blocks that hold
//! AML code: scopes, devices, methods, packages and conditionals.

use vstd::prelude::*;
use vstd::string::StringSliceAdditionalSpecFns;
use crate::acpigen::{
    AcpiGen, Error, ACPIGEN_LENSTACK_SIZE, BUFFER_OP, DEVICE_OP, ELSE_OP, EXT_OP_PREFIX, IF_OP,
    METHOD_OP, NAME_OP, PACKAGE_OP, RETURN_OP, SCOPE_OP, STRING_PREFIX, THERMAL_ZONE_OP,
};
use crate::aml::{ACPIGEN_MAXLEN, aml_block, integer_encoding, le32, le64, namestring, simple_name};
use crate::namestring::{check_namestring, name_err, name_ok};
use crate::values::{byte_buffer, lemma_close_block, name_head, string_term};

verus! {

/// `Method (name, flags)` up to its body.
pub open spec fn method_rest(name: Seq<u8>, flags: u8) -> Seq<u8> {
    namestring(name).push(flags)
}

/// A whole method: `Method (name, flags) { body }`.
pub open spec fn method_block(name: Seq<u8>, flags: u8, body: Seq<u8>) -> Seq<u8> {
    aml_block(seq![METHOD_OP], method_rest(name, flags) + body)
}

/// A whole package of `n` elements.
pub open spec fn package_block(n: u8, body: Seq<u8>) -> Seq<u8> {
    aml_block(seq![PACKAGE_OP], seq![n] + body)
}

impl AcpiGen {
    pub fn emit_namestring(&mut self, namepath: &str) -> (r: Result<(), Error>)
        requires
            old(self).wf(),
        ensures
            final(self).emitted(
                old(self),
                namestring(namepath.spec_bytes()),
                name_err(namepath.spec_bytes()),
                r,
            ),
            r is Err ==> final(self).unchanged(old(self)),
    {
        self.emit_namestring_bytes(namepath.as_bytes())
    }

    pub(crate) fn write_name_bytes(&mut self, name: &[u8]) -> (r: Result<(), Error>)
        requires
            old(self).wf(),
        ensures
            final(self).emitted(old(self), name_head(name@), name_err(name@), r),
    {
        check_namestring(name)?;
        self.emit_byte(NAME_OP)?;
        self.emit_namestring_bytes(name)?;
        proof {
            assert(self.bytes() =~= old(self).bytes() + name_head(name@));
        }
        Ok(())
    }

    /// `Name (name, ...)`: the value is written next.
    pub fn write_name(&mut self, name: &str) -> (r: Result<(), Error>)
        requires
            old(self).wf(),
        ensures
            final(self).emitted(old(self), name_head(name.spec_bytes()), name_err(name.spec_bytes()), r),
    {
        self.write_name_bytes(name.as_bytes())
    }

    pub(crate) fn emit_simple_namestring_bytes(&mut self, name: &[u8]) -> (r: Result<(), Error>)
        requires
            old(self).wf(),
        ensures
            final(self).appended(old(self), simple_name(name@), r),
            r is Err ==> final(self).unchanged(old(self)),
    {
        if 4 > ACPIGEN_MAXLEN - self.buf_len() {
            return Err(Error::BufferFull);
        }
        self.push_first_segment(name);
        Ok(())
    }

    /// Emits the first segment of `name` as a single four-byte name.
    pub fn emit_simple_namestring(&mut self, name: &str) -> (r: Result<(), Error>)
        requires
            old(self).wf(),
        ensures
            final(self).appended(old(self), simple_name(name.spec_bytes()), r),
            r is Err ==> final(self).unchanged(old(self)),
    {
        self.emit_simple_namestring_bytes(name.as_bytes())
    }
}

} // verus!

verus! {

impl AcpiGen {
    pub(crate) fn write_scope_bytes(&mut self, name: &[u8]) -> (r: Result<(), Error>)
        requires
            old(self).wf(),
            old(self).depth() < ACPIGEN_LENSTACK_SIZE,
        ensures
            final(self).opened(old(self), seq![SCOPE_OP], namestring(name@), name_err(name@), r),
    {
        check_namestring(name)?;
        self.emit_byte(SCOPE_OP)?;
        self.write_len_f()?;
        self.emit_namestring_bytes(name)?;
        proof {
            assert(self.bytes() =~= old(self).bytes() + seq![SCOPE_OP] + seq![0u8, 0u8, 0u8]
                + namestring(name@));
        }
        Ok(())
    }

    /// Opens `Scope (name) {`.
    pub fn write_scope(&mut self, name: &str) -> (r: Result<(), Error>)
        requires
            old(self).wf(),
            old(self).depth() < ACPIGEN_LENSTACK_SIZE,
        ensures
            final(self).opened(
                old(self),
                seq![SCOPE_OP],
                namestring(name.spec_bytes()),
                name_err(name.spec_bytes()),
                r,
            ),
    {
        self.write_scope_bytes(name.as_bytes())
    }

    fn write_ext_block(&mut self, op: u8, name: &[u8]) -> (r: Result<(), Error>)
        requires
            old(self).wf(),
            old(self).depth() < ACPIGEN_LENSTACK_SIZE,
        ensures
            final(self).opened(old(self), seq![EXT_OP_PREFIX, op], namestring(name@), name_err(name@), r),
    {
        check_namestring(name)?;
        self.emit_ext_op(op)?;
        self.write_len_f()?;
        self.emit_namestring_bytes(name)?;
        proof {
            assert(self.bytes() =~= old(self).bytes() + seq![EXT_OP_PREFIX, op] + seq![0u8, 0u8, 0u8]
                + namestring(name@));
        }
        Ok(())
    }

    /// Opens `Device (name) {`.
    pub fn write_device(&mut self, name: &str) -> (r: Result<(), Error>)
        requires
            old(self).wf(),
            old(self).depth() < ACPIGEN_LENSTACK_SIZE,
        ensures
            final(self).opened(
                old(self),
                seq![EXT_OP_PREFIX, DEVICE_OP],
                namestring(name.spec_bytes()),
                name_err(name.spec_bytes()),
                r,
            ),
    {
        self.write_ext_block(DEVICE_OP, name.as_bytes())
    }

    /// Opens `ThermalZone (name) {`.
    pub fn write_thermal_zone(&mut self, name: &str) -> (r: Result<(), Error>)
        requires
            old(self).wf(),
            old(self).depth() < ACPIGEN_LENSTACK_SIZE,
        ensures
            final(self).opened(
                old(self),
                seq![EXT_OP_PREFIX, THERMAL_ZONE_OP],
                namestring(name.spec_bytes()),
                name_err(name.spec_bytes()),
                r,
            ),
    {
        self.write_ext_block(THERMAL_ZONE_OP, name.as_bytes())
    }

    pub(crate) fn write_method_bytes(&mut self, name: &[u8], flags: u8) -> (r: Result<(), Error>)
        requires
            old(self).wf(),
            old(self).depth() < ACPIGEN_LENSTACK_SIZE,
        ensures
            final(self).opened(old(self), seq![METHOD_OP], method_rest(name@, flags), name_err(name@), r),
    {
        check_namestring(name)?;
        self.emit_byte(METHOD_OP)?;
        self.write_len_f()?;
        self.emit_namestring_bytes(name)?;
        self.emit_byte(flags)?;
        proof {
            assert(self.bytes() =~= old(self).bytes() + seq![METHOD_OP] + seq![0u8, 0u8, 0u8]
                + method_rest(name@, flags));
        }
        Ok(())
    }

    /// Opens `Method (name, nargs, NotSerialized) {`.
    pub fn write_method(&mut self, name: &str, nargs: u32) -> (r: Result<(), Error>)
        requires
            old(self).wf(),
            old(self).depth() < ACPIGEN_LENSTACK_SIZE,
        ensures
            final(self).opened(
                old(self),
                seq![METHOD_OP],
                method_rest(name.spec_bytes(), (nargs % 8) as u8),
                name_err(name.spec_bytes()),
                r,
            ),
    {
        self.write_method_bytes(name.as_bytes(), (nargs % 8) as u8)
    }

    /// Opens `Method (name, nargs, Serialized) {`.
    pub fn write_method_serialized(&mut self, name: &str, nargs: u32) -> (r: Result<(), Error>)
        requires
            old(self).wf(),
            old(self).depth() < ACPIGEN_LENSTACK_SIZE,
        ensures
            final(self).opened(
                old(self),
                seq![METHOD_OP],
                method_rest(name.spec_bytes(), (nargs % 8 + 8) as u8),
                name_err(name.spec_bytes()),
                r,
            ),
    {
        self.write_method_bytes(name.as_bytes(), (nargs % 8 + 8) as u8)
    }

    /// Opens `Package (nr_el) {` and returns the position of its element
    /// count, so that it can be corrected later.
    pub fn write_package(&mut self, nr_el: u8) -> (r: Result<usize, Error>)
        requires
            old(self).wf(),
            old(self).depth() < ACPIGEN_LENSTACK_SIZE,
        ensures
            final(self).opened(
                old(self),
                seq![PACKAGE_OP],
                seq![nr_el],
                None,
                match r {
                    Ok(_) => Ok(()),
                    Err(e) => Err(e),
                },
            ),
            r is Ok ==> r->Ok_0 == old(self).bytes().len() + 4,
    {
        self.emit_byte(PACKAGE_OP)?;
        self.write_len_f()?;
        let at = self.buf_len();
        self.emit_byte(nr_el)?;
        proof {
            assert(self.bytes() =~= old(self).bytes() + seq![PACKAGE_OP] + seq![0u8, 0u8, 0u8]
                + seq![nr_el]);
        }
        Ok(at)
    }

    /// Opens `If (` : the predicate and the body follow.
    pub fn write_if(&mut self) -> (r: Result<(), Error>)
        requires
            old(self).wf(),
            old(self).depth() < ACPIGEN_LENSTACK_SIZE,
        ensures
            final(self).opened(old(self), seq![IF_OP], Seq::empty(), None, r),
    {
        self.emit_byte(IF_OP)?;
        self.write_len_f()?;
        proof {
            assert(self.bytes() =~= old(self).bytes() + seq![IF_OP] + seq![0u8, 0u8, 0u8]
                + Seq::<u8>::empty());
        }
        Ok(())
    }

    /// Closes the innermost block.
    pub fn write_if_end(&mut self) -> (r: Result<(), Error>)
        requires
            old(self).wf(),
            old(self).depth() > 0,
            old(self).top() + 3 <= old(self).bytes().len(),
        ensures
            r is Ok,
            final(self).wf(),
            final(self).open_blocks() == old(self).open_blocks().drop_last(),
            final(self).bytes() == old(self).closed_top(),
    {
        self.pop_len();
        Ok(())
    }

    /// Closes the innermost `If` and opens its `Else`.
    pub fn write_else(&mut self) -> (r: Result<(), Error>)
        requires
            old(self).wf(),
            old(self).depth() > 0,
            old(self).top() + 3 <= old(self).bytes().len(),
        ensures
            final(self).wf(),
            (r is Ok <==> old(self).fits(4)),
            r is Err ==> r == Err::<(), Error>(Error::BufferFull),
            r is Ok ==> final(self).bytes() == old(self).closed_top() + seq![ELSE_OP, 0u8, 0u8, 0u8],
            r is Ok ==> final(self).open_blocks() == old(self).open_blocks().drop_last().push(
                (old(self).bytes().len() + 1) as usize,
            ),
    {
        self.pop_len();
        self.emit_byte(ELSE_OP)?;
        self.write_len_f()?;
        proof {
            assert(self.bytes() =~= old(self).closed_top() + seq![ELSE_OP, 0u8, 0u8, 0u8]);
        }
        Ok(())
    }
}

} // verus!

verus! {

impl AcpiGen {
    /// Emits the bytes of `data` without a terminator.
    pub fn emit_stream(&mut self, data: &str) -> (r: Result<(), Error>)
        requires
            old(self).wf(),
        ensures
            final(self).appended(old(self), data.spec_bytes(), r),
    {
        self.emit_bytes(data.as_bytes())
    }

    /// Emits the bytes of `string` and a NUL.
    pub fn emit_string(&mut self, string: &str) -> (r: Result<(), Error>)
        requires
            old(self).wf(),
        ensures
            final(self).appended(old(self), string.spec_bytes() + seq![0u8], r),
    {
        self.emit_stream(string)?;
        self.emit_byte(0)?;
        proof {
            assert(self.bytes() =~= old(self).bytes() + (string.spec_bytes() + seq![0u8]));
        }
        Ok(())
    }

    pub(crate) fn write_string_bytes(&mut self, s: &[u8]) -> (r: Result<(), Error>)
        requires
            old(self).wf(),
        ensures
            final(self).appended(old(self), string_term(s@), r),
    {
        self.emit_byte(STRING_PREFIX)?;
        self.emit_bytes(s)?;
        self.emit_byte(0)?;
        proof {
            assert(self.bytes() =~= old(self).bytes() + string_term(s@));
        }
        Ok(())
    }

    /// Emits a string object.
    pub fn write_string(&mut self, string: &str) -> (r: Result<(), Error>)
        requires
            old(self).wf(),
        ensures
            final(self).appended(old(self), string_term(string.spec_bytes()), r),
    {
        self.write_string_bytes(string.as_bytes())
    }

    /// `Name (name, value)` with a byte constant.
    pub fn write_name_byte(&mut self, name: &str, val: u8) -> (r: Result<(), Error>)
        requires
            old(self).wf(),
        ensures
            final(self).emitted(
                old(self),
                name_head(name.spec_bytes()) + seq![crate::acpigen::BYTE_PREFIX, val],
                name_err(name.spec_bytes()),
                r,
            ),
    {
        self.write_name(name)?;
        self.write_byte(val as u32)?;
        proof {
            assert(self.bytes() =~= old(self).bytes() + (name_head(name.spec_bytes()) + seq![
                crate::acpigen::BYTE_PREFIX,
                val,
            ]));
        }
        Ok(())
    }

    /// `Name (name, value)` with a double-word constant.
    pub fn write_name_dword(&mut self, name: &str, val: u32) -> (r: Result<(), Error>)
        requires
            old(self).wf(),
        ensures
            final(self).emitted(
                old(self),
                name_head(name.spec_bytes()) + (seq![crate::acpigen::DWORD_PREFIX] + le32(val as int)),
                name_err(name.spec_bytes()),
                r,
            ),
    {
        self.write_name(name)?;
        self.write_dword(val)?;
        proof {
            assert(self.bytes() =~= old(self).bytes() + (name_head(name.spec_bytes()) + (seq![
                crate::acpigen::DWORD_PREFIX,
            ] + le32(val as int))));
        }
        Ok(())
    }

    pub(crate) fn write_name_qword_bytes(&mut self, name: &[u8], val: u64) -> (r: Result<(), Error>)
        requires
            old(self).wf(),
        ensures
            final(self).emitted(
                old(self),
                name_head(name@) + (seq![crate::acpigen::QWORD_PREFIX] + le64(val as int)),
                name_err(name@),
                r,
            ),
    {
        self.write_name_bytes(name)?;
        self.write_qword(val)?;
        proof {
            assert(self.bytes() =~= old(self).bytes() + (name_head(name@) + (seq![
                crate::acpigen::QWORD_PREFIX,
            ] + le64(val as int))));
        }
        Ok(())
    }

    /// `Name (name, value)` with a quad-word constant.
    pub fn write_name_qword(&mut self, name: &str, val: u64) -> (r: Result<(), Error>)
        requires
            old(self).wf(),
        ensures
            final(self).emitted(
                old(self),
                name_head(name.spec_bytes()) + (seq![crate::acpigen::QWORD_PREFIX] + le64(val as int)),
                name_err(name.spec_bytes()),
                r,
            ),
    {
        self.write_name_qword_bytes(name.as_bytes(), val)
    }

    /// `Name (name, value)` with the most compact integer.
    pub fn write_name_integer(&mut self, name: &str, val: u64) -> (r: Result<(), Error>)
        requires
            old(self).wf(),
        ensures
            final(self).emitted(
                old(self),
                name_head(name.spec_bytes()) + integer_encoding(val),
                name_err(name.spec_bytes()),
                r,
            ),
    {
        self.write_name(name)?;
        self.write_integer(val)?;
        proof {
            assert(self.bytes() =~= old(self).bytes() + (name_head(name.spec_bytes())
                + integer_encoding(val)));
        }
        Ok(())
    }

    pub(crate) fn write_name_string_bytes(&mut self, name: &[u8], string: &[u8]) -> (r: Result<(), Error>)
        requires
            old(self).wf(),
        ensures
            final(self).emitted(old(self), name_head(name@) + string_term(string@), name_err(name@), r),
    {
        self.write_name_bytes(name)?;
        self.write_string_bytes(string)?;
        proof {
            assert(self.bytes() =~= old(self).bytes() + (name_head(name@) + string_term(string@)));
        }
        Ok(())
    }

    /// `Name (name, "string")`.
    pub fn write_name_string(&mut self, name: &str, string: &str) -> (r: Result<(), Error>)
        requires
            old(self).wf(),
        ensures
            final(self).emitted(
                old(self),
                name_head(name.spec_bytes()) + string_term(string.spec_bytes()),
                name_err(name.spec_bytes()),
                r,
            ),
    {
        self.write_name_string_bytes(name.as_bytes(), string.as_bytes())
    }

    /// `Buffer (n) { arr }`.
    pub fn write_byte_buffer(&mut self, arr: &[u8]) -> (r: Result<(), Error>)
        requires
            old(self).wf(),
            old(self).depth() < ACPIGEN_LENSTACK_SIZE,
        ensures
            final(self).appended(old(self), byte_buffer(arr@), r),
    {
        self.emit_byte(BUFFER_OP)?;
        self.write_len_f()?;
        self.write_integer(arr.len() as u64)?;
        self.emit_bytes(arr)?;
        self.pop_len();
        proof {
            lemma_close_block(old(self).bytes(), seq![BUFFER_OP], integer_encoding(arr@.len() as u64)
                + arr@);
            assert(self.bytes() =~= old(self).bytes() + byte_buffer(arr@));
            assert(self.open_blocks() =~= old(self).open_blocks());
        }
        Ok(())
    }

    /// `Return (Buffer (n) { arr })`.
    pub fn write_return_byte_buffer(&mut self, arr: &[u8]) -> (r: Result<(), Error>)
        requires
            old(self).wf(),
            old(self).depth() < ACPIGEN_LENSTACK_SIZE,
        ensures
            final(self).appended(old(self), seq![RETURN_OP] + byte_buffer(arr@), r),
    {
        self.emit_byte(RETURN_OP)?;
        self.write_byte_buffer(arr)?;
        proof {
            assert(self.bytes() =~= old(self).bytes() + (seq![RETURN_OP] + byte_buffer(arr@)));
        }
        Ok(())
    }

    /// `Return (Buffer (One) { arg })`.
    pub fn write_return_singleton_buffer(&mut self, arg: u8) -> (r: Result<(), Error>)
        requires
            old(self).wf(),
            old(self).depth() < ACPIGEN_LENSTACK_SIZE,
        ensures
            final(self).appended(old(self), seq![RETURN_OP] + byte_buffer(seq![arg]), r),
    {
        let a = [arg];
        proof {
            assert(a@ =~= seq![arg]);
        }
        self.write_return_byte_buffer(&a)
    }

    /// `Return (arg)` where `arg` is a one-byte operand such as a local.
    pub fn write_return_op(&mut self, arg: u8) -> (r: Result<(), Error>)
        requires
            old(self).wf(),
        ensures
            final(self).appended(old(self), seq![RETURN_OP, arg], r),
    {
        let r = self.emit_bytes(&[RETURN_OP, arg]);
        proof {
            assert([RETURN_OP, arg]@ =~= seq![RETURN_OP, arg]);
        }
        r
    }

    pub fn write_return_byte(&mut self, arg: u8) -> (r: Result<(), Error>)
        requires
            old(self).wf(),
        ensures
            final(self).appended(old(self), seq![RETURN_OP, crate::acpigen::BYTE_PREFIX, arg], r),
    {
        let r = self.emit_bytes(&[RETURN_OP, crate::acpigen::BYTE_PREFIX, arg]);
        proof {
            assert([RETURN_OP, crate::acpigen::BYTE_PREFIX, arg]@ =~= seq![
                RETURN_OP,
                crate::acpigen::BYTE_PREFIX,
                arg,
            ]);
        }
        r
    }

    pub fn write_return_integer(&mut self, arg: u64) -> (r: Result<(), Error>)
        requires
            old(self).wf(),
        ensures
            final(self).appended(old(self), seq![RETURN_OP] + integer_encoding(arg), r),
    {
        self.emit_byte(RETURN_OP)?;
        self.write_integer(arg)?;
        proof {
            assert(self.bytes() =~= old(self).bytes() + (seq![RETURN_OP] + integer_encoding(arg)));
        }
        Ok(())
    }

    pub(crate) fn write_return_namestr_bytes(&mut self, arg: &[u8]) -> (r: Result<(), Error>)
        requires
            old(self).wf(),
        ensures
            final(self).emitted(old(self), seq![RETURN_OP] + namestring(arg@), name_err(arg@), r),
    {
        check_namestring(arg)?;
        self.emit_byte(RETURN_OP)?;
        self.emit_namestring_bytes(arg)?;
        proof {
            assert(self.bytes() =~= old(self).bytes() + (seq![RETURN_OP] + namestring(arg@)));
        }
        Ok(())
    }

    /// `Return (name)`.
    pub fn write_return_namestr(&mut self, arg: &str) -> (r: Result<(), Error>)
        requires
            old(self).wf(),
        ensures
            final(self).emitted(
                old(self),
                seq![RETURN_OP] + namestring(arg.spec_bytes()),
                name_err(arg.spec_bytes()),
                r,
            ),
    {
        self.write_return_namestr_bytes(arg.as_bytes())
    }

    /// `Return ("string")`.
    pub fn write_return_string(&mut self, arg: &str) -> (r: Result<(), Error>)
        requires
            old(self).wf(),
        ensures
            final(self).appended(old(self), seq![RETURN_OP] + string_term(arg.spec_bytes()), r),
    {
        self.emit_byte(RETURN_OP)?;
        self.write_string(arg)?;
        proof {
            assert(self.bytes() =~= old(self).bytes() + (seq![RETURN_OP] + string_term(
                arg.spec_bytes(),
            )));
        }
        Ok(())
    }
}

} // verus!
