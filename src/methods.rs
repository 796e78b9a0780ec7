//! Delay loops, power resources and Unicode name strings.

use vstd::prelude::*;
use vstd::string::StringSliceAdditionalSpecFns;
use crate::acpigen::{
    AcpiGen, Error, ACPIGEN_LENSTACK_SIZE, BREAK_OP, BUFFER_OP, DECREMENT_OP, EXT_OP_PREFIX, IF_OP,
    LEQUAL_OP, LGREATER_OP, LOCAL7_OP, NAME_OP, PACKAGE_OP, POWER_RES_OP, SLEEP_OP, STORE_OP,
    WHILE_OP, ZERO_OP,
};
use crate::aml::{ACPIGEN_MAXLEN, aml_block, integer_encoding, le16, namestring, simple_name};
use crate::dsm::if_block;
use crate::namestring::{check_namestring, name_err};
use crate::tables::name_package;
use crate::values::name_head;

verus! {

/// The loop count and the sleep per iteration of a delay of `wait_ms`
/// milliseconds: one millisecond steps up to 32 ms, else 16 ms steps.
pub open spec fn delay_steps(wait_ms: u32) -> (int, int) {
    if wait_ms > 32 {
        (wait_ms as int / 16, 16)
    } else {
        (wait_ms as int, 1)
    }
}

/// `Local7 = n; While (Local7 > 0) { [If (name == value) { Break }]
/// Sleep (step); Local7-- }`.
pub open spec fn delay_loop(wait_ms: u32, name: Seq<u8>, value: u64) -> Seq<u8> {
    let (n, step) = delay_steps(wait_ms);
    seq![STORE_OP] + integer_encoding(n as u64) + seq![LOCAL7_OP] + aml_block(
        seq![WHILE_OP],
        seq![LGREATER_OP, LOCAL7_OP, ZERO_OP] + (if name.len() == 0 {
            Seq::empty()
        } else {
            if_block(seq![LEQUAL_OP] + namestring(name) + integer_encoding(value) + seq![BREAK_OP])
        }) + seq![EXT_OP_PREFIX, SLEEP_OP] + integer_encoding(step as u64) + seq![
            DECREMENT_OP,
            LOCAL7_OP,
        ],
    )
}

/// A string's length counting a terminating NUL, as a 64-bit value
/// (wrapping to 0 at the top of the range).
pub open spec fn count_with_nul(n: nat) -> u64 {
    if n >= u64::MAX {
        0
    } else {
        (n + 1) as u64
    }
}

/// The UTF-16 units of a string of bytes: ASCII characters as they are,
/// anything else as `?`.
pub open spec fn utf16_units(s: Seq<u8>) -> Seq<u8>
    decreases s.len(),
{
    if s.len() == 0 {
        Seq::empty()
    } else {
        let c = s.last();
        utf16_units(s.drop_last()) + le16(
            if c != 0 && c < 0x80 {
                c as int
            } else {
                0x3f
            },
        )
    }
}

/// The `_PRx` names of a power resource, each naming it in a one-element
/// package.
pub open spec fn power_res_names(states: Seq<&str>, name: Seq<u8>) -> Seq<u8>
    decreases states.len(),
{
    if states.len() == 0 {
        Seq::empty()
    } else {
        power_res_names(states.drop_last(), name) + name_package(
            states.last().spec_bytes(),
            1,
            simple_name(name),
        )
    }
}

/// Whether every name of `states` can be encoded.
pub open spec fn states_ok(states: Seq<&str>) -> bool {
    forall|i: int| 0 <= i < states.len() ==> name_err((#[trigger] states[i]).spec_bytes()) is None
}

proof fn lemma_units_len(s: Seq<u8>)
    ensures
        utf16_units(s).len() == 2 * s.len(),
    decreases s.len(),
{
    if s.len() > 0 {
        lemma_units_len(s.drop_last());
    }
}

impl AcpiGen {
    /// Waits up to `wait_ms` milliseconds, stopping early once the object
    /// `name` equals `value` (no check when `name` is empty).
    #[verifier::rlimit(60)]
    pub fn write_delay_until_namestr_int(&mut self, wait_ms: u32, name: &str, value: u64) -> (r:
        Result<(), Error>)
        requires
            old(self).wf(),
            old(self).depth() + 1 < ACPIGEN_LENSTACK_SIZE,
        ensures
            final(self).emitted(
                old(self),
                delay_loop(wait_ms, name.spec_bytes(), value),
                if name.spec_bytes().len() == 0 {
                    None
                } else {
                    name_err(name.spec_bytes())
                },
                r,
            ),
    {
        let n = name.as_bytes();
        let has_name = n.len() != 0;
        if has_name {
            check_namestring(n)?;
        }
        let (segments, step): (u32, u64) = if wait_ms > 32 {
            (wait_ms / 16, 16)
        } else {
            (wait_ms, 1)
        };
        self.write_store_int_to_op(segments as u64, LOCAL7_OP)?;
        let ghost mid = self.bytes();
        self.emit_byte(WHILE_OP)?;
        self.write_len_f()?;
        self.emit_bytes(&[LGREATER_OP, LOCAL7_OP, ZERO_OP])?;
        let ghost cond = if n@.len() == 0 {
            Seq::<u8>::empty()
        } else {
            if_block(seq![LEQUAL_OP] + namestring(n@) + integer_encoding(value) + seq![BREAK_OP])
        };
        if has_name {
            let ghost before_if = self.bytes();
            self.write_if_lequal_namestr_int_bytes(n, value)?;
            self.emit_byte(BREAK_OP)?;
            let ghost ih = seq![IF_OP];
            let ghost ir = seq![LEQUAL_OP] + namestring(n@) + integer_encoding(value) + seq![BREAK_OP];
            proof {
                assert(self.bytes() =~= before_if + ih + seq![0u8, 0u8, 0u8] + ir);
            }
            self.end_block(Ghost(before_if), Ghost(ih), Ghost(ir));
        }
        self.write_sleep(step)?;
        self.emit_bytes(&[DECREMENT_OP, LOCAL7_OP])?;
        let ghost head = seq![WHILE_OP];
        let ghost rest = seq![LGREATER_OP, LOCAL7_OP, ZERO_OP] + cond + seq![EXT_OP_PREFIX, SLEEP_OP]
            + integer_encoding(step) + seq![DECREMENT_OP, LOCAL7_OP];
        proof {
            assert([LGREATER_OP, LOCAL7_OP, ZERO_OP]@ =~= seq![LGREATER_OP, LOCAL7_OP, ZERO_OP]);
            assert([DECREMENT_OP, LOCAL7_OP]@ =~= seq![DECREMENT_OP, LOCAL7_OP]);
            assert(self.bytes() =~= mid + head + seq![0u8, 0u8, 0u8] + rest);
        }
        self.end_block(Ghost(mid), Ghost(head), Ghost(rest));
        proof {
            assert(self.bytes() =~= old(self).bytes() + delay_loop(wait_ms, n@, value));
            assert(self.open_blocks() =~= old(self).open_blocks());
        }
        Ok(())
    }

    fn write_utf16_units(&mut self, s: &[u8]) -> (r: Result<(), Error>)
        requires
            old(self).wf(),
        ensures
            final(self).appended(old(self), utf16_units(s@), r),
    {
        proof {
            lemma_units_len(s@);
        }
        if s.len() > (ACPIGEN_MAXLEN - self.buf_len()) / 2 {
            return Err(Error::BufferFull);
        }
        let mut i: usize = 0;
        proof {
            assert(s@.subrange(0, 0) =~= Seq::<u8>::empty());
            assert(self.bytes() =~= old(self).bytes() + utf16_units(s@.subrange(0, 0)));
        }
        while i < s.len()
            invariant
                self.wf(),
                i <= s@.len(),
                old(self).fits(2 * s@.len() as int),
                self.open_blocks() == old(self).open_blocks(),
                self.bytes() == old(self).bytes() + utf16_units(s@.subrange(0, i as int)),
            decreases s@.len() - i,
        {
            proof {
                lemma_units_len(s@.subrange(0, i as int));
            }
            let c = s[i];
            let unit: u32 = if c != 0 && c < 0x80 {
                c as u32
            } else {
                0x3f
            };
            let res = self.emit_word(unit);
            proof {
                assert(s@.subrange(0, i + 1).drop_last() =~= s@.subrange(0, i as int));
            }
            if res.is_err() {
                return res;
            }
            proof {
                assert(self.bytes() =~= old(self).bytes() + utf16_units(s@.subrange(0, i + 1)));
            }
            i = i + 1;
        }
        proof {
            assert(s@.subrange(0, i as int) =~= s@);
        }
        Ok(())
    }

    /// `Name (name, Buffer () { ... })` holding `string` as UTF-16 units;
    /// the buffer size is given as the string's length plus one.
    pub fn write_name_unicode(&mut self, name: &str, string: &str) -> (r: Result<(), Error>)
        requires
            old(self).wf(),
            old(self).depth() < ACPIGEN_LENSTACK_SIZE,
        ensures
            final(self).emitted(
                old(self),
                name_head(name.spec_bytes()) + aml_block(
                    seq![BUFFER_OP],
                    integer_encoding(count_with_nul(string.spec_bytes().len())) + utf16_units(
                        string.spec_bytes(),
                    ),
                ),
                name_err(name.spec_bytes()),
                r,
            ),
    {
        let s = string.as_bytes();
        let len: u64 = if s.len() as u64 == u64::MAX {
            0
        } else {
            s.len() as u64 + 1
        };
        self.write_name(name)?;
        let ghost mid = self.bytes();
        self.emit_byte(BUFFER_OP)?;
        self.write_len_f()?;
        self.write_integer(len)?;
        self.write_utf16_units(s)?;
        let ghost head = seq![BUFFER_OP];
        let ghost rest = integer_encoding(len) + utf16_units(s@);
        proof {
            assert(self.bytes() =~= mid + head + seq![0u8, 0u8, 0u8] + rest);
        }
        self.end_block(Ghost(mid), Ghost(head), Ghost(rest));
        proof {
            assert(self.bytes() =~= old(self).bytes() + (name_head(name.spec_bytes()) + aml_block(
                head,
                rest,
            )));
            assert(self.open_blocks() =~= old(self).open_blocks());
        }
        Ok(())
    }
}

proof fn lemma_names_grow(states: Seq<&str>, name: Seq<u8>, i: int)
    requires
        0 <= i < states.len(),
    ensures
        power_res_names(states.subrange(0, i), name).len() + name_package(
            states[i].spec_bytes(),
            1,
            simple_name(name),
        ).len() <= power_res_names(states, name).len(),
    decreases states.len() - i,
{
    if i + 1 < states.len() {
        lemma_names_grow(states, name, i + 1);
        assert(states.subrange(0, i + 2).drop_last() =~= states.subrange(0, i + 1));
    }
    assert(states.subrange(0, i + 1).drop_last() =~= states.subrange(0, i));
    assert(states.subrange(0, states.len() as int) =~= states);
}

/// Whether every name of `states` can be encoded.
fn check_states(states: &[&str]) -> (r: Result<(), Error>)
    ensures
        r is Ok <==> states_ok(states@),
        r is Err ==> r == Err::<(), Error>(Error::NameTooLong),
{
    let mut k: usize = 0;
    while k < states.len()
        invariant
            k <= states@.len(),
            forall|j: int| 0 <= j < k ==> name_err((#[trigger] states@[j]).spec_bytes()) is None,
        decreases states@.len() - k,
    {
        let res = check_namestring(states[k].as_bytes());
        if res.is_err() {
            proof {
                assert(name_err(states@[k as int].spec_bytes()) is Some);
            }
            return res;
        }
        k = k + 1;
    }
    Ok(())
}

impl AcpiGen {
    /// `Name (state, Package (1) { name })` for one `_PRx` object.
    fn write_power_res_name(&mut self, state: &str, name: &str) -> (r: Result<(), Error>)
        requires
            old(self).wf(),
            old(self).depth() < ACPIGEN_LENSTACK_SIZE,
            name_err(state.spec_bytes()) is None,
        ensures
            final(self).appended(
                old(self),
                name_package(state.spec_bytes(), 1, simple_name(name.spec_bytes())),
                r,
            ),
    {
        self.write_name(state)?;
        let ghost mid = self.bytes();
        self.write_package(1)?;
        self.emit_simple_namestring(name)?;
        let ghost head = seq![PACKAGE_OP];
        let ghost rest = seq![1u8] + simple_name(name.spec_bytes());
        proof {
            assert(self.bytes() =~= mid + head + seq![0u8, 0u8, 0u8] + rest);
        }
        self.end_block(Ghost(mid), Ghost(head), Ghost(rest));
        proof {
            assert(self.bytes() =~= old(self).bytes() + name_package(
                state.spec_bytes(),
                1,
                simple_name(name.spec_bytes()),
            ));
            assert(self.open_blocks() =~= old(self).open_blocks());
        }
        Ok(())
    }

    fn write_power_res_names(&mut self, states: &[&str], name: &str) -> (r: Result<(), Error>)
        requires
            old(self).wf(),
            old(self).depth() < ACPIGEN_LENSTACK_SIZE,
            states_ok(states@),
        ensures
            final(self).appended(old(self), power_res_names(states@, name.spec_bytes()), r),
    {
        let mut i: usize = 0;
        proof {
            assert(states@.subrange(0, 0) =~= Seq::<&str>::empty());
            assert(self.bytes() =~= old(self).bytes() + power_res_names(
                states@.subrange(0, 0),
                name.spec_bytes(),
            ));
        }
        while i < states.len()
            invariant
                self.wf(),
                i <= states@.len(),
                states_ok(states@),
                self.depth() == old(self).depth(),
                self.depth() < ACPIGEN_LENSTACK_SIZE,
                self.open_blocks() == old(self).open_blocks(),
                self.bytes() == old(self).bytes() + power_res_names(
                    states@.subrange(0, i as int),
                    name.spec_bytes(),
                ),
            decreases states@.len() - i,
        {
            proof {
                assert(name_err(states@[i as int].spec_bytes()) is None);
            }
            let res = self.write_power_res_name(states[i], name);
            if res.is_err() {
                proof {
                    lemma_names_grow(states@, name.spec_bytes(), i as int);
                }
                return res;
            }
            proof {
                assert(states@.subrange(0, i + 1).drop_last() =~= states@.subrange(0, i as int));
                assert(self.bytes() =~= old(self).bytes() + power_res_names(
                    states@.subrange(0, i + 1),
                    name.spec_bytes(),
                ));
            }
            i = i + 1;
        }
        proof {
            assert(states@.subrange(0, i as int) =~= states@);
            self.lemma_wf_bounds();
        }
        Ok(())
    }

    /// `Name (_PRx, Package (One) { name })` for each of `dev_states`, then
    /// opens `PowerResource (name, level, order) {`.
    pub fn write_power_res(&mut self, name: &str, level: u8, order: u16, dev_states: &[&str]) -> (r:
        Result<(), Error>)
        requires
            old(self).wf(),
            old(self).depth() < ACPIGEN_LENSTACK_SIZE,
        ensures
            final(self).opened(
                old(self),
                power_res_names(dev_states@, name.spec_bytes()) + seq![EXT_OP_PREFIX, POWER_RES_OP],
                simple_name(name.spec_bytes()) + seq![level] + le16(order as int),
                if states_ok(dev_states@) {
                    None
                } else {
                    Some(Error::NameTooLong)
                },
                r,
            ),
    {
        check_states(dev_states)?;
        self.write_power_res_names(dev_states, name)?;
        self.emit_ext_op(POWER_RES_OP)?;
        self.write_len_f()?;
        self.emit_simple_namestring(name)?;
        self.emit_byte(level)?;
        self.emit_word(order as u32)?;
        proof {
            assert(self.bytes() =~= old(self).bytes() + (power_res_names(dev_states@, name.spec_bytes())
                + seq![EXT_OP_PREFIX, POWER_RES_OP]) + seq![0u8, 0u8, 0u8] + (simple_name(
                name.spec_bytes(),
            ) + seq![level] + le16(order as int)));
        }
        Ok(())
    }
}

} // verus!
