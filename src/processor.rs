//! Processor objects and their notification method.

use vstd::prelude::*;
use vstd::string::StringSliceAdditionalSpecFns;
use crate::acpigen::{
    AcpiGen, Error, ACPIGEN_LENSTACK_SIZE, ARG0_OP, EXT_OP_PREFIX, METHOD_OP, NOTIFY_OP, PACKAGE_OP,
    PROCESSOR_OP,
};
use crate::aml::{le32, namestring};
use crate::blocks::{method_block, method_rest, package_block};
use crate::namestring::{lemma_short_name_ok, name_err};
use crate::values::name_head;

verus! {

/// The decimal digits of `n`.
pub open spec fn decimal(n: nat) -> Seq<u8>
    decreases n,
{
    if n < 10 {
        seq![(0x30 + n) as u8]
    } else {
        decimal(n / 10) + seq![(0x30 + n % 10) as u8]
    }
}

/// The decimal digits of `n`, at least two.
pub open spec fn decimal2(n: nat) -> Seq<u8> {
    if n < 10 {
        seq![0x30u8] + decimal(n)
    } else {
        decimal(n)
    }
}

/// The path `\_SB.CPnn` of processor `n`.
pub open spec fn cpu_path(n: nat) -> Seq<u8> {
    seq![0x5cu8, 0x5f, 0x53, 0x42, 0x2e, 0x43, 0x50] + decimal2(n)
}

/// `10` to the power `k`.
pub open spec fn pow10(k: nat) -> nat
    decreases k,
{
    if k == 0 {
        1
    } else {
        10 * pow10((k - 1) as nat)
    }
}

proof fn lemma_decimal_len(n: nat, k: nat)
    requires
        n < pow10(k),
    ensures
        decimal(n).len() <= k || (k == 0),
        decimal(n).len() >= 1,
    decreases k,
{
    if n >= 10 && k > 0 {
        assert(n / 10 < pow10((k - 1) as nat));
        lemma_decimal_len(n / 10, (k - 1) as nat);
    } else if k == 0 {
        if n >= 10 {
            assert(false);
        }
    }
}

fn push_decimal(v: &mut Vec<u8>, n: u32)
    ensures
        final(v)@ == old(v)@ + decimal(n as nat),
    decreases n,
{
    if n >= 10 {
        push_decimal(v, n / 10);
    }
    v.push((0x30 + n % 10) as u8);
    proof {
        if n < 10 {
            assert(final(v)@ =~= old(v)@ + decimal(n as nat));
        }
    }
}

/// The bytes of `\_SB.CPnn` for processor `n`.
fn cpu_path_bytes(n: u32) -> (r: Vec<u8>)
    ensures
        r@ == cpu_path(n as nat),
        r@.len() < 255,
{
    let mut v: Vec<u8> = vec![0x5c, 0x5f, 0x53, 0x42, 0x2e, 0x43, 0x50];
    if n < 10 {
        v.push(0x30);
    }
    let ghost before = v@;
    push_decimal(&mut v, n);
    proof {
        reveal_with_fuel(pow10, 11);
        assert(pow10(10) == 10_000_000_000);
        lemma_decimal_len(n as nat, 10);
        assert(v@ =~= cpu_path(n as nat));
    }
    v
}

/// `Notify (\_SB.CPnn, Arg0)` for processors `0..n`.
pub open spec fn notify_cpus(n: nat) -> Seq<u8>
    decreases n,
{
    if n == 0 {
        Seq::empty()
    } else {
        notify_cpus((n - 1) as nat) + seq![NOTIFY_OP] + namestring(cpu_path((n - 1) as nat)) + seq![
            ARG0_OP,
        ]
    }
}

/// The paths of processors `first..first + n`.
pub open spec fn cpu_paths(first: nat, n: nat) -> Seq<u8>
    decreases n,
{
    if n == 0 {
        Seq::empty()
    } else {
        cpu_paths(first, (n - 1) as nat) + namestring(cpu_path((first + n - 1) as nat))
    }
}

proof fn lemma_paths_grow(first: nat, i: nat, n: nat)
    requires
        i < n,
    ensures
        cpu_paths(first, i).len() + namestring(cpu_path(first + i)).len() <= cpu_paths(first, n).len(),
    decreases n - i,
{
    if i + 1 < n {
        lemma_paths_grow(first, i + 1, n);
    }
}

proof fn lemma_notify_grow(i: nat, n: nat)
    requires
        i < n,
    ensures
        notify_cpus(i).len() + 2 + namestring(cpu_path(i)).len() <= notify_cpus(n).len(),
    decreases n - i,
{
    if i + 1 < n {
        lemma_notify_grow(i + 1, n);
    }
}

impl AcpiGen {
    /// Opens `Processor (\_SB.CPnn, cpuindex, pblock_addr, pblock_len) {`.
    pub fn write_processor(&mut self, cpuindex: u8, pblock_addr: u32, pblock_len: u8) -> (r: Result<
        (),
        Error,
    >)
        requires
            old(self).wf(),
            old(self).depth() < ACPIGEN_LENSTACK_SIZE,
        ensures
            final(self).opened(
                old(self),
                seq![EXT_OP_PREFIX, PROCESSOR_OP],
                namestring(cpu_path(cpuindex as nat)) + seq![cpuindex] + le32(pblock_addr as int)
                    + seq![pblock_len],
                None,
                r,
            ),
    {
        let path = cpu_path_bytes(cpuindex as u32);
        proof {
            lemma_short_name_ok(path@);
        }
        self.emit_ext_op(PROCESSOR_OP)?;
        self.write_len_f()?;
        self.emit_namestring_bytes(path.as_slice())?;
        self.emit_byte(cpuindex)?;
        self.emit_dword(pblock_addr)?;
        self.emit_byte(pblock_len)?;
        proof {
            assert(self.bytes() =~= old(self).bytes() + seq![EXT_OP_PREFIX, PROCESSOR_OP] + seq![
                0u8,
                0u8,
                0u8,
            ] + (namestring(cpu_path(cpuindex as nat)) + seq![cpuindex] + le32(pblock_addr as int)
                + seq![pblock_len]));
        }
        Ok(())
    }

    fn write_cpu_paths(&mut self, first_core: u32, core_count: u32) -> (r: Result<(), Error>)
        requires
            old(self).wf(),
            first_core + core_count <= u32::MAX,
        ensures
            final(self).appended(old(self), cpu_paths(first_core as nat, core_count as nat), r),
    {
        let mut i: u32 = 0;
        while i < core_count
            invariant
                self.wf(),
                i <= core_count,
                first_core + core_count <= u32::MAX,
                self.open_blocks() == old(self).open_blocks(),
                self.bytes() == old(self).bytes() + cpu_paths(first_core as nat, i as nat),
            decreases core_count - i,
        {
            let path = cpu_path_bytes(first_core + i);
            proof {
                lemma_short_name_ok(path@);
            }
            let res = self.emit_namestring_bytes(path.as_slice());
            if res.is_err() {
                proof {
                    lemma_paths_grow(first_core as nat, i as nat, core_count as nat);
                }
                return res;
            }
            proof {
                assert(self.bytes() =~= old(self).bytes() + cpu_paths(first_core as nat, (i + 1) as nat));
            }
            i = i + 1;
        }
        proof {
            self.lemma_wf_bounds();
        }
        Ok(())
    }

    /// `Name (name, Package () { \_SB.CPnn, ... })` for processors
    /// `first_core..first_core + core_count`.
    pub fn write_processor_package(&mut self, name: &str, first_core: u32, core_count: u32) -> (r:
        Result<(), Error>)
        requires
            old(self).wf(),
            old(self).depth() < ACPIGEN_LENSTACK_SIZE,
            first_core + core_count <= u32::MAX,
        ensures
            final(self).emitted(
                old(self),
                name_head(name.spec_bytes()) + package_block(
                    core_count as u8,
                    cpu_paths(first_core as nat, core_count as nat),
                ),
                name_err(name.spec_bytes()),
                r,
            ),
    {
        self.write_name(name)?;
        let ghost mid = self.bytes();
        self.write_package(core_count as u8)?;
        self.write_cpu_paths(first_core, core_count)?;
        let ghost head = seq![PACKAGE_OP];
        let ghost rest = seq![core_count as u8] + cpu_paths(first_core as nat, core_count as nat);
        proof {
            assert(self.bytes() =~= mid + head + seq![0u8, 0u8, 0u8] + rest);
        }
        self.end_block(Ghost(mid), Ghost(head), Ghost(rest));
        proof {
            assert(self.bytes() =~= old(self).bytes() + (name_head(name.spec_bytes()) + package_block(
                core_count as u8,
                cpu_paths(first_core as nat, core_count as nat),
            )));
            assert(self.open_blocks() =~= old(self).open_blocks());
        }
        Ok(())
    }

    fn write_cpu_notifies(&mut self, number_of_cores: u32) -> (r: Result<(), Error>)
        requires
            old(self).wf(),
        ensures
            final(self).appended(old(self), notify_cpus(number_of_cores as nat), r),
    {
        let mut i: u32 = 0;
        while i < number_of_cores
            invariant
                self.wf(),
                i <= number_of_cores,
                self.open_blocks() == old(self).open_blocks(),
                self.bytes() == old(self).bytes() + notify_cpus(i as nat),
            decreases number_of_cores - i,
        {
            let path = cpu_path_bytes(i);
            proof {
                lemma_short_name_ok(path@);
                lemma_notify_grow(i as nat, number_of_cores as nat);
            }
            let ghost before = self.bytes();
            self.emit_byte(NOTIFY_OP)?;
            self.emit_namestring_bytes(path.as_slice())?;
            self.emit_byte(ARG0_OP)?;
            proof {
                assert(self.bytes() =~= old(self).bytes() + notify_cpus((i + 1) as nat));
            }
            i = i + 1;
        }
        proof {
            self.lemma_wf_bounds();
        }
        Ok(())
    }

    /// `Method (\_SB.CNOT, 1) { Notify (\_SB.CPnn, Arg0) ... }` for
    /// processors `0..number_of_cores`.
    pub fn write_processor_cnot(&mut self, number_of_cores: u32) -> (r: Result<(), Error>)
        requires
            old(self).wf(),
            old(self).depth() < ACPIGEN_LENSTACK_SIZE,
        ensures
            final(self).appended(
                old(self),
                method_block(
                    seq![0x5cu8, 0x5f, 0x53, 0x42, 0x2e, 0x43, 0x4e, 0x4f, 0x54],
                    1,
                    notify_cpus(number_of_cores as nat),
                ),
                r,
            ),
    {
        let name: [u8; 9] = [0x5c, 0x5f, 0x53, 0x42, 0x2e, 0x43, 0x4e, 0x4f, 0x54];
        proof {
            assert(name@ =~= seq![0x5cu8, 0x5f, 0x53, 0x42, 0x2e, 0x43, 0x4e, 0x4f, 0x54]);
            lemma_short_name_ok(name@);
        }
        self.write_method_bytes(&name, 1)?;
        self.write_cpu_notifies(number_of_cores)?;
        let ghost head = seq![METHOD_OP];
        let ghost rest = method_rest(name@, 1) + notify_cpus(number_of_cores as nat);
        proof {
            assert(self.bytes() =~= old(self).bytes() + head + seq![0u8, 0u8, 0u8] + rest);
        }
        self.end_block(Ghost(old(self).bytes()), Ghost(head), Ghost(rest));
        proof {
            assert(self.open_blocks() =~= old(self).open_blocks());
        }
        Ok(())
    }
}

} // verus!
