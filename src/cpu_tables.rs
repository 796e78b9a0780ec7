//! Processor tables that hold register descriptors: `_CST`, `_LPI`, `_PCT`,
//! `XPSS` and the CPPC package.

use vstd::prelude::*;
use vstd::string::StringSliceAdditionalSpecFns;
use crate::acpi::{AcpiAddr, AcpiCstate, AcpiLpiState, XpssSwPstate};
use crate::acpigen::{
    AcpiGen, Error, ACPIGEN_LENSTACK_SIZE, METHOD_OP, PACKAGE_OP, QWORD_PREFIX, RETURN_OP,
    WORD_PREFIX,
};
use crate::aml::{integer_encoding, le16, le64, namestring};
use crate::blocks::{method_block, method_rest, package_block};
use crate::namestring::lemma_short_name_ok;
use crate::resources::{register_descriptor, resource_template};
use crate::tables::{byte_term, dword_term, name_package};
use crate::values::{byte_buffer, name_head, string_term};

verus! {

/// A word as an AML term.
pub open spec fn word_term(v: int) -> Seq<u8> {
    seq![WORD_PREFIX] + le16(v)
}

/// One `_CST` entry: register, type, latency and power.
#[verifier::opaque]
pub open spec fn cst_entry(c: AcpiCstate) -> Seq<u8> {
    package_block(
        4,
        resource_template(register_descriptor(c.resource)) + byte_term(c.ctype as int) + word_term(
            c.latency as int,
        ) + dword_term(c.power),
    )
}

/// The six double words of an `_LPI` state.
#[verifier::opaque]
pub open spec fn lpi_dwords(s: AcpiLpiState<'_>) -> Seq<u8> {
    dword_term(s.min_residency_us) + dword_term(s.worst_case_wakeup_latency_us) + dword_term(s.flags)
        + dword_term(s.arch_context_lost_flags) + dword_term(s.residency_counter_frequency_hz)
        + dword_term(s.enabled_parent_state)
}

/// The entry method, residency counter and usage counter registers of an
/// `_LPI` state.
#[verifier::opaque]
pub open spec fn lpi_registers(s: AcpiLpiState<'_>) -> Seq<u8> {
    resource_template(register_descriptor(s.entry_method)) + resource_template(
        register_descriptor(s.residency_counter_register),
    ) + resource_template(register_descriptor(s.usage_counter_register))
}

/// One `_LPI` state package.
pub open spec fn lpi_entry(s: AcpiLpiState<'_>) -> Seq<u8> {
    package_block(10, lpi_dwords(s) + lpi_registers(s) + string_term(s.state_name.spec_bytes()))
}

/// The four double words of an `XPSS` entry.
#[verifier::opaque]
pub open spec fn xpss_values(p: XpssSwPstate) -> Seq<u8> {
    dword_term(p.core_freq as u32) + dword_term(p.power as u32) + dword_term(
        p.transition_latency as u32,
    ) + dword_term(p.bus_master_latency as u32)
}

/// The four 8-byte buffers of an `XPSS` entry: control and status values,
/// then their masks.
#[verifier::opaque]
pub open spec fn xpss_masks(p: XpssSwPstate) -> Seq<u8> {
    byte_buffer(le64(p.control_value as int)) + byte_buffer(le64(p.status_value as int))
        + byte_buffer(le64(p.control_mask as int)) + byte_buffer(le64(p.status_mask as int))
}

/// One `XPSS` entry: four double words and four 8-byte buffers.
pub open spec fn xpss_entry(p: XpssSwPstate) -> Seq<u8> {
    package_block(8, xpss_values(p) + xpss_masks(p))
}

/// The entries of `s`, in order.
pub open spec fn cst_entries(s: Seq<AcpiCstate>) -> Seq<u8>
    decreases s.len(),
{
    if s.len() == 0 {
        Seq::empty()
    } else {
        cst_entries(s.drop_last()) + cst_entry(s.last())
    }
}

/// The entries written before index `i` and entry `i` fit within all of them.
pub proof fn lemma_cst_entries_prefix(s: Seq<AcpiCstate>, i: int)
    requires
        0 <= i < s.len(),
    ensures
        cst_entries(s.subrange(0, i)).len() + cst_entry(s[i]).len() <= cst_entries(s).len(),
    decreases s.len() - i,
{
    if i + 1 < s.len() {
        lemma_cst_entries_prefix(s, i + 1);
        assert(s.subrange(0, i + 2).drop_last() =~= s.subrange(0, i + 1));
    }
    assert(s.subrange(0, i + 1).drop_last() =~= s.subrange(0, i));
    assert(s.subrange(0, s.len() as int) =~= s);
}

impl AcpiGen {
    fn write_cst_entries(&mut self, list: &[AcpiCstate]) -> (r: Result<(), Error>)
        requires
            old(self).wf(),
            old(self).depth() + 2 < ACPIGEN_LENSTACK_SIZE,
        ensures
            final(self).appended(old(self), cst_entries(list@), r),
    {
        let mut i: usize = 0;
        proof {
            assert(list@.subrange(0, 0) =~= Seq::<AcpiCstate>::empty());
            assert(self.bytes() =~= old(self).bytes() + cst_entries(list@.subrange(0, 0)));
        }
        while i < list.len()
            invariant
                self.wf(),
                i <= list@.len(),
                self.depth() == old(self).depth(),
                self.depth() + 2 < ACPIGEN_LENSTACK_SIZE,
                self.open_blocks() == old(self).open_blocks(),
                self.bytes() == old(self).bytes() + cst_entries(list@.subrange(0, i as int)),
            decreases list@.len() - i,
        {
            let res = self.write_cst_package_entry(&list[i]);
            if res.is_err() {
                proof {
                    lemma_cst_entries_prefix(list@, i as int);
                }
                return res;
            }
            proof {
                assert(list@.subrange(0, i + 1).drop_last() =~= list@.subrange(0, i as int));
                assert(self.bytes() =~= old(self).bytes() + cst_entries(list@.subrange(0, i + 1)));
            }
            i = i + 1;
        }
        proof {
            assert(list@.subrange(0, i as int) =~= list@);
            self.lemma_wf_bounds();
        }
        Ok(())
    }
}

/// The entries of `s`, in order.
pub open spec fn xpss_entries(s: Seq<XpssSwPstate>) -> Seq<u8>
    decreases s.len(),
{
    if s.len() == 0 {
        Seq::empty()
    } else {
        xpss_entries(s.drop_last()) + xpss_entry(s.last())
    }
}

/// The entries written before index `i` and entry `i` fit within all of them.
pub proof fn lemma_xpss_entries_prefix(s: Seq<XpssSwPstate>, i: int)
    requires
        0 <= i < s.len(),
    ensures
        xpss_entries(s.subrange(0, i)).len() + xpss_entry(s[i]).len() <= xpss_entries(s).len(),
    decreases s.len() - i,
{
    if i + 1 < s.len() {
        lemma_xpss_entries_prefix(s, i + 1);
        assert(s.subrange(0, i + 2).drop_last() =~= s.subrange(0, i + 1));
    }
    assert(s.subrange(0, i + 1).drop_last() =~= s.subrange(0, i));
    assert(s.subrange(0, s.len() as int) =~= s);
}

impl AcpiGen {
    fn write_xpss_entries(&mut self, list: &[XpssSwPstate]) -> (r: Result<(), Error>)
        requires
            old(self).wf(),
            old(self).depth() + 1 < ACPIGEN_LENSTACK_SIZE,
        ensures
            final(self).appended(old(self), xpss_entries(list@), r),
    {
        let mut i: usize = 0;
        proof {
            assert(list@.subrange(0, 0) =~= Seq::<XpssSwPstate>::empty());
            assert(self.bytes() =~= old(self).bytes() + xpss_entries(list@.subrange(0, 0)));
        }
        while i < list.len()
            invariant
                self.wf(),
                i <= list@.len(),
                self.depth() == old(self).depth(),
                self.depth() + 1 < ACPIGEN_LENSTACK_SIZE,
                self.open_blocks() == old(self).open_blocks(),
                self.bytes() == old(self).bytes() + xpss_entries(list@.subrange(0, i as int)),
            decreases list@.len() - i,
        {
            let res = self.write_xpss_package(&list[i]);
            if res.is_err() {
                proof {
                    lemma_xpss_entries_prefix(list@, i as int);
                }
                return res;
            }
            proof {
                assert(list@.subrange(0, i + 1).drop_last() =~= list@.subrange(0, i as int));
                assert(self.bytes() =~= old(self).bytes() + xpss_entries(list@.subrange(0, i + 1)));
            }
            i = i + 1;
        }
        proof {
            assert(list@.subrange(0, i as int) =~= list@);
            self.lemma_wf_bounds();
        }
        Ok(())
    }
}

impl AcpiGen {
    /// One `_CST` entry.
    pub fn write_cst_package_entry(&mut self, cstate: &AcpiCstate) -> (r: Result<(), Error>)
        requires
            old(self).wf(),
            old(self).depth() + 2 < ACPIGEN_LENSTACK_SIZE,
        ensures
            final(self).appended(old(self), cst_entry(*cstate), r),
    {
        proof {
            reveal(cst_entry);
        }
        self.write_package(4)?;
        self.write_register_resource(&cstate.resource)?;
        self.write_byte(cstate.ctype as u32)?;
        self.write_word(cstate.latency as u32)?;
        self.write_dword(cstate.power)?;
        let ghost body = resource_template(register_descriptor(cstate.resource)) + byte_term(
            cstate.ctype as int,
        ) + word_term(cstate.latency as int) + dword_term(cstate.power);
        let ghost head = seq![PACKAGE_OP];
        let ghost rest = seq![4u8] + body;
        proof {
            assert(self.bytes() =~= old(self).bytes() + head + seq![0u8, 0u8, 0u8] + rest);
        }
        self.end_block(Ghost(old(self).bytes()), Ghost(head), Ghost(rest));
        proof {
            assert(self.open_blocks() =~= old(self).open_blocks());
        }
        Ok(())
    }

    fn write_xpss_values(&mut self, p: &XpssSwPstate) -> (r: Result<(), Error>)
        requires
            old(self).wf(),
        ensures
            final(self).appended(old(self), xpss_values(*p), r),
    {
        proof {
            reveal(xpss_values);
        }
        self.write_dword(p.core_freq as u32)?;
        self.write_dword(p.power as u32)?;
        self.write_dword(p.transition_latency as u32)?;
        self.write_dword(p.bus_master_latency as u32)?;
        proof {
            assert(self.bytes() =~= old(self).bytes() + (dword_term(p.core_freq as u32) + dword_term(
                p.power as u32,
            ) + dword_term(p.transition_latency as u32) + dword_term(p.bus_master_latency as u32)));
        }
        Ok(())
    }

    fn write_xpss_masks(&mut self, p: &XpssSwPstate) -> (r: Result<(), Error>)
        requires
            old(self).wf(),
            old(self).depth() < ACPIGEN_LENSTACK_SIZE,
        ensures
            final(self).appended(old(self), xpss_masks(*p), r),
    {
        proof {
            reveal(xpss_masks);
        }
        let cv = le_bytes(p.control_value);
        let sv = le_bytes(p.status_value);
        let cm = le_bytes(p.control_mask);
        let sm = le_bytes(p.status_mask);
        self.write_byte_buffer(&cv)?;
        self.write_byte_buffer(&sv)?;
        self.write_byte_buffer(&cm)?;
        self.write_byte_buffer(&sm)?;
        proof {
            assert(self.bytes() =~= old(self).bytes() + (byte_buffer(le64(p.control_value as int))
                + byte_buffer(le64(p.status_value as int)) + byte_buffer(le64(p.control_mask as int))
                + byte_buffer(le64(p.status_mask as int))));
        }
        Ok(())
    }

    /// One `XPSS` entry.
    pub fn write_xpss_package(&mut self, pstate_value: &XpssSwPstate) -> (r: Result<(), Error>)
        requires
            old(self).wf(),
            old(self).depth() + 1 < ACPIGEN_LENSTACK_SIZE,
        ensures
            final(self).appended(old(self), xpss_entry(*pstate_value), r),
    {
        let p = pstate_value;
        self.write_package(8)?;
        self.write_xpss_values(p)?;
        self.write_xpss_masks(p)?;
        let ghost body = xpss_values(*p) + xpss_masks(*p);
        let ghost head = seq![PACKAGE_OP];
        let ghost rest = seq![8u8] + body;
        proof {
            assert(self.bytes() =~= old(self).bytes() + head + seq![0u8, 0u8, 0u8] + rest);
        }
        self.end_block(Ghost(old(self).bytes()), Ghost(head), Ghost(rest));
        proof {
            assert(self.open_blocks() =~= old(self).open_blocks());
        }
        Ok(())
    }
}

/// The eight little-endian bytes of `v`.
fn le_bytes(v: u64) -> (r: [u8; 8])
    ensures
        r@ == le64(v as int),
{
    let lo = (v % 0x1_0000_0000) as u32;
    let hi = (v / 0x1_0000_0000) as u32;
    let r = [
        (lo % 0x100) as u8,
        (lo / 0x100 % 0x100) as u8,
        (lo / 0x10000 % 0x100) as u8,
        (lo / 0x1000000 % 0x100) as u8,
        (hi % 0x100) as u8,
        (hi / 0x100 % 0x100) as u8,
        (hi / 0x10000 % 0x100) as u8,
        (hi / 0x1000000 % 0x100) as u8,
    ];
    assert(r@ =~= le64(v as int));
    r
}

impl AcpiGen {
    /// Opens `Name (name, Package (n) {` for a fixed four-byte name.
    fn open_fixed_package(&mut self, name: &[u8; 4], n: u8) -> (r: Result<(), Error>)
        requires
            old(self).wf(),
            old(self).depth() < ACPIGEN_LENSTACK_SIZE,
        ensures
            final(self).opened(old(self), name_head(name@) + seq![PACKAGE_OP], seq![n], None, r),
    {
        proof {
            lemma_short_name_ok(name@);
        }
        self.write_name_bytes(name)?;
        self.write_package(n)?;
        proof {
            assert(self.bytes() =~= old(self).bytes() + (name_head(name@) + seq![PACKAGE_OP]) + seq![
                0u8,
                0u8,
                0u8,
            ] + seq![n]);
        }
        Ok(())
    }

    /// Closes a package opened by `open_fixed_package` once `body` follows.
    fn close_fixed_package(
        &mut self,
        Ghost(before): Ghost<Seq<u8>>,
        Ghost(name): Ghost<Seq<u8>>,
        Ghost(n): Ghost<u8>,
        Ghost(body): Ghost<Seq<u8>>,
    )
        requires
            old(self).wf(),
            old(self).depth() > 0,
            old(self).bytes() == before + (name_head(name) + seq![PACKAGE_OP]) + seq![0u8, 0u8, 0u8]
                + seq![n] + body,
            old(self).top() == before.len() + name_head(name).len() + 1,
        ensures
            final(self).wf(),
            final(self).bytes() == before + name_package(name, n, body),
            final(self).open_blocks() == old(self).open_blocks().drop_last(),
    {
        let ghost b = before + name_head(name);
        let ghost head = seq![PACKAGE_OP];
        let ghost rest = seq![n] + body;
        proof {
            assert(old(self).bytes() =~= b + head + seq![0u8, 0u8, 0u8] + rest);
        }
        self.end_block(Ghost(b), Ghost(head), Ghost(rest));
        proof {
            assert(self.bytes() =~= before + name_package(name, n, body));
        }
    }

    fn write_cst_body(&mut self, cstates: &[AcpiCstate]) -> (r: Result<(), Error>)
        requires
            old(self).wf(),
            old(self).depth() + 2 < ACPIGEN_LENSTACK_SIZE,
        ensures
            final(self).appended(
                old(self),
                integer_encoding(cstates@.len() as u64) + cst_entries(cstates@),
                r,
            ),
    {
        self.write_integer(cstates.len() as u64)?;
        self.write_cst_entries(cstates)?;
        proof {
            assert(self.bytes() =~= old(self).bytes() + (integer_encoding(cstates@.len() as u64)
                + cst_entries(cstates@)));
        }
        Ok(())
    }

    /// `Name (_CST, Package () { count, entries })`: processor idle states.
    #[verifier::rlimit(80)]
    pub fn write_cst_package(&mut self, cstates: &[AcpiCstate]) -> (r: Result<(), Error>)
        requires
            old(self).wf(),
            old(self).depth() + 3 < ACPIGEN_LENSTACK_SIZE,
        ensures
            final(self).appended(
                old(self),
                name_package(
                    seq![0x5fu8, 0x43, 0x53, 0x54],
                    ((cstates@.len() + 1) % 0x100) as u8,
                    integer_encoding(cstates@.len() as u64) + cst_entries(cstates@),
                ),
                r,
            ),
    {
        let name: [u8; 4] = [0x5f, 0x43, 0x53, 0x54];
        proof {
            assert(name@ =~= seq![0x5fu8, 0x43, 0x53, 0x54]);
        }
        let low = (cstates.len() % 0x100) as u8;
        let n: u8 = if low == 0xff {
            0
        } else {
            low + 1
        };
        self.open_fixed_package(&name, n)?;
        self.write_cst_body(cstates)?;
        let ghost body = integer_encoding(cstates@.len() as u64) + cst_entries(cstates@);
        proof {
            assert(self.bytes() =~= old(self).bytes() + (name_head(name@) + seq![PACKAGE_OP]) + seq![
                0u8,
                0u8,
                0u8,
            ] + seq![n] + body);
        }
        self.close_fixed_package(Ghost(old(self).bytes()), Ghost(name@), Ghost(n), Ghost(body));
        proof {
            assert(self.open_blocks() =~= old(self).open_blocks());
        }
        Ok(())
    }

    /// `Name (XPSS, Package () { entries })`.
    #[verifier::rlimit(80)]
    pub fn write_xpss_object(&mut self, pstate_values: &[XpssSwPstate]) -> (r: Result<(), Error>)
        requires
            old(self).wf(),
            old(self).depth() + 2 < ACPIGEN_LENSTACK_SIZE,
        ensures
            final(self).appended(
                old(self),
                name_package(
                    seq![0x58u8, 0x50, 0x53, 0x53],
                    pstate_values@.len() as u8,
                    xpss_entries(pstate_values@),
                ),
                r,
            ),
    {
        let name: [u8; 4] = [0x58, 0x50, 0x53, 0x53];
        proof {
            assert(name@ =~= seq![0x58u8, 0x50, 0x53, 0x53]);
        }
        let n = pstate_values.len() as u8;
        self.open_fixed_package(&name, n)?;
        self.write_xpss_entries(pstate_values)?;
        let ghost body = xpss_entries(pstate_values@);
        proof {
            assert(self.bytes() =~= old(self).bytes() + (name_head(name@) + seq![PACKAGE_OP]) + seq![
                0u8,
                0u8,
                0u8,
            ] + seq![n] + body);
        }
        self.close_fixed_package(Ghost(old(self).bytes()), Ghost(name@), Ghost(n), Ghost(body));
        proof {
            assert(self.open_blocks() =~= old(self).open_blocks());
        }
        Ok(())
    }

    /// `Name (_PCT, Package () { control register, status register })`.
    pub fn write_pct_package(&mut self, perf_ctrl: &AcpiAddr, perf_sts: &AcpiAddr) -> (r: Result<
        (),
        Error,
    >)
        requires
            old(self).wf(),
            old(self).depth() + 3 < ACPIGEN_LENSTACK_SIZE,
        ensures
            final(self).appended(
                old(self),
                name_package(
                    seq![0x5fu8, 0x50, 0x43, 0x54],
                    2,
                    resource_template(register_descriptor(*perf_ctrl)) + resource_template(
                        register_descriptor(*perf_sts),
                    ),
                ),
                r,
            ),
    {
        let name: [u8; 4] = [0x5f, 0x50, 0x43, 0x54];
        proof {
            assert(name@ =~= seq![0x5fu8, 0x50, 0x43, 0x54]);
        }
        self.open_fixed_package(&name, 2)?;
        self.write_register_resource(perf_ctrl)?;
        self.write_register_resource(perf_sts)?;
        let ghost body = resource_template(register_descriptor(*perf_ctrl)) + resource_template(
            register_descriptor(*perf_sts),
        );
        proof {
            assert(self.bytes() =~= old(self).bytes() + (name_head(name@) + seq![PACKAGE_OP]) + seq![
                0u8,
                0u8,
                0u8,
            ] + seq![2u8] + body);
        }
        self.close_fixed_package(Ghost(old(self).bytes()), Ghost(name@), Ghost(2u8), Ghost(body));
        proof {
            assert(self.open_blocks() =~= old(self).open_blocks());
        }
        Ok(())
    }
}

/// Number of CPPC entries in a version 3 table.
pub const CPPC_MAX_FIELDS: usize = 21;

/// The fields of a CPPC table, in order. Version 1 has the first 15,
/// version 2 the first 19 and version 3 all 21.
#[derive(Debug, Clone, Copy, PartialEq, Eq, Structural)]
pub enum CppcFields {
    HighestPerf,
    NominalPerf,
    LowestNonlPerf,
    LowestPerf,
    GuaranteedPerf,
    DesiredPerf,
    MinPerf,
    MaxPerf,
    PerfReduceTolerance,
    TimeWindow,
    CounterWrap,
    RefPerfCounter,
    DeliveredPerfCounter,
    PerfLimited,
    Enable,
    MaxFieldsVer1,
    AutoActivityWindow,
    PerfPref,
    RefPerf,
    MaxFieldsVer2,
    NominalFreq,
    MaxFieldsVer3,
}

/// Whether a CPPC entry is a register or a plain double word.
#[derive(Debug, Clone, Copy, PartialEq, Eq, Structural)]
pub enum CppcType {
    Reg,
    Dword,
}

/// One CPPC entry: a register or a double word.
#[derive(Debug, Clone, Copy)]
pub enum CppcEntry {
    Reg(AcpiAddr),
    Dword(u32),
}

impl CppcEntry {
    pub fn cppc_type(&self) -> (r: CppcType)
        ensures
            r == (match self {
                CppcEntry::Reg(_) => CppcType::Reg,
                CppcEntry::Dword(_) => CppcType::Dword,
            }),
    {
        match self {
            CppcEntry::Reg(_) => CppcType::Reg,
            CppcEntry::Dword(_) => CppcType::Dword,
        }
    }
}

/// A CPPC table: its version and the entries of version 3; lower versions
/// use a prefix.
pub struct CppcConfig {
    /// Must be 1, 2, or 3
    pub version: u32,
    pub entries: [CppcEntry; CPPC_MAX_FIELDS],
}

/// The number of entries of a CPPC table of `version`, if it is 1, 2 or 3.
pub open spec fn cppc_field_count(version: u32) -> Option<int> {
    if version == 1 {
        Some(15)
    } else if version == 2 {
        Some(19)
    } else if version == 3 {
        Some(21)
    } else {
        None
    }
}

/// One CPPC entry as an AML term.
pub open spec fn cppc_entry(e: CppcEntry) -> Seq<u8> {
    match e {
        CppcEntry::Dword(v) => dword_term(v),
        CppcEntry::Reg(a) => resource_template(register_descriptor(a)),
    }
}

/// The first `n` entries of `s`, as terms.
pub open spec fn cppc_entries(s: Seq<CppcEntry>, n: int) -> Seq<u8>
    decreases n,
{
    if n <= 0 {
        Seq::empty()
    } else {
        cppc_entries(s, n - 1) + cppc_entry(s[n - 1])
    }
}

/// `Name (GCPC, Package () { count, version, entries })`.
pub open spec fn cppc_package(version: u32, entries: Seq<CppcEntry>, max: int) -> Seq<u8> {
    name_package(
        seq![0x47u8, 0x43, 0x50, 0x43],
        (max + 2) as u8,
        dword_term((max + 2) as u32) + byte_term(version as int) + cppc_entries(entries, max),
    )
}

proof fn lemma_cppc_entries_grow(s: Seq<CppcEntry>, i: int, n: int)
    requires
        0 <= i < n,
    ensures
        cppc_entries(s, i).len() + cppc_entry(s[i]).len() <= cppc_entries(s, n).len(),
    decreases n - i,
{
    if i + 1 < n {
        lemma_cppc_entries_grow(s, i + 1, n);
    }
}

impl AcpiGen {
    fn write_cppc_entry(&mut self, e: &CppcEntry) -> (r: Result<(), Error>)
        requires
            old(self).wf(),
            old(self).depth() + 1 < ACPIGEN_LENSTACK_SIZE,
        ensures
            final(self).appended(old(self), cppc_entry(*e), r),
    {
        match e {
            CppcEntry::Dword(v) => self.write_dword(*v),
            CppcEntry::Reg(a) => self.write_register_resource(a),
        }
    }

    fn write_cppc_entries(&mut self, entries: &[CppcEntry; CPPC_MAX_FIELDS], max: usize) -> (r: Result<
        (),
        Error,
    >)
        requires
            old(self).wf(),
            old(self).depth() + 1 < ACPIGEN_LENSTACK_SIZE,
            max <= CPPC_MAX_FIELDS,
        ensures
            final(self).appended(old(self), cppc_entries(entries@, max as int), r),
    {
        let mut i: usize = 0;
        while i < max
            invariant
                self.wf(),
                i <= max <= CPPC_MAX_FIELDS,
                self.depth() == old(self).depth(),
                self.depth() + 1 < ACPIGEN_LENSTACK_SIZE,
                self.open_blocks() == old(self).open_blocks(),
                self.bytes() == old(self).bytes() + cppc_entries(entries@, i as int),
            decreases max - i,
        {
            let res = self.write_cppc_entry(&entries[i]);
            if res.is_err() {
                proof {
                    lemma_cppc_entries_grow(entries@, i as int, max as int);
                }
                return res;
            }
            proof {
                assert(self.bytes() =~= old(self).bytes() + cppc_entries(entries@, i + 1));
            }
            i = i + 1;
        }
        proof {
            self.lemma_wf_bounds();
        }
        Ok(())
    }

    /// The CPPC package `GCPC`; fails with `InvalidCppcVersion` unless the
    /// version is 1, 2 or 3.
    #[verifier::rlimit(80)]
    pub fn write_cppc_package(&mut self, config: &CppcConfig) -> (r: Result<(), Error>)
        requires
            old(self).wf(),
            old(self).depth() + 2 < ACPIGEN_LENSTACK_SIZE,
        ensures
            final(self).emitted(
                old(self),
                cppc_package(
                    config.version,
                    config.entries@,
                    match cppc_field_count(config.version) {
                        Some(m) => m,
                        None => 0,
                    },
                ),
                match cppc_field_count(config.version) {
                    Some(_) => None,
                    None => Some(Error::InvalidCppcVersion(config.version)),
                },
                r,
            ),
    {
        let max: usize = if config.version == 1 {
            15
        } else if config.version == 2 {
            19
        } else if config.version == 3 {
            21
        } else {
            return Err(Error::InvalidCppcVersion(config.version));
        };
        let name: [u8; 4] = [0x47, 0x43, 0x50, 0x43];
        proof {
            assert(name@ =~= seq![0x47u8, 0x43, 0x50, 0x43]);
        }
        let n = (max + 2) as u8;
        self.open_fixed_package(&name, n)?;
        self.write_dword((max + 2) as u32)?;
        self.write_byte(config.version)?;
        self.write_cppc_entries(&config.entries, max)?;
        let ghost body = dword_term((max + 2) as u32) + byte_term(config.version as int)
            + cppc_entries(config.entries@, max as int);
        proof {
            assert(self.bytes() =~= old(self).bytes() + (name_head(name@) + seq![PACKAGE_OP]) + seq![
                0u8,
                0u8,
                0u8,
            ] + seq![n] + body);
        }
        self.close_fixed_package(Ghost(old(self).bytes()), Ghost(name@), Ghost(n), Ghost(body));
        proof {
            assert(self.open_blocks() =~= old(self).open_blocks());
        }
        Ok(())
    }

    /// `Method (_CPC) { Return (\_SB.CP.GCPC) }`.
    pub fn write_cppc_method(&mut self) -> (r: Result<(), Error>)
        requires
            old(self).wf(),
            old(self).depth() < ACPIGEN_LENSTACK_SIZE,
        ensures
            final(self).appended(
                old(self),
                method_block(
                    seq![0x5fu8, 0x43, 0x50, 0x43],
                    0,
                    seq![RETURN_OP] + namestring(
                        seq![0x5cu8, 0x5f, 0x53, 0x42, 0x2e, 0x43, 0x50, 0x2e, 0x47, 0x43, 0x50, 0x43],
                    ),
                ),
                r,
            ),
    {
        let name: [u8; 4] = [0x5f, 0x43, 0x50, 0x43];
        let path: [u8; 12] = [0x5c, 0x5f, 0x53, 0x42, 0x2e, 0x43, 0x50, 0x2e, 0x47, 0x43, 0x50, 0x43];
        proof {
            assert(name@ =~= seq![0x5fu8, 0x43, 0x50, 0x43]);
            assert(path@ =~= seq![0x5cu8, 0x5f, 0x53, 0x42, 0x2e, 0x43, 0x50, 0x2e, 0x47, 0x43, 0x50, 0x43]);
            lemma_short_name_ok(name@);
            lemma_short_name_ok(path@);
        }
        self.write_method_bytes(&name, 0)?;
        self.write_return_namestr_bytes(&path)?;
        let ghost head = seq![METHOD_OP];
        let ghost rest = method_rest(name@, 0) + (seq![RETURN_OP] + namestring(path@));
        proof {
            assert(self.bytes() =~= old(self).bytes() + head + seq![0u8, 0u8, 0u8] + rest);
        }
        self.end_block(Ghost(old(self).bytes()), Ghost(head), Ghost(rest));
        proof {
            assert(self.open_blocks() =~= old(self).open_blocks());
        }
        Ok(())
    }
}

/// The `_LPI` state packages of `s`, in order.
pub open spec fn lpi_entries(s: Seq<AcpiLpiState<'_>>) -> Seq<u8>
    decreases s.len(),
{
    if s.len() == 0 {
        Seq::empty()
    } else {
        lpi_entries(s.drop_last()) + lpi_entry(s.last())
    }
}

proof fn lemma_lpi_entries_prefix(s: Seq<AcpiLpiState<'_>>, i: int)
    requires
        0 <= i < s.len(),
    ensures
        lpi_entries(s.subrange(0, i)).len() + lpi_entry(s[i]).len() <= lpi_entries(s).len(),
    decreases s.len() - i,
{
    if i + 1 < s.len() {
        lemma_lpi_entries_prefix(s, i + 1);
        assert(s.subrange(0, i + 2).drop_last() =~= s.subrange(0, i + 1));
    }
    assert(s.subrange(0, i + 1).drop_last() =~= s.subrange(0, i));
    assert(s.subrange(0, s.len() as int) =~= s);
}

impl AcpiGen {
    fn write_lpi_registers(&mut self, state: &AcpiLpiState) -> (r: Result<(), Error>)
        requires
            old(self).wf(),
            old(self).depth() + 1 < ACPIGEN_LENSTACK_SIZE,
        ensures
            final(self).appended(old(self), lpi_registers(*state), r),
    {
        proof {
            reveal(lpi_registers);
        }
        self.write_register_resource(&state.entry_method)?;
        self.write_register_resource(&state.residency_counter_register)?;
        self.write_register_resource(&state.usage_counter_register)?;
        proof {
            assert(self.bytes() =~= old(self).bytes() + (resource_template(
                register_descriptor(state.entry_method),
            ) + resource_template(register_descriptor(state.residency_counter_register))
                + resource_template(register_descriptor(state.usage_counter_register))));
        }
        Ok(())
    }

    fn write_lpi_dwords(&mut self, state: &AcpiLpiState) -> (r: Result<(), Error>)
        requires
            old(self).wf(),
        ensures
            final(self).appended(old(self), lpi_dwords(*state), r),
    {
        proof {
            reveal(lpi_dwords);
        }
        self.write_dword(state.min_residency_us)?;
        self.write_dword(state.worst_case_wakeup_latency_us)?;
        self.write_dword(state.flags)?;
        self.write_dword(state.arch_context_lost_flags)?;
        self.write_dword(state.residency_counter_frequency_hz)?;
        self.write_dword(state.enabled_parent_state)?;
        proof {
            assert(self.bytes() =~= old(self).bytes() + (dword_term(state.min_residency_us)
                + dword_term(state.worst_case_wakeup_latency_us) + dword_term(state.flags)
                + dword_term(state.arch_context_lost_flags) + dword_term(
                state.residency_counter_frequency_hz,
            ) + dword_term(state.enabled_parent_state)));
        }
        Ok(())
    }

    /// One `_LPI` state package.
    fn write_lpi_entry(&mut self, state: &AcpiLpiState) -> (r: Result<(), Error>)
        requires
            old(self).wf(),
            old(self).depth() + 2 < ACPIGEN_LENSTACK_SIZE,
        ensures
            final(self).appended(old(self), lpi_entry(*state), r),
    {
        self.write_package(0xa)?;
        self.write_lpi_dwords(state)?;
        self.write_lpi_registers(state)?;
        self.write_string(state.state_name)?;
        let ghost head = seq![PACKAGE_OP];
        let ghost rest = seq![10u8] + (lpi_dwords(*state) + lpi_registers(*state) + string_term(
            state.state_name.spec_bytes(),
        ));
        proof {
            assert(self.bytes() =~= old(self).bytes() + head + seq![0u8, 0u8, 0u8] + rest);
        }
        self.end_block(Ghost(old(self).bytes()), Ghost(head), Ghost(rest));
        proof {
            assert(self.open_blocks() =~= old(self).open_blocks());
        }
        Ok(())
    }

    fn write_lpi_entries(&mut self, list: &[AcpiLpiState]) -> (r: Result<(), Error>)
        requires
            old(self).wf(),
            old(self).depth() + 2 < ACPIGEN_LENSTACK_SIZE,
        ensures
            final(self).appended(old(self), lpi_entries(list@), r),
    {
        let mut i: usize = 0;
        proof {
            assert(list@.subrange(0, 0) =~= Seq::<AcpiLpiState>::empty());
            assert(self.bytes() =~= old(self).bytes() + lpi_entries(list@.subrange(0, 0)));
        }
        while i < list.len()
            invariant
                self.wf(),
                i <= list@.len(),
                self.depth() == old(self).depth(),
                self.depth() + 2 < ACPIGEN_LENSTACK_SIZE,
                self.open_blocks() == old(self).open_blocks(),
                self.bytes() == old(self).bytes() + lpi_entries(list@.subrange(0, i as int)),
            decreases list@.len() - i,
        {
            let res = self.write_lpi_entry(&list[i]);
            if res.is_err() {
                proof {
                    lemma_lpi_entries_prefix(list@, i as int);
                }
                return res;
            }
            proof {
                assert(list@.subrange(0, i + 1).drop_last() =~= list@.subrange(0, i as int));
                assert(self.bytes() =~= old(self).bytes() + lpi_entries(list@.subrange(0, i + 1)));
            }
            i = i + 1;
        }
        proof {
            assert(list@.subrange(0, i as int) =~= list@);
            self.lemma_wf_bounds();
        }
        Ok(())
    }

    fn write_lpi_body(&mut self, level: u64, states: &[AcpiLpiState]) -> (r: Result<(), Error>)
        requires
            old(self).wf(),
            old(self).depth() + 2 < ACPIGEN_LENSTACK_SIZE,
            states@.len() <= 252,
        ensures
            final(self).appended(
                old(self),
                word_term(0) + (seq![QWORD_PREFIX] + le64(level as int)) + word_term(
                    states@.len() as int,
                ) + lpi_entries(states@),
                r,
            ),
    {
        self.write_word(0)?;
        self.write_qword(level)?;
        self.write_word(states.len() as u32)?;
        self.write_lpi_entries(states)?;
        proof {
            assert(self.bytes() =~= old(self).bytes() + (word_term(0) + (seq![QWORD_PREFIX] + le64(
                level as int,
            )) + word_term(states@.len() as int) + lpi_entries(states@)));
        }
        Ok(())
    }

    /// `Name (_LPI, Package () { revision 0, level, count, states })`: low
    /// power idle states.
    pub fn write_lpi_package(&mut self, level: u64, states: &[AcpiLpiState]) -> (r: Result<(), Error>)
        requires
            old(self).wf(),
            old(self).depth() + 3 < ACPIGEN_LENSTACK_SIZE,
            states@.len() <= 252,
        ensures
            final(self).appended(
                old(self),
                name_package(
                    seq![0x5fu8, 0x4c, 0x50, 0x49],
                    (3 + states@.len()) as u8,
                    word_term(0) + (seq![QWORD_PREFIX] + le64(level as int)) + word_term(
                        states@.len() as int,
                    ) + lpi_entries(states@),
                ),
                r,
            ),
    {
        let name: [u8; 4] = [0x5f, 0x4c, 0x50, 0x49];
        proof {
            assert(name@ =~= seq![0x5fu8, 0x4c, 0x50, 0x49]);
        }
        let n = 3 + states.len() as u8;
        self.open_fixed_package(&name, n)?;
        self.write_lpi_body(level, states)?;
        let ghost body = word_term(0) + (seq![QWORD_PREFIX] + le64(level as int)) + word_term(
            states@.len() as int,
        ) + lpi_entries(states@);
        proof {
            assert(self.bytes() =~= old(self).bytes() + (name_head(name@) + seq![PACKAGE_OP]) + seq![
                0u8,
                0u8,
                0u8,
            ] + seq![n] + body);
        }
        self.close_fixed_package(Ghost(old(self).bytes()), Ghost(name@), Ghost(n), Ghost(body));
        proof {
            assert(self.open_blocks() =~= old(self).open_blocks());
        }
        Ok(())
    }
}

} // verus!
