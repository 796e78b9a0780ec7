//! Standard methods and power-management tables: `_STA`, `_PPC`, `_TPC`,
//! `_PRW`, `_UPC`, `_PLD`, `_PSS`, `_PSD`, `_CST`, `_CSD`, `_TSS`, `_TSD`.

use vstd::prelude::*;
use vstd::string::StringSliceAdditionalSpecFns;
use crate::acpi::{AcpiCstate, AcpiSwPstate, AcpiTstate, UpcType};
use crate::acpigen::{
    AcpiGen, Error, ACPIGEN_LENSTACK_SIZE, BYTE_PREFIX, METHOD_OP, PACKAGE_OP, RETURN_OP, ZERO_OP,
};
use crate::aml::{aml_block, integer_encoding, le32, namestring};
use crate::blocks::{method_block, method_rest, package_block};
use crate::namestring::{lemma_short_name_ok, name_err};
use crate::pld::Pld;
use crate::values::{byte_buffer, name_head};

verus! {

/// `Name (name, Package (n) { body })`.
pub open spec fn name_package(name: Seq<u8>, n: u8, body: Seq<u8>) -> Seq<u8> {
    name_head(name) + package_block(n, body)
}

/// A double word as an AML term.
pub open spec fn dword_term(v: u32) -> Seq<u8> {
    seq![crate::acpigen::DWORD_PREFIX] + le32(v as int)
}

/// A byte as an AML term.
pub open spec fn byte_term(v: int) -> Seq<u8> {
    seq![BYTE_PREFIX, (v % 0x100) as u8]
}

impl AcpiGen {
    /// `Method (name, 0) { Return (<one-byte-prefixed term>) }` for a fixed
    /// four-byte name and a body of plain bytes.
    fn write_fixed_method(&mut self, name: &[u8; 4], body: &[u8]) -> (r: Result<(), Error>)
        requires
            old(self).wf(),
            old(self).depth() < ACPIGEN_LENSTACK_SIZE,
        ensures
            final(self).appended(old(self), method_block(name@, 0, body@), r),
    {
        proof {
            lemma_short_name_ok(name@);
        }
        self.write_method_bytes(name, 0)?;
        self.emit_bytes(body)?;
        let ghost head = seq![METHOD_OP];
        let ghost rest = method_rest(name@, 0) + body@;
        proof {
            assert(self.bytes() =~= old(self).bytes() + head + seq![0u8, 0u8, 0u8] + rest);
        }
        self.end_block(Ghost(old(self).bytes()), Ghost(head), Ghost(rest));
        proof {
            assert(self.open_blocks() =~= old(self).open_blocks());
        }
        Ok(())
    }

    /// `Method (_STA) { Return (status) }`.
    pub fn write_sta(&mut self, status: u8) -> (r: Result<(), Error>)
        requires
            old(self).wf(),
            old(self).depth() < ACPIGEN_LENSTACK_SIZE,
        ensures
            final(self).appended(
                old(self),
                method_block(seq![0x5fu8, 0x53, 0x54, 0x41], 0, seq![RETURN_OP, BYTE_PREFIX, status]),
                r,
            ),
    {
        let name: [u8; 4] = [0x5f, 0x53, 0x54, 0x41];
        let body = [RETURN_OP, BYTE_PREFIX, status];
        proof {
            assert(name@ =~= seq![0x5fu8, 0x53, 0x54, 0x41]);
            assert(body@ =~= seq![RETURN_OP, BYTE_PREFIX, status]);
        }
        self.write_fixed_method(&name, &body)
    }
}

/// Coordination type of a `_PSD` or `_TSD` dependency.
#[derive(Debug, Clone, Copy, PartialEq, Eq, Structural)]
pub enum PsdCoord {
    SwAll,
    SwAny,
    HwAll,
}

impl PsdCoord {
    pub open spec fn spec_value(&self) -> u32 {
        match self {
            PsdCoord::SwAll => 0xfc,
            PsdCoord::SwAny => 0xfd,
            PsdCoord::HwAll => 0xfe,
        }
    }

    #[verifier::when_used_as_spec(spec_value)]
    pub fn value(&self) -> (r: u32)
        ensures
            r == self.spec_value(),
    {
        match self {
            PsdCoord::SwAll => 0xfc,
            PsdCoord::SwAny => 0xfd,
            PsdCoord::HwAll => 0xfe,
        }
    }
}

/// Coordination type of a `_CSD` dependency.
#[derive(Debug, Clone, Copy, PartialEq, Eq, Structural)]
pub enum CsdCoord {
    HwAll,
}

impl CsdCoord {
    pub open spec fn spec_value(&self) -> u32 {
        0xfe
    }

    #[verifier::when_used_as_spec(spec_value)]
    pub fn value(&self) -> (r: u32)
        ensures
            r == self.spec_value(),
    {
        0xfe
    }
}

/// One `_PSS` entry: a package of six double words.
pub open spec fn pss_package(p: AcpiSwPstate) -> Seq<u8> {
    package_block(
        6,
        dword_term(p.core_freq) + dword_term(p.power) + dword_term(p.transition_latency) + dword_term(
            p.bus_master_latency,
        ) + dword_term(p.control_value) + dword_term(p.status_value),
    )
}

/// The `_PSS` entries of `s`, in order.
pub open spec fn pss_entries(s: Seq<AcpiSwPstate>) -> Seq<u8>
    decreases s.len(),
{
    if s.len() == 0 {
        Seq::empty()
    } else {
        pss_entries(s.drop_last()) + pss_package(s.last())
    }
}

/// One `_TSS` entry: a package of five double words.
pub open spec fn tss_package(t: AcpiTstate) -> Seq<u8> {
    package_block(
        5,
        dword_term(t.percent) + dword_term(t.power) + dword_term(t.latency) + dword_term(t.control)
            + dword_term(t.status),
    )
}

/// The `_TSS` entries of `s`, in order.
pub open spec fn tss_entries(s: Seq<AcpiTstate>) -> Seq<u8>
    decreases s.len(),
{
    if s.len() == 0 {
        Seq::empty()
    } else {
        tss_entries(s.drop_last()) + tss_package(s.last())
    }
}

/// The body of a `_PSD`/`_TSD` dependency package.
pub open spec fn dependency_body(domain: u32, coord: u32, numprocs: u32) -> Seq<u8> {
    byte_term(5) + byte_term(0) + dword_term(domain) + dword_term(coord) + dword_term(numprocs)
}

impl AcpiGen {
    /// Opens `Name (name, Package (n) {` for a fixed four-byte name.
    fn open_name_package(&mut self, name: &[u8; 4], n: u8) -> (r: Result<(), Error>)
        requires
            old(self).wf(),
            old(self).depth() < ACPIGEN_LENSTACK_SIZE,
        ensures
            final(self).opened(old(self), name_head(name@) + seq![PACKAGE_OP], seq![n], None, r),
    {
        proof {
            lemma_short_name_ok(name@);
        }
        self.write_name_bytes(name)?;
        self.write_package(n)?;
        proof {
            assert(self.bytes() =~= old(self).bytes() + (name_head(name@) + seq![PACKAGE_OP]) + seq![
                0u8,
                0u8,
                0u8,
            ] + seq![n]);
        }
        Ok(())
    }

    /// Closes a package opened by `open_name_package` once `body` follows.
    fn close_name_package(
        &mut self,
        Ghost(before): Ghost<Seq<u8>>,
        Ghost(name): Ghost<Seq<u8>>,
        Ghost(n): Ghost<u8>,
        Ghost(body): Ghost<Seq<u8>>,
    )
        requires
            old(self).wf(),
            old(self).depth() > 0,
            old(self).bytes() == before + (name_head(name) + seq![PACKAGE_OP]) + seq![0u8, 0u8, 0u8]
                + seq![n] + body,
            old(self).top() == before.len() + name_head(name).len() + 1,
        ensures
            final(self).wf(),
            final(self).bytes() == before + name_package(name, n, body),
            final(self).open_blocks() == old(self).open_blocks().drop_last(),
            final(self).depth() < ACPIGEN_LENSTACK_SIZE,
    {
        let ghost b = before + name_head(name);
        proof {
            assert(old(self).bytes() =~= b + seq![PACKAGE_OP] + seq![0u8, 0u8, 0u8] + (seq![n] + body));
        }
        let ghost head = seq![PACKAGE_OP];
        let ghost rest = seq![n] + body;
        self.end_block(Ghost(b), Ghost(head), Ghost(rest));
        proof {
            assert(self.bytes() =~= before + name_package(name, n, body));
        }
    }

    fn write_return_method(&mut self, name: &[u8; 4], arg: &[u8]) -> (r: Result<(), Error>)
        requires
            old(self).wf(),
            old(self).depth() < ACPIGEN_LENSTACK_SIZE,
        ensures
            final(self).emitted(
                old(self),
                method_block(name@, 0, seq![RETURN_OP] + namestring(arg@)),
                name_err(arg@),
                r,
            ),
    {
        proof {
            lemma_short_name_ok(name@);
        }
        crate::namestring::check_namestring(arg)?;
        self.write_method_bytes(name, 0)?;
        self.write_return_namestr_bytes(arg)?;
        let ghost head = seq![METHOD_OP];
        let ghost rest = method_rest(name@, 0) + (seq![RETURN_OP] + namestring(arg@));
        proof {
            assert(self.bytes() =~= old(self).bytes() + head + seq![0u8, 0u8, 0u8] + rest);
        }
        self.end_block(Ghost(old(self).bytes()), Ghost(head), Ghost(rest));
        proof {
            assert(self.open_blocks() =~= old(self).open_blocks());
        }
        Ok(())
    }

    /// `Method (_STA) { Return (namestring) }`.
    pub fn write_sta_ext(&mut self, namestring: &str) -> (r: Result<(), Error>)
        requires
            old(self).wf(),
            old(self).depth() < ACPIGEN_LENSTACK_SIZE,
        ensures
            final(self).emitted(
                old(self),
                method_block(
                    seq![0x5fu8, 0x53, 0x54, 0x41],
                    0,
                    seq![RETURN_OP] + crate::aml::namestring(namestring.spec_bytes()),
                ),
                name_err(namestring.spec_bytes()),
                r,
            ),
    {
        let name: [u8; 4] = [0x5f, 0x53, 0x54, 0x41];
        proof {
            assert(name@ =~= seq![0x5fu8, 0x53, 0x54, 0x41]);
        }
        self.write_return_method(&name, namestring.as_bytes())
    }

    /// `Method (_PPC) { Return (nr) }`: the highest performance state the OS
    /// may use.
    pub fn write_ppc(&mut self, nr: u8) -> (r: Result<(), Error>)
        requires
            old(self).wf(),
            old(self).depth() < ACPIGEN_LENSTACK_SIZE,
        ensures
            final(self).appended(
                old(self),
                method_block(seq![0x5fu8, 0x50, 0x50, 0x43], 0, seq![RETURN_OP, BYTE_PREFIX, nr]),
                r,
            ),
    {
        let name: [u8; 4] = [0x5f, 0x50, 0x50, 0x43];
        let body = [RETURN_OP, BYTE_PREFIX, nr];
        proof {
            assert(name@ =~= seq![0x5fu8, 0x50, 0x50, 0x43]);
            assert(body@ =~= seq![RETURN_OP, BYTE_PREFIX, nr]);
        }
        self.write_fixed_method(&name, &body)
    }

    /// `Method (_PPC) { Return (PPCM) }`: the limit is read from `PPCM`.
    pub fn write_ppc_nvs(&mut self) -> (r: Result<(), Error>)
        requires
            old(self).wf(),
            old(self).depth() < ACPIGEN_LENSTACK_SIZE,
        ensures
            final(self).appended(
                old(self),
                method_block(
                    seq![0x5fu8, 0x50, 0x50, 0x43],
                    0,
                    seq![RETURN_OP] + namestring(seq![0x50u8, 0x50, 0x43, 0x4d]),
                ),
                r,
            ),
    {
        let name: [u8; 4] = [0x5f, 0x50, 0x50, 0x43];
        let arg: [u8; 4] = [0x50, 0x50, 0x43, 0x4d];
        proof {
            assert(name@ =~= seq![0x5fu8, 0x50, 0x50, 0x43]);
            assert(arg@ =~= seq![0x50u8, 0x50, 0x43, 0x4d]);
            lemma_short_name_ok(arg@);
        }
        self.write_return_method(&name, &arg)
    }

    /// `Method (_TPC) { Return (gnvs_tpc_limit) }`.
    pub fn write_tpc(&mut self, gnvs_tpc_limit: &str) -> (r: Result<(), Error>)
        requires
            old(self).wf(),
            old(self).depth() < ACPIGEN_LENSTACK_SIZE,
        ensures
            final(self).emitted(
                old(self),
                method_block(
                    seq![0x5fu8, 0x54, 0x50, 0x43],
                    0,
                    seq![RETURN_OP] + namestring(gnvs_tpc_limit.spec_bytes()),
                ),
                name_err(gnvs_tpc_limit.spec_bytes()),
                r,
            ),
    {
        let name: [u8; 4] = [0x5f, 0x54, 0x50, 0x43];
        proof {
            assert(name@ =~= seq![0x5fu8, 0x54, 0x50, 0x43]);
        }
        self.write_return_method(&name, gnvs_tpc_limit.as_bytes())
    }

    /// `Name (_PRW, Package () { wake, level })`.
    pub fn write_prw(&mut self, wake: u32, level: u32) -> (r: Result<(), Error>)
        requires
            old(self).wf(),
            old(self).depth() < ACPIGEN_LENSTACK_SIZE,
        ensures
            final(self).appended(
                old(self),
                name_package(
                    seq![0x5fu8, 0x50, 0x52, 0x57],
                    2,
                    integer_encoding(wake as u64) + integer_encoding(level as u64),
                ),
                r,
            ),
    {
        let name: [u8; 4] = [0x5f, 0x50, 0x52, 0x57];
        proof {
            assert(name@ =~= seq![0x5fu8, 0x50, 0x52, 0x57]);
        }
        self.open_name_package(&name, 2)?;
        self.write_integer(wake as u64)?;
        self.write_integer(level as u64)?;
        let ghost body = integer_encoding(wake as u64) + integer_encoding(level as u64);
        proof {
            assert(self.bytes() =~= old(self).bytes() + (name_head(name@) + seq![PACKAGE_OP]) + seq![
                0u8,
                0u8,
                0u8,
            ] + seq![2u8] + body);
        }
        self.close_name_package(Ghost(old(self).bytes()), Ghost(name@), Ghost(2u8), Ghost(body));
        proof {
            assert(self.open_blocks() =~= old(self).open_blocks());
        }
        Ok(())
    }

    /// `Name (_UPC, Package () { connectable, type, 0, 0 })`.
    pub fn write_upc(&mut self, upc_type: UpcType) -> (r: Result<(), Error>)
        requires
            old(self).wf(),
            old(self).depth() < ACPIGEN_LENSTACK_SIZE,
        ensures
            final(self).appended(
                old(self),
                name_package(
                    seq![0x5fu8, 0x55, 0x50, 0x43],
                    4,
                    byte_term(if upc_type == UpcType::Unused { 0 } else { 0xff }) + byte_term(
                        upc_type.spec_code() as int,
                    ) + seq![ZERO_OP, ZERO_OP],
                ),
                r,
            ),
    {
        let name: [u8; 4] = [0x5f, 0x55, 0x50, 0x43];
        proof {
            assert(name@ =~= seq![0x5fu8, 0x55, 0x50, 0x43]);
        }
        self.open_name_package(&name, 4)?;
        let connectable: u32 = if upc_type == UpcType::Unused {
            0
        } else {
            0xff
        };
        self.write_byte(connectable)?;
        self.write_byte(upc_type.code())?;
        self.write_zero()?;
        self.write_zero()?;
        let ghost body = byte_term(connectable as int) + byte_term(upc_type.spec_code() as int) + seq![
            ZERO_OP,
            ZERO_OP,
        ];
        proof {
            assert(self.bytes() =~= old(self).bytes() + (name_head(name@) + seq![PACKAGE_OP]) + seq![
                0u8,
                0u8,
                0u8,
            ] + seq![4u8] + body);
        }
        self.close_name_package(Ghost(old(self).bytes()), Ghost(name@), Ghost(4u8), Ghost(body));
        proof {
            assert(self.open_blocks() =~= old(self).open_blocks());
        }
        Ok(())
    }

    /// `Name (_PLD, Package (1) { Buffer () { pld } })`.
    pub fn write_pld(&mut self, pld: &Pld) -> (r: Result<(), Error>)
        requires
            old(self).wf(),
            old(self).depth() + 1 < ACPIGEN_LENSTACK_SIZE,
        ensures
            final(self).appended(
                old(self),
                name_package(seq![0x5fu8, 0x50, 0x4c, 0x44], 1, byte_buffer(pld.spec_buffer())),
                r,
            ),
    {
        let buf = pld.to_buffer();
        let name: [u8; 4] = [0x5f, 0x50, 0x4c, 0x44];
        proof {
            assert(name@ =~= seq![0x5fu8, 0x50, 0x4c, 0x44]);
        }
        self.open_name_package(&name, 1)?;
        self.write_byte_buffer(&buf)?;
        let ghost body = byte_buffer(pld.spec_buffer());
        proof {
            assert(self.bytes() =~= old(self).bytes() + (name_head(name@) + seq![PACKAGE_OP]) + seq![
                0u8,
                0u8,
                0u8,
            ] + seq![1u8] + body);
        }
        self.close_name_package(Ghost(old(self).bytes()), Ghost(name@), Ghost(1u8), Ghost(body));
        proof {
            assert(self.open_blocks() =~= old(self).open_blocks());
        }
        Ok(())
    }

    /// One `_PSS` entry.
    pub fn write_pss_package(
        &mut self,
        core_freq: u32,
        power: u32,
        trans_lat: u32,
        busm_lat: u32,
        control: u32,
        status: u32,
    ) -> (r: Result<(), Error>)
        requires
            old(self).wf(),
            old(self).depth() < ACPIGEN_LENSTACK_SIZE,
        ensures
            final(self).appended(
                old(self),
                pss_package(
                    AcpiSwPstate {
                        core_freq,
                        power,
                        transition_latency: trans_lat,
                        bus_master_latency: busm_lat,
                        control_value: control,
                        status_value: status,
                    },
                ),
                r,
            ),
    {
        self.write_package(6)?;
        self.write_dword(core_freq)?;
        self.write_dword(power)?;
        self.write_dword(trans_lat)?;
        self.write_dword(busm_lat)?;
        self.write_dword(control)?;
        self.write_dword(status)?;
        let ghost body = dword_term(core_freq) + dword_term(power) + dword_term(trans_lat)
            + dword_term(busm_lat) + dword_term(control) + dword_term(status);
        proof {
            assert(self.bytes() =~= old(self).bytes() + seq![PACKAGE_OP] + seq![0u8, 0u8, 0u8] + (seq![
                6u8,
            ] + body));
        }
        let ghost head = seq![PACKAGE_OP];
        let ghost rest = seq![6u8] + body;
        self.end_block(Ghost(old(self).bytes()), Ghost(head), Ghost(rest));
        proof {
            assert(self.open_blocks() =~= old(self).open_blocks());
        }
        Ok(())
    }

    /// `Name (_PSS, Package () { entries })`.
    pub fn write_pss_object(&mut self, pstate_values: &[AcpiSwPstate]) -> (r: Result<(), Error>)
        requires
            old(self).wf(),
            old(self).depth() + 1 < ACPIGEN_LENSTACK_SIZE,
        ensures
            final(self).appended(
                old(self),
                name_package(
                    seq![0x5fu8, 0x50, 0x53, 0x53],
                    pstate_values@.len() as u8,
                    pss_entries(pstate_values@),
                ),
                r,
            ),
    {
        let name: [u8; 4] = [0x5f, 0x50, 0x53, 0x53];
        proof {
            assert(name@ =~= seq![0x5fu8, 0x50, 0x53, 0x53]);
        }
        let n = pstate_values.len() as u8;
        self.open_name_package(&name, n)?;
        self.write_pss_entries(pstate_values)?;
        let ghost body = pss_entries(pstate_values@);
        proof {
            assert(self.bytes() =~= old(self).bytes() + (name_head(name@) + seq![PACKAGE_OP]) + seq![
                0u8,
                0u8,
                0u8,
            ] + seq![n] + body);
        }
        self.close_name_package(Ghost(old(self).bytes()), Ghost(name@), Ghost(n), Ghost(body));
        proof {
            assert(self.open_blocks() =~= old(self).open_blocks());
        }
        Ok(())
    }

    fn write_pss_entries(&mut self, pstate_values: &[AcpiSwPstate]) -> (r: Result<(), Error>)
        requires
            old(self).wf(),
            old(self).depth() < ACPIGEN_LENSTACK_SIZE,
        ensures
            final(self).appended(old(self), pss_entries(pstate_values@), r),
    {
        let mut i: usize = 0;
        proof {
            assert(pstate_values@.subrange(0, 0) =~= Seq::<AcpiSwPstate>::empty());
            assert(self.bytes() =~= old(self).bytes() + pss_entries(pstate_values@.subrange(0, 0)));
        }
        while i < pstate_values.len()
            invariant
                self.wf(),
                i <= pstate_values@.len(),
                self.depth() < ACPIGEN_LENSTACK_SIZE,
                self.open_blocks() == old(self).open_blocks(),
                self.bytes() == old(self).bytes() + pss_entries(pstate_values@.subrange(0, i as int)),
            decreases pstate_values@.len() - i,
        {
            let p = &pstate_values[i];
            let res = self.write_pss_package(
                p.core_freq,
                p.power,
                p.transition_latency,
                p.bus_master_latency,
                p.control_value,
                p.status_value,
            );
            if res.is_err() {
                proof {
                    lemma_entries_prefix_pss(pstate_values@, i as int);
                }
                return res;
            }
            proof {
                assert(pstate_values@.subrange(0, i + 1).drop_last() =~= pstate_values@.subrange(
                    0,
                    i as int,
                ));
                assert(self.bytes() =~= old(self).bytes() + pss_entries(pstate_values@.subrange(0, i + 1)));
            }
            i = i + 1;
        }
        proof {
            assert(pstate_values@.subrange(0, i as int) =~= pstate_values@);
            self.lemma_wf_bounds();
        }
        Ok(())
    }
}

/// The entries written so far are a prefix, no longer than all of them.
pub proof fn lemma_entries_prefix_pss(s: Seq<AcpiSwPstate>, i: int)
    requires
        0 <= i < s.len(),
    ensures
        pss_entries(s.subrange(0, i)).len() + pss_package(s[i]).len() <= pss_entries(s).len(),
    decreases s.len() - i,
{
    if i + 1 < s.len() {
        lemma_entries_prefix_pss(s, i + 1);
        assert(s.subrange(0, i + 2).drop_last() =~= s.subrange(0, i + 1));
    }
    assert(s.subrange(0, i + 1).drop_last() =~= s.subrange(0, i));
    assert(s.subrange(0, s.len() as int) =~= s);
}

impl AcpiGen {
    /// One `_TSS` entry.
    fn write_tss_entry(&mut self, t: &AcpiTstate) -> (r: Result<(), Error>)
        requires
            old(self).wf(),
            old(self).depth() < ACPIGEN_LENSTACK_SIZE,
        ensures
            final(self).appended(old(self), tss_package(*t), r),
    {
        self.write_package(5)?;
        self.write_dword(t.percent)?;
        self.write_dword(t.power)?;
        self.write_dword(t.latency)?;
        self.write_dword(t.control)?;
        self.write_dword(t.status)?;
        let ghost body = dword_term(t.percent) + dword_term(t.power) + dword_term(t.latency)
            + dword_term(t.control) + dword_term(t.status);
        let ghost head = seq![PACKAGE_OP];
        let ghost rest = seq![5u8] + body;
        proof {
            assert(self.bytes() =~= old(self).bytes() + head + seq![0u8, 0u8, 0u8] + rest);
        }
        self.end_block(Ghost(old(self).bytes()), Ghost(head), Ghost(rest));
        proof {
            assert(self.open_blocks() =~= old(self).open_blocks());
        }
        Ok(())
    }

    fn write_tss_entries(&mut self, list: &[AcpiTstate]) -> (r: Result<(), Error>)
        requires
            old(self).wf(),
            old(self).depth() < ACPIGEN_LENSTACK_SIZE,
        ensures
            final(self).appended(old(self), tss_entries(list@), r),
    {
        let mut i: usize = 0;
        proof {
            assert(list@.subrange(0, 0) =~= Seq::<AcpiTstate>::empty());
            assert(self.bytes() =~= old(self).bytes() + tss_entries(list@.subrange(0, 0)));
        }
        while i < list.len()
            invariant
                self.wf(),
                i <= list@.len(),
                self.depth() < ACPIGEN_LENSTACK_SIZE,
                self.open_blocks() == old(self).open_blocks(),
                self.bytes() == old(self).bytes() + tss_entries(list@.subrange(0, i as int)),
            decreases list@.len() - i,
        {
            let res = self.write_tss_entry(&list[i]);
            if res.is_err() {
                proof {
                    lemma_entries_prefix_tss(list@, i as int);
                }
                return res;
            }
            proof {
                assert(list@.subrange(0, i + 1).drop_last() =~= list@.subrange(0, i as int));
                assert(self.bytes() =~= old(self).bytes() + tss_entries(list@.subrange(0, i + 1)));
            }
            i = i + 1;
        }
        proof {
            assert(list@.subrange(0, i as int) =~= list@);
            self.lemma_wf_bounds();
        }
        Ok(())
    }

    /// `Name (_TSS, Package () { entries })`: throttling states.
    pub fn write_tss_package(&mut self, tstate_list: &[AcpiTstate]) -> (r: Result<(), Error>)
        requires
            old(self).wf(),
            old(self).depth() + 1 < ACPIGEN_LENSTACK_SIZE,
        ensures
            final(self).appended(
                old(self),
                name_package(
                    seq![0x5fu8, 0x54, 0x53, 0x53],
                    tstate_list@.len() as u8,
                    tss_entries(tstate_list@),
                ),
                r,
            ),
    {
        let name: [u8; 4] = [0x5f, 0x54, 0x53, 0x53];
        proof {
            assert(name@ =~= seq![0x5fu8, 0x54, 0x53, 0x53]);
        }
        let n = tstate_list.len() as u8;
        self.open_name_package(&name, n)?;
        self.write_tss_entries(tstate_list)?;
        let ghost body = tss_entries(tstate_list@);
        proof {
            assert(self.bytes() =~= old(self).bytes() + (name_head(name@) + seq![PACKAGE_OP]) + seq![
                0u8,
                0u8,
                0u8,
            ] + seq![n] + body);
        }
        self.close_name_package(Ghost(old(self).bytes()), Ghost(name@), Ghost(n), Ghost(body));
        proof {
            assert(self.open_blocks() =~= old(self).open_blocks());
        }
        Ok(())
    }

    /// `Name (name, Package (1) { Package (n) { body } })` where `body` is
    /// written by `write_dependency_body`.
    fn write_dependency(
        &mut self,
        name: &[u8; 4],
        n: u8,
        first: u64,
        domain: u32,
        coord: u32,
        numprocs: u32,
    ) -> (r: Result<(), Error>)
        requires
            old(self).wf(),
            old(self).depth() + 1 < ACPIGEN_LENSTACK_SIZE,
        ensures
            final(self).appended(
                old(self),
                name_package(
                    name@,
                    1,
                    package_block(
                        n,
                        integer_encoding(first) + byte_term(0) + dword_term(domain) + dword_term(coord)
                            + dword_term(numprocs),
                    ),
                ),
                r,
            ),
    {
        self.open_name_package(name, 1)?;
        let ghost mid = self.bytes();
        self.write_package(n)?;
        self.write_integer(first)?;
        self.write_byte(0)?;
        self.write_dword(domain)?;
        self.write_dword(coord)?;
        self.write_dword(numprocs)?;
        let ghost inner = integer_encoding(first) + byte_term(0) + dword_term(domain) + dword_term(
            coord,
        ) + dword_term(numprocs);
        let ghost head = seq![PACKAGE_OP];
        let ghost rest = seq![n] + inner;
        proof {
            assert(self.bytes() =~= mid + head + seq![0u8, 0u8, 0u8] + rest);
        }
        self.end_block(Ghost(mid), Ghost(head), Ghost(rest));
        let ghost body = package_block(n, inner);
        proof {
            assert(self.bytes() =~= old(self).bytes() + (name_head(name@) + seq![PACKAGE_OP]) + seq![
                0u8,
                0u8,
                0u8,
            ] + seq![1u8] + body);
        }
        self.close_name_package(Ghost(old(self).bytes()), Ghost(name@), Ghost(1u8), Ghost(body));
        proof {
            assert(self.open_blocks() =~= old(self).open_blocks());
        }
        Ok(())
    }

    /// `Name (_PSD, Package () { Package () { 5, 0, domain, coordtype, numprocs } })`.
    pub fn write_psd_package(&mut self, domain: u32, numprocs: u32, coordtype: PsdCoord) -> (r:
        Result<(), Error>)
        requires
            old(self).wf(),
            old(self).depth() + 1 < ACPIGEN_LENSTACK_SIZE,
        ensures
            final(self).appended(
                old(self),
                name_package(
                    seq![0x5fu8, 0x50, 0x53, 0x44],
                    1,
                    package_block(5, dependency_body(domain, coordtype.spec_value(), numprocs)),
                ),
                r,
            ),
    {
        let name: [u8; 4] = [0x5f, 0x50, 0x53, 0x44];
        proof {
            assert(name@ =~= seq![0x5fu8, 0x50, 0x53, 0x44]);
            assert(integer_encoding(5) == byte_term(5));
        }
        self.write_byte_dependency(&name, domain, numprocs, coordtype.value())
    }

    /// `Name (_TSD, Package () { Package () { 5, 0, domain, coordtype, numprocs } })`.
    pub fn write_tsd_package(&mut self, domain: u32, numprocs: u32, coordtype: PsdCoord) -> (r:
        Result<(), Error>)
        requires
            old(self).wf(),
            old(self).depth() + 1 < ACPIGEN_LENSTACK_SIZE,
        ensures
            final(self).appended(
                old(self),
                name_package(
                    seq![0x5fu8, 0x54, 0x53, 0x44],
                    1,
                    package_block(5, dependency_body(domain, coordtype.spec_value(), numprocs)),
                ),
                r,
            ),
    {
        let name: [u8; 4] = [0x5f, 0x54, 0x53, 0x44];
        proof {
            assert(name@ =~= seq![0x5fu8, 0x54, 0x53, 0x44]);
        }
        self.write_byte_dependency(&name, domain, numprocs, coordtype.value())
    }

    fn write_byte_dependency(&mut self, name: &[u8; 4], domain: u32, numprocs: u32, coord: u32) -> (r:
        Result<(), Error>)
        requires
            old(self).wf(),
            old(self).depth() + 1 < ACPIGEN_LENSTACK_SIZE,
        ensures
            final(self).appended(
                old(self),
                name_package(name@, 1, package_block(5, dependency_body(domain, coord, numprocs))),
                r,
            ),
    {
        proof {
            assert(integer_encoding(5) =~= byte_term(5));
            assert(dependency_body(domain, coord, numprocs) =~= integer_encoding(5) + byte_term(0)
                + dword_term(domain) + dword_term(coord) + dword_term(numprocs));
        }
        self.write_dependency(name, 5, 5, domain, coord, numprocs)
    }

    /// `Name (_CSD, Package () { Package () { 6, 0, domain, coordtype, numprocs, index } })`.
    pub fn write_csd_package(&mut self, domain: u32, numprocs: u32, coordtype: CsdCoord, index: u32) -> (r:
        Result<(), Error>)
        requires
            old(self).wf(),
            old(self).depth() + 1 < ACPIGEN_LENSTACK_SIZE,
        ensures
            final(self).appended(
                old(self),
                name_package(
                    seq![0x5fu8, 0x43, 0x53, 0x44],
                    1,
                    package_block(
                        6,
                        integer_encoding(6) + byte_term(0) + dword_term(domain) + dword_term(
                            coordtype.spec_value(),
                        ) + dword_term(numprocs) + dword_term(index),
                    ),
                ),
                r,
            ),
    {
        let name: [u8; 4] = [0x5f, 0x43, 0x53, 0x44];
        proof {
            assert(name@ =~= seq![0x5fu8, 0x43, 0x53, 0x44]);
            lemma_short_name_ok(name@);
        }
        self.open_name_package(&name, 1)?;
        let ghost mid = self.bytes();
        self.write_package(6)?;
        self.write_integer(6)?;
        self.write_byte(0)?;
        self.write_dword(domain)?;
        self.write_dword(coordtype.value())?;
        self.write_dword(numprocs)?;
        self.write_dword(index)?;
        let ghost inner = integer_encoding(6) + byte_term(0) + dword_term(domain) + dword_term(
            coordtype.spec_value(),
        ) + dword_term(numprocs) + dword_term(index);
        let ghost head = seq![PACKAGE_OP];
        let ghost rest = seq![6u8] + inner;
        proof {
            assert(self.bytes() =~= mid + head + seq![0u8, 0u8, 0u8] + rest);
        }
        self.end_block(Ghost(mid), Ghost(head), Ghost(rest));
        let ghost body = package_block(6, inner);
        proof {
            assert(self.bytes() =~= old(self).bytes() + (name_head(name@) + seq![PACKAGE_OP]) + seq![
                0u8,
                0u8,
                0u8,
            ] + seq![1u8] + body);
        }
        self.close_name_package(Ghost(old(self).bytes()), Ghost(name@), Ghost(1u8), Ghost(body));
        proof {
            assert(self.open_blocks() =~= old(self).open_blocks());
        }
        Ok(())
    }
}

/// The entries written so far are a prefix, no longer than all of them.
pub proof fn lemma_entries_prefix_tss(s: Seq<AcpiTstate>, i: int)
    requires
        0 <= i < s.len(),
    ensures
        tss_entries(s.subrange(0, i)).len() + tss_package(s[i]).len() <= tss_entries(s).len(),
    decreases s.len() - i,
{
    if i + 1 < s.len() {
        lemma_entries_prefix_tss(s, i + 1);
        assert(s.subrange(0, i + 2).drop_last() =~= s.subrange(0, i + 1));
    }
    assert(s.subrange(0, i + 1).drop_last() =~= s.subrange(0, i));
    assert(s.subrange(0, s.len() as int) =~= s);
}

} // verus!
