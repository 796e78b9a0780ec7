//! The mainboard's reserved memory and I/O ranges as a resource template.

use vstd::prelude::*;
use vstd::string::StringSliceAdditionalSpecFns;
use crate::acpigen::{AcpiGen, Error, ACPIGEN_LENSTACK_SIZE, SCOPE_OP};
use crate::aml::namestring;
use crate::namestring::name_err;
use crate::ops::first_err;
use crate::resources::{io16_descriptor, lemma_template, mem32fixed_descriptor, resource_template};
use crate::values::name_head;

verus! {

/// A reserved range: its base address and size.
#[derive(Debug, Clone, Copy, PartialEq, Eq, Structural)]
pub struct Resource {
    pub base: u64,
    pub size: u64,
}

/// I/O Port Descriptors covering `size` ports from `base`, at most 255 each.
pub open spec fn io_chunks(base: int, size: int) -> Seq<u8>
    decreases size,
{
    if size <= 0 {
        Seq::empty()
    } else {
        let sz = if size > 255 {
            255
        } else {
            size
        };
        io16_descriptor(base as u16, base as u16, 0, sz as u8, 1) + io_chunks(base + sz, size - sz)
    }
}

/// Descriptors for the reserved memory ranges of `res`, in order.
pub open spec fn mem_ranges(res: Seq<Resource>) -> Seq<u8>
    decreases res.len(),
{
    if res.len() == 0 {
        Seq::empty()
    } else {
        mem_ranges(res.drop_last()) + mem32fixed_descriptor(
            0,
            res.last().base as u32,
            res.last().size as u32,
        )
    }
}

/// Descriptors for the reserved I/O ranges of `res`, in order.
pub open spec fn io_ranges(res: Seq<Resource>) -> Seq<u8>
    decreases res.len(),
{
    if res.len() == 0 {
        Seq::empty()
    } else {
        io_ranges(res.drop_last()) + io_chunks(res.last().base as int, res.last().size as int)
    }
}

/// Whether no range of `res` runs past the end of the address space.
pub open spec fn ranges_fit(res: Seq<Resource>) -> bool {
    forall|i: int| 0 <= i < res.len() ==> (#[trigger] res[i]).base + res[i].size <= u64::MAX
}

proof fn lemma_ranges_grow(res: Seq<Resource>, i: int)
    requires
        0 <= i < res.len(),
    ensures
        mem_ranges(res.subrange(0, i)).len() + mem32fixed_descriptor(
            0,
            res[i].base as u32,
            res[i].size as u32,
        ).len() <= mem_ranges(res).len(),
        io_ranges(res.subrange(0, i)).len() + io_chunks(res[i].base as int, res[i].size as int).len()
            <= io_ranges(res).len(),
    decreases res.len() - i,
{
    if i + 1 < res.len() {
        lemma_ranges_grow(res, i + 1);
        assert(res.subrange(0, i + 2).drop_last() =~= res.subrange(0, i + 1));
    }
    assert(res.subrange(0, i + 1).drop_last() =~= res.subrange(0, i));
    assert(res.subrange(0, res.len() as int) =~= res);
}

impl AcpiGen {
    /// A fixed memory range descriptor for a reserved memory range.
    pub fn add_mainboard_rsvd_mem32(&mut self, res: &Resource) -> (r: Result<(), Error>)
        requires
            old(self).wf(),
        ensures
            final(self).appended(
                old(self),
                mem32fixed_descriptor(0, res.base as u32, res.size as u32),
                r,
            ),
    {
        self.write_mem32fixed(0, res.base as u32, res.size as u32)
    }

    /// I/O port descriptors for a reserved I/O range, 255 ports at most each.
    pub fn add_mainboard_rsvd_io(&mut self, res: &Resource) -> (r: Result<(), Error>)
        requires
            old(self).wf(),
            res.base + res.size <= u64::MAX,
        ensures
            final(self).appended(old(self), io_chunks(res.base as int, res.size as int), r),
    {
        let mut base = res.base;
        let mut size = res.size;
        let ghost mut done: Seq<u8> = Seq::empty();
        while size > 0
            invariant
                self.wf(),
                base + size <= u64::MAX,
                self.open_blocks() == old(self).open_blocks(),
                self.bytes() == old(self).bytes() + done,
                done + io_chunks(base as int, size as int) == io_chunks(res.base as int, res.size as int),
            decreases size,
        {
            let sz: u64 = if size > 255 {
                255
            } else {
                size
            };
            let ghost piece = io16_descriptor(base as u16, base as u16, 0, sz as u8, 1);
            let res_w = self.write_io16(base as u16, base as u16, 0, sz as u8, 1);
            if res_w.is_err() {
                proof {
                    assert(io_chunks(base as int, size as int) == piece + io_chunks(
                        base + sz,
                        size - sz,
                    ));
                }
                return res_w;
            }
            proof {
                assert(io_chunks(base as int, size as int) == piece + io_chunks(base + sz, size - sz));
                assert(done + piece + io_chunks(base + sz, size - sz) =~= done + (piece + io_chunks(
                    base + sz,
                    size - sz,
                )));
                done = done + piece;
            }
            size = size - sz;
            base = base + sz;
        }
        proof {
            assert(done =~= done + io_chunks(base as int, size as int));
            self.lemma_wf_bounds();
        }
        Ok(())
    }

    fn write_rsvd_mem_ranges(&mut self, mem: &[Resource]) -> (r: Result<(), Error>)
        requires
            old(self).wf(),
        ensures
            final(self).appended(old(self), mem_ranges(mem@), r),
    {
        let mut i: usize = 0;
        proof {
            assert(mem@.subrange(0, 0) =~= Seq::<Resource>::empty());
            assert(self.bytes() =~= old(self).bytes() + mem_ranges(mem@.subrange(0, 0)));
        }
        while i < mem.len()
            invariant
                self.wf(),
                i <= mem@.len(),
                self.open_blocks() == old(self).open_blocks(),
                self.bytes() == old(self).bytes() + mem_ranges(mem@.subrange(0, i as int)),
            decreases mem@.len() - i,
        {
            let res = self.add_mainboard_rsvd_mem32(&mem[i]);
            if res.is_err() {
                proof {
                    lemma_ranges_grow(mem@, i as int);
                }
                return res;
            }
            proof {
                assert(mem@.subrange(0, i + 1).drop_last() =~= mem@.subrange(0, i as int));
                assert(self.bytes() =~= old(self).bytes() + mem_ranges(mem@.subrange(0, i + 1)));
            }
            i = i + 1;
        }
        proof {
            assert(mem@.subrange(0, i as int) =~= mem@);
            self.lemma_wf_bounds();
        }
        Ok(())
    }

    fn write_rsvd_io_ranges(&mut self, io: &[Resource]) -> (r: Result<(), Error>)
        requires
            old(self).wf(),
            ranges_fit(io@),
        ensures
            final(self).appended(old(self), io_ranges(io@), r),
    {
        let mut i: usize = 0;
        proof {
            assert(io@.subrange(0, 0) =~= Seq::<Resource>::empty());
            assert(self.bytes() =~= old(self).bytes() + io_ranges(io@.subrange(0, 0)));
        }
        while i < io.len()
            invariant
                self.wf(),
                i <= io@.len(),
                ranges_fit(io@),
                self.open_blocks() == old(self).open_blocks(),
                self.bytes() == old(self).bytes() + io_ranges(io@.subrange(0, i as int)),
            decreases io@.len() - i,
        {
            proof {
                assert(io@[i as int].base + io@[i as int].size <= u64::MAX);
            }
            let res = self.add_mainboard_rsvd_io(&io[i]);
            if res.is_err() {
                proof {
                    lemma_ranges_grow(io@, i as int);
                }
                return res;
            }
            proof {
                assert(io@.subrange(0, i + 1).drop_last() =~= io@.subrange(0, i as int));
                assert(self.bytes() =~= old(self).bytes() + io_ranges(io@.subrange(0, i + 1)));
            }
            i = i + 1;
        }
        proof {
            assert(io@.subrange(0, i as int) =~= io@);
            self.lemma_wf_bounds();
        }
        Ok(())
    }

    /// A resource template listing the reserved memory ranges `mem`, then the
    /// reserved I/O ranges `io`.
    pub fn write_mainboard_resource_template(&mut self, mem: &[Resource], io: &[Resource]) -> (r:
        Result<(), Error>)
        requires
            old(self).wf(),
            old(self).depth() + 1 < ACPIGEN_LENSTACK_SIZE,
            ranges_fit(io@),
        ensures
            final(self).appended(old(self), resource_template(mem_ranges(mem@) + io_ranges(io@)), r),
    {
        self.write_resourcetemplate_header()?;
        self.write_rsvd_mem_ranges(mem)?;
        self.write_rsvd_io_ranges(io)?;
        proof {
            assert(self.bytes() =~= old(self).bytes() + seq![
                crate::acpigen::BUFFER_OP,
                0u8,
                0u8,
                0u8,
                crate::acpigen::WORD_PREFIX,
                0u8,
                0u8,
            ] + (mem_ranges(mem@) + io_ranges(io@)));
        }
        self.write_resourcetemplate_footer()?;
        proof {
            lemma_template(old(self).bytes(), mem_ranges(mem@) + io_ranges(io@));
            assert(self.open_blocks() =~= old(self).open_blocks());
        }
        Ok(())
    }

    /// `Scope (scope) { Name (name, ResourceTemplate () { ... }) }` for the
    /// reserved ranges.
    pub fn write_mainboard_resources(&mut self, scope: &str, name: &str, mem: &[Resource], io: &[
        Resource
    ]) -> (r: Result<(), Error>)
        requires
            old(self).wf(),
            old(self).depth() + 2 < ACPIGEN_LENSTACK_SIZE,
            ranges_fit(io@),
        ensures
            final(self).emitted(
                old(self),
                crate::aml::aml_block(
                    seq![SCOPE_OP],
                    namestring(scope.spec_bytes()) + name_head(name.spec_bytes()) + resource_template(
                        mem_ranges(mem@) + io_ranges(io@),
                    ),
                ),
                first_err(name_err(scope.spec_bytes()), name_err(name.spec_bytes())),
                r,
            ),
    {
        crate::namestring::check_namestring(scope.as_bytes())?;
        crate::namestring::check_namestring(name.as_bytes())?;
        self.write_scope(scope)?;
        self.write_name(name)?;
        self.write_mainboard_resource_template(mem, io)?;
        let ghost head = seq![SCOPE_OP];
        let ghost rest = namestring(scope.spec_bytes()) + name_head(name.spec_bytes())
            + resource_template(mem_ranges(mem@) + io_ranges(io@));
        proof {
            assert(self.bytes() =~= old(self).bytes() + head + seq![0u8, 0u8, 0u8] + rest);
        }
        self.end_block(Ghost(old(self).bytes()), Ghost(head), Ghost(rest));
        proof {
            assert(self.open_blocks() =~= old(self).open_blocks());
        }
        Ok(())
    }
}

} // verus!
