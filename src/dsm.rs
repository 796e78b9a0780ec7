//! The `_DSM` method: dispatch on a UUID, then on a function index, to AML
//! bodies supplied by the caller.

use vstd::prelude::*;
use vstd::string::StringSliceAdditionalSpecFns;
use crate::acpigen::{
    AcpiGen, Error, ACPIGEN_LENSTACK_SIZE, ARG0_OP, ARG2_OP, IF_OP, LEQUAL_OP, LOCAL0_OP, LOCAL1_OP,
    METHOD_OP, RETURN_OP, TO_BUFFER_OP, TO_INTEGER_OP, UUID_LEN,
};
use crate::aml::{aml_block, integer_encoding};
use crate::blocks::{method_block, method_rest};
use crate::hex::{hex_digits, hexstrtobin};
use crate::ids::{uuid_buffer, uuid_err};
use crate::namestring::lemma_short_name_ok;
use crate::values::byte_buffer;

verus! {

/// One UUID of a `_DSM` method. `callbacks[i]`, when present, is the AML
/// that handles function index `i`: the body a handler would emit, given as
/// bytes because AML is position independent. `count` is the number of
/// function indices the method dispatches on; the supported-functions
/// bitmap lists every handler of `callbacks`.
pub struct DsmUuid<'a> {
    pub uuid: &'a str,
    pub callbacks: Vec<Option<Vec<u8>>>,
    pub count: usize,
}

impl<'a> DsmUuid<'a> {
    pub fn create(uuid: &'a str, callbacks: Vec<Option<Vec<u8>>>, count: usize) -> (r: Self)
        ensures
            r.uuid == uuid,
            r.callbacks == callbacks,
            r.count == count,
    {
        DsmUuid { uuid, callbacks, count }
    }

    /// Whether function `i` has a handler.
    pub open spec fn present(&self, i: int) -> bool {
        0 <= i < self.callbacks@.len() && self.callbacks@[i] is Some
    }

    /// Whether any function has a handler.
    pub open spec fn any_present(&self, n: int) -> bool
        decreases n,
    {
        if n <= 0 {
            false
        } else {
            self.any_present(n - 1) || self.present(n - 1)
        }
    }

    /// The bits `0..j` of byte `k` of the supported-functions bitmap, one
    /// per function with a handler.
    pub open spec fn bitmap_bits(&self, k: int, j: int) -> int
        decreases j,
    {
        if j <= 0 {
            0
        } else {
            self.bitmap_bits(k, j - 1) + if self.present(8 * k + j - 1) {
                two_pow(j - 1)
            } else {
                0
            }
        }
    }

    /// Byte `k` of the supported-functions bitmap; bit 0 is also set when
    /// any function has a handler.
    pub open spec fn bitmap_byte(&self, k: int) -> u8 {
        let b = self.bitmap_bits(k, 8);
        if k == 0 && self.any_present(self.callbacks@.len() as int) && b % 2 == 0 {
            (b + 1) as u8
        } else {
            b as u8
        }
    }

    /// The supported-functions bitmap: one bit per entry of `callbacks`.
    pub open spec fn bitmap(&self) -> Seq<u8> {
        Seq::new(
            (self.callbacks@.len() as int / 8 + if self.callbacks@.len() % 8 != 0 {
                1int
            } else {
                0
            }) as nat,
            |k: int| self.bitmap_byte(k),
        )
    }

    /// The AML run when function `i` is asked for.
    pub open spec fn handler(&self, i: int) -> Seq<u8> {
        if self.present(i) {
            self.callbacks@[i]->0@
        } else {
            Seq::empty()
        }
    }

    /// The body for function index 0: its handler, else the bitmap of
    /// supported functions.
    pub open spec fn function_zero(&self) -> Seq<u8> {
        if self.callbacks@.len() > 0 && self.callbacks@[0] is Some {
            self.callbacks@[0]->0@
        } else if self.count != 0 {
            seq![RETURN_OP] + byte_buffer(self.bitmap())
        } else {
            Seq::empty()
        }
    }

    /// `If (LEqual (Local1, i)) { handler }` for `1 <= i < n`.
    pub open spec fn dispatch(&self, n: int) -> Seq<u8>
        decreases n,
    {
        if n <= 1 {
            Seq::empty()
        } else {
            self.dispatch(n - 1) + if_block(
                seq![LEQUAL_OP, LOCAL1_OP] + integer_encoding((n - 1) as u64) + self.handler(n - 1),
            )
        }
    }

    /// `If (LEqual (Local0, ToUUID (uuid))) { ... }` for this UUID.
    pub open spec fn block(&self) -> Seq<u8> {
        if_block(
            seq![LEQUAL_OP, LOCAL0_OP] + uuid_buffer(self.uuid.spec_bytes()) + seq![
                TO_INTEGER_OP,
                ARG2_OP,
                LOCAL1_OP,
            ] + if_block(seq![LEQUAL_OP, LOCAL1_OP] + integer_encoding(0) + self.function_zero())
                + self.dispatch(self.count as int) + seq![RETURN_OP] + byte_buffer(seq![0u8]),
        )
    }
}

/// `2` to the power `j`.
pub open spec fn two_pow(j: int) -> int
    decreases j,
{
    if j <= 0 {
        1
    } else {
        2 * two_pow(j - 1)
    }
}

/// `If (...) { ... }` with `body` holding the predicate and the statements.
pub open spec fn if_block(body: Seq<u8>) -> Seq<u8> {
    aml_block(seq![IF_OP], body)
}

proof fn lemma_two_pow_small(j: int)
    requires
        0 <= j <= 8,
    ensures
        two_pow(j) <= 256,
        two_pow(8) == 256,
        1 <= two_pow(j),
        j < 8 ==> two_pow(j) <= 128,
    decreases j,
{
    reveal_with_fuel(two_pow, 9);
    if j > 0 {
        lemma_two_pow_small(j - 1);
    }
}

proof fn lemma_bits_bound(id: &DsmUuid, k: int, j: int)
    requires
        0 <= j,
    ensures
        0 <= id.bitmap_bits(k, j) < two_pow(j),
    decreases j,
{
    if j > 0 {
        lemma_bits_bound(id, k, j - 1);
    }
}

/// Whether a UUID string spells sixteen bytes.
fn check_uuid(uuid: &str) -> (r: Result<(), Error>)
    ensures
        r is Ok <==> uuid_err(uuid.spec_bytes()) is None,
        r is Err ==> r == Err::<(), Error>(Error::UUIDTooShort),
{
    let mut buf = [0u8; UUID_LEN];
    if hexstrtobin(uuid, &mut buf) < UUID_LEN {
        Err(Error::UUIDTooShort)
    } else {
        Ok(())
    }
}

impl AcpiGen {
    /// `Return (Buffer () { bitmap })` listing the functions that have a
    /// handler.
    pub fn dsm_uuid_enum_functions(&mut self, id: &DsmUuid) -> (r: Result<(), Error>)
        requires
            old(self).wf(),
            old(self).depth() < ACPIGEN_LENSTACK_SIZE,
        ensures
            final(self).appended(old(self), seq![RETURN_OP] + byte_buffer(id.bitmap()), r),
    {
        let count = id.callbacks.len();
        let nbytes: usize = count / 8 + if count % 8 != 0 {
            1
        } else {
            0
        };
        let mut buffer: Vec<u8> = Vec::new();
        let mut any = false;
        let mut k: usize = 0;
        while k < nbytes
            invariant
                k <= nbytes,
                nbytes == count / 8 + if count % 8 != 0 {
                    1usize
                } else {
                    0
                },
                count == id.callbacks@.len(),
                buffer@.len() == k,
                forall|m: int| 0 <= m < k ==> #[trigger] buffer@[m] == id.bitmap_bits(m, 8) as u8,
                any == id.any_present(if 8 * k < count { 8 * k as int } else { count as int }),
            decreases nbytes - k,
        {
            let mut b: u32 = 0;
            let mut bit: u32 = 1;
            let mut j: usize = 0;
            while j < 8
                invariant
                    j <= 8,
                    k < nbytes,
                    count == id.callbacks@.len(),
                    nbytes == count / 8 + if count % 8 != 0 {
                        1usize
                    } else {
                        0
                    },
                    bit == two_pow(j as int),
                    b == id.bitmap_bits(k as int, j as int),
                    any == id.any_present(
                        if 8 * k + j < count { 8 * k + j as int } else { count as int },
                    ),
                decreases 8 - j,
            {
                proof {
                    lemma_bits_bound(id, k as int, j as int);
                    lemma_two_pow_small(j as int);
                }
                let idx = 8 * k + j;
                if idx < count && id.callbacks[idx].is_some() {
                    b = b + bit;
                    any = true;
                }
                bit = bit * 2;
                j = j + 1;
            }
            proof {
                lemma_bits_bound(id, k as int, 8);
                lemma_two_pow_small(8);
            }
            buffer.push(b as u8);
            k = k + 1;
        }
        if any && buffer.len() > 0 && buffer[0] % 2 == 0 {
            let first = buffer[0] + 1;
            buffer.set(0, first);
        }
        proof {
            assert(8 * nbytes >= count);
            assert(any == id.any_present(count as int));
            lemma_bits_bound(id, 0, 8);
            lemma_two_pow_small(8);
            assert(buffer@ =~= id.bitmap());
        }
        self.write_return_byte_buffer(buffer.as_slice())
    }
}

/// The UUID blocks of `ids`, in order.
pub open spec fn dsm_blocks(ids: Seq<DsmUuid>) -> Seq<u8>
    decreases ids.len(),
{
    if ids.len() == 0 {
        Seq::empty()
    } else {
        dsm_blocks(ids.drop_last()) + ids.last().block()
    }
}

/// Whether every UUID of `ids` spells sixteen bytes.
pub open spec fn dsm_uuids_ok(ids: Seq<DsmUuid>) -> bool {
    forall|i: int| 0 <= i < ids.len() ==> uuid_err((#[trigger] ids[i]).uuid.spec_bytes()) is None
}

/// The whole `_DSM` method for `ids`.
pub open spec fn dsm_method(ids: Seq<DsmUuid>) -> Seq<u8> {
    method_block(
        seq![0x5fu8, 0x44, 0x53, 0x4d],
        0x0c,
        seq![TO_BUFFER_OP, ARG0_OP, LOCAL0_OP] + dsm_blocks(ids) + seq![RETURN_OP] + byte_buffer(
            seq![0u8],
        ),
    )
}

proof fn lemma_dispatch_grow(id: &DsmUuid, i: int, n: int)
    requires
        1 <= i < n,
    ensures
        id.dispatch(i).len() + if_block(
            seq![LEQUAL_OP, LOCAL1_OP] + integer_encoding(i as u64) + id.handler(i),
        ).len() <= id.dispatch(n).len(),
    decreases n - i,
{
    if i + 1 < n {
        lemma_dispatch_grow(id, i + 1, n);
    }
}

proof fn lemma_blocks_grow(ids: Seq<DsmUuid>, i: int)
    requires
        0 <= i < ids.len(),
    ensures
        dsm_blocks(ids.subrange(0, i)).len() + ids[i].block().len() <= dsm_blocks(ids).len(),
    decreases ids.len() - i,
{
    if i + 1 < ids.len() {
        lemma_blocks_grow(ids, i + 1);
        assert(ids.subrange(0, i + 2).drop_last() =~= ids.subrange(0, i + 1));
    }
    assert(ids.subrange(0, i + 1).drop_last() =~= ids.subrange(0, i));
    assert(ids.subrange(0, ids.len() as int) =~= ids);
}

impl AcpiGen {
    /// `If (LEqual (Local1, 0)) { function zero }`.
    fn write_dsm_zero(&mut self, id: &DsmUuid) -> (r: Result<(), Error>)
        requires
            old(self).wf(),
            old(self).depth() + 2 < ACPIGEN_LENSTACK_SIZE,
        ensures
            final(self).appended(
                old(self),
                if_block(seq![LEQUAL_OP, LOCAL1_OP] + integer_encoding(0) + id.function_zero()),
                r,
            ),
    {
        self.write_if_lequal_op_int(LOCAL1_OP, 0)?;
        if id.callbacks.len() > 0 && id.callbacks[0].is_some() {
            match &id.callbacks[0] {
                Some(body) => {
                    self.emit_bytes(body.as_slice())?;
                },
                None => {},
            }
        } else if id.count != 0 {
            self.dsm_uuid_enum_functions(id)?;
        }
        let ghost head = seq![IF_OP];
        let ghost rest = seq![LEQUAL_OP, LOCAL1_OP] + integer_encoding(0) + id.function_zero();
        proof {
            assert(self.bytes() =~= old(self).bytes() + head + seq![0u8, 0u8, 0u8] + rest);
        }
        self.end_block(Ghost(old(self).bytes()), Ghost(head), Ghost(rest));
        proof {
            assert(self.open_blocks() =~= old(self).open_blocks());
        }
        Ok(())
    }

    /// `If (LEqual (Local1, i)) { handler }` for one function index.
    fn write_dsm_case(&mut self, id: &DsmUuid, i: usize) -> (r: Result<(), Error>)
        requires
            old(self).wf(),
            old(self).depth() + 1 < ACPIGEN_LENSTACK_SIZE,
        ensures
            final(self).appended(
                old(self),
                if_block(seq![LEQUAL_OP, LOCAL1_OP] + integer_encoding(i as u64) + id.handler(i as int)),
                r,
            ),
    {
        self.write_if_lequal_op_int(LOCAL1_OP, i as u64)?;
        if i < id.callbacks.len() {
            match &id.callbacks[i] {
                Some(body) => {
                    self.emit_bytes(body.as_slice())?;
                },
                None => {},
            }
        }
        let ghost head = seq![IF_OP];
        let ghost rest = seq![LEQUAL_OP, LOCAL1_OP] + integer_encoding(i as u64) + id.handler(i as int);
        proof {
            assert(self.bytes() =~= old(self).bytes() + head + seq![0u8, 0u8, 0u8] + rest);
        }
        self.end_block(Ghost(old(self).bytes()), Ghost(head), Ghost(rest));
        proof {
            assert(self.open_blocks() =~= old(self).open_blocks());
        }
        Ok(())
    }

    fn write_dsm_dispatch(&mut self, id: &DsmUuid) -> (r: Result<(), Error>)
        requires
            old(self).wf(),
            old(self).depth() + 1 < ACPIGEN_LENSTACK_SIZE,
        ensures
            final(self).appended(old(self), id.dispatch(id.count as int), r),
    {
        let mut i: usize = 1;
        proof {
            assert(self.bytes() =~= old(self).bytes() + id.dispatch(1));
        }
        while i < id.count
            invariant
                self.wf(),
                1 <= i,
                i <= id.count || i == 1,
                self.depth() == old(self).depth(),
                self.depth() + 1 < ACPIGEN_LENSTACK_SIZE,
                self.open_blocks() == old(self).open_blocks(),
                self.bytes() == old(self).bytes() + id.dispatch(i as int),
            decreases id.count - i,
        {
            let res = self.write_dsm_case(id, i);
            if res.is_err() {
                proof {
                    lemma_dispatch_grow(id, i as int, id.count as int);
                }
                return res;
            }
            proof {
                assert(self.bytes() =~= old(self).bytes() + id.dispatch(i + 1));
            }
            i = i + 1;
        }
        proof {
            self.lemma_wf_bounds();
            if id.count <= 1 {
                assert(id.dispatch(id.count as int) =~= Seq::<u8>::empty());
            }
        }
        Ok(())
    }

    /// The statements of one UUID block, after its predicate.
    fn write_dsm_uuid_body(&mut self, id: &DsmUuid) -> (r: Result<(), Error>)
        requires
            old(self).wf(),
            old(self).depth() + 2 < ACPIGEN_LENSTACK_SIZE,
        ensures
            final(self).appended(
                old(self),
                seq![TO_INTEGER_OP, ARG2_OP, LOCAL1_OP] + if_block(
                    seq![LEQUAL_OP, LOCAL1_OP] + integer_encoding(0) + id.function_zero(),
                ) + id.dispatch(id.count as int) + seq![RETURN_OP] + byte_buffer(seq![0u8]),
                r,
            ),
    {
        self.write_to_integer(ARG2_OP, LOCAL1_OP)?;
        self.write_dsm_zero(id)?;
        self.write_dsm_dispatch(id)?;
        self.write_return_singleton_buffer(0)?;
        proof {
            assert(self.bytes() =~= old(self).bytes() + (seq![TO_INTEGER_OP, ARG2_OP, LOCAL1_OP]
                + if_block(seq![LEQUAL_OP, LOCAL1_OP] + integer_encoding(0) + id.function_zero())
                + id.dispatch(id.count as int) + seq![RETURN_OP] + byte_buffer(seq![0u8])));
        }
        Ok(())
    }

    /// `If (LEqual (Local0, ToUUID (uuid))) { ... }` for one UUID.
    pub fn write_dsm_uuid(&mut self, id: &DsmUuid) -> (r: Result<(), Error>)
        requires
            old(self).wf(),
            old(self).depth() + 3 < ACPIGEN_LENSTACK_SIZE,
        ensures
            final(self).emitted(old(self), id.block(), uuid_err(id.uuid.spec_bytes()), r),
    {
        check_uuid(id.uuid)?;
        self.write_if()?;
        self.emit_bytes(&[LEQUAL_OP, LOCAL0_OP])?;
        self.write_uuid(id.uuid)?;
        self.write_dsm_uuid_body(id)?;
        let ghost head = seq![IF_OP];
        let ghost rest = seq![LEQUAL_OP, LOCAL0_OP] + uuid_buffer(id.uuid.spec_bytes()) + (seq![
            TO_INTEGER_OP,
            ARG2_OP,
            LOCAL1_OP,
        ] + if_block(seq![LEQUAL_OP, LOCAL1_OP] + integer_encoding(0) + id.function_zero())
            + id.dispatch(id.count as int) + seq![RETURN_OP] + byte_buffer(seq![0u8]));
        proof {
            assert([LEQUAL_OP, LOCAL0_OP]@ =~= seq![LEQUAL_OP, LOCAL0_OP]);
            assert(self.bytes() =~= old(self).bytes() + head + seq![0u8, 0u8, 0u8] + rest);
        }
        self.end_block(Ghost(old(self).bytes()), Ghost(head), Ghost(rest));
        proof {
            assert(rest =~= seq![LEQUAL_OP, LOCAL0_OP] + uuid_buffer(id.uuid.spec_bytes()) + seq![
                TO_INTEGER_OP,
                ARG2_OP,
                LOCAL1_OP,
            ] + if_block(seq![LEQUAL_OP, LOCAL1_OP] + integer_encoding(0) + id.function_zero())
                + id.dispatch(id.count as int) + seq![RETURN_OP] + byte_buffer(seq![0u8]));
            assert(self.open_blocks() =~= old(self).open_blocks());
        }
        Ok(())
    }
}

/// Whether every UUID of `ids` spells sixteen bytes.
fn check_uuids(ids: &[DsmUuid]) -> (r: Result<(), Error>)
    ensures
        r is Ok <==> dsm_uuids_ok(ids@),
        r is Err ==> r == Err::<(), Error>(Error::UUIDTooShort),
{
    let mut k: usize = 0;
    while k < ids.len()
        invariant
            k <= ids@.len(),
            forall|j: int| 0 <= j < k ==> uuid_err((#[trigger] ids@[j]).uuid.spec_bytes()) is None,
        decreases ids@.len() - k,
    {
        let res = check_uuid(ids[k].uuid);
        if res.is_err() {
            proof {
                assert(uuid_err(ids@[k as int].uuid.spec_bytes()) is Some);
            }
            return res;
        }
        k = k + 1;
    }
    Ok(())
}

impl AcpiGen {
    fn write_dsm_blocks(&mut self, ids: &[DsmUuid]) -> (r: Result<(), Error>)
        requires
            old(self).wf(),
            old(self).depth() + 3 < ACPIGEN_LENSTACK_SIZE,
            dsm_uuids_ok(ids@),
        ensures
            final(self).appended(old(self), dsm_blocks(ids@), r),
    {
        let mut i: usize = 0;
        proof {
            assert(ids@.subrange(0, 0) =~= Seq::<DsmUuid>::empty());
            assert(self.bytes() =~= old(self).bytes() + dsm_blocks(ids@.subrange(0, 0)));
        }
        while i < ids.len()
            invariant
                self.wf(),
                i <= ids@.len(),
                dsm_uuids_ok(ids@),
                self.depth() == old(self).depth(),
                self.depth() + 3 < ACPIGEN_LENSTACK_SIZE,
                self.open_blocks() == old(self).open_blocks(),
                self.bytes() == old(self).bytes() + dsm_blocks(ids@.subrange(0, i as int)),
            decreases ids@.len() - i,
        {
            proof {
                assert(uuid_err(ids@[i as int].uuid.spec_bytes()) is None);
            }
            let res = self.write_dsm_uuid(&ids[i]);
            if res.is_err() {
                proof {
                    lemma_blocks_grow(ids@, i as int);
                }
                return res;
            }
            proof {
                assert(ids@.subrange(0, i + 1).drop_last() =~= ids@.subrange(0, i as int));
                assert(self.bytes() =~= old(self).bytes() + dsm_blocks(ids@.subrange(0, i + 1)));
            }
            i = i + 1;
        }
        proof {
            assert(ids@.subrange(0, i as int) =~= ids@);
            self.lemma_wf_bounds();
        }
        Ok(())
    }

    /// The serialized four-argument `_DSM` method: one block per UUID, then
    /// `Return (Buffer (One) { 0 })`. Fails with `UUIDTooShort` when a UUID
    /// does not spell sixteen bytes.
    pub fn write_dsm_uuid_arr(&mut self, ids: &[DsmUuid]) -> (r: Result<(), Error>)
        requires
            old(self).wf(),
            old(self).depth() + 4 < ACPIGEN_LENSTACK_SIZE,
        ensures
            final(self).emitted(
                old(self),
                dsm_method(ids@),
                if dsm_uuids_ok(ids@) {
                    None
                } else {
                    Some(Error::UUIDTooShort)
                },
                r,
            ),
    {
        check_uuids(ids)?;
        let name: [u8; 4] = [0x5f, 0x44, 0x53, 0x4d];
        proof {
            assert(name@ =~= seq![0x5fu8, 0x44, 0x53, 0x4d]);
            lemma_short_name_ok(name@);
        }
        self.write_method_bytes(&name, 0x0c)?;
        self.write_to_buffer(ARG0_OP, LOCAL0_OP)?;
        self.write_dsm_blocks(ids)?;
        self.write_return_singleton_buffer(0)?;
        let ghost head = seq![METHOD_OP];
        let ghost rest = method_rest(name@, 0x0c) + (seq![TO_BUFFER_OP, ARG0_OP, LOCAL0_OP] + dsm_blocks(
            ids@,
        ) + seq![RETURN_OP] + byte_buffer(seq![0u8]));
        proof {
            assert(self.bytes() =~= old(self).bytes() + head + seq![0u8, 0u8, 0u8] + rest);
        }
        self.end_block(Ghost(old(self).bytes()), Ghost(head), Ghost(rest));
        proof {
            assert(self.open_blocks() =~= old(self).open_blocks());
        }
        Ok(())
    }

    /// A `_DSM` method for a single UUID.
    pub fn write_dsm(&mut self, uuid: &str, callbacks: Vec<Option<Vec<u8>>>, count: usize) -> (r:
        Result<(), Error>)
        requires
            old(self).wf(),
            old(self).depth() + 4 < ACPIGEN_LENSTACK_SIZE,
        ensures
            final(self).emitted(
                old(self),
                dsm_method(seq![DsmUuid { uuid, callbacks, count }]),
                uuid_err(uuid.spec_bytes()),
                r,
            ),
    {
        let id = DsmUuid::create(uuid, callbacks, count);
        let ids = vec![id];
        proof {
            assert(ids@ =~= seq![DsmUuid { uuid, callbacks, count }]);
            assert(dsm_uuids_ok(ids@) <==> uuid_err(uuid.spec_bytes()) is None);
        }
        self.write_dsm_uuid_arr(ids.as_slice())
    }
}

} // verus!
