//! The register save area of a non-local jump buffer.

use vstd::prelude::*;

verus! {

/// The callee-saved registers and stack pointer kept by a jump buffer.
#[derive(Clone, Copy)]
pub struct JmpBufData {
    regs: [u64; 13],
}

impl View for JmpBufData {
    type V = Seq<u64>;

    closed spec fn view(&self) -> Seq<u64> {
        self.regs@
    }
}

impl JmpBufData {
    /// All registers zero.
    pub fn new() -> (r: Self)
        ensures
            r@ == Seq::new(13, |_i: int| 0u64),
    {
        let r = Self { regs: [0u64; 13] };
        assert(r.regs@ =~= Seq::new(13, |_i: int| 0u64));
        r
    }

    /// The saved registers.
    pub fn regs(&self) -> (r: &[u64])
        ensures
            r@ == self@,
    {
        self.regs.as_slice()
    }
}

/// A jump buffer: one register save area.
#[derive(Clone, Copy)]
pub struct JmpBuf([JmpBufData; 1]);

impl View for JmpBuf {
    type V = Seq<JmpBufData>;

    closed spec fn view(&self) -> Seq<JmpBufData> {
        self.0@
    }
}

impl JmpBuf {
    /// One save area with all registers zero.
    pub fn new() -> (r: Self)
        ensures
            r@.len() == 1,
            r@[0]@ == Seq::new(13, |_i: int| 0u64),
    {
        JmpBuf([JmpBufData::new()])
    }

    /// The save areas.
    pub fn data(&self) -> (r: &[JmpBufData])
        ensures
            r@ == self@,
    {
        self.0.as_slice()
    }
}

} // verus!
