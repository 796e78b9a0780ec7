//! The states of the boot state machine and when callbacks run in them.

use vstd::prelude::*;

verus! {

/// The boot process, in order: device tree work (`PreDevice` to
/// `PostDevice`), the OS resume check (and resume), writing tables, and
/// loading and booting the payload.
#[derive(Debug, Clone, Copy, PartialEq, Eq, Structural)]
pub enum BootState {
    PreDevice,
    DevInitChips,
    DevEnumerate,
    DevResources,
    DevEnable,
    DevInit,
    PostDevice,
    OSResumeCheck,
    OSResume,
    WriteTables,
    PayloadLoad,
    PayloadBoot,
}

/// Whether a callback runs on entry to a state or on exit from it.
#[derive(Debug, Clone, Copy, PartialEq, Eq, Structural)]
pub enum BootStateSequence {
    OnEntry,
    OnExit,
}

} // verus!
