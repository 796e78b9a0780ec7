//! Descriptions of device GPIOs and interrupts.

use vstd::prelude::*;

verus! {

pub const ACPI_GPIO_REVISION_ID: usize = 1;
pub const ACPI_GPIO_MAX_PINS: usize = 8;

#[derive(Debug, Clone, Copy, PartialEq, Eq, Structural)]
pub enum GpioType {
    Interrupt,
    Io,
}

#[derive(Debug, Clone, Copy, PartialEq, Eq, Structural)]
pub enum GpioPull {
    PullDefault,
    Up,
    Down,
    PullNone,
}

#[derive(Debug, Clone, Copy, PartialEq, Eq, Structural)]
pub enum IoRestrict {
    RestrictNone,
    Input,
    Output,
    Preserve,
}

#[derive(Debug, Clone, Copy, PartialEq, Eq, Structural)]
pub enum IrqMode {
    EdgeTriggered,
    LevelTriggered,
}

#[derive(Debug, Clone, Copy, PartialEq, Eq, Structural)]
pub enum IrqPolarity {
    ActiveLow,
    ActiveHigh,
    ActiveBoth,
}

#[derive(Debug, Clone, Copy, PartialEq, Eq, Structural)]
pub enum IrqShared {
    Exclusive,
    Shared,
}

#[derive(Debug, Clone, Copy, PartialEq, Eq, Structural)]
pub enum IrqWake {
    NoWake,
    Wake,
}

#[derive(Debug, Clone, Copy)]
pub struct Irq {
    pub pin: u32,
    pub mode: IrqMode,
    pub polarity: IrqPolarity,
    pub shared: IrqShared,
    pub wake: IrqWake,
}

pub struct Gpio<'a> {
    pub pin_count: i32,
    pub pins: [u16; 8],
    pub gpio_type: GpioType,
    pub pull: GpioPull,
    pub resource: &'a str,
    /* GpioInt */
    pub interrupt_debounce_timeout: u16, /* 1/100 ms */
    pub irq: Irq,
    /* GpioIo */
    pub output_drive_strength: u16, /* 1/100 mA */
    pub io_shared: i32,
    pub io_restrict: IoRestrict,
    /// Whether the line is active low; only the `_DSD` property carries it,
    /// GpioIo itself has no polarity.
    pub active_low: bool,
}

} // verus!
