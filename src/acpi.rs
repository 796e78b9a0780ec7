//! Plain descriptions of processor power states and registers that the
//! table writers turn into AML.

use vstd::prelude::*;

verus! {

/// Vendor prefix of coreboot's own ACPI device IDs.
pub const COREBOOT_ACPI_ID: &'static str = "BOOT";

/// Device IDs under the coreboot vendor prefix.
#[derive(Debug, Clone, Copy, PartialEq, Eq, Structural)]
pub enum CorebootAcpiIds {
    /// BOOT0000
    CbTable,
    /// BOOTFFFF
    Max,
}

impl CorebootAcpiIds {
    pub open spec fn spec_id(&self) -> u16 {
        match self {
            CorebootAcpiIds::CbTable => 0x0000,
            CorebootAcpiIds::Max => 0xffff,
        }
    }

    /// The four-hex-digit number that follows the vendor prefix.
    #[verifier::when_used_as_spec(spec_id)]
    pub fn id(&self) -> (r: u16)
        ensures
            r == self.spec_id(),
    {
        match self {
            CorebootAcpiIds::CbTable => 0x0000,
            CorebootAcpiIds::Max => 0xffff,
        }
    }
}

/// A processor performance state (`_PSS` entry).
#[derive(Debug, Clone, Copy)]
pub struct AcpiSwPstate {
    pub core_freq: u32,
    pub power: u32,
    pub transition_latency: u32,
    pub bus_master_latency: u32,
    pub control_value: u32,
    pub status_value: u32,
}

/// A generic register address (ACPI Generic Address Structure).
#[derive(Debug, Clone, Copy)]
pub struct AcpiAddr {
    /// Address space ID
    pub space_id: u8,
    /// Register size in bits
    pub bit_width: u8,
    /// Register bit offset
    pub bit_offset: u8,
    /// Access size since ACPI 2.0c
    pub access_size: u8,
    /// Register address, low 32 bits
    pub addrl: u32,
    /// Register address, high 32 bits
    pub addrh: u32,
}

/// Low Power Idle State
pub struct AcpiLpiState<'a> {
    pub min_residency_us: u32,
    pub worst_case_wakeup_latency_us: u32,
    pub flags: u32,
    pub arch_context_lost_flags: u32,
    pub residency_counter_frequency_hz: u32,
    pub enabled_parent_state: u32,
    pub entry_method: AcpiAddr,
    pub residency_counter_register: AcpiAddr,
    pub usage_counter_register: AcpiAddr,
    pub state_name: &'a str,
}

/// A processor idle state (`_CST` entry).
#[derive(Debug, Clone, Copy)]
pub struct AcpiCstate {
    pub ctype: u8,
    pub latency: u16,
    pub power: u32,
    pub resource: AcpiAddr,
}

/// A processor throttling state (`_TSS` entry).
#[derive(Debug, Clone, Copy)]
pub struct AcpiTstate {
    pub percent: u32,
    pub power: u32,
    pub latency: u32,
    pub control: u32,
    pub status: u32,
}

/// USB port connector types for `_UPC`.
#[derive(Debug, Clone, Copy, PartialEq, Eq, Structural)]
pub enum UpcType {
    A,
    MiniAb,
    ExpressCard,
    Usb3A,
    Usb3B,
    Usb3MicroB,
    Usb3MicroAb,
    Usb3PowerB,
    CUsb2Only,
    CUsb2SsSwitch,
    CUsb2Ss,
    Proprietary,
    // The following types are not directly defined in the ACPI
    // spec but are used by coreboot to identify a USB device type.
    Internal,
    Unused,
    Hub,
}

impl UpcType {
    pub open spec fn spec_code(&self) -> u32 {
        match self {
            UpcType::A => 0x00,
            UpcType::MiniAb => 0x01,
            UpcType::ExpressCard => 0x02,
            UpcType::Usb3A => 0x03,
            UpcType::Usb3B => 0x04,
            UpcType::Usb3MicroB => 0x05,
            UpcType::Usb3MicroAb => 0x06,
            UpcType::Usb3PowerB => 0x07,
            UpcType::CUsb2Only => 0x08,
            UpcType::CUsb2SsSwitch => 0x09,
            UpcType::CUsb2Ss => 0x0a,
            UpcType::Proprietary => 0xff,
            UpcType::Internal => 0x100,
            UpcType::Unused => 0x101,
            UpcType::Hub => 0x102,
        }
    }

    /// The numeric connector type.
    #[verifier::when_used_as_spec(spec_code)]
    pub fn code(&self) -> (r: u32)
        ensures
            r == self.spec_code(),
    {
        match self {
            UpcType::A => 0x00,
            UpcType::MiniAb => 0x01,
            UpcType::ExpressCard => 0x02,
            UpcType::Usb3A => 0x03,
            UpcType::Usb3B => 0x04,
            UpcType::Usb3MicroB => 0x05,
            UpcType::Usb3MicroAb => 0x06,
            UpcType::Usb3PowerB => 0x07,
            UpcType::CUsb2Only => 0x08,
            UpcType::CUsb2SsSwitch => 0x09,
            UpcType::CUsb2Ss => 0x0a,
            UpcType::Proprietary => 0xff,
            UpcType::Internal => 0x100,
            UpcType::Unused => 0x101,
            UpcType::Hub => 0x102,
        }
    }
}

/// A performance state with 64-bit values and control/status masks
/// (`XPSS` entry).
#[derive(Debug, Clone, Copy)]
pub struct XpssSwPstate {
    pub core_freq: u64,
    pub power: u64,
    pub transition_latency: u64,
    pub bus_master_latency: u64,
    pub control_value: u64,
    pub status_value: u64,
    pub control_mask: u64,
    pub status_mask: u64,
}

} // verus!
