//! Firmware support library. Its core is an assembler for ACPI Machine
//! Language (AML): it emits the byte stream of DSDT/SSDT tables, with
//! verified encodings of package lengths, name paths and integers, and
//! generators for the standard device, power-management, resource, `_DSM`
//! and `_ROM` objects. Beside it stand the plain data layouts of the Chrome
//! EC host protocol and a few board descriptions.

pub mod acpi;
pub mod acpi_device;
pub mod acpigen;
pub mod aml;
pub mod blocks;
pub mod board_info;
pub mod bootstate;
pub mod cb_err;
pub mod chromeec;
pub mod cpu_tables;
pub mod dsm;
pub mod fdt;
pub mod fields;
pub mod gpio;
pub mod hex;
pub mod ids;
pub mod jmp;
pub mod laws;
pub mod mainboard;
pub mod methods;
pub mod namestring;
pub mod ops;
pub mod pld;
pub mod processor;
pub mod resources;
pub mod rockchip;
pub mod rom;
pub mod tables;
pub mod types;
pub mod values;
