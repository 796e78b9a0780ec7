//! Board information handed to the kernel (after U-Boot's `bd_info`).

use vstd::prelude::*;

verus! {

pub const NR_DRAM_BANKS: usize = 1;

/// One bank of RAM: where it starts and how large it is.
#[derive(Clone, Copy, Debug, PartialEq, Eq, Structural)]
pub struct BoardInfoDram {
    start: u64,
    size: usize,
}

impl BoardInfoDram {
    pub closed spec fn spec_start(&self) -> u64 {
        self.start
    }

    pub closed spec fn spec_size(&self) -> usize {
        self.size
    }

    /// An empty bank at address 0.
    pub fn new() -> (r: Self)
        ensures
            r.spec_start() == 0,
            r.spec_size() == 0,
    {
        Self { start: 0, size: 0 }
    }

    pub fn start(&self) -> (r: u64)
        ensures
            r == self.spec_start(),
    {
        self.start
    }

    pub fn size(&self) -> (r: usize)
        ensures
            r == self.spec_size(),
    {
        self.size
    }
}

/// Board information passed to the Linux kernel.
pub struct BoardInfo {
    /// start of FLASH memory
    pub flashstart: u32,
    /// size of FLASH memory
    pub flashsize: u32,
    /// reserved area for startup monitor
    pub flashoffset: u32,
    /// start of SRAM memory
    pub sramstart: u32,
    /// size of SRAM memory
    pub sramsize: u32,
    /// boot / reboot flag (Unused)
    pub bootflags: u32,
    /// IP Address
    pub ip_addr: u32,
    /// Ethernet speed in Mbps
    pub ethspeed: u16,
    /// Internal Freq, in MHz
    pub intfreq: u32,
    /// Bus Freq, in MHz
    pub busfreq: u32,
    /// unique id for this board
    pub arch_number: u32,
    /// where this board expects params
    pub boot_params: u32,
    /// RAM configuration
    pub dram: [BoardInfoDram; NR_DRAM_BANKS],
}

impl BoardInfo {
    /// All fields zero and every RAM bank empty.
    pub fn new() -> (r: Self)
        ensures
            r.flashstart == 0 && r.flashsize == 0 && r.flashoffset == 0,
            r.sramstart == 0 && r.sramsize == 0 && r.bootflags == 0 && r.ip_addr == 0,
            r.ethspeed == 0 && r.intfreq == 0 && r.busfreq == 0,
            r.arch_number == 0 && r.boot_params == 0,
            forall|i: int|
                0 <= i < NR_DRAM_BANKS ==> (#[trigger] r.dram@[i]).spec_start() == 0
                    && r.dram@[i].spec_size() == 0,
    {
        let r = Self {
            flashstart: 0,
            flashsize: 0,
            flashoffset: 0,
            sramstart: 0,
            sramsize: 0,
            bootflags: 0,
            ip_addr: 0,
            ethspeed: 0,
            intfreq: 0,
            busfreq: 0,
            arch_number: 0,
            boot_params: 0,
            dram: [BoardInfoDram::new()],
        };
        r
    }
}

} // verus!
