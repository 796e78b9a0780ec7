//! AML that reads and drives platform GPIOs through the SoC's ACPI methods
//! (`GRXS`, `GTXS`, `STXS`, `CTXS`). The SoC's pin count is passed in.

use vstd::prelude::*;
use vstd::string::StringSliceAdditionalSpecFns;
use crate::acpi_device::Gpio;
use crate::acpigen::{AcpiGen, Error, LOCAL0_OP, STORE_OP, XOR_OP};
use crate::aml::{integer_encoding, namestring};
use crate::namestring::{check_namestring, lemma_short_name_ok, name_err};

verus! {

/// `op (gpio_num)`: a call of the SoC method `op`.
pub open spec fn gpio_call(op: Seq<u8>, gpio_num: u32) -> Seq<u8> {
    namestring(op) + integer_encoding(gpio_num as u64)
}

/// `Store (op (gpio_num), Local0)`.
pub open spec fn gpio_state(op: Seq<u8>, gpio_num: u32) -> Seq<u8> {
    seq![STORE_OP] + gpio_call(op, gpio_num) + seq![LOCAL0_OP]
}

/// The error for a GPIO number: `InvalidGpioPins` unless it is below the
/// SoC's pin count, else the one for the method name.
pub open spec fn gpio_err(op: Seq<u8>, gpio_num: u32, total_pins: u32) -> Option<Error> {
    if gpio_num >= total_pins {
        Some(Error::InvalidGpioPins)
    } else {
        name_err(op)
    }
}

/// `\_SB.GRXS`, `\_SB.GTXS`, `\_SB.STXS` and `\_SB.CTXS`.
pub open spec fn sb_method(c: u8) -> Seq<u8> {
    seq![0x5cu8, 0x5f, 0x53, 0x42, 0x2e, c, 0x54, 0x58, 0x53]
}

/// `\_SB.GRXS`.
pub open spec fn grxs() -> Seq<u8> {
    seq![0x5cu8, 0x5f, 0x53, 0x42, 0x2e, 0x47, 0x52, 0x58, 0x53]
}

/// `Xor (Local0, 1, Local0)` when the line is active low.
pub open spec fn invert_if(active_low: bool) -> Seq<u8> {
    if active_low {
        seq![XOR_OP, LOCAL0_OP, 1u8, LOCAL0_OP]
    } else {
        Seq::empty()
    }
}

fn sb_method_bytes(c: u8) -> (r: [u8; 9])
    ensures
        r@ == sb_method(c),
        r@.len() == 9,
{
    let r = [0x5c, 0x5f, 0x53, 0x42, 0x2e, c, 0x54, 0x58, 0x53];
    assert(r@ =~= sb_method(c));
    r
}

impl AcpiGen {
    fn gpio_op_bytes(&mut self, op: &[u8], gpio_num: u32, total_pins: u32) -> (r: Result<(), Error>)
        requires
            old(self).wf(),
        ensures
            final(self).emitted(old(self), gpio_call(op@, gpio_num), gpio_err(op@, gpio_num, total_pins), r),
    {
        if gpio_num >= total_pins {
            return Err(Error::InvalidGpioPins);
        }
        check_namestring(op)?;
        self.emit_namestring_bytes(op)?;
        self.write_integer(gpio_num as u64)?;
        proof {
            assert(self.bytes() =~= old(self).bytes() + gpio_call(op@, gpio_num));
        }
        Ok(())
    }

    fn gpio_state_bytes(&mut self, op: &[u8], gpio_num: u32, total_pins: u32) -> (r: Result<(), Error>)
        requires
            old(self).wf(),
        ensures
            final(self).emitted(old(self), gpio_state(op@, gpio_num), gpio_err(op@, gpio_num, total_pins), r),
    {
        if gpio_num >= total_pins {
            return Err(Error::InvalidGpioPins);
        }
        check_namestring(op)?;
        self.write_store()?;
        self.gpio_op_bytes(op, gpio_num, total_pins)?;
        self.emit_byte(LOCAL0_OP)?;
        proof {
            assert(self.bytes() =~= old(self).bytes() + gpio_state(op@, gpio_num));
        }
        Ok(())
    }

    /// `op (gpio_num)`; fails with `InvalidGpioPins` unless `gpio_num` is
    /// below `total_pins`.
    pub fn soc_gpio_op(&mut self, op: &str, gpio_num: u32, total_pins: u32) -> (r: Result<(), Error>)
        requires
            old(self).wf(),
        ensures
            final(self).emitted(
                old(self),
                gpio_call(op.spec_bytes(), gpio_num),
                gpio_err(op.spec_bytes(), gpio_num, total_pins),
                r,
            ),
    {
        self.gpio_op_bytes(op.as_bytes(), gpio_num, total_pins)
    }

    /// `Store (op (gpio_num), Local0)`; fails with `InvalidGpioPins` unless
    /// `gpio_num` is below `total_pins`.
    pub fn soc_get_gpio_state(&mut self, op: &str, gpio_num: u32, total_pins: u32) -> (r: Result<
        (),
        Error,
    >)
        requires
            old(self).wf(),
        ensures
            final(self).emitted(
                old(self),
                gpio_state(op.spec_bytes(), gpio_num),
                gpio_err(op.spec_bytes(), gpio_num, total_pins),
                r,
            ),
    {
        self.gpio_state_bytes(op.as_bytes(), gpio_num, total_pins)
    }

    /// `Store (\_SB.GRXS (gpio_num), Local0)`: reads an input.
    pub fn soc_read_rx_gpio(&mut self, gpio_num: u32, total_pins: u32) -> (r: Result<(), Error>)
        requires
            old(self).wf(),
        ensures
            final(self).emitted(
                old(self),
                gpio_state(grxs(), gpio_num),
                if gpio_num >= total_pins {
                    Some(Error::InvalidGpioPins)
                } else {
                    None
                },
                r,
            ),
    {
        let op: [u8; 9] = [0x5c, 0x5f, 0x53, 0x42, 0x2e, 0x47, 0x52, 0x58, 0x53];
        proof {
            assert(op@ =~= grxs());
            lemma_short_name_ok(op@);
        }
        self.gpio_state_bytes(&op, gpio_num, total_pins)
    }

    /// `Store (\_SB.GTXS (gpio_num), Local0)`: reads back an output.
    pub fn soc_get_tx_gpio(&mut self, gpio_num: u32, total_pins: u32) -> (r: Result<(), Error>)
        requires
            old(self).wf(),
        ensures
            final(self).emitted(
                old(self),
                gpio_state(sb_method(0x47), gpio_num),
                if gpio_num >= total_pins {
                    Some(Error::InvalidGpioPins)
                } else {
                    None
                },
                r,
            ),
    {
        let op = sb_method_bytes(0x47);
        proof {
            lemma_short_name_ok(op@);
        }
        self.gpio_state_bytes(&op, gpio_num, total_pins)
    }

    /// `\_SB.STXS (gpio_num)`: drives an output high.
    pub fn soc_set_tx_gpio(&mut self, gpio_num: u32, total_pins: u32) -> (r: Result<(), Error>)
        requires
            old(self).wf(),
        ensures
            final(self).emitted(
                old(self),
                gpio_call(sb_method(0x53), gpio_num),
                if gpio_num >= total_pins {
                    Some(Error::InvalidGpioPins)
                } else {
                    None
                },
                r,
            ),
    {
        let op = sb_method_bytes(0x53);
        proof {
            lemma_short_name_ok(op@);
        }
        self.gpio_op_bytes(&op, gpio_num, total_pins)
    }

    /// `\_SB.CTXS (gpio_num)`: drives an output low.
    pub fn soc_clear_tx_gpio(&mut self, gpio_num: u32, total_pins: u32) -> (r: Result<(), Error>)
        requires
            old(self).wf(),
        ensures
            final(self).emitted(
                old(self),
                gpio_call(sb_method(0x43), gpio_num),
                if gpio_num >= total_pins {
                    Some(Error::InvalidGpioPins)
                } else {
                    None
                },
                r,
            ),
    {
        let op = sb_method_bytes(0x43);
        proof {
            lemma_short_name_ok(op@);
        }
        self.gpio_op_bytes(&op, gpio_num, total_pins)
    }

    /// Drives the GPIO's first pin to its active level.
    pub fn enable_tx_gpio(&mut self, gpio: &Gpio, total_pins: u32) -> (r: Result<(), Error>)
        requires
            old(self).wf(),
        ensures
            final(self).emitted(
                old(self),
                gpio_call(sb_method(if gpio.active_low { 0x43 } else { 0x53 }), gpio.pins@[0] as u32),
                if gpio.pins@[0] as u32 >= total_pins {
                    Some(Error::InvalidGpioPins)
                } else {
                    None
                },
                r,
            ),
    {
        if gpio.active_low {
            self.soc_clear_tx_gpio(gpio.pins[0] as u32, total_pins)
        } else {
            self.soc_set_tx_gpio(gpio.pins[0] as u32, total_pins)
        }
    }

    /// Drives the GPIO's first pin to its inactive level.
    pub fn disable_tx_gpio(&mut self, gpio: &Gpio, total_pins: u32) -> (r: Result<(), Error>)
        requires
            old(self).wf(),
        ensures
            final(self).emitted(
                old(self),
                gpio_call(sb_method(if gpio.active_low { 0x53 } else { 0x43 }), gpio.pins@[0] as u32),
                if gpio.pins@[0] as u32 >= total_pins {
                    Some(Error::InvalidGpioPins)
                } else {
                    None
                },
                r,
            ),
    {
        if gpio.active_low {
            self.soc_set_tx_gpio(gpio.pins[0] as u32, total_pins)
        } else {
            self.soc_clear_tx_gpio(gpio.pins[0] as u32, total_pins)
        }
    }

    /// Reads the GPIO's first pin into `Local0`, as a logical level.
    pub fn get_rx_gpio(&mut self, gpio: &Gpio, total_pins: u32) -> (r: Result<(), Error>)
        requires
            old(self).wf(),
        ensures
            final(self).emitted(
                old(self),
                gpio_state(grxs(), gpio.pins@[0] as u32) + invert_if(gpio.active_low),
                if gpio.pins@[0] as u32 >= total_pins {
                    Some(Error::InvalidGpioPins)
                } else {
                    None
                },
                r,
            ),
    {
        self.soc_read_rx_gpio(gpio.pins[0] as u32, total_pins)?;
        if gpio.active_low {
            self.write_xor(LOCAL0_OP, 1, LOCAL0_OP)?;
        }
        proof {
            assert(self.bytes() =~= old(self).bytes() + (gpio_state(grxs(), gpio.pins@[0] as u32)
                + invert_if(gpio.active_low)));
        }
        Ok(())
    }

    /// Reads back the GPIO's first output into `Local0`, as a logical level.
    pub fn get_tx_gpio(&mut self, gpio: &Gpio, total_pins: u32) -> (r: Result<(), Error>)
        requires
            old(self).wf(),
        ensures
            final(self).emitted(
                old(self),
                gpio_state(sb_method(0x47), gpio.pins@[0] as u32) + invert_if(gpio.active_low),
                if gpio.pins@[0] as u32 >= total_pins {
                    Some(Error::InvalidGpioPins)
                } else {
                    None
                },
                r,
            ),
    {
        self.soc_get_tx_gpio(gpio.pins[0] as u32, total_pins)?;
        if gpio.active_low {
            self.write_xor(LOCAL0_OP, 1, LOCAL0_OP)?;
        }
        proof {
            assert(self.bytes() =~= old(self).bytes() + (gpio_state(sb_method(0x47), gpio.pins@[0] as u32)
                + invert_if(gpio.active_low)));
        }
        Ok(())
    }
}

} // verus!
