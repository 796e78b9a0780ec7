//! Identifier objects: UUID buffers, EISA IDs and coreboot `_HID` strings.

use vstd::prelude::*;
use vstd::string::StringSliceAdditionalSpecFns;
use crate::acpigen::{AcpiGen, Error, ACPIGEN_LENSTACK_SIZE, BUFFER_OP, UUID_LEN, WORD_PREFIX};
use crate::aml::{aml_block, le16, le64};
use crate::acpi::CorebootAcpiIds;
use crate::values::{name_head, string_term};
use crate::namestring::lemma_short_name_ok;
use crate::hex::{hex_bytes, hex_count, hex_digits, hexstrtobin, is_hex, hex_value};

verus! {

/// The sixteen bytes a UUID string spells, in the order written.
pub open spec fn uuid_bytes(s: Seq<u8>) -> Seq<u8> {
    hex_bytes(hex_digits(s)).subrange(0, 16)
}

/// ACPI's buffer order for UUID bytes: the first three groups are
/// little-endian, the rest as written.
pub open spec fn uuid_order(b: Seq<u8>) -> Seq<u8> {
    seq![b[3], b[2], b[1], b[0], b[5], b[4], b[7], b[6]] + b.subrange(8, 16)
}

/// `ToUUID (uuid)`: a 16-byte buffer.
pub open spec fn uuid_buffer(s: Seq<u8>) -> Seq<u8> {
    aml_block(seq![BUFFER_OP], seq![WORD_PREFIX] + le16(16) + uuid_order(uuid_bytes(s)))
}

/// The error a UUID string raises: too few hex digits for sixteen bytes.
pub open spec fn uuid_err(s: Seq<u8>) -> Option<Error> {
    if hex_digits(s).len() / 2 < 16 {
        Some(Error::UUIDTooShort)
    } else {
        None
    }
}

impl AcpiGen {
    /// `ToUUID (uuid)`: the bytes of `uuid` as a buffer in ACPI's mixed-endian
    /// UUID order.
    pub fn write_uuid(&mut self, uuid: &str) -> (r: Result<(), Error>)
        requires
            old(self).wf(),
            old(self).depth() < ACPIGEN_LENSTACK_SIZE,
        ensures
            final(self).emitted(
                old(self),
                uuid_buffer(uuid.spec_bytes()),
                uuid_err(uuid.spec_bytes()),
                r,
            ),
    {
        let mut buf = [0u8; UUID_LEN];
        let n = hexstrtobin(uuid, &mut buf);
        if n < UUID_LEN {
            return Err(Error::UUIDTooShort);
        }
        let ghost b = uuid_bytes(uuid.spec_bytes());
        proof {
            assert(buf@ =~= b);
        }
        let order = [
            buf[3],
            buf[2],
            buf[1],
            buf[0],
            buf[5],
            buf[4],
            buf[7],
            buf[6],
            buf[8],
            buf[9],
            buf[10],
            buf[11],
            buf[12],
            buf[13],
            buf[14],
            buf[15],
        ];
        self.emit_byte(BUFFER_OP)?;
        self.write_len_f()?;
        self.write_word(UUID_LEN as u32)?;
        self.emit_bytes(&order)?;
        let ghost head = seq![BUFFER_OP];
        let ghost rest = seq![WORD_PREFIX] + le16(16) + uuid_order(b);
        proof {
            assert(order@ =~= uuid_order(b));
            assert(self.bytes() =~= old(self).bytes() + head + seq![0u8, 0u8, 0u8] + rest);
        }
        self.end_block(Ghost(old(self).bytes()), Ghost(head), Ghost(rest));
        proof {
            assert(self.open_blocks() =~= old(self).open_blocks());
        }
        Ok(())
    }
}

/// Whether `s` is a PNP-style EISA ID: three capital letters and four hex
/// digits.
pub open spec fn eisaid_ok(s: Seq<u8>) -> bool {
    &&& s.len() == 7
    &&& forall|i: int| 0 <= i < 3 ==> 0x41 <= #[trigger] s[i] <= 0x5a
    &&& forall|i: int| 3 <= i < 7 ==> is_hex(#[trigger] s[i])
}

/// The compressed EISA ID: three 5-bit letter codes ('A' is 1) and four
/// nibbles.
pub open spec fn eisaid_value(s: Seq<u8>) -> int {
    (s[0] - 0x40) * 0x4000000 + (s[1] - 0x40) * 0x200000 + (s[2] - 0x40) * 0x10000 + hex_value(s[3])
        * 0x1000 + hex_value(s[4]) * 0x100 + hex_value(s[5]) * 0x10 + hex_value(s[6])
}

/// `EisaId ("...")`: a double word whose bytes hold the compressed ID
/// most significant first.
pub open spec fn eisaid_term(s: Seq<u8>) -> Seq<u8> {
    let v = eisaid_value(s);
    seq![
        0x0cu8,
        (v / 0x1000000 % 0x100) as u8,
        (v / 0x10000 % 0x100) as u8,
        (v / 0x100 % 0x100) as u8,
        (v % 0x100) as u8,
    ]
}

/// Lower-case hex digit for `v < 16`.
pub open spec fn hex_char(v: int) -> u8 {
    if v < 10 {
        (0x30 + v) as u8
    } else {
        (0x61 + v - 10) as u8
    }
}

fn hex_char_exec(v: u16) -> (r: u8)
    requires
        v < 16,
    ensures
        r == hex_char(v as int),
{
    if v < 10 {
        (0x30 + v) as u8
    } else {
        (0x61 + v - 10) as u8
    }
}

/// The coreboot `_HID` string for `id`: `BOOT` and four lower-case hex digits.
pub open spec fn coreboot_hid(id: u16) -> Seq<u8> {
    seq![
        0x42u8,
        0x4f,
        0x4f,
        0x54,
        hex_char(id as int / 0x1000),
        hex_char(id as int / 0x100 % 0x10),
        hex_char(id as int / 0x10 % 0x10),
        hex_char(id as int % 0x10),
    ]
}

fn is_capital(c: u8) -> (r: bool)
    ensures
        r == (0x41 <= c <= 0x5a),
{
    c >= 0x41 && c <= 0x5a
}

fn is_hex_digit(c: u8) -> (r: bool)
    ensures
        r == is_hex(c),
{
    (c >= 0x30 && c <= 0x39) || (c >= 0x41 && c <= 0x46) || (c >= 0x61 && c <= 0x66)
}

fn nibble(c: u8) -> (r: u32)
    requires
        is_hex(c),
    ensures
        r == hex_value(c),
{
    if c <= 0x39 {
        (c - 0x30) as u32
    } else if c <= 0x46 {
        (c - 0x41 + 10) as u32
    } else {
        (c - 0x61 + 10) as u32
    }
}

impl AcpiGen {
    /// `EisaId ("PNP0A08")` and the like.
    pub fn emit_eisaid(&mut self, eisaid: &str) -> (r: Result<(), Error>)
        requires
            old(self).wf(),
        ensures
            final(self).emitted(
                old(self),
                eisaid_term(eisaid.spec_bytes()),
                if eisaid_ok(eisaid.spec_bytes()) {
                    None
                } else {
                    Some(Error::InvalidEisaId)
                },
                r,
            ),
    {
        let e = eisaid.as_bytes();
        if e.len() != 7 {
            return Err(Error::InvalidEisaId);
        }
        let ok = is_capital(e[0]) && is_capital(e[1]) && is_capital(e[2]) && is_hex_digit(e[3])
            && is_hex_digit(e[4]) && is_hex_digit(e[5]) && is_hex_digit(e[6]);
        if !ok {
            return Err(Error::InvalidEisaId);
        }
        proof {
            assert forall|i: int| 0 <= i < 3 implies 0x41 <= #[trigger] e@[i] <= 0x5a by {
                assert(i == 0 || i == 1 || i == 2);
            }
            assert forall|i: int| 3 <= i < 7 implies is_hex(#[trigger] e@[i]) by {
                assert(i == 3 || i == 4 || i == 5 || i == 6);
            }
        }
        let compact: u32 = (e[0] - 0x40) as u32 * 0x4000000 + (e[1] - 0x40) as u32 * 0x200000 + (e[2]
            - 0x40) as u32 * 0x10000 + nibble(e[3]) * 0x1000 + nibble(e[4]) * 0x100 + nibble(e[5])
            * 0x10 + nibble(e[6]);
        let b = [
            0x0cu8,
            (compact / 0x1000000 % 0x100) as u8,
            (compact / 0x10000 % 0x100) as u8,
            (compact / 0x100 % 0x100) as u8,
            (compact % 0x100) as u8,
        ];
        let r = self.emit_bytes(&b);
        proof {
            assert(b@ =~= eisaid_term(e@));
        }
        r
    }

    /// `Name (_HID, "BOOTxxxx")` for a coreboot device ID.
    pub fn write_coreboot_hid(&mut self, id: CorebootAcpiIds) -> (r: Result<(), Error>)
        requires
            old(self).wf(),
        ensures
            final(self).appended(
                old(self),
                name_head(seq![0x5fu8, 0x48, 0x49, 0x44]) + string_term(coreboot_hid(id.spec_id())),
                r,
            ),
    {
        let v = id.id();
        let hid = [
            0x42u8,
            0x4f,
            0x4f,
            0x54,
            hex_char_exec(v / 0x1000),
            hex_char_exec(v / 0x100 % 0x10),
            hex_char_exec(v / 0x10 % 0x10),
            hex_char_exec(v % 0x10),
        ];
        let name: [u8; 4] = [0x5f, 0x48, 0x49, 0x44];
        proof {
            assert(hid@ =~= coreboot_hid(v));
            assert(name@ =~= seq![0x5fu8, 0x48, 0x49, 0x44]);
            lemma_short_name_ok(name@);
        }
        self.write_name_string_bytes(&name, &hid)
    }

    /// `Name (_ADR, adr)` as a quad word.
    pub fn write_adr(&mut self, adr: u64) -> (r: Result<(), Error>)
        requires
            old(self).wf(),
        ensures
            final(self).appended(
                old(self),
                name_head(seq![0x5fu8, 0x41, 0x44, 0x52]) + (seq![crate::acpigen::QWORD_PREFIX] + le64(
                    adr as int,
                )),
                r,
            ),
    {
        let name: [u8; 4] = [0x5f, 0x41, 0x44, 0x52];
        proof {
            assert(name@ =~= seq![0x5fu8, 0x41, 0x44, 0x52]);
            lemma_short_name_ok(name@);
        }
        self.write_name_qword_bytes(&name, adr)
    }
}

/// The parts of a SoundWire device address.
#[derive(Debug, Clone, Copy, PartialEq, Eq, Structural)]
pub struct SoundwireAddress {
    /// Zero-based link ID, relative to the immediate parent.
    pub link_id: u8,
    /// SoundWire specification version the device supports.
    pub version: u8,
    /// Unique ID for multiple devices.
    pub unique_id: u8,
    /// MIPI standard manufacturer code.
    pub manufacturer_id: u16,
    /// Vendor defined part ID.
    pub part_id: u16,
    /// MIPI class encoding.
    pub class: u8,
}

/// The `_ADR` value of a SoundWire device: link ID in bits 51..48, version
/// in 47..44, unique ID in 43..40, manufacturer in 39..24, part in 23..8 and
/// class in 7..0.
pub open spec fn soundwire_adr(a: SoundwireAddress) -> int {
    (a.link_id % 16) * 0x1_0000_0000_0000 + (a.version % 16) * 0x1000_0000_0000 + (a.unique_id % 16)
        * 0x100_0000_0000 + a.manufacturer_id * 0x100_0000 + a.part_id * 0x100 + a.class
}

impl AcpiGen {
    /// `Name (_ADR, ...)` with the SoundWire device address of `address`.
    pub fn write_adr_soundwire_device(&mut self, address: &SoundwireAddress) -> (r: Result<(), Error>)
        requires
            old(self).wf(),
        ensures
            final(self).appended(
                old(self),
                name_head(seq![0x5fu8, 0x41, 0x44, 0x52]) + (seq![crate::acpigen::QWORD_PREFIX] + le64(
                    soundwire_adr(*address),
                )),
                r,
            ),
    {
        let adr: u64 = (address.link_id % 16) as u64 * 0x1_0000_0000_0000 + (address.version % 16) as u64
            * 0x1000_0000_0000 + (address.unique_id % 16) as u64 * 0x100_0000_0000
            + address.manufacturer_id as u64 * 0x100_0000 + address.part_id as u64 * 0x100
            + address.class as u64;
        self.write_adr(adr)
    }
}

} // verus!
