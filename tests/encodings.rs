use oreboot::acpi::{AcpiAddr, AcpiCstate, AcpiLpiState};
use oreboot::acpi_device::{Gpio, GpioPull, GpioType, IoRestrict, Irq, IrqMode, IrqPolarity, IrqShared, IrqWake};
use oreboot::ids::SoundwireAddress;
use oreboot::mainboard::Resource;
use oreboot::acpigen::{AcpiGen, Error, BUFFER_OP, LOCAL0_OP, RETURN_OP};
use oreboot::chromeec::{
    create_proto3_request, cros_ec_calc_checksum, handle_proto3_response, ChromeECCommand,
    ECCommandV3, ECHostRequest, ECResponseV3,
};
use oreboot::chromeec::Error as EcError;
use oreboot::cpu_tables::{CppcConfig, CppcEntry};
use oreboot::dsm::DsmUuid;
use oreboot::fields::{FieldList, OpRegion, RegionSpace};
use oreboot::hex::{hex2bin, hexstrtobin};

fn emitted(f: impl FnOnce(&mut AcpiGen) -> Result<(), Error>) -> Result<Vec<u8>, Error> {
    let mut g = AcpiGen::new();
    f(&mut g)?;
    Ok(g.get_current().to_vec())
}

#[test]
fn integers_use_the_smallest_form() {
    assert_eq!(emitted(|g| g.write_integer(0)).unwrap(), vec![0x00]);
    assert_eq!(emitted(|g| g.write_integer(1)).unwrap(), vec![0x01]);
    assert_eq!(emitted(|g| g.write_integer(2)).unwrap(), vec![0x0a, 0x02]);
    assert_eq!(emitted(|g| g.write_integer(0xff)).unwrap(), vec![0x0a, 0xff]);
    assert_eq!(emitted(|g| g.write_integer(0x100)).unwrap(), vec![0x0b, 0x00, 0x01]);
    assert_eq!(emitted(|g| g.write_integer(0xffff)).unwrap(), vec![0x0b, 0xff, 0xff]);
    assert_eq!(
        emitted(|g| g.write_integer(0x12345)).unwrap(),
        vec![0x0c, 0x45, 0x23, 0x01, 0x00]
    );
    assert_eq!(
        emitted(|g| g.write_integer(0xffff_ffff)).unwrap(),
        vec![0x0c, 0xff, 0xff, 0xff, 0xff]
    );
    assert_eq!(
        emitted(|g| g.write_integer(0x1_0000_0000)).unwrap(),
        vec![0x0e, 0, 0, 0, 0, 1, 0, 0, 0]
    );
}

#[test]
fn namestrings_single_dual_multi_and_null() {
    assert_eq!(emitted(|g| g.emit_namestring("ABCD")).unwrap(), b"ABCD".to_vec());
    assert_eq!(emitted(|g| g.emit_namestring("AB")).unwrap(), b"AB__".to_vec());
    let mut dual = vec![0x5c, 0x2e];
    dual.extend_from_slice(b"_SB_PCI0");
    assert_eq!(emitted(|g| g.emit_namestring("\\_SB.PCI0")).unwrap(), dual);
    let mut multi = vec![0x5c, 0x2f, 3];
    multi.extend_from_slice(b"_SB_PCI0LPCB");
    assert_eq!(emitted(|g| g.emit_namestring("\\_SB.PCI0.LPCB")).unwrap(), multi);
    assert_eq!(emitted(|g| g.emit_namestring("^^X")).unwrap(), b"^^X___".to_vec());
    assert_eq!(emitted(|g| g.emit_namestring("\\")).unwrap(), vec![0x5c, 0x00]);
    assert_eq!(emitted(|g| g.emit_namestring("")).unwrap(), vec![0x00]);
    assert_eq!(emitted(|g| g.emit_simple_namestring("PCI0.X")).unwrap(), b"PCI0".to_vec());
}

#[test]
fn namestring_with_too_many_segments_fails() {
    let name = vec!["A"; 256].join(".");
    assert_eq!(emitted(|g| g.emit_namestring(&name)), Err(Error::NameTooLong));
    let name = vec!["A"; 255].join(".");
    let out = emitted(|g| g.emit_namestring(&name)).unwrap();
    assert_eq!(&out[..2], &[0x2f, 255]);
    assert_eq!(out.len(), 2 + 4 * 255);
}

#[test]
fn method_length_counts_its_own_field() {
    let out = emitted(|g| g.write_sta(0x0f)).unwrap();
    assert_eq!(out, vec![0x14, 0x8b, 0x00, 0x00, b'_', b'S', b'T', b'A', 0x00, 0xa4, 0x0a, 0x0f]);
}

#[test]
fn uuid_first_three_groups_are_reordered() {
    let out = emitted(|g| g.write_uuid("00112233-4455-6677-8899-aabbccddeeff")).unwrap();
    assert_eq!(
        out,
        vec![
            BUFFER_OP, 0x86, 0x01, 0x00, 0x0b, 0x10, 0x00, 0x33, 0x22, 0x11, 0x00, 0x55, 0x44, 0x77,
            0x66, 0x88, 0x99, 0xaa, 0xbb, 0xcc, 0xdd, 0xee, 0xff
        ]
    );
    assert_eq!(emitted(|g| g.write_uuid("1234")), Err(Error::UUIDTooShort));
}

#[test]
fn field_offsets_move_forward_only() {
    let l = [FieldList::offset(0x84), FieldList::namestr("PMCS", 2), FieldList::reserved(6)];
    let out = emitted(|g| g.write_field("UART", &l, 0)).unwrap();
    assert_eq!(
        out,
        vec![
            0x5b, 0x81, 0x82, 0x01, 0x00, b'U', b'A', b'R', b'T', 0x00, 0x00, 0x40, 0x42, b'P',
            b'M', b'C', b'S', 0x02, 0x00, 0x06
        ]
    );
    let back = [FieldList::namestr("ABCD", 16), FieldList::offset(1)];
    assert_eq!(emitted(|g| g.write_field("UART", &back, 0)), Err(Error::InvalidFieldOffset));
    let same = [FieldList::namestr("ABCD", 16), FieldList::offset(2)];
    assert!(emitted(|g| g.write_field("UART", &same, 0)).is_ok());
}

#[test]
fn field_lengths() {
    assert_eq!(emitted(|g| g.write_field_length(0x3f)).unwrap(), vec![0x3f]);
    assert_eq!(emitted(|g| g.write_field_length(0x40)).unwrap(), vec![0x40, 0x04]);
    assert_eq!(emitted(|g| g.write_field_length(0x1234)).unwrap(), vec![0x84, 0x23, 0x01]);
    assert_eq!(
        emitted(|g| g.write_field_length(0x0fff_ffff)).unwrap(),
        vec![0xcf, 0xff, 0xff, 0xff]
    );
    assert_eq!(emitted(|g| g.write_field_length(0x1000_0000)), Err(Error::InvalidFieldOffset));
}

#[test]
fn opregion_bytes() {
    let r = OpRegion::create("ROMS", RegionSpace::SystemMemory, 0x1234, 0x10);
    let out = emitted(|g| g.write_opregion(&r)).unwrap();
    assert_eq!(out, vec![0x5b, 0x80, b'R', b'O', b'M', b'S', 0x00, 0x0b, 0x34, 0x12, 0x0a, 0x10]);
}

#[test]
fn eisaid_packs_letters_and_digits() {
    assert_eq!(
        emitted(|g| g.emit_eisaid("PNP0A08")).unwrap(),
        vec![0x0c, 0x41, 0xd0, 0x0a, 0x08]
    );
    assert_eq!(emitted(|g| g.emit_eisaid("pnp0A08")), Err(Error::InvalidEisaId));
    assert_eq!(emitted(|g| g.emit_eisaid("PNP0A0")), Err(Error::InvalidEisaId));
}

#[test]
fn hex_parsing() {
    let mut buf = [0u8; 4];
    assert_eq!(hexstrtobin("0a-Bc", &mut buf), 2);
    assert_eq!(&buf[..2], &[0x0a, 0xbc]);
    let mut small = [0u8; 1];
    assert_eq!(hexstrtobin("1234", &mut small), 1);
    assert_eq!(small, [0x12]);
    assert_eq!(hex2bin('F'), 15);
    assert_eq!(hex2bin('a'), 10);
    assert_eq!(hex2bin('7'), 7);
}

#[test]
fn buffer_capacity_is_enforced() {
    let mut g = AcpiGen::new();
    g.set_current(&vec![0u8; 0xfffff]).unwrap();
    assert_eq!(g.emit_byte(1), Err(Error::BufferFull));
    assert_eq!(g.get_current().len(), 0xfffff);
    assert_eq!(g.set_current(&vec![0u8; 0x100000]), Err(Error::CurrentTooLong));
    g.set_current(&vec![0u8; 0xffffb]).unwrap();
    assert_eq!(g.write_if(), Ok(()));
    assert_eq!(g.emit_byte(0), Err(Error::BufferFull));
}

#[test]
fn register_resource_template() {
    let addr = AcpiAddr {
        space_id: 1,
        bit_width: 8,
        bit_offset: 0,
        access_size: 1,
        addrl: 0x1234_5678,
        addrh: 0,
    };
    let out = emitted(|g| g.write_register_resource(&addr)).unwrap();
    assert_eq!(
        out,
        vec![
            0x11, 0x87, 0x01, 0x00, 0x0b, 0x11, 0x00, 0x82, 0x0c, 0x00, 1, 8, 0, 1, 0x78, 0x56,
            0x34, 0x12, 0, 0, 0, 0, 0x79, 0x00
        ]
    );
}

#[test]
fn dsm_bitmap_lists_registered_functions() {
    let id = DsmUuid::create(
        "00112233-4455-6677-8899-aabbccddeeff",
        vec![None, Some(vec![0xa3]), None, Some(vec![0xa3])],
        4,
    );
    let out = emitted(|g| g.dsm_uuid_enum_functions(&id)).unwrap();
    assert_eq!(out, vec![RETURN_OP, BUFFER_OP, 0x85, 0x00, 0x00, 0x01, 0x0b]);
    let none = DsmUuid::create("00112233-4455-6677-8899-aabbccddeeff", vec![None, None], 2);
    let out = emitted(|g| g.dsm_uuid_enum_functions(&none)).unwrap();
    assert_eq!(out, vec![RETURN_OP, BUFFER_OP, 0x85, 0x00, 0x00, 0x01, 0x00]);
}

#[test]
fn dsm_method_structure() {
    let out = emitted(|g| {
        g.write_dsm(
            "00112233-4455-6677-8899-aabbccddeeff",
            vec![None, Some(vec![0xa3])],
            2,
        )
    })
    .unwrap();
    assert_eq!(out[0], 0x14);
    assert_eq!(&out[4..9], &[b'_', b'D', b'S', b'M', 0x0c]);
    assert_eq!(&out[9..12], &[0x96, 0x68, LOCAL0_OP]);
    assert_eq!(&out[out.len() - 7..], &[RETURN_OP, BUFFER_OP, 0x85, 0x00, 0x00, 0x01, 0x00]);
    assert_eq!(
        emitted(|g| g.write_dsm("short", vec![None], 1)),
        Err(Error::UUIDTooShort)
    );
}

#[test]
fn cppc_rejects_unknown_versions() {
    let config = CppcConfig { version: 4, entries: [CppcEntry::Dword(0); 21] };
    assert_eq!(emitted(|g| g.write_cppc_package(&config)), Err(Error::InvalidCppcVersion(4)));
    let config = CppcConfig { version: 1, entries: [CppcEntry::Dword(7); 21] };
    let out = emitted(|g| g.write_cppc_package(&config)).unwrap();
    assert_eq!(&out[..5], &[0x08, b'G', b'C', b'P', b'C']);
    assert_eq!(&out[5..6], &[0x12]);
    assert_eq!(out[9], 17);
    assert_eq!(&out[10..15], &[0x0c, 17, 0, 0, 0]);
    assert_eq!(&out[15..17], &[0x0a, 1]);
}

#[test]
fn rom_method_is_well_formed() {
    let out = emitted(|g| g.write_rom(0xdead_0000, 0x10000)).unwrap();
    assert_eq!(out[0], 0x14);
    let len = (out[1] & 0x0f) as usize | (out[2] as usize) << 4 | (out[3] as usize) << 12;
    assert_eq!(len, out.len() - 1);
    assert_eq!(&out[4..9], &[b'_', b'R', b'O', b'M', 0x0a]);
}

#[test]
fn ec_checksum_and_header() {
    assert_eq!(cros_ec_calc_checksum(&[1, 2, 255]), 2);
    assert_eq!(cros_ec_calc_checksum(&[]), 0);
    let mut h = ECHostRequest::new();
    h.set_command(0x1234);
    h.set_data_len(2);
    assert_eq!(h.as_bytes(), [3, 0, 0x34, 0x12, 0, 0, 2, 0]);
    let mut cmd = ECCommandV3::new();
    cmd.header_mut().set_data_len(3);
    cmd.data_mut()[0] = 9;
    assert_eq!(cmd.data(), &[9, 0, 0]);
    assert_eq!(cmd.as_bytes()[8], 9);
    assert_eq!(cmd.len(), 265);
}

#[test]
fn processor_objects() {
    let out = emitted(|g| {
        g.write_processor(3, 0x410, 6)?;
        g.pop_len();
        Ok(())
    })
    .unwrap();
    let mut want = vec![0x5b, 0x83, 0x83, 0x01, 0x00, 0x5c, 0x2e];
    want.extend_from_slice(b"_SB_CP03");
    want.extend_from_slice(&[3, 0x10, 0x04, 0, 0, 6]);
    assert_eq!(out, want);
    let out = emitted(|g| g.write_processor_package("PPKG", 9, 2)).unwrap();
    assert_eq!(&out[..5], &[0x08, b'P', b'P', b'K', b'G']);
    assert_eq!(out[5], 0x12);
    assert_eq!(out[9], 2);
    assert_eq!(&out[10..20], &[0x5c, 0x2e, b'_', b'S', b'B', b'_', b'C', b'P', b'0', b'9']);
    assert_eq!(&out[20..30], &[0x5c, 0x2e, b'_', b'S', b'B', b'_', b'C', b'P', b'1', b'0']);
    let out = emitted(|g| g.write_processor_cnot(2)).unwrap();
    assert_eq!(out[0], 0x14);
    assert_eq!(out.len(), 4 + 11 + 2 * 12);
}

#[test]
fn dual_and_multi_namestrings() {
    assert_eq!(
        emitted(|g| g.emit_double_namestring("AB.CDEFG", 2)).unwrap(),
        b"\x2eAB__CDEF".to_vec()
    );
    assert_eq!(
        emitted(|g| g.emit_multi_namestring("A.B.C")).unwrap(),
        b"\x2f\x03A___B___C___".to_vec()
    );
}

#[test]
fn delay_loop_with_and_without_a_name() {
    let out = emitted(|g| g.write_delay_until_namestr_int(100, "", 0)).unwrap();
    assert_eq!(
        out,
        vec![0x70, 0x0a, 6, 0x67, 0xa2, 0x8c, 0x00, 0x00, 0x94, 0x67, 0x00, 0x5b, 0x22, 0x0a, 16, 0x76, 0x67]
    );
    let out = emitted(|g| g.write_delay_until_namestr_int(10, "FLAG", 1)).unwrap();
    assert_eq!(&out[..4], &[0x70, 0x0a, 10, 0x67]);
    assert_eq!(&out[11..15], &[0xa0, 0x8a, 0x00, 0x00]);
}

#[test]
fn unicode_names_and_power_resources() {
    let out = emitted(|g| g.write_name_unicode("_STR", "Hi")).unwrap();
    assert_eq!(
        out,
        vec![0x08, b'_', b'S', b'T', b'R', 0x11, 0x89, 0x00, 0x00, 0x0a, 3, b'H', 0, b'i', 0]
    );
    let out = emitted(|g| {
        g.write_power_res("PRIC", 0, 1, &["_PR0"])?;
        g.pop_len();
        Ok(())
    })
    .unwrap();
    assert_eq!(&out[..15], &[0x08, b'_', b'P', b'R', b'0', 0x12, 0x88, 0, 0, 1, b'P', b'R', b'I', b'C', 0x5b]);
    assert_eq!(&out[15..], &[0x84, 0x8a, 0, 0, b'P', b'R', b'I', b'C', 0, 1, 0]);
}

#[test]
fn mainboard_ranges() {
    let mem = [Resource { base: 0xfed0_0000, size: 0x1000 }];
    let io = [Resource { base: 0x400, size: 300 }];
    let out = emitted(|g| g.write_mainboard_resource_template(&mem, &io)).unwrap();
    // 12 bytes of memory descriptor, two I/O descriptors of 8 bytes, end tag.
    assert_eq!(out.len(), 7 + 12 + 16 + 2);
    assert_eq!(&out[4..7], &[0x0b, 30, 0]);
    assert_eq!(&out[19..27], &[0x47, 1, 0x00, 0x04, 0x00, 0x04, 0, 255]);
    assert_eq!(&out[27..35], &[0x47, 1, 0xff, 0x04, 0xff, 0x04, 0, 45]);
}

#[test]
fn lpi_and_cst_tables() {
    let addr = AcpiAddr { space_id: 0x7f, bit_width: 2, bit_offset: 2, access_size: 0, addrl: 0, addrh: 0 };
    let states = [AcpiLpiState {
        min_residency_us: 2,
        worst_case_wakeup_latency_us: 1,
        flags: 1,
        arch_context_lost_flags: 0,
        residency_counter_frequency_hz: 0,
        enabled_parent_state: 0,
        entry_method: addr,
        residency_counter_register: addr,
        usage_counter_register: addr,
        state_name: "C1",
    }];
    let out = emitted(|g| g.write_lpi_package(0, &states)).unwrap();
    assert_eq!(&out[..5], &[0x08, b'_', b'L', b'P', b'I']);
    assert_eq!(out[9], 4);
    assert_eq!(&out[out.len() - 4..], &[0x0d, b'C', b'1', 0]);
    let cst = [AcpiCstate { ctype: 1, latency: 1, power: 1000, resource: addr }];
    let out = emitted(|g| g.write_cst_package(&cst)).unwrap();
    assert_eq!(out[9], 2);
    assert_eq!(out[10], 0x01);
}

#[test]
fn soundwire_address() {
    let a = SoundwireAddress { link_id: 1, version: 1, unique_id: 0, manufacturer_id: 0x025d, part_id: 0x5682, class: 0 };
    let out = emitted(|g| g.write_adr_soundwire_device(&a)).unwrap();
    assert_eq!(out, vec![0x08, b'_', b'A', b'D', b'R', 0x0e, 0x00, 0x82, 0x56, 0x5d, 0x02, 0x10, 0x01, 0x00]);
}

#[test]
fn gpio_hooks_check_the_pin_count() {
    let mut want = vec![0x5c, 0x2e];
    want.extend_from_slice(b"_SB_STXS");
    want.extend_from_slice(&[0x0a, 5]);
    assert_eq!(emitted(|g| g.soc_set_tx_gpio(5, 10)).unwrap(), want);
    assert_eq!(emitted(|g| g.soc_set_tx_gpio(10, 10)), Err(Error::InvalidGpioPins));
    let gpio = Gpio {
        pin_count: 1,
        pins: [3, 0, 0, 0, 0, 0, 0, 0],
        gpio_type: GpioType::Io,
        pull: GpioPull::PullDefault,
        resource: "\\_SB.GPIO",
        interrupt_debounce_timeout: 0,
        irq: Irq {
            pin: 0,
            mode: IrqMode::EdgeTriggered,
            polarity: IrqPolarity::ActiveHigh,
            shared: IrqShared::Exclusive,
            wake: IrqWake::NoWake,
        },
        output_drive_strength: 0,
        io_shared: 0,
        io_restrict: IoRestrict::RestrictNone,
        active_low: true,
    };
    let out = emitted(|g| g.get_rx_gpio(&gpio, 8)).unwrap();
    let mut want = vec![0x70, 0x5c, 0x2e];
    want.extend_from_slice(b"_SB_GRXS");
    want.extend_from_slice(&[0x0a, 3, 0x60, 0x7f, 0x60, 0x01, 0x60]);
    assert_eq!(out, want);
    let out = emitted(|g| g.enable_tx_gpio(&gpio, 8)).unwrap();
    assert_eq!(&out[6..10], b"CTXS");
}

#[test]
fn ec_request_packets_sum_to_zero() {
    let mut c = ChromeECCommand::new();
    c.set_cmd_code(0x0b);
    c.set_size_in(2);
    c.data_in_mut()[0] = 1;
    c.data_in_mut()[1] = 2;
    let req = match create_proto3_request(&c) {
        Ok(r) => r,
        Err(_) => panic!("request should fit"),
    };
    let bytes = req.as_bytes();
    assert_eq!(&bytes[..10], &[3, 234, 0x0b, 0, 3, 0, 2, 0, 1, 2]);
    assert_eq!(cros_ec_calc_checksum(&bytes[..10]), 0);
    let mut big = ChromeECCommand::new();
    big.set_size_in(258);
    assert!(create_proto3_request(&big).is_err());
}

#[test]
fn ec_responses_are_checked_and_delivered() {
    let mut resp = ECResponseV3::new();
    resp.header_mut().set_data_len(1);
    resp.data_mut()[0] = 5;
    resp.header_mut().set_checksum(247);
    let mut c = ChromeECCommand::new();
    c.set_size_out(4);
    assert!(matches!(handle_proto3_response(&resp, &mut c), Ok(1)));
    assert_eq!(c.cmd_code(), 0);
    assert_eq!(c.size_out(), 1);
    assert_eq!(c.data_out(), &[5]);
    c.set_size_out(2);
    assert_eq!(c.data_out(), &[5, 0]);

    resp.header_mut().set_checksum(0);
    let mut c = ChromeECCommand::new();
    c.set_size_out(4);
    assert!(matches!(handle_proto3_response(&resp, &mut c), Err(EcError::ECResInvalidChecksum)));

    resp.header_mut().set_result(2);
    resp.header_mut().set_checksum(245);
    assert!(matches!(handle_proto3_response(&resp, &mut c), Err(EcError::ECResResponse(-2))));
    assert_eq!(c.cmd_code(), 2);
}

#[test]
fn dsm_bitmap_covers_every_handler() {
    let id = DsmUuid::create(
        "00112233-4455-6677-8899-aabbccddeeff",
        vec![None, Some(vec![0xa3])],
        1,
    );
    let out = emitted(|g| g.dsm_uuid_enum_functions(&id)).unwrap();
    assert_eq!(out, vec![RETURN_OP, BUFFER_OP, 0x85, 0x00, 0x00, 0x01, 0x03]);
}

#[test]
fn rom_for_small_and_huge_images() {
    let out = emitted(|g| g.write_rom(0xfff0_0000, 0x800)).unwrap();
    assert_eq!(out[0], 0x14);
    let len = (out[1] & 0x0f) as usize | (out[2] as usize) << 4 | (out[3] as usize) << 12;
    assert_eq!(len, out.len() - 1);
    // The clamp to the end of the image is not guarded by an If.
    let sub = out.iter().position(|&b| b == 0x74).unwrap();
    assert_eq!(&out[sub..sub + 6], &[0x74, 0x0b, 0x00, 0x08, 0x60, 0x62]);
    let mut g = AcpiGen::new();
    assert_eq!(g.write_rom(0xfff0_0000, 0x200_0000), Err(Error::InvalidFieldOffset));
    assert!(g.get_current().is_empty());
}

#[test]
fn failed_calls_emit_nothing() {
    let mut g = AcpiGen::new();
    g.emit_byte(0x10).unwrap();
    assert_eq!(g.write_uuid("1234"), Err(Error::UUIDTooShort));
    assert_eq!(g.emit_eisaid("PNP0A0"), Err(Error::InvalidEisaId));
    assert_eq!(g.soc_gpio_op("\\_SB.GPIO", 9, 8), Err(Error::InvalidGpioPins));
    assert_eq!(g.get_current(), &[0x10]);
}
