use oreboot::acpigen::{AcpiGen, Error, AND_OP, EXT_OP_PREFIX, LOCAL0_OP, LOCAL1_OP, ZERO_OP};

const ACPIGEN_TEST_BUFFER_SZ: usize = 16 * 1024;

/// Returns the AML package length of the block whose opcode starts `aml`.
/// Works with normal and extended packages, independently of the assembler.
fn decode_package_length(aml: &[u8]) -> usize {
    let offset = if aml[0] == EXT_OP_PREFIX { 2 } else { 1 };
    let mut byte_zero_mask = 0x3f;
    let mut byte_count = (aml[offset] >> 6) as usize;
    let mut package_length: usize = 0;

    while byte_count != 0 {
        package_length |= (aml[offset + byte_count] as usize) << ((byte_count << 3) - 4);
        byte_zero_mask = 0x0f;
        byte_count -= 1;
    }

    package_length |= (aml[offset] & byte_zero_mask) as usize;
    package_length
}

/// Bytes from the length field of the block that starts at `start` to the
/// end of the buffer.
fn get_current_block_length(acpigen: &AcpiGen, start: usize) -> usize {
    let cur = acpigen.get_current();
    let offset = if cur[start] == EXT_OP_PREFIX { 2 } else { 1 };
    cur.len() - (start + offset)
}

fn setup_acpigen() -> (AcpiGen, [u8; ACPIGEN_TEST_BUFFER_SZ]) {
    (AcpiGen::new(), [0u8; ACPIGEN_TEST_BUFFER_SZ])
}

fn create_nested_ifs_recursive(
    acpigen: &mut AcpiGen,
    stack_start: &mut [usize],
    stack_end: &mut [usize],
    i: usize,
    n: usize,
) -> Result<(), Error> {
    if i >= n {
        return Ok(());
    }

    stack_start[i] = acpigen.get_current().len();
    acpigen.write_if_and(LOCAL0_OP, ZERO_OP)?;

    for _k in 0..3 {
        acpigen.write_store_ops(ZERO_OP, LOCAL1_OP)?;
    }

    create_nested_ifs_recursive(acpigen, stack_start, stack_end, i + 1, n)?;

    acpigen.pop_len();

    stack_end[i] = acpigen.get_current().len();

    Ok(())
}

#[test]
fn test_single_if() -> Result<(), Error> {
    let (mut acpigen, state) = setup_acpigen();
    acpigen.set_current(&state)?;
    let start = acpigen.get_current().len();

    acpigen.write_if_lequal_op_int(LOCAL0_OP, 64)?;
    for _i in 0..20 {
        acpigen.write_store_ops(ZERO_OP, LOCAL1_OP)?;
    }
    acpigen.write_if_end()?;

    let if_package_length = decode_package_length(&acpigen.get_current()[start..]);
    let block_length = get_current_block_length(&acpigen, start);
    assert_eq!(if_package_length, block_length);
    Ok(())
}

#[test]
fn test_nested_ifs() -> Result<(), Error> {
    let (mut acpigen, state) = setup_acpigen();
    let nesting_level = 8;
    let mut block_start = [0usize; 8];
    let mut block_end = [0usize; 8];

    acpigen.set_current(&state)?;
    create_nested_ifs_recursive(&mut acpigen, &mut block_start, &mut block_end, 0, nesting_level)?;

    let cur = acpigen.get_current();
    for i in 0..nesting_level {
        assert_eq!(
            decode_package_length(&cur[block_start[i]..]),
            block_end[i] - block_start[i] - 1
        );
    }
    Ok(())
}

#[test]
fn test_write_package() -> Result<(), Error> {
    let (mut acpigen, state) = setup_acpigen();
    acpigen.set_current(&state)?;
    let start = acpigen.get_current().len();

    acpigen.write_package(3)?;
    acpigen.write_return_singleton_buffer(0xa)?;
    acpigen.write_return_singleton_buffer(0x7)?;
    acpigen.write_return_singleton_buffer(0xf)?;
    acpigen.pop_len();

    let package_length = decode_package_length(&acpigen.get_current()[start..]);
    let block_length = get_current_block_length(&acpigen, start);
    assert_eq!(package_length, block_length);
    Ok(())
}

#[test]
fn test_scope_with_contents() -> Result<(), Error> {
    let (mut acpigen, state) = setup_acpigen();
    let mut block_start = [0usize; 8];
    let mut block_counter = 0;

    acpigen.set_current(&state)?;

    /* Scope("\_SB") { */
    block_start[block_counter] = acpigen.get_current().len();
    block_counter += 1;
    acpigen.write_scope("\\_SB")?;

    /* Device("PCI0") { */
    block_start[block_counter] = acpigen.get_current().len();
    block_counter += 1;
    acpigen.write_device("PCI0")?;

    /* Name(INT1, 0x1234) */
    acpigen.write_name_integer("INT1", 0x1234)?;

    /* Name (_HID, EisaId ("PNP0A08")) // PCI Express Bus */
    acpigen.write_name("_HID")?;
    acpigen.emit_eisaid("PNP0A08")?;

    /* Method(^BN00, 0, NotSerialized) { */
    block_start[block_counter] = acpigen.get_current().len();
    block_counter += 1;
    acpigen.write_method("^BN00", 0)?;

    /* Return( 0x12 + ^PCI0.INT1 ) */
    acpigen.write_return_op(AND_OP)?;
    acpigen.write_byte(0x12)?;
    acpigen.emit_namestring("^PCI0.INT1")?;

    /* } */
    acpigen.pop_len();
    block_counter -= 1;
    let mut package_length = decode_package_length(&acpigen.get_current()[block_start[block_counter]..]);
    let mut block_length = get_current_block_length(&acpigen, block_start[block_counter]);
    assert_eq!(package_length, block_length);

    /* Method (_BBN, 0, NotSerialized) { */
    block_start[block_counter] = acpigen.get_current().len();
    block_counter += 1;
    acpigen.write_method("_BBN", 0)?;

    /* Return (BN00 ()) */
    acpigen.write_return_namestr("BN00")?;
    acpigen.emit_byte(0x0a)?;

    /* } */
    acpigen.pop_len();
    block_counter -= 1;
    package_length = decode_package_length(&acpigen.get_current()[block_start[block_counter]..]);
    block_length = get_current_block_length(&acpigen, block_start[block_counter]);
    assert_eq!(package_length, block_length);

    /* } */
    acpigen.pop_len();
    block_counter -= 1;
    package_length = decode_package_length(&acpigen.get_current()[block_start[block_counter]..]);
    block_length = get_current_block_length(&acpigen, block_start[block_counter]);
    assert_eq!(package_length, block_length);

    /* } */
    acpigen.pop_len();
    block_counter -= 1;
    package_length = decode_package_length(&acpigen.get_current()[block_start[block_counter]..]);
    block_length = get_current_block_length(&acpigen, block_start[block_counter]);
    assert_eq!(package_length, block_length);

    Ok(())
}
