use reachy_mini::dynamixel::{
    address, build_read_packet, build_reboot_packet, build_sync_current_position,
    build_sync_read_hardware_error, build_sync_read_load, build_sync_read_temperature,
    build_sync_write_position, build_sync_write_torque, crc16, instruction, parse_1byte_packets,
    parse_1byte_packets_with_errors, parse_2byte_signed_packets, parse_position_packets,
    parse_status_packet, BROADCAST_ID,
};

// This runs a unit test in native Rust, so it can only use Rust APIs.
#[test]
fn rust_test() {
    assert_eq!(1, 1);
}

#[test]
fn test_crc() {
    // Test vector from Dynamixel documentation
    let data = [
        0xFF, 0xFF, 0xFD, 0x00, 0x01, 0x07, 0x00, 0x55, 0x00, 0x06, 0x04, 0x26,
    ];
    let crc = crc16(&data);
    assert_eq!(crc, 0x5D65);
}

#[test]
fn test_read_packet_structure() {
    let packet = build_read_packet(11, 146, 1);
    assert_eq!(packet[0..4], [0xFF, 0xFF, 0xFD, 0x00]); // Header
    assert_eq!(packet[4], 11); // Motor ID
    assert_eq!(packet[7], instruction::READ);
    assert_eq!(packet[8], 146); // Address low
    assert_eq!(packet[9], 0); // Address high
}

#[test]
fn test_reboot_packet_structure() {
    let packet = build_reboot_packet(17);
    assert_eq!(packet[4], 17); // Motor ID
    assert_eq!(packet[7], instruction::REBOOT);
    assert_eq!(packet.len(), 10);
}

/// Verify packet header structure (FF FF FD 00)
fn assert_valid_header(packet: &[u8], expected_id: u8) {
    assert!(packet.len() >= 7, "Packet too short");
    assert_eq!(packet[0], 0xFF, "Header byte 0");
    assert_eq!(packet[1], 0xFF, "Header byte 1");
    assert_eq!(packet[2], 0xFD, "Header byte 2");
    assert_eq!(packet[3], 0x00, "Header byte 3");
    assert_eq!(packet[4], expected_id, "Motor ID");
}

// ----------------------------------------------------------------------------
// Packet Building Tests
// ----------------------------------------------------------------------------

#[test]
fn test_build_read_packet_structure() {
    let motor_id = 11;
    let addr = address::PRESENT_TEMPERATURE;
    let length = 1;

    let packet = build_read_packet(motor_id, addr, length);

    // READ packet: header(4) + id(1) + len(2) + instr(1) + addr(2) + data_len(2) + crc(2) = 14
    assert_eq!(packet.len(), 14, "READ packet should be 14 bytes");
    assert_valid_header(&packet, motor_id);

    // Instruction should be READ (0x02)
    assert_eq!(packet[7], 0x02, "Instruction should be READ");

    // Address (little-endian)
    assert_eq!(packet[8], (addr & 0xFF) as u8, "Address low byte");
    assert_eq!(packet[9], (addr >> 8) as u8, "Address high byte");

    // Data length (little-endian)
    assert_eq!(packet[10], (length & 0xFF) as u8, "Length low byte");
    assert_eq!(packet[11], (length >> 8) as u8, "Length high byte");
}

#[test]
fn test_build_read_packet_different_addresses() {
    // Test PRESENT_POSITION (4 bytes)
    let packet = build_read_packet(12, address::PRESENT_POSITION, 4);
    assert_eq!(packet[8], 132); // 132 = 0x84
    assert_eq!(packet[9], 0);
    assert_eq!(packet[10], 4); // 4 bytes
    assert_eq!(packet[11], 0);

    // Test PRESENT_LOAD (2 bytes)
    let packet = build_read_packet(13, address::PRESENT_LOAD, 2);
    assert_eq!(packet[8], 126); // 126 = 0x7E
    assert_eq!(packet[9], 0);
    assert_eq!(packet[10], 2); // 2 bytes
    assert_eq!(packet[11], 0);
}

#[test]
fn test_build_reboot_packet_structure() {
    let motor_id = 17;
    let packet = build_reboot_packet(motor_id);

    // REBOOT packet: header(4) + id(1) + len(2) + instr(1) + crc(2) = 10
    assert_eq!(packet.len(), 10, "REBOOT packet should be 10 bytes");
    assert_valid_header(&packet, motor_id);

    // Instruction should be REBOOT (0x08)
    assert_eq!(packet[7], 0x08, "Instruction should be REBOOT");
}

#[test]
fn test_build_sync_current_position() {
    let motor_ids = [11, 12, 13, 14, 15, 16];
    let packet = build_sync_current_position(&motor_ids);

    assert_valid_header(&packet, BROADCAST_ID);

    // Instruction should be SYNC_READ (0x82)
    assert_eq!(packet[7], 0x82, "Instruction should be SYNC_READ");

    // Address should be PRESENT_POSITION (132)
    assert_eq!(packet[8], 132);
    assert_eq!(packet[9], 0);

    // Data length should be 4 bytes
    assert_eq!(packet[10], 4);
    assert_eq!(packet[11], 0);

    // Motor IDs should follow
    for (i, &id) in motor_ids.iter().enumerate() {
        assert_eq!(packet[12 + i], id, "Motor ID at index {}", i);
    }
}

#[test]
fn test_build_sync_write_torque_enable() {
    let motor_ids = [11, 12, 13];
    let packet = build_sync_write_torque(&motor_ids, true);

    assert_valid_header(&packet, BROADCAST_ID);

    // Instruction should be SYNC_WRITE (0x83)
    assert_eq!(packet[7], 0x83, "Instruction should be SYNC_WRITE");

    // Address should be TORQUE_ENABLE (64)
    assert_eq!(packet[8], 64);
    assert_eq!(packet[9], 0);

    // Data length should be 1 byte
    assert_eq!(packet[10], 1);
    assert_eq!(packet[11], 0);

    // Each motor should have id + value(1)
    assert_eq!(packet[12], 11); // Motor 11
    assert_eq!(packet[13], 1); // Enable = 1
    assert_eq!(packet[14], 12); // Motor 12
    assert_eq!(packet[15], 1); // Enable = 1
    assert_eq!(packet[16], 13); // Motor 13
    assert_eq!(packet[17], 1); // Enable = 1
}

#[test]
fn test_build_sync_write_torque_disable() {
    let motor_ids = [17, 18];
    let packet = build_sync_write_torque(&motor_ids, false);

    // Torque disable value should be 0
    assert_eq!(packet[13], 0); // First motor value
    assert_eq!(packet[15], 0); // Second motor value
}

#[test]
fn test_build_sync_write_position() {
    let motor_ids = [11, 12];
    let positions = [2048i32, 3000i32]; // Center and offset positions

    let packet = build_sync_write_position(&motor_ids, &positions);

    assert_valid_header(&packet, BROADCAST_ID);

    // Instruction should be SYNC_WRITE (0x83)
    assert_eq!(packet[7], 0x83);

    // Address should be GOAL_POSITION (116)
    assert_eq!(packet[8], 116);
    assert_eq!(packet[9], 0);

    // Data length should be 4 bytes
    assert_eq!(packet[10], 4);
    assert_eq!(packet[11], 0);

    // Motor 11 with position 2048 (0x00000800)
    assert_eq!(packet[12], 11);
    assert_eq!(packet[13], 0x00); // 2048 & 0xFF
    assert_eq!(packet[14], 0x08); // (2048 >> 8) & 0xFF
    assert_eq!(packet[15], 0x00);
    assert_eq!(packet[16], 0x00);

    // Motor 12 with position 3000 (0x00000BB8)
    assert_eq!(packet[17], 12);
    assert_eq!(packet[18], 0xB8); // 3000 & 0xFF
    assert_eq!(packet[19], 0x0B); // (3000 >> 8) & 0xFF
    assert_eq!(packet[20], 0x00);
    assert_eq!(packet[21], 0x00);
}

#[test]
fn test_build_sync_read_temperature() {
    let motor_ids = [11, 12, 13, 14, 15, 16, 17, 18];
    let packet = build_sync_read_temperature(&motor_ids);

    assert_valid_header(&packet, BROADCAST_ID);
    assert_eq!(packet[7], 0x82); // SYNC_READ

    // Address should be PRESENT_TEMPERATURE (146)
    assert_eq!(packet[8], 146);
    assert_eq!(packet[9], 0);

    // Data length should be 1 byte
    assert_eq!(packet[10], 1);
    assert_eq!(packet[11], 0);
}

#[test]
fn test_build_sync_read_load() {
    let motor_ids = [11, 12];
    let packet = build_sync_read_load(&motor_ids);

    assert_valid_header(&packet, BROADCAST_ID);

    // Address should be PRESENT_LOAD (126)
    assert_eq!(packet[8], 126);
    assert_eq!(packet[9], 0);

    // Data length should be 2 bytes
    assert_eq!(packet[10], 2);
    assert_eq!(packet[11], 0);
}

#[test]
fn test_build_sync_read_hardware_error() {
    let motor_ids = [11];
    let packet = build_sync_read_hardware_error(&motor_ids);

    assert_valid_header(&packet, BROADCAST_ID);

    // Address should be HARDWARE_ERROR_STATUS (70)
    assert_eq!(packet[8], 70);
    assert_eq!(packet[9], 0);

    // Data length should be 1 byte
    assert_eq!(packet[10], 1);
    assert_eq!(packet[11], 0);
}

// ----------------------------------------------------------------------------
// Packet Parsing Tests
// ----------------------------------------------------------------------------

#[test]
fn test_parse_position_packets_single() {
    // Simulated status packet for position read
    // Header(4) + ID(1) + Length(2) + Instruction(1) + Error(1) + Data(4) + CRC(2) = 15 bytes
    let packet = vec![
        0xFF, 0xFF, 0xFD, 0x00, // Header
        11,                     // Motor ID
        0x08, 0x00,             // Length (8 = 1 + 1 + 4 + 2)
        0x55,                   // STATUS instruction
        0x00,                   // Error (no error)
        0x00, 0x08, 0x00, 0x00, // Position = 2048 (little-endian)
        0x00, 0x00,             // CRC (placeholder)
    ];

    let results = parse_position_packets(&packet);

    assert_eq!(results.len(), 1, "Should parse one packet");
    assert_eq!(results[0].0, 11, "Motor ID should be 11");
    assert_eq!(results[0].1, 2048, "Position should be 2048");
}

#[test]
fn test_parse_position_packets_multiple() {
    // Two position status packets concatenated
    let packet = vec![
        // First packet - Motor 11, Position 2048
        0xFF, 0xFF, 0xFD, 0x00, 11, 0x08, 0x00, 0x55, 0x00, 0x00, 0x08, 0x00, 0x00, 0x00, 0x00,
        // Second packet - Motor 12, Position 3000 (0x0BB8)
        0xFF, 0xFF, 0xFD, 0x00, 12, 0x08, 0x00, 0x55, 0x00, 0xB8, 0x0B, 0x00, 0x00, 0x00, 0x00,
    ];

    let results = parse_position_packets(&packet);

    assert_eq!(results.len(), 2, "Should parse two packets");
    assert_eq!(results[0].0, 11);
    assert_eq!(results[0].1, 2048);
    assert_eq!(results[1].0, 12);
    assert_eq!(results[1].1, 3000);
}

#[test]
fn test_parse_position_packets_with_garbage() {
    // Packet with some garbage bytes before a valid packet
    let packet = vec![
        0x00, 0x00, 0x00,       // Garbage
        0xFF, 0xFF, 0xFD, 0x00, // Valid header
        13,                     // Motor ID
        0x08, 0x00,             // Length
        0x55,                   // STATUS
        0x00,                   // Error
        0x00, 0x10, 0x00, 0x00, // Position = 4096
        0x00, 0x00,             // CRC
    ];

    let results = parse_position_packets(&packet);

    assert_eq!(results.len(), 1);
    assert_eq!(results[0].0, 13);
    assert_eq!(results[0].1, 4096);
}

#[test]
fn test_parse_1byte_packets() {
    // Temperature status packet
    // Length = 5 for 1-byte data (instr + err + data + crc)
    let packet = vec![
        0xFF, 0xFF, 0xFD, 0x00, // Header
        14,                     // Motor ID
        0x05, 0x00,             // Length (5)
        0x55,                   // STATUS
        0x00,                   // Error (no error)
        42,                     // Temperature = 42°C
        0x00, 0x00,             // CRC
    ];

    let results = parse_1byte_packets(&packet);

    assert_eq!(results.len(), 1);
    assert_eq!(results[0].0, 14, "Motor ID");
    assert_eq!(results[0].1, 42, "Temperature");
}

#[test]
fn test_parse_1byte_packets_with_error_skipped() {
    // Packet with motor error - should be skipped by parse_1byte_packets
    let packet = vec![
        0xFF, 0xFF, 0xFD, 0x00, 15, 0x05, 0x00, 0x55, 0x04, // Error = 0x04 (overheating)
        50, 0x00, 0x00,
    ];

    let results = parse_1byte_packets(&packet);
    assert_eq!(results.len(), 0, "Error packets should be skipped");
}

#[test]
fn test_parse_1byte_packets_with_errors_included() {
    // Same packet but using parse_1byte_packets_with_errors
    let packet = vec![
        0xFF, 0xFF, 0xFD, 0x00, 15, 0x05, 0x00, 0x55, 0x04, // Error = 0x04
        50, 0x00, 0x00,
    ];

    let results = parse_1byte_packets_with_errors(&packet);
    assert_eq!(results.len(), 1, "Error packets should be included");
    assert_eq!(results[0].0, 15);
    assert_eq!(results[0].1, 50);
}

#[test]
fn test_parse_2byte_signed_packets() {
    // Load status packet
    // Length = 6 for 2-byte data
    let packet = vec![
        0xFF, 0xFF, 0xFD, 0x00, // Header
        16,                     // Motor ID
        0x06, 0x00,             // Length (6)
        0x55,                   // STATUS
        0x00,                   // Error
        0x64, 0x00,             // Load = 100 (little-endian)
        0x00, 0x00,             // CRC
    ];

    let results = parse_2byte_signed_packets(&packet);

    assert_eq!(results.len(), 1);
    assert_eq!(results[0].0, 16);
    assert_eq!(results[0].1, 100);
}

#[test]
fn test_parse_2byte_signed_packets_negative() {
    // Negative load value (-100 = 0xFF9C)
    let packet = vec![
        0xFF, 0xFF, 0xFD, 0x00, 17, 0x06, 0x00, 0x55, 0x00, 0x9C, 0xFF, // -100 little-endian
        0x00, 0x00,
    ];

    let results = parse_2byte_signed_packets(&packet);

    assert_eq!(results.len(), 1);
    assert_eq!(results[0].0, 17);
    assert_eq!(results[0].1, -100);
}

#[test]
fn test_parse_status_packet() {
    // Position status packet at offset 0
    let packet = vec![
        0xFF, 0xFF, 0xFD, 0x00, 18, 0x08, 0x00, 0x55, 0x00, 0x00, 0x0C, 0x00, 0x00, // Pos = 3072
        0x00, 0x00,
    ];

    let result = parse_status_packet(&packet, 0);
    assert!(result.is_ok());

    let (id, pos) = result.unwrap();
    assert_eq!(id, 18);
    assert_eq!(pos, 3072);
}

// ----------------------------------------------------------------------------
// Edge Cases and Error Handling
// ----------------------------------------------------------------------------

#[test]
fn test_parse_empty_buffer() {
    let results = parse_position_packets(&[]);
    assert!(results.is_empty());
}

#[test]
fn test_parse_truncated_packet() {
    // Packet that starts valid but is truncated
    let packet = vec![0xFF, 0xFF, 0xFD, 0x00, 11, 0x08, 0x00, 0x55];

    let results = parse_position_packets(&packet);
    assert!(results.is_empty(), "Truncated packet should not parse");
}

#[test]
fn test_parse_wrong_instruction() {
    // Packet with wrong instruction (not STATUS)
    let packet = vec![
        0xFF, 0xFF, 0xFD, 0x00, 11, 0x08, 0x00, 0x02, // READ instead of STATUS
        0x00, 0x00, 0x08, 0x00, 0x00, 0x00, 0x00,
    ];

    let results = parse_position_packets(&packet);
    assert!(results.is_empty(), "Wrong instruction should not parse");
}

#[test]
fn test_broadcast_id_constant() {
    assert_eq!(BROADCAST_ID, 0xFE);
}

#[test]
fn test_address_constants() {
    assert_eq!(address::TORQUE_ENABLE, 64);
    assert_eq!(address::HARDWARE_ERROR_STATUS, 70);
    assert_eq!(address::GOAL_POSITION, 116);
    assert_eq!(address::PRESENT_LOAD, 126);
    assert_eq!(address::PRESENT_POSITION, 132);
    assert_eq!(address::PRESENT_TEMPERATURE, 146);
}
