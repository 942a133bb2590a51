use vm_snapshot::snapshot::serial_state::{
    decode_serial_state, encode_serial_state, SerialState, SerialStateError,
};

/// A 16550A after a reset.
fn after_reset() -> SerialState {
    let mut s = SerialState::cleared();
    s.baud_divisor_low = 0x0c;
    s.interrupt_identification = 0x01;
    s.line_control = 0x03;
    s.line_status = 0x60;
    s.modem_control = 0x08;
    s.modem_status = 0xb0;
    s
}

#[test]
fn round_trip_default_state() {
    for s in [after_reset(), SerialState::cleared()] {
        let bytes = encode_serial_state(&s);
        let back = decode_serial_state(&bytes).unwrap().unwrap();
        assert_eq!(back.baud_divisor_low, s.baud_divisor_low);
        assert_eq!(back.baud_divisor_high, s.baud_divisor_high);
        assert_eq!(back.interrupt_enable, s.interrupt_enable);
        assert_eq!(back.interrupt_identification, s.interrupt_identification);
        assert_eq!(back.line_control, s.line_control);
        assert_eq!(back.line_status, s.line_status);
        assert_eq!(back.modem_control, s.modem_control);
        assert_eq!(back.modem_status, s.modem_status);
        assert_eq!(back.scratch, s.scratch);
        assert!(back.in_buffer.is_empty());
    }
}

#[test]
fn cleared_state_is_all_zero() {
    assert_eq!(encode_serial_state(&SerialState::cleared()), vec![0u8; 13]);
}

#[test]
fn round_trip_with_fifo() {
    let mut s = after_reset();
    s.interrupt_enable = 0x01; // ERBFI
    s.line_control = 0x03;
    s.in_buffer = vec![b'a', b'b', b'c', b'\n'];
    let bytes = encode_serial_state(&s);
    let back = decode_serial_state(&bytes).unwrap().unwrap();
    assert_eq!(back.interrupt_enable, 0x01);
    assert_eq!(back.line_control, 0x03);
    assert_eq!(back.in_buffer, vec![b'a', b'b', b'c', b'\n']);
}

#[test]
fn empty_input_decodes_to_none() {
    assert!(decode_serial_state(&[]).unwrap().is_none());
}

#[test]
fn serial_state_truncated_input_errors() {
    assert!(decode_serial_state(&[0u8; 5]).is_err());
}

#[test]
fn serial_bytes_are_registers_length_and_fifo() {
    let s = SerialState {
        baud_divisor_low: 1,
        baud_divisor_high: 2,
        interrupt_enable: 3,
        interrupt_identification: 4,
        line_control: 5,
        line_status: 6,
        modem_control: 7,
        modem_status: 8,
        scratch: 9,
        in_buffer: vec![b'x', b'y'],
    };
    let bytes = encode_serial_state(&s);
    assert_eq!(bytes, vec![1, 2, 3, 4, 5, 6, 7, 8, 9, 2, 0, 0, 0, b'x', b'y']);
    assert_eq!(decode_serial_state(&bytes).unwrap().unwrap(), s);
}

#[test]
fn serial_refusals_name_the_lengths() {
    assert_eq!(
        decode_serial_state(&[0u8; 12]),
        Err(SerialStateError::TooShort { have: 12 })
    );
    let mut big = vec![0u8; 13];
    big[9..13].copy_from_slice(&65537u32.to_le_bytes());
    assert_eq!(
        decode_serial_state(&big),
        Err(SerialStateError::TooLarge { len: 65537 })
    );
    let mut short = vec![0u8; 14];
    short[9] = 4;
    assert_eq!(
        decode_serial_state(&short),
        Err(SerialStateError::Truncated { have: 14, need: 17 })
    );
}

#[test]
fn serial_refusals_say_what_they_should() {
    assert_eq!(
        SerialStateError::TooShort { have: 12 }.message(),
        "serial state blob too short: 12 bytes"
    );
    assert_eq!(
        SerialStateError::TooLarge { len: 65537 }.message(),
        "serial state in_buffer too large: 65537 bytes"
    );
    assert_eq!(
        SerialStateError::Truncated { have: 14, need: 17 }.message(),
        "serial state truncated: have 14, need 17"
    );
}

#[test]
fn fifo_at_the_limit_round_trips_and_one_more_is_refused() {
    let mut s = after_reset();
    s.in_buffer = vec![7u8; 65536];
    assert_eq!(decode_serial_state(&encode_serial_state(&s)).unwrap().unwrap(), s);
    s.in_buffer.push(7);
    assert_eq!(
        decode_serial_state(&encode_serial_state(&s)),
        Err(SerialStateError::TooLarge { len: 65537 })
    );
}
