use vm_snapshot::snapshot::virtio_net_state::{
    decode, decode_specs, encode, QueueState, VirtioNetDeviceState, VirtioNetState, VirtioNetStateError,
};

#[test]
fn round_trip_empty() {
    let s = VirtioNetState::default();
    let bytes = encode(&s);
    assert_eq!(bytes, vec![0, 0, 0, 0]); // device_count = 0
    let back = decode(&bytes).unwrap();
    assert_eq!(back, s);
}

#[test]
fn empty_input_decodes_to_default() {
    let back = decode(&[]).unwrap();
    assert_eq!(back, VirtioNetState::default());
}

#[test]
fn round_trip_single_device_with_mac() {
    let s = VirtioNetState {
        devices: vec![VirtioNetDeviceState {
            iface_id: "eth0".into(),
            host_dev_name: "tap-actor0".into(),
            guest_mac: Some([0x52, 0x54, 0x00, 0x12, 0x34, 0x56]),
            num_queues: 2,
            queue_size: 256,
            acked_features: 0,
            queues: vec![],
        }],
    };
    let back = decode(&encode(&s)).unwrap();
    assert_eq!(back, s);
}

#[test]
fn round_trip_multiple_devices_mixed_mac() {
    let s = VirtioNetState {
        devices: vec![
            VirtioNetDeviceState {
                iface_id: "eth0".into(),
                host_dev_name: "tap-a".into(),
                guest_mac: Some([0xaa; 6]),
                num_queues: 2,
                queue_size: 128,
                acked_features: 0,
                queues: vec![],
            },
            VirtioNetDeviceState {
                iface_id: "eth1".into(),
                host_dev_name: "tap-b".into(),
                guest_mac: None,
                num_queues: 2,
                queue_size: 256,
                acked_features: 0,
                queues: vec![],
            },
        ],
    };
    let back = decode(&encode(&s)).unwrap();
    assert_eq!(back, s);
}

#[test]
fn virtio_net_state_truncated_input_errors() {
    // Claim 1 device but supply only the count.
    let bytes = vec![1u8, 0, 0, 0];
    assert!(decode(&bytes).is_err());
}

#[test]
fn oversize_string_len_errors() {
    // device_count=1, iface_id_len=u32::MAX, no bytes.
    let mut bytes = vec![1u8, 0, 0, 0];
    bytes.extend_from_slice(&u32::MAX.to_le_bytes());
    assert!(decode(&bytes).is_err());
}

#[test]
fn round_trip_device_with_active_queues() {
    // A live device: rx + tx with EVENT_IDX
    // enabled, partially advanced cursors, distinct ring GPAs.
    let s = VirtioNetState {
        devices: vec![VirtioNetDeviceState {
            iface_id: "eth0".into(),
            host_dev_name: "tap-actor0".into(),
            guest_mac: Some([0x52, 0x54, 0x00, 0x12, 0x34, 0x56]),
            num_queues: 2,
            queue_size: 256,
            acked_features: 0x1_0000_002F,
            queues: vec![
                QueueState {
                    index: 0,
                    size: 256,
                    ready: true,
                    event_idx_enabled: true,
                    next_avail: 17,
                    next_used: 17,
                    desc_table: 0x1_0000_0000,
                    avail_ring: 0x1_0000_1000,
                    used_ring: 0x1_0000_2000,
                },
                QueueState {
                    index: 1,
                    size: 256,
                    ready: true,
                    event_idx_enabled: true,
                    next_avail: 3,
                    next_used: 3,
                    desc_table: 0x1_0000_3000,
                    avail_ring: 0x1_0000_4000,
                    used_ring: 0x1_0000_5000,
                },
            ],
        }],
    };
    let back = decode(&encode(&s)).unwrap();
    assert_eq!(back, s);
}

#[test]
fn round_trip_queue_cursor_wrap_boundary() {
    // Cursors are free-running u16s. Verify u16::MAX round-trips
    // cleanly (the restore path will mask down to queue size).
    let s = VirtioNetState {
        devices: vec![VirtioNetDeviceState {
            iface_id: "eth0".into(),
            host_dev_name: "tap-x".into(),
            guest_mac: None,
            num_queues: 2,
            queue_size: 256,
            acked_features: u64::MAX,
            queues: vec![QueueState {
                index: 0,
                size: 256,
                ready: true,
                event_idx_enabled: false,
                next_avail: u16::MAX,
                next_used: u16::MAX - 1,
                desc_table: u64::MAX - 0x1000,
                avail_ring: u64::MAX - 0x800,
                used_ring: u64::MAX - 0x400,
            }],
        }],
    };
    let back = decode(&encode(&s)).unwrap();
    assert_eq!(back, s);
}

fn sample_device() -> VirtioNetDeviceState {
    VirtioNetDeviceState {
        iface_id: "e".into(),
        host_dev_name: "t".into(),
        guest_mac: Some([1, 2, 3, 4, 5, 6]),
        num_queues: 2,
        queue_size: 0x0102,
        acked_features: 0x0807_0605_0403_0201,
        queues: vec![QueueState {
            index: 1,
            size: 256,
            ready: true,
            event_idx_enabled: false,
            next_avail: 7,
            next_used: 9,
            desc_table: 0x10,
            avail_ring: 0x20,
            used_ring: 0x30,
        }],
    }
}

#[test]
fn envelope_bytes_are_laid_out_field_by_field() {
    let bytes = encode(&VirtioNetState { devices: vec![sample_device()] });
    let expected: Vec<u8> = vec![
        1, 0, 0, 0, // device_count
        1, 0, 0, 0, b'e', // iface_id
        1, 0, 0, 0, b't', // host_dev_name
        1, 1, 2, 3, 4, 5, 6, // guest_mac
        2, // num_queues
        2, 1, // queue_size
        1, 2, 3, 4, 5, 6, 7, 8, // acked_features
        1, 0, 0, 0, // queue_count
        1, 0, 0, 1, 1, 0, 7, 0, 9, 0, // index, size, ready, event_idx, cursors
        0x10, 0, 0, 0, 0, 0, 0, 0, // desc_table
        0x20, 0, 0, 0, 0, 0, 0, 0, // avail_ring
        0x30, 0, 0, 0, 0, 0, 0, 0, // used_ring
    ];
    assert_eq!(bytes, expected);
}

#[test]
fn every_strict_prefix_of_an_envelope_is_refused() {
    let bytes = encode(&VirtioNetState { devices: vec![sample_device()] });
    for n in 1..bytes.len() {
        assert!(decode(&bytes[..n]).is_err(), "prefix of {n} bytes");
    }
    assert_eq!(decode(&bytes).unwrap().devices, vec![sample_device()]);
}

#[test]
fn truncation_names_the_field_and_its_place() {
    assert_eq!(
        decode(&[1, 0, 0]),
        Err(VirtioNetStateError::Truncated { need: 4, offset: 0 })
    );
    assert_eq!(
        decode(&[1, 0, 0, 0, 5, 0, 0, 0, b'a']),
        Err(VirtioNetStateError::Truncated { need: 5, offset: 8 })
    );
    let bytes = encode(&VirtioNetState { devices: vec![sample_device()] });
    // The queue record starts at 36; its used ring, the last field, at 62.
    assert_eq!(
        decode(&bytes[..69]),
        Err(VirtioNetStateError::Truncated { need: 8, offset: 62 })
    );
}

#[test]
fn text_that_is_not_utf8_is_refused() {
    let bytes = vec![1u8, 0, 0, 0, 2, 0, 0, 0, 0xc3, 0x28];
    assert_eq!(decode(&bytes), Err(VirtioNetStateError::NonUtf8(vec![0xc3, 0x28])));
}

#[test]
fn host_name_that_is_not_utf8_is_refused() {
    let mut bytes = encode(&VirtioNetState { devices: vec![sample_device(), sample_device()] });
    let second = 4 + (bytes.len() - 4) / 2;
    let name = second + 4 + sample_device().iface_id.len() + 4;
    bytes[name] = 0xff;
    let mut raw = sample_device().host_dev_name.into_bytes();
    raw[0] = 0xff;
    assert_eq!(decode(&bytes), Err(VirtioNetStateError::NonUtf8(raw)));
}

#[test]
fn envelopes_without_live_state_hold_the_spec_alone() {
    let bytes = encode(&VirtioNetState { devices: vec![sample_device()] });
    let device = sample_device();
    let end = 4 + 4 + device.iface_id.len() + 4 + device.host_dev_name.len() + 10;
    let mut spec = device.clone();
    spec.acked_features = 0;
    spec.queues.clear();
    assert_eq!(decode_specs(&bytes[..end]).unwrap().devices, vec![spec]);
    for n in 1..end {
        assert!(decode_specs(&bytes[..n]).is_err(), "prefix of {n} bytes");
    }
    assert_eq!(decode_specs(&[]).unwrap(), VirtioNetState::default());
    // With live state expected, the record is incomplete.
    assert_eq!(
        decode(&bytes[..end]),
        Err(VirtioNetStateError::Truncated { need: 8, offset: end })
    );
}

#[test]
fn envelope_refusals_say_what_they_should() {
    assert_eq!(
        VirtioNetStateError::Truncated { need: 8, offset: 62 }.message(),
        "virtio-net state truncated: need 8 more bytes at offset 62"
    );
    let raw = vec![b'a', 0xc3, 0x28];
    let why = std::str::from_utf8(&raw).unwrap_err().to_string();
    assert_eq!(
        VirtioNetStateError::NonUtf8(raw).message(),
        format!("non-UTF-8 string: {why}")
    );
    assert_eq!(why, "invalid utf-8 sequence of 1 bytes from index 1");
}

#[test]
fn text_beyond_ascii_round_trips() {
    let mut device = sample_device();
    device.iface_id = "ethé-網".into();
    let s = VirtioNetState { devices: vec![device] };
    assert_eq!(decode(&encode(&s)).unwrap(), s);
}

#[test]
fn absent_mac_is_zero_filled_and_other_markers_mean_absent() {
    let mut device = sample_device();
    device.guest_mac = None;
    let mut bytes = encode(&VirtioNetState { devices: vec![device] });
    assert_eq!(bytes[14..21], [0u8; 7]);
    bytes[14] = 2;
    assert_eq!(decode(&bytes).unwrap().devices[0].guest_mac, None);
}

#[test]
fn bytes_behind_the_envelope_are_ignored() {
    let mut bytes = encode(&VirtioNetState { devices: vec![sample_device()] });
    bytes.push(0xff);
    assert_eq!(decode(&bytes).unwrap().devices, vec![sample_device()]);
}

#[test]
fn different_states_have_different_envelopes() {
    let mut other = sample_device();
    other.queues[0].next_used = 10;
    assert_ne!(
        encode(&VirtioNetState { devices: vec![sample_device()] }),
        encode(&VirtioNetState { devices: vec![other] })
    );
}
