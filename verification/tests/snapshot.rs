use std::path::PathBuf;

use vm_snapshot::snapshot::metadata::{
    SnapshotKind, MAGIC, MAGIC_TRAILER, SNAPSHOT_FORMAT_VERSION, SNAPSHOT_PAGE_SIZE,
};
use vm_snapshot::snapshot::reader::{
    read_len_prefixed, RegionLocation, RegionStream, SnapshotReader, Source, CHUNK_LEN,
};
use vm_snapshot::snapshot::serial_state::LegacyDeviceState;
use vm_snapshot::snapshot::vcpu_state::VcpuStateData;
use vm_snapshot::snapshot::virtio_net_state::{
    encode, VirtioNetDeviceState, VirtioNetState, VirtioNetStateError,
};
use vm_snapshot::snapshot::vm_state::VmStateData;
use vm_snapshot::snapshot::{
    align_up, diff_snapshot_against, dirty_bitmap_bytes_for_region, hash_file_sha256, layout_fits,
    write_diff_snapshot_phase1, write_golden_snapshot, write_len_prefixed, write_snapshot,
    write_v9_common_header, write_zero_pad, FaultClass, MemoryRegionDescriptor, RestoreConfig,
    SnapshotConfig, SnapshotError, SnapshotFault, WriteStep,
};

fn render(steps: &[WriteStep], payloads: &[Vec<u8>]) -> Vec<u8> {
    let mut out = Vec::new();
    for step in steps {
        match step {
            WriteStep::Bytes(b) => out.extend_from_slice(b),
            WriteStep::RegionPayload(i) => out.extend_from_slice(&payloads[*i]),
            WriteStep::Zeros(n) => out.resize(out.len() + *n as usize, 0),
        }
    }
    out
}

fn fault(r: Result<SnapshotReader, SnapshotError>) -> SnapshotFault {
    match r {
        Err(SnapshotError::Io(fault)) => fault,
        other => panic!("expected a fault, got {other:?}"),
    }
}

fn open(data: &[u8]) -> Result<SnapshotReader, SnapshotError> {
    SnapshotReader::open(PathBuf::from("snap"), data)
}

fn full_vcpu(id: u8) -> VcpuStateData {
    VcpuStateData {
        vcpu_id: id,
        regs: vec![id, 1],
        sregs: vec![2; 3],
        msrs: vec![3; 16],
        cpuid_entries: vec![4; 40],
        lapic: vec![5],
        xsave: vec![6; 9],
        vcpu_events: vec![7, 7],
        mp_state: vec![8],
        xcrs: vec![9; 5],
    }
}

fn full_vm() -> VmStateData {
    VmStateData {
        pic_master: vec![1],
        pic_slave: vec![2, 2],
        ioapic: vec![3, 3, 3],
        pit2: vec![4; 4],
        clock: vec![5; 5],
    }
}

fn full_net() -> VirtioNetState {
    VirtioNetState {
        devices: vec![VirtioNetDeviceState {
            iface_id: "eth0".into(),
            host_dev_name: "tap0".into(),
            guest_mac: Some([9; 6]),
            num_queues: 2,
            queue_size: 256,
            acked_features: 5,
            queues: vec![],
        }],
    }
}

fn one_region(size: u64) -> Vec<MemoryRegionDescriptor> {
    vec![MemoryRegionDescriptor { guest_phys_addr: 0x1000, size }]
}

fn full_golden(payload: &[u8]) -> Vec<u8> {
    let legacy = LegacyDeviceState { com1: vec![1, 2], com2: vec![] };
    let (_, steps) = write_golden_snapshot(
        &[full_vcpu(0), full_vcpu(1)],
        &full_vm(),
        &legacy,
        &full_net(),
        &one_region(payload.len() as u64),
    );
    render(&steps, &[payload.to_vec()])
}

#[test]
fn diff_snapshot_round_trips_parent_sha256() {
    let golden_path = PathBuf::from("golden.snap");
    let diff_path = PathBuf::from("diff.snap");

    let vcpus = vec![VcpuStateData::default()];
    let vm_state = VmStateData::default();
    let legacy_state = LegacyDeviceState::default();
    let virtio_net_state = VirtioNetState::default();
    let regions = vec![MemoryRegionDescriptor { guest_phys_addr: 0, size: 4096 }];

    // A golden snapshot with a single 4 KiB region of zeros.
    let golden_cfg = SnapshotConfig::golden(golden_path.clone());
    let (golden_meta, golden_steps) = write_snapshot(
        &golden_cfg,
        &vcpus,
        &vm_state,
        &legacy_state,
        &virtio_net_state,
        &regions,
        &[],
    )
    .expect("golden write");
    let golden_file = render(&golden_steps, &[vec![0u8; 4096]]);
    assert_eq!(golden_meta.kind, SnapshotKind::Golden);
    assert_eq!(golden_meta.parent_sha256, [0u8; 32]);
    let expected_parent_hash = hash_file_sha256(&golden_file);

    // A diff snapshot against the golden file.
    let diff_cfg = SnapshotConfig::diff(diff_path.clone(), golden_path.clone());
    let (diff_meta, diff_steps) = write_snapshot(
        &diff_cfg,
        &vcpus,
        &vm_state,
        &legacy_state,
        &virtio_net_state,
        &regions,
        &golden_file,
    )
    .expect("diff write");
    let diff_file = render(&diff_steps, &[]);
    assert_eq!(diff_meta.kind, SnapshotKind::Diff);
    assert_eq!(diff_meta.parent_sha256, expected_parent_hash);

    // Round-trip read.
    let golden_reader = SnapshotReader::open(golden_path, &golden_file).expect("open golden");
    assert_eq!(golden_reader.kind, SnapshotKind::Golden);
    assert_eq!(golden_reader.parent_sha256, [0u8; 32]);
    assert_eq!(golden_reader.format_version, SNAPSHOT_FORMAT_VERSION);

    let diff_reader = SnapshotReader::open(diff_path, &diff_file).expect("open diff");
    assert_eq!(diff_reader.kind, SnapshotKind::Diff);
    assert_eq!(diff_reader.parent_sha256, expected_parent_hash);
    assert_eq!(diff_reader.format_version, SNAPSHOT_FORMAT_VERSION);
}

#[test]
fn constants_spell_what_they_should() {
    assert_eq!(&MAGIC, b"ATEOMSN1");
    assert_eq!(&MAGIC_TRAILER, b"END!");
    assert_eq!(SNAPSHOT_FORMAT_VERSION, 9);
    assert_eq!(SNAPSHOT_PAGE_SIZE, 4096);
}

#[test]
fn kinds_and_wire_bytes_correspond() {
    assert_eq!(SnapshotKind::Golden.as_u8(), 0);
    assert_eq!(SnapshotKind::Diff.as_u8(), 1);
    assert_eq!(SnapshotKind::from_u8(0), Some(SnapshotKind::Golden));
    assert_eq!(SnapshotKind::from_u8(1), Some(SnapshotKind::Diff));
    assert_eq!(SnapshotKind::from_u8(2), None);
    assert_eq!(SnapshotKind::from_u8(255), None);
}

#[test]
fn configs_name_kind_and_paths() {
    let golden = SnapshotConfig::golden(PathBuf::from("/a"));
    assert_eq!(golden.kind, SnapshotKind::Golden);
    assert_eq!(golden.snapshot_path, PathBuf::from("/a"));
    assert_eq!(golden.parent_golden_path, None);
    let diff = SnapshotConfig::diff(PathBuf::from("/b"), PathBuf::from("/a"));
    assert_eq!(diff.kind, SnapshotKind::Diff);
    assert_eq!(diff.snapshot_path, PathBuf::from("/b"));
    assert_eq!(diff.parent_golden_path, Some(PathBuf::from("/a")));
    assert_eq!(diff.clone(), diff);
    assert_eq!(golden.clone(), golden);
    let restore = RestoreConfig { snapshot_path: PathBuf::from("/c") };
    assert_eq!(restore.clone(), restore);
    assert_eq!(restore.snapshot_path, PathBuf::from("/c"));
}

#[test]
fn hash_is_sha256() {
    // SHA-256 of "abc".
    let expected: [u8; 32] = [
        0xba, 0x78, 0x16, 0xbf, 0x8f, 0x01, 0xcf, 0xea, 0x41, 0x41, 0x40, 0xde, 0x5d, 0xae, 0x22,
        0x23, 0xb0, 0x03, 0x61, 0xa3, 0x96, 0x17, 0x7a, 0x9c, 0xb4, 0x10, 0xff, 0x61, 0xf2, 0x00,
        0x15, 0xad,
    ];
    assert_eq!(hash_file_sha256(b"abc"), expected);
}

#[test]
fn alignment_and_bitmap_sizes() {
    assert_eq!(align_up(0, 4096), 0);
    assert_eq!(align_up(1, 4096), 4096);
    assert_eq!(align_up(4096, 4096), 4096);
    assert_eq!(align_up(4097, 4096), 8192);
    assert_eq!(align_up(13, 8), 16);
    assert_eq!(dirty_bitmap_bytes_for_region(0), 0);
    assert_eq!(dirty_bitmap_bytes_for_region(1), 8);
    assert_eq!(dirty_bitmap_bytes_for_region(64 * 4096), 8);
    assert_eq!(dirty_bitmap_bytes_for_region(64 * 4096 + 1), 16);
    assert_eq!(dirty_bitmap_bytes_for_region(u64::MAX), 1 << 49);
}

#[test]
fn small_writers_append() {
    let mut w = vec![0xaau8];
    write_zero_pad(&mut w, 3);
    assert_eq!(w, vec![0xaa, 0, 0, 0]);
    write_zero_pad(&mut w, 0);
    assert_eq!(w.len(), 4);
    let mut w = Vec::new();
    write_len_prefixed(&mut w, &[7, 8]);
    assert_eq!(w, vec![2, 0, 0, 0, 7, 8]);
    let mut w = Vec::new();
    write_v9_common_header(&mut w, SnapshotKind::Diff, 3, 0x0102, &[5u8; 32]);
    assert_eq!(w.len(), 56);
    assert_eq!(&w[..8], b"ATEOMSN1");
    assert_eq!(w[8..16], [9, 0, 0, 0, 3, 1, 0, 0]);
    assert_eq!(w[16..24], [2, 1, 0, 0, 0, 0, 0, 0]);
    assert_eq!(w[24..56], [5u8; 32]);
}

#[test]
fn header_stands_at_the_documented_offsets() {
    let file = full_golden(&[1u8; 10]);
    assert_eq!(&file[0..8], b"ATEOMSN1");
    assert_eq!(file[8..12], [9, 0, 0, 0]);
    assert_eq!(file[12], 2);
    assert_eq!(file[13], 0);
    assert_eq!(file[14..16], [0, 0]);
    assert_eq!(file[16..24], [10, 0, 0, 0, 0, 0, 0, 0]);
    assert_eq!(file[24..56], [0u8; 32]);
    assert_eq!(file[56], 0);
    assert_eq!(file[57..63], [2, 0, 0, 0, 0, 1]);
}

#[test]
fn golden_gives_back_everything_written() {
    let payload: Vec<u8> = (0..5000u32).map(|i| (i % 251) as u8).collect();
    let file = full_golden(&payload);
    let mut reader = open(&file).unwrap();
    assert_eq!(reader.path, PathBuf::from("snap"));
    assert_eq!(reader.vcpu_count, 2);
    assert_eq!(reader.mem_size_bytes, 5000);
    for (i, got) in reader.vcpu_states.iter().enumerate() {
        let want = full_vcpu(i as u8);
        assert_eq!(got.vcpu_id, want.vcpu_id);
        assert_eq!(got.regs, want.regs);
        assert_eq!(got.sregs, want.sregs);
        assert_eq!(got.msrs, want.msrs);
        assert_eq!(got.cpuid_entries, want.cpuid_entries);
        assert_eq!(got.lapic, want.lapic);
        assert_eq!(got.xsave, want.xsave);
        assert_eq!(got.vcpu_events, want.vcpu_events);
        assert_eq!(got.mp_state, want.mp_state);
        assert_eq!(got.xcrs, want.xcrs);
    }
    assert_eq!(reader.vm_state.pic_master, full_vm().pic_master);
    assert_eq!(reader.vm_state.pic_slave, full_vm().pic_slave);
    assert_eq!(reader.vm_state.ioapic, full_vm().ioapic);
    assert_eq!(reader.vm_state.pit2, full_vm().pit2);
    assert_eq!(reader.vm_state.clock, full_vm().clock);
    assert_eq!(reader.legacy_state.com1, vec![1, 2]);
    assert!(reader.legacy_state.com2.is_empty());
    assert_eq!(reader.virtio_net_state, full_net());
    assert_eq!(reader.regions, one_region(5000));

    let places = reader.regions_for_mmap();
    assert_eq!(places.len(), 1);
    let offset = places[0].file_offset as usize;
    assert_eq!(offset % 4096, 0);
    assert_eq!(&file[offset..offset + 5000], payload.as_slice());
    assert_eq!(
        MemoryRegionDescriptor::from(places[0]),
        MemoryRegionDescriptor { guest_phys_addr: 0x1000, size: 5000 }
    );

    let (region, got) = reader.read_next_region(&file).unwrap();
    assert_eq!(region, one_region(5000)[0]);
    assert_eq!(got, payload);
    assert_eq!(
        reader.read_next_region(&file),
        Err(SnapshotError::Io(SnapshotFault::NoMoreRegions))
    );
    assert!(reader.check_trailer(&file).is_ok());
    assert_eq!(file.len() % 4096, 4);
}

#[test]
fn region_read_from_a_cut_file_stays_the_next_one() {
    let file = full_golden(&[3u8; 100]);
    let mut reader = open(&file).unwrap();
    let offset = reader.regions_for_mmap()[0].file_offset as usize;
    assert_eq!(
        reader.read_next_region(&file[..offset + 99]),
        Err(SnapshotError::Io(SnapshotFault::UnexpectedEof))
    );
    assert_eq!(reader.read_next_region(&file).unwrap().1, vec![3u8; 100]);
}

#[test]
fn regions_stream_in_chunks() {
    let mut stream = RegionStream {
        region: MemoryRegionDescriptor { guest_phys_addr: 0, size: CHUNK_LEN * 2 + 5 },
        offset: 4096,
        remaining: CHUNK_LEN * 2 + 5,
    };
    assert_eq!(stream.next_chunk(), Some((4096, CHUNK_LEN)));
    assert_eq!(stream.next_chunk(), Some((4096 + CHUNK_LEN, CHUNK_LEN)));
    assert_eq!(stream.next_chunk(), Some((4096 + 2 * CHUNK_LEN, 5)));
    assert_eq!(stream.next_chunk(), None);
    assert_eq!(CHUNK_LEN, 1 << 20);
}

#[test]
fn streamed_region_is_started_and_finished() {
    let file = full_golden(&[3u8; 100]);
    let mut reader = open(&file).unwrap();
    let stream = reader.start_region().unwrap();
    assert_eq!(stream.remaining, 100);
    assert_eq!(stream.offset, reader.region_offsets[0]);
    reader.finish_region();
    assert_eq!(
        reader.start_region(),
        Err(SnapshotError::Io(SnapshotFault::NoMoreRegions))
    );
}

#[test]
fn diff_body_is_an_empty_bitmap() {
    let size = 65 * 4096;
    let (meta, steps) = diff_snapshot_against(
        [7u8; 32],
        &[full_vcpu(0)],
        &full_vm(),
        &LegacyDeviceState::default(),
        &full_net(),
        &one_region(size),
    );
    assert_eq!(meta.parent_sha256, [7u8; 32]);
    assert_eq!(meta.mem_size_bytes, size);
    assert_eq!(meta.vcpu_count, 1);
    let file = render(&steps, &[]);
    let reader = open(&file).unwrap();
    assert_eq!(reader.kind, SnapshotKind::Diff);
    assert_eq!(reader.parent_sha256, [7u8; 32]);
    assert_eq!(reader.virtio_net_state, full_net());
    let at = reader.regions_for_mmap()[0].file_offset as usize;
    assert_eq!(file[at..at + 16], [0u8; 16]);
    assert_eq!(file.len(), at + 4096 + 4);
    assert!(reader.check_trailer(&file[file.len() - 4..]).is_ok());
}

#[test]
fn diff_without_a_parent_is_refused() {
    let cfg = SnapshotConfig {
        snapshot_path: PathBuf::from("d"),
        kind: SnapshotKind::Diff,
        parent_golden_path: None,
    };
    let r = write_diff_snapshot_phase1(
        &cfg,
        &[],
        &VmStateData::default(),
        &LegacyDeviceState::default(),
        &VirtioNetState::default(),
        &[],
        &[],
    );
    assert_eq!(r, Err(SnapshotError::Io(SnapshotFault::MissingParentPath)));
    assert_eq!(SnapshotFault::MissingParentPath.class(), FaultClass::InvalidInput);
}

#[test]
fn several_regions_are_placed_apart_but_not_opened() {
    let regions = vec![
        MemoryRegionDescriptor { guest_phys_addr: 0, size: 10 },
        MemoryRegionDescriptor { guest_phys_addr: 0x10000, size: 4097 },
        MemoryRegionDescriptor { guest_phys_addr: 0x20000, size: 0 },
    ];
    let (meta, steps) = write_golden_snapshot(
        &[],
        &VmStateData::default(),
        &LegacyDeviceState::default(),
        &VirtioNetState::default(),
        &regions,
    );
    assert_eq!(meta.mem_size_bytes, 4107);
    let file = render(&steps, &[vec![1; 10], vec![2; 4097], vec![]]);
    // Header of 172 bytes, one page; then one page, two pages, none; then the trailer.
    assert_eq!(file.len(), 4096 * 4 + 4);
    assert_eq!(file[4096..4106], [1u8; 10]);
    assert_eq!(file[4106], 0);
    assert_eq!(file[8192..8192 + 4097], [2u8; 4097]);
    assert_eq!(fault(open(&file)), SnapshotFault::RegionCount(3));
}

#[test]
fn prefix_with_the_header_opens_and_a_shorter_one_does_not() {
    let file = full_golden(&[0u8; 8192]);
    let mut needed = 0;
    for n in 0..4096 {
        match open(&file[..n]) {
            Ok(reader) => {
                assert_eq!(reader.virtio_net_state, full_net());
                needed = n;
                break;
            }
            Err(e) => assert_eq!(e, SnapshotError::Io(SnapshotFault::UnexpectedEof)),
        }
    }
    assert!(needed > 56);
    assert!(open(&file[..needed + 1]).is_ok());
}

#[test]
fn every_header_fault_is_told() {
    let good = full_golden(&[0u8; 16]);

    let mut bad = good.clone();
    bad[0] = b'X';
    let f = fault(open(&bad));
    assert_eq!(f, SnapshotFault::BadMagic(*b"XTEOMSN1"));
    assert_eq!(f.class(), FaultClass::InvalidData);

    let mut bad = good.clone();
    for version in [0, 1, 2, 10, 255] {
        bad[8] = version;
        assert_eq!(fault(open(&bad)), SnapshotFault::UnsupportedVersion(version as u32));
    }

    let mut bad = good.clone();
    bad[13] = 2;
    assert_eq!(fault(open(&bad)), SnapshotFault::UnknownKind(2));

    let mut bad = good.clone();
    bad[24] = 1;
    assert_eq!(fault(open(&bad)), SnapshotFault::GoldenWithParent);

    let mut bad = good.clone();
    bad[13] = 1;
    assert_eq!(fault(open(&bad)), SnapshotFault::DiffWithoutParent);

    let f = fault(open(&good[..20]));
    assert_eq!(f, SnapshotFault::UnexpectedEof);
    assert_eq!(f.class(), FaultClass::UnexpectedEof);
    assert_eq!(SnapshotFault::NoMoreRegions.class(), FaultClass::UnexpectedEof);
}

#[test]
fn unaligned_region_and_bad_envelope_are_told() {
    let (_, steps) = write_golden_snapshot(
        &[],
        &VmStateData::default(),
        &LegacyDeviceState::default(),
        &VirtioNetState::default(),
        &one_region(0),
    );
    let good = render(&steps, &[vec![]]);
    // The region row starts at 60, its offset at 76.
    let mut bad = good.clone();
    bad[76] = 1;
    assert_eq!(fault(open(&bad)), SnapshotFault::UnalignedRegionOffset(4097));
    // Five, two and one blobs from 84 on; the envelope is the last: its length at 112.
    let mut bad = good.clone();
    bad[116] = 1;
    assert_eq!(
        fault(open(&bad)),
        SnapshotFault::VirtioNet(VirtioNetStateError::Truncated { need: 4, offset: 4 })
    );
}

/// A golden of an earlier format version, with one region at 8192.
fn earlier_golden(version: u32) -> Vec<u8> {
    let mut w = Vec::new();
    w.extend_from_slice(&MAGIC);
    w.extend_from_slice(&version.to_le_bytes());
    // The reserved bytes do not matter.
    w.extend_from_slice(&[2, 0xee, 0xee, 0xee]);
    w.extend_from_slice(&4096u64.to_le_bytes());
    for id in [5, 6] {
        let vcpu = full_vcpu(id);
        w.push(vcpu.vcpu_id);
        let blobs = [
            &vcpu.regs,
            &vcpu.sregs,
            &vcpu.msrs,
            &vcpu.cpuid_entries,
            &vcpu.lapic,
            &vcpu.xsave,
            &vcpu.vcpu_events,
            &vcpu.mp_state,
            &vcpu.xcrs,
        ];
        let held = match version {
            3 => 4,
            4 => 8,
            _ => 9,
        };
        for blob in &blobs[..held] {
            write_len_prefixed(&mut w, blob);
        }
    }
    w.extend_from_slice(&1u32.to_le_bytes());
    for field in [0x1000u64, 4096, 8192] {
        w.extend_from_slice(&field.to_le_bytes());
    }
    if version >= 4 {
        let vm = full_vm();
        for blob in [&vm.pic_master, &vm.pic_slave, &vm.ioapic, &vm.pit2, &vm.clock] {
            write_len_prefixed(&mut w, blob);
        }
    }
    if version >= 6 {
        write_len_prefixed(&mut w, b"one");
        write_len_prefixed(&mut w, b"two");
    }
    if version >= 7 {
        let mut envelope = encode(&full_net());
        if version == 7 {
            // One device; its record ends behind the queue size.
            let device = &full_net().devices[0];
            envelope.truncate(4 + 4 + device.iface_id.len() + 4 + device.host_dev_name.len() + 10);
        }
        write_len_prefixed(&mut w, &envelope);
    }
    w.resize(8192, 0);
    w.resize(8192 + 4096, 0x77);
    w.extend_from_slice(&MAGIC_TRAILER);
    w
}

#[test]
fn earlier_versions_are_readable() {
    for version in 3..9 {
        let file = earlier_golden(version);
        let mut reader = open(&file).unwrap();
        assert_eq!(reader.format_version, version);
        assert_eq!(reader.kind, SnapshotKind::Golden);
        assert_eq!(reader.parent_sha256, [0u8; 32]);
        assert_eq!(reader.vcpu_count, 2);
        assert_eq!(reader.mem_size_bytes, 4096);
        assert_eq!(reader.vcpu_states.len(), 2);
        let vcpu = &reader.vcpu_states[1];
        let full = full_vcpu(6);
        assert_eq!(vcpu.vcpu_id, 6);
        assert_eq!(vcpu.regs, full.regs);
        assert_eq!(vcpu.sregs, full.sregs);
        assert_eq!(vcpu.msrs, full.msrs);
        assert_eq!(vcpu.cpuid_entries, full.cpuid_entries);
        let since = |first: u32, blob: &[u8]| {
            if version >= first {
                blob.to_vec()
            } else {
                Vec::new()
            }
        };
        assert_eq!(vcpu.lapic, since(4, &full.lapic));
        assert_eq!(vcpu.xsave, since(4, &full.xsave));
        assert_eq!(vcpu.vcpu_events, since(4, &full.vcpu_events));
        assert_eq!(vcpu.mp_state, since(4, &full.mp_state));
        assert_eq!(vcpu.xcrs, since(5, &full.xcrs));
        assert_eq!(reader.vm_state.pic_master, since(4, &full_vm().pic_master));
        assert_eq!(reader.vm_state.clock, since(4, &full_vm().clock));
        assert_eq!(reader.legacy_state.com1, since(6, b"one"));
        assert_eq!(reader.legacy_state.com2, since(6, b"two"));
        let mut net = full_net();
        if version < 7 {
            net = VirtioNetState::default();
        } else if version < 8 {
            net.devices[0].acked_features = 0;
            net.devices[0].queues.clear();
        }
        assert_eq!(reader.virtio_net_state, net);
        assert_eq!(
            reader.regions_for_mmap(),
            vec![RegionLocation { guest_phys_addr: 0x1000, size: 4096, file_offset: 8192 }]
        );
        let (_, payload) = reader.read_next_region(&file).unwrap();
        assert_eq!(payload, vec![0x77; 4096]);
        assert!(reader.check_trailer(&file).is_ok());
    }
}

#[test]
fn earlier_versions_that_are_cut_short_are_refused() {
    for version in 3..9 {
        let file = earlier_golden(version);
        for n in [11, 12, 20, 23, 24, 30, 60] {
            assert_eq!(fault(open(&file[..n])), SnapshotFault::UnexpectedEof);
        }
    }
}

#[test]
fn length_prefixed_blobs_read_back_one_by_one() {
    let mut w = vec![0xaa];
    write_len_prefixed(&mut w, b"first");
    write_len_prefixed(&mut w, b"");
    w.push(0xbb);
    let mut src = Source { buf: &w, off: 1 };
    assert_eq!(read_len_prefixed(&mut src).unwrap(), b"first");
    assert_eq!(src.off, 10);
    assert_eq!(read_len_prefixed(&mut src).unwrap(), b"");
    assert_eq!(src.off, 14);
    for n in 0..9 {
        let mut cut = Source { buf: &w[1..1 + n], off: 0 };
        assert_eq!(
            read_len_prefixed(&mut cut),
            Err(SnapshotError::Io(SnapshotFault::UnexpectedEof))
        );
    }
}

#[test]
fn xcrs_survive_a_snapshot() {
    let file = full_golden(&[0u8; 16]);
    assert_eq!(open(&file).unwrap().vcpu_states[0].xcrs, full_vcpu(0).xcrs);
}

#[test]
fn snapshot_errors_say_what_they_should() {
    let io = |fault: SnapshotFault| SnapshotError::Io(fault).message();
    assert_eq!(
        io(SnapshotFault::BadMagic(*b"XTEOMSN1")),
        "snapshot I/O error: bad snapshot magic: [88, 84, 69, 79, 77, 83, 78, 49]"
    );
    assert_eq!(
        SnapshotFault::UnsupportedVersion(10).message(),
        "unsupported snapshot format version 10, expected 9"
    );
    assert_eq!(
        SnapshotFault::UnknownKind(2).message(),
        "unknown snapshot_kind byte 2 in v9 header"
    );
    assert_eq!(
        SnapshotFault::GoldenWithParent.message(),
        "Golden snapshot must have all-zero parent_sha256"
    );
    assert_eq!(
        SnapshotFault::DiffWithoutParent.message(),
        "Diff snapshot must carry a non-zero parent_sha256"
    );
    assert_eq!(
        SnapshotFault::UnalignedRegionOffset(4097).message(),
        "region file_offset 4097 is not 4 KiB aligned"
    );
    assert_eq!(
        SnapshotFault::RegionCount(3).message(),
        "Phase 1 reader supports exactly one region, got 3"
    );
    let cut = VirtioNetStateError::Truncated { need: 4, offset: 12 };
    assert_eq!(
        SnapshotFault::VirtioNet(cut).message(),
        "virtio-net state decode: virtio-net state truncated: need 4 more bytes at offset 12"
    );
    assert_eq!(SnapshotFault::UnexpectedEof.message(), "failed to fill whole buffer");
    assert_eq!(SnapshotFault::NoMoreRegions.message(), "no more regions to read");
    assert_eq!(SnapshotFault::TooShortForTrailer.message(), "snapshot too short for trailer");
    assert_eq!(
        SnapshotFault::BadTrailer(*b"END?").message(),
        format!("bad snapshot trailer: {:?}", *b"END?")
    );
    assert_eq!(
        SnapshotFault::MissingParentPath.message(),
        "Diff snapshot requires SnapshotConfig::parent_golden_path"
    );
    assert_eq!(
        SnapshotError::NotPaused("Running".into()).message(),
        "snapshot can only be taken from a paused VM (current state: Running)"
    );
    assert_eq!(
        SnapshotError::VcpuCapture("no answer".into()).message(),
        "vCPU state capture failed: no answer"
    );
}

#[test]
fn trailer_is_checked_at_the_end() {
    let file = full_golden(&[0u8; 16]);
    let reader = open(&file).unwrap();
    assert!(reader.check_trailer(b"...END!").is_ok());
    assert_eq!(
        reader.check_trailer(b"END"),
        Err(SnapshotError::Io(SnapshotFault::TooShortForTrailer))
    );
    assert_eq!(
        reader.check_trailer(b"END?"),
        Err(SnapshotError::Io(SnapshotFault::BadTrailer(*b"END?")))
    );
}

#[test]
fn vcpu_count_is_the_low_byte_of_the_number() {
    let vcpus: Vec<VcpuStateData> = (0..257).map(|_| VcpuStateData::default()).collect();
    let (meta, _) = write_golden_snapshot(
        &vcpus,
        &VmStateData::default(),
        &LegacyDeviceState::default(),
        &VirtioNetState::default(),
        &one_region(0),
    );
    assert_eq!(meta.vcpu_count, 1);
}

#[test]
fn layouts_that_overflow_do_not_fit() {
    let fits = |kind, regions: &[MemoryRegionDescriptor]| {
        layout_fits(
            kind,
            &[],
            &VmStateData::default(),
            &LegacyDeviceState::default(),
            &VirtioNetState::default(),
            regions,
        )
    };
    assert!(fits(SnapshotKind::Golden, &one_region(4096)));
    assert!(!fits(SnapshotKind::Golden, &one_region(u64::MAX)));
    assert!(fits(SnapshotKind::Diff, &one_region(u64::MAX)));
    let twice = vec![
        MemoryRegionDescriptor { guest_phys_addr: 0, size: u64::MAX },
        MemoryRegionDescriptor { guest_phys_addr: 0, size: 1 },
    ];
    assert!(!fits(SnapshotKind::Diff, &twice));
}

#[test]
fn locations_convert_to_descriptors() {
    let place = RegionLocation { guest_phys_addr: 1, size: 2, file_offset: 4096 };
    let desc: MemoryRegionDescriptor = place.into();
    assert_eq!(desc, MemoryRegionDescriptor { guest_phys_addr: 1, size: 2 });
}
