use vm_snapshot::snapshot::kvm_dirty_tracker::{get_dirty_log, DirtyTrackerError};
use vm_snapshot::snapshot::vcpu_state;
use vm_snapshot::snapshot::vcpu_state::{
    msr_request, CpuidEntry, MsrEntry, VcpuAction, VcpuStateData, VcpuStateError,
};
use vm_snapshot::snapshot::vm_state;
use vm_snapshot::snapshot::vm_state::{VmAction, VmStateData};

fn cpuid(function: u32) -> CpuidEntry {
    CpuidEntry {
        function,
        index: 1,
        flags: 2,
        eax: 3,
        ebx: 4,
        ecx: 5,
        edx: 6,
        padding0: 0,
        padding1: 0,
        padding2: 7,
    }
}

fn captured() -> VcpuStateData {
    vcpu_state::capture(
        3,
        &[1u8; 144],
        &[2u8; 312],
        &[cpuid(0x4000_0001), cpuid(9)],
        &[MsrEntry { index: 0x10, reserved: 0, data: 0x0102_0304_0506_0708 }],
        &[],
    )
}

#[test]
fn capture_lays_out_raw_structures() {
    let state = captured();
    assert_eq!(state.vcpu_id, 3);
    assert_eq!(state.regs, vec![1u8; 144]);
    assert_eq!(state.sregs, vec![2u8; 312]);
    assert_eq!(
        state.msrs,
        vec![0x10, 0, 0, 0, 0, 0, 0, 0, 8, 7, 6, 5, 4, 3, 2, 1]
    );
    assert_eq!(state.cpuid_entries.len(), 80);
    assert_eq!(state.cpuid_entries[..8], [1, 0, 0, 0x40, 1, 0, 0, 0]);
    assert_eq!(state.cpuid_entries[36..40], [7, 0, 0, 0]);
    assert!(state.lapic.is_empty());
    assert!(state.xsave.is_empty());
    assert!(state.vcpu_events.is_empty());
    assert!(state.mp_state.is_empty());
    assert!(state.xcrs.is_empty());
}

#[test]
fn apply_sets_what_was_captured_in_order() {
    let (actions, fault) = vcpu_state::apply(&captured());
    assert_eq!(fault, None);
    assert_eq!(actions.len(), 4);
    match &actions[0] {
        VcpuAction::SetCpuid2(table) => {
            let entries = table.inner.as_slice();
            assert_eq!(entries.len(), 2);
            assert_eq!(entries[0].function, 0x4000_0001);
            assert_eq!(entries[0].edx, 6);
            assert_eq!(entries[1].function, 9);
            assert_eq!(entries[1].padding, [0, 0, 7]);
        }
        _ => panic!("CPUID comes first"),
    }
    assert!(matches!(&actions[1], VcpuAction::SetSregs(raw) if *raw == vec![2u8; 312]));
    assert!(matches!(&actions[2], VcpuAction::SetRegs(raw) if *raw == vec![1u8; 144]));
    match &actions[3] {
        VcpuAction::SetMsrs(table) => {
            let entries = table.inner.as_slice();
            assert_eq!(entries.len(), 1);
            assert_eq!(entries[0].index, 0x10);
            assert_eq!(entries[0].data, 0x0102_0304_0506_0708);
        }
        _ => panic!("MSRs come last"),
    }
}

#[test]
fn xcrs_are_captured_and_set_last() {
    let xcrs = [0x5au8; 392];
    let state = vcpu_state::capture(0, &[1u8; 144], &[2u8; 312], &[], &[], &xcrs);
    assert_eq!(state.xcrs, xcrs.to_vec());
    let (actions, fault) = vcpu_state::apply(&state);
    assert_eq!(fault, None);
    assert_eq!(actions.len(), 3);
    assert!(matches!(&actions[2], VcpuAction::SetXcrs(raw) if *raw == xcrs.to_vec()));
    // Of another length they are left out.
    let mut short = state.clone();
    short.xcrs.pop();
    let (actions, fault) = vcpu_state::apply(&short);
    assert_eq!(fault, None);
    assert_eq!(actions.len(), 2);
}

#[test]
fn other_machines_record_the_id_alone() {
    let state = vcpu_state::capture_id(7);
    assert_eq!(state.vcpu_id, 7);
    assert!(state.regs.is_empty() && state.sregs.is_empty() && state.msrs.is_empty());
    assert!(state.cpuid_entries.is_empty() && state.lapic.is_empty() && state.xsave.is_empty());
    assert!(state.vcpu_events.is_empty() && state.mp_state.is_empty() && state.xcrs.is_empty());
    assert!(vcpu_state::apply_nothing(&captured()).is_empty());
    let vm = vm_state::capture_nothing();
    assert!(vm.pic_master.is_empty() && vm.pic_slave.is_empty() && vm.ioapic.is_empty());
    assert!(vm.pit2.is_empty() && vm.clock.is_empty());
    let full = VmStateData { clock: vec![0; vm_state::CLOCK_LEN], ..VmStateData::default() };
    assert!(vm_state::apply_nothing(&full).is_empty());
}

#[test]
fn machine_errors_say_what_they_should() {
    assert_eq!(
        VcpuStateError::Kvm(22).message("Invalid argument (os error 22)"),
        "kvm ioctl failed during vcpu-state capture: Invalid argument (os error 22)"
    );
    assert_eq!(
        VcpuStateError::BuildMsrs("SizeLimitExceeded".into()).message("unused"),
        "failed to build Msrs FAM struct: SizeLimitExceeded"
    );
    assert_eq!(
        DirtyTrackerError::Kvm { slot: 3, errno: 22 }.message("Invalid argument (os error 22)"),
        "KVM_GET_DIRTY_LOG failed for slot 3: Invalid argument (os error 22)"
    );
}

#[test]
fn empty_tables_are_skipped() {
    let mut state = captured();
    state.cpuid_entries.clear();
    state.msrs.clear();
    let (actions, fault) = vcpu_state::apply(&state);
    assert_eq!(fault, None);
    assert_eq!(actions.len(), 2);
    assert!(matches!(&actions[0], VcpuAction::SetSregs(_)));
    assert!(matches!(&actions[1], VcpuAction::SetRegs(_)));
}

fn refusal(state: &VcpuStateData) -> (usize, String) {
    let (actions, fault) = vcpu_state::apply(state);
    match fault {
        Some(VcpuStateError::BuildMsrs(why)) => (actions.len(), why),
        other => panic!("expected a refusal, got {other:?}"),
    }
}

#[test]
fn wrong_lengths_end_the_calls_where_they_are_found() {
    let mut state = captured();
    state.cpuid_entries.pop();
    assert_eq!(
        refusal(&state),
        (0, "cpuid blob length 79 not a multiple of entry size 40".to_string())
    );

    let mut state = captured();
    state.sregs.push(0);
    assert_eq!(
        refusal(&state),
        (1, "sregs blob length 313 != sizeof(kvm_sregs) 312".to_string())
    );

    let mut state = captured();
    state.regs.clear();
    assert_eq!(
        refusal(&state),
        (2, "regs blob length 0 != sizeof(kvm_regs) 144".to_string())
    );

    let mut state = captured();
    state.msrs.push(0);
    assert_eq!(
        refusal(&state),
        (3, "msrs blob length 17 not a multiple of entry size 16".to_string())
    );
}

#[test]
fn tables_over_the_limit_are_refused() {
    let mut state = captured();
    state.cpuid_entries = vec![0u8; 257 * 40];
    assert_eq!(refusal(&state), (0, "SizeLimitExceeded".to_string()));
    let mut state = captured();
    state.msrs = vec![0u8; 257 * 16];
    assert_eq!(refusal(&state), (3, "SizeLimitExceeded".to_string()));
    let mut state = captured();
    state.msrs = vec![0u8; 256 * 16];
    assert_eq!(vcpu_state::apply(&state).1, None);
}

#[test]
fn sizes_are_those_of_the_kvm_structures() {
    assert_eq!(vcpu_state::REGS_LEN, std::mem::size_of::<kvm_bindings::kvm_regs>());
    assert_eq!(vcpu_state::SREGS_LEN, std::mem::size_of::<kvm_bindings::kvm_sregs>());
    assert_eq!(vcpu_state::XCRS_LEN, std::mem::size_of::<kvm_bindings::kvm_xcrs>());
    assert_eq!(vcpu_state::MSR_ENTRY_LEN, std::mem::size_of::<kvm_bindings::kvm_msr_entry>());
    assert_eq!(
        vcpu_state::CPUID_ENTRY_LEN,
        std::mem::size_of::<kvm_bindings::kvm_cpuid_entry2>()
    );
    assert_eq!(vm_state::IRQCHIP_LEN, std::mem::size_of::<kvm_bindings::kvm_irqchip>());
    assert_eq!(vm_state::PIT2_LEN, std::mem::size_of::<kvm_bindings::kvm_pit_state2>());
    assert_eq!(vm_state::CLOCK_LEN, std::mem::size_of::<kvm_bindings::kvm_clock_data>());
}

#[test]
fn msr_request_is_blank_and_read_back_as_far_as_filled() {
    let mut table = msr_request(&[0x10, 0x11, 0x12]).map_err(|e| format!("{e:?}")).unwrap();
    assert_eq!(table.inner.as_slice().len(), 3);
    assert_eq!(table.inner.as_slice()[1].index, 0x11);
    assert_eq!(table.inner.as_slice()[1].data, 0);
    table.inner.as_mut_slice()[0].data = 42;
    let got = table.filled(2).unwrap();
    assert_eq!(
        got,
        vec![
            MsrEntry { index: 0x10, reserved: 0, data: 42 },
            MsrEntry { index: 0x11, reserved: 0, data: 0 },
        ]
    );
    assert_eq!(table.filled(4), None);
}

#[test]
fn msr_request_over_the_limit_is_refused() {
    assert!(msr_request(&[0u32; 256]).is_ok());
    match msr_request(&[0u32; 257]) {
        Err(VcpuStateError::BuildMsrs(why)) => assert_eq!(why, "SizeLimitExceeded"),
        _ => panic!("expected a refusal"),
    }
}

#[test]
fn vm_state_records_what_the_vm_has() {
    let state = vm_state::capture(
        Ok(vec![1; 520]),
        Err(19),
        Ok(vec![3; 520]),
        Err(19),
        Ok(vec![5; 48]),
    )
    .unwrap();
    assert_eq!(state.pic_master, vec![1; 520]);
    assert!(state.pic_slave.is_empty());
    assert_eq!(state.ioapic, vec![3; 520]);
    assert!(state.pit2.is_empty());
    assert_eq!(state.clock, vec![5; 48]);
    assert_eq!(
        vm_state::apply(&state),
        vec![
            VmAction::SetIrqchip(vec![1; 520]),
            VmAction::SetIrqchip(vec![3; 520]),
            VmAction::SetClock(vec![5; 48]),
        ]
    );
    match vm_state::capture(Ok(vec![]), Ok(vec![]), Ok(vec![]), Ok(vec![]), Err(22)) {
        Err(VcpuStateError::Kvm(errno)) => assert_eq!(errno, 22),
        _ => panic!("a clock that cannot be read is an error"),
    }
}

#[test]
fn full_vm_state_is_applied_in_full_and_an_empty_one_not_at_all() {
    let state = VmStateData {
        pic_master: vec![1; 520],
        pic_slave: vec![2; 520],
        ioapic: vec![3; 520],
        pit2: vec![4; 112],
        clock: vec![5; 48],
    };
    assert_eq!(
        vm_state::apply(&state),
        vec![
            VmAction::SetIrqchip(vec![1; 520]),
            VmAction::SetIrqchip(vec![2; 520]),
            VmAction::SetIrqchip(vec![3; 520]),
            VmAction::SetPit2(vec![4; 112]),
            VmAction::SetClock(vec![5; 48]),
        ]
    );
    assert!(vm_state::apply(&VmStateData::default()).is_empty());
}

#[test]
fn dirty_log_is_handed_on_with_its_slot() {
    assert_eq!(get_dirty_log(3, Ok(vec![5, 6])), Ok(vec![5, 6]));
    assert_eq!(
        get_dirty_log(3, Err(22)),
        Err(DirtyTrackerError::Kvm { slot: 3, errno: 22 })
    );
}
