use std::collections::HashMap;

use vm_snapshot::annotations::thirdparty::{SANDBOX_SNAPSHOT_RESTORE_FROM_PATH, SGX_EPC};
use vm_snapshot::ch::features::{trim_quotes, FeaturesError};
use vm_snapshot::ch::hypervisor::{
    Capabilities, CloudHypervisorInner, HypervisorConfig, HypervisorError, NetFd, PendingDevice,
    RootlessUser, VmmState,
};
use vm_snapshot::ch::launch::{FdMove, LaunchError};
use vm_snapshot::ch::log::{
    classify_line, cloud_hypervisor_log_output, exit_code, parse_ch_log_level,
    CloudHypervisorLogLevel, LogAction, LogEvent, OutputStream,
};
use vm_snapshot::ch::memory::{
    bytes_to_megs, checked_next_multiple_of, megs_to_bytes, plan_resize, ResizeMemoryError,
};
use vm_snapshot::ch::protection::{
    check_protection, get_fake_guest_protection, get_guest_protection, guest_protection_is_tdx,
    GuestProtection, GuestProtectionError, SevSnpDetails,
};
use vm_snapshot::ch::restore::{RestoreError, TapRequest};
use vm_snapshot::ch::snapshot_rewrite::{RewriteError, SnapshotNetId};
use vm_snapshot::ch::start::{BootStep, KernelParamGroup, Machine, StartStep};
use vm_snapshot::ch::vcpu_tids::{get_ch_vcpu_tids, ThreadEntry, VcpuTidsError};

const MIB: u64 = 1 << 20;

#[test]
fn test_get_guest_protection() {
    let sev_snp_details = SevSnpDetails { cbitpos: 42, phys_addr_reduction: 42 };

    let tests = [
        GuestProtection::NoProtection,
        GuestProtection::Pef,
        GuestProtection::Se,
        GuestProtection::Sev(sev_snp_details),
        GuestProtection::Snp(sev_snp_details),
        GuestProtection::Tdx,
    ];

    for (i, value) in tests.iter().enumerate() {
        let result = get_guest_protection(true, Some(*value), Ok(GuestProtection::NoProtection));
        assert_eq!(result, Ok(*value), "test[{i}]");
    }
}

#[test]
fn test_handle_guest_protection() {
    struct TestData {
        confidential_guest: bool,
        available_protection: GuestProtection,
        result: Result<(), GuestProtectionError>,
        // The expected result (internal state)
        guest_protection_to_use: GuestProtection,
    }

    let tests = [
        TestData {
            confidential_guest: false,
            available_protection: GuestProtection::NoProtection,
            result: Ok(()),
            guest_protection_to_use: GuestProtection::NoProtection,
        },
        TestData {
            confidential_guest: true,
            available_protection: GuestProtection::NoProtection,
            result: Err(GuestProtectionError::NoProtectionAvailable),
            guest_protection_to_use: GuestProtection::NoProtection,
        },
        TestData {
            confidential_guest: false,
            available_protection: GuestProtection::Tdx,
            result: Err(GuestProtectionError::TDXProtectionMustBeUsedWithCH),
            guest_protection_to_use: GuestProtection::Tdx,
        },
        TestData {
            confidential_guest: true,
            available_protection: GuestProtection::Tdx,
            result: Ok(()),
            guest_protection_to_use: GuestProtection::Tdx,
        },
        TestData {
            confidential_guest: false,
            available_protection: GuestProtection::Pef,
            result: Ok(()),
            guest_protection_to_use: GuestProtection::NoProtection,
        },
        TestData {
            confidential_guest: true,
            available_protection: GuestProtection::Pef,
            result: Err(GuestProtectionError::ExpectedTDXProtection(GuestProtection::Pef)),
            guest_protection_to_use: GuestProtection::Pef,
        },
    ];

    for (i, d) in tests.iter().enumerate() {
        let protection = get_guest_protection(
            true,
            Some(d.available_protection),
            Ok(GuestProtection::NoProtection),
        )
        .unwrap();

        let mut ch = CloudHypervisorInner::default();
        ch.config = HypervisorConfig {
            confidential_guest: d.confidential_guest,
            ..Default::default()
        };

        let result = ch.handle_guest_protection(protection);

        assert_eq!(d.result, result, "test[{i}]");
        assert_eq!(ch.guest_protection_to_use, d.guest_protection_to_use, "test[{i}]");
    }
}

#[test]
fn protection_that_is_not_requested_is_not_used() {
    let details = SevSnpDetails { cbitpos: 51, phys_addr_reduction: 1 };
    let offered = [
        GuestProtection::Pef,
        GuestProtection::Se,
        GuestProtection::Sev(details),
        GuestProtection::Snp(details),
    ];
    for protection in offered {
        let mut ch = CloudHypervisorInner::default();
        assert_eq!(ch.handle_guest_protection(protection), Ok(()));
        assert_eq!(ch.guest_protection_to_use, GuestProtection::NoProtection);
    }
}

#[test]
fn test_get_kernel_params() {
    let mut ch = CloudHypervisorInner::default();
    ch.config = HypervisorConfig::default();
    let groups = ch.get_kernel_params("ext4", Machine::X86_64);
    assert_eq!(
        groups,
        vec![
            KernelParamGroup::Defaults { debug: false },
            KernelParamGroup::Text("quiet".into()),
            KernelParamGroup::Rootfs { verity_params: "".into(), rootfs_type: "ext4".into() },
            KernelParamGroup::Text(
                "no_timer_check noreplace-smp systemd.log_target=console".into()
            ),
            KernelParamGroup::Text("".into()),
        ]
    );
}

#[test]
fn kernel_params_follow_the_configuration() {
    let mut ch = CloudHypervisorInner::default();
    ch.config = HypervisorConfig {
        enable_debug: true,
        rootfs_type: "xfs".into(),
        kernel_verity_params: "root_hash=1".into(),
        kernel_params: "a=b".into(),
        ..Default::default()
    };
    let groups = ch.get_kernel_params("ext4", Machine::X86_64);
    assert_eq!(groups[0], KernelParamGroup::Defaults { debug: true });
    assert_eq!(groups[1], KernelParamGroup::Text("console=ttyS0,115200n8".into()));
    assert_eq!(
        groups[2],
        KernelParamGroup::Rootfs {
            verity_params: "root_hash=1".into(),
            rootfs_type: "xfs".into()
        }
    );
    assert_eq!(groups[4], KernelParamGroup::Text("a=b".into()));
    let groups = ch.get_kernel_params("ext4", Machine::Aarch64);
    assert_eq!(groups[1], KernelParamGroup::Text("console=ttyAMA0,115200n8".into()));
    ch.config.confidential_guest = true;
    assert_eq!(
        ch.get_kernel_params("ext4", Machine::X86_64)[1],
        KernelParamGroup::Text("console=hvc0".into())
    );
}

#[test]
fn test_parse_ch_log_level() {
    struct TestData<'a> {
        line: &'a str,
        level: CloudHypervisorLogLevel,
    }

    let tests = [
        // Test default level with various values
        TestData { line: "", level: CloudHypervisorLogLevel::Info },
        TestData { line: "foo", level: CloudHypervisorLogLevel::Info },
        TestData { line: "info:", level: CloudHypervisorLogLevel::Info },
        // Levels are case sensitive
        TestData { line: "foo trce: bar", level: CloudHypervisorLogLevel::Info },
        TestData { line: "foo debg: bar", level: CloudHypervisorLogLevel::Info },
        TestData { line: "foo info: bar", level: CloudHypervisorLogLevel::Info },
        TestData { line: "foo warn: bar", level: CloudHypervisorLogLevel::Info },
        TestData { line: "foo erro: bar", level: CloudHypervisorLogLevel::Info },
        TestData { line: "foo INFO: bar", level: CloudHypervisorLogLevel::Info },
        TestData { line: "foo DEBUG: bar", level: CloudHypervisorLogLevel::Info },
        TestData { line: "foo DEBG: bar", level: CloudHypervisorLogLevel::Debug },
        TestData { line: "foo WARN:bar", level: CloudHypervisorLogLevel::Warn },
        TestData { line: "foo ERROR: bar", level: CloudHypervisorLogLevel::Info },
        TestData { line: "foo ERRO: bar", level: CloudHypervisorLogLevel::Error },
        TestData { line: "foo TRACE: bar", level: CloudHypervisorLogLevel::Info },
        TestData { line: "foo TRCE: bar", level: CloudHypervisorLogLevel::Trace },
        // First match wins
        TestData { line: "TRCE:ERRO:WARN:DEBG:INFO:", level: CloudHypervisorLogLevel::Trace },
        TestData { line: "ERRO:WARN:DEBG:INFO:TRCE", level: CloudHypervisorLogLevel::Error },
        TestData { line: "WARN:DEBG:INFO:TRCE:ERRO:", level: CloudHypervisorLogLevel::Warn },
        TestData { line: "DEBG:INFO:TRCE:ERRO:WARN:", level: CloudHypervisorLogLevel::Debug },
        TestData { line: "INFO:TRCE:ERRO:WARN:DEBG:", level: CloudHypervisorLogLevel::Info },
    ];

    for (i, d) in tests.iter().enumerate() {
        let level = parse_ch_log_level(d.line);
        assert_eq!(d.level, level, "test[{i}]: {}", d.line);
    }
}

#[test]
fn test_get_thread_ids() {
    // The threads of a process that is no hypervisor.
    let threads = [ThreadEntry { name: Some("1".into()), comm: Some("systemd\n".into()) }];
    assert_eq!(get_ch_vcpu_tids(&threads), Err(VcpuTidsError::NoVcpus));
    assert_eq!(get_ch_vcpu_tids(&[]), Err(VcpuTidsError::NoVcpus));
}

#[test]
fn test_get_ch_vcpu_tids_mapping() {
    let thread = |tid: &str, comm: &str| ThreadEntry {
        name: Some(tid.to_string()),
        comm: Some(comm.to_string()),
    };
    let threads = [
        // Non-vcpu thread, should be skipped.
        thread("1000", "main_thread\n"),
        thread("2001", "vcpu0\n"),
        thread("2002", "vcpu1\n"),
        thread("2003", "vcpu2\n"),
    ];

    let vcpus = get_ch_vcpu_tids(&threads).unwrap();

    // The mapping must be vcpu_id -> tid.
    assert_eq!(vcpus.len(), 3, "non-vcpu threads should be excluded");
    assert_eq!(vcpus[&0], 2001, "vcpu 0 should map to tid 2001");
    assert_eq!(vcpus[&1], 2002, "vcpu 1 should map to tid 2002");
    assert_eq!(vcpus[&2], 2003, "vcpu 2 should map to tid 2003");

    assert!(!vcpus.contains_key(&1000), "non-vcpu thread should not be in the map");
}

#[test]
fn thread_names_are_read_strictly() {
    let one = |name: Option<&str>, comm: Option<&str>| {
        get_ch_vcpu_tids(&[
            ThreadEntry {
                name: name.map(|s| s.to_string()),
                comm: comm.map(|s| s.to_string()),
            },
            ThreadEntry { name: Some("+7".into()), comm: Some("vcpuvcpu \u{a0}+9\t\n".into()) },
        ])
    };
    assert_eq!(one(Some("x"), Some("vcpu0\n")), Err(VcpuTidsError::InvalidTid));
    assert_eq!(one(Some(""), Some("vcpu0\n")), Err(VcpuTidsError::InvalidTid));
    assert_eq!(one(Some("4294967296"), Some("a")), Err(VcpuTidsError::InvalidTid));
    assert_eq!(one(Some("1"), None), Err(VcpuTidsError::CommMissing));
    assert_eq!(one(Some("1"), Some("vcpu\n")), Err(VcpuTidsError::InvalidVcpuId));
    assert_eq!(one(Some("1"), Some("vcpu-1\n")), Err(VcpuTidsError::InvalidVcpuId));
    let map = one(None, None).unwrap();
    assert_eq!(map.len(), 1);
    assert_eq!(map[&9], 7);
    let map = one(Some("4294967295"), Some("vcpu9")).unwrap();
    assert_eq!(map[&9], 7);
}

#[test]
fn annotations_have_their_names() {
    assert_eq!(SGX_EPC, "sgx.intel.com/epc");
    assert_eq!(SANDBOX_SNAPSHOT_RESTORE_FROM_PATH, "podsnapshot.aks.io/restore-from-path");
}

#[test]
fn host_protection_counts_outside_of_tests() {
    let fake = Some(GuestProtection::Tdx);
    let host = Ok(GuestProtection::Pef);
    assert_eq!(get_guest_protection(false, fake, host.clone()), Ok(GuestProtection::Pef));
    assert_eq!(get_guest_protection(true, None, host.clone()), Ok(GuestProtection::Pef));
    assert_eq!(get_fake_guest_protection(fake, host), Ok(GuestProtection::Tdx));
    assert_eq!(
        get_fake_guest_protection(fake, Err("no".into())),
        Err("no".to_string())
    );
    assert!(guest_protection_is_tdx(GuestProtection::Tdx));
    assert!(!guest_protection_is_tdx(GuestProtection::Se));
    assert_eq!(check_protection(false, GuestProtection::Se), Ok(()));
}

#[test]
fn fatal_lines_are_errors() {
    assert_eq!(classify_line("Fatal error: x INFO:"), CloudHypervisorLogLevel::Error);
    assert_eq!(classify_line("ERROR: x"), CloudHypervisorLogLevel::Error);
    assert_eq!(classify_line("fatal error WARN: x"), CloudHypervisorLogLevel::Warn);
    assert_eq!(classify_line("é DEBG: x"), CloudHypervisorLogLevel::Debug);
}

#[test]
fn output_logger_stops_with_standard_error() {
    use_event(LogEvent::Shutdown, LogAction::Stop);
    use_event(LogEvent::Eof(OutputStream::Stderr), LogAction::Stop);
    use_event(LogEvent::ReadError(OutputStream::Stderr), LogAction::Stop);
    use_event(LogEvent::Eof(OutputStream::Stdout), LogAction::Continue);
    use_event(LogEvent::ReadError(OutputStream::Stdout), LogAction::Continue);
    use_event(
        LogEvent::Line(OutputStream::Stdout, "WARN: x".into()),
        LogAction::Log(CloudHypervisorLogLevel::Warn),
    );
    assert_eq!(exit_code(None), None);
    assert_eq!(exit_code(Some(None)), Some(0));
    assert_eq!(exit_code(Some(Some(3))), Some(3));
}

fn use_event(event: LogEvent, action: LogAction) {
    assert_eq!(cloud_hypervisor_log_output(&event), action);
}

#[test]
fn memory_is_added_in_whole_blocks() {
    assert_eq!(bytes_to_megs(3 * MIB + 5), 3);
    assert_eq!(megs_to_bytes(3), 3 * MIB);
    assert_eq!(checked_next_multiple_of(5, 4), Some(8));
    assert_eq!(checked_next_multiple_of(8, 4), Some(8));
    assert_eq!(checked_next_multiple_of(8, 0), None);
    assert_eq!(checked_next_multiple_of(u64::MAX, 2), None);
    assert_eq!(plan_resize(100 * MIB, 100, 128, 1000), Ok(None));
    assert_eq!(plan_resize(100 * MIB, 50, 128, 1000), Ok(None));
    assert_eq!(plan_resize(100 * MIB, 101, 128, 1000), Ok(Some(228 * MIB)));
    assert_eq!(plan_resize(100 * MIB, 228, 128, 228), Ok(Some(228 * MIB)));
    assert_eq!(
        plan_resize(100 * MIB, 101, 128, 227),
        Err(ResizeMemoryError::OverMaximum { requested_mb: 228, maximum_mb: 227 })
    );
    assert_eq!(
        plan_resize(100 * MIB, 101, 0, 1000),
        Err(ResizeMemoryError::Alignment { growth: MIB, block: 0 })
    );
}

#[test]
fn hypervisor_resizes_by_its_configuration() {
    let mut ch = CloudHypervisorInner::default();
    ch.config.default_maxvcpus = 300;
    ch.config.default_maxmemory = 1000;
    ch.set_guest_memory_block_size(128 * MIB as u32 + 1);
    assert_eq!(ch.guest_memory_block_size_mb(), 128);
    assert_eq!(ch.resize_memory(101, 100 * MIB), Ok((101, Some(228 * MIB))));
    assert_eq!(ch.resize_memory(99, 100 * MIB), Ok((99, None)));
    assert_eq!(ch.resize_vcpu(1, 0), Err(HypervisorError::ZeroVcpus));
    assert_eq!(ch.resize_vcpu(1, 4), Ok((1, 4, Some(4))));
    assert_eq!(ch.resize_vcpu(4, 4), Ok((4, 4, None)));
    assert_eq!(ch.resize_vcpu(4, 900), Ok((4, 300, Some(44))));
    assert_eq!(ch.resize_vcpu(300, 900), Ok((300, 300, None)));
}

fn restoring() -> CloudHypervisorInner {
    let mut ch = CloudHypervisorInner::default();
    ch.prepare_for_restore("/snap");
    ch
}

#[test]
fn fresh_launch_has_plain_arguments() {
    let mut ch = CloudHypervisorInner::default();
    ch.extra_args = Some(vec!["-x".into()]);
    ch.config.enable_debug = true;
    ch.config.disable_seccomp = true;
    let plan = ch.cloud_hypervisor_launch("/api.sock", false).unwrap();
    assert_eq!(
        plan.args,
        vec!["--api-socket", "/api.sock", "-x", "-v", "--seccomp", "false"]
    );
    assert!(plan.fd_moves.is_empty());
    assert_eq!(plan.user, None);
    assert_eq!(plan.netns, None);
    ch.netns = Some("/ns".into());
    ch.config.selinux_label = Some("label".into());
    let plan = ch.cloud_hypervisor_launch("/api.sock", false).unwrap();
    assert_eq!(plan.netns, Some("/ns".to_string()));
    assert_eq!(plan.selinux_label, Some("label".to_string()));
}

#[test]
fn restore_launch_names_source_and_descriptors() {
    let mut ch = restoring();
    let plan = ch.cloud_hypervisor_launch("/a", false).unwrap();
    assert_eq!(plan.args, vec!["--api-socket", "/a", "--restore", "source_url=file:///snap"]);

    ch.set_restore_net_fds(vec![
        NetFd { id: "_net0".into(), fd: 20 },
        NetFd { id: "_net1".into(), fd: 4 },
    ]);
    let plan = ch.cloud_hypervisor_launch("/a", false).unwrap();
    assert_eq!(
        plan.args[3],
        "source_url=file:///snap,net_fds=[_net0@3,_net1@4]"
    );
    assert_eq!(
        plan.fd_moves,
        vec![
            FdMove { from: 20, target: 3, duplicate: true, lift: false },
            FdMove { from: 4, target: 4, duplicate: false, lift: false },
        ]
    );
    assert_eq!(plan.first_free, 5);
    // Every launch uses them up.
    assert!(ch.restore_net_fds.is_empty());
}

/// The files that the child of a launch with these armed descriptors sees at 3, 4, and so on.
/// Descriptor `n` refers to file `100 + n` in the parent.
fn files_in_child(fds: &[i32]) -> Vec<i32> {
    let mut ch = restoring();
    ch.set_restore_net_fds(fds.iter().map(|fd| NetFd { id: "n".into(), fd: *fd }).collect());
    let plan = ch.cloud_hypervisor_launch("/a", false).unwrap();
    let mut table: HashMap<i32, i32> = fds.iter().map(|fd| (*fd, 100 + fd)).collect();
    let mut sources = Vec::new();
    for m in &plan.fd_moves {
        if m.lift {
            let place = (plan.first_free..).find(|n| !table.contains_key(n)).unwrap();
            table.insert(place, table[&m.from]);
            sources.push(place);
        } else {
            sources.push(m.from);
        }
    }
    for (m, from) in plan.fd_moves.iter().zip(sources) {
        if m.duplicate {
            table.insert(m.target, table[&from]);
        }
    }
    (0..fds.len()).map(|i| table[&(3 + i as i32)]).collect()
}

#[test]
fn child_sees_the_armed_files_whatever_their_numbers() {
    let lists: [&[i32]; 8] = [
        &[7, 3],
        &[4, 3],
        &[5, 3, 4],
        &[4, 5, 3],
        &[3, 4, 5],
        &[9, 3, 4, 5, 20],
        &[0, 3],
        &[6, 5, 4, 3],
    ];
    for fds in lists {
        let expected: Vec<i32> = fds.iter().map(|fd| 100 + fd).collect();
        assert_eq!(files_in_child(fds), expected, "{fds:?}");
    }
    // Only what would be overwritten before its turn is lifted.
    let mut ch = restoring();
    ch.set_restore_net_fds(vec![
        NetFd { id: "a".into(), fd: 4 },
        NetFd { id: "b".into(), fd: 3 },
    ]);
    let plan = ch.cloud_hypervisor_launch("/a", false).unwrap();
    assert_eq!(
        plan.fd_moves,
        vec![
            FdMove { from: 4, target: 3, duplicate: true, lift: false },
            FdMove { from: 3, target: 4, duplicate: true, lift: true },
        ]
    );
}

#[test]
fn errors_say_what_they_should() {
    let says = |e: HypervisorError| e.message("/snap");
    assert_eq!(says(HypervisorError::NoMasterTid), "could not get vmm master tid");
    assert_eq!(says(HypervisorError::NoNsPath), "could not get ns path");
    assert_eq!(says(HypervisorError::DestDirRequired), "save_vm: dest_dir is required");
    assert_eq!(
        says(HypervisorError::SnapshotSrcRequired),
        "prepare_for_restore: snapshot_src is required"
    );
    assert_eq!(
        says(HypervisorError::SnapshotSrcNotDirectory),
        "prepare_for_restore: snapshot_src /snap is not a directory"
    );
    assert_eq!(
        HypervisorError::StateFileMissing.message("/snap/state.json"),
        "prepare_for_restore: snapshot missing required file /snap/state.json"
    );
    assert_eq!(
        HypervisorError::ConfigFileMissing.message("/snap/config.json"),
        "prepare_for_restore: snapshot missing required file /snap/config.json"
    );
    assert_eq!(says(HypervisorError::ZeroVcpus), "resize to 0 vcpus requested");
    assert_eq!(
        says(HypervisorError::NoTdxSupport),
        "Cloud Hypervisor is not built with TDX support"
    );
    assert_eq!(says(HypervisorError::NoShutdownChannel), "no shutdown channel");
    assert_eq!(says(HypervisorError::NoTasks), "no tasks");
    assert_eq!(HypervisorError::TasksFailed(1).message("[gone]"), "wait all tasks failed: [gone]");
    assert_eq!(says(HypervisorError::NotRunning), "clh not running");
    assert_eq!(says(HypervisorError::MissingPid), "clh missing PID");
    assert!(says(HypervisorError::MetricsNotImplemented).ends_with("/issues/8800"));

    assert_eq!(LaunchError::AlreadyRunning(17).message(), "clh already running with PID 17");
    assert_eq!(
        LaunchError::NetFdsWithoutSource(2).message(),
        "set_restore_net_fds armed 2 net fd(s) but no restore_src is set"
    );
    assert_eq!(
        LaunchError::RootlessUserMissing.message(),
        "rootless user must be specified for rootless cloud-hypervisor"
    );
    assert_eq!(LaunchError::NoShutdownReceiver.message(), "no receiver channel");
    assert_eq!(LaunchError::NoExitNotify.message(), "no exit notify");

    assert_eq!(
        GuestProtectionError::NoProtectionAvailable.message(""),
        "guest protection requested but no guest protection available"
    );
    assert_eq!(
        GuestProtectionError::TDXProtectionMustBeUsedWithCH.message(""),
        "TDX guest protection available and must be used with Cloud Hypervisor (set 'confidential_guest=true')"
    );
    assert_eq!(
        GuestProtectionError::ExpectedTDXProtection(GuestProtection::Pef).message("pef"),
        "Expected TDX protection, found pef"
    );

    assert_eq!(
        RewriteError::NotJson("why".into()).message("config", "/s/config.json"),
        "parsing snapshot config /s/config.json"
    );
    assert_eq!(
        RewriteError::NotJson("why".into()).message("state", "/s/state.json"),
        "parsing snapshot state /s/state.json"
    );
    let says = |e: RewriteError| e.message("config", "/c");
    assert_eq!(
        says(RewriteError::NetNotArray("Bool(true)".into())),
        "snapshot config /c has `net` of unexpected type Bool(true)"
    );
    assert_eq!(
        says(RewriteError::NetIdMissing(3)),
        "snapshot config net[3] missing string `id`"
    );
    assert_eq!(
        says(RewriteError::FdsNotArray(12, "Bool(true)".into())),
        "snapshot config net[12] `fds` is not an array: Bool(true)"
    );
    assert_eq!(
        says(RewriteError::MalformedSandboxId),
        "malformed sandbox-id in snapshot config /c"
    );
    assert_eq!(
        says(RewriteError::SandboxIdNotUtf8("why".into())),
        "snapshot config /c has non-UTF8 sandbox-id"
    );
    assert_eq!(
        says(RewriteError::StateNotText),
        "snapshot state /c has snapshot_data.state missing or not a string"
    );
    assert_eq!(
        says(RewriteError::InnerNotJson("why".into())),
        "parsing inner _virtio-pci-_fs2 state in /c"
    );
    assert_eq!(
        says(RewriteError::InnerNotObject),
        "inner _virtio-pci-_fs2 state in /c is not a JSON object"
    );

    assert_eq!(
        RestoreError::NotRestoring.message(),
        "finalize_restore_pending_devices: not in restore mode"
    );
    assert_eq!(
        RestoreError::Config(RewriteError::NotJson("why".into())).message(),
        "reading snapshot net ids for restore"
    );
    assert_eq!(
        RestoreError::DeviceCount { snapshot: 2, sandbox: 1 }.message(),
        "snapshot has 2 net device(s) but new sandbox queued 1"
    );
    assert_eq!(
        RestoreError::FdCount { expected: 3, opened: 4 }.message(),
        "snapshot expects 3 fd(s) total but new sandbox opened 4"
    );

    assert_eq!(FeaturesError::NotJson("why".into()).message(), "why");
    assert_eq!(FeaturesError::NotArray.message(), "expected CH to return array of features");
    assert_eq!(
        ResizeMemoryError::Alignment { growth: 18446744073709551615, block: 8 }.message(),
        "alignment of 18446744073709551615 B to the block size of 8 B failed"
    );
    assert_eq!(
        ResizeMemoryError::OverMaximum { requested_mb: 4096, maximum_mb: 2048 }.message(),
        "requested memory (4096 MB) is greater than maximum allowed (2048 MB)"
    );
    assert_eq!(VcpuTidsError::InvalidTid.message(), "invalid tid.");
    assert_eq!(VcpuTidsError::CommMissing.message(), "comm path was not found.");
    assert_eq!(VcpuTidsError::InvalidVcpuId.message(), "Invalid vcpu id.");
    assert_eq!(
        VcpuTidsError::NoVcpus.message(),
        "The contents of proc path are not available."
    );
}

#[test]
fn launch_refusals() {
    let mut ch = CloudHypervisorInner::default();
    ch.set_restore_net_fds(vec![NetFd { id: "a".into(), fd: 9 }]);
    assert_eq!(
        ch.cloud_hypervisor_launch("/a", false),
        Err(LaunchError::NetFdsWithoutSource(1))
    );
    assert!(ch.restore_net_fds.is_empty());
    assert_eq!(
        ch.cloud_hypervisor_launch("/a", true),
        Err(LaunchError::RootlessUserMissing)
    );
    let user = RootlessUser { uid: 1, gid: 2, groups: vec![3] };
    ch.config.rootless_user = Some(user.clone());
    assert_eq!(ch.cloud_hypervisor_launch("/a", true).unwrap().user, Some(user));
    ch.process = Some(Some(77));
    assert_eq!(
        ch.cloud_hypervisor_launch("/a", false),
        Err(LaunchError::AlreadyRunning(77))
    );
    ch.process = Some(None);
    assert_eq!(
        ch.cloud_hypervisor_ensure_not_launched(),
        Err(LaunchError::AlreadyRunning(0))
    );
}

#[test]
fn launched_process_needs_its_channels() {
    let mut ch = CloudHypervisorInner::default();
    assert_eq!(ch.launched(Some(5)), Err(LaunchError::NoShutdownReceiver));
    assert_eq!(ch.pid, Some(5));
    ch.has_shutdown_receiver = true;
    assert_eq!(ch.launched(Some(5)), Err(LaunchError::NoExitNotify));
    ch.has_exit_notify = true;
    assert_eq!(ch.launched(Some(5)), Ok(()));
    assert!(ch.has_tasks);
    assert!(!ch.has_exit_notify);
}

#[test]
fn pending_devices_become_taps() {
    let mut ch = restoring();
    ch.pending_devices = vec![
        PendingDevice::Network("tap0".into()),
        PendingDevice::Other("fs".into()),
        PendingDevice::Network("tap1".into()),
    ];
    let config = br#"{"net":[{"id":"n0","fds":[-1,-1]},{"id":"n1"}]}"#;
    let (nets, taps) = ch.finalize_restore_pending_devices(config).unwrap();
    assert_eq!(
        taps,
        vec![
            TapRequest { host_dev_name: "tap0".into(), queues: 2 },
            TapRequest { host_dev_name: "tap1".into(), queues: 1 },
        ]
    );
    assert!(ch.pending_devices.is_empty());
    // The device without descriptors opens one all the same, and the restore is refused.
    assert_eq!(
        ch.arm_restore_fds(&nets, &[10, 11, 12]),
        Err(RestoreError::FdCount { expected: 2, opened: 3 })
    );
    assert!(ch.restore_net_fds.is_empty());
}

#[test]
fn descriptors_are_paired_in_order() {
    let mut ch = restoring();
    let nets = [
        SnapshotNetId { id: "n0".into(), num_fds: 2 },
        SnapshotNetId { id: "n1".into(), num_fds: 1 },
    ];
    assert_eq!(ch.arm_restore_fds(&nets, &[10, 11, 12]), Ok(()));
    assert_eq!(
        ch.restore_net_fds,
        vec![
            NetFd { id: "n0".into(), fd: 10 },
            NetFd { id: "n0".into(), fd: 11 },
            NetFd { id: "n1".into(), fd: 12 },
        ]
    );
}

#[test]
fn restore_refusals() {
    let mut ch = CloudHypervisorInner::default();
    assert_eq!(
        ch.finalize_restore_pending_devices(b"{}"),
        Err(RestoreError::NotRestoring)
    );
    let mut ch = restoring();
    ch.pending_devices = vec![PendingDevice::Network("t".into())];
    assert_eq!(
        ch.finalize_restore_pending_devices(b"{"),
        Err(RestoreError::Config(RewriteError::NotJson(
            "EOF while parsing an object at line 1 column 1".into()
        )))
    );
    assert_eq!(ch.pending_devices.len(), 1);
    assert_eq!(
        ch.finalize_restore_pending_devices(b"{}"),
        Err(RestoreError::DeviceCount { snapshot: 0, sandbox: 1 })
    );
    assert!(ch.pending_devices.is_empty());
}

#[test]
fn restore_source_is_checked_in_order() {
    let check = CloudHypervisorInner::check_restore_source;
    assert_eq!(check("", true, true, true), Err(HypervisorError::SnapshotSrcRequired));
    assert_eq!(
        check("s", false, false, false),
        Err(HypervisorError::SnapshotSrcNotDirectory)
    );
    assert_eq!(check("s", true, false, false), Err(HypervisorError::StateFileMissing));
    assert_eq!(check("s", true, true, false), Err(HypervisorError::ConfigFileMissing));
    assert_eq!(check("s", true, true, true), Ok(()));
}

fn steps(ch: &mut CloudHypervisorInner) -> Vec<StartStep> {
    let mut out = vec![ch.start_vm(10)];
    while *out.last().unwrap() != StartStep::Done {
        let last = *out.last().unwrap();
        out.push(ch.step_taken(last).unwrap());
    }
    out
}

#[test]
fn guest_is_booted_or_resumed_never_both() {
    let mut ch = CloudHypervisorInner::default();
    assert_eq!(
        steps(&mut ch),
        vec![
            StartStep::Launch,
            StartStep::SetupComms,
            StartStep::CheckRunning,
            StartStep::Boot,
            StartStep::Done
        ]
    );
    assert_eq!(ch.state, VmmState::VmRunning);
    assert_eq!(ch.timeout_secs, 10);
    let mut ch = restoring();
    assert_eq!(
        steps(&mut ch),
        vec![
            StartStep::FinalizeRestore,
            StartStep::Launch,
            StartStep::SetupComms,
            StartStep::CheckRunning,
            StartStep::Resume,
            StartStep::Done
        ]
    );
    assert_eq!(ch.state, VmmState::VmRunning);
}

#[test]
fn server_is_ready_before_the_guest_runs() {
    let mut ch = CloudHypervisorInner::default();
    assert_eq!(ch.step_taken(StartStep::SetupComms), Ok(StartStep::CheckRunning));
    assert_eq!(ch.state, VmmState::NotReady);
    assert_eq!(ch.step_taken(StartStep::CheckRunning), Ok(StartStep::Boot));
    assert_eq!(ch.state, VmmState::VmmServerReady);
}

#[test]
fn tdx_needs_a_binary_that_supports_it() {
    let mut ch = CloudHypervisorInner::default();
    ch.guest_protection_to_use = GuestProtection::Tdx;
    assert_eq!(ch.check_tdx_support(), Ok(()));
    ch.ch_features = Some(vec!["kvm".into()]);
    assert_eq!(ch.check_tdx_support(), Err(HypervisorError::NoTdxSupport));
    assert_eq!(
        ch.step_taken(StartStep::CheckRunning),
        Err(HypervisorError::NoTdxSupport)
    );
    assert_eq!(ch.state, VmmState::NotReady);
    ch.ch_features = Some(vec!["kvm".into(), "tdx".into()]);
    assert_eq!(ch.check_tdx_support(), Ok(()));
    ch.guest_protection_to_use = GuestProtection::Se;
    ch.ch_features = Some(vec![]);
    assert_eq!(ch.check_tdx_support(), Ok(()));
}

#[test]
fn boot_closes_what_it_hands_over() {
    let nets = [Some(vec![5, 6]), None];
    assert_eq!(
        CloudHypervisorInner::boot_vm(&nets),
        vec![
            BootStep::CreateVm,
            BootStep::AddNetdev { index: 0, fds: vec![5, 6] },
            BootStep::CloseFd(5),
            BootStep::CloseFd(6),
            BootStep::AddNetdev { index: 1, fds: vec![] },
            BootStep::StartVm,
        ]
    );
}

#[test]
fn features_are_taken_from_the_ping() {
    let mut ch = CloudHypervisorInner::default();
    assert_eq!(ch.cloud_hypervisor_ping_until_ready(None), Ok(false));
    assert_eq!(ch.cloud_hypervisor_ping_until_ready(Some(None)), Ok(true));
    assert_eq!(ch.ch_features, None);
    assert_eq!(
        ch.cloud_hypervisor_ping_until_ready(Some(Some("{}".into()))),
        Ok(true)
    );
    assert_eq!(ch.ch_features, None);
    let detail = r#"{"version":"v48","features":["kvm","io_uring",7]}"#;
    assert_eq!(
        ch.cloud_hypervisor_ping_until_ready(Some(Some(detail.into()))),
        Ok(true)
    );
    assert_eq!(
        ch.ch_features,
        Some(vec!["kvm".to_string(), "io_uring".to_string(), "7".to_string()])
    );
    assert_eq!(
        ch.handle_ch_build_features(r#"{"features":"tdx"}"#),
        Err(FeaturesError::NotArray)
    );
    let e = ch.handle_ch_build_features("nope").unwrap_err();
    assert_eq!(e, FeaturesError::NotJson("expected ident at line 1 column 2".into()));
    assert_eq!(e.message(), "expected ident at line 1 column 2");
    assert_eq!(ch.ch_features.as_ref().map(|f| f.len()), Some(3));
    assert_eq!(trim_quotes("\"\"a\"b\""), "a\"b");
    assert_eq!(trim_quotes("\"\""), "");
}

#[test]
fn sandbox_is_prepared() {
    let mut ch = CloudHypervisorInner::default();
    ch.state = VmmState::VmRunning;
    assert_eq!(ch.setup_environment("id", "/run/vc/vm/id"), vec!["/run/vc/vm/id"]);
    assert_eq!(ch.id, "id");
    assert_eq!(ch.run_dir, "/run/vc/vm/id");
    assert_eq!(ch.vm_path, "/run/vc/vm/id");
    assert_eq!(ch.state, VmmState::NotReady);
    ch.jailer_root = "/jail".into();
    assert_eq!(ch.setup_environment("id", "/s"), vec!["/s", "/jail"]);
    assert_eq!(
        ch.prepare_vm(Some("/ns".into()), Some("label".into())),
        Some("label".to_string())
    );
    assert_eq!(ch.netns, Some("/ns".to_string()));
    assert_eq!(ch.config.selinux_label, Some("label".to_string()));
    ch.config.disable_selinux = true;
    assert_eq!(ch.prepare_vm(None, Some("other".into())), None);
    assert_eq!(ch.config.selinux_label, Some("label".to_string()));
    assert_eq!(ch.netns, None);
}

#[test]
fn second_stop_does_nothing() {
    let mut ch = CloudHypervisorInner::default();
    assert!(!ch.stop_vm());
    ch.state = VmmState::VmRunning;
    assert!(ch.stop_vm());
    assert_eq!(ch.state, VmmState::NotReady);
    assert!(!ch.stop_vm());
}

#[test]
fn shutdown_needs_channel_and_tasks() {
    let mut ch = CloudHypervisorInner::default();
    assert_eq!(ch.cloud_hypervisor_shutdown(), Err(HypervisorError::NoShutdownChannel));
    ch.has_shutdown_sender = true;
    assert_eq!(ch.cloud_hypervisor_shutdown(), Ok(()));
    assert_eq!(ch.take_tasks(), Err(HypervisorError::NoTasks));
    ch.has_tasks = true;
    assert_eq!(ch.take_tasks(), Ok(()));
    assert!(!ch.has_tasks);
    assert_eq!(CloudHypervisorInner::tasks_waited(0), Ok(()));
    assert_eq!(
        CloudHypervisorInner::tasks_waited(2),
        Err(HypervisorError::TasksFailed(2))
    );
}

#[test]
fn process_is_taken_to_be_waited_for() {
    let mut ch = CloudHypervisorInner::default();
    assert_eq!(ch.cloud_hypervisor_wait(), Err(HypervisorError::NotRunning));
    ch.process = Some(None);
    assert_eq!(ch.cloud_hypervisor_wait(), Err(HypervisorError::MissingPid));
    ch.process = Some(Some(9));
    assert_eq!(ch.cloud_hypervisor_wait(), Ok(9));
    assert_eq!(ch.process, None);
}

#[test]
fn questions_are_answered() {
    let mut ch = CloudHypervisorInner::default();
    assert_eq!(ch.get_vmm_master_tid(), Err(HypervisorError::NoMasterTid));
    assert_eq!(ch.get_pids(), Err(HypervisorError::NoMasterTid));
    assert_eq!(ch.get_thread_ids(), Err(HypervisorError::NoMasterTid));
    assert_eq!(ch.get_ns_path(), Err(HypervisorError::NoNsPath));
    ch.pid = Some(1234);
    assert_eq!(ch.get_vmm_master_tid(), Ok(1234));
    assert_eq!(ch.get_pids(), Ok(vec![1234]));
    assert_eq!(ch.get_thread_ids(), Ok("/proc/1234".to_string()));
    assert_eq!(ch.get_ns_path(), Ok("/proc/1234/ns".to_string()));
    assert_eq!(CloudHypervisorInner::get_agent_socket("/v"), "hvsock:///v");
    assert_eq!(CloudHypervisorInner::save_vm("/d"), Ok("file:///d".to_string()));
    assert_eq!(
        CloudHypervisorInner::save_vm(""),
        Err(HypervisorError::DestDirRequired)
    );
    assert_eq!(ch.check(), Ok(()));
    assert_eq!(ch.wait_vm(), Ok(0));
    assert_eq!(
        ch.get_hypervisor_metrics(),
        Err(HypervisorError::MetricsNotImplemented)
    );
    ch.state = VmmState::VmRunning;
    ch.disconnect();
    assert_eq!(ch.state, VmmState::NotReady);
}

#[test]
fn tdx_shares_no_file_system() {
    let mut ch = CloudHypervisorInner::default();
    let all = Capabilities {
        block_device: true,
        block_device_hotplug: true,
        fs_sharing: true,
        hybrid_vsock: true,
    };
    assert_eq!(ch.capabilities(), all);
    ch.set_capabilities(Capabilities { fs_sharing: false, ..all });
    assert_eq!(ch.capabilities(), all);
    ch.guest_protection_to_use = GuestProtection::Tdx;
    assert_eq!(ch.capabilities(), Capabilities { fs_sharing: false, ..all });
}
