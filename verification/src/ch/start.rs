//! Starting a guest, by booting it or by restoring it.
use vstd::prelude::*;
use vstd::string::*;

use super::hypervisor::{CloudHypervisorInner, HypervisorConfig, HypervisorError, VmmState};
use super::protection;

verus! {

/// A step of starting a guest.
#[derive(Debug, Clone, Copy, PartialEq, Eq, Structural)]
pub enum StartStep {
    /// Take the pending devices and arm their file descriptors, for a restore.
    FinalizeRestore,
    /// Launch the hypervisor process.
    Launch,
    /// Connect to its API socket.
    SetupComms,
    /// Wait until it answers.
    CheckRunning,
    /// Create and boot the guest.
    Boot,
    /// Let the restored guest run: a restore leaves it paused.
    Resume,
    /// The guest runs.
    Done,
}

/// The step that comes after `step`.
pub open spec fn step_after(restoring: bool, step: StartStep) -> StartStep {
    match step {
        StartStep::FinalizeRestore => StartStep::Launch,
        StartStep::Launch => StartStep::SetupComms,
        StartStep::SetupComms => StartStep::CheckRunning,
        StartStep::CheckRunning => if restoring {
            StartStep::Resume
        } else {
            StartStep::Boot
        },
        StartStep::Boot => StartStep::Done,
        StartStep::Resume => StartStep::Done,
        StartStep::Done => StartStep::Done,
    }
}

/// The first step.
pub open spec fn first_step(restoring: bool) -> StartStep {
    if restoring {
        StartStep::FinalizeRestore
    } else {
        StartStep::Launch
    }
}

/// Whether a feature is in a list.
pub open spec fn has_feature(features: Seq<String>, feature: Seq<char>) -> bool {
    exists|i: int| 0 <= i < features.len() && (#[trigger] features[i])@ == feature
}

/// Whether TDX is to be used with a binary that is known not to support it.
pub open spec fn lacks_tdx(h: CloudHypervisorInner) -> bool {
    &&& h.guest_protection_to_use is Tdx
    &&& h.ch_features matches Some(features) && !has_feature(features@, "tdx"@)
}

/// Whether a feature is in a list.
fn feature_listed(features: &Vec<String>, feature: &str) -> (r: bool)
    ensures
        r == has_feature(features@, feature@),
{
    let wanted = String::from_str(feature);
    for i in 0..features.len()
        invariant
            wanted@ == feature@,
            forall|k: int| 0 <= k < i ==> (#[trigger] features@[k])@ != feature@,
    {
        if features[i] == wanted {
            assert(features@[i as int]@ == feature@);
            return true;
        }
    }
    false
}

impl CloudHypervisorInner {
    /// Whether the binary supports the protection that is to be used.
    pub fn check_tdx_support(&self) -> (r: Result<(), HypervisorError>)
        ensures
            r == if lacks_tdx(*self) {
                Err::<(), HypervisorError>(HypervisorError::NoTdxSupport)
            } else {
                Ok::<(), HypervisorError>(())
            },
    {
        if protection::guest_protection_is_tdx(self.guest_protection_to_use) {
            match &self.ch_features {
                Some(features) => {
                    if !feature_listed(features, "tdx") {
                        return Err(HypervisorError::NoTdxSupport);
                    }
                },
                None => {},
            }
        }
        Ok(())
    }

    /// Starts a guest: gives the first step.
    pub fn start_vm(&mut self, timeout_secs: i32) -> (r: StartStep)
        ensures
            r == first_step(old(self).restore_src is Some),
            *final(self) == (CloudHypervisorInner { timeout_secs, ..*old(self) }),
    {
        self.timeout_secs = timeout_secs;
        if self.restore_src.is_some() {
            StartStep::FinalizeRestore
        } else {
            StartStep::Launch
        }
    }

    /// A step has been taken: gives the next one. A step that fails ends the start.
    pub fn step_taken(&mut self, step: StartStep) -> (r: Result<StartStep, HypervisorError>)
        ensures
            step is CheckRunning && lacks_tdx(*old(self)) ==> r == Err::<
                StartStep,
                HypervisorError,
            >(HypervisorError::NoTdxSupport) && *final(self) == *old(self),
            !(step is CheckRunning && lacks_tdx(*old(self))) ==> r == Ok::<
                StartStep,
                HypervisorError,
            >(step_after(old(self).restore_src is Some, step)) && *final(self) == (
            CloudHypervisorInner {
                state: match step {
                    StartStep::CheckRunning => VmmState::VmmServerReady,
                    StartStep::Boot => VmmState::VmRunning,
                    StartStep::Resume => VmmState::VmRunning,
                    _ => old(self).state,
                },
                ..*old(self)
            }),
    {
        match step {
            StartStep::FinalizeRestore => Ok(StartStep::Launch),
            StartStep::Launch => Ok(StartStep::SetupComms),
            StartStep::SetupComms => Ok(StartStep::CheckRunning),
            StartStep::CheckRunning => {
                self.check_tdx_support()?;
                self.state = VmmState::VmmServerReady;
                if self.restore_src.is_some() {
                    Ok(StartStep::Resume)
                } else {
                    Ok(StartStep::Boot)
                }
            },
            StartStep::Boot => {
                self.state = VmmState::VmRunning;
                Ok(StartStep::Done)
            },
            StartStep::Resume => {
                self.state = VmmState::VmRunning;
                Ok(StartStep::Done)
            },
            StartStep::Done => Ok(StartStep::Done),
        }
    }
}

/// The step after `n` steps.
pub open spec fn nth_step(restoring: bool, n: nat) -> StartStep
    decreases n,
{
    if n == 0 {
        first_step(restoring)
    } else {
        step_after(restoring, nth_step(restoring, (n - 1) as nat))
    }
}

/// A restored guest is never booted, and a booted one never resumed: the steps of a restore are to
/// arm, launch, connect, wait and resume; those of a boot are to launch, connect, wait and boot.
pub proof fn law_restore_never_boots(n: nat)
    ensures
        nth_step(true, n) != StartStep::Boot,
        nth_step(false, n) != StartStep::Resume,
        nth_step(false, n) != StartStep::FinalizeRestore,
        n >= 5 ==> nth_step(true, n) == StartStep::Done && nth_step(false, n) == StartStep::Done,
    decreases n,
{
    reveal_with_fuel(nth_step, 6);
    if n > 5 {
        law_restore_never_boots((n - 1) as nat);
    }
}

// ---------------------------------------------------------------------------
// Booting.
// ---------------------------------------------------------------------------

/// A step of booting a guest.
#[derive(Debug, Clone, PartialEq, Eq)]
pub enum BootStep {
    /// Create the guest.
    CreateVm,
    /// Add the network device with this index, with these file descriptors.
    AddNetdev { index: usize, fds: Vec<i32> },
    /// Close a file descriptor: it has been handed over.
    CloseFd(i32),
    /// Start the guest.
    StartVm,
}

/// What a step is.
pub enum Boot {
    CreateVm,
    AddNetdev { index: int, fds: Seq<i32> },
    CloseFd(i32),
    StartVm,
}

impl View for BootStep {
    type V = Boot;

    open spec fn view(&self) -> Boot {
        match *self {
            BootStep::CreateVm => Boot::CreateVm,
            BootStep::AddNetdev { index, fds } => Boot::AddNetdev { index: index as int, fds: fds@ },
            BootStep::CloseFd(fd) => Boot::CloseFd(fd),
            BootStep::StartVm => Boot::StartVm,
        }
    }
}

/// What the steps are.
pub open spec fn boot_view(steps: Seq<BootStep>) -> Seq<Boot> {
    Seq::new(steps.len(), |i: int| steps[i]@)
}

/// The file descriptors of a network device; none where it names none.
pub open spec fn fds_of(fds: Option<Vec<i32>>) -> Seq<i32> {
    match fds {
        Some(fds) => fds@,
        None => Seq::empty(),
    }
}

/// The steps for one network device: add it, then close what was handed over.
pub open spec fn netdev_steps(index: int, fds: Seq<i32>) -> Seq<Boot> {
    seq![Boot::AddNetdev { index, fds }] + Seq::new(fds.len(), |k: int| Boot::CloseFd(fds[k]))
}

/// The steps for the first `n` network devices.
pub open spec fn netdevs_steps(nets: Seq<Option<Vec<i32>>>, n: nat) -> Seq<Boot>
    decreases n,
{
    if n == 0 {
        Seq::empty()
    } else {
        netdevs_steps(nets, (n - 1) as nat) + netdev_steps(n - 1, fds_of(nets[n - 1]))
    }
}

impl CloudHypervisorInner {
    /// The steps of booting a guest with these network devices, each given by its file descriptors:
    /// create it, add the devices, start it.
    pub fn boot_vm(nets: &[Option<Vec<i32>>]) -> (r: Vec<BootStep>)
        ensures
            boot_view(r@) == seq![Boot::CreateVm] + netdevs_steps(nets@, nets@.len()) + seq![
                Boot::StartVm,
            ],
            r@.len() >= 2 + nets@.len(),
            r@[0] is CreateVm,
            r@.last() is StartVm,
            forall|i: int|
                0 < i < r@.len() - 1 ==> (#[trigger] r@[i]) is AddNetdev || r@[i] is CloseFd,
    {
        let mut steps: Vec<BootStep> = Vec::new();
        steps.push(BootStep::CreateVm);
        let ghost first = seq![Boot::CreateVm];
        assert(boot_view(steps@) =~= first);
        for i in 0..nets.len()
            invariant
                boot_view(steps@) =~= first + netdevs_steps(nets@, i as nat),
        {
            let ghost had = boot_view(steps@);
            let fds: Vec<i32> = match &nets[i] {
                Some(fds) => vstd::slice::slice_to_vec(fds.as_slice()),
                None => Vec::new(),
            };
            let close: Vec<i32> = vstd::slice::slice_to_vec(fds.as_slice());
            let ghost all = fds@;
            assert(all =~= fds_of(nets@[i as int]));
            steps.push(BootStep::AddNetdev { index: i, fds });
            let ghost added = had.push(Boot::AddNetdev { index: i as int, fds: all });
            assert(boot_view(steps@) =~= added);
            for k in 0..close.len()
                invariant
                    close@ == all,
                    boot_view(steps@) =~= added + Seq::new(k as nat, |q: int| Boot::CloseFd(all[q])),
            {
                let ghost before = boot_view(steps@);
                steps.push(BootStep::CloseFd(close[k]));
                assert(boot_view(steps@) =~= before.push(Boot::CloseFd(all[k as int])));
            }
            assert(boot_view(steps@) =~= had + netdev_steps(i as int, all));
        }
        let ghost before = boot_view(steps@);
        steps.push(BootStep::StartVm);
        assert(boot_view(steps@) =~= before.push(Boot::StartVm));
        proof {
            let n = nets@.len();
            lemma_netdevs(nets@, n);
            assert(boot_view(steps@)[0] == steps@[0]@);
            assert(boot_view(steps@).last() == steps@.last()@);
            assert forall|i: int| 0 < i < steps@.len() - 1 implies (#[trigger] steps@[i])
                is AddNetdev || steps@[i] is CloseFd by {
                assert(boot_view(steps@)[i] == steps@[i]@);
                assert(boot_view(steps@)[i] == netdevs_steps(nets@, n)[i - 1]);
            }
        }
        steps
    }
}

// ---------------------------------------------------------------------------
// Kernel parameters.
// ---------------------------------------------------------------------------

/// A group of kernel parameters.
#[derive(Debug, Clone, PartialEq, Eq)]
pub enum KernelParamGroup {
    /// The default set, with or without debugging.
    Defaults { debug: bool },
    /// Parameters as they stand, separated by spaces.
    Text(String),
    /// Those of the root file system: its verity parameters, its type.
    Rootfs { verity_params: String, rootfs_type: String },
}

/// What a group is.
pub enum ParamGroup {
    Defaults { debug: bool },
    Text(Seq<char>),
    Rootfs { verity_params: Seq<char>, rootfs_type: Seq<char> },
}

impl View for KernelParamGroup {
    type V = ParamGroup;

    open spec fn view(&self) -> ParamGroup {
        match *self {
            KernelParamGroup::Defaults { debug } => ParamGroup::Defaults { debug },
            KernelParamGroup::Text(text) => ParamGroup::Text(text@),
            KernelParamGroup::Rootfs { verity_params, rootfs_type } => ParamGroup::Rootfs {
                verity_params: verity_params@,
                rootfs_type: rootfs_type@,
            },
        }
    }
}

/// What the groups are.
pub open spec fn params_view(groups: Seq<KernelParamGroup>) -> Seq<ParamGroup> {
    Seq::new(groups.len(), |i: int| groups[i]@)
}

/// The kind of machine that a guest runs on.
#[derive(Debug, Clone, Copy, PartialEq, Eq, Structural)]
pub enum Machine {
    X86_64,
    Aarch64,
}

/// The serial port of a machine, as a console.
pub open spec fn serial_console(machine: Machine) -> Seq<char> {
    match machine {
        Machine::X86_64 => "console=ttyS0,115200n8"@,
        Machine::Aarch64 => "console=ttyAMA0,115200n8"@,
    }
}

/// Where kernel messages go: nowhere without debugging, and to a serial port only where the guest
/// is not confidential.
pub open spec fn console_params(config: HypervisorConfig, machine: Machine) -> Seq<char> {
    if !config.enable_debug {
        "quiet"@
    } else if config.confidential_guest {
        "console=hvc0"@
    } else {
        serial_console(machine)
    }
}

impl CloudHypervisorInner {
    /// The kernel parameters, group by group. Those of the user come last, so that they take priority.
    pub fn get_kernel_params(&self, default_rootfs_type: &str, machine: Machine) -> (r: Vec<
        KernelParamGroup,
    >)
        ensures
            params_view(r@) == seq![
                ParamGroup::Defaults { debug: self.config.enable_debug },
                ParamGroup::Text(console_params(self.config, machine)),
                ParamGroup::Rootfs {
                    verity_params: self.config.kernel_verity_params@,
                    rootfs_type: if self.config.rootfs_type@.len() == 0 {
                        default_rootfs_type@
                    } else {
                        self.config.rootfs_type@
                    },
                },
                ParamGroup::Text("no_timer_check noreplace-smp systemd.log_target=console"@),
                ParamGroup::Text(self.config.kernel_params@),
            ],
            r@.len() == 5,
            r@[0] == (KernelParamGroup::Defaults { debug: self.config.enable_debug }),
            r@[1] matches KernelParamGroup::Text(console) && (!self.config.enable_debug ==> console@
                == "quiet"@) && (self.config.enable_debug && self.config.confidential_guest
                ==> console@ == "console=hvc0"@),
            r@[3] matches KernelParamGroup::Text(fixed) && fixed@
                == "no_timer_check noreplace-smp systemd.log_target=console"@,
            r@[2] matches KernelParamGroup::Rootfs { verity_params, rootfs_type } && verity_params@
                == self.config.kernel_verity_params@ && (self.config.rootfs_type@.len() > 0 ==>
                rootfs_type@ == self.config.rootfs_type@) && (self.config.rootfs_type@.len() == 0
                ==> rootfs_type@ == default_rootfs_type@),
            r@[4] matches KernelParamGroup::Text(own) && own@ == self.config.kernel_params@,
    {
        let console: &str = if !self.config.enable_debug {
            "quiet"
        } else if self.config.confidential_guest {
            "console=hvc0"
        } else {
            match machine {
                Machine::X86_64 => "console=ttyS0,115200n8",
                Machine::Aarch64 => "console=ttyAMA0,115200n8",
            }
        };
        let rootfs_type: String = if self.config.rootfs_type.as_str().is_empty() {
            String::from_str(default_rootfs_type)
        } else {
            self.config.rootfs_type.clone()
        };
        let mut groups: Vec<KernelParamGroup> = Vec::new();
        groups.push(KernelParamGroup::Defaults { debug: self.config.enable_debug });
        groups.push(KernelParamGroup::Text(String::from_str(console)));
        groups.push(
            KernelParamGroup::Rootfs {
                verity_params: self.config.kernel_verity_params.clone(),
                rootfs_type,
            },
        );
        groups.push(
            KernelParamGroup::Text(
                String::from_str("no_timer_check noreplace-smp systemd.log_target=console"),
            ),
        );
        groups.push(KernelParamGroup::Text(self.config.kernel_params.clone()));
        assert(params_view(groups@) =~= seq![
            groups@[0]@,
            groups@[1]@,
            groups@[2]@,
            groups@[3]@,
            groups@[4]@,
        ]);
        groups
    }
}

/// The steps of a start, one by one. A restore arms, launches, connects, waits and resumes; a boot
/// launches, connects, waits and boots. Then the guest runs, and stays so.
pub proof fn law_steps_of_a_start(n: nat)
    ensures
        nth_step(true, 0) is FinalizeRestore,
        nth_step(true, 1) is Launch,
        nth_step(true, 2) is SetupComms,
        nth_step(true, 3) is CheckRunning,
        nth_step(true, 4) is Resume,
        nth_step(false, 0) is Launch,
        nth_step(false, 1) is SetupComms,
        nth_step(false, 2) is CheckRunning,
        nth_step(false, 3) is Boot,
        nth_step(true, 5 + n) is Done,
        nth_step(false, 4 + n) is Done,
    decreases n,
{
    reveal_with_fuel(nth_step, 6);
    if n > 0 {
        law_steps_of_a_start((n - 1) as nat);
        assert(nth_step(true, 5 + n) == step_after(true, nth_step(true, (5 + n - 1) as nat)));
        assert(nth_step(false, 4 + n) == step_after(false, nth_step(false, (4 + n - 1) as nat)));
    }
}

/// A binary is refused exactly where TDX is to be used and its features are known without `tdx`
/// among them.
pub proof fn law_tdx_support_is_checked(h: CloudHypervisorInner, i: int)
    ensures
        lacks_tdx(h) ==> h.guest_protection_to_use is Tdx && h.ch_features is Some,
        !(h.guest_protection_to_use is Tdx) ==> !lacks_tdx(h),
        h.ch_features is None ==> !lacks_tdx(h),
        h.ch_features matches Some(features) ==> (0 <= i < features@.len() && features@[i]@
            == "tdx"@ ==> !lacks_tdx(h)),
        h.guest_protection_to_use is Tdx && (h.ch_features matches Some(features) && forall|k: int|
            0 <= k < features@.len() ==> (#[trigger] features@[k])@ != "tdx"@) ==> lacks_tdx(h),
{
}

/// What the steps for network devices are.
proof fn lemma_netdevs(nets: Seq<Option<Vec<i32>>>, n: nat)
    ensures
        netdevs_steps(nets, n).len() >= n,
        forall|i: int|
            0 <= i < netdevs_steps(nets, n).len() ==> (#[trigger] netdevs_steps(nets, n)[i])
                is AddNetdev || netdevs_steps(nets, n)[i] is CloseFd,
    decreases n,
{
    if n > 0 {
        lemma_netdevs(nets, (n - 1) as nat);
    }
}

/// Every network device is added once, in order, with its own descriptors, and each of these is
/// closed right behind it, before the next device.
pub proof fn law_devices_are_added_in_order(nets: Seq<Option<Vec<i32>>>, n: nat, i: int, k: int)
    requires
        0 <= i < n <= nets.len(),
    ensures
        ({
            let all = netdevs_steps(nets, n);
            let at = netdevs_steps(nets, i as nat).len() as int;
            let fds = match nets[i] {
                Some(fds) => fds@,
                None => Seq::<i32>::empty(),
            };
            &&& netdevs_steps(nets, 0).len() == 0
            &&& netdevs_steps(nets, (i + 1) as nat).len() == at + 1 + fds.len()
            &&& at + 1 + fds.len() <= all.len()
            &&& all[at] == Boot::AddNetdev { index: i, fds }
            &&& 0 <= k < fds.len() ==> all[at + 1 + k] == Boot::CloseFd(fds[k])
        }),
    decreases n,
{
    let before = netdevs_steps(nets, (n - 1) as nat);
    if i < n - 1 {
        law_devices_are_added_in_order(nets, (n - 1) as nat, i, k);
        let at = netdevs_steps(nets, i as nat).len() as int;
        assert(netdevs_steps(nets, n)[at] == before[at]);
    }
}

/// Where kernel messages go.
pub proof fn law_console(config: HypervisorConfig, machine: Machine)
    ensures
        !config.enable_debug ==> console_params(config, machine) == "quiet"@,
        config.enable_debug && config.confidential_guest ==> console_params(config, machine)
            == "console=hvc0"@,
        config.enable_debug && !config.confidential_guest && machine is X86_64 ==> console_params(
            config,
            machine,
        ) == "console=ttyS0,115200n8"@,
        config.enable_debug && !config.confidential_guest && machine is Aarch64 ==> console_params(
            config,
            machine,
        ) == "console=ttyAMA0,115200n8"@,
{
}

/// A boot step or a group of parameters, and what is said of it, hold the same.
pub proof fn law_steps_are_told_in_full(step: BootStep, group: KernelParamGroup)
    ensures
        match step {
            BootStep::CreateVm => step@ is CreateVm,
            BootStep::AddNetdev { index, fds } => step@ == (Boot::AddNetdev {
                index: index as int,
                fds: fds@,
            }),
            BootStep::CloseFd(fd) => step@ == Boot::CloseFd(fd),
            BootStep::StartVm => step@ is StartVm,
        },
        match group {
            KernelParamGroup::Defaults { debug } => group@ == (ParamGroup::Defaults { debug }),
            KernelParamGroup::Text(text) => group@ == ParamGroup::Text(text@),
            KernelParamGroup::Rootfs { verity_params, rootfs_type } => group@
                == (ParamGroup::Rootfs {
                verity_params: verity_params@,
                rootfs_type: rootfs_type@,
            }),
        },
{
}

/// What comes after a step does not depend on how the start began, but for what comes after the
/// hypervisor answers: a restored guest is resumed, and any other booted.
pub proof fn law_step_after(restoring: bool)
    ensures
        step_after(restoring, StartStep::FinalizeRestore) is Launch,
        step_after(restoring, StartStep::Launch) is SetupComms,
        step_after(restoring, StartStep::SetupComms) is CheckRunning,
        step_after(restoring, StartStep::CheckRunning) is Resume <==> restoring,
        step_after(restoring, StartStep::CheckRunning) is Boot <==> !restoring,
        step_after(restoring, StartStep::Boot) is Done,
        step_after(restoring, StartStep::Resume) is Done,
        step_after(restoring, StartStep::Done) is Done,
{
}

/// What is said of steps and of groups is said of each, in order.
pub proof fn law_lists_are_told_in_order(
    steps: Seq<BootStep>,
    groups: Seq<KernelParamGroup>,
    i: int,
)
    ensures
        boot_view(steps).len() == steps.len(),
        0 <= i < steps.len() ==> boot_view(steps)[i] == steps[i]@,
        params_view(groups).len() == groups.len(),
        0 <= i < groups.len() ==> params_view(groups)[i] == groups[i]@,
{
}

} // verus!
