//! The state of one hypervisor instance and the steps of its life.
//!
//! Processes, sockets and files are the caller's. The functions here decide what is done with
//! them: each takes what the caller has found out, changes the state, and says what comes next.
use vstd::prelude::*;
use vstd::string::*;

use super::memory;
use super::memory::ResizeMemoryError;
use super::protection;
use super::protection::{GuestProtection, GuestProtectionError};
use crate::text;

verus! {

/// How far the hypervisor is.
#[derive(Debug, Clone, Copy, PartialEq, Eq, Structural)]
pub enum VmmState {
    NotReady,
    VmmServerReady,
    VmRunning,
}

/// The user that an unprivileged hypervisor process runs as.
#[derive(Debug, Clone, PartialEq, Eq)]
pub struct RootlessUser {
    pub uid: u32,
    pub gid: u32,
    pub groups: Vec<u32>,
}

/// What is configured for a hypervisor.
#[derive(Debug, Clone, PartialEq, Eq)]
pub struct HypervisorConfig {
    /// Path of the hypervisor binary.
    pub path: String,
    pub enable_debug: bool,
    pub disable_seccomp: bool,
    pub confidential_guest: bool,
    pub disable_selinux: bool,
    pub selinux_label: Option<String>,
    pub rootless_user: Option<RootlessUser>,
    /// Type of the root file system; empty for the default one.
    pub rootfs_type: String,
    pub kernel_params: String,
    pub kernel_verity_params: String,
    pub default_maxvcpus: u32,
    /// Most memory a guest may have, in mebibytes.
    pub default_maxmemory: u32,
}

/// A file descriptor to hand to the hypervisor, and the network device it is for.
#[derive(Debug, Clone, PartialEq, Eq)]
pub struct NetFd {
    pub id: String,
    pub fd: i32,
}

/// A device that waits for the guest to start.
#[derive(Debug, Clone, PartialEq, Eq)]
pub enum PendingDevice {
    /// A network device, by the name of its host TAP.
    Network(String),
    /// Any other device, by its description.
    Other(String),
}

/// One hypervisor instance.
#[derive(Debug, Clone, PartialEq, Eq)]
pub struct CloudHypervisorInner {
    /// Sandbox id.
    pub id: String,
    pub state: VmmState,
    pub config: HypervisorConfig,
    /// A process that is already running, with its id where it has one.
    pub process: Option<Option<u32>>,
    /// Process id of the hypervisor.
    pub pid: Option<u32>,
    pub timeout_secs: i32,
    pub extra_args: Option<Vec<String>>,
    /// Path of the network namespace.
    pub netns: Option<String>,
    pub run_dir: String,
    pub vm_path: String,
    pub jailer_root: String,
    /// Snapshot directory that the next start restores from.
    pub restore_src: Option<String>,
    /// File descriptors that the next launch hands on.
    pub restore_net_fds: Vec<NetFd>,
    pub pending_devices: Vec<PendingDevice>,
    /// Build-time features of the hypervisor binary, once they are known.
    pub ch_features: Option<Vec<String>>,
    pub guest_protection_to_use: GuestProtection,
    pub guest_memory_block_size_mb: u32,
    /// Whether there is a channel to listen for a shutdown on.
    pub has_shutdown_receiver: bool,
    /// Whether there is a channel to request a shutdown on.
    pub has_shutdown_sender: bool,
    /// Whether there is a channel to pass the exit code on.
    pub has_exit_notify: bool,
    /// Whether background tasks are running.
    pub has_tasks: bool,
}

/// A configuration in which nothing is set.
pub open spec fn nothing_set(c: HypervisorConfig) -> bool {
    &&& c.path@ == Seq::<char>::empty()
    &&& !c.enable_debug
    &&& !c.disable_seccomp
    &&& !c.confidential_guest
    &&& !c.disable_selinux
    &&& c.selinux_label is None
    &&& c.rootless_user is None
    &&& c.rootfs_type@ == Seq::<char>::empty()
    &&& c.kernel_params@ == Seq::<char>::empty()
    &&& c.kernel_verity_params@ == Seq::<char>::empty()
    &&& c.default_maxvcpus == 0
    &&& c.default_maxmemory == 0
}

impl Default for HypervisorConfig {
    fn default() -> (r: Self)
        ensures
            nothing_set(r),
            r.path@.len() == 0 && r.rootfs_type@.len() == 0 && r.kernel_params@.len() == 0,
            r.kernel_verity_params@.len() == 0,
            !r.enable_debug && !r.disable_seccomp && !r.confidential_guest && !r.disable_selinux,
            r.selinux_label is None && r.rootless_user is None,
            r.default_maxvcpus == 0 && r.default_maxmemory == 0,
    {
        HypervisorConfig {
            path: String::new(),
            enable_debug: false,
            disable_seccomp: false,
            confidential_guest: false,
            disable_selinux: false,
            selinux_label: None,
            rootless_user: None,
            rootfs_type: String::new(),
            kernel_params: String::new(),
            kernel_verity_params: String::new(),
            default_maxvcpus: 0,
            default_maxmemory: 0,
        }
    }
}

impl Default for CloudHypervisorInner {
    fn default() -> (r: Self)
        ensures
            r.id@ == Seq::<char>::empty(),
            r.state is NotReady,
            nothing_set(r.config),
            r.config.path@.len() == 0 && r.config.rootfs_type@.len() == 0,
            r.config.kernel_params@.len() == 0 && r.config.kernel_verity_params@.len() == 0,
            !r.config.enable_debug && !r.config.disable_seccomp && !r.config.confidential_guest,
            !r.config.disable_selinux && r.config.selinux_label is None,
            r.config.rootless_user is None,
            r.config.default_maxvcpus == 0 && r.config.default_maxmemory == 0,
            r.process is None,
            r.pid is None,
            r.timeout_secs == 0,
            r.extra_args is None,
            r.netns is None,
            r.run_dir@ == Seq::<char>::empty(),
            r.vm_path@ == Seq::<char>::empty(),
            r.jailer_root@ == Seq::<char>::empty(),
            r.restore_src is None,
            r.restore_net_fds@.len() == 0,
            r.pending_devices@.len() == 0,
            r.ch_features is None,
            r.guest_protection_to_use is NoProtection,
            r.guest_memory_block_size_mb == 0,
            !r.has_shutdown_receiver,
            !r.has_shutdown_sender,
            !r.has_exit_notify,
            !r.has_tasks,
    {
        CloudHypervisorInner {
            id: String::new(),
            state: VmmState::NotReady,
            config: HypervisorConfig::default(),
            process: None,
            pid: None,
            timeout_secs: 0,
            extra_args: None,
            netns: None,
            run_dir: String::new(),
            vm_path: String::new(),
            jailer_root: String::new(),
            restore_src: None,
            restore_net_fds: Vec::new(),
            pending_devices: Vec::new(),
            ch_features: None,
            guest_protection_to_use: GuestProtection::NoProtection,
            guest_memory_block_size_mb: 0,
            has_shutdown_receiver: false,
            has_shutdown_sender: false,
            has_exit_notify: false,
            has_tasks: false,
        }
    }
}

/// Why something was not done.
#[derive(Debug, Clone, Copy, PartialEq, Eq, Structural)]
pub enum HypervisorError {
    /// There is no hypervisor process.
    NoMasterTid,
    /// There is no hypervisor process to name a namespace of.
    NoNsPath,
    /// A destination directory is needed.
    DestDirRequired,
    /// A snapshot directory is needed.
    SnapshotSrcRequired,
    /// The snapshot source is not a directory.
    SnapshotSrcNotDirectory,
    /// The snapshot lacks `state.json`.
    StateFileMissing,
    /// The snapshot lacks `config.json`.
    ConfigFileMissing,
    /// A guest needs a vCPU.
    ZeroVcpus,
    /// The binary is not built with TDX support.
    NoTdxSupport,
    /// There is no channel to request a shutdown on.
    NoShutdownChannel,
    /// There are no background tasks to wait for.
    NoTasks,
    /// This many background tasks failed.
    TasksFailed(usize),
    /// Metrics are not available.
    MetricsNotImplemented,
    /// There is no process to wait for.
    NotRunning,
    /// The process has no id.
    MissingPid,
}

/// What a hypervisor can do.
#[derive(Debug, Clone, Copy, PartialEq, Eq, Structural)]
pub struct Capabilities {
    pub block_device: bool,
    pub block_device_hotplug: bool,
    pub fs_sharing: bool,
    pub hybrid_vsock: bool,
}

/// What a request to stop comes to: whether the guest is shut down, and the state after it.
pub open spec fn stop_request(state: VmmState) -> (bool, VmmState) {
    match state {
        VmmState::VmRunning => (true, VmmState::NotReady),
        _ => (false, state),
    }
}

/// A guest is shut down exactly where it runs, and is not ready after it; in any other state a
/// request changes nothing.
pub proof fn law_only_a_running_guest_is_stopped(state: VmmState)
    ensures
        stop_request(state).0 <==> state is VmRunning,
        stop_request(state).1 == if state is VmRunning {
            VmmState::NotReady
        } else {
            state
        },
{
}

/// A guest is shut down once: a second request to stop does nothing.
pub proof fn law_second_stop_does_nothing(state: VmmState)
    ensures
        ({
            let after = stop_request(state).1;
            stop_request(after) == (false, after)
        }),
{
}

impl CloudHypervisorInner {
    // -----------------------------------------------------------------------
    // Preparing.
    // -----------------------------------------------------------------------
    /// Starts preparing sandbox `id`, whose directory is `sandbox_path`. Gives the directories to
    /// create, in order.
    pub fn setup_environment(&mut self, id: &str, sandbox_path: &str) -> (r: Vec<String>)
        ensures
            final(self).id@ == id@,
            final(self).run_dir@ == sandbox_path@,
            final(self).vm_path@ == sandbox_path@,
            *final(self) == (CloudHypervisorInner {
                id: final(self).id,
                state: VmmState::NotReady,
                run_dir: final(self).run_dir,
                vm_path: final(self).vm_path,
                ..*old(self)
            }),
            r@.len() == if old(self).jailer_root@.len() == 0 {
                1int
            } else {
                2int
            },
            r@[0]@ == sandbox_path@,
            old(self).jailer_root@.len() > 0 ==> r@[1]@ == old(self).jailer_root@,
    {
        self.id = String::from_str(id);
        self.state = VmmState::NotReady;
        self.run_dir = String::from_str(sandbox_path);
        self.vm_path = String::from_str(sandbox_path);
        let mut dirs: Vec<String> = Vec::new();
        dirs.push(String::from_str(sandbox_path));
        if !self.jailer_root.as_str().is_empty() {
            dirs.push(self.jailer_root.clone());
        }
        dirs
    }

    /// Checks that a guest may be started with the protection that the host offers, and takes note
    /// of it. One that is not requested and need not be used is not.
    pub fn handle_guest_protection(&mut self, protection: GuestProtection) -> (r: Result<
        (),
        GuestProtectionError,
    >)
        ensures
            r == protection::protection_check(old(self).config.confidential_guest, protection),
            *final(self) == (CloudHypervisorInner {
                guest_protection_to_use: protection::protection_to_use(
                    old(self).config.confidential_guest,
                    protection,
                ),
                ..*old(self)
            }),
    {
        let confidential: bool = self.config.confidential_guest;
        self.guest_protection_to_use = protection;
        protection::check_protection(confidential, protection)?;
        if !confidential {
            self.guest_protection_to_use = GuestProtection::NoProtection;
        }
        Ok(())
    }

    /// Ends preparing: takes note of the network namespace and, unless SELinux is disabled, of the
    /// label. Gives the label to set for the process, if any.
    pub fn prepare_vm(&mut self, netns: Option<String>, selinux_label: Option<String>) -> (r:
        Option<String>)
        ensures
            r == (if old(self).config.disable_selinux {
                None::<String>
            } else {
                selinux_label
            }),
            *final(self) == (CloudHypervisorInner {
                netns,
                config: HypervisorConfig {
                    selinux_label: if r is Some {
                        r
                    } else {
                        old(self).config.selinux_label
                    },
                    ..old(self).config
                },
                ..*old(self)
            }),
    {
        self.netns = netns;
        if self.config.disable_selinux {
            return None;
        }
        match selinux_label {
            Some(label) => {
                self.config.selinux_label = Some(label.clone());
                Some(label)
            },
            None => None,
        }
    }

    // -----------------------------------------------------------------------
    // Running.
    // -----------------------------------------------------------------------
    /// Whether the guest is to be shut down. It is once, while it runs: a second request finds it
    /// stopped and does nothing.
    pub fn stop_vm(&mut self) -> (r: bool)
        ensures
            r == stop_request(old(self).state).0,
            r <==> old(self).state is VmRunning,
            final(self).state == if r {
                VmmState::NotReady
            } else {
                old(self).state
            },
            *final(self) == (CloudHypervisorInner {
                state: stop_request(old(self).state).1,
                ..*old(self)
            }),
    {
        match self.state {
            VmmState::VmRunning => {
                self.state = VmmState::NotReady;
                true
            },
            _ => false,
        }
    }

    /// After the shutdown was asked for over the API: whether there is a channel to request the end
    /// of the background tasks on.
    pub fn cloud_hypervisor_shutdown(&self) -> (r: Result<(), HypervisorError>)
        ensures
            r == if self.has_shutdown_sender {
                Ok::<(), HypervisorError>(())
            } else {
                Err::<(), HypervisorError>(HypervisorError::NoShutdownChannel)
            },
    {
        if self.has_shutdown_sender {
            Ok(())
        } else {
            Err(HypervisorError::NoShutdownChannel)
        }
    }

    /// Takes the background tasks, to wait for them.
    pub fn take_tasks(&mut self) -> (r: Result<(), HypervisorError>)
        ensures
            r == if old(self).has_tasks {
                Ok::<(), HypervisorError>(())
            } else {
                Err::<(), HypervisorError>(HypervisorError::NoTasks)
            },
            *final(self) == (CloudHypervisorInner { has_tasks: false, ..*old(self) }),
    {
        if !self.has_tasks {
            return Err(HypervisorError::NoTasks);
        }
        self.has_tasks = false;
        Ok(())
    }

    /// The outcome of waiting for the background tasks, of which this many failed.
    pub fn tasks_waited(failed: usize) -> (r: Result<(), HypervisorError>)
        ensures
            r == if failed == 0 {
                Ok::<(), HypervisorError>(())
            } else {
                Err::<(), HypervisorError>(HypervisorError::TasksFailed(failed))
            },
    {
        if failed == 0 {
            Ok(())
        } else {
            Err(HypervisorError::TasksFailed(failed))
        }
    }

    /// Takes the process, to kill it and wait for it. Gives its id.
    pub fn cloud_hypervisor_wait(&mut self) -> (r: Result<u32, HypervisorError>)
        ensures
            r == match old(self).process {
                None => Err::<u32, HypervisorError>(HypervisorError::NotRunning),
                Some(None) => Err::<u32, HypervisorError>(HypervisorError::MissingPid),
                Some(Some(pid)) => Ok::<u32, HypervisorError>(pid),
            },
            *final(self) == (CloudHypervisorInner { process: None, ..*old(self) }),
    {
        let process: Option<Option<u32>> = self.process;
        self.process = None;
        match process {
            None => Err(HypervisorError::NotRunning),
            Some(None) => Err(HypervisorError::MissingPid),
            Some(Some(pid)) => Ok(pid),
        }
    }

    /// Forgets the connection.
    pub fn disconnect(&mut self)
        ensures
            *final(self) == (CloudHypervisorInner { state: VmmState::NotReady, ..*old(self) }),
    {
        self.state = VmmState::NotReady;
    }

    /// The URL that a snapshot into `dest_dir` is written to.
    pub fn save_vm(dest_dir: &str) -> (r: Result<String, HypervisorError>)
        ensures
            dest_dir@.len() == 0 ==> r == Err::<String, HypervisorError>(
                HypervisorError::DestDirRequired,
            ),
            dest_dir@.len() > 0 ==> (r matches Ok(url) && url@ == "file://"@ + dest_dir@),
    {
        if dest_dir.is_empty() {
            return Err(HypervisorError::DestDirRequired);
        }
        Ok(text::join2("file://", dest_dir))
    }

    // -----------------------------------------------------------------------
    // Restoring.
    // -----------------------------------------------------------------------
    /// Whether a snapshot can be restored from `snapshot_src`: it must be named, be a directory,
    /// and hold both files.
    pub fn check_restore_source(
        snapshot_src: &str,
        is_directory: bool,
        has_state: bool,
        has_config: bool,
    ) -> (r: Result<(), HypervisorError>)
        ensures
            r == if snapshot_src@.len() == 0 {
                Err::<(), HypervisorError>(HypervisorError::SnapshotSrcRequired)
            } else if !is_directory {
                Err::<(), HypervisorError>(HypervisorError::SnapshotSrcNotDirectory)
            } else if !has_state {
                Err::<(), HypervisorError>(HypervisorError::StateFileMissing)
            } else if !has_config {
                Err::<(), HypervisorError>(HypervisorError::ConfigFileMissing)
            } else {
                Ok::<(), HypervisorError>(())
            },
    {
        if snapshot_src.is_empty() {
            return Err(HypervisorError::SnapshotSrcRequired);
        }
        if !is_directory {
            return Err(HypervisorError::SnapshotSrcNotDirectory);
        }
        if !has_state {
            return Err(HypervisorError::StateFileMissing);
        }
        if !has_config {
            return Err(HypervisorError::ConfigFileMissing);
        }
        Ok(())
    }

    /// Arms the next start to restore from `snapshot_src`. The snapshot has been patched for this
    /// sandbox.
    pub fn prepare_for_restore(&mut self, snapshot_src: &str)
        ensures
            final(self).restore_src matches Some(src) && src@ == snapshot_src@,
            *final(self) == (CloudHypervisorInner {
                restore_src: final(self).restore_src,
                ..*old(self)
            }),
    {
        self.restore_src = Some(String::from_str(snapshot_src));
    }

    /// Sets the file descriptors that the next launch hands on. None disarms.
    pub fn set_restore_net_fds(&mut self, net_fds: Vec<NetFd>)
        ensures
            *final(self) == (CloudHypervisorInner { restore_net_fds: net_fds, ..*old(self) }),
    {
        self.restore_net_fds = net_fds;
    }

    // -----------------------------------------------------------------------
    // Asking.
    // -----------------------------------------------------------------------
    /// Where the agent listens: `hvsock://` and the socket path.
    pub fn get_agent_socket(vsock_path: &str) -> (r: String)
        ensures
            r@ == "hvsock://"@ + vsock_path@,
    {
        text::join2("hvsock://", vsock_path)
    }

    /// Process id of the hypervisor.
    pub fn get_vmm_master_tid(&self) -> (r: Result<u32, HypervisorError>)
        ensures
            r == match self.pid {
                Some(pid) => Ok::<u32, HypervisorError>(pid),
                None => Err::<u32, HypervisorError>(HypervisorError::NoMasterTid),
            },
    {
        match self.pid {
            Some(pid) => Ok(pid),
            None => Err(HypervisorError::NoMasterTid),
        }
    }

    /// Process ids of the hypervisor.
    pub fn get_pids(&self) -> (r: Result<Vec<u32>, HypervisorError>)
        ensures
            match self.pid {
                Some(pid) => r matches Ok(pids) && pids@ == seq![pid],
                None => r == Err::<Vec<u32>, HypervisorError>(HypervisorError::NoMasterTid),
            },
    {
        let pid: u32 = self.get_vmm_master_tid()?;
        let mut pids: Vec<u32> = Vec::new();
        pids.push(pid);
        assert(pids@ =~= seq![pid]);
        Ok(pids)
    }

    /// Where the threads of the hypervisor process are listed: `/proc/<pid>`.
    pub fn get_thread_ids(&self) -> (r: Result<String, HypervisorError>)
        ensures
            match self.pid {
                Some(pid) => r matches Ok(path) && path@ == "/proc/"@ + text::decimal(pid as nat),
                None => r == Err::<String, HypervisorError>(HypervisorError::NoMasterTid),
            },
    {
        let pid: u32 = self.get_vmm_master_tid()?;
        let mut path = String::from_str("/proc/");
        text::push_decimal(&mut path, pid as u64);
        Ok(path)
    }

    /// Where the namespaces of the hypervisor process are: `/proc/<pid>/ns`.
    pub fn get_ns_path(&self) -> (r: Result<String, HypervisorError>)
        ensures
            match self.pid {
                Some(pid) => r matches Ok(path) && path@ == "/proc/"@ + text::decimal(pid as nat)
                    + "/ns"@,
                None => r == Err::<String, HypervisorError>(HypervisorError::NoNsPath),
            },
    {
        match self.pid {
            Some(pid) => {
                let mut path = String::from_str("/proc/");
                text::push_decimal(&mut path, pid as u64);
                path.append("/ns");
                Ok(path)
            },
            None => Err(HypervisorError::NoNsPath),
        }
    }

    /// What the hypervisor can do. Under TDX it cannot share a file system.
    pub fn capabilities(&self) -> (r: Capabilities)
        ensures
            r == (Capabilities {
                block_device: true,
                block_device_hotplug: true,
                fs_sharing: !(self.guest_protection_to_use is Tdx),
                hybrid_vsock: true,
            }),
    {
        Capabilities {
            block_device: true,
            block_device_hotplug: true,
            fs_sharing: !protection::guest_protection_is_tdx(self.guest_protection_to_use),
            hybrid_vsock: true,
        }
    }

    /// The capabilities are fixed: setting them changes nothing.
    pub fn set_capabilities(&mut self, _flag: Capabilities)
        ensures
            *final(self) == *old(self),
    {
    }

    /// The state of the hypervisor process is not looked at.
    pub fn check(&self) -> (r: Result<(), HypervisorError>)
        ensures
            r is Ok,
    {
        Ok(())
    }

    /// There is nothing to wait for.
    pub fn wait_vm(&self) -> (r: Result<i32, HypervisorError>)
        ensures
            r == Ok::<i32, HypervisorError>(0),
    {
        Ok(0)
    }

    /// Metrics are not available.
    pub fn get_hypervisor_metrics(&self) -> (r: Result<String, HypervisorError>)
        ensures
            r == Err::<String, HypervisorError>(HypervisorError::MetricsNotImplemented),
    {
        Err(HypervisorError::MetricsNotImplemented)
    }

    /// Sets the size of the guest's memory blocks, in bytes.
    pub fn set_guest_memory_block_size(&mut self, size: u32)
        ensures
            *final(self) == (CloudHypervisorInner {
                guest_memory_block_size_mb: size / 1048576,
                ..*old(self)
            }),
    {
        self.guest_memory_block_size_mb = memory::bytes_to_megs(size as u64);
    }

    /// Size of the guest's memory blocks, in whole mebibytes.
    pub fn guest_memory_block_size_mb(&self) -> (r: u32)
        ensures
            r == self.guest_memory_block_size_mb,
    {
        self.guest_memory_block_size_mb
    }

    // -----------------------------------------------------------------------
    // Resizing.
    // -----------------------------------------------------------------------
    /// Resizes from `old_vcpus` to `new_vcpus`, at most to the configured maximum. Gives both
    /// numbers and, where they differ, the number to ask the hypervisor for: its low eight bits,
    /// as the API has room for.
    pub fn resize_vcpu(&self, old_vcpus: u32, new_vcpus: u32) -> (r: Result<
        (u32, u32, Option<u8>),
        HypervisorError,
    >)
        ensures
            ({
                let target = if new_vcpus > self.config.default_maxvcpus {
                    self.config.default_maxvcpus
                } else {
                    new_vcpus
                };
                r == if new_vcpus == 0 {
                    Err::<(u32, u32, Option<u8>), HypervisorError>(HypervisorError::ZeroVcpus)
                } else {
                    Ok::<(u32, u32, Option<u8>), HypervisorError>(
                        (
                            old_vcpus,
                            target,
                            if target == old_vcpus {
                                None
                            } else {
                                Some((target % 256) as u8)
                            },
                        ),
                    )
                }
            }),
            r is Err <==> new_vcpus == 0,
            r matches Ok((before, after, ask)) ==> {
                &&& before == old_vcpus
                &&& after <= new_vcpus && after <= self.config.default_maxvcpus
                &&& after == new_vcpus || after == self.config.default_maxvcpus
                &&& ask is None <==> after == old_vcpus
                &&& ask matches Some(asked) ==> (after - asked) % 256 == 0
            },
    {
        if new_vcpus == 0 {
            return Err(HypervisorError::ZeroVcpus);
        }
        let target: u32 = if new_vcpus > self.config.default_maxvcpus {
            self.config.default_maxvcpus
        } else {
            new_vcpus
        };
        if target == old_vcpus {
            return Ok((old_vcpus, target, None));
        }
        Ok((old_vcpus, target, Some((target % 256) as u8)))
    }

    /// Resizes a guest with `current` bytes of memory to `new_mem_mb` mebibytes. Gives the total to
    /// ask the hypervisor for, in bytes, or nothing where nothing is to be added.
    pub fn resize_memory(&self, new_mem_mb: u32, current: u64) -> (r: Result<
        (u32, Option<u64>),
        ResizeMemoryError,
    >)
        ensures
            r == match memory::resize_plan(
                current,
                new_mem_mb,
                self.guest_memory_block_size_mb,
                self.config.default_maxmemory,
            ) {
                Ok(total) => Ok::<(u32, Option<u64>), ResizeMemoryError>((new_mem_mb, total)),
                Err(e) => Err::<(u32, Option<u64>), ResizeMemoryError>(e),
            },
            r == Ok::<(u32, Option<u64>), ResizeMemoryError>((new_mem_mb, None)) <==> current
                >= new_mem_mb * 1048576,
            r matches Ok((asked, total)) ==> asked == new_mem_mb && (total matches Some(total) ==>
                total >= new_mem_mb * 1048576 && total <= self.config.default_maxmemory * 1048576),
            r is Err ==> current < new_mem_mb * 1048576,
    {
        let total: Option<u64> = memory::plan_resize(
            current,
            new_mem_mb,
            self.guest_memory_block_size_mb,
            self.config.default_maxmemory,
        )?;
        Ok((new_mem_mb, total))
    }
}

} // verus!
