//! What the errors of the Cloud Hypervisor side say.
use vstd::prelude::*;
use vstd::string::*;

use super::features::FeaturesError;
use super::hypervisor::HypervisorError;
use super::launch::LaunchError;
use super::memory::ResizeMemoryError;
use super::protection::GuestProtectionError;
use super::restore::RestoreError;
use super::snapshot_rewrite::{RewriteError, RewriteFault};
use super::vcpu_tids::VcpuTidsError;
use crate::text;

verus! {

impl GuestProtectionError {
    /// What is said of an error; `found` is the name of the protection that was found.
    pub open spec fn text(self, found: Seq<char>) -> Seq<char> {
        match self {
            GuestProtectionError::NoProtectionAvailable => {
                "guest protection requested but no guest protection available"@
            },
            GuestProtectionError::TDXProtectionMustBeUsedWithCH => {
                "TDX guest protection available and must be used with Cloud Hypervisor (set 'confidential_guest=true')"@
            },
            GuestProtectionError::ExpectedTDXProtection(_) => {
                "Expected TDX protection, found "@ + found
            },
        }
    }

    /// What is said of an error; `found` is the name of the protection that was found.
    pub fn message(&self, found: &str) -> (r: String)
        ensures
            r@ == self.text(found@),
    {
        match self {
            GuestProtectionError::NoProtectionAvailable => String::from_str(
                "guest protection requested but no guest protection available",
            ),
            GuestProtectionError::TDXProtectionMustBeUsedWithCH => String::from_str(
                "TDX guest protection available and must be used with Cloud Hypervisor (set 'confidential_guest=true')",
            ),
            GuestProtectionError::ExpectedTDXProtection(_) => {
                let mut out = String::from_str("Expected TDX protection, found ");
                out.append(found);
                out
            },
        }
    }
}

impl HypervisorError {
    /// What is said of an error. `what` is the path in question or, of failed tasks, their errors.
    pub open spec fn text(self, what: Seq<char>) -> Seq<char> {
        match self {
            HypervisorError::NoMasterTid => "could not get vmm master tid"@,
            HypervisorError::NoNsPath => "could not get ns path"@,
            HypervisorError::DestDirRequired => "save_vm: dest_dir is required"@,
            HypervisorError::SnapshotSrcRequired => {
                "prepare_for_restore: snapshot_src is required"@
            },
            HypervisorError::SnapshotSrcNotDirectory => {
                "prepare_for_restore: snapshot_src "@ + what + " is not a directory"@
            },
            HypervisorError::StateFileMissing => {
                "prepare_for_restore: snapshot missing required file "@ + what
            },
            HypervisorError::ConfigFileMissing => {
                "prepare_for_restore: snapshot missing required file "@ + what
            },
            HypervisorError::ZeroVcpus => "resize to 0 vcpus requested"@,
            HypervisorError::NoTdxSupport => "Cloud Hypervisor is not built with TDX support"@,
            HypervisorError::NoShutdownChannel => "no shutdown channel"@,
            HypervisorError::NoTasks => "no tasks"@,
            HypervisorError::TasksFailed(_) => "wait all tasks failed: "@ + what,
            HypervisorError::MetricsNotImplemented => {
                "CH hypervisor metrics not implemented - see https://github.com/kata-containers/kata-containers/issues/8800"@
            },
            HypervisorError::NotRunning => "clh not running"@,
            HypervisorError::MissingPid => "clh missing PID"@,
        }
    }

    /// What is said of an error. `what` is the path in question or, of failed tasks, their errors.
    pub fn message(&self, what: &str) -> (r: String)
        ensures
            r@ == self.text(what@),
    {
        match self {
            HypervisorError::NoMasterTid => String::from_str("could not get vmm master tid"),
            HypervisorError::NoNsPath => String::from_str("could not get ns path"),
            HypervisorError::DestDirRequired => String::from_str("save_vm: dest_dir is required"),
            HypervisorError::SnapshotSrcRequired => String::from_str(
                "prepare_for_restore: snapshot_src is required",
            ),
            HypervisorError::SnapshotSrcNotDirectory => {
                let mut out = String::from_str("prepare_for_restore: snapshot_src ");
                out.append(what);
                out.append(" is not a directory");
                out
            },
            HypervisorError::StateFileMissing => {
                let mut out = String::from_str("prepare_for_restore: snapshot missing required file ");
                out.append(what);
                out
            },
            HypervisorError::ConfigFileMissing => {
                let mut out = String::from_str("prepare_for_restore: snapshot missing required file ");
                out.append(what);
                out
            },
            HypervisorError::ZeroVcpus => String::from_str("resize to 0 vcpus requested"),
            HypervisorError::NoTdxSupport => String::from_str(
                "Cloud Hypervisor is not built with TDX support",
            ),
            HypervisorError::NoShutdownChannel => String::from_str("no shutdown channel"),
            HypervisorError::NoTasks => String::from_str("no tasks"),
            HypervisorError::TasksFailed(_) => {
                let mut out = String::from_str("wait all tasks failed: ");
                out.append(what);
                out
            },
            HypervisorError::MetricsNotImplemented => String::from_str(
                "CH hypervisor metrics not implemented - see https://github.com/kata-containers/kata-containers/issues/8800",
            ),
            HypervisorError::NotRunning => String::from_str("clh not running"),
            HypervisorError::MissingPid => String::from_str("clh missing PID"),
        }
    }
}

impl LaunchError {
    /// What is said of an error.
    pub open spec fn text(self) -> Seq<char> {
        match self {
            LaunchError::AlreadyRunning(pid) => {
                "clh already running with PID "@ + text::decimal(pid as nat)
            },
            LaunchError::NetFdsWithoutSource(n) => {
                "set_restore_net_fds armed "@ + text::decimal(n as nat)
                    + " net fd(s) but no restore_src is set"@
            },
            LaunchError::RootlessUserMissing => {
                "rootless user must be specified for rootless cloud-hypervisor"@
            },
            LaunchError::NoShutdownReceiver => "no receiver channel"@,
            LaunchError::NoExitNotify => "no exit notify"@,
        }
    }

    /// What is said of an error.
    pub fn message(&self) -> (r: String)
        ensures
            r@ == self.text(),
    {
        match self {
            LaunchError::AlreadyRunning(pid) => {
                let mut out = String::from_str("clh already running with PID ");
                text::push_decimal(&mut out, *pid as u64);
                out
            },
            LaunchError::NetFdsWithoutSource(n) => {
                let mut out = String::from_str("set_restore_net_fds armed ");
                text::push_decimal(&mut out, *n as u64);
                out.append(" net fd(s) but no restore_src is set");
                out
            },
            LaunchError::RootlessUserMissing => String::from_str(
                "rootless user must be specified for rootless cloud-hypervisor",
            ),
            LaunchError::NoShutdownReceiver => String::from_str("no receiver channel"),
            LaunchError::NoExitNotify => String::from_str("no exit notify"),
        }
    }
}

impl RewriteFault {
    /// What is said of an error in the file at `path`, which is a snapshot config or state by `kind`.
    pub open spec fn text(self, kind: Seq<char>, path: Seq<char>) -> Seq<char> {
        match self {
            RewriteFault::NotJson(_) => "parsing snapshot "@ + kind + " "@ + path,
            RewriteFault::NetNotArray(found) => {
                "snapshot config "@ + path + " has `net` of unexpected type "@ + found
            },
            RewriteFault::NetIdMissing(i) => {
                "snapshot config net["@ + text::decimal(i as nat) + "] missing string `id`"@
            },
            RewriteFault::FdsNotArray(i, found) => {
                "snapshot config net["@ + text::decimal(i as nat) + "] `fds` is not an array: "@
                    + found
            },
            RewriteFault::MalformedSandboxId => "malformed sandbox-id in snapshot config "@ + path,
            RewriteFault::SandboxIdNotUtf8(_) => {
                "snapshot config "@ + path + " has non-UTF8 sandbox-id"@
            },
            RewriteFault::StateNotText => {
                "snapshot state "@ + path + " has snapshot_data.state missing or not a string"@
            },
            RewriteFault::InnerNotJson(_) => "parsing inner _virtio-pci-_fs2 state in "@ + path,
            RewriteFault::InnerNotObject => {
                "inner _virtio-pci-_fs2 state in "@ + path + " is not a JSON object"@
            },
        }
    }
}

impl RewriteError {
    /// What is said of an error in the file at `path`, which is a snapshot config or state by `kind`.
    pub fn message(&self, kind: &str, path: &str) -> (r: String)
        ensures
            r@ == self@.text(kind@, path@),
    {
        match self {
            RewriteError::NotJson(_) => {
                let mut out = String::from_str("parsing snapshot ");
                out.append(kind);
                out.append(" ");
                out.append(path);
                out
            },
            RewriteError::NetNotArray(found) => {
                let mut out = String::from_str("snapshot config ");
                out.append(path);
                out.append(" has `net` of unexpected type ");
                out.append(found.as_str());
                out
            },
            RewriteError::NetIdMissing(i) => {
                let mut out = String::from_str("snapshot config net[");
                text::push_decimal(&mut out, *i as u64);
                out.append("] missing string `id`");
                out
            },
            RewriteError::FdsNotArray(i, found) => {
                let mut out = String::from_str("snapshot config net[");
                text::push_decimal(&mut out, *i as u64);
                out.append("] `fds` is not an array: ");
                out.append(found.as_str());
                out
            },
            RewriteError::MalformedSandboxId => {
                let mut out = String::from_str("malformed sandbox-id in snapshot config ");
                out.append(path);
                out
            },
            RewriteError::SandboxIdNotUtf8(_) => {
                let mut out = String::from_str("snapshot config ");
                out.append(path);
                out.append(" has non-UTF8 sandbox-id");
                out
            },
            RewriteError::StateNotText => {
                let mut out = String::from_str("snapshot state ");
                out.append(path);
                out.append(" has snapshot_data.state missing or not a string");
                out
            },
            RewriteError::InnerNotJson(_) => {
                let mut out = String::from_str("parsing inner _virtio-pci-_fs2 state in ");
                out.append(path);
                out
            },
            RewriteError::InnerNotObject => {
                let mut out = String::from_str("inner _virtio-pci-_fs2 state in ");
                out.append(path);
                out.append(" is not a JSON object");
                out
            },
        }
    }
}

impl RewriteFault {
    /// What lies behind an error: what the parser or the decoder said.
    pub open spec fn cause(self) -> Option<Seq<char>> {
        match self {
            RewriteFault::NotJson(why) => Some(why),
            RewriteFault::SandboxIdNotUtf8(why) => Some(why),
            RewriteFault::InnerNotJson(why) => Some(why),
            _ => None,
        }
    }
}

impl RewriteError {
    /// What lies behind an error: what the parser or the decoder said.
    pub fn cause(&self) -> (r: Option<String>)
        ensures
            match self@.cause() {
                Some(why) => r matches Some(s) && s@ == why,
                None => r is None,
            },
    {
        match self {
            RewriteError::NotJson(why) => Some(why.clone()),
            RewriteError::SandboxIdNotUtf8(why) => Some(why.clone()),
            RewriteError::InnerNotJson(why) => Some(why.clone()),
            _ => None,
        }
    }
}

impl RestoreError {
    /// What is said of an error.
    pub open spec fn text(self) -> Seq<char> {
        match self {
            RestoreError::NotRestoring => "finalize_restore_pending_devices: not in restore mode"@,
            RestoreError::Config(_) => "reading snapshot net ids for restore"@,
            RestoreError::DeviceCount { snapshot, sandbox } => {
                "snapshot has "@ + text::decimal(snapshot as nat)
                    + " net device(s) but new sandbox queued "@ + text::decimal(sandbox as nat)
            },
            RestoreError::FdCount { expected, opened } => {
                "snapshot expects "@ + text::decimal(expected as nat)
                    + " fd(s) total but new sandbox opened "@ + text::decimal(opened as nat)
            },
        }
    }

    /// What is said of an error.
    pub fn message(&self) -> (r: String)
        ensures
            r@ == self.text(),
    {
        match self {
            RestoreError::NotRestoring => String::from_str(
                "finalize_restore_pending_devices: not in restore mode",
            ),
            RestoreError::Config(_) => String::from_str("reading snapshot net ids for restore"),
            RestoreError::DeviceCount { snapshot, sandbox } => {
                let mut out = String::from_str("snapshot has ");
                text::push_decimal(&mut out, *snapshot as u64);
                out.append(" net device(s) but new sandbox queued ");
                text::push_decimal(&mut out, *sandbox as u64);
                out
            },
            RestoreError::FdCount { expected, opened } => {
                let mut out = String::from_str("snapshot expects ");
                text::push_decimal(&mut out, *expected as u64);
                out.append(" fd(s) total but new sandbox opened ");
                text::push_decimal(&mut out, *opened as u64);
                out
            },
        }
    }
}

impl FeaturesError {
    /// What is said of a refused ping response.
    pub open spec fn text(self) -> Seq<char> {
        match self {
            FeaturesError::NotJson(why) => why@,
            FeaturesError::NotArray => "expected CH to return array of features"@,
        }
    }

    /// What is said of a refused ping response.
    pub fn message(&self) -> (r: String)
        ensures
            r@ == self.text(),
    {
        match self {
            FeaturesError::NotJson(why) => String::from_str(why.as_str()),
            FeaturesError::NotArray => String::from_str("expected CH to return array of features"),
        }
    }
}

impl ResizeMemoryError {
    /// What is said of an error.
    pub open spec fn text(self) -> Seq<char> {
        match self {
            ResizeMemoryError::Alignment { growth, block } => {
                "alignment of "@ + text::decimal(growth as nat) + " B to the block size of "@
                    + text::decimal(block as nat) + " B failed"@
            },
            ResizeMemoryError::OverMaximum { requested_mb, maximum_mb } => {
                "requested memory ("@ + text::decimal(requested_mb as nat)
                    + " MB) is greater than maximum allowed ("@ + text::decimal(maximum_mb as nat)
                    + " MB)"@
            },
        }
    }

    /// What is said of an error.
    pub fn message(&self) -> (r: String)
        ensures
            r@ == self.text(),
    {
        match self {
            ResizeMemoryError::Alignment { growth, block } => {
                let mut out = String::from_str("alignment of ");
                text::push_decimal(&mut out, *growth as u64);
                out.append(" B to the block size of ");
                text::push_decimal(&mut out, *block as u64);
                out.append(" B failed");
                out
            },
            ResizeMemoryError::OverMaximum { requested_mb, maximum_mb } => {
                let mut out = String::from_str("requested memory (");
                text::push_decimal(&mut out, *requested_mb as u64);
                out.append(" MB) is greater than maximum allowed (");
                text::push_decimal(&mut out, *maximum_mb as u64);
                out.append(" MB)");
                out
            },
        }
    }
}

impl VcpuTidsError {
    /// What is said of an error.
    pub open spec fn text(self) -> Seq<char> {
        match self {
            VcpuTidsError::InvalidTid => "invalid tid."@,
            VcpuTidsError::CommMissing => "comm path was not found."@,
            VcpuTidsError::InvalidVcpuId => "Invalid vcpu id."@,
            VcpuTidsError::NoVcpus => "The contents of proc path are not available."@,
        }
    }

    /// What is said of an error.
    pub fn message(&self) -> (r: String)
        ensures
            r@ == self.text(),
    {
        match self {
            VcpuTidsError::InvalidTid => String::from_str("invalid tid."),
            VcpuTidsError::CommMissing => String::from_str("comm path was not found."),
            VcpuTidsError::InvalidVcpuId => String::from_str("Invalid vcpu id."),
            VcpuTidsError::NoVcpus => String::from_str(
                "The contents of proc path are not available.",
            ),
        }
    }
}

// ---------------------------------------------------------------------------
// Laws.
// ---------------------------------------------------------------------------

/// A message names the numbers of its error in full, whatever they are, in the places where they
/// belong: a process id, a count, an index, and amounts with their units.
pub proof fn law_messages_name_the_numbers(
    pid: u32,
    n: usize,
    m: usize,
    growth: u64,
    block: u64,
    requested_mb: u32,
    maximum_mb: u32,
)
    ensures
        LaunchError::AlreadyRunning(pid).text() == "clh already running with PID "@ + text::decimal(
            pid as nat,
        ),
        LaunchError::NetFdsWithoutSource(n).text() == "set_restore_net_fds armed "@ + text::decimal(
            n as nat,
        ) + " net fd(s) but no restore_src is set"@,
        (RestoreError::DeviceCount { snapshot: n, sandbox: m }).text() == "snapshot has "@
            + text::decimal(n as nat) + " net device(s) but new sandbox queued "@ + text::decimal(
            m as nat,
        ),
        (RestoreError::FdCount { expected: n, opened: m }).text() == "snapshot expects "@
            + text::decimal(n as nat) + " fd(s) total but new sandbox opened "@ + text::decimal(
            m as nat,
        ),
        (ResizeMemoryError::Alignment { growth, block }).text() == "alignment of "@ + text::decimal(
            growth as nat,
        ) + " B to the block size of "@ + text::decimal(block as nat) + " B failed"@,
        (ResizeMemoryError::OverMaximum { requested_mb, maximum_mb }).text()
            == "requested memory ("@ + text::decimal(requested_mb as nat)
            + " MB) is greater than maximum allowed ("@ + text::decimal(maximum_mb as nat)
            + " MB)"@,
{
}

/// A message names the file that it is about, and what was found in it, in full. What the parser or
/// the decoder said is handed on where there is any, and only there.
pub proof fn law_messages_name_the_file(
    kind: Seq<char>,
    path: Seq<char>,
    found: Seq<char>,
    i: int,
    fault: RewriteFault,
)
    ensures
        RewriteFault::NotJson(found).text(kind, path) == "parsing snapshot "@ + kind + " "@ + path,
        RewriteFault::NetNotArray(found).text(kind, path) == "snapshot config "@ + path
            + " has `net` of unexpected type "@ + found,
        RewriteFault::NetIdMissing(i).text(kind, path) == "snapshot config net["@ + text::decimal(
            i as nat,
        ) + "] missing string `id`"@,
        RewriteFault::FdsNotArray(i, found).text(kind, path) == "snapshot config net["@
            + text::decimal(i as nat) + "] `fds` is not an array: "@ + found,
        RewriteFault::MalformedSandboxId.text(kind, path)
            == "malformed sandbox-id in snapshot config "@ + path,
        RewriteFault::SandboxIdNotUtf8(found).text(kind, path) == "snapshot config "@ + path
            + " has non-UTF8 sandbox-id"@,
        RewriteFault::StateNotText.text(kind, path) == "snapshot state "@ + path
            + " has snapshot_data.state missing or not a string"@,
        RewriteFault::InnerNotJson(found).text(kind, path)
            == "parsing inner _virtio-pci-_fs2 state in "@ + path,
        RewriteFault::InnerNotObject.text(kind, path) == "inner _virtio-pci-_fs2 state in "@ + path
            + " is not a JSON object"@,
        fault.cause() is Some <==> fault is NotJson || fault is SandboxIdNotUtf8
            || fault is InnerNotJson,
        RewriteFault::NotJson(found).cause() == Some(found),
        RewriteFault::SandboxIdNotUtf8(found).cause() == Some(found),
        RewriteFault::InnerNotJson(found).cause() == Some(found),
{
}

/// A message says what it is given to say in full: the path or the errors in question, the
/// protection that was found, and what the parser said of a response.
pub proof fn law_messages_say_what_they_are_given(
    what: Seq<char>,
    protection: GuestProtectionError,
    failed: usize,
    why: String,
)
    ensures
        HypervisorError::SnapshotSrcNotDirectory.text(what)
            == "prepare_for_restore: snapshot_src "@ + what + " is not a directory"@,
        HypervisorError::StateFileMissing.text(what)
            == "prepare_for_restore: snapshot missing required file "@ + what,
        HypervisorError::ConfigFileMissing.text(what)
            == "prepare_for_restore: snapshot missing required file "@ + what,
        HypervisorError::TasksFailed(failed).text(what) == "wait all tasks failed: "@ + what,
        protection is ExpectedTDXProtection ==> protection.text(what)
            == "Expected TDX protection, found "@ + what,
        FeaturesError::NotJson(why).text() == why@,
{
}

/// What is said of errors that hold nothing.
pub proof fn law_messages_without_numbers(what: Seq<char>)
    ensures
        GuestProtectionError::NoProtectionAvailable.text(what)
            == "guest protection requested but no guest protection available"@,
        GuestProtectionError::TDXProtectionMustBeUsedWithCH.text(what)
            == "TDX guest protection available and must be used with Cloud Hypervisor (set 'confidential_guest=true')"@,
        HypervisorError::NoMasterTid.text(what) == "could not get vmm master tid"@,
        HypervisorError::NoNsPath.text(what) == "could not get ns path"@,
        HypervisorError::DestDirRequired.text(what) == "save_vm: dest_dir is required"@,
        HypervisorError::SnapshotSrcRequired.text(what)
            == "prepare_for_restore: snapshot_src is required"@,
        HypervisorError::ZeroVcpus.text(what) == "resize to 0 vcpus requested"@,
        HypervisorError::NoTdxSupport.text(what)
            == "Cloud Hypervisor is not built with TDX support"@,
        HypervisorError::NoShutdownChannel.text(what) == "no shutdown channel"@,
        HypervisorError::NoTasks.text(what) == "no tasks"@,
        HypervisorError::NotRunning.text(what) == "clh not running"@,
        HypervisorError::MissingPid.text(what) == "clh missing PID"@,
        LaunchError::RootlessUserMissing.text()
            == "rootless user must be specified for rootless cloud-hypervisor"@,
        LaunchError::NoShutdownReceiver.text() == "no receiver channel"@,
        LaunchError::NoExitNotify.text() == "no exit notify"@,
        RestoreError::NotRestoring.text()
            == "finalize_restore_pending_devices: not in restore mode"@,
        FeaturesError::NotArray.text() == "expected CH to return array of features"@,
        VcpuTidsError::InvalidTid.text() == "invalid tid."@,
        VcpuTidsError::CommMissing.text() == "comm path was not found."@,
        VcpuTidsError::InvalidVcpuId.text() == "Invalid vcpu id."@,
        VcpuTidsError::NoVcpus.text() == "The contents of proc path are not available."@,
{
}

} // verus!
