//! What the errors of the snapshot subsystem say.
use vstd::prelude::*;
use vstd::string::*;

use super::kvm_dirty_tracker::DirtyTrackerError;
use super::metadata::SNAPSHOT_FORMAT_VERSION;
use super::serial_state::SerialStateError;
use super::vcpu_state::{VcpuFault, VcpuStateError};
use super::virtio_net_state::{NetFault, VirtioNetStateError};
use super::{Refusal, SnapshotError, SnapshotFault};
use crate::text;
use crate::wire;

verus! {

/// What is said of bytes that should be text: nothing where they are.
pub open spec fn text_fault(bytes: Seq<u8>) -> Seq<char> {
    if wire::is_text(bytes) {
        Seq::empty()
    } else {
        wire::utf8_complaint(bytes)
    }
}

impl NetFault {
    /// What is said of a refused envelope.
    pub open spec fn text(self) -> Seq<char> {
        match self {
            NetFault::Truncated { need, offset } => {
                "virtio-net state truncated: need "@ + text::decimal(need as nat)
                    + " more bytes at offset "@ + text::decimal(offset as nat)
            },
            NetFault::NonUtf8(bytes) => "non-UTF-8 string: "@ + text_fault(bytes),
        }
    }
}

impl VirtioNetStateError {
    /// What is said of a refused envelope.
    pub fn message(&self) -> (r: String)
        ensures
            r@ == self@.text(),
    {
        match self {
            VirtioNetStateError::Truncated { need, offset } => {
                let mut out = String::from_str("virtio-net state truncated: need ");
                text::push_decimal(&mut out, *need as u64);
                out.append(" more bytes at offset ");
                text::push_decimal(&mut out, *offset as u64);
                out
            },
            VirtioNetStateError::NonUtf8(bytes) => {
                let mut out = String::from_str("non-UTF-8 string: ");
                match wire::utf8_text(bytes.as_slice()) {
                    Ok(_) => {},
                    Err(why) => {
                        out.append(why.as_str());
                    },
                }
                out
            },
        }
    }
}

impl SerialStateError {
    /// What is said of a refused UART state.
    pub open spec fn text(self) -> Seq<char> {
        match self {
            SerialStateError::TooShort { have } => {
                "serial state blob too short: "@ + text::decimal(have as nat) + " bytes"@
            },
            SerialStateError::TooLarge { len } => {
                "serial state in_buffer too large: "@ + text::decimal(len as nat) + " bytes"@
            },
            SerialStateError::Truncated { have, need } => {
                "serial state truncated: have "@ + text::decimal(have as nat) + ", need "@
                    + text::decimal(need as nat)
            },
        }
    }

    /// What is said of a refused UART state.
    pub fn message(&self) -> (r: String)
        ensures
            r@ == self.text(),
    {
        match self {
            SerialStateError::TooShort { have } => {
                let mut out = String::from_str("serial state blob too short: ");
                text::push_decimal(&mut out, *have as u64);
                out.append(" bytes");
                out
            },
            SerialStateError::TooLarge { len } => {
                let mut out = String::from_str("serial state in_buffer too large: ");
                text::push_decimal(&mut out, *len as u64);
                out.append(" bytes");
                out
            },
            SerialStateError::Truncated { have, need } => {
                let mut out = String::from_str("serial state truncated: have ");
                text::push_decimal(&mut out, *have as u64);
                out.append(", need ");
                text::push_decimal(&mut out, *need as u64);
                out
            },
        }
    }
}

impl Refusal {
    /// What is said of a fault.
    pub open spec fn text(self) -> Seq<char> {
        match self {
            Refusal::BadMagic(magic) => "bad snapshot magic: "@ + text::byte_list(magic),
            Refusal::UnsupportedVersion(version) => {
                "unsupported snapshot format version "@ + text::decimal(version as nat)
                    + ", expected "@ + text::decimal(SNAPSHOT_FORMAT_VERSION as nat)
            },
            Refusal::UnknownKind(byte) => {
                "unknown snapshot_kind byte "@ + text::decimal(byte as nat) + " in v9 header"@
            },
            Refusal::GoldenWithParent => "Golden snapshot must have all-zero parent_sha256"@,
            Refusal::DiffWithoutParent => "Diff snapshot must carry a non-zero parent_sha256"@,
            Refusal::UnalignedRegionOffset(offset) => {
                "region file_offset "@ + text::decimal(offset as nat) + " is not 4 KiB aligned"@
            },
            Refusal::RegionCount(n) => {
                "Phase 1 reader supports exactly one region, got "@ + text::decimal(n as nat)
            },
            Refusal::VirtioNet(e) => "virtio-net state decode: "@ + e.text(),
            Refusal::UnexpectedEof => "failed to fill whole buffer"@,
            Refusal::NoMoreRegions => "no more regions to read"@,
            Refusal::TooShortForTrailer => "snapshot too short for trailer"@,
            Refusal::BadTrailer(trailer) => "bad snapshot trailer: "@ + text::byte_list(trailer),
            Refusal::MissingParentPath => {
                "Diff snapshot requires SnapshotConfig::parent_golden_path"@
            },
        }
    }
}

impl SnapshotFault {
    /// What is said of a fault.
    pub fn message(&self) -> (r: String)
        ensures
            r@ == self@.text(),
    {
        match self {
            SnapshotFault::BadMagic(magic) => {
                let mut out = String::from_str("bad snapshot magic: ");
                text::push_byte_list(&mut out, magic.as_slice());
                out
            },
            SnapshotFault::UnsupportedVersion(version) => {
                let mut out = String::from_str("unsupported snapshot format version ");
                text::push_decimal(&mut out, *version as u64);
                out.append(", expected ");
                text::push_decimal(&mut out, SNAPSHOT_FORMAT_VERSION as u64);
                out
            },
            SnapshotFault::UnknownKind(byte) => {
                let mut out = String::from_str("unknown snapshot_kind byte ");
                text::push_decimal(&mut out, *byte as u64);
                out.append(" in v9 header");
                out
            },
            SnapshotFault::GoldenWithParent => String::from_str(
                "Golden snapshot must have all-zero parent_sha256",
            ),
            SnapshotFault::DiffWithoutParent => String::from_str(
                "Diff snapshot must carry a non-zero parent_sha256",
            ),
            SnapshotFault::UnalignedRegionOffset(offset) => {
                let mut out = String::from_str("region file_offset ");
                text::push_decimal(&mut out, *offset as u64);
                out.append(" is not 4 KiB aligned");
                out
            },
            SnapshotFault::RegionCount(n) => {
                let mut out = String::from_str("Phase 1 reader supports exactly one region, got ");
                text::push_decimal(&mut out, *n as u64);
                out
            },
            SnapshotFault::VirtioNet(e) => {
                let mut out = String::from_str("virtio-net state decode: ");
                let why = e.message();
                out.append(why.as_str());
                out
            },
            SnapshotFault::UnexpectedEof => String::from_str("failed to fill whole buffer"),
            SnapshotFault::NoMoreRegions => String::from_str("no more regions to read"),
            SnapshotFault::TooShortForTrailer => String::from_str("snapshot too short for trailer"),
            SnapshotFault::BadTrailer(trailer) => {
                let mut out = String::from_str("bad snapshot trailer: ");
                text::push_byte_list(&mut out, trailer.as_slice());
                out
            },
            SnapshotFault::MissingParentPath => String::from_str(
                "Diff snapshot requires SnapshotConfig::parent_golden_path",
            ),
        }
    }
}

impl SnapshotError {
    /// What is said of an error.
    pub open spec fn text(self) -> Seq<char> {
        match self {
            SnapshotError::Io(fault) => "snapshot I/O error: "@ + fault@.text(),
            SnapshotError::NotPaused(state) => {
                "snapshot can only be taken from a paused VM (current state: "@ + state@ + ")"@
            },
            SnapshotError::VcpuCapture(why) => "vCPU state capture failed: "@ + why@,
        }
    }

    /// What is said of an error.
    pub fn message(&self) -> (r: String)
        ensures
            r@ == self.text(),
    {
        match self {
            SnapshotError::Io(fault) => {
                let mut out = String::from_str("snapshot I/O error: ");
                let why = fault.message();
                out.append(why.as_str());
                out
            },
            SnapshotError::NotPaused(state) => {
                let mut out = String::from_str("snapshot can only be taken from a paused VM (current state: ");
                out.append(state.as_str());
                out.append(")");
                out
            },
            SnapshotError::VcpuCapture(why) => {
                let mut out = String::from_str("vCPU state capture failed: ");
                out.append(why.as_str());
                out
            },
        }
    }
}

impl VcpuFault {
    /// What is said of an error; `os_error` is what the operating system says of its number.
    pub open spec fn text(self, os_error: Seq<char>) -> Seq<char> {
        match self {
            VcpuFault::Kvm(_) => "kvm ioctl failed during vcpu-state capture: "@ + os_error,
            VcpuFault::BuildMsrs(why) => "failed to build Msrs FAM struct: "@ + why,
        }
    }
}

impl VcpuStateError {
    /// What is said of an error; `os_error` is what the operating system says of its number.
    pub fn message(&self, os_error: &str) -> (r: String)
        ensures
            r@ == self@.text(os_error@),
    {
        match self {
            VcpuStateError::Kvm(_) => {
                let mut out = String::from_str("kvm ioctl failed during vcpu-state capture: ");
                out.append(os_error);
                out
            },
            VcpuStateError::BuildMsrs(why) => {
                let mut out = String::from_str("failed to build Msrs FAM struct: ");
                out.append(why.as_str());
                out
            },
        }
    }
}

impl DirtyTrackerError {
    /// What is said of an error; `os_error` is what the operating system says of its number.
    pub open spec fn text(self, os_error: Seq<char>) -> Seq<char> {
        match self {
            DirtyTrackerError::Kvm { slot, errno: _ } => {
                "KVM_GET_DIRTY_LOG failed for slot "@ + text::decimal(slot as nat) + ": "@
                    + os_error
            },
        }
    }

    /// What is said of an error; `os_error` is what the operating system says of its number.
    pub fn message(&self, os_error: &str) -> (r: String)
        ensures
            r@ == self.text(os_error@),
    {
        match self {
            DirtyTrackerError::Kvm { slot, errno: _ } => {
                let mut out = String::from_str("KVM_GET_DIRTY_LOG failed for slot ");
                text::push_decimal(&mut out, *slot as u64);
                out.append(": ");
                out.append(os_error);
                out
            },
        }
    }
}

// ---------------------------------------------------------------------------
// Laws.
// ---------------------------------------------------------------------------

/// A message names the numbers and the bytes of its fault in full, whatever they are, in the places
/// where they belong.
pub proof fn law_messages_name_the_numbers(
    a: nat,
    b: nat,
    have: usize,
    need: usize,
    version: u32,
    byte: u8,
    offset: u64,
    found: Seq<u8>,
)
    ensures
        (NetFault::Truncated { need: a, offset: b }).text() == "virtio-net state truncated: need "@
            + text::decimal(a) + " more bytes at offset "@ + text::decimal(b),
        (SerialStateError::TooShort { have }).text() == "serial state blob too short: "@
            + text::decimal(have as nat) + " bytes"@,
        (SerialStateError::TooLarge { len: have }).text() == "serial state in_buffer too large: "@
            + text::decimal(have as nat) + " bytes"@,
        (SerialStateError::Truncated { have, need }).text() == "serial state truncated: have "@
            + text::decimal(have as nat) + ", need "@ + text::decimal(need as nat),
        Refusal::BadMagic(found).text() == "bad snapshot magic: "@ + text::byte_list(found),
        Refusal::BadTrailer(found).text() == "bad snapshot trailer: "@ + text::byte_list(found),
        Refusal::UnsupportedVersion(version).text() == "unsupported snapshot format version "@
            + text::decimal(version as nat) + ", expected "@ + text::decimal(9),
        Refusal::UnknownKind(byte).text() == "unknown snapshot_kind byte "@ + text::decimal(
            byte as nat,
        ) + " in v9 header"@,
        Refusal::UnalignedRegionOffset(offset).text() == "region file_offset "@ + text::decimal(
            offset as nat,
        ) + " is not 4 KiB aligned"@,
        Refusal::RegionCount(version).text() == "Phase 1 reader supports exactly one region, got "@
            + text::decimal(version as nat),
{
}

/// A message says what lies behind its error in full: the fault, the state of the machine, the cause,
/// and what the operating system says.
pub proof fn law_messages_say_what_lies_behind(
    fault: SnapshotFault,
    envelope: NetFault,
    why: String,
    said: Seq<char>,
    errno: i32,
    slot: u32,
    raw: Seq<u8>,
)
    ensures
        SnapshotError::Io(fault).text() == "snapshot I/O error: "@ + fault@.text(),
        SnapshotError::NotPaused(why).text()
            == "snapshot can only be taken from a paused VM (current state: "@ + why@ + ")"@,
        SnapshotError::VcpuCapture(why).text() == "vCPU state capture failed: "@ + why@,
        Refusal::VirtioNet(envelope).text() == "virtio-net state decode: "@ + envelope.text(),
        VcpuFault::Kvm(errno).text(said) == "kvm ioctl failed during vcpu-state capture: "@ + said,
        VcpuFault::BuildMsrs(said).text(said) == "failed to build Msrs FAM struct: "@ + said,
        (DirtyTrackerError::Kvm { slot, errno }).text(said) == "KVM_GET_DIRTY_LOG failed for slot "@
            + text::decimal(slot as nat) + ": "@ + said,
        !wire::is_text(raw) ==> NetFault::NonUtf8(raw).text() == "non-UTF-8 string: "@
            + wire::utf8_complaint(raw),
{
}

/// What is said of faults that hold nothing.
pub proof fn law_messages_without_numbers(raw: Seq<u8>)
    ensures
        Refusal::GoldenWithParent.text() == "Golden snapshot must have all-zero parent_sha256"@,
        Refusal::DiffWithoutParent.text() == "Diff snapshot must carry a non-zero parent_sha256"@,
        Refusal::UnexpectedEof.text() == "failed to fill whole buffer"@,
        Refusal::NoMoreRegions.text() == "no more regions to read"@,
        Refusal::TooShortForTrailer.text() == "snapshot too short for trailer"@,
        Refusal::MissingParentPath.text()
            == "Diff snapshot requires SnapshotConfig::parent_golden_path"@,
        wire::is_text(raw) ==> NetFault::NonUtf8(raw).text() == "non-UTF-8 string: "@ + Seq::<
            char,
        >::empty(),
{
}

} // verus!
