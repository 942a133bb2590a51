//! Constants of the on-disk format and the decoded header summary.
use vstd::prelude::*;

verus! {

/// Magic bytes in front of every snapshot blob ("ATEOMSN1").
pub const MAGIC: [u8; 8] = [65u8, 84, 69, 79, 77, 83, 78, 49];

/// Trailer bytes behind every snapshot blob ("END!").
pub const MAGIC_TRAILER: [u8; 4] = [69u8, 78, 68, 33];

/// Snapshot format version. Bump on any layout change; never reuse values. Each version must be
/// readable by all subsequent versions; that goes back to [`FIRST_FORMAT_VERSION`].
///
/// * 2: region payloads behind the descriptor table.
/// * 3: region descriptors carry an absolute, page-aligned `file_offset`.
/// * 4: `lapic`, `xsave`, `vcpu_events`, `mp_state` per vCPU; the VM-level state block.
/// * 5: `xcrs` per vCPU.
/// * 6: the legacy-device state block (COM1, COM2).
/// * 7: the virtio-net envelope.
/// * 8: negotiated features and live queues per virtio-net device.
/// * 9: the snapshot kind at offset 13 and `parent_sha256` at offset 24.
pub const SNAPSHOT_FORMAT_VERSION: u32 = 9;

/// The earliest readable format version: the first that says where a region's payload lies.
pub const FIRST_FORMAT_VERSION: u32 = 3;

/// Page size of the alignment scheme.
pub const SNAPSHOT_PAGE_SIZE: u64 = 4096;

/// What a snapshot holds.
#[derive(Debug, Clone, Copy, PartialEq, Eq, Hash, Structural)]
pub enum SnapshotKind {
    /// Self-contained, restorable on its own.
    Golden,
    /// Incremental, against the parent golden whose hash is in the header.
    Diff,
}

/// The wire byte of a kind.
pub open spec fn kind_byte(kind: SnapshotKind) -> u8 {
    match kind {
        SnapshotKind::Golden => 0,
        SnapshotKind::Diff => 1,
    }
}

/// The kind of a wire byte.
pub open spec fn kind_of(b: u8) -> Option<SnapshotKind> {
    if b == 0 {
        Some(SnapshotKind::Golden)
    } else if b == 1 {
        Some(SnapshotKind::Diff)
    } else {
        None
    }
}

impl SnapshotKind {
    /// Wire byte for the kind.
    pub fn as_u8(self) -> (r: u8)
        ensures
            r == kind_byte(self),
    {
        match self {
            SnapshotKind::Golden => 0,
            SnapshotKind::Diff => 1,
        }
    }

    /// The kind of a wire byte, or `None` for a byte that stands for no kind.
    pub fn from_u8(b: u8) -> (r: Option<Self>)
        ensures
            r == kind_of(b),
    {
        match b {
            0 => Some(SnapshotKind::Golden),
            1 => Some(SnapshotKind::Diff),
            _ => None,
        }
    }
}

/// Every kind is read back from its wire byte.
pub proof fn law_kind_round_trip(kind: SnapshotKind)
    ensures
        kind_of(kind_byte(kind)) == Some(kind),
{
}

/// A byte that reads as a kind is the wire byte of that kind.
pub proof fn law_kind_byte_is_unique(b: u8)
    ensures
        kind_of(b) matches Some(kind) ==> kind_byte(kind) == b,
{
}

/// Header summary of a snapshot.
#[derive(Debug, Clone, Copy, PartialEq, Eq)]
pub struct SnapshotMetadata {
    /// File magic, always [`MAGIC`].
    pub magic: [u8; 8],
    /// Snapshot format version.
    pub format_version: u32,
    /// Golden or diff.
    pub kind: SnapshotKind,
    /// Number of vCPUs whose state is recorded.
    pub vcpu_count: u8,
    /// Total guest memory in bytes: the sum of all region sizes.
    pub mem_size_bytes: u64,
    /// SHA-256 of the parent golden; all zero for a golden.
    pub parent_sha256: [u8; 32],
}

/// A golden is marked by 0 and a diff by 1, and no other byte is a kind.
pub proof fn law_kind_bytes(b: u8)
    ensures
        kind_byte(SnapshotKind::Golden) == 0,
        kind_byte(SnapshotKind::Diff) == 1,
        kind_of(b) is None <==> b >= 2,
{
}

} // verus!
