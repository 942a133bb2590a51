//! Golden and diff snapshots of a micro-VM.
//!
//! A snapshot is written as a list of steps: the library decides every byte but the guest memory
//! itself, which the caller streams in between. See [`layout`] for the file format.
use vstd::prelude::*;

pub mod format_laws;
pub mod kvm_dirty_tracker;
pub mod laws;
pub mod layout;
pub mod messages;
pub mod metadata;
pub mod operation_laws;
pub mod reader;
pub mod round_trip;
pub mod serial_state;
pub mod vcpu_state;
pub mod virtio_net_state;
pub mod vm_state;

use std::path::PathBuf;

use sha2::Digest;

use self::metadata::{
    SnapshotKind, SnapshotMetadata, MAGIC, MAGIC_TRAILER, SNAPSHOT_FORMAT_VERSION,
    SNAPSHOT_PAGE_SIZE,
};
use self::layout::GuestState;
use self::reader::RegionLocation;
use self::serial_state::LegacyDeviceState;
use self::vcpu_state::VcpuStateData;
use self::virtio_net_state::{NetFault, VirtioNetState, VirtioNetStateError};
use self::vm_state::VmStateData;
use crate::wire;

verus! {

broadcast use wire::field_widths;

/// A file-system path. Nothing is known of it but its identity.
#[verifier::external_type_specification]
#[verifier::external_body]
pub struct ExPathBuf(std::path::PathBuf);

/// Calls `std::path::PathBuf`'s `clone`: an equal path.
#[verifier::external_body]
fn path_copy(path: &PathBuf) -> (r: PathBuf)
    ensures
        r == *path,
{
    path.clone()
}

/// What to write, and where.
#[derive(Debug, PartialEq, Eq)]
pub struct SnapshotConfig {
    /// Where the snapshot is written.
    pub snapshot_path: PathBuf,
    /// Golden or diff.
    pub kind: SnapshotKind,
    /// The parent golden of a diff; ignored otherwise.
    pub parent_golden_path: Option<PathBuf>,
}

impl SnapshotConfig {
    /// A golden snapshot at `snapshot_path`.
    pub fn golden(snapshot_path: PathBuf) -> (r: Self)
        ensures
            r == (SnapshotConfig {
                snapshot_path,
                kind: SnapshotKind::Golden,
                parent_golden_path: None,
            }),
    {
        SnapshotConfig { snapshot_path, kind: SnapshotKind::Golden, parent_golden_path: None }
    }

    /// A diff snapshot at `snapshot_path` against the golden at `parent_golden_path`.
    pub fn diff(snapshot_path: PathBuf, parent_golden_path: PathBuf) -> (r: Self)
        ensures
            r == (SnapshotConfig {
                snapshot_path,
                kind: SnapshotKind::Diff,
                parent_golden_path: Some(parent_golden_path),
            }),
    {
        SnapshotConfig {
            snapshot_path,
            kind: SnapshotKind::Diff,
            parent_golden_path: Some(parent_golden_path),
        }
    }
}

impl Clone for SnapshotConfig {
    fn clone(&self) -> (r: Self)
        ensures
            r == *self,
    {
        SnapshotConfig {
            snapshot_path: path_copy(&self.snapshot_path),
            kind: self.kind,
            parent_golden_path: match &self.parent_golden_path {
                Some(path) => Some(path_copy(path)),
                None => None,
            },
        }
    }
}

/// Which snapshot to restore.
#[derive(Debug, PartialEq, Eq)]
pub struct RestoreConfig {
    /// The snapshot to load.
    pub snapshot_path: PathBuf,
}

impl Clone for RestoreConfig {
    fn clone(&self) -> (r: Self)
        ensures
            r == *self,
    {
        RestoreConfig { snapshot_path: path_copy(&self.snapshot_path) }
    }
}

/// What is wrong with a snapshot, or with a request to write one.
#[derive(Debug, Clone, PartialEq, Eq)]
pub enum SnapshotFault {
    /// The file does not start with the magic.
    BadMagic([u8; 8]),
    /// The format version is not a readable one.
    UnsupportedVersion(u32),
    /// The kind byte stands for no kind.
    UnknownKind(u8),
    /// A golden names a parent.
    GoldenWithParent,
    /// A diff names no parent.
    DiffWithoutParent,
    /// A region's payload does not start on a page.
    UnalignedRegionOffset(u64),
    /// The number of regions is not one.
    RegionCount(u32),
    /// The virtio-net envelope is refused.
    VirtioNet(VirtioNetStateError),
    /// The file ends too early.
    UnexpectedEof,
    /// Every region has been read.
    NoMoreRegions,
    /// The file is shorter than a trailer.
    TooShortForTrailer,
    /// The file does not end with the trailer.
    BadTrailer([u8; 4]),
    /// A diff is requested without a parent golden.
    MissingParentPath,
}

/// What a fault says.
pub enum Refusal {
    BadMagic(Seq<u8>),
    UnsupportedVersion(u32),
    UnknownKind(u8),
    GoldenWithParent,
    DiffWithoutParent,
    UnalignedRegionOffset(u64),
    RegionCount(u32),
    VirtioNet(NetFault),
    UnexpectedEof,
    NoMoreRegions,
    TooShortForTrailer,
    BadTrailer(Seq<u8>),
    MissingParentPath,
}

/// The broad class of a fault.
#[derive(Debug, Clone, Copy, PartialEq, Eq, Structural)]
pub enum FaultClass {
    InvalidData,
    InvalidInput,
    UnexpectedEof,
}

impl View for SnapshotFault {
    type V = Refusal;

    open spec fn view(&self) -> Refusal {
        match *self {
            SnapshotFault::BadMagic(b) => Refusal::BadMagic(b@),
            SnapshotFault::UnsupportedVersion(v) => Refusal::UnsupportedVersion(v),
            SnapshotFault::UnknownKind(b) => Refusal::UnknownKind(b),
            SnapshotFault::GoldenWithParent => Refusal::GoldenWithParent,
            SnapshotFault::DiffWithoutParent => Refusal::DiffWithoutParent,
            SnapshotFault::UnalignedRegionOffset(off) => Refusal::UnalignedRegionOffset(off),
            SnapshotFault::RegionCount(n) => Refusal::RegionCount(n),
            SnapshotFault::VirtioNet(e) => Refusal::VirtioNet(e@),
            SnapshotFault::UnexpectedEof => Refusal::UnexpectedEof,
            SnapshotFault::NoMoreRegions => Refusal::NoMoreRegions,
            SnapshotFault::TooShortForTrailer => Refusal::TooShortForTrailer,
            SnapshotFault::BadTrailer(b) => Refusal::BadTrailer(b@),
            SnapshotFault::MissingParentPath => Refusal::MissingParentPath,
        }
    }
}

impl Refusal {
    /// The class of what is said.
    pub open spec fn class(self) -> FaultClass {
        match self {
            Refusal::UnexpectedEof | Refusal::NoMoreRegions => FaultClass::UnexpectedEof,
            Refusal::MissingParentPath => FaultClass::InvalidInput,
            _ => FaultClass::InvalidData,
        }
    }
}

impl SnapshotFault {
    /// The class of the fault.
    pub fn class(&self) -> (r: FaultClass)
        ensures
            r == self@.class(),
            r is UnexpectedEof <==> self is UnexpectedEof || self is NoMoreRegions,
            r is InvalidInput <==> self is MissingParentPath,
    {
        match self {
            SnapshotFault::UnexpectedEof => FaultClass::UnexpectedEof,
            SnapshotFault::NoMoreRegions => FaultClass::UnexpectedEof,
            SnapshotFault::MissingParentPath => FaultClass::InvalidInput,
            _ => FaultClass::InvalidData,
        }
    }
}

/// Errors of the snapshot subsystem.
#[derive(Debug, Clone, PartialEq, Eq)]
pub enum SnapshotError {
    /// The snapshot could not be written or read.
    Io(SnapshotFault),
    /// The VM is not paused; the state it is in.
    NotPaused(String),
    /// vCPU state capture failed.
    VcpuCapture(String),
}

/// Addressing of a guest memory region.
#[derive(Debug, Clone, Copy, PartialEq, Eq, Structural)]
pub struct MemoryRegionDescriptor {
    /// Guest physical address of the start of the region.
    pub guest_phys_addr: u64,
    /// Size of the region in bytes.
    pub size: u64,
}

/// One step of writing a snapshot file front to back.
#[derive(Debug, Clone, PartialEq, Eq)]
pub enum WriteStep {
    /// Write these bytes.
    Bytes(Vec<u8>),
    /// Write the payload of the region with this index.
    RegionPayload(usize),
    /// Write this many zero bytes.
    Zeros(u64),
}

/// What a step writes, where `payloads` holds what is written for each region.
pub open spec fn step_bytes(step: WriteStep, payloads: Seq<Seq<u8>>) -> Seq<u8> {
    match step {
        WriteStep::Bytes(b) => b@,
        WriteStep::RegionPayload(i) => payloads[i as int],
        WriteStep::Zeros(n) => wire::zeros(n as nat),
    }
}

/// The file that the steps write.
pub open spec fn render(steps: Seq<WriteStep>, payloads: Seq<Seq<u8>>) -> Seq<u8>
    decreases steps.len(),
{
    if steps.len() == 0 {
        Seq::empty()
    } else {
        render(steps.drop_last(), payloads) + step_bytes(steps.last(), payloads)
    }
}

/// The guest state that the arguments of a writer describe.
pub open spec fn guest_state(
    vcpu_states: Seq<VcpuStateData>,
    vm_state: VmStateData,
    legacy_state: LegacyDeviceState,
    virtio_net_state: VirtioNetState,
) -> GuestState {
    GuestState {
        vcpus: Seq::new(vcpu_states.len(), |i: int| vcpu_states[i]@),
        vm: vm_state@,
        legacy: legacy_state@,
        devices: virtio_net_state@,
    }
}

/// The header summary of a snapshot.
pub open spec fn summary(
    meta: SnapshotMetadata,
    kind: SnapshotKind,
    parent: Seq<u8>,
    vcpus: nat,
    regions: Seq<MemoryRegionDescriptor>,
) -> bool {
    &&& meta.magic@ == MAGIC@
    &&& meta.format_version == SNAPSHOT_FORMAT_VERSION
    &&& meta.kind == kind
    &&& meta.vcpu_count == vcpus % 256
    &&& meta.mem_size_bytes == layout::mem_size(regions)
    &&& meta.parent_sha256@ == parent
}

/// The bytes of each part.
spec fn parts_view(parts: Seq<&[u8]>) -> Seq<Seq<u8>> {
    Seq::new(parts.len(), |i: int| parts[i]@)
}

/// Bytes of the dirty bitmap of a region: one bit per page, in whole 64-bit words.
pub fn dirty_bitmap_bytes_for_region(region_size: u64) -> (r: u64)
    ensures
        r == layout::bitmap_len(region_size as nat),
{
    let num_pages: u64 = region_size / SNAPSHOT_PAGE_SIZE + if region_size % SNAPSHOT_PAGE_SIZE > 0 {
        1
    } else {
        0
    };
    let num_words: u64 = (num_pages + 63) / 64;
    num_words * 8
}

/// The smallest multiple of `alignment` that is not below `value`.
pub fn align_up(value: u64, alignment: u64) -> (r: u64)
    requires
        alignment > 0,
        value + alignment - 1 <= u64::MAX,
    ensures
        r == (value + alignment - 1) / (alignment as int) * alignment,
        value <= r < value + alignment,
        r % alignment == 0,
{
    let bumped: u64 = value + (alignment - 1);
    proof {
        vstd::arithmetic::div_mod::lemma_fundamental_div_mod(bumped as int, alignment as int);
        assert(alignment * (bumped as int / alignment as int) == bumped as int / alignment as int
            * alignment) by (nonlinear_arith);
        vstd::arithmetic::div_mod::lemma_mod_multiples_basic(
            bumped as int / alignment as int,
            alignment as int,
        );
    }
    bumped - bumped % alignment
}

/// The start of the next page.
fn next_page(value: u64) -> (r: u64)
    requires
        value + 4095 <= u64::MAX,
    ensures
        r == layout::page_up(value as int),
{
    align_up(value, SNAPSHOT_PAGE_SIZE)
}

/// Appends `n` zero bytes.
pub fn write_zero_pad(w: &mut Vec<u8>, n: usize)
    ensures
        final(w)@ == old(w)@ + wire::zeros(n as nat),
{
    for i in 0..n
        invariant
            w@ =~= old(w)@ + wire::zeros(i as nat),
    {
        w.push(0);
    }
}

/// Appends `bytes` behind their length.
pub fn write_len_prefixed(w: &mut Vec<u8>, bytes: &[u8])
    ensures
        final(w)@ == old(w)@ + wire::blob(bytes@),
{
    wire::put_u32(w, wire::length_field(bytes.len()));
    wire::put_bytes(w, bytes);
    assert(w@ =~= old(w)@ + wire::blob(bytes@));
}

/// Appends the first 56 bytes of a snapshot.
pub fn write_v9_common_header(
    w: &mut Vec<u8>,
    kind: SnapshotKind,
    vcpu_count: u8,
    mem_size_bytes: u64,
    parent_sha256: &[u8; 32],
)
    ensures
        final(w)@ == old(w)@ + layout::prelude_bytes(
            kind,
            vcpu_count,
            mem_size_bytes,
            parent_sha256@,
        ),
{
    wire::put_bytes(w, MAGIC.as_slice());
    wire::put_u32(w, SNAPSHOT_FORMAT_VERSION);
    w.push(vcpu_count);
    w.push(kind.as_u8());
    wire::put_u16(w, 0);
    wire::put_u64(w, mem_size_bytes);
    wire::put_bytes(w, parent_sha256.as_slice());
    assert(w@ =~= old(w)@ + layout::prelude_bytes(
        kind,
        vcpu_count,
        mem_size_bytes,
        parent_sha256@,
    ));
}

/// Appends length-prefixed blobs.
fn put_blobs(w: &mut Vec<u8>, parts: &[&[u8]])
    ensures
        final(w)@ == old(w)@ + layout::blobs_bytes(parts_view(parts@)),
{
    let ghost all = parts_view(parts@);
    assert(all.take(0) =~= Seq::empty());
    for i in 0..parts.len()
        invariant
            all == parts_view(parts@),
            w@ =~= old(w)@ + layout::blobs_bytes(all.take(i as int)),
    {
        write_len_prefixed(w, parts[i]);
        proof {
            let next = all.take(i + 1);
            assert(next.drop_last() =~= all.take(i as int));
            wire::lemma_append(
                old(w)@,
                layout::blobs_bytes(next.drop_last()),
                wire::blob(next.last()),
            );
        }
    }
    assert(all.take(parts@.len() as int) =~= all);
}

/// The blobs of a vCPU record.
fn vcpu_parts<'a>(st: &'a VcpuStateData) -> (r: Vec<&'a [u8]>)
    ensures
        parts_view(r@) == st@.blobs,
{
    let r: Vec<&'a [u8]> = vec![
        st.regs.as_slice(),
        st.sregs.as_slice(),
        st.msrs.as_slice(),
        st.cpuid_entries.as_slice(),
        st.lapic.as_slice(),
        st.xsave.as_slice(),
        st.vcpu_events.as_slice(),
        st.mp_state.as_slice(),
        st.xcrs.as_slice(),
    ];
    assert(parts_view(r@) =~= st@.blobs);
    r
}

/// The blobs behind the region table.
fn tail_parts<'a>(
    vm_state: &'a VmStateData,
    legacy_state: &'a LegacyDeviceState,
    virtio_net_bytes: &'a Vec<u8>,
) -> (r: Vec<&'a [u8]>)
    ensures
        parts_view(r@) == (vm_state@ + legacy_state@).push(virtio_net_bytes@),
{
    let r: Vec<&'a [u8]> = vec![
        vm_state.pic_master.as_slice(),
        vm_state.pic_slave.as_slice(),
        vm_state.ioapic.as_slice(),
        vm_state.pit2.as_slice(),
        vm_state.clock.as_slice(),
        legacy_state.com1.as_slice(),
        legacy_state.com2.as_slice(),
        virtio_net_bytes.as_slice(),
    ];
    assert(parts_view(r@) =~= (vm_state@ + legacy_state@).push(virtio_net_bytes@));
    r
}

/// `r` is `n` where `n` fits 64 bits, and nothing where it does not.
spec fn capped(r: Option<u64>, n: nat) -> bool {
    match r {
        Some(v) => v == n,
        None => n > u64::MAX,
    }
}

/// A running total, moved on.
fn grow(total: Option<u64>, more: u64) -> (r: Option<u64>)
    ensures
        forall|n: nat| #[trigger] capped(total, n) ==> capped(r, n + more as nat),
{
    match total {
        Some(v) => v.checked_add(more),
        None => None,
    }
}

/// Length of length-prefixed blobs.
fn blobs_length(total: Option<u64>, parts: &[&[u8]]) -> (r: Option<u64>)
    ensures
        forall|n: nat| #[trigger]
            capped(total, n) ==> capped(r, n + layout::blobs_len(parts_view(parts@))),
{
    let ghost all = parts_view(parts@);
    let mut sum: Option<u64> = total;
    assert(all.take(0) =~= Seq::empty());
    for i in 0..parts.len()
        invariant
            all == parts_view(parts@),
            forall|n: nat| #[trigger]
                capped(total, n) ==> capped(sum, n + layout::blobs_len(all.take(i as int))),
    {
        let ghost before = sum;
        sum = grow(sum, 4);
        sum = grow(sum, parts[i].len() as u64);
        proof {
            let next = all.take(i + 1);
            assert(next.drop_last() =~= all.take(i as int));
            assert forall|n: nat| #[trigger] capped(total, n) implies capped(
                sum,
                n + layout::blobs_len(next),
            ) by {
                assert(capped(before, n + layout::blobs_len(all.take(i as int))));
                assert(layout::blobs_len(next) == layout::blobs_len(next.drop_last()) + 4
                    + next.last().len());
            }
        }
    }
    assert(all.take(parts@.len() as int) =~= all);
    sum
}

/// Length of a vCPU record.
fn vcpu_length(total: Option<u64>, st: &VcpuStateData) -> (r: Option<u64>)
    ensures
        forall|n: nat| #[trigger]
            capped(total, n) ==> capped(r, n + 1 + layout::blobs_len(st@.blobs)),
{
    let parts = vcpu_parts(st);
    let started: Option<u64> = grow(total, 1);
    let r: Option<u64> = blobs_length(started, parts.as_slice());
    assert forall|n: nat| #[trigger] capped(total, n) implies capped(
        r,
        n + 1 + layout::blobs_len(st@.blobs),
    ) by {
        assert(capped(started, n + 1));
    }
    r
}

/// Length of the header, if it fits 64 bits.
fn header_length(
    vcpu_states: &[VcpuStateData],
    vm_state: &VmStateData,
    legacy_state: &LegacyDeviceState,
    virtio_net_bytes: &Vec<u8>,
    regions: usize,
    Ghost(state): Ghost<GuestState>,
) -> (r: Option<u64>)
    requires
        state.vcpus == Seq::new(vcpu_states@.len(), |i: int| vcpu_states@[i]@),
        state.vm == vm_state@,
        state.legacy == legacy_state@,
        virtio_net_state::envelope(state.devices) == virtio_net_bytes@,
    ensures
        capped(r, layout::header_len(state, regions as nat)),
{
    let mut total: Option<u64> = Some(56);
    assert(state.vcpus.take(0) =~= Seq::empty());
    for i in 0..vcpu_states.len()
        invariant
            state.vcpus == Seq::new(vcpu_states@.len(), |i: int| vcpu_states@[i]@),
            capped(total, 56 + layout::vcpus_len(state.vcpus.take(i as int))),
    {
        let ghost before = 56 + layout::vcpus_len(state.vcpus.take(i as int));
        assert(capped(total, before));
        total = vcpu_length(total, &vcpu_states[i]);
        proof {
            layout::lemma_vcpus_len_step(state.vcpus, i as int);
            let blobs = state.vcpus[i as int].blobs;
            assert(blobs == vcpu_states@[i as int]@.blobs);
            assert(capped(total, before + 1 + layout::blobs_len(blobs)));
        }
    }
    assert(state.vcpus.take(vcpu_states@.len() as int) =~= state.vcpus);
    total = grow(total, 4);
    let ghost counted = 56 + layout::vcpus_len(state.vcpus) + 4;
    assert(capped(total, counted));
    let rows: Option<u64> = (regions as u64).checked_mul(24);
    total = match rows {
        Some(rows) => grow(total, rows),
        None => None,
    };
    assert(capped(total, counted + 24 * regions as nat));
    let tail = tail_parts(vm_state, legacy_state, virtio_net_bytes);
    blobs_length(total, tail.as_slice())
}

/// Sum of the region sizes, if it fits 64 bits.
fn memory_size(regions: &[MemoryRegionDescriptor]) -> (r: Option<u64>)
    ensures
        capped(r, layout::mem_size(regions@)),
{
    let mut total: Option<u64> = Some(0);
    assert(regions@.take(0) =~= Seq::empty());
    for i in 0..regions.len()
        invariant
            capped(total, layout::mem_size(regions@.take(i as int))),
    {
        total = grow(total, regions[i].size);
        proof {
            let next = regions@.take(i + 1);
            assert(next.drop_last() =~= regions@.take(i as int));
        }
    }
    assert(regions@.take(regions@.len() as int) =~= regions@);
    total
}

/// Length of what the body holds for a region.
fn body_length(kind: SnapshotKind, region: &MemoryRegionDescriptor) -> (r: u64)
    ensures
        r == layout::body_len(kind, *region),
{
    match kind {
        SnapshotKind::Golden => region.size,
        SnapshotKind::Diff => dirty_bitmap_bytes_for_region(region.size),
    }
}

/// The regions with the offsets of their bodies, if all of them fit 64 bits.
fn place_regions(kind: SnapshotKind, start: u64, regions: &[MemoryRegionDescriptor]) -> (r: Option<
    Vec<RegionLocation>,
>)
    requires
        start % 4096 == 0,
    ensures
        r is Some <==> layout::body_end(kind, start as int, regions@) <= u64::MAX,
        r matches Some(v) ==> v@ == layout::placed(kind, start as int, regions@),
{
    let mut located: Vec<RegionLocation> = Vec::new();
    let mut cursor: u64 = start;
    assert(regions@.take(0) =~= Seq::empty());
    for i in 0..regions.len()
        invariant
            start % 4096 == 0,
            cursor == layout::body_end(kind, start as int, regions@.take(i as int)),
            located@ =~= layout::placed(kind, start as int, regions@).take(i as int),
    {
        let region = regions[i];
        proof {
            layout::lemma_body_end(kind, start as int, regions@, i as int);
            layout::lemma_body_end(kind, start as int, regions@, i + 1);
            layout::lemma_page_up(cursor + layout::body_len(kind, region));
        }
        located.push(
            RegionLocation {
                guest_phys_addr: region.guest_phys_addr,
                size: region.size,
                file_offset: cursor,
            },
        );
        let end: Option<u64> = cursor.checked_add(body_length(kind, &region));
        match end {
            Some(end) => {
                if end > u64::MAX - 4095 {
                    return None;
                }
                cursor = next_page(end);
            },
            None => {
                return None;
            },
        }
    }
    assert(regions@.take(regions@.len() as int) =~= regions@);
    assert(layout::placed(kind, start as int, regions@).take(regions@.len() as int)
        =~= layout::placed(kind, start as int, regions@));
    Some(located)
}

/// Whether every size and offset of the snapshot fits 64 bits. Where it does not, the snapshot
/// cannot be written.
pub fn layout_fits(
    kind: SnapshotKind,
    vcpu_states: &[VcpuStateData],
    vm_state: &VmStateData,
    legacy_state: &LegacyDeviceState,
    virtio_net_state: &VirtioNetState,
    regions: &[MemoryRegionDescriptor],
) -> (r: bool)
    ensures
        r == layout::layout_fits(
            kind,
            guest_state(vcpu_states@, *vm_state, *legacy_state, *virtio_net_state),
            regions@,
        ),
{
    let ghost state = guest_state(vcpu_states@, *vm_state, *legacy_state, *virtio_net_state);
    let virtio_net_bytes = virtio_net_state::encode(virtio_net_state);
    let header_len: Option<u64> = header_length(
        vcpu_states,
        vm_state,
        legacy_state,
        &virtio_net_bytes,
        regions.len(),
        Ghost(state),
    );
    let ghost start = layout::body_start(state, regions@.len());
    proof {
        layout::lemma_page_up(layout::header_len(state, regions@.len()) as int);
        layout::lemma_body_end(kind, start, regions@, 0);
    }
    match header_len {
        Some(header_len) => {
            if header_len > u64::MAX - 4095 {
                return false;
            }
            let start: u64 = next_page(header_len);
            place_regions(kind, start, regions).is_some() && memory_size(regions).is_some()
        },
        None => false,
    }
}

/// Everything in front of the first padding.
fn put_header(
    kind: SnapshotKind,
    mem_size: u64,
    parent_sha256: &[u8; 32],
    vcpu_states: &[VcpuStateData],
    vm_state: &VmStateData,
    legacy_state: &LegacyDeviceState,
    virtio_net_bytes: &Vec<u8>,
    located: &Vec<RegionLocation>,
    Ghost(state): Ghost<GuestState>,
) -> (r: Vec<u8>)
    requires
        state.vcpus == Seq::new(vcpu_states@.len(), |i: int| vcpu_states@[i]@),
        state.vm == vm_state@,
        state.legacy == legacy_state@,
        virtio_net_state::envelope(state.devices) == virtio_net_bytes@,
    ensures
        r@ == layout::header_bytes(kind, mem_size, parent_sha256@, state, located@),
{
    let mut w: Vec<u8> = Vec::new();
    let vcpu_count: u8 = (vcpu_states.len() % 256) as u8;
    write_v9_common_header(&mut w, kind, vcpu_count, mem_size, parent_sha256);
    let ghost prelude = layout::prelude_bytes(kind, vcpu_count, mem_size, parent_sha256@);
    assert(w@ =~= prelude);
    assert(state.vcpus.take(0) =~= Seq::empty());
    for i in 0..vcpu_states.len()
        invariant
            state.vcpus == Seq::new(vcpu_states@.len(), |i: int| vcpu_states@[i]@),
            w@ =~= prelude + layout::vcpus_bytes(state.vcpus.take(i as int)),
    {
        w.push(vcpu_states[i].vcpu_id);
        let parts = vcpu_parts(&vcpu_states[i]);
        put_blobs(&mut w, parts.as_slice());
        proof {
            let next = state.vcpus.take(i + 1);
            assert(next.drop_last() =~= state.vcpus.take(i as int));
            assert(layout::vcpus_bytes(next) == layout::vcpus_bytes(next.drop_last())
                + layout::vcpu_bytes(next.last()));
        }
    }
    assert(state.vcpus.take(vcpu_states@.len() as int) =~= state.vcpus);
    wire::put_u32(&mut w, wire::length_field(located.len()));
    let ghost counted = w@;
    assert(located@.take(0) =~= Seq::empty());
    for i in 0..located.len()
        invariant
            w@ =~= counted + layout::table_bytes(located@.take(i as int)),
    {
        wire::put_u64(&mut w, located[i].guest_phys_addr);
        wire::put_u64(&mut w, located[i].size);
        wire::put_u64(&mut w, located[i].file_offset);
        proof {
            let next = located@.take(i + 1);
            assert(next.drop_last() =~= located@.take(i as int));
            assert(layout::table_bytes(next) == layout::table_bytes(next.drop_last())
                + layout::region_bytes(next.last()));
        }
    }
    assert(located@.take(located@.len() as int) =~= located@);
    let tail = tail_parts(vm_state, legacy_state, virtio_net_bytes);
    put_blobs(&mut w, tail.as_slice());
    w
}

/// One step more writes its bytes behind the others.
proof fn lemma_render_push(steps: Seq<WriteStep>, step: WriteStep, payloads: Seq<Seq<u8>>)
    ensures
        render(steps.push(step), payloads) == render(steps, payloads) + step_bytes(step, payloads),
{
    assert(steps.push(step).drop_last() =~= steps);
}

/// The header with its padding, up to the first body.
fn put_front(
    kind: SnapshotKind,
    parent_sha256: &[u8; 32],
    vcpu_states: &[VcpuStateData],
    vm_state: &VmStateData,
    legacy_state: &LegacyDeviceState,
    virtio_net_state: &VirtioNetState,
    regions: &[MemoryRegionDescriptor],
    Ghost(state): Ghost<GuestState>,
) -> (r: (u64, Vec<u8>))
    requires
        state == guest_state(vcpu_states@, *vm_state, *legacy_state, *virtio_net_state),
        layout::layout_fits(kind, state, regions@),
    ensures
        r.0 == layout::mem_size(regions@),
        ({
            let start = layout::body_start(state, regions@.len());
            let len = layout::header_len(state, regions@.len());
            r.1@ == layout::header_bytes(
                kind,
                r.0,
                parent_sha256@,
                state,
                layout::placed(kind, start, regions@),
            ) + wire::zeros((start - len) as nat)
        }),
{
    let virtio_net_bytes = virtio_net_state::encode(virtio_net_state);
    proof {
        let start = layout::body_start(state, regions@.len());
        layout::lemma_page_up(layout::header_len(state, regions@.len()) as int);
        layout::lemma_body_end(kind, start, regions@, 0);
    }
    let mem_size: u64 = memory_size(regions).unwrap();
    let header_len: u64 = header_length(
        vcpu_states,
        vm_state,
        legacy_state,
        &virtio_net_bytes,
        regions.len(),
        Ghost(state),
    ).unwrap();
    let payloads_start: u64 = next_page(header_len);
    let located: Vec<RegionLocation> = place_regions(kind, payloads_start, regions).unwrap();
    let mut front = put_header(
        kind,
        mem_size,
        parent_sha256,
        vcpu_states,
        vm_state,
        legacy_state,
        &virtio_net_bytes,
        &located,
        Ghost(state),
    );
    write_zero_pad(&mut front, (payloads_start - header_len) as usize);
    (mem_size, front)
}

/// Writes a golden snapshot: header, vCPU state, region table, VM, legacy and virtio-net state,
/// the region payloads, trailer. `RegionPayload` steps stand where the caller writes guest memory.
pub fn write_golden_snapshot(
    vcpu_states: &[VcpuStateData],
    vm_state: &VmStateData,
    legacy_state: &LegacyDeviceState,
    virtio_net_state: &VirtioNetState,
    regions: &[MemoryRegionDescriptor],
) -> (r: (SnapshotMetadata, Vec<WriteStep>))
    requires
        layout::layout_fits(
            SnapshotKind::Golden,
            guest_state(vcpu_states@, *vm_state, *legacy_state, *virtio_net_state),
            regions@,
        ),
    ensures
        summary(r.0, SnapshotKind::Golden, wire::zeros(32), vcpu_states@.len(), regions@),
        forall|payloads: Seq<Seq<u8>>| #[trigger]
            render(r.1@, payloads) == layout::snapshot_file(
                SnapshotKind::Golden,
                wire::zeros(32),
                guest_state(vcpu_states@, *vm_state, *legacy_state, *virtio_net_state),
                regions@,
                payloads,
            ),
        regions@.len() == 1 ==> forall|payload: Seq<u8>|
            payload.len() == regions@[0].size ==> round_trip::opens_as(
                #[trigger] render(r.1@, seq![payload]),
                SnapshotKind::Golden,
                wire::zeros(32),
                vcpu_states@,
                *vm_state,
                *legacy_state,
                *virtio_net_state,
                regions@[0],
            ),
{
    let ghost state = guest_state(vcpu_states@, *vm_state, *legacy_state, *virtio_net_state);
    let no_parent = [0u8; 32];
    assert(no_parent@ =~= wire::zeros(32));
    let (mem_size, front) = put_front(
        SnapshotKind::Golden,
        &no_parent,
        vcpu_states,
        vm_state,
        legacy_state,
        virtio_net_state,
        regions,
        Ghost(state),
    );
    let ghost head = front@;
    let mut steps: Vec<WriteStep> = Vec::new();
    steps.push(WriteStep::Bytes(front));
    proof {
        assert(regions@.take(0) =~= Seq::empty());
        assert forall|payloads: Seq<Seq<u8>>| #[trigger]
            render(steps@, payloads) == head + layout::bodies_bytes(
                SnapshotKind::Golden,
                regions@.take(0),
                payloads,
            ) by {
            lemma_render_push(Seq::empty(), steps@[0], payloads);
            assert(steps@ =~= Seq::empty().push(steps@[0]));
            assert(render(Seq::<WriteStep>::empty(), payloads) =~= Seq::<u8>::empty());
            assert(head + Seq::<u8>::empty() =~= Seq::<u8>::empty() + head);
        }
    }
    for i in 0..regions.len()
        invariant
            layout::layout_fits(SnapshotKind::Golden, state, regions@),
            forall|payloads: Seq<Seq<u8>>| #[trigger]
                render(steps@, payloads) == head + layout::bodies_bytes(
                    SnapshotKind::Golden,
                    regions@.take(i as int),
                    payloads,
                ),
    {
        let ghost before = steps@;
        let size: u64 = regions[i].size;
        proof {
            let start = layout::body_start(state, regions@.len());
            layout::lemma_page_up(layout::header_len(state, regions@.len()) as int);
            layout::lemma_body_end(SnapshotKind::Golden, start, regions@, i as int);
            layout::lemma_body_end(SnapshotKind::Golden, start, regions@, i + 1);
            layout::lemma_page_up(
                layout::body_end(SnapshotKind::Golden, start, regions@.take(i as int)) + size,
            );
        }
        steps.push(WriteStep::RegionPayload(i));
        steps.push(WriteStep::Zeros(next_page(size) - size));
        proof {
            let next = regions@.take(i + 1);
            assert(next.drop_last() =~= regions@.take(i as int));
            assert forall|payloads: Seq<Seq<u8>>| #[trigger]
                render(steps@, payloads) == head + layout::bodies_bytes(
                    SnapshotKind::Golden,
                    next,
                    payloads,
                ) by {
                let had = layout::bodies_bytes(SnapshotKind::Golden, next.drop_last(), payloads);
                let pad = wire::zeros((layout::page_up(size as int) - size) as nat);
                assert(render(before, payloads) == head + had);
                lemma_render_push(before, steps@[before.len() as int], payloads);
                lemma_render_push(
                    before.push(steps@[before.len() as int]),
                    steps@.last(),
                    payloads,
                );
                assert(steps@ =~= before.push(steps@[before.len() as int]).push(steps@.last()));
                wire::lemma_append(head, had, payloads[i as int]);
                wire::lemma_append(head, had + payloads[i as int], pad);
            }
        }
    }
    let ghost bodied = steps@;
    let trailer = vstd::slice::slice_to_vec(MAGIC_TRAILER.as_slice());
    steps.push(WriteStep::Bytes(trailer));
    proof {
        assert(regions@.take(regions@.len() as int) =~= regions@);
        assert forall|payloads: Seq<Seq<u8>>| #[trigger]
            render(steps@, payloads) == layout::snapshot_file(
                SnapshotKind::Golden,
                wire::zeros(32),
                state,
                regions@,
                payloads,
            ) by {
            lemma_render_push(bodied, steps@.last(), payloads);
            assert(steps@ =~= bodied.push(steps@.last()));
            assert(render(bodied, payloads) == head + layout::bodies_bytes(
                SnapshotKind::Golden,
                regions@,
                payloads,
            ));
        }
    }
    proof {
        if regions@.len() == 1 {
            assert forall|payload: Seq<u8>|
                payload.len() == regions@[0].size implies round_trip::opens_as(
                #[trigger] render(steps@, seq![payload]),
                SnapshotKind::Golden,
                wire::zeros(32),
                vcpu_states@,
                *vm_state,
                *legacy_state,
                *virtio_net_state,
                regions@[0],
            ) by {
                round_trip::lemma_opens_as(
                    SnapshotKind::Golden,
                    wire::zeros(32),
                    vcpu_states@,
                    *vm_state,
                    *legacy_state,
                    *virtio_net_state,
                    regions@,
                    seq![payload],
                );
            }
        }
    }
    let metadata = SnapshotMetadata {
        magic: MAGIC,
        format_version: SNAPSHOT_FORMAT_VERSION,
        kind: SnapshotKind::Golden,
        vcpu_count: (vcpu_states.len() % 256) as u8,
        mem_size_bytes: mem_size,
        parent_sha256: no_parent,
    };
    (metadata, steps)
}

/// The SHA-256 digest of `data`.
pub uninterp spec fn sha256(data: Seq<u8>) -> Seq<u8>;

/// Calls `sha2::Sha256::digest`, which computes the SHA-256 of its whole argument: the same bytes
/// give the same 32 bytes.
#[verifier::external_body]
fn sha256_digest(data: &[u8]) -> (r: [u8; 32])
    ensures
        r@ == sha256(data@),
{
    sha2::Sha256::digest(data).into()
}

/// The SHA-256 of a file with these contents. A diff carries that of its parent golden.
pub fn hash_file_sha256(contents: &[u8]) -> (r: [u8; 32])
    ensures
        r@ == sha256(contents@),
{
    sha256_digest(contents)
}

/// Writes a diff snapshot against the parent golden with the given hash. The set of dirty pages
/// is empty: every region's bitmap is all zero and no page follows it. vCPU, VM, legacy and
/// virtio-net state are recorded in full.
pub fn diff_snapshot_against(
    parent_sha256: [u8; 32],
    vcpu_states: &[VcpuStateData],
    vm_state: &VmStateData,
    legacy_state: &LegacyDeviceState,
    virtio_net_state: &VirtioNetState,
    regions: &[MemoryRegionDescriptor],
) -> (r: (SnapshotMetadata, Vec<WriteStep>))
    requires
        layout::layout_fits(
            SnapshotKind::Diff,
            guest_state(vcpu_states@, *vm_state, *legacy_state, *virtio_net_state),
            regions@,
        ),
    ensures
        summary(r.0, SnapshotKind::Diff, parent_sha256@, vcpu_states@.len(), regions@),
        forall|payloads: Seq<Seq<u8>>| #[trigger]
            render(r.1@, payloads) == layout::snapshot_file(
                SnapshotKind::Diff,
                parent_sha256@,
                guest_state(vcpu_states@, *vm_state, *legacy_state, *virtio_net_state),
                regions@,
                layout::clean_bitmaps(regions@),
            ),
        regions@.len() == 1 ==> forall|payload: Seq<u8>|
            round_trip::opens_as(
                #[trigger] render(r.1@, seq![payload]),
                SnapshotKind::Diff,
                parent_sha256@,
                vcpu_states@,
                *vm_state,
                *legacy_state,
                *virtio_net_state,
                regions@[0],
            ),
{
    let ghost state = guest_state(vcpu_states@, *vm_state, *legacy_state, *virtio_net_state);
    let ghost bitmaps = layout::clean_bitmaps(regions@);
    let (mem_size, front) = put_front(
        SnapshotKind::Diff,
        &parent_sha256,
        vcpu_states,
        vm_state,
        legacy_state,
        virtio_net_state,
        regions,
        Ghost(state),
    );
    let ghost head = front@;
    let mut steps: Vec<WriteStep> = Vec::new();
    steps.push(WriteStep::Bytes(front));
    proof {
        assert(regions@.take(0) =~= Seq::empty());
        assert forall|payloads: Seq<Seq<u8>>| #[trigger]
            render(steps@, payloads) == head + layout::bodies_bytes(
                SnapshotKind::Diff,
                regions@.take(0),
                bitmaps,
            ) by {
            lemma_render_push(Seq::empty(), steps@[0], payloads);
            assert(steps@ =~= Seq::empty().push(steps@[0]));
            assert(render(Seq::<WriteStep>::empty(), payloads) =~= Seq::<u8>::empty());
            assert(head + Seq::<u8>::empty() =~= Seq::<u8>::empty() + head);
        }
    }
    for i in 0..regions.len()
        invariant
            bitmaps == layout::clean_bitmaps(regions@),
            forall|payloads: Seq<Seq<u8>>| #[trigger]
                render(steps@, payloads) == head + layout::bodies_bytes(
                    SnapshotKind::Diff,
                    regions@.take(i as int),
                    bitmaps,
                ),
    {
        let ghost before = steps@;
        let bitmap_bytes: u64 = dirty_bitmap_bytes_for_region(regions[i].size);
        steps.push(WriteStep::Zeros(bitmap_bytes));
        steps.push(WriteStep::Zeros(next_page(bitmap_bytes) - bitmap_bytes));
        proof {
            let next = regions@.take(i + 1);
            assert(next.drop_last() =~= regions@.take(i as int));
            assert forall|payloads: Seq<Seq<u8>>| #[trigger]
                render(steps@, payloads) == head + layout::bodies_bytes(
                    SnapshotKind::Diff,
                    next,
                    bitmaps,
                ) by {
                let had = layout::bodies_bytes(SnapshotKind::Diff, next.drop_last(), bitmaps);
                let pad = wire::zeros((layout::page_up(bitmap_bytes as int) - bitmap_bytes) as nat);
                assert(render(before, payloads) == head + had);
                lemma_render_push(before, steps@[before.len() as int], payloads);
                lemma_render_push(
                    before.push(steps@[before.len() as int]),
                    steps@.last(),
                    payloads,
                );
                assert(steps@ =~= before.push(steps@[before.len() as int]).push(steps@.last()));
                wire::lemma_append(head, had, bitmaps[i as int]);
                wire::lemma_append(head, had + bitmaps[i as int], pad);
            }
        }
    }
    let ghost bodied = steps@;
    let trailer = vstd::slice::slice_to_vec(MAGIC_TRAILER.as_slice());
    steps.push(WriteStep::Bytes(trailer));
    proof {
        assert(regions@.take(regions@.len() as int) =~= regions@);
        assert forall|payloads: Seq<Seq<u8>>| #[trigger]
            render(steps@, payloads) == layout::snapshot_file(
                SnapshotKind::Diff,
                parent_sha256@,
                state,
                regions@,
                bitmaps,
            ) by {
            lemma_render_push(bodied, steps@.last(), payloads);
            assert(steps@ =~= bodied.push(steps@.last()));
            assert(render(bodied, payloads) == head + layout::bodies_bytes(
                SnapshotKind::Diff,
                regions@,
                bitmaps,
            ));
        }
    }
    proof {
        if regions@.len() == 1 {
            assert forall|payload: Seq<u8>|
                round_trip::opens_as(
                #[trigger] render(steps@, seq![payload]),
                SnapshotKind::Diff,
                parent_sha256@,
                vcpu_states@,
                *vm_state,
                *legacy_state,
                *virtio_net_state,
                regions@[0],
            ) by {
                round_trip::lemma_opens_as(
                    SnapshotKind::Diff,
                    parent_sha256@,
                    vcpu_states@,
                    *vm_state,
                    *legacy_state,
                    *virtio_net_state,
                    regions@,
                    bitmaps,
                );
            }
        }
    }
    let metadata = SnapshotMetadata {
        magic: MAGIC,
        format_version: SNAPSHOT_FORMAT_VERSION,
        kind: SnapshotKind::Diff,
        vcpu_count: (vcpu_states.len() % 256) as u8,
        mem_size_bytes: mem_size,
        parent_sha256,
    };
    (metadata, steps)
}

/// Writes a diff snapshot against the parent golden with these contents. Refused where `cfg`
/// names no parent.
pub fn write_diff_snapshot_phase1(
    cfg: &SnapshotConfig,
    vcpu_states: &[VcpuStateData],
    vm_state: &VmStateData,
    legacy_state: &LegacyDeviceState,
    virtio_net_state: &VirtioNetState,
    regions: &[MemoryRegionDescriptor],
    parent_golden: &[u8],
) -> (r: Result<(SnapshotMetadata, Vec<WriteStep>), SnapshotError>)
    requires
        layout::layout_fits(
            SnapshotKind::Diff,
            guest_state(vcpu_states@, *vm_state, *legacy_state, *virtio_net_state),
            regions@,
        ),
    ensures
        cfg.parent_golden_path is None ==> r == Err::<
            (SnapshotMetadata, Vec<WriteStep>),
            SnapshotError,
        >(SnapshotError::Io(SnapshotFault::MissingParentPath)),
        cfg.parent_golden_path is Some ==> {
            &&& r is Ok
            &&& summary(
                r->Ok_0.0,
                SnapshotKind::Diff,
                sha256(parent_golden@),
                vcpu_states@.len(),
                regions@,
            )
            &&& forall|payloads: Seq<Seq<u8>>| #[trigger]
                render(r->Ok_0.1@, payloads) == layout::snapshot_file(
                    SnapshotKind::Diff,
                    sha256(parent_golden@),
                    guest_state(vcpu_states@, *vm_state, *legacy_state, *virtio_net_state),
                    regions@,
                    layout::clean_bitmaps(regions@),
                )
            &&& regions@.len() == 1 ==> forall|payload: Seq<u8>|
                round_trip::opens_as(
                    #[trigger] render(r->Ok_0.1@, seq![payload]),
                    SnapshotKind::Diff,
                    sha256(parent_golden@),
                    vcpu_states@,
                    *vm_state,
                    *legacy_state,
                    *virtio_net_state,
                    regions@[0],
                )
        },
{
    if cfg.parent_golden_path.is_none() {
        return Err(SnapshotError::Io(SnapshotFault::MissingParentPath));
    }
    let parent_sha256 = hash_file_sha256(parent_golden);
    Ok(
        diff_snapshot_against(
            parent_sha256,
            vcpu_states,
            vm_state,
            legacy_state,
            virtio_net_state,
            regions,
        ),
    )
}

/// Writes the snapshot that `cfg` asks for. `parent_golden` holds the parent file of a diff and
/// is ignored for a golden.
pub fn write_snapshot(
    cfg: &SnapshotConfig,
    vcpu_states: &[VcpuStateData],
    vm_state: &VmStateData,
    legacy_state: &LegacyDeviceState,
    virtio_net_state: &VirtioNetState,
    regions: &[MemoryRegionDescriptor],
    parent_golden: &[u8],
) -> (r: Result<(SnapshotMetadata, Vec<WriteStep>), SnapshotError>)
    requires
        layout::layout_fits(
            cfg.kind,
            guest_state(vcpu_states@, *vm_state, *legacy_state, *virtio_net_state),
            regions@,
        ),
    ensures
        ({
            let state = guest_state(vcpu_states@, *vm_state, *legacy_state, *virtio_net_state);
            match (cfg.kind, cfg.parent_golden_path) {
                (SnapshotKind::Golden, _) => {
                    &&& r is Ok
                    &&& summary(
                        r->Ok_0.0,
                        cfg.kind,
                        wire::zeros(32),
                        vcpu_states@.len(),
                        regions@,
                    )
                    &&& forall|payloads: Seq<Seq<u8>>| #[trigger]
                        render(r->Ok_0.1@, payloads) == layout::snapshot_file(
                            cfg.kind,
                            wire::zeros(32),
                            state,
                            regions@,
                            payloads,
                        )
                    &&& regions@.len() == 1 ==> forall|payload: Seq<u8>|
                        payload.len() == regions@[0].size ==> round_trip::opens_as(
                            #[trigger] render(r->Ok_0.1@, seq![payload]),
                            cfg.kind,
                            wire::zeros(32),
                            vcpu_states@,
                            *vm_state,
                            *legacy_state,
                            *virtio_net_state,
                            regions@[0],
                        )
                },
                (SnapshotKind::Diff, None) => r == Err::<
                    (SnapshotMetadata, Vec<WriteStep>),
                    SnapshotError,
                >(SnapshotError::Io(SnapshotFault::MissingParentPath)),
                (SnapshotKind::Diff, Some(_)) => {
                    &&& r is Ok
                    &&& summary(
                        r->Ok_0.0,
                        cfg.kind,
                        sha256(parent_golden@),
                        vcpu_states@.len(),
                        regions@,
                    )
                    &&& forall|payloads: Seq<Seq<u8>>| #[trigger]
                        render(r->Ok_0.1@, payloads) == layout::snapshot_file(
                            cfg.kind,
                            sha256(parent_golden@),
                            state,
                            regions@,
                            layout::clean_bitmaps(regions@),
                        )
                    &&& regions@.len() == 1 ==> forall|payload: Seq<u8>|
                        round_trip::opens_as(
                            #[trigger] render(r->Ok_0.1@, seq![payload]),
                            cfg.kind,
                            sha256(parent_golden@),
                            vcpu_states@,
                            *vm_state,
                            *legacy_state,
                            *virtio_net_state,
                            regions@[0],
                        )
                },
            }
        }),
{
    match cfg.kind {
        SnapshotKind::Golden => Ok(
            write_golden_snapshot(
                vcpu_states,
                vm_state,
                legacy_state,
                virtio_net_state,
                regions,
            ),
        ),
        SnapshotKind::Diff => write_diff_snapshot_phase1(
            cfg,
            vcpu_states,
            vm_state,
            legacy_state,
            virtio_net_state,
            regions,
            parent_golden,
        ),
    }
}

/// Steps are carried out one behind the other: the file of two lists of steps is the one file and
/// then the other.
pub proof fn law_steps_are_carried_out_in_order(
    first: Seq<WriteStep>,
    second: Seq<WriteStep>,
    payloads: Seq<Seq<u8>>,
)
    ensures
        render(first + second, payloads) == render(first, payloads) + render(second, payloads),
    decreases second.len(),
{
    if second.len() == 0 {
        assert(first + second =~= first);
        assert(render(first, payloads) + render(second, payloads) =~= render(first, payloads));
    } else {
        law_steps_are_carried_out_in_order(first, second.drop_last(), payloads);
        assert((first + second).drop_last() =~= first + second.drop_last());
        wire::lemma_append(
            render(first, payloads),
            render(second.drop_last(), payloads),
            step_bytes(second.last(), payloads),
        );
    }
}

/// A step of bytes writes those bytes, a step of zeros as many zero bytes as it says, and a step
/// for a region the payload of that region.
pub proof fn law_a_step_writes_what_it_names(
    bytes: Vec<u8>,
    n: u64,
    i: usize,
    payloads: Seq<Seq<u8>>,
    k: int,
)
    ensures
        render(seq![WriteStep::Bytes(bytes)], payloads) == bytes@,
        render(seq![WriteStep::Zeros(n)], payloads).len() == n,
        0 <= k < n ==> render(seq![WriteStep::Zeros(n)], payloads)[k] == 0,
        render(seq![WriteStep::RegionPayload(i)], payloads) == payloads[i as int],
{
    let none = Seq::<WriteStep>::empty();
    lemma_render_push(none, WriteStep::Bytes(bytes), payloads);
    lemma_render_push(none, WriteStep::Zeros(n), payloads);
    lemma_render_push(none, WriteStep::RegionPayload(i), payloads);
    assert(none.push(WriteStep::Bytes(bytes)) =~= seq![WriteStep::Bytes(bytes)]);
    assert(none.push(WriteStep::Zeros(n)) =~= seq![WriteStep::Zeros(n)]);
    assert(none.push(WriteStep::RegionPayload(i)) =~= seq![WriteStep::RegionPayload(i)]);
    assert(Seq::<u8>::empty() + bytes@ =~= bytes@);
    assert(Seq::<u8>::empty() + payloads[i as int] =~= payloads[i as int]);
}

/// A fault and what is said of it hold the same.
pub proof fn law_faults_are_told_in_full(fault: SnapshotFault)
    ensures
        match fault {
            SnapshotFault::BadMagic(found) => fault@ == Refusal::BadMagic(found@),
            SnapshotFault::UnsupportedVersion(v) => fault@ == Refusal::UnsupportedVersion(v),
            SnapshotFault::UnknownKind(b) => fault@ == Refusal::UnknownKind(b),
            SnapshotFault::GoldenWithParent => fault@ == Refusal::GoldenWithParent,
            SnapshotFault::DiffWithoutParent => fault@ == Refusal::DiffWithoutParent,
            SnapshotFault::UnalignedRegionOffset(at) => fault@ == Refusal::UnalignedRegionOffset(at),
            SnapshotFault::RegionCount(n) => fault@ == Refusal::RegionCount(n),
            SnapshotFault::VirtioNet(VirtioNetStateError::Truncated { need, offset }) => fault@
                == Refusal::VirtioNet(
                NetFault::Truncated { need: need as nat, offset: offset as nat },
            ),
            SnapshotFault::VirtioNet(VirtioNetStateError::NonUtf8(raw)) => fault@
                == Refusal::VirtioNet(NetFault::NonUtf8(raw@)),
            SnapshotFault::UnexpectedEof => fault@ == Refusal::UnexpectedEof,
            SnapshotFault::NoMoreRegions => fault@ == Refusal::NoMoreRegions,
            SnapshotFault::TooShortForTrailer => fault@ == Refusal::TooShortForTrailer,
            SnapshotFault::BadTrailer(found) => fault@ == Refusal::BadTrailer(found@),
            SnapshotFault::MissingParentPath => fault@ == Refusal::MissingParentPath,
        },
{
}

} // verus!
