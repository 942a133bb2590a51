//! The file layout of a snapshot, as a byte sequence.
//!
//! All integers are little-endian:
//!
//! ```text
//! [ 0.. 8] magic "ATEOMSN1"
//! [ 8..12] format_version
//! [12..13] vcpu_count
//! [13..14] snapshot_kind (0 = golden, 1 = diff)
//! [14..16] reserved, zero
//! [16..24] mem_size_bytes, the sum of all region sizes
//! [24..56] parent_sha256 (golden: all zero)
//! for each vCPU: the id, then nine length-prefixed blobs
//! [u32] region count, then for each region:
//!     [u64] guest_phys_addr, [u64] size, [u64] file_offset (absolute, page-aligned)
//! VM-level state (five length-prefixed blobs)
//! legacy-device state (two length-prefixed blobs)
//! virtio-net envelope (one length-prefixed blob)
//! padding to the next page
//! for each region, at its file_offset and padded to the next page:
//!     golden: the region's bytes
//!     diff: the region's dirty bitmap
//! trailer "END!"
//! ```
//!
//! Files of earlier format versions, from 3 on, are goldens that lack what came later:
//!
//! * before 9 the header ends behind `mem_size_bytes`, and bytes 13 to 16 are reserved;
//! * before 8 the devices of the virtio-net envelope have no live state;
//! * before 7 there is no virtio-net envelope, before 6 no legacy-device state, and before 4 no
//!   VM-level state;
//! * a vCPU has eight blobs in 4, and four in 3.
use vstd::prelude::*;

use super::metadata;
use super::metadata::SnapshotKind;
use super::reader::RegionLocation;
use super::vcpu_state::VcpuRecord;
use super::virtio_net_state;
use super::virtio_net_state::NetDevice;
use super::MemoryRegionDescriptor;
use crate::wire;

verus! {

broadcast use wire::field_widths;

/// Everything but memory that a snapshot records.
pub struct GuestState {
    pub vcpus: Seq<VcpuRecord>,
    pub vm: Seq<Seq<u8>>,
    pub legacy: Seq<Seq<u8>>,
    pub devices: Seq<NetDevice>,
}

impl GuestState {
    /// The number of blobs in each block.
    pub open spec fn well_formed(self) -> bool {
        &&& forall|i: int| 0 <= i < self.vcpus.len() ==> (#[trigger] self.vcpus[i]).blobs.len() == 9
        &&& self.vm.len() == 5
        &&& self.legacy.len() == 2
    }

    /// The blobs behind the region table.
    pub open spec fn tail(self) -> Seq<Seq<u8>> {
        (self.vm + self.legacy).push(virtio_net_state::envelope(self.devices))
    }
}

/// The number of blobs of a vCPU in a file of the given format version.
pub open spec fn vcpu_blobs(version: u32) -> nat {
    if version < 4 {
        4
    } else if version < 5 {
        8
    } else {
        9
    }
}

/// The number of blobs behind the region table in a file of the given format version.
pub open spec fn tail_blobs(version: u32) -> nat {
    if version < 4 {
        0
    } else if version < 6 {
        5
    } else if version < 7 {
        7
    } else {
        8
    }
}

/// Whether virtio-net devices have live state in a file of the given format version.
pub open spec fn live_devices(version: u32) -> bool {
    version >= 8
}

/// The length of what stands in front of the vCPUs in a file of the given format version.
pub open spec fn prelude_len(version: u32) -> nat {
    if version < 9 {
        24
    } else {
        56
    }
}

/// Blobs, filled up with empty ones.
pub open spec fn filled_up(blobs: Seq<Seq<u8>>, n: nat) -> Seq<Seq<u8>> {
    Seq::new(
        n,
        |i: int|
            if i < blobs.len() {
                blobs[i]
            } else {
                Seq::empty()
            },
    )
}

/// What a file of the given format version holds of the vCPUs.
pub open spec fn cut_vcpus(vcpus: Seq<VcpuRecord>, version: u32) -> Seq<VcpuRecord> {
    Seq::new(
        vcpus.len(),
        |i: int|
            VcpuRecord {
                vcpu_id: vcpus[i].vcpu_id,
                blobs: vcpus[i].blobs.take(vcpu_blobs(version) as int),
            },
    )
}

impl GuestState {
    /// The blobs behind the region table in a file of the given format version.
    pub open spec fn tail_of(self, version: u32) -> Seq<Seq<u8>> {
        (self.vm + self.legacy).push(
            virtio_net_state::envelope_of(self.devices, live_devices(version)),
        ).take(tail_blobs(version) as int)
    }

    /// Whether a file of the given format version holds all there is.
    pub open spec fn held_by(self, version: u32) -> bool {
        &&& forall|i: int|
            0 <= i < self.vcpus.len() ==> (#[trigger] self.vcpus[i]).blobs == filled_up(
                self.vcpus[i].blobs.take(vcpu_blobs(version) as int),
                9,
            )
        &&& self.vm + self.legacy == filled_up(
            (self.vm + self.legacy).take(if tail_blobs(version) < 7 {
                tail_blobs(version) as int
            } else {
                7
            }),
            7,
        )
        &&& virtio_net_state::records_hold(self.devices, live_devices(version))
        &&& version < 7 ==> self.devices == Seq::<NetDevice>::empty()
    }
}

/// The smallest multiple of the page size that is not below `n`.
pub open spec fn page_up(n: int) -> int {
    (n + 4095) / 4096 * 4096
}

/// Length of the dirty bitmap of a region: one bit per page, in whole 64-bit words.
pub open spec fn bitmap_len(size: nat) -> nat {
    ((size + 4095) / 4096 + 63) / 64 * 8
}

/// The first 56 bytes.
pub open spec fn prelude_bytes(kind: SnapshotKind, vcpu_count: u8, mem_size: u64, parent: Seq<u8>) -> Seq<
    u8,
> {
    metadata::MAGIC@ + wire::le32(metadata::SNAPSHOT_FORMAT_VERSION) + seq![
        vcpu_count,
        metadata::kind_byte(kind),
    ] + wire::le16(0) + wire::le64(mem_size) + parent
}

/// What stands in front of the vCPUs in a file of a format version before 9. `reserved` are its
/// three reserved bytes.
pub open spec fn earlier_prelude(
    version: u32,
    vcpu_count: u8,
    reserved: Seq<u8>,
    mem_size: u64,
) -> Seq<u8> {
    metadata::MAGIC@ + wire::le32(version) + seq![vcpu_count] + reserved + wire::le64(mem_size)
}

/// Length-prefixed blobs, one behind the other.
pub open spec fn blobs_bytes(blobs: Seq<Seq<u8>>) -> Seq<u8>
    decreases blobs.len(),
{
    if blobs.len() == 0 {
        Seq::empty()
    } else {
        blobs_bytes(blobs.drop_last()) + wire::blob(blobs.last())
    }
}

/// One vCPU record.
pub open spec fn vcpu_bytes(v: VcpuRecord) -> Seq<u8> {
    seq![v.vcpu_id] + blobs_bytes(v.blobs)
}

/// vCPU records, one behind the other.
pub open spec fn vcpus_bytes(vcpus: Seq<VcpuRecord>) -> Seq<u8>
    decreases vcpus.len(),
{
    if vcpus.len() == 0 {
        Seq::empty()
    } else {
        vcpus_bytes(vcpus.drop_last()) + vcpu_bytes(vcpus.last())
    }
}

/// One row of the region table.
pub open spec fn region_bytes(r: RegionLocation) -> Seq<u8> {
    wire::le64(r.guest_phys_addr) + wire::le64(r.size) + wire::le64(r.file_offset)
}

/// The rows of the region table.
pub open spec fn table_bytes(regions: Seq<RegionLocation>) -> Seq<u8>
    decreases regions.len(),
{
    if regions.len() == 0 {
        Seq::empty()
    } else {
        table_bytes(regions.drop_last()) + region_bytes(regions.last())
    }
}

/// Everything in front of the first padding.
pub open spec fn header_bytes(
    kind: SnapshotKind,
    mem_size: u64,
    parent: Seq<u8>,
    state: GuestState,
    regions: Seq<RegionLocation>,
) -> Seq<u8> {
    prelude_bytes(kind, (state.vcpus.len() % 256) as u8, mem_size, parent) + vcpus_bytes(
        state.vcpus,
    ) + wire::le32(wire::len32(regions.len())) + table_bytes(regions) + blobs_bytes(state.tail())
}

/// The header of a file of a format version before 9.
pub open spec fn earlier_header(
    version: u32,
    reserved: Seq<u8>,
    mem_size: u64,
    state: GuestState,
    regions: Seq<RegionLocation>,
) -> Seq<u8> {
    earlier_prelude(version, (state.vcpus.len() % 256) as u8, reserved, mem_size) + vcpus_bytes(
        cut_vcpus(state.vcpus, version),
    ) + wire::le32(wire::len32(regions.len())) + table_bytes(regions) + blobs_bytes(
        state.tail_of(version),
    )
}

/// Length of length-prefixed blobs.
pub open spec fn blobs_len(blobs: Seq<Seq<u8>>) -> nat
    decreases blobs.len(),
{
    if blobs.len() == 0 {
        0
    } else {
        blobs_len(blobs.drop_last()) + 4 + blobs.last().len()
    }
}

/// Length of vCPU records.
pub open spec fn vcpus_len(vcpus: Seq<VcpuRecord>) -> nat
    decreases vcpus.len(),
{
    if vcpus.len() == 0 {
        0
    } else {
        vcpus_len(vcpus.drop_last()) + 1 + blobs_len(vcpus.last().blobs)
    }
}

/// Length of the header for a table of `regions` rows.
pub open spec fn header_len(state: GuestState, regions: nat) -> nat {
    56 + vcpus_len(state.vcpus) + 4 + 24 * regions + blobs_len(state.tail())
}

/// Sum of the region sizes.
pub open spec fn mem_size(regions: Seq<MemoryRegionDescriptor>) -> nat
    decreases regions.len(),
{
    if regions.len() == 0 {
        0
    } else {
        mem_size(regions.drop_last()) + regions.last().size as nat
    }
}

/// Length of what the body holds for a region.
pub open spec fn body_len(kind: SnapshotKind, r: MemoryRegionDescriptor) -> nat {
    match kind {
        SnapshotKind::Golden => r.size as nat,
        SnapshotKind::Diff => bitmap_len(r.size as nat),
    }
}

/// File offset behind the bodies of `regions`, the first of which starts at `start`.
pub open spec fn body_end(
    kind: SnapshotKind,
    start: int,
    regions: Seq<MemoryRegionDescriptor>,
) -> int
    decreases regions.len(),
{
    if regions.len() == 0 {
        start
    } else {
        page_up(body_end(kind, start, regions.drop_last()) + body_len(kind, regions.last()))
    }
}

/// Where the bodies start.
pub open spec fn body_start(state: GuestState, regions: nat) -> int {
    page_up(header_len(state, regions) as int)
}

/// The regions with the offsets of their bodies.
pub open spec fn placed(
    kind: SnapshotKind,
    start: int,
    regions: Seq<MemoryRegionDescriptor>,
) -> Seq<RegionLocation> {
    Seq::new(
        regions.len(),
        |i: int|
            RegionLocation {
                guest_phys_addr: regions[i].guest_phys_addr,
                size: regions[i].size,
                file_offset: body_end(kind, start, regions.take(i)) as u64,
            },
    )
}

/// The bodies, each padded to the next page.
pub open spec fn bodies_bytes(
    kind: SnapshotKind,
    regions: Seq<MemoryRegionDescriptor>,
    bodies: Seq<Seq<u8>>,
) -> Seq<u8>
    decreases regions.len(),
{
    if regions.len() == 0 {
        Seq::empty()
    } else {
        let len = body_len(kind, regions.last()) as int;
        bodies_bytes(kind, regions.drop_last(), bodies) + bodies[regions.len() - 1] + wire::zeros(
            (page_up(len) - len) as nat,
        )
    }
}

/// The whole file. `bodies` holds what was written for each region.
pub open spec fn snapshot_file(
    kind: SnapshotKind,
    parent: Seq<u8>,
    state: GuestState,
    regions: Seq<MemoryRegionDescriptor>,
    bodies: Seq<Seq<u8>>,
) -> Seq<u8> {
    let len = header_len(state, regions.len()) as int;
    let start = body_start(state, regions.len());
    header_bytes(kind, mem_size(regions) as u64, parent, state, placed(kind, start, regions))
        + wire::zeros((start - len) as nat) + bodies_bytes(kind, regions, bodies)
        + metadata::MAGIC_TRAILER@
}

/// The body of a diff: an all-zero bitmap for every region.
pub open spec fn clean_bitmaps(regions: Seq<MemoryRegionDescriptor>) -> Seq<Seq<u8>> {
    Seq::new(regions.len(), |i: int| wire::zeros(bitmap_len(regions[i].size as nat)))
}

/// Whether every size and offset of a snapshot fits 64 bits.
pub open spec fn layout_fits(
    kind: SnapshotKind,
    state: GuestState,
    regions: Seq<MemoryRegionDescriptor>,
) -> bool {
    &&& mem_size(regions) <= u64::MAX
    &&& body_end(kind, body_start(state, regions.len()), regions) <= u64::MAX
}

/// Where rounding up to a page leads.
pub proof fn lemma_page_up(n: int)
    requires
        0 <= n,
    ensures
        n <= page_up(n) < n + 4096,
        page_up(n) % 4096 == 0,
        page_up(n) <= u64::MAX <==> n + 4095 <= u64::MAX,
{
}

/// A page-aligned offset, moved on by a padded length.
pub proof fn lemma_page_up_sum(at: int, n: int)
    requires
        0 <= at,
        0 <= n,
        at % 4096 == 0,
    ensures
        page_up(at + n) == at + page_up(n),
{
}

/// The end of the bodies is page-aligned and not in front of any earlier end.
pub proof fn lemma_body_end(
    kind: SnapshotKind,
    start: int,
    regions: Seq<MemoryRegionDescriptor>,
    i: int,
)
    requires
        0 <= start,
        start % 4096 == 0,
        0 <= i <= regions.len(),
    ensures
        start <= body_end(kind, start, regions.take(i)) <= body_end(kind, start, regions),
        body_end(kind, start, regions.take(i)) % 4096 == 0,
        i < regions.len() ==> body_end(kind, start, regions.take(i + 1)) == page_up(
            body_end(kind, start, regions.take(i)) + body_len(kind, regions[i]),
        ),
        i < regions.len() ==> body_end(kind, start, regions.take(i)) + body_len(kind, regions[i])
            <= body_end(kind, start, regions),
    decreases regions.len(),
{
    if i == regions.len() {
        assert(regions.take(i) =~= regions);
    }
    if regions.len() > 0 {
        let before = regions.drop_last();
        let j = if i == regions.len() {
            i - 1
        } else {
            i
        };
        lemma_body_end(kind, start, before, j);
        assert(before.take(j) =~= regions.take(j));
        assert(before.take(before.len() as int) =~= before);
        lemma_body_end(kind, start, before, before.len() as int);
        lemma_page_up(body_end(kind, start, before) + body_len(kind, regions.last()));
        if i < regions.len() {
            let next = regions.take(i + 1);
            assert(next.drop_last() =~= regions.take(i));
            if i + 1 < regions.len() {
                assert(before.take(i + 1) =~= next);
                assert(before[i] == regions[i]);
            } else {
                assert(next =~= regions);
            }
        }
    }
}

/// Length of length-prefixed blobs.
pub proof fn lemma_blobs_len(blobs: Seq<Seq<u8>>)
    ensures
        blobs_bytes(blobs).len() == blobs_len(blobs),
    decreases blobs.len(),
{
    if blobs.len() > 0 {
        lemma_blobs_len(blobs.drop_last());
    }
}

/// Length of vCPU records.
pub proof fn lemma_vcpus_len(vcpus: Seq<VcpuRecord>)
    ensures
        vcpus_bytes(vcpus).len() == vcpus_len(vcpus),
    decreases vcpus.len(),
{
    if vcpus.len() > 0 {
        lemma_vcpus_len(vcpus.drop_last());
        lemma_blobs_len(vcpus.last().blobs);
    }
}

/// One vCPU record more.
pub proof fn lemma_vcpus_len_step(vcpus: Seq<VcpuRecord>, i: int)
    requires
        0 <= i < vcpus.len(),
    ensures
        vcpus_len(vcpus.take(i + 1)) == vcpus_len(vcpus.take(i)) + 1 + blobs_len(vcpus[i].blobs),
{
    let next = vcpus.take(i + 1);
    assert(next.drop_last() =~= vcpus.take(i));
}

/// Length of the region table.
pub proof fn lemma_table_len(regions: Seq<RegionLocation>)
    ensures
        table_bytes(regions).len() == 24 * regions.len(),
    decreases regions.len(),
{
    if regions.len() > 0 {
        lemma_table_len(regions.drop_last());
    }
}

/// The header is as long as the offsets assume.
pub proof fn lemma_header_len(
    kind: SnapshotKind,
    mem_size: u64,
    parent: Seq<u8>,
    state: GuestState,
    regions: Seq<RegionLocation>,
)
    requires
        parent.len() == 32,
    ensures
        header_bytes(kind, mem_size, parent, state, regions).len() == header_len(
            state,
            regions.len(),
        ),
{
    lemma_vcpus_len(state.vcpus);
    lemma_table_len(regions);
    lemma_blobs_len(state.tail());
}

} // verus!
