//! What the bytes of a snapshot are, and which bytes are refused.
//!
//! The format outlives any one reader and writer, so it is stated here in numbers and places.
use vstd::prelude::*;

use super::laws;
use super::layout;
use super::layout::GuestState;
use super::metadata;
use super::metadata::{SnapshotKind, SnapshotMetadata};
use super::reader;
use super::reader::{Recorded, RegionLocation};
use super::serial_state::LegacyDeviceState;
use super::vcpu_state::VcpuStateData;
use super::virtio_net_state;
use super::virtio_net_state::{NetDevice, NetFault, QueueState, VirtioNetDeviceState, VirtioNetState};
use super::vm_state::VmStateData;
use super::{MemoryRegionDescriptor, Refusal};
use crate::wire;

verus! {

broadcast use wire::field_widths;

/// `ATEOMSN1`, the first bytes of a snapshot.
pub open spec fn first_bytes() -> Seq<u8> {
    seq![65u8, 84, 69, 79, 77, 83, 78, 49]
}

/// `END!`, the last bytes of a snapshot.
pub open spec fn last_bytes() -> Seq<u8> {
    seq![69u8, 78, 68, 33]
}

/// What a format version holds. Only versions 3 to 9 can be read.
pub proof fn law_what_a_version_holds(version: u32)
    ensures
        reader::is_readable(version) <==> 3 <= version <= 9,
        version == 3 ==> layout::vcpu_blobs(version) == 4 && layout::tail_blobs(version) == 0,
        version == 4 ==> layout::vcpu_blobs(version) == 8 && layout::tail_blobs(version) == 5,
        version == 5 ==> layout::vcpu_blobs(version) == 9 && layout::tail_blobs(version) == 5,
        version == 6 ==> layout::vcpu_blobs(version) == 9 && layout::tail_blobs(version) == 7,
        7 <= version <= 9 ==> layout::vcpu_blobs(version) == 9 && layout::tail_blobs(version) == 8,
        layout::live_devices(version) <==> version >= 8,
        3 <= version <= 8 ==> layout::prelude_len(version) == 24,
        version == 9 ==> layout::prelude_len(version) == 56,
        metadata::SNAPSHOT_FORMAT_VERSION == 9,
        metadata::SNAPSHOT_PAGE_SIZE == 4096,
{
}

/// Blobs are written one behind the other.
pub proof fn law_blobs_are_joined(a: Seq<Seq<u8>>, b: Seq<Seq<u8>>, x: Seq<u8>)
    ensures
        layout::blobs_bytes(a + b) == layout::blobs_bytes(a) + layout::blobs_bytes(b),
        layout::blobs_bytes(seq![x]) == wire::blob(x),
    decreases b.len(),
{
    reveal_with_fuel(layout::blobs_bytes, 2);
    assert(seq![x].drop_last() =~= Seq::empty());
    assert(layout::blobs_bytes(seq![x]) =~= wire::blob(x));
    if b.len() == 0 {
        assert(a + b =~= a);
        assert(layout::blobs_bytes(a) + layout::blobs_bytes(b) =~= layout::blobs_bytes(a));
    } else {
        law_blobs_are_joined(a, b.drop_last(), x);
        assert((a + b).drop_last() =~= a + b.drop_last());
        wire::lemma_append(
            layout::blobs_bytes(a),
            layout::blobs_bytes(b.drop_last()),
            wire::blob(b.last()),
        );
    }
}

/// One blob more, written behind the others.
proof fn lemma_one_more(blobs: Seq<Seq<u8>>, x: Seq<u8>)
    ensures
        layout::blobs_bytes(blobs.push(x)) == layout::blobs_bytes(blobs) + wire::blob(x),
{
    assert(blobs.push(x).drop_last() =~= blobs);
}

/// A vCPU is written as its id and nine blobs: the general and the special registers, the MSRs, the
/// CPUID layout, the local APIC, the FPU state, the pending events, the run state and the XCRs.
pub proof fn law_vcpu_record(v: VcpuStateData)
    ensures
        layout::vcpu_bytes(v@) == seq![v.vcpu_id] + (wire::blob(v.regs@) + wire::blob(v.sregs@)
            + wire::blob(v.msrs@) + wire::blob(v.cpuid_entries@) + wire::blob(v.lapic@)
            + wire::blob(v.xsave@) + wire::blob(v.vcpu_events@) + wire::blob(v.mp_state@)
            + wire::blob(v.xcrs@)),
{
    let p1 = Seq::<Seq<u8>>::empty().push(v.regs@);
    let p2 = p1.push(v.sregs@);
    let p3 = p2.push(v.msrs@);
    let p4 = p3.push(v.cpuid_entries@);
    let p5 = p4.push(v.lapic@);
    let p6 = p5.push(v.xsave@);
    let p7 = p6.push(v.vcpu_events@);
    let p8 = p7.push(v.mp_state@);
    let p9 = p8.push(v.xcrs@);
    lemma_one_more(Seq::empty(), v.regs@);
    lemma_one_more(p1, v.sregs@);
    lemma_one_more(p2, v.msrs@);
    lemma_one_more(p3, v.cpuid_entries@);
    lemma_one_more(p4, v.lapic@);
    lemma_one_more(p5, v.xsave@);
    lemma_one_more(p6, v.vcpu_events@);
    lemma_one_more(p7, v.mp_state@);
    lemma_one_more(p8, v.xcrs@);
    assert(v@.blobs =~= p9);
    assert(Seq::<u8>::empty() + wire::blob(v.regs@) =~= wire::blob(v.regs@));
}

/// Behind the region table stand the two PICs, the IOAPIC, the timer and the clock, both UARTs, and
/// the envelope of the network devices.
pub proof fn law_blobs_behind_the_table(
    vcpu_states: Seq<VcpuStateData>,
    vm: VmStateData,
    legacy: LegacyDeviceState,
    net: VirtioNetState,
)
    ensures
        layout::blobs_bytes(super::guest_state(vcpu_states, vm, legacy, net).tail()) == wire::blob(
            vm.pic_master@,
        ) + wire::blob(vm.pic_slave@) + wire::blob(vm.ioapic@) + wire::blob(vm.pit2@) + wire::blob(
            vm.clock@,
        ) + wire::blob(legacy.com1@) + wire::blob(legacy.com2@) + wire::blob(
            virtio_net_state::envelope(net@),
        ),
{
    let envelope = virtio_net_state::envelope(net@);
    let p1 = Seq::<Seq<u8>>::empty().push(vm.pic_master@);
    let p2 = p1.push(vm.pic_slave@);
    let p3 = p2.push(vm.ioapic@);
    let p4 = p3.push(vm.pit2@);
    let p5 = p4.push(vm.clock@);
    let p6 = p5.push(legacy.com1@);
    let p7 = p6.push(legacy.com2@);
    let p8 = p7.push(envelope);
    lemma_one_more(Seq::empty(), vm.pic_master@);
    lemma_one_more(p1, vm.pic_slave@);
    lemma_one_more(p2, vm.ioapic@);
    lemma_one_more(p3, vm.pit2@);
    lemma_one_more(p4, vm.clock@);
    lemma_one_more(p5, legacy.com1@);
    lemma_one_more(p6, legacy.com2@);
    lemma_one_more(p7, envelope);
    assert(super::guest_state(vcpu_states, vm, legacy, net).tail() =~= p8);
    assert(Seq::<u8>::empty() + wire::blob(vm.pic_master@) =~= wire::blob(vm.pic_master@));
}

/// vCPUs are written one behind the other, in order.
pub proof fn law_vcpus_are_joined(
    vcpu_states: Seq<VcpuStateData>,
    last: VcpuStateData,
    vm: VmStateData,
    legacy: LegacyDeviceState,
    net: VirtioNetState,
)
    ensures
        layout::vcpus_bytes(super::guest_state(vcpu_states.push(last), vm, legacy, net).vcpus)
            == layout::vcpus_bytes(super::guest_state(vcpu_states, vm, legacy, net).vcpus)
            + layout::vcpu_bytes(last@),
        layout::vcpus_bytes(super::guest_state(Seq::empty(), vm, legacy, net).vcpus).len() == 0,
{
    let all = super::guest_state(vcpu_states.push(last), vm, legacy, net).vcpus;
    let before = super::guest_state(vcpu_states, vm, legacy, net).vcpus;
    assert(all.drop_last() =~= before);
    assert(all.last() == last@);
}

/// A file starts with 56 bytes: the magic, the version, the number of vCPUs, the kind, two zero
/// bytes, the memory size and the parent hash. Behind them stand the vCPUs.
pub proof fn law_file_starts_with_the_header(
    kind: SnapshotKind,
    parent: Seq<u8>,
    state: GuestState,
    regions: Seq<MemoryRegionDescriptor>,
    bodies: Seq<Seq<u8>>,
)
    requires
        parent.len() == 32,
        layout::layout_fits(kind, state, regions),
    ensures
        ({
            let b = layout::snapshot_file(kind, parent, state, regions, bodies);
            let vcpus = layout::vcpus_bytes(state.vcpus);
            &&& b.subrange(0, 8) == first_bytes()
            &&& wire::at32(b, 8) == 9
            &&& b[12] == state.vcpus.len() % 256
            &&& kind is Golden ==> b[13] == 0
            &&& kind is Diff ==> b[13] == 1
            &&& b[14] == 0 && b[15] == 0
            &&& wire::at64(b, 16) == layout::mem_size(regions)
            &&& b.subrange(24, 56) == parent
            &&& b.subrange(56, 56int + vcpus.len()) == vcpus
        }),
{
    let b = layout::snapshot_file(kind, parent, state, regions, bodies);
    laws::law_header_fields(kind, parent, state, regions, bodies);
    assert(metadata::MAGIC@ =~= first_bytes());
    laws::lemma_stands(kind, parent, state, regions, bodies);
    wire::lemma_bytes(b, 56, layout::vcpus_bytes(state.vcpus));
    assert(b[14] == 0 && b[15] == 0) by {
        wire::law_reading_is_little_endian(b, 14);
    }
}

/// Behind the vCPUs stands the region table: the number of regions, and for each its address, its
/// size and where its body starts. The blobs of the devices follow it.
pub proof fn law_region_table_follows_the_vcpus(
    kind: SnapshotKind,
    parent: Seq<u8>,
    state: GuestState,
    regions: Seq<MemoryRegionDescriptor>,
    bodies: Seq<Seq<u8>>,
    i: int,
)
    requires
        parent.len() == 32,
        layout::layout_fits(kind, state, regions),
        regions.len() <= u32::MAX,
        0 <= i < regions.len(),
    ensures
        ({
            let b = layout::snapshot_file(kind, parent, state, regions, bodies);
            let table = 56 + layout::vcpus_bytes(state.vcpus).len() as int;
            let row = table + 4 + 24 * i;
            let behind = table + 4 + 24 * regions.len();
            let tail = layout::blobs_bytes(state.tail());
            &&& wire::at32(b, table) == regions.len()
            &&& wire::at64(b, row) == regions[i].guest_phys_addr
            &&& wire::at64(b, row + 8) == regions[i].size
            &&& wire::at64(b, row + 16) == laws::located(kind, state, regions)[i].file_offset
            &&& b.subrange(behind, behind + tail.len()) == tail
        }),
{
    let b = layout::snapshot_file(kind, parent, state, regions, bodies);
    let table = 56 + layout::vcpus_bytes(state.vcpus).len() as int;
    layout::lemma_vcpus_len(state.vcpus);
    laws::lemma_stands(kind, parent, state, regions, bodies);
    wire::lemma_le32(b, table, wire::len32(regions.len()));
    wire::lemma_bytes(b, table + 4 + 24 * regions.len(), layout::blobs_bytes(state.tail()));
    laws::lemma_row_back(b, table + 4, laws::located(kind, state, regions), i);
}

/// Between the header and the first body there is nothing but zeros, less than a page of them, and
/// the file ends with the trailer.
pub proof fn law_header_is_padded_to_a_page(
    kind: SnapshotKind,
    parent: Seq<u8>,
    state: GuestState,
    regions: Seq<MemoryRegionDescriptor>,
    bodies: Seq<Seq<u8>>,
    k: int,
)
    requires
        parent.len() == 32,
        layout::layout_fits(kind, state, regions),
        regions.len() > 0,
    ensures
        ({
            let b = layout::snapshot_file(kind, parent, state, regions, bodies);
            let end = 60 + layout::vcpus_bytes(state.vcpus).len() + 24 * regions.len()
                + layout::blobs_bytes(state.tail()).len();
            let first = laws::located(kind, state, regions)[0].file_offset;
            &&& end <= first < end + 4096
            &&& end <= k < first ==> b[k] == 0
            &&& b.subrange(b.len() - 4, b.len() as int) == last_bytes()
        }),
{
    let b = layout::snapshot_file(kind, parent, state, regions, bodies);
    let end = layout::header_len(state, regions.len()) as int;
    let start = layout::body_start(state, regions.len());
    let pad = wire::zeros((start - end) as nat);
    layout::lemma_vcpus_len(state.vcpus);
    layout::lemma_blobs_len(state.tail());
    layout::lemma_page_up(end);
    laws::law_bodies_are_aligned_and_apart(kind, state, regions, 0);
    laws::lemma_stands(kind, parent, state, regions, bodies);
    assert(regions.take(0) =~= Seq::empty());
    layout::lemma_body_end(kind, start, regions, 0);
    wire::lemma_bytes(b, end, pad);
    if end <= k < start {
        assert(b[end + (k - end)] == pad[k - end]);
    }
    assert(metadata::MAGIC_TRAILER@ =~= last_bytes());
    wire::lemma_bytes(b, b.len() - 4, metadata::MAGIC_TRAILER@);
}

/// The memory size is the sum of the region sizes.
pub proof fn law_memory_sizes_add_up(
    a: Seq<MemoryRegionDescriptor>,
    b: Seq<MemoryRegionDescriptor>,
    r: MemoryRegionDescriptor,
)
    ensures
        layout::mem_size(a + b) == layout::mem_size(a) + layout::mem_size(b),
        layout::mem_size(seq![r]) == r.size,
    decreases b.len(),
{
    reveal_with_fuel(layout::mem_size, 2);
    assert(seq![r].drop_last() =~= Seq::empty());
    if b.len() == 0 {
        assert(a + b =~= a);
    } else {
        law_memory_sizes_add_up(a, b.drop_last(), r);
        assert((a + b).drop_last() =~= a + b.drop_last());
    }
}

/// Regions are recorded in order, with their addresses and sizes, each body as soon behind the one
/// before it as the next page allows. The body of a golden has the size of its region; that of a
/// diff has a bit for each page of it, in whole words of 64 bits.
pub proof fn law_regions_are_placed_in_order(
    kind: SnapshotKind,
    state: GuestState,
    regions: Seq<MemoryRegionDescriptor>,
    i: int,
)
    requires
        layout::layout_fits(kind, state, regions),
        0 <= i < regions.len(),
    ensures
        ({
            let placed = laws::located(kind, state, regions);
            let len = layout::body_len(kind, regions[i]);
            &&& placed.len() == regions.len()
            &&& placed[i].guest_phys_addr == regions[i].guest_phys_addr
            &&& placed[i].size == regions[i].size
            &&& kind is Golden ==> len == regions[i].size
            &&& kind is Diff ==> len % 8 == 0 && len * 32768 >= regions[i].size && (len > 0 ==> (len
                - 8) * 32768 < regions[i].size)
            &&& i + 1 < regions.len() ==> placed[i].file_offset + len <= placed[i + 1].file_offset
                < placed[i].file_offset + len + 4096
        }),
{
    let start = layout::body_start(state, regions.len());
    laws::law_bodies_are_aligned_and_apart(kind, state, regions, i);
    laws::law_bitmap_covers_region(regions[i].size);
    layout::lemma_page_up(layout::header_len(state, regions.len()) as int);
    layout::lemma_body_end(kind, start, regions, i);
    layout::lemma_body_end(kind, start, regions, i + 1);
    layout::lemma_page_up(
        layout::body_end(kind, start, regions.take(i)) + layout::body_len(kind, regions[i]),
    );
}

/// What an opened file says in its first bytes. Before version 9 it says neither kind nor parent:
/// it is a golden.
#[verifier::rlimit(40)]
pub proof fn law_opened_header(b: Seq<u8>)
    ensures
        reader::parse_snapshot(b) matches Ok(r) ==> {
            &&& b.len() >= 24
            &&& b.subrange(0, 8) == first_bytes()
            &&& 3 <= r.format_version <= 9
            &&& r.format_version == wire::at32(b, 8)
            &&& r.vcpu_count == b[12]
            &&& r.state.vcpus.len() == b[12]
            &&& r.mem_size_bytes == wire::at64(b, 16)
            &&& r.parent.len() == 32
            &&& r.format_version < 9 ==> r.kind is Golden
            &&& r.format_version == 9 ==> r.parent == b.subrange(24, 56)
            &&& r.format_version == 9 && r.kind is Golden ==> b[13] == 0
            &&& r.format_version == 9 && r.kind is Diff ==> b[13] == 1
            &&& r.kind is Golden <==> forall|k: int| 0 <= k < 32 ==> #[trigger] r.parent[k] == 0
            &&& r.regions.len() == 1
            &&& r.regions[0].file_offset % 4096 == 0
        },
{
    if reader::parse_snapshot(b) is Ok {
        let r = reader::parse_snapshot(b)->Ok_0;
        assert(metadata::MAGIC@ =~= first_bytes());
        laws::law_missing_state_is_empty(b);
        laws::lemma_opened_shape(b);
        if forall|k: int| 0 <= k < 32 ==> #[trigger] r.parent[k] == 0 {
            assert(r.parent =~= wire::zeros(32));
        }
    }
}

/// Which first bytes are refused, and for what: anything but the magic; a version that is not one of
/// 3 to 9; from version 9 on a kind other than 0 and 1, a golden with a parent hash, and a diff
/// without one. Bytes that are too few for that are refused for it.
pub proof fn law_first_bytes_are_checked(b: Seq<u8>)
    ensures
        ({
            let r = reader::parse_snapshot(b);
            let magic = b.len() >= 8 && b.subrange(0, 8) == first_bytes();
            let version = wire::at32(b, 8);
            let current = magic && b.len() >= 14 && version == 9;
            let parentless = forall|k: int| 24 <= k < 56 ==> #[trigger] b[k] == 0;
            &&& b.len() < 8 ==> r == Err::<Recorded, Refusal>(Refusal::UnexpectedEof)
            &&& b.len() >= 8 && !magic ==> r == Err::<Recorded, Refusal>(
                Refusal::BadMagic(b.subrange(0, 8)),
            )
            &&& magic && b.len() >= 12 && !(3 <= version <= 9) ==> r == Err::<Recorded, Refusal>(
                Refusal::UnsupportedVersion(version),
            )
            &&& magic && b.len() < 24 && (b.len() < 12 || 3 <= version <= 8 || b.len() < 14) && !(
            b.len() >= 12 && !(3 <= version <= 9)) ==> r == Err::<Recorded, Refusal>(
                Refusal::UnexpectedEof,
            )
            &&& current && b[13] >= 2 ==> r == Err::<Recorded, Refusal>(Refusal::UnknownKind(b[13]))
            &&& current && b[13] < 2 && b.len() < 56 ==> r == Err::<Recorded, Refusal>(
                Refusal::UnexpectedEof,
            )
            &&& current && b.len() >= 56 && b[13] == 0 && !parentless ==> r == Err::<
                Recorded,
                Refusal,
            >(Refusal::GoldenWithParent)
            &&& current && b.len() >= 56 && b[13] == 1 && parentless ==> r == Err::<
                Recorded,
                Refusal,
            >(Refusal::DiffWithoutParent)
        }),
{
    assert(metadata::MAGIC@ =~= first_bytes());
    if b.len() >= 56 {
        let parent = b.subrange(24, 56);
        if forall|k: int| 24 <= k < 56 ==> #[trigger] b[k] == 0 {
            assert(parent =~= wire::zeros(32));
        } else {
            let k = choose|k: int| 24 <= k < 56 && #[trigger] b[k] != 0;
            assert(parent[k - 24] == b[k]);
            assert(wire::zeros(32)[k - 24] == 0);
        }
    }
}

/// A region table of one row is read, unless it ends early or its offset is not on a page. A table
/// of no rows, or of more, is refused for their number, unless one of them is bad.
pub proof fn law_region_table_is_checked(b: Seq<u8>, at: int)
    requires
        0 <= at,
        at + 4 <= b.len(),
    ensures
        ({
            let count = wire::at32(b, at);
            let r = reader::parse_table(b, at);
            &&& count == 0 ==> r == Err::<Seq<RegionLocation>, Refusal>(Refusal::RegionCount(0))
            &&& count == 1 && at + 28 > b.len() ==> r == Err::<Seq<RegionLocation>, Refusal>(
                Refusal::UnexpectedEof,
            )
            &&& count == 1 && at + 28 <= b.len() && wire::at64(b, at + 20) % 4096 != 0 ==> r
                == Err::<Seq<RegionLocation>, Refusal>(
                Refusal::UnalignedRegionOffset(wire::at64(b, at + 20)),
            )
            &&& count == 1 && at + 28 <= b.len() && wire::at64(b, at + 20) % 4096 == 0 ==> r == Ok::<
                Seq<RegionLocation>,
                Refusal,
            >(
                seq![
                    RegionLocation {
                        guest_phys_addr: wire::at64(b, at + 4),
                        size: wire::at64(b, at + 12),
                        file_offset: wire::at64(b, at + 20),
                    },
                ],
            )
            &&& count > 1 ==> match r {
                Ok(_) => false,
                Err(Refusal::RegionCount(n)) => n == count && at + 4 + 24 * count <= b.len(),
                Err(Refusal::UnexpectedEof) => at + 4 + 24 * count > b.len(),
                Err(Refusal::UnalignedRegionOffset(off)) => off % 4096 != 0,
                Err(_) => false,
            }
        }),
{
    let count = wire::at32(b, at);
    reveal_with_fuel(reader::parse_regions, 2);
    lemma_rows(b, at + 4, count as nat);
    if count == 1 {
        let row = reader::region_at(b, at + 4);
        assert(Seq::<RegionLocation>::empty().push(row) =~= seq![row]);
    }
}

/// What reading rows can come to.
proof fn lemma_rows(b: Seq<u8>, at: int, n: nat)
    requires
        0 <= at,
    ensures
        match reader::parse_regions(b, at, n) {
            Ok(_) => n > 0 ==> at + 24 * n <= b.len(),
            Err(Refusal::UnexpectedEof) => at + 24 * n > b.len(),
            Err(Refusal::UnalignedRegionOffset(off)) => off % 4096 != 0,
            Err(_) => false,
        },
    decreases n,
{
    if n > 0 {
        lemma_rows(b, at, (n - 1) as nat);
    }
}

/// A file ends with `END!` or is refused: for its length, where it has less than four bytes, and
/// for its last four bytes otherwise.
pub proof fn law_last_bytes_are_checked(b: Seq<u8>)
    ensures
        reader::trailer_refusal(b) == if b.len() < 4 {
            Some(Refusal::TooShortForTrailer)
        } else if b.skip(b.len() - 4) == last_bytes() {
            None
        } else {
            Some(Refusal::BadTrailer(b.skip(b.len() - 4)))
        },
{
    assert(metadata::MAGIC_TRAILER@ =~= last_bytes());
    if b.len() >= 4 {
        assert(b.subrange(b.len() - 4, b.len() as int) =~= b.skip(b.len() - 4));
    }
}

/// The record of a queue takes 34 bytes: index and size, two flags, two cursors, and the three
/// ring addresses.
pub proof fn law_queue_record(q: QueueState)
    ensures
        ({
            let b = virtio_net_state::queue_bytes(q);
            &&& b.len() == 34
            &&& wire::at16(b, 0) == q.index
            &&& wire::at16(b, 2) == q.size
            &&& b[4] <= 1 && (b[4] == 1 <==> q.ready)
            &&& b[5] <= 1 && (b[5] == 1 <==> q.event_idx_enabled)
            &&& wire::at16(b, 6) == q.next_avail
            &&& wire::at16(b, 8) == q.next_used
            &&& wire::at64(b, 10) == q.desc_table
            &&& wire::at64(b, 18) == q.avail_ring
            &&& wire::at64(b, 26) == q.used_ring
        }),
{
    let b = virtio_net_state::queue_bytes(q);
    let flags = seq![
        virtio_net_state::flag_byte(q.ready),
        virtio_net_state::flag_byte(q.event_idx_enabled),
    ];
    let p1 = wire::le16(q.index);
    let p2 = p1 + wire::le16(q.size);
    let p3 = p2 + flags;
    let p4 = p3 + wire::le16(q.next_avail);
    let p5 = p4 + wire::le16(q.next_used);
    let p6 = p5 + wire::le64(q.desc_table);
    let p7 = p6 + wire::le64(q.avail_ring);
    wire::lemma_whole(b);
    wire::lemma_split(b, 0, p7, wire::le64(q.used_ring));
    wire::lemma_split(b, 0, p6, wire::le64(q.avail_ring));
    wire::lemma_split(b, 0, p5, wire::le64(q.desc_table));
    wire::lemma_split(b, 0, p4, wire::le16(q.next_used));
    wire::lemma_split(b, 0, p3, wire::le16(q.next_avail));
    wire::lemma_split(b, 0, p2, flags);
    wire::lemma_split(b, 0, p1, wire::le16(q.size));
    wire::lemma_le16(b, 0, q.index);
    wire::lemma_le16(b, 2, q.size);
    wire::lemma_bytes(b, 4, flags);
    assert(b[4int + 0] == flags[0] && b[4int + 1] == flags[1]);
    wire::lemma_le16(b, 6, q.next_avail);
    wire::lemma_le16(b, 8, q.next_used);
    wire::lemma_le64(b, 10, q.desc_table);
    wire::lemma_le64(b, 18, q.avail_ring);
    wire::lemma_le64(b, 26, q.used_ring);
}

/// The record of a device: both names behind their lengths, whether it has a MAC address and the
/// address, zero where it has none, the number and the largest size of its queues; and, from
/// version 8 on, the negotiated features, the number of live queues and a record of each.
pub proof fn law_device_record(d: VirtioNetDeviceState)
    ensures
        ({
            let mac = match d.guest_mac {
                Some(mac) => seq![1u8] + mac@,
                None => seq![0u8, 0, 0, 0, 0, 0, 0],
            };
            let given = wire::blob(wire::text_bytes(d.iface_id@)) + wire::blob(
                wire::text_bytes(d.host_dev_name@),
            ) + mac + seq![d.num_queues] + wire::le16(d.queue_size);
            &&& virtio_net_state::device_bytes(d@, false) == given
            &&& virtio_net_state::device_bytes(d@, true) == given + wire::le64(d.acked_features)
                + wire::le32((d.queues@.len() % 0x1_0000_0000) as u32)
                + virtio_net_state::queues_bytes(d.queues@)
        }),
{
    assert(seq![0u8] + wire::zeros(6) =~= seq![0u8, 0, 0, 0, 0, 0, 0]);
}

/// An envelope is the number of devices and a record of each, in order; queues are recorded in
/// order too.
pub proof fn law_envelope_layout(
    net: VirtioNetState,
    more: VirtioNetState,
    last: VirtioNetDeviceState,
    queues: Seq<QueueState>,
    q: QueueState,
)
    requires
        more.devices@ == net.devices@.push(last),
        more.devices@.len() <= u32::MAX,
    ensures
        virtio_net_state::envelope(more@) == wire::le32(more.devices@.len() as u32)
            + virtio_net_state::envelope(net@).skip(4) + virtio_net_state::device_bytes(last@, true),
        net.devices@.len() == 0 ==> virtio_net_state::envelope(net@) == seq![0u8, 0, 0, 0],
        virtio_net_state::queues_bytes(queues.push(q)) == virtio_net_state::queues_bytes(queues)
            + virtio_net_state::queue_bytes(q),
        virtio_net_state::queues_bytes(Seq::empty()).len() == 0,
{
    assert(more@.drop_last() =~= net@);
    assert(queues.push(q).drop_last() =~= queues);
    assert(virtio_net_state::envelope(net@).skip(4) =~= virtio_net_state::devices_bytes(net@, true));
    assert(virtio_net_state::envelope(more@) =~= wire::le32(more.devices@.len() as u32)
        + virtio_net_state::devices_bytes(net@, true) + virtio_net_state::device_bytes(
        last@,
        true,
    ));
    if net.devices@.len() == 0 {
        reveal(wire::le32);
        assert(virtio_net_state::envelope(net@) =~= seq![0u8, 0, 0, 0]);
    }
}

/// How the record of a queue is read: its fields stand where they are written, and a flag is set by
/// any byte but zero.
pub proof fn law_queue_is_read(b: Seq<u8>, at: int, n: nat, i: int)
    requires
        0 <= at,
        0 <= i < n,
        at + 34 * n <= b.len(),
    ensures
        virtio_net_state::parse_queues(b, at, n) matches Ok(queues) && queues.len() == n && {
            let q = queues[i];
            let own = at + 34 * i;
            &&& q.index == b[own] + 256 * b[own + 1]
            &&& q.size == b[own + 2] + 256 * b[own + 3]
            &&& q.ready <==> b[own + 4] != 0
            &&& q.event_idx_enabled <==> b[own + 5] != 0
            &&& q.next_avail == b[own + 6] + 256 * b[own + 7]
            &&& q.next_used == b[own + 8] + 256 * b[own + 9]
            &&& q.desc_table == wire::at64(b, own + 10)
            &&& q.avail_ring == wire::at64(b, own + 18)
            &&& q.used_ring == wire::at64(b, own + 26)
        },
{
    let own = at + 34 * i;
    wire::law_reading_is_little_endian(b, own);
    wire::law_reading_is_little_endian(b, own + 2);
    wire::law_reading_is_little_endian(b, own + 6);
    wire::law_reading_is_little_endian(b, own + 8);
}

/// How the record of a device is read. Behind its names, which start at `at`, stand the fixed
/// fields: a MAC address is there exactly where the byte in front of it is one. Features and queues
/// are read where the record has them, and are none where it does not.
pub proof fn law_device_is_read(b: Seq<u8>, at: int, live: bool)
    requires
        0 <= at,
    ensures
        virtio_net_state::parse_device(b, at, live) matches Ok((d, end)) ==> {
            let first = wire::at32(b, at) as int;
            let second = wire::at32(b, at + 4 + first) as int;
            let fixed = at + 8 + first + second;
            &&& fixed + 10 <= end <= b.len()
            &&& d.iface_id == wire::text_of(b.subrange(at + 4, at + 4 + first))
            &&& d.host_dev_name == wire::text_of(b.subrange(at + 8 + first, fixed))
            &&& d.guest_mac is Some <==> b[fixed] == 1
            &&& d.guest_mac matches Some(mac) ==> mac == b.subrange(fixed + 1, fixed + 7)
            &&& d.num_queues == b[fixed + 7]
            &&& d.queue_size == b[fixed + 8] + 256 * b[fixed + 9]
            &&& !live ==> end == fixed + 10 && d.acked_features == 0 && d.queues.len() == 0
            &&& live ==> d.acked_features == wire::at64(b, fixed + 10) && d.queues.len()
                == wire::at32(b, fixed + 18) && end == fixed + 22 + 34 * d.queues.len()
        },
        virtio_net_state::parse_device(b, at, live) is Ok <==> (virtio_net_state::parse_text(
            b,
            at,
        ) matches Ok((_, mid)) && (virtio_net_state::parse_text(b, mid) matches Ok((_, fixed)) && (
        if live {
            fixed + 22 <= b.len() && fixed + 22 + 34 * wire::at32(b, fixed + 18) <= b.len()
        } else {
            fixed + 10 <= b.len()
        }))),
{
    if virtio_net_state::parse_device(b, at, live) is Ok {
        let first = wire::at32(b, at) as int;
        let second = wire::at32(b, at + 4 + first) as int;
        wire::law_reading_is_little_endian(b, at + 8 + first + second + 8);
    }
}

/// A text is refused for a field that starts within the bytes and ends past them, or for bytes that
/// are no text.
proof fn lemma_text_fault(b: Seq<u8>, at: int)
    requires
        0 <= at <= b.len(),
    ensures
        match virtio_net_state::parse_text(b, at) {
            Ok((_, end)) => at <= end <= b.len(),
            Err(NetFault::Truncated { need, offset }) => offset <= b.len() < offset + need,
            Err(NetFault::NonUtf8(raw)) => !wire::is_text(raw),
        },
{
}

/// So is a device.
proof fn lemma_device_fault(b: Seq<u8>, at: int, live: bool)
    requires
        0 <= at <= b.len(),
    ensures
        match virtio_net_state::parse_device(b, at, live) {
            Ok((_, end)) => at <= end <= b.len(),
            Err(NetFault::Truncated { need, offset }) => offset <= b.len() < offset + need,
            Err(NetFault::NonUtf8(raw)) => !wire::is_text(raw),
        },
{
    lemma_text_fault(b, at);
    match virtio_net_state::parse_text(b, at) {
        Ok((_, mid)) => {
            lemma_text_fault(b, mid);
        },
        Err(_) => {},
    }
}

/// So are devices.
proof fn lemma_devices_fault(b: Seq<u8>, at: int, n: nat, live: bool)
    requires
        0 <= at <= b.len(),
    ensures
        match virtio_net_state::parse_devices(b, at, n, live) {
            Ok((devices, end)) => at <= end <= b.len() && devices.len() == n,
            Err(NetFault::Truncated { need, offset }) => offset <= b.len() < offset + need,
            Err(NetFault::NonUtf8(raw)) => !wire::is_text(raw),
        },
    decreases n,
{
    if n > 0 {
        lemma_devices_fault(b, at, (n - 1) as nat, live);
        match virtio_net_state::parse_devices(b, at, (n - 1) as nat, live) {
            Ok((_, next)) => {
                lemma_device_fault(b, next, live);
            },
            Err(_) => {},
        }
    }
}

/// An envelope is refused only for a field that starts within it and ends past it, which the
/// refusal names, or for bytes in the place of a name that are not UTF-8, which it holds. An empty
/// envelope has no devices, and any other as many as it says.
pub proof fn law_envelope_is_refused_only_for_cause(b: Seq<u8>, live: bool)
    ensures
        match virtio_net_state::parse_envelope_of(b, live) {
            Ok(devices) => if b.len() == 0 {
                devices.len() == 0
            } else {
                devices.len() == wire::at32(b, 0)
            },
            Err(NetFault::Truncated { need, offset }) => offset <= b.len() < offset + need,
            Err(NetFault::NonUtf8(raw)) => !wire::is_text(raw),
        },
        b.len() == 0 ==> virtio_net_state::parse_envelope_of(b, live) == Ok::<
            Seq<NetDevice>,
            NetFault,
        >(Seq::empty()),
{
    if b.len() >= 4 {
        lemma_devices_fault(b, 4, wire::at32(b, 0) as nat, live);
    }
}

/// The first 56 bytes: the magic, the version, the number of vCPUs, the kind, two zero bytes, the
/// memory size and the parent hash.
pub proof fn law_common_header(kind: SnapshotKind, vcpu_count: u8, mem_size: u64, parent: Seq<u8>)
    requires
        parent.len() == 32,
    ensures
        ({
            let b = layout::prelude_bytes(kind, vcpu_count, mem_size, parent);
            &&& b.len() == 56
            &&& b.subrange(0, 8) == first_bytes()
            &&& wire::at32(b, 8) == 9
            &&& b[12] == vcpu_count
            &&& kind is Golden ==> b[13] == 0
            &&& kind is Diff ==> b[13] == 1
            &&& wire::at16(b, 14) == 0
            &&& wire::at64(b, 16) == mem_size
            &&& b.subrange(24, 56) == parent
        }),
{
    let b = layout::prelude_bytes(kind, vcpu_count, mem_size, parent);
    wire::lemma_whole(b);
    laws::lemma_prelude_fields(b, kind, vcpu_count, mem_size, parent);
    assert(metadata::MAGIC@ =~= first_bytes());
}

/// The summary that a writer gives says what the header of the file says.
pub proof fn law_summary_is_that_of_the_file(
    meta: SnapshotMetadata,
    kind: SnapshotKind,
    parent: Seq<u8>,
    state: GuestState,
    regions: Seq<MemoryRegionDescriptor>,
    bodies: Seq<Seq<u8>>,
)
    requires
        parent.len() == 32,
        layout::layout_fits(kind, state, regions),
        super::summary(meta, kind, parent, state.vcpus.len(), regions),
    ensures
        ({
            let b = layout::snapshot_file(kind, parent, state, regions, bodies);
            &&& meta.magic@ == b.subrange(0, 8)
            &&& meta.format_version == wire::at32(b, 8)
            &&& meta.format_version == 9
            &&& meta.vcpu_count == b[12]
            &&& meta.kind is Golden <==> b[13] == 0
            &&& meta.kind == kind
            &&& meta.mem_size_bytes == wire::at64(b, 16)
            &&& meta.parent_sha256@ == b.subrange(24, 56)
        }),
{
    laws::law_header_fields(kind, parent, state, regions, bodies);
}

/// A location is a region with an offset: without the offset it is that region.
pub proof fn law_location_without_its_offset(loc: RegionLocation)
    ensures
        <MemoryRegionDescriptor as vstd::std_specs::convert::FromSpec<RegionLocation>>::from_spec(
            loc,
        ) == (MemoryRegionDescriptor { guest_phys_addr: loc.guest_phys_addr, size: loc.size }),
{
}

/// Rounding up to a page gives the least page boundary that is not below.
pub proof fn law_page_up_is_least(n: int, page: int)
    requires
        0 <= n <= page * 4096,
    ensures
        n <= layout::page_up(n) <= page * 4096,
        layout::page_up(n) % 4096 == 0,
{
}

/// The padding behind a body stands behind it.
proof fn lemma_padding_stands(
    b: Seq<u8>,
    kind: SnapshotKind,
    start: int,
    regions: Seq<MemoryRegionDescriptor>,
    bodies: Seq<Seq<u8>>,
    i: int,
)
    requires
        wire::stands_at(b, start, layout::bodies_bytes(kind, regions, bodies)),
        0 <= start,
        start % 4096 == 0,
        0 <= i < regions.len() <= bodies.len(),
        forall|j: int|
            0 <= j < regions.len() ==> #[trigger] bodies[j].len() == layout::body_len(
                kind,
                regions[j],
            ),
    ensures
        ({
            let end = layout::body_end(kind, start, regions.take(i)) + layout::body_len(
                kind,
                regions[i],
            );
            let next = layout::body_end(kind, start, regions.take(i + 1));
            wire::stands_at(b, end, wire::zeros((next - end) as nat))
        }),
    decreases regions.len(),
{
    let n = regions.len() - 1;
    let before = regions.drop_last();
    let had = layout::bodies_bytes(kind, before, bodies);
    let len = layout::body_len(kind, regions.last()) as int;
    let pad = wire::zeros((layout::page_up(len) - len) as nat);
    layout::lemma_page_up(len);
    assert(bodies[n].len() == layout::body_len(kind, regions[n]));
    wire::lemma_split(b, start, had + bodies[n], pad);
    wire::lemma_split(b, start, had, bodies[n]);
    assert forall|j: int| 0 <= j < before.len() implies #[trigger] bodies[j].len()
        == layout::body_len(kind, before[j]) by {
        assert(bodies[j].len() == layout::body_len(kind, regions[j]));
    }
    if i < n {
        lemma_padding_stands(b, kind, start, before, bodies, i);
        assert(before.take(i) =~= regions.take(i));
        assert(before.take(i + 1) =~= regions.take(i + 1));
    } else {
        laws::lemma_bodies_len(kind, start, before, bodies);
        assert(regions.take(n) =~= before);
        assert(regions.take(n + 1) =~= regions);
        layout::lemma_body_end(kind, start, before, before.len() as int);
        assert(before.take(before.len() as int) =~= before);
        layout::lemma_page_up_sum(layout::body_end(kind, start, before), len);
    }
}

/// Between a body and the next, and between the last and the trailer, there is nothing but zeros.
pub proof fn law_bodies_are_padded_with_zeros(
    kind: SnapshotKind,
    parent: Seq<u8>,
    state: GuestState,
    regions: Seq<MemoryRegionDescriptor>,
    bodies: Seq<Seq<u8>>,
    i: int,
    k: int,
)
    requires
        parent.len() == 32,
        layout::layout_fits(kind, state, regions),
        0 <= i < regions.len(),
        bodies.len() == regions.len(),
        forall|j: int|
            0 <= j < regions.len() ==> #[trigger] bodies[j].len() == layout::body_len(
                kind,
                regions[j],
            ),
        laws::located(kind, state, regions)[i].file_offset + bodies[i].len() <= k,
        i + 1 < regions.len() ==> k < laws::located(kind, state, regions)[i + 1].file_offset,
        i + 1 == regions.len() ==> k < layout::snapshot_file(
            kind,
            parent,
            state,
            regions,
            bodies,
        ).len() - 4,
    ensures
        layout::snapshot_file(kind, parent, state, regions, bodies)[k] == 0,
{
    let b = layout::snapshot_file(kind, parent, state, regions, bodies);
    let start = layout::body_start(state, regions.len());
    layout::lemma_page_up(layout::header_len(state, regions.len()) as int);
    laws::lemma_bodies_stand(kind, parent, state, regions, bodies);
    laws::lemma_file_end(kind, parent, state, regions, bodies);
    lemma_padding_stands(b, kind, start, regions, bodies, i);
    layout::lemma_body_end(kind, start, regions, i);
    layout::lemma_body_end(kind, start, regions, i + 1);
    if i + 1 == regions.len() {
        assert(regions.take(i + 1) =~= regions);
    }
    assert(bodies[i].len() == layout::body_len(kind, regions[i]));
    let end = layout::body_end(kind, start, regions.take(i)) + layout::body_len(kind, regions[i]);
    let next = layout::body_end(kind, start, regions.take(i + 1));
    let pad = wire::zeros((next - end) as nat);
    wire::lemma_bytes(b, end, pad);
    assert(b[end + (k - end)] == pad[k - end]);
}

/// How a name is read: four bytes of length and then as many bytes, which must be UTF-8. What does
/// not fit is refused by the field that does not: the length or the name itself.
pub proof fn law_names_are_read(b: Seq<u8>, at: int)
    requires
        0 <= at <= b.len(),
    ensures
        ({
            let n = wire::at32(b, at) as nat;
            let raw = b.subrange(at + 4, at + 4 + n);
            virtio_net_state::parse_text(b, at) == if at + 4 > b.len() {
                Err::<(Seq<char>, int), NetFault>(
                    NetFault::Truncated { need: 4, offset: at as nat },
                )
            } else if at + 4 + n > b.len() {
                Err::<(Seq<char>, int), NetFault>(
                    NetFault::Truncated { need: n, offset: (at + 4) as nat },
                )
            } else if vstd::utf8::valid_utf8(raw) {
                Ok::<(Seq<char>, int), NetFault>((vstd::utf8::decode_utf8(raw), at + 4 + n))
            } else {
                Err::<(Seq<char>, int), NetFault>(NetFault::NonUtf8(raw))
            }
        }),
{
    let n = wire::at32(b, at) as nat;
    wire::law_text_is_utf8(Seq::empty(), b.subrange(at + 4, at + 4 + n));
}

/// The width of the field of a queue record that starts at `place` in it.
pub open spec fn queue_field(place: int) -> int {
    if place == 0 || place == 2 || place == 6 || place == 8 {
        2
    } else if place == 4 || place == 5 {
        1
    } else if place == 10 || place == 18 || place == 26 {
        8
    } else {
        0
    }
}

/// The width of the field that starts at `place` among the fixed fields of a device record.
pub open spec fn device_field(place: int) -> int {
    if place == 0 || place == 7 {
        1
    } else if place == 1 {
        6
    } else if place == 8 {
        2
    } else if place == 10 {
        8
    } else if place == 18 {
        4
    } else {
        0
    }
}

/// Queues that do not all fit are refused by the one field that the bytes end in front of or in: it
/// starts where a field of a queue record starts, and is as wide as that field.
pub proof fn law_cut_queues_are_refused_by_the_field(b: Seq<u8>, at: int, n: nat)
    requires
        0 <= at <= b.len(),
    ensures
        virtio_net_state::parse_queues(b, at, n) is Ok <==> at + 34 * n <= b.len(),
        virtio_net_state::parse_queues(b, at, n) matches Err(fault) ==> (
        fault matches NetFault::Truncated { need, offset } && at <= offset <= b.len() < offset + need
            && need == queue_field((offset - at) % 34)),
{
    if at + 34 * n > b.len() {
        let len = b.len() as int;
        let whole = (len - at) / 34;
        let rest = at + 34 * whole;
        assert(rest <= len < rest + 34);
        assert forall|k: int| 0 <= k < 34 implies #[trigger] ((rest + k) - at) % 34 == k by {
            assert((rest + k) - at == 34 * whole + k);
            vstd::arithmetic::div_mod::lemma_mod_multiples_vanish(whole, k, 34);
        }
        assert(((rest + 0) - at) % 34 == 0);
        assert(((rest + 2) - at) % 34 == 2);
        assert(((rest + 4) - at) % 34 == 4);
        assert(((rest + 5) - at) % 34 == 5);
        assert(((rest + 6) - at) % 34 == 6);
        assert(((rest + 8) - at) % 34 == 8);
        assert(((rest + 10) - at) % 34 == 10);
        assert(((rest + 18) - at) % 34 == 18);
        assert(((rest + 26) - at) % 34 == 26);
    }
}

/// A device record that ends in its fixed fields is refused by the one field that it ends in front of
/// or in.
pub proof fn law_cut_device_is_refused_by_the_field(len: int, at: int, live: bool)
    requires
        0 <= at <= len,
    ensures
        virtio_net_state::device_gap(len, at, live) is None <==> at + (if live {
            22int
        } else {
            10int
        }) <= len,
        virtio_net_state::device_gap(len, at, live) matches Some(fault) ==> (
        fault matches NetFault::Truncated { need, offset } && at <= offset <= len < offset + need
            && need == device_field(offset - at)),
{
}

/// Devices are read one behind the other: what the first ones leave is what the others are read from,
/// and a record by itself is one device.
pub proof fn law_devices_are_read_in_turn(b: Seq<u8>, at: int, m: nat, n: nat, live: bool)
    ensures
        virtio_net_state::parse_devices(b, at, m + n, live) == match virtio_net_state::parse_devices(
            b,
            at,
            m,
            live,
        ) {
            Err(fault) => Err::<(Seq<NetDevice>, int), NetFault>(fault),
            Ok((first, mid)) => match virtio_net_state::parse_devices(b, mid, n, live) {
                Err(fault) => Err::<(Seq<NetDevice>, int), NetFault>(fault),
                Ok((rest, end)) => Ok::<(Seq<NetDevice>, int), NetFault>((first + rest, end)),
            },
        },
        virtio_net_state::parse_devices(b, at, 1, live) == match virtio_net_state::parse_device(
            b,
            at,
            live,
        ) {
            Err(fault) => Err::<(Seq<NetDevice>, int), NetFault>(fault),
            Ok((device, end)) => Ok::<(Seq<NetDevice>, int), NetFault>((seq![device], end)),
        },
    decreases n,
{
    reveal_with_fuel(virtio_net_state::parse_devices, 2);
    match virtio_net_state::parse_device(b, at, live) {
        Ok((device, _)) => {
            assert(Seq::<NetDevice>::empty().push(device) =~= seq![device]);
        },
        Err(_) => {},
    }
    if n == 0 {
        match virtio_net_state::parse_devices(b, at, m, live) {
            Ok((first, _)) => {
                assert(first + Seq::<NetDevice>::empty() =~= first);
            },
            Err(_) => {},
        }
    } else {
        law_devices_are_read_in_turn(b, at, m, (n - 1) as nat, live);
        match virtio_net_state::parse_devices(b, at, m, live) {
            Ok((first, mid)) => match virtio_net_state::parse_devices(
                b,
                mid,
                (n - 1) as nat,
                live,
            ) {
                Ok((rest, end)) => match virtio_net_state::parse_device(b, end, live) {
                    Ok((device, _)) => {
                        assert((first + rest).push(device) =~= first + rest.push(device));
                    },
                    Err(_) => {},
                },
                Err(_) => {},
            },
            Err(_) => {},
        }
    }
}

/// The header of a file of version 9 with any memory size, any two reserved bytes and any region.
pub open spec fn any_header(
    kind: SnapshotKind,
    reserved: Seq<u8>,
    mem: u64,
    parent: Seq<u8>,
    state: GuestState,
    region: RegionLocation,
) -> Seq<u8> {
    first_bytes() + wire::le32(9) + seq![
        state.vcpus.len() as u8,
        if kind is Golden {
            0u8
        } else {
            1u8
        },
    ] + reserved + wire::le64(mem) + parent + layout::vcpus_bytes(state.vcpus) + wire::le32(1) + (
    wire::le64(region.guest_phys_addr) + wire::le64(region.size) + wire::le64(region.file_offset))
        + layout::blobs_bytes(state.tail())
}

/// Where the parts of such a header stand.
#[verifier::rlimit(40)]
proof fn lemma_any_header(
    kind: SnapshotKind,
    reserved: Seq<u8>,
    mem: u64,
    parent: Seq<u8>,
    state: GuestState,
    region: RegionLocation,
    rest: Seq<u8>,
)
    requires
        reserved.len() == 2,
        parent.len() == 32,
    ensures
        ({
            let b = any_header(kind, reserved, mem, parent, state, region) + rest;
            let at = 56 + layout::vcpus_len(state.vcpus) as int;
            &&& b.len() >= 56
            &&& b.subrange(0, 8) == first_bytes()
            &&& wire::at32(b, 8) == 9
            &&& b[12] == state.vcpus.len() as u8
            &&& kind is Golden ==> b[13] == 0
            &&& kind is Diff ==> b[13] == 1
            &&& wire::at64(b, 16) == mem
            &&& b.subrange(24, 56) == parent
            &&& wire::stands_at(b, 56, layout::vcpus_bytes(state.vcpus))
            &&& wire::stands_at(b, at, wire::le32(1))
            &&& wire::stands_at(b, at + 4, layout::region_bytes(region))
            &&& wire::stands_at(b, at + 28, layout::blobs_bytes(state.tail()))
        }),
{
    let b = any_header(kind, reserved, mem, parent, state, region) + rest;
    let bytes = seq![
        state.vcpus.len() as u8,
        if kind is Golden {
            0u8
        } else {
            1u8
        },
    ];
    let p1 = first_bytes();
    let p2 = p1 + wire::le32(9);
    let p3 = p2 + bytes;
    let p4 = p3 + reserved;
    let p5 = p4 + wire::le64(mem);
    let p6 = p5 + parent;
    let p7 = p6 + layout::vcpus_bytes(state.vcpus);
    let p8 = p7 + wire::le32(1);
    let row = layout::region_bytes(region);
    let p9 = p8 + row;
    let tail = layout::blobs_bytes(state.tail());
    layout::lemma_vcpus_len(state.vcpus);
    wire::lemma_whole(b);
    wire::lemma_split(b, 0, p9 + tail, rest);
    wire::lemma_split(b, 0, p9, tail);
    wire::lemma_split(b, 0, p8, row);
    wire::lemma_split(b, 0, p7, wire::le32(1));
    wire::lemma_split(b, 0, p6, layout::vcpus_bytes(state.vcpus));
    wire::lemma_split(b, 0, p5, parent);
    wire::lemma_split(b, 0, p4, wire::le64(mem));
    wire::lemma_split(b, 0, p3, reserved);
    wire::lemma_split(b, 0, p2, bytes);
    wire::lemma_split(b, 0, p1, wire::le32(9));
    wire::lemma_bytes(b, 0, p1);
    wire::lemma_le32(b, 8, 9);
    wire::lemma_bytes(b, 12, bytes);
    assert(b[12int + 0] == bytes[0] && b[12int + 1] == bytes[1]);
    wire::lemma_le64(b, 16, mem);
    wire::lemma_bytes(b, 24, parent);
}

/// A file with these parts opens as what they say.
#[verifier::rlimit(40)]
proof fn lemma_parts_are_opened(
    b: Seq<u8>,
    kind: SnapshotKind,
    mem: u64,
    parent: Seq<u8>,
    state: GuestState,
    region: RegionLocation,
)
    requires
        parent.len() == 32,
        kind is Golden <==> forall|k: int| 0 <= k < 32 ==> #[trigger] parent[k] == 0,
        laws::state_fits(state),
        region.file_offset % 4096 == 0,
        b.len() >= 56,
        b.subrange(0, 8) == first_bytes(),
        wire::at32(b, 8) == 9,
        b[12] == state.vcpus.len() as u8,
        kind is Golden ==> b[13] == 0,
        kind is Diff ==> b[13] == 1,
        wire::at64(b, 16) == mem,
        b.subrange(24, 56) == parent,
        wire::stands_at(b, 56, layout::vcpus_bytes(state.vcpus)),
        wire::stands_at(b, 56int + layout::vcpus_len(state.vcpus), wire::le32(1)),
        wire::stands_at(b, 60int + layout::vcpus_len(state.vcpus), layout::region_bytes(region)),
        wire::stands_at(
            b,
            84int + layout::vcpus_len(state.vcpus),
            layout::blobs_bytes(state.tail()),
        ),
    ensures
        reader::parse_snapshot(b) == Ok::<Recorded, Refusal>(
            Recorded {
                format_version: 9,
                kind,
                vcpu_count: state.vcpus.len() as u8,
                mem_size_bytes: mem,
                parent,
                state,
                regions: seq![region],
            },
        ),
{
    assert(reader::prelude_refusal(b) is None) by {
        assert(metadata::MAGIC@ =~= first_bytes());
        if kind is Golden {
            assert(parent =~= wire::zeros(32));
        } else {
            let k = choose|k: int| 0 <= k < 32 && #[trigger] parent[k] != 0;
            assert(wire::zeros(32)[k] == 0);
        }
    }
    laws::lemma_parts_back(b, state, region);
}

/// Any file that is made up as the format says is opened, and opens as what it is made up of: the
/// memory size may be any number, the reserved bytes may be anything, the region may have any address
/// and size and any offset on a page, and anything may follow.
pub proof fn law_any_header_is_opened(
    kind: SnapshotKind,
    reserved: Seq<u8>,
    mem: u64,
    parent: Seq<u8>,
    state: GuestState,
    region: RegionLocation,
    rest: Seq<u8>,
)
    requires
        reserved.len() == 2,
        parent.len() == 32,
        kind is Golden <==> forall|k: int| 0 <= k < 32 ==> #[trigger] parent[k] == 0,
        laws::state_fits(state),
        region.file_offset % 4096 == 0,
    ensures
        reader::parse_snapshot(
            any_header(kind, reserved, mem, parent, state, region) + rest,
        ) == Ok::<Recorded, Refusal>(
            Recorded {
                format_version: 9,
                kind,
                vcpu_count: state.vcpus.len() as u8,
                mem_size_bytes: mem,
                parent,
                state,
                regions: seq![region],
            },
        ),
{
    let b = any_header(kind, reserved, mem, parent, state, region) + rest;
    lemma_any_header(kind, reserved, mem, parent, state, region, rest);
    lemma_parts_are_opened(b, kind, mem, parent, state, region);
}

} // verus!
