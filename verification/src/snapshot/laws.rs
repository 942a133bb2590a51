//! What holds of snapshots as a whole: reading undoes writing.
use vstd::prelude::*;

use super::layout;
use super::layout::GuestState;
use super::metadata;
use super::metadata::SnapshotKind;
use super::reader;
use super::reader::{Recorded, RegionLocation};
use super::vcpu_state::VcpuRecord;
use super::virtio_net_state;
use super::virtio_net_state::NetDevice;
use super::{MemoryRegionDescriptor, Refusal};
use crate::wire;

verus! {

broadcast use wire::field_widths;

/// Blobs whose lengths fit their 32-bit fields.
pub open spec fn blobs_fit(blobs: Seq<Seq<u8>>) -> bool {
    forall|i: int| 0 <= i < blobs.len() ==> (#[trigger] blobs[i]).len() <= u32::MAX
}

/// A guest state whose counts and lengths fit their fields, but for the length of the envelope.
pub open spec fn parts_fit(state: GuestState) -> bool {
    &&& state.well_formed()
    &&& state.vcpus.len() <= u8::MAX
    &&& forall|i: int| 0 <= i < state.vcpus.len() ==> blobs_fit((#[trigger] state.vcpus[i]).blobs)
    &&& blobs_fit(state.vm)
    &&& blobs_fit(state.legacy)
    &&& virtio_net_state::envelope_fits(state.devices)
}

/// A guest state whose counts and lengths all fit their fields.
pub open spec fn state_fits(state: GuestState) -> bool {
    &&& parts_fit(state)
    &&& virtio_net_state::envelope(state.devices).len() <= u32::MAX
}

/// A parent hash that goes with the kind: none for a golden, some for a diff.
pub open spec fn parent_matches(kind: SnapshotKind, parent: Seq<u8>) -> bool {
    &&& parent.len() == 32
    &&& (kind is Golden <==> parent == wire::zeros(32))
}

proof fn lemma_blob_back(b: Seq<u8>, at: int, blob: Seq<u8>)
    requires
        wire::stands_at(b, at, wire::blob(blob)),
        blob.len() <= u32::MAX,
    ensures
        reader::parse_blob(b, at) == Some((blob, at + wire::blob(blob).len())),
{
    let n = wire::len32(blob.len());
    wire::lemma_split(b, at, wire::le32(n), blob);
    wire::lemma_le32(b, at, n);
    wire::lemma_bytes(b, at + 4, blob);
}

proof fn lemma_blobs_back(b: Seq<u8>, at: int, blobs: Seq<Seq<u8>>)
    requires
        wire::stands_at(b, at, layout::blobs_bytes(blobs)),
        blobs_fit(blobs),
    ensures
        reader::parse_blobs(b, at, blobs.len()) == Some(
            (blobs, at + layout::blobs_bytes(blobs).len()),
        ),
    decreases blobs.len(),
{
    if blobs.len() > 0 {
        let before = blobs.drop_last();
        wire::lemma_split(b, at, layout::blobs_bytes(before), wire::blob(blobs.last()));
        lemma_blobs_back(b, at, before);
        lemma_blob_back(b, at + layout::blobs_bytes(before).len(), blobs.last());
        assert(before.push(blobs.last()) =~= blobs);
    } else {
        assert(blobs =~= Seq::empty());
    }
}

/// A length-prefixed blob reads back, wherever it stands and whatever follows it, and takes four
/// bytes more than it holds.
pub proof fn law_blob_reads_back(before: Seq<u8>, blob: Seq<u8>, rest: Seq<u8>)
    requires
        blob.len() <= u32::MAX,
    ensures
        reader::parse_blob(before + wire::blob(blob) + rest, before.len() as int) == Some(
            (blob, before.len() + 4int + blob.len()),
        ),
{
    let b = before + wire::blob(blob) + rest;
    wire::lemma_whole(b);
    wire::lemma_split(b, 0, before + wire::blob(blob), rest);
    wire::lemma_split(b, 0, before, wire::blob(blob));
    lemma_blob_back(b, before.len() as int, blob);
}

/// A length-prefixed blob that was cut short is refused, wherever it was cut.
pub proof fn law_cut_blob_is_refused(blob: Seq<u8>, k: int)
    requires
        blob.len() <= u32::MAX,
        0 <= k < wire::blob(blob).len(),
    ensures
        reader::parse_blob(wire::blob(blob).take(k), 0) is None,
{
    let c = wire::blob(blob);
    let b = c.take(k);
    let n = wire::len32(blob.len());
    wire::lemma_whole(c);
    wire::lemma_split(c, 0, wire::le32(n), blob);
    wire::lemma_le32(c, 0, n);
    assert(b.is_prefix_of(c));
    wire::lemma_prefix(b, c, 0);
}

/// A vCPU reads back from a file of a format version that holds all of it.
proof fn lemma_vcpu_back(b: Seq<u8>, at: int, vcpu: VcpuRecord, cut: VcpuRecord, version: u32)
    requires
        cut.vcpu_id == vcpu.vcpu_id,
        cut.blobs.len() == layout::vcpu_blobs(version),
        vcpu.blobs == layout::filled_up(cut.blobs, 9),
        wire::stands_at(b, at, layout::vcpu_bytes(cut)),
        blobs_fit(cut.blobs),
    ensures
        reader::parse_vcpu(b, at, version) == Some((vcpu, at + layout::vcpu_bytes(cut).len())),
{
    wire::lemma_split(b, at, seq![cut.vcpu_id], layout::blobs_bytes(cut.blobs));
    wire::lemma_bytes(b, at, seq![cut.vcpu_id]);
    assert(b[at + 0] == seq![cut.vcpu_id][0]);
    lemma_blobs_back(b, at + 1, cut.blobs);
}

/// The vCPUs read back from a file of a format version that holds all of them.
proof fn lemma_vcpus_back(b: Seq<u8>, at: int, vcpus: Seq<VcpuRecord>, version: u32)
    requires
        wire::stands_at(b, at, layout::vcpus_bytes(layout::cut_vcpus(vcpus, version))),
        forall|i: int|
            0 <= i < vcpus.len() ==> (#[trigger] vcpus[i]).blobs.len() == 9 && blobs_fit(
                vcpus[i].blobs,
            ) && vcpus[i].blobs == layout::filled_up(
                vcpus[i].blobs.take(layout::vcpu_blobs(version) as int),
                9,
            ),
    ensures
        reader::parse_vcpus(b, at, vcpus.len(), version) == Some(
            (vcpus, at + layout::vcpus_bytes(layout::cut_vcpus(vcpus, version)).len()),
        ),
    decreases vcpus.len(),
{
    let cut = layout::cut_vcpus(vcpus, version);
    if vcpus.len() > 0 {
        let before = vcpus.drop_last();
        let had = layout::cut_vcpus(before, version);
        assert(cut.drop_last() =~= had);
        wire::lemma_split(b, at, layout::vcpus_bytes(had), layout::vcpu_bytes(cut.last()));
        assert forall|i: int| 0 <= i < before.len() implies (#[trigger] before[i]).blobs.len() == 9
            && blobs_fit(before[i].blobs) && before[i].blobs == layout::filled_up(
            before[i].blobs.take(layout::vcpu_blobs(version) as int),
            9,
        ) by {
            assert(before[i] == vcpus[i]);
        }
        lemma_vcpus_back(b, at, before, version);
        let last = vcpus[vcpus.len() - 1];
        let kept = cut[vcpus.len() - 1];
        assert forall|i: int| 0 <= i < kept.blobs.len() implies (#[trigger] kept.blobs[i]).len()
            <= u32::MAX by {
            assert(kept.blobs[i] == last.blobs[i]);
        }
        lemma_vcpu_back(b, at + layout::vcpus_bytes(had).len(), last, kept, version);
        assert(before.push(vcpus.last()) =~= vcpus);
    } else {
        assert(vcpus =~= Seq::empty());
        assert(cut =~= Seq::empty());
    }
}

/// A file of the current format version holds everything.
pub proof fn law_current_version_holds_everything(state: GuestState)
    requires
        state.well_formed(),
    ensures
        state.held_by(metadata::SNAPSHOT_FORMAT_VERSION),
        layout::cut_vcpus(state.vcpus, metadata::SNAPSHOT_FORMAT_VERSION) == state.vcpus,
        state.tail_of(metadata::SNAPSHOT_FORMAT_VERSION) == state.tail(),
{
    let version = metadata::SNAPSHOT_FORMAT_VERSION;
    assert forall|i: int| 0 <= i < state.vcpus.len() implies (#[trigger] state.vcpus[i]).blobs
        == layout::filled_up(
        state.vcpus[i].blobs.take(layout::vcpu_blobs(version) as int),
        9,
    ) && state.vcpus[i].blobs.take(9) == state.vcpus[i].blobs by {
        assert(state.vcpus[i].blobs.take(9) =~= state.vcpus[i].blobs);
        assert(layout::filled_up(state.vcpus[i].blobs, 9) =~= state.vcpus[i].blobs);
    }
    assert(layout::cut_vcpus(state.vcpus, version) =~= state.vcpus);
    let blocks = state.vm + state.legacy;
    assert(blocks.take(7) =~= blocks);
    assert(layout::filled_up(blocks, 7) =~= blocks);
    assert(state.tail().take(8) =~= state.tail());
}

proof fn lemma_region_back(b: Seq<u8>, at: int, region: RegionLocation)
    requires
        wire::stands_at(b, at, layout::region_bytes(region)),
    ensures
        reader::region_at(b, at) == region,
        at + 24 <= b.len(),
{
    let first = wire::le64(region.guest_phys_addr);
    let second = first + wire::le64(region.size);
    wire::lemma_split(b, at, second, wire::le64(region.file_offset));
    wire::lemma_split(b, at, first, wire::le64(region.size));
    wire::lemma_le64(b, at, region.guest_phys_addr);
    wire::lemma_le64(b, at + 8, region.size);
    wire::lemma_le64(b, at + 16, region.file_offset);
}

proof fn lemma_regions_back(b: Seq<u8>, at: int, regions: Seq<RegionLocation>)
    requires
        wire::stands_at(b, at, layout::table_bytes(regions)),
        forall|i: int| 0 <= i < regions.len() ==> (#[trigger] regions[i]).file_offset % 4096 == 0,
    ensures
        reader::parse_regions(b, at, regions.len()) == Ok::<Seq<RegionLocation>, Refusal>(regions),
    decreases regions.len(),
{
    if regions.len() > 0 {
        let before = regions.drop_last();
        wire::lemma_split(b, at, layout::table_bytes(before), layout::region_bytes(regions.last()));
        lemma_regions_back(b, at, before);
        layout::lemma_table_len(before);
        lemma_region_back(b, at + 24 * before.len(), regions.last());
        assert(before.push(regions.last()) =~= regions);
    } else {
        assert(regions =~= Seq::empty());
    }
}

/// The regions as they are placed in a file.
pub open spec fn located(
    kind: SnapshotKind,
    state: GuestState,
    regions: Seq<MemoryRegionDescriptor>,
) -> Seq<RegionLocation> {
    layout::placed(kind, layout::body_start(state, regions.len()), regions)
}

/// Every body starts on a page, behind the header, and no body reaches into the next.
pub proof fn law_bodies_are_aligned_and_apart(
    kind: SnapshotKind,
    state: GuestState,
    regions: Seq<MemoryRegionDescriptor>,
    i: int,
)
    requires
        layout::layout_fits(kind, state, regions),
        0 <= i < regions.len(),
    ensures
        located(kind, state, regions)[i].file_offset % 4096 == 0,
        located(kind, state, regions)[i].file_offset >= layout::header_len(state, regions.len()),
        located(kind, state, regions)[i].file_offset + layout::body_len(kind, regions[i])
            <= u64::MAX,
        i + 1 < regions.len() ==> located(kind, state, regions)[i].file_offset + layout::body_len(
            kind,
            regions[i],
        ) <= located(kind, state, regions)[i + 1].file_offset,
{
    let start = layout::body_start(state, regions.len());
    layout::lemma_page_up(layout::header_len(state, regions.len()) as int);
    layout::lemma_body_end(kind, start, regions, i);
    layout::lemma_body_end(kind, start, regions, i + 1);
    layout::lemma_page_up(
        layout::body_end(kind, start, regions.take(i)) + layout::body_len(kind, regions[i]),
    );
}

/// The parts of a written file.
proof fn lemma_file_parts(
    kind: SnapshotKind,
    parent: Seq<u8>,
    state: GuestState,
    regions: Seq<MemoryRegionDescriptor>,
    bodies: Seq<Seq<u8>>,
)
    requires
        parent.len() == 32,
    ensures
        ({
            let b = layout::snapshot_file(kind, parent, state, regions, bodies);
            let table = located(kind, state, regions);
            let count = wire::len32(regions.len());
            let mem = layout::mem_size(regions) as u64;
            let at = 56 + layout::vcpus_len(state.vcpus) as int;
            let start = layout::body_start(state, regions.len());
            &&& wire::stands_at(
                b,
                0,
                layout::prelude_bytes(kind, (state.vcpus.len() % 256) as u8, mem, parent),
            )
            &&& wire::stands_at(b, 56, layout::vcpus_bytes(state.vcpus))
            &&& wire::stands_at(b, at, wire::le32(count))
            &&& wire::stands_at(b, at + 4, layout::table_bytes(table))
            &&& wire::stands_at(
                b,
                at + 4 + 24 * regions.len(),
                layout::blobs_bytes(state.tail()),
            )
            &&& wire::stands_at(b, start, layout::bodies_bytes(kind, regions, bodies))
            &&& wire::stands_at(
                b,
                start + layout::bodies_bytes(kind, regions, bodies).len(),
                metadata::MAGIC_TRAILER@,
            )
            &&& b.len() == start + layout::bodies_bytes(kind, regions, bodies).len() + 4
        }),
{
    let b = layout::snapshot_file(kind, parent, state, regions, bodies);
    let table = located(kind, state, regions);
    let mem = layout::mem_size(regions) as u64;
    let len = layout::header_len(state, regions.len()) as int;
    let start = layout::body_start(state, regions.len());
    let header = layout::header_bytes(kind, mem, parent, state, table);
    let pad = wire::zeros((start - len) as nat);
    let body = layout::bodies_bytes(kind, regions, bodies);
    layout::lemma_page_up(len);
    layout::lemma_header_len(kind, mem, parent, state, table);
    wire::lemma_whole(b);
    wire::lemma_split(b, 0, header + pad + body, metadata::MAGIC_TRAILER@);
    wire::lemma_split(b, 0, header + pad, body);
    wire::lemma_split(b, 0, header, pad);
    let prelude = layout::prelude_bytes(kind, (state.vcpus.len() % 256) as u8, mem, parent);
    let vcpus = layout::vcpus_bytes(state.vcpus);
    let count = wire::le32(wire::len32(regions.len()));
    let rows = layout::table_bytes(table);
    let tail = layout::blobs_bytes(state.tail());
    layout::lemma_vcpus_len(state.vcpus);
    layout::lemma_table_len(table);
    wire::lemma_split(b, 0, prelude + vcpus + count + rows, tail);
    wire::lemma_split(b, 0, prelude + vcpus + count, rows);
    wire::lemma_split(b, 0, prelude + vcpus, count);
    wire::lemma_split(b, 0, prelude, vcpus);
}

/// Where the parts of a written file stand.
pub proof fn lemma_stands(
    kind: SnapshotKind,
    parent: Seq<u8>,
    state: GuestState,
    regions: Seq<MemoryRegionDescriptor>,
    bodies: Seq<Seq<u8>>,
)
    requires
        parent.len() == 32,
    ensures
        ({
            let b = layout::snapshot_file(kind, parent, state, regions, bodies);
            let at = 56 + layout::vcpus_len(state.vcpus) as int;
            let tail = layout::blobs_bytes(state.tail());
            let len = layout::header_len(state, regions.len()) as int;
            let start = layout::body_start(state, regions.len());
            &&& wire::stands_at(b, 56, layout::vcpus_bytes(state.vcpus))
            &&& wire::stands_at(b, at, wire::le32(wire::len32(regions.len())))
            &&& wire::stands_at(b, at + 4, layout::table_bytes(located(kind, state, regions)))
            &&& wire::stands_at(b, at + 4 + 24 * regions.len(), tail)
            &&& wire::stands_at(b, len, wire::zeros((start - len) as nat))
            &&& wire::stands_at(b, b.len() - 4, metadata::MAGIC_TRAILER@)
        }),
{
    let b = layout::snapshot_file(kind, parent, state, regions, bodies);
    let table = located(kind, state, regions);
    let mem = layout::mem_size(regions) as u64;
    let len = layout::header_len(state, regions.len()) as int;
    let start = layout::body_start(state, regions.len());
    let header = layout::header_bytes(kind, mem, parent, state, table);
    let pad = wire::zeros((start - len) as nat);
    let body = layout::bodies_bytes(kind, regions, bodies);
    lemma_file_parts(kind, parent, state, regions, bodies);
    layout::lemma_header_len(kind, mem, parent, state, table);
    wire::lemma_whole(b);
    wire::lemma_split(b, 0, header + pad + body, metadata::MAGIC_TRAILER@);
    wire::lemma_split(b, 0, header + pad, body);
    wire::lemma_split(b, 0, header, pad);
}

/// A row of a region table reads back.
pub proof fn lemma_row_back(b: Seq<u8>, at: int, table: Seq<RegionLocation>, i: int)
    requires
        wire::stands_at(b, at, layout::table_bytes(table)),
        0 <= i < table.len(),
    ensures
        reader::region_at(b, at + 24 * i) == table[i],
    decreases table.len(),
{
    let before = table.drop_last();
    wire::lemma_split(b, at, layout::table_bytes(before), layout::region_bytes(table.last()));
    layout::lemma_table_len(before);
    if i < before.len() {
        lemma_row_back(b, at, before, i);
    } else {
        lemma_region_back(b, at + 24 * before.len(), table.last());
    }
}

/// The shape of what an opened file records.
pub proof fn lemma_opened_shape(b: Seq<u8>)
    ensures
        reader::parse_snapshot(b) matches Ok(r) ==> {
            &&& r.state.vcpus.len() == b[12]
            &&& r.regions.len() == 1
            &&& r.regions[0].file_offset % 4096 == 0
        },
{
    if reader::parse_snapshot(b) is Ok {
        let version = wire::at32(b, 8);
        let start = layout::prelude_len(version) as int;
        lemma_vcpus_shape(b, start, b[12] as nat, version);
        reveal_with_fuel(reader::parse_regions, 2);
    }
}

/// The fields of the first 56 bytes.
pub proof fn lemma_prelude_fields(
    b: Seq<u8>,
    kind: SnapshotKind,
    vcpu_count: u8,
    mem: u64,
    parent: Seq<u8>,
)
    requires
        wire::stands_at(b, 0, layout::prelude_bytes(kind, vcpu_count, mem, parent)),
        parent.len() == 32,
    ensures
        b.len() >= 56,
        b.subrange(0, 8) == metadata::MAGIC@,
        wire::at32(b, 8) == metadata::SNAPSHOT_FORMAT_VERSION,
        b[12] == vcpu_count,
        b[13] == metadata::kind_byte(kind),
        wire::at16(b, 14) == 0,
        wire::at64(b, 16) == mem,
        b.subrange(24, 56) == parent,
{
    let magic = metadata::MAGIC@;
    let version = wire::le32(metadata::SNAPSHOT_FORMAT_VERSION);
    let bytes = seq![vcpu_count, metadata::kind_byte(kind)];
    let p2 = magic + version;
    let p3 = p2 + bytes;
    let p4 = p3 + wire::le16(0);
    let p5 = p4 + wire::le64(mem);
    wire::lemma_split(b, 0, p5, parent);
    wire::lemma_split(b, 0, p4, wire::le64(mem));
    wire::lemma_split(b, 0, p3, wire::le16(0));
    wire::lemma_split(b, 0, p2, bytes);
    wire::lemma_split(b, 0, magic, version);
    wire::lemma_bytes(b, 0, magic);
    wire::lemma_le32(b, 8, metadata::SNAPSHOT_FORMAT_VERSION);
    wire::lemma_bytes(b, 12, bytes);
    assert(b[12int + 0] == bytes[0] && b[12int + 1] == bytes[1]);
    wire::lemma_le16(b, 14, 0);
    wire::lemma_le64(b, 16, mem);
    wire::lemma_bytes(b, 24, parent);
}

/// The first 56 bytes read back.
proof fn lemma_prelude_back(
    b: Seq<u8>,
    kind: SnapshotKind,
    vcpu_count: u8,
    mem: u64,
    parent: Seq<u8>,
)
    requires
        wire::stands_at(b, 0, layout::prelude_bytes(kind, vcpu_count, mem, parent)),
        parent_matches(kind, parent),
    ensures
        reader::prelude_refusal(b) is None,
        wire::at32(b, 8) == metadata::SNAPSHOT_FORMAT_VERSION,
        b[12] == vcpu_count,
        b[13] == metadata::kind_byte(kind),
        wire::at64(b, 16) == mem,
        b.subrange(24, 56) == parent,
{
    lemma_prelude_fields(b, kind, vcpu_count, mem, parent);
}

/// A table of one row reads back.
proof fn lemma_table_back(b: Seq<u8>, at: int, table: Seq<RegionLocation>)
    requires
        table.len() == 1,
        table[0].file_offset % 4096 == 0,
        wire::stands_at(b, at, wire::le32(1)),
        wire::stands_at(b, at + 4, layout::table_bytes(table)),
    ensures
        reader::parse_table(b, at) == Ok::<Seq<RegionLocation>, Refusal>(table),
{
    wire::lemma_le32(b, at, 1);
    lemma_regions_back(b, at + 4, table);
}

/// A table of any other number of rows is refused.
proof fn lemma_table_refused(b: Seq<u8>, at: int, table: Seq<RegionLocation>)
    requires
        table.len() != 1,
        table.len() <= u32::MAX,
        forall|i: int| 0 <= i < table.len() ==> (#[trigger] table[i]).file_offset % 4096 == 0,
        wire::stands_at(b, at, wire::le32(wire::len32(table.len()))),
        wire::stands_at(b, at + 4, layout::table_bytes(table)),
    ensures
        reader::parse_table(b, at) == Err::<Seq<RegionLocation>, Refusal>(
            Refusal::RegionCount(table.len() as u32),
        ),
{
    wire::lemma_le32(b, at, wire::len32(table.len()));
    lemma_regions_back(b, at + 4, table);
}

/// The blobs behind the table read back from a file of a format version that holds all there is.
proof fn lemma_tail_back(b: Seq<u8>, at: int, state: GuestState, version: u32)
    requires
        parts_fit(state),
        state.held_by(version),
        virtio_net_state::envelope_of(state.devices, layout::live_devices(version)).len()
            <= u32::MAX,
        wire::stands_at(b, at, layout::blobs_bytes(state.tail_of(version))),
    ensures
        reader::parse_tail(b, at, state.vcpus, version) == Ok::<GuestState, Refusal>(state),
{
    let tail = state.tail_of(version);
    let live = layout::live_devices(version);
    let envelope = virtio_net_state::envelope_of(state.devices, live);
    let blocks = state.vm + state.legacy;
    assert forall|i: int| 0 <= i < tail.len() implies (#[trigger] tail[i]).len() <= u32::MAX by {
        if i < 5 {
            assert(tail[i] == state.vm[i]);
        } else if i < 7 {
            assert(tail[i] == state.legacy[i - 5]);
        } else {
            assert(tail[i] == envelope);
        }
    }
    lemma_blobs_back(b, at, tail);
    let read = layout::filled_up(tail, 7);
    let n = if tail.len() < 7 {
        tail.len() as int
    } else {
        7
    };
    assert(read =~= layout::filled_up(blocks.take(n), 7));
    assert(read.subrange(0, 5) =~= state.vm);
    assert(read.subrange(5, 7) =~= state.legacy);
    if version >= 7 {
        assert(tail[7] == envelope);
        virtio_net_state::law_records_read_back(state.devices, live, Seq::empty());
        assert(envelope + Seq::<u8>::empty() =~= envelope);
    }
}

/// Where the fields of the header stand.
pub proof fn law_header_fields(
    kind: SnapshotKind,
    parent: Seq<u8>,
    state: GuestState,
    regions: Seq<MemoryRegionDescriptor>,
    bodies: Seq<Seq<u8>>,
)
    requires
        parent.len() == 32,
        layout::layout_fits(kind, state, regions),
    ensures
        ({
            let b = layout::snapshot_file(kind, parent, state, regions, bodies);
            &&& b.subrange(0, 8) == metadata::MAGIC@
            &&& wire::at32(b, 8) == metadata::SNAPSHOT_FORMAT_VERSION
            &&& b[12] == state.vcpus.len() % 256
            &&& b[13] == metadata::kind_byte(kind)
            &&& wire::at16(b, 14) == 0
            &&& wire::at64(b, 16) == layout::mem_size(regions)
            &&& b.subrange(24, 56) == parent
        }),
{
    let b = layout::snapshot_file(kind, parent, state, regions, bodies);
    lemma_file_parts(kind, parent, state, regions, bodies);
    lemma_prelude_fields(
        b,
        kind,
        (state.vcpus.len() % 256) as u8,
        layout::mem_size(regions) as u64,
        parent,
    );
}

/// What stands in front of the region table of a written file reads back.
proof fn lemma_front_back(
    kind: SnapshotKind,
    parent: Seq<u8>,
    state: GuestState,
    regions: Seq<MemoryRegionDescriptor>,
    bodies: Seq<Seq<u8>>,
)
    requires
        state_fits(state),
        parent_matches(kind, parent),
    ensures
        ({
            let b = layout::snapshot_file(kind, parent, state, regions, bodies);
            let version = metadata::SNAPSHOT_FORMAT_VERSION;
            let at = 56 + layout::vcpus_len(state.vcpus) as int;
            &&& reader::prelude_refusal(b) is None
            &&& wire::at32(b, 8) == version
            &&& b[12] == state.vcpus.len()
            &&& metadata::kind_of(b[13]) == Some(kind)
            &&& wire::at64(b, 16) == layout::mem_size(regions) as u64
            &&& b.subrange(24, 56) == parent
            &&& reader::parse_vcpus(b, 56, state.vcpus.len(), version) == Some((state.vcpus, at))
        }),
{
    let b = layout::snapshot_file(kind, parent, state, regions, bodies);
    let mem = layout::mem_size(regions) as u64;
    lemma_file_parts(kind, parent, state, regions, bodies);
    lemma_prelude_back(b, kind, (state.vcpus.len() % 256) as u8, mem, parent);
    law_current_version_holds_everything(state);
    lemma_vcpus_back(b, 56, state.vcpus, metadata::SNAPSHOT_FORMAT_VERSION);
    layout::lemma_vcpus_len(state.vcpus);
}

/// What stands behind the region table of a written file reads back.
proof fn lemma_rest_back(
    kind: SnapshotKind,
    parent: Seq<u8>,
    state: GuestState,
    regions: Seq<MemoryRegionDescriptor>,
    bodies: Seq<Seq<u8>>,
)
    requires
        state_fits(state),
        parent.len() == 32,
    ensures
        ({
            let b = layout::snapshot_file(kind, parent, state, regions, bodies);
            let version = metadata::SNAPSHOT_FORMAT_VERSION;
            let at = 56 + layout::vcpus_len(state.vcpus) as int;
            reader::parse_tail(b, at + 4 + 24 * regions.len(), state.vcpus, version) == Ok::<
                GuestState,
                Refusal,
            >(state)
        }),
{
    let b = layout::snapshot_file(kind, parent, state, regions, bodies);
    let at = 56 + layout::vcpus_len(state.vcpus) as int;
    lemma_file_parts(kind, parent, state, regions, bodies);
    law_current_version_holds_everything(state);
    lemma_tail_back(
        b,
        at + 4 + 24 * regions.len(),
        state,
        metadata::SNAPSHOT_FORMAT_VERSION,
    );
}

/// Reading a snapshot gives back everything that was written: the kind, the parent hash, the
/// memory size, the vCPU, VM, legacy and virtio-net state, and where the one region lies. The
/// region payload plays no part in it.
pub proof fn law_open_undoes_write(
    kind: SnapshotKind,
    parent: Seq<u8>,
    state: GuestState,
    regions: Seq<MemoryRegionDescriptor>,
    bodies: Seq<Seq<u8>>,
)
    requires
        state_fits(state),
        parent_matches(kind, parent),
        regions.len() == 1,
        layout::layout_fits(kind, state, regions),
    ensures
        reader::parse_snapshot(layout::snapshot_file(kind, parent, state, regions, bodies)) == Ok::<
            Recorded,
            Refusal,
        >(
            Recorded {
                format_version: metadata::SNAPSHOT_FORMAT_VERSION,
                kind,
                vcpu_count: state.vcpus.len() as u8,
                mem_size_bytes: layout::mem_size(regions) as u64,
                parent,
                state,
                regions: located(kind, state, regions),
            },
        ),
{
    let b = layout::snapshot_file(kind, parent, state, regions, bodies);
    let table = located(kind, state, regions);
    let at = 56 + layout::vcpus_len(state.vcpus) as int;
    lemma_front_back(kind, parent, state, regions, bodies);
    lemma_rest_back(kind, parent, state, regions, bodies);
    assert(reader::parse_table(b, at) == Ok::<Seq<RegionLocation>, Refusal>(table)) by {
        lemma_file_parts(kind, parent, state, regions, bodies);
        law_bodies_are_aligned_and_apart(kind, state, regions, 0);
        lemma_table_back(b, at, table);
    }
}

/// The parts of the header of a file of an earlier format version.
proof fn lemma_earlier_parts(
    version: u32,
    reserved: Seq<u8>,
    mem: u64,
    state: GuestState,
    regions: Seq<RegionLocation>,
    rest: Seq<u8>,
)
    requires
        reserved.len() == 3,
    ensures
        ({
            let b = layout::earlier_header(version, reserved, mem, state, regions) + rest;
            let vcpus = layout::vcpus_bytes(layout::cut_vcpus(state.vcpus, version));
            let at = 24 + vcpus.len() as int;
            &&& b.len() >= 24
            &&& b.subrange(0, 8) == metadata::MAGIC@
            &&& wire::at32(b, 8) == version
            &&& b[12] == (state.vcpus.len() % 256) as u8
            &&& wire::at64(b, 16) == mem
            &&& wire::stands_at(b, 24, vcpus)
            &&& wire::stands_at(b, at, wire::le32(wire::len32(regions.len())))
            &&& wire::stands_at(b, at + 4, layout::table_bytes(regions))
            &&& wire::stands_at(
                b,
                at + 4 + 24 * regions.len(),
                layout::blobs_bytes(state.tail_of(version)),
            )
        }),
{
    let b = layout::earlier_header(version, reserved, mem, state, regions) + rest;
    let count = (state.vcpus.len() % 256) as u8;
    let prelude = layout::earlier_prelude(version, count, reserved, mem);
    let vcpus = layout::vcpus_bytes(layout::cut_vcpus(state.vcpus, version));
    let rows_count = wire::le32(wire::len32(regions.len()));
    let rows = layout::table_bytes(regions);
    let tail = layout::blobs_bytes(state.tail_of(version));
    layout::lemma_table_len(regions);
    wire::lemma_whole(b);
    wire::lemma_split(b, 0, prelude + vcpus + rows_count + rows + tail, rest);
    wire::lemma_split(b, 0, prelude + vcpus + rows_count + rows, tail);
    wire::lemma_split(b, 0, prelude + vcpus + rows_count, rows);
    wire::lemma_split(b, 0, prelude + vcpus, rows_count);
    wire::lemma_split(b, 0, prelude, vcpus);
    let magic = metadata::MAGIC@;
    let p2 = magic + wire::le32(version);
    let p3 = p2 + seq![count];
    let p4 = p3 + reserved;
    wire::lemma_split(b, 0, p4, wire::le64(mem));
    wire::lemma_split(b, 0, p3, reserved);
    wire::lemma_split(b, 0, p2, seq![count]);
    wire::lemma_split(b, 0, magic, wire::le32(version));
    wire::lemma_bytes(b, 0, magic);
    wire::lemma_le32(b, 8, version);
    wire::lemma_bytes(b, 12, seq![count]);
    assert(b[12int + 0] == seq![count][0]);
    wire::lemma_le64(b, 16, mem);
}

/// Files of earlier format versions, from 3 on, can be read: such a file, of one region, opens as
/// a golden of its format version, and gives back all the guest state that a file of its format
/// version can hold.
pub proof fn law_earlier_versions_are_readable(
    version: u32,
    reserved: Seq<u8>,
    mem: u64,
    state: GuestState,
    regions: Seq<RegionLocation>,
    rest: Seq<u8>,
)
    requires
        metadata::FIRST_FORMAT_VERSION <= version < metadata::SNAPSHOT_FORMAT_VERSION,
        reserved.len() == 3,
        parts_fit(state),
        state.held_by(version),
        virtio_net_state::envelope_of(state.devices, layout::live_devices(version)).len()
            <= u32::MAX,
        regions.len() == 1,
        regions[0].file_offset % 4096 == 0,
    ensures
        reader::parse_snapshot(
            layout::earlier_header(version, reserved, mem, state, regions) + rest,
        ) == Ok::<Recorded, Refusal>(
            Recorded {
                format_version: version,
                kind: SnapshotKind::Golden,
                vcpu_count: state.vcpus.len() as u8,
                mem_size_bytes: mem,
                parent: wire::zeros(32),
                state,
                regions,
            },
        ),
{
    let b = layout::earlier_header(version, reserved, mem, state, regions) + rest;
    let vcpus = layout::vcpus_bytes(layout::cut_vcpus(state.vcpus, version));
    let at = 24 + vcpus.len() as int;
    lemma_earlier_parts(version, reserved, mem, state, regions, rest);
    lemma_vcpus_back(b, 24, state.vcpus, version);
    lemma_table_back(b, at, regions);
    lemma_tail_back(b, at + 28, state, version);
}

/// What a format version lacks reads as empty: no virtio-net devices before 7, no legacy-device
/// state before 6, no XCRs before 5 and no VM-level state before 4.
pub proof fn law_missing_state_is_empty(b: Seq<u8>)
    requires
        reader::parse_snapshot(b) is Ok,
    ensures
        ({
            let r = reader::parse_snapshot(b)->Ok_0;
            let none = Seq::<u8>::empty();
            &&& r.state.well_formed()
            &&& r.format_version < 7 ==> r.state.devices == Seq::<NetDevice>::empty()
            &&& r.format_version < 6 ==> r.state.legacy == seq![none, none]
            &&& r.format_version < 5 ==> forall|i: int|
                0 <= i < r.state.vcpus.len() ==> (#[trigger] r.state.vcpus[i]).blobs[8] == none
            &&& r.format_version < 4 ==> r.state.vm == seq![none, none, none, none, none]
        }),
{
    let version = wire::at32(b, 8);
    let start = layout::prelude_len(version) as int;
    let n = b[12] as nat;
    lemma_vcpus_shape(b, start, n, version);
    let at = end_of(reader::parse_vcpus(b, start, n, version));
    reader::lemma_blobs_count(b, at + 28, layout::tail_blobs(version));
    let r = reader::parse_snapshot(b)->Ok_0;
    let none = Seq::<u8>::empty();
    if version < 6 {
        assert(r.state.legacy =~= seq![none, none]);
    }
    if version < 4 {
        assert(r.state.vm =~= seq![none, none, none, none, none]);
    }
}

/// Every vCPU that is read has nine blobs, and those that its format version lacks are empty.
proof fn lemma_vcpus_shape(b: Seq<u8>, at: int, n: nat, version: u32)
    ensures
        reader::parse_vcpus(b, at, n, version) matches Some((vcpus, _)) ==> {
            &&& vcpus.len() == n
            &&& forall|i: int| 0 <= i < n ==> (#[trigger] vcpus[i]).blobs.len() == 9
            &&& version < 5 ==> forall|i: int|
                0 <= i < n ==> (#[trigger] vcpus[i]).blobs[8] == Seq::<u8>::empty()
        },
    decreases n,
{
    if n > 0 {
        lemma_vcpus_shape(b, at, (n - 1) as nat, version);
        let next = end_of(reader::parse_vcpus(b, at, (n - 1) as nat, version));
        reader::lemma_blobs_count(b, next + 1, layout::vcpu_blobs(version));
    }
}

/// XCR0 survives a restore: the XCRs that were captured for a vCPU are those that reading the
/// snapshot gives back for it.
pub proof fn law_xcrs_survive(
    kind: SnapshotKind,
    parent: Seq<u8>,
    state: GuestState,
    regions: Seq<MemoryRegionDescriptor>,
    bodies: Seq<Seq<u8>>,
    i: int,
)
    requires
        state_fits(state),
        parent_matches(kind, parent),
        regions.len() == 1,
        layout::layout_fits(kind, state, regions),
        0 <= i < state.vcpus.len(),
    ensures
        reader::parse_snapshot(layout::snapshot_file(kind, parent, state, regions, bodies)) matches Ok(
            r,
        ) && i < r.state.vcpus.len() && r.state.vcpus[i].blobs[8] == state.vcpus[i].blobs[8],
{
    law_open_undoes_write(kind, parent, state, regions, bodies);
}

/// A snapshot of any other number of regions can be written, but not opened.
pub proof fn law_open_takes_one_region(
    kind: SnapshotKind,
    parent: Seq<u8>,
    state: GuestState,
    regions: Seq<MemoryRegionDescriptor>,
    bodies: Seq<Seq<u8>>,
)
    requires
        state_fits(state),
        parent_matches(kind, parent),
        regions.len() != 1,
        regions.len() <= u32::MAX,
        layout::layout_fits(kind, state, regions),
    ensures
        reader::parse_snapshot(layout::snapshot_file(kind, parent, state, regions, bodies))
            == Err::<Recorded, Refusal>(Refusal::RegionCount(regions.len() as u32)),
{
    let b = layout::snapshot_file(kind, parent, state, regions, bodies);
    let table = located(kind, state, regions);
    let at = 56 + layout::vcpus_len(state.vcpus) as int;
    lemma_front_back(kind, parent, state, regions, bodies);
    lemma_file_parts(kind, parent, state, regions, bodies);
    assert forall|i: int| 0 <= i < table.len() implies (#[trigger] table[i]).file_offset % 4096
        == 0 by {
        law_bodies_are_aligned_and_apart(kind, state, regions, i);
    }
    lemma_table_refused(b, at, table);
}

/// Every written file ends with the trailer.
pub proof fn law_trailer_is_written(
    kind: SnapshotKind,
    parent: Seq<u8>,
    state: GuestState,
    regions: Seq<MemoryRegionDescriptor>,
    bodies: Seq<Seq<u8>>,
)
    requires
        parent.len() == 32,
    ensures
        reader::trailer_refusal(layout::snapshot_file(kind, parent, state, regions, bodies))
            is None,
{
    let b = layout::snapshot_file(kind, parent, state, regions, bodies);
    lemma_file_parts(kind, parent, state, regions, bodies);
    wire::lemma_bytes(b, b.len() - 4, metadata::MAGIC_TRAILER@);
}

/// Whether `end` are the last bytes of `file`, at least the last four.
pub open spec fn is_file_end(file: Seq<u8>, end: Seq<u8>) -> bool {
    &&& end.len() <= file.len()
    &&& end == file.subrange(file.len() - end.len(), file.len() as int)
    &&& end.len() == file.len() || end.len() >= 4
}

/// The trailer check needs no more than the last four bytes of the file.
pub proof fn law_trailer_is_at_the_end(file: Seq<u8>, end: Seq<u8>)
    requires
        is_file_end(file, end),
    ensures
        reader::trailer_refusal(end) == reader::trailer_refusal(file),
{
    if end.len() >= 4 {
        assert(end.subrange(end.len() - 4, end.len() as int) =~= file.subrange(
            file.len() - 4,
            file.len() as int,
        ));
    }
}

proof fn lemma_body_stands(
    b: Seq<u8>,
    kind: SnapshotKind,
    start: int,
    regions: Seq<MemoryRegionDescriptor>,
    bodies: Seq<Seq<u8>>,
    i: int,
)
    requires
        wire::stands_at(b, start, layout::bodies_bytes(kind, regions, bodies)),
        0 <= start,
        start % 4096 == 0,
        0 <= i < regions.len() <= bodies.len(),
        forall|j: int|
            0 <= j < regions.len() ==> #[trigger] bodies[j].len() == layout::body_len(
                kind,
                regions[j],
            ),
    ensures
        wire::stands_at(b, layout::body_end(kind, start, regions.take(i)), bodies[i]),
        start + layout::bodies_bytes(kind, regions, bodies).len() == layout::body_end(
            kind,
            start,
            regions,
        ),
    decreases regions.len(),
{
    let n = regions.len() - 1;
    let before = regions.drop_last();
    let had = layout::bodies_bytes(kind, before, bodies);
    let len = layout::body_len(kind, regions.last()) as int;
    let pad = wire::zeros((layout::page_up(len) - len) as nat);
    layout::lemma_page_up(len);
    wire::lemma_split(b, start, had + bodies[n], pad);
    wire::lemma_split(b, start, had, bodies[n]);
    assert(regions.take(n) =~= before);
    assert(bodies[n].len() == layout::body_len(kind, regions[n]));
    if n > 0 {
        let k = if i < n {
            i
        } else {
            0
        };
        lemma_body_stands(b, kind, start, before, bodies, k);
        assert(before.take(k) =~= regions.take(k));
    }
    layout::lemma_body_end(kind, start, before, n);
    assert(before.take(n) =~= before);
    layout::lemma_page_up_sum(layout::body_end(kind, start, before), len);
}

/// A written file ends with the trailer behind the last body.
pub proof fn lemma_file_end(
    kind: SnapshotKind,
    parent: Seq<u8>,
    state: GuestState,
    regions: Seq<MemoryRegionDescriptor>,
    bodies: Seq<Seq<u8>>,
)
    requires
        parent.len() == 32,
        0 < regions.len() <= bodies.len(),
        forall|j: int|
            0 <= j < regions.len() ==> #[trigger] bodies[j].len() == layout::body_len(
                kind,
                regions[j],
            ),
    ensures
        layout::snapshot_file(kind, parent, state, regions, bodies).len() == layout::body_end(
            kind,
            layout::body_start(state, regions.len()),
            regions,
        ) + 4,
{
    let b = layout::snapshot_file(kind, parent, state, regions, bodies);
    let start = layout::body_start(state, regions.len());
    layout::lemma_page_up(layout::header_len(state, regions.len()) as int);
    lemma_file_parts(kind, parent, state, regions, bodies);
    lemma_body_stands(b, kind, start, regions, bodies, 0);
}

/// What was written for a region stands at the region's offset: reading or mapping the file there
/// gives back the payload, or the bitmap of a diff.
pub proof fn law_payload_stands_at_its_offset(
    kind: SnapshotKind,
    parent: Seq<u8>,
    state: GuestState,
    regions: Seq<MemoryRegionDescriptor>,
    bodies: Seq<Seq<u8>>,
    i: int,
)
    requires
        parent.len() == 32,
        layout::layout_fits(kind, state, regions),
        0 <= i < regions.len(),
        bodies.len() == regions.len(),
        forall|j: int|
            0 <= j < regions.len() ==> #[trigger] bodies[j].len() == layout::body_len(
                kind,
                regions[j],
            ),
    ensures
        ({
            let b = layout::snapshot_file(kind, parent, state, regions, bodies);
            let at = located(kind, state, regions)[i].file_offset as int;
            &&& at + bodies[i].len() <= b.len()
            &&& b.subrange(at, at + bodies[i].len()) == bodies[i]
        }),
{
    let b = layout::snapshot_file(kind, parent, state, regions, bodies);
    let start = layout::body_start(state, regions.len());
    layout::lemma_page_up(layout::header_len(state, regions.len()) as int);
    lemma_file_parts(kind, parent, state, regions, bodies);
    lemma_body_stands(b, kind, start, regions, bodies, i);
    layout::lemma_body_end(kind, start, regions, i);
    wire::lemma_bytes(b, layout::body_end(kind, start, regions.take(i)), bodies[i]);
}

/// A diff records an empty set of dirty pages: each region's bitmap is there, and all zero.
pub proof fn law_diff_is_clean(
    parent: Seq<u8>,
    state: GuestState,
    regions: Seq<MemoryRegionDescriptor>,
    i: int,
    k: int,
)
    requires
        parent.len() == 32,
        layout::layout_fits(SnapshotKind::Diff, state, regions),
        0 <= i < regions.len(),
        0 <= k < layout::bitmap_len(regions[i].size as nat),
    ensures
        ({
            let b = layout::snapshot_file(
                SnapshotKind::Diff,
                parent,
                state,
                regions,
                layout::clean_bitmaps(regions),
            );
            let at = located(SnapshotKind::Diff, state, regions)[i].file_offset;
            at + k < b.len() && b[at + k] == 0
        }),
{
    let bitmaps = layout::clean_bitmaps(regions);
    let b = layout::snapshot_file(SnapshotKind::Diff, parent, state, regions, bitmaps);
    let at = located(SnapshotKind::Diff, state, regions)[i].file_offset as int;
    law_payload_stands_at_its_offset(SnapshotKind::Diff, parent, state, regions, bitmaps, i);
    assert(b.subrange(at, at + bitmaps[i].len())[k] == b[at + k]);
}

/// A bitmap has a bit for every page of its region, and is whole 64-bit words.
pub proof fn law_bitmap_covers_region(size: u64)
    ensures
        layout::bitmap_len(size as nat) % 8 == 0,
        layout::bitmap_len(size as nat) * 8 * 4096 >= size,
        size > 0 ==> (layout::bitmap_len(size as nat) - 8) * 8 * 4096 < size,
{
}

/// Where what was read ends.
spec fn end_of<T>(read: Option<(T, int)>) -> int {
    match read {
        Some((_, end)) => end,
        None => 0,
    }
}

proof fn lemma_blob_in_prefix(b: Seq<u8>, c: Seq<u8>, at: int)
    requires
        b.is_prefix_of(c),
        0 <= at,
        reader::parse_blob(b, at) is Some,
    ensures
        reader::parse_blob(c, at) == reader::parse_blob(b, at),
        end_of(reader::parse_blob(b, at)) >= at,
{
    wire::lemma_prefix(b, c, at);
    wire::lemma_prefix_run(b, c, at + 4, at + 4 + wire::at32(b, at));
}

proof fn lemma_blobs_in_prefix(b: Seq<u8>, c: Seq<u8>, at: int, n: nat)
    requires
        b.is_prefix_of(c),
        0 <= at,
        reader::parse_blobs(b, at, n) is Some,
    ensures
        reader::parse_blobs(c, at, n) == reader::parse_blobs(b, at, n),
        end_of(reader::parse_blobs(b, at, n)) >= at,
    decreases n,
{
    if n > 0 {
        lemma_blobs_in_prefix(b, c, at, (n - 1) as nat);
        lemma_blob_in_prefix(b, c, end_of(reader::parse_blobs(b, at, (n - 1) as nat)));
    }
}

proof fn lemma_vcpus_in_prefix(b: Seq<u8>, c: Seq<u8>, at: int, n: nat, version: u32)
    requires
        b.is_prefix_of(c),
        0 <= at,
        reader::parse_vcpus(b, at, n, version) is Some,
    ensures
        reader::parse_vcpus(c, at, n, version) == reader::parse_vcpus(b, at, n, version),
        end_of(reader::parse_vcpus(b, at, n, version)) >= at,
    decreases n,
{
    if n > 0 {
        lemma_vcpus_in_prefix(b, c, at, (n - 1) as nat, version);
        let next = end_of(reader::parse_vcpus(b, at, (n - 1) as nat, version));
        lemma_blobs_in_prefix(b, c, next + 1, layout::vcpu_blobs(version));
        wire::lemma_prefix_run(b, c, next, next + 1);
    }
}

proof fn lemma_regions_in_prefix(b: Seq<u8>, c: Seq<u8>, at: int, n: nat)
    requires
        b.is_prefix_of(c),
        0 <= at,
        reader::parse_regions(b, at, n) != Err::<Seq<RegionLocation>, Refusal>(
            Refusal::UnexpectedEof,
        ),
    ensures
        reader::parse_regions(c, at, n) == reader::parse_regions(b, at, n),
    decreases n,
{
    if n > 0 {
        lemma_regions_in_prefix(b, c, at, (n - 1) as nat);
        let row = at + 24 * (n - 1);
        wire::lemma_prefix(b, c, row);
        wire::lemma_prefix(b, c, row + 8);
        wire::lemma_prefix(b, c, row + 16);
    }
}

proof fn lemma_prelude_in_prefix(b: Seq<u8>, c: Seq<u8>)
    requires
        b.is_prefix_of(c),
        reader::prelude_refusal(b) != Some(Refusal::UnexpectedEof),
    ensures
        reader::prelude_refusal(c) == reader::prelude_refusal(b),
{
    wire::lemma_prefix_run(b, c, 0, b.len() as int);
    wire::lemma_prefix(b, c, 8);
    assert(b.subrange(0, 8) == c.subrange(0, 8)) by {
        wire::lemma_prefix_run(b, c, 0, 8);
    }
    if b.len() >= 56 {
        wire::lemma_prefix_run(b, c, 24, 56);
    }
}

/// A prefix of the file decides as the whole file does, unless it is too short to decide: where
/// opening a prefix gives anything but `UnexpectedEof`, opening the whole gives the same.
pub proof fn law_prefix_decides(b: Seq<u8>, c: Seq<u8>)
    requires
        b.is_prefix_of(c),
        reader::parse_snapshot(b) != Err::<Recorded, Refusal>(Refusal::UnexpectedEof),
    ensures
        reader::parse_snapshot(c) == reader::parse_snapshot(b),
{
    lemma_prelude_in_prefix(b, c);
    if reader::prelude_refusal(b) is None {
        let version = wire::at32(b, 8);
        let start = layout::prelude_len(version) as int;
        wire::lemma_prefix_run(b, c, 0, start);
        wire::lemma_prefix_run(b, c, 24, start);
        wire::lemma_prefix(b, c, 8);
        wire::lemma_prefix(b, c, 16);
        assert(b[12] == c[12] && b[13] == c[13]);
        lemma_vcpus_in_prefix(b, c, start, b[12] as nat, version);
        let at = end_of(reader::parse_vcpus(b, start, b[12] as nat, version));
        wire::lemma_prefix(b, c, at);
        lemma_regions_in_prefix(b, c, at + 4, wire::at32(b, at) as nat);
        if reader::parse_table(b, at) is Ok {
            lemma_blobs_in_prefix(b, c, at + 28, layout::tail_blobs(version));
        }
    }
}

/// Blobs that were read lie within the bytes.
proof fn lemma_blobs_within(b: Seq<u8>, at: int, n: nat)
    ensures
        n > 0 && reader::parse_blobs(b, at, n) is Some ==> end_of(reader::parse_blobs(b, at, n))
            <= b.len(),
{
}

/// A file that ends inside its header is refused for it, wherever it ends.
pub proof fn law_cut_header_is_refused(
    kind: SnapshotKind,
    parent: Seq<u8>,
    state: GuestState,
    regions: Seq<MemoryRegionDescriptor>,
    bodies: Seq<Seq<u8>>,
    k: int,
)
    requires
        state_fits(state),
        parent_matches(kind, parent),
        regions.len() == 1,
        layout::layout_fits(kind, state, regions),
        0 <= k < layout::header_len(state, regions.len()),
    ensures
        reader::parse_snapshot(
            layout::snapshot_file(kind, parent, state, regions, bodies).take(k),
        ) == Err::<Recorded, Refusal>(Refusal::UnexpectedEof),
{
    let c = layout::snapshot_file(kind, parent, state, regions, bodies);
    let version = metadata::SNAPSHOT_FORMAT_VERSION;
    let at = 56 + layout::vcpus_len(state.vcpus) as int;
    lemma_file_parts(kind, parent, state, regions, bodies);
    layout::lemma_page_up(layout::header_len(state, regions.len()) as int);
    let b = c.take(k);
    assert(b.is_prefix_of(c));
    law_open_undoes_write(kind, parent, state, regions, bodies);
    if reader::parse_snapshot(b) != Err::<Recorded, Refusal>(Refusal::UnexpectedEof) {
        law_prefix_decides(b, c);
        lemma_front_back(kind, parent, state, regions, bodies);
        wire::lemma_prefix(b, c, 8);
        wire::lemma_prefix_run(b, c, 0, b.len() as int);
        assert(b[12] == c[12]);
        lemma_vcpus_in_prefix(b, c, 56, b[12] as nat, version);
        assert(reader::parse_vcpus(b, 56, b[12] as nat, version) == Some((state.vcpus, at)));
        lemma_blobs_in_prefix(b, c, at + 28, layout::tail_blobs(version));
        lemma_blobs_within(b, at + 28, layout::tail_blobs(version));
        law_current_version_holds_everything(state);
        assert forall|i: int| 0 <= i < state.tail().len() implies (
        #[trigger] state.tail()[i]).len() <= u32::MAX by {
            if i < 5 {
                assert(state.tail()[i] == state.vm[i]);
            } else if i < 7 {
                assert(state.tail()[i] == state.legacy[i - 5]);
            }
        }
        lemma_blobs_back(c, at + 28, state.tail());
        layout::lemma_blobs_len(state.tail());
    }
}

/// Where the bodies have their lengths, a layout fits exactly where the sum of the region sizes and
/// the length of the file up to the trailer fit 64 bits.
pub proof fn law_layout_fits_where_the_file_does(
    kind: SnapshotKind,
    parent: Seq<u8>,
    state: GuestState,
    regions: Seq<MemoryRegionDescriptor>,
    bodies: Seq<Seq<u8>>,
)
    requires
        parent.len() == 32,
        regions.len() <= bodies.len(),
        forall|j: int|
            0 <= j < regions.len() ==> #[trigger] bodies[j].len() == layout::body_len(
                kind,
                regions[j],
            ),
    ensures
        layout::layout_fits(kind, state, regions) <==> layout::mem_size(regions) <= u64::MAX
            && layout::snapshot_file(kind, parent, state, regions, bodies).len() - 4 <= u64::MAX,
{
    if regions.len() > 0 {
        lemma_file_end(kind, parent, state, regions, bodies);
    } else {
        lemma_file_parts(kind, parent, state, regions, bodies);
    }
}

/// The length of the bodies.
pub proof fn lemma_bodies_len(
    kind: SnapshotKind,
    start: int,
    regions: Seq<MemoryRegionDescriptor>,
    bodies: Seq<Seq<u8>>,
)
    requires
        0 <= start,
        start % 4096 == 0,
        regions.len() <= bodies.len(),
        forall|j: int|
            0 <= j < regions.len() ==> #[trigger] bodies[j].len() == layout::body_len(
                kind,
                regions[j],
            ),
    ensures
        start + layout::bodies_bytes(kind, regions, bodies).len() == layout::body_end(
            kind,
            start,
            regions,
        ),
    decreases regions.len(),
{
    if regions.len() > 0 {
        let n = regions.len() - 1;
        let before = regions.drop_last();
        let len = layout::body_len(kind, regions.last()) as int;
        assert(bodies[n].len() == layout::body_len(kind, regions[n]));
        assert forall|j: int| 0 <= j < before.len() implies #[trigger] bodies[j].len()
            == layout::body_len(kind, before[j]) by {
            assert(bodies[j].len() == layout::body_len(kind, regions[j]));
        }
        lemma_bodies_len(kind, start, before, bodies);
        layout::lemma_page_up(len);
        layout::lemma_body_end(kind, start, before, before.len() as int);
        assert(before.take(before.len() as int) =~= before);
        layout::lemma_page_up_sum(layout::body_end(kind, start, before), len);
    }
}

/// Where the bodies stand.
pub proof fn lemma_bodies_stand(
    kind: SnapshotKind,
    parent: Seq<u8>,
    state: GuestState,
    regions: Seq<MemoryRegionDescriptor>,
    bodies: Seq<Seq<u8>>,
)
    requires
        parent.len() == 32,
    ensures
        wire::stands_at(
            layout::snapshot_file(kind, parent, state, regions, bodies),
            layout::body_start(state, regions.len()),
            layout::bodies_bytes(kind, regions, bodies),
        ),
{
    lemma_file_parts(kind, parent, state, regions, bodies);
}

/// Everything behind the first 56 bytes reads back where it stands.
pub proof fn lemma_parts_back(b: Seq<u8>, state: GuestState, region: RegionLocation)
    requires
        state_fits(state),
        region.file_offset % 4096 == 0,
        wire::stands_at(b, 56, layout::vcpus_bytes(state.vcpus)),
        wire::stands_at(b, 56int + layout::vcpus_len(state.vcpus), wire::le32(1)),
        wire::stands_at(b, 60int + layout::vcpus_len(state.vcpus), layout::region_bytes(region)),
        wire::stands_at(b, 84int + layout::vcpus_len(state.vcpus), layout::blobs_bytes(state.tail())),
    ensures
        ({
            let version = metadata::SNAPSHOT_FORMAT_VERSION;
            let at = 56 + layout::vcpus_len(state.vcpus) as int;
            &&& reader::parse_vcpus(b, 56, state.vcpus.len(), version) == Some((state.vcpus, at))
            &&& reader::parse_table(b, at) == Ok::<Seq<RegionLocation>, Refusal>(seq![region])
            &&& reader::parse_tail(b, at + 28, state.vcpus, version) == Ok::<GuestState, Refusal>(
                state,
            )
        }),
{
    let version = metadata::SNAPSHOT_FORMAT_VERSION;
    let at = 56 + layout::vcpus_len(state.vcpus) as int;
    law_current_version_holds_everything(state);
    lemma_vcpus_back(b, 56, state.vcpus, version);
    layout::lemma_vcpus_len(state.vcpus);
    let table = seq![region];
    assert(layout::table_bytes(table) =~= layout::region_bytes(region)) by {
        reveal_with_fuel(layout::table_bytes, 2);
        assert(table.drop_last() =~= Seq::empty());
    }
    lemma_table_back(b, at, table);
    lemma_tail_back(b, at + 28, state, version);
}

} // verus!
