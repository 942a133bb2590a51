//! What a writer is called with, and what opening the written file gives: the same, field by field.
//!
//! The statements here speak of the fields of the arguments and of the reader themselves.
use vstd::prelude::*;

use super::laws;
use super::layout;
use super::metadata::SnapshotKind;
use super::reader;
use super::reader::{RegionLocation, SnapshotReader};
use super::serial_state::LegacyDeviceState;
use super::vcpu_state::VcpuStateData;
use super::virtio_net_state;
use super::virtio_net_state::{VirtioNetDeviceState, VirtioNetState};
use super::vm_state::VmStateData;
use super::MemoryRegionDescriptor;
use crate::wire;

verus! {

broadcast use wire::field_widths;

/// Whether every field of a vCPU state is within its 32-bit length.
pub open spec fn vcpu_fits(v: VcpuStateData) -> bool {
    &&& v.regs@.len() <= u32::MAX && v.sregs@.len() <= u32::MAX && v.msrs@.len() <= u32::MAX
    &&& v.cpuid_entries@.len() <= u32::MAX && v.lapic@.len() <= u32::MAX
    &&& v.xsave@.len() <= u32::MAX && v.vcpu_events@.len() <= u32::MAX
    &&& v.mp_state@.len() <= u32::MAX && v.xcrs@.len() <= u32::MAX
}

/// Whether the counts and lengths of a device state are within their 32-bit fields.
pub open spec fn device_fits(d: VirtioNetDeviceState) -> bool {
    &&& wire::text_bytes(d.iface_id@).len() <= u32::MAX
    &&& wire::text_bytes(d.host_dev_name@).len() <= u32::MAX
    &&& d.queues@.len() <= u32::MAX
}

/// Whether the counts and lengths of what a writer is called with are within their fields.
pub open spec fn sizes_fit(
    vcpu_states: Seq<VcpuStateData>,
    vm_state: VmStateData,
    legacy_state: LegacyDeviceState,
    virtio_net_state: VirtioNetState,
) -> bool {
    &&& vcpu_states.len() <= 255
    &&& forall|i: int| 0 <= i < vcpu_states.len() ==> vcpu_fits(#[trigger] vcpu_states[i])
    &&& vm_state.pic_master@.len() <= u32::MAX && vm_state.pic_slave@.len() <= u32::MAX
    &&& vm_state.ioapic@.len() <= u32::MAX && vm_state.pit2@.len() <= u32::MAX
    &&& vm_state.clock@.len() <= u32::MAX
    &&& legacy_state.com1@.len() <= u32::MAX && legacy_state.com2@.len() <= u32::MAX
    &&& virtio_net_state.devices@.len() <= u32::MAX
    &&& forall|i: int|
        0 <= i < virtio_net_state.devices@.len() ==> device_fits(
            #[trigger] virtio_net_state.devices@[i],
        )
    &&& virtio_net_state::envelope(virtio_net_state@).len() <= u32::MAX
}

/// Whether two vCPU states are the same, field by field.
pub open spec fn same_vcpu(a: VcpuStateData, b: VcpuStateData) -> bool {
    &&& a.vcpu_id == b.vcpu_id
    &&& a.regs@ == b.regs@
    &&& a.sregs@ == b.sregs@
    &&& a.msrs@ == b.msrs@
    &&& a.cpuid_entries@ == b.cpuid_entries@
    &&& a.lapic@ == b.lapic@
    &&& a.xsave@ == b.xsave@
    &&& a.vcpu_events@ == b.vcpu_events@
    &&& a.mp_state@ == b.mp_state@
    &&& a.xcrs@ == b.xcrs@
}

/// Whether two device states are the same, field by field.
pub open spec fn same_device(a: VirtioNetDeviceState, b: VirtioNetDeviceState) -> bool {
    &&& a.iface_id@ == b.iface_id@
    &&& a.host_dev_name@ == b.host_dev_name@
    &&& a.guest_mac is Some <==> b.guest_mac is Some
    &&& a.guest_mac is Some ==> (a.guest_mac->0)@ == (b.guest_mac->0)@
    &&& a.num_queues == b.num_queues
    &&& a.queue_size == b.queue_size
    &&& a.acked_features == b.acked_features
    &&& a.queues@ == b.queues@
}

/// Whether a reader holds, field by field, the guest state that is given.
pub open spec fn holds_state(
    reader: SnapshotReader,
    vcpu_states: Seq<VcpuStateData>,
    vm_state: VmStateData,
    legacy_state: LegacyDeviceState,
    virtio_net_state: VirtioNetState,
) -> bool {
    &&& reader.vcpu_states@.len() == vcpu_states.len()
    &&& forall|i: int|
        0 <= i < vcpu_states.len() ==> same_vcpu(
            #[trigger] reader.vcpu_states@[i],
            vcpu_states[i],
        )
    &&& reader.vm_state.pic_master@ == vm_state.pic_master@
    &&& reader.vm_state.pic_slave@ == vm_state.pic_slave@
    &&& reader.vm_state.ioapic@ == vm_state.ioapic@
    &&& reader.vm_state.pit2@ == vm_state.pit2@
    &&& reader.vm_state.clock@ == vm_state.clock@
    &&& reader.legacy_state.com1@ == legacy_state.com1@
    &&& reader.legacy_state.com2@ == legacy_state.com2@
    &&& reader.virtio_net_state.devices@.len() == virtio_net_state.devices@.len()
    &&& forall|i: int|
        0 <= i < virtio_net_state.devices@.len() ==> same_device(
            #[trigger] reader.virtio_net_state.devices@[i],
            virtio_net_state.devices@[i],
        )
}

/// Whether a file opens, and every reader that it opens as holds what is given. A file beyond 64
/// bits, fields beyond their lengths, and a parent hash that does not go with the kind are left out.
pub open spec fn opens_as(
    file: Seq<u8>,
    kind: SnapshotKind,
    parent: Seq<u8>,
    vcpu_states: Seq<VcpuStateData>,
    vm_state: VmStateData,
    legacy_state: LegacyDeviceState,
    virtio_net_state: VirtioNetState,
    region: MemoryRegionDescriptor,
) -> bool {
    file.len() <= u64::MAX && (kind is Golden <==> forall|k: int|
        0 <= k < 32 ==> #[trigger] parent[k] == 0) && sizes_fit(
        vcpu_states,
        vm_state,
        legacy_state,
        virtio_net_state,
    ) ==> {
        &&& reader::parse_snapshot(file) is Ok
        &&& forall|reader: SnapshotReader| #[trigger]
            reader@ == reader::parse_snapshot(file)->Ok_0 ==> {
                &&& reader.kind == kind
                &&& reader.parent_sha256@ == parent
                &&& reader.vcpu_count == vcpu_states.len()
                &&& reader.mem_size_bytes == region.size
                &&& reader.well_formed() ==> reader.regions@ == seq![region]
                &&& holds_state(reader, vcpu_states, vm_state, legacy_state, virtio_net_state)
            }
    }
}

/// What a writer has written opens as what it was called with.
#[verifier::rlimit(40)]
pub proof fn lemma_opens_as(
    kind: SnapshotKind,
    parent: Seq<u8>,
    vcpu_states: Seq<VcpuStateData>,
    vm_state: VmStateData,
    legacy_state: LegacyDeviceState,
    virtio_net_state: VirtioNetState,
    regions: Seq<MemoryRegionDescriptor>,
    bodies: Seq<Seq<u8>>,
)
    requires
        parent.len() == 32,
        regions.len() == 1,
        bodies.len() == 1,
        bodies[0].len() == layout::body_len(kind, regions[0]),
    ensures
        opens_as(
            layout::snapshot_file(
                kind,
                parent,
                super::guest_state(vcpu_states, vm_state, legacy_state, virtio_net_state),
                regions,
                bodies,
            ),
            kind,
            parent,
            vcpu_states,
            vm_state,
            legacy_state,
            virtio_net_state,
            regions[0],
        ),
{
    let state = super::guest_state(vcpu_states, vm_state, legacy_state, virtio_net_state);
    let file = layout::snapshot_file(kind, parent, state, regions, bodies);
    assert(regions =~= seq![regions[0]]);
    assert(bodies =~= seq![bodies[0]]);
    if file.len() <= u64::MAX && (kind is Golden <==> forall|k: int|
        0 <= k < 32 ==> #[trigger] parent[k] == 0) && sizes_fit(
        vcpu_states,
        vm_state,
        legacy_state,
        virtio_net_state,
    ) {
        lemma_sizes_fit(vcpu_states, vm_state, legacy_state, virtio_net_state);
        lemma_file_fits(kind, parent, state, regions, bodies);
        if kind is Golden {
            assert(parent =~= wire::zeros(32));
        } else {
            let k = choose|k: int| 0 <= k < 32 && #[trigger] parent[k] != 0;
            assert(wire::zeros(32)[k] == 0);
        }
        laws::law_open_undoes_write(kind, parent, state, regions, bodies);
        assert forall|reader: SnapshotReader| #[trigger]
            reader@ == reader::parse_snapshot(file)->Ok_0 implies {
            &&& reader.kind == kind
            &&& reader.parent_sha256@ == parent
            &&& reader.vcpu_count == vcpu_states.len()
            &&& reader.mem_size_bytes == regions[0].size
            &&& reader.well_formed() ==> reader.regions@ == seq![regions[0]]
            &&& holds_state(reader, vcpu_states, vm_state, legacy_state, virtio_net_state)
        } by {
            lemma_opened_file(
                kind,
                parent,
                vcpu_states,
                vm_state,
                legacy_state,
                virtio_net_state,
                regions[0],
                bodies[0],
                file,
                reader,
            );
        }
    }
}

/// What fits by its fields fits.
proof fn lemma_sizes_fit(
    vcpu_states: Seq<VcpuStateData>,
    vm_state: VmStateData,
    legacy_state: LegacyDeviceState,
    virtio_net_state: VirtioNetState,
)
    requires
        sizes_fit(vcpu_states, vm_state, legacy_state, virtio_net_state),
    ensures
        laws::state_fits(
            super::guest_state(vcpu_states, vm_state, legacy_state, virtio_net_state),
        ),
{
    let state = super::guest_state(vcpu_states, vm_state, legacy_state, virtio_net_state);
    assert forall|i: int| 0 <= i < state.vcpus.len() implies (#[trigger] state.vcpus[i]).blobs.len()
        == 9 && laws::blobs_fit(state.vcpus[i].blobs) by {
        assert(vcpu_fits(vcpu_states[i]));
    }
    assert forall|i: int| 0 <= i < state.devices.len() implies virtio_net_state::device_fits(
        #[trigger] state.devices[i],
    ) by {
        assert(device_fits(virtio_net_state.devices@[i]));
    }
}

/// A file whose length fits 64 bits has a layout that does.
proof fn lemma_file_fits(
    kind: SnapshotKind,
    parent: Seq<u8>,
    state: layout::GuestState,
    regions: Seq<MemoryRegionDescriptor>,
    bodies: Seq<Seq<u8>>,
)
    requires
        parent.len() == 32,
        regions.len() == 1,
        bodies.len() == 1,
        bodies[0].len() == layout::body_len(kind, regions[0]),
        layout::snapshot_file(kind, parent, state, regions, bodies).len() <= u64::MAX,
    ensures
        layout::layout_fits(kind, state, regions),
        layout::mem_size(regions) == regions[0].size,
{
    reveal_with_fuel(layout::mem_size, 2);
    assert(regions.drop_last().len() == 0);
    laws::lemma_file_end(kind, parent, state, regions, bodies);
}

/// Two views of a guest state that are the same come from the same fields.
proof fn lemma_same_fields(
    reader: SnapshotReader,
    vcpu_states: Seq<VcpuStateData>,
    vm_state: VmStateData,
    legacy_state: LegacyDeviceState,
    virtio_net_state: VirtioNetState,
)
    requires
        reader@.state == super::guest_state(vcpu_states, vm_state, legacy_state, virtio_net_state),
    ensures
        holds_state(reader, vcpu_states, vm_state, legacy_state, virtio_net_state),
{
    let state = super::guest_state(vcpu_states, vm_state, legacy_state, virtio_net_state);
    let read = reader@.state;
    assert(read.vcpus.len() == state.vcpus.len());
    assert forall|i: int| 0 <= i < vcpu_states.len() implies same_vcpu(
        #[trigger] reader.vcpu_states@[i],
        vcpu_states[i],
    ) by {
        assert(read.vcpus[i] == reader.vcpu_states@[i]@);
        assert(state.vcpus[i] == vcpu_states[i]@);
        let a = reader.vcpu_states@[i]@.blobs;
        let b = vcpu_states[i]@.blobs;
        assert(a[0] == b[0] && a[1] == b[1] && a[2] == b[2] && a[3] == b[3] && a[4] == b[4] && a[5]
            == b[5] && a[6] == b[6] && a[7] == b[7] && a[8] == b[8]);
    }
    assert(read.vm[0] == state.vm[0] && read.vm[1] == state.vm[1] && read.vm[2] == state.vm[2]
        && read.vm[3] == state.vm[3] && read.vm[4] == state.vm[4]);
    assert(read.legacy[0] == state.legacy[0] && read.legacy[1] == state.legacy[1]);
    assert(read.devices.len() == state.devices.len());
    assert forall|i: int| 0 <= i < virtio_net_state.devices@.len() implies same_device(
        #[trigger] reader.virtio_net_state.devices@[i],
        virtio_net_state.devices@[i],
    ) by {
        assert(read.devices[i] == reader.virtio_net_state.devices@[i]@);
        assert(state.devices[i] == virtio_net_state.devices@[i]@);
    }
}

/// Opening what a writer has written gives, field by field, what the writer was called with: every
/// blob of every vCPU with its id, the five blobs of the VM, both UARTs, and every field of every
/// network device. It gives the kind and the parent hash, the current format version, the number
/// of vCPUs, the memory size and the region, and an offset at which the body of the region stands
/// in the file. The file is never refused.
pub proof fn law_open_gives_back_the_arguments(
    kind: SnapshotKind,
    parent: Seq<u8>,
    vcpu_states: Seq<VcpuStateData>,
    vm_state: VmStateData,
    legacy_state: LegacyDeviceState,
    virtio_net_state: VirtioNetState,
    region: MemoryRegionDescriptor,
    body: Seq<u8>,
    file: Seq<u8>,
    reader: SnapshotReader,
    i: int,
    j: int,
)
    requires
        sizes_fit(vcpu_states, vm_state, legacy_state, virtio_net_state),
        parent.len() == 32,
        kind is Golden <==> forall|k: int| 0 <= k < 32 ==> #[trigger] parent[k] == 0,
        body.len() == layout::body_len(kind, region),
        file == layout::snapshot_file(
            kind,
            parent,
            super::guest_state(vcpu_states, vm_state, legacy_state, virtio_net_state),
            seq![region],
            seq![body],
        ),
        file.len() <= u64::MAX,
        reader::parse_snapshot(file) matches Ok(recorded) ==> reader@ == recorded,
    ensures
        reader::parse_snapshot(file) is Ok,
        reader.format_version == 9,
        reader.kind == kind,
        reader.parent_sha256@ == parent,
        reader.vcpu_count == vcpu_states.len(),
        reader.vcpu_states@.len() == vcpu_states.len(),
        0 <= i < vcpu_states.len() ==> {
            let got = reader.vcpu_states@[i];
            let given = vcpu_states[i];
            &&& got.vcpu_id == given.vcpu_id
            &&& got.regs@ == given.regs@
            &&& got.sregs@ == given.sregs@
            &&& got.msrs@ == given.msrs@
            &&& got.cpuid_entries@ == given.cpuid_entries@
            &&& got.lapic@ == given.lapic@
            &&& got.xsave@ == given.xsave@
            &&& got.vcpu_events@ == given.vcpu_events@
            &&& got.mp_state@ == given.mp_state@
            &&& got.xcrs@ == given.xcrs@
        },
        reader.vm_state.pic_master@ == vm_state.pic_master@,
        reader.vm_state.pic_slave@ == vm_state.pic_slave@,
        reader.vm_state.ioapic@ == vm_state.ioapic@,
        reader.vm_state.pit2@ == vm_state.pit2@,
        reader.vm_state.clock@ == vm_state.clock@,
        reader.legacy_state.com1@ == legacy_state.com1@,
        reader.legacy_state.com2@ == legacy_state.com2@,
        reader.virtio_net_state.devices@.len() == virtio_net_state.devices@.len(),
        0 <= j < virtio_net_state.devices@.len() ==> {
            let got = reader.virtio_net_state.devices@[j];
            let given = virtio_net_state.devices@[j];
            &&& got.iface_id@ == given.iface_id@
            &&& got.host_dev_name@ == given.host_dev_name@
            &&& got.guest_mac is Some <==> given.guest_mac is Some
            &&& got.guest_mac is Some ==> (got.guest_mac->0)@ == (given.guest_mac->0)@
            &&& got.num_queues == given.num_queues
            &&& got.queue_size == given.queue_size
            &&& got.acked_features == given.acked_features
            &&& got.queues@ == given.queues@
        },
        reader.mem_size_bytes == region.size,
        reader.well_formed() ==> reader.regions@ == seq![region] && reader.region_offsets@.len()
            == 1 && reader.region_offsets@[0] % 4096 == 0 && file.subrange(
            reader.region_offsets@[0] as int,
            reader.region_offsets@[0] + body.len(),
        ) == body,
{
    lemma_opened_file(
        kind,
        parent,
        vcpu_states,
        vm_state,
        legacy_state,
        virtio_net_state,
        region,
        body,
        file,
        reader,
    );
    if 0 <= i < vcpu_states.len() {
        assert(same_vcpu(reader.vcpu_states@[i], vcpu_states[i]));
    }
    if 0 <= j < virtio_net_state.devices@.len() {
        assert(same_device(reader.virtio_net_state.devices@[j], virtio_net_state.devices@[j]));
    }
}

/// Opening what a writer has written gives what the writer was called with.
#[verifier::rlimit(40)]
pub proof fn lemma_opened_file(
    kind: SnapshotKind,
    parent: Seq<u8>,
    vcpu_states: Seq<VcpuStateData>,
    vm_state: VmStateData,
    legacy_state: LegacyDeviceState,
    virtio_net_state: VirtioNetState,
    region: MemoryRegionDescriptor,
    body: Seq<u8>,
    file: Seq<u8>,
    reader: SnapshotReader,
)
    requires
        sizes_fit(vcpu_states, vm_state, legacy_state, virtio_net_state),
        parent.len() == 32,
        kind is Golden <==> forall|k: int| 0 <= k < 32 ==> #[trigger] parent[k] == 0,
        body.len() == layout::body_len(kind, region),
        file == layout::snapshot_file(
            kind,
            parent,
            super::guest_state(vcpu_states, vm_state, legacy_state, virtio_net_state),
            seq![region],
            seq![body],
        ),
        file.len() <= u64::MAX,
        reader::parse_snapshot(file) matches Ok(recorded) ==> reader@ == recorded,
    ensures
        reader::parse_snapshot(file) is Ok,
        reader.format_version == 9,
        reader.kind == kind,
        reader.parent_sha256@ == parent,
        reader.vcpu_count == vcpu_states.len(),
        holds_state(reader, vcpu_states, vm_state, legacy_state, virtio_net_state),
        reader.mem_size_bytes == region.size,
        reader.well_formed() ==> reader.regions@ == seq![region] && reader.region_offsets@.len()
            == 1 && reader.region_offsets@[0] % 4096 == 0 && file.subrange(
            reader.region_offsets@[0] as int,
            reader.region_offsets@[0] + body.len(),
        ) == body,
{
    let state = super::guest_state(vcpu_states, vm_state, legacy_state, virtio_net_state);
    let regions = seq![region];
    let bodies = seq![body];
    lemma_sizes_fit(vcpu_states, vm_state, legacy_state, virtio_net_state);
    lemma_file_fits(kind, parent, state, regions, bodies);
    if kind is Golden {
        assert(parent =~= wire::zeros(32));
    } else {
        let k = choose|k: int| 0 <= k < 32 && #[trigger] parent[k] != 0;
        assert(wire::zeros(32)[k] == 0);
    }
    laws::law_open_undoes_write(kind, parent, state, regions, bodies);
    lemma_same_fields(reader, vcpu_states, vm_state, legacy_state, virtio_net_state);
    if reader.well_formed() {
        let table = laws::located(kind, state, regions);
        let read = reader::rows(reader.regions@, reader.region_offsets@);
        assert(reader@.regions == table);
        assert(read.len() == 1 && read[0] == table[0]);
        assert(reader.regions@[0] == region);
        assert(reader.regions@ =~= seq![region]);
        laws::law_bodies_are_aligned_and_apart(kind, state, regions, 0);
        laws::law_payload_stands_at_its_offset(kind, parent, state, regions, bodies, 0);
    }
}

/// Whether a file of an earlier format version holds all of a guest state: what came with a later
/// version is empty. XCRs came with 5; the local APIC, the FPU state, the events, the run state and
/// the VM-level state with 4; the UARTs with 6; network devices with 7, and their live state with 8.
pub open spec fn known_to(
    version: u32,
    vcpu_states: Seq<VcpuStateData>,
    vm_state: VmStateData,
    legacy_state: LegacyDeviceState,
    virtio_net_state: VirtioNetState,
) -> bool {
    &&& forall|i: int|
        0 <= i < vcpu_states.len() ==> {
            &&& version < 5 ==> (#[trigger] vcpu_states[i]).xcrs@.len() == 0
            &&& version < 4 ==> vcpu_states[i].lapic@.len() == 0 && vcpu_states[i].xsave@.len() == 0
                && vcpu_states[i].vcpu_events@.len() == 0 && vcpu_states[i].mp_state@.len() == 0
        }
    &&& version < 4 ==> vm_state.pic_master@.len() == 0 && vm_state.pic_slave@.len() == 0
        && vm_state.ioapic@.len() == 0 && vm_state.pit2@.len() == 0 && vm_state.clock@.len() == 0
    &&& version < 6 ==> legacy_state.com1@.len() == 0 && legacy_state.com2@.len() == 0
    &&& version < 7 ==> virtio_net_state.devices@.len() == 0
    &&& version < 8 ==> forall|i: int|
        0 <= i < virtio_net_state.devices@.len() ==> (
        #[trigger] virtio_net_state.devices@[i]).acked_features == 0
            && virtio_net_state.devices@[i].queues@.len() == 0
}

/// What is known to a version by its fields is held by it.
proof fn lemma_known_is_held(
    version: u32,
    vcpu_states: Seq<VcpuStateData>,
    vm_state: VmStateData,
    legacy_state: LegacyDeviceState,
    virtio_net_state: VirtioNetState,
)
    requires
        3 <= version < 9,
        known_to(version, vcpu_states, vm_state, legacy_state, virtio_net_state),
    ensures
        super::guest_state(vcpu_states, vm_state, legacy_state, virtio_net_state).held_by(version),
{
    let state = super::guest_state(vcpu_states, vm_state, legacy_state, virtio_net_state);
    let none = Seq::<u8>::empty();
    assert forall|i: int| 0 <= i < state.vcpus.len() implies (#[trigger] state.vcpus[i]).blobs
        == layout::filled_up(
        state.vcpus[i].blobs.take(layout::vcpu_blobs(version) as int),
        9,
    ) by {
        let v = vcpu_states[i];
        assert(version < 5 ==> v.xcrs@ =~= none);
        assert(version < 4 ==> v.lapic@ =~= none && v.xsave@ =~= none && v.vcpu_events@ =~= none
            && v.mp_state@ =~= none);
        assert(state.vcpus[i].blobs =~= layout::filled_up(
            state.vcpus[i].blobs.take(layout::vcpu_blobs(version) as int),
            9,
        ));
    }
    let blocks = state.vm + state.legacy;
    assert(version < 4 ==> vm_state.pic_master@ =~= none && vm_state.pic_slave@ =~= none
        && vm_state.ioapic@ =~= none && vm_state.pit2@ =~= none && vm_state.clock@ =~= none);
    assert(version < 6 ==> legacy_state.com1@ =~= none && legacy_state.com2@ =~= none);
    let n = if layout::tail_blobs(version) < 7 {
        layout::tail_blobs(version) as int
    } else {
        7
    };
    assert(blocks =~= layout::filled_up(blocks.take(n), 7));
    if version < 8 {
        assert forall|i: int| 0 <= i < state.devices.len() implies virtio_net_state::is_spec(
            #[trigger] state.devices[i],
        ) by {
            assert(virtio_net_state.devices@[i].queues@.len() == 0);
            assert(state.devices[i].queues =~= Seq::empty());
        }
    }
    if version < 7 {
        assert(state.devices =~= Seq::empty());
    }
}

/// A file of an earlier format version, from 3 on, opens as a golden and gives back, field by field,
/// the guest state that it was made of, where that is all known to its version. What follows the
/// header plays no part, nor do the three reserved bytes.
pub proof fn law_earlier_files_give_back_their_state(
    version: u32,
    reserved: Seq<u8>,
    mem: u64,
    vcpu_states: Seq<VcpuStateData>,
    vm_state: VmStateData,
    legacy_state: LegacyDeviceState,
    virtio_net_state: VirtioNetState,
    region: RegionLocation,
    rest: Seq<u8>,
    file: Seq<u8>,
    reader: SnapshotReader,
)
    requires
        3 <= version <= 8,
        reserved.len() == 3,
        sizes_fit(vcpu_states, vm_state, legacy_state, virtio_net_state),
        known_to(version, vcpu_states, vm_state, legacy_state, virtio_net_state),
        virtio_net_state::envelope_of(virtio_net_state@, version >= 8).len() <= u32::MAX,
        region.file_offset % 4096 == 0,
        file == layout::earlier_header(
            version,
            reserved,
            mem,
            super::guest_state(vcpu_states, vm_state, legacy_state, virtio_net_state),
            seq![region],
        ) + rest,
        reader::parse_snapshot(file) matches Ok(recorded) ==> reader@ == recorded,
    ensures
        reader::parse_snapshot(file) is Ok,
        reader.format_version == version,
        reader.kind is Golden,
        forall|k: int| 0 <= k < 32 ==> #[trigger] reader.parent_sha256@[k] == 0,
        reader.vcpu_count == vcpu_states.len(),
        reader.mem_size_bytes == mem,
        holds_state(reader, vcpu_states, vm_state, legacy_state, virtio_net_state),
        reader.well_formed() ==> reader.regions@.len() == 1 && reader.regions@[0].guest_phys_addr
            == region.guest_phys_addr && reader.regions@[0].size == region.size
            && reader.region_offsets@[0] == region.file_offset,
{
    let state = super::guest_state(vcpu_states, vm_state, legacy_state, virtio_net_state);
    lemma_sizes_fit(vcpu_states, vm_state, legacy_state, virtio_net_state);
    lemma_known_is_held(version, vcpu_states, vm_state, legacy_state, virtio_net_state);
    laws::law_earlier_versions_are_readable(version, reserved, mem, state, seq![region], rest);
    lemma_same_fields(reader, vcpu_states, vm_state, legacy_state, virtio_net_state);
    if reader.well_formed() {
        let read = reader::rows(reader.regions@, reader.region_offsets@);
        assert(reader@.regions == seq![region]);
        assert(read.len() == 1 && read[0] == region);
    }
}

} // verus!
