//! What the operations on snapshots and guest state do to what they are given: what one of them
//! makes, another gives back.
//!
//! Each law speaks of calls: of what was handed to them and what came out.
use vstd::prelude::*;

use std::path::PathBuf;

use super::layout;
use super::metadata::{SnapshotKind, SnapshotMetadata};
use super::reader::SnapshotReader;
use super::round_trip;
use super::serial_state::{
    decode_serial_state, encode_serial_state, LegacyDeviceState, SerialState, SerialStateError,
};
use super::vcpu_state;
use super::vcpu_state::{CpuidEntry, MsrEntry, VcpuAction, VcpuStateData, VcpuStateError};
use super::virtio_net_state;
use super::virtio_net_state::{VirtioNetState, VirtioNetStateError};
use super::vm_state;
use super::vm_state::{VmAction, VmStateData};
use super::{
    diff_snapshot_against, write_golden_snapshot, MemoryRegionDescriptor, SnapshotError, WriteStep,
};
use crate::wire;

verus! {

broadcast use wire::field_widths;

/// A golden that is written and opened again: the reader holds what the writer was called with, field
/// by field.
pub proof fn law_golden_is_opened_as_written(
    vcpu_states: &[VcpuStateData],
    vm_state: &VmStateData,
    legacy_state: &LegacyDeviceState,
    virtio_net_state: &VirtioNetState,
    regions: &[MemoryRegionDescriptor],
    written: (SnapshotMetadata, Vec<WriteStep>),
    payload: Seq<u8>,
    path: PathBuf,
    data: &[u8],
    opened: Result<SnapshotReader, SnapshotError>,
    i: int,
    j: int,
)
    requires
        regions@.len() == 1,
        payload.len() == regions@[0].size,
        round_trip::sizes_fit(vcpu_states@, *vm_state, *legacy_state, *virtio_net_state),
        call_ensures(
            write_golden_snapshot,
            (vcpu_states, vm_state, legacy_state, virtio_net_state, regions),
            written,
        ),
        data@ == super::render(written.1@, seq![payload]),
        data@.len() <= u64::MAX,
        call_ensures(SnapshotReader::open, (path, data), opened),
    ensures
        opened is Ok,
        ({
            let reader = opened->Ok_0;
            &&& reader.path == path
            &&& reader.kind is Golden
            &&& reader.format_version == 9
            &&& reader.vcpu_count == vcpu_states@.len()
            &&& reader.mem_size_bytes == regions@[0].size
            &&& reader.regions@ == regions@
            &&& reader.legacy_state.com1@ == legacy_state.com1@
            &&& reader.legacy_state.com2@ == legacy_state.com2@
            &&& reader.vm_state.pic_master@ == vm_state.pic_master@
            &&& reader.vm_state.pic_slave@ == vm_state.pic_slave@
            &&& reader.vm_state.ioapic@ == vm_state.ioapic@
            &&& reader.vm_state.pit2@ == vm_state.pit2@
            &&& reader.vm_state.clock@ == vm_state.clock@
            &&& reader.vcpu_states@.len() == vcpu_states@.len()
            &&& 0 <= i < vcpu_states@.len() ==> {
                let got = reader.vcpu_states@[i];
                let given = vcpu_states@[i];
                &&& got.vcpu_id == given.vcpu_id
                &&& got.regs@ == given.regs@
                &&& got.sregs@ == given.sregs@
                &&& got.msrs@ == given.msrs@
                &&& got.cpuid_entries@ == given.cpuid_entries@
                &&& got.lapic@ == given.lapic@
                &&& got.xsave@ == given.xsave@
                &&& got.vcpu_events@ == given.vcpu_events@
                &&& got.mp_state@ == given.mp_state@
                &&& got.xcrs@ == given.xcrs@
            }
            &&& reader.virtio_net_state.devices@.len() == virtio_net_state.devices@.len()
            &&& 0 <= j < virtio_net_state.devices@.len() ==> {
                let got = reader.virtio_net_state.devices@[j];
                let given = virtio_net_state.devices@[j];
                &&& got.iface_id@ == given.iface_id@
                &&& got.host_dev_name@ == given.host_dev_name@
                &&& got.guest_mac is Some <==> given.guest_mac is Some
                &&& got.guest_mac is Some ==> (got.guest_mac->0)@ == (given.guest_mac->0)@
                &&& got.num_queues == given.num_queues
                &&& got.queue_size == given.queue_size
                &&& got.acked_features == given.acked_features
                &&& got.queues@ == given.queues@
            }
        }),
{
    let state = super::guest_state(vcpu_states@, *vm_state, *legacy_state, *virtio_net_state);
    assert(regions@ =~= seq![regions@[0]]);
    let reader = opened->Ok_0;
    round_trip::law_open_gives_back_the_arguments(
        SnapshotKind::Golden,
        wire::zeros(32),
        vcpu_states@,
        *vm_state,
        *legacy_state,
        *virtio_net_state,
        regions@[0],
        payload,
        data@,
        reader,
        i,
        j,
    );
}

/// A diff that is written and opened again: the reader holds what the writer was called with, the
/// hash of the parent among it.
pub proof fn law_diff_is_opened_as_written(
    parent_sha256: [u8; 32],
    vcpu_states: &[VcpuStateData],
    vm_state: &VmStateData,
    legacy_state: &LegacyDeviceState,
    virtio_net_state: &VirtioNetState,
    regions: &[MemoryRegionDescriptor],
    written: (SnapshotMetadata, Vec<WriteStep>),
    payload: Seq<u8>,
    path: PathBuf,
    data: &[u8],
    opened: Result<SnapshotReader, SnapshotError>,
    k: int,
)
    requires
        regions@.len() == 1,
        0 <= k < 32 && parent_sha256@[k] != 0,
        round_trip::sizes_fit(vcpu_states@, *vm_state, *legacy_state, *virtio_net_state),
        call_ensures(
            diff_snapshot_against,
            (parent_sha256, vcpu_states, vm_state, legacy_state, virtio_net_state, regions),
            written,
        ),
        data@ == super::render(written.1@, seq![payload]),
        data@.len() <= u64::MAX,
        call_ensures(SnapshotReader::open, (path, data), opened),
    ensures
        opened is Ok,
        ({
            let reader = opened->Ok_0;
            &&& reader.kind is Diff
            &&& reader.parent_sha256@ == parent_sha256@
            &&& reader.regions@ == regions@
            &&& reader.legacy_state.com1@ == legacy_state.com1@
            &&& reader.legacy_state.com2@ == legacy_state.com2@
            &&& round_trip::holds_state(
                reader,
                vcpu_states@,
                *vm_state,
                *legacy_state,
                *virtio_net_state,
            )
        }),
{
    let bitmaps = layout::clean_bitmaps(regions@);
    assert(regions@ =~= seq![regions@[0]]);
    assert(bitmaps =~= seq![bitmaps[0]]);
    let reader = opened->Ok_0;
    round_trip::lemma_opened_file(
        SnapshotKind::Diff,
        parent_sha256@,
        vcpu_states@,
        *vm_state,
        *legacy_state,
        *virtio_net_state,
        regions@[0],
        bitmaps[0],
        data@,
        reader,
    );
}

/// VM-level state that is captured and applied again. Where KVM read all five structures, the state
/// holds the bytes that were read; where these have the sizes of the structures, five calls are made,
/// with those bytes.
pub proof fn law_captured_vm_state_is_applied(
    pic_master: Vec<u8>,
    pic_slave: Vec<u8>,
    ioapic: Vec<u8>,
    pit2: Vec<u8>,
    clock: Vec<u8>,
    captured: Result<VmStateData, VcpuStateError>,
    actions: Vec<VmAction>,
)
    requires
        call_ensures(
            vm_state::capture,
            (
                Ok::<Vec<u8>, i32>(pic_master),
                Ok::<Vec<u8>, i32>(pic_slave),
                Ok::<Vec<u8>, i32>(ioapic),
                Ok::<Vec<u8>, i32>(pit2),
                Ok::<Vec<u8>, i32>(clock),
            ),
            captured,
        ),
        captured matches Ok(state) ==> call_ensures(vm_state::apply, (&state,), actions),
    ensures
        captured is Ok,
        ({
            let state = captured->Ok_0;
            &&& state.pic_master@ == pic_master@
            &&& state.pic_slave@ == pic_slave@
            &&& state.ioapic@ == ioapic@
            &&& state.pit2@ == pit2@
            &&& state.clock@ == clock@
        }),
        pic_master@.len() == 520 && pic_slave@.len() == 520 && ioapic@.len() == 520 && pit2@.len()
            == 112 && clock@.len() == 48 ==> {
            &&& actions@.len() == 5
            &&& actions@[0] matches VmAction::SetIrqchip(raw) && raw@ == pic_master@
            &&& actions@[1] matches VmAction::SetIrqchip(raw) && raw@ == pic_slave@
            &&& actions@[2] matches VmAction::SetIrqchip(raw) && raw@ == ioapic@
            &&& actions@[3] matches VmAction::SetPit2(raw) && raw@ == pit2@
            &&& actions@[4] matches VmAction::SetClock(raw) && raw@ == clock@
        },
{
    let state = captured->Ok_0;
    vm_state::law_each_blob_decides_for_itself(state);
    let said = vm_state::steps_view(actions@);
    assert(said == vm_state::apply_plan(state));
    if pic_master@.len() == 520 && pic_slave@.len() == 520 && ioapic@.len() == 520 && pit2@.len()
        == 112 && clock@.len() == 48 {
        assert(said.len() == 5);
        assert(said[0] == actions@[0]@ && said[1] == actions@[1]@ && said[2] == actions@[2]@
            && said[3] == actions@[3]@ && said[4] == actions@[4]@);
    }
}

/// vCPU state that is captured and applied again: nothing is refused, the registers are set to the
/// bytes that were read, and the tables that are set hold the entries that were read.
pub proof fn law_captured_vcpu_state_is_applied(
    vcpu_id: u8,
    regs: &[u8],
    sregs: &[u8],
    cpuid: &[CpuidEntry],
    msrs: &[MsrEntry],
    xcrs: &[u8],
    state: VcpuStateData,
    applied: (Vec<VcpuAction>, Option<VcpuStateError>),
)
    requires
        regs@.len() == 144,
        sregs@.len() == 312,
        0 < cpuid@.len() <= 256,
        0 < msrs@.len() <= 256,
        xcrs@.len() == 392,
        call_ensures(vcpu_state::capture, (vcpu_id, regs, sregs, cpuid, msrs, xcrs), state),
        call_ensures(vcpu_state::apply, (&state,), applied),
    ensures
        state.vcpu_id == vcpu_id,
        applied.1 is None,
        applied.0@.len() == 5,
        applied.0@[0] matches VcpuAction::SetCpuid2(table) && vcpu_state::cpuid_table_entries(table)
            == cpuid@,
        applied.0@[1] matches VcpuAction::SetSregs(raw) && raw@ == sregs@,
        applied.0@[2] matches VcpuAction::SetRegs(raw) && raw@ == regs@,
        applied.0@[3] matches VcpuAction::SetMsrs(table) && vcpu_state::msr_table_entries(table)
            == msrs@,
        applied.0@[4] matches VcpuAction::SetXcrs(raw) && raw@ == xcrs@,
{
    vcpu_state::law_state_is_refused_only_for_its_lengths(state);
    let said = vcpu_state::steps_view(applied.0@);
    assert(said == vcpu_state::apply_plan(state).0);
    assert(said.len() == 5);
    assert(said[0] == applied.0@[0]@ && said[1] == applied.0@[1]@ && said[2] == applied.0@[2]@
        && said[3] == applied.0@[3]@ && said[4] == applied.0@[4]@);
}

/// A UART that is encoded and decoded again is the same, register by register, with the same FIFO.
pub proof fn law_encoded_uart_is_decoded(
    state: SerialState,
    encoded: Vec<u8>,
    bytes: &[u8],
    decoded: Result<Option<SerialState>, SerialStateError>,
)
    requires
        state.in_buffer@.len() <= 65536,
        call_ensures(encode_serial_state, (&state,), encoded),
        bytes@ == encoded@,
        call_ensures(decode_serial_state, (bytes,), decoded),
    ensures
        decoded matches Ok(Some(got)) && got.baud_divisor_low == state.baud_divisor_low
            && got.baud_divisor_high == state.baud_divisor_high && got.interrupt_enable
            == state.interrupt_enable && got.interrupt_identification
            == state.interrupt_identification && got.line_control == state.line_control
            && got.line_status == state.line_status && got.modem_control == state.modem_control
            && got.modem_status == state.modem_status && got.scratch == state.scratch
            && got.in_buffer@ == state.in_buffer@,
{
    super::serial_state::law_serial_decode_undoes_encode(state@);
}

/// Network devices that are encoded and decoded again are the same, field by field.
pub proof fn law_encoded_devices_are_decoded(
    state: VirtioNetState,
    encoded: Vec<u8>,
    bytes: &[u8],
    decoded: Result<VirtioNetState, VirtioNetStateError>,
    i: int,
)
    requires
        state.devices@.len() <= u32::MAX,
        forall|k: int|
            0 <= k < state.devices@.len() ==> round_trip::device_fits(#[trigger] state.devices@[k]),
        call_ensures(virtio_net_state::encode, (&state,), encoded),
        bytes@ == encoded@,
        call_ensures(virtio_net_state::decode, (bytes,), decoded),
    ensures
        decoded is Ok,
        (decoded->Ok_0).devices@.len() == state.devices@.len(),
        0 <= i < state.devices@.len() ==> {
            let got = (decoded->Ok_0).devices@[i];
            let given = state.devices@[i];
            &&& got.iface_id@ == given.iface_id@
            &&& got.host_dev_name@ == given.host_dev_name@
            &&& got.guest_mac is Some <==> given.guest_mac is Some
            &&& got.guest_mac is Some ==> (got.guest_mac->0)@ == (given.guest_mac->0)@
            &&& got.num_queues == given.num_queues
            &&& got.queue_size == given.queue_size
            &&& got.acked_features == given.acked_features
            &&& got.queues@ == given.queues@
        },
{
    assert forall|k: int| 0 <= k < state@.len() implies virtio_net_state::device_fits(
        #[trigger] state@[k],
    ) by {
        assert(round_trip::device_fits(state.devices@[k]));
    }
    virtio_net_state::law_decode_undoes_encode(state@);
    let got = decoded->Ok_0;
    assert(got@.len() == state@.len());
    if 0 <= i < state.devices@.len() {
        assert(got@[i] == got.devices@[i]@);
        assert(state@[i] == state.devices@[i]@);
    }
}

} // verus!
