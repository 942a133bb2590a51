//! VM-level architectural state: the interrupt controllers, the timer and the clock.
//!
//! The KVM calls themselves are the caller's: [`capture`] takes what they gave, and [`apply`]
//! says which to make.
use vstd::prelude::*;

use super::vcpu_state::VcpuStateError;

verus! {

/// VM-level architectural state, each field the raw bytes of one KVM structure.
#[derive(Debug, Clone)]
pub struct VmStateData {
    /// The master 8259 PIC.
    pub pic_master: Vec<u8>,
    /// The slave 8259 PIC.
    pub pic_slave: Vec<u8>,
    /// The IOAPIC.
    pub ioapic: Vec<u8>,
    /// The in-kernel PIT.
    pub pit2: Vec<u8>,
    /// The wall-clock anchor.
    pub clock: Vec<u8>,
}

impl View for VmStateData {
    type V = Seq<Seq<u8>>;

    /// The five blobs in file order.
    open spec fn view(&self) -> Seq<Seq<u8>> {
        seq![self.pic_master@, self.pic_slave@, self.ioapic@, self.pit2@, self.clock@]
    }
}

impl Default for VmStateData {
    fn default() -> (r: Self)
        ensures
            r@ == seq![
                Seq::<u8>::empty(),
                Seq::<u8>::empty(),
                Seq::<u8>::empty(),
                Seq::<u8>::empty(),
                Seq::<u8>::empty(),
            ],
    {
        VmStateData {
            pic_master: Vec::new(),
            pic_slave: Vec::new(),
            ioapic: Vec::new(),
            pit2: Vec::new(),
            clock: Vec::new(),
        }
    }
}

/// Size of `kvm_irqchip`.
pub const IRQCHIP_LEN: usize = 520;

/// Size of `kvm_pit_state2`.
pub const PIT2_LEN: usize = 112;

/// Size of `kvm_clock_data`.
pub const CLOCK_LEN: usize = 48;

/// What a KVM call read, or nothing where the VM lacks the device.
pub open spec fn best_effort(read: Result<Vec<u8>, i32>) -> Seq<u8> {
    match read {
        Ok(raw) => raw@,
        Err(_) => Seq::empty(),
    }
}

/// What a KVM call read, or nothing where the VM lacks the device.
fn or_empty(read: Result<Vec<u8>, i32>) -> (r: Vec<u8>)
    ensures
        r@ == best_effort(read),
{
    match read {
        Ok(raw) => raw,
        Err(_) => Vec::new(),
    }
}

/// The VM-level state out of what KVM has read, each a raw structure or the error number of the
/// call. A VM may lack the interrupt controllers and the timer: what could not be read of them is
/// recorded as empty. The clock is always there, so its failure is an error.
pub fn capture(
    pic_master: Result<Vec<u8>, i32>,
    pic_slave: Result<Vec<u8>, i32>,
    ioapic: Result<Vec<u8>, i32>,
    pit2: Result<Vec<u8>, i32>,
    clock: Result<Vec<u8>, i32>,
) -> (r: Result<VmStateData, VcpuStateError>)
    ensures
        match clock {
            Err(errno) => r == Err::<VmStateData, VcpuStateError>(VcpuStateError::Kvm(errno)),
            Ok(raw) => r matches Ok(state) && state@ == seq![
                best_effort(pic_master),
                best_effort(pic_slave),
                best_effort(ioapic),
                best_effort(pit2),
                raw@,
            ],
        },
        r is Ok <==> clock is Ok,
        r matches Ok(state) ==> {
            &&& pic_master matches Ok(raw) ==> state.pic_master@ == raw@
            &&& pic_slave matches Ok(raw) ==> state.pic_slave@ == raw@
            &&& ioapic matches Ok(raw) ==> state.ioapic@ == raw@
            &&& pit2 matches Ok(raw) ==> state.pit2@ == raw@
            &&& clock matches Ok(raw) ==> state.clock@ == raw@
            &&& pic_master is Err ==> state.pic_master@.len() == 0
            &&& pic_slave is Err ==> state.pic_slave@.len() == 0
            &&& ioapic is Err ==> state.ioapic@.len() == 0
            &&& pit2 is Err ==> state.pit2@.len() == 0
        },
{
    let pic_master = or_empty(pic_master);
    let pic_slave = or_empty(pic_slave);
    let ioapic = or_empty(ioapic);
    let pit2 = or_empty(pit2);
    match clock {
        Ok(clock) => Ok(VmStateData { pic_master, pic_slave, ioapic, pit2, clock }),
        Err(errno) => Err(VcpuStateError::Kvm(errno)),
    }
}

/// A KVM call to make on a VM, with the raw structure it takes.
#[derive(Debug, Clone, PartialEq, Eq)]
pub enum VmAction {
    /// `KVM_SET_IRQCHIP`.
    SetIrqchip(Vec<u8>),
    /// `KVM_SET_PIT2`.
    SetPit2(Vec<u8>),
    /// `KVM_SET_CLOCK`.
    SetClock(Vec<u8>),
}

/// What a call sets.
pub enum VmStep {
    Irqchip(Seq<u8>),
    Pit2(Seq<u8>),
    Clock(Seq<u8>),
}

impl View for VmAction {
    type V = VmStep;

    open spec fn view(&self) -> VmStep {
        match *self {
            VmAction::SetIrqchip(raw) => VmStep::Irqchip(raw@),
            VmAction::SetPit2(raw) => VmStep::Pit2(raw@),
            VmAction::SetClock(raw) => VmStep::Clock(raw@),
        }
    }
}

/// What the calls set, in order.
pub open spec fn steps_view(actions: Seq<VmAction>) -> Seq<VmStep> {
    Seq::new(actions.len(), |i: int| actions[i]@)
}

/// `step`, if its blob has the length of the structure.
pub open spec fn only_if(fits: bool, step: VmStep) -> Seq<VmStep> {
    if fits {
        seq![step]
    } else {
        Seq::empty()
    }
}

/// The calls that apply a VM-level state. A blob of another length than the structure's is left
/// out, as one that was not captured is.
pub open spec fn apply_plan(state: VmStateData) -> Seq<VmStep> {
    only_if(state.pic_master@.len() == IRQCHIP_LEN, VmStep::Irqchip(state.pic_master@)) + only_if(
        state.pic_slave@.len() == IRQCHIP_LEN,
        VmStep::Irqchip(state.pic_slave@),
    ) + only_if(state.ioapic@.len() == IRQCHIP_LEN, VmStep::Irqchip(state.ioapic@)) + only_if(
        state.pit2@.len() == PIT2_LEN,
        VmStep::Pit2(state.pit2@),
    ) + only_if(state.clock@.len() == CLOCK_LEN, VmStep::Clock(state.clock@))
}

/// Adds a call to set an interrupt controller, if the blob has its length.
fn add_irqchip(actions: &mut Vec<VmAction>, blob: &Vec<u8>)
    ensures
        steps_view(final(actions)@) == steps_view(old(actions)@) + only_if(
            blob@.len() == IRQCHIP_LEN,
            VmStep::Irqchip(blob@),
        ),
{
    if blob.len() == IRQCHIP_LEN {
        actions.push(VmAction::SetIrqchip(vstd::slice::slice_to_vec(blob.as_slice())));
    }
    assert(steps_view(actions@) =~= steps_view(old(actions)@) + only_if(
        blob@.len() == IRQCHIP_LEN,
        VmStep::Irqchip(blob@),
    ));
}

/// The calls that apply `state` to a VM, in order.
pub fn apply(state: &VmStateData) -> (r: Vec<VmAction>)
    ensures
        steps_view(r@) == apply_plan(*state),
        forall|i: int|
            0 <= i < r@.len() ==> match #[trigger] r@[i] {
                VmAction::SetIrqchip(raw) => raw@.len() == 520 && (raw@ == state.pic_master@ || raw@
                    == state.pic_slave@ || raw@ == state.ioapic@),
                VmAction::SetPit2(raw) => raw@.len() == 112 && raw@ == state.pit2@,
                VmAction::SetClock(raw) => raw@.len() == 48 && raw@ == state.clock@,
            },
{
    let mut actions: Vec<VmAction> = Vec::new();
    add_irqchip(&mut actions, &state.pic_master);
    add_irqchip(&mut actions, &state.pic_slave);
    add_irqchip(&mut actions, &state.ioapic);
    let ghost chips = steps_view(actions@);
    if state.pit2.len() == PIT2_LEN {
        actions.push(VmAction::SetPit2(vstd::slice::slice_to_vec(state.pit2.as_slice())));
    }
    if state.clock.len() == CLOCK_LEN {
        actions.push(VmAction::SetClock(vstd::slice::slice_to_vec(state.clock.as_slice())));
    }
    assert(steps_view(actions@) =~= chips + only_if(
        state.pit2@.len() == PIT2_LEN,
        VmStep::Pit2(state.pit2@),
    ) + only_if(state.clock@.len() == CLOCK_LEN, VmStep::Clock(state.clock@)));
    assert(steps_view(actions@) =~= apply_plan(*state));
    proof {
        assert forall|i: int| 0 <= i < actions@.len() implies match #[trigger] actions@[i] {
            VmAction::SetIrqchip(raw) => raw@.len() == 520 && (raw@ == state.pic_master@ || raw@
                == state.pic_slave@ || raw@ == state.ioapic@),
            VmAction::SetPit2(raw) => raw@.len() == 112 && raw@ == state.pit2@,
            VmAction::SetClock(raw) => raw@.len() == 48 && raw@ == state.clock@,
        } by {
            assert(steps_view(actions@)[i] == actions@[i]@);
            law_each_blob_decides_for_itself(*state);
        }
    }
    actions
}

/// The VM-level state of a machine other than x86_64: nothing is recorded.
pub fn capture_nothing() -> (r: VmStateData)
    ensures
        r@ == seq![
            Seq::<u8>::empty(),
            Seq::<u8>::empty(),
            Seq::<u8>::empty(),
            Seq::<u8>::empty(),
            Seq::<u8>::empty(),
        ],
{
    VmStateData::default()
}

/// The calls that apply a VM-level state on a machine other than x86_64: none.
pub fn apply_nothing(_state: &VmStateData) -> (r: Vec<VmAction>)
    ensures
        r@ == Seq::<VmAction>::empty(),
{
    Vec::new()
}

/// A state with every structure in full is applied in full: the three interrupt controllers, the
/// timer, the clock, in this order.
pub proof fn law_full_state_is_applied_in_full(state: VmStateData)
    requires
        state.pic_master@.len() == IRQCHIP_LEN,
        state.pic_slave@.len() == IRQCHIP_LEN,
        state.ioapic@.len() == IRQCHIP_LEN,
        state.pit2@.len() == PIT2_LEN,
        state.clock@.len() == CLOCK_LEN,
    ensures
        apply_plan(state) == seq![
            VmStep::Irqchip(state.pic_master@),
            VmStep::Irqchip(state.pic_slave@),
            VmStep::Irqchip(state.ioapic@),
            VmStep::Pit2(state.pit2@),
            VmStep::Clock(state.clock@),
        ],
{
    assert(apply_plan(state) =~= seq![
        VmStep::Irqchip(state.pic_master@),
        VmStep::Irqchip(state.pic_slave@),
        VmStep::Irqchip(state.ioapic@),
        VmStep::Pit2(state.pit2@),
        VmStep::Clock(state.clock@),
    ]);
}

/// A state that records nothing is applied without a call.
pub proof fn law_empty_state_is_skipped(state: VmStateData)
    requires
        state.pic_master@.len() == 0,
        state.pic_slave@.len() == 0,
        state.ioapic@.len() == 0,
        state.pit2@.len() == 0,
        state.clock@.len() == 0,
    ensures
        apply_plan(state).len() == 0,
{
}

/// One for a blob of the given length, and none for any other.
pub open spec fn counted(blob: Seq<u8>, len: nat) -> int {
    if blob.len() == len {
        1
    } else {
        0
    }
}

/// Each blob decides for itself whether it is applied: there is a call for every blob that has the
/// length of its structure, whatever the others are, with that blob, and for no other. The
/// interrupt controllers come first, the master before the slave and the slave before the IOAPIC,
/// then the timer, then the clock.
pub proof fn law_each_blob_decides_for_itself(state: VmStateData)
    ensures
        ({
            let plan = apply_plan(state);
            let a = counted(state.pic_master@, 520);
            let b = a + counted(state.pic_slave@, 520);
            let c = b + counted(state.ioapic@, 520);
            let d = c + counted(state.pit2@, 112);
            &&& plan.len() == d + counted(state.clock@, 48)
            &&& state.pic_master@.len() == 520 ==> plan[0] == VmStep::Irqchip(state.pic_master@)
            &&& state.pic_slave@.len() == 520 ==> plan[a] == VmStep::Irqchip(state.pic_slave@)
            &&& state.ioapic@.len() == 520 ==> plan[b] == VmStep::Irqchip(state.ioapic@)
            &&& state.pit2@.len() == 112 ==> plan[c] == VmStep::Pit2(state.pit2@)
            &&& state.clock@.len() == 48 ==> plan[d] == VmStep::Clock(state.clock@)
        }),
{
}

/// Applying undoes capturing. A state that was captured where KVM read all five structures holds
/// the bytes that were read, field by field and whatever their lengths; where they have the sizes
/// of the structures, applying the state makes five calls, with those bytes.
pub proof fn law_apply_undoes_capture(
    pic_master: Vec<u8>,
    pic_slave: Vec<u8>,
    ioapic: Vec<u8>,
    pit2: Vec<u8>,
    clock: Vec<u8>,
    state: VmStateData,
)
    requires
        state@ == seq![
            best_effort(Ok(pic_master)),
            best_effort(Ok(pic_slave)),
            best_effort(Ok(ioapic)),
            best_effort(Ok(pit2)),
            clock@,
        ],
    ensures
        state.pic_master@ == pic_master@,
        state.pic_slave@ == pic_slave@,
        state.ioapic@ == ioapic@,
        state.pit2@ == pit2@,
        state.clock@ == clock@,
        pic_master@.len() == 520 && pic_slave@.len() == 520 && ioapic@.len() == 520 && pit2@.len()
            == 112 && clock@.len() == 48 ==> apply_plan(state) == seq![
            VmStep::Irqchip(pic_master@),
            VmStep::Irqchip(pic_slave@),
            VmStep::Irqchip(ioapic@),
            VmStep::Pit2(pit2@),
            VmStep::Clock(clock@),
        ],
{
    assert(state@[0] == pic_master@ && state@[1] == pic_slave@ && state@[2] == ioapic@ && state@[3]
        == pit2@ && state@[4] == clock@);
    if pic_master@.len() == 520 && pic_slave@.len() == 520 && ioapic@.len() == 520 && pit2@.len()
        == 112 && clock@.len() == 48 {
        law_full_state_is_applied_in_full(state);
    }
}

/// What KVM could not read is recorded as nothing, and what is recorded as nothing is not applied.
pub proof fn law_what_is_not_read_is_not_applied(
    pit2: i32,
    clock: Vec<u8>,
    pic_master: Result<Vec<u8>, i32>,
    pic_slave: Result<Vec<u8>, i32>,
    ioapic: Result<Vec<u8>, i32>,
    state: VmStateData,
    i: int,
)
    requires
        state@ == seq![
            best_effort(pic_master),
            best_effort(pic_slave),
            best_effort(ioapic),
            best_effort(Err(pit2)),
            clock@,
        ],
        0 <= i < apply_plan(state).len(),
    ensures
        state.pit2@.len() == 0,
        !(apply_plan(state)[i] is Pit2),
        pic_master is Err && pic_slave is Err && ioapic is Err ==> apply_plan(state)
            == seq![VmStep::Clock(clock@)],
{
    assert(state@[0] == best_effort(pic_master) && state@[1] == best_effort(pic_slave) && state@[2]
        == best_effort(ioapic) && state@[3] == best_effort(Err(pit2)) && state@[4] == clock@);
    law_each_blob_decides_for_itself(state);
    if pic_master is Err && pic_slave is Err && ioapic is Err {
        assert(apply_plan(state) =~= seq![VmStep::Clock(clock@)]);
    }
}

/// What is said of calls is said of each, in order, with the bytes that it takes.
pub proof fn law_calls_are_told_in_full(actions: Seq<VmAction>, i: int)
    ensures
        steps_view(actions).len() == actions.len(),
        0 <= i < actions.len() ==> match actions[i] {
            VmAction::SetIrqchip(raw) => steps_view(actions)[i] == VmStep::Irqchip(raw@),
            VmAction::SetPit2(raw) => steps_view(actions)[i] == VmStep::Pit2(raw@),
            VmAction::SetClock(raw) => steps_view(actions)[i] == VmStep::Clock(raw@),
        },
{
}

} // verus!
