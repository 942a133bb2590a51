//! Per-vCPU register state: capturing it from a paused vCPU and applying it to another.
//!
//! The KVM calls themselves are the caller's. Before a capture the caller asks for an MSR request
//! table, lets KVM fill it in, and hands the results to [`capture`]. [`apply`] gives the calls to
//! make, in order, and the fault that ends them, if any; a KVM call that fails ends them early.
use vstd::prelude::*;
use vstd::string::*;

use kvm_bindings::{kvm_cpuid_entry2, kvm_msr_entry, CpuId, Msrs};

use crate::text;
use crate::wire;

verus! {

broadcast use wire::field_widths;

/// Register state of a paused vCPU. Every field but the id is the raw bytes of one or more KVM
/// structures.
#[derive(Debug, Clone)]
pub struct VcpuStateData {
    /// Logical vCPU id.
    pub vcpu_id: u8,
    /// `kvm_regs`.
    pub regs: Vec<u8>,
    /// `kvm_sregs`.
    pub sregs: Vec<u8>,
    /// `kvm_msr_entry` records, one behind the other.
    pub msrs: Vec<u8>,
    /// `kvm_cpuid_entry2` records, one behind the other.
    pub cpuid_entries: Vec<u8>,
    /// `kvm_lapic_state`.
    pub lapic: Vec<u8>,
    /// `kvm_xsave`.
    pub xsave: Vec<u8>,
    /// `kvm_vcpu_events`.
    pub vcpu_events: Vec<u8>,
    /// `kvm_mp_state`.
    pub mp_state: Vec<u8>,
    /// `kvm_xcrs`.
    pub xcrs: Vec<u8>,
}

/// What a vCPU record says: the id and the nine blobs in file order.
pub struct VcpuRecord {
    pub vcpu_id: u8,
    pub blobs: Seq<Seq<u8>>,
}

impl View for VcpuStateData {
    type V = VcpuRecord;

    open spec fn view(&self) -> VcpuRecord {
        VcpuRecord {
            vcpu_id: self.vcpu_id,
            blobs: seq![
                self.regs@,
                self.sregs@,
                self.msrs@,
                self.cpuid_entries@,
                self.lapic@,
                self.xsave@,
                self.vcpu_events@,
                self.mp_state@,
                self.xcrs@,
            ],
        }
    }
}

impl Default for VcpuStateData {
    fn default() -> (r: Self)
        ensures
            r.vcpu_id == 0,
            r@.blobs == Seq::new(9, |i: int| Seq::<u8>::empty()),
    {
        let r = VcpuStateData {
            vcpu_id: 0,
            regs: Vec::new(),
            sregs: Vec::new(),
            msrs: Vec::new(),
            cpuid_entries: Vec::new(),
            lapic: Vec::new(),
            xsave: Vec::new(),
            vcpu_events: Vec::new(),
            mp_state: Vec::new(),
            xcrs: Vec::new(),
        };
        assert(r@.blobs =~= Seq::new(9, |i: int| Seq::<u8>::empty()));
        r
    }
}

/// Errors of capturing and applying vCPU state.
#[derive(Debug, Clone, PartialEq, Eq)]
pub enum VcpuStateError {
    /// A KVM call failed with this error number.
    Kvm(i32),
    /// A register block could not be built.
    BuildMsrs(String),
}

/// What an error says.
pub enum VcpuFault {
    Kvm(i32),
    BuildMsrs(Seq<char>),
}

impl View for VcpuStateError {
    type V = VcpuFault;

    open spec fn view(&self) -> VcpuFault {
        match *self {
            VcpuStateError::Kvm(errno) => VcpuFault::Kvm(errno),
            VcpuStateError::BuildMsrs(why) => VcpuFault::BuildMsrs(why@),
        }
    }
}

/// A model-specific register and its value.
#[derive(Debug, Clone, Copy, PartialEq, Eq, Structural)]
pub struct MsrEntry {
    pub index: u32,
    pub reserved: u32,
    pub data: u64,
}

/// One leaf of the CPUID layout.
#[derive(Debug, Clone, Copy, PartialEq, Eq, Structural)]
pub struct CpuidEntry {
    pub function: u32,
    pub index: u32,
    pub flags: u32,
    pub eax: u32,
    pub ebx: u32,
    pub ecx: u32,
    pub edx: u32,
    pub padding0: u32,
    pub padding1: u32,
    pub padding2: u32,
}

/// Size of `kvm_regs`.
pub const REGS_LEN: usize = 144;

/// Size of `kvm_sregs`.
pub const SREGS_LEN: usize = 312;

/// Size of `kvm_xcrs`.
pub const XCRS_LEN: usize = 392;

/// Size of `kvm_msr_entry`.
pub const MSR_ENTRY_LEN: usize = 16;

/// Size of `kvm_cpuid_entry2`.
pub const CPUID_ENTRY_LEN: usize = 40;

/// Most entries that KVM takes in one MSR or CPUID table.
pub const MAX_TABLE_ENTRIES: usize = 256;

/// An MSR table in the form that KVM takes.
#[verifier::external_body]
pub struct MsrTable {
    pub inner: Msrs,
}

/// A CPUID table in the form that KVM takes.
#[verifier::external_body]
pub struct CpuidTable {
    pub inner: CpuId,
}

/// The entries that an MSR table holds, in order.
pub uninterp spec fn msr_table_entries(table: MsrTable) -> Seq<MsrEntry>;

/// The entries that a CPUID table holds, in order.
pub uninterp spec fn cpuid_table_entries(table: CpuidTable) -> Seq<CpuidEntry>;

/// Calls `kvm_bindings::Msrs::from_entries`: a table of the given entries, refused with
/// `SizeLimitExceeded` exactly where there are more than 256.
#[verifier::external_body]
fn msr_table(entries: &[MsrEntry]) -> (r: Result<MsrTable, String>)
    ensures
        r is Ok <==> entries@.len() <= MAX_TABLE_ENTRIES,
        r matches Ok(table) ==> msr_table_entries(table) == entries@,
        r matches Err(why) ==> why@ == "SizeLimitExceeded"@,
{
    let raw: Vec<kvm_msr_entry> = entries
        .iter()
        .map(|e| kvm_msr_entry { index: e.index, reserved: e.reserved, data: e.data })
        .collect();
    Msrs::from_entries(&raw).map(|inner| MsrTable { inner }).map_err(|e| format!("{e:?}"))
}

/// Calls `kvm_bindings::Msrs::as_slice`: the entries of the table, in order.
#[verifier::external_body]
fn msr_entries(table: &MsrTable) -> (r: Vec<MsrEntry>)
    ensures
        r@ == msr_table_entries(*table),
{
    table
        .inner
        .as_slice()
        .iter()
        .map(|e| MsrEntry { index: e.index, reserved: e.reserved, data: e.data })
        .collect()
}

/// Calls `kvm_bindings::CpuId::from_entries`: a table of the given entries, refused with
/// `SizeLimitExceeded` exactly where there are more than 256.
#[verifier::external_body]
fn cpuid_table(entries: &[CpuidEntry]) -> (r: Result<CpuidTable, String>)
    ensures
        r is Ok <==> entries@.len() <= MAX_TABLE_ENTRIES,
        r matches Ok(table) ==> cpuid_table_entries(table) == entries@,
        r matches Err(why) ==> why@ == "SizeLimitExceeded"@,
{
    let raw: Vec<kvm_cpuid_entry2> = entries
        .iter()
        .map(|e| kvm_cpuid_entry2 {
            function: e.function, index: e.index, flags: e.flags,
            eax: e.eax, ebx: e.ebx, ecx: e.ecx, edx: e.edx,
            padding: [e.padding0, e.padding1, e.padding2],
        })
        .collect();
    CpuId::from_entries(&raw).map(|inner| CpuidTable { inner }).map_err(|e| format!("{e:?}"))
}

// ---------------------------------------------------------------------------
// Entries as bytes.
// ---------------------------------------------------------------------------

/// The bytes of a `kvm_msr_entry`.
pub open spec fn msr_bytes(e: MsrEntry) -> Seq<u8> {
    wire::le32(e.index) + wire::le32(e.reserved) + wire::le64(e.data)
}

/// `kvm_msr_entry` records, one behind the other.
pub open spec fn msrs_bytes(entries: Seq<MsrEntry>) -> Seq<u8>
    decreases entries.len(),
{
    if entries.len() == 0 {
        Seq::empty()
    } else {
        msrs_bytes(entries.drop_last()) + msr_bytes(entries.last())
    }
}

/// The bytes of a `kvm_cpuid_entry2`.
pub open spec fn cpuid_bytes(e: CpuidEntry) -> Seq<u8> {
    wire::le32(e.function) + wire::le32(e.index) + wire::le32(e.flags) + wire::le32(e.eax)
        + wire::le32(e.ebx) + wire::le32(e.ecx) + wire::le32(e.edx) + wire::le32(e.padding0)
        + wire::le32(e.padding1) + wire::le32(e.padding2)
}

/// `kvm_cpuid_entry2` records, one behind the other.
pub open spec fn cpuids_bytes(entries: Seq<CpuidEntry>) -> Seq<u8>
    decreases entries.len(),
{
    if entries.len() == 0 {
        Seq::empty()
    } else {
        cpuids_bytes(entries.drop_last()) + cpuid_bytes(entries.last())
    }
}

/// The `kvm_msr_entry` at `at`.
pub open spec fn msr_at(b: Seq<u8>, at: int) -> MsrEntry {
    MsrEntry {
        index: wire::at32(b, at),
        reserved: wire::at32(b, at + 4),
        data: wire::at64(b, at + 8),
    }
}

/// The `kvm_msr_entry` records that make up `b`.
pub open spec fn msrs_in(b: Seq<u8>) -> Seq<MsrEntry> {
    Seq::new(b.len() / 16, |i: int| msr_at(b, 16 * i))
}

/// The `kvm_cpuid_entry2` at `at`.
pub open spec fn cpuid_at(b: Seq<u8>, at: int) -> CpuidEntry {
    CpuidEntry {
        function: wire::at32(b, at),
        index: wire::at32(b, at + 4),
        flags: wire::at32(b, at + 8),
        eax: wire::at32(b, at + 12),
        ebx: wire::at32(b, at + 16),
        ecx: wire::at32(b, at + 20),
        edx: wire::at32(b, at + 24),
        padding0: wire::at32(b, at + 28),
        padding1: wire::at32(b, at + 32),
        padding2: wire::at32(b, at + 36),
    }
}

/// The `kvm_cpuid_entry2` records that make up `b`.
pub open spec fn cpuids_in(b: Seq<u8>) -> Seq<CpuidEntry> {
    Seq::new(b.len() / 40, |i: int| cpuid_at(b, 40 * i))
}

/// The bytes of `entries`.
fn msrs_to_bytes(entries: &[MsrEntry]) -> (r: Vec<u8>)
    ensures
        r@ == msrs_bytes(entries@),
{
    let mut out: Vec<u8> = Vec::new();
    assert(entries@.take(0) =~= Seq::empty());
    for i in 0..entries.len()
        invariant
            out@ =~= msrs_bytes(entries@.take(i as int)),
    {
        let ghost had = out@;
        wire::put_u32(&mut out, entries[i].index);
        wire::put_u32(&mut out, entries[i].reserved);
        wire::put_u64(&mut out, entries[i].data);
        proof {
            assert(out@ =~= had + msr_bytes(entries@[i as int]));
            assert(entries@.take(i + 1).drop_last() =~= entries@.take(i as int));
        }
    }
    assert(entries@.take(entries@.len() as int) =~= entries@);
    out
}

/// Appends the bytes of one entry.
fn put_cpuid(out: &mut Vec<u8>, e: &CpuidEntry)
    ensures
        final(out)@ == old(out)@ + cpuid_bytes(*e),
{
    wire::put_u32(out, e.function);
    wire::put_u32(out, e.index);
    wire::put_u32(out, e.flags);
    wire::put_u32(out, e.eax);
    wire::put_u32(out, e.ebx);
    wire::put_u32(out, e.ecx);
    wire::put_u32(out, e.edx);
    wire::put_u32(out, e.padding0);
    wire::put_u32(out, e.padding1);
    wire::put_u32(out, e.padding2);
    assert(out@ =~= old(out)@ + cpuid_bytes(*e));
}

/// The bytes of `entries`.
fn cpuids_to_bytes(entries: &[CpuidEntry]) -> (r: Vec<u8>)
    ensures
        r@ == cpuids_bytes(entries@),
{
    let mut out: Vec<u8> = Vec::new();
    assert(entries@.take(0) =~= Seq::empty());
    for i in 0..entries.len()
        invariant
            out@ =~= cpuids_bytes(entries@.take(i as int)),
    {
        put_cpuid(&mut out, &entries[i]);
        assert(entries@.take(i + 1).drop_last() =~= entries@.take(i as int));
    }
    assert(entries@.take(entries@.len() as int) =~= entries@);
    out
}

/// The records that make up `b`.
fn bytes_to_msrs(b: &[u8]) -> (r: Vec<MsrEntry>)
    ensures
        r@ == msrs_in(b@),
{
    let count: usize = b.len() / MSR_ENTRY_LEN;
    let mut out: Vec<MsrEntry> = Vec::new();
    for i in 0..count
        invariant
            count == b@.len() / 16,
            b@.len() <= usize::MAX,
            out@ =~= msrs_in(b@).take(i as int),
    {
        let at: usize = MSR_ENTRY_LEN * i;
        out.push(
            MsrEntry {
                index: wire::get_u32(b, at),
                reserved: wire::get_u32(b, at + 4),
                data: wire::get_u64(b, at + 8),
            },
        );
    }
    assert(msrs_in(b@).take(count as int) =~= msrs_in(b@));
    out
}

/// The records that make up `b`.
fn bytes_to_cpuids(b: &[u8]) -> (r: Vec<CpuidEntry>)
    ensures
        r@ == cpuids_in(b@),
{
    let count: usize = b.len() / CPUID_ENTRY_LEN;
    let mut out: Vec<CpuidEntry> = Vec::new();
    for i in 0..count
        invariant
            count == b@.len() / 40,
            b@.len() <= usize::MAX,
            out@ =~= cpuids_in(b@).take(i as int),
    {
        let at: usize = CPUID_ENTRY_LEN * i;
        out.push(
            CpuidEntry {
                function: wire::get_u32(b, at),
                index: wire::get_u32(b, at + 4),
                flags: wire::get_u32(b, at + 8),
                eax: wire::get_u32(b, at + 12),
                ebx: wire::get_u32(b, at + 16),
                ecx: wire::get_u32(b, at + 20),
                edx: wire::get_u32(b, at + 24),
                padding0: wire::get_u32(b, at + 28),
                padding1: wire::get_u32(b, at + 32),
                padding2: wire::get_u32(b, at + 36),
            },
        );
    }
    assert(cpuids_in(b@).take(count as int) =~= cpuids_in(b@));
    out
}

// ---------------------------------------------------------------------------
// Capture.
// ---------------------------------------------------------------------------

/// A request for the registers with the given indices.
pub open spec fn blank_entries(indices: Seq<u32>) -> Seq<MsrEntry> {
    Seq::new(indices.len(), |i: int| MsrEntry { index: indices[i], reserved: 0, data: 0 })
}

/// The MSR table to have KVM fill in: one blank entry per index.
pub fn msr_request(msr_indices: &[u32]) -> (r: Result<MsrTable, VcpuStateError>)
    ensures
        r is Ok <==> msr_indices@.len() <= MAX_TABLE_ENTRIES,
        r matches Ok(table) ==> msr_table_entries(table) == blank_entries(msr_indices@),
        r matches Ok(table) ==> msr_table_entries(table).len() == msr_indices@.len() && forall|i: int|
            0 <= i < msr_indices@.len() ==> (#[trigger] msr_table_entries(table)[i]).index
                == msr_indices@[i] && msr_table_entries(table)[i].data == 0,
        r matches Err(e) ==> e@ == VcpuFault::BuildMsrs("SizeLimitExceeded"@),
{
    let mut entries: Vec<MsrEntry> = Vec::new();
    for i in 0..msr_indices.len()
        invariant
            entries@ =~= blank_entries(msr_indices@).take(i as int),
    {
        entries.push(MsrEntry { index: msr_indices[i], reserved: 0, data: 0 });
    }
    assert(blank_entries(msr_indices@).take(msr_indices@.len() as int) =~= blank_entries(
        msr_indices@,
    ));
    match msr_table(entries.as_slice()) {
        Ok(table) => Ok(table),
        Err(why) => Err(VcpuStateError::BuildMsrs(why)),
    }
}

impl MsrTable {
    /// The first `read` entries, as many as KVM says it has filled in; `None` where the table
    /// does not hold that many.
    pub fn filled(&self, read: usize) -> (r: Option<Vec<MsrEntry>>)
        ensures
            r is Some <==> read <= msr_table_entries(*self).len(),
            r matches Some(entries) ==> entries@ == msr_table_entries(*self).take(read as int),
    {
        let all: Vec<MsrEntry> = msr_entries(self);
        if read > all.len() {
            return None;
        }
        let mut out: Vec<MsrEntry> = Vec::new();
        for i in 0..read
            invariant
                read <= all@.len(),
                out@ =~= all@.take(i as int),
        {
            out.push(all[i]);
        }
        Some(out)
    }
}

/// The state of a vCPU out of what KVM has read: the raw `kvm_regs` and `kvm_sregs`, the CPUID
/// layout in effect, the MSR entries that were filled in, and the raw `kvm_xcrs`, empty where the
/// vCPU has none. The other blobs stay empty.
pub fn capture(
    vcpu_id: u8,
    regs: &[u8],
    sregs: &[u8],
    cpuid_entries: &[CpuidEntry],
    msr_entries: &[MsrEntry],
    xcrs: &[u8],
) -> (r: VcpuStateData)
    ensures
        r.vcpu_id == vcpu_id,
        r@.blobs == seq![
            regs@,
            sregs@,
            msrs_bytes(msr_entries@),
            cpuids_bytes(cpuid_entries@),
            Seq::<u8>::empty(),
            Seq::<u8>::empty(),
            Seq::<u8>::empty(),
            Seq::<u8>::empty(),
            xcrs@,
        ],
        r.regs@ == regs@,
        r.sregs@ == sregs@,
        r.xcrs@ == xcrs@,
        r.lapic@.len() == 0 && r.xsave@.len() == 0 && r.vcpu_events@.len() == 0
            && r.mp_state@.len() == 0,
        msrs_in(r.msrs@) == msr_entries@ && r.msrs@.len() == 16 * msr_entries@.len(),
        cpuids_in(r.cpuid_entries@) == cpuid_entries@ && r.cpuid_entries@.len() == 40
            * cpuid_entries@.len(),
{
    let mut state = VcpuStateData::default();
    state.vcpu_id = vcpu_id;
    let ghost blank = state@.blobs;
    assert(blank[4].len() == 0 && blank[5].len() == 0 && blank[6].len() == 0 && blank[7].len()
        == 0);
    state.regs = vstd::slice::slice_to_vec(regs);
    state.sregs = vstd::slice::slice_to_vec(sregs);
    state.msrs = msrs_to_bytes(msr_entries);
    state.cpuid_entries = cpuids_to_bytes(cpuid_entries);
    state.xcrs = vstd::slice::slice_to_vec(xcrs);
    assert(state.lapic@ =~= Seq::empty());
    assert(state.xsave@ =~= Seq::empty());
    assert(state.vcpu_events@ =~= Seq::empty());
    assert(state.mp_state@ =~= Seq::empty());
    proof {
        law_msr_bytes_round_trip(msr_entries@);
        law_cpuid_bytes_round_trip(cpuid_entries@);
    }
    state
}

/// The state of a vCPU of a machine other than x86_64, of which nothing but the id is recorded.
pub fn capture_id(vcpu_id: u8) -> (r: VcpuStateData)
    ensures
        r.vcpu_id == vcpu_id,
        r@.blobs == Seq::new(9, |i: int| Seq::<u8>::empty()),
{
    let mut state = VcpuStateData::default();
    state.vcpu_id = vcpu_id;
    assert(state@.blobs =~= Seq::new(9, |i: int| Seq::<u8>::empty()));
    state
}

// ---------------------------------------------------------------------------
// Apply.
// ---------------------------------------------------------------------------

/// A KVM call to make on a vCPU.
pub enum VcpuAction {
    /// `KVM_SET_CPUID2`.
    SetCpuid2(CpuidTable),
    /// `KVM_SET_SREGS`, with the raw `kvm_sregs`.
    SetSregs(Vec<u8>),
    /// `KVM_SET_REGS`, with the raw `kvm_regs`.
    SetRegs(Vec<u8>),
    /// `KVM_SET_MSRS`.
    SetMsrs(MsrTable),
    /// `KVM_SET_XCRS`, with the raw `kvm_xcrs`.
    SetXcrs(Vec<u8>),
}

/// What a call sets.
pub enum VcpuStep {
    Cpuid2(Seq<CpuidEntry>),
    Sregs(Seq<u8>),
    Regs(Seq<u8>),
    Msrs(Seq<MsrEntry>),
    Xcrs(Seq<u8>),
}

impl View for VcpuAction {
    type V = VcpuStep;

    open spec fn view(&self) -> VcpuStep {
        match *self {
            VcpuAction::SetCpuid2(table) => VcpuStep::Cpuid2(cpuid_table_entries(table)),
            VcpuAction::SetSregs(raw) => VcpuStep::Sregs(raw@),
            VcpuAction::SetRegs(raw) => VcpuStep::Regs(raw@),
            VcpuAction::SetMsrs(table) => VcpuStep::Msrs(msr_table_entries(table)),
            VcpuAction::SetXcrs(raw) => VcpuStep::Xcrs(raw@),
        }
    }
}

/// What the calls set, in order.
pub open spec fn steps_view(actions: Seq<VcpuAction>) -> Seq<VcpuStep> {
    Seq::new(actions.len(), |i: int| actions[i]@)
}

/// `what`, `len`, `than` and `size` in one line.
pub open spec fn length_complaint(
    what: Seq<char>,
    len: nat,
    than: Seq<char>,
    size: nat,
) -> Seq<char> {
    what + text::decimal(len) + than + text::decimal(size)
}

/// What is wrong with a blob of entries, if anything. An empty blob stands for "not captured".
pub open spec fn entries_fault(what: Seq<char>, len: nat, size: nat) -> Option<Seq<char>> {
    if len % size != 0 {
        Some(length_complaint(what, len, " not a multiple of entry size "@, size))
    } else if len / size > MAX_TABLE_ENTRIES {
        Some("SizeLimitExceeded"@)
    } else {
        None
    }
}

/// The calls that apply a vCPU state, and the fault that ends them, if any. CPUID comes first:
/// KVM wants it set before the special registers. XCRs of another length than the structure's are
/// left out, as those that were not captured are.
pub open spec fn apply_plan(state: VcpuStateData) -> (Seq<VcpuStep>, Option<Seq<char>>) {
    let cpuid = state.cpuid_entries@;
    let sregs = state.sregs@;
    let regs = state.regs@;
    let msrs = state.msrs@;
    let cpuid_fault = entries_fault("cpuid blob length "@, cpuid.len(), 40);
    let msrs_fault = entries_fault("msrs blob length "@, msrs.len(), 16);
    let first = if cpuid.len() == 0 {
        Seq::empty()
    } else {
        seq![VcpuStep::Cpuid2(cpuids_in(cpuid))]
    };
    let second = first.push(VcpuStep::Sregs(sregs));
    let third = second.push(VcpuStep::Regs(regs));
    if cpuid_fault is Some {
        (Seq::empty(), cpuid_fault)
    } else if sregs.len() != SREGS_LEN {
        (
            first,
            Some(
                length_complaint(
                    "sregs blob length "@,
                    sregs.len(),
                    " != sizeof(kvm_sregs) "@,
                    SREGS_LEN as nat,
                ),
            ),
        )
    } else if regs.len() != REGS_LEN {
        (
            second,
            Some(
                length_complaint(
                    "regs blob length "@,
                    regs.len(),
                    " != sizeof(kvm_regs) "@,
                    REGS_LEN as nat,
                ),
            ),
        )
    } else if msrs_fault is Some {
        (third, msrs_fault)
    } else {
        (
            third + (if msrs.len() == 0 {
                Seq::empty()
            } else {
                seq![VcpuStep::Msrs(msrs_in(msrs))]
            }) + (if state.xcrs@.len() != XCRS_LEN {
                Seq::empty()
            } else {
                seq![VcpuStep::Xcrs(state.xcrs@)]
            }),
            None,
        )
    }
}

/// The complaint about a length.
fn complain(what: &str, len: usize, than: &str, size: usize) -> (r: VcpuStateError)
    ensures
        r@ == VcpuFault::BuildMsrs(length_complaint(what@, len as nat, than@, size as nat)),
{
    let mut out = String::from_str(what);
    text::push_decimal(&mut out, len as u64);
    out.append(than);
    text::push_decimal(&mut out, size as u64);
    VcpuStateError::BuildMsrs(out)
}

/// The calls that apply `state` to a paused vCPU, in order, and the fault that ends them, if any.
/// The calls in front of a fault are still made.
pub fn apply(state: &VcpuStateData) -> (r: (Vec<VcpuAction>, Option<VcpuStateError>))
    ensures
        steps_view(r.0@) == apply_plan(*state).0,
        match apply_plan(*state).1 {
            None => r.1 is None,
            Some(why) => r.1 matches Some(e) && e@ == VcpuFault::BuildMsrs(why),
        },
        r.1 matches Some(e) ==> e is BuildMsrs,
        forall|i: int|
            0 <= i < r.0@.len() ==> match #[trigger] r.0@[i] {
                VcpuAction::SetCpuid2(table) => cpuid_table_entries(table) == cpuids_in(
                    state.cpuid_entries@,
                ),
                VcpuAction::SetSregs(raw) => raw@ == state.sregs@,
                VcpuAction::SetRegs(raw) => raw@ == state.regs@,
                VcpuAction::SetMsrs(table) => msr_table_entries(table) == msrs_in(state.msrs@),
                VcpuAction::SetXcrs(raw) => raw@ == state.xcrs@,
            },
{
    let mut actions: Vec<VcpuAction> = Vec::new();
    let ghost plan = apply_plan(*state);
    let ghost first = if state.cpuid_entries@.len() == 0 {
        Seq::empty()
    } else {
        seq![VcpuStep::Cpuid2(cpuids_in(state.cpuid_entries@))]
    };
    assert(steps_view(actions@) =~= Seq::empty());
    if state.cpuid_entries.len() > 0 {
        let len: usize = state.cpuid_entries.len();
        if len % CPUID_ENTRY_LEN != 0 {
            return (
                actions,
                Some(
                    complain(
                        "cpuid blob length ",
                        len,
                        " not a multiple of entry size ",
                        CPUID_ENTRY_LEN,
                    ),
                ),
            );
        }
        let entries = bytes_to_cpuids(state.cpuid_entries.as_slice());
        match cpuid_table(entries.as_slice()) {
            Ok(table) => {
                actions.push(VcpuAction::SetCpuid2(table));
            },
            Err(why) => {
                return (actions, Some(VcpuStateError::BuildMsrs(why)));
            },
        }
    }
    assert(steps_view(actions@) =~= first);
    if state.sregs.len() != SREGS_LEN {
        let fault = complain(
            "sregs blob length ",
            state.sregs.len(),
            " != sizeof(kvm_sregs) ",
            SREGS_LEN,
        );
        return (actions, Some(fault));
    }
    actions.push(VcpuAction::SetSregs(vstd::slice::slice_to_vec(state.sregs.as_slice())));
    let ghost second = first.push(VcpuStep::Sregs(state.sregs@));
    assert(steps_view(actions@) =~= second);
    if state.regs.len() != REGS_LEN {
        let fault = complain(
            "regs blob length ",
            state.regs.len(),
            " != sizeof(kvm_regs) ",
            REGS_LEN,
        );
        return (actions, Some(fault));
    }
    actions.push(VcpuAction::SetRegs(vstd::slice::slice_to_vec(state.regs.as_slice())));
    let ghost third = second.push(VcpuStep::Regs(state.regs@));
    assert(steps_view(actions@) =~= third);
    if state.msrs.len() > 0 {
        let len: usize = state.msrs.len();
        if len % MSR_ENTRY_LEN != 0 {
            return (
                actions,
                Some(
                    complain(
                        "msrs blob length ",
                        len,
                        " not a multiple of entry size ",
                        MSR_ENTRY_LEN,
                    ),
                ),
            );
        }
        let entries = bytes_to_msrs(state.msrs.as_slice());
        match msr_table(entries.as_slice()) {
            Ok(table) => {
                actions.push(VcpuAction::SetMsrs(table));
            },
            Err(why) => {
                return (actions, Some(VcpuStateError::BuildMsrs(why)));
            },
        }
    }
    let ghost fourth = third + (if state.msrs@.len() == 0 {
        Seq::empty()
    } else {
        seq![VcpuStep::Msrs(msrs_in(state.msrs@))]
    });
    assert(steps_view(actions@) =~= fourth);
    if state.xcrs.len() == XCRS_LEN {
        actions.push(VcpuAction::SetXcrs(vstd::slice::slice_to_vec(state.xcrs.as_slice())));
        assert(steps_view(actions@) =~= fourth + seq![VcpuStep::Xcrs(state.xcrs@)]);
    } else {
        assert(steps_view(actions@) =~= fourth + Seq::<VcpuStep>::empty());
    }
    (actions, None)
}

/// The calls that apply a vCPU state on a machine other than x86_64: none.
pub fn apply_nothing(_state: &VcpuStateData) -> (r: Vec<VcpuAction>)
    ensures
        r@ == Seq::<VcpuAction>::empty(),
{
    Vec::new()
}

// ---------------------------------------------------------------------------
// Laws.
// ---------------------------------------------------------------------------

proof fn lemma_msrs_back(b: Seq<u8>, at: int, entries: Seq<MsrEntry>)
    requires
        wire::stands_at(b, at, msrs_bytes(entries)),
    ensures
        msrs_bytes(entries).len() == 16 * entries.len(),
        forall|i: int| 0 <= i < entries.len() ==> msr_at(b, at + 16 * i) == #[trigger] entries[i],
    decreases entries.len(),
{
    if entries.len() > 0 {
        let before = entries.drop_last();
        let e = entries.last();
        wire::lemma_split(b, at, msrs_bytes(before), msr_bytes(e));
        lemma_msrs_back(b, at, before);
        let own = at + 16 * before.len();
        let first = wire::le32(e.index);
        wire::lemma_split(b, own, first + wire::le32(e.reserved), wire::le64(e.data));
        wire::lemma_split(b, own, first, wire::le32(e.reserved));
        wire::lemma_le32(b, own, e.index);
        wire::lemma_le32(b, own + 4, e.reserved);
        wire::lemma_le64(b, own + 8, e.data);
        assert forall|i: int| 0 <= i < entries.len() implies msr_at(b, at + 16 * i)
            == #[trigger] entries[i] by {
            if i < before.len() {
                assert(before[i] == entries[i]);
            }
        }
    }
}

proof fn lemma_cpuid_back(b: Seq<u8>, at: int, e: CpuidEntry)
    requires
        wire::stands_at(b, at, cpuid_bytes(e)),
    ensures
        cpuid_at(b, at) == e,
        cpuid_bytes(e).len() == 40,
{
    let p1 = wire::le32(e.function);
    let p2 = p1 + wire::le32(e.index);
    let p3 = p2 + wire::le32(e.flags);
    let p4 = p3 + wire::le32(e.eax);
    let p5 = p4 + wire::le32(e.ebx);
    let p6 = p5 + wire::le32(e.ecx);
    let p7 = p6 + wire::le32(e.edx);
    let p8 = p7 + wire::le32(e.padding0);
    let p9 = p8 + wire::le32(e.padding1);
    wire::lemma_split(b, at, p9, wire::le32(e.padding2));
    wire::lemma_split(b, at, p8, wire::le32(e.padding1));
    wire::lemma_split(b, at, p7, wire::le32(e.padding0));
    wire::lemma_split(b, at, p6, wire::le32(e.edx));
    wire::lemma_split(b, at, p5, wire::le32(e.ecx));
    wire::lemma_split(b, at, p4, wire::le32(e.ebx));
    wire::lemma_split(b, at, p3, wire::le32(e.eax));
    wire::lemma_split(b, at, p2, wire::le32(e.flags));
    wire::lemma_split(b, at, p1, wire::le32(e.index));
    wire::lemma_le32(b, at, e.function);
    wire::lemma_le32(b, at + 4, e.index);
    wire::lemma_le32(b, at + 8, e.flags);
    wire::lemma_le32(b, at + 12, e.eax);
    wire::lemma_le32(b, at + 16, e.ebx);
    wire::lemma_le32(b, at + 20, e.ecx);
    wire::lemma_le32(b, at + 24, e.edx);
    wire::lemma_le32(b, at + 28, e.padding0);
    wire::lemma_le32(b, at + 32, e.padding1);
    wire::lemma_le32(b, at + 36, e.padding2);
}

proof fn lemma_cpuids_back(b: Seq<u8>, at: int, entries: Seq<CpuidEntry>)
    requires
        wire::stands_at(b, at, cpuids_bytes(entries)),
    ensures
        cpuids_bytes(entries).len() == 40 * entries.len(),
        forall|i: int|
            0 <= i < entries.len() ==> cpuid_at(b, at + 40 * i) == #[trigger] entries[i],
    decreases entries.len(),
{
    if entries.len() > 0 {
        let before = entries.drop_last();
        wire::lemma_split(b, at, cpuids_bytes(before), cpuid_bytes(entries.last()));
        lemma_cpuids_back(b, at, before);
        lemma_cpuid_back(b, at + 40 * before.len(), entries.last());
        assert forall|i: int| 0 <= i < entries.len() implies cpuid_at(b, at + 40 * i)
            == #[trigger] entries[i] by {
            if i < before.len() {
                assert(before[i] == entries[i]);
            }
        }
    }
}

/// Reading back the bytes of MSR entries gives the entries.
pub proof fn law_msr_bytes_round_trip(entries: Seq<MsrEntry>)
    ensures
        msrs_in(msrs_bytes(entries)) == entries,
        msrs_bytes(entries).len() == 16 * entries.len(),
{
    let b = msrs_bytes(entries);
    wire::lemma_whole(b);
    lemma_msrs_back(b, 0, entries);
    assert forall|i: int| 0 <= i < entries.len() implies msrs_in(b)[i] == entries[i] by {
        assert(msr_at(b, 0 + 16 * i) == entries[i]);
    }
    assert(msrs_in(b) =~= entries);
}

/// Reading back the bytes of CPUID entries gives the entries.
pub proof fn law_cpuid_bytes_round_trip(entries: Seq<CpuidEntry>)
    ensures
        cpuids_in(cpuids_bytes(entries)) == entries,
        cpuids_bytes(entries).len() == 40 * entries.len(),
{
    let b = cpuids_bytes(entries);
    wire::lemma_whole(b);
    lemma_cpuids_back(b, 0, entries);
    assert forall|i: int| 0 <= i < entries.len() implies cpuids_in(b)[i] == entries[i] by {
        assert(cpuid_at(b, 0 + 40 * i) == entries[i]);
    }
    assert(cpuids_in(b) =~= entries);
}

/// What a vCPU state was captured from.
pub open spec fn captured_from(
    state: VcpuStateData,
    regs: Seq<u8>,
    sregs: Seq<u8>,
    cpuid: Seq<CpuidEntry>,
    msrs: Seq<MsrEntry>,
    xcrs: Seq<u8>,
) -> bool {
    &&& state.regs@ == regs
    &&& state.sregs@ == sregs
    &&& state.cpuid_entries@ == cpuids_bytes(cpuid)
    &&& state.msrs@ == msrs_bytes(msrs)
    &&& state.xcrs@ == xcrs
}

/// Applying undoes capturing: the calls set exactly what was captured, CPUID first, then the
/// special and the general registers, then the MSRs and the XCRs, and nothing is refused.
pub proof fn law_apply_undoes_capture(
    state: VcpuStateData,
    regs: Seq<u8>,
    sregs: Seq<u8>,
    cpuid: Seq<CpuidEntry>,
    msrs: Seq<MsrEntry>,
    xcrs: Seq<u8>,
)
    requires
        captured_from(state, regs, sregs, cpuid, msrs, xcrs),
        regs.len() == REGS_LEN,
        sregs.len() == SREGS_LEN,
        cpuid.len() <= MAX_TABLE_ENTRIES,
        msrs.len() <= MAX_TABLE_ENTRIES,
    ensures
        apply_plan(state).1 is None,
        apply_plan(state).0 == (if cpuid.len() == 0 {
            Seq::empty()
        } else {
            seq![VcpuStep::Cpuid2(cpuid)]
        }) + seq![VcpuStep::Sregs(sregs), VcpuStep::Regs(regs)] + (if msrs.len() == 0 {
            Seq::empty()
        } else {
            seq![VcpuStep::Msrs(msrs)]
        }) + (if xcrs.len() != XCRS_LEN {
            Seq::empty()
        } else {
            seq![VcpuStep::Xcrs(xcrs)]
        }),
{
    law_cpuid_bytes_round_trip(cpuid);
    law_msr_bytes_round_trip(msrs);
    let first = if cpuid.len() == 0 {
        Seq::empty()
    } else {
        seq![VcpuStep::Cpuid2(cpuid)]
    };
    let fourth = if msrs.len() == 0 {
        Seq::empty()
    } else {
        seq![VcpuStep::Msrs(msrs)]
    };
    let last = if xcrs.len() != XCRS_LEN {
        Seq::empty()
    } else {
        seq![VcpuStep::Xcrs(xcrs)]
    };
    assert(apply_plan(state).0 =~= first + seq![VcpuStep::Sregs(sregs), VcpuStep::Regs(regs)]
        + fourth + last);
}

/// The records of a blob are its runs of sixteen bytes: the index, a reserved word and the value,
/// each lowest byte first. Bytes that do not fill a record are not read.
pub proof fn law_msr_records(b: Seq<u8>, i: int)
    requires
        0 <= i,
        16 * i + 16 <= b.len(),
    ensures
        16 * msrs_in(b).len() <= b.len() < 16 * msrs_in(b).len() + 16,
        i < msrs_in(b).len(),
        msrs_in(b)[i].index == b[16 * i] + 256 * b[16 * i + 1] + 65536 * b[16 * i + 2] + 16777216
            * b[16 * i + 3],
        msrs_in(b)[i].reserved == b[16 * i + 4] + 256 * b[16 * i + 5] + 65536 * b[16 * i + 6]
            + 16777216 * b[16 * i + 7],
        msrs_in(b)[i].data == b[16 * i + 8] + 256 * b[16 * i + 9] + 65536 * b[16 * i + 10]
            + 16777216 * b[16 * i + 11] + 0x1_0000_0000 * (b[16 * i + 12] + 256 * b[16 * i + 13]
            + 65536 * b[16 * i + 14] + 16777216 * b[16 * i + 15]),
{
    wire::law_reading_is_little_endian(b, 16 * i);
    wire::law_reading_is_little_endian(b, 16 * i + 4);
    wire::law_reading_is_little_endian(b, 16 * i + 8);
}

/// The records of a blob are its runs of forty bytes: function, index and flags, the four
/// registers, and three words of padding.
pub proof fn law_cpuid_records(b: Seq<u8>, i: int)
    requires
        0 <= i,
        40 * i + 40 <= b.len(),
    ensures
        40 * cpuids_in(b).len() <= b.len() < 40 * cpuids_in(b).len() + 40,
        i < cpuids_in(b).len(),
        cpuids_in(b)[i].function == wire::at32(b, 40 * i),
        cpuids_in(b)[i].index == wire::at32(b, 40 * i + 4),
        cpuids_in(b)[i].flags == wire::at32(b, 40 * i + 8),
        cpuids_in(b)[i].eax == wire::at32(b, 40 * i + 12),
        cpuids_in(b)[i].ebx == wire::at32(b, 40 * i + 16),
        cpuids_in(b)[i].ecx == wire::at32(b, 40 * i + 20),
        cpuids_in(b)[i].edx == wire::at32(b, 40 * i + 24),
        cpuids_in(b)[i].padding0 == wire::at32(b, 40 * i + 28),
        cpuids_in(b)[i].padding1 == wire::at32(b, 40 * i + 32),
        cpuids_in(b)[i].padding2 == wire::at32(b, 40 * i + 36),
{
}

/// Nothing is refused exactly where the special and the general registers have the sizes of their
/// structures and the blobs of entries hold whole entries, no more than KVM takes. A refusal comes
/// in the order of the calls: the calls in front of it are those of a state in which nothing is
/// refused.
pub proof fn law_state_is_refused_only_for_its_lengths(state: VcpuStateData)
    ensures
        ({
            let cpuid_ok = state.cpuid_entries@.len() % 40 == 0 && state.cpuid_entries@.len()
                <= 40 * 256;
            let msrs_ok = state.msrs@.len() % 16 == 0 && state.msrs@.len() <= 16 * 256;
            let sregs_ok = state.sregs@.len() == 312;
            let regs_ok = state.regs@.len() == 144;
            let steps = apply_plan(state).0;
            let c = if state.cpuid_entries@.len() == 0 {
                0int
            } else {
                1int
            };
            let m = if state.msrs@.len() == 0 {
                0int
            } else {
                1int
            };
            let x = if state.xcrs@.len() == 392 {
                1int
            } else {
                0int
            };
            &&& apply_plan(state).1 is None <==> cpuid_ok && sregs_ok && regs_ok && msrs_ok
            &&& steps.len() == if !cpuid_ok {
                0
            } else if !sregs_ok {
                c
            } else if !regs_ok {
                c + 1
            } else if !msrs_ok {
                c + 2
            } else {
                c + 2 + m + x
            }
            &&& cpuid_ok && c == 1 ==> steps[0] == VcpuStep::Cpuid2(cpuids_in(state.cpuid_entries@))
            &&& cpuid_ok && sregs_ok ==> steps[c] == VcpuStep::Sregs(state.sregs@)
            &&& cpuid_ok && sregs_ok && regs_ok ==> steps[c + 1] == VcpuStep::Regs(state.regs@)
            &&& apply_plan(state).1 is None && m == 1 ==> steps[c + 2] == VcpuStep::Msrs(
                msrs_in(state.msrs@),
            )
            &&& apply_plan(state).1 is None && x == 1 ==> steps[c + 2 + m] == VcpuStep::Xcrs(
                state.xcrs@,
            )
        }),
{
}

/// What is said of a refusal: of registers, how long the blob is and how long the structure; of
/// entries, how long the blob is and how long an entry, or that there are too many.
pub proof fn law_refusal_names_the_lengths(state: VcpuStateData)
    ensures
        ({
            let why = apply_plan(state).1;
            let cpuid = state.cpuid_entries@.len();
            let msrs = state.msrs@.len();
            let cpuid_ok = cpuid % 40 == 0 && cpuid <= 40 * 256;
            let regs_ok = cpuid_ok && state.sregs@.len() == 312 && state.regs@.len() == 144;
            &&& cpuid % 40 != 0 ==> why == Some(
                "cpuid blob length "@ + text::decimal(cpuid) + " not a multiple of entry size "@
                    + text::decimal(40),
            )
            &&& cpuid % 40 == 0 && cpuid > 40 * 256 ==> why == Some("SizeLimitExceeded"@)
            &&& cpuid_ok && state.sregs@.len() != 312 ==> why == Some(
                "sregs blob length "@ + text::decimal(state.sregs@.len())
                    + " != sizeof(kvm_sregs) "@ + text::decimal(312),
            )
            &&& cpuid_ok && state.sregs@.len() == 312 && state.regs@.len() != 144 ==> why == Some(
                "regs blob length "@ + text::decimal(state.regs@.len())
                    + " != sizeof(kvm_regs) "@ + text::decimal(144),
            )
            &&& regs_ok && msrs % 16 != 0 ==> why == Some(
                "msrs blob length "@ + text::decimal(msrs) + " not a multiple of entry size "@
                    + text::decimal(16),
            )
            &&& regs_ok && msrs % 16 == 0 && msrs > 16 * 256 ==> why == Some(
                "SizeLimitExceeded"@,
            )
        }),
{
}

/// An error and what is said of it hold the same.
pub proof fn law_vcpu_errors_are_told_in_full(error: VcpuStateError)
    ensures
        match error {
            VcpuStateError::Kvm(errno) => error@ == VcpuFault::Kvm(errno),
            VcpuStateError::BuildMsrs(why) => error@ == VcpuFault::BuildMsrs(why@),
        },
{
}

/// A table is asked for with one blank entry for each register, in order.
pub proof fn law_blank_entries(indices: Seq<u32>, i: int)
    requires
        0 <= i < indices.len(),
    ensures
        blank_entries(indices).len() == indices.len(),
        blank_entries(indices)[i].index == indices[i],
        blank_entries(indices)[i].reserved == 0,
        blank_entries(indices)[i].data == 0,
{
}

/// What is said of calls is said of each, in order, with what it takes.
pub proof fn law_calls_are_told_in_full(actions: Seq<VcpuAction>, i: int)
    ensures
        steps_view(actions).len() == actions.len(),
        0 <= i < actions.len() ==> match actions[i] {
            VcpuAction::SetCpuid2(table) => steps_view(actions)[i] == VcpuStep::Cpuid2(
                cpuid_table_entries(table),
            ),
            VcpuAction::SetSregs(raw) => steps_view(actions)[i] == VcpuStep::Sregs(raw@),
            VcpuAction::SetRegs(raw) => steps_view(actions)[i] == VcpuStep::Regs(raw@),
            VcpuAction::SetMsrs(table) => steps_view(actions)[i] == VcpuStep::Msrs(
                msr_table_entries(table),
            ),
            VcpuAction::SetXcrs(raw) => steps_view(actions)[i] == VcpuStep::Xcrs(raw@),
        },
{
}

} // verus!
