//! Reading a snapshot, of the current format version or an earlier one from 3 on.
//!
//! [`SnapshotReader::open`] works on the front of the file: any prefix that holds the header will
//! do. Memory payloads are not loaded; the caller either streams them, chunk by chunk, or maps
//! them from the offsets of [`SnapshotReader::regions_for_mmap`].
use vstd::prelude::*;

use std::path::PathBuf;

use super::layout;
use super::layout::GuestState;
use super::metadata;
use super::metadata::{
    SnapshotKind, FIRST_FORMAT_VERSION, MAGIC, MAGIC_TRAILER, SNAPSHOT_FORMAT_VERSION,
};
use super::serial_state::LegacyDeviceState;
use super::vcpu_state::{VcpuRecord, VcpuStateData};
use super::virtio_net_state;
use super::virtio_net_state::{NetDevice, NetFault, VirtioNetState, VirtioNetStateError};
use super::vm_state::VmStateData;
use super::{MemoryRegionDescriptor, Refusal, SnapshotError, SnapshotFault};
use crate::wire;

verus! {

broadcast use wire::field_widths;

/// A region with the absolute file offset of its payload.
#[derive(Debug, Clone, Copy, PartialEq, Eq, Structural)]
pub struct RegionLocation {
    /// Guest physical address of the region.
    pub guest_phys_addr: u64,
    /// Region size in bytes.
    pub size: u64,
    /// Absolute, page-aligned offset of the payload in the snapshot file.
    pub file_offset: u64,
}

impl From<RegionLocation> for MemoryRegionDescriptor {
    fn from(loc: RegionLocation) -> (r: Self) {
        MemoryRegionDescriptor { guest_phys_addr: loc.guest_phys_addr, size: loc.size }
    }
}

impl vstd::std_specs::convert::FromSpecImpl<RegionLocation> for MemoryRegionDescriptor {
    open spec fn obeys_from_spec() -> bool {
        true
    }

    open spec fn from_spec(loc: RegionLocation) -> MemoryRegionDescriptor {
        MemoryRegionDescriptor { guest_phys_addr: loc.guest_phys_addr, size: loc.size }
    }
}

/// What a snapshot records besides guest memory.
pub struct Recorded {
    pub format_version: u32,
    pub kind: SnapshotKind,
    pub vcpu_count: u8,
    pub mem_size_bytes: u64,
    pub parent: Seq<u8>,
    pub state: GuestState,
    pub regions: Seq<RegionLocation>,
}

// ---------------------------------------------------------------------------
// The reading of a byte sequence.
// ---------------------------------------------------------------------------

/// The length-prefixed blob at `at` and where it ends, unless the bytes run out.
pub open spec fn parse_blob(b: Seq<u8>, at: int) -> Option<(Seq<u8>, int)> {
    let end = at + 4 + wire::at32(b, at);
    if at + 4 > b.len() || end > b.len() {
        None
    } else {
        Some((b.subrange(at + 4, end), end))
    }
}

/// The `n` blobs from `at` on and where the last ends, unless the bytes run out.
pub open spec fn parse_blobs(b: Seq<u8>, at: int, n: nat) -> Option<(Seq<Seq<u8>>, int)>
    decreases n,
{
    if n == 0 {
        Some((Seq::empty(), at))
    } else {
        match parse_blobs(b, at, (n - 1) as nat) {
            None => None,
            Some((before, next)) => match parse_blob(b, next) {
                None => None,
                Some((blob, end)) => Some((before.push(blob), end)),
            },
        }
    }
}

/// The vCPU record at `at` and where it ends, unless the bytes run out. Blobs that the format
/// version does not have are empty.
pub open spec fn parse_vcpu(b: Seq<u8>, at: int, version: u32) -> Option<(VcpuRecord, int)> {
    if at + 1 > b.len() {
        None
    } else {
        match parse_blobs(b, at + 1, layout::vcpu_blobs(version)) {
            None => None,
            Some((blobs, end)) => Some(
                (VcpuRecord { vcpu_id: b[at], blobs: layout::filled_up(blobs, 9) }, end),
            ),
        }
    }
}

/// The `n` vCPU records from `at` on and where the last ends, unless the bytes run out.
pub open spec fn parse_vcpus(b: Seq<u8>, at: int, n: nat, version: u32) -> Option<
    (Seq<VcpuRecord>, int),
>
    decreases n,
{
    if n == 0 {
        Some((Seq::empty(), at))
    } else {
        match parse_vcpus(b, at, (n - 1) as nat, version) {
            None => None,
            Some((before, next)) => match parse_vcpu(b, next, version) {
                None => None,
                Some((vcpu, end)) => Some((before.push(vcpu), end)),
            },
        }
    }
}

/// The row of the region table at `at`.
pub open spec fn region_at(b: Seq<u8>, at: int) -> RegionLocation {
    RegionLocation {
        guest_phys_addr: wire::at64(b, at),
        size: wire::at64(b, at + 8),
        file_offset: wire::at64(b, at + 16),
    }
}

/// The `n` rows of the region table from `at` on, or what is wrong with the first bad one.
pub open spec fn parse_regions(b: Seq<u8>, at: int, n: nat) -> Result<Seq<RegionLocation>, Refusal>
    decreases n,
{
    if n == 0 {
        Ok(Seq::empty())
    } else {
        match parse_regions(b, at, (n - 1) as nat) {
            Err(refusal) => Err(refusal),
            Ok(before) => {
                let region = region_at(b, at + 24 * (n - 1));
                if at + 24 * n > b.len() {
                    Err(Refusal::UnexpectedEof)
                } else if region.file_offset % 4096 != 0 {
                    Err(Refusal::UnalignedRegionOffset(region.file_offset))
                } else {
                    Ok(before.push(region))
                }
            },
        }
    }
}

/// Whether a file of the given format version can be read.
pub open spec fn is_readable(version: u32) -> bool {
    FIRST_FORMAT_VERSION <= version <= SNAPSHOT_FORMAT_VERSION
}

/// What is wrong with what stands in front of the vCPUs, if anything.
pub open spec fn prelude_refusal(b: Seq<u8>) -> Option<Refusal> {
    if b.len() < 8 {
        Some(Refusal::UnexpectedEof)
    } else if b.subrange(0, 8) != MAGIC@ {
        Some(Refusal::BadMagic(b.subrange(0, 8)))
    } else if b.len() < 12 {
        Some(Refusal::UnexpectedEof)
    } else if !is_readable(wire::at32(b, 8)) {
        Some(Refusal::UnsupportedVersion(wire::at32(b, 8)))
    } else if wire::at32(b, 8) < 9 {
        if b.len() < 24 {
            Some(Refusal::UnexpectedEof)
        } else {
            None
        }
    } else if b.len() < 14 {
        Some(Refusal::UnexpectedEof)
    } else if metadata::kind_of(b[13]) is None {
        Some(Refusal::UnknownKind(b[13]))
    } else if b.len() < 56 {
        Some(Refusal::UnexpectedEof)
    } else if b[13] == 0 && b.subrange(24, 56) != wire::zeros(32) {
        Some(Refusal::GoldenWithParent)
    } else if b[13] == 1 && b.subrange(24, 56) == wire::zeros(32) {
        Some(Refusal::DiffWithoutParent)
    } else {
        None
    }
}

/// The devices of the virtio-net envelope, if the format version has one.
pub open spec fn parse_devices(blobs: Seq<Seq<u8>>, version: u32) -> Result<
    Seq<NetDevice>,
    NetFault,
> {
    if version < 7 {
        Ok(Seq::empty())
    } else {
        virtio_net_state::parse_envelope_of(blobs[7], layout::live_devices(version))
    }
}

/// What the blobs behind the region table record. Blobs that the format version does not have
/// are empty.
pub open spec fn parse_tail(b: Seq<u8>, at: int, vcpus: Seq<VcpuRecord>, version: u32) -> Result<
    GuestState,
    Refusal,
> {
    match parse_blobs(b, at, layout::tail_blobs(version)) {
        None => Err(Refusal::UnexpectedEof),
        Some((blobs, _)) => match parse_devices(blobs, version) {
            Err(fault) => Err(Refusal::VirtioNet(fault)),
            Ok(devices) => Ok(
                GuestState {
                    vcpus,
                    vm: layout::filled_up(blobs, 7).subrange(0, 5),
                    legacy: layout::filled_up(blobs, 7).subrange(5, 7),
                    devices,
                },
            ),
        },
    }
}

/// The region table at `at`: exactly one row.
pub open spec fn parse_table(b: Seq<u8>, at: int) -> Result<Seq<RegionLocation>, Refusal> {
    if at + 4 > b.len() {
        Err(Refusal::UnexpectedEof)
    } else {
        let count = wire::at32(b, at);
        match parse_regions(b, at + 4, count as nat) {
            Err(refusal) => Err(refusal),
            Ok(regions) => if count != 1 {
                Err(Refusal::RegionCount(count))
            } else {
                Ok(regions)
            },
        }
    }
}

/// What the front of a snapshot file records, or the first thing that is wrong with it.
pub open spec fn parse_snapshot(b: Seq<u8>) -> Result<Recorded, Refusal> {
    let version = wire::at32(b, 8);
    match prelude_refusal(b) {
        Some(refusal) => Err(refusal),
        None => match parse_vcpus(
            b,
            layout::prelude_len(version) as int,
            b[12] as nat,
            version,
        ) {
            None => Err(Refusal::UnexpectedEof),
            Some((vcpus, at)) => match parse_table(b, at) {
                Err(refusal) => Err(refusal),
                Ok(regions) => match parse_tail(b, at + 28, vcpus, version) {
                    Err(refusal) => Err(refusal),
                    Ok(state) => Ok(
                        Recorded {
                            format_version: version,
                            kind: if version < 9 {
                                SnapshotKind::Golden
                            } else {
                                metadata::kind_of(b[13])->0
                            },
                            vcpu_count: b[12],
                            mem_size_bytes: wire::at64(b, 16),
                            parent: if version < 9 {
                                wire::zeros(32)
                            } else {
                                b.subrange(24, 56)
                            },
                            state,
                            regions,
                        },
                    ),
                },
            },
        },
    }
}

/// What is wrong with the end of a snapshot file, if anything.
pub open spec fn trailer_refusal(b: Seq<u8>) -> Option<Refusal> {
    if b.len() < 4 {
        Some(Refusal::TooShortForTrailer)
    } else {
        let last = b.subrange(b.len() - 4, b.len() as int);
        if last != MAGIC_TRAILER@ {
            Some(Refusal::BadTrailer(last))
        } else {
            None
        }
    }
}

// ---------------------------------------------------------------------------
// The executable reader.
// ---------------------------------------------------------------------------

/// A read position.
pub struct Source<'a> {
    /// What is read.
    pub buf: &'a [u8],
    /// Offset of the next byte.
    pub off: usize,
}

impl<'a> Source<'a> {
    /// A position in what is read, or at its end.
    pub open spec fn valid(self) -> bool {
        self.off <= self.buf@.len() <= usize::MAX
    }

    spec fn past(self, n: int) -> Source<'a> {
        Source { buf: self.buf, off: (self.off + n) as usize }
    }

    spec fn has(self, n: int) -> bool {
        self.off + n <= self.buf@.len()
    }
}

/// What a read that runs out of bytes gives.
pub open spec fn ran_out<T>(r: Result<T, SnapshotError>) -> bool {
    r matches Err(SnapshotError::Io(fault)) && fault@ == Refusal::UnexpectedEof
}

fn read_u8(r: &mut Source) -> (v: Result<u8, SnapshotError>)
    requires
        old(r).valid(),
    ensures
        final(r).valid(),
        if old(r).has(1) {
            v == Ok::<u8, SnapshotError>(old(r).buf@[old(r).off as int]) && *final(r) == old(
                r,
            ).past(1)
        } else {
            ran_out(v)
        },
{
    if r.buf.len() - r.off < 1 {
        return Err(SnapshotError::Io(SnapshotFault::UnexpectedEof));
    }
    let v: u8 = r.buf[r.off];
    r.off = r.off + 1;
    Ok(v)
}

fn read_u16(r: &mut Source) -> (v: Result<u16, SnapshotError>)
    requires
        old(r).valid(),
    ensures
        final(r).valid(),
        if old(r).has(2) {
            v == Ok::<u16, SnapshotError>(wire::at16(old(r).buf@, old(r).off as int)) && *final(r)
                == old(r).past(2)
        } else {
            ran_out(v)
        },
{
    if r.buf.len() - r.off < 2 {
        return Err(SnapshotError::Io(SnapshotFault::UnexpectedEof));
    }
    let v: u16 = wire::get_u16(r.buf, r.off);
    r.off = r.off + 2;
    Ok(v)
}

fn read_u32(r: &mut Source) -> (v: Result<u32, SnapshotError>)
    requires
        old(r).valid(),
    ensures
        final(r).valid(),
        if old(r).has(4) {
            v == Ok::<u32, SnapshotError>(wire::at32(old(r).buf@, old(r).off as int)) && *final(r)
                == old(r).past(4)
        } else {
            ran_out(v)
        },
{
    if r.buf.len() - r.off < 4 {
        return Err(SnapshotError::Io(SnapshotFault::UnexpectedEof));
    }
    let v: u32 = wire::get_u32(r.buf, r.off);
    r.off = r.off + 4;
    Ok(v)
}

fn read_u64(r: &mut Source) -> (v: Result<u64, SnapshotError>)
    requires
        old(r).valid(),
    ensures
        final(r).valid(),
        if old(r).has(8) {
            v == Ok::<u64, SnapshotError>(wire::at64(old(r).buf@, old(r).off as int)) && *final(r)
                == old(r).past(8)
        } else {
            ran_out(v)
        },
{
    if r.buf.len() - r.off < 8 {
        return Err(SnapshotError::Io(SnapshotFault::UnexpectedEof));
    }
    let v: u64 = wire::get_u64(r.buf, r.off);
    r.off = r.off + 8;
    Ok(v)
}

/// An array of bytes.
fn read_exact<const N: usize>(r: &mut Source) -> (v: Result<[u8; N], SnapshotError>)
    requires
        old(r).valid(),
    ensures
        final(r).valid(),
        if old(r).has(N as int) {
            v matches Ok(a) && a@ == old(r).buf@.subrange(old(r).off as int, old(r).off + N)
                && *final(r) == old(r).past(N as int)
        } else {
            ran_out(v)
        },
{
    if r.buf.len() - r.off < N {
        return Err(SnapshotError::Io(SnapshotFault::UnexpectedEof));
    }
    let mut v: [u8; N] = [0u8; N];
    for i in 0..N
        invariant
            v@.len() == N,
            r.valid(),
            r.has(N as int),
            forall|j: int| 0 <= j < i ==> v@[j] == r.buf@[r.off + j],
    {
        assert(r.off + i < r.buf.len());
        v[i] = r.buf[r.off + i];
    }
    assert(v@ =~= r.buf@.subrange(r.off as int, r.off + N));
    r.off = r.off + N;
    Ok(v)
}

/// A length-prefixed blob.
pub fn read_len_prefixed(r: &mut Source) -> (v: Result<Vec<u8>, SnapshotError>)
    requires
        old(r).valid(),
    ensures
        final(r).valid(),
        match parse_blob(old(r).buf@, old(r).off as int) {
            Some((blob, end)) => v matches Ok(data) && data@ == blob && final(r).buf == old(r).buf
                && final(r).off == end,
            None => ran_out(v),
        },
        ({
            let b = old(r).buf@;
            let at = old(r).off as int;
            let n = wire::at32(b, at);
            &&& v is Ok <==> at + 4 <= b.len() && at + 4 + n <= b.len()
            &&& v matches Ok(data) ==> data@ == b.subrange(at + 4, at + 4 + n) && final(r).off == at
                + 4 + n
            &&& v matches Err(e) ==> e == SnapshotError::Io(SnapshotFault::UnexpectedEof)
        }),
{
    let len: u32 = read_u32(r)?;
    if r.buf.len() - r.off < len as usize {
        return Err(SnapshotError::Io(SnapshotFault::UnexpectedEof));
    }
    let v: Vec<u8> = wire::get_bytes(r.buf, r.off, len as usize);
    r.off = r.off + len as usize;
    Ok(v)
}

/// The bytes of each blob.
spec fn blobs_view(blobs: Seq<Vec<u8>>) -> Seq<Seq<u8>> {
    Seq::new(blobs.len(), |i: int| blobs[i]@)
}

/// What runs out early runs out.
proof fn lemma_blobs_run_out(b: Seq<u8>, at: int, some: nat, all: nat)
    requires
        some <= all,
        parse_blobs(b, at, some) is None,
    ensures
        parse_blobs(b, at, all) is None,
    decreases all,
{
    if some < all {
        lemma_blobs_run_out(b, at, some, (all - 1) as nat);
    }
}

/// What runs out early runs out.
proof fn lemma_vcpus_run_out(b: Seq<u8>, at: int, some: nat, all: nat, version: u32)
    requires
        some <= all,
        parse_vcpus(b, at, some, version) is None,
    ensures
        parse_vcpus(b, at, all, version) is None,
    decreases all,
{
    if some < all {
        lemma_vcpus_run_out(b, at, some, (all - 1) as nat, version);
    }
}

/// The first bad row decides.
proof fn lemma_regions_fail(b: Seq<u8>, at: int, some: nat, all: nat)
    requires
        some <= all,
        parse_regions(b, at, some) is Err,
    ensures
        parse_regions(b, at, all) == parse_regions(b, at, some),
    decreases all,
{
    if some < all {
        lemma_regions_fail(b, at, some, (all - 1) as nat);
    }
}

/// `n` blobs.
fn read_blobs(r: &mut Source, n: usize) -> (v: Result<Vec<Vec<u8>>, SnapshotError>)
    requires
        old(r).valid(),
    ensures
        final(r).valid(),
        match parse_blobs(old(r).buf@, old(r).off as int, n as nat) {
            Some((blobs, end)) => v matches Ok(data) && blobs_view(data@) == blobs
                && final(r).buf == old(r).buf && final(r).off == end,
            None => ran_out(v),
        },
{
    let ghost b = r.buf@;
    let ghost at = r.off as int;
    let mut blobs: Vec<Vec<u8>> = Vec::new();
    assert(blobs_view(blobs@) =~= Seq::empty());
    for i in 0..n
        invariant
            r.valid(),
            r.buf == old(r).buf,
            b == r.buf@,
            at == old(r).off,
            parse_blobs(b, at, i as nat) == Some((blobs_view(blobs@), r.off as int)),
    {
        let ghost before = blobs_view(blobs@);
        proof {
            if parse_blob(b, r.off as int) is None {
                assert(parse_blobs(b, at, (i + 1) as nat) is None);
                lemma_blobs_run_out(b, at, (i + 1) as nat, n as nat);
            }
        }
        let blob: Vec<u8> = read_len_prefixed(r)?;
        blobs.push(blob);
        assert(blobs_view(blobs@) =~= before.push(blob@));
    }
    Ok(blobs)
}

/// The last blob of a list, taken off it.
fn take_last(blobs: &mut Vec<Vec<u8>>) -> (r: Vec<u8>)
    requires
        old(blobs)@.len() > 0,
    ensures
        r@ == blobs_view(old(blobs)@).last(),
        final(blobs)@.len() == old(blobs)@.len() - 1,
        blobs_view(final(blobs)@) == blobs_view(old(blobs)@).drop_last(),
{
    let r: Vec<u8> = blobs.pop().unwrap();
    assert(blobs_view(blobs@) =~= blobs_view(old(blobs)@).drop_last());
    r
}

/// Fills up a list of blobs with empty ones.
fn fill_up(blobs: &mut Vec<Vec<u8>>, n: usize)
    requires
        old(blobs)@.len() <= n,
    ensures
        final(blobs)@.len() == n,
        blobs_view(final(blobs)@) == layout::filled_up(blobs_view(old(blobs)@), n as nat),
{
    let ghost had = blobs_view(blobs@);
    assert(had =~= layout::filled_up(had, blobs@.len()));
    while blobs.len() < n
        invariant
            blobs@.len() <= n,
            had.len() <= blobs@.len(),
            blobs_view(blobs@) == layout::filled_up(had, blobs@.len()),
        decreases n - blobs@.len(),
    {
        let ghost before = blobs_view(blobs@);
        let empty: Vec<u8> = Vec::new();
        blobs.push(empty);
        assert(blobs_view(blobs@) =~= before.push(Seq::empty()));
        assert(blobs_view(blobs@) =~= layout::filled_up(had, blobs@.len()));
    }
}

/// The number of blobs of a vCPU in a file of the given format version.
fn blobs_per_vcpu(version: u32) -> (r: usize)
    ensures
        r == layout::vcpu_blobs(version),
{
    if version < 4 {
        4
    } else if version < 5 {
        8
    } else {
        9
    }
}

/// The number of blobs behind the region table in a file of the given format version.
fn blobs_in_tail(version: u32) -> (r: usize)
    ensures
        r == layout::tail_blobs(version),
{
    if version < 4 {
        0
    } else if version < 6 {
        5
    } else if version < 7 {
        7
    } else {
        8
    }
}

/// One vCPU record.
fn read_vcpu(r: &mut Source, version: u32) -> (v: Result<VcpuStateData, SnapshotError>)
    requires
        old(r).valid(),
    ensures
        final(r).valid(),
        match parse_vcpu(old(r).buf@, old(r).off as int, version) {
            Some((vcpu, end)) => v matches Ok(data) && data@ == vcpu && final(r).buf == old(r).buf
                && final(r).off == end,
            None => ran_out(v),
        },
{
    let vcpu_id: u8 = read_u8(r)?;
    let mut blobs: Vec<Vec<u8>> = read_blobs(r, blobs_per_vcpu(version))?;
    proof {
        lemma_blobs_count(old(r).buf@, old(r).off + 1, layout::vcpu_blobs(version));
    }
    fill_up(&mut blobs, 9);
    let ghost all = blobs_view(blobs@);
    let xcrs = take_last(&mut blobs);
    let mp_state = take_last(&mut blobs);
    let vcpu_events = take_last(&mut blobs);
    let xsave = take_last(&mut blobs);
    let lapic = take_last(&mut blobs);
    let cpuid_entries = take_last(&mut blobs);
    let msrs = take_last(&mut blobs);
    let sregs = take_last(&mut blobs);
    let regs = take_last(&mut blobs);
    let vcpu = VcpuStateData {
        vcpu_id,
        regs,
        sregs,
        msrs,
        cpuid_entries,
        lapic,
        xsave,
        vcpu_events,
        mp_state,
        xcrs,
    };
    assert(vcpu@.blobs =~= all);
    Ok(vcpu)
}

/// As many blobs as were asked for.
pub proof fn lemma_blobs_count(b: Seq<u8>, at: int, n: nat)
    ensures
        parse_blobs(b, at, n) matches Some((blobs, _)) ==> blobs.len() == n,
    decreases n,
{
    if n > 0 {
        lemma_blobs_count(b, at, (n - 1) as nat);
    }
}

/// The records of the vCPUs.
spec fn vcpus_view(vcpus: Seq<VcpuStateData>) -> Seq<VcpuRecord> {
    Seq::new(vcpus.len(), |i: int| vcpus[i]@)
}

/// `n` vCPU records.
fn read_vcpus(r: &mut Source, n: u8, version: u32) -> (v: Result<
    Vec<VcpuStateData>,
    SnapshotError,
>)
    requires
        old(r).valid(),
    ensures
        final(r).valid(),
        match parse_vcpus(old(r).buf@, old(r).off as int, n as nat, version) {
            Some((vcpus, end)) => v matches Ok(data) && vcpus_view(data@) == vcpus
                && final(r).buf == old(r).buf && final(r).off == end,
            None => ran_out(v),
        },
{
    let ghost b = r.buf@;
    let ghost at = r.off as int;
    let mut vcpus: Vec<VcpuStateData> = Vec::new();
    assert(vcpus_view(vcpus@) =~= Seq::empty());
    for i in 0..n
        invariant
            r.valid(),
            r.buf == old(r).buf,
            b == r.buf@,
            at == old(r).off,
            parse_vcpus(b, at, i as nat, version) == Some((vcpus_view(vcpus@), r.off as int)),
    {
        let ghost before = vcpus_view(vcpus@);
        proof {
            if parse_vcpu(b, r.off as int, version) is None {
                assert(parse_vcpus(b, at, (i + 1) as nat, version) is None);
                lemma_vcpus_run_out(b, at, (i + 1) as nat, n as nat, version);
            }
        }
        let vcpu: VcpuStateData = read_vcpu(r, version)?;
        vcpus.push(vcpu);
        assert(vcpus_view(vcpus@) =~= before.push(vcpu@));
    }
    Ok(vcpus)
}

/// As many vCPUs are read as are asked for.
pub proof fn lemma_vcpus_count(b: Seq<u8>, at: int, n: nat, version: u32)
    ensures
        parse_vcpus(b, at, n, version) matches Some((vcpus, _)) ==> vcpus.len() == n,
    decreases n,
{
    if n > 0 {
        lemma_vcpus_count(b, at, (n - 1) as nat, version);
    }
}

/// The regions and offsets, row by row.
pub open spec fn rows(
    regions: Seq<MemoryRegionDescriptor>,
    offsets: Seq<u64>,
) -> Seq<RegionLocation> {
    Seq::new(
        regions.len(),
        |i: int|
            RegionLocation {
                guest_phys_addr: regions[i].guest_phys_addr,
                size: regions[i].size,
                file_offset: offsets[i],
            },
    )
}

/// The region table: exactly one row.
fn read_table(r: &mut Source) -> (v: Result<
    (Vec<MemoryRegionDescriptor>, Vec<u64>),
    SnapshotError,
>)
    requires
        old(r).valid(),
    ensures
        final(r).valid(),
        match parse_table(old(r).buf@, old(r).off as int) {
            Ok(regions) => v matches Ok((descs, offsets)) && descs@.len() == 1 && offsets@.len()
                == 1 && rows(descs@, offsets@) == regions && final(r).buf == old(r).buf
                && final(r).off == old(r).off + 28,
            Err(refusal) => v matches Err(SnapshotError::Io(fault)) && fault@ == refusal,
        },
{
    let ghost b = r.buf@;
    let region_count: u32 = read_u32(r)?;
    let ghost at = r.off as int;
    let mut regions: Vec<MemoryRegionDescriptor> = Vec::new();
    let mut region_offsets: Vec<u64> = Vec::new();
    assert(rows(regions@, region_offsets@) =~= Seq::empty());
    for i in 0..region_count
        invariant
            r.valid(),
            r.buf == old(r).buf,
            b == r.buf@,
            at == old(r).off + 4,
            r.off == at + 24 * i,
            region_count == wire::at32(b, old(r).off as int),
            old(r).off + 4 <= b.len(),
            regions@.len() == i,
            region_offsets@.len() == i,
            parse_regions(b, at, i as nat) == Ok::<Seq<RegionLocation>, Refusal>(
                rows(regions@, region_offsets@),
            ),
    {
        let ghost before = rows(regions@, region_offsets@);
        proof {
            if parse_regions(b, at, (i + 1) as nat) is Err {
                lemma_regions_fail(b, at, (i + 1) as nat, region_count as nat);
            }
        }
        let guest_phys_addr: u64 = read_u64(r)?;
        let size: u64 = read_u64(r)?;
        let file_offset: u64 = read_u64(r)?;
        if file_offset % 4096 != 0 {
            return Err(SnapshotError::Io(SnapshotFault::UnalignedRegionOffset(file_offset)));
        }
        regions.push(MemoryRegionDescriptor { guest_phys_addr, size });
        region_offsets.push(file_offset);
        assert(rows(regions@, region_offsets@) =~= before.push(region_at(b, at + 24 * i)));
    }
    if region_count != 1 {
        return Err(SnapshotError::Io(SnapshotFault::RegionCount(region_count)));
    }
    Ok((regions, region_offsets))
}

/// Whether the bytes are those expected.
fn same_bytes(a: &[u8], b: &[u8]) -> (r: bool)
    ensures
        r == (a@ == b@),
{
    if a.len() != b.len() {
        return false;
    }
    for i in 0..a.len()
        invariant
            a@.len() == b@.len(),
            forall|j: int| 0 <= j < i ==> a@[j] == b@[j],
    {
        if a[i] != b[i] {
            return false;
        }
    }
    assert(a@ =~= b@);
    true
}

/// The VM-level, legacy-device and virtio-net state behind the region table.
fn read_tail(r: &mut Source, version: u32, Ghost(vcpus): Ghost<Seq<VcpuRecord>>) -> (v: Result<
    (VmStateData, LegacyDeviceState, VirtioNetState),
    SnapshotError,
>)
    requires
        old(r).valid(),
    ensures
        final(r).valid(),
        match parse_tail(old(r).buf@, old(r).off as int, vcpus, version) {
            Ok(state) => v matches Ok((vm, legacy, net)) && vm@ == state.vm && legacy@
                == state.legacy && net@ == state.devices,
            Err(refusal) => v matches Err(SnapshotError::Io(fault)) && fault@ == refusal,
        },
{
    let mut blobs: Vec<Vec<u8>> = read_blobs(r, blobs_in_tail(version))?;
    let ghost read = blobs_view(blobs@);
    proof {
        lemma_blobs_count(old(r).buf@, old(r).off as int, layout::tail_blobs(version));
    }
    let virtio_net_state: Result<VirtioNetState, VirtioNetStateError> = if version < 7 {
        Ok(VirtioNetState::default())
    } else {
        let virtio_net_bytes = take_last(&mut blobs);
        if version < 8 {
            virtio_net_state::decode_specs(virtio_net_bytes.as_slice())
        } else {
            virtio_net_state::decode(virtio_net_bytes.as_slice())
        }
    };
    let ghost left = blobs_view(blobs@);
    fill_up(&mut blobs, 7);
    let ghost all = blobs_view(blobs@);
    assert(all =~= layout::filled_up(read, 7));
    let com2 = take_last(&mut blobs);
    let com1 = take_last(&mut blobs);
    let clock = take_last(&mut blobs);
    let pit2 = take_last(&mut blobs);
    let ioapic = take_last(&mut blobs);
    let pic_slave = take_last(&mut blobs);
    let pic_master = take_last(&mut blobs);
    let vm_state = VmStateData { pic_master, pic_slave, ioapic, pit2, clock };
    let legacy_state = LegacyDeviceState { com1, com2 };
    assert(vm_state@ =~= all.subrange(0, 5));
    assert(legacy_state@ =~= all.subrange(5, 7));
    match virtio_net_state {
        Ok(net) => Ok((vm_state, legacy_state, net)),
        Err(e) => Err(SnapshotError::Io(SnapshotFault::VirtioNet(e))),
    }
}

/// The parsed front of a snapshot, and how far its regions have been read.
#[derive(Debug)]
pub struct SnapshotReader {
    /// Path that the snapshot was opened from.
    pub path: PathBuf,
    /// Format version from the header.
    pub format_version: u32,
    /// Golden or diff.
    pub kind: SnapshotKind,
    /// Number of recorded vCPU states.
    pub vcpu_count: u8,
    /// Total guest memory in bytes.
    pub mem_size_bytes: u64,
    /// SHA-256 of the parent golden; all zero for a golden.
    pub parent_sha256: [u8; 32],
    /// The vCPU states.
    pub vcpu_states: Vec<VcpuStateData>,
    /// The VM-level state.
    pub vm_state: VmStateData,
    /// The legacy-device state.
    pub legacy_state: LegacyDeviceState,
    /// The virtio-net state.
    pub virtio_net_state: VirtioNetState,
    /// The memory regions.
    pub regions: Vec<MemoryRegionDescriptor>,
    /// The file offset of each region, parallel to `regions`.
    pub region_offsets: Vec<u64>,
    /// Index of the next region to stream.
    pub region_index: usize,
}

/// A region that is being streamed.
#[derive(Debug, Clone, Copy, PartialEq, Eq, Structural)]
pub struct RegionStream {
    /// The region.
    pub region: MemoryRegionDescriptor,
    /// File offset of the next byte.
    pub offset: u64,
    /// Bytes that are still to be read.
    pub remaining: u64,
}

/// Largest chunk that is read at once.
pub const CHUNK_LEN: u64 = 1048576;

impl View for SnapshotReader {
    type V = Recorded;

    open spec fn view(&self) -> Recorded {
        Recorded {
            format_version: self.format_version,
            kind: self.kind,
            vcpu_count: self.vcpu_count,
            mem_size_bytes: self.mem_size_bytes,
            parent: self.parent_sha256@,
            state: GuestState {
                vcpus: Seq::new(self.vcpu_states@.len(), |i: int| self.vcpu_states@[i]@),
                vm: self.vm_state@,
                legacy: self.legacy_state@,
                devices: self.virtio_net_state@,
            },
            regions: rows(self.regions@, self.region_offsets@),
        }
    }
}

impl RegionStream {
    /// Takes the next chunk: its file offset and its length, or `None` when the region is done.
    pub fn next_chunk(&mut self) -> (r: Option<(u64, u64)>)
        requires
            old(self).offset + old(self).remaining <= u64::MAX,
        ensures
            final(self).region == old(self).region,
            final(self).offset + final(self).remaining == old(self).offset + old(self).remaining,
            r is None <==> old(self).remaining == 0,
            r is None ==> *final(self) == *old(self),
            r matches Some((at, len)) ==> at == old(self).offset && len == (if old(self).remaining
                < CHUNK_LEN {
                old(self).remaining
            } else {
                CHUNK_LEN
            }) && final(self).offset == at + len && final(self).remaining == old(self).remaining
                - len,
            r matches Some((at, len)) ==> 0 < len <= 1048576 && (len == 1048576
                || final(self).remaining == 0),
    {
        if self.remaining == 0 {
            return None;
        }
        let take: u64 = if self.remaining < CHUNK_LEN {
            self.remaining
        } else {
            CHUNK_LEN
        };
        let at: u64 = self.offset;
        self.offset = self.offset + take;
        self.remaining = self.remaining - take;
        Some((at, take))
    }
}

impl SnapshotReader {
    /// Every region has an offset, and no more regions have been read than there are.
    pub open spec fn well_formed(self) -> bool {
        &&& self.regions@.len() == self.region_offsets@.len()
        &&& self.region_index <= self.regions@.len()
    }

    /// The number of regions that have been read.
    pub open spec fn regions_read(self) -> nat {
        self.region_index as nat
    }

    /// Parses the front of the snapshot file at `path`. `data` is the file or any prefix of it
    /// that holds the header; where a prefix is too short, the answer is `UnexpectedEof`.
    pub fn open(path: PathBuf, data: &[u8]) -> (r: Result<Self, SnapshotError>)
        ensures
            match parse_snapshot(data@) {
                Ok(recorded) => r matches Ok(reader) && reader.well_formed() && reader@ == recorded
                    && reader.path == path && reader.regions_read() == 0,
                Err(refusal) => r matches Err(SnapshotError::Io(fault)) && fault@ == refusal,
            },
            r matches Ok(reader) ==> {
                &&& data@.len() >= 24
                &&& reader.format_version == wire::at32(data@, 8)
                &&& reader.vcpu_count == data@[12]
                &&& reader.vcpu_states@.len() == data@[12]
                &&& reader.mem_size_bytes == wire::at64(data@, 16)
                &&& reader.format_version == 9 ==> reader.parent_sha256@ == data@.subrange(24, 56)
                &&& reader.regions@.len() == 1
                &&& reader.region_offsets@.len() == 1
                &&& reader.region_index == 0
            },
    {
        let ghost b = data@;
        let mut src = Source { buf: data, off: 0 };
        assert(data.len() == b.len());
        let magic: [u8; 8] = read_exact::<8>(&mut src)?;
        if !same_bytes(magic.as_slice(), MAGIC.as_slice()) {
            return Err(SnapshotError::Io(SnapshotFault::BadMagic(magic)));
        }
        let format_version: u32 = read_u32(&mut src)?;
        if format_version < FIRST_FORMAT_VERSION || format_version > SNAPSHOT_FORMAT_VERSION {
            return Err(SnapshotError::Io(SnapshotFault::UnsupportedVersion(format_version)));
        }
        let vcpu_count: u8 = read_u8(&mut src)?;
        let kind_byte: u8 = read_u8(&mut src)?;
        let kind: SnapshotKind = if format_version < 9 {
            SnapshotKind::Golden
        } else {
            match SnapshotKind::from_u8(kind_byte) {
                Some(kind) => kind,
                None => {
                    return Err(SnapshotError::Io(SnapshotFault::UnknownKind(kind_byte)));
                },
            }
        };
        let _reserved: u16 = read_u16(&mut src)?;
        let mem_size_bytes: u64 = read_u64(&mut src)?;
        let no_parent = [0u8; 32];
        assert(no_parent@ =~= wire::zeros(32));
        let parent_sha256: [u8; 32] = if format_version < 9 {
            no_parent
        } else {
            read_exact::<32>(&mut src)?
        };
        let parentless: bool = same_bytes(parent_sha256.as_slice(), no_parent.as_slice());
        match kind {
            SnapshotKind::Golden => {
                if !parentless {
                    return Err(SnapshotError::Io(SnapshotFault::GoldenWithParent));
                }
            },
            SnapshotKind::Diff => {
                if parentless {
                    return Err(SnapshotError::Io(SnapshotFault::DiffWithoutParent));
                }
            },
        }
        assert(prelude_refusal(b) is None);
        assert(src.off == layout::prelude_len(format_version));
        let vcpu_states: Vec<VcpuStateData> = read_vcpus(&mut src, vcpu_count, format_version)?;
        proof {
            lemma_vcpus_count(
                b,
                layout::prelude_len(format_version) as int,
                vcpu_count as nat,
                format_version,
            );
        }
        let (regions, region_offsets) = read_table(&mut src)?;
        let (vm_state, legacy_state, virtio_net_state) = read_tail(
            &mut src,
            format_version,
            Ghost(vcpus_view(vcpu_states@)),
        )?;
        Ok(
            SnapshotReader {
                path,
                format_version,
                kind,
                vcpu_count,
                mem_size_bytes,
                parent_sha256,
                vcpu_states,
                vm_state,
                legacy_state,
                virtio_net_state,
                regions,
                region_offsets,
                region_index: 0,
            },
        )
    }

    /// Where each region lies, for mapping the file over guest memory.
    pub fn regions_for_mmap(&self) -> (r: Vec<RegionLocation>)
        requires
            self.well_formed(),
        ensures
            r@ == self@.regions,
            r@.len() == self.regions@.len(),
            forall|i: int|
                0 <= i < r@.len() ==> (#[trigger] r@[i]).guest_phys_addr
                    == self.regions@[i].guest_phys_addr && r@[i].size == self.regions@[i].size
                    && r@[i].file_offset == self.region_offsets@[i],
    {
        let mut out: Vec<RegionLocation> = Vec::new();
        for i in 0..self.regions.len()
            invariant
                self.well_formed(),
                out@ =~= self@.regions.take(i as int),
        {
            out.push(
                RegionLocation {
                    guest_phys_addr: self.regions[i].guest_phys_addr,
                    size: self.regions[i].size,
                    file_offset: self.region_offsets[i],
                },
            );
        }
        assert(self@.regions.take(self.regions@.len() as int) =~= self@.regions);
        out
    }

    /// Starts streaming the next region.
    pub fn start_region(&self) -> (r: Result<RegionStream, SnapshotError>)
        requires
            self.well_formed(),
        ensures
            self.regions_read() >= self@.regions.len() ==> r == Err::<RegionStream, SnapshotError>(
                SnapshotError::Io(SnapshotFault::NoMoreRegions),
            ),
            self.regions_read() < self@.regions.len() ==> {
                let at = self@.regions[self.regions_read() as int];
                r == Ok::<RegionStream, SnapshotError>(
                    RegionStream {
                        region: MemoryRegionDescriptor {
                            guest_phys_addr: at.guest_phys_addr,
                            size: at.size,
                        },
                        offset: at.file_offset,
                        remaining: at.size,
                    },
                )
            },
            r is Ok <==> self.region_index < self.regions@.len(),
            r matches Ok(stream) ==> stream.region == self.regions@[self.region_index as int]
                && stream.offset == self.region_offsets@[self.region_index as int]
                && stream.remaining == stream.region.size,
    {
        if self.region_index >= self.regions.len() {
            return Err(SnapshotError::Io(SnapshotFault::NoMoreRegions));
        }
        let region = self.regions[self.region_index];
        Ok(
            RegionStream {
                region,
                offset: self.region_offsets[self.region_index],
                remaining: region.size,
            },
        )
    }

    /// Records that the region being streamed has been read whole.
    pub fn finish_region(&mut self)
        requires
            old(self).well_formed(),
            old(self).regions_read() < old(self)@.regions.len(),
        ensures
            final(self).well_formed(),
            final(self)@ == old(self)@,
            final(self).path == old(self).path,
            final(self).regions_read() == old(self).regions_read() + 1,
            *final(self) == (SnapshotReader {
                region_index: (old(self).region_index + 1) as usize,
                ..*old(self)
            }),
    {
        assert(self.region_index < self.regions.len());
        self.region_index = self.region_index + 1;
    }

    /// Reads the next region's payload out of the whole file. Where the file ends inside the
    /// payload, the region stays the next one.
    pub fn read_next_region(&mut self, file: &[u8]) -> (r: Result<
        (MemoryRegionDescriptor, Vec<u8>),
        SnapshotError,
    >)
        requires
            old(self).well_formed(),
        ensures
            final(self).well_formed(),
            final(self)@ == old(self)@,
            final(self).path == old(self).path,
            ({
                let n = old(self).regions_read();
                let at = old(self)@.regions[n as int];
                if n >= old(self)@.regions.len() {
                    r == Err::<(MemoryRegionDescriptor, Vec<u8>), SnapshotError>(
                        SnapshotError::Io(SnapshotFault::NoMoreRegions),
                    ) && final(self).regions_read() == n
                } else if at.size > 0 && at.file_offset + at.size > file@.len() {
                    r == Err::<(MemoryRegionDescriptor, Vec<u8>), SnapshotError>(
                        SnapshotError::Io(SnapshotFault::UnexpectedEof),
                    ) && final(self).regions_read() == n
                } else {
                    r matches Ok((region, payload)) && region.guest_phys_addr == at.guest_phys_addr
                        && region.size == at.size && payload@ == (if at.size == 0 {
                        Seq::empty()
                    } else {
                        file@.subrange(at.file_offset as int, at.file_offset + at.size)
                    }) && final(self).regions_read() == n + 1
                }
            }),
            r matches Ok((region, payload)) ==> {
                let at = old(self).region_offsets@[old(self).region_index as int];
                &&& region == old(self).regions@[old(self).region_index as int]
                &&& payload@.len() == region.size
                &&& forall|k: int|
                    0 <= k < payload@.len() ==> #[trigger] payload@[k] == file@[at + k]
                &&& final(self).region_index == old(self).region_index + 1
            },
            r is Err ==> *final(self) == *old(self),
            r is Err && old(self).region_index < old(self).regions@.len() ==> file@.len()
                < old(self).region_offsets@[old(self).region_index as int]
                + old(self).regions@[old(self).region_index as int].size,
    {
        let mut stream: RegionStream = self.start_region()?;
        let ghost at = stream.offset as int;
        let ghost size = stream.remaining as int;
        let len: u64 = file.len() as u64;
        if stream.remaining > 0 && (len < stream.offset || len - stream.offset < stream.remaining) {
            return Err(SnapshotError::Io(SnapshotFault::UnexpectedEof));
        }
        let region: MemoryRegionDescriptor = stream.region;
        let mut payload: Vec<u8> = Vec::new();
        while stream.remaining > 0
            invariant
                size > 0 ==> at + size <= file@.len() <= usize::MAX,
                stream.offset + stream.remaining == at + size,
                0 <= at <= stream.offset,
                size == 0 ==> stream.remaining == 0,
                size == 0 ==> payload@.len() == 0,
                size > 0 ==> payload@ =~= file@.subrange(at, stream.offset as int),
            decreases stream.remaining,
        {
            let ghost had = stream.offset as int;
            let chunk: Option<(u64, u64)> = stream.next_chunk();
            assert(file@.subrange(at, stream.offset as int) =~= file@.subrange(at, had)
                + file@.subrange(had, stream.offset as int));
            match chunk {
                Some((from, take)) => {
                    let bytes = wire::get_bytes(file, from as usize, take as usize);
                    wire::put_bytes(&mut payload, bytes.as_slice());
                },
                None => {},
            }
        }
        self.finish_region();
        Ok((region, payload))
    }

    /// Checks that a file ends with the trailer. Only its last four bytes count, so the end of
    /// the file will do.
    pub fn check_trailer(&self, end: &[u8]) -> (r: Result<(), SnapshotError>)
        ensures
            match trailer_refusal(end@) {
                None => r is Ok,
                Some(refusal) => r matches Err(SnapshotError::Io(fault)) && fault@ == refusal,
            },
            r is Ok <==> end@.len() >= 4 && end@[end@.len() - 4] == 69 && end@[end@.len() - 3] == 78
                && end@[end@.len() - 2] == 68 && end@[end@.len() - 1] == 33,
    {
        proof {
            if end@.len() >= 4 {
                let last = end@.subrange(end@.len() - 4, end@.len() as int);
                assert(last[0] == end@[end@.len() - 4] && last[1] == end@[end@.len() - 3] && last[2]
                    == end@[end@.len() - 2] && last[3] == end@[end@.len() - 1]);
                assert(MAGIC_TRAILER@[0] == 69 && MAGIC_TRAILER@[1] == 78 && MAGIC_TRAILER@[2] == 68
                    && MAGIC_TRAILER@[3] == 33);
                if last[0] == 69 && last[1] == 78 && last[2] == 68 && last[3] == 33 {
                    assert(last =~= MAGIC_TRAILER@);
                }
            }
        }
        if end.len() < 4 {
            return Err(SnapshotError::Io(SnapshotFault::TooShortForTrailer));
        }
        let mut src = Source { buf: end, off: end.len() - 4 };
        let trailer: [u8; 4] = read_exact::<4>(&mut src)?;
        if !same_bytes(trailer.as_slice(), MAGIC_TRAILER.as_slice()) {
            return Err(SnapshotError::Io(SnapshotFault::BadTrailer(trailer)));
        }
        Ok(())
    }
}

} // verus!
