//! Handing the network of a new sandbox to a guest that is restored.
//!
//! A restored guest has the network devices of its snapshot. The new sandbox opens a host TAP for
//! each of them, with as many queues as the device has file descriptors, and hands the descriptors
//! over under the ids of the snapshot, in declaration order.
use vstd::prelude::*;

use super::hypervisor::{CloudHypervisorInner, NetFd, PendingDevice};
use super::snapshot_rewrite;
use super::snapshot_rewrite::{RewriteError, SnapshotNetId};

verus! {

/// Why a restore cannot be prepared.
#[derive(Debug, Clone, PartialEq, Eq)]
pub enum RestoreError {
    /// No restore is armed.
    NotRestoring,
    /// The snapshot configuration cannot be read.
    Config(RewriteError),
    /// The snapshot has another number of network devices than the sandbox.
    DeviceCount { snapshot: usize, sandbox: usize },
    /// The snapshot wants another number of file descriptors than were opened.
    FdCount { expected: usize, opened: usize },
}

/// A host TAP to open.
#[derive(Debug, Clone, PartialEq, Eq)]
pub struct TapRequest {
    pub host_dev_name: String,
    pub queues: u32,
}

/// What a request says.
pub struct Tap {
    pub host_dev_name: Seq<char>,
    pub queues: u32,
}

impl View for TapRequest {
    type V = Tap;

    open spec fn view(&self) -> Tap {
        Tap { host_dev_name: self.host_dev_name@, queues: self.queues }
    }
}

/// What the requests say.
pub open spec fn taps_view(taps: Seq<TapRequest>) -> Seq<Tap> {
    Seq::new(taps.len(), |i: int| taps[i]@)
}

/// The TAP names of the network devices among the pending ones. The others are part of the
/// snapshot already.
pub open spec fn net_names(pending: Seq<PendingDevice>) -> Seq<Seq<char>>
    decreases pending.len(),
{
    if pending.len() == 0 {
        Seq::empty()
    } else {
        let before = net_names(pending.drop_last());
        match pending.last() {
            PendingDevice::Network(name) => before.push(name@),
            PendingDevice::Other(_) => before,
        }
    }
}

/// The number of queues that a device with this many file descriptors gets: one at least. The
/// number is passed on in 32 bits.
pub open spec fn queues_for(num_fds: nat) -> u32 {
    (if num_fds == 0 {
        1
    } else {
        num_fds % 0x1_0000_0000
    }) as u32
}

/// The TAPs to open, device by device.
pub open spec fn taps_for(names: Seq<Seq<char>>, nets: Seq<SnapshotNetId>) -> Seq<Tap> {
    Seq::new(
        nets.len(),
        |i: int| Tap { host_dev_name: names[i], queues: queues_for(nets[i].num_fds as nat) },
    )
}

/// The number of file descriptors that the devices want.
pub open spec fn fds_wanted(nets: Seq<SnapshotNetId>) -> nat
    decreases nets.len(),
{
    if nets.len() == 0 {
        0
    } else {
        fds_wanted(nets.drop_last()) + nets.last().num_fds as nat
    }
}

/// What an armed descriptor says.
pub struct ArmedFd {
    pub id: Seq<char>,
    pub fd: i32,
}

/// What armed descriptors say.
pub open spec fn armed_view(fds: Seq<NetFd>) -> Seq<ArmedFd> {
    Seq::new(fds.len(), |i: int| ArmedFd { id: fds[i].id@, fd: fds[i].fd })
}

/// The descriptors, each with the id of its device: the first device has the first ones.
pub open spec fn paired(nets: Seq<SnapshotNetId>, fds: Seq<i32>) -> Seq<ArmedFd>
    decreases nets.len(),
{
    if nets.len() == 0 {
        Seq::empty()
    } else {
        let before = paired(nets.drop_last(), fds);
        before + Seq::new(
            nets.last().num_fds as nat,
            |k: int| ArmedFd { id: nets.last().id@, fd: fds[before.len() + k] },
        )
    }
}

/// The TAP names of the network devices among the pending ones.
fn network_names(pending: &Vec<PendingDevice>) -> (r: Vec<String>)
    ensures
        r@.len() == net_names(pending@).len(),
        forall|k: int| 0 <= k < r@.len() ==> (#[trigger] r@[k])@ == net_names(pending@)[k],
{
    let mut out: Vec<String> = Vec::new();
    assert(pending@.take(0) =~= Seq::empty());
    for i in 0..pending.len()
        invariant
            out@.len() == net_names(pending@.take(i as int)).len(),
            forall|k: int|
                0 <= k < out@.len() ==> (#[trigger] out@[k])@ == net_names(
                    pending@.take(i as int),
                )[k],
    {
        assert(pending@.take(i + 1).drop_last() =~= pending@.take(i as int));
        match &pending[i] {
            PendingDevice::Network(name) => {
                out.push(name.clone());
            },
            PendingDevice::Other(_) => {},
        }
    }
    assert(pending@.take(pending@.len() as int) =~= pending@);
    out
}

/// The number of file descriptors that the devices want, if it is a machine number.
fn count_wanted(nets: &[SnapshotNetId]) -> (r: Option<usize>)
    ensures
        match r {
            Some(n) => n == fds_wanted(nets@),
            None => fds_wanted(nets@) > usize::MAX,
        },
{
    let mut sum: Option<usize> = Some(0);
    assert(nets@.take(0) =~= Seq::empty());
    for i in 0..nets.len()
        invariant
            match sum {
                Some(n) => n == fds_wanted(nets@.take(i as int)),
                None => fds_wanted(nets@.take(i as int)) > usize::MAX,
            },
    {
        assert(nets@.take(i + 1).drop_last() =~= nets@.take(i as int));
        sum = match sum {
            Some(n) => n.checked_add(nets[i].num_fds),
            None => None,
        };
    }
    assert(nets@.take(nets@.len() as int) =~= nets@);
    sum
}

impl CloudHypervisorInner {
    /// Takes the pending devices and says which host TAPs to open for a restore. `config` holds the
    /// snapshot's `config.json`.
    pub fn finalize_restore_pending_devices(&mut self, config: &[u8]) -> (r: Result<
        (Vec<SnapshotNetId>, Vec<TapRequest>),
        RestoreError,
    >)
        ensures
            ({
                let names = net_names(old(self).pending_devices@);
                let read = snapshot_rewrite::config_net_ids(config@);
                match (old(self).restore_src, read) {
                    (None, _) => r == Err::<(Vec<SnapshotNetId>, Vec<TapRequest>), RestoreError>(
                        RestoreError::NotRestoring,
                    ) && *final(self) == *old(self),
                    (Some(_), Err(fault)) => r matches Err(RestoreError::Config(e)) && e@ == fault
                        && *final(self) == *old(self),
                    (Some(_), Ok(ids)) => {
                        &&& final(self).pending_devices@.len() == 0
                        &&& *final(self) == (CloudHypervisorInner {
                            pending_devices: final(self).pending_devices,
                            ..*old(self)
                        })
                        &&& ids.len() != names.len() ==> r == Err::<
                            (Vec<SnapshotNetId>, Vec<TapRequest>),
                            RestoreError,
                        >(
                            RestoreError::DeviceCount {
                                snapshot: ids.len() as usize,
                                sandbox: names.len() as usize,
                            },
                        )
                        &&& ids.len() == names.len() ==> (r matches Ok((nets, taps))
                            && snapshot_rewrite::ids_view(nets@) == ids && taps_view(taps@)
                            == taps_for(names, nets@))
                        &&& r matches Ok((nets, taps)) ==> taps@.len() == nets@.len()
                            && forall|i: int|
                            0 <= i < taps@.len() ==> (#[trigger] taps@[i]).host_dev_name@
                                == names[i] && (nets@[i].num_fds == 0 ==> taps@[i].queues == 1) && (
                            0 < nets@[i].num_fds <= u32::MAX ==> taps@[i].queues
                                == nets@[i].num_fds)
                    },
                }
            }),
    {
        if self.restore_src.is_none() {
            return Err(RestoreError::NotRestoring);
        }
        let nets: Vec<SnapshotNetId> = match snapshot_rewrite::read_snapshot_net_ids(config) {
            Ok(nets) => nets,
            Err(e) => {
                return Err(RestoreError::Config(e));
            },
        };
        let mut pending: Vec<PendingDevice> = Vec::new();
        std::mem::swap(&mut pending, &mut self.pending_devices);
        let names: Vec<String> = network_names(&pending);
        if nets.len() != names.len() {
            return Err(
                RestoreError::DeviceCount { snapshot: nets.len(), sandbox: names.len() },
            );
        }
        let ghost wanted = taps_for(net_names(pending@), nets@);
        let mut taps: Vec<TapRequest> = Vec::new();
        for i in 0..nets.len()
            invariant
                nets@.len() == names@.len(),
                names@.len() == net_names(pending@).len(),
                forall|k: int|
                    0 <= k < names@.len() ==> (#[trigger] names@[k])@ == net_names(pending@)[k],
                wanted == taps_for(net_names(pending@), nets@),
                taps_view(taps@) =~= wanted.take(i as int),
        {
            let num_fds: usize = nets[i].num_fds;
            let queues: u32 = if num_fds == 0 {
                1
            } else {
                (num_fds as u64 % 0x1_0000_0000) as u32
            };
            let host_dev_name = names[i].clone();
            assert(host_dev_name@ == net_names(pending@)[i as int]);
            let ghost had = taps_view(taps@);
            taps.push(TapRequest { host_dev_name, queues });
            assert(taps_view(taps@) =~= had.push(wanted[i as int]));
        }
        assert(wanted.take(nets@.len() as int) =~= wanted);
        proof {
            assert forall|i: int| 0 <= i < taps@.len() implies (
            #[trigger] taps@[i]).host_dev_name@ == net_names(pending@)[i] && (nets@[i].num_fds == 0
                ==> taps@[i].queues == 1) && (0 < nets@[i].num_fds <= u32::MAX ==> taps@[i].queues
                == nets@[i].num_fds) by {
                assert(taps_view(taps@)[i] == wanted[i]);
            }
        }
        Ok((nets, taps))
    }

    /// Arms the file descriptors that were opened for the restore: the devices of the snapshot get
    /// them in declaration order, each as many as it wants.
    pub fn arm_restore_fds(&mut self, nets: &[SnapshotNetId], opened: &[i32]) -> (r: Result<
        (),
        RestoreError,
    >)
        requires
            fds_wanted(nets@) <= usize::MAX,
        ensures
            r == if fds_wanted(nets@) != opened@.len() {
                Err::<(), RestoreError>(
                    RestoreError::FdCount {
                        expected: fds_wanted(nets@) as usize,
                        opened: opened@.len() as usize,
                    },
                )
            } else {
                Ok::<(), RestoreError>(())
            },
            r is Err ==> *final(self) == *old(self),
            r is Ok ==> armed_view(final(self).restore_net_fds@) == paired(nets@, opened@),
            r is Ok ==> final(self).restore_net_fds@.len() == opened@.len() && forall|i: int|
                0 <= i < opened@.len() ==> (#[trigger] final(self).restore_net_fds@[i]).fd
                    == opened@[i],
            *final(self) == (CloudHypervisorInner {
                restore_net_fds: final(self).restore_net_fds,
                ..*old(self)
            }),
    {
        let expected: usize = count_wanted(nets).unwrap();
        if expected != opened.len() {
            return Err(RestoreError::FdCount { expected, opened: opened.len() });
        }
        let mut armed: Vec<NetFd> = Vec::new();
        assert(nets@.take(0) =~= Seq::empty());
        assert(armed_view(armed@) =~= Seq::empty());
        for i in 0..nets.len()
            invariant
                fds_wanted(nets@) == opened@.len() <= usize::MAX,
                armed@.len() == fds_wanted(nets@.take(i as int)),
                armed_view(armed@) =~= paired(nets@.take(i as int), opened@),
        {
            let ghost before = paired(nets@.take(i as int), opened@);
            let num_fds: usize = nets[i].num_fds;
            proof {
                assert(nets@.take(i + 1).drop_last() =~= nets@.take(i as int));
                lemma_wanted_grows(nets@, i + 1);
            }
            for k in 0..num_fds
                invariant
                    i < nets@.len(),
                    num_fds == nets@[i as int].num_fds,
                    fds_wanted(nets@) == opened@.len() <= usize::MAX,
                    before == paired(nets@.take(i as int), opened@),
                    before.len() + num_fds <= opened@.len(),
                    armed_view(armed@) =~= before + Seq::new(
                        k as nat,
                        |q: int| ArmedFd { id: nets@[i as int].id@, fd: opened@[before.len() + q] },
                    ),
            {
                assert(armed@.len() == armed_view(armed@).len());
                let fd: i32 = opened[armed.len()];
                let ghost had = armed_view(armed@);
                armed.push(NetFd { id: nets[i].id.clone(), fd });
                assert(armed_view(armed@) =~= had.push(
                    ArmedFd { id: nets@[i as int].id@, fd: opened@[before.len() + k] },
                ));
            }
            proof {
                assert(nets@.take(i + 1).last() == nets@[i as int]);
                assert(armed@.len() == armed_view(armed@).len());
            }
        }
        assert(nets@.take(nets@.len() as int) =~= nets@);
        proof {
            assert forall|i: int| 0 <= i < opened@.len() implies (#[trigger] armed@[i]).fd
                == opened@[i] by {
                lemma_paired(nets@, opened@, i);
                assert(armed_view(armed@)[i].fd == armed@[i].fd);
            }
        }
        self.restore_net_fds = armed;
        Ok(())
    }
}

/// Some of the devices want no more than all of them.
proof fn lemma_wanted_grows(nets: Seq<SnapshotNetId>, n: int)
    requires
        0 <= n <= nets.len(),
    ensures
        fds_wanted(nets.take(n)) <= fds_wanted(nets),
    decreases nets.len() - n,
{
    if n < nets.len() {
        lemma_wanted_grows(nets, n + 1);
        assert(nets.take(n + 1).drop_last() =~= nets.take(n));
    } else {
        assert(nets.take(n) =~= nets);
    }
}

/// The number of descriptors that come out of opening the TAPs, each with its queues.
pub open spec fn fds_opened(nets: Seq<SnapshotNetId>) -> nat
    decreases nets.len(),
{
    if nets.len() == 0 {
        0
    } else {
        fds_opened(nets.drop_last()) + queues_for(nets.last().num_fds as nat) as nat
    }
}

/// The descriptors that were opened are as many as the snapshot wants exactly where every device
/// wants one at least: a device without descriptors cannot be restored.
pub proof fn law_restore_needs_a_descriptor_per_device(nets: Seq<SnapshotNetId>)
    requires
        forall|i: int| 0 <= i < nets.len() ==> (#[trigger] nets[i]).num_fds <= u32::MAX,
    ensures
        fds_opened(nets) >= fds_wanted(nets),
        fds_opened(nets) == fds_wanted(nets) <==> forall|i: int|
            0 <= i < nets.len() ==> (#[trigger] nets[i]).num_fds > 0,
    decreases nets.len(),
{
    if nets.len() > 0 {
        let before = nets.drop_last();
        let n = nets.len() - 1;
        assert forall|i: int| 0 <= i < before.len() implies (#[trigger] before[i]).num_fds
            <= u32::MAX by {
            assert(nets[i].num_fds <= u32::MAX);
        }
        law_restore_needs_a_descriptor_per_device(before);
        assert(nets[n].num_fds <= u32::MAX);
        if forall|i: int| 0 <= i < nets.len() ==> (#[trigger] nets[i]).num_fds > 0 {
            assert forall|i: int| 0 <= i < before.len() implies (#[trigger] before[i]).num_fds
                > 0 by {
                assert(nets[i].num_fds > 0);
            }
            assert(nets[n].num_fds > 0);
        }
        if fds_opened(nets) == fds_wanted(nets) {
            assert forall|i: int| 0 <= i < nets.len() implies (#[trigger] nets[i]).num_fds > 0 by {
                if i < n {
                    assert(before[i].num_fds > 0);
                }
            }
        }
    }
}

/// Every opened descriptor is armed once, in the order of opening.
pub proof fn law_descriptors_keep_their_order(nets: Seq<SnapshotNetId>, fds: Seq<i32>, i: int)
    requires
        fds_wanted(nets) == fds.len(),
        0 <= i < fds.len(),
    ensures
        paired(nets, fds).len() == fds.len(),
        paired(nets, fds)[i].fd == fds[i],
{
    lemma_paired(nets, fds, i);
}

proof fn lemma_paired(nets: Seq<SnapshotNetId>, fds: Seq<i32>, i: int)
    ensures
        paired(nets, fds).len() == fds_wanted(nets),
        0 <= i < fds_wanted(nets) ==> paired(nets, fds)[i].fd == fds[i],
    decreases nets.len(),
{
    if nets.len() > 0 {
        lemma_paired(nets.drop_last(), fds, i);
    }
}

/// The network devices among pending ones are found wherever they stand, in order, and nothing else
/// is.
pub proof fn law_network_devices_are_picked(
    a: Seq<PendingDevice>,
    b: Seq<PendingDevice>,
    name: String,
)
    ensures
        net_names(a + b) == net_names(a) + net_names(b),
        net_names(seq![PendingDevice::Network(name)]) == seq![name@],
        net_names(seq![PendingDevice::Other(name)]) == Seq::<Seq<char>>::empty(),
    decreases b.len(),
{
    reveal_with_fuel(net_names, 2);
    assert(seq![PendingDevice::Network(name)].drop_last() =~= Seq::empty());
    assert(seq![PendingDevice::Other(name)].drop_last() =~= Seq::empty());
    assert(net_names(seq![PendingDevice::Network(name)]) =~= seq![name@]);
    if b.len() == 0 {
        assert(a + b =~= a);
        assert(net_names(a) + net_names(b) =~= net_names(a));
    } else {
        law_network_devices_are_picked(a, b.drop_last(), name);
        assert((a + b).drop_last() =~= a + b.drop_last());
        assert((a + b).last() == b.last());
        assert(net_names(a + b) =~= net_names(a) + net_names(b));
    }
}

/// A TAP is opened for every device, with its own name and as many queues as the device wants
/// descriptors, as far as 32 bits go, and with one where it wants none.
pub proof fn law_a_tap_for_every_device(names: Seq<Seq<char>>, nets: Seq<SnapshotNetId>, i: int)
    requires
        0 <= i < nets.len(),
    ensures
        taps_for(names, nets).len() == nets.len(),
        taps_for(names, nets)[i].host_dev_name == names[i],
        0 < nets[i].num_fds <= u32::MAX ==> taps_for(names, nets)[i].queues == nets[i].num_fds,
        nets[i].num_fds > 0 ==> taps_for(names, nets)[i].queues == nets[i].num_fds as nat
            % 0x1_0000_0000,
        nets[i].num_fds == 0 ==> taps_for(names, nets)[i].queues == 1,
{
}

/// What devices want adds up.
pub proof fn law_wanted_descriptors_add_up(
    a: Seq<SnapshotNetId>,
    b: Seq<SnapshotNetId>,
    one: SnapshotNetId,
)
    ensures
        fds_wanted(a + b) == fds_wanted(a) + fds_wanted(b),
        fds_wanted(seq![one]) == one.num_fds,
    decreases b.len(),
{
    reveal_with_fuel(fds_wanted, 2);
    assert(seq![one].drop_last() =~= Seq::empty());
    if b.len() == 0 {
        assert(a + b =~= a);
    } else {
        law_wanted_descriptors_add_up(a, b.drop_last(), one);
        assert((a + b).drop_last() =~= a + b.drop_last());
        assert((a + b).last() == b.last());
    }
}

/// Every device gets the descriptors that follow those of the devices in front of it, as many as it
/// wants, under its own id.
pub proof fn law_descriptors_go_to_their_devices(
    nets: Seq<SnapshotNetId>,
    fds: Seq<i32>,
    d: int,
    k: int,
)
    requires
        0 <= d < nets.len(),
        0 <= k < nets[d].num_fds,
    ensures
        fds_wanted(nets.take(d)) + k < fds_wanted(nets),
        paired(nets, fds)[fds_wanted(nets.take(d)) + k] == (ArmedFd {
            id: nets[d].id@,
            fd: fds[fds_wanted(nets.take(d)) + k],
        }),
        paired(nets, fds).len() == fds_wanted(nets),
    decreases nets.len(),
{
    let before = nets.drop_last();
    let at = fds_wanted(nets.take(d)) + k;
    lemma_paired(nets, fds, at);
    lemma_paired(before, fds, at);
    if d < before.len() {
        assert(before[d] == nets[d]);
        law_descriptors_go_to_their_devices(before, fds, d, k);
        assert(before.take(d) =~= nets.take(d));
    } else {
        assert(nets.take(d) =~= before);
    }
}

/// A request and what is said of it hold the same, and so do an armed descriptor and what is said of
/// it.
pub proof fn law_requests_are_told_in_full(tap: TapRequest, fds: Seq<NetFd>, i: int)
    requires
        0 <= i < fds.len(),
    ensures
        tap@.host_dev_name == tap.host_dev_name@,
        tap@.queues == tap.queues,
        armed_view(fds).len() == fds.len(),
        armed_view(fds)[i].id == fds[i].id@,
        armed_view(fds)[i].fd == fds[i].fd,
{
}

/// What is said of requests is said of each, in order.
pub proof fn law_taps_are_told_in_order(taps: Seq<TapRequest>, i: int)
    ensures
        taps_view(taps).len() == taps.len(),
        0 <= i < taps.len() ==> taps_view(taps)[i].host_dev_name == taps[i].host_dev_name@
            && taps_view(taps)[i].queues == taps[i].queues,
{
}

} // verus!
