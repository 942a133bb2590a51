//! Launching the hypervisor process: its arguments, and the file descriptors it inherits.
use vstd::prelude::*;
use vstd::string::*;

use super::hypervisor::{CloudHypervisorInner, NetFd, RootlessUser};
use crate::text;

verus! {

/// Why the hypervisor cannot be launched.
#[derive(Debug, Clone, Copy, PartialEq, Eq, Structural)]
pub enum LaunchError {
    /// A hypervisor is running, with this process id, or zero where it has none.
    AlreadyRunning(u32),
    /// This many file descriptors are armed but there is nothing to restore from.
    NetFdsWithoutSource(usize),
    /// An unprivileged hypervisor needs a user.
    RootlessUserMissing,
    /// There is no channel to listen for a shutdown on.
    NoShutdownReceiver,
    /// There is no channel to pass the exit code on.
    NoExitNotify,
}

/// A file descriptor that the child process gets at another number, and without the flag that
/// closes it on exec.
#[derive(Debug, Clone, Copy, PartialEq, Eq, Structural)]
pub struct FdMove {
    /// The descriptor to duplicate.
    pub from: i32,
    /// The number that the child sees it under.
    pub target: i32,
    /// Whether it has to be duplicated: it may have the right number already.
    pub duplicate: bool,
    /// Whether it has to be lifted first, to a number that nothing is moved to: another descriptor
    /// is moved to its own number before its turn.
    pub lift: bool,
}

/// How to launch the hypervisor.
#[derive(Debug, Clone, PartialEq, Eq)]
pub struct LaunchPlan {
    /// Command-line arguments.
    pub args: Vec<String>,
    /// What to do with file descriptors in the child: those that have to be lifted are duplicated
    /// to free numbers from `first_free` on; then each is moved, in order.
    pub fd_moves: Vec<FdMove>,
    /// The first number that nothing is moved to.
    pub first_free: i32,
    /// The network namespace that the child enters.
    pub netns: Option<String>,
    /// The SELinux label that the child gets.
    pub selinux_label: Option<String>,
    /// The user to become, for an unprivileged hypervisor.
    pub user: Option<RootlessUser>,
}

/// First file descriptor that a child gets beyond the standard ones.
pub const FIRST_FD: usize = 3;

/// `<id>@<fd>`.
pub open spec fn net_fd_entry(id: Seq<char>, i: int) -> Seq<char> {
    id + "@"@ + text::decimal((3 + i) as nat)
}

/// The first `n` entries, with commas between them.
pub open spec fn net_fd_list(fds: Seq<NetFd>, n: nat) -> Seq<char>
    decreases n,
{
    if n == 0 {
        Seq::empty()
    } else if n == 1 {
        net_fd_entry(fds[0].id@, 0)
    } else {
        net_fd_list(fds, (n - 1) as nat) + ","@ + net_fd_entry(fds[n - 1].id@, n - 1)
    }
}

/// The value of `--restore`.
pub open spec fn restore_value(src: Seq<char>, fds: Seq<NetFd>) -> Seq<char> {
    if fds.len() == 0 {
        "source_url=file://"@ + src
    } else {
        "source_url=file://"@ + src + ",net_fds=["@ + net_fd_list(fds, fds.len()) + "]"@
    }
}

/// The texts of a list.
pub open spec fn texts(list: Seq<String>) -> Seq<Seq<char>> {
    Seq::new(list.len(), |i: int| list[i]@)
}

/// The command-line arguments.
pub open spec fn launch_args(h: CloudHypervisorInner, api_socket_path: Seq<char>) -> Seq<Seq<char>> {
    seq!["--api-socket"@, api_socket_path] + (match h.extra_args {
        Some(extra) => texts(extra@),
        None => Seq::empty(),
    }) + (if h.config.enable_debug {
        seq!["-v"@]
    } else {
        Seq::empty()
    }) + (if h.config.disable_seccomp {
        seq!["--seccomp"@, "false"@]
    } else {
        Seq::empty()
    }) + (match h.restore_src {
        Some(src) => seq!["--restore"@, restore_value(src@, h.restore_net_fds@)],
        None => Seq::empty(),
    })
}

/// What is done with the file descriptors: the armed ones go to 3, 4, and so on.
pub open spec fn fd_moves(fds: Seq<NetFd>) -> Seq<FdMove> {
    Seq::new(
        fds.len(),
        |i: int|
            FdMove {
                from: fds[i].fd,
                target: (3 + i) as i32,
                duplicate: fds[i].fd != 3 + i,
                lift: 3 <= fds[i].fd < 3 + i,
            },
    )
}

/// The error that a launch ends in, if any.
pub open spec fn launch_fault(h: CloudHypervisorInner, rootless: bool) -> Option<LaunchError> {
    match h.process {
        Some(Some(pid)) => Some(LaunchError::AlreadyRunning(pid)),
        Some(None) => Some(LaunchError::AlreadyRunning(0)),
        None => if h.restore_src is None && h.restore_net_fds@.len() > 0 {
            Some(LaunchError::NetFdsWithoutSource(h.restore_net_fds@.len() as usize))
        } else if rootless && h.config.rootless_user is None {
            Some(LaunchError::RootlessUserMissing)
        } else {
            None
        },
    }
}

/// What a user is.
pub open spec fn same_user(a: RootlessUser, b: RootlessUser) -> bool {
    a.uid == b.uid && a.gid == b.gid && a.groups@ == b.groups@
}

/// Whether two texts are the same, or neither is there.
pub open spec fn same_text(a: Option<String>, b: Option<String>) -> bool {
    match (a, b) {
        (Some(a), Some(b)) => a@ == b@,
        (None, None) => true,
        _ => false,
    }
}

/// A copy of a text, if it is there.
fn copy_text(text: &Option<String>) -> (r: Option<String>)
    ensures
        same_text(r, *text),
{
    match text {
        Some(text) => Some(text.clone()),
        None => None,
    }
}

/// The value of `--restore`.
fn restore_arg(src: &String, fds: &Vec<NetFd>) -> (r: String)
    requires
        fds@.len() <= i32::MAX - 3,
    ensures
        r@ == restore_value(src@, fds@),
{
    let mut value = text::join2("source_url=file://", src.as_str());
    if fds.len() > 0 {
        let ghost head = value@;
        value.append(",net_fds=[");
        let ghost opened = value@;
        for i in 0..fds.len()
            invariant
                fds@.len() <= i32::MAX - 3,
                value@ =~= opened + net_fd_list(fds@, i as nat),
        {
            let ghost had = value@;
            if i > 0 {
                value.append(",");
            }
            value.append(fds[i].id.as_str());
            value.append("@");
            text::push_decimal(&mut value, (FIRST_FD + i) as u64);
            proof {
                reveal_with_fuel(net_fd_list, 2);
                if i > 0 {
                    assert(value@ =~= opened + (net_fd_list(fds@, i as nat) + ","@ + net_fd_entry(
                        fds@[i as int].id@,
                        i as int,
                    )));
                } else {
                    assert(value@ =~= opened + net_fd_entry(fds@[0].id@, 0));
                }
            }
        }
        value.append("]");
        assert(value@ =~= restore_value(src@, fds@));
    }
    value
}

/// Appends a text.
fn push_text(list: &mut Vec<String>, item: &str)
    ensures
        texts(final(list)@) == texts(old(list)@).push(item@),
{
    list.push(String::from_str(item));
    assert(texts(list@) =~= texts(old(list)@).push(item@));
}

impl CloudHypervisorInner {
    /// Whether no hypervisor is running yet.
    pub fn cloud_hypervisor_ensure_not_launched(&self) -> (r: Result<(), LaunchError>)
        ensures
            r == match self.process {
                None => Ok::<(), LaunchError>(()),
                Some(Some(pid)) => Err::<(), LaunchError>(LaunchError::AlreadyRunning(pid)),
                Some(None) => Err::<(), LaunchError>(LaunchError::AlreadyRunning(0)),
            },
    {
        match self.process {
            None => Ok(()),
            Some(Some(pid)) => Err(LaunchError::AlreadyRunning(pid)),
            Some(None) => Err(LaunchError::AlreadyRunning(0)),
        }
    }

    /// The command-line arguments.
    fn launch_arguments(&self, api_socket_path: &str) -> (r: Vec<String>)
        requires
            self.restore_net_fds@.len() <= i32::MAX - 3,
        ensures
            texts(r@) == launch_args(*self, api_socket_path@),
    {
        let mut args: Vec<String> = Vec::new();
        assert(texts(args@) =~= Seq::empty());
        push_text(&mut args, "--api-socket");
        push_text(&mut args, api_socket_path);
        let ghost first = seq!["--api-socket"@, api_socket_path@];
        assert(texts(args@) =~= first);
        let ghost extras = match &self.extra_args {
            Some(extra) => texts(extra@),
            None => Seq::empty(),
        };
        match &self.extra_args {
            Some(extra) => {
                for i in 0..extra.len()
                    invariant
                        texts(args@) =~= first + texts(extra@).take(i as int),
                {
                    push_text(&mut args, extra[i].as_str());
                }
                assert(texts(extra@).take(extra@.len() as int) =~= texts(extra@));
            },
            None => {},
        }
        let ghost second = first + extras;
        assert(texts(args@) =~= second);
        let ghost debug = if self.config.enable_debug {
            seq!["-v"@]
        } else {
            Seq::empty()
        };
        if self.config.enable_debug {
            push_text(&mut args, "-v");
        }
        let ghost third = second + debug;
        assert(texts(args@) =~= third);
        let ghost seccomp = if self.config.disable_seccomp {
            seq!["--seccomp"@, "false"@]
        } else {
            Seq::empty()
        };
        if self.config.disable_seccomp {
            push_text(&mut args, "--seccomp");
            push_text(&mut args, "false");
        }
        let ghost fourth = third + seccomp;
        assert(texts(args@) =~= fourth);
        match &self.restore_src {
            Some(src) => {
                let value = restore_arg(src, &self.restore_net_fds);
                push_text(&mut args, "--restore");
                push_text(&mut args, value.as_str());
                assert(texts(args@) =~= fourth + seq![
                    "--restore"@,
                    restore_value(src@, self.restore_net_fds@),
                ]);
            },
            None => {
                assert(texts(args@) =~= fourth + Seq::<Seq<char>>::empty());
            },
        }
        args
    }

    /// How to launch the hypervisor, with its API on `api_socket_path`. Where a restore is armed,
    /// the arguments name the snapshot and, for every armed file descriptor, the device it is for
    /// and the number that the child sees it under. Every launch uses the armed descriptors up.
    pub fn cloud_hypervisor_launch(&mut self, api_socket_path: &str, rootless: bool) -> (r: Result<
        LaunchPlan,
        LaunchError,
    >)
        requires
            old(self).restore_net_fds@.len() <= i32::MAX - 3,
        ensures
            match launch_fault(*old(self), rootless) {
                Some(e) => r == Err::<LaunchPlan, LaunchError>(e),
                None => r matches Ok(plan) && texts(plan.args@) == launch_args(
                    *old(self),
                    api_socket_path@,
                ) && plan.fd_moves@ == fd_moves(old(self).restore_net_fds@) && plan.first_free == 3
                    + old(self).restore_net_fds@.len() && same_text(
                    plan.netns,
                    old(self).netns,
                ) && same_text(plan.selinux_label, old(self).config.selinux_label) && (if rootless {
                    plan.user matches Some(user) && same_user(
                        user,
                        old(self).config.rootless_user->0,
                    )
                } else {
                    plan.user is None
                }),
            },
            old(self).process is Some ==> *final(self) == *old(self),
            old(self).process is None ==> final(self).restore_net_fds@.len() == 0,
            *final(self) == (CloudHypervisorInner {
                restore_net_fds: final(self).restore_net_fds,
                ..*old(self)
            }),
            r is Ok ==> old(self).process is None,
            old(self).process is None && old(self).restore_src is Some && !rootless ==> r is Ok,
            r matches Ok(plan) ==> {
                &&& plan.args@.len() >= 2 && plan.args@[1]@ == api_socket_path@
                &&& plan.fd_moves@.len() == old(self).restore_net_fds@.len()
                &&& forall|i: int|
                    0 <= i < plan.fd_moves@.len() ==> (#[trigger] plan.fd_moves@[i]).from
                        == old(self).restore_net_fds@[i].fd && plan.fd_moves@[i].target == 3 + i
                &&& plan.netns is Some <==> old(self).netns is Some
                &&& plan.netns is Some ==> (plan.netns->0)@ == (old(self).netns->0)@
                &&& plan.selinux_label is Some <==> old(self).config.selinux_label is Some
                &&& plan.selinux_label is Some ==> (plan.selinux_label->0)@ == (old(
                    self,
                ).config.selinux_label->0)@
                &&& plan.user is Some <==> rootless
                &&& plan.user matches Some(user) ==> (old(self).config.rootless_user matches Some(
                    own,
                ) && user.uid == own.uid && user.gid == own.gid && user.groups@ == own.groups@)
                &&& plan.first_free == 3 + plan.fd_moves@.len()
            },
    {
        proof {
            law_launch_arguments(*self, api_socket_path@);
        }
        self.cloud_hypervisor_ensure_not_launched()?;
        let args = self.launch_arguments(api_socket_path);
        let mut net_fds: Vec<NetFd> = Vec::new();
        std::mem::swap(&mut net_fds, &mut self.restore_net_fds);
        if self.restore_src.is_none() && net_fds.len() > 0 {
            return Err(LaunchError::NetFdsWithoutSource(net_fds.len()));
        }
        let mut moves: Vec<FdMove> = Vec::new();
        for i in 0..net_fds.len()
            invariant
                net_fds@.len() <= i32::MAX - 3,
                moves@ =~= fd_moves(net_fds@).take(i as int),
        {
            let target: i32 = (FIRST_FD + i) as i32;
            let from: i32 = net_fds[i].fd;
            let lift: bool = FIRST_FD as i32 <= from && from < target;
            moves.push(FdMove { from, target, duplicate: from != target, lift });
        }
        assert(fd_moves(net_fds@).take(net_fds@.len() as int) =~= fd_moves(net_fds@));
        let first_free: i32 = (FIRST_FD + net_fds.len()) as i32;
        let user: Option<RootlessUser> = if rootless {
            match &self.config.rootless_user {
                Some(user) => Some(
                    RootlessUser {
                        uid: user.uid,
                        gid: user.gid,
                        groups: vstd::slice::slice_to_vec(user.groups.as_slice()),
                    },
                ),
                None => {
                    return Err(LaunchError::RootlessUserMissing);
                },
            }
        } else {
            None
        };
        assert(texts(args@)[1] == args@[1]@);
        let netns = copy_text(&self.netns);
        let selinux_label = copy_text(&self.config.selinux_label);
        Ok(LaunchPlan { args, fd_moves: moves, first_free, netns, selinux_label, user })
    }

    /// The hypervisor process has been spawned. Takes note of its id and starts the output logger,
    /// which needs both channels; the one for the exit code goes to it.
    pub fn launched(&mut self, pid: Option<u32>) -> (r: Result<(), LaunchError>)
        ensures
            r == if !old(self).has_shutdown_receiver {
                Err::<(), LaunchError>(LaunchError::NoShutdownReceiver)
            } else if !old(self).has_exit_notify {
                Err::<(), LaunchError>(LaunchError::NoExitNotify)
            } else {
                Ok::<(), LaunchError>(())
            },
            *final(self) == (CloudHypervisorInner {
                pid,
                has_exit_notify: old(self).has_exit_notify && !old(self).has_shutdown_receiver,
                has_tasks: r is Ok || old(self).has_tasks,
                ..*old(self)
            }),
    {
        self.pid = pid;
        if !self.has_shutdown_receiver {
            return Err(LaunchError::NoShutdownReceiver);
        }
        if !self.has_exit_notify {
            return Err(LaunchError::NoExitNotify);
        }
        self.has_exit_notify = false;
        self.has_tasks = true;
        Ok(())
    }
}

// ---------------------------------------------------------------------------
// Laws.
// ---------------------------------------------------------------------------

/// The file descriptors of a process: what each refers to, and which are closed on exec.
pub struct FdTable {
    pub files: Map<int, int>,
    pub closed_on_exec: Set<int>,
}

impl FdTable {
    /// The table after a descriptor is lifted to `place`.
    pub open spec fn lifted(self, m: FdMove, place: int) -> FdTable {
        if m.lift {
            FdTable {
                files: self.files.insert(place, self.files[m.from as int]),
                closed_on_exec: self.closed_on_exec.insert(place),
            }
        } else {
            self
        }
    }

    /// The table after the first `n` descriptors are lifted, where they have to be.
    pub open spec fn after_lifts(self, moves: Seq<FdMove>, places: Seq<int>, n: nat) -> FdTable
        decreases n,
    {
        if n == 0 {
            self
        } else {
            self.after_lifts(moves, places, (n - 1) as nat).lifted(moves[n - 1], places[n - 1])
        }
    }

    /// The table after a move. Duplicating makes the target refer to what the source refers to, or
    /// what it was lifted to; the target stays open on exec.
    pub open spec fn moved(self, m: FdMove, place: int) -> FdTable {
        let from = if m.lift {
            place
        } else {
            m.from as int
        };
        FdTable {
            files: if m.duplicate {
                self.files.insert(m.target as int, self.files[from])
            } else {
                self.files
            },
            closed_on_exec: self.closed_on_exec.remove(m.target as int),
        }
    }

    /// The table after the first `n` moves.
    pub open spec fn after_moves(self, moves: Seq<FdMove>, places: Seq<int>, n: nat) -> FdTable
        decreases n,
    {
        if n == 0 {
            self
        } else {
            self.after_moves(moves, places, (n - 1) as nat).moved(moves[n - 1], places[n - 1])
        }
    }

    /// The table of the child: everything is lifted that has to be, and then moved.
    pub open spec fn in_child(self, moves: Seq<FdMove>, places: Seq<int>) -> FdTable {
        self.after_lifts(moves, places, moves.len()).after_moves(moves, places, moves.len())
    }

    /// Whether the descriptors may be lifted to `places`: each is at or behind `first_free`, and
    /// free at its turn.
    pub open spec fn may_lift(self, moves: Seq<FdMove>, places: Seq<int>, first_free: int) -> bool {
        &&& places.len() == moves.len()
        &&& forall|i: int|
            0 <= i < moves.len() && (#[trigger] moves[i]).lift ==> places[i] >= first_free
                && !self.after_lifts(moves, places, i as nat).files.contains_key(places[i])
    }
}

/// Lifting leaves the open descriptors alone, and a lifted one refers to what it did.
proof fn lemma_lifts(table: FdTable, fds: Seq<NetFd>, places: Seq<int>, n: nat)
    requires
        fds.len() <= i32::MAX - 3,
        n <= fds.len(),
        forall|i: int|
            0 <= i < fds.len() ==> table.files.contains_key((#[trigger] fds[i]).fd as int),
        table.may_lift(fd_moves(fds), places, 3int + fds.len()),
    ensures
        ({
            let now = table.after_lifts(fd_moves(fds), places, n);
            &&& forall|q: int| #[trigger]
                table.files.contains_key(q) ==> now.files.contains_key(q) && now.files[q]
                    == table.files[q]
            &&& forall|i: int|
                0 <= i < n && (#[trigger] fd_moves(fds)[i]).lift ==> now.files.contains_key(
                    places[i],
                ) && now.files[places[i]] == table.files[fds[i].fd as int]
        }),
    decreases n,
{
    if n > 0 {
        let m = (n - 1) as nat;
        let moves = fd_moves(fds);
        let before = table.after_lifts(moves, places, m);
        let now = table.after_lifts(moves, places, n);
        lemma_lifts(table, fds, places, m);
        assert(moves[m as int].lift ==> !before.files.contains_key(places[m as int]));
        assert(table.files.contains_key(fds[m as int].fd as int));
        assert forall|i: int| 0 <= i < n && (#[trigger] moves[i]).lift implies
            now.files.contains_key(places[i]) && now.files[places[i]]
            == table.files[fds[i].fd as int] by {
            if i < m {
                assert(before.files.contains_key(places[i]));
            }
        }
    }
}

/// Each move gives its number what its descriptor refers to, and leaves the others alone.
proof fn lemma_moves(table: FdTable, fds: Seq<NetFd>, places: Seq<int>, n: nat)
    requires
        fds.len() <= i32::MAX - 3,
        n <= fds.len(),
        forall|i: int|
            0 <= i < fds.len() ==> table.files.contains_key((#[trigger] fds[i]).fd as int),
        table.may_lift(fd_moves(fds), places, 3int + fds.len()),
    ensures
        ({
            let lifted = table.after_lifts(fd_moves(fds), places, fds.len());
            let now = lifted.after_moves(fd_moves(fds), places, n);
            &&& forall|i: int|
                0 <= i < n ==> now.files[3 + i] == table.files[(#[trigger] fds[i]).fd as int]
            &&& forall|q: int| 3 <= q < 3 + n ==> !#[trigger] now.closed_on_exec.contains(q)
            &&& forall|q: int| !(3 <= q < 3 + n) ==> #[trigger] now.files[q] == lifted.files[q]
        }),
    decreases n,
{
    if n > 0 {
        let m = (n - 1) as nat;
        let moves = fd_moves(fds);
        let lifted = table.after_lifts(moves, places, fds.len());
        let before = lifted.after_moves(moves, places, m);
        let now = lifted.after_moves(moves, places, n);
        lemma_lifts(table, fds, places, fds.len());
        lemma_moves(table, fds, places, m);
        let fd = fds[m as int].fd as int;
        let step = moves[m as int];
        assert(step.target == 3 + m);
        assert(table.files.contains_key(fd));
        let from = if step.lift {
            places[m as int]
        } else {
            fd
        };
        assert(before.files[from] == lifted.files[from]);
        assert(lifted.files[from] == table.files[fd]);
        assert forall|i: int| 0 <= i < n implies now.files[3 + i] == table.files[(
        #[trigger] fds[i]).fd as int] by {
            if i < m {
                assert(before.files[3 + i] == table.files[fds[i].fd as int]);
            }
        }
    }
}

/// In the child, descriptor `3 + i` refers to what the `i`-th armed descriptor refers to in the
/// parent, and stays open: the numbers in the arguments are right. The armed descriptors may have
/// any numbers, those that others are moved to among them, and may be lifted to any free ones.
pub proof fn law_child_sees_the_armed_files(
    table: FdTable,
    fds: Seq<NetFd>,
    places: Seq<int>,
    i: int,
)
    requires
        fds.len() <= i32::MAX - 3,
        forall|j: int|
            0 <= j < fds.len() ==> table.files.contains_key((#[trigger] fds[j]).fd as int),
        table.may_lift(fd_moves(fds), places, 3int + fds.len()),
        0 <= i < fds.len(),
    ensures
        ({
            let child = table.in_child(fd_moves(fds), places);
            &&& child.files[3 + i] == table.files[fds[i].fd as int]
            &&& !child.closed_on_exec.contains(3 + i)
        }),
{
    lemma_moves(table, fds, places, fds.len());
    let child = table.in_child(fd_moves(fds), places);
    assert(child.files[3 + i] == table.files[fds[i].fd as int]);
}

/// The value of `--restore` where no descriptor is armed: the snapshot alone.
pub proof fn law_restore_without_descriptors(src: Seq<char>, fds: Seq<NetFd>)
    ensures
        fds.len() == 0 <==> restore_value(src, fds) == "source_url=file://"@ + src,
{
    if fds.len() > 0 {
        let plain = "source_url=file://"@ + src;
        reveal_strlit("]");
        assert(restore_value(src, fds).len() > plain.len());
    }
}

/// What stands in front of the list of descriptors in the value of `--restore`.
pub open spec fn list_intro(src: Seq<char>) -> Seq<char> {
    "source_url=file://"@ + src + ",net_fds=["@
}

/// The list of descriptors in brackets.
proof fn lemma_restore_value(src: Seq<char>, fds: Seq<NetFd>)
    requires
        fds.len() > 0,
    ensures
        ({
            let value = restore_value(src, fds);
            let n = list_intro(src).len() as int;
            &&& value.len() >= n + 1
            &&& value.take(n) == list_intro(src)
            &&& value.subrange(n, value.len() - 1) == net_fd_list(fds, fds.len())
            &&& value.last() == ']'
        }),
{
    reveal_strlit("]");
    let value = restore_value(src, fds);
    let n = list_intro(src).len() as int;
    assert(value =~= list_intro(src) + net_fd_list(fds, fds.len()) + "]"@);
    assert(value.take(n) =~= list_intro(src));
    assert(value.subrange(n, value.len() - 1) =~= net_fd_list(fds, fds.len()));
}

/// A numeral has no comma in it.
proof fn lemma_entry_has_no_comma(id: Seq<char>, i: int)
    requires
        0 <= i,
        !id.contains(','),
    ensures
        forall|k: int| 0 <= k < net_fd_entry(id, i).len() ==> #[trigger] net_fd_entry(id, i)[k]
            != ',',
{
    reveal_strlit("@");
    let number = text::decimal((3 + i) as nat);
    let entry = net_fd_entry(id, i);
    text::lemma_decimal((3 + i) as nat);
    assert forall|k: int| 0 <= k < entry.len() implies #[trigger] entry[k] != ',' by {
        if k < id.len() {
            assert(entry[k] == id[k]);
            assert(id.contains(id[k]));
        } else if k > id.len() {
            assert(entry[k] == number[k - id.len() - 1]);
            assert('0' <= number[k - id.len() - 1] <= '9');
        }
    }
}

/// The list is taken apart at its commas.
proof fn lemma_list_splits(fds: Seq<NetFd>, n: nat)
    requires
        0 < n <= fds.len(),
        forall|i: int| 0 <= i < fds.len() ==> !(#[trigger] fds[i]).id@.contains(','),
    ensures
        text::split(net_fd_list(fds, n), ',') == Seq::new(
            n,
            |i: int| net_fd_entry(fds[i].id@, i),
        ),
    decreases n,
{
    reveal_strlit(",");
    let entries = Seq::new(n, |i: int| net_fd_entry(fds[i].id@, i));
    let last = net_fd_entry(fds[n - 1].id@, n - 1);
    assert(!fds[n - 1].id@.contains(','));
    lemma_entry_has_no_comma(fds[n - 1].id@, n - 1);
    if n == 1 {
        text::lemma_split(Seq::empty(), ',', last);
        assert(entries =~= seq![last]);
    } else {
        let before = net_fd_list(fds, (n - 1) as nat);
        lemma_list_splits(fds, (n - 1) as nat);
        text::lemma_split(before, ',', last);
        assert(","@ =~= seq![',']);
        assert(text::split(before, ',').push(last) =~= entries);
    }
}

/// Where descriptors are armed, for any number of them from one on, the value of `--restore` is the
/// snapshot and then, in brackets, a list. Taken apart at its commas it is exactly one entry for
/// each armed descriptor, in order: the id of the device, `@`, and the number that the child sees
/// the descriptor under, which is the number that it is moved to.
pub proof fn law_restore_lists_every_descriptor(src: Seq<char>, fds: Seq<NetFd>, i: int)
    requires
        0 <= i < fds.len() <= i32::MAX - 3,
        forall|k: int| 0 <= k < fds.len() ==> !(#[trigger] fds[k]).id@.contains(','),
    ensures
        ({
            let value = restore_value(src, fds);
            let intro = "source_url=file://"@ + src + ",net_fds=["@;
            let entries = text::split(value.subrange(intro.len() as int, value.len() - 1), ',');
            let number = entries[i].skip(fds[i].id@.len() + 1int);
            &&& value.len() > intro.len()
            &&& value.take(intro.len() as int) == intro
            &&& value.last() == ']'
            &&& entries.len() == fds.len()
            &&& entries[i] == fds[i].id@ + seq!['@'] + text::decimal((3 + i) as nat)
            &&& text::all_digits(number) && text::value_of(number) == 3 + i
            &&& fd_moves(fds)[i].target == text::value_of(number)
            &&& fd_moves(fds)[i].from == fds[i].fd
        }),
{
    reveal_strlit("@");
    assert("@"@ =~= seq!['@']);
    lemma_restore_value(src, fds);
    lemma_list_splits(fds, fds.len());
    text::lemma_decimal((3 + i) as nat);
    let entry = net_fd_entry(fds[i].id@, i);
    assert(entry.skip(fds[i].id@.len() + 1int) =~= text::decimal((3 + i) as nat));
}

/// Where an entry stands in the list.
proof fn lemma_entry_in_list(fds: Seq<NetFd>, n: nat, i: int) -> (at: int)
    requires
        0 <= i < n <= fds.len(),
    ensures
        text::stands_in(net_fd_list(fds, n), at, net_fd_entry(fds[i].id@, i)),
        at == 0 || net_fd_list(fds, n)[at - 1] == ',',
        ({
            let end = at + net_fd_entry(fds[i].id@, i).len();
            end == net_fd_list(fds, n).len() || net_fd_list(fds, n)[end] == ','
        }),
    decreases n,
{
    reveal_strlit(",");
    assert(","@ =~= seq![',']);
    let list = net_fd_list(fds, n);
    let entry = net_fd_entry(fds[i].id@, i);
    if n == 1 {
        assert(list.subrange(0, entry.len() as int) =~= entry);
        0
    } else {
        let before = net_fd_list(fds, (n - 1) as nat);
        if i == n - 1 {
            let at = before.len() + 1int;
            assert(list.subrange(at, at + entry.len()) =~= entry);
            assert(list[at - 1] == ',');
            at
        } else {
            let at = lemma_entry_in_list(fds, (n - 1) as nat, i);
            assert(list.subrange(at, at + entry.len()) =~= before.subrange(at, at + entry.len()));
            at
        }
    }
}

/// Whatever the ids of the devices are, every armed descriptor has its entry in the brackets, with a
/// comma or a bracket on either side.
pub proof fn law_restore_names_a_descriptor(src: Seq<char>, fds: Seq<NetFd>, i: int) -> (at: int)
    requires
        0 <= i < fds.len(),
    ensures
        ({
            let value = restore_value(src, fds);
            let intro = "source_url=file://"@ + src + ",net_fds=["@;
            let entry = fds[i].id@ + seq!['@'] + text::decimal((3 + i) as nat);
            let end = at + entry.len();
            &&& intro.len() <= at <= end < value.len()
            &&& value.subrange(at, end) == entry
            &&& value[at - 1] == '[' || value[at - 1] == ','
            &&& value[end] == ']' || value[end] == ','
        }),
{
    reveal_strlit("@");
    reveal_strlit(",net_fds=[");
    assert("@"@ =~= seq!['@']);
    lemma_restore_value(src, fds);
    let value = restore_value(src, fds);
    let intro = list_intro(src);
    let n = intro.len() as int;
    let list = net_fd_list(fds, fds.len());
    let entry = net_fd_entry(fds[i].id@, i);
    let own = lemma_entry_in_list(fds, fds.len(), i);
    let at = n + own;
    assert forall|k: int| 0 <= k < list.len() implies #[trigger] list[k] == value[n + k] by {
        assert(value.subrange(n, value.len() - 1)[k] == value[n + k]);
    }
    assert forall|k: int| 0 <= k < entry.len() implies value[at + k] == #[trigger] entry[k] by {
        assert(list.subrange(own, own + entry.len())[k] == list[own + k]);
    }
    assert(value.subrange(at, at + entry.len()) =~= entry);
    assert(value.take(n)[n - 1] == value[n - 1]);
    assert(intro[n - 1] == '[');
    at
}

/// The command line, place by place: the API socket, every extra argument in order, `-v` exactly
/// where debugging is on, `--seccomp false` exactly where seccomp is off, and `--restore` with its
/// value exactly where there is something to restore from.
pub proof fn law_launch_arguments(h: CloudHypervisorInner, api_socket_path: Seq<char>)
    ensures
        ({
            let args = launch_args(h, api_socket_path);
            let extras = match h.extra_args {
                Some(extra) => extra@.len() as int,
                None => 0,
            };
            let a = 2 + extras;
            let b = if h.config.enable_debug {
                a + 1
            } else {
                a
            };
            let c = if h.config.disable_seccomp {
                b + 2
            } else {
                b
            };
            &&& args[0] == "--api-socket"@
            &&& args[1] == api_socket_path
            &&& forall|k: int| 0 <= k < extras ==> #[trigger] args[2 + k] == (h.extra_args->0)@[k]@
            &&& h.config.enable_debug ==> args[a] == "-v"@
            &&& h.config.disable_seccomp ==> args[b] == "--seccomp"@ && args[b + 1] == "false"@
            &&& h.restore_src is None ==> args.len() == c
            &&& h.restore_src matches Some(src) ==> args.len() == c + 2 && args[c] == "--restore"@
                && args[c + 1] == restore_value(src@, h.restore_net_fds@)
        }),
{
}

/// A launch is refused exactly where a hypervisor is running, where descriptors are armed with
/// nothing to restore from, or where an unprivileged hypervisor has no user; in this order.
pub proof fn law_launch_is_refused_only_for_cause(h: CloudHypervisorInner, rootless: bool)
    ensures
        launch_fault(h, rootless) is None <==> h.process is None && (h.restore_src is Some
            || h.restore_net_fds@.len() == 0) && (rootless ==> h.config.rootless_user is Some),
        h.process matches Some(Some(pid)) ==> launch_fault(h, rootless) == Some(
            LaunchError::AlreadyRunning(pid),
        ),
        h.process == Some(None::<u32>) ==> launch_fault(h, rootless) == Some(
            LaunchError::AlreadyRunning(0),
        ),
        h.process is None && h.restore_src is None && h.restore_net_fds@.len() > 0 ==> launch_fault(
            h,
            rootless,
        ) == Some(LaunchError::NetFdsWithoutSource(h.restore_net_fds@.len() as usize)),
        launch_fault(h, rootless) matches Some(e) ==> e is AlreadyRunning || e is NetFdsWithoutSource
            || (e is RootlessUserMissing && rootless && h.config.rootless_user is None),
{
}

/// Every armed descriptor is moved to its own number, in order. It is duplicated unless it has that
/// number already, and lifted first where another is moved to its number before its turn.
pub proof fn law_descriptors_are_moved_in_order(fds: Seq<NetFd>, i: int)
    requires
        0 <= i < fds.len() <= i32::MAX - 3,
    ensures
        fd_moves(fds).len() == fds.len(),
        fd_moves(fds)[i].from == fds[i].fd,
        fd_moves(fds)[i].target == 3 + i,
        fd_moves(fds)[i].duplicate <==> fds[i].fd != 3 + i,
        fd_moves(fds)[i].lift <==> exists|k: int| 0 <= k < i && #[trigger] fd_moves(fds)[k].target
            == fds[i].fd,
{
    let fd = fds[i].fd;
    if 3 <= fd < 3 + i {
        assert(fd_moves(fds)[fd - 3].target == fd);
    }
}

/// The texts of a list are the texts of its items, in order.
pub proof fn law_texts_of_a_list(list: Seq<String>, i: int)
    ensures
        texts(list).len() == list.len(),
        0 <= i < list.len() ==> texts(list)[i] == list[i]@,
{
}

/// The entries of the list, joined by commas.
proof fn lemma_list_is_joined(fds: Seq<NetFd>, n: nat)
    requires
        0 < n <= fds.len(),
    ensures
        net_fd_list(fds, n) == text::joined(
            Seq::new(n, |i: int| net_fd_entry(fds[i].id@, i)),
            seq![','],
        ),
    decreases n,
{
    reveal_strlit(",");
    assert(","@ =~= seq![',']);
    let entries = Seq::new(n, |i: int| net_fd_entry(fds[i].id@, i));
    if n > 1 {
        let before = Seq::new((n - 1) as nat, |i: int| net_fd_entry(fds[i].id@, i));
        lemma_list_is_joined(fds, (n - 1) as nat);
        text::lemma_joined_push(before, seq![','], entries[n - 1]);
        assert(entries =~= before.push(entries[n - 1]));
    }
}

/// The whole value of `--restore` where descriptors are armed, whatever the ids of the devices are: the
/// snapshot, and in brackets the entries of the descriptors, in order, with a comma between each and
/// the next and nothing else.
pub proof fn law_restore_value_in_full(src: Seq<char>, fds: Seq<NetFd>)
    requires
        fds.len() > 0,
    ensures
        restore_value(src, fds) == "source_url=file://"@ + src + ",net_fds=["@ + text::joined(
            Seq::new(fds.len(), |i: int| fds[i].id@ + seq!['@'] + text::decimal((3 + i) as nat)),
            seq![','],
        ) + seq![']'],
{
    reveal_strlit("@");
    reveal_strlit("]");
    assert("@"@ =~= seq!['@']);
    assert("]"@ =~= seq![']']);
    lemma_list_is_joined(fds, fds.len());
    assert(Seq::new(fds.len(), |i: int| net_fd_entry(fds[i].id@, i)) =~= Seq::new(
        fds.len(),
        |i: int| fds[i].id@ + seq!['@'] + text::decimal((3 + i) as nat),
    ));
}

} // verus!
