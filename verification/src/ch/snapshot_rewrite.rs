//! Patching a Cloud Hypervisor snapshot for a new sandbox before it is restored.
//!
//! * `config.json` holds absolute `/run/vc/vm/<sandbox-id>/` paths of sockets. The new sandbox
//!   has another id, so the old id in these paths is replaced by the new one, as text.
//! * `state.json` records the vhost-user-fs device as activated, and a restore hangs on it. The
//!   nested `device_activated` flag is set to false.
//! * The `net` section of `config.json` tells which network devices the snapshot has, and how
//!   many file descriptors each of them wants.
use vstd::prelude::*;
use vstd::string::*;

use super::config_laws;
use super::json;
use super::json::{Json, JsonValue};
use super::rewrite_laws;
use crate::wire;

verus! {

/// A network device of a snapshot: its id and its number of file descriptors.
#[derive(Clone, Debug, PartialEq, Eq)]
pub struct SnapshotNetId {
    pub id: String,
    pub num_fds: usize,
}

/// What a network device entry says.
pub struct NetId {
    pub id: Seq<char>,
    pub num_fds: nat,
}

impl View for SnapshotNetId {
    type V = NetId;

    open spec fn view(&self) -> NetId {
        NetId { id: self.id@, num_fds: self.num_fds as nat }
    }
}

/// Why a snapshot file cannot be read or patched.
#[derive(Debug, Clone, PartialEq, Eq)]
pub enum RewriteError {
    /// The file is not JSON; what the parser says of it.
    NotJson(String),
    /// `net` is there but is not an array; what it is.
    NetNotArray(String),
    /// The network device with this index has no `id` string.
    NetIdMissing(usize),
    /// `fds` of the network device with this index is there but is not an array; what it is.
    FdsNotArray(usize, String),
    /// A `/run/vc/vm/` path has no sandbox id.
    MalformedSandboxId,
    /// The sandbox id is not UTF-8; what is wrong with it.
    SandboxIdNotUtf8(String),
    /// The file-system device has no `state` string.
    StateNotText,
    /// The `state` string is not JSON; what the parser says of it.
    InnerNotJson(String),
    /// The `state` string does not encode an object.
    InnerNotObject,
}

/// What an error says.
pub enum RewriteFault {
    NotJson(Seq<char>),
    NetNotArray(Seq<char>),
    NetIdMissing(int),
    FdsNotArray(int, Seq<char>),
    MalformedSandboxId,
    SandboxIdNotUtf8(Seq<char>),
    StateNotText,
    InnerNotJson(Seq<char>),
    InnerNotObject,
}

impl View for RewriteError {
    type V = RewriteFault;

    open spec fn view(&self) -> RewriteFault {
        match *self {
            RewriteError::NotJson(why) => RewriteFault::NotJson(why@),
            RewriteError::NetNotArray(found) => RewriteFault::NetNotArray(found@),
            RewriteError::NetIdMissing(i) => RewriteFault::NetIdMissing(i as int),
            RewriteError::FdsNotArray(i, found) => RewriteFault::FdsNotArray(i as int, found@),
            RewriteError::MalformedSandboxId => RewriteFault::MalformedSandboxId,
            RewriteError::SandboxIdNotUtf8(why) => RewriteFault::SandboxIdNotUtf8(why@),
            RewriteError::StateNotText => RewriteFault::StateNotText,
            RewriteError::InnerNotJson(why) => RewriteFault::InnerNotJson(why@),
            RewriteError::InnerNotObject => RewriteFault::InnerNotObject,
        }
    }
}

// ---------------------------------------------------------------------------
// Network devices.
// ---------------------------------------------------------------------------

/// What one entry of `net` says.
pub open spec fn net_id_of(entry: Json, i: int) -> Result<NetId, RewriteFault> {
    match entry.member("id"@) {
        Some(Json::String(id)) => match entry.member("fds"@) {
            Some(Json::Array(fds)) => Ok(NetId { id, num_fds: fds.len() }),
            Some(Json::Null) | None => Ok(NetId { id, num_fds: 0 }),
            Some(other) => Err(RewriteFault::FdsNotArray(i, json::json_debug(other))),
        },
        _ => Err(RewriteFault::NetIdMissing(i)),
    }
}

/// What the first `n` entries of `net` say, or what is wrong with the first bad one.
pub open spec fn net_ids_upto(entries: Seq<Json>, n: nat) -> Result<Seq<NetId>, RewriteFault>
    decreases n,
{
    if n == 0 {
        Ok(Seq::empty())
    } else {
        match net_ids_upto(entries, (n - 1) as nat) {
            Err(e) => Err(e),
            Ok(before) => match net_id_of(entries[n - 1], n - 1) {
                Err(e) => Err(e),
                Ok(id) => Ok(before.push(id)),
            },
        }
    }
}

/// The network devices of a configuration, in declaration order.
pub open spec fn net_ids_of(config: Json) -> Result<Seq<NetId>, RewriteFault> {
    match config.member("net"@) {
        Some(Json::Array(entries)) => net_ids_upto(entries, entries.len()),
        Some(Json::Null) | None => Ok(Seq::empty()),
        Some(other) => Err(RewriteFault::NetNotArray(json::json_debug(other))),
    }
}

/// The first bad entry decides.
proof fn lemma_net_ids_fail(entries: Seq<Json>, some: nat, all: nat)
    requires
        some <= all,
        net_ids_upto(entries, some) is Err,
    ensures
        net_ids_upto(entries, all) == net_ids_upto(entries, some),
    decreases all,
{
    if some < all {
        lemma_net_ids_fail(entries, some, (all - 1) as nat);
    }
}

/// What the entries say.
pub open spec fn ids_view(ids: Seq<SnapshotNetId>) -> Seq<NetId> {
    Seq::new(ids.len(), |i: int| ids[i]@)
}

/// What one entry of `net` says.
fn net_id(entry: JsonValue, i: usize) -> (r: Result<SnapshotNetId, RewriteError>)
    ensures
        match net_id_of(entry@, i as int) {
            Ok(id) => r matches Ok(got) && got@ == id,
            Err(fault) => r matches Err(e) && e@ == fault,
        },
{
    let id: String = match entry.member("id") {
        Some(JsonValue::String(id)) => id.clone(),
        _ => {
            return Err(RewriteError::NetIdMissing(i));
        },
    };
    let num_fds: usize = match entry.into_member("fds") {
        Some(JsonValue::Array(fds)) => fds.len(),
        Some(JsonValue::Null) => 0,
        None => 0,
        Some(other) => {
            return Err(RewriteError::FdsNotArray(i, json::debug_text(other)));
        },
    };
    Ok(SnapshotNetId { id, num_fds })
}

/// The network devices of a configuration, in declaration order.
pub fn net_ids(config: JsonValue) -> (r: Result<Vec<SnapshotNetId>, RewriteError>)
    ensures
        match net_ids_of(config@) {
            Ok(ids) => r matches Ok(got) && ids_view(got@) == ids,
            Err(fault) => r matches Err(e) && e@ == fault,
        },
{
    let ghost said = config@;
    let mut out: Vec<SnapshotNetId> = Vec::new();
    assert(ids_view(out@) =~= Seq::empty());
    let entries: Vec<JsonValue> = match config.into_member("net") {
        Some(JsonValue::Array(entries)) => entries,
        Some(JsonValue::Null) => {
            return Ok(out);
        },
        None => {
            return Ok(out);
        },
        Some(other) => {
            return Err(RewriteError::NetNotArray(json::debug_text(other)));
        },
    };
    let ghost given = entries@;
    let ghost all = said.member("net"@)->0->Array_0;
    let mut i: usize = 0;
    assert(entries.len() == given.len());
    for entry in it: entries.into_iter()
        invariant
            it.seq() == given,
            i == it.index(),
            given.len() <= usize::MAX,
            said == config@,
            said.member("net"@) == Some(Json::Array(all)),
            all.len() == given.len(),
            forall|k: int| 0 <= k < all.len() ==> #[trigger] all[k] == given[k]@,
            net_ids_upto(all, i as nat) == Ok::<Seq<NetId>, RewriteFault>(ids_view(out@)),
    {
        let ghost before = ids_view(out@);
        proof {
            assert(all[i as int] == given[i as int]@);
            if net_ids_upto(all, (i + 1) as nat) is Err {
                lemma_net_ids_fail(all, (i + 1) as nat, all.len());
            }
        }
        let id: SnapshotNetId = net_id(entry, i)?;
        out.push(id);
        assert(ids_view(out@) =~= before.push(id@));
        i = i + 1;
    }
    Ok(out)
}

/// The network devices of the snapshot configuration with these contents, in declaration order.
pub open spec fn config_net_ids(data: Seq<u8>) -> Result<Seq<NetId>, RewriteFault> {
    match json::json_parse(data) {
        Err(why) => Err(RewriteFault::NotJson(why)),
        Ok(config) => net_ids_of(config),
    }
}

/// The network devices of the snapshot configuration with these contents, in declaration order.
pub fn read_snapshot_net_ids(data: &[u8]) -> (r: Result<Vec<SnapshotNetId>, RewriteError>)
    ensures
        match config_net_ids(data@) {
            Ok(ids) => r matches Ok(got) && ids_view(got@) == ids,
            Err(fault) => r matches Err(e) && e@ == fault,
        },
{
    match json::parse(data) {
        Ok(config) => net_ids(config),
        Err(why) => Err(RewriteError::NotJson(why)),
    }
}

// ---------------------------------------------------------------------------
// Byte search and replacement.
// ---------------------------------------------------------------------------

/// Whether `needle` stands in `hay` at `i`.
pub open spec fn occurs_at(hay: Seq<u8>, i: int, needle: Seq<u8>) -> bool {
    &&& 0 <= i
    &&& i + needle.len() <= hay.len()
    &&& hay.subrange(i, i + needle.len()) == needle
}

/// The first place from `from` on where `needle` stands in `hay`.
pub open spec fn first_from(hay: Seq<u8>, needle: Seq<u8>, from: int) -> Option<int>
    decreases hay.len() - from,
{
    if from + needle.len() > hay.len() || from >= hay.len() {
        None
    } else if occurs_at(hay, from, needle) {
        Some(from)
    } else {
        first_from(hay, needle, from + 1)
    }
}

/// The first place where `needle` stands in `hay`. An empty needle stands nowhere.
pub open spec fn first_place(hay: Seq<u8>, needle: Seq<u8>) -> Option<int> {
    if needle.len() == 0 {
        None
    } else {
        first_from(hay, needle, 0)
    }
}

/// `hay` with `from` replaced by `to`, left to right; what was replaced is not looked at again.
pub open spec fn replaced(hay: Seq<u8>, from: Seq<u8>, to: Seq<u8>) -> Seq<u8>
    decreases hay.len(),
{
    if hay.len() == 0 {
        Seq::empty()
    } else if from.len() > 0 && occurs_at(hay, 0, from) {
        to + replaced(hay.skip(from.len() as int), from, to)
    } else {
        seq![hay[0]] + replaced(hay.skip(1), from, to)
    }
}

/// Whether `needle` stands in `hay` at `i`.
fn matches_at(hay: &[u8], i: usize, needle: &[u8]) -> (r: bool)
    requires
        i <= hay@.len(),
    ensures
        r == occurs_at(hay@, i as int, needle@),
{
    if needle.len() > hay.len() - i {
        return false;
    }
    for k in 0..needle.len()
        invariant
            i + needle@.len() <= hay@.len() <= usize::MAX,
            forall|j: int| 0 <= j < k ==> hay@[i + j] == needle@[j],
    {
        if hay[i + k] != needle[k] {
            assert(hay@.subrange(i as int, i + needle@.len())[k as int] == hay@[i + k]);
            return false;
        }
    }
    assert(hay@.subrange(i as int, i + needle@.len()) =~= needle@);
    true
}

/// Where `needle` first stands in `hay`.
pub fn find_subslice(hay: &[u8], needle: &[u8]) -> (r: Option<usize>)
    ensures
        match first_place(hay@, needle@) {
            Some(i) => r == Some(i as usize) && 0 <= i < hay@.len(),
            None => r is None,
        },
        r matches Some(i) ==> i + needle@.len() <= hay@.len() && hay@.subrange(
            i as int,
            i + needle@.len(),
        ) == needle@ && forall|j: int|
            0 <= j < i ==> #[trigger] hay@.subrange(j, j + needle@.len()) != needle@,
        r is None && needle@.len() > 0 ==> forall|j: int|
            0 <= j <= hay@.len() - needle@.len() ==> #[trigger] hay@.subrange(j, j + needle@.len())
                != needle@,
        needle@.len() == 0 ==> r is None,
{
    proof {
        if needle@.len() > 0 {
            let found = first_place(hay@, needle@);
            config_laws::law_first_place_is_found(hay@, needle@, found->0);
        }
    }
    if needle.len() == 0 || needle.len() > hay.len() {
        return None;
    }
    let last: usize = hay.len() - needle.len();
    let mut i: usize = 0;
    while i <= last
        invariant
            needle@.len() > 0,
            last + needle@.len() == hay@.len() <= usize::MAX,
            i <= last + 1,
            first_place(hay@, needle@) == first_from(hay@, needle@, i as int),
        decreases last + 1 - i,
    {
        if matches_at(hay, i, needle) {
            proof {
                config_laws::law_first_place_is_found(hay@, needle@, i as int);
            }
            return Some(i);
        }
        i = i + 1;
    }
    None
}

/// `hay` with `from` replaced by `to`, left to right.
pub fn replace_bytes(hay: &[u8], from: &[u8], to: &[u8]) -> (r: Vec<u8>)
    requires
        from@.len() > 0,
    ensures
        r@ == replaced(hay@, from@, to@),
        forall|pieces: Seq<Seq<u8>>| #[trigger]
            config_laws::cut_at(pieces, from@) && config_laws::joined(pieces, from@) == hay@ ==> r@
                == config_laws::joined(pieces, to@),
{
    let mut out: Vec<u8> = Vec::new();
    let mut i: usize = 0;
    assert(hay@.skip(0) =~= hay@);
    while i < hay.len()
        invariant
            from@.len() > 0,
            i <= hay@.len(),
            out@ + replaced(hay@.skip(i as int), from@, to@) =~= replaced(hay@, from@, to@),
        decreases hay@.len() - i,
    {
        let ghost rest = hay@.skip(i as int);
        let ghost had = out@;
        proof {
            if i + from@.len() <= hay@.len() {
                assert(rest.subrange(0, from@.len() as int) =~= hay@.subrange(
                    i as int,
                    i + from@.len(),
                ));
            }
        }
        if matches_at(hay, i, from) {
            wire::put_bytes(&mut out, to);
            proof {
                assert(rest.skip(from@.len() as int) =~= hay@.skip(i + from@.len()));
                wire::lemma_append(had, to@, replaced(hay@.skip(i + from@.len()), from@, to@));
            }
            i = i + from.len();
        } else {
            out.push(hay[i]);
            proof {
                assert(rest.skip(1) =~= hay@.skip(i + 1));
                assert(out@ =~= had + seq![rest[0]]);
                wire::lemma_append(had, seq![rest[0]], replaced(hay@.skip(i + 1), from@, to@));
            }
            i = i + 1;
        }
    }
    assert(hay@.skip(hay@.len() as int).len() == 0);
    proof {
        assert forall|pieces: Seq<Seq<u8>>| #[trigger]
            config_laws::cut_at(pieces, from@) && config_laws::joined(pieces, from@)
                == hay@ implies out@ == config_laws::joined(pieces, to@) by {
            config_laws::law_replacing_keeps_the_pieces(pieces, from@, to@);
        }
    }
    out
}

// ---------------------------------------------------------------------------
// config.json
// ---------------------------------------------------------------------------

/// `/run/vc/vm/`, what the paths of a sandbox start with.
pub const VM_DIR_PREFIX: [u8; 11] = [47u8, 114, 117, 110, 47, 118, 99, 47, 118, 109, 47];

/// Whether a byte ends a sandbox id: `/` or `"`.
pub open spec fn ends_id(b: u8) -> bool {
    b == 47 || b == 34
}

/// The length of the sandbox id at the start of `after`, if it ends.
pub open spec fn id_len(after: Seq<u8>) -> Option<int>
    decreases after.len(),
{
    if after.len() == 0 {
        None
    } else if ends_id(after[0]) {
        Some(0)
    } else {
        match id_len(after.skip(1)) {
            Some(n) => Some(n + 1),
            None => None,
        }
    }
}

/// `/run/vc/vm/<id>/`.
pub open spec fn sandbox_dir(id: Seq<u8>) -> Seq<u8> {
    VM_DIR_PREFIX@ + id + seq![47u8]
}

/// The first sandbox id that is embedded in a configuration: where the path starts, and the id.
pub open spec fn embedded_id(config: Seq<u8>) -> Result<Option<(int, Seq<u8>)>, RewriteFault> {
    match first_place(config, VM_DIR_PREFIX@) {
        None => Ok(None),
        Some(i) => {
            let after = config.skip(i + 11);
            match id_len(after) {
                None => Err(RewriteFault::MalformedSandboxId),
                Some(n) => if n == 0 {
                    Err(RewriteFault::MalformedSandboxId)
                } else if !wire::is_text(after.take(n)) {
                    Err(RewriteFault::SandboxIdNotUtf8(wire::utf8_complaint(after.take(n))))
                } else {
                    Ok(Some((i, after.take(n))))
                },
            }
        },
    }
}

/// The patched configuration; `None` where there is nothing to patch.
pub open spec fn config_patch(config: Seq<u8>, new_id: Seq<char>) -> Result<
    Option<Seq<u8>>,
    RewriteFault,
> {
    match embedded_id(config) {
        Err(e) => Err(e),
        Ok(None) => Ok(None),
        Ok(Some((_, old_id))) => if wire::text_of(old_id) == new_id {
            Ok(None)
        } else {
            Ok(
                Some(
                    replaced(
                        config,
                        sandbox_dir(old_id),
                        sandbox_dir(wire::text_bytes(new_id)),
                    ),
                ),
            )
        },
    }
}

/// The length of the sandbox id at `from`, if it ends.
fn id_length(config: &[u8], from: usize) -> (r: Option<usize>)
    requires
        from <= config@.len(),
    ensures
        match id_len(config@.skip(from as int)) {
            Some(n) => r == Some(n as usize) && 0 <= n && from + n < config@.len(),
            None => r is None,
        },
{
    let ghost after = config@.skip(from as int);
    let mut i: usize = from;
    assert(config.len() == config@.len());
    assert(after.skip(0) =~= after);
    while i < config.len()
        invariant
            from <= i <= config@.len() <= usize::MAX,
            after == config@.skip(from as int),
            match id_len(after.skip(i - from)) {
                Some(n) => id_len(after) == Some(n + (i - from)),
                None => id_len(after) is None,
            },
        decreases config@.len() - i,
    {
        assert(after.skip(i - from)[0] == config@[i as int]);
        if config[i] == 47 || config[i] == 34 {
            return Some(i - from);
        }
        assert(after.skip(i - from).skip(1) =~= after.skip(i + 1 - from));
        i = i + 1;
    }
    assert(after.skip(i - from).len() == 0);
    None
}

/// The configuration with the paths of its first embedded sandbox id, `/run/vc/vm/<old>/`, turned
/// into those of `new_id`. `None` where it holds no such path, or the id is `new_id` already: then
/// the file stays as it is.
pub fn rewrite_snapshot_config_for_new_sandbox(config: &[u8], new_id: &str) -> (r: Result<
    Option<Vec<u8>>,
    RewriteError,
>)
    ensures
        match config_patch(config@, new_id@) {
            Ok(Some(patched)) => r matches Ok(Some(v)) && v@ == patched,
            Ok(None) => r matches Ok(None),
            Err(fault) => r matches Err(e) && e@ == fault,
        },
        config_laws::none_before(config@, config@.len() as int) ==> r == Ok::<
            Option<Vec<u8>>,
            RewriteError,
        >(None),
        r matches Err(e) ==> e is MalformedSandboxId || e is SandboxIdNotUtf8,
{
    proof {
        if config_laws::none_before(config@, config@.len() as int) {
            config_laws::law_config_without_a_path(config@, new_id@);
        }
    }
    let at: usize = match find_subslice(config, VM_DIR_PREFIX.as_slice()) {
        Some(i) => i,
        None => {
            return Ok(None);
        },
    };
    proof {
        lemma_first_place(config@, VM_DIR_PREFIX@);
        assert(config.len() == config@.len());
    }
    let from: usize = at + 11;
    let len: usize = match id_length(config, from) {
        Some(n) => n,
        None => {
            return Err(RewriteError::MalformedSandboxId);
        },
    };
    if len == 0 {
        return Err(RewriteError::MalformedSandboxId);
    }
    let old_id: Vec<u8> = wire::get_bytes(config, from, len);
    assert(old_id@ =~= config@.skip(from as int).take(len as int));
    let old_text: String = match wire::utf8_text(old_id.as_slice()) {
        Ok(text) => text,
        Err(why) => {
            return Err(RewriteError::SandboxIdNotUtf8(why));
        },
    };
    if old_text == String::from_str(new_id) {
        return Ok(None);
    }
    let needle = put_sandbox_dir(old_id.as_slice());
    let replacement = put_sandbox_dir(wire::utf8_bytes(new_id));
    Ok(Some(replace_bytes(config, needle.as_slice(), replacement.as_slice())))
}

/// `/run/vc/vm/<id>/`.
fn put_sandbox_dir(id: &[u8]) -> (r: Vec<u8>)
    ensures
        r@ == sandbox_dir(id@),
{
    let mut out: Vec<u8> = Vec::new();
    wire::put_bytes(&mut out, VM_DIR_PREFIX.as_slice());
    wire::put_bytes(&mut out, id);
    out.push(47);
    assert(out@ =~= sandbox_dir(id@));
    out
}

/// The first place is a place, and no earlier one is.
proof fn lemma_first_from(hay: Seq<u8>, needle: Seq<u8>, from: int)
    requires
        0 <= from,
    ensures
        match first_from(hay, needle, from) {
            Some(i) => from <= i && occurs_at(hay, i, needle) && forall|j: int|
                from <= j < i ==> !#[trigger] occurs_at(hay, j, needle),
            None => forall|j: int|
                from <= j && needle.len() > 0 ==> !#[trigger] occurs_at(hay, j, needle),
        },
    decreases hay.len() - from,
{
    if !(from + needle.len() > hay.len() || from >= hay.len()) && !occurs_at(hay, from, needle) {
        lemma_first_from(hay, needle, from + 1);
    }
}

/// The first place is a place, and no earlier one is.
pub proof fn lemma_first_place(hay: Seq<u8>, needle: Seq<u8>)
    requires
        needle.len() > 0,
    ensures
        match first_place(hay, needle) {
            Some(i) => 0 <= i && occurs_at(hay, i, needle) && forall|j: int|
                0 <= j < i ==> !#[trigger] occurs_at(hay, j, needle),
            None => forall|j: int| 0 <= j ==> !#[trigger] occurs_at(hay, j, needle),
        },
{
    lemma_first_from(hay, needle, 0);
}

// ---------------------------------------------------------------------------
// state.json
// ---------------------------------------------------------------------------

/// Where the state of the file-system device stands.
pub open spec fn fs_path() -> Seq<Seq<char>> {
    seq![
        "snapshots"@,
        "device-manager"@,
        "snapshots"@,
        "_virtio-pci-_fs2"@,
        "snapshot_data"@,
    ]
}

/// The encoded state of the file-system device: `None` where the sandbox had none.
pub open spec fn fs_state_of(root: Json) -> Result<Option<Seq<char>>, RewriteFault> {
    match root.at(fs_path()) {
        Some(Json::Object(data)) => match Json::Object(data).member("state"@) {
            Some(Json::String(state)) => Ok(Some(state)),
            _ => Err(RewriteFault::StateNotText),
        },
        _ => Ok(None),
    }
}

/// The state of the file-system device with its activation taken back: `None` where it is not
/// activated.
pub open spec fn deactivated(inner: Json) -> Result<Option<Json>, RewriteFault> {
    match inner {
        Json::Object(_) => if inner.member("device_activated"@) == Some(Json::Bool(true)) {
            Ok(Some(inner.set("device_activated"@, Json::Bool(false))))
        } else {
            Ok(None)
        },
        _ => Err(RewriteFault::InnerNotObject),
    }
}

/// The root with the encoded state of the file-system device replaced.
pub open spec fn with_fs_state(root: Json, state: Seq<char>) -> Json {
    json::set_at_path(root, fs_path(), "state"@, Json::String(state))
}

/// The patched state; `None` where there is nothing to patch.
pub open spec fn state_patch(root: Json) -> Result<Option<Json>, RewriteFault> {
    match fs_state_of(root) {
        Err(e) => Err(e),
        Ok(None) => Ok(None),
        Ok(Some(state)) => match json::json_parse_text(state) {
            Err(why) => Err(RewriteFault::InnerNotJson(why)),
            Ok(inner) => match deactivated(inner) {
                Err(e) => Err(e),
                Ok(None) => Ok(None),
                Ok(Some(inner)) => Ok(Some(with_fs_state(root, json::json_text(inner)))),
            },
        },
    }
}

/// The patched state of the file-system device, as it will be encoded.
pub open spec fn patched_inner(root: Json) -> Option<Json> {
    match fs_state_of(root) {
        Ok(Some(state)) => match json::json_parse_text(state) {
            Ok(inner) => match deactivated(inner) {
                Ok(patched) => patched,
                Err(_) => None,
            },
            Err(_) => None,
        },
        _ => None,
    }
}

/// The encoded state of the file-system device: `None` where the sandbox had none.
pub fn fs_state(root: &JsonValue) -> (r: Result<Option<String>, RewriteError>)
    ensures
        match fs_state_of(root@) {
            Ok(Some(state)) => r matches Ok(Some(s)) && s@ == state,
            Ok(None) => r matches Ok(None),
            Err(fault) => r matches Err(e) && e@ == fault,
        },
{
    let path: [&str; 5] = [
        "snapshots",
        "device-manager",
        "snapshots",
        "_virtio-pci-_fs2",
        "snapshot_data",
    ];
    assert(json::path_view(path@) =~= fs_path());
    let data: &JsonValue = match json::value_at(root, path.as_slice()) {
        Some(data) => data,
        None => {
            return Ok(None);
        },
    };
    match data {
        JsonValue::Object(_) => {},
        _ => {
            return Ok(None);
        },
    }
    match data.member("state") {
        Some(JsonValue::String(state)) => Ok(Some(state.clone())),
        _ => Err(RewriteError::StateNotText),
    }
}

/// The state of the file-system device with its activation taken back: `None` where it is not
/// activated.
pub fn deactivate(inner: JsonValue) -> (r: Result<Option<JsonValue>, RewriteError>)
    ensures
        match deactivated(inner@) {
            Ok(Some(j)) => r matches Ok(Some(v)) && v@ == j,
            Ok(None) => r matches Ok(None),
            Err(fault) => r matches Err(e) && e@ == fault,
        },
{
    match &inner {
        JsonValue::Object(_) => {},
        _ => {
            return Err(RewriteError::InnerNotObject);
        },
    }
    let activated: bool = match inner.member("device_activated") {
        Some(JsonValue::Bool(b)) => *b,
        _ => false,
    };
    if !activated {
        return Ok(None);
    }
    Ok(Some(inner.set("device_activated", JsonValue::Bool(false))))
}

/// The root with the encoded state of the file-system device replaced.
pub fn put_fs_state(root: JsonValue, state: String) -> (r: JsonValue)
    ensures
        r@ == with_fs_state(root@, state@),
{
    let path: [&str; 5] = [
        "snapshots",
        "device-manager",
        "snapshots",
        "_virtio-pci-_fs2",
        "snapshot_data",
    ];
    assert(json::path_view(path@) =~= fs_path());
    json::set_at(root, path.as_slice(), "state", JsonValue::String(state))
}

/// The state with the activation of the file-system device taken back. `None` where the sandbox
/// had no such device, or it is not activated: then the file stays as it is. A patched state is
/// settled: read and patched again, it stays as it is.
pub fn rewrite_snapshot_state_for_new_sandbox(state: &[u8]) -> (r: Result<
    Option<Vec<u8>>,
    RewriteError,
>)
    ensures
        match json::json_parse(state@) {
            Err(why) => r matches Err(e) && e@ == RewriteFault::NotJson(why),
            Ok(root) => match state_patch(root) {
                Ok(Some(patched)) => r matches Ok(Some(v)) && v@ == json::json_bytes(patched)
                    && json::reads_back(patched, json::json_parse(v@)) && state_patch(
                    json::json_parse(v@)->Ok_0,
                ) == Ok::<Option<Json>, RewriteFault>(None),
                Ok(None) => r matches Ok(None),
                Err(fault) => r matches Err(e) && e@ == fault,
            },
        },
{
    let root: JsonValue = match json::parse(state) {
        Ok(root) => root,
        Err(why) => {
            return Err(RewriteError::NotJson(why));
        },
    };
    let encoded: String = match fs_state(&root)? {
        Some(encoded) => encoded,
        None => {
            return Ok(None);
        },
    };
    let inner: JsonValue = match json::parse_text(encoded.as_str()) {
        Ok(inner) => inner,
        Err(why) => {
            return Err(RewriteError::InnerNotJson(why));
        },
    };
    let ghost found = inner@;
    match deactivate(inner)? {
        Some(inner) => {
            proof {
                rewrite_laws::lemma_deactivated_nests(found, inner@);
            }
            let printed = json::print(inner);
            let patched = put_fs_state(root, printed);
            proof {
                rewrite_laws::lemma_patched_nests(root@, patched@);
            }
            let bytes = json::print_bytes(patched);
            proof {
                rewrite_laws::law_patched_state_is_settled(
                    root@,
                    patched@,
                    json::json_parse(bytes@)->Ok_0,
                );
            }
            Ok(Some(bytes))
        },
        None => Ok(None),
    }
}

} // verus!
