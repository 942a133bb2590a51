//! What patching `config.json` and `state.json` does, for every file.
use vstd::prelude::*;
use vstd::utf8;

use super::json;
use super::json::Json;
use super::rewrite_laws;
use super::snapshot_rewrite;
use super::snapshot_rewrite::{NetId, RewriteError, RewriteFault, SnapshotNetId, VM_DIR_PREFIX};
use crate::wire;

verus! {

// ---------------------------------------------------------------------------
// Finding and replacing.
// ---------------------------------------------------------------------------

/// `needle` is found where it stands, with nothing of it in front: in `before + needle + rest` it
/// is found behind `before`, unless it stands earlier; and where it stands nowhere, or is empty, it
/// is not found.
pub proof fn law_first_place_is_found(hay: Seq<u8>, needle: Seq<u8>, at: int)
    requires
        needle.len() > 0,
    ensures
        snapshot_rewrite::first_place(hay, needle) == Some(at) <==> 0 <= at <= hay.len()
            - needle.len() && hay.subrange(at, at + needle.len()) == needle && forall|j: int|
            0 <= j < at ==> #[trigger] hay.subrange(j, j + needle.len()) != needle,
        snapshot_rewrite::first_place(hay, needle) is None <==> forall|j: int|
            0 <= j <= hay.len() - needle.len() ==> #[trigger] hay.subrange(j, j + needle.len())
                != needle,
        snapshot_rewrite::first_place(hay, Seq::empty()) is None,
{
    snapshot_rewrite::lemma_first_place(hay, needle);
    let found = snapshot_rewrite::first_place(hay, needle);
    if found is Some {
        let i = found->0;
        assert forall|j: int| 0 <= j < i implies #[trigger] hay.subrange(j, j + needle.len())
            != needle by {
            assert(!snapshot_rewrite::occurs_at(hay, j, needle));
        }
        if 0 <= at <= hay.len() - needle.len() && hay.subrange(at, at + needle.len()) == needle {
            assert(snapshot_rewrite::occurs_at(hay, at, needle));
            if at < i {
                assert(hay.subrange(at, at + needle.len()) != needle);
            } else if at > i {
                assert(hay.subrange(i, i + needle.len()) == needle);
            }
        }
    } else {
        assert forall|j: int| 0 <= j <= hay.len() - needle.len() implies #[trigger] hay.subrange(
            j,
            j + needle.len(),
        ) != needle by {
            assert(!snapshot_rewrite::occurs_at(hay, j, needle));
        }
    }
}

/// Pieces, one behind the other, with `sep` between them.
pub open spec fn joined(pieces: Seq<Seq<u8>>, sep: Seq<u8>) -> Seq<u8>
    decreases pieces.len(),
{
    if pieces.len() == 0 {
        Seq::empty()
    } else if pieces.len() == 1 {
        pieces[0]
    } else {
        pieces[0] + sep + joined(pieces.skip(1), sep)
    }
}

/// Whether `sep` stands in `piece + sep` only at the end: it is not met earlier, read from the left.
pub open spec fn first_met_behind(piece: Seq<u8>, sep: Seq<u8>) -> bool {
    forall|j: int|
        0 <= j < piece.len() ==> #[trigger] (piece + sep).subrange(j, j + sep.len()) != sep
}

/// Whether `sep` stands nowhere in `piece`.
pub open spec fn free_of(piece: Seq<u8>, sep: Seq<u8>) -> bool {
    forall|j: int|
        0 <= j <= piece.len() - sep.len() ==> #[trigger] piece.subrange(j, j + sep.len()) != sep
}

/// Whether `pieces` are what is left of a file where `sep` is cut out, read from the left.
pub open spec fn cut_at(pieces: Seq<Seq<u8>>, sep: Seq<u8>) -> bool {
    &&& pieces.len() > 0
    &&& forall|k: int|
        0 <= k < pieces.len() - 1 ==> first_met_behind(#[trigger] pieces[k], sep)
    &&& free_of(pieces.last(), sep)
}

/// What stands in a prefix.
proof fn lemma_met_behind(piece: Seq<u8>, sep: Seq<u8>, rest: Seq<u8>)
    requires
        first_met_behind(piece, sep),
    ensures
        forall|j: int|
            0 <= j < piece.len() ==> !#[trigger] snapshot_rewrite::occurs_at(
                piece + sep + rest,
                j,
                sep,
            ),
{
    let hay = piece + sep + rest;
    assert forall|j: int| 0 <= j < piece.len() implies !#[trigger] snapshot_rewrite::occurs_at(
        hay,
        j,
        sep,
    ) by {
        assert(hay.subrange(j, j + sep.len()) =~= (piece + sep).subrange(j, j + sep.len()));
    }
}

/// Replacing changes the separator between the pieces and nothing else: what is joined by `from`
/// comes out joined by `to`.
pub proof fn law_replacing_keeps_the_pieces(pieces: Seq<Seq<u8>>, from: Seq<u8>, to: Seq<u8>)
    requires
        from.len() > 0,
        cut_at(pieces, from),
    ensures
        snapshot_rewrite::replaced(joined(pieces, from), from, to) == joined(pieces, to),
    decreases pieces.len(),
{
    let hay = joined(pieces, from);
    if pieces.len() == 1 {
        let k = hay.len() as int;
        assert forall|j: int| 0 <= j < k implies !#[trigger] snapshot_rewrite::occurs_at(
            hay,
            j,
            from,
        ) by {
            if j + from.len() <= hay.len() {
                assert(hay.subrange(j, j + from.len()) != from);
            }
        }
        rewrite_laws::lemma_replaced_from(hay, from, to, k);
        assert(hay.skip(k).len() == 0);
        assert(hay.take(k) + Seq::<u8>::empty() =~= hay);
    } else {
        let first = pieces[0];
        let others = pieces.skip(1);
        let rest = joined(others, from);
        let k = first.len() as int;
        assert(first_met_behind(pieces[0], from));
        lemma_met_behind(first, from, rest);
        rewrite_laws::lemma_replaced_from(hay, from, to, k);
        assert(hay.take(k) =~= first);
        let tail = hay.skip(k);
        assert(tail =~= from + rest);
        assert(tail.subrange(0, from.len() as int) =~= from);
        assert(tail.skip(from.len() as int) =~= rest);
        assert forall|i: int| 0 <= i < others.len() - 1 implies first_met_behind(
            #[trigger] others[i],
            from,
        ) by {
            assert(first_met_behind(pieces[i + 1], from));
        }
        assert(others.last() == pieces.last());
        law_replacing_keeps_the_pieces(others, from, to);
        wire::lemma_append(first, to, joined(others, to));
    }
}

/// Every file can be cut at `sep`.
pub proof fn law_any_file_can_be_cut(hay: Seq<u8>, sep: Seq<u8>) -> (pieces: Seq<Seq<u8>>)
    requires
        sep.len() > 0,
    ensures
        cut_at(pieces, sep),
        joined(pieces, sep) == hay,
    decreases hay.len(),
{
    let n = sep.len() as int;
    let found = snapshot_rewrite::first_place(hay, sep);
    if found is None {
        law_first_place_is_found(hay, sep, 0);
        seq![hay]
    } else {
        let at = found->0;
        law_first_place_is_found(hay, sep, at);
        let first = hay.take(at);
        let rest = hay.skip(at + n);
        let others = law_any_file_can_be_cut(rest, sep);
        let pieces = seq![first] + others;
        assert(pieces.skip(1) =~= others);
        assert(hay =~= first + sep + rest) by {
            assert forall|q: int| 0 <= q < n implies hay[at + q] == sep[q] by {
                assert(hay.subrange(at, at + n)[q] == hay[at + q]);
            }
        }
        assert forall|j: int| 0 <= j < first.len() implies #[trigger] (first + sep).subrange(
            j,
            j + n,
        ) != sep by {
            assert((first + sep).subrange(j, j + n) =~= hay.subrange(j, j + n));
        }
        assert forall|k: int| 0 <= k < pieces.len() - 1 implies first_met_behind(
            #[trigger] pieces[k],
            sep,
        ) by {
            if k > 0 {
                assert(pieces[k] == others[k - 1]);
                assert(first_met_behind(others[k - 1], sep));
            }
        }
        assert(pieces.last() == others.last());
        pieces
    }
}

// ---------------------------------------------------------------------------
// config.json
// ---------------------------------------------------------------------------

/// `/run/vc/vm/`.
pub open spec fn vm_dir() -> Seq<u8> {
    seq![47u8, 114, 117, 110, 47, 118, 99, 47, 118, 109, 47]
}

/// Whether a byte is `/` or `"`.
pub open spec fn is_end(b: u8) -> bool {
    b == 47 || b == 34
}

/// Whether `/run/vc/vm/` stands nowhere in front of `at`.
pub open spec fn none_before(config: Seq<u8>, at: int) -> bool {
    forall|j: int|
        0 <= j < at && j + 11 <= config.len() ==> #[trigger] config.subrange(j, j + 11) != vm_dir()
}

/// Where the first path starts.
proof fn lemma_first_dir(before: Seq<u8>, after: Seq<u8>)
    requires
        none_before(before + vm_dir() + after, before.len() as int),
    ensures
        snapshot_rewrite::first_place(before + vm_dir() + after, VM_DIR_PREFIX@) == Some(
            before.len() as int,
        ),
        (before + vm_dir() + after).skip(before.len() + 11int) == after,
{
    let config = before + vm_dir() + after;
    let at = before.len() as int;
    assert(VM_DIR_PREFIX@ =~= vm_dir());
    assert(config.subrange(at, at + 11) =~= vm_dir());
    assert(config.skip(at + 11) =~= after);
    assert forall|j: int| 0 <= j < at implies #[trigger] config.subrange(j, j + 11)
        != VM_DIR_PREFIX@ by {
        assert(config.subrange(j, j + 11) != vm_dir());
    }
    law_first_place_is_found(config, VM_DIR_PREFIX@, at);
}

/// A configuration whose first `/run/vc/vm/` path has an id, of any length, that ends. Where the id
/// is the new one, the file stays as it is. Any other id that is UTF-8 is replaced: the outcome is a
/// patched file, in which every `/run/vc/vm/<old>/` is `/run/vc/vm/<new>/` and all between them is
/// as it was. An id that is not UTF-8 is refused.
pub proof fn law_config_with_a_path(
    before: Seq<u8>,
    id: Seq<u8>,
    end: u8,
    rest: Seq<u8>,
    new_id: Seq<char>,
    pieces: Seq<Seq<u8>>,
)
    requires
        none_before(before + vm_dir() + (id + (seq![end] + rest)), before.len() as int),
        id.len() > 0,
        forall|i: int| 0 <= i < id.len() ==> !is_end(#[trigger] id[i]),
        is_end(end),
        cut_at(pieces, vm_dir() + id + seq![47u8]),
        before + vm_dir() + (id + (seq![end] + rest)) == joined(
            pieces,
            vm_dir() + id + seq![47u8],
        ),
    ensures
        ({
            let config = before + vm_dir() + (id + (seq![end] + rest));
            let new_bytes = utf8::encode_utf8(new_id);
            let outcome = snapshot_rewrite::config_patch(config, new_id);
            &&& id == new_bytes ==> outcome == Ok::<Option<Seq<u8>>, RewriteFault>(None)
            &&& utf8::valid_utf8(id) && id != new_bytes ==> outcome == Ok::<
                Option<Seq<u8>>,
                RewriteFault,
            >(Some(joined(pieces, vm_dir() + new_bytes + seq![47u8])))
            &&& !utf8::valid_utf8(id) ==> outcome == Err::<Option<Seq<u8>>, RewriteFault>(
                RewriteFault::SandboxIdNotUtf8(wire::utf8_complaint(id)),
            )
        }),
{
    let tail = seq![end] + rest;
    let after = id + tail;
    let config = before + vm_dir() + after;
    let new_bytes = utf8::encode_utf8(new_id);
    lemma_first_dir(before, after);
    assert forall|i: int| 0 <= i < id.len() implies !snapshot_rewrite::ends_id(#[trigger] id[i]) by {
        assert(!is_end(id[i]));
    }
    rewrite_laws::lemma_id_len(id, tail);
    assert(after.take(id.len() as int) =~= id);
    wire::law_text_is_utf8(new_id, id);
    wire::lemma_text(new_id);
    assert(VM_DIR_PREFIX@ =~= vm_dir());
    assert(snapshot_rewrite::sandbox_dir(id) == vm_dir() + id + seq![47u8]);
    assert(snapshot_rewrite::sandbox_dir(new_bytes) == vm_dir() + new_bytes + seq![47u8]);
    if utf8::valid_utf8(id) && id != new_bytes {
        utf8::decode_utf8_encode_utf8(id);
        assert(wire::text_of(id) != new_id);
        law_replacing_keeps_the_pieces(
            pieces,
            vm_dir() + id + seq![47u8],
            vm_dir() + new_bytes + seq![47u8],
        );
    }
}

/// A configuration in which `/run/vc/vm/` stands nowhere stays as it is.
pub proof fn law_config_without_a_path(config: Seq<u8>, new_id: Seq<char>)
    requires
        none_before(config, config.len() as int),
    ensures
        snapshot_rewrite::config_patch(config, new_id) == Ok::<Option<Seq<u8>>, RewriteFault>(None),
{
    assert(VM_DIR_PREFIX@ =~= vm_dir());
    assert forall|j: int| 0 <= j <= config.len() - 11 implies #[trigger] config.subrange(j, j + 11)
        != VM_DIR_PREFIX@ by {
        assert(config.subrange(j, j + 11) != vm_dir());
    }
    law_first_place_is_found(config, VM_DIR_PREFIX@, 0);
}

/// A configuration whose first `/run/vc/vm/` path has no id, or one that does not end, is refused
/// as malformed.
pub proof fn law_config_with_a_broken_path(before: Seq<u8>, after: Seq<u8>, new_id: Seq<char>)
    requires
        none_before(before + vm_dir() + after, before.len() as int),
        after.len() == 0 || is_end(after[0]) || forall|i: int|
            0 <= i < after.len() ==> !is_end(#[trigger] after[i]),
    ensures
        snapshot_rewrite::config_patch(before + vm_dir() + after, new_id) == Err::<
            Option<Seq<u8>>,
            RewriteFault,
        >(RewriteFault::MalformedSandboxId),
{
    lemma_first_dir(before, after);
    rewrite_laws::lemma_id_len_says(after);
}

/// A configuration stays as it is only where `/run/vc/vm/` stands nowhere in it, or the first such
/// path has the new id. A configuration that is refused has a first path without an id, with an id
/// that does not end, or with one that is not UTF-8.
pub proof fn law_config_stays_only_for_cause(config: Seq<u8>, new_id: Seq<char>)
    ensures
        ({
            let new_bytes = utf8::encode_utf8(new_id);
            let n = new_bytes.len();
            match snapshot_rewrite::config_patch(config, new_id) {
                Ok(None) => none_before(config, config.len() as int) || exists|at: int|
                    #![trigger none_before(config, at)]
                    0 <= at && at + 11 + n < config.len() && none_before(config, at)
                        && config.subrange(at, at + 11) == vm_dir() && config.subrange(
                        at + 11,
                        at + 11 + n,
                    ) == new_bytes && is_end(config[at + 11 + n]),
                Ok(Some(_)) => !none_before(config, config.len() as int),
                Err(RewriteFault::MalformedSandboxId) => !none_before(config, config.len() as int),
                Err(RewriteFault::SandboxIdNotUtf8(_)) => !none_before(
                    config,
                    config.len() as int,
                ),
                Err(_) => false,
            }
        }),
{
    let new_bytes = utf8::encode_utf8(new_id);
    let n = new_bytes.len() as int;
    let found = snapshot_rewrite::first_place(config, VM_DIR_PREFIX@);
    assert(VM_DIR_PREFIX@ =~= vm_dir());
    if found is None {
        law_first_place_is_found(config, VM_DIR_PREFIX@, 0);
        assert(none_before(config, config.len() as int));
    } else {
        let at = found->0;
        law_first_place_is_found(config, VM_DIR_PREFIX@, at);
        assert(config.subrange(at, at + 11) == vm_dir());
        assert(none_before(config, at));
        if snapshot_rewrite::config_patch(config, new_id) == Ok::<Option<Seq<u8>>, RewriteFault>(
            None,
        ) {
            let after = config.skip(at + 11);
            rewrite_laws::lemma_id_len_says(after);
            let m = snapshot_rewrite::id_len(after)->0;
            let id = after.take(m);
            wire::law_text_is_utf8(new_id, id);
            utf8::decode_utf8_encode_utf8(id);
            assert(id == new_bytes);
            assert(config.subrange(at + 11, at + 11 + n) =~= id);
            assert(config[at + 11 + n] == after[m]);
        }
    }
}

// ---------------------------------------------------------------------------
// state.json
// ---------------------------------------------------------------------------

/// The keys that lead to the file-system device.
pub open spec fn device_path() -> Seq<Seq<char>> {
    seq![
        "snapshots"@,
        "device-manager"@,
        "snapshots"@,
        "_virtio-pci-_fs2"@,
        "snapshot_data"@,
    ]
}

/// A state in which those keys lead to no object stays as it is.
pub proof fn law_state_without_the_device(root: Json)
    ensures
        !(root.at(device_path()) matches Some(Json::Object(_))) ==> snapshot_rewrite::state_patch(
            root,
        ) == Ok::<Option<Json>, RewriteFault>(None),
{
    assert(snapshot_rewrite::fs_path() =~= device_path());
}

/// A state in which they lead to an object is patched exactly where the text under `state` is JSON
/// of an object in which `device_activated` is true. The patch puts there the text of that object
/// with `device_activated` false, and changes nothing else in it. Where it is anything but true, or
/// is not there, the state stays as it is. No text, text that is not JSON, and JSON that is no object
/// are refused.
pub proof fn law_state_with_the_device(root: Json, data: Map<Seq<char>, Json>)
    requires
        root.at(device_path()) == Some(Json::Object(data)),
    ensures
        ({
            let outcome = snapshot_rewrite::state_patch(root);
            if !data.contains_key("state"@) || !(data["state"@] is String) {
                outcome == Err::<Option<Json>, RewriteFault>(RewriteFault::StateNotText)
            } else {
                match json::json_parse_text(data["state"@]->String_0) {
                    Err(why) => outcome == Err::<Option<Json>, RewriteFault>(
                        RewriteFault::InnerNotJson(why),
                    ),
                    Ok(Json::Object(inner)) => if inner.contains_key("device_activated"@)
                        && inner["device_activated"@] == Json::Bool(true) {
                        let off = inner.insert("device_activated"@, Json::Bool(false));
                        &&& outcome matches Ok(Some(patched))
                        &&& patched.at(device_path()) == Some(
                            Json::Object(
                                data.insert(
                                    "state"@,
                                    Json::String(json::json_text(Json::Object(off))),
                                ),
                            ),
                        )
                    } else {
                        outcome == Ok::<Option<Json>, RewriteFault>(None)
                    },
                    Ok(_) => outcome == Err::<Option<Json>, RewriteFault>(
                        RewriteFault::InnerNotObject,
                    ),
                }
            }
        }),
{
    assert(snapshot_rewrite::fs_path() =~= device_path());
    if data.contains_key("state"@) && data["state"@] is String {
        match json::json_parse_text(data["state"@]->String_0) {
            Ok(Json::Object(inner)) => {
                let off = inner.insert("device_activated"@, Json::Bool(false));
                let new = Json::Object(
                    data.insert("state"@, Json::String(json::json_text(Json::Object(off)))),
                );
                rewrite_laws::lemma_at_with(root, device_path(), new);
            },
            _ => {},
        }
    }
}

/// How a value is looked into: an object has exactly the members that it has, and no other value has
/// any; a path is followed key by key; what is set under a key is found there, and nothing else in
/// the object changes.
pub proof fn law_members_are_found(
    m: Map<Seq<char>, Json>,
    key: Seq<char>,
    other: Seq<char>,
    v: Json,
    first: Seq<Seq<char>>,
    rest: Seq<Seq<char>>,
    new: Json,
)
    ensures
        Json::Object(m).member(key) == if m.contains_key(key) {
            Some(m[key])
        } else {
            None
        },
        !(v is Object) ==> v.member(key) is None && v.set(key, new) == v,
        v.at(Seq::empty()) == Some(v),
        v.at(seq![key]) == v.member(key),
        v.at(first + rest) == match v.at(first) {
            Some(found) => found.at(rest),
            None => None,
        },
        Json::Object(m).set(key, new).member(key) == Some(new),
        other != key ==> Json::Object(m).set(key, new).member(other) == Json::Object(m).member(
            other,
        ),
    decreases first.len(),
{
    reveal_with_fuel(Json::at, 2);
    assert(seq![key].drop_first() =~= Seq::empty());
    if first.len() == 0 {
        assert(first + rest =~= rest);
    } else {
        assert((first + rest)[0] == first[0]);
        assert((first + rest).drop_first() =~= first.drop_first() + rest);
        if v.member(first[0]) is Some {
            law_members_are_found(
                m,
                key,
                other,
                v.member(first[0])->0,
                first.drop_first(),
                rest,
                new,
            );
        }
    }
}

// ---------------------------------------------------------------------------
// Network devices.
// ---------------------------------------------------------------------------

/// What an entry of `net` must have: a text under `id`, and a list under `fds` or none.
pub open spec fn says(entry: Json, id: NetId) -> bool {
    &&& entry.member("id"@) == Some(Json::String(id.id))
    &&& match entry.member("fds"@) {
        Some(Json::Array(fds)) => id.num_fds == fds.len(),
        Some(Json::Null) => id.num_fds == 0,
        None => id.num_fds == 0,
        Some(_) => false,
    }
}

/// What the first entries say.
proof fn lemma_net_ids(entries: Seq<Json>, n: nat)
    requires
        n <= entries.len(),
    ensures
        match snapshot_rewrite::net_ids_upto(entries, n) {
            Ok(ids) => ids.len() == n && forall|i: int|
                0 <= i < n ==> says(#[trigger] entries[i], ids[i]),
            Err(RewriteFault::NetIdMissing(i)) => 0 <= i < n && !(entries[i].member("id"@) matches Some(
                Json::String(_),
            )),
            Err(RewriteFault::FdsNotArray(i, found)) => 0 <= i < n && (entries[i].member(
                "fds"@,
            ) matches Some(fds) && !(fds is Array) && !(fds is Null) && found == json::json_debug(
                fds,
            )),
            Err(_) => false,
        },
    decreases n,
{
    if n > 0 {
        lemma_net_ids(entries, (n - 1) as nat);
        match snapshot_rewrite::net_ids_upto(entries, n) {
            Ok(ids) => {
                let before = snapshot_rewrite::net_ids_upto(entries, (n - 1) as nat)->Ok_0;
                assert forall|i: int| 0 <= i < n implies says(#[trigger] entries[i], ids[i]) by {
                    if i < n - 1 {
                        assert(ids[i] == before[i]);
                    }
                }
            },
            Err(_) => {},
        }
    }
}

/// The network devices of a configuration: one for each entry of `net`, in order, with its id and
/// the number of its descriptors. An entry is refused only where it has no id, or descriptors that
/// are no list; `net` is refused only where it is there and no list. Without it there are none.
pub proof fn law_network_devices_are_read(config: Json)
    ensures
        match snapshot_rewrite::net_ids_of(config) {
            Ok(ids) => match config.member("net"@) {
                Some(Json::Array(entries)) => ids.len() == entries.len() && forall|i: int|
                    0 <= i < entries.len() ==> says(#[trigger] entries[i], ids[i]),
                Some(Json::Null) => ids.len() == 0,
                None => ids.len() == 0,
                Some(_) => false,
            },
            Err(RewriteFault::NetIdMissing(i)) => config.member("net"@) matches Some(
                Json::Array(entries),
            ) && 0 <= i < entries.len() && !(entries[i].member("id"@) matches Some(
                Json::String(_),
            )),
            Err(RewriteFault::FdsNotArray(i, found)) => config.member("net"@) matches Some(
                Json::Array(entries),
            ) && 0 <= i < entries.len() && (entries[i].member("fds"@) matches Some(fds) && !(
            fds is Array) && !(fds is Null) && found == json::json_debug(fds)),
            Err(RewriteFault::NetNotArray(found)) => config.member("net"@) matches Some(net) && !(
            net is Array) && !(net is Null) && found == json::json_debug(net),
            Err(_) => false,
        },
{
    match config.member("net"@) {
        Some(Json::Array(entries)) => {
            lemma_net_ids(entries, entries.len());
        },
        _ => {},
    }
}

/// A device and what is said of it hold the same, and so do a fault and what is said of it.
pub proof fn law_rewrite_outcomes_are_told_in_full(id: SnapshotNetId, error: RewriteError)
    ensures
        id@.id == id.id@ && id@.num_fds == id.num_fds,
        match error {
            RewriteError::NotJson(why) => error@ == RewriteFault::NotJson(why@),
            RewriteError::NetNotArray(found) => error@ == RewriteFault::NetNotArray(found@),
            RewriteError::NetIdMissing(i) => error@ == RewriteFault::NetIdMissing(i as int),
            RewriteError::FdsNotArray(i, found) => error@ == RewriteFault::FdsNotArray(
                i as int,
                found@,
            ),
            RewriteError::MalformedSandboxId => error@ == RewriteFault::MalformedSandboxId,
            RewriteError::SandboxIdNotUtf8(why) => error@ == RewriteFault::SandboxIdNotUtf8(why@),
            RewriteError::StateNotText => error@ == RewriteFault::StateNotText,
            RewriteError::InnerNotJson(why) => error@ == RewriteFault::InnerNotJson(why@),
            RewriteError::InnerNotObject => error@ == RewriteFault::InnerNotObject,
        },
{
}

/// The devices that are read from a file are those of its JSON, and what is no JSON is refused with
/// what the parser says. What is said of devices is said of each, in order.
pub proof fn law_network_devices_of_a_file(data: Seq<u8>, ids: Seq<SnapshotNetId>, i: int)
    ensures
        json::json_parse(data) matches Ok(config) ==> snapshot_rewrite::config_net_ids(data)
            == snapshot_rewrite::net_ids_of(config),
        json::json_parse(data) matches Err(why) ==> snapshot_rewrite::config_net_ids(data) == Err::<
            Seq<NetId>,
            RewriteFault,
        >(RewriteFault::NotJson(why)),
        snapshot_rewrite::ids_view(ids).len() == ids.len(),
        0 <= i < ids.len() ==> snapshot_rewrite::ids_view(ids)[i].id == ids[i].id@
            && snapshot_rewrite::ids_view(ids)[i].num_fds == ids[i].num_fds,
{
}

} // verus!
