//! What holds of the snapshot patches as a whole.
use vstd::prelude::*;

use super::json;
use super::json::Json;
use super::snapshot_rewrite;
use super::snapshot_rewrite::{RewriteFault, VM_DIR_PREFIX};
use crate::wire;

verus! {

/// A sandbox id that can stand in a path: not empty, without `/` and `"`.
pub open spec fn is_path_id(id: Seq<u8>) -> bool {
    &&& id.len() > 0
    &&& forall|i: int| 0 <= i < id.len() ==> !snapshot_rewrite::ends_id(#[trigger] id[i])
}

/// Where nothing stands before `k`, replacement starts at `k`.
pub proof fn lemma_replaced_from(hay: Seq<u8>, from: Seq<u8>, to: Seq<u8>, k: int)
    requires
        0 <= k <= hay.len(),
        forall|j: int| 0 <= j < k ==> !#[trigger] snapshot_rewrite::occurs_at(hay, j, from),
    ensures
        snapshot_rewrite::replaced(hay, from, to) == hay.take(k) + snapshot_rewrite::replaced(
            hay.skip(k),
            from,
            to,
        ),
    decreases k,
{
    if k == 0 {
        assert(hay.skip(0) =~= hay);
        assert(hay.take(0) + snapshot_rewrite::replaced(hay, from, to)
            =~= snapshot_rewrite::replaced(hay, from, to));
    } else {
        let rest = hay.skip(1);
        assert(!snapshot_rewrite::occurs_at(hay, 0, from));
        assert forall|j: int| 0 <= j < k - 1 implies !#[trigger] snapshot_rewrite::occurs_at(
            rest,
            j,
            from,
        ) by {
            assert(!snapshot_rewrite::occurs_at(hay, j + 1, from));
            if snapshot_rewrite::occurs_at(rest, j, from) {
                assert(rest.subrange(j, j + from.len()) =~= hay.subrange(
                    j + 1,
                    j + 1 + from.len(),
                ));
            }
        }
        lemma_replaced_from(rest, from, to, k - 1);
        assert(rest.skip(k - 1) =~= hay.skip(k));
        assert(hay.take(k) =~= seq![hay[0]] + rest.take(k - 1));
        wire::lemma_append(
            seq![hay[0]],
            rest.take(k - 1),
            snapshot_rewrite::replaced(hay.skip(k), from, to),
        );
    }
}

/// An id in front of a byte that ends it is found whole.
pub proof fn lemma_id_len(id: Seq<u8>, rest: Seq<u8>)
    requires
        forall|i: int| 0 <= i < id.len() ==> !snapshot_rewrite::ends_id(#[trigger] id[i]),
        rest.len() > 0,
        snapshot_rewrite::ends_id(rest[0]),
    ensures
        snapshot_rewrite::id_len(id + rest) == Some(id.len() as int),
    decreases id.len(),
{
    if id.len() == 0 {
        assert(id + rest =~= rest);
    } else {
        let tail = id.skip(1);
        assert forall|i: int| 0 <= i < tail.len() implies !snapshot_rewrite::ends_id(
            #[trigger] tail[i],
        ) by {
            assert(!snapshot_rewrite::ends_id(id[i + 1]));
        }
        lemma_id_len(tail, rest);
        assert((id + rest).skip(1) =~= tail + rest);
        assert(!snapshot_rewrite::ends_id(id[0]));
        assert((id + rest)[0] == id[0]);
    }
}

/// What an id length says.
pub proof fn lemma_id_len_says(after: Seq<u8>)
    ensures
        snapshot_rewrite::id_len(after) matches Some(n) ==> 0 <= n < after.len()
            && snapshot_rewrite::ends_id(after[n]) && forall|i: int|
            0 <= i < n ==> !snapshot_rewrite::ends_id(#[trigger] after[i]),
    decreases after.len(),
{
    if after.len() > 0 && !snapshot_rewrite::ends_id(after[0]) {
        let rest = after.skip(1);
        lemma_id_len_says(rest);
        if snapshot_rewrite::id_len(rest) is Some {
            let m = snapshot_rewrite::id_len(rest)->0;
            assert(rest[m] == after[m + 1]);
            assert forall|i: int| 0 <= i < m + 1 implies !snapshot_rewrite::ends_id(
                #[trigger] after[i],
            ) by {
                if i > 0 {
                    assert(rest[i - 1] == after[i]);
                }
            }
        }
    }
}

/// The prefix and what follows it.
proof fn lemma_dir_occurs(config: Seq<u8>, i: int, id: Seq<u8>)
    requires
        snapshot_rewrite::occurs_at(config, i, snapshot_rewrite::sandbox_dir(id)),
    ensures
        snapshot_rewrite::occurs_at(config, i, VM_DIR_PREFIX@),
{
    let dir = snapshot_rewrite::sandbox_dir(id);
    let s = config.subrange(i, i + dir.len());
    assert(config.subrange(i, i + 11) =~= s.subrange(0, 11));
    assert(s.subrange(0, 11) =~= VM_DIR_PREFIX@);
}

/// A patched configuration embeds the new id: patching it again for the same sandbox leaves it as
/// it is. This holds where the first embedded path goes on behind the id, as every path into a
/// sandbox directory does.
pub proof fn law_patched_config_is_settled(
    config: Seq<u8>,
    new_id: Seq<char>,
    at: int,
    old_id: Seq<u8>,
    patched: Seq<u8>,
)
    requires
        is_path_id(wire::text_bytes(new_id)),
        snapshot_rewrite::embedded_id(config) == Ok::<Option<(int, Seq<u8>)>, RewriteFault>(
            Some((at, old_id)),
        ),
        config[at + 11 + old_id.len()] == 47,
        snapshot_rewrite::config_patch(config, new_id) == Ok::<Option<Seq<u8>>, RewriteFault>(
            Some(patched),
        ),
    ensures
        snapshot_rewrite::config_patch(patched, new_id) == Ok::<Option<Seq<u8>>, RewriteFault>(
            None,
        ),
{
    let prefix = VM_DIR_PREFIX@;
    let id = wire::text_bytes(new_id);
    let needle = snapshot_rewrite::sandbox_dir(old_id);
    let dir = snapshot_rewrite::sandbox_dir(id);
    snapshot_rewrite::lemma_first_place(config, prefix);
    let after = config.skip(at + 11);
    lemma_id_len_says(after);
    assert(old_id == after.take(old_id.len() as int));
    assert(snapshot_rewrite::occurs_at(config, at, needle)) by {
        assert(config.subrange(at, at + 11) == prefix);
        assert forall|k: int| 0 <= k < needle.len() implies config[at + k] == needle[k] by {
            if k < 11 {
                assert(config.subrange(at, at + 11)[k] == config[at + k]);
            } else if k < 11 + old_id.len() {
                assert(after.take(old_id.len() as int)[k - 11] == config[at + k]);
            }
        }
        assert(config.subrange(at, at + needle.len()) =~= needle);
    }
    assert forall|j: int| 0 <= j < at implies !#[trigger] snapshot_rewrite::occurs_at(
        config,
        j,
        needle,
    ) by {
        assert(!snapshot_rewrite::occurs_at(config, j, prefix));
        if snapshot_rewrite::occurs_at(config, j, needle) {
            lemma_dir_occurs(config, j, old_id);
        }
    }
    lemma_replaced_from(config, needle, dir, at);
    let here = config.skip(at);
    assert(here.subrange(0, needle.len() as int) =~= config.subrange(at, at + needle.len()));
    let rest = snapshot_rewrite::replaced(here.skip(needle.len() as int), needle, dir);
    let front = config.take(at);
    assert(patched == front + (dir + rest));
    assert forall|k: int| 0 <= k < at + 11 implies patched[k] == config[k] by {
        if k >= at {
            assert(patched[k] == dir[k - at]);
            assert(dir[k - at] == prefix[k - at]);
            assert(needle[k - at] == prefix[k - at]);
            assert(config.subrange(at, at + needle.len())[k - at] == config[k]);
        }
    }
    assert(snapshot_rewrite::occurs_at(patched, at, prefix)) by {
        assert(patched.subrange(at, at + 11) =~= config.subrange(at, at + 11));
    }
    assert forall|j: int| 0 <= j < at implies !#[trigger] snapshot_rewrite::occurs_at(
        patched,
        j,
        prefix,
    ) by {
        assert(!snapshot_rewrite::occurs_at(config, j, prefix));
        assert(patched.subrange(j, j + 11) =~= config.subrange(j, j + 11));
    }
    snapshot_rewrite::lemma_first_place(patched, prefix);
    let found = snapshot_rewrite::first_place(patched, prefix);
    assert(found == Some(at)) by {
        if found is None {
            assert(!snapshot_rewrite::occurs_at(patched, at, prefix));
        } else if (found->0) < at {
            assert(!snapshot_rewrite::occurs_at(patched, found->0, prefix));
        } else if found->0 > at {
            assert(!snapshot_rewrite::occurs_at(patched, at, prefix));
        }
    }
    assert(patched.skip(at + 11) =~= id + (seq![47u8] + rest));
    lemma_id_len(id, seq![47u8] + rest);
    assert(patched.skip(at + 11).take(id.len() as int) =~= id);
    wire::lemma_text(new_id);
}

/// `/run/vc/vm/`, byte by byte.
proof fn lemma_prefix_bytes()
    ensures
        VM_DIR_PREFIX@.len() == 11,
        VM_DIR_PREFIX@ == seq![47u8, 114u8, 117u8, 110u8, 47u8, 118u8, 99u8, 47u8, 118u8, 109u8, 47u8],
{
    assert(VM_DIR_PREFIX@ =~= seq![
        47u8,
        114u8,
        117u8,
        110u8,
        47u8,
        118u8,
        99u8,
        47u8,
        118u8,
        109u8,
        47u8,
    ]);
}

/// Text without the prefix that starts the replacement starts what was replaced.
proof fn lemma_front(hay: Seq<u8>, old_id: Seq<u8>, new_id: Seq<u8>, w: Seq<u8>)
    requires
        ({
            let out = snapshot_rewrite::replaced(
                hay,
                snapshot_rewrite::sandbox_dir(old_id),
                snapshot_rewrite::sandbox_dir(new_id),
            );
            &&& w.len() <= out.len()
            &&& out.take(w.len() as int) == w
        }),
        forall|j: int| 0 <= j ==> !#[trigger] snapshot_rewrite::occurs_at(w, j, VM_DIR_PREFIX@),
    ensures
        w.len() <= hay.len(),
        hay.take(w.len() as int) == w,
    decreases hay.len(),
{
    let needle = snapshot_rewrite::sandbox_dir(old_id);
    let dir = snapshot_rewrite::sandbox_dir(new_id);
    let out = snapshot_rewrite::replaced(hay, needle, dir);
    if w.len() == 0 {
        assert(hay.take(0) =~= w);
    } else if hay.len() > 0 && snapshot_rewrite::occurs_at(hay, 0, needle) {
        let rest = snapshot_rewrite::replaced(hay.skip(needle.len() as int), needle, dir);
        assert(out == dir + rest);
        assert forall|k: int| 0 <= k < 11 implies out[k] == hay[k] by {
            assert(hay.subrange(0, needle.len() as int)[k] == hay[k]);
            assert(needle[k] == VM_DIR_PREFIX@[k]);
            assert(dir[k] == VM_DIR_PREFIX@[k]);
        }
        if w.len() >= 11 {
            assert forall|k: int| 0 <= k < 11 implies w[k] == VM_DIR_PREFIX@[k] by {
                assert(out.take(w.len() as int)[k] == out[k]);
                assert(dir[k] == VM_DIR_PREFIX@[k]);
            }
            assert(w.subrange(0, 11) =~= VM_DIR_PREFIX@);
            assert(snapshot_rewrite::occurs_at(w, 0, VM_DIR_PREFIX@));
        } else {
            assert forall|k: int| 0 <= k < w.len() implies w[k] == hay[k] by {
                assert(out.take(w.len() as int)[k] == out[k]);
            }
            assert(hay.take(w.len() as int) =~= w);
        }
    } else {
        let rest = hay.skip(1);
        let tail = w.skip(1);
        let got = snapshot_rewrite::replaced(rest, needle, dir);
        assert(out == seq![hay[0]] + got);
        assert(out.take(w.len() as int)[0] == out[0]);
        assert(got.take(tail.len() as int) =~= tail) by {
            assert forall|k: int| 0 <= k < tail.len() implies got[k] == tail[k] by {
                assert(out.take(w.len() as int)[k + 1] == out[k + 1]);
            }
        }
        assert forall|j: int| 0 <= j implies !#[trigger] snapshot_rewrite::occurs_at(
            tail,
            j,
            VM_DIR_PREFIX@,
        ) by {
            assert(!snapshot_rewrite::occurs_at(w, j + 1, VM_DIR_PREFIX@));
            if snapshot_rewrite::occurs_at(tail, j, VM_DIR_PREFIX@) {
                assert(tail.subrange(j, j + 11) =~= w.subrange(j + 1, j + 12));
            }
        }
        lemma_front(rest, old_id, new_id, tail);
        assert forall|k: int| 0 <= k < w.len() implies hay[k] == w[k] by {
            if k > 0 {
                assert(rest.take(tail.len() as int)[k - 1] == rest[k - 1]);
            }
        }
        assert(hay.take(w.len() as int) =~= w);
    }
}

/// The prefix stands in the path of an id at its start only.
proof fn lemma_prefix_place(id: Seq<u8>, p: int)
    requires
        is_path_id(id),
        1 <= p,
    ensures
        !snapshot_rewrite::occurs_at(snapshot_rewrite::sandbox_dir(id), p, VM_DIR_PREFIX@),
{
    let dir = snapshot_rewrite::sandbox_dir(id);
    let prefix = VM_DIR_PREFIX@;
    lemma_prefix_bytes();
    if snapshot_rewrite::occurs_at(dir, p, prefix) {
        let part = dir.subrange(p, p + 11);
        assert(part[0] == dir[p] && part[1] == dir[p + 1] && part[4] == dir[p + 4]);
        assert(dir[p] == 47 && dir[p + 1] == 114 && dir[p + 4] == 47);
        assert(p + 11 <= 12 + id.len());
        lemma_slash_in_dir(id, p);
        lemma_slash_in_dir(id, p + 4);
        if p == 4 || p == 7 {
            assert(dir[p + 1] == prefix[p + 1]);
        }
    }
}

/// The path of an id without its first bytes does not hold the prefix.
proof fn lemma_no_prefix_inside(id: Seq<u8>, w: Seq<u8>, from: int)
    requires
        is_path_id(id),
        1 <= from <= 10,
        w == snapshot_rewrite::sandbox_dir(id).skip(from),
    ensures
        forall|j: int| 0 <= j ==> !#[trigger] snapshot_rewrite::occurs_at(w, j, VM_DIR_PREFIX@),
{
    let dir = snapshot_rewrite::sandbox_dir(id);
    let prefix = VM_DIR_PREFIX@;
    assert forall|j: int| 0 <= j implies !#[trigger] snapshot_rewrite::occurs_at(w, j, prefix) by {
        lemma_prefix_place(id, j + from);
        if snapshot_rewrite::occurs_at(w, j, prefix) {
            assert(dir.subrange(j + from, j + from + 11) =~= w.subrange(j, j + 11));
        }
    }
}

/// Whether the old path occurs twice with one slash shared, `/run/vc/vm/<old>/run/vc/vm/<old>/`,
/// or, where the new id is `run`, is followed by `vc/vm/<old>/`. These are the places where an old
/// path comes out of the replacement.
pub open spec fn old_paths_clash(config: Seq<u8>, old_id: Seq<u8>, new_id: Seq<u8>) -> bool {
    let dir = snapshot_rewrite::sandbox_dir(old_id);
    exists|j: int|
        {
            &&& #[trigger] snapshot_rewrite::occurs_at(config, j, dir)
            &&& {
                ||| snapshot_rewrite::occurs_at(config, j + dir.len() - 1, dir)
                ||| new_id == seq![114u8, 117u8, 110u8] && snapshot_rewrite::occurs_at(
                    config,
                    j + dir.len() - 1,
                    dir.skip(4),
                )
            }
        }
}

/// A clash in the rest is a clash in the whole.
proof fn lemma_clash_in_rest(config: Seq<u8>, k: int, old_id: Seq<u8>, new_id: Seq<u8>)
    requires
        0 <= k <= config.len(),
        old_paths_clash(config.skip(k), old_id, new_id),
    ensures
        old_paths_clash(config, old_id, new_id),
{
    let dir = snapshot_rewrite::sandbox_dir(old_id);
    let rest = config.skip(k);
    let j = choose|j: int|
        {
            &&& #[trigger] snapshot_rewrite::occurs_at(rest, j, dir)
            &&& {
                ||| snapshot_rewrite::occurs_at(rest, j + dir.len() - 1, dir)
                ||| new_id == seq![114u8, 117u8, 110u8] && snapshot_rewrite::occurs_at(
                    rest,
                    j + dir.len() - 1,
                    dir.skip(4),
                )
            }
        };
    let n = dir.len() as int;
    assert(rest.subrange(j, j + n) =~= config.subrange(k + j, k + j + n));
    assert(snapshot_rewrite::occurs_at(config, k + j, dir));
    let e = j + n - 1;
    if snapshot_rewrite::occurs_at(rest, e, dir) {
        assert(rest.subrange(e, e + n) =~= config.subrange(k + e, k + e + n));
    } else {
        let m = dir.skip(4).len() as int;
        assert(rest.subrange(e, e + m) =~= config.subrange(k + e, k + e + m));
    }
    assert(k + e == k + j + n - 1);
}

/// What stands in `out` at `p` stands in the rest behind the first `t` bytes.
proof fn lemma_occurs_behind(out: Seq<u8>, head: Seq<u8>, got: Seq<u8>, p: int, needle: Seq<u8>)
    requires
        out == head + got,
        p >= head.len(),
        snapshot_rewrite::occurs_at(out, p, needle),
    ensures
        snapshot_rewrite::occurs_at(got, p - head.len(), needle),
{
    let q = p - head.len();
    assert(got.subrange(q, q + needle.len()) =~= out.subrange(p, p + needle.len()));
}

/// Where `needle` straddles the end of `head`, the rest starts with what is left of it.
proof fn lemma_straddles(out: Seq<u8>, head: Seq<u8>, got: Seq<u8>, p: int, needle: Seq<u8>)
    requires
        out == head + got,
        0 <= p < head.len() < p + needle.len(),
        snapshot_rewrite::occurs_at(out, p, needle),
    ensures
        ({
            let w = needle.skip(head.len() - p);
            w.len() <= got.len() && got.take(w.len() as int) == w
        }),
{
    let w = needle.skip(head.len() - p);
    let part = out.subrange(p, p + needle.len());
    assert forall|k: int| 0 <= k < w.len() implies got[k] == w[k] by {
        assert(part[k + head.len() - p] == out[head.len() + k]);
    }
    assert(got.take(w.len() as int) =~= w);
}

/// A path at the start, and what is left of one behind its last bytes: together they overlap.
proof fn lemma_overlap(hay: Seq<u8>, needle: Seq<u8>, shared: Seq<u8>)
    requires
        snapshot_rewrite::occurs_at(hay, 0, needle),
        needle.len() > 0,
        shared.len() > 0,
        shared[0] == needle.last(),
        ({
            let rest = hay.skip(needle.len() as int);
            let w = shared.skip(1);
            w.len() <= rest.len() && rest.take(w.len() as int) == w
        }),
    ensures
        snapshot_rewrite::occurs_at(hay, needle.len() - 1, shared),
{
    let n = needle.len() as int;
    let m = shared.len() as int;
    let rest = hay.skip(n);
    let w = shared.skip(1);
    assert forall|k: int| 0 <= k < m implies hay[n - 1 + k] == shared[k] by {
        if k == 0 {
            assert(hay.subrange(0, n)[n - 1] == hay[n - 1]);
        } else {
            assert(rest.take(w.len() as int)[k - 1] == rest[k - 1]);
        }
    }
    assert(hay.subrange(n - 1, n - 1 + m) =~= shared);
}

/// An old path that starts in the first new path and reaches behind it comes of a clash.
#[verifier::rlimit(40)]
proof fn lemma_old_path_in_new(
    hay: Seq<u8>,
    old_id: Seq<u8>,
    new_id: Seq<u8>,
    got: Seq<u8>,
    p: int,
)
    requires
        is_path_id(old_id),
        is_path_id(new_id),
        old_id != new_id,
        snapshot_rewrite::occurs_at(hay, 0, snapshot_rewrite::sandbox_dir(old_id)),
        got == snapshot_rewrite::replaced(
            hay.skip(snapshot_rewrite::sandbox_dir(old_id).len() as int),
            snapshot_rewrite::sandbox_dir(old_id),
            snapshot_rewrite::sandbox_dir(new_id),
        ),
        0 <= p < snapshot_rewrite::sandbox_dir(new_id).len(),
        snapshot_rewrite::occurs_at(
            snapshot_rewrite::sandbox_dir(new_id) + got,
            p,
            snapshot_rewrite::sandbox_dir(old_id),
        ),
    ensures
        old_paths_clash(hay, old_id, new_id),
{
    let needle = snapshot_rewrite::sandbox_dir(old_id);
    let dir = snapshot_rewrite::sandbox_dir(new_id);
    let out = dir + got;
    let n = needle.len() as int;
    let t = dir.len() as int;
    let rest = hay.skip(n);
    let part = out.subrange(p, p + n);
    lemma_prefix_bytes();
    assert(needle[0] == VM_DIR_PREFIX@[0] && needle[1] == VM_DIR_PREFIX@[1]);
    assert(part[0] == out[p] && part[1] == out[p + 1]);
    lemma_slash_in_dir(new_id, p);
    assert(out.take(t) =~= dir);
    assert(needle.take(11) =~= VM_DIR_PREFIX@);
    assert(needle.last() == 47);
    if p == 0 {
        lemma_same_id(old_id, new_id, out);
    } else if p == 4 || p == 7 {
        assert(out[p + 1] == VM_DIR_PREFIX@[p + 1]);
    } else if p == 10 {
        lemma_run_id(new_id, out, needle);
        lemma_straddles(out, dir, got, p, needle);
        let w = needle.skip(5);
        let m = needle.skip(4);
        lemma_no_prefix_inside(old_id, w, 5);
        lemma_front(rest, old_id, new_id, w);
        assert(m.skip(1) =~= w);
        assert(m[0] == VM_DIR_PREFIX@[4]);
        lemma_overlap(hay, needle, m);
    } else {
        lemma_straddles(out, dir, got, p, needle);
        let w = needle.skip(1);
        lemma_no_prefix_inside(old_id, w, 1);
        lemma_front(rest, old_id, new_id, w);
        lemma_overlap(hay, needle, needle);
    }
}

#[verifier::rlimit(40)]
proof fn lemma_no_old_path(hay: Seq<u8>, old_id: Seq<u8>, new_id: Seq<u8>, p: int)
    requires
        is_path_id(old_id),
        is_path_id(new_id),
        old_id != new_id,
        !old_paths_clash(hay, old_id, new_id),
    ensures
        !snapshot_rewrite::occurs_at(
            snapshot_rewrite::replaced(
                hay,
                snapshot_rewrite::sandbox_dir(old_id),
                snapshot_rewrite::sandbox_dir(new_id),
            ),
            p,
            snapshot_rewrite::sandbox_dir(old_id),
        ),
    decreases hay.len(),
{
    let needle = snapshot_rewrite::sandbox_dir(old_id);
    let dir = snapshot_rewrite::sandbox_dir(new_id);
    let out = snapshot_rewrite::replaced(hay, needle, dir);
    let n = needle.len() as int;
    if snapshot_rewrite::occurs_at(out, p, needle) && hay.len() > 0 {
        if snapshot_rewrite::occurs_at(hay, 0, needle) {
            let rest = hay.skip(n);
            let got = snapshot_rewrite::replaced(rest, needle, dir);
            assert(out == dir + got);
            if p >= dir.len() {
                if old_paths_clash(rest, old_id, new_id) {
                    lemma_clash_in_rest(hay, n, old_id, new_id);
                }
                lemma_no_old_path(rest, old_id, new_id, p - dir.len());
                lemma_occurs_behind(out, dir, got, p, needle);
            } else {
                lemma_old_path_in_new(hay, old_id, new_id, got, p);
            }
        } else {
            let rest = hay.skip(1);
            let got = snapshot_rewrite::replaced(rest, needle, dir);
            let head = seq![hay[0]];
            assert(out == head + got);
            if p >= 1 {
                if old_paths_clash(rest, old_id, new_id) {
                    lemma_clash_in_rest(hay, 1, old_id, new_id);
                }
                lemma_no_old_path(rest, old_id, new_id, p - 1);
                lemma_occurs_behind(out, head, got, p, needle);
            } else {
                let w = needle.skip(1);
                lemma_straddles(out, head, got, p, needle);
                lemma_no_prefix_inside(old_id, w, 1);
                lemma_front(rest, old_id, new_id, w);
                assert(out.subrange(0, n)[0] == out[0]);
                assert forall|k: int| 0 <= k < n implies hay[k] == needle[k] by {
                    if k > 0 {
                        assert(rest.take(w.len() as int)[k - 1] == rest[k - 1]);
                    }
                }
                assert(hay.subrange(0, n) =~= needle);
            }
        }
    }
}

/// Where the slashes of a sandbox directory are.
proof fn lemma_slash_in_dir(id: Seq<u8>, p: int)
    requires
        is_path_id(id),
        0 <= p < snapshot_rewrite::sandbox_dir(id).len(),
        snapshot_rewrite::sandbox_dir(id)[p] == 47,
    ensures
        p == 0 || p == 4 || p == 7 || p == 10 || p == 11 + id.len(),
{
    lemma_prefix_bytes();
    let dir = snapshot_rewrite::sandbox_dir(id);
    if p < 11 {
        assert(dir[p] == VM_DIR_PREFIX@[p]);
    } else if p < 11 + id.len() {
        assert(dir[p] == id[p - 11]);
        assert(!snapshot_rewrite::ends_id(id[p - 11]));
    }
}

/// Two ids at one place are one id.
proof fn lemma_same_id(old_id: Seq<u8>, new_id: Seq<u8>, out: Seq<u8>)
    requires
        is_path_id(old_id),
        is_path_id(new_id),
        snapshot_rewrite::occurs_at(out, 0, snapshot_rewrite::sandbox_dir(old_id)),
        snapshot_rewrite::sandbox_dir(new_id).len() <= out.len(),
        out.take(snapshot_rewrite::sandbox_dir(new_id).len() as int)
            == snapshot_rewrite::sandbox_dir(new_id),
    ensures
        old_id == new_id,
{
    let a = snapshot_rewrite::sandbox_dir(old_id);
    let b = snapshot_rewrite::sandbox_dir(new_id);
    assert forall|k: int| 0 <= k < a.len() implies out[k] == a[k] by {
        assert(out.subrange(0, a.len() as int)[k] == out[k]);
    }
    assert forall|k: int| 0 <= k < b.len() implies out[k] == b[k] by {
        assert(out.take(b.len() as int)[k] == out[k]);
    }
    if old_id.len() < new_id.len() {
        assert(a[11int + old_id.len()] == 47);
        assert(b[11int + old_id.len()] == new_id[old_id.len() as int]);
        assert(!snapshot_rewrite::ends_id(new_id[old_id.len() as int]));
    } else if new_id.len() < old_id.len() {
        assert(b[11int + new_id.len()] == 47);
        assert(a[11int + new_id.len()] == old_id[new_id.len() as int]);
        assert(!snapshot_rewrite::ends_id(old_id[new_id.len() as int]));
    } else {
        assert forall|k: int| 0 <= k < old_id.len() implies old_id[k] == new_id[k] by {
            assert(a[11 + k] == old_id[k]);
            assert(b[11 + k] == new_id[k]);
        }
        assert(old_id =~= new_id);
    }
}

/// An id in the place of `run` is `run`.
proof fn lemma_run_id(new_id: Seq<u8>, out: Seq<u8>, needle: Seq<u8>)
    requires
        is_path_id(new_id),
        needle.len() >= 11,
        needle.take(11) == VM_DIR_PREFIX@,
        snapshot_rewrite::occurs_at(out, 10, needle),
        snapshot_rewrite::sandbox_dir(new_id).len() <= out.len(),
        out.take(snapshot_rewrite::sandbox_dir(new_id).len() as int)
            == snapshot_rewrite::sandbox_dir(new_id),
    ensures
        new_id == seq![114u8, 117u8, 110u8],
{
    lemma_prefix_bytes();
    let dir = snapshot_rewrite::sandbox_dir(new_id);
    assert forall|k: int| 0 <= k < 11 implies out[10 + k] == VM_DIR_PREFIX@[k] by {
        assert(out.subrange(10, 10int + needle.len())[k] == out[10 + k]);
        assert(needle.take(11)[k] == needle[k]);
    }
    assert forall|k: int| 0 <= k < dir.len() implies out[k] == dir[k] by {
        assert(out.take(dir.len() as int)[k] == out[k]);
    }
    assert(out[11] == 114 && out[12] == 117 && out[13] == 110 && out[14] == 47);
    let n = new_id.len() as int;
    assert(out[10int + 1] == 114 && out[10int + 4] == 47);
    assert(dir[11 + n] == 47);
    if n < 3 {
        assert(out[11 + n] == 47);
        assert(out[10 + (n + 1)] == VM_DIR_PREFIX@[n + 1]);
    } else {
        assert(dir[11] == new_id[0] && dir[12] == new_id[1] && dir[13] == new_id[2]);
        if n > 3 {
            assert(dir[14] == new_id[3]);
            assert(!snapshot_rewrite::ends_id(new_id[3]));
        }
        assert(new_id =~= seq![114u8, 117u8, 110u8]);
    }
}

/// No path of the old sandbox is left in a patched configuration, unless old paths clash.
pub proof fn law_no_old_path_is_left(
    config: Seq<u8>,
    new_id: Seq<char>,
    at: int,
    old_id: Seq<u8>,
    patched: Seq<u8>,
    p: int,
)
    requires
        is_path_id(wire::text_bytes(new_id)),
        snapshot_rewrite::embedded_id(config) == Ok::<Option<(int, Seq<u8>)>, RewriteFault>(
            Some((at, old_id)),
        ),
        snapshot_rewrite::config_patch(config, new_id) == Ok::<Option<Seq<u8>>, RewriteFault>(
            Some(patched),
        ),
        !old_paths_clash(config, old_id, wire::text_bytes(new_id)),
    ensures
        !snapshot_rewrite::occurs_at(patched, p, snapshot_rewrite::sandbox_dir(old_id)),
{
    let after = config.skip(at + 11);
    snapshot_rewrite::lemma_first_place(config, VM_DIR_PREFIX@);
    lemma_id_len_says(after);
    assert(old_id == after.take(old_id.len() as int));
    assert forall|i: int| 0 <= i < old_id.len() implies !snapshot_rewrite::ends_id(
        #[trigger] old_id[i],
    ) by {
        assert(after.take(old_id.len() as int)[i] == after[i]);
    }
    wire::lemma_text(new_id);
    lemma_no_old_path(config, old_id, wire::text_bytes(new_id), p);
}

/// No path of the old sandbox starts in a first path that ends at a quote.
proof fn lemma_no_path_in_quoted(config: Seq<u8>, at: int, old_id: Seq<u8>, j: int)
    requires
        is_path_id(old_id),
        0 <= at <= j < at + 12 + old_id.len() <= config.len(),
        config.subrange(at, at + 12 + old_id.len()) == VM_DIR_PREFIX@ + old_id + seq![34u8],
    ensures
        !snapshot_rewrite::occurs_at(config, j, snapshot_rewrite::sandbox_dir(old_id)),
{
    let needle = snapshot_rewrite::sandbox_dir(old_id);
    let quoted = VM_DIR_PREFIX@ + old_id + seq![34u8];
    let n = old_id.len() as int;
    let p = j - at;
    lemma_prefix_bytes();
    assert forall|k: int| 0 <= k < 12 + n implies config[at + k] == quoted[k] by {
        assert(config.subrange(at, at + 12 + n)[k] == config[at + k]);
    }
    if snapshot_rewrite::occurs_at(config, j, needle) {
        assert forall|k: int| 0 <= k < 12 + n implies config[j + k] == needle[k] by {
            assert(config.subrange(j, j + needle.len())[k] == config[j + k]);
        }
        assert(quoted[p] == config[at + p]);
        assert(config[j + 0] == needle[0] && needle[0] == VM_DIR_PREFIX@[0]);
        assert(config[j + 1] == needle[1] && needle[1] == VM_DIR_PREFIX@[1]);
        assert(quoted[11 + n] == 34);
        if p == 0 {
            assert(config[j + (11 + n)] == needle[11 + n]);
        } else if p < 11 {
            assert(quoted[p] == VM_DIR_PREFIX@[p]);
            assert(p == 4 || p == 7 || p == 10);
            if p < 10 {
                assert(quoted[p + 1] == VM_DIR_PREFIX@[p + 1]);
                assert(config[at + (p + 1)] == quoted[p + 1]);
            } else {
                lemma_quoted_is_not_run(config, at, old_id);
            }
        } else if p < 11 + n {
            assert(quoted[p] == old_id[p - 11]);
            assert(!snapshot_rewrite::ends_id(old_id[p - 11]));
        }
    }
}

/// Behind the prefix, an id and a quote do not read `run/`.
proof fn lemma_quoted_is_not_run(config: Seq<u8>, at: int, old_id: Seq<u8>)
    requires
        is_path_id(old_id),
        0 <= at,
        at + 12 + old_id.len() <= config.len(),
        config.subrange(at, at + 12 + old_id.len()) == VM_DIR_PREFIX@ + old_id + seq![34u8],
    ensures
        !snapshot_rewrite::occurs_at(config, at + 10, snapshot_rewrite::sandbox_dir(old_id)),
{
    let needle = snapshot_rewrite::sandbox_dir(old_id);
    let quoted = VM_DIR_PREFIX@ + old_id + seq![34u8];
    let n = old_id.len() as int;
    lemma_prefix_bytes();
    assert forall|k: int| 0 <= k < 12 + n implies config[at + k] == quoted[k] by {
        assert(config.subrange(at, at + 12 + n)[k] == config[at + k]);
    }
    assert(quoted[11 + n] == 34);
    if snapshot_rewrite::occurs_at(config, at + 10, needle) {
        assert forall|k: int| 0 <= k < 11 implies config[at + 10 + k] == VM_DIR_PREFIX@[k] by {
            assert(config.subrange(at + 10, at + 10 + needle.len())[k] == config[at + 10 + k]);
            assert(needle[k] == VM_DIR_PREFIX@[k]);
        }
        if n <= 3 {
            assert(config[at + 10 + (n + 1)] == VM_DIR_PREFIX@[n + 1]);
            assert(config[at + (11 + n)] == 34);
        } else {
            assert(config[at + 10 + 4] == 47);
            assert(config[at + 14] == quoted[14]);
            assert(quoted[14] == old_id[3]);
            assert(!snapshot_rewrite::ends_id(old_id[3]));
        }
    }
}

/// A patched configuration whose first embedded path ends at a quote still embeds the old id
/// first: patching it again for the same sandbox gives the same bytes, unless old paths clash.
pub proof fn law_patched_config_with_a_quoted_id_stays(
    config: Seq<u8>,
    new_id: Seq<char>,
    at: int,
    old_id: Seq<u8>,
    patched: Seq<u8>,
)
    requires
        is_path_id(wire::text_bytes(new_id)),
        snapshot_rewrite::embedded_id(config) == Ok::<Option<(int, Seq<u8>)>, RewriteFault>(
            Some((at, old_id)),
        ),
        config[at + 11 + old_id.len()] == 34,
        snapshot_rewrite::config_patch(config, new_id) == Ok::<Option<Seq<u8>>, RewriteFault>(
            Some(patched),
        ),
        !old_paths_clash(config, old_id, wire::text_bytes(new_id)),
    ensures
        snapshot_rewrite::config_patch(patched, new_id) == Ok::<Option<Seq<u8>>, RewriteFault>(
            Some(patched),
        ),
{
    let needle = snapshot_rewrite::sandbox_dir(old_id);
    let dir = snapshot_rewrite::sandbox_dir(wire::text_bytes(new_id));
    lemma_quoted_front(config, new_id, at, old_id, patched);
    assert forall|j: int| 0 <= j < patched.len() implies !#[trigger] snapshot_rewrite::occurs_at(
        patched,
        j,
        needle,
    ) by {
        law_no_old_path_is_left(config, new_id, at, old_id, patched, j);
    }
    let n = patched.len() as int;
    lemma_replaced_from(patched, needle, dir, n);
    assert(patched.skip(n).len() == 0);
    assert(patched.take(n) + Seq::<u8>::empty() =~= patched);
}

/// A first path that ends at a quote is still the first one after patching.
proof fn lemma_quoted_front(
    config: Seq<u8>,
    new_id: Seq<char>,
    at: int,
    old_id: Seq<u8>,
    patched: Seq<u8>,
)
    requires
        snapshot_rewrite::embedded_id(config) == Ok::<Option<(int, Seq<u8>)>, RewriteFault>(
            Some((at, old_id)),
        ),
        config[at + 11 + old_id.len()] == 34,
        snapshot_rewrite::config_patch(config, new_id) == Ok::<Option<Seq<u8>>, RewriteFault>(
            Some(patched),
        ),
    ensures
        snapshot_rewrite::embedded_id(patched) == Ok::<Option<(int, Seq<u8>)>, RewriteFault>(
            Some((at, old_id)),
        ),
{
    let prefix = VM_DIR_PREFIX@;
    let needle = snapshot_rewrite::sandbox_dir(old_id);
    let dir = snapshot_rewrite::sandbox_dir(wire::text_bytes(new_id));
    let n = old_id.len() as int;
    let k = at + 12 + n;
    snapshot_rewrite::lemma_first_place(config, prefix);
    let after = config.skip(at + 11);
    lemma_id_len_says(after);
    assert(old_id == after.take(n));
    assert forall|i: int| 0 <= i < n implies !snapshot_rewrite::ends_id(#[trigger] old_id[i]) by {
        assert(after.take(n)[i] == after[i]);
    }
    assert(config.subrange(at, k) =~= prefix + old_id + seq![34u8]) by {
        assert(config.subrange(at, at + 11) == prefix);
        assert forall|q: int| 0 <= q < 12 + n implies config[at + q] == (prefix + old_id + seq![
            34u8,
        ])[q] by {
            if q < 11 {
                assert(config.subrange(at, at + 11)[q] == config[at + q]);
            } else if q < 11 + n {
                assert(after.take(n)[q - 11] == config[at + q]);
            }
        }
    }
    assert forall|j: int| 0 <= j < k implies !#[trigger] snapshot_rewrite::occurs_at(
        config,
        j,
        needle,
    ) by {
        if j < at {
            assert(!snapshot_rewrite::occurs_at(config, j, prefix));
            if snapshot_rewrite::occurs_at(config, j, needle) {
                lemma_dir_occurs(config, j, old_id);
            }
        } else {
            lemma_no_path_in_quoted(config, at, old_id, j);
        }
    }
    lemma_replaced_from(config, needle, dir, k);
    let rest = snapshot_rewrite::replaced(config.skip(k), needle, dir);
    assert(patched == config.take(k) + rest);
    assert(patched.subrange(at, at + 11) =~= config.subrange(at, at + 11));
    assert(snapshot_rewrite::occurs_at(patched, at, prefix));
    assert forall|j: int| 0 <= j < at implies !#[trigger] snapshot_rewrite::occurs_at(
        patched,
        j,
        prefix,
    ) by {
        assert(!snapshot_rewrite::occurs_at(config, j, prefix));
        assert(patched.subrange(j, j + 11) =~= config.subrange(j, j + 11));
    }
    snapshot_rewrite::lemma_first_place(patched, prefix);
    let found = snapshot_rewrite::first_place(patched, prefix);
    assert(found == Some(at)) by {
        if found is None {
            assert(!snapshot_rewrite::occurs_at(patched, at, prefix));
        } else if (found->0) < at {
            assert(!snapshot_rewrite::occurs_at(patched, found->0, prefix));
        } else if found->0 > at {
            assert(!snapshot_rewrite::occurs_at(patched, at, prefix));
        }
    }
    let behind = patched.skip(at + 11);
    assert(behind =~= old_id + (seq![34u8] + rest)) by {
        assert forall|q: int| 0 <= q < n + 1 implies behind[q] == after[q] by {
            assert(behind[q] == patched[at + 11 + q]);
            assert(patched[at + 11 + q] == config[at + 11 + q]);
        }
        assert forall|q: int| 0 <= q < n implies behind[q] == old_id[q] by {
            assert(after.take(n)[q] == after[q]);
        }
    }
    lemma_id_len(old_id, seq![34u8] + rest);
    assert(behind.take(n) =~= old_id);
}

/// What was put at the end of a path is found there.
pub proof fn lemma_at_with(v: Json, path: Seq<Seq<char>>, new: Json)
    requires
        v.at(path) is Some,
    ensures
        v.with(path, new).at(path) == Some(new),
    decreases path.len(),
{
    if path.len() > 0 {
        let child = v.member(path[0])->0;
        lemma_at_with(child, path.drop_first(), new);
    }
}

/// A patched state nests no deeper than the state did.
pub proof fn lemma_patched_nests(root: Json, patched: Json)
    requires
        snapshot_rewrite::state_patch(root) == Ok::<Option<Json>, RewriteFault>(Some(patched)),
        json::nests_within(root, json::depth_limit()),
    ensures
        json::nests_within(patched, json::depth_limit()),
{
    let path = snapshot_rewrite::fs_path();
    let data = root.at(path)->0;
    let state = Json::String(json::json_text(snapshot_rewrite::patched_inner(root)->0));
    let depth = json::depth_limit();
    json::lemma_at_nests(root, path, depth);
    json::lemma_set_nests(data, "state"@, state, (depth - path.len()) as nat);
    json::lemma_with_nests(root, path, data.set("state"@, state), depth);
}

/// The patched state of a device nests no deeper than the state did.
pub proof fn lemma_deactivated_nests(inner: Json, patched: Json)
    requires
        snapshot_rewrite::deactivated(inner) == Ok::<Option<Json>, RewriteFault>(Some(patched)),
        json::nests_within(inner, json::depth_limit()),
    ensures
        json::nests_within(patched, json::depth_limit()),
{
    json::lemma_set_nests(inner, "device_activated"@, Json::Bool(false), json::depth_limit());
}

/// A patched state is settled: patching what is like it leaves it as it is, where the text that
/// was printed for the device reads back as something like what was printed.
pub proof fn law_patched_state_is_settled(root: Json, patched: Json, again: Json)
    requires
        snapshot_rewrite::state_patch(root) == Ok::<Option<Json>, RewriteFault>(Some(patched)),
        snapshot_rewrite::patched_inner(root) matches Some(inner) && json::reads_back(
            inner,
            json::json_parse_text(json::json_text(inner)),
        ),
        json::alike(patched, again, json::depth_limit()),
    ensures
        snapshot_rewrite::state_patch(again) == Ok::<Option<Json>, RewriteFault>(None),
{
    let path = snapshot_rewrite::fs_path();
    let data = root.at(path)->0;
    let inner = snapshot_rewrite::patched_inner(root)->0;
    let state = Json::String(json::json_text(inner));
    let depth = json::depth_limit();
    lemma_at_with(root, path, data.set("state"@, state));
    let put = data.set("state"@, state);
    assert(put.member("state"@) == Some(state));
    json::lemma_at_alike(patched, again, path, depth);
    json::lemma_member_alike(put, again.at(path)->0, "state"@, (depth - path.len()) as nat);
    assert(snapshot_rewrite::fs_state_of(again) == Ok::<Option<Seq<char>>, RewriteFault>(
        Some(json::json_text(inner)),
    ));
    let back = json::json_parse_text(json::json_text(inner))->Ok_0;
    assert(inner.member("device_activated"@) == Some(Json::Bool(false)));
    json::lemma_member_alike(inner, back, "device_activated"@, depth);
    assert(back.member("device_activated"@) == Some(Json::Bool(false)));
}

/// Whether two paths part ways: there is a place where both have a key, and not the same one.
pub open spec fn paths_part(a: Seq<Seq<char>>, b: Seq<Seq<char>>) -> bool
    decreases a.len(),
{
    a.len() > 0 && b.len() > 0 && (a[0] != b[0] || paths_part(a.drop_first(), b.drop_first()))
}

/// What stands elsewhere stays.
proof fn lemma_with_elsewhere(v: Json, path: Seq<Seq<char>>, new: Json, other: Seq<Seq<char>>)
    requires
        paths_part(path, other),
    ensures
        v.with(path, new).at(other) == v.at(other),
    decreases path.len(),
{
    match v {
        Json::Object(m) => {
            if m.contains_key(path[0]) {
                if path[0] == other[0] {
                    lemma_with_elsewhere(m[path[0]], path.drop_first(), new, other.drop_first());
                }
            }
        },
        _ => {},
    }
}

/// The patch leaves everything alone that does not lie on the way to the state of the
/// file-system device.
pub proof fn law_other_state_is_untouched(root: Json, patched: Json, other: Seq<Seq<char>>)
    requires
        snapshot_rewrite::state_patch(root) == Ok::<Option<Json>, RewriteFault>(Some(patched)),
        paths_part(snapshot_rewrite::fs_path(), other),
    ensures
        patched.at(other) == root.at(other),
{
    let path = snapshot_rewrite::fs_path();
    let data = root.at(path)->0;
    let state = Json::String(json::json_text(snapshot_rewrite::patched_inner(root)->0));
    lemma_with_elsewhere(root, path, data.set("state"@, state), other);
}

/// In the patched state of the device only the activation differs.
pub proof fn law_only_the_activation_differs(inner: Json, patched: Json, key: Seq<char>)
    requires
        snapshot_rewrite::deactivated(inner) == Ok::<Option<Json>, RewriteFault>(Some(patched)),
    ensures
        patched.member("device_activated"@) == Some(Json::Bool(false)),
        key != "device_activated"@ ==> patched.member(key) == inner.member(key),
{
}

} // verus!
