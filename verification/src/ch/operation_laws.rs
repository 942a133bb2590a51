//! What the operations of the Cloud Hypervisor side do with what they are given.
//!
//! Each law speaks of calls: of what was handed to them and what came out.
use vstd::prelude::*;
use vstd::utf8;

use super::config_laws;
use super::hypervisor::{CloudHypervisorInner, HypervisorError};
use super::log;
use super::log::{
    classify_line, cloud_hypervisor_log_output, exit_code, parse_ch_log_level,
    CloudHypervisorLogLevel, LogAction, LogEvent, OutputStream,
};
use super::memory;
use super::memory::{
    bytes_to_megs, checked_next_multiple_of, megs_to_bytes, plan_resize, ResizeMemoryError,
};
use super::protection;
use super::protection::{
    check_protection, get_fake_guest_protection, get_guest_protection, GuestProtection,
    GuestProtectionError,
};
use super::snapshot_rewrite::{
    find_subslice, replace_bytes, rewrite_snapshot_config_for_new_sandbox, RewriteError,
};

verus! {

/// Whether a total differs from what a guest has by whole blocks.
pub open spec fn by_whole_blocks(total: int, current: u64, block_mb: u32) -> bool {
    (total - current) % (block_mb * 1048576) == 0
}

/// A resize asks for nothing exactly where the guest has the requested memory or more. Where it has
/// less, there is a block size, and the least aligned total is within the maximum, it asks for that
/// total, however far it is.
pub proof fn law_resize_grows_to_the_aligned_total(
    current: u64,
    new_mem_mb: u32,
    block_mb: u32,
    max_mb: u32,
    total: u64,
    r: Result<Option<u64>, ResizeMemoryError>,
)
    requires
        call_ensures(plan_resize, (current, new_mem_mb, block_mb, max_mb), r),
    ensures
        r == Ok::<Option<u64>, ResizeMemoryError>(None) <==> current >= new_mem_mb * 1048576,
        current < new_mem_mb * 1048576 <= total < new_mem_mb * 1048576 + block_mb * 1048576 && (
        total - current) % (block_mb * 1048576) == 0 && total <= max_mb * 1048576 ==> r == Ok::<
            Option<u64>,
            ResizeMemoryError,
        >(Some(total)),
        r matches Ok(Some(asked)) ==> asked >= new_mem_mb * 1048576 && asked > current && asked
            <= max_mb * 1048576 && (asked - current) % (block_mb * 1048576) == 0,
        r is Err <==> current < new_mem_mb * 1048576 && (block_mb == 0 || forall|t: int|
            max_mb * 1048576 >= t >= new_mem_mb * 1048576 ==> !#[trigger] by_whole_blocks(
                t,
                current,
                block_mb,
            )),
{
    memory::law_resize_asks_for_what_is_missing(
        current,
        new_mem_mb,
        block_mb,
        max_mb,
        total as int,
    );
    memory::law_resize_is_bounded(current, new_mem_mb, block_mb, max_mb);
    let wanted = new_mem_mb * 1048576;
    let block = block_mb * 1048576;
    if current < wanted && block_mb > 0 {
        let growth = (wanted - current) as nat;
        memory::lemma_next_multiple(growth, block as nat);
        let least = current + memory::next_multiple(growth, block as nat);
        if least > max_mb * 1048576 {
            assert forall|t: int| max_mb * 1048576 >= t >= wanted implies !#[trigger] by_whole_blocks(
                t,
                current,
                block_mb,
            ) by {
                if (t - current) % block == 0 {
                    memory::law_next_multiple_is_least(growth, block as nat, (t - current) as nat);
                }
            }
        } else {
            assert(max_mb * 1048576 >= least >= wanted);
            assert(by_whole_blocks(least as int, current, block_mb));
        }
    }
}

/// The least multiple is found, and none is found only where there is no block or the next multiple
/// is beyond 64 bits.
pub proof fn law_next_multiple_is_found(n: u64, block: u64, m: u64, r: Option<u64>)
    requires
        call_ensures(checked_next_multiple_of, (n, block), r),
        block > 0,
        n <= m,
        m as int % block as int == 0,
    ensures
        r matches Some(v) && n <= v <= m && v as int % block as int == 0,
{
    memory::law_next_multiple_is_least(n as nat, block as nat, m as nat);
}

/// Mebibytes that are turned into bytes and back are the same.
pub proof fn law_megs_are_given_back(megs: u32, bytes: u64, again: u32)
    requires
        call_ensures(megs_to_bytes, (megs,), bytes),
        call_ensures(bytes_to_megs, (bytes,), again),
    ensures
        again == megs,
        bytes == megs * 1048576,
{
}

/// vCPUs are resized to what is asked for, at most to the maximum, and the hypervisor is asked for
/// exactly that, as far as its eight bits go, unless the guest has it.
pub proof fn law_vcpus_are_resized_within_the_maximum(
    h: CloudHypervisorInner,
    old_vcpus: u32,
    new_vcpus: u32,
    r: Result<(u32, u32, Option<u8>), HypervisorError>,
)
    requires
        call_ensures(CloudHypervisorInner::resize_vcpu, (&h, old_vcpus, new_vcpus), r),
    ensures
        r is Err <==> new_vcpus == 0,
        r matches Ok((before, after, ask)) ==> {
            &&& before == old_vcpus
            &&& after <= new_vcpus && after <= h.config.default_maxvcpus
            &&& new_vcpus <= h.config.default_maxvcpus ==> after == new_vcpus
            &&& new_vcpus > h.config.default_maxvcpus ==> after == h.config.default_maxvcpus
            &&& ask is None <==> after == old_vcpus
            &&& after <= 255 && after != old_vcpus ==> ask == Some(after as u8)
        },
{
}

/// What patching `config.json` does to a file whose first `/run/vc/vm/` path has an id that ends:
/// nothing where it is the new id; and where it is any other that is UTF-8, of whatever length, every
/// `/run/vc/vm/<old>/` becomes `/run/vc/vm/<new>/` and all else stays.
pub proof fn law_config_is_patched(
    config: &[u8],
    new_id: &str,
    before: Seq<u8>,
    id: Seq<u8>,
    end: u8,
    rest: Seq<u8>,
    pieces: Seq<Seq<u8>>,
    r: Result<Option<Vec<u8>>, RewriteError>,
)
    requires
        call_ensures(rewrite_snapshot_config_for_new_sandbox, (config, new_id), r),
        config@ == before + config_laws::vm_dir() + (id + (seq![end] + rest)),
        config_laws::none_before(config@, before.len() as int),
        id.len() > 0,
        forall|i: int| 0 <= i < id.len() ==> !config_laws::is_end(#[trigger] id[i]),
        config_laws::is_end(end),
        config_laws::cut_at(pieces, config_laws::vm_dir() + id + seq![47u8]),
        config@ == config_laws::joined(pieces, config_laws::vm_dir() + id + seq![47u8]),
    ensures
        id == utf8::encode_utf8(new_id@) ==> r == Ok::<Option<Vec<u8>>, RewriteError>(None),
        utf8::valid_utf8(id) && id != utf8::encode_utf8(new_id@) ==> (r matches Ok(Some(patched))
            && patched@ == config_laws::joined(
            pieces,
            config_laws::vm_dir() + utf8::encode_utf8(new_id@) + seq![47u8],
        )),
        !utf8::valid_utf8(id) ==> (r matches Err(e) && e is SandboxIdNotUtf8),
{
    config_laws::law_config_with_a_path(before, id, end, rest, new_id@, pieces);
}

/// Patching leaves a file alone only where `/run/vc/vm/` stands nowhere in it, or the first such path
/// has the new id.
pub proof fn law_config_is_left_alone_only_for_cause(
    config: &[u8],
    new_id: &str,
    r: Result<Option<Vec<u8>>, RewriteError>,
)
    requires
        call_ensures(rewrite_snapshot_config_for_new_sandbox, (config, new_id), r),
    ensures
        r == Ok::<Option<Vec<u8>>, RewriteError>(None) ==> config_laws::none_before(
            config@,
            config@.len() as int,
        ) || exists|at: int|
            #![trigger config_laws::none_before(config@, at)]
            0 <= at && at + 11 + utf8::encode_utf8(new_id@).len() < config@.len()
                && config_laws::none_before(config@, at) && config@.subrange(at, at + 11)
                == config_laws::vm_dir() && config@.subrange(
                at + 11,
                at + 11 + utf8::encode_utf8(new_id@).len(),
            ) == utf8::encode_utf8(new_id@),
        config_laws::none_before(config@, config@.len() as int) ==> r == Ok::<
            Option<Vec<u8>>,
            RewriteError,
        >(None),
{
    config_laws::law_config_stays_only_for_cause(config@, new_id@);
}

/// A run of bytes is found where it first stands, and nowhere where it does not stand.
pub proof fn law_bytes_are_found(hay: &[u8], needle: &[u8], at: int, r: Option<usize>)
    requires
        call_ensures(find_subslice, (hay, needle), r),
        needle@.len() > 0,
        0 <= at <= hay@.len() - needle@.len(),
        hay@.subrange(at, at + needle@.len()) == needle@,
    ensures
        r matches Some(i) && i <= at && hay@.subrange(i as int, i + needle@.len()) == needle@,
{
}

/// Replacing bytes by themselves changes nothing.
pub proof fn law_replacing_by_itself_changes_nothing(
    hay: &[u8],
    from: &[u8],
    to: &[u8],
    r: Vec<u8>,
)
    requires
        from@.len() > 0,
        to@ == from@,
        call_ensures(replace_bytes, (hay, from, to), r),
    ensures
        r@ == hay@,
{
    let pieces = config_laws::law_any_file_can_be_cut(hay@, from@);
    assert(config_laws::cut_at(pieces, from@));
}

/// The exit code of a process that exited is passed on as it is; a signal counts as zero, and where
/// waiting failed there is none.
pub proof fn law_exit_code_is_passed_on(status: Option<Option<i32>>, r: Option<i32>)
    requires
        call_ensures(exit_code, (status,), r),
    ensures
        status matches Some(Some(code)) ==> r == Some(code),
        status == Some(None::<i32>) ==> r == Some(0i32),
        r is None <==> status is None,
{
}

/// A line is logged under the level of its first mark, unless it tells of a failed restore.
pub proof fn law_lines_are_logged_by_their_marks(
    line: &str,
    at: int,
    level: CloudHypervisorLogLevel,
    parsed: CloudHypervisorLogLevel,
    classified: CloudHypervisorLogLevel,
)
    requires
        call_ensures(parse_ch_log_level, (line,), parsed),
        call_ensures(classify_line, (line,), classified),
    ensures
        0 <= at && at + 5 <= line@.len() && line@.subrange(at, at + 5) == log::mark(level)
            && log::unmarked_before(line@, at) ==> parsed == level,
        log::unmarked_before(line@, line@.len() as int) ==> parsed is Info,
        classified == parsed || classified is Error,
{
    log::law_level_is_that_of_the_first_mark(line@, at, level);
}

/// Logging stops on a request to shut down and at the end or failure of standard error, and on
/// nothing else.
pub proof fn law_logger_stops_only_for_cause(event: LogEvent, r: LogAction)
    requires
        call_ensures(cloud_hypervisor_log_output, (&event,), r),
    ensures
        r is Stop <==> event is Shutdown || event == LogEvent::Eof(OutputStream::Stderr) || event
            == LogEvent::ReadError(OutputStream::Stderr),
        r is Log <==> event is Line,
{
}

/// A guest may be started exactly where it asks for protection on a host with TDX, or asks for none
/// on a host without.
pub proof fn law_guest_is_checked(
    confidential: bool,
    protection: GuestProtection,
    r: Result<(), GuestProtectionError>,
)
    requires
        call_ensures(check_protection, (confidential, protection), r),
    ensures
        r is Ok <==> (confidential <==> protection is Tdx),
        r matches Err(GuestProtectionError::ExpectedTDXProtection(found)) ==> found == protection,
{
    protection::law_protection_is_checked(confidential, protection);
}

/// A fake protection counts only under test, and only where the host can tell its own.
pub proof fn law_fake_protection_counts_under_test(
    under_test: bool,
    fake: Option<GuestProtection>,
    host: Result<GuestProtection, String>,
    r: Result<GuestProtection, String>,
    faked: Result<GuestProtection, String>,
)
    requires
        call_ensures(get_guest_protection, (under_test, fake, host), r),
        call_ensures(get_fake_guest_protection, (fake, host), faked),
    ensures
        r is Ok <==> host is Ok,
        faked is Ok <==> host is Ok,
        !under_test ==> r == host,
        under_test ==> r == faked,
        fake is None ==> faked == host,
        host is Ok && fake is Some ==> faked == Ok::<GuestProtection, String>(fake->0),
{
}

/// A snapshot goes to the URL of its directory, and a directory must be named.
pub proof fn law_snapshot_goes_to_its_directory(
    dest_dir: &str,
    r: Result<String, HypervisorError>,
)
    requires
        call_ensures(CloudHypervisorInner::save_vm, (dest_dir,), r),
    ensures
        r is Ok <==> dest_dir@.len() > 0,
        r matches Ok(url) ==> url@.len() == "file://"@.len() + dest_dir@.len() && url@.skip(
            "file://"@.len() as int,
        ) == dest_dir@,
        r matches Err(e) ==> e is DestDirRequired,
{
    if r is Ok {
        assert((r->Ok_0)@.skip("file://"@.len() as int) =~= dest_dir@);
    }
}

/// A restore source is accepted exactly where it is named, is a directory and holds both files.
pub proof fn law_restore_source_is_checked(
    snapshot_src: &str,
    is_directory: bool,
    has_state: bool,
    has_config: bool,
    r: Result<(), HypervisorError>,
)
    requires
        call_ensures(
            CloudHypervisorInner::check_restore_source,
            (snapshot_src, is_directory, has_state, has_config),
            r,
        ),
    ensures
        r is Ok <==> snapshot_src@.len() > 0 && is_directory && has_state && has_config,
        r matches Err(HypervisorError::SnapshotSrcNotDirectory) ==> !is_directory,
        r matches Err(HypervisorError::StateFileMissing) ==> !has_state,
        r matches Err(HypervisorError::ConfigFileMissing) ==> !has_config && has_state,
{
}

} // verus!
