//! Which thread of the hypervisor process runs which vCPU.
//!
//! The hypervisor names these threads `vcpu<number>`; a thread's name stands in its `comm` file.
use vstd::prelude::*;

use std::collections::HashMap;

use crate::text;

verus! {

/// A thread of the process, as its task directory shows it.
#[derive(Debug, Clone, PartialEq, Eq)]
pub struct ThreadEntry {
    /// Name of the directory entry; `None` where it is not UTF-8.
    pub name: Option<String>,
    /// Contents of the `comm` file; `None` where there is no such file.
    pub comm: Option<String>,
}

/// Why the vCPU threads cannot be told.
#[derive(Debug, Clone, Copy, PartialEq, Eq, Structural)]
pub enum VcpuTidsError {
    /// The name of a directory entry is not a thread id.
    InvalidTid,
    /// A thread has no `comm` file.
    CommMissing,
    /// What follows `vcpu` in a thread name is not a number.
    InvalidVcpuId,
    /// No thread runs a vCPU.
    NoVcpus,
}

/// The number that `s` is in decimal: digits, at least one, with an optional `+` in front.
pub open spec fn u32_of(s: Seq<char>) -> Option<u32> {
    let digits = if s.len() > 0 && s[0] == '+' {
        s.skip(1)
    } else {
        s
    };
    if digits.len() > 0 && text::all_digits(digits) && text::value_of(digits) <= u32::MAX {
        Some(text::value_of(digits) as u32)
    } else {
        None
    }
}

/// Whether `c` has the Unicode property `White_Space`.
pub open spec fn is_white(c: char) -> bool {
    ||| '\u{9}' <= c <= '\u{d}'
    ||| c == ' '
    ||| c == '\u{85}'
    ||| c == '\u{a0}'
    ||| c == '\u{1680}'
    ||| '\u{2000}' <= c <= '\u{200a}'
    ||| c == '\u{2028}'
    ||| c == '\u{2029}'
    ||| c == '\u{202f}'
    ||| c == '\u{205f}'
    ||| c == '\u{3000}'
}

/// `s` without white space at its start.
pub open spec fn trim_front(s: Seq<char>) -> Seq<char>
    decreases s.len(),
{
    if s.len() > 0 && is_white(s[0]) {
        trim_front(s.skip(1))
    } else {
        s
    }
}

/// `s` without white space at its end.
pub open spec fn trim_back(s: Seq<char>) -> Seq<char>
    decreases s.len(),
{
    if s.len() > 0 && is_white(s.last()) {
        trim_back(s.drop_last())
    } else {
        s
    }
}

/// `vcpu`.
pub open spec fn vcpu_prefix() -> Seq<char> {
    seq!['v', 'c', 'p', 'u']
}

/// `s` without any `vcpu` at its start.
pub open spec fn strip_vcpu(s: Seq<char>) -> Seq<char>
    decreases s.len(),
{
    if text::stands_in(s, 0, vcpu_prefix()) {
        strip_vcpu(s.skip(4))
    } else {
        s
    }
}

/// The vCPU that a thread of this name runs: `None` for a thread that runs none.
pub open spec fn vcpu_of(comm: Seq<char>) -> Result<Option<u32>, VcpuTidsError> {
    if !text::stands_in(comm, 0, vcpu_prefix()) {
        Ok(None)
    } else {
        match u32_of(trim_back(trim_front(strip_vcpu(comm)))) {
            Some(id) => Ok(Some(id)),
            None => Err(VcpuTidsError::InvalidVcpuId),
        }
    }
}

/// What a thread adds to the mapping: nothing, or a vCPU and its thread id.
pub open spec fn entry_of(entry: ThreadEntry) -> Result<Option<(u32, u32)>, VcpuTidsError> {
    match entry.name {
        None => Ok(None),
        Some(name) => match u32_of(name@) {
            None => Err(VcpuTidsError::InvalidTid),
            Some(tid) => match entry.comm {
                None => Err(VcpuTidsError::CommMissing),
                Some(comm) => match vcpu_of(comm@) {
                    Err(e) => Err(e),
                    Ok(None) => Ok(None),
                    Ok(Some(vcpu)) => Ok(Some((vcpu, tid))),
                },
            },
        },
    }
}

/// The mapping from vCPU to thread id of the first `n` threads, or the first error. Of two threads
/// for one vCPU the later one counts.
pub open spec fn tids_upto(threads: Seq<ThreadEntry>, n: nat) -> Result<Map<u32, u32>, VcpuTidsError>
    decreases n,
{
    if n == 0 {
        Ok(Map::empty())
    } else {
        match tids_upto(threads, (n - 1) as nat) {
            Err(e) => Err(e),
            Ok(before) => match entry_of(threads[n - 1]) {
                Err(e) => Err(e),
                Ok(None) => Ok(before),
                Ok(Some((vcpu, tid))) => Ok(before.insert(vcpu, tid)),
            },
        }
    }
}

/// The mapping from vCPU to thread id. There must be at least one vCPU.
pub open spec fn tids_of(threads: Seq<ThreadEntry>) -> Result<Map<u32, u32>, VcpuTidsError> {
    match tids_upto(threads, threads.len()) {
        Err(e) => Err(e),
        Ok(map) => if map.len() == 0 {
            Err(VcpuTidsError::NoVcpus)
        } else {
            Ok(map)
        },
    }
}

/// Digits lead to more digits: the value of a longer numeral is no smaller.
proof fn lemma_value_grows(s: Seq<char>, n: int)
    requires
        text::all_digits(s),
        0 <= n <= s.len(),
    ensures
        0 <= text::value_of(s.take(n)) <= text::value_of(s),
    decreases s.len() - n,
{
    if n == s.len() {
        assert(s.take(n) =~= s);
        lemma_value_positive(s);
    } else {
        lemma_value_grows(s, n + 1);
        let more = s.take(n + 1);
        assert(more.drop_last() =~= s.take(n));
        assert('0' <= s[n] <= '9');
        assert forall|i: int| 0 <= i < n implies '0' <= #[trigger] s.take(n)[i] <= '9' by {
            assert('0' <= s[i] <= '9');
        }
        lemma_value_positive(s.take(n));
    }
}

/// The value of a numeral is not negative.
proof fn lemma_value_positive(s: Seq<char>)
    requires
        text::all_digits(s),
    ensures
        text::value_of(s) >= 0,
    decreases s.len(),
{
    if s.len() > 0 {
        let before = s.drop_last();
        assert forall|i: int| 0 <= i < before.len() implies '0' <= #[trigger] before[i] <= '9' by {
            assert('0' <= s[i] <= '9');
        }
        lemma_value_positive(before);
        assert('0' <= s[s.len() - 1] <= '9');
    }
}

/// The number that the characters from `from` to `to` are.
fn parse_u32(s: &Vec<char>, from: usize, to: usize) -> (r: Option<u32>)
    requires
        from <= to <= s@.len(),
    ensures
        r == u32_of(s@.subrange(from as int, to as int)),
{
    let ghost part = s@.subrange(from as int, to as int);
    let start: usize = if from < to && s[from] == '+' {
        from + 1
    } else {
        from
    };
    let ghost digits = s@.subrange(start as int, to as int);
    proof {
        if part.len() > 0 {
            assert(part[0] == s@[from as int]);
        }
        if start > from {
            assert(part.skip(1) =~= digits);
        } else {
            assert(part =~= digits);
        }
    }
    if start == to {
        return None;
    }
    let mut value: u64 = 0;
    let mut i: usize = start;
    assert(digits.take(0) =~= Seq::empty());
    while i < to
        invariant
            from <= start <= i <= to <= s@.len(),
            part == s@.subrange(from as int, to as int),
            digits == s@.subrange(start as int, to as int),
            value <= u32::MAX,
            value == text::value_of(digits.take(i - start)),
            forall|k: int| 0 <= k < i - start ==> '0' <= #[trigger] digits[k] <= '9',
            u32_of(part) == if digits.len() > 0 && text::all_digits(digits) && text::value_of(
                digits,
            ) <= u32::MAX {
                Some(text::value_of(digits) as u32)
            } else {
                None
            },
        decreases to - i,
    {
        let c: char = s[i];
        assert(digits[i - start] == c);
        if !('0' <= c && c <= '9') {
            return None;
        }
        value = value * 10 + (c as u64 - '0' as u64);
        proof {
            assert(digits.take(i + 1 - start).drop_last() =~= digits.take(i - start));
        }
        i = i + 1;
        if value > u32::MAX as u64 {
            proof {
                if text::all_digits(digits) {
                    lemma_value_grows(digits, i - start);
                }
            }
            return None;
        }
    }
    proof {
        assert(digits.take(i - start) =~= digits);
    }
    Some(value as u32)
}

/// Whether `c` has the Unicode property `White_Space`.
fn white(c: char) -> (r: bool)
    ensures
        r == is_white(c),
{
    ('\u{9}' <= c && c <= '\u{d}') || c == ' ' || c == '\u{85}' || c == '\u{a0}' || c == '\u{1680}'
        || ('\u{2000}' <= c && c <= '\u{200a}') || c == '\u{2028}' || c == '\u{2029}' || c
        == '\u{202f}' || c == '\u{205f}' || c == '\u{3000}'
}

/// Whether `vcpu` stands at `i`.
fn vcpu_at(s: &Vec<char>, i: usize) -> (r: bool)
    requires
        i <= s@.len(),
    ensures
        r == text::stands_in(s@.skip(i as int), 0, vcpu_prefix()),
{
    let ghost rest = s@.skip(i as int);
    let r: bool = s.len() - i >= 4 && s[i] == 'v' && s[i + 1] == 'c' && s[i + 2] == 'p' && s[i + 3]
        == 'u';
    proof {
        if rest.len() >= 4 {
            let part = rest.subrange(0, 4);
            assert(part[0] == s@[i as int] && part[1] == s@[i + 1] && part[2] == s@[i + 2] && part[3]
                == s@[i + 3]);
            if r {
                assert(part =~= vcpu_prefix());
            } else if part == vcpu_prefix() {
                assert(vcpu_prefix()[0] == 'v' && vcpu_prefix()[1] == 'c' && vcpu_prefix()[2] == 'p'
                    && vcpu_prefix()[3] == 'u');
            }
        }
    }
    r
}

/// Where what follows the `vcpu` at the start begins.
fn after_vcpu(s: &Vec<char>) -> (r: usize)
    ensures
        r <= s@.len(),
        s@.skip(r as int) == strip_vcpu(s@),
{
    let mut from: usize = 0;
    assert(s@.skip(0) =~= s@);
    while vcpu_at(s, from)
        invariant
            from <= s@.len(),
            strip_vcpu(s@) == strip_vcpu(s@.skip(from as int)),
        decreases s@.len() - from,
    {
        assert(from + 4 <= s.len());
        assert(s@.skip(from as int).skip(4) =~= s@.skip(from + 4));
        from = from + 4;
    }
    from
}

/// Where what follows the white space at `start` begins.
fn after_white(s: &Vec<char>, start: usize) -> (r: usize)
    requires
        start <= s@.len(),
    ensures
        start <= r <= s@.len(),
        s@.skip(r as int) == trim_front(s@.skip(start as int)),
{
    let mut from: usize = start;
    while from < s.len() && white(s[from])
        invariant
            start <= from <= s@.len(),
            trim_front(s@.skip(start as int)) == trim_front(s@.skip(from as int)),
        decreases s@.len() - from,
    {
        assert(s@.skip(from as int)[0] == s@[from as int]);
        assert(s@.skip(from as int).skip(1) =~= s@.skip(from + 1));
        from = from + 1;
    }
    proof {
        if from < s@.len() {
            assert(s@.skip(from as int)[0] == s@[from as int]);
        }
    }
    from
}

/// Where the white space at the end of what begins at `from` begins.
fn before_white(s: &Vec<char>, from: usize) -> (r: usize)
    requires
        from <= s@.len(),
    ensures
        from <= r <= s@.len(),
        s@.subrange(from as int, r as int) == trim_back(s@.skip(from as int)),
{
    let mut to: usize = s.len();
    assert(s@.subrange(from as int, to as int) =~= s@.skip(from as int));
    while from < to && white(s[to - 1])
        invariant
            from <= to <= s@.len(),
            trim_back(s@.skip(from as int)) == trim_back(s@.subrange(from as int, to as int)),
        decreases to - from,
    {
        let ghost part = s@.subrange(from as int, to as int);
        assert(part.last() == s@[to - 1]);
        assert(part.drop_last() =~= s@.subrange(from as int, to - 1));
        to = to - 1;
    }
    proof {
        if from < to {
            assert(s@.subrange(from as int, to as int).last() == s@[to - 1]);
        }
    }
    to
}

/// The vCPU that a thread of this name runs.
fn vcpu_id(comm: &str) -> (r: Result<Option<u32>, VcpuTidsError>)
    ensures
        r == vcpu_of(comm@),
{
    let s = text::chars_of(comm);
    assert(s@.skip(0) =~= s@);
    if !vcpu_at(&s, 0) {
        return Ok(None);
    }
    let start: usize = after_vcpu(&s);
    let from: usize = after_white(&s, start);
    let to: usize = before_white(&s, from);
    match parse_u32(&s, from, to) {
        Some(id) => Ok(Some(id)),
        None => Err(VcpuTidsError::InvalidVcpuId),
    }
}

/// What a thread adds to the mapping.
fn thread_entry(entry: &ThreadEntry) -> (r: Result<Option<(u32, u32)>, VcpuTidsError>)
    ensures
        r == entry_of(*entry),
{
    let name: &String = match &entry.name {
        Some(name) => name,
        None => {
            return Ok(None);
        },
    };
    let chars = text::chars_of(name.as_str());
    assert(chars@.subrange(0, chars@.len() as int) =~= chars@);
    let tid: u32 = match parse_u32(&chars, 0, chars.len()) {
        Some(tid) => tid,
        None => {
            return Err(VcpuTidsError::InvalidTid);
        },
    };
    match &entry.comm {
        None => Err(VcpuTidsError::CommMissing),
        Some(comm) => match vcpu_id(comm.as_str())? {
            Some(vcpu) => Ok(Some((vcpu, tid))),
            None => Ok(None),
        },
    }
}

/// The first error decides.
proof fn lemma_tids_fail(threads: Seq<ThreadEntry>, some: nat, all: nat)
    requires
        some <= all,
        tids_upto(threads, some) is Err,
    ensures
        tids_upto(threads, all) == tids_upto(threads, some),
    decreases all,
{
    if some < all {
        lemma_tids_fail(threads, some, (all - 1) as nat);
    }
}

/// The mapping from vCPU to thread id that the threads of the hypervisor process show.
pub fn get_ch_vcpu_tids(threads: &[ThreadEntry]) -> (r: Result<HashMap<u32, u32>, VcpuTidsError>)
    ensures
        match tids_of(threads@) {
            Ok(map) => r matches Ok(m) && m@ == map,
            Err(e) => r matches Err(got) && got == e,
        },
{
    broadcast use vstd::std_specs::hash::group_hash_axioms;

    let mut vcpus: HashMap<u32, u32> = HashMap::new();
    assert(vcpus@ =~= Map::empty());
    for i in 0..threads.len()
        invariant
            tids_upto(threads@, i as nat) == Ok::<Map<u32, u32>, VcpuTidsError>(vcpus@),
    {
        broadcast use vstd::std_specs::hash::group_hash_axioms;

        proof {
            if tids_upto(threads@, (i + 1) as nat) is Err {
                lemma_tids_fail(threads@, (i + 1) as nat, threads@.len());
            }
        }
        let entry: Option<(u32, u32)> = thread_entry(&threads[i])?;
        match entry {
            Some((vcpu, tid)) => {
                vcpus.insert(vcpu, tid);
            },
            None => {},
        }
    }
    if vcpus.len() == 0 {
        return Err(VcpuTidsError::NoVcpus);
    }
    Ok(vcpus)
}

/// A numeral is read as its number.
pub proof fn law_numeral_is_read(n: u32)
    ensures
        u32_of(text::decimal(n as nat)) == Some(n),
{
    text::lemma_decimal(n as nat);
    let s = text::decimal(n as nat);
    assert('0' <= s[0] <= '9');
}

/// A thread that the hypervisor names `vcpu<n>` is read as running vCPU `n`: the name is the line
/// that its `comm` file holds.
pub proof fn law_vcpu_thread_is_recognised(n: u32)
    ensures
        vcpu_of(vcpu_prefix() + text::decimal(n as nat) + seq!['\n']) == Ok::<
            Option<u32>,
            VcpuTidsError,
        >(Some(n)),
{
    let digits = text::decimal(n as nat);
    let comm = vcpu_prefix() + digits + seq!['\n'];
    let rest = digits + seq!['\n'];
    text::lemma_decimal(n as nat);
    law_numeral_is_read(n);
    assert('0' <= digits[0] <= '9');
    assert('0' <= digits[digits.len() - 1] <= '9');
    assert(comm.subrange(0, 4) =~= vcpu_prefix());
    assert(comm.skip(4) =~= rest);
    assert(!text::stands_in(rest, 0, vcpu_prefix())) by {
        if text::stands_in(rest, 0, vcpu_prefix()) {
            assert(rest.subrange(0, 4)[0] == rest[0]);
            assert(vcpu_prefix()[0] == 'v');
        }
    }
    reveal_with_fuel(strip_vcpu, 2);
    assert(strip_vcpu(comm) == rest);
    assert(rest[0] == digits[0]);
    assert(trim_front(rest) == rest);
    assert(rest.last() == '\n');
    assert(rest.drop_last() =~= digits);
    reveal_with_fuel(trim_back, 2);
    assert(trim_back(rest) == digits);
}

/// Digits are read as their value, with a `+` in front or without, as long as it fits 32 bits.
pub proof fn law_numbers_are_read(digits: Seq<char>)
    requires
        digits.len() > 0,
        text::all_digits(digits),
    ensures
        text::value_of(digits) <= u32::MAX ==> u32_of(digits) == Some(
            text::value_of(digits) as u32,
        ) && u32_of(seq!['+'] + digits) == Some(text::value_of(digits) as u32),
        text::value_of(digits) > u32::MAX ==> u32_of(digits) is None && u32_of(seq!['+'] + digits)
            is None,
{
    assert('0' <= digits[0] <= '9');
    assert((seq!['+'] + digits).skip(1) =~= digits);
}

/// Nothing but digits, with a `+` in front or without, is a number: not a sign alone, and not
/// anything with another character in it.
pub proof fn law_only_digits_are_numbers(s: Seq<char>, k: int)
    ensures
        u32_of(Seq::empty()) is None,
        u32_of(seq!['+']) is None,
        0 <= k < s.len() && !('0' <= s[k] <= '9') && !(k == 0 && s[k] == '+') ==> u32_of(s) is None,
{
    if 0 <= k < s.len() && !('0' <= s[k] <= '9') && !(k == 0 && s[k] == '+') {
        if s[0] == '+' {
            assert(s.skip(1)[k - 1] == s[k]);
            assert(!text::all_digits(s.skip(1)));
        } else {
            assert(!text::all_digits(s));
        }
    }
}

/// White space is what Unicode calls so.
pub proof fn law_white_space(c: char)
    ensures
        is_white(c) <==> (9 <= c as int <= 13 || c as int == 32 || c as int == 0x85 || c as int
            == 0xa0 || c as int == 0x1680 || 0x2000 <= c as int <= 0x200a || c as int == 0x2028
            || c as int == 0x2029 || c as int == 0x202f || c as int == 0x205f || c as int
            == 0x3000),
{
}

/// White space in front is taken off.
proof fn lemma_trim_front(before: Seq<char>, rest: Seq<char>)
    requires
        forall|i: int| 0 <= i < before.len() ==> is_white(#[trigger] before[i]),
        rest.len() > 0 ==> !is_white(rest[0]),
    ensures
        trim_front(before + rest) == rest,
    decreases before.len(),
{
    let s = before + rest;
    if before.len() > 0 {
        assert(is_white(before[0]));
        assert(s.skip(1) =~= before.skip(1) + rest);
        assert forall|i: int| 0 <= i < before.skip(1).len() implies is_white(
            #[trigger] before.skip(1)[i],
        ) by {
            assert(is_white(before[i + 1]));
        }
        lemma_trim_front(before.skip(1), rest);
    } else {
        assert(s =~= rest);
    }
}

/// White space behind is taken off.
proof fn lemma_trim_back(rest: Seq<char>, behind: Seq<char>)
    requires
        forall|i: int| 0 <= i < behind.len() ==> is_white(#[trigger] behind[i]),
        rest.len() > 0 ==> !is_white(rest.last()),
    ensures
        trim_back(rest + behind) == rest,
    decreases behind.len(),
{
    let s = rest + behind;
    if behind.len() > 0 {
        assert(is_white(behind[behind.len() - 1]));
        assert(s.drop_last() =~= rest + behind.drop_last());
        assert forall|i: int| 0 <= i < behind.drop_last().len() implies is_white(
            #[trigger] behind.drop_last()[i],
        ) by {
            assert(is_white(behind[i]));
        }
        lemma_trim_back(rest, behind.drop_last());
    } else {
        assert(s =~= rest);
    }
}

/// A thread whose name does not start with `vcpu` runs no vCPU. Of any other the number counts that
/// stands behind, with white space round it or without: where it is no number, the name is refused.
pub proof fn law_thread_names_are_read(
    before: Seq<char>,
    number: Seq<char>,
    behind: Seq<char>,
    other: Seq<char>,
)
    requires
        forall|i: int| 0 <= i < before.len() ==> is_white(#[trigger] before[i]),
        forall|i: int| 0 <= i < behind.len() ==> is_white(#[trigger] behind[i]),
        number.len() > 0 ==> !is_white(number[0]) && !is_white(number.last()),
        (before + number + behind).len() < 4 || (before + number + behind).take(4) != seq![
            'v',
            'c',
            'p',
            'u',
        ],
        other.len() < 4 || other.take(4) != seq!['v', 'c', 'p', 'u'],
    ensures
        vcpu_of(other) == Ok::<Option<u32>, VcpuTidsError>(None),
        vcpu_of(seq!['v', 'c', 'p', 'u'] + (before + number + behind)) == match u32_of(number) {
            Some(id) => Ok::<Option<u32>, VcpuTidsError>(Some(id)),
            None => Err::<Option<u32>, VcpuTidsError>(VcpuTidsError::InvalidVcpuId),
        },
{
    if other.len() >= 4 {
        assert(other.subrange(0, 4) =~= other.take(4));
    }
    let rest = before + number + behind;
    let comm = seq!['v', 'c', 'p', 'u'] + rest;
    assert(comm.subrange(0, 4) =~= vcpu_prefix());
    assert(comm.skip(4) =~= rest);
    if rest.len() >= 4 {
        assert(rest.subrange(0, 4) =~= rest.take(4));
    }
    reveal_with_fuel(strip_vcpu, 2);
    assert(strip_vcpu(comm) == rest);
    if number.len() > 0 {
        assert(rest =~= before + (number + behind));
        lemma_trim_front(before, number + behind);
        lemma_trim_back(number, behind);
    } else {
        let none = Seq::<char>::empty();
        let white = before + behind;
        assert(number =~= none);
        assert(rest =~= white + none);
        assert forall|i: int| 0 <= i < white.len() implies is_white(#[trigger] white[i]) by {
            if i < before.len() {
                assert(is_white(before[i]));
            } else {
                assert(is_white(behind[i - before.len()]));
            }
        }
        lemma_trim_front(white, none);
        assert(trim_back(none) =~= none);
    }
}

/// A `vcpu` that is repeated counts once.
pub proof fn law_repeated_prefixes_count_once(rest: Seq<char>)
    requires
        rest.len() >= 4,
        rest.take(4) == seq!['v', 'c', 'p', 'u'],
    ensures
        vcpu_of(seq!['v', 'c', 'p', 'u'] + rest) == vcpu_of(rest),
{
    let comm = seq!['v', 'c', 'p', 'u'] + rest;
    assert(comm.subrange(0, 4) =~= vcpu_prefix());
    assert(rest.subrange(0, 4) =~= rest.take(4));
    assert(comm.skip(4) =~= rest);
}

/// What a thread adds: nothing where its name cannot be read; and otherwise its own id, which must
/// be a number, under the vCPU that its `comm` names, if it names one.
pub proof fn law_a_thread_adds_itself(entry: ThreadEntry)
    ensures
        entry_of(entry) matches Ok(Some((vcpu, tid))) ==> (entry.name matches Some(name) && u32_of(
            name@,
        ) == Some(tid)) && (entry.comm matches Some(comm) && vcpu_of(comm@) == Ok::<
            Option<u32>,
            VcpuTidsError,
        >(Some(vcpu))),
        entry.name is None ==> entry_of(entry) == Ok::<Option<(u32, u32)>, VcpuTidsError>(None),
        entry.name matches Some(name) ==> {
            &&& u32_of(name@) is None ==> entry_of(entry) == Err::<
                Option<(u32, u32)>,
                VcpuTidsError,
            >(VcpuTidsError::InvalidTid)
            &&& u32_of(name@) is Some && entry.comm is None ==> entry_of(entry) == Err::<
                Option<(u32, u32)>,
                VcpuTidsError,
            >(VcpuTidsError::CommMissing)
            &&& u32_of(name@) matches Some(tid) ==> (entry.comm matches Some(comm) ==> match vcpu_of(
                comm@,
            ) {
                Ok(Some(vcpu)) => entry_of(entry) == Ok::<Option<(u32, u32)>, VcpuTidsError>(
                    Some((vcpu, tid)),
                ),
                Ok(None) => entry_of(entry) == Ok::<Option<(u32, u32)>, VcpuTidsError>(None),
                Err(e) => entry_of(entry) == Err::<Option<(u32, u32)>, VcpuTidsError>(e),
            })
        },
{
}

/// Whether thread `i` runs `vcpu`.
pub open spec fn runs(threads: Seq<ThreadEntry>, i: int, vcpu: u32) -> bool {
    entry_of(threads[i]) matches Ok(Some((v, _))) && v == vcpu
}

/// What the first threads add up to.
proof fn lemma_tids(threads: Seq<ThreadEntry>, n: nat, vcpu: u32)
    ensures
        match tids_upto(threads, n) {
            Ok(map) => {
                &&& map.dom().finite()
                &&& forall|i: int| 0 <= i < n ==> entry_of(#[trigger] threads[i]) is Ok
                &&& map.contains_key(vcpu) ==> exists|i: int|
                    0 <= i < n && #[trigger] runs(threads, i, vcpu) && entry_of(threads[i]) == Ok::<
                        Option<(u32, u32)>,
                        VcpuTidsError,
                    >(Some((vcpu, map[vcpu]))) && forall|j: int|
                        i < j < n ==> !#[trigger] runs(threads, j, vcpu)
                &&& !map.contains_key(vcpu) ==> forall|i: int|
                    0 <= i < n ==> !#[trigger] runs(threads, i, vcpu)
            },
            Err(e) => exists|i: int|
                0 <= i < n && entry_of(#[trigger] threads[i]) == Err::<
                    Option<(u32, u32)>,
                    VcpuTidsError,
                >(e) && forall|j: int| 0 <= j < i ==> entry_of(#[trigger] threads[j]) is Ok,
        },
    decreases n,
{
    if n > 0 {
        let m = (n - 1) as nat;
        lemma_tids(threads, m, vcpu);
        match tids_upto(threads, n) {
            Ok(map) => {
                let before = tids_upto(threads, m)->Ok_0;
                assert forall|i: int| 0 <= i < n implies entry_of(#[trigger] threads[i]) is Ok by {
                    if i == m {
                        assert(entry_of(threads[m as int]) is Ok);
                    }
                }
                if runs(threads, m as int, vcpu) {
                    assert(entry_of(threads[m as int]) == Ok::<Option<(u32, u32)>, VcpuTidsError>(
                        Some((vcpu, map[vcpu])),
                    ));
                } else if map.contains_key(vcpu) {
                    assert(before.contains_key(vcpu));
                    assert(before[vcpu] == map[vcpu]);
                    let i = choose|i: int|
                        0 <= i < m && #[trigger] runs(threads, i, vcpu) && entry_of(threads[i])
                            == Ok::<Option<(u32, u32)>, VcpuTidsError>(Some((vcpu, before[vcpu])))
                            && forall|j: int| i < j < m ==> !#[trigger] runs(threads, j, vcpu);
                    assert(runs(threads, i, vcpu));
                }
            },
            Err(e) => {
                if tids_upto(threads, m) is Ok {
                    assert(entry_of(threads[m as int]) == Err::<
                        Option<(u32, u32)>,
                        VcpuTidsError,
                    >(e));
                }
            },
        }
    }
}

/// The mapping has every vCPU that a thread runs and no other, each with the id of the last thread
/// that runs it. It is refused for the first thread that is, and where no thread runs a vCPU.
pub proof fn law_vcpu_threads_are_mapped(threads: Seq<ThreadEntry>, vcpu: u32)
    ensures
        match tids_of(threads) {
            Ok(map) => {
                &&& map.contains_key(vcpu) ==> exists|i: int|
                    0 <= i < threads.len() && #[trigger] runs(threads, i, vcpu) && entry_of(
                        threads[i],
                    ) == Ok::<Option<(u32, u32)>, VcpuTidsError>(Some((vcpu, map[vcpu])))
                        && forall|j: int|
                        i < j < threads.len() ==> !#[trigger] runs(threads, j, vcpu)
                &&& !map.contains_key(vcpu) ==> forall|i: int|
                    0 <= i < threads.len() ==> !#[trigger] runs(threads, i, vcpu)
            },
            Err(VcpuTidsError::NoVcpus) => forall|i: int|
                0 <= i < threads.len() ==> !#[trigger] runs(threads, i, vcpu),
            Err(e) => exists|i: int|
                0 <= i < threads.len() && entry_of(#[trigger] threads[i]) == Err::<
                    Option<(u32, u32)>,
                    VcpuTidsError,
                >(e) && forall|j: int| 0 <= j < i ==> entry_of(#[trigger] threads[j]) is Ok,
        },
        (forall|i: int| 0 <= i < threads.len() ==> entry_of(#[trigger] threads[i]) is Ok) && (
        exists|i: int| 0 <= i < threads.len() && #[trigger] runs(threads, i, vcpu)) ==> tids_of(
            threads,
        ) is Ok,
{
    lemma_tids(threads, threads.len(), vcpu);
    match tids_upto(threads, threads.len()) {
        Ok(map) => {
            if map.len() == 0 {
                assert(map.dom() =~= Set::empty());
                assert(!map.contains_key(vcpu));
            }
        },
        Err(_) => {
            lemma_thread_errors(threads);
        },
    }
}

/// No thread is refused for the want of vCPUs.
proof fn lemma_thread_errors(threads: Seq<ThreadEntry>)
    ensures
        forall|i: int| entry_of(#[trigger] threads[i]) != Err::<Option<(u32, u32)>, VcpuTidsError>(
            VcpuTidsError::NoVcpus,
        ),
{
}

} // verus!
