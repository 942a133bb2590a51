//! How much memory a running guest is resized to.
use vstd::prelude::*;

verus! {

/// Bytes in a mebibyte.
pub const MEBIBYTE: u64 = 1048576;

/// Whole mebibytes in `bytes`, as the 32-bit number that reports them: the low 32 bits.
pub open spec fn megs_in(bytes: nat) -> u32 {
    (bytes / 1048576 % 0x1_0000_0000) as u32
}

/// Whole mebibytes in `bytes`.
pub fn bytes_to_megs(bytes: u64) -> (r: u32)
    ensures
        r == megs_in(bytes as nat),
        bytes < 0x10_0000_0000_0000 ==> r * 1048576 <= bytes < r * 1048576 + 1048576,
{
    (bytes / MEBIBYTE % 0x1_0000_0000) as u32
}

/// Bytes in `megs` mebibytes.
pub fn megs_to_bytes(megs: u32) -> (r: u64)
    ensures
        r == megs * 1048576,
{
    megs as u64 * MEBIBYTE
}

/// Why memory cannot be resized.
#[derive(Debug, Clone, Copy, PartialEq, Eq, Structural)]
pub enum ResizeMemoryError {
    /// The growth cannot be aligned to the block size; both in bytes.
    Alignment { growth: u64, block: u64 },
    /// More than the maximum; both in mebibytes.
    OverMaximum { requested_mb: u32, maximum_mb: u32 },
}

/// The smallest multiple of `block` that is not below `n`.
pub open spec fn next_multiple(n: nat, block: nat) -> nat
    recommends
        block > 0,
{
    ((n + block - 1) as nat / block) * block
}

/// What to ask the hypervisor for: the total memory in bytes, or nothing where the guest has that
/// much or more. Memory is never taken away. What is added is a whole number of blocks.
pub open spec fn resize_plan(
    current: u64,
    new_mem_mb: u32,
    block_mb: u32,
    max_mb: u32,
) -> Result<Option<u64>, ResizeMemoryError> {
    let wanted = new_mem_mb * 1048576;
    let block = block_mb * 1048576;
    let total = current + next_multiple((wanted - current) as nat, block as nat);
    if current >= wanted {
        Ok(None)
    } else if block == 0 {
        Err(ResizeMemoryError::Alignment { growth: (wanted - current) as u64, block: 0 })
    } else if total > max_mb * 1048576 {
        Err(
            ResizeMemoryError::OverMaximum {
                requested_mb: megs_in(total as nat),
                maximum_mb: max_mb,
            },
        )
    } else {
        Ok(Some(total as u64))
    }
}

/// Where the next multiple lies.
pub proof fn lemma_next_multiple(n: nat, block: nat)
    requires
        block > 0,
    ensures
        n <= next_multiple(n, block) < n + block,
        next_multiple(n, block) % block == 0,
        n % block == 0 ==> next_multiple(n, block) == n,
        n % block != 0 ==> next_multiple(n, block) == n - n % block + block,
        n % block <= n,
{
    let q = (n / block) as int;
    let r = (n % block) as int;
    let b = block as int;
    vstd::arithmetic::div_mod::lemma_fundamental_div_mod(n as int, b);
    vstd::arithmetic::div_mod::lemma_mod_decreases(n, block);
    if r == 0 {
        vstd::arithmetic::div_mod::lemma_fundamental_div_mod_converse(
            n + block - 1,
            b,
            q,
            b - 1,
        );
        assert(next_multiple(n, block) == q * b);
        assert(q * b == b * q) by (nonlinear_arith);
    } else {
        assert(n + block - 1 == b * (q + 1) + (r - 1)) by (nonlinear_arith)
            requires
                n == b * q + r,
                b == block,
        ;
        vstd::arithmetic::div_mod::lemma_fundamental_div_mod_converse(
            n + block - 1,
            b,
            q + 1,
            r - 1,
        );
        assert(next_multiple(n, block) == (q + 1) * b);
        assert((q + 1) * b == b * q + b) by (nonlinear_arith);
    }
    let k = ((n + block - 1) as nat / block) as int;
    vstd::arithmetic::div_mod::lemma_mod_multiples_basic(k, b);
}

/// The smallest multiple of `block` that is not below `n`; `None` where there is none or it does
/// not fit.
pub fn checked_next_multiple_of(n: u64, block: u64) -> (r: Option<u64>)
    ensures
        r is Some <==> block > 0 && next_multiple(n as nat, block as nat) <= u64::MAX,
        r matches Some(v) ==> v == next_multiple(n as nat, block as nat),
        r matches Some(v) ==> n <= v < n + block && v as int % block as int == 0,
        r is None ==> block == 0 || n + block > u64::MAX,
{
    if block == 0 {
        return None;
    }
    proof {
        lemma_next_multiple(n as nat, block as nat);
    }
    let over: u64 = n % block;
    if over == 0 {
        Some(n)
    } else {
        (n - over).checked_add(block)
    }
}

/// What to ask the hypervisor for so that a guest with `current` bytes has `new_mem_mb` mebibytes,
/// with memory blocks of `block_mb` and at most `max_mb` mebibytes in all.
pub fn plan_resize(current: u64, new_mem_mb: u32, block_mb: u32, max_mb: u32) -> (r: Result<
    Option<u64>,
    ResizeMemoryError,
>)
    ensures
        r == resize_plan(current, new_mem_mb, block_mb, max_mb),
        r == Ok::<Option<u64>, ResizeMemoryError>(None) <==> current >= new_mem_mb * 1048576,
        r matches Ok(Some(total)) ==> new_mem_mb * 1048576 <= total <= max_mb * 1048576,
{
    let wanted: u64 = megs_to_bytes(new_mem_mb);
    if current >= wanted {
        return Ok(None);
    }
    let block: u64 = megs_to_bytes(block_mb);
    let growth: u64 = wanted - current;
    proof {
        if block > 0 {
            lemma_next_multiple(growth as nat, block as nat);
        }
    }
    let aligned: u64 = match checked_next_multiple_of(growth, block) {
        Some(aligned) => aligned,
        None => {
            return Err(ResizeMemoryError::Alignment { growth, block });
        },
    };
    let total: u64 = aligned + current;
    if total > megs_to_bytes(max_mb) {
        return Err(
            ResizeMemoryError::OverMaximum {
                requested_mb: bytes_to_megs(total),
                maximum_mb: max_mb,
            },
        );
    }
    Ok(Some(total))
}

/// A resize gives at least what was asked for, less than one block more, in whole blocks, and no
/// more than the maximum. It never shrinks the guest.
pub proof fn law_resize_is_bounded(current: u64, new_mem_mb: u32, block_mb: u32, max_mb: u32)
    ensures
        resize_plan(current, new_mem_mb, block_mb, max_mb) matches Ok(Some(total)) ==> {
            &&& total > current
            &&& new_mem_mb * 1048576 <= total < new_mem_mb * 1048576 + block_mb * 1048576
            &&& (total - current) % (block_mb * 1048576) == 0
            &&& total <= max_mb * 1048576
        },
{
    let wanted = new_mem_mb * 1048576;
    let block = block_mb * 1048576;
    if current < wanted && block > 0 {
        lemma_next_multiple((wanted - current) as nat, block as nat);
    }
}

/// The next multiple is the least one: no multiple of `block` lies between it and `n`.
pub proof fn law_next_multiple_is_least(n: nat, block: nat, m: nat)
    requires
        block > 0,
        n <= m,
        m % block == 0,
    ensures
        n <= next_multiple(n, block) <= m,
        next_multiple(n, block) % block == 0,
{
    lemma_next_multiple(n, block);
    lemma_multiples_apart(next_multiple(n, block) as int, m as int, block as int);
}

/// A multiple that is less than one block beyond another is not beyond it.
proof fn lemma_multiples_apart(a: int, b: int, block: int)
    requires
        block > 0,
        a % block == 0,
        b % block == 0,
        a < b + block,
    ensures
        a <= b,
{
    let p = a / block;
    let q = b / block;
    vstd::arithmetic::div_mod::lemma_fundamental_div_mod(a, block);
    vstd::arithmetic::div_mod::lemma_fundamental_div_mod(b, block);
    assert(p <= q) by (nonlinear_arith)
        requires
            block > 0,
            block * p < block * q + block,
    ;
    assert(block * p <= block * q) by (nonlinear_arith)
        requires
            block > 0,
            p <= q,
    ;
}

/// Nothing is asked for exactly where the guest has the requested memory or more, whatever the
/// block size and the maximum. A guest that has less gets an answer other than that: without a
/// block size the growth cannot be aligned, and the error names the whole growth. With one, let
/// `total` be the amount that covers the request, exceeds the guest's memory by whole blocks and
/// the request by less than a block. It is asked for wherever it is within the maximum, however far
/// the guest is from it, and refused, with both amounts, wherever it is not.
pub proof fn law_resize_asks_for_what_is_missing(
    current: u64,
    new_mem_mb: u32,
    block_mb: u32,
    max_mb: u32,
    total: int,
)
    ensures
        resize_plan(current, new_mem_mb, block_mb, max_mb) == Ok::<Option<u64>, ResizeMemoryError>(
            None,
        ) <==> current >= new_mem_mb * 1048576,
        current < new_mem_mb * 1048576 && block_mb == 0 ==> resize_plan(
            current,
            new_mem_mb,
            block_mb,
            max_mb,
        ) == Err::<Option<u64>, ResizeMemoryError>(
            ResizeMemoryError::Alignment {
                growth: (new_mem_mb * 1048576 - current) as u64,
                block: 0,
            },
        ),
        current < new_mem_mb * 1048576 <= total < new_mem_mb * 1048576 + block_mb * 1048576 && (
        total - current) % (block_mb * 1048576) == 0 ==> resize_plan(
            current,
            new_mem_mb,
            block_mb,
            max_mb,
        ) == if total <= max_mb * 1048576 {
            Ok::<Option<u64>, ResizeMemoryError>(Some(total as u64))
        } else {
            Err::<Option<u64>, ResizeMemoryError>(
                ResizeMemoryError::OverMaximum {
                    requested_mb: (total / 1048576 % 0x1_0000_0000) as u32,
                    maximum_mb: max_mb,
                },
            )
        },
{
    let wanted = new_mem_mb * 1048576;
    let block = block_mb * 1048576;
    if current < wanted && block > 0 {
        let growth = (wanted - current) as nat;
        let least = next_multiple(growth, block as nat) as int;
        lemma_next_multiple(growth, block as nat);
        if wanted <= total < wanted + block && (total - current) % block == 0 {
            lemma_multiples_apart(least, total - current, block);
            lemma_multiples_apart(total - current, least, block);
        }
    }
}

/// There is always such a total: a guest that has less than it is to have, where there is a block
/// size, is either grown or refused for the maximum, and a larger maximum grows it to the same.
pub proof fn law_resize_fails_only_for_the_maximum(
    current: u64,
    new_mem_mb: u32,
    block_mb: u32,
    max_mb: u32,
    larger_mb: u32,
)
    requires
        current < new_mem_mb * 1048576,
        block_mb > 0,
        larger_mb >= max_mb,
    ensures
        match resize_plan(current, new_mem_mb, block_mb, max_mb) {
            Ok(Some(total)) => resize_plan(current, new_mem_mb, block_mb, larger_mb) == Ok::<
                Option<u64>,
                ResizeMemoryError,
            >(Some(total)),
            Ok(None) => false,
            Err(e) => e matches ResizeMemoryError::OverMaximum { requested_mb, maximum_mb }
                && maximum_mb == max_mb && max_mb < new_mem_mb + block_mb,
        },
{
    lemma_next_multiple(
        (new_mem_mb * 1048576 - current) as nat,
        (block_mb * 1048576) as nat,
    );
}

/// A resized guest has what was asked for: the same request again asks for nothing, and so does
/// any smaller one.
pub proof fn law_second_resize_asks_for_nothing(
    current: u64,
    new_mem_mb: u32,
    less_mb: u32,
    block_mb: u32,
    max_mb: u32,
)
    requires
        less_mb <= new_mem_mb,
    ensures
        resize_plan(current, new_mem_mb, block_mb, max_mb) matches Ok(Some(total)) ==> resize_plan(
            total,
            less_mb,
            block_mb,
            max_mb,
        ) == Ok::<Option<u64>, ResizeMemoryError>(None),
{
    law_resize_is_bounded(current, new_mem_mb, block_mb, max_mb);
}

/// A number of mebibytes is read back from its bytes, and a part of a mebibyte does not count.
pub proof fn law_megs_round_trip(megs: u32, part: nat)
    requires
        part < 1048576,
    ensures
        megs_in((megs * 1048576 + part) as nat) == megs,
{
}

/// The number of mebibytes is reported in 32 bits: beyond them it starts again from nothing.
pub proof fn law_megs_start_again(bytes: nat)
    ensures
        megs_in(bytes + 0x10_0000_0000_0000) == megs_in(bytes),
{
    assert((bytes + 0x10_0000_0000_0000) / 1048576 == bytes / 1048576 + 0x1_0000_0000);
    vstd::arithmetic::div_mod::lemma_mod_multiples_vanish(
        1,
        (bytes / 1048576) as int,
        0x1_0000_0000,
    );
}

} // verus!
