//! Little-endian scalars as sequences of bytes, and the facts about them
//! that the memory and the instruction set rest on.

use vstd::prelude::*;
use vstd::arithmetic::div_mod::{lemma_mod_breakdown, lemma_fundamental_div_mod_converse, lemma_small_mod};

verus! {

/// 256 to the power `n`: the number of values that `n` bytes can hold.
pub open spec fn pow256(n: nat) -> nat
    decreases n,
{
    if n == 0 {
        1
    } else {
        256 * pow256((n - 1) as nat)
    }
}

/// The number that `bytes` spell, least significant byte first.
pub open spec fn le_value(bytes: Seq<u8>) -> nat
    decreases bytes.len(),
{
    if bytes.len() == 0 {
        0
    } else {
        bytes[0] as nat + 256 * le_value(bytes.skip(1))
    }
}

/// The `width` low bytes of `value`, least significant byte first.
pub open spec fn le_bytes(value: nat, width: nat) -> Seq<u8>
    decreases width,
{
    if width == 0 {
        Seq::empty()
    } else {
        seq![(value % 256) as u8] + le_bytes(value / 256, (width - 1) as nat)
    }
}

/// `mem` with `bytes` laid over it from index `at` on.
pub open spec fn store(mem: Seq<u8>, at: int, bytes: Seq<u8>) -> Seq<u8> {
    Seq::new(
        mem.len(),
        |i: int|
            if at <= i < at + bytes.len() {
                bytes[i - at]
            } else {
                mem[i]
            },
    )
}

/// The low 32 bits of a machine word.
pub open spec fn low32(x: usize) -> u32 {
    (x as nat % 0x1_0000_0000) as u32
}

/// The powers of 256 up to the fourth, which is 2 to the 32.
pub proof fn lemma_pow256_values()
    ensures
        pow256(0) == 1,
        pow256(1) == 0x100,
        pow256(2) == 0x1_0000,
        pow256(3) == 0x100_0000,
        pow256(4) == 0x1_0000_0000,
{
    reveal_with_fuel(pow256, 5);
}

/// No power of 256 is zero.
pub proof fn lemma_pow256_positive(n: nat)
    ensures
        pow256(n) > 0,
    decreases n,
{
    if n > 0 {
        lemma_pow256_positive((n - 1) as nat);
    }
}

/// `le_bytes` gives exactly `width` bytes.
pub proof fn lemma_le_bytes_len(value: nat, width: nat)
    ensures
        le_bytes(value, width).len() == width,
    decreases width,
{
    if width > 0 {
        lemma_le_bytes_len(value / 256, (width - 1) as nat);
    }
}

/// `n` bytes spell a number below 256 to the `n`.
pub proof fn lemma_le_value_bound(bytes: Seq<u8>)
    ensures
        le_value(bytes) < pow256(bytes.len()),
    decreases bytes.len(),
{
    if bytes.len() > 0 {
        lemma_le_value_bound(bytes.skip(1));
    }
}

/// One byte spells its own value.
pub proof fn lemma_le_value_single(bytes: Seq<u8>)
    requires
        bytes.len() == 1,
    ensures
        le_value(bytes) == bytes[0],
{
    assert(le_value(bytes.skip(1)) == 0);
}

/// Reading back the `width` low bytes of `value` gives `value` modulo 256
/// to the `width`.
pub proof fn lemma_value_of_bytes(value: nat, width: nat)
    ensures
        le_value(le_bytes(value, width)) == value % pow256(width),
    decreases width,
{
    if width > 0 {
        let rest = le_bytes(value / 256, (width - 1) as nat);
        let all = le_bytes(value, width);
        lemma_value_of_bytes(value / 256, (width - 1) as nat);
        lemma_pow256_positive((width - 1) as nat);
        assert(all.skip(1) =~= rest);
        assert(all[0] == (value % 256) as u8);
        lemma_mod_breakdown(value as int, 256, pow256((width - 1) as nat) as int);
    }
}

/// Writing out the number that `bytes` spell, at their own width, gives
/// `bytes` back.
pub proof fn lemma_bytes_of_value(bytes: Seq<u8>)
    ensures
        le_bytes(le_value(bytes), bytes.len()) == bytes,
    decreases bytes.len(),
{
    if bytes.len() > 0 {
        let tail = bytes.skip(1);
        lemma_bytes_of_value(tail);
        let v = le_value(bytes);
        lemma_fundamental_div_mod_converse(v as int, 256, le_value(tail) as int, bytes[0] as int);
        assert(le_bytes(v, bytes.len()) =~= bytes);
    } else {
        assert(le_bytes(le_value(bytes), bytes.len()) =~= bytes);
    }
}

/// A number that fits in `width` bytes survives being written and read.
pub proof fn lemma_value_round_trip(value: nat, width: nat)
    requires
        value < pow256(width),
    ensures
        le_value(le_bytes(value, width)) == value,
{
    lemma_value_of_bytes(value, width);
    lemma_small_mod(value, pow256(width));
}

/// Two stores, one right behind the other, are one store of both.
pub proof fn lemma_store_append(mem: Seq<u8>, at: int, x: Seq<u8>, y: Seq<u8>)
    ensures
        store(store(mem, at, x), at + x.len(), y) == store(mem, at, x + y),
{
    assert(store(store(mem, at, x), at + x.len(), y) =~= store(mem, at, x + y));
}

/// What was stored is what is found there.
pub proof fn lemma_store_read(mem: Seq<u8>, at: int, bytes: Seq<u8>)
    requires
        0 <= at,
        at + bytes.len() <= mem.len(),
    ensures
        store(mem, at, bytes).subrange(at, at + bytes.len()) == bytes,
        store(mem, at, bytes).len() == mem.len(),
{
    assert(store(mem, at, bytes).subrange(at, at + bytes.len()) =~= bytes);
}

} // verus!
