//! Byte sequences as numbers, and the copy that fills a coordinate buffer.

use vstd::prelude::*;

verus! {

/// The number that `bytes` spells with its most significant byte first.
pub open spec fn be_value(bytes: Seq<u8>) -> nat
    decreases bytes.len(),
{
    if bytes.len() == 0 {
        0
    } else {
        be_value(bytes.drop_last()) * 256 + bytes.last() as nat
    }
}

/// The `len` bytes that spell `value`, most significant byte first.
pub open spec fn be_bytes(value: nat, len: nat) -> Seq<u8>
    decreases len,
{
    if len == 0 {
        Seq::empty()
    } else {
        be_bytes(value / 256, (len - 1) as nat).push((value % 256) as u8)
    }
}

/// 256 to the power `n`: the number of values that `n` bytes can spell.
pub open spec fn pow256(n: nat) -> nat
    decreases n,
{
    if n == 0 {
        1
    } else {
        256 * pow256((n - 1) as nat)
    }
}

/// `len` zero bytes: what a buffer holds before a coordinate is read into it.
pub open spec fn zeros(len: nat) -> Seq<u8> {
    Seq::new(len, |i: int| 0u8)
}

/// `target` with the bytes of `source` from `offset` on written over its start,
/// as far as `source` reaches.
pub open spec fn overlay(source: Seq<u8>, target: Seq<u8>, offset: int) -> Seq<u8> {
    Seq::new(
        target.len(),
        |i: int|
            if offset + i < source.len() {
                source[offset + i]
            } else {
                target[i]
            },
    )
}

/// What `read_input` leaves in a buffer that held `target`.
pub open spec fn input_read(source: Seq<u8>, target: Seq<u8>, offset: int) -> Seq<u8> {
    if source.len() <= offset {
        target
    } else {
        overlay(source, target, offset).reverse()
    }
}

/// The number of values that sixteen bytes can spell.
pub open spec fn two_pow_128() -> nat {
    0x1_0000_0000_0000_0000_0000_0000_0000_0000nat
}

/// `pow256` grows with its argument.
pub proof fn lemma_pow256_increases(a: nat, b: nat)
    requires
        a <= b,
    ensures
        0 < pow256(a) <= pow256(b),
    decreases b,
{
    if b == 0 {
    } else if a == b {
        lemma_pow256_increases(0, (b - 1) as nat);
    } else {
        lemma_pow256_increases(a, (b - 1) as nat);
    }
}

/// Sixteen bytes spell the numbers below two to the power 128, thirty-two
/// bytes those below its square.
pub proof fn lemma_pow256_values()
    ensures
        pow256(16) == two_pow_128(),
        pow256(32) == two_pow_128() * two_pow_128(),
{
    reveal_with_fuel(pow256, 9);
    assert(pow256(8) == 0x1_0000_0000_0000_0000);
    assert(pow256(16) == 0x1_0000_0000_0000_0000 * pow256(8));
    assert(pow256(24) == 0x1_0000_0000_0000_0000 * pow256(16));
    assert(pow256(32) == 0x1_0000_0000_0000_0000 * pow256(24));
}

/// The value of two sequences joined: the first one shifted past the second.
pub proof fn lemma_be_value_concat(high: Seq<u8>, low: Seq<u8>)
    ensures
        be_value(high + low) == be_value(high) * pow256(low.len()) + be_value(low),
    decreases low.len(),
{
    let joined = high + low;
    if low.len() == 0 {
        assert(joined =~= high);
        assert(pow256(0) == 1);
        assert(be_value(low) == 0);
    } else {
        let rest = low.drop_last();
        let shifted = be_value(high) * pow256(rest.len());
        assert(joined.drop_last() =~= high + rest);
        assert(joined.last() == low.last());
        lemma_be_value_concat(high, rest);
        assert(be_value(joined) == (shifted + be_value(rest)) * 256 + low.last() as nat);
        assert(be_value(low) == be_value(rest) * 256 + low.last() as nat);
        assert(be_value(high) * pow256(low.len()) == shifted * 256) by (nonlinear_arith)
            requires
                pow256(low.len()) == 256 * pow256(rest.len()),
                shifted == be_value(high) * pow256(rest.len()),
        ;
    }
}

/// A sequence spells zero exactly when all its bytes are zero.
pub proof fn lemma_be_value_zero(bytes: Seq<u8>)
    ensures
        be_value(bytes) == 0 <==> (forall|i: int| 0 <= i < bytes.len() ==> bytes[i] == 0),
    decreases bytes.len(),
{
    if bytes.len() > 0 {
        let rest = bytes.drop_last();
        lemma_be_value_zero(rest);
        if be_value(bytes) == 0 {
            assert forall|i: int| 0 <= i < bytes.len() implies bytes[i] == 0 by {
                if i < rest.len() {
                    assert(rest[i] == bytes[i]);
                }
            }
        } else if bytes.last() == 0 {
            let i = choose|i: int| 0 <= i < rest.len() && rest[i] != 0;
            assert(bytes[i] != 0);
        }
    }
}

/// `be_bytes` gives as many bytes as it is asked for.
pub proof fn lemma_be_bytes_len(value: nat, len: nat)
    ensures
        be_bytes(value, len).len() == len,
    decreases len,
{
    if len > 0 {
        lemma_be_bytes_len(value / 256, (len - 1) as nat);
    }
}

/// The bytes that spell a number spell that number, where it fits into them.
pub proof fn lemma_be_value_of_be_bytes(value: nat, len: nat)
    requires
        value < pow256(len),
    ensures
        be_value(be_bytes(value, len)) == value,
    decreases len,
{
    if len > 0 {
        let rest = be_bytes(value / 256, (len - 1) as nat);
        lemma_be_value_of_be_bytes(value / 256, (len - 1) as nat);
        assert(be_bytes(value, len).drop_last() =~= rest);
    }
}

/// Spelling the value of a byte sequence in as many bytes gives it back.
pub proof fn lemma_be_bytes_of_be_value(bytes: Seq<u8>)
    ensures
        be_bytes(be_value(bytes), bytes.len()) == bytes,
    decreases bytes.len(),
{
    if bytes.len() > 0 {
        lemma_be_bytes_of_be_value(bytes.drop_last());
        assert(be_bytes(be_value(bytes), bytes.len()) =~= bytes);
    }
}

/// Copies the bytes of `source` from `offset` on over the start of `target`,
/// as many as both hold, and then reverses `target` as a whole. Where `offset`
/// is at or past the end of `source`, `target` is left as it was.
pub fn read_input(source: &[u8], target: &mut [u8], offset: usize)
    ensures
        final(target)@ == input_read(source@, old(target)@, offset as int),
{
    if source.len() <= offset {
        return ;
    }
    let available: usize = source.len() - offset;
    let len: usize = if target.len() < available {
        target.len()
    } else {
        available
    };
    let mut i: usize = 0;
    while i < len
        invariant
            i <= len,
            len <= target@.len(),
            offset + len <= source.len(),
            target@.len() == old(target)@.len(),
            forall|k: int| 0 <= k < i ==> target@[k] == source@[offset + k],
            forall|k: int| i <= k < target@.len() ==> target@[k] == old(target)@[k],
        decreases len - i,
    {
        target[i] = source[offset + i];
        i += 1;
    }
    assert(target@ =~= overlay(source@, old(target)@, offset as int));
    let n: usize = target.len();
    let ghost copied = target@;
    let mut j: usize = 0;
    while j < n / 2
        invariant
            j <= n / 2,
            n == target@.len(),
            n == copied.len(),
            forall|k: int| 0 <= k < j ==> target@[k] == copied[n - 1 - k],
            forall|k: int| n - j <= k < n ==> target@[k] == copied[n - 1 - k],
            forall|k: int| j <= k < n - j ==> target@[k] == copied[k],
        decreases n / 2 - j,
    {
        let low: u8 = target[j];
        let high: u8 = target[n - 1 - j];
        target[j] = high;
        target[n - 1 - j] = low;
        j += 1;
    }
    assert(target@ =~= copied.reverse());
}

} // verus!
