//! Byte sums and little-endian integers.

use vstd::prelude::*;

verus! {

/// The sum of all bytes, without any wrap-around.
pub open spec fn byte_sum(s: Seq<u8>) -> nat
    decreases s.len(),
{
    if s.len() == 0 {
        0
    } else {
        byte_sum(s.drop_last()) + s.last() as nat
    }
}

/// The number that `s` holds, least significant byte first.
pub open spec fn le_value(s: Seq<u8>) -> nat
    decreases s.len(),
{
    if s.len() == 0 {
        0
    } else {
        s[0] as nat + 256 * le_value(s.drop_first())
    }
}

/// The `n` lowest bytes of `v`, least significant byte first.
pub open spec fn le_bytes(v: nat, n: nat) -> Seq<u8>
    decreases n,
{
    if n == 0 {
        seq![]
    } else {
        seq![(v % 256) as u8] + le_bytes(v / 256, (n - 1) as nat)
    }
}

/// The number of values that `n` bytes can hold: 256 to the power of `n`.
pub open spec fn le_limit(n: nat) -> nat
    decreases n,
{
    if n == 0 {
        1
    } else {
        256 * le_limit((n - 1) as nat)
    }
}

pub(crate) proof fn lemma_le_limit_values()
    ensures
        le_limit(2) == 0x1_0000,
        le_limit(4) == 0x1_0000_0000,
        le_limit(8) == 0x1_0000_0000_0000_0000,
{
    reveal_with_fuel(le_limit, 9);
}

pub(crate) proof fn lemma_le_limit_monotonic(m: nat, n: nat)
    requires
        m <= n,
    ensures
        1 <= le_limit(m) <= le_limit(n),
    decreases n,
{
    if m < n {
        lemma_le_limit_monotonic(m, (n - 1) as nat);
    } else if m > 0 {
        lemma_le_limit_monotonic((m - 1) as nat, (n - 1) as nat);
    }
}

pub(crate) proof fn lemma_le_value_limit(s: Seq<u8>)
    ensures
        le_value(s) < le_limit(s.len()),
    decreases s.len(),
{
    if s.len() > 0 {
        lemma_le_value_limit(s.drop_first());
    }
}

pub(crate) proof fn lemma_le_bytes_len(v: nat, n: nat)
    ensures
        le_bytes(v, n).len() == n,
    decreases n,
{
    if n > 0 {
        lemma_le_bytes_len(v / 256, (n - 1) as nat);
    }
}

/// A number that fits in `n` bytes is what those bytes hold.
pub(crate) proof fn lemma_le_value_of_bytes(v: nat, n: nat)
    requires
        v < le_limit(n),
    ensures
        le_value(le_bytes(v, n)) == v,
    decreases n,
{
    if n > 0 {
        let rest = le_bytes(v / 256, (n - 1) as nat);
        lemma_le_value_of_bytes(v / 256, (n - 1) as nat);
        assert(le_bytes(v, n).drop_first() =~= rest);
    }
}

/// Bytes are recovered from the number that they hold.
pub(crate) proof fn lemma_le_bytes_of_value(s: Seq<u8>)
    ensures
        le_bytes(le_value(s), s.len()) == s,
    decreases s.len(),
{
    if s.len() > 0 {
        let v = le_value(s);
        lemma_le_bytes_of_value(s.drop_first());
        assert(v % 256 == s[0] as nat && v / 256 == le_value(s.drop_first()));
        assert(seq![s[0]] + s.drop_first() =~= s);
    }
}

/// The sum of a concatenation is the sum of its parts.
pub(crate) proof fn lemma_byte_sum_concat(a: Seq<u8>, b: Seq<u8>)
    ensures
        byte_sum(a + b) == byte_sum(a) + byte_sum(b),
    decreases b.len(),
{
    if b.len() == 0 {
        assert(a + b =~= a);
    } else {
        assert((a + b).drop_last() =~= a + b.drop_last());
        lemma_byte_sum_concat(a, b.drop_last());
    }
}

/// Replacing one byte moves the sum by the difference of the two bytes.
pub(crate) proof fn lemma_byte_sum_update(s: Seq<u8>, i: int, b: u8)
    requires
        0 <= i < s.len(),
    ensures
        byte_sum(s.update(i, b)) == byte_sum(s) - s[i] + b,
    decreases s.len(),
{
    if i == s.len() - 1 {
        assert(s.update(i, b).drop_last() =~= s.drop_last());
    } else {
        assert(s.update(i, b).drop_last() =~= s.drop_last().update(i, b));
        lemma_byte_sum_update(s.drop_last(), i, b);
    }
}

/// Adds up the first `n` bytes modulo 256.
pub(crate) fn wrapping_sum(bytes: &[u8], n: usize) -> (sum: u8)
    requires
        n <= bytes@.len(),
    ensures
        sum == byte_sum(bytes@.subrange(0, n as int)) % 256,
{
    let mut sum: u8 = 0;
    let mut i: usize = 0;
    while i < n
        invariant
            i <= n <= bytes@.len(),
            sum == byte_sum(bytes@.subrange(0, i as int)) % 256,
        decreases n - i,
    {
        proof {
            let next = bytes@.subrange(0, i + 1);
            assert(next.drop_last() =~= bytes@.subrange(0, i as int));
        }
        sum = sum.wrapping_add(bytes[i]);
        i += 1;
    }
    sum
}

/// Whether the two arrays hold the same bytes.
pub(crate) fn same_bytes<const N: usize>(a: &[u8; N], b: &[u8; N]) -> (same: bool)
    ensures
        same == (a@ == b@),
{
    let mut i: usize = 0;
    while i < N
        invariant
            i <= N,
            a@.len() == N,
            b@.len() == N,
            forall|j: int| 0 <= j < i ==> #[trigger] a@[j] == b@[j],
        decreases N - i,
    {
        if a[i] != b[i] {
            assert(a@[i as int] != b@[i as int]);
            return false;
        }
        i += 1;
    }
    assert(a@ =~= b@);
    true
}

/// Copies the `N` bytes from `at` on.
pub(crate) fn read_array<const N: usize>(bytes: &[u8], at: usize) -> (array: [u8; N])
    requires
        at + N <= bytes@.len(),
    ensures
        array@ == bytes@.subrange(at as int, at + N),
{
    let mut array: [u8; N] = [0; N];
    let mut i: usize = 0;
    assert(at + N <= bytes.len());
    while i < N
        invariant
            i <= N,
            array@.len() == N,
            at + N <= bytes@.len(),
            at + N <= usize::MAX,
            forall|j: int| 0 <= j < i ==> #[trigger] array@[j] == bytes@[at + j],
        decreases N - i,
    {
        array[i] = bytes[at + i];
        i += 1;
    }
    assert(array@ =~= bytes@.subrange(at as int, at + N));
    array
}

/// Writes all of `source` from `at` on.
pub(crate) fn write_array<const N: usize, const M: usize>(
    bytes: &mut [u8; N],
    at: usize,
    source: &[u8; M],
)
    requires
        at + M <= N,
    ensures
        final(bytes)@ == old(bytes)@.subrange(0, at as int) + source@ + old(bytes)@.subrange(
            at + M,
            N as int,
        ),
{
    let ghost before = bytes@;
    let mut i: usize = 0;
    while i < M
        invariant
            i <= M,
            at + M <= N,
            before.len() == N,
            bytes@.len() == N,
            source@.len() == M,
            forall|j: int| 0 <= j < N && !(at <= j < at + i) ==> #[trigger] bytes@[j] == before[j],
            forall|j: int| at <= j < at + i ==> #[trigger] bytes@[j] == source@[j - at],
        decreases M - i,
    {
        bytes[at + i] = source[i];
        i += 1;
    }
    assert(bytes@ =~= before.subrange(0, at as int) + source@ + before.subrange(
        at + M,
        N as int,
    ));
}

/// Reads the `n` bytes from `at` on as a little-endian number.
pub(crate) fn read_le(bytes: &[u8], at: usize, n: usize) -> (value: u64)
    requires
        n <= 8,
        at + n <= bytes@.len(),
    ensures
        value == le_value(bytes@.subrange(at as int, at + n)),
        value < le_limit(n as nat),
{
    let mut value: u64 = 0;
    let mut i: usize = n;
    assert(at + n <= bytes.len());
    while i > 0
        invariant
            i <= n <= 8,
            at + n <= bytes@.len(),
            at + n <= usize::MAX,
            value == le_value(bytes@.subrange(at + i, at + n)),
        decreases i,
    {
        proof {
            let next = bytes@.subrange(at + i - 1, at + n);
            assert(next.drop_first() =~= bytes@.subrange(at + i, at + n));
            lemma_le_value_limit(next);
            lemma_le_limit_monotonic(next.len(), 8);
            lemma_le_limit_values();
        }
        i -= 1;
        value = value * 256 + bytes[at + i] as u64;
    }
    proof {
        lemma_le_value_limit(bytes@.subrange(at as int, at + n));
    }
    value
}

/// Writes the `n` lowest bytes of `value` from `at` on, least significant first.
pub(crate) fn write_le<const N: usize>(bytes: &mut [u8; N], at: usize, n: usize, value: u64)
    requires
        at + n <= N,
    ensures
        final(bytes)@ == old(bytes)@.subrange(0, at as int) + le_bytes(value as nat, n as nat)
            + old(bytes)@.subrange(at + n, N as int),
{
    let ghost before = bytes@;
    let mut rest: u64 = value;
    let mut i: usize = 0;
    proof {
        lemma_le_bytes_len(value as nat, n as nat);
        assert(bytes@.subrange(at as int, at as int) + le_bytes(value as nat, n as nat) =~= le_bytes(
            value as nat,
            n as nat,
        ));
    }
    while i < n
        invariant
            i <= n,
            at + n <= N,
            before.len() == N,
            bytes@.len() == N,
            le_bytes(value as nat, n as nat) == bytes@.subrange(at as int, at + i) + le_bytes(
                rest as nat,
                (n - i) as nat,
            ),
            forall|j: int|
                0 <= j < N && !(at <= j < at + i) ==> #[trigger] bytes@[j] == before[j],
        decreases n - i,
    {
        let ghost prefix = bytes@.subrange(at as int, at + i);
        let ghost tail = le_bytes((rest / 256) as nat, (n - i - 1) as nat);
        let low: u8 = (rest % 256) as u8;
        bytes[at + i] = low;
        proof {
            assert(le_bytes(rest as nat, (n - i) as nat) == seq![low] + tail);
            assert(bytes@.subrange(at as int, at + i + 1) =~= prefix + seq![low]);
            assert(prefix + (seq![low] + tail) =~= prefix + seq![low] + tail);
        }
        rest = rest / 256;
        i += 1;
    }
    proof {
        lemma_le_bytes_len(value as nat, n as nat);
        assert(bytes@.subrange(at as int, at + n) =~= le_bytes(value as nat, n as nat));
        assert(bytes@ =~= before.subrange(0, at as int) + bytes@.subrange(at as int, at + n)
            + before.subrange(at + n, N as int));
    }
}

} // verus!
