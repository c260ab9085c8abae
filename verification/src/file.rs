//! The local-file backend's logic: the fixed-width little-endian encoding
//! of the counter value, and the per-cycle decision of whether the sync
//! loop needs to write at all. Opening, mapping and writing the file itself
//! happens outside this crate; it reads bytes and hands them to `decode_counter`,
//! and writes back exactly what `encode_counter` returns.

use vstd::prelude::*;

verus! {

/// The counter's persisted representation is exactly this many bytes.
pub const COUNTER_FILE_LEN: usize = 8;

/// 256 to the `k`-th power: the number of values `k` bytes can hold.
pub open spec fn pow256(k: nat) -> int
    decreases k,
{
    if k == 0 {
        1
    } else {
        256 * pow256((k - 1) as nat)
    }
}

/// The value of a byte sequence read as a little-endian integer.
pub open spec fn le_value(bytes: Seq<u8>) -> int
    decreases bytes.len(),
{
    if bytes.len() == 0 {
        0
    } else {
        bytes[0] + 256 * le_value(bytes.drop_first())
    }
}

/// What a persisted file of any length decodes to: the little-endian value
/// of its first (at most) 8 bytes. An empty file decodes to 0.
pub open spec fn stored_value(bytes: Seq<u8>) -> int {
    if bytes.len() <= 8 {
        le_value(bytes)
    } else {
        le_value(bytes.subrange(0, 8))
    }
}

proof fn lemma_pow256_positive(k: nat)
    ensures
        pow256(k) >= 1,
    decreases k,
{
    if k > 0 {
        lemma_pow256_positive((k - 1) as nat);
    }
}

proof fn lemma_pow256_monotonic(a: nat, b: nat)
    requires
        a <= b,
    ensures
        pow256(a) <= pow256(b),
    decreases b,
{
    if a < b {
        lemma_pow256_monotonic(a, (b - 1) as nat);
        lemma_pow256_positive((b - 1) as nat);
    }
}

/// A sequence of `k` bytes holds a value in `[0, 256^k)`.
proof fn lemma_le_value_bound(bytes: Seq<u8>)
    ensures
        0 <= le_value(bytes) < pow256(bytes.len()),
    decreases bytes.len(),
{
    if bytes.len() > 0 {
        lemma_le_value_bound(bytes.drop_first());
    }
}

/// Appending a byte adds its value at the next power of 256.
proof fn lemma_le_value_push(bytes: Seq<u8>, b: u8)
    ensures
        le_value(bytes.push(b)) == le_value(bytes) + pow256(bytes.len()) * b,
    decreases bytes.len(),
{
    if bytes.len() == 0 {
        assert(bytes.push(b).drop_first() =~= Seq::<u8>::empty());
        assert(bytes.push(b)[0] == b);
        assert(le_value(bytes.push(b)) == b + 256 * le_value(Seq::<u8>::empty()));
        assert(pow256(0) == 1);
    } else {
        let rest = bytes.drop_first();
        assert(bytes.push(b).drop_first() =~= rest.push(b));
        lemma_le_value_push(rest, b);
        assert(le_value(bytes.push(b)) == bytes[0] + 256 * le_value(rest.push(b)));
        assert(le_value(rest.push(b)) == le_value(rest) + pow256(rest.len()) * b);
        assert(pow256(bytes.len()) == 256 * pow256(rest.len()));
        assert(256 * (le_value(rest) + pow256(rest.len()) * b) == 256 * le_value(rest) + pow256(
            bytes.len(),
        ) * b) by (nonlinear_arith)
            requires
                pow256(bytes.len()) == 256 * pow256(rest.len()),
        ;
        assert(le_value(bytes) == bytes[0] + 256 * le_value(rest));
    }
}

/// Encodes a counter value as its persisted representation: 8 bytes,
/// little-endian. Decoding them yields the value back.
pub fn encode_counter(value: u64) -> (bytes: Vec<u8>)
    ensures
        bytes@.len() == COUNTER_FILE_LEN,
        le_value(bytes@) == value,
        stored_value(bytes@) == value,
{
    let mut bytes: Vec<u8> = Vec::new();
    let mut rest: u64 = value;
    let mut i: usize = 0;
    while i < 8
        invariant
            i == bytes@.len(),
            i <= 8,
            le_value(bytes@) + pow256(i as nat) * rest == value,
        decreases 8 - i,
    {
        let b = (rest % 256) as u8;
        proof {
            lemma_le_value_push(bytes@, b);
            assert(pow256((i + 1) as nat) * (rest as int / 256) + pow256(i as nat) * (rest as int
                % 256) == pow256(i as nat) * rest) by (nonlinear_arith)
                requires
                    pow256((i + 1) as nat) == 256 * pow256(i as nat),
                    rest as int == 256 * (rest as int / 256) + rest as int % 256,
            ;
        }
        bytes.push(b);
        rest = rest / 256;
        i = i + 1;
    }
    proof {
        lemma_le_value_bound(bytes@);
        lemma_pow256_positive(8);
        if rest >= 1 {
            assert(pow256(8) * rest >= pow256(8) * 1) by (nonlinear_arith)
                requires
                    rest >= 1,
                    pow256(8) >= 1,
            ;
            reveal_with_fuel(pow256, 9);
            assert(pow256(8) == 0x1_0000_0000_0000_0000);
        }
    }
    bytes
}

/// Decodes a persisted file's bytes — however many were read — back into a
/// counter value.
pub fn decode_counter(bytes: &[u8]) -> (value: u64)
    ensures
        value == stored_value(bytes@),
{
    let len = if bytes.len() > 8 {
        8
    } else {
        bytes.len()
    };
    let mut value: u64 = 0;
    let mut i: usize = len;
    while i > 0
        invariant
            0 <= i <= len,
            len <= 8,
            len <= bytes@.len(),
            value == le_value(bytes@.subrange(i as int, len as int)),
            value < pow256((len - i) as nat),
        decreases i,
    {
        i = i - 1;
        proof {
            assert(bytes@.subrange(i as int, len as int).drop_first() =~= bytes@.subrange(
                i + 1,
                len as int,
            ));
            lemma_pow256_monotonic((len - i) as nat, 8);
            reveal_with_fuel(pow256, 9);
            assert(pow256(8) == 0x1_0000_0000_0000_0000);
            assert(value * 256 + bytes@[i as int] < pow256((len - i) as nat)) by (nonlinear_arith)
                requires
                    value < pow256((len - i - 1) as nat),
                    bytes@[i as int] < 256,
                    pow256((len - i) as nat) == 256 * pow256((len - i - 1) as nat),
            ;
        }
        value = value * 256 + (bytes[i] as u64);
    }
    proof {
        if bytes@.len() <= 8 {
            assert(bytes@.subrange(0, len as int) =~= bytes@);
        } else {
            assert(bytes@.subrange(0, len as int) =~= bytes@.subrange(0, 8));
        }
    }
    value
}

/// Round trip of the persisted representation: a full 8-byte file holding
/// value `n` — which is what `encode_counter(n)` writes — reloads to
/// exactly `n`.
pub proof fn lemma_file_round_trip(bytes: Seq<u8>, value: u64)
    requires
        bytes.len() == COUNTER_FILE_LEN,
        le_value(bytes) == value,
    ensures
        stored_value(bytes) == value,
{
}

/// The persisted representation is unique: two byte sequences of the same
/// length holding the same value are the same bytes, so each counter value
/// has exactly one 8-byte encoding.
pub proof fn lemma_le_value_injective(a: Seq<u8>, b: Seq<u8>)
    requires
        a.len() == b.len(),
        le_value(a) == le_value(b),
    ensures
        a =~= b,
    decreases a.len(),
{
    if a.len() > 0 {
        lemma_le_value_bound(a.drop_first());
        lemma_le_value_bound(b.drop_first());
        // The first byte is the value's remainder modulo 256: the tail only
        // contributes a multiple of 256.
        vstd::arithmetic::div_mod::lemma_mod_multiples_vanish(
            le_value(a.drop_first()),
            a[0] as int,
            256,
        );
        vstd::arithmetic::div_mod::lemma_mod_multiples_vanish(
            le_value(b.drop_first()),
            b[0] as int,
            256,
        );
        vstd::arithmetic::div_mod::lemma_small_mod(a[0] as nat, 256);
        vstd::arithmetic::div_mod::lemma_small_mod(b[0] as nat, 256);
        assert(a[0] == b[0]);
        lemma_le_value_injective(a.drop_first(), b.drop_first());
        assert forall|i: int| 0 <= i < a.len() implies a[i] == b[i] by {
            if i > 0 {
                assert(a[i] == a.drop_first()[i - 1]);
                assert(b[i] == b.drop_first()[i - 1]);
            }
        }
    }
}

/// What the local backend's sync loop remembers between cycles: the value
/// it last wrote out, if any.
pub struct FileSyncState {
    pub last_written: Option<u64>,
}

impl FileSyncState {
    /// At installation nothing has been written yet, so the first cycle
    /// always writes.
    pub fn new() -> (state: Self)
        ensures
            state.last_written is None,
    {
        FileSyncState { last_written: None }
    }

    /// One sync cycle's decision: write the counter's current value only if
    /// it changed since the last write, else skip. A write failure is fatal
    /// for this backend, so the caller never returns here after one.
    pub fn plan_write(&mut self, current: u64) -> (write: bool)
        ensures
            write == (old(self).last_written != Some(current)),
            final(self).last_written == Some(current),
    {
        let write = match self.last_written {
            Some(v) => v != current,
            None => true,
        };
        self.last_written = Some(current);
        write
    }
}

} // verus!
