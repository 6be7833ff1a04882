use vstd::prelude::*;

verus! {

/// 256 to the power `n`.
pub open spec fn pow256(n: nat) -> nat
    decreases n,
{
    if n == 0 {
        1
    } else {
        256 * pow256((n - 1) as nat)
    }
}

/// The number that a little-endian byte sequence encodes.
pub open spec fn le_value(s: Seq<u8>) -> nat
    decreases s.len(),
{
    if s.len() == 0 {
        0
    } else {
        (s[0] + 256 * le_value(s.drop_first())) as nat
    }
}

/// Byte `i` (counting from the least significant) of `v`.
pub open spec fn le_byte(v: u64, i: int) -> u8 {
    ((v >> ((8 * i) as u64)) & 0xff) as u8
}

/// The `n` least significant bytes of `v`, least significant first.
pub open spec fn le_bytes(v: u64, n: nat) -> Seq<u8> {
    Seq::new(n, |i: int| le_byte(v, i))
}

pub proof fn lemma_pow256_8()
    ensures
        pow256(8) == 0x1_0000_0000_0000_0000,
{
    reveal_with_fuel(pow256, 9);
}

pub proof fn lemma_pow256_positive(n: nat)
    ensures
        pow256(n) >= 1,
    decreases n,
{
    if n > 0 {
        lemma_pow256_positive((n - 1) as nat);
    }
}

pub proof fn lemma_pow256_monotone(a: nat, b: nat)
    requires
        a <= b,
    ensures
        pow256(a) <= pow256(b),
    decreases b,
{
    if a < b {
        lemma_pow256_monotone(a, (b - 1) as nat);
        lemma_pow256_positive((b - 1) as nat);
    }
}

/// A little-endian sequence of `n` bytes encodes a number below `256^n`.
pub proof fn lemma_le_value_bound(s: Seq<u8>)
    ensures
        le_value(s) < pow256(s.len()),
    decreases s.len(),
{
    if s.len() > 0 {
        lemma_le_value_bound(s.drop_first());
    }
}

/// Splitting off the first byte of a suffix.
pub proof fn lemma_le_value_step(s: Seq<u8>, i: int)
    requires
        0 <= i < s.len(),
    ensures
        le_value(s.subrange(i, s.len() as int)) == s[i] + 256 * le_value(
            s.subrange(i + 1, s.len() as int),
        ),
{
    assert(s.subrange(i, s.len() as int).drop_first() =~= s.subrange(i + 1, s.len() as int));
}

/// Dropping the lowest byte of `v` shifts its byte sequence by one.
pub proof fn lemma_le_bytes_shift(v: u64, n: nat)
    requires
        1 <= n <= 8,
    ensures
        le_bytes(v, n).drop_first() =~= le_bytes(v >> 8, (n - 1) as nat),
        le_bytes(v, n)[0] == v & 0xff,
        v == (v & 0xff) + 256 * (v >> 8),
{
    assert forall|i: int| 0 <= i < n - 1 implies #[trigger] le_bytes(v, n).drop_first()[i]
        == le_bytes(v >> 8, (n - 1) as nat)[i] by {
        let k = i as u64;
        assert(k < 8);
        assert(((v >> (8 * (k + 1))) & 0xff) == (((v >> 8) >> (8 * k)) & 0xff)) by (bit_vector)
            requires
                k < 8,
        ;
    }
    assert(v == (v & 0xff) + 256 * (v >> 8)) by (bit_vector);
    assert((v >> 0u64) & 0xff == v & 0xff) by (bit_vector);
    assert((v & 0xff) < 256) by (bit_vector);
    assert(((8 * 0int) as u64) == 0u64);
    assert(le_byte(v, 0) == v & 0xff);
}

/// The `n` low bytes of a value below `256^n` encode that value.
pub proof fn lemma_le_bytes_value(v: u64, n: nat)
    requires
        n <= 8,
        v < pow256(n),
    ensures
        le_value(le_bytes(v, n)) == v,
    decreases n,
{
    if n == 0 {
        assert(le_bytes(v, n) =~= Seq::<u8>::empty());
    } else {
        lemma_le_bytes_shift(v, n);
        assert((v & 0xff) < 256) by (bit_vector);
        lemma_le_bytes_value(v >> 8, (n - 1) as nat);
    }
}

/// The `n` low bytes of any value encode that value modulo `256^n`.
pub proof fn lemma_le_bytes_mod(v: u64, n: nat)
    requires
        n <= 8,
    ensures
        le_value(le_bytes(v, n)) == v as nat % pow256(n),
    decreases n,
{
    if n == 0 {
        assert(le_bytes(v, n) =~= Seq::<u8>::empty());
    } else {
        lemma_le_bytes_shift(v, n);
        lemma_le_bytes_mod(v >> 8, (n - 1) as nat);
        lemma_pow256_positive((n - 1) as nat);
        assert((v & 0xff) < 256) by (bit_vector);
        assert(v as int / 256 == (v >> 8) && v as int % 256 == (v & 0xff)) by {
            vstd::arithmetic::div_mod::lemma_fundamental_div_mod_converse(
                v as int,
                256,
                (v >> 8) as int,
                (v & 0xff) as int,
            );
        }
        vstd::arithmetic::div_mod::lemma_mod_breakdown(
            v as int,
            256,
            pow256((n - 1) as nat) as int,
        );
    }
}

/// Eight little-endian bytes of a value encode that value.
pub proof fn lemma_u64_le_roundtrip(v: u64)
    ensures
        le_value(le_bytes(v, 8)) == v,
        le_bytes(v, 8).len() == 8,
{
    lemma_pow256_8();
    lemma_le_bytes_value(v, 8);
}

/// Decodes a little-endian sequence of at most eight bytes.
pub fn le_to_u64(bytes: &[u8]) -> (v: u64)
    requires
        bytes@.len() <= 8,
    ensures
        v == le_value(bytes@),
{
    let n = bytes.len();
    let mut acc: u64 = 0;
    let mut i: usize = n;
    proof {
        assert(bytes@.subrange(n as int, n as int) =~= Seq::<u8>::empty());
    }
    while i > 0
        invariant
            n == bytes@.len(),
            n <= 8,
            i <= n,
            acc == le_value(bytes@.subrange(i as int, n as int)),
            acc < pow256((n - i) as nat),
        decreases i,
    {
        proof {
            lemma_le_value_step(bytes@, i - 1);
            lemma_pow256_monotone((n - i + 1) as nat, 8);
            lemma_pow256_8();
        }
        let b = bytes[i - 1];
        assert(256 * acc + b < 256 * pow256((n - i) as nat));
        acc = acc * 256 + b as u64;
        i = i - 1;
    }
    proof {
        assert(bytes@.subrange(0, n as int) =~= bytes@);
    }
    acc
}

/// Decodes exactly eight little-endian bytes.
pub fn bytes_to_u64(bytes: &[u8]) -> (v: u64)
    requires
        bytes@.len() == 8,
    ensures
        v == le_value(bytes@),
{
    le_to_u64(bytes)
}

/// The eight little-endian bytes of `v`.
pub fn u64_to_le_bytes(v: u64) -> (bytes: Vec<u8>)
    ensures
        bytes@ == le_bytes(v, 8),
{
    let mut bytes: Vec<u8> = Vec::new();
    let mut i: u64 = 0;
    while i < 8
        invariant
            i <= 8,
            bytes@ =~= le_bytes(v, i as nat),
        decreases 8 - i,
    {
        let b = ((v >> (8 * i)) & 0xff) as u8;
        bytes.push(b);
        i = i + 1;
    }
    bytes
}

} // verus!
