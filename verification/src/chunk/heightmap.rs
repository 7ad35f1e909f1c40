//! Height maps: which blocks count, and the packed form that is sent.

use vstd::arithmetic::div_mod::*;
use vstd::arithmetic::mul::*;
use vstd::arithmetic::power2::*;
use vstd::bits::*;
use vstd::prelude::*;

use super::block::{BlockKind, BlockState};

verus! {

/// The height maps that are sent with a chunk.
#[derive(Clone, Copy, Debug, PartialEq, Eq, Structural)]
pub enum HeightMapKind {
    WorldSurface,
    MotionBlocking,
    MotionBlockingNoLeaves,
}

/// Whether the state counts as blocking motion or holding a fluid.
pub open spec fn blocks_motion_or_fluid(state: BlockState) -> bool {
    &&& state.kind != BlockKind::BambooSapling
    &&& state.kind != BlockKind::Cactus
    &&& (state.blocks_motion || state.liquid || state.waterlogged == Some(true))
}

/// Whether a block with this state counts in the height map.
pub open spec fn occupies(kind: HeightMapKind, state: BlockState) -> bool {
    match kind {
        HeightMapKind::WorldSurface => !state.air,
        HeightMapKind::MotionBlocking => blocks_motion_or_fluid(state),
        HeightMapKind::MotionBlockingNoLeaves => state.kind != BlockKind::Leaves
            && blocks_motion_or_fluid(state),
    }
}

/// Whether the state is one of the kinds of leaves.
pub fn is_leaf_block(state: BlockState) -> (r: bool)
    ensures
        r == (state.kind == BlockKind::Leaves),
{
    state.kind == BlockKind::Leaves
}

/// Whether the state counts as blocking motion or holding a fluid.
pub fn is_motion_blocking_occupied(state: BlockState) -> (r: bool)
    ensures
        r == blocks_motion_or_fluid(state),
{
    if state.kind == BlockKind::BambooSapling || state.kind == BlockKind::Cactus {
        return false;
    }
    let waterlogged: bool = match state.waterlogged {
        Some(on) => on,
        None => false,
    };
    state.blocks_motion || state.liquid || waterlogged
}

/// As [`is_motion_blocking_occupied`], but leaves never count.
pub fn is_motion_blocking_no_leaves_occupied(state: BlockState) -> (r: bool)
    ensures
        r == occupies(HeightMapKind::MotionBlockingNoLeaves, state),
{
    if is_leaf_block(state) {
        return false;
    }
    is_motion_blocking_occupied(state)
}

/// Whether a block with this state counts in the height map.
pub fn is_occupied(kind: HeightMapKind, state: BlockState) -> (r: bool)
    ensures
        r == occupies(kind, state),
{
    match kind {
        HeightMapKind::WorldSurface => !state.air,
        HeightMapKind::MotionBlocking => is_motion_blocking_occupied(state),
        HeightMapKind::MotionBlockingNoLeaves => is_motion_blocking_no_leaves_occupied(state),
    }
}

/// The number of binary digits of `n`, zero for zero.
pub open spec fn digits(n: nat) -> nat
    decreases n,
{
    if n == 0 {
        0
    } else {
        1 + digits(n / 2)
    }
}

/// The number of binary digits is the exponent of the least power of two above
/// the number.
pub proof fn lemma_digits(n: nat)
    ensures
        n < pow2(digits(n)),
        n > 0 ==> pow2((digits(n) - 1) as nat) <= n,
    decreases n,
{
    if n == 0 {
        lemma2_to64();
    } else {
        lemma_digits(n / 2);
        lemma_pow2_unfold(digits(n));
        if n / 2 > 0 {
            lemma_pow2_unfold((digits(n) - 1) as nat);
        } else {
            lemma2_to64();
        }
    }
}

/// Numbers below a power of two have no more digits than its exponent.
pub proof fn lemma_digits_bound(n: nat, e: nat)
    requires
        n < pow2(e),
    ensures
        digits(n) <= e,
{
    lemma_digits(n);
    if n > 0 && digits(n) > e {
        if e < digits(n) - 1 {
            lemma_pow2_strictly_increases(e, (digits(n) - 1) as nat);
        }
    }
}

/// The least number of bits that hold `n`.
pub fn bit_width(n: usize) -> (r: usize)
    ensures
        r == digits(n as nat),
        r <= 64,
{
    let mut rest: usize = n;
    let mut width: usize = 0;
    proof {
        lemma2_to64();
        lemma_digits_bound(n as nat, 64);
    }
    while rest > 0
        invariant
            width + digits(rest as nat) == digits(n as nat),
            digits(n as nat) <= 64,
        decreases rest,
    {
        rest = rest / 2;
        width = width + 1;
    }
    width
}

/// The bits of one entry in a packed height map of a world of this height.
pub open spec fn entry_bits(world_height: nat) -> nat {
    if digits(world_height) == 0 {
        1
    } else {
        digits(world_height)
    }
}

/// The bits of `d` as an unsigned number.
pub open spec fn unsigned(d: i64) -> nat {
    if d >= 0 {
        d as nat
    } else {
        (d + 0x1_0000_0000_0000_0000) as nat
    }
}

/// Entry `j` of a packed number whose entries have `bits` bits.
pub open spec fn packed_entry(packed: nat, bits: nat, j: nat) -> nat {
    (packed / pow2(bits * j)) % pow2(bits)
}

/// Whether `data` is the packed form of the 256 entries: as many entries to a
/// long as fit whole, the first in the lowest bits, and the rest zero.
pub open spec fn packs_heightmap(data: Seq<i64>, entries: Seq<u32>, bits: nat) -> bool {
    let per_long = 64nat / bits;
    &&& data.len() == (256 + per_long - 1) / per_long as int
    &&& forall|i: int|
        #![trigger entries[i]]
        0 <= i < 256 ==> packed_entry(
            unsigned(data[i / per_long as int]),
            bits,
            (i % per_long as int) as nat,
        ) == entries[i]
    &&& forall|k: int|
        #![trigger data[k]]
        0 <= k < data.len() ==> unsigned(data[k]) < pow2(bits * entries_in_long(per_long, k))
}

/// The number of entries in long `k`: full, but for the last one.
pub open spec fn entries_in_long(per_long: nat, k: int) -> nat {
    if 256 - k * per_long >= per_long {
        per_long
    } else {
        (256 - k * per_long) as nat
    }
}

/// The number with the bits of `v`.
fn to_signed(v: u64) -> (r: i64)
    ensures
        unsigned(r) == v,
{
    let r: i64 = v as i64;
    proof {
        assert(v < 0x8000_0000_0000_0000 ==> (v as i64) == v) by (bit_vector);
        assert(v >= 0x8000_0000_0000_0000 ==> (v as i64) == v - 0x1_0000_0000_0000_0000)
            by (bit_vector);
    }
    r
}

/// Adding an entry above the others leaves those as they are.
proof fn lemma_add_entry(packed: nat, y: nat, bits: nat, j: nat)
    requires
        packed < pow2(bits * j),
        y < pow2(bits),
    ensures
        packed + y * pow2(bits * j) < pow2(bits * (j + 1)),
        packed_entry(packed + y * pow2(bits * j), bits, j) == y,
        forall|i: nat|
            i < j ==> #[trigger] packed_entry(packed + y * pow2(bits * j), bits, i)
                == packed_entry(packed, bits, i),
{
    let p = pow2(bits * j);
    let b = pow2(bits);
    lemma_pow2_pos(bits * j);
    lemma_pow2_pos(bits);
    lemma_mul_is_distributive_add(bits as int, j as int, 1);
    lemma_pow2_adds(bits * j, bits);
    assert(packed + y * p < b * p) by (nonlinear_arith)
        requires
            packed < p,
            y + 1 <= b,
    ;
    assert(p * b == b * p) by (nonlinear_arith);
    let sum = packed + y * p;
    lemma_hoist_over_denominator(packed as int, y as int, p);
    lemma_basic_div(packed as int, p as int);
    lemma_small_mod(y, b);
    assert forall|i: nat| i < j implies #[trigger] packed_entry(sum, bits, i) == packed_entry(
        packed,
        bits,
        i,
    ) by {
        let q = pow2(bits * i);
        let gap = (j - i - 1) as nat;
        lemma_pow2_pos(bits * i);
        assert(bits * j == bits * i + bits + bits * gap) by (nonlinear_arith)
            requires
                gap == j - i - 1,
        ;
        lemma_pow2_adds(bits * i, bits);
        lemma_pow2_adds(bits * i + bits, bits * gap);
        let g = pow2(bits * gap);
        let m = (y * g) as int;
        assert(y * p == (b * m) * q) by (nonlinear_arith)
            requires
                p == (q * b) * g,
                m == y * g,
        ;
        lemma_hoist_over_denominator(packed as int, b * m, q);
        lemma_mod_multiples_vanish(m, packed as int / q as int, b as int);
    }
}

/// Packs `n` entries from `base` on into one long.
fn pack_long(heightmap: &[u32; 256], base: usize, n: u32, bits: u32) -> (r: u64)
    requires
        1 <= bits <= 32,
        bits * n <= 64,
        base + n <= 256,
        forall|i: int| 0 <= i < 256 ==> (#[trigger] heightmap@[i]) < pow2(bits as nat),
    ensures
        r < pow2(bits as nat * n as nat),
        forall|i: int|
            0 <= i < n ==> #[trigger] packed_entry(r as nat, bits as nat, i as nat)
                == heightmap@[base + i],
{
    let mut packed: u64 = 0;
    let mut j: u32 = 0;
    proof {
        lemma2_to64();
    }
    while j < n
        invariant
            1 <= bits <= 32,
            bits * n <= 64,
            base + n <= 256,
            j <= n,
            forall|i: int| 0 <= i < 256 ==> (#[trigger] heightmap@[i]) < pow2(bits as nat),
            packed < pow2(bits as nat * j as nat),
            forall|i: int|
                0 <= i < j ==> #[trigger] packed_entry(packed as nat, bits as nat, i as nat)
                    == heightmap@[base + i],
        decreases n - j,
    {
        let y: u64 = heightmap[base + j as usize] as u64;
        proof {
            assert(bits * j < 64) by (nonlinear_arith)
                requires
                    bits * n <= 64,
                    j < n,
                    bits >= 1,
            ;
        }
        let shift: u64 = (bits * j) as u64;
        let ghost before = packed;
        proof {
            lemma_add_entry(packed as nat, y as nat, bits as nat, j as nat);
            assert(bits * (j + 1) <= 64) by (nonlinear_arith)
                requires
                    bits * n <= 64,
                    j + 1 <= n,
            ;
            let e: nat = bits as nat * (j as nat + 1);
            if e < 64 {
                lemma_pow2_strictly_increases(e, 64);
            }
            lemma2_to64();
            lemma2_to64_rest();
            assert(before + y * pow2(shift as nat) <= u64::MAX);
            lemma_mul_nonnegative(y as int, pow2(shift as nat) as int);
            lemma_u64_shl_is_mul(y, shift);
            lemma_pow2_strictly_increases(shift as nat, 64);
            lemma_u64_shl_is_mul(1, shift);
            assert(before | (y << shift) == before + (y << shift)) by (bit_vector)
                requires
                    before < (1u64 << shift),
                    shift < 64,
            ;
        }
        packed = packed | (y << shift);
        proof {
            assert forall|i: int| 0 <= i < j + 1 implies #[trigger] packed_entry(
                packed as nat,
                bits as nat,
                i as nat,
            ) == heightmap@[base + i] by {
                if i < j {
                    assert(packed_entry(before as nat, bits as nat, i as nat) == heightmap@[base
                        + i]);
                }
            }
        }
        j = j + 1;
    }
    packed
}

/// Packs a height map into longs, each entry in as many bits as the world
/// height needs.
pub fn encode_heightmap(heightmap: [u32; 256], world_height: u32) -> (r: Vec<i64>)
    requires
        forall|i: int| 0 <= i < 256 ==> (#[trigger] heightmap@[i]) <= world_height,
    ensures
        packs_heightmap(r@, heightmap@, entry_bits(world_height as nat)),
{
    let width: usize = bit_width(world_height as usize);
    proof {
        lemma2_to64();
        lemma_digits_bound(world_height as nat, 32);
        lemma_digits(world_height as nat);
    }
    let bits: u32 = if width == 0 {
        1
    } else {
        width as u32
    };
    let per_long: u32 = 64 / bits;
    let ghost b: nat = bits as nat;
    let ghost per: nat = per_long as nat;
    let mut data: Vec<i64> = Vec::new();
    let mut base: usize = 0;
    proof {
        assert(bits * per_long <= 64 && per_long >= 1) by (nonlinear_arith)
            requires
                1 <= bits <= 32,
                per_long == 64u32 / bits,
        ;
        assert(0 * per == 0) by (nonlinear_arith);
    }
    while base < 256
        invariant
            1 <= bits <= 32,
            b == bits,
            per == per_long,
            1 <= per_long <= 64,
            bits * per_long <= 64,
            forall|i: int| 0 <= i < 256 ==> (#[trigger] heightmap@[i]) < pow2(bits as nat),
            base == if data@.len() * per < 256 {
                data@.len() * per
            } else {
                256
            },
            data@.len() > 0 ==> (data@.len() - 1) * per < 256,
            forall|k: int|
                #![trigger data@[k]]
                0 <= k < data@.len() ==> unsigned(data@[k]) < pow2(b * entries_in_long(per, k)),
            forall|k: int, j: int|
                #![trigger packed_entry(unsigned(data@[k]), b, j as nat)]
                0 <= k < data@.len() && 0 <= j < entries_in_long(per, k) ==> packed_entry(
                    unsigned(data@[k]),
                    b,
                    j as nat,
                ) == heightmap@[k * per + j],
        decreases 256 - base,
    {
        let left: usize = 256 - base;
        let n: u32 = if left >= per_long as usize {
            per_long
        } else {
            left as u32
        };
        proof {
            assert(bits * n <= 64) by (nonlinear_arith)
                requires
                    n <= per_long,
                    bits * per_long <= 64,
            ;
            assert((data@.len() + 1) * per == data@.len() * per + per) by (nonlinear_arith);
        }
        let packed: u64 = pack_long(&heightmap, base, n, bits);
        let ghost before = data@;
        data.push(to_signed(packed));
        base = base + n as usize;
        proof {
            let k0 = before.len() as int;
            assert(entries_in_long(per, k0) == n);
            assert forall|k: int| #![trigger data@[k]] 0 <= k < data@.len() implies unsigned(
                data@[k],
            ) < pow2(b * entries_in_long(per, k)) by {
                if k < k0 {
                    assert(data@[k] == before[k]);
                }
            }
            assert forall|k: int, j: int|
                #![trigger packed_entry(unsigned(data@[k]), b, j as nat)]
                0 <= k < data@.len() && 0 <= j < entries_in_long(per, k) implies packed_entry(
                unsigned(data@[k]),
                b,
                j as nat,
            ) == heightmap@[k * per + j] by {
                if k < k0 {
                    assert(data@[k] == before[k]);
                } else {
                    assert(packed_entry(packed as nat, b, j as nat) == heightmap@[k0 * per + j]);
                }
            }
        }
    }
    proof {
        let len = data@.len() as int;
        let p = per as int;
        assert((len - 1) * p == len * p - p) by (nonlinear_arith);
        lemma_fundamental_div_mod_converse(255 + p, p, len, 255 + p - len * p);
        assert forall|i: int| #![trigger heightmap@[i]] 0 <= i < 256 implies packed_entry(
            unsigned(data@[i / p]),
            b,
            (i % p) as nat,
        ) == heightmap@[i] by {
            lemma_fundamental_div_mod(i, p);
            lemma_mul_is_commutative(p, i / p);
            let k = i / p;
            lemma_div_pos_is_pos(i, p);
            assert(k < len) by (nonlinear_arith)
                requires
                    i == k * p + i % p,
                    0 <= i % p,
                    i < 256,
                    256 <= len * p,
                    p >= 1,
            ;
            assert(256 - k * p > i % p);
        }
    }
    data
}

/// A packed number is known by its entries.
proof fn lemma_packed_unique(a: nat, b: nat, bits: nat, n: nat)
    requires
        a < pow2(bits * n),
        b < pow2(bits * n),
        forall|j: nat|
            j < n ==> #[trigger] packed_entry(a, bits, j) == packed_entry(b, bits, j),
    ensures
        a == b,
    decreases n,
{
    if n == 0 {
        assert(bits * 0 == 0) by (nonlinear_arith);
        lemma2_to64();
    } else {
        let m = (n - 1) as nat;
        let p = pow2(bits * m);
        lemma_pow2_pos(bits * m);
        assert(bits * n == bits * m + bits) by (nonlinear_arith)
            requires
                n == m + 1,
        ;
        lemma_pow2_adds(bits * m, bits);
        lemma_split_entry(a, bits, m);
        lemma_split_entry(b, bits, m);
        assert(packed_entry(a, bits, m) == packed_entry(b, bits, m));
        assert forall|j: nat| j < m implies #[trigger] packed_entry(a % p, bits, j)
            == packed_entry(b % p, bits, j) by {
            assert(packed_entry(a, bits, j) == packed_entry(b, bits, j));
        }
        lemma_packed_unique(a % p, b % p, bits, m);
    }
}

/// The entries below `j`, and entry `j` above them.
proof fn lemma_split_entry(a: nat, bits: nat, j: nat)
    requires
        a < pow2(bits * j) * pow2(bits),
    ensures
        a % pow2(bits * j) < pow2(bits * j),
        a == a % pow2(bits * j) + packed_entry(a, bits, j) * pow2(bits * j),
        forall|i: nat|
            i < j ==> #[trigger] packed_entry(a, bits, i) == packed_entry(
                a % pow2(bits * j),
                bits,
                i,
            ),
{
    let p = pow2(bits * j);
    let b = pow2(bits);
    let high = a / p;
    let low = a % p;
    lemma_pow2_pos(bits * j);
    lemma_fundamental_div_mod(a as int, p as int);
    assert(p * high == high * p) by (nonlinear_arith);
    assert(high < b) by (nonlinear_arith)
        requires
            a < p * b,
            a == high * p + low,
            low >= 0,
            p > 0,
    ;
    lemma_add_entry(low, high, bits, j);
}

/// Heights are packed in one way only.
pub proof fn heights_are_packed_in_one_way(a: Seq<i64>, b: Seq<i64>, heights: Seq<u32>, bits: nat)
    requires
        1 <= bits <= 64,
        packs_heightmap(a, heights, bits),
        packs_heightmap(b, heights, bits),
    ensures
        a == b,
{
    let per = 64nat / bits;
    let p = per as int;
    assert(per >= 1) by (nonlinear_arith)
        requires
            1 <= bits <= 64,
            per == 64nat / bits,
    ;
    assert forall|k: int| 0 <= k < a.len() implies a[k] == b[k] by {
        let n = entries_in_long(per, k);
        lemma_fundamental_div_mod(256 + p - 1, p);
        assert(k * p < 256) by (nonlinear_arith)
            requires
                0 <= k < a.len(),
                a.len() == (256 + p - 1) / p,
                256 + p - 1 == p * ((256 + p - 1) / p) + (256 + p - 1) % p,
                0 <= (256 + p - 1) % p,
                p >= 1,
        ;
        assert forall|j: nat| j < n implies #[trigger] packed_entry(unsigned(a[k]), bits, j)
            == packed_entry(unsigned(b[k]), bits, j) by {
            let i = k * p + j;
            assert(0 <= k * p) by (nonlinear_arith)
                requires
                    0 <= k,
                    0 <= p,
            ;
            lemma_fundamental_div_mod_converse(i, p, k, j as int);
            assert(0 <= i < 256);
            assert(packed_entry(unsigned(a[i / p]), bits, (i % p) as nat) == heights[i]);
            assert(packed_entry(unsigned(b[i / p]), bits, (i % p) as nat) == heights[i]);
        }
        assert(unsigned(a[k]) < pow2(bits * n));
        assert(unsigned(b[k]) < pow2(bits * n));
        lemma_packed_unique(unsigned(a[k]), unsigned(b[k]), bits, n);
    }
    assert(a =~= b);
}

} // verus!
