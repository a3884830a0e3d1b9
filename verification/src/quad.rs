//! Numeric form of dotted-quad values: big-endian packing of four octets
//! into a 32-bit value, network and host masks of a prefix length, and
//! population counts of mask octets.

use vstd::prelude::*;
use vstd::arithmetic::power2::pow2;
use vstd::bits::lemma_u32_shl_is_mul;
use vstd::arithmetic::power2::lemma2_to64;
use crate::dotted::{split_dots, split_on_dots, is_uint_str, uint_val, parse_uint};

verus! {

/// Big-endian packing of four octets into one 32-bit value.
pub open spec fn quad(a: u8, b: u8, c: u8, d: u8) -> u32 {
    ((a as int) * 0x1000000 + (b as int) * 0x10000 + (c as int) * 0x100 + (d as int)) as u32
}

pub open spec fn byte0(v: u32) -> u8 {
    ((v >> 24u32) & 0xFF) as u8
}

pub open spec fn byte1(v: u32) -> u8 {
    ((v >> 16u32) & 0xFF) as u8
}

pub open spec fn byte2(v: u32) -> u8 {
    ((v >> 8u32) & 0xFF) as u8
}

pub open spec fn byte3(v: u32) -> u8 {
    (v & 0xFF) as u8
}

/// The network mask of a prefix of length `n`: the top `n` bits set.
pub open spec fn net_mask(n: u8) -> u32
    recommends
        1 <= n <= 32,
{
    0xFFFF_FFFFu32 << ((32 - n) as u32)
}

/// The host mask of a prefix of length `n`: the low `32 - n` bits set.
pub open spec fn host_mask(n: u8) -> u32
    recommends
        1 <= n <= 32,
{
    !net_mask(n)
}

/// Number of usable host addresses under a prefix of length `n`.
pub open spec fn spec_max_hosts(n: u8) -> u32
    recommends
        1 <= n <= 32,
{
    if n >= 31 {
        0u32
    } else {
        ((1u32 << ((32 - n) as u32)) - 2) as u32
    }
}

pub fn pack_quad(a: u8, b: u8, c: u8, d: u8) -> (v: u32)
    ensures
        v == quad(a, b, c, d),
{
    let v = ((a as u32) << 24u32) | ((b as u32) << 16u32) | ((c as u32) << 8u32) | (d as u32);
    proof {
        assert(((a as u32) << 24u32) | ((b as u32) << 16u32) | ((c as u32) << 8u32) | (d as u32)
            == (a as u32) * 0x1000000 + (b as u32) * 0x10000 + (c as u32) * 0x100 + (
        d as u32)) by (bit_vector);
    }
    v
}

/// Each octet of a packed quad is the corresponding input octet, and
/// packing the four octets of a value gives the value back.
pub proof fn lemma_quad_bytes(a: u8, b: u8, c: u8, d: u8)
    ensures
        byte0(quad(a, b, c, d)) == a,
        byte1(quad(a, b, c, d)) == b,
        byte2(quad(a, b, c, d)) == c,
        byte3(quad(a, b, c, d)) == d,
{
    let v = quad(a, b, c, d);
    assert(v == (a as int) * 0x1000000 + (b as int) * 0x10000 + (c as int) * 0x100 + (d as int));
    assert((v >> 24u32) & 0xFF == a && (v >> 16u32) & 0xFF == b && (v >> 8u32) & 0xFF == c && v
        & 0xFF == d) by (bit_vector)
        requires
            v == (a as int) * 0x1000000 + (b as int) * 0x10000 + (c as int) * 0x100 + (d as int),
    ;
}

pub proof fn lemma_bytes_quad(v: u32)
    ensures
        quad(byte0(v), byte1(v), byte2(v), byte3(v)) == v,
{
    assert(((v >> 24u32) & 0xFF) * 0x1000000 + ((v >> 16u32) & 0xFF) * 0x10000 + ((v >> 8u32)
        & 0xFF) * 0x100 + (v & 0xFF) == v) by (bit_vector);
    assert((v >> 24u32) & 0xFF < 256 && (v >> 16u32) & 0xFF < 256 && (v >> 8u32) & 0xFF < 256 && v
        & 0xFF < 256) by (bit_vector);
}

/// The octet with `k` leading one bits, for `k` in 0..=8; values outside
/// that range are clamped.
pub open spec fn ones_byte(k: int) -> u8 {
    if k <= 0 {
        0
    } else if k == 1 {
        128
    } else if k == 2 {
        192
    } else if k == 3 {
        224
    } else if k == 4 {
        240
    } else if k == 5 {
        248
    } else if k == 6 {
        252
    } else if k == 7 {
        254
    } else {
        255
    }
}

/// Octet `i` (from the left) of the network mask of a prefix of length `n`.
pub open spec fn mask_byte(n: u8, i: int) -> u8 {
    ones_byte(n - 8 * i)
}

/// The nine octet values that can appear in a contiguous subnet mask.
pub open spec fn is_mask_octet(x: u8) -> bool {
    x == 0 || x == 128 || x == 192 || x == 224 || x == 240 || x == 248 || x == 252 || x == 254
        || x == 255
}

/// The octets of the network mask of `n` are `mask_byte(n, 0..4)`.
pub proof fn lemma_net_mask_bytes(n: u8)
    requires
        1 <= n <= 32,
    ensures
        byte0(net_mask(n)) == mask_byte(n, 0),
        byte1(net_mask(n)) == mask_byte(n, 1),
        byte2(net_mask(n)) == mask_byte(n, 2),
        byte3(net_mask(n)) == mask_byte(n, 3),
{
    let k = (32 - n) as u32;
    assert(net_mask(n) == 0xFFFF_FFFFu32 << k);
    assert(((0xFFFF_FFFFu32 << k) >> 24u32) & 0xFF == ones_byte(32 - k) && ((0xFFFF_FFFFu32 << k)
        >> 16u32) & 0xFF == ones_byte(24 - k) && ((0xFFFF_FFFFu32 << k) >> 8u32) & 0xFF
        == ones_byte(16 - k) && (0xFFFF_FFFFu32 << k) & 0xFF == ones_byte(8 - k)) by (bit_vector)
        requires
            k < 32,
    ;
}

/// Mask octets are drawn from the nine mask values and do not increase
/// from left to right.
pub proof fn lemma_mask_bytes_wf(n: u8)
    requires
        1 <= n <= 32,
    ensures
        forall|i: int| 0 <= i < 4 ==> is_mask_octet(#[trigger] mask_byte(n, i)),
        forall|i: int| 0 <= i < 3 ==> #[trigger] mask_byte(n, i + 1) <= mask_byte(n, i),
{
}

/// Number of one bits in the binary form of `x`.
pub open spec fn pop(x: nat) -> nat
    decreases x,
{
    if x == 0 {
        0
    } else {
        x % 2 + pop(x / 2)
    }
}

pub proof fn lemma_pop_bound(x: nat, k: nat)
    requires
        x < pow2(k),
    ensures
        pop(x) <= k,
    decreases k,
{
    if k == 0 {
        assert(pow2(0) == 1) by {
            vstd::arithmetic::power2::lemma2_to64();
        }
    } else {
        vstd::arithmetic::power2::lemma_pow2_unfold(k);
        lemma_pop_bound(x / 2, (k - 1) as nat);
    }
}

/// Population counts of the nine mask octet values.
pub proof fn lemma_pop_ones_byte(k: int)
    ensures
        pop(ones_byte(k) as nat) == if k <= 0 {
            0
        } else if k >= 8 {
            8
        } else {
            k
        },
{
    reveal_with_fuel(pop, 10);
}

/// The per-octet population counts of a network mask add up to the prefix
/// length.
pub proof fn lemma_mask_pop_sum(n: u8)
    requires
        1 <= n <= 32,
    ensures
        pop(mask_byte(n, 0) as nat) + pop(mask_byte(n, 1) as nat) + pop(mask_byte(n, 2) as nat)
            + pop(mask_byte(n, 3) as nat) == n,
{
    lemma_pop_ones_byte(n - 0);
    lemma_pop_ones_byte(n - 8);
    lemma_pop_ones_byte(n - 16);
    lemma_pop_ones_byte(n - 24);
}

/// Counts the one bits of an octet.
pub fn popcount8(x: u8) -> (r: u8)
    ensures
        r as nat == pop(x as nat),
        r <= 8,
{
    proof {
        lemma2_to64();
        lemma_pop_bound(x as nat, 8);
    }
    let mut v: u8 = x;
    let mut count: u8 = 0;
    while v > 0
        invariant
            count as nat + pop(v as nat) == pop(x as nat),
            pop(x as nat) <= 8,
        decreases v,
    {
        count = count + (v % 2);
        v = v / 2;
    }
    count
}

/// Bit `j` of `v`, counting from the least significant end.
pub open spec fn bit(v: u32, j: u32) -> bool
    recommends
        j < 32,
{
    (v >> j) & 1u32 == 1u32
}

/// A value is a contiguous top-aligned mask when no set bit sits below a
/// clear one.
pub open spec fn contiguous(v: u32) -> bool {
    forall|j1: u32, j2: u32|
        j1 <= j2 < 32 && #[trigger] bit(v, j1) ==> #[trigger] bit(v, j2)
}

/// The bits of a network mask are exactly the bits at or above the host
/// width.
pub proof fn lemma_net_mask_bits(n: u8, j: u32)
    requires
        1 <= n <= 32,
        j < 32,
    ensures
        bit(net_mask(n), j) <==> j >= 32 - n,
{
    let k = (32 - n) as u32;
    assert(((0xFFFF_FFFFu32 << k) >> j) & 1u32 == (if j >= k {
        1u32
    } else {
        0u32
    })) by (bit_vector)
        requires
            k < 32,
            j < 32,
    ;
}

/// A value whose bits are exactly those at or above `32 - n` is the
/// network mask of `n`.
pub proof fn lemma_bits_net_mask(v: u32, n: u8)
    requires
        1 <= n <= 32,
        forall|j: u32| j < 32 ==> (#[trigger] bit(v, j) <==> j >= 32 - n),
    ensures
        v == net_mask(n),
{
    let k = (32 - n) as u32;
    assert(bit(v, 0u32) <==> 0u32 >= 32 - n);
    assert(bit(v, 1u32) <==> 1u32 >= 32 - n);
    assert(bit(v, 2u32) <==> 2u32 >= 32 - n);
    assert(bit(v, 3u32) <==> 3u32 >= 32 - n);
    assert(bit(v, 4u32) <==> 4u32 >= 32 - n);
    assert(bit(v, 5u32) <==> 5u32 >= 32 - n);
    assert(bit(v, 6u32) <==> 6u32 >= 32 - n);
    assert(bit(v, 7u32) <==> 7u32 >= 32 - n);
    assert(bit(v, 8u32) <==> 8u32 >= 32 - n);
    assert(bit(v, 9u32) <==> 9u32 >= 32 - n);
    assert(bit(v, 10u32) <==> 10u32 >= 32 - n);
    assert(bit(v, 11u32) <==> 11u32 >= 32 - n);
    assert(bit(v, 12u32) <==> 12u32 >= 32 - n);
    assert(bit(v, 13u32) <==> 13u32 >= 32 - n);
    assert(bit(v, 14u32) <==> 14u32 >= 32 - n);
    assert(bit(v, 15u32) <==> 15u32 >= 32 - n);
    assert(bit(v, 16u32) <==> 16u32 >= 32 - n);
    assert(bit(v, 17u32) <==> 17u32 >= 32 - n);
    assert(bit(v, 18u32) <==> 18u32 >= 32 - n);
    assert(bit(v, 19u32) <==> 19u32 >= 32 - n);
    assert(bit(v, 20u32) <==> 20u32 >= 32 - n);
    assert(bit(v, 21u32) <==> 21u32 >= 32 - n);
    assert(bit(v, 22u32) <==> 22u32 >= 32 - n);
    assert(bit(v, 23u32) <==> 23u32 >= 32 - n);
    assert(bit(v, 24u32) <==> 24u32 >= 32 - n);
    assert(bit(v, 25u32) <==> 25u32 >= 32 - n);
    assert(bit(v, 26u32) <==> 26u32 >= 32 - n);
    assert(bit(v, 27u32) <==> 27u32 >= 32 - n);
    assert(bit(v, 28u32) <==> 28u32 >= 32 - n);
    assert(bit(v, 29u32) <==> 29u32 >= 32 - n);
    assert(bit(v, 30u32) <==> 30u32 >= 32 - n);
    assert(bit(v, 31u32) <==> 31u32 >= 32 - n);
    assert(v == 0xFFFF_FFFFu32 << k) by (bit_vector)
        requires
            k < 32,
            ((v >> 0u32) & 1u32 == 1u32) <==> 0u32 >= k,
            ((v >> 1u32) & 1u32 == 1u32) <==> 1u32 >= k,
            ((v >> 2u32) & 1u32 == 1u32) <==> 2u32 >= k,
            ((v >> 3u32) & 1u32 == 1u32) <==> 3u32 >= k,
            ((v >> 4u32) & 1u32 == 1u32) <==> 4u32 >= k,
            ((v >> 5u32) & 1u32 == 1u32) <==> 5u32 >= k,
            ((v >> 6u32) & 1u32 == 1u32) <==> 6u32 >= k,
            ((v >> 7u32) & 1u32 == 1u32) <==> 7u32 >= k,
            ((v >> 8u32) & 1u32 == 1u32) <==> 8u32 >= k,
            ((v >> 9u32) & 1u32 == 1u32) <==> 9u32 >= k,
            ((v >> 10u32) & 1u32 == 1u32) <==> 10u32 >= k,
            ((v >> 11u32) & 1u32 == 1u32) <==> 11u32 >= k,
            ((v >> 12u32) & 1u32 == 1u32) <==> 12u32 >= k,
            ((v >> 13u32) & 1u32 == 1u32) <==> 13u32 >= k,
            ((v >> 14u32) & 1u32 == 1u32) <==> 14u32 >= k,
            ((v >> 15u32) & 1u32 == 1u32) <==> 15u32 >= k,
            ((v >> 16u32) & 1u32 == 1u32) <==> 16u32 >= k,
            ((v >> 17u32) & 1u32 == 1u32) <==> 17u32 >= k,
            ((v >> 18u32) & 1u32 == 1u32) <==> 18u32 >= k,
            ((v >> 19u32) & 1u32 == 1u32) <==> 19u32 >= k,
            ((v >> 20u32) & 1u32 == 1u32) <==> 20u32 >= k,
            ((v >> 21u32) & 1u32 == 1u32) <==> 21u32 >= k,
            ((v >> 22u32) & 1u32 == 1u32) <==> 22u32 >= k,
            ((v >> 23u32) & 1u32 == 1u32) <==> 23u32 >= k,
            ((v >> 24u32) & 1u32 == 1u32) <==> 24u32 >= k,
            ((v >> 25u32) & 1u32 == 1u32) <==> 25u32 >= k,
            ((v >> 26u32) & 1u32 == 1u32) <==> 26u32 >= k,
            ((v >> 27u32) & 1u32 == 1u32) <==> 27u32 >= k,
            ((v >> 28u32) & 1u32 == 1u32) <==> 28u32 >= k,
            ((v >> 29u32) & 1u32 == 1u32) <==> 29u32 >= k,
            ((v >> 30u32) & 1u32 == 1u32) <==> 30u32 >= k,
            ((v >> 31u32) & 1u32 == 1u32) <==> 31u32 >= k,
    ;
}

/// A value with no set bit is zero.
pub proof fn lemma_no_bits_zero(v: u32)
    requires
        forall|j: u32| j < 32 ==> !(#[trigger] bit(v, j)),
    ensures
        v == 0,
{
    assert(!bit(v, 0u32));
    assert(!bit(v, 1u32));
    assert(!bit(v, 2u32));
    assert(!bit(v, 3u32));
    assert(!bit(v, 4u32));
    assert(!bit(v, 5u32));
    assert(!bit(v, 6u32));
    assert(!bit(v, 7u32));
    assert(!bit(v, 8u32));
    assert(!bit(v, 9u32));
    assert(!bit(v, 10u32));
    assert(!bit(v, 11u32));
    assert(!bit(v, 12u32));
    assert(!bit(v, 13u32));
    assert(!bit(v, 14u32));
    assert(!bit(v, 15u32));
    assert(!bit(v, 16u32));
    assert(!bit(v, 17u32));
    assert(!bit(v, 18u32));
    assert(!bit(v, 19u32));
    assert(!bit(v, 20u32));
    assert(!bit(v, 21u32));
    assert(!bit(v, 22u32));
    assert(!bit(v, 23u32));
    assert(!bit(v, 24u32));
    assert(!bit(v, 25u32));
    assert(!bit(v, 26u32));
    assert(!bit(v, 27u32));
    assert(!bit(v, 28u32));
    assert(!bit(v, 29u32));
    assert(!bit(v, 30u32));
    assert(!bit(v, 31u32));
    assert(v == 0) by (bit_vector)
        requires
            (v >> 0u32) & 1u32 != 1u32,
            (v >> 1u32) & 1u32 != 1u32,
            (v >> 2u32) & 1u32 != 1u32,
            (v >> 3u32) & 1u32 != 1u32,
            (v >> 4u32) & 1u32 != 1u32,
            (v >> 5u32) & 1u32 != 1u32,
            (v >> 6u32) & 1u32 != 1u32,
            (v >> 7u32) & 1u32 != 1u32,
            (v >> 8u32) & 1u32 != 1u32,
            (v >> 9u32) & 1u32 != 1u32,
            (v >> 10u32) & 1u32 != 1u32,
            (v >> 11u32) & 1u32 != 1u32,
            (v >> 12u32) & 1u32 != 1u32,
            (v >> 13u32) & 1u32 != 1u32,
            (v >> 14u32) & 1u32 != 1u32,
            (v >> 15u32) & 1u32 != 1u32,
            (v >> 16u32) & 1u32 != 1u32,
            (v >> 17u32) & 1u32 != 1u32,
            (v >> 18u32) & 1u32 != 1u32,
            (v >> 19u32) & 1u32 != 1u32,
            (v >> 20u32) & 1u32 != 1u32,
            (v >> 21u32) & 1u32 != 1u32,
            (v >> 22u32) & 1u32 != 1u32,
            (v >> 23u32) & 1u32 != 1u32,
            (v >> 24u32) & 1u32 != 1u32,
            (v >> 25u32) & 1u32 != 1u32,
            (v >> 26u32) & 1u32 != 1u32,
            (v >> 27u32) & 1u32 != 1u32,
            (v >> 28u32) & 1u32 != 1u32,
            (v >> 29u32) & 1u32 != 1u32,
            (v >> 30u32) & 1u32 != 1u32,
            (v >> 31u32) & 1u32 != 1u32,
    ;
}


/// The network and host masks are complementary, so a network address has
/// no host bits.
pub proof fn lemma_net_host_disjoint(v: u32, n: u8)
    requires
        1 <= n <= 32,
    ensures
        (v & net_mask(n)) & host_mask(n) == 0,
{
    let m = net_mask(n);
    assert((v & m) & !m == 0) by (bit_vector);
}

/// The low-bits form of the host mask used by the checkers equals the
/// complement of the network mask.
pub proof fn lemma_host_mask_low_bits(n: u8)
    requires
        1 <= n <= 32,
    ensures
        host_mask(n) == ((1u32 << ((32 - n) as u32)) - 1) as u32,
{
    let k = (32 - n) as u32;
    assert(!(0xFFFF_FFFFu32 << k) == (1u32 << k) - 1) by (bit_vector)
        requires
            k < 32,
    ;
}

/// Usable host counts as powers of two: `2^(32-n) - 2` below /31.
pub proof fn lemma_max_hosts_pow2(n: u8)
    requires
        1 <= n <= 30,
    ensures
        spec_max_hosts(n) == pow2((32 - n) as nat) - 2,
        spec_max_hosts(n) >= 2,
{
    let k = (32 - n) as u32;
    lemma2_to64();
    assert(pow2(k as nat) <= pow2(31)) by {
        if (k as nat) < 31 {
            vstd::arithmetic::power2::lemma_pow2_strictly_increases(k as nat, 31);
        }
    }
    lemma_u32_shl_is_mul(1u32, k);
    assert(pow2(k as nat) >= pow2(2)) by {
        if 2 < (k as nat) {
            vstd::arithmetic::power2::lemma_pow2_strictly_increases(2, k as nat);
        }
    }
}

/// The numeric value of field `i` of a dotted-quad string.
pub open spec fn field_val(s: Seq<char>, i: int) -> u8 {
    uint_val(split_dots(s)[i]) as u8
}

/// The packed 32-bit value of a dotted-quad string.
pub open spec fn quad_num(s: Seq<char>) -> u32 {
    quad(field_val(s, 0), field_val(s, 1), field_val(s, 2), field_val(s, 3))
}

/// Reads the four octet values back out of a well-formed dotted-quad
/// string.
pub fn read_quad(s: &str) -> (r: (u8, u8, u8, u8))
    requires
        split_dots(s@).len() == 4,
        forall|i: int| 0 <= i < 4 ==> is_uint_str(#[trigger] split_dots(s@)[i], 255),
    ensures
        r.0 == field_val(s@, 0),
        r.1 == field_val(s@, 1),
        r.2 == field_val(s@, 2),
        r.3 == field_val(s@, 3),
{
    let fields = split_on_dots(s);
    proof {
        assert(fields@.map_values(|f: String| f@).len() == 4);
        assert(fields@[0]@ == split_dots(s@)[0]);
        assert(fields@[1]@ == split_dots(s@)[1]);
        assert(fields@[2]@ == split_dots(s@)[2]);
        assert(fields@[3]@ == split_dots(s@)[3]);
    }
    let a = match parse_uint(fields[0].as_str(), 255) {
        Some(v) => v as u8,
        None => vstd::pervasive::unreached(),
    };
    let b = match parse_uint(fields[1].as_str(), 255) {
        Some(v) => v as u8,
        None => vstd::pervasive::unreached(),
    };
    let c = match parse_uint(fields[2].as_str(), 255) {
        Some(v) => v as u8,
        None => vstd::pervasive::unreached(),
    };
    let d = match parse_uint(fields[3].as_str(), 255) {
        Some(v) => v as u8,
        None => vstd::pervasive::unreached(),
    };
    (a, b, c, d)
}

/// Network masks are contiguous.
pub proof fn lemma_net_mask_contiguous(n: u8)
    requires
        1 <= n <= 32,
    ensures
        contiguous(net_mask(n)),
{
    let m = net_mask(n);
    assert forall|j1: u32, j2: u32| j1 <= j2 < 32 && #[trigger] bit(m, j1) implies #[trigger] bit(
        m,
        j2,
    ) by {
        lemma_net_mask_bits(n, j1);
        lemma_net_mask_bits(n, j2);
    }
}

/// Below the lowest set bit of `v` at or above `i`, every bit is clear.
proof fn lemma_first_bit_from(v: u32, i: u32)
    requires
        i < 32,
        exists|j: u32| i <= j < 32 && #[trigger] bit(v, j),
    ensures
        exists|k: u32|
            i <= k < 32 && #[trigger] bit(v, k) && (forall|j: u32| i <= j < k ==> !bit(v, j)),
    decreases 32 - i,
{
    if bit(v, i) {
        assert(i <= i < 32 && bit(v, i) && (forall|j: u32| i <= j < i ==> !bit(v, j)));
    } else {
        assert(exists|j: u32| i + 1 <= j < 32 && #[trigger] bit(v, j)) by {
            let j0 = choose|j: u32| i <= j < 32 && #[trigger] bit(v, j);
            assert(i + 1 <= j0 < 32 && bit(v, j0));
        }
        lemma_first_bit_from(v, (i + 1) as u32);
        let k = choose|k: u32|
            i + 1 <= k < 32 && #[trigger] bit(v, k) && (forall|j: u32|
                i + 1 <= j < k ==> !bit(v, j));
        assert(forall|j: u32| i <= j < k ==> !bit(v, j));
    }
}

/// Every nonzero contiguous value is the network mask of some prefix
/// length.
pub proof fn lemma_contiguous_nonzero(v: u32) -> (n: u8)
    requires
        contiguous(v),
        v != 0,
    ensures
        1 <= n <= 32,
        v == net_mask(n),
{
    if forall|j: u32| j < 32 ==> !(#[trigger] bit(v, j)) {
        lemma_no_bits_zero(v);
    }
    assert(exists|j: u32| 0 <= j < 32 && #[trigger] bit(v, j));
    lemma_first_bit_from(v, 0);
    let k = choose|k: u32|
        0 <= k < 32 && #[trigger] bit(v, k) && (forall|j: u32| 0 <= j < k ==> !bit(v, j));
    let n = (32 - k) as u8;
    assert forall|j: u32| j < 32 implies (#[trigger] bit(v, j) <==> j >= 32 - n) by {
        if j >= k {
            assert(k <= j < 32 && bit(v, k) ==> bit(v, j));
        }
    }
    lemma_bits_net_mask(v, n);
    n
}

} // verus!
