//! Which addresses a network covers, bit by bit.

use vstd::prelude::*;
use crate::net::{leading, masked, prefix_mask, unit, Address, Network};

verus! {

/// The bits of a byte, the highest first.
pub open spec fn bit_of(byte: u8, i: int) -> int {
    if i == 0 {
        (byte / 128) as int
    } else if i == 1 {
        (byte / 64) as int % 2
    } else if i == 2 {
        (byte / 32) as int % 2
    } else if i == 3 {
        (byte / 16) as int % 2
    } else if i == 4 {
        (byte / 8) as int % 2
    } else if i == 5 {
        (byte / 4) as int % 2
    } else if i == 6 {
        (byte / 2) as int % 2
    } else {
        byte as int % 2
    }
}

/// The bits of an address, the highest of its first byte first.
pub open spec fn bit_at(octets: Seq<u8>, i: int) -> int {
    bit_of(octets[i / 8], i % 8)
}

spec fn bits_agree(a: u8, b: u8, kept: int) -> bool {
    forall|i: int| 0 <= i < kept && i < 8 ==> #[trigger] bit_of(a, i) == bit_of(b, i)
}

proof fn leading_bits(a: u8, b: u8, kept: int)
    ensures
        leading(a, kept) == leading(b, kept) <==> bits_agree(a, b, kept),
{
    if bits_agree(a, b, kept) {
        assert(kept > 0 ==> bit_of(a, 0) == bit_of(b, 0));
        assert(kept > 1 ==> bit_of(a, 1) == bit_of(b, 1));
        assert(kept > 2 ==> bit_of(a, 2) == bit_of(b, 2));
        assert(kept > 3 ==> bit_of(a, 3) == bit_of(b, 3));
        assert(kept > 4 ==> bit_of(a, 4) == bit_of(b, 4));
        assert(kept > 5 ==> bit_of(a, 5) == bit_of(b, 5));
        assert(kept > 6 ==> bit_of(a, 6) == bit_of(b, 6));
        assert(kept > 7 ==> bit_of(a, 7) == bit_of(b, 7));
        if kept == 1 {
            assert(a - a % 128 == b - b % 128) by (bit_vector)
                requires
                    a / 128 == b / 128,
            ;
        }
        if kept == 2 {
            assert(a - a % 64 == b - b % 64) by (bit_vector)
                requires
                    a / 128 == b / 128,
                    (a / 64) % 2 == (b / 64) % 2,
            ;
        }
        if kept == 3 {
            assert(a - a % 32 == b - b % 32) by (bit_vector)
                requires
                    a / 128 == b / 128,
                    (a / 64) % 2 == (b / 64) % 2,
                    (a / 32) % 2 == (b / 32) % 2,
            ;
        }
        if kept == 4 {
            assert(a - a % 16 == b - b % 16) by (bit_vector)
                requires
                    a / 128 == b / 128,
                    (a / 64) % 2 == (b / 64) % 2,
                    (a / 32) % 2 == (b / 32) % 2,
                    (a / 16) % 2 == (b / 16) % 2,
            ;
        }
        if kept == 5 {
            assert(a - a % 8 == b - b % 8) by (bit_vector)
                requires
                    a / 128 == b / 128,
                    (a / 64) % 2 == (b / 64) % 2,
                    (a / 32) % 2 == (b / 32) % 2,
                    (a / 16) % 2 == (b / 16) % 2,
                    (a / 8) % 2 == (b / 8) % 2,
            ;
        }
        if kept == 6 {
            assert(a - a % 4 == b - b % 4) by (bit_vector)
                requires
                    a / 128 == b / 128,
                    (a / 64) % 2 == (b / 64) % 2,
                    (a / 32) % 2 == (b / 32) % 2,
                    (a / 16) % 2 == (b / 16) % 2,
                    (a / 8) % 2 == (b / 8) % 2,
                    (a / 4) % 2 == (b / 4) % 2,
            ;
        }
        if kept == 7 {
            assert(a - a % 2 == b - b % 2) by (bit_vector)
                requires
                    a / 128 == b / 128,
                    (a / 64) % 2 == (b / 64) % 2,
                    (a / 32) % 2 == (b / 32) % 2,
                    (a / 16) % 2 == (b / 16) % 2,
                    (a / 8) % 2 == (b / 8) % 2,
                    (a / 4) % 2 == (b / 4) % 2,
                    (a / 2) % 2 == (b / 2) % 2,
            ;
        }
        if kept >= 8 {
            assert(a == b) by (bit_vector)
                requires
                    a / 128 == b / 128,
                    (a / 64) % 2 == (b / 64) % 2,
                    (a / 32) % 2 == (b / 32) % 2,
                    (a / 16) % 2 == (b / 16) % 2,
                    (a / 8) % 2 == (b / 8) % 2,
                    (a / 4) % 2 == (b / 4) % 2,
                    (a / 2) % 2 == (b / 2) % 2,
                    a % 2 == b % 2,
            ;
        }
    }
    if leading(a, kept) == leading(b, kept) {
        assert forall|i: int| 0 <= i < kept && i < 8 implies #[trigger] bit_of(a, i) == bit_of(
            b,
            i,
        ) by {
            kept_bits(a, kept, i);
            kept_bits(b, kept, i);
        }
    }
}

/// A network covers an address exactly when both are of one family and the
/// leading bits of the address, as many as the prefix is long, are those of
/// the network.
pub proof fn networks_cover_by_their_leading_bits(network: Network, address: Address)
    requires
        network.octets.len() == 16,
        address.octets.len() == 16,
        network.prefix_len <= 128,
    ensures
        network.covers(address) <==> network.v4 == address.v4 && forall|i: int|
            0 <= i < network.prefix_len ==> #[trigger] bit_at(network.octets, i) == bit_at(
                address.octets,
                i,
            ),
{
    let p = network.prefix_len as int;
    let a = network.octets;
    let b = address.octets;
    if masked(a, p) == masked(b, p) {
        assert forall|i: int| 0 <= i < p implies #[trigger] bit_at(a, i) == bit_at(b, i) by {
            let k = i / 8;
            assert(masked(a, p)[k] == masked(b, p)[k]);
            leading_bits(a[k], b[k], p - 8 * k);
            assert(bit_of(a[k], i % 8) == bit_of(b[k], i % 8));
        }
    }
    if forall|i: int| 0 <= i < p ==> #[trigger] bit_at(a, i) == bit_at(b, i) {
        assert forall|k: int| 0 <= k < 16 implies #[trigger] masked(a, p)[k] == masked(b, p)[k] by {
            assert forall|i: int| 0 <= i < p - 8 * k && i < 8 implies #[trigger] bit_of(a[k], i)
                == bit_of(b[k], i) by {
                assert(bit_at(a, 8 * k + i) == bit_at(b, 8 * k + i));
                assert((8 * k + i) / 8 == k && (8 * k + i) % 8 == i);
            }
            leading_bits(a[k], b[k], p - 8 * k);
        }
        assert(masked(a, p) =~= masked(b, p));
    }
}

/// Clearing what stands behind a prefix keeps the bits of the prefix and makes
/// all others zero, and the mask of a prefix has just its bits set.
pub proof fn prefixes_keep_their_bits(octets: Seq<u8>, prefix_len: int, i: int)
    requires
        octets.len() == 16,
        0 <= prefix_len <= 128,
        0 <= i < 128,
    ensures
        i < prefix_len ==> bit_at(masked(octets, prefix_len), i) == bit_at(octets, i),
        i >= prefix_len ==> bit_at(masked(octets, prefix_len), i) == 0,
        i < prefix_len ==> bit_at(prefix_mask(16, prefix_len), i) == 1,
        i >= prefix_len ==> bit_at(prefix_mask(16, prefix_len), i) == 0,
{
    let k = i / 8;
    kept_bits(octets[k], prefix_len - 8 * k, i % 8);
    assert(masked(octets, prefix_len)[k] == leading(octets[k], prefix_len - 8 * k));
    assert(prefix_mask(16, prefix_len)[k] == (256 - unit(prefix_len - 8 * k)) as u8);
}

#[verifier::spinoff_prover]
proof fn kept_bits(byte: u8, kept: int, i: int)
    requires
        0 <= i < 8,
    ensures
        i < kept ==> bit_of(leading(byte, kept), i) == bit_of(byte, i),
        i >= kept ==> bit_of(leading(byte, kept), i) == 0,
        i < kept ==> bit_of((256 - unit(kept)) as u8, i) == 1,
        i >= kept ==> bit_of((256 - unit(kept)) as u8, i) == 0,
{
}

} // verus!
