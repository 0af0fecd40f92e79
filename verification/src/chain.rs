//! Why the reader may stop following a chain of directories after as many
//! links as the stream has bytes: a chain that goes on beyond that comes
//! back to a directory that it has passed, and never ends.

use vstd::prelude::*;

use crate::endian::Endianness;
use crate::error::TiffError;
use crate::reader::spec_u16_at;
use crate::tiff::{
    spec_entries, spec_entry, spec_ifd, spec_ifd_chain, spec_value_offset_size, TiffIfdEntryView,
    TiffIfdView,
};

verus! {

/// The offset of the directory of index `k` in the chain that starts at
/// `offset`, where the chain has so many directories.
pub open spec fn spec_chain_offset(
    bytes: Seq<u8>,
    offset: u32,
    e: Endianness,
    version: u16,
    k: nat,
) -> Option<u32>
    decreases k,
{
    if k == 0 {
        Some(offset)
    } else {
        match spec_chain_offset(bytes, offset, e, version, (k - 1) as nat) {
            None => None,
            Some(before) => match spec_ifd(bytes, before as int, e, version) {
                Ok(ifd) => ifd.next_ifd_offset,
                Err(_) => None,
            },
        }
    }
}

/// No entry fails as an endless chain.
proof fn lemma_entries_not_endless(bytes: Seq<u8>, pos: int, e: Endianness, slot: nat, n: nat)
    ensures
        spec_entries(bytes, pos, e, slot, n) != Err::<Seq<TiffIfdEntryView>, TiffError>(
            TiffError::EndlessIfdChain,
        ),
    decreases n,
{
    reveal(spec_entry);
    if n > 0 {
        lemma_entries_not_endless(bytes, pos, e, slot, (n - 1) as nat);
    }
}

/// No single directory fails as an endless chain, and one that is read
/// lies inside the stream.
proof fn lemma_ifd_alone(bytes: Seq<u8>, pos: int, e: Endianness, version: u16)
    ensures
        spec_ifd(bytes, pos, e, version) != Err::<TiffIfdView, TiffError>(
            TiffError::EndlessIfdChain,
        ),
        spec_ifd(bytes, pos, e, version) is Ok ==> 0 <= pos && pos + 2 <= bytes.len(),
{
    reveal(spec_ifd);
    if let Some(slot) = spec_value_offset_size(version) {
        if let Some(entry_count) = spec_u16_at(bytes, pos, e) {
            lemma_entries_not_endless(bytes, pos + 2, e, slot, entry_count as nat);
        }
    }
}

/// The directory of index `k + 1` of a chain is the directory of index `k`
/// of the chain that starts at the second directory.
proof fn lemma_chain_offset_shift(
    bytes: Seq<u8>,
    offset: u32,
    e: Endianness,
    version: u16,
    k: nat,
)
    ensures
        spec_chain_offset(bytes, offset, e, version, k + 1) == match spec_ifd(
            bytes,
            offset as int,
            e,
            version,
        ) {
            Ok(ifd) => match ifd.next_ifd_offset {
                Some(next) => spec_chain_offset(bytes, next, e, version, k),
                None => None,
            },
            Err(_) => None,
        },
    decreases k,
{
    reveal_with_fuel(spec_chain_offset, 3);
    if k > 0 {
        lemma_chain_offset_shift(bytes, offset, e, version, (k - 1) as nat);
        if let Ok(ifd) = spec_ifd(bytes, offset as int, e, version) {
            if let Some(next) = ifd.next_ifd_offset {
                assert(spec_chain_offset(bytes, offset, e, version, k) == spec_chain_offset(
                    bytes,
                    next,
                    e,
                    version,
                    (k - 1) as nat,
                ));
            }
        }
    }
}

/// A chain that has a directory of index `k` has one of every smaller index.
proof fn lemma_chain_offset_before(
    bytes: Seq<u8>,
    offset: u32,
    e: Endianness,
    version: u16,
    i: nat,
    k: nat,
)
    requires
        i <= k,
        spec_chain_offset(bytes, offset, e, version, k) is Some,
    ensures
        spec_chain_offset(bytes, offset, e, version, i) is Some,
    decreases k,
{
    if i < k {
        lemma_chain_offset_before(bytes, offset, e, version, i, (k - 1) as nat);
    }
}

/// Following a chain for `limit` links fails as endless exactly where the
/// chain has a directory of index `limit`.
proof fn lemma_endless_means_reached(
    bytes: Seq<u8>,
    offset: u32,
    e: Endianness,
    version: u16,
    limit: nat,
)
    ensures
        spec_ifd_chain(bytes, offset, e, version, limit) == Err::<Seq<TiffIfdView>, TiffError>(
            TiffError::EndlessIfdChain,
        ) <==> spec_chain_offset(bytes, offset, e, version, limit) is Some,
    decreases limit,
{
    if limit > 0 {
        lemma_ifd_alone(bytes, offset as int, e, version);
        lemma_chain_offset_shift(bytes, offset, e, version, (limit - 1) as nat);
        if let Ok(ifd) = spec_ifd(bytes, offset as int, e, version) {
            if let Some(next) = ifd.next_ifd_offset {
                lemma_endless_means_reached(bytes, next, e, version, (limit - 1) as nat);
            }
        }
    }
}

/// A chain that ends, or fails at a directory, within `limit` links gives
/// the same with any larger limit.
pub proof fn lemma_chain_limit_monotone(
    bytes: Seq<u8>,
    offset: u32,
    e: Endianness,
    version: u16,
    limit: nat,
    larger: nat,
)
    requires
        limit <= larger,
        spec_ifd_chain(bytes, offset, e, version, limit) != Err::<Seq<TiffIfdView>, TiffError>(
            TiffError::EndlessIfdChain,
        ),
    ensures
        spec_ifd_chain(bytes, offset, e, version, larger) == spec_ifd_chain(
            bytes,
            offset,
            e,
            version,
            limit,
        ),
    decreases limit,
{
    if let Ok(ifd) = spec_ifd(bytes, offset as int, e, version) {
        if let Some(next) = ifd.next_ifd_offset {
            lemma_chain_limit_monotone(
                bytes,
                next,
                e,
                version,
                (limit - 1) as nat,
                (larger - 1) as nat,
            );
        }
    }
}

/// Of `n` numbers below `m`, where `n` is more than `m`, two are equal.
proof fn lemma_pigeonhole(f: spec_fn(int) -> int, n: nat, m: nat)
    requires
        n > m,
        forall|k: int| 0 <= k < n ==> 0 <= #[trigger] f(k) < m,
    ensures
        exists|i: int, j: int| 0 <= i < j < n && #[trigger] f(i) == #[trigger] f(j),
    decreases m,
{
    if m == 0 {
        let first: int = 0;
        assert(0 <= f(first) < m);
    } else if exists|k: int| 0 <= k < n && #[trigger] f(k) == m - 1 {
        let k0 = choose|k: int| 0 <= k < n && #[trigger] f(k) == m - 1;
        if exists|k: int| 0 <= k < n && k != k0 && #[trigger] f(k) == m - 1 {
            let k1 = choose|k: int| 0 <= k < n && k != k0 && #[trigger] f(k) == m - 1;
            if k0 < k1 {
                assert(0 <= k0 < k1 < n && f(k0) == f(k1));
            } else {
                assert(0 <= k1 < k0 < n && f(k1) == f(k0));
            }
        } else {
            // Leave out the one number that is m - 1.
            let g = |k: int|
                if k < k0 {
                    f(k)
                } else {
                    f(k + 1)
                };
            assert forall|k: int| 0 <= k < n - 1 implies 0 <= #[trigger] g(k) < m - 1 by {
                if k < k0 {
                    assert(0 <= f(k) < m);
                } else {
                    assert(0 <= f(k + 1) < m);
                }
            }
            lemma_pigeonhole(g, (n - 1) as nat, (m - 1) as nat);
            let (i, j) = choose|i: int, j: int|
                0 <= i < j < n - 1 && #[trigger] g(i) == #[trigger] g(j);
            let i2 = if i < k0 {
                i
            } else {
                i + 1
            };
            let j2 = if j < k0 {
                j
            } else {
                j + 1
            };
            assert(0 <= i2 < j2 < n && f(i2) == f(j2));
        }
    } else {
        assert forall|k: int| 0 <= k < n implies 0 <= #[trigger] f(k) < m - 1 by {
            assert(0 <= f(k) < m);
        }
        lemma_pigeonhole(f, n, (m - 1) as nat);
    }
}

/// From two indices with the same directory on, a chain repeats itself.
proof fn lemma_chain_repeats(
    bytes: Seq<u8>,
    offset: u32,
    e: Endianness,
    version: u16,
    i: nat,
    j: nat,
    t: nat,
)
    requires
        spec_chain_offset(bytes, offset, e, version, i) == spec_chain_offset(
            bytes,
            offset,
            e,
            version,
            j,
        ),
    ensures
        spec_chain_offset(bytes, offset, e, version, i + t) == spec_chain_offset(
            bytes,
            offset,
            e,
            version,
            j + t,
        ),
    decreases t,
{
    if t > 0 {
        lemma_chain_repeats(bytes, offset, e, version, i, j, (t - 1) as nat);
    }
}

/// A chain that passes a directory twice has a directory of every index.
proof fn lemma_chain_goes_on(
    bytes: Seq<u8>,
    offset: u32,
    e: Endianness,
    version: u16,
    i: nat,
    j: nat,
    k: nat,
)
    requires
        i < j,
        spec_chain_offset(bytes, offset, e, version, j) is Some,
        spec_chain_offset(bytes, offset, e, version, i) == spec_chain_offset(
            bytes,
            offset,
            e,
            version,
            j,
        ),
    ensures
        spec_chain_offset(bytes, offset, e, version, k) is Some,
    decreases k,
{
    if k <= j {
        lemma_chain_offset_before(bytes, offset, e, version, k, j);
    } else {
        let t = (k - j) as nat;
        lemma_chain_goes_on(bytes, offset, e, version, i, j, i + t);
        lemma_chain_repeats(bytes, offset, e, version, i, j, t);
    }
}

/// A chain in a stream of `n` bytes that has a directory of index `n` has
/// a directory of every index.
proof fn lemma_long_chain_goes_on(
    bytes: Seq<u8>,
    offset: u32,
    e: Endianness,
    version: u16,
    k: nat,
)
    requires
        bytes.len() >= 1,
        spec_chain_offset(bytes, offset, e, version, bytes.len()) is Some,
    ensures
        spec_chain_offset(bytes, offset, e, version, k) is Some,
{
    let n = bytes.len();
    let f = |i: int| spec_chain_offset(bytes, offset, e, version, i as nat).unwrap() as int;
    assert forall|i: int| 0 <= i < n implies 0 <= #[trigger] f(i) < n - 1 by {
        // The directory of index i is read, since the chain goes on behind it.
        lemma_chain_offset_before(bytes, offset, e, version, (i + 1) as nat, n);
        lemma_chain_offset_before(bytes, offset, e, version, i as nat, n);
        let here = spec_chain_offset(bytes, offset, e, version, i as nat).unwrap();
        assert(spec_chain_offset(bytes, offset, e, version, (i + 1) as nat) is Some);
        assert(spec_ifd(bytes, here as int, e, version) is Ok);
        lemma_ifd_alone(bytes, here as int, e, version);
    }
    lemma_pigeonhole(f, n, (n - 1) as nat);
    let (i, j) = choose|i: int, j: int| 0 <= i < j < n && #[trigger] f(i) == #[trigger] f(j);
    lemma_chain_offset_before(bytes, offset, e, version, i as nat, n);
    lemma_chain_offset_before(bytes, offset, e, version, j as nat, n);
    lemma_chain_goes_on(bytes, offset, e, version, i as nat, j as nat, k);
}

/// The limit on the length of a chain takes nothing away: following a chain
/// for as many links as the stream has bytes gives what following it for
/// any greater number of links gives. A chain that is refused as endless is
/// refused at every limit, because it passes some directory twice; any
/// other chain has ended or failed before the limit.
pub proof fn lemma_chain_limit_is_no_restriction(
    bytes: Seq<u8>,
    offset: u32,
    e: Endianness,
    version: u16,
    limit: nat,
)
    requires
        bytes.len() >= 1,
        limit >= bytes.len(),
    ensures
        spec_ifd_chain(bytes, offset, e, version, limit) == spec_ifd_chain(
            bytes,
            offset,
            e,
            version,
            bytes.len(),
        ),
{
    let n = bytes.len();
    if spec_ifd_chain(bytes, offset, e, version, n) == Err::<Seq<TiffIfdView>, TiffError>(
        TiffError::EndlessIfdChain,
    ) {
        lemma_endless_means_reached(bytes, offset, e, version, n);
        lemma_long_chain_goes_on(bytes, offset, e, version, limit);
        lemma_endless_means_reached(bytes, offset, e, version, limit);
    } else {
        lemma_chain_limit_monotone(bytes, offset, e, version, n, limit);
    }
}

} // verus!
