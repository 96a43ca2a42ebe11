//! The bin permutation of the spectral shuffle: bins move among the bins of
//! their block, chosen and placed at random.
use rand::rngs::SmallRng;
use rand::seq::SliceRandom;
use vstd::prelude::*;

verus! {

#[verifier::external_type_specification]
#[verifier::external_body]
pub struct ExSmallRng(SmallRng);

/// `SliceRandom::shuffle`: the same bins in a random order.
#[verifier::external_body]
fn shuffle_bins(bins: &mut Vec<usize>, rng: &mut SmallRng)
    ensures
        final(bins)@.to_multiset() == old(bins)@.to_multiset(),
{
    bins.shuffle(rng)
}

/// `p` maps the positions `0..len` one to one onto themselves.
pub open spec fn is_permutation(p: Seq<usize>) -> bool {
    &&& forall|i: int| 0 <= i < p.len() ==> #[trigger] p[i] < p.len()
    &&& forall|i: int, j: int| 0 <= i < p.len() && 0 <= j < p.len() && i != j ==> #[trigger] p[i] != #[trigger] p[j]
}

/// The blocks from `start` on: runs of `size` bins up to `nyquist`, the
/// last one shorter where they do not divide evenly.
pub open spec fn blocks_from(start: int, size: int, nyquist: int) -> Seq<(usize, usize)>
    decreases nyquist - start,
{
    if size <= 0 || start >= nyquist {
        Seq::empty()
    } else {
        let end = if start + size < nyquist {
            start + size
        } else {
            nyquist
        };
        seq![(start as usize, end as usize)] + blocks_from(end, size, nyquist)
    }
}

/// The blocks a shuffle moves bins within: bins 1 to `nyquist - 1` in runs
/// of `locality` bins, or in a single run at locality 0.
pub open spec fn spec_shuffle_blocks(nyquist: int, locality: int) -> Seq<(usize, usize)> {
    if nyquist <= 1 {
        Seq::empty()
    } else {
        blocks_from(1, if locality == 0 { nyquist - 1 } else { locality }, nyquist)
    }
}

/// The blocks from `start` cut `start..nyquist` into consecutive runs of
/// `size` bins, the last one possibly shorter.
pub proof fn lemma_blocks_tile(start: int, size: int, nyquist: int)
    requires
        0 <= start <= nyquist <= usize::MAX,
        size > 0,
    ensures
        ({
            let b = blocks_from(start, size, nyquist);
            &&& b.len() > 0 <==> start < nyquist
            &&& b.len() > 0 ==> b[0].0 == start && b.last().1 == nyquist
            &&& forall|i: int| 0 <= i < b.len() ==> (#[trigger] b[i]).0 < b[i].1 <= b[i].0 + size
            &&& forall|i: int| 0 <= i < b.len() - 1 ==> (#[trigger] b[i]).1 == b[i + 1].0 && b[i].1 - b[i].0 == size
        }),
    decreases nyquist - start,
{
    if start < nyquist {
        let end = if start + size < nyquist {
            start + size
        } else {
            nyquist
        };
        lemma_blocks_tile(end, size, nyquist);
        let rest = blocks_from(end, size, nyquist);
        let b = blocks_from(start, size, nyquist);
        assert(b == seq![(start as usize, end as usize)] + rest);
        assert forall|i: int| 0 <= i < b.len() implies (#[trigger] b[i]).0 < b[i].1 <= b[i].0 + size by {
            if i > 0 {
                assert(b[i] == rest[i - 1]);
            }
        }
        assert forall|i: int| 0 <= i < b.len() - 1 implies (#[trigger] b[i]).1 == b[i + 1].0 && b[i].1 - b[i].0
            == size by {
            assert(b[i + 1] == rest[i]);
            if i > 0 {
                assert(b[i] == rest[i - 1]);
            } else {
                assert(rest.len() > 0);
                assert(end < nyquist);
            }
        }
        if rest.len() > 0 {
            assert(b.last() == rest.last());
        }
    }
}

/// A shuffle moves bins within consecutive blocks that cover bins 1 to
/// `nyquist - 1` exactly: blocks of `locality` bins, the last possibly
/// shorter, or one block of them all at locality 0.
pub proof fn lemma_shuffle_blocks_cover(nyquist: int, locality: int)
    requires
        0 <= nyquist <= usize::MAX,
        locality >= 0,
    ensures
        ({
            let b = spec_shuffle_blocks(nyquist, locality);
            let size = if locality == 0 {
                nyquist - 1
            } else {
                locality
            };
            &&& b.len() > 0 <==> nyquist > 1
            &&& b.len() > 0 ==> b[0].0 == 1 && b.last().1 == nyquist
            &&& forall|i: int| 0 <= i < b.len() ==> (#[trigger] b[i]).0 < b[i].1 <= b[i].0 + size
            &&& forall|i: int| 0 <= i < b.len() - 1 ==> (#[trigger] b[i]).1 == b[i + 1].0 && b[i].1 - b[i].0 == size
        }),
{
    if nyquist > 1 {
        lemma_blocks_tile(1, if locality == 0 { nyquist - 1 } else { locality }, nyquist);
    }
}

/// The blocks a shuffle of `nyquist + 1` bins moves bins within.
pub fn shuffle_blocks(nyquist: usize, locality: usize) -> (r: Vec<(usize, usize)>)
    ensures
        r@ == spec_shuffle_blocks(nyquist as int, locality as int),
{
    let mut out: Vec<(usize, usize)> = Vec::new();
    if nyquist <= 1 {
        return out;
    }
    let size = if locality == 0 {
        nyquist - 1
    } else {
        locality
    };
    let mut start: usize = 1;
    while start < nyquist
        invariant
            1 <= start <= nyquist,
            size > 0,
            spec_shuffle_blocks(nyquist as int, locality as int) == out@ + blocks_from(start as int, size as int, nyquist as int),
        decreases nyquist - start,
    {
        let end = if size < nyquist - start {
            start + size
        } else {
            nyquist
        };
        let ghost before = out@;
        out.push((start, end));
        assert(before + blocks_from(start as int, size as int, nyquist as int) =~= out@ + blocks_from(end as int, size as int, nyquist as int));
        start = end;
    }
    assert(out@ + blocks_from(start as int, size as int, nyquist as int) =~= out@);
    out
}

/// Every bin in its own place.
pub fn identity_permutation(len: usize) -> (r: Vec<usize>)
    ensures
        r@.len() == len,
        forall|i: int| 0 <= i < len ==> #[trigger] r@[i] == i,
        is_permutation(r@),
{
    let mut r: Vec<usize> = Vec::new();
    let mut i: usize = 0;
    while i < len
        invariant
            i <= len,
            r@.len() == i,
            forall|j: int| 0 <= j < i ==> #[trigger] r@[j] == j,
        decreases len - i,
    {
        r.push(i);
        i = i + 1;
    }
    r
}

proof fn lemma_same_entries(a: Seq<usize>, b: Seq<usize>)
    requires
        a.to_multiset() == b.to_multiset(),
        a.no_duplicates(),
    ensures
        b.no_duplicates(),
        a.len() == b.len(),
        forall|x: usize| a.contains(x) <==> b.contains(x),
{
    a.to_multiset_ensures();
    b.to_multiset_ensures();
    assert(a.to_multiset().len() == b.to_multiset().len());
    a.lemma_multiset_has_no_duplicates();
    b.lemma_multiset_has_no_duplicates_conv();
    assert forall|x: usize| a.contains(x) <==> b.contains(x) by {
        a.to_multiset_ensures();
        b.to_multiset_ensures();
        assert(a.contains(x) <==> a.to_multiset().count(x) > 0);
        assert(b.contains(x) <==> b.to_multiset().count(x) > 0);
    }
}

/// The bins of `start..end` that a permutation moves away from their place.
pub open spec fn displaced(p: Seq<usize>, start: int, end: int) -> Set<int> {
    Set::new(|i: int| start <= i < end && p[i] != i)
}

/// `new_p` is `old_p` with the bin at position `sources[j]` sent to
/// `destinations[j]`, for every `j`; every other position kept.
pub open spec fn bins_placed(old_p: Seq<usize>, new_p: Seq<usize>, sources: Seq<usize>, destinations: Seq<usize>) -> bool {
    &&& new_p.len() == old_p.len()
    &&& forall|j: int| 0 <= j < sources.len() ==> new_p[#[trigger] sources[j] as int] == destinations[j]
    &&& forall|i: int| 0 <= i < old_p.len() && !sources.contains(i as usize) ==> #[trigger] new_p[i] == old_p[i]
}

/// Sends the bin at each position `sources[j]` to `destinations[j]`; every
/// other position keeps its bin.
pub fn place_bins(permutation: &mut Vec<usize>, sources: &[usize], destinations: &[usize])
    requires
        sources@.len() == destinations@.len(),
        sources@.no_duplicates(),
        destinations@.no_duplicates(),
        forall|x: usize| sources@.contains(x) <==> destinations@.contains(x),
        forall|j: int| 0 <= j < sources@.len() ==> #[trigger] sources@[j] < old(permutation)@.len(),
    ensures
        forall|j: int| 0 <= j < sources@.len() ==> final(permutation)@[#[trigger] sources@[j] as int] == destinations@[j],
        forall|i: int|
            0 <= i < old(permutation)@.len() && !sources@.contains(i as usize) ==> #[trigger] final(permutation)@[i]
                == old(permutation)@[i],
        bins_placed(old(permutation)@, final(permutation)@, sources@, destinations@),
{
    let ghost old_perm = permutation@;
    let n = sources.len();
    let mut k: usize = 0;
    while k < n
        invariant
            k <= n,
            n == sources@.len(),
            n == destinations@.len(),
            sources@.no_duplicates(),
            forall|j: int| 0 <= j < n ==> #[trigger] sources@[j] < old_perm.len(),
            permutation@.len() == old_perm.len(),
            forall|j: int| 0 <= j < k ==> #[trigger] permutation@[sources@[j] as int] == destinations@[j],
            forall|i: int|
                0 <= i < old_perm.len() && !(exists|j: int| 0 <= j < k && sources@[j] == i) ==> #[trigger] permutation@[i]
                    == old_perm[i],
        decreases n - k,
    {
        let src = sources[k];
        let ghost before = permutation@;
        permutation.set(src, destinations[k]);
        k = k + 1;
        proof {
            assert forall|j: int| 0 <= j < k implies #[trigger] permutation@[sources@[j] as int] == destinations@[j] by {
                if j < k - 1 {
                    assert(sources@[j] != sources@[k - 1]);
                    assert(permutation@[sources@[j] as int] == before[sources@[j] as int]);
                }
            }
            assert forall|i: int|
                0 <= i < old_perm.len() && !(exists|j: int| 0 <= j < k && sources@[j] == i) implies #[trigger] permutation@[i]
                    == old_perm[i] by {
                assert(sources@[k - 1] != i);
                assert(!(exists|j: int| 0 <= j < k - 1 && sources@[j] == i));
            }
        }
    }
    proof {
        assert forall|i: int| 0 <= i < old_perm.len() && !sources@.contains(i as usize) implies #[trigger] permutation@[i] == old_perm[i] by {
            if exists|j: int| 0 <= j < n && sources@[j] == i {
                let j = choose|j: int| 0 <= j < n && sources@[j] == i;
                assert(sources@[j] == i as usize);
            }
        }
    }
}

/// The bins `start..end` in order.
pub open spec fn block_bins(start: int, end: int) -> Seq<usize> {
    Seq::new((end - start) as nat, |k: int| (start + k) as usize)
}

/// How many bins of the block `start..end` a shuffle selects: `selected`,
/// or the whole block where that is larger.
pub open spec fn selected_count(start: int, end: int, selected: int) -> int {
    if selected < end - start {
        selected
    } else {
        end - start
    }
}

/// `order` is an order of the bins of the block and `destinations` an order
/// of its first `selected` bins (of all of them where `selected` is
/// larger): the two draws of a shuffle of the block.
pub open spec fn drawn_from_block(order: Seq<usize>, destinations: Seq<usize>, start: int, end: int, selected: int) -> bool {
    &&& 0 <= selected_count(start, end, selected) <= order.len()
    &&& order.to_multiset() == block_bins(start, end).to_multiset()
    &&& destinations.to_multiset() == order.take(selected_count(start, end, selected)).to_multiset()
}

/// `new_p` is `old_p` after the shuffle of a block that drew `order` and
/// `destinations`: the first bins of `order` are sent to `destinations`.
pub open spec fn block_shuffled_by(
    old_p: Seq<usize>,
    new_p: Seq<usize>,
    start: int,
    end: int,
    selected: int,
    order: Seq<usize>,
    destinations: Seq<usize>,
) -> bool {
    &&& drawn_from_block(order, destinations, start, end, selected)
    &&& bins_placed(old_p, new_p, order.take(selected_count(start, end, selected)), destinations)
}

/// `new_p` is `old_p` after a shuffle of the block `start..end` with some
/// pair of draws.
pub open spec fn block_shuffled(old_p: Seq<usize>, new_p: Seq<usize>, start: int, end: int, selected: int) -> bool {
    exists|order: Seq<usize>, destinations: Seq<usize>|
        block_shuffled_by(old_p, new_p, start, end, selected, order, destinations)
}

/// Moves `selected` bins of the block `start..end` among themselves: the
/// first `selected` bins of a random order of the block (all of them where
/// `selected` is larger) are sent to a random order of themselves. Fewer
/// than two selected bins move none. Bins outside the block keep their
/// place; a permutation that had every bin of the block in its own place
/// stays a permutation, and the bins of the block stay in the block.
pub fn shuffle_block(permutation: &mut Vec<usize>, start: usize, end: usize, selected: usize, rng: &mut SmallRng)
    requires
        start <= end <= old(permutation)@.len(),
    ensures
        final(permutation)@.len() == old(permutation)@.len(),
        forall|i: int|
            0 <= i < old(permutation)@.len() && !(start <= i < end) ==> #[trigger] final(permutation)@[i]
                == old(permutation)@[i],
        (forall|i: int| start <= i < end ==> #[trigger] old(permutation)@[i] == i) ==> {
            &&& forall|i: int| start <= i < end ==> start <= #[trigger] final(permutation)@[i] < end
            &&& is_permutation(old(permutation)@) ==> is_permutation(final(permutation)@)
        },
        selected <= 1 ==> final(permutation)@ == old(permutation)@,
        selected > 1 ==> block_shuffled(old(permutation)@, final(permutation)@, start as int, end as int, selected as int),
        (forall|i: int| start <= i < end ==> #[trigger] old(permutation)@[i] == i) ==> {
            &&& displaced(final(permutation)@, start as int, end as int).finite()
            &&& displaced(final(permutation)@, start as int, end as int).len() <= selected
        },
{
    if selected <= 1 {
        proof {
            if forall|i: int| start <= i < end ==> #[trigger] old(permutation)@[i] == i {
                assert(displaced(permutation@, start as int, end as int) =~= Set::<int>::empty());
            }
        }
        return;
    }
    let mut bins: Vec<usize> = Vec::new();
    let mut b = start;
    while b < end
        invariant
            start <= b <= end,
            bins@.len() == b - start,
            forall|j: int| 0 <= j < bins@.len() ==> #[trigger] bins@[j] == start + j,
        decreases end - b,
    {
        bins.push(b);
        b = b + 1;
    }
    let ghost block = bins@;
    assert(block =~= block_bins(start as int, end as int));
    assert(block.no_duplicates());
    shuffle_bins(&mut bins, rng);
    let ghost shuffled = bins@;
    proof {
        lemma_same_entries(block, bins@);
    }
    let count = if selected < bins.len() {
        selected
    } else {
        bins.len()
    };
    bins.truncate(count);
    let ghost sources = bins@;
    assert(sources =~= shuffled.take(count as int));
    assert(sources.no_duplicates());
    let mut destinations: Vec<usize> = Vec::new();
    let mut k: usize = 0;
    while k < bins.len()
        invariant
            k <= bins@.len(),
            destinations@ == bins@.take(k as int),
        decreases bins@.len() - k,
    {
        destinations.push(bins[k]);
        k = k + 1;
        assert(destinations@ =~= bins@.take(k as int));
    }
    assert(destinations@ =~= sources);
    shuffle_bins(&mut destinations, rng);
    proof {
        lemma_same_entries(sources, destinations@);
        assert forall|x: usize| sources.contains(x) implies start <= x < end by {
            let j = choose|j: int| 0 <= j < sources.len() && sources[j] == x;
            assert(shuffled[j] == x);
            assert(shuffled.contains(x));
            assert(block.contains(x));
            let i = choose|i: int| 0 <= i < block.len() && block[i] == x;
            assert(block[i] == start + i);
        }
        assert forall|j: int| 0 <= j < sources.len() implies #[trigger] sources[j] < permutation@.len() by {
            assert(sources.contains(sources[j]));
        }
    }
    let ghost old_perm = permutation@;
    place_bins(permutation, bins.as_slice(), destinations.as_slice());
    let plen = permutation.len();
    proof {
        assert(block_shuffled_by(old_perm, permutation@, start as int, end as int, selected as int, shuffled, destinations@));
        assert forall|i: int| 0 <= i < old_perm.len() && !(start <= i < end) implies #[trigger] permutation@[i] == old_perm[i] by {
            if sources.contains(i as usize) {
                assert(start <= (i as usize) < end);
            }
        }
        assert forall|i: int| start <= i < end && old_perm[i] == i implies start <= #[trigger] permutation@[i] < end by {
            if sources.contains(i as usize) {
                let j = choose|j: int| 0 <= j < sources.len() && sources[j] == i as usize;
                assert(destinations@.contains(destinations@[j]));
            }
        }
        if (forall|i: int| start <= i < end ==> #[trigger] old_perm[i] == i) && is_permutation(old_perm) {
            let p = permutation@;
            assert forall|i: int| 0 <= i < p.len() implies #[trigger] p[i] < p.len() by {
                if sources.contains(i as usize) {
                    let j = choose|j: int| 0 <= j < sources.len() && sources[j] == i as usize;
                    assert(destinations@.contains(destinations@[j]));
                }
            }
            assert forall|i: int, j: int| 0 <= i < p.len() && 0 <= j < p.len() && i != j implies #[trigger] p[i] != #[trigger] p[j] by {
                let si = sources.contains(i as usize);
                let sj = sources.contains(j as usize);
                if si && sj {
                    let a = choose|a: int| 0 <= a < sources.len() && sources[a] == i as usize;
                    let c = choose|c: int| 0 <= c < sources.len() && sources[c] == j as usize;
                    assert((i as usize) as int == i && (j as usize) as int == j);
                    assert(a != c);
                    assert(p[sources[a] as int] == destinations@[a]);
                    assert(p[sources[c] as int] == destinations@[c]);
                } else if si {
                    let a = choose|a: int| 0 <= a < sources.len() && sources[a] == i as usize;
                    assert(destinations@.contains(p[i]));
                    assert(sources.contains(p[i]));
                    if start <= j < end {
                        assert(p[j] == j);
                    } else {
                        assert(p[j] == old_perm[j]);
                        if start <= old_perm[j] < end {
                            assert(old_perm[old_perm[j] as int] == old_perm[j]);
                        }
                    }
                } else if sj {
                    let c = choose|c: int| 0 <= c < sources.len() && sources[c] == j as usize;
                    assert(destinations@.contains(p[j]));
                    assert(sources.contains(p[j]));
                    if start <= i < end {
                        assert(p[i] == i);
                    } else {
                        assert(p[i] == old_perm[i]);
                        if start <= old_perm[i] < end {
                            assert(old_perm[old_perm[i] as int] == old_perm[i]);
                        }
                    }
                } else {
                    assert(p[i] == old_perm[i]);
                    assert(p[j] == old_perm[j]);
                }
            }
        }
        if forall|i: int| start <= i < end ==> #[trigger] old_perm[i] == i {
            let moved = displaced(permutation@, start as int, end as int);
            let ints = sources.map_values(|x: usize| x as int);
            assert forall|i: int| moved.contains(i) implies ints.to_set().contains(i) by {
                assert(permutation@[i] != old_perm[i]);
                assert(sources.contains(i as usize));
                let j = choose|j: int| 0 <= j < sources.len() && sources[j] == i as usize;
                assert(ints[j] == i);
                assert(ints.contains(i));
            }
            ints.lemma_cardinality_of_set();
            vstd::seq_lib::seq_to_set_is_finite(ints);
            vstd::set_lib::lemma_len_subset(moved, ints.to_set());
        }
    }
}

/// The blocks run one after another from `start` to `nyquist`, each
/// non-empty.
proof fn lemma_blocks_from(start: int, size: int, nyquist: int)
    requires
        size > 0,
        0 <= start <= nyquist,
        nyquist <= usize::MAX,
    ensures
        ({
            let b = blocks_from(start, size, nyquist);
            &&& b.len() == 0 <==> start == nyquist
            &&& b.len() > 0 ==> b[0].0 == start && b[b.len() - 1].1 == nyquist
            &&& forall|k: int| 0 <= k < b.len() ==> #[trigger] b[k].0 < b[k].1 <= nyquist && start <= b[k].0
            &&& forall|k: int| 0 <= k < b.len() - 1 ==> #[trigger] b[k].1 == b[k + 1].0
        }),
    decreases nyquist - start,
{
    if start < nyquist {
        let end = if start + size < nyquist {
            start + size
        } else {
            nyquist
        };
        lemma_blocks_from(end, size, nyquist);
        let rest = blocks_from(end, size, nyquist);
        let b = blocks_from(start, size, nyquist);
        assert(b == seq![(start as usize, end as usize)] + rest);
        assert forall|k: int| 0 <= k < b.len() - 1 implies #[trigger] b[k].1 == b[k + 1].0 by {
            if k > 0 {
                assert(b[k] == rest[k - 1]);
                assert(b[k + 1] == rest[k]);
            }
        }
    }
}

/// Within the block `start..end`, `p` sends the first bins of `order` to
/// `destinations` and keeps every other bin of the block in its own place:
/// the block was shuffled, from bins in their own places, with these two
/// draws.
pub open spec fn block_drawn_by(
    p: Seq<usize>,
    start: int,
    end: int,
    selected: int,
    order: Seq<usize>,
    destinations: Seq<usize>,
) -> bool {
    &&& drawn_from_block(order, destinations, start, end, selected)
    &&& forall|j: int| 0 <= j < selected_count(start, end, selected) ==> p[#[trigger] order[j] as int] == destinations[j]
    &&& forall|i: int|
        start <= i < end && !order.take(selected_count(start, end, selected)).contains(i as usize) ==> #[trigger] p[i] == i
}

/// The block `start..end` of `p` was shuffled, from bins in their own
/// places, with some pair of draws.
pub open spec fn block_drawn(p: Seq<usize>, start: int, end: int, selected: int) -> bool {
    exists|order: Seq<usize>, destinations: Seq<usize>| block_drawn_by(p, start, end, selected, order, destinations)
}

/// An order of the bins of a block holds bins of the block only.
proof fn lemma_order_in_block(order: Seq<usize>, start: int, end: int)
    requires
        0 <= start <= end <= usize::MAX,
        order.to_multiset() == block_bins(start, end).to_multiset(),
    ensures
        forall|j: int| 0 <= j < order.len() ==> start <= #[trigger] order[j] < end,
{
    let bb = block_bins(start, end);
    assert forall|j: int| 0 <= j < order.len() implies start <= #[trigger] order[j] < end by {
        order.to_multiset_ensures();
        bb.to_multiset_ensures();
        assert(order.contains(order[j]));
        assert(order.to_multiset().count(order[j]) > 0);
        assert(bb.to_multiset().count(order[j]) > 0);
        assert(bb.contains(order[j]));
        let k = choose|k: int| 0 <= k < bb.len() && bb[k] == order[j];
        assert(bb[k] == (start + k) as usize);
    }
}

/// A block shuffled from bins in their own places reads as drawn.
proof fn lemma_drawn_from_shuffled(before: Seq<usize>, after: Seq<usize>, start: int, end: int, selected: int)
    requires
        0 <= start <= end <= before.len(),
        end <= usize::MAX,
        block_shuffled(before, after, start, end, selected),
        forall|i: int| start <= i < end ==> #[trigger] before[i] == i,
    ensures
        block_drawn(after, start, end, selected),
{
    let (order, dest) = choose|order: Seq<usize>, destinations: Seq<usize>|
        block_shuffled_by(before, after, start, end, selected, order, destinations);
    let c = selected_count(start, end, selected);
    let src = order.take(c);
    lemma_order_in_block(order, start, end);
    assert forall|j: int| 0 <= j < c implies after[#[trigger] order[j] as int] == dest[j] by {
        assert(src[j] == order[j]);
    }
    assert forall|i: int| start <= i < end && !src.contains(i as usize) implies #[trigger] after[i] == i by {
        assert(after[i] == before[i]);
    }
    assert(block_drawn_by(after, start, end, selected, order, dest));
}

/// Positions outside a block do not bear on how it was drawn.
proof fn lemma_drawn_stable(p: Seq<usize>, q: Seq<usize>, start: int, end: int, selected: int)
    requires
        0 <= start <= end <= p.len(),
        end <= usize::MAX,
        block_drawn(p, start, end, selected),
        forall|i: int| start <= i < end ==> #[trigger] q[i] == p[i],
    ensures
        block_drawn(q, start, end, selected),
{
    let (order, dest) = choose|order: Seq<usize>, destinations: Seq<usize>|
        block_drawn_by(p, start, end, selected, order, destinations);
    lemma_order_in_block(order, start, end);
    let c = selected_count(start, end, selected);
    assert forall|j: int| 0 <= j < c implies q[#[trigger] order[j] as int] == dest[j] by {
        assert(start <= order[j] < end);
        assert(q[order[j] as int] == p[order[j] as int]);
    }
    assert(block_drawn_by(q, start, end, selected, order, dest));
}

/// The bin permutation of a shuffle of `len` bins: every block (see
/// `shuffle_blocks`, with the Nyquist bin at `len - 1`) moves
/// `selected[b]` of its bins among themselves. The result is a permutation
/// in which each bin stays within its block, at most `selected[b]` bins of
/// block `b` leave their place (none where every count is below two), and
/// the first and last bins stay in place. Each block with two or more
/// selected bins is shuffled, from bins in their own places, by the draws
/// of `shuffle_block`.
pub fn shuffle_permutation(len: usize, locality: usize, selected: &[usize], rng: &mut SmallRng) -> (r: Vec<usize>)
    requires
        len >= 1,
        selected@.len() == spec_shuffle_blocks(len - 1, locality as int).len(),
    ensures
        r@.len() == len,
        is_permutation(r@),
        forall|b: int, i: int|
            #![trigger spec_shuffle_blocks(len - 1, locality as int)[b], r@[i]]
            0 <= b < selected@.len() && spec_shuffle_blocks(len - 1, locality as int)[b].0 <= i
                < spec_shuffle_blocks(len - 1, locality as int)[b].1 ==> spec_shuffle_blocks(len - 1, locality as int)[b].0
                <= r@[i] < spec_shuffle_blocks(len - 1, locality as int)[b].1,
        r@[0] == 0,
        r@[len - 1] == len - 1,
        (forall|b: int| 0 <= b < selected@.len() ==> #[trigger] selected@[b] <= 1) ==> forall|i: int|
            0 <= i < len ==> #[trigger] r@[i] == i,
        forall|b: int|
            0 <= b < selected@.len() ==> {
                let (start, end) = #[trigger] spec_shuffle_blocks(len - 1, locality as int)[b];
                &&& displaced(r@, start as int, end as int).finite()
                &&& displaced(r@, start as int, end as int).len() <= selected@[b]
            },
        forall|b: int|
            0 <= b < selected@.len() && selected@[b] > 1 ==> block_drawn(
                r@,
                (#[trigger] spec_shuffle_blocks(len - 1, locality as int)[b]).0 as int,
                spec_shuffle_blocks(len - 1, locality as int)[b].1 as int,
                selected@[b] as int,
            ),
{
    let nyquist = len - 1;
    let blocks = shuffle_blocks(nyquist, locality);
    let ghost bl = blocks@;
    let mut permutation = identity_permutation(len);
    if nyquist <= 1 {
        return permutation;
    }
    let ghost size: int = if locality == 0 {
        nyquist - 1
    } else {
        locality as int
    };
    proof {
        lemma_blocks_from(1, size, nyquist as int);
    }
    let mut k: usize = 0;
    while k < blocks.len()
        invariant
            nyquist == len - 1,
            nyquist > 1,
            blocks@ == bl,
            bl == spec_shuffle_blocks(nyquist as int, locality as int),
            bl == blocks_from(1, size, nyquist as int),
            bl.len() == selected@.len(),
            bl.len() > 0,
            bl[0].0 == 1,
            bl[bl.len() - 1].1 == nyquist,
            forall|j: int| 0 <= j < bl.len() ==> #[trigger] bl[j].0 < bl[j].1 <= nyquist && 1 <= bl[j].0,
            forall|j: int| 0 <= j < bl.len() - 1 ==> #[trigger] bl[j].1 == bl[j + 1].0,
            k <= bl.len(),
            permutation@.len() == len,
            is_permutation(permutation@),
            forall|i: int| (if k == 0 { 1 } else { bl[k - 1].1 as int }) <= i < len ==> #[trigger] permutation@[i] == i,
            permutation@[0] == 0,
            forall|b: int, i: int|
                #![trigger bl[b], permutation@[i]]
                0 <= b < k && bl[b].0 <= i < bl[b].1 ==> bl[b].0 <= permutation@[i] < bl[b].1,
            (forall|b: int| 0 <= b < selected@.len() ==> #[trigger] selected@[b] <= 1) ==> forall|i: int|
                0 <= i < len ==> #[trigger] permutation@[i] == i,
            forall|b: int|
                0 <= b < k ==> {
                    &&& displaced(permutation@, #[trigger] bl[b].0 as int, bl[b].1 as int).finite()
                    &&& displaced(permutation@, bl[b].0 as int, bl[b].1 as int).len() <= selected@[b]
                },
            forall|b: int|
                0 <= b < k && selected@[b] > 1 ==> block_drawn(
                    permutation@,
                    (#[trigger] bl[b]).0 as int,
                    bl[b].1 as int,
                    selected@[b] as int,
                ),
        decreases bl.len() - k,
    {
        let (start, end) = blocks[k];
        proof {
            if k > 0 {
                assert(bl[k - 1].1 == bl[k as int].0);
            }
        }
        let ghost before = permutation@;
        shuffle_block(&mut permutation, start, end, selected[k], rng);
        proof {
            assert forall|b: int, i: int|
                #![trigger bl[b], permutation@[i]]
                0 <= b < k + 1 && bl[b].0 <= i < bl[b].1 implies bl[b].0 <= permutation@[i] < bl[b].1 by {
                if b < k {
                    lemma_blocks_ordered(bl, b, k as int);
                    assert(permutation@[i] == before[i]);
                }
            }
            assert forall|i: int| bl[k as int].1 <= i < len implies #[trigger] permutation@[i] == i by {
                assert(permutation@[i] == before[i]);
            }
            assert forall|b: int| 0 <= b < k + 1 implies {
                &&& displaced(permutation@, #[trigger] bl[b].0 as int, bl[b].1 as int).finite()
                &&& displaced(permutation@, bl[b].0 as int, bl[b].1 as int).len() <= selected@[b]
            } by {
                if b < k {
                    lemma_blocks_ordered(bl, b, k as int);
                    assert(displaced(permutation@, bl[b].0 as int, bl[b].1 as int) =~= displaced(before, bl[b].0 as int, bl[b].1 as int));
                }
            }
            assert forall|b: int|
                0 <= b < k + 1 && selected@[b] > 1 implies block_drawn(
                    permutation@,
                    (#[trigger] bl[b]).0 as int,
                    bl[b].1 as int,
                    selected@[b] as int,
                ) by {
                if b < k {
                    lemma_blocks_ordered(bl, b, k as int);
                    assert forall|i: int| bl[b].0 <= i < bl[b].1 implies #[trigger] permutation@[i] == before[i] by {}
                    lemma_drawn_stable(before, permutation@, bl[b].0 as int, bl[b].1 as int, selected@[b] as int);
                } else {
                    assert forall|i: int| start <= i < end implies #[trigger] before[i] == i by {}
                    lemma_drawn_from_shuffled(before, permutation@, start as int, end as int, selected@[b] as int);
                }
            }
        }
        k = k + 1;
    }
    permutation
}

/// Earlier blocks end no later than later ones start.
proof fn lemma_blocks_ordered(bl: Seq<(usize, usize)>, a: int, b: int)
    requires
        0 <= a < b < bl.len(),
        forall|j: int| 0 <= j < bl.len() ==> #[trigger] bl[j].0 < bl[j].1,
        forall|j: int| 0 <= j < bl.len() - 1 ==> #[trigger] bl[j].1 == bl[j + 1].0,
    ensures
        bl[a].1 <= bl[b].0,
    decreases b - a,
{
    if a + 1 < b {
        lemma_blocks_ordered(bl, a + 1, b);
        assert(bl[a].1 == bl[a + 1].0);
    }
}

} // verus!
