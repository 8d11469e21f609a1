use crate::error::Error;
use crate::point_data::PointData;
use crate::selection::{
    any_set, lemma_count_split, lemma_count_zero, lemma_masked_len, negate_mask, negated,
    count_set,
};
use rand::SeedableRng;
use vstd::prelude::*;

verus! {

/// The row positions that `seeded_sample` draws for a seed, a number of rows
/// and a sample size.
pub uninterp spec fn sampled_indices(seed: u64, length: nat, amount: nat) -> Seq<usize>;

/// Relies on `rand_chacha::ChaCha8Rng::seed_from_u64` and
/// `rand::seq::index::sample`: a ChaCha8 generator seeded from `seed` draws
/// `amount` distinct indices below `length`. ChaCha8 and the sampling
/// algorithm are portable, so the draw depends on the arguments alone.
#[verifier::external_body]
pub(crate) fn seeded_sample(seed: u64, length: usize, amount: usize) -> (r: Vec<usize>)
    requires
        amount <= length,
    ensures
        r@ == sampled_indices(seed, length as nat, amount as nat),
        r@.len() == amount,
        r@.no_duplicates(),
        forall|t: int| 0 <= t < r@.len() ==> #[trigger] r@[t] < length,
{
    let mut rng = rand_chacha::ChaCha8Rng::seed_from_u64(seed);
    rand::seq::index::sample(&mut rng, length, amount).into_vec()
}

/// The mask that marks the drawn positions among `length` rows.
pub open spec fn sample_mask(seed: u64, length: nat, amount: nat) -> Seq<bool> {
    Seq::new(length, |i: int| sampled_indices(seed, length, amount).contains(i as usize))
}

/// Draws `len` distinct row positions below `number_max` from a generator
/// seeded with `seed` (0 where none is given).
pub fn generate_random_numbers(seed: Option<u64>, number_max: usize, len: usize) -> (r: Result<
    Vec<usize>,
    Error,
>)
    ensures
        number_max < len <==> r == Err::<Vec<usize>, Error>(Error::InvalidNumber),
        number_max >= len <==> r is Ok,
        r matches Ok(v) ==> v@ == sampled_indices(
            seed.unwrap_or(0),
            number_max as nat,
            len as nat,
        ) && v@.len() == len && v@.no_duplicates() && forall|t: int|
            0 <= t < v@.len() ==> #[trigger] v@[t] < number_max,
{
    if number_max < len {
        return Err(Error::InvalidNumber);
    }
    let seed_value = match seed {
        Some(s) => s,
        None => 0,
    };
    Ok(seeded_sample(seed_value, number_max, len))
}

/// The membership mask of a set of positions among `n` rows.
pub fn positions_mask(positions: &Vec<usize>, n: usize) -> (r: Vec<bool>)
    requires
        forall|t: int| 0 <= t < positions@.len() ==> #[trigger] positions@[t] < n,
    ensures
        r@ == Seq::new(n as nat, |i: int| positions@.contains(i as usize)),
{
    let mut r: Vec<bool> = Vec::new();
    let mut i: usize = 0;
    while i < n
        invariant
            i <= n,
            r@ == Seq::new(i as nat, |j: int| false),
        decreases n - i,
    {
        r.push(false);
        proof {
            assert(r@ =~= Seq::new((i + 1) as nat, |j: int| false));
        }
        i = i + 1;
    }
    let mut k: usize = 0;
    while k < positions.len()
        invariant
            k <= positions@.len(),
            r@.len() == n,
            forall|t: int| 0 <= t < positions@.len() ==> #[trigger] positions@[t] < n,
            forall|j: int|
                0 <= j < n ==> (#[trigger] r@[j] <==> positions@.subrange(0, k as int).contains(
                    j as usize,
                )),
        decreases positions@.len() - k,
    {
        let ghost prev = r@;
        r.set(positions[k], true);
        proof {
            assert forall|j: int| 0 <= j < n implies (#[trigger] r@[j]
                <==> positions@.subrange(0, k + 1).contains(j as usize)) by {
                let sub = positions@.subrange(0, k as int);
                let sub1 = positions@.subrange(0, k + 1);
                if prev[j] {
                    let t = choose|t: int| 0 <= t < sub.len() && sub[t] == j as usize;
                    assert(sub1[t] == j as usize);
                }
                if j == positions@[k as int] {
                    assert(sub1[k as int] == j as usize);
                }
                if sub1.contains(j as usize) {
                    let t = choose|t: int| 0 <= t < sub1.len() && sub1[t] == j as usize;
                    if t < k {
                        assert(sub[t] == j as usize);
                    }
                }
            }
        }
        k = k + 1;
    }
    proof {
        assert(positions@.subrange(0, positions@.len() as int) =~= positions@);
        assert(r@ =~= Seq::new(n as nat, |i: int| positions@.contains(i as usize)));
    }
    r
}

/// Splits a store into `target_size` rows drawn with the seeded generator and
/// the rows that remain; either part is `None` where it holds no row.
pub fn deterministic_divide<P: Copy>(
    point_data: &PointData<P>,
    target_size: usize,
    seed_number: Option<u64>,
) -> (r: Result<(Option<PointData<P>>, Option<PointData<P>>), Error>)
    requires
        point_data.wf(),
    ensures
        point_data@.height() < target_size <==> r matches Err(Error::InvalidNumber),
        r is Err ==> r matches Err(Error::InvalidNumber),
        r matches Ok((target, remaining)) ==> {
            let mask = sample_mask(
                seed_number.unwrap_or(0),
                point_data@.height(),
                target_size as nat,
            );
            &&& (target is None <==> !any_set(mask, mask.len()))
            &&& (target matches Some(t) ==> t.wf() && t@ == point_data@.masked(mask))
            &&& (remaining is None <==> !any_set(negated(mask), mask.len()))
            &&& (remaining matches Some(m) ==> m.wf() && m@ == point_data@.masked(negated(mask)))
            &&& (target_size == 0 <==> target is None)
            &&& (target_size == point_data@.height() <==> remaining is None)
            &&& (target matches Some(t) ==> t@.height() == target_size)
            &&& (remaining matches Some(m) ==> m@.height() == point_data@.height()
                - target_size)
        },
{
    let n = point_data.height();
    let rows = match generate_random_numbers(seed_number, n, target_size) {
        Ok(rows) => rows,
        Err(_) => {
            return Err(Error::InvalidNumber);
        },
    };
    let mask = positions_mask(&rows, n);
    let rest = negate_mask(&mask);
    proof {
        lemma_positions_count(rows@, n as nat);
        assert(mask@ =~= positions_seq_mask(rows@, n as nat));
        lemma_count_split(mask@, n as nat);
        lemma_count_zero(mask@, n as nat);
        lemma_count_zero(rest@, n as nat);
        lemma_masked_len(point_data.points@, mask@, n as nat);
        lemma_masked_len(point_data.points@, rest@, n as nat);
    }
    let target = point_data.select_by_mask(&mask);
    let remaining = point_data.select_by_mask(&rest);
    Ok((target, remaining))
}

/// The mask of a list of positions among `n` rows.
pub open spec fn positions_seq_mask(positions: Seq<usize>, n: nat) -> Seq<bool> {
    Seq::new(n, |i: int| positions.contains(i as usize))
}

proof fn lemma_count_prefix(a: Seq<bool>, b: Seq<bool>, n: nat)
    requires
        n <= a.len(),
        n <= b.len(),
        forall|i: int| 0 <= i < n ==> a[i] == b[i],
    ensures
        count_set(a, n) == count_set(b, n),
    decreases n,
{
    if n > 0 {
        lemma_count_prefix(a, b, (n - 1) as nat);
    }
}

proof fn lemma_count_clear(mask: Seq<bool>, n: nat, p: int)
    requires
        n <= mask.len(),
        0 <= p < n,
        mask[p],
    ensures
        count_set(mask.update(p, false), n) + 1 == count_set(mask, n),
    decreases n,
{
    if p == n - 1 {
        lemma_count_prefix(mask.update(p, false), mask, (n - 1) as nat);
    } else {
        lemma_count_clear(mask, (n - 1) as nat, p);
    }
}

/// Distinct positions below `n` mark as many rows as there are positions.
pub proof fn lemma_positions_count(positions: Seq<usize>, n: nat)
    requires
        n <= usize::MAX + 1,
        positions.no_duplicates(),
        forall|t: int| 0 <= t < positions.len() ==> #[trigger] positions[t] < n,
    ensures
        count_set(positions_seq_mask(positions, n), n) == positions.len(),
    decreases positions.len(),
{
    if positions.len() == 0 {
        lemma_count_zero(positions_seq_mask(positions, n), n);
    } else {
        let init = positions.drop_last();
        let last = positions.last();
        assert forall|t: int| 0 <= t < init.len() implies #[trigger] init[t] < n by {
            assert(init[t] == positions[t]);
        }
        assert(init.no_duplicates()) by {
            assert forall|a: int, b: int| 0 <= a < init.len() && 0 <= b < init.len() && a != b
                implies init[a] != init[b] by {
                assert(init[a] == positions[a] && init[b] == positions[b]);
            }
        }
        lemma_positions_count(init, n);
        let full = positions_seq_mask(positions, n);
        let part = positions_seq_mask(init, n);
        assert(full[last as int]) by {
            assert(positions[positions.len() - 1] == last);
        }
        assert(full.update(last as int, false) =~= part) by {
            assert forall|i: int| 0 <= i < n implies full.update(last as int, false)[i] == part[i] by {
                if i == last as int {
                    if init.contains(last) {
                        let t = choose|t: int| 0 <= t < init.len() && init[t] == last;
                        assert(positions[t] == positions[positions.len() - 1]);
                    }
                } else {
                    if positions.contains(i as usize) {
                        let t = choose|t: int| 0 <= t < positions.len() && positions[t] == i as usize;
                        assert(t != positions.len() - 1);
                        assert(init[t] == i as usize);
                    }
                    if init.contains(i as usize) {
                        let t = choose|t: int| 0 <= t < init.len() && init[t] == i as usize;
                        assert(positions[t] == i as usize);
                    }
                }
            }
        }
        lemma_count_clear(full, n, last as int);
    }
}

} // verus!
