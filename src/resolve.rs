use crate::point_data::{PointData, PointDataView, Timestamp, strings_view};
use vstd::prelude::*;

verus! {

/// A maximal group of rows that share their frame and their timestamp.
#[derive(Debug, Clone)]
pub struct Partition {
    /// The frame the rows are defined in: the per-point frame id, or the
    /// cloud-wide one where the store has no frame column.
    pub frame_id: String,
    /// The rows' timestamp, where the store has timestamps.
    pub timestamp: Option<Timestamp>,
    /// The rows of the group, ascending.
    pub rows: Vec<usize>,
}

/// Frame a row is defined in.
pub open spec fn row_frame<P>(d: PointDataView<P>, cloud_frame: Option<Seq<char>>, r: int) -> Seq<
    char,
> {
    match d.frame_ids {
        Some(f) => f[r],
        None => cloud_frame.unwrap(),
    }
}

/// Timestamp of a row, where the store has timestamps.
pub open spec fn row_time<P>(d: PointDataView<P>, r: int) -> Option<Timestamp> {
    match d.timestamps {
        Some(t) => Some(t[r]),
        None => None,
    }
}

pub open spec fn same_key(a: Partition, b: Partition) -> bool {
    a.frame_id@ == b.frame_id@ && a.timestamp == b.timestamp
}

/// `parts` splits the rows of `d` into maximal groups of equal frame and
/// timestamp: each row lies in exactly one group, the rows of a group carry
/// its key and ascend, no two groups share a key, and the groups come in the
/// order of their first rows.
pub open spec fn is_partitioning<P>(
    d: PointDataView<P>,
    cloud_frame: Option<Seq<char>>,
    parts: Seq<Partition>,
) -> bool {
    &&& forall|k: int|
        0 <= k < parts.len() ==> {
            let rows = #[trigger] parts[k].rows@;
            &&& rows.len() > 0
            &&& forall|a: int, b: int| 0 <= a < b < rows.len() ==> rows[a] < rows[b]
            &&& forall|j: int|
                0 <= j < rows.len() ==> rows[j] < d.height() && row_frame(d, cloud_frame, rows[j] as int)
                    == parts[k].frame_id@ && row_time(d, rows[j] as int) == parts[k].timestamp
        }
    &&& forall|k1: int, k2: int|
        0 <= k1 < parts.len() && 0 <= k2 < parts.len() && k1 != k2 ==> !same_key(
            #[trigger] parts[k1],
            #[trigger] parts[k2],
        )
    &&& forall|r: int| 0 <= r < d.height() ==> #[trigger] row_covered(parts, r)
    &&& forall|k1: int, k2: int|
        0 <= k1 < k2 < parts.len() ==> (#[trigger] parts[k1]).rows@[0] < (
        #[trigger] parts[k2]).rows@[0]
}

/// Some group lists row `r`.
pub open spec fn row_covered(parts: Seq<Partition>, r: int) -> bool {
    exists|k: int, j: int|
        0 <= k < parts.len() && 0 <= j < parts[k].rows@.len() && #[trigger] parts[k].rows@[j] == r
}

/// Whether two optional timestamps are equal.
pub fn same_time(a: Option<Timestamp>, b: Option<Timestamp>) -> (r: bool)
    ensures
        r == (a == b),
{
    match (a, b) {
        (Some(x), Some(y)) => x.seconds == y.seconds && x.nanoseconds == y.nanoseconds,
        (None, None) => true,
        _ => false,
    }
}

/// Splits the rows of a store into maximal groups of equal frame and timestamp.
pub fn partition_rows<P: Copy>(d: &PointData<P>, cloud_frame: &Option<String>) -> (r: Vec<
    Partition,
>)
    requires
        d.wf(),
        d.frame_ids is Some || cloud_frame is Some,
    ensures
        is_partitioning(
            d@,
            match cloud_frame {
                Some(f) => Some(f@),
                None => None,
            },
            r@,
        ),
{
    let ghost cf = match cloud_frame {
        Some(f) => Some(f@),
        None => None,
    };
    let n = d.height();
    let mut frames: Vec<String> = Vec::new();
    let mut times: Vec<Option<Timestamp>> = Vec::new();
    let mut assign: Vec<usize> = Vec::new();
    let ghost mut firsts: Seq<int> = Seq::empty();
    let mut r: usize = 0;
    while r < n
        invariant
            firsts.len() == frames@.len(),
            forall|k: int| 0 <= k < firsts.len() ==> is_first_row(assign@, k, #[trigger] firsts[k]),
            forall|k1: int, k2: int|
                0 <= k1 < k2 < firsts.len() ==> #[trigger] firsts[k1] < #[trigger] firsts[k2],
            d.wf(),
            d.frame_ids is Some || cloud_frame is Some,
            cf == match cloud_frame {
                Some(f) => Some(f@),
                None => None,
            },
            n == d@.height(),
            r <= n,
            frames@.len() == times@.len(),
            assign@.len() == r,
            forall|q: int|
                0 <= q < r ==> #[trigger] assign@[q] < frames@.len() && row_frame(d@, cf, q)
                    == frames@[assign@[q] as int]@ && row_time(d@, q) == times@[assign@[q] as int],
            forall|a: int, b: int|
                0 <= a < frames@.len() && 0 <= b < frames@.len() && a != b ==> !(
                #[trigger] frames@[a]@ == #[trigger] frames@[b]@ && times@[a] == times@[b]),
            forall|k: int| 0 <= k < frames@.len() ==> #[trigger] group_used(assign@, k, r as int),
        decreases n - r,
    {
        let frame: String = match &d.frame_ids {
            Some(f) => {
                let s = f[r].clone();
                proof {
                    assert(s@ == strings_view(f@)[r as int]);
                }
                s
            },
            None => match cloud_frame {
                Some(f) => {
                    let s = f.clone();
                    proof {
                        assert(cf == Some(s@));
                    }
                    s
                },
                None => String::new(),
            },
        };
        let time: Option<Timestamp> = match &d.timestamps {
            Some(t) => Some(t[r]),
            None => None,
        };
        proof {
            if let Some(f) = &d.frame_ids {
                assert(strings_view(f@)[r as int] == f@[r as int]@);
            }
        }
        let mut k: usize = 0;
        let mut found: bool = false;
        while k < frames.len() && !found
            invariant
                frames@.len() == times@.len(),
                k <= frames@.len(),
                found ==> k < frames@.len() && frames@[k as int]@ == frame@ && times@[k as int]
                    == time,
                !found ==> forall|j: int|
                    0 <= j < k ==> !(#[trigger] frames@[j]@ == frame@ && times@[j] == time),
            decreases frames@.len() - k - if found {
                1int
            } else {
                0int
            },
        {
            if frames[k] == frame && same_time(times[k], time) {
                found = true;
            } else {
                k = k + 1;
            }
        }
        let ghost old_assign = assign@;
        proof {
            assert(row_frame(d@, cf, r as int) == frame@);
            assert(row_time(d@, r as int) == time);
        }
        if found {
            assign.push(k);
            proof {
                assert forall|j: int| 0 <= j < firsts.len() implies is_first_row(
                    assign@,
                    j,
                    #[trigger] firsts[j],
                ) by {
                    assert(is_first_row(old_assign, j, firsts[j]));
                    assert(assign@[firsts[j]] == old_assign[firsts[j]]);
                    assert forall|q: int| 0 <= q < firsts[j] implies #[trigger] assign@[q] != j by {
                        assert(assign@[q] == old_assign[q]);
                    }
                }
                assert forall|q: int| 0 <= q < r + 1 implies #[trigger] assign@[q] < frames@.len()
                    && row_frame(d@, cf, q) == frames@[assign@[q] as int]@ && row_time(d@, q)
                    == times@[assign@[q] as int] by {
                    if q < r {
                        assert(assign@[q] == old_assign[q]);
                    }
                }
                assert forall|j: int| 0 <= j < frames@.len() implies #[trigger] group_used(
                    assign@,
                    j,
                    r + 1,
                ) by {
                    assert(group_used(old_assign, j, r as int));
                    let q = choose|q: int| 0 <= q < r && #[trigger] old_assign[q] == j;
                    assert(assign@[q] == j);
                }
            }
        } else {
            let ghost old_frames = frames@;
            let ghost old_times = times@;
            assign.push(frames.len());
            frames.push(frame);
            times.push(time);
            proof {
                let old_firsts = firsts;
                firsts = firsts.push(r as int);
                assert forall|j: int| 0 <= j < firsts.len() implies is_first_row(
                    assign@,
                    j,
                    #[trigger] firsts[j],
                ) by {
                    if j < old_firsts.len() {
                        assert(firsts[j] == old_firsts[j]);
                        assert(is_first_row(old_assign, j, old_firsts[j]));
                        assert(assign@[firsts[j]] == old_assign[firsts[j]]);
                        assert forall|q: int| 0 <= q < firsts[j] implies #[trigger] assign@[q] != j by {
                            assert(assign@[q] == old_assign[q]);
                        }
                    } else {
                        assert forall|q: int| 0 <= q < firsts[j] implies #[trigger] assign@[q] != j by {
                            assert(assign@[q] == old_assign[q]);
                        }
                    }
                }
                assert forall|k1: int, k2: int|
                    0 <= k1 < k2 < firsts.len() implies #[trigger] firsts[k1] < #[trigger] firsts[k2] by {
                    if k2 < old_firsts.len() {
                        assert(firsts[k1] == old_firsts[k1] && firsts[k2] == old_firsts[k2]);
                    } else {
                        assert(firsts[k1] == old_firsts[k1]);
                        assert(is_first_row(old_assign, k1, old_firsts[k1]));
                    }
                }
                assert forall|j: int| 0 <= j < frames@.len() implies #[trigger] group_used(
                    assign@,
                    j,
                    r + 1,
                ) by {
                    if j < old_frames.len() {
                        assert(group_used(old_assign, j, r as int));
                        let q = choose|q: int| 0 <= q < r && #[trigger] old_assign[q] == j;
                        assert(assign@[q] == j);
                    } else {
                        assert(assign@[r as int] == j);
                    }
                }
                assert forall|a: int, b: int|
                    0 <= a < frames@.len() && 0 <= b < frames@.len() && a != b implies !(
                    #[trigger] frames@[a]@ == #[trigger] frames@[b]@ && times@[a] == times@[b]) by {
                    if a < old_frames.len() && b < old_frames.len() {
                        assert(frames@[a] == old_frames[a] && frames@[b] == old_frames[b]);
                    }
                }
                assert forall|q: int| 0 <= q < r + 1 implies #[trigger] assign@[q] < frames@.len()
                    && row_frame(d@, cf, q) == frames@[assign@[q] as int]@ && row_time(d@, q)
                    == times@[assign@[q] as int] by {
                    if q < r {
                        assert(assign@[q] == old_assign[q]);
                        assert(frames@[old_assign[q] as int] == old_frames[old_assign[q] as int]);
                    }
                }
            }
        }
        r = r + 1;
    }
    let mut parts: Vec<Partition> = Vec::new();
    let mut k: usize = 0;
    while k < frames.len()
        invariant
            n == d@.height(),
            k <= frames@.len(),
            frames@.len() == times@.len(),
            assign@.len() == n,
            parts@.len() == k,
            forall|q: int|
                0 <= q < n ==> #[trigger] assign@[q] < frames@.len() && row_frame(d@, cf, q)
                    == frames@[assign@[q] as int]@ && row_time(d@, q) == times@[assign@[q] as int],
            forall|a: int, b: int|
                0 <= a < frames@.len() && 0 <= b < frames@.len() && a != b ==> !(
                #[trigger] frames@[a]@ == #[trigger] frames@[b]@ && times@[a] == times@[b]),
            forall|j: int| 0 <= j < frames@.len() ==> #[trigger] group_used(assign@, j, n as int),
            forall|j: int|
                0 <= j < k ==> #[trigger] parts@[j].frame_id@ == frames@[j]@ && parts@[j].timestamp
                    == times@[j] && parts@[j].rows@ == rows_of(assign@, j, n as int),
            firsts.len() == frames@.len(),
            forall|j: int| 0 <= j < firsts.len() ==> is_first_row(assign@, j, #[trigger] firsts[j]),
            forall|k1: int, k2: int|
                0 <= k1 < k2 < firsts.len() ==> #[trigger] firsts[k1] < #[trigger] firsts[k2],
        decreases frames@.len() - k,
    {
        let mut rows: Vec<usize> = Vec::new();
        let mut q: usize = 0;
        while q < n
            invariant
                q <= n,
                assign@.len() == n,
                rows@ == rows_of(assign@, k as int, q as int),
            decreases n - q,
        {
            if assign[q] == k {
                rows.push(q);
            }
            q = q + 1;
        }
        parts.push(Partition { frame_id: frames[k].clone(), timestamp: times[k], rows });
        k = k + 1;
    }
    proof {
        assert forall|j: int| 0 <= j < parts@.len() implies {
            let rows = #[trigger] parts@[j].rows@;
            &&& rows.len() > 0
            &&& forall|a: int, b: int| 0 <= a < b < rows.len() ==> rows[a] < rows[b]
            &&& forall|i: int|
                0 <= i < rows.len() ==> rows[i] < d@.height() && row_frame(d@, cf, rows[i] as int)
                    == parts@[j].frame_id@ && row_time(d@, rows[i] as int) == parts@[j].timestamp
        } by {
            assert(parts@[j].frame_id@ == frames@[j]@);
            assert(group_used(assign@, j, n as int));
            let q = choose|q: int| 0 <= q < n && #[trigger] assign@[q] == j;
            lemma_rows_of(assign@, j, n as int);
            lemma_rows_of_contains(assign@, j, n as int, q);
        }
        assert forall|k1: int, k2: int|
            0 <= k1 < parts@.len() && 0 <= k2 < parts@.len() && k1 != k2 implies !same_key(
            #[trigger] parts@[k1],
            #[trigger] parts@[k2],
        ) by {
            assert(parts@[k1].frame_id@ == frames@[k1]@);
            assert(parts@[k2].frame_id@ == frames@[k2]@);
        }
        assert forall|q: int| 0 <= q < d@.height() implies #[trigger] row_covered(parts@, q) by {
            let k = assign@[q] as int;
            assert(parts@[k].frame_id@ == frames@[k]@);
            assert(parts@[k].rows@ == rows_of(assign@, k, n as int));
            let j = lemma_rows_of_contains(assign@, k, n as int, q);
        }
    }
    proof {
        assert forall|k1: int, k2: int| 0 <= k1 < k2 < parts@.len() implies (#[trigger] parts@[k1]).rows@[0]
            < (#[trigger] parts@[k2]).rows@[0] by {
            assert(parts@[k1].frame_id@ == frames@[k1]@);
            assert(parts@[k2].frame_id@ == frames@[k2]@);
            lemma_rows_of_first(assign@, k1, n as int, firsts[k1]);
            lemma_rows_of_first(assign@, k2, n as int, firsts[k2]);
        }
    }
    parts
}

/// Row `f` is the first row assigned to group `k`.
pub open spec fn is_first_row(assign: Seq<usize>, k: int, f: int) -> bool {
    &&& 0 <= f < assign.len()
    &&& assign[f] == k
    &&& forall|q: int| 0 <= q < f ==> #[trigger] assign[q] != k
}

proof fn lemma_rows_of_first(assign: Seq<usize>, k: int, upto: int, f: int)
    requires
        is_first_row(assign, k, f),
        f < upto <= assign.len(),
        assign.len() <= usize::MAX,
    ensures
        rows_of(assign, k, upto).len() > 0,
        rows_of(assign, k, upto)[0] == f,
{
    lemma_rows_of(assign, k, upto);
    let j = lemma_rows_of_contains(assign, k, upto, f);
    let rows = rows_of(assign, k, upto);
    if j > 0 {
        assert(rows[0] < rows[j]);
    }
    assert(assign[rows[0] as int] == k);
}

/// Some row below `upto` is assigned to group `k`.
pub open spec fn group_used(assign: Seq<usize>, k: int, upto: int) -> bool {
    exists|q: int| 0 <= q < upto && #[trigger] assign[q] == k
}

/// The rows below `upto` that are assigned to group `k`, ascending.
pub open spec fn rows_of(assign: Seq<usize>, k: int, upto: int) -> Seq<usize>
    decreases upto,
{
    if upto <= 0 {
        Seq::empty()
    } else {
        let init = rows_of(assign, k, upto - 1);
        if assign[upto - 1] == k {
            init.push((upto - 1) as usize)
        } else {
            init
        }
    }
}

proof fn lemma_rows_of(assign: Seq<usize>, k: int, upto: int)
    requires
        0 <= upto <= assign.len(),
        assign.len() <= usize::MAX,
    ensures
        forall|a: int, b: int|
            0 <= a < b < rows_of(assign, k, upto).len() ==> #[trigger] rows_of(assign, k, upto)[a]
                < #[trigger] rows_of(assign, k, upto)[b],
        forall|i: int|
            0 <= i < rows_of(assign, k, upto).len() ==> #[trigger] rows_of(assign, k, upto)[i]
                < upto && assign[rows_of(assign, k, upto)[i] as int] == k,
    decreases upto,
{
    if upto > 0 {
        lemma_rows_of(assign, k, upto - 1);
        let init = rows_of(assign, k, upto - 1);
        let all = rows_of(assign, k, upto);
        if assign[upto - 1] == k {
            assert(all == init.push((upto - 1) as usize));
            assert forall|i: int| 0 <= i < all.len() implies #[trigger] all[i] < upto && assign[all[i] as int] == k by {
                if i < init.len() {
                    assert(all[i] == init[i]);
                }
            }
            assert forall|a: int, b: int| 0 <= a < b < all.len() implies #[trigger] all[a] < #[trigger] all[b] by {
                assert(all[a] == init[a]);
                if b < init.len() {
                    assert(all[b] == init[b]);
                }
            }
        } else {
            assert(all == init);
        }
    }
}

proof fn lemma_rows_of_contains(assign: Seq<usize>, k: int, upto: int, q: int) -> (j: int)
    requires
        0 <= q < upto <= assign.len(),
        assign.len() <= usize::MAX,
        assign[q] == k,
    ensures
        0 <= j < rows_of(assign, k, upto).len(),
        rows_of(assign, k, upto)[j] == q,
    decreases upto,
{
    let init = rows_of(assign, k, upto - 1);
    if q == upto - 1 {
        assert(rows_of(assign, k, upto) == init.push(q as usize));
        init.len() as int
    } else {
        let j = lemma_rows_of_contains(assign, k, upto - 1, q);
        if assign[upto - 1] == k {
            assert(rows_of(assign, k, upto) == init.push((upto - 1) as usize));
            assert(rows_of(assign, k, upto)[j] == init[j]);
        }
        j
    }
}

/// Strict lexicographic order on sort keys.
pub open spec fn key_lt(a: (i128, i128), b: (i128, i128)) -> bool {
    a.0 < b.0 || (a.0 == b.0 && a.1 < b.1)
}

/// Row `x` comes before row `y`: by key, and among equal keys by position.
pub open spec fn precedes(keys: Seq<(i128, i128)>, x: usize, y: usize) -> bool {
    key_lt(keys[x as int], keys[y as int]) || (keys[x as int] == keys[y as int] && x < y)
}

/// `perm` lists every row once, ordered by key; rows with equal keys keep
/// their relative order.
pub open spec fn is_stable_order(keys: Seq<(i128, i128)>, perm: Seq<usize>) -> bool {
    &&& perm.len() == keys.len()
    &&& forall|t: int| 0 <= t < perm.len() ==> #[trigger] perm[t] < keys.len()
    &&& forall|v: int| 0 <= v < keys.len() ==> #[trigger] perm.contains(v as usize)
    &&& forall|a: int, b: int|
        0 <= a < b < perm.len() ==> precedes(keys, #[trigger] perm[a], #[trigger] perm[b])
}

fn key_less(a: (i128, i128), b: (i128, i128)) -> (r: bool)
    ensures
        r == key_lt(a, b),
{
    a.0 < b.0 || (a.0 == b.0 && a.1 < b.1)
}

/// The stable order of the rows by key.
pub fn stable_order(keys: &Vec<(i128, i128)>) -> (perm: Vec<usize>)
    ensures
        is_stable_order(keys@, perm@),
{
    let n = keys.len();
    let mut perm: Vec<usize> = Vec::new();
    let mut i: usize = 0;
    while i < n
        invariant
            n == keys@.len(),
            i <= n,
            perm@.len() == i,
            forall|t: int| 0 <= t < perm@.len() ==> #[trigger] perm@[t] < i,
            forall|v: int| 0 <= v < i ==> #[trigger] perm@.contains(v as usize),
            forall|a: int, b: int|
                0 <= a < b < perm@.len() ==> precedes(keys@, #[trigger] perm@[a], #[trigger] perm@[b]),
        decreases n - i,
    {
        let key = keys[i];
        let mut j: usize = 0;
        while j < perm.len() && !key_less(key, keys[perm[j]])
            invariant
                n == keys@.len(),
                i < n,
                key == keys@[i as int],
                j <= perm@.len(),
                forall|t: int| 0 <= t < perm@.len() ==> #[trigger] perm@[t] < i,
                forall|t: int| 0 <= t < j ==> !key_lt(key, keys@[#[trigger] perm@[t] as int]),
            decreases perm@.len() - j,
        {
            j = j + 1;
        }
        let ghost before = perm@;
        proof {
            assert forall|t: int| j <= t < before.len() implies key_lt(
                key,
                keys@[#[trigger] before[t] as int],
            ) by {
                if t > j {
                    assert(precedes(keys@, before[j as int], before[t]));
                }
            }
        }
        perm.insert(j, i);
        proof {
            assert(perm@ == before.insert(j as int, i));
            assert forall|t: int| 0 <= t < perm@.len() implies #[trigger] perm@[t] < i + 1 by {
                if t < j {
                    assert(perm@[t] == before[t]);
                } else if t > j {
                    assert(perm@[t] == before[t - 1]);
                }
            }
            assert forall|v: int| 0 <= v < i + 1 implies #[trigger] perm@.contains(v as usize) by {
                if v < i {
                    assert(before.contains(v as usize));
                    let t = choose|t: int| 0 <= t < before.len() && before[t] == v as usize;
                    if t < j {
                        assert(perm@[t] == before[t]);
                    } else {
                        assert(perm@[t + 1] == before[t]);
                    }
                } else {
                    assert(perm@[j as int] == i);
                }
            }
            assert forall|a: int, b: int| 0 <= a < b < perm@.len() implies precedes(
                keys@,
                #[trigger] perm@[a],
                #[trigger] perm@[b],
            ) by {
                if b < j {
                    assert(perm@[a] == before[a] && perm@[b] == before[b]);
                } else if b == j {
                    assert(perm@[a] == before[a]);
                    assert(!key_lt(key, keys@[before[a] as int]));
                } else if a < j {
                    assert(perm@[a] == before[a] && perm@[b] == before[b - 1]);
                } else if a == j {
                    assert(perm@[b] == before[b - 1]);
                    assert(key_lt(key, keys@[before[b - 1] as int]));
                } else {
                    assert(perm@[a] == before[a - 1] && perm@[b] == before[b - 1]);
                }
            }
        }
        i = i + 1;
    }
    perm
}

} // verus!
