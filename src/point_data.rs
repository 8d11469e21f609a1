use crate::columns::PointDataColumnType;
use crate::error::Error;
use crate::octree::OctantIndex;
use crate::selection::{
    any_set, lemma_count_zero, lemma_masked_len, mask_any, masked, select_copied,
    select_strings,
};
use vstd::prelude::*;

verus! {

/// A point in time: non-leap seconds since the UNIX epoch and the nanoseconds
/// since the last whole second.
#[derive(Debug, Clone, Copy, PartialEq, Eq, Structural)]
pub struct Timestamp {
    pub seconds: i64,
    pub nanoseconds: u32,
}

/// `a` lies strictly before `b`.
pub open spec fn time_lt(a: Timestamp, b: Timestamp) -> bool {
    a.seconds < b.seconds || (a.seconds == b.seconds && a.nanoseconds < b.nanoseconds)
}

fn time_less(a: Timestamp, b: Timestamp) -> (r: bool)
    ensures
        r == time_lt(a, b),
{
    a.seconds < b.seconds || (a.seconds == b.seconds && a.nanoseconds < b.nanoseconds)
}

impl Timestamp {
    pub fn new(seconds: i64, nanoseconds: u32) -> (r: Self)
        ensures
            r.seconds == seconds,
            r.nanoseconds == nanoseconds,
    {
        Timestamp { seconds, nanoseconds }
    }
}

/// The columnar point store.
///
/// `points` holds for each row the values the library never inspects
/// (coordinates and attributes that only `P` knows); the key columns the
/// library reasons about are held as plain values. Every present column has
/// one entry per row, and the store is never empty.
#[derive(Debug, Clone)]
pub struct PointData<P> {
    pub points: Vec<P>,
    pub ids: Option<Vec<u64>>,
    pub frame_ids: Option<Vec<String>>,
    pub timestamps: Option<Vec<Timestamp>>,
    /// The octant index of the cell of a spatial index that holds the point.
    pub octant_indices: Option<Vec<OctantIndex>>,
}

/// The abstract content of a store: one sequence per column.
pub struct PointDataView<P> {
    pub points: Seq<P>,
    pub ids: Option<Seq<u64>>,
    pub frame_ids: Option<Seq<Seq<char>>>,
    pub timestamps: Option<Seq<Timestamp>>,
    pub octant_indices: Option<Seq<OctantIndex>>,
}

pub open spec fn strings_view(v: Seq<String>) -> Seq<Seq<char>> {
    v.map_values(|s: String| s@)
}

pub open spec fn opt_len_ok<T>(c: Option<Seq<T>>, n: nat) -> bool {
    c matches Some(v) ==> v.len() == n
}

pub open spec fn opt_masked<T>(c: Option<Seq<T>>, mask: Seq<bool>) -> Option<Seq<T>> {
    match c {
        Some(v) => Some(masked(v, mask, v.len())),
        None => None,
    }
}

impl<P> PointDataView<P> {
    pub open spec fn height(self) -> nat {
        self.points.len()
    }

    pub open spec fn wf(self) -> bool {
        &&& self.points.len() > 0
        &&& opt_len_ok(self.ids, self.points.len())
        &&& opt_len_ok(self.frame_ids, self.points.len())
        &&& opt_len_ok(self.timestamps, self.points.len())
        &&& opt_len_ok(self.octant_indices, self.points.len())
    }

    /// The rows whose mask entry is set, every column kept.
    pub open spec fn masked(self, mask: Seq<bool>) -> PointDataView<P> {
        PointDataView {
            points: masked(self.points, mask, self.points.len()),
            ids: opt_masked(self.ids, mask),
            frame_ids: opt_masked(self.frame_ids, mask),
            timestamps: opt_masked(self.timestamps, mask),
            octant_indices: opt_masked(self.octant_indices, mask),
        }
    }
}

impl<P> View for PointData<P> {
    type V = PointDataView<P>;

    open spec fn view(&self) -> PointDataView<P> {
        PointDataView {
            points: self.points@,
            ids: match self.ids {
                Some(v) => Some(v@),
                None => None,
            },
            frame_ids: match self.frame_ids {
                Some(v) => Some(strings_view(v@)),
                None => None,
            },
            timestamps: match self.timestamps {
                Some(v) => Some(v@),
                None => None,
            },
            octant_indices: match self.octant_indices {
                Some(v) => Some(v@),
                None => None,
            },
        }
    }
}

proof fn lemma_strings_masked(v: Seq<String>, mask: Seq<bool>, n: nat)
    requires
        n <= v.len(),
        n <= mask.len(),
    ensures
        strings_view(masked(v, mask, n)) == masked(strings_view(v), mask, n),
    decreases n,
{
    if n > 0 {
        lemma_strings_masked(v, mask, (n - 1) as nat);
        assert(strings_view(masked(v, mask, n)) =~= masked(strings_view(v), mask, n));
    }
}

impl<P: Copy> PointData<P> {
    pub open spec fn wf(&self) -> bool {
        self@.wf()
    }

    /// Builds a store from row-aligned columns.
    pub fn new(
        points: Vec<P>,
        ids: Option<Vec<u64>>,
        frame_ids: Option<Vec<String>>,
        timestamps: Option<Vec<Timestamp>>,
    ) -> (r: Result<Self, Error>)
        ensures
            points@.len() == 0 <==> r == Err::<Self, Error>(Error::NoData),
            r is Ok <==> points@.len() > 0 && (ids matches Some(v) ==> v@.len() == points@.len())
                && (frame_ids matches Some(v) ==> v@.len() == points@.len()) && (
            timestamps matches Some(v) ==> v@.len() == points@.len()),
            r matches Err(e) ==> e is NoData || e is ShapeMismatch,
            r matches Ok(d) ==> d.wf() && d.points == points && d.ids == ids && d.frame_ids
                == frame_ids && d.timestamps == timestamps && d.octant_indices is None,
    {
        let n = points.len();
        if n == 0 {
            return Err(Error::NoData);
        }
        if let Some(v) = &ids {
            if v.len() != n {
                return Err(Error::ShapeMismatch);
            }
        }
        if let Some(v) = &frame_ids {
            if v.len() != n {
                return Err(Error::ShapeMismatch);
            }
        }
        if let Some(v) = &timestamps {
            if v.len() != n {
                return Err(Error::ShapeMismatch);
            }
        }
        Ok(PointData { points, ids, frame_ids, timestamps, octant_indices: None })
    }

    /// Number of rows.
    pub fn height(&self) -> (r: usize)
        ensures
            r == self@.height(),
    {
        self.points.len()
    }

    pub fn contains_id_column(&self) -> (r: bool)
        ensures
            r == self.ids is Some,
    {
        self.ids.is_some()
    }

    pub fn contains_frame_id_column(&self) -> (r: bool)
        ensures
            r == self.frame_ids is Some,
    {
        self.frame_ids.is_some()
    }

    /// Whether both timestamp columns (seconds and nanoseconds) are present.
    pub fn contains_timestamps(&self) -> (r: bool)
        ensures
            r == self.timestamps is Some,
    {
        self.timestamps.is_some()
    }

    /// The rows whose mask entry is set, or `None` where no entry is set.
    pub fn select_by_mask(&self, mask: &Vec<bool>) -> (r: Option<Self>)
        requires
            self.wf(),
            mask@.len() == self@.height(),
        ensures
            r is None <==> !any_set(mask@, mask@.len()),
            r matches Some(d) ==> d.wf() && d@ == self@.masked(mask@),
    {
        if !mask_any(mask) {
            return None;
        }
        let points = select_copied(&self.points, mask);
        let ids = match &self.ids {
            Some(v) => Some(select_copied(v, mask)),
            None => None,
        };
        let frame_ids = match &self.frame_ids {
            Some(v) => Some(select_strings(v, mask)),
            None => None,
        };
        let timestamps = match &self.timestamps {
            Some(v) => Some(select_copied(v, mask)),
            None => None,
        };
        let octant_indices = match &self.octant_indices {
            Some(v) => Some(select_copied(v, mask)),
            None => None,
        };
        let r = PointData { points, ids, frame_ids, timestamps, octant_indices };
        proof {
            let n = mask@.len();
            lemma_count_zero(mask@, n);
            lemma_masked_len(self.points@, mask@, n);
            if let Some(v) = &self.ids {
                lemma_masked_len(v@, mask@, n);
            }
            if let Some(v) = &self.frame_ids {
                lemma_masked_len(v@, mask@, n);
                lemma_strings_masked(v@, mask@, n);
                lemma_masked_len(strings_view(v@), mask@, n);
            }
            if let Some(v) = &self.timestamps {
                lemma_masked_len(v@, mask@, n);
            }
            if let Some(v) = &self.octant_indices {
                lemma_masked_len(v@, mask@, n);
            }
            assert(r@ == self@.masked(mask@));
        }
        Some(r)
    }

    /// Keeps the rows whose mask entry is set; `None` where none is.
    pub fn filter_by_boolean_mask(&self, mask: &Vec<bool>) -> (r: Result<Option<Self>, Error>)
        requires
            self.wf(),
        ensures
            mask@.len() > self@.height() <==> r == Err::<Option<Self>, Error>(
                Error::RowIndexOutsideRange,
            ),
            mask@.len() < self@.height() <==> r == Err::<Option<Self>, Error>(
                Error::ShapeMismatch,
            ),
            mask@.len() == self@.height() ==> (r matches Ok(o) && (o is None <==> !any_set(
                mask@,
                mask@.len(),
            ))),
            r matches Ok(Some(d)) ==> d.wf() && d@ == self@.masked(mask@),
    {
        if mask.len() > self.height() {
            return Err(Error::RowIndexOutsideRange);
        }
        if mask.len() < self.height() {
            return Err(Error::ShapeMismatch);
        }
        Ok(self.select_by_mask(mask))
    }

    /// Keeps the rows whose index is listed; an index may be listed more than once.
    pub fn filter_by_row_indices(&self, row_indices: &Vec<usize>) -> (r: Result<Self, Error>)
        requires
            self.wf(),
        ensures
            row_indices@.len() == 0 <==> r == Err::<Self, Error>(Error::NoRowIndices),
            (row_indices@.len() > 0 && exists|k: int|
                0 <= k < row_indices@.len() && #[trigger] row_indices@[k] >= self@.height())
                <==> r == Err::<Self, Error>(Error::RowIndexOutsideRange),
            r matches Ok(d) ==> d.wf() && d@ == self@.masked(
                index_mask(row_indices@, self@.height()),
            ),
            r matches Err(e) ==> e is NoRowIndices || e is RowIndexOutsideRange,
    {
        if row_indices.len() == 0 {
            return Err(Error::NoRowIndices);
        }
        let n = self.height();
        let mut mask: Vec<bool> = Vec::new();
        let mut i: usize = 0;
        while i < n
            invariant
                n == self@.height(),
                i <= n,
                mask@ == Seq::new(i as nat, |j: int| false),
            decreases n - i,
        {
            mask.push(false);
            proof {
                assert(mask@ =~= Seq::new((i + 1) as nat, |j: int| false));
            }
            i = i + 1;
        }
        let mut k: usize = 0;
        while k < row_indices.len()
            invariant
                n == self@.height(),
                mask@.len() == n,
                k <= row_indices@.len(),
                forall|j: int| 0 <= j < k ==> #[trigger] row_indices@[j] < n,
                forall|i: int|
                    0 <= i < n ==> (#[trigger] mask@[i] <==> exists|j: int|
                        0 <= j < k && row_indices@[j] == i),
            decreases row_indices@.len() - k,
        {
            let index = row_indices[k];
            if index >= n {
                return Err(Error::RowIndexOutsideRange);
            }
            proof {
                assert forall|i: int|
                    0 <= i < n && (exists|j: int| 0 <= j < k + 1 && row_indices@[j] == i)
                    implies mask@.update(index as int, true)[i] by {
                    let j = choose|j: int| 0 <= j < k + 1 && row_indices@[j] == i;
                    if j < k {
                        assert(mask@[i]);
                    }
                }
            }
            mask.set(index, true);
            k = k + 1;
        }
        proof {
            assert(mask@ =~= index_mask(row_indices@, n as nat));
            assert(mask@[row_indices@[0] as int]);
        }
        match self.select_by_mask(&mask) {
            Some(d) => Ok(d),
            None => Err(Error::NoRowIndices),
        }
    }

    /// Numbers the rows `0, 1, ...` in a new id column.
    pub fn add_sequential_id(&mut self) -> (r: Result<(), Error>)
        requires
            old(self).wf(),
        ensures
            final(self).wf(),
            final(self).octant_indices == old(self).octant_indices,
            old(self).ids is Some ==> r == Err::<(), Error>(Error::ColumnAlreadyExists)
                && *final(self) == *old(self),
            old(self).ids is None ==> r is Ok && final(self).points == old(self).points
                && final(self).frame_ids == old(self).frame_ids && final(self).timestamps
                == old(self).timestamps && final(self)@.ids == Some(
                Seq::new(old(self)@.height(), |i: int| i as u64),
            ),
    {
        if self.ids.is_some() {
            return Err(Error::ColumnAlreadyExists);
        }
        let n = self.points.len();
        let mut ids: Vec<u64> = Vec::new();
        let mut i: usize = 0;
        while i < n
            invariant
                i <= n,
                ids@ == Seq::new(i as nat, |j: int| j as u64),
            decreases n - i,
        {
            ids.push(i as u64);
            proof {
                assert(ids@ =~= Seq::new((i + 1) as nat, |j: int| j as u64));
            }
            i = i + 1;
        }
        self.ids = Some(ids);
        Ok(())
    }

    /// Adds a frame id per row.
    pub fn add_frame_ids(&mut self, frame_ids: Vec<String>) -> (r: Result<(), Error>)
        requires
            old(self).wf(),
        ensures
            final(self).wf(),
            final(self).octant_indices == old(self).octant_indices,
            old(self).frame_ids is Some ==> r == Err::<(), Error>(Error::ColumnAlreadyExists),
            old(self).frame_ids is None && frame_ids@.len() != old(self)@.height() ==> r
                == Err::<(), Error>(Error::ShapeMismatch),
            r is Err ==> *final(self) == *old(self),
            r is Ok <==> old(self).frame_ids is None && frame_ids@.len() == old(self)@.height(),
            r is Ok ==> final(self).points == old(self).points && final(self).ids == old(
                self,
            ).ids && final(self).timestamps == old(self).timestamps && final(self).frame_ids
                == Some(frame_ids),
    {
        if self.frame_ids.is_some() {
            return Err(Error::ColumnAlreadyExists);
        }
        if frame_ids.len() != self.points.len() {
            return Err(Error::ShapeMismatch);
        }
        self.frame_ids = Some(frame_ids);
        Ok(())
    }

    /// Adds the same frame id to every row.
    pub fn add_unique_frame_id(&mut self, frame_id: String) -> (r: Result<(), Error>)
        requires
            old(self).wf(),
        ensures
            final(self).wf(),
            final(self).octant_indices == old(self).octant_indices,
            old(self).frame_ids is Some <==> r == Err::<(), Error>(Error::ColumnAlreadyExists),
            r is Err ==> *final(self) == *old(self),
            r is Ok ==> final(self).points == old(self).points && final(self).ids == old(
                self,
            ).ids && final(self).timestamps == old(self).timestamps && final(self)@.frame_ids
                == Some(Seq::new(old(self)@.height(), |i: int| frame_id@)),
    {
        if self.frame_ids.is_some() {
            return Err(Error::ColumnAlreadyExists);
        }
        let n = self.points.len();
        let mut frame_ids: Vec<String> = Vec::new();
        let mut i: usize = 0;
        while i < n
            invariant
                i <= n,
                frame_ids@.len() == i,
                strings_view(frame_ids@) == Seq::new(i as nat, |j: int| frame_id@),
            decreases n - i,
        {
            let ghost prev = frame_ids@;
            frame_ids.push(frame_id.clone());
            proof {
                assert forall|j: int| 0 <= j < i + 1 implies strings_view(frame_ids@)[j]
                    == frame_id@ by {
                    if j < i {
                        assert(strings_view(prev)[j] == frame_id@);
                        assert(frame_ids@[j] == prev[j]);
                    }
                }
                assert(strings_view(frame_ids@) =~= Seq::new((i + 1) as nat, |j: int| frame_id@));
            }
            i = i + 1;
        }
        self.frame_ids = Some(frame_ids);
        Ok(())
    }

    /// Adds a timestamp per row.
    pub fn add_timestamps(&mut self, timestamps: Vec<Timestamp>) -> (r: Result<(), Error>)
        requires
            old(self).wf(),
        ensures
            final(self).wf(),
            final(self).octant_indices == old(self).octant_indices,
            old(self).timestamps is Some ==> r == Err::<(), Error>(Error::ColumnAlreadyExists),
            old(self).timestamps is None && timestamps@.len() != old(self)@.height() ==> r
                == Err::<(), Error>(Error::ShapeMismatch),
            r is Err ==> *final(self) == *old(self),
            r is Ok <==> old(self).timestamps is None && timestamps@.len() == old(self)@.height(),
            r is Ok ==> final(self).points == old(self).points && final(self).ids == old(
                self,
            ).ids && final(self).frame_ids == old(self).frame_ids && final(self).timestamps
                == Some(timestamps),
    {
        if self.timestamps.is_some() {
            return Err(Error::ColumnAlreadyExists);
        }
        if timestamps.len() != self.points.len() {
            return Err(Error::ShapeMismatch);
        }
        self.timestamps = Some(timestamps);
        Ok(())
    }

    /// Adds the octant index of every row.
    pub fn add_octant_indices(&mut self, octant_indices: Vec<OctantIndex>) -> (r: Result<(), Error>)
        requires
            old(self).wf(),
        ensures
            final(self).wf(),
            old(self).octant_indices is Some ==> r == Err::<(), Error>(Error::ColumnAlreadyExists),
            old(self).octant_indices is None && octant_indices@.len() != old(self)@.height() ==> r
                == Err::<(), Error>(Error::ShapeMismatch),
            r is Err ==> *final(self) == *old(self),
            r is Ok <==> old(self).octant_indices is None && octant_indices@.len() == old(
                self,
            )@.height(),
            r is Ok ==> final(self).points == old(self).points && final(self).ids == old(self).ids
                && final(self).frame_ids == old(self).frame_ids && final(self).timestamps == old(
                self,
            ).timestamps && final(self).octant_indices == Some(octant_indices),
    {
        if self.octant_indices.is_some() {
            return Err(Error::ColumnAlreadyExists);
        }
        if octant_indices.len() != self.points.len() {
            return Err(Error::ShapeMismatch);
        }
        self.octant_indices = Some(octant_indices);
        Ok(())
    }

    /// Keeps the rows whose id lies within the given inclusive bounds; an
    /// absent bound does not restrict.
    pub fn filter_by_id_range(&self, id_min: Option<u64>, id_max: Option<u64>) -> (r: Result<
        Option<Self>,
        Error,
    >)
        requires
            self.wf(),
        ensures
            self.ids is None <==> r == Err::<Option<Self>, Error>(Error::NoIdColumn),
            self.ids is Some ==> (r matches Ok(o) && (o is None <==> !any_set(
                id_range_mask(self@.ids.unwrap(), id_min, id_max),
                self@.height(),
            )) && (o matches Some(d) ==> d.wf() && d@ == self@.masked(
                id_range_mask(self@.ids.unwrap(), id_min, id_max),
            ))),
    {
        let ids = match &self.ids {
            Some(v) => v,
            None => {
                return Err(Error::NoIdColumn);
            },
        };
        let mut mask: Vec<bool> = Vec::new();
        let mut i: usize = 0;
        while i < ids.len()
            invariant
                i <= ids@.len(),
                mask@ == id_range_mask(ids@, id_min, id_max).subrange(0, i as int),
            decreases ids@.len() - i,
        {
            let id = ids[i];
            let above = match id_min {
                Some(lo) => id >= lo,
                None => true,
            };
            let below = match id_max {
                Some(hi) => id <= hi,
                None => true,
            };
            mask.push(above && below);
            proof {
                assert(mask@ =~= id_range_mask(ids@, id_min, id_max).subrange(0, i + 1));
            }
            i = i + 1;
        }
        proof {
            assert(mask@ =~= id_range_mask(ids@, id_min, id_max));
        }
        Ok(self.select_by_mask(&mask))
    }

    /// The distinct frame ids of the frame column, in order of first occurrence.
    pub fn get_distinct_frame_ids(&self) -> (r: Result<Vec<String>, Error>)
        requires
            self.wf(),
        ensures
            self.frame_ids is None <==> r == Err::<Vec<String>, Error>(Error::NoFrameIdDefinitions),
            self.frame_ids is Some <==> r is Ok,
            r matches Ok(v) ==> strings_view(v@).no_duplicates() && strings_view(v@).to_set()
                == self@.frame_ids.unwrap().to_set(),
    {
        let frame_ids = match &self.frame_ids {
            Some(v) => v,
            None => {
                return Err(Error::NoFrameIdDefinitions);
            },
        };
        let mut distinct: Vec<String> = Vec::new();
        let mut i: usize = 0;
        while i < frame_ids.len()
            invariant
                i <= frame_ids@.len(),
                strings_view(distinct@).no_duplicates(),
                strings_view(distinct@).to_set() == strings_view(frame_ids@).subrange(
                    0,
                    i as int,
                ).to_set(),
            decreases frame_ids@.len() - i,
        {
            let current = &frame_ids[i];
            let mut found = false;
            let mut k: usize = 0;
            while k < distinct.len()
                invariant
                    k <= distinct@.len(),
                    found <==> exists|j: int| 0 <= j < k && distinct@[j]@ == current@,
                decreases distinct@.len() - k,
            {
                if distinct[k] == *current {
                    found = true;
                }
                k = k + 1;
            }
            proof {
                let before = strings_view(frame_ids@).subrange(0, i as int);
                let after = strings_view(frame_ids@).subrange(0, i + 1);
                assert(after =~= before.push(current@));
                before.lemma_push_to_set_commute(current@);
                if found {
                    let j = choose|j: int| 0 <= j < distinct@.len() && distinct@[j]@ == current@;
                    assert(strings_view(distinct@)[j] == current@);
                    assert(strings_view(distinct@).to_set().contains(current@));
                    assert(after.to_set() =~= before.to_set());
                }
            }
            if !found {
                let ghost old_distinct = strings_view(distinct@);
                distinct.push(current.clone());
                proof {
                    assert(strings_view(distinct@) =~= old_distinct.push(current@));
                    old_distinct.lemma_push_to_set_commute(current@);
                    assert(!old_distinct.contains(current@)) by {
                        if old_distinct.contains(current@) {
                            let j = choose|j: int| 0 <= j < old_distinct.len() && old_distinct[j] == current@;
                            assert(distinct@[j]@ == current@);
                        }
                    }
                }
            }
            i = i + 1;
        }
        proof {
            assert(strings_view(frame_ids@).subrange(0, frame_ids@.len() as int) =~= strings_view(frame_ids@));
        }
        Ok(distinct)
    }
}

/// The mask that marks the listed row indices among `n` rows.
pub open spec fn index_mask(indices: Seq<usize>, n: nat) -> Seq<bool> {
    Seq::new(n, |i: int| exists|j: int| 0 <= j < indices.len() && indices[j] == i)
}

/// The mask that marks the ids inside the inclusive bounds.
pub open spec fn id_range_mask(ids: Seq<u64>, id_min: Option<u64>, id_max: Option<u64>) -> Seq<bool> {
    Seq::new(
        ids.len(),
        |i: int|
            (id_min matches Some(lo) ==> ids[i] >= lo) && (id_max matches Some(hi) ==> ids[i] <= hi),
    )
}

/// The entries of `s` at the listed positions, in the order listed.
pub open spec fn taken<T>(s: Seq<T>, rows: Seq<usize>) -> Seq<T> {
    rows.map_values(|r: usize| s[r as int])
}

pub open spec fn opt_taken<T>(c: Option<Seq<T>>, rows: Seq<usize>) -> Option<Seq<T>> {
    match c {
        Some(v) => Some(taken(v, rows)),
        None => None,
    }
}

/// All listed positions lie below `n`.
pub open spec fn rows_below(rows: Seq<usize>, n: nat) -> bool {
    forall|t: int| 0 <= t < rows.len() ==> #[trigger] rows[t] < n
}

/// Sort key of a row in canonical order: its timestamp where the store has
/// timestamps and no ids, else its id where it has ids, else none at all.
pub open spec fn canonical_key<P>(d: PointDataView<P>, r: int) -> (i128, i128) {
    if d.timestamps is Some && d.ids is None {
        (d.timestamps.unwrap()[r].seconds as i128, d.timestamps.unwrap()[r].nanoseconds as i128)
    } else if d.ids is Some {
        (d.ids.unwrap()[r] as i128, 0i128)
    } else {
        (0i128, 0i128)
    }
}

pub open spec fn canonical_keys<P>(d: PointDataView<P>) -> Seq<(i128, i128)> {
    Seq::new(d.height(), |r: int| canonical_key(d, r))
}

impl<P> PointDataView<P> {
    /// The listed rows, every column kept.
    pub open spec fn take(self, rows: Seq<usize>) -> PointDataView<P> {
        PointDataView {
            points: taken(self.points, rows),
            ids: opt_taken(self.ids, rows),
            frame_ids: opt_taken(self.frame_ids, rows),
            timestamps: opt_taken(self.timestamps, rows),
            octant_indices: opt_taken(self.octant_indices, rows),
        }
    }

    /// The same rows with their payload replaced.
    pub open spec fn with_points(self, points: Seq<P>) -> PointDataView<P> {
        PointDataView { points, ..self }
    }
}

fn copy_vec<T: Copy>(v: &Vec<T>) -> (r: Vec<T>)
    ensures
        r@ == v@,
{
    let mut r: Vec<T> = Vec::new();
    let mut i: usize = 0;
    while i < v.len()
        invariant
            i <= v@.len(),
            r@ == v@.subrange(0, i as int),
        decreases v@.len() - i,
    {
        r.push(v[i]);
        proof {
            assert(r@ =~= v@.subrange(0, i + 1));
        }
        i = i + 1;
    }
    proof {
        assert(r@ =~= v@);
    }
    r
}

fn clone_strings(v: &Vec<String>) -> (r: Vec<String>)
    ensures
        r@ == v@,
{
    let mut r: Vec<String> = Vec::new();
    let mut i: usize = 0;
    while i < v.len()
        invariant
            i <= v@.len(),
            r@ == v@.subrange(0, i as int),
        decreases v@.len() - i,
    {
        r.push(v[i].clone());
        proof {
            assert(r@ =~= v@.subrange(0, i + 1));
        }
        i = i + 1;
    }
    proof {
        assert(r@ =~= v@);
    }
    r
}

pub open spec fn opt_appended<T>(a: Option<Seq<T>>, b: Option<Seq<T>>) -> Option<Seq<T>> {
    match (a, b) {
        (Some(x), Some(y)) => Some(x + y),
        _ => None,
    }
}

impl<P> PointDataView<P> {
    /// The rows of `self` followed by those of `other`.
    pub open spec fn appended(self, other: PointDataView<P>) -> PointDataView<P> {
        PointDataView {
            points: self.points + other.points,
            ids: opt_appended(self.ids, other.ids),
            frame_ids: opt_appended(self.frame_ids, other.frame_ids),
            timestamps: opt_appended(self.timestamps, other.timestamps),
            octant_indices: opt_appended(self.octant_indices, other.octant_indices),
        }
    }
}

fn extend_copied<T: Copy>(v: &mut Vec<T>, w: &Vec<T>)
    ensures
        final(v)@ == old(v)@ + w@,
{
    let ghost start = v@;
    let mut i: usize = 0;
    while i < w.len()
        invariant
            i <= w@.len(),
            v@ == start + w@.subrange(0, i as int),
        decreases w@.len() - i,
    {
        v.push(w[i]);
        proof {
            assert(v@ =~= start + w@.subrange(0, i + 1));
        }
        i = i + 1;
    }
    proof {
        assert(w@.subrange(0, w@.len() as int) =~= w@);
    }
}

fn extend_strings(v: &mut Vec<String>, w: &Vec<String>)
    ensures
        strings_view(final(v)@) == strings_view(old(v)@) + strings_view(w@),
        final(v)@.len() == old(v)@.len() + w@.len(),
{
    let ghost start = v@;
    let mut i: usize = 0;
    while i < w.len()
        invariant
            i <= w@.len(),
            v@ == start + w@.subrange(0, i as int),
        decreases w@.len() - i,
    {
        v.push(w[i].clone());
        proof {
            assert(v@ =~= start + w@.subrange(0, i + 1));
        }
        i = i + 1;
    }
    proof {
        assert(w@.subrange(0, w@.len() as int) =~= w@);
        assert(strings_view(v@) =~= strings_view(start) + strings_view(w@));
    }
}

/// The entries of `v` at the listed positions.
pub fn take_copied<T: Copy>(v: &Vec<T>, rows: &Vec<usize>) -> (r: Vec<T>)
    requires
        rows_below(rows@, v@.len()),
    ensures
        r@ == taken(v@, rows@),
{
    let mut r: Vec<T> = Vec::new();
    let mut t: usize = 0;
    while t < rows.len()
        invariant
            t <= rows@.len(),
            rows_below(rows@, v@.len()),
            r@ == taken(v@, rows@.subrange(0, t as int)),
        decreases rows@.len() - t,
    {
        r.push(v[rows[t]]);
        proof {
            assert(r@ =~= taken(v@, rows@.subrange(0, t + 1)));
        }
        t = t + 1;
    }
    proof {
        assert(rows@.subrange(0, rows@.len() as int) =~= rows@);
    }
    r
}

fn take_strings(v: &Vec<String>, rows: &Vec<usize>) -> (r: Vec<String>)
    requires
        rows_below(rows@, v@.len()),
    ensures
        strings_view(r@) == taken(strings_view(v@), rows@),
        r@.len() == rows@.len(),
{
    let mut r: Vec<String> = Vec::new();
    let mut t: usize = 0;
    while t < rows.len()
        invariant
            t <= rows@.len(),
            rows_below(rows@, v@.len()),
            r@.len() == t,
            strings_view(r@) == taken(strings_view(v@), rows@.subrange(0, t as int)),
        decreases rows@.len() - t,
    {
        let ghost prev = r@;
        r.push(v[rows[t]].clone());
        proof {
            assert forall|q: int| 0 <= q < t implies strings_view(r@)[q] == strings_view(prev)[q] by {
                assert(r@[q] == prev[q]);
            }
            assert(strings_view(r@)[t as int] == strings_view(v@)[rows@[t as int] as int]);
            assert forall|q: int| 0 <= q < t + 1 implies strings_view(r@)[q] == taken(
                strings_view(v@),
                rows@.subrange(0, t + 1),
            )[q] by {
                if q < t {
                    assert(strings_view(prev)[q] == taken(strings_view(v@), rows@.subrange(0, t as int))[q]);
                }
            }
            assert(strings_view(r@) =~= taken(strings_view(v@), rows@.subrange(0, t + 1)));
        }
        t = t + 1;
    }
    proof {
        assert(rows@.subrange(0, rows@.len() as int) =~= rows@);
    }
    r
}

impl<P: Copy> PointData<P> {
    /// The listed rows, in the order listed, every column kept.
    pub fn take(&self, rows: &Vec<usize>) -> (r: Self)
        requires
            self.wf(),
            rows@.len() > 0,
            rows_below(rows@, self@.height()),
        ensures
            r.wf(),
            r@ == self@.take(rows@),
    {
        let points = take_copied(&self.points, rows);
        let ids = match &self.ids {
            Some(v) => Some(take_copied(v, rows)),
            None => None,
        };
        let frame_ids = match &self.frame_ids {
            Some(v) => Some(take_strings(v, rows)),
            None => None,
        };
        let timestamps = match &self.timestamps {
            Some(v) => Some(take_copied(v, rows)),
            None => None,
        };
        let octant_indices = match &self.octant_indices {
            Some(v) => Some(take_copied(v, rows)),
            None => None,
        };
        PointData { points, ids, frame_ids, timestamps, octant_indices }
    }

    /// Whether the store itself holds the column: the coordinates (in the
    /// payload, but mandatory), ids, frame ids, the timestamp columns and the
    /// octant index columns.
    pub open spec fn holds_column(&self, column: PointDataColumnType) -> bool {
        match column {
            PointDataColumnType::X | PointDataColumnType::Y | PointDataColumnType::Z => true,
            PointDataColumnType::Id => self.ids is Some,
            PointDataColumnType::FrameId => self.frame_ids is Some,
            PointDataColumnType::TimestampSecond | PointDataColumnType::TimestampNanoSecond =>
                self.timestamps is Some,
            PointDataColumnType::OctantIndexLevel | PointDataColumnType::OctantIndexX
            | PointDataColumnType::OctantIndexY | PointDataColumnType::OctantIndexZ =>
                self.octant_indices is Some,
            _ => false,
        }
    }

    /// Removes a column. The coordinates cannot be removed; removing either
    /// timestamp column removes the timestamps, and removing one of the octant
    /// index columns removes the octant indices. A column the store does not
    /// hold (absent, or carried in the payload) is refused.
    pub fn remove_column(&mut self, column: PointDataColumnType) -> (r: Result<(), Error>)
        requires
            old(self).wf(),
        ensures
            final(self).wf(),
            column.spec_is_obligatory() <==> r == Err::<(), Error>(Error::ObligatoryColumn),
            !old(self).holds_column(column) <==> r == Err::<(), Error>(Error::ColumnNotFound),
            (!column.spec_is_obligatory() && old(self).holds_column(column)) <==> r is Ok,
            r is Err ==> *final(self) == *old(self),
            r is Ok ==> final(self).points == old(self).points && !final(self).holds_column(
                column,
            ),
            r is Ok ==> final(self).ids == (if column == PointDataColumnType::Id {
                None
            } else {
                old(self).ids
            }),
            r is Ok ==> final(self).frame_ids == (if column == PointDataColumnType::FrameId {
                None
            } else {
                old(self).frame_ids
            }),
            r is Ok ==> final(self).timestamps == (if column == PointDataColumnType::TimestampSecond
                || column == PointDataColumnType::TimestampNanoSecond {
                None
            } else {
                old(self).timestamps
            }),
            r is Ok ==> final(self).octant_indices == (if column
                == PointDataColumnType::OctantIndexLevel || column
                == PointDataColumnType::OctantIndexX || column == PointDataColumnType::OctantIndexY
                || column == PointDataColumnType::OctantIndexZ {
                None
            } else {
                old(self).octant_indices
            }),
    {
        match column {
            PointDataColumnType::X | PointDataColumnType::Y | PointDataColumnType::Z => {
                Err(Error::ObligatoryColumn)
            },
            PointDataColumnType::Id => {
                if self.ids.is_none() {
                    return Err(Error::ColumnNotFound);
                }
                self.ids = None;
                Ok(())
            },
            PointDataColumnType::FrameId => {
                if self.frame_ids.is_none() {
                    return Err(Error::ColumnNotFound);
                }
                self.frame_ids = None;
                Ok(())
            },
            PointDataColumnType::TimestampSecond | PointDataColumnType::TimestampNanoSecond => {
                if self.timestamps.is_none() {
                    return Err(Error::ColumnNotFound);
                }
                self.timestamps = None;
                Ok(())
            },
            PointDataColumnType::OctantIndexLevel | PointDataColumnType::OctantIndexX
            | PointDataColumnType::OctantIndexY | PointDataColumnType::OctantIndexZ => {
                if self.octant_indices.is_none() {
                    return Err(Error::ColumnNotFound);
                }
                self.octant_indices = None;
                Ok(())
            },
            _ => Err(Error::ColumnNotFound),
        }
    }

    /// Replaces the payload of every row.
    pub fn update_points_in_place(&mut self, points: Vec<P>) -> (r: Result<(), Error>)
        requires
            old(self).wf(),
        ensures
            final(self).wf(),
            final(self).octant_indices == old(self).octant_indices,
            points@.len() != old(self)@.height() <==> r == Err::<(), Error>(Error::ShapeMismatch),
            points@.len() == old(self)@.height() <==> r is Ok,
            r is Err ==> *final(self) == *old(self),
            r is Ok ==> final(self).points == points && final(self).ids == old(self).ids
                && final(self).frame_ids == old(self).frame_ids && final(self).timestamps == old(
                self,
            ).timestamps,
    {
        if points.len() != self.points.len() {
            return Err(Error::ShapeMismatch);
        }
        self.points = points;
        Ok(())
    }

    /// The earliest timestamp.
    pub fn get_timestamp_min(&self) -> (r: Result<Timestamp, Error>)
        requires
            self.wf(),
        ensures
            self.timestamps is None <==> r == Err::<Timestamp, Error>(Error::NoTimestampColumns),
            self.timestamps is Some <==> r is Ok,
            r matches Ok(t) ==> self@.timestamps.unwrap().contains(t) && forall|i: int|
                0 <= i < self@.height() ==> !time_lt(#[trigger] self@.timestamps.unwrap()[i], t),
    {
        let ts = match &self.timestamps {
            Some(v) => v,
            None => {
                return Err(Error::NoTimestampColumns);
            },
        };
        let mut best = ts[0];
        let mut i: usize = 1;
        while i < ts.len()
            invariant
                1 <= i <= ts@.len(),
                ts@.contains(best),
                forall|j: int| 0 <= j < i ==> !time_lt(#[trigger] ts@[j], best),
            decreases ts@.len() - i,
        {
            if time_less(ts[i], best) {
                best = ts[i];
            }
            i = i + 1;
        }
        Ok(best)
    }

    /// The latest timestamp.
    pub fn get_timestamp_max(&self) -> (r: Result<Timestamp, Error>)
        requires
            self.wf(),
        ensures
            self.timestamps is None <==> r == Err::<Timestamp, Error>(Error::NoTimestampColumns),
            self.timestamps is Some <==> r is Ok,
            r matches Ok(t) ==> self@.timestamps.unwrap().contains(t) && forall|i: int|
                0 <= i < self@.height() ==> !time_lt(t, #[trigger] self@.timestamps.unwrap()[i]),
    {
        let ts = match &self.timestamps {
            Some(v) => v,
            None => {
                return Err(Error::NoTimestampColumns);
            },
        };
        let mut best = ts[0];
        let mut i: usize = 1;
        while i < ts.len()
            invariant
                1 <= i <= ts@.len(),
                ts@.contains(best),
                forall|j: int| 0 <= j < i ==> !time_lt(best, #[trigger] ts@[j]),
            decreases ts@.len() - i,
        {
            if time_less(best, ts[i]) {
                best = ts[i];
            }
            i = i + 1;
        }
        Ok(best)
    }

    /// The smallest and the largest id.
    pub fn get_id_range(&self) -> (r: Result<(u64, u64), Error>)
        requires
            self.wf(),
        ensures
            self.ids is None <==> r == Err::<(u64, u64), Error>(Error::NoIdColumn),
            self.ids is Some <==> r is Ok,
            r matches Ok((lo, hi)) ==> self@.ids.unwrap().contains(lo) && self@.ids.unwrap().contains(hi)
                && forall|i: int|
                0 <= i < self@.height() ==> lo <= #[trigger] self@.ids.unwrap()[i] <= hi,
    {
        let ids = match &self.ids {
            Some(v) => v,
            None => {
                return Err(Error::NoIdColumn);
            },
        };
        let mut lo = ids[0];
        let mut hi = ids[0];
        let mut i: usize = 1;
        while i < ids.len()
            invariant
                1 <= i <= ids@.len(),
                ids@.contains(lo),
                ids@.contains(hi),
                forall|j: int| 0 <= j < i ==> lo <= #[trigger] ids@[j] <= hi,
            decreases ids@.len() - i,
        {
            if ids[i] < lo {
                lo = ids[i];
            }
            if ids[i] > hi {
                hi = ids[i];
            }
            i = i + 1;
        }
        Ok((lo, hi))
    }

    /// The same columns are present in both stores.
    pub open spec fn same_columns(&self, other: &PointData<P>) -> bool {
        &&& (self.ids is Some <==> other.ids is Some)
        &&& (self.frame_ids is Some <==> other.frame_ids is Some)
        &&& (self.timestamps is Some <==> other.timestamps is Some)
        &&& (self.octant_indices is Some <==> other.octant_indices is Some)
    }

    /// Appends the rows of another store with the same columns.
    pub fn append(&mut self, other: &PointData<P>) -> (r: Result<(), Error>)
        requires
            old(self).wf(),
            other.wf(),
        ensures
            final(self).wf(),
            !old(self).same_columns(other) <==> r == Err::<(), Error>(Error::ShapeMismatch),
            old(self).same_columns(other) <==> r is Ok,
            r is Err ==> *final(self) == *old(self),
            r is Ok ==> final(self)@ == old(self)@.appended(other@),
    {
        if self.ids.is_some() != other.ids.is_some() || self.frame_ids.is_some()
            != other.frame_ids.is_some() || self.timestamps.is_some() != other.timestamps.is_some()
            || self.octant_indices.is_some() != other.octant_indices.is_some() {
            return Err(Error::ShapeMismatch);
        }
        extend_copied(&mut self.points, &other.points);
        if let Some(v) = &mut self.ids {
            if let Some(w) = &other.ids {
                extend_copied(v, w);
            }
        }
        if let Some(v) = &mut self.frame_ids {
            if let Some(w) = &other.frame_ids {
                extend_strings(v, w);
            }
        }
        if let Some(v) = &mut self.timestamps {
            if let Some(w) = &other.timestamps {
                extend_copied(v, w);
            }
        }
        if let Some(v) = &mut self.octant_indices {
            if let Some(w) = &other.octant_indices {
                extend_copied(v, w);
            }
        }
        Ok(())
    }

    /// A copy of the store.
    pub fn clone_data(&self) -> (r: Self)
        requires
            self.wf(),
        ensures
            r.wf(),
            r@ == self@,
    {
        PointData {
            points: copy_vec(&self.points),
            ids: match &self.ids {
                Some(v) => Some(copy_vec(v)),
                None => None,
            },
            frame_ids: match &self.frame_ids {
                Some(v) => Some(clone_strings(v)),
                None => None,
            },
            timestamps: match &self.timestamps {
                Some(v) => Some(copy_vec(v)),
                None => None,
            },
            octant_indices: match &self.octant_indices {
                Some(v) => Some(copy_vec(v)),
                None => None,
            },
        }
    }

    /// The sort key of every row in canonical order.
    pub fn canonical_keys(&self) -> (r: Vec<(i128, i128)>)
        requires
            self.wf(),
        ensures
            r@ == canonical_keys(self@),
    {
        let n = self.points.len();
        let mut r: Vec<(i128, i128)> = Vec::new();
        let mut i: usize = 0;
        while i < n
            invariant
                self.wf(),
                n == self@.height(),
                i <= n,
                r@ == canonical_keys(self@).subrange(0, i as int),
            decreases n - i,
        {
            let key: (i128, i128) = match (&self.timestamps, &self.ids) {
                (Some(t), None) => (t[i].seconds as i128, t[i].nanoseconds as i128),
                (_, Some(ids)) => (ids[i] as i128, 0i128),
                (None, None) => (0i128, 0i128),
            };
            r.push(key);
            proof {
                assert(r@ =~= canonical_keys(self@).subrange(0, i + 1));
            }
            i = i + 1;
        }
        proof {
            assert(r@ =~= canonical_keys(self@));
        }
        r
    }
}

} // verus!
