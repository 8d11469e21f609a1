use crate::error::Error;
use crate::point_data::{
    PointData, PointDataView, Timestamp, canonical_keys, rows_below, take_copied, taken,
};
use crate::resolve::{Partition, is_partitioning, is_stable_order, partition_rows, stable_order};
use crate::selection::any_set;
use vstd::pervasive::cloned;
use vstd::prelude::*;

verus! {

/// Cloud-wide metadata.
#[derive(Debug, Clone)]
pub struct PointCloudInfo {
    /// The frame of every point, where the store has no frame column.
    pub frame_id: Option<String>,
}

pub open spec fn opt_string_view(s: Option<String>) -> Option<Seq<char>> {
    match s {
        Some(f) => Some(f@),
        None => None,
    }
}

impl PointCloudInfo {
    pub fn new(frame_id: Option<String>) -> (r: Self)
        ensures
            r.frame_id == frame_id,
    {
        PointCloudInfo { frame_id }
    }
}

/// A point store with its cloud-wide metadata and the transform graph `G`
/// its frames are related by.
#[derive(Debug, Clone)]
pub struct PointCloud<P, G> {
    pub point_data: PointData<P>,
    pub info: PointCloudInfo,
    pub transform_tree: G,
}

/// The rows of all groups, group after group.
pub open spec fn concat_rows(parts: Seq<Partition>) -> Seq<usize>
    decreases parts.len(),
{
    if parts.len() == 0 {
        Seq::empty()
    } else {
        concat_rows(parts.drop_last()) + parts.last().rows@
    }
}

/// The payloads of all groups, group after group.
pub open spec fn concat_points<P>(outs: Seq<Vec<P>>) -> Seq<P>
    decreases outs.len(),
{
    if outs.len() == 0 {
        Seq::empty()
    } else {
        concat_points(outs.drop_last()) + outs.last()@
    }
}

/// The store that resolution assembles: the rows of the groups one after the
/// other, each with the payload the transform returned for it.
pub open spec fn assembled<P>(
    d: PointDataView<P>,
    parts: Seq<Partition>,
    outs: Seq<Vec<P>>,
) -> PointDataView<P> {
    d.take(concat_rows(parts)).with_points(concat_points(outs))
}

/// The store without its frame column.
pub open spec fn without_frame_ids<P>(d: PointDataView<P>) -> PointDataView<P> {
    PointDataView { frame_ids: None, ..d }
}

/// `r` is `d` in canonical row order, its per-point frame labels dropped.
pub open spec fn is_canonical_form<P>(d: PointDataView<P>, r: PointDataView<P>) -> bool {
    exists|perm: Seq<usize>|
        is_stable_order(canonical_keys(d), perm) && r == without_frame_ids(d.take(perm))
}

/// The cloud is already in frame `target` as a whole.
pub open spec fn resolves_trivially<P, G>(c: PointCloud<P, G>, target: Seq<char>) -> bool {
    c.point_data.frame_ids is None && opt_string_view(c.info.frame_id) == Some(target)
}

/// What every successful resolution to `target` leaves behind: the cloud-wide
/// frame is the target, and no point carries a frame label of its own.
pub open spec fn resolved_to<P, G>(after: PointCloud<P, G>, target: Seq<char>) -> bool {
    opt_string_view(after.info.frame_id) == Some(target) && after.point_data.frame_ids is None
}

/// Resolution is idempotent: a cloud resolved to `target` resolves to `target`
/// trivially, so resolving it again leaves it unchanged.
pub proof fn lemma_resolution_idempotent<P, G>(after: PointCloud<P, G>, target: Seq<char>)
    requires
        resolved_to(after, target),
    ensures
        resolves_trivially(after, target),
{
}

impl<P: Copy, G> PointCloud<P, G> {
    /// The store is well formed, and a frame column and a cloud-wide frame id
    /// exclude each other.
    pub open spec fn wf(&self) -> bool {
        self.point_data.wf() && !(self.point_data.frame_ids is Some && self.info.frame_id is Some)
    }

    /// Combines a store, its metadata and its transform graph. A frame column
    /// and a cloud-wide frame id exclude each other.
    pub fn new(point_data: PointData<P>, info: PointCloudInfo, transform_tree: G) -> (r: Result<
        Self,
        Error,
    >)
        requires
            point_data.wf(),
        ensures
            (point_data.frame_ids is Some && info.frame_id is Some) <==> r
                == Err::<Self, Error>(Error::MultipleFrameIdDefinitions),
            !(point_data.frame_ids is Some && info.frame_id is Some) <==> r is Ok,
            r matches Ok(c) ==> c.wf() && !(c.point_data.frame_ids is Some
                && c.info.frame_id is Some) && c.point_data == point_data && c.info == info
                && c.transform_tree == transform_tree,
    {
        if point_data.frame_ids.is_some() && info.frame_id.is_some() {
            return Err(Error::MultipleFrameIdDefinitions);
        }
        Ok(PointCloud { point_data, info, transform_tree })
    }

    /// Number of points.
    pub fn size(&self) -> (r: usize)
        requires
            self.wf(),
        ensures
            r == self.point_data@.height(),
    {
        self.point_data.height()
    }

    pub fn contains_ids(&self) -> (r: bool)
        ensures
            r == self.point_data.ids is Some,
    {
        self.point_data.contains_id_column()
    }

    pub fn contains_timestamps(&self) -> (r: bool)
        ensures
            r == self.point_data.timestamps is Some,
    {
        self.point_data.contains_timestamps()
    }

    /// Whether the frame of every point is known, from the cloud-wide frame id
    /// or from a frame column.
    pub fn contains_frame_ids(&self) -> (r: bool)
        ensures
            r == (self.info.frame_id is Some || self.point_data.frame_ids is Some),
    {
        self.info.frame_id.is_some() || self.point_data.contains_frame_id_column()
    }

    /// The frames the points are defined in: the cloud-wide frame where there
    /// is one, else the distinct entries of the frame column.
    pub fn get_distinct_frame_ids(&self) -> (r: Option<Vec<String>>)
        requires
            self.wf(),
        ensures
            (self.info.frame_id is None && self.point_data.frame_ids is None) <==> r is None,
            self.info.frame_id matches Some(f) ==> (r matches Some(v) && v@.len() == 1 && v@[0]
                == f),
            self.info.frame_id is None && self.point_data.frame_ids is Some ==> (r matches Some(v)
                && crate::point_data::strings_view(v@).no_duplicates()
                && crate::point_data::strings_view(v@).to_set()
                == self.point_data@.frame_ids.unwrap().to_set()),
    {
        if let Some(f) = &self.info.frame_id {
            let mut v: Vec<String> = Vec::new();
            v.push(f.clone());
            return Some(v);
        }
        match self.point_data.get_distinct_frame_ids() {
            Ok(v) => Some(v),
            Err(_) => None,
        }
    }

    /// Replaces the payload of every point and sets the cloud-wide frame; the
    /// per-point frame labels are dropped.
    pub fn update_points(&mut self, points: Vec<P>, frame_id: Option<String>) -> (r: Result<
        (),
        Error,
    >)
        requires
            old(self).wf(),
        ensures
            final(self).wf(),
            points@.len() != old(self).point_data@.height() <==> r == Err::<(), Error>(
                Error::ShapeMismatch,
            ),
            points@.len() == old(self).point_data@.height() <==> r is Ok,
            r is Err ==> *final(self) == *old(self),
            r is Ok ==> final(self).point_data.points == points && final(self).info.frame_id
                == frame_id && final(self).point_data.ids == old(self).point_data.ids
                && final(self).point_data.frame_ids is None
                && final(self).point_data.timestamps == old(self).point_data.timestamps
                && final(self).transform_tree == old(self).transform_tree,
    {
        match self.point_data.update_points_in_place(points) {
            Ok(()) => {
                self.point_data.frame_ids = None;
                self.info.frame_id = frame_id;
                Ok(())
            },
            Err(e) => Err(e),
        }
    }

    pub fn info_frame_id(&self) -> (r: &Option<String>)
        ensures
            *r == self.info.frame_id,
    {
        &self.info.frame_id
    }

    pub fn set_info_frame_id(&mut self, frame_id: Option<String>)
        ensures
            final(self).info.frame_id == frame_id,
            final(self).point_data == old(self).point_data,
            final(self).transform_tree == old(self).transform_tree,
    {
        self.info.frame_id = frame_id;
    }

    pub fn set_transform_tree(&mut self, transform_tree: G)
        ensures
            final(self).transform_tree == transform_tree,
            final(self).point_data == old(self).point_data,
            final(self).info == old(self).info,
    {
        self.transform_tree = transform_tree;
    }

    /// Re-expresses every point in frame `target_frame_id`.
    ///
    /// The rows are split into maximal groups of equal frame and timestamp;
    /// `transform` maps the payload of each group from the group's frame to
    /// the target, at the group's time, using the cloud's transform graph.
    /// The transformed groups are joined again and brought into canonical
    /// order. The per-point frame labels are dropped, since every point is
    /// now in the target frame. Where any group fails, the cloud stays as it
    /// was; a message from `transform` comes back as `TransformUnavailable`.
    pub fn resolve_to_frame<F>(&mut self, target_frame_id: String, transform: &F) -> (r: Result<
        (),
        Error,
    >) where F: Fn(&G, &String, Option<Timestamp>, &Vec<P>) -> Result<Vec<P>, String>
        requires
            old(self).wf(),
            forall|g: &G, f: &String, t: Option<Timestamp>, p: &Vec<P>| #[trigger]
                transform.requires((g, f, t, p)),
        ensures
            (old(self).info.frame_id is None && old(self).point_data.frame_ids is None) <==> r
                == Err::<(), Error>(Error::NoFrameIdDefinitions),
            r is Err ==> *final(self) == *old(self),
            resolves_trivially(*old(self), target_frame_id@) ==> r is Ok && *final(self) == *old(
                self,
            ),
            r matches Err(e) ==> e is NoFrameIdDefinitions || e is TransformUnavailable
                || e is ShapeMismatch,
            (r is Err && r->Err_0 is TransformUnavailable) ==> exists|
                parts: Seq<Partition>,
                k: int,
                input: Vec<P>,
            |
                {
                    &&& is_partitioning(
                        old(self).point_data@,
                        opt_string_view(old(self).info.frame_id),
                        parts,
                    )
                    &&& 0 <= k < parts.len()
                    &&& input@ == taken(old(self).point_data@.points, parts[k].rows@)
                    &&& #[trigger] transform.ensures(
                        (&old(self).transform_tree, &parts[k].frame_id, parts[k].timestamp, &input),
                        Err::<Vec<P>, String>(r->Err_0->TransformUnavailable_0),
                    )
                },
            r == Err::<(), Error>(Error::ShapeMismatch) ==> exists|
                parts: Seq<Partition>,
                k: int,
                input: Vec<P>,
                out: Vec<P>,
            |
                {
                    &&& is_partitioning(
                        old(self).point_data@,
                        opt_string_view(old(self).info.frame_id),
                        parts,
                    )
                    &&& 0 <= k < parts.len()
                    &&& input@ == taken(old(self).point_data@.points, parts[k].rows@)
                    &&& #[trigger] transform.ensures(
                        (&old(self).transform_tree, &parts[k].frame_id, parts[k].timestamp, &input),
                        Ok::<Vec<P>, String>(out),
                    )
                    &&& out@.len() != parts[k].rows@.len()
                },
            r is Ok ==> final(self).wf() && resolved_to(*final(self), target_frame_id@)
                && final(self).transform_tree == old(self).transform_tree,
            r is Ok && !resolves_trivially(*old(self), target_frame_id@) ==> exists|
                parts: Seq<Partition>,
                ins: Seq<Vec<P>>,
                outs: Seq<Vec<P>>,
            |
                {
                    &&& is_partitioning(
                        old(self).point_data@,
                        opt_string_view(old(self).info.frame_id),
                        parts,
                    )
                    &&& ins.len() == parts.len()
                    &&& outs.len() == parts.len()
                    &&& forall|k: int|
                        0 <= k < parts.len() ==> {
                            &&& (#[trigger] ins[k])@ == taken(
                                old(self).point_data@.points,
                                parts[k].rows@,
                            )
                            &&& outs[k]@.len() == parts[k].rows@.len()
                            &&& transform.ensures(
                                (
                                    &old(self).transform_tree,
                                    &parts[k].frame_id,
                                    parts[k].timestamp,
                                    &ins[k],
                                ),
                                Ok::<Vec<P>, String>(outs[k]),
                            )
                        }
                    &&& is_canonical_form(
                        assembled(old(self).point_data@, parts, outs),
                        final(self).point_data@,
                    )
                },
    {
        if self.info.frame_id.is_none() && self.point_data.frame_ids.is_none() {
            return Err(Error::NoFrameIdDefinitions);
        }
        if self.point_data.frame_ids.is_none() {
            if let Some(f) = &self.info.frame_id {
                if *f == target_frame_id {
                    return Ok(());
                }
            }
        }
        let ghost cf = opt_string_view(self.info.frame_id);
        let ghost d = self.point_data@;
        let parts = partition_rows(&self.point_data, &self.info.frame_id);
        let mut flat_rows: Vec<usize> = Vec::new();
        let mut flat_points: Vec<P> = Vec::new();
        let ghost mut ins: Seq<Vec<P>> = Seq::empty();
        let ghost mut outs: Seq<Vec<P>> = Seq::empty();
        let mut k: usize = 0;
        while k < parts.len()
            invariant
                self.wf(),
                *self == *old(self),
                !resolves_trivially(*old(self), target_frame_id@),
                old(self).info.frame_id is Some || old(self).point_data.frame_ids is Some,
                cf == opt_string_view(old(self).info.frame_id),
                d == self.point_data@,
                is_partitioning(d, cf, parts@),
                k <= parts@.len(),
                ins.len() == k,
                outs.len() == k,
                forall|q: int|
                    0 <= q < k ==> {
                        &&& (#[trigger] ins[q])@ == taken(d.points, parts@[q].rows@)
                        &&& outs[q]@.len() == parts@[q].rows@.len()
                        &&& transform.ensures(
                            (&self.transform_tree, &parts@[q].frame_id, parts@[q].timestamp, &ins[q]),
                            Ok::<Vec<P>, String>(outs[q]),
                        )
                    },
                forall|g: &G, f: &String, t: Option<Timestamp>, p: &Vec<P>| #[trigger]
                    transform.requires((g, f, t, p)),
                flat_rows@ == concat_rows(parts@.subrange(0, k as int)),
                flat_points@ == concat_points(outs),
                flat_rows@.len() == flat_points@.len(),
                rows_below(flat_rows@, d.height()),
                forall|q: int| 0 <= q < k ==> (#[trigger] parts@[q]).rows@.len() <= flat_rows@.len(),
            decreases parts@.len() - k,
        {
            let part = &parts[k];
            proof {
                assert(parts@[k as int] == *part);
                assert forall|t: int| 0 <= t < part.rows@.len() implies #[trigger] part.rows@[t]
                    < d.height() by {
                    assert(parts@[k as int].rows@ == part.rows@);
                }
            }
            let input = take_copied(&self.point_data.points, &part.rows);
            let result = transform(&self.transform_tree, &part.frame_id, part.timestamp, &input);
            let out = match result {
                Ok(out) => out,
                Err(message) => {
                    proof {
                        assert(transform.ensures(
                            (&self.transform_tree, &parts@[k as int].frame_id, parts@[k as int].timestamp, &input),
                            Err::<Vec<P>, String>(message),
                        ));
                        assert(input@ == taken(old(self).point_data@.points, parts@[k as int].rows@));
                        let ghost e = Error::TransformUnavailable(message);
                        assert(e->TransformUnavailable_0 == message);
                        assert(exists|parts: Seq<Partition>, k: int, input: Vec<P>|
                            {
                                &&& is_partitioning(
                                    old(self).point_data@,
                                    opt_string_view(old(self).info.frame_id),
                                    parts,
                                )
                                &&& 0 <= k < parts.len()
                                &&& input@ == taken(old(self).point_data@.points, parts[k].rows@)
                                &&& #[trigger] transform.ensures(
                                    (&old(self).transform_tree, &parts[k].frame_id, parts[k].timestamp, &input),
                                    Err::<Vec<P>, String>(e->TransformUnavailable_0),
                                )
                            });
                    }
                    return Err(Error::TransformUnavailable(message));
                },
            };
            if out.len() != part.rows.len() {
                proof {
                    assert(transform.ensures(
                        (&self.transform_tree, &parts@[k as int].frame_id, parts@[k as int].timestamp, &input),
                        Ok::<Vec<P>, String>(out),
                    ));
                    assert({
                        &&& is_partitioning(
                            old(self).point_data@,
                            opt_string_view(old(self).info.frame_id),
                            parts@,
                        )
                        &&& 0 <= k < parts@.len()
                        &&& input@ == taken(old(self).point_data@.points, parts@[k as int].rows@)
                        &&& transform.ensures(
                            (&old(self).transform_tree, &parts@[k as int].frame_id, parts@[k as int].timestamp, &input),
                            Ok::<Vec<P>, String>(out),
                        )
                        &&& out@.len() != parts@[k as int].rows@.len()
                    });
                }
                return Err(Error::ShapeMismatch);
            }
            let ghost prev_rows = flat_rows@;
            let ghost prev_points = flat_points@;
            let mut t: usize = 0;
            while t < out.len()
                invariant
                    t <= out@.len(),
                    out@.len() == part.rows@.len(),
                    rows_below(prev_rows, d.height()),
                    rows_below(part.rows@, d.height()),
                    flat_rows@ == prev_rows + part.rows@.subrange(0, t as int),
                    flat_points@ == prev_points + out@.subrange(0, t as int),
                decreases out@.len() - t,
            {
                flat_rows.push(part.rows[t]);
                flat_points.push(out[t]);
                proof {
                    assert(flat_rows@ =~= prev_rows + part.rows@.subrange(0, t + 1));
                    assert(flat_points@ =~= prev_points + out@.subrange(0, t + 1));
                }
                t = t + 1;
            }
            proof {
                assert(part.rows@.subrange(0, part.rows@.len() as int) =~= part.rows@);
                assert(out@.subrange(0, out@.len() as int) =~= out@);
                let new_outs = outs.push(out);
                assert(new_outs.drop_last() =~= outs);
                assert(flat_points@ == concat_points(new_outs));
                let sub = parts@.subrange(0, k + 1);
                assert(sub.drop_last() =~= parts@.subrange(0, k as int));
                assert(flat_rows@ == concat_rows(sub));
                ins = ins.push(input);
                outs = new_outs;
            }
            k = k + 1;
        }
        proof {
            assert(parts@.subrange(0, parts@.len() as int) =~= parts@);
            assert(crate::resolve::row_covered(parts@, 0));
        }
        let gathered_rows = self.point_data.take(&flat_rows);
        let gathered = PointData {
            points: flat_points,
            ids: gathered_rows.ids,
            frame_ids: gathered_rows.frame_ids,
            timestamps: gathered_rows.timestamps,
            octant_indices: gathered_rows.octant_indices,
        };
        let keys = gathered.canonical_keys();
        let order = stable_order(&keys);
        proof {
            assert(gathered@ == assembled(d, parts@, outs));
            assert forall|t: int| 0 <= t < order@.len() implies #[trigger] order@[t]
                < gathered@.height() by {
            }
            assert(order@.len() > 0);
        }
        let resolved = gathered.take(&order);
        self.point_data = PointData {
            points: resolved.points,
            ids: resolved.ids,
            frame_ids: None,
            timestamps: resolved.timestamps,
            octant_indices: resolved.octant_indices,
        };
        self.info.frame_id = Some(target_frame_id);
        proof {
            assert(is_canonical_form(assembled(d, parts@, outs), self.point_data@));
        }
        Ok(())
    }
}

/// The mask that marks the rows whose frame id is `frame_id`.
pub open spec fn frame_mask(frames: Seq<Seq<char>>, frame_id: Seq<char>) -> Seq<bool> {
    Seq::new(frames.len(), |i: int| frames[i] == frame_id)
}

impl PointCloudInfo {
    /// A copy of the metadata.
    pub fn duplicate(&self) -> (r: Self)
        ensures
            r == *self,
    {
        PointCloudInfo {
            frame_id: match &self.frame_id {
                Some(f) => Some(f.clone()),
                None => None,
            },
        }
    }
}

impl<P: Copy, G: Clone> PointCloud<P, G> {
    /// A cloud with the same metadata and transform graph around other points.
    pub(crate) fn with_point_data(&self, point_data: PointData<P>) -> (r: Self)
        requires
            point_data.wf(),
            !(point_data.frame_ids is Some && self.info.frame_id is Some),
        ensures
            r.wf(),
            r.point_data == point_data,
            r.info == self.info,
            cloned(self.transform_tree, r.transform_tree),
    {
        PointCloud {
            point_data,
            info: self.info.duplicate(),
            transform_tree: self.transform_tree.clone(),
        }
    }

    /// Keeps the points whose mask entry is set; `None` where none is.
    pub fn filter_by_boolean_mask(&self, mask: &Vec<bool>) -> (r: Result<Option<Self>, Error>)
        requires
            self.wf(),
        ensures
            mask@.len() > self.point_data@.height() <==> r == Err::<Option<Self>, Error>(
                Error::RowIndexOutsideRange,
            ),
            mask@.len() < self.point_data@.height() <==> r == Err::<Option<Self>, Error>(
                Error::ShapeMismatch,
            ),
            mask@.len() == self.point_data@.height() ==> (r matches Ok(o) && (o is None
                <==> !any_set(mask@, mask@.len()))),
            r matches Ok(Some(c)) ==> c.wf() && c.info == self.info && cloned(self.transform_tree, c.transform_tree) && c.point_data@
                == self.point_data@.masked(mask@),
    {
        match self.point_data.filter_by_boolean_mask(mask) {
            Ok(Some(d)) => Ok(Some(self.with_point_data(d))),
            Ok(None) => Ok(None),
            Err(e) => Err(e),
        }
    }

    /// Keeps the points whose row index is listed.
    pub fn filter_by_row_indices(&self, row_indices: &Vec<usize>) -> (r: Result<Self, Error>)
        requires
            self.wf(),
        ensures
            row_indices@.len() == 0 <==> r == Err::<Self, Error>(Error::NoRowIndices),
            (row_indices@.len() > 0 && exists|k: int|
                0 <= k < row_indices@.len() && #[trigger] row_indices@[k]
                    >= self.point_data@.height()) <==> r == Err::<Self, Error>(
                Error::RowIndexOutsideRange,
            ),
            r matches Ok(c) ==> c.wf() && c.info == self.info && cloned(self.transform_tree, c.transform_tree) && c.point_data@
                == self.point_data@.masked(
                crate::point_data::index_mask(row_indices@, self.point_data@.height()),
            ),
            r matches Err(e) ==> e is NoRowIndices || e is RowIndexOutsideRange,
    {
        match self.point_data.filter_by_row_indices(row_indices) {
            Ok(d) => Ok(self.with_point_data(d)),
            Err(e) => Err(e),
        }
    }

    /// Keeps the points whose id lies within the inclusive bounds.
    pub fn filter_by_id_range(&self, id_min: Option<u64>, id_max: Option<u64>) -> (r: Result<
        Option<Self>,
        Error,
    >)
        requires
            self.wf(),
        ensures
            self.point_data.ids is None <==> r == Err::<Option<Self>, Error>(Error::NoIdColumn),
            self.point_data.ids is Some ==> (r matches Ok(o) && (o is None <==> !any_set(
                crate::point_data::id_range_mask(self.point_data@.ids.unwrap(), id_min, id_max),
                self.point_data@.height(),
            )) && (o matches Some(c) ==> c.wf() && c.info == self.info && cloned(self.transform_tree, c.transform_tree) && c.point_data@
                == self.point_data@.masked(
                crate::point_data::id_range_mask(self.point_data@.ids.unwrap(), id_min, id_max),
            ))),
    {
        match self.point_data.filter_by_id_range(id_min, id_max) {
            Ok(Some(d)) => Ok(Some(self.with_point_data(d))),
            Ok(None) => Ok(None),
            Err(e) => Err(e),
        }
    }

    /// Keeps the points defined in frame `frame_id`.
    pub fn filter_by_frame_id(&self, frame_id: &String) -> (r: Result<Self, Error>)
        requires
            self.wf(),
        ensures
            (self.info.frame_id is None && self.point_data.frame_ids is None) <==> r == Err::<
                Self,
                Error,
            >(Error::NoFrameIdDefinitions),
            self.info.frame_id matches Some(f) ==> (if f@ == frame_id@ {
                r matches Ok(c) && c.point_data@ == self.point_data@ && c.info == self.info && cloned(self.transform_tree, c.transform_tree)
            } else {
                r matches Err(Error::NoFrameIdDefinition(g)) && g@ == frame_id@
            }),
            self.info.frame_id is None && self.point_data.frame_ids is Some ==> (if !any_set(
                frame_mask(self.point_data@.frame_ids.unwrap(), frame_id@),
                self.point_data@.height(),
            ) {
                r matches Err(Error::NoFrameIdDefinition(g)) && g@ == frame_id@
            } else {
                r matches Ok(c) && c.info == self.info && cloned(self.transform_tree, c.transform_tree) && c.point_data@ == self.point_data@.masked(
                    frame_mask(self.point_data@.frame_ids.unwrap(), frame_id@),
                )
            }),
            r matches Ok(c) ==> c.wf(),
    {
        if let Some(f) = &self.info.frame_id {
            if *f == *frame_id {
                return Ok(self.with_point_data(self.point_data.clone_data()));
            } else {
                return Err(Error::NoFrameIdDefinition(frame_id.clone()));
            }
        }
        let frames = match &self.point_data.frame_ids {
            Some(v) => v,
            None => {
                return Err(Error::NoFrameIdDefinitions);
            },
        };
        let mut mask: Vec<bool> = Vec::new();
        let mut i: usize = 0;
        while i < frames.len()
            invariant
                i <= frames@.len(),
                self.point_data@.frame_ids == Some(crate::point_data::strings_view(frames@)),
                mask@ == frame_mask(crate::point_data::strings_view(frames@), frame_id@).subrange(
                    0,
                    i as int,
                ),
            decreases frames@.len() - i,
        {
            mask.push(frames[i] == *frame_id);
            proof {
                assert(mask@ =~= frame_mask(crate::point_data::strings_view(frames@), frame_id@).subrange(
                    0,
                    i + 1,
                ));
            }
            i = i + 1;
        }
        proof {
            assert(mask@ =~= frame_mask(crate::point_data::strings_view(frames@), frame_id@));
        }
        match self.point_data.select_by_mask(&mask) {
            Some(d) => Ok(self.with_point_data(d)),
            None => Err(Error::NoFrameIdDefinition(frame_id.clone())),
        }
    }
}

} // verus!
