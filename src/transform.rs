use crate::error::Error;
use crate::point_cloud::{PointCloud, PointCloudInfo, opt_string_view};
use crate::point_data::{PointData, PointDataView, index_mask};
use crate::sampling::{generate_random_numbers, sampled_indices};
use vstd::pervasive::cloned;
use vstd::prelude::*;

verus! {

/// The stores of the clouds, one after the other.
pub open spec fn merged_views<P, G>(clouds: Seq<PointCloud<P, G>>) -> PointDataView<P>
    decreases clouds.len(),
{
    if clouds.len() <= 1 {
        clouds[0].point_data@
    } else {
        merged_views(clouds.drop_last()).appended(clouds.last().point_data@)
    }
}

/// Two clouds carry the same metadata.
pub open spec fn same_info(a: PointCloudInfo, b: PointCloudInfo) -> bool {
    opt_string_view(a.frame_id) == opt_string_view(b.frame_id)
}

fn same_info_exec(a: &PointCloudInfo, b: &PointCloudInfo) -> (r: bool)
    ensures
        r == same_info(*a, *b),
{
    match (&a.frame_id, &b.frame_id) {
        (Some(x), Some(y)) => *x == *y,
        (None, None) => true,
        _ => false,
    }
}

/// Joins clouds with the same metadata and the same columns into one; the
/// caller passes the merged transform graph.
pub fn merge<P: Copy, G>(point_clouds: &Vec<PointCloud<P, G>>, transform_tree: G) -> (r: Result<
    PointCloud<P, G>,
    Error,
>)
    requires
        forall|k: int| 0 <= k < point_clouds@.len() ==> (#[trigger] point_clouds@[k]).wf(),
    ensures
        point_clouds@.len() == 0 <==> r == Err::<PointCloud<P, G>, Error>(Error::NoData),
        point_clouds@.len() > 0 && (exists|k: int|
            0 <= k < point_clouds@.len() && !same_info(
                #[trigger] point_clouds@[k].info,
                point_clouds@[0].info,
            )) <==> r == Err::<PointCloud<P, G>, Error>(Error::DifferentPointCloudInfos),
        r matches Err(e) ==> e is NoData || e is DifferentPointCloudInfos || e is ShapeMismatch,
        r is Err && point_clouds@.len() > 0 && (forall|k: int|
            0 <= k < point_clouds@.len() ==> same_info(
                #[trigger] point_clouds@[k].info,
                point_clouds@[0].info,
            )) ==> exists|k: int|
            0 <= k < point_clouds@.len() && !(#[trigger] point_clouds@[k]).point_data.same_columns(
                &point_clouds@[0].point_data,
            ),
        r matches Ok(c) ==> c.wf() && c.info == point_clouds@[0].info && c.transform_tree
            == transform_tree && c.point_data@ == merged_views(point_clouds@),
{
    let n = point_clouds.len();
    if n == 0 {
        return Err(Error::NoData);
    }
    let first = &point_clouds[0];
    let mut k: usize = 0;
    while k < n
        invariant
            n == point_clouds@.len(),
            k <= n,
            *first == point_clouds@[0],
            forall|j: int| 0 <= j < k ==> same_info(#[trigger] point_clouds@[j].info, first.info),
        decreases n - k,
    {
        if !same_info_exec(&point_clouds[k].info, &first.info) {
            return Err(Error::DifferentPointCloudInfos);
        }
        k = k + 1;
    }
    let mut data = first.point_data.clone_data();
    let mut k: usize = 1;
    while k < n
        invariant
            n == point_clouds@.len(),
            1 <= k <= n,
            *first == point_clouds@[0],
            forall|j: int| 0 <= j < point_clouds@.len() ==> (#[trigger] point_clouds@[j]).wf(),
            forall|j: int| 0 <= j < n ==> same_info(#[trigger] point_clouds@[j].info, first.info),
            forall|j: int| 0 <= j < k ==> (#[trigger] point_clouds@[j]).point_data.same_columns(
                &first.point_data,
            ),
            data.wf(),
            data.same_columns(&first.point_data),
            data@ == merged_views(point_clouds@.subrange(0, k as int)),
        decreases n - k,
    {
        let ghost before = data;
        match data.append(&point_clouds[k].point_data) {
            Ok(()) => {},
            Err(_) => {
                proof {
                    assert(!before.same_columns(&point_clouds@[k as int].point_data));
                    assert(before.same_columns(&first.point_data));
                    assert(!point_clouds@[k as int].point_data.same_columns(
                        &point_clouds@[0].point_data,
                    ));
                }
                return Err(Error::ShapeMismatch);
            },
        }
        proof {
            let sub = point_clouds@.subrange(0, k + 1);
            assert(sub.len() == k + 1);
            assert(sub.drop_last() =~= point_clouds@.subrange(0, k as int));
            assert(sub.last() == point_clouds@[k as int]);
        }
        k = k + 1;
    }
    proof {
        assert(point_clouds@.subrange(0, n as int) =~= point_clouds@);
    }
    Ok(PointCloud { point_data: data, info: first.info.duplicate(), transform_tree })
}

/// Keeps `target_size` points drawn with the seeded generator; a cloud with
/// fewer points is returned whole.
pub fn deterministic_downsample<P: Copy, G: Clone>(
    point_cloud: &PointCloud<P, G>,
    target_size: usize,
    seed_number: Option<u64>,
) -> (r: Result<PointCloud<P, G>, Error>)
    requires
        point_cloud.wf(),
    ensures
        point_cloud.point_data@.height() < target_size ==> (r matches Ok(c) && c.info
            == point_cloud.info && cloned(point_cloud.transform_tree, c.transform_tree)
            && c.point_data@ == point_cloud.point_data@),
        point_cloud.point_data@.height() >= target_size && target_size == 0 <==> r == Err::<
            PointCloud<P, G>,
            Error,
        >(Error::NoRowIndices),
        point_cloud.point_data@.height() >= target_size && target_size > 0 ==> (r matches Ok(c)
            && c.info == point_cloud.info && cloned(point_cloud.transform_tree, c.transform_tree) && c.point_data@ == point_cloud.point_data@.masked(
            index_mask(
                sampled_indices(
                    seed_number.unwrap_or(0),
                    point_cloud.point_data@.height(),
                    target_size as nat,
                ),
                point_cloud.point_data@.height(),
            ),
        )),
        r matches Ok(c) ==> c.wf(),
{
    let n = point_cloud.size();
    if n < target_size {
        return Ok(point_cloud.with_point_data(point_cloud.point_data.clone_data()));
    }
    let rows = match generate_random_numbers(seed_number, n, target_size) {
        Ok(rows) => rows,
        Err(e) => {
            return Err(e);
        },
    };
    point_cloud.filter_by_row_indices(&rows)
}

} // verus!
