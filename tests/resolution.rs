use epoint::{Error, PointCloud, PointCloudInfo, PointData, Timestamp};

type P = [f64; 3];

fn offset_for(frame: &str) -> Option<[f64; 3]> {
    match frame {
        "A" => Some([1.0, 0.0, 0.0]),
        "B" => Some([0.0, 2.0, 0.0]),
        "target" => Some([0.0, 0.0, 0.0]),
        _ => None,
    }
}

fn translate(
    _graph: &(),
    frame: &String,
    _time: Option<Timestamp>,
    points: &Vec<P>,
) -> Result<Vec<P>, String> {
    let o = offset_for(frame).ok_or_else(|| format!("no path from {frame}"))?;
    Ok(points.iter().map(|p| [p[0] + o[0], p[1] + o[1], p[2] + o[2]]).collect())
}

#[test]
fn resolves_each_frame_with_its_transform() {
    let store = PointData::new(
        vec![[0.0, 0.0, 0.0], [5.0, 5.0, 5.0]],
        None,
        Some(vec!["A".to_string(), "B".to_string()]),
        Some(vec![Timestamp::new(0, 0), Timestamp::new(0, 0)]),
    )
    .unwrap();
    let mut cloud = PointCloud::new(store, PointCloudInfo::new(None), ()).unwrap();
    cloud.resolve_to_frame("target".to_string(), &translate).unwrap();
    assert_eq!(cloud.info.frame_id, Some("target".to_string()));
    assert_eq!(cloud.point_data.points, vec![[1.0, 0.0, 0.0], [5.0, 7.0, 5.0]]);
}

#[test]
fn resolution_orders_rows_by_timestamp() {
    let store = PointData::new(
        vec![[0.0, 0.0, 0.0], [1.0, 1.0, 1.0], [2.0, 2.0, 2.0]],
        None,
        Some(vec!["A".to_string(), "B".to_string(), "A".to_string()]),
        Some(vec![Timestamp::new(3, 0), Timestamp::new(1, 5), Timestamp::new(1, 2)]),
    )
    .unwrap();
    let mut cloud = PointCloud::new(store, PointCloudInfo::new(None), ()).unwrap();
    cloud.resolve_to_frame("target".to_string(), &translate).unwrap();
    assert_eq!(
        cloud.point_data.timestamps,
        Some(vec![Timestamp::new(1, 2), Timestamp::new(1, 5), Timestamp::new(3, 0)])
    );
    assert_eq!(
        cloud.point_data.points,
        vec![[3.0, 2.0, 2.0], [1.0, 3.0, 1.0], [1.0, 0.0, 0.0]]
    );
}

#[test]
fn resolution_orders_rows_by_id() {
    let store = PointData::new(
        vec![[0.0, 0.0, 0.0], [1.0, 1.0, 1.0], [2.0, 2.0, 2.0]],
        Some(vec![30, 10, 20]),
        Some(vec!["B".to_string(), "A".to_string(), "B".to_string()]),
        None,
    )
    .unwrap();
    let mut cloud = PointCloud::new(store, PointCloudInfo::new(None), ()).unwrap();
    cloud.resolve_to_frame("target".to_string(), &translate).unwrap();
    assert_eq!(cloud.point_data.ids, Some(vec![10, 20, 30]));
    assert_eq!(
        cloud.point_data.points,
        vec![[2.0, 1.0, 1.0], [2.0, 4.0, 2.0], [0.0, 2.0, 0.0]]
    );
}

#[test]
fn resolution_in_place_is_identity() {
    let store = PointData::new(vec![[4.0, 4.0, 4.0]], None, None, None).unwrap();
    let mut cloud = PointCloud::new(store, PointCloudInfo::new(Some("A".to_string())), ()).unwrap();
    cloud.resolve_to_frame("A".to_string(), &translate).unwrap();
    assert_eq!(cloud.point_data.points, vec![[4.0, 4.0, 4.0]]);
    assert_eq!(cloud.info.frame_id, Some("A".to_string()));
}

#[test]
fn resolution_twice_equals_once() {
    let store = PointData::new(vec![[4.0, 4.0, 4.0]], None, None, None).unwrap();
    let mut cloud = PointCloud::new(store, PointCloudInfo::new(Some("A".to_string())), ()).unwrap();
    cloud.resolve_to_frame("target".to_string(), &translate).unwrap();
    let once = cloud.point_data.points.clone();
    cloud.resolve_to_frame("target".to_string(), &translate).unwrap();
    assert_eq!(cloud.point_data.points, once);
    assert_eq!(once, vec![[5.0, 4.0, 4.0]]);
}

#[test]
fn resolution_without_frame_fails() {
    let store = PointData::new(vec![[4.0, 4.0, 4.0]], None, None, None).unwrap();
    let mut cloud = PointCloud::new(store, PointCloudInfo::new(None), ()).unwrap();
    let r = cloud.resolve_to_frame("A".to_string(), &translate);
    assert_eq!(r, Err(Error::NoFrameIdDefinitions));
}

#[test]
fn failed_resolution_leaves_cloud_unchanged() {
    let store = PointData::new(
        vec![[0.0, 0.0, 0.0], [1.0, 0.0, 0.0]],
        None,
        Some(vec!["A".to_string(), "unknown".to_string()]),
        None,
    )
    .unwrap();
    let mut cloud = PointCloud::new(store, PointCloudInfo::new(None), ()).unwrap();
    let r = cloud.resolve_to_frame("target".to_string(), &translate);
    assert_eq!(r, Err(Error::TransformUnavailable("no path from unknown".to_string())));
    assert_eq!(cloud.point_data.points, vec![[0.0, 0.0, 0.0], [1.0, 0.0, 0.0]]);
    assert_eq!(cloud.info.frame_id, None);
}

#[test]
fn merge_joins_clouds_with_same_info() {
    let a = PointData::new(vec![[0.0, 0.0, 0.0]], Some(vec![1]), None, None).unwrap();
    let b = PointData::new(vec![[1.0, 0.0, 0.0], [2.0, 0.0, 0.0]], Some(vec![2, 3]), None, None).unwrap();
    let info = || PointCloudInfo::new(Some("map".to_string()));
    let clouds = vec![
        PointCloud::new(a, info(), ()).unwrap(),
        PointCloud::new(b, info(), ()).unwrap(),
    ];
    let merged = epoint::transform::merge(&clouds, ()).unwrap();
    assert_eq!(merged.point_data.points, vec![[0.0, 0.0, 0.0], [1.0, 0.0, 0.0], [2.0, 0.0, 0.0]]);
    assert_eq!(merged.point_data.ids, Some(vec![1, 2, 3]));
    assert_eq!(merged.info.frame_id, Some("map".to_string()));
    let empty: Vec<PointCloud<P, ()>> = Vec::new();
    assert_eq!(epoint::transform::merge(&empty, ()).err(), Some(Error::NoData));
}

#[test]
fn merge_rejects_different_infos_and_columns() {
    let a = PointData::new(vec![[0.0, 0.0, 0.0]], Some(vec![1]), None, None).unwrap();
    let b = PointData::new(vec![[1.0, 0.0, 0.0]], None, None, None).unwrap();
    let other_info = vec![
        PointCloud::new(a.clone(), PointCloudInfo::new(Some("map".to_string())), ()).unwrap(),
        PointCloud::new(b.clone(), PointCloudInfo::new(None), ()).unwrap(),
    ];
    assert_eq!(epoint::transform::merge(&other_info, ()).err(), Some(Error::DifferentPointCloudInfos));
    let other_columns = vec![
        PointCloud::new(a, PointCloudInfo::new(None), ()).unwrap(),
        PointCloud::new(b, PointCloudInfo::new(None), ()).unwrap(),
    ];
    assert_eq!(epoint::transform::merge(&other_columns, ()).err(), Some(Error::ShapeMismatch));
}

#[test]
fn downsample_keeps_target_size() {
    let points: Vec<P> = (0..10).map(|i| [i as f64, 0.0, 0.0]).collect();
    let store = PointData::new(points, None, None, None).unwrap();
    let cloud = PointCloud::new(store, PointCloudInfo::new(None), ()).unwrap();
    let small = epoint::transform::deterministic_downsample(&cloud, 4, Some(9)).unwrap();
    assert_eq!(small.size(), 4);
    let again = epoint::transform::deterministic_downsample(&cloud, 4, Some(9)).unwrap();
    assert_eq!(small.point_data.points, again.point_data.points);
    let whole = epoint::transform::deterministic_downsample(&cloud, 20, None).unwrap();
    assert_eq!(whole.size(), 10);
    assert_eq!(epoint::transform::deterministic_downsample(&cloud, 0, None).err(), Some(Error::NoRowIndices));
}

#[test]
fn resolution_drops_per_point_frames_and_is_idempotent() {
    let store = PointData::new(
        vec![[0.0, 0.0, 0.0], [5.0, 5.0, 5.0]],
        None,
        Some(vec!["A".to_string(), "B".to_string()]),
        None,
    )
    .unwrap();
    let mut cloud = PointCloud::new(store, PointCloudInfo::new(None), ()).unwrap();
    cloud.resolve_to_frame("target".to_string(), &translate).unwrap();
    assert!(cloud.point_data.frame_ids.is_none());
    let once = cloud.point_data.points.clone();
    cloud.resolve_to_frame("target".to_string(), &translate).unwrap();
    assert_eq!(cloud.point_data.points, once);
}
