use epoint::{PointCloud, PointCloudInfo, PointData, Timestamp};

#[test]
fn test_basic_point_cloud() {
    let point = [0.0f64, 0.0, 0.0];
    let frame_id: Vec<String> = vec!["test_frame".to_string(); 1];
    let timestamp: Vec<Timestamp> = vec![Timestamp::new(61, 0); 1];

    let point_data = PointData::new(vec![point], None, Some(frame_id), Some(timestamp)).unwrap();
    let point_cloud = PointCloud::new(point_data, PointCloudInfo::new(None), ()).unwrap();
    assert_eq!(point_cloud.size(), 1);
}

#[test]
fn test_fail_with_ambiguous_frame_ids() {
    let point = [0.0f64, 0.0, 0.0];
    let frame_id: Vec<String> = vec!["test_frame".to_string(); 1];
    let timestamp: Vec<Timestamp> = vec![Timestamp::new(61, 0); 1];

    let point_data = PointData::new(vec![point], None, Some(frame_id), Some(timestamp)).unwrap();
    let point_info = PointCloudInfo::new(Some("another_frame_id".to_string()));
    let point_cloud = PointCloud::new(point_data, point_info, ());

    assert!(point_cloud.is_err())
}
