use epoint::bounds::check_strict_bounds;
use epoint::schema::{check_point_data_schema, ColumnSchema};
use epoint::{ColumnDataType, Error, PointCloud, PointCloudInfo, PointData, PointDataColumnType, Timestamp};

type P = [f64; 3];

fn line_store(n: usize) -> PointData<P> {
    let points: Vec<P> = (0..n).map(|i| [i as f64, 0.0, 0.0]).collect();
    PointData::new(points, None, None, None).unwrap()
}

fn xyz_columns() -> Vec<ColumnSchema> {
    vec![
        ColumnSchema::new("x".to_string(), ColumnDataType::Float64),
        ColumnSchema::new("y".to_string(), ColumnDataType::Float64),
        ColumnSchema::new("z".to_string(), ColumnDataType::Float64),
    ]
}

#[test]
fn schema_accepts_registered_types() {
    let mut columns = xyz_columns();
    columns.push(ColumnSchema::new("id".to_string(), ColumnDataType::UInt64));
    columns.push(ColumnSchema::new("custom".to_string(), ColumnDataType::Float32));
    assert_eq!(check_point_data_schema(3, &columns), Ok(()));
}

#[test]
fn schema_rejects_empty_store() {
    assert_eq!(check_point_data_schema(0, &xyz_columns()), Err(Error::NoData));
}

#[test]
fn schema_rejects_wrong_type() {
    let mut columns = xyz_columns();
    columns.push(ColumnSchema::new("timestamp_sec".to_string(), ColumnDataType::UInt32));
    assert_eq!(
        check_point_data_schema(3, &columns),
        Err(Error::TypeMismatch {
            column: "timestamp_sec".to_string(),
            expected: "i64".to_string(),
            actual: "u32".to_string(),
        })
    );
}

#[test]
fn column_registry_names_and_types() {
    assert_eq!(PointDataColumnType::SensorRotationW.as_str(), "sensor_rotation_w");
    assert_eq!(PointDataColumnType::FrameId.data_type(), ColumnDataType::Categorical);
    assert_eq!(PointDataColumnType::from_name("octant_index_x"), Some(PointDataColumnType::OctantIndexX));
    assert_eq!(PointDataColumnType::from_name("nothing"), None);
    assert!(PointDataColumnType::Z.is_obligatory());
    assert!(!PointDataColumnType::Id.is_obligatory());
}

#[test]
fn store_rejects_empty_and_misaligned_columns() {
    let empty: Vec<P> = Vec::new();
    assert!(matches!(PointData::new(empty, None, None, None), Err(Error::NoData)));
    let r = PointData::new(vec![[0.0, 0.0, 0.0]; 2], Some(vec![1u64]), None, None);
    assert!(matches!(r, Err(Error::ShapeMismatch)));
}

#[test]
fn filter_by_x_min_keeps_points_at_or_above_bound() {
    let store = line_store(11);
    let mask: Vec<bool> = store.points.iter().map(|p| p[0] >= 5.0).collect();
    let filtered = store.filter_by_boolean_mask(&mask).unwrap().unwrap();
    assert_eq!(filtered.height(), 6);
    assert_eq!(filtered.points[0], [5.0, 0.0, 0.0]);
    assert_eq!(filtered.points[5], [10.0, 0.0, 0.0]);
}

#[test]
fn bounds_filter_includes_boundary_points() {
    let store = line_store(4);
    let (lo, hi) = ([1.0, 0.0, 0.0], [2.0, 0.0, 0.0]);
    let mask: Vec<bool> = store
        .points
        .iter()
        .map(|p| (0..3).all(|a| p[a] >= lo[a] && p[a] <= hi[a]))
        .collect();
    let filtered = store.filter_by_boolean_mask(&mask).unwrap().unwrap();
    assert_eq!(filtered.points, vec![[1.0, 0.0, 0.0], [2.0, 0.0, 0.0]]);
}

#[test]
fn mask_with_no_match_gives_none() {
    let store = line_store(3);
    assert!(store.filter_by_boolean_mask(&vec![false; 3]).unwrap().is_none());
    assert!(matches!(store.filter_by_boolean_mask(&vec![true; 4]), Err(Error::RowIndexOutsideRange)));
    assert!(matches!(store.filter_by_boolean_mask(&vec![true; 2]), Err(Error::ShapeMismatch)));
}

#[test]
fn row_indices_select_listed_rows() {
    let store = line_store(5);
    let filtered = store.filter_by_row_indices(&vec![3, 1, 3]).unwrap();
    assert_eq!(filtered.points, vec![[1.0, 0.0, 0.0], [3.0, 0.0, 0.0]]);
    assert!(matches!(store.filter_by_row_indices(&vec![]), Err(Error::NoRowIndices)));
    assert!(matches!(store.filter_by_row_indices(&vec![5]), Err(Error::RowIndexOutsideRange)));
}

#[test]
fn id_range_is_inclusive() {
    let mut store = line_store(6);
    store.add_sequential_id().unwrap();
    assert_eq!(store.ids, Some(vec![0, 1, 2, 3, 4, 5]));
    assert!(matches!(store.add_sequential_id(), Err(Error::ColumnAlreadyExists)));
    let filtered = store.filter_by_id_range(Some(2), Some(4)).unwrap().unwrap();
    assert_eq!(filtered.ids, Some(vec![2, 3, 4]));
    assert!(store.filter_by_id_range(Some(9), None).unwrap().is_none());
    assert!(matches!(line_store(2).filter_by_id_range(None, None), Err(Error::NoIdColumn)));
}

#[test]
fn distinct_frame_ids_in_first_order() {
    let mut store = line_store(4);
    let frames = vec!["b".to_string(), "a".to_string(), "b".to_string(), "c".to_string()];
    store.add_frame_ids(frames).unwrap();
    assert_eq!(
        store.get_distinct_frame_ids().unwrap(),
        vec!["b".to_string(), "a".to_string(), "c".to_string()]
    );
    assert!(matches!(line_store(1).get_distinct_frame_ids(), Err(Error::NoFrameIdDefinitions)));
}

#[test]
fn unique_frame_id_fills_every_row() {
    let mut store = line_store(3);
    store.add_unique_frame_id("map".to_string()).unwrap();
    assert_eq!(store.frame_ids, Some(vec!["map".to_string(); 3]));
    assert!(matches!(store.add_frame_ids(vec![String::new(); 3]), Err(Error::ColumnAlreadyExists)));
    let mut other = line_store(3);
    assert!(matches!(other.add_timestamps(vec![Timestamp::new(0, 0)]), Err(Error::ShapeMismatch)));
}

#[test]
fn beam_length_with_equal_bounds_fails() {
    assert_eq!(check_strict_bounds(&5.0f64, &5.0f64), Err(Error::LowerBoundEqualsUpperBound));
    assert_eq!(check_strict_bounds(&6.0f64, &5.0f64), Err(Error::LowerBoundExceedsUpperBound));
    assert_eq!(check_strict_bounds(&1.0f64, &5.0f64), Ok(()));
}

#[test]
fn filter_cloud_by_frame_id() {
    let mut store = line_store(3);
    store
        .add_frame_ids(vec!["a".to_string(), "b".to_string(), "a".to_string()])
        .unwrap();
    let cloud = PointCloud::new(store, PointCloudInfo::new(None), ()).unwrap();
    let only_a = cloud.filter_by_frame_id(&"a".to_string()).unwrap();
    assert_eq!(only_a.point_data.points, vec![[0.0, 0.0, 0.0], [2.0, 0.0, 0.0]]);
    assert_eq!(
        cloud.filter_by_frame_id(&"z".to_string()).err(),
        Some(Error::NoFrameIdDefinition("z".to_string()))
    );
    let bare = PointCloud::new(line_store(1), PointCloudInfo::new(None), ()).unwrap();
    assert_eq!(bare.filter_by_frame_id(&"a".to_string()).err(), Some(Error::NoFrameIdDefinitions));
}

#[test]
fn cloud_construction_rejects_two_frame_definitions() {
    let mut store = line_store(1);
    store.add_unique_frame_id("a".to_string()).unwrap();
    let r = PointCloud::new(store, PointCloudInfo::new(Some("b".to_string())), ());
    assert_eq!(r.err(), Some(Error::MultipleFrameIdDefinitions));
}

#[test]
fn remove_column_keeps_coordinates() {
    let mut store = line_store(2);
    store.add_sequential_id().unwrap();
    store.add_timestamps(vec![Timestamp::new(1, 0), Timestamp::new(2, 0)]).unwrap();
    assert_eq!(store.remove_column(PointDataColumnType::X), Err(Error::ObligatoryColumn));
    store.remove_column(PointDataColumnType::TimestampNanoSecond).unwrap();
    assert!(store.timestamps.is_none());
    assert!(store.ids.is_some());
    store.remove_column(PointDataColumnType::Id).unwrap();
    assert!(store.ids.is_none());
}

#[test]
fn remove_column_refuses_columns_not_held() {
    let mut store = line_store(2);
    assert_eq!(store.remove_column(PointDataColumnType::Intensity), Err(Error::ColumnNotFound));
    assert_eq!(store.remove_column(PointDataColumnType::Id), Err(Error::ColumnNotFound));
    assert_eq!(store.points.len(), 2);
}

#[test]
fn mismatched_column_is_shape_error_not_missing_data() {
    let r = PointData::new(vec![[0.0f64; 3]; 3], None, Some(vec!["a".to_string()]), None);
    assert!(matches!(r, Err(Error::ShapeMismatch)));
}
