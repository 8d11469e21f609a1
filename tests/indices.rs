use epoint::octree::{CellIdentifier, GridPoint, Octant, OctantIndex, Octree, PointCloudOctree};
use epoint::schema::{
    check_point_data_frame_validity, check_removable, contains_colors, contains_sensor_pose, contains_timestamps,
    ColumnSchema,
};
use epoint::{ColumnDataType, Error, PointCloud, PointCloudInfo, PointData, PointDataColumnType, Timestamp};

fn schema(names: &[(&str, ColumnDataType)]) -> Vec<ColumnSchema> {
    names.iter().map(|(n, t)| ColumnSchema::new(n.to_string(), *t)).collect()
}

#[test]
fn octant_index_of_a_path() {
    let up = Octant { x_positive: true, y_positive: false, z_positive: true };
    let down = Octant { x_positive: false, y_positive: true, z_positive: false };
    let id = CellIdentifier::root().append(up).append(down);
    assert_eq!(id.octant_index(), Ok(OctantIndex { level: 2, x: 2, y: 1, z: 2 }));
    assert_eq!(CellIdentifier::root().octant_index(), Ok(OctantIndex { level: 0, x: 0, y: 0, z: 0 }));
    let mut deep = CellIdentifier::root();
    for _ in 0..65 {
        deep = deep.append(up);
    }
    assert_eq!(deep.octant_index(), Err(Error::InvalidNumber));
}

#[test]
fn octant_indices_per_point() {
    let half = 1u64 << 63;
    let grid = vec![
        GridPoint { x: 0, y: 0, z: 0 },
        GridPoint { x: half, y: half, z: half },
        GridPoint { x: half, y: 0, z: 0 },
    ];
    let tree = Octree::new(&grid, 1, Some(5)).unwrap();
    let indices = tree.octant_indices().unwrap();
    assert_eq!(indices.len(), 3);
    let at_root = indices.iter().filter(|i| i.level == 0).count();
    assert_eq!(at_root, 1);
    for (row, index) in indices.iter().enumerate() {
        let cell = tree.cells.iter().find(|c| c.rows.contains(&row)).unwrap();
        assert_eq!(cell.id.octant_index().unwrap(), *index);
    }
}

#[test]
fn filter_points_by_octant_index() {
    let store = PointData::new(vec![[0.0f64; 3], [1.0; 3], [2.0; 3]], None, None, None).unwrap();
    let a = OctantIndex { level: 1, x: 0, y: 0, z: 0 };
    let b = OctantIndex { level: 1, x: 1, y: 0, z: 0 };
    assert!(matches!(store.filter_by_octant_index(a), Err(Error::NoOctantIndicesColumns)));
    let mut indexed = store.clone();
    assert!(matches!(indexed.add_octant_indices(vec![a]), Err(Error::ShapeMismatch)));
    indexed.add_octant_indices(vec![a, b, a]).unwrap();
    let filtered = indexed.filter_by_octant_index(a).unwrap().unwrap();
    assert_eq!(filtered.points, vec![[0.0; 3], [2.0; 3]]);
    assert_eq!(filtered.octant_indices, Some(vec![a, a]));
    let mut other = store.clone();
    other.add_octant_indices(vec![a, a, a]).unwrap();
    assert!(other.filter_by_octant_index(b).unwrap().is_none());
    assert!(matches!(other.add_octant_indices(vec![a, a, a]), Err(Error::ColumnAlreadyExists)));
    other.remove_column(PointDataColumnType::OctantIndexY).unwrap();
    assert!(other.octant_indices.is_none());
}

#[test]
fn cloud_octree_extracts_cells() {
    let store = PointData::new(vec![[0.0f64; 3], [1.0; 3], [2.0; 3]], None, None, None).unwrap();
    let cloud = PointCloud::new(store, PointCloudInfo::new(Some("map".to_string())), ()).unwrap();
    let half = 1u64 << 63;
    let grid = vec![
        GridPoint { x: 0, y: 0, z: 0 },
        GridPoint { x: half, y: 0, z: 0 },
        GridPoint { x: half, y: half, z: 0 },
    ];
    let tree = PointCloudOctree::new(cloud.clone(), &grid, 2, Some(1)).unwrap();
    assert_eq!(tree.cell_indices().len(), tree.octree.number_of_cells());
    let root = tree.extract_octant(&CellIdentifier::root()).unwrap();
    assert_eq!(root.size(), 2);
    assert_eq!(root.info.frame_id, Some("map".to_string()));
    assert!(matches!(PointCloudOctree::new(cloud, &grid[..2].to_vec(), 2, None), Err(Error::ShapeMismatch)));
}

#[test]
fn frame_validity_needs_leading_coordinates() {
    let good = schema(&[("x", ColumnDataType::Float64), ("y", ColumnDataType::Float64), ("z", ColumnDataType::Float64)]);
    assert_eq!(check_point_data_frame_validity(2, &good), Ok(()));
    let swapped = schema(&[("y", ColumnDataType::Float64), ("x", ColumnDataType::Float64), ("z", ColumnDataType::Float64)]);
    assert_eq!(check_point_data_frame_validity(2, &swapped), Err(Error::ColumnNameMismatch));
    assert_eq!(check_point_data_frame_validity(0, &good), Err(Error::NoData));
    let bad_z = schema(&[("x", ColumnDataType::Float64), ("y", ColumnDataType::Float64), ("z", ColumnDataType::Float32)]);
    assert!(matches!(check_point_data_frame_validity(2, &bad_z), Err(Error::TypeMismatch { .. })));
}

#[test]
fn column_groups_are_complete_only_with_every_member() {
    let cols = schema(&[
        ("x", ColumnDataType::Float64),
        ("timestamp_sec", ColumnDataType::Int64),
        ("color_red", ColumnDataType::UInt16),
        ("color_green", ColumnDataType::UInt16),
        ("color_blue", ColumnDataType::UInt16),
        ("sensor_translation_x", ColumnDataType::Float64),
    ]);
    assert!(!contains_timestamps(&cols));
    assert!(contains_colors(&cols));
    assert!(!contains_sensor_pose(&cols));
    assert_eq!(check_removable(PointDataColumnType::Y), Err(Error::ObligatoryColumn));
    assert_eq!(check_removable(PointDataColumnType::Intensity), Ok(()));
}

#[test]
fn update_points_and_statistics() {
    let store = PointData::new(
        vec![[0.0f64; 3], [1.0; 3], [2.0; 3]],
        Some(vec![7, 3, 9]),
        None,
        Some(vec![Timestamp::new(5, 1), Timestamp::new(2, 9), Timestamp::new(5, 0)]),
    )
    .unwrap();
    assert_eq!(store.get_timestamp_min(), Ok(Timestamp::new(2, 9)));
    assert_eq!(store.get_timestamp_max(), Ok(Timestamp::new(5, 1)));
    assert_eq!(store.get_id_range(), Ok((3, 9)));
    let mut cloud = PointCloud::new(store, PointCloudInfo::new(None), ()).unwrap();
    assert_eq!(cloud.update_points(vec![[1.0; 3]], None), Err(Error::ShapeMismatch));
    cloud.update_points(vec![[4.0; 3]; 3], Some("map".to_string())).unwrap();
    assert_eq!(cloud.point_data.points, vec![[4.0; 3]; 3]);
    assert_eq!(cloud.get_distinct_frame_ids(), Some(vec!["map".to_string()]));
    assert!(cloud.contains_frame_ids());
}

#[test]
fn compute_octree_stores_octant_indices() {
    let mut store = PointData::new(vec![[0.0f64; 3], [1.0; 3], [2.0; 3]], None, None, None).unwrap();
    let half = 1u64 << 63;
    let grid = vec![
        GridPoint { x: 0, y: 0, z: 0 },
        GridPoint { x: half, y: half, z: half },
        GridPoint { x: half, y: 0, z: 0 },
    ];
    assert!(matches!(store.compute_octree(&grid[..2].to_vec(), 1, None), Err(Error::ShapeMismatch)));
    store.compute_octree(&grid, 1, Some(5)).unwrap();
    let indices = store.octant_indices.clone().unwrap();
    assert_eq!(indices.iter().filter(|i| i.level == 0).count(), 1);
    assert_eq!(indices.iter().filter(|i| i.level == 1).count(), 2);
}
