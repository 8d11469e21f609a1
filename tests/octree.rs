use epoint::octree::{CellIdentifier, GridPoint, Octant, Octree};
use epoint::sampling::{deterministic_divide, generate_random_numbers};
use epoint::{Error, PointData};

const HALF: u64 = 1 << 63;

fn grid(points: &[(u64, u64, u64)]) -> Vec<GridPoint> {
    points.iter().map(|&(x, y, z)| GridPoint { x, y, z }).collect()
}

fn nine_points() -> Vec<GridPoint> {
    grid(&[
        (0, 0, 0),
        (HALF, 0, 0),
        (0, HALF, 0),
        (0, 0, HALF),
        (HALF, HALF, 0),
        (HALF, 0, HALF),
        (0, HALF, HALF),
        (HALF, HALF, HALF),
        (HALF + 7, 3, HALF + 1),
    ])
}

fn all_rows(tree: &Octree) -> Vec<usize> {
    let mut rows: Vec<usize> = tree.cells.iter().flat_map(|c| c.rows.clone()).collect();
    rows.sort();
    rows
}

#[test]
fn nine_points_split_root_and_one_child() {
    let tree = Octree::new(&nine_points(), 8, Some(42)).unwrap();
    let root = tree.cell(&CellIdentifier::root()).unwrap();
    assert_eq!(root.len(), 8);
    assert_eq!(tree.number_of_cells(), 2);
    let child = &tree.cells[1];
    assert_eq!(child.id.level(), 1);
    assert_eq!(child.rows.len(), 1);
    assert!(!root.contains(&child.rows[0]));
}

#[test]
fn every_point_lands_in_exactly_one_cell() {
    let points: Vec<GridPoint> = (0..200u64)
        .map(|i| GridPoint { x: i.wrapping_mul(0x9E37_79B9_7F4A_7C15), y: i << 57, z: i.wrapping_mul(31) << 40 })
        .collect();
    let tree = Octree::new(&points, 5, Some(7)).unwrap();
    assert_eq!(all_rows(&tree), (0..200).collect::<Vec<usize>>());
    assert!(tree.cells.iter().all(|c| !c.rows.is_empty() && c.rows.len() <= 5));
}

#[test]
fn same_seed_gives_same_tree() {
    let a = Octree::new(&nine_points(), 3, Some(11)).unwrap();
    let b = Octree::new(&nine_points(), 3, Some(11)).unwrap();
    assert_eq!(a.number_of_cells(), b.number_of_cells());
    for (x, y) in a.cells.iter().zip(b.cells.iter()) {
        assert_eq!(x.id.path, y.id.path);
        assert_eq!(x.rows, y.rows);
    }
}

#[test]
fn octree_rejects_zero_capacity_and_no_points() {
    assert!(matches!(Octree::new(&nine_points(), 0, None), Err(Error::InvalidNumber)));
    assert!(matches!(Octree::new(&Vec::new(), 4, None), Err(Error::NoData)));
}

#[test]
fn child_identifier_extends_path() {
    let o = Octant { x_positive: true, y_positive: false, z_positive: true };
    let id = CellIdentifier::root().append(o);
    assert_eq!(id.path, vec![o]);
    assert_eq!(Octant::at(5), o);
    assert!(id.same_cell(&CellIdentifier::root().append(o)));
    assert!(!id.same_cell(&CellIdentifier::root()));
}

#[test]
fn extract_octant_takes_cell_rows() {
    let points: Vec<[f64; 3]> = (0..9).map(|i| [i as f64, 0.0, 0.0]).collect();
    let store = PointData::new(points, None, None, None).unwrap();
    let tree = Octree::new(&nine_points(), 8, Some(42)).unwrap();
    let child = &tree.cells[1];
    let extracted = tree.extract_octant(&store, &child.id).unwrap();
    assert_eq!(extracted.points, vec![[child.rows[0] as f64, 0.0, 0.0]]);
    let missing = CellIdentifier::root().append(Octant::at(0)).append(Octant::at(0));
    assert!(matches!(tree.extract_octant(&store, &missing), Err(Error::NoData)));
}

#[test]
fn random_numbers_are_distinct_and_reproducible() {
    let a = generate_random_numbers(Some(3), 10, 4).unwrap();
    let b = generate_random_numbers(Some(3), 10, 4).unwrap();
    assert_eq!(a, b);
    let mut sorted = a.clone();
    sorted.sort();
    sorted.dedup();
    assert_eq!(sorted.len(), 4);
    assert!(a.iter().all(|&i| i < 10));
    assert_eq!(generate_random_numbers(None, 3, 4), Err(Error::InvalidNumber));
}

#[test]
fn divide_splits_rows() {
    let points: Vec<[f64; 3]> = (0..10).map(|i| [i as f64, 0.0, 0.0]).collect();
    let store = PointData::new(points, None, None, None).unwrap();
    let (target, rest) = deterministic_divide(&store, 4, Some(1)).unwrap();
    let target = target.unwrap();
    let rest = rest.unwrap();
    assert_eq!(target.height(), 4);
    assert_eq!(rest.height(), 6);
    let mut all: Vec<f64> = target.points.iter().chain(rest.points.iter()).map(|p| p[0]).collect();
    all.sort_by(|a, b| a.partial_cmp(b).unwrap());
    assert_eq!(all, (0..10).map(|i| i as f64).collect::<Vec<f64>>());
    let (whole, none) = deterministic_divide(&store, 10, None).unwrap();
    assert_eq!(whole.unwrap().height(), 10);
    assert!(none.is_none());
    assert!(matches!(deterministic_divide(&store, 11, None), Err(Error::InvalidNumber)));
}
