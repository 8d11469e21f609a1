//! Point-cloud processing core: a typed point store, cloud-level frame
//! metadata, row selection, frame resolution and a seeded octree.
use vstd::prelude::*;

pub use crate::columns::{ColumnDataType, PointDataColumnType};
pub use crate::error::Error;
pub use crate::point_cloud::{PointCloud, PointCloudInfo};
pub use crate::point_data::{PointData, Timestamp};

pub mod bounds;
pub mod cli;
pub mod columns;
pub mod error;
pub mod formats;
pub mod octree;
pub mod point_cloud;
pub mod point_data;
pub mod resolve;
pub mod sampling;
pub mod schema;
pub mod selection;
pub mod transform;

verus! {

} // verus!
