use crate::columns::{ColumnDataType, PointDataColumnType, COLUMN_TYPE_COUNT};
use crate::error::Error;
use vstd::prelude::*;

verus! {

/// Name and data type of one column of a table handed to the store.
#[derive(Debug, Clone)]
pub struct ColumnSchema {
    pub name: String,
    pub data_type: ColumnDataType,
}

impl ColumnSchema {
    pub fn new(name: String, data_type: ColumnDataType) -> (r: Self)
        ensures
            r.name@ == name@,
            r.data_type == data_type,
    {
        ColumnSchema { name, data_type }
    }
}

/// A column is acceptable when it is unknown to the registry, or carries the
/// data type registered under its name.
pub open spec fn column_type_ok(column: ColumnSchema) -> bool {
    forall|c: PointDataColumnType| #[trigger]
        c.spec_name() == column.name@ ==> column.data_type == c.spec_data_type()
}

/// A table is a valid point store when it has rows and every recognized
/// column has its registered type.
pub open spec fn is_valid_store(height: nat, columns: Seq<ColumnSchema>) -> bool {
    height > 0 && forall|i: int| 0 <= i < columns.len() ==> #[trigger] column_type_ok(columns[i])
}

/// Checks a table's shape and column types before it becomes a point store.
pub fn check_point_data_schema(height: usize, columns: &Vec<ColumnSchema>) -> (r: Result<(), Error>)
    ensures
        r is Ok <==> is_valid_store(height as nat, columns@),
        height == 0 <==> r == Err::<(), Error>(Error::NoData),
        r matches Err(e) ==> e is NoData || e is TypeMismatch,
        r matches Err(Error::TypeMismatch { column, expected, actual }) ==> exists|i: int|
            0 <= i < columns@.len() && !column_type_ok(columns@[i]) && (forall|j: int|
                0 <= j < i ==> #[trigger] column_type_ok(columns@[j])) && column@
                == columns@[i].name@ && actual@ == columns@[i].data_type.spec_name() && (exists|
                c: PointDataColumnType|
                #[trigger] c.spec_name() == columns@[i].name@ && c.spec_data_type()
                    != columns@[i].data_type && expected@ == c.spec_data_type().spec_name()),
{
    if height == 0 {
        return Err(Error::NoData);
    }
    let mut i: usize = 0;
    while i < columns.len()
        invariant
            height > 0,
            i <= columns@.len(),
            forall|j: int| 0 <= j < i ==> #[trigger] column_type_ok(columns@[j]),
        decreases columns@.len() - i,
    {
        let column = &columns[i];
        match first_type_conflict(column) {
            Some(c) => {
                return Err(
                    Error::TypeMismatch {
                        column: column.name.clone(),
                        expected: c.data_type().as_str().to_owned(),
                        actual: column.data_type.as_str().to_owned(),
                    },
                );
            },
            None => {},
        }
        i = i + 1;
    }
    Ok(())
}

/// The first registered column that carries the given name but another data type.
fn first_type_conflict(column: &ColumnSchema) -> (r: Option<PointDataColumnType>)
    ensures
        r is None <==> column_type_ok(*column),
        r matches Some(c) ==> c.spec_name() == column.name@ && c.spec_data_type()
            != column.data_type,
{
    let name = column.name.clone();
    let mut k: usize = 0;
    while k < COLUMN_TYPE_COUNT
        invariant
            k <= COLUMN_TYPE_COUNT,
            name@ == column.name@,
            forall|j: nat|
                j < k && #[trigger] PointDataColumnType::spec_at(j).spec_name() == column.name@
                    ==> column.data_type == PointDataColumnType::spec_at(j).spec_data_type(),
        decreases COLUMN_TYPE_COUNT - k,
    {
        let c = PointDataColumnType::at(k);
        let c_name = c.as_str().to_owned();
        if c_name == name && c.data_type() != column.data_type {
            return Some(c);
        }
        k = k + 1;
    }
    proof {
        assert forall|c: PointDataColumnType| #[trigger]
            c.spec_name() == column.name@ implies column.data_type == c.spec_data_type() by {
            c.lemma_index_roundtrip();
            assert(PointDataColumnType::spec_at(c.spec_index()).spec_name() == column.name@);
        }
    }
    None
}

/// The table has a column of the given name.
pub open spec fn has_column(columns: Seq<ColumnSchema>, c: PointDataColumnType) -> bool {
    exists|i: int| 0 <= i < columns.len() && #[trigger] columns[i].name@ == c.spec_name()
}

/// Whether the table has the column.
pub fn contains_column(columns: &Vec<ColumnSchema>, c: PointDataColumnType) -> (r: bool)
    ensures
        r == has_column(columns@, c),
{
    let wanted = c.as_str().to_owned();
    let mut i: usize = 0;
    while i < columns.len()
        invariant
            i <= columns@.len(),
            wanted@ == c.spec_name(),
            forall|j: int| 0 <= j < i ==> #[trigger] columns@[j].name@ != c.spec_name(),
        decreases columns@.len() - i,
    {
        if columns[i].name == wanted {
            return true;
        }
        i = i + 1;
    }
    false
}

/// Both timestamp columns are present.
pub fn contains_timestamps(columns: &Vec<ColumnSchema>) -> (r: bool)
    ensures
        r == (has_column(columns@, PointDataColumnType::TimestampSecond) && has_column(
            columns@,
            PointDataColumnType::TimestampNanoSecond,
        )),
{
    contains_column(columns, PointDataColumnType::TimestampSecond) && contains_column(
        columns,
        PointDataColumnType::TimestampNanoSecond,
    )
}

/// All three sensor translation columns are present.
pub fn contains_sensor_translation(columns: &Vec<ColumnSchema>) -> (r: bool)
    ensures
        r == (has_column(columns@, PointDataColumnType::SensorTranslationX) && has_column(
            columns@,
            PointDataColumnType::SensorTranslationY,
        ) && has_column(columns@, PointDataColumnType::SensorTranslationZ)),
{
    contains_column(columns, PointDataColumnType::SensorTranslationX) && contains_column(
        columns,
        PointDataColumnType::SensorTranslationY,
    ) && contains_column(columns, PointDataColumnType::SensorTranslationZ)
}

/// All four sensor rotation columns are present.
pub fn contains_sensor_rotation(columns: &Vec<ColumnSchema>) -> (r: bool)
    ensures
        r == (has_column(columns@, PointDataColumnType::SensorRotationX) && has_column(
            columns@,
            PointDataColumnType::SensorRotationY,
        ) && has_column(columns@, PointDataColumnType::SensorRotationZ) && has_column(
            columns@,
            PointDataColumnType::SensorRotationW,
        )),
{
    contains_column(columns, PointDataColumnType::SensorRotationX) && contains_column(
        columns,
        PointDataColumnType::SensorRotationY,
    ) && contains_column(columns, PointDataColumnType::SensorRotationZ) && contains_column(
        columns,
        PointDataColumnType::SensorRotationW,
    )
}

/// The sensor pose is complete: three translation and four rotation columns.
pub fn contains_sensor_pose(columns: &Vec<ColumnSchema>) -> (r: bool)
    ensures
        r == (has_column(columns@, PointDataColumnType::SensorTranslationX) && has_column(
            columns@,
            PointDataColumnType::SensorTranslationY,
        ) && has_column(columns@, PointDataColumnType::SensorTranslationZ) && has_column(
            columns@,
            PointDataColumnType::SensorRotationX,
        ) && has_column(columns@, PointDataColumnType::SensorRotationY) && has_column(
            columns@,
            PointDataColumnType::SensorRotationZ,
        ) && has_column(columns@, PointDataColumnType::SensorRotationW)),
{
    contains_sensor_translation(columns) && contains_sensor_rotation(columns)
}

/// All three color channels are present.
pub fn contains_colors(columns: &Vec<ColumnSchema>) -> (r: bool)
    ensures
        r == (has_column(columns@, PointDataColumnType::ColorRed) && has_column(
            columns@,
            PointDataColumnType::ColorGreen,
        ) && has_column(columns@, PointDataColumnType::ColorBlue)),
{
    contains_column(columns, PointDataColumnType::ColorRed) && contains_column(
        columns,
        PointDataColumnType::ColorGreen,
    ) && contains_column(columns, PointDataColumnType::ColorBlue)
}

/// All four octant index columns are present.
pub fn contains_octant_indices(columns: &Vec<ColumnSchema>) -> (r: bool)
    ensures
        r == (has_column(columns@, PointDataColumnType::OctantIndexLevel) && has_column(
            columns@,
            PointDataColumnType::OctantIndexX,
        ) && has_column(columns@, PointDataColumnType::OctantIndexY) && has_column(
            columns@,
            PointDataColumnType::OctantIndexZ,
        )),
{
    contains_column(columns, PointDataColumnType::OctantIndexLevel) && contains_column(
        columns,
        PointDataColumnType::OctantIndexX,
    ) && contains_column(columns, PointDataColumnType::OctantIndexY) && contains_column(
        columns,
        PointDataColumnType::OctantIndexZ,
    )
}

/// Removing a column is refused for the mandatory coordinates.
pub fn check_removable(column: PointDataColumnType) -> (r: Result<(), Error>)
    ensures
        column.spec_is_obligatory() <==> r == Err::<(), Error>(Error::ObligatoryColumn),
        !column.spec_is_obligatory() <==> r is Ok,
{
    if column.is_obligatory() {
        return Err(Error::ObligatoryColumn);
    }
    Ok(())
}

/// The table starts with the coordinate columns `x`, `y`, `z`, in this order
/// and of type `f64`.
pub open spec fn starts_with_coordinates(columns: Seq<ColumnSchema>) -> bool {
    &&& columns.len() >= 3
    &&& columns[0].name@ == PointDataColumnType::X.spec_name()
    &&& columns[1].name@ == PointDataColumnType::Y.spec_name()
    &&& columns[2].name@ == PointDataColumnType::Z.spec_name()
}

/// Checks a table that must hold rows, start with the coordinate columns and
/// carry the registered type in every recognized column.
pub fn check_point_data_frame_validity(height: usize, columns: &Vec<ColumnSchema>) -> (r: Result<
    (),
    Error,
>)
    ensures
        height == 0 <==> r == Err::<(), Error>(Error::NoData),
        height > 0 && !starts_with_coordinates(columns@) <==> r == Err::<(), Error>(
            Error::ColumnNameMismatch,
        ),
        r is Ok <==> starts_with_coordinates(columns@) && is_valid_store(height as nat, columns@),
        r matches Err(e) ==> e is NoData || e is ColumnNameMismatch || e is TypeMismatch,
{
    if height == 0 {
        return Err(Error::NoData);
    }
    if columns.len() < 3 {
        return Err(Error::ColumnNameMismatch);
    }
    let x = PointDataColumnType::X.as_str().to_owned();
    let y = PointDataColumnType::Y.as_str().to_owned();
    let z = PointDataColumnType::Z.as_str().to_owned();
    if columns[0].name != x || columns[1].name != y || columns[2].name != z {
        return Err(Error::ColumnNameMismatch);
    }
    check_point_data_schema(height, columns)
}

} // verus!
