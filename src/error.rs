use vstd::prelude::*;

verus! {

/// Every failure the library reports.
#[derive(Debug, Clone, PartialEq, Eq)]
pub enum Error {
    /// The store holds no rows, or a lookup found nothing.
    NoData,
    /// Two row-aligned inputs have different lengths.
    ShapeMismatch,
    /// A recognized column carries a data type other than its registered one.
    TypeMismatch { column: String, expected: String, actual: String },
    /// A column appears at a position where another one is expected.
    ColumnNameMismatch,
    /// The column is mandatory and cannot be removed.
    ObligatoryColumn,
    /// The store holds no such column: it is absent, or carried in the payload.
    ColumnNotFound,
    /// The column to add is already present.
    ColumnAlreadyExists,
    /// Both a per-point frame column and a cloud-wide frame id are set.
    MultipleFrameIdDefinitions,
    /// Neither a per-point frame column nor a cloud-wide frame id is set.
    NoFrameIdDefinitions,
    /// The requested frame id does not occur in the cloud.
    NoFrameIdDefinition(String),
    NoIdColumn,
    NoTimestampColumns,
    NoSensorTranslationColumn,
    NoSphericalRangeColumn,
    NoOctantIndicesColumns,
    NoRemainingPoints,
    NoRowIndices,
    RowIndexOutsideRange,
    LowerBoundExceedsUpperBound,
    LowerBoundEqualsUpperBound,
    InvalidNumber,
    /// The transform graph could not provide a transform.
    TransformUnavailable(String),
    /// Clouds to merge carry different metadata.
    DifferentPointCloudInfos,
    /// The path has no file name.
    NoFileName,
    /// The path has no file extension.
    NoFileExtension,
    /// The file extension names no supported format.
    InvalidFileExtension(String),
    /// The format cannot be used for the requested direction.
    FormatNotSupported(String),
    /// A LAS version this library does not know.
    InvalidVersion { major: u8, minor: u8 },
}

} // verus!
