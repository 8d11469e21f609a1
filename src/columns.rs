use vstd::prelude::*;

verus! {

/// Data types a column of the point store can carry.
#[derive(Debug, Clone, Copy, PartialEq, Eq, Structural)]
pub enum ColumnDataType {
    Float64,
    Float32,
    Int64,
    UInt64,
    UInt32,
    UInt16,
    /// Dictionary-encoded strings.
    Categorical,
}

impl ColumnDataType {
    pub open spec fn spec_name(self) -> Seq<char> {
        match self {
            ColumnDataType::Float64 => "f64"@,
            ColumnDataType::Float32 => "f32"@,
            ColumnDataType::Int64 => "i64"@,
            ColumnDataType::UInt64 => "u64"@,
            ColumnDataType::UInt32 => "u32"@,
            ColumnDataType::UInt16 => "u16"@,
            ColumnDataType::Categorical => "cat"@,
        }
    }

    /// Short name of the data type.
    pub fn as_str(&self) -> (r: &'static str)
        ensures
            r@ == self.spec_name(),
    {
        match self {
            ColumnDataType::Float64 => "f64",
            ColumnDataType::Float32 => "f32",
            ColumnDataType::Int64 => "i64",
            ColumnDataType::UInt64 => "u64",
            ColumnDataType::UInt32 => "u32",
            ColumnDataType::UInt16 => "u16",
            ColumnDataType::Categorical => "cat",
        }
    }
}

/// The closed registry of recognized point attribute columns.
#[derive(Debug, Clone, Copy, PartialEq, Eq, Structural)]
pub enum PointDataColumnType {
    /// X coordinate (mandatory).
    X,
    /// Y coordinate (mandatory).
    Y,
    /// Z coordinate (mandatory).
    Z,
    /// Identifier of an individual point.
    Id,
    /// Coordinate frame the point is defined in.
    FrameId,
    /// Non-leap seconds since the UNIX epoch.
    TimestampSecond,
    /// Nanoseconds since the last whole second.
    TimestampNanoSecond,
    /// Pulse return magnitude.
    Intensity,
    /// Sensor translation, X component.
    SensorTranslationX,
    /// Sensor translation, Y component.
    SensorTranslationY,
    /// Sensor translation, Z component.
    SensorTranslationZ,
    /// Sensor rotation quaternion, X component.
    SensorRotationX,
    /// Sensor rotation quaternion, Y component.
    SensorRotationY,
    /// Sensor rotation quaternion, Z component.
    SensorRotationZ,
    /// Sensor rotation quaternion, W component.
    SensorRotationW,
    /// Red image channel.
    ColorRed,
    /// Green image channel.
    ColorGreen,
    /// Blue image channel.
    ColorBlue,
    /// Azimuth of the spherical coordinates.
    SphericalAzimuth,
    /// Elevation of the spherical coordinates.
    SphericalElevation,
    /// Range of the spherical coordinates.
    SphericalRange,
    /// Level of the octant index.
    OctantIndexLevel,
    /// X index of the octant.
    OctantIndexX,
    /// Y index of the octant.
    OctantIndexY,
    /// Z index of the octant.
    OctantIndexZ,
    /// Source the point originated from (flight line, setup).
    PointSourceId,
}

/// Number of recognized columns.
pub const COLUMN_TYPE_COUNT: usize = 26;

impl PointDataColumnType {
    /// Canonical column name.
    pub open spec fn spec_name(self) -> Seq<char> {
        match self {
            PointDataColumnType::X => "x"@,
            PointDataColumnType::Y => "y"@,
            PointDataColumnType::Z => "z"@,
            PointDataColumnType::Id => "id"@,
            PointDataColumnType::FrameId => "frame_id"@,
            PointDataColumnType::TimestampSecond => "timestamp_sec"@,
            PointDataColumnType::TimestampNanoSecond => "timestamp_nanosec"@,
            PointDataColumnType::Intensity => "intensity"@,
            PointDataColumnType::SensorTranslationX => "sensor_translation_x"@,
            PointDataColumnType::SensorTranslationY => "sensor_translation_y"@,
            PointDataColumnType::SensorTranslationZ => "sensor_translation_z"@,
            PointDataColumnType::SensorRotationX => "sensor_rotation_x"@,
            PointDataColumnType::SensorRotationY => "sensor_rotation_y"@,
            PointDataColumnType::SensorRotationZ => "sensor_rotation_z"@,
            PointDataColumnType::SensorRotationW => "sensor_rotation_w"@,
            PointDataColumnType::ColorRed => "color_red"@,
            PointDataColumnType::ColorGreen => "color_green"@,
            PointDataColumnType::ColorBlue => "color_blue"@,
            PointDataColumnType::SphericalAzimuth => "spherical_azimuth"@,
            PointDataColumnType::SphericalElevation => "spherical_elevation"@,
            PointDataColumnType::SphericalRange => "spherical_range"@,
            PointDataColumnType::OctantIndexLevel => "octant_index_level"@,
            PointDataColumnType::OctantIndexX => "octant_index_x"@,
            PointDataColumnType::OctantIndexY => "octant_index_y"@,
            PointDataColumnType::OctantIndexZ => "octant_index_z"@,
            PointDataColumnType::PointSourceId => "point_source_id"@,
        }
    }

    /// Registered data type.
    pub open spec fn spec_data_type(self) -> ColumnDataType {
        match self {
            PointDataColumnType::X => ColumnDataType::Float64,
            PointDataColumnType::Y => ColumnDataType::Float64,
            PointDataColumnType::Z => ColumnDataType::Float64,
            PointDataColumnType::Id => ColumnDataType::UInt64,
            PointDataColumnType::FrameId => ColumnDataType::Categorical,
            PointDataColumnType::TimestampSecond => ColumnDataType::Int64,
            PointDataColumnType::TimestampNanoSecond => ColumnDataType::UInt32,
            PointDataColumnType::Intensity => ColumnDataType::Float32,
            PointDataColumnType::SensorTranslationX => ColumnDataType::Float64,
            PointDataColumnType::SensorTranslationY => ColumnDataType::Float64,
            PointDataColumnType::SensorTranslationZ => ColumnDataType::Float64,
            PointDataColumnType::SensorRotationX => ColumnDataType::Float64,
            PointDataColumnType::SensorRotationY => ColumnDataType::Float64,
            PointDataColumnType::SensorRotationZ => ColumnDataType::Float64,
            PointDataColumnType::SensorRotationW => ColumnDataType::Float64,
            PointDataColumnType::ColorRed => ColumnDataType::UInt16,
            PointDataColumnType::ColorGreen => ColumnDataType::UInt16,
            PointDataColumnType::ColorBlue => ColumnDataType::UInt16,
            PointDataColumnType::SphericalAzimuth => ColumnDataType::Float64,
            PointDataColumnType::SphericalElevation => ColumnDataType::Float64,
            PointDataColumnType::SphericalRange => ColumnDataType::Float64,
            PointDataColumnType::OctantIndexLevel => ColumnDataType::UInt32,
            PointDataColumnType::OctantIndexX => ColumnDataType::UInt64,
            PointDataColumnType::OctantIndexY => ColumnDataType::UInt64,
            PointDataColumnType::OctantIndexZ => ColumnDataType::UInt64,
            PointDataColumnType::PointSourceId => ColumnDataType::UInt16,
        }
    }

    /// Position of the column in the registry.
    pub open spec fn spec_index(self) -> nat {
        match self {
            PointDataColumnType::X => 0,
            PointDataColumnType::Y => 1,
            PointDataColumnType::Z => 2,
            PointDataColumnType::Id => 3,
            PointDataColumnType::FrameId => 4,
            PointDataColumnType::TimestampSecond => 5,
            PointDataColumnType::TimestampNanoSecond => 6,
            PointDataColumnType::Intensity => 7,
            PointDataColumnType::SensorTranslationX => 8,
            PointDataColumnType::SensorTranslationY => 9,
            PointDataColumnType::SensorTranslationZ => 10,
            PointDataColumnType::SensorRotationX => 11,
            PointDataColumnType::SensorRotationY => 12,
            PointDataColumnType::SensorRotationZ => 13,
            PointDataColumnType::SensorRotationW => 14,
            PointDataColumnType::ColorRed => 15,
            PointDataColumnType::ColorGreen => 16,
            PointDataColumnType::ColorBlue => 17,
            PointDataColumnType::SphericalAzimuth => 18,
            PointDataColumnType::SphericalElevation => 19,
            PointDataColumnType::SphericalRange => 20,
            PointDataColumnType::OctantIndexLevel => 21,
            PointDataColumnType::OctantIndexX => 22,
            PointDataColumnType::OctantIndexY => 23,
            PointDataColumnType::OctantIndexZ => 24,
            PointDataColumnType::PointSourceId => 25,
        }
    }

    /// The column at a registry position.
    pub open spec fn spec_at(i: nat) -> Self {
        if i == 0 {
            PointDataColumnType::X
        } else if i == 1 {
            PointDataColumnType::Y
        } else if i == 2 {
            PointDataColumnType::Z
        } else if i == 3 {
            PointDataColumnType::Id
        } else if i == 4 {
            PointDataColumnType::FrameId
        } else if i == 5 {
            PointDataColumnType::TimestampSecond
        } else if i == 6 {
            PointDataColumnType::TimestampNanoSecond
        } else if i == 7 {
            PointDataColumnType::Intensity
        } else if i == 8 {
            PointDataColumnType::SensorTranslationX
        } else if i == 9 {
            PointDataColumnType::SensorTranslationY
        } else if i == 10 {
            PointDataColumnType::SensorTranslationZ
        } else if i == 11 {
            PointDataColumnType::SensorRotationX
        } else if i == 12 {
            PointDataColumnType::SensorRotationY
        } else if i == 13 {
            PointDataColumnType::SensorRotationZ
        } else if i == 14 {
            PointDataColumnType::SensorRotationW
        } else if i == 15 {
            PointDataColumnType::ColorRed
        } else if i == 16 {
            PointDataColumnType::ColorGreen
        } else if i == 17 {
            PointDataColumnType::ColorBlue
        } else if i == 18 {
            PointDataColumnType::SphericalAzimuth
        } else if i == 19 {
            PointDataColumnType::SphericalElevation
        } else if i == 20 {
            PointDataColumnType::SphericalRange
        } else if i == 21 {
            PointDataColumnType::OctantIndexLevel
        } else if i == 22 {
            PointDataColumnType::OctantIndexX
        } else if i == 23 {
            PointDataColumnType::OctantIndexY
        } else if i == 24 {
            PointDataColumnType::OctantIndexZ
        } else {
            PointDataColumnType::PointSourceId
        }
    }

    /// Only the coordinates are mandatory.
    pub open spec fn spec_is_obligatory(self) -> bool {
        self == PointDataColumnType::X || self == PointDataColumnType::Y || self
            == PointDataColumnType::Z
    }

    pub proof fn lemma_index_roundtrip(self)
        ensures
            self.spec_index() < COLUMN_TYPE_COUNT,
            Self::spec_at(self.spec_index()) == self,
    {
    }

    /// Canonical column name.
    pub fn as_str(&self) -> (r: &'static str)
        ensures
            r@ == self.spec_name(),
    {
        match self {
            PointDataColumnType::X => "x",
            PointDataColumnType::Y => "y",
            PointDataColumnType::Z => "z",
            PointDataColumnType::Id => "id",
            PointDataColumnType::FrameId => "frame_id",
            PointDataColumnType::TimestampSecond => "timestamp_sec",
            PointDataColumnType::TimestampNanoSecond => "timestamp_nanosec",
            PointDataColumnType::Intensity => "intensity",
            PointDataColumnType::SensorTranslationX => "sensor_translation_x",
            PointDataColumnType::SensorTranslationY => "sensor_translation_y",
            PointDataColumnType::SensorTranslationZ => "sensor_translation_z",
            PointDataColumnType::SensorRotationX => "sensor_rotation_x",
            PointDataColumnType::SensorRotationY => "sensor_rotation_y",
            PointDataColumnType::SensorRotationZ => "sensor_rotation_z",
            PointDataColumnType::SensorRotationW => "sensor_rotation_w",
            PointDataColumnType::ColorRed => "color_red",
            PointDataColumnType::ColorGreen => "color_green",
            PointDataColumnType::ColorBlue => "color_blue",
            PointDataColumnType::SphericalAzimuth => "spherical_azimuth",
            PointDataColumnType::SphericalElevation => "spherical_elevation",
            PointDataColumnType::SphericalRange => "spherical_range",
            PointDataColumnType::OctantIndexLevel => "octant_index_level",
            PointDataColumnType::OctantIndexX => "octant_index_x",
            PointDataColumnType::OctantIndexY => "octant_index_y",
            PointDataColumnType::OctantIndexZ => "octant_index_z",
            PointDataColumnType::PointSourceId => "point_source_id",
        }
    }

    /// Registered data type of the column.
    pub fn data_type(&self) -> (r: ColumnDataType)
        ensures
            r == self.spec_data_type(),
    {
        match self {
            PointDataColumnType::X => ColumnDataType::Float64,
            PointDataColumnType::Y => ColumnDataType::Float64,
            PointDataColumnType::Z => ColumnDataType::Float64,
            PointDataColumnType::Id => ColumnDataType::UInt64,
            PointDataColumnType::FrameId => ColumnDataType::Categorical,
            PointDataColumnType::TimestampSecond => ColumnDataType::Int64,
            PointDataColumnType::TimestampNanoSecond => ColumnDataType::UInt32,
            PointDataColumnType::Intensity => ColumnDataType::Float32,
            PointDataColumnType::SensorTranslationX => ColumnDataType::Float64,
            PointDataColumnType::SensorTranslationY => ColumnDataType::Float64,
            PointDataColumnType::SensorTranslationZ => ColumnDataType::Float64,
            PointDataColumnType::SensorRotationX => ColumnDataType::Float64,
            PointDataColumnType::SensorRotationY => ColumnDataType::Float64,
            PointDataColumnType::SensorRotationZ => ColumnDataType::Float64,
            PointDataColumnType::SensorRotationW => ColumnDataType::Float64,
            PointDataColumnType::ColorRed => ColumnDataType::UInt16,
            PointDataColumnType::ColorGreen => ColumnDataType::UInt16,
            PointDataColumnType::ColorBlue => ColumnDataType::UInt16,
            PointDataColumnType::SphericalAzimuth => ColumnDataType::Float64,
            PointDataColumnType::SphericalElevation => ColumnDataType::Float64,
            PointDataColumnType::SphericalRange => ColumnDataType::Float64,
            PointDataColumnType::OctantIndexLevel => ColumnDataType::UInt32,
            PointDataColumnType::OctantIndexX => ColumnDataType::UInt64,
            PointDataColumnType::OctantIndexY => ColumnDataType::UInt64,
            PointDataColumnType::OctantIndexZ => ColumnDataType::UInt64,
            PointDataColumnType::PointSourceId => ColumnDataType::UInt16,
        }
    }

    /// The column at a registry position.
    pub fn at(i: usize) -> (r: Self)
        requires
            i < COLUMN_TYPE_COUNT,
        ensures
            r == Self::spec_at(i as nat),
    {
        if i == 0 {
            PointDataColumnType::X
        } else if i == 1 {
            PointDataColumnType::Y
        } else if i == 2 {
            PointDataColumnType::Z
        } else if i == 3 {
            PointDataColumnType::Id
        } else if i == 4 {
            PointDataColumnType::FrameId
        } else if i == 5 {
            PointDataColumnType::TimestampSecond
        } else if i == 6 {
            PointDataColumnType::TimestampNanoSecond
        } else if i == 7 {
            PointDataColumnType::Intensity
        } else if i == 8 {
            PointDataColumnType::SensorTranslationX
        } else if i == 9 {
            PointDataColumnType::SensorTranslationY
        } else if i == 10 {
            PointDataColumnType::SensorTranslationZ
        } else if i == 11 {
            PointDataColumnType::SensorRotationX
        } else if i == 12 {
            PointDataColumnType::SensorRotationY
        } else if i == 13 {
            PointDataColumnType::SensorRotationZ
        } else if i == 14 {
            PointDataColumnType::SensorRotationW
        } else if i == 15 {
            PointDataColumnType::ColorRed
        } else if i == 16 {
            PointDataColumnType::ColorGreen
        } else if i == 17 {
            PointDataColumnType::ColorBlue
        } else if i == 18 {
            PointDataColumnType::SphericalAzimuth
        } else if i == 19 {
            PointDataColumnType::SphericalElevation
        } else if i == 20 {
            PointDataColumnType::SphericalRange
        } else if i == 21 {
            PointDataColumnType::OctantIndexLevel
        } else if i == 22 {
            PointDataColumnType::OctantIndexX
        } else if i == 23 {
            PointDataColumnType::OctantIndexY
        } else if i == 24 {
            PointDataColumnType::OctantIndexZ
        } else {
            PointDataColumnType::PointSourceId
        }
    }

    /// Whether the column is one of the mandatory coordinates.
    pub fn is_obligatory(&self) -> (r: bool)
        ensures
            r == self.spec_is_obligatory(),
    {
        match self {
            PointDataColumnType::X | PointDataColumnType::Y | PointDataColumnType::Z => true,
            _ => false,
        }
    }

    /// Looks a column up by its canonical name.
    pub fn from_name(name: &str) -> (r: Option<Self>)
        ensures
            r matches Some(c) ==> c.spec_name() == name@,
            r is None ==> forall|c: Self| #[trigger] c.spec_name() != name@,
    {
        let wanted = name.to_owned();
        let mut i: usize = 0;
        while i < COLUMN_TYPE_COUNT
            invariant
                i <= COLUMN_TYPE_COUNT,
                wanted@ == name@,
                forall|j: nat| j < i ==> #[trigger] Self::spec_at(j).spec_name() != name@,
            decreases COLUMN_TYPE_COUNT - i,
        {
            let candidate = Self::at(i);
            let candidate_name = candidate.as_str().to_owned();
            if candidate_name == wanted {
                return Some(candidate);
            }
            i = i + 1;
        }
        proof {
            assert forall|c: Self| #[trigger] c.spec_name() != name@ by {
                c.lemma_index_roundtrip();
                assert(Self::spec_at(c.spec_index()).spec_name() != name@);
            }
        }
        None
    }
}

} // verus!
