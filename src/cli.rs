use crate::formats;
use vstd::prelude::*;

verus! {

/// The formats a user can name on the command line.
#[derive(Debug, Clone, Copy, PartialEq, Eq, Structural, Hash)]
pub enum PointCloudFormat {
    Epoint,
    EpointTar,
    E57,
    Las,
    Laz,
    Xyz,
    XyzZst,
}

impl PointCloudFormat {
    pub open spec fn spec_to_epoint_format(self) -> formats::PointCloudFormat {
        match self {
            PointCloudFormat::Epoint => formats::PointCloudFormat::Epoint,
            PointCloudFormat::EpointTar => formats::PointCloudFormat::EpointTar,
            PointCloudFormat::E57 => formats::PointCloudFormat::E57,
            PointCloudFormat::Las => formats::PointCloudFormat::Las,
            PointCloudFormat::Laz => formats::PointCloudFormat::Laz,
            PointCloudFormat::Xyz => formats::PointCloudFormat::Xyz,
            PointCloudFormat::XyzZst => formats::PointCloudFormat::XyzZst,
        }
    }

    /// The file format of the same name.
    pub fn to_epoint_format(&self) -> (r: formats::PointCloudFormat)
        ensures
            r == self.spec_to_epoint_format(),
    {
        match self {
            PointCloudFormat::Epoint => formats::PointCloudFormat::Epoint,
            PointCloudFormat::EpointTar => formats::PointCloudFormat::EpointTar,
            PointCloudFormat::E57 => formats::PointCloudFormat::E57,
            PointCloudFormat::Las => formats::PointCloudFormat::Las,
            PointCloudFormat::Laz => formats::PointCloudFormat::Laz,
            PointCloudFormat::Xyz => formats::PointCloudFormat::Xyz,
            PointCloudFormat::XyzZst => formats::PointCloudFormat::XyzZst,
        }
    }
}

} // verus!
