use crate::error::Error;
use crate::point_cloud::PointCloudInfo;
use vstd::prelude::*;
use vstd::string::{StrSliceExecFns, StringExecFns};

verus! {

/// What `str::to_lowercase` makes of a string.
pub uninterp spec fn lowercase_of(s: Seq<char>) -> Seq<char>;

/// The last component of a path, as `Path::file_name` finds it.
pub uninterp spec fn file_name_of(path: Seq<char>) -> Option<Seq<char>>;

/// The extension of a path's file name, as `Path::extension` finds it.
pub uninterp spec fn extension_of(path: Seq<char>) -> Option<Seq<char>>;

pub open spec fn opt_view(s: Option<String>) -> Option<Seq<char>> {
    match s {
        Some(v) => Some(v@),
        None => None,
    }
}

/// Whether `s` ends with `suffix`.
pub open spec fn ends_with_spec(s: Seq<char>, suffix: Seq<char>) -> bool {
    suffix.len() <= s.len() && s.subrange(s.len() - suffix.len(), s.len() as int) == suffix
}

/// Relies on `str::to_lowercase`: the result depends on the characters alone.
#[verifier::external_body]
fn lowercase(s: &str) -> (r: String)
    ensures
        r@ == lowercase_of(s@),
{
    s.to_lowercase()
}

/// Relies on `Path::file_name`: the last component of the path, unless the
/// path ends in `..` or is a root.
#[verifier::external_body]
fn file_name(path: &str) -> (r: Option<String>)
    ensures
        opt_view(r) == file_name_of(path@),
{
    match std::path::Path::new(path).file_name() {
        Some(name) => Some(name.to_string_lossy().into_owned()),
        None => None,
    }
}

/// Relies on `Path::extension`: what follows the last dot of the file name.
#[verifier::external_body]
fn file_extension(path: &str) -> (r: Option<String>)
    ensures
        opt_view(r) == extension_of(path@),
{
    match std::path::Path::new(path).extension() {
        Some(extension) => Some(extension.to_string_lossy().into_owned()),
        None => None,
    }
}

/// Whether `s` ends with `suffix`, compared character by character.
pub fn ends_with(s: &str, suffix: &str) -> (r: bool)
    ensures
        r == ends_with_spec(s@, suffix@),
{
    let n = s.unicode_len();
    let m = suffix.unicode_len();
    if m > n {
        return false;
    }
    let start = n - m;
    let mut i: usize = 0;
    while i < m
        invariant
            m <= n,
            start == n - m,
            n == s@.len(),
            m == suffix@.len(),
            i <= m,
            forall|j: int| 0 <= j < i ==> s@[start + j] == suffix@[j],
        decreases m - i,
    {
        if s.get_char(start + i) != suffix.get_char(i) {
            proof {
                assert(s@.subrange(start as int, n as int)[i as int] != suffix@[i as int]);
            }
            return false;
        }
        i = i + 1;
    }
    proof {
        assert(s@.subrange(start as int, n as int) =~= suffix@);
    }
    true
}

/// The base path, a dot and the extension.
pub fn join_extension(base: &str, extension: &str) -> (r: String)
    ensures
        r@ == base@ + seq!['.'] + extension@,
{
    let mut path = base.to_owned();
    path.append(".");
    path.append(extension);
    proof {
        reveal_strlit(".");
    }
    path
}

/// The point cloud file formats.
#[derive(Debug, Clone, Copy, PartialEq, Eq, Structural, Hash)]
pub enum PointCloudFormat {
    Epoint,
    EpointTar,
    E57,
    Las,
    Laz,
    Xyz,
    XyzZst,
}

pub const FILE_EXTENSION_EPOINT_FORMAT: &'static str = "epoint";
pub const FILE_EXTENSION_EPOINT_TAR_FORMAT: &'static str = "epoint.tar";
pub const FILE_EXTENSION_E57_FORMAT: &'static str = "e57";
pub const FILE_EXTENSION_LAS_FORMAT: &'static str = "las";
pub const FILE_EXTENSION_LAZ_FORMAT: &'static str = "laz";
pub const FILE_EXTENSION_XYZ_FORMAT: &'static str = "xyz";
pub const FILE_EXTENSION_XYZ_ZST_FORMAT: &'static str = "xyz.zst";

/// The format a lower-case file name ends in; the extensions are tried in
/// the order of the variants.
pub open spec fn format_of_name(name: Seq<char>) -> Option<PointCloudFormat> {
    if ends_with_spec(name, "epoint"@) {
        Some(PointCloudFormat::Epoint)
    } else if ends_with_spec(name, "epoint.tar"@) {
        Some(PointCloudFormat::EpointTar)
    } else if ends_with_spec(name, "e57"@) {
        Some(PointCloudFormat::E57)
    } else if ends_with_spec(name, "las"@) {
        Some(PointCloudFormat::Las)
    } else if ends_with_spec(name, "laz"@) {
        Some(PointCloudFormat::Laz)
    } else if ends_with_spec(name, "xyz"@) {
        Some(PointCloudFormat::Xyz)
    } else if ends_with_spec(name, "xyz.zst"@) {
        Some(PointCloudFormat::XyzZst)
    } else {
        None
    }
}

/// The format of the file a path names, by its lower-cased file name.
pub open spec fn format_of_path(path: Seq<char>) -> Option<PointCloudFormat> {
    match file_name_of(path) {
        Some(name) => format_of_name(lowercase_of(name)),
        None => None,
    }
}

impl PointCloudFormat {
    pub open spec fn spec_extension(self) -> Seq<char> {
        match self {
            PointCloudFormat::Epoint => "epoint"@,
            PointCloudFormat::EpointTar => "epoint.tar"@,
            PointCloudFormat::E57 => "e57"@,
            PointCloudFormat::Las => "las"@,
            PointCloudFormat::Laz => "laz"@,
            PointCloudFormat::Xyz => "xyz"@,
            PointCloudFormat::XyzZst => "xyz.zst"@,
        }
    }

    /// The file extension of the format.
    pub fn extension(&self) -> (r: &'static str)
        ensures
            r@ == self.spec_extension(),
    {
        match self {
            PointCloudFormat::Epoint => FILE_EXTENSION_EPOINT_FORMAT,
            PointCloudFormat::EpointTar => FILE_EXTENSION_EPOINT_TAR_FORMAT,
            PointCloudFormat::E57 => FILE_EXTENSION_E57_FORMAT,
            PointCloudFormat::Las => FILE_EXTENSION_LAS_FORMAT,
            PointCloudFormat::Laz => FILE_EXTENSION_LAZ_FORMAT,
            PointCloudFormat::Xyz => FILE_EXTENSION_XYZ_FORMAT,
            PointCloudFormat::XyzZst => FILE_EXTENSION_XYZ_ZST_FORMAT,
        }
    }

    /// The format a lower-case file name ends in.
    pub fn from_lowercase_file_name(name: &str) -> (r: Option<PointCloudFormat>)
        ensures
            r == format_of_name(name@),
    {
        if ends_with(name, FILE_EXTENSION_EPOINT_FORMAT) {
            Some(PointCloudFormat::Epoint)
        } else if ends_with(name, FILE_EXTENSION_EPOINT_TAR_FORMAT) {
            Some(PointCloudFormat::EpointTar)
        } else if ends_with(name, FILE_EXTENSION_E57_FORMAT) {
            Some(PointCloudFormat::E57)
        } else if ends_with(name, FILE_EXTENSION_LAS_FORMAT) {
            Some(PointCloudFormat::Las)
        } else if ends_with(name, FILE_EXTENSION_LAZ_FORMAT) {
            Some(PointCloudFormat::Laz)
        } else if ends_with(name, FILE_EXTENSION_XYZ_FORMAT) {
            Some(PointCloudFormat::Xyz)
        } else if ends_with(name, FILE_EXTENSION_XYZ_ZST_FORMAT) {
            Some(PointCloudFormat::XyzZst)
        } else {
            None
        }
    }

    /// The format of the file a path names, judged by its file name.
    pub fn from_path(path: &str) -> (r: Option<PointCloudFormat>)
        ensures
            r == format_of_path(path@),
    {
        match file_name(path) {
            Some(name) => {
                let lower = lowercase(name.as_str());
                PointCloudFormat::from_lowercase_file_name(lower.as_str())
            },
            None => None,
        }
    }

    /// Whether the path names an existing file of a supported format;
    /// `is_file` tells whether it names an existing file.
    pub fn is_supported_point_cloud_format(path: &str, is_file: bool) -> (r: bool)
        ensures
            r == (is_file && format_of_path(path@) is Some),
    {
        if !is_file {
            return false;
        }
        PointCloudFormat::from_path(path).is_some()
    }
}

/// The extension reported for a path whose format is unknown.
pub open spec fn reported_extension(path: Seq<char>) -> Seq<char> {
    match extension_of(path) {
        Some(e) => e,
        None => Seq::empty(),
    }
}

fn extension_or_empty(path: &str) -> (r: String)
    ensures
        r@ == reported_extension(path@),
{
    match file_extension(path) {
        Some(e) => e,
        None => String::new(),
    }
}

/// Reads a point cloud file of the format its name gives.
#[derive(Debug, Clone)]
pub struct AutoReader {
    pub path: String,
    pub format: PointCloudFormat,
}

impl AutoReader {
    pub fn from_path(path: &str) -> (r: Result<Self, Error>)
        ensures
            format_of_path(path@) is None <==> r is Err,
            r matches Err(e) ==> e matches Error::InvalidFileExtension(x) && x@
                == reported_extension(path@),
            r matches Ok(a) ==> a.path@ == path@ && Some(a.format) == format_of_path(path@),
    {
        match PointCloudFormat::from_path(path) {
            Some(format) => Ok(AutoReader { path: path.to_owned(), format }),
            None => Err(Error::InvalidFileExtension(extension_or_empty(path))),
        }
    }
}

/// Writes a point cloud file of the format its name gives.
#[derive(Debug, Clone)]
pub struct AutoWriter {
    pub path: String,
    pub format: PointCloudFormat,
}

impl AutoWriter {
    pub fn from_path(path: &str) -> (r: Result<Self, Error>)
        ensures
            format_of_path(path@) is None <==> r is Err,
            r matches Err(e) ==> e matches Error::InvalidFileExtension(x) && x@
                == reported_extension(path@),
            r matches Ok(a) ==> a.path@ == path@ && Some(a.format) == format_of_path(path@),
    {
        match PointCloudFormat::from_path(path) {
            Some(format) => Ok(AutoWriter { path: path.to_owned(), format }),
            None => Err(Error::InvalidFileExtension(extension_or_empty(path))),
        }
    }

    /// A writer to `base_path` with the format's extension appended.
    pub fn from_base_path_with_format(base_path: &str, format: PointCloudFormat) -> (r: Result<
        Self,
        Error,
    >)
        ensures
            r matches Ok(a) && a.path@ == base_path@ + seq!['.'] + format.spec_extension()
                && a.format == format,
    {
        let extension = format.extension();
        Ok(AutoWriter { path: join_extension(base_path, extension), format })
    }
}

/// Separator of the columns of an XYZ file, unless another is chosen.
pub const DEFAULT_XYZ_SEPARATOR: u8 = 59;

/// Reads a point cloud from an XYZ text file.
#[derive(Debug, Clone)]
pub struct XyzReader {
    pub path: String,
    pub separator: u8,
}

impl XyzReader {
    pub fn from_path(path: &str) -> (r: Result<Self, Error>)
        ensures
            r matches Ok(x) && x.path@ == path@ && x.separator == DEFAULT_XYZ_SEPARATOR,
    {
        Ok(XyzReader { path: path.to_owned(), separator: DEFAULT_XYZ_SEPARATOR })
    }

    pub fn with_separator(self, separator: u8) -> (r: Self)
        ensures
            r.path == self.path,
            r.separator == separator,
    {
        XyzReader { separator, ..self }
    }

    /// Checks that the path carries the XYZ extension before the file is read.
    pub fn check_extension(&self) -> (r: Result<(), Error>)
        ensures
            extension_of(self.path@) is None <==> r == Err::<(), Error>(Error::NoFileExtension),
            r is Ok <==> extension_of(self.path@) == Some("xyz"@),
            r matches Err(Error::InvalidFileExtension(x)) ==> extension_of(self.path@) == Some(x@),
            r matches Err(e) ==> e is NoFileExtension || e is InvalidFileExtension,
    {
        match file_extension(self.path.as_str()) {
            None => Err(Error::NoFileExtension),
            Some(e) => {
                let expected = FILE_EXTENSION_XYZ_FORMAT.to_owned();
                if e == expected {
                    Ok(())
                } else {
                    Err(Error::InvalidFileExtension(e))
                }
            },
        }
    }
}

/// Imports a point cloud from a representation of another tool.
#[derive(Debug, Clone)]
pub struct EpointImporter {
    pub path: String,
}

impl EpointImporter {
    pub fn new(path: &str) -> (r: Self)
        ensures
            r.path@ == path@,
    {
        EpointImporter { path: path.to_owned() }
    }
}

/// Versions of the LAS format.
#[derive(Debug, Clone, Copy, PartialEq, Eq, Structural, PartialOrd, Ord, Hash)]
pub enum LasVersion {
    /// LAS 1.0, released 2003 by ASPRS.
    V1_0,
    /// LAS 1.1, released 2005 by ASPRS.
    V1_1,
    /// LAS 1.2, released 2008 by ASPRS.
    V1_2,
    /// LAS 1.3, released 2010 by ASPRS.
    V1_3,
    /// LAS 1.4, released 2013 by ASPRS.
    V1_4,
}

impl LasVersion {
    /// The version with the given major and minor number.
    pub fn from(major: u8, minor: u8) -> (r: Result<Self, Error>)
        ensures
            (major == 1 && minor <= 4) <==> r is Ok,
            r matches Ok(v) ==> v == (if minor == 0 {
                LasVersion::V1_0
            } else if minor == 1 {
                LasVersion::V1_1
            } else if minor == 2 {
                LasVersion::V1_2
            } else if minor == 3 {
                LasVersion::V1_3
            } else {
                LasVersion::V1_4
            }),
            r matches Err(e) ==> e == (Error::InvalidVersion { major, minor }),
    {
        match (major, minor) {
            (1, 0) => Ok(LasVersion::V1_0),
            (1, 1) => Ok(LasVersion::V1_1),
            (1, 2) => Ok(LasVersion::V1_2),
            (1, 3) => Ok(LasVersion::V1_3),
            (1, 4) => Ok(LasVersion::V1_4),
            _ => Err(Error::InvalidVersion { major, minor }),
        }
    }
}

/// What reading a LAS file reports besides the points.
#[derive(Debug, Clone, PartialEq, Eq, Structural)]
pub struct LasReadInfo {
    pub version: LasVersion,
}

/// Bits per color channel in an XYZ file.
#[derive(Debug, Clone, Copy, PartialEq, Eq, Structural, Hash)]
pub enum ColorDepth {
    EightBit,
    SixteenBit,
}

impl Default for ColorDepth {
    fn default() -> (r: Self)
        ensures
            r == ColorDepth::EightBit,
    {
        ColorDepth::EightBit
    }
}

/// The cloud-wide metadata as stored in an epoint file.
#[derive(Debug, Clone)]
pub struct EpointInfoDocument {
    pub frame_id: Option<String>,
}

impl EpointInfoDocument {
    pub fn new() -> (r: Self)
        ensures
            r.frame_id is None,
    {
        EpointInfoDocument { frame_id: None }
    }

    pub fn with_frame_id(self, frame_id: Option<String>) -> (r: Self)
        ensures
            r.frame_id == frame_id,
    {
        EpointInfoDocument { frame_id }
    }

    /// The cloud-wide metadata the document describes.
    pub fn to_point_cloud_info(&self) -> (r: PointCloudInfo)
        ensures
            r.frame_id == self.frame_id,
    {
        PointCloudInfo {
            frame_id: match &self.frame_id {
                Some(f) => Some(f.clone()),
                None => None,
            },
        }
    }
}

} // verus!
