use epoint::cli;
use epoint::formats::{AutoReader, AutoWriter, ColorDepth, EpointImporter, EpointInfoDocument, LasVersion, PointCloudFormat, XyzReader};
use epoint::Error;

#[test]
fn format_from_path_uses_lowercase_file_name() {
    assert_eq!(PointCloudFormat::from_path("/data/SCAN.LAS"), Some(PointCloudFormat::Las));
    assert_eq!(PointCloudFormat::from_path("dir.las/cloud.xyz.zst"), Some(PointCloudFormat::XyzZst));
    assert_eq!(PointCloudFormat::from_path("a/b.epoint.tar"), Some(PointCloudFormat::EpointTar));
    assert_eq!(PointCloudFormat::from_path("notes.txt"), None);
    assert_eq!(PointCloudFormat::from_path("/"), None);
}

#[test]
fn supported_format_needs_a_file() {
    assert!(PointCloudFormat::is_supported_point_cloud_format("x.e57", true));
    assert!(!PointCloudFormat::is_supported_point_cloud_format("x.e57", false));
    assert!(!PointCloudFormat::is_supported_point_cloud_format("x.png", true));
}

#[test]
fn extensions_of_formats() {
    assert_eq!(PointCloudFormat::Laz.extension(), "laz");
    assert_eq!(PointCloudFormat::XyzZst.extension(), "xyz.zst");
    assert_eq!(cli::PointCloudFormat::Epoint.to_epoint_format(), PointCloudFormat::Epoint);
}

#[test]
fn auto_reader_and_writer_detect_format() {
    let r = AutoReader::from_path("a/b.xyz").unwrap();
    assert_eq!(r.format, PointCloudFormat::Xyz);
    assert_eq!(
        AutoWriter::from_path("a/b.txt").err(),
        Some(Error::InvalidFileExtension("txt".to_string()))
    );
    let w = AutoWriter::from_base_path_with_format("out/cloud", PointCloudFormat::Laz).unwrap();
    assert_eq!(w.path, "out/cloud.laz");
    assert_eq!(w.format, PointCloudFormat::Laz);
}

#[test]
fn xyz_reader_settings_and_extension_check() {
    let r = XyzReader::from_path("p.xyz").unwrap().with_separator(b' ');
    assert_eq!(r.separator, b' ');
    assert_eq!(r.check_extension(), Ok(()));
    assert_eq!(XyzReader::from_path("p").unwrap().check_extension(), Err(Error::NoFileExtension));
    assert_eq!(
        XyzReader::from_path("p.csv").unwrap().check_extension(),
        Err(Error::InvalidFileExtension("csv".to_string()))
    );
}

#[test]
fn las_versions() {
    assert_eq!(LasVersion::from(1, 3), Ok(LasVersion::V1_3));
    assert_eq!(LasVersion::from(2, 0), Err(Error::InvalidVersion { major: 2, minor: 0 }));
}

#[test]
fn documents_and_defaults() {
    let doc = EpointInfoDocument::new().with_frame_id(Some("map".to_string()));
    assert_eq!(doc.to_point_cloud_info().frame_id, Some("map".to_string()));
    assert_eq!(ColorDepth::default(), ColorDepth::EightBit);
    assert_eq!(EpointImporter::new("in.xyz").path, "in.xyz");
}

#[test]
fn join_extension_adds_dot_and_extension() {
    assert_eq!(epoint::formats::join_extension("a/b", "xyz.zst"), "a/b.xyz.zst");
    assert_eq!(epoint::formats::join_extension("", "las"), ".las");
}
