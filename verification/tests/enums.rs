use sciimg::binfilereader::Endian;
use sciimg::binfilereader::EndianError;
use sciimg::camera::Mode;
use sciimg::camera::ModelType;
use sciimg::camera::PupilType;
use sciimg::color::ColorSpaceType;
use sciimg::color::Rgb2sRgbConverter;
use sciimg::color::Xyz2xyYConverter;
use sciimg::enums::Axis;
use sciimg::enums::CalFileType;
use sciimg::enums::ImageMode;

#[test]
fn test_endian_from_i32() {
    assert_eq!(Endian::from_i32(1).unwrap(), Endian::BigEndian);
    assert_eq!(Endian::from_i32(0).unwrap(), Endian::LittleEndian);
    assert_eq!(Endian::from_i32(100).unwrap(), Endian::NativeEndian);
    assert_eq!(Endian::from_i32(2), Err(EndianError::InvalidEnumValue));
    assert_eq!(Endian::from_i32(-1), Err(EndianError::InvalidEnumValue));
}

#[test]
fn test_camera_enums() {
    assert_eq!(Mode::default(), Mode::Cahv);
    assert_ne!(ModelType::CAHV, ModelType::CAHVORE);
    assert_ne!(PupilType::Perspective, PupilType::General);
}

#[test]
fn test_shared_enums() {
    assert_ne!(CalFileType::FlatField, CalFileType::Mask);
    assert_ne!(ImageMode::U8BIT, ImageMode::U16BIT);
    assert_ne!(Axis::XAxis, Axis::ZAxis);
    assert_ne!(ColorSpaceType::RGB, ColorSpaceType::sRGB);
}

#[test]
fn test_converter_construction() {
    let a = Xyz2xyYConverter::new();
    assert_eq!(a, Xyz2xyYConverter::default());
    let b = Rgb2sRgbConverter::new();
    assert_eq!(b, Rgb2sRgbConverter::default());
}
