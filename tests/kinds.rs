use media_data_extractor::extensions::{
    all_image_extensions, can_extract_media_data_for_image, filtered_image_extensions, ImageExtension,
};
use media_data_extractor::kind::ObjectKind;

#[test]
fn from_i32_maps_each_code() {
    assert_eq!(ObjectKind::from_i32(0), ObjectKind::Unknown);
    assert_eq!(ObjectKind::from_i32(5), ObjectKind::Image);
    assert_eq!(ObjectKind::from_i32(14), ObjectKind::WebPageArchive);
    assert_eq!(ObjectKind::from_i32(26), ObjectKind::Label);
}

#[test]
fn from_i32_out_of_range_is_unknown() {
    assert_eq!(ObjectKind::from_i32(27), ObjectKind::Unknown);
    assert_eq!(ObjectKind::from_i32(-1), ObjectKind::Unknown);
    assert_eq!(ObjectKind::from_i32(i32::MAX), ObjectKind::Unknown);
}

#[test]
fn kind_code_round_trip() {
    for v in 0..=26 {
        assert_eq!(ObjectKind::from_i32(v).to_i32(), v);
    }
    assert_eq!(ObjectKind::Screenshot.to_i32(), 25);
}

#[test]
fn extractable_image_extensions() {
    assert!(can_extract_media_data_for_image(&ImageExtension::Jpeg));
    assert!(can_extract_media_data_for_image(&ImageExtension::Dng));
    assert!(can_extract_media_data_for_image(&ImageExtension::Webp));
    assert!(!can_extract_media_data_for_image(&ImageExtension::Gif));
    assert!(!can_extract_media_data_for_image(&ImageExtension::Svg));
}

#[test]
fn filtered_table_keeps_order() {
    assert_eq!(all_image_extensions().len(), 20);
    assert_eq!(
        filtered_image_extensions(),
        vec![
            ImageExtension::Jpg,
            ImageExtension::Jpeg,
            ImageExtension::Png,
            ImageExtension::Tiff,
            ImageExtension::Webp,
            ImageExtension::Heic,
            ImageExtension::Heif,
            ImageExtension::Heifs,
            ImageExtension::Hif,
            ImageExtension::Avif,
            ImageExtension::Avci,
            ImageExtension::Avcs,
            ImageExtension::Dng,
        ]
    );
}
