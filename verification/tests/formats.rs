use simp::exif_date::{exif_date, exif_date_time, latest_exif_date};
use simp::extensions::{
    is_heif, is_jxl, is_photoshop, is_qoi, is_raster, is_raw, is_supported,
    is_undetectable_raster, is_vector,
};
use simp::labels::{color_type_to_str, filter_name, ColorSpace, Filter};
use simp::load_image::{keep_known, load_from_bytes, loader_order, LoadError, Loader};
use simp::preferences::{clamp_jpeg_quality, SortDirection, SortOrder};
use simp::save_image::{export_turns, save_format, webp_is_animated, SaveFormat};

#[test]
fn extension_families() {
    assert!(is_jxl("jxl"));
    assert!(!is_jxl("png"));
    assert!(is_heif("heic") && is_heif("heif"));
    assert!(is_qoi("qoi"));
    assert!(is_raster("png") && is_raster("jpeg") && is_raster("hdr") && is_raster("qoi"));
    assert!(!is_raster("svg"));
    assert!(is_undetectable_raster("tga"));
    assert!(!is_undetectable_raster("png"));
    assert!(is_vector("svg"));
    assert!(is_raw("cr2") && is_raw("nef") && is_raw("3fr"));
    assert!(!is_raw("png"));
    assert!(is_photoshop("psd"));
}

#[test]
fn supported_extensions_are_lower_case_and_known() {
    assert!(is_supported("png"));
    assert!(is_supported("svg"));
    assert!(is_supported("psd"));
    assert!(is_supported("dng"));
    assert!(!is_supported("PNG"));
    assert!(!is_supported("txt"));
    assert!(!is_supported(""));
    // HEIF and JPEG XL are decoded when named, but not listed from a directory
    assert!(!is_supported("heic"));
    assert!(!is_supported("jxl"));
}

const DEFAULT: [Loader; 8] = [
    Loader::Raw,
    Loader::Svg,
    Loader::Psd,
    Loader::Raster,
    Loader::UndetectableRaster,
    Loader::Jxl,
    Loader::Heif,
    Loader::Qoi,
];

#[test]
fn unknown_extension_keeps_the_default_order() {
    assert_eq!(loader_order(""), DEFAULT.to_vec());
    assert_eq!(loader_order("txt"), DEFAULT.to_vec());
}

#[test]
fn named_decoder_goes_first() {
    assert_eq!(loader_order("png")[0], Loader::Raster);
    assert_eq!(loader_order("svg")[0], Loader::Svg);
    assert_eq!(loader_order("psd")[0], Loader::Psd);
    assert_eq!(loader_order("heic")[0], Loader::Heif);
    assert_eq!(loader_order("jxl")[0], Loader::Jxl);
    assert_eq!(
        loader_order("svg"),
        vec![
            Loader::Svg,
            Loader::Raw,
            Loader::Psd,
            Loader::Raster,
            Loader::UndetectableRaster,
            Loader::Jxl,
            Loader::Heif,
            Loader::Qoi,
        ]
    );
}

#[test]
fn qoi_is_swapped_in_and_then_raster_goes_first() {
    // qoi is both its own format and a raster format of the image decoder
    assert_eq!(
        loader_order("qoi"),
        vec![
            Loader::Raster,
            Loader::Svg,
            Loader::Psd,
            Loader::Qoi,
            Loader::UndetectableRaster,
            Loader::Jxl,
            Loader::Heif,
            Loader::Raw,
        ]
    );
    // tga is a raster format the image decoder knows, so it goes first as raster
    assert_eq!(loader_order("tga")[0], Loader::Raster);
}

#[test]
fn every_decoder_is_tried_once() {
    for ext in ["", "png", "qoi", "tga", "svg", "psd", "heif", "jxl", "cr2", "zzz"] {
        let order = loader_order(ext);
        assert_eq!(order.len(), 8);
        for l in DEFAULT.iter() {
            assert_eq!(order.iter().filter(|x| *x == l).count(), 1);
        }
    }
}

#[test]
fn io_errors_convert() {
    let e: LoadError = std::io::Error::new(std::io::ErrorKind::NotFound, "gone").into();
    assert!(matches!(e, LoadError::Io(_)));
    let d = LoadError::Decoding("a.png".to_string());
    assert!(matches!(d, LoadError::Decoding(s) if s == "a.png"));
}

#[test]
fn save_formats_by_extension() {
    assert_eq!(save_format("png"), SaveFormat::Png);
    assert_eq!(save_format("jpg"), SaveFormat::Jpeg);
    assert_eq!(save_format("jfif"), SaveFormat::Jpeg);
    assert_eq!(save_format("ico"), SaveFormat::Ico);
    assert_eq!(save_format("tga"), SaveFormat::Tga);
    assert_eq!(save_format("farbfeld"), SaveFormat::Farbfeld);
    assert_eq!(save_format("tif"), SaveFormat::Tiff);
    assert_eq!(save_format("gif"), SaveFormat::Gif);
    assert_eq!(save_format("webp"), SaveFormat::WebP);
    assert_eq!(save_format("exr"), SaveFormat::Exr);
    assert_eq!(save_format("bmp"), SaveFormat::PngRenamed);
    assert_eq!(save_format(""), SaveFormat::PngRenamed);
}

#[test]
fn webp_animation_and_export_turns() {
    assert!(!webp_is_animated(0));
    assert!(!webp_is_animated(1));
    assert!(webp_is_animated(2));
    assert_eq!(export_turns(0), Some(0));
    assert_eq!(export_turns(1), Some(3));
    assert_eq!(export_turns(2), Some(2));
    assert_eq!(export_turns(3), Some(1));
    assert_eq!(export_turns(4), None);
    assert_eq!(export_turns(-1), None);
}

#[test]
fn sort_labels() {
    assert_eq!(SortOrder::AccessTime.as_ref(), "Accessed");
    assert_eq!(SortOrder::CreatedTime.as_ref(), "Created");
    assert_eq!(SortOrder::MetadataTime.as_ref(), "Date (from exif)");
    assert_eq!(SortOrder::ModifiedTime.as_ref(), "Modified");
    assert_eq!(SortOrder::Name.as_ref(), "Name");
    assert_eq!(SortOrder::Size.as_ref(), "Size");
    assert_eq!(SortDirection::Forward.as_str_from_order(SortOrder::Name), "A-Z");
    assert_eq!(SortDirection::Backward.as_str_from_order(SortOrder::Name), "Z-A");
    assert_eq!(SortDirection::Forward.as_str_from_order(SortOrder::Size), "Smallest first");
    assert_eq!(SortDirection::Backward.as_str_from_order(SortOrder::Size), "Largest first");
    assert_eq!(SortDirection::Forward.as_str_from_order(SortOrder::ModifiedTime), "Newest first");
    assert_eq!(SortDirection::Backward.as_str_from_order(SortOrder::AccessTime), "Oldest first");
    assert_eq!(SortOrder::default(), SortOrder::MetadataTime);
    assert_eq!(SortDirection::default(), SortDirection::Forward);
}

#[test]
fn exif_dates_are_read_in_utc() {
    let values = vec!["2021:03:04 05:06:07".to_string()];
    assert_eq!(exif_date_time(&values), Some(1_614_834_367_000_000_000));
    let epoch = vec!["1970:01:01 00:00:00".to_string()];
    assert_eq!(exif_date_time(&epoch), Some(0));
}

#[test]
fn exif_dates_before_the_epoch_or_malformed_are_skipped() {
    let values = vec![
        "2000:01:01 00:00:00".to_string(),
        "1969:12:31 23:59:59".to_string(),
        "not a date".to_string(),
        "2021:02:30 00:00:00".to_string(),
    ];
    assert_eq!(exif_date_time(&values), Some(946_684_800_000_000_000));
    assert_eq!(exif_date_time(&Vec::new()), None);
    assert_eq!(exif_date_time(&vec!["2021-03-04 05:06:07".to_string()]), None);
}

#[test]
fn last_usable_date_wins() {
    assert_eq!(latest_exif_date(&vec![Some(1), Some(2)]), Some(2_000_000_000));
    assert_eq!(latest_exif_date(&vec![Some(5), None, Some(-3)]), Some(5_000_000_000));
    assert_eq!(latest_exif_date(&vec![None, Some(-1)]), None);
    assert_eq!(latest_exif_date(&vec![]), None);
    assert_eq!(latest_exif_date(&vec![Some(0)]), Some(0));
}

#[test]
fn color_space_and_filter_names() {
    assert_eq!(color_type_to_str(ColorSpace::L8), "Luma8");
    assert_eq!(color_type_to_str(ColorSpace::La16), "LumaA16");
    assert_eq!(color_type_to_str(ColorSpace::Rgba32F), "Rgba32F");
    assert_eq!(filter_name(&Filter::Nearest), "Nearest Neighbor");
    assert_eq!(filter_name(&Filter::Triangle), "Linear Filter");
    assert_eq!(filter_name(&Filter::CatmullRom), "Cubic Filter");
    assert_eq!(filter_name(&Filter::Gaussian), "Gaussian Filter");
    assert_eq!(filter_name(&Filter::Lanczos3), "Lanczos");
}

fn rank(loader: Loader) -> u8 {
    match loader {
        Loader::Raw => 0,
        Loader::Svg => 1,
        Loader::Psd => 2,
        Loader::Raster => 3,
        Loader::UndetectableRaster => 4,
        Loader::Jxl => 5,
        Loader::Heif => 6,
        Loader::Qoi => 7,
    }
}

#[test]
fn the_first_decoder_in_order_that_succeeds_wins() {
    // for png the image decoder goes first
    let r = load_from_bytes(b"bytes", Some("a.png"), "png", |l: Loader, _b: &[u8]| {
        if l == Loader::Raster || l == Loader::Svg { Some(rank(l)) } else { None }
    });
    match r {
        Ok((frames, metadata)) => {
            assert_eq!(frames, 3);
            assert!(metadata.is_empty());
        }
        Err(_) => panic!("a decoder succeeded"),
    }
    // with no extension the default order puts the vector decoder first
    let r = load_from_bytes(b"bytes", None, "", |l: Loader, _b: &[u8]| {
        if l == Loader::Raster || l == Loader::Svg { Some(rank(l)) } else { None }
    });
    assert!(matches!(r, Ok((1, _))));
}

#[test]
fn no_decoder_names_the_source() {
    let r = load_from_bytes(b"x", Some("/tmp/a.zzz"), "zzz", |_l: Loader, _b: &[u8]| None::<u8>);
    assert!(matches!(r, Err(LoadError::Decoding(ref s)) if s == "/tmp/a.zzz"));
    let r = load_from_bytes(b"x", None, "", |_l: Loader, _b: &[u8]| None::<u8>);
    assert!(matches!(r, Err(LoadError::Decoding(ref s)) if s == "from stdin"));
}

#[test]
fn unknown_exif_tags_are_dropped() {
    let entries = vec![
        ("Image date".to_string(), "2021:03:04 05:06:07".to_string(), false, true),
        ("Unknown".to_string(), "x".to_string(), true, false),
        ("Camera make".to_string(), "Acme".to_string(), false, false),
    ];
    assert_eq!(
        keep_known(entries),
        vec![
            ("Image date".to_string(), "2021:03:04 05:06:07".to_string()),
            ("Camera make".to_string(), "Acme".to_string()),
        ]
    );
}

/// A little-endian TIFF header with one IFD entry: `DateTime` = `date`.
fn tiff_with_date(date: &str) -> Vec<u8> {
    let mut bytes = vec![0x49, 0x49, 0x2a, 0x00, 0x08, 0x00, 0x00, 0x00];
    bytes.extend_from_slice(&[0x01, 0x00]);
    let count = (date.len() + 1) as u32;
    bytes.extend_from_slice(&[0x32, 0x01, 0x02, 0x00]);
    bytes.extend_from_slice(&count.to_le_bytes());
    bytes.extend_from_slice(&26u32.to_le_bytes());
    bytes.extend_from_slice(&[0x00, 0x00, 0x00, 0x00]);
    bytes.extend_from_slice(date.as_bytes());
    bytes.push(0);
    bytes
}

#[test]
fn the_exif_date_is_read_from_the_bytes() {
    assert_eq!(exif_date(&tiff_with_date("2021:03:04 05:06:07")), Some(1614834367000000000));
}

#[test]
fn bytes_without_a_readable_date_have_none() {
    assert_eq!(exif_date(b"not an image"), None);
    assert_eq!(exif_date(&tiff_with_date("yesterday morning")), None);
    assert_eq!(exif_date(&tiff_with_date("1969:12:31 23:59:59")), None);
}

#[test]
fn jpeg_quality_stays_between_one_and_a_hundred() {
    assert_eq!(clamp_jpeg_quality(0), 1);
    assert_eq!(clamp_jpeg_quality(1), 1);
    assert_eq!(clamp_jpeg_quality(80), 80);
    assert_eq!(clamp_jpeg_quality(100), 100);
    assert_eq!(clamp_jpeg_quality(255), 100);
}
