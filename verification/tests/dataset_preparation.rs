use signai::csv_layout::{csv_header, csv_record, pixel_field, PIXEL_FIELDS};
use signai::dataset::{
    generate_dataset, generate_dataset_test, generate_dataset_train, is_dataset_image_extension,
    is_folder_image_extension, LabelScheme,
};
use signai::decimal::decimal_string;
use signai::imaging::count_bright_pixels;
use signai::labels::{label_for_char, label_for_dir_name, CLASS_COUNT};

#[test]
fn decimal_strings_match_to_string() {
    for n in [0usize, 7, 10, 35, 99, 100, 12287, 4096, usize::MAX] {
        assert_eq!(decimal_string(n), n.to_string());
    }
}

#[test]
fn letters_and_digits_name_classes() {
    assert_eq!(label_for_char('A'), Some(0));
    assert_eq!(label_for_char('B'), Some(1));
    assert_eq!(label_for_char('Z'), Some(25));
    assert_eq!(label_for_char('0'), Some(26));
    assert_eq!(label_for_char('9'), Some(35));
    assert_eq!(label_for_char('a'), None);
    assert_eq!(label_for_char('_'), None);
    assert_eq!(label_for_char('É'), None);
}

#[test]
fn every_class_is_named_once() {
    let mut seen = vec![false; CLASS_COUNT];
    for c in ('A'..='Z').chain('0'..='9') {
        let l = label_for_char(c).unwrap();
        assert!(l < CLASS_COUNT);
        assert!(!seen[l]);
        seen[l] = true;
    }
    assert!(seen.iter().all(|&s| s));
}

#[test]
fn folder_names_read_their_first_character() {
    assert_eq!(label_for_dir_name("A"), Some(0));
    assert_eq!(label_for_dir_name("C_signs"), Some(2));
    assert_eq!(label_for_dir_name("7"), Some(33));
    assert_eq!(label_for_dir_name(""), None);
    assert_eq!(label_for_dir_name("letters"), None);
}

#[test]
fn pixel_fields_match_five_decimal_formatting() {
    for v in 0..=255u8 {
        assert_eq!(pixel_field(v), format!("{:.5}", v as f64 / 255.0));
    }
    assert_eq!(pixel_field(0), "0.00000");
    assert_eq!(pixel_field(1), "0.00392");
    assert_eq!(pixel_field(128), "0.50196");
    assert_eq!(pixel_field(255), "1.00000");
}

#[test]
fn header_names_every_pixel_then_the_label() {
    let header = csv_header();
    let expected: Vec<String> = (0..(64 * 64 * 3))
        .map(|i| format!("p{}", i))
        .chain(std::iter::once("label".into()))
        .collect();
    assert_eq!(header.len(), PIXEL_FIELDS + 1);
    assert_eq!(header, expected);
}

#[test]
fn record_lists_pixels_then_label() {
    let record = csv_record(&[0, 255, 51], "12".to_string());
    assert_eq!(record, vec!["0.00000", "1.00000", "0.20000", "12"]);
    let empty = csv_record(&[], "A".to_string());
    assert_eq!(empty, vec!["A"]);
}

#[test]
fn dataset_jobs_name_their_folders_and_files() {
    let train = generate_dataset_train();
    assert_eq!(train.source_dir, "dataset/train");
    assert_eq!(train.output_csv, "dataset_train.csv");
    assert_eq!(train.labels, LabelScheme::ClassIndex);
    let test = generate_dataset_test();
    assert_eq!(test.source_dir, "dataset/test");
    assert_eq!(test.output_csv, "dataset_test.csv");
    assert_eq!(test.labels, LabelScheme::ClassIndex);
    let rgb = generate_dataset();
    assert_eq!(rgb.source_dir, "dataset");
    assert_eq!(rgb.output_csv, "dataset_rgb.csv");
    assert_eq!(rgb.labels, LabelScheme::FolderName);
}

#[test]
fn dataset_extensions_ignore_case() {
    for ext in ["png", "jpg", "jpeg", "bmp", "PNG", "JpEg", "BMP"] {
        assert!(is_dataset_image_extension(ext), "{}", ext);
    }
    for ext in ["", "gif", "pngx", "jp", "tiff", "txt"] {
        assert!(!is_dataset_image_extension(ext), "{}", ext);
    }
}

#[test]
fn folder_extensions_are_exact() {
    for ext in ["png", "jpg", "jpeg"] {
        assert!(is_folder_image_extension(ext));
    }
    for ext in ["PNG", "bmp", "Jpg", ""] {
        assert!(!is_folder_image_extension(ext));
    }
}

#[test]
fn entries_get_labels_only_when_written() {
    let train = generate_dataset_train();
    assert_eq!(train.entry_label(true, Some("png"), Some("B")), Some("1".to_string()));
    assert_eq!(train.entry_label(true, Some("JPG"), Some("9")), Some("35".to_string()));
    assert_eq!(train.entry_label(false, Some("png"), Some("B")), None);
    assert_eq!(train.entry_label(true, Some("gif"), Some("B")), None);
    assert_eq!(train.entry_label(true, None, Some("B")), None);
    assert_eq!(train.entry_label(true, Some("png"), None), None);
    assert_eq!(train.entry_label(true, Some("png"), Some("misc")), None);
    let rgb = generate_dataset();
    assert_eq!(rgb.entry_label(true, Some("bmp"), Some("misc")), Some("misc".to_string()));
    assert_eq!(rgb.entry_label(true, Some("txt"), Some("misc")), None);
}

#[test]
fn image_records_are_resized_to_the_header_width() {
    let train = generate_dataset_train();
    let (w, h) = (3u32, 2u32);
    let rgb: Vec<u8> = (0..(w * h * 3)).map(|i| (i * 13 % 256) as u8).collect();
    let record = train.image_record(w, h, rgb.clone(), "4".to_string());
    assert_eq!(record.len(), csv_header().len());
    assert_eq!(record.last().unwrap(), "4");

    let img = image::RgbImage::from_raw(w, h, rgb).unwrap();
    let resized = image::imageops::resize(&img, 64, 64, image::imageops::FilterType::Nearest);
    let expected: Vec<String> = resized
        .pixels()
        .flat_map(|p| p.0.iter().map(|v| format!("{:.5}", *v as f64 / 255.0)))
        .collect();
    assert_eq!(&record[..PIXEL_FIELDS], &expected[..]);
}

#[test]
fn bright_pixels_have_mean_above_200() {
    let rgb = [255, 255, 255, 200, 200, 200, 201, 201, 202, 0, 0, 0, 255, 255, 100];
    assert_eq!(count_bright_pixels(&rgb), (3, 5));
    assert_eq!(count_bright_pixels(&[200, 200, 202]), (0, 1));
    assert_eq!(count_bright_pixels(&[]), (0, 0));
}

#[test]
fn header_columns_are_distinct() {
    let header = csv_header();
    let distinct: std::collections::HashSet<&String> = header.iter().collect();
    assert_eq!(distinct.len(), header.len());
}

#[test]
fn class_label_fields_are_distinct() {
    let fields: Vec<String> = (0..CLASS_COUNT).map(decimal_string).collect();
    let distinct: std::collections::HashSet<&String> = fields.iter().collect();
    assert_eq!(distinct.len(), CLASS_COUNT);
}
