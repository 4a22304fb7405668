use quizforge::assemble::{decompose_variants, parse_tolerance};
use quizforge::images::{image_data_url, mime_for_extension};
use quizforge::types::{CreateNumericData, CreateOrderItem, CreateQuestionBlank, CreateQuestionOption};

#[test]
fn tolerance_plain_decimals() {
    assert_eq!(parse_tolerance("0.2"), 200_000);
    assert_eq!(parse_tolerance("3"), 3_000_000);
    assert_eq!(parse_tolerance(".5"), 500_000);
    assert_eq!(parse_tolerance("2."), 2_000_000);
    assert_eq!(parse_tolerance("0.000001"), 1);
    assert_eq!(parse_tolerance("12.75"), 12_750_000);
}

#[test]
fn tolerance_signs() {
    assert_eq!(parse_tolerance("-1.25"), -1_250_000);
    assert_eq!(parse_tolerance("+0.1"), 100_000);
}

#[test]
fn tolerance_truncates_past_millionths() {
    assert_eq!(parse_tolerance("1.2345678"), 1_234_567);
    assert_eq!(parse_tolerance("0.00000099"), 0);
}

#[test]
fn tolerance_malformed_defaults() {
    assert_eq!(parse_tolerance(""), 100_000);
    assert_eq!(parse_tolerance("roughly"), 100_000);
    assert_eq!(parse_tolerance("."), 100_000);
    assert_eq!(parse_tolerance("1.2.3"), 100_000);
    assert_eq!(parse_tolerance("1e-1"), 100_000);
    assert_eq!(parse_tolerance("0.2 "), 100_000);
    // a whole part too long to store exactly also degrades to the default
    assert_eq!(parse_tolerance("10000000000000"), 100_000);
}

#[test]
fn decompose_appends_synthetic_blank_last() {
    let rows = decompose_variants(
        vec![CreateQuestionOption {
            option_text: "a".to_string(),
            option_image_path: None,
            is_correct: true,
            display_order: 0,
        }],
        vec![CreateQuestionBlank {
            blank_index: 1,
            correct_answer: "x".to_string(),
            acceptable_answers: None,
            is_numeric: false,
            numeric_tolerance: None,
            unit: None,
            input_type: "INPUT".to_string(),
            dropdown_options: None,
        }],
        Some(CreateNumericData {
            correct_answer: "42".to_string(),
            tolerance: "0.5".to_string(),
            unit: None,
        }),
        Some(vec![CreateOrderItem { text: "t".to_string(), correct_position: 0 }]),
        None,
    );
    assert_eq!(rows.options.len(), 1);
    assert_eq!(rows.order_items.len(), 1);
    assert_eq!(rows.match_pairs.len(), 0);
    assert_eq!(rows.blanks.len(), 2);
    assert_eq!(rows.blanks[0].blank_index, 1);
    let synth = &rows.blanks[1];
    assert_eq!(synth.blank_index, 0);
    assert!(synth.is_numeric);
    assert_eq!(synth.correct_answer, "42");
    assert_eq!(synth.numeric_tolerance, Some(500_000));
    assert_eq!(synth.input_type, "INPUT");
}

#[test]
fn decompose_without_numeric_keeps_blanks() {
    let rows = decompose_variants(Vec::new(), Vec::new(), None, None, None);
    assert_eq!(rows.options.len(), 0);
    assert_eq!(rows.blanks.len(), 0);
    assert_eq!(rows.order_items.len(), 0);
    assert_eq!(rows.match_pairs.len(), 0);
}

#[test]
fn mime_types_by_extension() {
    assert_eq!(mime_for_extension("jpg"), "image/jpeg");
    assert_eq!(mime_for_extension("jpeg"), "image/jpeg");
    assert_eq!(mime_for_extension("png"), "image/png");
    assert_eq!(mime_for_extension("gif"), "image/gif");
    assert_eq!(mime_for_extension("webp"), "image/webp");
    assert_eq!(mime_for_extension("svg"), "image/svg+xml");
    assert_eq!(mime_for_extension("bmp"), "image/png");
}

#[test]
fn data_url_encodes_bytes() {
    let bytes: Vec<u8> = b"hi".to_vec();
    assert_eq!(image_data_url(&bytes, "png"), "data:image/png;base64,aGk=");
    let empty: Vec<u8> = Vec::new();
    assert_eq!(image_data_url(&empty, "svg"), "data:image/svg+xml;base64,");
}
