//! Unit tests of the engine's parts: splitting, wrapping, pagination,
//! scaling, styles, geometry, media recognition, and configuration.

use pageflow::engine::{image_scale_ppm, scaled_height_um};
use pageflow::geometry::{ensure_room, Cursor, PageGeometry};
use pageflow::media::{has_container_extension, is_media_entry};
use pageflow::model::{Config, ConversionError, ImageAsset};
use pageflow::style::{font_of, FontVariant, RunStyle};
use pageflow::text::split_words;
use pageflow::wrap::wrap_words;

fn a4() -> PageGeometry {
    PageGeometry { width_um: 210_000, height_um: 297_000, margin_um: 20_000 }
}

fn words(items: &[&str]) -> Vec<Vec<u8>> {
    items.iter().map(|w| w.as_bytes().to_vec()).collect()
}

#[test]
fn split_words_on_whitespace() {
    let ws = split_words(&b"  foo \t bar\nbaz ".to_vec());
    assert_eq!(ws, words(&["foo", "bar", "baz"]));
}

#[test]
fn split_words_empty_and_blank() {
    assert!(split_words(&Vec::new()).is_empty());
    assert!(split_words(&b"   \t\r\n ".to_vec()).is_empty());
}

#[test]
fn wrap_short_text_single_line() {
    let lines = wrap_words(&words(&["Hello", "world"]), 80);
    assert_eq!(lines, words(&["Hello world "]));
}

#[test]
fn wrap_flushes_when_budget_reached() {
    // Three words of 39 characters: the first two fill one line of exactly
    // 80 bytes (39 + space + 39 + space); appending the third would reach
    // the budget, so it starts the second line.
    let w = "c".repeat(39);
    let lines = wrap_words(&words(&[&w, &w, &w]), 80);
    assert_eq!(lines.len(), 2);
    assert_eq!(lines[0], format!("{} {} ", w, w).into_bytes());
    assert_eq!(lines[1], format!("{} ", w).into_bytes());
}

#[test]
fn wrap_overlong_word_keeps_own_line() {
    let long = "d".repeat(100);
    let lines = wrap_words(&words(&["hi", &long, "yo"]), 80);
    assert_eq!(lines.len(), 3);
    assert_eq!(lines[0], b"hi ".to_vec());
    assert_eq!(lines[1], format!("{} ", long).into_bytes());
    assert_eq!(lines[2], b"yo ".to_vec());
}

#[test]
fn wrap_no_words_no_lines() {
    let lines = wrap_words(&Vec::new(), 80);
    assert!(lines.is_empty());
}

#[test]
fn page_break_triggers_exactly_on_margin_violation() {
    let g = a4();
    // 32 mm above the bottom: a 12 mm line still fits (bottom lands on the
    // margin), so the cursor is untouched.
    let stays = ensure_room(Cursor { page_index: 3, y_um: 32_000 }, 12_000, &g);
    assert_eq!(stays, Cursor { page_index: 3, y_um: 32_000 });
    // One micrometer less and the line would cross the margin: a fresh page
    // is opened and the position resets to the top.
    let breaks = ensure_room(Cursor { page_index: 3, y_um: 31_999 }, 12_000, &g);
    assert_eq!(breaks, Cursor { page_index: 4, y_um: 277_000 });
}

#[test]
fn scale_is_width_driven() {
    let g = a4();
    assert_eq!(image_scale_ppm(&g, 400), 425_000);
    assert_eq!(scaled_height_um(&g, 400, 300), 127_500);
    assert_eq!(image_scale_ppm(&g, 170), 1_000_000);
    assert_eq!(scaled_height_um(&g, 170, 42), 42_000);
}

#[test]
fn font_selection_policy() {
    assert_eq!(font_of(RunStyle { bold: false, italic: false }), FontVariant::Regular);
    assert_eq!(font_of(RunStyle { bold: true, italic: false }), FontVariant::Bold);
    assert_eq!(font_of(RunStyle { bold: false, italic: true }), FontVariant::Italic);
    assert_eq!(font_of(RunStyle { bold: true, italic: true }), FontVariant::Bold);
}

#[test]
fn geometry_rejects_margins_wider_than_the_page() {
    assert!(PageGeometry::new(210_000, 297_000, 20_000).is_some());
    assert!(PageGeometry::new(210_000, 297_000, 105_000).is_none());
    assert!(PageGeometry::new(210_000, 297_000, -1).is_none());
    assert!(PageGeometry::new(20_000_000, 297_000, 100).is_none());
    assert_eq!(PageGeometry::a4(), a4());
}

#[test]
fn image_asset_rejects_zero_width() {
    assert!(ImageAsset::new(b"word/media/x.png".to_vec(), 0, 100, Vec::new()).is_none());
    let a = ImageAsset::new(b"word/media/x.png".to_vec(), 2, 100, vec![7]).unwrap();
    assert_eq!(a.pixel_width, 2);
    assert_eq!(a.pixel_height, 100);
    assert_eq!(a.pixel_bytes, vec![7]);
}

#[test]
fn media_entry_recognition() {
    assert!(is_media_entry(&b"word/media/image1.png".to_vec()));
    assert!(is_media_entry(&b"word/media".to_vec()));
    assert!(!is_media_entry(&b"word/document.xml".to_vec()));
    assert!(!is_media_entry(&b"word/medi".to_vec()));
    assert!(!is_media_entry(&Vec::new()));
}

#[test]
fn container_extension_recognition() {
    assert!(has_container_extension(&b"input.docx".to_vec()));
    assert!(has_container_extension(&b".docx".to_vec()));
    assert!(!has_container_extension(&b"input.pdf".to_vec()));
    assert!(!has_container_extension(&b"docx".to_vec()));
    assert!(!has_container_extension(&b"input.docx.bak".to_vec()));
}

#[test]
fn config_carries_paths_and_default_geometry() {
    let c = Config::new("in.docx", "out.pdf");
    assert_eq!(c.input_path, "in.docx");
    assert_eq!(c.output_path, "out.pdf");
    assert_eq!(c.geometry, a4());
}

#[test]
fn conversion_error_messages_name_the_stage() {
    assert_eq!(ConversionError::Io(String::from("gone")).message(), "IO error: gone");
    assert_eq!(
        ConversionError::InvalidInput(String::from("bad name")).message(),
        "Invalid input file: bad name",
    );
    assert_eq!(ConversionError::Pdf(String::from("x")).message(), "PDF creation error: x");
    assert_eq!(ConversionError::Zip(String::from("z")).message(), "Zip error: z");
    assert_eq!(ConversionError::Docx(String::from("d")).message(), "Docx parsing error: d");
    assert_eq!(ConversionError::Image(String::from("i")).message(), "Image processing error: i");
}
