//! End-to-end tests of the layout engine on concrete documents.

use pageflow::engine::layout_document;
use pageflow::geometry::PageGeometry;
use pageflow::model::{ImageAsset, Paragraph, PlacementCommand, StyledRun};
use pageflow::style::{FontVariant, RunStyle};

fn a4() -> PageGeometry {
    PageGeometry { width_um: 210_000, height_um: 297_000, margin_um: 20_000 }
}

fn regular() -> RunStyle {
    RunStyle { bold: false, italic: false }
}

fn para(texts: &[&str]) -> Paragraph {
    Paragraph {
        runs: texts
            .iter()
            .map(|t| StyledRun { text: t.as_bytes().to_vec(), style: regular() })
            .collect(),
    }
}

#[test]
fn hello_world_single_line() {
    let paragraphs = vec![para(&["Hello world"])];
    let images: Vec<ImageAsset> = Vec::new();
    let cmds = layout_document(&paragraphs, &images, &a4());
    assert_eq!(cmds.len(), 1);
    let expected = PlacementCommand::TextLine {
        page_index: 0,
        x_um: 20_000,
        y_um: 277_000,
        font: FontVariant::Regular,
        text: b"Hello world ".to_vec(),
    };
    assert_eq!(cmds[0], expected);
}

#[test]
fn thirty_lines_split_across_two_pages() {
    // 30 words of 78 characters each: every word fills a line of its own,
    // so the paragraph needs 30 lines.  21 lines fit on a page (257 mm
    // printable at 12 mm per line), so the 22nd line opens page 1 at the
    // top of the printable area.
    let word = "a".repeat(78);
    let text = vec![word.clone(); 30].join(" ");
    let paragraphs = vec![para(&[text.as_str()])];
    let images: Vec<ImageAsset> = Vec::new();
    let cmds = layout_document(&paragraphs, &images, &a4());
    assert_eq!(cmds.len(), 30);
    let line_text = format!("{} ", word).into_bytes();
    for (k, cmd) in cmds.iter().enumerate() {
        match cmd {
            PlacementCommand::TextLine { page_index, x_um, y_um, font, text } => {
                assert_eq!(*x_um, 20_000);
                assert_eq!(*font, FontVariant::Regular);
                assert_eq!(text, &line_text);
                if k < 21 {
                    assert_eq!(*page_index, 0);
                    assert_eq!(*y_um, 277_000 - 12_000 * k as i64);
                } else {
                    assert_eq!(*page_index, 1);
                    assert_eq!(*y_um, 277_000 - 12_000 * (k as i64 - 21));
                }
            }
            _ => panic!("expected a text line"),
        }
    }
    // The second page's first line sits at the top of the printable area.
    match &cmds[21] {
        PlacementCommand::TextLine { page_index, y_um, .. } => {
            assert_eq!(*page_index, 1);
            assert_eq!(*y_um, 277_000);
        }
        _ => panic!("expected a text line"),
    }
}

#[test]
fn image_width_fit_and_cursor_advance() {
    // 400x300 px on a 170 mm printable width: scale 0.425, scaled height
    // 127.5 mm, placed with its bottom edge 127.5 mm under the top.  The
    // cursor then advances by 137.5 mm (height plus the 10 mm gap), which
    // the second, smaller image witnesses.
    let paragraphs: Vec<Paragraph> = Vec::new();
    let first = ImageAsset::new(b"word/media/image1.png".to_vec(), 400, 300, Vec::new()).unwrap();
    let second = ImageAsset::new(b"word/media/image2.png".to_vec(), 400, 30, Vec::new()).unwrap();
    let images = vec![first, second];
    let cmds = layout_document(&paragraphs, &images, &a4());
    assert_eq!(cmds.len(), 2);
    let expected_first = PlacementCommand::ImagePlacement {
        page_index: 0,
        x_um: 20_000,
        y_um: 277_000 - 127_500,
        scale_ppm: 425_000,
        asset_index: 0,
    };
    assert_eq!(cmds[0], expected_first);
    // After the first image the cursor stands at 277000 - 137500 = 139500;
    // the second image (scaled height 12.75 mm) still fits on page 0.
    let expected_second = PlacementCommand::ImagePlacement {
        page_index: 0,
        x_um: 20_000,
        y_um: 139_500 - 12_750,
        scale_ppm: 425_000,
        asset_index: 1,
    };
    assert_eq!(cmds[1], expected_second);
}

#[test]
fn empty_document_empty_commands() {
    let paragraphs: Vec<Paragraph> = Vec::new();
    let images: Vec<ImageAsset> = Vec::new();
    let cmds = layout_document(&paragraphs, &images, &a4());
    assert!(cmds.is_empty());
}

#[test]
fn layout_is_idempotent() {
    let paragraphs = vec![para(&["Hello world", "and more text"]), para(&["second paragraph"])];
    let img = ImageAsset::new(b"word/media/image1.png".to_vec(), 640, 480, vec![1, 2, 3]).unwrap();
    let images = vec![img];
    let g = a4();
    let once = layout_document(&paragraphs, &images, &g);
    let twice = layout_document(&paragraphs, &images, &g);
    assert_eq!(once, twice);
}

#[test]
fn paragraphs_are_separated_by_a_blank_line() {
    let paragraphs = vec![para(&["Hi"]), para(&["Yo"])];
    let images: Vec<ImageAsset> = Vec::new();
    let cmds = layout_document(&paragraphs, &images, &a4());
    assert_eq!(cmds.len(), 2);
    match &cmds[0] {
        PlacementCommand::TextLine { y_um, .. } => assert_eq!(*y_um, 277_000),
        _ => panic!("expected a text line"),
    }
    // One line advance plus one blank-line advance: 24 mm below the first.
    match &cmds[1] {
        PlacementCommand::TextLine { y_um, .. } => assert_eq!(*y_um, 253_000),
        _ => panic!("expected a text line"),
    }
}

#[test]
fn empty_paragraph_advances_one_line() {
    let paragraphs = vec![para(&["Hi"]), para(&[]), para(&["Yo"])];
    let images: Vec<ImageAsset> = Vec::new();
    let cmds = layout_document(&paragraphs, &images, &a4());
    assert_eq!(cmds.len(), 2);
    // 277000 - 24000 (first paragraph) - 12000 (empty paragraph's blank).
    match &cmds[1] {
        PlacementCommand::TextLine { y_um, .. } => assert_eq!(*y_um, 241_000),
        _ => panic!("expected a text line"),
    }
}

#[test]
fn bold_and_italic_runs_pick_their_fonts() {
    let runs = vec![
        StyledRun { text: b"plain".to_vec(), style: RunStyle { bold: false, italic: false } },
        StyledRun { text: b"bold".to_vec(), style: RunStyle { bold: true, italic: false } },
        StyledRun { text: b"italic".to_vec(), style: RunStyle { bold: false, italic: true } },
        StyledRun { text: b"both".to_vec(), style: RunStyle { bold: true, italic: true } },
    ];
    let paragraphs = vec![Paragraph { runs }];
    let images: Vec<ImageAsset> = Vec::new();
    let cmds = layout_document(&paragraphs, &images, &a4());
    assert_eq!(cmds.len(), 4);
    let fonts: Vec<FontVariant> = cmds
        .iter()
        .map(|c| match c {
            PlacementCommand::TextLine { font, .. } => *font,
            _ => panic!("expected a text line"),
        })
        .collect();
    assert_eq!(
        fonts,
        vec![FontVariant::Regular, FontVariant::Bold, FontVariant::Italic, FontVariant::Bold],
    );
}

#[test]
fn images_continue_after_text_without_page_reset() {
    let paragraphs = vec![para(&["Hello world"])];
    let img = ImageAsset::new(b"word/media/pic.png".to_vec(), 340, 100, Vec::new()).unwrap();
    let images = vec![img];
    let cmds = layout_document(&paragraphs, &images, &a4());
    assert_eq!(cmds.len(), 2);
    // After the line: cursor 277000 - 12000 - 12000 = 253000.  Scale is
    // 170/340 = 0.5, scaled height 50 mm: placed at 203000 on page 0.
    let expected = PlacementCommand::ImagePlacement {
        page_index: 0,
        x_um: 20_000,
        y_um: 253_000 - 50_000,
        scale_ppm: 500_000,
        asset_index: 0,
    };
    assert_eq!(cmds[1], expected);
}

#[test]
fn tall_image_breaks_to_a_fresh_page() {
    // Fill most of page 0 with text, then place an image too tall for the
    // space that is left: it must open page 1 and be placed from its top.
    let word = "b".repeat(78);
    let text = vec![word; 15].join(" ");
    let paragraphs = vec![para(&[text.as_str()])];
    // 15 lines: cursor at 277000 - 15*12000 - 12000 = 85000.
    let img = ImageAsset::new(b"word/media/tall.png".to_vec(), 170, 100, Vec::new()).unwrap();
    // Scale 1000000 ppm (170 px over 170 mm), scaled height 100 mm: does
    // not fit in the 65 mm left above the margin.
    let images = vec![img];
    let cmds = layout_document(&paragraphs, &images, &a4());
    assert_eq!(cmds.len(), 16);
    let expected = PlacementCommand::ImagePlacement {
        page_index: 1,
        x_um: 20_000,
        y_um: 277_000 - 100_000,
        scale_ppm: 1_000_000,
        asset_index: 0,
    };
    assert_eq!(cmds[15], expected);
}

#[test]
fn pages_never_decrease_and_y_stays_in_band() {
    // A mixed document long enough to cross several pages.
    let word = "e".repeat(38);
    let text = vec![word; 120].join(" ");
    let mut paragraphs = vec![para(&[text.as_str()])];
    paragraphs.push(para(&["tail paragraph"]));
    let images = vec![
        ImageAsset::new(b"word/media/a.png".to_vec(), 400, 300, Vec::new()).unwrap(),
        ImageAsset::new(b"word/media/b.png".to_vec(), 400, 300, Vec::new()).unwrap(),
        ImageAsset::new(b"word/media/c.png".to_vec(), 400, 300, Vec::new()).unwrap(),
    ];
    let cmds = layout_document(&paragraphs, &images, &a4());
    assert!(cmds.len() > 60);
    let mut last_page = 0u64;
    for cmd in &cmds {
        let (page, y) = match cmd {
            PlacementCommand::TextLine { page_index, y_um, .. } => (*page_index, *y_um),
            PlacementCommand::ImagePlacement { page_index, y_um, .. } => (*page_index, *y_um),
        };
        assert!(page >= last_page);
        assert!((20_000..=277_000).contains(&y));
        last_page = page;
    }
    assert!(last_page >= 2);
}
