use textlayer::block::{TextBlock, cluster_glyphs};
use textlayer::glyph::Glyph;
use textlayer::markup::serialize_markup;
use textlayer::numfmt::{push_dec, push_int};
use textlayer::payload::reconstruct_page;
use textlayer::raster::target_dim;

fn glyph(text: &str, font: &str, x: i64, y: i64, left: i64, right: i64, w: i64, h: i64) -> Glyph {
    Glyph {
        text: String::from(text),
        font_family: String::from(font),
        origin_x: x,
        origin_y: y,
        left,
        right,
        width: w,
        height: h,
    }
}

#[test]
fn two_close_glyphs_same_font_form_one_block() {
    let glyphs = vec![
        glyph("H", "Arial", 10, 780, 10, 18, 8, 12),
        glyph("i", "Arial", 18, 780, 18, 22, 4, 12),
    ];
    let blocks = cluster_glyphs(&glyphs, 800);
    assert_eq!(blocks.len(), 1);
    assert_eq!(blocks[0].text, "Hi");
    assert_eq!(blocks[0].x_positions, vec![10, 18]);
    assert_eq!(blocks[0].y_positions, vec![8, 8]);
    assert_eq!(blocks[0].font_family, "Arial");
    assert_eq!(blocks[0].font_size, 12);
    assert_eq!(blocks[0].right_edge, 22);
}

#[test]
fn font_change_always_splits() {
    let glyphs = vec![
        glyph("H", "Arial", 10, 780, 10, 18, 8, 12),
        glyph("i", "Times", 18, 780, 18, 22, 4, 12),
    ];
    let blocks = cluster_glyphs(&glyphs, 800);
    assert_eq!(blocks.len(), 2);
    assert_eq!(blocks[0].text, "H");
    assert_eq!(blocks[1].text, "i");
    assert_eq!(blocks[0].x_positions.len(), 1);
    assert_eq!(blocks[1].x_positions.len(), 1);
}

#[test]
fn gap_at_threshold_merges_and_past_threshold_splits() {
    // first glyph's right edge is 18; second glyph has width 4, so the
    // threshold gap is 4 + 5 = 9.
    let at = vec![
        glyph("a", "Arial", 10, 700, 10, 18, 8, 10),
        glyph("b", "Arial", 27, 700, 27, 31, 4, 10),
    ];
    let blocks = cluster_glyphs(&at, 800);
    assert_eq!(blocks.len(), 1);
    assert_eq!(blocks[0].text, "ab");

    let past = vec![
        glyph("a", "Arial", 10, 700, 10, 18, 8, 10),
        glyph("b", "Arial", 28, 700, 28, 32, 4, 10),
    ];
    let blocks = cluster_glyphs(&past, 800);
    assert_eq!(blocks.len(), 2);
}

#[test]
fn negative_origin_x_is_filtered_out() {
    let glyphs = vec![glyph("x", "Arial", -1, 700, -1, 7, 8, 10)];
    let blocks = cluster_glyphs(&glyphs, 800);
    assert_eq!(blocks.len(), 0);
    let markup = reconstruct_page(&glyphs, 600, 800);
    assert_eq!(markup, "");
}

#[test]
fn origin_above_page_is_filtered_out() {
    // normalized y is 800 - 900 = -100, so the glyph is rejected.
    let glyphs = vec![glyph("x", "Arial", 10, 900, 10, 18, 8, 10)];
    assert_eq!(cluster_glyphs(&glyphs, 800).len(), 0);
}

#[test]
fn control_characters_are_filtered_out() {
    let glyphs = vec![
        glyph("\n", "Arial", 10, 700, 10, 18, 8, 10),
        glyph("\r", "Arial", 20, 700, 20, 28, 8, 10),
        glyph("\u{7f}", "Arial", 30, 700, 30, 38, 8, 10),
        glyph("\u{3}", "Arial", 40, 700, 40, 48, 8, 10),
    ];
    assert_eq!(cluster_glyphs(&glyphs, 800).len(), 0);
}

#[test]
fn zero_height_glyph_is_filtered_out() {
    let glyphs = vec![glyph(" ", "Arial", 10, 700, 10, 18, 8, 0)];
    assert_eq!(cluster_glyphs(&glyphs, 800).len(), 0);
}

#[test]
fn empty_stream_yields_empty_blocks_and_empty_markup() {
    let glyphs: Vec<Glyph> = Vec::new();
    assert_eq!(cluster_glyphs(&glyphs, 800).len(), 0);
    assert_eq!(reconstruct_page(&glyphs, 600, 800), "");
}

#[test]
fn growing_font_size_shifts_later_anchors() {
    // the second glyph is taller: the block's font size grows to 20
    // and the second anchor subtracts the grown size.
    let glyphs = vec![
        glyph("a", "Arial", 10, 700, 10, 18, 8, 10),
        glyph("B", "Arial", 18, 700, 18, 26, 8, 20),
    ];
    let blocks = cluster_glyphs(&glyphs, 800);
    assert_eq!(blocks.len(), 1);
    assert_eq!(blocks[0].font_size, 20);
    assert_eq!(blocks[0].y_positions, vec![90, 80]);
}

#[test]
fn blocks_can_drift_right_glyph_by_glyph() {
    // each consecutive gap is within the threshold even though the
    // last glyph is far from the first.
    let glyphs = vec![
        glyph("a", "Arial", 10, 700, 10, 18, 8, 10),
        glyph("b", "Arial", 26, 700, 26, 34, 8, 10),
        glyph("c", "Arial", 42, 700, 42, 50, 8, 10),
        glyph("d", "Arial", 58, 700, 58, 66, 8, 10),
    ];
    let blocks = cluster_glyphs(&glyphs, 800);
    assert_eq!(blocks.len(), 1);
    assert_eq!(blocks[0].text, "abcd");
    assert_eq!(blocks[0].x_positions, vec![10, 26, 42, 58]);
}

#[test]
fn markup_exact_output_for_one_page() {
    let glyphs = vec![
        glyph("H", "Arial", 10, 780, 10, 18, 8, 12),
        glyph("i", "Arial", 18, 780, 18, 22, 4, 12),
    ];
    let markup = reconstruct_page(&glyphs, 600, 800);
    let expected = "<svg xmlns=\"http://www.w3.org/2000/svg\" width=\"600\" height=\"800\" viewBox=\"0 0 600 800\"><title>text-layer</title><text style=\"font-size:12pt; white-space: pre; dominant-baseline: hanging;\"><tspan x=\"10 18\" y=\"8 8\">Hi</tspan></text></svg>";
    assert_eq!(markup, expected);
}

#[test]
fn markup_serialization_is_deterministic() {
    let make = || {
        vec![
            glyph("H", "Serif", 10, 780, 10, 18, 8, 12),
            glyph("o", "Serif", 18, 780, 18, 22, 4, 12),
            glyph("!", "Mono", 60, 700, 60, 64, 4, 9),
        ]
    };
    let a = reconstruct_page(&make(), 600, 800);
    let b = reconstruct_page(&make(), 600, 800);
    assert_eq!(a, b);
    assert!(!a.is_empty());
}

#[test]
fn markup_escapes_reserved_characters() {
    let blocks = vec![TextBlock {
        x_positions: vec![5],
        y_positions: vec![7],
        text: String::from("a<b&c>d"),
        font_family: String::from("Mono"),
        right_edge: 9,
        font_size: 10,
    }];
    let markup = serialize_markup(&blocks, 100, 200);
    assert!(markup.contains("a&lt;b&amp;c&gt;d"));
    assert!(!markup.contains("a<b&c>d"));
}

#[test]
fn markup_of_empty_block_sequence_is_empty() {
    let blocks: Vec<TextBlock> = Vec::new();
    assert_eq!(serialize_markup(&blocks, 600, 800), "");
}

#[test]
fn decimal_rendering_matches_expected() {
    let mut s = String::new();
    push_dec(&mut s, 0);
    assert_eq!(s, "0");
    let mut s = String::new();
    push_dec(&mut s, 12034);
    assert_eq!(s, "12034");
    let mut s = String::new();
    push_int(&mut s, -507);
    assert_eq!(s, "-507");
    let mut s = String::new();
    push_int(&mut s, 600);
    assert_eq!(s, "600");
}

#[test]
fn target_pixel_size_truncates_toward_zero() {
    assert_eq!(target_dim(600, 25), 150);
    assert_eq!(target_dim(601, 25), 150);
    assert_eq!(target_dim(600, 150), 900);
    assert_eq!(target_dim(799, 50), 399);
    assert_eq!(target_dim(0, 200), 0);
}
