use xous_services::gfx::font::{
    font_addresses, map_len as font_map_len, readable_len, BulkRead, FontPlaces,
};
use xous_services::gfx::pattern::{
    copy_frame, draw, map_len as frame_map_len, mark_all, pattern_frames, pattern_goes_on,
    PatternFrame, DWELL_MS,
};
use xous_services::gfx::text::{
    border_in_range, draw_steps, draw_text, flag, ground_shape, ground_style, steps_in_range, text_border,
    ClipRect, DrawStyle, FrameShape, PixelColor, Point, Rectangle, TextBounds, TextFlags, TextStep,
    Typeset, TypesetWord,
};

#[test]
fn font_memory_is_whole_pages() {
    assert_eq!(font_map_len(0), 0x1000);
    assert_eq!(font_map_len(0xff7), 0x1000);
    // A page is to spare where the fonts and trailer end on a page boundary.
    assert_eq!(font_map_len(0xff8), 0x2000);
    assert_eq!(font_map_len(0x12_3456), 0x12_4000);
    assert_eq!(readable_len(100), 108);
}

#[test]
fn fonts_lie_behind_the_base() {
    let offsets = FontPlaces { emoji: 1, hanzi: 20, regular: 300, small: 4000, bold: 50000 };
    assert_eq!(
        font_addresses(1_000_000, offsets),
        FontPlaces {
            emoji: 1_000_001,
            hanzi: 1_000_020,
            regular: 1_000_300,
            small: 1_004_000,
            bold: 1_050_000,
        }
    );
}

#[test]
fn bulk_reads_hand_out_the_memory() {
    let memory: Vec<u8> = (0..10).collect();
    let mut reader = BulkRead::new(4);
    assert_eq!((reader.buf.len(), reader.from_offset, reader.len), (4, 0, 0));
    let mut all = vec![];
    while reader.read(&memory, 9) {
        all.extend_from_slice(&reader.buf[..reader.len as usize]);
    }
    assert_eq!(all, [0, 1, 2, 3, 4, 5, 6, 7, 8]);
    assert_eq!((reader.len, reader.from_offset), (1, 9));
    // What follows the last piece is left over from the one before.
    assert_eq!(reader.buf, [8, 5, 6, 7]);
}

#[test]
fn bulk_read_past_the_end_is_ignored() {
    let mut reader = BulkRead::new(4);
    assert!(reader.read(&[1, 2], 2));
    assert!(!reader.read(&[1, 2], 2));
    assert_eq!((reader.len, reader.from_offset), (2, 2));
}

#[test]
fn bulk_read_restarts() {
    let memory = [7, 8, 9];
    let mut reader = BulkRead::new(2);
    assert!(reader.read(&memory, 3));
    assert_eq!(reader.restart(), 0);
    assert!(reader.read(&memory, 3));
    assert_eq!(reader.buf, [7, 8]);
    assert!(reader.read(&memory, 3));
    assert_eq!((reader.buf[0], reader.len), (9, 1));
}

const CANVAS: Rectangle =
    Rectangle { tl: Point { x: 10, y: 20 }, br: Point { x: 300, y: 500 } };
const MARGIN: Point = Point { x: 4, y: 6 };

fn clip(min_x: usize, min_y: usize, max_x: usize, max_y: usize) -> Option<ClipRect> {
    Some(ClipRect { min_x, min_y, max_x, max_y })
}

#[test]
fn bounding_box_is_taken_as_it_is() {
    let r = Rectangle { tl: Point { x: 1, y: 2 }, br: Point { x: 3, y: 4 } };
    let bounds = TextBounds::BoundingBox(r);
    assert_eq!(text_border(CANVAS, MARGIN, None, bounds, false), clip(1, 2, 3, 4));
    let far = Rectangle { tl: Point { x: -1, y: 0 }, br: Point { x: 3, y: 4 } };
    assert_eq!(
        text_border(CANVAS, MARGIN, None, TextBounds::BoundingBox(far), false),
        clip(usize::MAX, 0, 3, 4)
    );
}

#[test]
fn computed_bounds_take_precedence() {
    let r = Rectangle { tl: Point { x: 1, y: 2 }, br: Point { x: 3, y: 4 } };
    let bounds = TextBounds::GrowableFromTl(Point { x: 0, y: 0 }, 10);
    assert_eq!(text_border(CANVAS, MARGIN, Some(r), bounds, false), clip(1, 2, 3, 4));
}

#[test]
fn growing_from_the_bottom_right() {
    let br = Point { x: 200, y: 400 };
    assert_eq!(
        text_border(CANVAS, MARGIN, None, TextBounds::GrowableFromBr(br, 50), true),
        clip(150, 26, 196, 394)
    );
    assert_eq!(
        text_border(CANVAS, MARGIN, None, TextBounds::GrowableFromBr(br, 199), true),
        clip(14, 26, 196, 394)
    );
    assert_eq!(
        text_border(CANVAS, MARGIN, None, TextBounds::GrowableFromBr(br, 50), false),
        None
    );
}

#[test]
fn growing_from_the_top_left() {
    let tl = Point { x: 30, y: 40 };
    assert_eq!(
        text_border(CANVAS, MARGIN, None, TextBounds::GrowableFromTl(tl, 100), true),
        clip(34, 46, 134, 494)
    );
    assert_eq!(
        text_border(CANVAS, MARGIN, None, TextBounds::GrowableFromTl(tl, 1000), true),
        clip(34, 46, 296, 494)
    );
    // At the limit both sides agree.
    assert_eq!(
        text_border(CANVAS, MARGIN, None, TextBounds::GrowableFromTl(tl, 262), true),
        clip(34, 46, 296, 494)
    );
    assert_eq!(
        text_border(CANVAS, MARGIN, None, TextBounds::GrowableFromTl(tl, 261), true),
        clip(34, 46, 295, 494)
    );
    assert_eq!(
        text_border(CANVAS, MARGIN, None, TextBounds::GrowableFromTl(tl, 100), false),
        None
    );
}

#[test]
fn growing_from_the_bottom_left() {
    let bl = Point { x: 30, y: 400 };
    for corner_on_canvas in [true, false] {
        assert_eq!(
            text_border(
                CANVAS,
                MARGIN,
                None,
                TextBounds::GrowableFromBl(bl, 100),
                corner_on_canvas
            ),
            clip(34, 26, 134, 394)
        );
    }
    assert_eq!(
        text_border(CANVAS, MARGIN, None, TextBounds::GrowableFromBl(bl, 1000), true),
        clip(34, 26, 296, 394)
    );
}

#[test]
fn coordinates_out_of_range_are_noticed() {
    let corner = Point { x: 32_000, y: 400 };
    for bounds in [
        TextBounds::GrowableFromTl(corner, 1000),
        TextBounds::GrowableFromBl(corner, 1000),
        TextBounds::GrowableFromBr(Point { x: -32_000, y: 400 }, 1000),
    ] {
        assert!(!border_in_range(CANVAS, MARGIN, bounds, true));
    }
    // What is not drawn is not computed.
    assert!(border_in_range(CANVAS, MARGIN, TextBounds::GrowableFromTl(corner, 1000), false));
    assert!(!border_in_range(CANVAS, MARGIN, TextBounds::GrowableFromBl(corner, 1000), false));
    assert!(border_in_range(CANVAS, MARGIN, TextBounds::GrowableFromBl(corner, 700), true));
    let r = Rectangle { tl: corner, br: corner };
    assert!(border_in_range(CANVAS, MARGIN, TextBounds::BoundingBox(r), true));
    // A width above the largest coordinate counts as a negative one.
    let bounds = TextBounds::GrowableFromTl(Point { x: 30, y: 40 }, 0xfff0);
    assert!(border_in_range(CANVAS, MARGIN, bounds, true));
    assert_eq!(text_border(CANVAS, MARGIN, None, bounds, true), clip(34, 46, 18, 494));
}

const FLAGS: TextFlags = TextFlags {
    dry_run: false,
    invert: false,
    clear_area: false,
    draw_border: false,
    border_width: 3,
    rounded_border: None,
};

#[test]
fn style_of_the_ground() {
    let none = DrawStyle { fill_color: None, stroke_color: None, stroke_width: 0 };
    assert_eq!(ground_style(FLAGS), none);
    assert_eq!(
        ground_style(TextFlags { clear_area: true, ..FLAGS }),
        DrawStyle { fill_color: Some(PixelColor::Light), ..none }
    );
    for clear_area in [true, false] {
        assert_eq!(
            ground_style(TextFlags { clear_area, invert: true, ..FLAGS }),
            DrawStyle { fill_color: Some(PixelColor::Dark), ..none }
        );
    }
    assert_eq!(
        ground_style(TextFlags { draw_border: true, ..FLAGS }),
        DrawStyle { fill_color: None, stroke_color: Some(PixelColor::Dark), stroke_width: 3 }
    );
    assert_eq!(
        ground_style(TextFlags { draw_border: true, border_width: 0xffff, ..FLAGS }).stroke_width,
        -1
    );
}

#[test]
fn shape_of_the_ground() {
    assert_eq!(ground_shape(FLAGS), FrameShape::Plain);
    let rounded = TextFlags { rounded_border: Some(16), ..FLAGS };
    assert_eq!(ground_shape(rounded), FrameShape::Rounded(16));
    assert_eq!(ground_shape(TextFlags { dry_run: true, ..rounded }), FrameShape::Hidden);
}

#[test]
fn flags_in_words() {
    assert!(!flag(0));
    assert!(flag(1));
    assert!(flag(usize::MAX));
}

fn words() -> Vec<TypesetWord> {
    vec![
        TypesetWord { x: 5, y: 10, height: 15, widths: vec![7, 8] },
        TypesetWord { x: 30, y: 10, height: 15, widths: vec![] },
        TypesetWord { x: 5, y: 25, height: 12, widths: vec![9] },
    ]
}

const GLYPHS: [TextStep; 3] = [
    TextStep::Glyph { word: 0, glyph: 0, x: 5, y: 10 },
    TextStep::Glyph { word: 0, glyph: 1, x: 12, y: 10 },
    TextStep::Glyph { word: 2, glyph: 0, x: 5, y: 25 },
];

#[test]
fn glyphs_are_drawn_side_by_side() {
    assert_eq!(draw_steps(&words(), None), GLYPHS);
    assert!(draw_steps(&vec![], Some(0)).is_empty());
}

#[test]
fn insertion_point_is_marked_once() {
    let mark = TextStep::InsertionMark { column: 12, top: 10, bottom: 25 };
    assert_eq!(draw_steps(&words(), Some(1)), [GLYPHS[0], mark, GLYPHS[1], GLYPHS[2]]);
    let mark = TextStep::InsertionMark { column: 5, top: 25, bottom: 37 };
    assert_eq!(draw_steps(&words(), Some(2)), [GLYPHS[0], GLYPHS[1], mark, GLYPHS[2]]);
    // Behind the last glyph there is no mark.
    assert_eq!(draw_steps(&words(), Some(3)), GLYPHS);
}

#[test]
fn dry_run_draws_nothing() {
    let typeset = Typeset { words: words(), cursor: (14, 25) };
    let dry = draw_text(TextFlags { dry_run: true, ..FLAGS }, &typeset, Some(1));
    assert_eq!(dry.shape, FrameShape::Hidden);
    assert!(dry.steps.is_empty());
    let wet = draw_text(FLAGS, &typeset, Some(1));
    assert_eq!(wet.shape, FrameShape::Plain);
    assert_eq!(wet.steps, draw_steps(&words(), Some(1)));
    assert_eq!(wet.style, dry.style);
    assert_eq!((wet.cursor, dry.cursor), ((14, 25), (14, 25)));
}

#[test]
fn places_out_of_range_are_noticed() {
    let mut text = words();
    assert!(steps_in_range(&text, Some(1)));
    text[0].y = usize::MAX;
    assert!(!steps_in_range(&text, Some(1)));
    assert!(steps_in_range(&text, Some(2)));
    assert!(steps_in_range(&text, None));
    text[2].x = usize::MAX - 8;
    assert!(!steps_in_range(&text, None));
    text[2].x = usize::MAX - 9;
    assert!(steps_in_range(&text, None));
}

#[test]
fn pattern_has_six_frames() {
    assert_eq!(
        pattern_frames(),
        [
            PatternFrame::Black,
            PatternFrame::White,
            PatternFrame::Bars,
            PatternFrame::BarsSwapped,
            PatternFrame::Lines,
            PatternFrame::LinesSwapped,
        ]
    );
    assert_eq!(DWELL_MS, 1000);
}

/// A frame of two lines of three words, and a word beyond them.
fn drawn(frame: PatternFrame) -> Vec<u32> {
    let mut memory = vec![77; 7];
    draw(frame, &mut memory, 2, 3);
    memory
}

#[test]
fn frames_of_the_pattern() {
    assert_eq!(drawn(PatternFrame::Black), [0, 0, 0x1_0000, 0, 0, 0x1_0000, 0]);
    assert_eq!(drawn(PatternFrame::White), [0xffff_ffff; 7]);
    let a = 0xaaaa_aaaa;
    assert_eq!(drawn(PatternFrame::Bars), [a, a, a, a, a, a, 77]);
    let b = 0x5555_5555;
    assert_eq!(drawn(PatternFrame::BarsSwapped), [b, b, b, b, b, b, 77]);
    let w = 0xffff_ffff;
    assert_eq!(drawn(PatternFrame::Lines), [0, 0, 0x1_0000, w, w, w, 77]);
    assert_eq!(drawn(PatternFrame::LinesSwapped), [w, w, w, 0, 0, 0x1_0000, 77]);
}

#[test]
fn swapped_frames_are_opposite() {
    let frame = drawn(PatternFrame::Bars);
    let swapped = drawn(PatternFrame::BarsSwapped);
    for i in 0..6 {
        assert_eq!(frame[i], !swapped[i]);
    }
    let frame = drawn(PatternFrame::Lines);
    let swapped = drawn(PatternFrame::LinesSwapped);
    for i in [0, 1, 3, 4] {
        assert_eq!(frame[i], !swapped[i]);
    }
}

#[test]
fn frame_is_kept_and_marked() {
    let mut stash = vec![0; 4];
    copy_frame(&[1, 2, 3, 4, 5], &mut stash);
    assert_eq!(stash, [1, 2, 3, 4]);
    mark_all(&mut stash, 2, 2);
    assert_eq!(stash, [1, 0x1_0002, 3, 0x1_0004]);
    let mut longer = vec![9; 3];
    copy_frame(&[1, 2], &mut longer);
    assert_eq!(longer, [1, 2, 9]);
}

#[test]
fn frame_memory_is_whole_pages() {
    assert_eq!(frame_map_len(0), 4096);
    assert_eq!(frame_map_len(1023), 4096);
    assert_eq!(frame_map_len(1024), 8192);
    assert_eq!(frame_map_len(5896), 24576);
}

#[test]
fn pattern_lasts_for_its_duration() {
    assert!(pattern_goes_on(100, 100, 1));
    assert!(pattern_goes_on(100, 599, 500));
    assert!(!pattern_goes_on(100, 600, 500));
    assert!(!pattern_goes_on(100, 100, 0));
}
