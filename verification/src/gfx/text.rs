//! The layout of text on the screen.

use vstd::prelude::*;

verus! {

/// A point on the screen.
#[derive(Clone, Copy, Debug, PartialEq, Eq, Structural)]
pub struct Point {
    pub x: i16,
    pub y: i16,
}

/// A rectangle on the screen, by its top left and bottom right corners.
#[derive(Clone, Copy, Debug, PartialEq, Eq, Structural)]
pub struct Rectangle {
    pub tl: Point,
    pub br: Point,
}

/// A rectangle to set text in.
#[derive(Clone, Copy, Debug, PartialEq, Eq, Structural)]
pub struct ClipRect {
    pub min_x: usize,
    pub min_y: usize,
    pub max_x: usize,
    pub max_y: usize,
}

/// How large a text may become, in screen coordinates.
#[derive(Clone, Copy, Debug, PartialEq, Eq, Structural)]
pub enum TextBounds {
    /// The text fills this box, whatever the margin is.
    BoundingBox(Rectangle),
    /// The text grows up and to the left from its bottom right corner, up to a width.
    GrowableFromBr(Point, u16),
    /// The text grows down and to the right from its top left corner, up to a width.
    GrowableFromTl(Point, u16),
    /// The text grows up and to the right from its bottom left corner, up to a width.
    GrowableFromBl(Point, u16),
}

/// The color of a pixel.
#[derive(Clone, Copy, Debug, PartialEq, Eq, Structural)]
pub enum PixelColor {
    Dark,
    Light,
}

/// How a shape is drawn.
#[derive(Clone, Copy, Debug, PartialEq, Eq, Structural)]
pub struct DrawStyle {
    pub fill_color: Option<PixelColor>,
    pub stroke_color: Option<PixelColor>,
    pub stroke_width: i16,
}

/// What a text asks for around it.
#[derive(Clone, Copy, Debug, PartialEq, Eq, Structural)]
pub struct TextFlags {
    /// Only lay the text out.
    pub dry_run: bool,
    /// Draw light text on dark ground.
    pub invert: bool,
    /// Clear the ground.
    pub clear_area: bool,
    /// Draw a border.
    pub draw_border: bool,
    pub border_width: u16,
    /// Round the corners off with this radius.
    pub rounded_border: Option<u16>,
}

/// The shape of the ground of a text.
#[derive(Clone, Copy, Debug, PartialEq, Eq, Structural)]
pub enum FrameShape {
    /// None is drawn.
    Hidden,
    /// A rectangle with corners of this radius, clipped to itself.
    Rounded(u16),
    /// A rectangle, clipped to the canvas.
    Plain,
}

/// The larger of two numbers.
pub open spec fn larger(a: int, b: int) -> int {
    if a > b {
        a
    } else {
        b
    }
}

/// The smaller of two numbers.
pub open spec fn smaller(a: int, b: int) -> int {
    if a < b {
        a
    } else {
        b
    }
}

/// Whether a number fits in a coordinate.
pub open spec fn fits(x: int) -> bool {
    i16::MIN <= x <= i16::MAX
}

/// A coordinate as an unsigned number: what a negative one stands for is far off the screen.
pub open spec fn unsigned(x: int) -> usize {
    (x as i16) as usize
}

/// A width as a coordinate. The sixteen bits stay the same.
pub open spec fn signed_width(width: u16) -> i16 {
    width as i16
}

/// The rectangle to set text in, between the given coordinates.
pub open spec fn clip_between(min_x: int, min_y: int, max_x: int, max_y: int) -> ClipRect {
    ClipRect {
        min_x: unsigned(min_x),
        min_y: unsigned(min_y),
        max_x: unsigned(max_x),
        max_y: unsigned(max_y),
    }
}

/// The largest rectangle that a text may fill, with a margin left to the canvas. A text that grows
/// from a corner is not drawn where that corner lies off the canvas, but for the bottom left one.
pub open spec fn border_of(
    canvas: Rectangle,
    margin: Point,
    bounds: TextBounds,
    corner_on_canvas: bool,
) -> Option<ClipRect> {
    match bounds {
        TextBounds::BoundingBox(r) => Some(
            clip_between(r.tl.x as int, r.tl.y as int, r.br.x as int, r.br.y as int),
        ),
        TextBounds::GrowableFromBr(br, width) => if corner_on_canvas {
            Some(
                clip_between(
                    larger(br.x - signed_width(width), canvas.tl.x + margin.x),
                    canvas.tl.y + margin.y,
                    br.x - margin.x,
                    br.y - margin.y,
                ),
            )
        } else {
            None
        },
        TextBounds::GrowableFromTl(tl, width) => if corner_on_canvas {
            Some(
                clip_between(
                    tl.x + margin.x,
                    tl.y + margin.y,
                    smaller(tl.x + signed_width(width) + margin.x, canvas.br.x - margin.x),
                    canvas.br.y - margin.y,
                ),
            )
        } else {
            None
        },
        TextBounds::GrowableFromBl(bl, width) => Some(
            clip_between(
                bl.x + margin.x,
                canvas.tl.y + margin.y,
                smaller(bl.x + signed_width(width) + margin.x, canvas.br.x - margin.x),
                bl.y - margin.y,
            ),
        ),
    }
}

/// Whether all coordinates that come up on the right side of a text that grows to the right fit.
pub open spec fn right_side_fits(x: i16, width: u16, margin: i16, canvas_right: i16) -> bool {
    let w = signed_width(width);
    &&& fits(x + margin)
    &&& fits(x + w)
    &&& fits(2 * margin)
    &&& fits(x + w + 2 * margin)
    &&& if x + w + 2 * margin < canvas_right {
        fits(x + w + margin)
    } else {
        fits(canvas_right - margin)
    }
}

/// Whether all coordinates that come up in [`border_of`] fit.
pub open spec fn border_fits(
    canvas: Rectangle,
    margin: Point,
    bounds: TextBounds,
    corner_on_canvas: bool,
) -> bool {
    match bounds {
        TextBounds::BoundingBox(_) => true,
        TextBounds::GrowableFromBr(br, width) => corner_on_canvas ==> {
            &&& fits(br.x - signed_width(width))
            &&& fits(canvas.tl.x + margin.x)
            &&& fits(canvas.tl.y + margin.y)
            &&& fits(br.x - margin.x)
            &&& fits(br.y - margin.y)
        },
        TextBounds::GrowableFromTl(tl, width) => corner_on_canvas ==> {
            &&& right_side_fits(tl.x, width, margin.x, canvas.br.x)
            &&& fits(tl.y + margin.y)
            &&& fits(canvas.br.y - margin.y)
        },
        TextBounds::GrowableFromBl(bl, width) => {
            &&& right_side_fits(bl.x, width, margin.x, canvas.br.x)
            &&& fits(canvas.tl.y + margin.y)
            &&& fits(bl.y - margin.y)
        },
    }
}

fn in_range(x: i32) -> (r: bool)
    ensures
        r == fits(x as int),
{
    -0x8000 <= x && x <= 0x7fff
}

fn right_side_in_range(x: i16, width: u16, margin: i16, canvas_right: i16) -> (r: bool)
    ensures
        r == right_side_fits(x, width, margin, canvas_right),
{
    let w: i32 = (width as i16) as i32;
    let x: i32 = x as i32;
    let m: i32 = margin as i32;
    let right: i32 = canvas_right as i32;
    in_range(x + m) && in_range(x + w) && in_range(2 * m) && in_range(x + w + 2 * m)
        && if x + w + 2 * m < right {
        in_range(x + w + m)
    } else {
        in_range(right - m)
    }
}

/// Whether [`text_border`] can be had without bounds that were computed before: all coordinates
/// that come up fit.
pub fn border_in_range(
    canvas: Rectangle,
    margin: Point,
    bounds: TextBounds,
    corner_on_canvas: bool,
) -> (r: bool)
    ensures
        r == border_fits(canvas, margin, bounds, corner_on_canvas),
{
    let mx: i32 = margin.x as i32;
    let my: i32 = margin.y as i32;
    match bounds {
        TextBounds::BoundingBox(_) => true,
        TextBounds::GrowableFromBr(br, width) => {
            let w: i32 = (width as i16) as i32;
            !corner_on_canvas || (in_range(br.x as i32 - w) && in_range(canvas.tl.x as i32 + mx)
                && in_range(canvas.tl.y as i32 + my) && in_range(br.x as i32 - mx) && in_range(
                br.y as i32 - my,
            ))
        },
        TextBounds::GrowableFromTl(tl, width) => {
            !corner_on_canvas || (right_side_in_range(tl.x, width, margin.x, canvas.br.x)
                && in_range(tl.y as i32 + my) && in_range(canvas.br.y as i32 - my))
        },
        TextBounds::GrowableFromBl(bl, width) => {
            right_side_in_range(bl.x, width, margin.x, canvas.br.x) && in_range(
                canvas.tl.y as i32 + my,
            ) && in_range(bl.y as i32 - my)
        },
    }
}

/// The right side of a text that grows to the right from `x`, up to a width or the canvas.
fn right_side(x: i16, width: u16, margin: i16, canvas_right: i16) -> (right: i16)
    requires
        right_side_fits(x, width, margin, canvas_right),
    ensures
        right == smaller(x + signed_width(width) + margin, canvas_right - margin),
{
    let w: i16 = width as i16;
    if x + w + 2 * margin < canvas_right {
        x + w + margin
    } else {
        canvas_right - margin
    }
}

/// The largest rectangle that a text may fill. All coordinates are those of the screen. Bounds that
/// were computed before take precedence. `corner_on_canvas` tells whether the corner that the text
/// grows from lies on the canvas. Without a rectangle the text is not drawn.
pub fn text_border(
    canvas: Rectangle,
    margin: Point,
    computed: Option<Rectangle>,
    bounds: TextBounds,
    corner_on_canvas: bool,
) -> (border: Option<ClipRect>)
    requires
        computed is None ==> border_fits(canvas, margin, bounds, corner_on_canvas),
    ensures
        border == (match computed {
            Some(r) => border_of(canvas, margin, TextBounds::BoundingBox(r), corner_on_canvas),
            None => border_of(canvas, margin, bounds, corner_on_canvas),
        }),
{
    if let Some(r) = computed {
        return Some(
            ClipRect {
                min_x: r.tl.x as usize,
                min_y: r.tl.y as usize,
                max_x: r.br.x as usize,
                max_y: r.br.y as usize,
            },
        );
    }
    match bounds {
        TextBounds::BoundingBox(r) => Some(
            ClipRect {
                min_x: r.tl.x as usize,
                min_y: r.tl.y as usize,
                max_x: r.br.x as usize,
                max_y: r.br.y as usize,
            },
        ),
        TextBounds::GrowableFromBr(br, width) => {
            if !corner_on_canvas {
                None
            } else {
                let w: i16 = width as i16;
                let left: i16 = if br.x - w > canvas.tl.x + margin.x {
                    br.x - w
                } else {
                    canvas.tl.x + margin.x
                };
                Some(
                    ClipRect {
                        min_x: left as usize,
                        min_y: (canvas.tl.y + margin.y) as usize,
                        max_x: (br.x - margin.x) as usize,
                        max_y: (br.y - margin.y) as usize,
                    },
                )
            }
        },
        TextBounds::GrowableFromTl(tl, width) => {
            if !corner_on_canvas {
                None
            } else {
                Some(
                    ClipRect {
                        min_x: (tl.x + margin.x) as usize,
                        min_y: (tl.y + margin.y) as usize,
                        max_x: right_side(tl.x, width, margin.x, canvas.br.x) as usize,
                        max_y: (canvas.br.y - margin.y) as usize,
                    },
                )
            }
        },
        TextBounds::GrowableFromBl(bl, width) => Some(
            ClipRect {
                min_x: (bl.x + margin.x) as usize,
                min_y: (canvas.tl.y + margin.y) as usize,
                max_x: right_side(bl.x, width, margin.x, canvas.br.x) as usize,
                max_y: (bl.y - margin.y) as usize,
            },
        ),
    }
}

/// How the ground of a text is drawn: dark where the text is inverted, light where it is only
/// cleared, and with a dark border where one is asked for.
pub fn ground_style(flags: TextFlags) -> (style: DrawStyle)
    ensures
        style == style_of(flags),
{
    let stroke_color: Option<PixelColor> = if flags.draw_border {
        Some(PixelColor::Dark)
    } else {
        None
    };
    let stroke_width: i16 = if flags.draw_border {
        flags.border_width as i16
    } else {
        0
    };
    let fill_color: Option<PixelColor> = if flags.clear_area || flags.invert {
        if flags.invert {
            Some(PixelColor::Dark)
        } else {
            Some(PixelColor::Light)
        }
    } else {
        None
    };
    DrawStyle { fill_color, stroke_color, stroke_width }
}

/// The shape of the ground of a text.
pub fn ground_shape(flags: TextFlags) -> (shape: FrameShape)
    ensures
        shape == shape_of(flags),
{
    if flags.dry_run {
        FrameShape::Hidden
    } else {
        match flags.rounded_border {
            Some(radius) => FrameShape::Rounded(radius),
            None => FrameShape::Plain,
        }
    }
}

/// Whether a message word sets a flag.
pub fn flag(word: usize) -> (on: bool)
    ensures
        on == (word != 0),
{
    word != 0
}

/// A word that has been given its place. All of its glyphs stand on one line.
#[derive(Debug)]
pub struct TypesetWord {
    /// The place of the first glyph.
    pub x: usize,
    pub y: usize,
    /// The height of the line.
    pub height: usize,
    /// The widths of the glyphs.
    pub widths: Vec<u8>,
}

/// A step of drawing a text.
#[derive(Clone, Copy, Debug, PartialEq, Eq, Structural)]
pub enum TextStep {
    /// Draw the mark for the insertion point, down from a point.
    InsertionMark { column: i16, top: i16, bottom: i16 },
    /// Draw a glyph of a word at a place.
    Glyph { word: usize, glyph: usize, x: usize, y: usize },
}

/// The width of the first `n` glyphs of a word.
pub open spec fn width_of(widths: Seq<u8>, n: int) -> int
    decreases n,
{
    if n <= 0 {
        0
    } else {
        width_of(widths, n - 1) + widths[n - 1]
    }
}

/// The number of glyphs of the first `n` words.
pub open spec fn glyphs_before(words: Seq<TypesetWord>, n: int) -> int
    decreases n,
{
    if n <= 0 {
        0
    } else {
        glyphs_before(words, n - 1) + words[n - 1].widths@.len()
    }
}

/// The mark for an insertion point before a glyph that is drawn at `x`.
pub open spec fn mark_at(word: TypesetWord, x: int) -> TextStep {
    TextStep::InsertionMark {
        column: x as i16,
        top: word.y as i16,
        bottom: (word.y + word.height) as i16,
    }
}

/// The place of a glyph: each one starts where the one before it ends.
pub open spec fn glyph_step(word: TypesetWord, k: int, n: int) -> TextStep {
    TextStep::Glyph {
        word: k as usize,
        glyph: n as usize,
        x: (word.x + width_of(word.widths@, n)) as usize,
        y: word.y,
    }
}

/// The steps for the first `n` glyphs of word `k`, whose first glyph has the number `first` in the
/// text.
pub open spec fn word_steps(
    word: TypesetWord,
    k: int,
    first: int,
    insertion: Option<usize>,
    n: int,
) -> Seq<TextStep>
    decreases n,
{
    if n <= 0 {
        Seq::empty()
    } else {
        let front = word_steps(word, k, first, insertion, n - 1);
        let marked = if insertion matches Some(at) && at == first + (n - 1) {
            front.push(mark_at(word, word.x + width_of(word.widths@, n - 1)))
        } else {
            front
        };
        marked.push(glyph_step(word, k, n - 1))
    }
}

/// The steps for the first `n` words of a text.
pub open spec fn text_steps(words: Seq<TypesetWord>, insertion: Option<usize>, n: int) -> Seq<
    TextStep,
>
    decreases n,
{
    if n <= 0 {
        Seq::empty()
    } else {
        text_steps(words, insertion, n - 1) + word_steps(
            words[n - 1],
            n - 1,
            glyphs_before(words, n - 1),
            insertion,
            words[n - 1].widths@.len() as int,
        )
    }
}

/// Whether the insertion point lies before a glyph of word `k`.
pub open spec fn marks_word(words: Seq<TypesetWord>, insertion: Option<usize>, k: int) -> bool {
    insertion matches Some(at) && glyphs_before(words, k) <= at < glyphs_before(words, k + 1)
}

/// Whether all numbers that come up in the steps fit.
pub open spec fn steps_fit(words: Seq<TypesetWord>, insertion: Option<usize>) -> bool {
    &&& glyphs_before(words, words.len() as int) <= usize::MAX
    &&& forall|k: int|
        0 <= k < words.len() ==> (#[trigger] words[k]).x + width_of(
            words[k].widths@,
            words[k].widths@.len() as int,
        ) <= usize::MAX
    &&& forall|k: int|
        0 <= k < words.len() && marks_word(words, insertion, k) ==> (#[trigger] words[k]).y
            + words[k].height <= usize::MAX
}

/// The number of marks for the insertion point in a text of which `glyphs` glyphs are drawn.
pub open spec fn marks(insertion: Option<usize>, glyphs: int) -> int {
    if insertion matches Some(at) && at < glyphs {
        1
    } else {
        0
    }
}

proof fn lemma_width_grows(widths: Seq<u8>, m: int, n: int)
    requires
        m <= n,
    ensures
        0 <= width_of(widths, m) <= width_of(widths, n),
    decreases n,
{
    if n > 0 {
        if m < n {
            lemma_width_grows(widths, m, n - 1);
        } else {
            lemma_width_grows(widths, n - 1, n - 1);
        }
    }
}

proof fn lemma_glyphs_grow(words: Seq<TypesetWord>, m: int, n: int)
    requires
        m <= n,
    ensures
        0 <= glyphs_before(words, m) <= glyphs_before(words, n),
    decreases n,
{
    if n > 0 {
        if m < n {
            lemma_glyphs_grow(words, m, n - 1);
        } else {
            lemma_glyphs_grow(words, n - 1, n - 1);
        }
    }
}

/// Whether [`draw_steps`] can be had: all numbers that come up fit.
pub fn steps_in_range(words: &Vec<TypesetWord>, insertion: Option<usize>) -> (r: bool)
    ensures
        r == steps_fit(words@, insertion),
{
    let n: usize = words.len();
    let mut count: usize = 0;
    let mut k: usize = 0;
    let mut ok: bool = true;
    while k < n
        invariant
            k <= n,
            n == words@.len(),
            count == glyphs_before(words@, k as int),
            ok == {
                &&& forall|j: int|
                    0 <= j < k ==> (#[trigger] words@[j]).x + width_of(
                        words@[j].widths@,
                        words@[j].widths@.len() as int,
                    ) <= usize::MAX
                &&& forall|j: int|
                    0 <= j < k && marks_word(words@, insertion, j) ==> (#[trigger] words@[j]).y
                        + words@[j].height <= usize::MAX
            },
        decreases n - k,
    {
        let word: &TypesetWord = &words[k];
        let len: usize = word.widths.len();
        let mut x: usize = word.x;
        let mut x_fits: bool = true;
        let mut g: usize = 0;
        while g < len
            invariant
                g <= len,
                len == word.widths@.len(),
                x_fits == (word.x + width_of(word.widths@, g as int) <= usize::MAX),
                x_fits ==> x == word.x + width_of(word.widths@, g as int),
            decreases len - g,
        {
            let wide: usize = word.widths[g] as usize;
            if x_fits && x <= usize::MAX - wide {
                x = x + wide;
            } else {
                x_fits = false;
            }
            g = g + 1;
        }
        if count > usize::MAX - len {
            proof {
                lemma_glyphs_grow(words@, k + 1, n as int);
            }
            return false;
        }
        let is_marked: bool = match insertion {
            Some(at) => count <= at && at < count + len,
            None => false,
        };
        assert(is_marked == marks_word(words@, insertion, k as int));
        let y_fits: bool = !is_marked || word.y <= usize::MAX - word.height;
        if !x_fits || !y_fits {
            ok = false;
        }
        count = count + len;
        k = k + 1;
    }
    ok
}

/// The steps that draw a text, in order: each glyph in its place, and the mark for the insertion
/// point before the glyph with that number.
pub fn draw_steps(words: &Vec<TypesetWord>, insertion: Option<usize>) -> (steps: Vec<TextStep>)
    requires
        steps_fit(words@, insertion),
    ensures
        steps@ == text_steps(words@, insertion, words@.len() as int),
{
    let mut steps: Vec<TextStep> = Vec::new();
    let mut count: usize = 0;
    let n: usize = words.len();
    let mut k: usize = 0;
    while k < n
        invariant
            k <= n,
            n == words@.len(),
            steps_fit(words@, insertion),
            count == glyphs_before(words@, k as int),
            steps@ == text_steps(words@, insertion, k as int),
        decreases n - k,
    {
        let word: &TypesetWord = &words[k];
        let ghost done = steps@;
        let ghost first = count as int;
        let len: usize = word.widths.len();
        let mut x: usize = word.x;
        let mut g: usize = 0;
        proof {
            lemma_glyphs_grow(words@, k + 1, n as int);
        }
        while g < len
            invariant
                g <= len,
                k < n,
                n == words@.len(),
                *word == words@[k as int],
                len == word.widths@.len(),
                steps_fit(words@, insertion),
                first == glyphs_before(words@, k as int),
                first + len == glyphs_before(words@, k + 1),
                first + len <= usize::MAX,
                count == first + g,
                x == word.x + width_of(word.widths@, g as int),
                steps@ == done + word_steps(*word, k as int, first, insertion, g as int),
            decreases len - g,
        {
            if let Some(at) = insertion {
                if at == count {
                    assert(marks_word(words@, insertion, k as int));
                    steps.push(
                        TextStep::InsertionMark {
                            column: x as i16,
                            top: word.y as i16,
                            bottom: (word.y + word.height) as i16,
                        },
                    );
                }
            }
            steps.push(TextStep::Glyph { word: k, glyph: g, x, y: word.y });
            proof {
                lemma_width_grows(word.widths@, g + 1, len as int);
                assert(steps@ =~= done + word_steps(*word, k as int, first, insertion, g + 1));
            }
            x = x + word.widths[g] as usize;
            count = count + 1;
            g = g + 1;
        }
        k = k + 1;
    }
    steps
}

/// A text that has been set: its words, and the place where the next text would go on.
#[derive(Debug)]
pub struct Typeset {
    pub words: Vec<TypesetWord>,
    pub cursor: (usize, usize),
}

/// How a text is drawn: first the ground, then step by step what stands on it.
#[derive(Debug)]
pub struct TextDrawing {
    pub style: DrawStyle,
    pub shape: FrameShape,
    pub steps: Vec<TextStep>,
    /// The place where the next text would go on, which goes back to the sender of the text.
    pub cursor: (usize, usize),
}

/// How the ground of a text is drawn.
pub open spec fn style_of(flags: TextFlags) -> DrawStyle {
    DrawStyle {
        fill_color: if flags.invert {
            Some(PixelColor::Dark)
        } else if flags.clear_area {
            Some(PixelColor::Light)
        } else {
            None
        },
        stroke_color: if flags.draw_border {
            Some(PixelColor::Dark)
        } else {
            None
        },
        stroke_width: if flags.draw_border {
            signed_width(flags.border_width)
        } else {
            0
        },
    }
}

/// The shape of the ground of a text.
pub open spec fn shape_of(flags: TextFlags) -> FrameShape {
    if flags.dry_run {
        FrameShape::Hidden
    } else {
        match flags.rounded_border {
            Some(radius) => FrameShape::Rounded(radius),
            None => FrameShape::Plain,
        }
    }
}

/// The steps that draw a text on its ground. A dry run has none.
pub open spec fn steps_of(
    flags: TextFlags,
    words: Seq<TypesetWord>,
    insertion: Option<usize>,
) -> Seq<TextStep> {
    if flags.dry_run {
        Seq::empty()
    } else {
        text_steps(words, insertion, words.len() as int)
    }
}

/// How to draw a text that has been set. A dry run draws nothing, but tells where the next text
/// would go on all the same.
pub fn draw_text(flags: TextFlags, typeset: &Typeset, insertion: Option<usize>) -> (drawing:
    TextDrawing)
    requires
        !flags.dry_run ==> steps_fit(typeset.words@, insertion),
    ensures
        drawing.style == style_of(flags),
        drawing.shape == shape_of(flags),
        drawing.steps@ == steps_of(flags, typeset.words@, insertion),
        flags.dry_run ==> drawing.steps@.len() == 0,
        !flags.dry_run ==> drawing.steps@ == text_steps(
            typeset.words@,
            insertion,
            typeset.words@.len() as int,
        ),
        drawing.cursor == typeset.cursor,
{
    let steps: Vec<TextStep> = if flags.dry_run {
        Vec::new()
    } else {
        draw_steps(&typeset.words, insertion)
    };
    TextDrawing {
        style: ground_style(flags),
        shape: ground_shape(flags),
        steps,
        cursor: typeset.cursor,
    }
}

/// Of two texts that differ only in that one is a dry run, that one draws neither its ground nor a
/// glyph, and the other draws its ground and every glyph. The cursor that [`draw_text`] hands back
/// is in both cases the one that the text was set with.
pub proof fn law_dry_run_draws_nothing(
    flags: TextFlags,
    words: Seq<TypesetWord>,
    insertion: Option<usize>,
    k: int,
    g: int,
)
    ensures
        ({
            let dry = TextFlags { dry_run: true, ..flags };
            let wet = TextFlags { dry_run: false, ..flags };
            &&& shape_of(dry) is Hidden
            &&& steps_of(dry, words, insertion).len() == 0
            &&& !(shape_of(wet) is Hidden)
            &&& style_of(wet) == style_of(dry)
            &&& 0 <= k < words.len() && 0 <= g < words[k].widths@.len() ==> steps_of(
                wet,
                words,
                insertion,
            ).contains(glyph_step(words[k], k, g))
        }),
{
    if 0 <= k < words.len() && 0 <= g < words[k].widths@.len() {
        law_every_glyph_is_drawn(words, insertion, words.len() as int, k, g);
    }
}

/// Where the coordinates lie on the screen, a text that grows keeps the margin to the side of the
/// canvas that it grows towards, and does not grow beyond its width.
pub proof fn law_border_keeps_margin(canvas: Rectangle, margin: Point, bounds: TextBounds)
    requires
        border_fits(canvas, margin, bounds, true),
        canvas.tl.x >= 0,
        canvas.tl.y >= 0,
        margin.x >= 0,
        margin.y >= 0,
        bounds matches TextBounds::GrowableFromBr(br, _) ==> br.x >= margin.x,
        bounds matches TextBounds::GrowableFromTl(tl, w) ==> tl.x >= 0 && w <= i16::MAX
            && canvas.br.x >= margin.x,
        bounds matches TextBounds::GrowableFromBl(bl, w) ==> bl.x >= 0 && w <= i16::MAX
            && canvas.br.x >= margin.x,
    ensures
        border_of(canvas, margin, bounds, true) matches Some(b) && {
            &&& bounds matches TextBounds::GrowableFromBr(br, w) ==> {
                &&& b.min_x >= canvas.tl.x + margin.x
                &&& b.min_x >= br.x - signed_width(w)
                &&& b.max_x == br.x - margin.x
            }
            &&& bounds matches TextBounds::GrowableFromTl(tl, w) ==> {
                &&& b.min_x == tl.x + margin.x
                &&& b.max_x <= canvas.br.x - margin.x
                &&& b.max_x - b.min_x <= w
            }
            &&& bounds matches TextBounds::GrowableFromBl(bl, w) ==> {
                &&& b.min_x == bl.x + margin.x
                &&& b.max_x <= canvas.br.x - margin.x
                &&& b.max_x - b.min_x <= w
            }
        },
{
    match bounds {
        TextBounds::GrowableFromTl(_, w) | TextBounds::GrowableFromBl(_, w) => {
            assert(w as i16 == w) by (bit_vector)
                requires
                    w <= 0x7fffu16,
            ;
        },
        _ => {},
    }
}

/// A text is drawn with one step for each glyph, and one more where the insertion point lies before
/// a glyph.
pub proof fn law_one_step_per_glyph(words: Seq<TypesetWord>, insertion: Option<usize>, n: int)
    requires
        0 <= n <= words.len(),
    ensures
        text_steps(words, insertion, n).len() == glyphs_before(words, n) + marks(
            insertion,
            glyphs_before(words, n),
        ),
    decreases n,
{
    if n > 0 {
        law_one_step_per_glyph(words, insertion, n - 1);
        lemma_word_steps_len(
            words[n - 1],
            n - 1,
            glyphs_before(words, n - 1),
            insertion,
            words[n - 1].widths@.len() as int,
        );
    }
}

proof fn lemma_word_steps_len(
    word: TypesetWord,
    k: int,
    first: int,
    insertion: Option<usize>,
    n: int,
)
    requires
        0 <= n,
    ensures
        word_steps(word, k, first, insertion, n).len() == n + marks(insertion, first + n) - marks(
            insertion,
            first,
        ),
    decreases n,
{
    if n > 0 {
        lemma_word_steps_len(word, k, first, insertion, n - 1);
    }
}

/// Every glyph of a text is drawn.
pub proof fn law_every_glyph_is_drawn(
    words: Seq<TypesetWord>,
    insertion: Option<usize>,
    n: int,
    k: int,
    g: int,
)
    requires
        0 <= k < n <= words.len(),
        0 <= g < words[k].widths@.len(),
    ensures
        text_steps(words, insertion, n).contains(glyph_step(words[k], k, g)),
    decreases n,
{
    let all = text_steps(words, insertion, n);
    let front = text_steps(words, insertion, n - 1);
    let step = glyph_step(words[k], k, g);
    if k < n - 1 {
        law_every_glyph_is_drawn(words, insertion, n - 1, k, g);
        let i = choose|i: int| 0 <= i < front.len() && front[i] == step;
        assert(all[i] == step);
    } else {
        let len = words[k].widths@.len() as int;
        let first = glyphs_before(words, k);
        lemma_word_draws_glyph(words[k], k, first, insertion, len, g);
        let tail = word_steps(words[k], k, first, insertion, len);
        let i = choose|i: int| 0 <= i < tail.len() && tail[i] == step;
        assert(all[front.len() + i] == step);
    }
}

proof fn lemma_word_draws_glyph(
    word: TypesetWord,
    k: int,
    first: int,
    insertion: Option<usize>,
    n: int,
    g: int,
)
    requires
        0 <= g < n,
    ensures
        word_steps(word, k, first, insertion, n).contains(glyph_step(word, k, g)),
    decreases n,
{
    let all = word_steps(word, k, first, insertion, n);
    let front = word_steps(word, k, first, insertion, n - 1);
    if g < n - 1 {
        lemma_word_draws_glyph(word, k, first, insertion, n - 1, g);
        let i = choose|i: int| 0 <= i < front.len() && front[i] == glyph_step(word, k, g);
        assert(all[i] == front[i]);
    } else {
        assert(all.last() == glyph_step(word, k, g));
    }
}

/// Glyphs of one word stand side by side.
pub proof fn law_glyphs_stand_side_by_side(word: TypesetWord, k: int, g: int)
    requires
        0 <= g,
        g + 1 < word.widths@.len(),
        word.x + width_of(word.widths@, word.widths@.len() as int) <= usize::MAX,
    ensures
        glyph_step(word, k, g + 1)->x == glyph_step(word, k, g)->x + word.widths@[g],
        glyph_step(word, k, g + 1)->y == glyph_step(word, k, g)->y,
{
    lemma_width_grows(word.widths@, g, g + 1);
    lemma_width_grows(word.widths@, g + 1, word.widths@.len() as int);
}

/// The width of a row of glyphs.
pub open spec fn total_width(widths: Seq<u8>) -> int
    decreases widths.len(),
{
    if widths.len() == 0 {
        0
    } else {
        total_width(widths.drop_last()) + widths.last()
    }
}

/// The number of glyphs of a row of words.
pub open spec fn glyph_count(words: Seq<TypesetWord>) -> int
    decreases words.len(),
{
    if words.len() == 0 {
        0
    } else {
        glyph_count(words.drop_last()) + words.last().widths@.len()
    }
}

proof fn lemma_width_total(widths: Seq<u8>, n: int)
    requires
        0 <= n <= widths.len(),
    ensures
        width_of(widths, n) == total_width(widths.take(n)),
    decreases n,
{
    if n > 0 {
        lemma_width_total(widths, n - 1);
        assert(widths.take(n).drop_last() =~= widths.take(n - 1));
    }
}

proof fn lemma_glyph_count(words: Seq<TypesetWord>, n: int)
    requires
        0 <= n <= words.len(),
    ensures
        glyphs_before(words, n) == glyph_count(words.take(n)),
    decreases n,
{
    if n > 0 {
        lemma_glyph_count(words, n - 1);
        assert(words.take(n).drop_last() =~= words.take(n - 1));
    }
}

proof fn lemma_word_step_at(
    word: TypesetWord,
    k: int,
    first: int,
    insertion: Option<usize>,
    n: int,
    g: int,
)
    requires
        0 <= g < n,
        0 <= first,
    ensures
        ({
            let steps = word_steps(word, k, first, insertion, n);
            let p = g + marks(insertion, first + g + 1) - marks(insertion, first);
            &&& 0 <= p < steps.len()
            &&& steps[p] == glyph_step(word, k, g)
        }),
    decreases n,
{
    lemma_word_steps_len(word, k, first, insertion, n);
    lemma_word_steps_len(word, k, first, insertion, n - 1);
    if g < n - 1 {
        lemma_word_step_at(word, k, first, insertion, n - 1, g);
    }
}

proof fn lemma_text_step_at(
    words: Seq<TypesetWord>,
    insertion: Option<usize>,
    n: int,
    k: int,
    g: int,
)
    requires
        0 <= k < n <= words.len(),
        0 <= g < words[k].widths@.len(),
    ensures
        ({
            let steps = text_steps(words, insertion, n);
            let at = glyphs_before(words, k) + g;
            let p = at + marks(insertion, at + 1);
            &&& 0 <= p < steps.len()
            &&& steps[p] == glyph_step(words[k], k, g)
        }),
    decreases n,
{
    let front = text_steps(words, insertion, n - 1);
    lemma_glyphs_grow(words, 0, n - 1);
    if k < n - 1 {
        lemma_text_step_at(words, insertion, n - 1, k, g);
    } else {
        law_one_step_per_glyph(words, insertion, n - 1);
        lemma_word_step_at(
            words[k],
            k,
            glyphs_before(words, k),
            insertion,
            words[k].widths@.len() as int,
            g,
        );
    }
}

/// Every glyph is drawn in its place. The glyph with index `g` of word `k` comes after all glyphs of
/// the words before it and those before it in its word, and after the mark if that stands before
/// it. It is drawn at the left edge of its word plus the widths of the glyphs before it in the word,
/// and at the top of its word.
pub proof fn law_glyphs_are_in_place(
    words: Seq<TypesetWord>,
    insertion: Option<usize>,
    k: int,
    g: int,
)
    requires
        steps_fit(words, insertion),
        words.len() <= usize::MAX,
        0 <= k < words.len(),
        0 <= g < words[k].widths@.len(),
    ensures
        ({
            let steps = text_steps(words, insertion, words.len() as int);
            let at = glyph_count(words.take(k)) + g;
            let p = if insertion is Some && insertion->0 <= at {
                at + 1
            } else {
                at
            };
            &&& 0 <= p < steps.len()
            &&& steps[p] matches TextStep::Glyph { word, glyph, x, y } && {
                &&& word == k
                &&& glyph == g
                &&& x == words[k].x + total_width(words[k].widths@.take(g))
                &&& y == words[k].y
            }
        }),
{
    lemma_text_step_at(words, insertion, words.len() as int, k, g);
    lemma_glyph_count(words, k);
    lemma_width_total(words[k].widths@, g);
    lemma_width_grows(words[k].widths@, g, words[k].widths@.len() as int);
    lemma_glyphs_grow(words, 0, k);
    lemma_glyphs_grow(words, k + 1, words.len() as int);
}

/// There is one step for each glyph, and one more exactly where the insertion point lies before one
/// of them.
pub proof fn law_number_of_steps(words: Seq<TypesetWord>, insertion: Option<usize>)
    ensures
        ({
            let steps = text_steps(words, insertion, words.len() as int);
            let marked = insertion is Some && insertion->0 < glyph_count(words);
            &&& marked ==> steps.len() == glyph_count(words) + 1
            &&& !marked ==> steps.len() == glyph_count(words)
        }),
{
    law_one_step_per_glyph(words, insertion, words.len() as int);
    lemma_glyph_count(words, words.len() as int);
    assert(words.take(words.len() as int) =~= words);
}

proof fn lemma_word_step_shape(
    word: TypesetWord,
    k: int,
    first: int,
    insertion: Option<usize>,
    n: int,
    i: int,
    j: int,
)
    requires
        0 <= first,
        0 <= k <= usize::MAX,
        0 <= n <= usize::MAX,
        word.x + width_of(word.widths@, n) <= usize::MAX,
        0 <= i < word_steps(word, k, first, insertion, n).len(),
    ensures
        ({
            let steps = word_steps(word, k, first, insertion, n);
            &&& steps[i] matches TextStep::Glyph { word: w, glyph: g, .. } ==> w == k && g < n
            &&& i < j < steps.len() && steps[i] is Glyph && steps[j] is Glyph ==> steps[i]->glyph
                < steps[j]->glyph
            &&& steps[i] matches TextStep::InsertionMark { column, top, bottom } ==> {
                &&& insertion is Some
                &&& insertion->0 == first + i
                &&& i + 1 < steps.len()
                &&& steps[i + 1] is Glyph
                &&& steps[i + 1]->glyph == i
                &&& column == steps[i + 1]->x as i16
                &&& top == word.y as i16
                &&& bottom == (word.y + word.height) as i16
            }
        }),
    decreases n,
{
    if n > 0 {
        let m = n - 1;
        let front = word_steps(word, k, first, insertion, m);
        let steps = word_steps(word, k, first, insertion, n);
        lemma_word_steps_len(word, k, first, insertion, m);
        lemma_word_steps_len(word, k, first, insertion, n);
        lemma_width_grows(word.widths@, m, n);
        if i < front.len() {
            lemma_word_step_shape(word, k, first, insertion, m, i, j);
            assert(steps[i] == front[i]);
            if j < front.len() && i < j {
                assert(steps[j] == front[j]);
            }
        }
    }
}

proof fn lemma_text_step_shape(
    words: Seq<TypesetWord>,
    insertion: Option<usize>,
    n: int,
    i: int,
    j: int,
)
    requires
        steps_fit(words, insertion),
        words.len() <= usize::MAX,
        0 <= n <= words.len(),
        0 <= i < text_steps(words, insertion, n).len(),
    ensures
        ({
            let steps = text_steps(words, insertion, n);
            &&& steps[i] matches TextStep::Glyph { word, glyph, .. } ==> word < n && glyph
                < words[word as int].widths@.len()
            &&& i < j < steps.len() && steps[i] is Glyph && steps[j] is Glyph ==> {
                ||| steps[i]->word < steps[j]->word
                ||| steps[i]->word == steps[j]->word && steps[i]->glyph < steps[j]->glyph
            }
            &&& steps[i] matches TextStep::InsertionMark { column, top, bottom } ==> {
                &&& insertion is Some
                &&& insertion->0 == i
                &&& i + 1 < steps.len()
                &&& steps[i + 1] matches TextStep::Glyph { word, x, y, .. } && {
                    &&& word < n
                    &&& column == x as i16
                    &&& top == y as i16
                    &&& bottom == (y + words[word as int].height) as i16
                    &&& y + words[word as int].height <= usize::MAX
                }
            }
        }),
    decreases n,
{
    if n > 0 {
        let k = n - 1;
        let front = text_steps(words, insertion, k);
        let steps = text_steps(words, insertion, n);
        let first = glyphs_before(words, k);
        let len = words[k].widths@.len() as int;
        let tail = word_steps(words[k], k, first, insertion, len);
        lemma_glyphs_grow(words, 0, k);
        lemma_glyphs_grow(words, n, words.len() as int);
        law_one_step_per_glyph(words, insertion, k);
        lemma_word_steps_len(words[k], k, first, insertion, len);
        if i < front.len() {
            lemma_text_step_shape(words, insertion, k, i, j);
            if front.len() <= j < steps.len() {
                lemma_word_step_shape(
                    words[k],
                    k,
                    first,
                    insertion,
                    len,
                    j - front.len(),
                    j - front.len(),
                );
            }
        } else {
            let a = i - front.len();
            lemma_word_step_shape(words[k], k, first, insertion, len, a, j - front.len());
            if i < j < steps.len() {
                lemma_word_step_shape(
                    words[k],
                    k,
                    first,
                    insertion,
                    len,
                    j - front.len(),
                    j - front.len(),
                );
            }
            if steps[i] is InsertionMark {
                lemma_word_step_y(words[k], k, first, insertion, len, a + 1);
                lemma_word_step_shape(words[k], k, first, insertion, len, a + 1, a + 1);
            }
        }
    }
}

proof fn lemma_word_step_y(
    word: TypesetWord,
    k: int,
    first: int,
    insertion: Option<usize>,
    n: int,
    i: int,
)
    requires
        0 <= i < word_steps(word, k, first, insertion, n).len(),
    ensures
        word_steps(word, k, first, insertion, n)[i] matches TextStep::Glyph { y, .. } ==> y
            == word.y,
    decreases n,
{
    if n > 0 {
        let front = word_steps(word, k, first, insertion, n - 1);
        if i < front.len() {
            lemma_word_step_y(word, k, first, insertion, n - 1, i);
        }
    }
}

/// Glyphs are drawn word by word and in the order in which they stand in their word, each of them
/// once, and nothing is drawn that the text does not hold.
pub proof fn law_glyphs_come_in_order(
    words: Seq<TypesetWord>,
    insertion: Option<usize>,
    i: int,
    j: int,
)
    requires
        steps_fit(words, insertion),
        words.len() <= usize::MAX,
        0 <= i < j < text_steps(words, insertion, words.len() as int).len(),
    ensures
        ({
            let steps = text_steps(words, insertion, words.len() as int);
            &&& steps[i] matches TextStep::Glyph { word, glyph, .. } ==> word < words.len() && glyph
                < words[word as int].widths@.len()
            &&& steps[j] matches TextStep::Glyph { word, glyph, .. } ==> word < words.len() && glyph
                < words[word as int].widths@.len()
            &&& steps[i] is Glyph && steps[j] is Glyph ==> {
                ||| steps[i]->word < steps[j]->word
                ||| steps[i]->word == steps[j]->word && steps[i]->glyph < steps[j]->glyph
            }
        }),
{
    lemma_text_step_shape(words, insertion, words.len() as int, i, j);
    lemma_text_step_shape(words, insertion, words.len() as int, j, j);
}

/// The mark stands right before the glyph with the number of the insertion point, counted over the
/// whole text: at the left edge of that glyph, from its top down by the height of its word. Where
/// there is such a glyph the mark is drawn, and otherwise there is none.
pub proof fn law_mark_stands_before_glyph(
    words: Seq<TypesetWord>,
    insertion: Option<usize>,
    i: int,
)
    requires
        steps_fit(words, insertion),
        words.len() <= usize::MAX,
        0 <= i < text_steps(words, insertion, words.len() as int).len(),
    ensures
        ({
            let steps = text_steps(words, insertion, words.len() as int);
            &&& steps[i] is InsertionMark <==> insertion is Some && insertion->0 == i && i
                < glyph_count(words)
            &&& steps[i] matches TextStep::InsertionMark { column, top, bottom } ==> {
                &&& i + 1 < steps.len()
                &&& steps[i + 1] matches TextStep::Glyph { word, x, y, .. } && {
                    &&& word < words.len()
                    &&& x <= i16::MAX ==> column == x
                    &&& y <= i16::MAX ==> top == y
                    &&& y + words[word as int].height <= i16::MAX ==> bottom == y
                        + words[word as int].height
                }
            }
        }),
{
    let n = words.len() as int;
    let steps = text_steps(words, insertion, n);
    lemma_text_step_shape(words, insertion, n, i, i);
    law_number_of_steps(words, insertion);
    if insertion is Some && insertion->0 == i && i < glyph_count(words) {
        lemma_text_mark(words, insertion, n, i);
    }
}

proof fn lemma_text_mark(words: Seq<TypesetWord>, insertion: Option<usize>, n: int, at: int)
    requires
        0 <= n <= words.len(),
        insertion is Some,
        insertion->0 == at,
        at < glyphs_before(words, n) || (n == words.len() && at < glyph_count(words)),
    ensures
        at < text_steps(words, insertion, n).len(),
        text_steps(words, insertion, n)[at] is InsertionMark,
    decreases n,
{
    lemma_glyph_count(words, words.len() as int);
    assert(words.take(words.len() as int) =~= words);
    let k = n - 1;
    let front = text_steps(words, insertion, k);
    law_one_step_per_glyph(words, insertion, k);
    lemma_glyphs_grow(words, 0, k);
    if at < glyphs_before(words, k) {
        lemma_text_mark(words, insertion, k, at);
    } else {
        let first = glyphs_before(words, k);
        lemma_word_mark(words[k], k, first, insertion, words[k].widths@.len() as int, at - first);
    }
}

proof fn lemma_word_mark(
    word: TypesetWord,
    k: int,
    first: int,
    insertion: Option<usize>,
    n: int,
    g: int,
)
    requires
        0 <= g < n,
        0 <= first,
        insertion is Some,
        insertion->0 == first + g,
    ensures
        g < word_steps(word, k, first, insertion, n).len(),
        word_steps(word, k, first, insertion, n)[g] is InsertionMark,
    decreases n,
{
    lemma_word_steps_len(word, k, first, insertion, n - 1);
    if g < n - 1 {
        lemma_word_mark(word, k, first, insertion, n - 1, g);
    }
}

/// How the ground is drawn. It is filled dark for an inverted text, light for one that only clears
/// its ground, and not at all otherwise. It has a dark border of the width that was asked for, or
/// none. A dry run draws no ground; otherwise it has the corners that were asked for.
pub proof fn law_ground(flags: TextFlags, radius: u16)
    ensures
        flags.invert ==> style_of(flags).fill_color == Some(PixelColor::Dark),
        !flags.invert && flags.clear_area ==> style_of(flags).fill_color == Some(PixelColor::Light),
        !flags.invert && !flags.clear_area ==> style_of(flags).fill_color is None,
        flags.draw_border ==> style_of(flags).stroke_color == Some(PixelColor::Dark),
        flags.draw_border && flags.border_width <= i16::MAX ==> style_of(flags).stroke_width
            == flags.border_width,
        flags.draw_border && flags.border_width > i16::MAX ==> style_of(flags).stroke_width
            == flags.border_width - 0x1_0000,
        !flags.draw_border ==> style_of(flags).stroke_color is None && style_of(flags).stroke_width
            == 0,
        flags.dry_run ==> shape_of(flags) == FrameShape::Hidden,
        !flags.dry_run && flags.rounded_border is None ==> shape_of(flags) == FrameShape::Plain,
        !flags.dry_run && flags.rounded_border == Some(radius) ==> shape_of(flags)
            == FrameShape::Rounded(radius),
{
    law_signed_width(flags.border_width);
}

/// A width as a coordinate: the same number where that holds it, and otherwise less by `2^16`.
pub proof fn law_signed_width(width: u16)
    ensures
        width <= i16::MAX ==> signed_width(width) == width,
        width > i16::MAX ==> signed_width(width) == width - 0x1_0000,
{
    assert(width <= 0x7fff ==> width as i16 == width) by (bit_vector);
    assert(width > 0x7fff ==> width as i16 == width - 0x1_0000) by (bit_vector);
}

/// A coordinate that is not negative stays as it is. A negative one lies off every screen.
pub proof fn law_unsigned_coordinate(x: i16)
    ensures
        x >= 0 ==> unsigned(x as int) == x,
        x < 0 ==> unsigned(x as int) == x + usize::MAX + 1,
{
    assert(x >= 0 ==> x as usize == x) by (bit_vector);
    assert(x < 0 ==> x as usize - x == if usize::BITS == 64 {
        0x1_0000_0000_0000_0000int
    } else {
        0x1_0000_0000int
    }) by (bit_vector);
}

/// The rectangle to set a text in. A box is taken as it is. A text that grows from its bottom right
/// corner reaches up to the margin of the canvas, left to its width or the margin of the canvas,
/// whichever comes first, and keeps the margin to its corner. A text that grows to the right starts
/// a margin from its corner and reaches to its width or the margin of the canvas, whichever comes
/// first; from a top left corner it reaches down to the margin of the canvas, and from a bottom left
/// one up to it. A text that grows from a corner off the canvas is not drawn, but for the bottom
/// left one.
pub proof fn law_border_of_text(
    canvas: Rectangle,
    margin: Point,
    r: Rectangle,
    corner: Point,
    width: u16,
    on_canvas: bool,
)
    ensures
        ({
            let b = border_of(canvas, margin, TextBounds::BoundingBox(r), on_canvas);
            &&& b is Some
            &&& b->0.min_x == unsigned(r.tl.x as int)
            &&& b->0.min_y == unsigned(r.tl.y as int)
            &&& b->0.max_x == unsigned(r.br.x as int)
            &&& b->0.max_y == unsigned(r.br.y as int)
        }),
        ({
            let b = border_of(canvas, margin, TextBounds::GrowableFromBr(corner, width), on_canvas);
            let by_width = corner.x - signed_width(width);
            let by_canvas = canvas.tl.x + margin.x;
            &&& b is Some <==> on_canvas
            &&& on_canvas && by_width >= by_canvas ==> b->0.min_x == unsigned(by_width)
            &&& on_canvas && by_width <= by_canvas ==> b->0.min_x == unsigned(by_canvas)
            &&& on_canvas ==> b->0.min_y == unsigned(canvas.tl.y + margin.y)
            &&& on_canvas ==> b->0.max_x == unsigned(corner.x - margin.x)
            &&& on_canvas ==> b->0.max_y == unsigned(corner.y - margin.y)
        }),
        ({
            let b = border_of(canvas, margin, TextBounds::GrowableFromTl(corner, width), on_canvas);
            let by_width = corner.x + signed_width(width) + margin.x;
            let by_canvas = canvas.br.x - margin.x;
            &&& b is Some <==> on_canvas
            &&& on_canvas ==> b->0.min_x == unsigned(corner.x + margin.x)
            &&& on_canvas ==> b->0.min_y == unsigned(corner.y + margin.y)
            &&& on_canvas && by_width <= by_canvas ==> b->0.max_x == unsigned(by_width)
            &&& on_canvas && by_width >= by_canvas ==> b->0.max_x == unsigned(by_canvas)
            &&& on_canvas ==> b->0.max_y == unsigned(canvas.br.y - margin.y)
        }),
        ({
            let b = border_of(canvas, margin, TextBounds::GrowableFromBl(corner, width), on_canvas);
            let by_width = corner.x + signed_width(width) + margin.x;
            let by_canvas = canvas.br.x - margin.x;
            &&& b is Some
            &&& b->0.min_x == unsigned(corner.x + margin.x)
            &&& b->0.min_y == unsigned(canvas.tl.y + margin.y)
            &&& by_width <= by_canvas ==> b->0.max_x == unsigned(by_width)
            &&& by_width >= by_canvas ==> b->0.max_x == unsigned(by_canvas)
            &&& b->0.max_y == unsigned(corner.y - margin.y)
        }),
{
}

/// A box always fits, and so does a text that grows from a corner off the canvas, but for the bottom
/// left one: it is not drawn.
pub proof fn law_boxes_fit(
    canvas: Rectangle,
    margin: Point,
    r: Rectangle,
    corner: Point,
    width: u16,
    on_canvas: bool,
)
    ensures
        border_fits(canvas, margin, TextBounds::BoundingBox(r), on_canvas),
        border_fits(canvas, margin, TextBounds::GrowableFromBr(corner, width), false),
        border_fits(canvas, margin, TextBounds::GrowableFromTl(corner, width), false),
{
}

/// Up to 8192 pixels from the origin in each direction, with a margin of no more than half of that
/// and a width of no more than that, every text fits.
pub proof fn law_texts_on_screen_fit(
    canvas: Rectangle,
    margin: Point,
    corner: Point,
    width: u16,
    on_canvas: bool,
)
    requires
        -8192 <= canvas.tl.x <= 8192,
        -8192 <= canvas.tl.y <= 8192,
        -8192 <= canvas.br.x <= 8192,
        -8192 <= canvas.br.y <= 8192,
        -4096 <= margin.x <= 4096,
        -4096 <= margin.y <= 4096,
        -8192 <= corner.x <= 8192,
        -8192 <= corner.y <= 8192,
        width <= 8192,
    ensures
        border_fits(canvas, margin, TextBounds::GrowableFromBr(corner, width), on_canvas),
        border_fits(canvas, margin, TextBounds::GrowableFromTl(corner, width), on_canvas),
        border_fits(canvas, margin, TextBounds::GrowableFromBl(corner, width), on_canvas),
{
    law_signed_width(width);
}

/// The steps fit exactly where the glyphs can be counted, each word ends within the range of a
/// coordinate, and so does the mark.
pub proof fn law_which_steps_fit(words: Seq<TypesetWord>, insertion: Option<usize>)
    ensures
        steps_fit(words, insertion) == ({
            &&& glyph_count(words) <= usize::MAX
            &&& forall|k: int|
                0 <= k < words.len() ==> (#[trigger] words[k]).x + total_width(words[k].widths@)
                    <= usize::MAX
            &&& forall|k: int|
                0 <= k < words.len() && insertion is Some && glyph_count(words.take(k))
                    <= insertion->0 && insertion->0 - glyph_count(words.take(k))
                    < words[k].widths@.len() ==> (#[trigger] words[k]).y + words[k].height
                    <= usize::MAX
        }),
{
    assert(words.take(words.len() as int) =~= words);
    lemma_glyph_count(words, words.len() as int);
    assert forall|k: int| 0 <= k < words.len() implies {
        &&& glyphs_before(words, k) == glyph_count(words.take(k))
        &&& glyphs_before(words, k + 1) == glyphs_before(words, k) + (
        #[trigger] words[k]).widths@.len()
        &&& width_of(words[k].widths@, words[k].widths@.len() as int) == total_width(
            words[k].widths@,
        )
    } by {
        lemma_glyph_count(words, k);
        lemma_width_total(words[k].widths@, words[k].widths@.len() as int);
        assert(words[k].widths@.take(words[k].widths@.len() as int) =~= words[k].widths@);
    }
}

/// What [`border_fits`] asks of a text that grows from a corner: every number that comes up on the
/// way to its rectangle lies in `-2^15 .. 2^15`.
pub proof fn law_which_borders_fit(canvas: Rectangle, margin: Point, corner: Point, width: u16)
    ensures
        border_fits(canvas, margin, TextBounds::GrowableFromBr(corner, width), true) <==> {
            &&& -32768 <= corner.x - signed_width(width) <= 32767
            &&& -32768 <= canvas.tl.x + margin.x <= 32767
            &&& -32768 <= canvas.tl.y + margin.y <= 32767
            &&& -32768 <= corner.x - margin.x <= 32767
            &&& -32768 <= corner.y - margin.y <= 32767
        },
        border_fits(canvas, margin, TextBounds::GrowableFromTl(corner, width), true) <==> {
            let right = corner.x + signed_width(width);
            &&& -32768 <= corner.x + margin.x <= 32767
            &&& -32768 <= right <= 32767
            &&& -32768 <= margin.x + margin.x <= 32767
            &&& -32768 <= right + margin.x + margin.x <= 32767
            &&& right + margin.x < canvas.br.x - margin.x ==> -32768 <= right + margin.x <= 32767
            &&& right + margin.x >= canvas.br.x - margin.x ==> -32768 <= canvas.br.x - margin.x
                <= 32767
            &&& -32768 <= corner.y + margin.y <= 32767
            &&& -32768 <= canvas.br.y - margin.y <= 32767
        },
        forall|on_canvas: bool| #[trigger]
            border_fits(canvas, margin, TextBounds::GrowableFromBl(corner, width), on_canvas)
                <==> {
                let right = corner.x + signed_width(width);
                &&& -32768 <= corner.x + margin.x <= 32767
                &&& -32768 <= right <= 32767
                &&& -32768 <= margin.x + margin.x <= 32767
                &&& -32768 <= right + margin.x + margin.x <= 32767
                &&& right + margin.x < canvas.br.x - margin.x ==> -32768 <= right + margin.x
                    <= 32767
                &&& right + margin.x >= canvas.br.x - margin.x ==> -32768 <= canvas.br.x
                    - margin.x <= 32767
                &&& -32768 <= canvas.tl.y + margin.y <= 32767
                &&& -32768 <= corner.y - margin.y <= 32767
            },
{
}

/// The numbers of the mark are those of the glyph behind it, of which sixteen bits are kept.
pub proof fn law_mark_keeps_sixteen_bits(
    words: Seq<TypesetWord>,
    insertion: Option<usize>,
    i: int,
)
    requires
        steps_fit(words, insertion),
        words.len() <= usize::MAX,
        0 <= i < text_steps(words, insertion, words.len() as int).len(),
    ensures
        ({
            let steps = text_steps(words, insertion, words.len() as int);
            steps[i] matches TextStep::InsertionMark { column, top, bottom } ==> {
                &&& i + 1 < steps.len()
                &&& steps[i + 1] matches TextStep::Glyph { word, x, y, .. } && {
                    &&& (x - column) % 0x1_0000 == 0
                    &&& (y - top) % 0x1_0000 == 0
                    &&& (y + words[word as int].height - bottom) % 0x1_0000 == 0
                }
            }
        }),
{
    let n = words.len() as int;
    let steps = text_steps(words, insertion, n);
    lemma_text_step_shape(words, insertion, n, i, i);
    if steps[i] is InsertionMark {
        let x: usize = steps[i + 1]->x;
        let y: usize = steps[i + 1]->y;
        let low: usize = (y + words[steps[i + 1]->word as int].height) as usize;
        assert((x - x as i16) % 0x1_0000 == 0) by (bit_vector);
        assert((y - y as i16) % 0x1_0000 == 0) by (bit_vector);
        assert((low - low as i16) % 0x1_0000 == 0) by (bit_vector);
    }
}

} // verus!
