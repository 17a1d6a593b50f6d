//! The test pattern of the screen.
//!
//! A frame holds one bit per pixel, in lines of whole words. The last word of a line has a bit
//! that tells that the line is to be sent to the screen.

use vstd::prelude::*;

verus! {

/// The bit that marks a line as changed, in the last word of the line.
pub const DIRTY_BIT: u32 = 0x1_0000;

/// How long each frame of the pattern is shown, in milliseconds.
pub const DWELL_MS: usize = 1000;

/// A frame of the pattern.
#[derive(Clone, Copy, Debug, PartialEq, Eq, Structural)]
pub enum PatternFrame {
    Black,
    White,
    /// Vertical bars.
    Bars,
    /// Vertical bars, with black and white swapped.
    BarsSwapped,
    /// Lines that start with a black one.
    Lines,
    /// Lines that start with a white one.
    LinesSwapped,
}

/// A word with the bit set that marks its line as changed.
pub open spec fn marked(word: u32) -> u32 {
    word | DIRTY_BIT
}

/// Whether word `i` of a frame is the last one of a line.
pub open spec fn ends_line(i: int, width: int) -> bool {
    i % width == width - 1
}

/// The frame with all of its `lines` lines marked as changed.
pub open spec fn all_marked(frame: Seq<u32>, lines: int, width: int) -> Seq<u32> {
    Seq::new(
        frame.len(),
        |i: int|
            if i < lines * width && ends_line(i, width) {
                marked(frame[i])
            } else {
                frame[i]
            },
    )
}

/// Word `i` of a frame of the pattern, in one of its lines.
pub open spec fn pattern_word(frame: PatternFrame, i: int, width: int) -> u32 {
    let odd = (i / width) % 2 == 1;
    let line: u32 = if odd == (frame is Lines) {
        0xffff_ffff
    } else {
        0
    };
    match frame {
        PatternFrame::Black => if ends_line(i, width) {
            DIRTY_BIT
        } else {
            0
        },
        PatternFrame::White => 0xffff_ffff,
        PatternFrame::Bars => 0xaaaa_aaaa,
        PatternFrame::BarsSwapped => 0x5555_5555,
        _ => if ends_line(i, width) {
            marked(line)
        } else {
            line
        },
    }
}

/// What a frame of the pattern leaves in memory that held `before`. Black and white fill all of the
/// memory, the others only the lines.
pub open spec fn drawn(
    frame: PatternFrame,
    before: Seq<u32>,
    lines: int,
    width: int,
) -> Seq<u32> {
    Seq::new(
        before.len(),
        |i: int|
            if i < lines * width {
                pattern_word(frame, i, width)
            } else {
                match frame {
                    PatternFrame::Black => 0,
                    PatternFrame::White => 0xffff_ffff,
                    _ => before[i],
                }
            },
    )
}

/// The length in bytes of the memory to map for a frame of `words` words: a whole number of pages.
pub open spec fn frame_map_len(words: int) -> int {
    (words * 4 + 4096) / 4096 * 4096
}

/// The frames of the pattern, in the order in which they are shown.
pub fn pattern_frames() -> (frames: [PatternFrame; 6])
    ensures
        frames@ == seq![
            PatternFrame::Black,
            PatternFrame::White,
            PatternFrame::Bars,
            PatternFrame::BarsSwapped,
            PatternFrame::Lines,
            PatternFrame::LinesSwapped,
        ],
{
    [
        PatternFrame::Black,
        PatternFrame::White,
        PatternFrame::Bars,
        PatternFrame::BarsSwapped,
        PatternFrame::Lines,
        PatternFrame::LinesSwapped,
    ]
}

/// The length in bytes of the memory to map for a frame of `words` words.
pub fn map_len(words: usize) -> (len: usize)
    requires
        words * 4 + 4096 <= usize::MAX,
    ensures
        len == frame_map_len(words as int),
{
    let n: usize = words * 4 + 4096;
    assert(n & !4095 == n / 4096 * 4096) by (bit_vector);
    n & !4095
}

/// Whether the pattern goes on at `now`, where it was to be shown for `duration` milliseconds from
/// `start` on.
pub fn pattern_goes_on(start: u64, now: u64, duration: usize) -> (more: bool)
    requires
        start <= now,
    ensures
        more == (now - start < duration),
{
    now - start < duration as u64
}

/// Copies as much of `source` as both have room for.
pub fn copy_frame(source: &[u32], target: &mut Vec<u32>)
    ensures
        final(target)@ == Seq::new(
            old(target)@.len(),
            |i: int|
                if i < source@.len() {
                    source@[i]
                } else {
                    old(target)@[i]
                },
        ),
{
    let ghost before = target@;
    let n: usize = source.len();
    let m: usize = target.len();
    let mut i: usize = 0;
    while i < n && i < m
        invariant
            i <= n,
            i <= m,
            n == source@.len(),
            m == before.len(),
            target@ =~= Seq::new(
                before.len(),
                |j: int|
                    if j < i {
                        source@[j]
                    } else {
                        before[j]
                    },
            ),
        decreases n - i,
    {
        target[i] = source[i];
        i = i + 1;
    }
}

/// Marks all lines of a frame as changed.
pub fn mark_all(frame: &mut Vec<u32>, lines: usize, width: usize)
    requires
        0 < width,
        lines * width <= old(frame)@.len(),
    ensures
        final(frame)@ == all_marked(old(frame)@, lines as int, width as int),
{
    let ghost before = frame@;
    let size: usize = frame.len();
    let mut line: usize = 0;
    let mut start: usize = 0;
    while line < lines
        invariant
            0 < width,
            line <= lines,
            lines * width <= before.len(),
            size == before.len(),
            start == line * width,
            frame@ == all_marked(before, line as int, width as int),
        decreases lines - line,
    {
        proof {
            lemma_line_end(line as int, lines as int, width as int);
        }
        let at: usize = start + (width - 1);
        let word: u32 = frame[at];
        frame[at] = word | DIRTY_BIT;
        proof {
            assert forall|i: int| 0 <= i < before.len() implies #[trigger] frame@[i] == all_marked(
                before,
                line + 1,
                width as int,
            )[i] by {
                lemma_line_of(i, line as int, width as int);
            }
            assert(frame@ =~= all_marked(before, line + 1, width as int));
        }
        start = start + width;
        line = line + 1;
    }
}

/// Sets all words to one value.
fn fill(frame: &mut Vec<u32>, word: u32)
    ensures
        final(frame)@ == Seq::new(old(frame)@.len(), |i: int| word),
{
    let ghost before = frame@;
    let n: usize = frame.len();
    let mut i: usize = 0;
    while i < n
        invariant
            i <= n,
            n == before.len(),
            frame@.len() == n,
            forall|j: int| 0 <= j < i ==> #[trigger] frame@[j] == word,
        decreases n - i,
    {
        frame[i] = word;
        i = i + 1;
    }
    assert(frame@ =~= Seq::new(before.len(), |i: int| word));
}

/// Sets all words of the lines, with one value for the lines of even number and one for the others.
fn fill_lines(frame: &mut Vec<u32>, lines: usize, width: usize, even: u32, odd: u32)
    requires
        0 < width,
        lines * width <= old(frame)@.len(),
    ensures
        final(frame)@ == Seq::new(
            old(frame)@.len(),
            |i: int|
                if i < lines * width {
                    if (i / width as int) % 2 == 0 {
                        even
                    } else {
                        odd
                    }
                } else {
                    old(frame)@[i]
                },
        ),
{
    let ghost before = frame@;
    let size: usize = frame.len();
    let mut line: usize = 0;
    let mut at: usize = 0;
    while line < lines
        invariant
            0 < width,
            line <= lines,
            lines * width <= before.len(),
            size == before.len(),
            frame@.len() == size,
            at == line * width,
            forall|i: int|
                0 <= i < at ==> #[trigger] frame@[i] == if (i / width as int) % 2 == 0 {
                    even
                } else {
                    odd
                },
            forall|i: int| at <= i < before.len() ==> #[trigger] frame@[i] == before[i],
        decreases lines - line,
    {
        proof {
            lemma_line_end(line as int, lines as int, width as int);
        }
        let word: u32 = if line % 2 == 0 {
            even
        } else {
            odd
        };
        let mut col: usize = 0;
        while col < width
            invariant
                0 < width,
                col <= width,
                size == before.len(),
                frame@.len() == size,
                at == line * width + col,
                line * width + width <= size,
                word == if line % 2 == 0 {
                    even
                } else {
                    odd
                },
                forall|i: int|
                    0 <= i < at ==> #[trigger] frame@[i] == if (i / width as int) % 2 == 0 {
                        even
                    } else {
                        odd
                    },
                forall|i: int| at <= i < before.len() ==> #[trigger] frame@[i] == before[i],
            decreases width - col,
        {
            proof {
                lemma_line_at(line as int, col as int, width as int);
            }
            frame[at] = word;
            at = at + 1;
            col = col + 1;
        }
        proof {
            assert((line + 1) * width == line * width + width) by (nonlinear_arith);
        }
        line = line + 1;
    }
    proof {
        assert(frame@ =~= Seq::new(
            before.len(),
            |i: int|
                if i < lines * width {
                    if (i / width as int) % 2 == 0 {
                        even
                    } else {
                        odd
                    }
                } else {
                    before[i]
                },
        ));
    }
}

/// Draws a frame of the pattern.
pub fn draw(frame: PatternFrame, memory: &mut Vec<u32>, lines: usize, width: usize)
    requires
        0 < width,
        lines * width <= old(memory)@.len(),
    ensures
        final(memory)@ == drawn(frame, old(memory)@, lines as int, width as int),
{
    let ghost before = memory@;
    assert(0u32 | DIRTY_BIT == DIRTY_BIT) by (bit_vector);
    match frame {
        PatternFrame::Black => {
            fill(memory, 0);
            mark_all(memory, lines, width);
        },
        PatternFrame::White => fill(memory, 0xffff_ffff),
        PatternFrame::Bars => fill_lines(memory, lines, width, 0xaaaa_aaaa, 0xaaaa_aaaa),
        PatternFrame::BarsSwapped => fill_lines(memory, lines, width, 0x5555_5555, 0x5555_5555),
        PatternFrame::Lines => {
            fill_lines(memory, lines, width, 0, 0xffff_ffff);
            mark_all(memory, lines, width);
        },
        PatternFrame::LinesSwapped => {
            fill_lines(memory, lines, width, 0xffff_ffff, 0);
            mark_all(memory, lines, width);
        },
    }
    assert(memory@ =~= drawn(frame, before, lines as int, width as int));
}

/// A line of a frame lies within it.
proof fn lemma_line_end(line: int, lines: int, width: int)
    requires
        0 <= line < lines,
        0 < width,
    ensures
        0 <= line * width,
        line * width + width <= lines * width,
        (line + 1) * width == line * width + width,
        ends_line(line * width + (width - 1), width),
{
    assert(line * width + width == (line + 1) * width) by (nonlinear_arith);
    assert((line + 1) * width <= lines * width) by (nonlinear_arith)
        requires
            line + 1 <= lines,
            0 < width,
    ;
    assert(0 <= line * width) by (nonlinear_arith)
        requires
            0 <= line,
            0 < width,
    ;
    lemma_line_at(line, width - 1, width);
}

/// The line and column of a word.
proof fn lemma_line_at(line: int, col: int, width: int)
    requires
        0 <= col < width,
    ensures
        (line * width + col) / width == line,
        (line * width + col) % width == col,
{
    vstd::arithmetic::div_mod::lemma_fundamental_div_mod_converse(
        line * width + col,
        width,
        line,
        col,
    );
}

/// The last word of a line is the only one that ends a line between the start of the line and that
/// of the next.
proof fn lemma_line_of(i: int, line: int, width: int)
    requires
        0 < width,
        0 <= i,
        0 <= line,
    ensures
        line * width <= i < (line + 1) * width && ends_line(i, width) <==> i == line * width + (
        width - 1),
        (line + 1) * width == line * width + width,
{
    assert((line + 1) * width == line * width + width) by (nonlinear_arith);
    if line * width <= i < (line + 1) * width {
        lemma_line_at(line, i - line * width, width);
        assert(line * width + (i - line * width) == i);
    }
    if i == line * width + (width - 1) {
        lemma_line_at(line, width - 1, width);
    }
}

/// The frame that was on the screen before the pattern is put back as it was, but for the marks:
/// every line is sent again.
pub proof fn law_marks_leave_pixels(frame: Seq<u32>, lines: int, width: int, i: int)
    requires
        0 < width,
        0 <= i < frame.len(),
    ensures
        all_marked(frame, lines, width)[i] | DIRTY_BIT == frame[i] | DIRTY_BIT,
        !ends_line(i, width) ==> all_marked(frame, lines, width)[i] == frame[i],
        i < lines * width && ends_line(i, width) ==> all_marked(frame, lines, width)[i] & DIRTY_BIT
            == DIRTY_BIT,
{
    let w = frame[i];
    assert((w | DIRTY_BIT) | DIRTY_BIT == w | DIRTY_BIT) by (bit_vector);
    assert((w | DIRTY_BIT) & DIRTY_BIT == DIRTY_BIT) by (bit_vector);
}

/// Each second frame of the bars and of the lines shows the opposite of the one before, but for
/// the marks.
pub proof fn law_swapped_frames_are_opposite(i: int, width: int)
    requires
        0 < width,
        0 <= i,
    ensures
        pattern_word(PatternFrame::BarsSwapped, i, width) == !pattern_word(
            PatternFrame::Bars,
            i,
            width,
        ),
        !ends_line(i, width) ==> pattern_word(PatternFrame::LinesSwapped, i, width)
            == !pattern_word(PatternFrame::Lines, i, width),
{
    assert(!0xaaaa_aaaau32 == 0x5555_5555u32) by (bit_vector);
    assert(!0xffff_ffffu32 == 0u32) by (bit_vector);
    assert(!0u32 == 0xffff_ffffu32) by (bit_vector);
}

/// The memory to map holds the frame, and is a whole number of pages.
pub proof fn law_map_holds_frame(words: int)
    requires
        0 <= words,
    ensures
        frame_map_len(words) > words * 4,
        frame_map_len(words) % 4096 == 0,
{
}

/// In all lines the last word is marked, that is its bit 16 is set, and the others stay.
pub proof fn law_last_words_are_marked(
    frame: Seq<u32>,
    lines: int,
    width: int,
    line: int,
    col: int,
)
    requires
        0 < width,
        0 <= lines,
        lines * width <= frame.len(),
        0 <= line < lines,
        0 <= col < width,
    ensures
        0 <= line * width + col < frame.len(),
        col == width - 1 ==> all_marked(frame, lines, width)[line * width + col]
            == frame[line * width + col] | 0x1_0000,
        col < width - 1 ==> all_marked(frame, lines, width)[line * width + col]
            == frame[line * width + col],
{
    lemma_line_at(line, col, width);
    lemma_line_end(line, lines, width);
}

/// Marking the lines leaves the memory behind them as it is, and all memory as long as it was.
pub proof fn law_marks_stay_in_lines(frame: Seq<u32>, lines: int, width: int, i: int)
    requires
        0 <= i,
    ensures
        all_marked(frame, lines, width).len() == frame.len(),
        lines * width <= i < frame.len() ==> all_marked(frame, lines, width)[i] == frame[i],
{
}

/// The frames, word by word. The word in column `col` of line `line` shows pixels of either color in
/// turn in the bars, and one color in the other frames, which for the lines depends on whether the
/// number of the line is even. Black and the lines set bit 16 of the last word of each line.
pub proof fn law_frames_word_by_word(
    before: Seq<u32>,
    lines: int,
    width: int,
    line: int,
    col: int,
)
    requires
        0 < width,
        lines * width <= before.len(),
        0 <= line < lines,
        0 <= col < width,
    ensures
        ({
            let i = line * width + col;
            let even = line % 2 == 0;
            let last = col == width - 1;
            &&& 0 <= i < before.len()
            &&& drawn(PatternFrame::Black, before, lines, width)[i] == if last {
                0x1_0000u32
            } else {
                0u32
            }
            &&& drawn(PatternFrame::White, before, lines, width)[i] == 0xffff_ffffu32
            &&& drawn(PatternFrame::Bars, before, lines, width)[i] == 0xaaaa_aaaau32
            &&& drawn(PatternFrame::BarsSwapped, before, lines, width)[i] == 0x5555_5555u32
            &&& !even ==> drawn(PatternFrame::Lines, before, lines, width)[i] == 0xffff_ffffu32
            &&& even && last ==> drawn(PatternFrame::Lines, before, lines, width)[i] == 0x1_0000u32
            &&& even && !last ==> drawn(PatternFrame::Lines, before, lines, width)[i] == 0u32
            &&& even ==> drawn(PatternFrame::LinesSwapped, before, lines, width)[i]
                == 0xffff_ffffu32
            &&& !even && last ==> drawn(PatternFrame::LinesSwapped, before, lines, width)[i]
                == 0x1_0000u32
            &&& !even && !last ==> drawn(PatternFrame::LinesSwapped, before, lines, width)[i]
                == 0u32
        }),
{
    lemma_line_at(line, col, width);
    lemma_line_end(line, lines, width);
    assert(0u32 | 0x1_0000u32 == 0x1_0000u32) by (bit_vector);
    assert(0xffff_ffffu32 | 0x1_0000u32 == 0xffff_ffffu32) by (bit_vector);
}

/// Behind the lines black and white fill the memory, and the other frames leave it as it was.
pub proof fn law_memory_behind_lines(before: Seq<u32>, lines: int, width: int, i: int)
    requires
        lines * width <= i < before.len(),
        0 <= i,
    ensures
        drawn(PatternFrame::Black, before, lines, width)[i] == 0,
        drawn(PatternFrame::White, before, lines, width)[i] == 0xffff_ffff,
        drawn(PatternFrame::Bars, before, lines, width)[i] == before[i],
        drawn(PatternFrame::BarsSwapped, before, lines, width)[i] == before[i],
        drawn(PatternFrame::Lines, before, lines, width)[i] == before[i],
        drawn(PatternFrame::LinesSwapped, before, lines, width)[i] == before[i],
{
}

/// A frame has the length of the memory that it is drawn in.
pub proof fn law_frames_keep_length(
    frame: PatternFrame,
    before: Seq<u32>,
    lines: int,
    width: int,
)
    ensures
        drawn(frame, before, lines, width).len() == before.len(),
{
}

/// No more than a page is mapped beyond the frame.
pub proof fn law_map_is_tight(words: int)
    requires
        0 <= words,
    ensures
        frame_map_len(words) <= words * 4 + 4096,
{
}

} // verus!
