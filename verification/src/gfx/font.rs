//! The memory that holds the fonts.

use vstd::prelude::*;

verus! {

/// The length of the trailer that follows the fonts.
pub const FONT_TRAILER_LEN: u32 = 8;

/// The size of a page of memory.
pub const PAGE_LEN: u32 = 0x1000;

/// The places of the fonts, from the start of the memory that holds them or as addresses.
#[derive(Clone, Copy, Debug, PartialEq, Eq, Structural)]
pub struct FontPlaces {
    pub emoji: usize,
    pub hanzi: usize,
    pub regular: usize,
    pub small: usize,
    pub bold: usize,
}

/// The length of the memory to map for fonts of `len` bytes with their trailer: a whole number of
/// pages. There is a page to spare where the fonts and trailer end on a page boundary.
pub open spec fn font_map_len(len: int) -> int {
    (len + FONT_TRAILER_LEN) / PAGE_LEN as int * PAGE_LEN + PAGE_LEN
}

/// The length of the memory to map for fonts of `total_len` bytes.
pub fn map_len(total_len: u32) -> (len: u32)
    requires
        font_map_len(total_len as int) <= u32::MAX,
    ensures
        len == font_map_len(total_len as int),
{
    let n: u32 = total_len + FONT_TRAILER_LEN;
    assert(n & 0xffff_f000 == n / 0x1000 * 0x1000) by (bit_vector);
    (n & 0xffff_f000) + PAGE_LEN
}

/// The addresses of the fonts in memory that starts at `base`.
pub fn font_addresses(base: usize, offsets: FontPlaces) -> (addresses: FontPlaces)
    requires
        base + offsets.emoji <= usize::MAX,
        base + offsets.hanzi <= usize::MAX,
        base + offsets.regular <= usize::MAX,
        base + offsets.small <= usize::MAX,
        base + offsets.bold <= usize::MAX,
    ensures
        addresses == (FontPlaces {
            emoji: (base + offsets.emoji) as usize,
            hanzi: (base + offsets.hanzi) as usize,
            regular: (base + offsets.regular) as usize,
            small: (base + offsets.small) as usize,
            bold: (base + offsets.bold) as usize,
        }),
{
    FontPlaces {
        emoji: base + offsets.emoji,
        hanzi: base + offsets.hanzi,
        regular: base + offsets.regular,
        small: base + offsets.small,
        bold: base + offsets.bold,
    }
}

/// The length of the part of the memory that can be read in bulk.
pub fn readable_len(total_len: u32) -> (len: u32)
    requires
        total_len + FONT_TRAILER_LEN <= u32::MAX,
    ensures
        len == total_len + FONT_TRAILER_LEN,
{
    total_len + FONT_TRAILER_LEN
}

/// A reader that hands out the memory piece by piece.
#[derive(Debug)]
pub struct BulkRead {
    /// The last piece.
    pub buf: Vec<u8>,
    /// Where the next piece starts.
    pub from_offset: u32,
    /// The length of the last piece. What follows it in the buffer has no meaning.
    pub len: u32,
}

/// The length of the piece from `from` on, of memory that can be read up to `end` and with a buffer
/// of `room` bytes.
pub open spec fn piece_len(from: int, end: int, room: int) -> int {
    if from >= end {
        0
    } else if end - from < room {
        end - from
    } else {
        room
    }
}

/// All pieces that the first `n` reads hand out, one after the other.
pub open spec fn pieces(memory: Seq<u8>, end: int, room: int, n: nat) -> Seq<u8>
    decreases n,
{
    if n == 0 {
        Seq::empty()
    } else {
        let front = pieces(memory, end, room, (n - 1) as nat);
        let from = front.len() as int;
        front + memory.subrange(from, from + piece_len(from, end, room))
    }
}

impl BulkRead {
    /// A reader at the start of the memory, with a buffer of `room` bytes.
    pub fn new(room: usize) -> (reader: Self)
        ensures
            reader.from_offset == 0,
            reader.len == 0,
            reader.buf@ == Seq::new(room as nat, |i: int| 0u8),
    {
        let mut buf: Vec<u8> = Vec::new();
        let mut i: usize = 0;
        while i < room
            invariant
                i <= room,
                buf@ =~= Seq::new(i as nat, |j: int| 0u8),
            decreases room - i,
        {
            buf.push(0);
            i = i + 1;
        }
        BulkRead { buf, from_offset: 0, len: 0 }
    }

    /// Goes back to the start. Returns the acknowledgement.
    pub fn restart(&mut self) -> (ack: usize)
        ensures
            *final(self) == (BulkRead { from_offset: 0, ..*old(self) }),
            ack == 0,
    {
        self.from_offset = 0;
        0
    }

    /// Reads the next piece of `memory`, of which the first `end` bytes can be read. Past the end
    /// the request is ignored: nothing changes, and the result is `false`.
    pub fn read(&mut self, memory: &[u8], end: u32) -> (done: bool)
        requires
            end <= memory@.len(),
            old(self).from_offset < end ==> old(self).from_offset + old(self).buf@.len()
                <= u32::MAX,
        ensures
            done == (old(self).from_offset < end),
            !done ==> *final(self) == *old(self),
            done ==> ({
                let from = old(self).from_offset as int;
                let n = piece_len(from, end as int, old(self).buf@.len() as int);
                &&& final(self).buf@ == memory@.subrange(from, from + n) + old(self).buf@.skip(n)
                &&& final(self).len == n
                &&& final(self).from_offset == from + n
            }),
    {
        if self.from_offset >= end {
            return false;
        }
        let from: usize = self.from_offset as usize;
        let room: usize = self.buf.len();
        let n: usize = if self.from_offset + room as u32 > end {
            end as usize - from
        } else {
            room
        };
        let ghost before = *self;
        let size: usize = memory.len();
        let mut i: usize = 0;
        while i < n
            invariant
                i <= n,
                n <= before.buf@.len(),
                from + n <= size,
                size == memory@.len(),
                *self == (BulkRead { buf: self.buf, ..before }),
                self.buf@ =~= memory@.subrange(from as int, from + i) + before.buf@.skip(i as int),
            decreases n - i,
        {
            self.buf[i] = memory[from + i];
            i = i + 1;
        }
        self.len = n as u32;
        self.from_offset = self.from_offset + n as u32;
        true
    }
}

/// The memory to map holds the fonts with their trailer, and is a whole number of pages.
pub proof fn law_map_holds_fonts(len: int)
    requires
        0 <= len,
    ensures
        font_map_len(len) > len + FONT_TRAILER_LEN,
        font_map_len(len) <= len + FONT_TRAILER_LEN + PAGE_LEN,
        font_map_len(len) % PAGE_LEN as int == 0,
{
    let n = len + FONT_TRAILER_LEN;
    vstd::arithmetic::div_mod::lemma_fundamental_div_mod(n, PAGE_LEN as int);
    assert(font_map_len(len) == PAGE_LEN * (n / PAGE_LEN as int + 1)) by (nonlinear_arith)
        requires
            font_map_len(len) == n / PAGE_LEN as int * PAGE_LEN + PAGE_LEN,
    ;
    vstd::arithmetic::div_mod::lemma_mod_multiples_basic(n / PAGE_LEN as int + 1, PAGE_LEN as int);
    assert(PAGE_LEN * (n / PAGE_LEN as int + 1) == (n / PAGE_LEN as int + 1) * PAGE_LEN)
        by (nonlinear_arith);
}

/// Reads one after the other hand out the memory from its start on, in order and without a gap, up
/// to its end.
pub proof fn law_reads_hand_out_memory(memory: Seq<u8>, end: int, room: int, n: nat)
    requires
        0 <= end <= memory.len(),
        0 <= room,
    ensures
        pieces(memory, end, room, n) == memory.take(
            if n * room < end {
                n * room
            } else {
                end
            },
        ),
    decreases n,
{
    if n == 0 {
        assert(n * room == 0) by (nonlinear_arith)
            requires
                n == 0,
        ;
        assert(pieces(memory, end, room, n) =~= memory.take(0));
    } else {
        let m = (n - 1) as nat;
        law_reads_hand_out_memory(memory, end, room, m);
        assert(n * room == m * room + room) by (nonlinear_arith)
            requires
                n == m + 1,
        ;
        assert(m * room >= 0) by (nonlinear_arith)
            requires
                room >= 0,
        ;
        let front = pieces(memory, end, room, m);
        let from = front.len() as int;
        assert(pieces(memory, end, room, n) =~= memory.take(
            from + piece_len(from, end, room),
        ));
    }
}

/// A piece fills the buffer while there is enough to read, and is otherwise all that is left.
pub proof fn law_pieces_are_as_long_as_they_can_be(from: int, end: int, room: int)
    requires
        0 <= from,
        0 <= room,
    ensures
        from + room <= end ==> piece_len(from, end, room) == room,
        from <= end <= from + room ==> piece_len(from, end, room) == end - from,
        end <= from ==> piece_len(from, end, room) == 0,
{
}

} // verus!
