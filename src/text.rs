//! Text console: a screen of character cells written like a terminal.
//!
//! Output goes to the bottom row; a full row or a newline scrolls the screen
//! up by one row. The screen is kept here as rows of cells; whoever owns the
//! display copies the cells to it.
use crate::devices::BufferSize;
use vstd::prelude::*;

verus! {

/// One character cell: an ASCII byte and its colour attribute.
#[derive(Debug, Clone, Copy, PartialEq, Eq, Structural)]
pub struct ScreenChar {
    pub byte: u8,
    pub color: u8,
}

/// The byte shown for a character that the text mode cannot display.
pub const REPLACEMENT: u8 = 0xfe;

/// A row of `n` blank cells of colour `color`.
pub open spec fn blank_row(n: nat, color: u8) -> Seq<ScreenChar> {
    Seq::new(n, |i: int| ScreenChar { byte: 0x20, color })
}

/// The screen scrolled up by one row, with a blank bottom row.
pub open spec fn scrolled_up(rows: Seq<Seq<ScreenChar>>, width: nat, color: u8) -> Seq<Seq<ScreenChar>> {
    rows.drop_first().push(blank_row(width, color))
}

/// The screen scrolled down by one row, with a blank top row.
pub open spec fn scrolled_down(rows: Seq<Seq<ScreenChar>>, width: nat, color: u8) -> Seq<Seq<ScreenChar>> {
    seq![blank_row(width, color)].add(rows.drop_last())
}

/// The screen with cell `x` of the bottom row set to `c`.
pub open spec fn put_last(rows: Seq<Seq<ScreenChar>>, x: int, c: ScreenChar) -> Seq<Seq<ScreenChar>> {
    rows.update(rows.len() - 1, rows.last().update(x, c))
}

/// The byte written for byte `b` of a string.
pub open spec fn shown(b: u8) -> u8 {
    if (0x20 <= b && b <= 0x7e) || b == 0x0a || b == 0x08 {
        b
    } else {
        REPLACEMENT
    }
}

/// Screen and column after writing byte `b` with colour `color` on a screen
/// `width` cells wide whose bottom row's next free column is `x`.
pub open spec fn after_byte(rows: Seq<Seq<ScreenChar>>, x: nat, width: nat, color: u8, b: u8) -> (
    Seq<Seq<ScreenChar>>,
    nat,
) {
    if b == 0x0a {
        (scrolled_up(rows, width, color), 0)
    } else if b == 0x08 {
        let (r1, x1) = if x == 0 {
            (scrolled_down(rows, width, color), width)
        } else {
            (rows, x)
        };
        (put_last(r1, x1 - 1, ScreenChar { byte: 0x20, color }), (x1 - 1) as nat)
    } else {
        let (r1, x1) = if x >= width {
            (scrolled_up(rows, width, color), 0nat)
        } else {
            (rows, x)
        };
        (put_last(r1, x1 as int, ScreenChar { byte: b, color }), x1 + 1)
    }
}

/// Screen and column after writing the bytes `bs`, each shown as `shown`
/// says.
pub open spec fn after_bytes(rows: Seq<Seq<ScreenChar>>, x: nat, width: nat, color: u8, bs: Seq<u8>) -> (
    Seq<Seq<ScreenChar>>,
    nat,
)
    decreases bs.len(),
{
    if bs.len() == 0 {
        (rows, x)
    } else {
        let (r1, x1) = after_bytes(rows, x, width, color, bs.drop_last());
        after_byte(r1, x1, width, color, shown(bs.last()))
    }
}

/// A text console of `size` cells.
pub struct Writer {
    x_pos: usize,
    color: u8,
    size: BufferSize,
    rows: Vec<Vec<ScreenChar>>,
}

impl Writer {
    /// The rows of cells, top first.
    pub closed spec fn screen(&self) -> Seq<Seq<ScreenChar>> {
        self.rows@.map_values(|r: Vec<ScreenChar>| r@)
    }

    /// The bottom row's next free column.
    pub closed spec fn column(&self) -> nat {
        self.x_pos as nat
    }

    /// The colour attribute of written characters.
    pub closed spec fn spec_color(&self) -> u8 {
        self.color
    }

    /// The size of the screen.
    pub closed spec fn spec_size(&self) -> BufferSize {
        self.size
    }

    /// The screen has `size.y` rows of `size.x` cells, both positive, and the
    /// column lies within the row or just past it.
    pub open spec fn wf(&self) -> bool {
        &&& self.spec_size().x > 0
        &&& self.spec_size().y > 0
        &&& self.screen().len() == self.spec_size().y
        &&& forall|y: int| 0 <= y < self.screen().len() ==> (#[trigger] self.screen()[y]).len() == self.spec_size().x
        &&& self.column() <= self.spec_size().x
    }

    proof fn lemma_screen(&self)
        ensures
            self.screen().len() == self.rows@.len(),
            forall|y: int| 0 <= y < self.rows@.len() ==> #[trigger] self.screen()[y] == self.rows@[y]@,
    {
    }

    /// A blank screen of `size` cells written in colour `color`.
    pub fn new(size: BufferSize, color: u8) -> (r: Self)
        requires
            size.x > 0,
            size.y > 0,
        ensures
            r.wf(),
            r.spec_size() == size,
            r.spec_color() == color,
            r.column() == 0,
            r.screen() == Seq::new(size.y as nat, |y: int| blank_row(size.x as nat, color)),
    {
        let mut rows: Vec<Vec<ScreenChar>> = Vec::new();
        let mut y: usize = 0;
        while y < size.y
            invariant
                y <= size.y,
                rows@.len() == y,
                forall|i: int| 0 <= i < y ==> (#[trigger] rows@[i])@ == blank_row(size.x as nat, color),
            decreases size.y - y,
        {
            rows.push(blank_row_of(size.x, color));
            y += 1;
        }
        let r = Writer { x_pos: 0, color, size, rows };
        proof {
            r.lemma_screen();
            assert(r.screen() =~= Seq::new(size.y as nat, |y: int| blank_row(size.x as nat, color)));
        }
        r
    }

    /// Sets the colour attribute of characters written from now on.
    pub fn set_color(&mut self, color: u8)
        ensures
            final(self).spec_color() == color,
            final(self).screen() == old(self).screen(),
            final(self).column() == old(self).column(),
            final(self).spec_size() == old(self).spec_size(),
    {
        self.color = color;
    }

    /// The cell at column `x` of row `y`.
    pub fn cell(&self, x: usize, y: usize) -> (r: ScreenChar)
        requires
            self.wf(),
            x < self.spec_size().x,
            y < self.spec_size().y,
        ensures
            r == self.screen()[y as int][x as int],
    {
        proof {
            self.lemma_screen();
            assert(self.screen()[y as int].len() == self.spec_size().x);
        }
        self.rows[y][x]
    }

    /// The bottom row's next free column, where the cursor stands.
    pub fn x_pos(&self) -> (r: usize)
        ensures
            r == self.column(),
    {
        self.x_pos
    }

    /// Overwrites row `y` with blank cells.
    pub fn clear_line(&mut self, y: usize)
        requires
            old(self).wf(),
            y < old(self).spec_size().y,
        ensures
            final(self).wf(),
            final(self).screen() == old(self).screen().update(
                y as int,
                blank_row(old(self).spec_size().x as nat, old(self).spec_color()),
            ),
            final(self).column() == old(self).column(),
            final(self).spec_color() == old(self).spec_color(),
            final(self).spec_size() == old(self).spec_size(),
    {
        proof {
            self.lemma_screen();
        }
        let mut blank = blank_row_of(self.size.x, self.color);
        self.rows.set_and_swap(y, &mut blank);
        proof {
            self.lemma_screen();
            assert(self.screen() =~= old(self).screen().update(
                y as int,
                blank_row(old(self).spec_size().x as nat, old(self).spec_color()),
            ));
        }
    }

    /// Blanks the whole screen.
    pub fn clear_screen(&mut self)
        requires
            old(self).wf(),
        ensures
            final(self).wf(),
            final(self).screen() == Seq::new(
                old(self).spec_size().y as nat,
                |y: int| blank_row(old(self).spec_size().x as nat, old(self).spec_color()),
            ),
            final(self).column() == old(self).column(),
            final(self).spec_color() == old(self).spec_color(),
            final(self).spec_size() == old(self).spec_size(),
    {
        let mut y: usize = 0;
        while y < self.size.y
            invariant
                self.wf(),
                y <= self.spec_size().y,
                self.column() == old(self).column(),
                self.spec_color() == old(self).spec_color(),
                self.spec_size() == old(self).spec_size(),
                forall|i: int| 0 <= i < y ==> #[trigger] self.screen()[i] == blank_row(
                    old(self).spec_size().x as nat,
                    old(self).spec_color(),
                ),
            decreases self.spec_size().y - y,
        {
            self.clear_line(y);
            y += 1;
        }
        assert(self.screen() =~= Seq::new(
            old(self).spec_size().y as nat,
            |y: int| blank_row(old(self).spec_size().x as nat, old(self).spec_color()),
        ));
    }

    /// Shifts every row up by one, blanks the bottom row and moves to its
    /// start.
    pub fn new_line(&mut self)
        requires
            old(self).wf(),
        ensures
            final(self).wf(),
            final(self).screen() == scrolled_up(
                old(self).screen(),
                old(self).spec_size().x as nat,
                old(self).spec_color(),
            ),
            final(self).column() == 0,
            final(self).spec_color() == old(self).spec_color(),
            final(self).spec_size() == old(self).spec_size(),
    {
        proof {
            self.lemma_screen();
        }
        self.rows.remove(0);
        self.rows.push(blank_row_of(self.size.x, self.color));
        self.x_pos = 0;
        proof {
            self.lemma_screen();
            assert(self.screen() =~= scrolled_up(
                old(self).screen(),
                old(self).spec_size().x as nat,
                old(self).spec_color(),
            ));
        }
    }

    /// Shifts every row down by one, blanks the top row and moves past the
    /// end of the bottom row.
    pub fn del_line(&mut self)
        requires
            old(self).wf(),
        ensures
            final(self).wf(),
            final(self).screen() == scrolled_down(
                old(self).screen(),
                old(self).spec_size().x as nat,
                old(self).spec_color(),
            ),
            final(self).column() == old(self).spec_size().x,
            final(self).spec_color() == old(self).spec_color(),
            final(self).spec_size() == old(self).spec_size(),
    {
        proof {
            self.lemma_screen();
        }
        self.rows.pop();
        self.rows.insert(0, blank_row_of(self.size.x, self.color));
        self.x_pos = self.size.x;
        proof {
            self.lemma_screen();
            assert(self.screen() =~= scrolled_down(
                old(self).screen(),
                old(self).spec_size().x as nat,
                old(self).spec_color(),
            ));
        }
    }

    /// Sets cell `x` of the bottom row.
    fn put(&mut self, x: usize, c: ScreenChar)
        requires
            old(self).wf(),
            x < old(self).spec_size().x,
        ensures
            final(self).wf(),
            final(self).screen() == put_last(old(self).screen(), x as int, c),
            final(self).column() == old(self).column(),
            final(self).spec_color() == old(self).spec_color(),
            final(self).spec_size() == old(self).spec_size(),
    {
        proof {
            self.lemma_screen();
        }
        let last = self.size.y - 1;
        let mut row: Vec<ScreenChar> = Vec::new();
        proof {
            assert(old(self).screen()[last as int].len() == old(self).spec_size().x);
        }
        self.rows.set_and_swap(last, &mut row);
        row.set(x, c);
        self.rows.set_and_swap(last, &mut row);
        proof {
            self.lemma_screen();
            assert(self.screen() =~= put_last(old(self).screen(), x as int, c));
        }
    }

    /// Blanks the character before the column and moves back onto it; at the
    /// start of the row the screen first scrolls down.
    pub fn backspace(&mut self)
        requires
            old(self).wf(),
        ensures
            final(self).wf(),
            (final(self).screen(), final(self).column()) == after_byte(
                old(self).screen(),
                old(self).column(),
                old(self).spec_size().x as nat,
                old(self).spec_color(),
                0x08,
            ),
            final(self).spec_color() == old(self).spec_color(),
            final(self).spec_size() == old(self).spec_size(),
    {
        if self.x_pos == 0 {
            self.del_line();
        }
        self.x_pos = self.x_pos - 1;
        let blank = ScreenChar { byte: 0x20, color: self.color };
        self.put(self.x_pos, blank);
    }

    /// Writes one byte: a newline scrolls, a backspace erases, any other byte
    /// is written at the column, after scrolling if the row is full.
    pub fn write_byte(&mut self, byte: u8)
        requires
            old(self).wf(),
        ensures
            final(self).wf(),
            (final(self).screen(), final(self).column()) == after_byte(
                old(self).screen(),
                old(self).column(),
                old(self).spec_size().x as nat,
                old(self).spec_color(),
                byte,
            ),
            final(self).spec_color() == old(self).spec_color(),
            final(self).spec_size() == old(self).spec_size(),
    {
        if byte == 0x0a {
            self.new_line();
        } else if byte == 0x08 {
            self.backspace();
        } else {
            if self.x_pos >= self.size.x {
                self.new_line();
            }
            let c = ScreenChar { byte, color: self.color };
            self.put(self.x_pos, c);
            self.x_pos = self.x_pos + 1;
        }
    }

    /// Writes the bytes of an ASCII string; bytes the text mode cannot show
    /// are written as `REPLACEMENT`.
    pub fn write_string(&mut self, s: &[u8])
        requires
            old(self).wf(),
        ensures
            final(self).wf(),
            (final(self).screen(), final(self).column()) == after_bytes(
                old(self).screen(),
                old(self).column(),
                old(self).spec_size().x as nat,
                old(self).spec_color(),
                s@,
            ),
            final(self).spec_color() == old(self).spec_color(),
            final(self).spec_size() == old(self).spec_size(),
    {
        let mut i: usize = 0;
        while i < s.len()
            invariant
                self.wf(),
                i <= s@.len(),
                self.spec_color() == old(self).spec_color(),
                self.spec_size() == old(self).spec_size(),
                (self.screen(), self.column()) == after_bytes(
                    old(self).screen(),
                    old(self).column(),
                    old(self).spec_size().x as nat,
                    old(self).spec_color(),
                    s@.subrange(0, i as int),
                ),
            decreases s@.len() - i,
        {
            let b = s[i];
            let shown_byte = if (0x20 <= b && b <= 0x7e) || b == 0x0a || b == 0x08 {
                b
            } else {
                REPLACEMENT
            };
            proof {
                assert(s@.subrange(0, i + 1).drop_last() =~= s@.subrange(0, i as int));
            }
            self.write_byte(shown_byte);
            i += 1;
        }
        assert(s@.subrange(0, s@.len() as int) =~= s@);
    }
}

/// Sets the colour of characters that `writer` writes from now on.
pub fn change_writer_color(writer: &mut Writer, color: u8)
    ensures
        final(writer).spec_color() == color,
        final(writer).screen() == old(writer).screen(),
        final(writer).column() == old(writer).column(),
        final(writer).spec_size() == old(writer).spec_size(),
{
    writer.set_color(color);
}

/// A row of `n` blank cells of colour `color`.
fn blank_row_of(n: usize, color: u8) -> (r: Vec<ScreenChar>)
    ensures
        r@ == blank_row(n as nat, color),
{
    let mut r: Vec<ScreenChar> = Vec::new();
    let mut i: usize = 0;
    while i < n
        invariant
            i <= n,
            r@ =~= blank_row(i as nat, color),
        decreases n - i,
    {
        r.push(ScreenChar { byte: 0x20, color });
        i += 1;
    }
    r
}

} // verus!
