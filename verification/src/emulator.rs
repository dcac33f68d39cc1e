//! The terminal emulator that mirrors a streamed screen, from the `vt100` crate.
use vstd::prelude::*;

verus! {

/// What the library itself tells an emulator to do, beside the output it is
/// given.
#[derive(Debug, Clone, Copy)]
pub enum Order {
    /// To the start of the next line; on the last line the screen scrolls.
    NewLine,
    /// To the last column.
    LastColumn,
    /// To the given line and column, counted from one.
    Place(u16, u16),
    /// To the alternate screen, or back to the main one.
    Alternate(bool),
    /// To the last column of the given line, counted from one, and to put a
    /// blank there.
    ClearEdge(u16),
}

/// Something that happened to an emulator.
pub enum Event {
    /// The screen was set to so many rows and columns.
    Size(u16, u16),
    /// A byte of output was drawn.
    Byte(u8),
    /// A byte of output was read, and left the screen as it was.
    Unseen(u8),
    /// The library told the screen to do something.
    Ordered(Order),
}

/// All that happened to an emulator, oldest first.
pub type Fed = Seq<Event>;

/// The size of a screen as the first entry of a history.
pub open spec fn sized(rows: u16, cols: u16) -> Event {
    Event::Size(rows, cols)
}

/// Output that is drawn as it comes.
pub open spec fn drawn(bytes: Seq<u8>) -> Fed {
    bytes.map_values(|b: u8| Event::Byte(b))
}

/// Most columns of a screen on which a tab stop behind the last one still has
/// a number.
pub const MAX_COLS: u16 = 65527;

/// Cells that the widest character takes.
pub const WIDEST: u16 = 3;

/// The last size that a screen was given, rows first.
pub open spec fn last_size(fed: Fed) -> Option<(u16, u16)>
    decreases fed.len(),
{
    if fed.len() == 0 {
        None
    } else {
        match fed.last() {
            Event::Size(rows, cols) => Some((rows, cols)),
            _ => last_size(fed.drop_last()),
        }
    }
}

/// The bytes of output that an emulator has read.
pub open spec fn seen(fed: Fed) -> Seq<u8>
    decreases fed.len(),
{
    if fed.len() == 0 {
        Seq::empty()
    } else {
        match fed.last() {
            Event::Byte(b) => seen(fed.drop_last()).push(b),
            Event::Unseen(b) => seen(fed.drop_last()).push(b),
            _ => seen(fed.drop_last()),
        }
    }
}

/// The bytes of output that were drawn.
pub open spec fn shown(fed: Fed) -> Seq<u8>
    decreases fed.len(),
{
    if fed.len() == 0 {
        Seq::empty()
    } else {
        match fed.last() {
            Event::Byte(b) => shown(fed.drop_last()).push(b),
            _ => shown(fed.drop_last()),
        }
    }
}

/// `cols` columns are fewer than the screen has.
pub open spec fn narrower(fed: Fed, cols: u16) -> bool {
    last_size(fed) matches Some((_, was)) && cols < was
}

/// On neither grid does a character start in the last column and want the one
/// behind it too.
pub open spec fn clean(fed: Fed) -> bool {
    &&& last_size(fed) matches Some((_, cols)) && cols >= 1 && forall|alternate: bool, i: int|
        0 <= i < wide_rows(fed, alternate, (cols - 1) as u16).len() ==> !#[trigger] wide_rows(
            fed,
            alternate,
            (cols - 1) as u16,
        )[i]
}

/// The screen was clean when it last became narrower, or some time after.
/// Nothing but a smaller width cuts a character in two, so it is clean still.
pub open spec fn tidy(fed: Fed) -> bool
    decreases fed.len(),
{
    &&& fed.len() > 0
    &&& clean(fed) || match fed.last() {
        Event::Size(_, cols) => fed.len() == 1 || (tidy(fed.drop_last()) && !narrower(
            fed.drop_last(),
            cols,
        )),
        _ => tidy(fed.drop_last()),
    }
}

// --------------------------------------------------------------------- reader

/// A `vt100::Parser` that tells what a byte of output means, whatever screen it
/// is for.
#[verifier::external_body]
pub struct Reader {
    parser: vt100::Parser,
}

/// The bytes that a reader has read.
pub uninterp spec fn reader_read(r: Reader) -> Seq<u8>;

/// What `byte`, read behind `before`, does to a blank screen of two rows and four
/// columns with the cursor in the third column of the first row: whether there
/// is a character in that cell, whether there is one in the first cell of the
/// second row, and the column of the cursor, counted from zero.
pub uninterp spec fn probed(before: Seq<u8>, byte: u8) -> (bool, bool, u16);

impl Reader {
    /// `vt100::Parser::new`. The contract says that nothing was read yet.
    #[verifier::external_body]
    pub(crate) fn new() -> (r: Reader)
        ensures
            reader_read(r) == Seq::<u8>::empty(),
    {
        Reader { parser: vt100::Parser::new(2, 4, 0) }
    }

    /// `vt100::Parser::process` with one byte, on a screen of two rows and four
    /// columns that keeps its size, which takes any output. The contract says
    /// that the byte was read.
    #[verifier::external_body]
    pub(crate) fn follow(&mut self, byte: u8)
        ensures
            reader_read(*final(self)) == reader_read(*old(self)).push(byte),
    {
        self.parser.process(&[byte])
    }

    /// `vt100::Parser::process` with one byte, on a screen of two rows and four
    /// columns that was just made; `Screen::cell`, `Cell::has_contents` and
    /// `Screen::cursor_position` tell what became of it. The contract says that
    /// this depends on nothing but the bytes that were read.
    #[verifier::external_body]
    pub(crate) fn probe(&mut self, byte: u8) -> (found: (bool, bool, u16))
        ensures
            reader_read(*final(self)) == reader_read(*old(self)).push(byte),
            found == probed(reader_read(*old(self)), byte),
    {
        let mut blank = vt100::Parser::new(2, 4, 0);
        blank.process(b"\x1b[3G");
        std::mem::swap(self.parser.screen_mut(), blank.screen_mut());
        self.parser.process(&[byte]);
        let screen = self.parser.screen();
        (
            screen.cell(0, 2).is_some_and(|c| c.has_contents()),
            screen.cell(1, 0).is_some_and(|c| c.has_contents()),
            screen.cursor_position().1,
        )
    }
}

/// How many columns the character takes that a byte completes, by what the byte
/// does to a blank screen; none where it completes no character. In that screen
/// a character of three columns goes to the second row. A byte of ASCII
/// completes nothing but itself.
pub open spec fn width_found(found: (bool, bool, u16), byte: u8) -> int {
    if !found.0 && !found.1 {
        0
    } else if byte < 0x80 || (found.0 && found.2 == 3) {
        1
    } else if found.0 {
        2
    } else {
        3
    }
}

/// How many columns the character takes that `byte` completes behind `before`.
pub open spec fn columns(before: Seq<u8>, byte: u8) -> int {
    width_found(probed(before, byte), byte)
}

/// Whether `byte`, read behind `before`, moves the cursor to the next tab stop.
pub open spec fn tabs(before: Seq<u8>, byte: u8) -> bool {
    byte == 9 && probed(before, byte).2 == 3
}

// ------------------------------------------------------------------- emulator

/// A `vt100::Screen`.
#[verifier::external_type_specification]
#[verifier::external_body]
pub struct ExScreen(vt100::Screen);

/// All that happened to a screen.
pub uninterp spec fn screen_fed(s: vt100::Screen) -> Seq<Event>;

/// A `vt100::Parser` without scrollback.
#[verifier::external_body]
pub struct Emulator {
    parser: vt100::Parser,
}

/// All that happened to an emulator since it was made.
pub uninterp spec fn emulator_fed(e: Emulator) -> Seq<Event>;

/// The bytes that `vt100::Screen::contents_formatted` writes for the screen
/// of an emulator to which `fed` happened.
pub uninterp spec fn formatted_screen(fed: Seq<Event>) -> Seq<u8>;

/// Row and column of the cursor, counted from zero, after `fed`. Behind the last
/// column the column is the number of columns.
pub uninterp spec fn cursor_at(fed: Seq<Event>) -> (u16, u16);

/// Whether the alternate screen is in use after `fed`.
pub uninterp spec fn on_alternate(fed: Seq<Event>) -> bool;

/// For each row of the alternate or of the main screen, whether a character of
/// more than one column starts in column `col` after `fed`.
pub uninterp spec fn wide_rows(fed: Seq<Event>, alternate: bool, col: u16) -> Seq<bool>;

impl View for Emulator {
    type V = Fed;

    open spec fn view(&self) -> Fed {
        emulator_fed(*self)
    }
}

/// A byte that a screen can take as it is: the screen is tidy and wide enough for
/// the character that the byte completes; on a screen of one row the character
/// does not wrap; and a tab finds a number for its stop.
pub open spec fn takes(fed: Fed, byte: u8) -> bool {
    &&& tidy(fed)
    &&& last_size(fed) matches Some((rows, cols)) && cols >= 1 && {
        let w = columns(seen(fed), byte);
        &&& w <= cols
        &&& rows >= 2 || w == 0 || cursor_at(fed).1 + w <= cols
        &&& tabs(seen(fed), byte) ==> cols <= MAX_COLS || cursor_at(fed).1 <= MAX_COLS
    }
}

/// Wide characters start where they did.
pub open spec fn same_cells(before: Fed, after: Fed) -> bool {
    forall|alternate: bool, col: u16| #[trigger]
        wide_rows(after, alternate, col) == wide_rows(before, alternate, col)
}

/// On the screen in use no wide character starts in the last column of the given
/// line any more; the other rows and the other screen are as before.
pub open spec fn edge_cleared(before: Fed, after: Fed, line: u16) -> bool {
    match last_size(before) {
        Some((_, cols)) => forall|alternate: bool| #[trigger]
            wide_rows(after, alternate, (cols - 1) as u16) == (if alternate == on_alternate(before) {
                wide_rows(before, alternate, (cols - 1) as u16).update(line - 1, false)
            } else {
                wide_rows(before, alternate, (cols - 1) as u16)
            }),
        None => false,
    }
}

/// What an order brings about.
pub open spec fn obeyed(before: Fed, after: Fed, order: Order) -> bool {
    match order {
        Order::NewLine => cursor_at(after).1 == 0,
        Order::LastColumn => true,
        Order::Place(_, _) => {
            &&& on_alternate(after) == on_alternate(before)
            &&& same_cells(before, after)
        },
        Order::Alternate(on) => {
            &&& on_alternate(after) == on
            &&& same_cells(before, after)
        },
        Order::ClearEdge(line) => {
            &&& on_alternate(after) == on_alternate(before)
            &&& edge_cleared(before, after, line)
        },
    }
}

impl Emulator {
    /// `vt100::Parser::new`, with no scrollback. A screen without rows or
    /// columns makes it panic. The contract says that the emulator was given
    /// its size and nothing else.
    #[verifier::external_body]
    pub(crate) fn new(rows: u16, cols: u16) -> (e: Emulator)
        requires
            rows >= 1,
            cols >= 1,
        ensures
            emulator_fed(e) == seq![sized(rows, cols)],
    {
        Emulator { parser: vt100::Parser::new(rows, cols, 0) }
    }

    /// `vt100::Parser::process` with one byte. It panics where a character wraps
    /// on a screen of one row, where a character is wider than the screen, where
    /// output touches a character that a smaller width cut in two, and where a
    /// tab leaves the range of column numbers; the condition keeps these out.
    /// The contract says that the byte was drawn.
    #[verifier::external_body]
    pub(crate) fn process(&mut self, byte: u8)
        requires
            takes(emulator_fed(*old(self)), byte),
        ensures
            emulator_fed(*final(self)) == emulator_fed(*old(self)).push(Event::Byte(byte)),
    {
        self.parser.process(&[byte])
    }

    /// `vt100::Parser::process` with one byte while another screen stands in for
    /// this one, blank and of a size that takes any output. The contract says that
    /// the byte was read and not drawn.
    #[verifier::external_body]
    pub(crate) fn skip(&mut self, byte: u8)
        ensures
            emulator_fed(*final(self)) == emulator_fed(*old(self)).push(Event::Unseen(byte)),
    {
        let mut other = vt100::Parser::new(2, 4, 0);
        std::mem::swap(self.parser.screen_mut(), other.screen_mut());
        self.parser.process(&[byte]);
        std::mem::swap(self.parser.screen_mut(), other.screen_mut());
    }

    /// `vt100::Parser::process` with the control sequences of an order, by a
    /// parser of its own that the screen is lent to, so that a sequence that has
    /// begun in the output goes on afterwards. The contract says that the order
    /// was given, and of the orders: a new line starts in the first column; one
    /// about the alternate screen is obeyed, and both screens stay as they are;
    /// a cleared edge holds no wide character any more, and no other row nor the
    /// other screen changes; placing the cursor changes no cell.
    #[verifier::external_body]
    pub(crate) fn order(&mut self, order: Order)
        requires
            match order {
                Order::Place(line, col) => line >= 1 && col >= 1,
                Order::ClearEdge(line) => last_size(emulator_fed(*old(self))) matches Some(
                    (rows, _),
                ) && 1 <= line <= rows,
                _ => true,
            },
        ensures
            emulator_fed(*final(self)) == emulator_fed(*old(self)).push(Event::Ordered(order)),
            obeyed(emulator_fed(*old(self)), emulator_fed(*final(self)), order),
    {
        let sequence = match order {
            Order::NewLine => "\r\n".to_string(),
            Order::LastColumn => "\x1b[65535G".to_string(),
            Order::Place(line, col) => format!("\x1b[{line}d\x1b[{col}G"),
            Order::Alternate(true) => "\x1b[?47h".to_string(),
            Order::Alternate(false) => "\x1b[?47l".to_string(),
            Order::ClearEdge(line) => format!("\x1b[{line}d\x1b[65535G\x1b[@"),
        };
        let mut other = vt100::Parser::new(1, 1, 0);
        std::mem::swap(self.parser.screen_mut(), other.screen_mut());
        other.process(sequence.as_bytes());
        std::mem::swap(self.parser.screen_mut(), other.screen_mut());
    }

    /// `vt100::Screen::set_size`. A screen without rows or columns makes it
    /// panic. The contract says that the size is the last thing that happened to
    /// the emulator.
    #[verifier::external_body]
    pub(crate) fn set_size(&mut self, rows: u16, cols: u16)
        requires
            rows >= 1,
            cols >= 1,
        ensures
            emulator_fed(*final(self)) == emulator_fed(*old(self)).push(sized(rows, cols)),
    {
        self.parser.screen_mut().set_size(rows, cols)
    }

    /// `vt100::Screen::contents_formatted`. The contract says that the dump
    /// depends on nothing but what happened to the emulator.
    #[verifier::external_body]
    pub(crate) fn contents_formatted(&self) -> (dump: Vec<u8>)
        ensures
            dump@ == formatted_screen(emulator_fed(*self)),
    {
        self.parser.screen().contents_formatted()
    }

    /// `vt100::Screen::cursor_position`. The contract says that it depends on
    /// nothing but what happened to the emulator.
    #[verifier::external_body]
    pub(crate) fn cursor_position(&self) -> (pos: (u16, u16))
        ensures
            pos == cursor_at(emulator_fed(*self)),
    {
        self.parser.screen().cursor_position()
    }

    /// `vt100::Screen::alternate_screen`. The contract says that it depends on
    /// nothing but what happened to the emulator.
    #[verifier::external_body]
    pub(crate) fn alternate_screen(&self) -> (on: bool)
        ensures
            on == on_alternate(emulator_fed(*self)),
    {
        self.parser.screen().alternate_screen()
    }

    /// `vt100::Cell::is_wide` of the cells of a column, on a copy of the screen
    /// that was switched to the main or to the alternate screen. The contract
    /// says that there is one answer for each row, and that the answers depend
    /// on nothing but what happened to the emulator.
    #[verifier::external_body]
    pub(crate) fn wide_in_column(&self, alternate: bool, col: u16) -> (wide: Vec<bool>)
        ensures
            wide@ == wide_rows(emulator_fed(*self), alternate, col),
            last_size(emulator_fed(*self)) matches Some((rows, _)) ==> wide@.len() == rows,
    {
        let mut copy = vt100::Parser::new(1, 1, 0);
        *copy.screen_mut() = self.parser.screen().clone();
        let switch: &[u8] = match alternate {
            true => b"\x1b[?47h",
            false => b"\x1b[?47l",
        };
        copy.process(switch);
        let screen = copy.screen();
        (0..screen.size().0).map(|r| screen.cell(r, col).is_some_and(|c| c.is_wide())).collect()
    }

    /// `vt100::Parser::screen`. The contract says that it is the screen of this
    /// emulator.
    #[verifier::external_body]
    pub(crate) fn screen(&self) -> (s: &vt100::Screen)
        ensures
            screen_fed(*s) == emulator_fed(*self),
    {
        self.parser.screen()
    }
}

// ------------------------------------------------------------- mirror: drawing

/// A size at which output can be drawn as it comes, whatever it is.
pub open spec fn roomy(rows: u16, cols: u16) -> bool {
    rows >= 2 && WIDEST <= cols <= MAX_COLS
}

/// A screen of the given size once it has read one byte more.
///
/// The byte is drawn as it is wherever the screen can take it. On a screen of one
/// row, a character that has no room goes to the start of a new line. One that
/// is wider than the screen is left out. A tab behind the last stop goes to the
/// last column.
pub open spec fn byte_drawn(fed: Fed, byte: u8, rows: u16, cols: u16) -> Fed {
    let w = columns(seen(fed), byte);
    let col = cursor_at(fed).1;
    if roomy(rows, cols) {
        fed.push(Event::Byte(byte))
    } else if w > cols {
        fed.push(Event::Unseen(byte))
    } else if rows < 2 && w > 0 && col + w > cols {
        fed.push(Event::Ordered(Order::NewLine)).push(Event::Byte(byte))
    } else if tabs(seen(fed), byte) && cols > MAX_COLS && col > MAX_COLS {
        fed.push(Event::Unseen(byte)).push(Event::Ordered(Order::LastColumn))
    } else {
        fed.push(Event::Byte(byte))
    }
}

/// A screen once it has read one byte more.
pub open spec fn after_byte(fed: Fed, byte: u8) -> Fed {
    match last_size(fed) {
        Some((rows, cols)) => byte_drawn(fed, byte, rows, cols),
        None => fed,
    }
}

/// A screen once it has read some output more.
pub open spec fn after_drawing(fed: Fed, bytes: Seq<u8>) -> Fed
    decreases bytes.len(),
{
    if bytes.len() == 0 {
        fed
    } else {
        after_byte(after_drawing(fed, bytes.drop_last()), bytes.last())
    }
}

// ------------------------------------------------------------ mirror: resizing

/// The edge of the rows that are marked in `wide` is cleared, among the first
/// `k` rows.
pub open spec fn rows_cleared(fed: Fed, wide: Seq<bool>, k: nat) -> Fed
    decreases k,
{
    if k == 0 {
        fed
    } else {
        let before = rows_cleared(fed, wide, (k - 1) as nat);
        if wide[k - 1] {
            before.push(Event::Ordered(Order::ClearEdge(k as u16)))
        } else {
            before
        }
    }
}

/// One more, as far as there is a number for it.
pub open spec fn next_number(n: u16) -> u16 {
    if n < u16::MAX {
        (n + 1) as u16
    } else {
        n
    }
}

/// The main or the alternate screen after a smaller width of `cols` columns cut
/// characters in two: their halves are blanked, and nothing else changes. Where
/// none was cut, nothing is done.
pub open spec fn mended(fed: Fed, alternate: bool, cols: u16) -> Fed {
    let wide = wide_rows(fed, alternate, (cols - 1) as u16);
    if !wide.contains(true) {
        fed
    } else {
        let home = on_alternate(fed);
        let there = if home == alternate {
            fed
        } else {
            fed.push(Event::Ordered(Order::Alternate(alternate)))
        };
        let cursor = cursor_at(there);
        let placed = rows_cleared(there, wide, wide.len()).push(
            Event::Ordered(Order::Place(next_number(cursor.0), next_number(cursor.1))),
        );
        if home == alternate {
            placed
        } else {
            placed.push(Event::Ordered(Order::Alternate(home)))
        }
    }
}

/// A screen at another size.
pub open spec fn after_resizing(fed: Fed, rows: u16, cols: u16) -> Fed {
    let set = fed.push(sized(rows, cols));
    if narrower(fed, cols) {
        mended(mended(set, false, cols), true, cols)
    } else {
        set
    }
}

// --------------------------------------------------------------------- mirror

/// An emulator together with what tells how it takes output.
pub struct Mirror {
    emulator: Emulator,
    reader: Reader,
    rows: u16,
    cols: u16,
}

impl View for Mirror {
    type V = Fed;

    /// All that happened to the screen.
    closed spec fn view(&self) -> Fed {
        self.emulator@
    }
}

/// The emulator has the given size and is tidy, and the reader has read what
/// the emulator has read.
spec fn in_shape(emulator: Emulator, reader: Reader, rows: u16, cols: u16) -> bool {
    &&& last_size(emulator@) == Some((rows, cols))
    &&& rows >= 1
    &&& cols >= 1
    &&& tidy(emulator@)
    &&& reader_read(reader) == seen(emulator@)
}

impl Mirror {
    #[verifier::type_invariant]
    spec fn sound(self) -> bool {
        in_shape(self.emulator, self.reader, self.rows, self.cols)
    }

    /// An empty screen.
    pub fn new(rows: u16, cols: u16) -> (m: Mirror)
        requires
            rows >= 1,
            cols >= 1,
        ensures
            m@ == seq![sized(rows, cols)],
    {
        let emulator = Emulator::new(rows, cols);
        proof {
            lemma_fresh(rows, cols);
        }
        Mirror { emulator, reader: Reader::new(), rows, cols }
    }

    /// The screen once it has read `bytes` too.
    pub fn draw(self, bytes: &[u8]) -> (m: Mirror)
        ensures
            m@ == after_drawing(self@, bytes@),
    {
        proof {
            use_type_invariant(&self);
        }
        let Mirror { mut emulator, mut reader, rows, cols } = self;
        let ghost fed = emulator@;
        let mut i: usize = 0;
        assert(bytes@.take(0) =~= Seq::<u8>::empty());
        while i < bytes.len()
            invariant
                i <= bytes@.len(),
                in_shape(emulator, reader, rows, cols),
                emulator@ == after_drawing(fed, bytes@.take(i as int)),
            decreases bytes@.len() - i,
        {
            proof {
                assert(bytes@.take(i + 1).drop_last() =~= bytes@.take(i as int));
                assert(bytes@.take(i + 1).last() == bytes@[i as int]);
            }
            draw_byte(&mut emulator, &mut reader, rows, cols, bytes[i]);
            i += 1;
        }
        assert(bytes@.take(i as int) =~= bytes@);
        Mirror { emulator, reader, rows, cols }
    }

    /// The screen at another size.
    pub fn resize(self, rows: u16, cols: u16) -> (m: Mirror)
        requires
            rows >= 1,
            cols >= 1,
        ensures
            m@ == after_resizing(self@, rows, cols),
    {
        proof {
            use_type_invariant(&self);
        }
        let Mirror { mut emulator, reader, rows: _, cols: was } = self;
        let ghost fed = emulator@;
        emulator.set_size(rows, cols);
        proof {
            lemma_one_more(fed, sized(rows, cols));
        }
        if cols < was {
            mend(&mut emulator, rows, cols, false);
            mend(&mut emulator, rows, cols, true);
            proof {
                assert(clean(emulator@)) by {
                    assert forall|alternate: bool, i: int|
                        0 <= i < wide_rows(emulator@, alternate, (cols - 1) as u16).len() implies
                        !#[trigger] wide_rows(emulator@, alternate, (cols - 1) as u16)[i] by {
                        let rows_there = wide_rows(emulator@, alternate, (cols - 1) as u16);
                        assert(!rows_there.contains(true));
                    }
                }
                lemma_tidy_where_clean(emulator@);
            }
        }
        Mirror { emulator, reader, rows, cols }
    }

    /// The bytes that draw the screen.
    pub fn dump(&self) -> (out: Vec<u8>)
        ensures
            out@ == formatted_screen(self@),
    {
        self.emulator.contents_formatted()
    }

    /// The screen itself.
    pub fn screen(&self) -> (s: &vt100::Screen)
        ensures
            screen_fed(*s) == self@,
    {
        self.emulator.screen()
    }
}

/// Reads one byte.
fn draw_byte(emulator: &mut Emulator, reader: &mut Reader, rows: u16, cols: u16, byte: u8)
    requires
        in_shape(*old(emulator), *old(reader), rows, cols),
    ensures
        in_shape(*final(emulator), *final(reader), rows, cols),
        final(emulator)@ == after_byte(old(emulator)@, byte),
{
    let ghost fed = emulator@;
    if rows >= 2 && cols >= WIDEST && cols <= MAX_COLS {
        proof {
            lemma_one_more(fed, Event::Byte(byte));
        }
        emulator.process(byte);
        reader.follow(byte);
        return;
    }
    let found = reader.probe(byte);
    let w: u16 = if !found.0 && !found.1 {
        0
    } else if byte < 0x80 || (found.0 && found.2 == 3) {
        1
    } else if found.0 {
        2
    } else {
        3
    };
    let col: u16 = emulator.cursor_position().1;
    if w > cols {
        proof {
            lemma_one_more(fed, Event::Unseen(byte));
        }
        emulator.skip(byte);
    } else if rows < 2 && w > 0 && col as u32 + w as u32 > cols as u32 {
        let ghost line = fed.push(Event::Ordered(Order::NewLine));
        proof {
            lemma_one_more(fed, Event::Ordered(Order::NewLine));
            lemma_one_more(line, Event::Byte(byte));
        }
        emulator.order(Order::NewLine);
        assert(!tabs(seen(line), byte) || cursor_at(line).1 == 0);
        emulator.process(byte);
    } else if byte == 9 && found.2 == 3 && cols > MAX_COLS && col > MAX_COLS {
        proof {
            lemma_one_more(fed, Event::Unseen(byte));
            lemma_one_more(fed.push(Event::Unseen(byte)), Event::Ordered(Order::LastColumn));
        }
        emulator.skip(byte);
        emulator.order(Order::LastColumn);
    } else {
        proof {
            lemma_one_more(fed, Event::Byte(byte));
        }
        emulator.process(byte);
    }
}

/// Blanks the halves of characters that a smaller width cut in two on the main
/// or on the alternate screen.
fn mend(emulator: &mut Emulator, rows: u16, cols: u16, alternate: bool)
    requires
        last_size(old(emulator)@) == Some((rows, cols)),
        rows >= 1,
        cols >= 1,
    ensures
        final(emulator)@ == mended(old(emulator)@, alternate, cols),
        last_size(final(emulator)@) == Some((rows, cols)),
        seen(final(emulator)@) == seen(old(emulator)@),
        !wide_rows(final(emulator)@, alternate, (cols - 1) as u16).contains(true),
        wide_rows(final(emulator)@, !alternate, (cols - 1) as u16) == wide_rows(
            old(emulator)@,
            !alternate,
            (cols - 1) as u16,
        ),
{
    let ghost fed = emulator@;
    let edge: u16 = cols - 1;
    let wide = emulator.wide_in_column(alternate, edge);
    let ghost marks = wide@;
    if !any(&wide) {
        return;
    }
    let home = emulator.alternate_screen();
    if home != alternate {
        proof {
            lemma_one_more(fed, Event::Ordered(Order::Alternate(alternate)));
        }
        emulator.order(Order::Alternate(alternate));
    }
    let ghost there = emulator@;
    let cursor = emulator.cursor_position();
    let mut i: usize = 0;
    while i < wide.len()
        invariant
            i <= wide@.len(),
            wide@ == marks,
            marks.len() == rows,
            cols >= 1,
            edge == cols - 1,
            last_size(emulator@) == Some((rows, cols)),
            seen(emulator@) == seen(there),
            on_alternate(emulator@) == alternate,
            emulator@ == rows_cleared(there, marks, i as nat),
            wide_rows(emulator@, !alternate, edge) == wide_rows(there, !alternate, edge),
            wide_rows(emulator@, alternate, edge).len() == rows,
            forall|j: int| 0 <= j < i ==> !#[trigger] wide_rows(emulator@, alternate, edge)[j],
            forall|j: int|
                i <= j < rows ==> #[trigger] wide_rows(emulator@, alternate, edge)[j] == marks[j],
        decreases wide@.len() - i,
    {
        if wide[i] {
            proof {
                lemma_one_more(
                    emulator@,
                    Event::Ordered(Order::ClearEdge((i + 1) as u16)),
                );
            }
            emulator.order(Order::ClearEdge((i + 1) as u16));
        }
        i += 1;
    }
    let place = Order::Place(bumped(cursor.0), bumped(cursor.1));
    proof {
        lemma_one_more(emulator@, Event::Ordered(place));
        assert(!wide_rows(emulator@, alternate, edge).contains(true));
    }
    emulator.order(place);
    if home != alternate {
        proof {
            lemma_one_more(emulator@, Event::Ordered(Order::Alternate(home)));
        }
        emulator.order(Order::Alternate(home));
    }
}

fn bumped(n: u16) -> (out: u16)
    ensures
        out == next_number(n),
        out >= 1,
{
    if n < u16::MAX {
        n + 1
    } else {
        n
    }
}

fn any(marks: &Vec<bool>) -> (yes: bool)
    ensures
        yes == marks@.contains(true),
{
    let mut i: usize = 0;
    while i < marks.len()
        invariant
            i <= marks@.len(),
            forall|j: int| 0 <= j < i ==> !#[trigger] marks@[j],
        decreases marks@.len() - i,
    {
        if marks[i] {
            assert(marks@[i as int]);
            return true;
        }
        i += 1;
    }
    false
}

// ----------------------------------------------------------------------- laws

/// What holds of a screen that was given its size only.
pub proof fn lemma_fresh(rows: u16, cols: u16)
    ensures
        last_size(seq![sized(rows, cols)]) == Some((rows, cols)),
        seen(seq![sized(rows, cols)]) == Seq::<u8>::empty(),
        shown(seq![sized(rows, cols)]) == Seq::<u8>::empty(),
        tidy(seq![sized(rows, cols)]),
{
    reveal_with_fuel(seen, 2);
    reveal_with_fuel(shown, 2);
    let fed = seq![sized(rows, cols)];
    assert(fed.last() == sized(rows, cols));
    assert(fed.drop_last() =~= Seq::<Event>::empty());
}

/// What one event more does to the size, to what was read and to tidiness.
pub proof fn lemma_one_more(fed: Fed, e: Event)
    ensures
        last_size(fed.push(e)) == (match e {
            Event::Size(rows, cols) => Some((rows, cols)),
            _ => last_size(fed),
        }),
        seen(fed.push(e)) == (match e {
            Event::Byte(b) => seen(fed).push(b),
            Event::Unseen(b) => seen(fed).push(b),
            _ => seen(fed),
        }),
        shown(fed.push(e)) == (match e {
            Event::Byte(b) => shown(fed).push(b),
            _ => shown(fed),
        }),
        tidy(fed) && !(e matches Event::Size(_, cols) && narrower(fed, cols)) ==> tidy(fed.push(e)),
{
    assert(fed.push(e).drop_last() =~= fed);
}

proof fn lemma_tidy_where_clean(fed: Fed)
    requires
        clean(fed),
    ensures
        tidy(fed),
{
}

/// Drawing leaves the size of a screen as it is, and every byte is read, in
/// order.
pub proof fn law_drawing_reads_everything(fed: Fed, bytes: Seq<u8>)
    requires
        last_size(fed) is Some,
    ensures
        last_size(after_drawing(fed, bytes)) == last_size(fed),
        seen(after_drawing(fed, bytes)) == seen(fed) + bytes,
    decreases bytes.len(),
{
    if bytes.len() == 0 {
        assert(seen(fed) + bytes =~= seen(fed));
    } else {
        law_drawing_reads_everything(fed, bytes.drop_last());
        let before = after_drawing(fed, bytes.drop_last());
        lemma_after_byte(before, bytes.last());
        assert(seen(fed) + bytes =~= (seen(fed) + bytes.drop_last()).push(bytes.last()));
    }
}

proof fn lemma_after_byte(fed: Fed, byte: u8)
    requires
        last_size(fed) is Some,
    ensures
        last_size(after_byte(fed, byte)) == last_size(fed),
        seen(after_byte(fed, byte)) == seen(fed).push(byte),
        shown(after_byte(fed, byte)) == shown(fed).push(byte) || shown(after_byte(fed, byte))
            == shown(fed),
        last_size(fed).unwrap().1 >= WIDEST || (byte < 0x80 && last_size(fed).unwrap().1 >= 1) ==> {
            last_size(fed).unwrap().1 <= MAX_COLS ==> shown(after_byte(fed, byte)) == shown(
                fed,
            ).push(byte)
        },
{
    lemma_one_more(fed, Event::Byte(byte));
    lemma_one_more(fed, Event::Unseen(byte));
    lemma_one_more(fed, Event::Ordered(Order::NewLine));
    lemma_one_more(fed.push(Event::Ordered(Order::NewLine)), Event::Byte(byte));
    lemma_one_more(fed.push(Event::Unseen(byte)), Event::Ordered(Order::LastColumn));
}

/// Bytes that are all ASCII.
pub open spec fn ascii(bytes: Seq<u8>) -> bool {
    forall|i: int| 0 <= i < bytes.len() ==> #[trigger] bytes[i] < 0x80
}

/// All output is drawn, in order, on a screen of any number of rows that is wide
/// enough for any character; and so is ASCII on a screen of any width, up to the
/// last tab stop.
pub proof fn law_all_output_is_drawn(fed: Fed, bytes: Seq<u8>)
    requires
        last_size(fed) matches Some((_, cols)) && 1 <= cols <= MAX_COLS && (cols >= WIDEST || ascii(
            bytes,
        )),
    ensures
        shown(after_drawing(fed, bytes)) == shown(fed) + bytes,
    decreases bytes.len(),
{
    if bytes.len() == 0 {
        assert(shown(fed) + bytes =~= shown(fed));
    } else {
        let before = after_drawing(fed, bytes.drop_last());
        law_drawing_reads_everything(fed, bytes.drop_last());
        law_all_output_is_drawn(fed, bytes.drop_last());
        lemma_after_byte(before, bytes.last());
        assert(shown(fed) + bytes =~= (shown(fed) + bytes.drop_last()).push(bytes.last()));
    }
}

/// The output can be drawn as it comes: the screen takes each byte as it is.
pub open spec fn as_it_comes(fed: Fed, bytes: Seq<u8>) -> bool {
    forall|i: int|
        0 <= i < bytes.len() ==> takes(fed + drawn(bytes.take(i)), #[trigger] bytes[i])
}

/// Wherever the emulator can take output as it comes, it is handed over as it
/// comes and nothing else is done.
pub proof fn law_what_can_be_taken_is_drawn_as_it_comes(fed: Fed, bytes: Seq<u8>)
    requires
        as_it_comes(fed, bytes),
    ensures
        after_drawing(fed, bytes) == fed + drawn(bytes),
    decreases bytes.len(),
{
    if bytes.len() == 0 {
        assert(fed + drawn(bytes) =~= fed);
    } else {
        let head = bytes.drop_last();
        assert forall|i: int| 0 <= i < head.len() implies takes(
            fed + drawn(head.take(i)),
            #[trigger] head[i],
        ) by {
            assert(head.take(i) =~= bytes.take(i));
            assert(takes(fed + drawn(bytes.take(i)), bytes[i]));
        }
        law_what_can_be_taken_is_drawn_as_it_comes(fed, head);
        assert(bytes.take(bytes.len() - 1) =~= head);
        assert(takes(fed + drawn(head), bytes[bytes.len() - 1]));
        assert(fed + drawn(bytes) =~= (fed + drawn(head)).push(Event::Byte(bytes.last())));
    }
}

/// On a screen with room for any text, all output is drawn as it comes.
pub proof fn law_roomy_screens_draw_as_it_comes(fed: Fed, bytes: Seq<u8>)
    requires
        last_size(fed) matches Some((rows, cols)) && roomy(rows, cols),
    ensures
        after_drawing(fed, bytes) == fed + drawn(bytes),
    decreases bytes.len(),
{
    if bytes.len() == 0 {
        assert(fed + drawn(bytes) =~= fed);
    } else {
        law_roomy_screens_draw_as_it_comes(fed, bytes.drop_last());
        law_drawing_reads_everything(fed, bytes.drop_last());
        assert(fed + drawn(bytes) =~= (fed + drawn(bytes.drop_last())).push(
            Event::Byte(bytes.last()),
        ));
    }
}

/// How output is cut into pieces makes no difference.
pub proof fn law_pieces_do_not_matter(fed: Fed, a: Seq<u8>, b: Seq<u8>)
    ensures
        after_drawing(fed, a + b) == after_drawing(after_drawing(fed, a), b),
    decreases b.len(),
{
    if b.len() == 0 {
        assert(a + b =~= a);
    } else {
        law_pieces_do_not_matter(fed, a, b.drop_last());
        assert((a + b).drop_last() =~= a + b.drop_last());
        assert((a + b).last() == b.last());
    }
}

/// A screen has the size that it was set to last, and resizing reads nothing.
pub proof fn law_resizing_sets_the_size(fed: Fed, rows: u16, cols: u16)
    ensures
        last_size(after_resizing(fed, rows, cols)) == Some((rows, cols)),
        seen(after_resizing(fed, rows, cols)) == seen(fed),
        shown(after_resizing(fed, rows, cols)) == shown(fed),
{
    let set = fed.push(sized(rows, cols));
    lemma_one_more(fed, sized(rows, cols));
    lemma_mended(set, false, cols);
    lemma_mended(mended(set, false, cols), true, cols);
}

/// Where a new size cuts no character in two, the screen is resized and nothing
/// else is done.
pub proof fn law_only_cut_characters_are_mended(fed: Fed, rows: u16, cols: u16)
    requires
        cols >= 1,
        !narrower(fed, cols) || clean(fed.push(sized(rows, cols))),
    ensures
        after_resizing(fed, rows, cols) == fed.push(sized(rows, cols)),
{
    let set = fed.push(sized(rows, cols));
    lemma_one_more(fed, sized(rows, cols));
    if narrower(fed, cols) {
        let main = wide_rows(set, false, (cols - 1) as u16);
        let other = wide_rows(set, true, (cols - 1) as u16);
        assert(!main.contains(true));
        assert(!other.contains(true));
    }
}

proof fn lemma_mended(fed: Fed, alternate: bool, cols: u16)
    ensures
        last_size(mended(fed, alternate, cols)) == last_size(fed),
        seen(mended(fed, alternate, cols)) == seen(fed),
        shown(mended(fed, alternate, cols)) == shown(fed),
{
    let wide = wide_rows(fed, alternate, (cols - 1) as u16);
    let home = on_alternate(fed);
    let go = Event::Ordered(Order::Alternate(alternate));
    lemma_one_more(fed, go);
    let there = if home == alternate {
        fed
    } else {
        fed.push(go)
    };
    let cursor = cursor_at(there);
    let cleared = rows_cleared(there, wide, wide.len());
    lemma_rows_cleared(there, wide, wide.len());
    let place = Event::Ordered(Order::Place(next_number(cursor.0), next_number(cursor.1)));
    lemma_one_more(cleared, place);
    lemma_one_more(cleared.push(place), Event::Ordered(Order::Alternate(home)));
}

proof fn lemma_rows_cleared(fed: Fed, wide: Seq<bool>, k: nat)
    ensures
        last_size(rows_cleared(fed, wide, k)) == last_size(fed),
        seen(rows_cleared(fed, wide, k)) == seen(fed),
        shown(rows_cleared(fed, wide, k)) == shown(fed),
    decreases k,
{
    if k > 0 {
        let before = rows_cleared(fed, wide, (k - 1) as nat);
        lemma_rows_cleared(fed, wide, (k - 1) as nat);
        lemma_one_more(before, Event::Ordered(Order::ClearEdge(k as u16)));
    }
}

/// A byte completes a character of at most three columns, and one of ASCII of at
/// most one; none where the screen shows none.
pub proof fn law_characters_have_up_to_three_columns(found: (bool, bool, u16), byte: u8)
    ensures
        0 <= width_found(found, byte) <= 3,
        byte < 0x80 ==> width_found(found, byte) <= 1,
        width_found(found, byte) == 0 <==> !found.0 && !found.1,
        byte >= 0x80 && found.1 && !found.0 ==> width_found(found, byte) == 3,
        found.0 && found.2 == 3 ==> width_found(found, byte) == 1,
{
}

/// What is done where a screen cannot take a byte as it is: a character that is
/// wider than the screen is read and not drawn; on a screen of one row, one that
/// has no room starts a new line; a tab behind the last stop goes to the last
/// column. Any other byte is drawn as it is.
pub proof fn law_small_screens_make_room(fed: Fed, byte: u8, rows: u16, cols: u16)
    requires
        last_size(fed) == Some((rows, cols)),
    ensures
        ({
            let w = columns(seen(fed), byte);
            let col = cursor_at(fed).1;
            let wide = w > cols;
            let wraps = !wide && rows < 2 && w > 0 && col + w > cols;
            let far = !wide && !wraps && tabs(seen(fed), byte) && cols > 65527 && col > 65527;
            let next = after_byte(fed, byte);
            &&& wide ==> next == fed.push(Event::Unseen(byte))
            &&& wraps ==> next == fed.push(Event::Ordered(Order::NewLine)).push(Event::Byte(byte))
            &&& far ==> next == fed.push(Event::Unseen(byte)).push(
                Event::Ordered(Order::LastColumn),
            )
            &&& !wide && !wraps && !far ==> next == fed.push(Event::Byte(byte))
        }),
{
}

/// Mending clears the edge of the rows whose character was cut in two, of those
/// only and each once; it ends with the cursor where it was, on the screen that
/// was in use, and adds nothing but such orders.
#[verifier::spinoff_prover]
pub proof fn law_mending_clears_cut_rows(fed: Fed, alternate: bool, cols: u16, i: int)
    requires
        wide_rows(fed, alternate, (cols - 1) as u16).len() <= u16::MAX,
    ensures
        ({
            let wide = wide_rows(fed, alternate, (cols - 1) as u16);
            let m = mended(fed, alternate, cols);
            let home = on_alternate(fed);
            let there = if home == alternate {
                fed
            } else {
                fed.push(Event::Ordered(Order::Alternate(alternate)))
            };
            let cursor = cursor_at(there);
            let place = Event::Ordered(Order::Place(next_number(cursor.0), next_number(cursor.1)));
            &&& !wide.contains(true) ==> m == fed
            &&& wide.contains(true) ==> {
                &&& m.len() > there.len()
                &&& m.take(there.len() as int) == there
                &&& home == alternate ==> m.last() == place
                &&& home != alternate ==> m.last() == Event::Ordered(Order::Alternate(home))
                    && m[m.len() - 2] == place
                &&& 0 <= i < wide.len() ==> (wide[i] <==> m.skip(there.len() as int).contains(
                    Event::Ordered(Order::ClearEdge((i + 1) as u16)),
                ))
            }
        }),
{
    let wide = wide_rows(fed, alternate, (cols - 1) as u16);
    if wide.contains(true) {
        let m = mended(fed, alternate, cols);
        let home = on_alternate(fed);
        let there = if home == alternate {
            fed
        } else {
            fed.push(Event::Ordered(Order::Alternate(alternate)))
        };
        let cursor = cursor_at(there);
        let place = Event::Ordered(Order::Place(next_number(cursor.0), next_number(cursor.1)));
        let cleared = rows_cleared(there, wide, wide.len());
        lemma_cleared_rows(there, wide, wide.len(), i);
        assert(m.take(there.len() as int) =~= cleared.take(there.len() as int));
        if 0 <= i < wide.len() {
            let e = Event::Ordered(Order::ClearEdge((i + 1) as u16));
            let n = there.len() as int;
            if cleared.skip(n).contains(e) {
                let j = choose|j: int| 0 <= j < cleared.skip(n).len() && cleared.skip(n)[j] == e;
                assert(m.skip(n)[j] == e);
            }
            if m.skip(n).contains(e) {
                let j = choose|j: int| 0 <= j < m.skip(n).len() && m.skip(n)[j] == e;
                assert(j < cleared.len() - n);
                assert(cleared.skip(n)[j] == e);
            }
        }
    }
}

#[verifier::spinoff_prover]
proof fn lemma_cleared_rows(fed: Fed, wide: Seq<bool>, k: nat, i: int)
    requires
        k <= wide.len() <= u16::MAX,
    ensures
        ({
            let r = rows_cleared(fed, wide, k);
            &&& r.len() >= fed.len()
            &&& r.take(fed.len() as int) == fed
            &&& 0 <= i < wide.len() ==> (i < k && wide[i] <==> r.skip(fed.len() as int).contains(
                Event::Ordered(Order::ClearEdge((i + 1) as u16)),
            ))
        }),
    decreases k,
{
    let n = fed.len() as int;
    let r = rows_cleared(fed, wide, k);
    if k == 0 {
        assert(r.take(n) =~= fed);
        assert(r.skip(n) =~= Seq::<Event>::empty());
    } else {
        let before = rows_cleared(fed, wide, (k - 1) as nat);
        lemma_cleared_rows(fed, wide, (k - 1) as nat, i);
        let e = Event::Ordered(Order::ClearEdge((i + 1) as u16));
        if wide[k - 1] {
            let own = Event::Ordered(Order::ClearEdge(k as u16));
            assert(r.take(n) =~= before.take(n));
            assert(r.skip(n) =~= before.skip(n).push(own));
            let s = before.skip(n);
            if 0 <= i < wide.len() {
                if s.contains(e) {
                    let j = choose|j: int| 0 <= j < s.len() && s[j] == e;
                    assert(s.push(own)[j] == e);
                }
                if i == k - 1 {
                    assert(s.push(own)[s.len() as int] == e);
                }
                if s.push(own).contains(e) && i != k - 1 {
                    let j = choose|j: int| 0 <= j < s.push(own).len() && s.push(own)[j] == e;
                    assert(own != e);
                    assert(s[j] == e);
                }
            }
        }
    }
}

} // verus!
