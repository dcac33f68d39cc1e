//! Where things go on the screen.
use ratatui::layout::{Constraint, Direction, Layout, Rect};
use vstd::prelude::*;

verus! {

/// A rectangle of the screen, in character cells.
#[derive(Debug, Clone, Copy, PartialEq, Eq, Structural)]
pub struct Area {
    pub x: u16,
    pub y: u16,
    pub width: u16,
    pub height: u16,
}

/// How much of an area a part of it wants.
#[derive(Debug, Clone, Copy)]
pub enum Limit {
    /// So many cells.
    Length(u16),
    /// At least so many cells, and what is left over.
    Min(u16),
    /// So many hundredths.
    Percentage(u16),
}

/// The direction in which an area is divided.
#[derive(Debug, Clone, Copy)]
pub enum Axis {
    Horizontal,
    Vertical,
}

/// The cell behind the last one of a line of `len` cells from `start`.
pub open spec fn edge(start: u16, len: u16) -> int {
    if start + len <= u16::MAX {
        start + len
    } else {
        u16::MAX as int
    }
}

/// How many cells of a line of `len` cells from `start` have a number.
pub open spec fn extent(start: u16, len: u16) -> int {
    edge(start, len) - start
}

/// `part` lies in `whole`.
pub open spec fn inside(part: Area, whole: Area) -> bool {
    &&& whole.x <= part.x
    &&& part.x + part.width <= edge(whole.x, whole.width)
    &&& whole.y <= part.y
    &&& part.y + part.height <= edge(whole.y, whole.height)
}

/// Where an area starts along an axis.
pub open spec fn start_of(a: Area, axis: Axis) -> u16 {
    match axis {
        Axis::Horizontal => a.x,
        Axis::Vertical => a.y,
    }
}

/// How many cells an area has along an axis.
pub open spec fn size_of(a: Area, axis: Axis) -> u16 {
    match axis {
        Axis::Horizontal => a.width,
        Axis::Vertical => a.height,
    }
}

/// The cell behind the last one of an area along an axis.
pub open spec fn end_of(a: Area, axis: Axis) -> int {
    start_of(a, axis) + size_of(a, axis)
}

/// `part` is one of the parts that `whole` is divided into along `axis`: it has
/// the full extent across, and lies in `whole` along the axis.
pub open spec fn part_of(part: Area, whole: Area, axis: Axis) -> bool {
    match axis {
        Axis::Horizontal => {
            &&& part.y == whole.y
            &&& part.height == whole.height
            &&& whole.x <= part.x
            &&& part.x + part.width <= edge(whole.x, whole.width)
        },
        Axis::Vertical => {
            &&& part.x == whole.x
            &&& part.width == whole.width
            &&& whole.y <= part.y
            &&& part.y + part.height <= edge(whole.y, whole.height)
        },
    }
}

/// The parts lie in order along `axis` from the start of `whole`, without gap or
/// overlap.
pub open spec fn in_a_row(parts: Seq<Area>, whole: Area, axis: Axis) -> bool {
    &&& parts.len() > 0 ==> start_of(parts[0], axis) == start_of(whole, axis)
    &&& forall|i: int, j: int|
        0 <= i && j == i + 1 && j < parts.len() ==> start_of(#[trigger] parts[j], axis) == end_of(
            #[trigger] parts[i],
            axis,
        )
}

/// The cells that the first `k` limits ask for.
pub open spec fn cells_wanted(limits: Seq<Limit>, k: nat) -> int
    decreases k,
{
    if k == 0 {
        0
    } else {
        cells_wanted(limits, (k - 1) as nat) + (match limits[k - 1] {
            Limit::Length(n) => n as int,
            Limit::Min(n) => n as int,
            Limit::Percentage(_) => 0,
        })
    }
}

/// The hundredths that the first `k` limits ask for.
pub open spec fn hundredths_wanted(limits: Seq<Limit>, k: nat) -> int
    decreases k,
{
    if k == 0 {
        0
    } else {
        hundredths_wanted(limits, (k - 1) as nat) + (match limits[k - 1] {
            Limit::Percentage(n) => n as int,
            _ => 0,
        })
    }
}

/// So many hundredths of `size` cells, rounded to whole cells, half a cell up.
pub open spec fn hundredths_of(size: int, pct: int) -> int {
    (pct * size + 50) / 100
}

/// No limit is given in hundredths.
pub open spec fn in_cells(limits: Seq<Limit>) -> bool {
    forall|i: int| 0 <= i < limits.len() ==> !((#[trigger] limits[i]) is Percentage)
}

/// Every limit is given in hundredths.
pub open spec fn in_hundredths(limits: Seq<Limit>) -> bool {
    forall|i: int| 0 <= i < limits.len() ==> (#[trigger] limits[i]) is Percentage
}

/// Some part takes what is left over.
pub open spec fn has_filler(limits: Seq<Limit>) -> bool {
    exists|i: int| 0 <= i < limits.len() && (#[trigger] limits[i]) is Min
}

/// Part `k` is the only one that takes what is left over.
pub open spec fn only_filler(limits: Seq<Limit>, k: int) -> bool {
    &&& 0 <= k < limits.len()
    &&& forall|i: int| 0 <= i < limits.len() ==> ((#[trigger] limits[i]) is Min <==> i == k)
}

/// The smaller of two numbers.
pub open spec fn smaller(a: int, b: int) -> int {
    if a < b {
        a
    } else {
        b
    }
}

/// Most limits that an area is divided by.
pub const MOST_PARTS: usize = 3;

/// Largest minimum of a part.
pub const LARGEST_MIN: u16 = 32767;

/// `ratatui::layout::Layout::split`, without margin or spacing. The solver of
/// that crate weighs spaces between parts heaviest, then minima, then lengths,
/// then hundredths, and rounds to whole cells; it turns a minimum above
/// [`LARGEST_MIN`] into a negative number. The contract says that there is one
/// part for each limit, which spans the area across; that the parts lie in a row
/// from the start of the area; that they reach its end where one of them takes
/// what is left over; that each length is met exactly where all that is asked
/// for in cells fits; that a single minimum is met first where it does not; and
/// that hundredths which fit end at the rounded hundredth. It does not say how
/// what is missing is shared among lengths, or among hundredths: there the
/// result may depend on the order in which the solver walks its hash maps.
#[verifier::external_body]
pub(crate) fn split(axis: Axis, limits: &[Limit], area: Area) -> (parts: Vec<Area>)
    requires
        1 <= limits@.len() <= MOST_PARTS,
        forall|i: int|
            0 <= i < limits@.len() ==> ((#[trigger] limits@[i]) matches Limit::Min(n) ==> n
                <= LARGEST_MIN),
    ensures
        parts@.len() == limits@.len(),
        forall|i: int| 0 <= i < parts@.len() ==> part_of(#[trigger] parts@[i], area, axis),
        in_a_row(parts@, area, axis),
        has_filler(limits@) ==> end_of(parts@.last(), axis) == edge(
            start_of(area, axis),
            size_of(area, axis),
        ),
        in_cells(limits@) && cells_wanted(limits@, limits@.len()) <= extent(
            start_of(area, axis),
            size_of(area, axis),
        ) ==> forall|i: int|
            0 <= i < parts@.len() ==> (limits@[i] matches Limit::Length(n) ==> size_of(
                #[trigger] parts@[i],
                axis,
            ) == n),
        in_cells(limits@) && cells_wanted(limits@, limits@.len()) > extent(
            start_of(area, axis),
            size_of(area, axis),
        ) ==> forall|i: int|
            0 <= i < parts@.len() && only_filler(limits@, i) ==> (limits@[i] matches Limit::Min(n)
                ==> size_of(#[trigger] parts@[i], axis) == smaller(
                n as int,
                extent(start_of(area, axis), size_of(area, axis)),
            )),
        in_hundredths(limits@) && hundredths_wanted(limits@, limits@.len()) <= 100 ==> forall|
            i: int,
        |
            0 <= i < parts@.len() ==> end_of(#[trigger] parts@[i], axis) == start_of(area, axis)
                + hundredths_of(
                extent(start_of(area, axis), size_of(area, axis)),
                hundredths_wanted(limits@, (i + 1) as nat),
            ),
{
    let direction = match axis {
        Axis::Horizontal => Direction::Horizontal,
        Axis::Vertical => Direction::Vertical,
    };
    let wanted = limits.iter().map(|l| match *l {
        Limit::Length(n) => Constraint::Length(n),
        Limit::Min(n) => Constraint::Min(n),
        Limit::Percentage(n) => Constraint::Percentage(n),
    });
    let whole = Rect { x: area.x, y: area.y, width: area.width, height: area.height };
    let parts = Layout::new(direction, wanted).split(whole);
    parts.iter().map(|r| Area { x: r.x, y: r.y, width: r.width, height: r.height }).collect()
}

/// The limits of a bar at either end and what is between them.
pub fn bar_limits() -> (l: [Limit; 3])
    ensures
        l@ == seq![Limit::Length(1), Limit::Min(1), Limit::Length(1)],
{
    [Limit::Length(1), Limit::Min(1), Limit::Length(1)]
}

/// The limits of the terminal and the chat beside it.
pub fn chat_limits() -> (l: [Limit; 2])
    ensures
        l@ == seq![Limit::Min(20), Limit::Length(34)],
{
    [Limit::Min(20), Limit::Length(34)]
}

/// The limits that put `pct` hundredths into the middle.
pub fn middle_limits(pct: u16) -> (l: [Limit; 3])
    requires
        pct <= 100,
    ensures
        l@ == seq![
            Limit::Percentage(((100 - pct) / 2) as u16),
            Limit::Percentage(pct),
            Limit::Percentage(((100 - pct) / 2) as u16),
        ],
{
    let side: u16 = (100 - pct) / 2;
    [Limit::Percentage(side), Limit::Percentage(pct), Limit::Percentage(side)]
}

/// The screen as a bar at the top, a body and a bar at the bottom. Where there is
/// room for all three, each bar has one line and the body has the rest; where
/// there is not, the body has one line if there is any.
pub fn bars(area: Area) -> (parts: (Area, Area, Area))
    ensures
        part_of(parts.0, area, Axis::Vertical),
        part_of(parts.1, area, Axis::Vertical),
        part_of(parts.2, area, Axis::Vertical),
        parts.0.y == area.y,
        parts.1.y == parts.0.y + parts.0.height,
        parts.2.y == parts.1.y + parts.1.height,
        parts.2.y + parts.2.height == edge(area.y, area.height),
        extent(area.y, area.height) >= 3 ==> {
            &&& parts.0.height == 1
            &&& parts.1.height == extent(area.y, area.height) - 2
            &&& parts.2.height == 1
        },
        extent(area.y, area.height) < 3 ==> parts.1.height == smaller(
            1,
            extent(area.y, area.height),
        ),
{
    let limits = bar_limits();
    let ghost l = limits@;
    proof {
        reveal_with_fuel(cells_wanted, 4);
        assert(l[1] is Min);
        assert(only_filler(l, 1));
        assert(cells_wanted(l, 3) == 3);
    }
    let parts = split(Axis::Vertical, &limits, area);
    (parts[0], parts[1], parts[2])
}

/// Where the middle of a line of cells starts and ends, of which it is to have
/// `pct` hundredths.
pub open spec fn middle_of(start: u16, len: u16, pct: u16) -> (int, int) {
    let side = (100 - pct) / 2;
    let size = extent(start, len);
    (start + hundredths_of(size, side), start + hundredths_of(size, side + pct))
}

/// `mid` is in the middle of `area` and has the given hundredths of it.
pub open spec fn centered(mid: Area, area: Area, pct_x: u16, pct_y: u16) -> bool {
    &&& (mid.x as int, mid.x + mid.width) == middle_of(area.x, area.width, pct_x)
    &&& (mid.y as int, mid.y + mid.height) == middle_of(area.y, area.height, pct_y)
}

/// The middle one of the parts that an area is divided into.
fn middle_part(axis: Axis, pct: u16, area: Area) -> (mid: Area)
    requires
        pct <= 100,
    ensures
        part_of(mid, area, axis),
        (start_of(mid, axis) as int, end_of(mid, axis)) == middle_of(
            start_of(area, axis),
            size_of(area, axis),
            pct,
        ),
{
    let limits = middle_limits(pct);
    let ghost l = limits@;
    proof {
        reveal_with_fuel(hundredths_wanted, 4);
        let side = (100 - pct) / 2;
        assert(hundredths_wanted(l, 1) == side);
        assert(hundredths_wanted(l, 2) == side + pct);
        assert(hundredths_wanted(l, 3) <= 100);
    }
    let parts = split(axis, &limits, area);
    assert(end_of(parts@[0], axis) == start_of(parts@[1], axis));
    parts[1]
}

/// A rectangle in the middle of `area`, of the given hundredths of it.
pub fn centered_rect(pct_x: u16, pct_y: u16, area: Area) -> (mid: Area)
    requires
        pct_x <= 100,
        pct_y <= 100,
    ensures
        inside(mid, area),
        centered(mid, area, pct_x, pct_y),
{
    let row = middle_part(Axis::Vertical, pct_y, area);
    middle_part(Axis::Horizontal, pct_x, row)
}

/// What the body of the screen is divided into while a stream is watched.
#[derive(Debug, Clone, Copy)]
pub struct Panes {
    /// The terminal.
    pub terminal: Option<Area>,
    /// The chat.
    pub chat: Option<Area>,
    /// What covers the terminal while the host has paused the stream.
    pub overlay: Option<Area>,
}

/// `terminal` is the left part of `body` and `chat` the right one. Where there is
/// room for both, the chat has its full width and the terminal has the rest;
/// where there is not, the terminal has its least width first.
pub open spec fn side_by_side(terminal: Area, chat: Area, body: Area) -> bool {
    &&& part_of(terminal, body, Axis::Horizontal)
    &&& part_of(chat, body, Axis::Horizontal)
    &&& terminal.x == body.x
    &&& chat.x == terminal.x + terminal.width
    &&& chat.x + chat.width == edge(body.x, body.width)
    &&& if extent(body.x, body.width) >= 54 {
        chat.width == 34
    } else {
        terminal.width == smaller(20, extent(body.x, body.width))
    }
}

/// The body of the screen is divided as its state asks for.
pub open spec fn divided(
    p: Panes,
    body: Area,
    chat_only: bool,
    chat_open: bool,
    paused: bool,
) -> bool {
    &&& p.terminal is Some == !chat_only
    &&& p.chat is Some == (chat_only || chat_open)
    &&& p.overlay is Some == (paused && !chat_only)
    &&& chat_only ==> p.chat == Some(body)
    &&& !chat_only && !chat_open ==> p.terminal == Some(body)
    &&& !chat_only && chat_open ==> side_by_side(p.terminal.unwrap(), p.chat.unwrap(), body)
    &&& p.overlay matches Some(o) ==> inside(o, p.terminal.unwrap()) && centered(
        o,
        p.terminal.unwrap(),
        60,
        20,
    )
}

/// Terminal and chat share the body without gap or overlap. The chat is 34 cells
/// wide as long as 20 are left for the terminal.
pub proof fn law_terminal_and_chat_share_the_body(terminal: Area, chat: Area, body: Area)
    requires
        side_by_side(terminal, chat, body),
    ensures
        ({
            let n = extent(body.x, body.width);
            &&& terminal.width + chat.width == n
            &&& n >= 54 ==> chat.width == 34 && terminal.width >= 20
            &&& 20 <= n < 54 ==> terminal.width == 20
            &&& n < 20 ==> chat.width == 0
            &&& terminal.height == body.height
            &&& chat.height == body.height
            &&& terminal.y == body.y
            &&& chat.y == body.y
        }),
{
}

/// What is put in the middle has its hundredths of the area, to the cell, and
/// about the same margin at either side.
#[verifier::spinoff_prover]
pub proof fn law_the_middle_is_in_the_middle(start: u16, len: u16, pct: u16)
    requires
        pct <= 100,
    ensures
        ({
            let n = extent(start, len);
            let (from, to) = middle_of(start, len, pct);
            let left = from - start;
            let right = start + n - to;
            &&& 0 <= left
            &&& 0 <= right
            &&& from <= to
            &&& -100 <= 100 * (to - from) - pct * n <= 100
            &&& left - right <= 1
            &&& 100 * (right - left) <= n + 100
        }),
{
    let n = extent(start, len);
    let side = (100 - pct) / 2;
    let a = side * n;
    let b = pct * n;
    assert((side + pct) * n == a + b && 0 <= a && 0 <= b && 2 * a + b <= 100 * n && 100 * n <= 2 * a
        + b + n) by (nonlinear_arith)
        requires
            a == side * n,
            b == pct * n,
            0 <= n,
            0 <= side,
            0 <= pct,
            2 * side + pct <= 100,
            100 <= 2 * side + pct + 1,
    ;
}

/// With nothing but the chat, the chat has the whole body; without chat, the
/// terminal has it. A pause covers the middle of the terminal, and of nothing
/// else.
#[verifier::spinoff_prover]
pub proof fn law_panes_follow_the_state(
    p: Panes,
    body: Area,
    chat_only: bool,
    chat_open: bool,
    paused: bool,
)
    requires
        divided(p, body, chat_only, chat_open, paused),
    ensures
        chat_only ==> p.chat == Some(body) && p.terminal is None && p.overlay is None,
        !chat_only ==> p.terminal is Some,
        !chat_only && !chat_open ==> p.terminal == Some(body) && p.chat is None,
        !chat_only && chat_open ==> (p.chat matches Some(c) && c.x == body.x
            + p.terminal.unwrap().width && c.x + c.width == body.x + extent(body.x, body.width)),
        !chat_only ==> (p.overlay is Some <==> paused),
        p.overlay matches Some(o) ==> (p.terminal matches Some(t) && inside(o, t) && -100 <= 100
            * o.width - 60 * extent(t.x, t.width) <= 100 && -100 <= 100 * o.height - 20 * extent(
            t.y,
            t.height,
        ) <= 100),
{
    if let Some(o) = p.overlay {
        let t = p.terminal.unwrap();
        law_the_middle_is_in_the_middle(t.x, t.width, 60);
        law_the_middle_is_in_the_middle(t.y, t.height, 20);
    }
}

/// Divides the body of the screen.
pub fn panes(body: Area, chat_only: bool, chat_open: bool, paused: bool) -> (p: Panes)
    ensures
        divided(p, body, chat_only, chat_open, paused),
        p.terminal is Some == !chat_only,
        p.chat is Some == (chat_only || chat_open),
        p.overlay is Some == (paused && !chat_only),
        chat_only ==> p.chat == Some(body),
        !chat_only && !chat_open ==> p.terminal == Some(body),
        !chat_only && chat_open ==> side_by_side(p.terminal.unwrap(), p.chat.unwrap(), body),
        p.overlay matches Some(o) ==> inside(o, p.terminal.unwrap()) && centered(
            o,
            p.terminal.unwrap(),
            60,
            20,
        ),
{
    if chat_only {
        return Panes { terminal: None, chat: Some(body), overlay: None };
    }
    let mut terminal: Area = body;
    let mut chat: Option<Area> = None;
    if chat_open {
        let limits = chat_limits();
        let ghost l = limits@;
        proof {
            reveal_with_fuel(cells_wanted, 3);
            assert(l[0] is Min);
            assert(only_filler(l, 0));
            assert(cells_wanted(l, 2) == 54);
        }
        let parts = split(Axis::Horizontal, &limits, body);
        terminal = parts[0];
        chat = Some(parts[1]);
    }
    let overlay = if paused {
        Some(centered_rect(60, 20, terminal))
    } else {
        None
    };
    Panes { terminal: Some(terminal), chat, overlay }
}

} // verus!
