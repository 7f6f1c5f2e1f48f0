//! The result grid: how many results are shown, and which screen region
//! each of them gets.

use vstd::prelude::*;
use vstd::string::*;
use crate::query::SCORE_UNIT;
use crate::text::{decimal, decimal_string};

verus! {

/// The largest number of results that the grid shows at once.
pub const MAX_CELLS: usize = 10;

/// A rectangle of terminal cells.
#[derive(Clone, Copy, Debug, PartialEq, Eq, Structural)]
pub struct Rect {
    pub x: u16,
    pub y: u16,
    pub width: u16,
    pub height: u16,
}

impl Rect {
    /// The rectangle lies inside the 16-bit coordinate space.
    pub open spec fn wf(self) -> bool {
        self.x + self.width <= u16::MAX && self.y + self.height <= u16::MAX
    }

    /// First column to the right of the rectangle.
    pub open spec fn right(self) -> int {
        self.x + self.width
    }

    /// First row below the rectangle.
    pub open spec fn bottom(self) -> int {
        self.y + self.height
    }

    pub open spec fn is_empty(self) -> bool {
        self.width == 0 || self.height == 0
    }

    /// The cell at column `px`, row `py` belongs to the rectangle.
    pub open spec fn covers(self, px: int, py: int) -> bool {
        self.x <= px < self.right() && self.y <= py < self.bottom()
    }

    /// Every cell of `self` is a cell of `outer`.
    pub open spec fn within(self, outer: Rect) -> bool {
        &&& outer.x <= self.x
        &&& self.right() <= outer.right()
        &&& outer.y <= self.y
        &&& self.bottom() <= outer.bottom()
    }

    /// The two rectangles share no cell.
    pub open spec fn disjoint(self, other: Rect) -> bool {
        forall|px: int, py: int| !(self.covers(px, py) && other.covers(px, py))
    }

    /// A rectangle at `(x, y)`; width and height are cut so that it stays
    /// inside the coordinate space.
    pub fn new(x: u16, y: u16, width: u16, height: u16) -> (r: Rect)
        ensures
            r.wf(),
            r.x == x,
            r.y == y,
            r.width == if x + width <= u16::MAX { width as int } else { u16::MAX - x },
            r.height == if y + height <= u16::MAX { height as int } else { u16::MAX - y },
    {
        let w: u16 = if width <= u16::MAX - x { width } else { u16::MAX - x };
        let h: u16 = if height <= u16::MAX - y { height } else { u16::MAX - y };
        Rect { x, y, width: w, height: h }
    }
}

/// Number of results shown for a ranking of `count` results.
pub open spec fn shown(count: nat) -> nat {
    if count <= MAX_CELLS { count } else { MAX_CELLS as nat }
}

/// Cells in a full row of the right half, for a grid of `n >= 2` cells:
/// the least width with which three rows hold the `n - 1` cells there.
pub open spec fn row_width(n: nat) -> nat {
    (n + 1) / 3
}

/// Rows in the right half, for a grid of `n >= 2` cells.
pub open spec fn row_count(n: nat) -> nat {
    ((n + row_width(n) - 2) as int / row_width(n) as int) as nat
}

/// Cells in row `r` of the right half: every row is full but, at most, the last.
pub open spec fn cells_in_row(n: nat, r: nat) -> nat {
    let left = n - 1 - r * row_width(n);
    if left >= row_width(n) { row_width(n) } else { left as nat }
}

/// Where the `i`-th of `parts` even slices of a span of `len` cells begins.
pub open spec fn cut(len: int, parts: int, i: int) -> int {
    (i * len) / parts
}

/// The region of cell `i` in a grid of `n` cells laid out over `area`.
///
/// One cell takes the whole area. Otherwise cell 0 takes the left half, and
/// the cells after it fill the rows of the right half from the top, each
/// row from the left, the rows of even height and the cells of a row of
/// even width.
pub open spec fn cell_region(area: Rect, n: nat, i: nat) -> Rect {
    let half = area.width / 2;
    if n <= 1 {
        area
    } else if i == 0 {
        Rect { x: area.x, y: area.y, width: half, height: area.height }
    } else {
        let c = row_width(n) as int;
        let r = (i - 1) / c;
        let k = (i - 1) % c;
        let m = cells_in_row(n, r as nat) as int;
        let rows = row_count(n) as int;
        let rest = area.width - half;
        let top = cut(area.height as int, rows, r);
        let left = cut(rest, m, k);
        Rect {
            x: (area.x + half + left) as u16,
            y: (area.y + top) as u16,
            width: (cut(rest, m, k + 1) - left) as u16,
            height: (cut(area.height as int, rows, r + 1) - top) as u16,
        }
    }
}

/// One cell of the grid: which result it shows and where.
#[derive(Clone, Copy, Debug, PartialEq, Eq, Structural)]
pub struct DisplaySlot {
    /// Position of the result in the ranking.
    pub index: usize,
    pub region: Rect,
    /// Set on the slot of the top result.
    pub best: bool,
}

/// The slices of a span are laid out from its start, in order.
pub proof fn lemma_cut_monotonic(len: int, parts: int, i: int, j: int)
    requires
        0 <= len,
        0 < parts,
        0 <= i <= j,
    ensures
        0 <= cut(len, parts, i) <= cut(len, parts, j),
{
    assert(0 <= i * len <= j * len) by (nonlinear_arith)
        requires
            0 <= len,
            0 <= i <= j,
    ;
    vstd::arithmetic::div_mod::lemma_div_is_ordered(i * len, j * len, parts);
    vstd::arithmetic::div_mod::lemma_div_pos_is_pos(i * len, parts);
}

/// The first slice begins where the span begins, and the last one ends
/// where it ends.
pub proof fn lemma_cut_ends(len: int, parts: int)
    requires
        0 <= len,
        0 < parts,
    ensures
        cut(len, parts, 0) == 0,
        cut(len, parts, parts) == len,
{
    assert(0 * len == 0) by (nonlinear_arith);
    vstd::arithmetic::div_mod::lemma_div_multiples_vanish(len, parts);
}

/// A span with at least one cell per slice gives every slice a cell.
pub proof fn lemma_cut_strict(len: int, parts: int, i: int)
    requires
        0 < parts <= len,
        0 <= i,
    ensures
        cut(len, parts, i) < cut(len, parts, i + 1),
{
    assert((i + 1) * len == i * len + len) by (nonlinear_arith);
    assert(0 <= i * len) by (nonlinear_arith)
        requires
            0 <= len,
            0 <= i,
    ;
    vstd::arithmetic::div_mod::lemma_div_is_ordered(i * len + parts, i * len + len, parts);
    vstd::arithmetic::div_mod::lemma_div_plus_one(i * len, parts);
}

/// Start of slice `i` of `parts` even slices of `len` cells.
fn slice_start(len: u16, parts: u16, i: u16) -> (r: u16)
    requires
        0 < parts,
        i <= parts,
    ensures
        r == cut(len as int, parts as int, i as int),
        r <= len,
{
    proof {
        lemma_cut_monotonic(len as int, parts as int, i as int, parts as int);
        lemma_cut_ends(len as int, parts as int);
        assert(0 <= (i as int) * (len as int) <= 65535 * 65535) by (nonlinear_arith)
            requires
                0 <= i <= 65535,
                0 <= len <= 65535,
        ;
    }
    let p: u32 = (i as u32) * (len as u32);
    (p / (parts as u32)) as u16
}

/// Lays the first `MAX_CELLS` of `count` results out over `area`.
///
/// Slot `i` shows result `i` in the region that `cell_region` gives it; the
/// slot of the top result is marked.
pub fn pack(area: Rect, count: usize) -> (slots: Vec<DisplaySlot>)
    requires
        area.wf(),
    ensures
        slots.len() == shown(count as nat),
        forall|i: int|
            0 <= i < slots.len() ==> (#[trigger] slots[i]) == (DisplaySlot {
                index: i as usize,
                region: cell_region(area, shown(count as nat), i as nat),
                best: i == 0,
            }),
{
    let n: usize = if count <= MAX_CELLS { count } else { MAX_CELLS };
    let mut slots: Vec<DisplaySlot> = Vec::new();
    if n == 0 {
        return slots;
    }
    if n == 1 {
        slots.push(DisplaySlot { index: 0, region: area, best: true });
        return slots;
    }
    let half: u16 = area.width / 2;
    let rest: u16 = area.width - half;
    slots.push(
        DisplaySlot {
            index: 0,
            region: Rect { x: area.x, y: area.y, width: half, height: area.height },
            best: true,
        },
    );
    let c: usize = (n + 1) / 3;
    let rows: usize = (n + c - 2) / c;
    let mut i: usize = 1;
    while i < n
        invariant
            area.wf(),
            2 <= n <= MAX_CELLS,
            n == shown(count as nat),
            1 <= i <= n,
            c == row_width(n as nat),
            rows == row_count(n as nat),
            half == area.width / 2,
            rest == area.width - half,
            slots.len() == i,
            forall|j: int|
                0 <= j < i ==> (#[trigger] slots[j]) == (DisplaySlot {
                    index: j as usize,
                    region: cell_region(area, n as nat, j as nat),
                    best: j == 0,
                }),
        decreases n - i,
    {
        let r: usize = (i - 1) / c;
        let k: usize = (i - 1) % c;
        assert(c == 1 || c == 2 || c == 3);
        assert(r * c + k == i - 1) by (nonlinear_arith)
            requires
                r == (i - 1) / (c as int),
                k == (i - 1) % (c as int),
                c > 0,
        ;
        assert(r * c <= 9 && r < rows && r <= 8) by (nonlinear_arith)
            requires
                r * c + k == i - 1,
                0 <= k,
                i < n <= 10,
                1 <= c <= 3,
                rows == (n + c - 2) / (c as int),
        ;
        let left: usize = n - 1 - r * c;
        let m: usize = if left >= c { c } else { left };
        assert(m == cells_in_row(n as nat, r as nat));
        assert(k < m);
        let top: u16 = slice_start(area.height, rows as u16, r as u16);
        let bottom: u16 = slice_start(area.height, rows as u16, (r + 1) as u16);
        let from: u16 = slice_start(rest, m as u16, k as u16);
        let to: u16 = slice_start(rest, m as u16, (k + 1) as u16);
        proof {
            lemma_cut_monotonic(area.height as int, rows as int, r as int, r + 1);
            lemma_cut_monotonic(rest as int, m as int, k as int, k + 1);
        }
        slots.push(
            DisplaySlot {
                index: i,
                region: Rect {
                    x: area.x + half + from,
                    y: area.y + top,
                    width: to - from,
                    height: bottom - top,
                },
                best: false,
            },
        );
        i += 1;
    }
    slots
}

/// The shape of the right half: at most three rows of at most three cells,
/// and every cell after the first has its row and its place in that row.
pub proof fn lemma_grid_shape(n: nat, i: nat)
    requires
        2 <= n <= MAX_CELLS,
        1 <= i < n,
    ensures
        1 <= row_width(n) <= 3,
        1 <= row_count(n) <= 3,
        0 <= (i - 1) / (row_width(n) as int) < row_count(n),
        1 <= cells_in_row(n, ((i - 1) / (row_width(n) as int)) as nat) <= row_width(n),
        0 <= (i - 1) % (row_width(n) as int) < cells_in_row(
            n,
            ((i - 1) / (row_width(n) as int)) as nat,
        ),
{
    let c = row_width(n) as int;
    assert(c == 1 || c == 2 || c == 3);
    let r = (i - 1) / c;
    let k = (i - 1) % c;
    assert(r * c + k == i - 1 && 0 <= k < c) by (nonlinear_arith)
        requires
            r == (i - 1) / c,
            k == (i - 1) % c,
            c > 0,
    ;
    assert(0 <= r && r * c <= 9 && r < (n + c - 2) / c) by (nonlinear_arith)
        requires
            r * c + k == i - 1,
            0 <= k < c,
            1 <= i < n <= 10,
            1 <= c <= 3,
    ;
    assert(1 <= (n + c - 2) / c <= 3) by (nonlinear_arith)
        requires
            2 <= n <= 10,
            c == (n + 1) / 3,
    ;
}

/// The edges of a cell after the first, as cuts of the right half.
proof fn lemma_cell_edges(area: Rect, n: nat, i: nat)
    requires
        area.wf(),
        2 <= n <= MAX_CELLS,
        1 <= i < n,
    ensures
        ({
            let c = row_width(n) as int;
            let r = (i - 1) / c;
            let k = (i - 1) % c;
            let m = cells_in_row(n, r as nat) as int;
            let rows = row_count(n) as int;
            let half = area.width / 2;
            let rest = area.width - half;
            let cell = cell_region(area, n, i);
            &&& cell.x == area.x + half + cut(rest, m, k)
            &&& cell.right() == area.x + half + cut(rest, m, k + 1)
            &&& cell.y == area.y + cut(area.height as int, rows, r)
            &&& cell.bottom() == area.y + cut(area.height as int, rows, r + 1)
            &&& 0 <= cut(rest, m, k) <= cut(rest, m, k + 1) <= rest
            &&& 0 <= cut(area.height as int, rows, r) <= cut(area.height as int, rows, r + 1)
                <= area.height
        }),
{
    lemma_grid_shape(n, i);
    let c = row_width(n) as int;
    let r = (i - 1) / c;
    let k = (i - 1) % c;
    let m = cells_in_row(n, r as nat) as int;
    let rows = row_count(n) as int;
    let rest = area.width - area.width / 2;
    lemma_cut_monotonic(rest, m, k, k + 1);
    lemma_cut_monotonic(rest, m, k + 1, m);
    lemma_cut_ends(rest, m);
    lemma_cut_monotonic(area.height as int, rows, r, r + 1);
    lemma_cut_monotonic(area.height as int, rows, r + 1, rows);
    lemma_cut_ends(area.height as int, rows);
}

/// Every cell of the grid lies inside the area that was laid out.
pub proof fn lemma_cells_within(area: Rect, n: nat, i: nat)
    requires
        area.wf(),
        1 <= n <= MAX_CELLS,
        i < n,
    ensures
        cell_region(area, n, i).wf(),
        cell_region(area, n, i).within(area),
{
    if n >= 2 && i >= 1 {
        lemma_cell_edges(area, n, i);
    }
}

/// No two cells of the grid share a screen cell.
pub proof fn lemma_cells_disjoint(area: Rect, n: nat, i: nat, j: nat)
    requires
        area.wf(),
        1 <= n <= MAX_CELLS,
        i < j < n,
    ensures
        cell_region(area, n, i).disjoint(cell_region(area, n, j)),
        cell_region(area, n, j).disjoint(cell_region(area, n, i)),
{
    let a = cell_region(area, n, i);
    let b = cell_region(area, n, j);
    lemma_cell_edges(area, n, j);
    if i == 0 {
        assert(a.right() <= b.x);
    } else {
        lemma_cell_edges(area, n, i);
        lemma_grid_shape(n, i);
        lemma_grid_shape(n, j);
        let c = row_width(n) as int;
        let ri = (i - 1) / c;
        let rj = (j - 1) / c;
        let ki = (i - 1) % c;
        let kj = (j - 1) % c;
        assert(ri * c + ki == i - 1 && rj * c + kj == j - 1) by (nonlinear_arith)
            requires
                ri == (i - 1) / c,
                ki == (i - 1) % c,
                rj == (j - 1) / c,
                kj == (j - 1) % c,
                c > 0,
        ;
        assert(ri < rj || (ri == rj && ki < kj)) by (nonlinear_arith)
            requires
                ri * c + ki == i - 1,
                rj * c + kj == j - 1,
                0 <= ki < c,
                0 <= kj < c,
                i < j,
        ;
        let rows = row_count(n) as int;
        let rest = area.width - area.width / 2;
        if ri < rj {
            lemma_cut_monotonic(area.height as int, rows, ri + 1, rj);
            assert(a.bottom() <= b.y);
        } else {
            let m = cells_in_row(n, ri as nat) as int;
            lemma_cut_monotonic(rest, m, ki + 1, kj);
            assert(a.right() <= b.x);
        }
    }
}

/// Where the area has a column for every cell of a row and its left
/// neighbour, and a line for every row, no cell of the grid is empty.
pub proof fn lemma_cells_not_empty(area: Rect, n: nat, i: nat)
    requires
        area.wf(),
        1 <= n <= MAX_CELLS,
        i < n,
        area.width >= 2 * row_width(n),
        area.width >= 1,
        area.height >= 1,
        n >= 2 ==> area.height >= row_count(n),
    ensures
        !cell_region(area, n, i).is_empty(),
{
    if n >= 2 && i >= 1 {
        lemma_cell_edges(area, n, i);
        lemma_grid_shape(n, i);
        let c = row_width(n) as int;
        let r = (i - 1) / c;
        let k = (i - 1) % c;
        let m = cells_in_row(n, r as nat) as int;
        let rest = area.width - area.width / 2;
        lemma_cut_strict(rest, m, k);
        lemma_cut_strict(area.height as int, row_count(n) as int, r);
    } else if n >= 2 {
        lemma_grid_shape(n, 1);
    }
}

/// The slice of a span that holds cell `p` of it, counted from the start
/// of the span, among the first `j` slices.
proof fn lemma_cut_locate(len: int, parts: int, p: int, j: int)
    requires
        0 < parts,
        0 <= len,
        1 <= j <= parts,
        0 <= p < cut(len, parts, j),
    ensures
        exists|i: int| 0 <= i < j && cut(len, parts, i) <= p < #[trigger] cut(len, parts, i + 1),
    decreases j,
{
    if cut(len, parts, j - 1) <= p {
        assert(cut(len, parts, j - 1) <= p < cut(len, parts, (j - 1) + 1));
    } else {
        lemma_cut_ends(len, parts);
        lemma_cut_locate(len, parts, p, j - 1);
        let i = choose|i: int|
            0 <= i < j - 1 && cut(len, parts, i) <= p < #[trigger] cut(len, parts, i + 1);
        assert(0 <= i < j);
    }
}

/// The cells of the grid leave nothing of the area out: every screen cell
/// of the area lies in one of them.
pub proof fn lemma_cells_cover(area: Rect, n: nat, px: int, py: int)
    requires
        area.wf(),
        1 <= n <= MAX_CELLS,
        area.covers(px, py),
    ensures
        exists|i: nat| i < n && #[trigger] cell_region(area, n, i).covers(px, py),
{
    let half = area.width / 2;
    if n == 1 {
        assert(cell_region(area, n, 0).covers(px, py));
    } else if px < area.x + half {
        assert(cell_region(area, n, 0).covers(px, py));
    } else {
        lemma_grid_shape(n, 1);
        let c = row_width(n) as int;
        let rows = row_count(n) as int;
        let rest = area.width - half;
        let height = area.height as int;
        lemma_cut_ends(height, rows);
        lemma_cut_locate(height, rows, py - area.y, rows);
        let r = choose|r: int|
            0 <= r < rows && cut(height, rows, r) <= py - area.y < #[trigger] cut(
                height,
                rows,
                r + 1,
            );
        assert(c == 1 || c == 2 || c == 3);
        assert(r * c <= n - 2) by (nonlinear_arith)
            requires
                0 <= r < rows,
                rows == (n + c - 2) / c,
                1 <= c <= 3,
                2 <= n <= 10,
        ;
        let m = cells_in_row(n, r as nat) as int;
        assert(1 <= m <= c);
        lemma_cut_ends(rest, m);
        lemma_cut_locate(rest, m, px - area.x - half, m);
        let k = choose|k: int|
            0 <= k < m && cut(rest, m, k) <= px - area.x - half < #[trigger] cut(rest, m, k + 1);
        let i = (1 + r * c + k) as nat;
        assert(i < n);
        assert((i - 1) / c == r && (i - 1) % c == k) by (nonlinear_arith)
            requires
                i - 1 == r * c + k,
                0 <= k < c,
                0 <= r,
        ;
        lemma_cell_edges(area, n, i);
        assert(cell_region(area, n, i).covers(px, py));
    }
}

/// What a cell of the grid was last drawn at. The image of a cell is
/// encoded for a size, so it is encoded again only when the size of its
/// region changes.
#[derive(Clone, Copy, Debug, PartialEq, Eq, Structural)]
pub struct CellCache {
    pub last_area: Option<Rect>,
}

impl CellCache {
    /// A cell that was not drawn yet.
    pub fn new() -> (cell: CellCache)
        ensures
            cell.last_area is None,
    {
        CellCache { last_area: None }
    }

    /// The image has to be encoded for `region`: the cell was not drawn
    /// yet, or at another size.
    pub open spec fn stale(self, region: Rect) -> bool {
        match self.last_area {
            Some(last) => last.width != region.width || last.height != region.height,
            None => true,
        }
    }

    /// Remembers the region that the cell is drawn at now, and tells
    /// whether its image has to be encoded for it.
    pub fn refresh(&mut self, region: Rect) -> (encode: bool)
        ensures
            encode == old(self).stale(region),
            final(self).last_area == Some(region),
    {
        let encode = match self.last_area {
            Some(last) => last.width != region.width || last.height != region.height,
            None => true,
        };
        self.last_area = Some(region);
        encode
    }
}

/// Forgets what every cell was last drawn at.
pub fn invalidate_image_cache(cells: &mut Vec<CellCache>)
    ensures
        final(cells).len() == old(cells).len(),
        forall|i: int| 0 <= i < final(cells).len() ==> (#[trigger] final(cells)[i]).last_area is None,
{
    let n = cells.len();
    let mut i: usize = 0;
    while i < n
        invariant
            i <= n,
            cells.len() == n,
            forall|j: int| 0 <= j < i ==> (#[trigger] cells[j]).last_area is None,
        decreases n - i,
    {
        cells[i].last_area = None;
        i += 1;
    }
}

/// A score in whole percent of a similarity of one; a score below
/// nothing counts as nothing.
pub open spec fn percent(score: int) -> nat {
    if score <= 0 {
        0
    } else {
        ((score * 100) / (SCORE_UNIT as int)) as nat
    }
}

/// The title of a cell.
pub open spec fn title_text(score: int, best: bool) -> Seq<char> {
    (if best { "Highest "@ } else { ""@ }) + "Confidence: "@ + decimal(percent(score)) + "%"@
}

/// The title of the cell of a result: its score in percent, and a word
/// before it on the cell of the top result.
pub fn confidence_title(score: i64, best: bool) -> (title: String)
    ensures
        title@ == title_text(score as int, best),
{
    let whole: u64 = if score <= 0 {
        0
    } else {
        ((score as i128 * 100) / (SCORE_UNIT as i128)) as u64
    };
    let mut title = String::from_str(if best { "Highest " } else { "" });
    title.append("Confidence: ");
    title.append(decimal_string(whole).as_str());
    title.append("%");
    title
}

} // verus!
