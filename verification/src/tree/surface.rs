use vstd::prelude::*;

verus! {

/// A rectangle of cells on the screen. Columns grow to the right, rows grow
/// downwards.
#[derive(Clone, Copy, Debug, PartialEq, Eq, Structural)]
pub struct Rect {
    pub x: u16,
    pub y: u16,
    pub width: u16,
    pub height: u16,
}

impl Rect {
    /// The column just right of the rectangle.
    pub open spec fn right(self) -> int {
        self.x + self.width
    }

    /// The row just below the rectangle.
    pub open spec fn bottom(self) -> int {
        self.y + self.height
    }

    /// Whether the cell in column `x` and row `y` lies in the rectangle.
    pub open spec fn contains(self, x: int, y: int) -> bool {
        self.x <= x < self.right() && self.y <= y < self.bottom()
    }

    /// The cells that lie in both rectangles.
    pub open spec fn meet(self, other: Rect) -> Rect {
        let left = if self.x >= other.x { self.x } else { other.x };
        let top = if self.y >= other.y { self.y } else { other.y };
        let right = if self.right() <= other.right() { self.right() } else { other.right() };
        let bottom = if self.bottom() <= other.bottom() { self.bottom() } else { other.bottom() };
        Rect {
            x: left,
            y: top,
            width: if right > left { (right - left) as u16 } else { 0 },
            height: if bottom > top { (bottom - top) as u16 } else { 0 },
        }
    }

    /// Every cell of the rectangle has a column and a row that a `u16` holds,
    /// and so have its right and bottom edges.
    pub open spec fn fits(self) -> bool {
        self.right() <= u16::MAX && self.bottom() <= u16::MAX
    }

    /// The rectangle cut off at the last column and row that can be named.
    pub open spec fn clipped(self) -> Rect {
        Rect {
            x: self.x,
            y: self.y,
            width: if self.right() <= u16::MAX { self.width } else { (u16::MAX - self.x) as u16 },
            height: if self.bottom() <= u16::MAX {
                self.height
            } else {
                (u16::MAX - self.y) as u16
            },
        }
    }

    /// A rectangle with the given corner and size, cut off where its size
    /// would reach past the last column or row.
    pub fn new(x: u16, y: u16, width: u16, height: u16) -> (r: Rect)
        ensures
            r == (Rect { x, y, width, height }).clipped(),
            r.fits(),
    {
        let max_width = u16::MAX - x;
        let max_height = u16::MAX - y;
        Rect {
            x,
            y,
            width: if width > max_width { max_width } else { width },
            height: if height > max_height { max_height } else { height },
        }
    }

    /// Whether the rectangle holds no cell.
    pub fn is_empty(self) -> (r: bool)
        ensures
            r == (self.width == 0 || self.height == 0),
            r == (forall|x: int, y: int| !self.contains(x, y)),
    {
        proof {
            if self.width > 0 && self.height > 0 {
                assert(self.contains(self.x as int, self.y as int));
            }
        }
        self.width == 0 || self.height == 0
    }

    /// The rectangle of the cells that lie in both `self` and `other`.
    pub fn intersection(self, other: Rect) -> (r: Rect)
        ensures
            r == self.meet(other),
            forall|x: int, y: int|
                r.contains(x, y) <==> self.contains(x, y) && other.contains(x, y),
            r.width <= self.width && r.width <= other.width,
            r.height <= self.height && r.height <= other.height,
            self.fits() || other.fits() ==> r.fits(),
    {
        let left = if self.x >= other.x { self.x } else { other.x };
        let top = if self.y >= other.y { self.y } else { other.y };
        let r1: u32 = self.x as u32 + self.width as u32;
        let r2: u32 = other.x as u32 + other.width as u32;
        let b1: u32 = self.y as u32 + self.height as u32;
        let b2: u32 = other.y as u32 + other.height as u32;
        let right = if r1 <= r2 { r1 } else { r2 };
        let bottom = if b1 <= b2 { b1 } else { b2 };
        let width = if right > left as u32 { (right - left as u32) as u16 } else { 0 };
        let height = if bottom > top as u32 { (bottom - top as u32) as u16 } else { 0 };
        Rect { x: left, y: top, width, height }
    }
}

/// A terminal colour.
#[derive(Clone, Copy, Debug, PartialEq, Eq, Structural)]
pub enum Color {
    Reset,
    Black,
    Red,
    Green,
    Yellow,
    Blue,
    Magenta,
    Cyan,
    Gray,
    DarkGray,
    LightRed,
    LightGreen,
    LightYellow,
    LightBlue,
    LightMagenta,
    LightCyan,
    White,
    Rgb(u8, u8, u8),
    Indexed(u8),
}

/// What a style asks of a cell: a colour where it names one, no change where
/// it names none.
#[derive(Clone, Copy, Debug, PartialEq, Eq)]
pub struct Style {
    pub fg: Option<Color>,
    pub bg: Option<Color>,
}

impl Style {
    /// The style that `over` leaves when laid on top of `self`: what `over`
    /// names wins, the rest shows through.
    pub open spec fn patched(self, over: Style) -> Style {
        Style {
            fg: if over.fg is Some { over.fg } else { self.fg },
            bg: if over.bg is Some { over.bg } else { self.bg },
        }
    }

    /// The style that changes nothing.
    pub fn plain() -> (s: Style)
        ensures
            s == (Style { fg: None, bg: None }),
    {
        Style { fg: None, bg: None }
    }

    /// Lays `over` on top of `self`.
    pub fn patch(self, over: Style) -> (s: Style)
        ensures
            s == self.patched(over),
    {
        Style {
            fg: match over.fg {
                Some(c) => Some(c),
                None => self.fg,
            },
            bg: match over.bg {
                Some(c) => Some(c),
                None => self.bg,
            },
        }
    }
}

/// One cell of the grid: a character and how it is shown.
#[derive(Clone, Copy, Debug, PartialEq, Eq)]
pub struct Cell {
    pub symbol: char,
    pub style: Style,
}

impl Cell {
    /// A space in the terminal's own colours.
    pub open spec fn blank() -> Cell {
        Cell { symbol: ' ', style: Style { fg: None, bg: None } }
    }
}

/// What a buffer holds: its area and its cells, row after row.
pub struct Grid {
    pub area: Rect,
    pub cells: Seq<Cell>,
}

impl Grid {
    /// There is exactly one cell for each position of the area, and each
    /// position can be named.
    pub open spec fn wf(self) -> bool {
        self.area.fits() && self.cells.len() == self.area.width * self.area.height
    }

    /// Where the cell of column `x`, row `y` stands in `cells`.
    pub open spec fn index_of(self, x: int, y: int) -> int {
        (y - self.area.y) * self.area.width + (x - self.area.x)
    }

    /// The cell in column `x` and row `y`.
    pub open spec fn at(self, x: int, y: int) -> Cell {
        self.cells[self.index_of(x, y)]
    }
}

/// Each position of the area has a place of its own among the cells.
pub proof fn lemma_index_of(grid: Grid, x: int, y: int)
    requires
        grid.wf(),
        grid.area.contains(x, y),
    ensures
        0 <= grid.index_of(x, y) < grid.cells.len(),
        0 <= (y - grid.area.y) * grid.area.width <= grid.index_of(x, y),
        grid.index_of(x, y) / (grid.area.width as int) == y - grid.area.y,
        grid.index_of(x, y) % (grid.area.width as int) == x - grid.area.x,
{
    let w = grid.area.width as int;
    let h = grid.area.height as int;
    let dx = x - grid.area.x;
    let dy = y - grid.area.y;
    assert(0 <= dy * w && dy * w + dx < w * h) by (nonlinear_arith)
        requires
            0 <= dx < w,
            0 <= dy < h,
    ;
    vstd::arithmetic::div_mod::lemma_fundamental_div_mod_converse(dy * w + dx, w, dy, dx);
}

/// The cells of any area can be counted in a `usize`.
pub proof fn lemma_area_fits(area: Rect)
    ensures
        0 <= area.width * area.height <= u32::MAX <= usize::MAX,
{
    assert(0 <= area.width * area.height <= 65535 * 65535) by (nonlinear_arith)
        requires
            0 <= area.width <= 65535,
            0 <= area.height <= 65535,
    ;
}

/// Two grids over one area that agree position by position are the same grid.
pub proof fn lemma_grid_equal(a: Grid, b: Grid)
    requires
        a.wf(),
        b.wf(),
        a.area == b.area,
        forall|x: int, y: int| a.area.contains(x, y) ==> a.at(x, y) == b.at(x, y),
    ensures
        a == b,
{
    let w = a.area.width as int;
    let h = a.area.height as int;
    assert forall|k: int| 0 <= k < a.cells.len() implies a.cells[k] == b.cells[k] by {
        assert(w > 0) by (nonlinear_arith)
            requires
                0 <= k < w * h,
                w >= 0,
        ;
        let dy = k / w;
        let dx = k % w;
        vstd::arithmetic::div_mod::lemma_fundamental_div_mod(k, w);
        vstd::arithmetic::div_mod::lemma_mod_bound(k, w);
        assert(0 <= dy < h) by (nonlinear_arith)
            requires
                k == w * dy + dx,
                0 <= dx < w,
                0 <= k < w * h,
        ;
        let x = a.area.x + dx;
        let y = a.area.y + dy;
        assert(a.index_of(x, y) == k) by (nonlinear_arith)
            requires
                a.index_of(x, y) == dy * w + dx,
                k == w * dy + dx,
        ;
        assert(a.at(x, y) == b.at(x, y));
    }
    assert(a.cells =~= b.cells);
}

/// A grid of cells that widgets paint on.
#[derive(Debug, PartialEq, Eq)]
pub struct Buffer {
    area: Rect,
    cells: Vec<Cell>,
}

impl View for Buffer {
    type V = Grid;

    closed spec fn view(&self) -> Grid {
        Grid { area: self.area, cells: self.cells@ }
    }
}

impl Clone for Buffer {
    /// A buffer over the same area with the same cells.
    fn clone(&self) -> (copy: Self)
        ensures
            copy@ == self@,
    {
        proof {
            use_type_invariant(self);
        }
        let cells = self.cells.clone();
        Buffer { area: self.area, cells }
    }
}

impl Buffer {
    /// The buffer holds one cell for each position of its area.
    #[verifier::type_invariant]
    closed spec fn whole(&self) -> bool {
        self.area.fits() && self.cells@.len() == self.area.width * self.area.height
    }

    /// The buffer holds one cell for each position of its area.
    pub open spec fn wf(&self) -> bool {
        self@.wf()
    }

    /// A buffer over `area`, cut off where it would reach past the last column
    /// or row, in which every cell is blank.
    pub fn empty(area: Rect) -> (buf: Buffer)
        ensures
            buf.wf(),
            buf@.area == area.clipped(),
            forall|x: int, y: int| buf@.area.contains(x, y) ==> buf@.at(x, y) == Cell::blank(),
    {
        let area = Rect::new(area.x, area.y, area.width, area.height);
        proof {
            lemma_area_fits(area);
        }
        let n: usize = area.width as usize * area.height as usize;
        let mut cells: Vec<Cell> = Vec::new();
        let mut k: usize = 0;
        while k < n
            invariant
                k <= n,
                cells@.len() == k,
                forall|j: int| 0 <= j < k ==> cells@[j] == Cell::blank(),
            decreases n - k,
        {
            cells.push(Cell { symbol: ' ', style: Style { fg: None, bg: None } });
            k = k + 1;
        }
        let buf = Buffer { area, cells };
        proof {
            assert forall|x: int, y: int| buf@.area.contains(x, y) implies buf@.at(x, y)
                == Cell::blank() by {
                lemma_index_of(buf@, x, y);
            }
        }
        buf
    }

    /// The area that the buffer covers.
    pub fn area(&self) -> (r: Rect)
        ensures
            r == self@.area,
            self.wf(),
    {
        proof {
            use_type_invariant(self);
        }
        self.area
    }

    /// The cell in column `x` and row `y`, if the buffer covers that position.
    pub fn get(&self, x: u16, y: u16) -> (r: Option<Cell>)
        ensures
            r == if self@.area.contains(x as int, y as int) {
                Some(self@.at(x as int, y as int))
            } else {
                None::<Cell>
            },
            self.wf(),
    {
        proof {
            use_type_invariant(self);
        }
        if x >= self.area.x && y >= self.area.y && ((x - self.area.x) as u32) < self.area.width as u32
            && ((y - self.area.y) as u32) < self.area.height as u32 {
            proof {
                lemma_index_of(self@, x as int, y as int);
                lemma_area_fits(self.area);
            }
            let k = (y - self.area.y) as usize * self.area.width as usize + (x - self.area.x) as usize;
            Some(self.cells[k])
        } else {
            None
        }
    }

    /// Puts `cell` in column `x`, row `y`. Every other cell stays as it is.
    pub fn put(&mut self, x: u16, y: u16, cell: Cell)
        requires
            old(self)@.area.contains(x as int, y as int),
        ensures
            old(self).wf(),
            final(self).wf(),
            final(self)@.area == old(self)@.area,
            final(self)@.at(x as int, y as int) == cell,
            forall|x2: int, y2: int|
                old(self)@.area.contains(x2, y2) && !(x2 == x && y2 == y) ==> final(self)@.at(
                    x2,
                    y2,
                ) == old(self)@.at(x2, y2),
    {
        proof {
            use_type_invariant(&*self);
            lemma_index_of(self@, x as int, y as int);
            lemma_area_fits(self.area);
        }
        let k = (y - self.area.y) as usize * self.area.width as usize + (x - self.area.x) as usize;
        let ghost before = self@;
        self.cells[k] = cell;
        proof {
            assert forall|x2: int, y2: int|
                before.area.contains(x2, y2) && !(x2 == x && y2 == y) implies self@.at(x2, y2)
                == before.at(x2, y2) by {
                lemma_index_of(before, x2, y2);
                lemma_index_of(before, x as int, y as int);
            }
        }
    }
}

} // verus!
