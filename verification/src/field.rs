//! The field: a square of edge `size`, the square inscribed in it at 45
//! degrees, and the grid of cells laid over that inscribed square.
use vstd::prelude::*;
use crate::pieces::{Cell, Square, SquareOrientation};

verus! {

/// The numbers of a [`Field`] as mathematical integers.
pub struct FieldModel {
    pub scale: int,
    pub center: (int, int),
    pub size: int,
    pub smaller: int,
    pub cell_size: int,
    pub cell_spacing: int,
}

/// `edge` is the edge of the square inscribed at 45 degrees in a square of
/// edge `size`, rounded down: the largest whole number whose square, doubled,
/// does not exceed the square of `size`.
pub open spec fn is_inscribed_edge(size: int, edge: int) -> bool {
    &&& 0 <= edge
    &&& 2 * (edge * edge) <= size * size
    &&& size * size < 2 * ((edge + 1) * (edge + 1))
}

impl FieldModel {
    /// The base unit: the inscribed edge shared out over the `scale - 2`
    /// cells of an inner row.
    pub open spec fn unit(self) -> int {
        self.smaller / (self.scale - 2)
    }

    /// Distance between the centers of two neighbouring cells.
    pub open spec fn pitch(self) -> int {
        self.cell_size + self.cell_spacing
    }

    /// The derived lengths are the ones that `scale` and `size` determine.
    pub open spec fn wf(self) -> bool {
        &&& 3 <= self.scale <= u32::MAX
        &&& i32::MIN <= self.center.0 <= i32::MAX
        &&& i32::MIN <= self.center.1 <= i32::MAX
        &&& 0 <= self.size <= u32::MAX
        &&& is_inscribed_edge(self.size, self.smaller)
        &&& self.cell_size == self.unit() * 95 / 100
        &&& self.cell_spacing == self.unit() * 5 / 100
    }

    /// Offset of the cells of row or column 1 from the field's center:
    /// `-smaller/2 + cell_size/2 + cell_spacing/2`, rounded down.
    pub open spec fn origin(self) -> int {
        (self.cell_size + self.cell_spacing - self.smaller) / 2
    }

    /// Offset of the cells of row or column `i` from the field's center. Row 1,
    /// not row 0, sits at the origin: the outer ring straddles the edge of the
    /// inscribed square.
    pub open spec fn offset(self, i: int) -> int {
        self.origin() + (i - 1) * self.pitch()
    }

    /// What the offsets of two rows that mirror each other add up to. It is
    /// what rounding down has cost; 0 means that the board is exactly
    /// symmetric about the center.
    pub open spec fn skew(self) -> int {
        2 * self.origin() + (self.scale - 3) * self.pitch()
    }

    /// The cell of row `i` and column `j`.
    pub open spec fn cell(self, i: int, j: int) -> CellPosition {
        CellPosition {
            i: i as u32,
            j: j as u32,
            x: self.offset(i) as i64,
            y: self.offset(j) as i64,
        }
    }

    /// The whole grid, read row by row.
    pub open spec fn grid(self) -> Seq<CellPosition> {
        Seq::new((self.scale * self.scale) as nat, |g: int| self.cell(g / self.scale, g % self.scale))
    }

    /// Every cell of the grid but the four corners, row by row.
    pub open spec fn cells(self) -> Seq<CellPosition> {
        self.grid().filter(off_corner(self.scale))
    }

    /// The cells by number: with the corners left out, cell number `k` is the
    /// one at place `grid_rank(k)` of the whole grid.
    spec fn numbered(self) -> Seq<CellPosition> {
        Seq::new(
            cell_count(self.scale) as nat,
            |k: int| self.cell(grid_rank(self.scale, k) / self.scale, grid_rank(self.scale, k) % self.scale),
        )
    }
}

/// One cell of the board: its row `i` and column `j`, and the offset of its
/// center from the center of the field.
#[derive(Clone, Copy, Debug, PartialEq, Eq, Structural)]
pub struct CellPosition {
    pub i: u32,
    pub j: u32,
    pub x: i64,
    pub y: i64,
}

impl CellPosition {
    /// The cell that stands here: it is known by its row.
    pub fn cell(&self) -> (cell: Cell)
        ensures
            cell.id == self.i,
    {
        Cell { id: self.i }
    }

    /// The square that fills the cell. Every square starts out horizontal.
    pub fn square(&self) -> (square: Square)
        ensures
            square.orientation == SquareOrientation::Horizontal,
    {
        Square { orientation: SquareOrientation::Horizontal }
    }
}

/// The four cells at the ends of the first and the last row.
pub open spec fn is_corner(scale: int, i: int, j: int) -> bool {
    (i == 0 || i == scale - 1) && (j == 0 || j == scale - 1)
}

/// Holds of the cells that are no corner.
pub open spec fn off_corner(scale: int) -> spec_fn(CellPosition) -> bool {
    |c: CellPosition| !is_corner(scale, c.i as int, c.j as int)
}

/// Number of cells of a board: the whole grid less its corners.
pub open spec fn cell_count(scale: int) -> int {
    scale * scale - 4
}

/// Place of the cell `(i, j)` when the whole grid is read row by row.
pub open spec fn rank(scale: int, i: int, j: int) -> int {
    i * scale + j
}

/// How many corners come before place `r` of the whole grid.
pub open spec fn corners_before(scale: int, r: int) -> int {
    (if 0 < r { 1int } else { 0 })
    + (if scale - 1 < r { 1int } else { 0 })
    + (if scale * scale - scale < r { 1int } else { 0 })
    + (if scale * scale - 1 < r { 1int } else { 0 })
}

/// Place in the whole grid of the cell that is number `k` once the corners
/// are left out.
pub open spec fn grid_rank(scale: int, k: int) -> int {
    if k < scale - 2 {
        k + 1
    } else if k < scale * scale - scale - 2 {
        k + 2
    } else {
        k + 3
    }
}

/// Geometry of the board. Built by [`Field::calculate`] and never changed.
#[derive(Clone, Copy, Debug)]
pub struct Field {
    scale: u32,
    center: (i32, i32),
    size: u32,
    smaller: u32,
    cell_spacing: u32,
    cell_size: u32,
}

impl View for Field {
    type V = FieldModel;

    closed spec fn view(&self) -> FieldModel {
        FieldModel {
            scale: self.scale as int,
            center: (self.center.0 as int, self.center.1 as int),
            size: self.size as int,
            smaller: self.smaller as int,
            cell_size: self.cell_size as int,
            cell_spacing: self.cell_spacing as int,
        }
    }
}

proof fn lemma_square_le(a: int, b: int)
    by (nonlinear_arith)
    requires
        0 <= a <= b,
    ensures
        a * a <= b * b,
{
}

/// Edge of the square inscribed at 45 degrees in a square of edge `size`:
/// `size / sqrt(2)`, rounded down.
pub fn inscribed_edge(size: u32) -> (edge: u32)
    ensures
        is_inscribed_edge(size as int, edge as int),
{
    proof {
        lemma_square_le(size as int, u32::MAX as int);
    }
    let target: u128 = (size as u128) * (size as u128);
    let mut lo: u64 = 0;
    let mut hi: u64 = size as u64 + 1;
    assert(target < 2 * (hi * hi)) by (nonlinear_arith)
        requires
            target == size * size,
            hi == size + 1,
    ;
    while hi - lo > 1
        invariant
            lo < hi <= size + 1,
            target == size * size,
            2 * (lo * lo) <= target,
            target < 2 * (hi * hi),
        decreases hi - lo,
    {
        let mid: u64 = lo + (hi - lo) / 2;
        proof {
            lemma_square_le(mid as int, 0x1_0000_0000);
        }
        let doubled: u128 = 2 * ((mid as u128) * (mid as u128));
        if doubled <= target {
            lo = mid;
        } else {
            hi = mid;
        }
    }
    lo as u32
}

impl Field {
    #[verifier::type_invariant]
    spec fn inv(self) -> bool {
        self@.wf()
    }

    /// Number of cells per side.
    pub fn scale(&self) -> (scale: u32)
        ensures
            scale == self@.scale,
            self@.wf(),
    {
        proof {
            use_type_invariant(self);
        }
        self.scale
    }

    /// Where the field's center lies.
    pub fn center(&self) -> (center: (i32, i32))
        ensures
            (center.0 as int, center.1 as int) == self@.center,
    {
        self.center
    }

    /// Edge of the square that bounds the field.
    pub fn size(&self) -> (size: u32)
        ensures
            size == self@.size,
    {
        self.size
    }

    /// Edge of the square inscribed at 45 degrees.
    pub fn smaller(&self) -> (smaller: u32)
        ensures
            smaller == self@.smaller,
    {
        self.smaller
    }

    /// Edge of a cell.
    pub fn cell_size(&self) -> (cell_size: u32)
        ensures
            cell_size == self@.cell_size,
    {
        self.cell_size
    }

    /// Gap between two cells.
    pub fn cell_spacing(&self) -> (cell_spacing: u32)
        ensures
            cell_spacing == self@.cell_spacing,
    {
        self.cell_spacing
    }

    /// The field of a window: centred at the origin, in a square of half the
    /// window's smaller side.
    pub fn in_window(scale: u32, width: u32, height: u32) -> (field: Field)
        requires
            scale >= 3,
        ensures
            field@.wf(),
            field@.scale == scale,
            field@.center == (0int, 0int),
            field@.size == (if width <= height {
                width
            } else {
                height
            }) / 2,
    {
        let side = if width <= height {
            width
        } else {
            height
        };
        Field::calculate(scale, (0, 0), side / 2)
    }

    /// Derives the geometry of a board of `scale` cells per side, centred at
    /// `center`, in a square of edge `size`.
    pub fn calculate(scale: u32, center: (i32, i32), size: u32) -> (field: Field)
        requires
            scale >= 3,
        ensures
            field@.wf(),
            field@.scale == scale,
            field@.center == (center.0 as int, center.1 as int),
            field@.size == size,
    {
        let smaller = inscribed_edge(size);
        // The unit is measured on the inner rows, which the corners do not shorten.
        let unit: u64 = (smaller / (scale - 2)) as u64;
        let cell_spacing = (unit * 5 / 100) as u32;
        let cell_size = (unit * 95 / 100) as u32;
        Field { scale, center, size, smaller, cell_spacing, cell_size }
    }
}

proof fn lemma_unit_fits(smaller: int, parts: int)
    by (nonlinear_arith)
    requires
        0 <= smaller,
        0 < parts,
    ensures
        0 <= smaller / parts,
        (smaller / parts) * parts <= smaller,
        smaller < (smaller / parts + 1) * parts,
{
}

proof fn lemma_scaled_le(a: int, b: int, c: int)
    by (nonlinear_arith)
    requires
        0 <= a <= b,
        0 <= c,
    ensures
        a * c <= b * c,
{
}

/// Facts about the place of `(i, j)` in the whole grid.
proof fn lemma_rank(scale: int, i: int, j: int)
    requires
        3 <= scale,
        0 <= i < scale,
        0 <= j < scale,
    ensures
        0 <= rank(scale, i, j) < scale * scale,
        rank(scale, i, j) / scale == i,
        rank(scale, i, j) % scale == j,
        i == 0 ==> rank(scale, i, j) == j,
        i == scale - 1 ==> rank(scale, i, j) == scale * scale - scale + j,
        0 < i < scale - 1 ==> scale <= rank(scale, i, j) < scale * scale - scale,
        rank(scale, i, j) + scale == rank(scale, i + 1, j),
        3 * scale <= scale * scale,
{
    lemma_scaled_le(3, scale, scale);
    assert(i * scale + scale == (i + 1) * scale) by (nonlinear_arith);
    assert((scale - 1) * scale == scale * scale - scale) by (nonlinear_arith);
    assert(0 * scale == 0);
    if 0 < i {
        lemma_scaled_le(1, i, scale);
    }
    if i < scale - 1 {
        lemma_scaled_le(i, scale - 2, scale);
        assert((scale - 2) * scale == scale * scale - 2 * scale) by (nonlinear_arith);
    }
    vstd::arithmetic::div_mod::lemma_fundamental_div_mod_converse(rank(scale, i, j), scale, i, j);
}

/// The offsets of a well-formed field are small.
proof fn lemma_offset_bounds(f: FieldModel, i: int)
    requires
        f.wf(),
        0 <= i < f.scale,
    ensures
        0 <= f.smaller <= f.size,
        0 <= f.pitch() <= f.unit() <= f.smaller,
        -0x1_0000_0000 <= (i - 1) * f.pitch() <= 0x1_0000_0000,
        -0x2_0000_0000 <= f.offset(i) <= 0x2_0000_0000,
{
    if f.smaller > f.size {
        lemma_square_le(f.size + 1, f.smaller);
        assert((f.size + 1) * (f.size + 1) > f.size * f.size) by (nonlinear_arith)
            requires
                0 <= f.size,
        ;
        lemma_square_le(0, f.smaller);
    }
    lemma_unit_fits(f.smaller, f.scale - 2);
    lemma_scaled_le(1, f.scale - 2, f.unit());
    lemma_scaled_le(0, f.pitch(), f.scale - 2);
    lemma_scaled_le(f.pitch(), f.unit(), f.scale - 2);
    assert(f.unit() * (f.scale - 2) == (f.scale - 2) * f.unit()) by (nonlinear_arith);
    if i >= 1 {
        lemma_scaled_le(i - 1, f.scale - 2, f.pitch());
        lemma_scaled_le(0, i - 1, f.pitch());
        assert((f.scale - 2) * f.pitch() == f.pitch() * (f.scale - 2)) by (nonlinear_arith);
    } else {
        assert((i - 1) * f.pitch() == -f.pitch()) by (nonlinear_arith)
            requires
                i == 0,
        ;
    }
}

/// What reading one more place of the grid does to the list of cells.
proof fn lemma_cell_step(f: FieldModel, i: int, j: int)
    requires
        f.wf(),
        0 <= i < f.scale,
        0 <= j < f.scale,
    ensures
        ({
            let r = rank(f.scale, i, j);
            let n = r - corners_before(f.scale, r);
            &&& 0 <= n <= f.numbered().len()
            &&& (r + 1) - corners_before(f.scale, r + 1) == if is_corner(f.scale, i, j) {
                n
            } else {
                n + 1
            }
            &&& !is_corner(f.scale, i, j) ==> n < f.numbered().len() && f.numbered()[n] == f.cell(i, j)
        }),
{
    lemma_rank(f.scale, i, j);
}

/// Row and column of place `g` of the whole grid.
proof fn lemma_unrank(scale: int, g: int)
    requires
        3 <= scale,
        0 <= g < scale * scale,
    ensures
        0 <= g / scale < scale,
        0 <= g % scale < scale,
        rank(scale, g / scale, g % scale) == g,
{
    vstd::arithmetic::div_mod::lemma_fundamental_div_mod(g, scale);
    vstd::arithmetic::div_mod::lemma_mod_pos_bound(g, scale);
    let i = g / scale;
    assert(scale * i == i * scale) by (nonlinear_arith);
    assert(0 <= i < scale) by (nonlinear_arith)
        requires
            0 < scale,
            0 <= g < scale * scale,
            g == i * scale + g % scale,
            0 <= g % scale < scale,
    ;
}

/// The first `r` places of the grid hold the first cells by number: as many
/// as there are places, less the corners among them.
proof fn lemma_cells_prefix(f: FieldModel, r: int)
    requires
        f.wf(),
        0 <= r <= f.scale * f.scale,
    ensures
        f.grid().take(r).filter(off_corner(f.scale)) == f.numbered().take(r - corners_before(f.scale, r)),
    decreases r,
{
    let keep = off_corner(f.scale);
    lemma_rank(f.scale, 0, 0);
    if r == 0 {
        reveal(Seq::filter);
        assert(f.grid().take(0).filter(keep) =~= f.numbered().take(0));
    } else {
        let g = r - 1;
        lemma_cells_prefix(f, g);
        lemma_unrank(f.scale, g);
        let i = g / f.scale;
        let j = g % f.scale;
        lemma_cell_step(f, i, j);
        let n = g - corners_before(f.scale, g);
        assert(f.grid().take(r) =~= f.grid().take(g).push(f.cell(i, j)));
        f.grid().take(g).lemma_filter_push(f.cell(i, j), keep);
        if !is_corner(f.scale, i, j) {
            assert(f.numbered().take(n + 1) =~= f.numbered().take(n).push(f.cell(i, j)));
        }
    }
}

/// The cells are the cells by number.
proof fn lemma_cells_closed(f: FieldModel)
    requires
        f.wf(),
    ensures
        f.cells() == f.numbered(),
{
    let all = f.scale * f.scale;
    lemma_rank(f.scale, 0, 0);
    lemma_cells_prefix(f, all);
    assert(f.grid().take(all) =~= f.grid());
    assert(f.numbered().take(all - 4) =~= f.numbered());
}

/// With the corners left out, cell number `k` is the one at place
/// `grid_rank(k)` of the whole grid.
pub proof fn lemma_cells_by_number(f: FieldModel, k: int)
    requires
        f.wf(),
        0 <= k < f.cells().len(),
    ensures
        f.cells()[k] == f.cell(grid_rank(f.scale, k) / f.scale, grid_rank(f.scale, k) % f.scale),
{
    lemma_cells_closed(f);
}

/// A board of `scale` cells per side has `scale * scale - 4` cells.
pub proof fn lemma_cells_count(f: FieldModel)
    requires
        f.wf(),
    ensures
        f.cells().len() == f.scale * f.scale - 4,
        5 <= f.cells().len(),
{
    lemma_cells_closed(f);
    lemma_rank(f.scale, 0, 0);
}

/// Each listed cell lies in the grid, is none of the four corners, stands at
/// the place `grid_rank` gives it, and carries the offsets of its row and
/// column.
pub proof fn lemma_cells_in_grid(f: FieldModel, k: int)
    requires
        f.wf(),
        0 <= k < f.cells().len(),
    ensures
        ({
            let c = f.cells()[k];
            &&& c.i < f.scale
            &&& c.j < f.scale
            &&& !is_corner(f.scale, c.i as int, c.j as int)
            &&& rank(f.scale, c.i as int, c.j as int) == grid_rank(f.scale, k)
            &&& c.x == f.offset(c.i as int)
            &&& c.y == f.offset(c.j as int)
        }),
{
    lemma_cells_closed(f);
    lemma_cells_count(f);
    let g = grid_rank(f.scale, k);
    lemma_unrank(f.scale, g);
    let i = g / f.scale;
    let j = g % f.scale;
    lemma_rank(f.scale, i, j);
    lemma_offset_bounds(f, i);
    lemma_offset_bounds(f, j);
}

/// Every place of the grid that is no corner is listed, at the number that
/// is its place in the whole grid less the corners before it.
pub proof fn lemma_cells_complete(f: FieldModel, i: int, j: int)
    requires
        f.wf(),
        0 <= i < f.scale,
        0 <= j < f.scale,
        !is_corner(f.scale, i, j),
    ensures
        ({
            let r = rank(f.scale, i, j);
            let n = r - corners_before(f.scale, r);
            0 <= n < f.cells().len() && f.cells()[n] == f.cell(i, j)
        }),
{
    lemma_cells_closed(f);
    lemma_cell_step(f, i, j);
}

/// The cells come row by row, and within a row column by column; so no two
/// of them share a row and a column.
pub proof fn lemma_cells_row_major(f: FieldModel, k: int, l: int)
    requires
        f.wf(),
        0 <= k < l < f.cells().len(),
    ensures
        ({
            let a = f.cells()[k];
            let b = f.cells()[l];
            a.i < b.i || (a.i == b.i && a.j < b.j)
        }),
{
    lemma_cells_in_grid(f, k);
    lemma_cells_in_grid(f, l);
    let a = f.cells()[k];
    let b = f.cells()[l];
    assert(grid_rank(f.scale, k) < grid_rank(f.scale, l));
    if a.i > b.i {
        lemma_scaled_le(b.i + 1, a.i as int, f.scale);
        assert((b.i + 1) * f.scale == b.i * f.scale + f.scale) by (nonlinear_arith);
    }
}

/// What rounding down costs the lengths: the cell and the gap together fall
/// short of the unit by at most one, and the units of an inner row fall short
/// of the inscribed edge by less than one for each cell.
pub proof fn lemma_rounding(f: FieldModel)
    requires
        f.wf(),
    ensures
        f.unit() - 1 <= f.cell_size + f.cell_spacing <= f.unit(),
        (f.scale - 2) * f.unit() <= f.smaller < (f.scale - 2) * (f.unit() + 1),
        f.smaller <= f.size,
{
    lemma_offset_bounds(f, 0);
    lemma_unit_fits(f.smaller, f.scale - 2);
    assert(f.unit() * (f.scale - 2) == (f.scale - 2) * f.unit()) by (nonlinear_arith);
    assert((f.unit() + 1) * (f.scale - 2) == (f.scale - 2) * (f.unit() + 1)) by (nonlinear_arith);
}

/// Rounding down costs the board less than two units per inner cell.
pub proof fn lemma_skew_bounds(f: FieldModel)
    requires
        f.wf(),
    ensures
        -2 * (f.scale - 2) <= f.skew() <= 0,
{
    let t = f.scale - 2;
    let u = f.unit();
    let p = f.pitch();
    lemma_offset_bounds(f, 0);
    lemma_unit_fits(f.smaller, t);
    assert(u - 1 <= p <= u);
    assert(f.skew() == t * p - f.smaller + (2 * f.origin() - (p - f.smaller))) by (nonlinear_arith)
        requires
            f.skew() == 2 * f.origin() + (t - 1) * p,
    ;
    assert(t * u - t <= t * p <= t * u) by (nonlinear_arith)
        requires
            u - 1 <= p <= u,
            1 <= t,
    ;
    assert(u * t == t * u && (u + 1) * t == t * u + t) by (nonlinear_arith);
}

/// The board is symmetric under a half turn about its center, up to the
/// skew: the cell that mirrors cell number `k` is the one as far from the end
/// of the list as `k` is from its start, and their offsets add up to the
/// skew.
pub proof fn lemma_cells_symmetric(f: FieldModel, k: int)
    requires
        f.wf(),
        0 <= k < f.cells().len(),
    ensures
        ({
            let c = f.cells()[k];
            let m = f.cells()[f.cells().len() - 1 - k];
            &&& m.i == f.scale - 1 - c.i
            &&& m.j == f.scale - 1 - c.j
            &&& m.x == f.skew() - c.x
            &&& m.y == f.skew() - c.y
        }),
{
    let s = f.scale;
    let k2 = f.cells().len() - 1 - k;
    lemma_cells_count(f);
    lemma_cells_in_grid(f, k);
    lemma_cells_in_grid(f, k2);
    let c = f.cells()[k];
    let m = f.cells()[k2];
    let i2 = s - 1 - c.i;
    let j2 = s - 1 - c.j;
    lemma_rank(s, 0, 0);
    assert(k2 == s * s - 5 - k);
    assert(grid_rank(s, k2) == s * s - 1 - grid_rank(s, k));
    assert(rank(s, i2, j2) == s * s - 1 - rank(s, c.i as int, c.j as int)) by (nonlinear_arith)
        requires
            i2 == s - 1 - c.i,
            j2 == s - 1 - c.j,
    ;
    lemma_rank(s, i2, j2);
    lemma_rank(s, m.i as int, m.j as int);
    assert(f.offset(i2) == f.skew() - f.offset(c.i as int)) by (nonlinear_arith)
        requires
            i2 == f.scale - 1 - c.i,
            f.offset(i2) == f.origin() + (i2 - 1) * f.pitch(),
            f.offset(c.i as int) == f.origin() + (c.i - 1) * f.pitch(),
            f.skew() == 2 * f.origin() + (f.scale - 3) * f.pitch(),
    ;
    assert(f.offset(j2) == f.skew() - f.offset(c.j as int)) by (nonlinear_arith)
        requires
            j2 == f.scale - 1 - c.j,
            f.offset(j2) == f.origin() + (j2 - 1) * f.pitch(),
            f.offset(c.j as int) == f.origin() + (c.j - 1) * f.pitch(),
            f.skew() == 2 * f.origin() + (f.scale - 3) * f.pitch(),
    ;
}

/// The scale, the center and the size determine the whole field: two fields
/// derived from the same three are equal.
pub proof fn lemma_field_determined(a: FieldModel, b: FieldModel)
    requires
        a.wf(),
        b.wf(),
        a.scale == b.scale,
        a.center == b.center,
        a.size == b.size,
    ensures
        a == b,
{
    if a.smaller < b.smaller {
        lemma_square_le(a.smaller + 1, b.smaller);
    }
    if b.smaller < a.smaller {
        lemma_square_le(b.smaller + 1, a.smaller);
    }
}

/// The cells of the board: every place of the `scale` by `scale` grid but the
/// four corners, row by row, each with the offset of its center from the
/// center of the field.
pub fn calculate_cells(field: &Field) -> (cells: Vec<CellPosition>)
    ensures
        cells@ == field@.cells(),
        cells@.len() == field@.scale * field@.scale - 4,
        forall|k: int| 0 <= k < cells@.len() ==> !is_corner(field@.scale, #[trigger] cells@[k].i as int, cells@[k].j as int),
{
    proof {
        use_type_invariant(field);
        lemma_cells_count(field@);
        assert forall|k: int| 0 <= k < field@.cells().len() implies !is_corner(
            field@.scale,
            #[trigger] field@.cells()[k].i as int,
            field@.cells()[k].j as int,
        ) by {
            lemma_cells_in_grid(field@, k);
        }
    }
    let scale = field.scale;
    let pitch: i64 = field.cell_size as i64 + field.cell_spacing as i64;
    let slack: i64 = pitch - field.smaller as i64;
    let origin: i64 = if slack >= 0 {
        slack / 2
    } else {
        -((1 - slack) / 2)
    };
    let mut cells: Vec<CellPosition> = Vec::new();
    let mut i: u32 = 0;
    proof {
        lemma_rank(scale as int, 0, 0);
        assert(cells@ =~= field@.numbered().take(0));
    }
    while i < scale
        invariant
            field@.wf(),
            scale == field@.scale,
            pitch == field@.pitch(),
            origin == field@.origin(),
            i <= scale,
            cells@ == field@.numbered().take(
                rank(scale as int, i as int, 0) - corners_before(scale as int, rank(scale as int, i as int, 0)),
            ),
        decreases scale - i,
    {
        proof {
            lemma_offset_bounds(field@, i as int);
        }
        let x: i64 = origin + (i as i64 - 1) * pitch;
        let mut j: u32 = 0;
        while j < scale
            invariant
                field@.wf(),
                scale == field@.scale,
                pitch == field@.pitch(),
                origin == field@.origin(),
                i < scale,
                j <= scale,
                x == field@.offset(i as int),
                cells@ == field@.numbered().take(
                    rank(scale as int, i as int, j as int) - corners_before(
                        scale as int,
                        rank(scale as int, i as int, j as int),
                    ),
                ),
            decreases scale - j,
        {
            proof {
                lemma_offset_bounds(field@, j as int);
                lemma_cell_step(field@, i as int, j as int);
            }
            let y: i64 = origin + (j as i64 - 1) * pitch;
            if !((i == 0 || i == scale - 1) && (j == 0 || j == scale - 1)) {
                cells.push(CellPosition { i, j, x, y });
            }
            j = j + 1;
        }
        proof {
            lemma_rank(scale as int, i as int, 0);
        }
        i = i + 1;
    }
    proof {
        lemma_rank(scale as int, scale - 1, 0);
        assert(rank(scale as int, scale as int, 0) == scale * scale);
        assert(field@.numbered().take(field@.numbered().len() as int) =~= field@.numbered());
        lemma_cells_closed(field@);
    }
    cells
}

} // verus!
