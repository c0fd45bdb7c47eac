//! The module matrix: structural patterns and the zig-zag data placement.

use vstd::prelude::*;
use vstd::pervasive::VecAdditionalExecFns;
use crate::bits::{bit_seq, bits_get, bits_len, QREncodedData};
use crate::version::Version;

verus! {

/// A matrix coordinate, column then row.
pub type Coordinates = (usize, usize);

/// A QR code pixel (the standard calls them "modules"), tagged by the
/// structural role that claimed it. White modules are false, black
/// modules are true.
#[derive(Clone, Copy, Debug, PartialEq, Eq, Structural)]
pub enum Module {
    Unset,
    Data(bool),
    Finder(bool),
    TimingHorizontal(bool),
    TimingVertical(bool),
    Alignment(bool),
    Format(bool),
    Dark,
    Version(bool),
}

/// Whether a module renders black: the dark module always, an unset
/// module never, any other by its carried value.
pub open spec fn spec_module_black(m: Module) -> bool {
    match m {
        Module::Unset => false,
        Module::Dark => true,
        Module::Data(black) => black,
        Module::Finder(black) => black,
        Module::TimingHorizontal(black) => black,
        Module::TimingVertical(black) => black,
        Module::Alignment(black) => black,
        Module::Format(black) => black,
        Module::Version(black) => black,
    }
}

/// Whether the zig-zag scan passes over a module: every structural role
/// is skipped; free and data cells are visited.
pub open spec fn spec_zig_zag_skipped(m: Module) -> bool {
    match m {
        Module::Unset => false,
        Module::Data(_) => false,
        _ => true,
    }
}

impl Module {
    pub fn black(&self) -> (r: bool)
        ensures
            r == spec_module_black(*self),
    {
        match self {
            Module::Unset => false,
            Module::Dark => true,
            Module::Data(black) => *black,
            Module::Finder(black) => *black,
            Module::TimingHorizontal(black) => *black,
            Module::TimingVertical(black) => *black,
            Module::Alignment(black) => *black,
            Module::Format(black) => *black,
            Module::Version(black) => *black,
        }
    }

    pub fn zig_zag_skipped(&self) -> (r: bool)
        ensures
            r == spec_zig_zag_skipped(*self),
    {
        match self {
            Module::Unset => false,
            Module::Data(_) => false,
            _ => true,
        }
    }
}

/// The side length of a version's matrix.
pub open spec fn spec_side(vnum: int) -> int {
    4 * (vnum - 1) + 21
}

/// The centers of the alignment patterns along one axis: six, then an
/// arithmetic run of evenly spaced positions ending seven before the far
/// edge, the spacing rounded to even.
pub open spec fn spec_alignment_centers(vnum: int) -> Seq<int> {
    let n = vnum / 7 + 2;
    if vnum <= 1 {
        Seq::<int>::empty()
    } else {
        let last = 4 * vnum + 10;
        let q = (6 + last * (n - 2) + (n - 1) / 2) / (n - 1);
        let second_last = q - q % 2;
        let step = last - second_last;
        let second = last - (n - 2) * step;
        seq![6int] + Seq::new((n - 1) as nat, |k: int| second + k * step)
    }
}

/// Calculates the alignment pattern centers for a version number.
pub fn alignment_pattern_centers(version_num: u8) -> (r: Vec<usize>)
    requires
        1 <= version_num <= 40,
    ensures
        r@.len() == spec_alignment_centers(version_num as int).len(),
        forall|i: int|
            0 <= i < r@.len() ==> r@[i] == spec_alignment_centers(version_num as int)[i],
        forall|i: int| 0 <= i < r@.len() ==> 6 <= #[trigger] r@[i] <= 4 * version_num + 10,
{
    let vn = version_num as usize;
    let n: usize = vn / 7 + 2;
    let mut positions: Vec<usize> = Vec::new();
    if vn > 1 {
        positions.push(6);
        let last: usize = 4 * vn + 10;
        proof {
            assert(last * (n - 2) <= 170 * 5) by (nonlinear_arith)
                requires
                    0 <= last <= 170,
                    0 <= n - 2 <= 5,
            ;
        }
        let numerator: usize = 6 + last * (n - 2) + (n - 1) / 2;
        let q: usize = numerator / (n - 1);
        let second_last: usize = q - q % 2;
        proof {
            assert(2 <= n <= 7);
            if n == 2 {
                assert(second_last <= last && last - second_last >= 1 && (n - 2) * (last
                    - second_last) <= last - 6) by (nonlinear_arith)
                    requires
                        n == 2,
                        18 <= last <= 34,
                        q == (6 + last * (n - 2) + (n - 1) / 2) / (n - 1),
                        second_last == q - q % 2,
                ;
            } else if n == 3 {
                assert(second_last <= last && last - second_last >= 1 && (n - 2) * (last
                    - second_last) <= last - 6) by (nonlinear_arith)
                    requires
                        n == 3,
                        38 <= last <= 62,
                        q == (6 + last * (n - 2) + (n - 1) / 2) / (n - 1),
                        second_last == q - q % 2,
                ;
            } else if n == 4 {
                assert(second_last <= last && last - second_last >= 1 && (n - 2) * (last
                    - second_last) <= last - 6) by (nonlinear_arith)
                    requires
                        n == 4,
                        66 <= last <= 90,
                        q == (6 + last * (n - 2) + (n - 1) / 2) / (n - 1),
                        second_last == q - q % 2,
                ;
            } else if n == 5 {
                assert(second_last <= last && last - second_last >= 1 && (n - 2) * (last
                    - second_last) <= last - 6) by (nonlinear_arith)
                    requires
                        n == 5,
                        94 <= last <= 118,
                        q == (6 + last * (n - 2) + (n - 1) / 2) / (n - 1),
                        second_last == q - q % 2,
                ;
            } else if n == 6 {
                assert(second_last <= last && last - second_last >= 1 && (n - 2) * (last
                    - second_last) <= last - 6) by (nonlinear_arith)
                    requires
                        n == 6,
                        122 <= last <= 146,
                        q == (6 + last * (n - 2) + (n - 1) / 2) / (n - 1),
                        second_last == q - q % 2,
                ;
            } else {
                assert(n == 7);
                assert(second_last <= last && last - second_last >= 1 && (n - 2) * (last
                    - second_last) <= last - 6) by (nonlinear_arith)
                    requires
                        n == 7,
                        150 <= last <= 170,
                        q == (6 + last * (n - 2) + (n - 1) / 2) / (n - 1),
                        second_last == q - q % 2,
                ;
            }
        }
        let step: usize = last - second_last;
        let second: usize = last - (n - 2) * step;
        let mut k: usize = 0;
        while k < n - 1
            invariant
                k <= n - 1,
                2 <= n <= 7,
                vn == version_num,
                2 <= vn <= 40,
                last == 4 * vn + 10,
                n == vn / 7 + 2,
                q == (6 + last * (n - 2) + (n - 1) / 2) / (n - 1),
                second_last == q - q % 2,
                step == last - second_last,
                step >= 1,
                (n - 2) * step <= last - 6,
                second == last - (n - 2) * step,
                positions@.len() == 1 + k,
                forall|i: int|
                    0 <= i < positions@.len() ==> positions@[i] == spec_alignment_centers(
                        version_num as int,
                    )[i],
                forall|i: int| 0 <= i < positions@.len() ==> 6 <= #[trigger] positions@[i] <= last,
            decreases n - 1 - k,
        {
            proof {
                assert(k * step <= (n - 2) * step && second + (n - 2) * step == last)
                    by (nonlinear_arith)
                    requires
                        k <= n - 2,
                        step >= 1,
                        second == last - (n - 2) * step,
                        (n - 2) * step <= last - 6,
                ;
            }
            positions.push(second + k * step);
            proof {
                let sc = spec_alignment_centers(version_num as int);
                assert(sc[1 + k] == second + k * step);
            }
            k += 1;
        }
    }
    positions
}

/// All pairwise combinations of the alignment centers, in row-major
/// order. Pairs that land on a finder zone are not excluded here; the
/// caller skips them.
pub open spec fn spec_alignment_coords(vnum: int) -> Seq<(int, int)> {
    let c = spec_alignment_centers(vnum);
    Seq::new((c.len() * c.len()) as nat, |k: int| (c[k / c.len() as int], c[k % c.len() as int]))
}

/// Returns all the coordinates of the centers of the alignment patterns
/// for the version number.
pub fn alignment_pattern_coordinates(version_num: u8) -> (r: Vec<Coordinates>)
    requires
        1 <= version_num <= 40,
    ensures
        r@.len() == spec_alignment_coords(version_num as int).len(),
        forall|i: int|
            0 <= i < r@.len() ==> r@[i].0 == spec_alignment_coords(version_num as int)[i].0
                && r@[i].1 == spec_alignment_coords(version_num as int)[i].1,
        forall|i: int|
            0 <= i < r@.len() ==> 6 <= #[trigger] r@[i].0 <= 4 * version_num + 10 && 6 <= r@[i].1
                <= 4 * version_num + 10,
{
    let centers = alignment_pattern_centers(version_num);
    let len = centers.len();
    let ghost c = spec_alignment_centers(version_num as int);
    let mut coords: Vec<Coordinates> = Vec::new();
    let mut i: usize = 0;
    while i < len
        invariant
            i <= len,
            len == c.len(),
            c == spec_alignment_centers(version_num as int),
            1 <= version_num <= 40,
            centers@.len() == len,
            forall|t: int| 0 <= t < len ==> centers@[t] == c[t],
            forall|t: int| 0 <= t < len ==> 6 <= #[trigger] centers@[t] <= 4 * version_num + 10,
            coords@.len() == i * len,
            forall|t: int|
                0 <= t < coords@.len() ==> coords@[t].0 == spec_alignment_coords(
                    version_num as int,
                )[t].0 && coords@[t].1 == spec_alignment_coords(version_num as int)[t].1,
            forall|t: int|
                0 <= t < coords@.len() ==> 6 <= #[trigger] coords@[t].0 <= 4 * version_num + 10
                    && 6 <= coords@[t].1 <= 4 * version_num + 10,
        decreases len - i,
    {
        let mut j: usize = 0;
        while j < len
            invariant
                i < len,
                j <= len,
                len == c.len(),
                c == spec_alignment_centers(version_num as int),
                1 <= version_num <= 40,
                centers@.len() == len,
                forall|t: int| 0 <= t < len ==> centers@[t] == c[t],
                forall|t: int|
                    0 <= t < len ==> 6 <= #[trigger] centers@[t] <= 4 * version_num + 10,
                coords@.len() == i * len + j,
                forall|t: int|
                    0 <= t < coords@.len() ==> coords@[t].0 == spec_alignment_coords(
                        version_num as int,
                    )[t].0 && coords@[t].1 == spec_alignment_coords(version_num as int)[t].1,
                forall|t: int|
                    0 <= t < coords@.len() ==> 6 <= #[trigger] coords@[t].0 <= 4 * version_num
                        + 10 && 6 <= coords@[t].1 <= 4 * version_num + 10,
            decreases len - j,
        {
            proof {
                assert(i * len + j < len * len && (i * len + j) / (len as int) == i && (i * len
                    + j) % (len as int) == j) by (nonlinear_arith)
                    requires
                        0 <= i < len,
                        0 <= j < len,
                ;
            }
            coords.push((centers[i], centers[j]));
            proof {
                let scd = spec_alignment_coords(version_num as int);
                assert(scd[i * len + j].0 == c[i as int] && scd[i * len + j].1 == c[j as int]);
            }
            j += 1;
        }
        proof {
            assert(i * len + len == (i + 1) * len) by (nonlinear_arith);
        }
        i += 1;
    }
    proof {
        assert(len * len == c.len() * c.len()) by (nonlinear_arith)
            requires
                len == c.len(),
        ;
    }
    coords
}

/// The version plus its owned grid of modules; rows are indexed by
/// column then row.
pub struct QRCode {
    pub version: Version,
    pub rows: Vec<Vec<Module>>,
}

impl QRCode {
    /// The grid as a sequence of columns of modules.
    pub open spec fn grid(self) -> Seq<Seq<Module>> {
        Seq::new(self.rows@.len(), |i: int| self.rows@[i]@)
    }

    /// The grid is square with the version's side length.
    pub open spec fn wf(self) -> bool {
        &&& self.version.wf()
        &&& self.rows@.len() == spec_side(self.version.num as int)
        &&& forall|i: int|
            0 <= i < self.rows@.len() ==> (#[trigger] self.rows@[i])@.len() == spec_side(
                self.version.num as int,
            )
    }

    /// The module at a coordinate.
    pub fn module(&self, coords: Coordinates) -> (r: &Module)
        requires
            coords.0 < self.grid().len(),
            coords.1 < self.grid()[coords.0 as int].len(),
        ensures
            *r == self.grid()[coords.0 as int][coords.1 as int],
    {
        &self.rows[coords.0][coords.1]
    }

    /// Replaces the module at a coordinate.
    pub fn set_module(&mut self, module: Module, coords: Coordinates)
        requires
            coords.0 < old(self).grid().len(),
            coords.1 < old(self).grid()[coords.0 as int].len(),
        ensures
            final(self).grid() == spec_set_cell(
                old(self).grid(),
                coords.0 as int,
                coords.1 as int,
                module,
            ),
            final(self).version == old(self).version,
            final(self).rows@.len() == old(self).rows@.len(),
            forall|i: int|
                0 <= i < final(self).rows@.len() ==> (#[trigger] final(self).rows@[i])@.len()
                    == old(self).rows@[i]@.len(),
    {
        let row = &mut self.rows[coords.0];
        row.set(coords.1, module);
        proof {
            assert(final(self).grid() =~= spec_set_cell(
                old(self).grid(),
                coords.0 as int,
                coords.1 as int,
                module,
            ));
        }
    }
}

/// The grid with one cell replaced.
pub open spec fn spec_set_cell(g: Seq<Seq<Module>>, x: int, y: int, m: Module) -> Seq<
    Seq<Module>,
> {
    g.update(x, g[x].update(y, m))
}

/// One timing-band cell: row six and column six alternate black and
/// white between the finder zones, starting black.
pub open spec fn spec_timing_cell(old: Module, x: int, y: int, side: int) -> Module {
    if y == 6 && 8 <= x < side - 8 {
        Module::TimingHorizontal((x - 8) % 2 == 0)
    } else if x == 6 && 8 <= y < side - 8 {
        Module::TimingVertical((y - 8) % 2 == 0)
    } else {
        old
    }
}

/// The grid after the timing pass.
pub open spec fn spec_apply_timing(g: Seq<Seq<Module>>, side: int) -> Seq<Seq<Module>> {
    Seq::new(g.len(), |x: int| Seq::new(g[x].len(), |y: int| spec_timing_cell(g[x][y], x, y, side)))
}

/// The timing pass part-way through: horizontal cells up to `hx` and
/// vertical cells up to `vy` are placed.
pub open spec fn spec_timing_partial(g: Seq<Seq<Module>>, side: int, hx: int, vy: int) -> Seq<
    Seq<Module>,
> {
    Seq::new(
        g.len(),
        |x: int|
            Seq::new(
                g[x].len(),
                |y: int|
                    if (y == 6 && 8 <= x < hx) || (x == 6 && 8 <= y < vy) {
                        spec_timing_cell(g[x][y], x, y, side)
                    } else {
                        g[x][y]
                    },
            ),
    )
}

/// Whether a finder-core cell is black: the outer ring and the centre
/// three-by-three square are black, the ring between them white.
pub open spec fn spec_finder_core_black(dx: int, dy: int) -> bool {
    dx == 0 || dx == 6 || dy == 0 || dy == 6 || (2 <= dx <= 4 && 2 <= dy <= 4)
}

/// One finder-zone cell: the seven-by-seven core pattern with corner
/// `(x0, y0)`, one white separator row and one white separator column on
/// the sides facing the matrix interior.
pub open spec fn spec_finder_cell(
    old: Module,
    x: int,
    y: int,
    x0: int,
    y0: int,
    horiz_backwards: bool,
    vert_backwards: bool,
) -> Module {
    let sep_col = if horiz_backwards {
        x0 - 1
    } else {
        x0 + 7
    };
    let sep_row = if vert_backwards {
        y0 - 1
    } else {
        y0 + 7
    };
    let sep_top = if vert_backwards {
        y0 - 1
    } else {
        y0
    };
    if x0 <= x < x0 + 7 && y0 <= y < y0 + 7 {
        Module::Finder(spec_finder_core_black(x - x0, y - y0))
    } else if x0 <= x < x0 + 7 && y == sep_row {
        Module::Finder(false)
    } else if x == sep_col && sep_top <= y < sep_top + 8 {
        Module::Finder(false)
    } else {
        old
    }
}

/// The grid after one finder zone is placed.
pub open spec fn spec_apply_finder(
    g: Seq<Seq<Module>>,
    x0: int,
    y0: int,
    horiz_backwards: bool,
    vert_backwards: bool,
) -> Seq<Seq<Module>> {
    Seq::new(
        g.len(),
        |x: int|
            Seq::new(
                g[x].len(),
                |y: int| spec_finder_cell(g[x][y], x, y, x0, y0, horiz_backwards, vert_backwards),
            ),
    )
}

/// The finder pass part-way through: core rows below `dy`, core cells of
/// row `dy` below `dx`, then `sr` separator-row cells, then `sc`
/// separator-column cells.
pub open spec fn spec_finder_partial(
    g: Seq<Seq<Module>>,
    x0: int,
    y0: int,
    horiz_backwards: bool,
    vert_backwards: bool,
    dy: int,
    dx: int,
    sr: int,
    sc: int,
) -> Seq<Seq<Module>> {
    let sep_col = if horiz_backwards {
        x0 - 1
    } else {
        x0 + 7
    };
    let sep_row = if vert_backwards {
        y0 - 1
    } else {
        y0 + 7
    };
    let sep_top = if vert_backwards {
        y0 - 1
    } else {
        y0
    };
    Seq::new(
        g.len(),
        |x: int|
            Seq::new(
                g[x].len(),
                |y: int|
                    if (x0 <= x < x0 + 7 && y0 <= y < y0 + dy) || (y == y0 + dy && x0 <= x < x0
                        + dx) {
                        Module::Finder(spec_finder_core_black(x - x0, y - y0))
                    } else if y == sep_row && x0 <= x < x0 + sr {
                        Module::Finder(false)
                    } else if x == sep_col && sep_top <= y < sep_top + sc {
                        Module::Finder(false)
                    } else {
                        g[x][y]
                    },
            ),
    )
}

/// Whether an alignment-pattern cell is black: the outer ring and the
/// single centre module.
pub open spec fn spec_alignment_black(dx: int, dy: int) -> bool {
    dx == 0 || dx == 4 || dy == 0 || dy == 4 || (dx == 2 && dy == 2)
}

/// The grid after one alignment pattern centred at `(cx, cy)`: only
/// cells no earlier pass has claimed are written, so the timing bands
/// keep their cells where the box crosses them.
pub open spec fn spec_apply_alignment(g: Seq<Seq<Module>>, cx: int, cy: int) -> Seq<Seq<Module>> {
    Seq::new(
        g.len(),
        |x: int|
            Seq::new(
                g[x].len(),
                |y: int|
                    if cx - 2 <= x <= cx + 2 && cy - 2 <= y <= cy + 2 && g[x][y] is Unset {
                        Module::Alignment(spec_alignment_black(x - (cx - 2), y - (cy - 2)))
                    } else {
                        g[x][y]
                    },
            ),
    )
}

/// The alignment pass part-way through one pattern: rows below `dy`
/// done, cells of row `dy` below `dx` done.
pub open spec fn spec_alignment_partial(
    g: Seq<Seq<Module>>,
    cx: int,
    cy: int,
    dy: int,
    dx: int,
) -> Seq<Seq<Module>> {
    Seq::new(
        g.len(),
        |x: int|
            Seq::new(
                g[x].len(),
                |y: int|
                    if ((cx - 2 <= x <= cx + 2 && cy - 2 <= y < cy - 2 + dy) || (y == cy - 2 + dy
                        && cx - 2 <= x < cx - 2 + dx)) && g[x][y] is Unset {
                        Module::Alignment(spec_alignment_black(x - (cx - 2), y - (cy - 2)))
                    } else {
                        g[x][y]
                    },
            ),
    )
}

/// The grid after the first `k` centre pairs are handled: a pair whose
/// centre lies in a finder zone is skipped, any other receives an
/// alignment pattern.
pub open spec fn spec_alignments_upto(
    g: Seq<Seq<Module>>,
    coords: Seq<(int, int)>,
    k: nat,
) -> Seq<Seq<Module>>
    decreases k,
{
    if k == 0 {
        g
    } else {
        let g2 = spec_alignments_upto(g, coords, (k - 1) as nat);
        let cx = coords[k - 1].0;
        let cy = coords[k - 1].1;
        if g2[cx][cy] is Finder {
            g2
        } else {
            spec_apply_alignment(g2, cx, cy)
        }
    }
}

/// One cell of the format-and-dark pass: the fixed dark module, and the
/// two reserved fifteen-cell format strips beside the finders, written as
/// placeholder white format cells; timing cells are left alone. The
/// second strip is eight cells beside the top-right finder and seven
/// beside the bottom-left one.
pub open spec fn spec_format_cell(old: Module, x: int, y: int, side: int) -> Module {
    if x == 8 && y == side - 8 {
        Module::Dark
    } else if y == 8 && 0 <= x < 8 && !(old is TimingVertical) {
        Module::Format(false)
    } else if x == 8 && 0 <= y < 9 && !(old is TimingHorizontal) {
        Module::Format(false)
    } else if x == 8 && side - 7 <= y < side {
        Module::Format(false)
    } else if y == 8 && side - 8 <= x < side {
        Module::Format(false)
    } else {
        old
    }
}

/// The grid after the format-and-dark pass.
pub open spec fn spec_apply_format(g: Seq<Seq<Module>>, side: int) -> Seq<Seq<Module>> {
    Seq::new(g.len(), |x: int| Seq::new(g[x].len(), |y: int| spec_format_cell(g[x][y], x, y, side)))
}

/// Which cells the format-and-dark pass has written after `k` steps of
/// its `phase`-th write loop.
pub open spec fn spec_format_done(x: int, y: int, side: int, phase: int, k: int) -> bool {
    ||| (phase >= 1 && x == 8 && y == side - 8)
    ||| (y == 8 && 0 <= x < 8 && (phase > 1 || (phase == 1 && x < k)))
    ||| (x == 8 && 0 <= y < 9 && (phase > 2 || (phase == 2 && y < k)))
    ||| (x == 8 && side - 7 <= y < side && (phase > 3 || (phase == 3 && side - 1 - k < y)))
    ||| (y == 8 && side - 8 <= x < side && (phase > 4 || (phase == 4 && side - 1 - k < x)))
}

/// The format-and-dark pass part-way through.
pub open spec fn spec_format_partial(g: Seq<Seq<Module>>, side: int, phase: int, k: int) -> Seq<
    Seq<Module>,
> {
    Seq::new(
        g.len(),
        |x: int|
            Seq::new(
                g[x].len(),
                |y: int|
                    if spec_format_done(x, y, side, phase, k) {
                        spec_format_cell(g[x][y], x, y, side)
                    } else {
                        g[x][y]
                    },
            ),
    )
}

impl QRCode {
    /// Stamps the two timing bands: row six and column six, alternating
    /// black and white, between the finder zones.
    pub fn insert_timing_bands(&mut self)
        requires
            old(self).wf(),
        ensures
            final(self).wf(),
            final(self).version == old(self).version,
            final(self).grid() == spec_apply_timing(
                old(self).grid(),
                spec_side(old(self).version.num as int),
            ),
    {
        let ghost g0 = self.grid();
        let ghost sidei = spec_side(self.version.num as int);
        let side = self.version.modules_per_side() as usize;
        let mut black = true;
        let mut x: usize = 8;
        proof {
            assert(self.grid() =~~= spec_timing_partial(g0, sidei, 8, 0));
        }
        while x < side - 8
            invariant
                8 <= x <= side - 8,
                side == sidei,
                sidei == spec_side(self.version.num as int),
                self.version == old(self).version,
                self.version.wf(),
                self.rows@.len() == side,
                forall|i: int| 0 <= i < side ==> (#[trigger] self.rows@[i])@.len() == side,
                g0 == old(self).grid(),
                g0.len() == side,
                forall|i: int| 0 <= i < side ==> (#[trigger] g0[i]).len() == side,
                black == ((x - 8) % 2 == 0),
                self.grid() == spec_timing_partial(g0, sidei, x as int, 0),
            decreases side - 8 - x,
        {
            self.set_module(Module::TimingHorizontal(black), (x, 6));
            proof {
                assert(self.grid() =~~= spec_timing_partial(g0, sidei, x + 1, 0));
            }
            black = !black;
            x += 1;
        }
        black = true;
        proof {
            assert(spec_timing_partial(g0, sidei, sidei - 8, 0) =~~= spec_timing_partial(
                g0,
                sidei,
                sidei - 8,
                8,
            ));
        }
        let mut y: usize = 8;
        while y < side - 8
            invariant
                8 <= y <= side - 8,
                side == sidei,
                sidei == spec_side(self.version.num as int),
                self.version == old(self).version,
                self.version.wf(),
                self.rows@.len() == side,
                forall|i: int| 0 <= i < side ==> (#[trigger] self.rows@[i])@.len() == side,
                g0 == old(self).grid(),
                g0.len() == side,
                forall|i: int| 0 <= i < side ==> (#[trigger] g0[i]).len() == side,
                black == ((y - 8) % 2 == 0),
                self.grid() == spec_timing_partial(g0, sidei, sidei - 8, y as int),
            decreases side - 8 - y,
        {
            self.set_module(Module::TimingVertical(black), (6, y));
            proof {
                assert(self.grid() =~~= spec_timing_partial(g0, sidei, sidei - 8, y + 1));
            }
            black = !black;
            y += 1;
        }
        proof {
            assert(self.grid() =~~= spec_apply_timing(g0, sidei));
        }
    }

    /// Stamps one finder zone: the seven-by-seven pattern whose corner is
    /// `corner`, plus the white separator row and column facing the
    /// matrix interior.
    pub fn insert_finder(&mut self, corner: Coordinates, horiz_backwards: bool, vert_backwards: bool)
        requires
            old(self).wf(),
            corner.0 + 7 <= spec_side(old(self).version.num as int),
            corner.1 + 7 <= spec_side(old(self).version.num as int),
            horiz_backwards ==> corner.0 >= 1,
            !horiz_backwards ==> corner.0 + 8 <= spec_side(old(self).version.num as int),
            vert_backwards ==> corner.1 >= 1,
            !vert_backwards ==> corner.1 + 8 <= spec_side(old(self).version.num as int),
        ensures
            final(self).wf(),
            final(self).version == old(self).version,
            final(self).grid() == spec_apply_finder(
                old(self).grid(),
                corner.0 as int,
                corner.1 as int,
                horiz_backwards,
                vert_backwards,
            ),
    {
        let ghost g0 = self.grid();
        let ghost sidei = spec_side(self.version.num as int);
        let x0 = corner.0;
        let y0 = corner.1;
        proof {
            assert(self.grid() =~~= spec_finder_partial(
                g0,
                x0 as int,
                y0 as int,
                horiz_backwards,
                vert_backwards,
                0,
                0,
                0,
                0,
            ));
        }
        let mut dy: usize = 0;
        while dy < 7
            invariant
                dy <= 7,
                x0 == corner.0,
                y0 == corner.1,
                x0 + 7 <= sidei,
                y0 + 7 <= sidei,
                sidei == spec_side(self.version.num as int),
                self.version == old(self).version,
                self.version.wf(),
                self.rows@.len() == sidei,
                forall|i: int| 0 <= i < sidei ==> (#[trigger] self.rows@[i])@.len() == sidei,
                g0 == old(self).grid(),
                self.grid() == spec_finder_partial(
                    g0,
                    x0 as int,
                    y0 as int,
                    horiz_backwards,
                    vert_backwards,
                    dy as int,
                    0,
                    0,
                    0,
                ),
            decreases 7 - dy,
        {
            let mut dx: usize = 0;
            while dx < 7
                invariant
                    dx <= 7,
                    dy < 7,
                    x0 == corner.0,
                    y0 == corner.1,
                    x0 + 7 <= sidei,
                    y0 + 7 <= sidei,
                    sidei == spec_side(self.version.num as int),
                    self.version == old(self).version,
                    self.version.wf(),
                    self.rows@.len() == sidei,
                    forall|i: int| 0 <= i < sidei ==> (#[trigger] self.rows@[i])@.len() == sidei,
                    g0 == old(self).grid(),
                    self.grid() == spec_finder_partial(
                        g0,
                        x0 as int,
                        y0 as int,
                        horiz_backwards,
                        vert_backwards,
                        dy as int,
                        dx as int,
                        0,
                        0,
                    ),
                decreases 7 - dx,
            {
                let black = dx == 0 || dx == 6 || dy == 0 || dy == 6 || (2 <= dx && dx <= 4 && 2
                    <= dy && dy <= 4);
                self.set_module(Module::Finder(black), (x0 + dx, y0 + dy));
                proof {
                    assert(self.grid() =~~= spec_finder_partial(
                        g0,
                        x0 as int,
                        y0 as int,
                        horiz_backwards,
                        vert_backwards,
                        dy as int,
                        dx + 1,
                        0,
                        0,
                    ));
                }
                dx += 1;
            }
            proof {
                assert(spec_finder_partial(
                    g0,
                    x0 as int,
                    y0 as int,
                    horiz_backwards,
                    vert_backwards,
                    dy as int,
                    7,
                    0,
                    0,
                ) =~~= spec_finder_partial(
                    g0,
                    x0 as int,
                    y0 as int,
                    horiz_backwards,
                    vert_backwards,
                    dy + 1,
                    0,
                    0,
                    0,
                ));
            }
            dy += 1;
        }
        // Separator row on the side facing the interior.
        let sep_row: usize = if vert_backwards {
            y0 - 1
        } else {
            y0 + 7
        };
        let mut sr: usize = 0;
        while sr < 7
            invariant
                sr <= 7,
                x0 == corner.0,
                y0 == corner.1,
                x0 + 7 <= sidei,
                y0 + 7 <= sidei,
                vert_backwards ==> y0 >= 1,
                !vert_backwards ==> y0 + 8 <= sidei,
                sep_row == (if vert_backwards {
                    y0 - 1
                } else {
                    y0 + 7
                }) as int,
                sidei == spec_side(self.version.num as int),
                self.version == old(self).version,
                self.version.wf(),
                self.rows@.len() == sidei,
                forall|i: int| 0 <= i < sidei ==> (#[trigger] self.rows@[i])@.len() == sidei,
                g0 == old(self).grid(),
                self.grid() == spec_finder_partial(
                    g0,
                    x0 as int,
                    y0 as int,
                    horiz_backwards,
                    vert_backwards,
                    7,
                    0,
                    sr as int,
                    0,
                ),
            decreases 7 - sr,
        {
            self.set_module(Module::Finder(false), (x0 + sr, sep_row));
            proof {
                assert(self.grid() =~~= spec_finder_partial(
                    g0,
                    x0 as int,
                    y0 as int,
                    horiz_backwards,
                    vert_backwards,
                    7,
                    0,
                    sr + 1,
                    0,
                ));
            }
            sr += 1;
        }
        // Separator column on the side facing the interior.
        let sep_col: usize = if horiz_backwards {
            x0 - 1
        } else {
            x0 + 7
        };
        let sep_top: usize = if vert_backwards {
            y0 - 1
        } else {
            y0
        };
        let mut sc: usize = 0;
        while sc < 8
            invariant
                sc <= 8,
                x0 == corner.0,
                y0 == corner.1,
                x0 + 7 <= sidei,
                y0 + 7 <= sidei,
                horiz_backwards ==> x0 >= 1,
                !horiz_backwards ==> x0 + 8 <= sidei,
                vert_backwards ==> y0 >= 1,
                !vert_backwards ==> y0 + 8 <= sidei,
                sep_col == (if horiz_backwards {
                    x0 - 1
                } else {
                    x0 + 7
                }) as int,
                sep_top == (if vert_backwards {
                    y0 - 1
                } else {
                    y0 as int
                }),
                sidei == spec_side(self.version.num as int),
                self.version == old(self).version,
                self.version.wf(),
                self.rows@.len() == sidei,
                forall|i: int| 0 <= i < sidei ==> (#[trigger] self.rows@[i])@.len() == sidei,
                g0 == old(self).grid(),
                self.grid() == spec_finder_partial(
                    g0,
                    x0 as int,
                    y0 as int,
                    horiz_backwards,
                    vert_backwards,
                    7,
                    0,
                    7,
                    sc as int,
                ),
            decreases 8 - sc,
        {
            self.set_module(Module::Finder(false), (sep_col, sep_top + sc));
            proof {
                assert(self.grid() =~~= spec_finder_partial(
                    g0,
                    x0 as int,
                    y0 as int,
                    horiz_backwards,
                    vert_backwards,
                    7,
                    0,
                    7,
                    sc + 1,
                ));
            }
            sc += 1;
        }
        proof {
            assert(self.grid() =~~= spec_apply_finder(
                g0,
                x0 as int,
                y0 as int,
                horiz_backwards,
                vert_backwards,
            ));
        }
    }

    /// Stamps the three finder zones: top left, top right, bottom left.
    pub fn insert_finders(&mut self)
        requires
            old(self).wf(),
        ensures
            final(self).wf(),
            final(self).version == old(self).version,
            ({
                let side = spec_side(old(self).version.num as int);
                final(self).grid() == spec_apply_finder(
                    spec_apply_finder(
                        spec_apply_finder(old(self).grid(), 0, 0, false, false),
                        side - 7,
                        0,
                        true,
                        false,
                    ),
                    0,
                    side - 7,
                    false,
                    true,
                )
            }),
    {
        let side = self.version.modules_per_side() as usize;
        self.insert_finder((0, 0), false, false);
        self.insert_finder((side - 7, 0), true, false);
        self.insert_finder((0, side - 7), false, true);
    }

    /// Stamps one alignment pattern centred at the given coordinate,
    /// writing only cells no earlier pass has claimed.
    pub fn insert_alignment_pattern(&mut self, center_x: usize, center_y: usize)
        requires
            old(self).wf(),
            2 <= center_x,
            center_x + 2 < spec_side(old(self).version.num as int),
            2 <= center_y,
            center_y + 2 < spec_side(old(self).version.num as int),
        ensures
            final(self).wf(),
            final(self).version == old(self).version,
            final(self).grid() == spec_apply_alignment(
                old(self).grid(),
                center_x as int,
                center_y as int,
            ),
    {
        let ghost g0 = self.grid();
        let ghost sidei = spec_side(self.version.num as int);
        let x = center_x - 2;
        let y = center_y - 2;
        proof {
            assert(self.grid() =~~= spec_alignment_partial(
                g0,
                center_x as int,
                center_y as int,
                0,
                0,
            ));
        }
        let mut dy: usize = 0;
        while dy < 5
            invariant
                dy <= 5,
                x == center_x - 2,
                y == center_y - 2,
                2 <= center_x,
                center_x + 2 < sidei,
                2 <= center_y,
                center_y + 2 < sidei,
                sidei == spec_side(self.version.num as int),
                self.version == old(self).version,
                self.version.wf(),
                self.rows@.len() == sidei,
                forall|i: int| 0 <= i < sidei ==> (#[trigger] self.rows@[i])@.len() == sidei,
                g0 == old(self).grid(),
                self.grid() == spec_alignment_partial(
                    g0,
                    center_x as int,
                    center_y as int,
                    dy as int,
                    0,
                ),
            decreases 5 - dy,
        {
            let mut dx: usize = 0;
            while dx < 5
                invariant
                    dx <= 5,
                    dy < 5,
                    x == center_x - 2,
                    y == center_y - 2,
                    2 <= center_x,
                    center_x + 2 < sidei,
                    2 <= center_y,
                    center_y + 2 < sidei,
                    sidei == spec_side(self.version.num as int),
                    self.version == old(self).version,
                    self.version.wf(),
                    self.rows@.len() == sidei,
                    forall|i: int| 0 <= i < sidei ==> (#[trigger] self.rows@[i])@.len() == sidei,
                    g0 == old(self).grid(),
                    self.grid() == spec_alignment_partial(
                        g0,
                        center_x as int,
                        center_y as int,
                        dy as int,
                        dx as int,
                    ),
                decreases 5 - dx,
            {
                let black = dx == 0 || dx == 4 || dy == 0 || dy == 4 || (dx == 2 && dy == 2);
                let coords = (x + dx, y + dy);
                match self.module(coords) {
                    Module::Unset => {
                        self.set_module(Module::Alignment(black), coords);
                    },
                    _ => {},
                };
                proof {
                    assert(self.grid() =~~= spec_alignment_partial(
                        g0,
                        center_x as int,
                        center_y as int,
                        dy as int,
                        dx + 1,
                    ));
                }
                dx += 1;
            }
            proof {
                assert(spec_alignment_partial(
                    g0,
                    center_x as int,
                    center_y as int,
                    dy as int,
                    5,
                ) =~~= spec_alignment_partial(g0, center_x as int, center_y as int, dy + 1, 0));
            }
            dy += 1;
        }
        proof {
            assert(self.grid() =~~= spec_apply_alignment(g0, center_x as int, center_y as int));
        }
    }

    /// Stamps an alignment pattern at every centre pair whose centre is
    /// not already claimed by a finder zone.
    pub fn insert_alignment_patterns(&mut self)
        requires
            old(self).wf(),
        ensures
            final(self).wf(),
            final(self).version == old(self).version,
            ({
                let coords = spec_alignment_coords(old(self).version.num as int);
                final(self).grid() == spec_alignments_upto(old(self).grid(), coords, coords.len())
            }),
    {
        let ghost spec_coords = spec_alignment_coords(self.version.num as int);
        let ghost g0 = self.grid();
        let ghost sidei = spec_side(self.version.num as int);
        let center_coords = alignment_pattern_coordinates(self.version.num);
        let len = center_coords.len();
        let mut k: usize = 0;
        while k < len
            invariant
                k <= len,
                len == spec_coords.len(),
                spec_coords == spec_alignment_coords(old(self).version.num as int),
                center_coords@.len() == len,
                forall|t: int|
                    0 <= t < len ==> (#[trigger] center_coords@[t]).0 == spec_coords[t].0
                        && center_coords@[t].1 == spec_coords[t].1,
                forall|t: int|
                    0 <= t < len ==> 6 <= (#[trigger] center_coords@[t]).0 <= sidei - 7 && 6
                        <= center_coords@[t].1 <= sidei - 7,
                sidei == spec_side(self.version.num as int),
                self.version == old(self).version,
                self.version.wf(),
                self.rows@.len() == sidei,
                forall|i: int| 0 <= i < sidei ==> (#[trigger] self.rows@[i])@.len() == sidei,
                g0 == old(self).grid(),
                self.grid() == spec_alignments_upto(g0, spec_coords, k as nat),
            decreases len - k,
        {
            let (cx, cy) = (center_coords[k].0, center_coords[k].1);
            match self.module((cx, cy)) {
                Module::Finder(_) => {
                    proof {
                        assert(self.grid() =~= spec_alignments_upto(g0, spec_coords, (k + 1) as nat));
                    }
                },
                _ => {
                    self.insert_alignment_pattern(cx, cy);
                    proof {
                        assert(self.grid() =~= spec_alignments_upto(g0, spec_coords, (k + 1) as nat));
                    }
                },
            };
            k += 1;
        }
    }

    /// Places the fixed dark module and reserves the two format strips
    /// as placeholder white format cells, leaving timing cells alone.
    pub fn insert_format_and_dark(&mut self)
        requires
            old(self).wf(),
        ensures
            final(self).wf(),
            final(self).version == old(self).version,
            final(self).grid() == spec_apply_format(
                old(self).grid(),
                spec_side(old(self).version.num as int),
            ),
    {
        let ghost g0 = self.grid();
        let ghost sidei = spec_side(self.version.num as int);
        let side = self.version.modules_per_side() as usize;
        let edge = side - 1;
        // Dark module.
        self.set_module(Module::Dark, (8, edge - 7));
        proof {
            assert(self.grid() =~~= spec_format_partial(g0, sidei, 1, 0));
        }
        // Top-left strip, vertical part.
        let mut i: usize = 0;
        while i < 8
            invariant
                i <= 8,
                side == sidei,
                edge == side - 1,
                sidei == spec_side(self.version.num as int),
                self.version == old(self).version,
                self.version.wf(),
                self.rows@.len() == sidei,
                forall|t: int| 0 <= t < sidei ==> (#[trigger] self.rows@[t])@.len() == sidei,
                g0 == old(self).grid(),
                g0.len() == sidei,
                forall|t: int| 0 <= t < sidei ==> (#[trigger] g0[t]).len() == sidei,
                self.grid() == spec_format_partial(g0, sidei, 1, i as int),
            decreases 8 - i,
        {
            let coords = (i, 8);
            match self.module(coords) {
                Module::TimingVertical(_) => {
                    proof {
                        assert(self.grid() =~~= spec_format_partial(g0, sidei, 1, i + 1));
                    }
                },
                _ => {
                    self.set_module(Module::Format(false), coords);
                    proof {
                        assert(self.grid() =~~= spec_format_partial(g0, sidei, 1, i + 1));
                    }
                },
            };
            i += 1;
        }
        proof {
            assert(spec_format_partial(g0, sidei, 1, 8) =~~= spec_format_partial(g0, sidei, 2, 0));
        }
        // Top-left strip, horizontal part.
        let mut i2: usize = 0;
        while i2 < 9
            invariant
                i2 <= 9,
                side == sidei,
                edge == side - 1,
                sidei == spec_side(self.version.num as int),
                self.version == old(self).version,
                self.version.wf(),
                self.rows@.len() == sidei,
                forall|t: int| 0 <= t < sidei ==> (#[trigger] self.rows@[t])@.len() == sidei,
                g0 == old(self).grid(),
                g0.len() == sidei,
                forall|t: int| 0 <= t < sidei ==> (#[trigger] g0[t]).len() == sidei,
                self.grid() == spec_format_partial(g0, sidei, 2, i2 as int),
            decreases 9 - i2,
        {
            let coords = (8, i2);
            match self.module(coords) {
                Module::TimingHorizontal(_) => {
                    proof {
                        assert(self.grid() =~~= spec_format_partial(g0, sidei, 2, i2 + 1));
                    }
                },
                _ => {
                    self.set_module(Module::Format(false), coords);
                    proof {
                        assert(self.grid() =~~= spec_format_partial(g0, sidei, 2, i2 + 1));
                    }
                },
            };
            i2 += 1;
        }
        proof {
            assert(spec_format_partial(g0, sidei, 2, 9) =~~= spec_format_partial(g0, sidei, 3, 0));
        }
        // Bottom-left strip.
        let mut i3: usize = 0;
        while i3 < 7
            invariant
                i3 <= 7,
                side == sidei,
                edge == side - 1,
                sidei == spec_side(self.version.num as int),
                self.version == old(self).version,
                self.version.wf(),
                self.rows@.len() == sidei,
                forall|t: int| 0 <= t < sidei ==> (#[trigger] self.rows@[t])@.len() == sidei,
                g0 == old(self).grid(),
                g0.len() == sidei,
                forall|t: int| 0 <= t < sidei ==> (#[trigger] g0[t]).len() == sidei,
                self.grid() == spec_format_partial(g0, sidei, 3, i3 as int),
            decreases 7 - i3,
        {
            self.set_module(Module::Format(false), (8, edge - i3));
            proof {
                assert(self.grid() =~~= spec_format_partial(g0, sidei, 3, i3 + 1));
            }
            i3 += 1;
        }
        proof {
            assert(spec_format_partial(g0, sidei, 3, 7) =~~= spec_format_partial(g0, sidei, 4, 0));
        }
        // Top-right strip.
        let mut i4: usize = 0;
        while i4 < 8
            invariant
                i4 <= 8,
                side == sidei,
                edge == side - 1,
                sidei == spec_side(self.version.num as int),
                self.version == old(self).version,
                self.version.wf(),
                self.rows@.len() == sidei,
                forall|t: int| 0 <= t < sidei ==> (#[trigger] self.rows@[t])@.len() == sidei,
                g0 == old(self).grid(),
                g0.len() == sidei,
                forall|t: int| 0 <= t < sidei ==> (#[trigger] g0[t]).len() == sidei,
                self.grid() == spec_format_partial(g0, sidei, 4, i4 as int),
            decreases 8 - i4,
        {
            self.set_module(Module::Format(false), (edge - i4, 8));
            proof {
                assert(self.grid() =~~= spec_format_partial(g0, sidei, 4, i4 + 1));
            }
            i4 += 1;
        }
        proof {
            assert(self.grid() =~~= spec_apply_format(g0, sidei));
        }
    }

    /// Reserved for the version-information blocks of versions seven and
    /// up, which this encoder does not populate; the grid is unchanged.
    pub fn insert_version_blocks(&mut self)
        ensures
            *final(self) == *old(self),
    {
    }
}

/// Column six holds the vertical timing band, so a landing there slides
/// one column left.
pub open spec fn spec_skip_timing_col(x: int) -> int {
    if x == 6 {
        5
    } else {
        x
    }
}

/// One raw step of the zig-zag scan from `(x, y)`: coordinate moved to,
/// new upward flag, new horizontal flag. The scan walks two-column
/// strips, right column first, upward then downward, and ends when it
/// would step past the left edge.
pub open spec fn spec_compute_next(x: int, y: int, upwards: bool, next_horizontal: bool, side: int) -> (
    Option<(int, int)>,
    bool,
    bool,
) {
    if next_horizontal {
        if x == 0 {
            (None, upwards, false)
        } else {
            (Some((spec_skip_timing_col(x - 1), y)), upwards, false)
        }
    } else {
        let x1 = x + 1;
        if upwards {
            if y == 0 {
                if x1 >= 2 {
                    (Some((spec_skip_timing_col(x1 - 2), y)), !upwards, true)
                } else {
                    (None, !upwards, true)
                }
            } else {
                (Some((spec_skip_timing_col(x1), y - 1)), upwards, true)
            }
        } else {
            let y1 = y + 1;
            if y1 == side - 1 {
                if x1 >= 2 {
                    (Some((spec_skip_timing_col(x1 - 2), y1)), !upwards, true)
                } else {
                    (None, !upwards, true)
                }
            } else {
                (Some((spec_skip_timing_col(x1), y1)), upwards, true)
            }
        }
    }
}

/// Raw steps from `(x, y)` until a cell no structural pattern claims, a
/// step out of the grid, or the end of the scan; the step budget `fuel`
/// bounds the walk.
pub open spec fn spec_next_position_from(
    g: Seq<Seq<Module>>,
    x: int,
    y: int,
    upwards: bool,
    next_horizontal: bool,
    side: int,
    fuel: nat,
) -> (Option<(int, int)>, bool, bool)
    decreases fuel,
{
    if fuel == 0 {
        (None, upwards, next_horizontal)
    } else {
        let t = spec_compute_next(x, y, upwards, next_horizontal, side);
        match t.0 {
            None => (None, t.1, t.2),
            Some(p) => if !(0 <= p.0 < side && 0 <= p.1 < side) {
                (None, t.1, t.2)
            } else if !spec_zig_zag_skipped(g[p.0][p.1]) {
                (Some(p), t.1, t.2)
            } else {
                spec_next_position_from(g, p.0, p.1, t.1, t.2, side, (fuel - 1) as nat)
            },
        }
    }
}

/// The step budget that lets the scan cross the whole grid.
pub open spec fn spec_scan_fuel(side: int) -> nat {
    (2 * side * side + 2) as nat
}

/// Where the scanner goes from a state: from a position, the next free
/// cell; from the end, nowhere.
pub open spec fn spec_scanner_advance(
    g: Seq<Seq<Module>>,
    pos: Option<(int, int)>,
    upwards: bool,
    next_horizontal: bool,
    side: int,
) -> (Option<(int, int)>, bool, bool) {
    match pos {
        Some(p) => spec_next_position_from(
            g,
            p.0,
            p.1,
            upwards,
            next_horizontal,
            side,
            spec_scan_fuel(side),
        ),
        None => (None, upwards, next_horizontal),
    }
}

/// Every coordinate the scan visits from a state, in visitation order.
pub open spec fn spec_scan_from(
    g: Seq<Seq<Module>>,
    side: int,
    pos: Option<(int, int)>,
    upwards: bool,
    next_horizontal: bool,
    fuel: nat,
) -> Seq<(int, int)>
    decreases fuel,
{
    if fuel == 0 {
        Seq::<(int, int)>::empty()
    } else {
        match pos {
            None => Seq::<(int, int)>::empty(),
            Some(p) => {
                let t = spec_scanner_advance(g, pos, upwards, next_horizontal, side);
                seq![p] + spec_scan_from(g, side, t.0, t.1, t.2, (fuel - 1) as nat)
            },
        }
    }
}

/// The full zig-zag visitation order of a grid: it starts at the bottom
/// right corner moving up.
pub open spec fn spec_scan_seq(g: Seq<Seq<Module>>, side: int) -> Seq<(int, int)> {
    spec_scan_from(g, side, Some((side - 1, side - 1)), true, true, (side * side + 1) as nat)
}

/// A raw-walk result never lands on column six.
proof fn lemma_next_position_avoids_timing_column(
    g: Seq<Seq<Module>>,
    x: int,
    y: int,
    upwards: bool,
    next_horizontal: bool,
    side: int,
    fuel: nat,
)
    ensures
        match spec_next_position_from(g, x, y, upwards, next_horizontal, side, fuel).0 {
            Some(p) => p.0 != 6,
            None => true,
        },
    decreases fuel,
{
    if fuel > 0 {
        let t = spec_compute_next(x, y, upwards, next_horizontal, side);
        match t.0 {
            None => {},
            Some(p) => {
                if 0 <= p.0 < side && 0 <= p.1 < side && spec_zig_zag_skipped(g[p.0][p.1]) {
                    lemma_next_position_avoids_timing_column(
                        g,
                        p.0,
                        p.1,
                        t.1,
                        t.2,
                        side,
                        (fuel - 1) as nat,
                    );
                }
            },
        }
    }
}

proof fn lemma_scan_from_avoids_timing_column(
    g: Seq<Seq<Module>>,
    side: int,
    pos: Option<(int, int)>,
    upwards: bool,
    next_horizontal: bool,
    fuel: nat,
)
    requires
        match pos {
            Some(p) => p.0 != 6,
            None => true,
        },
    ensures
        forall|i: int|
            0 <= i < spec_scan_from(g, side, pos, upwards, next_horizontal, fuel).len() ==> (
            #[trigger] spec_scan_from(g, side, pos, upwards, next_horizontal, fuel)[i]).0 != 6,
    decreases fuel,
{
    if fuel > 0 {
        match pos {
            None => {},
            Some(p) => {
                let t = spec_scanner_advance(g, pos, upwards, next_horizontal, side);
                lemma_next_position_avoids_timing_column(
                    g,
                    p.0,
                    p.1,
                    upwards,
                    next_horizontal,
                    side,
                    spec_scan_fuel(side),
                );
                lemma_scan_from_avoids_timing_column(g, side, t.0, t.1, t.2, (fuel - 1) as nat);
                let scan = spec_scan_from(g, side, pos, upwards, next_horizontal, fuel);
                let rest = spec_scan_from(g, side, t.0, t.1, t.2, (fuel - 1) as nat);
                assert(scan == seq![p] + rest);
                assert forall|i: int| 0 <= i < scan.len() implies (#[trigger] scan[i]).0 != 6 by {
                    if i == 0 {
                        assert(scan[0] == p);
                    } else {
                        assert(scan[i] == rest[i - 1]);
                    }
                }
            },
        }
    }
}

/// The zig-zag scan never lands on column six, which the vertical timing
/// band owns.
pub proof fn lemma_scan_avoids_timing_column(g: Seq<Seq<Module>>, side: int)
    requires
        side >= 8,
    ensures
        forall|i: int|
            0 <= i < spec_scan_seq(g, side).len() ==> (#[trigger] spec_scan_seq(g, side)[i]).0
                != 6,
{
    lemma_scan_from_avoids_timing_column(
        g,
        side,
        Some((side - 1, side - 1)),
        true,
        true,
        (side * side + 1) as nat,
    );
}

/// A stateful walker over the zig-zag order: current position, vertical
/// direction, and whether the next move is the short horizontal one.
pub struct ZigZagScanner {
    pub position: Option<Coordinates>,
    pub upwards: bool,
    pub next_horizontal: bool,
    pub side: usize,
}

impl ZigZagScanner {
    /// The held position stays inside the grid.
    pub open spec fn wf(self) -> bool {
        &&& self.side <= 1000
        &&& match self.position {
            Some(p) => p.0 < self.side && p.1 < self.side,
            None => true,
        }
    }

    /// A scanner for the code's grid, at the bottom-right corner moving
    /// up.
    pub fn new(code: &QRCode) -> (r: ZigZagScanner)
        requires
            code.wf(),
        ensures
            r.side == spec_side(code.version.num as int),
            r.position == Some(
                ((r.side - 1) as usize, (r.side - 1) as usize),
            ),
            r.upwards,
            r.next_horizontal,
            r.wf(),
    {
        let side_length = code.version.modules_per_side() as usize;
        ZigZagScanner {
            position: Some((side_length - 1, side_length - 1)),
            upwards: true,
            next_horizontal: true,
            side: side_length,
        }
    }

    /// Reverses the vertical direction.
    pub fn switch_directions(&mut self)
        ensures
            final(self).upwards == !old(self).upwards,
            final(self).position == old(self).position,
            final(self).next_horizontal == old(self).next_horizontal,
            final(self).side == old(self).side,
    {
        self.upwards = !self.upwards;
    }

    /// One raw step from `coords`.
    pub fn compute_next(&mut self, coords: Coordinates) -> (r: Option<Coordinates>)
        requires
            coords.0 < old(self).side,
            coords.1 < old(self).side,
            old(self).side <= 1000,
        ensures
            final(self).position == old(self).position,
            final(self).side == old(self).side,
            ({
                let t = spec_compute_next(
                    coords.0 as int,
                    coords.1 as int,
                    old(self).upwards,
                    old(self).next_horizontal,
                    old(self).side as int,
                );
                &&& final(self).upwards == t.1
                &&& final(self).next_horizontal == t.2
                &&& match t.0 {
                    Some(p) => r == Some((p.0 as usize, p.1 as usize)) && 0 <= p.0 <= old(
                        self,
                    ).side && 0 <= p.1 <= old(self).side,
                    None => r is None,
                }
            }),
    {
        let mut x = coords.0;
        let mut y = coords.1;
        if self.next_horizontal {
            self.next_horizontal = false;
            if x == 0 {
                return None;
            }
            x = x - 1;
        } else {
            self.next_horizontal = true;
            x = x + 1;
            if self.upwards {
                if y == 0 {
                    self.switch_directions();
                    if x >= 2 {
                        x = x - 2;
                    } else {
                        return None;
                    }
                } else {
                    y = y - 1;
                }
            } else {
                y = y + 1;
                if y == self.side - 1 {
                    self.switch_directions();
                    if x >= 2 {
                        x = x - 2;
                    } else {
                        return None;
                    }
                }
            }
        }
        // The vertical timing band is always in column six, so skip it.
        if x == 6 {
            x = x - 1;
        }
        Some((x, y))
    }

    /// Raw steps from `coords` until a free cell, stopping at the end of
    /// the scan or after the step budget.
    pub fn next_position_from(&mut self, coords: Coordinates, code: &QRCode) -> (r: Option<
        Coordinates,
    >)
        requires
            code.wf(),
            old(self).side == spec_side(code.version.num as int),
            coords.0 < old(self).side,
            coords.1 < old(self).side,
        ensures
            final(self).position == old(self).position,
            final(self).side == old(self).side,
            ({
                let t = spec_next_position_from(
                    code.grid(),
                    coords.0 as int,
                    coords.1 as int,
                    old(self).upwards,
                    old(self).next_horizontal,
                    old(self).side as int,
                    spec_scan_fuel(old(self).side as int),
                );
                &&& final(self).upwards == t.1
                &&& final(self).next_horizontal == t.2
                &&& match t.0 {
                    Some(p) => r == Some((p.0 as usize, p.1 as usize)) && 0 <= p.0 < old(
                        self,
                    ).side && 0 <= p.1 < old(self).side,
                    None => r is None,
                }
            }),
    {
        let ghost target = spec_next_position_from(
            code.grid(),
            coords.0 as int,
            coords.1 as int,
            old(self).upwards,
            old(self).next_horizontal,
            old(self).side as int,
            spec_scan_fuel(old(self).side as int),
        );
        let side = self.side;
        proof {
            assert(side <= 1000);
            assert(2 * side * side + 2 <= 2000002) by (nonlinear_arith)
                requires
                    side <= 1000,
            ;
        }
        let mut cur = coords;
        let mut fuel: usize = 2 * side * side + 2;
        loop
            invariant
                cur.0 < side,
                cur.1 < side,
                side == self.side,
                self.side == old(self).side,
                side == spec_side(code.version.num as int),
                side <= 1000,
                code.wf(),
                self.position == old(self).position,
                target == spec_next_position_from(
                    code.grid(),
                    coords.0 as int,
                    coords.1 as int,
                    old(self).upwards,
                    old(self).next_horizontal,
                    old(self).side as int,
                    spec_scan_fuel(old(self).side as int),
                ),
                coords.0 < old(self).side,
                coords.1 < old(self).side,
                spec_next_position_from(
                    code.grid(),
                    cur.0 as int,
                    cur.1 as int,
                    self.upwards,
                    self.next_horizontal,
                    side as int,
                    fuel as nat,
                ) == target,
            decreases fuel,
        {
            if fuel == 0 {
                return None;
            }
            let stepped = self.compute_next(cur);
            match stepped {
                None => {
                    return None;
                },
                Some(p) => {
                    if p.0 >= side || p.1 >= side {
                        return None;
                    }
                    if !code.module(p).zig_zag_skipped() {
                        return Some(p);
                    }
                    cur = p;
                },
            }
            fuel = fuel - 1;
        }
    }

    /// The next free cell after the current position, or the end of the
    /// scan.
    pub fn next_position(&mut self, code: &QRCode) -> (r: Option<Coordinates>)
        requires
            code.wf(),
            old(self).wf(),
            old(self).side == spec_side(code.version.num as int),
        ensures
            final(self).position == old(self).position,
            final(self).side == old(self).side,
            final(self).wf(),
            ({
                let t = spec_scanner_advance(
                    code.grid(),
                    match old(self).position {
                        Some(p) => Some((p.0 as int, p.1 as int)),
                        None => None,
                    },
                    old(self).upwards,
                    old(self).next_horizontal,
                    old(self).side as int,
                );
                &&& final(self).upwards == t.1
                &&& final(self).next_horizontal == t.2
                &&& match t.0 {
                    Some(p) => r == Some((p.0 as usize, p.1 as usize)) && 0 <= p.0 < old(
                        self,
                    ).side && 0 <= p.1 < old(self).side,
                    None => r is None,
                }
            }),
    {
        let pos = self.position;
        if let Some(coords) = pos {
            self.next_position_from(coords, code)
        } else {
            None
        }
    }
}

/// The grid after the first `k` scan positions receive the first `k`
/// bits as data cells.
pub open spec fn spec_place_upto(
    g: Seq<Seq<Module>>,
    coords: Seq<(int, int)>,
    bits: Seq<bool>,
    k: nat,
) -> Seq<Seq<Module>>
    decreases k,
{
    if k == 0 {
        g
    } else {
        let g2 = spec_place_upto(g, coords, bits, (k - 1) as nat);
        spec_set_cell(g2, coords[k - 1].0, coords[k - 1].1, Module::Data(bits[k - 1]))
    }
}

/// The grid after data placement: the scan coordinates of the grid
/// receive the bits in visitation order until either runs out.
pub open spec fn spec_apply_data(g: Seq<Seq<Module>>, side: int, bits: Seq<bool>) -> Seq<
    Seq<Module>,
> {
    let scan = spec_scan_seq(g, side);
    spec_place_upto(
        g,
        scan,
        bits,
        (if scan.len() <= bits.len() {
            scan.len()
        } else {
            bits.len()
        }) as nat,
    )
}

impl QRCode {
    /// Collects the zig-zag visitation order of the current grid.
    pub fn zig_zag_scanner(&self) -> (r: Vec<Coordinates>)
        requires
            self.wf(),
        ensures
            ({
                let ss = spec_scan_seq(self.grid(), spec_side(self.version.num as int));
                &&& r@.len() == ss.len()
                &&& forall|i: int|
                    0 <= i < r@.len() ==> (#[trigger] r@[i]).0 == ss[i].0 && r@[i].1 == ss[i].1
                &&& forall|i: int|
                    0 <= i < r@.len() ==> (#[trigger] r@[i]).0 < spec_side(
                        self.version.num as int,
                    ) && r@[i].1 < spec_side(self.version.num as int)
            }),
    {
        let ghost sidei = spec_side(self.version.num as int);
        let ghost ss = spec_scan_seq(self.grid(), sidei);
        let mut scanner = ZigZagScanner::new(self);
        let side = scanner.side;
        let mut out: Vec<Coordinates> = Vec::new();
        proof {
            assert(side * side + 1 <= 1000001) by (nonlinear_arith)
                requires
                    side <= 1000,
            ;
        }
        let mut fuel: usize = side * side + 1;
        loop
            invariant_except_break
                self.wf(),
                side == sidei,
                sidei == spec_side(self.version.num as int),
                ss == spec_scan_seq(self.grid(), sidei),
                scanner.side == side,
                scanner.wf(),
                out@.len() + spec_scan_from(
                    self.grid(),
                    sidei,
                    match scanner.position {
                        Some(p) => Some((p.0 as int, p.1 as int)),
                        None => None,
                    },
                    scanner.upwards,
                    scanner.next_horizontal,
                    fuel as nat,
                ).len() == ss.len(),
                spec_scan_from(
                    self.grid(),
                    sidei,
                    match scanner.position {
                        Some(p) => Some((p.0 as int, p.1 as int)),
                        None => None,
                    },
                    scanner.upwards,
                    scanner.next_horizontal,
                    fuel as nat,
                ) == ss.skip(out@.len() as int),
                forall|i: int|
                    0 <= i < out@.len() ==> (#[trigger] out@[i]).0 == ss[i].0 && out@[i].1
                        == ss[i].1,
                forall|i: int|
                    0 <= i < out@.len() ==> (#[trigger] out@[i]).0 < side && out@[i].1 < side,
            ensures
                side == sidei,
                out@.len() == ss.len(),
                forall|i: int|
                    0 <= i < out@.len() ==> (#[trigger] out@[i]).0 == ss[i].0 && out@[i].1
                        == ss[i].1,
                forall|i: int|
                    0 <= i < out@.len() ==> (#[trigger] out@[i]).0 < side && out@[i].1 < side,
            decreases fuel,
        {
            let ghost rest = spec_scan_from(
                self.grid(),
                sidei,
                match scanner.position {
                    Some(p) => Some((p.0 as int, p.1 as int)),
                    None => None,
                },
                scanner.upwards,
                scanner.next_horizontal,
                fuel as nat,
            );
            if fuel == 0 {
                proof {
                    assert(ss.skip(out@.len() as int).len() == 0);
                }
                break;
            }
            let pos = scanner.position;
            match pos {
                None => {
                    proof {
                        assert(ss.skip(out@.len() as int).len() == 0);
                    }
                    break;
                },
                Some(coords) => {
                    proof {
                        assert(rest[0] == (coords.0 as int, coords.1 as int));
                        assert(ss[out@.len() as int] == rest[0]);
                    }
                    out.push(coords);
                    let nxt = scanner.next_position(self);
                    scanner.position = nxt;
                    proof {
                        assert(rest.drop_first() =~= ss.skip(out@.len() as int));
                    }
                    fuel = fuel - 1;
                },
            }
        }
        out
    }

    /// Writes the bit stream into the free cells in zig-zag order, one
    /// data cell per bit, until the stream or the free cells run out.
    pub fn insert_data(&mut self, data: &QREncodedData)
        requires
            old(self).wf(),
        ensures
            final(self).wf(),
            final(self).version == old(self).version,
            final(self).grid() == spec_apply_data(
                old(self).grid(),
                spec_side(old(self).version.num as int),
                bit_seq(*data),
            ),
    {
        let ghost g0 = self.grid();
        let ghost sidei = spec_side(self.version.num as int);
        let ghost ss = spec_scan_seq(g0, sidei);
        let coords_order = self.zig_zag_scanner();
        let scan_len = coords_order.len();
        let bits = bits_len(data);
        let count = if scan_len <= bits {
            scan_len
        } else {
            bits
        };
        let mut k: usize = 0;
        while k < count
            invariant
                k <= count,
                count == (if ss.len() <= bit_seq(*data).len() {
                    ss.len() as int
                } else {
                    bit_seq(*data).len() as int
                }),
                scan_len == ss.len(),
                coords_order@.len() == scan_len,
                forall|i: int|
                    0 <= i < scan_len ==> (#[trigger] coords_order@[i]).0 == ss[i].0
                        && coords_order@[i].1 == ss[i].1,
                forall|i: int|
                    0 <= i < scan_len ==> (#[trigger] coords_order@[i]).0 < sidei
                        && coords_order@[i].1 < sidei,
                sidei == spec_side(self.version.num as int),
                self.version == old(self).version,
                self.version.wf(),
                self.rows@.len() == sidei,
                forall|i: int| 0 <= i < sidei ==> (#[trigger] self.rows@[i])@.len() == sidei,
                g0 == old(self).grid(),
                ss == spec_scan_seq(g0, sidei),
                self.grid() == spec_place_upto(g0, ss, bit_seq(*data), k as nat),
            decreases count - k,
        {
            let bit = bits_get(data, k);
            self.set_module(Module::Data(bit), (coords_order[k].0, coords_order[k].1));
            k += 1;
        }
    }
}

/// A grid of unset modules.
pub open spec fn spec_empty_grid(side: int) -> Seq<Seq<Module>> {
    Seq::new(side as nat, |x: int| Seq::new(side as nat, |y: int| Module::Unset))
}

/// The finished matrix of a version and bit stream: finders, timing
/// bands, alignment patterns, format reservation and dark module, then
/// the data bits in zig-zag order.
pub open spec fn spec_qr_matrix(version: Version, bits: Seq<bool>) -> Seq<Seq<Module>> {
    let side = spec_side(version.num as int);
    let after_finders = spec_apply_finder(
        spec_apply_finder(
            spec_apply_finder(spec_empty_grid(side), 0, 0, false, false),
            side - 7,
            0,
            true,
            false,
        ),
        0,
        side - 7,
        false,
        true,
    );
    let after_timing = spec_apply_timing(after_finders, side);
    let coords = spec_alignment_coords(version.num as int);
    let after_alignment = spec_alignments_upto(after_timing, coords, coords.len());
    let after_format = spec_apply_format(after_alignment, side);
    spec_apply_data(after_format, side, bits)
}

impl QRCode {
    /// Builds the matrix for a version: stamps the structural patterns,
    /// then walks the free cells in zig-zag order placing the bit
    /// stream.
    pub fn new(version: Version, bitstream: QREncodedData) -> (r: QRCode)
        requires
            version.wf(),
        ensures
            r.version == version,
            r.wf(),
            r.grid() == spec_qr_matrix(version, bit_seq(bitstream)),
    {
        let per_side = version.modules_per_side() as usize;
        let mut rows: Vec<Vec<Module>> = Vec::new();
        let mut x: usize = 0;
        while x < per_side
            invariant
                x <= per_side,
                rows@.len() == x,
                forall|i: int| 0 <= i < x ==> (#[trigger] rows@[i])@.len() == per_side,
                forall|i: int, j: int|
                    0 <= i < x && 0 <= j < per_side ==> (#[trigger] rows@[i]@[j]) == Module::Unset,
            decreases per_side - x,
        {
            let mut row: Vec<Module> = Vec::new();
            let mut y: usize = 0;
            while y < per_side
                invariant
                    y <= per_side,
                    row@.len() == y,
                    forall|j: int| 0 <= j < y ==> (#[trigger] row@[j]) == Module::Unset,
                decreases per_side - y,
            {
                row.push(Module::Unset);
                y += 1;
            }
            rows.push(row);
            x += 1;
        }
        let mut code = QRCode { version, rows };
        proof {
            assert(code.grid() =~~= spec_empty_grid(spec_side(version.num as int)));
        }
        code.insert_finders();
        code.insert_timing_bands();
        code.insert_alignment_patterns();
        code.insert_format_and_dark();
        code.insert_version_blocks();
        code.insert_data(&bitstream);
        code
    }
}

/// The usable column index once column six, the vertical timing band, is
/// taken out.
pub open spec fn spec_col_rank(x: int) -> int {
    if x < 6 {
        x
    } else {
        x - 1
    }
}

/// Which two-column strip a coordinate lies in, counted from the right.
pub open spec fn spec_strip_of(x: int, side: int) -> int {
    (side - 2 - spec_col_rank(x)) / 2
}

/// The raw traversal index of a cell: strips right to left; within a
/// strip, rows in the strip's direction; within a row, right column
/// first.
pub open spec fn spec_scan_rank(x: int, y: int, side: int) -> int {
    let k = spec_strip_of(x, side);
    let row = if k % 2 == 0 {
        side - 1 - y
    } else {
        y
    };
    k * (2 * side) + row * 2 + (if spec_col_rank(x) % 2 == 1 {
        0int
    } else {
        1int
    })
}

/// The scanner states the walk can reach: the coordinate is a usable
/// cell, the direction matches the strip's parity, and the horizontal
/// flag marks the right column of a strip.
pub open spec fn spec_scan_inv(x: int, y: int, upwards: bool, next_horizontal: bool, side: int) -> bool {
    &&& 0 <= x < side
    &&& x != 6
    &&& 0 <= y < side
    &&& upwards == (spec_strip_of(x, side) % 2 == 0)
    &&& next_horizontal == (spec_col_rank(x) % 2 == 1)
    &&& !upwards ==> y < side - 1
}

/// One raw step from a reachable state lands on a reachable state of
/// strictly larger traversal index.
proof fn lemma_step_advances_rank(x: int, y: int, upwards: bool, next_horizontal: bool, side: int)
    requires
        side % 2 == 1,
        side >= 9,
        spec_scan_inv(x, y, upwards, next_horizontal, side),
    ensures
        ({
            let t = spec_compute_next(x, y, upwards, next_horizontal, side);
            match t.0 {
                Some(p) => spec_scan_inv(p.0, p.1, t.1, t.2, side) && spec_scan_rank(
                    p.0,
                    p.1,
                    side,
                ) > spec_scan_rank(x, y, side),
                None => true,
            }
        }),
{
    let t = spec_compute_next(x, y, upwards, next_horizontal, side);
    let c = spec_col_rank(x);
    let k = spec_strip_of(x, side);
    assert(0 <= c <= side - 2);
    assert(c % 2 == 1 ==> k == (side - 2 - c) / 2 && side - 2 - c == 2 * k);
    if next_horizontal {
        // Right column to left column of the same strip.
        assert(c % 2 == 1);
        assert(x >= 1);
        let nx = spec_skip_timing_col(x - 1);
        assert(spec_col_rank(nx) == c - 1);
        assert(spec_strip_of(nx, side) == k);
        assert(t.0 == Some((nx, y)));
        assert(spec_scan_inv(nx, y, t.1, t.2, side));
        assert(spec_scan_rank(nx, y, side) == spec_scan_rank(x, y, side) + 1);
    } else {
        // Left column; the step moves back to a right column.
        assert(c % 2 == 0);
        let x1 = x + 1;
        if upwards {
            if y == 0 {
                if x1 >= 2 {
                    // Into the next strip, which runs downward.
                    let nx = spec_skip_timing_col(x1 - 2);
                    assert(spec_col_rank(nx) == c - 1);
                    assert(spec_strip_of(nx, side) == k + 1);
                    assert((k + 1) * (2 * side) == k * (2 * side) + 2 * side)
                        by (nonlinear_arith);
                    assert(t.0 == Some((nx, 0int)));
                    assert(spec_scan_inv(nx, 0int, t.1, t.2, side));
                    assert(spec_scan_rank(nx, 0int, side) == spec_scan_rank(x, y, side) + 1);
                }
            } else {
                let nx = spec_skip_timing_col(x1);
                assert(spec_col_rank(nx) == c + 1);
                assert(spec_strip_of(nx, side) == k);
                assert(t.0 == Some((nx, y - 1)));
                assert(spec_scan_inv(nx, y - 1, t.1, t.2, side));
                assert(spec_scan_rank(nx, y - 1, side) == spec_scan_rank(x, y, side) + 1);
            }
        } else {
            let y1 = y + 1;
            if y1 == side - 1 {
                if x1 >= 2 {
                    let nx = spec_skip_timing_col(x1 - 2);
                    assert(spec_col_rank(nx) == c - 1);
                    assert(spec_strip_of(nx, side) == k + 1);
                    assert((k + 1) * (2 * side) == k * (2 * side) + 2 * side)
                        by (nonlinear_arith);
                    assert(t.0 == Some((nx, y1)));
                    assert(spec_scan_inv(nx, y1, t.1, t.2, side));
                    assert(spec_scan_rank(nx, y1, side) > spec_scan_rank(x, y, side));
                }
            } else {
                let nx = spec_skip_timing_col(x1);
                assert(spec_col_rank(nx) == c + 1);
                assert(spec_strip_of(nx, side) == k);
                assert(t.0 == Some((nx, y1)));
                assert(spec_scan_inv(nx, y1, t.1, t.2, side));
                assert(spec_scan_rank(nx, y1, side) == spec_scan_rank(x, y, side) + 1);
            }
        }
    }
}

/// The walk to the next free cell lands on a reachable state of strictly
/// larger traversal index.
proof fn lemma_next_position_advances_rank(
    g: Seq<Seq<Module>>,
    x: int,
    y: int,
    upwards: bool,
    next_horizontal: bool,
    side: int,
    fuel: nat,
)
    requires
        side % 2 == 1,
        side >= 9,
        spec_scan_inv(x, y, upwards, next_horizontal, side),
    ensures
        ({
            let t = spec_next_position_from(g, x, y, upwards, next_horizontal, side, fuel);
            match t.0 {
                Some(p) => spec_scan_inv(p.0, p.1, t.1, t.2, side) && spec_scan_rank(
                    p.0,
                    p.1,
                    side,
                ) > spec_scan_rank(x, y, side),
                None => true,
            }
        }),
    decreases fuel,
{
    if fuel > 0 {
        lemma_step_advances_rank(x, y, upwards, next_horizontal, side);
        let t = spec_compute_next(x, y, upwards, next_horizontal, side);
        match t.0 {
            None => {},
            Some(p) => {
                if 0 <= p.0 < side && 0 <= p.1 < side && spec_zig_zag_skipped(g[p.0][p.1]) {
                    lemma_next_position_advances_rank(
                        g,
                        p.0,
                        p.1,
                        t.1,
                        t.2,
                        side,
                        (fuel - 1) as nat,
                    );
                }
            },
        }
    }
}

/// From a reachable state, the emitted coordinates have strictly
/// increasing traversal indices.
proof fn lemma_scan_from_ranks_increase(
    g: Seq<Seq<Module>>,
    side: int,
    pos: Option<(int, int)>,
    upwards: bool,
    next_horizontal: bool,
    fuel: nat,
)
    requires
        side % 2 == 1,
        side >= 9,
        match pos {
            Some(p) => spec_scan_inv(p.0, p.1, upwards, next_horizontal, side),
            None => true,
        },
    ensures
        ({
            let scan = spec_scan_from(g, side, pos, upwards, next_horizontal, fuel);
            forall|i: int, j: int|
                0 <= i < j < scan.len() ==> spec_scan_rank(
                    (#[trigger] scan[i]).0,
                    scan[i].1,
                    side,
                ) < spec_scan_rank((#[trigger] scan[j]).0, scan[j].1, side)
        }),
    decreases fuel,
{
    let scan = spec_scan_from(g, side, pos, upwards, next_horizontal, fuel);
    if fuel > 0 {
        match pos {
            None => {},
            Some(p) => {
                let t = spec_scanner_advance(g, pos, upwards, next_horizontal, side);
                lemma_next_position_advances_rank(
                    g,
                    p.0,
                    p.1,
                    upwards,
                    next_horizontal,
                    side,
                    spec_scan_fuel(side),
                );
                lemma_scan_from_ranks_increase(g, side, t.0, t.1, t.2, (fuel - 1) as nat);
                let rest = spec_scan_from(g, side, t.0, t.1, t.2, (fuel - 1) as nat);
                assert(scan == seq![p] + rest);
                assert forall|i: int, j: int| 0 <= i < j < scan.len() implies spec_scan_rank(
                    (#[trigger] scan[i]).0,
                    scan[i].1,
                    side,
                ) < spec_scan_rank((#[trigger] scan[j]).0, scan[j].1, side) by {
                    if i == 0 {
                        assert(scan[0] == p);
                        assert(scan[j] == rest[j - 1]);
                        match t.0 {
                            Some(q) => {
                                if j == 1 {
                                    assert(rest[0] == q);
                                } else {
                                    assert(spec_scan_rank(rest[0].0, rest[0].1, side)
                                        < spec_scan_rank(rest[j - 1].0, rest[j - 1].1, side));
                                    assert(rest[0] == q);
                                }
                            },
                            None => {
                                assert(rest.len() == 0);
                            },
                        }
                    } else {
                        assert(scan[i] == rest[i - 1]);
                        assert(scan[j] == rest[j - 1]);
                    }
                }
            },
        }
    }
}

/// The zig-zag scan never visits a coordinate twice.
pub proof fn lemma_scan_never_revisits(g: Seq<Seq<Module>>, side: int)
    requires
        side % 2 == 1,
        side >= 9,
    ensures
        ({
            let scan = spec_scan_seq(g, side);
            forall|i: int, j: int| 0 <= i < j < scan.len() ==> (#[trigger] scan[i]) != (
            #[trigger] scan[j])
        }),
{
    assert(spec_scan_inv(side - 1, side - 1, true, true, side));
    lemma_scan_from_ranks_increase(
        g,
        side,
        Some((side - 1, side - 1)),
        true,
        true,
        (side * side + 1) as nat,
    );
}

} // verus!
