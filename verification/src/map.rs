//! The mineral grid: a row-major array of cells with a parallel height
//! field, always mutated together so that an empty cell keeps height zero.

use vstd::prelude::*;

use crate::material::MineralType;
use crate::ConfigError;

verus! {

/// One grid element: its material, how much of it is present (in
/// ten-thousandths of the unit density), and whether it has been sampled or
/// mined.
#[derive(Clone, Copy, Debug, PartialEq, Eq, Structural)]
pub struct MineralCell {
    pub mineral_type: MineralType,
    /// Density in ten-thousandths of the unit value.  Generation does not
    /// clamp it, so extreme noise can place it outside `[0, 10000]`.
    pub density: i64,
    pub sampled: bool,
    pub mined: bool,
}

impl Default for MineralCell {
    /// An untouched empty cell.
    fn default() -> (c: MineralCell)
        ensures
            c.mineral_type == MineralType::Empty,
            c.density == 0,
            !c.sampled,
            !c.mined,
    {
        MineralCell { mineral_type: MineralType::Empty, density: 0, sampled: false, mined: false }
    }
}

/// The grid and its height field.  `data` and `heightmap` are row-major with
/// `width * height` entries each; heights are in ten-thousandths of the unit
/// height.
pub struct MineralMap {
    pub width: usize,
    pub height: usize,
    pub data: Vec<MineralCell>,
    pub heightmap: Vec<i64>,
}

/// Whether every cell of `cells` that holds no material has height zero in
/// `heights`.
pub open spec fn empty_height_zero(cells: Seq<MineralCell>, heights: Seq<i64>) -> bool {
    forall|i: int|
        0 <= i < cells.len() && cells[i].mineral_type == MineralType::Empty ==> heights[i] == 0
}

impl MineralMap {
    /// Structural well-formedness: both arrays hold exactly one entry per
    /// grid coordinate, and the grid is not degenerate.
    pub open spec fn wf(self) -> bool {
        &&& 1 <= self.width
        &&& 1 <= self.height
        &&& self.data@.len() == self.width * self.height
        &&& self.heightmap@.len() == self.width * self.height
    }

    /// The grid invariant proper: a cell with no material has height zero.
    pub open spec fn inv(self) -> bool {
        empty_height_zero(self.data@, self.heightmap@)
    }

    pub open spec fn spec_width(self) -> usize {
        self.width
    }

    pub open spec fn spec_height(self) -> usize {
        self.height
    }

    pub open spec fn cells(self) -> Seq<MineralCell> {
        self.data@
    }

    pub open spec fn heights(self) -> Seq<i64> {
        self.heightmap@
    }

    /// Cell count of the grid.
    pub open spec fn spec_len(self) -> int {
        self.width * self.height
    }

    pub fn width(&self) -> (w: usize)
        ensures
            w == self.spec_width(),
    {
        self.width
    }

    pub fn height(&self) -> (h: usize)
        ensures
            h == self.spec_height(),
    {
        self.height
    }

    /// Builds a map from parts, checking that the storage matches the
    /// dimensions and that empty cells carry no height.
    pub fn from_parts(width: usize, height: usize, data: Vec<MineralCell>, heightmap: Vec<i64>) -> (r:
        Result<MineralMap, ConfigError>)
        requires
            width * height <= usize::MAX,
        ensures
            match r {
                Ok(m) => {
                    &&& m.wf()
                    &&& m.inv()
                    &&& m.spec_width() == width
                    &&& m.spec_height() == height
                    &&& m.cells() == data@
                    &&& m.heights() == heightmap@
                },
                // The defects are reported in a fixed order: dimensions,
                // then cell storage, then height storage, then the
                // invariant.
                Err(e) => {
                    &&& (e == ConfigError::ZeroDimension <==> (width == 0 || height == 0))
                    &&& (e == ConfigError::CellCountMismatch <==> (width != 0 && height != 0
                        && data@.len() != width * height))
                    &&& (e == ConfigError::HeightCountMismatch <==> (width != 0 && height != 0
                        && data@.len() == width * height && heightmap@.len() != width * height))
                    &&& (e == ConfigError::EmptyCellWithHeight <==> (width != 0 && height != 0
                        && data@.len() == width * height && heightmap@.len() == width * height
                        && !empty_height_zero(data@, heightmap@)))
                },
            },
            r is Err <==> (width == 0 || height == 0 || data@.len() != width * height
                || heightmap@.len() != width * height || !empty_height_zero(data@, heightmap@)),
    {
        if width == 0 || height == 0 {
            return Err(ConfigError::ZeroDimension);
        }
        let total = width * height;
        if data.len() != total {
            return Err(ConfigError::CellCountMismatch);
        }
        if heightmap.len() != total {
            return Err(ConfigError::HeightCountMismatch);
        }
        let mut i: usize = 0;
        while i < total
            invariant
                total == width * height,
                data@.len() == total,
                heightmap@.len() == total,
                forall|j: int|
                    0 <= j < i && data@[j].mineral_type == MineralType::Empty ==> heightmap@[j]
                        == 0,
            decreases total - i,
        {
            if data[i].mineral_type == MineralType::Empty && heightmap[i] != 0 {
                return Err(ConfigError::EmptyCellWithHeight);
            }
            i = i + 1;
        }
        Ok(MineralMap { width, height, data, heightmap })
    }

    /// The cell at `(x, y)`, or nothing when the coordinate is out of bounds.
    pub fn get(&self, x: usize, y: usize) -> (r: Option<&MineralCell>)
        requires
            self.wf(),
        ensures
            match r {
                Some(c) => x < self.spec_width() && y < self.spec_height() && *c == self.cells()[y
                    * self.spec_width() + x],
                None => x >= self.spec_width() || y >= self.spec_height(),
            },
    {
        if x < self.width && y < self.height {
            // The storage length bounds the index arithmetic below.
            let n = self.data.len();
            proof {
                index_in_range(x as int, y as int, self.width as int, self.height as int);
            }
            Some(&self.data[y * self.width + x])
        } else {
            None
        }
    }

    /// A copy of the cell at `(x, y)`, or nothing when out of bounds.
    pub fn cell_at(&self, x: usize, y: usize) -> (r: Option<MineralCell>)
        requires
            self.wf(),
        ensures
            match r {
                Some(c) => x < self.spec_width() && y < self.spec_height() && c == self.cells()[y
                    * self.spec_width() + x],
                None => x >= self.spec_width() || y >= self.spec_height(),
            },
    {
        match self.get(x, y) {
            Some(c) => Some(*c),
            None => None,
        }
    }

    /// The height at `(x, y)` in ten-thousandths, or nothing when out of
    /// bounds.
    pub fn height_at(&self, x: usize, y: usize) -> (r: Option<i64>)
        requires
            self.wf(),
        ensures
            match r {
                Some(v) => x < self.spec_width() && y < self.spec_height() && v == self.heights()[y
                    * self.spec_width() + x],
                None => x >= self.spec_width() || y >= self.spec_height(),
            },
    {
        if x < self.width && y < self.height {
            // The storage length bounds the index arithmetic below.
            let n = self.heightmap.len();
            proof {
                index_in_range(x as int, y as int, self.width as int, self.height as int);
            }
            Some(self.heightmap[y * self.width + x])
        } else {
            None
        }
    }
}

/// Whether `(x, y)` lies in the square of Chebyshev radius `r` around
/// `(cx, cy)`.
pub open spec fn in_mining_square(x: int, y: int, cx: int, cy: int, r: int) -> bool {
    -r <= x - cx <= r && -r <= y - cy <= r
}

/// The cell left behind when material is cleared away: empty, no density, no
/// height contribution, marked mined; the sampled flag survives.
pub open spec fn cleared(c: MineralCell) -> MineralCell {
    MineralCell {
        mineral_type: MineralType::Empty,
        density: 0,
        sampled: c.sampled,
        mined: true,
    }
}

impl MineralMap {
    /// Clears every in-bounds cell within Chebyshev distance `radius` of
    /// `(center_x, center_y)`: the material becomes `Empty` with density and
    /// height zero and the cell is marked mined.  Out-of-bounds parts of the
    /// square are skipped, so a far-away center simply mines nothing.
    pub fn mine(&mut self, center_x: i64, center_y: i64, radius: u32)
        requires
            old(self).wf(),
            old(self).inv(),
        ensures
            final(self).wf(),
            final(self).inv(),
            final(self).spec_width() == old(self).spec_width(),
            final(self).spec_height() == old(self).spec_height(),
            forall|i: int|
                0 <= i < old(self).spec_len() ==> #[trigger] final(self).cells()[i] == (
                if in_mining_square(
                    i % old(self).spec_width() as int,
                    i / old(self).spec_width() as int,
                    center_x as int,
                    center_y as int,
                    radius as int,
                ) {
                    cleared(old(self).cells()[i])
                } else {
                    old(self).cells()[i]
                }),
            forall|i: int|
                0 <= i < old(self).spec_len() ==> #[trigger] final(self).heights()[i] == (
                if in_mining_square(
                    i % old(self).spec_width() as int,
                    i / old(self).spec_width() as int,
                    center_x as int,
                    center_y as int,
                    radius as int,
                ) {
                    0
                } else {
                    old(self).heights()[i]
                }),
    {
        let w = self.width;
        let total = self.data.len();
        let ghost pre_cells = self.data@;
        let ghost pre_heights = self.heightmap@;
        let mut i: usize = 0;
        while i < total
            invariant
                self.wf(),
                w == self.spec_width(),
                total == self.spec_len(),
                self.width == old(self).spec_width(),
                self.height == old(self).spec_height(),
                pre_cells == old(self).cells(),
                pre_heights == old(self).heights(),
                self.data@.len() == total,
                self.heightmap@.len() == total,
                i <= total,
                forall|j: int|
                    0 <= j < i ==> #[trigger] self.data@[j] == (if in_mining_square(
                        j % w as int,
                        j / w as int,
                        center_x as int,
                        center_y as int,
                        radius as int,
                    ) {
                        cleared(pre_cells[j])
                    } else {
                        pre_cells[j]
                    }),
                forall|j: int|
                    0 <= j < i ==> #[trigger] self.heightmap@[j] == (if in_mining_square(
                        j % w as int,
                        j / w as int,
                        center_x as int,
                        center_y as int,
                        radius as int,
                    ) {
                        0
                    } else {
                        pre_heights[j]
                    }),
                forall|j: int| i <= j < total ==> #[trigger] self.data@[j] == pre_cells[j],
                forall|j: int| i <= j < total ==> #[trigger] self.heightmap@[j] == pre_heights[j],
            decreases total - i,
        {
            let x = i % w;
            let y = i / w;
            if within_reach(x, center_x, radius) && within_reach(y, center_y, radius) {
                let c = self.data[i];
                self.data.set(
                    i,
                    MineralCell {
                        mineral_type: MineralType::Empty,
                        density: 0,
                        sampled: c.sampled,
                        mined: true,
                    },
                );
                self.heightmap.set(i, 0);
            }
            i = i + 1;
        }
        proof {
            assert forall|j: int|
                0 <= j < total && self.data@[j].mineral_type == MineralType::Empty implies self
                .heightmap@[j] == 0 by {
                if !in_mining_square(
                    j % w as int,
                    j / w as int,
                    center_x as int,
                    center_y as int,
                    radius as int,
                ) {
                    assert(old(self).cells()[j].mineral_type == MineralType::Empty);
                }
            }
        }
    }
}

/// Whether the coordinate `a` lies within distance `r` of the (possibly
/// negative, possibly far-away) center coordinate `c`.
fn within_reach(a: usize, c: i64, r: u32) -> (b: bool)
    ensures
        b == (-(r as int) <= a - c <= r as int),
{
    let d: i128 = a as i128 - c as i128;
    -(r as i128) <= d && d <= r as i128
}

/// A row-major index lies inside the storage when its coordinates lie inside
/// the grid.
pub proof fn index_in_range(x: int, y: int, w: int, h: int)
    requires
        0 <= x < w,
        0 <= y < h,
    ensures
        0 <= y * w + x < w * h,
{
    assert(0 <= y * w + x < w * h) by (nonlinear_arith)
        requires
            0 <= x < w,
            0 <= y < h,
    ;
}

} // verus!
