//! Terrain generation: populates a fresh grid and height field from three
//! coherent-noise sample fields, cell by cell, as a pure function of those
//! samples.
//!
//! The samples come from a seeded noise source that the caller runs (its
//! arithmetic is floating-point, which stays outside this library): a
//! multi-octave fractal field sampled coarsely, a single-octave detail field
//! sampled finely, and an independent relief field for the height of filled
//! cells.  Each sample is handed in as thousandths of the unit value, one
//! value per cell in row-major order.

use vstd::prelude::*;

use crate::map::{MineralCell, MineralMap};
use crate::material::{spec_material, MineralType};
use crate::ConfigError;

verus! {

/// The combined terrain value of a cell, in five-thousandths of the unit
/// value: the fractal sample plus one fifth of the detail sample (both in
/// thousandths).
pub open spec fn combined_of(t: int, d: int) -> int {
    5 * t + d
}

/// The cell generated from a fractal sample `t` and a detail sample `d` at
/// row `y` of a grid `h` rows tall: its material comes from the threshold
/// table, and its density (in ten-thousandths) is the combined value shifted
/// from `[-1, 1]` onto `[0, 1]`, unclamped.
pub open spec fn cell_of(t: int, d: int, y: int, h: int) -> MineralCell {
    MineralCell {
        mineral_type: spec_material(combined_of(t, d), y, h),
        density: (combined_of(t, d) + 5000) as i64,
        sampled: false,
        mined: false,
    }
}

/// The height (in ten-thousandths) generated for that cell, given also the
/// relief sample `rl`: zero for an empty cell, otherwise one hundred times
/// the density plus twenty times the relief sample.
pub open spec fn height_of(t: int, d: int, rl: int, y: int, h: int) -> int {
    if spec_material(combined_of(t, d), y, h) == MineralType::Empty {
        0
    } else {
        (combined_of(t, d) + 5000) * 100 + rl * 200
    }
}

/// Whether `m` is exactly the grid that generation produces from the three
/// sample fields at the given dimensions.
pub open spec fn generated_from(
    m: MineralMap,
    terrain: Seq<i32>,
    detail: Seq<i32>,
    relief: Seq<i32>,
    width: usize,
    height: usize,
) -> bool {
    &&& m.wf()
    &&& m.inv()
    &&& m.spec_width() == width
    &&& m.spec_height() == height
    &&& forall|i: int|
        0 <= i < m.spec_len() ==> #[trigger] m.cells()[i] == cell_of(
            terrain[i] as int,
            detail[i] as int,
            i / width as int,
            height as int,
        )
    &&& forall|i: int|
        0 <= i < m.spec_len() ==> #[trigger] m.heights()[i] as int == height_of(
            terrain[i] as int,
            detail[i] as int,
            relief[i] as int,
            i / width as int,
            height as int,
        )
}

/// The coordinates of a row-major index lie inside the grid.
proof fn lemma_rowmajor_coords(i: int, w: int, h: int)
    requires
        1 <= w,
        0 <= i < w * h,
    ensures
        0 <= i % w < w,
        0 <= i / w < h,
{
    assert(0 <= i % w < w && 0 <= i / w < h) by (nonlinear_arith)
        requires
            1 <= w,
            0 <= i < w * h,
    ;
}

impl MineralMap {
    /// Builds the grid and height field from three noise sample fields, one
    /// sample per cell in row-major order and in thousandths of the unit
    /// value.  The result is a pure function of the arguments: calling this
    /// twice on identical samples yields identical cells and heights.  A
    /// zero dimension is refused with a configuration error, as are sample
    /// fields that do not hold exactly one value per cell.
    pub fn generate(
        width: usize,
        height: usize,
        terrain: &Vec<i32>,
        detail: &Vec<i32>,
        relief: &Vec<i32>,
    ) -> (r: Result<MineralMap, ConfigError>)
        requires
            width * height <= usize::MAX,
        ensures
            r is Ok <==> (1 <= width && 1 <= height && terrain@.len() == width * height
                && detail@.len() == width * height && relief@.len() == width * height),
            match r {
                Ok(m) => generated_from(m, terrain@, detail@, relief@, width, height),
                // Zero dimensions are reported before sample-field defects.
                Err(e) => {
                    &&& (e == ConfigError::ZeroDimension <==> (width == 0 || height == 0))
                    &&& (e == ConfigError::SampleCountMismatch <==> (width != 0 && height != 0
                        && (terrain@.len() != width * height || detail@.len() != width * height
                        || relief@.len() != width * height)))
                },
            },
    {
        if width == 0 || height == 0 {
            return Err(ConfigError::ZeroDimension);
        }
        let total = width * height;
        if terrain.len() != total || detail.len() != total || relief.len() != total {
            return Err(ConfigError::SampleCountMismatch);
        }
        let mut data: Vec<MineralCell> = Vec::new();
        let mut heightmap: Vec<i64> = Vec::new();
        let mut i: usize = 0;
        while i < total
            invariant
                1 <= width,
                1 <= height,
                total == width * height,
                terrain@.len() == total,
                detail@.len() == total,
                relief@.len() == total,
                i <= total,
                data@.len() == i,
                heightmap@.len() == i,
                forall|j: int|
                    0 <= j < i ==> #[trigger] data@[j] == cell_of(
                        terrain@[j] as int,
                        detail@[j] as int,
                        j / width as int,
                        height as int,
                    ),
                forall|j: int|
                    0 <= j < i ==> #[trigger] heightmap@[j] as int == height_of(
                        terrain@[j] as int,
                        detail@[j] as int,
                        relief@[j] as int,
                        j / width as int,
                        height as int,
                    ),
            decreases total - i,
        {
            proof {
                lemma_rowmajor_coords(i as int, width as int, height as int);
            }
            let y = i / width;
            let t = terrain[i];
            let d = detail[i];
            let combined: i64 = 5 * (t as i64) + (d as i64);
            let mineral_type = MineralType::from_noise_value(combined, y, height);
            let density: i64 = combined + 5000;
            data.push(MineralCell { mineral_type, density, sampled: false, mined: false });
            let cell_height: i64 = if mineral_type == MineralType::Empty {
                0
            } else {
                density * 100 + (relief[i] as i64) * 200
            };
            heightmap.push(cell_height);
            i = i + 1;
        }
        let m = MineralMap { width, height, data, heightmap };
        proof {
            assert forall|j: int|
                0 <= j < m.spec_len() && m.cells()[j].mineral_type == MineralType::Empty implies m
                .heights()[j] == 0 by {
                assert(m.heights()[j] as int == height_of(
                    terrain@[j] as int,
                    detail@[j] as int,
                    relief@[j] as int,
                    j / width as int,
                    height as int,
                ));
            }
        }
        Ok(m)
    }
}

/// Generation is deterministic: two grids generated from the same sample
/// fields and dimensions are identical, cell for cell and height for height.
pub proof fn lemma_generate_deterministic(
    a: MineralMap,
    b: MineralMap,
    terrain: Seq<i32>,
    detail: Seq<i32>,
    relief: Seq<i32>,
    width: usize,
    height: usize,
)
    requires
        generated_from(a, terrain, detail, relief, width, height),
        generated_from(b, terrain, detail, relief, width, height),
    ensures
        a.cells() == b.cells(),
        a.heights() == b.heights(),
        a.spec_width() == b.spec_width(),
        a.spec_height() == b.spec_height(),
{
    assert(a.cells() =~= b.cells());
    assert forall|i: int| 0 <= i < a.spec_len() implies a.heights()[i] == b.heights()[i] by {
        assert(a.heights()[i] as int == height_of(
            terrain[i] as int,
            detail[i] as int,
            relief[i] as int,
            i / width as int,
            height as int,
        ));
        assert(b.heights()[i] as int == height_of(
            terrain[i] as int,
            detail[i] as int,
            relief[i] as int,
            i / width as int,
            height as int,
        ));
    }
    assert(a.heights() =~= b.heights());
}

} // verus!
